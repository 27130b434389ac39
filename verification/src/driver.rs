//! One account's dispatch from its first call to its outcome, and one round
//! over a list of accounts. The chain calls are made by a function that the
//! caller hands in, one call at a time; the loops around them are here.

use crate::account::{AccountView, SourceAccount};
use crate::dispatch::{
    begin_spec, step_spec, DispatchTask, Outcome, RetryPolicy, TaskAction, TaskEvent, TaskPhase,
    TaskView,
};
use crate::metrics::{Metrics, Tally};
use crate::progress::{
    answer, dispatch_spec, lemma_ungated_dispatch, settle, Dispatched, Responses,
};
use vstd::prelude::*;

verus! {

/// The task and the call it asks for after a sequence of answers.
pub open spec fn replay(
    account: AccountView,
    gating: Option<RetryPolicy>,
    round: u64,
    events: Seq<TaskEvent>,
) -> (TaskView, TaskAction)
    decreases events.len(),
{
    if events.len() == 0 {
        begin_spec(account, gating, round)
    } else {
        step_spec(replay(account, gating, round, events.drop_last()).0, events.last())
    }
}

/// The chain's answers as a sequence of events holds them: the receipts in
/// order, the last sequence number and the last answer to a submission.
pub open spec fn responses_of(events: Seq<TaskEvent>) -> Responses
    decreases events.len(),
{
    if events.len() == 0 {
        Responses { receipts: Seq::empty(), nonce: None, submitted: None }
    } else {
        let before = responses_of(events.drop_last());
        match events.last() {
            TaskEvent::Receipt { found } => Responses {
                receipts: before.receipts.push(found),
                ..before
            },
            TaskEvent::Nonce { value } => Responses { nonce: value, ..before },
            TaskEvent::Submitted { tx } => Responses { submitted: tx, ..before },
        }
    }
}

/// Whether `resp` holds the answers given so far: the receipts `known`
/// holds, and its sequence number and submission once they were given.
pub open spec fn agrees(resp: Responses, known: Responses, nonce_seen: bool, submit_seen: bool)
    -> bool {
    &&& forall|i: int| 0 <= i < known.receipts.len() ==> resp.receipt(i) == known.receipts[i]
    &&& nonce_seen ==> resp.nonce == known.nonce
    &&& submit_seen ==> resp.submitted == known.submitted
}

/// A dispatch that was carried out.
#[derive(Debug)]
pub struct Settled {
    /// The account, given back.
    pub account: SourceAccount,
    /// How the dispatch ended; `None` where an answer fitted no call that was
    /// asked for and the dispatch was given up.
    pub outcome: Option<Outcome>,
    /// The answers, in the order in which they came.
    pub events: Vec<TaskEvent>,
}

/// Whether `done` is what the dispatch of `first` for `round` comes to when
/// `respond` makes the chain calls.
///
/// - Every answer on record is one that `respond` gave to the call that was
///   asked for at that point, and none was asked for after the task had
///   ended.
/// - With an outcome, the answers on record took the task to its end, and
///   the outcome is the one it ended with: account and outcome are what
///   [`dispatch_spec`] gives for those answers.
/// - Without an outcome, the last answer on record fitted no call that was
///   asked for.
/// - Either way the account is the task's, and its record does not run
///   ahead of the round.
pub open spec fn carried_out<F: Fn(TaskAction) -> TaskEvent>(
    respond: F,
    first: AccountView,
    gating: Option<RetryPolicy>,
    round: u64,
    done: Settled,
) -> bool {
    &&& done.account@.wf()
    &&& done.account@.behind(round + 1)
    &&& done.account@ == replay(first, gating, round, done.events@).0.account
    &&& forall|i: int|
        0 <= i < done.events@.len() ==> call_ensures(
            respond,
            (replay(first, gating, round, done.events@.take(i)).1,),
            #[trigger] done.events@[i],
        )
    &&& forall|i: int|
        0 <= i < done.events@.len() ==> !((#[trigger] replay(
            first,
            gating,
            round,
            done.events@.take(i),
        )).0.phase is Finished)
    &&& match done.outcome {
        Some(outcome) => {
            &&& replay(first, gating, round, done.events@).0.phase == (TaskPhase::Finished {
                outcome,
            })
            &&& (Dispatched { account: done.account@, outcome }) == dispatch_spec(
                first,
                gating,
                round,
                responses_of(done.events@),
            )
        },
        None => done.events@.len() > 0 && replay(first, gating, round, done.events@).1 is Ignored,
    }
}

/// The counts of a round: one dispatch counted for every outcome.
pub open spec fn pass_tally(settled: Seq<Settled>) -> Tally
    decreases settled.len(),
{
    if settled.len() == 0 {
        Tally { attempted: 0, succeeded: 0 }
    } else {
        let before = pass_tally(settled.drop_last());
        match settled.last().outcome {
            Some(outcome) => before.record(outcome),
            None => before,
        }
    }
}

/// Dispatches one account for `round`: asks `respond` for the answer to each
/// chain call in turn until the dispatch has ended, and for none after that.
/// What comes out is what [`dispatch_spec`] gives for the answers that
/// `respond` gave. An answer that fits no call asked for ends the work
/// without an outcome.
pub fn dispatch_account<F: Fn(TaskAction) -> TaskEvent>(
    account: SourceAccount,
    gating: Option<RetryPolicy>,
    round: u64,
    respond: &F,
) -> (r: Settled)
    requires
        account@.behind(round as int),
        forall|action: TaskAction| call_requires(*respond, (action,)),
    ensures
        carried_out(*respond, account@, gating, round, r),
{
    let ghost first = account@;
    let ghost start = begin_spec(first, gating, round).0;
    let (begun, asked) = DispatchTask::begin(account, gating, round);
    let mut task = begun;
    let mut action = asked;
    let mut events: Vec<TaskEvent> = Vec::new();
    let mut done: Option<Outcome> = task.outcome();
    let ghost mut known = Responses { receipts: Seq::empty(), nonce: None, submitted: None };
    let ghost mut nonce_seen = false;
    let ghost mut submit_seen = false;
    while done.is_none()
        invariant
            forall|action: TaskAction| call_requires(*respond, (action,)),
            first == account@,
            start == begin_spec(first, gating, round).0,
            (task@, action) == replay(first, gating, round, events@),
            !(action is Ignored),
            task@.wf(),
            task@.round == round,
            done == task@.outcome(),
            known == responses_of(events@),
            match task@.phase {
                TaskPhase::AwaitingReceipt { pending, polls } => polls == known.receipts.len()
                    && !nonce_seen && !submit_seen,
                TaskPhase::AwaitingNonce { round } => !nonce_seen && !submit_seen,
                TaskPhase::AwaitingSubmission { round } => nonce_seen && !submit_seen,
                TaskPhase::Finished { outcome } => true,
            },
            forall|resp: Responses|
                agrees(resp, known, nonce_seen, submit_seen) ==> #[trigger] settle(start, resp)
                    == settle(task@, resp),
            forall|i: int|
                0 <= i < events@.len() ==> call_ensures(
                    *respond,
                    (replay(first, gating, round, events@.take(i)).1,),
                    #[trigger] events@[i],
                ),
            forall|i: int|
                0 <= i < events@.len() ==> !((#[trigger] replay(
                    first,
                    gating,
                    round,
                    events@.take(i),
                )).0.phase is Finished),
        decreases task@.remaining(),
    {
        let event = respond(action);
        let ghost before = task@;
        let ghost answered = events@;
        let ghost known_before = known;
        let ghost nonce_before = nonce_seen;
        let ghost submit_before = submit_seen;
        let (next, then) = task.step(event);
        events.push(event);
        proof {
            assert(events@.drop_last() =~= answered);
            assert(events@.take(answered.len() as int) =~= answered);
            assert forall|i: int| 0 <= i < events@.len() implies call_ensures(
                *respond,
                (replay(first, gating, round, events@.take(i)).1,),
                #[trigger] events@[i],
            ) by {
                if i < answered.len() {
                    assert(events@.take(i) =~= answered.take(i));
                }
            }
            assert forall|i: int| 0 <= i < events@.len() implies !((#[trigger] replay(
                first,
                gating,
                round,
                events@.take(i),
            )).0.phase is Finished) by {
                if i < answered.len() {
                    assert(events@.take(i) =~= answered.take(i));
                }
            }
        }
        match then {
            TaskAction::Ignored => {
                let (account, _) = next.release();
                return Settled { account, outcome: None, events };
            },
            _ => {},
        }
        proof {
            known = responses_of(events@);
            match event {
                TaskEvent::Receipt { found } => {},
                TaskEvent::Nonce { value } => {
                    nonce_seen = true;
                },
                TaskEvent::Submitted { tx } => {
                    submit_seen = true;
                },
            }
            assert forall|resp: Responses|
                agrees(resp, known, nonce_seen, submit_seen) implies #[trigger] settle(start, resp)
                == settle(next@, resp) by {
                assert forall|i: int| 0 <= i < known_before.receipts.len() implies resp.receipt(i)
                    == known_before.receipts[i] by {
                    assert(known.receipts[i] == known_before.receipts[i]);
                }
                assert(agrees(resp, known_before, nonce_before, submit_before));
                match event {
                    TaskEvent::Receipt { found } => {
                        let polls = known_before.receipts.len() as int;
                        assert(known.receipts[polls] == found);
                        assert(resp.receipt(polls) == found);
                    },
                    TaskEvent::Nonce { value } => {},
                    TaskEvent::Submitted { tx } => {},
                }
                assert(answer(before, resp) == event);
            }
        }
        task = next;
        action = then;
        done = task.outcome();
    }
    proof {
        assert(agrees(known, known, nonce_seen, submit_seen));
        assert(settle(start, known) == settle(task@, known));
    }
    let (account, outcome) = task.release();
    Settled { account, outcome, events }
}

/// Whether an event answers the call that an action asks for.
pub open spec fn fits(action: TaskAction, event: TaskEvent) -> bool {
    match action {
        TaskAction::PollReceipt { .. } => event is Receipt,
        TaskAction::FetchNonce { .. } => event is Nonce,
        TaskAction::Submit { .. } => event is Submitted,
        TaskAction::Finish { .. } => false,
        TaskAction::Ignored => false,
    }
}

/// Whether an action is the one that a task in its phase asks for.
pub open spec fn asks(task: TaskView, action: TaskAction) -> bool {
    match task.phase {
        TaskPhase::AwaitingReceipt { .. } => action is PollReceipt,
        TaskPhase::AwaitingNonce { .. } => action is FetchNonce,
        TaskPhase::AwaitingSubmission { .. } => action is Submit,
        TaskPhase::Finished { outcome } => action == (TaskAction::Finish { outcome }),
    }
}

/// While every answer fits the call it was given for, the call asked for
/// after any number of answers is the one that goes with the task's phase.
proof fn lemma_replay_asks<F: Fn(TaskAction) -> TaskEvent>(
    respond: F,
    first: AccountView,
    gating: Option<RetryPolicy>,
    round: u64,
    events: Seq<TaskEvent>,
    k: int,
)
    requires
        0 <= k <= events.len(),
        forall|action: TaskAction, event: TaskEvent| #[trigger]
            call_ensures(respond, (action,), event) ==> fits(action, event),
        forall|i: int|
            0 <= i < events.len() ==> call_ensures(
                respond,
                (replay(first, gating, round, events.take(i)).1,),
                #[trigger] events[i],
            ),
        forall|i: int|
            0 <= i < events.len() ==> !((#[trigger] replay(
                first,
                gating,
                round,
                events.take(i),
            )).0.phase is Finished),
    ensures
        asks(
            replay(first, gating, round, events.take(k)).0,
            replay(first, gating, round, events.take(k)).1,
        ),
    decreases k,
{
    if k == 0 {
        assert(events.take(0) =~= Seq::<TaskEvent>::empty());
    } else {
        lemma_replay_asks(respond, first, gating, round, events, k - 1);
        assert(events.take(k).drop_last() =~= events.take(k - 1));
        assert(events.take(k).last() == events[k - 1]);
        let before = replay(first, gating, round, events.take(k - 1));
        assert(!(before.0.phase is Finished));
        assert(fits(before.1, events[k - 1]));
    }
}

/// A responder whose every answer fits the call it was given for brings
/// every dispatch to an outcome.
pub proof fn lemma_fitting_answers_give_an_outcome<F: Fn(TaskAction) -> TaskEvent>(
    respond: F,
    first: AccountView,
    gating: Option<RetryPolicy>,
    round: u64,
    done: Settled,
)
    requires
        carried_out(respond, first, gating, round, done),
        forall|action: TaskAction, event: TaskEvent| #[trigger]
            call_ensures(respond, (action,), event) ==> fits(action, event),
    ensures
        done.outcome is Some,
{
    let events = done.events@;
    lemma_replay_asks(respond, first, gating, round, events, events.len() as int);
    assert(events.take(events.len() as int) =~= events);
}

/// The counts of a round in which every dispatch came to an attempt: as
/// many attempts as there are accounts, while that number fits in a `u64`.
pub proof fn lemma_pass_tally_of_attempts(settled: Seq<Settled>)
    requires
        settled.len() <= u64::MAX,
        forall|i: int|
            0 <= i < settled.len() ==> (#[trigger] settled[i]).outcome is Some
                && settled[i].outcome.unwrap().attempted(),
    ensures
        pass_tally(settled).attempted == settled.len(),
        pass_tally(settled).wf(),
    decreases settled.len(),
{
    if settled.len() > 0 {
        let before = settled.drop_last();
        assert forall|i: int| 0 <= i < before.len() implies (#[trigger] before[i]).outcome is Some
            && before[i].outcome.unwrap().attempted() by {
            assert(before[i] == settled[i]);
        }
        lemma_pass_tally_of_attempts(before);
        assert(settled.last() == settled[settled.len() - 1]);
    }
}

/// Without confirmation gating, and with a responder whose every answer
/// fits the call it was given for, a round makes one attempt for every
/// account: each dispatch ends with an outcome that is an attempt for the
/// round dispatched, and the round's count of attempts is the number of
/// accounts.
pub proof fn lemma_ungated_round_attempts_every_account<F: Fn(TaskAction) -> TaskEvent>(
    respond: F,
    accounts: Seq<AccountView>,
    round: u64,
    settled: Seq<Settled>,
)
    requires
        settled.len() == accounts.len(),
        settled.len() <= u64::MAX,
        forall|action: TaskAction, event: TaskEvent| #[trigger]
            call_ensures(respond, (action,), event) ==> fits(action, event),
        forall|i: int|
            0 <= i < settled.len() ==> carried_out(
                respond,
                accounts[i],
                None,
                round,
                #[trigger] settled[i],
            ),
    ensures
        forall|i: int|
            0 <= i < settled.len() ==> (#[trigger] settled[i]).outcome is Some
                && settled[i].outcome.unwrap().attempted() && settled[i].outcome.unwrap().used_round()
                == Some(round),
        pass_tally(settled).attempted == accounts.len(),
{
    assert forall|i: int| 0 <= i < settled.len() implies (#[trigger] settled[i]).outcome is Some
        && settled[i].outcome.unwrap().attempted() && settled[i].outcome.unwrap().used_round()
        == Some(round) by {
        lemma_fitting_answers_give_an_outcome(respond, accounts[i], None, round, settled[i]);
        lemma_ungated_dispatch(accounts[i], round, responses_of(settled[i].events@));
    }
    lemma_pass_tally_of_attempts(settled);
}

/// A round over a list of accounts.
#[derive(Debug)]
pub struct RoundPass {
    /// What each account's dispatch came to, in the order of the accounts.
    pub settled: Vec<Settled>,
    /// The attempts and the successes of the round.
    pub tally: Tally,
}

/// Dispatches every account of a list for `round`, one after the other, and
/// counts the outcomes. No account's dispatch depends on another's; the
/// accounts are taken from the end of the list.
pub fn dispatch_round<F: Fn(TaskAction) -> TaskEvent>(
    accounts: Vec<SourceAccount>,
    gating: Option<RetryPolicy>,
    round: u64,
    respond: &F,
) -> (r: RoundPass)
    requires
        forall|i: int| 0 <= i < accounts@.len() ==> (#[trigger] accounts@[i])@.behind(round as int),
        forall|action: TaskAction| call_requires(*respond, (action,)),
    ensures
        r.settled@.len() == accounts@.len(),
        forall|i: int|
            0 <= i < r.settled@.len() ==> carried_out(
                *respond,
                accounts@[i]@,
                gating,
                round,
                #[trigger] r.settled@[i],
            ),
        r.tally == pass_tally(r.settled@),
        r.tally.wf(),
{
    let ghost all = accounts@;
    let mut rest = accounts;
    let mut reversed: Vec<Settled> = Vec::new();
    while rest.len() > 0
        invariant
            forall|action: TaskAction| call_requires(*respond, (action,)),
            forall|i: int| 0 <= i < all.len() ==> (#[trigger] all[i])@.behind(round as int),
            rest@.len() <= all.len(),
            rest@ == all.take(rest@.len() as int),
            reversed@.len() == all.len() - rest@.len(),
            forall|k: int|
                0 <= k < reversed@.len() ==> carried_out(
                    *respond,
                    all[all.len() - 1 - k]@,
                    gating,
                    round,
                    #[trigger] reversed@[k],
                ),
        decreases rest@.len(),
    {
        let ghost left = rest@.len();
        let account = rest.pop().unwrap();
        proof {
            assert(account == all[left - 1]);
            assert(rest@ =~= all.take(left - 1));
        }
        let done = dispatch_account(account, gating, round, respond);
        reversed.push(done);
    }
    let mut settled: Vec<Settled> = Vec::new();
    let mut metrics = Metrics::new();
    while reversed.len() > 0
        invariant
            settled@.len() + reversed@.len() == all.len(),
            forall|k: int|
                0 <= k < reversed@.len() ==> carried_out(
                    *respond,
                    all[all.len() - 1 - k]@,
                    gating,
                    round,
                    #[trigger] reversed@[k],
                ),
            forall|k: int|
                0 <= k < settled@.len() ==> carried_out(
                    *respond,
                    all[k]@,
                    gating,
                    round,
                    #[trigger] settled@[k],
                ),
            metrics@ == pass_tally(settled@),
            metrics@.wf(),
        decreases reversed@.len(),
    {
        let ghost counted = settled@;
        let done = reversed.pop().unwrap();
        match done.outcome {
            Some(outcome) => {
                metrics.record(&outcome);
            },
            None => {},
        }
        settled.push(done);
        proof {
            assert(settled@.drop_last() =~= counted);
        }
    }
    RoundPass { settled, tally: metrics.snapshot() }
}

} // verus!
