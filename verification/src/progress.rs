//! What a whole dispatch and a whole run come to, given what the chain
//! answers, and the laws of gating that follow.
//!
//! A dispatch is the steps of [`crate::dispatch`] taken to their end; a run
//! is one dispatch per round. The chain's answers are a parameter, so every
//! law here holds whatever the chain does.

use crate::account::{AccountView, Submission};
use crate::dispatch::{
    begin_spec, step_spec, Outcome, RetryPolicy, TaskEvent, TaskPhase, TaskView,
};
use crate::keys::TxHash;
use crate::scheduler::{
    after, dispatched, lemma_rounds_in_order, Event, Pacing, RoundLimit, Stage, State, StopReason,
};
use crate::uint256::Uint256;
use vstd::prelude::*;

verus! {

/// The chain's answers to one dispatch.
pub struct Responses {
    /// The answer to each receipt poll, in order: the receipt and whether it
    /// reports success, or `None` for no receipt. Polls beyond the end of
    /// the list find no receipt.
    pub receipts: Seq<Option<bool>>,
    /// The answer to the sequence number query.
    pub nonce: Option<Uint256>,
    /// The answer to the submission.
    pub submitted: Option<TxHash>,
}

impl Responses {
    /// The first poll finds a receipt that reports success.
    pub open spec fn confirms_at_once(self) -> bool {
        self.receipts.len() > 0 && self.receipts[0] == Some(true)
    }

    /// No poll finds a receipt that reports success.
    pub open spec fn never_confirms(self) -> bool {
        forall|i: int| 0 <= i < self.receipts.len() ==> self.receipts[i] != Some(true)
    }

    /// The answer to the poll made after `polls` earlier ones.
    pub open spec fn receipt(self, polls: int) -> Option<bool> {
        if 0 <= polls < self.receipts.len() {
            self.receipts[polls]
        } else {
            None
        }
    }
}

/// The event that answers the call a task waits on.
pub open spec fn answer(task: TaskView, resp: Responses) -> TaskEvent {
    match task.phase {
        TaskPhase::AwaitingReceipt { pending, polls } => TaskEvent::Receipt {
            found: resp.receipt(polls as int),
        },
        TaskPhase::AwaitingNonce { round } => TaskEvent::Nonce { value: resp.nonce },
        TaskPhase::AwaitingSubmission { round } => TaskEvent::Submitted { tx: resp.submitted },
        TaskPhase::Finished { outcome } => TaskEvent::Submitted { tx: None },
    }
}

/// The task after every call it asks for has been answered.
pub open spec fn settle(task: TaskView, resp: Responses) -> TaskView
    decreases task.remaining(),
{
    if task.phase is Finished {
        task
    } else {
        settle(step_spec(task, answer(task, resp)).0, resp)
    }
}

/// An account and how its dispatch ended.
pub struct Dispatched {
    pub account: AccountView,
    pub outcome: Outcome,
}

/// One whole dispatch of `round`.
pub open spec fn dispatch_spec(
    account: AccountView,
    gating: Option<RetryPolicy>,
    round: u64,
    resp: Responses,
) -> Dispatched {
    let end = settle(begin_spec(account, gating, round).0, resp);
    Dispatched {
        account: end.account,
        outcome: match end.phase {
            TaskPhase::Finished { outcome } => outcome,
            _ => Outcome::Stalled,
        },
    }
}

/// An account after some rounds, and how each of them ended.
pub struct RunView {
    pub account: AccountView,
    pub trail: Seq<Outcome>,
}

/// The rounds `first`, `first + 1`, ... up to `rounds` of them, one dispatch
/// each; `oracle` gives the chain's answers for each round.
pub open spec fn run_spec(
    account: AccountView,
    gating: Option<RetryPolicy>,
    first: nat,
    rounds: nat,
    oracle: spec_fn(nat) -> Responses,
) -> RunView
    decreases rounds,
{
    if rounds == 0 {
        RunView { account, trail: Seq::empty() }
    } else {
        let before = run_spec(account, gating, first, (rounds - 1) as nat, oracle);
        let round = (first + rounds - 1) as nat;
        let done = dispatch_spec(before.account, gating, round as u64, oracle(round));
        RunView { account: done.account, trail: before.trail.push(done.outcome) }
    }
}

/// How many dispatches of a trail count as attempts.
pub open spec fn attempts(trail: Seq<Outcome>) -> nat
    decreases trail.len(),
{
    if trail.len() == 0 {
        0
    } else {
        attempts(trail.drop_last()) + if trail.last().attempted() {
            1nat
        } else {
            0nat
        }
    }
}

/// How many dispatches of a trail ended with an accepted transfer.
pub open spec fn successes(trail: Seq<Outcome>) -> nat
    decreases trail.len(),
{
    if trail.len() == 0 {
        0
    } else {
        successes(trail.drop_last()) + if trail.last().succeeded() {
            1nat
        } else {
            0nat
        }
    }
}

/// Every account of a pool run side by side; `oracle` gives the chain's
/// answers for each account and round.
pub open spec fn pool_run_spec(
    accounts: Seq<AccountView>,
    gating: Option<RetryPolicy>,
    first: nat,
    rounds: nat,
    oracle: spec_fn(int, nat) -> Responses,
) -> Seq<RunView> {
    Seq::new(
        accounts.len(),
        |i: int| run_spec(accounts[i], gating, first, rounds, |round: nat| oracle(i, round)),
    )
}

/// A task that waits on the sequence number finishes with an attempt for the
/// round it waits for, and leaves the record alone unless gating is on.
proof fn lemma_settle_from_nonce(task: TaskView, resp: Responses)
    requires
        task.phase is AwaitingNonce,
    ensures
        settle(task, resp).phase is Finished,
        settle(task, resp).outcome().unwrap().attempted(),
        settle(task, resp).outcome().unwrap().used_round() == Some(
            task.phase->AwaitingNonce_round,
        ),
        settle(task, resp).gating == task.gating,
        settle(task, resp).round == task.round,
        settle(task, resp).account.targets == task.account.targets,
        settle(task, resp).account.address == task.account.address,
        settle(task, resp).account.secret == task.account.secret,
        settle(task, resp).outcome().unwrap() == (match (resp.nonce, resp.submitted) {
            (None, _) => Outcome::NonceUnavailable { round: task.phase->AwaitingNonce_round },
            (Some(_), None) => Outcome::Rejected { round: task.phase->AwaitingNonce_round },
            (Some(_), Some(tx)) => Outcome::Accepted {
                round: task.phase->AwaitingNonce_round,
                tx,
            },
        }),
        settle(task, resp).account.last_submission == (match (
            task.gating,
            resp.nonce,
            resp.submitted,
        ) {
            (Some(_), Some(_), Some(tx)) => Some(
                Submission { tx, round: task.phase->AwaitingNonce_round },
            ),
            _ => task.account.last_submission,
        }),
{
    reveal_with_fuel(settle, 3);
}

/// A task that polls and never finds a receipt that reports success ends
/// stalled, with the account as it was.
proof fn lemma_settle_unconfirmed(task: TaskView, resp: Responses)
    requires
        task.phase is AwaitingReceipt,
        resp.never_confirms(),
    ensures
        settle(task, resp).phase == (TaskPhase::Finished { outcome: Outcome::Stalled }),
        settle(task, resp).account == task.account,
    decreases task.remaining(),
{
    let polls = task.phase->AwaitingReceipt_polls;
    assert(resp.receipt(polls as int) != Some(true));
    let next = step_spec(task, answer(task, resp)).0;
    if polls + 1 < task.budget() {
        lemma_settle_unconfirmed(next, resp);
    } else {
        reveal_with_fuel(settle, 2);
    }
}

/// Without gating every dispatch is an attempt for the round dispatched,
/// and the account stays as it was.
pub proof fn lemma_ungated_dispatch(account: AccountView, round: u64, resp: Responses)
    ensures
        dispatch_spec(account, None, round, resp).outcome.attempted(),
        dispatch_spec(account, None, round, resp).outcome.used_round() == Some(round),
        dispatch_spec(account, None, round, resp).account == account,
{
    lemma_settle_from_nonce(begin_spec(account, None, round).0, resp);
    assert(dispatch_spec(account, None, round, resp).account =~= account);
}

/// Under gating, an account with no submission on record, or one whose
/// receipt the first poll finds and finds to report success, is dispatched
/// as it would be without gating, provided the recorded submission came from
/// the round before.
pub proof fn lemma_confirmed_dispatch(
    account: AccountView,
    policy: RetryPolicy,
    round: u64,
    resp: Responses,
)
    requires
        policy.attempts >= 1,
        account.last_submission matches Some(s) ==> s.round + 1 == round && resp.confirms_at_once(),
    ensures
        dispatch_spec(account, Some(policy), round, resp).outcome == dispatch_spec(
            account.with_submission(None),
            None,
            round,
            resp,
        ).outcome,
        dispatch_spec(account, Some(policy), round, resp).account.last_submission matches Some(s)
            ==> s.round == round,
        dispatch_spec(account, Some(policy), round, resp).account.targets == account.targets,
        dispatch_spec(account, Some(policy), round, resp).account.address == account.address,
        dispatch_spec(account, Some(policy), round, resp).account.secret == account.secret,
{
    let gated = begin_spec(account, Some(policy), round).0;
    let plain = begin_spec(account.with_submission(None), None, round).0;
    lemma_settle_from_nonce(plain, resp);
    match account.last_submission {
        Some(pending) => {
            let next = step_spec(gated, answer(gated, resp)).0;
            assert(next.phase == TaskPhase::AwaitingNonce { round });
            assert(settle(gated, resp) == settle(next, resp)) by {
                reveal_with_fuel(settle, 2);
            }
            lemma_settle_from_nonce(next, resp);
        },
        None => {
            lemma_settle_from_nonce(gated, resp);
        },
    }
}

/// Under gating, an account whose recorded submission is never seen to
/// confirm is skipped: nothing is sent and the account stays as it was.
pub proof fn lemma_unconfirmed_dispatch(
    account: AccountView,
    policy: RetryPolicy,
    round: u64,
    resp: Responses,
)
    requires
        account.last_submission is Some,
        resp.never_confirms(),
    ensures
        dispatch_spec(account, Some(policy), round, resp).outcome == Outcome::Stalled,
        dispatch_spec(account, Some(policy), round, resp).account == account,
{
    let task = begin_spec(account, Some(policy), round).0;
    if policy.attempts == 0 {
        reveal_with_fuel(settle, 1);
    } else {
        lemma_settle_unconfirmed(task, resp);
    }
}

/// A task that polls makes an attempt only after a poll within the budget
/// has found a receipt that reports success, and then for the round after
/// the confirmed one.
proof fn lemma_settle_after_receipt(task: TaskView, resp: Responses)
    requires
        task.phase is AwaitingReceipt,
        task.phase->AwaitingReceipt_polls < task.budget(),
        settle(task, resp).phase is Finished,
        settle(task, resp).outcome().unwrap().attempted(),
    ensures
        exists|k: int|
            task.phase->AwaitingReceipt_polls <= k < task.budget() && (#[trigger] resp.receipt(
                k,
            )) == Some(true),
        settle(task, resp).outcome().unwrap().used_round() == Some(
            (task.phase->AwaitingReceipt_pending.round + 1) as u64,
        ),
    decreases task.remaining(),
{
    let polls = task.phase->AwaitingReceipt_polls;
    let next = step_spec(task, answer(task, resp)).0;
    if resp.receipt(polls as int) == Some(true) {
        lemma_settle_from_nonce(next, resp);
        reveal_with_fuel(settle, 2);
    } else if polls + 1 < task.budget() {
        assert(settle(task, resp) == settle(next, resp)) by {
            reveal_with_fuel(settle, 2);
        }
        lemma_settle_after_receipt(next, resp);
        let k = choose|k: int|
            polls + 1 <= k < task.budget() && (#[trigger] resp.receipt(k)) == Some(true);
        assert(polls <= k < task.budget() && resp.receipt(k) == Some(true));
    } else {
        reveal_with_fuel(settle, 2);
    }
}

/// Under gating, an account with a submission on record sends nothing
/// before that submission is seen to confirm: if its dispatch is an
/// attempt, a poll within the budget found a receipt that reports success,
/// and the attempt is for the round after the confirmed one.
pub proof fn lemma_gated_dispatch_waits_for_confirmation(
    account: AccountView,
    policy: RetryPolicy,
    round: u64,
    resp: Responses,
)
    requires
        account.last_submission is Some,
        dispatch_spec(account, Some(policy), round, resp).outcome.attempted(),
    ensures
        exists|k: int| 0 <= k < policy.attempts && (#[trigger] resp.receipt(k)) == Some(true),
        dispatch_spec(account, Some(policy), round, resp).outcome.used_round() == Some(
            (account.last_submission.unwrap().round + 1) as u64,
        ),
{
    let task = begin_spec(account, Some(policy), round).0;
    if policy.attempts == 0 {
        reveal_with_fuel(settle, 1);
    } else {
        lemma_settle_ends(task, resp);
        lemma_settle_after_receipt(task, resp);
    }
}

/// Every task comes to an end.
proof fn lemma_settle_ends(task: TaskView, resp: Responses)
    ensures
        settle(task, resp).phase is Finished,
    decreases task.remaining(),
{
    if !(task.phase is Finished) {
        lemma_settle_ends(step_spec(task, answer(task, resp)).0, resp);
    }
}

/// A dispatch keeps the account well formed and never puts a round on
/// record that lies after the round dispatched.
pub proof fn lemma_dispatch_stays_behind(
    account: AccountView,
    gating: Option<RetryPolicy>,
    round: u64,
    resp: Responses,
)
    requires
        account.wf(),
        account.behind(round as int),
    ensures
        dispatch_spec(account, gating, round, resp).account.wf(),
        dispatch_spec(account, gating, round, resp).account.behind(round + 1),
        dispatch_spec(account, gating, round, resp).outcome.used_round() matches Some(used)
            ==> used <= round,
{
    lemma_settle_stays_behind(begin_spec(account, gating, round).0, resp);
}

proof fn lemma_settle_stays_behind(task: TaskView, resp: Responses)
    requires
        task.wf(),
        task.phase matches TaskPhase::Finished { outcome } ==> (outcome.used_round() matches Some(
            used,
        ) ==> used <= task.round),
    ensures
        settle(task, resp).wf(),
        settle(task, resp).round == task.round,
        settle(task, resp).phase is Finished,
        settle(task, resp).outcome().unwrap().used_round() matches Some(used) ==> used
            <= task.round,
    decreases task.remaining(),
{
    if !(task.phase is Finished) {
        lemma_settle_stays_behind(step_spec(task, answer(task, resp)).0, resp);
    }
}

/// The successes of a trail are among its attempts.
pub proof fn lemma_successes_within_attempts(trail: Seq<Outcome>)
    ensures
        successes(trail) <= attempts(trail) <= trail.len(),
    decreases trail.len(),
{
    if trail.len() > 0 {
        lemma_successes_within_attempts(trail.drop_last());
    }
}

/// A run has one outcome per round.
pub proof fn lemma_run_length(
    account: AccountView,
    gating: Option<RetryPolicy>,
    first: nat,
    rounds: nat,
    oracle: spec_fn(nat) -> Responses,
)
    ensures
        run_spec(account, gating, first, rounds, oracle).trail.len() == rounds,
    decreases rounds,
{
    if rounds > 0 {
        lemma_run_length(account, gating, first, (rounds - 1) as nat, oracle);
    }
}

/// Without confirmation gating an account is dispatched in every round of a
/// run, for the target of that round, whatever the chain answers: the
/// number of attempts is the number of rounds.
pub proof fn lemma_ungated_run_attempts_every_round(
    account: AccountView,
    first: nat,
    rounds: nat,
    oracle: spec_fn(nat) -> Responses,
)
    requires
        first + rounds <= u64::MAX + 1,
    ensures
        run_spec(account, None, first, rounds, oracle).account == account,
        run_spec(account, None, first, rounds, oracle).trail.len() == rounds,
        attempts(run_spec(account, None, first, rounds, oracle).trail) == rounds,
        forall|i: int|
            0 <= i < rounds ==> (#[trigger] run_spec(
                account,
                None,
                first,
                rounds,
                oracle,
            ).trail[i]).used_round() == Some((first + i) as u64),
    decreases rounds,
{
    if rounds > 0 {
        let before = run_spec(account, None, first, (rounds - 1) as nat, oracle);
        lemma_ungated_run_attempts_every_round(account, first, (rounds - 1) as nat, oracle);
        let round = (first + rounds - 1) as nat;
        lemma_ungated_dispatch(before.account, round as u64, oracle(round));
        let run = run_spec(account, None, first, rounds, oracle);
        assert(run.trail.drop_last() =~= before.trail);
    }
}

/// With confirmation gating and a chain that shows every receipt at the
/// first poll, and shows it to report success, an account that starts with
/// no submission on record goes
/// through a run round for round as it does without gating.
pub proof fn lemma_prompt_confirmation_matches_ungated(
    account: AccountView,
    policy: RetryPolicy,
    first: nat,
    rounds: nat,
    oracle: spec_fn(nat) -> Responses,
)
    requires
        policy.attempts >= 1,
        account.last_submission is None,
        first + rounds <= u64::MAX + 1,
        forall|round: nat| first <= round < first + rounds ==> (#[trigger] oracle(round)).confirms_at_once(),
    ensures
        run_spec(account, Some(policy), first, rounds, oracle).trail == run_spec(
            account,
            None,
            first,
            rounds,
            oracle,
        ).trail,
        run_spec(account, Some(policy), first, rounds, oracle).account.with_submission(None)
            == account,
        rounds > 0 ==> (run_spec(
            account,
            Some(policy),
            first,
            rounds,
            oracle,
        ).account.last_submission matches Some(s) ==> s.round == first + rounds - 1),
    decreases rounds,
{
    if rounds > 0 {
        let gated = run_spec(account, Some(policy), first, (rounds - 1) as nat, oracle);
        let plain = run_spec(account, None, first, (rounds - 1) as nat, oracle);
        lemma_prompt_confirmation_matches_ungated(
            account,
            policy,
            first,
            (rounds - 1) as nat,
            oracle,
        );
        lemma_ungated_run_attempts_every_round(account, first, (rounds - 1) as nat, oracle);
        let round = (first + rounds - 1) as nat;
        assert(oracle(round).confirms_at_once());
        lemma_confirmed_dispatch(gated.account, policy, round as u64, oracle(round));
        let done = dispatch_spec(gated.account, Some(policy), round as u64, oracle(round));
        assert(done.account.with_submission(None) =~= account);
        assert(run_spec(account, Some(policy), first, rounds, oracle).trail =~= run_spec(
            account,
            None,
            first,
            rounds,
            oracle,
        ).trail);
    } else {
        assert(account.with_submission(None) =~= account);
    }
}

/// With confirmation gating and a chain that never shows a receipt that
/// reports success for the submission an account has on record, that
/// account is skipped in every round: it makes no attempt and keeps waiting
/// on the same submission, so its own round falls behind the rounds
/// dispatched.
pub proof fn lemma_unconfirmed_account_stalls(
    account: AccountView,
    policy: RetryPolicy,
    first: nat,
    rounds: nat,
    oracle: spec_fn(nat) -> Responses,
)
    requires
        account.last_submission is Some,
        first + rounds <= u64::MAX + 1,
        forall|round: nat| first <= round < first + rounds ==> (#[trigger] oracle(round)).never_confirms(),
    ensures
        run_spec(account, Some(policy), first, rounds, oracle).account == account,
        run_spec(account, Some(policy), first, rounds, oracle).trail.len() == rounds,
        attempts(run_spec(account, Some(policy), first, rounds, oracle).trail) == 0,
        forall|i: int|
            0 <= i < rounds ==> #[trigger] run_spec(
                account,
                Some(policy),
                first,
                rounds,
                oracle,
            ).trail[i] == Outcome::Stalled,
    decreases rounds,
{
    if rounds > 0 {
        let before = run_spec(account, Some(policy), first, (rounds - 1) as nat, oracle);
        lemma_unconfirmed_account_stalls(account, policy, first, (rounds - 1) as nat, oracle);
        let round = (first + rounds - 1) as nat;
        assert(oracle(round).never_confirms());
        lemma_unconfirmed_dispatch(before.account, policy, round as u64, oracle(round));
        let run = run_spec(account, Some(policy), first, rounds, oracle);
        assert(run.trail.drop_last() =~= before.trail);
    }
}

/// Under gating with a budget of at least one poll, a dispatch whose first
/// poll finds a receipt that reports success is an attempt, whatever the
/// account has on record. With a record the attempt is for the round after
/// the recorded one, without one for the round dispatched. An accepted
/// transfer goes on record under the round it was made for; after any other
/// outcome nothing is on record.
pub proof fn lemma_prompt_dispatch(
    account: AccountView,
    policy: RetryPolicy,
    round: u64,
    resp: Responses,
)
    requires
        policy.attempts >= 1,
        resp.confirms_at_once(),
    ensures
        dispatch_spec(account, Some(policy), round, resp).outcome.attempted(),
        dispatch_spec(account, Some(policy), round, resp).outcome.used_round() == Some(
            match account.last_submission {
                Some(s) => (s.round + 1) as u64,
                None => round,
            },
        ),
        dispatch_spec(account, Some(policy), round, resp).account.last_submission == (
        match dispatch_spec(account, Some(policy), round, resp).outcome {
            Outcome::Accepted { round: used, tx } => Some(Submission { tx, round: used }),
            _ => None,
        }),
{
    let task = begin_spec(account, Some(policy), round).0;
    match account.last_submission {
        Some(pending) => {
            let next = step_spec(task, answer(task, resp)).0;
            assert(settle(task, resp) == settle(next, resp)) by {
                reveal_with_fuel(settle, 2);
            }
            lemma_settle_from_nonce(next, resp);
        },
        None => {
            lemma_settle_from_nonce(task, resp);
        },
    }
}

/// Under gating with a budget of at least one poll and a chain that shows
/// every receipt at the first poll, and shows it to report success, an
/// account attempts every round of a run, whatever it starts with on record.
pub proof fn lemma_prompt_confirmation_attempts_every_round(
    account: AccountView,
    policy: RetryPolicy,
    first: nat,
    rounds: nat,
    oracle: spec_fn(nat) -> Responses,
)
    requires
        policy.attempts >= 1,
        first + rounds <= u64::MAX + 1,
        forall|round: nat|
            first <= round < first + rounds ==> (#[trigger] oracle(round)).confirms_at_once(),
    ensures
        run_spec(account, Some(policy), first, rounds, oracle).trail.len() == rounds,
        attempts(run_spec(account, Some(policy), first, rounds, oracle).trail) == rounds,
        forall|i: int|
            0 <= i < rounds ==> (#[trigger] run_spec(
                account,
                Some(policy),
                first,
                rounds,
                oracle,
            ).trail[i]).attempted(),
    decreases rounds,
{
    if rounds > 0 {
        let before = run_spec(account, Some(policy), first, (rounds - 1) as nat, oracle);
        lemma_prompt_confirmation_attempts_every_round(
            account,
            policy,
            first,
            (rounds - 1) as nat,
            oracle,
        );
        let round = (first + rounds - 1) as nat;
        assert(oracle(round).confirms_at_once());
        lemma_prompt_dispatch(before.account, policy, round as u64, oracle(round));
        let run = run_spec(account, Some(policy), first, rounds, oracle);
        assert(run.trail.drop_last() =~= before.trail);
    }
}

/// Gating is per account. In a pool run where the chain never shows the
/// receipt that account `stalled` waits on to report success, that account
/// makes no attempt and stays as it was, while every other account whose
/// receipts are shown at the first poll attempts every round, whatever it
/// starts with on record.
pub proof fn lemma_stalled_account_holds_up_no_other(
    accounts: Seq<AccountView>,
    policy: RetryPolicy,
    first: nat,
    rounds: nat,
    oracle: spec_fn(int, nat) -> Responses,
    stalled: int,
    other: int,
)
    requires
        policy.attempts >= 1,
        first + rounds <= u64::MAX + 1,
        0 <= stalled < accounts.len(),
        0 <= other < accounts.len(),
        stalled != other,
        accounts[stalled].last_submission is Some,
        forall|round: nat|
            first <= round < first + rounds ==> (#[trigger] oracle(stalled, round)).never_confirms(),
        forall|round: nat|
            first <= round < first + rounds ==> (#[trigger] oracle(other, round)).confirms_at_once(),
    ensures
        attempts(pool_run_spec(accounts, Some(policy), first, rounds, oracle)[stalled].trail) == 0,
        pool_run_spec(accounts, Some(policy), first, rounds, oracle)[stalled].account
            == accounts[stalled],
        attempts(pool_run_spec(accounts, Some(policy), first, rounds, oracle)[other].trail)
            == rounds,
{
    let stalled_oracle = |round: nat| oracle(stalled, round);
    let other_oracle = |round: nat| oracle(other, round);
    assert forall|round: nat| first <= round < first + rounds implies (#[trigger] stalled_oracle(
        round,
    )).never_confirms() by {
        assert(oracle(stalled, round).never_confirms());
    }
    assert forall|round: nat| first <= round < first + rounds implies (#[trigger] other_oracle(
        round,
    )).confirms_at_once() by {
        assert(oracle(other, round).confirms_at_once());
    }
    lemma_unconfirmed_account_stalls(accounts[stalled], policy, first, rounds, stalled_oracle);
    lemma_prompt_confirmation_attempts_every_round(
        accounts[other],
        policy,
        first,
        rounds,
        other_oracle,
    );
}

/// Pacing skips no account. A run without confirmation gating that stopped
/// as completed has dispatched the rounds `0, 1, ...` up to the last, each
/// once, whatever heights the chain reported and in whatever order the
/// reports came; and over those rounds every account makes exactly as many
/// attempts as the run has rounds.
pub proof fn lemma_pacing_skips_no_account(
    pacing: Pacing,
    limit: RoundLimit,
    events: Seq<Event>,
    account: AccountView,
    oracle: spec_fn(nat) -> Responses,
)
    requires
        pacing.valid(),
        limit.cap() > 0,
        after(State::fresh(pacing, limit), events).stage == (
        Stage::Terminal { reason: StopReason::Completed }),
    ensures
        dispatched(State::fresh(pacing, limit), events).len()
            == limit.cap(),
        forall|i: int|
            0 <= i < limit.cap() ==> dispatched(
                State::fresh(pacing, limit),
                events,
            )[i] == i,
        attempts(run_spec(account, None, 0, limit.cap() as nat, oracle).trail) == limit.cap(),
{
    lemma_rounds_in_order(pacing, limit, events);
    lemma_ungated_run_attempts_every_round(account, 0, limit.cap() as nat, oracle);
}

} // verus!
