//! One account's dispatch in one round, as a state machine without I/O.
//!
//! The task owns its account for the length of the dispatch. It names the
//! chain call to make next ([`TaskAction`]), the caller makes it and hands
//! back what the chain answered ([`TaskEvent`]). With confirmation gating the
//! task first polls for the receipt of the account's last submission, within
//! the retry budget. Only a receipt that reports success lets the account go
//! on; an account that sees none is skipped for this round and keeps waiting
//! on the same submission.

use crate::account::{AccountView, SourceAccount, Submission};
use crate::keys::{Address, SecretKey, TxHash};
use crate::uint256::Uint256;
use vstd::prelude::*;

verus! {

/// How often a receipt is asked for before the account counts as stalled,
/// and how long to wait between two polls.
#[derive(Clone, Copy, Debug, PartialEq, Eq)]
pub struct RetryPolicy {
    pub attempts: u64,
    pub delay_millis: u64,
}

/// How one account's dispatch ended. `round` is the round whose target was
/// used, which under gating may lie before the round being dispatched.
#[derive(Clone, Copy, Debug, PartialEq, Eq)]
pub enum Outcome {
    /// No receipt of the last submission that reports success arrived:
    /// nothing was sent.
    Stalled,
    /// The sequence number could not be fetched.
    NonceUnavailable { round: u64 },
    /// The chain refused the transfer.
    Rejected { round: u64 },
    /// The chain accepted the transfer.
    Accepted { round: u64, tx: TxHash },
}

impl RetryPolicy {
    /// Three polls, a second apart.
    pub fn standard() -> (r: RetryPolicy)
        ensures
            r == (RetryPolicy { attempts: 3, delay_millis: 1000 }),
    {
        RetryPolicy { attempts: 3, delay_millis: 1000 }
    }
}

impl Outcome {
    /// Whether the dispatch counts as an attempt: it does unless the account
    /// was skipped.
    pub open spec fn attempted(self) -> bool {
        !(self is Stalled)
    }

    /// Whether the chain accepted a transfer.
    pub open spec fn succeeded(self) -> bool {
        self is Accepted
    }

    /// The round whose target was used, if a target was used.
    pub open spec fn used_round(self) -> Option<u64> {
        match self {
            Outcome::Stalled => None,
            Outcome::NonceUnavailable { round } => Some(round),
            Outcome::Rejected { round } => Some(round),
            Outcome::Accepted { round, .. } => Some(round),
        }
    }

    /// Whether the dispatch counts as an attempt.
    pub fn is_attempted(&self) -> (r: bool)
        ensures
            r == self.attempted(),
    {
        match self {
            Outcome::Stalled => false,
            _ => true,
        }
    }

    /// Whether the chain accepted a transfer.
    pub fn is_succeeded(&self) -> (r: bool)
        ensures
            r == self.succeeded(),
    {
        match self {
            Outcome::Accepted { .. } => true,
            _ => false,
        }
    }
}

/// Where a dispatch stands.
#[derive(Clone, Copy, Debug, PartialEq, Eq)]
pub enum TaskPhase {
    /// Waiting for the receipt of `pending`; `polls` answers came without a
    /// receipt that reports success.
    AwaitingReceipt { pending: Submission, polls: u64 },
    /// Waiting for the sequence number, to send the transfer of `round`.
    AwaitingNonce { round: u64 },
    /// Waiting for the chain's answer to the transfer of `round`.
    AwaitingSubmission { round: u64 },
    /// Over.
    Finished { outcome: Outcome },
}

/// The chain call that the task asks for.
#[derive(Clone, Copy, Debug, PartialEq, Eq)]
pub enum TaskAction {
    /// Wait `wait_millis`, then ask for the receipt of `tx`.
    PollReceipt { tx: TxHash, wait_millis: u64 },
    /// Ask for the pending sequence number of `address`.
    FetchNonce { address: Address },
    /// Sign with `secret` and submit a transfer of `amount` from `from` to
    /// `to` under the sequence number `nonce`.
    Submit { secret: SecretKey, from: Address, to: Address, amount: Uint256, nonce: Uint256 },
    /// Nothing more to do: the dispatch ended with `outcome`.
    Finish { outcome: Outcome },
    /// The event answered no call that was asked for; nothing changed.
    Ignored,
}

/// What the chain answered.
#[derive(Clone, Copy, Debug, PartialEq, Eq)]
pub enum TaskEvent {
    /// The receipt and whether it reports success, or `None` for no receipt.
    /// Only a receipt that reports success confirms a submission.
    Receipt { found: Option<bool> },
    /// The pending sequence number, or `None` where the query failed.
    Nonce { value: Option<Uint256> },
    /// The hash of the accepted transfer, or `None` where it was refused.
    Submitted { tx: Option<TxHash> },
}

/// A dispatch as plain values.
pub struct TaskView {
    pub account: AccountView,
    pub gating: Option<RetryPolicy>,
    /// The round being dispatched.
    pub round: u64,
    pub phase: TaskPhase,
}

impl TaskView {
    /// The number of polls that the budget allows; none without gating.
    pub open spec fn budget(self) -> int {
        match self.gating {
            Some(policy) => policy.attempts as int,
            None => 0,
        }
    }

    /// The account never runs ahead of the round being dispatched.
    pub open spec fn wf(self) -> bool {
        &&& self.account.wf()
        &&& self.account.behind(self.round + 1)
        &&& match self.phase {
            TaskPhase::AwaitingReceipt { pending, polls } => pending.round < self.round,
            TaskPhase::AwaitingNonce { round } => round <= self.round,
            TaskPhase::AwaitingSubmission { round } => round <= self.round,
            TaskPhase::Finished { outcome } => true,
        }
    }

    /// How the dispatch ended, once it has.
    pub open spec fn outcome(self) -> Option<Outcome> {
        match self.phase {
            TaskPhase::Finished { outcome } => Some(outcome),
            _ => None,
        }
    }

    /// A bound on the number of steps still to come.
    pub open spec fn remaining(self) -> nat {
        match self.phase {
            TaskPhase::AwaitingReceipt { pending, polls } => if polls < self.budget() {
                (3 + self.budget() - polls) as nat
            } else {
                3
            },
            TaskPhase::AwaitingNonce { round } => 2,
            TaskPhase::AwaitingSubmission { round } => 1,
            TaskPhase::Finished { outcome } => 0,
        }
    }
}

/// How a dispatch of `round` begins. Without gating, or with no submission on
/// record, the sequence number is fetched at once for `round`. Otherwise the
/// receipt of the recorded submission is polled first; with a budget of no
/// polls at all the account is stalled from the start.
pub open spec fn begin_spec(account: AccountView, gating: Option<RetryPolicy>, round: u64) -> (
    TaskView,
    TaskAction,
) {
    match (gating, account.last_submission) {
        (Some(policy), Some(pending)) => if policy.attempts == 0 {
            (
                TaskView {
                    account,
                    gating,
                    round,
                    phase: TaskPhase::Finished { outcome: Outcome::Stalled },
                },
                TaskAction::Finish { outcome: Outcome::Stalled },
            )
        } else {
            (
                TaskView {
                    account,
                    gating,
                    round,
                    phase: TaskPhase::AwaitingReceipt { pending, polls: 0 },
                },
                TaskAction::PollReceipt { tx: pending.tx, wait_millis: 0 },
            )
        },
        _ => (
            TaskView { account, gating, round, phase: TaskPhase::AwaitingNonce { round } },
            TaskAction::FetchNonce { address: account.address },
        ),
    }
}

/// The step that an event causes.
///
/// - A receipt that reports success clears the record and moves on to the
///   round after the confirmed one. No receipt, and a receipt that reports
///   failure, lead to another poll after the policy's delay while the budget
///   lasts, then to `Stalled` with the record kept.
/// - A sequence number leads to the submission of the round's target; none
///   ends the dispatch as `NonceUnavailable`.
/// - An accepted transfer ends the dispatch as `Accepted` and, under gating,
///   goes on record; a refused one ends it as `Rejected`.
/// - An event that answers no pending call changes nothing.
pub open spec fn step_spec(task: TaskView, event: TaskEvent) -> (TaskView, TaskAction) {
    match (task.phase, event) {
        (TaskPhase::AwaitingReceipt { pending, polls }, TaskEvent::Receipt { found }) => {
            if found == Some(true) {
                let round = (pending.round + 1) as u64;
                (
                    TaskView {
                        account: task.account.with_submission(None),
                        phase: TaskPhase::AwaitingNonce { round },
                        ..task
                    },
                    TaskAction::FetchNonce { address: task.account.address },
                )
            } else if polls + 1 < task.budget() {
                (
                    TaskView {
                        phase: TaskPhase::AwaitingReceipt { pending, polls: (polls + 1) as u64 },
                        ..task
                    },
                    TaskAction::PollReceipt {
                        tx: pending.tx,
                        wait_millis: task.gating.unwrap().delay_millis,
                    },
                )
            } else {
                (
                    TaskView { phase: TaskPhase::Finished { outcome: Outcome::Stalled }, ..task },
                    TaskAction::Finish { outcome: Outcome::Stalled },
                )
            }
        },
        (TaskPhase::AwaitingNonce { round }, TaskEvent::Nonce { value }) => match value {
            Some(nonce) => (
                TaskView { phase: TaskPhase::AwaitingSubmission { round }, ..task },
                TaskAction::Submit {
                    secret: task.account.secret,
                    from: task.account.address,
                    to: task.account.target(round).address,
                    amount: task.account.target(round).amount,
                    nonce,
                },
            ),
            None => (
                TaskView {
                    phase: TaskPhase::Finished { outcome: Outcome::NonceUnavailable { round } },
                    ..task
                },
                TaskAction::Finish { outcome: Outcome::NonceUnavailable { round } },
            ),
        },
        (TaskPhase::AwaitingSubmission { round }, TaskEvent::Submitted { tx }) => match tx {
            Some(tx) => (
                TaskView {
                    account: if task.gating is Some {
                        task.account.with_submission(Some(Submission { tx, round }))
                    } else {
                        task.account
                    },
                    phase: TaskPhase::Finished { outcome: Outcome::Accepted { round, tx } },
                    ..task
                },
                TaskAction::Finish { outcome: Outcome::Accepted { round, tx } },
            ),
            None => (
                TaskView {
                    phase: TaskPhase::Finished { outcome: Outcome::Rejected { round } },
                    ..task
                },
                TaskAction::Finish { outcome: Outcome::Rejected { round } },
            ),
        },
        _ => (task, TaskAction::Ignored),
    }
}

/// One account's dispatch in one round.
#[derive(Debug)]
pub struct DispatchTask {
    account: SourceAccount,
    gating: Option<RetryPolicy>,
    round: u64,
    phase: TaskPhase,
}

impl View for DispatchTask {
    type V = TaskView;

    closed spec fn view(&self) -> TaskView {
        TaskView {
            account: self.account@,
            gating: self.gating,
            round: self.round,
            phase: self.phase,
        }
    }
}

impl DispatchTask {
    #[verifier::type_invariant]
    spec fn inv(self) -> bool {
        self@.wf()
    }

    /// Takes the account for the dispatch of `round` and names the first
    /// call to make. `gating` is the retry budget of confirmation gating, or
    /// `None` where gating is off. The submission on record, if there is
    /// one, must come from an earlier round.
    pub fn begin(account: SourceAccount, gating: Option<RetryPolicy>, round: u64) -> (r: (
        DispatchTask,
        TaskAction,
    ))
        requires
            account@.behind(round as int),
        ensures
            (r.0@, r.1) == begin_spec(account@, gating, round),
            r.0@.wf(),
    {
        let address = account.address();
        let last = account.last_submission();
        match (gating, last) {
            (Some(policy), Some(pending)) => {
                if policy.attempts == 0 {
                    let outcome = Outcome::Stalled;
                    (
                        DispatchTask {
                            account,
                            gating,
                            round,
                            phase: TaskPhase::Finished { outcome },
                        },
                        TaskAction::Finish { outcome },
                    )
                } else {
                    (
                        DispatchTask {
                            account,
                            gating,
                            round,
                            phase: TaskPhase::AwaitingReceipt { pending, polls: 0 },
                        },
                        TaskAction::PollReceipt { tx: pending.tx, wait_millis: 0 },
                    )
                }
            },
            _ => (
                DispatchTask { account, gating, round, phase: TaskPhase::AwaitingNonce { round } },
                TaskAction::FetchNonce { address },
            ),
        }
    }

    /// As [`DispatchTask::begin`], for a caller that cannot know whether the
    /// submission on record comes from an earlier round: where it does not,
    /// the account comes back untouched.
    pub fn try_begin(account: SourceAccount, gating: Option<RetryPolicy>, round: u64) -> (r: Result<
        (DispatchTask, TaskAction),
        SourceAccount,
    >)
        ensures
            match r {
                Ok((task, action)) => {
                    &&& account@.behind(round as int)
                    &&& (task@, action) == begin_spec(account@, gating, round)
                    &&& task@.wf()
                },
                Err(back) => !account@.behind(round as int) && back@ == account@,
            },
    {
        let behind = match account.last_submission() {
            Some(s) => s.round < round,
            None => true,
        };
        if behind {
            Ok(DispatchTask::begin(account, gating, round))
        } else {
            Err(account)
        }
    }

    /// Takes the chain's answer and names the next call.
    pub fn step(self, event: TaskEvent) -> (r: (DispatchTask, TaskAction))
        ensures
            (r.0@, r.1) == step_spec(self@, event),
            self@.wf(),
            r.0@.wf(),
    {
        proof {
            use_type_invariant(&self);
        }
        let DispatchTask { account, gating, round, phase } = self;
        match (phase, event) {
            (TaskPhase::AwaitingReceipt { pending, polls }, TaskEvent::Receipt { found }) => {
                let confirmed = match found {
                    Some(success) => success,
                    None => false,
                };
                if confirmed {
                    let mut account = account;
                    let address = account.address();
                    account.set_last_submission(None);
                    let next: u64 = pending.round + 1;
                    (
                        DispatchTask {
                            account,
                            gating,
                            round,
                            phase: TaskPhase::AwaitingNonce { round: next },
                        },
                        TaskAction::FetchNonce { address },
                    )
                } else {
                    let again: Option<u64> = match gating {
                        Some(policy) => if policy.attempts > 0 && polls < policy.attempts - 1 {
                            Some(policy.delay_millis)
                        } else {
                            None
                        },
                        None => None,
                    };
                    match again {
                        Some(wait_millis) => (
                            DispatchTask {
                                account,
                                gating,
                                round,
                                phase: TaskPhase::AwaitingReceipt { pending, polls: polls + 1 },
                            },
                            TaskAction::PollReceipt { tx: pending.tx, wait_millis },
                        ),
                        None => {
                            let outcome = Outcome::Stalled;
                            (
                                DispatchTask {
                                    account,
                                    gating,
                                    round,
                                    phase: TaskPhase::Finished { outcome },
                                },
                                TaskAction::Finish { outcome },
                            )
                        },
                    }
                }
            },
            (TaskPhase::AwaitingNonce { round: used }, TaskEvent::Nonce { value }) => {
                match value {
                    Some(nonce) => {
                        let target = account.target(used);
                        let action = TaskAction::Submit {
                            secret: account.secret(),
                            from: account.address(),
                            to: target.address,
                            amount: target.amount,
                            nonce,
                        };
                        (
                            DispatchTask {
                                account,
                                gating,
                                round,
                                phase: TaskPhase::AwaitingSubmission { round: used },
                            },
                            action,
                        )
                    },
                    None => {
                        let outcome = Outcome::NonceUnavailable { round: used };
                        (
                            DispatchTask {
                                account,
                                gating,
                                round,
                                phase: TaskPhase::Finished { outcome },
                            },
                            TaskAction::Finish { outcome },
                        )
                    },
                }
            },
            (TaskPhase::AwaitingSubmission { round: used }, TaskEvent::Submitted { tx }) => {
                match tx {
                    Some(tx) => {
                        let mut account = account;
                        if gating.is_some() {
                            account.set_last_submission(Some(Submission { tx, round: used }));
                        }
                        let outcome = Outcome::Accepted { round: used, tx };
                        (
                            DispatchTask {
                                account,
                                gating,
                                round,
                                phase: TaskPhase::Finished { outcome },
                            },
                            TaskAction::Finish { outcome },
                        )
                    },
                    None => {
                        let outcome = Outcome::Rejected { round: used };
                        (
                            DispatchTask {
                                account,
                                gating,
                                round,
                                phase: TaskPhase::Finished { outcome },
                            },
                            TaskAction::Finish { outcome },
                        )
                    },
                }
            },
            (phase, _) => (DispatchTask { account, gating, round, phase }, TaskAction::Ignored),
        }
    }

    /// How the dispatch ended, once it has.
    pub fn outcome(&self) -> (r: Option<Outcome>)
        ensures
            r == self@.outcome(),
    {
        match self.phase {
            TaskPhase::Finished { outcome } => Some(outcome),
            _ => None,
        }
    }

    /// Where the dispatch stands.
    pub fn phase(&self) -> (r: TaskPhase)
        ensures
            r == self@.phase,
    {
        self.phase
    }

    /// Gives the account back, with the outcome if the dispatch has ended.
    /// The account's record does not run ahead of the round dispatched.
    pub fn release(self) -> (r: (SourceAccount, Option<Outcome>))
        ensures
            r.0@ == self@.account,
            r.1 == self@.outcome(),
            r.0@.wf(),
            r.0@.behind(self@.round + 1),
    {
        proof {
            use_type_invariant(&self);
        }
        let outcome = self.outcome();
        (self.account, outcome)
    }
}

} // verus!
