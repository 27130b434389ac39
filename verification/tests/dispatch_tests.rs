use feth::account::{SourceAccount, Submission, Target};
use feth::dispatch::{
    DispatchTask, Outcome, RetryPolicy, TaskAction, TaskEvent, TaskPhase,
};
use feth::keys::{Address, SecretKey, TxHash};
use feth::uint256::Uint256;

fn address(tag: u8) -> Address {
    Address { bytes: [tag; 20] }
}

fn secret(tag: u8) -> SecretKey {
    SecretKey { bytes: [tag; 32] }
}

fn hash(tag: u8) -> TxHash {
    TxHash { bytes: [tag; 32] }
}

fn targets(count: u8) -> Vec<Target> {
    let mut out = Vec::new();
    for i in 0..count {
        out.push(Target { address: address(100 + i), amount: Uint256::from_u64(1000 + i as u64) });
    }
    out
}

fn account(tag: u8, count: u8) -> SourceAccount {
    SourceAccount::new(secret(tag), address(tag), targets(count)).unwrap()
}

fn policy() -> RetryPolicy {
    RetryPolicy { attempts: 3, delay_millis: 250 }
}

#[test]
fn an_account_needs_a_target() {
    assert!(SourceAccount::new(secret(1), address(1), Vec::new()).is_none());
    assert!(SourceAccount::new(secret(1), address(1), targets(1)).is_some());
}

#[test]
fn targets_are_walked_in_order_and_start_over() {
    let a = account(1, 3);
    assert_eq!(a.target_count(), 3);
    assert_eq!(a.target(0), targets(3)[0]);
    assert_eq!(a.target(1), targets(3)[1]);
    assert_eq!(a.target(2), targets(3)[2]);
    assert_eq!(a.target(3), targets(3)[0]);
    assert_eq!(a.target(7), targets(3)[1]);
    assert_eq!(a.target(u64::MAX), targets(3)[(u64::MAX % 3) as usize]);
    assert_eq!(a.target_at(2), Some(targets(3)[2]));
    assert_eq!(a.target_at(3), None);
}

#[test]
fn without_gating_the_nonce_is_fetched_at_once() {
    let (task, action) = DispatchTask::begin(account(1, 2), None, 5);
    assert_eq!(action, TaskAction::FetchNonce { address: address(1) });
    assert_eq!(task.phase(), TaskPhase::AwaitingNonce { round: 5 });
    assert_eq!(task.outcome(), None);
}

#[test]
fn a_nonce_leads_to_the_submission_of_the_rounds_target() {
    let (task, _) = DispatchTask::begin(account(1, 2), None, 5);
    let nonce = Uint256::from_u64(9);
    let (task, action) = task.step(TaskEvent::Nonce { value: Some(nonce) });
    assert_eq!(
        action,
        TaskAction::Submit {
            secret: secret(1),
            from: address(1),
            to: targets(2)[1].address,
            amount: targets(2)[1].amount,
            nonce,
        }
    );
    assert_eq!(task.phase(), TaskPhase::AwaitingSubmission { round: 5 });
}

#[test]
fn a_missing_nonce_is_a_failed_attempt() {
    let (task, _) = DispatchTask::begin(account(1, 2), None, 5);
    let (task, action) = task.step(TaskEvent::Nonce { value: None });
    let outcome = Outcome::NonceUnavailable { round: 5 };
    assert_eq!(action, TaskAction::Finish { outcome });
    assert!(outcome.is_attempted());
    assert!(!outcome.is_succeeded());
    let (back, got) = task.release();
    assert_eq!(got, Some(outcome));
    assert_eq!(back.last_submission(), None);
}

#[test]
fn a_refused_transfer_is_a_failed_attempt() {
    let (task, _) = DispatchTask::begin(account(1, 2), Some(policy()), 4);
    let (task, _) = task.step(TaskEvent::Nonce { value: Some(Uint256::zero()) });
    let (task, action) = task.step(TaskEvent::Submitted { tx: None });
    let outcome = Outcome::Rejected { round: 4 };
    assert_eq!(action, TaskAction::Finish { outcome });
    assert!(outcome.is_attempted());
    assert!(!outcome.is_succeeded());
    let (back, _) = task.release();
    assert_eq!(back.last_submission(), None);
}

#[test]
fn an_accepted_transfer_goes_on_record_under_gating() {
    let (task, _) = DispatchTask::begin(account(1, 2), Some(policy()), 4);
    let (task, _) = task.step(TaskEvent::Nonce { value: Some(Uint256::zero()) });
    let (task, action) = task.step(TaskEvent::Submitted { tx: Some(hash(7)) });
    let outcome = Outcome::Accepted { round: 4, tx: hash(7) };
    assert_eq!(action, TaskAction::Finish { outcome });
    assert!(outcome.is_attempted());
    assert!(outcome.is_succeeded());
    let (back, got) = task.release();
    assert_eq!(got, Some(outcome));
    assert_eq!(back.last_submission(), Some(Submission { tx: hash(7), round: 4 }));
}

#[test]
fn an_accepted_transfer_leaves_no_record_without_gating() {
    let (task, _) = DispatchTask::begin(account(1, 2), None, 4);
    let (task, _) = task.step(TaskEvent::Nonce { value: Some(Uint256::zero()) });
    let (task, _) = task.step(TaskEvent::Submitted { tx: Some(hash(7)) });
    let (back, got) = task.release();
    assert_eq!(got, Some(Outcome::Accepted { round: 4, tx: hash(7) }));
    assert_eq!(back.last_submission(), None);
}

#[test]
fn under_gating_a_recorded_submission_is_polled_first() {
    let mut a = account(1, 2);
    a.set_last_submission(Some(Submission { tx: hash(3), round: 0 }));
    let (task, action) = DispatchTask::begin(a, Some(policy()), 5);
    assert_eq!(action, TaskAction::PollReceipt { tx: hash(3), wait_millis: 0 });
    assert_eq!(
        task.phase(),
        TaskPhase::AwaitingReceipt { pending: Submission { tx: hash(3), round: 0 }, polls: 0 }
    );
}

#[test]
fn a_receipt_moves_on_to_the_round_after_the_confirmed_one() {
    let mut a = account(1, 4);
    a.set_last_submission(Some(Submission { tx: hash(3), round: 1 }));
    let (task, _) = DispatchTask::begin(a, Some(policy()), 5);
    let (task, action) = task.step(TaskEvent::Receipt { found: Some(true) });
    assert_eq!(action, TaskAction::FetchNonce { address: address(1) });
    assert_eq!(task.phase(), TaskPhase::AwaitingNonce { round: 2 });
    let (task, action) = task.step(TaskEvent::Nonce { value: Some(Uint256::from_u64(1)) });
    assert_eq!(
        action,
        TaskAction::Submit {
            secret: secret(1),
            from: address(1),
            to: targets(4)[2].address,
            amount: targets(4)[2].amount,
            nonce: Uint256::from_u64(1),
        }
    );
    let (task, _) = task.step(TaskEvent::Submitted { tx: Some(hash(9)) });
    let (back, got) = task.release();
    assert_eq!(got, Some(Outcome::Accepted { round: 2, tx: hash(9) }));
    assert_eq!(back.last_submission(), Some(Submission { tx: hash(9), round: 2 }));
}

#[test]
fn a_receipt_that_reports_failure_does_not_confirm() {
    let pending = Submission { tx: hash(3), round: 1 };
    let mut a = account(1, 4);
    a.set_last_submission(Some(pending));
    let (task, _) = DispatchTask::begin(a, Some(policy()), 5);
    let (task, action) = task.step(TaskEvent::Receipt { found: Some(false) });
    assert_eq!(action, TaskAction::PollReceipt { tx: hash(3), wait_millis: 250 });
    assert_eq!(task.phase(), TaskPhase::AwaitingReceipt { pending, polls: 1 });
    let (task, action) = task.step(TaskEvent::Receipt { found: Some(false) });
    assert_eq!(action, TaskAction::PollReceipt { tx: hash(3), wait_millis: 250 });
    let (task, action) = task.step(TaskEvent::Receipt { found: Some(false) });
    assert_eq!(action, TaskAction::Finish { outcome: Outcome::Stalled });
    let (back, got) = task.release();
    assert_eq!(got, Some(Outcome::Stalled));
    assert_eq!(back.last_submission(), Some(pending));
}

#[test]
fn a_receipt_that_reports_success_after_one_that_reports_failure_confirms() {
    let mut a = account(1, 4);
    a.set_last_submission(Some(Submission { tx: hash(3), round: 1 }));
    let (task, _) = DispatchTask::begin(a, Some(policy()), 5);
    let (task, _) = task.step(TaskEvent::Receipt { found: Some(false) });
    let (task, action) = task.step(TaskEvent::Receipt { found: Some(true) });
    assert_eq!(action, TaskAction::FetchNonce { address: address(1) });
    assert_eq!(task.phase(), TaskPhase::AwaitingNonce { round: 2 });
}

#[test]
fn a_receipt_clears_the_record_even_if_the_next_attempt_fails() {
    let mut a = account(1, 4);
    a.set_last_submission(Some(Submission { tx: hash(3), round: 1 }));
    let (task, _) = DispatchTask::begin(a, Some(policy()), 5);
    let (task, _) = task.step(TaskEvent::Receipt { found: Some(true) });
    let (task, _) = task.step(TaskEvent::Nonce { value: None });
    let (back, got) = task.release();
    assert_eq!(got, Some(Outcome::NonceUnavailable { round: 2 }));
    assert_eq!(back.last_submission(), None);
}

#[test]
fn polling_goes_on_while_the_budget_lasts_then_the_account_is_stalled() {
    let pending = Submission { tx: hash(3), round: 1 };
    let mut a = account(1, 4);
    a.set_last_submission(Some(pending));
    let (task, _) = DispatchTask::begin(a, Some(policy()), 5);
    let (task, action) = task.step(TaskEvent::Receipt { found: None });
    assert_eq!(action, TaskAction::PollReceipt { tx: hash(3), wait_millis: 250 });
    assert_eq!(task.phase(), TaskPhase::AwaitingReceipt { pending, polls: 1 });
    let (task, action) = task.step(TaskEvent::Receipt { found: None });
    assert_eq!(action, TaskAction::PollReceipt { tx: hash(3), wait_millis: 250 });
    let (task, action) = task.step(TaskEvent::Receipt { found: None });
    assert_eq!(action, TaskAction::Finish { outcome: Outcome::Stalled });
    assert!(!Outcome::Stalled.is_attempted());
    assert!(!Outcome::Stalled.is_succeeded());
    let (back, got) = task.release();
    assert_eq!(got, Some(Outcome::Stalled));
    assert_eq!(back.last_submission(), Some(pending));
}

#[test]
fn a_receipt_at_the_last_poll_still_counts() {
    let mut a = account(1, 4);
    a.set_last_submission(Some(Submission { tx: hash(3), round: 1 }));
    let (task, _) = DispatchTask::begin(a, Some(policy()), 5);
    let (task, _) = task.step(TaskEvent::Receipt { found: None });
    let (task, _) = task.step(TaskEvent::Receipt { found: None });
    let (task, action) = task.step(TaskEvent::Receipt { found: Some(true) });
    assert_eq!(action, TaskAction::FetchNonce { address: address(1) });
    assert_eq!(task.phase(), TaskPhase::AwaitingNonce { round: 2 });
}

#[test]
fn a_budget_of_one_poll_stalls_after_one_miss() {
    let mut a = account(1, 4);
    a.set_last_submission(Some(Submission { tx: hash(3), round: 1 }));
    let one = RetryPolicy { attempts: 1, delay_millis: 10 };
    let (task, action) = DispatchTask::begin(a, Some(one), 5);
    assert_eq!(action, TaskAction::PollReceipt { tx: hash(3), wait_millis: 0 });
    let (_, action) = task.step(TaskEvent::Receipt { found: None });
    assert_eq!(action, TaskAction::Finish { outcome: Outcome::Stalled });
}

#[test]
fn a_budget_of_no_poll_stalls_at_once() {
    let mut a = account(1, 4);
    a.set_last_submission(Some(Submission { tx: hash(3), round: 1 }));
    let none = RetryPolicy { attempts: 0, delay_millis: 10 };
    let (task, action) = DispatchTask::begin(a, Some(none), 5);
    assert_eq!(action, TaskAction::Finish { outcome: Outcome::Stalled });
    assert_eq!(task.outcome(), Some(Outcome::Stalled));
}

#[test]
fn without_gating_a_record_is_left_alone() {
    let pending = Submission { tx: hash(3), round: 1 };
    let mut a = account(1, 4);
    a.set_last_submission(Some(pending));
    let (task, action) = DispatchTask::begin(a, None, 5);
    assert_eq!(action, TaskAction::FetchNonce { address: address(1) });
    let (task, _) = task.step(TaskEvent::Nonce { value: Some(Uint256::zero()) });
    let (task, _) = task.step(TaskEvent::Submitted { tx: Some(hash(8)) });
    let (back, got) = task.release();
    assert_eq!(got, Some(Outcome::Accepted { round: 5, tx: hash(8) }));
    assert_eq!(back.last_submission(), Some(pending));
}

#[test]
fn an_event_that_answers_nothing_is_ignored() {
    let (task, _) = DispatchTask::begin(account(1, 2), None, 5);
    let (task, action) = task.step(TaskEvent::Submitted { tx: Some(hash(1)) });
    assert_eq!(action, TaskAction::Ignored);
    assert_eq!(task.phase(), TaskPhase::AwaitingNonce { round: 5 });
    let (task, action) = task.step(TaskEvent::Receipt { found: Some(true) });
    assert_eq!(action, TaskAction::Ignored);
    let (task, _) = task.step(TaskEvent::Nonce { value: None });
    let (task, action) = task.step(TaskEvent::Nonce { value: Some(Uint256::zero()) });
    assert_eq!(action, TaskAction::Ignored);
    assert_eq!(task.outcome(), Some(Outcome::NonceUnavailable { round: 5 }));
}

#[test]
fn try_begin_refuses_a_record_that_is_not_from_an_earlier_round() {
    let pending = Submission { tx: hash(3), round: 5 };
    let mut a = account(1, 4);
    a.set_last_submission(Some(pending));
    match DispatchTask::try_begin(a, Some(policy()), 5) {
        Ok(_) => panic!("a record of round 5 is not behind round 5"),
        Err(back) => assert_eq!(back.last_submission(), Some(pending)),
    }
    let mut b = account(2, 4);
    b.set_last_submission(Some(pending));
    match DispatchTask::try_begin(b, Some(policy()), 6) {
        Ok((_, action)) => {
            assert_eq!(action, TaskAction::PollReceipt { tx: hash(3), wait_millis: 0 })
        }
        Err(_) => panic!("a record of round 5 is behind round 6"),
    }
    match DispatchTask::try_begin(account(3, 4), None, 0) {
        Ok((_, action)) => assert_eq!(action, TaskAction::FetchNonce { address: address(3) }),
        Err(_) => panic!("an account without a record is behind every round"),
    }
}

#[test]
fn the_standard_policy_is_three_polls_a_second_apart() {
    assert_eq!(RetryPolicy::standard(), RetryPolicy { attempts: 3, delay_millis: 1000 });
}

#[test]
fn release_before_the_end_gives_no_outcome() {
    let (task, _) = DispatchTask::begin(account(1, 2), None, 0);
    let (back, got) = task.release();
    assert_eq!(got, None);
    assert_eq!(back.address(), address(1));
    assert_eq!(back.secret(), secret(1));
}
