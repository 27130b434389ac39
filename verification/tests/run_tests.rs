use feth::account::SourceAccount;
use feth::config::RunConfig;
use feth::dispatch::{DispatchTask, Outcome, RetryPolicy, TaskAction, TaskEvent};
use feth::error::ConfigError;
use feth::keys::{Address, SecretKey, TxHash};
use feth::metrics::{Metrics, Tally};
use feth::pool::{build_source_keys, Candidate};
use feth::scheduler::{Action, Event, Pacing, RoundLimit, Scheduler, StopReason};
use feth::uint256::Uint256;

/// A chain that exists only in memory and counts what it is asked.
struct FakeChain {
    height: u64,
    height_calls: u64,
    /// the height grows by one on every query after this many
    grows_after: u64,
    balance_calls: u64,
    nonce_calls: u64,
    submissions: Vec<(Address, Address, Uint256)>,
    receipt_calls: u64,
    sleeps: Vec<u64>,
    /// addresses whose receipts never show
    unconfirmed: Vec<Address>,
    /// addresses whose sequence number cannot be had
    nonce_fails: Vec<Address>,
    /// addresses whose transfers are refused
    refused: Vec<Address>,
    /// who sent which transaction
    senders: Vec<(TxHash, Address)>,
}

impl FakeChain {
    fn new() -> FakeChain {
        FakeChain {
            height: 100,
            height_calls: 0,
            grows_after: 0,
            balance_calls: 0,
            nonce_calls: 0,
            submissions: Vec::new(),
            receipt_calls: 0,
            sleeps: Vec::new(),
            unconfirmed: Vec::new(),
            nonce_fails: Vec::new(),
            refused: Vec::new(),
            senders: Vec::new(),
        }
    }

    fn calls(&self) -> u64 {
        self.height_calls
            + self.balance_calls
            + self.nonce_calls
            + self.receipt_calls
            + self.submissions.len() as u64
    }

    fn current_height(&mut self) -> Option<u64> {
        self.height_calls += 1;
        if self.height_calls > self.grows_after {
            self.height += 1;
        }
        Some(self.height)
    }

    fn pending_nonce(&mut self, address: Address) -> Option<Uint256> {
        self.nonce_calls += 1;
        if self.nonce_fails.contains(&address) {
            None
        } else {
            Some(Uint256::from_u64(self.submissions.len() as u64))
        }
    }

    fn submit(&mut self, from: Address, to: Address, amount: Uint256) -> Option<TxHash> {
        self.submissions.push((from, to, amount));
        if self.refused.contains(&from) {
            return None;
        }
        let mut bytes = [0u8; 32];
        bytes[..8].copy_from_slice(&(self.submissions.len() as u64).to_be_bytes());
        let tx = TxHash { bytes };
        self.senders.push((tx, from));
        Some(tx)
    }

    fn receipt(&mut self, tx: TxHash) -> Option<bool> {
        self.receipt_calls += 1;
        let sender = self.senders.iter().find(|(h, _)| *h == tx).map(|(_, a)| *a);
        match sender {
            Some(address) if !self.unconfirmed.contains(&address) => Some(true),
            _ => None,
        }
    }
}

fn drive(
    chain: &mut FakeChain,
    account: SourceAccount,
    gating: Option<RetryPolicy>,
    round: u64,
) -> (SourceAccount, Outcome) {
    let (mut task, mut action) = match DispatchTask::try_begin(account, gating, round) {
        Ok(begun) => begun,
        Err(_) => panic!("the account ran ahead of the round"),
    };
    loop {
        let event = match action {
            TaskAction::PollReceipt { tx, wait_millis } => {
                chain.sleeps.push(wait_millis);
                TaskEvent::Receipt { found: chain.receipt(tx) }
            }
            TaskAction::FetchNonce { address } => {
                TaskEvent::Nonce { value: chain.pending_nonce(address) }
            }
            TaskAction::Submit { from, to, amount, .. } => {
                TaskEvent::Submitted { tx: chain.submit(from, to, amount) }
            }
            TaskAction::Finish { outcome } => {
                let (account, got) = task.release();
                assert_eq!(got, Some(outcome));
                return (account, outcome);
            }
            TaskAction::Ignored => panic!("every event answered what was asked for"),
        };
        let (next, then) = task.step(event);
        task = next;
        action = then;
    }
}

struct RunResult {
    rounds: Vec<u64>,
    trails: Vec<Vec<Outcome>>,
    tally: Tally,
    reason: StopReason,
    pool: Vec<SourceAccount>,
}

fn run(
    chain: &mut FakeChain,
    mut scheduler: Scheduler,
    mut pool: Vec<SourceAccount>,
    gating: Option<RetryPolicy>,
) -> RunResult {
    let mut metrics = Metrics::new();
    let mut rounds = Vec::new();
    let mut trails: Vec<Vec<Outcome>> = pool.iter().map(|_| Vec::new()).collect();
    let mut action = scheduler.step(Event::Start);
    loop {
        action = match action {
            Action::QueryHeight => {
                let value = chain.current_height();
                scheduler.step(Event::Height { value })
            }
            Action::Sleep { .. } => scheduler.step(Event::Slept),
            Action::Dispatch { round } => {
                rounds.push(round);
                let mut outcomes = Vec::new();
                let mut after = Vec::new();
                for (i, account) in pool.into_iter().enumerate() {
                    let (account, outcome) = drive(chain, account, gating, round);
                    trails[i].push(outcome);
                    outcomes.push(outcome);
                    after.push(account);
                }
                pool = after;
                metrics.record_all(&outcomes);
                scheduler.step(Event::Dispatched)
            }
            Action::Stop { reason } => {
                return RunResult { rounds, trails, tally: metrics.snapshot(), reason, pool };
            }
            Action::Ignored => panic!("every event answered what was asked for"),
        };
    }
}

fn candidates(n: u8) -> Vec<Candidate> {
    (1..=n)
        .map(|tag| Candidate {
            secret: SecretKey { bytes: [tag; 32] },
            address: Address { bytes: [tag; 20] },
            balance: None,
        })
        .collect()
}

fn pool(n: u8, count: u64) -> Vec<SourceAccount> {
    build_source_keys(&candidates(n), false, Uint256::from_u64(10), count).unwrap()
}

fn height_scheduler(rounds: u64) -> Scheduler {
    Scheduler::new(
        Pacing::Height { delta: 1, poll_millis: 1000 },
        RoundLimit::Rounds { count: rounds },
    )
    .unwrap()
}

fn used_rounds(trail: &[Outcome]) -> Vec<Option<u64>> {
    trail
        .iter()
        .map(|o| match o {
            Outcome::Stalled => None,
            Outcome::NonceUnavailable { round } => Some(*round),
            Outcome::Rejected { round } => Some(*round),
            Outcome::Accepted { round, .. } => Some(*round),
        })
        .collect()
}

#[test]
fn three_accounts_two_rounds_paced_by_height() {
    let mut chain = FakeChain::new();
    chain.grows_after = 2;
    let result = run(&mut chain, height_scheduler(2), pool(3, 2), None);
    assert_eq!(result.reason, StopReason::Completed);
    assert_eq!(result.rounds, vec![0, 1]);
    assert_eq!(chain.submissions.len(), 6);
    assert_eq!(result.tally.attempted, 6);
    assert_eq!(result.tally.succeeded, 6);
    for (i, trail) in result.trails.iter().enumerate() {
        assert_eq!(trail.len(), 2);
        for (round, outcome) in trail.iter().enumerate() {
            let sent = &chain.submissions[round * 3 + i];
            assert_eq!(sent.0, result.pool[i].address());
            assert_eq!(sent.1, result.pool[i].target(round as u64).address);
            assert_eq!(sent.2, Uint256::from_u64(10));
            assert!(outcome.is_succeeded());
        }
    }
    // the first height is where growth is counted from, the second shows no
    // growth, the third and the fourth each let one round through
    assert_eq!(chain.height_calls, 4);
}

#[test]
fn a_worker_limit_of_zero_is_refused_before_any_chain_call() {
    let chain = FakeChain::new();
    let config = RunConfig {
        per_account_target_count: 2,
        check_balance: true,
        target_amount: Uint256::from_u64(10),
        pacing: Pacing::Height { delta: 1, poll_millis: 1000 },
        round_limit: RoundLimit::Rounds { count: 2 },
        confirmation_gating: true,
        confirmation_retry: RetryPolicy::standard(),
        worker_limit: 0,
    };
    let started = match config.validate(8) {
        Ok(()) => true,
        Err(e) => {
            assert_eq!(e, ConfigError::ZeroWorkers);
            false
        }
    };
    assert!(!started);
    assert_eq!(chain.calls(), 0);
}

#[test]
fn without_gating_every_account_submits_in_every_round_whatever_the_height_does() {
    for grows_after in [0u64, 1, 2, 5, 17] {
        let mut chain = FakeChain::new();
        chain.grows_after = grows_after;
        chain.nonce_fails.push(Address { bytes: [2; 20] });
        chain.refused.push(Address { bytes: [3; 20] });
        let result = run(&mut chain, height_scheduler(5), pool(4, 5), None);
        assert_eq!(result.rounds, vec![0, 1, 2, 3, 4]);
        for trail in result.trails.iter() {
            assert_eq!(
                used_rounds(trail),
                vec![Some(0), Some(1), Some(2), Some(3), Some(4)]
            );
            assert!(trail.iter().all(|o| o.is_attempted()));
        }
        assert_eq!(result.tally, Tally { attempted: 20, succeeded: 10 });
        // the account without a sequence number never got to submit
        assert_eq!(chain.submissions.len(), 15);
        assert_eq!(chain.receipt_calls, 0);
    }
}

#[test]
fn time_pacing_dispatches_every_round_too() {
    let mut chain = FakeChain::new();
    let scheduler =
        Scheduler::new(Pacing::Time { delay_millis: 5 }, RoundLimit::Rounds { count: 3 }).unwrap();
    let result = run(&mut chain, scheduler, pool(2, 3), None);
    assert_eq!(result.rounds, vec![0, 1, 2]);
    assert_eq!(result.tally, Tally { attempted: 6, succeeded: 6 });
    assert_eq!(chain.height_calls, 0);
}

#[test]
fn with_prompt_confirmation_gating_changes_nothing() {
    let mut plain_chain = FakeChain::new();
    plain_chain.nonce_fails.push(Address { bytes: [2; 20] });
    plain_chain.refused.push(Address { bytes: [3; 20] });
    let plain = run(&mut plain_chain, height_scheduler(4), pool(3, 4), None);

    let mut gated_chain = FakeChain::new();
    gated_chain.nonce_fails.push(Address { bytes: [2; 20] });
    gated_chain.refused.push(Address { bytes: [3; 20] });
    let gated =
        run(&mut gated_chain, height_scheduler(4), pool(3, 4), Some(RetryPolicy::standard()));

    assert_eq!(gated.rounds, plain.rounds);
    assert_eq!(gated.tally, plain.tally);
    assert_eq!(gated.tally, Tally { attempted: 12, succeeded: 4 });
    for (g, p) in gated.trails.iter().zip(plain.trails.iter()) {
        assert_eq!(used_rounds(g), used_rounds(p));
        assert_eq!(used_rounds(g), vec![Some(0), Some(1), Some(2), Some(3)]);
    }
    // one poll for each round after an accepted submission
    assert_eq!(gated_chain.receipt_calls, 3);
    assert!(gated_chain.sleeps.iter().all(|wait| *wait == 0));
}

#[test]
fn an_account_that_is_never_confirmed_stalls_alone() {
    let mut chain = FakeChain::new();
    let stuck = Address { bytes: [2; 20] };
    chain.unconfirmed.push(stuck);
    let policy = RetryPolicy { attempts: 3, delay_millis: 40 };
    let result = run(&mut chain, height_scheduler(5), pool(3, 5), Some(policy));
    assert_eq!(result.rounds, vec![0, 1, 2, 3, 4]);
    assert_eq!(
        used_rounds(&result.trails[0]),
        vec![Some(0), Some(1), Some(2), Some(3), Some(4)]
    );
    assert_eq!(
        used_rounds(&result.trails[2]),
        vec![Some(0), Some(1), Some(2), Some(3), Some(4)]
    );
    // the stuck account sends once, then waits on that submission for good
    assert_eq!(used_rounds(&result.trails[1]), vec![Some(0), None, None, None, None]);
    let record = result.pool[1].last_submission().unwrap();
    assert_eq!(record.round, 0);
    assert_eq!(result.pool[0].last_submission().unwrap().round, 4);
    assert_eq!(result.pool[2].last_submission().unwrap().round, 4);
    assert_eq!(result.tally, Tally { attempted: 11, succeeded: 11 });
    assert_eq!(chain.submissions.iter().filter(|s| s.0 == stuck).count(), 1);
    // four stalled rounds of three polls each, with the delay before the
    // second and the third
    let waits: Vec<u64> = chain.sleeps.iter().copied().filter(|w| *w > 0).collect();
    assert_eq!(waits, vec![40; 8]);
}

#[test]
fn a_late_confirmation_lets_the_account_go_on_from_its_own_round() {
    let mut chain = FakeChain::new();
    let slow = Address { bytes: [1; 20] };
    let policy = RetryPolicy { attempts: 2, delay_millis: 1 };
    let mut accounts = pool(1, 6);
    let mut trail = Vec::new();
    for round in 0..6u64 {
        // the receipt of the first submission shows only from round 4 on
        chain.unconfirmed.clear();
        if round < 4 {
            chain.unconfirmed.push(slow);
        }
        let account = accounts.pop().unwrap();
        let (account, outcome) = drive(&mut chain, account, Some(policy), round);
        trail.push(outcome);
        accounts.push(account);
    }
    assert_eq!(
        used_rounds(&trail),
        vec![Some(0), None, None, None, Some(1), Some(2)]
    );
    assert_eq!(chain.submissions[1].1, accounts[0].target(1).address);
    assert_eq!(accounts[0].last_submission().unwrap().round, 2);
}

#[test]
fn a_cancelled_run_dispatches_no_further_round() {
    let mut scheduler = height_scheduler(10);
    let mut chain = FakeChain::new();
    let mut dispatched = Vec::new();
    let mut action = scheduler.step(Event::Start);
    loop {
        action = match action {
            Action::QueryHeight => {
                let value = chain.current_height();
                scheduler.step(Event::Height { value })
            }
            Action::Sleep { .. } => scheduler.step(Event::Slept),
            Action::Dispatch { round } => {
                dispatched.push(round);
                if round == 2 {
                    scheduler.step(Event::Cancel)
                } else {
                    scheduler.step(Event::Dispatched)
                }
            }
            Action::Stop { reason } => {
                assert_eq!(reason, StopReason::Cancelled);
                break;
            }
            Action::Ignored => panic!("every event answered what was asked for"),
        };
    }
    assert_eq!(dispatched, vec![0, 1, 2]);
    assert_eq!(scheduler.rounds_completed(), 2);
}

#[test]
fn a_receipt_that_reports_failure_keeps_the_account_waiting() {
    let mut chain = FakeChain::new();
    let policy = RetryPolicy { attempts: 3, delay_millis: 1 };
    let mut accounts = pool(1, 4);
    let account = accounts.pop().unwrap();
    let (account, first) = drive(&mut chain, account, Some(policy), 0);
    assert!(first.is_succeeded());
    let pending = account.last_submission().unwrap();
    // the chain now shows a receipt, but one that reports failure
    let (mut task, mut action) = DispatchTask::begin(account, Some(policy), 1);
    let mut polls = 0;
    let outcome = loop {
        let event = match action {
            TaskAction::PollReceipt { tx, .. } => {
                assert_eq!(tx, pending.tx);
                polls += 1;
                TaskEvent::Receipt { found: Some(false) }
            }
            TaskAction::Finish { outcome } => break outcome,
            _ => panic!("nothing is sent before the submission is confirmed"),
        };
        let (next, then) = task.step(event);
        task = next;
        action = then;
    };
    assert_eq!(outcome, Outcome::Stalled);
    assert_eq!(polls, 3);
    let (back, _) = task.release();
    assert_eq!(back.last_submission(), Some(pending));
}
