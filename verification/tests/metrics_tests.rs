use feth::dispatch::Outcome;
use feth::keys::TxHash;
use feth::metrics::{Metrics, Tally};

fn accepted(round: u64) -> Outcome {
    Outcome::Accepted { round, tx: TxHash { bytes: [round as u8; 32] } }
}

#[test]
fn new_metrics_are_zero() {
    let m = Metrics::new();
    assert_eq!(m.attempted(), 0);
    assert_eq!(m.succeeded(), 0);
    assert_eq!(m.snapshot(), Tally { attempted: 0, succeeded: 0 });
}

#[test]
fn each_outcome_counts_for_what_it_is() {
    let mut m = Metrics::new();
    m.record(&Outcome::Stalled);
    assert_eq!(m.snapshot(), Tally { attempted: 0, succeeded: 0 });
    m.record(&Outcome::NonceUnavailable { round: 0 });
    assert_eq!(m.snapshot(), Tally { attempted: 1, succeeded: 0 });
    m.record(&Outcome::Rejected { round: 0 });
    assert_eq!(m.snapshot(), Tally { attempted: 2, succeeded: 0 });
    m.record(&accepted(0));
    assert_eq!(m.snapshot(), Tally { attempted: 3, succeeded: 1 });
}

#[test]
fn successes_never_exceed_attempts_and_counts_never_fall() {
    let outcomes = vec![
        accepted(0),
        Outcome::Stalled,
        Outcome::Rejected { round: 1 },
        accepted(2),
        Outcome::NonceUnavailable { round: 3 },
        Outcome::Stalled,
        accepted(4),
    ];
    let mut m = Metrics::new();
    let mut before = m.snapshot();
    for outcome in outcomes.iter() {
        m.record(outcome);
        let now = m.snapshot();
        assert!(now.succeeded <= now.attempted);
        assert!(now.attempted >= before.attempted);
        assert!(now.succeeded >= before.succeeded);
        before = now;
    }
    assert_eq!(m.snapshot(), Tally { attempted: 5, succeeded: 3 });
}

#[test]
fn a_round_is_counted_as_its_outcomes_one_by_one() {
    let outcomes = vec![accepted(0), Outcome::Stalled, Outcome::Rejected { round: 0 }];
    let mut all = Metrics::new();
    all.record_all(&outcomes);
    all.record_all(&outcomes);
    all.record_all(&Vec::new());
    assert_eq!(all.snapshot(), Tally { attempted: 4, succeeded: 2 });
}

#[test]
fn throughput_is_successes_per_second_in_thousandths() {
    let t = Tally { attempted: 10, succeeded: 7 };
    assert_eq!(t.throughput_millis(0), None);
    assert_eq!(t.throughput_millis(1), Some(7000));
    assert_eq!(t.throughput_millis(2), Some(3500));
    assert_eq!(t.throughput_millis(3), Some(2333));
    assert_eq!(t.throughput_millis(8000), Some(0));
    let big = Tally { attempted: u64::MAX, succeeded: u64::MAX };
    assert_eq!(big.throughput_millis(1), Some(u64::MAX as u128 * 1000));
    assert_eq!(Tally { attempted: 0, succeeded: 0 }.throughput_millis(5), Some(0));
}

#[test]
fn the_report_of_a_run_holds_counts_rate_and_height_span() {
    let mut m = Metrics::new();
    m.record_all(&vec![accepted(0), accepted(1), Outcome::Rejected { round: 2 }]);
    let r = m.report(4, 3, 100, 112);
    assert_eq!(r.tally, Tally { attempted: 3, succeeded: 2 });
    assert_eq!(r.elapsed_secs, 4);
    assert_eq!(r.throughput_millis, Some(500));
    assert_eq!(r.concurrency, 3);
    assert_eq!((r.start_height, r.end_height), (100, 112));
    assert_eq!(r.blocks, Some(12));
    let r = m.report(0, 3, 112, 100);
    assert_eq!(r.throughput_millis, None);
    assert_eq!(r.blocks, None);
    assert_eq!(m.report(1, 0, 5, 5).blocks, Some(0));
}
