//! The counters of a run: submissions attempted and submissions accepted.
//!
//! The counters only grow, and there are never more successes than
//! attempts. They stop at `u64::MAX`: an attempt that would carry the count
//! past it is not recorded.

use crate::dispatch::Outcome;
use vstd::prelude::*;

verus! {

/// The two counts as plain values.
#[derive(Clone, Copy, Debug, PartialEq, Eq, Structural)]
pub struct Tally {
    pub attempted: u64,
    pub succeeded: u64,
}

impl Tally {
    /// There are no more successes than attempts.
    pub open spec fn wf(self) -> bool {
        self.succeeded <= self.attempted
    }

    /// The counts after one more dispatch. A skipped account counts for
    /// nothing, a failed submission as an attempt, an accepted one as an
    /// attempt and a success.
    pub open spec fn record(self, outcome: Outcome) -> Tally {
        if outcome.attempted() && self.attempted < u64::MAX {
            Tally {
                attempted: (self.attempted + 1) as u64,
                succeeded: if outcome.succeeded() {
                    (self.succeeded + 1) as u64
                } else {
                    self.succeeded
                },
            }
        } else {
            self
        }
    }

    /// The counts after a sequence of dispatches.
    pub open spec fn record_all(self, outcomes: Seq<Outcome>) -> Tally
        decreases outcomes.len(),
    {
        if outcomes.len() == 0 {
            self
        } else {
            self.record_all(outcomes.drop_last()).record(outcomes.last())
        }
    }

    /// Accepted submissions per second over `elapsed_secs` seconds, in
    /// thousandths and rounded down.
    pub open spec fn rate_millis(self, elapsed_secs: u64) -> int
        recommends
            elapsed_secs > 0,
    {
        self.succeeded * 1000 / elapsed_secs as int
    }

    /// Accepted submissions per second, in thousandths and rounded down;
    /// `None` where no time has passed.
    pub fn throughput_millis(&self, elapsed_secs: u64) -> (r: Option<u128>)
        ensures
            r is Some <==> elapsed_secs > 0,
            r is Some ==> r.unwrap() == self.rate_millis(elapsed_secs),
    {
        if elapsed_secs == 0 {
            None
        } else {
            let scaled: u128 = self.succeeded as u128 * 1000;
            Some(scaled / elapsed_secs as u128)
        }
    }
}

/// What a run came to.
#[derive(Clone, Copy, Debug, PartialEq, Eq)]
pub struct RunReport {
    /// The counts at the end of the run.
    pub tally: Tally,
    /// How long the run took, in seconds.
    pub elapsed_secs: u64,
    /// Accepted submissions per second, in thousandths and rounded down;
    /// `None` where the run took less than a second.
    pub throughput_millis: Option<u128>,
    /// The number of source accounts.
    pub concurrency: usize,
    /// The chain's height when the run began and when it ended.
    pub start_height: u64,
    pub end_height: u64,
    /// By how many blocks the chain grew during the run; `None` where it
    /// ended lower than it began.
    pub blocks: Option<u64>,
}

/// Recording never lowers a count and keeps the successes within the
/// attempts.
pub proof fn lemma_record_grows(tally: Tally, outcome: Outcome)
    requires
        tally.wf(),
    ensures
        tally.record(outcome).wf(),
        tally.record(outcome).attempted >= tally.attempted,
        tally.record(outcome).succeeded >= tally.succeeded,
{
}

/// Over any sequence of dispatches the counts never fall, and the successes
/// stay within the attempts.
pub proof fn lemma_record_all_grows(tally: Tally, outcomes: Seq<Outcome>)
    requires
        tally.wf(),
    ensures
        tally.record_all(outcomes).wf(),
        tally.record_all(outcomes).attempted >= tally.attempted,
        tally.record_all(outcomes).succeeded >= tally.succeeded,
    decreases outcomes.len(),
{
    if outcomes.len() > 0 {
        lemma_record_all_grows(tally, outcomes.drop_last());
        lemma_record_grows(tally.record_all(outcomes.drop_last()), outcomes.last());
    }
}

/// Below `u64::MAX` attempts, a dispatch is counted exactly once: it adds
/// one attempt unless the account was skipped, and one success if and only
/// if its transfer was accepted.
pub proof fn lemma_record_counts_once(tally: Tally, outcome: Outcome)
    requires
        tally.wf(),
        tally.attempted < u64::MAX,
    ensures
        tally.record(outcome).attempted == tally.attempted + if outcome.attempted() {
            1int
        } else {
            0int
        },
        tally.record(outcome).succeeded == tally.succeeded + if outcome.succeeded() {
            1int
        } else {
            0int
        },
{
}

/// The counts at an earlier point of a run are no more than at a later one:
/// after the first `earlier` of a sequence of dispatches neither count is
/// above what it is after all of them.
pub proof fn lemma_counts_only_grow(tally: Tally, outcomes: Seq<Outcome>, earlier: int)
    requires
        tally.wf(),
        0 <= earlier <= outcomes.len(),
    ensures
        tally.record_all(outcomes.take(earlier)).wf(),
        tally.record_all(outcomes.take(earlier)).attempted <= tally.record_all(
            outcomes,
        ).attempted,
        tally.record_all(outcomes.take(earlier)).succeeded <= tally.record_all(
            outcomes,
        ).succeeded,
    decreases outcomes.len() - earlier,
{
    lemma_record_all_grows(tally, outcomes.take(earlier));
    if earlier == outcomes.len() {
        assert(outcomes.take(earlier) =~= outcomes);
    } else {
        lemma_counts_only_grow(tally, outcomes.drop_last(), earlier);
        assert(outcomes.drop_last().take(earlier) =~= outcomes.take(earlier));
        lemma_record_all_grows(tally, outcomes.drop_last());
        lemma_record_grows(tally.record_all(outcomes.drop_last()), outcomes.last());
    }
}

/// While the attempts fit in a `u64`, the counts after a sequence of
/// dispatches are the counts before plus the attempts and the successes
/// among them.
pub proof fn lemma_record_all_counts(tally: Tally, outcomes: Seq<Outcome>)
    requires
        tally.wf(),
        tally.attempted + crate::progress::attempts(outcomes) <= u64::MAX,
    ensures
        tally.record_all(outcomes).attempted == tally.attempted + crate::progress::attempts(
            outcomes,
        ),
        tally.record_all(outcomes).succeeded == tally.succeeded + crate::progress::successes(
            outcomes,
        ),
    decreases outcomes.len(),
{
    if outcomes.len() > 0 {
        lemma_record_all_counts(tally, outcomes.drop_last());
        lemma_record_all_grows(tally, outcomes.drop_last());
    }
}

/// The counters of a run.
#[derive(Clone, Copy, Debug)]
pub struct Metrics {
    tally: Tally,
}

impl View for Metrics {
    type V = Tally;

    closed spec fn view(&self) -> Tally {
        self.tally
    }
}

impl Metrics {
    #[verifier::type_invariant]
    spec fn inv(self) -> bool {
        self.tally.wf()
    }

    /// Counters at zero.
    pub fn new() -> (m: Metrics)
        ensures
            m@ == (Tally { attempted: 0, succeeded: 0 }),
    {
        Metrics { tally: Tally { attempted: 0, succeeded: 0 } }
    }

    /// Counts one dispatch.
    pub fn record(&mut self, outcome: &Outcome)
        ensures
            final(self)@ == old(self)@.record(*outcome),
            old(self)@.wf(),
            final(self)@.wf(),
    {
        proof {
            use_type_invariant(&*self);
        }
        if outcome.is_attempted() && self.tally.attempted < u64::MAX {
            let succeeded: u64 = if outcome.is_succeeded() {
                self.tally.succeeded + 1
            } else {
                self.tally.succeeded
            };
            self.tally = Tally { attempted: self.tally.attempted + 1, succeeded };
        }
    }

    /// Counts the dispatches of a round, in order.
    pub fn record_all(&mut self, outcomes: &Vec<Outcome>)
        ensures
            final(self)@ == old(self)@.record_all(outcomes@),
            old(self)@.wf(),
            final(self)@.wf(),
    {
        proof {
            use_type_invariant(&*self);
        }
        let mut i: usize = 0;
        while i < outcomes.len()
            invariant
                i <= outcomes.len(),
                self@.wf(),
                self@ == old(self)@.record_all(outcomes@.take(i as int)),
            decreases outcomes.len() - i,
        {
            proof {
                assert(outcomes@.take(i + 1).drop_last() =~= outcomes@.take(i as int));
            }
            self.record(&outcomes[i]);
            i = i + 1;
        }
        proof {
            assert(outcomes@.take(i as int) =~= outcomes@);
        }
    }

    /// The number of attempts.
    pub fn attempted(&self) -> (r: u64)
        ensures
            r == self@.attempted,
    {
        self.tally.attempted
    }

    /// The number of accepted submissions: never more than the attempts.
    pub fn succeeded(&self) -> (r: u64)
        ensures
            r == self@.succeeded,
            r <= self@.attempted,
    {
        proof {
            use_type_invariant(self);
        }
        self.tally.succeeded
    }

    /// The report of a run that took `elapsed_secs` seconds with
    /// `concurrency` source accounts, while the chain went from
    /// `start_height` to `end_height`.
    pub fn report(&self, elapsed_secs: u64, concurrency: usize, start_height: u64, end_height: u64)
        -> (r: RunReport)
        ensures
            r.tally == self@,
            r.tally.wf(),
            r.elapsed_secs == elapsed_secs,
            r.concurrency == concurrency,
            r.start_height == start_height,
            r.end_height == end_height,
            r.throughput_millis is Some <==> elapsed_secs > 0,
            r.throughput_millis is Some ==> r.throughput_millis.unwrap() == self@.rate_millis(
                elapsed_secs,
            ),
            r.blocks is Some <==> start_height <= end_height,
            r.blocks is Some ==> r.blocks.unwrap() == end_height - start_height,
    {
        proof {
            use_type_invariant(self);
        }
        RunReport {
            tally: self.tally,
            elapsed_secs,
            throughput_millis: self.tally.throughput_millis(elapsed_secs),
            concurrency,
            start_height,
            end_height,
            blocks: if start_height <= end_height {
                Some(end_height - start_height)
            } else {
                None
            },
        }
    }

    /// Both counts as they stand.
    pub fn snapshot(&self) -> (r: Tally)
        ensures
            r == self@,
            r.wf(),
    {
        proof {
            use_type_invariant(self);
        }
        self.tally
    }
}

} // verus!
