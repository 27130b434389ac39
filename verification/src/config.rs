//! The configuration of a run, and what makes one unusable.

use crate::account::SourceAccount;
use crate::dispatch::RetryPolicy;
use crate::error::ConfigError;
use crate::pool::{
    build_source_keys, built_from, check_worker_limit, viable_candidates, Candidate,
};
use crate::scheduler::{Pacing, RoundLimit, Scheduler, State};
use crate::uint256::Uint256;
use vstd::prelude::*;

verus! {

/// Everything that a run is configured with.
#[derive(Clone, Copy, Debug, PartialEq, Eq)]
pub struct RunConfig {
    /// How many targets each source account gets.
    pub per_account_target_count: u64,
    /// Whether candidates are held to their balance.
    pub check_balance: bool,
    /// The amount of every transfer. With the balance check on, a source
    /// account must hold this amount once for each of its targets.
    pub target_amount: Uint256,
    /// What holds a round back.
    pub pacing: Pacing,
    /// How many rounds the run has.
    pub round_limit: RoundLimit,
    /// Whether an account waits for its last submission to confirm.
    pub confirmation_gating: bool,
    /// The polling budget of confirmation gating.
    pub confirmation_retry: RetryPolicy,
    /// The largest number of worker threads.
    pub worker_limit: u64,
}

impl RunConfig {
    /// What is wrong with the configuration on a machine with `cpus` logical
    /// CPUs, if anything: the first of an excessive worker limit, a worker
    /// limit of zero, no targets or no rounds, and invalid pacing.
    pub open spec fn error(self, cpus: u64) -> Option<ConfigError> {
        if self.worker_limit > cpus * 1000 {
            Some(ConfigError::ExcessiveWorkers)
        } else if self.worker_limit == 0 {
            Some(ConfigError::ZeroWorkers)
        } else if self.per_account_target_count == 0 || self.round_limit.cap() == 0 {
            Some(ConfigError::ZeroRounds)
        } else if !self.pacing.valid() {
            Some(ConfigError::InvalidPacing)
        } else {
            None
        }
    }

    /// The retry budget that dispatches run under: `None` where confirmation
    /// gating is off.
    pub open spec fn gating_spec(self) -> Option<RetryPolicy> {
        if self.confirmation_gating {
            Some(self.confirmation_retry)
        } else {
            None
        }
    }

    /// Checks the configuration for a machine with `cpus` logical CPUs. No
    /// chain call is needed for this, so a run with a bad configuration can
    /// be refused before the first one.
    pub fn validate(&self, cpus: u64) -> (r: Result<(), ConfigError>)
        ensures
            r == (match self.error(cpus) {
                Some(e) => Err::<(), ConfigError>(e),
                None => Ok(()),
            }),
    {
        match check_worker_limit(self.worker_limit, cpus) {
            Err(e) => Err(e),
            Ok(()) => {
                if self.per_account_target_count == 0 || self.round_limit.rounds() == 0 {
                    Err(ConfigError::ZeroRounds)
                } else if !self.pacing.is_valid() {
                    Err(ConfigError::InvalidPacing)
                } else {
                    Ok(())
                }
            },
        }
    }

    /// The retry budget that dispatches run under.
    pub fn gating(&self) -> (r: Option<RetryPolicy>)
        ensures
            r == self.gating_spec(),
    {
        if self.confirmation_gating {
            Some(self.confirmation_retry)
        } else {
            None
        }
    }

    /// The scheduler of the run, not yet started.
    pub fn scheduler(&self) -> (r: Result<Scheduler, ConfigError>)
        ensures
            match r {
                Ok(s) => self.round_limit.cap() > 0 && self.pacing.valid() && s@ == State::fresh(
                    self.pacing,
                    self.round_limit,
                ),
                Err(e) => if self.round_limit.cap() == 0 {
                    e == ConfigError::ZeroRounds
                } else {
                    !self.pacing.valid() && e == ConfigError::InvalidPacing
                },
            },
    {
        Scheduler::new(self.pacing, self.round_limit)
    }

    /// The pool of the run: see [`build_source_keys`].
    pub fn build_pool(&self, candidates: &Vec<Candidate>) -> (r: Result<
        Vec<SourceAccount>,
        ConfigError,
    >)
        requires
            self.per_account_target_count <= usize::MAX,
        ensures
            match r {
                Ok(pool) => {
                    let kept = viable_candidates(
                        candidates@,
                        self.check_balance,
                        self.target_amount,
                        self.per_account_target_count,
                    );
                    &&& self.per_account_target_count > 0
                    &&& pool@.len() > 0
                    &&& pool@.len() == kept.len()
                    &&& forall|i: int|
                        0 <= i < pool@.len() ==> built_from(
                            (#[trigger] pool@[i])@,
                            kept[i],
                            self.target_amount,
                            self.per_account_target_count,
                        )
                },
                Err(e) => if self.per_account_target_count == 0 {
                    e == ConfigError::ZeroRounds
                } else {
                    &&& e == ConfigError::ZeroAccounts
                    &&& viable_candidates(
                        candidates@,
                        self.check_balance,
                        self.target_amount,
                        self.per_account_target_count,
                    ).len() == 0
                },
            },
    {
        build_source_keys(
            candidates,
            self.check_balance,
            self.target_amount,
            self.per_account_target_count,
        )
    }
}

} // verus!
