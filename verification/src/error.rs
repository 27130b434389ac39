//! What can be wrong with a run's configuration.

use vstd::prelude::*;

verus! {

/// A configuration that no run can be started with.
#[derive(Clone, Copy, Debug, PartialEq, Eq, Structural)]
pub enum ConfigError {
    /// No source account is left to send from.
    ZeroAccounts,
    /// The run would have no round, or the accounts no target.
    ZeroRounds,
    /// The worker limit is zero.
    ZeroWorkers,
    /// The worker limit is more than a thousand workers per logical CPU.
    ExcessiveWorkers,
    /// A pacing parameter is zero.
    InvalidPacing,
}

} // verus!
