//! The account pool builder: which candidates can fund a whole run, and the
//! targets each of them sends to; and the sizing of the worker pool.

use crate::account::{AccountView, SourceAccount, Target};
use crate::error::ConfigError;
use crate::keys::{is_key_address, Address, SecretKey};
use crate::uint256::{modulus, Uint256};
use vstd::prelude::*;

verus! {

/// An account that may become a source: its key, its address, and its
/// balance where the chain was asked for it.
#[derive(Clone, Copy, Debug, PartialEq, Eq)]
pub struct Candidate {
    pub secret: SecretKey,
    pub address: Address,
    /// The balance, or `None` where it was not asked for or could not be had.
    pub balance: Option<Uint256>,
}

/// Whether a candidate can fund `count` transfers of `amount`. Without the
/// balance check every candidate can. With it, the balance must be known
/// and be no less than `amount * count`.
pub open spec fn viable(candidate: Candidate, check_balance: bool, amount: Uint256, count: u64)
    -> bool {
    !check_balance || (candidate.balance matches Some(balance) && balance.value() >= amount.value()
        * count)
}

/// The viable candidates, in the order in which they came.
pub open spec fn viable_candidates(
    candidates: Seq<Candidate>,
    check_balance: bool,
    amount: Uint256,
    count: u64,
) -> Seq<Candidate>
    decreases candidates.len(),
{
    if candidates.len() == 0 {
        Seq::empty()
    } else {
        let before = viable_candidates(candidates.drop_last(), check_balance, amount, count);
        if viable(candidates.last(), check_balance, amount, count) {
            before.push(candidates.last())
        } else {
            before
        }
    }
}

/// Whether an account is what the builder makes of a candidate: the
/// candidate's key and address, `count` targets of `amount` each, every one
/// at the address of a valid signing key, and no submission on record.
pub open spec fn built_from(account: AccountView, candidate: Candidate, amount: Uint256, count: u64)
    -> bool {
    &&& account.secret == candidate.secret
    &&& account.address == candidate.address
    &&& account.last_submission is None
    &&& account.targets.len() == count
    &&& forall|j: int|
        0 <= j < account.targets.len() ==> (#[trigger] account.targets[j]).amount == amount
            && is_key_address(account.targets[j].address)
}

/// Every candidate that the builder keeps is one of those it was given and
/// is viable: with the balance check on, none with a balance below
/// `amount * count` is among them.
pub proof fn lemma_viable_candidates(
    candidates: Seq<Candidate>,
    check_balance: bool,
    amount: Uint256,
    count: u64,
)
    ensures
        viable_candidates(candidates, check_balance, amount, count).len() <= candidates.len(),
        forall|i: int|
            0 <= i < viable_candidates(candidates, check_balance, amount, count).len() ==> {
                let kept = #[trigger] viable_candidates(candidates, check_balance, amount, count)[i];
                &&& candidates.contains(kept)
                &&& viable(kept, check_balance, amount, count)
                &&& check_balance ==> kept.balance is Some && kept.balance.unwrap().value()
                    >= amount.value() * count
            },
    decreases candidates.len(),
{
    if candidates.len() > 0 {
        let shorter = candidates.drop_last();
        lemma_viable_candidates(shorter, check_balance, amount, count);
        let before = viable_candidates(shorter, check_balance, amount, count);
        assert forall|i: int|
            0 <= i < viable_candidates(candidates, check_balance, amount, count).len() implies {
            let kept = #[trigger] viable_candidates(candidates, check_balance, amount, count)[i];
            &&& candidates.contains(kept)
            &&& viable(kept, check_balance, amount, count)
            &&& check_balance ==> kept.balance is Some && kept.balance.unwrap().value()
                >= amount.value() * count
        } by {
            let kept = viable_candidates(candidates, check_balance, amount, count)[i];
            if i < before.len() {
                assert(kept == before[i]);
                assert(shorter.contains(kept));
                let k = choose|k: int| 0 <= k < shorter.len() && shorter[k] == kept;
                assert(candidates[k] == kept);
            } else {
                assert(kept == candidates.last());
                assert(candidates[candidates.len() - 1] == kept);
            }
        }
    }
}

/// The number of worker threads for `keys` accounts under a limit of
/// `max_par`: two per account, but no more than the limit.
pub fn calc_pool_size(keys: usize, max_par: usize) -> (r: usize)
    ensures
        r == if 2 * keys > max_par {
            max_par as int
        } else {
            2 * keys
        },
{
    if keys > max_par / 2 {
        max_par
    } else {
        keys * 2
    }
}

/// `num_cpus::get`: the number of logical CPUs that this process may use,
/// which is at least one.
#[verifier::external_body]
pub fn log_cpus() -> (r: u64)
    ensures
        r >= 1,
{
    num_cpus::get() as u64
}

/// `num_cpus::get_physical`: the number of physical cores, which is at
/// least one.
#[verifier::external_body]
pub fn phy_cpus() -> (r: u64)
    ensures
        r >= 1,
{
    num_cpus::get_physical() as u64
}

/// The worker limit that a machine with `cpus` logical CPUs takes: at least
/// one worker, and no more than a thousand per CPU.
pub fn check_worker_limit(max_par: u64, cpus: u64) -> (r: Result<(), ConfigError>)
    ensures
        r == (if max_par > cpus * 1000 {
            Err::<(), ConfigError>(ConfigError::ExcessiveWorkers)
        } else if max_par == 0 {
            Err(ConfigError::ZeroWorkers)
        } else {
            Ok(())
        }),
{
    if cpus <= u64::MAX / 1000 && max_par > cpus * 1000 {
        Err(ConfigError::ExcessiveWorkers)
    } else if max_par == 0 {
        Err(ConfigError::ZeroWorkers)
    } else {
        Ok(())
    }
}

/// Checks the worker limit against this machine. A limit of zero is always
/// refused, and a limit of a thousand or less is never refused as excessive.
pub fn check_parallel_args(max_par: u64) -> (r: Result<(), ConfigError>)
    ensures
        max_par == 0 ==> r == Err::<(), ConfigError>(ConfigError::ZeroWorkers),
        0 < max_par <= 1000 ==> r is Ok,
        r is Err ==> r == Err::<(), ConfigError>(ConfigError::ZeroWorkers) || r == Err::<
            (),
            ConfigError,
        >(ConfigError::ExcessiveWorkers),
{
    check_worker_limit(max_par, log_cpus())
}

/// `count` targets of `amount` each, every one at an address of its own
/// that was made for it.
fn fresh_targets(amount: Uint256, count: usize) -> (r: Vec<Target>)
    ensures
        r@.len() == count,
        forall|j: int|
            0 <= j < r@.len() ==> (#[trigger] r@[j]).amount == amount && is_key_address(
                r@[j].address,
            ),
{
    let mut targets: Vec<Target> = Vec::new();
    let mut j: usize = 0;
    while j < count
        invariant
            j <= count,
            targets@.len() == j,
            forall|k: int|
                0 <= k < targets@.len() ==> (#[trigger] targets@[k]).amount == amount
                    && is_key_address(targets@[k].address),
        decreases count - j,
    {
        targets.push(Target { address: Address::fresh(), amount });
        j = j + 1;
    }
    targets
}

/// Whether the candidate can fund the run; `needed` is `amount * count`
/// where that fits in 256 bits.
fn is_viable(
    candidate: &Candidate,
    check_balance: bool,
    needed: &Option<Uint256>,
    amount: Uint256,
    count: u64,
) -> (r: bool)
    requires
        match needed {
            Some(product) => product.value() == amount.value() * count,
            None => amount.value() * count >= modulus(),
        },
    ensures
        r == viable(*candidate, check_balance, amount, count),
{
    if !check_balance {
        true
    } else {
        match (candidate.balance, needed) {
            (Some(balance), Some(product)) => balance.ge(product),
            (Some(balance), None) => {
                proof {
                    balance.lemma_value_range();
                }
                false
            },
            (None, _) => false,
        }
    }
}

/// Builds the pool of source accounts. A candidate is kept if it is
/// [`viable`]; each one kept gets `count` targets of `target_amount` at new
/// addresses. The pool holds the kept candidates in the order in which they
/// came: with the balance check on, no account with a balance below
/// `target_amount * count` is in it. A `count` of zero is refused, and so is
/// a pool that would be empty.
pub fn build_source_keys(
    candidates: &Vec<Candidate>,
    check_balance: bool,
    target_amount: Uint256,
    count: u64,
) -> (r: Result<Vec<SourceAccount>, ConfigError>)
    requires
        count <= usize::MAX,
    ensures
        match r {
            Ok(pool) => {
                let kept = viable_candidates(candidates@, check_balance, target_amount, count);
                &&& count > 0
                &&& pool@.len() > 0
                &&& pool@.len() == kept.len()
                &&& forall|i: int|
                    0 <= i < pool@.len() ==> built_from(
                        (#[trigger] pool@[i])@,
                        kept[i],
                        target_amount,
                        count,
                    )
                &&& forall|i: int|
                    0 <= i < kept.len() ==> candidates@.contains(#[trigger] kept[i]) && viable(
                        kept[i],
                        check_balance,
                        target_amount,
                        count,
                    )
            },
            Err(e) => if count == 0 {
                e == ConfigError::ZeroRounds
            } else {
                &&& e == ConfigError::ZeroAccounts
                &&& viable_candidates(candidates@, check_balance, target_amount, count).len() == 0
            },
        },
{
    if count == 0 {
        return Err(ConfigError::ZeroRounds);
    }
    let needed = target_amount.checked_mul(&Uint256::from_u64(count));
    let mut pool: Vec<SourceAccount> = Vec::new();
    let mut i: usize = 0;
    while i < candidates.len()
        invariant
            i <= candidates.len(),
            0 < count <= usize::MAX,
            match needed {
                Some(product) => product.value() == target_amount.value() * count,
                None => target_amount.value() * count >= modulus(),
            },
            pool@.len() == viable_candidates(
                candidates@.take(i as int),
                check_balance,
                target_amount,
                count,
            ).len(),
            forall|k: int|
                0 <= k < pool@.len() ==> built_from(
                    (#[trigger] pool@[k])@,
                    viable_candidates(
                        candidates@.take(i as int),
                        check_balance,
                        target_amount,
                        count,
                    )[k],
                    target_amount,
                    count,
                ),
        decreases candidates.len() - i,
    {
        let candidate = candidates[i];
        proof {
            assert(candidates@.take(i + 1).drop_last() =~= candidates@.take(i as int));
            assert(candidates@.take(i + 1).last() == candidate);
        }
        if is_viable(&candidate, check_balance, &needed, target_amount, count) {
            let targets = fresh_targets(target_amount, count as usize);
            pool.push(SourceAccount::with_targets(candidate.secret, candidate.address, targets));
        }
        i = i + 1;
    }
    proof {
        assert(candidates@.take(i as int) =~= candidates@);
        lemma_viable_candidates(candidates@, check_balance, target_amount, count);
    }
    if pool.len() == 0 {
        Err(ConfigError::ZeroAccounts)
    } else {
        Ok(pool)
    }
}

} // verus!
