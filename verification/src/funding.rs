//! Funding source accounts from the root account: how much each gets, how
//! many the root account can afford, which keys are missing, and which
//! accounts are funded.

use crate::keys::Address;
use crate::ops::Error;
use crate::uint256::{word, Uint256};
use vstd::prelude::*;
use vstd::string::*;

verus! {

/// The smallest units in one token of the native ledger.
pub const FRA: u64 = 1_000_000;

/// The smallest units in a tenth of a token of the other ledger: `10^17`.
pub const TENTH: u64 = 100_000_000_000_000_000;

/// Why the root account cannot fund the source accounts.
#[derive(Clone, Copy, Debug, PartialEq, Eq)]
pub enum FundingError {
    /// The root account does not hold more than the amount once for every
    /// source account and once more. `maximum` is the balance divided by
    /// the amount, where the amount is not zero.
    TooManySources { maximum: Option<Uint256> },
}

/// An account that may be funded, and what it holds.
#[derive(Clone, Copy, Debug, PartialEq, Eq)]
pub struct FundingCandidate {
    pub address: Address,
    pub balance: Uint256,
}

/// An account to fund, and the amount it gets.
#[derive(Clone, Copy, Debug, PartialEq, Eq)]
pub struct Funding {
    pub address: Address,
    pub amount: Uint256,
}

/// Whether an account is funded. When topping up, only accounts that hold
/// less than the amount are; otherwise every account is.
pub open spec fn is_funded(candidate: FundingCandidate, redeposit: bool, amount: Uint256) -> bool {
    !redeposit || candidate.balance.value() < amount.value()
}

/// The fundings of the accounts that are funded, in the order of the
/// accounts.
pub open spec fn fundings(candidates: Seq<FundingCandidate>, redeposit: bool, amount: Uint256)
    -> Seq<Funding>
    decreases candidates.len(),
{
    if candidates.len() == 0 {
        Seq::empty()
    } else {
        let before = fundings(candidates.drop_last(), redeposit, amount);
        if is_funded(candidates.last(), redeposit, amount) {
            before.push(Funding { address: candidates.last().address, amount })
        } else {
            before
        }
    }
}

/// The amount that each source account is funded with: `tenths` tenths of
/// a token.
pub fn funding_amount(tenths: u64) -> (r: Uint256)
    ensures
        r.value() == TENTH * tenths,
{
    let unit = Uint256::from_u64(TENTH);
    let factor = Uint256::from_u64(tenths);
    proof {
        let b = word();
        assert(unit.value() * factor.value() < b * b) by (nonlinear_arith)
            requires
                0 <= unit.value() < b,
                0 <= factor.value() < b,
        ;
        assert(b * b <= b * b * b * b) by (nonlinear_arith)
            requires
                b >= 1,
        ;
    }
    unit.checked_mul(&factor).unwrap()
}

/// The amount of a transfer on the native ledger in its smallest units,
/// where that fits in a `u64`.
pub fn native_amount(tokens: u64) -> (r: Option<u64>)
    ensures
        r is Some <==> tokens * FRA <= u64::MAX,
        r is Some ==> r.unwrap() == tokens * FRA,
{
    if tokens <= u64::MAX / FRA {
        Some(tokens * FRA)
    } else {
        None
    }
}

/// Whether the root account can fund `count` new source accounts with
/// `amount` each: it must hold more than the amount `count + 1` times.
pub fn check_capacity(amount: &Uint256, count: u64, balance: &Uint256) -> (r: Result<
    (),
    FundingError,
>)
    ensures
        match r {
            Ok(()) => amount.value() * (count + 1) < balance.value(),
            Err(FundingError::TooManySources { maximum }) => {
                &&& amount.value() * (count + 1) >= balance.value()
                &&& maximum is Some <==> amount.value() != 0
                &&& maximum is Some ==> maximum.unwrap().value() == balance.value() / amount.value()
            },
        },
{
    let shares = if count == u64::MAX {
        Uint256 { w0: 0, w1: 1, w2: 0, w3: 0 }
    } else {
        Uint256::from_u64(count + 1)
    };
    proof {
        balance.lemma_value_range();
    }
    let enough = match amount.checked_mul(&shares) {
        Some(needed) => needed.lt(balance),
        None => false,
    };
    if enough {
        Ok(())
    } else {
        Err(FundingError::TooManySources { maximum: balance.checked_div(amount) })
    }
}

/// Whether a key file may be written: a new one must not replace one that
/// exists.
pub fn check_new_key_file(load: bool, exists: bool) -> (r: Result<(), Error>)
    ensures
        match r {
            Ok(()) => load || !exists,
            Err(e) => {
                &&& !load && exists
                &&& e matches Error::Other(message) && message@
                    == "source keys file already existed"@
            },
        },
{
    if !load && exists {
        Err(Error::Other(String::from_str("source keys file already existed")))
    } else {
        Ok(())
    }
}

/// How many keys have to be made so that there are `count`, given that
/// there are `have`.
pub fn missing_keys(count: u64, have: usize) -> (r: u64)
    ensures
        r == if count > have {
            count - have
        } else {
            0
        },
{
    if count > have as u64 {
        count - have as u64
    } else {
        0
    }
}

/// The accounts to fund and what each gets.
pub fn select_for_funding(candidates: &Vec<FundingCandidate>, redeposit: bool, amount: Uint256)
    -> (r: Vec<Funding>)
    ensures
        r@ == fundings(candidates@, redeposit, amount),
{
    let mut out: Vec<Funding> = Vec::new();
    let mut i: usize = 0;
    while i < candidates.len()
        invariant
            i <= candidates.len(),
            out@ == fundings(candidates@.take(i as int), redeposit, amount),
        decreases candidates.len() - i,
    {
        let candidate = candidates[i];
        proof {
            assert(candidates@.take(i + 1).drop_last() =~= candidates@.take(i as int));
            assert(candidates@.take(i + 1).last() == candidate);
        }
        if !redeposit || candidate.balance.lt(&amount) {
            out.push(Funding { address: candidate.address, amount });
        }
        i = i + 1;
    }
    proof {
        assert(candidates@.take(i as int) =~= candidates@);
    }
    out
}

} // verus!
