//! Source accounts and the transfers they are to make.

use crate::keys::{Address, SecretKey, TxHash};
use crate::uint256::Uint256;
use vstd::prelude::*;

verus! {

/// The recipient and the amount of one transfer.
#[derive(Clone, Copy, Debug, PartialEq, Eq)]
pub struct Target {
    pub address: Address,
    pub amount: Uint256,
}

/// A submission that the chain accepted and has not yet been seen to confirm.
#[derive(Clone, Copy, Debug, PartialEq, Eq)]
pub struct Submission {
    pub tx: TxHash,
    /// The round whose target the transfer went to.
    pub round: u64,
}

/// What a source account is, as plain values.
pub struct AccountView {
    pub secret: SecretKey,
    pub address: Address,
    pub targets: Seq<Target>,
    pub last_submission: Option<Submission>,
}

impl AccountView {
    /// An account has at least one target.
    pub open spec fn wf(self) -> bool {
        self.targets.len() > 0
    }

    /// Every submission on record was made for a round before `round`.
    pub open spec fn behind(self, round: int) -> bool {
        self.last_submission matches Some(s) ==> s.round < round
    }

    /// The target of a round: the list is walked in order and starts over
    /// at its end.
    pub open spec fn target(self, round: u64) -> Target
        recommends
            self.wf(),
    {
        self.targets[round as int % self.targets.len() as int]
    }

    /// The same account with another submission on record, or none.
    pub open spec fn with_submission(self, s: Option<Submission>) -> AccountView {
        AccountView { last_submission: s, ..self }
    }
}

/// An account whose funds the run distributes: its address, the key that
/// signs for it, its fixed list of targets, and the submission it waits on.
#[derive(Debug)]
pub struct SourceAccount {
    secret: SecretKey,
    address: Address,
    targets: Vec<Target>,
    last_submission: Option<Submission>,
}

impl View for SourceAccount {
    type V = AccountView;

    closed spec fn view(&self) -> AccountView {
        AccountView {
            secret: self.secret,
            address: self.address,
            targets: self.targets@,
            last_submission: self.last_submission,
        }
    }
}

impl SourceAccount {
    #[verifier::type_invariant]
    spec fn inv(self) -> bool {
        self.targets@.len() > 0
    }

    /// An account with the given targets and no submission on record; `None`
    /// where the list of targets is empty.
    pub fn new(secret: SecretKey, address: Address, targets: Vec<Target>) -> (r: Option<
        SourceAccount,
    >)
        ensures
            r is Some <==> targets@.len() > 0,
            r is Some ==> r.unwrap()@ == (AccountView {
                secret,
                address,
                targets: targets@,
                last_submission: None,
            }),
    {
        if targets.len() == 0 {
            None
        } else {
            Some(SourceAccount { secret, address, targets, last_submission: None })
        }
    }

    /// An account with the given targets, of which there is at least one,
    /// and no submission on record.
    pub(crate) fn with_targets(secret: SecretKey, address: Address, targets: Vec<Target>) -> (r:
        SourceAccount)
        requires
            targets@.len() > 0,
        ensures
            r@ == (AccountView { secret, address, targets: targets@, last_submission: None }),
    {
        SourceAccount { secret, address, targets, last_submission: None }
    }

    /// The account's address.
    pub fn address(&self) -> (r: Address)
        ensures
            r == self@.address,
            self@.wf(),
    {
        proof {
            use_type_invariant(self);
        }
        self.address
    }

    /// The key that signs for the account.
    pub fn secret(&self) -> (r: SecretKey)
        ensures
            r == self@.secret,
    {
        self.secret
    }

    /// How many targets the account has: never zero.
    pub fn target_count(&self) -> (r: usize)
        ensures
            r == self@.targets.len(),
            r > 0,
    {
        proof {
            use_type_invariant(self);
        }
        self.targets.len()
    }

    /// The target at a position of the list.
    pub fn target_at(&self, index: usize) -> (r: Option<Target>)
        ensures
            r is Some <==> index < self@.targets.len(),
            r is Some ==> r.unwrap() == self@.targets[index as int],
    {
        if index < self.targets.len() {
            Some(self.targets[index])
        } else {
            None
        }
    }

    /// The target of a round.
    pub fn target(&self, round: u64) -> (r: Target)
        ensures
            self@.wf(),
            r == self@.target(round),
    {
        proof {
            use_type_invariant(self);
        }
        let len: u64 = self.targets.len() as u64;
        let index: u64 = round % len;
        self.targets[index as usize]
    }

    /// The submission that the account waits on, if any.
    pub fn last_submission(&self) -> (r: Option<Submission>)
        ensures
            r == self@.last_submission,
    {
        self.last_submission
    }

    /// Puts a submission on record, or clears the record.
    pub fn set_last_submission(&mut self, s: Option<Submission>)
        ensures
            final(self)@ == old(self)@.with_submission(s),
    {
        proof {
            use_type_invariant(&*self);
        }
        self.last_submission = s;
    }
}

} // verus!
