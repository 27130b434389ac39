//! The operations that the command line offers besides the load test, and
//! what each of them comes to.

use crate::text::{lowercased, same_text, to_lowercase, trim, trimmed};
use vstd::prelude::*;
use vstd::string::*;

verus! {

/// Why an operation failed.
#[derive(Clone, Debug, PartialEq, Eq)]
pub enum Error {
    /// A bridge operation between the two ledgers failed.
    Prism(String),
    /// An operation on the native ledger failed.
    Native(String),
    /// Anything else.
    Other(String),
}

/// An operation on the bridge between the two ledgers.
#[derive(Clone, Copy, Debug, PartialEq, Eq, Structural)]
pub enum PrismOp {
    Deposit,
    WithDraw,
}

/// An operation on the native ledger.
#[derive(Clone, Copy, Debug, PartialEq, Eq, Structural)]
pub enum NativeOp {
    Transfer,
    Delegate,
    Stake,
}

/// The bridge operation that a name in lower case stands for.
pub open spec fn prism_op_named(name: Seq<char>) -> Option<PrismOp> {
    if name == "deposit"@ {
        Some(PrismOp::Deposit)
    } else if name == "withdraw"@ {
        Some(PrismOp::WithDraw)
    } else {
        None
    }
}

/// The native operation that a name in lower case stands for.
pub open spec fn native_op_named(name: Seq<char>) -> Option<NativeOp> {
    if name == "transfer"@ {
        Some(NativeOp::Transfer)
    } else if name == "delegate"@ {
        Some(NativeOp::Delegate)
    } else if name == "stake"@ {
        Some(NativeOp::Stake)
    } else {
        None
    }
}

impl PrismOp {
    /// The operation with exactly this name; for any other name an error
    /// that quotes it.
    pub fn from_normalized(name: &str) -> (r: Result<PrismOp, String>)
        ensures
            match r {
                Ok(op) => prism_op_named(name@) == Some(op),
                Err(message) => prism_op_named(name@) is None && message@ == "invalid PrismOp "@
                    + name@,
            },
    {
        if same_text(name, "deposit") {
            Ok(PrismOp::Deposit)
        } else if same_text(name, "withdraw") {
            Ok(PrismOp::WithDraw)
        } else {
            Err(String::from_str("invalid PrismOp ").concat(name))
        }
    }

    /// The operation that a text names: the text is put in lower case and
    /// the white space around it is dropped before it is looked up.
    pub fn parse(text: &str) -> (r: Result<PrismOp, String>)
        ensures
            match r {
                Ok(op) => prism_op_named(trimmed(lowercased(text@))) == Some(op),
                Err(message) => prism_op_named(trimmed(lowercased(text@))) is None && message@
                    == "invalid PrismOp "@ + trimmed(lowercased(text@)),
            },
    {
        let lower = to_lowercase(text);
        PrismOp::from_normalized(trim(lower.as_str()))
    }
}

impl std::str::FromStr for PrismOp {
    type Err = String;

    /// The operation that a text names, as [`PrismOp::parse`] reads it.
    fn from_str(s: &str) -> (r: Result<Self, Self::Err>)
        ensures
            match r {
                Ok(op) => prism_op_named(trimmed(lowercased(s@))) == Some(op),
                Err(message) => prism_op_named(trimmed(lowercased(s@))) is None && message@
                    == "invalid PrismOp "@ + trimmed(lowercased(s@)),
            },
    {
        PrismOp::parse(s)
    }
}

impl NativeOp {
    /// The operation with exactly this name; for any other name the error
    /// `Unknown NativeOp`.
    pub fn from_normalized(name: &str) -> (r: Result<NativeOp, String>)
        ensures
            match r {
                Ok(op) => native_op_named(name@) == Some(op),
                Err(message) => native_op_named(name@) is None && message@ == "Unknown NativeOp"@,
            },
    {
        if same_text(name, "transfer") {
            Ok(NativeOp::Transfer)
        } else if same_text(name, "delegate") {
            Ok(NativeOp::Delegate)
        } else if same_text(name, "stake") {
            Ok(NativeOp::Stake)
        } else {
            Err(String::from_str("Unknown NativeOp"))
        }
    }

    /// The operation that a text names: the text is put in lower case and
    /// the white space around it is dropped before it is looked up.
    pub fn parse(text: &str) -> (r: Result<NativeOp, String>)
        ensures
            match r {
                Ok(op) => native_op_named(trimmed(lowercased(text@))) == Some(op),
                Err(message) => native_op_named(trimmed(lowercased(text@))) is None && message@
                    == "Unknown NativeOp"@,
            },
    {
        let lower = to_lowercase(text);
        NativeOp::from_normalized(trim(lower.as_str()))
    }
}

impl std::str::FromStr for NativeOp {
    type Err = String;

    /// The operation that a text names, as [`NativeOp::parse`] reads it.
    fn from_str(s: &str) -> (r: Result<Self, Self::Err>)
        ensures
            match r {
                Ok(op) => native_op_named(trimmed(lowercased(s@))) == Some(op),
                Err(message) => native_op_named(trimmed(lowercased(s@))) is None && message@
                    == "Unknown NativeOp"@,
            },
    {
        NativeOp::parse(s)
    }
}

/// A transfer on the native ledger, ready to be made: the node to send it
/// to, the file that holds the sender's mnemonic, the recipient's public key
/// as text, and the amount.
#[derive(Clone, Debug, PartialEq, Eq)]
pub struct NativeTransfer {
    pub endpoint: String,
    pub secret: String,
    pub target: String,
    pub amount: u64,
}

/// A bridge operation, ready to be made: the node to send it to, the file
/// that holds the sender's mnemonic, the recipient as text, and the amount.
#[derive(Clone, Debug, PartialEq, Eq)]
pub enum PrismCall {
    /// From the native ledger to the address `target` on the other.
    Deposit { endpoint: String, secret: String, target: String, amount: u64 },
    /// From the other ledger to the public key `target` on the native one.
    Withdraw { endpoint: String, secret: String, target: String, amount: u64 },
}

/// What a native operation comes to. Only transfers are supported: a
/// transfer gives the call to make, with the arguments as they came; any
/// other operation gives the error `Unsupported operation`.
pub fn execute_native(base: &str, op: &NativeOp, secret: &str, target_addr: &str, amount: u64) -> (r:
    Result<NativeTransfer, Error>)
    ensures
        match r {
            Ok(call) => {
                &&& *op == NativeOp::Transfer
                &&& call.endpoint@ == base@
                &&& call.secret@ == secret@
                &&& call.target@ == target_addr@
                &&& call.amount == amount
            },
            Err(e) => {
                &&& *op != NativeOp::Transfer
                &&& e matches Error::Native(message) && message@ == "Unsupported operation"@
            },
        },
{
    match op {
        NativeOp::Transfer => Ok(
            NativeTransfer {
                endpoint: base.to_owned(),
                secret: secret.to_owned(),
                target: target_addr.to_owned(),
                amount,
            },
        ),
        _ => Err(Error::Native(String::from_str("Unsupported operation"))),
    }
}

/// What a bridge operation comes to: the call to make, with the arguments
/// as they came.
pub fn execute_prism(base: &str, op: &PrismOp, secret: &str, target: &str, amount: u64) -> (r:
    PrismCall)
    ensures
        match r {
            PrismCall::Deposit { endpoint, secret: s, target: t, amount: a } => {
                &&& *op == PrismOp::Deposit
                &&& endpoint@ == base@
                &&& s@ == secret@
                &&& t@ == target@
                &&& a == amount
            },
            PrismCall::Withdraw { endpoint, secret: s, target: t, amount: a } => {
                &&& *op == PrismOp::WithDraw
                &&& endpoint@ == base@
                &&& s@ == secret@
                &&& t@ == target@
                &&& a == amount
            },
        },
{
    match op {
        PrismOp::Deposit => PrismCall::Deposit {
            endpoint: base.to_owned(),
            secret: secret.to_owned(),
            target: target.to_owned(),
            amount,
        },
        PrismOp::WithDraw => PrismCall::Withdraw {
            endpoint: base.to_owned(),
            secret: secret.to_owned(),
            target: target.to_owned(),
            amount,
        },
    }
}

} // verus!
