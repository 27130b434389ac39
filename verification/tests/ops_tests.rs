use feth::ops::{execute_native, execute_prism, Error, NativeOp, NativeTransfer, PrismCall, PrismOp};
use std::str::FromStr;

#[test]
fn prism_ops_are_named_in_any_case_and_with_space_around() {
    assert_eq!(PrismOp::from_str("deposit"), Ok(PrismOp::Deposit));
    assert_eq!(PrismOp::from_str("withdraw"), Ok(PrismOp::WithDraw));
    assert_eq!(PrismOp::from_str("  Deposit\n"), Ok(PrismOp::Deposit));
    assert_eq!(PrismOp::from_str("WITHDRAW "), Ok(PrismOp::WithDraw));
    assert_eq!("WithDraw".parse::<PrismOp>(), Ok(PrismOp::WithDraw));
    assert_eq!(PrismOp::parse("dePOSit"), Ok(PrismOp::Deposit));
}

#[test]
fn an_unknown_prism_op_is_quoted_in_the_error() {
    assert_eq!(PrismOp::from_str("Transfer"), Err("invalid PrismOp transfer".to_string()));
    assert_eq!(PrismOp::from_str(""), Err("invalid PrismOp ".to_string()));
    assert_eq!(PrismOp::from_str("  With Draw "), Err("invalid PrismOp with draw".to_string()));
    assert_eq!(PrismOp::from_normalized("Deposit"), Err("invalid PrismOp Deposit".to_string()));
    assert_eq!(PrismOp::from_normalized(" deposit"), Err("invalid PrismOp  deposit".to_string()));
    assert_eq!(PrismOp::from_normalized("deposit"), Ok(PrismOp::Deposit));
    assert_eq!(PrismOp::from_normalized("withdraw"), Ok(PrismOp::WithDraw));
}

#[test]
fn native_ops_are_named_in_any_case_and_with_space_around() {
    assert_eq!(NativeOp::from_str("transfer"), Ok(NativeOp::Transfer));
    assert_eq!(NativeOp::from_str("delegate"), Ok(NativeOp::Delegate));
    assert_eq!(NativeOp::from_str("stake"), Ok(NativeOp::Stake));
    assert_eq!(NativeOp::from_str(" TRANSFER "), Ok(NativeOp::Transfer));
    assert_eq!("Stake".parse::<NativeOp>(), Ok(NativeOp::Stake));
    assert_eq!(NativeOp::parse("\tDelegate"), Ok(NativeOp::Delegate));
}

#[test]
fn an_unknown_native_op_is_refused() {
    assert_eq!(NativeOp::from_str("deposit"), Err("Unknown NativeOp".to_string()));
    assert_eq!(NativeOp::from_str(""), Err("Unknown NativeOp".to_string()));
    assert_eq!(NativeOp::from_normalized("Stake"), Err("Unknown NativeOp".to_string()));
    assert_eq!(NativeOp::from_normalized("stake"), Ok(NativeOp::Stake));
    assert_eq!(NativeOp::from_normalized("transfer"), Ok(NativeOp::Transfer));
    assert_eq!(NativeOp::from_normalized("delegate"), Ok(NativeOp::Delegate));
}

#[test]
fn a_native_transfer_comes_to_a_call_with_its_arguments() {
    assert_eq!(
        execute_native("http://node", &NativeOp::Transfer, "key.mn", "pubkey", 42),
        Ok(NativeTransfer {
            endpoint: "http://node".to_string(),
            secret: "key.mn".to_string(),
            target: "pubkey".to_string(),
            amount: 42,
        })
    );
}

#[test]
fn other_native_operations_are_unsupported() {
    let want = Err(Error::Native("Unsupported operation".to_string()));
    assert_eq!(execute_native("http://node", &NativeOp::Delegate, "key.mn", "pubkey", 42), want);
    assert_eq!(execute_native("http://node", &NativeOp::Stake, "key.mn", "pubkey", 42), want);
}

#[test]
fn a_prism_operation_comes_to_the_call_of_its_kind() {
    assert_eq!(
        execute_prism("http://node", &PrismOp::Deposit, "key.mn", "0xabc", 7),
        PrismCall::Deposit {
            endpoint: "http://node".to_string(),
            secret: "key.mn".to_string(),
            target: "0xabc".to_string(),
            amount: 7,
        }
    );
    assert_eq!(
        execute_prism("http://node", &PrismOp::WithDraw, "eth.mn", "pk", 9),
        PrismCall::Withdraw {
            endpoint: "http://node".to_string(),
            secret: "eth.mn".to_string(),
            target: "pk".to_string(),
            amount: 9,
        }
    );
}
