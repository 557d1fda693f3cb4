//! Tests of the validators, the dispatcher and the combined pipeline.

use disperse_collect::address::Address;
use disperse_collect::amount::Amount;
use disperse_collect::dispatch::{
    dispatch, prepare_collect, prepare_commit, prepare_disperse_native, prepare_disperse_token,
    sum_amounts, ContractInvocation,
};
use disperse_collect::errors::ValidationError;
use disperse_collect::token::TokenKind;
use disperse_collect::validate::{
    validate_collect, validate_commit, validate_disperse_native, validate_disperse_token,
    CallDescriptor, CollectPayload, CommitPayload, DispersePayload,
};

const ADDR_A: &str = "0x40B96ce6ebCe3e2327aB81D61C51492b2eA3258d";
const ADDR_B: &str = "0x1111111111111111111111111111111111111111";
const TOKEN: &str = "0x2222222222222222222222222222222222222222";
const HALF_WORD: &str =
    "57896044618658097711785492504343953926634992332820282019728792003956564819968"; // 2^255

fn amt(s: &str) -> Amount {
    Amount::parse(s).unwrap()
}

fn strings(xs: &[&str]) -> Vec<String> {
    xs.iter().map(|s| s.to_string()).collect()
}

fn disperse(recipients: &[&str], values: &[&str], token: Option<&str>) -> DispersePayload {
    DispersePayload {
        recipients: strings(recipients),
        values: strings(values),
        is_percentages: false,
        token_address: token.map(|s| s.to_string()),
    }
}

#[test]
fn length_mismatch_always_wins() {
    for (rs, vs) in [
        (vec![ADDR_A], vec![]),
        (vec![], vec!["1"]),
        (vec![ADDR_A, ADDR_B], vec!["1"]),
        (vec!["not an address"], vec!["1", "2"]),
    ] {
        let p = DispersePayload {
            recipients: strings(&rs),
            values: strings(&vs),
            is_percentages: false,
            token_address: None,
        };
        assert_eq!(validate_disperse_native(&p), Err(ValidationError::LengthMismatch));
        assert_eq!(validate_disperse_token(&p), Err(ValidationError::LengthMismatch));
    }
}

#[test]
fn empty_recipient_list_is_rejected() {
    let p = disperse(&[], &[], None);
    assert_eq!(validate_disperse_native(&p), Err(ValidationError::EmptyRecipientList));
    assert_eq!(validate_disperse_token(&p), Err(ValidationError::EmptyRecipientList));
}

#[test]
fn bad_elements_are_reported_not_panicked() {
    let p = disperse(&[ADDR_A, "oops"], &["1", "2"], None);
    assert_eq!(validate_disperse_native(&p), Err(ValidationError::InvalidAddress));
    let p = disperse(&[ADDR_A, ADDR_B], &["1", "two"], None);
    assert_eq!(validate_disperse_native(&p), Err(ValidationError::InvalidAmount));
}

#[test]
fn disperse_native_sums_attached_value() {
    let p = disperse(&[ADDR_A, ADDR_B, ADDR_A], &["1", "2", "3"], None);
    let inv = prepare_disperse_native(&p).unwrap();
    assert_eq!(inv.method_name(), "disperseETH");
    assert_eq!(inv.attached_value(), amt("6"));
    assert_eq!(inv.attached_value().to_decimal_string(), "6");
    match inv {
        ContractInvocation::DisperseEth { recipients, values, is_percentage, attached_value } => {
            assert_eq!(recipients.len(), 3);
            assert_eq!(recipients[0], Address::parse(ADDR_A).unwrap());
            assert_eq!(values, vec![amt("1"), amt("2"), amt("3")]);
            assert!(!is_percentage);
            assert_eq!(attached_value, amt("6"));
        },
        other => panic!("wrong invocation: {:?}", other),
    }
}

#[test]
fn disperse_native_keeps_the_percentage_flag_and_ignores_the_token() {
    let p = DispersePayload {
        recipients: strings(&[ADDR_A]),
        values: strings(&["40"]),
        is_percentages: true,
        // Present but irrelevant for the native operation.
        token_address: Some(TOKEN.to_string()),
    };
    match prepare_disperse_native(&p).unwrap() {
        ContractInvocation::DisperseEth { is_percentage, attached_value, .. } => {
            assert!(is_percentage);
            assert_eq!(attached_value, amt("40"));
        },
        other => panic!("wrong invocation: {:?}", other),
    }
}

#[test]
fn disperse_native_sum_overflow_is_reported() {
    // Each value is below the word size; their sum is exactly 2^256.
    let p = disperse(&[ADDR_A, ADDR_B], &[HALF_WORD, HALF_WORD], None);
    assert_eq!(prepare_disperse_native(&p), Err(ValidationError::AmountOverflow));
    // The same two amounts through the plain summing entry point.
    let vals = vec![amt(HALF_WORD), amt(HALF_WORD)];
    assert_eq!(sum_amounts(&vals), Err(ValidationError::AmountOverflow));
}

#[test]
fn disperse_token_requires_the_token_address() {
    let p = disperse(&[ADDR_A], &["5"], None);
    assert_eq!(validate_disperse_token(&p), Err(ValidationError::MissingTokenAddress));
    let p = disperse(&[ADDR_A], &["5"], Some("0xnope"));
    assert_eq!(validate_disperse_token(&p), Err(ValidationError::InvalidAddress));
}

#[test]
fn disperse_token_attaches_nothing() {
    let p = disperse(&[ADDR_A], &["5"], Some(TOKEN));
    let inv = prepare_disperse_token(&p).unwrap();
    assert_eq!(inv.method_name(), "disperseERC20");
    assert_eq!(inv.attached_value(), Amount::zero());
    match inv {
        ContractInvocation::DisperseErc20 { token, recipients, values, is_percentage } => {
            assert_eq!(token, Address::parse(TOKEN).unwrap());
            assert_eq!(recipients, vec![Address::parse(ADDR_A).unwrap()]);
            assert_eq!(values, vec![amt("5")]);
            assert!(!is_percentage);
        },
        other => panic!("wrong invocation: {:?}", other),
    }
}

#[test]
fn commit_native_attaches_the_amount_and_ignores_the_token() {
    let p = CommitPayload {
        token_type: "eth".to_string(),
        token_address: Some(TOKEN.to_string()),
        amount: "100".to_string(),
    };
    let inv = prepare_commit(&p).unwrap();
    assert_eq!(inv.method_name(), "commit");
    assert_eq!(inv.attached_value(), amt("100"));
    match inv {
        ContractInvocation::Commit { kind_code, token, amount, attached_value } => {
            assert_eq!(kind_code, 0);
            assert_eq!(token, Address::zero());
            assert_eq!(amount, amt("100"));
            assert_eq!(attached_value, amt("100"));
        },
        other => panic!("wrong invocation: {:?}", other),
    }
}

#[test]
fn commit_fungible_needs_a_token_and_attaches_zero() {
    let missing = CommitPayload {
        token_type: "erc20".to_string(),
        token_address: None,
        amount: "100".to_string(),
    };
    assert_eq!(prepare_commit(&missing), Err(ValidationError::MissingTokenAddress));

    let p = CommitPayload {
        token_type: "erc20".to_string(),
        token_address: Some(TOKEN.to_string()),
        amount: "100".to_string(),
    };
    let inv = prepare_commit(&p).unwrap();
    assert_eq!(inv.attached_value(), Amount::zero());
    match inv {
        ContractInvocation::Commit { kind_code, token, amount, attached_value } => {
            assert_eq!(kind_code, 1);
            assert_eq!(token, Address::parse(TOKEN).unwrap());
            assert_eq!(amount, amt("100"));
            assert_eq!(attached_value, Amount::zero());
        },
        other => panic!("wrong invocation: {:?}", other),
    }
}

#[test]
fn commit_rejects_bad_kind_and_bad_amount() {
    let p = CommitPayload {
        token_type: "BTC".to_string(),
        token_address: None,
        amount: "100".to_string(),
    };
    assert_eq!(prepare_commit(&p), Err(ValidationError::UnknownTokenKind));
    let p = CommitPayload {
        token_type: "eth".to_string(),
        token_address: None,
        amount: "ten".to_string(),
    };
    assert_eq!(prepare_commit(&p), Err(ValidationError::InvalidAmount));
}

#[test]
fn collect_requires_a_token_address_even_for_native() {
    let p = CollectPayload {
        token_type: "eth".to_string(),
        token_address: None,
        payers: strings(&[ADDR_A]),
    };
    assert_eq!(validate_collect(&p), Err(ValidationError::MissingTokenAddress));
}

#[test]
fn collect_rejects_an_empty_payer_list() {
    let p = CollectPayload {
        token_type: "eth".to_string(),
        token_address: Some(TOKEN.to_string()),
        payers: vec![],
    };
    assert_eq!(validate_collect(&p), Err(ValidationError::EmptyRecipientList));
}

#[test]
fn collect_maps_to_the_collect_method() {
    let p = CollectPayload {
        token_type: "erc20".to_string(),
        token_address: Some(TOKEN.to_string()),
        payers: strings(&[ADDR_A, ADDR_B]),
    };
    let inv = prepare_collect(&p).unwrap();
    assert_eq!(inv.method_name(), "collect");
    assert_eq!(inv.attached_value(), Amount::zero());
    match inv {
        ContractInvocation::Collect { kind_code, token, payers } => {
            assert_eq!(kind_code, 1);
            assert_eq!(token, Address::parse(TOKEN).unwrap());
            assert_eq!(
                payers,
                vec![Address::parse(ADDR_A).unwrap(), Address::parse(ADDR_B).unwrap()]
            );
        },
        other => panic!("wrong invocation: {:?}", other),
    }
}

#[test]
fn dispatch_keeps_the_descriptor_fields() {
    let d = CallDescriptor::Commit {
        kind: TokenKind::Native,
        token: None,
        amount: amt("7"),
    };
    match dispatch(d).unwrap() {
        ContractInvocation::Commit { kind_code, token, amount, attached_value } => {
            assert_eq!(kind_code, 0);
            assert_eq!(token, Address::zero());
            assert_eq!(amount, amt("7"));
            assert_eq!(attached_value, amt("7"));
        },
        other => panic!("wrong invocation: {:?}", other),
    }
}
