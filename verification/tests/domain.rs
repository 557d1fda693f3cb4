//! Tests of the domain model: amounts, addresses, token kinds.

use disperse_collect::address::Address;
use disperse_collect::amount::Amount;
use disperse_collect::errors::ValidationError;
use disperse_collect::token::TokenKind;

fn amt(s: &str) -> Amount {
    Amount::parse(s).unwrap()
}

const MAX_WORD: &str =
    "115792089237316195423570985008687907853269984665640564039457584007913129639935";
const ONE_PAST_MAX: &str =
    "115792089237316195423570985008687907853269984665640564039457584007913129639936";

#[test]
fn amount_parses_small_decimals() {
    assert_eq!(amt("0"), Amount::zero());
    assert_eq!(amt("6"), amt("6"));
    assert_ne!(amt("6"), amt("7"));
    assert_eq!(amt("00123"), amt("123"));
}

#[test]
fn amount_parse_round_trips_through_addition() {
    // 1 + 2 + 3 parses and sums to the same value as "6".
    let sum = amt("1").checked_add(&amt("2")).unwrap().checked_add(&amt("3")).unwrap();
    assert_eq!(sum, amt("6"));
    let big = amt("340282366920938463463374607431768211456"); // 2^128
    let twice = big.checked_add(&big).unwrap();
    assert_eq!(twice, amt("680564733841876926926749214863536422912"));
}

#[test]
fn amount_accepts_the_largest_word() {
    let max = amt(MAX_WORD);
    assert_eq!(max.checked_add(&Amount::zero()).unwrap(), max);
}

#[test]
fn amount_rejects_values_past_the_word_size() {
    assert_eq!(Amount::parse(ONE_PAST_MAX), Err(ValidationError::AmountOverflow));
    // One more than the maximum, via addition instead of parsing.
    assert_eq!(amt(MAX_WORD).checked_add(&amt("1")), None);
}

#[test]
fn amount_rejects_non_digits() {
    assert_eq!(Amount::parse(""), Err(ValidationError::InvalidAmount));
    assert_eq!(Amount::parse(" 1"), Err(ValidationError::InvalidAmount));
    assert_eq!(Amount::parse("1 "), Err(ValidationError::InvalidAmount));
    assert_eq!(Amount::parse("+5"), Err(ValidationError::InvalidAmount));
    assert_eq!(Amount::parse("-5"), Err(ValidationError::InvalidAmount));
    assert_eq!(Amount::parse("12a3"), Err(ValidationError::InvalidAmount));
    assert_eq!(Amount::parse("0x10"), Err(ValidationError::InvalidAmount));
    // A non-digit outranks overflow: the string is invalid, not too large.
    let mut s = String::from(ONE_PAST_MAX);
    s.push('!');
    assert_eq!(Amount::parse(&s), Err(ValidationError::InvalidAmount));
}

#[test]
fn amount_renders_its_canonical_numeral() {
    assert_eq!(Amount::zero().to_decimal_string(), "0");
    assert_eq!(amt("6").to_decimal_string(), "6");
    assert_eq!(amt("1234567890").to_decimal_string(), "1234567890");
    // Leading zeros of the input do not survive rendering.
    assert_eq!(amt("00123").to_decimal_string(), "123");
    assert_eq!(amt(MAX_WORD).to_decimal_string(), MAX_WORD);
}

#[test]
fn amount_rendering_round_trips_through_parse() {
    for s in ["0", "1", "9", "10", "255", "1000000000000000000", MAX_WORD] {
        let a = amt(s);
        assert_eq!(Amount::parse(&a.to_decimal_string()), Ok(a));
    }
}

#[test]
fn amount_division_by_ten_peels_one_digit() {
    let (q, r) = amt("1234").divmod10();
    assert_eq!(q, amt("123"));
    assert_eq!(r, 4);
    let (q, r) = amt("7").divmod10();
    assert_eq!(q, Amount::zero());
    assert_eq!(r, 7);
    assert!(Amount::zero().is_zero());
    assert!(!amt("1").is_zero());
}

#[test]
fn address_parses_the_canonical_form() {
    let a = Address::parse("0x40B96ce6ebCe3e2327aB81D61C51492b2eA3258d").unwrap();
    let bytes = a.to_bytes();
    assert_eq!(bytes.len(), 20);
    assert_eq!(bytes[0], 0x40);
    assert_eq!(bytes[1], 0xB9);
    assert_eq!(bytes[19], 0x8d);
}

#[test]
fn address_hex_is_case_insensitive() {
    let upper = Address::parse("0xAB96CE6EBCE3E2327AB81D61C51492B2EA3258DD").unwrap();
    let lower = Address::parse("0xab96ce6ebce3e2327ab81d61c51492b2ea3258dd").unwrap();
    assert_eq!(upper, lower);
}

#[test]
fn address_rejects_everything_else() {
    // Missing prefix.
    assert_eq!(
        Address::parse("40B96ce6ebCe3e2327aB81D61C51492b2eA3258d00"),
        Err(ValidationError::InvalidAddress)
    );
    // Too short, too long, empty.
    assert_eq!(
        Address::parse("0x40B96ce6ebCe3e2327aB81D61C51492b2eA3258"),
        Err(ValidationError::InvalidAddress)
    );
    assert_eq!(
        Address::parse("0x40B96ce6ebCe3e2327aB81D61C51492b2eA3258d0"),
        Err(ValidationError::InvalidAddress)
    );
    assert_eq!(Address::parse(""), Err(ValidationError::InvalidAddress));
    // A non-hex character.
    assert_eq!(
        Address::parse("0x40B96ce6ebCe3e2327aB81D61C51492b2eA3258g"),
        Err(ValidationError::InvalidAddress)
    );
}

#[test]
fn address_renders_its_canonical_encoding() {
    let a = Address::parse("0x40B96ce6ebCe3e2327aB81D61C51492b2eA3258d").unwrap();
    // Rendering is canonical lowercase and parses back to the same address.
    assert_eq!(a.to_hex_string(), "0x40b96ce6ebce3e2327ab81d61c51492b2ea3258d");
    assert_eq!(Address::parse(&a.to_hex_string()), Ok(a.clone()));
    assert_eq!(
        Address::zero().to_hex_string(),
        "0x0000000000000000000000000000000000000000"
    );
}

#[test]
fn address_zero_is_twenty_zero_bytes() {
    let z = Address::zero();
    assert_eq!(z.to_bytes(), vec![0u8; 20]);
    assert_eq!(z, Address::parse("0x0000000000000000000000000000000000000000").unwrap());
}

#[test]
fn token_kind_parse_is_case_insensitive() {
    assert_eq!(TokenKind::parse("ETH"), Ok(TokenKind::Native));
    assert_eq!(TokenKind::parse("eth"), Ok(TokenKind::Native));
    assert_eq!(TokenKind::parse("Eth"), Ok(TokenKind::Native));
    assert_eq!(TokenKind::parse("erc20"), Ok(TokenKind::Fungible));
    assert_eq!(TokenKind::parse("ERC20"), Ok(TokenKind::Fungible));
    assert_eq!(TokenKind::parse("Erc20"), Ok(TokenKind::Fungible));
}

#[test]
fn token_kind_rejects_everything_else() {
    assert_eq!(TokenKind::parse("BTC"), Err(ValidationError::UnknownTokenKind));
    assert_eq!(TokenKind::parse(""), Err(ValidationError::UnknownTokenKind));
    assert_eq!(TokenKind::parse("eth "), Err(ValidationError::UnknownTokenKind));
    assert_eq!(TokenKind::parse("erc2O"), Err(ValidationError::UnknownTokenKind));
}

#[test]
fn token_kind_codes_match_the_abi() {
    assert_eq!(TokenKind::Native.code(), 0);
    assert_eq!(TokenKind::Fungible.code(), 1);
}
