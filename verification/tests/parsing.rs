use oxd2::mask::{parse_mask, apply_mask, MaskError};
use oxd2::numbers::{parse_num, NumError};

#[test]
fn decimal_numbers() {
    assert_eq!(parse_num("0"), Ok(0));
    assert_eq!(parse_num("42"), Ok(42));
    assert_eq!(parse_num("007"), Ok(7));
    assert_eq!(parse_num("+7"), Ok(7));
}

#[test]
fn hexadecimal_numbers() {
    assert_eq!(parse_num("0x0"), Ok(0));
    assert_eq!(parse_num("0x1f"), Ok(31));
    assert_eq!(parse_num("0xFF"), Ok(255));
    assert_eq!(parse_num("0xdeadBEEF"), Ok(0xdead_beef));
}

#[test]
fn hex_prefix_is_lowercase_only() {
    // "0X" is not the hexadecimal prefix, and the sign goes after "0x"
    assert_eq!(parse_num("0X1F"), Err(NumError::NotANumber));
    assert_eq!(parse_num("0x+f"), Ok(15));
}

#[test]
fn malformed_numbers() {
    assert_eq!(parse_num(""), Err(NumError::NotANumber));
    assert_eq!(parse_num("12a"), Err(NumError::NotANumber));
    assert_eq!(parse_num("-3"), Err(NumError::NotANumber));
    assert_eq!(parse_num("+"), Err(NumError::NotANumber));
    assert_eq!(parse_num("0x"), Err(NumError::NotANumber));
    assert_eq!(parse_num("0xg1"), Err(NumError::NotANumber));
    assert_eq!(parse_num(" 1"), Err(NumError::NotANumber));
}

#[test]
fn numbers_at_the_limit() {
    assert_eq!(parse_num("18446744073709551615"), Ok(usize::MAX));
    assert_eq!(parse_num("18446744073709551616"), Err(NumError::TooLarge));
    assert_eq!(parse_num("99999999999999999999999"), Err(NumError::TooLarge));
    assert_eq!(parse_num("0xffffffffffffffff"), Ok(usize::MAX));
    assert_eq!(parse_num("0x10000000000000000"), Err(NumError::TooLarge));
}

#[test]
fn mask_single_and_range() {
    let m = parse_mask("0,2-4", true).unwrap();
    assert!(m.enabled);
    assert_eq!(m.toggles, vec![(0, true), (2, true), (3, true), (4, true)]);
}

#[test]
fn mask_round_trip_channel_states() {
    // "mute 0 and 2-4": those channels end up muted, all others unmuted
    let m = parse_mask("0,2-4", true).unwrap();
    let states = apply_mask(&m, 6);
    assert_eq!(states, vec![true, false, true, true, true, false]);
}

#[test]
fn mask_token_order_is_irrelevant() {
    let a = parse_mask("0,2-4", true).unwrap();
    let b = parse_mask("2-4,0", true).unwrap();
    assert_eq!(apply_mask(&a, 6), apply_mask(&b, 6));
    let c = parse_mask("4,3,2,0", true).unwrap();
    assert_eq!(apply_mask(&a, 6), apply_mask(&c, 6));
}

#[test]
fn solo_inverts_the_rest() {
    // "solo channel 1": every other channel is muted
    let m = parse_mask("1", false).unwrap();
    let states = apply_mask(&m, 3);
    assert_eq!(states, vec![true, false, true]);
}

#[test]
fn mask_toggle_beyond_channel_count_is_ignored() {
    let m = parse_mask("9", true).unwrap();
    let states = apply_mask(&m, 2);
    assert_eq!(states, vec![false, false]);
}

#[test]
fn mask_single_range_only() {
    let m = parse_mask("3-5", false).unwrap();
    assert_eq!(m.toggles, vec![(3, false), (4, false), (5, false)]);
    let one = parse_mask("7-7", true).unwrap();
    assert_eq!(one.toggles, vec![(7, true)]);
}

#[test]
fn mask_errors() {
    assert_eq!(parse_mask("3-1", true).unwrap_err(), MaskError::ReversedRange);
    assert_eq!(parse_mask("1-2-3", true).unwrap_err(), MaskError::MalformedRange);
    assert_eq!(parse_mask("a", true).unwrap_err(), MaskError::NotANumber);
    assert_eq!(parse_mask("", true).unwrap_err(), MaskError::NotANumber);
    assert_eq!(parse_mask("1,,2", true).unwrap_err(), MaskError::NotANumber);
    assert_eq!(parse_mask("1,x", true).unwrap_err(), MaskError::NotANumber);
    assert_eq!(parse_mask("2-", true).unwrap_err(), MaskError::NotANumber);
    assert_eq!(
        parse_mask("99999999999999999999999", true).unwrap_err(),
        MaskError::TooLarge
    );
}
