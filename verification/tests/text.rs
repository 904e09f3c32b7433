//! Text and the clock.
use ffoie_chat::clock::{stamp_of, unix_millis};
use ffoie_chat::text::{
    eq_lowered, is_whitespace, parse_number, push_decimal, push_four_digits, starts_with_lowered,
    to_ascii_lower, trim, IntError,
};

#[test]
fn unix_millis_is_reasonable() {
    let ts = unix_millis();
    // 2020-01-01 in ms ≈ 1_577_836_800_000.
    // 2035-01-01 in ms ≈ 2_051_222_400_000.
    assert!(ts > 1_577_836_800_000, "timestamp too far in the past");
    assert!(ts < 2_051_222_400_000, "timestamp too far in the future");
}

#[test]
fn timestamps_are_cut_to_64_bits() {
    assert_eq!(stamp_of(None), 0);
    assert_eq!(stamp_of(Some(17)), 17);
    assert_eq!(stamp_of(Some(u64::MAX as u128)), u64::MAX);
    assert_eq!(stamp_of(Some(u64::MAX as u128 + 1)), u64::MAX);
}

#[test]
fn white_space_is_what_unicode_says() {
    for c in '\0'..=char::MAX {
        assert_eq!(is_whitespace(c), c.is_whitespace(), "{c:?}");
    }
}

#[test]
fn trimming_is_that_of_the_standard_library() {
    for s in ["", " ", " a", "a ", " a b ", "\u{85}\u{A0}é\u{2029}", "\u{200B}x", "\t\r\n"] {
        assert_eq!(trim(s), s.trim());
    }
}

#[test]
fn only_ascii_letters_are_lowered() {
    for c in '\0'..='\u{FFF}' {
        assert_eq!(to_ascii_lower(c), c.to_ascii_lowercase());
    }
    assert!(starts_with_lowered("/WhO is it", "/who"));
    assert!(!starts_with_lowered("/wh", "/who"));
    assert!(!starts_with_lowered("who", "/who"));
    assert!(eq_lowered("JsOn", "json"));
    assert!(!eq_lowered("É", "é"));
    assert!(!eq_lowered("json", "jso"));
}

#[test]
fn decimals() {
    for n in [0, 9, 10, 99, 100, 12345, u64::MAX] {
        let mut s = String::from("n=");
        push_decimal(&mut s, n);
        assert_eq!(s, format!("n={n}"));
    }
    for n in [0, 7, 42, 999, 9999] {
        let mut s = String::new();
        push_four_digits(&mut s, n);
        assert_eq!(s, format!("{n:04}"));
    }
}

#[test]
fn numbers_up_to_a_bound() {
    assert_eq!(parse_number("255", 255), Ok(255));
    assert_eq!(parse_number("256", 255), Err(IntError::PosOverflow));
    assert_eq!(parse_number("0", 0), Ok(0));
    assert_eq!(parse_number("5", 3), Err(IntError::PosOverflow));
    assert_eq!(parse_number("5x", 3), Err(IntError::PosOverflow));
    assert_eq!(parse_number("x5", 3), Err(IntError::InvalidDigit));
    assert_eq!(parse_number("", 3), Err(IntError::Empty));
}
