use basic_fuzzer::number_range::{parse_usize, NumberRange, ParseError};

#[test]
fn new_accepts_ordered_endpoints() {
    let r = NumberRange::new(3, 7).unwrap();
    assert_eq!(r.start(), 3);
    assert_eq!(r.end(), 7);
}

#[test]
fn new_accepts_zero_width() {
    let r = NumberRange::new(5, 5).unwrap();
    assert_eq!(r.start(), 5);
    assert_eq!(r.end(), 5);
}

#[test]
fn new_rejects_backwards() {
    assert!(NumberRange::new(7, 3).is_none());
    assert!(NumberRange::new(1, 0).is_none());
}

#[test]
fn default_is_zero_width_at_zero() {
    let r = NumberRange::default();
    assert_eq!(r.start(), 0);
    assert_eq!(r.end(), 0);
}

#[test]
fn single_makes_zero_width() {
    let r = NumberRange::single(9);
    assert_eq!(r.start(), 9);
    assert_eq!(r.end(), 9);
}

#[test]
fn parse_single_value() {
    let r = NumberRange::from_str("5").unwrap();
    assert_eq!(r.start(), 5);
    assert_eq!(r.end(), 5);
}

#[test]
fn parse_inclusive_pair() {
    let r = NumberRange::from_str("3..=7").unwrap();
    assert_eq!(r.start(), 3);
    assert_eq!(r.end(), 7);
}

#[test]
fn parse_backwards_pair_fails() {
    let e = NumberRange::from_str("7..=3").unwrap_err();
    assert_eq!(e, ParseError::BackwardsRange);
    assert_eq!(e.message(), "Cannot construct a backwards range");
}

#[test]
fn parse_garbage_fails() {
    let e = NumberRange::from_str("abc").unwrap_err();
    assert_eq!(e, ParseError::InvalidValue { text: "abc".to_string() });
}

#[test]
fn parse_bad_right_endpoint_fails_with_that_text() {
    let e = NumberRange::from_str("3..=x").unwrap_err();
    assert_eq!(e, ParseError::InvalidValue { text: "x".to_string() });
}

#[test]
fn parse_bad_left_endpoint_fails_with_that_text() {
    let e = NumberRange::from_str("y..=4").unwrap_err();
    assert_eq!(e, ParseError::InvalidValue { text: "y".to_string() });
}

#[test]
fn parse_second_separator_belongs_to_right_endpoint() {
    let e = NumberRange::from_str("1..=2..=3").unwrap_err();
    assert_eq!(e, ParseError::InvalidValue { text: "2..=3".to_string() });
}

#[test]
fn parse_usize_plain_and_signed() {
    assert_eq!(parse_usize("42"), Some(42));
    assert_eq!(parse_usize("+7"), Some(7));
    assert_eq!(parse_usize("0"), Some(0));
    assert_eq!(parse_usize(""), None);
    assert_eq!(parse_usize("+"), None);
    assert_eq!(parse_usize("-1"), None);
    assert_eq!(parse_usize("1 2"), None);
}

#[test]
fn parse_usize_bounds() {
    assert_eq!(parse_usize("18446744073709551615"), Some(usize::MAX));
    assert_eq!(parse_usize("18446744073709551616"), None);
    assert_eq!(parse_usize("99999999999999999999999"), None);
}

#[test]
fn text_of_zero_width_range_is_the_value() {
    let r = NumberRange::single(5);
    assert_eq!(r.to_text(), "5");
}

#[test]
fn text_of_wide_range_uses_separator() {
    let r = NumberRange::new(3, 17).unwrap();
    assert_eq!(r.to_text(), "3..=17");
}

#[test]
fn text_round_trips_through_parse() {
    for (a, b) in [(0, 0), (1, 5), (12, 340), (7, 7)] {
        let r = NumberRange::new(a, b).unwrap();
        let back = NumberRange::from_str(&r.to_text()).unwrap();
        assert_eq!(back.start(), a);
        assert_eq!(back.end(), b);
    }
}

#[test]
fn invalid_value_message_names_the_substring() {
    let e = NumberRange::from_str("abc").unwrap_err();
    assert_eq!(e.message(), "invalid number: abc");
    let e = NumberRange::from_str("3..=x").unwrap_err();
    assert_eq!(e.message(), "invalid number: x");
}
