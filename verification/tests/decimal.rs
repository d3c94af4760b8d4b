use zee1::decimal::parse_u32;

#[test]
fn digits_are_read_in_base_ten() {
    assert_eq!(parse_u32("0"), Some(0));
    assert_eq!(parse_u32("7"), Some(7));
    assert_eq!(parse_u32("1920"), Some(1920));
    assert_eq!(parse_u32("00012"), Some(12));
}

#[test]
fn one_plus_sign_may_lead() {
    assert_eq!(parse_u32("+5"), Some(5));
    assert_eq!(parse_u32("++5"), None);
    assert_eq!(parse_u32("+"), None);
    assert_eq!(parse_u32("5+"), None);
}

#[test]
fn a_minus_sign_is_refused() {
    assert_eq!(parse_u32("-5"), None);
    assert_eq!(parse_u32("-0"), None);
}

#[test]
fn the_empty_text_is_no_number() {
    assert_eq!(parse_u32(""), None);
}

#[test]
fn anything_but_digits_is_refused() {
    assert_eq!(parse_u32("12a"), None);
    assert_eq!(parse_u32(" 12"), None);
    assert_eq!(parse_u32("12 "), None);
    assert_eq!(parse_u32("1_000"), None);
    assert_eq!(parse_u32("0x10"), None);
    assert_eq!(parse_u32("1.5"), None);
}

#[test]
fn digits_outside_ascii_are_refused() {
    assert_eq!(parse_u32("\u{0661}\u{0662}"), None);
    assert_eq!(parse_u32("1\u{e9}"), None);
    assert_eq!(parse_u32("\u{ff11}"), None);
}

#[test]
fn the_value_has_to_fit() {
    assert_eq!(parse_u32("4294967295"), Some(u32::MAX));
    assert_eq!(parse_u32("4294967296"), None);
    assert_eq!(parse_u32("99999999999999999999999999"), None);
    assert_eq!(parse_u32("0000000000004294967295"), Some(u32::MAX));
}

#[test]
fn the_reading_agrees_with_the_standard_one() {
    let samples = [
        "", "+", "-", "0", "+0", "-0", "42", "+42", "-42", "4294967295", "4294967296", "12a",
        "a12", " 1", "1 ", "007", "+007", "1e3", "\u{ff11}", "18446744073709551616",
    ];
    for sample in samples.iter() {
        assert_eq!(parse_u32(sample), sample.parse::<u32>().ok(), "{:?}", sample);
    }
}
