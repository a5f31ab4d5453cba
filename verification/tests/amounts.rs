use ledger_engine::amount::{parse_amount, push_decimal, render, truncate, TICKS_PER_STEP, TICKS_PER_UNIT};

#[test]
fn a_unit_is_ten_thousand_steps() {
    assert_eq!(TICKS_PER_UNIT, 100_000_000);
    assert_eq!(TICKS_PER_STEP, 10_000);
    assert_eq!(TICKS_PER_UNIT / TICKS_PER_STEP, 10_000);
}

#[test]
fn truncation_cuts_towards_zero() {
    assert_eq!(truncate(123_456_000), 123_450_000);
    assert_eq!(truncate(123_459_999), 123_450_000);
    assert_eq!(truncate(123_450_000), 123_450_000);
    assert_eq!(truncate(9_999), 0);
    assert_eq!(truncate(0), 0);
    assert_eq!(truncate(-9_999), 0);
    assert_eq!(truncate(-12_345), -10_000);
    assert_eq!(truncate(i64::MAX), 9_223_372_036_854_770_000);
    assert_eq!(truncate(i64::MIN), -9_223_372_036_854_770_000);
}

#[test]
fn decimal_text_is_read_as_ticks() {
    assert_eq!(parse_amount(b"5.0"), Some(500_000_000));
    assert_eq!(parse_amount(b"5"), Some(500_000_000));
    assert_eq!(parse_amount(b"5."), Some(500_000_000));
    assert_eq!(parse_amount(b".5"), Some(50_000_000));
    assert_eq!(parse_amount(b"0"), Some(0));
    assert_eq!(parse_amount(b"1.23456"), Some(123_456_000));
    assert_eq!(parse_amount(b"0.00000001"), Some(1));
    assert_eq!(parse_amount(b"000012.500"), Some(1_250_000_000));
    assert_eq!(parse_amount(b"10.0001"), Some(1_000_010_000));
}

#[test]
fn signs_are_read() {
    assert_eq!(parse_amount(b"-2.5"), Some(-250_000_000));
    assert_eq!(parse_amount(b"+2.5"), Some(250_000_000));
    assert_eq!(parse_amount(b"-0"), Some(0));
    assert_eq!(parse_amount(b"-.5"), Some(-50_000_000));
    assert_eq!(parse_amount(b"-"), None);
    assert_eq!(parse_amount(b"+"), None);
    assert_eq!(parse_amount(b"--1"), None);
    assert_eq!(parse_amount(b"+-1"), None);
    assert_eq!(parse_amount(b"1-"), None);
}

#[test]
fn digits_beyond_the_eighth_place_are_dropped() {
    assert_eq!(parse_amount(b"0.123456789"), Some(12_345_678));
    assert_eq!(parse_amount(b"0.999999999999"), Some(99_999_999));
    assert_eq!(parse_amount(b"-0.000000009"), Some(0));
    assert_eq!(parse_amount(b"1.000000000000000000000000000000000000001"), Some(100_000_000));
}

#[test]
fn other_text_is_no_amount() {
    assert_eq!(parse_amount(b""), None);
    assert_eq!(parse_amount(b"."), None);
    assert_eq!(parse_amount(b"-."), None);
    assert_eq!(parse_amount(b"1.2.3"), None);
    assert_eq!(parse_amount(b"1..2"), None);
    assert_eq!(parse_amount(b"1e3"), None);
    assert_eq!(parse_amount(b" 1"), None);
    assert_eq!(parse_amount(b"1 "), None);
    assert_eq!(parse_amount(b"1,5"), None);
    assert_eq!(parse_amount(b"abc"), None);
    assert_eq!(parse_amount(b"1.5x"), None);
    assert_eq!(parse_amount(b"x1.5"), None);
    assert_eq!(parse_amount(b"inf"), None);
    assert_eq!(parse_amount(b"NaN"), None);
    assert_eq!(parse_amount("1.\u{0665}".as_bytes()), None);
}

#[test]
fn amounts_beyond_the_range_are_no_amount() {
    assert_eq!(parse_amount(b"92233720368.54775807"), Some(i64::MAX));
    assert_eq!(parse_amount(b"92233720368.54775808"), None);
    assert_eq!(parse_amount(b"92233720369"), None);
    assert_eq!(parse_amount(b"-92233720368.54775808"), Some(i64::MIN));
    assert_eq!(parse_amount(b"-92233720368.54775809"), None);
    assert_eq!(parse_amount(b"-92233720368.547758089"), Some(i64::MIN));
    assert_eq!(parse_amount(b"99999999999999999999999999999999999999999999"), None);
    assert_eq!(parse_amount(b"-99999999999999999999999999999999999999999999.5"), None);
    assert_eq!(parse_amount(b"00000000000000000000000000000000000000000001"), Some(100_000_000));
    assert_eq!(parse_amount(b"184467440737.09551616"), None);
}

#[test]
fn balances_are_written_with_four_places() {
    assert_eq!(render(0), "0.0000");
    assert_eq!(render(200_000_000), "2.0000");
    assert_eq!(render(123_450_000), "1.2345");
    assert_eq!(render(10_000), "0.0001");
    assert_eq!(render(1_000_010_000), "10.0001");
    assert_eq!(render(123_456_789_012_340_000), "1234567890.1234");
    assert_eq!(render(-100_020_000), "-1.0002");
    assert_eq!(render(-50_000_000), "-0.5000");
}

#[test]
fn balances_are_rounded_to_the_nearest_step() {
    assert_eq!(render(123_456_000), "1.2346");
    assert_eq!(render(123_454_999), "1.2345");
    assert_eq!(render(123_455_001), "1.2346");
    assert_eq!(render(6_000), "0.0001");
    assert_eq!(render(4_999), "0.0000");
    assert_eq!(render(99_999_999), "1.0000");
    assert_eq!(render(999_999_996_000), "10000.0000");
    assert_eq!(render(-123_456_000), "-1.2346");
    assert_eq!(render(-1), "-0.0000");
}

#[test]
fn halves_are_rounded_to_the_even_step() {
    assert_eq!(render(3_125_000), "0.0312");
    assert_eq!(render(3_135_000), "0.0314");
    assert_eq!(render(5_000), "0.0000");
    assert_eq!(render(15_000), "0.0002");
    assert_eq!(render(-3_125_000), "-0.0312");
    assert_eq!(render(99_995_000), "1.0000");
    assert_eq!(render(99_985_000), "0.9998");
}

#[test]
fn extreme_balances_are_written() {
    assert_eq!(render(i128::MAX), "1701411834604692317316873037158.8411");
    assert_eq!(render(i128::MIN), "-1701411834604692317316873037158.8411");
    assert_eq!(render(i64::MAX as i128), "92233720368.5478");
}

#[test]
fn numbers_are_written_in_decimal() {
    let mut text = String::from("n=");
    push_decimal(&mut text, 0);
    text.push(' ');
    push_decimal(&mut text, 7);
    text.push(' ');
    push_decimal(&mut text, 65_535);
    text.push(' ');
    push_decimal(&mut text, 1_000_000);
    text.push(' ');
    push_decimal(&mut text, u128::MAX);
    assert_eq!(text, "n=0 7 65535 1000000 340282366920938463463374607431768211455");
}
