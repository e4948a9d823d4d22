//! The frequency parser: the grammar's accepted shapes, its rejections,
//! and case-insensitivity.

use medibot::Frequency;

#[test]
fn test_parse_frequency_every() {
    assert_eq!(Frequency::parse("every 6 hours"), Some(Frequency::new(6)));
}

#[test]
fn test_parse_frequency_every_day() {
    assert_eq!(Frequency::parse("every day"), Some(Frequency::new(24)));
}

#[test]
fn test_parse_frequency_times() {
    assert_eq!(Frequency::parse("3 times a day"), Some(Frequency::new(8)));
}

#[test]
fn test_parse_frequency_malformed() {
    assert_eq!(Frequency::parse("lol no way"), None);
}

#[test]
fn parse_every_hour_literal() {
    assert_eq!(Frequency::parse("every hour"), Some(Frequency::new(1)));
}

#[test]
fn parse_h_suffix() {
    assert_eq!(Frequency::parse("every 5h"), Some(Frequency::new(5)));
}

#[test]
fn parse_five_times_a_day_floors() {
    assert_eq!(Frequency::parse("5 times a day"), Some(Frequency::new(4)));
}

#[test]
fn parse_day_unit() {
    assert_eq!(Frequency::parse("every 2 days"), Some(Frequency::new(48)));
}

#[test]
fn parse_single_hour_unit() {
    assert_eq!(Frequency::parse("every 12 h"), Some(Frequency::new(12)));
}

#[test]
fn parse_is_case_insensitive() {
    assert_eq!(
        Frequency::parse("EVERY 6 HOURS"),
        Frequency::parse("every 6 hours")
    );
    assert_eq!(Frequency::parse("Every Day"), Some(Frequency::new(24)));
    assert_eq!(Frequency::parse("3 Times A Day"), Some(Frequency::new(8)));
}

#[test]
fn parse_splits_on_any_whitespace() {
    assert_eq!(Frequency::parse("every  6   hours"), Some(Frequency::new(6)));
    assert_eq!(Frequency::parse("  every day "), Some(Frequency::new(24)));
    assert_eq!(Frequency::parse("3\ttimes a day"), Some(Frequency::new(8)));
}

#[test]
fn parse_rejects_zero() {
    assert_eq!(Frequency::parse("every 0 hours"), None);
    assert_eq!(Frequency::parse("0 times a day"), None);
}

#[test]
fn parse_rejects_sub_hour_cadence() {
    // 26 doses a day would floor to a zero-hour interval.
    assert_eq!(Frequency::parse("26 times a day"), None);
}

#[test]
fn parse_rejects_odd_shapes() {
    assert_eq!(Frequency::parse("every 6"), None);
    assert_eq!(Frequency::parse("every h"), None);
    assert_eq!(Frequency::parse(""), None);
    assert_eq!(Frequency::parse("6 hours"), None);
    assert_eq!(Frequency::parse("every six hours"), None);
    assert_eq!(Frequency::parse("3 times a week"), None);
}

#[test]
fn parse_rejects_overflowing_numbers() {
    assert_eq!(Frequency::parse("every 99999999999999999999 hours"), None);
    assert_eq!(Frequency::parse("every 9223372036854775807 days"), None);
}

#[test]
fn get_hours_reads_back() {
    assert_eq!(Frequency::new(7).get_hours(), 7);
}
