use epoch_core::errors::TemporalError;
use epoch_core::hduration::flush;
use epoch_core::hduration::HDuration;

#[test]
fn from_strt() {
    let input = "3w5d2h";
    let expected = HDuration::new(2253600, 0, false, input);
    assert_eq!(HDuration::from_str(input), Ok(expected))
}

#[test]
fn from_str_one_second() {
    assert_eq!(HDuration::from_str("1s"), Ok(HDuration::new(1, 0, false, "1s")));
}

#[test]
fn from_str_zero_seconds() {
    assert_eq!(HDuration::from_str("0s"), Ok(HDuration::new(0, 0, false, "0s")));
}

#[test]
fn from_str_one_nano() {
    assert_eq!(HDuration::from_str("1ns"), Ok(HDuration::new(0, 1, false, "1ns")));
}

#[test]
fn from_str_second_then_nanos() {
    assert_eq!(
        HDuration::from_str("1s 10ns"),
        Ok(HDuration::new(1, 10, false, "1s 10ns"))
    );
}

#[test]
fn from_str_nanos_then_second() {
    assert_eq!(
        HDuration::from_str("10ns 1s"),
        Ok(HDuration::new(1, 10, false, "10ns 1s"))
    );
}

#[test]
fn from_str_negative_nano() {
    assert_eq!(HDuration::from_str("-1ns"), Ok(HDuration::new(0, 1, true, "-1ns")));
}

#[test]
fn from_str_negative_mixed() {
    assert_eq!(
        HDuration::from_str("-1s 1ns"),
        Ok(HDuration::new(1, 1, true, "-1s 1ns"))
    );
}

#[test]
fn from_str_minutes() {
    assert_eq!(HDuration::from_str("5m"), Ok(HDuration::new(300, 0, false, "5m")));
}

#[test]
fn from_str_hours() {
    assert_eq!(HDuration::from_str("5h"), Ok(HDuration::new(18000, 0, false, "5h")));
}

#[test]
fn from_str_days() {
    assert_eq!(HDuration::from_str("5d"), Ok(HDuration::new(432000, 0, false, "5d")));
}

#[test]
fn from_str_weeks() {
    assert_eq!(HDuration::from_str("5w"), Ok(HDuration::new(3024000, 0, false, "5w")));
}

#[test]
fn from_str_all_units_spaced() {
    let input = "3w 5d 2h 10m 7s 1ns";
    assert_eq!(
        HDuration::from_str(input),
        Ok(HDuration::new(2254207, 1, false, input))
    );
}

#[test]
fn from_str_concatenated() {
    assert_eq!(
        HDuration::from_str("3w5d2h"),
        Ok(HDuration::new(2253600, 0, false, "3w5d2h"))
    );
}

#[test]
fn from_str_misplaced_sign() {
    assert_eq!(HDuration::from_str("1s -1ns"), Err(TemporalError::MisplacedSign));
}

#[test]
fn from_str_unit_before_number() {
    assert!(HDuration::from_str("s1").is_err());
}

#[test]
fn from_str_space_inside_token() {
    assert!(HDuration::from_str("1 s").is_err());
}

#[test]
fn from_str_unit_space_number() {
    assert!(HDuration::from_str("s 1").is_err());
}

#[test]
fn from_str_leading_space() {
    assert!(HDuration::from_str(" 1s").is_err());
}

#[test]
fn from_str_millis_split() {
    assert_eq!(
        HDuration::from_str("1500ms"),
        Ok(HDuration::new(1, 500_000_000, false, "1500ms"))
    );
}

#[test]
fn from_str_whole_millis() {
    assert_eq!(
        HDuration::from_str("1000ms"),
        Ok(HDuration::new(1, 0, false, "1000ms"))
    );
}

#[test]
fn from_str_nanos_carry() {
    assert_eq!(
        HDuration::from_str("1000000001ns"),
        Ok(HDuration::new(1, 1, false, "1000000001ns"))
    );
}

#[test]
fn from_str_missing_unit() {
    assert_eq!(HDuration::from_str("5"), Err(TemporalError::MissingUnit));
}

#[test]
fn from_str_empty_input() {
    assert_eq!(HDuration::from_str(""), Err(TemporalError::MissingUnit));
}

#[test]
fn from_str_unknown_unit() {
    assert_eq!(
        HDuration::from_str("5sw"),
        Err(TemporalError::UnknownUnit { text: String::from("sw") })
    );
}

#[test]
fn from_str_invalid_character() {
    assert_eq!(
        HDuration::from_str("5x"),
        Err(TemporalError::InvalidCharacter { ch: 'x', pos: 1 })
    );
}

#[test]
fn from_str_number_overflow() {
    assert_eq!(
        HDuration::from_str("99999999999999999999s"),
        Err(TemporalError::DurationTooLarge)
    );
}

#[test]
fn from_str_weeks_overflow() {
    // u64::MAX / 604800 is well below this count of weeks.
    assert_eq!(
        HDuration::from_str("99999999999999w"),
        Err(TemporalError::DurationTooLarge)
    );
}

#[test]
fn from_str_keeps_readable_text() {
    let d = HDuration::from_str("2h 5m").unwrap();
    assert_eq!(d.text(), "2h 5m");
}

#[test]
fn flush_resolves_short_codes() {
    assert_eq!(flush(2, "h"), Ok((7200, 0)));
    assert_eq!(flush(1500, "ms"), Ok((1, 500_000_000)));
    assert_eq!(flush(1000000001, "ns"), Ok((1, 1)));
}

#[test]
fn flush_rejects_empty_unit() {
    assert_eq!(flush(5, ""), Err(TemporalError::MissingUnit));
}

#[test]
fn new_carries_nanos_into_seconds() {
    let d = HDuration::new(1, 2_500_000_000, false, "x");
    assert_eq!(d.secs, 3);
    assert_eq!(d.nanos, 500_000_000);
}

#[test]
fn from_str_bare_unit_counts_zero() {
    assert_eq!(HDuration::from_str("m"), Ok(HDuration::new(0, 0, false, "m")));
}

#[test]
fn from_str_double_space_is_error() {
    assert_eq!(HDuration::from_str("1s  2s"), Err(TemporalError::MissingUnit));
}

#[test]
fn from_str_double_sign_is_error() {
    assert_eq!(HDuration::from_str("--1s"), Err(TemporalError::MisplacedSign));
}

#[test]
fn from_str_trailing_digits_need_unit() {
    assert_eq!(HDuration::from_str("1s5"), Err(TemporalError::MissingUnit));
}
