use epoch_core::precision::Precision;
use epoch_core::truncate::TruncateArgs;

fn truncate_nanos_stamp(in_nanos: i64, target: Precision) -> i64 {
    let args = TruncateArgs { truncate: Some(target) };
    let inst = Precision::Nanos.parse(in_nanos).unwrap();
    let out = args.apply(inst).unwrap();
    Precision::Nanos.as_stamp(&out)
}

#[test]
fn truncate_to_nanos() {
    assert_eq!(
        truncate_nanos_stamp(1681330711220000120, Precision::Nanos),
        1681330711220000000
    );
}

#[test]
fn truncate_to_millis() {
    assert_eq!(
        truncate_nanos_stamp(1681330711220000120, Precision::Millis),
        1681330711000000000
    );
}

#[test]
fn truncate_to_secs() {
    assert_eq!(
        truncate_nanos_stamp(1681330711220000120, Precision::Secs),
        1681330680000000000
    );
}

#[test]
fn truncate_to_mins() {
    assert_eq!(
        truncate_nanos_stamp(1681330711220000120, Precision::Mins),
        1681329600000000000
    );
}

#[test]
fn truncate_to_hours() {
    assert_eq!(
        truncate_nanos_stamp(1681330711220000120, Precision::Hours),
        1681257600000000000
    );
}

#[test]
fn truncate_to_days() {
    assert_eq!(
        truncate_nanos_stamp(1681330711220000120, Precision::Days),
        1680307200000000000
    );
}

#[test]
fn truncate_to_weeks() {
    assert_eq!(
        truncate_nanos_stamp(1681330711220000120, Precision::Weeks),
        1672531200000000000
    );
}

#[test]
fn truncate_without_target() {
    let args = TruncateArgs { truncate: None };
    let inst = Precision::Nanos.parse(1681330711220000120).unwrap();
    assert_eq!(args.apply(inst), Ok(inst));
}

#[test]
fn truncate_keeps_offset() {
    let args = TruncateArgs { truncate: Some(Precision::Secs) };
    let inst = Precision::Nanos
        .parse(1681330711220000120)
        .unwrap()
        .with_offset(-14400);
    let out = args.apply(inst).unwrap();
    assert_eq!(out.offset_secs, -14400);
    assert_eq!(Precision::Nanos.as_stamp(&out), 1681330680000000000);
}

#[test]
fn truncate_negative_goes_toward_zero() {
    // -90 seconds floors, toward zero, to -60 seconds at the minute span.
    assert_eq!(
        truncate_nanos_stamp(-90_000_000_000, Precision::Secs),
        -60_000_000_000
    );
}

#[test]
fn truncate_fails_beyond_nanosecond_range() {
    // About year 2500: valid as an instant, too wide for an i64 of nanos.
    let args = TruncateArgs { truncate: Some(Precision::Secs) };
    let inst = Precision::Secs.parse(16725312000).unwrap();
    assert!(args.apply(inst).is_err());
}
