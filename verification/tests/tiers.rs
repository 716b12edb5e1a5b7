use epoch_core::errors::TemporalError;
use epoch_core::precision::Precision;

#[test]
fn seconds_per_values() {
    assert_eq!(Precision::Millis.seconds_per(), 0);
    assert_eq!(Precision::Nanos.seconds_per(), 0);
    assert_eq!(Precision::Secs.seconds_per(), 1);
    assert_eq!(Precision::Mins.seconds_per(), 60);
    assert_eq!(Precision::Hours.seconds_per(), 3600);
    assert_eq!(Precision::Days.seconds_per(), 86400);
    assert_eq!(Precision::Weeks.seconds_per(), 604800);
}

#[test]
fn downcast_chain() {
    assert_eq!(Precision::Weeks.try_downcast(), Some(Precision::Days));
    assert_eq!(Precision::Days.try_downcast(), Some(Precision::Hours));
    assert_eq!(Precision::Hours.try_downcast(), Some(Precision::Mins));
    assert_eq!(Precision::Mins.try_downcast(), Some(Precision::Secs));
    assert_eq!(Precision::Secs.try_downcast(), Some(Precision::Millis));
    assert_eq!(Precision::Millis.try_downcast(), Some(Precision::Nanos));
    assert_eq!(Precision::Nanos.try_downcast(), None);
}

#[test]
fn upcast_chain() {
    assert_eq!(Precision::Weeks.try_upcast(), None);
    assert_eq!(Precision::Nanos.try_upcast(), Some(Precision::Millis));
    assert_eq!(Precision::Secs.try_upcast(), Some(Precision::Mins));
}

#[test]
fn parse_token_short_codes() {
    assert_eq!(Precision::parse_token("w"), Ok(Precision::Weeks));
    assert_eq!(Precision::parse_token("d"), Ok(Precision::Days));
    assert_eq!(Precision::parse_token("h"), Ok(Precision::Hours));
    assert_eq!(Precision::parse_token("m"), Ok(Precision::Mins));
    assert_eq!(Precision::parse_token("s"), Ok(Precision::Secs));
    assert_eq!(Precision::parse_token("ms"), Ok(Precision::Millis));
    assert_eq!(Precision::parse_token("ns"), Ok(Precision::Nanos));
}

#[test]
fn parse_token_long_names() {
    assert_eq!(Precision::parse_token("weeks"), Ok(Precision::Weeks));
    assert_eq!(Precision::parse_token("days"), Ok(Precision::Days));
    assert_eq!(Precision::parse_token("hours"), Ok(Precision::Hours));
    assert_eq!(Precision::parse_token("mins"), Ok(Precision::Mins));
    assert_eq!(Precision::parse_token("secs"), Ok(Precision::Secs));
    assert_eq!(Precision::parse_token("millis"), Ok(Precision::Millis));
    assert_eq!(Precision::parse_token("nanos"), Ok(Precision::Nanos));
}

#[test]
fn parse_token_unknown() {
    assert_eq!(
        Precision::parse_token("n"),
        Err(TemporalError::UnknownUnit { text: String::from("n") })
    );
    assert_eq!(
        Precision::parse_token("minutes"),
        Err(TemporalError::UnknownUnit { text: String::from("minutes") })
    );
}

#[test]
fn stamp_round_trip_secs() {
    for ts in [0i64, 1679258022, -12345678] {
        let inst = Precision::Secs.parse(ts).unwrap();
        assert_eq!(Precision::Secs.as_stamp(&inst), ts);
    }
}

#[test]
fn stamp_round_trip_millis() {
    for ts in [0i64, 1679661279000, 1444, -1444, -1679661279001] {
        let inst = Precision::Millis.parse(ts).unwrap();
        assert_eq!(Precision::Millis.as_stamp(&inst), ts);
    }
}

#[test]
fn stamp_round_trip_nanos() {
    for ts in [0i64, 1681330711220000120, -1681330711220000120, i64::MAX, i64::MIN] {
        let inst = Precision::Nanos.parse(ts).unwrap();
        assert_eq!(Precision::Nanos.as_stamp(&inst), ts);
    }
}

#[test]
fn parse_scales_coarse_tiers() {
    let inst = Precision::Hours.parse(2).unwrap();
    assert_eq!(inst.secs, 7200);
    assert_eq!(inst.nanos, 0);
    let inst = Precision::Weeks.parse(1).unwrap();
    assert_eq!(inst.secs, 604800);
}

#[test]
fn as_stamp_coarse_truncates_toward_zero() {
    let inst = Precision::Secs.parse(7201).unwrap();
    assert_eq!(Precision::Hours.as_stamp(&inst), 2);
    let inst = Precision::Secs.parse(-3601).unwrap();
    assert_eq!(Precision::Hours.as_stamp(&inst), -1);
}

#[test]
fn parse_out_of_range() {
    assert_eq!(Precision::Secs.parse(8210266876800), Err(TemporalError::OutOfRange));
    assert_eq!(Precision::Secs.parse(-8334601228801), Err(TemporalError::OutOfRange));
    assert_eq!(Precision::Weeks.parse(i64::MAX / 2), Err(TemporalError::OutOfRange));
    assert_eq!(Precision::Days.parse(-96465293), Err(TemporalError::OutOfRange));
    assert_eq!(Precision::Millis.parse(-8334601228800001), Err(TemporalError::OutOfRange));
    assert!(Precision::Millis.parse(i64::MAX).is_err());
}

#[test]
fn parse_at_range_edges() {
    // The first and last representable seconds round-trip.
    let lo = Precision::Secs.parse(-8334601228800).unwrap();
    assert_eq!(Precision::Secs.as_stamp(&lo), -8334601228800);
    let hi = Precision::Secs.parse(8210266876799).unwrap();
    assert_eq!(Precision::Secs.as_stamp(&hi), 8210266876799);
    let lo_days = Precision::Days.parse(-96465292).unwrap();
    assert_eq!(lo_days.secs, -8334601228800);
}

#[test]
fn as_self_caps_at_seconds() {
    let inst = Precision::Millis.parse(1444).unwrap();
    assert_eq!(Precision::Weeks.as_self(&inst), (1, Precision::Secs));
    assert_eq!(Precision::Millis.as_self(&inst), (1444, Precision::Millis));
    assert_eq!(Precision::Nanos.as_self(&inst), (1444000000, Precision::Nanos));
}

#[test]
fn tier_labels() {
    assert_eq!(Precision::Weeks.label(), "weeks");
    assert_eq!(Precision::Days.label(), "days");
    assert_eq!(Precision::Hours.label(), "hours");
    assert_eq!(Precision::Mins.label(), "mins");
    assert_eq!(Precision::Secs.label(), "seconds");
    assert_eq!(Precision::Millis.label(), "milliseconds");
    assert_eq!(Precision::Nanos.label(), "nanoseconds");
}
