use epoch_core::calc::CalcArgs;
use epoch_core::convert::ConversionInput;
use epoch_core::errors::TemporalError;
use epoch_core::format::Format;
use epoch_core::format::FormatArgs;
use epoch_core::hduration::HDuration;
use epoch_core::instant::Instant;
use epoch_core::order::Order;
use epoch_core::order::OrderArgs;
use epoch_core::precision::Precision;

fn secs_instant(ts: i64) -> Instant {
    Precision::Secs.parse(ts).unwrap()
}

#[test]
fn sort_ascending() {
    let mut items = vec![
        secs_instant(1679258022),
        secs_instant(1676258187),
        secs_instant(1679258186),
    ];
    OrderArgs { order: Some(Order::ASC) }.apply(&mut items);
    let stamps: Vec<i64> = items.iter().map(|i| Precision::Secs.as_stamp(i)).collect();
    assert_eq!(stamps, vec![1676258187, 1679258022, 1679258186]);
}

#[test]
fn sort_descending() {
    let mut items = vec![
        secs_instant(1679258022),
        secs_instant(1676258187),
        secs_instant(1679258186),
    ];
    OrderArgs { order: Some(Order::DSC) }.apply(&mut items);
    let stamps: Vec<i64> = items.iter().map(|i| Precision::Secs.as_stamp(i)).collect();
    assert_eq!(stamps, vec![1679258186, 1679258022, 1676258187]);
}

#[test]
fn sort_none_keeps_order() {
    let mut items = vec![
        secs_instant(1679258022),
        secs_instant(1676258187),
        secs_instant(1679258186),
    ];
    OrderArgs { order: None }.apply(&mut items);
    let stamps: Vec<i64> = items.iter().map(|i| Precision::Secs.as_stamp(i)).collect();
    assert_eq!(stamps, vec![1679258022, 1676258187, 1679258186]);
}

#[test]
fn eval_adds_duration() {
    let args = CalcArgs { add: Some(HDuration::new(3600, 0, false, "1h")) };
    let out = args.eval(secs_instant(1679258022)).unwrap();
    assert_eq!(Precision::Secs.as_stamp(&out), 1679261622);
}

#[test]
fn eval_subtracts_with_borrow() {
    let args = CalcArgs { add: Some(HDuration::new(0, 1, true, "-1ns")) };
    let inst = Precision::Nanos.parse(5_000_000_000).unwrap();
    let out = args.eval(inst).unwrap();
    assert_eq!(Precision::Nanos.as_stamp(&out), 4_999_999_999);
}

#[test]
fn eval_without_duration() {
    let args = CalcArgs { add: None };
    let inst = secs_instant(1679258022);
    assert_eq!(args.eval(inst), Ok(inst));
}

#[test]
fn eval_out_of_range() {
    let args = CalcArgs { add: Some(HDuration::new(1, 0, false, "1s")) };
    let inst = secs_instant(8210266876799);
    assert_eq!(args.eval(inst), Err(TemporalError::OutOfRange));
}

#[test]
fn conversion_reads_stamp() {
    assert_eq!(
        ConversionInput::from_str_with_format("1679258022", None),
        Some(ConversionInput::Stamp(1679258022))
    );
}

#[test]
fn conversion_reads_date_with_format() {
    let got = ConversionInput::from_str_with_format("2023-07-15", Some("%Y-%m-%d")).unwrap();
    match got {
        ConversionInput::Text(inst) => {
            assert_eq!(Precision::Secs.as_stamp(&inst), 1689379200);
            assert_eq!(inst.offset_secs, 0);
        }
        other => panic!("expected a date-time reading, got {:?}", other),
    }
}

#[test]
fn conversion_reads_datetime_with_format() {
    let got =
        ConversionInput::from_str_with_format("2023-07-15T14:30:45", Some("%Y-%m-%dT%H:%M:%S"))
            .unwrap();
    match got {
        ConversionInput::Text(inst) => {
            assert_eq!(Precision::Secs.as_stamp(&inst), 1689431445);
            assert_eq!(Precision::Millis.as_stamp(&inst), 1689431445000);
        }
        other => panic!("expected a date-time reading, got {:?}", other),
    }
}

#[test]
fn conversion_reads_offset_with_format() {
    let got = ConversionInput::from_str_with_format(
        "2023-07-15 14:30:45+02:00",
        Some("%Y-%m-%d %H:%M:%S%:z"),
    )
    .unwrap();
    match got {
        ConversionInput::Text(inst) => {
            assert_eq!(inst.offset_secs, 7200);
            assert_eq!(Precision::Secs.as_stamp(&inst), 1689424245);
        }
        other => panic!("expected a date-time reading, got {:?}", other),
    }
}

#[test]
fn conversion_auto_detects_rfc_datetime() {
    let got = ConversionInput::from_str("2023-03-19T16:36:26-0400").unwrap();
    match got {
        ConversionInput::Text(inst) => {
            assert_eq!(inst.offset_secs, -14400);
            assert_eq!(Precision::Secs.as_stamp(&inst), 1679258186);
        }
        other => panic!("expected a date-time reading, got {:?}", other),
    }
}

#[test]
fn conversion_rejects_mismatched_format() {
    assert_eq!(ConversionInput::from_str_with_format("2023-07-15", Some("%Y-%m")), None);
    assert_eq!(ConversionInput::from_str_with_format("invalid", Some("%Y-%m-%d")), None);
    assert_eq!(ConversionInput::from_str_with_format("2023-13-15", Some("%Y-%m-%d")), None);
}

#[test]
fn to_dt_reads_stamp_at_precision() {
    let inst = ConversionInput::Stamp(1689379200000)
        .to_dt(&Precision::Millis)
        .unwrap();
    assert_eq!(inst.secs, 1689379200);
    assert_eq!(inst.nanos, 0);
}

#[test]
fn to_dt_out_of_range() {
    assert_eq!(
        ConversionInput::Stamp(i64::MAX).to_dt(&Precision::Secs),
        Err(TemporalError::OutOfRange)
    );
}

#[test]
fn format_stamp_output() {
    let args = FormatArgs { output_format: None, precision: Precision::Millis };
    let inst = Precision::Millis.parse(1679661279000).unwrap();
    assert_eq!(args.format(&inst), "1679661279000");
    let negative = Precision::Millis.parse(-1444).unwrap();
    assert_eq!(args.format(&negative), "-1444");
}

#[test]
fn format_datetime_output() {
    let fmt = Format::parse("%Y-%m-%dT%H:%M:%S%z").unwrap();
    let args = FormatArgs { output_format: Some(fmt), precision: Precision::Millis };
    let inst = secs_instant(1679258186).with_offset(-14400);
    assert_eq!(args.try_format(&inst), Some(String::from("2023-03-19T16:36:26-0400")));
}

#[test]
fn format_rejects_unknown_specifier() {
    assert_eq!(Format::parse("%Q"), None);
    assert!(Format::parse("%Y-%m-%d").is_some());
}

#[test]
fn delta_between_instants() {
    let a = Precision::Nanos.parse(5_000_000_001).unwrap();
    let b = Precision::Nanos.parse(2_000_000_003).unwrap();
    assert_eq!(a.delta(&b), (2, 999_999_998));
    assert_eq!(b.delta(&a), (2, 999_999_998));
    assert_eq!(a.delta(&a), (0, 0));
}

#[test]
fn adjacent_deltas_per_pair() {
    let items = vec![
        secs_instant(1679258022),
        secs_instant(1676258187),
        secs_instant(1679258186),
    ];
    let deltas = epoch_core::instant::adjacent_deltas(&items);
    assert_eq!(deltas, vec![(2999835, 0), (2999999, 0)]);
}
