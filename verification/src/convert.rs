//! Reading mixed input: epoch stamps or date-time strings.
//!
//! Each raw argument is first tried as a decimal stamp; only then is it
//! read as a date-time string, either under a caller-supplied strftime
//! format (with offset-aware, naive, and date-only readings tried in
//! that order) or by the self-describing auto-detection.

use vstd::prelude::*;

use crate::errors::TemporalError;
use crate::hduration::digit_val;
use crate::hduration::is_digit;
use crate::instant::Instant;
use crate::instant::MAX_EPOCH_SECS;
use crate::instant::MIN_EPOCH_SECS;
use crate::precision::spec_stamp_instant;
use crate::precision::stamp_in_range;
use crate::precision::Precision;

verus! {

/// Whether every character of the sequence is a decimal digit.
pub open spec fn all_digits(s: Seq<char>) -> bool {
    forall|i: int| 0 <= i < s.len() ==> is_digit(s[i])
}

/// The value of a digit sequence, most significant first.
pub open spec fn digits_value(s: Seq<char>) -> int
    decreases s.len(),
{
    if s.len() == 0 {
        0
    } else {
        digits_value(s.drop_last()) * 10 + digit_val(s.last())
    }
}

/// What std's `i64` reader accepts: an optional sign, then at least one
/// digit and nothing else, with the value inside the type's range.
pub open spec fn spec_parse_i64(s: Seq<char>) -> Option<i64> {
    let signed = s.len() > 0 && (s[0] == '+' || s[0] == '-');
    let ds = if signed {
        s.drop_first()
    } else {
        s
    };
    if ds.len() == 0 || !all_digits(ds) {
        None
    } else {
        let v = if signed && s[0] == '-' {
            -digits_value(ds)
        } else {
            digits_value(ds)
        };
        if i64::MIN <= v <= i64::MAX {
            Some(v as i64)
        } else {
            None
        }
    }
}

/// The value of a digit sequence is never negative.
proof fn lemma_digits_value_nonneg(ds: Seq<char>)
    requires
        all_digits(ds),
    ensures
        digits_value(ds) >= 0,
    decreases ds.len(),
{
    if ds.len() > 0 {
        assert(is_digit(ds.last()));
        assert(all_digits(ds.drop_last())) by {
            assert(forall|i: int| 0 <= i < ds.len() - 1 ==> ds.drop_last()[i] == ds[i]);
        }
        lemma_digits_value_nonneg(ds.drop_last());
    }
}

/// A digit prefix never exceeds the whole digit string's value.
proof fn lemma_digits_value_prefix_le(ds: Seq<char>, j: int)
    requires
        all_digits(ds),
        0 <= j <= ds.len(),
    ensures
        digits_value(ds.take(j)) <= digits_value(ds),
    decreases ds.len(),
{
    if j == ds.len() {
        assert(ds.take(j) =~= ds);
    } else {
        assert(all_digits(ds.drop_last())) by {
            assert(forall|i: int| 0 <= i < ds.len() - 1 ==> ds.drop_last()[i] == ds[i]);
        }
        assert(ds.take(j) =~= ds.drop_last().take(j));
        lemma_digits_value_prefix_le(ds.drop_last(), j);
        lemma_digits_value_nonneg(ds.drop_last());
        assert(is_digit(ds.last()));
    }
}

/// Reads a decimal `i64`: an optional sign, then digits and nothing
/// else, rejected on any other character or on overflow.
fn parse_i64(s: &str) -> (r: Option<i64>)
    ensures
        r == spec_parse_i64(s@),
{
    let n = s.unicode_len();
    if n == 0 {
        return None;
    }
    let c0 = s.get_char(0);
    let signed = c0 == '+' || c0 == '-';
    let neg = c0 == '-';
    let start: usize = if signed {
        1
    } else {
        0
    };
    if n == start {
        return None;
    }
    let ghost ds = if signed {
        s@.drop_first()
    } else {
        s@
    };
    proof {
        assert(ds =~= s@.subrange(start as int, n as int));
    }
    let mut mag: u64 = 0;
    let mut i: usize = start;
    while i < n
        invariant
            n == s@.len(),
            start <= i <= n,
            start < n,
            signed == (s@.len() > 0 && (s@[0] == '+' || s@[0] == '-')),
            signed ==> neg == (s@[0] == '-'),
            !signed ==> !neg,
            start == (if signed {
                1int
            } else {
                0int
            }),
            ds == s@.subrange(start as int, n as int),
            forall|j: int| start <= j < i ==> is_digit(#[trigger] s@[j]),
            mag == digits_value(ds.take(i - start)),
        decreases n - i,
    {
        let c = s.get_char(i);
        let cv = c as u32;
        if !(cv >= 48 && cv <= 57) {
            proof {
                assert(ds[i - start] == s@[i as int]);
                assert(!all_digits(ds));
            }
            return None;
        }
        let d = (cv - 48) as u64;
        proof {
            assert(ds.take(i - start + 1).drop_last() =~= ds.take(i - start));
            assert(ds.take(i - start + 1).last() == s@[i as int]);
        }
        let grown = match mag.checked_mul(10) {
            Some(v) => v.checked_add(d),
            None => None,
        };
        mag = match grown {
            Some(v) => v,
            None => {
                proof {
                    if all_digits(ds) {
                        assert(digits_value(ds.take(i - start + 1)) == mag * 10 + digit_val(
                            s@[i as int],
                        ));
                        assert(digit_val(s@[i as int]) == d);
                        lemma_digits_value_prefix_le(ds, i - start + 1);
                        assert(digits_value(ds) > u64::MAX);
                        assert(digits_value(ds) > i64::MAX);
                        assert(-digits_value(ds) < i64::MIN);
                        assert(signed == (s@.len() > 0 && (s@[0] == '+' || s@[0] == '-')));
                        if signed {
                            assert(ds =~= s@.drop_first());
                        } else {
                            assert(ds =~= s@);
                        }
                        assert(ds.len() > 0);
                        assert(spec_parse_i64(s@) is None);
                    } else {
                        assert(spec_parse_i64(s@) is None);
                    }
                }
                return None;
            },
        };
        i = i + 1;
    }
    proof {
        assert(ds.take(n - start) =~= ds);
        assert(all_digits(ds));
    }
    if neg {
        if mag > 9223372036854775808u64 {
            return None;
        }
        if mag == 9223372036854775808u64 {
            Some(i64::MIN)
        } else {
            Some(-(mag as i64))
        }
    } else {
        if mag > 9223372036854775807u64 {
            return None;
        }
        Some(mag as i64)
    }
}

/// What chrono's offset-aware `DateTime::parse_from_str` yields on a
/// string and format: epoch seconds, subsecond nanoseconds, and the
/// parsed offset; a function of the two strings alone.
pub uninterp spec fn dt_parse_of(s: Seq<char>, f: Seq<char>) -> Option<(i64, u32, i32)>;

/// What chrono's `NaiveDateTime::parse_from_str` yields, read as UTC.
pub uninterp spec fn naive_parse_of(s: Seq<char>, f: Seq<char>) -> Option<(i64, u32)>;

/// What chrono's `NaiveDate::parse_from_str` yields, read as midnight
/// UTC.
pub uninterp spec fn date_parse_of(s: Seq<char>, f: Seq<char>) -> Option<i64>;

/// What chrono's self-describing `DateTime<FixedOffset>` reader (RFC
/// 3339 and friends) yields.
pub uninterp spec fn rfc_parse_of(s: Seq<char>) -> Option<(i64, u32, i32)>;

/// Relies on chrono's `DateTime::parse_from_str`: a parsed datetime lies
/// in the calendar range and its fixed offset is below a day.
#[verifier::external_body]
fn parse_dt_with_offset(s: &str, f: &str) -> (r: Option<(i64, u32, i32)>)
    ensures
        r == dt_parse_of(s@, f@),
        (match r {
            Some(t) => MIN_EPOCH_SECS <= t.0 <= MAX_EPOCH_SECS && -86399 <= t.2 <= 86399,
            None => true,
        }),
{
    chrono::DateTime::parse_from_str(s, f).ok().map(
        |dt| (dt.timestamp(), dt.timestamp_subsec_nanos(), dt.offset().local_minus_utc()),
    )
}

/// Relies on chrono's `NaiveDateTime::parse_from_str`: a parsed datetime
/// lies in the calendar range.
#[verifier::external_body]
fn parse_dt_naive(s: &str, f: &str) -> (r: Option<(i64, u32)>)
    ensures
        r == naive_parse_of(s@, f@),
        (match r {
            Some(t) => MIN_EPOCH_SECS <= t.0 <= MAX_EPOCH_SECS,
            None => true,
        }),
{
    chrono::NaiveDateTime::parse_from_str(s, f).ok().map(
        |n| (n.and_utc().timestamp(), n.and_utc().timestamp_subsec_nanos()),
    )
}

/// Relies on chrono's `NaiveDate::parse_from_str` and `and_hms_opt`: a
/// parsed date at midnight lies in the calendar range.
#[verifier::external_body]
fn parse_date_only(s: &str, f: &str) -> (r: Option<i64>)
    ensures
        r == date_parse_of(s@, f@),
        (match r {
            Some(secs) => MIN_EPOCH_SECS <= secs <= MAX_EPOCH_SECS,
            None => true,
        }),
{
    chrono::NaiveDate::parse_from_str(s, f).ok().and_then(|d| d.and_hms_opt(0, 0, 0)).map(
        |n| n.and_utc().timestamp(),
    )
}

/// Relies on chrono's `FromStr` for `DateTime<FixedOffset>`: a parsed
/// datetime lies in the calendar range and its offset is below a day.
#[verifier::external_body]
fn parse_dt_auto(s: &str) -> (r: Option<(i64, u32, i32)>)
    ensures
        r == rfc_parse_of(s@),
        (match r {
            Some(t) => MIN_EPOCH_SECS <= t.0 <= MAX_EPOCH_SECS && -86399 <= t.2 <= 86399,
            None => true,
        }),
{
    s.parse::<chrono::DateTime<chrono::FixedOffset>>().ok().map(
        |dt| (dt.timestamp(), dt.timestamp_subsec_nanos(), dt.offset().local_minus_utc()),
    )
}

/// One raw input: an epoch stamp awaiting a precision, or an instant
/// already fixed by a date-time string.
#[derive(Copy, Clone, Debug, PartialEq, Eq, Structural)]
pub enum ConversionInput {
    Stamp(i64),
    Text(Instant),
}

/// What reading one raw argument yields: the decimal reading first,
/// then, under a format, the offset-aware, naive, and date-only
/// readings in that order; with no format, the self-describing reading.
/// A reading whose subsecond part reaches a leap second is rejected.
pub open spec fn spec_conversion_input(s: Seq<char>, fmt: Option<Seq<char>>) -> Option<
    ConversionInput,
> {
    match spec_parse_i64(s) {
        Some(ts) => Some(ConversionInput::Stamp(ts)),
        None => match fmt {
            Some(f) => match dt_parse_of(s, f) {
                Some(t) => if t.1 < 1_000_000_000 {
                    Some(
                        ConversionInput::Text(
                            Instant { secs: t.0, nanos: t.1, offset_secs: t.2 },
                        ),
                    )
                } else {
                    None
                },
                None => match naive_parse_of(s, f) {
                    Some(t) => if t.1 < 1_000_000_000 {
                        Some(
                            ConversionInput::Text(
                                Instant { secs: t.0, nanos: t.1, offset_secs: 0 },
                            ),
                        )
                    } else {
                        None
                    },
                    None => match date_parse_of(s, f) {
                        Some(secs) => Some(
                            ConversionInput::Text(Instant { secs, nanos: 0, offset_secs: 0 }),
                        ),
                        None => None,
                    },
                },
            },
            None => match rfc_parse_of(s) {
                Some(t) => if t.1 < 1_000_000_000 {
                    Some(
                        ConversionInput::Text(
                            Instant { secs: t.0, nanos: t.1, offset_secs: t.2 },
                        ),
                    )
                } else {
                    None
                },
                None => None,
            },
        },
    }
}

impl ConversionInput {
    /// Reads one raw argument, trying a decimal stamp first and then the
    /// date-time readings that the optional format admits.
    pub fn from_str_with_format(arg: &str, format: Option<&str>) -> (r: Option<ConversionInput>)
        ensures
            r == spec_conversion_input(
                arg@,
                match format {
                    Some(f) => Some(f@),
                    None => None,
                },
            ),
            r matches Some(ConversionInput::Text(i)) ==> i.wf(),
    {
        if let Some(ts) = parse_i64(arg) {
            return Some(ConversionInput::Stamp(ts));
        }
        match format {
            Some(f) => {
                if let Some((secs, nanos, offset_secs)) = parse_dt_with_offset(arg, f) {
                    return if nanos < 1_000_000_000 {
                        Some(ConversionInput::Text(Instant { secs, nanos, offset_secs }))
                    } else {
                        None
                    };
                }
                if let Some((secs, nanos)) = parse_dt_naive(arg, f) {
                    return if nanos < 1_000_000_000 {
                        Some(ConversionInput::Text(Instant { secs, nanos, offset_secs: 0 }))
                    } else {
                        None
                    };
                }
                match parse_date_only(arg, f) {
                    Some(secs) => Some(
                        ConversionInput::Text(Instant { secs, nanos: 0, offset_secs: 0 }),
                    ),
                    None => None,
                }
            },
            None => {
                match parse_dt_auto(arg) {
                    Some((secs, nanos, offset_secs)) => if nanos < 1_000_000_000 {
                        Some(ConversionInput::Text(Instant { secs, nanos, offset_secs }))
                    } else {
                        None
                    },
                    None => None,
                }
            },
        }
    }

    /// Reads one raw argument with no caller-supplied format.
    pub fn from_str(arg: &str) -> (r: Option<ConversionInput>)
        ensures
            r == spec_conversion_input(arg@, None),
            r matches Some(ConversionInput::Text(i)) ==> i.wf(),
    {
        ConversionInput::from_str_with_format(arg, None)
    }

    /// The instant the input denotes: a stamp is read at the given
    /// precision, a date-time string already carries its instant.
    pub fn to_dt(&self, precision: &Precision) -> (r: Result<Instant, TemporalError>)
        requires
            self matches ConversionInput::Text(i) ==> i.wf(),
        ensures
            (match *self {
                ConversionInput::Text(i) => r matches Ok(out) && out == i,
                ConversionInput::Stamp(ts) => (r matches Ok(out) ==> stamp_in_range(
                    *precision,
                    ts as int,
                ) && out == spec_stamp_instant(*precision, ts as int) && out.wf()) && (r matches Err(
                    e,
                ) ==> !stamp_in_range(*precision, ts as int) && e is OutOfRange),
            }),
            r matches Ok(out) ==> out.wf(),
    {
        match self {
            ConversionInput::Text(i) => Ok(*i),
            ConversionInput::Stamp(ts) => precision.parse(*ts),
        }
    }
}

} // verus!
