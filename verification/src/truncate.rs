//! The truncation engine: flooring an instant to the start of a tier.
//!
//! Truncating to a tier zeroes the instant from that tier onwards: the
//! nanosecond count since the epoch is floored, toward zero, to a
//! multiple of the tier's boundary span, and for `Days` and `Weeks`
//! targets the calendar day-of-month (and month) is additionally reset
//! to 1.  The day/month reset rather than a 7-day epoch alignment is the
//! engine's deliberate reading of a week boundary.

use vstd::prelude::*;

use crate::calendar::day_reset_of;
use crate::calendar::month_reset_of;
use crate::calendar::reset_day_to_first;
use crate::calendar::reset_month_to_first;
use crate::errors::TemporalError;
use crate::instant::lemma_tmod_bounds;
use crate::instant::tmod;
use crate::instant::Instant;
use crate::precision::Precision;

verus! {

/// The boundary span of a truncation target, in nanoseconds: truncating
/// to a tier floors to the start of the next coarser calendar unit (a
/// day for `Hours`, an hour for `Mins`, and so on down to a millisecond
/// for `Nanos`).
pub open spec fn spec_span_nanos(p: Precision) -> int {
    match p {
        Precision::Weeks | Precision::Days | Precision::Hours => 86_400_000_000_000,
        Precision::Mins => 3_600_000_000_000,
        Precision::Secs => 60_000_000_000,
        Precision::Millis => 1_000_000_000,
        Precision::Nanos => 1_000_000,
    }
}

/// A nanosecond count floored, toward zero, to a multiple of the span of
/// tier `p`.
pub open spec fn spec_trunc_total(n: int, p: Precision) -> int {
    n - tmod(n, spec_span_nanos(p))
}

/// What truncating instant `dt` to tier `p` yields, once the floored
/// nanosecond count is known to fit an `i64`.  The calendar resets of
/// the `Days` and `Weeks` targets go through the trusted calendar names.
pub open spec fn spec_truncate(dt: Instant, p: Precision) -> Result<Instant, TemporalError> {
    let t = spec_trunc_total(dt.total_nanos(), p);
    let s2 = (t / 1_000_000_000) as i64;
    let n2 = (t % 1_000_000_000) as u32;
    match p {
        Precision::Days => (match day_reset_of(s2) {
            Some(s) => Ok(Instant { secs: s, nanos: n2, offset_secs: dt.offset_secs }),
            None => Err(TemporalError::TruncationFailed),
        }),
        Precision::Weeks => (match month_reset_of(s2) {
            Some(m) => match day_reset_of(m) {
                Some(s) => Ok(Instant { secs: s, nanos: n2, offset_secs: dt.offset_secs }),
                None => Err(TemporalError::TruncationFailed),
            },
            None => Err(TemporalError::TruncationFailed),
        }),
        _ => Ok(Instant { secs: s2, nanos: n2, offset_secs: dt.offset_secs }),
    }
}

/// An optional truncation target.
pub struct TruncateArgs {
    pub truncate: Option<Precision>,
}

impl TruncateArgs {
    /// Floors `dt` to the start of the target tier, or hands it back
    /// unchanged when no target is set.  Fails with `TruncationFailed`
    /// where the nanosecond count overflows an `i64` or a calendar reset
    /// yields no instant.
    pub fn apply(&self, dt: Instant) -> (r: Result<Instant, TemporalError>)
        requires
            dt.wf(),
        ensures
            (match self.truncate {
                None => r matches Ok(out) && out == dt,
                Some(p) => {
                    if i64::MIN <= dt.total_nanos() <= i64::MAX {
                        r == spec_truncate(dt, p)
                    } else {
                        r matches Err(e) && e is TruncationFailed
                    }
                },
            }),
            r matches Ok(out) ==> out.wf(),
    {
        let p = match self.truncate {
            Some(p) => p,
            None => {
                return Ok(dt);
            },
        };
        let n = match dt.total_nanos_checked() {
            Some(n) => n,
            None => {
                return Err(TemporalError::TruncationFailed);
            },
        };
        let span: i64 = match p {
            Precision::Weeks | Precision::Days | Precision::Hours => 86_400_000_000_000,
            Precision::Mins => 3_600_000_000_000,
            Precision::Secs => 60_000_000_000,
            Precision::Millis => 1_000_000_000,
            Precision::Nanos => 1_000_000,
        };
        proof {
            lemma_tmod_bounds(n as int, span as int);
        }
        let r0 = n.checked_rem(span).unwrap();
        assert(r0 == tmod(n as int, span as int));
        let t = n - r0;
        let secs2 = t.checked_div_euclid(1_000_000_000).unwrap();
        let nanos2 = t.checked_rem_euclid(1_000_000_000).unwrap() as u32;
        assert(-9223372037 <= secs2 <= 9223372036) by {
            vstd::arithmetic::div_mod::lemma_div_is_ordered(i64::MIN as int, t as int, 1_000_000_000);
            vstd::arithmetic::div_mod::lemma_div_is_ordered(t as int, i64::MAX as int, 1_000_000_000);
        }
        match p {
            Precision::Days => match reset_day_to_first(secs2) {
                Some(s) => Ok(Instant { secs: s, nanos: nanos2, offset_secs: dt.offset_secs }),
                None => Err(TemporalError::TruncationFailed),
            },
            Precision::Weeks => match reset_month_to_first(secs2) {
                Some(m) => match reset_day_to_first(m) {
                    Some(s) => Ok(Instant { secs: s, nanos: nanos2, offset_secs: dt.offset_secs }),
                    None => Err(TemporalError::TruncationFailed),
                },
                None => Err(TemporalError::TruncationFailed),
            },
            _ => Ok(Instant { secs: secs2, nanos: nanos2, offset_secs: dt.offset_secs }),
        }
    }
}

} // verus!
