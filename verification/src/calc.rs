//! Applying a signed duration to an instant.

use vstd::prelude::*;

use crate::errors::TemporalError;
use crate::hduration::HDuration;
use crate::instant::Instant;
use crate::instant::MAX_EPOCH_SECS;
use crate::instant::MIN_EPOCH_SECS;

verus! {

/// Whether a nanosecond count since the epoch lies inside the
/// representable calendar range.
pub open spec fn total_in_range(t: int) -> bool {
    MIN_EPOCH_SECS * 1_000_000_000 <= t <= MAX_EPOCH_SECS * 1_000_000_000 + 999_999_999
}

/// The nanosecond count that a signed duration shifts an instant by.
pub open spec fn spec_shift(d: HDuration) -> int {
    if d.negative {
        -(d.secs * 1_000_000_000 + d.nanos)
    } else {
        d.secs * 1_000_000_000 + d.nanos
    }
}

/// An optional signed duration to add to every instant.
pub struct CalcArgs {
    pub add: Option<HDuration>,
}

impl CalcArgs {
    /// Shifts the instant by the duration, exactly; fails with
    /// `OutOfRange` where the shifted instant leaves the representable
    /// calendar range.
    pub fn eval(&self, dt: Instant) -> (r: Result<Instant, TemporalError>)
        requires
            dt.wf(),
            self.add matches Some(d) ==> d.wf(),
        ensures
            (match self.add {
                None => r matches Ok(out) && out == dt,
                Some(d) => {
                    let shifted = dt.total_nanos() + spec_shift(d);
                    if total_in_range(shifted) {
                        r matches Ok(out) && out.total_nanos() == shifted && out.offset_secs
                            == dt.offset_secs && out.wf()
                    } else {
                        r matches Err(e) && e is OutOfRange
                    }
                },
            }),
            r matches Ok(out) ==> out.wf(),
    {
        let d = match &self.add {
            Some(d) => d,
            None => {
                return Ok(dt);
            },
        };
        if !d.negative {
            let room = (MAX_EPOCH_SECS - dt.secs) as u64;
            if d.secs > room {
                return Err(TemporalError::OutOfRange);
            }
            let mut s = dt.secs + (d.secs as i64);
            let mut n = dt.nanos + d.nanos;
            if n >= 1_000_000_000 {
                n = n - 1_000_000_000;
                if s == MAX_EPOCH_SECS {
                    return Err(TemporalError::OutOfRange);
                }
                s = s + 1;
            }
            Ok(Instant { secs: s, nanos: n, offset_secs: dt.offset_secs })
        } else {
            let room = (dt.secs - MIN_EPOCH_SECS) as u64;
            if d.secs > room {
                return Err(TemporalError::OutOfRange);
            }
            let mut s = dt.secs - (d.secs as i64);
            let n: u32;
            if dt.nanos >= d.nanos {
                n = dt.nanos - d.nanos;
            } else {
                if s == MIN_EPOCH_SECS {
                    return Err(TemporalError::OutOfRange);
                }
                s = s - 1;
                n = 1_000_000_000 - d.nanos + dt.nanos;
            }
            Ok(Instant { secs: s, nanos: n, offset_secs: dt.offset_secs })
        }
    }
}

} // verus!
