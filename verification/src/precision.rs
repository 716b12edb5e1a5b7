//! The ordered hierarchy of timestamp precisions.

use vstd::prelude::*;
use vstd::string::StrSliceExecFns;

use crate::errors::TemporalError;
use crate::instant::Instant;
use crate::instant::tdiv;
use crate::instant::MAX_EPOCH_SECS;
use crate::instant::MIN_EPOCH_SECS;

verus! {

/// One granularity level, from coarsest (`Weeks`) down to finest (`Nanos`).
/// `Secs` is the pivot tier at which stamps are plain epoch seconds.
#[derive(Copy, Clone, Debug, PartialEq, Eq, Structural)]
pub enum Precision {
    Weeks,
    Days,
    Hours,
    Mins,
    Secs,
    Millis,
    Nanos,
}

/// Distance of a tier from the finest one; the measure that recursion
/// along the chain decreases.
pub open spec fn tier_depth(p: Precision) -> nat {
    match p {
        Precision::Weeks => 6,
        Precision::Days => 5,
        Precision::Hours => 4,
        Precision::Mins => 3,
        Precision::Secs => 2,
        Precision::Millis => 1,
        Precision::Nanos => 0,
    }
}

/// The adjacent finer tier, or none at the terminal `Nanos`.
pub open spec fn spec_next_finer(p: Precision) -> Option<Precision> {
    match p {
        Precision::Weeks => Some(Precision::Days),
        Precision::Days => Some(Precision::Hours),
        Precision::Hours => Some(Precision::Mins),
        Precision::Mins => Some(Precision::Secs),
        Precision::Secs => Some(Precision::Millis),
        Precision::Millis => Some(Precision::Nanos),
        Precision::Nanos => None,
    }
}

/// The adjacent coarser tier, or none at the terminal `Weeks`.
pub open spec fn spec_next_coarser(p: Precision) -> Option<Precision> {
    match p {
        Precision::Weeks => None,
        Precision::Days => Some(Precision::Weeks),
        Precision::Hours => Some(Precision::Days),
        Precision::Mins => Some(Precision::Hours),
        Precision::Secs => Some(Precision::Mins),
        Precision::Millis => Some(Precision::Secs),
        Precision::Nanos => Some(Precision::Millis),
    }
}

/// Whole seconds per unit of a tier; 0 for the sub-second tiers, which are
/// not integer multiples of a second.
pub open spec fn spec_seconds_per(p: Precision) -> int {
    match p {
        Precision::Weeks => 604800,
        Precision::Days => 86400,
        Precision::Hours => 3600,
        Precision::Mins => 60,
        Precision::Secs => 1,
        Precision::Millis => 0,
        Precision::Nanos => 0,
    }
}

/// The tier named by a unit token: a short code or a long name.
pub open spec fn token_of(s: Seq<char>) -> Option<Precision> {
    if s == seq!['w'] || s == seq!['w', 'e', 'e', 'k', 's'] {
        Some(Precision::Weeks)
    } else if s == seq!['d'] || s == seq!['d', 'a', 'y', 's'] {
        Some(Precision::Days)
    } else if s == seq!['h'] || s == seq!['h', 'o', 'u', 'r', 's'] {
        Some(Precision::Hours)
    } else if s == seq!['m'] || s == seq!['m', 'i', 'n', 's'] {
        Some(Precision::Mins)
    } else if s == seq!['s'] || s == seq!['s', 'e', 'c', 's'] {
        Some(Precision::Secs)
    } else if s == seq!['m', 's'] || s == seq!['m', 'i', 'l', 'l', 'i', 's'] {
        Some(Precision::Millis)
    } else if s == seq!['n', 's'] || s == seq!['n', 'a', 'n', 'o', 's'] {
        Some(Precision::Nanos)
    } else {
        None
    }
}

/// Whether a stamp read at tier `p` lands inside the representable
/// calendar range.
pub open spec fn stamp_in_range(p: Precision, ts: int) -> bool {
    match p {
        Precision::Secs => MIN_EPOCH_SECS <= ts <= MAX_EPOCH_SECS,
        Precision::Millis => MIN_EPOCH_SECS <= ts / 1000 <= MAX_EPOCH_SECS,
        Precision::Nanos => true,
        _ => MIN_EPOCH_SECS <= ts * spec_seconds_per(p) <= MAX_EPOCH_SECS,
    }
}

/// The instant that a stamp at tier `p` denotes.  Sub-second stamps are
/// split into floored seconds and a forward nanosecond part; coarser
/// stamps are scaled into whole seconds.
pub open spec fn spec_stamp_instant(p: Precision, ts: int) -> Instant {
    match p {
        Precision::Secs => Instant { secs: ts as i64, nanos: 0, offset_secs: 0 },
        Precision::Millis => Instant {
            secs: (ts / 1000) as i64,
            nanos: (1_000_000 * (ts % 1000)) as u32,
            offset_secs: 0,
        },
        Precision::Nanos => Instant {
            secs: (ts / 1_000_000_000) as i64,
            nanos: (ts % 1_000_000_000) as u32,
            offset_secs: 0,
        },
        _ => Instant { secs: (ts * spec_seconds_per(p)) as i64, nanos: 0, offset_secs: 0 },
    }
}

/// The stamp at tier `p` of an instant.  Coarser tiers divide the epoch
/// seconds truncating toward zero, which is deliberately lossy.
pub open spec fn spec_as_stamp(p: Precision, i: Instant) -> int {
    match p {
        Precision::Secs => i.secs as int,
        Precision::Millis => i.secs * 1000 + i.nanos as int / 1_000_000,
        Precision::Nanos => i.total_nanos(),
        _ => tdiv(i.secs as int, spec_seconds_per(p)),
    }
}

impl Precision {
    /// Steps one tier finer, stopping at `Nanos`.
    pub fn try_downcast(&self) -> (r: Option<Precision>)
        ensures
            r == spec_next_finer(*self),
    {
        match self {
            Precision::Weeks => Some(Precision::Days),
            Precision::Days => Some(Precision::Hours),
            Precision::Hours => Some(Precision::Mins),
            Precision::Mins => Some(Precision::Secs),
            Precision::Secs => Some(Precision::Millis),
            Precision::Millis => Some(Precision::Nanos),
            Precision::Nanos => None,
        }
    }

    /// Steps one tier coarser, stopping at `Weeks`.
    pub fn try_upcast(&self) -> (r: Option<Precision>)
        ensures
            r == spec_next_coarser(*self),
    {
        match self {
            Precision::Weeks => None,
            Precision::Days => Some(Precision::Weeks),
            Precision::Hours => Some(Precision::Days),
            Precision::Mins => Some(Precision::Hours),
            Precision::Secs => Some(Precision::Mins),
            Precision::Millis => Some(Precision::Secs),
            Precision::Nanos => Some(Precision::Millis),
        }
    }

    /// The number of seconds in one unit of this tier, derived by walking
    /// the chain toward `Secs`; 0 once the walk passes below one second.
    pub fn seconds_per(&self) -> (r: i64)
        ensures
            r == spec_seconds_per(*self),
        decreases tier_depth(*self),
    {
        match self {
            Precision::Weeks => match self.try_downcast() {
                Some(p) => 7 * p.seconds_per(),
                None => 0,
            },
            Precision::Days => match self.try_downcast() {
                Some(p) => 24 * p.seconds_per(),
                None => 0,
            },
            Precision::Hours | Precision::Mins => match self.try_downcast() {
                Some(p) => 60 * p.seconds_per(),
                None => 0,
            },
            Precision::Secs => 1,
            _ => 0,
        }
    }

    /// The human-readable name of the tier.
    pub fn label(&self) -> (r: &'static str)
        ensures
            r@ == (match *self {
                Precision::Weeks => "weeks"@,
                Precision::Days => "days"@,
                Precision::Hours => "hours"@,
                Precision::Mins => "mins"@,
                Precision::Secs => "seconds"@,
                Precision::Millis => "milliseconds"@,
                Precision::Nanos => "nanoseconds"@,
            }),
    {
        match self {
            Precision::Weeks => "weeks",
            Precision::Days => "days",
            Precision::Hours => "hours",
            Precision::Mins => "mins",
            Precision::Secs => "seconds",
            Precision::Millis => "milliseconds",
            Precision::Nanos => "nanoseconds",
        }
    }

    /// Resolves a unit token (`"w"`/`"weeks"` down to `"ns"`/`"nanos"`)
    /// to its tier.
    pub fn parse_token(s: &str) -> (r: Result<Precision, TemporalError>)
        ensures
            r matches Ok(p) ==> token_of(s@) == Some(p),
            r matches Err(e) ==> token_of(s@) is None && (e matches TemporalError::UnknownUnit {
                text,
            } && text@ == s@),
    {
        let n = s.unicode_len();
        if n == 1 {
            let c0 = s.get_char(0);
            if c0 == 'w' {
                proof {
                    assert(s@ =~= seq!['w']);
                }
                return Ok(Precision::Weeks);
            }
            if c0 == 'd' {
                proof {
                    assert(s@ =~= seq!['d']);
                }
                return Ok(Precision::Days);
            }
            if c0 == 'h' {
                proof {
                    assert(s@ =~= seq!['h']);
                }
                return Ok(Precision::Hours);
            }
            if c0 == 'm' {
                proof {
                    assert(s@ =~= seq!['m']);
                }
                return Ok(Precision::Mins);
            }
            if c0 == 's' {
                proof {
                    assert(s@ =~= seq!['s']);
                }
                return Ok(Precision::Secs);
            }
        } else if n == 2 {
            let c0 = s.get_char(0);
            let c1 = s.get_char(1);
            if c0 == 'm' && c1 == 's' {
                proof {
                    assert(s@ =~= seq!['m', 's']);
                }
                return Ok(Precision::Millis);
            }
            if c0 == 'n' && c1 == 's' {
                proof {
                    assert(s@ =~= seq!['n', 's']);
                }
                return Ok(Precision::Nanos);
            }
        } else if n == 4 {
            let c0 = s.get_char(0);
            let c1 = s.get_char(1);
            let c2 = s.get_char(2);
            let c3 = s.get_char(3);
            if c0 == 'd' && c1 == 'a' && c2 == 'y' && c3 == 's' {
                proof {
                    assert(s@ =~= seq!['d', 'a', 'y', 's']);
                }
                return Ok(Precision::Days);
            }
            if c0 == 'm' && c1 == 'i' && c2 == 'n' && c3 == 's' {
                proof {
                    assert(s@ =~= seq!['m', 'i', 'n', 's']);
                }
                return Ok(Precision::Mins);
            }
            if c0 == 's' && c1 == 'e' && c2 == 'c' && c3 == 's' {
                proof {
                    assert(s@ =~= seq!['s', 'e', 'c', 's']);
                }
                return Ok(Precision::Secs);
            }
        } else if n == 5 {
            let c0 = s.get_char(0);
            let c1 = s.get_char(1);
            let c2 = s.get_char(2);
            let c3 = s.get_char(3);
            let c4 = s.get_char(4);
            if c0 == 'w' && c1 == 'e' && c2 == 'e' && c3 == 'k' && c4 == 's' {
                proof {
                    assert(s@ =~= seq!['w', 'e', 'e', 'k', 's']);
                }
                return Ok(Precision::Weeks);
            }
            if c0 == 'h' && c1 == 'o' && c2 == 'u' && c3 == 'r' && c4 == 's' {
                proof {
                    assert(s@ =~= seq!['h', 'o', 'u', 'r', 's']);
                }
                return Ok(Precision::Hours);
            }
            if c0 == 'n' && c1 == 'a' && c2 == 'n' && c3 == 'o' && c4 == 's' {
                proof {
                    assert(s@ =~= seq!['n', 'a', 'n', 'o', 's']);
                }
                return Ok(Precision::Nanos);
            }
        } else if n == 6 {
            let c0 = s.get_char(0);
            let c1 = s.get_char(1);
            let c2 = s.get_char(2);
            let c3 = s.get_char(3);
            let c4 = s.get_char(4);
            let c5 = s.get_char(5);
            if c0 == 'm' && c1 == 'i' && c2 == 'l' && c3 == 'l' && c4 == 'i' && c5 == 's' {
                proof {
                    assert(s@ =~= seq!['m', 'i', 'l', 'l', 'i', 's']);
                }
                return Ok(Precision::Millis);
            }
        }
        Err(TemporalError::UnknownUnit { text: s.to_owned() })
    }

    /// Interprets an epoch stamp at this tier as an instant (shown in
    /// UTC).  `Millis` and `Nanos` stamps are read directly at their own
    /// resolution; every coarser tier is scaled by its seconds per unit.
    pub fn parse(&self, ts: i64) -> (r: Result<Instant, TemporalError>)
        ensures
            r matches Ok(i) ==> stamp_in_range(*self, ts as int) && i == spec_stamp_instant(
                *self,
                ts as int,
            ) && i.wf(),
            r matches Err(e) ==> !stamp_in_range(*self, ts as int) && e is OutOfRange,
    {
        match self {
            Precision::Millis => {
                let secs = ts.checked_div_euclid(1000).unwrap();
                let rem = ts.checked_rem_euclid(1000).unwrap();
                if secs < MIN_EPOCH_SECS || secs > MAX_EPOCH_SECS {
                    return Err(TemporalError::OutOfRange);
                }
                Ok(Instant { secs, nanos: (rem as u32) * 1_000_000, offset_secs: 0 })
            },
            Precision::Nanos => {
                let secs = ts.checked_div_euclid(1_000_000_000).unwrap();
                let rem = ts.checked_rem_euclid(1_000_000_000).unwrap();
                Ok(Instant { secs, nanos: rem as u32, offset_secs: 0 })
            },
            Precision::Secs => {
                if ts < MIN_EPOCH_SECS || ts > MAX_EPOCH_SECS {
                    return Err(TemporalError::OutOfRange);
                }
                Ok(Instant { secs: ts, nanos: 0, offset_secs: 0 })
            },
            _ => {
                let sp = self.seconds_per();
                match ts.checked_mul(sp) {
                    None => Err(TemporalError::OutOfRange),
                    Some(secs) => {
                        if secs < MIN_EPOCH_SECS || secs > MAX_EPOCH_SECS {
                            Err(TemporalError::OutOfRange)
                        } else {
                            Ok(Instant { secs, nanos: 0, offset_secs: 0 })
                        }
                    },
                }
            },
        }
    }

    /// Emits the epoch stamp of an instant at this tier: the inverse of
    /// `parse` for `Secs`, `Millis` and `Nanos`, and a truncating
    /// division for the coarser tiers.
    pub fn as_stamp(&self, dt: &Instant) -> (r: i64)
        requires
            dt.wf(),
            *self is Nanos ==> i64::MIN <= dt.total_nanos() <= i64::MAX,
        ensures
            r == spec_as_stamp(*self, *dt),
    {
        match self {
            Precision::Secs => dt.secs,
            Precision::Millis => dt.secs * 1000 + (dt.nanos / 1_000_000) as i64,
            Precision::Nanos => {
                if dt.secs < 0 {
                    (dt.secs + 1) * 1_000_000_000 + (dt.nanos as i64 - 1_000_000_000)
                } else {
                    dt.secs * 1_000_000_000 + dt.nanos as i64
                }
            },
            _ => {
                let sp = self.seconds_per();
                dt.secs.checked_div(sp).unwrap()
            },
        }
    }

    /// The stamp of an instant at this tier, capped at `Secs` so that no
    /// whole seconds are lost: every tier coarser than `Millis` reports
    /// plain epoch seconds, together with the tier actually used.
    pub fn as_self(&self, dt: &Instant) -> (r: (i64, Precision))
        requires
            dt.wf(),
            *self is Nanos ==> i64::MIN <= dt.total_nanos() <= i64::MAX,
        ensures
            r.1 == (match *self {
                Precision::Nanos => Precision::Nanos,
                Precision::Millis => Precision::Millis,
                _ => Precision::Secs,
            }),
            r.0 == spec_as_stamp(r.1, *dt),
    {
        let tier = match self {
            Precision::Nanos => Precision::Nanos,
            Precision::Millis => Precision::Millis,
            _ => Precision::Secs,
        };
        (tier.as_stamp(dt), tier)
    }
}

/// Round trip: at the lossless tiers (`Secs`, `Millis`, `Nanos`), reading
/// a representable stamp as an instant and emitting it again yields the
/// very stamp that went in.
pub proof fn lemma_stamp_round_trip(p: Precision, ts: i64)
    requires
        p is Secs || p is Millis || p is Nanos,
        stamp_in_range(p, ts as int),
    ensures
        spec_as_stamp(p, spec_stamp_instant(p, ts as int)) == ts,
{
    let t = ts as int;
    match p {
        Precision::Millis => {
            vstd::arithmetic::div_mod::lemma_fundamental_div_mod(t, 1000);
            let r = t % 1000;
            assert(0 <= r < 1000) by {
                vstd::arithmetic::div_mod::lemma_mod_bound(t, 1000);
            }
            assert((1_000_000 * r) / 1_000_000 == r) by {
                vstd::arithmetic::div_mod::lemma_div_multiples_vanish(r, 1_000_000);
            }
        },
        Precision::Nanos => {
            vstd::arithmetic::div_mod::lemma_fundamental_div_mod(t, 1_000_000_000);
            assert(0 <= t % 1_000_000_000 < 1_000_000_000) by {
                vstd::arithmetic::div_mod::lemma_mod_bound(t, 1_000_000_000);
            }
        },
        _ => {},
    }
}

} // verus!
