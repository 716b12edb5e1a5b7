//! The instant model: an absolute point in time with a display offset.

use vstd::prelude::*;

verus! {

/// Epoch seconds of the earliest representable calendar instant
/// (the first second of year -262143).
pub const MIN_EPOCH_SECS: i64 = -8334601228800;

/// Epoch seconds of the latest representable calendar instant
/// (the last second of year 262142).
pub const MAX_EPOCH_SECS: i64 = 8210266876799;

/// Division that truncates toward zero, as the `/` of executable Rust does.
pub open spec fn tdiv(x: int, d: int) -> int
    recommends
        d > 0,
{
    if x >= 0 {
        x / d
    } else {
        -((-x) / d)
    }
}

/// Remainder of the toward-zero division, as the `%` of executable Rust.
pub open spec fn tmod(x: int, d: int) -> int
    recommends
        d > 0,
{
    if x >= 0 {
        x % d
    } else {
        -((-x) % d)
    }
}

/// Bounds of the toward-zero remainder: it shares the sign of the
/// dividend and never exceeds it in magnitude, and stays below the
/// divisor in magnitude.
pub proof fn lemma_tmod_bounds(x: int, d: int)
    requires
        d > 0,
    ensures
        x >= 0 ==> 0 <= tmod(x, d) <= x,
        x < 0 ==> x <= tmod(x, d) <= 0,
        -d < tmod(x, d) < d,
{
    if x >= 0 {
        vstd::arithmetic::div_mod::lemma_mod_bound(x, d);
        if x < d {
            vstd::arithmetic::div_mod::lemma_small_mod(x as nat, d as nat);
        }
    } else {
        vstd::arithmetic::div_mod::lemma_mod_bound(-x, d);
        if -x < d {
            vstd::arithmetic::div_mod::lemma_small_mod((-x) as nat, d as nat);
        }
    }
}

/// An absolute point in time.  `secs` counts whole seconds since the Unix
/// epoch in UTC (floored, so `nanos` is always a forward correction), and
/// `offset_secs` is the local offset from UTC that the instant is displayed
/// with; it does not shift the point in time itself.
#[derive(Copy, Clone, Debug, PartialEq, Eq, Structural)]
pub struct Instant {
    pub secs: i64,
    pub nanos: u32,
    pub offset_secs: i32,
}

impl Instant {
    /// Well-formedness: the instant lies in the representable calendar
    /// range, the subsecond part is a proper fraction, and the offset is
    /// less than a day in magnitude.
    pub open spec fn wf(self) -> bool {
        &&& MIN_EPOCH_SECS <= self.secs <= MAX_EPOCH_SECS
        &&& self.nanos < 1_000_000_000
        &&& -86399 <= self.offset_secs <= 86399
    }

    /// The instant as one exact count of nanoseconds since the epoch.
    pub open spec fn total_nanos(self) -> int {
        self.secs * 1_000_000_000 + self.nanos
    }

    /// Builds an instant from its parts.
    pub fn new(secs: i64, nanos: u32, offset_secs: i32) -> (r: Instant)
        requires
            MIN_EPOCH_SECS <= secs <= MAX_EPOCH_SECS,
            nanos < 1_000_000_000,
            -86399 <= offset_secs <= 86399,
        ensures
            r == (Instant { secs, nanos, offset_secs }),
            r.wf(),
    {
        Instant { secs, nanos, offset_secs }
    }

    /// The same point in time shown under another offset.
    pub fn with_offset(&self, offset_secs: i32) -> (r: Instant)
        requires
            -86399 <= offset_secs <= 86399,
        ensures
            r.secs == self.secs,
            r.nanos == self.nanos,
            r.offset_secs == offset_secs,
            r.total_nanos() == self.total_nanos(),
    {
        Instant { secs: self.secs, nanos: self.nanos, offset_secs }
    }

    /// The instant as one `i64` count of nanoseconds since the epoch, or
    /// none where that count does not fit the type.
    pub fn total_nanos_checked(&self) -> (r: Option<i64>)
        requires
            self.wf(),
        ensures
            r matches Some(v) ==> i64::MIN <= self.total_nanos() <= i64::MAX && v
                == self.total_nanos(),
            r is None ==> !(i64::MIN <= self.total_nanos() <= i64::MAX),
    {
        if self.secs >= -9223372037i64 && self.secs <= 9223372036i64 {
            let ok = if self.secs == -9223372037i64 {
                self.nanos >= 145224192
            } else if self.secs == 9223372036i64 {
                self.nanos <= 854775807
            } else {
                true
            };
            if ok {
                if self.secs < 0 {
                    Some((self.secs + 1) * 1_000_000_000 + (self.nanos as i64 - 1_000_000_000))
                } else {
                    Some(self.secs * 1_000_000_000 + self.nanos as i64)
                }
            } else {
                None
            }
        } else {
            None
        }
    }

    /// The absolute difference between two instants, as whole seconds and
    /// a subsecond nanosecond part.
    pub fn delta(&self, other: &Instant) -> (r: (u64, u32))
        requires
            self.wf(),
            other.wf(),
        ensures
            r.1 < 1_000_000_000,
            r.0 * 1_000_000_000 + r.1 == if self.total_nanos() >= other.total_nanos() {
                self.total_nanos() - other.total_nanos()
            } else {
                other.total_nanos() - self.total_nanos()
            },
    {
        let (hi, lo): (&Instant, &Instant) = if self.secs > other.secs || (self.secs == other.secs
            && self.nanos >= other.nanos) {
            (self, other)
        } else {
            (other, self)
        };
        let mut secs: u64 = (hi.secs - lo.secs) as u64;
        let nanos: u32 = if hi.nanos >= lo.nanos {
            hi.nanos - lo.nanos
        } else {
            secs = secs - 1;
            1_000_000_000 - lo.nanos + hi.nanos
        };
        (secs, nanos)
    }
}

/// The absolute difference of an ordered pair of instants, as the
/// mathematical count of nanoseconds between them.
pub open spec fn spec_delta_nanos(a: Instant, b: Instant) -> int {
    if a.total_nanos() >= b.total_nanos() {
        a.total_nanos() - b.total_nanos()
    } else {
        b.total_nanos() - a.total_nanos()
    }
}

/// The absolute differences between each instant and the next one, in
/// order: one delta per adjacent pair.
pub fn adjacent_deltas(items: &Vec<Instant>) -> (r: Vec<(u64, u32)>)
    requires
        forall|k: int| 0 <= k < items@.len() ==> items@[k].wf(),
        items@.len() >= 1,
    ensures
        r@.len() == items@.len() - 1,
        forall|k: int|
            0 <= k < r@.len() ==> (#[trigger] r@[k]).1 < 1_000_000_000 && r@[k].0 * 1_000_000_000
                + r@[k].1 == spec_delta_nanos(items@[k], items@[k + 1]),
{
    let mut r: Vec<(u64, u32)> = Vec::new();
    let mut i: usize = 0;
    while i < items.len() - 1
        invariant
            forall|k: int| 0 <= k < items@.len() ==> items@[k].wf(),
            items@.len() >= 1,
            i <= items@.len() - 1,
            r@.len() == i,
            forall|k: int|
                0 <= k < r@.len() ==> (#[trigger] r@[k]).1 < 1_000_000_000 && r@[k].0
                    * 1_000_000_000 + r@[k].1 == spec_delta_nanos(items@[k], items@[k + 1]),
        decreases items@.len() - i,
    {
        let d = items[i].delta(&items[i + 1]);
        r.push(d);
        i = i + 1;
    }
    r
}

} // verus!
