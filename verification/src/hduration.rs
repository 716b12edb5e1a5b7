//! The compound duration parser.
//!
//! A duration string such as `"-1w 5d2h 10m7s1ns"` is read in one
//! left-to-right pass: an optional leading `-` applies one sign to the
//! whole value, and then `<integer><unit>` tokens follow, separated by a
//! single space or directly concatenated.  The semantics of the pass is
//! the spec state machine `scan_from` below; the executable parser is
//! proved to implement it exactly.

use vstd::prelude::*;
use vstd::string::StrSliceExecFns;

use crate::errors::TemporalError;
use crate::precision::token_of;
use crate::precision::spec_seconds_per;
use crate::precision::Precision;

verus! {

/// A digit character.
pub open spec fn is_digit(c: char) -> bool {
    48 <= c as u32 <= 57
}

/// The numeric value of a digit character.
pub open spec fn digit_val(c: char) -> int {
    c as u32 - 48
}

/// A letter that may occur inside a unit token.
pub open spec fn is_unit_char(c: char) -> bool {
    c == 'm' || c == 's' || c == 'n' || c == 'd' || c == 'h' || c == 'w'
}

/// Why a scan rejects its input.
pub enum ParseIssue {
    /// A character no position allows.
    BadChar { c: char, at: int },
    /// A sign anywhere but at the very front.
    BadSign,
    /// A unit token that names no tier.
    BadUnit { unit: Seq<char> },
    /// Digits flushed with no unit letters after them.
    NoUnit,
    /// An accumulation that would overflow its integer type.
    TooBig,
}

/// The running state of the scan: the pending numeric buffer, the pending
/// unit letters, whether the scan stands inside a unit token, and the
/// totals gathered so far.
pub struct ScanAcc {
    pub dbuf: nat,
    pub unit: Seq<char>,
    pub in_unit: bool,
    pub sec: nat,
    pub nano: nat,
    pub neg: bool,
}

/// The scan state at the start of the input.
pub open spec fn init_acc() -> ScanAcc {
    ScanAcc { dbuf: 0, unit: Seq::empty(), in_unit: false, sec: 0, nano: 0, neg: false }
}

/// What resolving one pending `(number, unit)` pair yields.
pub enum FlushOut {
    /// The pair's contribution: whole seconds and nanoseconds.
    Contrib { ds: nat, dn: nat },
    /// The pair is rejected.
    Reject { issue: ParseIssue },
}

/// The outcome of a whole scan.
pub enum ScanOut {
    /// Totals of all tokens, and the sign.
    Parsed { sec: nat, nano: nat, neg: bool },
    Fail { issue: ParseIssue },
}

/// Resolves a pending `(number, unit)` pair.  A `Millis` token carries
/// its sub-second remainder as milliseconds-worth of nanoseconds, a
/// `Nanos` token carries it directly, and every coarser unit contributes
/// whole seconds only, rejected if the product overflows.
pub open spec fn spec_flush(dbuf: nat, unit: Seq<char>) -> FlushOut {
    if unit.len() == 0 {
        FlushOut::Reject { issue: ParseIssue::NoUnit }
    } else {
        match token_of(unit) {
            None => FlushOut::Reject { issue: ParseIssue::BadUnit { unit } },
            Some(p) => match p {
                Precision::Millis => FlushOut::Contrib {
                    ds: dbuf / 1000,
                    dn: (dbuf % 1000) * 1_000_000,
                },
                Precision::Nanos => FlushOut::Contrib {
                    ds: dbuf / 1_000_000_000,
                    dn: dbuf % 1_000_000_000,
                },
                _ => if dbuf * spec_seconds_per(p) <= u64::MAX {
                    FlushOut::Contrib { ds: (dbuf * spec_seconds_per(p)) as nat, dn: 0 }
                } else {
                    FlushOut::Reject { issue: ParseIssue::TooBig }
                },
            },
        }
    }
}

/// One scan step: what the machine decides at position `i` in state `a`.
/// A space, the end of the input, or a digit met while inside a unit
/// token flushes the pending pair into the totals with overflow checks.
pub open spec fn scan_from(s: Seq<char>, i: int, a: ScanAcc) -> ScanOut
    recommends
        0 <= i <= s.len(),
    decreases s.len() - i,
{
    if i < 0 || i >= s.len() {
        match spec_flush(a.dbuf, a.unit) {
            FlushOut::Reject { issue } => ScanOut::Fail { issue },
            FlushOut::Contrib { ds, dn } => {
                if a.sec + ds > u64::MAX || a.nano + dn > u32::MAX {
                    ScanOut::Fail { issue: ParseIssue::TooBig }
                } else {
                    ScanOut::Parsed {
                        sec: (a.sec + ds) as nat,
                        nano: (a.nano + dn) as nat,
                        neg: a.neg,
                    }
                }
            },
        }
    } else {
        let c = s[i];
        if c == ' ' {
            match spec_flush(a.dbuf, a.unit) {
                FlushOut::Reject { issue } => ScanOut::Fail { issue },
                FlushOut::Contrib { ds, dn } => {
                    if a.sec + ds > u64::MAX || a.nano + dn > u32::MAX {
                        ScanOut::Fail { issue: ParseIssue::TooBig }
                    } else {
                        scan_from(
                            s,
                            i + 1,
                            ScanAcc {
                                dbuf: 0,
                                unit: Seq::empty(),
                                in_unit: false,
                                sec: (a.sec + ds) as nat,
                                nano: (a.nano + dn) as nat,
                                neg: a.neg,
                            },
                        )
                    }
                },
            }
        } else if c == '-' {
            if i == 0 {
                scan_from(s, i + 1, ScanAcc { neg: true, ..a })
            } else {
                ScanOut::Fail { issue: ParseIssue::BadSign }
            }
        } else if is_digit(c) {
            if a.in_unit {
                match spec_flush(a.dbuf, a.unit) {
                    FlushOut::Reject { issue } => ScanOut::Fail { issue },
                    FlushOut::Contrib { ds, dn } => {
                        if a.sec + ds > u64::MAX || a.nano + dn > u32::MAX {
                            ScanOut::Fail { issue: ParseIssue::TooBig }
                        } else {
                            scan_from(
                                s,
                                i + 1,
                                ScanAcc {
                                    dbuf: digit_val(c) as nat,
                                    unit: Seq::empty(),
                                    in_unit: false,
                                    sec: (a.sec + ds) as nat,
                                    nano: (a.nano + dn) as nat,
                                    neg: a.neg,
                                },
                            )
                        }
                    },
                }
            } else if a.dbuf * 10 + digit_val(c) > u64::MAX {
                ScanOut::Fail { issue: ParseIssue::TooBig }
            } else {
                scan_from(s, i + 1, ScanAcc { dbuf: (a.dbuf * 10 + digit_val(c)) as nat, ..a })
            }
        } else if is_unit_char(c) {
            scan_from(s, i + 1, ScanAcc { unit: a.unit.push(c), in_unit: true, ..a })
        } else {
            ScanOut::Fail { issue: ParseIssue::BadChar { c, at: i } }
        }
    }
}

/// The semantics of a whole duration string.
pub open spec fn parse_spec(s: Seq<char>) -> ScanOut {
    scan_from(s, 0, init_acc())
}

/// Whether an executable error value renders a scan issue.
pub open spec fn err_matches(e: TemporalError, issue: ParseIssue) -> bool {
    match issue {
        ParseIssue::BadChar { c, at } => (e matches TemporalError::InvalidCharacter { ch, pos }
            && ch == c && pos == at),
        ParseIssue::BadSign => e is MisplacedSign,
        ParseIssue::BadUnit { unit } => (e matches TemporalError::UnknownUnit { text } && text@
            == unit),
        ParseIssue::NoUnit => e is MissingUnit,
        ParseIssue::TooBig => e is DurationTooLarge,
    }
}

/// A parsed duration: whole seconds, a sub-second nanosecond part, and
/// one sign for the whole value.  The subsecond part is kept below one
/// second; any overflow was carried into `secs` on construction.
#[derive(Clone, Debug, PartialEq)]
pub struct HDuration {
    pub secs: u64,
    pub nanos: u32,
    pub negative: bool,
    pub readable: String,
}

impl HDuration {
    /// The human-readable text the duration was built from.
    pub open spec fn readable_view(self) -> Seq<char> {
        self.readable@
    }

    /// The sub-second part is a proper fraction of a second.
    pub open spec fn wf(self) -> bool {
        self.nanos < 1_000_000_000
    }

    /// Builds a duration, carrying whole seconds out of the nanosecond
    /// argument so that the stored sub-second part stays below one second.
    pub fn new(sec: u64, nano: u32, negative: bool, readable: &str) -> (r: HDuration)
        requires
            sec + nano as int / 1_000_000_000 <= u64::MAX,
        ensures
            r.secs == sec + nano as int / 1_000_000_000,
            r.nanos == nano as int % 1_000_000_000,
            r.negative == negative,
            r.readable_view() == readable@,
            r.wf(),
    {
        let carry = nano / 1_000_000_000;
        HDuration {
            secs: sec + carry as u64,
            nanos: nano % 1_000_000_000,
            negative,
            readable: readable.to_owned(),
        }
    }

    /// The text the duration was built from.
    pub fn text(&self) -> (r: &str)
        ensures
            r@ == self.readable_view(),
    {
        self.readable.as_str()
    }

    /// Parses a compound duration string.  The result is exactly what the
    /// scan machine yields on the string's characters, with the final
    /// nanosecond total carried into whole seconds.
    pub fn from_str(s: &str) -> (r: Result<HDuration, TemporalError>)
        ensures
            r matches Ok(d) ==> (parse_spec(s@) matches ScanOut::Parsed { sec, nano, neg } && sec
                + nano / 1_000_000_000 <= u64::MAX && d.secs == sec + nano / 1_000_000_000
                && d.nanos == nano % 1_000_000_000 && d.negative == neg && d.readable_view() == s@
                && d.wf()),
            r matches Err(e) ==> (parse_spec(s@) matches ScanOut::Fail { issue } && err_matches(
                e,
                issue,
            )) || (parse_spec(s@) matches ScanOut::Parsed { sec, nano, neg } && sec + nano
                / 1_000_000_000 > u64::MAX && e is DurationTooLarge),
    {
        let n = s.unicode_len();
        let mut sec: u64 = 0;
        let mut nano: u32 = 0;
        let mut is_neg = false;
        let mut dbuf: u64 = 0;
        let mut in_unit = false;
        let mut ustart: usize = 0;
        let mut uend: usize = 0;
        let mut i: usize = 0;

        proof {
            assert(s@.subrange(0, 0) =~= Seq::<char>::empty());
        }

        while i < n
            invariant
                n == s@.len(),
                i <= n,
                ustart <= uend <= i,
                in_unit == (uend > ustart),
                in_unit ==> uend == i,
                !in_unit ==> ustart == uend,
                parse_spec(s@) == scan_from(
                    s@,
                    i as int,
                    ScanAcc {
                        dbuf: dbuf as nat,
                        unit: s@.subrange(ustart as int, uend as int),
                        in_unit,
                        sec: sec as nat,
                        nano: nano as nat,
                        neg: is_neg,
                    },
                ),
            decreases n - i,
        {
            let ghost acc = ScanAcc {
                dbuf: dbuf as nat,
                unit: s@.subrange(ustart as int, uend as int),
                in_unit,
                sec: sec as nat,
                nano: nano as nat,
                neg: is_neg,
            };
            let c = s.get_char(i);
            if c == ' ' {
                let cbuf = s.substring_char(ustart, uend);
                let (ds, dn) = match flush(dbuf, cbuf) {
                    Ok(pair) => pair,
                    Err(e) => {
                        proof {
                            assert(scan_from(s@, i as int, acc) matches ScanOut::Fail { issue }
                                && err_matches(e, issue));
                        }
                        return Err(e);
                    },
                };
                sec = match sec.checked_add(ds) {
                    Some(v) => v,
                    None => {
                        proof {
                            assert(scan_from(s@, i as int, acc) == (ScanOut::Fail {
                                issue: ParseIssue::TooBig,
                            }));
                        }
                        return Err(TemporalError::DurationTooLarge);
                    },
                };
                nano = match nano.checked_add(dn) {
                    Some(v) => v,
                    None => {
                        proof {
                            assert(scan_from(s@, i as int, acc) == (ScanOut::Fail {
                                issue: ParseIssue::TooBig,
                            }));
                        }
                        return Err(TemporalError::DurationTooLarge);
                    },
                };
                dbuf = 0;
                ustart = i + 1;
                uend = i + 1;
                in_unit = false;
                proof {
                    assert(s@.subrange(i + 1, i + 1) =~= Seq::<char>::empty());
                    assert(scan_from(s@, i as int, acc) == scan_from(
                        s@,
                        i + 1,
                        ScanAcc {
                            dbuf: 0,
                            unit: s@.subrange(i + 1, i + 1),
                            in_unit: false,
                            sec: sec as nat,
                            nano: nano as nat,
                            neg: is_neg,
                        },
                    ));
                }
            } else if c == '-' {
                if i == 0 {
                    is_neg = true;
                    proof {
                        assert(scan_from(s@, i as int, acc) == scan_from(
                            s@,
                            i + 1,
                            ScanAcc { neg: true, ..acc },
                        ));
                    }
                } else {
                    proof {
                        assert(scan_from(s@, i as int, acc) == (ScanOut::Fail {
                            issue: ParseIssue::BadSign,
                        }));
                    }
                    return Err(TemporalError::MisplacedSign);
                }
            } else {
                let cv = c as u32;
                if cv >= 48 && cv <= 57 {
                    let d = (cv - 48) as u64;
                    if in_unit {
                        let cbuf = s.substring_char(ustart, uend);
                        let (ds, dn) = match flush(dbuf, cbuf) {
                            Ok(pair) => pair,
                            Err(e) => {
                                proof {
                                    assert(scan_from(s@, i as int, acc) matches ScanOut::Fail {
                                        issue,
                                    } && err_matches(e, issue));
                                }
                                return Err(e);
                            },
                        };
                        sec = match sec.checked_add(ds) {
                            Some(v) => v,
                            None => {
                                proof {
                                    assert(scan_from(s@, i as int, acc) == (ScanOut::Fail {
                                        issue: ParseIssue::TooBig,
                                    }));
                                }
                                return Err(TemporalError::DurationTooLarge);
                            },
                        };
                        nano = match nano.checked_add(dn) {
                            Some(v) => v,
                            None => {
                                proof {
                                    assert(scan_from(s@, i as int, acc) == (ScanOut::Fail {
                                        issue: ParseIssue::TooBig,
                                    }));
                                }
                                return Err(TemporalError::DurationTooLarge);
                            },
                        };
                        dbuf = d;
                        ustart = i + 1;
                        uend = i + 1;
                        in_unit = false;
                        proof {
                            assert(s@.subrange(i + 1, i + 1) =~= Seq::<char>::empty());
                            assert(scan_from(s@, i as int, acc) == scan_from(
                                s@,
                                i + 1,
                                ScanAcc {
                                    dbuf: dbuf as nat,
                                    unit: s@.subrange(i + 1, i + 1),
                                    in_unit: false,
                                    sec: sec as nat,
                                    nano: nano as nat,
                                    neg: is_neg,
                                },
                            ));
                        }
                    } else {
                        let grown = match dbuf.checked_mul(10) {
                            Some(v) => v.checked_add(d),
                            None => None,
                        };
                        dbuf = match grown {
                            Some(v) => v,
                            None => {
                                proof {
                                    assert(scan_from(s@, i as int, acc) == (ScanOut::Fail {
                                        issue: ParseIssue::TooBig,
                                    }));
                                }
                                return Err(TemporalError::DurationTooLarge);
                            },
                        };
                        proof {
                            assert(scan_from(s@, i as int, acc) == scan_from(
                                s@,
                                i + 1,
                                ScanAcc { dbuf: dbuf as nat, ..acc },
                            ));
                        }
                    }
                } else if c == 'm' || c == 's' || c == 'n' || c == 'd' || c == 'h' || c == 'w' {
                    if !in_unit {
                        ustart = i;
                        uend = i;
                        proof {
                            assert(acc.unit =~= s@.subrange(i as int, i as int));
                        }
                    }
                    uend = uend + 1;
                    in_unit = true;
                    proof {
                        assert(s@.subrange(ustart as int, i + 1) =~= s@.subrange(
                            ustart as int,
                            i as int,
                        ).push(s@[i as int]));
                        assert(scan_from(s@, i as int, acc) == scan_from(
                            s@,
                            i + 1,
                            ScanAcc {
                                unit: s@.subrange(ustart as int, i + 1),
                                in_unit: true,
                                ..acc
                            },
                        ));
                    }
                } else {
                    proof {
                        assert(scan_from(s@, i as int, acc) == (ScanOut::Fail {
                            issue: ParseIssue::BadChar { c, at: i as int },
                        }));
                    }
                    return Err(TemporalError::InvalidCharacter { ch: c, pos: i });
                }
            }
            i = i + 1;
        }

        let ghost acc = ScanAcc {
            dbuf: dbuf as nat,
            unit: s@.subrange(ustart as int, uend as int),
            in_unit,
            sec: sec as nat,
            nano: nano as nat,
            neg: is_neg,
        };
        let cbuf = s.substring_char(ustart, uend);
        let (ds, dn) = match flush(dbuf, cbuf) {
            Ok(pair) => pair,
            Err(e) => {
                proof {
                    assert(scan_from(s@, i as int, acc) matches ScanOut::Fail { issue }
                        && err_matches(e, issue));
                }
                return Err(e);
            },
        };
        sec = match sec.checked_add(ds) {
            Some(v) => v,
            None => {
                proof {
                    assert(scan_from(s@, i as int, acc) == (ScanOut::Fail {
                        issue: ParseIssue::TooBig,
                    }));
                }
                return Err(TemporalError::DurationTooLarge);
            },
        };
        nano = match nano.checked_add(dn) {
            Some(v) => v,
            None => {
                proof {
                    assert(scan_from(s@, i as int, acc) == (ScanOut::Fail {
                        issue: ParseIssue::TooBig,
                    }));
                }
                return Err(TemporalError::DurationTooLarge);
            },
        };
        proof {
            assert(scan_from(s@, i as int, acc) == (ScanOut::Parsed {
                sec: sec as nat,
                nano: nano as nat,
                neg: is_neg,
            }));
        }
        let carry = (nano / 1_000_000_000) as u64;
        if sec > u64::MAX - carry {
            return Err(TemporalError::DurationTooLarge);
        }
        Ok(HDuration::new(sec, nano, is_neg, s))
    }
}

/// Resolves one pending `(number, unit)` pair into its contribution of
/// whole seconds and nanoseconds, exactly as the scan machine's flush
/// does.
pub fn flush(dbuf: u64, cbuf: &str) -> (r: Result<(u64, u32), TemporalError>)
    ensures
        r matches Ok(c) ==> spec_flush(dbuf as nat, cbuf@) == (FlushOut::Contrib {
            ds: c.0 as nat,
            dn: c.1 as nat,
        }),
        r matches Err(e) ==> (spec_flush(dbuf as nat, cbuf@) matches FlushOut::Reject { issue }
            && err_matches(e, issue)),
{
    if cbuf.unicode_len() == 0 {
        return Err(TemporalError::MissingUnit);
    }
    let p = match Precision::parse_token(cbuf) {
        Ok(p) => p,
        Err(e) => {
            return Err(e);
        },
    };
    match p {
        Precision::Millis => Ok((dbuf / 1000, ((dbuf % 1000) as u32) * 1_000_000)),
        Precision::Nanos => Ok((dbuf / 1_000_000_000, (dbuf % 1_000_000_000) as u32)),
        _ => {
            let sp = p.seconds_per();
            match dbuf.checked_mul(sp as u64) {
                Some(ds) => Ok((ds, 0)),
                None => Err(TemporalError::DurationTooLarge),
            }
        },
    }
}

} // verus!
