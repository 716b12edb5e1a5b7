//! Output formatting: strftime-style date strings or plain stamps.

use vstd::prelude::*;
use vstd::string::StringExecFns;

use crate::instant::Instant;
use crate::instant::MAX_EPOCH_SECS;
use crate::instant::MIN_EPOCH_SECS;
use crate::precision::spec_as_stamp;
use crate::precision::Precision;

verus! {

/// The digit character of a value below ten.
pub open spec fn digit_char(d: int) -> char {
    if d == 0 {
        '0'
    } else if d == 1 {
        '1'
    } else if d == 2 {
        '2'
    } else if d == 3 {
        '3'
    } else if d == 4 {
        '4'
    } else if d == 5 {
        '5'
    } else if d == 6 {
        '6'
    } else if d == 7 {
        '7'
    } else if d == 8 {
        '8'
    } else {
        '9'
    }
}

/// The decimal digits of a natural number, most significant first.
pub open spec fn dec_digits(n: nat) -> Seq<char>
    decreases n,
{
    if n < 10 {
        seq![digit_char(n as int)]
    } else {
        dec_digits(n / 10).push(digit_char((n % 10) as int))
    }
}

/// The decimal rendering of a signed number: a leading `-` for negative
/// values, then the digits.
pub open spec fn dec_rep_i64(n: int) -> Seq<char> {
    if n < 0 {
        seq!['-'] + dec_digits((-n) as nat)
    } else {
        dec_digits(n as nat)
    }
}

/// Whether chrono's strftime reader finds an unknown specifier in the
/// format string.
pub uninterp spec fn strftime_bad(s: Seq<char>) -> bool;

/// What chrono renders an instant as, under a given strftime format
/// string: a function of the instant's parts and the format alone.
pub uninterp spec fn strftime_of(secs: i64, nanos: u32, offset_secs: i32, f: Seq<char>) -> Seq<
    char,
>;

/// Relies on chrono's `StrftimeItems`: whether any item of the format
/// string fails to parse.
#[verifier::external_body]
fn strftime_has_error(s: &str) -> (r: bool)
    ensures
        r == strftime_bad(s@),
{
    chrono::format::StrftimeItems::new(s).any(|v| matches!(v, chrono::format::Item::Error))
}

/// Relies on chrono's `DateTime::format`: renders the instant, shown at
/// its own offset, under the format string.  The instant must be in the
/// calendar range and the format free of bad specifiers, as chrono's
/// display panics on a bad item.
#[verifier::external_body]
fn strftime_render(secs: i64, nanos: u32, offset_secs: i32, f: &str) -> (r: String)
    requires
        MIN_EPOCH_SECS <= secs <= MAX_EPOCH_SECS,
        nanos < 1_000_000_000,
        -86399 <= offset_secs <= 86399,
        !strftime_bad(f@),
    ensures
        r@ == strftime_of(secs, nanos, offset_secs, f@),
{
    let offset = chrono::FixedOffset::east_opt(offset_secs).unwrap();
    let dt = chrono::DateTime::from_timestamp(secs, nanos).unwrap().with_timezone(&offset);
    dt.format(f).to_string()
}

/// The one-character string of a digit value.
fn digit_str(d: u64) -> (r: &'static str)
    requires
        d < 10,
    ensures
        r@ == seq![digit_char(d as int)],
{
    if d == 0 {
        proof {
            reveal_strlit("0");
            assert("0"@ =~= seq!['0']);
        }
        return "0";
    }
    if d == 1 {
        proof {
            reveal_strlit("1");
            assert("1"@ =~= seq!['1']);
        }
        return "1";
    }
    if d == 2 {
        proof {
            reveal_strlit("2");
            assert("2"@ =~= seq!['2']);
        }
        return "2";
    }
    if d == 3 {
        proof {
            reveal_strlit("3");
            assert("3"@ =~= seq!['3']);
        }
        return "3";
    }
    if d == 4 {
        proof {
            reveal_strlit("4");
            assert("4"@ =~= seq!['4']);
        }
        return "4";
    }
    if d == 5 {
        proof {
            reveal_strlit("5");
            assert("5"@ =~= seq!['5']);
        }
        return "5";
    }
    if d == 6 {
        proof {
            reveal_strlit("6");
            assert("6"@ =~= seq!['6']);
        }
        return "6";
    }
    if d == 7 {
        proof {
            reveal_strlit("7");
            assert("7"@ =~= seq!['7']);
        }
        return "7";
    }
    if d == 8 {
        proof {
            reveal_strlit("8");
            assert("8"@ =~= seq!['8']);
        }
        return "8";
    }
    proof {
        reveal_strlit("9");
        assert("9"@ =~= seq!['9']);
    }
    "9"
}

/// Renders a natural number in decimal, most significant digit first.
fn to_decimal(n: u64) -> (r: String)
    ensures
        r@ == dec_digits(n as nat),
    decreases n,
{
    let d = digit_str(n % 10);
    if n < 10 {
        d.to_owned()
    } else {
        let mut s = to_decimal(n / 10);
        s.append(d);
        proof {
            assert(dec_digits((n / 10) as nat).push(digit_char((n % 10) as int)) =~= dec_digits(
                (n / 10) as nat,
            ) + seq![digit_char((n % 10) as int)]);
        }
        s
    }
}

/// Renders a signed number in decimal: a minus sign for negative
/// values, then the digits, most significant first.
fn i64_to_string(n: i64) -> (r: String)
    ensures
        r@ == dec_rep_i64(n as int),
{
    if n >= 0 {
        to_decimal(n as u64)
    } else {
        let mag = ((-(n + 1)) as u64) + 1;
        proof {
            assert(mag == -(n as int));
        }
        let digits = to_decimal(mag);
        let mut s = String::new();
        s.append("-");
        s.append(digits.as_str());
        proof {
            reveal_strlit("-");
            assert("-"@ =~= seq!['-']);
            assert(s@ =~= seq!['-'] + dec_digits(mag as nat));
        }
        s
    }
}

/// A validated strftime-style format string.
#[derive(Clone, Debug, PartialEq)]
pub struct Format(pub String);

impl Format {
    /// Accepts a format string only where chrono knows each specifier.
    pub fn parse(s: &str) -> (r: Option<Format>)
        ensures
            r matches Some(f) ==> !strftime_bad(s@) && f.0@ == s@,
            r is None ==> strftime_bad(s@),
    {
        if strftime_has_error(s) {
            None
        } else {
            Some(Format(s.to_owned()))
        }
    }
}

/// How instants are printed: as date strings under a format, or, with no
/// format, as plain stamps at a precision.
pub struct FormatArgs {
    pub output_format: Option<Format>,
    pub precision: Precision,
}

impl FormatArgs {
    /// Renders one instant: the strftime rendering where a format is
    /// set, else the decimal stamp at the configured precision.
    pub fn format(&self, dt: &Instant) -> (r: String)
        requires
            dt.wf(),
            self.output_format matches Some(f) ==> !strftime_bad(f.0@),
            self.output_format is None && self.precision is Nanos ==> i64::MIN
                <= dt.total_nanos() <= i64::MAX,
        ensures
            r@ == (match self.output_format {
                Some(f) => strftime_of(dt.secs, dt.nanos, dt.offset_secs, f.0@),
                None => dec_rep_i64(spec_as_stamp(self.precision, *dt)),
            }),
    {
        match &self.output_format {
            Some(f) => strftime_render(dt.secs, dt.nanos, dt.offset_secs, f.0.as_str()),
            None => i64_to_string(self.precision.as_stamp(dt)),
        }
    }

    /// Renders one instant after checking what `format` assumes: a
    /// format string that chrono rejects, or a nanosecond stamp too wide
    /// for its type, yields `None`.
    pub fn try_format(&self, dt: &Instant) -> (r: Option<String>)
        requires
            dt.wf(),
        ensures
            (match r {
                Some(out) => (self.output_format matches Some(f) ==> !strftime_bad(f.0@)) && out@
                    == (match self.output_format {
                    Some(f) => strftime_of(dt.secs, dt.nanos, dt.offset_secs, f.0@),
                    None => dec_rep_i64(spec_as_stamp(self.precision, *dt)),
                }),
                None => (self.output_format matches Some(f) && strftime_bad(f.0@)) || (
                self.output_format is None && self.precision is Nanos && !(i64::MIN
                    <= dt.total_nanos() <= i64::MAX)),
            }),
    {
        match &self.output_format {
            Some(f) => {
                if strftime_has_error(f.0.as_str()) {
                    return None;
                }
            },
            None => {
                let nanos_wide = match self.precision {
                    Precision::Nanos => dt.total_nanos_checked().is_none(),
                    _ => false,
                };
                if nanos_wide {
                    return None;
                }
            },
        }
        Some(self.format(dt))
    }
}

} // verus!
