//! Laws of the duration parser.
//!
//! A well-formed compound duration string is a list of `<integer><unit>`
//! tokens.  The lemmas here prove that parsing such a string yields
//! exactly the arithmetic sum of each token's contribution, and that the
//! sum — hence the parse — does not depend on the order in which token
//! groups are written.

use vstd::prelude::*;

use crate::format::dec_digits;
use crate::format::digit_char;
use crate::hduration::digit_val;
use crate::hduration::is_digit;
use crate::hduration::is_unit_char;
use crate::hduration::init_acc;
use crate::hduration::parse_spec;
use crate::hduration::scan_from;
use crate::hduration::spec_flush;
use crate::hduration::FlushOut;
use crate::hduration::ScanAcc;
use crate::hduration::ScanOut;
use crate::precision::spec_seconds_per;
use crate::precision::token_of;
use crate::precision::Precision;

verus! {

/// The short code that renders a unit.
pub open spec fn unit_code(p: Precision) -> Seq<char> {
    match p {
        Precision::Weeks => seq!['w'],
        Precision::Days => seq!['d'],
        Precision::Hours => seq!['h'],
        Precision::Mins => seq!['m'],
        Precision::Secs => seq!['s'],
        Precision::Millis => seq!['m', 's'],
        Precision::Nanos => seq!['n', 's'],
    }
}

/// One rendered `<integer><unit>` token.
pub open spec fn token_str(t: (u64, Precision)) -> Seq<char> {
    dec_digits(t.0 as nat) + unit_code(t.1)
}

/// A token list rendered with single spaces between tokens.
pub open spec fn render_tokens(toks: Seq<(u64, Precision)>) -> Seq<char>
    decreases toks.len(),
{
    if toks.len() == 0 {
        Seq::empty()
    } else if toks.len() == 1 {
        token_str(toks[0])
    } else {
        token_str(toks[0]) + seq![' '] + render_tokens(toks.drop_first())
    }
}

/// The whole seconds one token contributes.
pub open spec fn contrib_secs(t: (u64, Precision)) -> int {
    match t.1 {
        Precision::Millis => t.0 as int / 1000,
        Precision::Nanos => t.0 as int / 1_000_000_000,
        _ => t.0 * spec_seconds_per(t.1),
    }
}

/// The nanoseconds one token contributes.
pub open spec fn contrib_nanos(t: (u64, Precision)) -> int {
    match t.1 {
        Precision::Millis => (t.0 as int % 1000) * 1_000_000,
        Precision::Nanos => t.0 as int % 1_000_000_000,
        _ => 0,
    }
}

/// The seconds sum of a token list.
pub open spec fn sum_secs(toks: Seq<(u64, Precision)>) -> int
    decreases toks.len(),
{
    if toks.len() == 0 {
        0
    } else {
        contrib_secs(toks[0]) + sum_secs(toks.drop_first())
    }
}

/// The nanoseconds sum of a token list.
pub open spec fn sum_nanos(toks: Seq<(u64, Precision)>) -> int
    decreases toks.len(),
{
    if toks.len() == 0 {
        0
    } else {
        contrib_nanos(toks[0]) + sum_nanos(toks.drop_first())
    }
}

/// A digit block folded onto an accumulator, most significant first.
pub open spec fn digits_acc(v: int, s: Seq<char>) -> int
    decreases s.len(),
{
    if s.len() == 0 {
        v
    } else {
        digits_acc(v * 10 + digit_val(s.first()), s.drop_first())
    }
}

/// Both contributions of a token are nonnegative.
pub proof fn lemma_contrib_nonneg(t: (u64, Precision))
    ensures
        contrib_secs(t) >= 0,
        contrib_nanos(t) >= 0,
{
}

/// The sums of a token list are nonnegative.
pub proof fn lemma_sums_nonneg(toks: Seq<(u64, Precision)>)
    ensures
        sum_secs(toks) >= 0,
        sum_nanos(toks) >= 0,
    decreases toks.len(),
{
    if toks.len() > 0 {
        lemma_contrib_nonneg(toks[0]);
        lemma_sums_nonneg(toks.drop_first());
    }
}

/// Sums split over concatenation of token lists.
pub proof fn lemma_sums_append(a: Seq<(u64, Precision)>, b: Seq<(u64, Precision)>)
    ensures
        sum_secs(a + b) == sum_secs(a) + sum_secs(b),
        sum_nanos(a + b) == sum_nanos(a) + sum_nanos(b),
    decreases a.len(),
{
    if a.len() == 0 {
        assert(a + b =~= b);
    } else {
        assert((a + b).drop_first() =~= a.drop_first() + b);
        lemma_sums_append(a.drop_first(), b);
    }
}

/// Folding digits never shrinks the accumulator.
pub proof fn lemma_digits_acc_grows(v: int, s: Seq<char>)
    requires
        v >= 0,
        forall|j: int| 0 <= j < s.len() ==> is_digit(s[j]),
    ensures
        digits_acc(v, s) >= v,
    decreases s.len(),
{
    if s.len() > 0 {
        assert(is_digit(s.first()));
        lemma_digits_acc_grows(v * 10 + digit_val(s.first()), s.drop_first());
    }
}

/// Folding digits after a push resolves to one more decimal step.
pub proof fn lemma_digits_acc_push(v: int, s: Seq<char>, c: char)
    ensures
        digits_acc(v, s.push(c)) == digits_acc(v, s) * 10 + digit_val(c),
    decreases s.len(),
{
    reveal_with_fuel(digits_acc, 3);
    if s.len() == 0 {
        assert(s.push(c).first() == c);
        assert(s.push(c).drop_first() =~= Seq::empty());
    } else {
        assert(s.push(c).first() == s.first());
        assert(s.push(c).drop_first() =~= s.drop_first().push(c));
        lemma_digits_acc_push(v * 10 + digit_val(s.first()), s.drop_first(), c);
    }
}

/// The decimal rendering of a number folds back to the number, and each
/// of its characters is a digit.
pub proof fn lemma_dec_digits_value(n: nat)
    ensures
        digits_acc(0, dec_digits(n)) == n,
        forall|j: int| 0 <= j < dec_digits(n).len() ==> is_digit(#[trigger] dec_digits(n)[j]),
        dec_digits(n).len() >= 1,
    decreases n,
{
    reveal_with_fuel(digits_acc, 3);
    if n < 10 {
        assert(is_digit(digit_char(n as int)));
        assert(dec_digits(n) =~= seq![digit_char(n as int)]);
        assert(seq![digit_char(n as int)].drop_first() =~= Seq::<char>::empty());
        assert(digits_acc(0, seq![digit_char(n as int)]) == digit_val(digit_char(n as int)));
        assert(digit_val(digit_char(n as int)) == n);
    } else {
        lemma_dec_digits_value(n / 10);
        lemma_digits_acc_push(0, dec_digits(n / 10), digit_char((n % 10) as int));
        assert(digit_val(digit_char((n % 10) as int)) == n % 10);
        assert(forall|j: int|
            0 <= j < dec_digits(n).len() ==> is_digit(#[trigger] dec_digits(n)[j])) by {
            assert(dec_digits(n) == dec_digits(n / 10).push(digit_char((n % 10) as int)));
            assert(is_digit(digit_char((n % 10) as int)));
        }
    }
}

/// A unit code names its own tier.
pub proof fn lemma_unit_code_token(p: Precision)
    ensures
        token_of(unit_code(p)) == Some(p),
        unit_code(p).len() >= 1,
        forall|j: int| 0 <= j < unit_code(p).len() ==> is_unit_char(#[trigger] unit_code(p)[j]),
{
    assert(seq!['w'].len() == 1 && seq!['d'].len() == 1 && seq!['h'].len() == 1 && seq![
        'm',
    ].len() == 1 && seq!['s'].len() == 1);
    assert(seq!['m', 's'].len() == 2 && seq!['n', 's'].len() == 2);
    assert(seq!['w', 'e', 'e', 'k', 's'].len() == 5 && seq!['h', 'o', 'u', 'r', 's'].len() == 5
        && seq!['n', 'a', 'n', 'o', 's'].len() == 5);
    assert(seq!['d', 'a', 'y', 's'].len() == 4 && seq!['m', 'i', 'n', 's'].len() == 4 && seq![
        's',
        'e',
        'c',
        's',
    ].len() == 4);
    assert(seq!['m', 'i', 'l', 'l', 'i', 's'].len() == 6);
    match p {
        Precision::Weeks => {
            assert(token_of(seq!['w']) == Some(Precision::Weeks));
        },
        Precision::Days => {
            assert(seq!['d'] != seq!['w']) by {
                assert(seq!['d'][0] == 'd' && seq!['w'][0] == 'w');
            }
            assert(token_of(seq!['d']) == Some(Precision::Days));
        },
        Precision::Hours => {
            assert(seq!['h'] != seq!['w']) by {
                assert(seq!['h'][0] == 'h' && seq!['w'][0] == 'w');
            }
            assert(seq!['h'] != seq!['d']) by {
                assert(seq!['h'][0] == 'h' && seq!['d'][0] == 'd');
            }
            assert(token_of(seq!['h']) == Some(Precision::Hours));
        },
        Precision::Mins => {
            assert(seq!['m'] != seq!['w']) by {
                assert(seq!['m'][0] == 'm' && seq!['w'][0] == 'w');
            }
            assert(seq!['m'] != seq!['d']) by {
                assert(seq!['m'][0] == 'm' && seq!['d'][0] == 'd');
            }
            assert(seq!['m'] != seq!['h']) by {
                assert(seq!['m'][0] == 'm' && seq!['h'][0] == 'h');
            }
            assert(token_of(seq!['m']) == Some(Precision::Mins));
        },
        Precision::Secs => {
            assert(seq!['s'] != seq!['w']) by {
                assert(seq!['s'][0] == 's' && seq!['w'][0] == 'w');
            }
            assert(seq!['s'] != seq!['d']) by {
                assert(seq!['s'][0] == 's' && seq!['d'][0] == 'd');
            }
            assert(seq!['s'] != seq!['h']) by {
                assert(seq!['s'][0] == 's' && seq!['h'][0] == 'h');
            }
            assert(seq!['s'] != seq!['m']) by {
                assert(seq!['s'][0] == 's' && seq!['m'][0] == 'm');
            }
            assert(token_of(seq!['s']) == Some(Precision::Secs));
        },
        Precision::Millis => {
            assert(token_of(seq!['m', 's']) == Some(Precision::Millis));
        },
        Precision::Nanos => {
            assert(seq!['n', 's'] != seq!['m', 's']) by {
                assert(seq!['n', 's'][0] == 'n' && seq!['m', 's'][0] == 'm');
            }
            assert(token_of(seq!['n', 's']) == Some(Precision::Nanos));
        },
    }
}

/// Scanning a digit block folds its value into the numeric buffer and
/// moves past it.
pub proof fn lemma_scan_digits(s: Seq<char>, i: int, k: int, a: ScanAcc)
    requires
        0 <= i,
        0 <= k,
        i + k <= s.len(),
        forall|j: int| i <= j < i + k ==> is_digit(#[trigger] s[j]),
        !a.in_unit,
        digits_acc(a.dbuf as int, s.subrange(i, i + k)) <= u64::MAX,
    ensures
        scan_from(s, i, a) == scan_from(
            s,
            i + k,
            ScanAcc { dbuf: digits_acc(a.dbuf as int, s.subrange(i, i + k)) as nat, ..a },
        ),
    decreases k,
{
    let block = s.subrange(i, i + k);
    if k == 0 {
        assert(block =~= Seq::<char>::empty());
        assert(ScanAcc { dbuf: digits_acc(a.dbuf as int, block) as nat, ..a } == a);
    } else {
        let c = s[i];
        assert(block.first() == c);
        assert(block.drop_first() =~= s.subrange(i + 1, i + k));
        assert(is_digit(c));
        assert(c != ' ' && c != '-');
        let d1 = a.dbuf * 10 + digit_val(c);
        assert(digits_acc(a.dbuf as int, block) == digits_acc(d1, s.subrange(i + 1, i + k)));
        assert(d1 >= 0);
        lemma_digits_acc_grows(d1, s.subrange(i + 1, i + k));
        assert(d1 <= u64::MAX);
        let a1 = ScanAcc { dbuf: d1 as nat, ..a };
        assert(scan_from(s, i, a) == scan_from(s, i + 1, a1));
        lemma_scan_digits(s, i + 1, k - 1, a1);
    }
}

/// Scanning a block of unit letters appends them to the unit buffer and
/// moves past them.
pub proof fn lemma_scan_units(s: Seq<char>, i: int, k: int, a: ScanAcc)
    requires
        0 <= i,
        1 <= k,
        i + k <= s.len(),
        forall|j: int| i <= j < i + k ==> is_unit_char(#[trigger] s[j]),
    ensures
        scan_from(s, i, a) == scan_from(
            s,
            i + k,
            ScanAcc { unit: a.unit + s.subrange(i, i + k), in_unit: true, ..a },
        ),
    decreases k,
{
    let c = s[i];
    assert(is_unit_char(c));
    assert(!is_digit(c));
    assert(c != ' ' && c != '-');
    let a1 = ScanAcc { unit: a.unit.push(c), in_unit: true, ..a };
    assert(scan_from(s, i, a) == scan_from(s, i + 1, a1));
    if k == 1 {
        assert(a.unit + s.subrange(i, i + 1) =~= a.unit.push(c));
    } else {
        lemma_scan_units(s, i + 1, k - 1, a1);
        assert(a1.unit + s.subrange(i + 1, i + k) =~= a.unit + s.subrange(i, i + k));
    }
}

/// Scanning a rendered token list from a fresh buffer state adds the
/// sums of its contributions to the running totals.
pub proof fn lemma_scan_token_list(s: Seq<char>, i: int, toks: Seq<(u64, Precision)>, a: ScanAcc)
    requires
        0 <= i <= s.len(),
        s.subrange(i, s.len() as int) == render_tokens(toks),
        toks.len() >= 1,
        a.dbuf == 0,
        a.unit.len() == 0,
        !a.in_unit,
        a.sec + sum_secs(toks) <= u64::MAX,
        a.nano + sum_nanos(toks) <= u32::MAX,
    ensures
        scan_from(s, i, a) == (ScanOut::Parsed {
            sec: (a.sec + sum_secs(toks)) as nat,
            nano: (a.nano + sum_nanos(toks)) as nat,
            neg: a.neg,
        }),
    decreases toks.len(),
{
    let t = toks[0];
    let n = t.0;
    let p = t.1;
    let digits = dec_digits(n as nat);
    let code = unit_code(p);
    let k1 = digits.len() as int;
    let k2 = code.len() as int;
    let rest = toks.drop_first();
    lemma_dec_digits_value(n as nat);
    lemma_unit_code_token(p);
    lemma_contrib_nonneg(t);
    lemma_sums_nonneg(rest);

    let tail = if toks.len() == 1 {
        Seq::<char>::empty()
    } else {
        seq![' '] + render_tokens(rest)
    };
    assert(render_tokens(toks) =~= digits + code + tail);
    let r = s.subrange(i, s.len() as int);
    assert(r.len() == k1 + k2 + tail.len());
    assert(s.len() == i + k1 + k2 + tail.len());
    assert forall|j: int| i <= j < s.len() implies s[j] == (digits + code + tail)[j - i] by {
        assert(s[j] == r[j - i]);
    }

    assert(s.subrange(i, i + k1) =~= digits);
    assert(forall|j: int| i <= j < i + k1 ==> is_digit(#[trigger] s[j]));
    assert(digits_acc(a.dbuf as int, s.subrange(i, i + k1)) == n);
    lemma_scan_digits(s, i, k1, a);
    let a1 = ScanAcc { dbuf: n as nat, ..a };
    assert(scan_from(s, i, a) == scan_from(s, i + k1, a1));

    assert(s.subrange(i + k1, i + k1 + k2) =~= code);
    assert(forall|j: int| i + k1 <= j < i + k1 + k2 ==> is_unit_char(#[trigger] s[j]));
    lemma_scan_units(s, i + k1, k2, a1);
    let a2 = ScanAcc { unit: code, in_unit: true, ..a1 };
    assert(a1.unit + s.subrange(i + k1, i + k1 + k2) =~= code);
    assert(scan_from(s, i + k1, a1) == scan_from(s, i + k1 + k2, a2));

    let b = i + k1 + k2;
    let ds = contrib_secs(t);
    let dn = contrib_nanos(t);
    assert(spec_flush(a2.dbuf, a2.unit) == (FlushOut::Contrib { ds: ds as nat, dn: dn as nat }))
        by {
        assert(token_of(code) == Some(p));
        match p {
            Precision::Millis => {},
            Precision::Nanos => {},
            _ => {
                assert(ds == n * spec_seconds_per(p));
                assert(sum_secs(toks) == ds + sum_secs(rest));
                assert(ds <= u64::MAX);
            },
        }
    }
    assert(sum_secs(toks) == ds + sum_secs(rest));
    assert(sum_nanos(toks) == dn + sum_nanos(rest));
    assert(a.sec + ds <= u64::MAX);
    assert(a.nano + dn <= u32::MAX);

    if toks.len() == 1 {
        assert(b == s.len());
        assert(scan_from(s, b, a2) == (ScanOut::Parsed {
            sec: (a2.sec + ds) as nat,
            nano: (a2.nano + dn) as nat,
            neg: a2.neg,
        }));
        assert(sum_secs(rest) == 0 && sum_nanos(rest) == 0);
    } else {
        assert(s[b] == ' ');
        let a3 = ScanAcc {
            dbuf: 0,
            unit: Seq::empty(),
            in_unit: false,
            sec: (a.sec + ds) as nat,
            nano: (a.nano + dn) as nat,
            neg: a.neg,
        };
        assert(scan_from(s, b, a2) == scan_from(s, b + 1, a3));
        assert(s.subrange(b + 1, s.len() as int) =~= render_tokens(rest));
        lemma_scan_token_list(s, b + 1, rest, a3);
    }
}

/// Law: a compound duration string of well-formed, space-separated
/// `<integer><unit>` tokens parses, unsigned, to exactly the arithmetic
/// sum of each token's contribution of whole seconds and nanoseconds.
pub proof fn lemma_parse_is_token_sum(toks: Seq<(u64, Precision)>)
    requires
        toks.len() >= 1,
        sum_secs(toks) <= u64::MAX,
        sum_nanos(toks) <= u32::MAX,
    ensures
        parse_spec(render_tokens(toks)) == (ScanOut::Parsed {
            sec: sum_secs(toks) as nat,
            nano: sum_nanos(toks) as nat,
            neg: false,
        }),
{
    let s = render_tokens(toks);
    assert(s.subrange(0, s.len() as int) =~= s);
    lemma_sums_nonneg(toks);
    lemma_scan_token_list(s, 0, toks, init_acc());
}

/// Law: the order of token groups in a duration string does not matter;
/// only the arithmetic sum of the contributions shapes the parse.
pub proof fn lemma_parse_order_independent(a: Seq<(u64, Precision)>, b: Seq<(u64, Precision)>)
    requires
        a.len() + b.len() >= 1,
        sum_secs(a) + sum_secs(b) <= u64::MAX,
        sum_nanos(a) + sum_nanos(b) <= u32::MAX,
    ensures
        parse_spec(render_tokens(a + b)) == parse_spec(render_tokens(b + a)),
{
    lemma_sums_append(a, b);
    lemma_sums_append(b, a);
    lemma_sums_nonneg(a);
    lemma_sums_nonneg(b);
    lemma_parse_is_token_sum(a + b);
    lemma_parse_is_token_sum(b + a);
}

/// Removing one token takes exactly its contribution out of the sums.
pub proof fn lemma_sums_remove(t: Seq<(u64, Precision)>, j: int)
    requires
        0 <= j < t.len(),
    ensures
        sum_secs(t.remove(j)) == sum_secs(t) - contrib_secs(t[j]),
        sum_nanos(t.remove(j)) == sum_nanos(t) - contrib_nanos(t[j]),
    decreases t.len(),
{
    if j == 0 {
        assert(t.remove(0) =~= t.drop_first());
    } else {
        assert(t.remove(j).drop_first() =~= t.drop_first().remove(j - 1));
        assert(t.remove(j)[0] == t[0]);
        lemma_sums_remove(t.drop_first(), j - 1);
    }
}

/// Token lists that hold the same tokens, in any order, have the same
/// sums.
pub proof fn lemma_sums_permutation(t1: Seq<(u64, Precision)>, t2: Seq<(u64, Precision)>)
    requires
        t1.to_multiset() == t2.to_multiset(),
    ensures
        sum_secs(t1) == sum_secs(t2),
        sum_nanos(t1) == sum_nanos(t2),
    decreases t1.len(),
{
    t1.to_multiset_ensures();
    t2.to_multiset_ensures();
    if t1.len() == 0 {
        assert(t2.len() == 0);
    } else {
        let x = t1[0];
        assert(t1.contains(x));
        assert(t1.to_multiset().count(x) > 0);
        assert(t2.to_multiset().count(x) > 0);
        assert(t2.contains(x));
        let j = choose|j: int| 0 <= j < t2.len() && t2[j] == x;
        assert(t1.remove(0).to_multiset() =~= t1.to_multiset().remove(x));
        assert(t2.remove(j).to_multiset() =~= t2.to_multiset().remove(t2[j]));
        assert(t1.remove(0).to_multiset() == t2.remove(j).to_multiset());
        lemma_sums_permutation(t1.remove(0), t2.remove(j));
        lemma_sums_remove(t1, 0);
        lemma_sums_remove(t2, j);
    }
}

/// Law: two duration strings whose token lists are permutations of each
/// other parse to the very same value — the token order never matters,
/// only the arithmetic sum of the contributions.
pub proof fn lemma_parse_permutation(t1: Seq<(u64, Precision)>, t2: Seq<(u64, Precision)>)
    requires
        t1.to_multiset() == t2.to_multiset(),
        t1.len() >= 1,
        sum_secs(t1) <= u64::MAX,
        sum_nanos(t1) <= u32::MAX,
    ensures
        parse_spec(render_tokens(t1)) == parse_spec(render_tokens(t2)),
{
    t1.to_multiset_ensures();
    t2.to_multiset_ensures();
    assert(t2.len() == t1.len());
    lemma_sums_permutation(t1, t2);
    lemma_parse_is_token_sum(t1);
    lemma_parse_is_token_sum(t2);
}

} // verus!
