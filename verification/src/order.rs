//! Ordering of instants for output.

use vstd::prelude::*;
use vstd::assert_multisets_equal;

use crate::instant::Instant;

verus! {

/// The direction that multiple instants are printed in.
#[derive(Copy, Clone, Debug, PartialEq, Eq, Structural)]
pub enum Order {
    /// Ascending in time.
    ASC,
    /// Descending in time.
    DSC,
}

/// An optional output order.
pub struct OrderArgs {
    pub order: Option<Order>,
}

/// Every instant of the sequence is no later than the ones after it.
pub open spec fn sorted_asc(s: Seq<Instant>) -> bool {
    forall|i: int, j: int|
        0 <= i <= j < s.len() ==> s[i].total_nanos() <= s[j].total_nanos()
}

/// Every instant of the sequence is no earlier than the ones after it.
pub open spec fn sorted_dsc(s: Seq<Instant>) -> bool {
    forall|i: int, j: int|
        0 <= i <= j < s.len() ==> s[i].total_nanos() >= s[j].total_nanos()
}

/// Sitting at exactly the given count of nanoseconds since the epoch.
pub open spec fn same_time(k: int) -> spec_fn(Instant) -> bool {
    |x: Instant| x.total_nanos() == k
}

/// The subsequence of instants at exactly the given point in time, in
/// their original order.  Sorting is stable exactly when every such
/// subsequence comes through unchanged.
pub open spec fn at_time(s: Seq<Instant>, k: int) -> Seq<Instant> {
    s.filter(same_time(k))
}

/// A sequence none of whose elements matches the predicate filters to
/// nothing.
proof fn lemma_filter_none(s: Seq<Instant>, pred: spec_fn(Instant) -> bool)
    requires
        forall|i: int| 0 <= i < s.len() ==> !pred(#[trigger] s[i]),
    ensures
        s.filter(pred) == Seq::<Instant>::empty(),
    decreases s.len(),
{
    reveal(Seq::filter);
    if s.len() > 0 {
        lemma_filter_none(s.drop_last(), pred);
    }
}

/// A one-element sequence filters to itself or to nothing.
proof fn lemma_filter_singleton(x: Instant, pred: spec_fn(Instant) -> bool)
    ensures
        pred(x) ==> seq![x].filter(pred) == seq![x],
        !pred(x) ==> seq![x].filter(pred) == Seq::<Instant>::empty(),
{
    reveal_with_fuel(Seq::filter, 3);
    assert(seq![x].drop_last() =~= Seq::<Instant>::empty());
    if pred(x) {
        assert(seq![x].filter(pred) =~= seq![x]);
    }
}

/// Moving the first element of its own point in time from the pending
/// sequence to the end of the done sequence keeps, for every point in
/// time, the concatenation of the two equal-time subsequences.
proof fn lemma_stable_step(prev_out: Seq<Instant>, prev_v: Seq<Instant>, m: int)
    requires
        0 <= m < prev_v.len(),
        forall|idx: int|
            0 <= idx < m ==> (#[trigger] prev_v[idx]).total_nanos() != prev_v[m].total_nanos(),
    ensures
        forall|k: int|
            #[trigger] at_time(prev_out.push(prev_v[m]), k) + at_time(prev_v.remove(m), k)
                == at_time(prev_out, k) + at_time(prev_v, k),
{
    let x = prev_v[m];
    let pre = prev_v.subrange(0, m);
    let post = prev_v.subrange(m + 1, prev_v.len() as int);
    assert forall|k: int|
        #[trigger] at_time(prev_out.push(x), k) + at_time(prev_v.remove(m), k) == at_time(
            prev_out,
            k,
        ) + at_time(prev_v, k) by {
        broadcast use vstd::seq_lib::group_seq_lib_default;

        let pred = same_time(k);
        assert(prev_v =~= pre + seq![x] + post);
        assert(prev_v.remove(m) =~= pre + post);
        assert(prev_out.push(x) =~= prev_out + seq![x]);
        lemma_filter_singleton(x, pred);
        assert(at_time(prev_v, k) == (pre + seq![x]).filter(pred) + post.filter(pred));
        assert((pre + seq![x]).filter(pred) == pre.filter(pred) + seq![x].filter(pred));
        assert(at_time(prev_out.push(x), k) == prev_out.filter(pred) + seq![x].filter(pred));
        assert(at_time(prev_v.remove(m), k) == pre.filter(pred) + post.filter(pred));
        if pred(x) {
            assert(forall|idx: int| 0 <= idx < pre.len() ==> !pred(#[trigger] pre[idx]));
            lemma_filter_none(pre, pred);
            assert(at_time(prev_out.push(x), k) + at_time(prev_v.remove(m), k) =~= at_time(
                prev_out,
                k,
            ) + at_time(prev_v, k));
        } else {
            assert(at_time(prev_out.push(x), k) + at_time(prev_v.remove(m), k) =~= at_time(
                prev_out,
                k,
            ) + at_time(prev_v, k));
        }
    }
}

/// Whether `a` must come strictly before `b` in the requested
/// direction: strictly earlier ascending, strictly later descending.
fn strictly_first(a: &Instant, b: &Instant, dsc: bool) -> (r: bool)
    requires
        a.wf(),
        b.wf(),
    ensures
        !dsc ==> r == (a.total_nanos() < b.total_nanos()),
        dsc ==> r == (a.total_nanos() > b.total_nanos()),
{
    if dsc {
        b.secs < a.secs || (b.secs == a.secs && b.nanos < a.nanos)
    } else {
        a.secs < b.secs || (a.secs == b.secs && a.nanos < b.nanos)
    }
}

/// Stable selection sort: repeatedly extracts the first occurrence of
/// the earliest (or, descending, the latest) remaining instant, so
/// instants at the same point in time keep their relative order.
fn sort_dir(v: &mut Vec<Instant>, dsc: bool)
    requires
        forall|k: int| 0 <= k < old(v)@.len() ==> old(v)@[k].wf(),
    ensures
        final(v)@.to_multiset() == old(v)@.to_multiset(),
        forall|k: int| 0 <= k < final(v)@.len() ==> final(v)@[k].wf(),
        !dsc ==> sorted_asc(final(v)@),
        dsc ==> sorted_dsc(final(v)@),
        forall|k: int| #[trigger] at_time(final(v)@, k) == at_time(old(v)@, k),
{
    broadcast use vstd::seq_lib::group_to_multiset_ensures;

    let ghost orig = v@;
    let mut out: Vec<Instant> = Vec::new();
    proof {
        assert forall|k: int| #[trigger] at_time(orig, k) == at_time(out@, k) + at_time(
            v@,
            k,
        ) by {
            broadcast use vstd::seq_lib::group_seq_lib_default;

            reveal(Seq::filter);
            assert(at_time(out@, k) =~= Seq::<Instant>::empty());
            assert(at_time(out@, k) + at_time(v@, k) =~= at_time(v@, k));
        }
    }
    while v.len() > 0
        invariant
            forall|k: int| 0 <= k < v@.len() ==> v@[k].wf(),
            forall|k: int| 0 <= k < out@.len() ==> out@[k].wf(),
            out@.to_multiset().add(v@.to_multiset()) == orig.to_multiset(),
            !dsc ==> sorted_asc(out@),
            dsc ==> sorted_dsc(out@),
            forall|i: int, j: int|
                0 <= i < out@.len() && 0 <= j < v@.len() ==> (if dsc {
                    out@[i].total_nanos() >= v@[j].total_nanos()
                } else {
                    out@[i].total_nanos() <= v@[j].total_nanos()
                }),
            forall|k: int| #[trigger] at_time(orig, k) == at_time(out@, k) + at_time(v@, k),
        decreases v@.len(),
    {
        let mut m: usize = 0;
        let mut j: usize = 1;
        while j < v.len()
            invariant
                forall|k: int| 0 <= k < v@.len() ==> v@[k].wf(),
                v@.len() > 0,
                m < j <= v@.len(),
                forall|idx: int|
                    0 <= idx < j ==> (if dsc {
                        v@[m as int].total_nanos() >= v@[idx].total_nanos()
                    } else {
                        v@[m as int].total_nanos() <= v@[idx].total_nanos()
                    }),
                forall|idx: int|
                    0 <= idx < m ==> (if dsc {
                        v@[idx].total_nanos() < v@[m as int].total_nanos()
                    } else {
                        v@[idx].total_nanos() > v@[m as int].total_nanos()
                    }),
            decreases v@.len() - j,
        {
            if strictly_first(&v[j], &v[m], dsc) {
                m = j;
            }
            j = j + 1;
        }
        let ghost prev_out = out@;
        let ghost prev_v = v@;
        let x = v.remove(m);
        out.push(x);
        proof {
            broadcast use vstd::multiset::group_multiset_axioms;

            prev_out.to_multiset_ensures();
            prev_v.to_multiset_ensures();
            assert(x == prev_v[m as int]);
            assert(prev_v.contains(x)) by {
                assert(prev_v[m as int] == x);
            }
            assert(prev_out.push(x).to_multiset() =~= prev_out.to_multiset().insert(x));
            assert(prev_v.remove(m as int).to_multiset() =~= prev_v.to_multiset().remove(x));
            assert(prev_v.to_multiset().count(x) > 0);
            assert_multisets_equal!(
                prev_out.to_multiset().insert(x).add(prev_v.to_multiset().remove(x)),
                prev_out.to_multiset().add(prev_v.to_multiset())
            );
            lemma_stable_step(prev_out, prev_v, m as int);
            assert(out@ == prev_out.push(x));
            assert(v@ == prev_v.remove(m as int));
            assert forall|k: int| #[trigger] at_time(orig, k) == at_time(out@, k) + at_time(
                v@,
                k,
            ) by {
                assert(at_time(prev_out.push(x), k) + at_time(prev_v.remove(m as int), k)
                    == at_time(prev_out, k) + at_time(prev_v, k));
                assert(at_time(orig, k) == at_time(prev_out, k) + at_time(prev_v, k));
            }
        }
    }
    proof {
        assert forall|k: int| #[trigger] at_time(out@, k) == at_time(orig, k) by {
            broadcast use vstd::seq_lib::group_seq_lib_default;

            reveal(Seq::filter);
            assert(at_time(v@, k) =~= Seq::<Instant>::empty());
            assert(at_time(out@, k) + at_time(v@, k) =~= at_time(out@, k));
            assert(at_time(orig, k) == at_time(out@, k) + at_time(v@, k));
        }
    }
    *v = out;
}

impl OrderArgs {
    /// Reorders the instants as requested: ascending, descending, or,
    /// with no order given, exactly as they came.  The sort is stable:
    /// instants at the same point in time keep their relative order.
    pub fn apply(&self, items: &mut Vec<Instant>)
        requires
            forall|k: int| 0 <= k < old(items)@.len() ==> old(items)@[k].wf(),
        ensures
            final(items)@.to_multiset() == old(items)@.to_multiset(),
            forall|k: int| 0 <= k < final(items)@.len() ==> final(items)@[k].wf(),
            self.order is None ==> final(items)@ == old(items)@,
            self.order == Some(Order::ASC) ==> sorted_asc(final(items)@),
            self.order == Some(Order::DSC) ==> sorted_dsc(final(items)@),
            forall|k: int| #[trigger] at_time(final(items)@, k) == at_time(old(items)@, k),
    {
        match self.order {
            None => {},
            Some(Order::ASC) => sort_dir(items, false),
            Some(Order::DSC) => sort_dir(items, true),
        }
    }
}

} // verus!
