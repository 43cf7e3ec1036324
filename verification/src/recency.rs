//! Newest-first ordering of dated records, as a stable sort by creation stamp,
//! descending, would leave them: a later stamp comes first, and records with
//! the same stamp keep the order they arrived in.

use vstd::prelude::*;
use crate::text::{lemma_lex_irreflexive, lemma_lex_total, lemma_lex_transitive, lex_lt, str_lt};

verus! {

/// A record that carries a creation stamp (an ISO-8601 timestamp string, so
/// that the string order is the time order).
pub trait Dated {
    /// The creation stamp.
    spec fn stamp(&self) -> Seq<char>;

    /// The creation stamp, as stored.
    fn created_at(&self) -> (r: &String)
        ensures
            r@ == self.stamp(),
    ;
}

/// Where a record stamped `x` goes among `r`: after every record whose stamp is
/// not earlier than `x`.
pub open spec fn slot<T: Dated>(r: Seq<T>, x: Seq<char>) -> int
    decreases r.len(),
{
    if r.len() == 0 {
        0
    } else if lex_lt(r[0].stamp(), x) {
        0
    } else {
        1 + slot(r.drop_first(), x)
    }
}

/// The records of `s`, newest first; ties keep their order in `s`.
pub open spec fn newest_first_of<T: Dated>(s: Seq<T>) -> Seq<T>
    decreases s.len(),
{
    if s.len() == 0 {
        s
    } else {
        let r = newest_first_of(s.drop_last());
        r.insert(slot(r, s.last().stamp()), s.last())
    }
}

/// No record is stamped later than one before it.
pub open spec fn stamps_descend<T: Dated>(s: Seq<T>) -> bool {
    forall|i: int, j: int| 0 <= i < j < s.len() ==> !lex_lt(#[trigger] s[i].stamp(), #[trigger] s[j].stamp())
}

/// Whether a record is stamped exactly `d`.
pub open spec fn stamped_as<T: Dated>(d: Seq<char>) -> spec_fn(T) -> bool {
    |t: T| t.stamp() == d
}

/// The records of `s` stamped exactly `d`, in order.
pub open spec fn stamped<T: Dated>(s: Seq<T>, d: Seq<char>) -> Seq<T> {
    s.filter(stamped_as(d))
}

/// What `slot` picks: everything before it is not earlier than `x`, and the
/// record at it (if any) is earlier.
proof fn lemma_slot<T: Dated>(r: Seq<T>, x: Seq<char>)
    ensures
        0 <= slot(r, x) <= r.len(),
        forall|i: int| 0 <= i < slot(r, x) ==> !lex_lt(#[trigger] r[i].stamp(), x),
        slot(r, x) < r.len() ==> lex_lt(r[slot(r, x)].stamp(), x),
    decreases r.len(),
{
    if r.len() > 0 && !lex_lt(r[0].stamp(), x) {
        lemma_slot(r.drop_first(), x);
        assert forall|i: int| 0 <= i < slot(r, x) implies !lex_lt(#[trigger] r[i].stamp(), x) by {
            if i > 0 {
                assert(r[i] == r.drop_first()[i - 1]);
            }
        }
        if slot(r, x) < r.len() {
            assert(r[slot(r, x)] == r.drop_first()[slot(r.drop_first(), x)]);
        }
    }
}

/// A position with the two properties of `slot` is `slot`.
proof fn lemma_slot_unique<T: Dated>(r: Seq<T>, x: Seq<char>, p: int)
    requires
        0 <= p <= r.len(),
        forall|i: int| 0 <= i < p ==> !lex_lt(#[trigger] r[i].stamp(), x),
        p < r.len() ==> lex_lt(r[p].stamp(), x),
    ensures
        slot(r, x) == p,
    decreases r.len(),
{
    if r.len() > 0 && p > 0 {
        assert(!lex_lt(r[0].stamp(), x));
        assert forall|i: int| 0 <= i < p - 1 implies !lex_lt(#[trigger] r.drop_first()[i].stamp(), x) by {
            assert(r.drop_first()[i] == r[i + 1]);
        }
        if p - 1 < r.len() - 1 {
            assert(r.drop_first()[p - 1] == r[p]);
        }
        lemma_slot_unique(r.drop_first(), x, p - 1);
    }
}

/// Inserting at `slot` keeps stamps descending.
proof fn lemma_insert_keeps_descending<T: Dated>(r: Seq<T>, x: T)
    requires
        stamps_descend(r),
    ensures
        stamps_descend(r.insert(slot(r, x.stamp()), x)),
{
    let p = slot(r, x.stamp());
    lemma_slot(r, x.stamp());
    let n = r.insert(p, x);
    assert forall|i: int, j: int| 0 <= i < j < n.len() implies !lex_lt(#[trigger] n[i].stamp(), #[trigger] n[j].stamp()) by {
        if j < p {
            assert(n[i] == r[i] && n[j] == r[j]);
        } else if j == p {
            assert(n[i] == r[i] && n[j] == x);
        } else if i > p {
            assert(n[i] == r[i - 1] && n[j] == r[j - 1]);
        } else if i == p {
            // r[p] is earlier than x, and r[j - 1] is not later than r[p].
            assert(n[i] == x && n[j] == r[j - 1]);
            assert(lex_lt(r[p].stamp(), x.stamp()));
            if j - 1 > p {
                assert(!lex_lt(r[p].stamp(), r[j - 1].stamp()));
            }
            if lex_lt(x.stamp(), r[j - 1].stamp()) {
                lemma_lex_total(r[p].stamp(), r[j - 1].stamp());
                if lex_lt(r[j - 1].stamp(), r[p].stamp()) {
                    lemma_lex_transitive(x.stamp(), r[j - 1].stamp(), r[p].stamp());
                    lemma_lex_transitive(x.stamp(), r[p].stamp(), x.stamp());
                } else {
                    lemma_lex_transitive(x.stamp(), r[p].stamp(), x.stamp());
                }
                lemma_lex_irreflexive(x.stamp());
            }
        } else {
            assert(n[i] == r[i] && n[j] == r[j - 1]);
        }
    }
}

/// The newest-first order has descending stamps.
pub proof fn lemma_newest_first_descends<T: Dated>(s: Seq<T>)
    ensures
        stamps_descend(newest_first_of(s)),
    decreases s.len(),
{
    if s.len() > 0 {
        lemma_newest_first_descends(s.drop_last());
        lemma_insert_keeps_descending(newest_first_of(s.drop_last()), s.last());
    }
}

/// The newest-first order holds the same records, as many times each.
pub proof fn lemma_newest_first_permutes<T: Dated>(s: Seq<T>)
    ensures
        newest_first_of(s).to_multiset() == s.to_multiset(),
    decreases s.len(),
{
    broadcast use vstd::seq_lib::group_to_multiset_ensures;

    if s.len() > 0 {
        let d = s.drop_last();
        lemma_newest_first_permutes(d);
        lemma_newest_first_len(d);
        let r = newest_first_of(d);
        lemma_slot(r, s.last().stamp());
        vstd::seq_lib::to_multiset_insert(r, slot(r, s.last().stamp()), s.last());
        assert(s == d.push(s.last()));
    }
}

/// The newest-first order has as many records as `s`.
pub proof fn lemma_newest_first_len<T: Dated>(s: Seq<T>)
    ensures
        newest_first_of(s).len() == s.len(),
    decreases s.len(),
{
    if s.len() > 0 {
        lemma_newest_first_len(s.drop_last());
        lemma_slot(newest_first_of(s.drop_last()), s.last().stamp());
    }
}

/// The newest-first order is stable: the records stamped `d` come in the
/// order they had in `s`.
pub proof fn lemma_newest_first_stable<T: Dated>(s: Seq<T>, d: Seq<char>)
    ensures
        stamped(newest_first_of(s), d) == stamped(s, d),
    decreases s.len(),
{
    let pred = stamped_as::<T>(d);
    if s.len() == 0 {
        reveal(Seq::filter);
    } else {
        let ds = s.drop_last();
        let x = s.last();
        lemma_newest_first_stable(ds, d);
        lemma_newest_first_descends(ds);
        let r = newest_first_of(ds);
        let p = slot(r, x.stamp());
        lemma_slot(r, x.stamp());
        let a = r.subrange(0, p);
        let b = r.subrange(p, r.len() as int);
        assert(r.insert(p, x) == a + seq![x] + b);
        assert(r == a + b);
        Seq::filter_distributes_over_add(a + seq![x], b, pred);
        Seq::filter_distributes_over_add(a, seq![x], pred);
        Seq::filter_distributes_over_add(a, b, pred);
        reveal(Seq::filter);
        assert(seq![x].drop_last() == Seq::<T>::empty());
        assert(Seq::<T>::empty().filter(pred) == Seq::<T>::empty());
        assert(s == ds.push(x));
        if x.stamp() == d {
            // Nothing from `p` on is stamped `d`: each is earlier than `x`.
            assert forall|k: int| 0 <= k < b.len() implies !pred(#[trigger] b[k]) by {
                assert(b[k] == r[p + k]);
                if k > 0 {
                    assert(!lex_lt(r[p].stamp(), r[p + k].stamp()));
                    lemma_lex_total(r[p].stamp(), r[p + k].stamp());
                    if r[p + k].stamp() != r[p].stamp() {
                        lemma_lex_transitive(r[p + k].stamp(), r[p].stamp(), x.stamp());
                    }
                }
                lemma_lex_irreflexive(x.stamp());
            }
            lemma_filter_none(b, pred);
            assert(b.filter(pred) == Seq::<T>::empty());
            assert(stamped(s, d) == stamped(ds, d).push(x));
            assert(stamped(r.insert(p, x), d) == a.filter(pred).push(x) + b.filter(pred));
            assert(stamped(r, d) == a.filter(pred) + b.filter(pred));
        } else {
            assert(stamped(s, d) == stamped(ds, d));
            assert(seq![x].filter(pred) == Seq::<T>::empty());
            assert(stamped(r.insert(p, x), d) == a.filter(pred) + b.filter(pred));
        }
    }
}

/// A sequence none of whose items satisfies `pred` filters to nothing.
proof fn lemma_filter_none<T>(s: Seq<T>, pred: spec_fn(T) -> bool)
    requires
        forall|k: int| 0 <= k < s.len() ==> !pred(#[trigger] s[k]),
    ensures
        s.filter(pred) == Seq::<T>::empty(),
    decreases s.len(),
{
    reveal(Seq::filter);
    if s.len() > 0 {
        assert forall|k: int| 0 <= k < s.drop_last().len() implies !pred(#[trigger] s.drop_last()[k]) by {
            assert(s.drop_last()[k] == s[k]);
        }
        lemma_filter_none(s.drop_last(), pred);
    }
}

/// `slot` of `x` among the records `r`.
fn slot_of<T: Dated>(r: &Vec<T>, x: &str) -> (p: usize)
    ensures
        p == slot(r@, x@),
{
    let mut i: usize = 0;
    while i < r.len()
        invariant
            i <= r.len(),
            forall|j: int| 0 <= j < i ==> !lex_lt(#[trigger] r@[j].stamp(), x@),
        decreases r.len() - i,
    {
        if str_lt(r[i].created_at().as_str(), x) {
            proof {
                lemma_slot_unique(r@, x@, i as int);
            }
            return i;
        }
        i = i + 1;
    }
    proof {
        lemma_slot_unique(r@, x@, i as int);
    }
    i
}

/// Orders `items` newest first (a stable sort by creation stamp, descending).
pub fn newest_first<T: Dated>(items: Vec<T>) -> (r: Vec<T>)
    ensures
        r@ == newest_first_of(items@),
{
    let ghost orig = items@;
    let total = items.len();
    assert(orig.len() == total);
    let mut rest = items;
    let mut out: Vec<T> = Vec::new();
    let mut n: usize = 0;
    assert(orig.subrange(0, 0) == Seq::<T>::empty());
    assert(orig.subrange(0, orig.len() as int) == orig);
    while rest.len() > 0
        invariant
            n <= orig.len() <= usize::MAX,
            rest@ == orig.subrange(n as int, orig.len() as int),
            out@ == newest_first_of(orig.subrange(0, n as int)),
        decreases rest.len(),
    {
        assert(n < orig.len());
        let x = rest.remove(0);
        let p = slot_of(&out, x.created_at().as_str());
        proof {
            lemma_slot(out@, x.stamp());
        }
        out.insert(p, x);
        proof {
            let taken = orig.subrange(0, n + 1);
            assert(taken.drop_last() == orig.subrange(0, n as int));
            assert(taken.last() == x);
        }
        n = n + 1;
        assert(rest@ == orig.subrange(n as int, orig.len() as int));
    }
    assert(orig.subrange(0, n as int) == orig);
    out
}

} // verus!
