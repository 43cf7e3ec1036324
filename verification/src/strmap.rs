//! An ordered string-to-string map: the entries a `BTreeMap<String, String>`
//! yields when iterated, kept sorted by key with no key twice.

use vstd::prelude::*;
use crate::text::{cat3, chars_of, copy, lex_lt, lex_lt_chars, strs};

verus! {

/// The keys of `e` strictly increase.
pub open spec fn sorted_keys(e: Seq<(Seq<char>, Seq<char>)>) -> bool {
    forall|i: int, j: int| 0 <= i < j < e.len() ==> lex_lt(#[trigger] e[i].0, #[trigger] e[j].0)
}

/// The entries of `e` as a finite map.
pub open spec fn as_map(e: Seq<(Seq<char>, Seq<char>)>) -> Map<Seq<char>, Seq<char>>
    decreases e.len(),
{
    if e.len() == 0 {
        Map::empty()
    } else {
        as_map(e.drop_last()).insert(e.last().0, e.last().1)
    }
}

/// A map from strings to strings, iterated in key order.
pub struct StrMap {
    entries: Vec<(String, String)>,
}

/// The views of a list of string pairs.
pub open spec fn pairs(v: Seq<(String, String)>) -> Seq<(Seq<char>, Seq<char>)> {
    v.map_values(|p: (String, String)| (p.0@, p.1@))
}

impl StrMap {
    /// The entries, in increasing key order.
    pub closed spec fn view(&self) -> Seq<(Seq<char>, Seq<char>)> {
        pairs(self.entries@)
    }

    #[verifier::type_invariant]
    closed spec fn inv(&self) -> bool {
        sorted_keys(pairs(self.entries@))
    }

    /// An empty map.
    pub fn new() -> (r: Self)
        ensures
            r.view() == Seq::<(Seq<char>, Seq<char>)>::empty(),
    {
        let r = StrMap { entries: Vec::new() };
        assert(pairs(r.entries@) =~= Seq::<(Seq<char>, Seq<char>)>::empty());
        r
    }

    /// The number of entries.
    pub fn len(&self) -> (r: usize)
        ensures
            r == self.view().len(),
            sorted_keys(self.view()),
    {
        proof {
            use_type_invariant(self);
        }
        self.entries.len()
    }

    /// Whether there are no entries.
    pub fn is_empty(&self) -> (r: bool)
        ensures
            r == (self.view().len() == 0),
    {
        self.entries.len() == 0
    }

    /// The key of entry `i`.
    pub fn key(&self, i: usize) -> (r: &String)
        requires
            i < self.view().len(),
        ensures
            r@ == self.view()[i as int].0,
    {
        &self.entries[i].0
    }

    /// The value of entry `i`.
    pub fn value(&self, i: usize) -> (r: &String)
        requires
            i < self.view().len(),
        ensures
            r@ == self.view()[i as int].1,
    {
        &self.entries[i].1
    }

    /// Whether `k` has an entry.
    pub fn contains_key(&self, k: &str) -> (r: bool)
        ensures
            r == as_map(self.view()).contains_key(k@),
    {
        proof {
            use_type_invariant(self);
            lemma_map_keys(self.view());
        }
        let kc = chars_of(k);
        let (pos, found) = self.locate(&kc);
        proof {
            if !found {
                assert forall|i: int| 0 <= i < self.view().len() implies self.view()[i].0 != k@ by {
                    crate::text::lemma_lex_irreflexive(k@);
                    if i < pos {
                        assert(lex_lt(self.view()[i].0, k@));
                    } else {
                        assert(lex_lt(k@, self.view()[i].0));
                    }
                }
            }
        }
        found
    }

    /// A copy.
    pub fn duplicate(&self) -> (r: StrMap)
        ensures
            r.view() == self.view(),
            sorted_keys(r.view()),
    {
        proof {
            use_type_invariant(self);
        }
        let mut entries: Vec<(String, String)> = Vec::new();
        let mut i: usize = 0;
        while i < self.entries.len()
            invariant
                i <= self.entries.len(),
                entries@.len() == i,
                pairs(entries@) == pairs(self.entries@).take(i as int),
            decreases self.entries.len() - i,
        {
            let k = copy(self.entries[i].0.as_str());
            let v = copy(self.entries[i].1.as_str());
            let ghost before = entries@;
            entries.push((k, v));
            assert(pairs(entries@) =~= pairs(self.entries@).take(i + 1)) by {
                assert(entries@ == before.push(entries@[i as int]));
                assert forall|j: int| 0 <= j < i implies pairs(entries@)[j] == pairs(before)[j] by {}
            }
            i = i + 1;
        }
        assert(pairs(self.entries@).take(self.entries@.len() as int) == pairs(self.entries@));
        StrMap { entries }
    }

    /// Position of `k`, or where it would be inserted.
    fn locate(&self, k: &Vec<char>) -> (r: (usize, bool))
        ensures
            r.0 <= self.view().len(),
            forall|i: int| 0 <= i < r.0 ==> lex_lt(#[trigger] self.view()[i].0, k@),
            r.1 ==> r.0 < self.view().len() && self.view()[r.0 as int].0 == k@,
            !r.1 ==> forall|i: int| r.0 <= i < self.view().len() ==> lex_lt(k@, #[trigger] self.view()[i].0),
    {
        proof {
            use_type_invariant(self);
        }
        let ghost v = self.view();
        let mut i: usize = 0;
        while i < self.entries.len()
            invariant
                i <= self.entries.len(),
                v == self.view(),
                v == pairs(self.entries@),
                sorted_keys(v),
                forall|j: int| 0 <= j < i ==> lex_lt(#[trigger] v[j].0, k@),
            decreases self.entries.len() - i,
        {
            let ki = chars_of(self.entries[i].0.as_str());
            assert(ki@ == v[i as int].0);
            if !lex_lt_chars(&ki, k) {
                proof {
                    crate::text::lemma_lex_total(ki@, k@);
                }
                if lex_lt_chars(k, &ki) {
                    proof {
                        assert forall|j: int| i <= j < v.len() implies lex_lt(k@, #[trigger] v[j].0) by {
                            if j > i {
                                crate::text::lemma_lex_transitive(k@, v[i as int].0, v[j].0);
                            }
                        }
                    }
                    return (i, false);
                } else {
                    return (i, true);
                }
            }
            i = i + 1;
        }
        (i, false)
    }

    /// `BTreeMap::insert`: sets `k` to `v`, replacing any earlier value.
    pub fn insert(&mut self, k: String, v: String)
        ensures
            as_map(final(self).view()) == as_map(old(self).view()).insert(k@, v@),
            sorted_keys(final(self).view()),
            final(self).view().len() == old(self).view().len() + if as_map(old(self).view()).contains_key(k@) {
                0int
            } else {
                1int
            },
    {
        proof {
            use_type_invariant(&*self);
        }
        let ghost old_v = self.view();
        let kc = chars_of(k.as_str());
        let (pos, found) = self.locate(&kc);
        let mut entries: Vec<(String, String)> = Vec::new();
        let mut i: usize = 0;
        while i < pos
            invariant
                i <= pos <= self.entries.len(),
                old_v == pairs(self.entries@),
                pairs(entries@) == old_v.subrange(0, i as int),
            decreases pos - i,
        {
            let e = &self.entries[i];
            let ghost before = entries@;
            entries.push((copy(e.0.as_str()), copy(e.1.as_str())));
            assert(old_v[i as int] == (e.0@, e.1@));
            assert(pairs(entries@) =~= pairs(before).push((e.0@, e.1@)));
            assert(pairs(entries@) =~= old_v.subrange(0, i + 1));
            i = i + 1;
        }
        let ghost before = entries@;
        let ghost kv = (k@, v@);
        entries.push((k, v));
        assert(pairs(entries@) =~= pairs(before).push(kv));
        let mut j: usize = if found { pos + 1 } else { pos };
        let ghost skip = j;
        assert(pairs(entries@) =~= old_v.subrange(0, pos as int).push((kc@, v@)));
        while j < self.entries.len()
            invariant
                pos <= skip <= j <= self.entries.len(),
                old_v == pairs(self.entries@),
                pairs(entries@) == old_v.subrange(0, pos as int).push((kc@, v@)) + old_v.subrange(skip as int, j as int),
            decreases self.entries.len() - j,
        {
            let e = &self.entries[j];
            let ghost before = entries@;
            entries.push((copy(e.0.as_str()), copy(e.1.as_str())));
            assert(old_v[j as int] == (e.0@, e.1@));
            assert(pairs(entries@) =~= pairs(before).push((e.0@, e.1@)));
            assert(pairs(entries@) =~= old_v.subrange(0, pos as int).push((kc@, v@)) + old_v.subrange(skip as int, j + 1));
            j = j + 1;
        }
        let ghost new_v = pairs(entries@);
        assert(new_v =~= old_v.subrange(0, pos as int).push((kc@, v@)) + old_v.subrange(skip as int, old_v.len() as int));
        proof {
            assert(sorted_keys(new_v)) by {
                assert forall|a: int, b: int| 0 <= a < b < new_v.len() implies lex_lt(#[trigger] new_v[a].0, #[trigger] new_v[b].0) by {
                    if a < pos && b < pos {
                        assert(new_v[a] == old_v[a] && new_v[b] == old_v[b]);
                    } else if a < pos && b == pos {
                        assert(new_v[a] == old_v[a]);
                    } else if a < pos {
                        assert(new_v[a] == old_v[a]);
                        assert(new_v[b] == old_v[b - pos - 1 + skip]);
                        crate::text::lemma_lex_transitive(old_v[a].0, kc@, old_v[b - pos - 1 + skip].0);
                    } else if a == pos {
                        assert(new_v[b] == old_v[b - pos - 1 + skip]);
                        if found {
                            assert(lex_lt(old_v[pos as int].0, old_v[b - pos - 1 + skip].0));
                        }
                    } else {
                        assert(new_v[a] == old_v[a - pos - 1 + skip]);
                        assert(new_v[b] == old_v[b - pos - 1 + skip]);
                    }
                }
            }
            lemma_insert_map(old_v, pos as int, skip as int, kc@, v@, found);
        }
        self.entries = entries;
    }
}

/// The map of sorted entries with `(k, v)` spliced in at `pos` (replacing the
/// entry there when `found`) is the old map updated at `k`.
proof fn lemma_insert_map(
    e: Seq<(Seq<char>, Seq<char>)>,
    pos: int,
    skip: int,
    k: Seq<char>,
    v: Seq<char>,
    found: bool,
)
    requires
        sorted_keys(e),
        0 <= pos <= e.len(),
        skip == if found { pos + 1 } else { pos },
        skip <= e.len(),
        forall|i: int| 0 <= i < pos ==> lex_lt(#[trigger] e[i].0, k),
        found ==> e[pos].0 == k,
        forall|i: int| skip <= i < e.len() ==> lex_lt(k, #[trigger] e[i].0),
    ensures
        as_map(e.subrange(0, pos).push((k, v)) + e.subrange(skip, e.len() as int)) == as_map(e).insert(k, v),
        (e.subrange(0, pos).push((k, v)) + e.subrange(skip, e.len() as int)).len() == e.len() + if as_map(e).contains_key(k) {
            0int
        } else {
            1int
        },
{
    let n = e.subrange(0, pos).push((k, v)) + e.subrange(skip, e.len() as int);
    lemma_map_keys(e);
    lemma_map_keys(n);
    assert(sorted_keys(n)) by {
        assert forall|a: int, b: int| 0 <= a < b < n.len() implies lex_lt(#[trigger] n[a].0, #[trigger] n[b].0) by {
            if b < pos {
                assert(n[a] == e[a] && n[b] == e[b]);
            } else if b == pos {
                if a < pos {
                    assert(n[a] == e[a]);
                }
            } else if a < pos {
                assert(n[a] == e[a] && n[b] == e[b - pos - 1 + skip]);
                crate::text::lemma_lex_transitive(e[a].0, k, e[b - pos - 1 + skip].0);
            } else if a == pos {
                assert(n[b] == e[b - pos - 1 + skip]);
            } else {
                assert(n[a] == e[a - pos - 1 + skip] && n[b] == e[b - pos - 1 + skip]);
            }
        }
    }
    lemma_sorted_lookup(n);
    lemma_sorted_lookup(e);
    assert(as_map(n) =~= as_map(e).insert(k, v)) by {
        assert forall|key: Seq<char>| #[trigger] as_map(n).contains_key(key) <==> as_map(e).insert(k, v).contains_key(key) by {
            if as_map(n).contains_key(key) {
                let i = choose|i: int| 0 <= i < n.len() && n[i].0 == key;
                if i < pos {
                    assert(n[i] == e[i]);
                } else if i > pos {
                    assert(n[i] == e[i - pos - 1 + skip]);
                }
            }
            if as_map(e).contains_key(key) && key != k {
                let i = choose|i: int| 0 <= i < e.len() && e[i].0 == key;
                if i < pos {
                    assert(n[i] == e[i]);
                } else if i >= skip {
                    assert(n[i - skip + pos + 1] == e[i]);
                } else {
                    assert(found && i == pos);
                }
            }
            if key == k {
                assert(n[pos].0 == k);
            }
        }
        assert forall|key: Seq<char>| #[trigger] as_map(n).contains_key(key) implies as_map(n)[key] == as_map(e).insert(k, v)[key] by {
            let i = choose|i: int| 0 <= i < n.len() && n[i].0 == key;
            if i < pos {
                assert(n[i] == e[i]);
            } else if i > pos {
                assert(n[i] == e[i - pos - 1 + skip]);
                crate::text::lemma_lex_irreflexive(k);
            } else {
            }
            if key != k {
                if i < pos {
                    assert(e[i].0 == key);
                } else if i > pos {
                    assert(e[i - pos - 1 + skip].0 == key);
                }
            } else {
                if i != pos {
                    if i < pos {
                        crate::text::lemma_lex_irreflexive(k);
                    }
                }
            }
        }
    }
    if as_map(e).contains_key(k) {
        let i = choose|i: int| 0 <= i < e.len() && e[i].0 == k;
        if i < pos {
            crate::text::lemma_lex_irreflexive(k);
        } else if i >= skip {
            crate::text::lemma_lex_irreflexive(k);
        }
        assert(found);
    } else {
        if found {
            assert(e[pos].0 == k);
        }
    }
}

/// A key is in the map of the entries exactly when some entry carries it.
pub proof fn lemma_map_keys(e: Seq<(Seq<char>, Seq<char>)>)
    ensures
        forall|key: Seq<char>| #[trigger] as_map(e).contains_key(key) <==> exists|i: int| 0 <= i < e.len() && e[i].0 == key,
    decreases e.len(),
{
    if e.len() > 0 {
        let d = e.drop_last();
        lemma_map_keys(d);
        assert forall|key: Seq<char>| #[trigger] as_map(e).contains_key(key) <==> exists|i: int| 0 <= i < e.len() && e[i].0 == key by {
            assert(as_map(e) == as_map(d).insert(e.last().0, e.last().1));
            if as_map(e).contains_key(key) {
                if key != e.last().0 {
                    assert(as_map(d).contains_key(key));
                    let i = choose|i: int| 0 <= i < d.len() && d[i].0 == key;
                    assert(e[i] == d[i]);
                    assert(e[i].0 == key);
                } else {
                    assert(e[e.len() - 1].0 == key);
                }
            }
            if exists|i: int| 0 <= i < e.len() && e[i].0 == key {
                let i = choose|i: int| 0 <= i < e.len() && e[i].0 == key;
                if i < e.len() - 1 {
                    assert(d[i] == e[i]);
                    assert(as_map(d).contains_key(key));
                }
            }
        }
    } else {
        assert forall|key: Seq<char>| #[trigger] as_map(e).contains_key(key) <==> exists|i: int| 0 <= i < e.len() && e[i].0 == key by {
            assert(as_map(e) == Map::<Seq<char>, Seq<char>>::empty());
        }
    }
}

/// With sorted keys, the map sends the key of entry `i` to its value.
pub proof fn lemma_sorted_lookup(e: Seq<(Seq<char>, Seq<char>)>)
    requires
        sorted_keys(e),
    ensures
        forall|i: int| 0 <= i < e.len() ==> as_map(e).contains_key(#[trigger] e[i].0) && as_map(e)[e[i].0] == e[i].1,
    decreases e.len(),
{
    if e.len() > 0 {
        let d = e.drop_last();
        assert(sorted_keys(d)) by {
            assert forall|a: int, b: int| 0 <= a < b < d.len() implies lex_lt(#[trigger] d[a].0, #[trigger] d[b].0) by {
                assert(d[a] == e[a] && d[b] == e[b]);
            }
        }
        lemma_sorted_lookup(d);
        assert forall|i: int| 0 <= i < e.len() implies as_map(e).contains_key(#[trigger] e[i].0) && as_map(e)[e[i].0] == e[i].1 by {
            if i < e.len() - 1 {
                assert(d[i] == e[i]);
                assert(lex_lt(e[i].0, e.last().0));
                if e[i].0 == e.last().0 {
                    crate::text::lemma_lex_irreflexive(e[i].0);
                }
            }
        }
    }
}

/// `flag key=value` for every entry, in order.
pub open spec fn pair_flags(flag: Seq<char>, entries: Seq<(Seq<char>, Seq<char>)>) -> Seq<Seq<char>>
    decreases entries.len(),
{
    if entries.len() == 0 {
        Seq::empty()
    } else {
        pair_flags(flag, entries.drop_last()) + seq![flag, entries.last().0 + "="@ + entries.last().1]
    }
}

/// Appends `flag key=value` for every entry of `map`, in key order.
pub fn push_pair_flags(args: &mut Vec<String>, flag: &str, map: &StrMap)
    ensures
        strs(final(args)@) == strs(old(args)@) + pair_flags(flag@, map.view()),
{
    let ghost start = strs(args@);
    let mut i: usize = 0;
    let n = map.len();
    while i < n
        invariant
            i <= n == map.view().len(),
            strs(args@) == start + pair_flags(flag@, map.view().subrange(0, i as int)),
        decreases n - i,
    {
        let ghost before = args@;
        let item = cat3(map.key(i).as_str(), "=", map.value(i).as_str());
        args.push(copy(flag));
        args.push(item);
        proof {
            let sub = map.view().subrange(0, i + 1);
            assert(sub.drop_last() =~= map.view().subrange(0, i as int));
            assert(strs(args@) =~= strs(before) + seq![flag@, item@]);
        }
        i = i + 1;
    }
    assert(map.view().subrange(0, n as int) == map.view());
}

} // verus!
