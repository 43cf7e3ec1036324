//! Unix path arithmetic on strings, following `std::path` semantics.

use vstd::prelude::*;
use crate::text::{cat, cat3, copy, join_with, split_on};

verus! {

/// `Path::new(base).join(p)` on Unix: an absolute `p` replaces `base`;
/// otherwise a `/` is inserted unless `base` is empty or already ends in `/`.
pub open spec fn path_join(base: Seq<char>, p: Seq<char>) -> Seq<char> {
    if p.len() > 0 && p[0] == '/' {
        p
    } else if base.len() == 0 || base.last() == '/' {
        base + p
    } else {
        base + seq!['/'] + p
    }
}

/// `Path::new(base).join(p)` rendered as a string.
pub fn join(base: &str, p: &str) -> (r: String)
    ensures
        r@ == path_join(base@, p@),
{
    let pv = crate::text::chars_of(p);
    if pv.len() > 0 && pv[0] == '/' {
        return copy(p);
    }
    let bv = crate::text::chars_of(base);
    if bv.len() == 0 || bv[bv.len() - 1] == '/' {
        cat(base, p)
    } else {
        proof {
            reveal_strlit("/");
        }
        cat3(base, "/", p)
    }
}

/// A configured path as the plugin's own file access sees it. Where the
/// working directory is the preopened root (`preopen`), a relative path is
/// already correct and stays as given; elsewhere it is joined onto the
/// working directory.
pub open spec fn within(working_dir: Seq<char>, p: Seq<char>, preopen: bool) -> Seq<char> {
    if preopen {
        p
    } else {
        path_join(working_dir, p)
    }
}

/// `p` unchanged under a preopen, else `Path::new(working_dir).join(p)`.
pub fn resolve_within(working_dir: &str, p: &str, preopen: bool) -> (r: String)
    ensures
        r@ == within(working_dir@, p@, preopen),
{
    if preopen {
        copy(p)
    } else {
        join(working_dir, p)
    }
}

/// The two-character segment `..`.
pub open spec fn dot_dot() -> Seq<char> {
    seq!['.', '.']
}

/// A segment that names something (`Component::Normal` or `..`): not empty and
/// not `.`.
pub open spec fn named_seg(s: Seq<char>) -> bool {
    s.len() > 0 && s != seq!['.']
}

/// Index of the last named segment among `segs[0..n]`, or `-1`.
pub open spec fn last_named(segs: Seq<Seq<char>>, n: int) -> int
    decreases n,
{
    if n <= 0 {
        -1
    } else if named_seg(segs[n - 1]) {
        n - 1
    } else {
        last_named(segs, n - 1)
    }
}

/// `OsStr` file-stem rule for a file name: everything before the last `.`,
/// unless that `.` is the first character (or there is none).
pub open spec fn file_stem(name: Seq<char>) -> Seq<char> {
    let segs = split_on(name, '.');
    if segs.len() <= 1 || segs.drop_last() == seq![Seq::<char>::empty()] {
        name
    } else {
        join_with(segs.drop_last(), '.')
    }
}

/// The part of a file name after its last `.` (`Path::extension`), if any.
pub open spec fn file_extension(name: Seq<char>) -> Option<Seq<char>> {
    let segs = split_on(name, '.');
    if name == dot_dot() || segs.len() <= 1 || segs.drop_last() == seq![Seq::<char>::empty()] {
        None
    } else {
        Some(segs.last())
    }
}

/// `Path::new(p).with_extension("")` on Unix: the path cut right after the stem
/// of its file name; unchanged when there is no file name (empty, `/`, `.`, or
/// ending in `..`).
pub open spec fn without_extension(p: Seq<char>) -> Seq<char> {
    let segs = split_on(p, '/');
    let j = last_named(segs, segs.len() as int);
    if j < 0 || segs[j] == dot_dot() {
        p
    } else if j == 0 {
        file_stem(segs[0])
    } else {
        join_with(segs.take(j), '/') + seq!['/'] + file_stem(segs[j])
    }
}

/// Joins `pieces[lo..hi]` with `c` between consecutive ones.
pub fn join_pieces(pieces: &Vec<Vec<char>>, lo: usize, hi: usize, c: char) -> (r: Vec<char>)
    requires
        lo <= hi <= pieces.len(),
    ensures
        r@ == join_with(pieces@.subrange(lo as int, hi as int).map_values(|v: Vec<char>| v@), c),
    decreases hi - lo,
{
    let ghost ps = pieces@.subrange(lo as int, hi as int).map_values(|v: Vec<char>| v@);
    if lo == hi {
        assert(ps.len() == 0);
        return Vec::new();
    }
    if hi - lo == 1 {
        let mut r: Vec<char> = Vec::new();
        let p = &pieces[lo];
        let mut i: usize = 0;
        while i < p.len()
            invariant
                i <= p.len(),
                r@ == p@.subrange(0, i as int),
            decreases p.len() - i,
        {
            r.push(p[i]);
            assert(p@.subrange(0, i + 1) == p@.subrange(0, i as int).push(p@[i as int]));
            i = i + 1;
        }
        assert(p@.subrange(0, p@.len() as int) == p@);
        assert(ps[0] == p@);
        return r;
    }
    let mut r: Vec<char> = Vec::new();
    let p = &pieces[lo];
    let mut i: usize = 0;
    while i < p.len()
        invariant
            i <= p.len(),
            r@ == p@.subrange(0, i as int),
        decreases p.len() - i,
    {
        r.push(p[i]);
        assert(p@.subrange(0, i + 1) == p@.subrange(0, i as int).push(p@[i as int]));
        i = i + 1;
    }
    assert(p@.subrange(0, p@.len() as int) == p@);
    r.push(c);
    let tail = join_pieces(pieces, lo + 1, hi, c);
    let mut k: usize = 0;
    let ghost head = r@;
    while k < tail.len()
        invariant
            k <= tail.len(),
            r@ == head + tail@.subrange(0, k as int),
        decreases tail.len() - k,
    {
        r.push(tail[k]);
        assert(tail@.subrange(0, k + 1) == tail@.subrange(0, k as int).push(tail@[k as int]));
        k = k + 1;
    }
    assert(tail@.subrange(0, tail@.len() as int) == tail@);
    assert(ps.drop_first() =~= pieces@.subrange(lo + 1, hi as int).map_values(|v: Vec<char>| v@));
    assert(ps[0] == p@);
    r
}

/// `file_stem` of a file name.
pub fn stem_of(name: &Vec<char>) -> (r: Vec<char>)
    ensures
        r@ == file_stem(name@),
{
    let segs = crate::text::split_chars(name, '.');
    let ghost sv = segs@.map_values(|v: Vec<char>| v@);
    assert(sv =~= split_on(name@, '.'));
    if segs.len() <= 1 || (segs.len() == 2 && segs[0].len() == 0) {
        proof {
            if segs.len() == 2 && segs[0].len() == 0 {
                assert(sv[0] == segs@[0]@);
                assert(sv[0] =~= Seq::<char>::empty());
                assert(sv.drop_last() =~= seq![Seq::<char>::empty()]);
            }
        }
        let mut r: Vec<char> = Vec::new();
        let mut i: usize = 0;
        while i < name.len()
            invariant
                i <= name.len(),
                r@ == name@.subrange(0, i as int),
            decreases name.len() - i,
        {
            r.push(name[i]);
            assert(name@.subrange(0, i + 1) == name@.subrange(0, i as int).push(name@[i as int]));
            i = i + 1;
        }
        assert(name@.subrange(0, name@.len() as int) == name@);
        return r;
    }
    proof {
        if sv.drop_last() == seq![Seq::<char>::empty()] {
            assert(sv.drop_last().len() == 1);
            assert(sv.drop_last()[0] == sv[0]);
            assert(false);
        }
        assert(segs@.subrange(0, segs.len() - 1).map_values(|v: Vec<char>| v@) =~= sv.drop_last());
    }
    join_pieces(&segs, 0, segs.len() - 1, '.')
}

/// `Path::new(p).with_extension("")`, rendered as characters.
pub fn without_extension_chars(p: &Vec<char>) -> (r: Vec<char>)
    ensures
        r@ == without_extension(p@),
{
    let segs = crate::text::split_chars(p, '/');
    let ghost sv = segs@.map_values(|v: Vec<char>| v@);
    assert(sv =~= split_on(p@, '/'));
    let mut j: usize = segs.len();
    while j > 0 && !(segs[j - 1].len() > 0 && !(segs[j - 1].len() == 1 && segs[j - 1][0] == '.'))
        invariant
            j <= segs.len(),
            sv == segs@.map_values(|v: Vec<char>| v@),
            last_named(sv, segs.len() as int) == last_named(sv, j as int),
        decreases j,
    {
        proof {
            let s = sv[j - 1];
            assert(s == segs@[j - 1]@);
            if s.len() == 1 {
                assert(s == seq![s[0]]);
            }
            assert(!named_seg(s));
        }
        j = j - 1;
    }
    if j == 0 {
        return p.clone();
    }
    let idx = j - 1;
    proof {
        let s = sv[idx as int];
        assert(s == segs@[idx as int]@);
        if s == seq!['.'] {
            assert(s.len() == 1 && s[0] == '.');
        }
        assert(named_seg(s));
        assert(last_named(sv, j as int) == idx);
    }
    let last = &segs[idx];
    if last.len() == 2 && last[0] == '.' && last[1] == '.' {
        assert(sv[idx as int] =~= dot_dot());
        return p.clone();
    }
    assert(sv[idx as int] != dot_dot()) by {
        if sv[idx as int] == dot_dot() {
            assert(last@.len() == 2 && last@[0] == '.' && last@[1] == '.');
        }
    }
    let stem = stem_of(last);
    if idx == 0 {
        return stem;
    }
    let mut r = join_pieces(&segs, 0, idx, '/');
    assert(segs@.subrange(0, idx as int).map_values(|v: Vec<char>| v@) =~= sv.take(idx as int));
    r.push('/');
    let ghost head = r@;
    let mut k: usize = 0;
    while k < stem.len()
        invariant
            k <= stem.len(),
            r@ == head + stem@.subrange(0, k as int),
        decreases stem.len() - k,
    {
        r.push(stem[k]);
        assert(stem@.subrange(0, k + 1) == stem@.subrange(0, k as int).push(stem@[k as int]));
        k = k + 1;
    }
    assert(stem@.subrange(0, stem@.len() as int) == stem@);
    r
}

} // verus!
