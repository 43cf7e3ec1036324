//! Character-level string helpers with exact specifications.
//!
//! Strings are modelled by their views, `Seq<char>`. Every helper here states
//! its result over that model, so the plugin logic built on top can speak of
//! trimming, splitting, searching and number formatting precisely.

use vstd::prelude::*;
use vstd::string::StringExecFns;

verus! {

broadcast use vstd::string::group_string_axioms;

// ---------------------------------------------------------------------------
// Model
// ---------------------------------------------------------------------------

/// Rust's `char::is_whitespace`: the Unicode `White_Space` property.
pub open spec fn is_ws(c: char) -> bool {
    let u = c as u32;
    ||| 9 <= u <= 13
    ||| u == 32
    ||| u == 0x85
    ||| u == 0xA0
    ||| u == 0x1680
    ||| 0x2000 <= u <= 0x200A
    ||| u == 0x2028
    ||| u == 0x2029
    ||| u == 0x202F
    ||| u == 0x205F
    ||| u == 0x3000
}

/// `str::trim_start`.
pub open spec fn trim_start(s: Seq<char>) -> Seq<char>
    decreases s.len(),
{
    if s.len() > 0 && is_ws(s[0]) {
        trim_start(s.drop_first())
    } else {
        s
    }
}

/// `str::trim_end`.
pub open spec fn trim_end(s: Seq<char>) -> Seq<char>
    decreases s.len(),
{
    if s.len() > 0 && is_ws(s.last()) {
        trim_end(s.drop_last())
    } else {
        s
    }
}

/// `str::trim`.
pub open spec fn trim(s: Seq<char>) -> Seq<char> {
    trim_end(trim_start(s))
}

/// Every character is whitespace (so `trim` leaves nothing).
pub open spec fn blank(s: Seq<char>) -> bool {
    forall|i: int| 0 <= i < s.len() ==> #[trigger] is_ws(s[i])
}

/// `needle` occurs in `hay` starting at index `i`.
pub open spec fn occurs_at(hay: Seq<char>, needle: Seq<char>, i: int) -> bool {
    0 <= i && i + needle.len() <= hay.len() && hay.subrange(i, i + needle.len()) == needle
}

/// `str::contains` with a string pattern.
pub open spec fn contains(hay: Seq<char>, needle: Seq<char>) -> bool {
    exists|i: int| occurs_at(hay, needle, i)
}

/// `str::starts_with` with a string pattern.
pub open spec fn starts_with(s: Seq<char>, p: Seq<char>) -> bool {
    p.len() <= s.len() && s.subrange(0, p.len() as int) == p
}

/// `str::ends_with` with a string pattern.
pub open spec fn ends_with(s: Seq<char>, p: Seq<char>) -> bool {
    p.len() <= s.len() && s.subrange(s.len() - p.len(), s.len() as int) == p
}

/// `char::to_ascii_lowercase`.
pub open spec fn lower_char(c: char) -> char {
    if 'A' <= c && c <= 'Z' {
        ((c as u32) + 32) as char
    } else {
        c
    }
}

/// `str::to_ascii_lowercase`.
pub open spec fn lower(s: Seq<char>) -> Seq<char> {
    s.map_values(|c: char| lower_char(c))
}

/// The decimal digit `d` (`d < 10`).
pub open spec fn digit_char(d: nat) -> char {
    if d == 0 {
        '0'
    } else if d == 1 {
        '1'
    } else if d == 2 {
        '2'
    } else if d == 3 {
        '3'
    } else if d == 4 {
        '4'
    } else if d == 5 {
        '5'
    } else if d == 6 {
        '6'
    } else if d == 7 {
        '7'
    } else if d == 8 {
        '8'
    } else {
        '9'
    }
}

/// Decimal rendering of a natural number, as `Display` prints it.
pub open spec fn dec_nat(n: nat) -> Seq<char>
    decreases n,
{
    if n < 10 {
        seq![digit_char(n)]
    } else {
        dec_nat(n / 10).push(digit_char(n % 10))
    }
}

/// Decimal rendering of an integer, as `Display` prints it.
pub open spec fn dec(n: int) -> Seq<char> {
    if n < 0 {
        seq!['-'] + dec_nat((-n) as nat)
    } else {
        dec_nat(n as nat)
    }
}

/// An ASCII digit `'0'..='9'`.
pub open spec fn is_digit(c: char) -> bool {
    '0' <= c && c <= '9'
}

/// The value of an ASCII digit.
pub open spec fn digit_val(c: char) -> nat {
    ((c as u32) - ('0' as u32)) as nat
}

/// The value of a string of ASCII digits, read in base ten.
pub open spec fn digits_value(s: Seq<char>) -> nat
    decreases s.len(),
{
    if s.len() == 0 {
        0
    } else {
        digits_value(s.drop_last()) * 10 + digit_val(s.last())
    }
}

/// A non-empty run of ASCII digits.
pub open spec fn all_digits(s: Seq<char>) -> bool {
    s.len() > 0 && forall|i: int| 0 <= i < s.len() ==> #[trigger] is_digit(s[i])
}

/// `u32::from_str`: an optional `+`, then one or more ASCII digits, in range.
pub open spec fn parse_u32(s: Seq<char>) -> Option<u32> {
    let d = if s.len() > 0 && s[0] == '+' { s.drop_first() } else { s };
    if all_digits(d) && digits_value(d) <= u32::MAX {
        Some(digits_value(d) as u32)
    } else {
        None
    }
}

/// `i64::from_str`: an optional sign, then one or more ASCII digits, in range.
pub open spec fn parse_i64(s: Seq<char>) -> Option<i64> {
    if s.len() > 0 && s[0] == '-' {
        let d = s.drop_first();
        if all_digits(d) && digits_value(d) <= 0x8000_0000_0000_0000 {
            Some((0 - digits_value(d)) as i64)
        } else {
            None
        }
    } else {
        let d = if s.len() > 0 && s[0] == '+' { s.drop_first() } else { s };
        if all_digits(d) && digits_value(d) <= i64::MAX {
            Some(digits_value(d) as i64)
        } else {
            None
        }
    }
}

// ---------------------------------------------------------------------------
// Conversions
// ---------------------------------------------------------------------------

/// `String::push`: appends one character.
#[verifier::external_body]
pub(crate) fn push_char(s: &mut String, c: char)
    ensures
        final(s)@ == old(s)@.push(c),
{
    s.push(c)
}

/// The characters of `s`, in order.
pub fn chars_of(s: &str) -> (r: Vec<char>)
    ensures
        r@ == s@,
{
    let mut r: Vec<char> = Vec::new();
    for c in it: s.chars()
        invariant
            r@ == it.seq().take(it.index()),
            it.seq() == s@,
    {
        r.push(c);
    }
    r
}

/// The string made of the characters `v[lo..hi]`.
pub fn string_of(v: &Vec<char>, lo: usize, hi: usize) -> (r: String)
    requires
        lo <= hi <= v.len(),
    ensures
        r@ == v@.subrange(lo as int, hi as int),
{
    let mut r = String::new();
    let mut i = lo;
    while i < hi
        invariant
            lo <= i <= hi <= v.len(),
            r@ == v@.subrange(lo as int, i as int),
        decreases hi - i,
    {
        push_char(&mut r, v[i]);
        assert(v@.subrange(lo as int, i + 1) == v@.subrange(lo as int, i as int).push(v@[i as int]));
        i = i + 1;
    }
    r
}

/// The string made of all characters of `v`.
pub fn string_from(v: &Vec<char>) -> (r: String)
    ensures
        r@ == v@,
{
    let r = string_of(v, 0, v.len());
    assert(v@.subrange(0, v@.len() as int) == v@);
    r
}

/// A copy of `s`.
pub fn copy(s: &str) -> (r: String)
    ensures
        r@ == s@,
{
    String::from_str(s)
}

/// `a` followed by `b`.
pub fn cat(a: &str, b: &str) -> (r: String)
    ensures
        r@ == a@ + b@,
{
    String::from_str(a).concat(b)
}

/// `a`, `b` and `c`, one after the other.
pub fn cat3(a: &str, b: &str, c: &str) -> (r: String)
    ensures
        r@ == a@ + b@ + c@,
{
    String::from_str(a).concat(b).concat(c)
}

// ---------------------------------------------------------------------------
// Whitespace
// ---------------------------------------------------------------------------

/// `char::is_whitespace`.
pub fn is_whitespace(c: char) -> (r: bool)
    ensures
        r == is_ws(c),
{
    let u = c as u32;
    (9 <= u && u <= 13) || u == 32 || u == 0x85 || u == 0xA0 || u == 0x1680 || (0x2000 <= u
        && u <= 0x200A) || u == 0x2028 || u == 0x2029 || u == 0x202F || u == 0x205F || u == 0x3000
}

/// `trim` keeps nothing exactly when every character is whitespace.
pub proof fn lemma_trim_empty_iff_blank(s: Seq<char>)
    ensures
        trim(s).len() == 0 <==> blank(s),
{
    lemma_trim_start_shape(s);
    let k = trim_start_len(s);
    let t = s.subrange(k, s.len() as int);
    if k < s.len() {
        lemma_trim_end_shape(t);
        let m = trim_end_len(t);
        assert(!is_ws(t[0]));
        if m == 0 {
            assert(t.subrange(0, 0).len() == 0);
            assert(t.len() > 0 && is_ws(t[t.len() - 1]));
            assert(false) by {
                // a non-whitespace first character survives trim_end
                assert(forall|i: int| 0 <= i < t.len() ==> #[trigger] is_ws(t[i]));
            }
        }
        assert(!is_ws(s[k]));
    }
}

/// Number of leading whitespace characters.
pub open spec fn trim_start_len(s: Seq<char>) -> int
    decreases s.len(),
{
    if s.len() > 0 && is_ws(s[0]) {
        1 + trim_start_len(s.drop_first())
    } else {
        0
    }
}

/// Length kept by `trim_end`.
pub open spec fn trim_end_len(s: Seq<char>) -> int
    decreases s.len(),
{
    if s.len() > 0 && is_ws(s.last()) {
        trim_end_len(s.drop_last())
    } else {
        s.len() as int
    }
}

/// `trim_start` removes exactly the leading whitespace run.
pub proof fn lemma_trim_start_shape(s: Seq<char>)
    ensures
        0 <= trim_start_len(s) <= s.len(),
        trim_start(s) == s.subrange(trim_start_len(s), s.len() as int),
        forall|i: int| 0 <= i < trim_start_len(s) ==> #[trigger] is_ws(s[i]),
        trim_start_len(s) < s.len() ==> !is_ws(s[trim_start_len(s)]),
    decreases s.len(),
{
    if s.len() > 0 && is_ws(s[0]) {
        lemma_trim_start_shape(s.drop_first());
        let t = s.drop_first();
        assert(t.subrange(trim_start_len(t), t.len() as int) == s.subrange(
            trim_start_len(s),
            s.len() as int,
        ));
        assert forall|i: int| 0 <= i < trim_start_len(s) implies #[trigger] is_ws(s[i]) by {
            if i > 0 {
                assert(s[i] == t[i - 1]);
            }
        }
        if trim_start_len(s) < s.len() {
            assert(s[trim_start_len(s)] == t[trim_start_len(t)]);
        }
    } else {
        assert(s.subrange(0, s.len() as int) == s);
    }
}

/// `trim_end` removes exactly the trailing whitespace run.
pub proof fn lemma_trim_end_shape(s: Seq<char>)
    ensures
        0 <= trim_end_len(s) <= s.len(),
        trim_end(s) == s.subrange(0, trim_end_len(s)),
        forall|i: int| trim_end_len(s) <= i < s.len() ==> #[trigger] is_ws(s[i]),
        trim_end_len(s) > 0 ==> !is_ws(s[trim_end_len(s) - 1]),
    decreases s.len(),
{
    if s.len() > 0 && is_ws(s.last()) {
        lemma_trim_end_shape(s.drop_last());
        let t = s.drop_last();
        assert(t.subrange(0, trim_end_len(t)) == s.subrange(0, trim_end_len(s)));
        assert forall|i: int| trim_end_len(s) <= i < s.len() implies #[trigger] is_ws(s[i]) by {
            if i < s.len() - 1 {
                assert(s[i] == t[i]);
            }
        }
        if trim_end_len(s) > 0 {
            assert(s[trim_end_len(s) - 1] == t[trim_end_len(t) - 1]);
        }
    } else {
        assert(s.subrange(0, s.len() as int) == s);
    }
}

/// Bounds `[lo, hi)` of the trimmed part of `v`.
pub fn trim_bounds(v: &Vec<char>) -> (r: (usize, usize))
    ensures
        r.0 <= r.1 <= v.len(),
        trim(v@) == v@.subrange(r.0 as int, r.1 as int),
{
    proof {
        lemma_trim_start_shape(v@);
    }
    let n = v.len();
    let mut i: usize = 0;
    while i < n && is_whitespace(v[i])
        invariant
            i <= n == v.len(),
            forall|k: int| 0 <= k < i ==> #[trigger] is_ws(v@[k]),
        decreases n - i,
    {
        i = i + 1;
    }
    assert(i as int == trim_start_len(v@)) by {
        lemma_leading_run(v@, i as int);
    }
    let ghost t = v@.subrange(i as int, n as int);
    proof {
        lemma_trim_end_shape(t);
    }
    let mut j: usize = n;
    while j > i && is_whitespace(v[j - 1])
        invariant
            i <= j <= n == v.len(),
            t == v@.subrange(i as int, n as int),
            forall|k: int| j <= k < n ==> #[trigger] is_ws(v@[k]),
        decreases j - i,
    {
        j = j - 1;
    }
    assert(j - i == trim_end_len(t)) by {
        lemma_trailing_run(t, j - i);
    }
    assert(t.subrange(0, j - i) == v@.subrange(i as int, j as int));
    (i, j)
}

/// A whitespace prefix of length `k` followed by a non-whitespace character (or
/// the end) is exactly the leading run.
proof fn lemma_leading_run(s: Seq<char>, k: int)
    requires
        0 <= k <= s.len(),
        forall|i: int| 0 <= i < k ==> #[trigger] is_ws(s[i]),
        k < s.len() ==> !is_ws(s[k]),
    ensures
        trim_start_len(s) == k,
    decreases k,
{
    if k > 0 {
        let t = s.drop_first();
        assert forall|i: int| 0 <= i < k - 1 implies #[trigger] is_ws(t[i]) by {
            assert(t[i] == s[i + 1]);
        }
        if k - 1 < t.len() {
            assert(t[k - 1] == s[k]);
        }
        lemma_leading_run(t, k - 1);
    }
}

/// A whitespace suffix starting at `k` preceded by a non-whitespace character
/// (or the start) is exactly the trailing run.
proof fn lemma_trailing_run(s: Seq<char>, k: int)
    requires
        0 <= k <= s.len(),
        forall|i: int| k <= i < s.len() ==> #[trigger] is_ws(s[i]),
        k > 0 ==> !is_ws(s[k - 1]),
    ensures
        trim_end_len(s) == k,
    decreases s.len() - k,
{
    if k < s.len() {
        let t = s.drop_last();
        assert forall|i: int| k <= i < t.len() implies #[trigger] is_ws(t[i]) by {
            assert(t[i] == s[i]);
        }
        if k > 0 {
            assert(t[k - 1] == s[k - 1]);
        }
        assert(is_ws(s.last()));
        lemma_trailing_run(t, k);
    }
}

/// `str::trim`.
pub fn trim_str(s: &str) -> (r: String)
    ensures
        r@ == trim(s@),
{
    let v = chars_of(s);
    let (lo, hi) = trim_bounds(&v);
    string_of(&v, lo, hi)
}

/// `s.trim().is_empty()`: every character is whitespace.
pub fn is_blank(s: &str) -> (r: bool)
    ensures
        r == blank(s@),
        r == (trim(s@).len() == 0),
{
    proof {
        lemma_trim_empty_iff_blank(s@);
    }
    let v = chars_of(s);
    let mut i: usize = 0;
    while i < v.len()
        invariant
            i <= v.len(),
            v@ == s@,
            forall|k: int| 0 <= k < i ==> #[trigger] is_ws(v@[k]),
        decreases v.len() - i,
    {
        if !is_whitespace(v[i]) {
            assert(!is_ws(s@[i as int]));
            proof {
                lemma_trim_empty_iff_blank(s@);
            }
            return false;
        }
        i = i + 1;
    }
    true
}


// ---------------------------------------------------------------------------
// Searching
// ---------------------------------------------------------------------------

/// Whether `needle` occurs in `hay` at index `i`.
pub fn occurs_at_exec(hay: &Vec<char>, needle: &Vec<char>, i: usize) -> (r: bool)
    ensures
        r == occurs_at(hay@, needle@, i as int),
{
    if i > hay.len() || needle.len() > hay.len() - i {
        return false;
    }
    let mut k: usize = 0;
    while k < needle.len()
        invariant
            i + needle.len() <= hay.len(),
            k <= needle.len(),
            forall|j: int| 0 <= j < k ==> hay@[i + j] == needle@[j],
        decreases needle.len() - k,
    {
        if hay[i + k] != needle[k] {
            assert(hay@.subrange(i as int, i + needle.len())[k as int] != needle@[k as int]);
            return false;
        }
        k = k + 1;
    }
    assert(hay@.subrange(i as int, i + needle.len()) =~= needle@);
    true
}

/// First index at or after `from` where `needle` occurs in `hay`.
pub fn find_from(hay: &Vec<char>, needle: &Vec<char>, from: usize) -> (r: Option<usize>)
    ensures
        match r {
            Some(i) => from <= i && occurs_at(hay@, needle@, i as int) && forall|j: int|
                from <= j < i ==> !occurs_at(hay@, needle@, j),
            None => forall|j: int| from <= j ==> !occurs_at(hay@, needle@, j),
        },
{
    let mut i = from;
    while i <= hay.len()
        invariant
            from <= i,
            forall|j: int| from <= j < i ==> !occurs_at(hay@, needle@, j),
        decreases hay.len() + 1 - i,
    {
        if occurs_at_exec(hay, needle, i) {
            return Some(i);
        }
        if i == hay.len() {
            assert forall|j: int| from <= j implies !occurs_at(hay@, needle@, j) by {
                if j > i {
                    assert(j > hay@.len());
                }
            }
            return None;
        }
        i = i + 1;
    }
    None
}

/// `i` is the first index where `needle` occurs in `hay`.
pub open spec fn first_occurrence_at(hay: Seq<char>, needle: Seq<char>, i: int) -> bool {
    occurs_at(hay, needle, i) && forall|j: int| 0 <= j < i ==> !occurs_at(hay, needle, j)
}

/// `str::find` with a string pattern.
pub open spec fn find_str(hay: Seq<char>, needle: Seq<char>) -> Option<int> {
    if exists|i: int| first_occurrence_at(hay, needle, i) {
        Some(choose|i: int| first_occurrence_at(hay, needle, i))
    } else {
        None
    }
}

/// `i` is the last index where `needle` occurs in `hay`.
pub open spec fn last_occurrence_at(hay: Seq<char>, needle: Seq<char>, i: int) -> bool {
    occurs_at(hay, needle, i) && forall|j: int| i < j ==> !occurs_at(hay, needle, j)
}

/// `str::rfind` with a string pattern.
pub open spec fn rfind_str(hay: Seq<char>, needle: Seq<char>) -> Option<int> {
    if exists|i: int| last_occurrence_at(hay, needle, i) {
        Some(choose|i: int| last_occurrence_at(hay, needle, i))
    } else {
        None
    }
}

/// `str::find` on character vectors.
pub fn find_chars(hay: &Vec<char>, needle: &Vec<char>) -> (r: Option<usize>)
    ensures
        match r {
            Some(i) => find_str(hay@, needle@) == Some(i as int),
            None => find_str(hay@, needle@) is None,
        },
        r matches Some(i) ==> occurs_at(hay@, needle@, i as int),
{
    let r = find_from(hay, needle, 0);
    proof {
        match r {
            Some(i) => {
                assert(first_occurrence_at(hay@, needle@, i as int));
                let k = choose|k: int| first_occurrence_at(hay@, needle@, k);
                assert(first_occurrence_at(hay@, needle@, k));
                if k < i {
                    assert(!occurs_at(hay@, needle@, k));
                } else if k > i {
                    assert(!occurs_at(hay@, needle@, i as int));
                }
            },
            None => {
                assert forall|k: int| !first_occurrence_at(hay@, needle@, k) by {
                    if k >= 0 {
                        assert(!occurs_at(hay@, needle@, k));
                    }
                }
            },
        }
    }
    r
}

/// `str::rfind` on character vectors.
pub fn rfind_chars(hay: &Vec<char>, needle: &Vec<char>) -> (r: Option<usize>)
    ensures
        match r {
            Some(i) => rfind_str(hay@, needle@) == Some(i as int),
            None => rfind_str(hay@, needle@) is None,
        },
        r matches Some(i) ==> occurs_at(hay@, needle@, i as int),
{
    let mut last = match find_from(hay, needle, 0) {
        Some(i) => i,
        None => {
            assert forall|k: int| !last_occurrence_at(hay@, needle@, k) by {
                if k >= 0 {
                    assert(!occurs_at(hay@, needle@, k));
                }
            }
            return None;
        },
    };
    loop
        invariant
            occurs_at(hay@, needle@, last as int),
        ensures
            last_occurrence_at(hay@, needle@, last as int),
        decreases hay.len() - last,
    {
        if last >= hay.len() {
            assert forall|j: int| last < j implies !occurs_at(hay@, needle@, j) by {}
            break;
        }
        match find_from(hay, needle, last + 1) {
            Some(k) => {
                last = k;
            },
            None => {
                break;
            },
        }
    }
    proof {
        let k = choose|k: int| last_occurrence_at(hay@, needle@, k);
        assert(last_occurrence_at(hay@, needle@, k));
        if k < last {
            assert(!occurs_at(hay@, needle@, last as int));
        } else if k > last {
            assert(!occurs_at(hay@, needle@, k));
        }
    }
    Some(last)
}

/// `str::contains` on character vectors.
pub fn contains_chars(hay: &Vec<char>, needle: &Vec<char>) -> (r: bool)
    ensures
        r == contains(hay@, needle@),
{
    match find_from(hay, needle, 0) {
        Some(i) => true,
        None => false,
    }
}

/// `str::contains`.
pub fn contains_str(hay: &str, needle: &str) -> (r: bool)
    ensures
        r == contains(hay@, needle@),
{
    let h = chars_of(hay);
    let n = chars_of(needle);
    contains_chars(&h, &n)
}

/// `str::starts_with` on character vectors.
pub fn starts_with_chars(s: &Vec<char>, p: &Vec<char>) -> (r: bool)
    ensures
        r == starts_with(s@, p@),
{
    occurs_at_exec(s, p, 0)
}

/// `str::ends_with` on character vectors.
pub fn ends_with_chars(s: &Vec<char>, p: &Vec<char>) -> (r: bool)
    ensures
        r == ends_with(s@, p@),
{
    if p.len() > s.len() {
        false
    } else {
        occurs_at_exec(s, p, s.len() - p.len())
    }
}

/// Index of the first occurrence of `c` in `v`.
pub fn find_char(v: &Vec<char>, c: char) -> (r: Option<usize>)
    ensures
        match r {
            Some(i) => i < v.len() && v@[i as int] == c && forall|j: int| 0 <= j < i ==> v@[j] != c,
            None => forall|j: int| 0 <= j < v.len() ==> v@[j] != c,
        },
{
    let mut i: usize = 0;
    while i < v.len()
        invariant
            i <= v.len(),
            forall|j: int| 0 <= j < i ==> v@[j] != c,
        decreases v.len() - i,
    {
        if v[i] == c {
            return Some(i);
        }
        i = i + 1;
    }
    None
}

/// Index of the last occurrence of `c` in `v`.
pub fn rfind_char(v: &Vec<char>, c: char) -> (r: Option<usize>)
    ensures
        match r {
            Some(i) => i < v.len() && v@[i as int] == c && forall|j: int| i < j < v.len() ==> v@[j]
                != c,
            None => forall|j: int| 0 <= j < v.len() ==> v@[j] != c,
        },
{
    let mut i: usize = v.len();
    while i > 0
        invariant
            i <= v.len(),
            forall|j: int| i <= j < v.len() ==> v@[j] != c,
        decreases i,
    {
        if v[i - 1] == c {
            return Some(i - 1);
        }
        i = i - 1;
    }
    None
}

/// `char::to_ascii_lowercase`.
pub fn lower_char_exec(c: char) -> (r: char)
    ensures
        r == lower_char(c),
{
    if 'A' <= c && c <= 'Z' {
        let u = c as u32 + 32;
        assert(u == (c as u32) + 32);
        char_from_ascii(u)
    } else {
        c
    }
}

/// The character with an ASCII code point.
fn char_from_ascii(u: u32) -> (r: char)
    requires
        u < 128,
    ensures
        r == u as char,
        r as u32 == u,
{
    let b: u8 = u as u8;
    b as char
}

/// `str::to_ascii_lowercase` on character vectors.
pub fn lower_chars(v: &Vec<char>) -> (r: Vec<char>)
    ensures
        r@ == lower(v@),
{
    let mut r: Vec<char> = Vec::new();
    let mut i: usize = 0;
    while i < v.len()
        invariant
            i <= v.len(),
            r@ == lower(v@.subrange(0, i as int)),
        decreases v.len() - i,
    {
        r.push(lower_char_exec(v[i]));
        assert(lower(v@.subrange(0, i + 1)) =~= lower(v@.subrange(0, i as int)).push(
            lower_char(v@[i as int]),
        ));
        i = i + 1;
    }
    assert(v@.subrange(0, v@.len() as int) == v@);
    r
}

// ---------------------------------------------------------------------------
// Numbers
// ---------------------------------------------------------------------------

/// The decimal digit for `d < 10`.
pub fn digit(d: u64) -> (r: char)
    requires
        d < 10,
    ensures
        r == digit_char(d as nat),
{
    if d == 0 {
        '0'
    } else if d == 1 {
        '1'
    } else if d == 2 {
        '2'
    } else if d == 3 {
        '3'
    } else if d == 4 {
        '4'
    } else if d == 5 {
        '5'
    } else if d == 6 {
        '6'
    } else if d == 7 {
        '7'
    } else if d == 8 {
        '8'
    } else {
        '9'
    }
}

/// Appends the decimal digits of `n` to `out`.
fn push_dec(n: u64, out: &mut Vec<char>)
    ensures
        final(out)@ == old(out)@ + dec_nat(n as nat),
    decreases n,
{
    if n >= 10 {
        push_dec(n / 10, out);
    }
    out.push(digit(n % 10));
    assert(dec_nat(n as nat) == if n < 10 {
        seq![digit_char(n as nat)]
    } else {
        dec_nat((n / 10) as nat).push(digit_char((n % 10) as nat))
    });
}

/// The decimal rendering of an unsigned number.
pub fn fmt_u64(n: u64) -> (r: String)
    ensures
        r@ == dec(n as int),
{
    let mut v: Vec<char> = Vec::new();
    push_dec(n, &mut v);
    assert(v@ =~= dec_nat(n as nat));
    string_from(&v)
}

/// The decimal rendering of a signed number.
pub fn fmt_i64(n: i64) -> (r: String)
    ensures
        r@ == dec(n as int),
{
    let mut v: Vec<char> = Vec::new();
    if n < 0 {
        v.push('-');
        let m: u64 = if n == i64::MIN {
            9223372036854775808u64
        } else {
            (0 - n) as u64
        };
        push_dec(m, &mut v);
        assert(v@ =~= seq!['-'] + dec_nat((-n) as nat));
    } else {
        push_dec(n as u64, &mut v);
        assert(v@ =~= dec_nat(n as nat));
    }
    string_from(&v)
}

/// The decimal rendering of an `i32`.
pub fn fmt_i32(n: i32) -> (r: String)
    ensures
        r@ == dec(n as int),
{
    fmt_i64(n as i64)
}

/// Whether `c` is an ASCII digit.
pub fn is_digit_exec(c: char) -> (r: bool)
    ensures
        r == is_digit(c),
{
    '0' <= c && c <= '9'
}

/// Reads the ASCII digits `v[lo..]` as a base-ten number, giving up above `limit`.
fn digits_upto(v: &Vec<char>, lo: usize, limit: u64) -> (r: Option<u64>)
    requires
        lo <= v.len(),
    ensures
        match r {
            Some(x) => all_digits(v@.subrange(lo as int, v@.len() as int)) && x == digits_value(
                v@.subrange(lo as int, v@.len() as int),
            ) && x <= limit,
            None => !(all_digits(v@.subrange(lo as int, v@.len() as int)) && digits_value(
                v@.subrange(lo as int, v@.len() as int),
            ) <= limit),
        },
{
    let ghost d = v@.subrange(lo as int, v@.len() as int);
    if lo == v.len() {
        return None;
    }
    let mut acc: u128 = 0;
    let mut i = lo;
    while i < v.len()
        invariant
            lo <= i <= v.len(),
            d == v@.subrange(lo as int, v@.len() as int),
            acc <= limit,
            forall|k: int| lo <= k < i ==> #[trigger] is_digit(v@[k]),
            acc == digits_value(v@.subrange(lo as int, i as int)),
        decreases v.len() - i,
    {
        let c = v[i];
        if !is_digit_exec(c) {
            assert(d[i - lo] == c);
            return None;
        }
        let dv = (c as u32 - '0' as u32) as u128;
        assert(v@.subrange(lo as int, i + 1).drop_last() == v@.subrange(lo as int, i as int));
        assert(dv == digit_val(c));
        let next = acc * 10 + dv;
        if next > limit as u128 {
            proof {
                lemma_digits_value_prefix_mono(d, (i + 1 - lo) as int);
                assert(d.subrange(0, i + 1 - lo) == v@.subrange(lo as int, i + 1));
            }
            return None;
        }
        acc = next;
        i = i + 1;
    }
    assert(v@.subrange(lo as int, i as int) == d);
    Some(acc as u64)
}

/// A prefix of a digit string never has a larger value than the whole.
proof fn lemma_digits_value_prefix_mono(s: Seq<char>, k: int)
    requires
        0 <= k <= s.len(),
        forall|i: int| 0 <= i < k ==> #[trigger] is_digit(s[i]),
    ensures
        all_digits(s) ==> digits_value(s.subrange(0, k)) <= digits_value(s),
    decreases s.len() - k,
{
    if k < s.len() && all_digits(s) {
        lemma_digits_value_prefix_mono(s, k + 1);
        assert(s.subrange(0, k + 1).drop_last() == s.subrange(0, k));
    }
    if k == s.len() {
        assert(s.subrange(0, k) == s);
    }
}

/// `u32::from_str` on the characters `v`.
pub fn parse_u32_chars(v: &Vec<char>) -> (r: Option<u32>)
    ensures
        r == parse_u32(v@),
{
    let lo: usize = if v.len() > 0 && v[0] == '+' { 1 } else { 0 };
    proof {
        if lo == 1 {
            assert(v@.drop_first() == v@.subrange(1, v@.len() as int));
        } else {
            assert(v@ == v@.subrange(0, v@.len() as int));
        }
    }
    match digits_upto(v, lo, 0xFFFF_FFFF) {
        Some(x) => Some(x as u32),
        None => None,
    }
}

/// `i64::from_str` on the characters `v`.
pub fn parse_i64_chars(v: &Vec<char>) -> (r: Option<i64>)
    ensures
        r == parse_i64(v@),
{
    if v.len() > 0 && v[0] == '-' {
        assert(v@.drop_first() == v@.subrange(1, v@.len() as int));
        match digits_upto(v, 1, 0x8000_0000_0000_0000) {
            Some(x) => {
                if x == 0x8000_0000_0000_0000 {
                    Some(i64::MIN)
                } else {
                    Some(0 - (x as i64))
                }
            },
            None => None,
        }
    } else {
        let lo: usize = if v.len() > 0 && v[0] == '+' { 1 } else { 0 };
        proof {
            if lo == 1 {
                assert(v@.drop_first() == v@.subrange(1, v@.len() as int));
            } else {
                assert(v@ == v@.subrange(0, v@.len() as int));
            }
        }
        match digits_upto(v, lo, 0x7FFF_FFFF_FFFF_FFFF) {
            Some(x) => Some(x as i64),
            None => None,
        }
    }
}


// ---------------------------------------------------------------------------
// Splitting
// ---------------------------------------------------------------------------

/// `str::split` on a single character: the pieces between occurrences of `c`.
/// There is always at least one piece.
pub open spec fn split_on(s: Seq<char>, c: char) -> Seq<Seq<char>>
    decreases s.len(),
{
    if s.len() == 0 {
        seq![Seq::<char>::empty()]
    } else {
        let rest = split_on(s.drop_first(), c);
        if s[0] == c {
            seq![Seq::<char>::empty()] + rest
        } else {
            rest.update(0, seq![s[0]] + rest[0])
        }
    }
}

/// The pieces joined back together with `c` between consecutive ones.
pub open spec fn join_with(pieces: Seq<Seq<char>>, c: char) -> Seq<char>
    decreases pieces.len(),
{
    if pieces.len() == 0 {
        Seq::empty()
    } else if pieces.len() == 1 {
        pieces[0]
    } else {
        pieces[0] + seq![c] + join_with(pieces.drop_first(), c)
    }
}

/// `c` does not occur in `s`.
pub open spec fn free_of(s: Seq<char>, c: char) -> bool {
    forall|i: int| 0 <= i < s.len() ==> s[i] != c
}

/// `split_on` always yields at least one piece.
pub proof fn lemma_split_nonempty(s: Seq<char>, c: char)
    ensures
        split_on(s, c).len() >= 1,
    decreases s.len(),
{
    if s.len() > 0 {
        lemma_split_nonempty(s.drop_first(), c);
    }
}

/// A string free of `c` splits into itself alone.
pub proof fn lemma_split_free(s: Seq<char>, c: char)
    requires
        free_of(s, c),
    ensures
        split_on(s, c) == seq![s],
    decreases s.len(),
{
    if s.len() > 0 {
        let t = s.drop_first();
        assert(free_of(t, c)) by {
            assert forall|i: int| 0 <= i < t.len() implies t[i] != c by {
                assert(t[i] == s[i + 1]);
            }
        }
        lemma_split_free(t, c);
        assert(seq![s[0]] + t == s);
        assert(split_on(s, c) =~= seq![s]);
    } else {
        assert(s =~= Seq::<char>::empty());
    }
}

/// Splitting `a c b` with `a` free of `c` gives `a` followed by the pieces of `b`.
pub proof fn lemma_split_first(a: Seq<char>, b: Seq<char>, c: char)
    requires
        free_of(a, c),
    ensures
        split_on(a + seq![c] + b, c) == seq![a] + split_on(b, c),
    decreases a.len(),
{
    let x = a + seq![c] + b;
    if a.len() == 0 {
        assert(x.drop_first() =~= b);
        assert(x[0] == c);
        assert(a =~= Seq::<char>::empty());
        assert(split_on(x, c) == seq![Seq::<char>::empty()] + split_on(x.drop_first(), c));
    } else {
        let a2 = a.drop_first();
        assert(free_of(a2, c)) by {
            assert forall|i: int| 0 <= i < a2.len() implies a2[i] != c by {
                assert(a2[i] == a[i + 1]);
            }
        }
        lemma_split_first(a2, b, c);
        assert(x.drop_first() =~= a2 + seq![c] + b);
        assert(x[0] == a[0]);
        assert(a[0] != c);
        let rest = split_on(x.drop_first(), c);
        assert(rest == seq![a2] + split_on(b, c));
        assert(seq![a[0]] + a2 =~= a);
        assert(rest.update(0, seq![x[0]] + rest[0]) =~= seq![a] + split_on(b, c));
    }
}

/// Joining the pieces of a split restores the string.
pub proof fn lemma_join_split(s: Seq<char>, c: char)
    ensures
        join_with(split_on(s, c), c) == s,
    decreases s.len(),
{
    if s.len() > 0 {
        let t = s.drop_first();
        lemma_join_split(t, c);
        lemma_split_nonempty(t, c);
        let rest = split_on(t, c);
        if s[0] == c {
            let p = seq![Seq::<char>::empty()] + rest;
            assert(p.drop_first() =~= rest);
            assert(p.len() >= 2);
            assert(join_with(p, c) == p[0] + seq![c] + join_with(rest, c));
            assert(seq![c] + t =~= s);
            assert(Seq::<char>::empty() + seq![c] + t =~= s);
        } else {
            let p = rest.update(0, seq![s[0]] + rest[0]);
            if rest.len() == 1 {
                assert(join_with(rest, c) == rest[0]);
                assert(seq![s[0]] + t =~= s);
            } else {
                assert(p.drop_first() =~= rest.drop_first());
                assert(join_with(rest, c) == rest[0] + seq![c] + join_with(rest.drop_first(), c));
                assert(join_with(p, c) == p[0] + seq![c] + join_with(p.drop_first(), c));
                assert(seq![s[0]] + t =~= s);
                assert(seq![s[0]] + (rest[0] + seq![c] + join_with(rest.drop_first(), c)) =~= (
                seq![s[0]] + rest[0]) + seq![c] + join_with(rest.drop_first(), c));
            }
        }
    }
}

/// No piece of a split contains the separator.
pub proof fn lemma_split_pieces_free(s: Seq<char>, c: char)
    ensures
        forall|k: int| 0 <= k < split_on(s, c).len() ==> free_of(#[trigger] split_on(s, c)[k], c),
    decreases s.len(),
{
    if s.len() > 0 {
        let t = s.drop_first();
        lemma_split_pieces_free(t, c);
        lemma_split_nonempty(t, c);
        let rest = split_on(t, c);
        if s[0] != c {
            assert(free_of(seq![s[0]] + rest[0], c)) by {
                assert(free_of(rest[0], c));
                let q = seq![s[0]] + rest[0];
                assert forall|i: int| 0 <= i < q.len() implies q[i] != c by {
                    if i > 0 {
                        assert(q[i] == rest[0][i - 1]);
                    }
                }
            }
        } else {
            let p = seq![Seq::<char>::empty()] + rest;
            assert forall|k: int| 0 <= k < p.len() implies free_of(#[trigger] p[k], c) by {
                if k > 0 {
                    assert(p[k] == rest[k - 1]);
                }
            }
        }
    }
}

/// `str::split` on a single character.
pub fn split_chars(v: &Vec<char>, c: char) -> (r: Vec<Vec<char>>)
    ensures
        r@.len() == split_on(v@, c).len(),
        forall|k: int| 0 <= k < r@.len() ==> (#[trigger] r@[k])@ == split_on(v@, c)[k],
{
    let mut r: Vec<Vec<char>> = Vec::new();
    let mut piece: Vec<char> = Vec::new();
    let ghost mut done: Seq<Seq<char>> = Seq::empty();
    let mut st: usize = 0;
    let mut i: usize = 0;
    assert(v@.subrange(0, v@.len() as int) =~= v@);
    assert(done + split_on(v@, c) =~= split_on(v@, c));
    while i < v.len()
        invariant
            st <= i <= v.len(),
            piece@ == v@.subrange(st as int, i as int),
            free_of(piece@, c),
            r@.len() == done.len(),
            forall|k: int| 0 <= k < r@.len() ==> (#[trigger] r@[k])@ == done[k],
            split_on(v@, c) == done + split_on(v@.subrange(st as int, v@.len() as int), c),
        decreases v.len() - i,
    {
        if v[i] == c {
            proof {
                let a = v@.subrange(st as int, i as int);
                let b = v@.subrange(i + 1, v@.len() as int);
                assert(v@.subrange(st as int, v@.len() as int) =~= a + seq![c] + b);
                lemma_split_first(a, b, c);
                done = done.push(a);
                assert(split_on(v@, c) =~= done + split_on(b, c));
            }
            r.push(piece);
            piece = Vec::new();
            st = i + 1;
        } else {
            piece.push(v[i]);
            proof {
                assert(v@.subrange(st as int, i + 1) =~= v@.subrange(st as int, i as int).push(v@[i as int]));
                assert(free_of(piece@, c)) by {
                    assert forall|j: int| 0 <= j < piece@.len() implies piece@[j] != c by {
                        if j < piece@.len() - 1 {
                            assert(piece@[j] == v@.subrange(st as int, i as int)[j]);
                        }
                    }
                }
            }
        }
        i = i + 1;
    }
    proof {
        lemma_split_free(piece@, c);
        done = done.push(piece@);
    }
    r.push(piece);
    assert(split_on(v@, c) =~= done);
    r
}


// ---------------------------------------------------------------------------
// Trimming a given character
// ---------------------------------------------------------------------------

/// `str::trim_start_matches(c)`.
pub open spec fn trim_start_char(s: Seq<char>, c: char) -> Seq<char>
    decreases s.len(),
{
    if s.len() > 0 && s[0] == c {
        trim_start_char(s.drop_first(), c)
    } else {
        s
    }
}

/// `str::trim_end_matches(c)`.
pub open spec fn trim_end_char(s: Seq<char>, c: char) -> Seq<char>
    decreases s.len(),
{
    if s.len() > 0 && s.last() == c {
        trim_end_char(s.drop_last(), c)
    } else {
        s
    }
}

/// `str::trim_matches(c)`.
pub open spec fn trim_char(s: Seq<char>, c: char) -> Seq<char> {
    trim_end_char(trim_start_char(s, c), c)
}

/// A run of `k` copies of `c` starting `s`, not followed by another `c`, is what
/// `trim_start_char` removes.
proof fn lemma_trim_start_char_run(s: Seq<char>, c: char, k: int)
    requires
        0 <= k <= s.len(),
        forall|i: int| 0 <= i < k ==> s[i] == c,
        k < s.len() ==> s[k] != c,
    ensures
        trim_start_char(s, c) == s.subrange(k, s.len() as int),
    decreases k,
{
    if k > 0 {
        let t = s.drop_first();
        assert forall|i: int| 0 <= i < k - 1 implies t[i] == c by {
            assert(t[i] == s[i + 1]);
        }
        if k - 1 < t.len() {
            assert(t[k - 1] == s[k]);
        }
        lemma_trim_start_char_run(t, c, k - 1);
        assert(t.subrange(k - 1, t.len() as int) == s.subrange(k, s.len() as int));
    } else {
        assert(s.subrange(0, s.len() as int) == s);
    }
}

/// A run of copies of `c` ending `s` from `k`, not preceded by another `c`, is
/// what `trim_end_char` removes.
proof fn lemma_trim_end_char_run(s: Seq<char>, c: char, k: int)
    requires
        0 <= k <= s.len(),
        forall|i: int| k <= i < s.len() ==> s[i] == c,
        k > 0 ==> s[k - 1] != c,
    ensures
        trim_end_char(s, c) == s.subrange(0, k),
    decreases s.len() - k,
{
    if k < s.len() {
        let t = s.drop_last();
        assert forall|i: int| k <= i < t.len() implies t[i] == c by {
            assert(t[i] == s[i]);
        }
        if k > 0 {
            assert(t[k - 1] == s[k - 1]);
        }
        lemma_trim_end_char_run(t, c, k);
        assert(t.subrange(0, k) == s.subrange(0, k));
    } else {
        assert(s.subrange(0, s.len() as int) == s);
    }
}

/// Bounds `[lo, hi)` of `v` once leading (when `front`) and trailing copies of
/// `c` are removed.
pub fn trim_char_bounds(v: &Vec<char>, c: char, front: bool) -> (r: (usize, usize))
    ensures
        r.0 <= r.1 <= v.len(),
        front ==> trim_char(v@, c) == v@.subrange(r.0 as int, r.1 as int),
        !front ==> trim_end_char(v@, c) == v@.subrange(r.0 as int, r.1 as int),
{
    let n = v.len();
    let mut i: usize = 0;
    if front {
        while i < n && v[i] == c
            invariant
                i <= n == v.len(),
                forall|k: int| 0 <= k < i ==> v@[k] == c,
            decreases n - i,
        {
            i = i + 1;
        }
        proof {
            lemma_trim_start_char_run(v@, c, i as int);
        }
    }
    let ghost t = v@.subrange(i as int, n as int);
    let mut j: usize = n;
    while j > i && v[j - 1] == c
        invariant
            i <= j <= n == v.len(),
            t == v@.subrange(i as int, n as int),
            forall|k: int| j <= k < n ==> v@[k] == c,
        decreases j - i,
    {
        j = j - 1;
    }
    proof {
        assert forall|k: int| j - i <= k < t.len() implies t[k] == c by {
            assert(t[k] == v@[k + i]);
        }
        if j > i {
            assert(t[j - i - 1] == v@[j - 1]);
        }
        lemma_trim_end_char_run(t, c, j - i);
        assert(t.subrange(0, j - i) == v@.subrange(i as int, j as int));
        if !front {
            assert(t == v@);
        }
    }
    (i, j)
}

/// `str::trim_end_matches(c)`.
pub fn trim_end_char_str(s: &str, c: char) -> (r: String)
    ensures
        r@ == trim_end_char(s@, c),
{
    let v = chars_of(s);
    let (lo, hi) = trim_char_bounds(&v, c, false);
    string_of(&v, lo, hi)
}


// ---------------------------------------------------------------------------
// Views of string collections
// ---------------------------------------------------------------------------

/// The views of a sequence of strings.
pub open spec fn strs(v: Seq<String>) -> Seq<Seq<char>> {
    v.map_values(|s: String| s@)
}

/// The view of an optional string.
pub open spec fn opt_str(o: Option<String>) -> Option<Seq<char>> {
    match o {
        Some(s) => Some(s@),
        None => None,
    }
}

/// The optional string kept only when it is present and not blank
/// (`Option::filter(|s| !s.trim().is_empty())`).
pub open spec fn filled(o: Option<Seq<char>>) -> Option<Seq<char>> {
    match o {
        Some(s) => if blank(s) {
            None
        } else {
            Some(s)
        },
        None => None,
    }
}

/// A copy of an optional string, kept only when present and not blank.
pub fn filled_opt(o: &Option<String>) -> (r: Option<String>)
    ensures
        opt_str(r) == filled(opt_str(*o)),
{
    match o {
        Some(s) => if is_blank(s.as_str()) {
            None
        } else {
            Some(copy(s.as_str()))
        },
        None => None,
    }
}

/// The first piece of `s` split on `c`: everything before the first `c`.
pub fn before_first(s: &str, c: char) -> (r: String)
    ensures
        r@ == split_on(s@, c)[0],
{
    let v = chars_of(s);
    match find_char(&v, c) {
        Some(k) => {
            proof {
                let a = v@.subrange(0, k as int);
                let b = v@.subrange(k + 1, v@.len() as int);
                assert(v@ =~= a + seq![c] + b);
                lemma_split_first(a, b, c);
            }
            string_of(&v, 0, k)
        },
        None => {
            proof {
                lemma_split_free(v@, c);
            }
            string_from(&v)
        },
    }
}


/// `trim_start_char` keeps a suffix whose first character is not `c`.
pub proof fn lemma_trim_start_char_suffix(s: Seq<char>, c: char)
    ensures
        trim_start_char(s, c).len() <= s.len(),
        trim_start_char(s, c) == s.subrange(s.len() - trim_start_char(s, c).len(), s.len() as int),
        trim_start_char(s, c).len() > 0 ==> trim_start_char(s, c)[0] != c,
    decreases s.len(),
{
    if s.len() > 0 && s[0] == c {
        lemma_trim_start_char_suffix(s.drop_first(), c);
        let t = s.drop_first();
        assert(t.subrange(t.len() - trim_start_char(t, c).len(), t.len() as int) == s.subrange(
            s.len() - trim_start_char(s, c).len(),
            s.len() as int,
        ));
    } else {
        assert(s.subrange(0, s.len() as int) == s);
    }
}

/// `trim_end_char` keeps a prefix whose last character is not `c`.
pub proof fn lemma_trim_end_char_prefix(s: Seq<char>, c: char)
    ensures
        trim_end_char(s, c).len() <= s.len(),
        trim_end_char(s, c) == s.subrange(0, trim_end_char(s, c).len() as int),
        trim_end_char(s, c).len() > 0 ==> trim_end_char(s, c).last() != c,
    decreases s.len(),
{
    if s.len() > 0 && s.last() == c {
        lemma_trim_end_char_prefix(s.drop_last(), c);
        let t = s.drop_last();
        assert(t.subrange(0, trim_end_char(t, c).len() as int) == s.subrange(
            0,
            trim_end_char(s, c).len() as int,
        ));
    } else {
        assert(s.subrange(0, s.len() as int) == s);
    }
}

/// `trim_char` neither starts nor ends with `c`, and keeps only characters of
/// `s`: a character `x` absent from `s` is absent from the result.
pub proof fn lemma_trim_char_shape(s: Seq<char>, c: char, x: char)
    requires
        forall|j: int| 0 <= j < s.len() ==> s[j] != x,
    ensures
        trim_char(s, c).len() > 0 ==> trim_char(s, c)[0] != c && trim_char(s, c).last() != c,
        forall|i: int| 0 <= i < trim_char(s, c).len() ==> #[trigger] trim_char(s, c)[i] != x,
{
    lemma_trim_start_char_suffix(s, c);
    let t = trim_start_char(s, c);
    lemma_trim_end_char_prefix(t, c);
    let r = trim_end_char(t, c);
    if r.len() > 0 {
        assert(r[0] == t[0]);
    }
    assert forall|i: int| 0 <= i < r.len() implies #[trigger] r[i] != x by {
        assert(r[i] == t[i]);
        assert(t[i] == s[s.len() - t.len() + i]);
    }
}


// ---------------------------------------------------------------------------
// Ordering
// ---------------------------------------------------------------------------

/// The lower-cased combined output `stdout \n stderr`.
pub open spec fn combined_lower(stdout: Seq<char>, stderr: Seq<char>) -> Seq<char> {
    lower(stdout + seq!['\n'] + stderr)
}

/// The lower-cased combined output of a command.
pub fn combined_output(stdout: &str, stderr: &str) -> (r: Vec<char>)
    ensures
        r@ == combined_lower(stdout@, stderr@),
{
    let mut v = chars_of(stdout);
    v.push('\n');
    let e = chars_of(stderr);
    let mut i: usize = 0;
    let ghost head = v@;
    while i < e.len()
        invariant
            i <= e.len(),
            v@ == head + e@.subrange(0, i as int),
        decreases e.len() - i,
    {
        v.push(e[i]);
        assert(e@.subrange(0, i + 1) == e@.subrange(0, i as int).push(e@[i as int]));
        i = i + 1;
    }
    assert(e@.subrange(0, e@.len() as int) == e@);
    lower_chars(&v)
}

/// Whether `needle` occurs in the character vector `hay`.
pub fn has(hay: &Vec<char>, needle: &str) -> (r: bool)
    ensures
        r == contains(hay@, needle@),
{
    let n = chars_of(needle);
    contains_chars(hay, &n)
}

/// `a < b` in the order of `str`'s `Ord`: lexicographic by code point (which is
/// also the byte order of the UTF-8 encodings).
pub open spec fn lex_lt(a: Seq<char>, b: Seq<char>) -> bool
    decreases a.len(),
{
    if a.len() == 0 {
        b.len() > 0
    } else if b.len() == 0 {
        false
    } else if a[0] != b[0] {
        a[0] < b[0]
    } else {
        lex_lt(a.drop_first(), b.drop_first())
    }
}

/// `lex_lt` is irreflexive.
pub proof fn lemma_lex_irreflexive(a: Seq<char>)
    ensures
        !lex_lt(a, a),
    decreases a.len(),
{
    if a.len() > 0 {
        lemma_lex_irreflexive(a.drop_first());
    }
}

/// `lex_lt` is transitive.
pub proof fn lemma_lex_transitive(a: Seq<char>, b: Seq<char>, c: Seq<char>)
    requires
        lex_lt(a, b),
        lex_lt(b, c),
    ensures
        lex_lt(a, c),
    decreases a.len(),
{
    if a.len() > 0 && b.len() > 0 && c.len() > 0 {
        if a[0] == b[0] && b[0] == c[0] {
            lemma_lex_transitive(a.drop_first(), b.drop_first(), c.drop_first());
        }
    }
}

/// `lex_lt` is total: distinct strings are ordered one way or the other.
pub proof fn lemma_lex_total(a: Seq<char>, b: Seq<char>)
    ensures
        a == b || lex_lt(a, b) || lex_lt(b, a),
    decreases a.len(),
{
    if a.len() > 0 && b.len() > 0 {
        if a[0] == b[0] {
            lemma_lex_total(a.drop_first(), b.drop_first());
            if a.drop_first() == b.drop_first() {
                assert(a =~= seq![a[0]] + a.drop_first());
                assert(b =~= seq![b[0]] + b.drop_first());
            }
        }
    } else if a.len() == 0 && b.len() == 0 {
        assert(a =~= b);
    }
}

/// `lex_lt` on character vectors.
pub fn lex_lt_chars(a: &Vec<char>, b: &Vec<char>) -> (r: bool)
    ensures
        r == lex_lt(a@, b@),
{
    let mut i: usize = 0;
    assert(a@.subrange(0, a@.len() as int) == a@);
    assert(b@.subrange(0, b@.len() as int) == b@);
    while i < a.len() && i < b.len()
        invariant
            i <= a.len(),
            i <= b.len(),
            lex_lt(a@, b@) == lex_lt(a@.subrange(i as int, a@.len() as int), b@.subrange(i as int, b@.len() as int)),
        decreases a.len() - i,
    {
        let x = a[i];
        let y = b[i];
        let ghost sa = a@.subrange(i as int, a@.len() as int);
        let ghost sb = b@.subrange(i as int, b@.len() as int);
        if x != y {
            assert(sa[0] == x && sb[0] == y);
            return x < y;
        }
        assert(sa.drop_first() == a@.subrange(i + 1, a@.len() as int));
        assert(sb.drop_first() == b@.subrange(i + 1, b@.len() as int));
        i = i + 1;
    }
    let ghost sa = a@.subrange(i as int, a@.len() as int);
    let ghost sb = b@.subrange(i as int, b@.len() as int);
    assert(sa.len() == 0 || sb.len() == 0);
    i == a.len() && i < b.len()
}

/// Whether two strings are equal.
pub fn str_eq(a: &str, b: &str) -> (r: bool)
    ensures
        r == (a@ == b@),
{
    let x = chars_of(a);
    let y = chars_of(b);
    if x.len() != y.len() {
        return false;
    }
    let mut i: usize = 0;
    while i < x.len()
        invariant
            i <= x.len(),
            x@ == a@,
            y@ == b@,
            x@.len() == y@.len(),
            forall|j: int| 0 <= j < i ==> x@[j] == y@[j],
        decreases x.len() - i,
    {
        if x[i] != y[i] {
            return false;
        }
        i = i + 1;
    }
    assert(x@ =~= y@);
    true
}

/// `a < b` for strings.
pub fn str_lt(a: &str, b: &str) -> (r: bool)
    ensures
        r == lex_lt(a@, b@),
{
    let x = chars_of(a);
    let y = chars_of(b);
    lex_lt_chars(&x, &y)
}


// ---------------------------------------------------------------------------
// Argument lists
// ---------------------------------------------------------------------------

/// `flag item` for every item, in order.
pub open spec fn flag_each(flag: Seq<char>, items: Seq<Seq<char>>) -> Seq<Seq<char>>
    decreases items.len(),
{
    if items.len() == 0 {
        Seq::empty()
    } else {
        flag_each(flag, items.drop_last()) + seq![flag, items.last()]
    }
}

/// Appends `flag item` to `args` for every item of `items`.
pub fn push_flag_each(args: &mut Vec<String>, flag: &str, items: &Vec<String>)
    ensures
        strs(final(args)@) == strs(old(args)@) + flag_each(flag@, strs(items@)),
{
    let ghost start = strs(args@);
    let mut i: usize = 0;
    while i < items.len()
        invariant
            i <= items.len(),
            strs(args@) == start + flag_each(flag@, strs(items@.subrange(0, i as int))),
        decreases items.len() - i,
    {
        let ghost before = args@;
        args.push(copy(flag));
        args.push(copy(items[i].as_str()));
        proof {
            let sub = strs(items@.subrange(0, i + 1));
            assert(sub.drop_last() =~= strs(items@.subrange(0, i as int)));
            assert(sub.last() == items@[i as int]@);
            assert(strs(args@) =~= strs(before) + seq![flag@, items@[i as int]@]);
        }
        i = i + 1;
    }
    assert(items@.subrange(0, items@.len() as int) == items@);
}

/// Appends a copy of `s` to `args`.
pub fn push_str(args: &mut Vec<String>, s: &str)
    ensures
        strs(final(args)@) == strs(old(args)@).push(s@),
{
    args.push(copy(s));
    assert(strs(args@) =~= strs(old(args)@).push(s@));
}

/// The strings of `items` joined with `c` between consecutive ones.
pub fn join_strings(items: &Vec<String>, c: char) -> (r: String)
    ensures
        r@ == join_with(strs(items@), c),
{
    let mut pieces: Vec<Vec<char>> = Vec::new();
    let mut i: usize = 0;
    while i < items.len()
        invariant
            i <= items.len(),
            pieces@.len() == i,
            forall|k: int| 0 <= k < i ==> (#[trigger] pieces@[k])@ == items@[k]@,
        decreases items.len() - i,
    {
        pieces.push(chars_of(items[i].as_str()));
        i = i + 1;
    }
    let joined = crate::paths::join_pieces(&pieces, 0, pieces.len(), c);
    assert(pieces@.subrange(0, pieces@.len() as int).map_values(|v: Vec<char>| v@) =~= strs(items@));
    string_from(&joined)
}


/// Appends `s` when `cond` holds.
pub fn push_if(args: &mut Vec<String>, cond: bool, s: &str)
    ensures
        strs(final(args)@) == strs(old(args)@) + if cond {
            seq![s@]
        } else {
            Seq::<Seq<char>>::empty()
        },
{
    if cond {
        args.push(copy(s));
        assert(strs(args@) =~= strs(old(args)@) + seq![s@]);
    } else {
        assert(strs(args@) =~= strs(old(args)@) + Seq::<Seq<char>>::empty());
    }
}

/// Appends `flag value` when `value` is present.
pub fn push_opt_flag(args: &mut Vec<String>, flag: &str, value: &Option<String>)
    ensures
        strs(final(args)@) == strs(old(args)@) + match opt_str(*value) {
            Some(v) => seq![flag@, v],
            None => Seq::<Seq<char>>::empty(),
        },
{
    match value {
        Some(v) => {
            args.push(copy(flag));
            args.push(copy(v.as_str()));
            assert(strs(args@) =~= strs(old(args)@) + seq![flag@, v@]);
        },
        None => {
            assert(strs(args@) =~= strs(old(args)@) + Seq::<Seq<char>>::empty());
        },
    }
}

/// Appends `value` when it is present.
pub fn push_opt(args: &mut Vec<String>, value: &Option<String>)
    ensures
        strs(final(args)@) == strs(old(args)@) + match opt_str(*value) {
            Some(v) => seq![v],
            None => Seq::<Seq<char>>::empty(),
        },
{
    match value {
        Some(v) => {
            args.push(copy(v.as_str()));
            assert(strs(args@) =~= strs(old(args)@) + seq![v@]);
        },
        None => {
            assert(strs(args@) =~= strs(old(args)@) + Seq::<Seq<char>>::empty());
        },
    }
}

/// The strings of `items` as views, one after the other.
pub fn strings_of(items: &[&str]) -> (r: Vec<String>)
    ensures
        r@.len() == items@.len(),
        forall|k: int| 0 <= k < items@.len() ==> (#[trigger] r@[k])@ == items@[k]@,
{
    let mut r: Vec<String> = Vec::new();
    let mut i: usize = 0;
    while i < items.len()
        invariant
            i <= items@.len(),
            r@.len() == i,
            forall|k: int| 0 <= k < i ==> (#[trigger] r@[k])@ == items@[k]@,
        decreases items@.len() - i,
    {
        r.push(copy(items[i]));
        i = i + 1;
    }
    r
}

} // verus!
