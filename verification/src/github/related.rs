//! `related-items`: the merged pull requests among a set of commits, newest
//! first, and the issues their descriptions say they close, each fetched once.

use vstd::prelude::*;
use crate::github::GithubContext;
use crate::recency::{newest_first, newest_first_of, Dated};
use crate::rx::group;
use crate::text::{all_digits, cat, chars_of, dec, digits_value, fmt_i64, parse_i64, parse_i64_chars, str_eq, string_of, strs};
use crate::uclass::{class_word, classes, digit_end, digit_run_end, is_class_word, space_end, space_run_end, Classes};

verus! {

/// The `related-items` configuration: the commit SHAs to look for and what to
/// report.
pub struct RelatedItemsConfig {
    pub commits: Vec<String>,
    pub include_pull_requests: bool,
    pub include_issues: bool,
}

impl Default for RelatedItemsConfig {
    fn default() -> (r: Self)
        ensures
            r.commits@ == Seq::<String>::empty(),
            r.include_pull_requests,
            r.include_issues,
    {
        RelatedItemsConfig { commits: Vec::new(), include_pull_requests: true, include_issues: true }
    }
}

/// The note logged when there is nothing to look up: no commits were given,
/// and the step succeeds without a request.
pub fn nothing_to_look_up(cfg: &RelatedItemsConfig) -> (r: Option<String>)
    ensures
        r is Some <==> cfg.commits@.len() == 0,
        r matches Some(m) ==> m@ == "No commits provided; skipping related-items lookup."@,
{
    if cfg.commits.len() == 0 {
        Some(String::from_str("No commits provided; skipping related-items lookup."))
    } else {
        None
    }
}

/// A pull request as reported.
pub struct PullRequest {
    pub number: i64,
    pub title: String,
    pub body: Option<String>,
    pub state: String,
    pub created_at: String,
    pub updated_at: String,
    pub merged_at: Option<String>,
    pub merge_commit_sha: Option<String>,
}

impl Dated for PullRequest {
    open spec fn stamp(&self) -> Seq<char> {
        self.created_at@
    }

    fn created_at(&self) -> (r: &String) {
        &self.created_at
    }
}

/// An issue as reported, with the pull request that closes it.
pub struct Issue {
    pub number: i64,
    pub title: String,
    pub body: Option<String>,
    pub state: String,
    pub created_at: String,
    pub updated_at: String,
    pub closed_at: Option<String>,
    pub pull_request_number: i64,
}

impl Dated for Issue {
    open spec fn stamp(&self) -> Seq<char> {
        self.created_at@
    }

    fn created_at(&self) -> (r: &String) {
        &self.created_at
    }
}

/// An issue's fields as fetched; `number` is absent when the reply had none.
pub struct IssueFields {
    pub number: Option<i64>,
    pub title: String,
    pub body: Option<String>,
    pub state: String,
    pub created_at: String,
    pub updated_at: String,
    pub closed_at: Option<String>,
}

/// The listing of all pull requests.
pub fn pulls_path(ctx: &GithubContext) -> (r: String)
    ensures
        r@ == "/repos/"@ + ctx.owner@ + "/"@ + ctx.repo@ + "/pulls?state=all"@,
{
    ctx.repo_path("/pulls?state=all")
}

/// The pull request was merged as one of `shas`.
pub open spec fn merged_by(shas: Seq<Seq<char>>) -> spec_fn(PullRequest) -> bool {
    |p: PullRequest| match p.merge_commit_sha {
        Some(s) => shas.contains(s@),
        None => false,
    }
}

/// Whether `s` is one of `v`.
fn holds(v: &Vec<String>, s: &str) -> (r: bool)
    ensures
        r == strs(v@).contains(s@),
{
    let mut i: usize = 0;
    while i < v.len()
        invariant
            i <= v.len(),
            forall|j: int| 0 <= j < i ==> strs(v@)[j] != s@,
        decreases v.len() - i,
    {
        if str_eq(v[i].as_str(), s) {
            assert(strs(v@)[i as int] == s@);
            return true;
        }
        i = i + 1;
    }
    false
}

/// The pull requests merged as one of `shas`, in their listed order.
fn keep_merged(prs: Vec<PullRequest>, shas: &Vec<String>) -> (r: Vec<PullRequest>)
    ensures
        r@ == prs@.filter(merged_by(strs(shas@))),
{
    let ghost orig = prs@;
    let ghost pred = merged_by(strs(shas@));
    let total = prs.len();
    let mut rest = prs;
    let mut out: Vec<PullRequest> = Vec::new();
    let mut n: usize = 0;
    proof {
        reveal(Seq::filter);
        assert(orig.subrange(0, 0) == Seq::<PullRequest>::empty());
    }
    while rest.len() > 0
        invariant
            n <= orig.len() == total,
            pred == merged_by(strs(shas@)),
            rest@ == orig.subrange(n as int, orig.len() as int),
            out@ == orig.subrange(0, n as int).filter(pred),
        decreases rest.len(),
    {
        assert(n < orig.len());
        let p = rest.remove(0);
        let keep = match &p.merge_commit_sha {
            Some(s) => holds(shas, s.as_str()),
            None => false,
        };
        assert(keep == pred(p));
        proof {
            reveal(Seq::filter);
            let taken = orig.subrange(0, n + 1);
            assert(taken.drop_last() == orig.subrange(0, n as int));
            assert(taken.last() == p);
        }
        if keep {
            out.push(p);
        }
        n = n + 1;
    }
    assert(orig.subrange(0, n as int) == orig);
    out
}

/// The merged pull requests among `shas`, newest first.
pub open spec fn merged_pulls(prs: Seq<PullRequest>, shas: Seq<Seq<char>>) -> Seq<PullRequest> {
    newest_first_of(prs.filter(merged_by(shas)))
}

/// Keeps the pull requests whose merge commit is one of `shas` and orders
/// them newest first.
pub fn merged_pull_requests(prs: Vec<PullRequest>, shas: &Vec<String>) -> (r: Vec<PullRequest>)
    ensures
        r@ == merged_pulls(prs@, strs(shas@)),
{
    newest_first(keep_merged(prs, shas))
}

/// The pattern of a closing reference such as `Fixes #42` (any case).
pub open spec fn closing_source() -> Seq<char> {
    "(?i)\\b(?:close[sd]?|fix(?:e[sd])?|resolve[sd]?)\\s+#(\\d+)"@
}

/// The issue number a closing reference's match names, when its captures
/// are given as the regex reports them: group 1 read as an `i64` (`None`
/// when group 1 did not take part or does not parse).
pub open spec fn match_number(caps: Seq<Option<Seq<char>>>) -> Option<i64> {
    match group(Some(caps), 1) {
        Some(d) => parse_i64(d),
        None => None,
    }
}

/// `c` is the lower-case ASCII letter `t` up to case, as `(?i)` compares
/// (Unicode simple case folding, under which `ſ` is also an `s`).
pub open spec fn ci_eq(c: char, t: char) -> bool {
    c == t || (c as u32) + 32 == (t as u32) || (t == 's' && c == '\u{17f}')
}

/// The word `w` (lower-case ASCII) is written at `i`, in any case.
pub open spec fn word_at(s: Seq<char>, i: int, w: Seq<char>) -> bool {
    0 <= i && i + w.len() <= s.len() && forall|k: int| 0 <= k < w.len() ==> ci_eq(#[trigger] s[i + k], w[k])
}

/// Where a closing keyword written at `i` ends: `close`, `fix` or
/// `resolve`, with its `s`/`d` (for `fix`, `es`/`ed`) ending when one follows.
pub open spec fn keyword_end(s: Seq<char>, i: int) -> Option<int> {
    if word_at(s, i, "close"@) {
        Some(if word_at(s, i + 5, "s"@) || word_at(s, i + 5, "d"@) { i + 6 } else { i + 5 })
    } else if word_at(s, i, "fix"@) {
        Some(if word_at(s, i + 3, "es"@) || word_at(s, i + 3, "ed"@) { i + 5 } else { i + 3 })
    } else if word_at(s, i, "resolve"@) {
        Some(if word_at(s, i + 7, "s"@) || word_at(s, i + 7, "d"@) { i + 8 } else { i + 7 })
    } else {
        None
    }
}

/// A closing reference starting at `i`: at a word boundary, a closing
/// keyword, white space, `#`, and a run of digits, whose range is given.
pub open spec fn reference_at(s: Seq<char>, i: int) -> Option<(int, int)> {
    if 0 <= i < s.len() && (i == 0 || !class_word(s[i - 1])) {
        match keyword_end(s, i) {
            Some(j) => {
                let m = space_end(s, j);
                if m > j && m < s.len() && s[m] == '#' {
                    let d = digit_end(s, m + 1);
                    if d > m + 1 {
                        Some((m + 1, d))
                    } else {
                        None
                    }
                } else {
                    None
                }
            },
            None => None,
        }
    } else {
        None
    }
}

/// The issue numbers of the closing references from `i` on: each reference
/// found at the earliest place, the search going on after its digits; a
/// number that does not fit `i64` is dropped.
pub open spec fn closing_numbers(s: Seq<char>, i: int) -> Seq<i64>
    decreases s.len() - i,
{
    if i < 0 || i >= s.len() {
        Seq::empty()
    } else {
        match reference_at(s, i) {
            Some(p) => if i < p.1 <= s.len() {
                (match parse_i64(s.subrange(p.0, p.1)) {
                    Some(n) => seq![n],
                    None => Seq::empty(),
                }) + closing_numbers(s, p.1)
            } else {
                Seq::empty()
            },
            None => closing_numbers(s, i + 1),
        }
    }
}

/// The issue numbers a description says it closes, in order of mention
/// (a number too large for `i64` is dropped): the references of
/// `closing_source()`.
pub open spec fn referenced_in(body: Seq<char>) -> Seq<i64> {
    closing_numbers(body, 0)
}

/// The closing keywords, in lower case.
pub open spec fn closing_keyword(kw: Seq<char>) -> bool {
    ||| kw == "close"@
    ||| kw == "closes"@
    ||| kw == "closed"@
    ||| kw == "fix"@
    ||| kw == "fixes"@
    ||| kw == "fixed"@
    ||| kw == "resolve"@
    ||| kw == "resolves"@
    ||| kw == "resolved"@
}

/// `w` is `kw` with any of its letters written in upper case.
pub open spec fn any_case_of(w: Seq<char>, kw: Seq<char>) -> bool {
    w.len() == kw.len() && forall|k: int| 0 <= k < w.len() ==> #[trigger] w[k] == kw[k] || (w[k] as u32) + 32 == (kw[k] as u32)
}

/// `w`, a case variant of `kw`, spells each prefix `p` of `kw` at the start
/// of any text that begins with `w`.
proof fn lemma_spells_prefix(s: Seq<char>, w: Seq<char>, kw: Seq<char>, p: Seq<char>, at: int)
    requires
        any_case_of(w, kw),
        0 <= at,
        at + p.len() <= kw.len(),
        kw.subrange(at, at + p.len()) == p,
        w.len() <= s.len(),
        forall|k: int| 0 <= k < w.len() ==> s[k] == w[k],
    ensures
        word_at(s, at, p),
{
    assert forall|k: int| 0 <= k < p.len() implies ci_eq(#[trigger] s[at + k], p[k]) by {
        assert(s[at + k] == w[at + k]);
        assert(p[k] == kw[at + k]);
    }
}

/// A closing keyword, written in any case and followed by a space, `#` and
/// a decimal number that fits `i64`, closes exactly that issue.
pub proof fn lemma_keyword_closes_number(kw: Seq<char>, w: Seq<char>, d: Seq<char>)
    requires
        closing_keyword(kw),
        any_case_of(w, kw),
        all_digits(d),
        digits_value(d) <= i64::MAX,
    ensures
        referenced_in(w + seq![' ', '#'] + d) == seq![digits_value(d) as i64],
{
    reveal_strlit("close");
    reveal_strlit("closes");
    reveal_strlit("closed");
    reveal_strlit("fix");
    reveal_strlit("fixes");
    reveal_strlit("fixed");
    reveal_strlit("resolve");
    reveal_strlit("resolves");
    reveal_strlit("resolved");
    reveal_strlit("s");
    reveal_strlit("d");
    reveal_strlit("es");
    reveal_strlit("ed");
    let s = w + seq![' ', '#'] + d;
    let n = w.len() as int;
    assert(forall|k: int| 0 <= k < n ==> s[k] == w[k]);
    assert(s[n] == ' ');
    assert(s[n + 1] == '#');
    assert forall|k: int| n + 2 <= k < s.len() implies '0' <= #[trigger] s[k] && s[k] <= '9' by {
        assert(s[k] == d[k - n - 2]);
        assert(crate::text::is_digit(d[k - n - 2]));
    }
    // The keyword ends right before the space.
    assert(!word_at(s, n, "s"@) && !word_at(s, n, "d"@) && !word_at(s, n, "es"@) && !word_at(s, n, "ed"@)) by {
        assert(!ci_eq(s[n], 's') && !ci_eq(s[n], 'd') && !ci_eq(s[n], 'e'));
        assert(s[n + 0] == s[n]);
    }
    assert(keyword_end(s, 0) == Some(n)) by {
        if kw == "close"@ || kw == "closes"@ || kw == "closed"@ {
            assert(kw.subrange(0, 5) =~= "close"@);
            lemma_spells_prefix(s, w, kw, "close"@, 0);
            if kw == "closes"@ {
                assert(kw.subrange(5, 6) =~= "s"@);
                lemma_spells_prefix(s, w, kw, "s"@, 5);
            } else if kw == "closed"@ {
                assert(kw.subrange(5, 6) =~= "d"@);
                lemma_spells_prefix(s, w, kw, "d"@, 5);
                assert(!ci_eq(s[5], 's'));
                assert(!word_at(s, 5, "s"@)) by { assert(s[5int + 0int] == s[5]); }
            }
        } else if kw == "fix"@ || kw == "fixes"@ || kw == "fixed"@ {
            assert(!word_at(s, 0, "close"@)) by {
                assert(s[0] == w[0]);
                assert(!ci_eq(s[0], 'c'));
                assert(s[0int + 0int] == s[0]);
            }
            assert(kw.subrange(0, 3) =~= "fix"@);
            lemma_spells_prefix(s, w, kw, "fix"@, 0);
            if kw == "fixes"@ {
                assert(kw.subrange(3, 5) =~= "es"@);
                lemma_spells_prefix(s, w, kw, "es"@, 3);
            } else if kw == "fixed"@ {
                assert(kw.subrange(3, 5) =~= "ed"@);
                lemma_spells_prefix(s, w, kw, "ed"@, 3);
                assert(!ci_eq(s[4], 's'));
                assert(!word_at(s, 3, "es"@)) by { assert(s[3int + 1int] == s[4]); }
            }
        } else {
            assert(!word_at(s, 0, "close"@)) by {
                assert(s[0] == w[0]);
                assert(!ci_eq(s[0], 'c'));
                assert(s[0int + 0int] == s[0]);
            }
            assert(!word_at(s, 0, "fix"@)) by {
                assert(!ci_eq(s[0], 'f'));
                assert(s[0int + 0int] == s[0]);
            }
            assert(kw.subrange(0, 7) =~= "resolve"@);
            lemma_spells_prefix(s, w, kw, "resolve"@, 0);
            if kw == "resolves"@ {
                assert(kw.subrange(7, 8) =~= "s"@);
                lemma_spells_prefix(s, w, kw, "s"@, 7);
            } else if kw == "resolved"@ {
                assert(kw.subrange(7, 8) =~= "d"@);
                lemma_spells_prefix(s, w, kw, "d"@, 7);
                assert(!ci_eq(s[7], 's'));
                assert(!word_at(s, 7, "s"@)) by { assert(s[7int + 0int] == s[7]); }
            }
        }
    }
    assert(space_end(s, n + 1) == n + 1);
    assert(space_end(s, n) == n + 1);
    crate::uclass::lemma_digit_end_at_end(s, n + 2);
    assert(reference_at(s, 0) == Some((n + 2, s.len() as int)));
    assert(s.subrange(n + 2, s.len() as int) =~= d);
    assert(closing_numbers(s, s.len() as int) == Seq::<i64>::empty());
    assert(seq![digits_value(d) as i64] + Seq::<i64>::empty() =~= seq![digits_value(d) as i64]);
}

/// A letter or its upper-case form is an ASCII letter.
proof fn lemma_case_variant_is_letter(c: char, t: char)
    requires
        'a' <= t && t <= 'z',
        c == t || (c as u32) + 32 == (t as u32),
    ensures
        ('a' <= c && c <= 'z') || ('A' <= c && c <= 'Z'),
{
    assert(('a' as u32) == 97 && ('z' as u32) == 122 && ('A' as u32) == 65 && ('Z' as u32) == 90);
    assert((t as u32) >= 97 && (t as u32) <= 122);
    if c != t {
        assert((c as u32) >= 65 && (c as u32) <= 90);
    }
}

/// An ASCII letter is a word character.
proof fn lemma_letter_is_word(c: char)
    requires
        ('a' <= c && c <= 'z') || ('A' <= c && c <= 'Z'),
    ensures
        class_word(c),
{
    assert((c as u32) < 128);
}

/// No closing reference starts at or after `i`: none is read from there.
proof fn lemma_no_references_from(s: Seq<char>, i: int)
    requires
        0 <= i,
        forall|j: int| i <= j < s.len() ==> #[trigger] reference_at(s, j) is None,
    ensures
        closing_numbers(s, i) == Seq::<i64>::empty(),
    decreases s.len() - i,
{
    if i < s.len() {
        lemma_no_references_from(s, i + 1);
    }
}

/// A keyword glued to the end of a word is no closing keyword: a letter
/// right before a closing keyword, followed by a space, `#` and digits,
/// makes the text close nothing.
pub proof fn lemma_glued_keyword_closes_nothing(x: char, kw: Seq<char>, w: Seq<char>, d: Seq<char>)
    requires
        ('a' <= x && x <= 'z') || ('A' <= x && x <= 'Z'),
        closing_keyword(kw),
        any_case_of(w, kw),
        all_digits(d),
    ensures
        referenced_in(seq![x] + w + seq![' ', '#'] + d) == Seq::<i64>::empty(),
{
    reveal_strlit("close");
    reveal_strlit("closes");
    reveal_strlit("closed");
    reveal_strlit("fix");
    reveal_strlit("fixes");
    reveal_strlit("fixed");
    reveal_strlit("resolve");
    reveal_strlit("resolves");
    reveal_strlit("resolved");
    let s = seq![x] + w + seq![' ', '#'] + d;
    let n = w.len() as int;
    assert forall|j: int| 0 <= j < s.len() implies #[trigger] reference_at(s, j) is None by {
        if j == 0 {
            // The keyword's second letter is never a keyword's first letter.
            assert(s[1] == w[0]);
            assert(!ci_eq(s[1], 'l') && !ci_eq(s[1], 'i') && !ci_eq(s[1], 'e'));
            assert(!word_at(s, 0, "close"@)) by {
                assert(s[0int + 1int] == s[1]);
            }
            assert(!word_at(s, 0, "fix"@)) by {
                assert(s[0int + 1int] == s[1]);
            }
            assert(!word_at(s, 0, "resolve"@)) by {
                assert(s[0int + 1int] == s[1]);
            }
        } else if j <= n {
            if j == 1 {
                assert(s[j - 1] == x);
            } else {
                assert(s[j - 1] == w[j - 2]);
                assert(w[j - 2] == kw[j - 2] || (w[j - 2] as u32) + 32 == (kw[j - 2] as u32));
                assert('a' <= kw[j - 2] && kw[j - 2] <= 'z');
                lemma_case_variant_is_letter(w[j - 2], kw[j - 2]);
            }
            lemma_letter_is_word(s[j - 1]);
        } else {
            if j == n + 1 {
                assert(s[j] == ' ');
            } else if j == n + 2 {
                assert(s[j] == '#');
            } else {
                assert(s[j] == d[j - n - 3]);
                assert(crate::text::is_digit(d[j - n - 3]));
            }
            assert(!ci_eq(s[j], 'c') && !ci_eq(s[j], 'f') && !ci_eq(s[j], 'r'));
            assert(!word_at(s, j, "close"@)) by {
                assert(s[j + 0] == s[j]);
            }
            assert(!word_at(s, j, "fix"@)) by {
                assert(s[j + 0] == s[j]);
            }
            assert(!word_at(s, j, "resolve"@)) by {
                assert(s[j + 0] == s[j]);
            }
        }
    }
    lemma_no_references_from(s, 0);
}

/// Whether `c` is `t` up to case.
fn ci_eq_exec(c: char, t: char) -> (r: bool)
    ensures
        r == ci_eq(c, t),
{
    let cu = c as u32;
    let tu = t as u32;
    c == t || (tu >= 32 && cu == tu - 32) || (t == 's' && c == '\u{17f}')
}

/// Whether `w` is written at `i`, in any case.
fn word_at_exec(s: &Vec<char>, i: usize, w: &str) -> (r: bool)
    ensures
        r == word_at(s@, i as int, w@),
{
    let wv = chars_of(w);
    if i > s.len() || wv.len() > s.len() - i {
        return false;
    }
    let mut k: usize = 0;
    while k < wv.len()
        invariant
            i + wv.len() <= s.len(),
            wv@ == w@,
            k <= wv.len(),
            forall|j: int| 0 <= j < k ==> ci_eq(#[trigger] s@[i + j], wv@[j]),
        decreases wv.len() - k,
    {
        let c = s[i + k];
        let t = wv[k];
        if !ci_eq_exec(c, t) {
            assert(!ci_eq(s@[i + k as int], wv@[k as int]));
            return false;
        }
        k = k + 1;
    }
    true
}

/// Where a closing keyword written at `i` ends.
fn keyword_end_exec(s: &Vec<char>, i: usize) -> (r: Option<usize>)
    requires
        i < s.len(),
    ensures
        match r {
            Some(j) => keyword_end(s@, i as int) == Some(j as int) && j <= s.len(),
            None => keyword_end(s@, i as int) is None,
        },
{
    if word_at_exec(s, i, "close") {
        proof {
            reveal_strlit("close");
        }
        if word_at_exec(s, i + 5, "s") || word_at_exec(s, i + 5, "d") {
            proof {
                reveal_strlit("s");
                reveal_strlit("d");
            }
            Some(i + 6)
        } else {
            Some(i + 5)
        }
    } else if word_at_exec(s, i, "fix") {
        proof {
            reveal_strlit("fix");
        }
        if word_at_exec(s, i + 3, "es") || word_at_exec(s, i + 3, "ed") {
            proof {
                reveal_strlit("es");
                reveal_strlit("ed");
            }
            Some(i + 5)
        } else {
            Some(i + 3)
        }
    } else if word_at_exec(s, i, "resolve") {
        proof {
            reveal_strlit("resolve");
        }
        if word_at_exec(s, i + 7, "s") || word_at_exec(s, i + 7, "d") {
            proof {
                reveal_strlit("s");
                reveal_strlit("d");
            }
            Some(i + 8)
        } else {
            Some(i + 7)
        }
    } else {
        None
    }
}

/// The closing reference starting at `i`, if any.
fn reference_at_exec(cl: &Classes, s: &Vec<char>, i: usize) -> (r: Option<(usize, usize)>)
    requires
        cl.wf(),
        i < s.len(),
    ensures
        match r {
            Some(p) => reference_at(s@, i as int) == Some((p.0 as int, p.1 as int)) && i < p.0 < p.1 <= s.len(),
            None => reference_at(s@, i as int) is None,
        },
{
    if i > 0 && is_class_word(cl, s[i - 1]) {
        return None;
    }
    let j = match keyword_end_exec(s, i) {
        Some(j) => j,
        None => return None,
    };
    proof {
        reveal_strlit("close");
        reveal_strlit("fix");
        reveal_strlit("resolve");
    }
    assert(j > i);
    let m = space_run_end(cl, s, j);
    if m > j && m < s.len() && s[m] == '#' {
        let d = digit_run_end(cl, s, m + 1);
        if d > m + 1 {
            Some((m + 1, d))
        } else {
            None
        }
    } else {
        None
    }
}

/// The issue numbers `body` closes via `close/fix/resolve #N`.
pub fn referenced_issues(body: &str) -> (r: Vec<i64>)
    ensures
        r@ == referenced_in(body@),
{
    let cl = classes();
    let s = chars_of(body);
    let mut r: Vec<i64> = Vec::new();
    let mut i: usize = 0;
    assert(r@ + closing_numbers(s@, 0) =~= closing_numbers(s@, 0));
    while i < s.len()
        invariant
            cl.wf(),
            i <= s.len(),
            s@ == body@,
            referenced_in(body@) == r@ + closing_numbers(s@, i as int),
        decreases s.len() - i,
    {
        match reference_at_exec(&cl, &s, i) {
            Some((a, b)) => {
                let t = string_of(&s, a, b);
                let dv = chars_of(t.as_str());
                let ghost before = r@;
                match parse_i64_chars(&dv) {
                    Some(n) => {
                        r.push(n);
                        assert(before + (seq![n] + closing_numbers(s@, b as int)) =~= r@ + closing_numbers(s@, b as int));
                    },
                    None => {
                        assert(before + (Seq::<i64>::empty() + closing_numbers(s@, b as int)) =~= r@ + closing_numbers(s@, b as int));
                    },
                }
                i = b;
            },
            None => {
                i = i + 1;
            },
        }
    }
    assert(closing_numbers(s@, i as int) == Seq::<i64>::empty());
    assert(r@ + Seq::<i64>::empty() =~= r@);
    r
}

/// The closing references of a pull request's description.
pub open spec fn refs_of(p: PullRequest) -> Seq<i64> {
    match p.body {
        Some(b) => referenced_in(b@),
        None => Seq::empty(),
    }
}

/// Issue `n` is already in the plan.
pub open spec fn planned(plan: Seq<(i64, i64)>, n: i64) -> bool {
    exists|i: int| 0 <= i < plan.len() && plan[i].0 == n
}

/// The plan extended with the references `refs` of pull request `pr`, each
/// issue not already planned added once.
pub open spec fn add_refs(plan: Seq<(i64, i64)>, refs: Seq<i64>, pr: i64) -> Seq<(i64, i64)>
    decreases refs.len(),
{
    if refs.len() == 0 {
        plan
    } else {
        let q = add_refs(plan, refs.drop_last(), pr);
        if planned(q, refs.last()) {
            q
        } else {
            q.push((refs.last(), pr))
        }
    }
}

/// The issues to fetch, each with the pull request it is reported under: for
/// each pull request in order, each issue it closes that no earlier one did.
pub open spec fn issue_plan_of(prs: Seq<PullRequest>) -> Seq<(i64, i64)>
    decreases prs.len(),
{
    if prs.len() == 0 {
        Seq::empty()
    } else {
        add_refs(issue_plan_of(prs.drop_last()), refs_of(prs.last()), prs.last().number)
    }
}

/// No two entries of the plan are for one issue.
pub open spec fn plans_once(plan: Seq<(i64, i64)>) -> bool {
    forall|i: int, j: int| 0 <= i < j < plan.len() ==> #[trigger] plan[i].0 != #[trigger] plan[j].0
}

/// Adding references keeps issues unique, keeps what was planned, and plans
/// each reference.
proof fn lemma_add_refs(plan: Seq<(i64, i64)>, refs: Seq<i64>, pr: i64)
    requires
        plans_once(plan),
    ensures
        plans_once(add_refs(plan, refs, pr)),
        add_refs(plan, refs, pr).subrange(0, plan.len() as int) == plan,
        plan.len() <= add_refs(plan, refs, pr).len(),
        forall|k: int| 0 <= k < refs.len() ==> planned(add_refs(plan, refs, pr), #[trigger] refs[k]),
    decreases refs.len(),
{
    if refs.len() > 0 {
        let d = refs.drop_last();
        lemma_add_refs(plan, d, pr);
        let q = add_refs(plan, d, pr);
        if !planned(q, refs.last()) {
            let n = q.push((refs.last(), pr));
            assert forall|i: int, j: int| 0 <= i < j < n.len() implies #[trigger] n[i].0 != #[trigger] n[j].0 by {
                if j == q.len() {
                    assert(n[i] == q[i]);
                } else {
                    assert(n[i] == q[i] && n[j] == q[j]);
                }
            }
            assert(n.subrange(0, plan.len() as int) == q.subrange(0, plan.len() as int));
            assert forall|k: int| 0 <= k < refs.len() implies planned(n, #[trigger] refs[k]) by {
                if k < d.len() {
                    assert(d[k] == refs[k]);
                    assert(planned(q, d[k]));
                    let i = choose|i: int| 0 <= i < q.len() && q[i].0 == d[k];
                    assert(n[i] == q[i]);
                } else {
                    assert(n[q.len() as int].0 == refs[k]);
                }
            }
        } else {
            assert forall|k: int| 0 <= k < refs.len() implies planned(q, #[trigger] refs[k]) by {
                if k < d.len() {
                    assert(d[k] == refs[k]);
                }
            }
        }
    }
}

/// Each issue appears in the plan once, and every issue that a pull request
/// closes is in it.
pub proof fn lemma_issue_plan(prs: Seq<PullRequest>)
    ensures
        plans_once(issue_plan_of(prs)),
        forall|a: int, k: int| 0 <= a < prs.len() && 0 <= k < refs_of(prs[a]).len()
            ==> planned(issue_plan_of(prs), #[trigger] refs_of(#[trigger] prs[a])[k]),
    decreases prs.len(),
{
    if prs.len() > 0 {
        let d = prs.drop_last();
        lemma_issue_plan(d);
        let q = issue_plan_of(d);
        let p = issue_plan_of(prs);
        lemma_add_refs(q, refs_of(prs.last()), prs.last().number);
        assert forall|a: int, k: int| 0 <= a < prs.len() && 0 <= k < refs_of(prs[a]).len()
            implies planned(p, #[trigger] refs_of(#[trigger] prs[a])[k]) by {
            if a < d.len() {
                assert(d[a] == prs[a]);
                assert(planned(q, refs_of(d[a])[k]));
                let i = choose|i: int| 0 <= i < q.len() && q[i].0 == refs_of(d[a])[k];
                assert(p.subrange(0, q.len() as int)[i] == p[i]);
            }
        }
    }
}

/// Whether issue `n` is already in the plan.
fn is_planned(plan: &Vec<(i64, i64)>, n: i64) -> (r: bool)
    ensures
        r == planned(plan@, n),
{
    let mut i: usize = 0;
    while i < plan.len()
        invariant
            i <= plan.len(),
            forall|j: int| 0 <= j < i ==> plan@[j].0 != n,
        decreases plan.len() - i,
    {
        if plan[i].0 == n {
            return true;
        }
        i = i + 1;
    }
    false
}

/// Extends the plan with the references of pull request `pr`.
fn add_refs_to(plan: &mut Vec<(i64, i64)>, refs: &Vec<i64>, pr: i64)
    ensures
        final(plan)@ == add_refs(old(plan)@, refs@, pr),
{
    let ghost start = plan@;
    let mut j: usize = 0;
    assert(refs@.take(0) == Seq::<i64>::empty());
    while j < refs.len()
        invariant
            j <= refs.len(),
            plan@ == add_refs(start, refs@.take(j as int), pr),
        decreases refs.len() - j,
    {
        let n = refs[j];
        assert(refs@.take(j + 1).drop_last() == refs@.take(j as int));
        assert(refs@.take(j + 1).last() == n);
        if !is_planned(plan, n) {
            plan.push((n, pr));
        }
        j = j + 1;
    }
    assert(refs@.take(refs@.len() as int) == refs@);
}

/// The issues to fetch, in order, each with the pull request it is reported
/// under.
pub fn issue_plan(prs: &Vec<PullRequest>) -> (r: Vec<(i64, i64)>)
    ensures
        r@ == issue_plan_of(prs@),
{
    let mut plan: Vec<(i64, i64)> = Vec::new();
    let mut i: usize = 0;
    assert(prs@.take(0) == Seq::<PullRequest>::empty());
    while i < prs.len()
        invariant
            i <= prs.len(),
            plan@ == issue_plan_of(prs@.take(i as int)),
        decreases prs.len() - i,
    {
        let refs = match &prs[i].body {
            Some(b) => referenced_issues(b.as_str()),
            None => Vec::new(),
        };
        assert(refs@ == refs_of(prs@[i as int]));
        add_refs_to(&mut plan, &refs, prs[i].number);
        assert(prs@.take(i + 1).drop_last() == prs@.take(i as int));
        assert(prs@.take(i + 1).last() == prs@[i as int]);
        i = i + 1;
    }
    assert(prs@.take(prs@.len() as int) == prs@);
    plan
}

/// Where issue `number` is fetched.
pub fn issue_path(ctx: &GithubContext, number: i64) -> (r: String)
    ensures
        r@ == "/repos/"@ + ctx.owner@ + "/"@ + ctx.repo@ + "/issues/"@ + dec(number as int),
{
    let n = fmt_i64(number);
    let a = ctx.repo_path("/issues/");
    cat(a.as_str(), n.as_str())
}

/// The issue reported for plan entry `(number, pr)`: its fetched fields, its
/// number as fetched (else the planned one), and the pull request.
pub fn issue_from(fields: IssueFields, number: i64, pr: i64) -> (r: Issue)
    ensures
        r.number == match fields.number {
            Some(n) => n,
            None => number,
        },
        r.title == fields.title,
        r.body == fields.body,
        r.state == fields.state,
        r.created_at == fields.created_at,
        r.updated_at == fields.updated_at,
        r.closed_at == fields.closed_at,
        r.pull_request_number == pr,
{
    Issue {
        number: match fields.number {
            Some(n) => n,
            None => number,
        },
        title: fields.title,
        body: fields.body,
        state: fields.state,
        created_at: fields.created_at,
        updated_at: fields.updated_at,
        closed_at: fields.closed_at,
        pull_request_number: pr,
    }
}

/// Orders the fetched issues newest first.
pub fn newest_issues(issues: Vec<Issue>) -> (r: Vec<Issue>)
    ensures
        r@ == newest_first_of(issues@),
{
    newest_first(issues)
}

} // verus!
