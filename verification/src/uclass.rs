//! The character classes `\d`, `\s` and `\w` of the `regex` syntax (Unicode
//! aware, as the `regex` crate has them by default), one character at a
//! time, and the runs they form. An ASCII character is classified here; any
//! other character is classified by the `regex` crate itself.

use vstd::prelude::*;
use crate::rx::{compile, is_match, regex_is_match, regex_valid, Pattern};
use crate::text::push_char;

verus! {

/// The one-character pattern of `\d`.
pub open spec fn digit_source() -> Seq<char> {
    "^\\d$"@
}

/// The one-character pattern of `\s`.
pub open spec fn space_source() -> Seq<char> {
    "^\\s$"@
}

/// The one-character pattern of `\w`.
pub open spec fn word_source() -> Seq<char> {
    "^\\w$"@
}

/// `c` alone matches the one-character pattern `source`.
pub open spec fn in_class(source: Seq<char>, c: char) -> bool {
    regex_valid(source, false) && regex_is_match(source, false, seq![c])
}

/// `c` is an ASCII character.
pub open spec fn is_ascii_char(c: char) -> bool {
    (c as u32) < 128
}

/// `\d`: an ASCII digit, or a non-ASCII decimal digit.
pub open spec fn class_digit(c: char) -> bool {
    if is_ascii_char(c) {
        '0' <= c && c <= '9'
    } else {
        in_class(digit_source(), c)
    }
}

/// `\s`: ASCII space, tab, line feed, vertical tab, form feed or carriage
/// return, or non-ASCII white space.
pub open spec fn class_space(c: char) -> bool {
    if is_ascii_char(c) {
        c == ' ' || ('\t' <= c && c <= '\r')
    } else {
        in_class(space_source(), c)
    }
}

/// `\w`: an ASCII letter, digit or `_`, or a non-ASCII word character.
pub open spec fn class_word(c: char) -> bool {
    if is_ascii_char(c) {
        ('a' <= c && c <= 'z') || ('A' <= c && c <= 'Z') || ('0' <= c && c <= '9') || c == '_'
    } else {
        in_class(word_source(), c)
    }
}

/// Where the run of `\d` characters starting at `j` ends.
pub open spec fn digit_end(s: Seq<char>, j: int) -> int
    decreases s.len() - j,
{
    if 0 <= j < s.len() && class_digit(s[j]) {
        digit_end(s, j + 1)
    } else {
        j
    }
}

/// Where the run of `\s` characters starting at `j` ends.
pub open spec fn space_end(s: Seq<char>, j: int) -> int
    decreases s.len() - j,
{
    if 0 <= j < s.len() && class_space(s[j]) {
        space_end(s, j + 1)
    } else {
        j
    }
}

/// The compiled one-character patterns.
pub struct Classes {
    digit: Option<Pattern>,
    space: Option<Pattern>,
    word: Option<Pattern>,
}

/// A compiled one-character pattern, if it compiled, is `source`.
pub open spec fn holds_class(p: Option<Pattern>, source: Seq<char>) -> bool {
    &&& p is Some <==> regex_valid(source, false)
    &&& p matches Some(q) ==> q.source() == source && !q.case_insensitive()
}

impl Classes {
    /// Each pattern is the one it stands for.
    pub closed spec fn wf(&self) -> bool {
        &&& holds_class(self.digit, digit_source())
        &&& holds_class(self.space, space_source())
        &&& holds_class(self.word, word_source())
    }
}

/// Compiles the three one-character patterns.
pub fn classes() -> (r: Classes)
    ensures
        r.wf(),
{
    Classes {
        digit: compile("^\\d$", false),
        space: compile("^\\s$", false),
        word: compile("^\\w$", false),
    }
}

/// `c` alone matches the compiled one-character pattern `p`.
fn one_char_match(p: &Option<Pattern>, source: Ghost<Seq<char>>, c: char) -> (r: bool)
    requires
        holds_class(*p, source@),
    ensures
        r == in_class(source@, c),
{
    match p {
        Some(q) => {
            let mut s = String::new();
            push_char(&mut s, c);
            assert(s@ =~= seq![c]);
            is_match(q, s.as_str())
        },
        None => false,
    }
}

/// `\d` for one character.
pub fn is_class_digit(cl: &Classes, c: char) -> (r: bool)
    requires
        cl.wf(),
    ensures
        r == class_digit(c),
{
    if (c as u32) < 128 {
        '0' <= c && c <= '9'
    } else {
        one_char_match(&cl.digit, Ghost(digit_source()), c)
    }
}

/// `\s` for one character.
pub fn is_class_space(cl: &Classes, c: char) -> (r: bool)
    requires
        cl.wf(),
    ensures
        r == class_space(c),
{
    if (c as u32) < 128 {
        c == ' ' || ('\t' <= c && c <= '\r')
    } else {
        one_char_match(&cl.space, Ghost(space_source()), c)
    }
}

/// `\w` for one character.
pub fn is_class_word(cl: &Classes, c: char) -> (r: bool)
    requires
        cl.wf(),
    ensures
        r == class_word(c),
{
    if (c as u32) < 128 {
        ('a' <= c && c <= 'z') || ('A' <= c && c <= 'Z') || ('0' <= c && c <= '9') || c == '_'
    } else {
        one_char_match(&cl.word, Ghost(word_source()), c)
    }
}

/// The end of the `\d` run starting at `j`.
pub fn digit_run_end(cl: &Classes, s: &Vec<char>, j: usize) -> (r: usize)
    requires
        cl.wf(),
        j <= s.len(),
    ensures
        r == digit_end(s@, j as int),
        j <= r <= s.len(),
{
    let mut k = j;
    while k < s.len() && is_class_digit(cl, s[k])
        invariant
            cl.wf(),
            j <= k <= s.len(),
            digit_end(s@, j as int) == digit_end(s@, k as int),
        decreases s.len() - k,
    {
        k = k + 1;
    }
    k
}

/// The end of the `\s` run starting at `j`.
pub fn space_run_end(cl: &Classes, s: &Vec<char>, j: usize) -> (r: usize)
    requires
        cl.wf(),
        j <= s.len(),
    ensures
        r == space_end(s@, j as int),
        j <= r <= s.len(),
{
    let mut k = j;
    while k < s.len() && is_class_space(cl, s[k])
        invariant
            cl.wf(),
            j <= k <= s.len(),
            space_end(s@, j as int) == space_end(s@, k as int),
        decreases s.len() - k,
    {
        k = k + 1;
    }
    k
}

/// A run of ASCII digits from `j` to the end of `s` is one `\d` run.
pub proof fn lemma_digit_end_at_end(s: Seq<char>, j: int)
    requires
        0 <= j <= s.len(),
        forall|k: int| j <= k < s.len() ==> '0' <= #[trigger] s[k] && s[k] <= '9',
    ensures
        digit_end(s, j) == s.len(),
    decreases s.len() - j,
{
    if j < s.len() {
        lemma_digit_end_at_end(s, j + 1);
    }
}

/// A run of ASCII digits from `j` up to `stop`, where a character that is
/// not `\d` stands, is one `\d` run ending at `stop`.
pub proof fn lemma_digit_end_before(s: Seq<char>, j: int, stop: int)
    requires
        0 <= j <= stop < s.len(),
        forall|k: int| j <= k < stop ==> '0' <= #[trigger] s[k] && s[k] <= '9',
        !class_digit(s[stop]),
    ensures
        digit_end(s, j) == stop,
    decreases stop - j,
{
    if j < stop {
        lemma_digit_end_before(s, j + 1, stop);
    }
}

} // verus!
