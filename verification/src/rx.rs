//! Calls into the `regex` crate.
//!
//! A compiled [`Pattern`] remembers, as ghost state, the source text and the
//! case-insensitivity flag it was built from, so that what a match returns can
//! be named as a function of those values and of the haystack.

use vstd::prelude::*;
use crate::text::{copy, opt_str};

verus! {

#[verifier::external_type_specification]
#[verifier::external_body]
pub struct ExRegex(regex::Regex);

/// Whether `regex::RegexBuilder` accepts `source` (with the given
/// case-insensitivity flag) and builds a regex.
pub uninterp spec fn regex_valid(source: Seq<char>, case_insensitive: bool) -> bool;

/// `Regex::is_match` of the regex built from `source` on `text`.
pub uninterp spec fn regex_is_match(source: Seq<char>, case_insensitive: bool, text: Seq<char>) -> bool;

/// `Regex::find` of the regex built from `source` on `text`: the text of the
/// leftmost-first match, if any.
pub uninterp spec fn regex_find(source: Seq<char>, case_insensitive: bool, text: Seq<char>) -> Option<Seq<char>>;

/// `Regex::captures`: for the first match, if any, the text of each capture
/// group in order (group 0 is the whole match), `None` for a group that did not
/// take part in it.
pub uninterp spec fn regex_captures(source: Seq<char>, case_insensitive: bool, text: Seq<char>) -> Option<Seq<Option<Seq<char>>>>;

/// Group `k` of a capture result: `None` when there was no match, when there is
/// no such group, or when the group did not take part.
pub open spec fn group(caps: Option<Seq<Option<Seq<char>>>>, k: int) -> Option<Seq<char>> {
    match caps {
        Some(g) => if 0 <= k < g.len() {
            g[k]
        } else {
            None
        },
        None => None,
    }
}

/// `Regex::captures_iter`: for every successive non-overlapping match, the
/// text of each of its capture groups in order (group 0 is the whole match),
/// `None` for a group that did not take part in it.
pub uninterp spec fn regex_all_captures(source: Seq<char>, case_insensitive: bool, text: Seq<char>) -> Seq<Seq<Option<Seq<char>>>>;

/// The views of one match's capture groups.
pub open spec fn caps_view(g: Seq<Option<String>>) -> Seq<Option<Seq<char>>> {
    g.map_values(|o: Option<String>| opt_str(o))
}

/// A compiled regular expression together with what it was compiled from.
pub struct Pattern {
    re: regex::Regex,
    source: Ghost<Seq<char>>,
    case_insensitive: Ghost<bool>,
}

impl Pattern {
    /// The pattern text this regex was compiled from.
    pub closed spec fn source(&self) -> Seq<char> {
        self.source@
    }

    /// Whether it was compiled case-insensitively.
    pub closed spec fn case_insensitive(&self) -> bool {
        self.case_insensitive@
    }
}

/// Compiles `source` with `regex::RegexBuilder`, case-insensitively when
/// `case_insensitive` is set. Claims only that the build succeeds exactly when
/// `regex_valid` holds, and that the result remembers its source and flag.
#[verifier::external_body]
pub(crate) fn compile(source: &str, case_insensitive: bool) -> (r: Option<Pattern>)
    ensures
        r is Some <==> regex_valid(source@, case_insensitive),
        r matches Some(p) ==> p.source() == source@ && p.case_insensitive() == case_insensitive,
{
    match regex::RegexBuilder::new(source).case_insensitive(case_insensitive).build() {
        Ok(re) => Some(Pattern { re, source: Ghost(source@), case_insensitive: Ghost(case_insensitive) }),
        Err(_) => None,
    }
}

/// `Regex::is_match`. Claims that the answer is `regex_is_match` of the
/// pattern's source and flag on `text`.
#[verifier::external_body]
pub(crate) fn is_match(p: &Pattern, text: &str) -> (r: bool)
    ensures
        r == regex_is_match(p.source(), p.case_insensitive(), text@),
{
    p.re.is_match(text)
}

/// `Regex::find`, returning the matched text. Claims that it is `regex_find`
/// of the pattern's source and flag on `text`.
#[verifier::external_body]
pub(crate) fn find(p: &Pattern, text: &str) -> (r: Option<String>)
    ensures
        r matches Some(m) ==> regex_find(p.source(), p.case_insensitive(), text@) == Some(m@),
        r is None ==> regex_find(p.source(), p.case_insensitive(), text@) is None,
{
    p.re.find(text).map(|m| m.as_str().to_string())
}

/// `Regex::captures`, each group's text copied out. Claims that the result is
/// `regex_captures` of the pattern's source and flag on `text`.
#[verifier::external_body]
pub(crate) fn captures(p: &Pattern, text: &str) -> (r: Option<Vec<Option<String>>>)
    ensures
        r is None <==> regex_captures(p.source(), p.case_insensitive(), text@) is None,
        r matches Some(g) ==> g@.map_values(|o: Option<String>| opt_str(o)) == regex_captures(p.source(), p.case_insensitive(), text@)->0,
{
    p.re.captures(text).map(|c| c.iter().map(|m| m.map(|m| m.as_str().to_string())).collect())
}

/// Group `k` of a capture result, copied.
pub(crate) fn group_at(caps: &Option<Vec<Option<String>>>, k: usize) -> (r: Option<String>)
    ensures
        opt_str(r) == group(match caps {
            Some(g) => Some(g@.map_values(|o: Option<String>| opt_str(o))),
            None => None,
        }, k as int),
{
    match caps {
        Some(g) => if k < g.len() {
            match &g[k] {
                Some(t) => Some(copy(t.as_str())),
                None => None,
            }
        } else {
            None
        },
        None => None,
    }
}

/// Group `k` of one match's capture groups, copied: `None` when there is no
/// such group or it did not take part.
pub(crate) fn nth_group(caps: &Vec<Option<String>>, k: usize) -> (r: Option<String>)
    ensures
        opt_str(r) == group(Some(caps_view(caps@)), k as int),
{
    if k < caps.len() {
        match &caps[k] {
            Some(t) => Some(copy(t.as_str())),
            None => None,
        }
    } else {
        None
    }
}

/// `Regex::captures_iter`, each match's groups copied out. Claims that the
/// matches, in order, are `regex_all_captures` of the pattern's source and
/// flag on `text`.
#[verifier::external_body]
pub(crate) fn all_captures(p: &Pattern, text: &str) -> (r: Vec<Vec<Option<String>>>)
    ensures
        r@.len() == regex_all_captures(p.source(), p.case_insensitive(), text@).len(),
        forall|k: int| 0 <= k < r@.len() ==> caps_view((#[trigger] r@[k])@) == regex_all_captures(p.source(), p.case_insensitive(), text@)[k],
{
    p.re.captures_iter(text).map(|c| c.iter().map(|m| m.map(|m| m.as_str().to_string())).collect()).collect()
}

} // verus!
