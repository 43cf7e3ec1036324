//! Reads the single `<Counters .../>` element of a VSTest `.trx` results file.

use vstd::prelude::*;
use crate::rx::{compile, find, regex_find, regex_valid};
use crate::text::{all_digits, cat, chars_of, digits_value, occurs_at, occurs_at_exec, parse_u32, parse_u32_chars, string_of};
use crate::uclass::{classes, digit_end, digit_run_end, lemma_digit_end_before, class_digit, Classes};

verus! {

/// The pass/fail/skip/total counts of a test run.
#[derive(Debug, PartialEq, Eq, Clone, Copy)]
pub struct TrxCounters {
    pub passed: u32,
    pub failed: u32,
    pub skipped: u32,
    pub total: u32,
}

/// The regex locating the counters element.
pub open spec fn counters_source() -> Seq<char> {
    "<Counters\\b[^>]*>"@
}

/// The regex the attribute reading follows: `name="` then `\d+` then `"`.
pub open spec fn attr_source(name: Seq<char>) -> Seq<char> {
    name + "=\"(\\d+)\""@
}

/// A captured digit string read as `u32`, or 0 when absent or unreadable.
pub open spec fn count_of(digits: Option<Seq<char>>) -> u32 {
    match digits {
        Some(d) => match parse_u32(d) {
            Some(v) => v,
            None => 0,
        },
        None => 0,
    }
}

/// What opens attribute `name`: the name, `=` and a double quote.
pub open spec fn attr_opening(name: Seq<char>) -> Seq<char> {
    name + seq!['=', '"']
}

/// Attribute `name` written at `i` with a value of one or more `\d`
/// characters closed by a double quote: the range of the value.
pub open spec fn attr_at(el: Seq<char>, name: Seq<char>, i: int) -> Option<(int, int)> {
    if occurs_at(el, attr_opening(name), i) {
        let a = i + attr_opening(name).len();
        let d = digit_end(el, a);
        if d > a && d < el.len() && el[d] == '"' {
            Some((a, d))
        } else {
            None
        }
    } else {
        None
    }
}

/// The first such attribute at or after `i`.
pub open spec fn attr_from(el: Seq<char>, name: Seq<char>, i: int) -> Option<(int, int)>
    decreases el.len() - i,
{
    if i < 0 || i >= el.len() {
        None
    } else {
        match attr_at(el, name, i) {
            Some(p) => Some(p),
            None => attr_from(el, name, i + 1),
        }
    }
}

/// The value text of attribute `name` in the element text `el`: the digits
/// of its first `name="digits"` occurrence, if any.
pub open spec fn attr_text(el: Seq<char>, name: Seq<char>) -> Option<Seq<char>> {
    match attr_from(el, name, 0) {
        Some(p) => Some(el.subrange(p.0, p.1)),
        None => None,
    }
}

/// The value of attribute `name` in the element text `el`, 0 when missing or
/// not a `u32`.
pub open spec fn attr_of(el: Seq<char>, name: Seq<char>) -> u32 {
    count_of(attr_text(el, name))
}

/// `total - executed`, floored at zero.
pub open spec fn sat_sub(a: u32, b: u32) -> u32 {
    if a >= b {
        (a - b) as u32
    } else {
        0
    }
}

/// The counters read from the element text `el`.
pub open spec fn counters_of(el: Seq<char>) -> TrxCounters {
    TrxCounters {
        passed: attr_of(el, "passed"@),
        failed: attr_of(el, "failed"@),
        skipped: sat_sub(attr_of(el, "total"@), attr_of(el, "executed"@)),
        total: attr_of(el, "total"@),
    }
}

/// Skipped tests are the ones not executed: when the element's `total` and
/// `executed` attributes hold `u32` values `t` and `e`, the counters report
/// `t` tests in all and `t - e` of them skipped (none when `e` exceeds `t`).
pub proof fn lemma_skipped_from_attributes(el: Seq<char>, dt: Seq<char>, de: Seq<char>, t: u32, e: u32)
    requires
        attr_text(el, "total"@) == Some(dt),
        parse_u32(dt) == Some(t),
        attr_text(el, "executed"@) == Some(de),
        parse_u32(de) == Some(e),
    ensures
        counters_of(el).total == t,
        counters_of(el).skipped == if e <= t {
            (t - e) as u32
        } else {
            0u32
        },
        counters_of(el).skipped + e == t || (e > t && counters_of(el).skipped == 0),
{
}

/// An attribute written first, as `name="digits"`, is read as those digits.
pub proof fn lemma_attr_text_at_start(name: Seq<char>, d: Seq<char>, rest: Seq<char>)
    requires
        all_digits(d),
    ensures
        attr_text(attr_opening(name) + d + seq!['"'] + rest, name) == Some(d),
{
    let o = attr_opening(name);
    let s = o + d + seq!['"'] + rest;
    let a = o.len() as int;
    let stop = a + d.len();
    assert(s.subrange(0, a) =~= o);
    assert(occurs_at(s, o, 0));
    assert forall|k: int| a <= k < stop implies '0' <= #[trigger] s[k] && s[k] <= '9' by {
        assert(s[k] == d[k - a]);
        assert(crate::text::is_digit(d[k - a]));
    }
    assert(s[stop] == '"');
    lemma_digit_end_before(s, a, stop);
    assert(s.subrange(a, stop) =~= d);
}

/// What `parse_counters` returns for a results file.
pub open spec fn parsed_counters(xml: Seq<char>) -> Option<TrxCounters> {
    if regex_valid(counters_source(), false) {
        match regex_find(counters_source(), false, xml) {
            Some(el) => Some(counters_of(el)),
            None => None,
        }
    } else {
        None
    }
}

/// A captured digit string read as a count: its `u32` value, or 0 when absent
/// or not a valid `u32`.
pub fn count_from(digits: &Option<String>) -> (r: u32)
    ensures
        r == count_of(crate::text::opt_str(*digits)),
{
    match digits {
        Some(d) => {
            let v = chars_of(d.as_str());
            match parse_u32_chars(&v) {
                Some(x) => x,
                None => 0,
            }
        },
        None => 0,
    }
}

/// Assembles the counters; `skipped` is `total - executed` (VSTest counts
/// skipped tests as not executed), floored at zero.
pub fn counters_from(passed: u32, failed: u32, total: u32, executed: u32) -> (r: TrxCounters)
    ensures
        r == (TrxCounters { passed, failed, skipped: sat_sub(total, executed), total }),
{
    TrxCounters { passed, failed, skipped: total.saturating_sub(executed), total }
}

/// The value of attribute `name` in the element text `el`.
fn attr(cl: &Classes, el: &Vec<char>, name: &str) -> (r: u32)
    requires
        cl.wf(),
    ensures
        r == attr_of(el@, name@),
{
    let mut open = chars_of(name);
    open.push('=');
    open.push('"');
    assert(open@ =~= attr_opening(name@));
    let mut i: usize = 0;
    while i < el.len()
        invariant
            cl.wf(),
            i <= el.len(),
            open@ == attr_opening(name@),
            attr_from(el@, name@, 0) == attr_from(el@, name@, i as int),
        decreases el.len() - i,
    {
        if occurs_at_exec(el, &open, i) {
            let a = i + open.len();
            let d = digit_run_end(cl, el, a);
            if d > a && d < el.len() && el[d] == '"' {
                let digits = string_of(el, a, d);
                let found = Some(digits);
                assert(attr_text(el@, name@) == crate::text::opt_str(found));
                return count_from(&found);
            }
        }
        i = i + 1;
    }
    0
}

/// Extracts the counts from the TRX `<Counters .../>` element; `None` when
/// there is no such element.
pub fn parse_counters(xml: &str) -> (r: Option<TrxCounters>)
    ensures
        r == parsed_counters(xml@),
{
    let counters_re = match compile("<Counters\\b[^>]*>", false) {
        Some(re) => re,
        None => return None,
    };
    let el = match find(&counters_re, xml) {
        Some(el) => el,
        None => return None,
    };
    let cl = classes();
    let ev = chars_of(el.as_str());
    let total = attr(&cl, &ev, "total");
    let executed = attr(&cl, &ev, "executed");
    let passed = attr(&cl, &ev, "passed");
    let failed = attr(&cl, &ev, "failed");
    Some(counters_from(passed, failed, total, executed))
}

} // verus!
