//! `write-variables`: the lines appended to the files that `$GITHUB_OUTPUT`
//! and `$GITHUB_ENV` name. A single-line value is written `key=value`; a
//! multi-line one as a heredoc closed by an `EOF` line, and a value that has
//! such a line of its own is refused, since it would close the heredoc early.

use vstd::prelude::*;
use crate::strmap::StrMap;
use crate::text::{
    cat, cat3, chars_of, contains, contains_chars, dec, fmt_i32, split_chars, split_on, str_eq,
    string_of, strs, trim, trim_bounds,
};

verus! {

/// The `write-variables` configuration: the step outputs and the environment
/// variables, each in key order.
pub struct WriteVariablesConfig {
    pub output: StrMap,
    pub environment: StrMap,
}

impl Default for WriteVariablesConfig {
    fn default() -> (r: Self)
        ensures
            r.output.view().len() == 0,
            r.environment.view().len() == 0,
    {
        WriteVariablesConfig { output: StrMap::new(), environment: StrMap::new() }
    }
}

/// Some line of `v` is `EOF`, give or take surrounding whitespace.
pub open spec fn has_eof_line(v: Seq<char>) -> bool {
    exists|i: int| 0 <= i < split_on(v, '\n').len() && #[trigger] trim(split_on(v, '\n')[i]) == "EOF"@
}

/// The value would close its heredoc early.
pub open spec fn refused(v: Seq<char>) -> bool {
    contains(v, "\n"@) && has_eof_line(v)
}

/// The lines written for one entry.
pub open spec fn entry_text(k: Seq<char>, v: Seq<char>) -> Seq<char> {
    if contains(v, "\n"@) {
        k + "<<EOF\n"@ + v + "\nEOF\n"@
    } else {
        k + "="@ + v + "\n"@
    }
}

/// The refusal for key `k`.
pub open spec fn refusal(k: Seq<char>) -> Seq<char> {
    "Refusing to write '"@ + k + "': value contains a line equal to the heredoc delimiter 'EOF'."@
}

/// The text written for the entries `e`, or the refusal of the first one
/// whose value would close its heredoc early.
pub open spec fn rendered(e: Seq<(Seq<char>, Seq<char>)>) -> Result<Seq<char>, Seq<char>>
    decreases e.len(),
{
    if e.len() == 0 {
        Ok(Seq::empty())
    } else {
        match rendered(e.drop_last()) {
            Err(m) => Err(m),
            Ok(s) => if refused(e.last().1) {
                Err(refusal(e.last().0))
            } else {
                Ok(s + entry_text(e.last().0, e.last().1))
            },
        }
    }
}

/// The entries are written when no value could close its heredoc early;
/// otherwise the refusal names the first such key, and nothing is written.
pub proof fn lemma_rendered_refuses_delimiter(e: Seq<(Seq<char>, Seq<char>)>)
    ensures
        rendered(e) is Ok <==> forall|i: int| 0 <= i < e.len() ==> !refused(#[trigger] e[i].1),
        rendered(e) is Err ==> exists|j: int|
            0 <= j < e.len() && refused(e[j].1) && rendered(e) == Err::<Seq<char>, Seq<char>>(refusal(#[trigger] e[j].0))
                && forall|i: int| 0 <= i < j ==> !refused(#[trigger] e[i].1),
    decreases e.len(),
{
    if e.len() > 0 {
        let d = e.drop_last();
        lemma_rendered_refuses_delimiter(d);
        assert forall|i: int| 0 <= i < d.len() implies d[i] == e[i] by {}
        if rendered(d) is Err {
            let j = choose|j: int|
                0 <= j < d.len() && refused(d[j].1) && rendered(d) == Err::<Seq<char>, Seq<char>>(refusal(#[trigger] d[j].0))
                    && forall|i: int| 0 <= i < j ==> !refused(#[trigger] d[i].1);
            assert(e[j] == d[j]);
            assert(forall|i: int| 0 <= i < j ==> e[i] == d[i]);
        } else if refused(e.last().1) {
            let j = e.len() - 1;
            assert(e[j] == e.last());
            assert(forall|i: int| 0 <= i < j ==> e[i] == d[i]);
        } else {
            assert forall|i: int| 0 <= i < e.len() implies !refused(#[trigger] e[i].1) by {
                if i < d.len() {
                    assert(e[i] == d[i]);
                }
            }
        }
    }
}

/// Whether some line of `v` trims to `EOF`.
fn eof_line_in(v: &Vec<char>) -> (r: bool)
    ensures
        r == has_eof_line(v@),
{
    let lines = split_chars(v, '\n');
    let ghost ls = split_on(v@, '\n');
    let mut i: usize = 0;
    while i < lines.len()
        invariant
            i <= lines.len(),
            ls == split_on(v@, '\n'),
            lines@.len() == ls.len(),
            forall|k: int| 0 <= k < lines@.len() ==> (#[trigger] lines@[k])@ == ls[k],
            forall|k: int| 0 <= k < i ==> #[trigger] trim(ls[k]) != "EOF"@,
        decreases lines.len() - i,
    {
        let line = &lines[i];
        assert(line@ == ls[i as int]);
        let (lo, hi) = trim_bounds(line);
        let t = string_of(line, lo, hi);
        if str_eq(t.as_str(), "EOF") {
            return true;
        }
        i = i + 1;
    }
    false
}

/// The lines for one entry, or its refusal.
fn render_entry(k: &str, v: &str) -> (r: Result<String, String>)
    ensures
        refused(v@) ==> (r matches Err(e) && e@ == refusal(k@)),
        !refused(v@) ==> (r matches Ok(t) && t@ == entry_text(k@, v@)),
{
    let vc = chars_of(v);
    let nl = chars_of("\n");
    proof {
        reveal_strlit("\n");
    }
    if contains_chars(&vc, &nl) {
        if eof_line_in(&vc) {
            return Err(cat3("Refusing to write '", k, "': value contains a line equal to the heredoc delimiter 'EOF'."));
        }
        let a = cat(k, "<<EOF\n");
        Ok(cat3(a.as_str(), v, "\nEOF\n"))
    } else {
        Ok(cat3(k, "=", v).concat("\n"))
    }
}

/// Renders the entries of `map`, in key order.
pub fn render_lines(map: &StrMap) -> (r: Result<String, String>)
    ensures
        match rendered(map.view()) {
            Ok(s) => r matches Ok(t) && t@ == s,
            Err(m) => r matches Err(e) && e@ == m,
        },
{
    let n = map.len();
    let ghost e = map.view();
    let mut out = String::new();
    let mut i: usize = 0;
    assert(e.take(0) == Seq::<(Seq<char>, Seq<char>)>::empty());
    while i < n
        invariant
            i <= n == e.len(),
            e == map.view(),
            rendered(e.take(i as int)) == Ok::<Seq<char>, Seq<char>>(out@),
        decreases n - i,
    {
        let k = map.key(i);
        let v = map.value(i);
        assert(e.take(i + 1).drop_last() == e.take(i as int));
        assert(e.take(i + 1).last() == e[i as int]);
        match render_entry(k.as_str(), v.as_str()) {
            Ok(t) => {
                out = cat(out.as_str(), t.as_str());
            },
            Err(m) => {
                proof {
                    lemma_refusal_sticks(e, i as int + 1);
                }
                return Err(m);
            },
        }
        i = i + 1;
    }
    assert(e.take(n as int) == e);
    Ok(out)
}

/// Once a prefix is refused, so is every longer one, with the same message.
proof fn lemma_refusal_sticks(e: Seq<(Seq<char>, Seq<char>)>, k: int)
    requires
        0 <= k <= e.len(),
        rendered(e.take(k)) is Err,
    ensures
        rendered(e) == rendered(e.take(k)),
    decreases e.len() - k,
{
    if k < e.len() {
        assert(e.take(k + 1).drop_last() == e.take(k));
        lemma_refusal_sticks(e, k + 1);
    } else {
        assert(e.take(k) == e);
    }
}

/// The environment variable's value names a file to write: present and not
/// empty.
pub fn target_file(value: &Option<String>) -> (r: Option<String>)
    ensures
        match value {
            Some(p) => if p@.len() > 0 {
                r matches Some(q) && q@ == p@
            } else {
                r is None
            },
            None => r is None,
        },
{
    match value {
        Some(p) => if p.as_str().unicode_len() > 0 {
            Some(crate::text::copy(p.as_str()))
        } else {
            None
        },
        None => None,
    }
}

/// The failure when the variable naming the file is unset or empty.
pub fn not_set(var: &str) -> (r: String)
    ensures
        r@ == var@ + " is not set."@,
{
    cat(var, " is not set.")
}

/// The argv of `sh` appending its standard input to `path` (passed as `$1`,
/// never spliced into the script).
pub fn append_args(path: &str) -> (r: Vec<String>)
    ensures
        strs(r@) == seq!["-c"@, "cat >> \"$1\""@, "sh"@, path@],
{
    let mut a: Vec<String> = Vec::new();
    crate::text::push_str(&mut a, "-c");
    crate::text::push_str(&mut a, "cat >> \"$1\"");
    crate::text::push_str(&mut a, "sh");
    crate::text::push_str(&mut a, path);
    a
}

/// The failure when the append exits non-zero.
pub fn write_failed(var: &str, code: i32) -> (r: String)
    ensures
        r@ == "Failed to write "@ + var@ + " (exit code "@ + dec(code as int) + ")."@,
{
    let c = fmt_i32(code);
    let a = cat3("Failed to write ", var, " (exit code ");
    cat3(a.as_str(), c.as_str(), ").")
}

/// One append: the variable naming the file, and the text for it (or the
/// refusal).
pub struct WriteStep {
    pub var: String,
    pub content: Result<String, String>,
}

/// The view of a step: its variable and its content.
pub open spec fn step_view(s: WriteStep) -> (Seq<char>, Result<Seq<char>, Seq<char>>) {
    (s.var@, match s.content {
        Ok(t) => Ok(t@),
        Err(m) => Err(m@),
    })
}

/// The appends to make, in order: the outputs to `GITHUB_OUTPUT`, then the
/// environment to `GITHUB_ENV`, each only when it has entries.
pub fn write_steps(cfg: &WriteVariablesConfig) -> (r: Vec<WriteStep>)
    ensures
        r@.map_values(|s: WriteStep| step_view(s)) == (if cfg.output.view().len() > 0 {
            seq![("GITHUB_OUTPUT"@, rendered(cfg.output.view()))]
        } else {
            Seq::empty()
        }) + (if cfg.environment.view().len() > 0 {
            seq![("GITHUB_ENV"@, rendered(cfg.environment.view()))]
        } else {
            Seq::empty()
        }),
{
    let mut r: Vec<WriteStep> = Vec::new();
    if !cfg.output.is_empty() {
        r.push(WriteStep { var: String::from_str("GITHUB_OUTPUT"), content: render_lines(&cfg.output) });
    }
    let ghost first = r@.map_values(|s: WriteStep| step_view(s));
    if !cfg.environment.is_empty() {
        r.push(WriteStep { var: String::from_str("GITHUB_ENV"), content: render_lines(&cfg.environment) });
        assert(r@.map_values(|s: WriteStep| step_view(s)) == first.push(step_view(r@.last())));
    }
    r
}

} // verus!
