//! `write-variables` on GitLab: the outputs and the environment merged into
//! one dotenv report (the environment wins a shared key), one `KEY=value`
//! line per entry in key order. Keys must be identifiers; carriage returns
//! and newlines in values are written as `\r` and `\n`, so that a value stays
//! on its line. The report goes to a relative path inside the working
//! directory.

use vstd::prelude::*;
use crate::paths::path_join;
use crate::rx::{compile, is_match, regex_is_match, regex_valid, Pattern};
use crate::strmap::{as_map, lemma_map_keys, sorted_keys, StrMap};
use crate::text::{cat, cat3, chars_of, copy, push_char, split_on, string_of, trim};

verus! {

/// The `write-variables` configuration: the step outputs, the environment
/// variables, and the report file.
pub struct WriteVariablesConfig {
    pub output: StrMap,
    pub environment: StrMap,
    pub file: String,
}

impl Default for WriteVariablesConfig {
    fn default() -> (r: Self)
        ensures
            r.output.view().len() == 0,
            r.environment.view().len() == 0,
            r.file@ == "moonlit.env"@,
    {
        WriteVariablesConfig { output: StrMap::new(), environment: StrMap::new(), file: String::from_str("moonlit.env") }
    }
}

/// The warning for a key set in both maps.
pub open spec fn collision(k: Seq<char>) -> Seq<char> {
    "Variable '"@ + k + "' defined in both output and environment; using the environment value."@
}

/// The warnings of a merge: one for each environment key the outputs also
/// set, in key order.
pub open spec fn collisions(out: Seq<(Seq<char>, Seq<char>)>, env: Seq<(Seq<char>, Seq<char>)>) -> Seq<Seq<char>>
    decreases env.len(),
{
    if env.len() == 0 {
        Seq::empty()
    } else {
        let w = collisions(out, env.drop_last());
        if as_map(out).contains_key(env.last().0) {
            w.push(collision(env.last().0))
        } else {
            w
        }
    }
}

/// Merges the outputs and the environment: every key of either, with the
/// environment's value where both set it; and the warnings for the keys both
/// set.
pub fn merge_variables(output: &StrMap, environment: &StrMap) -> (r: (StrMap, Vec<String>))
    ensures
        as_map(r.0.view()) == as_map(output.view()).union_prefer_right(as_map(environment.view())),
        sorted_keys(r.0.view()),
        r.1@.map_values(|w: String| w@) == collisions(output.view(), environment.view()),
{
    let mut merged = output.duplicate();
    let mut warnings: Vec<String> = Vec::new();
    let n = environment.len();
    let ghost e = environment.view();
    let ghost o = output.view();
    let mut i: usize = 0;
    proof {
        assert(e.take(0) == Seq::<(Seq<char>, Seq<char>)>::empty());
        assert(as_map(e.take(0)) == Map::<Seq<char>, Seq<char>>::empty());
        assert(as_map(o).union_prefer_right(Map::<Seq<char>, Seq<char>>::empty()) =~= as_map(o));
        assert(warnings@.map_values(|w: String| w@) =~= Seq::<Seq<char>>::empty());
    }
    while i < n
        invariant
            i <= n == e.len(),
            e == environment.view(),
            o == output.view(),
            sorted_keys(e),
            sorted_keys(merged.view()),
            as_map(merged.view()) == as_map(o).union_prefer_right(as_map(e.take(i as int))),
            warnings@.map_values(|w: String| w@) == collisions(o, e.take(i as int)),
        decreases n - i,
    {
        let k = environment.key(i);
        let v = environment.value(i);
        let ghost pre = e.take(i as int);
        assert(e.take(i + 1).drop_last() == pre);
        assert(e.take(i + 1).last() == e[i as int]);
        proof {
            // The key is not among the earlier environment keys.
            lemma_map_keys(pre);
            assert forall|j: int| 0 <= j < pre.len() implies pre[j].0 != k@ by {
                assert(pre[j] == e[j]);
                assert(crate::text::lex_lt(e[j].0, e[i as int].0));
                crate::text::lemma_lex_irreflexive(k@);
            }
        }
        let present = merged.contains_key(k.as_str());
        assert(present == as_map(o).contains_key(k@));
        let ghost before = warnings@.map_values(|w: String| w@);
        if present {
            warnings.push(cat3("Variable '", k.as_str(), "' defined in both output and environment; using the environment value."));
            assert(warnings@.map_values(|w: String| w@) =~= before.push(collision(k@)));
        }
        merged.insert(copy(k.as_str()), copy(v.as_str()));
        assert(as_map(merged.view()) =~= as_map(o).union_prefer_right(as_map(e.take(i + 1))));
        i = i + 1;
    }
    assert(e.take(n as int) == e);
    (merged, warnings)
}

/// The pattern a variable name must match.
pub open spec fn key_source() -> Seq<char> {
    "^[A-Za-z_][A-Za-z0-9_]*$"@
}

/// The name matches the identifier pattern.
pub open spec fn valid_key(k: Seq<char>) -> bool {
    regex_valid(key_source(), false) && regex_is_match(key_source(), false, k)
}

/// The refusal of an invalid name.
pub open spec fn invalid_key(k: Seq<char>) -> Seq<char> {
    "Invalid variable name '"@ + k + "' (must match [A-Za-z_][A-Za-z0-9_]*)."@
}

/// One character escaped: a carriage return as `\r`, a newline as `\n`.
pub open spec fn escape_char(c: char) -> Seq<char> {
    if c == '\r' {
        seq!['\\', 'r']
    } else if c == '\n' {
        seq!['\\', 'n']
    } else {
        seq![c]
    }
}

/// A value with carriage returns and newlines escaped.
pub open spec fn escaped(v: Seq<char>) -> Seq<char>
    decreases v.len(),
{
    if v.len() == 0 {
        Seq::empty()
    } else {
        escaped(v.drop_last()) + escape_char(v.last())
    }
}

/// An escaped value holds no line break.
pub proof fn lemma_escaped_single_line(v: Seq<char>)
    ensures
        forall|i: int| 0 <= i < escaped(v).len() ==> #[trigger] escaped(v)[i] != '\n' && escaped(v)[i] != '\r',
    decreases v.len(),
{
    if v.len() > 0 {
        lemma_escaped_single_line(v.drop_last());
        let a = escaped(v.drop_last());
        let b = escape_char(v.last());
        assert forall|i: int| 0 <= i < escaped(v).len() implies #[trigger] escaped(v)[i] != '\n' && escaped(v)[i] != '\r' by {
            if i < a.len() {
                assert(escaped(v)[i] == a[i]);
            } else {
                assert(escaped(v)[i] == b[i - a.len()]);
            }
        }
    }
}

/// The dotenv text of the entries `e`, or the refusal of the first invalid
/// name.
pub open spec fn dotenv(e: Seq<(Seq<char>, Seq<char>)>) -> Result<Seq<char>, Seq<char>>
    decreases e.len(),
{
    if e.len() == 0 {
        Ok(Seq::empty())
    } else {
        match dotenv(e.drop_last()) {
            Err(m) => Err(m),
            Ok(s) => if valid_key(e.last().0) {
                Ok(s + e.last().0 + "="@ + escaped(e.last().1) + "\n"@)
            } else {
                Err(invalid_key(e.last().0))
            },
        }
    }
}

/// The text is written when every name is valid; otherwise the refusal names
/// the first invalid one.
pub proof fn lemma_dotenv_refuses_invalid(e: Seq<(Seq<char>, Seq<char>)>)
    ensures
        dotenv(e) is Ok <==> forall|i: int| 0 <= i < e.len() ==> valid_key(#[trigger] e[i].0),
        dotenv(e) is Err ==> exists|j: int|
            0 <= j < e.len() && !valid_key(e[j].0) && dotenv(e) == Err::<Seq<char>, Seq<char>>(invalid_key(#[trigger] e[j].0))
                && forall|i: int| 0 <= i < j ==> valid_key(#[trigger] e[i].0),
    decreases e.len(),
{
    if e.len() > 0 {
        let d = e.drop_last();
        lemma_dotenv_refuses_invalid(d);
        assert forall|i: int| 0 <= i < d.len() implies d[i] == e[i] by {}
        if dotenv(d) is Err {
            let j = choose|j: int|
                0 <= j < d.len() && !valid_key(d[j].0) && dotenv(d) == Err::<Seq<char>, Seq<char>>(invalid_key(#[trigger] d[j].0))
                    && forall|i: int| 0 <= i < j ==> valid_key(#[trigger] d[i].0);
            assert(e[j] == d[j]);
            assert(forall|i: int| 0 <= i < j ==> e[i] == d[i]);
        } else if !valid_key(e.last().0) {
            let j = e.len() - 1;
            assert(e[j] == e.last());
            assert(forall|i: int| 0 <= i < j ==> e[i] == d[i]);
        } else {
            assert forall|i: int| 0 <= i < e.len() implies valid_key(#[trigger] e[i].0) by {
                if i < d.len() {
                    assert(e[i] == d[i]);
                }
            }
        }
    }
}

/// One dotenv line: `{key}={escaped value}` and a newline.
pub open spec fn dotenv_line(kv: (Seq<char>, Seq<char>)) -> Seq<char> {
    kv.0 + "="@ + escaped(kv.1) + "\n"@
}

/// The dotenv lines of the entries, in order.
pub open spec fn dotenv_lines(e: Seq<(Seq<char>, Seq<char>)>) -> Seq<char>
    decreases e.len(),
{
    if e.len() == 0 {
        Seq::empty()
    } else {
        dotenv_lines(e.drop_last()) + dotenv_line(e.last())
    }
}

/// With every name valid, the text is the lines of the entries in order.
proof fn lemma_dotenv_all_valid(e: Seq<(Seq<char>, Seq<char>)>)
    requires
        forall|i: int| 0 <= i < e.len() ==> valid_key(#[trigger] e[i].0),
    ensures
        dotenv(e) == Ok::<Seq<char>, Seq<char>>(dotenv_lines(e)),
    decreases e.len(),
{
    if e.len() > 0 {
        let d = e.drop_last();
        assert forall|i: int| 0 <= i < d.len() implies valid_key(#[trigger] d[i].0) by {
            assert(d[i] == e[i]);
        }
        lemma_dotenv_all_valid(d);
        assert(valid_key(e[e.len() - 1].0));
        let l = e.last();
        assert(dotenv_lines(d) + l.0 + "="@ + escaped(l.1) + "\n"@ =~= dotenv_lines(d) + dotenv_line(l));
    }
}

/// What the dotenv report of a merge holds: when the merged map `m` lists
/// the keys of the outputs `o` and the environment `e` in ascending order
/// (as `merge_variables` gives it) and every name is valid, `render` writes
/// one line `{key}={escaped value}` per key, in ascending key order, the
/// value being the environment's where it sets the key and the output's
/// otherwise.
pub proof fn lemma_render_merged(
    o: Seq<(Seq<char>, Seq<char>)>,
    e: Seq<(Seq<char>, Seq<char>)>,
    m: Seq<(Seq<char>, Seq<char>)>,
)
    requires
        sorted_keys(m),
        as_map(m) == as_map(o).union_prefer_right(as_map(e)),
        forall|i: int| 0 <= i < m.len() ==> valid_key(#[trigger] m[i].0),
    ensures
        dotenv(m) == Ok::<Seq<char>, Seq<char>>(dotenv_lines(m)),
        forall|i: int, j: int| 0 <= i < j < m.len() ==> crate::text::lex_lt(#[trigger] m[i].0, #[trigger] m[j].0),
        forall|k: Seq<char>|
            (as_map(o).contains_key(k) || as_map(e).contains_key(k)) <==> exists|i: int| 0 <= i < m.len() && #[trigger] m[i].0 == k,
        forall|i: int|
            0 <= i < m.len() ==> (#[trigger] m[i]).1 == if as_map(e).contains_key(m[i].0) {
                as_map(e)[m[i].0]
            } else {
                as_map(o)[m[i].0]
            },
{
    lemma_dotenv_all_valid(m);
    lemma_map_keys(m);
    crate::strmap::lemma_sorted_lookup(m);
    assert forall|k: Seq<char>|
        (as_map(o).contains_key(k) || as_map(e).contains_key(k)) <==> exists|i: int| 0 <= i < m.len() && #[trigger] m[i].0 == k by {
        assert(as_map(m).contains_key(k) <==> (as_map(o).contains_key(k) || as_map(e).contains_key(k)));
        assert(as_map(m).contains_key(k) <==> exists|i: int| 0 <= i < m.len() && m[i].0 == k);
    }
    assert forall|i: int| 0 <= i < m.len() implies (#[trigger] m[i]).1 == if as_map(e).contains_key(m[i].0) {
        as_map(e)[m[i].0]
    } else {
        as_map(o)[m[i].0]
    } by {
        assert(as_map(m).contains_key(m[i].0) && as_map(m)[m[i].0] == m[i].1);
    }
}

/// Escapes a value.
fn escape_value(v: &str) -> (r: String)
    ensures
        r@ == escaped(v@),
{
    let cs = chars_of(v);
    let mut out = String::new();
    let mut i: usize = 0;
    assert(cs@.take(0) == Seq::<char>::empty());
    while i < cs.len()
        invariant
            i <= cs.len(),
            out@ == escaped(cs@.take(i as int)),
        decreases cs.len() - i,
    {
        let c = cs[i];
        assert(cs@.take(i + 1).drop_last() == cs@.take(i as int));
        assert(cs@.take(i + 1).last() == c);
        if c == '\r' {
            push_char(&mut out, '\\');
            push_char(&mut out, 'r');
        } else if c == '\n' {
            push_char(&mut out, '\\');
            push_char(&mut out, 'n');
        } else {
            push_char(&mut out, c);
        }
        i = i + 1;
    }
    assert(cs@.take(cs@.len() as int) == cs@);
    out
}

/// Renders the merged variables as dotenv lines, in key order.
pub fn render(map: &StrMap) -> (r: Result<String, String>)
    ensures
        match dotenv(map.view()) {
            Ok(s) => r matches Ok(t) && t@ == s,
            Err(m) => r matches Err(x) && x@ == m,
        },
{
    let n = map.len();
    let ghost e = map.view();
    let re = compile("^[A-Za-z_][A-Za-z0-9_]*$", false);
    let mut out = String::new();
    let mut i: usize = 0;
    assert(e.take(0) == Seq::<(Seq<char>, Seq<char>)>::empty());
    while i < n
        invariant
            i <= n == e.len(),
            e == map.view(),
            re is Some <==> regex_valid(key_source(), false),
            re matches Some(p) ==> p.source() == key_source() && !p.case_insensitive(),
            dotenv(e.take(i as int)) == Ok::<Seq<char>, Seq<char>>(out@),
        decreases n - i,
    {
        let k = map.key(i);
        let v = map.value(i);
        assert(e.take(i + 1).drop_last() == e.take(i as int));
        assert(e.take(i + 1).last() == e[i as int]);
        let ok = match &re {
            Some(p) => is_match(p, k.as_str()),
            None => false,
        };
        if !ok {
            proof {
                lemma_dotenv_sticks(e, i as int + 1);
            }
            return Err(cat3("Invalid variable name '", k.as_str(), "' (must match [A-Za-z_][A-Za-z0-9_]*)."));
        }
        let ev = escape_value(v.as_str());
        let a = cat3(k.as_str(), "=", ev.as_str());
        let line = cat(a.as_str(), "\n");
        let ghost prev = out@;
        out = cat(out.as_str(), line.as_str());
        assert(valid_key(k@));
        assert(out@ =~= prev + k@ + "="@ + escaped(v@) + "\n"@);
        i = i + 1;
    }
    assert(e.take(n as int) == e);
    Ok(out)
}

/// Once a prefix is refused, so is every longer one, with the same message.
proof fn lemma_dotenv_sticks(e: Seq<(Seq<char>, Seq<char>)>, k: int)
    requires
        0 <= k <= e.len(),
        dotenv(e.take(k)) is Err,
    ensures
        dotenv(e) == dotenv(e.take(k)),
    decreases e.len() - k,
{
    if k < e.len() {
        assert(e.take(k + 1).drop_last() == e.take(k));
        lemma_dotenv_sticks(e, k + 1);
    } else {
        assert(e.take(k) == e);
    }
}

/// The path is absolute or climbs out through a `..` component.
pub open spec fn escapes_working_dir(f: Seq<char>) -> bool {
    (f.len() > 0 && f[0] == '/') || split_on(f, '/').contains(".."@)
}

/// Refuses a report path that is absolute or has a `..` component.
pub fn check_file(file: &str) -> (r: Result<(), String>)
    ensures
        r is Err <==> escapes_working_dir(file@),
        r matches Err(m) ==> m@ == "Invalid file path '"@ + file@ + "' (must be a relative path within the working directory)."@,
{
    let v = chars_of(file);
    let mut bad = v.len() > 0 && v[0] == '/';
    let parts = crate::text::split_chars(&v, '/');
    let ghost ps = split_on(file@, '/');
    let mut i: usize = 0;
    while i < parts.len() && !bad
        invariant
            i <= parts.len(),
            ps == split_on(file@, '/'),
            parts@.len() == ps.len(),
            forall|k: int| 0 <= k < parts@.len() ==> (#[trigger] parts@[k])@ == ps[k],
            bad ==> escapes_working_dir(file@),
            !bad ==> !(file@.len() > 0 && file@[0] == '/'),
            !bad ==> forall|k: int| 0 <= k < i ==> ps[k] != ".."@,
        decreases parts.len() - i,
    {
        let p = string_of(&parts[i], 0, parts[i].len());
        assert(parts@[i as int]@.subrange(0, parts@[i as int]@.len() as int) == ps[i as int]);
        if crate::text::str_eq(p.as_str(), "..") {
            assert(ps[i as int] == ".."@);
            bad = true;
        }
        i = i + 1;
    }
    if bad {
        Err(cat3("Invalid file path '", file, "' (must be a relative path within the working directory)."))
    } else {
        Ok(())
    }
}

/// Where the report is written, as the plugin's file access sees it: the
/// file as given under a preopened working directory (`preopen`), else the
/// file under the working directory.
pub fn report_path(working_dir: &str, file: &str, preopen: bool) -> (r: String)
    ensures
        r@ == crate::paths::within(working_dir@, file@, preopen),
        preopen ==> r@ == file@,
        !preopen ==> r@ == path_join(working_dir@, file@),
{
    crate::paths::resolve_within(working_dir, file, preopen)
}

/// The failure when the report cannot be written.
pub fn write_failed(file: &str, error: &str) -> (r: String)
    ensures
        r@ == "Failed to write '"@ + file@ + "': "@ + error@,
{
    let a = cat3("Failed to write '", file, "': ");
    cat(a.as_str(), error)
}

} // verus!
