//! The `dotnet` plugin: build, pack, push and test .NET projects through the
//! `dotnet` CLI. This module holds the helpers the steps share.

pub mod build_step;
pub mod config;
pub mod pack;
pub mod push;
pub mod test;
pub mod trx;
pub mod version;

use vstd::prelude::*;
use crate::paths::{path_join, within, without_extension, without_extension_chars};
use crate::text::{cat, chars_of, dec, fmt_i32, string_of, trim_char, trim_char_bounds};

verus! {

/// Resolves a configured path for the plugin's own file access. When the
/// plugin runs with the working directory as its preopened root (the wasm
/// build, `preopen`), the path stays as given; elsewhere it is joined onto
/// the working directory (`Path::new(working_dir).join(p)`).
pub fn resolve(working_dir: &str, p: &str, preopen: bool) -> (r: String)
    ensures
        r@ == within(working_dir@, p@, preopen),
        preopen ==> r@ == p@,
        !preopen ==> r@ == path_join(working_dir@, p@),
{
    crate::paths::resolve_within(working_dir, p, preopen)
}

/// The uniform non-zero-exit failure phrase.
pub fn exit_phrase(code: i32) -> (r: String)
    ensures
        r@ == "Dotnet command failed with exit code "@ + dec(code as int),
{
    let n = fmt_i32(code);
    cat("Dotnet command failed with exit code ", n.as_str())
}

/// The failure of a step whose command exited non-zero:
/// `Failed to {action}: ` and the exit phrase.
pub fn fail(action: &str, code: i32) -> (r: String)
    ensures
        r@ == "Failed to "@ + action@ + ": "@ + "Dotnet command failed with exit code "@ + dec(code as int),
{
    let p = exit_phrase(code);
    let head = crate::text::cat3("Failed to ", action, ": ");
    cat(head.as_str(), p.as_str())
}

/// A path separator (`/` or `\`) becomes `_`.
pub open spec fn slug_char(c: char) -> char {
    if c == '/' || c == '\\' {
        '_'
    } else {
        c
    }
}

/// The output-directory slug of a project path: the path without its
/// extension, separators flattened to `_`, leading and trailing `_` removed.
pub open spec fn slug(project: Seq<char>) -> Seq<char> {
    trim_char(without_extension(project).map_values(|c: char| slug_char(c)), '_')
}

/// A filesystem-safe, collision-resistant slug for a project's output
/// directory: its relative path minus the extension, with path separators
/// flattened to `_` and outer `_` trimmed.
pub fn project_slug(project: &str) -> (r: String)
    ensures
        r@ == slug(project@),
{
    let p = chars_of(project);
    let w = without_extension_chars(&p);
    let mut m: Vec<char> = Vec::new();
    let mut i: usize = 0;
    while i < w.len()
        invariant
            i <= w.len(),
            m@ == w@.subrange(0, i as int).map_values(|c: char| slug_char(c)),
        decreases w.len() - i,
    {
        let c = w[i];
        m.push(if c == '/' || c == '\\' { '_' } else { c });
        assert(w@.subrange(0, i + 1).map_values(|c: char| slug_char(c)) =~= w@.subrange(
            0,
            i as int,
        ).map_values(|c: char| slug_char(c)).push(slug_char(c)));
        i = i + 1;
    }
    assert(w@.subrange(0, w@.len() as int) == w@);
    let (lo, hi) = trim_char_bounds(&m, '_', true);
    string_of(&m, lo, hi)
}

/// A slug never holds a path separator, and never starts or ends with `_`.
pub proof fn lemma_slug_is_flat(project: Seq<char>)
    ensures
        forall|i: int| 0 <= i < slug(project).len() ==> #[trigger] slug(project)[i] != '/' && slug(project)[i] != '\\',
        slug(project).len() > 0 ==> slug(project)[0] != '_' && slug(project).last() != '_',
{
    let m = without_extension(project).map_values(|c: char| slug_char(c));
    crate::text::lemma_trim_char_shape(m, '_', '/');
    crate::text::lemma_trim_char_shape(m, '_', '\\');
}

/// An ASCII letter or digit.
pub open spec fn ascii_alnum(c: char) -> bool {
    ('a' <= c && c <= 'z') || ('A' <= c && c <= 'Z') || ('0' <= c && c <= '9')
}

/// Every character is an ASCII letter or digit.
pub open spec fn all_alnum(s: Seq<char>) -> bool {
    forall|i: int| 0 <= i < s.len() ==> ascii_alnum(#[trigger] s[i])
}

/// The project file `{dir}/{stem}.csproj`.
pub open spec fn csproj_in(dir: Seq<char>, stem: Seq<char>) -> Seq<char> {
    dir + seq!['/'] + stem + ".csproj"@
}

/// The slug of `{dir}/{stem}.csproj` is `{dir}_{stem}`, for a directory and a
/// stem made of ASCII letters and digits.
pub proof fn lemma_slug_of_dir_and_stem(dir: Seq<char>, stem: Seq<char>)
    requires
        dir.len() > 0,
        stem.len() > 0,
        all_alnum(dir),
        all_alnum(stem),
    ensures
        slug(csproj_in(dir, stem)) == dir + seq!['_'] + stem,
{
    reveal_strlit(".csproj");
    reveal_strlit("csproj");
    let ext = "csproj"@;
    let name = stem + seq!['.'] + ext;
    let p = csproj_in(dir, stem);
    assert(".csproj"@ =~= seq!['.'] + ext);
    assert(p =~= dir + seq!['/'] + name);
    assert(crate::text::free_of(dir, '/'));
    assert(crate::text::free_of(stem, '.'));
    assert(crate::text::free_of(ext, '.'));
    assert(crate::text::free_of(stem, '/'));
    assert(crate::text::free_of(name, '/')) by {
        assert forall|i: int| 0 <= i < name.len() implies name[i] != '/' by {
            if i < stem.len() {
                assert(name[i] == stem[i]);
            } else if i > stem.len() {
                assert(name[i] == ext[i - stem.len() - 1]);
            }
        }
    }
    crate::text::lemma_split_first(dir, name, '/');
    crate::text::lemma_split_free(name, '/');
    let segs = crate::text::split_on(p, '/');
    assert(segs =~= seq![dir, name]);
    assert(crate::paths::named_seg(name)) by {
        assert(name.len() > 1);
    }
    assert(crate::paths::last_named(segs, 2) == 1);
    assert(name != crate::paths::dot_dot()) by {
        assert(name.len() > 2);
    }
    crate::text::lemma_split_first(stem, ext, '.');
    crate::text::lemma_split_free(ext, '.');
    let parts = crate::text::split_on(name, '.');
    assert(parts =~= seq![stem, ext]);
    assert(parts.drop_last() =~= seq![stem]);
    assert(seq![stem] != seq![Seq::<char>::empty()]) by {
        assert(seq![stem][0].len() > 0);
    }
    assert(crate::text::join_with(seq![stem], '.') == stem);
    assert(crate::paths::file_stem(name) == stem);
    assert(segs.take(1) =~= seq![dir]);
    assert(crate::text::join_with(seq![dir], '/') == dir);
    let w = without_extension(p);
    assert(w == dir + seq!['/'] + stem);
    let m = w.map_values(|c: char| slug_char(c));
    assert(m =~= dir + seq!['_'] + stem) by {
        assert forall|i: int| 0 <= i < m.len() implies m[i] == (dir + seq!['_'] + stem)[i] by {
            if i < dir.len() {
                assert(w[i] == dir[i]);
                assert(ascii_alnum(dir[i]));
            } else if i > dir.len() {
                assert(w[i] == stem[i - dir.len() - 1]);
                assert(ascii_alnum(stem[i - dir.len() - 1]));
            }
        }
    }
    assert(m[0] == dir[0]);
    assert(ascii_alnum(dir[0]));
    assert(m.last() == stem.last()) by {
        assert(m.last() == stem[stem.len() - 1]);
    }
    assert(ascii_alnum(stem[stem.len() - 1]));
    assert(crate::text::trim_start_char(m, '_') == m);
    assert(crate::text::trim_end_char(m, '_') == m);
}

/// Two directories of ASCII letters and digits never share the output
/// directory of same-named projects: distinct directories give distinct
/// slugs.
pub proof fn lemma_distinct_dirs_distinct_slugs(d1: Seq<char>, d2: Seq<char>, stem: Seq<char>)
    requires
        d1.len() > 0,
        d2.len() > 0,
        stem.len() > 0,
        all_alnum(d1),
        all_alnum(d2),
        all_alnum(stem),
        d1 != d2,
    ensures
        slug(csproj_in(d1, stem)) != slug(csproj_in(d2, stem)),
{
    lemma_slug_of_dir_and_stem(d1, stem);
    lemma_slug_of_dir_and_stem(d2, stem);
    let a = d1 + seq!['_'] + stem;
    let b = d2 + seq!['_'] + stem;
    if a == b {
        assert(a.len() == d1.len() + 1 + stem.len());
        assert(b.len() == d2.len() + 1 + stem.len());
        assert(d1.len() == d2.len());
        assert(a.subrange(0, d1.len() as int) =~= d1);
        assert(b.subrange(0, d2.len() as int) =~= d2);
    }
}

/// The failure for a missing project file.
pub fn project_not_found(path: &str) -> (r: String)
    ensures
        r@ == "Project file not found at path: "@ + path@,
{
    cat("Project file not found at path: ", path)
}

} // verus!
