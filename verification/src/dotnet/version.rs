//! .NET version-string derivation shared by `build` and `pack`: an explicit
//! override wins, else the version with a suffix cut off; a whitespace-only
//! result counts as absent.

use vstd::prelude::*;
use crate::text::{before_first, blank, copy, filled, is_blank, opt_str, split_on};

verus! {

/// First `-`-delimited segment (strip prerelease): `1.2.3-rc.1` → `1.2.3`.
pub fn strip_prerelease(v: &str) -> (r: String)
    ensures
        r@ == split_on(v@, '-')[0],
{
    before_first(v, '-')
}

/// First `+`-delimited segment (strip build metadata): `1.2.3+sha` → `1.2.3`.
pub fn strip_metadata(v: &str) -> (r: String)
    ensures
        r@ == split_on(v@, '+')[0],
{
    before_first(v, '+')
}

/// A whitespace-only derived value is treated as absent.
pub fn non_blank(s: String) -> (r: Option<String>)
    ensures
        opt_str(r) == filled(Some(s@)),
{
    if is_blank(s.as_str()) {
        None
    } else {
        Some(s)
    }
}

/// The override when present, else the version cut at the first `cut`
/// character (the whole version when `cut` is `None`); blank results are absent.
pub open spec fn derived(over: Option<Seq<char>>, version: Option<Seq<char>>, cut: Option<char>) -> Option<Seq<char>> {
    let chosen = match over {
        Some(o) => Some(o),
        None => match version {
            Some(v) => match cut {
                Some(c) => Some(split_on(v, c)[0]),
                None => Some(v),
            },
            None => None,
        },
    };
    filled(chosen)
}

/// AssemblyVersion / FileVersion: explicit override if present, else the
/// version minus its prerelease.
pub fn assembly_or_file_version(over: &Option<String>, version: &Option<String>) -> (r: Option<String>)
    ensures
        opt_str(r) == derived(opt_str(*over), opt_str(*version), Some('-')),
{
    let chosen = match over {
        Some(o) => copy(o.as_str()),
        None => match version {
            Some(v) => strip_prerelease(v.as_str()),
            None => return None,
        },
    };
    non_blank(chosen)
}

/// InformationalVersion: override if present, else the full version.
pub fn informational_version(over: &Option<String>, version: &Option<String>) -> (r: Option<String>)
    ensures
        opt_str(r) == derived(opt_str(*over), opt_str(*version), None),
{
    let chosen = match over {
        Some(o) => copy(o.as_str()),
        None => match version {
            Some(v) => copy(v.as_str()),
            None => return None,
        },
    };
    non_blank(chosen)
}

/// PackageVersion: override if present, else the version minus build metadata.
pub fn package_version(over: &Option<String>, version: &Option<String>) -> (r: Option<String>)
    ensures
        opt_str(r) == derived(opt_str(*over), opt_str(*version), Some('+')),
{
    let chosen = match over {
        Some(o) => copy(o.as_str()),
        None => match version {
            Some(v) => strip_metadata(v.as_str()),
            None => return None,
        },
    };
    non_blank(chosen)
}

/// A version derived by cutting at a character never contains that character,
/// and a derived version is never blank.
pub proof fn lemma_derived_shape(over: Option<Seq<char>>, version: Option<Seq<char>>, c: char)
    ensures
        derived(over, version, Some(c)) matches Some(d) ==> !blank(d),
        over is None ==> (derived(over, version, Some(c)) matches Some(d) ==> forall|i: int|
            0 <= i < d.len() ==> d[i] != c),
{
    if let Some(v) = version {
        crate::text::lemma_split_pieces_free(v, c);
        crate::text::lemma_split_nonempty(v, c);
    }
}

} // verus!
