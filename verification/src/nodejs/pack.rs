//! `pack`: where `npm pack --json` puts the tarball, whether that place is
//! wiped first, and the package path reported from npm's JSON report.

use vstd::prelude::*;
use crate::nodejs::exit_phrase;
use crate::text::{cat, cat3, copy, dec, filled, filled_opt, opt_str, push_str, str_eq, strs, trim_end_char, trim_end_char_str};

verus! {

/// The `pack` configuration.
pub struct PackConfig {
    pub directory: String,
    pub version: Option<String>,
    pub destination: Option<String>,
}

impl Default for PackConfig {
    fn default() -> (r: Self)
        ensures
            r.directory@ == "."@,
            r.version is None,
            r.destination is None,
    {
        PackConfig { directory: String::from_str("."), version: None, destination: None }
    }
}

/// The destination relative to npm's directory: the configured one when
/// present and not blank, else the plugin's own scratch directory.
pub open spec fn npm_destination_of(cfg: PackConfig) -> Seq<char> {
    match filled(opt_str(cfg.destination)) {
        Some(d) => d,
        None => ".moonlit/npm-pack"@,
    }
}

/// The destination relative to npm's directory.
pub fn npm_destination(cfg: &PackConfig) -> (r: String)
    ensures
        r@ == npm_destination_of(*cfg),
{
    match filled_opt(&cfg.destination) {
        Some(d) => d,
        None => String::from_str(".moonlit/npm-pack"),
    }
}

/// Whether the destination is wiped before packing: only the plugin's own
/// directory is; a configured one is created if missing and never emptied.
pub fn wipes_destination(cfg: &PackConfig) -> (r: bool)
    ensures
        r == (filled(opt_str(cfg.destination)) is None),
{
    filled_opt(&cfg.destination).is_none()
}

/// `dest` made relative to the working directory, given npm's `directory`:
/// unchanged when the directory is empty or `.` (after dropping trailing
/// slashes), else joined under it with `/`.
pub open spec fn dest_wd_rel_of(directory: Seq<char>, dest: Seq<char>) -> Seq<char> {
    let d = trim_end_char(directory, '/');
    if d.len() == 0 || d == "."@ {
        dest
    } else {
        d + "/"@ + dest
    }
}

/// `dest` made relative to the working directory.
pub fn dest_wd_rel(directory: &str, dest: &str) -> (r: String)
    ensures
        r@ == dest_wd_rel_of(directory@, dest@),
{
    let d = trim_end_char_str(directory, '/');
    if d.as_str().unicode_len() == 0 || str_eq(d.as_str(), ".") {
        copy(dest)
    } else {
        cat3(d.as_str(), "/", dest)
    }
}

/// The argv of `npm pack` into `npm_dest`, reporting JSON.
pub fn pack_args(npm_dest: &str) -> (r: Vec<String>)
    ensures
        strs(r@) == seq!["pack"@, "--pack-destination"@, npm_dest@, "--json"@],
{
    let mut a: Vec<String> = Vec::new();
    push_str(&mut a, "pack");
    push_str(&mut a, "--pack-destination");
    push_str(&mut a, npm_dest);
    push_str(&mut a, "--json");
    a
}

/// The failure of a pack that exited non-zero.
pub fn pack_failure(code: i32) -> (r: String)
    ensures
        r@ == "Failed to pack project: "@ + "Npm command failed with exit code "@ + dec(code as int),
{
    let p = exit_phrase(code);
    cat("Failed to pack project: ", p.as_str())
}

/// The failure when the destination cannot be prepared.
pub fn prepare_failure(error: &str) -> (r: String)
    ensures
        r@ == "Failed to prepare pack destination: "@ + error@,
{
    cat("Failed to prepare pack destination: ", error)
}

/// What `serde_json` reads from `text` as an array, entry by entry: for each
/// element, its member `key` when that member is a JSON string. `None` when
/// the text is not JSON or not an array.
pub uninterp spec fn json_array_member_strs(text: Seq<char>, key: Seq<char>) -> Option<Seq<Option<Seq<char>>>>;

/// The views of an optional list of optional strings.
pub open spec fn member_strs_view(v: Option<Vec<Option<String>>>) -> Option<Seq<Option<Seq<char>>>> {
    match v {
        Some(e) => Some(e@.map_values(|o: Option<String>| opt_str(o))),
        None => None,
    }
}

/// Parses `text` with `serde_json::from_str` into a `Value`; if it is an
/// array (`Value::as_array`), gives each element's member `key`
/// (`Value::get`) as a string (`Value::as_str`), `None` for an element
/// without a string member `key`. Claims only that the result is
/// `json_array_member_strs` of `text` and `key`.
#[verifier::external_body]
fn array_member_strs(text: &str, key: &str) -> (r: Option<Vec<Option<String>>>)
    ensures
        member_strs_view(r) == json_array_member_strs(text@, key@),
{
    let v: serde_json::Value = serde_json::from_str(text).ok()?;
    let entries = v.as_array()?;
    Some(entries.iter().map(|e| e.get(key).and_then(|f| f.as_str()).map(|f| f.to_string())).collect())
}

/// The first entry's filename: `None` when there is no array, when the
/// array is empty, or when its first entry has no string filename.
pub open spec fn first_filename_of(entries: Option<Seq<Option<Seq<char>>>>) -> Option<Seq<char>> {
    match entries {
        Some(e) => if e.len() > 0 { e[0] } else { None },
        None => None,
    }
}

/// The filename `npm pack --json` reports in `stdout`: the `filename`
/// string of the first entry of the JSON array.
pub open spec fn pack_report_filename(stdout: Seq<char>) -> Option<Seq<char>> {
    first_filename_of(json_array_member_strs(stdout, "filename"@))
}

/// Picks the first entry's filename out of the per-entry filenames of the
/// report (`None` for a missing array, an empty one, or a first entry
/// without a string filename).
pub fn first_entry_filename(entries: Option<Vec<Option<String>>>) -> (r: Option<String>)
    ensures
        opt_str(r) == first_filename_of(member_strs_view(entries)),
{
    match entries {
        Some(mut e) => {
            if e.len() > 0 {
                let first = e.swap_remove(0);
                first
            } else {
                None
            }
        },
        None => None,
    }
}

/// The tarball name `npm pack --json` reported, if any: the string
/// `filename` of the first entry of the JSON array on stdout.
pub fn parse_pack_filename(stdout: &str) -> (r: Option<String>)
    ensures
        opt_str(r) == pack_report_filename(stdout@),
{
    let entries = array_member_strs(stdout, "filename");
    first_entry_filename(entries)
}

/// The reported package path: `{wd_rel}/{filename}`, or the failure when
/// npm reported no tarball.
pub open spec fn package_path_of(wd_rel: Seq<char>, filename: Option<Seq<char>>) -> Result<Seq<char>, Seq<char>> {
    match filename {
        Some(f) => Ok(wd_rel + "/"@ + f),
        None => Err("No package tarball was created."@),
    }
}

/// The package path reported for the pack's JSON report.
pub fn package_path(wd_rel: &str, stdout: &str) -> (r: Result<String, String>)
    ensures
        match package_path_of(wd_rel@, pack_report_filename(stdout@)) {
            Ok(p) => r matches Ok(q) && q@ == p,
            Err(m) => r matches Err(e) && e@ == m,
        },
{
    match parse_pack_filename(stdout) {
        Some(f) => Ok(cat3(wd_rel, "/", f.as_str())),
        None => Err(String::from_str("No package tarball was created.")),
    }
}

} // verus!
