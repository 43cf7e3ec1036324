//! The `nodejs` plugin: install, run scripts, build, pack, publish and test
//! through the `npm` CLI. This module holds what the steps share: the plugin
//! configuration, where `npm` runs, the `package.json` check, the lockfiles,
//! the exit phrase and the optional `npm version` step.

pub mod install;
pub mod pack;
pub mod push;
pub mod scripts;

use vstd::prelude::*;
use crate::paths::{path_join, within};
use crate::text::{cat, dec, filled, filled_opt, fmt_i32, opt_str, push_str, strs};

verus! {

/// The plugin configuration: the registry and token `push` falls back to.
pub struct NodeConfig {
    pub registry: String,
    pub token: String,
}

impl Default for NodeConfig {
    fn default() -> (r: Self)
        ensures
            r.registry@ == "https://registry.npmjs.org"@,
            r.token@ == Seq::<char>::empty(),
    {
        NodeConfig { registry: String::from_str("https://registry.npmjs.org"), token: String::new() }
    }
}

/// Resolves a path for the plugin's own file access. When the plugin runs
/// with the working directory as its preopened root (the wasm build,
/// `preopen`), the path stays as given; elsewhere it is joined onto the
/// working directory (`Path::new(working_dir).join(p)`).
pub fn resolve(working_dir: &str, p: &str, preopen: bool) -> (r: String)
    ensures
        r@ == within(working_dir@, p@, preopen),
        preopen ==> r@ == p@,
        !preopen ==> r@ == path_join(working_dir@, p@),
{
    crate::paths::resolve_within(working_dir, p, preopen)
}

/// The directory `npm` runs in: `directory` under the working directory.
pub fn npm_cwd(working_dir: &str, directory: &str) -> (r: String)
    ensures
        r@ == path_join(working_dir@, directory@),
{
    crate::paths::join(working_dir, directory)
}

/// The uniform non-zero-exit failure phrase.
pub fn exit_phrase(code: i32) -> (r: String)
    ensures
        r@ == "Npm command failed with exit code "@ + dec(code as int),
{
    let c = fmt_i32(code);
    cat("Npm command failed with exit code ", c.as_str())
}

/// Where `package.json` must be, as the plugin's file access sees it.
pub fn package_json_path(working_dir: &str, directory: &str, preopen: bool) -> (r: String)
    ensures
        r@ == path_join(within(working_dir@, directory@, preopen), "package.json"@),
{
    let dir = resolve(working_dir, directory, preopen);
    crate::paths::join(dir.as_str(), "package.json")
}

/// The failure when `package.json` is missing, naming the resolved directory.
pub fn package_json_missing(working_dir: &str, directory: &str, preopen: bool) -> (r: String)
    ensures
        r@ == "package.json not found in directory: "@ + within(working_dir@, directory@, preopen),
{
    let dir = resolve(working_dir, directory, preopen);
    cat("package.json not found in directory: ", dir.as_str())
}

/// The lockfiles whose presence selects `npm ci`, as the plugin's file
/// access sees them.
pub fn lockfile_paths(working_dir: &str, directory: &str, preopen: bool) -> (r: (String, String))
    ensures
        r.0@ == path_join(within(working_dir@, directory@, preopen), "package-lock.json"@),
        r.1@ == path_join(within(working_dir@, directory@, preopen), "npm-shrinkwrap.json"@),
{
    let dir = resolve(working_dir, directory, preopen);
    (crate::paths::join(dir.as_str(), "package-lock.json"), crate::paths::join(dir.as_str(), "npm-shrinkwrap.json"))
}

/// The argv of the optional version step, when a non-blank version is given.
pub open spec fn version_argv(version: Option<String>) -> Option<Seq<Seq<char>>> {
    match filled(opt_str(version)) {
        Some(v) => Some(seq!["version"@, v, "--no-git-tag-version"@, "--allow-same-version"@]),
        None => None,
    }
}

/// The argv of `npm version <v> --no-git-tag-version --allow-same-version`;
/// `None` (no step) when the version is absent or blank.
pub fn version_args(version: &Option<String>) -> (r: Option<Vec<String>>)
    ensures
        match r {
            Some(a) => version_argv(*version) == Some(strs(a@)),
            None => version_argv(*version) is None,
        },
{
    match filled_opt(version) {
        Some(v) => {
            let mut a: Vec<String> = Vec::new();
            push_str(&mut a, "version");
            push_str(&mut a, v.as_str());
            push_str(&mut a, "--no-git-tag-version");
            push_str(&mut a, "--allow-same-version");
            Some(a)
        },
        None => None,
    }
}

/// The failure of a version step that exited non-zero.
pub fn version_failure(code: i32) -> (r: String)
    ensures
        r@ == "Failed to set version: "@ + "Npm command failed with exit code "@ + dec(code as int),
{
    let p = exit_phrase(code);
    cat("Failed to set version: ", p.as_str())
}

/// A failure prefixed with what was being done: `{what}: {detail}`.
pub fn failed_to(what: &str, detail: &str) -> (r: String)
    ensures
        r@ == what@ + ": "@ + detail@,
{
    crate::text::cat3(what, ": ", detail)
}

} // verus!
