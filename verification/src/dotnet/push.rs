//! `dotnet nuget push` — publish a `.nupkg` to a NuGet source.

use vstd::prelude::*;
use crate::dotnet::config::DotnetConfig;
use crate::dotnet::{exit_phrase};
use crate::text::{blank, cat, combined_lower, combined_output, contains, copy, dec, filled, filled_opt, has, is_blank, opt_str, strs};

verus! {

/// The `push` step's configuration.
pub struct PushConfig {
    pub package: String,
    pub source: Option<String>,
    pub api_key: Option<String>,
}

impl Default for PushConfig {
    fn default() -> (r: Self)
        ensures
            r.package@ == Seq::<char>::empty(),
            r.source is None,
            r.api_key is None,
    {
        PushConfig { package: String::new(), source: None, api_key: None }
    }
}

/// Not blank: `!s.trim().is_empty()`.
pub fn non_blank(s: &str) -> (r: bool)
    ensures
        r == !blank(s@),
{
    !is_blank(s)
}

/// The failure for a missing package file.
pub fn package_not_found(path: &str) -> (r: String)
    ensures
        r@ == "NuGet package file not found at path: "@ + path@,
{
    cat("NuGet package file not found at path: ", path)
}

/// The failure when no source is configured anywhere.
pub open spec fn no_source() -> Seq<char> {
    "NuGet source is not specified in both global and local configuration."@
}

/// The failure when no API key is configured anywhere.
pub open spec fn no_api_key() -> Seq<char> {
    "NuGet API key is not specified in both global and local configuration."@
}

/// The step's value when it is present and not blank, else the plugin's.
pub open spec fn or_plugin(step: Option<String>, plugin: Seq<char>) -> Seq<char> {
    match filled(opt_str(step)) {
        Some(v) => v,
        None => plugin,
    }
}

/// The argv of `dotnet nuget push`, or the failure for a missing source or key.
pub open spec fn push_argv(cfg: PushConfig, plugin: DotnetConfig) -> Result<Seq<Seq<char>>, Seq<char>> {
    let source = or_plugin(cfg.source, plugin.nuget_source@);
    let key = or_plugin(cfg.api_key, plugin.key());
    if blank(source) {
        Err(no_source())
    } else if blank(key) {
        Err(no_api_key())
    } else {
        Ok(seq![
            "nuget"@,
            "push"@,
            cfg.package@,
            "--source"@,
            source,
            "--api-key"@,
            key,
            "--timeout"@,
            "30"@,
        ])
    }
}

/// The argv of `dotnet nuget push` for `cfg`: the step's source and key win
/// over the plugin's when not blank; fails when either ends up blank.
pub fn push_args(cfg: &PushConfig, plugin: &DotnetConfig) -> (r: Result<Vec<String>, String>)
    ensures
        crate::dotnet::build_step::argv_or_failure(r) == push_argv(*cfg, *plugin),
{
    let source = match filled_opt(&cfg.source) {
        Some(s) => s,
        None => copy(plugin.nuget_source.as_str()),
    };
    if is_blank(source.as_str()) {
        return Err(String::from_str("NuGet source is not specified in both global and local configuration."));
    }
    let key = match filled_opt(&cfg.api_key) {
        Some(k) => k,
        None => copy(plugin.resolved_api_key()),
    };
    if is_blank(key.as_str()) {
        return Err(String::from_str("NuGet API key is not specified in both global and local configuration."));
    }
    let mut args: Vec<String> = Vec::new();
    args.push(String::from_str("nuget"));
    args.push(String::from_str("push"));
    args.push(copy(cfg.package.as_str()));
    args.push(String::from_str("--source"));
    args.push(source);
    args.push(String::from_str("--api-key"));
    args.push(key);
    args.push(String::from_str("--timeout"));
    args.push(String::from_str("30"));
    assert(strs(args@) =~= push_argv(*cfg, *plugin)->Ok_0);
    Ok(args)
}

/// The combined output reports an authentication problem. The status is
/// anchored on the `NNN (` form, so a bare `401` in a file name or hash does
/// not count.
pub open spec fn auth_failure(out: Seq<char>) -> bool {
    contains(out, "401 ("@) || contains(out, "403 ("@) || contains(out, "unauthorized"@) || contains(
        out,
        "forbidden"@,
    )
}

/// The failure for an authentication problem.
pub open spec fn auth_error() -> Seq<char> {
    "Failed to push package: Authentication error. Please check your API key and permissions."@
}

/// The failure message of a `dotnet nuget push` that exited non-zero.
pub open spec fn push_failure_of(stdout: Seq<char>, stderr: Seq<char>, code: int) -> Seq<char> {
    if auth_failure(combined_lower(stdout, stderr)) {
        auth_error()
    } else {
        "Failed to push package: "@ + "Dotnet command failed with exit code "@ + dec(code)
    }
}

/// Classifies a failed push from its output: an authentication error, else the
/// generic exit phrase.
pub fn push_failure(stdout: &str, stderr: &str, exit_code: i32) -> (r: String)
    ensures
        r@ == push_failure_of(stdout@, stderr@, exit_code as int),
{
    let out = combined_output(stdout, stderr);
    if has(&out, "401 (") || has(&out, "403 (") || has(&out, "unauthorized") || has(&out, "forbidden") {
        String::from_str("Failed to push package: Authentication error. Please check your API key and permissions.")
    } else {
        let p = exit_phrase(exit_code);
        cat("Failed to push package: ", p.as_str())
    }
}

} // verus!
