//! `push`: publishes a tarball with `npm publish`, the token kept off the
//! argv in a scoped `.npmrc`, and tells a version conflict and an
//! authentication problem from other failures.

use vstd::prelude::*;
use crate::nodejs::{exit_phrase, NodeConfig};
use crate::paths::path_join;
use crate::text::{
    blank, cat, cat3, chars_of, combined_lower, combined_output, contains, copy, dec, filled,
    filled_opt, has, opt_str, push_opt_flag, push_str, starts_with, starts_with_chars, string_of,
    strs, trim_end_char, trim_end_char_str,
};

verus! {

/// The `push` configuration.
pub struct PushConfig {
    pub package: String,
    pub registry: Option<String>,
    pub token: Option<String>,
    pub tag: String,
    pub access: Option<String>,
}

impl Default for PushConfig {
    fn default() -> (r: Self)
        ensures
            r.package@ == Seq::<char>::empty(),
            r.registry is None,
            r.token is None,
            r.tag@ == "latest"@,
            r.access is None,
    {
        PushConfig { package: String::new(), registry: None, token: None, tag: String::from_str("latest"), access: None }
    }
}

/// The registry without its `https://` or `http://` scheme.
pub open spec fn without_scheme(registry: Seq<char>) -> Seq<char> {
    if starts_with(registry, "https://"@) {
        registry.subrange(8, registry.len() as int)
    } else if starts_with(registry, "http://"@) {
        registry.subrange(7, registry.len() as int)
    } else {
        registry
    }
}

/// The scoped `.npmrc` line: host and path of the registry (no scheme, one
/// trailing slash), then `:_authToken=` and the token.
pub open spec fn npmrc_line_of(registry: Seq<char>, token: Seq<char>) -> Seq<char> {
    "//"@ + trim_end_char(without_scheme(registry), '/') + "/:_authToken="@ + token
}

/// The scoped `.npmrc` line for `registry`.
pub fn npmrc_line(registry: &str, token: &str) -> (r: String)
    ensures
        r@ == npmrc_line_of(registry@, token@),
{
    let v = chars_of(registry);
    let https = chars_of("https://");
    let http = chars_of("http://");
    proof {
        reveal_strlit("https://");
        reveal_strlit("http://");
    }
    let stripped = if starts_with_chars(&v, &https) {
        string_of(&v, 8, v.len())
    } else if starts_with_chars(&v, &http) {
        string_of(&v, 7, v.len())
    } else {
        copy(registry)
    };
    let host = trim_end_char_str(stripped.as_str(), '/');
    let a = cat3("//", host.as_str(), "/:_authToken=");
    cat(a.as_str(), token)
}

/// The step's value when present and not blank, else the plugin's.
pub open spec fn or_plugin(step: Option<String>, plugin: Seq<char>) -> Seq<char> {
    match filled(opt_str(step)) {
        Some(v) => v,
        None => plugin,
    }
}

/// The failure when no token is configured anywhere.
pub open spec fn no_token() -> Seq<char> {
    "npm authentication token is not specified in both global and local configuration."@
}

/// The registry and token to publish with, or the failure when neither the
/// step nor the plugin has a token.
pub open spec fn credentials_of(cfg: PushConfig, plugin: NodeConfig) -> Result<(Seq<char>, Seq<char>), Seq<char>> {
    let token = or_plugin(cfg.token, plugin.token@);
    if blank(token) {
        Err(no_token())
    } else {
        Ok((or_plugin(cfg.registry, plugin.registry@), token))
    }
}

/// The registry and token to publish with.
pub fn credentials(cfg: &PushConfig, plugin: &NodeConfig) -> (r: Result<(String, String), String>)
    ensures
        match credentials_of(*cfg, *plugin) {
            Ok((reg, tok)) => r matches Ok((a, b)) && a@ == reg && b@ == tok,
            Err(m) => r matches Err(e) && e@ == m,
        },
{
    let token = match filled_opt(&cfg.token) {
        Some(t) => t,
        None => copy(plugin.token.as_str()),
    };
    if crate::text::is_blank(token.as_str()) {
        return Err(String::from_str("npm authentication token is not specified in both global and local configuration."));
    }
    let registry = match filled_opt(&cfg.registry) {
        Some(r) => r,
        None => copy(plugin.registry.as_str()),
    };
    Ok((registry, token))
}

/// The scoped `.npmrc` file's contents.
pub fn npmrc_contents(registry: &str, token: &str) -> (r: String)
    ensures
        r@ == npmrc_line_of(registry@, token@) + "\n"@,
{
    let line = npmrc_line(registry, token);
    cat(line.as_str(), "\n")
}

/// Where the scoped `.npmrc` lives, relative to the working directory.
pub fn npmrc_dir() -> (r: String)
    ensures
        r@ == ".moonlit/npm-push"@,
{
    String::from_str(".moonlit/npm-push")
}

/// The argv of `npm publish`.
pub open spec fn publish_argv(cfg: PushConfig, registry: Seq<char>) -> Seq<Seq<char>> {
    seq!["publish"@, cfg.package@, "--registry"@, registry, "--tag"@, cfg.tag@] + (match filled(opt_str(cfg.access)) {
        Some(a) => seq!["--access"@, a],
        None => Seq::empty(),
    }) + seq!["--userconfig"@, ".moonlit/npm-push/.npmrc"@]
}

/// The argv of `npm publish`: the tarball, registry and tag, the access
/// level when given, and the scoped `.npmrc` (so the token is not on it).
pub fn publish_args(cfg: &PushConfig, registry: &str) -> (r: Vec<String>)
    ensures
        strs(r@) == publish_argv(*cfg, registry@),
{
    let mut a: Vec<String> = Vec::new();
    push_str(&mut a, "publish");
    push_str(&mut a, cfg.package.as_str());
    push_str(&mut a, "--registry");
    push_str(&mut a, registry);
    push_str(&mut a, "--tag");
    push_str(&mut a, cfg.tag.as_str());
    let access = filled_opt(&cfg.access);
    push_opt_flag(&mut a, "--access", &access);
    push_str(&mut a, "--userconfig");
    push_str(&mut a, ".moonlit/npm-push/.npmrc");
    a
}

/// The combined output reports that the version exists already.
pub open spec fn version_conflict(out: Seq<char>) -> bool {
    ||| contains(out, "epublishconflict"@)
    ||| contains(out, "e409"@)
    ||| contains(out, "409 conflict"@)
    ||| contains(out, "cannot publish over"@)
    ||| contains(out, "previously published versions"@)
    ||| contains(out, "403"@) && contains(out, "already"@) && contains(out, "publish"@)
}

/// The combined output reports an authentication problem. The status is
/// anchored on the `NNN (` form, so a bare `401` in a file name does not count.
pub open spec fn auth_problem(out: Seq<char>) -> bool {
    ||| contains(out, "401 ("@)
    ||| contains(out, "403 ("@)
    ||| contains(out, "e401"@)
    ||| contains(out, "eneedauth"@)
    ||| contains(out, "unauthorized"@)
    ||| contains(out, "forbidden"@)
}

/// The failure of a publish that exited non-zero: a version conflict first,
/// then an authentication problem, else the exit phrase.
pub open spec fn publish_failure_of(stdout: Seq<char>, stderr: Seq<char>, code: int) -> Seq<char> {
    let out = combined_lower(stdout, stderr);
    if version_conflict(out) {
        "Version already published."@
    } else if auth_problem(out) {
        "Failed to push package: Authentication error. Please check your token and permissions."@
    } else {
        "Failed to push package: "@ + "Npm command failed with exit code "@ + dec(code)
    }
}

/// The failure of a publish that exited non-zero.
pub fn publish_failure(stdout: &str, stderr: &str, code: i32) -> (r: String)
    ensures
        r@ == publish_failure_of(stdout@, stderr@, code as int),
{
    let out = combined_output(stdout, stderr);
    if has(&out, "epublishconflict") || has(&out, "e409") || has(&out, "409 conflict") || has(&out, "cannot publish over")
        || has(&out, "previously published versions") || (has(&out, "403") && has(&out, "already") && has(&out, "publish")) {
        String::from_str("Version already published.")
    } else if has(&out, "401 (") || has(&out, "403 (") || has(&out, "e401") || has(&out, "eneedauth") || has(&out, "unauthorized")
        || has(&out, "forbidden") {
        String::from_str("Failed to push package: Authentication error. Please check your token and permissions.")
    } else {
        let p = exit_phrase(code);
        cat("Failed to push package: ", p.as_str())
    }
}

/// The failure when the tarball is not a file, naming the resolved path.
pub fn tarball_missing(working_dir: &str, package: &str) -> (r: String)
    ensures
        r@ == "Package tarball not found at path: "@ + path_join(working_dir@, package@),
{
    let p = crate::paths::join(working_dir, package);
    cat("Package tarball not found at path: ", p.as_str())
}

} // verus!
