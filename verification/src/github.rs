//! The `github` plugin: releases, related pull requests and issues, and the
//! Actions output files. This module holds the plugin configuration and the
//! repository coordinates read from the `origin` remote.

pub mod related;
pub mod release;
pub mod variables;

use vstd::prelude::*;
use crate::rx::{captures, compile, group, group_at, regex_captures, regex_valid};
use crate::text::{blank, cat, cat3, copy, is_blank, trim, trim_str};

verus! {

/// The plugin configuration: the API token.
pub struct GithubPluginConfig {
    pub token: String,
}

impl Default for GithubPluginConfig {
    fn default() -> (r: Self)
        ensures
            r.token@ == Seq::<char>::empty(),
    {
        GithubPluginConfig { token: String::new() }
    }
}

impl GithubPluginConfig {
    /// Refuses a blank token.
    pub fn validate(&self) -> (r: Result<(), String>)
        ensures
            r is Err <==> blank(self.token@),
            r matches Err(e) ==> e@ == "GitHub token is not configured."@,
    {
        if is_blank(self.token.as_str()) {
            Err(String::from_str("GitHub token is not configured."))
        } else {
            Ok(())
        }
    }
}

/// The REST API root.
pub fn api_base() -> (r: String)
    ensures
        r@ == "https://api.github.com"@,
{
    String::from_str("https://api.github.com")
}

/// The repository the plugin works on.
pub struct GithubContext {
    pub owner: String,
    pub repo: String,
}

impl GithubContext {
    /// The URL prefix of a commit page.
    pub fn commit_url_prefix(&self) -> (r: String)
        ensures
            r@ == "https://github.com/"@ + self.owner@ + "/"@ + self.repo@ + "/commit/"@,
    {
        let a = cat3("https://github.com/", self.owner.as_str(), "/");
        cat3(a.as_str(), self.repo.as_str(), "/commit/")
    }

    /// `/repos/{owner}/{repo}` followed by `rest`.
    pub fn repo_path(&self, rest: &str) -> (r: String)
        ensures
            r@ == "/repos/"@ + self.owner@ + "/"@ + self.repo@ + rest@,
    {
        let a = cat3("/repos/", self.owner.as_str(), "/");
        cat3(a.as_str(), self.repo.as_str(), rest)
    }

    /// A copy.
    pub fn duplicate(&self) -> (r: GithubContext)
        ensures
            r.owner@ == self.owner@,
            r.repo@ == self.repo@,
    {
        GithubContext { owner: copy(self.owner.as_str()), repo: copy(self.repo.as_str()) }
    }
}

/// The pattern reading owner and repo out of a GitHub remote URL. The host is
/// anchored on a start, `/` or `@` boundary, so that a look-alike host that
/// merely ends in `github.com` does not match.
pub open spec fn remote_source() -> Seq<char> {
    "(?:^|[/@])github\\.com[/:](?P<owner>[^/]+?)/(?P<repo>[^/.]+)(\\.git)?$"@
}

/// Owner and repo of a remote URL, when the pattern matches it.
pub open spec fn remote_parts(url: Seq<char>) -> Option<(Seq<char>, Seq<char>)> {
    if regex_valid(remote_source(), false) {
        let caps = regex_captures(remote_source(), false, url);
        match (group(caps, 1), group(caps, 2)) {
            (Some(o), Some(r)) => Some((o, r)),
            _ => None,
        }
    } else {
        None
    }
}

/// Reads owner and repo from the output of `git remote get-url origin`
/// (trimmed); a URL that is not a GitHub one is refused.
pub fn context_from_remote(stdout: &str) -> (r: Result<GithubContext, String>)
    ensures
        match remote_parts(trim(stdout@)) {
            Some((o, p)) => r matches Ok(c) && c.owner@ == o && c.repo@ == p,
            None => r matches Err(e) && e@ == "Not a valid GitHub URL."@,
        },
{
    let url = trim_str(stdout);
    let re = match compile("(?:^|[/@])github\\.com[/:](?P<owner>[^/]+?)/(?P<repo>[^/.]+)(\\.git)?$", false) {
        Some(re) => re,
        None => return Err(String::from_str("Not a valid GitHub URL.")),
    };
    let caps = captures(&re, url.as_str());
    let owner = group_at(&caps, 1);
    let repo = group_at(&caps, 2);
    match (owner, repo) {
        (Some(o), Some(p)) => Ok(GithubContext { owner: o, repo: p }),
        _ => Err(String::from_str("Not a valid GitHub URL.")),
    }
}

} // verus!
