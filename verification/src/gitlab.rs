//! The `gitlab` plugin: releases, related merge requests and issues, and the
//! dotenv report file. This module holds the plugin configuration and the
//! project coordinates the steps address.

pub mod related;
pub mod release;
pub mod variables;

use vstd::prelude::*;
use vstd::utf8::encode_utf8;
use crate::git::{strip_suffix_or_keep, strip_suffix_str};
use crate::gitlab::release::{encode_query, percent_encoded};
use crate::text::{
    blank, cat, cat3, chars_of, copy, find_chars, occurs_at, opt_str, find_str, is_blank, rfind_chars, rfind_str, string_of, trim_end_char,
    trim_end_char_str,
};

verus! {

/// The plugin configuration: the API token and the instance's base URL.
pub struct GitlabPluginConfig {
    pub token: String,
    pub base_url: String,
}

impl Default for GitlabPluginConfig {
    fn default() -> (r: Self)
        ensures
            r.token@ == Seq::<char>::empty(),
            r.base_url@ == "https://gitlab.com"@,
    {
        GitlabPluginConfig { token: String::new(), base_url: String::from_str("https://gitlab.com") }
    }
}

impl GitlabPluginConfig {
    /// Refuses a blank token.
    pub fn validate(&self) -> (r: Result<(), String>)
        ensures
            r is Err <==> blank(self.token@),
            r matches Err(e) ==> e@ == "GitLab token is not configured."@,
    {
        if is_blank(self.token.as_str()) {
            Err(String::from_str("GitLab token is not configured."))
        } else {
            Ok(())
        }
    }
}

/// The project the plugin works on: its URL-encoded id (`group%2Fproject`),
/// the REST API root and the project's web page.
pub struct GitlabContext {
    pub project_id: String,
    pub api: String,
    pub web: String,
}

impl GitlabContext {
    /// The REST API root.
    pub fn api_base(&self) -> (r: String)
        ensures
            r@ == self.api@,
    {
        copy(self.api.as_str())
    }

    /// The project's web page.
    pub fn web_url(&self) -> (r: String)
        ensures
            r@ == self.web@,
    {
        copy(self.web.as_str())
    }

    /// The URL prefix of a commit page.
    pub fn commit_url_prefix(&self) -> (r: String)
        ensures
            r@ == self.web@ + "/-/commit/"@,
    {
        cat(self.web.as_str(), "/-/commit/")
    }

    /// `/projects/{id}` followed by `rest`.
    pub fn project_path(&self, rest: &str) -> (r: String)
        ensures
            r@ == "/projects/"@ + self.project_id@ + rest@,
    {
        cat3("/projects/", self.project_id.as_str(), rest)
    }
}


/// The host part of a base URL: what follows its last `://` (the whole URL
/// when there is none). This is the last piece of `base.split("://")`, as
/// `://` cannot overlap itself.
pub open spec fn url_host(base: Seq<char>) -> Seq<char> {
    match rfind_str(base, "://"@) {
        Some(i) => base.subrange(i + 3, base.len() as int),
        None => base,
    }
}

/// What follows the first occurrence of `marker` in `url`, if it occurs.
pub open spec fn after_first(url: Seq<char>, marker: Seq<char>) -> Option<Seq<char>> {
    match find_str(url, marker) {
        Some(i) => Some(url.subrange(i + marker.len(), url.len() as int)),
        None => None,
    }
}

/// The project path a remote URL names on the instance at `base`: what
/// follows `host/` (HTTPS) or, failing that, `host:` (SSH), without a
/// trailing `.git`; `None` when neither marker occurs or nothing is left.
pub open spec fn project_path_of(url: Seq<char>, base: Seq<char>) -> Option<Seq<char>> {
    let host = url_host(base);
    let rest = match after_first(url, host + "/"@) {
        Some(p) => Some(p),
        None => after_first(url, host + ":"@),
    };
    match rest {
        Some(p) => {
            let q = strip_suffix_or_keep(p, ".git"@);
            if q.len() > 0 {
                Some(q)
            } else {
                None
            }
        },
        None => None,
    }
}

/// What follows the first `marker` in `url`, copied.
fn after_marker(url: &Vec<char>, marker: &str) -> (r: Option<String>)
    ensures
        opt_str(r) == after_first(url@, marker@),
{
    let m = chars_of(marker);
    let found = find_chars(url, &m);
    match found {
        Some(i) => {
            assert(occurs_at(url@, m@, i as int));
            assert(url@.len() == url.len());
            Some(string_of(url, i + m.len(), url.len()))
        },
        None => None,
    }
}

/// The project coordinates from the `origin` remote URL and the configured
/// base URL: the project path after the instance host, percent-encoded as
/// the id, the API root `{base}/api/v4` and the web page `{base}/{path}`,
/// where `base` is the base URL without trailing `/`. A URL that names no
/// project on that instance is refused.
pub fn context_from_remote_url(url: &str, base_url: &str) -> (r: Result<GitlabContext, String>)
    ensures
        match project_path_of(url@, trim_end_char(base_url@, '/')) {
            Some(p) => r matches Ok(c) && c.project_id@ == percent_encoded(encode_utf8(p)) && c.api@
                == trim_end_char(base_url@, '/') + "/api/v4"@ && c.web@ == trim_end_char(base_url@, '/') + "/"@ + p,
            None => r matches Err(e) && e@ == "Not a valid GitLab URL."@,
        },
{
    let base = trim_end_char_str(base_url, '/');
    let bv = chars_of(base.as_str());
    let sep = chars_of("://");
    proof {
        reveal_strlit("://");
    }
    let at = rfind_chars(&bv, &sep);
    let host = match at {
        Some(i) => {
            assert(occurs_at(bv@, sep@, i as int));
            assert(bv@.len() == bv.len());
            string_of(&bv, i + sep.len(), bv.len())
        },
        None => copy(base.as_str()),
    };
    assert(host@ == url_host(base@));
    let uv = chars_of(url);
    let m1 = cat(host.as_str(), "/");
    let m2 = cat(host.as_str(), ":");
    let rest = match after_marker(&uv, m1.as_str()) {
        Some(p) => Some(p),
        None => after_marker(&uv, m2.as_str()),
    };
    match rest {
        Some(p) => {
            let q = strip_suffix_str(p.as_str(), ".git");
            if q.as_str().unicode_len() > 0 {
                let id = encode_query(q.as_str());
                let api = cat(base.as_str(), "/api/v4");
                let web = cat3(base.as_str(), "/", q.as_str());
                Ok(GitlabContext { project_id: id, api, web })
            } else {
                Err(String::from_str("Not a valid GitLab URL."))
            }
        },
        None => Err(String::from_str("Not a valid GitLab URL.")),
    }
}

} // verus!
