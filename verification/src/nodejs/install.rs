//! `install`: `npm ci` when the project has a lockfile (or when asked),
//! `npm install` otherwise; `--omit=dev` for a production install.

use vstd::prelude::*;
use crate::nodejs::exit_phrase;
use crate::text::{cat, dec, push_if, push_str, strs};

verus! {

/// The `install` configuration.
pub struct InstallConfig {
    pub directory: String,
    pub production: bool,
    pub ci: Option<bool>,
}

impl Default for InstallConfig {
    fn default() -> (r: Self)
        ensures
            r.directory@ == "."@,
            !r.production,
            r.ci is None,
    {
        InstallConfig { directory: String::from_str("."), production: false, ci: None }
    }
}

/// Whether `npm ci` runs: as configured, else when a lockfile is present.
pub open spec fn uses_ci(cfg: InstallConfig, has_lockfile: bool) -> bool {
    match cfg.ci {
        Some(c) => c,
        None => has_lockfile,
    }
}

/// The argv of the install.
pub fn install_args(cfg: &InstallConfig, has_lockfile: bool) -> (r: Vec<String>)
    ensures
        strs(r@) == seq![if uses_ci(*cfg, has_lockfile) { "ci"@ } else { "install"@ }] + if cfg.production {
            seq!["--omit=dev"@]
        } else {
            Seq::<Seq<char>>::empty()
        },
{
    let ci = match cfg.ci {
        Some(c) => c,
        None => has_lockfile,
    };
    let mut a: Vec<String> = Vec::new();
    push_str(&mut a, if ci { "ci" } else { "install" });
    push_if(&mut a, cfg.production, "--omit=dev");
    a
}

/// The failure of an install that exited non-zero.
pub fn install_failure(code: i32) -> (r: String)
    ensures
        r@ == "Failed to install dependencies: "@ + "Npm command failed with exit code "@ + dec(code as int),
{
    let p = exit_phrase(code);
    cat("Failed to install dependencies: ", p.as_str())
}

} // verus!
