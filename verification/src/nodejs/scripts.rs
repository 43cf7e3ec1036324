//! `build`, `run-script` and `test`: `npm run <script>` with what each makes
//! of a non-zero exit. `run-script` tells a script that does not exist from
//! one that failed.

use vstd::prelude::*;
use crate::nodejs::exit_phrase;
use crate::text::{cat, cat3, combined_lower, combined_output, contains, dec, has, push_str, strs};

verus! {

/// The `build` input.
pub struct BuildInput {
    pub directory: String,
    pub command: String,
    pub version: Option<String>,
}

impl Default for BuildInput {
    fn default() -> (r: Self)
        ensures
            r.directory@ == "."@,
            r.command@ == "build"@,
            r.version is None,
    {
        BuildInput { directory: String::from_str("."), command: String::from_str("build"), version: None }
    }
}

/// The argv of the build: `run <command>`.
pub fn build_args(cfg: &BuildInput) -> (r: Vec<String>)
    ensures
        strs(r@) == seq!["run"@, cfg.command@],
{
    let mut a: Vec<String> = Vec::new();
    push_str(&mut a, "run");
    push_str(&mut a, cfg.command.as_str());
    a
}

/// The failure of a build that exited non-zero.
pub fn build_failure(code: i32) -> (r: String)
    ensures
        r@ == "Failed to build project: "@ + "Npm command failed with exit code "@ + dec(code as int),
{
    let p = exit_phrase(code);
    cat("Failed to build project: ", p.as_str())
}

/// The `run-script` input.
pub struct RunScriptInput {
    pub directory: String,
    pub script: String,
    pub args: Vec<String>,
}

impl Default for RunScriptInput {
    fn default() -> (r: Self)
        ensures
            r.directory@ == "."@,
            r.script@ == Seq::<char>::empty(),
            r.args@ == Seq::<String>::empty(),
    {
        RunScriptInput { directory: String::from_str("."), script: String::new(), args: Vec::new() }
    }
}

/// The argv of `run-script`: `run <script>`, then `--` and the forwarded
/// arguments when there are any.
pub fn run_script_args(cfg: &RunScriptInput) -> (r: Vec<String>)
    ensures
        strs(r@) == seq!["run"@, cfg.script@] + if cfg.args@.len() > 0 {
            seq!["--"@] + strs(cfg.args@)
        } else {
            Seq::<Seq<char>>::empty()
        },
{
    let mut a: Vec<String> = Vec::new();
    push_str(&mut a, "run");
    push_str(&mut a, cfg.script.as_str());
    if cfg.args.len() > 0 {
        push_str(&mut a, "--");
        let ghost head = strs(a@);
        let mut i: usize = 0;
        while i < cfg.args.len()
            invariant
                i <= cfg.args.len(),
                strs(a@) == head + strs(cfg.args@.subrange(0, i as int)),
            decreases cfg.args.len() - i,
        {
            push_str(&mut a, cfg.args[i].as_str());
            assert(strs(cfg.args@.subrange(0, i + 1)) =~= strs(cfg.args@.subrange(0, i as int)).push(cfg.args@[i as int]@));
            i = i + 1;
        }
        assert(cfg.args@.subrange(0, cfg.args@.len() as int) == cfg.args@);
    }
    a
}

/// The failure of `run-script` that exited non-zero: a missing script when
/// npm says so (in either stream, any case), else the exit phrase.
pub open spec fn script_failure_of(script: Seq<char>, stdout: Seq<char>, stderr: Seq<char>, code: int) -> Seq<char> {
    if contains(combined_lower(stdout, stderr), "missing script:"@) {
        "Script '"@ + script + "' not found in package.json."@
    } else {
        "Failed to run script: "@ + "Npm command failed with exit code "@ + dec(code)
    }
}

/// The failure of `run-script` that exited non-zero.
pub fn script_failure(script: &str, stdout: &str, stderr: &str, code: i32) -> (r: String)
    ensures
        r@ == script_failure_of(script@, stdout@, stderr@, code as int),
{
    let out = combined_output(stdout, stderr);
    if has(&out, "missing script:") {
        cat3("Script '", script, "' not found in package.json.")
    } else {
        let p = exit_phrase(code);
        cat("Failed to run script: ", p.as_str())
    }
}

/// The `test` configuration.
pub struct TestConfig {
    pub directory: String,
    pub script: String,
}

impl Default for TestConfig {
    fn default() -> (r: Self)
        ensures
            r.directory@ == "."@,
            r.script@ == "test"@,
    {
        TestConfig { directory: String::from_str("."), script: String::from_str("test") }
    }
}

/// The argv of the tests: `run <script>`.
pub fn test_args(cfg: &TestConfig) -> (r: Vec<String>)
    ensures
        strs(r@) == seq!["run"@, cfg.script@],
{
    let mut a: Vec<String> = Vec::new();
    push_str(&mut a, "run");
    push_str(&mut a, cfg.script.as_str());
    a
}

/// The failure when the tests exit non-zero.
pub fn tests_failed() -> (r: String)
    ensures
        r@ == "Tests failed."@,
{
    String::from_str("Tests failed.")
}

} // verus!
