//! `dotnet test` — run tests and turn the TRX counters into the step's result.

use vstd::prelude::*;
use crate::dotnet::trx::TrxCounters;
use crate::dotnet::{exit_phrase, project_slug, slug};
use crate::text::{blank, cat, copy, dec, filled, filled_opt, opt_str, strs};

verus! {

/// The `test` step's configuration.
pub struct TestConfig {
    pub project: String,
    pub configuration: String,
    pub filter: Option<String>,
    pub no_build: bool,
    pub collect_coverage: bool,
}

impl Default for TestConfig {
    fn default() -> (r: Self)
        ensures
            r.project@ == Seq::<char>::empty(),
            r.configuration@ == "Release"@,
            r.filter is None,
            !r.no_build,
            !r.collect_coverage,
    {
        TestConfig {
            project: String::new(),
            configuration: String::from_str("Release"),
            filter: None,
            no_build: false,
            collect_coverage: false,
        }
    }
}

/// The working-dir-relative results directory of a project's test run.
pub open spec fn results_rel_of(project: Seq<char>) -> Seq<char> {
    ".moonlit/dotnet-test/"@ + slug(project)
}

/// The results directory `.moonlit/dotnet-test/<slug>` for a project.
pub fn results_rel(project: &str) -> (r: String)
    ensures
        r@ == results_rel_of(project@),
{
    let s = project_slug(project);
    cat(".moonlit/dotnet-test/", s.as_str())
}

/// The argv of `dotnet test`.
pub open spec fn test_argv(cfg: TestConfig, results: Seq<char>) -> Seq<Seq<char>> {
    seq!["test"@, cfg.project@, "--configuration"@, cfg.configuration@] + (match filled(
        opt_str(cfg.filter),
    ) {
        Some(f) => seq!["--filter"@, f],
        None => Seq::empty(),
    }) + (if cfg.no_build {
        seq!["--no-build"@]
    } else {
        Seq::empty()
    }) + seq!["--logger"@, "trx;LogFileName=moonlit.trx"@, "--results-directory"@, results] + (
    if cfg.collect_coverage {
        seq!["--collect"@, "XPlat Code Coverage"@]
    } else {
        Seq::empty()
    })
}

/// The argv of `dotnet test` for `cfg`, logging TRX results into `results`.
pub fn test_args(cfg: &TestConfig, results: &str) -> (r: Vec<String>)
    ensures
        strs(r@) == test_argv(*cfg, results@),
{
    let mut args: Vec<String> = Vec::new();
    args.push(String::from_str("test"));
    args.push(copy(cfg.project.as_str()));
    args.push(String::from_str("--configuration"));
    args.push(copy(cfg.configuration.as_str()));
    match filled_opt(&cfg.filter) {
        Some(f) => {
            args.push(String::from_str("--filter"));
            args.push(f);
        },
        None => {},
    }
    if cfg.no_build {
        args.push(String::from_str("--no-build"));
    }
    args.push(String::from_str("--logger"));
    args.push(String::from_str("trx;LogFileName=moonlit.trx"));
    args.push(String::from_str("--results-directory"));
    args.push(copy(results));
    if cfg.collect_coverage {
        args.push(String::from_str("--collect"));
        args.push(String::from_str("XPlat Code Coverage"));
    }
    assert(strs(args@) =~= test_argv(*cfg, results@));
    args
}

/// The result of a test run, from the exit code and the TRX counters (`None`
/// when the results file is absent or unreadable): the counters to report on
/// success, else the failure message.
pub open spec fn outcome_of(exit_code: int, counters: Option<TrxCounters>) -> Result<TrxCounters, Seq<char>> {
    match counters {
        None => if exit_code == 0 {
            Err("Test results file was not produced."@)
        } else {
            Err("Failed to run tests: "@ + "Dotnet command failed with exit code "@ + dec(exit_code))
        },
        Some(c) => if exit_code != 0 && c.failed > 0 {
            Err(dec(c.failed as int) + " test(s) failed."@)
        } else if exit_code != 0 {
            Err("Failed to run tests: "@ + "Dotnet command failed with exit code "@ + dec(exit_code))
        } else {
            Ok(c)
        },
    }
}

/// The view of a test result.
pub open spec fn outcome_result(r: Result<TrxCounters, String>) -> Result<TrxCounters, Seq<char>> {
    match r {
        Ok(c) => Ok(c),
        Err(e) => Err(e@),
    }
}

/// Decides the step's result from the process exit code and the parsed TRX
/// counters: success with the counts only when the run exited 0 and left
/// results.
pub fn outcome(exit_code: i32, counters: Option<TrxCounters>) -> (r: Result<TrxCounters, String>)
    ensures
        outcome_result(r) == outcome_of(exit_code as int, counters),
{
    match counters {
        None => {
            if exit_code == 0 {
                Err(String::from_str("Test results file was not produced."))
            } else {
                let p = exit_phrase(exit_code);
                let m = cat("Failed to run tests: ", p.as_str());
                assert(m@ =~= "Failed to run tests: "@ + "Dotnet command failed with exit code "@ + dec(exit_code as int));
                Err(m)
            }
        },
        Some(c) => {
            if exit_code != 0 && c.failed > 0 {
                let n = crate::text::fmt_u64(c.failed as u64);
                Err(cat(n.as_str(), " test(s) failed."))
            } else if exit_code != 0 {
                let p = exit_phrase(exit_code);
                let m = cat("Failed to run tests: ", p.as_str());
                assert(m@ =~= "Failed to run tests: "@ + "Dotnet command failed with exit code "@ + dec(exit_code as int));
                Err(m)
            } else {
                Ok(c)
            }
        },
    }
}

} // verus!
