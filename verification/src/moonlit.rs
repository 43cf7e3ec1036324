//! The `moonlit` plugin: `run-modules` runs nested release files one after
//! another with `moonlit run`, stopping at the first failure unless asked to
//! go on, and reports each module's outcome and the number that failed.
//!
//! The run is a loop of spawn and decide; the deciding half is here:
//! [`begin`] checks the configuration, [`next_step`] says what to spawn next,
//! and [`record`] takes a module's outcome to the next state or to the
//! failure that ends the run.

use vstd::prelude::*;
use crate::strmap::{pair_flags, push_pair_flags, StrMap};
use crate::text::{
    cat, cat3, chars_of, copy, dec, ends_with, ends_with_chars, flag_each, fmt_i32, lower, lower_chars,
    opt_str, push_flag_each, push_str, rfind_char, string_of, strs,
};

verus! {

/// The `run-modules` configuration.
pub struct RunModulesConfig {
    pub module_paths: Vec<String>,
    pub stages: Vec<String>,
    pub continue_on_module_error: bool,
    pub arguments: StrMap,
}

impl Default for RunModulesConfig {
    fn default() -> (r: Self)
        ensures
            r.module_paths@ == Seq::<String>::empty(),
            r.stages@ == Seq::<String>::empty(),
            !r.continue_on_module_error,
            r.arguments.view().len() == 0,
    {
        RunModulesConfig {
            module_paths: Vec::new(),
            stages: Vec::new(),
            continue_on_module_error: false,
            arguments: StrMap::new(),
        }
    }
}

/// The path names a release file: it ends in `.yml` or `.yaml`, in any case.
pub open spec fn release_file(path: Seq<char>) -> bool {
    ends_with(lower(path), ".yml"@) || ends_with(lower(path), ".yaml"@)
}

/// `i` is the last occurrence of `c` in `s`.
pub open spec fn last_at(s: Seq<char>, c: char, i: int) -> bool {
    0 <= i < s.len() && s[i] == c && forall|j: int| i < j < s.len() ==> s[j] != c
}

/// `str::rfind` for a character.
pub open spec fn rindex_of(s: Seq<char>, c: char) -> Option<int> {
    if exists|i: int| last_at(s, c, i) {
        Some(choose|i: int| last_at(s, c, i))
    } else {
        None
    }
}

/// Where a module runs: a release file runs in its parent directory (`.`
/// when it has none) and is named by its base name; anything else is the
/// directory itself.
pub open spec fn module_location(path: Seq<char>) -> (Seq<char>, Option<Seq<char>>) {
    if release_file(path) {
        match rindex_of(path, '/') {
            Some(i) => (path.subrange(0, i), Some(path.subrange(i + 1, path.len() as int))),
            None => ("."@, Some(path)),
        }
    } else {
        (path, None)
    }
}

/// Splits a module path into the directory to run in and, for a release
/// file, its base name.
pub fn split_path(path: &str) -> (r: (String, Option<String>))
    ensures
        (r.0@, opt_str(r.1)) == module_location(path@),
{
    let v = chars_of(path);
    let lv = lower_chars(&v);
    let yml = chars_of(".yml");
    let yaml = chars_of(".yaml");
    if ends_with_chars(&lv, &yml) || ends_with_chars(&lv, &yaml) {
        match rfind_char(&v, '/') {
            Some(i) => {
                proof {
                    assert(last_at(path@, '/', i as int));
                    let k = choose|k: int| last_at(path@, '/', k);
                    assert(k == i as int) by {
                        if k < i {
                            assert(path@[i as int] == '/');
                        } else if k > i {
                            assert(path@[k] == '/');
                        }
                    }
                }
                (string_of(&v, 0, i), Some(string_of(&v, i + 1, v.len())))
            },
            None => (String::from_str("."), Some(copy(path))),
        }
    } else {
        (copy(path), None)
    }
}

/// The argv of `moonlit run` for the module at `path`.
pub open spec fn module_argv(cfg: RunModulesConfig, path: Seq<char>) -> Seq<Seq<char>> {
    let (dir, file) = module_location(path);
    seq!["run"@, "-w"@, dir] + (match file {
        Some(f) => seq!["-f"@, f],
        None => Seq::empty(),
    }) + seq!["--output"@, "plain"@] + flag_each("-s"@, strs(cfg.stages@)) + pair_flags("-a"@, cfg.arguments.view())
}

/// The argv of `moonlit run` for the module at `path`: where it runs, its
/// file if any, plain output, each stage, and each argument as `key=value`.
pub fn module_args(cfg: &RunModulesConfig, path: &str) -> (r: Vec<String>)
    ensures
        strs(r@) == module_argv(*cfg, path@),
{
    let (dir, file) = split_path(path);
    let mut a: Vec<String> = Vec::new();
    push_str(&mut a, "run");
    push_str(&mut a, "-w");
    push_str(&mut a, dir.as_str());
    let ghost head = strs(a@);
    match &file {
        Some(f) => {
            push_str(&mut a, "-f");
            push_str(&mut a, f.as_str());
        },
        None => {},
    }
    let ghost with_file = strs(a@);
    push_str(&mut a, "--output");
    push_str(&mut a, "plain");
    let ghost with_output = strs(a@);
    push_flag_each(&mut a, "-s", &cfg.stages);
    let ghost with_stages = strs(a@);
    push_pair_flags(&mut a, "-a", &cfg.arguments);
    proof {
        let loc = module_location(path@);
        let fpart = match loc.1 {
            Some(f) => seq!["-f"@, f],
            None => Seq::<Seq<char>>::empty(),
        };
        assert(head =~= seq!["run"@, "-w"@, loc.0]);
        assert(with_file =~= head + fpart);
        assert(with_output =~= head + fpart + seq!["--output"@, "plain"@]);
    }
    a
}

/// A module's outcome.
pub struct ModuleResult {
    pub module: String,
    pub successful: bool,
    pub duration_ms: u64,
}

/// How many of the outcomes are failures.
pub open spec fn failures(results: Seq<ModuleResult>) -> nat
    decreases results.len(),
{
    if results.len() == 0 {
        0
    } else {
        failures(results.drop_last()) + if results.last().successful {
            0nat
        } else {
            1nat
        }
    }
}

/// How far a run has got: the next module, the outcomes so far, and how many
/// of them failed.
pub struct RunProgress {
    pub next: usize,
    pub results: Vec<ModuleResult>,
    pub failed_count: u32,
}

/// A state a run can be in: one outcome per module run so far, the failure
/// count matching them, and no failure at all unless the run goes on after
/// one.
pub open spec fn progress_ok(cfg: RunModulesConfig, p: RunProgress) -> bool {
    &&& p.next <= cfg.module_paths@.len()
    &&& p.results@.len() == p.next
    &&& p.failed_count == failures(p.results@)
    &&& !cfg.continue_on_module_error ==> p.failed_count == 0
}

/// A run's progress as plain values: the next module, each outcome so far
/// as (module, successful, duration in ms), and the failure count.
pub open spec fn progress_view(p: RunProgress) -> (nat, Seq<(Seq<char>, bool, u64)>, nat) {
    (
        p.next as nat,
        p.results@.map_values(|m: ModuleResult| (m.module@, m.successful, m.duration_ms)),
        p.failed_count as nat,
    )
}

/// Recording one outcome in progress `v`: a failure ends the run unless it
/// goes on after one; otherwise the outcome is appended and counted.
pub open spec fn recorded(
    cfg: RunModulesConfig,
    v: (nat, Seq<(Seq<char>, bool, u64)>, nat),
    successful: bool,
    exit_code: i32,
    duration_ms: u64,
) -> Result<(nat, Seq<(Seq<char>, bool, u64)>, nat), Seq<char>> {
    if !successful && !cfg.continue_on_module_error {
        Err(module_failure(cfg.module_paths@[v.0 as int]@, exit_code))
    } else {
        Ok((
            v.0 + 1,
            v.1.push((cfg.module_paths@[v.0 as int]@, successful, duration_ms)),
            v.2 + if successful { 0nat } else { 1nat },
        ))
    }
}

/// Where a run stands after its modules, in order, ended with `outcomes`
/// (each as successful, exit code, duration in ms): the progress, or the
/// failure that stopped it.
pub open spec fn run_after(cfg: RunModulesConfig, outcomes: Seq<(bool, i32, u64)>) -> Result<
    (nat, Seq<(Seq<char>, bool, u64)>, nat),
    Seq<char>,
>
    decreases outcomes.len(),
{
    if outcomes.len() == 0 {
        Ok((0nat, Seq::empty(), 0nat))
    } else {
        match run_after(cfg, outcomes.drop_last()) {
            Ok(v) => recorded(cfg, v, outcomes.last().0, outcomes.last().1, outcomes.last().2),
            Err(m) => Err(m),
        }
    }
}

/// How many of the outcomes are failures.
pub open spec fn failed_outcomes(outcomes: Seq<(bool, i32, u64)>) -> nat
    decreases outcomes.len(),
{
    if outcomes.len() == 0 {
        0
    } else {
        failed_outcomes(outcomes.drop_last()) + if outcomes.last().0 {
            0nat
        } else {
            1nat
        }
    }
}

/// A run that goes on after failures runs every module: after the first `k`
/// modules it stands at module `k` (the one `next_step` runs next), with one
/// outcome per module in order, naming that module, and a failure count
/// equal to the number of failed modules.
pub proof fn lemma_run_goes_on(cfg: RunModulesConfig, outcomes: Seq<(bool, i32, u64)>)
    requires
        cfg.continue_on_module_error,
        outcomes.len() <= cfg.module_paths@.len(),
    ensures
        run_after(cfg, outcomes) matches Ok(v) && {
            &&& v.0 == outcomes.len()
            &&& v.1.len() == outcomes.len()
            &&& forall|i: int| 0 <= i < outcomes.len() ==> #[trigger] v.1[i] == (
                cfg.module_paths@[i]@,
                outcomes[i].0,
                outcomes[i].2,
            )
            &&& v.2 == failed_outcomes(outcomes)
        },
    decreases outcomes.len(),
{
    if outcomes.len() > 0 {
        lemma_run_goes_on(cfg, outcomes.drop_last());
    }
}

/// A run that stops at the first failure: while every module succeeds it
/// goes on with one outcome per module and no failure; the first failed
/// module ends it with that module's failure.
pub proof fn lemma_run_stops_at_first_failure(cfg: RunModulesConfig, outcomes: Seq<(bool, i32, u64)>)
    requires
        !cfg.continue_on_module_error,
        outcomes.len() <= cfg.module_paths@.len(),
    ensures
        (forall|i: int| 0 <= i < outcomes.len() ==> #[trigger] outcomes[i].0) ==> (run_after(cfg, outcomes) matches Ok(
            v,
        ) && {
            &&& v.0 == outcomes.len()
            &&& v.1.len() == outcomes.len()
            &&& forall|i: int| 0 <= i < outcomes.len() ==> #[trigger] v.1[i] == (
                cfg.module_paths@[i]@,
                true,
                outcomes[i].2,
            )
            &&& v.2 == 0
        }),
        forall|k: int|
            0 <= k < outcomes.len() && !(#[trigger] outcomes[k]).0 && (forall|j: int| 0 <= j < k ==> outcomes[j].0)
                ==> run_after(cfg, outcomes) == Err::<(nat, Seq<(Seq<char>, bool, u64)>, nat), Seq<char>>(
                module_failure(cfg.module_paths@[k]@, outcomes[k].1),
            ),
    decreases outcomes.len(),
{
    if outcomes.len() > 0 {
        let rest = outcomes.drop_last();
        lemma_run_stops_at_first_failure(cfg, rest);
        assert forall|k: int|
            0 <= k < outcomes.len() && !(#[trigger] outcomes[k]).0 && (forall|j: int| 0 <= j < k ==> outcomes[j].0)
                implies run_after(cfg, outcomes) == Err::<(nat, Seq<(Seq<char>, bool, u64)>, nat), Seq<char>>(
            module_failure(cfg.module_paths@[k]@, outcomes[k].1),
        ) by {
            if k < outcomes.len() - 1 {
                assert(rest[k] == outcomes[k]);
                assert(forall|j: int| 0 <= j < k ==> rest[j] == outcomes[j]);
                assert(!rest[k].0);
            } else {
                assert forall|i: int| 0 <= i < rest.len() implies #[trigger] rest[i].0 by {
                    assert(rest[i] == outcomes[i]);
                }
            }
        }
        if forall|i: int| 0 <= i < outcomes.len() ==> #[trigger] outcomes[i].0 {
            assert forall|i: int| 0 <= i < rest.len() implies #[trigger] rest[i].0 by {
                assert(rest[i] == outcomes[i]);
            }
            assert(outcomes.last().0);
        }
    }
}

/// Starts a run; refuses a configuration with no modules.
pub fn begin(cfg: &RunModulesConfig) -> (r: Result<RunProgress, String>)
    ensures
        r is Err <==> cfg.module_paths@.len() == 0,
        r matches Err(m) ==> m@ == "No module paths provided for run-modules."@,
        r matches Ok(p) ==> progress_ok(*cfg, p) && p.next == 0 && progress_view(p) == run_after(
            *cfg,
            Seq::empty(),
        )->Ok_0,
{
    if cfg.module_paths.len() == 0 {
        Err(String::from_str("No module paths provided for run-modules."))
    } else {
        let p = RunProgress { next: 0, results: Vec::new(), failed_count: 0 };
        assert(p.results@.len() == 0);
        assert(progress_view(p).1 =~= Seq::<(Seq<char>, bool, u64)>::empty());
        Ok(p)
    }
}

/// What to do next: run a module, or finish.
pub enum NextStep {
    /// Spawn `moonlit` with this argv.
    Run(Vec<String>),
    /// Every module has run; report the outcomes.
    Finish,
}

/// The next step of a run.
pub fn next_step(cfg: &RunModulesConfig, p: &RunProgress) -> (r: NextStep)
    requires
        progress_ok(*cfg, *p),
    ensures
        p.next < cfg.module_paths@.len() ==> (r matches NextStep::Run(argv) && strs(argv@) == module_argv(*cfg, cfg.module_paths@[p.next as int]@)),
        p.next == cfg.module_paths@.len() ==> r is Finish,
{
    if p.next < cfg.module_paths.len() {
        NextStep::Run(module_args(cfg, cfg.module_paths[p.next].as_str()))
    } else {
        NextStep::Finish
    }
}

/// The failure that stops a run at a module.
pub open spec fn module_failure(path: Seq<char>, exit_code: i32) -> Seq<char> {
    "Module '"@ + path + "' failed with exit code "@ + dec(exit_code as int) + "."@
}

/// Records the outcome of the module just run. A failure ends the run unless
/// the configuration goes on after one; otherwise the outcome is appended and
/// counted.
pub fn record(cfg: &RunModulesConfig, p: RunProgress, successful: bool, exit_code: i32, duration_ms: u64) -> (r: Result<RunProgress, String>)
    requires
        progress_ok(*cfg, p),
        p.next < cfg.module_paths@.len(),
        cfg.module_paths@.len() <= u32::MAX,
    ensures
        r is Err <==> !successful && !cfg.continue_on_module_error,
        r matches Err(m) ==> m@ == module_failure(cfg.module_paths@[p.next as int]@, exit_code),
        match recorded(*cfg, progress_view(p), successful, exit_code, duration_ms) {
            Ok(v) => r matches Ok(q) && progress_view(q) == v,
            Err(m) => r matches Err(e) && e@ == m,
        },
        r matches Ok(q) ==> {
            &&& progress_ok(*cfg, q)
            &&& q.next == p.next + 1
            &&& q.results@.len() == p.results@.len() + 1
            &&& forall|i: int| 0 <= i < p.results@.len() ==> q.results@[i] == p.results@[i]
            &&& q.results@.last().module@ == cfg.module_paths@[p.next as int]@
            &&& q.results@.last().successful == successful
            &&& q.results@.last().duration_ms == duration_ms
            &&& q.failed_count == p.failed_count + if successful { 0int } else { 1int }
        },
{
    let path = cfg.module_paths[p.next].as_str();
    if !successful && !cfg.continue_on_module_error {
        let code = fmt_i32(exit_code);
        let a = cat3("Module '", path, "' failed with exit code ");
        return Err(cat3(a.as_str(), code.as_str(), "."));
    }
    let RunProgress { next, mut results, failed_count } = p;
    let ghost before = results@;
    proof {
        lemma_failures_bound(before);
    }
    results.push(ModuleResult { module: copy(path), successful, duration_ms });
    assert(results@.drop_last() == before);
    assert(results@.map_values(|m: ModuleResult| (m.module@, m.successful, m.duration_ms)) =~= before.map_values(
        |m: ModuleResult| (m.module@, m.successful, m.duration_ms),
    ).push((cfg.module_paths@[p.next as int]@, successful, duration_ms)));
    let failed = if successful {
        failed_count
    } else {
        failed_count + 1
    };
    Ok(RunProgress { next: next + 1, results, failed_count: failed })
}

/// No more failures than outcomes.
proof fn lemma_failures_bound(results: Seq<ModuleResult>)
    ensures
        failures(results) <= results.len(),
    decreases results.len(),
{
    if results.len() > 0 {
        lemma_failures_bound(results.drop_last());
    }
}

} // verus!
