//! The `docker` plugin: log in, create a buildx builder, build and push an
//! image, and deploy with `docker compose`. Each step's command line and
//! failure messages are decided here; running `docker` is the caller's part.

use vstd::prelude::*;
use crate::strmap::{pair_flags, pairs, push_pair_flags, StrMap};
use crate::text::{
    blank, cat, cat3, copy, dec, filled, filled_opt, flag_each, fmt_i32, is_blank, join_strings,
    join_with, opt_str, push_flag_each, push_if, push_opt, push_opt_flag, push_str, strs,
};

verus! {

// ---------------------------------------------------------------------------
// Shared helpers
// ---------------------------------------------------------------------------

/// The frozen exit phrase for a non-zero `docker` exit.
pub open spec fn exit_phrase_of(code: int) -> Seq<char> {
    "Docker command failed with exit code "@ + dec(code)
}

/// The frozen exit phrase for a non-zero `docker` exit.
pub fn exit_phrase(code: i32) -> (r: String)
    ensures
        r@ == exit_phrase_of(code as int),
{
    let n = fmt_i32(code);
    cat("Docker command failed with exit code ", n.as_str())
}

/// A branded failure for a non-zero exit: `Failed to {action}: {exit phrase}`.
pub fn fail(action: &str, code: i32) -> (r: String)
    ensures
        r@ == "Failed to "@ + action@ + ": "@ + exit_phrase_of(code as int),
{
    let p = exit_phrase(code);
    let head = cat3("Failed to ", action, ": ");
    cat(head.as_str(), p.as_str())
}

// ---------------------------------------------------------------------------
// build-and-push
// ---------------------------------------------------------------------------

/// The `build-and-push` step's configuration; `labels` iterate in key order.
pub struct BuildAndPushConfig {
    pub builder: Option<String>,
    pub tags: Vec<String>,
    pub file: Option<String>,
    pub context: String,
    pub push: bool,
    pub build_args: Vec<String>,
    pub labels: StrMap,
    pub platforms: Vec<String>,
    pub no_cache: bool,
    pub pull: bool,
    pub cache_from: Vec<String>,
    pub cache_to: Vec<String>,
}

impl Default for BuildAndPushConfig {
    fn default() -> (r: Self)
        ensures
            r.builder is None,
            r.tags@.len() == 0,
            r.file is None,
            r.context@ == "."@,
            r.push,
            r.build_args@.len() == 0,
            r.labels.view().len() == 0,
            r.platforms@.len() == 0,
            !r.no_cache,
            !r.pull,
            r.cache_from@.len() == 0,
            r.cache_to@.len() == 0,
    {
        BuildAndPushConfig {
            builder: None,
            tags: Vec::new(),
            file: None,
            context: String::from_str("."),
            push: true,
            build_args: Vec::new(),
            labels: StrMap::new(),
            platforms: Vec::new(),
            no_cache: false,
            pull: false,
            cache_from: Vec::new(),
            cache_to: Vec::new(),
        }
    }
}

/// The first of the three that is present and not blank.
pub open spec fn first_filled(a: Option<Seq<char>>, b: Option<Seq<char>>, c: Option<Seq<char>>) -> Option<Seq<char>> {
    if filled(a) is Some {
        filled(a)
    } else if filled(b) is Some {
        filled(b)
    } else {
        filled(c)
    }
}

/// Builder resolution: explicit config, then the name recorded by
/// `setup-buildx`, then the `MOONLIT_DOCKER_BUILDX_BUILDER` variable. The first
/// non-blank wins.
pub fn resolve_builder(configured: &Option<String>, shared: &Option<String>, env: &Option<String>) -> (r: Option<String>)
    ensures
        opt_str(r) == first_filled(opt_str(*configured), opt_str(*shared), opt_str(*env)),
{
    match filled_opt(configured) {
        Some(b) => Some(b),
        None => match filled_opt(shared) {
            Some(b) => Some(b),
            None => filled_opt(env),
        },
    }
}


/// The argv of `docker build` (buildx), in the fixed order.
pub open spec fn build_and_push_argv(cfg: BuildAndPushConfig, builder: Option<Seq<char>>) -> Seq<Seq<char>> {
    seq!["build"@] + (match builder {
        Some(b) => seq!["--builder"@, b],
        None => Seq::empty(),
    }) + flag_each("--tag"@, strs(cfg.tags@)) + (match filled(opt_str(cfg.file)) {
        Some(f) => seq!["--file"@, f],
        None => Seq::empty(),
    }) + flag_each("--build-arg"@, strs(cfg.build_args@)) + pair_flags("--label"@, cfg.labels.view()) + (
    if cfg.platforms@.len() > 0 {
        seq!["--platform"@, join_with(strs(cfg.platforms@), ',')]
    } else {
        Seq::empty()
    }) + (if cfg.no_cache {
        seq!["--no-cache"@]
    } else {
        Seq::empty()
    }) + flag_each("--cache-from"@, strs(cfg.cache_from@)) + flag_each(
        "--cache-to"@,
        strs(cfg.cache_to@),
    ) + (if cfg.pull {
        seq!["--pull"@]
    } else {
        Seq::empty()
    }) + seq![if cfg.push { "--push"@ } else { "--load"@ }, cfg.context@]
}

/// The argv of `docker build` for `cfg` with the resolved `builder`: builder,
/// tags, file, build args, labels, platforms, cache flags, pull, then
/// `--push` or `--load` and the context.
#[verifier::rlimit(30)]
pub fn build_and_push_args(cfg: &BuildAndPushConfig, builder: &Option<String>) -> (r: Vec<String>)
    ensures
        strs(r@) == build_and_push_argv(*cfg, opt_str(*builder)),
{
    let mut args: Vec<String> = Vec::new();
    assert(strs(args@) =~= Seq::<Seq<char>>::empty());
    push_if(&mut args, true, "build");
    push_opt_flag(&mut args, "--builder", builder);
    push_flag_each(&mut args, "--tag", &cfg.tags);
    let file = filled_opt(&cfg.file);
    push_opt_flag(&mut args, "--file", &file);
    push_flag_each(&mut args, "--build-arg", &cfg.build_args);
    push_pair_flags(&mut args, "--label", &cfg.labels);
    let platforms = if cfg.platforms.len() > 0 {
        Some(join_strings(&cfg.platforms, ','))
    } else {
        None
    };
    push_opt_flag(&mut args, "--platform", &platforms);
    push_if(&mut args, cfg.no_cache, "--no-cache");
    push_flag_each(&mut args, "--cache-from", &cfg.cache_from);
    push_flag_each(&mut args, "--cache-to", &cfg.cache_to);
    push_if(&mut args, cfg.pull, "--pull");
    push_if(&mut args, cfg.push, "--push");
    push_if(&mut args, !cfg.push, "--load");
    push_if(&mut args, true, cfg.context.as_str());
    proof {
        let e = Seq::<Seq<char>>::empty();
        assert(Seq::<Seq<char>>::empty() + seq!["build"@] =~= seq!["build"@]);
        assert((if cfg.push { seq!["--push"@] } else { e }) + (if !cfg.push { seq!["--load"@] } else { e }) + seq![cfg.context@]
            =~= seq![if cfg.push { "--push"@ } else { "--load"@ }, cfg.context@]);
    }
    assert(strs(args@) =~= build_and_push_argv(*cfg, opt_str(*builder)));
    args
}

// ---------------------------------------------------------------------------
// deploy
// ---------------------------------------------------------------------------

/// The `deploy` step's configuration; `environment` iterates in key order.
pub struct DeployConfig {
    pub image: String,
    pub host: String,
    pub compose_file: Option<String>,
    pub service: Option<String>,
    pub environment: StrMap,
    pub pull: bool,
}

impl Default for DeployConfig {
    fn default() -> (r: Self)
        ensures
            r.image@ == Seq::<char>::empty(),
            r.host@ == Seq::<char>::empty(),
            r.compose_file is None,
            r.service is None,
            r.environment.view().len() == 0,
            r.pull,
    {
        DeployConfig {
            image: String::new(),
            host: String::new(),
            compose_file: None,
            service: None,
            environment: StrMap::new(),
            pull: true,
        }
    }
}

/// A `docker compose` invocation: its argv and the environment variables set
/// on it, in the order they are set (a later one wins).
pub struct ComposeCommand {
    pub args: Vec<String>,
    pub env: Vec<(String, String)>,
}

/// The failure for a swarm (service) deploy.
pub open spec fn swarm_unsupported() -> Seq<char> {
    "Swarm deploys are not supported yet."@
}

/// The failure when no host is configured.
pub open spec fn host_required() -> Seq<char> {
    "A host is required for a compose deployment."@
}

/// The failure when no compose file is configured.
pub open spec fn compose_file_required() -> Seq<char> {
    "A compose file is required for a compose deployment."@
}

/// The compose deploy for `cfg`: argv and environment, or the failure.
pub open spec fn deploy_of(cfg: DeployConfig) -> Result<(Seq<Seq<char>>, Seq<(Seq<char>, Seq<char>)>), Seq<char>> {
    if filled(opt_str(cfg.service)) is Some {
        Err(swarm_unsupported())
    } else if blank(cfg.host@) {
        Err(host_required())
    } else {
        match filled(opt_str(cfg.compose_file)) {
            None => Err(compose_file_required()),
            Some(f) => Ok((
                seq!["compose"@, "-f"@, f, "up"@, "-d"@] + if cfg.pull {
                    seq!["--pull"@, "always"@]
                } else {
                    Seq::empty()
                },
                cfg.environment.view().push(("DOCKER_HOST"@, cfg.host@)),
            )),
        }
    }
}

/// The view of a planned compose deploy.
pub open spec fn compose_view(r: Result<ComposeCommand, String>) -> Result<(Seq<Seq<char>>, Seq<(Seq<char>, Seq<char>)>), Seq<char>> {
    match r {
        Ok(c) => Ok((strs(c.args@), pairs(c.env@))),
        Err(e) => Err(e@),
    }
}

/// Plans `docker compose -f <file> up -d [--pull always]` over `DOCKER_HOST`:
/// a swarm `service` is refused first, then a blank host, then a missing
/// compose file. The configured host is set last, so it wins over an
/// environment entry of the same name.
pub fn deploy_plan(cfg: &DeployConfig) -> (r: Result<ComposeCommand, String>)
    ensures
        compose_view(r) == deploy_of(*cfg),
{
    if filled_opt(&cfg.service).is_some() {
        return Err(String::from_str("Swarm deploys are not supported yet."));
    }
    if is_blank(cfg.host.as_str()) {
        return Err(String::from_str("A host is required for a compose deployment."));
    }
    let file = match filled_opt(&cfg.compose_file) {
        Some(f) => f,
        None => return Err(String::from_str("A compose file is required for a compose deployment.")),
    };
    let mut args: Vec<String> = Vec::new();
    push_str(&mut args, "compose");
    push_str(&mut args, "-f");
    push_str(&mut args, file.as_str());
    push_str(&mut args, "up");
    push_str(&mut args, "-d");
    if cfg.pull {
        push_str(&mut args, "--pull");
        push_str(&mut args, "always");
    }
    let mut env: Vec<(String, String)> = Vec::new();
    let n = cfg.environment.len();
    let mut i: usize = 0;
    while i < n
        invariant
            i <= n == cfg.environment.view().len(),
            pairs(env@) == cfg.environment.view().subrange(0, i as int),
        decreases n - i,
    {
        let ghost before = env@;
        env.push((copy(cfg.environment.key(i).as_str()), copy(cfg.environment.value(i).as_str())));
        assert(pairs(env@) =~= pairs(before).push(cfg.environment.view()[i as int]));
        assert(pairs(env@) =~= cfg.environment.view().subrange(0, i + 1));
        i = i + 1;
    }
    let ghost before = env@;
    env.push((String::from_str("DOCKER_HOST"), copy(cfg.host.as_str())));
    assert(pairs(env@) =~= pairs(before).push(("DOCKER_HOST"@, cfg.host@)));
    assert(cfg.environment.view().subrange(0, n as int) == cfg.environment.view());
    let c = ComposeCommand { args, env };
    assert(compose_view(Ok(c)) =~= deploy_of(*cfg)) by {
        assert(strs(c.args@) =~= deploy_of(*cfg)->Ok_0.0);
    }
    Ok(c)
}

// ---------------------------------------------------------------------------
// login
// ---------------------------------------------------------------------------

/// The `login` step's input.
pub struct LoginInput {
    pub registry: Option<String>,
    pub username: String,
    pub password: String,
}

impl Default for LoginInput {
    fn default() -> (r: Self)
        ensures
            r.registry is None,
            r.username@ == Seq::<char>::empty(),
            r.password@ == Seq::<char>::empty(),
    {
        LoginInput { registry: None, username: String::new(), password: String::new() }
    }
}

/// The failure when a credential is missing.
pub open spec fn credentials_required() -> Seq<char> {
    "Docker login requires both username and password to be set."@
}

/// The argv of `docker login`: the password is not on it (it goes to stdin).
pub open spec fn login_argv(input: LoginInput) -> Result<Seq<Seq<char>>, Seq<char>> {
    if blank(input.username@) || blank(input.password@) {
        Err(credentials_required())
    } else {
        Ok(seq!["login"@] + (match filled(opt_str(input.registry)) {
            Some(r) => seq![r],
            None => Seq::empty(),
        }) + seq!["--username"@, input.username@, "--password-stdin"@])
    }
}

/// The argv of `docker login` for `input` (the password is fed on stdin);
/// fails before running anything when the username or password is blank. A
/// blank registry means Docker Hub and is omitted.
pub fn login_args(input: &LoginInput) -> (r: Result<Vec<String>, String>)
    ensures
        crate::dotnet::build_step::argv_or_failure(r) == login_argv(*input),
{
    if is_blank(input.username.as_str()) || is_blank(input.password.as_str()) {
        return Err(String::from_str("Docker login requires both username and password to be set."));
    }
    let mut args: Vec<String> = Vec::new();
    push_str(&mut args, "login");
    match filled_opt(&input.registry) {
        Some(reg) => push_str(&mut args, reg.as_str()),
        None => {},
    }
    push_str(&mut args, "--username");
    push_str(&mut args, input.username.as_str());
    push_str(&mut args, "--password-stdin");
    assert(strs(args@) =~= login_argv(*input)->Ok_0);
    Ok(args)
}

// ---------------------------------------------------------------------------
// setup-buildx
// ---------------------------------------------------------------------------

/// The `setup-buildx` step's configuration.
pub struct SetupBuildxConfig {
    pub name: Option<String>,
    pub driver: String,
    pub endpoint: Option<String>,
    pub bootstrap: bool,
    pub set_builder_variable: bool,
    pub platforms: Vec<String>,
}

impl Default for SetupBuildxConfig {
    fn default() -> (r: Self)
        ensures
            r.name is None,
            r.driver@ == "docker-container"@,
            r.endpoint is None,
            r.bootstrap,
            r.set_builder_variable,
            r.platforms@.len() == 0,
    {
        SetupBuildxConfig {
            name: None,
            driver: String::from_str("docker-container"),
            endpoint: None,
            bootstrap: true,
            set_builder_variable: true,
            platforms: Vec::new(),
        }
    }
}

/// The builder's name: the configured one when not blank, else
/// `moonlit-builder-<uuid>`.
pub fn builder_name(configured: &Option<String>, uuid: &str) -> (r: String)
    ensures
        r@ == match filled(opt_str(*configured)) {
            Some(n) => n,
            None => "moonlit-builder-"@ + uuid@,
        },
{
    match filled_opt(configured) {
        Some(n) => n,
        None => cat("moonlit-builder-", uuid),
    }
}

/// The builder name `setup-buildx` records for `build-and-push`: the new
/// builder's, when the step is asked to record it.
pub fn builder_to_record(cfg: &SetupBuildxConfig, name: &str) -> (r: Option<String>)
    ensures
        r is Some <==> cfg.set_builder_variable,
        r matches Some(n) ==> n@ == name@,
{
    if cfg.set_builder_variable {
        Some(copy(name))
    } else {
        None
    }
}

/// The argv of `docker buildx create`.
pub open spec fn setup_buildx_argv(cfg: SetupBuildxConfig, name: Seq<char>) -> Seq<Seq<char>> {
    seq!["buildx"@, "create"@, "--name"@, name, "--driver"@, cfg.driver@] + (if cfg.bootstrap {
        seq!["--bootstrap"@]
    } else {
        Seq::empty()
    }) + flag_each("--platform"@, strs(cfg.platforms@)) + match filled(opt_str(cfg.endpoint)) {
        Some(e) => seq![e],
        None => Seq::empty(),
    }
}

/// The argv of `docker buildx create` for `cfg` naming the builder `name`.
pub fn setup_buildx_args(cfg: &SetupBuildxConfig, name: &str) -> (r: Vec<String>)
    ensures
        strs(r@) == setup_buildx_argv(*cfg, name@),
{
    let mut args: Vec<String> = Vec::new();
    push_str(&mut args, "buildx");
    push_str(&mut args, "create");
    push_str(&mut args, "--name");
    push_str(&mut args, name);
    push_str(&mut args, "--driver");
    push_str(&mut args, cfg.driver.as_str());
    if cfg.bootstrap {
        push_str(&mut args, "--bootstrap");
    }
    push_flag_each(&mut args, "--platform", &cfg.platforms);
    match filled_opt(&cfg.endpoint) {
        Some(e) => push_str(&mut args, e.as_str()),
        None => {},
    }
    assert(strs(args@) =~= setup_buildx_argv(*cfg, name@));
    args
}

} // verus!
