use moonlit_plugins::docker::{
    build_and_push_args, builder_name, builder_to_record, deploy_plan, exit_phrase, fail, login_args, resolve_builder,
    setup_buildx_args, BuildAndPushConfig, DeployConfig, LoginInput, SetupBuildxConfig,
};
use moonlit_plugins::strmap::StrMap;

fn v(items: &[&str]) -> Vec<String> {
    items.iter().map(|s| s.to_string()).collect()
}

fn s(x: &str) -> Option<String> {
    Some(x.to_string())
}

fn map(pairs: &[(&str, &str)]) -> StrMap {
    let mut m = StrMap::new();
    for (k, val) in pairs {
        m.insert(k.to_string(), val.to_string());
    }
    m
}

#[test]
fn exit_phrase_is_frozen() {
    assert_eq!(exit_phrase(2), "Docker command failed with exit code 2");
}

#[test]
fn fail_wraps_action_and_exit_phrase() {
    assert_eq!(
        fail("build and push image", 1),
        "Failed to build and push image: Docker command failed with exit code 1"
    );
}

#[test]
fn full_argv_in_spec_order_push_default() {
    let cfg = BuildAndPushConfig {
        builder: s("b1"),
        tags: v(&["img:1", "img:latest"]),
        file: s("Dockerfile"),
        context: "app".into(),
        push: true,
        build_args: v(&["K=v"]),
        labels: map(&[("z", "1"), ("a", "2")]),
        platforms: v(&["linux/amd64", "linux/arm64"]),
        no_cache: true,
        pull: true,
        cache_from: v(&["type=registry,ref=r"]),
        cache_to: v(&["type=inline"]),
    };
    let builder = resolve_builder(&cfg.builder, &None, &None);
    assert_eq!(
        build_and_push_args(&cfg, &builder),
        v(&[
            "build",
            "--builder",
            "b1",
            "--tag",
            "img:1",
            "--tag",
            "img:latest",
            "--file",
            "Dockerfile",
            "--build-arg",
            "K=v",
            "--label",
            "a=2",
            "--label",
            "z=1",
            "--platform",
            "linux/amd64,linux/arm64",
            "--no-cache",
            "--cache-from",
            "type=registry,ref=r",
            "--cache-to",
            "type=inline",
            "--pull",
            "--push",
            "app",
        ])
    );
}

#[test]
fn push_false_uses_load_and_default_context_dot() {
    let cfg = BuildAndPushConfig {
        push: false,
        ..Default::default()
    };
    let builder = resolve_builder(&cfg.builder, &None, &None);
    assert_eq!(build_and_push_args(&cfg, &builder), v(&["build", "--load", "."]));
}

#[test]
fn builder_falls_back_to_shared_state() {
    let cfg = BuildAndPushConfig::default();
    let builder = resolve_builder(&cfg.builder, &s("from-state"), &None);
    let args = build_and_push_args(&cfg, &builder);
    let i = args.iter().position(|a| a == "--builder").unwrap();
    assert_eq!(args[i + 1], "from-state");
}

#[test]
fn builder_falls_back_to_env_when_no_config_or_state() {
    let cfg = BuildAndPushConfig::default();
    let builder = resolve_builder(&cfg.builder, &None, &s("from-env"));
    let args = build_and_push_args(&cfg, &builder);
    let i = args.iter().position(|a| a == "--builder").unwrap();
    assert_eq!(args[i + 1], "from-env");
}

#[test]
fn no_builder_anywhere_omits_flag() {
    let cfg = BuildAndPushConfig::default();
    let builder = resolve_builder(&cfg.builder, &None, &None);
    assert!(!build_and_push_args(&cfg, &builder).iter().any(|a| a == "--builder"));
}

#[test]
fn builder_blank_values_are_skipped_in_order() {
    assert_eq!(resolve_builder(&s("  "), &s("st"), &s("env")), s("st"));
    assert_eq!(resolve_builder(&s("cfg"), &s("st"), &s("env")), s("cfg"));
    assert_eq!(resolve_builder(&None, &s(""), &s("env")), s("env"));
    assert_eq!(resolve_builder(&None, &None, &s(" ")), None);
}

#[test]
fn non_zero_exit_maps_to_failure() {
    assert_eq!(
        fail("build and push image", 1),
        "Failed to build and push image: Docker command failed with exit code 1"
    );
}

#[test]
fn service_set_is_swarm_unsupported_before_spawn() {
    let cfg = DeployConfig {
        host: "ssh://h".into(),
        service: s("web"),
        ..Default::default()
    };
    assert_eq!(deploy_plan(&cfg).err().as_deref(), Some("Swarm deploys are not supported yet."));
}

#[test]
fn missing_compose_file_fails_before_spawn() {
    let cfg = DeployConfig {
        host: "ssh://h".into(),
        ..Default::default()
    };
    assert_eq!(
        deploy_plan(&cfg).err().as_deref(),
        Some("A compose file is required for a compose deployment.")
    );
}

#[test]
fn blank_host_fails_before_spawn() {
    let cfg = DeployConfig {
        compose_file: s("c.yml"),
        ..Default::default()
    };
    assert_eq!(
        deploy_plan(&cfg).err().as_deref(),
        Some("A host is required for a compose deployment.")
    );
}

#[test]
fn host_config_wins_over_environment_docker_host() {
    let cfg = DeployConfig {
        host: "ssh://good".into(),
        compose_file: s("c.yml"),
        environment: map(&[("DOCKER_HOST", "ssh://evil")]),
        ..Default::default()
    };
    let plan = deploy_plan(&cfg).ok().unwrap();
    let last = plan.env.iter().rev().find(|(k, _)| k == "DOCKER_HOST").map(|(_, v)| v.as_str());
    assert_eq!(last, Some("ssh://good"));
}

#[test]
fn compose_path_sets_docker_host_env_and_pull_always() {
    let cfg = DeployConfig {
        host: "ssh://user@h".into(),
        compose_file: s("docker-compose.yml"),
        environment: map(&[("TAG", "v1")]),
        pull: true,
        ..Default::default()
    };
    let plan = deploy_plan(&cfg).ok().unwrap();
    assert_eq!(
        plan.args,
        v(&["compose", "-f", "docker-compose.yml", "up", "-d", "--pull", "always"])
    );
    assert!(plan.env.contains(&("DOCKER_HOST".to_string(), "ssh://user@h".to_string())));
    assert!(plan.env.contains(&("TAG".to_string(), "v1".to_string())));
}

#[test]
fn pull_false_omits_pull_always() {
    let cfg = DeployConfig {
        host: "ssh://h".into(),
        compose_file: s("c.yml"),
        pull: false,
        ..Default::default()
    };
    assert!(!deploy_plan(&cfg).ok().unwrap().args.iter().any(|a| a == "--pull"));
}

#[test]
fn non_zero_exit_maps_to_deploy_failure() {
    assert_eq!(
        fail("deploy with docker compose", 1),
        "Failed to deploy with docker compose: Docker command failed with exit code 1"
    );
}

#[test]
fn blank_username_or_password_fails_before_spawn() {
    let cfg = LoginInput {
        username: "  ".into(),
        password: "pw".into(),
        ..Default::default()
    };
    assert_eq!(
        login_args(&cfg).err().as_deref(),
        Some("Docker login requires both username and password to be set.")
    );
    let cfg = LoginInput {
        username: "u".into(),
        password: "".into(),
        ..Default::default()
    };
    assert!(login_args(&cfg).is_err());
}

#[test]
fn with_registry_builds_positional_and_feeds_password_stdin() {
    let cfg = LoginInput {
        registry: s("registry.example.com"),
        username: "u".into(),
        password: "secret".into(),
    };
    let args = login_args(&cfg).ok().unwrap();
    assert_eq!(
        args,
        v(&["login", "registry.example.com", "--username", "u", "--password-stdin"])
    );
    assert!(!args.iter().any(|a| a == "secret"));
}

#[test]
fn blank_registry_is_omitted_docker_hub() {
    let cfg = LoginInput {
        registry: s("  "),
        username: "u".into(),
        password: "p".into(),
    };
    let args = login_args(&cfg).ok().unwrap();
    assert_eq!(args[0], "login");
    assert_eq!(args[1], "--username");
}

#[test]
fn non_zero_exit_maps_to_login_failure() {
    assert_eq!(
        fail("log in to Docker registry", 1),
        "Failed to log in to Docker registry: Docker command failed with exit code 1"
    );
}

#[test]
fn explicit_name_builds_full_argv_in_order() {
    let cfg = SetupBuildxConfig {
        name: s("mybuilder"),
        driver: "docker-container".into(),
        endpoint: s("ssh://host"),
        bootstrap: true,
        set_builder_variable: true,
        platforms: v(&["linux/amd64", "linux/arm64"]),
    };
    let name = builder_name(&cfg.name, "unused");
    assert_eq!(
        setup_buildx_args(&cfg, &name),
        v(&[
            "buildx",
            "create",
            "--name",
            "mybuilder",
            "--driver",
            "docker-container",
            "--bootstrap",
            "--platform",
            "linux/amd64",
            "--platform",
            "linux/arm64",
            "ssh://host",
        ])
    );
}

#[test]
fn bootstrap_false_omits_flag() {
    let cfg = SetupBuildxConfig {
        name: s("b"),
        bootstrap: false,
        ..Default::default()
    };
    let name = builder_name(&cfg.name, "x");
    assert!(!setup_buildx_args(&cfg, &name).iter().any(|a| a == "--bootstrap"));
}

#[test]
fn default_name_uses_uuid_and_sets_state_and_output() {
    let cfg = SetupBuildxConfig::default();
    let name = builder_name(&cfg.name, "abababab-abab-4bab-abab-abababababab");
    assert_eq!(name, "moonlit-builder-abababab-abab-4bab-abab-abababababab");
    let args = setup_buildx_args(&cfg, &name);
    let i = args.iter().position(|a| a == "--name").unwrap();
    assert_eq!(args[i + 1], name);
    assert_eq!(args[i + 2], "--driver");
    assert_eq!(args[i + 3], "docker-container");
}

#[test]
fn blank_configured_name_falls_back_to_generated() {
    assert_eq!(builder_name(&s("   "), "u1"), "moonlit-builder-u1");
}

#[test]
fn non_zero_exit_fails_without_state_or_output() {
    assert_eq!(
        fail("create buildx builder", 1),
        "Failed to create buildx builder: Docker command failed with exit code 1"
    );
}

#[test]
fn set_builder_variable_false_leaves_state_none() {
    let cfg = SetupBuildxConfig {
        name: s("b"),
        set_builder_variable: false,
        ..Default::default()
    };
    assert_eq!(builder_to_record(&cfg, "b"), None);
    let cfg = SetupBuildxConfig {
        name: s("b"),
        ..Default::default()
    };
    assert_eq!(builder_to_record(&cfg, "b"), s("b"));
}
