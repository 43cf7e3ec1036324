use moonlit_plugins::nodejs::install::{install_args, install_failure, InstallConfig};
use moonlit_plugins::nodejs::pack::{
    dest_wd_rel, npm_destination, pack_args, pack_failure, package_path, parse_pack_filename, first_entry_filename, wipes_destination,
    PackConfig,
};
use moonlit_plugins::nodejs::push::{
    credentials, npmrc_contents, npmrc_dir, npmrc_line, publish_args, publish_failure, tarball_missing, PushConfig,
};
use moonlit_plugins::nodejs::scripts::{
    build_args, build_failure, run_script_args, script_failure, test_args, tests_failed, BuildInput,
    RunScriptInput, TestConfig,
};
use moonlit_plugins::nodejs::{
    exit_phrase, lockfile_paths, npm_cwd, package_json_missing, package_json_path, version_args, version_failure,
    NodeConfig,
};

fn argv(items: &[&str]) -> Vec<String> {
    items.iter().map(|s| s.to_string()).collect()
}

fn plugin_with_token(token: &str) -> NodeConfig {
    NodeConfig {
        token: token.into(),
        ..Default::default()
    }
}

#[test]
fn defaults_are_npmjs_and_blank_token() {
    let c = NodeConfig::default();
    assert_eq!(c.registry, "https://registry.npmjs.org");
    assert_eq!(c.token, "");
}

#[test]
fn npm_builder_sets_program_and_cwd() {
    assert!(npm_cwd("/wd", ".").starts_with("/wd"));
}

#[test]
fn npm_cwd_prepends_working_dir_for_subdirectory() {
    assert_eq!(npm_cwd("/wd", "packages/app"), "/wd/packages/app");
}

#[test]
fn npm_exit_phrase_formats_code() {
    assert_eq!(exit_phrase(7), "Npm command failed with exit code 7");
}

#[test]
fn package_json_paths_name_the_resolved_directory() {
    assert_eq!(package_json_path("/wd", "packages/app", false), "/wd/packages/app/package.json");
    assert_eq!(
        package_json_missing("/wd", "packages/app", false),
        "package.json not found in directory: /wd/packages/app"
    );
    let (lock, shrink) = lockfile_paths("/wd", "a", false);
    assert_eq!(lock, "/wd/a/package-lock.json");
    assert_eq!(shrink, "/wd/a/npm-shrinkwrap.json");
}

#[test]
fn package_json_paths_stay_relative_under_a_preopen() {
    assert_eq!(package_json_path("/wd", "packages/app", true), "packages/app/package.json");
    assert_eq!(
        package_json_missing("/wd", "packages/app", true),
        "package.json not found in directory: packages/app"
    );
    let (lock, shrink) = lockfile_paths("/wd", "a", true);
    assert_eq!(lock, "a/package-lock.json");
    assert_eq!(shrink, "a/npm-shrinkwrap.json");
}

#[test]
fn maybe_set_version_noop_when_blank() {
    assert!(version_args(&None).is_none());
    assert!(version_args(&Some("  ".to_string())).is_none());
}

#[test]
fn maybe_set_version_runs_expected_argv() {
    assert_eq!(
        version_args(&Some("1.2.3".to_string())).unwrap(),
        argv(&["version", "1.2.3", "--no-git-tag-version", "--allow-same-version"])
    );
}

#[test]
fn maybe_set_version_failure_maps_message() {
    assert_eq!(version_failure(1), "Failed to set version: Npm command failed with exit code 1");
}

#[test]
fn lockfile_present_selects_ci() {
    assert_eq!(install_args(&InstallConfig::default(), true), argv(&["ci"]));
}

#[test]
fn no_lockfile_selects_install() {
    assert_eq!(install_args(&InstallConfig::default(), false), argv(&["install"]));
}

#[test]
fn explicit_ci_false_overrides_lockfile() {
    let cfg = InstallConfig {
        ci: Some(false),
        ..Default::default()
    };
    assert_eq!(install_args(&cfg, true), argv(&["install"]));
    let cfg = InstallConfig {
        ci: Some(true),
        ..Default::default()
    };
    assert_eq!(install_args(&cfg, false), argv(&["ci"]));
}

#[test]
fn production_appends_omit_dev() {
    let cfg = InstallConfig {
        production: true,
        ..Default::default()
    };
    assert_eq!(install_args(&cfg, false), argv(&["install", "--omit=dev"]));
}

#[test]
fn install_missing_package_json_fails_before_spawn() {
    assert!(package_json_missing("/wd", ".", false).starts_with("package.json not found in directory:"));
}

#[test]
fn non_zero_exit_maps_to_install_failure() {
    assert_eq!(install_failure(1), "Failed to install dependencies: Npm command failed with exit code 1");
}

#[test]
fn runs_command_without_version_step() {
    let cfg = BuildInput {
        command: "compile".into(),
        ..Default::default()
    };
    assert!(version_args(&cfg.version).is_none());
    assert_eq!(build_args(&cfg), argv(&["run", "compile"]));
}

#[test]
fn version_step_precedes_run() {
    let cfg = BuildInput {
        version: Some("2.0.0".into()),
        ..Default::default()
    };
    assert_eq!(
        version_args(&cfg.version).unwrap(),
        argv(&["version", "2.0.0", "--no-git-tag-version", "--allow-same-version"])
    );
    assert_eq!(build_args(&cfg), argv(&["run", "build"]));
}

#[test]
fn version_step_failure_short_circuits() {
    assert_eq!(version_failure(1), "Failed to set version: Npm command failed with exit code 1");
}

#[test]
fn non_zero_run_maps_to_build_failure() {
    assert_eq!(build_failure(3), "Failed to build project: Npm command failed with exit code 3");
}

#[test]
fn build_missing_package_json_fails_before_spawn() {
    assert!(package_json_missing("/wd", ".", false).starts_with("package.json not found in directory:"));
}

#[test]
fn builds_run_argv_with_forwarded_args() {
    let cfg = RunScriptInput {
        script: "lint".into(),
        args: argv(&["--fix", "src"]),
        ..Default::default()
    };
    assert_eq!(run_script_args(&cfg), argv(&["run", "lint", "--", "--fix", "src"]));
}

#[test]
fn no_args_omits_double_dash() {
    let cfg = RunScriptInput {
        script: "build".into(),
        ..Default::default()
    };
    assert_eq!(run_script_args(&cfg), argv(&["run", "build"]));
}

#[test]
fn missing_script_maps_to_frozen_message() {
    assert_eq!(
        script_failure("deploy", "", "npm error Missing script: \"deploy\"", 1),
        "Script 'deploy' not found in package.json."
    );
    assert_eq!(
        script_failure("deploy", "MISSING SCRIPT: deploy", "", 1),
        "Script 'deploy' not found in package.json."
    );
}

#[test]
fn run_script_other_non_zero_maps_to_generic() {
    assert_eq!(
        script_failure("build", "", "build failed: TS2304", 2),
        "Failed to run script: Npm command failed with exit code 2"
    );
}

#[test]
fn run_script_missing_package_json_fails_before_spawn() {
    assert!(package_json_missing("/wd", "x", false).starts_with("package.json not found in directory:"));
}

#[test]
fn default_runs_npm_run_test() {
    assert_eq!(test_args(&TestConfig::default()), argv(&["run", "test"]));
}

#[test]
fn custom_script_runs() {
    let cfg = TestConfig {
        script: "test:ci".into(),
        ..Default::default()
    };
    assert_eq!(test_args(&cfg), argv(&["run", "test:ci"]));
}

#[test]
fn non_zero_maps_to_tests_failed() {
    assert_eq!(tests_failed(), "Tests failed.");
}

#[test]
fn test_missing_package_json_fails_before_spawn() {
    assert!(package_json_missing("/wd", ".", false).starts_with("package.json not found in directory:"));
}

#[test]
fn parse_pack_filename_single_object() {
    let s = r#"[{"id":"pkg@1.0.0","name":"pkg","filename":"pkg-1.0.0.tgz"}]"#;
    assert_eq!(parse_pack_filename(s).as_deref(), Some("pkg-1.0.0.tgz"));
}

#[test]
fn parse_pack_filename_empty_array_is_none() {
    assert!(parse_pack_filename("[]").is_none());
}

#[test]
fn parse_pack_filename_malformed_is_none() {
    assert!(parse_pack_filename("not json").is_none());
}

#[test]
fn parse_pack_filename_takes_first_of_many() {
    let s = r#"[{"filename":"a.tgz"},{"filename":"b.tgz"}]"#;
    assert_eq!(parse_pack_filename(s).as_deref(), Some("a.tgz"));
}

#[test]
fn parse_pack_filename_needs_a_string_filename_in_an_array() {
    assert!(parse_pack_filename(r#"{"filename":"a.tgz"}"#).is_none());
    assert!(parse_pack_filename(r#"[{"filename":7}]"#).is_none());
    assert!(parse_pack_filename(r#"[{"name":"x"}]"#).is_none());
}

#[test]
fn dest_wd_rel_dot_directory_unchanged() {
    assert_eq!(dest_wd_rel(".", ".moonlit/npm-pack"), ".moonlit/npm-pack");
    assert_eq!(dest_wd_rel("", ".moonlit/npm-pack"), ".moonlit/npm-pack");
}

#[test]
fn dest_wd_rel_subdir_prefixed() {
    assert_eq!(dest_wd_rel("packages/app", ".moonlit/npm-pack"), "packages/app/.moonlit/npm-pack");
    assert_eq!(dest_wd_rel("packages/app/", "d"), "packages/app/d");
    assert_eq!(dest_wd_rel("./", "d"), "d");
    assert_eq!(dest_wd_rel("///", "d"), "d");
}

#[test]
fn pack_builds_default_argv() {
    let cfg = PackConfig::default();
    assert_eq!(
        pack_args(&npm_destination(&cfg)),
        argv(&["pack", "--pack-destination", ".moonlit/npm-pack", "--json"])
    );
    assert!(wipes_destination(&cfg));
}

#[test]
fn pack_version_step_precedes_pack() {
    let cfg = PackConfig {
        version: Some("1.4.0".into()),
        ..Default::default()
    };
    assert_eq!(version_args(&cfg.version).unwrap()[0], "version");
    assert_eq!(pack_args(&npm_destination(&cfg))[0], "pack");
}

#[test]
fn pack_custom_destination_used_in_argv() {
    let cfg = PackConfig {
        destination: Some("out/tarballs".into()),
        ..Default::default()
    };
    assert_eq!(
        pack_args(&npm_destination(&cfg)),
        argv(&["pack", "--pack-destination", "out/tarballs", "--json"])
    );
}

#[test]
fn pack_emits_working_dir_relative_package_path() {
    let cfg = PackConfig::default();
    let wd_rel = dest_wd_rel(&cfg.directory, &npm_destination(&cfg));
    assert_eq!(
        package_path(&wd_rel, r#"[{"filename":"pkg-1.0.0.tgz"}]"#).ok().as_deref(),
        Some(".moonlit/npm-pack/pkg-1.0.0.tgz")
    );
}

#[test]
fn pack_no_tarball_fails() {
    assert_eq!(package_path(".moonlit/npm-pack", "").err().as_deref(), Some("No package tarball was created."));
    assert_eq!(pack_failure(1), "Failed to pack project: Npm command failed with exit code 1");
}

#[test]
fn pack_missing_package_json_fails_before_spawn() {
    assert!(package_json_missing("/wd", ".", false).starts_with("package.json not found in directory:"));
}

#[test]
fn pack_user_destination_is_not_wiped() {
    let cfg = PackConfig {
        destination: Some("out/tarballs".into()),
        ..Default::default()
    };
    assert!(!wipes_destination(&cfg));
}

#[test]
fn pack_blank_destination_falls_back_to_default() {
    let cfg = PackConfig {
        destination: Some("".into()),
        ..Default::default()
    };
    assert_eq!(
        pack_args(&npm_destination(&cfg)),
        argv(&["pack", "--pack-destination", ".moonlit/npm-pack", "--json"])
    );
    assert!(wipes_destination(&cfg));
}

#[test]
fn npmrc_line_strips_https_and_anchors_slash() {
    assert_eq!(npmrc_line("https://registry.npmjs.org", "TOK"), "//registry.npmjs.org/:_authToken=TOK");
}

#[test]
fn npmrc_line_strips_http_and_keeps_port() {
    assert_eq!(npmrc_line("http://localhost:4873", "TOK"), "//localhost:4873/:_authToken=TOK");
}

#[test]
fn npmrc_line_trailing_slash_idempotent() {
    assert_eq!(npmrc_line("https://registry.npmjs.org/", "TOK"), "//registry.npmjs.org/:_authToken=TOK");
    assert_eq!(npmrc_line("https://r.example/npm/", "T"), "//r.example/npm/:_authToken=T");
    assert_eq!(npmrc_contents("r.local//", "T"), "//r.local/:_authToken=T\n");
}

#[test]
fn publishes_with_config_registry_and_token_off_argv() {
    let cfg = PushConfig {
        package: "app-1.0.0.tgz".into(),
        registry: Some("https://feed".into()),
        token: Some("SECRET".into()),
        access: Some("public".into()),
        ..Default::default()
    };
    let (registry, token) = credentials(&cfg, &NodeConfig::default()).ok().unwrap();
    assert_eq!(token, "SECRET");
    let args = publish_args(&cfg, &registry);
    assert_eq!(
        args,
        argv(&[
            "publish",
            "app-1.0.0.tgz",
            "--registry",
            "https://feed",
            "--tag",
            "latest",
            "--access",
            "public",
            "--userconfig",
            ".moonlit/npm-push/.npmrc",
        ])
    );
    assert!(!args.iter().any(|a| a == "SECRET"), "token must not be on argv");
    assert_eq!(npmrc_dir(), ".moonlit/npm-push");
}

#[test]
fn falls_back_to_plugin_registry_and_token() {
    let plugin = NodeConfig {
        registry: "https://plug".into(),
        token: "PTOK".into(),
    };
    let cfg = PushConfig {
        package: "app-1.0.0.tgz".into(),
        registry: Some("  ".into()),
        ..Default::default()
    };
    let (registry, token) = credentials(&cfg, &plugin).ok().unwrap();
    assert_eq!(token, "PTOK");
    let args = publish_args(&cfg, &registry);
    assert_eq!(args[2], "--registry");
    assert_eq!(args[3], "https://plug");
}

#[test]
fn missing_tarball_fails_before_config() {
    assert!(tarball_missing("/wd", "nope.tgz").starts_with("Package tarball not found at path:"));
    assert_eq!(tarball_missing("/wd", "nope.tgz"), "Package tarball not found at path: /wd/nope.tgz");
}

#[test]
fn blank_token_everywhere_fails() {
    let cfg = PushConfig {
        package: "app-1.0.0.tgz".into(),
        token: Some(" ".into()),
        ..Default::default()
    };
    assert_eq!(
        credentials(&cfg, &NodeConfig::default()).err().as_deref(),
        Some("npm authentication token is not specified in both global and local configuration.")
    );
}

#[test]
fn npm_push_http_401_maps_to_auth_error() {
    assert!(credentials(&PushConfig::default(), &plugin_with_token("T")).is_ok());
    assert_eq!(
        publish_failure("", "npm error code E401\nnpm error 401 (Unauthorized)", 1),
        "Failed to push package: Authentication error. Please check your token and permissions."
    );
}

#[test]
fn version_conflict_maps_to_already_published() {
    assert_eq!(
        publish_failure("", "npm error code EPUBLISHCONFLICT\nnpm error cannot publish over previously published versions", 1),
        "Version already published."
    );
}

#[test]
fn http_409_maps_to_already_published() {
    assert_eq!(
        publish_failure("", "npm error code E409\nnpm error 409 Conflict - PUT https://registry/app", 1),
        "Version already published."
    );
}

#[test]
fn forbidden_already_published_is_a_conflict_not_auth() {
    assert_eq!(
        publish_failure("npm error 403 Forbidden - You cannot publish: already exists", "", 1),
        "Version already published."
    );
}

#[test]
fn bare_401_in_filename_is_not_auth() {
    assert_eq!(
        publish_failure("", "npm error publishing app-1.401.0.tgz: network reset", 1),
        "Failed to push package: Npm command failed with exit code 1"
    );
}

#[test]
fn first_entry_filename_picks_the_first_entry_only() {
    let e = Some(vec![Some("a.tgz".to_string()), Some("b.tgz".to_string())]);
    assert_eq!(first_entry_filename(e).as_deref(), Some("a.tgz"));
    assert_eq!(first_entry_filename(Some(vec![None, Some("b.tgz".to_string())])), None);
    assert_eq!(first_entry_filename(Some(vec![])), None);
    assert_eq!(first_entry_filename(None), None);
}
