use moonlit_plugins::dotnet::build_step::{build_args, BuildConfig};
use moonlit_plugins::dotnet::config::DotnetConfig;
use moonlit_plugins::dotnet::pack::{no_packages, pack_args, pack_out_rel, selected_package, PackConfig};
use moonlit_plugins::dotnet::push::{package_not_found, push_args, push_failure, PushConfig};
use moonlit_plugins::dotnet::test::{outcome, results_rel, test_args, TestConfig};
use moonlit_plugins::dotnet::trx::TrxCounters;
use moonlit_plugins::dotnet::{fail, project_not_found, resolve};

fn v(items: &[&str]) -> Vec<String> {
    items.iter().map(|s| s.to_string()).collect()
}

fn s(x: &str) -> Option<String> {
    Some(x.to_string())
}

fn counters(passed: u32, failed: u32, skipped: u32, total: u32) -> TrxCounters {
    TrxCounters { passed, failed, skipped, total }
}

#[test]
fn builds_with_derived_versions_and_no_restore() {
    let cfg = BuildConfig {
        project: "app.csproj".into(),
        version: s("1.2.3-rc.1"),
        no_restore: true,
        ..Default::default()
    };
    assert_eq!(
        build_args(&cfg).ok().unwrap(),
        v(&[
            "build",
            "app.csproj",
            "-p:AssemblyVersion=1.2.3",
            "-p:FileVersion=1.2.3",
            "-p:InformationalVersion=1.2.3-rc.1",
            "--configuration",
            "Release",
            "--no-restore",
        ])
    );
}

#[test]
fn build_missing_project_fails() {
    let m = project_not_found(&resolve("/tmp/wd", "nope.csproj", false));
    assert!(m.starts_with("Project file not found at path:"), "got: {m}");
    assert!(m.ends_with("nope.csproj"), "got: {m}");
}

#[test]
fn unresolved_assembly_version_fails_with_exact_message() {
    let cfg = BuildConfig {
        project: "app.csproj".into(),
        ..Default::default()
    };
    assert_eq!(
        build_args(&cfg).err().as_deref(),
        Some("AssemblyVersion could not be determined. Please specify it in the configuration or provide a valid Version.")
    );
}

#[test]
fn non_zero_exit_maps_to_build_failure() {
    assert_eq!(
        fail("build project", 1),
        "Failed to build project: Dotnet command failed with exit code 1"
    );
}

#[test]
fn defaults_are_nuget_org_and_blank_keys() {
    let c = DotnetConfig::default();
    assert_eq!(c.nuget_source, "https://api.nuget.org/v3/index.json");
    assert_eq!(c.resolved_api_key(), "");
}

#[test]
fn nuget_api_key_preferred_over_alias() {
    let c = DotnetConfig {
        nuget_api_key: "A".into(),
        api_key: "B".into(),
        ..Default::default()
    };
    assert_eq!(c.resolved_api_key(), "A");
}

#[test]
fn alias_used_when_nuget_api_key_blank() {
    let c = DotnetConfig {
        nuget_api_key: "  ".into(),
        api_key: "B".into(),
        ..Default::default()
    };
    assert_eq!(c.resolved_api_key(), "B");
}

#[test]
fn missing_source_falls_back_to_default() {
    let c = DotnetConfig {
        api_key: "B".into(),
        ..Default::default()
    };
    assert_eq!(c.nuget_source, "https://api.nuget.org/v3/index.json");
}

#[test]
fn selected_package_none_is_err() {
    assert!(selected_package(&Vec::new(), ".moonlit/dotnet/App").is_err());
    assert!(selected_package(&v(&["App.txt", "nupkg", ".nupkg"]), ".moonlit/dotnet/App").is_err());
}

#[test]
fn selected_package_single_returns_relative_path_no_warning() {
    let (path, warn) = selected_package(&v(&["App.0.nupkg"]), ".moonlit/dotnet/App").ok().unwrap();
    assert_eq!(path, ".moonlit/dotnet/App/App.0.nupkg");
    assert!(warn.is_none());
}

#[test]
fn selected_package_multiple_warns_and_uses_first_sorted() {
    let (path, warn) = selected_package(&v(&["App.1.nupkg", "App.0.nupkg"]), ".moonlit/dotnet/App").ok().unwrap();
    assert_eq!(path, ".moonlit/dotnet/App/App.0.nupkg");
    let w = warn.unwrap();
    assert!(w.contains("Multiple .nupkg files were created"));
    assert_eq!(w, "Multiple .nupkg files were created. Using the first one: App.0");
}

#[test]
fn pack_builds_expected_argv() {
    let cfg = PackConfig {
        project: "App.csproj".into(),
        version: s("1.2.3-rc.1+meta"),
        ..Default::default()
    };
    let out = pack_out_rel(&cfg.project);
    assert_eq!(out, ".moonlit/dotnet/App");
    assert_eq!(
        pack_args(&cfg, &out).ok().unwrap(),
        v(&[
            "pack",
            "App.csproj",
            "-p:AssemblyVersion=1.2.3",
            "-p:FileVersion=1.2.3",
            "-p:InformationalVersion=1.2.3-rc.1+meta",
            "-p:PackageVersion=1.2.3-rc.1",
            "-p:Version=1.2.3-rc.1",
            "--output",
            ".moonlit/dotnet/App",
            "--configuration",
            "Release",
        ])
    );
}

#[test]
fn pack_no_build_and_no_restore_flags_appended() {
    let cfg = PackConfig {
        project: "App.csproj".into(),
        version: s("1.0.0"),
        no_build: true,
        no_restore: true,
        ..Default::default()
    };
    let a = pack_args(&cfg, &pack_out_rel(&cfg.project)).ok().unwrap();
    assert_eq!(&a[a.len() - 2..], &["--no-build".to_string(), "--no-restore".to_string()]);
}

#[test]
fn pack_missing_project_fails() {
    assert!(project_not_found(&resolve("/wd", "nope.csproj", false)).starts_with("Project file not found at path:"));
}

#[test]
fn pack_unresolved_assembly_version_fails() {
    let cfg = PackConfig {
        project: "App.csproj".into(),
        ..Default::default()
    };
    assert_eq!(
        pack_args(&cfg, &pack_out_rel(&cfg.project)).err().as_deref(),
        Some("AssemblyVersion could not be determined. Please specify it in the configuration or provide a valid Version.")
    );
}

#[test]
fn pack_no_nupkg_produced_fails() {
    assert!(selected_package(&Vec::new(), ".moonlit/dotnet/App").is_err());
    assert_eq!(no_packages(), "No .nupkg files were created.");
}

#[test]
fn pushes_with_source_and_key_from_config() {
    let cfg = PushConfig {
        package: "App.1.0.0.nupkg".into(),
        source: s("https://feed/v3"),
        api_key: s("SECRET"),
    };
    assert_eq!(
        push_args(&cfg, &DotnetConfig::default()).ok().unwrap(),
        v(&[
            "nuget",
            "push",
            "App.1.0.0.nupkg",
            "--source",
            "https://feed/v3",
            "--api-key",
            "SECRET",
            "--timeout",
            "30",
        ])
    );
}

#[test]
fn falls_back_to_plugin_config_source_and_key() {
    let plugin = DotnetConfig {
        nuget_source: "https://plug".into(),
        api_key: "PKEY".into(),
        ..Default::default()
    };
    let cfg = PushConfig {
        package: "App.1.0.0.nupkg".into(),
        source: None,
        api_key: None,
    };
    let args = push_args(&cfg, &plugin).ok().unwrap();
    assert_eq!(args[3], "--source");
    assert_eq!(args[4], "https://plug");
    assert_eq!(args[6], "PKEY");
}

#[test]
fn missing_package_fails() {
    assert!(package_not_found(&resolve("/wd", "nope.nupkg", false)).starts_with("NuGet package file not found at path:"));
}

#[test]
fn blank_source_everywhere_fails() {
    let plugin = DotnetConfig {
        nuget_source: "".into(),
        ..Default::default()
    };
    let cfg = PushConfig {
        package: "App.1.0.0.nupkg".into(),
        source: None,
        api_key: s("k"),
    };
    assert_eq!(
        push_args(&cfg, &plugin).err().as_deref(),
        Some("NuGet source is not specified in both global and local configuration.")
    );
}

#[test]
fn blank_key_everywhere_fails() {
    let cfg = PushConfig {
        package: "App.1.0.0.nupkg".into(),
        source: s("s"),
        api_key: None,
    };
    assert_eq!(
        push_args(&cfg, &DotnetConfig::default()).err().as_deref(),
        Some("NuGet API key is not specified in both global and local configuration.")
    );
}

#[test]
fn push_http_401_maps_to_auth_error() {
    assert_eq!(
        push_failure("", "error: Response status code does not indicate success: 401 (Unauthorized).", 1),
        "Failed to push package: Authentication error. Please check your API key and permissions."
    );
}

#[test]
fn push_other_non_zero_maps_to_generic() {
    assert_eq!(
        push_failure("", "error: connection reset", 1),
        "Failed to push package: Dotnet command failed with exit code 1"
    );
}

#[test]
fn bare_401_in_output_is_not_misclassified_as_auth() {
    assert_eq!(
        push_failure("", "error: push of App.1.401.0.nupkg failed: connection reset", 1),
        "Failed to push package: Dotnet command failed with exit code 1"
    );
}

#[test]
fn forbidden_on_stdout_in_any_case_is_auth() {
    assert_eq!(
        push_failure("Response: FORBIDDEN", "", 1),
        "Failed to push package: Authentication error. Please check your API key and permissions."
    );
}

#[test]
fn outcome_success_emits_counts() {
    let c = outcome(0, Some(counters(8, 1, 1, 10))).ok().unwrap();
    assert_eq!(c.passed, 8);
    assert_eq!(c.failed, 1);
    assert_eq!(c.skipped, 1);
    assert_eq!(c.total, 10);
}

#[test]
fn outcome_failed_tests_report_count() {
    assert_eq!(outcome(1, Some(counters(3, 2, 0, 5))).err().as_deref(), Some("2 test(s) failed."));
}

#[test]
fn outcome_non_zero_without_failures_is_generic() {
    assert_eq!(
        outcome(1, Some(counters(4, 0, 0, 4))).err().as_deref(),
        Some("Failed to run tests: Dotnet command failed with exit code 1")
    );
}

#[test]
fn outcome_missing_trx_on_success_fails() {
    assert_eq!(outcome(0, None).err().as_deref(), Some("Test results file was not produced."));
}

#[test]
fn outcome_missing_trx_on_failure_is_generic() {
    assert_eq!(
        outcome(1, None).err().as_deref(),
        Some("Failed to run tests: Dotnet command failed with exit code 1")
    );
}

#[test]
fn builds_full_argv_with_all_flags() {
    let cfg = TestConfig {
        project: "Tests.csproj".into(),
        filter: s("Category=Unit"),
        no_build: true,
        collect_coverage: true,
        ..Default::default()
    };
    let results = results_rel(&cfg.project);
    assert_eq!(
        test_args(&cfg, &results),
        v(&[
            "test",
            "Tests.csproj",
            "--configuration",
            "Release",
            "--filter",
            "Category=Unit",
            "--no-build",
            "--logger",
            "trx;LogFileName=moonlit.trx",
            "--results-directory",
            ".moonlit/dotnet-test/Tests",
            "--collect",
            "XPlat Code Coverage",
        ])
    );
}

#[test]
fn minimal_argv_omits_optional_flags() {
    let cfg = TestConfig {
        project: "Tests.csproj".into(),
        ..Default::default()
    };
    assert_eq!(
        test_args(&cfg, &results_rel(&cfg.project)),
        v(&[
            "test",
            "Tests.csproj",
            "--configuration",
            "Release",
            "--logger",
            "trx;LogFileName=moonlit.trx",
            "--results-directory",
            ".moonlit/dotnet-test/Tests",
        ])
    );
}

#[test]
fn test_missing_project_fails() {
    assert!(project_not_found(&resolve("/wd", "nope.csproj", false)).starts_with("Project file not found at path:"));
}
