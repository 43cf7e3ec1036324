use moonlit_plugins::dotnet::trx::{parse_counters, TrxCounters};
use moonlit_plugins::dotnet::version::{
    assembly_or_file_version, informational_version, package_version,
};
use moonlit_plugins::dotnet::{exit_phrase, project_slug, resolve};
use std::path::PathBuf;

fn s(x: &str) -> Option<String> {
    Some(x.to_string())
}

#[test]
fn dotnet_exit_phrase_formats_code() {
    assert_eq!(exit_phrase(2), "Dotnet command failed with exit code 2");
}

#[test]
fn exit_phrase_formats_negative_and_extreme_codes() {
    assert_eq!(exit_phrase(-1), "Dotnet command failed with exit code -1");
    assert_eq!(exit_phrase(0), "Dotnet command failed with exit code 0");
    assert_eq!(
        exit_phrase(i32::MIN),
        "Dotnet command failed with exit code -2147483648"
    );
    assert_eq!(
        exit_phrase(i32::MAX),
        "Dotnet command failed with exit code 2147483647"
    );
}

#[test]
fn project_slug_distinguishes_same_stem_across_dirs() {
    assert_eq!(project_slug("Lib.csproj"), "Lib");
    assert_eq!(project_slug("a/Lib.csproj"), "a_Lib");
    assert_eq!(project_slug("b/Lib.csproj"), "b_Lib");
    assert_eq!(project_slug("src/MyApp/MyApp.csproj"), "src_MyApp_MyApp");
}

#[test]
fn project_slug_follows_path_extension_rules() {
    assert_eq!(project_slug("./src/App.Core.csproj"), "._src_App.Core");
    assert_eq!(project_slug("/abs/App.csproj"), "abs_App");
    assert_eq!(project_slug("dir/.hidden"), "dir_.hidden");
    assert_eq!(project_slug("dir/App.csproj/"), "dir_App");
    assert_eq!(project_slug("dir/App.csproj/."), "dir_App");
    assert_eq!(project_slug("dir/.."), "dir_..");
    assert_eq!(project_slug("win\\App.csproj"), "win_App");
    assert_eq!(project_slug(""), "");
}

#[test]
fn resolve_joins_working_dir_on_native() {
    assert_eq!(
        PathBuf::from(resolve("/wd", "a.csproj", false)),
        PathBuf::from("/wd/a.csproj")
    );
}

#[test]
fn resolve_keeps_absolute_and_avoids_double_slash() {
    assert_eq!(resolve("/wd/", "a.csproj", false), "/wd/a.csproj");
    assert_eq!(resolve("/wd", "/etc/a.csproj", false), "/etc/a.csproj");
    assert_eq!(resolve("", "a.csproj", false), "a.csproj");
}

#[test]
fn resolve_keeps_the_path_under_a_preopen() {
    assert_eq!(resolve("/wd", "a.csproj", true), "a.csproj");
    assert_eq!(resolve("/wd", "src/App/App.csproj", true), "src/App/App.csproj");
}

const TRX: &str = r#"<?xml version="1.0"?><TestRun><ResultSummary outcome="Completed">
      <Counters total="10" executed="8" passed="7" failed="1" error="0" timeout="0"
        aborted="0" inconclusive="0" notExecuted="2" /></ResultSummary></TestRun>"#;

#[test]
fn parses_counts_and_skipped_is_total_minus_executed() {
    let c = parse_counters(TRX).unwrap();
    assert_eq!(
        c,
        TrxCounters {
            passed: 7,
            failed: 1,
            skipped: 2,
            total: 10
        }
    );
}

#[test]
fn all_pass_zero_skipped() {
    let xml = r#"<Counters total="3" executed="3" passed="3" failed="0" />"#;
    assert_eq!(
        parse_counters(xml).unwrap(),
        TrxCounters {
            passed: 3,
            failed: 0,
            skipped: 0,
            total: 3
        }
    );
}

#[test]
fn zero_tests() {
    let xml = r#"<Counters total="0" executed="0" passed="0" failed="0" />"#;
    assert_eq!(
        parse_counters(xml).unwrap(),
        TrxCounters {
            passed: 0,
            failed: 0,
            skipped: 0,
            total: 0
        }
    );
}

#[test]
fn missing_counters_element_returns_none() {
    assert_eq!(parse_counters("<TestRun></TestRun>"), None);
}

#[test]
fn executed_above_total_floors_skipped_and_overflow_reads_zero() {
    let xml = r#"<Counters total="2" executed="5" passed="99999999999" failed="+3" />"#;
    assert_eq!(
        parse_counters(xml).unwrap(),
        TrxCounters {
            passed: 0,
            failed: 0,
            skipped: 0,
            total: 2
        }
    );
}

#[test]
fn assembly_strips_prerelease_from_version() {
    assert_eq!(
        assembly_or_file_version(&None, &s("1.2.3-rc.1")),
        s("1.2.3")
    );
}

#[test]
fn assembly_override_used_verbatim_without_split() {
    assert_eq!(
        assembly_or_file_version(&s("9.9.9-beta"), &s("1.2.3")),
        s("9.9.9-beta")
    );
}

#[test]
fn assembly_none_when_no_version_and_no_override() {
    assert_eq!(assembly_or_file_version(&None, &None), None);
}

#[test]
fn blank_override_is_rejected() {
    assert_eq!(assembly_or_file_version(&s("   "), &s("1.2.3")), None);
}

#[test]
fn informational_uses_full_version() {
    assert_eq!(
        informational_version(&None, &s("1.2.3-rc.1+abc")),
        s("1.2.3-rc.1+abc")
    );
}

#[test]
fn package_strips_build_metadata() {
    assert_eq!(package_version(&None, &s("1.2.3+sha.deadbeef")), s("1.2.3"));
}

#[test]
fn version_starting_with_cut_is_blank_and_absent() {
    assert_eq!(assembly_or_file_version(&None, &s("-rc.1")), None);
    assert_eq!(package_version(&None, &s(" +meta")), None);
    assert_eq!(package_version(&s("2.0.0+x"), &s("1.0.0")), s("2.0.0+x"));
}

#[test]
fn slug_of_dir_and_stem_joins_them_with_underscore() {
    assert_eq!(project_slug("a1/B2.csproj"), "a1_B2");
    assert_ne!(project_slug("x/App.csproj"), project_slug("y/App.csproj"));
}
