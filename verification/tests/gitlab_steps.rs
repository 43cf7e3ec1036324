use moonlit_plugins::forge::{check_status, first_page_url, given_body, next_link, preflight, release_comment, request_headers, Forge};
use moonlit_plugins::gitlab::related::{
    add_closed, closes_path, landed_merge_requests, merged_path, newest_issues, nothing_to_look_up, IssueFields, MergeRequest,
    RelatedItemsConfig,
};
use moonlit_plugins::gitlab::release::{
    annotation_plan,
    draft_warning, encode_query, label_path, label_warning, note_path, note_warning, release_name,
    release_outputs, releases_path, CreateReleaseConfig, ItemKind,
};
use moonlit_plugins::gitlab::variables::{
    check_file, merge_variables, render, report_path, write_failed, WriteVariablesConfig,
};
use moonlit_plugins::gitlab::{context_from_remote_url, GitlabContext, GitlabPluginConfig};
use moonlit_plugins::strmap::StrMap;
use moonlit_plugins::forge::AnnotationKind;

const BASE: &str = "https://gitlab.com/api/v4";

fn gl_ctx() -> GitlabContext {
    GitlabContext {
        project_id: "o%2Fr".into(),
        api: BASE.into(),
        web: "https://gitlab.com/o/r".into(),
    }
}

fn shas(items: &[&str]) -> Vec<String> {
    items.iter().map(|s| s.to_string()).collect()
}

fn mr(iid: i64, created: &str, merge: Option<&str>, squash: Option<&str>) -> MergeRequest {
    MergeRequest {
        iid,
        title: format!("t{iid}"),
        description: None,
        state: "merged".into(),
        created_at: created.into(),
        updated_at: "x".into(),
        merged_at: Some("y".into()),
        merge_commit_sha: merge.map(|s| s.to_string()),
        squash_commit_sha: squash.map(|s| s.to_string()),
    }
}

fn listed(iid: Option<i64>, created: &str) -> IssueFields {
    IssueFields {
        iid,
        title: "bug".into(),
        description: Some("b".into()),
        state: "closed".into(),
        created_at: created.into(),
        updated_at: "x".into(),
        closed_at: Some("z".into()),
    }
}

fn dotenv_map(pairs: &[(&str, &str)]) -> StrMap {
    let mut m = StrMap::new();
    for (k, v) in pairs {
        m.insert(k.to_string(), v.to_string());
    }
    m
}

#[test]
fn gitlab_config_blank_token_fails_with_exact_message() {
    let c = GitlabPluginConfig {
        token: "  ".into(),
        base_url: "https://gitlab.com".into(),
    };
    assert_eq!(c.validate().err().as_deref(), Some("GitLab token is not configured."));
}

#[test]
fn gitlab_config_present_token_passes() {
    let c = GitlabPluginConfig {
        token: "glpat_x".into(),
        base_url: "https://gitlab.com".into(),
    };
    assert!(c.validate().is_ok());
}

#[test]
fn default_base_url_is_gitlab_com() {
    assert_eq!(GitlabPluginConfig::default().base_url, "https://gitlab.com");
    assert_eq!(GitlabPluginConfig::default().token, "");
}

#[test]
fn get_attaches_private_token_and_per_page() {
    assert_eq!(
        first_page_url(BASE, "/projects/o%2Fr/merge_requests?state=merged"),
        "https://gitlab.com/api/v4/projects/o%2Fr/merge_requests?state=merged&per_page=100"
    );
    let h = request_headers(Forge::GitLab, "tok");
    assert_eq!(
        h,
        vec![
            ("PRIVATE-TOKEN".to_string(), "tok".to_string()),
            ("User-Agent".to_string(), "moonlit".to_string()),
            ("Accept".to_string(), "application/json".to_string()),
        ]
    );
}

#[test]
fn gitlab_api_follows_link_header_to_second_page() {
    assert_eq!(
        next_link("<https://gitlab.com/api/v4/x?page=2>; rel=\"next\"").as_deref(),
        Some("https://gitlab.com/api/v4/x?page=2")
    );
}

#[test]
fn gitlab_api_auth_error_maps_401() {
    assert_eq!(
        check_status(Forge::GitLab, false, 401, &Some("{}".into())).err().as_deref(),
        Some("GitLab authentication failed (HTTP 401). Check the configured token.")
    );
    assert_eq!(
        check_status(Forge::GitLab, false, 403, &None).err().as_deref(),
        Some("GitLab authentication failed (HTTP 403). Check the configured token.")
    );
}

#[test]
fn server_error_maps_with_body() {
    assert_eq!(
        check_status(Forge::GitLab, false, 500, &Some("boom".into())).err().as_deref(),
        Some("GitLab API request failed (HTTP 500): boom")
    );
    assert_eq!(
        check_status(Forge::GitLab, false, 502, &None).err().as_deref(),
        Some("GitLab API request failed (HTTP 502): ")
    );
}

#[test]
fn put_sends_request_to_path() {
    assert_eq!(
        label_path(&gl_ctx(), ItemKind::Issue, 9, "released"),
        "/projects/o%2Fr/issues/9?add_labels=released"
    );
}

#[test]
fn gitlab_create_release_blank_name_fails_before_http() {
    assert_eq!(preflight("", "v1", &Some("x".into()), true).err().as_deref(), Some("Release name is required."));
}

#[test]
fn gitlab_create_release_blank_body_and_empty_changelog_fails() {
    assert_eq!(
        preflight("1.0", "v1", &None, true).err().as_deref(),
        Some("Release body or changelog is required.")
    );
}

#[test]
fn blank_tag_fails_with_exact_message() {
    assert_eq!(preflight("1.0", "", &Some("x".into()), true).err().as_deref(), Some("Release tag is required."));
}

#[test]
fn gitlab_create_release_creates_release_and_emits_name_and_url() {
    let cfg = CreateReleaseConfig {
        name: "1.0.0".into(),
        tag: "v1.0.0".into(),
        body: Some("notes".into()),
        ..Default::default()
    };
    assert!(preflight(&cfg.name, &cfg.tag, &cfg.body, true).is_ok());
    assert_eq!(releases_path(&gl_ctx()), "/projects/o%2Fr/releases");
    assert_eq!(given_body(&cfg.body).as_deref(), Some("notes"));
    let sent = release_name(&cfg.name, cfg.prerelease);
    assert_eq!(sent, "1.0.0");
    let (name, url) = release_outputs(
        &gl_ctx(),
        &Some("1.0.0".into()),
        &Some("https://gitlab.com/o/r/-/releases/v1.0.0".into()),
        &sent,
        &cfg.tag,
    );
    assert_eq!(name, "1.0.0");
    assert_eq!(url, "https://gitlab.com/o/r/-/releases/v1.0.0");
}

#[test]
fn release_url_falls_back_to_the_web_page() {
    let (name, url) = release_outputs(&gl_ctx(), &None, &None, "1.0.0 (pre-release)", "v1.0.0");
    assert_eq!(name, "1.0.0 (pre-release)");
    assert_eq!(url, "https://gitlab.com/o/r/-/releases/v1.0.0");
}

#[test]
fn prerelease_appends_marker_to_name() {
    assert_eq!(release_name("1.0.0", true), "1.0.0 (pre-release)");
}

#[test]
fn draft_warns_and_is_ignored() {
    assert_eq!(draft_warning(), "GitLab does not support draft releases; ignoring the draft flag.");
}

#[test]
fn absent_body_renders_changelog_into_description() {
    assert_eq!(given_body(&None), None);
    assert_eq!(gl_ctx().commit_url_prefix(), "https://gitlab.com/o/r/-/commit/");
}

#[test]
fn comments_on_related_merge_request() {
    assert_eq!(note_path(&gl_ctx(), ItemKind::MergeRequest, 7), "/projects/o%2Fr/merge_requests/7/notes");
    assert_eq!(
        release_comment("1.0.0", "https://gitlab.com/o/r/-/releases/v1.0.0"),
        ":rocket: **New Release Published!**\n\n:tada: A new version of the project has just been released!\n\n**:bookmark: Link:** [`1.0.0`](https://gitlab.com/o/r/-/releases/v1.0.0)"
    );
    assert_eq!(note_warning(ItemKind::MergeRequest, 7, "e"), "Failed to comment on merge request 7: e");
    assert_eq!(label_warning(ItemKind::Issue, 9, "e"), "Failed to label issue 9: e");
}

#[test]
fn labels_issue_via_type_specific_path() {
    assert_eq!(note_path(&gl_ctx(), ItemKind::Issue, 9), "/projects/o%2Fr/issues/9/notes");
    assert_eq!(
        label_path(&gl_ctx(), ItemKind::Issue, 9, "released"),
        "/projects/o%2Fr/issues/9?add_labels=released"
    );
}

#[test]
fn labels_merge_request_with_url_encoded_label() {
    assert_eq!(
        label_path(&gl_ctx(), ItemKind::MergeRequest, 7, "to release"),
        "/projects/o%2Fr/merge_requests/7?add_labels=to%20release"
    );
}

#[test]
fn encode_query_keeps_unreserved_and_escapes_the_rest_by_utf8_byte() {
    assert_eq!(encode_query("AZaz09-._~"), "AZaz09-._~");
    assert_eq!(encode_query("a&b=c#d/e?f+g%"), "a%26b%3Dc%23d%2Fe%3Ff%2Bg%25");
    assert_eq!(encode_query("é✓"), "%C3%A9%E2%9C%93");
    assert_eq!(encode_query(""), "");
}

#[test]
fn gitlab_related_items_empty_commits_succeeds_without_http() {
    let cfg = RelatedItemsConfig::default();
    assert!(nothing_to_look_up(&cfg).is_some());
    assert!(cfg.include_merge_requests && cfg.include_issues);
}

#[test]
fn keeps_mrs_matching_merge_commit_sha_and_emits_prs_alias() {
    let mrs = vec![
        mr(7, "2026-02-01T00:00:00Z", Some("aaa"), None),
        mr(8, "2026-03-01T00:00:00Z", Some("zzz"), None),
    ];
    let out = landed_merge_requests(mrs, &shas(&["aaa"]));
    assert_eq!(out.len(), 1);
    assert_eq!(out[0].iid, 7);
    assert_eq!(out[0].merge_commit_sha.as_deref(), Some("aaa"));
    assert_eq!(merged_path(&gl_ctx()), "/projects/o%2Fr/merge_requests?state=merged");
}

#[test]
fn matches_squash_commit_sha() {
    let out = landed_merge_requests(vec![mr(9, "2026-04-01T00:00:00Z", None, Some("sqsq"))], &shas(&["sqsq"]));
    assert_eq!(out.len(), 1);
    assert_eq!(out[0].iid, 9);
}

#[test]
fn links_closed_issues_via_endpoint() {
    let mrs = landed_merge_requests(vec![mr(7, "2026-02-01T00:00:00Z", Some("aaa"), None)], &shas(&["aaa"]));
    assert_eq!(closes_path(&gl_ctx(), mrs[0].iid), "/projects/o%2Fr/merge_requests/7/closes_issues");
    let issues = add_closed(Vec::new(), vec![listed(Some(42), "2026-01-01T00:00:00Z")], mrs[0].iid);
    assert_eq!(issues.len(), 1);
    assert_eq!(issues[0].iid, 42);
    assert_eq!(issues[0].merge_request_iid, 7);
}

#[test]
fn sorts_mrs_by_created_at_desc() {
    let mrs = vec![
        mr(1, "2026-01-01T00:00:00Z", Some("aaa"), None),
        mr(2, "2026-05-01T00:00:00Z", Some("bbb"), None),
    ];
    let out = landed_merge_requests(mrs, &shas(&["aaa", "bbb"]));
    assert_eq!(out[0].iid, 2, "newest MR first");
    assert_eq!(out[1].iid, 1);
}

#[test]
fn dedups_issue_closed_by_multiple_mrs() {
    let acc = add_closed(Vec::new(), vec![listed(Some(42), "2026-01-01T00:00:00Z")], 8);
    let acc = add_closed(acc, vec![listed(Some(42), "2026-01-01T00:00:00Z")], 7);
    assert_eq!(acc.len(), 1, "issue 42 appears once");
    assert_eq!(acc[0].iid, 42);
    assert_eq!(acc[0].merge_request_iid, 8);
}

#[test]
fn missing_iid_reads_as_zero_and_issues_sort_newest_first() {
    let acc = add_closed(Vec::new(), vec![listed(None, "2026-01"), listed(None, "2026-02"), listed(Some(5), "2026-03")], 1);
    assert_eq!(acc.len(), 2);
    assert_eq!(acc[0].iid, 0);
    let out = newest_issues(acc);
    assert_eq!(out[0].iid, 5);
    assert_eq!(out[1].iid, 0);
}

#[test]
fn writes_sorted_dotenv_lines() {
    let (merged, warnings) = merge_variables(&dotenv_map(&[("VERSION", "1.2.3"), ("NAME", "app")]), &StrMap::new());
    assert!(warnings.is_empty());
    assert_eq!(render(&merged).ok().as_deref(), Some("NAME=app\nVERSION=1.2.3\n"));
}

#[test]
fn environment_wins_on_collision_and_warns() {
    let (merged, warnings) = merge_variables(&dotenv_map(&[("A", "1")]), &dotenv_map(&[("A", "2"), ("B", "3")]));
    assert_eq!(render(&merged).ok().as_deref(), Some("A=2\nB=3\n"));
    assert_eq!(
        warnings,
        vec!["Variable 'A' defined in both output and environment; using the environment value.".to_string()]
    );
}

#[test]
fn escapes_newlines_to_literal_backslash_n() {
    let (merged, _) = merge_variables(&dotenv_map(&[("NOTES", "line1\nline2\r")]), &StrMap::new());
    assert_eq!(render(&merged).ok().as_deref(), Some("NOTES=line1\\nline2\\r\n"));
}

#[test]
fn rejects_invalid_key() {
    let (merged, _) = merge_variables(&dotenv_map(&[("bad key", "x")]), &StrMap::new());
    assert_eq!(
        render(&merged).err().as_deref(),
        Some("Invalid variable name 'bad key' (must match [A-Za-z_][A-Za-z0-9_]*).")
    );
}

#[test]
fn key_rule_accepts_identifiers_only() {
    for good in ["A", "_x", "a_1", "Z9"] {
        assert!(render(&dotenv_map(&[(good, "v")])).is_ok(), "{good}");
    }
    for bad in ["", "1a", "a-b", "a\nb", "é"] {
        assert!(render(&dotenv_map(&[(bad, "v")])).is_err(), "{bad:?}");
    }
}

#[test]
fn rejects_path_traversal() {
    assert_eq!(
        check_file("../evil").err().as_deref(),
        Some("Invalid file path '../evil' (must be a relative path within the working directory).")
    );
    assert!(check_file("/etc/passwd").is_err());
    assert!(check_file("a/../b").is_err());
    assert!(check_file("a/..").is_err());
    assert!(check_file("a/..b/c").is_ok());
    assert!(check_file("./moonlit.env").is_ok());
}

#[test]
fn custom_file_name_is_honored() {
    assert!(check_file("custom.env").is_ok());
    assert_eq!(report_path("/wd", "custom.env", false), "/wd/custom.env");
    assert_eq!(report_path("/wd", "custom.env", true), "custom.env");
    assert_eq!(write_failed("custom.env", "denied"), "Failed to write 'custom.env': denied");
}

#[test]
fn empty_maps_succeed_without_writing() {
    let (merged, warnings) = merge_variables(&StrMap::new(), &StrMap::new());
    assert!(merged.is_empty());
    assert!(warnings.is_empty());
}

#[test]
fn default_file_is_moonlit_env() {
    assert_eq!(WriteVariablesConfig::default().file, "moonlit.env");
}

#[test]
fn https_remote_names_the_project_on_the_instance() {
    let c = context_from_remote_url("https://gitlab.com/group/project.git", "https://gitlab.com").unwrap();
    assert_eq!(c.project_id, "group%2Fproject");
    assert_eq!(c.api, "https://gitlab.com/api/v4");
    assert_eq!(c.web, "https://gitlab.com/group/project");
}

#[test]
fn ssh_remote_and_trailing_slash_base_are_read() {
    let c = context_from_remote_url("git@gitlab.com:group/sub/project.git", "https://gitlab.com/").unwrap();
    assert_eq!(c.project_id, "group%2Fsub%2Fproject");
    assert_eq!(c.api, "https://gitlab.com/api/v4");
    assert_eq!(c.web, "https://gitlab.com/group/sub/project");
}

#[test]
fn self_hosted_remote_without_git_suffix() {
    let c = context_from_remote_url("https://gl.example.com/team/app", "https://gl.example.com").unwrap();
    assert_eq!(c.project_id, "team%2Fapp");
    assert_eq!(c.web, "https://gl.example.com/team/app");
}

#[test]
fn remote_on_another_host_or_without_a_path_is_refused() {
    assert_eq!(
        context_from_remote_url("https://github.com/a/b.git", "https://gitlab.com").err().as_deref(),
        Some("Not a valid GitLab URL.")
    );
    assert_eq!(
        context_from_remote_url("https://gitlab.com/.git", "https://gitlab.com").err().as_deref(),
        Some("Not a valid GitLab URL.")
    );
}

#[test]
fn gitlab_annotation_plan_covers_merge_requests_then_issues() {
    let ctx = GitlabContext {
        project_id: "g%2Fp".to_string(),
        api: "https://gitlab.com/api/v4".to_string(),
        web: "https://gitlab.com/g/p".to_string(),
    };
    let plan = annotation_plan(&ctx, &vec![4], &vec![9], &Some("rel ease".to_string()));
    let got: Vec<(bool, &str, &str)> =
        plan.iter().map(|a| (matches!(a.kind, AnnotationKind::Label), a.path.as_str(), a.warning.as_str())).collect();
    assert_eq!(
        got,
        vec![
            (false, "/projects/g%2Fp/merge_requests/4/notes", "Failed to comment on merge request 4: "),
            (true, "/projects/g%2Fp/merge_requests/4?add_labels=rel%20ease", "Failed to label merge request 4: "),
            (false, "/projects/g%2Fp/issues/9/notes", "Failed to comment on issue 9: "),
            (true, "/projects/g%2Fp/issues/9?add_labels=rel%20ease", "Failed to label issue 9: "),
        ]
    );
    let unlabelled = annotation_plan(&ctx, &vec![4], &vec![], &None);
    assert_eq!(unlabelled.len(), 1);
    assert_eq!(unlabelled[0].path, "/projects/g%2Fp/merge_requests/4/notes");
}

#[test]
fn render_of_merge_lists_keys_ascending_with_environment_winning() {
    let (merged, _) = merge_variables(
        &dotenv_map(&[("B", "x"), ("A", "1")]),
        &dotenv_map(&[("A", "line\nbreak"), ("C", "z")]),
    );
    assert_eq!(render(&merged).unwrap(), "A=line\\nbreak\nB=x\nC=z\n");
}
