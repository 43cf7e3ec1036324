use moonlit_plugins::forge::{
    check_status, first_page_url, given_body, link_is_unordered, next_link, preflight, release_comment,
    request_headers, after_request, annotation_outcome, next_request, start_pass, Annotation, AnnotationKind, Forge,
};
use moonlit_plugins::github::related::{
    issue_from, issue_path, nothing_to_look_up, issue_plan, merged_pull_requests, newest_issues, pulls_path, referenced_issues,
    IssueFields, PullRequest, RelatedItemsConfig,
};
use moonlit_plugins::github::release::{
    annotation_plan, comment_path, comment_warning, label_path, label_warning, related_numbers, release_outputs, releases_path,
    CreateReleaseConfig,
};
use moonlit_plugins::github::variables::{
    append_args, not_set, render_lines, target_file, write_failed, write_steps, WriteVariablesConfig,
};
use moonlit_plugins::github::{api_base, context_from_remote, GithubContext, GithubPluginConfig};
use moonlit_plugins::strmap::StrMap;

fn owned(items: &[&str]) -> Vec<String> {
    items.iter().map(|s| s.to_string()).collect()
}

fn ctx_or() -> GithubContext {
    GithubContext { owner: "o".into(), repo: "r".into() }
}

fn pr(number: i64, body: &str, created: &str, sha: Option<&str>) -> PullRequest {
    PullRequest {
        number,
        title: format!("t{number}"),
        body: Some(body.to_string()),
        state: "closed".into(),
        created_at: created.into(),
        updated_at: "x".into(),
        merged_at: Some("y".into()),
        merge_commit_sha: sha.map(|s| s.to_string()),
    }
}

fn single(pairs: &[(&str, &str)]) -> StrMap {
    let mut m = StrMap::new();
    for (k, v) in pairs {
        m.insert(k.to_string(), v.to_string());
    }
    m
}

#[test]
fn config_blank_token_fails_with_exact_message() {
    let msg = GithubPluginConfig { token: "  ".into() }.validate().err().unwrap();
    assert_eq!(msg, "GitHub token is not configured.");
}

#[test]
fn config_present_token_passes() {
    assert!(GithubPluginConfig { token: "ghp_x".into() }.validate().is_ok());
}

#[test]
fn parses_https_url() {
    let c = context_from_remote("https://github.com/octo/Hello-World.git\n").ok().unwrap();
    assert_eq!(c.owner, "octo");
    assert_eq!(c.repo, "Hello-World");
    assert_eq!(c.commit_url_prefix(), "https://github.com/octo/Hello-World/commit/");
}

#[test]
fn parses_ssh_url() {
    let c = context_from_remote("git@github.com:me/repo.git").ok().unwrap();
    assert_eq!(c.owner, "me");
    assert_eq!(c.repo, "repo");
}

#[test]
fn parses_url_without_git_suffix() {
    let c = context_from_remote("https://github.com/me/repo").ok().unwrap();
    assert_eq!((c.owner.as_str(), c.repo.as_str()), ("me", "repo"));
}

#[test]
fn non_github_url_fails_with_exact_message() {
    assert_eq!(
        context_from_remote("https://gitlab.com/me/repo.git").err().as_deref(),
        Some("Not a valid GitHub URL.")
    );
}

#[test]
fn context_missing_origin_fails_with_exact_message() {
    assert_eq!(moonlit_plugins::git::remote_not_found("origin"), "Remote 'origin' not found.");
}

#[test]
fn lookalike_host_is_rejected() {
    assert_eq!(
        context_from_remote("https://evilgithub.com/me/repo.git").err().as_deref(),
        Some("Not a valid GitHub URL.")
    );
}

#[test]
fn get_attaches_canonical_headers_and_per_page() {
    assert_eq!(
        first_page_url(&api_base(), "/repos/o/r/pulls?state=all"),
        "https://api.github.com/repos/o/r/pulls?state=all&per_page=100"
    );
    assert_eq!(first_page_url(&api_base(), "/x"), "https://api.github.com/x?per_page=100");
    let h = request_headers(Forge::GitHub, "tok");
    assert!(h.contains(&("Authorization".to_string(), "Bearer tok".to_string())));
    assert!(h.contains(&("User-Agent".to_string(), "moonlit".to_string())));
    assert!(h.contains(&("Accept".to_string(), "application/vnd.github+json".to_string())));
    assert!(h.contains(&("X-GitHub-Api-Version".to_string(), "2022-11-28".to_string())));
}

#[test]
fn api_follows_link_header_to_second_page() {
    let link = "<https://api.github.com/x?page=2>; rel=\"next\"";
    assert!(!link_is_unordered(link));
    assert_eq!(next_link(link).as_deref(), Some("https://api.github.com/x?page=2"));
}

#[test]
fn next_link_picks_the_next_segment_among_several() {
    let link = "<https://a/x?page=1>; rel=\"prev\", <https://a/x?page=3>; rel=\"next\", <https://a/x?page=9>; rel=\"last\"";
    assert_eq!(next_link(link).as_deref(), Some("https://a/x?page=3"));
    assert_eq!(next_link("<https://a/x?page=9>; rel=\"last\""), None);
    assert_eq!(next_link("https://a/x; rel=\"next\""), None);
    assert!(link_is_unordered("> oops < rel=\"next\""));
}

#[test]
fn api_auth_error_maps_401() {
    let e = check_status(Forge::GitHub, false, 401, &Some("{}".into())).err().unwrap();
    assert!(e.contains("authentication failed"), "got: {e}");
    assert_eq!(e, "GitHub authentication failed (HTTP 401). Check the configured token.");
    assert_eq!(
        check_status(Forge::GitHub, false, 500, &Some("boom".into())).err().as_deref(),
        Some("GitHub API request failed (HTTP 500): boom")
    );
    assert!(check_status(Forge::GitHub, true, 201, &None).is_ok());
}

#[test]
fn create_release_blank_name_fails_before_http() {
    assert_eq!(
        preflight("", "v1", &Some("x".into()), true).err().as_deref(),
        Some("Release name is required.")
    );
}

#[test]
fn blank_tag_is_refused_after_the_name() {
    assert_eq!(preflight("1.0", " ", &Some("x".into()), true).err().as_deref(), Some("Release tag is required."));
}

#[test]
fn create_release_blank_body_and_empty_changelog_fails() {
    assert_eq!(
        preflight("1.0", "v1", &None, true).err().as_deref(),
        Some("Release body or changelog is required.")
    );
    assert!(preflight("1.0", "v1", &None, false).is_ok());
    assert!(preflight("1.0", "v1", &Some(" \n".into()), false).is_ok());
}

#[test]
fn create_release_creates_release_and_emits_name_and_url() {
    let cfg = CreateReleaseConfig {
        name: "1.0.0".into(),
        tag: "v1.0.0".into(),
        body: Some("notes".into()),
        ..Default::default()
    };
    assert!(preflight(&cfg.name, &cfg.tag, &cfg.body, true).is_ok());
    assert_eq!(given_body(&cfg.body).as_deref(), Some("notes"));
    assert_eq!(releases_path(&ctx_or()), "/repos/o/r/releases");
    let (name, url) = release_outputs(&Some("1.0.0".into()), &Some("https://github.com/o/r/releases/1".into()), &cfg.name);
    assert_eq!(name, "1.0.0");
    assert_eq!(url, "https://github.com/o/r/releases/1");
    let (name, url) = release_outputs(&None, &None, "fallback");
    assert_eq!((name.as_str(), url.as_str()), ("fallback", ""));
}

#[test]
fn absent_body_renders_changelog_into_release_body() {
    assert_eq!(given_body(&None), None);
    assert_eq!(given_body(&Some("   ".into())), None);
    assert_eq!(ctx_or().commit_url_prefix(), "https://github.com/o/r/commit/");
}

#[test]
fn comments_on_related_pull_request() {
    let cfg = CreateReleaseConfig {
        pull_requests: vec![7],
        issues: vec![9, 10],
        ..Default::default()
    };
    assert_eq!(related_numbers(&cfg), vec![7, 9, 10]);
    assert_eq!(comment_path(&ctx_or(), 7), "/repos/o/r/issues/7/comments");
    assert_eq!(label_path(&ctx_or(), 7), "/repos/o/r/issues/7/labels");
    assert_eq!(
        release_comment("1.0.0", "https://github.com/o/r/releases/1"),
        ":rocket: **New Release Published!**\n\n:tada: A new version of the project has just been released!\n\n**:bookmark: Link:** [`1.0.0`](https://github.com/o/r/releases/1)"
    );
    assert_eq!(comment_warning(7, "boom"), "Failed to comment on #7: boom");
    assert_eq!(label_warning(-3, "x"), "Failed to label #-3: x");
}

#[test]
fn related_items_empty_commits_succeeds_without_http() {
    let cfg = RelatedItemsConfig::default();
    assert_eq!(nothing_to_look_up(&cfg).as_deref(), Some("No commits provided; skipping related-items lookup."));
    assert!(cfg.include_pull_requests && cfg.include_issues);
    let cfg = RelatedItemsConfig {
        commits: owned(&["aaa"]),
        ..Default::default()
    };
    assert_eq!(nothing_to_look_up(&cfg), None);
    assert!(merged_pull_requests(vec![pr(1, "", "a", Some("aaa"))], &Vec::new()).is_empty());
}

#[test]
fn keeps_prs_matching_merge_commit_sha_and_emits_alias() {
    let prs = vec![
        pr(7, "", "2026-02-01T00:00:00Z", Some("aaa")),
        pr(8, "", "2026-03-01T00:00:00Z", Some("zzz")),
        pr(9, "", "2026-04-01T00:00:00Z", None),
    ];
    let kept = merged_pull_requests(prs, &owned(&["aaa"]));
    assert_eq!(kept.len(), 1);
    assert_eq!(kept[0].number, 7);
    assert_eq!(kept[0].merge_commit_sha.as_deref(), Some("aaa"));
    assert_eq!(pulls_path(&ctx_or()), "/repos/o/r/pulls?state=all");
}

#[test]
fn merged_pull_requests_are_newest_first_and_stable() {
    let prs = vec![
        pr(1, "", "2026-01-01T00:00:00Z", Some("a")),
        pr(2, "", "2026-05-01T00:00:00Z", Some("b")),
        pr(3, "", "2026-01-01T00:00:00Z", Some("c")),
        pr(4, "", "2026-03-01T00:00:00Z", Some("d")),
    ];
    let kept = merged_pull_requests(prs, &owned(&["a", "b", "c", "d"]));
    let order: Vec<i64> = kept.iter().map(|p| p.number).collect();
    assert_eq!(order, vec![2, 4, 1, 3]);
}

#[test]
fn links_issue_referenced_by_pr_body() {
    let prs = merged_pull_requests(vec![pr(7, "Fixes #42", "2026-02-01T00:00:00Z", Some("aaa"))], &owned(&["aaa"]));
    let plan = issue_plan(&prs);
    assert_eq!(plan, vec![(42, 7)]);
    assert_eq!(issue_path(&ctx_or(), 42), "/repos/o/r/issues/42");
    let fields = IssueFields {
        number: Some(42),
        title: "bug".into(),
        body: Some("b".into()),
        state: "closed".into(),
        created_at: "2026-01-01T00:00:00Z".into(),
        updated_at: "x".into(),
        closed_at: Some("z".into()),
    };
    let issue = issue_from(fields, plan[0].0, plan[0].1);
    assert_eq!(issue.number, 42);
    assert_eq!(issue.pull_request_number, 7);
    assert_eq!(issue.title, "bug");
}

#[test]
fn issue_number_falls_back_to_the_planned_one() {
    let fields = IssueFields {
        number: None,
        title: String::new(),
        body: None,
        state: String::new(),
        created_at: String::new(),
        updated_at: String::new(),
        closed_at: None,
    };
    assert_eq!(issue_from(fields, 5, 1).number, 5);
}

#[test]
fn referenced_issues_reads_every_closing_keyword_in_order() {
    assert_eq!(
        referenced_issues("Closes #1, fixed #2 and RESOLVES   #3; see #4; fix#5; prefixfix #6"),
        vec![1, 2, 3]
    );
    assert_eq!(referenced_issues("fixes #99999999999999999999 then close #7"), vec![7]);
    assert!(referenced_issues("nothing here").is_empty());
}

#[test]
fn issue_plan_fetches_each_issue_once_for_its_first_pull_request() {
    let prs = vec![
        pr(8, "fixes #42 and closes #43", "2", Some("b")),
        pr(7, "resolves #42, fixes #44, fixes #44", "1", Some("a")),
    ];
    assert_eq!(issue_plan(&prs), vec![(42, 8), (43, 8), (44, 7)]);
}

#[test]
fn issues_are_ordered_newest_first() {
    let mk = |n: i64, c: &str| {
        issue_from(
            IssueFields {
                number: Some(n),
                title: String::new(),
                body: None,
                state: String::new(),
                created_at: c.into(),
                updated_at: String::new(),
                closed_at: None,
            },
            n,
            1,
        )
    };
    let out = newest_issues(vec![mk(1, "2026-01"), mk(2, "2026-03"), mk(3, "2026-02")]);
    let order: Vec<i64> = out.iter().map(|i| i.number).collect();
    assert_eq!(order, vec![2, 3, 1]);
}

#[test]
fn unset_output_var_fails_with_exact_message() {
    assert_eq!(target_file(&None), None);
    assert_eq!(target_file(&Some(String::new())), None);
    assert_eq!(not_set("GITHUB_OUTPUT"), "GITHUB_OUTPUT is not set.");
}

#[test]
fn appends_single_line_via_sh_stdin() {
    assert_eq!(target_file(&Some("/tmp/out".into())).as_deref(), Some("/tmp/out"));
    assert_eq!(append_args("/tmp/out"), owned(&["-c", "cat >> \"$1\"", "sh", "/tmp/out"]));
    assert_eq!(render_lines(&single(&[("version", "1.2.3")])).ok().as_deref(), Some("version=1.2.3\n"));
    assert_eq!(write_failed("GITHUB_OUTPUT", 2), "Failed to write GITHUB_OUTPUT (exit code 2).");
}

#[test]
fn multiline_value_uses_heredoc() {
    assert_eq!(
        render_lines(&single(&[("notes", "line1\nline2")])).ok().as_deref(),
        Some("notes<<EOF\nline1\nline2\nEOF\n")
    );
}

#[test]
fn value_with_eof_delimiter_line_is_refused() {
    assert_eq!(
        render_lines(&single(&[("notes", "safe\nEOF\nPATH=/evil")])).err().as_deref(),
        Some("Refusing to write 'notes': value contains a line equal to the heredoc delimiter 'EOF'.")
    );
}

#[test]
fn eof_refusal_trims_lines_and_ignores_single_line_values() {
    assert!(render_lines(&single(&[("a", "x\n  EOF\r")])).is_err());
    assert!(render_lines(&single(&[("a", "x\nEOFX")])).is_ok());
    assert_eq!(render_lines(&single(&[("a", "EOF")])).ok().as_deref(), Some("a=EOF\n"));
    assert_eq!(
        render_lines(&single(&[("b", "1"), ("a", "x\nEOF"), ("c", "y\nEOF")])).err().as_deref(),
        Some("Refusing to write 'a': value contains a line equal to the heredoc delimiter 'EOF'.")
    );
}

#[test]
fn write_steps_go_output_then_environment_and_skip_empty_maps() {
    let cfg = WriteVariablesConfig {
        output: single(&[("b", "2"), ("a", "1")]),
        environment: StrMap::new(),
    };
    let steps = write_steps(&cfg);
    assert_eq!(steps.len(), 1);
    assert_eq!(steps[0].var, "GITHUB_OUTPUT");
    assert_eq!(steps[0].content.as_deref().ok(), Some("a=1\nb=2\n"));
    let cfg = WriteVariablesConfig {
        output: single(&[("a", "1")]),
        environment: single(&[("E", "x\nEOF")]),
    };
    let steps = write_steps(&cfg);
    assert_eq!(steps.len(), 2);
    assert_eq!(steps[1].var, "GITHUB_ENV");
    assert!(steps[1].content.is_err());
    assert!(write_steps(&WriteVariablesConfig::default()).is_empty());
}

fn kinds(plan: &[Annotation]) -> Vec<bool> {
    plan.iter().map(|a| matches!(a.kind, AnnotationKind::Label)).collect()
}

#[test]
fn annotation_plan_comments_then_labels_each_item_in_order() {
    let ctx = GithubContext { owner: "o".to_string(), repo: "r".to_string() };
    let mut cfg = CreateReleaseConfig::default();
    cfg.pull_requests = vec![3];
    cfg.issues = vec![7];
    cfg.label = Some("released".to_string());
    let plan = annotation_plan(&ctx, &cfg);
    assert_eq!(kinds(&plan), vec![false, true, false, true]);
    let paths: Vec<&str> = plan.iter().map(|a| a.path.as_str()).collect();
    assert_eq!(
        paths,
        vec!["/repos/o/r/issues/3/comments", "/repos/o/r/issues/3/labels", "/repos/o/r/issues/7/comments", "/repos/o/r/issues/7/labels"]
    );
    assert_eq!(plan[0].warning, "Failed to comment on #3: ");
    assert_eq!(plan[3].warning, "Failed to label #7: ");
}

#[test]
fn annotation_plan_without_label_only_comments() {
    let ctx = GithubContext { owner: "o".to_string(), repo: "r".to_string() };
    let mut cfg = CreateReleaseConfig::default();
    cfg.pull_requests = vec![1, 2];
    let plan = annotation_plan(&ctx, &cfg);
    assert_eq!(kinds(&plan), vec![false, false]);
    assert_eq!(plan[1].path, "/repos/o/r/issues/2/comments");
}

#[test]
fn failed_annotation_only_yields_its_warning() {
    let a = Annotation { kind: AnnotationKind::Comment, path: "/p".to_string(), warning: "Failed to comment on #3: ".to_string() };
    assert_eq!(annotation_outcome(&a, &Ok(())), None);
    assert_eq!(
        annotation_outcome(&a, &Err("HTTP 500".to_string())).as_deref(),
        Some("Failed to comment on #3: HTTP 500")
    );
}

#[test]
fn annotation_pass_goes_on_after_a_failure() {
    let ctx = GithubContext { owner: "o".to_string(), repo: "r".to_string() };
    let mut cfg = CreateReleaseConfig::default();
    cfg.pull_requests = vec![1, 2];
    let mut pass = start_pass(annotation_plan(&ctx, &cfg));
    let mut sent = Vec::new();
    let mut logged = Vec::new();
    while let Some(i) = next_request(&pass) {
        sent.push(pass.plan[i].path.clone());
        let result = if i == 0 { Err("HTTP 500".to_string()) } else { Ok(()) };
        let (next, warning) = after_request(pass, &result);
        logged.extend(warning);
        pass = next;
    }
    assert_eq!(sent, vec!["/repos/o/r/issues/1/comments", "/repos/o/r/issues/2/comments"]);
    assert_eq!(logged, vec!["Failed to comment on #1: HTTP 500".to_string()]);
    assert_eq!(pass.warnings, logged);
}
