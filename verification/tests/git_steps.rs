use moonlit_plugins::git::{
    boundary_source, check_tag_name, commit_range, current_branch_args, for_each_ref_args, git_failure,
    invalid_tag_pattern, log_args, no_matching_tags, no_upstream_warning, not_a_repo, origin_url_args,
    parse_commits, push_commands, push_failure, remote_get_url_args, remote_not_found, repo_probe_args,
    rev_parse_args, select_latest_tag, tag_create_args, tag_exists_warning, tag_list_args, tag_listed,
    tag_pattern, tag_pattern_source, trimmed_output, unresolved_since, BoundarySource, CommitsConfig,
    LatestTagConfig, PushConfig, TagConfig,
};

const LOG_FORMAT: &str = "--format=%H%x1f%an%x1f%ae%x1f%aI%x1f%B%x1e";

fn strings(items: &[&str]) -> Vec<String> {
    items.iter().map(|s| s.to_string()).collect()
}

fn log_payload() -> &'static str {
    "aaa\u{1f}Ada\u{1f}ada@x\u{1f}2026-01-02T00:00:00Z\u{1f}fix: two\nbody line\u{1e}\nbbb\u{1f}Bob\u{1f}bob@x\u{1f}2026-01-01T00:00:00Z\u{1f}feat: one\u{1e}"
}

/// The range `commits` logs for a configuration whose boundary needs no
/// lookup, given the SHA the shared context holds.
fn range_for(cfg: &CommitsConfig, shared: Option<&str>) -> String {
    let boundary = match boundary_source(cfg) {
        BoundarySource::Sha(s) => Some(s),
        BoundarySource::Resolve(_) => panic!("needs a lookup"),
        BoundarySource::Shared => shared.map(|s| s.to_string()),
        BoundarySource::Unbounded => None,
    };
    commit_range(&boundary, &cfg.until)
}

#[test]
fn ensure_repo_ok_when_git_dir_resolves() {
    assert_eq!(repo_probe_args(), strings(&["rev-parse", "--git-dir"]));
}

#[test]
fn ensure_repo_maps_failure_to_canonical_message() {
    assert_eq!(not_a_repo(), "Not a git repository (or any of the parent directories)");
}

#[test]
fn not_a_repo_fails_with_canonical_message() {
    assert_eq!(not_a_repo(), "Not a git repository (or any of the parent directories)");
}

#[test]
fn parses_multiline_messages_and_counts() {
    let details = parse_commits(log_payload());
    assert_eq!(details.len(), 2);
    assert_eq!(details[0].sha, "aaa");
    assert_eq!(details[0].author, "Ada");
    assert_eq!(details[0].email, "ada@x");
    assert_eq!(details[0].message, "fix: two\nbody line");
    assert_eq!(details[0].date, "2026-01-02T00:00:00Z");
    assert_eq!(details[1].sha, "bbb");
    assert_eq!(details[1].message, "feat: one");
    let range = range_for(&CommitsConfig::default(), None);
    assert_eq!(log_args(&range), strings(&["log", LOG_FORMAT, "--end-of-options", "HEAD"]));
}

#[test]
fn parse_commits_keeps_separator_in_message_and_drops_short_records() {
    let raw = "s1\u{1f}a\u{1f}e\u{1f}d\u{1f}m\u{1f}more\u{1e}only\u{1f}three\u{1f}fields\u{1e}  \u{1e}s2\u{1f}b\u{1f}f\u{1f}d2";
    let c = parse_commits(raw);
    assert_eq!(c.len(), 2);
    assert_eq!(c[0].message, "m\u{1f}more");
    assert_eq!(c[1].sha, "s2");
    assert_eq!(c[1].message, "");
    assert!(parse_commits("").is_empty());
}

#[test]
fn shared_context_boundary_excludes_tag_commit() {
    let range = range_for(&CommitsConfig::default(), Some("tagsha"));
    assert_eq!(log_args(&range), strings(&["log", LOG_FORMAT, "--end-of-options", "tagsha..HEAD"]));
}

#[test]
fn since_sha_takes_precedence_over_shared() {
    let cfg = CommitsConfig {
        since_sha: Some("explicit".to_string()),
        ..Default::default()
    };
    let range = range_for(&cfg, Some("ignored"));
    assert_eq!(log_args(&range), strings(&["log", LOG_FORMAT, "--end-of-options", "explicit..HEAD"]));
    assert_eq!(parse_commits("").len(), 0);
}

#[test]
fn unresolvable_since_fails() {
    let cfg = CommitsConfig {
        since: Some("nope".to_string()),
        ..Default::default()
    };
    match boundary_source(&cfg) {
        BoundarySource::Resolve(s) => assert_eq!(unresolved_since(&s), "Could not resolve 'since' reference: nope"),
        _ => panic!("since must be resolved"),
    }
}

#[test]
fn since_ref_is_resolved_then_used_as_boundary() {
    let cfg = CommitsConfig {
        since: Some("main".to_string()),
        ..Default::default()
    };
    let since = match boundary_source(&cfg) {
        BoundarySource::Resolve(s) => s,
        _ => panic!("since must be resolved"),
    };
    assert_eq!(rev_parse_args(&since), strings(&["rev-parse", "--verify", "--end-of-options", "main"]));
    let resolved = Some(trimmed_output("resolvedsha\n"));
    let range = commit_range(&resolved, &cfg.until);
    assert_eq!(log_args(&range), strings(&["log", LOG_FORMAT, "--end-of-options", "resolvedsha..HEAD"]));
}

#[test]
fn shared_context_off_and_empty_strings_mean_unbounded() {
    let cfg = CommitsConfig {
        since_sha: Some(String::new()),
        since: Some(String::new()),
        use_shared_context: false,
        ..Default::default()
    };
    assert!(matches!(boundary_source(&cfg), BoundarySource::Unbounded));
}

fn latest(cfg: &LatestTagConfig, listing: &str) -> Option<(String, String, String)> {
    let re = tag_pattern(cfg).ok().expect("pattern compiles");
    select_latest_tag(&re, listing, &cfg.prefix, &cfg.suffix).map(|m| (m.name, m.full_name, m.commit_sha))
}

#[test]
fn matches_prefixed_tag_strips_prefix_and_stores_sha() {
    let cfg = LatestTagConfig {
        prefix: "v".to_string(),
        ..Default::default()
    };
    let (name, full, sha) = latest(&cfg, "v2.1.0 aaaaaaaaaaaaaaaaaaaaaaaaaaaaaaaaaaaaaaaa ").unwrap();
    assert_eq!(name, "2.1.0");
    assert_eq!(full, "v2.1.0");
    assert_eq!(sha, "aaaaaaaaaaaaaaaaaaaaaaaaaaaaaaaaaaaaaaaa");
    assert_eq!(
        for_each_ref_args(),
        strings(&[
            "for-each-ref",
            "--sort=-creatordate",
            "--format=%(refname:short) %(objectname) %(*objectname)",
            "refs/tags",
        ])
    );
}

#[test]
fn annotated_tag_uses_peeled_commit() {
    let (_, _, sha) = latest(
        &LatestTagConfig::default(),
        "1.0.0 tttttttttttttttttttttttttttttttttttttttt cccccccccccccccccccccccccccccccccccccccc",
    )
    .unwrap();
    assert_eq!(sha, "cccccccccccccccccccccccccccccccccccccccc");
}

#[test]
fn no_match_warns_and_succeeds_without_outputs() {
    assert!(latest(&LatestTagConfig::default(), "release-candidate zzzz ").is_none());
    assert_eq!(no_matching_tags(), "No matching tags found.");
}

#[test]
fn bad_pattern_fails() {
    let cfg = LatestTagConfig {
        pattern: "[".to_string(),
        ..Default::default()
    };
    let e = tag_pattern(&cfg).err().unwrap();
    assert!(e.starts_with("Invalid tag pattern:"));
    assert_eq!(e, invalid_tag_pattern("["));
}

#[test]
fn latest_tag_skips_blank_lines_takes_first_match_and_ignores_case() {
    let cfg = LatestTagConfig {
        prefix: "V".to_string(),
        suffix: "-final".to_string(),
        ..Default::default()
    };
    let listing = "\n  \nnot-a-tag x \r\nv3.0.0-FINAL s3 \nv2.0.0-final s2 \n";
    let (name, full, sha) = latest(&cfg, listing).unwrap();
    assert_eq!(full, "v3.0.0-FINAL");
    assert_eq!(name, "v3.0.0-FINAL");
    assert_eq!(sha, "s3");
    assert_eq!(tag_pattern_source(&cfg), "^V[0-9]+.[0-9]+.[0-9]+.*-final$");
}

#[test]
fn blank_name_fails_before_touching_git() {
    assert_eq!(check_tag_name("   ").err().as_deref(), Some("Tag name cannot be empty."));
    assert!(check_tag_name("v1").is_ok());
}

#[test]
fn existing_tag_warns_and_succeeds() {
    assert!(tag_listed("v1.0.0\n"));
    assert!(!tag_listed("  \n"));
    assert_eq!(tag_exists_warning("v1.0.0"), "Tag 'v1.0.0' already exists.");
}

#[test]
fn lightweight_tag_when_no_message() {
    let cfg = TagConfig {
        tag_name: "v2.0.0".to_string(),
        ..Default::default()
    };
    assert_eq!(tag_create_args(&cfg), strings(&["tag", "--end-of-options", "v2.0.0"]));
    let cfg = TagConfig {
        tag_name: "v2.0.0".to_string(),
        message: Some(String::new()),
    };
    assert_eq!(tag_create_args(&cfg), strings(&["tag", "--end-of-options", "v2.0.0"]));
}

#[test]
fn annotated_tag_when_message_present() {
    let cfg = TagConfig {
        tag_name: "v2.0.0".to_string(),
        message: Some("release 2.0.0".to_string()),
    };
    assert_eq!(
        tag_create_args(&cfg),
        strings(&["tag", "-a", "-m", "release 2.0.0", "--end-of-options", "v2.0.0"])
    );
}

#[test]
fn dash_leading_tag_name_is_guarded_by_end_of_options() {
    let cfg = TagConfig {
        tag_name: "-d".to_string(),
        ..Default::default()
    };
    assert_eq!(tag_list_args(&cfg.tag_name), strings(&["tag", "-l", "--end-of-options", "-d"]));
    assert_eq!(tag_create_args(&cfg), strings(&["tag", "--end-of-options", "-d"]));
}

#[test]
fn emits_branch_and_remote_url() {
    assert_eq!(current_branch_args(), strings(&["rev-parse", "--abbrev-ref", "HEAD"]));
    assert_eq!(origin_url_args(), strings(&["remote", "get-url", "origin"]));
    assert_eq!(trimmed_output("main\n"), "main");
    assert_eq!(trimmed_output(" git@github.com:me/repo.git \n"), "git@github.com:me/repo.git");
}

#[test]
fn repo_context_missing_origin_fails_with_exact_message() {
    assert_eq!(remote_not_found("origin"), "Remote 'origin' not found.");
}

#[test]
fn pushes_branch_and_tags_by_default() {
    let cmds = push_commands(&PushConfig::default());
    assert_eq!(cmds.len(), 2);
    assert_eq!(cmds[0], strings(&["push", "--end-of-options", "origin", "HEAD"]));
    assert_eq!(cmds[1], strings(&["push", "--tags", "--end-of-options", "origin"]));
    assert_eq!(remote_get_url_args("origin"), strings(&["remote", "get-url", "--end-of-options", "origin"]));
}

#[test]
fn missing_remote_fails() {
    assert_eq!(remote_not_found("upstream"), "Remote 'upstream' not found.");
}

#[test]
fn no_upstream_warns_but_succeeds() {
    assert_eq!(no_upstream_warning(), "current branch has no upstream configured");
}

#[test]
fn skips_tags_when_disabled() {
    let cfg = PushConfig {
        push_tags: false,
        ..Default::default()
    };
    assert_eq!(push_commands(&cfg).len(), 1);
}

#[test]
fn auth_failure_maps_to_hint() {
    assert!(push_failure("git@github.com: Permission denied (publickey).", 128).contains("Git authentication failed"));
    assert!(push_failure("fatal: could not read Username for 'https://x'", 128).contains("Git authentication failed"));
    assert_eq!(push_failure("fatal: network down", 128), "Git command failed with exit code 128");
    assert_eq!(git_failure(1), "Git command failed with exit code 1");
}
