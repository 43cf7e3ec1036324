//! The `git` plugin: repository context, latest matching tag, commits in a
//! range, tagging and pushing. Command lines, the reading of `git` output and
//! every decision between commands are made here; running `git` is the
//! caller's part.

use vstd::prelude::*;
use crate::paths::join_pieces;
use crate::rx::{compile, is_match, regex_is_match, regex_valid, Pattern};
use crate::text::{
    blank, cat, cat3, chars_of, contains, copy, dec, ends_with, fmt_i32, starts_with_chars,
    is_blank, join_with, occurs_at, opt_str, push_if, push_str, split_chars, split_on,
    starts_with, string_from, string_of, strs, trim, trim_bounds,
};

verus! {

// ---------------------------------------------------------------------------
// Shared
// ---------------------------------------------------------------------------

/// The canonical failure when the working directory is not a repository.
pub fn not_a_repo() -> (r: String)
    ensures
        r@ == "Not a git repository (or any of the parent directories)"@,
{
    String::from_str("Not a git repository (or any of the parent directories)")
}

/// The argv of the repository probe `git rev-parse --git-dir`.
pub fn repo_probe_args() -> (r: Vec<String>)
    ensures
        strs(r@) == seq!["rev-parse"@, "--git-dir"@],
{
    let mut a: Vec<String> = Vec::new();
    push_str(&mut a, "rev-parse");
    push_str(&mut a, "--git-dir");
    a
}

/// The failure of a `git` command that exited non-zero.
pub fn git_failure(code: i32) -> (r: String)
    ensures
        r@ == "Git command failed with exit code "@ + dec(code as int),
{
    let n = fmt_i32(code);
    cat("Git command failed with exit code ", n.as_str())
}

/// A command's standard output, trimmed.
pub fn trimmed_output(stdout: &str) -> (r: String)
    ensures
        r@ == trim(stdout@),
{
    crate::text::trim_str(stdout)
}

// ---------------------------------------------------------------------------
// commits
// ---------------------------------------------------------------------------

/// The `git log` format: field separator 0x1f, record separator 0x1e; the raw
/// body comes last so its newlines never collide with the separators.
pub open spec fn log_format() -> Seq<char> {
    "--format=%H%x1f%an%x1f%ae%x1f%aI%x1f%B%x1e"@
}

/// The `commits` step's configuration.
pub struct CommitsConfig {
    pub since_sha: Option<String>,
    pub use_shared_context: bool,
    pub since: Option<String>,
    pub until: String,
}

impl Default for CommitsConfig {
    fn default() -> (r: Self)
        ensures
            r.since_sha is None,
            r.use_shared_context,
            r.since is None,
            r.until@ == "HEAD"@,
    {
        CommitsConfig {
            since_sha: None,
            use_shared_context: true,
            since: None,
            until: String::from_str("HEAD"),
        }
    }
}

/// Where the lower boundary of the commit range comes from.
pub enum BoundarySource {
    /// An explicit commit SHA.
    Sha(String),
    /// A reference to resolve with `git rev-parse`.
    Resolve(String),
    /// The SHA recorded by `latest-tag`, if any.
    Shared,
    /// No boundary: everything reachable from `until`.
    Unbounded,
}

/// A present, non-empty string (`Option::filter(|s| !s.is_empty())`).
pub open spec fn non_empty(o: Option<String>) -> bool {
    o is Some && o->0@.len() > 0
}

/// Decides the boundary: `sinceSha` wins, then `since`, then the shared
/// context when enabled.
pub fn boundary_source(cfg: &CommitsConfig) -> (r: BoundarySource)
    ensures
        non_empty(cfg.since_sha) ==> (r matches BoundarySource::Sha(s) && s@ == cfg.since_sha->0@),
        !non_empty(cfg.since_sha) && non_empty(cfg.since) ==> (r matches BoundarySource::Resolve(s) && s@ == cfg.since->0@),
        !non_empty(cfg.since_sha) && !non_empty(cfg.since) ==> (r is Shared <==> cfg.use_shared_context) && (r is Unbounded <==> !cfg.use_shared_context),
{
    match &cfg.since_sha {
        Some(s) => if s.as_str().unicode_len() > 0 {
            return BoundarySource::Sha(copy(s.as_str()));
        },
        None => {},
    }
    match &cfg.since {
        Some(s) => if s.as_str().unicode_len() > 0 {
            return BoundarySource::Resolve(copy(s.as_str()));
        },
        None => {},
    }
    if cfg.use_shared_context {
        BoundarySource::Shared
    } else {
        BoundarySource::Unbounded
    }
}

/// The argv resolving `since` to a single SHA. `--end-of-options` keeps a
/// `-`-leading value from being read as a flag.
pub fn rev_parse_args(since: &str) -> (r: Vec<String>)
    ensures
        strs(r@) == seq!["rev-parse"@, "--verify"@, "--end-of-options"@, since@],
{
    let mut a: Vec<String> = Vec::new();
    push_str(&mut a, "rev-parse");
    push_str(&mut a, "--verify");
    push_str(&mut a, "--end-of-options");
    push_str(&mut a, since);
    a
}

/// The failure when `since` cannot be resolved.
pub fn unresolved_since(since: &str) -> (r: String)
    ensures
        r@ == "Could not resolve 'since' reference: "@ + since@,
{
    cat("Could not resolve 'since' reference: ", since)
}

/// The revision range: `boundary..until`, or `until` alone.
pub fn commit_range(boundary: &Option<String>, until: &str) -> (r: String)
    ensures
        r@ == match opt_str(*boundary) {
            Some(b) => b + ".."@ + until@,
            None => until@,
        },
{
    match boundary {
        Some(b) => cat3(b.as_str(), "..", until),
        None => copy(until),
    }
}

/// The argv of `git log` over `range`. `--end-of-options` makes the range a
/// revision even when it starts with `-`.
pub fn log_args(range: &str) -> (r: Vec<String>)
    ensures
        strs(r@) == seq!["log"@, log_format(), "--end-of-options"@, range@],
{
    let mut a: Vec<String> = Vec::new();
    push_str(&mut a, "log");
    push_str(&mut a, "--format=%H%x1f%an%x1f%ae%x1f%aI%x1f%B%x1e");
    push_str(&mut a, "--end-of-options");
    push_str(&mut a, range);
    a
}

/// One commit of the log.
pub struct Commit {
    pub sha: String,
    pub author: String,
    pub email: String,
    pub date: String,
    pub message: String,
}

/// A commit's fields: sha, author, email, date, message.
pub type CommitFields = (Seq<char>, Seq<char>, Seq<char>, Seq<char>, Seq<char>);

/// The view of a commit.
pub open spec fn commit_view(c: Commit) -> CommitFields {
    (c.sha@, c.author@, c.email@, c.date@, c.message@)
}

/// The fields of one record: the first four `0x1f`-separated pieces, then the
/// rest (which may hold `0x1f` itself, as `splitn(5, ..)` leaves it); `None`
/// with fewer than four pieces.
pub open spec fn record_fields(record: Seq<char>) -> Option<CommitFields> {
    let f = split_on(record, '\u{1f}');
    if f.len() < 4 {
        None
    } else {
        Some((f[0], f[1], f[2], f[3], if f.len() > 4 {
            join_with(f.subrange(4, f.len() as int), '\u{1f}')
        } else {
            Seq::<char>::empty()
        }))
    }
}

/// The commits of the records: each record trimmed, blank ones skipped, and
/// those with fewer than four fields dropped.
pub open spec fn commits_of(records: Seq<Seq<char>>) -> Seq<CommitFields>
    decreases records.len(),
{
    if records.len() == 0 {
        Seq::empty()
    } else {
        let r = trim(records.last());
        commits_of(records.drop_last()) + if r.len() > 0 && record_fields(r) is Some {
            seq![record_fields(r)->0]
        } else {
            Seq::<CommitFields>::empty()
        }
    }
}

/// Reads `git log` output in the fixed format into commits, newest first:
/// records are separated by 0x1e and trimmed, fields by 0x1f.
pub fn parse_commits(raw: &str) -> (r: Vec<Commit>)
    ensures
        r@.map_values(|c: Commit| commit_view(c)) == commits_of(split_on(raw@, '\u{1e}')),
{
    let v = chars_of(raw);
    let records = split_chars(&v, '\u{1e}');
    let ghost recs = split_on(raw@, '\u{1e}');
    let mut out: Vec<Commit> = Vec::new();
    let mut i: usize = 0;
    while i < records.len()
        invariant
            i <= records.len(),
            records@.len() == recs.len(),
            forall|k: int| 0 <= k < records@.len() ==> (#[trigger] records@[k])@ == recs[k],
            out@.map_values(|c: Commit| commit_view(c)) == commits_of(recs.subrange(0, i as int)),
        decreases records.len() - i,
    {
        let rec = &records[i];
        let (lo, hi) = trim_bounds(rec);
        let ghost t = trim(recs[i as int]);
        assert(rec@ == recs[i as int]);
        let ghost before = out@;
        if lo < hi {
            let mut body: Vec<char> = Vec::new();
            let mut k = lo;
            while k < hi
                invariant
                    lo <= k <= hi <= rec.len(),
                    body@ == rec@.subrange(lo as int, k as int),
                decreases hi - k,
            {
                body.push(rec[k]);
                assert(rec@.subrange(lo as int, k + 1) == rec@.subrange(lo as int, k as int).push(rec@[k as int]));
                k = k + 1;
            }
            assert(body@ == t);
            let fields = split_chars(&body, '\u{1f}');
            let ghost fv = split_on(t, '\u{1f}');
            if fields.len() >= 4 {
                let message = if fields.len() > 4 {
                    let m = join_pieces(&fields, 4, fields.len(), '\u{1f}');
                    assert(fields@.subrange(4, fields@.len() as int).map_values(|w: Vec<char>| w@) =~= fv.subrange(4, fv.len() as int));
                    string_from(&m)
                } else {
                    String::new()
                };
                let c = Commit {
                    sha: string_from(&fields[0]),
                    author: string_from(&fields[1]),
                    email: string_from(&fields[2]),
                    date: string_from(&fields[3]),
                    message,
                };
                out.push(c);
                proof {
                    assert(commit_view(c) == record_fields(t)->0);
                    assert(out@.map_values(|c: Commit| commit_view(c)) =~= before.map_values(|c: Commit| commit_view(c)).push(commit_view(c)));
                }
            }
        }
        proof {
            let sub = recs.subrange(0, i + 1);
            assert(sub.drop_last() =~= recs.subrange(0, i as int));
            assert(sub.last() == recs[i as int]);
            if !(lo < hi) {
                assert(t.len() == 0);
            }
            assert(out@.map_values(|c: Commit| commit_view(c)) =~= commits_of(sub));
        }
        i = i + 1;
    }
    assert(recs.subrange(0, records@.len() as int) =~= recs);
    out
}

// ---------------------------------------------------------------------------
// latest-tag
// ---------------------------------------------------------------------------

/// The `latest-tag` step's configuration.
pub struct LatestTagConfig {
    pub prefix: String,
    pub suffix: String,
    pub pattern: String,
}

impl Default for LatestTagConfig {
    fn default() -> (r: Self)
        ensures
            r.prefix@ == Seq::<char>::empty(),
            r.suffix@ == Seq::<char>::empty(),
            r.pattern@ == "[0-9]+.[0-9]+.[0-9]+.*"@,
    {
        LatestTagConfig {
            prefix: String::new(),
            suffix: String::new(),
            pattern: String::from_str("[0-9]+.[0-9]+.[0-9]+.*"),
        }
    }
}

/// The anchored, case-insensitive regex a tag name must match.
pub open spec fn tag_source(cfg: LatestTagConfig) -> Seq<char> {
    "^"@ + cfg.prefix@ + cfg.pattern@ + cfg.suffix@ + "$"@
}

/// The tag regex source `^{prefix}{pattern}{suffix}$`.
pub fn tag_pattern_source(cfg: &LatestTagConfig) -> (r: String)
    ensures
        r@ == tag_source(*cfg),
{
    let a = cat3("^", cfg.prefix.as_str(), cfg.pattern.as_str());
    cat3(a.as_str(), cfg.suffix.as_str(), "$")
}

/// The failure for a pattern that does not compile.
pub fn invalid_tag_pattern(pattern: &str) -> (r: String)
    ensures
        r@ == "Invalid tag pattern: "@ + pattern@,
{
    cat("Invalid tag pattern: ", pattern)
}

/// Compiles the tag pattern (`^{prefix}{pattern}{suffix}$`, any case); a
/// pattern that does not compile is refused with its text.
pub fn tag_pattern(cfg: &LatestTagConfig) -> (r: Result<Pattern, String>)
    ensures
        r is Ok <==> regex_valid(tag_source(*cfg), true),
        r matches Ok(p) ==> p.source() == tag_source(*cfg) && p.case_insensitive(),
        r matches Err(e) ==> e@ == "Invalid tag pattern: "@ + cfg.pattern@,
{
    let source = tag_pattern_source(cfg);
    match compile(source.as_str(), true) {
        Some(p) => Ok(p),
        None => Err(invalid_tag_pattern(cfg.pattern.as_str())),
    }
}

/// The argv listing tags newest first with their object and peeled commit.
pub fn for_each_ref_args() -> (r: Vec<String>)
    ensures
        strs(r@) == seq![
            "for-each-ref"@,
            "--sort=-creatordate"@,
            "--format=%(refname:short) %(objectname) %(*objectname)"@,
            "refs/tags"@,
        ],
{
    let mut a: Vec<String> = Vec::new();
    push_str(&mut a, "for-each-ref");
    push_str(&mut a, "--sort=-creatordate");
    push_str(&mut a, "--format=%(refname:short) %(objectname) %(*objectname)");
    push_str(&mut a, "refs/tags");
    a
}

/// The tag that was found.
pub struct TagMatch {
    pub name: String,
    pub full_name: String,
    pub commit_sha: String,
}

/// `str::strip_prefix(p).unwrap_or(s)`.
pub open spec fn strip_prefix_or_keep(s: Seq<char>, p: Seq<char>) -> Seq<char> {
    if starts_with(s, p) {
        s.subrange(p.len() as int, s.len() as int)
    } else {
        s
    }
}

/// `str::strip_suffix(p).unwrap_or(s)`.
pub open spec fn strip_suffix_or_keep(s: Seq<char>, p: Seq<char>) -> Seq<char> {
    if ends_with(s, p) {
        s.subrange(0, s.len() - p.len())
    } else {
        s
    }
}

/// Piece `k` of a space-split line, or empty when there is none.
pub open spec fn part(parts: Seq<Seq<char>>, k: int) -> Seq<char> {
    if k < parts.len() {
        parts[k]
    } else {
        Seq::empty()
    }
}

/// The tag named on a listing line: its short name, the object it names, and
/// (for an annotated tag) the peeled commit.
pub open spec fn line_parts(line: Seq<char>) -> (Seq<char>, Seq<char>, Seq<char>) {
    let parts = split_on(trim(line), ' ');
    (part(parts, 0), part(parts, 1), part(parts, 2))
}

/// The match reported for a listing line: the name without prefix and suffix,
/// the full name, and the commit (the peeled one for an annotated tag).
pub open spec fn match_of(line: Seq<char>, prefix: Seq<char>, suffix: Seq<char>) -> (Seq<char>, Seq<char>, Seq<char>) {
    let (refname, objectname, star) = line_parts(line);
    let stripped = strip_prefix_or_keep(refname, prefix);
    (strip_suffix_or_keep(stripped, suffix), refname, if star.len() == 0 {
        objectname
    } else {
        star
    })
}

/// The line is not blank and its tag name matches the regex.
pub open spec fn line_selected(line: Seq<char>, source: Seq<char>) -> bool {
    trim(line).len() > 0 && regex_is_match(source, true, line_parts(line).0)
}

/// The first of `lines[from..]` that is selected, if any.
pub open spec fn first_selected(lines: Seq<Seq<char>>, source: Seq<char>, from: int) -> Option<int>
    decreases lines.len() - from,
{
    if from >= lines.len() || from < 0 {
        None
    } else if line_selected(lines[from], source) {
        Some(from)
    } else {
        first_selected(lines, source, from + 1)
    }
}

/// The view of a found tag.
pub open spec fn tag_match_view(m: TagMatch) -> (Seq<char>, Seq<char>, Seq<char>) {
    (m.name@, m.full_name@, m.commit_sha@)
}

/// Piece `k` of `parts`, or empty.
fn part_at(parts: &Vec<Vec<char>>, k: usize) -> (r: String)
    ensures
        r@ == part(parts@.map_values(|w: Vec<char>| w@), k as int),
{
    if k < parts.len() {
        string_from(&parts[k])
    } else {
        String::new()
    }
}

/// Strips `prefix` when present.
fn strip_prefix_str(s: &str, prefix: &str) -> (r: String)
    ensures
        r@ == strip_prefix_or_keep(s@, prefix@),
{
    let v = chars_of(s);
    let p = chars_of(prefix);
    if starts_with_chars(&v, &p) {
        string_of(&v, p.len(), v.len())
    } else {
        copy(s)
    }
}

/// Strips `suffix` when present.
pub(crate) fn strip_suffix_str(s: &str, suffix: &str) -> (r: String)
    ensures
        r@ == strip_suffix_or_keep(s@, suffix@),
{
    let v = chars_of(s);
    let p = chars_of(suffix);
    if crate::text::ends_with_chars(&v, &p) {
        string_of(&v, 0, v.len() - p.len())
    } else {
        copy(s)
    }
}

/// Walks the `for-each-ref` listing (newest first) and returns the first tag
/// whose name matches `re` (compiled from `^{prefix}{pattern}{suffix}$`,
/// case-insensitively), with the prefix and suffix stripped from its name
/// and its commit (the peeled commit of an annotated tag); `None` when no
/// line matches. Lines are split at `\n`; blank lines are skipped.
pub fn select_latest_tag(re: &Pattern, listing: &str, prefix: &str, suffix: &str) -> (r: Option<TagMatch>)
    requires
        re.case_insensitive(),
    ensures
        ({
            let lines = split_on(listing@, '\n');
            match first_selected(lines, re.source(), 0) {
                Some(i) => r matches Some(m) && tag_match_view(m) == match_of(lines[i], prefix@, suffix@),
                None => r is None,
            }
        }),
{
    let v = chars_of(listing);
    let lines = split_chars(&v, '\n');
    let ghost ls = split_on(listing@, '\n');
    let mut i: usize = 0;
    while i < lines.len()
        invariant
            i <= lines.len(),
            re.case_insensitive(),
            ls == split_on(listing@, '\n'),
            lines@.len() == ls.len(),
            forall|k: int| 0 <= k < lines@.len() ==> (#[trigger] lines@[k])@ == ls[k],
            first_selected(ls, re.source(), 0) == first_selected(ls, re.source(), i as int),
        decreases lines.len() - i,
    {
        let line = &lines[i];
        assert(line@ == ls[i as int]);
        let (lo, hi) = trim_bounds(line);
        if lo < hi {
            let body = string_of(line, lo, hi);
            let bv = chars_of(body.as_str());
            let parts = split_chars(&bv, ' ');
            let refname = part_at(&parts, 0);
            assert(parts@.map_values(|w: Vec<char>| w@) =~= split_on(trim(ls[i as int]), ' '));
            if is_match(re, refname.as_str()) {
                let objectname = part_at(&parts, 1);
                let star = part_at(&parts, 2);
                let commit_sha = if star.as_str().unicode_len() == 0 {
                    objectname
                } else {
                    star
                };
                let stripped = strip_prefix_str(refname.as_str(), prefix);
                let name = strip_suffix_str(stripped.as_str(), suffix);
                let m = TagMatch { name, full_name: refname, commit_sha };
                assert(line_selected(ls[i as int], re.source()));
                assert(tag_match_view(m) == match_of(ls[i as int], prefix@, suffix@));
                assert(first_selected(ls, re.source(), i as int) == Some(i as int));
                return Some(m);
            }
        }
        assert(!line_selected(ls[i as int], re.source()));
        i = i + 1;
    }
    None
}

/// The warning when no tag matches.
pub fn no_matching_tags() -> (r: String)
    ensures
        r@ == "No matching tags found."@,
{
    String::from_str("No matching tags found.")
}

// ---------------------------------------------------------------------------
// push
// ---------------------------------------------------------------------------

/// The `push` step's configuration.
pub struct PushConfig {
    pub remote: String,
    pub push_tags: bool,
}

impl Default for PushConfig {
    fn default() -> (r: Self)
        ensures
            r.remote@ == "origin"@,
            r.push_tags,
    {
        PushConfig { remote: String::from_str("origin"), push_tags: true }
    }
}

/// The argv checking that `remote` exists.
pub fn remote_get_url_args(remote: &str) -> (r: Vec<String>)
    ensures
        strs(r@) == seq!["remote"@, "get-url"@, "--end-of-options"@, remote@],
{
    let mut a: Vec<String> = Vec::new();
    push_str(&mut a, "remote");
    push_str(&mut a, "get-url");
    push_str(&mut a, "--end-of-options");
    push_str(&mut a, remote);
    a
}

/// The failure for a remote that does not exist.
pub fn remote_not_found(remote: &str) -> (r: String)
    ensures
        r@ == "Remote '"@ + remote@ + "' not found."@,
{
    cat3("Remote '", remote, "' not found.")
}

/// The argv probing whether the current branch has an upstream.
pub fn upstream_probe_args() -> (r: Vec<String>)
    ensures
        strs(r@) == seq!["rev-parse"@, "--abbrev-ref"@, "--symbolic-full-name"@, "@{u}"@],
{
    let mut a: Vec<String> = Vec::new();
    push_str(&mut a, "rev-parse");
    push_str(&mut a, "--abbrev-ref");
    push_str(&mut a, "--symbolic-full-name");
    push_str(&mut a, "@{u}");
    a
}

/// The warning when the branch has no upstream.
pub fn no_upstream_warning() -> (r: String)
    ensures
        r@ == "current branch has no upstream configured"@,
{
    String::from_str("current branch has no upstream configured")
}

/// The pushes to run, in order: the branch, then (when enabled) the tags.
/// `--end-of-options` precedes the remote so a `-`-leading remote is not read
/// as a flag; `--tags` is our own option and stays before it.
pub fn push_commands(cfg: &PushConfig) -> (r: Vec<Vec<String>>)
    ensures
        r@.len() == if cfg.push_tags { 2int } else { 1int },
        strs(r@[0]@) == seq!["push"@, "--end-of-options"@, cfg.remote@, "HEAD"@],
        cfg.push_tags ==> strs(r@[1]@) == seq!["push"@, "--tags"@, "--end-of-options"@, cfg.remote@],
{
    let mut head: Vec<String> = Vec::new();
    push_str(&mut head, "push");
    push_str(&mut head, "--end-of-options");
    push_str(&mut head, cfg.remote.as_str());
    push_str(&mut head, "HEAD");
    let mut r: Vec<Vec<String>> = Vec::new();
    r.push(head);
    if cfg.push_tags {
        let mut tags: Vec<String> = Vec::new();
        push_str(&mut tags, "push");
        push_str(&mut tags, "--tags");
        push_str(&mut tags, "--end-of-options");
        push_str(&mut tags, cfg.remote.as_str());
        r.push(tags);
    }
    r
}

/// The stderr of a failed push reports an authentication problem.
pub open spec fn push_auth_failure(stderr: Seq<char>) -> bool {
    contains(stderr, "Permission denied (publickey)"@) || contains(stderr, "Authentication failed"@)
        || contains(stderr, "could not read Username"@)
}

/// The failure of a push that exited non-zero: a hint for authentication
/// problems, else the generic exit phrase.
pub fn push_failure(stderr: &str, exit_code: i32) -> (r: String)
    ensures
        r@ == if push_auth_failure(stderr@) {
            "Git authentication failed. Ensure your SSH agent is running or your HTTPS credentials are configured."@
        } else {
            "Git command failed with exit code "@ + dec(exit_code as int)
        },
{
    let e = chars_of(stderr);
    if crate::text::has(&e, "Permission denied (publickey)") || crate::text::has(&e, "Authentication failed")
        || crate::text::has(&e, "could not read Username") {
        String::from_str("Git authentication failed. Ensure your SSH agent is running or your HTTPS credentials are configured.")
    } else {
        git_failure(exit_code)
    }
}

// ---------------------------------------------------------------------------
// repo-context
// ---------------------------------------------------------------------------

/// The argv reading the current branch.
pub fn current_branch_args() -> (r: Vec<String>)
    ensures
        strs(r@) == seq!["rev-parse"@, "--abbrev-ref"@, "HEAD"@],
{
    let mut a: Vec<String> = Vec::new();
    push_str(&mut a, "rev-parse");
    push_str(&mut a, "--abbrev-ref");
    push_str(&mut a, "HEAD");
    a
}

/// The argv reading the `origin` URL.
pub fn origin_url_args() -> (r: Vec<String>)
    ensures
        strs(r@) == seq!["remote"@, "get-url"@, "origin"@],
{
    let mut a: Vec<String> = Vec::new();
    push_str(&mut a, "remote");
    push_str(&mut a, "get-url");
    push_str(&mut a, "origin");
    a
}

// ---------------------------------------------------------------------------
// tag
// ---------------------------------------------------------------------------

/// The `tag` step's configuration.
pub struct TagConfig {
    pub tag_name: String,
    pub message: Option<String>,
}

impl Default for TagConfig {
    fn default() -> (r: Self)
        ensures
            r.tag_name@ == Seq::<char>::empty(),
            r.message is None,
    {
        TagConfig { tag_name: String::new(), message: None }
    }
}

/// Refuses a blank tag name before touching git.
pub fn check_tag_name(tag_name: &str) -> (r: Result<(), String>)
    ensures
        r is Err <==> blank(tag_name@),
        r matches Err(e) ==> e@ == "Tag name cannot be empty."@,
{
    if is_blank(tag_name) {
        Err(String::from_str("Tag name cannot be empty."))
    } else {
        Ok(())
    }
}

/// The argv listing a tag by name.
pub fn tag_list_args(tag_name: &str) -> (r: Vec<String>)
    ensures
        strs(r@) == seq!["tag"@, "-l"@, "--end-of-options"@, tag_name@],
{
    let mut a: Vec<String> = Vec::new();
    push_str(&mut a, "tag");
    push_str(&mut a, "-l");
    push_str(&mut a, "--end-of-options");
    push_str(&mut a, tag_name);
    a
}

/// Whether the listing shows the tag (its output is not blank).
pub fn tag_listed(stdout: &str) -> (r: bool)
    ensures
        r == !blank(stdout@),
{
    !is_blank(stdout)
}

/// The warning for a tag that already exists.
pub fn tag_exists_warning(tag_name: &str) -> (r: String)
    ensures
        r@ == "Tag '"@ + tag_name@ + "' already exists."@,
{
    cat3("Tag '", tag_name, "' already exists.")
}

/// The argv creating the tag: annotated with `-a -m <message>` when a
/// non-empty message is given, lightweight otherwise. Options precede
/// `--end-of-options`; the tag name follows it.
pub fn tag_create_args(cfg: &TagConfig) -> (r: Vec<String>)
    ensures
        strs(r@) == if non_empty(cfg.message) {
            seq!["tag"@, "-a"@, "-m"@, cfg.message->0@, "--end-of-options"@, cfg.tag_name@]
        } else {
            seq!["tag"@, "--end-of-options"@, cfg.tag_name@]
        },
{
    let mut a: Vec<String> = Vec::new();
    push_str(&mut a, "tag");
    match &cfg.message {
        Some(m) => if m.as_str().unicode_len() > 0 {
            push_str(&mut a, "-a");
            push_str(&mut a, "-m");
            push_str(&mut a, m.as_str());
        },
        None => {},
    }
    push_str(&mut a, "--end-of-options");
    push_str(&mut a, cfg.tag_name.as_str());
    a
}

} // verus!
