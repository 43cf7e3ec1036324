//! `create-release`: the checks made before anything is sent, the release
//! body, the outputs read back, and the comment and label requests on each
//! related pull request and issue.

use vstd::prelude::*;
use crate::forge::{annotation_views, item_requests, push_item_requests, Annotation, AnnotationKind};
use crate::github::GithubContext;
use crate::text::{cat, cat3, copy, dec, fmt_i64};

verus! {

/// The `create-release` configuration (the changelog categories, which only
/// the renderer reads, travel beside it).
pub struct CreateReleaseConfig {
    pub name: String,
    pub tag: String,
    pub label: Option<String>,
    pub body: Option<String>,
    pub draft: bool,
    pub prerelease: bool,
    pub pull_requests: Vec<i64>,
    pub issues: Vec<i64>,
}

impl Default for CreateReleaseConfig {
    fn default() -> (r: Self)
        ensures
            r.name@ == Seq::<char>::empty(),
            r.tag@ == Seq::<char>::empty(),
            r.label is None,
            r.body is None,
            !r.draft,
            !r.prerelease,
            r.pull_requests@ == Seq::<i64>::empty(),
            r.issues@ == Seq::<i64>::empty(),
    {
        CreateReleaseConfig {
            name: String::new(),
            tag: String::new(),
            label: None,
            body: None,
            draft: false,
            prerelease: false,
            pull_requests: Vec::new(),
            issues: Vec::new(),
        }
    }
}

/// The path releases are created under.
pub fn releases_path(ctx: &GithubContext) -> (r: String)
    ensures
        r@ == "/repos/"@ + ctx.owner@ + "/"@ + ctx.repo@ + "/releases"@,
{
    ctx.repo_path("/releases")
}

/// The name and URL reported for the created release: the name the service
/// returned (else the configured one) and its page URL (else empty).
pub fn release_outputs(returned_name: &Option<String>, returned_url: &Option<String>, name: &str) -> (r: (String, String))
    ensures
        r.0@ == match returned_name {
            Some(n) => n@,
            None => name@,
        },
        r.1@ == match returned_url {
            Some(u) => u@,
            None => Seq::<char>::empty(),
        },
{
    let n = match returned_name {
        Some(n) => copy(n.as_str()),
        None => copy(name),
    };
    let u = match returned_url {
        Some(u) => copy(u.as_str()),
        None => String::new(),
    };
    (n, u)
}

/// The items to comment on: the pull requests, then the issues.
pub fn related_numbers(cfg: &CreateReleaseConfig) -> (r: Vec<i64>)
    ensures
        r@ == cfg.pull_requests@ + cfg.issues@,
{
    let mut r: Vec<i64> = Vec::new();
    let mut i: usize = 0;
    while i < cfg.pull_requests.len()
        invariant
            i <= cfg.pull_requests.len(),
            r@ == cfg.pull_requests@.subrange(0, i as int),
        decreases cfg.pull_requests.len() - i,
    {
        r.push(cfg.pull_requests[i]);
        i = i + 1;
    }
    let mut j: usize = 0;
    while j < cfg.issues.len()
        invariant
            j <= cfg.issues.len(),
            r@ == cfg.pull_requests@ + cfg.issues@.subrange(0, j as int),
        decreases cfg.issues.len() - j,
    {
        r.push(cfg.issues[j]);
        j = j + 1;
    }
    assert(cfg.issues@.subrange(0, cfg.issues@.len() as int) == cfg.issues@);
    r
}

/// `/repos/{owner}/{repo}/issues/{number}` followed by `rest`.
fn item_path(ctx: &GithubContext, number: i64, rest: &str) -> (r: String)
    ensures
        r@ == "/repos/"@ + ctx.owner@ + "/"@ + ctx.repo@ + "/issues/"@ + dec(number as int) + rest@,
{
    let n = fmt_i64(number);
    let a = ctx.repo_path("/issues/");
    cat3(a.as_str(), n.as_str(), rest)
}

/// Where the comment on item `number` is posted.
pub fn comment_path(ctx: &GithubContext, number: i64) -> (r: String)
    ensures
        r@ == "/repos/"@ + ctx.owner@ + "/"@ + ctx.repo@ + "/issues/"@ + dec(number as int) + "/comments"@,
{
    item_path(ctx, number, "/comments")
}

/// Where the label on item `number` is posted.
pub fn label_path(ctx: &GithubContext, number: i64) -> (r: String)
    ensures
        r@ == "/repos/"@ + ctx.owner@ + "/"@ + ctx.repo@ + "/issues/"@ + dec(number as int) + "/labels"@,
{
    item_path(ctx, number, "/labels")
}

/// The warning when commenting on an item fails (the run goes on).
pub fn comment_warning(number: i64, error: &str) -> (r: String)
    ensures
        r@ == "Failed to comment on #"@ + dec(number as int) + ": "@ + error@,
{
    let n = fmt_i64(number);
    let a = cat("Failed to comment on #", n.as_str());
    cat3(a.as_str(), ": ", error)
}

/// The warning when labelling an item fails (the run goes on).
pub fn label_warning(number: i64, error: &str) -> (r: String)
    ensures
        r@ == "Failed to label #"@ + dec(number as int) + ": "@ + error@,
{
    let n = fmt_i64(number);
    let a = cat("Failed to label #", n.as_str());
    cat3(a.as_str(), ": ", error)
}


/// The requests announcing the release on item `number` of `owner/repo`:
/// its comment, then its label when one is configured.
pub open spec fn item_annotation(owner: Seq<char>, repo: Seq<char>, number: i64, labelled: bool) -> Seq<
    (AnnotationKind, Seq<char>, Seq<char>),
> {
    let item = "/repos/"@ + owner + "/"@ + repo + "/issues/"@ + dec(number as int);
    item_requests(
        item + "/comments"@,
        "Failed to comment on #"@ + dec(number as int) + ": "@,
        item + "/labels"@,
        "Failed to label #"@ + dec(number as int) + ": "@,
        labelled,
    )
}

/// The requests for `numbers`, item by item in order.
pub open spec fn annotations_for(owner: Seq<char>, repo: Seq<char>, numbers: Seq<i64>, labelled: bool) -> Seq<
    (AnnotationKind, Seq<char>, Seq<char>),
>
    decreases numbers.len(),
{
    if numbers.len() == 0 {
        Seq::empty()
    } else {
        annotations_for(owner, repo, numbers.drop_last(), labelled) + item_annotation(owner, repo, numbers.last(), labelled)
    }
}

/// The annotation requests for `numbers`, spelled out: item `k`, in order,
/// gets its comment request and, exactly when a label is set, its label
/// request right after it; nothing depends on any response.
pub proof fn lemma_annotations_for_shape(owner: Seq<char>, repo: Seq<char>, numbers: Seq<i64>, labelled: bool)
    ensures
        !labelled ==> {
            &&& annotations_for(owner, repo, numbers, labelled).len() == numbers.len()
            &&& forall|k: int| 0 <= k < numbers.len() ==> annotations_for(owner, repo, numbers, labelled)[k] == (
                AnnotationKind::Comment,
                "/repos/"@ + owner + "/"@ + repo + "/issues/"@ + dec(#[trigger] numbers[k] as int) + "/comments"@,
                "Failed to comment on #"@ + dec(numbers[k] as int) + ": "@,
            )
        },
        labelled ==> {
            &&& annotations_for(owner, repo, numbers, labelled).len() == 2 * numbers.len()
            &&& forall|k: int| 0 <= k < numbers.len() ==> annotations_for(owner, repo, numbers, labelled)[2 * k] == (
                AnnotationKind::Comment,
                "/repos/"@ + owner + "/"@ + repo + "/issues/"@ + dec(#[trigger] numbers[k] as int) + "/comments"@,
                "Failed to comment on #"@ + dec(numbers[k] as int) + ": "@,
            ) && annotations_for(owner, repo, numbers, labelled)[2 * k + 1] == (
                AnnotationKind::Label,
                "/repos/"@ + owner + "/"@ + repo + "/issues/"@ + dec(numbers[k] as int) + "/labels"@,
                "Failed to label #"@ + dec(numbers[k] as int) + ": "@,
            )
        },
    decreases numbers.len(),
{
    if numbers.len() > 0 {
        let d = numbers.drop_last();
        lemma_annotations_for_shape(owner, repo, d, labelled);
        assert(annotations_for(owner, repo, numbers, labelled) == annotations_for(owner, repo, d, labelled) + item_annotation(
            owner,
            repo,
            numbers.last(),
            labelled,
        ));
        assert forall|k: int| 0 <= k < d.len() implies #[trigger] numbers[k] == d[k] by {}
    }
}

/// The requests that announce the release on its related items: every pull
/// request, then every issue, each getting its comment and then, when a
/// label is configured, its label.
pub fn annotation_plan(ctx: &GithubContext, cfg: &CreateReleaseConfig) -> (r: Vec<Annotation>)
    ensures
        annotation_views(r@) == annotations_for(
            ctx.owner@,
            ctx.repo@,
            cfg.pull_requests@ + cfg.issues@,
            cfg.label is Some,
        ),
{
    let numbers = related_numbers(cfg);
    let labelled = cfg.label.is_some();
    let mut out: Vec<Annotation> = Vec::new();
    let mut i: usize = 0;
    assert(numbers@.take(0) == Seq::<i64>::empty());
    assert(annotation_views(out@) == Seq::<(AnnotationKind, Seq<char>, Seq<char>)>::empty());
    while i < numbers.len()
        invariant
            i <= numbers.len(),
            numbers@ == cfg.pull_requests@ + cfg.issues@,
            labelled == cfg.label is Some,
            annotation_views(out@) == annotations_for(ctx.owner@, ctx.repo@, numbers@.take(i as int), labelled),
        decreases numbers.len() - i,
    {
        let n = numbers[i];
        let cpath = comment_path(ctx, n);
        let lpath = label_path(ctx, n);
        let cwarn = comment_warning(n, "");
        let lwarn = label_warning(n, "");
        proof {
            reveal_strlit("");
        }
        push_item_requests(&mut out, cpath, cwarn, lpath, lwarn, labelled);
        proof {
            assert(numbers@.take(i + 1).drop_last() == numbers@.take(i as int));
            assert(numbers@.take(i + 1).last() == n);
            let item = "/repos/"@ + ctx.owner@ + "/"@ + ctx.repo@ + "/issues/"@ + dec(n as int);
            assert(cpath@ == item + "/comments"@);
            assert(lpath@ == item + "/labels"@);
        }
        i = i + 1;
    }
    assert(numbers@.take(numbers.len() as int) == numbers@);
    out
}

} // verus!
