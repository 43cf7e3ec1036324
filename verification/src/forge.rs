//! What the GitHub and GitLab plugins share: how a response status maps to an
//! error, where the first page of a listing is, which URL the `Link` header
//! names as the next page, and the checks and texts of `create-release`.

use vstd::prelude::*;
use crate::text::{
    blank, cat, cat3, chars_of, contains, contains_chars, copy, dec, find_char, fmt_u64, is_blank,
    split_chars, split_on, string_of, trim, trim_bounds,
};

verus! {

/// The service a client talks to.
#[derive(PartialEq, Eq, Structural, Clone, Copy)]
pub enum Forge {
    GitHub,
    GitLab,
}

/// The service's name as it appears in messages.
pub open spec fn forge_label(f: Forge) -> Seq<char> {
    match f {
        Forge::GitHub => "GitHub"@,
        Forge::GitLab => "GitLab"@,
    }
}

fn forge_name(f: Forge) -> (r: &'static str)
    ensures
        r@ == forge_label(f),
{
    match f {
        Forge::GitHub => "GitHub",
        Forge::GitLab => "GitLab",
    }
}

/// The headers every request carries: the credential (a bearer token for
/// GitHub, `PRIVATE-TOKEN` for GitLab), the client name, the media type, and
/// for GitHub the API version.
pub open spec fn headers_of(f: Forge, token: Seq<char>) -> Seq<(Seq<char>, Seq<char>)> {
    match f {
        Forge::GitHub => seq![
            ("Authorization"@, "Bearer "@ + token),
            ("User-Agent"@, "moonlit"@),
            ("Accept"@, "application/vnd.github+json"@),
            ("X-GitHub-Api-Version"@, "2022-11-28"@),
        ],
        Forge::GitLab => seq![
            ("PRIVATE-TOKEN"@, token),
            ("User-Agent"@, "moonlit"@),
            ("Accept"@, "application/json"@),
        ],
    }
}

/// The headers every request carries.
pub fn request_headers(f: Forge, token: &str) -> (r: Vec<(String, String)>)
    ensures
        r@.map_values(|h: (String, String)| (h.0@, h.1@)) == headers_of(f, token@),
{
    let mut r: Vec<(String, String)> = Vec::new();
    match f {
        Forge::GitHub => {
            r.push((String::from_str("Authorization"), cat("Bearer ", token)));
            r.push((String::from_str("User-Agent"), String::from_str("moonlit")));
            r.push((String::from_str("Accept"), String::from_str("application/vnd.github+json")));
            r.push((String::from_str("X-GitHub-Api-Version"), String::from_str("2022-11-28")));
        },
        Forge::GitLab => {
            r.push((String::from_str("PRIVATE-TOKEN"), copy(token)));
            r.push((String::from_str("User-Agent"), String::from_str("moonlit")));
            r.push((String::from_str("Accept"), String::from_str("application/json")));
        },
    }
    assert(r@.map_values(|h: (String, String)| (h.0@, h.1@)) =~= headers_of(f, token@));
    r
}

/// The error for a response that is not a success: 401 and 403 point at the
/// token, anything else carries the status and the body.
pub open spec fn status_error(f: Forge, status: u16, body: Seq<char>) -> Seq<char> {
    if status == 401 || status == 403 {
        forge_label(f) + " authentication failed (HTTP "@ + dec(status as int) + "). Check the configured token."@
    } else {
        forge_label(f) + " API request failed (HTTP "@ + dec(status as int) + "): "@ + body
    }
}

/// Maps a response to `Ok` when it succeeded, else to the error for its
/// status; `body` is the response text, if it could be read.
pub fn check_status(f: Forge, success: bool, status: u16, body: &Option<String>) -> (r: Result<(), String>)
    ensures
        r is Ok <==> success,
        r matches Err(e) ==> e@ == status_error(f, status, match body {
            Some(b) => b@,
            None => Seq::empty(),
        }),
{
    if success {
        return Ok(());
    }
    let code = fmt_u64(status as u64);
    let name = forge_name(f);
    if status == 401 || status == 403 {
        let a = cat(name, " authentication failed (HTTP ");
        let b = cat(a.as_str(), code.as_str());
        Err(cat(b.as_str(), "). Check the configured token."))
    } else {
        let text = match body {
            Some(b) => copy(b.as_str()),
            None => String::new(),
        };
        let a = cat(name, " API request failed (HTTP ");
        let b = cat(a.as_str(), code.as_str());
        let c = cat(b.as_str(), "): ");
        Err(cat(c.as_str(), text.as_str()))
    }
}

/// The URL of the first page of a listing: `base` and `path`, then
/// `per_page=100` joined with `&` when `path` has a query already, else `?`.
pub open spec fn first_page(base: Seq<char>, path: Seq<char>) -> Seq<char> {
    base + path + (if contains(path, "?"@) {
        "&"@
    } else {
        "?"@
    }) + "per_page=100"@
}

/// The URL of the first page of a listing.
pub fn first_page_url(base: &str, path: &str) -> (r: String)
    ensures
        r@ == first_page(base@, path@),
{
    let pv = chars_of(path);
    let q = chars_of("?");
    proof {
        reveal_strlit("?");
    }
    let sep = if contains_chars(&pv, &q) {
        "&"
    } else {
        "?"
    };
    let a = cat(base, path);
    let b = cat(a.as_str(), sep);
    cat(b.as_str(), "per_page=100")
}

/// `i` is where `c` first occurs in `s`.
pub open spec fn first_at(s: Seq<char>, c: char, i: int) -> bool {
    0 <= i < s.len() && s[i] == c && forall|j: int| 0 <= j < i ==> s[j] != c
}

/// `str::find` for a character: where it first occurs, if anywhere.
pub open spec fn index_of(s: Seq<char>, c: char) -> Option<int> {
    if exists|i: int| first_at(s, c, i) {
        Some(choose|i: int| first_at(s, c, i))
    } else {
        None
    }
}

/// There is at most one first occurrence.
proof fn lemma_first_at_unique(s: Seq<char>, c: char, i: int, k: int)
    requires
        first_at(s, c, i),
        first_at(s, c, k),
    ensures
        i == k,
{
}

/// The marker of the next-page link.
pub open spec fn rel_next() -> Seq<char> {
    "rel=\"next\""@
}

/// The first piece of `parts`, from `i` on, that (trimmed) carries the
/// next-page marker.
pub open spec fn next_segment(parts: Seq<Seq<char>>, i: int) -> Option<Seq<char>>
    decreases parts.len() - i,
{
    if i < 0 || i >= parts.len() {
        None
    } else if contains(trim(parts[i]), rel_next()) {
        Some(trim(parts[i]))
    } else {
        next_segment(parts, i + 1)
    }
}

/// The segment of a `Link` header that names the next page, if any.
pub open spec fn next_link_segment(link: Seq<char>) -> Option<Seq<char>> {
    next_segment(split_on(link, ','), 0)
}

/// The next-page segment puts its first `>` before its first `<`, which the
/// URL slice between them cannot take.
pub open spec fn link_unordered(link: Seq<char>) -> bool {
    match next_link_segment(link) {
        Some(seg) => match (index_of(seg, '<'), index_of(seg, '>')) {
            (Some(a), Some(b)) => b < a + 1,
            _ => false,
        },
        None => false,
    }
}

/// The `rel="next"` URL of a `Link` header: what lies between the first `<`
/// and the first `>` of the first segment carrying the marker; `None` when
/// no segment does, or when that segment lacks either bracket.
pub open spec fn next_link_of(link: Seq<char>) -> Option<Seq<char>> {
    match next_link_segment(link) {
        Some(seg) => match (index_of(seg, '<'), index_of(seg, '>')) {
            (Some(a), Some(b)) => Some(seg.subrange(a + 1, b)),
            _ => None,
        },
        None => None,
    }
}

/// `str::find` for a character.
fn find(v: &Vec<char>, c: char) -> (r: Option<usize>)
    ensures
        match r {
            Some(i) => index_of(v@, c) == Some(i as int),
            None => index_of(v@, c) is None,
        },
{
    let r = find_char(v, c);
    proof {
        match r {
            Some(i) => {
                assert(first_at(v@, c, i as int));
                let k = choose|k: int| first_at(v@, c, k);
                lemma_first_at_unique(v@, c, i as int, k);
            },
            None => {},
        }
    }
    r
}

/// The next-page segment of `link` and its brackets, as found.
fn scan_link(link: &str) -> (r: Option<(Vec<char>, Option<usize>, Option<usize>)>)
    ensures
        match r {
            Some((seg, a, b)) => next_link_segment(link@) == Some(seg@) && match a {
                Some(i) => index_of(seg@, '<') == Some(i as int),
                None => index_of(seg@, '<') is None,
            } && match b {
                Some(i) => index_of(seg@, '>') == Some(i as int),
                None => index_of(seg@, '>') is None,
            },
            None => next_link_segment(link@) is None,
        },
{
    let v = chars_of(link);
    let parts = split_chars(&v, ',');
    let ghost ps = split_on(link@, ',');
    let marker = chars_of("rel=\"next\"");
    let mut i: usize = 0;
    while i < parts.len()
        invariant
            i <= parts.len(),
            ps == split_on(link@, ','),
            marker@ == rel_next(),
            parts@.len() == ps.len(),
            forall|k: int| 0 <= k < parts@.len() ==> (#[trigger] parts@[k])@ == ps[k],
            next_segment(ps, 0) == next_segment(ps, i as int),
        decreases parts.len() - i,
    {
        let part = &parts[i];
        assert(part@ == ps[i as int]);
        let (lo, hi) = trim_bounds(part);
        let seg_s = string_of(part, lo, hi);
        let seg = chars_of(seg_s.as_str());
        if contains_chars(&seg, &marker) {
            let a = find(&seg, '<');
            let b = find(&seg, '>');
            return Some((seg, a, b));
        }
        i = i + 1;
    }
    None
}

/// Whether the `Link` header's next-page segment has its brackets the wrong
/// way round, where reading the URL out of it would fail.
pub fn link_is_unordered(link: &str) -> (r: bool)
    ensures
        r == link_unordered(link@),
{
    match scan_link(link) {
        Some((_seg, Some(a), Some(b))) => b < a + 1,
        _ => false,
    }
}

/// The `rel="next"` URL of a `Link` header, if any.
pub fn next_link(link: &str) -> (r: Option<String>)
    requires
        !link_unordered(link@),
    ensures
        match r {
            Some(u) => next_link_of(link@) == Some(u@),
            None => next_link_of(link@) is None,
        },
{
    match scan_link(link) {
        Some((seg, Some(a), Some(b))) => Some(string_of(&seg, a + 1, b)),
        _ => None,
    }
}

/// The body is absent or blank.
pub open spec fn body_blank(body: Option<String>) -> bool {
    match body {
        Some(b) => blank(b@),
        None => true,
    }
}

/// The first problem with the request, checked before anything is sent:
/// a blank name, a blank tag, or neither a body nor a changelog.
pub open spec fn release_problem(name: Seq<char>, tag: Seq<char>, body: Option<String>, changelog_empty: bool) -> Option<Seq<char>> {
    if blank(name) {
        Some("Release name is required."@)
    } else if blank(tag) {
        Some("Release tag is required."@)
    } else if body_blank(body) && changelog_empty {
        Some("Release body or changelog is required."@)
    } else {
        None
    }
}

/// Checks the request before anything is sent.
pub fn preflight(name: &str, tag: &str, body: &Option<String>, changelog_empty: bool) -> (r: Result<(), String>)
    ensures
        match release_problem(name@, tag@, *body, changelog_empty) {
            Some(m) => r matches Err(e) && e@ == m,
            None => r is Ok,
        },
{
    if is_blank(name) {
        return Err(String::from_str("Release name is required."));
    }
    if is_blank(tag) {
        return Err(String::from_str("Release tag is required."));
    }
    if given_body(body).is_none() && changelog_empty {
        return Err(String::from_str("Release body or changelog is required."));
    }
    Ok(())
}

/// The body to publish as given: `None` when it is absent or blank, in which
/// case the changelog is rendered instead.
pub fn given_body(body: &Option<String>) -> (r: Option<String>)
    ensures
        r is None <==> body_blank(*body),
        r matches Some(b) ==> b@ == body->0@,
{
    match body {
        Some(b) => if is_blank(b.as_str()) {
            None
        } else {
            Some(copy(b.as_str()))
        },
        None => None,
    }
}

/// The comment left on each related item.
pub open spec fn comment_text(name: Seq<char>, url: Seq<char>) -> Seq<char> {
    ":rocket: **New Release Published!**\n\n:tada: A new version of the project has just been released!\n\n**:bookmark: Link:** [`"@
        + name + "`]("@ + url + ")"@
}

/// The comment left on each related item.
pub fn release_comment(name: &str, url: &str) -> (r: String)
    ensures
        r@ == comment_text(name@, url@),
{
    let a = cat3(
        ":rocket: **New Release Published!**\n\n:tada: A new version of the project has just been released!\n\n**:bookmark: Link:** [`",
        name,
        "`](",
    );
    cat3(a.as_str(), url, ")")
}


/// What an annotation request does to a related item.
#[derive(PartialEq, Eq, Structural, Clone, Copy)]
pub enum AnnotationKind {
    /// Posts the release comment.
    Comment,
    /// Adds the configured label.
    Label,
}

/// One request of a release's annotation pass: what it does, where it is
/// sent, and the warning logged, followed by the error, when it fails. A
/// failed request never stops the pass.
pub struct Annotation {
    pub kind: AnnotationKind,
    pub path: String,
    pub warning: String,
}

/// An annotation request as plain values.
pub open spec fn annotation_view(a: Annotation) -> (AnnotationKind, Seq<char>, Seq<char>) {
    (a.kind, a.path@, a.warning@)
}

/// A list of annotation requests as plain values.
pub open spec fn annotation_views(v: Seq<Annotation>) -> Seq<(AnnotationKind, Seq<char>, Seq<char>)> {
    v.map_values(|a: Annotation| annotation_view(a))
}

/// The requests for one item: its comment, then its label when one is
/// configured.
pub open spec fn item_requests(
    comment_path: Seq<char>,
    comment_warning: Seq<char>,
    label_path: Seq<char>,
    label_warning: Seq<char>,
    labelled: bool,
) -> Seq<(AnnotationKind, Seq<char>, Seq<char>)> {
    let c = seq![(AnnotationKind::Comment, comment_path, comment_warning)];
    if labelled {
        c.push((AnnotationKind::Label, label_path, label_warning))
    } else {
        c
    }
}

/// Appends one item's requests: its comment, then its label when
/// `labelled`.
pub fn push_item_requests(
    out: &mut Vec<Annotation>,
    comment_path: String,
    comment_warning: String,
    label_path: String,
    label_warning: String,
    labelled: bool,
)
    ensures
        annotation_views(final(out)@) == annotation_views(old(out)@) + item_requests(
            comment_path@,
            comment_warning@,
            label_path@,
            label_warning@,
            labelled,
        ),
{
    let ghost before = out@;
    out.push(Annotation { kind: AnnotationKind::Comment, path: comment_path, warning: comment_warning });
    if labelled {
        out.push(Annotation { kind: AnnotationKind::Label, path: label_path, warning: label_warning });
    }
    assert(annotation_views(out@) =~= annotation_views(before) + item_requests(
        comment_path@,
        comment_warning@,
        label_path@,
        label_warning@,
        labelled,
    ));
}

/// What one annotation request leaves behind: nothing when it succeeded,
/// else its warning followed by the error. The pass goes on either way.
pub fn annotation_outcome(a: &Annotation, result: &Result<(), String>) -> (r: Option<String>)
    ensures
        match result {
            Ok(_) => r is None,
            Err(e) => r matches Some(w) && w@ == a.warning@ + e@,
        },
{
    match result {
        Ok(_) => None,
        Err(e) => Some(cat(a.warning.as_str(), e.as_str())),
    }
}


/// An annotation pass under way: its requests, the next one to send, and
/// the warnings left so far.
pub struct AnnotationPass {
    pub plan: Vec<Annotation>,
    pub next: usize,
    pub warnings: Vec<String>,
}

/// A pass as plain values: the requests, the next one, the warnings.
pub open spec fn pass_view(p: AnnotationPass) -> (Seq<(AnnotationKind, Seq<char>, Seq<char>)>, nat, Seq<Seq<char>>) {
    (annotation_views(p.plan@), p.next as nat, p.warnings@.map_values(|w: String| w@))
}

/// The outcome of a request as plain values.
pub open spec fn result_view(r: Result<(), String>) -> Result<(), Seq<char>> {
    match r {
        Ok(_) => Ok(()),
        Err(e) => Err(e@),
    }
}

/// The warnings a pass leaves when its requests, in order, ended with
/// `results`: for each failed one, its warning followed by the error.
pub open spec fn pass_warnings(plan: Seq<(AnnotationKind, Seq<char>, Seq<char>)>, results: Seq<Result<(), Seq<char>>>) -> Seq<
    Seq<char>,
>
    decreases results.len(),
{
    if results.len() == 0 {
        Seq::empty()
    } else {
        let w = pass_warnings(plan, results.drop_last());
        match results.last() {
            Ok(_) => w,
            Err(e) => w.push(plan[results.len() - 1].2 + e),
        }
    }
}

/// One request's outcome recorded: the pass moves on to the next request
/// whatever the outcome; a failure only adds its warning.
pub open spec fn passed(
    v: (Seq<(AnnotationKind, Seq<char>, Seq<char>)>, nat, Seq<Seq<char>>),
    result: Result<(), Seq<char>>,
) -> (Seq<(AnnotationKind, Seq<char>, Seq<char>)>, nat, Seq<Seq<char>>) {
    (
        v.0,
        v.1 + 1,
        match result {
            Ok(_) => v.2,
            Err(e) => v.2.push(v.0[v.1 as int].2 + e),
        },
    )
}

/// Where a pass stands after its first requests ended with `results`.
pub open spec fn pass_after(plan: Seq<(AnnotationKind, Seq<char>, Seq<char>)>, results: Seq<Result<(), Seq<char>>>) -> (
    Seq<(AnnotationKind, Seq<char>, Seq<char>)>,
    nat,
    Seq<Seq<char>>,
)
    decreases results.len(),
{
    if results.len() == 0 {
        (plan, 0nat, Seq::empty())
    } else {
        passed(pass_after(plan, results.drop_last()), results.last())
    }
}

/// Starts a pass over `plan`.
pub fn start_pass(plan: Vec<Annotation>) -> (r: AnnotationPass)
    ensures
        pass_view(r) == pass_after(annotation_views(plan@), Seq::empty()),
{
    let r = AnnotationPass { plan, next: 0, warnings: Vec::new() };
    assert(r.warnings@.map_values(|w: String| w@) =~= Seq::<Seq<char>>::empty());
    r
}

/// The index of the request to send next, if any is left.
pub fn next_request(p: &AnnotationPass) -> (r: Option<usize>)
    ensures
        p.next < p.plan@.len() ==> r == Some(p.next),
        p.next >= p.plan@.len() ==> r is None,
{
    if p.next < p.plan.len() {
        Some(p.next)
    } else {
        None
    }
}

/// Records the outcome of the request just sent; gives the warning to log
/// when it failed. The pass goes on to the next request either way.
pub fn after_request(p: AnnotationPass, result: &Result<(), String>) -> (r: (AnnotationPass, Option<String>))
    requires
        p.next < p.plan@.len(),
    ensures
        pass_view(r.0) == passed(pass_view(p), result_view(*result)),
        match result {
            Ok(_) => r.1 is None,
            Err(e) => r.1 matches Some(w) && w@ == p.plan@[p.next as int].warning@ + e@,
        },
{
    let AnnotationPass { plan, next, mut warnings } = p;
    let ghost before = warnings@;
    assert(next < plan.len());
    let w = annotation_outcome(&plan[next], result);
    match &w {
        Some(text) => {
            warnings.push(copy(text.as_str()));
            assert(warnings@.map_values(|x: String| x@) =~= before.map_values(|x: String| x@).push(text@));
        },
        None => {},
    }
    (AnnotationPass { plan, next: next + 1, warnings }, w)
}

/// A release's annotation pass sends every request of its plan, in order,
/// whatever the earlier ones answered: after the first `k` outcomes it
/// stands at request `k`, and its warnings are exactly those of the failed
/// requests, each its request's warning followed by the error, in order.
pub proof fn lemma_pass_never_stops(
    plan: Seq<(AnnotationKind, Seq<char>, Seq<char>)>,
    results: Seq<Result<(), Seq<char>>>,
)
    requires
        results.len() <= plan.len(),
    ensures
        pass_after(plan, results) == (plan, results.len(), pass_warnings(plan, results)),
    decreases results.len(),
{
    if results.len() > 0 {
        lemma_pass_never_stops(plan, results.drop_last());
    }
}

/// The warnings of a pass: one per failed request and none for the others.
pub proof fn lemma_pass_warnings_count(
    plan: Seq<(AnnotationKind, Seq<char>, Seq<char>)>,
    results: Seq<Result<(), Seq<char>>>,
)
    ensures
        pass_warnings(plan, results).len() == results.filter(|x: Result<(), Seq<char>>| x is Err).len(),
    decreases results.len(),
{
    reveal(Seq::filter);
    if results.len() > 0 {
        lemma_pass_warnings_count(plan, results.drop_last());
    }
}

} // verus!
