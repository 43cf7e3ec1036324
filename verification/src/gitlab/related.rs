//! `related-items` on GitLab: the merged merge requests among a set of commits
//! (by merge or squash commit), newest first, and the issues they close, each
//! reported once.

use vstd::prelude::*;
use crate::gitlab::GitlabContext;
use crate::recency::{newest_first, newest_first_of, Dated};
use crate::text::{cat, cat3, dec, fmt_i64, str_eq, strs};

verus! {

/// The `related-items` configuration: the commit SHAs to look for and what to
/// report.
pub struct RelatedItemsConfig {
    pub commits: Vec<String>,
    pub include_merge_requests: bool,
    pub include_issues: bool,
}

impl Default for RelatedItemsConfig {
    fn default() -> (r: Self)
        ensures
            r.commits@ == Seq::<String>::empty(),
            r.include_merge_requests,
            r.include_issues,
    {
        RelatedItemsConfig { commits: Vec::new(), include_merge_requests: true, include_issues: true }
    }
}

/// The note logged when there is nothing to look up: no commits were given,
/// and the step succeeds without a request.
pub fn nothing_to_look_up(cfg: &RelatedItemsConfig) -> (r: Option<String>)
    ensures
        r is Some <==> cfg.commits@.len() == 0,
        r matches Some(m) ==> m@ == "No commits provided; skipping related-items lookup."@,
{
    if cfg.commits.len() == 0 {
        Some(String::from_str("No commits provided; skipping related-items lookup."))
    } else {
        None
    }
}

/// A merge request as listed (the squash commit is read for matching only).
pub struct MergeRequest {
    pub iid: i64,
    pub title: String,
    pub description: Option<String>,
    pub state: String,
    pub created_at: String,
    pub updated_at: String,
    pub merged_at: Option<String>,
    pub merge_commit_sha: Option<String>,
    pub squash_commit_sha: Option<String>,
}

impl Dated for MergeRequest {
    open spec fn stamp(&self) -> Seq<char> {
        self.created_at@
    }

    fn created_at(&self) -> (r: &String) {
        &self.created_at
    }
}

/// An issue as reported, with the merge request that closes it.
pub struct Issue {
    pub iid: i64,
    pub title: String,
    pub description: Option<String>,
    pub state: String,
    pub created_at: String,
    pub updated_at: String,
    pub closed_at: Option<String>,
    pub merge_request_iid: i64,
}

impl Dated for Issue {
    open spec fn stamp(&self) -> Seq<char> {
        self.created_at@
    }

    fn created_at(&self) -> (r: &String) {
        &self.created_at
    }
}

/// An issue's fields as listed; `iid` is absent when the reply had none.
pub struct IssueFields {
    pub iid: Option<i64>,
    pub title: String,
    pub description: Option<String>,
    pub state: String,
    pub created_at: String,
    pub updated_at: String,
    pub closed_at: Option<String>,
}

/// The listing of merged merge requests.
pub fn merged_path(ctx: &GitlabContext) -> (r: String)
    ensures
        r@ == "/projects/"@ + ctx.project_id@ + "/merge_requests?state=merged"@,
{
    ctx.project_path("/merge_requests?state=merged")
}

/// The listing of the issues merge request `iid` closes.
pub fn closes_path(ctx: &GitlabContext, iid: i64) -> (r: String)
    ensures
        r@ == "/projects/"@ + ctx.project_id@ + "/merge_requests/"@ + dec(iid as int) + "/closes_issues"@,
{
    let n = fmt_i64(iid);
    let a = cat("/merge_requests/", n.as_str());
    let b = cat(a.as_str(), "/closes_issues");
    ctx.project_path(b.as_str())
}

/// The optional SHA is one of `shas`.
pub open spec fn among(sha: Option<String>, shas: Seq<Seq<char>>) -> bool {
    match sha {
        Some(s) => shas.contains(s@),
        None => false,
    }
}

/// The merge request landed as one of `shas`, by its merge commit or by its
/// squash commit.
pub open spec fn landed_by(shas: Seq<Seq<char>>) -> spec_fn(MergeRequest) -> bool {
    |m: MergeRequest| among(m.merge_commit_sha, shas) || among(m.squash_commit_sha, shas)
}

/// Whether the optional SHA is one of `v`.
fn is_among(sha: &Option<String>, v: &Vec<String>) -> (r: bool)
    ensures
        r == among(*sha, strs(v@)),
{
    match sha {
        Some(s) => {
            let mut i: usize = 0;
            while i < v.len()
                invariant
                    i <= v.len(),
                    sha is Some && sha->0@ == s@,
                    forall|j: int| 0 <= j < i ==> strs(v@)[j] != s@,
                decreases v.len() - i,
            {
                if str_eq(v[i].as_str(), s.as_str()) {
                    assert(strs(v@)[i as int] == s@);
                    return true;
                }
                i = i + 1;
            }
            false
        },
        None => false,
    }
}

/// The merge requests that landed as one of `shas`, in their listed order.
fn keep_landed(mrs: Vec<MergeRequest>, shas: &Vec<String>) -> (r: Vec<MergeRequest>)
    ensures
        r@ == mrs@.filter(landed_by(strs(shas@))),
{
    let ghost orig = mrs@;
    let ghost pred = landed_by(strs(shas@));
    let total = mrs.len();
    let mut rest = mrs;
    let mut out: Vec<MergeRequest> = Vec::new();
    let mut n: usize = 0;
    proof {
        reveal(Seq::filter);
        assert(orig.subrange(0, 0) == Seq::<MergeRequest>::empty());
    }
    while rest.len() > 0
        invariant
            n <= orig.len() == total,
            pred == landed_by(strs(shas@)),
            rest@ == orig.subrange(n as int, orig.len() as int),
            out@ == orig.subrange(0, n as int).filter(pred),
        decreases rest.len(),
    {
        assert(n < orig.len());
        let m = rest.remove(0);
        let keep = is_among(&m.merge_commit_sha, shas) || is_among(&m.squash_commit_sha, shas);
        assert(keep == pred(m));
        proof {
            reveal(Seq::filter);
            let taken = orig.subrange(0, n + 1);
            assert(taken.drop_last() == orig.subrange(0, n as int));
            assert(taken.last() == m);
        }
        if keep {
            out.push(m);
        }
        n = n + 1;
    }
    assert(orig.subrange(0, n as int) == orig);
    out
}

/// The landed merge requests among `shas`, newest first.
pub open spec fn landed_requests(mrs: Seq<MergeRequest>, shas: Seq<Seq<char>>) -> Seq<MergeRequest> {
    newest_first_of(mrs.filter(landed_by(shas)))
}

/// Keeps the merge requests whose merge or squash commit is one of `shas`
/// and orders them newest first.
pub fn landed_merge_requests(mrs: Vec<MergeRequest>, shas: &Vec<String>) -> (r: Vec<MergeRequest>)
    ensures
        r@ == landed_requests(mrs@, strs(shas@)),
{
    newest_first(keep_landed(mrs, shas))
}

/// The issue reported for listed fields under merge request `mr`; a missing
/// iid reads as 0.
pub open spec fn issue_of(f: IssueFields, mr: i64) -> Issue {
    Issue {
        iid: match f.iid {
            Some(n) => n,
            None => 0,
        },
        title: f.title,
        description: f.description,
        state: f.state,
        created_at: f.created_at,
        updated_at: f.updated_at,
        closed_at: f.closed_at,
        merge_request_iid: mr,
    }
}

/// Some issue in `acc` has iid `n`.
pub open spec fn reported(acc: Seq<Issue>, n: i64) -> bool {
    exists|i: int| 0 <= i < acc.len() && acc[i].iid == n
}

/// `acc` extended with the issues `f` listed for merge request `mr`, each
/// issue not already reported added once.
pub open spec fn add_closed_of(acc: Seq<Issue>, f: Seq<IssueFields>, mr: i64) -> Seq<Issue>
    decreases f.len(),
{
    if f.len() == 0 {
        acc
    } else {
        let q = add_closed_of(acc, f.drop_last(), mr);
        let issue = issue_of(f.last(), mr);
        if reported(q, issue.iid) {
            q
        } else {
            q.push(issue)
        }
    }
}

/// No two issues share an iid.
pub open spec fn iids_unique(acc: Seq<Issue>) -> bool {
    forall|i: int, j: int| 0 <= i < j < acc.len() ==> #[trigger] acc[i].iid != #[trigger] acc[j].iid
}

/// Adding listed issues reports each iid once, keeps what was reported, and
/// reports every listed iid.
pub proof fn lemma_add_closed(acc: Seq<Issue>, f: Seq<IssueFields>, mr: i64)
    requires
        iids_unique(acc),
    ensures
        iids_unique(add_closed_of(acc, f, mr)),
        add_closed_of(acc, f, mr).subrange(0, acc.len() as int) == acc,
        acc.len() <= add_closed_of(acc, f, mr).len(),
        forall|k: int| 0 <= k < f.len() ==> reported(add_closed_of(acc, f, mr), #[trigger] issue_of(f[k], mr).iid),
    decreases f.len(),
{
    if f.len() > 0 {
        let d = f.drop_last();
        lemma_add_closed(acc, d, mr);
        let q = add_closed_of(acc, d, mr);
        let issue = issue_of(f.last(), mr);
        let r = add_closed_of(acc, f, mr);
        if !reported(q, issue.iid) {
            assert forall|i: int, j: int| 0 <= i < j < r.len() implies #[trigger] r[i].iid != #[trigger] r[j].iid by {
                assert(r[i] == q[i]);
                if j < q.len() {
                    assert(r[j] == q[j]);
                }
            }
            assert(r.subrange(0, acc.len() as int) == q.subrange(0, acc.len() as int));
        }
        assert forall|k: int| 0 <= k < f.len() implies reported(r, #[trigger] issue_of(f[k], mr).iid) by {
            if k < d.len() {
                assert(d[k] == f[k]);
                assert(reported(q, issue_of(d[k], mr).iid));
                let i = choose|i: int| 0 <= i < q.len() && q[i].iid == issue_of(d[k], mr).iid;
                assert(r[i] == q[i]);
            } else if !reported(q, issue.iid) {
                assert(r[q.len() as int] == issue);
            }
        }
    }
}

/// Whether some issue in `acc` has iid `n`.
fn is_reported(acc: &Vec<Issue>, n: i64) -> (r: bool)
    ensures
        r == reported(acc@, n),
{
    let mut i: usize = 0;
    while i < acc.len()
        invariant
            i <= acc.len(),
            forall|j: int| 0 <= j < i ==> acc@[j].iid != n,
        decreases acc.len() - i,
    {
        if acc[i].iid == n {
            return true;
        }
        i = i + 1;
    }
    false
}

/// Adds the issues listed as closed by merge request `mr`, skipping any
/// already reported.
pub fn add_closed(acc: Vec<Issue>, listed: Vec<IssueFields>, mr: i64) -> (r: Vec<Issue>)
    ensures
        r@ == add_closed_of(acc@, listed@, mr),
{
    let ghost orig = listed@;
    let ghost start = acc@;
    let total = listed.len();
    let mut rest = listed;
    let mut out = acc;
    let mut n: usize = 0;
    assert(orig.subrange(0, 0) == Seq::<IssueFields>::empty());
    while rest.len() > 0
        invariant
            n <= orig.len() == total,
            rest@ == orig.subrange(n as int, orig.len() as int),
            out@ == add_closed_of(start, orig.subrange(0, n as int), mr),
        decreases rest.len(),
    {
        assert(n < orig.len());
        let f = rest.remove(0);
        proof {
            let taken = orig.subrange(0, n + 1);
            assert(taken.drop_last() == orig.subrange(0, n as int));
            assert(taken.last() == f);
        }
        let iid = match f.iid {
            Some(v) => v,
            None => 0,
        };
        if !is_reported(&out, iid) {
            out.push(Issue {
                iid,
                title: f.title,
                description: f.description,
                state: f.state,
                created_at: f.created_at,
                updated_at: f.updated_at,
                closed_at: f.closed_at,
                merge_request_iid: mr,
            });
        }
        n = n + 1;
    }
    assert(orig.subrange(0, n as int) == orig);
    out
}

/// Orders the reported issues newest first.
pub fn newest_issues(issues: Vec<Issue>) -> (r: Vec<Issue>)
    ensures
        r@ == newest_first_of(issues@),
{
    newest_first(issues)
}

} // verus!
