//! `create-release` on GitLab: the release name, where it is created, the URL
//! reported back, and the note and label requests on each related merge
//! request and issue. A label travels in a query string, percent-encoded.

use vstd::prelude::*;
use vstd::string::*;
use vstd::utf8::encode_utf8;
use crate::forge::{annotation_views, item_requests, push_item_requests, Annotation, AnnotationKind};
use crate::gitlab::GitlabContext;
use crate::text::{cat, cat3, copy, dec, fmt_i64, opt_str, push_char};

verus! {

/// The `create-release` configuration (the changelog categories, which only
/// the renderer reads, travel beside it).
pub struct CreateReleaseConfig {
    pub name: String,
    pub tag: String,
    pub label: Option<String>,
    pub body: Option<String>,
    pub draft: bool,
    pub prerelease: bool,
    pub merge_requests: Vec<i64>,
    pub issues: Vec<i64>,
}

impl Default for CreateReleaseConfig {
    fn default() -> (r: Self)
        ensures
            r.name@ == Seq::<char>::empty(),
            r.tag@ == Seq::<char>::empty(),
            r.label is None,
            r.body is None,
            !r.draft,
            !r.prerelease,
            r.merge_requests@ == Seq::<i64>::empty(),
            r.issues@ == Seq::<i64>::empty(),
    {
        CreateReleaseConfig {
            name: String::new(),
            tag: String::new(),
            label: None,
            body: None,
            draft: false,
            prerelease: false,
            merge_requests: Vec::new(),
            issues: Vec::new(),
        }
    }
}

/// The warning when a draft is asked for (GitLab has no drafts; the flag is
/// ignored).
pub fn draft_warning() -> (r: String)
    ensures
        r@ == "GitLab does not support draft releases; ignoring the draft flag."@,
{
    String::from_str("GitLab does not support draft releases; ignoring the draft flag.")
}

/// The release's name: a pre-release is marked in it, since GitLab has no
/// pre-release flag.
pub fn release_name(name: &str, prerelease: bool) -> (r: String)
    ensures
        r@ == if prerelease {
            name@ + " (pre-release)"@
        } else {
            name@
        },
{
    if prerelease {
        cat(name, " (pre-release)")
    } else {
        copy(name)
    }
}

/// The path releases are created under.
pub fn releases_path(ctx: &GitlabContext) -> (r: String)
    ensures
        r@ == "/projects/"@ + ctx.project_id@ + "/releases"@,
{
    ctx.project_path("/releases")
}

/// The name and URL reported for the created release: the name the service
/// returned (else the one sent) and its `_links.self` (else the release page
/// under the project's web URL).
pub fn release_outputs(ctx: &GitlabContext, returned_name: &Option<String>, returned_link: &Option<String>, sent_name: &str, tag: &str) -> (r: (String, String))
    ensures
        r.0@ == match returned_name {
            Some(n) => n@,
            None => sent_name@,
        },
        r.1@ == match returned_link {
            Some(u) => u@,
            None => ctx.web@ + "/-/releases/"@ + tag@,
        },
{
    let n = match returned_name {
        Some(n) => copy(n.as_str()),
        None => copy(sent_name),
    };
    let u = match returned_link {
        Some(u) => copy(u.as_str()),
        None => cat3(ctx.web.as_str(), "/-/releases/", tag),
    };
    (n, u)
}

/// The kinds of item a release is announced on.
#[derive(PartialEq, Eq, Structural, Clone, Copy)]
pub enum ItemKind {
    MergeRequest,
    Issue,
}

/// The API collection of a kind.
pub open spec fn collection(k: ItemKind) -> Seq<char> {
    match k {
        ItemKind::MergeRequest => "merge_requests"@,
        ItemKind::Issue => "issues"@,
    }
}

/// How a kind is named in messages.
pub open spec fn kind_name(k: ItemKind) -> Seq<char> {
    match k {
        ItemKind::MergeRequest => "merge request"@,
        ItemKind::Issue => "issue"@,
    }
}

fn collection_str(k: ItemKind) -> (r: &'static str)
    ensures
        r@ == collection(k),
{
    match k {
        ItemKind::MergeRequest => "merge_requests",
        ItemKind::Issue => "issues",
    }
}

fn kind_str(k: ItemKind) -> (r: &'static str)
    ensures
        r@ == kind_name(k),
{
    match k {
        ItemKind::MergeRequest => "merge request",
        ItemKind::Issue => "issue",
    }
}

/// `/projects/{id}/{collection}/{iid}`.
fn item_path(ctx: &GitlabContext, kind: ItemKind, iid: i64) -> (r: String)
    ensures
        r@ == "/projects/"@ + ctx.project_id@ + "/"@ + collection(kind) + "/"@ + dec(iid as int),
{
    let n = fmt_i64(iid);
    let a = cat3("/", collection_str(kind), "/");
    let b = cat(a.as_str(), n.as_str());
    ctx.project_path(b.as_str())
}

/// Where the note on an item is posted.
pub fn note_path(ctx: &GitlabContext, kind: ItemKind, iid: i64) -> (r: String)
    ensures
        r@ == "/projects/"@ + ctx.project_id@ + "/"@ + collection(kind) + "/"@ + dec(iid as int) + "/notes"@,
{
    let p = item_path(ctx, kind, iid);
    cat(p.as_str(), "/notes")
}

/// Where the label is added to an item (a `PUT`, the label percent-encoded).
pub fn label_path(ctx: &GitlabContext, kind: ItemKind, iid: i64, label: &str) -> (r: String)
    ensures
        r@ == "/projects/"@ + ctx.project_id@ + "/"@ + collection(kind) + "/"@ + dec(iid as int) + "?add_labels="@
            + percent_encoded(label.spec_bytes()),
{
    let p = item_path(ctx, kind, iid);
    let e = encode_query(label);
    cat3(p.as_str(), "?add_labels=", e.as_str())
}

/// The warning when the note on an item fails (the run goes on).
pub fn note_warning(kind: ItemKind, iid: i64, error: &str) -> (r: String)
    ensures
        r@ == "Failed to comment on "@ + kind_name(kind) + " "@ + dec(iid as int) + ": "@ + error@,
{
    let n = fmt_i64(iid);
    let a = cat3("Failed to comment on ", kind_str(kind), " ");
    let b = cat(a.as_str(), n.as_str());
    cat3(b.as_str(), ": ", error)
}

/// The warning when labelling an item fails (the run goes on).
pub fn label_warning(kind: ItemKind, iid: i64, error: &str) -> (r: String)
    ensures
        r@ == "Failed to label "@ + kind_name(kind) + " "@ + dec(iid as int) + ": "@ + error@,
{
    let n = fmt_i64(iid);
    let a = cat3("Failed to label ", kind_str(kind), " ");
    let b = cat(a.as_str(), n.as_str());
    cat3(b.as_str(), ": ", error)
}

// ---------------------------------------------------------------------------
// Percent-encoding
// ---------------------------------------------------------------------------

/// Where the note on item `iid` of `kind` goes, in project `id`.
pub open spec fn note_path_of(id: Seq<char>, kind: ItemKind, iid: i64) -> Seq<char> {
    "/projects/"@ + id + "/"@ + collection(kind) + "/"@ + dec(iid as int) + "/notes"@
}

/// Where `label` is added to item `iid` of `kind`, in project `id`.
pub open spec fn label_path_of(id: Seq<char>, kind: ItemKind, iid: i64, label: Seq<char>) -> Seq<char> {
    "/projects/"@ + id + "/"@ + collection(kind) + "/"@ + dec(iid as int) + "?add_labels="@ + percent_encoded(
        encode_utf8(label),
    )
}

/// The requests announcing the release on one item: its note, then its
/// label when one is configured.
pub open spec fn item_annotation(id: Seq<char>, kind: ItemKind, iid: i64, label: Option<Seq<char>>) -> Seq<
    (AnnotationKind, Seq<char>, Seq<char>),
> {
    let l = match label {
        Some(l) => l,
        None => Seq::empty(),
    };
    item_requests(
        note_path_of(id, kind, iid),
        "Failed to comment on "@ + kind_name(kind) + " "@ + dec(iid as int) + ": "@,
        label_path_of(id, kind, iid, l),
        "Failed to label "@ + kind_name(kind) + " "@ + dec(iid as int) + ": "@,
        label is Some,
    )
}

/// The requests for items `iids` of `kind`, item by item in order.
pub open spec fn annotations_for(id: Seq<char>, kind: ItemKind, iids: Seq<i64>, label: Option<Seq<char>>) -> Seq<
    (AnnotationKind, Seq<char>, Seq<char>),
>
    decreases iids.len(),
{
    if iids.len() == 0 {
        Seq::empty()
    } else {
        annotations_for(id, kind, iids.drop_last(), label) + item_annotation(id, kind, iids.last(), label)
    }
}

/// The whole annotation pass: every merge request, then every issue, each
/// getting its note and then, when a label is configured, its label.
pub open spec fn annotation_plan_of(id: Seq<char>, mrs: Seq<i64>, issues: Seq<i64>, label: Option<Seq<char>>) -> Seq<
    (AnnotationKind, Seq<char>, Seq<char>),
> {
    annotations_for(id, ItemKind::MergeRequest, mrs, label) + annotations_for(id, ItemKind::Issue, issues, label)
}

/// The annotation requests for items `iids` of `kind`, spelled out: item
/// `k`, in order, gets its note request and, exactly when a label is set,
/// its label request right after it; nothing depends on any response.
pub proof fn lemma_annotations_for_shape(id: Seq<char>, kind: ItemKind, iids: Seq<i64>, label: Option<Seq<char>>)
    ensures
        label is None ==> {
            &&& annotations_for(id, kind, iids, label).len() == iids.len()
            &&& forall|k: int| 0 <= k < iids.len() ==> annotations_for(id, kind, iids, label)[k] == (
                AnnotationKind::Comment,
                note_path_of(id, kind, #[trigger] iids[k]),
                "Failed to comment on "@ + kind_name(kind) + " "@ + dec(iids[k] as int) + ": "@,
            )
        },
        label matches Some(l) ==> {
            &&& annotations_for(id, kind, iids, label).len() == 2 * iids.len()
            &&& forall|k: int| 0 <= k < iids.len() ==> annotations_for(id, kind, iids, label)[2 * k] == (
                AnnotationKind::Comment,
                note_path_of(id, kind, #[trigger] iids[k]),
                "Failed to comment on "@ + kind_name(kind) + " "@ + dec(iids[k] as int) + ": "@,
            ) && annotations_for(id, kind, iids, label)[2 * k + 1] == (
                AnnotationKind::Label,
                label_path_of(id, kind, iids[k], l),
                "Failed to label "@ + kind_name(kind) + " "@ + dec(iids[k] as int) + ": "@,
            )
        },
    decreases iids.len(),
{
    if iids.len() > 0 {
        let d = iids.drop_last();
        lemma_annotations_for_shape(id, kind, d, label);
        let a = annotations_for(id, kind, d, label);
        let t = item_annotation(id, kind, iids.last(), label);
        let all = annotations_for(id, kind, iids, label);
        assert(all == a + t);
        assert forall|k: int| 0 <= k < d.len() implies #[trigger] iids[k] == d[k] by {}
    }
}

/// Appends the requests for items `iids` of `kind`.
fn push_annotations(out: &mut Vec<Annotation>, ctx: &GitlabContext, kind: ItemKind, iids: &Vec<i64>, label: &Option<String>)
    ensures
        annotation_views(final(out)@) == annotation_views(old(out)@) + annotations_for(
            ctx.project_id@,
            kind,
            iids@,
            opt_str(*label),
        ),
{
    let ghost start = annotation_views(out@);
    let mut i: usize = 0;
    assert(iids@.take(0) == Seq::<i64>::empty());
    assert(start + Seq::<(AnnotationKind, Seq<char>, Seq<char>)>::empty() == start);
    while i < iids.len()
        invariant
            i <= iids.len(),
            annotation_views(out@) == start + annotations_for(ctx.project_id@, kind, iids@.take(i as int), opt_str(*label)),
        decreases iids.len() - i,
    {
        let iid = iids[i];
        let note = note_path(ctx, kind, iid);
        let note_warn = note_warning(kind, iid, "");
        let (lpath, lwarn) = match label {
            Some(l) => (label_path(ctx, kind, iid, l.as_str()), label_warning(kind, iid, "")),
            None => (label_path(ctx, kind, iid, ""), label_warning(kind, iid, "")),
        };
        proof {
            reveal_strlit("");
        }
        let ghost before = annotation_views(out@);
        push_item_requests(out, note, note_warn, lpath, lwarn, label.is_some());
        proof {
            assert(iids@.take(i + 1).drop_last() == iids@.take(i as int));
            assert(iids@.take(i + 1).last() == iid);
            assert(item_requests(
                note_path_of(ctx.project_id@, kind, iid),
                "Failed to comment on "@ + kind_name(kind) + " "@ + dec(iid as int) + ": "@,
                match opt_str(*label) { Some(l) => label_path_of(ctx.project_id@, kind, iid, l), None => label_path_of(ctx.project_id@, kind, iid, Seq::empty()) },
                "Failed to label "@ + kind_name(kind) + " "@ + dec(iid as int) + ": "@,
                opt_str(*label) is Some,
            ) == item_annotation(ctx.project_id@, kind, iid, opt_str(*label)));
            assert(annotation_views(out@) == start + annotations_for(ctx.project_id@, kind, iids@.take(i + 1), opt_str(*label)));
        }
        i = i + 1;
    }
    assert(iids@.take(iids.len() as int) == iids@);
}

/// The requests that announce the release on its related items: every merge
/// request, then every issue, each getting its note and then, when a label
/// is configured, its label.
pub fn annotation_plan(ctx: &GitlabContext, merge_requests: &Vec<i64>, issues: &Vec<i64>, label: &Option<String>) -> (r: Vec<Annotation>)
    ensures
        annotation_views(r@) == annotation_plan_of(ctx.project_id@, merge_requests@, issues@, opt_str(*label)),
{
    let mut out: Vec<Annotation> = Vec::new();
    assert(annotation_views(out@) == Seq::<(AnnotationKind, Seq<char>, Seq<char>)>::empty());
    push_annotations(&mut out, ctx, ItemKind::MergeRequest, merge_requests, label);
    push_annotations(&mut out, ctx, ItemKind::Issue, issues, label);
    out
}

/// RFC 3986's unreserved bytes: `A-Z a-z 0-9 - . _ ~`.
pub open spec fn unreserved(b: u8) -> bool {
    ||| 0x41 <= b <= 0x5A
    ||| 0x61 <= b <= 0x7A
    ||| 0x30 <= b <= 0x39
    ||| b == 0x2D
    ||| b == 0x2E
    ||| b == 0x5F
    ||| b == 0x7E
}

/// The upper-case hexadecimal digit of `n < 16`.
pub open spec fn hex_digit(n: u8) -> char {
    if n < 10 {
        ((48 + n) as u8) as char
    } else {
        ((55 + n) as u8) as char
    }
}

/// The value of an upper-case hexadecimal digit.
pub open spec fn hex_value(c: char) -> u8 {
    if '0' <= c && c <= '9' {
        ((c as u32) - 48) as u8
    } else {
        ((c as u32) - 55) as u8
    }
}

/// One byte encoded: itself when unreserved, else `%` and two hex digits.
pub open spec fn encode_byte(b: u8) -> Seq<char> {
    if unreserved(b) {
        seq![b as char]
    } else {
        seq!['%', hex_digit(b / 16), hex_digit(b % 16)]
    }
}

/// The bytes `b` percent-encoded, in order.
pub open spec fn percent_encoded(b: Seq<u8>) -> Seq<char>
    decreases b.len(),
{
    if b.len() == 0 {
        Seq::empty()
    } else {
        encode_byte(b[0]) + percent_encoded(b.drop_first())
    }
}

/// Percent-decoding: `%XY` is the byte `0xXY`, any other character the byte
/// of its code.
pub open spec fn percent_decoded(s: Seq<char>) -> Seq<u8>
    decreases s.len(),
{
    if s.len() == 0 {
        Seq::empty()
    } else if s[0] == '%' && s.len() >= 3 {
        seq![(hex_value(s[1]) * 16 + hex_value(s[2])) as u8] + percent_decoded(s.subrange(3, s.len() as int))
    } else {
        seq![s[0] as u8] + percent_decoded(s.drop_first())
    }
}

/// A character that may appear in encoded text: an unreserved one, `%`, or
/// an upper-case hex digit.
pub open spec fn encoded_char(c: char) -> bool {
    ||| unreserved(c as u8) && (c as u32) < 128
    ||| c == '%'
}

/// Encoding one more byte appends its encoding.
proof fn lemma_encoded_push(b: Seq<u8>, x: u8)
    ensures
        percent_encoded(b.push(x)) == percent_encoded(b) + encode_byte(x),
    decreases b.len(),
{
    if b.len() == 0 {
        assert(b.push(x).drop_first() == Seq::<u8>::empty());
        assert(b.push(x)[0] == x);
        assert(percent_encoded(Seq::<u8>::empty()) == Seq::<char>::empty());
        assert(percent_encoded(b.push(x)) == encode_byte(x) + Seq::<char>::empty());
        assert(encode_byte(x) + Seq::<char>::empty() =~= encode_byte(x));
        assert(percent_encoded(b) == Seq::<char>::empty());
        assert(Seq::<char>::empty() + encode_byte(x) =~= encode_byte(x));
    } else {
        lemma_encoded_push(b.drop_first(), x);
        assert(b.push(x).drop_first() == b.drop_first().push(x));
        assert(b.push(x)[0] == b[0]);
        let e0 = encode_byte(b[0]);
        let t = percent_encoded(b.drop_first());
        assert(e0 + (t + encode_byte(x)) =~= (e0 + t) + encode_byte(x));
    }
}

/// Decoding undoes the encoding of one byte in front of anything.
proof fn lemma_decode_byte(x: u8, rest: Seq<char>)
    ensures
        percent_decoded(encode_byte(x) + rest) == seq![x] + percent_decoded(rest),
{
    let s = encode_byte(x) + rest;
    if unreserved(x) {
        assert(s[0] == x as char);
        assert(s.drop_first() == rest);
        assert((x as char) as u8 == x);
    } else {
        assert(s[0] == '%');
        assert(s.subrange(3, s.len() as int) == rest);
        let hi = x / 16;
        let lo = x % 16;
        assert(hex_value(hex_digit(hi)) == hi);
        assert(hex_value(hex_digit(lo)) == lo);
        assert((hi * 16 + lo) as u8 == x);
    }
}

/// Percent-decoding gives back the encoded bytes.
pub proof fn lemma_percent_round_trip(b: Seq<u8>)
    ensures
        percent_decoded(percent_encoded(b)) == b,
    decreases b.len(),
{
    if b.len() > 0 {
        lemma_percent_round_trip(b.drop_first());
        lemma_decode_byte(b[0], percent_encoded(b.drop_first()));
        assert(seq![b[0]] + b.drop_first() == b);
    }
}

/// The encoded text holds only unreserved characters and `%` escapes: no
/// `&`, `=`, `#`, space or other character that would end the value.
pub proof fn lemma_percent_encoded_chars(b: Seq<u8>)
    ensures
        forall|i: int| 0 <= i < percent_encoded(b).len() ==> {
            let c = #[trigger] percent_encoded(b)[i];
            encoded_char(c) || ('0' <= c <= '9') || ('A' <= c <= 'F')
        },
    decreases b.len(),
{
    if b.len() > 0 {
        lemma_percent_encoded_chars(b.drop_first());
        let e = encode_byte(b[0]);
        let t = percent_encoded(b.drop_first());
        assert(percent_encoded(b) == e + t);
        assert forall|i: int| 0 <= i < percent_encoded(b).len() implies {
            let c = #[trigger] percent_encoded(b)[i];
            encoded_char(c) || ('0' <= c <= '9') || ('A' <= c <= 'F')
        } by {
            if i >= e.len() {
                assert(percent_encoded(b)[i] == t[i - e.len()]);
            } else if unreserved(b[0]) {
                assert(((b[0] as char) as u8) == b[0]);
            }
        }
    }
}

/// The hex digit of `n < 16`.
fn hex_char(n: u8) -> (c: char)
    requires
        n < 16,
    ensures
        c == hex_digit(n),
{
    if n < 10 {
        (48 + n) as char
    } else {
        (55 + n) as char
    }
}

/// Whether a byte is unreserved.
fn is_unreserved(b: u8) -> (r: bool)
    ensures
        r == unreserved(b),
{
    (0x41 <= b && b <= 0x5A) || (0x61 <= b && b <= 0x7A) || (0x30 <= b && b <= 0x39) || b == 0x2D || b == 0x2E
        || b == 0x5F || b == 0x7E
}

/// Percent-encodes a query value byte by byte (its UTF-8 bytes): unreserved
/// bytes stay, every other byte becomes `%XX` in upper-case hex.
pub fn encode_query(s: &str) -> (r: String)
    ensures
        r@ == percent_encoded(s.spec_bytes()),
{
    let bytes = s.as_bytes();
    let mut out = String::new();
    let mut i: usize = 0;
    assert(bytes@.take(0) == Seq::<u8>::empty());
    while i < bytes.len()
        invariant
            i <= bytes@.len(),
            bytes@ == s.spec_bytes(),
            out@ == percent_encoded(bytes@.take(i as int)),
        decreases bytes.len() - i,
    {
        let b = bytes[i];
        proof {
            assert(bytes@.take(i + 1) == bytes@.take(i as int).push(b));
            lemma_encoded_push(bytes@.take(i as int), b);
        }
        if is_unreserved(b) {
            push_char(&mut out, b as char);
        } else {
            push_char(&mut out, '%');
            push_char(&mut out, hex_char(b / 16));
            push_char(&mut out, hex_char(b % 16));
        }
        assert(out@ == percent_encoded(bytes@.take(i as int)) + encode_byte(b));
        i = i + 1;
    }
    assert(bytes@.take(bytes@.len() as int) == bytes@);
    out
}

} // verus!
