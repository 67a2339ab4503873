//! What the GitHub client makes of the review-thread and viewed-file
//! pages of a pull request: which thread each review comment belongs to
//! and whether it is resolved, and which files the viewer has marked as
//! viewed. The caller fetches the pages and hands over their plain values.
use vstd::prelude::*;

use crate::app::{PullRequestReviewComment, ReviewSide};
use crate::github::ApiPullRequestReviewComment;
use crate::text;
use crate::text::{chars_eq, chars_of, eq_ignore_case_chars};

verus! {

/// A review thread as one page of the thread query reports it: its id (when
/// given), whether it is resolved (when given), and the database ids of its
/// comments (each when given).
#[derive(Debug, Clone, PartialEq, Eq)]
pub struct ReviewThreadNode {
    pub id: Option<String>,
    pub is_resolved: Option<bool>,
    pub comment_ids: Vec<Option<i64>>,
}

/// A changed file as one page of the file query reports it.
#[derive(Debug, Clone, PartialEq, Eq)]
pub struct FileViewNode {
    pub path: Option<String>,
    pub viewer_viewed_state: Option<String>,
}

/// One entry of the thread map: a comment id, its thread and whether the
/// thread is resolved.
pub struct ThreadEntryView {
    pub comment_id: i64,
    pub thread_id: Seq<char>,
    pub resolved: bool,
}

/// The entries one thread adds: one per comment with an id, in order.
pub open spec fn entries_of_thread(t: ReviewThreadNode) -> Seq<ThreadEntryView> {
    match t.id {
        None => Seq::empty(),
        Some(id) => comment_entries(t.comment_ids@, id@, match t.is_resolved {
            Some(b) => b,
            None => false,
        }),
    }
}

/// The entries of the comments with ids.
pub open spec fn comment_entries(ids: Seq<Option<i64>>, thread: Seq<char>, resolved: bool) -> Seq<ThreadEntryView>
    decreases ids.len(),
{
    if ids.len() == 0 {
        Seq::empty()
    } else {
        let prev = comment_entries(ids.drop_last(), thread, resolved);
        match ids.last() {
            Some(c) => prev.push(ThreadEntryView { comment_id: c, thread_id: thread, resolved }),
            None => prev,
        }
    }
}

/// The entries of all threads, thread by thread. For a comment listed
/// more than once the last entry counts.
pub open spec fn thread_entries_spec(threads: Seq<ReviewThreadNode>) -> Seq<ThreadEntryView>
    decreases threads.len(),
{
    if threads.len() == 0 {
        Seq::empty()
    } else {
        thread_entries_spec(threads.drop_last()) + entries_of_thread(threads.last())
    }
}

/// The views of thread-map entries.
pub open spec fn entry_views(v: Seq<(i64, String, bool)>) -> Seq<ThreadEntryView> {
    v.map_values(|e: (i64, String, bool)| ThreadEntryView { comment_id: e.0, thread_id: e.1@, resolved: e.2 })
}

/// The thread map of one or more pages of threads: for each comment with an
/// id in a thread with an id, the thread's id and whether it is resolved
/// (not resolved when the page does not say). Threads without an id and
/// comments without one are left out.
pub fn thread_entries(threads: &[ReviewThreadNode]) -> (r: Vec<(i64, String, bool)>)
    ensures
        entry_views(r@) == thread_entries_spec(threads@),
{
    let mut out: Vec<(i64, String, bool)> = Vec::new();
    let mut i: usize = 0;
    while i < threads.len()
        invariant
            i <= threads.len(),
            entry_views(out@) == thread_entries_spec(threads@.take(i as int)),
        decreases threads.len() - i,
    {
        assert(threads@.take(i + 1).drop_last() =~= threads@.take(i as int));
        assert(threads@.take(i + 1).last() == threads@[i as int]);
        let t = &threads[i];
        if let Some(id) = &t.id {
            let resolved = match t.is_resolved {
                Some(b) => b,
                None => false,
            };
            let ghost base = entry_views(out@);
            let mut j: usize = 0;
            while j < t.comment_ids.len()
                invariant
                    j <= t.comment_ids.len(),
                    entry_views(out@) == base + comment_entries(t.comment_ids@.take(j as int), id@, resolved),
                decreases t.comment_ids.len() - j,
            {
                assert(t.comment_ids@.take(j + 1).drop_last() =~= t.comment_ids@.take(j as int));
                assert(t.comment_ids@.take(j + 1).last() == t.comment_ids@[j as int]);
                if let Some(c) = t.comment_ids[j] {
                    let ghost before = out@;
                    out.push((c, id.clone(), resolved));
                    assert(entry_views(out@) =~= entry_views(before).push(
                        ThreadEntryView { comment_id: c, thread_id: id@, resolved },
                    ));
                    assert(base + comment_entries(t.comment_ids@.take(j + 1), id@, resolved) =~= (base
                        + comment_entries(t.comment_ids@.take(j as int), id@, resolved)).push(
                        ThreadEntryView { comment_id: c, thread_id: id@, resolved },
                    ));
                }
                j = j + 1;
            }
            assert(t.comment_ids@.take(t.comment_ids.len() as int) =~= t.comment_ids@);
        } else {
            assert(thread_entries_spec(threads@.take(i + 1)) =~= thread_entries_spec(threads@.take(i as int)));
        }
        i = i + 1;
    }
    assert(threads@.take(threads.len() as int) =~= threads@);
    out
}

/// The last entry for comment `id`, if any.
pub open spec fn last_entry_for(entries: Seq<ThreadEntryView>, id: i64) -> Option<ThreadEntryView>
    decreases entries.len(),
{
    if entries.len() == 0 {
        None
    } else if entries.last().comment_id == id {
        Some(entries.last())
    } else {
        last_entry_for(entries.drop_last(), id)
    }
}

/// `after` is `before` with the thread of its last entry filled in, when
/// the map has one.
pub open spec fn with_thread(
    before: ApiPullRequestReviewComment,
    after: ApiPullRequestReviewComment,
    entries: Seq<ThreadEntryView>,
) -> bool {
    match last_entry_for(entries, before.id) {
        Some(e) => {
            &&& after.thread_id matches Some(t) && t@ == e.thread_id
            &&& after.is_resolved == e.resolved
            &&& after == (ApiPullRequestReviewComment {
                thread_id: after.thread_id,
                is_resolved: after.is_resolved,
                ..before
            })
        },
        None => after == before,
    }
}

/// The comments of a page with their threads filled in from the thread map:
/// a comment the map knows gets the thread id and resolved flag of its
/// last entry; the others are kept as they are.
pub fn attach_threads(
    batch: Vec<ApiPullRequestReviewComment>,
    entries: &[(i64, String, bool)],
) -> (r: Vec<ApiPullRequestReviewComment>)
    ensures
        r.len() == batch.len(),
        forall|k: int| 0 <= k < r.len() ==> with_thread(batch@[k], #[trigger] r@[k], entry_views(entries@)),
{
    let ghost ev = entry_views(entries@);
    let mut out: Vec<ApiPullRequestReviewComment> = Vec::new();
    let mut k: usize = 0;
    while k < batch.len()
        invariant
            k <= batch.len(),
            ev == entry_views(entries@),
            out.len() == k,
            forall|m: int| 0 <= m < k ==> with_thread(batch@[m], #[trigger] out@[m], ev),
        decreases batch.len() - k,
    {
        let mut c = copy_comment(&batch[k]);
        match last_entry_index(entries, c.id) {
            Some(p) => {
                c.thread_id = Some(entries[p].1.clone());
                c.is_resolved = entries[p].2;
            },
            None => {},
        }
        out.push(c);
        k = k + 1;
    }
    out
}

/// A copy of an optional string.
fn copy_opt_string(o: &Option<String>) -> (r: Option<String>)
    ensures
        r == *o,
{
    match o {
        Some(s) => Some(s.clone()),
        None => None,
    }
}

/// A copy of a review comment.
fn copy_comment(c: &ApiPullRequestReviewComment) -> (r: ApiPullRequestReviewComment)
    ensures
        r == *c,
{
    ApiPullRequestReviewComment {
        id: c.id,
        thread_id: copy_opt_string(&c.thread_id),
        is_resolved: c.is_resolved,
        path: c.path.clone(),
        line: c.line,
        original_line: c.original_line,
        side: copy_opt_string(&c.side),
        in_reply_to_id: c.in_reply_to_id,
        body: copy_opt_string(&c.body),
        created_at: copy_opt_string(&c.created_at),
        user: crate::github::ApiUser { login: c.user.login.clone(), user_type: copy_opt_string(&c.user.user_type) },
    }
}

/// Where the last entry for comment `id` is.
fn last_entry_index(entries: &[(i64, String, bool)], id: i64) -> (r: Option<usize>)
    ensures
        r matches Some(p) ==> p < entries.len() && last_entry_for(entry_views(entries@), id) == Some(
            entry_views(entries@)[p as int],
        ),
        r is None ==> last_entry_for(entry_views(entries@), id) is None,
{
    let ghost ev = entry_views(entries@);
    let mut i: usize = entries.len();
    assert(ev.take(i as int) =~= ev);
    while i > 0
        invariant
            i <= entries.len(),
            ev == entry_views(entries@),
            last_entry_for(ev, id) == last_entry_for(ev.take(i as int), id),
        decreases i,
    {
        let ghost t = ev.take(i as int);
        assert(t.last() == ev[i - 1]);
        if entries[i - 1].0 == id {
            return Some(i - 1);
        }
        assert(t.drop_last() =~= ev.take(i - 1));
        i = i - 1;
    }
    None
}

/// The paths of the files marked `VIEWED` (in any case), each once, in
/// the order they first appear; nodes without a path are left out.
pub open spec fn viewed_paths_spec(nodes: Seq<FileViewNode>) -> Seq<Seq<char>>
    decreases nodes.len(),
{
    if nodes.len() == 0 {
        Seq::empty()
    } else {
        let prev = viewed_paths_spec(nodes.drop_last());
        let n = nodes.last();
        match (n.path, n.viewer_viewed_state) {
            (Some(p), Some(st)) => if text::eq_ignore_case(st@, "VIEWED"@) && !prev.contains(p@) {
                prev.push(p@)
            } else {
                prev
            },
            _ => prev,
        }
    }
}

/// The paths of the files the viewer marked as viewed.
pub fn viewed_paths(nodes: &[FileViewNode]) -> (r: Vec<String>)
    ensures
        text::string_views(r@) == viewed_paths_spec(nodes@),
{
    let viewed = chars_of("VIEWED");
    let mut out: Vec<String> = Vec::new();
    let mut i: usize = 0;
    while i < nodes.len()
        invariant
            i <= nodes.len(),
            viewed@ == "VIEWED"@,
            text::string_views(out@) == viewed_paths_spec(nodes@.take(i as int)),
        decreases nodes.len() - i,
    {
        assert(nodes@.take(i + 1).drop_last() =~= nodes@.take(i as int));
        assert(nodes@.take(i + 1).last() == nodes@[i as int]);
        let node = &nodes[i];
        match (&node.path, &node.viewer_viewed_state) {
            (Some(p), Some(st)) => {
                let sc = chars_of(st.as_str());
                if eq_ignore_case_chars(sc.as_slice(), viewed.as_slice()) {
                    let pc = chars_of(p.as_str());
                    let ghost prev = text::string_views(out@);
                    let mut seen = false;
                    let mut k: usize = 0;
                    while k < out.len()
                        invariant
                            k <= out.len(),
                            prev == text::string_views(out@),
                            pc@ == p@,
                            seen <==> exists|m: int| 0 <= m < k && prev[m] == p@,
                        decreases out.len() - k,
                    {
                        let oc = chars_of(out[k].as_str());
                        assert(prev[k as int] == out@[k as int]@);
                        if chars_eq(oc.as_slice(), pc.as_slice()) {
                            seen = true;
                        }
                        k = k + 1;
                    }
                    if !seen {
                        out.push(p.clone());
                        assert(text::string_views(out@) =~= prev.push(p@));
                    }
                }
            },
            _ => {},
        }
        i = i + 1;
    }
    assert(nodes@.take(nodes.len() as int) =~= nodes@);
    out
}

/// Whether to ask for another page, and from which cursor: only when the
/// page says there is a next one.
pub fn next_page_cursor(has_next_page: Option<bool>, end_cursor: Option<String>) -> (r: Option<Option<String>>)
    ensures
        r == if has_next_page == Some(true) {
            Some(end_cursor)
        } else {
            None::<Option<String>>
        },
{
    match has_next_page {
        Some(true) => Some(end_cursor),
        _ => None,
    }
}


/// The side a comment's `side` field names: left when it says `left` in
/// any case, right otherwise (and when it is missing).
pub open spec fn side_named(side: Option<String>) -> ReviewSide {
    match side {
        Some(s) => if text::eq_ignore_case(s@, "left"@) {
            ReviewSide::Left
        } else {
            ReviewSide::Right
        },
        None => ReviewSide::Right,
    }
}

/// The anchor a comment gives itself: its line (its original line when it
/// has no current one), its side and its path; none without a line.
pub open spec fn own_anchor(c: ApiPullRequestReviewComment) -> Option<(i64, ReviewSide, String)> {
    let line = if c.line is Some { c.line } else { c.original_line };
    match line {
        Some(l) => Some((l, side_named(c.side), c.path)),
        None => None,
    }
}

/// The anchor known for comment `id`: that of the last comment with this id
/// that gives itself one.
pub open spec fn anchor_for(cs: Seq<ApiPullRequestReviewComment>, id: i64) -> Option<(i64, ReviewSide, String)>
    decreases cs.len(),
{
    if cs.len() == 0 {
        None
    } else if cs.last().id == id && own_anchor(cs.last()) is Some {
        own_anchor(cs.last())
    } else {
        anchor_for(cs.drop_last(), id)
    }
}

/// Where a comment is shown: its own anchor, else, for a reply, the anchor
/// of the comment it replies to.
pub open spec fn comment_anchor(
    cs: Seq<ApiPullRequestReviewComment>,
    c: ApiPullRequestReviewComment,
) -> Option<(i64, ReviewSide, String)> {
    match anchor_for(cs, c.id) {
        Some(a) => Some(a),
        None => match c.in_reply_to_id {
            Some(parent) => anchor_for(cs, parent),
            None => None,
        },
    }
}

/// `out` is comment `c` of `cs` as the review shows it: anchored where
/// `comment_anchor` says, or on line 0 of the right side of its own path
/// and marked unanchored; its thread, resolution, creation time and id as
/// given, its body (empty when missing) and its author's login.
pub open spec fn shown_comment(
    cs: Seq<ApiPullRequestReviewComment>,
    c: ApiPullRequestReviewComment,
    out: PullRequestReviewComment,
) -> bool {
    &&& out.id == c.id
    &&& out.thread_id == c.thread_id
    &&& out.resolved == c.is_resolved
    &&& out.created_at == c.created_at
    &&& out.author == c.user.login
    &&& out.body@ == match c.body {
        Some(b) => b@,
        None => Seq::<char>::empty(),
    }
    &&& match comment_anchor(cs, c) {
        Some((line, side, path)) => out.anchored && out.line == line && out.side == side && out.path == path,
        None => !out.anchored && out.line == 0 && out.side == ReviewSide::Right && out.path == c.path,
    }
}

/// The side a comment's `side` field names.
fn side_of(side: &Option<String>) -> (r: ReviewSide)
    ensures
        r == side_named(*side),
{
    match side {
        Some(s) => {
            let cs = chars_of(s.as_str());
            let left = chars_of("left");
            if eq_ignore_case_chars(cs.as_slice(), left.as_slice()) {
                ReviewSide::Left
            } else {
                ReviewSide::Right
            }
        },
        None => ReviewSide::Right,
    }
}

/// The anchor a comment gives itself.
fn own_anchor_of(c: &ApiPullRequestReviewComment) -> (r: Option<(i64, ReviewSide, String)>)
    ensures
        r == own_anchor(*c),
{
    let line = if c.line.is_some() { c.line } else { c.original_line };
    match line {
        Some(l) => Some((l, side_of(&c.side), c.path.clone())),
        None => None,
    }
}

/// The anchor known for comment `id`.
fn anchor_lookup(cs: &[ApiPullRequestReviewComment], id: i64) -> (r: Option<(i64, ReviewSide, String)>)
    ensures
        r == anchor_for(cs@, id),
{
    let mut i: usize = cs.len();
    assert(cs@.take(i as int) =~= cs@);
    while i > 0
        invariant
            i <= cs.len(),
            anchor_for(cs@, id) == anchor_for(cs@.take(i as int), id),
        decreases i,
    {
        let ghost t = cs@.take(i as int);
        assert(t.last() == cs@[i - 1]);
        assert(t.drop_last() =~= cs@.take(i - 1));
        if cs[i - 1].id == id {
            let own = own_anchor_of(&cs[i - 1]);
            if own.is_some() {
                return own;
            }
        }
        i = i - 1;
    }
    None
}

/// The review comments of a pull request as the review shows them: each
/// anchored on its line (or original line) and side, a reply without an
/// anchor of its own on its parent's, and the rest unanchored (see
/// `shown_comment`), in the order given.
pub fn review_comments_from_api(comments: Vec<ApiPullRequestReviewComment>) -> (r: Vec<PullRequestReviewComment>)
    ensures
        r.len() == comments.len(),
        forall|k: int| 0 <= k < r.len() ==> shown_comment(comments@, comments@[k], #[trigger] r@[k]),
{
    let mut out: Vec<PullRequestReviewComment> = Vec::new();
    let mut k: usize = 0;
    while k < comments.len()
        invariant
            k <= comments.len(),
            out.len() == k,
            forall|m: int| 0 <= m < k ==> shown_comment(comments@, comments@[m], #[trigger] out@[m]),
        decreases comments.len() - k,
    {
        let c = &comments[k];
        let anchor = match anchor_lookup(comments.as_slice(), c.id) {
            Some(a) => Some(a),
            None => match c.in_reply_to_id {
                Some(parent) => anchor_lookup(comments.as_slice(), parent),
                None => None,
            },
        };
        let (line, side, path, anchored) = match anchor {
            Some((l, sd, p)) => (l, sd, p, true),
            None => (0i64, ReviewSide::Right, c.path.clone(), false),
        };
        let body = match &c.body {
            Some(b) => b.clone(),
            None => String::new(),
        };
        out.push(
            PullRequestReviewComment {
                id: c.id,
                thread_id: copy_opt_string(&c.thread_id),
                resolved: c.is_resolved,
                anchored,
                path,
                line,
                side,
                body,
                author: c.user.login.clone(),
                created_at: copy_opt_string(&c.created_at),
            },
        );
        k = k + 1;
    }
    out
}

/// A comment node of the review-thread query: each field when the reply
/// gave it.
#[derive(Debug, Clone, PartialEq, Eq)]
pub struct ReviewCommentNode {
    pub database_id: Option<i64>,
    pub path: Option<String>,
    pub line: Option<i64>,
    pub original_line: Option<i64>,
    pub diff_side: Option<String>,
    pub body: Option<String>,
    pub created_at: Option<String>,
    pub author_login: Option<String>,
}

/// A thread node of the review-thread query with its comment nodes.
#[derive(Debug, Clone, PartialEq, Eq)]
pub struct ReviewThreadComments {
    pub id: Option<String>,
    pub is_resolved: Option<bool>,
    pub comments: Vec<ReviewCommentNode>,
}

/// `out` is comment node `n` of a thread (id `thread_id`, resolved when
/// `resolved`) as a review comment: its id and path, which it must have,
/// its lines, side, body and time as given, its author's login or
/// `unknown`, and the thread's id and resolution.
pub open spec fn comment_of_node(
    thread_id: Option<String>,
    resolved: bool,
    n: ReviewCommentNode,
    out: ApiPullRequestReviewComment,
) -> bool {
    &&& n.database_id == Some(out.id)
    &&& n.path == Some(out.path)
    &&& out.thread_id == thread_id
    &&& out.is_resolved == resolved
    &&& out.line == n.line
    &&& out.original_line == n.original_line
    &&& out.side == n.diff_side
    &&& out.in_reply_to_id is None
    &&& out.body == n.body
    &&& out.created_at == n.created_at
    &&& out.user.login@ == match n.author_login {
        Some(a) => a@,
        None => "unknown"@,
    }
    &&& out.user.user_type is None
}

/// The review comment a comment node gives; none when it lacks an id or a path.
pub fn comment_from_node(
    thread_id: &Option<String>,
    resolved: bool,
    n: &ReviewCommentNode,
) -> (r: Option<ApiPullRequestReviewComment>)
    ensures
        r is None <==> (n.database_id is None || n.path is None),
        r matches Some(c) ==> comment_of_node(*thread_id, resolved, *n, c),
{
    let id = match n.database_id {
        Some(id) => id,
        None => return None,
    };
    let path = match &n.path {
        Some(p) => p.clone(),
        None => return None,
    };
    let login = match &n.author_login {
        Some(a) => a.clone(),
        None => String::from_str("unknown"),
    };
    proof {
        reveal_strlit("unknown");
    }
    Some(ApiPullRequestReviewComment {
        id,
        thread_id: copy_opt_string(thread_id),
        is_resolved: resolved,
        path,
        line: n.line,
        original_line: n.original_line,
        side: copy_opt_string(&n.diff_side),
        in_reply_to_id: None,
        body: copy_opt_string(&n.body),
        created_at: copy_opt_string(&n.created_at),
        user: crate::github::ApiUser { login, user_type: None },
    })
}

/// The comment nodes of a page that carry an id and a path, thread by
/// thread, each with its position: `picks[k]` is the thread and comment
/// index that the `k`-th comment comes from.
pub open spec fn page_comments(
    threads: Seq<ReviewThreadComments>,
    out: Seq<ApiPullRequestReviewComment>,
    picks: Seq<(int, int)>,
) -> bool {
    &&& picks.len() == out.len()
    &&& forall|k: int| 0 <= k < out.len() ==> {
        let (t, m) = #[trigger] picks[k];
        &&& 0 <= t < threads.len()
        &&& 0 <= m < threads[t].comments@.len()
        &&& comment_of_node(
            threads[t].id,
            match threads[t].is_resolved { Some(b) => b, None => false },
            threads[t].comments@[m],
            out[k],
        )
    }
    &&& forall|k: int, l: int| 0 <= k < l < picks.len() ==> #[trigger] picks[k].0 < #[trigger] picks[l].0 || (
        picks[k].0 == picks[l].0 && picks[k].1 < picks[l].1)
    &&& forall|t: int, m: int|
        0 <= t < threads.len() && 0 <= m < threads[t].comments@.len() && (#[trigger] threads[t].comments@[m]).database_id
            is Some && threads[t].comments@[m].path is Some ==> exists|k: int|
            0 <= k < picks.len() && #[trigger] picks[k] == (t, m)
}

/// The review comments of one page of the thread query, in thread order
/// and in order within each thread; a thread without a resolution given
/// counts as unresolved, and comment nodes without an id or path are
/// skipped (see `page_comments`).
pub fn comments_from_threads(threads: &[ReviewThreadComments]) -> (r: Vec<ApiPullRequestReviewComment>)
    ensures
        exists|picks: Seq<(int, int)>| page_comments(threads@, r@, picks),
{
    let mut out: Vec<ApiPullRequestReviewComment> = Vec::new();
    let ghost mut picks: Seq<(int, int)> = Seq::empty();
    let mut t: usize = 0;
    while t < threads.len()
        invariant
            t <= threads.len(),
            picks.len() == out.len(),
            forall|k: int| 0 <= k < out.len() ==> {
                let (a, m) = #[trigger] picks[k];
                &&& 0 <= a < t
                &&& 0 <= m < threads@[a].comments@.len()
                &&& comment_of_node(
                    threads@[a].id,
                    match threads@[a].is_resolved { Some(b) => b, None => false },
                    threads@[a].comments@[m],
                    out@[k],
                )
            },
            forall|k: int, l: int| 0 <= k < l < picks.len() ==> #[trigger] picks[k].0 < #[trigger] picks[l].0 || (
                picks[k].0 == picks[l].0 && picks[k].1 < picks[l].1),
            forall|a: int, m: int|
                0 <= a < t && 0 <= m < threads@[a].comments@.len() && (#[trigger] threads@[a].comments@[m]).database_id
                    is Some && threads@[a].comments@[m].path is Some ==> exists|k: int|
                    0 <= k < picks.len() && #[trigger] picks[k] == (a, m),
        decreases threads.len() - t,
    {
        let th = &threads[t];
        let resolved = match th.is_resolved {
            Some(b) => b,
            None => false,
        };
        let mut m: usize = 0;
        while m < th.comments.len()
            invariant
                t < threads.len(),
                th == &threads@[t as int],
                resolved == match threads@[t as int].is_resolved { Some(b) => b, None => false },
                m <= th.comments.len(),
                picks.len() == out.len(),
                forall|k: int| 0 <= k < out.len() ==> {
                    let (a, mm) = #[trigger] picks[k];
                    &&& 0 <= a <= t
                    &&& 0 <= mm < threads@[a].comments@.len()
                    &&& (a == t ==> mm < m)
                    &&& comment_of_node(
                        threads@[a].id,
                        match threads@[a].is_resolved { Some(b) => b, None => false },
                        threads@[a].comments@[mm],
                        out@[k],
                    )
                },
                forall|k: int, l: int| 0 <= k < l < picks.len() ==> #[trigger] picks[k].0 < #[trigger] picks[l].0 || (
                    picks[k].0 == picks[l].0 && picks[k].1 < picks[l].1),
                forall|a: int, mm: int|
                    0 <= a < t && 0 <= mm < threads@[a].comments@.len() && (#[trigger] threads@[a].comments@[mm]).database_id
                        is Some && threads@[a].comments@[mm].path is Some ==> exists|k: int|
                        0 <= k < picks.len() && #[trigger] picks[k] == (a, mm),
                forall|mm: int|
                    0 <= mm < m && (#[trigger] threads@[t as int].comments@[mm]).database_id is Some
                        && threads@[t as int].comments@[mm].path is Some ==> exists|k: int|
                        0 <= k < picks.len() && #[trigger] picks[k] == (t as int, mm),
            decreases th.comments.len() - m,
        {
            match comment_from_node(&th.id, resolved, &th.comments[m]) {
                Some(c) => {
                    out.push(c);
                    proof {
                        let old_picks = picks;
                        picks = picks.push((t as int, m as int));
                        assert forall|a: int, mm: int|
                            0 <= a < t && 0 <= mm < threads@[a].comments@.len() && (#[trigger] threads@[a].comments@[mm]).database_id
                                is Some && threads@[a].comments@[mm].path is Some implies exists|k: int|
                                0 <= k < picks.len() && #[trigger] picks[k] == (a, mm) by {
                            let k = choose|k: int| 0 <= k < old_picks.len() && #[trigger] old_picks[k] == (a, mm);
                            assert(picks[k] == old_picks[k]);
                        }
                        assert forall|mm: int|
                            0 <= mm < m + 1 && (#[trigger] threads@[t as int].comments@[mm]).database_id is Some
                                && threads@[t as int].comments@[mm].path is Some implies exists|k: int|
                                0 <= k < picks.len() && #[trigger] picks[k] == (t as int, mm) by {
                            if mm < m {
                                let k = choose|k: int| 0 <= k < old_picks.len() && #[trigger] old_picks[k] == (t as int, mm);
                                assert(picks[k] == old_picks[k]);
                            } else {
                                assert(picks[old_picks.len() as int] == (t as int, mm));
                            }
                        }
                    }
                },
                None => {},
            }
            m = m + 1;
        }
        t = t + 1;
    }
    assert(page_comments(threads@, out@, picks));
    out
}
/// A comment with a current line is shown on that line: its own anchor is
/// its current line (its original line counts only when it has no current
/// one), and when no later comment in the list has its id, the review shows
/// it anchored on that line, on its own path.
pub proof fn lemma_current_line_anchors(cs: Seq<ApiPullRequestReviewComment>, k: int, out: PullRequestReviewComment)
    requires
        0 <= k < cs.len(),
        forall|j: int| k < j < cs.len() ==> (#[trigger] cs[j]).id != cs[k].id,
        shown_comment(cs, cs[k], out),
    ensures
        cs[k].line matches Some(l) ==> own_anchor(cs[k]) matches Some(a) && a.0 == l,
        cs[k].line is None ==> own_anchor(cs[k]) == match cs[k].original_line {
            Some(l) => Some((l, side_named(cs[k].side), cs[k].path)),
            None => None,
        },
        cs[k].line matches Some(l) ==> out.anchored && out.line == l && out.path == cs[k].path,
{
    if cs[k].line is Some {
        lemma_anchor_for_last_with_id(cs, k);
    }
}

proof fn lemma_anchor_for_last_with_id(cs: Seq<ApiPullRequestReviewComment>, k: int)
    requires
        0 <= k < cs.len(),
        forall|j: int| k < j < cs.len() ==> (#[trigger] cs[j]).id != cs[k].id,
        own_anchor(cs[k]) is Some,
    ensures
        anchor_for(cs, cs[k].id) == own_anchor(cs[k]),
    decreases cs.len(),
{
    if k < cs.len() - 1 {
        let d = cs.drop_last();
        assert(cs.last().id != cs[k].id);
        assert(d[k] == cs[k]);
        assert forall|j: int| k < j < d.len() implies (#[trigger] d[j]).id != d[k].id by {
            assert(d[j] == cs[j]);
        }
        lemma_anchor_for_last_with_id(d, k);
    }
}

} // verus!
