//! An opened issue: its comments, the highlighted comment, and how far the
//! body, the recent-comments pane and the full comments view are scrolled.
use vstd::prelude::*;

use crate::text;
use crate::issue_list::copy_opt;
use crate::text::{append_chars, chars_of, string_of, u64_text};

verus! {

broadcast use vstd::string::group_string_axioms;

/// A comment on an issue.
#[derive(Debug, Clone, PartialEq, Eq)]
pub struct CommentRow {
    pub id: i64,
    pub issue_id: i64,
    pub author: String,
    pub body: String,
    pub created_at: Option<String>,
    pub last_accessed_at: Option<String>,
}

/// The model of an opened issue's view state.
pub struct IssueDetailView {
    pub comments: Seq<CommentRow>,
    pub selected: usize,
    pub comments_scroll: u16,
    pub comments_max: u16,
    pub recent_scroll: u16,
    pub recent_max: u16,
    pub body_scroll: u16,
    pub body_max: u16,
    pub status: Seq<char>,
}

/// The view state of an opened issue.
pub struct IssueDetailState {
    comments: Vec<CommentRow>,
    selected: usize,
    comments_scroll: u16,
    comments_max: u16,
    recent_scroll: u16,
    recent_max: u16,
    body_scroll: u16,
    body_max: u16,
    status: String,
}

impl vstd::view::View for IssueDetailState {
    type V = IssueDetailView;

    closed spec fn view(&self) -> IssueDetailView {
        IssueDetailView {
            comments: self.comments@,
            selected: self.selected,
            comments_scroll: self.comments_scroll,
            comments_max: self.comments_max,
            recent_scroll: self.recent_scroll,
            recent_max: self.recent_max,
            body_scroll: self.body_scroll,
            body_max: self.body_max,
            status: self.status@,
        }
    }
}

/// Where the first comment with id `id` is.
pub open spec fn first_with_id(cs: Seq<CommentRow>, id: i64) -> Option<int>
    decreases cs.len(),
{
    if cs.len() == 0 {
        None
    } else {
        match first_with_id(cs.drop_last(), id) {
            Some(j) => Some(j),
            None => if cs.last().id == id {
                Some(cs.len() - 1)
            } else {
                None
            },
        }
    }
}

/// The lines a comment takes in the full comments view: a header line,
/// its rendered body (at least one line) and a blank line.
pub open spec fn comment_height(rendered: usize) -> int {
    2 + if rendered == 0 { 1int } else { rendered as int }
}

/// The lines the comments with these rendered body heights take, one after another.
pub open spec fn comments_height(rendered: Seq<usize>) -> int
    decreases rendered.len(),
{
    if rendered.len() == 0 {
        0
    } else {
        comments_height(rendered.drop_last()) + comment_height(rendered.last())
    }
}

/// The line on which each comment starts, capped at the largest scroll.
pub open spec fn offsets_spec(rendered: Seq<usize>) -> Seq<u16> {
    Seq::new(
        rendered.len(),
        |i: int|
            {
                let h = comments_height(rendered.take(i));
                if h > u16::MAX { u16::MAX } else { h as u16 }
            },
    )
}

/// `Comment i/n`.
pub open spec fn comment_status(i: nat, n: nat) -> Seq<char> {
    "Comment "@ + text::nat_text(i) + "/"@ + text::nat_text(n)
}

/// `s` scrolled one line further, up to `max`.
pub open spec fn scrolled_down(s: u16, max: u16) -> u16 {
    if s < max { (s + 1) as u16 } else { max }
}

/// `s` scrolled one line back.
pub open spec fn scrolled_up(s: u16) -> u16 {
    if s > 0 { (s - 1) as u16 } else { 0 }
}

/// A scroll pulled back within a new limit.
pub open spec fn clamped(s: u16, max: u16) -> u16 {
    if s > max { max } else { s }
}

/// The highlight after the comment at `p` left a list of `len` comments:
/// it stays on the same comment where it can, else on the one now last.
pub open spec fn selected_after_removal(selected: usize, p: int, len: int) -> usize {
    if len == 0 {
        0
    } else if selected >= len {
        (len - 1) as usize
    } else if p <= selected && selected > 0 {
        (selected - 1) as usize
    } else {
        selected
    }
}

/// Finding a comment by id finds the first comment with that id, and finds
/// one whenever one is there.
pub proof fn lemma_first_with_id_finds(cs: Seq<CommentRow>, id: i64)
    ensures
        first_with_id(cs, id) matches Some(j) ==> 0 <= j < cs.len() && cs[j].id == id && forall|k: int|
            0 <= k < j ==> #[trigger] cs[k].id != id,
        (exists|k: int| 0 <= k < cs.len() && #[trigger] cs[k].id == id) ==> first_with_id(cs, id) is Some,
    decreases cs.len(),
{
    if cs.len() > 0 {
        let init = cs.drop_last();
        lemma_first_with_id_finds(init, id);
        if exists|k: int| 0 <= k < cs.len() && #[trigger] cs[k].id == id {
            let k = choose|k: int| 0 <= k < cs.len() && #[trigger] cs[k].id == id;
            if k < cs.len() - 1 {
                assert(init[k].id == id);
            }
        }
        match first_with_id(init, id) {
            Some(j) => {
                assert forall|k: int| 0 <= k < j implies #[trigger] cs[k].id != id by {
                    assert(cs[k] == init[k]);
                }
            },
            None => {
                assert forall|k: int| 0 <= k < cs.len() - 1 implies #[trigger] cs[k].id != id by {
                    assert(cs[k] == init[k]);
                    if cs[k].id == id {
                        assert(init[k].id == id);
                    }
                }
            },
        }
    }
}

/// Removing a comment other than the highlighted one leaves the highlight
/// on the same comment.
pub proof fn lemma_removal_keeps_highlight(cs: Seq<CommentRow>, selected: usize, p: int)
    requires
        0 <= p < cs.len(),
        selected < cs.len(),
        p != selected,
    ensures
        ({
            let rest = cs.remove(p);
            let s = selected_after_removal(selected, p, rest.len() as int);
            s < rest.len() && rest[s as int] == cs[selected as int]
        }),
{
}

/// The view after going to the next comment, given where the comments start:
/// the highlight moves on and the view scrolls to the comment's start
/// (within the limit); at the last comment nothing changes.
pub open spec fn next_comment_view(v: IssueDetailView, offsets: Seq<u16>) -> IssueDetailView {
    if offsets.len() == 0 || v.selected + 1 >= offsets.len() {
        v
    } else {
        IssueDetailView {
            selected: (v.selected + 1) as usize,
            comments_scroll: clamped(offsets[v.selected + 1], v.comments_max),
            status: comment_status((v.selected + 2) as nat, offsets.len() as nat),
            ..v
        }
    }
}

/// The view after going to the previous comment: the highlight moves back
/// and the view scrolls to the comment's start; at the first comment
/// nothing changes.
pub open spec fn prev_comment_view(v: IssueDetailView, offsets: Seq<u16>) -> IssueDetailView {
    if offsets.len() == 0 || v.selected == 0 {
        v
    } else {
        IssueDetailView {
            selected: (v.selected - 1) as usize,
            comments_scroll: offsets[v.selected - 1],
            status: comment_status(v.selected as nat, offsets.len() as nat),
            ..v
        }
    }
}

/// Going to the next comment and back highlights the same comment again,
/// scrolled to where it starts (when that is within the limit).
pub proof fn lemma_next_then_previous_comment(v: IssueDetailView, offsets: Seq<u16>)
    requires
        v.selected + 1 < offsets.len(),
        offsets.len() <= usize::MAX,
    ensures
        ({
            let back = prev_comment_view(next_comment_view(v, offsets), offsets);
            &&& back.selected == v.selected
            &&& back.comments_scroll == offsets[v.selected as int]
            &&& back.comments == v.comments
        }),
{
}

/// The body heights only grow as comments are added.
proof fn lemma_comments_height_prefix(rendered: Seq<usize>, i: int)
    requires
        0 <= i <= rendered.len(),
    ensures
        0 <= comments_height(rendered.take(i)) <= comments_height(rendered),
    decreases rendered.len() - i,
{
    if i < rendered.len() {
        lemma_comments_height_prefix(rendered, i + 1);
        assert(rendered.take(i + 1).drop_last() =~= rendered.take(i));
        lemma_comments_height_nonneg(rendered.take(i));
    } else {
        assert(rendered.take(i) =~= rendered);
        lemma_comments_height_nonneg(rendered);
    }
}

proof fn lemma_comments_height_nonneg(rendered: Seq<usize>)
    ensures
        comments_height(rendered) >= 0,
    decreases rendered.len(),
{
    if rendered.len() > 0 {
        lemma_comments_height_nonneg(rendered.drop_last());
    }
}

/// The line on which each comment starts in the full comments view, given
/// how many lines each comment's body renders to; a start past the largest
/// scroll is capped there.
pub fn comment_offsets(rendered: &[usize]) -> (r: Vec<u16>)
    requires
        comments_height(rendered@) <= usize::MAX,
    ensures
        r@ == offsets_spec(rendered@),
{
    let mut out: Vec<u16> = Vec::new();
    let mut line: usize = 0;
    let mut i: usize = 0;
    while i < rendered.len()
        invariant
            i <= rendered.len(),
            comments_height(rendered@) <= usize::MAX,
            line as int == comments_height(rendered@.take(i as int)),
            out@ =~= offsets_spec(rendered@.take(i as int)),
        decreases rendered.len() - i,
    {
        proof {
            lemma_comments_height_prefix(rendered@, i + 1);
            assert(rendered@.take(i + 1).drop_last() =~= rendered@.take(i as int));
        }
        let capped: u16 = if line > 65535 { 65535 } else { line as u16 };
        out.push(capped);
        let body: usize = if rendered[i] == 0 { 1 } else { rendered[i] };
        line = line + 1 + body + 1;
        i = i + 1;
        proof {
            let t = rendered@.take(i as int);
            assert forall|k: int| 0 <= k < t.len() implies #[trigger] out@[k] == offsets_spec(t)[k] by {
                assert(t.take(k) =~= rendered@.take(k));
                if k < i - 1 {
                    assert(rendered@.take(i - 1).take(k) =~= rendered@.take(k));
                }
            }
        }
    }
    assert(rendered@.take(rendered.len() as int) =~= rendered@);
    out
}

/// `Comment i/n`.
fn comment_status_text(i: usize, n: usize) -> (r: String)
    ensures
        r@ == comment_status(i as nat, n as nat),
{
    let mut out = chars_of("Comment ");
    let a = u64_text(i as u64);
    append_chars(&mut out, a.as_slice());
    let slash = chars_of("/");
    append_chars(&mut out, slash.as_slice());
    let b = u64_text(n as u64);
    append_chars(&mut out, b.as_slice());
    string_of(out.as_slice())
}

/// `c` with its body replaced.
fn with_body(c: &CommentRow, body: &str) -> (r: CommentRow)
    ensures
        r.body@ == body@,
        r == (CommentRow { body: r.body, ..*c }),
{
    CommentRow {
        id: c.id,
        issue_id: c.issue_id,
        author: c.author.clone(),
        body: body.to_string(),
        created_at: copy_opt(&c.created_at),
        last_accessed_at: copy_opt(&c.last_accessed_at),
    }
}

impl IssueDetailState {
    /// No comments, nothing scrolled.
    pub fn new() -> (r: Self)
        ensures
            r@ == (IssueDetailView {
                comments: Seq::empty(),
                selected: 0,
                comments_scroll: 0,
                comments_max: 0,
                recent_scroll: 0,
                recent_max: 0,
                body_scroll: 0,
                body_max: 0,
                status: Seq::empty(),
            }),
    {
        IssueDetailState {
            comments: Vec::new(),
            selected: 0,
            comments_scroll: 0,
            comments_max: 0,
            recent_scroll: 0,
            recent_max: 0,
            body_scroll: 0,
            body_max: 0,
            status: String::new(),
        }
    }

    /// Where the first comment with id `id` is.
    fn position_of_id(&self, id: i64) -> (r: Option<usize>)
        ensures
            r is None <==> first_with_id(self@.comments, id) is None,
            r matches Some(j) ==> first_with_id(self@.comments, id) == Some(j as int) && j < self@.comments.len()
                && self@.comments[j as int].id == id,
    {
        let ghost cs = self@.comments;
        let mut found: Option<usize> = None;
        let mut i: usize = 0;
        while i < self.comments.len()
            invariant
                i <= self.comments.len(),
                cs == self.comments@,
                match found {
                    Some(j) => first_with_id(cs.take(i as int), id) == Some(j as int) && j < i && cs[j as int].id == id,
                    None => first_with_id(cs.take(i as int), id) is None,
                },
            decreases self.comments.len() - i,
        {
            assert(cs.take(i + 1).drop_last() =~= cs.take(i as int));
            if found.is_none() && self.comments[i].id == id {
                found = Some(i);
            }
            i = i + 1;
        }
        assert(cs.take(self.comments.len() as int) =~= cs);
        found
    }

    /// Replaces the comments, keeping the highlight on the same comment
    /// (by id) when it is still there and else on the first; the comment
    /// panes scroll back to the top and their limits are reset.
    pub fn set_comments(&mut self, comments: Vec<CommentRow>)
        ensures
            final(self)@ == (IssueDetailView {
                comments: comments@,
                selected: if old(self)@.selected < old(self)@.comments.len() {
                    match first_with_id(comments@, old(self)@.comments[old(self)@.selected as int].id) {
                        Some(j) => j as usize,
                        None => 0,
                    }
                } else {
                    0
                },
                comments_scroll: 0,
                comments_max: 0,
                recent_scroll: 0,
                recent_max: 0,
                ..old(self)@
            }),
    {
        let previous: Option<i64> = if self.selected < self.comments.len() {
            Some(self.comments[self.selected].id)
        } else {
            None
        };
        self.comments = comments;
        self.selected = match previous {
            Some(id) => match self.position_of_id(id) {
                Some(j) => j,
                None => 0,
            },
            None => 0,
        };
        self.comments_scroll = 0;
        self.recent_scroll = 0;
        self.comments_max = 0;
        self.recent_max = 0;
    }

    /// Replaces the body of the first comment with id `id`.
    pub fn update_comment_body_by_id(&mut self, id: i64, body: &str)
        ensures
            first_with_id(old(self)@.comments, id) is None ==> final(self)@.comments == old(self)@.comments,
            first_with_id(old(self)@.comments, id) is Some ==> ({
                let p = first_with_id(old(self)@.comments, id)->0;
                &&& final(self)@.comments == old(self)@.comments.update(p, final(self)@.comments[p])
                &&& final(self)@.comments[p].body@ == body@
                &&& final(self)@.comments[p] == (CommentRow { body: final(self)@.comments[p].body, ..old(self)@.comments[p] })
            }),
            final(self)@ == (IssueDetailView { comments: final(self)@.comments, ..old(self)@ }),
    {
        match self.position_of_id(id) {
            Some(p) => {
                let ghost before = self@.comments;
                let row = with_body(&self.comments[p], body);
                self.comments.set(p, row);
                assert(self@.comments =~= before.update(p as int, row));
                assert(self@.comments[p as int].body@ == body@);
            },
            None => {},
        }
    }

    /// Removes the first comment with id `id`; the highlight stays on the
    /// same comment where it can, and an emptied list scrolls back to the top.
    pub fn remove_comment_by_id(&mut self, id: i64)
        ensures
            first_with_id(old(self)@.comments, id) is None ==> final(self)@ == old(self)@,
            first_with_id(old(self)@.comments, id) is Some ==> ({
                let p = first_with_id(old(self)@.comments, id)->0;
                let rest = old(self)@.comments.remove(p);
                final(self)@ == (IssueDetailView {
                    comments: rest,
                    selected: selected_after_removal(old(self)@.selected, p, rest.len() as int),
                    comments_scroll: if rest.len() == 0 { 0 } else { old(self)@.comments_scroll },
                    ..old(self)@
                })
            }),
    {
        let p = match self.position_of_id(id) {
            Some(p) => p,
            None => return,
        };
        self.comments.remove(p);
        if self.comments.len() == 0 {
            self.selected = 0;
            self.comments_scroll = 0;
            return;
        }
        if self.selected >= self.comments.len() {
            self.selected = self.comments.len() - 1;
            return;
        }
        if p <= self.selected && self.selected > 0 {
            self.selected = self.selected - 1;
        }
    }

    /// Highlights the comment at `index`, or the last one when `index` is past the end.
    pub fn select_comment_at(&mut self, index: usize)
        ensures
            final(self)@ == (IssueDetailView {
                selected: if old(self)@.comments.len() == 0 {
                    0
                } else if index < old(self)@.comments.len() {
                    index
                } else {
                    (old(self)@.comments.len() - 1) as usize
                },
                ..old(self)@
            }),
    {
        let last = if self.comments.len() == 0 { 0 } else { self.comments.len() - 1 };
        self.selected = if index < last { index } else { last };
    }

    /// Highlights the next comment and scrolls to where it starts (within
    /// the limit), saying which comment of how many it is; `offsets` are
    /// the lines on which the comments start.
    pub fn jump_next_comment(&mut self, offsets: &[u16])
        ensures
            final(self)@ == next_comment_view(old(self)@, offsets@),
    {
        if offsets.len() == 0 || self.selected >= offsets.len() || self.selected + 1 >= offsets.len() {
            return;
        }
        self.selected = self.selected + 1;
        let at = offsets[self.selected];
        self.comments_scroll = if at > self.comments_max { self.comments_max } else { at };
        self.status = comment_status_text(self.selected + 1, offsets.len());
    }

    /// Highlights the previous comment and scrolls to where it starts,
    /// saying which comment of how many it is; `offsets` are the lines on
    /// which the comments start.
    pub fn jump_prev_comment(&mut self, offsets: &[u16])
        requires
            old(self)@.selected <= offsets.len(),
        ensures
            final(self)@ == prev_comment_view(old(self)@, offsets@),
    {
        if offsets.len() == 0 || self.selected == 0 {
            return;
        }
        self.selected = self.selected - 1;
        self.comments_scroll = offsets[self.selected];
        self.status = comment_status_text(self.selected + 1, offsets.len());
    }

    /// Goes to the first comment, scrolled to the top.
    pub fn jump_comments_top(&mut self)
        ensures
            final(self)@ == (IssueDetailView { selected: 0, comments_scroll: 0, ..old(self)@ }),
    {
        self.selected = 0;
        self.comments_scroll = 0;
    }

    /// Goes to the last comment, scrolled to the bottom.
    pub fn jump_comments_bottom(&mut self)
        ensures
            final(self)@ == (IssueDetailView {
                selected: if old(self)@.comments.len() > 0 {
                    (old(self)@.comments.len() - 1) as usize
                } else {
                    old(self)@.selected
                },
                comments_scroll: old(self)@.comments_max,
                ..old(self)@
            }),
    {
        if self.comments.len() > 0 {
            self.selected = self.comments.len() - 1;
        }
        self.comments_scroll = self.comments_max;
    }

    /// Scrolls the issue body, or the recent-comments pane when it is
    /// focused, one line down within its limit.
    pub fn scroll_detail_down(&mut self, recent_focused: bool)
        ensures
            final(self)@ == if recent_focused {
                IssueDetailView { recent_scroll: scrolled_down(old(self)@.recent_scroll, old(self)@.recent_max), ..old(self)@ }
            } else {
                IssueDetailView { body_scroll: scrolled_down(old(self)@.body_scroll, old(self)@.body_max), ..old(self)@ }
            },
    {
        if recent_focused {
            let up = self.recent_scroll.saturating_add(1);
            self.recent_scroll = if up < self.recent_max { up } else { self.recent_max };
        } else {
            let up = self.body_scroll.saturating_add(1);
            self.body_scroll = if up < self.body_max { up } else { self.body_max };
        }
    }

    /// Scrolls the issue body, or the recent-comments pane when it is
    /// focused, one line up.
    pub fn scroll_detail_up(&mut self, recent_focused: bool)
        ensures
            final(self)@ == if recent_focused {
                IssueDetailView { recent_scroll: scrolled_up(old(self)@.recent_scroll), ..old(self)@ }
            } else {
                IssueDetailView { body_scroll: scrolled_up(old(self)@.body_scroll), ..old(self)@ }
            },
    {
        if recent_focused {
            self.recent_scroll = self.recent_scroll.saturating_sub(1);
        } else {
            self.body_scroll = self.body_scroll.saturating_sub(1);
        }
    }

    /// Scrolls the issue body, or the recent-comments pane when it is
    /// focused, to its top (or to its bottom).
    pub fn jump_detail(&mut self, recent_focused: bool, to_top: bool)
        ensures
            final(self)@ == if recent_focused {
                IssueDetailView { recent_scroll: if to_top { 0 } else { old(self)@.recent_max }, ..old(self)@ }
            } else {
                IssueDetailView { body_scroll: if to_top { 0 } else { old(self)@.body_max }, ..old(self)@ }
            },
    {
        if recent_focused {
            self.recent_scroll = if to_top { 0 } else { self.recent_max };
        } else {
            self.body_scroll = if to_top { 0 } else { self.body_max };
        }
    }

    /// Sets how far the issue body can scroll, pulling the scroll back within it.
    pub fn set_issue_detail_max_scroll(&mut self, max_scroll: u16)
        ensures
            final(self)@ == (IssueDetailView {
                body_max: max_scroll,
                body_scroll: clamped(old(self)@.body_scroll, max_scroll),
                ..old(self)@
            }),
    {
        self.body_max = max_scroll;
        if self.body_scroll > max_scroll {
            self.body_scroll = max_scroll;
        }
    }

    /// Sets how far the full comments view can scroll, pulling the scroll back within it.
    pub fn set_issue_comments_max_scroll(&mut self, max_scroll: u16)
        ensures
            final(self)@ == (IssueDetailView {
                comments_max: max_scroll,
                comments_scroll: clamped(old(self)@.comments_scroll, max_scroll),
                ..old(self)@
            }),
    {
        self.comments_max = max_scroll;
        if self.comments_scroll > max_scroll {
            self.comments_scroll = max_scroll;
        }
    }

    /// Sets how far the recent-comments pane can scroll, pulling the scroll back within it.
    pub fn set_issue_recent_comments_max_scroll(&mut self, max_scroll: u16)
        ensures
            final(self)@ == (IssueDetailView {
                recent_max: max_scroll,
                recent_scroll: clamped(old(self)@.recent_scroll, max_scroll),
                ..old(self)@
            }),
    {
        self.recent_max = max_scroll;
        if self.recent_scroll > max_scroll {
            self.recent_scroll = max_scroll;
        }
    }

    /// Scrolls the full comments view back to the top.
    pub fn reset_issue_comments_scroll(&mut self)
        ensures
            final(self)@ == (IssueDetailView { comments_scroll: 0, ..old(self)@ }),
    {
        self.comments_scroll = 0;
    }

    /// The comments.
    pub fn comments(&self) -> (r: &[CommentRow])
        ensures
            r@ == self@.comments,
    {
        self.comments.as_slice()
    }

    /// The position of the highlighted comment.
    pub fn selected_comment(&self) -> (r: usize)
        ensures
            r == self@.selected,
    {
        self.selected
    }

    /// The highlighted comment, when the highlight is on one.
    pub fn selected_comment_row(&self) -> (r: Option<&CommentRow>)
        ensures
            self@.selected < self@.comments.len() ==> r == Some(&self@.comments[self@.selected as int]),
            self@.selected >= self@.comments.len() ==> r is None,
    {
        if self.selected < self.comments.len() {
            Some(&self.comments[self.selected])
        } else {
            None
        }
    }

    /// How far the issue body, the full comments view and the
    /// recent-comments pane are scrolled.
    pub fn scrolls(&self) -> (r: (u16, u16, u16))
        ensures
            r == (self@.body_scroll, self@.comments_scroll, self@.recent_scroll),
    {
        (self.body_scroll, self.comments_scroll, self.recent_scroll)
    }

    /// The status line.
    pub fn status(&self) -> (r: &str)
        ensures
            r@ == self@.status,
    {
        self.status.as_str()
    }
}

} // verus!
