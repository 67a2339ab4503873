//! Reviewing a pull request: its changed files, which of them are marked
//! viewed, which diff hunks are collapsed, the highlighted diff line (or a
//! range of lines in visual mode), the side of the diff a comment goes on,
//! the review comments and which of them is selected.
use vstd::prelude::*;

use crate::app::{PullRequestFile, PullRequestReviewComment, PullRequestReviewFocus, PullRequestReviewTarget, ReviewSide};
use crate::pr_diff::{self, DiffKind, DiffRow, DiffRowView};
use crate::text;
use vstd::view::View as _;

verus! {

broadcast use vstd::string::group_string_axioms;

/// The unified diff of a changed file, when the API sent one.
pub open spec fn file_patch(f: PullRequestFile) -> Option<Seq<char>> {
    match f.patch {
        Some(p) => Some(p@),
        None => None,
    }
}

/// The model of the review state.
pub struct ReviewView {
    pub files: Seq<PullRequestFile>,
    pub files_issue_id: Option<i64>,
    pub pull_request_id: Option<Seq<char>>,
    pub viewed: Seq<Seq<char>>,
    pub collapsed: Seq<(Seq<char>, usize)>,
    pub comments: Seq<PullRequestReviewComment>,
    pub focus: PullRequestReviewFocus,
    pub selected_file: usize,
    pub diff_line: usize,
    pub diff_scroll: u16,
    pub diff_max_scroll: u16,
    pub h_scroll: u16,
    pub h_max: u16,
    pub expanded: bool,
    pub side: ReviewSide,
    pub visual_mode: bool,
    pub visual_anchor: Option<usize>,
    pub selected_comment: Option<i64>,
    pub editing_comment: Option<i64>,
    pub pending_target: Option<PullRequestReviewTarget>,
    pub status: Seq<char>,
}

/// The state of a pull request review.
pub struct ReviewState {
    files: Vec<PullRequestFile>,
    files_issue_id: Option<i64>,
    pull_request_id: Option<String>,
    viewed: Vec<String>,
    collapsed: Vec<(String, usize)>,
    comments: Vec<PullRequestReviewComment>,
    focus: PullRequestReviewFocus,
    selected_file: usize,
    diff_line: usize,
    diff_scroll: u16,
    diff_max_scroll: u16,
    h_scroll: u16,
    h_max: u16,
    expanded: bool,
    side: ReviewSide,
    visual_mode: bool,
    visual_anchor: Option<usize>,
    selected_comment: Option<i64>,
    editing_comment: Option<i64>,
    pending_target: Option<PullRequestReviewTarget>,
    status: String,
}

/// The (path, hunk) pairs of collapsed hunks.
pub open spec fn pair_views(v: Seq<(String, usize)>) -> Seq<(Seq<char>, usize)> {
    v.map_values(|e: (String, usize)| (e.0@, e.1))
}

/// The view of an optional string.
pub open spec fn opt_view(o: Option<String>) -> Option<Seq<char>> {
    match o {
        Some(s) => Some(s@),
        None => None,
    }
}

impl vstd::view::View for ReviewState {
    type V = ReviewView;

    closed spec fn view(&self) -> ReviewView {
        ReviewView {
            files: self.files@,
            files_issue_id: self.files_issue_id,
            pull_request_id: opt_view(self.pull_request_id),
            viewed: text::string_views(self.viewed@),
            collapsed: pair_views(self.collapsed@),
            comments: self.comments@,
            focus: self.focus,
            selected_file: self.selected_file,
            diff_line: self.diff_line,
            diff_scroll: self.diff_scroll,
            diff_max_scroll: self.diff_max_scroll,
            h_scroll: self.h_scroll,
            h_max: self.h_max,
            expanded: self.expanded,
            side: self.side,
            visual_mode: self.visual_mode,
            visual_anchor: self.visual_anchor,
            selected_comment: self.selected_comment,
            editing_comment: self.editing_comment,
            pending_target: self.pending_target,
            status: self.status@,
        }
    }
}

/// Every file's diff has line numbers that fit in 64 bits, so it can be read.
pub open spec fn patches_fit(files: Seq<PullRequestFile>) -> bool {
    forall|i: int| 0 <= i < files.len() ==> pr_diff::patch_fits(file_patch(#[trigger] files[i]))
}

/// A fresh review: nothing loaded, the file list focused, comments go on
/// the new side.
pub open spec fn fresh_review(status: Seq<char>) -> ReviewView {
    ReviewView {
        files: Seq::empty(),
        files_issue_id: None,
        pull_request_id: None,
        viewed: Seq::empty(),
        collapsed: Seq::empty(),
        comments: Seq::empty(),
        focus: PullRequestReviewFocus::Files,
        selected_file: 0,
        diff_line: 0,
        diff_scroll: 0,
        diff_max_scroll: 0,
        h_scroll: 0,
        h_max: 0,
        expanded: false,
        side: ReviewSide::Right,
        visual_mode: false,
        visual_anchor: None,
        selected_comment: None,
        editing_comment: None,
        pending_target: None,
        status,
    }
}

/// The highlighted diff lines: the highlighted line, or in visual mode the
/// lines between the anchor (the highlighted line when there is none) and
/// the highlighted line.
pub open spec fn diff_range_spec(v: ReviewView) -> (usize, usize) {
    if !v.visual_mode {
        (v.diff_line, v.diff_line)
    } else {
        let anchor = match v.visual_anchor {
            Some(a) => a,
            None => v.diff_line,
        };
        if anchor <= v.diff_line {
            (anchor, v.diff_line)
        } else {
            (v.diff_line, anchor)
        }
    }
}

/// Row `r` is inside a collapsed hunk of `path`: below the hunk's header
/// and no later header comes before it.
pub open spec fn row_hidden(collapsed: Seq<(Seq<char>, usize)>, path: Seq<char>, rows: Seq<DiffRowView>, r: int) -> bool {
    &&& 0 <= r < rows.len()
    &&& exists|s: usize|
        #![trigger collapsed.contains((path, s))]
        collapsed.contains((path, s)) && s < r && rows[s as int].kind == DiffKind::Hunk && forall|k: int|
            s < k <= r ==> #[trigger] rows[k].kind != DiffKind::Hunk
}

/// The line a diff row has on `side`.
pub open spec fn side_line(row: DiffRowView, side: ReviewSide) -> Option<int> {
    match side {
        ReviewSide::Left => row.old_line,
        ReviewSide::Right => row.new_line,
    }
}

/// The lines on `side` of rows `lo..=hi`, skipping rows without one.
pub open spec fn range_lines(rows: Seq<DiffRowView>, lo: int, hi: int, side: ReviewSide) -> Seq<int>
    decreases hi - lo + 1,
{
    if hi < lo {
        Seq::empty()
    } else {
        let prev = range_lines(rows, lo, hi - 1, side);
        match side_line(rows[hi], side) {
            Some(l) => prev.push(l),
            None => prev,
        }
    }
}

/// What a review comment on the highlighted lines of `rows` attaches to.
/// With lines on the chosen side it is the last of them, starting at the
/// first when there are several; otherwise the highlighted row on its own
/// side: added and unchanged rows on the new side, removed rows on the old.
pub open spec fn review_target_spec(v: ReviewView, path: Seq<char>, rows: Seq<DiffRowView>) -> Option<(Seq<char>, int, ReviewSide, Option<int>, Option<ReviewSide>)> {
    if rows.len() == 0 {
        None
    } else {
        let (s, e) = diff_range_spec(v);
        let lo = if s < rows.len() { s as int } else { rows.len() - 1 };
        let hi = if e < rows.len() { e as int } else { rows.len() - 1 };
        let lines = range_lines(rows, lo, hi, v.side);
        if lines.len() == 0 {
            if v.diff_line >= rows.len() {
                None
            } else {
                let row = rows[v.diff_line as int];
                match row.kind {
                    DiffKind::Added | DiffKind::Context => match row.new_line {
                        Some(l) => Some((path, l, ReviewSide::Right, None, None)),
                        None => None,
                    },
                    DiffKind::Removed => match row.old_line {
                        Some(l) => Some((path, l, ReviewSide::Left, None, None)),
                        None => None,
                    },
                    _ => None,
                }
            }
        } else {
            let start = if lines.len() > 1 { Some(lines[0]) } else { None };
            Some((path, lines.last(), v.side, start, if lines.len() > 1 { Some(v.side) } else { None }))
        }
    }
}

/// The parts of a review target.
pub open spec fn target_parts(t: PullRequestReviewTarget) -> (Seq<char>, int, ReviewSide, Option<int>, Option<ReviewSide>) {
    (t.path@, t.line as int, t.side, pr_diff::opt_int(t.start_line), t.start_side)
}

/// The nearest hunk header at or above row `r`.
pub open spec fn header_above(rows: Seq<DiffRowView>, r: int) -> int {
    choose|h: int| 0 <= h <= r && rows[h].kind == DiffKind::Hunk && forall|k: int| h < k <= r ==> #[trigger] rows[k].kind != DiffKind::Hunk
}

/// The row nearest to `r` that is not hidden: `r` itself (or the last row
/// when `r` is past the end) unless a collapsed hunk hides it, and then the
/// header of that hunk.
pub open spec fn nearest_visible_spec(collapsed: Seq<(Seq<char>, usize)>, path: Seq<char>, rows: Seq<DiffRowView>, r: usize) -> usize {
    if rows.len() == 0 {
        0
    } else {
        let c: int = if r < rows.len() { r as int } else { rows.len() - 1 };
        if !row_hidden(collapsed, path, rows, c) {
            c as usize
        } else {
            header_above(rows, c) as usize
        }
    }
}

/// The first row at or after `from` that is not hidden.
pub open spec fn first_visible_from(collapsed: Seq<(Seq<char>, usize)>, path: Seq<char>, rows: Seq<DiffRowView>, from: int) -> Option<int>
    decreases rows.len() - from,
{
    if from < 0 || from >= rows.len() {
        None
    } else if !row_hidden(collapsed, path, rows, from) {
        Some(from)
    } else {
        first_visible_from(collapsed, path, rows, from + 1)
    }
}

/// The last row before `to` that is not hidden.
pub open spec fn last_visible_below(collapsed: Seq<(Seq<char>, usize)>, path: Seq<char>, rows: Seq<DiffRowView>, to: int) -> Option<int>
    decreases to,
{
    if to <= 0 {
        None
    } else if !row_hidden(collapsed, path, rows, to - 1) {
        Some(to - 1)
    } else {
        last_visible_below(collapsed, path, rows, to - 1)
    }
}

/// The row `r` clamped to the rows there are.
pub open spec fn clamp_row(rows: Seq<DiffRowView>, r: usize) -> int {
    if r < rows.len() {
        r as int
    } else {
        rows.len() - 1
    }
}

/// The rows of the highlighted file's diff.
pub open spec fn selected_rows(v: ReviewView) -> Seq<DiffRowView> {
    pr_diff::parse_patch_spec(file_patch(v.files[v.selected_file as int]))
}

/// What a comment on the highlighted lines of the highlighted file attaches to.
pub open spec fn selected_target_spec(v: ReviewView) -> Option<(Seq<char>, int, ReviewSide, Option<int>, Option<ReviewSide>)> {
    if v.selected_file < v.files.len() {
        review_target_spec(v, v.files[v.selected_file as int].filename@, selected_rows(v))
    } else {
        None
    }
}

/// A review comment sits on target `t`'s path, side and line, anchored to the diff.
pub open spec fn comment_on(c: PullRequestReviewComment, t: (Seq<char>, int, ReviewSide, Option<int>, Option<ReviewSide>)) -> bool {
    c.anchored && c.path@ == t.0 && c.side == t.2 && c.line as int == t.1
}

/// Comment `i` is on target `t` and has id `sel`, and no earlier one does.
pub open spec fn picks_selected(cs: Seq<PullRequestReviewComment>, t: (Seq<char>, int, ReviewSide, Option<int>, Option<ReviewSide>), sel: Option<i64>, i: int) -> bool {
    &&& 0 <= i < cs.len()
    &&& comment_on(cs[i], t)
    &&& sel == Some(cs[i].id)
    &&& forall|k: int| 0 <= k < i ==> !(comment_on(#[trigger] cs[k], t) && sel == Some(cs[k].id))
}

/// Comment `i` is on target `t` with the smallest id of those, and no
/// earlier one on `t` has that id.
pub open spec fn picks_smallest(cs: Seq<PullRequestReviewComment>, t: (Seq<char>, int, ReviewSide, Option<int>, Option<ReviewSide>), i: int) -> bool {
    &&& 0 <= i < cs.len()
    &&& comment_on(cs[i], t)
    &&& forall|k: int| 0 <= k < cs.len() && comment_on(#[trigger] cs[k], t) ==> cs[i].id <= cs[k].id
    &&& forall|k: int| 0 <= k < i ==> !(comment_on(#[trigger] cs[k], t) && cs[k].id == cs[i].id)
}

/// The comment on target `t` that is shown as selected: the first one whose
/// id is `sel`, else the first of those with the smallest id.
pub open spec fn chosen_comment(comments: Seq<PullRequestReviewComment>, t: (Seq<char>, int, ReviewSide, Option<int>, Option<ReviewSide>), sel: Option<i64>) -> Option<int> {
    if exists|i: int| #[trigger] picks_selected(comments, t, sel, i) {
        Some(choose|i: int| #[trigger] picks_selected(comments, t, sel, i))
    } else if exists|i: int| #[trigger] picks_smallest(comments, t, i) {
        Some(choose|i: int| #[trigger] picks_smallest(comments, t, i))
    } else {
        None
    }
}

/// The position of the selected review comment, if any.
pub open spec fn selected_comment_spec(v: ReviewView) -> Option<int> {
    match selected_target_spec(v) {
        Some(t) => chosen_comment(v.comments, t, v.selected_comment),
        None => None,
    }
}

/// `v` with its selected comment id brought in line with what is shown.
pub open spec fn synced(v: ReviewView) -> ReviewView {
    ReviewView {
        selected_comment: match selected_comment_spec(v) {
            Some(i) => Some(v.comments[i].id),
            None => None,
        },
        ..v
    }
}

/// `e` is the last row of the hunk whose header is at `h`.
pub open spec fn hunk_end_at(rows: Seq<DiffRowView>, h: int, e: int) -> bool {
    &&& 0 <= h <= e < rows.len()
    &&& forall|k: int| h < k <= e ==> #[trigger] rows[k].kind != DiffKind::Hunk
    &&& (e + 1 == rows.len() || rows[e + 1].kind == DiffKind::Hunk)
}

/// Comment `a` sorts no later than `b`: by path, then line, then id.
pub open spec fn comment_le(a: PullRequestReviewComment, b: PullRequestReviewComment) -> bool {
    ||| text::text_lt(a.path@, b.path@)
    ||| a.path@ == b.path@ && (a.line < b.line || (a.line == b.line && a.id <= b.id))
}

/// `x` inserted into `s` after the last element that sorts no later than it.
pub open spec fn insert_comment(s: Seq<PullRequestReviewComment>, x: PullRequestReviewComment) -> Seq<PullRequestReviewComment>
    decreases s.len(),
{
    if s.len() == 0 {
        seq![x]
    } else if comment_le(s.last(), x) {
        s.push(x)
    } else {
        insert_comment(s.drop_last(), x).push(s.last())
    }
}

/// The comments sorted by path, line and id, keeping the order of equal ones.
pub open spec fn sort_comments(v: Seq<PullRequestReviewComment>) -> Seq<PullRequestReviewComment>
    decreases v.len(),
{
    if v.len() == 0 {
        Seq::empty()
    } else {
        insert_comment(sort_comments(v.drop_last()), v.last())
    }
}

/// `x` inserted into `s` after the last element no larger than it.
pub open spec fn insert_id(s: Seq<i64>, x: i64) -> Seq<i64>
    decreases s.len(),
{
    if s.len() == 0 {
        seq![x]
    } else if s.last() <= x {
        s.push(x)
    } else {
        insert_id(s.drop_last(), x).push(s.last())
    }
}

/// The ids in ascending order.
pub open spec fn sort_ids(v: Seq<i64>) -> Seq<i64>
    decreases v.len(),
{
    if v.len() == 0 {
        Seq::empty()
    } else {
        insert_id(sort_ids(v.drop_last()), v.last())
    }
}

/// The ids of the comments on target `t`, in order.
pub open spec fn ids_on(cs: Seq<PullRequestReviewComment>, t: (Seq<char>, int, ReviewSide, Option<int>, Option<ReviewSide>)) -> Seq<i64>
    decreases cs.len(),
{
    if cs.len() == 0 {
        Seq::empty()
    } else {
        let prev = ids_on(cs.drop_last(), t);
        if comment_on(cs.last(), t) {
            prev.push(cs.last().id)
        } else {
            prev
        }
    }
}

/// The first position of `id` in `ids`, or the first position when it is not there.
pub open spec fn index_or_first(ids: Seq<i64>, id: Option<i64>) -> int {
    match id {
        Some(x) => if exists|i: int| 0 <= i < ids.len() && ids[i] == x {
            choose|i: int| 0 <= i < ids.len() && ids[i] == x && forall|k: int| 0 <= k < i ==> ids[k] != x
        } else {
            0
        },
        None => 0,
    }
}

/// Comment `k` is the first with id `id`.
pub open spec fn first_with_id(cs: Seq<PullRequestReviewComment>, id: i64, k: int) -> bool {
    cs[k].id == id && forall|m: int| 0 <= m < k ==> cs[m].id != id
}

/// Comment `after` is `before` with body `body` when `change`, else `before`.
pub open spec fn body_set(before: PullRequestReviewComment, after: PullRequestReviewComment, change: bool, body: Seq<char>) -> bool {
    if change {
        after.body@ == body && after == (PullRequestReviewComment { body: after.body, ..before })
    } else {
        after == before
    }
}

/// The comments with the first one with id `id` given `body`.
pub open spec fn with_body(cs: Seq<PullRequestReviewComment>, id: i64, body: Seq<char>, r: Seq<PullRequestReviewComment>) -> bool {
    &&& r.len() == cs.len()
    &&& forall|k: int| 0 <= k < cs.len() ==> body_set(cs[k], #[trigger] r[k], first_with_id(cs, id, k), body)
}

/// The comments without those with id `id`.
pub open spec fn without_id(cs: Seq<PullRequestReviewComment>, id: i64) -> Seq<PullRequestReviewComment>
    decreases cs.len(),
{
    if cs.len() == 0 {
        Seq::empty()
    } else {
        let prev = without_id(cs.drop_last(), id);
        if cs.last().id == id {
            prev
        } else {
            prev.push(cs.last())
        }
    }
}

/// `v` with the diff back at its start and visual mode off.
pub open spec fn diff_position_reset(v: ReviewView) -> ReviewView {
    ReviewView { diff_line: 0, diff_scroll: 0, h_scroll: 0, h_max: 0, visual_mode: false, visual_anchor: None, ..v }
}

/// `v` with the diff back at its start, visual mode off and the diff not expanded.
pub open spec fn diff_view_reset(v: ReviewView) -> ReviewView {
    ReviewView { expanded: false, ..diff_position_reset(v) }
}

/// Where the highlight goes on the diff of the highlighted file when it
/// moves down (`down`) or up: from the nearest visible line to the next (or
/// previous) visible one, staying put at the end.
pub open spec fn diff_line_moved(v: ReviewView, down: bool) -> usize {
    let rows = selected_rows(v);
    let path = v.files[v.selected_file as int].filename@;
    let cur = nearest_visible_spec(v.collapsed, path, rows, v.diff_line);
    let to = if down {
        first_visible_from(v.collapsed, path, rows, clamp_row(rows, cur) + 1)
    } else {
        last_visible_below(v.collapsed, path, rows, clamp_row(rows, cur))
    };
    match to {
        Some(n) => n as usize,
        None => cur,
    }
}

/// The review after jumping to the top: the first file with its diff
/// position reset, or the first diff line with the diff scrolled back.
pub open spec fn review_at_top(v: ReviewView) -> ReviewView {
    synced(
        if v.focus == PullRequestReviewFocus::Files {
            diff_position_reset(ReviewView { selected_file: 0, ..v })
        } else {
            ReviewView { diff_line: 0, diff_scroll: 0, h_scroll: 0, h_max: 0, ..v }
        },
    )
}

/// The review after jumping to the bottom: the last file with its diff
/// position reset, or the last visible diff line with the diff scrolled to
/// its end.
pub open spec fn review_at_bottom(v: ReviewView) -> ReviewView {
    synced(
        if v.focus == PullRequestReviewFocus::Files {
            if v.files.len() > 0 {
                diff_position_reset(ReviewView { selected_file: (v.files.len() - 1) as usize, ..v })
            } else {
                v
            }
        } else if v.selected_file < v.files.len() {
            ReviewView {
                diff_line: match last_visible_below(
                    v.collapsed,
                    v.files[v.selected_file as int].filename@,
                    selected_rows(v),
                    selected_rows(v).len() as int,
                ) {
                    Some(n) => n as usize,
                    None => v.diff_line,
                },
                diff_scroll: v.diff_max_scroll,
                ..v
            }
        } else {
            v
        },
    )
}

/// The review after moving the highlight down (`down`) or up: in the file
/// list to the next (previous) file, starting its diff afresh; in the diff
/// to the next (previous) visible line.
pub open spec fn review_moved(v: ReviewView, down: bool) -> ReviewView {
    synced(
        if v.focus == PullRequestReviewFocus::Files {
            if down && v.selected_file + 1 < v.files.len() {
                diff_view_reset(ReviewView { selected_file: (v.selected_file + 1) as usize, ..v })
            } else if !down && v.selected_file > 0 {
                diff_view_reset(ReviewView { selected_file: (v.selected_file - 1) as usize, ..v })
            } else {
                v
            }
        } else if v.selected_file < v.files.len() && selected_rows(v).len() > 0 {
            ReviewView { diff_line: diff_line_moved(v, down), ..v }
        } else {
            v
        },
    )
}

/// The text of a decimal number of lines.
pub open spec fn collapsed_status(lines: nat, path: Seq<char>) -> Seq<char> {
    "Collapsed "@ + text::nat_text(lines) + " lines in "@ + path
}

/// The collapsed hunks of files that are among `files`.
pub open spec fn collapsed_in(collapsed: Seq<(Seq<char>, usize)>, files: Seq<PullRequestFile>) -> Seq<(Seq<char>, usize)>
    decreases collapsed.len(),
{
    if collapsed.len() == 0 {
        Seq::empty()
    } else {
        let prev = collapsed_in(collapsed.drop_last(), files);
        if exists|i: int| 0 <= i < files.len() && (#[trigger] files[i]).filename@ == collapsed.last().0 {
            prev.push(collapsed.last())
        } else {
            prev
        }
    }
}

/// Some file of `files` is named `path`.
pub open spec fn has_file(files: Seq<PullRequestFile>, path: Seq<char>) -> bool {
    exists|i: int| 0 <= i < files.len() && (#[trigger] files[i]).filename@ == path
}

/// The review after a new set of files was loaded for issue `issue_id`:
/// positions, scrolls, focus, visual mode and the selected comment start
/// over, the viewed marks are dropped, and only the collapsed hunks of
/// files still there are kept.
pub open spec fn loaded(v: ReviewView, issue_id: i64, files: Seq<PullRequestFile>) -> ReviewView {
    ReviewView {
        files_issue_id: Some(issue_id),
        pull_request_id: None,
        files,
        viewed: Seq::empty(),
        collapsed: collapsed_in(v.collapsed, files),
        selected_file: 0,
        diff_line: 0,
        diff_scroll: 0,
        h_scroll: 0,
        diff_max_scroll: 0,
        h_max: 0,
        expanded: false,
        focus: PullRequestReviewFocus::Files,
        visual_mode: false,
        visual_anchor: None,
        selected_comment: None,
        ..v
    }
}

/// The review after focusing the file list or the diff. Focusing the files
/// leaves the expanded diff and visual mode; focusing the diff moves the
/// highlight off lines a collapsed hunk hides. The selected comment follows.
pub open spec fn focus_set(v: ReviewView, focus: PullRequestReviewFocus) -> ReviewView {
    synced(
        if focus == PullRequestReviewFocus::Files {
            ReviewView { focus, expanded: false, visual_mode: false, visual_anchor: None, ..v }
        } else if v.selected_file < v.files.len() {
            ReviewView {
                focus,
                diff_line: nearest_visible_spec(
                    v.collapsed,
                    v.files[v.selected_file as int].filename@,
                    selected_rows(v),
                    v.diff_line,
                ),
                ..v
            }
        } else {
            ReviewView { focus, ..v }
        },
    )
}

/// The review after starting or ending visual mode (focusing the diff);
/// the anchor is the highlighted line.
pub open spec fn visual_toggled(v: ReviewView) -> ReviewView {
    synced(
        if v.visual_mode {
            ReviewView { focus: PullRequestReviewFocus::Diff, visual_mode: false, visual_anchor: None, ..v }
        } else {
            ReviewView { focus: PullRequestReviewFocus::Diff, visual_mode: true, visual_anchor: Some(v.diff_line), ..v }
        },
    )
}

/// The review after selecting the next (`forward`) or previous comment on
/// the highlighted lines, in id order and round; none when there is none
/// there.
pub open spec fn comment_cycled(v: ReviewView, forward: bool) -> ReviewView {
    match selected_target_spec(v) {
        None => v,
        Some(t) => {
            let ids = sort_ids(ids_on(v.comments, t));
            ReviewView {
                selected_comment: if ids.len() == 0 {
                    None
                } else {
                    Some(ids[crate::issue_list::cycled(index_or_first(ids, v.selected_comment), ids.len() as int, forward)])
                },
                ..v
            }
        },
    }
}

/// The review after switching between the split view and the expanded
/// diff, which only the focused diff of the review view does.
pub open spec fn expanded_toggled(v: ReviewView, in_review_view: bool) -> ReviewView {
    if !in_review_view || v.focus != PullRequestReviewFocus::Diff {
        v
    } else {
        ReviewView {
            expanded: !v.expanded,
            status: if !v.expanded { "Expanded diff view"@ } else { "Split files and diff view"@ },
            ..v
        }
    }
}

/// The review after scrolling the diff sideways by `delta` columns, within
/// the limit, which only the focused diff of the review view does.
pub open spec fn h_scrolled(v: ReviewView, in_review_view: bool, delta: i16) -> ReviewView {
    if !in_review_view || v.focus != PullRequestReviewFocus::Diff {
        v
    } else {
        ReviewView {
            h_scroll: if delta < 0 {
                if v.h_scroll >= -(delta as int) { (v.h_scroll + delta) as u16 } else { 0 }
            } else {
                let up = v.h_scroll + delta;
                let sat: int = if up > u16::MAX { u16::MAX as int } else { up };
                if sat < v.h_max { sat as u16 } else { v.h_max }
            },
            ..v
        }
    }
}

/// The review after collapsing or expanding the hunk holding the highlighted
/// diff line (`b` from `a`): the diff must have the focus and the file a
/// hunk there; the status line says what happened, and the highlight moves
/// to the hunk's header.
pub open spec fn hunk_toggled(a: ReviewView, b: ReviewView) -> bool {
    if a.focus != PullRequestReviewFocus::Diff {
        b == (ReviewView { status: "Focus the diff pane to collapse sections"@, ..a })
    } else if a.selected_file >= a.files.len() {
        b == (ReviewView { status: "No file selected"@, ..a })
    } else {
        let rows = selected_rows(a);
        let path = a.files[a.selected_file as int].filename@;
        if rows.len() == 0 {
            b == (ReviewView { status: "No diff section to collapse"@, ..a })
        } else {
            let c = clamp_row(rows, a.diff_line);
            if forall|k: int| 0 <= k <= c ==> #[trigger] rows[k].kind != DiffKind::Hunk {
                b == (ReviewView { status: "No hunk at this line"@, ..a })
            } else {
                let h = header_above(rows, c);
                let was = a.collapsed.contains((path, h as usize));
                &&& forall|x: (Seq<char>, usize)| #[trigger] b.collapsed.contains(x) <==> if x == (path, h as usize) {
                    !was
                } else {
                    a.collapsed.contains(x)
                }
                &&& exists|e: int| {
                    &&& #[trigger] hunk_end_at(rows, h, e)
                    &&& b == synced(ReviewView {
                        collapsed: b.collapsed,
                        diff_line: h as usize,
                        visual_mode: false,
                        visual_anchor: None,
                        status: if was {
                            "Expanded section in "@ + path
                        } else {
                            collapsed_status((e - h) as nat, path)
                        },
                        ..a
                    })
                }
            }
        }
    }
}

impl ReviewState {
    /// A fresh review with an empty status line.
    pub fn new() -> (r: Self)
        ensures
            r@ == fresh_review(Seq::empty()),
    {
        let r = ReviewState {
            files: Vec::new(),
            files_issue_id: None,
            pull_request_id: None,
            viewed: Vec::new(),
            collapsed: Vec::new(),
            comments: Vec::new(),
            focus: PullRequestReviewFocus::Files,
            selected_file: 0,
            diff_line: 0,
            diff_scroll: 0,
            diff_max_scroll: 0,
            h_scroll: 0,
            h_max: 0,
            expanded: false,
            side: ReviewSide::Right,
            visual_mode: false,
            visual_anchor: None,
            selected_comment: None,
            editing_comment: None,
            pending_target: None,
            status: String::new(),
        };
        assert(r@.viewed =~= Seq::<Seq<char>>::empty());
        assert(r@.collapsed =~= Seq::<(Seq<char>, usize)>::empty());
        r
    }

    /// The highlighted diff lines, first and last.
    pub fn selected_pull_request_diff_range(&self) -> (r: (usize, usize))
        ensures
            r == diff_range_spec(self@),
    {
        if !self.visual_mode {
            return (self.diff_line, self.diff_line);
        }
        let anchor = match self.visual_anchor {
            Some(a) => a,
            None => self.diff_line,
        };
        if anchor <= self.diff_line {
            (anchor, self.diff_line)
        } else {
            (self.diff_line, anchor)
        }
    }

    /// Whether hunk `start` of `path` is collapsed.
    pub fn pull_request_hunk_is_collapsed(&self, path: &str, start: usize) -> (r: bool)
        ensures
            r == self@.collapsed.contains((path@, start)),
    {
        let p = text::chars_of(path);
        let ghost cv = self@.collapsed;
        let mut i: usize = 0;
        while i < self.collapsed.len()
            invariant
                i <= self.collapsed.len(),
                cv == self@.collapsed,
                p@ == path@,
                forall|k: int| 0 <= k < i ==> cv[k] != (path@, start),
            decreases self.collapsed.len() - i,
        {
            assert(cv[i as int] == (self.collapsed@[i as int].0@, self.collapsed@[i as int].1));
            if self.collapsed[i].1 == start {
                let q = text::chars_of(self.collapsed[i].0.as_str());
                if text::chars_eq(q.as_slice(), p.as_slice()) {
                    assert(cv[i as int] == (path@, start));
                    return true;
                }
            }
            i = i + 1;
        }
        false
    }

    /// Whether row `r` of `path`'s diff is hidden inside a collapsed hunk.
    pub fn pull_request_diff_row_hidden(&self, path: &str, rows: &[DiffRow], r: usize) -> (h: bool)
        ensures
            h == row_hidden(self@.collapsed, path@, pr_diff::row_views(rows@), r as int),
    {
        if r >= rows.len() {
            return false;
        }
        let p = text::chars_of(path);
        let ghost cv = self@.collapsed;
        let ghost rv = pr_diff::row_views(rows@);
        assert(forall|k: int| 0 <= k < rows.len() ==> #[trigger] rv[k].kind == rows@[k].kind);
        let mut i: usize = 0;
        while i < self.collapsed.len()
            invariant
                i <= self.collapsed.len(),
                r < rows.len(),
                rv == pr_diff::row_views(rows@),
                forall|k: int| 0 <= k < rows.len() ==> #[trigger] rv[k].kind == rows@[k].kind,
                cv == self@.collapsed,
                p@ == path@,
                forall|k: int|
                    0 <= k < i ==> !(#[trigger] cv[k].0 == path@ && cv[k].1 < r && rows@[cv[k].1 as int].kind
                        == DiffKind::Hunk && forall|m: int| cv[k].1 < m <= r ==> #[trigger] rows@[m].kind != DiffKind::Hunk),
            decreases self.collapsed.len() - i,
        {
            assert(cv[i as int] == (self.collapsed@[i as int].0@, self.collapsed@[i as int].1));
            let start = self.collapsed[i].1;
            let q = text::chars_of(self.collapsed[i].0.as_str());
            if text::chars_eq(q.as_slice(), p.as_slice()) && start < r {
                match pr_diff::pull_request_hunk_end(rows, start) {
                    Some(end) => {
                        if r <= end {
                            assert(cv.contains((path@, start)));
                            return true;
                        } else {
                            assert(rows@[end + 1].kind == DiffKind::Hunk);
                        }
                    },
                    None => {},
                }
            }
            i = i + 1;
        }
        assert forall|s: usize| cv.contains((path@, s)) implies !(s < r && rv[s as int].kind == DiffKind::Hunk
            && forall|m: int| s < m <= r ==> #[trigger] rv[m].kind != DiffKind::Hunk) by {
            let k = choose|k: int| 0 <= k < cv.len() && cv[k] == (path@, s);
            assert(cv[k].0 == path@);
            if s < r && rv[s as int].kind == DiffKind::Hunk && forall|m: int| s < m <= r ==> #[trigger] rv[m].kind != DiffKind::Hunk {
                assert forall|m: int| s < m <= r implies #[trigger] rows@[m].kind != DiffKind::Hunk by {
                    assert(rv[m].kind == rows@[m].kind);
                }
            }
        }
        false
    }

    /// What a review comment on the highlighted lines of `path`'s `rows`
    /// would attach to.
    pub fn review_target_for_rows(&self, path: &str, rows: &[DiffRow]) -> (r: Option<PullRequestReviewTarget>)
        ensures
            match r {
                Some(t) => review_target_spec(self@, path@, pr_diff::row_views(rows@)) == Some(target_parts(t)),
                None => review_target_spec(self@, path@, pr_diff::row_views(rows@)) is None,
            },
    {
        if rows.len() == 0 {
            return None;
        }
        let (s, e) = self.selected_pull_request_diff_range();
        let lo = if s < rows.len() { s } else { rows.len() - 1 };
        let hi = if e < rows.len() { e } else { rows.len() - 1 };
        let side = self.side;
        let mut first: Option<i64> = None;
        let mut last: i64 = 0;
        let mut count: usize = 0;
        let mut k: usize = lo;
        let ghost rv = pr_diff::row_views(rows@);
        proof {
            assert(range_lines(rv, lo as int, lo - 1, side) =~= Seq::<int>::empty());
        }
        while k <= hi
            invariant
                lo <= k <= hi + 1,
                hi < rows.len(),
                side == self.side,
                rv == pr_diff::row_views(rows@),
                count == range_lines(rv, lo as int, k - 1, side).len(),
                count > 0 ==> pr_diff::opt_int(first) == Some(range_lines(rv, lo as int, k - 1, side)[0])
                    && last as int == range_lines(rv, lo as int, k - 1, side).last(),
                count <= k - lo,
            decreases hi + 1 - k,
        {
            let line = match side {
                ReviewSide::Left => rows[k].old_line,
                ReviewSide::Right => rows[k].new_line,
            };
            let ghost prev = range_lines(rv, lo as int, k - 1, side);
            assert(rv[k as int] == rows@[k as int]@);
            assert(range_lines(rv, lo as int, k as int, side) == match side_line(rv[k as int], side) {
                Some(l) => prev.push(l),
                None => prev,
            });
            if let Some(l) = line {
                if count == 0 {
                    first = Some(l);
                }
                last = l;
                count = count + 1;
            }
            k = k + 1;
        }
        if count == 0 {
            if self.diff_line >= rows.len() {
                return None;
            }
            let row = &rows[self.diff_line];
            return match row.kind {
                DiffKind::Added | DiffKind::Context => match row.new_line {
                    Some(l) => Some(
                        PullRequestReviewTarget {
                            path: path.to_owned(),
                            line: l,
                            side: ReviewSide::Right,
                            start_line: None,
                            start_side: None,
                        },
                    ),
                    None => None,
                },
                DiffKind::Removed => match row.old_line {
                    Some(l) => Some(
                        PullRequestReviewTarget {
                            path: path.to_owned(),
                            line: l,
                            side: ReviewSide::Left,
                            start_line: None,
                            start_side: None,
                        },
                    ),
                    None => None,
                },
                _ => None,
            };
        }
        let (start_line, start_side) = if count > 1 {
            (first, Some(side))
        } else {
            (None, None)
        };
        Some(PullRequestReviewTarget { path: path.to_owned(), line: last, side, start_line, start_side })
    }
}

impl ReviewState {
    /// The file diffs can all be read, no hunk is recorded as collapsed
    /// twice and no file as viewed twice.
    pub open spec fn wf(&self) -> bool {
        &&& patches_fit(self@.files)
        &&& self@.collapsed.no_duplicates()
        &&& self@.viewed.no_duplicates()
    }

    /// The row nearest to `r` that a collapsed hunk does not hide.
    pub fn nearest_visible_pull_request_diff_line(&self, path: &str, rows: &[DiffRow], r: usize) -> (n: usize)
        ensures
            n == nearest_visible_spec(self@.collapsed, path@, pr_diff::row_views(rows@), r),
    {
        if rows.len() == 0 {
            return 0;
        }
        let c = if r < rows.len() { r } else { rows.len() - 1 };
        if !self.pull_request_diff_row_hidden(path, rows, c) {
            return c;
        }
        match pr_diff::pull_request_hunk_range_for_row(rows, c) {
            Some(range) => {
                proof {
                    lemma_range_start_is_header(rows@, c as int, range.start as int);
                }
                range.start
            },
            None => {
                proof {
                    lemma_hidden_has_header(self@.collapsed, path@, rows@, c as int);
                }
                c
            },
        }
    }

    /// The first row after `r` that is not hidden, if any.
    pub fn next_visible_pull_request_diff_line(&self, path: &str, rows: &[DiffRow], r: usize) -> (n: Option<usize>)
        ensures
            rows.len() == 0 ==> n is None,
            rows.len() > 0 ==> match n {
                Some(i) => first_visible_from(self@.collapsed, path@, pr_diff::row_views(rows@), clamp_row(pr_diff::row_views(rows@), r) + 1) == Some(i as int),
                None => first_visible_from(self@.collapsed, path@, pr_diff::row_views(rows@), clamp_row(pr_diff::row_views(rows@), r) + 1) is None,
            },
    {
        if rows.len() == 0 {
            return None;
        }
        let ghost rv = pr_diff::row_views(rows@);
        let start = if r < rows.len() { r + 1 } else { rows.len() };
        assert(rv.len() == rows.len());
        assert(start as int == clamp_row(rv, r) + 1);
        let mut index = start;
        while index < rows.len()
            invariant
                start <= index <= rows.len(),
                rv == pr_diff::row_views(rows@),
                rv.len() == rows.len(),
                start as int == clamp_row(rv, r) + 1,
                first_visible_from(self@.collapsed, path@, rv, start as int) == first_visible_from(
                    self@.collapsed,
                    path@,
                    rv,
                    index as int,
                ),
            decreases rows.len() - index,
        {
            if !self.pull_request_diff_row_hidden(path, rows, index) {
                assert(first_visible_from(self@.collapsed, path@, rv, index as int) == Some(index as int));
                return Some(index);
            }
            index = index + 1;
        }
        None
    }

    /// The last row before `r` that is not hidden, if any.
    pub fn previous_visible_pull_request_diff_line(&self, path: &str, rows: &[DiffRow], r: usize) -> (n: Option<usize>)
        ensures
            rows.len() == 0 ==> n is None,
            rows.len() > 0 ==> match n {
                Some(i) => last_visible_below(self@.collapsed, path@, pr_diff::row_views(rows@), clamp_row(pr_diff::row_views(rows@), r)) == Some(i as int),
                None => last_visible_below(self@.collapsed, path@, pr_diff::row_views(rows@), clamp_row(pr_diff::row_views(rows@), r)) is None,
            },
    {
        if rows.len() == 0 {
            return None;
        }
        let ghost rv = pr_diff::row_views(rows@);
        let top = if r < rows.len() { r } else { rows.len() - 1 };
        assert(rv.len() == rows.len());
        assert(top as int == clamp_row(rv, r));
        let mut index = top;
        while index > 0
            invariant
                index <= top,
                top < rows.len(),
                rv == pr_diff::row_views(rows@),
                rv.len() == rows.len(),
                top as int == clamp_row(rv, r),
                last_visible_below(self@.collapsed, path@, rv, top as int) == last_visible_below(
                    self@.collapsed,
                    path@,
                    rv,
                    index as int,
                ),
            decreases index,
        {
            index = index - 1;
            if !self.pull_request_diff_row_hidden(path, rows, index) {
                assert(last_visible_below(self@.collapsed, path@, rv, index + 1) == Some(index as int));
                return Some(index);
            }
        }
        None
    }

    /// The last row that is not hidden, if any.
    pub fn last_visible_pull_request_diff_line(&self, path: &str, rows: &[DiffRow]) -> (n: Option<usize>)
        ensures
            match n {
                Some(i) => last_visible_below(self@.collapsed, path@, pr_diff::row_views(rows@), rows.len() as int) == Some(i as int),
                None => last_visible_below(self@.collapsed, path@, pr_diff::row_views(rows@), rows.len() as int) is None,
            },
    {
        let ghost rv = pr_diff::row_views(rows@);
        assert(rv.len() == rows.len());
        let mut index = rows.len();
        while index > 0
            invariant
                index <= rows.len(),
                rv == pr_diff::row_views(rows@),
                last_visible_below(self@.collapsed, path@, rv, rows.len() as int) == last_visible_below(
                    self@.collapsed,
                    path@,
                    rv,
                    index as int,
                ),
            decreases index,
        {
            index = index - 1;
            if !self.pull_request_diff_row_hidden(path, rows, index) {
                assert(last_visible_below(self@.collapsed, path@, rv, index + 1) == Some(index as int));
                return Some(index);
            }
        }
        None
    }

    /// The rows of the highlighted file's diff, when a file is highlighted.
    fn selected_file_rows(&self) -> (r: Option<(String, Vec<DiffRow>)>)
        requires
            self.wf(),
        ensures
            self@.selected_file < self@.files.len() ==> (r matches Some(p) && p.0@ == self@.files[self@.selected_file as int].filename@
                && pr_diff::row_views(p.1@) == selected_rows(self@)),
            self@.selected_file >= self@.files.len() ==> r is None,
    {
        if self.selected_file >= self.files.len() {
            return None;
        }
        let f = &self.files[self.selected_file];
        let patch = match &f.patch {
            Some(p) => Some(p.as_str()),
            None => None,
        };
        assert(pr_diff::opt_str_view(patch) == file_patch(*f));
        assert(pr_diff::patch_fits(file_patch(self@.files[self@.selected_file as int])));
        let rows = pr_diff::parse_patch(patch);
        Some((f.filename.clone(), rows))
    }

    /// What a comment on the highlighted lines of the highlighted file
    /// attaches to.
    pub fn selected_pull_request_review_target(&self) -> (r: Option<PullRequestReviewTarget>)
        requires
            self.wf(),
        ensures
            match r {
                Some(t) => selected_target_spec(self@) == Some(target_parts(t)),
                None => selected_target_spec(self@) is None,
            },
    {
        match self.selected_file_rows() {
            Some((path, rows)) => self.review_target_for_rows(path.as_str(), rows.as_slice()),
            None => None,
        }
    }

    /// Where the selected review comment is, if any.
    #[verifier::rlimit(40)]
    fn selected_comment_index(&self) -> (r: Option<usize>)
        requires
            self.wf(),
        ensures
            match r {
                Some(i) => selected_comment_spec(self@) == Some(i as int) && i < self@.comments.len(),
                None => selected_comment_spec(self@) is None,
            },
    {
        let target = match self.selected_pull_request_review_target() {
            Some(t) => t,
            None => return None,
        };
        let ghost t = target_parts(target);
        let ghost cs = self@.comments;
        let tp = text::chars_of(target.path.as_str());
        let mut by_sel: Option<usize> = None;
        let mut by_min: Option<usize> = None;
        let mut i: usize = 0;
        while i < self.comments.len()
            invariant
                i <= self.comments.len(),
                cs == self@.comments,
                cs == self.comments@,
                tp@ == t.0,
                t == target_parts(target),
                match by_sel {
                    Some(b) => b < i && comment_on(cs[b as int], t) && self.selected_comment == Some(cs[b as int].id)
                        && forall|k: int| 0 <= k < b ==> !(comment_on(#[trigger] cs[k], t) && self.selected_comment == Some(cs[k].id)),
                    None => forall|k: int| 0 <= k < i ==> !(comment_on(#[trigger] cs[k], t) && self.selected_comment == Some(cs[k].id)),
                },
                match by_min {
                    Some(b) => b < i && comment_on(cs[b as int], t) && (forall|k: int|
                        0 <= k < i && comment_on(#[trigger] cs[k], t) ==> cs[b as int].id <= cs[k].id)
                        && forall|k: int| 0 <= k < b ==> !(comment_on(#[trigger] cs[k], t) && cs[k].id == cs[b as int].id),
                    None => forall|k: int| 0 <= k < i ==> !comment_on(#[trigger] cs[k], t),
                },
            decreases self.comments.len() - i,
        {
            let c = &self.comments[i];
            let on = if c.anchored && c.side == target.side && c.line == target.line {
                let pc = text::chars_of(c.path.as_str());
                text::chars_eq(pc.as_slice(), tp.as_slice())
            } else {
                false
            };
            assert(on == comment_on(cs[i as int], t));
            if on {
                if by_sel.is_none() && self.selected_comment == Some(c.id) {
                    by_sel = Some(i);
                }
                match by_min {
                    Some(b) => {
                        if c.id < self.comments[b].id {
                            by_min = Some(i);
                        }
                    },
                    None => {
                        by_min = Some(i);
                    },
                }
            }
            i = i + 1;
        }
        proof {
            lemma_chosen_comment(cs, t, self.selected_comment, by_sel, by_min);
        }
        match by_sel {
            Some(b) => Some(b),
            None => by_min,
        }
    }

    /// The selected review comment, if any.
    pub fn selected_pull_request_review_comment(&self) -> (r: Option<&PullRequestReviewComment>)
        requires
            self.wf(),
        ensures
            match selected_comment_spec(self@) {
                Some(i) => r == Some(&self@.comments[i]),
                None => r is None,
            },
    {
        match self.selected_comment_index() {
            Some(i) => Some(&self.comments[i]),
            None => None,
        }
    }

    /// Brings the selected comment id in line with the comment shown.
    fn sync_selected_pull_request_review_comment(&mut self)
        requires
            old(self).wf(),
        ensures
            final(self).wf(),
            final(self)@ == synced(old(self)@),
    {
        let id = match self.selected_comment_index() {
            Some(i) => Some(self.comments[i].id),
            None => None,
        };
        self.selected_comment = id;
    }

    /// Focuses the file list or the diff. Focusing the files leaves the
    /// expanded diff and visual mode; focusing the diff moves the highlight
    /// off lines a collapsed hunk hides. The selected comment follows.
    pub fn set_pull_request_review_focus(&mut self, focus: PullRequestReviewFocus)
        requires
            old(self).wf(),
        ensures
            final(self).wf(),
            final(self)@ == focus_set(old(self)@, focus),
    {
        self.focus = focus;
        if focus == PullRequestReviewFocus::Files {
            self.expanded = false;
            self.visual_mode = false;
            self.visual_anchor = None;
        } else {
            match self.selected_file_rows() {
                Some((path, rows)) => {
                    self.diff_line = self.nearest_visible_pull_request_diff_line(path.as_str(), rows.as_slice(), self.diff_line);
                },
                None => {},
            }
        }
        self.sync_selected_pull_request_review_comment();
    }

    /// Starts or ends visual mode on the diff (focusing the diff first);
    /// the anchor is the highlighted line.
    pub fn toggle_pull_request_visual_mode(&mut self)
        requires
            old(self).wf(),
        ensures
            final(self).wf(),
            final(self)@ == visual_toggled(old(self)@),
    {
        self.focus = PullRequestReviewFocus::Diff;
        if self.visual_mode {
            self.visual_mode = false;
            self.visual_anchor = None;
        } else {
            self.visual_mode = true;
            self.visual_anchor = Some(self.diff_line);
        }
        self.sync_selected_pull_request_review_comment();
    }

    /// Switches between the split view and the expanded diff, when the diff
    /// of the review view has the focus.
    pub fn toggle_pull_request_diff_expanded(&mut self, in_review_view: bool)
        ensures
            final(self)@ == expanded_toggled(old(self)@, in_review_view),
    {
        if !in_review_view || self.focus != PullRequestReviewFocus::Diff {
            return;
        }
        self.expanded = !self.expanded;
        if self.expanded {
            self.status = "Expanded diff view".to_owned();
        } else {
            self.status = "Split files and diff view".to_owned();
        }
    }

    /// Going back from the review: an expanded diff returns to the split
    /// view; otherwise the review is left. Whether the review is left.
    pub fn back_from_pull_request_files(&mut self) -> (leave: bool)
        ensures
            leave == !old(self)@.expanded,
            leave ==> final(self)@ == old(self)@,
            !leave ==> final(self)@ == (ReviewView { expanded: false, status: "Split files and diff view"@, ..old(self)@ }),
    {
        if self.expanded {
            self.expanded = false;
            self.status = "Split files and diff view".to_owned();
            return false;
        }
        true
    }

    /// Scrolls the diff sideways by `delta` columns, within the limit, when
    /// the diff of the review view has the focus.
    pub fn scroll_pull_request_diff_horizontal(&mut self, in_review_view: bool, delta: i16)
        ensures
            final(self)@ == h_scrolled(old(self)@, in_review_view, delta),
    {
        if !in_review_view || self.focus != PullRequestReviewFocus::Diff {
            return;
        }
        if delta < 0 {
            let amount: u16 = (-(delta as i32)) as u16;
            self.h_scroll = self.h_scroll.saturating_sub(amount);
            return;
        }
        let amount: u16 = delta as u16;
        let up = self.h_scroll.saturating_add(amount);
        self.h_scroll = if up < self.h_max { up } else { self.h_max };
    }

    /// Sets how far the diff can scroll, pulling the scroll back within it.
    pub fn set_pull_request_diff_max_scroll(&mut self, max_scroll: u16)
        ensures
            final(self)@ == (ReviewView {
                diff_max_scroll: max_scroll,
                diff_scroll: if old(self)@.diff_scroll > max_scroll { max_scroll } else { old(self)@.diff_scroll },
                ..old(self)@
            }),
    {
        self.diff_max_scroll = max_scroll;
        if self.diff_scroll > max_scroll {
            self.diff_scroll = max_scroll;
        }
    }

    /// Scrolls the diff to `scroll`, within the limit.
    pub fn set_pull_request_diff_scroll(&mut self, scroll: u16)
        ensures
            final(self)@ == (ReviewView {
                diff_scroll: if scroll < old(self)@.diff_max_scroll { scroll } else { old(self)@.diff_max_scroll },
                ..old(self)@
            }),
    {
        self.diff_scroll = if scroll < self.diff_max_scroll { scroll } else { self.diff_max_scroll };
    }

    /// Scrolls the diff back to its first column.
    pub fn reset_pull_request_diff_horizontal_scroll(&mut self)
        ensures
            final(self)@ == (ReviewView { h_scroll: 0, ..old(self)@ }),
    {
        self.h_scroll = 0;
    }

    /// Sets how far the diff can scroll sideways, pulling the scroll back within it.
    pub fn set_pull_request_diff_horizontal_max(&mut self, max_scroll: u16)
        ensures
            final(self)@ == (ReviewView {
                h_max: max_scroll,
                h_scroll: if old(self)@.h_scroll > max_scroll { max_scroll } else { old(self)@.h_scroll },
                ..old(self)@
            }),
    {
        self.h_max = max_scroll;
        if self.h_scroll > max_scroll {
            self.h_scroll = max_scroll;
        }
    }
}

/// Whether every file's diff can be read (`patches_fit`): the test a caller
/// makes before `ReviewState::set_pull_request_files`.
pub fn patches_fit_check(files: &Vec<PullRequestFile>) -> (b: bool)
    ensures
        b == patches_fit(files@),
{
    let mut i: usize = 0;
    while i < files.len()
        invariant
            i <= files.len(),
            forall|j: int| 0 <= j < i ==> pr_diff::patch_fits(file_patch(#[trigger] files@[j])),
        decreases files.len() - i,
    {
        let patch: Option<&str> = match &files[i].patch {
            Some(p) => Some(p.as_str()),
            None => None,
        };
        if !pr_diff::patch_fits_check(patch) {
            assert(!pr_diff::patch_fits(file_patch(files@[i as int])));
            return false;
        }
        i = i + 1;
    }
    true
}

impl ReviewState {
    /// Loads the changed files of the pull request of issue `issue_id`.
    pub fn set_pull_request_files(&mut self, issue_id: i64, files: Vec<PullRequestFile>)
        requires
            old(self).wf(),
            patches_fit(files@),
        ensures
            final(self).wf(),
            final(self)@ == loaded(old(self)@, issue_id, files@),
    {
        let ghost before = self@;
        let ghost cv = self@.collapsed;
        let mut kept: Vec<(String, usize)> = Vec::new();
        let mut i: usize = 0;
        while i < self.collapsed.len()
            invariant
                i <= self.collapsed.len(),
                cv == self@.collapsed,
                cv.no_duplicates(),
                pair_views(kept@) == collapsed_in(cv.take(i as int), files@),
                pair_views(kept@).no_duplicates(),
                forall|x: (Seq<char>, usize)| #[trigger] pair_views(kept@).contains(x) ==> cv.take(i as int).contains(x),
            decreases self.collapsed.len() - i,
        {
            let ghost t0 = cv.take(i as int);
            let ghost t1 = cv.take(i + 1);
            assert(t1.drop_last() =~= t0);
            assert(t1.last() == cv[i as int]);
            assert(cv[i as int] == (self.collapsed@[i as int].0@, self.collapsed@[i as int].1));
            let path = text::chars_of(self.collapsed[i].0.as_str());
            let mut found = false;
            let mut j: usize = 0;
            while j < files.len()
                invariant
                    j <= files.len(),
                    path@ == cv[i as int].0,
                    found <==> exists|m: int| 0 <= m < j && (#[trigger] files@[m]).filename@ == path@,
                decreases files.len() - j,
            {
                let f = text::chars_of(files[j].filename.as_str());
                if text::chars_eq(f.as_slice(), path.as_slice()) {
                    found = true;
                }
                j = j + 1;
            }
            let ghost kv = pair_views(kept@);
            assert(forall|x: (Seq<char>, usize)| kv.contains(x) ==> t0.contains(x));
            if found {
                kept.push((self.collapsed[i].0.clone(), self.collapsed[i].1));
                let ghost kv2 = pair_views(kept@);
                assert(kv2 =~= kv.push(cv[i as int]));
                assert(!kv.contains(cv[i as int])) by {
                    if kv.contains(cv[i as int]) {
                        assert(t0.contains(cv[i as int]));
                        let m = choose|m: int| 0 <= m < t0.len() && t0[m] == cv[i as int];
                        assert(cv[m] == cv[i as int]);
                    }
                }
                assert(kv2.no_duplicates()) by {
                    assert forall|a: int, b: int| 0 <= a < b < kv2.len() implies kv2[a] != kv2[b] by {
                        if b == kv.len() {
                            assert(kv2[a] == kv[a]);
                            assert(kv.contains(kv[a]));
                        } else {
                            assert(kv2[a] == kv[a] && kv2[b] == kv[b]);
                        }
                    }
                }
                assert forall|x: (Seq<char>, usize)| kv2.contains(x) implies t1.contains(x) by {
                    let q = choose|q: int| 0 <= q < kv2.len() && kv2[q] == x;
                    if q < kv.len() {
                        assert(kv[q] == x);
                        assert(kv.contains(x));
                        let m = choose|m: int| 0 <= m < t0.len() && t0[m] == x;
                        assert(t1[m] == x);
                    } else {
                        assert(t1[i as int] == x);
                    }
                }
            } else {
                assert forall|x: (Seq<char>, usize)| kv.contains(x) implies t1.contains(x) by {
                    let m = choose|m: int| 0 <= m < t0.len() && t0[m] == x;
                    assert(t1[m] == x);
                }
            }
            i = i + 1;
        }
        assert(cv.take(self.collapsed.len() as int) =~= cv);
        self.files_issue_id = Some(issue_id);
        self.pull_request_id = None;
        self.files = files;
        self.viewed = Vec::new();
        self.collapsed = kept;
        self.selected_file = 0;
        self.diff_line = 0;
        self.diff_scroll = 0;
        self.h_scroll = 0;
        self.diff_max_scroll = 0;
        self.h_max = 0;
        self.expanded = false;
        self.focus = PullRequestReviewFocus::Files;
        self.visual_mode = false;
        self.visual_anchor = None;
        self.selected_comment = None;
        assert(self@.viewed =~= Seq::<Seq<char>>::empty());
    }

    /// Forgets the review: back to a fresh one, keeping the status line.
    pub fn reset_pull_request_state(&mut self)
        ensures
            final(self).wf(),
            final(self)@ == fresh_review(old(self)@.status),
    {
        self.files_issue_id = None;
        self.pull_request_id = None;
        self.files = Vec::new();
        self.viewed = Vec::new();
        self.collapsed = Vec::new();
        self.comments = Vec::new();
        self.selected_file = 0;
        self.diff_line = 0;
        self.diff_scroll = 0;
        self.h_scroll = 0;
        self.diff_max_scroll = 0;
        self.h_max = 0;
        self.expanded = false;
        self.focus = PullRequestReviewFocus::Files;
        self.side = ReviewSide::Right;
        self.visual_mode = false;
        self.visual_anchor = None;
        self.selected_comment = None;
        self.editing_comment = None;
        self.pending_target = None;
        assert(self@.viewed =~= Seq::<Seq<char>>::empty());
        assert(self@.collapsed =~= Seq::<(Seq<char>, usize)>::empty());
    }

    /// Whether the file at `path` is marked viewed.
    pub fn pull_request_file_is_viewed(&self, path: &str) -> (r: bool)
        ensures
            r == self@.viewed.contains(path@),
    {
        self.viewed_position(path).is_some()
    }

    /// Where `path` is among the viewed files.
    fn viewed_position(&self, path: &str) -> (r: Option<usize>)
        ensures
            r is None <==> !self@.viewed.contains(path@),
            r matches Some(p) ==> p < self.viewed.len() && self@.viewed[p as int] == path@,
    {
        let p = text::chars_of(path);
        let ghost vv = self@.viewed;
        let mut i: usize = 0;
        while i < self.viewed.len()
            invariant
                i <= self.viewed.len(),
                vv == self@.viewed,
                p@ == path@,
                forall|k: int| 0 <= k < i ==> vv[k] != path@,
            decreases self.viewed.len() - i,
        {
            let q = text::chars_of(self.viewed[i].as_str());
            if text::chars_eq(q.as_slice(), p.as_slice()) {
                assert(vv[i as int] == path@);
                return Some(i);
            }
            i = i + 1;
        }
        None
    }

    /// Marks the file at `path` viewed or not viewed.
    pub fn set_pull_request_file_viewed(&mut self, path: &str, viewed: bool)
        requires
            old(self).wf(),
        ensures
            final(self).wf(),
            forall|x: Seq<char>| #[trigger] final(self)@.viewed.contains(x) <==> if x == path@ {
                viewed
            } else {
                old(self)@.viewed.contains(x)
            },
            final(self)@ == (ReviewView { viewed: final(self)@.viewed, ..old(self)@ }),
    {
        let ghost before = self@.viewed;
        match self.viewed_position(path) {
            Some(p) => {
                if !viewed {
                    self.viewed.remove(p);
                    let ghost after = self@.viewed;
                    assert(after =~= before.remove(p as int));
                    assert forall|x: Seq<char>| #[trigger] after.contains(x) <==> if x == path@ {
                        viewed
                    } else {
                        before.contains(x)
                    } by {
                        if after.contains(x) {
                            let q = choose|q: int| 0 <= q < after.len() && after[q] == x;
                            if q < p {
                                assert(before[q] == x);
                                assert(before[q] != before[p as int]);
                            } else {
                                assert(before[q + 1] == x);
                                assert(before[q + 1] != before[p as int]);
                            }
                        }
                        if x != path@ && before.contains(x) {
                            let q = choose|q: int| 0 <= q < before.len() && before[q] == x;
                            if q < p {
                                assert(after[q] == x);
                            } else {
                                assert(after[q - 1] == x);
                            }
                        }
                    }
                    assert(after.no_duplicates()) by {
                        assert forall|a: int, b: int| 0 <= a < b < after.len() implies after[a] != after[b] by {
                            let a2 = if a < p { a } else { a + 1 };
                            let b2 = if b < p { b } else { b + 1 };
                            assert(after[a] == before[a2] && after[b] == before[b2]);
                        }
                    }
                }
            },
            None => {
                if viewed {
                    self.viewed.push(path.to_owned());
                    let ghost after = self@.viewed;
                    assert(after =~= before.push(path@));
                    assert forall|x: Seq<char>| #[trigger] after.contains(x) <==> if x == path@ {
                        viewed
                    } else {
                        before.contains(x)
                    } by {
                        if after.contains(x) && x != path@ {
                            let q = choose|q: int| 0 <= q < after.len() && after[q] == x;
                            assert(before[q] == x);
                        }
                        if before.contains(x) {
                            let q = choose|q: int| 0 <= q < before.len() && before[q] == x;
                            assert(after[q] == x);
                        }
                        if x == path@ {
                            assert(after[before.len() as int] == x);
                        }
                    }
                    assert(after.no_duplicates()) by {
                        assert forall|a: int, b: int| 0 <= a < b < after.len() implies after[a] != after[b] by {
                            if b == before.len() {
                                assert(after[a] == before[a]);
                                assert(before.contains(before[a]));
                            } else {
                                assert(after[a] == before[a] && after[b] == before[b]);
                            }
                        }
                    }
                }
            },
        }
    }

    /// The highlighted file's name and the viewed mark it would get when toggled.
    pub fn selected_pull_request_file_view_toggle(&self) -> (r: Option<(String, bool)>)
        ensures
            self@.selected_file < self@.files.len() ==> (r matches Some(p) && p.0 == self@.files[self@.selected_file as int].filename
                && p.1 == !self@.viewed.contains(p.0@)),
            self@.selected_file >= self@.files.len() ==> r is None,
    {
        if self.selected_file >= self.files.len() {
            return None;
        }
        let name = self.files[self.selected_file].filename.clone();
        let viewed = self.pull_request_file_is_viewed(name.as_str());
        Some((name, !viewed))
    }

    /// Takes the pull request's node id and the files marked viewed,
    /// keeping only marks of files that are loaded (each once).
    pub fn set_pull_request_view_state(&mut self, pull_request_id: Option<String>, viewed_files: Vec<String>)
        requires
            old(self).wf(),
        ensures
            final(self).wf(),
            forall|x: Seq<char>| #[trigger] final(self)@.viewed.contains(x) <==> (text::string_views(viewed_files@).contains(x)
                && has_file(old(self)@.files, x)),
            final(self)@ == (ReviewView { pull_request_id: opt_view(pull_request_id), viewed: final(self)@.viewed, ..old(self)@ }),
    {
        let ghost vf = text::string_views(viewed_files@);
        let mut kept: Vec<String> = Vec::new();
        let mut i: usize = 0;
        while i < viewed_files.len()
            invariant
                i <= viewed_files.len(),
                vf == text::string_views(viewed_files@),
                text::string_views(kept@).no_duplicates(),
                forall|x: Seq<char>| #[trigger] text::string_views(kept@).contains(x) <==> (vf.take(i as int).contains(x)
                    && has_file(self@.files, x)),
            decreases viewed_files.len() - i,
        {
            let ghost t0 = vf.take(i as int);
            let ghost t1 = vf.take(i + 1);
            assert(t1.drop_last() =~= t0);
            assert(t1[i as int] == viewed_files@[i as int]@);
            let name = text::chars_of(viewed_files[i].as_str());
            let mut in_files = false;
            let mut j: usize = 0;
            while j < self.files.len()
                invariant
                    j <= self.files.len(),
                    name@ == viewed_files@[i as int]@,
                    in_files <==> exists|m: int| 0 <= m < j && (#[trigger] self@.files[m]).filename@ == name@,
                decreases self.files.len() - j,
            {
                let f = text::chars_of(self.files[j].filename.as_str());
                assert(self@.files[j as int] == self.files@[j as int]);
                if text::chars_eq(f.as_slice(), name.as_slice()) {
                    in_files = true;
                }
                j = j + 1;
            }
            let ghost kv = text::string_views(kept@);
            let mut dup = false;
            let mut k: usize = 0;
            while k < kept.len()
                invariant
                    k <= kept.len(),
                    kv == text::string_views(kept@),
                    dup <==> exists|m: int| 0 <= m < k && kv[m] == name@,
                decreases kept.len() - k,
            {
                let q = text::chars_of(kept[k].as_str());
                assert(kv[k as int] == kept@[k as int]@);
                if text::chars_eq(q.as_slice(), name.as_slice()) {
                    dup = true;
                }
                k = k + 1;
            }
            if in_files && !dup {
                kept.push(viewed_files[i].clone());
                let ghost kv2 = text::string_views(kept@);
                assert(kv2 =~= kv.push(name@));
                assert(kv2.no_duplicates()) by {
                    assert forall|a: int, b: int| 0 <= a < b < kv2.len() implies kv2[a] != kv2[b] by {
                        if b == kv.len() {
                            assert(kv2[a] == kv[a]);
                        } else {
                            assert(kv2[a] == kv[a] && kv2[b] == kv[b]);
                        }
                    }
                }
            }
            let ghost now = text::string_views(kept@);
            let ghost pushed = in_files && !dup;
            assert(pushed ==> now == kv.push(name@));
            assert(!pushed ==> now == kv);
            assert(in_files <==> has_file(self@.files, name@)) by {
                if has_file(self@.files, name@) {
                    let m = choose|m: int| 0 <= m < self@.files.len() && (#[trigger] self@.files[m]).filename@ == name@;
                    assert(self@.files[m].filename@ == name@);
                }
            }
            assert(t1 == t0.push(name@));
            assert forall|x: Seq<char>| #[trigger] now.contains(x) implies (t1.contains(x) && has_file(self@.files, x)) by {
                if kv.contains(x) {
                    assert(t0.contains(x) && has_file(self@.files, x));
                    let m = choose|m: int| 0 <= m < t0.len() && t0[m] == x;
                    assert(t1[m] == x);
                } else {
                    assert(pushed);
                    let q = choose|q: int| 0 <= q < now.len() && now[q] == x;
                    if q < kv.len() {
                        assert(now[q] == kv[q]);
                        assert(kv.contains(x));
                    }
                    assert(x == name@);
                    assert(t1[i as int] == x);
                }
            }
            assert forall|x: Seq<char>| (t1.contains(x) && has_file(self@.files, x)) implies #[trigger] now.contains(x) by {
                let m = choose|m: int| 0 <= m < t1.len() && t1[m] == x;
                if m < i {
                    assert(t0[m] == x);
                    assert(t0.contains(x));
                    assert(kv.contains(x));
                    let q = choose|q: int| 0 <= q < kv.len() && kv[q] == x;
                    assert(now[q] == x);
                } else {
                    assert(x == name@);
                    if pushed {
                        assert(now[kv.len() as int] == x);
                    } else {
                        assert(dup);
                        let q = choose|q: int| 0 <= q < kv.len() && kv[q] == name@;
                        assert(now[q] == x);
                    }
                }
            }
            i = i + 1;
        }
        assert(vf.take(viewed_files.len() as int) =~= vf);
        self.pull_request_id = pull_request_id;
        self.viewed = kept;
    }

    /// The changed files.
    pub fn pull_request_files(&self) -> (r: &[PullRequestFile])
        ensures
            r@ == self@.files,
    {
        self.files.as_slice()
    }

    /// The highlighted file, if any.
    pub fn selected_pull_request_file_row(&self) -> (r: Option<&PullRequestFile>)
        ensures
            self@.selected_file < self@.files.len() ==> r == Some(&self@.files[self@.selected_file as int]),
            self@.selected_file >= self@.files.len() ==> r is None,
    {
        if self.selected_file < self.files.len() {
            Some(&self.files[self.selected_file])
        } else {
            None
        }
    }

    /// Which pane of the review has the focus.
    pub fn pull_request_review_focus(&self) -> (r: PullRequestReviewFocus)
        ensures
            r == self@.focus,
    {
        self.focus
    }

    /// The highlighted file's position.
    pub fn selected_pull_request_file(&self) -> (r: usize)
        ensures
            r == self@.selected_file,
    {
        self.selected_file
    }

    /// The highlighted diff line.
    pub fn selected_pull_request_diff_line(&self) -> (r: usize)
        ensures
            r == self@.diff_line,
    {
        self.diff_line
    }

    /// The side of the diff comments go on.
    pub fn pull_request_review_side(&self) -> (r: ReviewSide)
        ensures
            r == self@.side,
    {
        self.side
    }

    /// The highlighted range of lines, in visual mode.
    pub fn pull_request_visual_range(&self) -> (r: Option<(usize, usize)>)
        ensures
            r == if self@.visual_mode { Some(diff_range_spec(self@)) } else { None },
    {
        if !self.visual_mode {
            return None;
        }
        Some(self.selected_pull_request_diff_range())
    }

    /// The id of the selected review comment.
    pub fn selected_pull_request_review_comment_id(&self) -> (r: Option<i64>)
        ensures
            r == self@.selected_comment,
    {
        self.selected_comment
    }

    /// How far the diff is scrolled down and sideways, and the sideways limit.
    pub fn pull_request_diff_scrolls(&self) -> (r: (u16, u16, u16))
        ensures
            r == (self@.diff_scroll, self@.h_scroll, self@.h_max),
    {
        (self.diff_scroll, self.h_scroll, self.h_max)
    }

    /// Whether the diff fills the view.
    pub fn pull_request_diff_expanded(&self) -> (r: bool)
        ensures
            r == self@.expanded,
    {
        self.expanded
    }

    /// The status line the review set last.
    pub fn status(&self) -> (r: &str)
        ensures
            r@ == self@.status,
    {
        self.status.as_str()
    }

    /// How many rows of hunk `start` are hidden: none unless it is
    /// collapsed, else the rows after its header up to its end.
    pub fn pull_request_hunk_hidden_line_count(&self, path: &str, rows: &[DiffRow], start: usize) -> (r: usize)
        ensures
            !self@.collapsed.contains((path@, start)) ==> r == 0,
            self@.collapsed.contains((path@, start)) ==> (if start < rows.len() && rows@[start as int].kind == DiffKind::Hunk {
                exists|e: int| pr_diff::is_hunk_end(rows@, start as int, e) && r == e - start
            } else {
                r == 0
            }),
    {
        if !self.pull_request_hunk_is_collapsed(path, start) {
            return 0;
        }
        match pr_diff::pull_request_hunk_end(rows, start) {
            Some(end) => end - start,
            None => 0,
        }
    }

    /// Comments go on the old (left) or new (right) side of the diff; the
    /// selected comment follows.
    pub fn set_pull_request_review_side(&mut self, side: ReviewSide)
        requires
            old(self).wf(),
        ensures
            final(self).wf(),
            final(self)@ == synced(ReviewView { side, ..old(self)@ }),
    {
        self.side = side;
        self.sync_selected_pull_request_review_comment();
    }

    /// Collapses the hunk holding the highlighted diff line, or expands it
    /// when it is collapsed, and moves the highlight to the hunk's header.
    /// The diff must have the focus and the file a hunk there; the status
    /// line says what happened.
    pub fn toggle_selected_pull_request_hunk_collapsed(&mut self)
        requires
            old(self).wf(),
        ensures
            final(self).wf(),
            hunk_toggled(old(self)@, final(self)@),
    {
        if self.focus != PullRequestReviewFocus::Diff {
            self.status = "Focus the diff pane to collapse sections".to_owned();
            return;
        }
        let (path, rows) = match self.selected_file_rows() {
            Some(pr) => pr,
            None => {
                self.status = "No file selected".to_owned();
                return;
            },
        };
        if rows.len() == 0 {
            self.status = "No diff section to collapse".to_owned();
            return;
        }
        let ghost rv = pr_diff::row_views(rows@);
        let selected = if self.diff_line < rows.len() { self.diff_line } else { rows.len() - 1 };
        assert(rv.len() == rows.len());
        assert(selected as int == clamp_row(rv, self.diff_line));
        assert(forall|k: int| 0 <= k < rows.len() ==> #[trigger] rv[k].kind == rows@[k].kind);
        let range = match pr_diff::pull_request_hunk_range_for_row(rows.as_slice(), selected) {
            Some(r) => r,
            None => {
                assert forall|k: int| 0 <= k <= selected implies #[trigger] rv[k].kind != DiffKind::Hunk by {
                    assert(rows@[k].kind != DiffKind::Hunk);
                }
                self.status = "No hunk at this line".to_owned();
                return;
            },
        };
        proof {
            lemma_range_start_is_header(rows@, selected as int, range.start as int);
            assert(rows@[range.start as int].kind == DiffKind::Hunk);
        }
        let ghost before = self@.collapsed;
        let ghost key = (path@, range.start);
        let mut position: Option<usize> = None;
        let mut i: usize = 0;
        let pc = text::chars_of(path.as_str());
        while i < self.collapsed.len()
            invariant
                i <= self.collapsed.len(),
                before == self@.collapsed,
                pc@ == path@,
                key == (path@, range.start),
                match position {
                    Some(p) => p < i && before[p as int] == key,
                    None => forall|k: int| 0 <= k < i ==> before[k] != key,
                },
            decreases self.collapsed.len() - i,
        {
            assert(before[i as int] == (self.collapsed@[i as int].0@, self.collapsed@[i as int].1));
            if position.is_none() && self.collapsed[i].1 == range.start {
                let q = text::chars_of(self.collapsed[i].0.as_str());
                if text::chars_eq(q.as_slice(), pc.as_slice()) {
                    position = Some(i);
                }
            }
            i = i + 1;
        }
        let was = position.is_some();
        match position {
            Some(p) => {
                self.collapsed.remove(p);
                let ghost after = self@.collapsed;
                assert(after =~= before.remove(p as int));
                assert forall|x: (Seq<char>, usize)| #[trigger] after.contains(x) <==> if x == key {
                    false
                } else {
                    before.contains(x)
                } by {
                    if after.contains(x) {
                        let q = choose|q: int| 0 <= q < after.len() && after[q] == x;
                        if q < p {
                            assert(before[q] == x);
                            assert(before[q] != before[p as int]);
                        } else {
                            assert(before[q + 1] == x);
                            assert(before[q + 1] != before[p as int]);
                        }
                    }
                    if x != key && before.contains(x) {
                        let q = choose|q: int| 0 <= q < before.len() && before[q] == x;
                        if q < p {
                            assert(after[q] == x);
                        } else {
                            assert(after[q - 1] == x);
                        }
                    }
                }
                assert(after.no_duplicates()) by {
                    assert forall|a: int, b: int| 0 <= a < b < after.len() implies after[a] != after[b] by {
                        let a2 = if a < p { a } else { a + 1 };
                        let b2 = if b < p { b } else { b + 1 };
                        assert(after[a] == before[a2] && after[b] == before[b2]);
                    }
                }
            },
            None => {
                self.collapsed.push((path.clone(), range.start));
                let ghost after = self@.collapsed;
                assert(after =~= before.push(key));
                assert(!before.contains(key));
                assert forall|x: (Seq<char>, usize)| #[trigger] after.contains(x) <==> if x == key {
                    true
                } else {
                    before.contains(x)
                } by {
                    if after.contains(x) && x != key {
                        let q = choose|q: int| 0 <= q < after.len() && after[q] == x;
                        assert(before[q] == x);
                    }
                    if before.contains(x) {
                        let q = choose|q: int| 0 <= q < before.len() && before[q] == x;
                        assert(after[q] == x);
                    }
                    if x == key {
                        assert(after[before.len() as int] == x);
                    }
                }
                assert(after.no_duplicates()) by {
                    assert forall|a: int, b: int| 0 <= a < b < after.len() implies after[a] != after[b] by {
                        if b == before.len() {
                            assert(after[a] == before[a]);
                            assert(before.contains(before[a]));
                        } else {
                            assert(after[a] == before[a] && after[b] == before[b]);
                        }
                    }
                }
            },
        }
        self.diff_line = range.start;
        self.visual_mode = false;
        self.visual_anchor = None;
        let status = if was {
            let mut out = text::chars_of("Expanded section in ");
            text::append_chars(&mut out, pc.as_slice());
            text::string_of(out.as_slice())
        } else {
            let mut out = text::chars_of("Collapsed ");
            let n = text::u64_text((range.end - range.start) as u64);
            text::append_chars(&mut out, n.as_slice());
            let mid = text::chars_of(" lines in ");
            text::append_chars(&mut out, mid.as_slice());
            text::append_chars(&mut out, pc.as_slice());
            text::string_of(out.as_slice())
        };
        self.status = status;
        self.sync_selected_pull_request_review_comment();
        proof {
            let e = range.end as int;
            assert forall|k: int| range.start < k <= e implies #[trigger] rv[k].kind != DiffKind::Hunk by {
                assert(rows@[k].kind != DiffKind::Hunk);
            }
            if e + 1 < rows.len() {
                assert(rv[e + 1].kind == rows@[e + 1].kind);
            }
            assert(hunk_end_at(rv, range.start as int, e));
        }
    }
}

impl ReviewState {
    /// Loads the review comments, sorted by path, line and id; the
    /// selected comment follows.
    pub fn set_pull_request_review_comments(&mut self, comments: Vec<PullRequestReviewComment>)
        requires
            old(self).wf(),
        ensures
            final(self).wf(),
            final(self)@ == synced(ReviewView { comments: sort_comments(comments@), ..old(self)@ }),
    {
        self.comments = sort_comment_list(comments);
        self.sync_selected_pull_request_review_comment();
    }

    /// Selects the next (or previous) comment on the highlighted lines, in
    /// id order and round; clears the selection when there is none there.
    pub fn cycle_pull_request_review_comment(&mut self, forward: bool)
        requires
            old(self).wf(),
        ensures
            final(self).wf(),
            final(self)@ == comment_cycled(old(self)@, forward),
    {
        let target = match self.selected_pull_request_review_target() {
            Some(t) => t,
            None => return,
        };
        let ghost t = target_parts(target);
        let tp = text::chars_of(target.path.as_str());
        let ghost cs = self@.comments;
        let mut ids: Vec<i64> = Vec::new();
        let mut i: usize = 0;
        while i < self.comments.len()
            invariant
                i <= self.comments.len(),
                cs == self@.comments,
                cs == self.comments@,
                tp@ == t.0,
                t == target_parts(target),
                ids@ == ids_on(cs.take(i as int), t),
            decreases self.comments.len() - i,
        {
            assert(cs.take(i + 1).drop_last() =~= cs.take(i as int));
            assert(cs.take(i + 1).last() == cs[i as int]);
            let c = &self.comments[i];
            let on = if c.anchored && c.side == target.side && c.line == target.line {
                let pc = text::chars_of(c.path.as_str());
                text::chars_eq(pc.as_slice(), tp.as_slice())
            } else {
                false
            };
            assert(on == comment_on(cs[i as int], t));
            if on {
                ids.push(c.id);
            }
            i = i + 1;
        }
        assert(cs.take(self.comments.len() as int) =~= cs);
        let sorted = sort_id_list(ids);
        if sorted.len() == 0 {
            self.selected_comment = None;
            return;
        }
        let ghost sv = sorted@;
        let mut current: usize = 0;
        match self.selected_comment {
            Some(x) => {
                let mut k: usize = 0;
                let mut found = false;
                while k < sorted.len()
                    invariant
                        k <= sorted.len(),
                        sv == sorted@,
                        !found ==> current == 0 && forall|m: int| 0 <= m < k ==> sv[m] != x,
                        found ==> current < k && sv[current as int] == x && forall|m: int| 0 <= m < current ==> sv[m] != x,
                    decreases sorted.len() - k,
                {
                    if !found && sorted[k] == x {
                        found = true;
                        current = k;
                    }
                    k = k + 1;
                }
                proof {
                    if found {
                        let c = current as int;
                        let ch = choose|i: int| 0 <= i < sv.len() && sv[i] == x && forall|m: int| 0 <= m < i ==> sv[m] != x;
                        if ch < c {
                            assert(sv[ch] != x);
                        }
                        if c < ch {
                            assert(sv[c] != x);
                        }
                    }
                }
            },
            None => {},
        }
        let n = sorted.len();
        let next = if forward {
            (current + 1) % n
        } else if current == 0 {
            n - 1
        } else {
            current - 1
        };
        self.selected_comment = Some(sorted[next]);
    }

    /// Gives the first comment with id `id` a new body.
    pub fn update_pull_request_review_comment_body_by_id(&mut self, id: i64, body: &str)
        requires
            old(self).wf(),
        ensures
            final(self).wf(),
            with_body(old(self)@.comments, id, body@, final(self)@.comments),
            final(self)@ == (ReviewView { comments: final(self)@.comments, ..old(self)@ }),
    {
        let ghost cs = self@.comments;
        let mut out: Vec<PullRequestReviewComment> = Vec::new();
        let mut done = false;
        let mut i: usize = 0;
        while i < self.comments.len()
            invariant
                i <= self.comments.len(),
                cs == self.comments@,
                out.len() == i,
                done <==> exists|m: int| 0 <= m < i && cs[m].id == id,
                forall|k: int| 0 <= k < i ==> body_set(cs[k], #[trigger] out@[k], first_with_id(cs, id, k), body@),
            decreases self.comments.len() - i,
        {
            let mut c = copy_review_comment(&self.comments[i]);
            let change = !done && c.id == id;
            assert(change == first_with_id(cs, id, i as int));
            if change {
                c.body = body.to_owned();
                done = true;
            }
            let ghost before = out@;
            out.push(c);
            assert(body_set(cs[i as int], out@[i as int], first_with_id(cs, id, i as int), body@));
            assert forall|k: int| 0 <= k < i + 1 implies body_set(cs[k], #[trigger] out@[k], first_with_id(cs, id, k), body@) by {
                if k < i {
                    assert(out@[k] == before[k]);
                }
            }
            i = i + 1;
        }
        self.comments = out;
    }

    /// Removes the comments with id `id`; when it was the selected one the
    /// selection moves to the comment now shown.
    pub fn remove_pull_request_review_comment_by_id(&mut self, id: i64)
        requires
            old(self).wf(),
        ensures
            final(self).wf(),
            ({
                let removed = ReviewView { comments: without_id(old(self)@.comments, id), ..old(self)@ };
                final(self)@ == if old(self)@.selected_comment == Some(id) {
                    synced(ReviewView { selected_comment: None, ..removed })
                } else {
                    removed
                }
            }),
    {
        let ghost cs = self@.comments;
        let mut out: Vec<PullRequestReviewComment> = Vec::new();
        let mut i: usize = 0;
        while i < self.comments.len()
            invariant
                i <= self.comments.len(),
                cs == self.comments@,
                out@ == without_id(cs.take(i as int), id),
            decreases self.comments.len() - i,
        {
            assert(cs.take(i + 1).drop_last() =~= cs.take(i as int));
            assert(cs.take(i + 1).last() == cs[i as int]);
            if self.comments[i].id != id {
                out.push(copy_review_comment(&self.comments[i]));
            }
            i = i + 1;
        }
        assert(cs.take(self.comments.len() as int) =~= cs);
        self.comments = out;
        if self.selected_comment == Some(id) {
            self.selected_comment = None;
            self.sync_selected_pull_request_review_comment();
        }
    }

    /// The anchored comments on line `line` of `side` of `path`, in order.
    pub fn pull_request_comments_for_path_and_line(&self, path: &str, side: ReviewSide, line: i64) -> (r: Vec<&PullRequestReviewComment>)
        ensures
            r@.map_values(|c: &PullRequestReviewComment| *c) == self@.comments.filter(
                |c: PullRequestReviewComment| comment_on(c, (path@, line as int, side, None, None)),
            ),
    {
        let ghost t = (path@, line as int, side, None::<int>, None::<ReviewSide>);
        let ghost cs = self@.comments;
        let pc = text::chars_of(path);
        let mut out: Vec<&PullRequestReviewComment> = Vec::new();
        let mut i: usize = 0;
        while i < self.comments.len()
            invariant
                i <= self.comments.len(),
                cs == self.comments@,
                pc@ == path@,
                t == (path@, line as int, side, None::<int>, None::<ReviewSide>),
                out@.map_values(|c: &PullRequestReviewComment| *c) == cs.take(i as int).filter(
                    |c: PullRequestReviewComment| comment_on(c, t),
                ),
            decreases self.comments.len() - i,
        {
            let ghost t0 = cs.take(i as int);
            let ghost t1 = cs.take(i + 1);
            assert(t1.drop_last() =~= t0);
            assert(t1.last() == cs[i as int]);
            let c = &self.comments[i];
            let on = if c.anchored && c.side == side && c.line == line {
                let q = text::chars_of(c.path.as_str());
                text::chars_eq(q.as_slice(), pc.as_slice())
            } else {
                false
            };
            assert(on == comment_on(cs[i as int], t));
            let ghost before = out@;
            if on {
                out.push(c);
                assert(out@.map_values(|c: &PullRequestReviewComment| *c) =~= before.map_values(
                    |c: &PullRequestReviewComment| *c,
                ).push(cs[i as int]));
            }
            proof {
                assert(t1.filter(|c: PullRequestReviewComment| comment_on(c, t)) == if comment_on(cs[i as int], t) {
                    t0.filter(|c: PullRequestReviewComment| comment_on(c, t)).push(cs[i as int])
                } else {
                    t0.filter(|c: PullRequestReviewComment| comment_on(c, t))
                }) by {
                    reveal_with_fuel(Seq::filter, 1);
                }
            }
            i = i + 1;
        }
        assert(cs.take(self.comments.len() as int) =~= cs);
        out
    }

    /// How many comments are on `path`.
    pub fn pull_request_comments_count_for_path(&self, path: &str) -> (r: usize)
        ensures
            r == self@.comments.filter(|c: PullRequestReviewComment| c.path@ == path@).len(),
    {
        let ghost cs = self@.comments;
        let pc = text::chars_of(path);
        let mut n: usize = 0;
        let mut i: usize = 0;
        while i < self.comments.len()
            invariant
                i <= self.comments.len(),
                cs == self.comments@,
                pc@ == path@,
                n == cs.take(i as int).filter(|c: PullRequestReviewComment| c.path@ == path@).len(),
                n <= i,
            decreases self.comments.len() - i,
        {
            let ghost t0 = cs.take(i as int);
            let ghost t1 = cs.take(i + 1);
            assert(t1.drop_last() =~= t0);
            assert(t1.last() == cs[i as int]);
            proof {
                reveal_with_fuel(Seq::filter, 1);
            }
            let q = text::chars_of(self.comments[i].path.as_str());
            if text::chars_eq(q.as_slice(), pc.as_slice()) {
                n = n + 1;
            }
            i = i + 1;
        }
        assert(cs.take(self.comments.len() as int) =~= cs);
        n
    }

    /// Remembers the lines a new review comment is for (or forgets them).
    pub fn set_pending_review_target(&mut self, target: Option<PullRequestReviewTarget>)
        ensures
            final(self)@ == (ReviewView { pending_target: target, ..old(self)@ }),
    {
        self.pending_target = target;
    }

    /// The lines a new review comment is for, taken out.
    pub fn take_pending_review_target(&mut self) -> (r: Option<PullRequestReviewTarget>)
        ensures
            r == old(self)@.pending_target,
            final(self)@ == (ReviewView { pending_target: None, ..old(self)@ }),
    {
        let r = self.pending_target.take();
        r
    }

    /// Remembers which review comment is being edited (or none).
    pub fn set_editing_pull_request_review_comment_id(&mut self, id: Option<i64>)
        ensures
            final(self)@ == (ReviewView { editing_comment: id, ..old(self)@ }),
    {
        self.editing_comment = id;
    }

    /// The review comment being edited, taken out.
    pub fn take_editing_pull_request_review_comment_id(&mut self) -> (r: Option<i64>)
        ensures
            r == old(self)@.editing_comment,
            final(self)@ == (ReviewView { editing_comment: None, ..old(self)@ }),
    {
        let r = self.editing_comment;
        self.editing_comment = None;
        r
    }
}

/// A copy of an optional string.
fn copy_opt(o: &Option<String>) -> (r: Option<String>)
    ensures
        r == *o,
{
    match o {
        Some(s) => Some(s.clone()),
        None => None,
    }
}

/// A copy of a review comment.
fn copy_review_comment(c: &PullRequestReviewComment) -> (r: PullRequestReviewComment)
    ensures
        r == *c,
{
    PullRequestReviewComment {
        id: c.id,
        thread_id: copy_opt(&c.thread_id),
        resolved: c.resolved,
        anchored: c.anchored,
        path: c.path.clone(),
        line: c.line,
        side: c.side,
        body: c.body.clone(),
        author: c.author.clone(),
        created_at: copy_opt(&c.created_at),
    }
}

/// Whether comment `a` sorts no later than `b`.
fn comment_le_exec(a: &PullRequestReviewComment, b: &PullRequestReviewComment) -> (r: bool)
    ensures
        r == comment_le(*a, *b),
{
    let ap = text::chars_of(a.path.as_str());
    let bp = text::chars_of(b.path.as_str());
    if text::chars_lt(ap.as_slice(), bp.as_slice()) {
        return true;
    }
    if !text::chars_eq(ap.as_slice(), bp.as_slice()) {
        return false;
    }
    a.line < b.line || (a.line == b.line && a.id <= b.id)
}

/// The comments sorted by path, line and id, keeping the order of equal ones.
fn sort_comment_list(v: Vec<PullRequestReviewComment>) -> (r: Vec<PullRequestReviewComment>)
    ensures
        r@ == sort_comments(v@),
{
    let mut out: Vec<PullRequestReviewComment> = Vec::new();
    let mut i: usize = 0;
    while i < v.len()
        invariant
            i <= v.len(),
            out@ == sort_comments(v@.take(i as int)),
        decreases v.len() - i,
    {
        assert(v@.take(i + 1).drop_last() =~= v@.take(i as int));
        assert(v@.take(i + 1).last() == v@[i as int]);
        let x = copy_review_comment(&v[i]);
        let ghost s = out@;
        let mut p = out.len();
        assert(s.take(p as int) =~= s);
        assert(s.skip(p as int) =~= Seq::<PullRequestReviewComment>::empty());
        while p > 0 && !comment_le_exec(&out[p - 1], &x)
            invariant
                p <= out.len(),
                out@ == s,
                insert_comment(s, x) == insert_comment(s.take(p as int), x) + s.skip(p as int),
            decreases p,
        {
            let ghost tp = s.take(p as int);
            assert(tp.drop_last() =~= s.take(p - 1));
            assert(tp.last() == s[p - 1]);
            assert(insert_comment(s.take(p - 1), x).push(s[p - 1]) + s.skip(p as int) =~= insert_comment(
                s.take(p - 1),
                x,
            ) + s.skip(p - 1));
            p = p - 1;
        }
        proof {
            let tp = s.take(p as int);
            if p > 0 {
                assert(tp.last() == s[p - 1]);
            } else {
                assert(tp =~= Seq::<PullRequestReviewComment>::empty());
            }
            assert(insert_comment(tp, x) == tp.push(x));
        }
        out.insert(p, x);
        assert(out@ =~= s.take(p as int).push(x) + s.skip(p as int));
        i = i + 1;
    }
    assert(v@.take(v.len() as int) =~= v@);
    out
}

/// The ids in ascending order.
fn sort_id_list(v: Vec<i64>) -> (r: Vec<i64>)
    ensures
        r@ == sort_ids(v@),
{
    let mut out: Vec<i64> = Vec::new();
    let mut i: usize = 0;
    while i < v.len()
        invariant
            i <= v.len(),
            out@ == sort_ids(v@.take(i as int)),
        decreases v.len() - i,
    {
        assert(v@.take(i + 1).drop_last() =~= v@.take(i as int));
        assert(v@.take(i + 1).last() == v@[i as int]);
        let x = v[i];
        let ghost s = out@;
        let mut p = out.len();
        assert(s.take(p as int) =~= s);
        assert(s.skip(p as int) =~= Seq::<i64>::empty());
        while p > 0 && out[p - 1] > x
            invariant
                p <= out.len(),
                out@ == s,
                insert_id(s, x) == insert_id(s.take(p as int), x) + s.skip(p as int),
            decreases p,
        {
            let ghost tp = s.take(p as int);
            assert(tp.drop_last() =~= s.take(p - 1));
            assert(tp.last() == s[p - 1]);
            assert(insert_id(s.take(p - 1), x).push(s[p - 1]) + s.skip(p as int) =~= insert_id(s.take(p - 1), x)
                + s.skip(p - 1));
            p = p - 1;
        }
        proof {
            let tp = s.take(p as int);
            if p > 0 {
                assert(tp.last() == s[p - 1]);
            } else {
                assert(tp =~= Seq::<i64>::empty());
            }
            assert(insert_id(tp, x) == tp.push(x));
        }
        out.insert(p, x);
        assert(out@ =~= s.take(p as int).push(x) + s.skip(p as int));
        i = i + 1;
    }
    assert(v@.take(v.len() as int) =~= v@);
    out
}

impl ReviewState {
    /// Moves the highlight down: to the next file, or the next visible diff line.
    pub fn move_review_selection_down(&mut self)
        requires
            old(self).wf(),
        ensures
            final(self).wf(),
            final(self)@ == review_moved(old(self)@, true),
    {
        self.move_review_selection(true);
    }

    /// Moves the highlight up: to the previous file, or the previous visible diff line.
    pub fn move_review_selection_up(&mut self)
        requires
            old(self).wf(),
        ensures
            final(self).wf(),
            final(self)@ == review_moved(old(self)@, false),
    {
        self.move_review_selection(false);
    }

    fn move_review_selection(&mut self, down: bool)
        requires
            old(self).wf(),
        ensures
            final(self).wf(),
            final(self)@ == review_moved(old(self)@, down),
    {
        if self.focus == PullRequestReviewFocus::Files {
            let moves = if down { self.selected_file < self.files.len() && self.selected_file + 1 < self.files.len() } else {
                self.selected_file > 0
            };
            if moves {
                self.selected_file = if down { self.selected_file + 1 } else { self.selected_file - 1 };
                self.reset_pull_request_diff_view_for_file_selection();
            }
            self.sync_selected_pull_request_review_comment();
            return;
        }
        let (path, rows) = match self.selected_file_rows() {
            Some(pr) => pr,
            None => {
                self.sync_selected_pull_request_review_comment();
                return;
            },
        };
        if rows.len() == 0 {
            self.sync_selected_pull_request_review_comment();
            return;
        }
        let current = self.nearest_visible_pull_request_diff_line(path.as_str(), rows.as_slice(), self.diff_line);
        let to = if down {
            self.next_visible_pull_request_diff_line(path.as_str(), rows.as_slice(), current)
        } else {
            self.previous_visible_pull_request_diff_line(path.as_str(), rows.as_slice(), current)
        };
        self.diff_line = match to {
            Some(n) => n,
            None => current,
        };
        self.sync_selected_pull_request_review_comment();
    }

    /// The diff back at its start with visual mode off and not expanded.
    fn reset_pull_request_diff_view_for_file_selection(&mut self)
        requires
            old(self).wf(),
        ensures
            final(self).wf(),
            final(self)@ == diff_view_reset(old(self)@),
    {
        self.diff_line = 0;
        self.diff_scroll = 0;
        self.h_scroll = 0;
        self.h_max = 0;
        self.visual_mode = false;
        self.visual_anchor = None;
        self.expanded = false;
    }

    /// A click on the file at `index` (or the last file, past the end):
    /// the file list takes the focus and the file's diff is shown from the top.
    pub fn select_pull_request_file_row(&mut self, index: usize)
        requires
            old(self).wf(),
        ensures
            final(self).wf(),
            final(self)@ == synced(
                diff_view_reset(
                    ReviewView {
                        focus: PullRequestReviewFocus::Files,
                        visual_mode: false,
                        visual_anchor: None,
                        selected_file: if index < old(self)@.files.len() {
                            index
                        } else if old(self)@.files.len() > 0 {
                            (old(self)@.files.len() - 1) as usize
                        } else {
                            0
                        },
                        ..old(self)@
                    },
                ),
            ),
    {
        self.focus = PullRequestReviewFocus::Files;
        self.expanded = false;
        self.visual_mode = false;
        self.visual_anchor = None;
        let last = if self.files.len() > 0 { self.files.len() - 1 } else { 0 };
        self.selected_file = if index < self.files.len() { index } else { last };
        self.reset_pull_request_diff_view_for_file_selection();
        self.sync_selected_pull_request_review_comment();
    }

    /// A click on diff line `index` on `side`: the diff takes the focus and
    /// the line is highlighted, with comments going on `side`.
    pub fn select_pull_request_diff_row(&mut self, index: usize, side: ReviewSide)
        requires
            old(self).wf(),
        ensures
            final(self).wf(),
            final(self)@ == synced(
                ReviewView { focus: PullRequestReviewFocus::Diff, side, diff_line: index, ..old(self)@ },
            ),
    {
        self.focus = PullRequestReviewFocus::Diff;
        self.side = side;
        self.diff_line = index;
        self.sync_selected_pull_request_review_comment();
    }

    /// Jumps to the first file, or to the top of the diff.
    pub fn jump_review_top(&mut self)
        requires
            old(self).wf(),
        ensures
            final(self).wf(),
            final(self)@ == review_at_top(old(self)@),
    {
        if self.focus == PullRequestReviewFocus::Files {
            self.selected_file = 0;
            self.visual_mode = false;
            self.visual_anchor = None;
        }
        self.diff_line = 0;
        self.diff_scroll = 0;
        self.h_scroll = 0;
        self.h_max = 0;
        self.sync_selected_pull_request_review_comment();
    }

    /// Jumps to the last file, or to the last visible line of the diff with
    /// the diff scrolled to its end.
    pub fn jump_review_bottom(&mut self)
        requires
            old(self).wf(),
        ensures
            final(self).wf(),
            final(self)@ == review_at_bottom(old(self)@),
    {
        if self.focus == PullRequestReviewFocus::Files {
            if self.files.len() > 0 {
                self.selected_file = self.files.len() - 1;
                self.diff_line = 0;
                self.diff_scroll = 0;
                self.h_scroll = 0;
                self.h_max = 0;
                self.visual_mode = false;
                self.visual_anchor = None;
            }
            self.sync_selected_pull_request_review_comment();
            return;
        }
        match self.selected_file_rows() {
            Some((path, rows)) => {
                match self.last_visible_pull_request_diff_line(path.as_str(), rows.as_slice()) {
                    Some(n) => {
                        self.diff_line = n;
                    },
                    None => {},
                }
                self.diff_scroll = self.diff_max_scroll;
            },
            None => {},
        }
        self.sync_selected_pull_request_review_comment();
    }
}

/// The start of the hunk range found for a row is the nearest header above it.
proof fn lemma_range_start_is_header(rows: Seq<DiffRow>, c: int, start: int)
    requires
        pr_diff::is_hunk_start_for(rows, c, start),
    ensures
        header_above(pr_diff::row_views(rows), c) == start,
{
    let rv = pr_diff::row_views(rows);
    assert forall|k: int| start < k <= c implies #[trigger] rv[k].kind != DiffKind::Hunk by {
        assert(rv[k].kind == rows[k].kind);
    }
    assert(rv[start].kind == rows[start].kind);
    lemma_header_above_unique(rv, c, start);
}

/// A hidden row has a hunk header above it.
proof fn lemma_hidden_has_header(collapsed: Seq<(Seq<char>, usize)>, path: Seq<char>, rows: Seq<DiffRow>, c: int)
    requires
        0 <= c < rows.len(),
        row_hidden(collapsed, path, pr_diff::row_views(rows), c),
    ensures
        !(forall|k: int| 0 <= k <= c ==> #[trigger] rows[k].kind != DiffKind::Hunk),
{
    let rv = pr_diff::row_views(rows);
    let s = choose|s: usize|
        #![trigger collapsed.contains((path, s))]
        collapsed.contains((path, s)) && s < c && rv[s as int].kind == DiffKind::Hunk && forall|k: int|
            s < k <= c ==> #[trigger] rv[k].kind != DiffKind::Hunk;
    assert(rv[s as int].kind == rows[s as int].kind);
}

/// The comment the scan picked is the chosen comment.
proof fn lemma_chosen_comment(
    cs: Seq<PullRequestReviewComment>,
    t: (Seq<char>, int, ReviewSide, Option<int>, Option<ReviewSide>),
    sel: Option<i64>,
    by_sel: Option<usize>,
    by_min: Option<usize>,
)
    requires
        match by_sel {
            Some(b) => b < cs.len() && comment_on(cs[b as int], t) && sel == Some(cs[b as int].id)
                && forall|k: int| 0 <= k < b ==> !(comment_on(#[trigger] cs[k], t) && sel == Some(cs[k].id)),
            None => forall|k: int| 0 <= k < cs.len() ==> !(comment_on(#[trigger] cs[k], t) && sel == Some(cs[k].id)),
        },
        match by_min {
            Some(b) => b < cs.len() && comment_on(cs[b as int], t) && (forall|k: int|
                0 <= k < cs.len() && comment_on(#[trigger] cs[k], t) ==> cs[b as int].id <= cs[k].id)
                && forall|k: int| 0 <= k < b ==> !(comment_on(#[trigger] cs[k], t) && cs[k].id == cs[b as int].id),
            None => forall|k: int| 0 <= k < cs.len() ==> !comment_on(#[trigger] cs[k], t),
        },
    ensures
        chosen_comment(cs, t, sel) == match by_sel {
            Some(b) => Some(b as int),
            None => match by_min {
                Some(b) => Some(b as int),
                None => None::<int>,
            },
        },
{
    if by_sel is Some {
        lemma_chosen_by_id(cs, t, sel, by_sel.unwrap() as int);
    } else if by_min is Some {
        lemma_chosen_by_min(cs, t, sel, by_min.unwrap() as int);
    } else {
        assert forall|i: int| !#[trigger] picks_selected(cs, t, sel, i) by {
            if 0 <= i < cs.len() {
                assert(!comment_on(cs[i], t));
            }
        }
        assert forall|i: int| !#[trigger] picks_smallest(cs, t, i) by {
            if 0 <= i < cs.len() {
                assert(!comment_on(cs[i], t));
            }
        }
    }
}

proof fn lemma_chosen_by_id(
    cs: Seq<PullRequestReviewComment>,
    t: (Seq<char>, int, ReviewSide, Option<int>, Option<ReviewSide>),
    sel: Option<i64>,
    b: int,
)
    requires
        picks_selected(cs, t, sel, b),
    ensures
        chosen_comment(cs, t, sel) == Some(b),
{
    let ch = choose|i: int| #[trigger] picks_selected(cs, t, sel, i);
    assert(picks_selected(cs, t, sel, ch));
    if ch < b {
        assert(!(comment_on(cs[ch], t) && sel == Some(cs[ch].id)));
    }
    if b < ch {
        assert(!(comment_on(cs[b], t) && sel == Some(cs[b].id)));
    }
}

proof fn lemma_chosen_by_min(
    cs: Seq<PullRequestReviewComment>,
    t: (Seq<char>, int, ReviewSide, Option<int>, Option<ReviewSide>),
    sel: Option<i64>,
    b: int,
)
    requires
        forall|k: int| 0 <= k < cs.len() ==> !(comment_on(#[trigger] cs[k], t) && sel == Some(cs[k].id)),
        picks_smallest(cs, t, b),
    ensures
        chosen_comment(cs, t, sel) == Some(b),
{
    assert forall|i: int| !#[trigger] picks_selected(cs, t, sel, i) by {
        if 0 <= i < cs.len() {
            assert(!(comment_on(cs[i], t) && sel == Some(cs[i].id)));
        }
    }
    let ch = choose|i: int| #[trigger] picks_smallest(cs, t, i);
    assert(picks_smallest(cs, t, ch));
    assert(cs[b].id <= cs[ch].id);
    assert(cs[ch].id <= cs[b].id);
    if ch < b {
        assert(!(comment_on(cs[ch], t) && cs[ch].id == cs[b].id));
    }
    if b < ch {
        assert(!(comment_on(cs[b], t) && cs[b].id == cs[ch].id));
    }
}

/// The nearest header at or above a row is the only one.
proof fn lemma_header_above_unique(rows: Seq<DiffRowView>, r: int, h: int)
    requires
        0 <= h <= r,
        rows[h].kind == DiffKind::Hunk,
        forall|k: int| h < k <= r ==> #[trigger] rows[k].kind != DiffKind::Hunk,
    ensures
        header_above(rows, r) == h,
{
    let c = header_above(rows, r);
    if c < h {
        assert(rows[h].kind != DiffKind::Hunk);
    }
    if h < c {
        assert(rows[c].kind != DiffKind::Hunk);
    }
}

// ---------------------------------------------------------------------------
// Laws
// ---------------------------------------------------------------------------

/// The comment order is total.
pub proof fn lemma_comment_le_total(a: PullRequestReviewComment, b: PullRequestReviewComment)
    ensures
        comment_le(a, b) || comment_le(b, a),
{
    if a.path@ != b.path@ {
        text::lemma_text_lt_total(a.path@, b.path@);
    }
}

/// The comment order is transitive.
pub proof fn lemma_comment_le_transitive(a: PullRequestReviewComment, b: PullRequestReviewComment, c: PullRequestReviewComment)
    requires
        comment_le(a, b),
        comment_le(b, c),
    ensures
        comment_le(a, c),
{
    if text::text_lt(a.path@, b.path@) && text::text_lt(b.path@, c.path@) {
        text::lemma_text_lt_transitive(a.path@, b.path@, c.path@);
    }
}

/// In path, line and id order.
pub open spec fn comments_sorted(s: Seq<PullRequestReviewComment>) -> bool {
    forall|i: int, j: int| 0 <= i < j < s.len() ==> comment_le(#[trigger] s[i], #[trigger] s[j])
}

proof fn lemma_insert_comment_keeps(s: Seq<PullRequestReviewComment>, x: PullRequestReviewComment)
    requires
        comments_sorted(s),
    ensures
        comments_sorted(insert_comment(s, x)),
        insert_comment(s, x).to_multiset() == s.to_multiset().insert(x),
        insert_comment(s, x).len() == s.len() + 1,
        forall|y: PullRequestReviewComment| #[trigger] insert_comment(s, x).contains(y) ==> s.contains(y) || y == x,
    decreases s.len(),
{
    broadcast use vstd::seq_lib::group_to_multiset_ensures, vstd::multiset::group_multiset_properties;

    if s.len() == 0 {
        assert(s.to_multiset().len() == 0);
        assert(s.to_multiset() =~= vstd::multiset::Multiset::<PullRequestReviewComment>::empty());
        assert(seq![x] =~= Seq::<PullRequestReviewComment>::empty().push(x));
        assert forall|y: PullRequestReviewComment| #[trigger] insert_comment(s, x).contains(y) implies s.contains(y) || y == x by {
            assert(insert_comment(s, x)[0] == x);
        }
    } else if comment_le(s.last(), x) {
        let r = s.push(x);
        assert forall|i: int, j: int| 0 <= i < j < r.len() implies comment_le(#[trigger] r[i], #[trigger] r[j]) by {
            if j == s.len() {
                if i < s.len() - 1 {
                    assert(comment_le(s[i], s[s.len() - 1]));
                    lemma_comment_le_transitive(s[i], s.last(), x);
                }
            } else {
                assert(r[i] == s[i] && r[j] == s[j]);
            }
        }
        assert forall|y: PullRequestReviewComment| #[trigger] r.contains(y) implies s.contains(y) || y == x by {
            let k = choose|k: int| 0 <= k < r.len() && r[k] == y;
            if k < s.len() {
                assert(s[k] == y);
            }
        }
    } else {
        let init = s.drop_last();
        assert(comments_sorted(init)) by {
            assert forall|i: int, j: int| 0 <= i < j < init.len() implies comment_le(#[trigger] init[i], #[trigger] init[j]) by {
                assert(init[i] == s[i] && init[j] == s[j]);
            }
        }
        lemma_insert_comment_keeps(init, x);
        let m = insert_comment(init, x);
        let r = m.push(s.last());
        lemma_comment_le_total(s.last(), x);
        assert forall|i: int, j: int| 0 <= i < j < r.len() implies comment_le(#[trigger] r[i], #[trigger] r[j]) by {
            if j == m.len() {
                assert(r[i] == m[i]);
                assert(m.contains(m[i]));
                if m[i] == x {
                } else {
                    let k = choose|k: int| 0 <= k < init.len() && init[k] == m[i];
                    assert(s[k] == m[i]);
                    assert(comment_le(s[k], s[s.len() - 1]));
                }
            } else {
                assert(r[i] == m[i] && r[j] == m[j]);
            }
        }
        assert(s =~= init.push(s.last()));
        assert(r.to_multiset() == m.to_multiset().insert(s.last()));
        assert(init.push(s.last()).to_multiset() == init.to_multiset().insert(s.last()));
        assert(r.to_multiset() =~= s.to_multiset().insert(x));
        assert forall|y: PullRequestReviewComment| #[trigger] r.contains(y) implies s.contains(y) || y == x by {
            let k = choose|k: int| 0 <= k < r.len() && r[k] == y;
            if k < m.len() {
                assert(m[k] == y);
                assert(m.contains(y));
                if y != x {
                    let q = choose|q: int| 0 <= q < init.len() && init[q] == y;
                    assert(s[q] == y);
                }
            } else {
                assert(s[s.len() - 1] == y);
            }
        }
    }
}

/// Loading review comments sorts them by path, line and id, losing and
/// adding none.
pub proof fn lemma_sort_comments_sorted_permutation(v: Seq<PullRequestReviewComment>)
    ensures
        comments_sorted(sort_comments(v)),
        sort_comments(v).to_multiset() == v.to_multiset(),
    decreases v.len(),
{
    broadcast use vstd::seq_lib::group_to_multiset_ensures, vstd::multiset::group_multiset_properties;

    if v.len() == 0 {
        assert(v =~= Seq::<PullRequestReviewComment>::empty());
        assert(sort_comments(v) =~= v);
    } else {
        lemma_sort_comments_sorted_permutation(v.drop_last());
        lemma_insert_comment_keeps(sort_comments(v.drop_last()), v.last());
        assert(v =~= v.drop_last().push(v.last()));
    }
}

/// Collapsing the hunk at a line and then pressing the key again without
/// moving restores the collapsed hunks: toggling twice is no change.
pub proof fn lemma_toggle_hunk_twice_restores(
    a: Seq<(Seq<char>, usize)>,
    b: Seq<(Seq<char>, usize)>,
    c: Seq<(Seq<char>, usize)>,
    key: (Seq<char>, usize),
)
    requires
        forall|x: (Seq<char>, usize)| #[trigger] b.contains(x) <==> if x == key { !a.contains(key) } else { a.contains(x) },
        forall|x: (Seq<char>, usize)| #[trigger] c.contains(x) <==> if x == key { !b.contains(key) } else { b.contains(x) },
    ensures
        forall|x: (Seq<char>, usize)| #[trigger] c.contains(x) <==> a.contains(x),
{
    assert forall|x: (Seq<char>, usize)| #[trigger] c.contains(x) <==> a.contains(x) by {
        assert(b.contains(key) <==> !a.contains(key));
        assert(b.contains(x) <==> if x == key { !a.contains(key) } else { a.contains(x) });
    }
}

} // verus!
