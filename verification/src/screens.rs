//! The screens of the client together, and the commands that act on the
//! one in view: moving the highlight of the list or pane on screen.
use vstd::prelude::*;

use crate::app::{Focus, View};
use crate::issue_detail::{next_comment_view, prev_comment_view, scrolled_down, scrolled_up, IssueDetailState, IssueDetailView};
use crate::app::PullRequestReviewFocus;
use crate::input::KeyCommand;
use crate::mouse::ClickCommand;
use crate::issue_list::{list_command, list_key_applied, IssueList};
use crate::linked::{LinkedPicker, LinkedPickerView};
use crate::picker::{cursor_moved, filter_query, filtered_spec, flips, key, toggled, OptionPicker};
use crate::repo_list::RepoList;
use crate::review::{
    comment_cycled, diff_view_reset, expanded_toggled, focus_set, h_scrolled, hunk_toggled, review_at_bottom, review_at_top,
    review_moved, synced, visual_toggled, ReviewState, ReviewView,
};
use vstd::view::View as _;

verus! {

/// The state of every screen: the repository picker, the remote chooser,
/// the issue list, an opened issue, the pull request review, the comment
/// preset picker, the label and assignee pickers and the linked-item picker.
pub struct Screens {
    pub repos: RepoList,
    /// The highlighted remote of the remote chooser, and how many it lists.
    pub remote_selected: usize,
    pub remote_count: usize,
    pub issues: IssueList,
    pub detail: IssueDetailState,
    pub review: ReviewState,
    /// The highlighted entry of the comment preset picker, and how many it lists.
    pub preset_selected: usize,
    pub preset_count: usize,
    pub labels: OptionPicker,
    pub assignees: OptionPicker,
    pub linked: LinkedPicker,
}

/// One step of a plain highlight: down to the next entry while there is
/// one, up to the previous one while not at the top.
pub open spec fn stepped(selected: usize, count: int, down: bool) -> usize {
    if down {
        if selected + 1 < count { (selected + 1) as usize } else { selected }
    } else if selected > 0 {
        (selected - 1) as usize
    } else {
        0
    }
}

/// The repository picker after one step of its highlight; nothing else of it changes.
pub open spec fn repos_moved(a: RepoList, b: RepoList, down: bool) -> bool {
    &&& b.selected_spec() == stepped(a.selected_spec(), a.listed().len() as int, down)
    &&& b.repos_view() == a.repos_view()
    &&& b.query_view() == a.query_view()
    &&& b.search_mode_spec() == a.search_mode_spec()
    &&& b.listed() == a.listed()
    &&& b.status_view() == a.status_view()
}

/// The issue list after one step: with the preview focused the preview
/// scrolls one line (within its limit); otherwise the highlight steps and,
/// when it moved, the preview goes back to its top. Nothing else changes.
pub open spec fn issues_moved(a: IssueList, b: IssueList, preview: bool, down: bool) -> bool {
    &&& b.wf()
    &&& preview ==> b.selected_spec() == a.selected_spec() && b.preview_scroll_spec() == if down {
        scrolled_down(a.preview_scroll_spec(), a.preview_max_spec())
    } else {
        scrolled_up(a.preview_scroll_spec())
    }
    &&& !preview ==> b.selected_spec() == stepped(a.selected_spec(), a.listed().len() as int, down)
        && b.preview_scroll_spec() == if b.selected_spec() != a.selected_spec() { 0 } else { a.preview_scroll_spec() }
    &&& b.preview_max_spec() == a.preview_max_spec()
    &&& b.issues_view() == a.issues_view()
    &&& b.filter_spec() == a.filter_spec()
    &&& b.mode_spec() == a.mode_spec()
    &&& b.assignee_spec() == a.assignee_spec()
    &&& b.query_view() == a.query_view()
    &&& b.search_mode_spec() == a.search_mode_spec()
    &&& b.listed() == a.listed()
    &&& b.status_view() == a.status_view()
}

/// An opened issue after one step: in the full comments view the next or
/// previous comment; otherwise the body, or the recent comments when they
/// are focused, scroll one line.
pub open spec fn detail_moved(a: IssueDetailView, view: View, recent: bool, down: bool, offsets: Seq<u16>) -> IssueDetailView {
    if view == View::IssueComments {
        if down { next_comment_view(a, offsets) } else { prev_comment_view(a, offsets) }
    } else if recent {
        IssueDetailView {
            recent_scroll: if down { scrolled_down(a.recent_scroll, a.recent_max) } else { scrolled_up(a.recent_scroll) },
            ..a
        }
    } else {
        IssueDetailView {
            body_scroll: if down { scrolled_down(a.body_scroll, a.body_max) } else { scrolled_up(a.body_scroll) },
            ..a
        }
    }
}

/// A label or assignee picker after one step over the options still listed.
pub open spec fn picker_moved(a: OptionPicker, b: OptionPicker, down: bool) -> bool {
    &&& b.cursor_spec() == cursor_moved(filtered_spec(a.options_view(), filter_query(a.query_view())), a.cursor_spec(), down)
    &&& b.options_view() == a.options_view()
    &&& b.selection() == a.selection()
    &&& b.query_view() == a.query_view()
}

/// A plain highlight after a jump: the first entry, or the last one when
/// there is any.
pub open spec fn jumped(selected: usize, count: int, to_top: bool) -> usize {
    if to_top {
        0
    } else if count > 0 {
        (count - 1) as usize
    } else {
        selected
    }
}

/// The repository picker after a jump of its highlight.
pub open spec fn repos_jumped(a: RepoList, b: RepoList, to_top: bool) -> bool {
    &&& b.selected_spec() == jumped(a.selected_spec(), a.listed().len() as int, to_top)
    &&& b.repos_view() == a.repos_view()
    &&& b.query_view() == a.query_view()
    &&& b.search_mode_spec() == a.search_mode_spec()
    &&& b.listed() == a.listed()
    &&& b.status_view() == a.status_view()
}

/// The issue list after a jump: with the preview focused the preview goes
/// to its top or end; otherwise the highlight goes to the first or last
/// listed item (staying when nothing is listed) and the preview to its top
/// when the highlight moved or went to the top.
pub open spec fn issues_jumped(a: IssueList, b: IssueList, preview: bool, to_top: bool) -> bool {
    &&& b.wf()
    &&& preview ==> b.selected_spec() == a.selected_spec() && b.preview_scroll_spec() == if to_top {
        0
    } else {
        a.preview_max_spec()
    }
    &&& !preview && to_top ==> b.selected_spec() == 0 && b.preview_scroll_spec() == 0
    &&& !preview && !to_top && a.listed().len() > 0 ==> b.selected_spec() == a.listed().len() - 1
        && b.preview_scroll_spec() == 0
    &&& !preview && !to_top && a.listed().len() == 0 ==> b.selected_spec() == a.selected_spec()
        && b.preview_scroll_spec() == a.preview_scroll_spec()
    &&& b.preview_max_spec() == a.preview_max_spec()
    &&& b.issues_view() == a.issues_view()
    &&& b.filter_spec() == a.filter_spec()
    &&& b.mode_spec() == a.mode_spec()
    &&& b.assignee_spec() == a.assignee_spec()
    &&& b.query_view() == a.query_view()
    &&& b.search_mode_spec() == a.search_mode_spec()
    &&& b.listed() == a.listed()
    &&& b.status_view() == a.status_view()
}

/// An opened issue after a jump: in the full comments view the first
/// comment (scrolled to the top) or the last one (scrolled to the end);
/// otherwise the body, or the recent comments when focused, to the top or
/// the end.
pub open spec fn detail_jumped(a: IssueDetailView, view: View, recent: bool, to_top: bool) -> IssueDetailView {
    if view == View::IssueComments {
        if to_top {
            IssueDetailView { selected: 0, comments_scroll: 0, ..a }
        } else {
            IssueDetailView {
                selected: if a.comments.len() > 0 { (a.comments.len() - 1) as usize } else { a.selected },
                comments_scroll: a.comments_max,
                ..a
            }
        }
    } else if recent {
        IssueDetailView { recent_scroll: if to_top { 0 } else { a.recent_max }, ..a }
    } else {
        IssueDetailView { body_scroll: if to_top { 0 } else { a.body_max }, ..a }
    }
}

/// A label or assignee picker after a jump to the first or last option
/// still listed (the highlight stays when none is listed).
pub open spec fn picker_jumped(a: OptionPicker, b: OptionPicker, to_top: bool) -> bool {
    let listed = filtered_spec(a.options_view(), filter_query(a.query_view()));
    &&& b.cursor_spec() == if listed.len() == 0 {
        a.cursor_spec()
    } else if to_top {
        listed[0]
    } else {
        listed[listed.len() - 1]
    }
    &&& b.options_view() == a.options_view()
    &&& b.selection() == a.selection()
    &&& b.query_view() == a.query_view()
}

/// The screens after the highlight of the screen in `view` moved one step
/// down (`down`) or up, as `move_selection` does it; no other screen
/// changes.
pub open spec fn screens_moved(a: Screens, b: Screens, view: View, focus: Focus, down: bool, offsets: Seq<u16>) -> bool {
    &&& view == View::RepoPicker ==> repos_moved(a.repos, b.repos, down) && b == (Screens { repos: b.repos, ..a })
    &&& view == View::RemoteChooser ==> b == (Screens {
        remote_selected: stepped(a.remote_selected, a.remote_count as int, down),
        ..a
    })
    &&& view == View::Issues ==> issues_moved(a.issues, b.issues, focus == Focus::IssuesPreview, down)
        && b == (Screens { issues: b.issues, ..a })
    &&& (view == View::IssueDetail || view == View::IssueComments) ==> b.detail@ == detail_moved(
        a.detail@,
        view,
        focus == Focus::IssueRecentComments,
        down,
        offsets,
    ) && b == (Screens { detail: b.detail, ..a })
    &&& view == View::PullRequestFiles ==> b.review@ == review_moved(a.review@, down)
        && b == (Screens { review: b.review, ..a })
    &&& view == View::CommentPresetPicker ==> b == (Screens {
        preset_selected: stepped(a.preset_selected, a.preset_count as int, down),
        ..a
    })
    &&& view == View::LabelPicker ==> picker_moved(a.labels, b.labels, down) && b == (Screens { labels: b.labels, ..a })
    &&& view == View::AssigneePicker ==> picker_moved(a.assignees, b.assignees, down)
        && b == (Screens { assignees: b.assignees, ..a })
    &&& view == View::LinkedPicker ==> b.linked@ == (LinkedPickerView {
        selected: stepped(a.linked@.selected, a.linked@.options.len() as int, down),
        ..a.linked@
    }) && b == (Screens { linked: b.linked, ..a })
    &&& (view == View::CommentPresetName || view == View::CommentEditor) ==> b == a
}

/// The screens after the highlight of the screen in `view` jumped to its
/// top (`to_top`) or bottom, as `jump_selection` does it; no other screen
/// changes.
pub open spec fn screens_jumped(a: Screens, b: Screens, view: View, focus: Focus, to_top: bool) -> bool {
    &&& view == View::RepoPicker ==> repos_jumped(a.repos, b.repos, to_top) && b == (Screens { repos: b.repos, ..a })
    &&& view == View::RemoteChooser ==> b == (Screens {
        remote_selected: jumped(a.remote_selected, a.remote_count as int, to_top),
        ..a
    })
    &&& view == View::Issues ==> issues_jumped(a.issues, b.issues, focus == Focus::IssuesPreview, to_top)
        && b == (Screens { issues: b.issues, ..a })
    &&& (view == View::IssueDetail || view == View::IssueComments) ==> b.detail@ == detail_jumped(
        a.detail@,
        view,
        focus == Focus::IssueRecentComments,
        to_top,
    ) && b == (Screens { detail: b.detail, ..a })
    &&& view == View::PullRequestFiles ==> b.review@ == (if to_top {
        review_at_top(a.review@)
    } else {
        review_at_bottom(a.review@)
    }) && b == (Screens { review: b.review, ..a })
    &&& view == View::CommentPresetPicker ==> b == (Screens {
        preset_selected: jumped(a.preset_selected, a.preset_count as int, to_top),
        ..a
    })
    &&& view == View::LabelPicker ==> picker_jumped(a.labels, b.labels, to_top) && b == (Screens { labels: b.labels, ..a })
    &&& view == View::AssigneePicker ==> picker_jumped(a.assignees, b.assignees, to_top)
        && b == (Screens { assignees: b.assignees, ..a })
    &&& view == View::LinkedPicker ==> b.linked@ == (LinkedPickerView {
        selected: jumped(a.linked@.selected, a.linked@.options.len() as int, to_top),
        ..a.linked@
    }) && b == (Screens { linked: b.linked, ..a })
    &&& (view == View::CommentPresetName || view == View::CommentEditor) ==> b == a
}

/// A clicked row, clamped to the `count` rows listed (the top when none is).
pub open spec fn clamped(index: usize, count: int) -> usize {
    if index < count {
        index
    } else if count > 0 {
        (count - 1) as usize
    } else {
        0
    }
}

/// A label or assignee picker after a click on its `index`-th listed
/// option: a click below the list changes nothing; otherwise the option is
/// highlighted and chosen or unchosen.
pub open spec fn picker_clicked(a: OptionPicker, b: OptionPicker, index: usize) -> bool {
    let listed = filtered_spec(a.options_view(), filter_query(a.query_view()));
    &&& b.wf()
    &&& index >= listed.len() ==> b == a
    &&& index < listed.len() ==> b.cursor_spec() == listed[index as int] && flips(
        a.selection(),
        b.selection(),
        key(a.options_view()[listed[index as int] as int]),
    ) && b.options_view() == a.options_view() && b.query_view() == a.query_view()
}

/// The screens after a click that highlights a row, as `apply_click_selection`
/// does it; no other screen changes.
pub open spec fn screens_clicked(a: Screens, b: Screens, command: ClickCommand) -> bool {
    match command {
        ClickCommand::PickRepoRow(i) => b == (Screens { repos: b.repos, ..a }) && b.repos.selected_spec() == clamped(
            i,
            a.repos.listed().len() as int,
        ) && b.repos.repos_view() == a.repos.repos_view() && b.repos.query_view() == a.repos.query_view()
            && b.repos.search_mode_spec() == a.repos.search_mode_spec() && b.repos.listed() == a.repos.listed()
            && b.repos.status_view() == a.repos.status_view(),
        ClickCommand::PickRemoteRow(i) => b == (Screens { remote_selected: clamped(i, a.remote_count as int), ..a }),
        ClickCommand::PickIssueRow(i) => b == (Screens { issues: b.issues, ..a }) && b.issues.wf()
            && b.issues.selected_spec() == clamped(i, a.issues.listed().len() as int) && b.issues.preview_scroll_spec() == 0
            && b.issues.preview_max_spec() == a.issues.preview_max_spec() && b.issues.issues_view()
            == a.issues.issues_view() && b.issues.filter_spec() == a.issues.filter_spec() && b.issues.mode_spec()
            == a.issues.mode_spec() && b.issues.assignee_spec() == a.issues.assignee_spec() && b.issues.query_view()
            == a.issues.query_view() && b.issues.search_mode_spec() == a.issues.search_mode_spec()
            && b.issues.listed() == a.issues.listed() && b.issues.status_view() == a.issues.status_view(),
        ClickCommand::SelectComment(i) => b == (Screens { detail: b.detail, ..a }) && b.detail@ == (IssueDetailView {
            selected: clamped(i, a.detail@.comments.len() as int),
            ..a.detail@
        }),
        ClickCommand::SelectFileRow(i) => b == (Screens { review: b.review, ..a }) && b.review@ == synced(
            diff_view_reset(
                ReviewView {
                    focus: PullRequestReviewFocus::Files,
                    visual_mode: false,
                    visual_anchor: None,
                    selected_file: clamped(i, a.review@.files.len() as int),
                    ..a.review@
                },
            ),
        ),
        ClickCommand::SelectDiffRow(i, side) => b == (Screens { review: b.review, ..a }) && b.review@ == synced(
            ReviewView { focus: PullRequestReviewFocus::Diff, side, diff_line: i, ..a.review@ },
        ),
        ClickCommand::ClickLabelOption(i) => b == (Screens { labels: b.labels, ..a }) && picker_clicked(
            a.labels,
            b.labels,
            i,
        ),
        ClickCommand::ClickAssigneeOption(i) => b == (Screens { assignees: b.assignees, ..a }) && picker_clicked(
            a.assignees,
            b.assignees,
            i,
        ),
        ClickCommand::PickPreset(i) => b == (Screens { preset_selected: clamped(i, a.preset_count as int), ..a }),
        ClickCommand::PickLinkedOption(i) => b == (Screens { linked: b.linked, ..a }) && b.linked@ == (LinkedPickerView {
            selected: clamped(i, a.linked@.options.len() as int),
            ..a.linked@
        }),
        _ => b == a,
    }
}

/// The click commands that highlight a row of a screen.
pub open spec fn selects_row(command: ClickCommand) -> bool {
    match command {
        ClickCommand::PickRepoRow(_) | ClickCommand::PickRemoteRow(_) | ClickCommand::PickIssueRow(_)
        | ClickCommand::SelectComment(_) | ClickCommand::SelectFileRow(_) | ClickCommand::SelectDiffRow(_, _)
        | ClickCommand::ClickLabelOption(_) | ClickCommand::ClickAssigneeOption(_) | ClickCommand::PickPreset(_)
        | ClickCommand::PickLinkedOption(_) => true,
        _ => false,
    }
}

/// The keymap commands that act on the review.
pub open spec fn review_command(c: KeyCommand) -> bool {
    match c {
        KeyCommand::FocusReviewFiles | KeyCommand::FocusReviewDiff | KeyCommand::ToggleHunk
        | KeyCommand::CycleReviewComment(_) | KeyCommand::SetReviewSide(_) | KeyCommand::ToggleVisualMode
        | KeyCommand::ScrollDiffHorizontal(_) | KeyCommand::ResetDiffHorizontalScroll
        | KeyCommand::ToggleDiffExpanded => true,
        _ => false,
    }
}

/// What a review command does (`b` from `a`); `in_review_view`: the review
/// is the view on screen.
pub open spec fn review_key_applied(a: ReviewView, b: ReviewView, in_review_view: bool, c: KeyCommand) -> bool {
    match c {
        KeyCommand::FocusReviewFiles => b == focus_set(a, PullRequestReviewFocus::Files),
        KeyCommand::FocusReviewDiff => b == focus_set(a, PullRequestReviewFocus::Diff),
        KeyCommand::ToggleHunk => hunk_toggled(a, b),
        KeyCommand::CycleReviewComment(forward) => b == comment_cycled(a, forward),
        KeyCommand::SetReviewSide(side) => b == synced(ReviewView { side, ..a }),
        KeyCommand::ToggleVisualMode => b == visual_toggled(a),
        KeyCommand::ScrollDiffHorizontal(delta) => b == h_scrolled(a, in_review_view, delta),
        KeyCommand::ResetDiffHorizontalScroll => b == (ReviewView { h_scroll: 0, ..a }),
        KeyCommand::ToggleDiffExpanded => b == expanded_toggled(a, in_review_view),
        _ => b == a,
    }
}

/// The keymap commands that choose or unchoose a picker option.
pub open spec fn picker_command(c: KeyCommand) -> bool {
    c == KeyCommand::ToggleLabel || c == KeyCommand::SubmitLabels || c == KeyCommand::ToggleAssignee
        || c == KeyCommand::SubmitAssignees
}

impl Screens {
    /// The issue list, the review and the two pickers keep their invariants.
    pub open spec fn wf(&self) -> bool {
        &&& self.issues.wf()
        &&& self.review.wf()
        &&& self.labels.wf()
        &&& self.assignees.wf()
    }

    /// Moves the highlight of the screen in `view` one step down or up:
    /// the repository picker's, the remote chooser's, the issue list's (or
    /// its preview when focused), an opened issue's body or recent comments
    /// (by `focus`) or its next or previous comment in the full comments
    /// view (`offsets` are the lines on which the comments start), the
    /// review's, the preset picker's, a label or assignee picker's or the
    /// linked-item picker's. The editors move nothing, and no other screen
    /// changes.
    pub fn move_selection(&mut self, view: View, focus: Focus, down: bool, offsets: &[u16])
        requires
            old(self).wf(),
            view == View::IssueComments && !down ==> old(self).detail@.selected <= offsets.len(),
        ensures
            final(self).wf(),
            screens_moved(*old(self), *final(self), view, focus, down, offsets@),
    {
        match view {
            View::RepoPicker => {
                if down {
                    self.repos.move_repo_selection_down();
                } else {
                    self.repos.move_repo_selection_up();
                }
            },
            View::RemoteChooser => {
                self.remote_selected = step_index(self.remote_selected, self.remote_count, down);
            },
            View::Issues => {
                let preview = focus == Focus::IssuesPreview;
                if down {
                    self.issues.move_issue_selection_down(preview);
                } else {
                    self.issues.move_issue_selection_up(preview);
                }
            },
            View::IssueDetail => {
                let recent = focus == Focus::IssueRecentComments;
                if down {
                    self.detail.scroll_detail_down(recent);
                } else {
                    self.detail.scroll_detail_up(recent);
                }
            },
            View::IssueComments => {
                if down {
                    self.detail.jump_next_comment(offsets);
                } else {
                    self.detail.jump_prev_comment(offsets);
                }
            },
            View::PullRequestFiles => {
                if down {
                    self.review.move_review_selection_down();
                } else {
                    self.review.move_review_selection_up();
                }
            },
            View::CommentPresetPicker => {
                self.preset_selected = step_index(self.preset_selected, self.preset_count, down);
            },
            View::LabelPicker => {
                self.labels.move_cursor(down);
            },
            View::AssigneePicker => {
                self.assignees.move_cursor(down);
            },
            View::LinkedPicker => {
                self.linked.move_linked_picker_selection(down);
            },
            _ => {},
        }
    }
    /// Jumps the highlight of the screen in `view` to its top (`to_top`)
    /// or bottom, in the same screens and panes as `move_selection`; no
    /// other screen changes.
    pub fn jump_selection(&mut self, view: View, focus: Focus, to_top: bool)
        requires
            old(self).wf(),
        ensures
            final(self).wf(),
            screens_jumped(*old(self), *final(self), view, focus, to_top),
    {
        match view {
            View::RepoPicker => {
                if to_top {
                    self.repos.jump_repo_top();
                } else {
                    self.repos.jump_repo_bottom();
                }
            },
            View::RemoteChooser => {
                self.remote_selected = jump_index(self.remote_selected, self.remote_count, to_top);
            },
            View::Issues => {
                let preview = focus == Focus::IssuesPreview;
                if to_top {
                    self.issues.jump_issue_top(preview);
                } else {
                    self.issues.jump_issue_bottom(preview);
                }
            },
            View::IssueDetail => {
                self.detail.jump_detail(focus == Focus::IssueRecentComments, to_top);
            },
            View::IssueComments => {
                if to_top {
                    self.detail.jump_comments_top();
                } else {
                    self.detail.jump_comments_bottom();
                }
            },
            View::PullRequestFiles => {
                if to_top {
                    self.review.jump_review_top();
                } else {
                    self.review.jump_review_bottom();
                }
            },
            View::CommentPresetPicker => {
                self.preset_selected = jump_index(self.preset_selected, self.preset_count, to_top);
            },
            View::LabelPicker => {
                self.labels.jump_cursor(to_top);
            },
            View::AssigneePicker => {
                self.assignees.jump_cursor(to_top);
            },
            View::LinkedPicker => {
                self.linked.jump_linked_picker_selection(to_top);
            },
            _ => {},
        }
    }
    /// Carries out a keymap command that moves a highlight on the screen in
    /// `view`: `MoveDown` and `MoveUp` as `move_selection`, `JumpTop` and
    /// `JumpBottom` as `jump_selection`. Whether `command` is one of them;
    /// any other command changes nothing here.
    pub fn apply_navigation(&mut self, view: View, focus: Focus, command: KeyCommand, offsets: &[u16]) -> (r: bool)
        requires
            old(self).wf(),
            view == View::IssueComments && command == KeyCommand::MoveUp ==> old(self).detail@.selected
                <= offsets.len(),
        ensures
            final(self).wf(),
            r == (command == KeyCommand::MoveDown || command == KeyCommand::MoveUp || command == KeyCommand::JumpTop
                || command == KeyCommand::JumpBottom),
            command == KeyCommand::MoveDown ==> screens_moved(*old(self), *final(self), view, focus, true, offsets@),
            command == KeyCommand::MoveUp ==> screens_moved(*old(self), *final(self), view, focus, false, offsets@),
            command == KeyCommand::JumpTop ==> screens_jumped(*old(self), *final(self), view, focus, true),
            command == KeyCommand::JumpBottom ==> screens_jumped(*old(self), *final(self), view, focus, false),
            !r ==> *final(self) == *old(self),
    {
        match command {
            KeyCommand::MoveDown => {
                self.move_selection(view, focus, true, offsets);
                true
            },
            KeyCommand::MoveUp => {
                self.move_selection(view, focus, false, offsets);
                true
            },
            KeyCommand::JumpTop => {
                self.jump_selection(view, focus, true);
                true
            },
            KeyCommand::JumpBottom => {
                self.jump_selection(view, focus, false);
                true
            },
            _ => false,
        }
    }
    /// Carries out a keymap command that changes a screen's state, in
    /// `view`: the issue list's filters, mode and search
    /// (`IssueList::apply_key_command`); the review's focus, hunks, comment
    /// cycling, side, visual mode, sideways scroll and expanded diff; and
    /// choosing or unchoosing the highlighted label or assignee (also
    /// before the labels or assignees are submitted). Whether `command` is
    /// one of them; any other command changes nothing here.
    pub fn apply_key_command(&mut self, view: View, command: KeyCommand) -> (r: bool)
        requires
            old(self).wf(),
        ensures
            final(self).wf(),
            r == (list_command(command) || review_command(command) || picker_command(command)),
            !r ==> *final(self) == *old(self),
            list_command(command) ==> {
                &&& *final(self) == (Screens { issues: final(self).issues, ..*old(self) })
                &&& list_key_applied(old(self).issues, final(self).issues, command)
            },
            review_command(command) ==> {
                &&& *final(self) == (Screens { review: final(self).review, ..*old(self) })
                &&& review_key_applied(old(self).review@, final(self).review@, view == View::PullRequestFiles, command)
            },
            (command == KeyCommand::ToggleLabel || command == KeyCommand::SubmitLabels) ==> {
                &&& *final(self) == (Screens { labels: final(self).labels, ..*old(self) })
                &&& toggled(old(self).labels, final(self).labels)
            },
            (command == KeyCommand::ToggleAssignee || command == KeyCommand::SubmitAssignees) ==> {
                &&& *final(self) == (Screens { assignees: final(self).assignees, ..*old(self) })
                &&& toggled(old(self).assignees, final(self).assignees)
            },
    {
        let in_review_view = view == View::PullRequestFiles;
        match command {
            KeyCommand::NextIssueFilter | KeyCommand::SetIssueFilter(_) | KeyCommand::ToggleWorkItemMode
            | KeyCommand::CycleAssigneeFilter | KeyCommand::ResetAssigneeFilter | KeyCommand::BeginIssueSearch => {
                self.issues.apply_key_command(command)
            },
            KeyCommand::FocusReviewFiles => {
                self.review.set_pull_request_review_focus(PullRequestReviewFocus::Files);
                true
            },
            KeyCommand::FocusReviewDiff => {
                self.review.set_pull_request_review_focus(PullRequestReviewFocus::Diff);
                true
            },
            KeyCommand::ToggleHunk => {
                self.review.toggle_selected_pull_request_hunk_collapsed();
                true
            },
            KeyCommand::CycleReviewComment(forward) => {
                self.review.cycle_pull_request_review_comment(forward);
                true
            },
            KeyCommand::SetReviewSide(side) => {
                self.review.set_pull_request_review_side(side);
                true
            },
            KeyCommand::ToggleVisualMode => {
                self.review.toggle_pull_request_visual_mode();
                true
            },
            KeyCommand::ScrollDiffHorizontal(delta) => {
                self.review.scroll_pull_request_diff_horizontal(in_review_view, delta);
                true
            },
            KeyCommand::ResetDiffHorizontalScroll => {
                self.review.reset_pull_request_diff_horizontal_scroll();
                true
            },
            KeyCommand::ToggleDiffExpanded => {
                self.review.toggle_pull_request_diff_expanded(in_review_view);
                true
            },
            KeyCommand::ToggleLabel | KeyCommand::SubmitLabels => {
                self.labels.toggle_selected();
                true
            },
            KeyCommand::ToggleAssignee | KeyCommand::SubmitAssignees => {
                self.assignees.toggle_selected();
                true
            },
            _ => false,
        }
    }

    /// Carries out the highlighting part of a click: the clicked row of the
    /// repository picker, remote chooser, issue list, comments, review file
    /// list or diff, preset picker or linked-item picker is highlighted
    /// (clamped to the rows listed), and a clicked label or assignee option
    /// is highlighted and chosen or unchosen. Whether `command` is such a
    /// click; any other command changes nothing here.
    pub fn apply_click_selection(&mut self, command: ClickCommand) -> (r: bool)
        requires
            old(self).wf(),
        ensures
            final(self).wf(),
            r == selects_row(command),
            screens_clicked(*old(self), *final(self), command),
    {
        match command {
            ClickCommand::PickRepoRow(i) => {
                self.repos.select_repo_row(i);
                true
            },
            ClickCommand::PickRemoteRow(i) => {
                self.remote_selected = clamp_index(i, self.remote_count);
                true
            },
            ClickCommand::PickIssueRow(i) => {
                self.issues.select_issue_row(i);
                true
            },
            ClickCommand::SelectComment(i) => {
                self.detail.select_comment_at(i);
                true
            },
            ClickCommand::SelectFileRow(i) => {
                self.review.select_pull_request_file_row(i);
                true
            },
            ClickCommand::SelectDiffRow(i, side) => {
                self.review.select_pull_request_diff_row(i, side);
                true
            },
            ClickCommand::ClickLabelOption(i) => {
                let _ = self.labels.click_option(i);
                true
            },
            ClickCommand::ClickAssigneeOption(i) => {
                let _ = self.assignees.click_option(i);
                true
            },
            ClickCommand::PickPreset(i) => {
                self.preset_selected = clamp_index(i, self.preset_count);
                true
            },
            ClickCommand::PickLinkedOption(i) => {
                self.linked.set_selected_linked_picker_index(i);
                true
            },
            _ => false,
        }
    }
}

/// A clicked row clamped to the `count` rows listed.
pub fn clamp_index(index: usize, count: usize) -> (r: usize)
    ensures
        r == clamped(index, count as int),
{
    if index < count {
        index
    } else if count > 0 {
        count - 1
    } else {
        0
    }
}

/// A plain highlight over `count` entries after a jump.
pub fn jump_index(selected: usize, count: usize, to_top: bool) -> (r: usize)
    ensures
        r == jumped(selected, count as int, to_top),
{
    if to_top {
        0
    } else if count > 0 {
        count - 1
    } else {
        selected
    }
}


/// One step of a plain highlight over `count` entries.
pub fn step_index(selected: usize, count: usize, down: bool) -> (r: usize)
    ensures
        r == stepped(selected, count as int, down),
{
    if down {
        if selected < count && selected + 1 < count {
            selected + 1
        } else {
            selected
        }
    } else if selected > 0 {
        selected - 1
    } else {
        0
    }
}

} // verus!
