//! Clickable screen regions: what each drawn region stands for, and which
//! of them a click lands on.
use vstd::prelude::*;

use crate::app::{AppAction, IssueFilter, ReviewSide, View};
use vstd::view::View as _;

verus! {

/// What a clickable region of the screen stands for.
#[derive(Debug, Clone, Copy, PartialEq, Eq, Structural)]
pub enum MouseTarget {
    RepoPicker,
    Back,
    RepoListPane,
    RepoRow(usize),
    RemoteListPane,
    RemoteRow(usize),
    IssueTabOpen,
    IssueTabClosed,
    IssueRow(usize),
    IssuesListPane,
    IssuesPreviewPane,
    IssueBodyPane,
    IssueSidePane,
    LinkedPullRequestTuiButton,
    LinkedPullRequestWebButton,
    LinkedIssueTuiButton,
    LinkedIssueWebButton,
    CommentRow(usize),
    CommentsPane,
    PullRequestFilesPane,
    PullRequestDiffPane,
    PullRequestFileRow(usize),
    PullRequestDiffRow(usize, ReviewSide),
    PullRequestFocusFiles,
    PullRequestFocusDiff,
    LabelOption(usize),
    LabelApply,
    LabelCancel,
    AssigneeOption(usize),
    AssigneeApply,
    AssigneeCancel,
    PresetOption(usize),
    LinkedPickerOption(usize),
    LinkedPickerCancel,
}

/// A drawn rectangle and what it stands for.
#[derive(Debug, Clone, Copy, PartialEq, Eq, Structural)]
pub struct MouseRegion {
    pub target: MouseTarget,
    pub x: u16,
    pub y: u16,
    pub width: u16,
    pub height: u16,
}

/// `a + b`, capped at the largest `u16`.
pub open spec fn sat_add(a: u16, b: u16) -> int {
    if a + b > u16::MAX { u16::MAX as int } else { a + b }
}

/// The cell at `column`, `row` lies in the region (whose far edges are
/// capped at the screen's largest coordinate).
pub open spec fn region_holds(r: MouseRegion, column: u16, row: u16) -> bool {
    &&& r.x <= column < sat_add(r.x, r.width)
    &&& r.y <= row < sat_add(r.y, r.height)
}

/// What the last drawn region holding the cell stands for.
pub open spec fn target_at(regions: Seq<MouseRegion>, column: u16, row: u16) -> Option<MouseTarget>
    decreases regions.len(),
{
    if regions.len() == 0 {
        None
    } else if region_holds(regions.last(), column, row) {
        Some(regions.last().target)
    } else {
        target_at(regions.drop_last(), column, row)
    }
}

/// The clickable regions drawn on the screen, in drawing order.
pub struct MouseRegions {
    regions: Vec<MouseRegion>,
}

impl MouseRegions {
    /// The regions, in drawing order.
    pub closed spec fn regions_view(&self) -> Seq<MouseRegion> {
        self.regions@
    }

    /// No regions.
    pub fn new() -> (r: Self)
        ensures
            r.regions_view().len() == 0,
    {
        MouseRegions { regions: Vec::new() }
    }

    /// Forgets every region, before the screen is drawn again.
    pub fn clear_mouse_regions(&mut self)
        ensures
            final(self).regions_view().len() == 0,
    {
        self.regions = Vec::new();
    }

    /// Adds a region drawn on top of the others; an empty one is ignored.
    pub fn register_mouse_region(&mut self, target: MouseTarget, x: u16, y: u16, width: u16, height: u16)
        ensures
            final(self).regions_view() == if width == 0 || height == 0 {
                old(self).regions_view()
            } else {
                old(self).regions_view().push(MouseRegion { target, x, y, width, height })
            },
    {
        if width == 0 || height == 0 {
            return;
        }
        self.regions.push(MouseRegion { target, x, y, width, height });
    }

    /// What the topmost region under the cell at `column`, `row` stands for.
    pub fn mouse_target_at(&self, column: u16, row: u16) -> (r: Option<MouseTarget>)
        ensures
            r == target_at(self.regions_view(), column, row),
    {
        let mut index = self.regions.len();
        assert(self.regions@.take(index as int) =~= self.regions@);
        while index > 0
            invariant
                index <= self.regions.len(),
                target_at(self.regions@, column, row) == target_at(self.regions@.take(index as int), column, row),
            decreases index,
        {
            index = index - 1;
            let region = self.regions[index];
            proof {
                let prefix = self.regions@.take(index + 1);
                assert(prefix.drop_last() =~= self.regions@.take(index as int));
                assert(prefix.last() == region);
            }
            if column < region.x || row < region.y {
                continue;
            }
            if column >= region.x.saturating_add(region.width) {
                continue;
            }
            if row >= region.y.saturating_add(region.height) {
                continue;
            }
            return Some(region.target);
        }
        None
    }
}

/// A click lands on the last drawn region that holds it: a region drawn
/// later covers the ones under it, and a click outside every region hits
/// nothing.
pub proof fn lemma_topmost_region_wins(regions: Seq<MouseRegion>, column: u16, row: u16)
    ensures
        target_at(regions, column, row) matches Some(t) ==> exists|i: int|
            0 <= i < regions.len() && #[trigger] regions[i].target == t && region_holds(regions[i], column, row)
                && forall|j: int| i < j < regions.len() ==> !region_holds(#[trigger] regions[j], column, row),
        target_at(regions, column, row) is None ==> forall|j: int|
            0 <= j < regions.len() ==> !region_holds(#[trigger] regions[j], column, row),
    decreases regions.len(),
{
    if regions.len() > 0 {
        let init = regions.drop_last();
        lemma_topmost_region_wins(init, column, row);
        let last = regions.len() - 1;
        if region_holds(regions.last(), column, row) {
            assert(regions[last].target == regions.last().target);
        } else {
            assert(!region_holds(regions[last], column, row));
            if target_at(init, column, row) is Some {
                let t = target_at(init, column, row)->0;
                let i = choose|i: int|
                    0 <= i < init.len() && #[trigger] init[i].target == t && region_holds(init[i], column, row)
                        && forall|j: int| i < j < init.len() ==> !region_holds(#[trigger] init[j], column, row);
                assert(regions[i] == init[i]);
                assert forall|j: int| i < j < regions.len() implies !region_holds(#[trigger] regions[j], column, row) by {
                    if j < last {
                        assert(regions[j] == init[j]);
                    }
                }
            } else {
                assert forall|j: int| 0 <= j < regions.len() implies !region_holds(#[trigger] regions[j], column, row) by {
                    if j < last {
                        assert(regions[j] == init[j]);
                    }
                }
            }
        }
    }
}

/// What a click on a region asks for.
#[derive(Debug, Clone, Copy, PartialEq, Eq, Structural)]
pub enum ClickCommand {
    Nothing,
    BackFromIssueDetail,
    BackFromPullRequestFiles,
    ShowView(View),
    /// Go back to the view the label or assignee picker was opened from.
    CancelPicker,
    CancelLinkedPicker,
    OpenRepoPicker,
    /// Highlight the repository row (clamped to the listing) and pick it.
    PickRepoRow(usize),
    /// Highlight the remote row (clamped) and pick it.
    PickRemoteRow(usize),
    SetIssueFilter(IssueFilter),
    FocusIssuesList,
    FocusIssuesPreview,
    /// Focus the list, highlight the row (clamped) and pick the item.
    PickIssueRow(usize),
    FocusIssueBody,
    /// Focus the side pane and show the pull request's changes.
    ShowChanges,
    /// Focus the side pane and open the full comments, scrolled to the top.
    OpenFullComments,
    /// Focus the preview and hand the action to the event loop.
    PreviewAction(AppAction),
    SelectComment(usize),
    FocusReviewFiles,
    FocusReviewDiff,
    SelectFileRow(usize),
    SelectDiffRow(usize, ReviewSide),
    ClickLabelOption(usize),
    ClickAssigneeOption(usize),
    Action(AppAction),
    /// Highlight the preset (clamped) and pick it.
    PickPreset(usize),
    /// Highlight the linked item (clamped) and pick it.
    PickLinkedOption(usize),
}

/// What a click on `target` asks for in `view`; `current_is_pr` tells
/// whether the opened item is a pull request.
pub open spec fn click_spec(view: View, target: Option<MouseTarget>, current_is_pr: bool) -> ClickCommand {
    match target {
        None => ClickCommand::Nothing,
        Some(t) => match t {
            MouseTarget::Back => if view == View::IssueDetail {
                ClickCommand::BackFromIssueDetail
            } else if view == View::IssueComments {
                ClickCommand::ShowView(View::IssueDetail)
            } else if view == View::PullRequestFiles {
                ClickCommand::BackFromPullRequestFiles
            } else if view == View::LinkedPicker {
                ClickCommand::CancelLinkedPicker
            } else if view == View::LabelPicker || view == View::AssigneePicker {
                ClickCommand::CancelPicker
            } else if view == View::CommentPresetPicker {
                ClickCommand::ShowView(View::Issues)
            } else {
                ClickCommand::Nothing
            },
            MouseTarget::RepoPicker => ClickCommand::OpenRepoPicker,
            MouseTarget::RepoRow(i) => ClickCommand::PickRepoRow(i),
            MouseTarget::RemoteRow(i) => ClickCommand::PickRemoteRow(i),
            MouseTarget::IssueTabOpen => ClickCommand::SetIssueFilter(IssueFilter::Open),
            MouseTarget::IssueTabClosed => ClickCommand::SetIssueFilter(IssueFilter::Closed),
            MouseTarget::IssuesListPane => ClickCommand::FocusIssuesList,
            MouseTarget::IssuesPreviewPane => ClickCommand::FocusIssuesPreview,
            MouseTarget::IssueRow(i) => ClickCommand::PickIssueRow(i),
            MouseTarget::IssueBodyPane => ClickCommand::FocusIssueBody,
            MouseTarget::IssueSidePane => if current_is_pr {
                ClickCommand::ShowChanges
            } else {
                ClickCommand::OpenFullComments
            },
            MouseTarget::LinkedPullRequestTuiButton => ClickCommand::PreviewAction(AppAction::OpenLinkedPullRequestInTui),
            MouseTarget::LinkedPullRequestWebButton => ClickCommand::PreviewAction(
                AppAction::OpenLinkedPullRequestInBrowser,
            ),
            MouseTarget::LinkedIssueTuiButton => ClickCommand::PreviewAction(AppAction::OpenLinkedIssueInTui),
            MouseTarget::LinkedIssueWebButton => ClickCommand::PreviewAction(AppAction::OpenLinkedIssueInBrowser),
            MouseTarget::CommentRow(i) => ClickCommand::SelectComment(i),
            MouseTarget::PullRequestFocusFiles | MouseTarget::PullRequestFilesPane => ClickCommand::FocusReviewFiles,
            MouseTarget::PullRequestFocusDiff | MouseTarget::PullRequestDiffPane => ClickCommand::FocusReviewDiff,
            MouseTarget::PullRequestFileRow(i) => ClickCommand::SelectFileRow(i),
            MouseTarget::PullRequestDiffRow(i, side) => ClickCommand::SelectDiffRow(i, side),
            MouseTarget::LabelOption(i) => ClickCommand::ClickLabelOption(i),
            MouseTarget::LabelApply => ClickCommand::Action(AppAction::SubmitLabels),
            MouseTarget::LabelCancel => ClickCommand::CancelPicker,
            MouseTarget::AssigneeOption(i) => ClickCommand::ClickAssigneeOption(i),
            MouseTarget::AssigneeApply => ClickCommand::Action(AppAction::SubmitAssignees),
            MouseTarget::AssigneeCancel => ClickCommand::CancelPicker,
            MouseTarget::PresetOption(i) => ClickCommand::PickPreset(i),
            MouseTarget::LinkedPickerOption(i) => ClickCommand::PickLinkedOption(i),
            MouseTarget::LinkedPickerCancel => ClickCommand::CancelLinkedPicker,
            _ => ClickCommand::Nothing,
        },
    }
}

/// What a click on `target` asks for in `view`.
pub fn click_command(view: View, target: Option<MouseTarget>, current_is_pr: bool) -> (r: ClickCommand)
    ensures
        r == click_spec(view, target, current_is_pr),
{
    let t = match target {
        None => return ClickCommand::Nothing,
        Some(t) => t,
    };
    match t {
        MouseTarget::Back => if view == View::IssueDetail {
            ClickCommand::BackFromIssueDetail
        } else if view == View::IssueComments {
            ClickCommand::ShowView(View::IssueDetail)
        } else if view == View::PullRequestFiles {
            ClickCommand::BackFromPullRequestFiles
        } else if view == View::LinkedPicker {
            ClickCommand::CancelLinkedPicker
        } else if view == View::LabelPicker || view == View::AssigneePicker {
            ClickCommand::CancelPicker
        } else if view == View::CommentPresetPicker {
            ClickCommand::ShowView(View::Issues)
        } else {
            ClickCommand::Nothing
        },
        MouseTarget::RepoPicker => ClickCommand::OpenRepoPicker,
        MouseTarget::RepoRow(i) => ClickCommand::PickRepoRow(i),
        MouseTarget::RemoteRow(i) => ClickCommand::PickRemoteRow(i),
        MouseTarget::IssueTabOpen => ClickCommand::SetIssueFilter(IssueFilter::Open),
        MouseTarget::IssueTabClosed => ClickCommand::SetIssueFilter(IssueFilter::Closed),
        MouseTarget::IssuesListPane => ClickCommand::FocusIssuesList,
        MouseTarget::IssuesPreviewPane => ClickCommand::FocusIssuesPreview,
        MouseTarget::IssueRow(i) => ClickCommand::PickIssueRow(i),
        MouseTarget::IssueBodyPane => ClickCommand::FocusIssueBody,
        MouseTarget::IssueSidePane => if current_is_pr {
            ClickCommand::ShowChanges
        } else {
            ClickCommand::OpenFullComments
        },
        MouseTarget::LinkedPullRequestTuiButton => ClickCommand::PreviewAction(AppAction::OpenLinkedPullRequestInTui),
        MouseTarget::LinkedPullRequestWebButton => ClickCommand::PreviewAction(AppAction::OpenLinkedPullRequestInBrowser),
        MouseTarget::LinkedIssueTuiButton => ClickCommand::PreviewAction(AppAction::OpenLinkedIssueInTui),
        MouseTarget::LinkedIssueWebButton => ClickCommand::PreviewAction(AppAction::OpenLinkedIssueInBrowser),
        MouseTarget::CommentRow(i) => ClickCommand::SelectComment(i),
        MouseTarget::PullRequestFocusFiles | MouseTarget::PullRequestFilesPane => ClickCommand::FocusReviewFiles,
        MouseTarget::PullRequestFocusDiff | MouseTarget::PullRequestDiffPane => ClickCommand::FocusReviewDiff,
        MouseTarget::PullRequestFileRow(i) => ClickCommand::SelectFileRow(i),
        MouseTarget::PullRequestDiffRow(i, side) => ClickCommand::SelectDiffRow(i, side),
        MouseTarget::LabelOption(i) => ClickCommand::ClickLabelOption(i),
        MouseTarget::LabelApply => ClickCommand::Action(AppAction::SubmitLabels),
        MouseTarget::LabelCancel => ClickCommand::CancelPicker,
        MouseTarget::AssigneeOption(i) => ClickCommand::ClickAssigneeOption(i),
        MouseTarget::AssigneeApply => ClickCommand::Action(AppAction::SubmitAssignees),
        MouseTarget::AssigneeCancel => ClickCommand::CancelPicker,
        MouseTarget::PresetOption(i) => ClickCommand::PickPreset(i),
        MouseTarget::LinkedPickerOption(i) => ClickCommand::PickLinkedOption(i),
        MouseTarget::LinkedPickerCancel => ClickCommand::CancelLinkedPicker,
        _ => ClickCommand::Nothing,
    }
}

/// The pane a scroll over a region focuses first.
#[derive(Debug, Clone, Copy, PartialEq, Eq, Structural)]
pub enum ScrollFocus {
    IssuesList,
    IssuesPreview,
    IssueBody,
    RecentComments,
    ReviewFiles,
    ReviewDiff,
}

/// What scrolling over a region does: focus a pane (or none), then move
/// the highlight (or not at all).
#[derive(Debug, Clone, Copy, PartialEq, Eq, Structural)]
pub struct ScrollPlan {
    pub focus: Option<ScrollFocus>,
    pub moves: bool,
}

/// What scrolling over `target` does in `view`: over the repository or
/// remote lists it moves their highlight only while they are shown; over
/// a pane it focuses that pane; and then the highlight moves.
pub open spec fn scroll_spec(view: View, target: Option<MouseTarget>) -> ScrollPlan {
    match target {
        None => ScrollPlan { focus: None, moves: false },
        Some(t) => match t {
            MouseTarget::RepoListPane | MouseTarget::RepoRow(_) => ScrollPlan { focus: None, moves: view == View::RepoPicker },
            MouseTarget::RemoteListPane | MouseTarget::RemoteRow(_) => ScrollPlan {
                focus: None,
                moves: view == View::RemoteChooser,
            },
            MouseTarget::IssuesListPane | MouseTarget::IssueRow(_) => ScrollPlan {
                focus: Some(ScrollFocus::IssuesList),
                moves: true,
            },
            MouseTarget::IssuesPreviewPane => ScrollPlan { focus: Some(ScrollFocus::IssuesPreview), moves: true },
            MouseTarget::IssueBodyPane => ScrollPlan { focus: Some(ScrollFocus::IssueBody), moves: true },
            MouseTarget::IssueSidePane => ScrollPlan { focus: Some(ScrollFocus::RecentComments), moves: true },
            MouseTarget::PullRequestFilesPane | MouseTarget::PullRequestFileRow(_) => ScrollPlan {
                focus: Some(ScrollFocus::ReviewFiles),
                moves: true,
            },
            MouseTarget::PullRequestDiffPane | MouseTarget::PullRequestDiffRow(_, _) => ScrollPlan {
                focus: Some(ScrollFocus::ReviewDiff),
                moves: true,
            },
            _ => ScrollPlan { focus: None, moves: true },
        },
    }
}

/// What scrolling over `target` does in `view`.
pub fn scroll_plan(view: View, target: Option<MouseTarget>) -> (r: ScrollPlan)
    ensures
        r == scroll_spec(view, target),
{
    let t = match target {
        None => return ScrollPlan { focus: None, moves: false },
        Some(t) => t,
    };
    match t {
        MouseTarget::RepoListPane | MouseTarget::RepoRow(_) => ScrollPlan { focus: None, moves: view == View::RepoPicker },
        MouseTarget::RemoteListPane | MouseTarget::RemoteRow(_) => ScrollPlan {
            focus: None,
            moves: view == View::RemoteChooser,
        },
        MouseTarget::IssuesListPane | MouseTarget::IssueRow(_) => ScrollPlan {
            focus: Some(ScrollFocus::IssuesList),
            moves: true,
        },
        MouseTarget::IssuesPreviewPane => ScrollPlan { focus: Some(ScrollFocus::IssuesPreview), moves: true },
        MouseTarget::IssueBodyPane => ScrollPlan { focus: Some(ScrollFocus::IssueBody), moves: true },
        MouseTarget::IssueSidePane => ScrollPlan { focus: Some(ScrollFocus::RecentComments), moves: true },
        MouseTarget::PullRequestFilesPane | MouseTarget::PullRequestFileRow(_) => ScrollPlan {
            focus: Some(ScrollFocus::ReviewFiles),
            moves: true,
        },
        MouseTarget::PullRequestDiffPane | MouseTarget::PullRequestDiffRow(_, _) => ScrollPlan {
            focus: Some(ScrollFocus::ReviewDiff),
            moves: true,
        },
        _ => ScrollPlan { focus: None, moves: true },
    }
}

/// Scrolling sideways over the diff focuses it and scrolls four columns
/// right (or left); elsewhere it does nothing.
pub fn horizontal_scroll_delta(target: Option<MouseTarget>, right: bool) -> (r: Option<i16>)
    ensures
        r == match target {
            Some(MouseTarget::PullRequestDiffPane) | Some(MouseTarget::PullRequestDiffRow(_, _)) => Some(
                if right { 4i16 } else { -4i16 },
            ),
            _ => None,
        },
{
    match target {
        Some(MouseTarget::PullRequestDiffPane) | Some(MouseTarget::PullRequestDiffRow(_, _)) => Some(
            if right { 4i16 } else { -4i16 },
        ),
        _ => None,
    }
}

} // verus!
