//! The keyboard map: which part of the interface a key press goes to, and
//! what a key press that reaches the keymap asks for in each view.
use vstd::prelude::*;

use crate::app::{AppAction, Focus, IssueFilter, PullRequestReviewFocus, ReviewSide, View};
use crate::keybinds::{KeyCode, KeyMods, KeyPress};
use vstd::view::View as _;

verus! {

/// Who gets a key press first.
#[derive(Debug, Clone, Copy, PartialEq, Eq, Structural)]
pub enum KeyHandler {
    /// The comment editor or the preset-name prompt takes every key.
    Editor,
    /// The repository search box, when it is open.
    RepoSearch,
    /// The issue search box, when it is open.
    IssueSearch,
    /// The filter of the label or assignee picker.
    PopupFilter,
    /// The keymap below.
    Keymap,
}

/// What a key press that reaches the keymap asks for.
#[derive(Debug, Clone, Copy, PartialEq, Eq, Structural)]
pub enum KeyCommand {
    Nothing,
    /// Rescan the disk for repositories.
    Rescan,
    FocusIssuesList,
    FocusIssuesPreview,
    FocusIssueBody,
    FocusRecentComments,
    /// Focus the file list of the review (leaving visual mode).
    FocusReviewFiles,
    FocusReviewDiff,
    ToggleHelp,
    CloseHelp,
    Quit,
    OpenRepoPicker,
    BeginRepoSearch,
    BeginIssueSearch,
    NextIssueFilter,
    ToggleWorkItemMode,
    CycleAssigneeFilter,
    ResetAssigneeFilter,
    SetIssueFilter(IssueFilter),
    SyncIssues,
    SyncIssueAndComments,
    JumpTop,
    JumpBottom,
    /// Refuse to close: nothing is selected.
    NoIssueSelected,
    /// Refuse to close: the item is closed already.
    IssueAlreadyClosed,
    /// Hand an action to the event loop.
    Action(AppAction),
    ToggleHunk,
    OpenComments,
    CycleReviewComment(bool),
    SetReviewSide(ReviewSide),
    ToggleVisualMode,
    ScrollDiffHorizontal(i16),
    ResetDiffHorizontalScroll,
    ToggleLabel,
    ToggleAssignee,
    /// Choose or unchoose the highlighted label, then submit the labels.
    SubmitLabels,
    /// Choose or unchoose the highlighted assignee, then submit the assignees.
    SubmitAssignees,
    BackFromIssueDetail,
    BackFromPullRequestFiles,
    ShowView(View),
    /// Go back to the view the picker was opened from.
    CancelPicker,
    MoveUp,
    MoveDown,
    Activate,
    /// Open the full comments view, scrolled to the top.
    OpenFullComments,
    /// Tell the user to focus the comments pane first.
    CommentsPaneHint,
    /// Switch between the split review and the expanded diff.
    ToggleDiffExpanded,
}

/// What the keymap needs to know of the interface's state.
#[derive(Debug, Clone, Copy, PartialEq, Eq, Structural)]
pub struct KeyContext {
    pub view: View,
    pub review_focus: PullRequestReviewFocus,
    pub help_visible: bool,
    /// A first `g` was pressed.
    pub pending_g: bool,
    /// A first `d` was pressed.
    pub pending_d: bool,
    /// An item is highlighted (list view) or opened (other views).
    pub has_issue: bool,
    /// The item the view is about is closed.
    pub issue_closed: bool,
    /// The item an action is for is a pull request.
    pub item_is_pr: bool,
    /// Control-`c` quits as well as the quit key: the quit command was not
    /// moved to a key of the user's own.
    pub ctrl_c_quits: bool,
}

/// The command and the pending `g` and `d` presses after a key press.
#[derive(Debug, Clone, Copy, PartialEq, Eq, Structural)]
pub struct KeyOutcome {
    pub command: KeyCommand,
    pub pending_g: bool,
    pub pending_d: bool,
}

/// Who gets a key press first in `view`.
pub open spec fn handler_spec(view: View, repo_search_mode: bool, issue_search_mode: bool) -> KeyHandler {
    if view == View::CommentPresetName || view == View::CommentEditor {
        KeyHandler::Editor
    } else if view == View::RepoPicker && repo_search_mode {
        KeyHandler::RepoSearch
    } else if view == View::Issues && issue_search_mode {
        KeyHandler::IssueSearch
    } else if view == View::LabelPicker || view == View::AssigneePicker {
        KeyHandler::PopupFilter
    } else {
        KeyHandler::Keymap
    }
}

/// Who gets a key press first; when a search box or picker filter does not
/// take the key, it goes on to the keymap.
pub fn key_handler(view: View, repo_search_mode: bool, issue_search_mode: bool) -> (r: KeyHandler)
    ensures
        r == handler_spec(view, repo_search_mode, issue_search_mode),
{
    if view == View::CommentPresetName || view == View::CommentEditor {
        KeyHandler::Editor
    } else if view == View::RepoPicker && repo_search_mode {
        KeyHandler::RepoSearch
    } else if view == View::Issues && issue_search_mode {
        KeyHandler::IssueSearch
    } else if view == View::LabelPicker || view == View::AssigneePicker {
        KeyHandler::PopupFilter
    } else {
        KeyHandler::Keymap
    }
}

/// No modifier is held.
pub open spec fn no_mods(m: KeyMods) -> bool {
    !m.shift && !m.control && !m.alt && !m.super_key && !m.hyper && !m.meta
}

/// Only control is held.
pub open spec fn control_only(m: KeyMods) -> bool {
    m.control && !m.shift && !m.alt && !m.super_key && !m.hyper && !m.meta
}

/// The views about one item: its place in the list, its page, its comments and its changes.
pub open spec fn item_view(v: View) -> bool {
    v == View::Issues || v == View::IssueDetail || v == View::IssueComments || v == View::PullRequestFiles
}

/// The focus a control key moves to in the current view, if it moves one.
pub open spec fn focus_command(view: View, code: KeyCode) -> Option<KeyCommand> {
    let back = code == KeyCode::Char('h') || code == KeyCode::Char('k');
    let ahead = code == KeyCode::Char('l') || code == KeyCode::Char('j');
    if view == View::Issues && back {
        Some(KeyCommand::FocusIssuesList)
    } else if view == View::Issues && ahead {
        Some(KeyCommand::FocusIssuesPreview)
    } else if view == View::IssueDetail && back {
        Some(KeyCommand::FocusIssueBody)
    } else if view == View::IssueDetail && ahead {
        Some(KeyCommand::FocusRecentComments)
    } else if view == View::PullRequestFiles && back {
        Some(KeyCommand::FocusReviewFiles)
    } else if view == View::PullRequestFiles && ahead {
        Some(KeyCommand::FocusReviewDiff)
    } else {
        None
    }
}

/// The closing command of a `d` press: the second `d` of a pair closes the item.
pub open spec fn close_outcome(c: KeyContext, g: bool) -> KeyOutcome {
    if !c.has_issue {
        KeyOutcome { command: KeyCommand::NoIssueSelected, pending_g: g, pending_d: false }
    } else if c.issue_closed {
        KeyOutcome { command: KeyCommand::IssueAlreadyClosed, pending_g: g, pending_d: false }
    } else if c.pending_d {
        KeyOutcome { command: KeyCommand::Action(AppAction::CloseIssue), pending_g: g, pending_d: false }
    } else {
        KeyOutcome { command: KeyCommand::Nothing, pending_g: g, pending_d: true }
    }
}

/// The keymap's command for a key press that no earlier rule took; `g`
/// and `d` are the pending presses still standing.
pub open spec fn main_command(c: KeyContext, key: KeyPress) -> KeyCommand {
    let v = c.view;
    let m = key.modifiers;
    let pr = v == View::PullRequestFiles;
    match key.code {
        KeyCode::Char(ch) => if (ch == 'q' && no_mods(m)) || (ch == 'c' && m.control && c.ctrl_c_quits) {
            KeyCommand::Quit
        } else if ch == 'N' && !m.control && !m.alt && v == View::Issues {
            KeyCommand::Action(AppAction::CreateIssue)
        } else if ch == 'g' && m.control {
            KeyCommand::OpenRepoPicker
        } else if ch == '/' && no_mods(m) && v == View::RepoPicker {
            KeyCommand::BeginRepoSearch
        } else if ch == '/' && no_mods(m) && v == View::Issues {
            KeyCommand::BeginIssueSearch
        } else if ch == 'p' && no_mods(m) && v == View::Issues {
            KeyCommand::ToggleWorkItemMode
        } else if ch == 'a' && no_mods(m) && v == View::Issues {
            KeyCommand::CycleAssigneeFilter
        } else if ch == 'a' && control_only(m) && v == View::Issues {
            KeyCommand::ResetAssigneeFilter
        } else if no_mods(m) && v == View::Issues && (ch == '1' || ch == '2') {
            KeyCommand::SetIssueFilter(if ch == '2' { IssueFilter::Closed } else { IssueFilter::Open })
        } else if ch == 'r' && no_mods(m) && v == View::Issues {
            KeyCommand::SyncIssues
        } else if ch == 'r' && no_mods(m) && (v == View::IssueDetail || v == View::IssueComments || pr) {
            KeyCommand::SyncIssueAndComments
        } else if ch == 'G' {
            KeyCommand::JumpBottom
        } else if ch == 'c' && pr && c.review_focus == PullRequestReviewFocus::Diff {
            KeyCommand::ToggleHunk
        } else if ch == 'c' && v == View::IssueDetail {
            KeyCommand::OpenComments
        } else if ch == 'm' && (v == View::Issues || v == View::IssueDetail || v == View::IssueComments) {
            KeyCommand::Action(AppAction::AddIssueComment)
        } else if ch == 'w' && pr {
            KeyCommand::Action(AppAction::TogglePullRequestFileViewed)
        } else if ch == 'm' && pr {
            KeyCommand::Action(AppAction::AddPullRequestReviewComment)
        } else if ch == 'e' && pr {
            KeyCommand::Action(AppAction::EditPullRequestReviewComment)
        } else if ch == 'x' && pr {
            KeyCommand::Action(AppAction::DeletePullRequestReviewComment)
        } else if ch == 'R' && pr {
            KeyCommand::Action(AppAction::ResolvePullRequestReviewComment)
        } else if ch == 'n' && pr {
            KeyCommand::CycleReviewComment(true)
        } else if ch == 'p' && pr {
            KeyCommand::CycleReviewComment(false)
        } else if (ch == 'h' || ch == 'l') && pr {
            if c.review_focus == PullRequestReviewFocus::Diff {
                KeyCommand::SetReviewSide(if ch == 'h' { ReviewSide::Left } else { ReviewSide::Right })
            } else {
                KeyCommand::Nothing
            }
        } else if ch == 'V' && pr {
            KeyCommand::ToggleVisualMode
        } else if ch == '[' && pr {
            KeyCommand::ScrollDiffHorizontal(-4i16)
        } else if ch == ']' && pr {
            KeyCommand::ScrollDiffHorizontal(4i16)
        } else if ch == '0' && pr {
            KeyCommand::ResetDiffHorizontalScroll
        } else if ch == 'e' && v == View::IssueComments {
            KeyCommand::Action(AppAction::EditIssueComment)
        } else if ch == 'x' && v == View::IssueComments {
            KeyCommand::Action(AppAction::DeleteIssueComment)
        } else if ch == 'l' && item_view(v) {
            KeyCommand::Action(AppAction::EditLabels)
        } else if ch == 'A' && m.shift && item_view(v) {
            KeyCommand::Action(AppAction::EditAssignees)
        } else if ch == 'u' && item_view(v) {
            KeyCommand::Action(AppAction::ReopenIssue)
        } else if ch == ' ' && v == View::LabelPicker {
            KeyCommand::ToggleLabel
        } else if ch == ' ' && v == View::AssigneePicker {
            KeyCommand::ToggleAssignee
        } else if ch == 'b' && v == View::IssueDetail {
            KeyCommand::BackFromIssueDetail
        } else if ch == 'b' && v == View::IssueComments {
            KeyCommand::ShowView(View::IssueDetail)
        } else if ch == 'b' && pr {
            KeyCommand::BackFromPullRequestFiles
        } else if ch == 'k' {
            KeyCommand::MoveUp
        } else if ch == 'j' {
            KeyCommand::MoveDown
        } else if ch == 'o' && item_view(v) {
            KeyCommand::Action(AppAction::OpenInBrowser)
        } else if ch == 'O' && m.shift && item_view(v) {
            KeyCommand::Action(
                if c.item_is_pr { AppAction::OpenLinkedIssueInBrowser } else { AppAction::OpenLinkedPullRequestInBrowser },
            )
        } else if ch == 'P' && m.shift && item_view(v) {
            KeyCommand::Action(
                if c.item_is_pr { AppAction::OpenLinkedIssueInTui } else { AppAction::OpenLinkedPullRequestInTui },
            )
        } else if ch == 'v' && item_view(v) {
            KeyCommand::Action(AppAction::CheckoutPullRequest)
        } else {
            KeyCommand::Nothing
        },
        KeyCode::Tab => if no_mods(m) && v == View::Issues {
            KeyCommand::NextIssueFilter
        } else {
            KeyCommand::Nothing
        },
        KeyCode::BackTab => if v == View::Issues {
            KeyCommand::NextIssueFilter
        } else {
            KeyCommand::Nothing
        },
        KeyCode::Enter => if v == View::LabelPicker {
            KeyCommand::SubmitLabels
        } else if v == View::AssigneePicker {
            KeyCommand::SubmitAssignees
        } else {
            KeyCommand::Activate
        },
        KeyCode::Esc => if v == View::IssueDetail {
            KeyCommand::BackFromIssueDetail
        } else if v == View::IssueComments {
            KeyCommand::ShowView(View::IssueDetail)
        } else if pr {
            KeyCommand::BackFromPullRequestFiles
        } else if v == View::CommentPresetPicker {
            KeyCommand::ShowView(View::Issues)
        } else if v == View::LabelPicker || v == View::AssigneePicker {
            KeyCommand::CancelPicker
        } else {
            KeyCommand::Nothing
        },
        KeyCode::Up => KeyCommand::MoveUp,
        KeyCode::Down => KeyCommand::MoveDown,
        _ => KeyCommand::Nothing,
    }
}

/// What a key press that reaches the keymap asks for. In the repository
/// picker control-`r` rescans; with control held, `h`/`k` and `l`/`j` move
/// the focus between the panes of the list, item and review views. Other
/// keys first drop a pending `g` or `d` they do not continue; `?` toggles
/// the help, which escape closes. Then `gg` jumps to the top and `dd`
/// closes the item (when there is one and it is open); every other key
/// maps to its command by view.
pub open spec fn keymap_spec(c: KeyContext, key: KeyPress) -> KeyOutcome {
    let m = key.modifiers;
    let code = key.code;
    if m.control && code == KeyCode::Char('r') && c.view == View::RepoPicker {
        KeyOutcome { command: KeyCommand::Rescan, pending_g: c.pending_g, pending_d: c.pending_d }
    } else if m.control && focus_command(c.view, code) is Some {
        KeyOutcome { command: focus_command(c.view, code)->0, pending_g: c.pending_g, pending_d: c.pending_d }
    } else {
        let g = c.pending_g && code == KeyCode::Char('g');
        let d = c.pending_d && code == KeyCode::Char('d');
        if code == KeyCode::Char('?') {
            KeyOutcome { command: KeyCommand::ToggleHelp, pending_g: g, pending_d: d }
        } else if c.help_visible && code == KeyCode::Esc {
            KeyOutcome { command: KeyCommand::CloseHelp, pending_g: g, pending_d: d }
        } else if code == KeyCode::Char('g') && no_mods(m) {
            if g {
                KeyOutcome { command: KeyCommand::JumpTop, pending_g: false, pending_d: d }
            } else {
                KeyOutcome { command: KeyCommand::Nothing, pending_g: true, pending_d: d }
            }
        } else if code == KeyCode::Char('d') && no_mods(m) && item_view(c.view) {
            close_outcome(KeyContext { pending_d: d, ..c }, g)
        } else {
            KeyOutcome { command: main_command(c, key), pending_g: g, pending_d: d }
        }
    }
}

fn is_no_mods(m: KeyMods) -> (r: bool)
    ensures
        r == no_mods(m),
{
    !m.shift && !m.control && !m.alt && !m.super_key && !m.hyper && !m.meta
}

fn is_control_only(m: KeyMods) -> (r: bool)
    ensures
        r == control_only(m),
{
    m.control && !m.shift && !m.alt && !m.super_key && !m.hyper && !m.meta
}

fn is_item_view(v: View) -> (r: bool)
    ensures
        r == item_view(v),
{
    v == View::Issues || v == View::IssueDetail || v == View::IssueComments || v == View::PullRequestFiles
}

/// The focus a control key moves to in the current view, if it moves one.
fn focus_command_of(view: View, code: KeyCode) -> (r: Option<KeyCommand>)
    ensures
        r == focus_command(view, code),
{
    let back = code == KeyCode::Char('h') || code == KeyCode::Char('k');
    let ahead = code == KeyCode::Char('l') || code == KeyCode::Char('j');
    if view == View::Issues && back {
        Some(KeyCommand::FocusIssuesList)
    } else if view == View::Issues && ahead {
        Some(KeyCommand::FocusIssuesPreview)
    } else if view == View::IssueDetail && back {
        Some(KeyCommand::FocusIssueBody)
    } else if view == View::IssueDetail && ahead {
        Some(KeyCommand::FocusRecentComments)
    } else if view == View::PullRequestFiles && back {
        Some(KeyCommand::FocusReviewFiles)
    } else if view == View::PullRequestFiles && ahead {
        Some(KeyCommand::FocusReviewDiff)
    } else {
        None
    }
}

/// The keymap's command for a character key.
fn char_command(c: KeyContext, ch: char, m: KeyMods) -> (r: KeyCommand)
    ensures
        r == main_command(c, KeyPress { code: KeyCode::Char(ch), modifiers: m }),
{
    let v = c.view;
    let pr = v == View::PullRequestFiles;
    let plain = is_no_mods(m);
    let item = is_item_view(v);
    if (ch == 'q' && plain) || (ch == 'c' && m.control && c.ctrl_c_quits) {
        KeyCommand::Quit
    } else if ch == 'N' && !m.control && !m.alt && v == View::Issues {
        KeyCommand::Action(AppAction::CreateIssue)
    } else if ch == 'g' && m.control {
        KeyCommand::OpenRepoPicker
    } else if ch == '/' && plain && v == View::RepoPicker {
        KeyCommand::BeginRepoSearch
    } else if ch == '/' && plain && v == View::Issues {
        KeyCommand::BeginIssueSearch
    } else if ch == 'p' && plain && v == View::Issues {
        KeyCommand::ToggleWorkItemMode
    } else if ch == 'a' && plain && v == View::Issues {
        KeyCommand::CycleAssigneeFilter
    } else if ch == 'a' && is_control_only(m) && v == View::Issues {
        KeyCommand::ResetAssigneeFilter
    } else if plain && v == View::Issues && IssueFilter::from_key(ch).is_some() {
        KeyCommand::SetIssueFilter(if ch == '2' { IssueFilter::Closed } else { IssueFilter::Open })
    } else if ch == 'r' && plain && v == View::Issues {
        KeyCommand::SyncIssues
    } else if ch == 'r' && plain && (v == View::IssueDetail || v == View::IssueComments || pr) {
        KeyCommand::SyncIssueAndComments
    } else if ch == 'G' {
        KeyCommand::JumpBottom
    } else if ch == 'c' && pr && c.review_focus == PullRequestReviewFocus::Diff {
        KeyCommand::ToggleHunk
    } else if ch == 'c' && v == View::IssueDetail {
        KeyCommand::OpenComments
    } else if ch == 'm' && (v == View::Issues || v == View::IssueDetail || v == View::IssueComments) {
        KeyCommand::Action(AppAction::AddIssueComment)
    } else if ch == 'w' && pr {
        KeyCommand::Action(AppAction::TogglePullRequestFileViewed)
    } else if ch == 'm' && pr {
        KeyCommand::Action(AppAction::AddPullRequestReviewComment)
    } else if ch == 'e' && pr {
        KeyCommand::Action(AppAction::EditPullRequestReviewComment)
    } else if ch == 'x' && pr {
        KeyCommand::Action(AppAction::DeletePullRequestReviewComment)
    } else if ch == 'R' && pr {
        KeyCommand::Action(AppAction::ResolvePullRequestReviewComment)
    } else if ch == 'n' && pr {
        KeyCommand::CycleReviewComment(true)
    } else if ch == 'p' && pr {
        KeyCommand::CycleReviewComment(false)
    } else if (ch == 'h' || ch == 'l') && pr {
        if c.review_focus == PullRequestReviewFocus::Diff {
            KeyCommand::SetReviewSide(if ch == 'h' { ReviewSide::Left } else { ReviewSide::Right })
        } else {
            KeyCommand::Nothing
        }
    } else if ch == 'V' && pr {
        KeyCommand::ToggleVisualMode
    } else if ch == '[' && pr {
        KeyCommand::ScrollDiffHorizontal(-4i16)
    } else if ch == ']' && pr {
        KeyCommand::ScrollDiffHorizontal(4i16)
    } else if ch == '0' && pr {
        KeyCommand::ResetDiffHorizontalScroll
    } else if ch == 'e' && v == View::IssueComments {
        KeyCommand::Action(AppAction::EditIssueComment)
    } else if ch == 'x' && v == View::IssueComments {
        KeyCommand::Action(AppAction::DeleteIssueComment)
    } else if ch == 'l' && item {
        KeyCommand::Action(AppAction::EditLabels)
    } else if ch == 'A' && m.shift && item {
        KeyCommand::Action(AppAction::EditAssignees)
    } else if ch == 'u' && item {
        KeyCommand::Action(AppAction::ReopenIssue)
    } else if ch == ' ' && v == View::LabelPicker {
        KeyCommand::ToggleLabel
    } else if ch == ' ' && v == View::AssigneePicker {
        KeyCommand::ToggleAssignee
    } else if ch == 'b' && v == View::IssueDetail {
        KeyCommand::BackFromIssueDetail
    } else if ch == 'b' && v == View::IssueComments {
        KeyCommand::ShowView(View::IssueDetail)
    } else if ch == 'b' && pr {
        KeyCommand::BackFromPullRequestFiles
    } else if ch == 'k' {
        KeyCommand::MoveUp
    } else if ch == 'j' {
        KeyCommand::MoveDown
    } else if ch == 'o' && item {
        KeyCommand::Action(AppAction::OpenInBrowser)
    } else if ch == 'O' && m.shift && item {
        KeyCommand::Action(
            if c.item_is_pr { AppAction::OpenLinkedIssueInBrowser } else { AppAction::OpenLinkedPullRequestInBrowser },
        )
    } else if ch == 'P' && m.shift && item {
        KeyCommand::Action(if c.item_is_pr { AppAction::OpenLinkedIssueInTui } else { AppAction::OpenLinkedPullRequestInTui })
    } else if ch == 'v' && item {
        KeyCommand::Action(AppAction::CheckoutPullRequest)
    } else {
        KeyCommand::Nothing
    }
}

/// The keymap's command for a key press that no earlier rule took.
fn main_command_of(c: KeyContext, key: KeyPress) -> (r: KeyCommand)
    ensures
        r == main_command(c, key),
{
    let v = c.view;
    match key.code {
        KeyCode::Char(ch) => char_command(c, ch, key.modifiers),
        KeyCode::Tab => if is_no_mods(key.modifiers) && v == View::Issues {
            KeyCommand::NextIssueFilter
        } else {
            KeyCommand::Nothing
        },
        KeyCode::BackTab => if v == View::Issues {
            KeyCommand::NextIssueFilter
        } else {
            KeyCommand::Nothing
        },
        KeyCode::Enter => if v == View::LabelPicker {
            KeyCommand::SubmitLabels
        } else if v == View::AssigneePicker {
            KeyCommand::SubmitAssignees
        } else {
            KeyCommand::Activate
        },
        KeyCode::Esc => if v == View::IssueDetail {
            KeyCommand::BackFromIssueDetail
        } else if v == View::IssueComments {
            KeyCommand::ShowView(View::IssueDetail)
        } else if v == View::PullRequestFiles {
            KeyCommand::BackFromPullRequestFiles
        } else if v == View::CommentPresetPicker {
            KeyCommand::ShowView(View::Issues)
        } else if v == View::LabelPicker || v == View::AssigneePicker {
            KeyCommand::CancelPicker
        } else {
            KeyCommand::Nothing
        },
        KeyCode::Up => KeyCommand::MoveUp,
        KeyCode::Down => KeyCommand::MoveDown,
        _ => KeyCommand::Nothing,
    }
}

/// What a key press that reaches the keymap asks for, and the pending `g`
/// and `d` presses afterwards.
pub fn keymap_command(c: KeyContext, key: KeyPress) -> (r: KeyOutcome)
    ensures
        r == keymap_spec(c, key),
{
    let m = key.modifiers;
    let code = key.code;
    if m.control && code == KeyCode::Char('r') && c.view == View::RepoPicker {
        return KeyOutcome { command: KeyCommand::Rescan, pending_g: c.pending_g, pending_d: c.pending_d };
    }
    if m.control {
        if let Some(command) = focus_command_of(c.view, code) {
            return KeyOutcome { command, pending_g: c.pending_g, pending_d: c.pending_d };
        }
    }
    let g = c.pending_g && code == KeyCode::Char('g');
    let d = c.pending_d && code == KeyCode::Char('d');
    if code == KeyCode::Char('?') {
        return KeyOutcome { command: KeyCommand::ToggleHelp, pending_g: g, pending_d: d };
    }
    if c.help_visible && code == KeyCode::Esc {
        return KeyOutcome { command: KeyCommand::CloseHelp, pending_g: g, pending_d: d };
    }
    if code == KeyCode::Char('g') && is_no_mods(m) {
        if g {
            return KeyOutcome { command: KeyCommand::JumpTop, pending_g: false, pending_d: d };
        }
        return KeyOutcome { command: KeyCommand::Nothing, pending_g: true, pending_d: d };
    }
    if code == KeyCode::Char('d') && is_no_mods(m) && is_item_view(c.view) {
        if !c.has_issue {
            return KeyOutcome { command: KeyCommand::NoIssueSelected, pending_g: g, pending_d: false };
        }
        if c.issue_closed {
            return KeyOutcome { command: KeyCommand::IssueAlreadyClosed, pending_g: g, pending_d: false };
        }
        if d {
            return KeyOutcome { command: KeyCommand::Action(AppAction::CloseIssue), pending_g: g, pending_d: false };
        }
        return KeyOutcome { command: KeyCommand::Nothing, pending_g: g, pending_d: true };
    }
    KeyOutcome { command: main_command_of(c, key), pending_g: g, pending_d: d }
}

/// What enter (activating the highlighted thing) does in each view: pick
/// the highlighted repository, remote, item, preset or linked item; on an
/// item's page open its full comments (from the body of a pull request, or
/// from any pane of an issue but the body, which asks to focus the comments
/// pane first) or, from the side pane of a pull request, its changes; in
/// the review, focus the diff from the file list, else expand or shrink the diff.
pub open spec fn activation_spec(view: View, focus: Focus, item_is_pr: bool, review_focus: PullRequestReviewFocus) -> KeyCommand {
    if view == View::RepoPicker {
        KeyCommand::Action(AppAction::PickRepo)
    } else if view == View::RemoteChooser {
        KeyCommand::Action(AppAction::PickRemote)
    } else if view == View::Issues {
        KeyCommand::Action(AppAction::PickIssue)
    } else if view == View::IssueDetail {
        if focus == Focus::IssueBody {
            if item_is_pr { KeyCommand::OpenFullComments } else { KeyCommand::CommentsPaneHint }
        } else if item_is_pr && focus == Focus::IssueRecentComments {
            KeyCommand::ShowView(View::PullRequestFiles)
        } else {
            KeyCommand::OpenFullComments
        }
    } else if view == View::PullRequestFiles {
        if review_focus == PullRequestReviewFocus::Files {
            KeyCommand::FocusReviewDiff
        } else {
            KeyCommand::ToggleDiffExpanded
        }
    } else if view == View::CommentPresetPicker {
        KeyCommand::Action(AppAction::PickPreset)
    } else if view == View::LinkedPicker {
        KeyCommand::Action(AppAction::PickLinkedItem)
    } else {
        KeyCommand::Nothing
    }
}

/// What activating the highlighted thing does in `view`.
pub fn activation_command(view: View, focus: Focus, item_is_pr: bool, review_focus: PullRequestReviewFocus) -> (r:
    KeyCommand)
    ensures
        r == activation_spec(view, focus, item_is_pr, review_focus),
{
    match view {
        View::RepoPicker => KeyCommand::Action(AppAction::PickRepo),
        View::RemoteChooser => KeyCommand::Action(AppAction::PickRemote),
        View::Issues => KeyCommand::Action(AppAction::PickIssue),
        View::IssueDetail => if focus == Focus::IssueBody {
            if item_is_pr {
                KeyCommand::OpenFullComments
            } else {
                KeyCommand::CommentsPaneHint
            }
        } else if item_is_pr && focus == Focus::IssueRecentComments {
            KeyCommand::ShowView(View::PullRequestFiles)
        } else {
            KeyCommand::OpenFullComments
        },
        View::PullRequestFiles => if review_focus == PullRequestReviewFocus::Files {
            KeyCommand::FocusReviewDiff
        } else {
            KeyCommand::ToggleDiffExpanded
        },
        View::CommentPresetPicker => KeyCommand::Action(AppAction::PickPreset),
        View::LinkedPicker => KeyCommand::Action(AppAction::PickLinkedItem),
        _ => KeyCommand::Nothing,
    }
}

/// The status line that asks to focus the comments pane first.
pub fn comments_pane_hint() -> (r: &'static str)
    ensures
        r@ == "Focus comments pane (Ctrl+l), then press Enter to open full comments"@,
{
    "Focus comments pane (Ctrl+l), then press Enter to open full comments"
}

/// Pressing `g` twice jumps to the top: the first press (when none is
/// pending) only waits, and the second one jumps and clears the wait.
pub proof fn lemma_gg_jumps_to_top(c: KeyContext)
    ensures
        ({
            let g = KeyPress { code: KeyCode::Char('g'), modifiers: KeyMods { shift: false, control: false, alt: false, super_key: false, hyper: false, meta: false } };
            let first = keymap_spec(KeyContext { pending_g: false, ..c }, g);
            let second = keymap_spec(KeyContext { pending_g: first.pending_g, pending_d: first.pending_d, ..c }, g);
            &&& first.command == KeyCommand::Nothing && first.pending_g
            &&& second.command == KeyCommand::JumpTop && !second.pending_g
        }),
{
}

/// Pressing `d` twice on an open item in the views about it asks to close
/// it; the first press only waits. Without an item, or on a closed one,
/// the press is refused and nothing waits.
pub proof fn lemma_dd_closes_an_open_item(c: KeyContext)
    requires
        item_view(c.view),
    ensures
        ({
            let d = KeyPress { code: KeyCode::Char('d'), modifiers: KeyMods { shift: false, control: false, alt: false, super_key: false, hyper: false, meta: false } };
            let first = keymap_spec(KeyContext { pending_d: false, ..c }, d);
            let second = keymap_spec(KeyContext { pending_g: first.pending_g, pending_d: first.pending_d, ..c }, d);
            &&& c.has_issue && !c.issue_closed ==> first.command == KeyCommand::Nothing && first.pending_d
                && second.command == KeyCommand::Action(AppAction::CloseIssue) && !second.pending_d
            &&& !c.has_issue ==> first.command == KeyCommand::NoIssueSelected && !first.pending_d
            &&& c.has_issue && c.issue_closed ==> first.command == KeyCommand::IssueAlreadyClosed && !first.pending_d
        }),
{
}

} // verus!
