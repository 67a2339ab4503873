//! What an action asked for by a key or a click does: the decisions the
//! event loop makes before it reads the cache, calls GitHub or opens the
//! browser. `action_step` sets the status line and names the step the
//! loop performs next.
use vstd::prelude::*;

use crate::actions::{permission_step, PermissionStep};
use crate::app::{AppAction, EditorMode, View};
use crate::events::LinkedLookupTarget;
use vstd::view::View as _;

verus! {

/// An item an action can be for: its id, number and whether it is a pull
/// request.
#[derive(Debug, Clone, Copy, PartialEq, Eq, Structural)]
pub struct ItemRef {
    pub id: i64,
    pub number: i64,
    pub is_pr: bool,
}

/// What actions are decided against.
#[derive(Debug, Clone, PartialEq, Eq)]
pub struct ActionState {
    pub view: View,
    /// The highlighted row of the item list.
    pub selected_row: Option<ItemRef>,
    /// The item in view (`current_or_selected_issue`).
    pub item: Option<ItemRef>,
    /// The item an issue action is for (`selected_issue_for_action`).
    pub action_target: Option<ItemRef>,
    /// A repository is in view.
    pub has_repo: bool,
    /// The repository picker and the remote chooser have a highlighted row.
    pub repo_selected: bool,
    pub remote_selected: bool,
    /// A comment, a review comment and a diff line are selected.
    pub comment_selected: bool,
    pub review_comment_selected: bool,
    pub review_target_selected: bool,
    /// The known permission to edit labels and assignees, and whether the
    /// permissions are being fetched.
    pub metadata_editable: Option<bool>,
    pub permissions_syncing: bool,
    /// The cached links of the item in view: how many, and the first.
    pub cached_links: u64,
    pub first_link: i64,
    pub status: String,
}

/// What the event loop does next.
#[derive(Debug, Clone, Copy, PartialEq, Eq, Structural)]
pub enum ActionStep {
    Nothing,
    /// Load the highlighted repository's issues and show them.
    LoadRepo,
    /// Load the highlighted remote's issues and show them.
    LoadRemote,
    /// Open the item: show it, load its comments and, for a pull request,
    /// its files and review comments.
    OpenItem(ItemRef),
    /// Open the item's page in the browser.
    OpenInBrowser(ItemRef),
    /// Check the pull request out.
    Checkout(i64),
    /// Open the first cached linked item: pull request (`true`) or issue, in
    /// the interface (`true`) or the browser.
    LinkedOpen(bool, bool, i64),
    /// Ask GitHub for the linked items: pull requests (`true`) or issues.
    LinkedLookup(bool, LinkedLookupTarget),
    /// Open the highlighted linked item.
    OpenSelectedLinked,
    /// Open the editor in this mode, returning to this view.
    OpenEditor(EditorMode, View),
    /// Make the item current and open the comment editor on it, returning
    /// to this view.
    CommentOn(ItemRef, View),
    /// Make the item current and open the label picker (`true`) or the
    /// assignee picker, returning to this view.
    OpenMetadataPicker(bool, ItemRef, View),
    /// Fetch the repository's permissions.
    RequestPermissions,
    /// Make the item current (when there is one) and show the closing
    /// presets.
    ShowClosePresets(Option<ItemRef>),
    /// Save the preset written in the editor, then show the presets.
    SavePreset,
    /// Hand the action to the helper that sends it to GitHub.
    Send(AppAction),
}

/// The outcome of an action: the status line it shows (none: it stays)
/// and the next step.
pub struct ActionOutcome {
    pub status: Option<Seq<char>>,
    pub step: ActionStep,
}

/// Only a status line.
pub open spec fn says(t: Seq<char>) -> ActionOutcome {
    ActionOutcome { status: Some(t), step: ActionStep::Nothing }
}

/// Only a step.
pub open spec fn does(step: ActionStep) -> ActionOutcome {
    ActionOutcome { status: None, step }
}

/// Opening the item linked to the one in view: the pull requests linked to
/// an issue (`pull_requests`) or the issues linked to a pull request, in
/// the interface or the browser. Cached links are used first (the first
/// of them opens; in the browser only with a repository in view);
/// otherwise the links are looked up.
pub open spec fn linked_outcome(s: ActionState, pull_requests: bool, tui: bool) -> ActionOutcome {
    let target = if tui { LinkedLookupTarget::Tui } else { LinkedLookupTarget::Browser };
    match s.item {
        None => says("No issue selected"@),
        Some(it) => if it.is_pr != pull_requests && s.cached_links > 0 {
            if !tui && !s.has_repo {
                says("No repo selected"@)
            } else {
                does(ActionStep::LinkedOpen(pull_requests, tui, s.first_link))
            }
        } else if it.is_pr == pull_requests {
            if pull_requests {
                says("Selected item is already a pull request"@)
            } else {
                says("Selected item is not a pull request"@)
            }
        } else if !s.has_repo {
            says("No repo selected"@)
        } else {
            ActionOutcome {
                status: Some(
                    if pull_requests {
                        if tui {
                            "Looking up linked pull request for TUI"@
                        } else {
                            "Looking up linked pull request for browser"@
                        }
                    } else if tui {
                        "Looking up linked issue for TUI"@
                    } else {
                        "Looking up linked issue for browser"@
                    },
                ),
                step: ActionStep::LinkedLookup(pull_requests, target),
            }
        },
    }
}

/// Editing labels (`labels`) or assignees: only with the permission; an
/// unknown permission is fetched first.
pub open spec fn metadata_outcome(s: ActionState, labels: bool) -> ActionOutcome {
    match s.metadata_editable {
        Some(false) => says("No permission to edit labels/assignees in this repo"@),
        None => ActionOutcome {
            status: Some(
                if s.permissions_syncing {
                    "Checking repo permissions"@
                } else {
                    "Checking repo permissions, try again in a moment"@
                },
            ),
            step: ActionStep::RequestPermissions,
        },
        Some(true) => match s.action_target {
            Some(it) => does(ActionStep::OpenMetadataPicker(labels, it, s.view)),
            None => says("No issue selected"@),
        },
    }
}

/// What an action does in state `s`.
pub open spec fn action_spec(s: ActionState, a: AppAction) -> ActionOutcome {
    match a {
        AppAction::PickRepo => does(if s.repo_selected { ActionStep::LoadRepo } else { ActionStep::Nothing }),
        AppAction::PickRemote => does(if s.remote_selected { ActionStep::LoadRemote } else { ActionStep::Nothing }),
        AppAction::PickIssue => does(
            match s.selected_row {
                Some(it) => ActionStep::OpenItem(it),
                None => ActionStep::Nothing,
            },
        ),
        AppAction::OpenInBrowser => match s.item {
            Some(it) => if s.has_repo { does(ActionStep::OpenInBrowser(it)) } else { says("No issue selected"@) },
            None => says("No issue selected"@),
        },
        AppAction::CheckoutPullRequest => match s.item {
            None => says("No pull request selected"@),
            Some(it) => if it.is_pr {
                does(ActionStep::Checkout(it.number))
            } else {
                says("Selected item is not a pull request"@)
            },
        },
        AppAction::OpenLinkedPullRequestInBrowser => linked_outcome(s, true, false),
        AppAction::OpenLinkedPullRequestInTui => linked_outcome(s, true, true),
        AppAction::OpenLinkedIssueInBrowser => linked_outcome(s, false, false),
        AppAction::OpenLinkedIssueInTui => linked_outcome(s, false, true),
        AppAction::PickLinkedItem => does(ActionStep::OpenSelectedLinked),
        AppAction::AddIssueComment => match s.action_target {
            Some(it) => does(ActionStep::CommentOn(it, s.view)),
            None => says("No issue selected"@),
        },
        AppAction::EditIssueComment => if s.comment_selected {
            does(ActionStep::OpenEditor(EditorMode::EditComment, s.view))
        } else {
            says("No comment selected"@)
        },
        AppAction::AddPullRequestReviewComment => if s.review_target_selected {
            does(ActionStep::OpenEditor(EditorMode::AddPullRequestReviewComment, s.view))
        } else {
            says("Select a diff line to comment on"@)
        },
        AppAction::EditPullRequestReviewComment => if s.review_comment_selected {
            does(ActionStep::OpenEditor(EditorMode::EditPullRequestReviewComment, s.view))
        } else {
            says("No review comment selected"@)
        },
        AppAction::EditLabels => metadata_outcome(s, true),
        AppAction::EditAssignees => metadata_outcome(s, false),
        AppAction::CloseIssue => does(ActionStep::ShowClosePresets(s.action_target)),
        AppAction::SavePreset => does(ActionStep::SavePreset),
        AppAction::CreateIssue => does(ActionStep::OpenEditor(EditorMode::CreateIssue, s.view)),
        _ => does(ActionStep::Send(a)),
    }
}

/// Labels and assignees are edited only with the permission to: their
/// picker opens only when the permission is known to be granted, and an
/// unknown permission is fetched instead.
pub proof fn lemma_metadata_editing_needs_permission(s: ActionState, a: AppAction)
    requires
        a == AppAction::EditLabels || a == AppAction::EditAssignees,
    ensures
        action_spec(s, a).step matches ActionStep::OpenMetadataPicker(..) ==> s.metadata_editable == Some(true),
        s.metadata_editable is None ==> action_spec(s, a).step == ActionStep::RequestPermissions,
{
}

/// Known links are not looked up again: with links of the item in view in
/// the cache, opening a linked item opens the first of them.
pub proof fn lemma_cached_links_are_not_looked_up(s: ActionState, pull_requests: bool, tui: bool)
    requires
        s.item matches Some(it) && it.is_pr != pull_requests,
        s.cached_links > 0,
    ensures
        !(linked_outcome(s, pull_requests, tui).step is LinkedLookup),
        tui || s.has_repo ==> linked_outcome(s, pull_requests, tui).step == ActionStep::LinkedOpen(
            pull_requests,
            tui,
            s.first_link,
        ),
{
}

/// Decides an action: shows the status it calls for (`action_spec`) and
/// returns the step the event loop performs next; nothing else of the
/// state changes.
pub fn action_step(state: &mut ActionState, action: AppAction) -> (r: ActionStep)
    ensures
        r == action_spec(*old(state), action).step,
        match action_spec(*old(state), action).status {
            Some(t) => final(state).status@ == t,
            None => final(state).status@ == old(state).status@,
        },
        *final(state) == (ActionState { status: final(state).status, ..*old(state) }),
{
    let (status, step): (Option<&'static str>, ActionStep) = match action {
        AppAction::PickRepo => (None, if state.repo_selected { ActionStep::LoadRepo } else { ActionStep::Nothing }),
        AppAction::PickRemote => (None, if state.remote_selected { ActionStep::LoadRemote } else { ActionStep::Nothing }),
        AppAction::PickIssue => (
            None,
            match state.selected_row {
                Some(it) => ActionStep::OpenItem(it),
                None => ActionStep::Nothing,
            },
        ),
        AppAction::OpenInBrowser => match state.item {
            Some(it) => if state.has_repo {
                (None, ActionStep::OpenInBrowser(it))
            } else {
                (Some("No issue selected"), ActionStep::Nothing)
            },
            None => (Some("No issue selected"), ActionStep::Nothing),
        },
        AppAction::CheckoutPullRequest => match state.item {
            None => (Some("No pull request selected"), ActionStep::Nothing),
            Some(it) => if it.is_pr {
                (None, ActionStep::Checkout(it.number))
            } else {
                (Some("Selected item is not a pull request"), ActionStep::Nothing)
            },
        },
        AppAction::OpenLinkedPullRequestInBrowser => linked(state, true, false),
        AppAction::OpenLinkedPullRequestInTui => linked(state, true, true),
        AppAction::OpenLinkedIssueInBrowser => linked(state, false, false),
        AppAction::OpenLinkedIssueInTui => linked(state, false, true),
        AppAction::PickLinkedItem => (None, ActionStep::OpenSelectedLinked),
        AppAction::AddIssueComment => match state.action_target {
            Some(it) => (None, ActionStep::CommentOn(it, state.view)),
            None => (Some("No issue selected"), ActionStep::Nothing),
        },
        AppAction::EditIssueComment => if state.comment_selected {
            (None, ActionStep::OpenEditor(EditorMode::EditComment, state.view))
        } else {
            (Some("No comment selected"), ActionStep::Nothing)
        },
        AppAction::AddPullRequestReviewComment => if state.review_target_selected {
            (None, ActionStep::OpenEditor(EditorMode::AddPullRequestReviewComment, state.view))
        } else {
            (Some("Select a diff line to comment on"), ActionStep::Nothing)
        },
        AppAction::EditPullRequestReviewComment => if state.review_comment_selected {
            (None, ActionStep::OpenEditor(EditorMode::EditPullRequestReviewComment, state.view))
        } else {
            (Some("No review comment selected"), ActionStep::Nothing)
        },
        AppAction::EditLabels => metadata(state, true),
        AppAction::EditAssignees => metadata(state, false),
        AppAction::CloseIssue => (None, ActionStep::ShowClosePresets(state.action_target)),
        AppAction::SavePreset => (None, ActionStep::SavePreset),
        AppAction::CreateIssue => (None, ActionStep::OpenEditor(EditorMode::CreateIssue, state.view)),
        _ => (None, ActionStep::Send(action)),
    };
    match status {
        Some(t) => {
            state.status = String::from_str(t);
        },
        None => {},
    }
    step
}

/// The status and step of opening a linked item (see `linked_outcome`).
fn linked(s: &ActionState, pull_requests: bool, tui: bool) -> (r: (Option<&'static str>, ActionStep))
    ensures
        r.1 == linked_outcome(*s, pull_requests, tui).step,
        match linked_outcome(*s, pull_requests, tui).status {
            Some(t) => r.0 matches Some(x) && x@ == t,
            None => r.0 is None,
        },
{
    let target = if tui { LinkedLookupTarget::Tui } else { LinkedLookupTarget::Browser };
    match s.item {
        None => (Some("No issue selected"), ActionStep::Nothing),
        Some(it) => if it.is_pr != pull_requests && s.cached_links > 0 {
            if !tui && !s.has_repo {
                (Some("No repo selected"), ActionStep::Nothing)
            } else {
                (None, ActionStep::LinkedOpen(pull_requests, tui, s.first_link))
            }
        } else if it.is_pr == pull_requests {
            if pull_requests {
                (Some("Selected item is already a pull request"), ActionStep::Nothing)
            } else {
                (Some("Selected item is not a pull request"), ActionStep::Nothing)
            }
        } else if !s.has_repo {
            (Some("No repo selected"), ActionStep::Nothing)
        } else {
            let t = if pull_requests {
                if tui {
                    "Looking up linked pull request for TUI"
                } else {
                    "Looking up linked pull request for browser"
                }
            } else if tui {
                "Looking up linked issue for TUI"
            } else {
                "Looking up linked issue for browser"
            };
            (Some(t), ActionStep::LinkedLookup(pull_requests, target))
        },
    }
}

/// The status and step of editing labels or assignees (see `metadata_outcome`).
fn metadata(s: &ActionState, labels: bool) -> (r: (Option<&'static str>, ActionStep))
    ensures
        r.1 == metadata_outcome(*s, labels).step,
        match metadata_outcome(*s, labels).status {
            Some(t) => r.0 matches Some(x) && x@ == t,
            None => r.0 is None,
        },
{
    match permission_step(s.metadata_editable) {
        PermissionStep::Denied => (Some("No permission to edit labels/assignees in this repo"), ActionStep::Nothing),
        PermissionStep::Sync => {
            let t = if s.permissions_syncing {
                "Checking repo permissions"
            } else {
                "Checking repo permissions, try again in a moment"
            };
            (Some(t), ActionStep::RequestPermissions)
        },
        PermissionStep::Allowed => match s.action_target {
            Some(it) => (None, ActionStep::OpenMetadataPicker(labels, it, s.view)),
            None => (Some("No issue selected"), ActionStep::Nothing),
        },
    }
}

} // verus!
