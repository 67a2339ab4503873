use blippy::app::{AppAction, EditorMode, View};
use blippy::dispatch::{action_step, ActionState, ActionStep, ItemRef};
use blippy::events::LinkedLookupTarget;

fn issue(number: i64) -> ItemRef {
    ItemRef { id: number * 10, number, is_pr: false }
}

fn pull_request(number: i64) -> ItemRef {
    ItemRef { id: number * 10, number, is_pr: true }
}

fn state() -> ActionState {
    ActionState {
        view: View::IssueDetail,
        selected_row: Some(issue(4)),
        item: Some(issue(4)),
        action_target: Some(issue(4)),
        has_repo: true,
        repo_selected: true,
        remote_selected: false,
        comment_selected: false,
        review_comment_selected: false,
        review_target_selected: false,
        metadata_editable: Some(true),
        permissions_syncing: false,
        cached_links: 0,
        first_link: 0,
        status: "ready".to_string(),
    }
}

#[test]
fn editing_labels_is_gated_by_permission() {
    let mut s = state();
    s.metadata_editable = Some(false);
    assert_eq!(action_step(&mut s, AppAction::EditLabels), ActionStep::Nothing);
    assert_eq!(s.status, "No permission to edit labels/assignees in this repo");

    let mut s = state();
    s.metadata_editable = None;
    s.permissions_syncing = true;
    assert_eq!(action_step(&mut s, AppAction::EditAssignees), ActionStep::RequestPermissions);
    assert_eq!(s.status, "Checking repo permissions");

    let mut s = state();
    s.metadata_editable = None;
    assert_eq!(action_step(&mut s, AppAction::EditLabels), ActionStep::RequestPermissions);
    assert_eq!(s.status, "Checking repo permissions, try again in a moment");

    let mut s = state();
    assert_eq!(
        action_step(&mut s, AppAction::EditLabels),
        ActionStep::OpenMetadataPicker(true, issue(4), View::IssueDetail)
    );
    assert_eq!(s.status, "ready");

    let mut s = state();
    s.action_target = None;
    assert_eq!(action_step(&mut s, AppAction::EditAssignees), ActionStep::Nothing);
    assert_eq!(s.status, "No issue selected");
}

#[test]
fn linked_items_come_from_the_cache_first() {
    let mut s = state();
    s.cached_links = 2;
    s.first_link = 76;
    assert_eq!(action_step(&mut s, AppAction::OpenLinkedPullRequestInTui), ActionStep::LinkedOpen(true, true, 76));

    let mut s = state();
    s.cached_links = 1;
    s.first_link = 77;
    assert_eq!(
        action_step(&mut s, AppAction::OpenLinkedPullRequestInBrowser),
        ActionStep::LinkedOpen(true, false, 77)
    );

    let mut s = state();
    s.cached_links = 1;
    s.has_repo = false;
    assert_eq!(action_step(&mut s, AppAction::OpenLinkedPullRequestInBrowser), ActionStep::Nothing);
    assert_eq!(s.status, "No repo selected");
}

#[test]
fn linked_items_are_looked_up_when_not_cached() {
    let mut s = state();
    assert_eq!(
        action_step(&mut s, AppAction::OpenLinkedPullRequestInTui),
        ActionStep::LinkedLookup(true, LinkedLookupTarget::Tui)
    );
    assert_eq!(s.status, "Looking up linked pull request for TUI");

    let mut s = state();
    s.item = Some(pull_request(9));
    assert_eq!(
        action_step(&mut s, AppAction::OpenLinkedIssueInBrowser),
        ActionStep::LinkedLookup(false, LinkedLookupTarget::Browser)
    );
    assert_eq!(s.status, "Looking up linked issue for browser");

    let mut s = state();
    s.item = Some(pull_request(9));
    assert_eq!(action_step(&mut s, AppAction::OpenLinkedPullRequestInTui), ActionStep::Nothing);
    assert_eq!(s.status, "Selected item is already a pull request");

    let mut s = state();
    assert_eq!(action_step(&mut s, AppAction::OpenLinkedIssueInTui), ActionStep::Nothing);
    assert_eq!(s.status, "Selected item is not a pull request");

    let mut s = state();
    s.item = None;
    assert_eq!(action_step(&mut s, AppAction::OpenLinkedIssueInTui), ActionStep::Nothing);
    assert_eq!(s.status, "No issue selected");
}

#[test]
fn checkout_needs_a_pull_request() {
    let mut s = state();
    assert_eq!(action_step(&mut s, AppAction::CheckoutPullRequest), ActionStep::Nothing);
    assert_eq!(s.status, "Selected item is not a pull request");

    let mut s = state();
    s.item = Some(pull_request(12));
    assert_eq!(action_step(&mut s, AppAction::CheckoutPullRequest), ActionStep::Checkout(12));
    assert_eq!(s.status, "ready");

    let mut s = state();
    s.item = None;
    assert_eq!(action_step(&mut s, AppAction::CheckoutPullRequest), ActionStep::Nothing);
    assert_eq!(s.status, "No pull request selected");
}

#[test]
fn picking_opens_the_highlighted_row() {
    let mut s = state();
    assert_eq!(action_step(&mut s, AppAction::PickIssue), ActionStep::OpenItem(issue(4)));
    assert_eq!(action_step(&mut s, AppAction::PickRepo), ActionStep::LoadRepo);
    assert_eq!(action_step(&mut s, AppAction::PickRemote), ActionStep::Nothing);
    s.selected_row = None;
    assert_eq!(action_step(&mut s, AppAction::PickIssue), ActionStep::Nothing);
    assert_eq!(s.status, "ready");
}

#[test]
fn editors_open_only_with_a_target() {
    let mut s = state();
    assert_eq!(action_step(&mut s, AppAction::AddIssueComment), ActionStep::CommentOn(issue(4), View::IssueDetail));
    assert_eq!(action_step(&mut s, AppAction::EditIssueComment), ActionStep::Nothing);
    assert_eq!(s.status, "No comment selected");
    assert_eq!(action_step(&mut s, AppAction::AddPullRequestReviewComment), ActionStep::Nothing);
    assert_eq!(s.status, "Select a diff line to comment on");
    s.review_comment_selected = true;
    assert_eq!(
        action_step(&mut s, AppAction::EditPullRequestReviewComment),
        ActionStep::OpenEditor(EditorMode::EditPullRequestReviewComment, View::IssueDetail)
    );
    assert_eq!(action_step(&mut s, AppAction::CloseIssue), ActionStep::ShowClosePresets(Some(issue(4))));
    assert_eq!(action_step(&mut s, AppAction::ReopenIssue), ActionStep::Send(AppAction::ReopenIssue));
}
