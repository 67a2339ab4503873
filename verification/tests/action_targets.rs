use blippy::actions::{
    assignee_options_for_repo, current_or_selected_issue, current_view_issue_is_closed,
    current_view_issue_is_pull_request, issue_number, issue_url, label_options_for_repo,
    merge_denied_status, metadata_denied_status, permission_step, permission_sync_status, pull_request_step,
    pull_request_step_status, reopen_status, reopen_step, selected_issue_field, selected_issue_for_action,
    PermissionStep, PullRequestStep, ReopenStep,
};
use blippy::app::{IssueFilter, View, WorkItemMode};
use blippy::pending::PendingIssueActions;
use blippy::issue_list::IssueList;
use blippy::issues::IssueRow;

fn row(id: i64, number: i64, title: &str, is_pr: bool) -> IssueRow {
    IssueRow {
        id,
        repo_id: 1,
        number,
        state: "open".to_string(),
        title: title.to_string(),
        body: String::new(),
        labels: String::new(),
        assignees: String::new(),
        comments_count: 0,
        updated_at: None,
        is_pr,
    }
}

#[test]
fn issue_url_uses_pull_route_for_pull_requests() {
    let mut list = IssueList::new();
    list.set_work_item_mode(WorkItemMode::PullRequests);
    list.set_issues(vec![row(10, 42, "Improve docs", true)]);
    let current = list.issues().iter().find(|issue| issue.id == 10);
    let issue = current_or_selected_issue(View::IssueDetail, list.selected_issue_row(), current);
    let url = issue_url(Some("acme"), Some("blippy"), issue).expect("url");
    assert_eq!(url, "https://github.com/acme/blippy/pull/42");
}

#[test]
fn issue_url_uses_issue_route_for_issues() {
    let mut list = IssueList::new();
    list.set_issues(vec![row(11, 7, "Bug", false)]);
    let issue = current_or_selected_issue(View::Issues, list.selected_issue_row(), None);
    let url = issue_url(Some("acme"), Some("blippy"), issue).expect("url");
    assert_eq!(url, "https://github.com/acme/blippy/issues/7");
}

#[test]
fn issue_url_needs_owner_repo_and_item() {
    let item = row(1, 3, "x", false);
    assert_eq!(issue_url(None, Some("blippy"), Some(&item)), None);
    assert_eq!(issue_url(Some("acme"), None, Some(&item)), None);
    assert_eq!(issue_url(Some("acme"), Some("blippy"), None), None);
}

#[test]
fn repo_options_are_distinct_and_case_insensitively_sorted() {
    let issues = vec![
        IssueRow { labels: "bug, Docs".to_string(), assignees: "@sam, alex".to_string(), ..row(1, 1, "a", false) },
        IssueRow { labels: "docs,,auth ".to_string(), assignees: "Alex,@@jo".to_string(), ..row(2, 2, "b", false) },
    ];
    assert_eq!(label_options_for_repo(&issues), vec!["auth", "bug", "Docs"]);
    assert_eq!(assignee_options_for_repo(&issues), vec!["alex", "jo", "sam"]);
    assert!(label_options_for_repo(&[]).is_empty());
}

#[test]
fn action_targets_follow_the_view() {
    let listed = IssueRow { state: "closed".to_string(), labels: "bug".to_string(), ..row(1, 5, "listed", false) };
    let opened = IssueRow { assignees: "sam".to_string(), ..row(2, 6, "opened", true) };
    assert_eq!(
        selected_issue_for_action(View::Issues, Some(&listed), Some(&opened), Some(2), Some(6)),
        Some((1, 5, Some("closed".to_string())))
    );
    assert_eq!(
        selected_issue_for_action(View::IssueDetail, Some(&listed), Some(&opened), Some(2), Some(6)),
        Some((2, 6, Some("open".to_string())))
    );
    assert_eq!(selected_issue_for_action(View::PullRequestFiles, None, None, Some(2), Some(6)), Some((2, 6, None)));
    assert_eq!(selected_issue_for_action(View::RepoPicker, Some(&listed), Some(&opened), Some(2), Some(6)), None);

    assert_eq!(selected_issue_field(View::Issues, Some(&listed), Some(&opened), true), Some("bug".to_string()));
    assert_eq!(selected_issue_field(View::CommentEditor, Some(&listed), Some(&opened), false), Some("sam".to_string()));
    assert_eq!(selected_issue_field(View::LabelPicker, Some(&listed), Some(&opened), true), None);

    assert_eq!(issue_number(View::Issues, Some(6), Some(&listed)), Some(5));
    assert_eq!(issue_number(View::LabelPicker, Some(6), Some(&listed)), Some(6));
    assert_eq!(issue_number(View::RemoteChooser, Some(6), Some(&listed)), None);
}

#[test]
fn merge_pull_request_checks_permissions() {
    assert_eq!(permission_step(Some(false)), PermissionStep::Denied);
    assert_eq!(merge_denied_status(), "No permission to merge pull requests in this repo");
}

#[test]
fn permission_checks_wait_for_unknown_permissions() {
    assert_eq!(permission_step(Some(true)), PermissionStep::Allowed);
    assert_eq!(permission_step(None), PermissionStep::Sync);
    assert_eq!(permission_sync_status(true), "Checking repo permissions");
    assert_eq!(permission_sync_status(false), "Checking repo permissions, try again in a moment");
    assert_eq!(metadata_denied_status(), "No permission to edit labels/assignees in this repo");
}

#[test]
fn the_view_decides_which_item_is_closed_or_a_pull_request() {
    let listed = IssueRow { state: "merged".to_string(), ..row(1, 5, "listed", true) };
    let opened = row(2, 6, "opened", false);
    assert!(current_view_issue_is_closed(View::Issues, Some(&listed), Some(&opened)));
    assert!(!current_view_issue_is_closed(View::IssueDetail, Some(&listed), Some(&opened)));
    assert!(current_view_issue_is_pull_request(View::Issues, Some(&listed), Some(&opened)));
    assert!(!current_view_issue_is_pull_request(View::PullRequestFiles, Some(&listed), Some(&opened)));
    assert!(!current_view_issue_is_closed(View::IssueDetail, Some(&listed), None));
}

#[test]
fn reopen_issue_blocks_merged_pull_requests() {
    let mut list = IssueList::new();
    list.set_work_item_mode(WorkItemMode::PullRequests);
    list.set_issue_filter(IssueFilter::Closed);
    list.set_issues(vec![IssueRow {
        id: 30,
        repo_id: 1,
        number: 88,
        state: "merged".to_string(),
        title: "Merged PR".to_string(),
        body: String::new(),
        labels: String::new(),
        assignees: String::new(),
        comments_count: 0,
        updated_at: None,
        is_pr: true,
    }]);
    let pending = PendingIssueActions::new();

    let target = selected_issue_for_action(View::Issues, list.selected_issue_row(), None, None, None);
    let step = reopen_step(&target);

    assert_eq!(step, ReopenStep::Merged);
    assert_eq!(reopen_status(step), "Merged pull requests cannot be reopened");
    assert_eq!(pending.pending_issue_badge(88), None);
}

#[test]
fn merge_pull_request_blocks_non_pr_items() {
    let mut list = IssueList::new();
    list.set_issues(vec![IssueRow {
        id: 31,
        repo_id: 1,
        number: 90,
        state: "open".to_string(),
        title: "Issue".to_string(),
        body: String::new(),
        labels: String::new(),
        assignees: String::new(),
        comments_count: 0,
        updated_at: None,
        is_pr: false,
    }]);
    let pending = PendingIssueActions::new();

    let item = current_or_selected_issue(View::Issues, list.selected_issue_row(), None);
    let step = pull_request_step(item);

    assert_eq!(step, PullRequestStep::NotPullRequest);
    assert_eq!(pull_request_step_status(step), Some("Selected item is not a pull request"));
    assert_eq!(pending.pending_issue_badge(90), None);
}

#[test]
fn reopen_steps_cover_every_case() {
    assert_eq!(reopen_step(&None), ReopenStep::NoItem);
    assert_eq!(reopen_step(&Some((1, 2, Some("OPEN".to_string())))), ReopenStep::AlreadyOpen);
    assert_eq!(reopen_step(&Some((1, 2, Some("closed".to_string())))), ReopenStep::Reopen(1, 2));
    assert_eq!(reopen_step(&Some((1, 2, None))), ReopenStep::Reopen(1, 2));
    assert_eq!(reopen_status(ReopenStep::NoItem), "No issue selected");
    assert_eq!(reopen_status(ReopenStep::AlreadyOpen), "Issue is already open");
    assert_eq!(reopen_status(ReopenStep::Reopen(1, 2)), "Reopening issue");
    assert_eq!(pull_request_step(None), PullRequestStep::NoItem);
    assert_eq!(pull_request_step_status(PullRequestStep::NoItem), Some("No pull request selected"));
    let pr = row(3, 7, "pr", true);
    assert_eq!(pull_request_step(Some(&pr)), PullRequestStep::Go(7));
    assert_eq!(pull_request_step_status(PullRequestStep::Go(7)), None);
}
