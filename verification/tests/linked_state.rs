use blippy::app::{IssueFilter, View, WorkItemMode};
use blippy::issue_list::IssueList;
use blippy::issues::IssueRow;
use blippy::linked::{LinkedPicker, LinkedPickerTarget, LinkedState};

fn row(id: i64, number: i64, state: &str, title: &str, is_pr: bool) -> IssueRow {
    IssueRow {
        id,
        repo_id: 1,
        number,
        state: state.to_string(),
        title: title.to_string(),
        body: String::new(),
        labels: String::new(),
        assignees: String::new(),
        comments_count: 0,
        updated_at: None,
        is_pr,
    }
}

#[test]
fn found_links_go_both_ways_once_each() {
    let mut linked = LinkedState::new();
    linked.set_linked_pull_requests(7, vec![42, 84, 42]);
    assert_eq!(linked.linked_pull_requests_for_issue(7), vec![42, 84]);
    assert_eq!(linked.linked_issues_for_pull_request(42), vec![7]);
    assert_eq!(linked.linked_issues_for_pull_request(84), vec![7]);

    linked.set_linked_pull_requests(8, vec![42]);
    assert_eq!(linked.linked_issues_for_pull_request(42), vec![7, 8]);
    linked.set_linked_pull_requests(8, vec![42]);
    assert_eq!(linked.linked_issues_for_pull_request(42), vec![7, 8]);

    linked.set_linked_issues_for_pull_request(100, vec![9]);
    assert_eq!(linked.linked_pull_requests_for_issue(9), vec![100]);
    assert_eq!(linked.linked_issue_for_pull_request(100), Some(9));
    assert_eq!(linked.linked_issue_for_pull_request(101), None);
    assert!(linked.linked_pull_requests_for_issue(1).is_empty());
}

#[test]
fn lookups_start_once_and_end_with_the_answer() {
    let mut linked = LinkedState::new();
    assert!(linked.begin_linked_pull_request_lookup(7));
    assert!(!linked.begin_linked_pull_request_lookup(7));
    linked.set_linked_pull_requests(7, Vec::new());
    assert!(linked.linked_pull_request_known(7));
    assert_eq!(linked.linked_pull_request_for_issue(7), None);
    assert!(!linked.begin_linked_pull_request_lookup(7));

    assert!(linked.begin_linked_issue_lookup(42));
    linked.end_linked_issue_lookup(42);
    assert!(linked.begin_linked_issue_lookup(42));
    linked.set_linked_pull_requests(8, vec![42]);
    assert!(linked.linked_issue_known(42));
    assert!(!linked.begin_linked_issue_lookup(42));
}

#[test]
fn navigation_origin_returns_to_the_pull_request() {
    let mut list = IssueList::new();
    list.set_work_item_mode(WorkItemMode::PullRequests);
    list.set_issues(vec![row(5, 9, "open", "PR source", true), row(6, 101, "open", "Linked issue", false)]);
    let mut linked = LinkedState::new();
    linked.capture_linked_navigation_origin(list.selected_issue_row());
    assert_eq!(linked.navigation_origin(), Some((9, WorkItemMode::PullRequests)));

    list.set_work_item_mode(WorkItemMode::Issues);
    assert!(list.select_issue_by_number(101));

    let (found, status) = linked.restore_linked_navigation_origin(&mut list);
    assert!(found);
    assert_eq!(status.as_deref(), Some("Returned to #9"));
    assert_eq!(list.work_item_mode(), WorkItemMode::PullRequests);
    assert_eq!(list.selected_issue_row().map(|issue| issue.number), Some(9));
    assert_eq!(linked.navigation_origin(), None);
    assert_eq!(linked.restore_linked_navigation_origin(&mut list), (false, None));
}

#[test]
fn navigation_origin_looks_among_closed_items_too() {
    let mut list = IssueList::new();
    list.set_issues(vec![row(1, 3, "closed", "Closed one", false), row(2, 4, "open", "Open one", false)]);
    let mut linked = LinkedState::new();
    linked.capture_linked_navigation_origin(Some(&row(1, 3, "closed", "Closed one", false)));
    let (found, status) = linked.restore_linked_navigation_origin(&mut list);
    assert!(found);
    assert_eq!(status.as_deref(), Some("Returned to #3"));
    assert_eq!(list.issue_filter(), IssueFilter::Closed);

    linked.capture_linked_navigation_origin(Some(&row(9, 77, "open", "Gone", false)));
    let (found, status) = linked.restore_linked_navigation_origin(&mut list);
    assert!(!found);
    assert_eq!(status.as_deref(), Some("Could not return to #77"));
    linked.clear_linked_navigation_origin();
    assert_eq!(linked.navigation_origin(), None);
}

#[test]
fn picker_reports_its_target_and_clamps_the_highlight() {
    let mut picker = LinkedPicker::new();
    assert_eq!(picker.linked_picker_title(), "Choose Linked Item");
    assert!(!picker.open_linked_picker(View::Issues, LinkedPickerTarget::IssueTui, Vec::new(), &[], None));
    assert!(picker.open_linked_picker(View::IssueComments, LinkedPickerTarget::PullRequestBrowser, vec![3, 4, 3, 5], &[], None));
    assert_eq!(picker.linked_picker_numbers(), vec![3, 4, 5]);
    assert_eq!(picker.linked_picker_target(), Some(LinkedPickerTarget::PullRequestBrowser));
    assert_eq!(picker.linked_picker_cancel_view(), View::IssueComments);
    assert_eq!(picker.linked_picker_title(), "Open Linked Pull Request (Web)");
    assert_eq!(picker.linked_picker_labels(), vec!["#3", "#4", "#5"]);
    picker.set_selected_linked_picker_index(9);
    assert_eq!(picker.selected_linked_picker_index(), 2);
    picker.jump_linked_picker_selection(true);
    assert_eq!(picker.selected_linked_picker_number(), Some(3));
    picker.jump_linked_picker_selection(false);
    assert_eq!(picker.selected_linked_picker_number(), Some(5));
    picker.move_linked_picker_selection(false);
    assert_eq!(picker.selected_linked_picker_number(), Some(4));
}

#[test]
fn a_pull_request_knows_its_linked_issue() {
    let mut linked = LinkedState::new();
    let pr = row(5, 9, "open", "PR", true);
    assert!(!linked.selected_pull_request_has_known_linked_issue(Some(&pr)));
    linked.set_linked_issues_for_pull_request(9, vec![3]);
    assert!(linked.selected_pull_request_has_known_linked_issue(Some(&pr)));
    assert!(!linked.selected_issue_has_known_linked_pr(Some(&pr)));
    assert!(!linked.selected_pull_request_has_known_linked_issue(None));

    assert!(linked.begin_linked_pull_request_lookup(11));
    linked.end_linked_pull_request_lookup(11);
    assert!(linked.begin_linked_pull_request_lookup(11));
}

fn cached(id: i64, number: i64, title: &str, is_pr: bool) -> IssueRow {
    IssueRow {
        id,
        repo_id: 1,
        number,
        state: "open".to_string(),
        title: title.to_string(),
        body: String::new(),
        labels: String::new(),
        assignees: String::new(),
        comments_count: 0,
        updated_at: None,
        is_pr,
    }
}

#[test]
fn linked_pull_request_action_opens_picker_when_multiple_cached() {
    let mut list = IssueList::new();
    list.set_issues(vec![cached(12, 7, "Issue", false)]);
    let mut links = LinkedState::new();
    links.set_linked_pull_requests(7, vec![42, 43]);
    let mut picker = LinkedPicker::new();

    let selected = list.selected_issue_row().map(|i| i.number).expect("selected");
    let numbers = links.linked_pull_requests_for_issue(selected);
    assert!(numbers.len() > 1);
    let handled = picker.open_linked_picker(View::Issues, LinkedPickerTarget::PullRequestTui, numbers, list.issues(), None);

    assert!(handled);
    assert_eq!(picker.linked_picker_numbers(), vec![42, 43]);
}

#[test]
fn linked_issue_action_opens_picker_when_multiple_cached() {
    let mut list = IssueList::new();
    list.set_work_item_mode(WorkItemMode::PullRequests);
    list.set_issues(vec![cached(21, 9, "PR", true)]);
    let mut links = LinkedState::new();
    links.set_linked_issues_for_pull_request(9, vec![100, 101]);
    let mut picker = LinkedPicker::new();

    let selected = list.selected_issue_row().map(|i| i.number).expect("selected");
    let numbers = links.linked_issues_for_pull_request(selected);
    assert!(numbers.len() > 1);
    let handled = picker.open_linked_picker(View::Issues, LinkedPickerTarget::IssueBrowser, numbers, list.issues(), None);

    assert!(handled);
    assert_eq!(picker.linked_picker_numbers(), vec![100, 101]);
}
