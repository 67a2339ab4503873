use blippy::app::{AssigneeFilter, IssueFilter, WorkItemMode};
use blippy::issue_list::IssueList;
use blippy::issues::IssueRow;
use blippy::keybinds::{KeyCode, KeyMods, KeyPress};
use blippy::repo_index::LocalRepoRow;
use blippy::repo_list::RepoList;

fn issue(id: i64, number: i64, state: &str, title: &str) -> IssueRow {
    IssueRow {
        id,
        repo_id: 1,
        number,
        state: state.to_string(),
        title: title.to_string(),
        body: String::new(),
        labels: String::new(),
        assignees: String::new(),
        comments_count: 0,
        updated_at: None,
        is_pr: false,
    }
}

fn key(code: KeyCode) -> KeyPress {
    KeyPress::new(code, KeyMods::none())
}

fn listed_numbers(list: &IssueList) -> Vec<i64> {
    list.filtered_issue_indices().iter().map(|i| list.issues()[*i].number).collect()
}

#[test]
fn list_orders_by_number_and_keeps_the_highlighted_item() {
    let mut list = IssueList::new();
    list.set_issues(vec![issue(1, 1, "open", "One"), issue(2, 2, "open", "Two")]);
    assert_eq!(list.selected_issue_row().map(|i| i.number), Some(2));
    list.set_issues(vec![issue(10, 2, "open", "Two refreshed"), issue(11, 3, "open", "Three")]);
    assert_eq!(listed_numbers(&list), vec![3, 2]);
    assert_eq!(list.selected_issue_row().map(|i| i.number), Some(2));
}

#[test]
fn closing_an_item_drops_it_from_the_open_list() {
    let mut list = IssueList::new();
    list.set_issues(vec![issue(1, 10, "open", "One")]);
    assert_eq!(list.filtered_issue_indices().len(), 1);
    list.update_issue_state_by_number(10, "closed");
    assert!(list.filtered_issue_indices().is_empty());
    assert_eq!(list.issues()[0].state, "closed");
    assert_eq!(list.issue_counts(), (0, 1));
}

#[test]
fn closed_filter_sorts_by_most_recent_update() {
    let mut list = IssueList::new();
    let mut older = issue(1, 10, "closed", "older close");
    older.updated_at = Some("2024-01-01T00:00:00Z".to_string());
    let mut newer = issue(2, 11, "closed", "newer close");
    newer.updated_at = Some("2024-01-02T00:00:00Z".to_string());
    list.set_issues(vec![newer.clone(), older.clone()]);
    list.set_issue_filter(IssueFilter::Closed);
    assert_eq!(list.selected_issue_row().map(|i| i.number), Some(11));
    assert_eq!(list.status(), "Filter: CLOSED | assignee: all");
    let mut older_high = issue(3, 99, "closed", "older but higher number");
    older_high.updated_at = Some("2023-12-31T00:00:00Z".to_string());
    list.set_issues(vec![older_high, older, newer]);
    assert_eq!(listed_numbers(&list), vec![11, 10, 99]);
}

#[test]
fn assignee_filter_cycles_through_unassigned_and_users() {
    let mut list = IssueList::new();
    let mut one = issue(1, 1, "open", "One");
    one.assignees = "alex".to_string();
    let mut two = issue(2, 2, "open", "Two");
    two.assignees = "sam, Alex".to_string();
    let three = issue(3, 3, "open", "Three");
    list.set_issues(vec![one, two, three]);
    assert_eq!(
        list.assignee_filter_options(),
        vec![
            AssigneeFilter::All,
            AssigneeFilter::Unassigned,
            AssigneeFilter::User("alex".to_string()),
            AssigneeFilter::User("sam".to_string()),
        ]
    );
    assert_eq!(list.assignee_filter_label(), "all");
    list.cycle_assignee_filter(true);
    assert_eq!(list.assignee_filter_label(), "unassigned");
    assert_eq!(listed_numbers(&list), vec![3]);
    assert_eq!(list.status(), "Assignee: unassigned (1 items)");
    list.cycle_assignee_filter(true);
    assert_eq!(list.assignee_filter_label(), "alex");
    assert_eq!(listed_numbers(&list), vec![2, 1]);
    list.cycle_assignee_filter(true);
    list.cycle_assignee_filter(true);
    assert_eq!(list.assignee_filter_label(), "all");
    list.cycle_assignee_filter(false);
    assert_eq!(list.assignee_filter_label(), "sam");
    assert!(list.has_assignee_filter());
    list.reset_assignee_filter();
    assert!(!list.has_assignee_filter());
    assert_eq!(list.status(), "Assignee: all (3 items)");
}

#[test]
fn search_filters_and_escape_clears() {
    let mut list = IssueList::new();
    let mut login = issue(1, 101, "open", "Login bug");
    login.body = "Fails for SSO users".to_string();
    login.labels = "bug,auth".to_string();
    let mut docs = issue(2, 202, "open", "Docs polish");
    docs.labels = "docs".to_string();
    list.set_issues(vec![login, docs]);
    list.begin_issue_search();
    assert!(list.issue_search_mode());
    assert_eq!(list.status(), "Search issues");
    for ch in "bug".chars() {
        assert!(list.handle_issue_search_key(key(KeyCode::Char(ch))));
    }
    assert_eq!(list.issue_query(), "bug");
    assert_eq!(listed_numbers(&list), vec![101]);
    assert_eq!(list.status(), "Search: bug | assignee: all (1 results)");
    assert!(list.handle_issue_search_key(key(KeyCode::Esc)));
    assert!(!list.issue_search_mode());
    assert_eq!(list.issue_query(), "");
    assert_eq!(list.filtered_issue_indices().len(), 2);
    assert_eq!(list.status(), "Search cleared");
}

#[test]
fn search_matches_issue_numbers_and_qualifiers() {
    let mut list = IssueList::new();
    let mut pr = issue(2, 8, "open", "Feature");
    pr.is_pr = true;
    list.set_issues(vec![issue(1, 777, "open", "Telemetry"), pr]);
    list.begin_issue_search();
    assert!(list.handle_issue_search_key(KeyPress::new(KeyCode::Char('#'), KeyMods::shift_only())));
    for ch in "777".chars() {
        list.handle_issue_search_key(key(KeyCode::Char(ch)));
    }
    assert_eq!(listed_numbers(&list), vec![777]);
    let ctrl_u = KeyPress::new(KeyCode::Char('u'), KeyMods::control_only());
    assert!(list.handle_issue_search_key(ctrl_u));
    assert_eq!(list.issue_query(), "");
    assert_eq!(list.status(), "Filter: OPEN | assignee: all");
    list.set_work_item_mode(WorkItemMode::PullRequests);
    assert_eq!(listed_numbers(&list), vec![8]);
    assert_eq!(list.issue_counts(), (1, 0));
}

#[test]
fn search_enter_closes_box_and_backspace_edits() {
    let mut list = IssueList::new();
    list.set_issues(vec![issue(1, 5, "open", "Alpha")]);
    list.begin_issue_search();
    list.handle_issue_search_key(key(KeyCode::Char('z')));
    assert!(list.filtered_issue_indices().is_empty());
    list.handle_issue_search_key(key(KeyCode::Backspace));
    assert_eq!(list.filtered_issue_indices().len(), 1);
    list.handle_issue_search_key(key(KeyCode::Enter));
    assert!(!list.issue_search_mode());
    assert_eq!(list.status(), "Filter: OPEN | assignee: all");
    let alt_x = KeyPress::new(KeyCode::Char('x'), KeyMods { alt: true, ..KeyMods::none() });
    assert!(list.handle_issue_search_key(alt_x));
    assert_eq!(list.issue_query(), "");
}

#[test]
fn select_issue_by_number_finds_listed_items_only() {
    let mut list = IssueList::new();
    list.set_issues(vec![issue(1, 1, "open", "a"), issue(2, 2, "open", "b"), issue(3, 3, "closed", "c")]);
    assert!(list.select_issue_by_number(1));
    assert_eq!(list.selected_issue(), 1);
    assert!(!list.select_issue_by_number(3));
    assert_eq!(list.selected_issue(), 1);
    list.update_issue_labels_by_number(2, "bug");
    list.update_issue_assignees_by_number(2, "sam");
    list.update_issue_comments_count_by_number(2, 4);
    let two = &list.issues()[1];
    assert_eq!((two.labels.as_str(), two.assignees.as_str(), two.comments_count), ("bug", "sam", 4));
}

fn repo(path: &str, remote: &str, owner: &str, name: &str) -> LocalRepoRow {
    LocalRepoRow {
        path: path.to_string(),
        remote_name: remote.to_string(),
        owner: owner.to_string(),
        repo: name.to_string(),
        url: format!("https://github.com/{}/{}.git", owner, name),
        last_seen: None,
        last_scanned: None,
    }
}

#[test]
fn repo_picker_keeps_distinct_rows() {
    let mut repos = RepoList::new();
    repos.set_repos(vec![
        repo("/tmp/one", "origin", "acme", "blippy"),
        repo("/tmp/two", "upstream", "acme", "blippy"),
        repo("/tmp/three", "origin", "other", "core"),
    ]);
    let rows = repos.filtered_repo_rows();
    assert_eq!(rows.len(), 3);
    assert_eq!(rows[0].owner, "acme");
    assert_eq!(rows[1].remote_name, "upstream");
}

#[test]
fn repo_picker_search_filters_entries() {
    let mut repos = RepoList::new();
    repos.set_repos(vec![repo("/tmp/one", "origin", "acme", "blippy"), repo("/tmp/two", "origin", "other", "core")]);
    repos.begin_repo_search();
    for ch in "ACME".chars() {
        repos.handle_repo_search_key(KeyPress::new(KeyCode::Char(ch), KeyMods::shift_only()));
    }
    assert_eq!(repos.filtered_repo_rows().len(), 1);
    assert_eq!(repos.filtered_repo_rows()[0].owner, "acme");
    assert_eq!(
        repos.selected_repo_target(),
        Some(("acme".to_string(), "blippy".to_string(), "/tmp/one".to_string()))
    );
    repos.handle_repo_search_key(key(KeyCode::Enter));
    assert_eq!(repos.status(), "1 repos");
    assert!(!repos.repo_search_mode());
    repos.handle_repo_search_key(key(KeyCode::Esc));
    assert_eq!(repos.filtered_repo_rows().len(), 2);
    assert_eq!(repos.repo_query(), "");
}

#[test]
fn reopening_the_repo_picker_clears_the_query() {
    let mut repos = RepoList::new();
    repos.set_repos(vec![repo("/tmp/one", "origin", "acme", "blippy"), repo("/tmp/two", "origin", "other", "core")]);
    repos.begin_repo_search();
    repos.handle_repo_search_key(key(KeyCode::Char('z')));
    assert!(repos.filtered_repo_rows().is_empty());
    assert_eq!(repos.selected_repo_target(), None);
    repos.open_repo_picker();
    assert_eq!(repos.repo_query(), "");
    assert!(!repos.repo_search_mode());
    assert_eq!(repos.filtered_repo_rows().len(), 2);
    let ctrl_u = KeyPress::new(KeyCode::Char('u'), KeyMods::control_only());
    repos.handle_repo_search_key(ctrl_u);
    assert_eq!(repos.status(), "Repo search cleared");
}

#[test]
fn preview_focus_scrolls_the_preview_within_its_limit() {
    let mut list = IssueList::new();
    list.set_issues(vec![issue(1, 1, "open", "Open")]);
    list.set_issues_preview_max_scroll(5);
    list.move_issue_selection_down(true);
    assert_eq!(list.issues_preview_scroll(), 1);
    list.jump_issue_bottom(true);
    assert_eq!(list.issues_preview_scroll(), 5);
    list.move_issue_selection_down(true);
    assert_eq!(list.issues_preview_scroll(), 5);
    list.set_issues_preview_max_scroll(2);
    assert_eq!(list.issues_preview_scroll(), 2);
    list.move_issue_selection_up(true);
    assert_eq!(list.issues_preview_scroll(), 1);
    list.jump_issue_top(true);
    assert_eq!(list.issues_preview_scroll(), 0);
    list.move_issue_selection_up(true);
    assert_eq!(list.issues_preview_scroll(), 0);
}

#[test]
fn list_navigation_stays_on_listed_rows_and_resets_the_preview() {
    let mut list = IssueList::new();
    list.set_issues(vec![issue(1, 1, "open", "One"), issue(2, 2, "open", "Two"), issue(3, 3, "open", "Three")]);
    list.jump_issue_top(false);
    assert_eq!(list.selected_issue(), 0);
    list.set_issues_preview_max_scroll(4);
    list.move_issue_selection_down(true);
    assert_eq!(list.issues_preview_scroll(), 1);
    list.move_issue_selection_down(false);
    assert_eq!(list.selected_issue(), 1);
    assert_eq!(list.issues_preview_scroll(), 0);
    list.jump_issue_bottom(false);
    assert_eq!(list.selected_issue(), 2);
    list.move_issue_selection_down(false);
    assert_eq!(list.selected_issue(), 2);
    list.move_issue_selection_up(false);
    assert_eq!(list.selected_issue(), 1);
    list.jump_issue_top(false);
    list.move_issue_selection_up(false);
    assert_eq!(list.selected_issue(), 0);
    assert_eq!(list.selected_issue_row().map(|i| i.number), Some(3));
}

#[test]
fn repo_picker_navigation_stays_on_listed_rows() {
    let mut repos = RepoList::new();
    repos.set_repos(vec![repo("/tmp/one", "origin", "acme", "blippy"), repo("/tmp/two", "origin", "other", "core")]);
    repos.jump_repo_top();
    assert_eq!(repos.selected_repo(), 0);
    repos.move_repo_selection_up();
    assert_eq!(repos.selected_repo(), 0);
    repos.move_repo_selection_down();
    assert_eq!(repos.selected_repo(), 1);
    repos.move_repo_selection_down();
    assert_eq!(repos.selected_repo(), 1);
    repos.jump_repo_top();
    repos.jump_repo_bottom();
    assert_eq!(repos.selected_repo(), 1);
    let mut empty = RepoList::new();
    empty.jump_repo_bottom();
    assert_eq!(empty.selected_repo(), 0);
}

#[test]
fn clicked_rows_are_highlighted_within_the_listing() {
    let mut list = IssueList::new();
    list.set_issues(vec![issue(1, 1, "open", "One"), issue(2, 2, "open", "Two")]);
    list.set_issues_preview_max_scroll(3);
    list.move_issue_selection_down(true);
    list.select_issue_row(1);
    assert_eq!(list.selected_issue(), 1);
    assert_eq!(list.issues_preview_scroll(), 0);
    list.select_issue_row(7);
    assert_eq!(list.selected_issue(), 1);

    let mut repos = RepoList::new();
    repos.set_repos(vec![repo("/tmp/one", "origin", "acme", "blippy"), repo("/tmp/two", "origin", "other", "core")]);
    repos.select_repo_row(5);
    assert_eq!(repos.selected_repo(), 1);
    repos.select_repo_row(0);
    assert_eq!(repos.selected_repo(), 0);
}

#[test]
fn repo_listing_positions_follow_the_search() {
    let mut repos = RepoList::new();
    repos.set_repos(vec![repo("/tmp/one", "origin", "acme", "blippy"), repo("/tmp/two", "origin", "other", "core")]);
    assert_eq!(repos.filtered_repo_indices(), &[0, 1]);
    repos.begin_repo_search();
    for ch in "core".chars() {
        repos.handle_repo_search_key(key(KeyCode::Char(ch)));
    }
    assert_eq!(repos.filtered_repo_indices(), &[1]);
}

#[test]
fn closed_tab_lists_merged_pull_requests() {
    let mut list = IssueList::new();
    let mut merged = issue(1, 40, "MERGED", "merged change");
    merged.is_pr = true;
    let mut open = issue(2, 41, "open", "open change");
    open.is_pr = true;
    list.set_work_item_mode(WorkItemMode::PullRequests);
    list.set_issues(vec![merged, open]);
    list.set_issue_filter(IssueFilter::Closed);
    assert_eq!(listed_numbers(&list), vec![40]);
    list.set_issue_filter(IssueFilter::Open);
    assert_eq!(listed_numbers(&list), vec![41]);
}
