use blippy::app::{PullRequestFile, View};
use blippy::events::{AppEvent, AppState, EventFlags, LinkedLookupTarget};
use blippy::issue_detail::IssueDetailState;
use blippy::issue_list::IssueList;
use blippy::issues::IssueRow;
use blippy::linked::{LinkedPicker, LinkedState};
use blippy::payload::apply_event_payload;
use blippy::picker::OptionPicker;
use blippy::repo_list::RepoList;
use blippy::review::ReviewState;
use blippy::screens::Screens;

fn state(view: View) -> AppState {
    AppState {
        view,
        current_owner: Some("acme".to_string()),
        current_repo: Some("blippy".to_string()),
        current_issue_id: Some(7),
        current_issue_number: Some(42),
        flags: EventFlags {
            scanning: false,
            syncing: false,
            comment_syncing: false,
            files_syncing: true,
            review_comments_syncing: false,
            labels_syncing: false,
            permissions_syncing: false,
            metadata_editable: None,
            mergeable: None,
        },
        status: String::new(),
    }
}

fn row(number: i64) -> IssueRow {
    IssueRow {
        id: number * 10,
        repo_id: 1,
        number,
        state: "open".to_string(),
        title: "Item".to_string(),
        body: String::new(),
        labels: String::new(),
        assignees: String::new(),
        comments_count: 3,
        updated_at: None,
        is_pr: false,
    }
}

fn screens() -> Screens {
    let mut issues = IssueList::new();
    issues.set_issues(vec![row(42), row(43)]);
    Screens {
        repos: RepoList::new(),
        remote_selected: 0,
        remote_count: 0,
        issues,
        detail: IssueDetailState::new(),
        review: ReviewState::new(),
        preset_selected: 0,
        preset_count: 0,
        labels: OptionPicker::new(),
        assignees: OptionPicker::new(),
        linked: LinkedPicker::new(),
    }
}

fn file(name: &str, patch: &str) -> PullRequestFile {
    PullRequestFile {
        filename: name.to_string(),
        status: "modified".to_string(),
        additions: 1,
        deletions: 0,
        patch: Some(patch.to_string()),
    }
}

fn loaded_screens() -> Screens {
    let mut s = screens();
    let mut links = LinkedState::new();
    let files = AppEvent::PullRequestFilesUpdated {
        issue_id: 7,
        files: vec![file("a.rs", "@@ -1,1 +1,1 @@\n a\n"), file("b.rs", "@@ -1,1 +1,2 @@\n a\n+b\n")],
        pull_request_id: Some("PR_1".to_string()),
        viewed_files: vec!["b.rs".to_string()],
    };
    assert!(apply_event_payload(&mut s, &mut links, &state(View::PullRequestFiles), files));
    s
}

#[test]
fn loaded_files_carry_their_viewed_marks() {
    let s = loaded_screens();
    assert_eq!(s.review.pull_request_files().len(), 2);
    assert!(!s.review.pull_request_file_is_viewed("a.rs"));
    assert!(s.review.pull_request_file_is_viewed("b.rs"));
}

#[test]
fn failed_viewed_update_puts_the_mark_back() {
    let mut s = loaded_screens();
    let mut links = LinkedState::new();
    let marked = AppEvent::PullRequestFileViewedUpdated { issue_id: 7, path: "a.rs".to_string(), viewed: true };
    assert!(apply_event_payload(&mut s, &mut links, &state(View::PullRequestFiles), marked));
    assert!(s.review.pull_request_file_is_viewed("a.rs"));
    let failed = AppEvent::PullRequestFileViewedUpdateFailed {
        issue_id: 7,
        path: "a.rs".to_string(),
        viewed: true,
        message: "boom".to_string(),
    };
    assert!(apply_event_payload(&mut s, &mut links, &state(View::PullRequestFiles), failed));
    assert!(!s.review.pull_request_file_is_viewed("a.rs"));
    assert!(s.review.pull_request_file_is_viewed("b.rs"));
}

#[test]
fn events_for_another_item_change_nothing() {
    let mut s = loaded_screens();
    let mut links = LinkedState::new();
    let other = AppEvent::PullRequestFileViewedUpdated { issue_id: 8, path: "a.rs".to_string(), viewed: true };
    assert!(!apply_event_payload(&mut s, &mut links, &state(View::PullRequestFiles), other));
    assert!(!s.review.pull_request_file_is_viewed("a.rs"));
}

#[test]
fn unreadable_diffs_are_not_loaded() {
    let mut s = screens();
    let mut links = LinkedState::new();
    let files = AppEvent::PullRequestFilesUpdated {
        issue_id: 7,
        files: vec![file("a.rs", "@@ -9223372036854775807,2 +1,2 @@\n a\n b\n")],
        pull_request_id: None,
        viewed_files: vec![],
    };
    assert!(!apply_event_payload(&mut s, &mut links, &state(View::PullRequestFiles), files));
    assert_eq!(s.review.pull_request_files().len(), 0);
}

#[test]
fn resolved_links_are_cached() {
    let mut s = screens();
    let mut links = LinkedState::new();
    let found = AppEvent::LinkedPullRequestResolved {
        issue_number: 42,
        pull_requests: vec![(84, "https://example.test/84".to_string()), (85, "u".to_string())],
        target: LinkedLookupTarget::Probe,
    };
    assert!(apply_event_payload(&mut s, &mut links, &state(View::Issues), found));
    assert_eq!(links.linked_pull_requests_for_issue(42), vec![84, 85]);
    let found = AppEvent::LinkedIssueResolved {
        pull_number: 84,
        issues: vec![(42, "u".to_string())],
        target: LinkedLookupTarget::Tui,
    };
    assert!(apply_event_payload(&mut s, &mut links, &state(View::Issues), found));
    assert_eq!(links.linked_issues_for_pull_request(84), vec![42]);
}

fn numbered(s: &Screens, number: i64) -> IssueRow {
    s.issues.issues().iter().find(|r| r.number == number).unwrap().clone()
}

#[test]
fn label_and_comment_updates_reach_the_list() {
    let mut s = screens();
    let mut links = LinkedState::new();
    let labels = AppEvent::IssueLabelsUpdated { issue_number: 43, labels: "bug".to_string() };
    assert!(apply_event_payload(&mut s, &mut links, &state(View::Issues), labels));
    assert_eq!(numbered(&s, 43).labels, "bug");
    assert_eq!(numbered(&s, 42).labels, "");
    let deleted = AppEvent::IssueCommentDeleted { issue_number: 42, comment_id: 5, count: 2 };
    assert!(apply_event_payload(&mut s, &mut links, &state(View::Issues), deleted));
    assert_eq!(numbered(&s, 42).comments_count, 2);
    assert_eq!(numbered(&s, 43).comments_count, 3);
}

#[test]
fn suggested_labels_reach_only_the_open_picker() {
    let mut s = screens();
    let mut links = LinkedState::new();
    let suggested = AppEvent::RepoLabelsSuggested {
        owner: "acme".to_string(),
        repo: "blippy".to_string(),
        labels: vec![("bug".to_string(), "d73a4a".to_string())],
    };
    assert!(!apply_event_payload(&mut s, &mut links, &state(View::Issues), suggested.clone()));
    assert_eq!(s.labels.options().len(), 0);
    assert!(apply_event_payload(&mut s, &mut links, &state(View::LabelPicker), suggested));
    assert_eq!(s.labels.options(), &["bug".to_string()]);
}
