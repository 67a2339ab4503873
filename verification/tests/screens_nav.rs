use blippy::app::{Focus, IssueFilter, PullRequestFile, PullRequestReviewFocus, ReviewSide, View};
use blippy::input::KeyCommand;
use blippy::issue_detail::IssueDetailState;
use blippy::issue_list::IssueList;
use blippy::issues::IssueRow;
use blippy::linked::LinkedPicker;
use blippy::mouse::ClickCommand;
use blippy::picker::OptionPicker;
use blippy::repo_index::LocalRepoRow;
use blippy::repo_list::RepoList;
use blippy::review::ReviewState;
use blippy::screens::Screens;

fn repo(owner: &str, name: &str) -> LocalRepoRow {
    LocalRepoRow {
        path: format!("/src/{}", name),
        remote_name: "origin".to_string(),
        owner: owner.to_string(),
        repo: name.to_string(),
        url: format!("https://github.com/{}/{}.git", owner, name),
        last_seen: None,
        last_scanned: None,
    }
}

fn issue(id: i64, number: i64) -> IssueRow {
    IssueRow {
        id,
        repo_id: 1,
        number,
        state: "open".to_string(),
        title: format!("issue {}", number),
        body: String::new(),
        labels: String::new(),
        assignees: String::new(),
        comments_count: 0,
        updated_at: None,
        is_pr: false,
    }
}

fn screens() -> Screens {
    let mut repos = RepoList::new();
    repos.set_repos(vec![repo("acme", "a"), repo("acme", "b"), repo("acme", "c")]);
    let mut issues = IssueList::new();
    issues.set_issues(vec![issue(1, 10), issue(2, 11)]);
    Screens {
        repos,
        remote_selected: 0,
        remote_count: 2,
        issues,
        detail: IssueDetailState::new(),
        review: ReviewState::new(),
        preset_selected: 0,
        preset_count: 3,
        labels: OptionPicker::new(),
        assignees: OptionPicker::new(),
        linked: LinkedPicker::new(),
    }
}

#[test]
fn navigation_commands_move_the_screen_in_view() {
    let mut s = screens();
    assert!(s.apply_navigation(View::RepoPicker, Focus::IssuesList, KeyCommand::MoveDown, &[]));
    assert_eq!(s.repos.selected_repo(), 1);
    assert_eq!(s.issues.selected_issue_row().map(|i| i.number), Some(11));
    assert!(s.apply_navigation(View::RepoPicker, Focus::IssuesList, KeyCommand::JumpBottom, &[]));
    assert_eq!(s.repos.selected_repo(), 2);
    assert!(s.apply_navigation(View::Issues, Focus::IssuesList, KeyCommand::MoveDown, &[]));
    assert_eq!(s.issues.selected_issue_row().map(|i| i.number), Some(10));
    assert!(s.apply_navigation(View::Issues, Focus::IssuesList, KeyCommand::MoveDown, &[]));
    assert_eq!(s.issues.selected_issue_row().map(|i| i.number), Some(10));
    assert!(s.apply_navigation(View::Issues, Focus::IssuesList, KeyCommand::JumpTop, &[]));
    assert_eq!(s.issues.selected_issue_row().map(|i| i.number), Some(11));
    assert!(s.apply_navigation(View::CommentPresetPicker, Focus::IssuesList, KeyCommand::JumpBottom, &[]));
    assert_eq!(s.preset_selected, 2);
    assert!(s.apply_navigation(View::RemoteChooser, Focus::IssuesList, KeyCommand::MoveDown, &[]));
    assert_eq!(s.remote_selected, 1);
    assert!(s.apply_navigation(View::RemoteChooser, Focus::IssuesList, KeyCommand::MoveUp, &[]));
    assert_eq!(s.remote_selected, 0);
}

#[test]
fn other_commands_and_editors_leave_the_screens_alone() {
    let mut s = screens();
    assert!(!s.apply_navigation(View::Issues, Focus::IssuesList, KeyCommand::Quit, &[]));
    assert_eq!(s.issues.selected_issue_row().map(|i| i.number), Some(11));
    assert!(s.apply_navigation(View::CommentEditor, Focus::IssuesList, KeyCommand::MoveDown, &[]));
    assert_eq!(s.issues.selected_issue_row().map(|i| i.number), Some(11));
    assert_eq!(s.remote_selected, 0);
    assert_eq!(s.preset_selected, 0);
}

#[test]
fn clicks_highlight_the_clicked_row() {
    let mut s = screens();
    assert!(s.apply_click_selection(ClickCommand::PickRepoRow(9)));
    assert_eq!(s.repos.selected_repo(), 2);
    assert!(s.apply_click_selection(ClickCommand::PickIssueRow(1)));
    assert_eq!(s.issues.selected_issue_row().map(|i| i.number), Some(10));
    assert!(s.apply_click_selection(ClickCommand::PickPreset(7)));
    assert_eq!(s.preset_selected, 2);
    assert!(s.apply_click_selection(ClickCommand::PickRemoteRow(1)));
    assert_eq!(s.remote_selected, 1);
    s.labels.open(vec!["bug".to_string(), "docs".to_string()], "");
    assert!(s.apply_click_selection(ClickCommand::ClickLabelOption(1)));
    assert_eq!(s.labels.selected_csv(), "docs");
    assert!(s.apply_click_selection(ClickCommand::ClickLabelOption(5)));
    assert_eq!(s.labels.selected_csv(), "docs");
    assert!(!s.apply_click_selection(ClickCommand::OpenRepoPicker));
    assert_eq!(s.repos.selected_repo(), 2);
}

#[test]
fn key_commands_change_the_screen_they_are_for() {
    let mut s = screens();
    assert!(s.apply_key_command(View::Issues, KeyCommand::NextIssueFilter));
    assert_eq!(s.issues.issue_filter(), IssueFilter::Closed);
    assert!(s.apply_key_command(View::Issues, KeyCommand::SetIssueFilter(IssueFilter::Open)));
    assert_eq!(s.issues.issue_filter(), IssueFilter::Open);
    assert!(!s.apply_key_command(View::Issues, KeyCommand::Quit));

    s.review.set_pull_request_files(
        7,
        vec![PullRequestFile {
            filename: "a.rs".to_string(),
            status: "modified".to_string(),
            additions: 1,
            deletions: 0,
            patch: Some("@@ -1,1 +1,2 @@\n a\n+b\n".to_string()),
        }],
    );
    assert!(s.apply_key_command(View::PullRequestFiles, KeyCommand::FocusReviewDiff));
    assert_eq!(s.review.pull_request_review_focus(), PullRequestReviewFocus::Diff);
    assert!(s.apply_key_command(View::PullRequestFiles, KeyCommand::SetReviewSide(ReviewSide::Left)));
    assert_eq!(s.review.pull_request_review_side(), ReviewSide::Left);
    assert!(s.apply_key_command(View::PullRequestFiles, KeyCommand::ToggleDiffExpanded));
    assert!(s.review.pull_request_diff_expanded());
    assert!(s.apply_key_command(View::PullRequestFiles, KeyCommand::ToggleVisualMode));
    assert!(s.review.pull_request_visual_range().is_some());
    assert!(s.apply_key_command(View::PullRequestFiles, KeyCommand::FocusReviewFiles));
    assert_eq!(s.review.pull_request_review_focus(), PullRequestReviewFocus::Files);
    assert!(!s.review.pull_request_diff_expanded());
    assert!(s.review.pull_request_visual_range().is_none());

    s.labels.open(vec!["bug".to_string(), "docs".to_string()], "");
    assert!(s.apply_key_command(View::LabelPicker, KeyCommand::ToggleLabel));
    assert!(s.labels.option_selected("bug"));
    assert!(s.apply_key_command(View::LabelPicker, KeyCommand::SubmitLabels));
    assert!(!s.labels.option_selected("bug"));
}
