use blippy::app::{
    AppAction, CommentEditorState, IssueFilter, PullRequestFile, PullRequestReviewFocus, ReviewSide, View,
    WorkItemMode,
};
use blippy::editor::{handle_editor_key, EditorEffect};
use blippy::issue_detail::{comment_offsets, CommentRow, IssueDetailState};
use blippy::input::{keymap_command, KeyCommand, KeyContext};
use blippy::issue_list::IssueList;
use blippy::issues::IssueRow;
use blippy::keybinds::{KeyCode, KeyMods, KeyPress};
use blippy::linked::{LinkedPicker, LinkedPickerTarget, LinkedState};
use blippy::picker::{handle_popup_filter_key, OptionPicker};
use blippy::repo_index::LocalRepoRow;
use blippy::repo_list::RepoList;
use blippy::review::ReviewState;

fn key(code: KeyCode) -> KeyPress {
    KeyPress::new(code, KeyMods::none())
}

fn row(id: i64, number: i64, state: &str, title: &str, is_pr: bool) -> IssueRow {
    IssueRow {
        id,
        repo_id: 1,
        number,
        state: state.to_string(),
        title: title.to_string(),
        body: String::new(),
        labels: String::new(),
        assignees: String::new(),
        comments_count: 0,
        updated_at: None,
        is_pr,
    }
}

fn assigned(id: i64, number: i64, title: &str, assignees: &str) -> IssueRow {
    IssueRow { assignees: assignees.to_string(), ..row(id, number, "open", title, false) }
}

fn shown(list: &IssueList) -> usize {
    list.filtered_issue_indices().len()
}

fn selected_number(list: &IssueList) -> Option<i64> {
    list.selected_issue_row().map(|issue| issue.number)
}

fn type_search(list: &mut IssueList, text: &str) {
    for ch in text.chars() {
        list.handle_issue_search_key(key(KeyCode::Char(ch)));
    }
}

fn review_file(patch: &str) -> PullRequestFile {
    PullRequestFile {
        filename: "src/main.rs".to_string(),
        status: "modified".to_string(),
        additions: 1,
        deletions: 1,
        patch: Some(patch.to_string()),
    }
}

fn review_of(patch: &str) -> ReviewState {
    let mut review = ReviewState::new();
    review.set_pull_request_files(1, vec![review_file(patch)]);
    review.set_pull_request_review_focus(PullRequestReviewFocus::Diff);
    review
}

fn picker(options: &[&str], current: &str) -> OptionPicker {
    let mut p = OptionPicker::new();
    p.open(options.iter().map(|o| o.to_string()).collect(), current);
    p
}

fn list_ctx() -> KeyContext {
    KeyContext {
        view: View::Issues,
        review_focus: PullRequestReviewFocus::Files,
        help_visible: false,
        pending_g: false,
        pending_d: false,
        has_issue: true,
        issue_closed: false,
        item_is_pr: false,
        ctrl_c_quits: true,
    }
}

fn press_on_list(list: &mut IssueList, key: KeyPress) {
    let command = keymap_command(list_ctx(), key).command;
    assert!(list.apply_key_command(command));
}

#[test]
fn tab_cycles_issue_filter() {
    let mut list = IssueList::new();
    list.set_issues(vec![row(1, 1, "open", "Open", false), row(2, 2, "closed", "Closed", false)]);
    assert_eq!(list.issue_filter(), IssueFilter::Open);
    assert_eq!(shown(&list), 1);

    press_on_list(&mut list, KeyPress::new(KeyCode::Tab, KeyMods::none()));
    assert_eq!(list.issue_filter(), IssueFilter::Closed);
    assert_eq!(shown(&list), 1);
    assert_eq!(selected_number(&list), Some(2));

    press_on_list(&mut list, KeyPress::new(KeyCode::Tab, KeyMods::none()));
    assert_eq!(list.issue_filter(), IssueFilter::Open);
    assert_eq!(shown(&list), 1);
    assert_eq!(selected_number(&list), Some(1));
}

#[test]
fn p_toggles_between_issue_and_pr_modes() {
    let mut list = IssueList::new();
    list.set_issues(vec![row(1, 1, "open", "Issue", false), row(2, 2, "open", "PR", true)]);
    assert_eq!(list.work_item_mode(), WorkItemMode::Issues);
    assert_eq!(shown(&list), 1);
    assert!(!list.issues()[list.filtered_issue_indices()[0]].is_pr);

    press_on_list(&mut list, KeyPress::new(KeyCode::Char('p'), KeyMods::none()));
    assert_eq!(list.work_item_mode(), WorkItemMode::PullRequests);
    assert_eq!(shown(&list), 1);
    assert!(list.issues()[list.filtered_issue_indices()[0]].is_pr);
    assert_eq!(list.status(), "Showing pull requests");
}

#[test]
fn list_keys_set_filters_and_search() {
    let mut list = IssueList::new();
    list.set_issues(vec![row(1, 1, "open", "Open", false), row(2, 2, "closed", "Closed", false)]);
    press_on_list(&mut list, KeyPress::new(KeyCode::Char('2'), KeyMods::none()));
    assert_eq!(list.issue_filter(), IssueFilter::Closed);
    press_on_list(&mut list, KeyPress::new(KeyCode::Char('1'), KeyMods::none()));
    assert_eq!(list.issue_filter(), IssueFilter::Open);
    press_on_list(&mut list, KeyPress::new(KeyCode::Char('/'), KeyMods::none()));
    assert!(list.issue_search_mode());
    assert!(!list.apply_key_command(KeyCommand::Quit));
    assert!(list.issue_search_mode());
}

#[test]
fn select_issue_by_number_finds_item_in_filtered_mode() {
    let mut list = IssueList::new();
    list.set_issues(vec![row(1, 11, "open", "Issue", false), row(2, 22, "closed", "PR", true)]);
    list.set_work_item_mode(WorkItemMode::PullRequests);
    list.set_issue_filter(IssueFilter::Closed);

    assert!(list.select_issue_by_number(22));
    assert_eq!(selected_number(&list), Some(22));
    assert!(!list.select_issue_by_number(11));
}

#[test]
fn issue_filter_uses_1_and_2_shortcuts() {
    let mut list = IssueList::new();
    list.set_issue_filter(IssueFilter::from_key('2').expect("shortcut"));
    assert_eq!(list.issue_filter(), IssueFilter::Closed);
    list.set_issue_filter(IssueFilter::from_key('1').expect("shortcut"));
    assert_eq!(list.issue_filter(), IssueFilter::Open);
}

#[test]
fn bracket_keys_do_not_change_issue_filter() {
    let mut list = IssueList::new();
    list.set_issue_filter(IssueFilter::from_key('2').expect("shortcut"));
    assert_eq!(list.issue_filter(), IssueFilter::Closed);
    assert_eq!(IssueFilter::from_key('['), None);
    assert_eq!(IssueFilter::from_key(']'), None);
    assert_eq!(list.issue_filter(), IssueFilter::Closed);
}

#[test]
fn ctrl_l_moves_focus_to_preview_and_j_scrolls_preview() {
    let mut list = IssueList::new();
    list.set_issues(vec![row(1, 1, "open", "Open", false)]);
    list.set_issues_preview_max_scroll(5);
    list.move_issue_selection_down(true);
    assert_eq!(list.issues_preview_scroll(), 1);
}

#[test]
fn a_cycles_assignee_filter() {
    let mut list = IssueList::new();
    list.set_issues(vec![assigned(1, 1, "One", "alex"), assigned(2, 2, "Two", "sam"), assigned(3, 3, "Three", "")]);
    assert_eq!(list.assignee_filter_label(), "all");
    assert_eq!(shown(&list), 3);

    list.cycle_assignee_filter(true);
    assert_eq!(list.assignee_filter_label(), "unassigned");
    assert_eq!(shown(&list), 1);
    assert_eq!(selected_number(&list), Some(3));

    list.cycle_assignee_filter(true);
    assert_eq!(list.assignee_filter_label(), "alex");
    assert_eq!(shown(&list), 1);
    assert_eq!(selected_number(&list), Some(1));

    list.cycle_assignee_filter(true);
    assert_eq!(list.assignee_filter_label(), "sam");

    list.cycle_assignee_filter(true);
    assert_eq!(list.assignee_filter_label(), "all");
}

#[test]
fn ctrl_a_resets_assignee_filter_to_all() {
    let mut list = IssueList::new();
    list.set_issues(vec![assigned(1, 1, "One", "alex"), assigned(2, 2, "Two", "sam")]);
    list.cycle_assignee_filter(true);
    assert_eq!(list.assignee_filter_label(), "alex");
    list.reset_assignee_filter();
    assert_eq!(list.assignee_filter_label(), "all");
    assert_eq!(shown(&list), 2);
}

#[test]
fn slash_search_filters_and_escape_clears() {
    let mut list = IssueList::new();
    list.set_issues(vec![
        IssueRow {
            body: "Fails for SSO users".to_string(),
            labels: "bug,auth".to_string(),
            ..assigned(1, 101, "Login bug", "alex")
        },
        IssueRow {
            body: "Update README".to_string(),
            labels: "docs".to_string(),
            ..assigned(2, 202, "Docs polish", "sam")
        },
    ]);
    list.begin_issue_search();
    assert!(list.issue_search_mode());
    type_search(&mut list, "bug");
    assert_eq!(list.issue_query(), "bug");
    assert_eq!(shown(&list), 1);
    assert_eq!(selected_number(&list), Some(101));

    list.handle_issue_search_key(key(KeyCode::Esc));
    assert!(!list.issue_search_mode());
    assert_eq!(list.issue_query(), "");
    assert_eq!(shown(&list), 2);
}

#[test]
fn slash_search_matches_issue_number() {
    let mut list = IssueList::new();
    list.set_issues(vec![row(1, 777, "open", "Telemetry", false)]);
    list.begin_issue_search();
    list.handle_issue_search_key(KeyPress::new(KeyCode::Char('#'), KeyMods::shift_only()));
    type_search(&mut list, "777");
    assert_eq!(shown(&list), 1);
    assert_eq!(selected_number(&list), Some(777));
}

#[test]
fn slash_search_supports_qualifier_tokens() {
    let mut list = IssueList::new();
    list.set_issues(vec![
        IssueRow { labels: "bug,security".to_string(), ..assigned(1, 11, "Auth", "alex") },
        IssueRow { state: "closed".to_string(), labels: "docs".to_string(), ..assigned(2, 22, "Docs", "sam") },
    ]);
    list.set_issue_filter(IssueFilter::Closed);
    list.begin_issue_search();
    type_search(&mut list, "is:closed label:docs");
    assert_eq!(shown(&list), 1);
    assert_eq!(selected_number(&list), Some(22));
}

#[test]
fn assignee_qualifier_matches_exact_user() {
    let mut list = IssueList::new();
    list.set_issues(vec![assigned(1, 11, "One", "alex,sam"), assigned(2, 12, "Two", "samiam")]);
    list.begin_issue_search();
    type_search(&mut list, "assignee:sam");
    assert_eq!(shown(&list), 1);
    assert_eq!(selected_number(&list), Some(11));
}

#[test]
fn is_pr_query_matches_pull_requests() {
    let mut list = IssueList::new();
    list.set_issues(vec![row(1, 11, "open", "Issue", false), row(2, 12, "open", "PR", true)]);
    list.set_work_item_mode(list.work_item_mode().toggle());
    list.begin_issue_search();
    type_search(&mut list, "is:pr");
    assert_eq!(shown(&list), 1);
    assert_eq!(selected_number(&list), Some(12));
}

#[test]
fn set_issues_preserves_selected_issue_when_still_present() {
    let mut list = IssueList::new();
    list.set_issues(vec![row(1, 1, "open", "One", false), row(2, 2, "open", "Two", false)]);
    assert_eq!(selected_number(&list), Some(2));
    list.set_issues(vec![row(10, 2, "open", "Two refreshed", false), row(11, 3, "open", "Three", false)]);
    assert_eq!(selected_number(&list), Some(2));
}

#[test]
fn update_issue_state_rebuilds_filtered_view() {
    let mut list = IssueList::new();
    list.set_issues(vec![row(1, 10, "open", "One", false)]);
    assert_eq!(shown(&list), 1);
    list.update_issue_state_by_number(10, "closed");
    assert_eq!(shown(&list), 0);
}

#[test]
fn closed_filter_sorts_by_recently_closed() {
    let mut list = IssueList::new();
    list.set_issues(vec![
        IssueRow { updated_at: Some("2024-01-01T00:00:00Z".to_string()), ..row(1, 10, "closed", "older close", false) },
        IssueRow { updated_at: Some("2024-01-02T00:00:00Z".to_string()), ..row(2, 11, "closed", "newer close", false) },
    ]);
    list.set_issue_filter(IssueFilter::Closed);
    assert_eq!(selected_number(&list), Some(11));
}

fn local_repo(path: &str, owner: &str, name: &str) -> LocalRepoRow {
    LocalRepoRow {
        path: path.to_string(),
        remote_name: "origin".to_string(),
        owner: owner.to_string(),
        repo: name.to_string(),
        url: format!("https://github.com/{}/{}.git", owner, name),
        last_seen: None,
        last_scanned: None,
    }
}

#[test]
fn ctrl_g_resets_repo_picker_query_when_reopened() {
    let mut repos = RepoList::new();
    repos.set_repos(vec![local_repo("/tmp/one", "acme", "blippy"), local_repo("/tmp/two", "other", "core")]);
    repos.open_repo_picker();
    repos.begin_repo_search();
    for ch in "acme".chars() {
        repos.handle_repo_search_key(key(KeyCode::Char(ch)));
    }
    assert_eq!(repos.repo_query(), "acme");
    assert_eq!(repos.filtered_repo_rows().len(), 1);

    repos.open_repo_picker();
    assert_eq!(repos.repo_query(), "");
    assert_eq!(repos.filtered_repo_rows().len(), 2);
    assert!(!repos.repo_search_mode());
}

#[test]
fn labels_picker_enter_selects_highlighted_when_none_selected() {
    let mut labels = picker(&["bug", "docs"], "");
    labels.toggle_selected();
    assert_eq!(labels.selected_values(), vec!["bug".to_string()]);
}

#[test]
fn labels_picker_enter_adds_highlighted_when_existing_labels_present() {
    let mut labels = picker(&["bug", "docs"], "bug");
    let mut assignees = OptionPicker::new();
    assert!(!handle_popup_filter_key(View::LabelPicker, &mut labels, &mut assignees, key(KeyCode::Char('j'))));
    labels.move_cursor(true);
    labels.toggle_selected();
    assert_eq!(labels.selected_values(), vec!["bug".to_string(), "docs".to_string()]);
}

#[test]
fn assignee_picker_enter_selects_highlighted_when_none_selected() {
    let mut assignees = picker(&["alex", "sam"], "");
    assignees.toggle_selected();
    assert_eq!(assignees.selected_values(), vec!["alex".to_string()]);
}

#[test]
fn assignee_picker_enter_adds_highlighted_when_existing_assignees_present() {
    let mut assignees = picker(&["alex", "sam"], "alex");
    let mut labels = OptionPicker::new();
    assert!(!handle_popup_filter_key(View::AssigneePicker, &mut labels, &mut assignees, key(KeyCode::Char('j'))));
    assignees.move_cursor(true);
    assignees.toggle_selected();
    assert_eq!(assignees.selected_values(), vec!["alex".to_string(), "sam".to_string()]);
}

#[test]
fn labels_picker_enter_removes_highlighted_when_already_selected() {
    let mut labels = picker(&["bug", "docs"], "bug,docs");
    labels.toggle_selected();
    assert_eq!(labels.selected_values(), vec!["docs".to_string()]);
}

#[test]
fn assignee_picker_enter_removes_highlighted_when_already_selected() {
    let mut assignees = picker(&["alex", "sam"], "alex,sam");
    assignees.toggle_selected();
    assert_eq!(assignees.selected_values(), vec!["sam".to_string()]);
}

#[test]
fn label_picker_type_filter_can_match_c_prefix() {
    let mut labels = picker(&["bug", "customer", "docs"], "");
    let mut assignees = OptionPicker::new();
    assert!(handle_popup_filter_key(View::LabelPicker, &mut labels, &mut assignees, key(KeyCode::Char('c'))));
    assert_eq!(labels.query(), "c");
    assert_eq!(labels.filtered_indices().len(), 2);
    assert_eq!(labels.cursor(), labels.filtered_indices()[0]);
}

#[test]
fn merge_assignee_options_dedupes_case_insensitive() {
    let mut assignees = picker(&["alex", "Sam"], "");
    assignees.merge_options(vec!["sam".to_string(), "jordan".to_string(), "ALEX".to_string()]);
    assert_eq!(assignees.options(), &["alex", "jordan", "Sam"]);
}

#[test]
fn enter_submits_comment_editor() {
    let mut editor = CommentEditorState::new();
    editor.reset_for_comment();
    assert_eq!(
        handle_editor_key(View::CommentEditor, &mut editor, key(KeyCode::Enter)),
        EditorEffect::Submit(AppAction::SubmitIssueComment)
    );
}

#[test]
fn enter_submits_edited_comment_editor() {
    let mut editor = CommentEditorState::new();
    editor.reset_for_comment_edit("existing");
    assert_eq!(
        handle_editor_key(View::CommentEditor, &mut editor, key(KeyCode::Enter)),
        EditorEffect::Submit(AppAction::SubmitEditedComment)
    );
}

#[test]
fn shift_enter_adds_newline_in_comment_editor() {
    let mut editor = CommentEditorState::new();
    editor.reset_for_comment();
    handle_editor_key(View::CommentEditor, &mut editor, key(KeyCode::Char('a')));
    let effect =
        handle_editor_key(View::CommentEditor, &mut editor, KeyPress::new(KeyCode::Enter, KeyMods::shift_only()));
    handle_editor_key(View::CommentEditor, &mut editor, key(KeyCode::Char('b')));
    assert_eq!(editor.text(), "a\nb");
    assert_eq!(effect, EditorEffect::Nothing);
}

#[test]
fn ctrl_j_adds_newline_in_comment_editor() {
    let mut editor = CommentEditorState::new();
    editor.reset_for_comment();
    handle_editor_key(View::CommentEditor, &mut editor, key(KeyCode::Char('a')));
    let effect =
        handle_editor_key(View::CommentEditor, &mut editor, KeyPress::new(KeyCode::Char('j'), KeyMods::control_only()));
    handle_editor_key(View::CommentEditor, &mut editor, key(KeyCode::Char('b')));
    assert_eq!(editor.text(), "a\nb");
    assert_eq!(effect, EditorEffect::Nothing);
}

#[test]
fn c_collapses_selected_hunk_and_navigation_skips_hidden_rows() {
    let mut review =
        review_of("@@ -1,1 +1,4 @@\n old\n+new-a\n+new-b\n+new-c\n@@ -10,1 +10,1 @@\n-old-two\n+new-two");
    review.move_review_selection_down();
    review.move_review_selection_down();
    assert_eq!(review.selected_pull_request_diff_line(), 2);

    review.toggle_selected_pull_request_hunk_collapsed();
    assert_eq!(review.selected_pull_request_diff_line(), 0);
    assert!(review.pull_request_hunk_is_collapsed("src/main.rs", 0));

    review.move_review_selection_down();
    assert_eq!(review.selected_pull_request_diff_line(), 5);

    review.jump_review_top();
    review.toggle_selected_pull_request_hunk_collapsed();
    assert!(!review.pull_request_hunk_is_collapsed("src/main.rs", 0));
}

#[test]
fn enter_toggles_pull_request_diff_expanded_mode() {
    let mut review = review_of("@@ -1,1 +1,1 @@\n-old\n+new");
    assert!(!review.pull_request_diff_expanded());
    review.toggle_pull_request_diff_expanded(true);
    assert!(review.pull_request_diff_expanded());
    review.toggle_pull_request_diff_expanded(true);
    assert!(!review.pull_request_diff_expanded());
}

#[test]
fn gg_keeps_pull_request_diff_expanded_mode() {
    let mut review = review_of("@@ -1,1 +1,4 @@\n old\n+one\n+two\n+three");
    review.toggle_pull_request_diff_expanded(true);
    assert!(review.pull_request_diff_expanded());
    review.move_review_selection_down();
    review.jump_review_top();
    assert!(review.pull_request_diff_expanded());
    assert_eq!(review.selected_pull_request_diff_line(), 0);
}

#[test]
fn visual_mode_creates_multiline_review_target() {
    let mut review = review_of("@@ -1,1 +1,3 @@\n old\n+new\n+more");
    review.move_review_selection_down();
    review.toggle_pull_request_visual_mode();
    review.move_review_selection_down();
    let target = review.selected_pull_request_review_target().expect("target");
    assert_eq!(target.side, ReviewSide::Right);
    assert_eq!(target.start_line, Some(1));
    assert_eq!(target.line, 2);
}

#[test]
fn l_sets_review_side_to_new_on_context_row() {
    let mut review = review_of("@@ -1,2 +1,2 @@\n old\n-old2\n+new2");
    review.move_review_selection_down();
    review.set_pull_request_review_side(ReviewSide::Right);
    let right_target = review.selected_pull_request_review_target().expect("right target");
    assert_eq!(right_target.side, ReviewSide::Right);
}

#[test]
fn back_from_expanded_diff_returns_to_split_review() {
    let mut review = review_of("@@ -1,1 +1,1 @@\n-old\n+new");
    review.toggle_pull_request_diff_expanded(true);
    assert!(review.pull_request_diff_expanded());
    let leave = review.back_from_pull_request_files();
    assert!(!leave);
    assert!(!review.pull_request_diff_expanded());
}

#[test]
fn selected_pull_request_file_view_toggle_flips_current_state() {
    let mut review = ReviewState::new();
    review.set_pull_request_files(1, vec![review_file("@@ -1,1 +1,1 @@\n-old\n+new")]);
    let (path, viewed) = review.selected_pull_request_file_view_toggle().expect("toggle payload");
    assert_eq!(path, "src/main.rs");
    assert!(viewed);
    review.set_pull_request_file_viewed("src/main.rs", true);
    let (_, viewed) = review.selected_pull_request_file_view_toggle().expect("toggle payload");
    assert!(!viewed);
}

fn comment_row(id: i64, body: &str, created_at: &str) -> CommentRow {
    CommentRow {
        id,
        issue_id: 20,
        author: "dev".to_string(),
        body: body.to_string(),
        created_at: Some(created_at.to_string()),
        last_accessed_at: None,
    }
}

#[test]
fn j_and_k_navigate_comments_in_full_comments_view() {
    let mut detail = IssueDetailState::new();
    detail.set_comments(vec![
        comment_row(401, "one", "2024-01-02T01:00:00Z"),
        comment_row(402, "two", "2024-01-02T01:01:00Z"),
    ]);
    let offsets = comment_offsets(&[1, 1]);
    assert_eq!(detail.selected_comment(), 0);
    detail.jump_next_comment(&offsets);
    assert_eq!(detail.selected_comment(), 1);
    detail.jump_prev_comment(&offsets);
    assert_eq!(detail.selected_comment(), 0);
}

#[test]
fn linked_issue_none_does_not_clear_cached_link() {
    let mut linked = LinkedState::new();
    linked.set_linked_issues_for_pull_request(42, vec![7]);
    linked.set_linked_issues_for_pull_request(42, Vec::new());
    assert_eq!(linked.linked_issue_for_pull_request(42), Some(7));
}

#[test]
fn linked_pull_request_none_does_not_clear_cached_link() {
    let mut linked = LinkedState::new();
    linked.set_linked_pull_requests(7, vec![42]);
    linked.set_linked_pull_requests(7, Vec::new());
    assert_eq!(linked.linked_pull_request_for_issue(7), Some(42));
}

#[test]
fn linked_pull_request_multi_preserves_all_candidates() {
    let mut linked = LinkedState::new();
    linked.set_linked_pull_requests(7, vec![42, 84]);
    assert_eq!(linked.linked_pull_request_for_issue(7), Some(42));
    assert_eq!(linked.linked_pull_requests_for_issue(7), vec![42, 84]);
}

#[test]
fn linked_issue_multi_preserves_all_candidates() {
    let mut linked = LinkedState::new();
    linked.set_linked_issues_for_pull_request(42, vec![7, 9]);
    assert_eq!(linked.linked_issue_for_pull_request(42), Some(7));
    assert_eq!(linked.linked_issues_for_pull_request(42), vec![7, 9]);
}

#[test]
fn selected_issue_has_known_linked_pr_when_cached() {
    let mut list = IssueList::new();
    list.set_issues(vec![row(10, 55, "open", "Issue", false)]);
    let mut linked = LinkedState::new();
    assert!(!linked.selected_issue_has_known_linked_pr(list.selected_issue_row()));
    linked.set_linked_pull_requests(55, vec![99]);
    assert!(linked.selected_issue_has_known_linked_pr(list.selected_issue_row()));
}

#[test]
fn linked_picker_keyboard_flow_selects_item() {
    let mut picker = LinkedPicker::new();
    assert!(picker.open_linked_picker(View::IssueDetail, LinkedPickerTarget::PullRequestTui, vec![11, 22], &[], None));
    assert_eq!(picker.linked_picker_numbers(), vec![11, 22]);
    assert_eq!(picker.selected_linked_picker_index(), 0);
    picker.move_linked_picker_selection(true);
    assert_eq!(picker.selected_linked_picker_index(), 1);
    assert_eq!(picker.selected_linked_picker_number(), Some(22));
}

#[test]
fn linked_picker_escape_returns_to_previous_view() {
    let mut picker = LinkedPicker::new();
    assert!(picker.open_linked_picker(View::IssueComments, LinkedPickerTarget::IssueBrowser, vec![101, 102], &[], None));
    assert_eq!(picker.cancel_linked_picker(), View::IssueComments);
    assert!(picker.linked_picker_numbers().is_empty());
}

#[test]
fn linked_picker_labels_include_cached_titles() {
    let issues = vec![row(1, 22, "open", "Fix flaky sync test", true)];
    let mut picker = LinkedPicker::new();
    picker.open_linked_picker(View::IssueDetail, LinkedPickerTarget::PullRequestTui, vec![22], &issues, None);
    assert_eq!(picker.linked_picker_labels(), vec!["#22  Fix flaky sync test"]);
}

#[test]
fn linked_picker_captures_origin_from_selected_pull_request() {
    let mut list = IssueList::new();
    list.set_work_item_mode(WorkItemMode::PullRequests);
    list.set_issues(vec![row(5, 9, "open", "PR source", true)]);
    let mut picker = LinkedPicker::new();
    picker.open_linked_picker(
        View::Issues,
        LinkedPickerTarget::IssueTui,
        vec![101, 102],
        list.issues(),
        list.selected_issue_row(),
    );
    assert_eq!(picker.linked_picker_origin(), Some((9, WorkItemMode::PullRequests)));
}

#[test]
fn linked_picker_origin_restores_pull_request_context_on_back() {
    let mut list = IssueList::new();
    list.set_work_item_mode(WorkItemMode::PullRequests);
    list.set_issues(vec![row(5, 9, "open", "PR source", true), row(6, 101, "open", "Linked issue", false)]);
    let mut picker = LinkedPicker::new();
    let mut linked = LinkedState::new();
    picker.open_linked_picker(
        View::Issues,
        LinkedPickerTarget::IssueTui,
        vec![101, 102],
        list.issues(),
        list.selected_issue_row(),
    );
    linked.apply_linked_picker_navigation_origin(&picker);
    picker.clear_linked_picker_state();

    list.set_work_item_mode(WorkItemMode::Issues);
    assert!(list.select_issue_by_number(101));
    assert_eq!(list.selected_issue_row().map(|issue| issue.number), Some(101));

    let (returned, _) = linked.restore_linked_navigation_origin(&mut list);
    assert!(returned);
    assert_eq!(list.work_item_mode(), WorkItemMode::PullRequests);
    assert_eq!(list.selected_issue_row().map(|issue| issue.number), Some(9));
}

#[test]
fn mouse_click_pr_file_row_selects_file() {
    let mut review = ReviewState::new();
    review.set_pull_request_files(
        1,
        vec![
            PullRequestFile { filename: "src/a.rs".to_string(), deletions: 0, ..review_file("@@ -1,1 +1,1 @@\n-old\n+new") },
            PullRequestFile { filename: "src/b.rs".to_string(), deletions: 0, ..review_file("@@ -1,1 +1,1 @@\n-old\n+new") },
        ],
    );
    review.select_pull_request_file_row(1);
    assert_eq!(review.selected_pull_request_file(), 1);
    assert_eq!(review.pull_request_review_focus(), PullRequestReviewFocus::Files);
    review.select_pull_request_file_row(9);
    assert_eq!(review.selected_pull_request_file(), 1);
}

#[test]
fn mouse_click_diff_row_sets_side_and_line() {
    let mut review = ReviewState::new();
    review.set_pull_request_files(1, vec![review_file("@@ -1,1 +1,2 @@\n-old\n+new\n+more")]);
    review.select_pull_request_diff_row(2, ReviewSide::Left);
    assert_eq!(review.pull_request_review_focus(), PullRequestReviewFocus::Diff);
    assert_eq!(review.pull_request_review_side(), ReviewSide::Left);
    assert_eq!(review.selected_pull_request_diff_line(), 2);
}

#[test]
fn diff_horizontal_scroll_uses_keyboard_and_mouse() {
    let mut review = review_of("@@ -1,1 +1,1 @@\n-old\n+new");
    review.set_pull_request_diff_horizontal_max(20);
    review.scroll_pull_request_diff_horizontal(true, 4);
    assert_eq!(review.pull_request_diff_scrolls().1, 4);
    review.scroll_pull_request_diff_horizontal(true, 4);
    assert_eq!(review.pull_request_diff_scrolls().1, 8);
    review.reset_pull_request_diff_horizontal_scroll();
    assert_eq!(review.pull_request_diff_scrolls().1, 0);
}
