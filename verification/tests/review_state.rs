use blippy::app::{PullRequestFile, PullRequestReviewComment, PullRequestReviewFocus, ReviewSide};
use blippy::pr_diff::parse_patch;
use blippy::review::{patches_fit_check, ReviewState};

fn file(patch: &str) -> PullRequestFile {
    PullRequestFile {
        filename: "src/main.rs".to_string(),
        status: "modified".to_string(),
        additions: 1,
        deletions: 1,
        patch: Some(patch.to_string()),
    }
}

fn review_of(patch: &str) -> ReviewState {
    let mut review = ReviewState::new();
    review.set_pull_request_files(1, vec![file(patch)]);
    review.set_pull_request_review_focus(PullRequestReviewFocus::Diff);
    review
}

fn review_comment(id: i64, line: i64) -> PullRequestReviewComment {
    PullRequestReviewComment {
        id,
        thread_id: None,
        resolved: false,
        anchored: true,
        path: "src/main.rs".to_string(),
        line,
        side: ReviewSide::Right,
        body: format!("comment {id}"),
        author: "dev".to_string(),
        created_at: None,
    }
}

#[test]
fn collapsing_needs_the_diff_focused() {
    let mut review = ReviewState::new();
    review.set_pull_request_files(1, vec![file("@@ -1,1 +1,1 @@\n-old\n+new")]);
    review.toggle_selected_pull_request_hunk_collapsed();
    assert_eq!(review.status(), "Focus the diff pane to collapse sections");
    assert!(!review.pull_request_hunk_is_collapsed("src/main.rs", 0));
}

#[test]
fn visual_mode_targets_the_selected_range() {
    let mut review = review_of("@@ -1,1 +1,3 @@\n old\n+new\n+more");
    review.move_review_selection_down();
    review.toggle_pull_request_visual_mode();
    review.move_review_selection_down();

    let target = review.selected_pull_request_review_target().expect("target");
    assert_eq!(target.path, "src/main.rs");
    assert_eq!(target.side, ReviewSide::Right);
    assert_eq!(target.start_line, Some(1));
    assert_eq!(target.line, 2);
    assert_eq!(review.pull_request_visual_range(), Some((1, 2)));

    review.toggle_pull_request_visual_mode();
    assert_eq!(review.pull_request_visual_range(), None);
}

#[test]
fn right_side_on_a_context_row_targets_the_new_line() {
    let mut review = review_of("@@ -1,2 +1,2 @@\n old\n-old2\n+new2");
    review.move_review_selection_down();
    review.set_pull_request_review_side(ReviewSide::Right);
    let target = review.selected_pull_request_review_target().expect("target");
    assert_eq!(target.side, ReviewSide::Right);
    assert_eq!(target.line, 1);
    assert_eq!(target.start_line, None);
}

#[test]
fn expanding_is_ignored_outside_the_diff() {
    let mut review = ReviewState::new();
    review.toggle_pull_request_diff_expanded(true);
    assert!(!review.pull_request_diff_expanded());
    let mut focused = review_of("@@ -1,1 +1,1 @@\n-old\n+new");
    focused.toggle_pull_request_diff_expanded(false);
    assert!(!focused.pull_request_diff_expanded());
}

#[test]
fn scrolls_stay_within_their_limits() {
    let mut review = review_of("@@ -1,1 +1,1 @@\n-old\n+new");
    review.set_pull_request_diff_max_scroll(10);
    review.set_pull_request_diff_scroll(25);
    assert_eq!(review.pull_request_diff_scrolls().0, 10);
    review.set_pull_request_diff_max_scroll(4);
    assert_eq!(review.pull_request_diff_scrolls().0, 4);

    review.set_pull_request_diff_horizontal_max(8);
    review.scroll_pull_request_diff_horizontal(true, 5);
    assert_eq!(review.pull_request_diff_scrolls().1, 5);
    review.scroll_pull_request_diff_horizontal(true, 5);
    assert_eq!(review.pull_request_diff_scrolls().1, 8);
    review.scroll_pull_request_diff_horizontal(true, -3);
    assert_eq!(review.pull_request_diff_scrolls().1, 5);
    review.scroll_pull_request_diff_horizontal(true, -20);
    assert_eq!(review.pull_request_diff_scrolls().1, 0);
    review.scroll_pull_request_diff_horizontal(false, 2);
    assert_eq!(review.pull_request_diff_scrolls().1, 0);
}

#[test]
fn comments_on_the_highlighted_line_cycle_in_id_order() {
    let mut review = review_of("@@ -1,1 +1,3 @@\n old\n+new\n+more");
    review.move_review_selection_down();
    review.move_review_selection_down();
    review.set_pull_request_review_comments(vec![review_comment(9, 2), review_comment(4, 2), review_comment(7, 3)]);
    assert_eq!(review.selected_pull_request_review_comment_id(), Some(4));

    review.cycle_pull_request_review_comment(true);
    assert_eq!(review.selected_pull_request_review_comment_id(), Some(9));
    review.cycle_pull_request_review_comment(true);
    assert_eq!(review.selected_pull_request_review_comment_id(), Some(4));
    review.cycle_pull_request_review_comment(false);
    assert_eq!(review.selected_pull_request_review_comment_id(), Some(9));

    assert_eq!(review.pull_request_comments_count_for_path("src/main.rs"), 3);
    let on_line: Vec<i64> = review
        .pull_request_comments_for_path_and_line("src/main.rs", ReviewSide::Right, 2)
        .iter()
        .map(|c| c.id)
        .collect();
    assert_eq!(on_line.len(), 2);
    assert!(on_line.contains(&4) && on_line.contains(&9));
}

#[test]
fn comments_can_be_edited_and_removed_by_id() {
    let mut review = review_of("@@ -1,1 +1,3 @@\n old\n+new\n+more");
    review.set_pull_request_review_comments(vec![review_comment(1, 2), review_comment(2, 3)]);
    review.update_pull_request_review_comment_body_by_id(2, "edited");
    let edited: Vec<&PullRequestReviewComment> =
        review.pull_request_comments_for_path_and_line("src/main.rs", ReviewSide::Right, 3);
    assert_eq!(edited[0].body, "edited");

    review.remove_pull_request_review_comment_by_id(1);
    assert_eq!(review.pull_request_comments_count_for_path("src/main.rs"), 1);
    assert!(review.pull_request_comments_for_path_and_line("src/main.rs", ReviewSide::Right, 2).is_empty());
}

#[test]
fn viewed_files_are_remembered_per_pull_request() {
    let mut review = review_of("@@ -1,1 +1,1 @@\n-old\n+new");
    assert!(!review.pull_request_file_is_viewed("src/main.rs"));
    review.set_pull_request_file_viewed("src/main.rs", true);
    assert!(review.pull_request_file_is_viewed("src/main.rs"));
    review.set_pull_request_review_focus(PullRequestReviewFocus::Files);
    assert_eq!(review.selected_pull_request_file_view_toggle(), Some(("src/main.rs".to_string(), false)));
    review.set_pull_request_file_viewed("src/main.rs", false);
    assert!(!review.pull_request_file_is_viewed("src/main.rs"));
}

#[test]
fn pending_target_and_editing_id_are_taken_once() {
    let mut review = review_of("@@ -1,1 +1,1 @@\n-old\n+new");
    assert_eq!(review.selected_pull_request_review_target(), None);
    review.move_review_selection_down();
    let target = review.selected_pull_request_review_target();
    assert!(target.is_some());
    review.set_pending_review_target(target.clone());
    assert_eq!(review.take_pending_review_target(), target);
    assert_eq!(review.take_pending_review_target(), None);

    review.set_editing_pull_request_review_comment_id(Some(12));
    assert_eq!(review.take_editing_pull_request_review_comment_id(), Some(12));
    assert_eq!(review.take_editing_pull_request_review_comment_id(), None);
}

fn named(name: &str, patch: &str) -> PullRequestFile {
    PullRequestFile { filename: name.to_string(), ..file(patch) }
}

#[test]
fn up_and_bottom_moves_over_files_and_diff_lines() {
    let mut review = ReviewState::new();
    review.set_pull_request_files(
        1,
        vec![named("a.rs", "@@ -1,1 +1,2 @@\n-old\n+new\n+more"), named("b.rs", "@@ -1,1 +1,1 @@\n-x\n+y")],
    );
    assert_eq!(review.pull_request_files().len(), 2);
    review.jump_review_bottom();
    assert_eq!(review.selected_pull_request_file(), 1);
    assert_eq!(review.selected_pull_request_file_row().map(|f| f.filename.clone()), Some("b.rs".to_string()));
    review.move_review_selection_up();
    assert_eq!(review.selected_pull_request_file(), 0);
    review.move_review_selection_up();
    assert_eq!(review.selected_pull_request_file(), 0);

    review.set_pull_request_review_focus(PullRequestReviewFocus::Diff);
    review.jump_review_bottom();
    let rows = parse_patch(Some("@@ -1,1 +1,2 @@\n-old\n+new\n+more"));
    assert_eq!(rows.len(), 3);
    assert_eq!(review.selected_pull_request_diff_line(), 2);
    review.move_review_selection_up();
    assert_eq!(review.selected_pull_request_diff_line(), 1);
}

#[test]
fn collapsed_hunks_report_their_hidden_lines() {
    let patch = "@@ -1,1 +1,4 @@\n old\n+new-a\n+new-b\n+new-c\n@@ -10,1 +10,1 @@\n-old-two\n+new-two";
    let mut review = review_of(patch);
    let rows = parse_patch(Some(patch));
    assert_eq!(review.pull_request_hunk_hidden_line_count("src/main.rs", &rows, 0), 0);
    review.toggle_selected_pull_request_hunk_collapsed();
    assert_eq!(review.pull_request_hunk_hidden_line_count("src/main.rs", &rows, 0), 4);
    assert_eq!(review.pull_request_hunk_hidden_line_count("src/main.rs", &rows, 5), 0);
}

#[test]
fn view_state_keeps_marks_of_loaded_files_and_reset_clears_everything() {
    let mut review = ReviewState::new();
    review.set_pull_request_files(1, vec![named("a.rs", "@@ -1,1 +1,1 @@\n-x\n+y")]);
    review.set_pull_request_view_state(Some("PR_1".to_string()), vec!["a.rs".to_string(), "gone.rs".to_string()]);
    assert!(review.pull_request_file_is_viewed("a.rs"));
    assert!(!review.pull_request_file_is_viewed("gone.rs"));

    review.reset_pull_request_state();
    assert!(review.pull_request_files().is_empty());
    assert!(!review.pull_request_file_is_viewed("a.rs"));
    assert_eq!(review.selected_pull_request_file(), 0);
}

#[test]
fn the_selected_comment_is_the_one_on_the_highlighted_line() {
    let mut review = review_of("@@ -1,1 +1,3 @@\n old\n+new\n+more");
    review.set_pull_request_review_comments(vec![review_comment(5, 2)]);
    assert!(review.selected_pull_request_review_comment().is_none());
    review.move_review_selection_down();
    review.move_review_selection_down();
    assert_eq!(review.selected_pull_request_review_comment().map(|c| c.id), Some(5));
    assert_eq!(review.selected_pull_request_review_comment_id(), Some(5));
}

#[test]
fn file_lists_are_checked_before_loading() {
    let good = file("@@ -1,2 +1,2 @@\n a\n-b\n+c\n");
    let mut none = file("");
    none.patch = None;
    assert!(patches_fit_check(&vec![good.clone(), none.clone()]));
    assert!(patches_fit_check(&vec![]));
    let huge = file("@@ -9223372036854775807,2 +1,2 @@\n a\n b\n");
    assert!(!patches_fit_check(&vec![good, huge, none]));
}
