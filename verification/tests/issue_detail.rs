use blippy::issue_detail::{comment_offsets, CommentRow, IssueDetailState};

fn comment(id: i64, body: &str) -> CommentRow {
    CommentRow {
        id,
        issue_id: 20,
        author: "dev".to_string(),
        body: body.to_string(),
        created_at: Some("2024-01-02T01:00:00Z".to_string()),
        last_accessed_at: None,
    }
}

fn ids(state: &IssueDetailState) -> Vec<i64> {
    state.comments().iter().map(|c| c.id).collect()
}

#[test]
fn next_and_previous_comment_move_the_highlight_and_scroll() {
    let mut state = IssueDetailState::new();
    state.set_comments(vec![comment(401, "one"), comment(402, "two")]);
    let offsets = comment_offsets(&[1, 1]);
    assert_eq!(offsets, vec![0, 3]);
    state.set_issue_comments_max_scroll(10);

    assert_eq!(state.selected_comment(), 0);
    state.jump_next_comment(&offsets);
    assert_eq!(state.selected_comment(), 1);
    assert_eq!(state.scrolls().1, 3);
    assert_eq!(state.status(), "Comment 2/2");
    state.jump_next_comment(&offsets);
    assert_eq!(state.selected_comment(), 1);

    state.jump_prev_comment(&offsets);
    assert_eq!(state.selected_comment(), 0);
    assert_eq!(state.scrolls().1, 0);
    assert_eq!(state.status(), "Comment 1/2");
}

#[test]
fn next_comment_scroll_stays_within_the_limit() {
    let mut state = IssueDetailState::new();
    state.set_comments(vec![comment(1, "a"), comment(2, "b")]);
    state.set_issue_comments_max_scroll(2);
    state.jump_next_comment(&comment_offsets(&[4, 1]));
    assert_eq!(state.scrolls().1, 2);
}

#[test]
fn offsets_count_header_body_and_blank_lines() {
    assert_eq!(comment_offsets(&[]), Vec::<u16>::new());
    assert_eq!(comment_offsets(&[0, 2, 5]), vec![0, 3, 7]);
    assert_eq!(comment_offsets(&[70000, 1]), vec![0, 65535]);
}

#[test]
fn refreshing_comments_keeps_the_highlighted_comment() {
    let mut state = IssueDetailState::new();
    state.set_comments(vec![comment(1, "a"), comment(2, "b"), comment(3, "c")]);
    state.select_comment_at(2);
    state.set_comments(vec![comment(3, "c"), comment(1, "a")]);
    assert_eq!(state.selected_comment(), 0);
    assert_eq!(state.selected_comment_row().map(|c| c.id), Some(3));
    state.set_comments(vec![comment(7, "x")]);
    assert_eq!(state.selected_comment(), 0);
    state.set_comments(Vec::new());
    assert!(state.selected_comment_row().is_none());
}

#[test]
fn editing_and_removing_comments_by_id() {
    let mut state = IssueDetailState::new();
    state.set_comments(vec![comment(1, "a"), comment(2, "b"), comment(3, "c")]);
    state.update_comment_body_by_id(2, "edited");
    assert_eq!(state.comments()[1].body, "edited");
    state.update_comment_body_by_id(9, "nothing");
    assert_eq!(ids(&state), vec![1, 2, 3]);

    state.select_comment_at(2);
    state.remove_comment_by_id(1);
    assert_eq!(ids(&state), vec![2, 3]);
    assert_eq!(state.selected_comment_row().map(|c| c.id), Some(3));
    state.remove_comment_by_id(3);
    assert_eq!(state.selected_comment(), 0);
    state.remove_comment_by_id(2);
    assert!(state.comments().is_empty());
    assert_eq!(state.selected_comment(), 0);
}

#[test]
fn comment_panes_jump_and_scroll() {
    let mut state = IssueDetailState::new();
    state.set_comments(vec![comment(1, "a"), comment(2, "b")]);
    state.set_issue_comments_max_scroll(6);
    state.jump_comments_bottom();
    assert_eq!(state.selected_comment(), 1);
    assert_eq!(state.scrolls().1, 6);
    state.jump_comments_top();
    assert_eq!(state.selected_comment(), 0);
    assert_eq!(state.scrolls().1, 0);

    state.set_issue_detail_max_scroll(2);
    state.scroll_detail_down(false);
    state.scroll_detail_down(false);
    state.scroll_detail_down(false);
    assert_eq!(state.scrolls().0, 2);
    state.scroll_detail_up(false);
    assert_eq!(state.scrolls().0, 1);

    state.set_issue_recent_comments_max_scroll(4);
    state.jump_detail(true, false);
    assert_eq!(state.scrolls().2, 4);
    state.set_issue_recent_comments_max_scroll(3);
    assert_eq!(state.scrolls().2, 3);
    state.jump_detail(true, true);
    assert_eq!(state.scrolls().2, 0);
    state.scroll_detail_up(true);
    assert_eq!(state.scrolls().2, 0);
    assert_eq!(state.scrolls().0, 1);
}

#[test]
fn resetting_the_comments_scroll_goes_back_to_the_top() {
    let mut state = IssueDetailState::new();
    state.set_comments(vec![comment(1, "a"), comment(2, "b")]);
    state.set_issue_comments_max_scroll(9);
    state.jump_comments_bottom();
    assert_eq!(state.scrolls().1, 9);
    state.reset_issue_comments_scroll();
    assert_eq!(state.scrolls().1, 0);
    assert_eq!(state.selected_comment(), 1);
}
