use blippy::app::{AppAction, CommentEditorState, EditorMode, Focus, PullRequestFile, PullRequestReviewFocus, ReviewSide, View};
use blippy::editor::{handle_editor_key, EditorEffect};
use blippy::input::{activation_command, comments_pane_hint, key_handler, keymap_command, KeyCommand, KeyContext, KeyHandler};
use blippy::keybinds::{action_overridden, KeyCode, KeyMods, KeyPress, Keybinds};
use blippy::review::ReviewState;

fn ctx(view: View) -> KeyContext {
    KeyContext {
        view,
        review_focus: PullRequestReviewFocus::Files,
        help_visible: false,
        pending_g: false,
        pending_d: false,
        has_issue: true,
        issue_closed: false,
        item_is_pr: false,
        ctrl_c_quits: true,
    }
}

fn plain(ch: char) -> KeyPress {
    KeyPress::new(KeyCode::Char(ch), KeyMods::none())
}

fn shifted(ch: char) -> KeyPress {
    KeyPress::new(KeyCode::Char(ch), KeyMods::shift_only())
}

fn command(c: KeyContext, key: KeyPress) -> KeyCommand {
    keymap_command(c, key).command
}

#[test]
fn dd_triggers_close_issue_action() {
    let c = ctx(View::Issues);
    let first = keymap_command(c, plain('d'));
    assert_eq!(first.command, KeyCommand::Nothing);
    assert!(first.pending_d);
    let second = keymap_command(KeyContext { pending_d: first.pending_d, ..c }, plain('d'));
    assert_eq!(second.command, KeyCommand::Action(AppAction::CloseIssue));
    assert!(!second.pending_d);
}

#[test]
fn dd_triggers_close_issue_action_in_detail_view() {
    let c = ctx(View::IssueDetail);
    let first = keymap_command(c, plain('d'));
    let second = keymap_command(KeyContext { pending_d: first.pending_d, ..c }, plain('d'));
    assert_eq!(second.command, KeyCommand::Action(AppAction::CloseIssue));
}

#[test]
fn d_refuses_without_an_open_item_and_other_keys_drop_it() {
    let none = KeyContext { has_issue: false, ..ctx(View::Issues) };
    let out = keymap_command(none, plain('d'));
    assert_eq!(out.command, KeyCommand::NoIssueSelected);
    assert!(!out.pending_d);
    let closed = KeyContext { issue_closed: true, ..ctx(View::IssueDetail) };
    assert_eq!(command(closed, plain('d')), KeyCommand::IssueAlreadyClosed);
    let pending = KeyContext { pending_d: true, pending_g: true, ..ctx(View::Issues) };
    let out = keymap_command(pending, plain('j'));
    assert_eq!(out.command, KeyCommand::MoveDown);
    assert!(!out.pending_d && !out.pending_g);
}

#[test]
fn gg_jumps_to_the_top() {
    let c = ctx(View::PullRequestFiles);
    let first = keymap_command(c, plain('g'));
    assert_eq!(first.command, KeyCommand::Nothing);
    assert!(first.pending_g);
    let second = keymap_command(KeyContext { pending_g: true, ..c }, plain('g'));
    assert_eq!(second.command, KeyCommand::JumpTop);
    assert!(!second.pending_g);
    assert_eq!(command(c, shifted('G')), KeyCommand::JumpBottom);
}

#[test]
fn enter_on_pr_changes_pane_opens_full_pr_changes_view() {
    let c = KeyContext { item_is_pr: true, ..ctx(View::IssueDetail) };
    let ctrl_l = KeyPress::new(KeyCode::Char('l'), KeyMods::control_only());
    assert_eq!(command(c, ctrl_l), KeyCommand::FocusRecentComments);
    assert_eq!(command(c, KeyPress::new(KeyCode::Enter, KeyMods::none())), KeyCommand::Activate);
    assert_eq!(
        activation_command(View::IssueDetail, Focus::IssueRecentComments, true, PullRequestReviewFocus::Files),
        KeyCommand::ShowView(View::PullRequestFiles)
    );
}

#[test]
fn enter_on_issue_side_pane_opens_comments_view() {
    let ctrl_l = KeyPress::new(KeyCode::Char('l'), KeyMods::control_only());
    assert_eq!(command(ctx(View::IssueDetail), ctrl_l), KeyCommand::FocusRecentComments);
    assert_eq!(
        activation_command(View::IssueDetail, Focus::IssueRecentComments, false, PullRequestReviewFocus::Files),
        KeyCommand::OpenFullComments
    );
}

#[test]
fn enter_on_pr_body_opens_comments_view() {
    assert_eq!(
        activation_command(View::IssueDetail, Focus::IssueBody, true, PullRequestReviewFocus::Files),
        KeyCommand::OpenFullComments
    );
}

#[test]
fn enter_on_issue_body_asks_to_focus_the_comments_pane() {
    assert_eq!(
        activation_command(View::IssueDetail, Focus::IssueBody, false, PullRequestReviewFocus::Files),
        KeyCommand::CommentsPaneHint
    );
    assert_eq!(comments_pane_hint(), "Focus comments pane (Ctrl+l), then press Enter to open full comments");
    assert_eq!(
        activation_command(View::Issues, Focus::IssuesList, false, PullRequestReviewFocus::Files),
        KeyCommand::Action(AppAction::PickIssue)
    );
    assert_eq!(
        activation_command(View::LinkedPicker, Focus::IssuesList, false, PullRequestReviewFocus::Files),
        KeyCommand::Action(AppAction::PickLinkedItem)
    );
    assert_eq!(
        activation_command(View::PullRequestFiles, Focus::IssuesList, false, PullRequestReviewFocus::Files),
        KeyCommand::FocusReviewDiff
    );
}

#[test]
fn enter_in_the_focused_diff_expands_it() {
    assert_eq!(
        activation_command(View::PullRequestFiles, Focus::IssueBody, true, PullRequestReviewFocus::Diff),
        KeyCommand::ToggleDiffExpanded
    );
}

#[test]
fn v_triggers_checkout_pull_request_action() {
    assert_eq!(command(ctx(View::Issues), plain('v')), KeyCommand::Action(AppAction::CheckoutPullRequest));
}

#[test]
fn shift_o_triggers_open_linked_pull_request_in_browser_action() {
    assert_eq!(
        command(ctx(View::Issues), shifted('O')),
        KeyCommand::Action(AppAction::OpenLinkedPullRequestInBrowser)
    );
}

#[test]
fn shift_p_triggers_open_linked_pull_request_in_tui_action() {
    assert_eq!(command(ctx(View::Issues), shifted('P')), KeyCommand::Action(AppAction::OpenLinkedPullRequestInTui));
}

#[test]
fn shift_o_on_selected_pr_triggers_open_linked_issue_in_browser_action() {
    let c = KeyContext { item_is_pr: true, ..ctx(View::Issues) };
    assert_eq!(command(c, shifted('O')), KeyCommand::Action(AppAction::OpenLinkedIssueInBrowser));
}

#[test]
fn shift_p_on_selected_pr_triggers_open_linked_issue_in_tui_action() {
    let c = KeyContext { item_is_pr: true, ..ctx(View::Issues) };
    assert_eq!(command(c, shifted('P')), KeyCommand::Action(AppAction::OpenLinkedIssueInTui));
}

#[test]
fn r_requests_pull_request_files_sync_for_pr_detail() {
    let c = KeyContext { item_is_pr: true, ..ctx(View::IssueDetail) };
    assert_eq!(command(c, plain('r')), KeyCommand::SyncIssueAndComments);
    assert_eq!(command(ctx(View::Issues), plain('r')), KeyCommand::SyncIssues);
}

#[test]
fn reopen_action_for_closed_issue() {
    let c = KeyContext { issue_closed: true, ..ctx(View::Issues) };
    assert_eq!(command(c, plain('u')), KeyCommand::Action(AppAction::ReopenIssue));
}

#[test]
fn comment_action_on_issue() {
    assert_eq!(command(ctx(View::Issues), plain('m')), KeyCommand::Action(AppAction::AddIssueComment));
}

#[test]
fn m_triggers_pull_request_review_comment_in_review_view() {
    let mut review = ReviewState::new();
    review.set_pull_request_files(
        1,
        vec![PullRequestFile {
            filename: "src/main.rs".to_string(),
            status: "modified".to_string(),
            additions: 1,
            deletions: 1,
            patch: Some("@@ -1,1 +1,2 @@\n-old\n+new\n+more".to_string()),
        }],
    );
    review.set_pull_request_review_focus(PullRequestReviewFocus::Diff);
    let c = KeyContext { review_focus: review.pull_request_review_focus(), ..ctx(View::PullRequestFiles) };
    assert_eq!(command(c, plain('j')), KeyCommand::MoveDown);
    review.move_review_selection_down();
    assert_eq!(command(c, plain('m')), KeyCommand::Action(AppAction::AddPullRequestReviewComment));
    let target = review.selected_pull_request_review_target().expect("review target");
    assert_eq!(target.path, "src/main.rs");
    assert_eq!(target.line, 1);
    assert_eq!(target.side, ReviewSide::Right);
}

#[test]
fn review_comment_editor_submit_action_is_emitted() {
    assert_eq!(key_handler(View::CommentEditor, false, false), KeyHandler::Editor);
    let mut editor = CommentEditorState::new();
    editor.reset_for_pull_request_review_comment();
    assert_eq!(
        handle_editor_key(View::CommentEditor, &mut editor, KeyPress::new(KeyCode::Enter, KeyMods::none())),
        EditorEffect::Submit(AppAction::SubmitPullRequestReviewComment)
    );
}

#[test]
fn shift_r_triggers_resolve_review_comment_action() {
    assert_eq!(
        command(ctx(View::PullRequestFiles), shifted('R')),
        KeyCommand::Action(AppAction::ResolvePullRequestReviewComment)
    );
}

#[test]
fn w_emits_toggle_pull_request_file_viewed_action() {
    assert_eq!(
        command(ctx(View::PullRequestFiles), plain('w')),
        KeyCommand::Action(AppAction::TogglePullRequestFileViewed)
    );
}

#[test]
fn question_mark_toggles_help_overlay() {
    let c = ctx(View::Issues);
    assert_eq!(command(c, shifted('?')), KeyCommand::ToggleHelp);
    let shown = KeyContext { help_visible: true, ..c };
    assert_eq!(command(shown, KeyPress::new(KeyCode::Esc, KeyMods::none())), KeyCommand::CloseHelp);
}

#[test]
fn e_triggers_edit_comment_action_in_comments_view() {
    assert_eq!(command(ctx(View::IssueComments), plain('e')), KeyCommand::Action(AppAction::EditIssueComment));
}

#[test]
fn x_triggers_delete_comment_action_in_comments_view() {
    assert_eq!(command(ctx(View::IssueComments), plain('x')), KeyCommand::Action(AppAction::DeleteIssueComment));
}

#[test]
fn l_triggers_edit_labels_action() {
    assert_eq!(command(ctx(View::Issues), plain('l')), KeyCommand::Action(AppAction::EditLabels));
}

#[test]
fn shift_a_triggers_edit_assignees_action_in_detail() {
    assert_eq!(command(ctx(View::IssueDetail), shifted('A')), KeyCommand::Action(AppAction::EditAssignees));
}

#[test]
fn shift_a_triggers_edit_assignees_action_in_issues() {
    assert_eq!(command(ctx(View::Issues), shifted('A')), KeyCommand::Action(AppAction::EditAssignees));
}

#[test]
fn labels_picker_enter_submits() {
    assert_eq!(key_handler(View::LabelPicker, false, false), KeyHandler::PopupFilter);
    assert_eq!(command(ctx(View::LabelPicker), KeyPress::new(KeyCode::Enter, KeyMods::none())), KeyCommand::SubmitLabels);
}

#[test]
fn keys_go_to_open_search_boxes_first() {
    assert_eq!(key_handler(View::RepoPicker, true, false), KeyHandler::RepoSearch);
    assert_eq!(key_handler(View::RepoPicker, false, true), KeyHandler::Keymap);
    assert_eq!(key_handler(View::Issues, false, true), KeyHandler::IssueSearch);
    assert_eq!(key_handler(View::CommentPresetName, true, true), KeyHandler::Editor);
}

#[test]
fn review_keys_follow_the_focused_pane() {
    let files = ctx(View::PullRequestFiles);
    let diff = KeyContext { review_focus: PullRequestReviewFocus::Diff, ..files };
    assert_eq!(command(diff, plain('h')), KeyCommand::SetReviewSide(ReviewSide::Left));
    assert_eq!(command(diff, plain('l')), KeyCommand::SetReviewSide(ReviewSide::Right));
    assert_eq!(command(files, plain('l')), KeyCommand::Nothing);
    assert_eq!(command(diff, plain('c')), KeyCommand::ToggleHunk);
    assert_eq!(command(files, plain('c')), KeyCommand::Nothing);
    assert_eq!(command(files, plain('[')), KeyCommand::ScrollDiffHorizontal(-4));
    assert_eq!(command(files, plain(']')), KeyCommand::ScrollDiffHorizontal(4));
    assert_eq!(command(files, plain('n')), KeyCommand::CycleReviewComment(true));
    assert_eq!(command(files, plain('p')), KeyCommand::CycleReviewComment(false));
    let ctrl_j = KeyPress::new(KeyCode::Char('j'), KeyMods::control_only());
    assert_eq!(command(files, ctrl_j), KeyCommand::FocusReviewDiff);
    let ctrl_r = KeyPress::new(KeyCode::Char('r'), KeyMods::control_only());
    assert_eq!(command(ctx(View::RepoPicker), ctrl_r), KeyCommand::Rescan);
    let ctrl_c = KeyPress::new(KeyCode::Char('c'), KeyMods::control_only());
    assert_eq!(command(files, ctrl_c), KeyCommand::Quit);
    assert_eq!(command(KeyContext { ctrl_c_quits: false, ..files }, ctrl_c), KeyCommand::Nothing);
    assert_eq!(command(files, plain('q')), KeyCommand::Quit);
}

#[test]
fn custom_quit_keybinding_remaps_and_disables_default() {
    let overrides = vec![("quit".to_string(), "ctrl+q".to_string())];
    let keybinds = Keybinds::from_overrides(&overrides);
    let issues = KeyContext { ctrl_c_quits: !action_overridden(&overrides, "quit"), ..ctx(View::Issues) };

    let ctrl_c = KeyPress::new(KeyCode::Char('c'), KeyMods::control_only());
    let quits = match keybinds.remap_key(ctrl_c) {
        Some(key) => command(issues, key) == KeyCommand::Quit,
        None => false,
    };
    assert!(!quits);

    let ctrl_q = KeyPress::new(KeyCode::Char('q'), KeyMods::control_only());
    let quits = match keybinds.remap_key(ctrl_q) {
        Some(key) => command(issues, key) == KeyCommand::Quit,
        None => false,
    };
    assert!(quits);

    let default_q = keybinds.remap_key(plain('q'));
    assert!(default_q.is_none());
}

#[test]
fn ctrl_c_quits_while_quit_keeps_its_default() {
    let keybinds = Keybinds::from_overrides(&[]);
    let issues = KeyContext { ctrl_c_quits: !action_overridden(&[], "quit"), ..ctx(View::Issues) };
    let ctrl_c = KeyPress::new(KeyCode::Char('c'), KeyMods::control_only());
    let key = keybinds.remap_key(ctrl_c).expect("not remapped");
    assert_eq!(command(issues, key), KeyCommand::Quit);
}

#[test]
fn create_issue_action_opens_create_issue_editor() {
    let shift_n = KeyPress::new(KeyCode::Char('N'), KeyMods::shift_only());
    let outcome = keymap_command(ctx(View::Issues), shift_n);
    assert_eq!(outcome.command, KeyCommand::Action(AppAction::CreateIssue));
    let mut editor = CommentEditorState::new();
    editor.reset_for_issue_create();
    assert_eq!(editor.mode(), EditorMode::CreateIssue);
    assert!(editor.create_issue_title_focused());
}
