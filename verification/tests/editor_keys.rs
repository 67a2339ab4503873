use blippy::app::{AppAction, CommentEditorState, EditorMode, View};
use blippy::editor::{editor_status, handle_editor_key, EditorEffect};
use blippy::keybinds::{KeyCode, KeyMods, KeyPress};

fn key(code: KeyCode) -> KeyPress {
    KeyPress::new(code, KeyMods::none())
}

#[test]
fn typing_and_submitting_a_comment() {
    let mut editor = CommentEditorState::new();
    editor.reset_for_comment();
    for ch in "hi".chars() {
        assert_eq!(handle_editor_key(View::CommentEditor, &mut editor, key(KeyCode::Char(ch))), EditorEffect::Nothing);
    }
    assert_eq!(editor.text(), "hi");
    assert_eq!(
        handle_editor_key(View::CommentEditor, &mut editor, key(KeyCode::Enter)),
        EditorEffect::Submit(AppAction::SubmitIssueComment)
    );
}

#[test]
fn newline_keys_add_a_line_break() {
    let mut editor = CommentEditorState::new();
    editor.reset_for_comment_edit("a");
    handle_editor_key(View::CommentEditor, &mut editor, KeyPress::new(KeyCode::Enter, KeyMods::shift_only()));
    handle_editor_key(View::CommentEditor, &mut editor, KeyPress::new(KeyCode::Char('j'), KeyMods::control_only()));
    let alt = KeyMods { alt: true, ..KeyMods::none() };
    handle_editor_key(View::CommentEditor, &mut editor, KeyPress::new(KeyCode::Enter, alt));
    assert_eq!(editor.text(), "a\n\n\n");
    assert_eq!(editor.mode(), EditorMode::EditComment);
    assert_eq!(
        handle_editor_key(View::CommentEditor, &mut editor, KeyPress::new(KeyCode::Char('k'), KeyMods::control_only())),
        EditorEffect::Nothing
    );
    assert_eq!(editor.text(), "a\n\n\n");
    handle_editor_key(View::CommentEditor, &mut editor, key(KeyCode::Backspace));
    assert_eq!(editor.text(), "a\n\n");
}

#[test]
fn escape_cancels_and_each_mode_submits_its_action() {
    let mut editor = CommentEditorState::new();
    assert_eq!(handle_editor_key(View::CommentEditor, &mut editor, key(KeyCode::Esc)), EditorEffect::Cancel);
    assert_eq!(
        handle_editor_key(View::CommentEditor, &mut editor, key(KeyCode::Enter)),
        EditorEffect::Submit(AppAction::SubmitComment)
    );
    editor.reset_for_pull_request_review_comment();
    assert_eq!(
        handle_editor_key(View::CommentEditor, &mut editor, key(KeyCode::Enter)),
        EditorEffect::Submit(AppAction::SubmitPullRequestReviewComment)
    );
    editor.reset_for_pull_request_review_comment_edit("x");
    assert_eq!(
        handle_editor_key(View::CommentEditor, &mut editor, key(KeyCode::Enter)),
        EditorEffect::Submit(AppAction::SubmitEditedPullRequestReviewComment)
    );
    editor.reset_for_preset_name();
    assert_eq!(
        handle_editor_key(View::CommentEditor, &mut editor, key(KeyCode::Enter)),
        EditorEffect::Submit(AppAction::SavePreset)
    );
}

#[test]
fn preset_name_prompt_requires_a_name() {
    let mut editor = CommentEditorState::new();
    editor.reset_for_preset_name();
    assert_eq!(
        handle_editor_key(View::CommentPresetName, &mut editor, key(KeyCode::Enter)),
        EditorEffect::PresetNameRequired
    );
    handle_editor_key(View::CommentPresetName, &mut editor, key(KeyCode::Char('x')));
    handle_editor_key(View::CommentPresetName, &mut editor, key(KeyCode::Char('y')));
    handle_editor_key(View::CommentPresetName, &mut editor, key(KeyCode::Backspace));
    assert_eq!(editor.name(), "x");
    assert_eq!(
        handle_editor_key(View::CommentPresetName, &mut editor, key(KeyCode::Enter)),
        EditorEffect::WritePresetBody
    );
    assert_eq!(
        handle_editor_key(View::CommentPresetName, &mut editor, key(KeyCode::Esc)),
        EditorEffect::ShowView(View::CommentPresetPicker)
    );
    assert_eq!(handle_editor_key(View::Issues, &mut editor, key(KeyCode::Char('z'))), EditorEffect::Nothing);
    assert_eq!(editor.name(), "x");
}

#[test]
fn closing_comment_starts_empty_and_every_mode_is_multiline() {
    let mut editor = CommentEditorState::new();
    editor.reset_for_comment_edit("old text");
    editor.reset_for_close();
    assert_eq!(editor.mode(), EditorMode::CloseIssue);
    assert_eq!(editor.text(), "");
    assert!(editor.mode().allows_multiline());
    assert_eq!(
        handle_editor_key(View::CommentEditor, &mut editor, KeyPress::new(KeyCode::Enter, KeyMods::none())),
        EditorEffect::Submit(AppAction::SubmitComment)
    );
}

#[test]
fn review_sides_use_the_api_names() {
    assert_eq!(blippy::app::ReviewSide::Left.as_api_side(), "LEFT");
    assert_eq!(blippy::app::ReviewSide::Right.as_api_side(), "RIGHT");
}

#[test]
fn submit_created_issue_requires_non_empty_title() {
    let mut editor = CommentEditorState::new();
    editor.reset_for_issue_create();
    let effect = handle_editor_key(View::CommentEditor, &mut editor, key(KeyCode::Enter));
    assert_eq!(effect, EditorEffect::IssueTitleRequired);
    assert_eq!(editor_status(effect), Some("Issue title required"));
    assert_eq!(editor.mode(), EditorMode::CreateIssue);
    assert!(!editor.create_issue_confirm_visible());
}

#[test]
fn a_new_issue_takes_a_title_a_body_and_a_confirmation() {
    let mut editor = CommentEditorState::new();
    editor.reset_for_issue_create();
    for ch in "Bug".chars() {
        handle_editor_key(View::CommentEditor, &mut editor, key(KeyCode::Char(ch)));
    }
    let ctrl_j = KeyPress::new(KeyCode::Char('j'), KeyMods::control_only());
    handle_editor_key(View::CommentEditor, &mut editor, ctrl_j);
    assert!(!editor.create_issue_title_focused());
    for ch in "steps".chars() {
        handle_editor_key(View::CommentEditor, &mut editor, key(KeyCode::Char(ch)));
    }
    assert_eq!((editor.name(), editor.text()), ("Bug", "steps"));
    assert_eq!(handle_editor_key(View::CommentEditor, &mut editor, key(KeyCode::Enter)), EditorEffect::Nothing);
    assert!(editor.create_issue_confirm_visible() && editor.create_issue_confirm_submit_selected());
    handle_editor_key(View::CommentEditor, &mut editor, key(KeyCode::Char('x')));
    assert_eq!(editor.text(), "steps");
    handle_editor_key(View::CommentEditor, &mut editor, key(KeyCode::Tab));
    assert!(!editor.create_issue_confirm_submit_selected());
    handle_editor_key(View::CommentEditor, &mut editor, key(KeyCode::Right));
    assert_eq!(
        handle_editor_key(View::CommentEditor, &mut editor, key(KeyCode::Enter)),
        EditorEffect::Submit(AppAction::SubmitCreatedIssue)
    );
    assert_eq!(handle_editor_key(View::CommentEditor, &mut editor, key(KeyCode::Esc)), EditorEffect::Nothing);
    assert!(!editor.create_issue_confirm_visible());
    assert_eq!(handle_editor_key(View::CommentEditor, &mut editor, key(KeyCode::Esc)), EditorEffect::Cancel);
}
