//! Key presses while a comment editor or the preset-name prompt is open:
//! what they do to the editor's text, and what they ask of the rest of
//! the interface.
use vstd::prelude::*;

use crate::app::{
    EditorView, with_name_char, with_text_char, without_last_name_char, without_last_text_char, AppAction,
    CommentEditorState, EditorMode, View,
};
use crate::keybinds::{KeyCode, KeyPress};
use vstd::view::View as _;

verus! {

/// What a key press in the editor asks of the rest of the interface.
#[derive(Debug, Clone, Copy, PartialEq, Eq, Structural)]
pub enum EditorEffect {
    /// Nothing beyond what it did to the editor.
    Nothing,
    /// Switch to another view.
    ShowView(View),
    /// The preset needs a name before its body is written.
    PresetNameRequired,
    /// The preset is named: write its body next, and cancel back to the
    /// preset list.
    WritePresetBody,
    /// Close the editor: forget what was being edited and return to the
    /// view the editor was opened from.
    Cancel,
    /// Submit: the action to run.
    Submit(AppAction),
    /// A new issue needs a title before it is confirmed.
    IssueTitleRequired,
}

/// The action that submits an editor in `mode`.
pub open spec fn submit_action(mode: EditorMode) -> AppAction {
    match mode {
        EditorMode::CloseIssue => AppAction::SubmitComment,
        EditorMode::AddComment => AppAction::SubmitIssueComment,
        EditorMode::EditComment => AppAction::SubmitEditedComment,
        EditorMode::AddPullRequestReviewComment => AppAction::SubmitPullRequestReviewComment,
        EditorMode::EditPullRequestReviewComment => AppAction::SubmitEditedPullRequestReviewComment,
        EditorMode::AddPreset => AppAction::SavePreset,
        EditorMode::CreateIssue => AppAction::SubmitCreatedIssue,
    }
}

/// The editor with its create-issue confirmation shown (submit chosen) or hidden.
pub open spec fn with_confirm(e: EditorView, shown: bool) -> EditorView {
    EditorView { confirm_visible: shown, confirm_submit: shown, ..e }
}

/// What a key press does while the comment editor is open.
/// - Escape hides a new issue's confirmation, else cancels.
/// - Tab and back-tab switch between submit and cancel in the confirmation.
/// - Enter with shift or alt starts a new line unless the title has focus
///   or the confirmation is shown.
/// - Control-`j` moves a new issue's focus to the body, elsewhere starts a
///   new line (not while confirming); control-`k` moves a new issue's focus
///   to the title.
/// - In the confirmation `j` and right choose submit, `k` and left cancel.
/// - Plain enter submits the editor with its mode's action; for a new issue
///   it asks for a title when the title is blank, else shows the
///   confirmation, and in the confirmation creates the issue or hides it.
/// - Backspace and characters edit a new issue's title when it has focus,
///   else the text; the confirmation takes neither.
pub open spec fn editor_key_spec(e: EditorView, key: KeyPress) -> (EditorView, EditorEffect) {
    let create = e.mode == EditorMode::CreateIssue;
    let m = key.modifiers;
    if key.code == KeyCode::Esc {
        if create && e.confirm_visible {
            (with_confirm(e, false), EditorEffect::Nothing)
        } else {
            (e, EditorEffect::Cancel)
        }
    } else if key.code == KeyCode::Tab || key.code == KeyCode::BackTab {
        (if e.confirm_visible { EditorView { confirm_submit: !e.confirm_submit, ..e } } else { e }, EditorEffect::Nothing)
    } else if key.code == KeyCode::Enter && (m.shift || m.alt) {
        (if !e.title_focused && !e.confirm_visible { with_text_char(e, '\n') } else { e }, EditorEffect::Nothing)
    } else if key.code == KeyCode::Char('j') && m.control {
        (
            if create {
                EditorView { title_focused: false, ..e }
            } else if !e.confirm_visible {
                with_text_char(e, '\n')
            } else {
                e
            },
            EditorEffect::Nothing,
        )
    } else if key.code == KeyCode::Char('k') && m.control {
        (if create { EditorView { title_focused: true, ..e } } else { e }, EditorEffect::Nothing)
    } else if e.confirm_visible && (key.code == KeyCode::Char('j') || key.code == KeyCode::Right) {
        (EditorView { confirm_submit: true, ..e }, EditorEffect::Nothing)
    } else if e.confirm_visible && (key.code == KeyCode::Char('k') || key.code == KeyCode::Left) {
        (EditorView { confirm_submit: false, ..e }, EditorEffect::Nothing)
    } else {
        match key.code {
            KeyCode::Enter => if create {
                if e.confirm_visible {
                    if e.confirm_submit {
                        (e, EditorEffect::Submit(AppAction::SubmitCreatedIssue))
                    } else {
                        (with_confirm(e, false), EditorEffect::Nothing)
                    }
                } else if crate::text::trim(e.name).len() == 0 {
                    (e, EditorEffect::IssueTitleRequired)
                } else {
                    (with_confirm(e, true), EditorEffect::Nothing)
                }
            } else {
                (e, EditorEffect::Submit(submit_action(e.mode)))
            },
            KeyCode::Backspace => if e.confirm_visible {
                (e, EditorEffect::Nothing)
            } else if create && e.title_focused {
                (without_last_name_char(e), EditorEffect::Nothing)
            } else {
                (without_last_text_char(e), EditorEffect::Nothing)
            },
            KeyCode::Char(ch) => if e.confirm_visible {
                (e, EditorEffect::Nothing)
            } else if create && e.title_focused {
                (with_name_char(e, ch), EditorEffect::Nothing)
            } else {
                (with_text_char(e, ch), EditorEffect::Nothing)
            },
            _ => (e, EditorEffect::Nothing),
        }
    }
}

/// What a key press does while the preset name is asked for. Escape goes
/// back to the preset list; enter goes on to the body once the name is not
/// empty; backspace and characters edit the name.
pub open spec fn preset_name_key_spec(e: EditorView, key: KeyPress) -> (EditorView, EditorEffect) {
    match key.code {
        KeyCode::Esc => (e, EditorEffect::ShowView(View::CommentPresetPicker)),
        KeyCode::Enter => if e.name.len() == 0 {
            (e, EditorEffect::PresetNameRequired)
        } else {
            (e, EditorEffect::WritePresetBody)
        },
        KeyCode::Backspace => (without_last_name_char(e), EditorEffect::Nothing),
        KeyCode::Char(ch) => (with_name_char(e, ch), EditorEffect::Nothing),
        _ => (e, EditorEffect::Nothing),
    }
}

/// Handles a key press in the preset-name prompt or the comment editor;
/// in other views it does nothing.
pub fn handle_editor_key(view: View, editor: &mut CommentEditorState, key: KeyPress) -> (r: EditorEffect)
    ensures
        view == View::CommentEditor ==> (final(editor)@, r) == editor_key_spec(old(editor)@, key),
        view == View::CommentPresetName ==> (final(editor)@, r) == preset_name_key_spec(old(editor)@, key),
        view != View::CommentEditor && view != View::CommentPresetName ==> final(editor)@ == old(editor)@
            && r == EditorEffect::Nothing,
{
    match view {
        View::CommentPresetName => match key.code {
            KeyCode::Esc => EditorEffect::ShowView(View::CommentPresetPicker),
            KeyCode::Enter => {
                let name = editor.name();
                if crate::text::chars_of(name).len() == 0 {
                    EditorEffect::PresetNameRequired
                } else {
                    EditorEffect::WritePresetBody
                }
            },
            KeyCode::Backspace => {
                editor.backspace_name();
                EditorEffect::Nothing
            },
            KeyCode::Char(ch) => {
                editor.append_name(ch);
                EditorEffect::Nothing
            },
            _ => EditorEffect::Nothing,
        },
        View::CommentEditor => {
            let create = editor.mode() == EditorMode::CreateIssue;
            let confirm = editor.create_issue_confirm_visible();
            let m = key.modifiers;
            if key.code == KeyCode::Esc {
                if create && confirm {
                    editor.show_create_issue_confirm(false);
                    return EditorEffect::Nothing;
                }
                return EditorEffect::Cancel;
            }
            if key.code == KeyCode::Tab || key.code == KeyCode::BackTab {
                if confirm {
                    let submit = editor.create_issue_confirm_submit_selected();
                    editor.set_create_issue_confirm_submit_selected(!submit);
                }
                return EditorEffect::Nothing;
            }
            if key.code == KeyCode::Enter && (m.shift || m.alt) {
                if !editor.create_issue_title_focused() && !confirm {
                    editor.newline();
                }
                return EditorEffect::Nothing;
            }
            if key.code == KeyCode::Char('j') && m.control {
                if create {
                    editor.focus_create_issue_title(false);
                } else if !confirm {
                    editor.newline();
                }
                return EditorEffect::Nothing;
            }
            if key.code == KeyCode::Char('k') && m.control {
                if create {
                    editor.focus_create_issue_title(true);
                }
                return EditorEffect::Nothing;
            }
            if confirm && (key.code == KeyCode::Char('j') || key.code == KeyCode::Right) {
                editor.set_create_issue_confirm_submit_selected(true);
                return EditorEffect::Nothing;
            }
            if confirm && (key.code == KeyCode::Char('k') || key.code == KeyCode::Left) {
                editor.set_create_issue_confirm_submit_selected(false);
                return EditorEffect::Nothing;
            }
            match key.code {
                KeyCode::Enter => {
                    if create {
                        if confirm {
                            if editor.create_issue_confirm_submit_selected() {
                                return EditorEffect::Submit(AppAction::SubmitCreatedIssue);
                            }
                            editor.show_create_issue_confirm(false);
                            return EditorEffect::Nothing;
                        }
                        let title = crate::text::chars_of(editor.name());
                        let trimmed = crate::text::trim_chars(title.as_slice());
                        if trimmed.len() == 0 {
                            return EditorEffect::IssueTitleRequired;
                        }
                        editor.show_create_issue_confirm(true);
                        return EditorEffect::Nothing;
                    }
                    EditorEffect::Submit(submit_action_of(editor.mode()))
                },
                KeyCode::Backspace => {
                    if !confirm {
                        if create && editor.create_issue_title_focused() {
                            editor.backspace_name();
                        } else {
                            editor.backspace_text();
                        }
                    }
                    EditorEffect::Nothing
                },
                KeyCode::Char(ch) => {
                    if !confirm {
                        if create && editor.create_issue_title_focused() {
                            editor.append_name(ch);
                        } else {
                            editor.append_text(ch);
                        }
                    }
                    EditorEffect::Nothing
                },
                _ => EditorEffect::Nothing,
            }
        },
        _ => EditorEffect::Nothing,
    }
}

/// The action that submits an editor in `mode`.
fn submit_action_of(mode: EditorMode) -> (r: AppAction)
    ensures
        r == submit_action(mode),
{
    match mode {
        EditorMode::CloseIssue => AppAction::SubmitComment,
        EditorMode::AddComment => AppAction::SubmitIssueComment,
        EditorMode::EditComment => AppAction::SubmitEditedComment,
        EditorMode::AddPullRequestReviewComment => AppAction::SubmitPullRequestReviewComment,
        EditorMode::EditPullRequestReviewComment => AppAction::SubmitEditedPullRequestReviewComment,
        EditorMode::AddPreset => AppAction::SavePreset,
        EditorMode::CreateIssue => AppAction::SubmitCreatedIssue,
    }
}


/// The status line an editor key press asks for, if any.
pub fn editor_status(effect: EditorEffect) -> (r: Option<&'static str>)
    ensures
        effect == EditorEffect::PresetNameRequired ==> (r matches Some(t) && t@ == "Preset name required"@),
        effect == EditorEffect::IssueTitleRequired ==> (r matches Some(t) && t@ == "Issue title required"@),
        effect != EditorEffect::PresetNameRequired && effect != EditorEffect::IssueTitleRequired ==> r is None,
{
    match effect {
        EditorEffect::PresetNameRequired => Some("Preset name required"),
        EditorEffect::IssueTitleRequired => Some("Issue title required"),
        _ => None,
    }
}

} // verus!
