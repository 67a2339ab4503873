use blippy::app::View;
use blippy::keybinds::{KeyCode, KeyMods, KeyPress};
use blippy::picker::{handle_popup_filter_key, sort_by_key, OptionPicker};

fn key(code: KeyCode) -> KeyPress {
    KeyPress::new(code, KeyMods::none())
}

fn names(p: &OptionPicker) -> Vec<String> {
    p.options().to_vec()
}

#[test]
fn open_sorts_case_insensitively_and_keeps_first_spelling() {
    let mut p = OptionPicker::new();
    p.open(
        vec!["bug".to_string(), "Docs".to_string(), "BUG".to_string(), "api".to_string()],
        " Bug , ,docs",
    );
    assert_eq!(names(&p), vec!["api", "bug", "Docs"]);
    assert!(p.option_selected("BUG"));
    assert!(p.option_selected("docs"));
    assert!(!p.option_selected("api"));
    assert_eq!(p.cursor(), 0);
    assert_eq!(p.query(), "");
}

#[test]
fn merge_label_options_dedupes_case_insensitive() {
    let mut p = OptionPicker::new();
    p.open(vec!["bug".to_string()], "");
    p.merge_options(vec!["Bug".to_string(), "enhancement".to_string(), "  ".to_string(), "Apple".to_string()]);
    assert_eq!(names(&p), vec!["Apple", "bug", "enhancement"]);
}

#[test]
fn filter_lists_matching_options_and_highlights_first() {
    let mut p = OptionPicker::new();
    p.open(vec!["bug".to_string(), "chore".to_string(), "ci".to_string()], "");
    assert_eq!(p.filtered_indices(), vec![0, 1, 2]);
    assert!(p.handle_filter_key(key(KeyCode::Char('c'))));
    assert_eq!(p.query(), "c");
    assert_eq!(p.filtered_indices(), vec![1, 2]);
    assert_eq!(p.cursor(), 1);
    assert!(p.handle_filter_key(key(KeyCode::Char('I'))));
    assert_eq!(p.filtered_indices(), vec![2]);
    assert_eq!(p.cursor(), 2);
    assert!(p.handle_filter_key(key(KeyCode::Backspace)));
    assert_eq!(p.query(), "c");
    let ctrl_u = KeyPress::new(KeyCode::Char('u'), KeyMods::control_only());
    assert!(p.handle_filter_key(ctrl_u));
    assert_eq!(p.query(), "");
    assert_eq!(p.cursor(), 0);
}

#[test]
fn navigation_letters_pass_through_an_empty_filter() {
    let mut p = OptionPicker::new();
    p.open(vec!["bug".to_string()], "");
    assert!(!p.handle_filter_key(key(KeyCode::Char('j'))));
    assert!(!p.handle_filter_key(key(KeyCode::Char('G'))));
    assert_eq!(p.query(), "");
    assert!(p.handle_filter_key(key(KeyCode::Char('b'))));
    assert!(p.handle_filter_key(key(KeyCode::Char('j'))));
    assert_eq!(p.query(), "bj");
    let alt_x = KeyPress::new(KeyCode::Char('x'), KeyMods { alt: true, ..KeyMods::none() });
    assert!(!p.handle_filter_key(alt_x));
    assert!(!p.handle_filter_key(key(KeyCode::Enter)));
}

#[test]
fn toggle_chooses_and_unchooses_the_highlighted_option() {
    let mut p = OptionPicker::new();
    p.open(vec!["bug".to_string(), "docs".to_string()], "");
    p.toggle_selected();
    assert!(p.option_selected("bug"));
    assert_eq!(p.selected_csv(), "bug");
    p.toggle_selected();
    assert!(!p.option_selected("bug"));
    assert_eq!(p.selected_csv(), "");
    assert!(p.selected_values().is_empty());
}

#[test]
fn toggle_ignores_an_option_the_filter_hides() {
    let mut p = OptionPicker::new();
    p.open(vec!["bug".to_string(), "docs".to_string()], "");
    assert!(p.handle_filter_key(key(KeyCode::Char('z'))));
    p.toggle_selected();
    assert!(!p.option_selected("bug"));
}

#[test]
fn chosen_options_come_out_in_order() {
    let mut p = OptionPicker::new();
    p.open(vec!["zeta".to_string(), "Alpha".to_string(), "mid".to_string()], "ZETA,alpha");
    assert_eq!(p.selected_csv(), "Alpha,zeta");
    assert_eq!(p.selected_values(), vec!["Alpha".to_string(), "zeta".to_string()]);
}

#[test]
fn popup_filter_keys_go_to_the_picker_on_screen() {
    let mut labels = OptionPicker::new();
    let mut assignees = OptionPicker::new();
    labels.open(vec!["bug".to_string()], "");
    assignees.open(vec!["alex".to_string()], "");
    assert!(handle_popup_filter_key(View::LabelPicker, &mut labels, &mut assignees, key(KeyCode::Char('b'))));
    assert_eq!(labels.query(), "b");
    assert_eq!(assignees.query(), "");
    assert!(handle_popup_filter_key(View::AssigneePicker, &mut labels, &mut assignees, key(KeyCode::Char('a'))));
    assert_eq!(assignees.query(), "a");
    assert!(!handle_popup_filter_key(View::Issues, &mut labels, &mut assignees, key(KeyCode::Char('q'))));
    assert_eq!(labels.query(), "b");
}

#[test]
fn cursor_moves_over_listed_options_only() {
    let mut p = OptionPicker::new();
    p.open(vec!["bug".to_string(), "chore".to_string(), "ci".to_string(), "docs".to_string()], "");
    assert!(p.handle_filter_key(key(KeyCode::Char('c'))));
    assert_eq!(p.filtered_indices(), vec![1, 2, 3]);
    assert_eq!(p.cursor(), 1);
    p.move_cursor(true);
    assert_eq!(p.cursor(), 2);
    p.move_cursor(true);
    p.move_cursor(true);
    assert_eq!(p.cursor(), 3);
    p.move_cursor(false);
    assert_eq!(p.cursor(), 2);
    p.jump_cursor(true);
    assert_eq!(p.cursor(), 1);
    p.move_cursor(false);
    assert_eq!(p.cursor(), 1);
    p.jump_cursor(false);
    assert_eq!(p.cursor(), 3);
}

#[test]
fn popup_filter_highlights_the_first_listed_option() {
    let mut labels = OptionPicker::new();
    let mut assignees = OptionPicker::new();
    labels.open(vec!["bug".to_string(), "chore".to_string(), "ci".to_string()], "bug");
    assignees.open(vec!["alex".to_string()], "");
    assert!(handle_popup_filter_key(View::LabelPicker, &mut labels, &mut assignees, key(KeyCode::Char('c'))));
    assert_eq!(labels.cursor(), 1);
    assert_eq!(labels.options().to_vec(), vec!["bug".to_string(), "chore".to_string(), "ci".to_string()]);
    assert_eq!(labels.selected_csv(), "bug");
    assert!(handle_popup_filter_key(View::LabelPicker, &mut labels, &mut assignees, key(KeyCode::Char('i'))));
    assert_eq!(labels.cursor(), 2);
    assert_eq!(assignees.cursor(), 0);
}

#[test]
fn sorting_by_key_keeps_equal_keys_in_order() {
    let names = |v: &[&str]| v.iter().map(|s| s.to_string()).collect::<Vec<String>>();
    assert_eq!(sort_by_key(names(&["b", "A", "a", "B", "c"])), names(&["A", "a", "b", "B", "c"]));
    assert_eq!(sort_by_key(names(&["Zed", "alice", "Bob"])), names(&["alice", "Bob", "Zed"]));
    assert_eq!(sort_by_key(Vec::new()), Vec::<String>::new());
}
