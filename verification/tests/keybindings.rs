use blippy::keybinds::{normalize_binding, normalize_event, parse_binding, KeyCode, KeyMods, KeyPress, Keybinds};

#[test]
fn parse_binding_supports_named_keys_and_modifiers() {
    let key = parse_binding("ctrl+shift+left").expect("parse binding");
    assert_eq!(key.code, KeyCode::Left);
    assert!(key.modifiers.control);
    assert!(key.modifiers.shift);
}

#[test]
fn normalize_binding_converts_aliases() {
    let binding = normalize_binding("Control+Return").expect("normalize binding");
    assert_eq!(binding, "ctrl+enter");
}

#[test]
fn keybinds_remap_override_to_default_command() {
    let overrides = vec![("quit".to_string(), "ctrl+q".to_string())];
    let keybinds = Keybinds::from_overrides(&overrides);

    let remapped = keybinds
        .remap_key(KeyPress::new(KeyCode::Char('q'), KeyMods::control_only()))
        .expect("remapped key");
    assert_eq!(remapped.code, KeyCode::Char('q'));
    assert!(remapped.modifiers.is_empty());

    let disabled_default = keybinds.remap_key(KeyPress::new(KeyCode::Char('q'), KeyMods::none()));
    assert!(disabled_default.is_none());
}

#[test]
fn shift_letter_binds_upper_case_and_normalizes_back() {
    let key = parse_binding("shift+g").expect("parse");
    assert_eq!(key.code, KeyCode::Char('G'));
    assert_eq!(normalize_event(key), "shift+g");
    assert_eq!(normalize_binding(" space ").as_deref(), Some("space"));
    assert_eq!(normalize_binding("alt+ctrl+X").as_deref(), Some("ctrl+alt+x"));
}

#[test]
fn bad_bindings_do_not_parse() {
    assert!(parse_binding("").is_none());
    assert!(parse_binding("+ +").is_none());
    assert!(parse_binding("hyper+q").is_none());
    assert!(parse_binding("ctrl+qq").is_none());
}

#[test]
fn keys_without_names_normalize_to_nothing() {
    assert_eq!(normalize_event(KeyPress::new(KeyCode::F(1), KeyMods::control_only())), "");
}

#[test]
fn without_overrides_defaults_pass_through() {
    let keybinds = Keybinds::from_overrides(&[]);
    let q = KeyPress::new(KeyCode::Char('q'), KeyMods::none());
    assert_eq!(keybinds.remap_key(q), Some(q));
    let unbound = KeyPress::new(KeyCode::F(5), KeyMods::none());
    assert_eq!(keybinds.remap_key(unbound), Some(unbound));
}

#[test]
fn shared_default_stays_enabled_while_another_command_uses_it() {
    // "p" is the default of two commands; moving one of them keeps "p" working.
    let overrides = vec![("toggle_work_item_mode".to_string(), "ctrl+t".to_string())];
    let keybinds = Keybinds::from_overrides(&overrides);
    let p = KeyPress::new(KeyCode::Char('p'), KeyMods::none());
    assert_eq!(keybinds.remap_key(p), Some(p));
    let moved = keybinds
        .remap_key(KeyPress::new(KeyCode::Char('t'), KeyMods::control_only()))
        .expect("remapped");
    assert_eq!(moved, p);
}

#[test]
fn keybinds_without_overrides_pass_keys_through() {
    let keybinds = Keybinds::from_overrides(&[]);
    let q = KeyPress::new(KeyCode::Char('q'), KeyMods::none());
    assert_eq!(keybinds.remap_key(q), Some(q));
    let x = KeyPress::new(KeyCode::Char('x'), KeyMods::control_only());
    assert_eq!(keybinds.remap_key(x), Some(x));
}

#[test]
fn canonical_text_normalizes_to_itself() {
    for binding in ["Control+Return", " Shift + G ", "alt+PageUp", "ctrl+alt+shift+x", "Space", "?"] {
        let once = normalize_binding(binding).expect("binding parses");
        let twice = normalize_binding(&once).expect("canonical text parses");
        assert_eq!(once, twice);
    }
    assert_eq!(normalize_binding(" Shift + G ").as_deref(), Some("shift+g"));
}
