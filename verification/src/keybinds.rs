//! Key bindings: parsing binding text such as `ctrl+shift+left`, writing a
//! key press in canonical form, and remapping user overrides onto the
//! default commands.
use vstd::prelude::*;

use crate::text;
use crate::text::{chars_eq, chars_of, lower_chars, split_chars, string_of, to_lower, to_upper, trim_chars};

verus! {

/// A key on the keyboard.
#[derive(Debug, Clone, Copy, PartialEq, Eq, Structural)]
pub enum KeyCode {
    Backspace,
    Enter,
    Left,
    Right,
    Up,
    Down,
    Home,
    End,
    PageUp,
    PageDown,
    Tab,
    BackTab,
    Delete,
    Insert,
    F(u8),
    Char(char),
    Null,
    Esc,
    Other,
}

/// The modifier keys held with a key.
#[derive(Debug, Clone, Copy, PartialEq, Eq, Structural)]
pub struct KeyMods {
    pub shift: bool,
    pub control: bool,
    pub alt: bool,
    pub super_key: bool,
    pub hyper: bool,
    pub meta: bool,
}

/// A key press: a key and its modifiers.
#[derive(Debug, Clone, Copy, PartialEq, Eq, Structural)]
pub struct KeyPress {
    pub code: KeyCode,
    pub modifiers: KeyMods,
}

/// No modifier held.
pub open spec fn no_mods() -> KeyMods {
    KeyMods { shift: false, control: false, alt: false, super_key: false, hyper: false, meta: false }
}

impl KeyMods {
    /// No modifier held.
    pub fn none() -> (r: KeyMods)
        ensures
            r == no_mods(),
    {
        KeyMods { shift: false, control: false, alt: false, super_key: false, hyper: false, meta: false }
    }

    /// Only the control key held.
    pub fn control_only() -> (r: KeyMods)
        ensures
            r == (KeyMods { control: true, ..no_mods() }),
    {
        KeyMods { shift: false, control: true, alt: false, super_key: false, hyper: false, meta: false }
    }

    /// Only the shift key held.
    pub fn shift_only() -> (r: KeyMods)
        ensures
            r == (KeyMods { shift: true, ..no_mods() }),
    {
        KeyMods { shift: true, control: false, alt: false, super_key: false, hyper: false, meta: false }
    }

    /// No modifier is held.
    pub fn is_empty(&self) -> (r: bool)
        ensures
            r == (*self == no_mods()),
    {
        !self.shift && !self.control && !self.alt && !self.super_key && !self.hyper && !self.meta
    }
}

impl KeyPress {
    /// A key press of `code` with `modifiers`.
    pub fn new(code: KeyCode, modifiers: KeyMods) -> (r: KeyPress)
        ensures
            r == (KeyPress { code, modifiers }),
    {
        KeyPress { code, modifiers }
    }
}

/// A command, its default binding and what it does.
#[derive(Debug, Clone, Copy)]
pub struct BindingSpec {
    pub action: &'static str,
    pub default: &'static str,
    pub description: &'static str,
}

// ---------------------------------------------------------------------------
// Binding text
// ---------------------------------------------------------------------------

/// The trimmed, non-empty pieces between `+` signs.
pub open spec fn kept_tokens(pieces: Seq<Seq<char>>) -> Seq<Seq<char>>
    decreases pieces.len(),
{
    if pieces.len() == 0 {
        Seq::<Seq<char>>::empty()
    } else {
        let init = kept_tokens(pieces.drop_last());
        let t = text::trim(pieces.last());
        if t.len() > 0 {
            init.push(t)
        } else {
            init
        }
    }
}

/// The tokens of binding text.
pub open spec fn binding_tokens(s: Seq<char>) -> Seq<Seq<char>> {
    kept_tokens(text::split_on(s, '+'))
}

/// The modifier a token names: 0 control, 1 alt, 2 shift.
pub open spec fn modifier_of(token: Seq<char>) -> Option<u8> {
    let l = text::lower(token);
    if l == "ctrl"@ || l == "control"@ {
        Some(0u8)
    } else if l == "alt"@ {
        Some(1u8)
    } else if l == "shift"@ {
        Some(2u8)
    } else {
        None
    }
}

/// The modifiers that add one more to `m`.
pub open spec fn with_modifier(m: KeyMods, which: u8) -> KeyMods {
    if which == 0 {
        KeyMods { control: true, ..m }
    } else if which == 1 {
        KeyMods { alt: true, ..m }
    } else {
        KeyMods { shift: true, ..m }
    }
}

/// The modifiers all tokens name; none when one token is not a modifier.
pub open spec fn mods_of(tokens: Seq<Seq<char>>) -> Option<KeyMods>
    decreases tokens.len(),
{
    if tokens.len() == 0 {
        Some(no_mods())
    } else {
        match (mods_of(tokens.drop_last()), modifier_of(tokens.last())) {
            (Some(m), Some(w)) => Some(with_modifier(m, w)),
            _ => None,
        }
    }
}

/// The key a lower-cased key name stands for.
pub open spec fn named_key(l: Seq<char>) -> Option<KeyCode> {
    if l == "esc"@ || l == "escape"@ {
        Some(KeyCode::Esc)
    } else if l == "enter"@ || l == "return"@ {
        Some(KeyCode::Enter)
    } else if l == "tab"@ {
        Some(KeyCode::Tab)
    } else if l == "backspace"@ {
        Some(KeyCode::Backspace)
    } else if l == "space"@ {
        Some(KeyCode::Char(' '))
    } else if l == "up"@ {
        Some(KeyCode::Up)
    } else if l == "down"@ {
        Some(KeyCode::Down)
    } else if l == "left"@ {
        Some(KeyCode::Left)
    } else if l == "right"@ {
        Some(KeyCode::Right)
    } else if l == "home"@ {
        Some(KeyCode::Home)
    } else if l == "end"@ {
        Some(KeyCode::End)
    } else if l == "pageup"@ {
        Some(KeyCode::PageUp)
    } else if l == "pagedown"@ {
        Some(KeyCode::PageDown)
    } else {
        None
    }
}

/// An ASCII letter.
pub open spec fn is_ascii_alpha(c: char) -> bool {
    ('a' <= c && c <= 'z') || ('A' <= c && c <= 'Z')
}

/// The key press binding text describes: modifiers (`ctrl`/`control`,
/// `alt`, `shift`, in any case) joined by `+` before a key name or a
/// single character. With shift held, a letter is taken in upper case,
/// otherwise in lower case.
pub open spec fn parse_binding_spec(s: Seq<char>) -> Option<KeyPress> {
    let tokens = binding_tokens(s);
    if tokens.len() == 0 {
        None
    } else {
        match mods_of(tokens.drop_last()) {
            None => None,
            Some(m) => {
                let raw = text::trim(tokens.last());
                match named_key(text::lower(raw)) {
                    Some(code) => Some(KeyPress { code, modifiers: m }),
                    None => if raw.len() == 1 {
                        let ch = raw[0];
                        let c = if m.shift && is_ascii_alpha(ch) {
                            text::ascii_upper(ch)
                        } else {
                            text::ascii_lower(ch)
                        };
                        Some(KeyPress { code: KeyCode::Char(c), modifiers: m })
                    } else {
                        None
                    },
                }
            },
        }
    }
}

/// The canonical name of a key; empty for keys without one.
pub open spec fn key_name(code: KeyCode) -> Seq<char> {
    match code {
        KeyCode::Esc => "esc"@,
        KeyCode::Enter => "enter"@,
        KeyCode::Tab => "tab"@,
        KeyCode::Backspace => "backspace"@,
        KeyCode::Up => "up"@,
        KeyCode::Down => "down"@,
        KeyCode::Left => "left"@,
        KeyCode::Right => "right"@,
        KeyCode::Home => "home"@,
        KeyCode::End => "end"@,
        KeyCode::PageUp => "pageup"@,
        KeyCode::PageDown => "pagedown"@,
        KeyCode::Char(c) => if c == ' ' {
            "space"@
        } else {
            seq![text::ascii_lower(c)]
        },
        _ => Seq::<char>::empty(),
    }
}

/// The modifier names of a key press, in the order control, alt, shift.
pub open spec fn mod_names(m: KeyMods) -> Seq<Seq<char>> {
    let a = if m.control { seq!["ctrl"@] } else { Seq::<Seq<char>>::empty() };
    let b = if m.alt { a.push("alt"@) } else { a };
    if m.shift { b.push("shift"@) } else { b }
}

/// The canonical text of a key press: its modifier names and its key name
/// joined by `+`; empty for a key without a name.
pub open spec fn normalize_event_spec(e: KeyPress) -> Seq<char> {
    let name = key_name(e.code);
    if name.len() == 0 {
        Seq::<char>::empty()
    } else {
        text::join(mod_names(e.modifiers).push(name), '+')
    }
}

/// The canonical text of binding text, when it parses.
pub open spec fn normalize_binding_spec(s: Seq<char>) -> Option<Seq<char>> {
    match parse_binding_spec(s) {
        Some(e) => Some(normalize_event_spec(e)),
        None => None,
    }
}

/// The trimmed, non-empty `+`-separated tokens of binding text.
fn binding_token_list(binding: &[char]) -> (r: Vec<Vec<char>>)
    ensures
        text::views(r@) == binding_tokens(binding@),
{
    let pieces = split_chars(binding, '+');
    let ghost pv = text::split_on(binding@, '+');
    let mut out: Vec<Vec<char>> = Vec::new();
    let mut i: usize = 0;
    while i < pieces.len()
        invariant
            i <= pieces.len(),
            text::views(pieces@) == pv,
            text::views(out@) == kept_tokens(pv.take(i as int)),
        decreases pieces.len() - i,
    {
        assert(pv.take(i + 1).drop_last() =~= pv.take(i as int));
        assert(pieces@[i as int]@ == pv[i as int]);
        let t = trim_chars(pieces[i].as_slice());
        if t.len() > 0 {
            let ghost before = out@;
            out.push(t);
            assert(text::views(out@) =~= text::views(before).push(t@));
        }
        i = i + 1;
    }
    assert(pv.take(pieces.len() as int) =~= pv);
    out
}

/// The lower-cased text equals a literal.
fn is_word(l: &[char], word: &str) -> (r: bool)
    ensures
        r == (l@ == word@),
{
    let w = chars_of(word);
    chars_eq(l, w.as_slice())
}

/// The key a lower-cased key name stands for.
fn named_key_of(l: &[char]) -> (r: Option<KeyCode>)
    ensures
        r == named_key(l@),
{
    if is_word(l, "esc") || is_word(l, "escape") {
        Some(KeyCode::Esc)
    } else if is_word(l, "enter") || is_word(l, "return") {
        Some(KeyCode::Enter)
    } else if is_word(l, "tab") {
        Some(KeyCode::Tab)
    } else if is_word(l, "backspace") {
        Some(KeyCode::Backspace)
    } else if is_word(l, "space") {
        Some(KeyCode::Char(' '))
    } else if is_word(l, "up") {
        Some(KeyCode::Up)
    } else if is_word(l, "down") {
        Some(KeyCode::Down)
    } else if is_word(l, "left") {
        Some(KeyCode::Left)
    } else if is_word(l, "right") {
        Some(KeyCode::Right)
    } else if is_word(l, "home") {
        Some(KeyCode::Home)
    } else if is_word(l, "end") {
        Some(KeyCode::End)
    } else if is_word(l, "pageup") {
        Some(KeyCode::PageUp)
    } else if is_word(l, "pagedown") {
        Some(KeyCode::PageDown)
    } else {
        None
    }
}

/// Reads binding text such as `ctrl+shift+left`, `Control+Return` or `G`
/// into a key press; none when a token before the last is not a modifier,
/// or the last names no key.
pub fn parse_binding(binding: &str) -> (r: Option<KeyPress>)
    ensures
        r == parse_binding_spec(binding@),
{
    let chars = chars_of(binding);
    let tokens = binding_token_list(chars.as_slice());
    let ghost tv = binding_tokens(binding@);
    if tokens.len() == 0 {
        return None;
    }
    let mut modifiers = KeyMods::none();
    let mut i: usize = 0;
    while i + 1 < tokens.len()
        invariant
            i + 1 <= tokens.len(),
            text::views(tokens@) == tv,
            tv == binding_tokens(binding@),
            mods_of(tv.take(i as int)) == Some(modifiers),
        decreases tokens.len() - i,
    {
        assert(tv.take(i + 1).drop_last() =~= tv.take(i as int));
        assert(tokens@[i as int]@ == tv[i as int]);
        let l = lower_chars(tokens[i].as_slice());
        if is_word(l.as_slice(), "ctrl") || is_word(l.as_slice(), "control") {
            modifiers.control = true;
        } else if is_word(l.as_slice(), "alt") {
            modifiers.alt = true;
        } else if is_word(l.as_slice(), "shift") {
            modifiers.shift = true;
        } else {
            assert(mods_of(tv.take(i + 1)) is None);
            assert(tv.take(i + 1) =~= tv.drop_last().take(i + 1));
            proof {
                lemma_mods_of_prefix_none(tv.drop_last(), i + 1);
            }
            assert(tv.len() > 0);
            assert(mods_of(tv.drop_last()) is None);
            assert(parse_binding_spec(binding@) is None);
            return None;
        }
        i = i + 1;
    }
    assert(tv.take(i as int) =~= tv.drop_last());
    let last = tokens.len() - 1;
    assert(tokens@[last as int]@ == tv.last());
    let raw = trim_chars(tokens[last].as_slice());
    let key = lower_chars(raw.as_slice());
    let code = match named_key_of(key.as_slice()) {
        Some(code) => code,
        None => {
            if raw.len() == 1 {
                let ch = raw[0];
                let alpha = ('a' <= ch && ch <= 'z') || ('A' <= ch && ch <= 'Z');
                if modifiers.shift && alpha {
                    KeyCode::Char(to_upper(ch))
                } else {
                    KeyCode::Char(to_lower(ch))
                }
            } else {
                return None;
            }
        },
    };
    Some(KeyPress::new(code, modifiers))
}

/// Once the modifiers of a prefix fail, so do those of every longer prefix.
proof fn lemma_mods_of_prefix_none(tokens: Seq<Seq<char>>, k: int)
    requires
        0 <= k <= tokens.len(),
        mods_of(tokens.take(k)) is None,
    ensures
        mods_of(tokens) is None,
    decreases tokens.len() - k,
{
    if k == tokens.len() {
        assert(tokens.take(k) =~= tokens);
    } else {
        assert(tokens.take(k + 1).drop_last() =~= tokens.take(k));
        lemma_mods_of_prefix_none(tokens, k + 1);
    }
}

/// The canonical name of a key; empty for keys without one.
fn key_name_of(code: KeyCode) -> (r: Vec<char>)
    ensures
        r@ == key_name(code),
{
    match code {
        KeyCode::Esc => chars_of("esc"),
        KeyCode::Enter => chars_of("enter"),
        KeyCode::Tab => chars_of("tab"),
        KeyCode::Backspace => chars_of("backspace"),
        KeyCode::Up => chars_of("up"),
        KeyCode::Down => chars_of("down"),
        KeyCode::Left => chars_of("left"),
        KeyCode::Right => chars_of("right"),
        KeyCode::Home => chars_of("home"),
        KeyCode::End => chars_of("end"),
        KeyCode::PageUp => chars_of("pageup"),
        KeyCode::PageDown => chars_of("pagedown"),
        KeyCode::Char(c) => {
            if c == ' ' {
                chars_of("space")
            } else {
                let mut v: Vec<char> = Vec::new();
                v.push(to_lower(c));
                assert(v@ =~= seq![text::ascii_lower(c)]);
                v
            }
        },
        _ => Vec::new(),
    }
}

/// Appends a word to a `+`-joined list of `count` words.
fn push_joined(out: &mut Vec<char>, count: usize, word: &[char], Ghost(words): Ghost<Seq<Seq<char>>>)
    requires
        old(out)@ == text::join(words, '+'),
        count == words.len(),
    ensures
        final(out)@ == text::join(words.push(word@), '+'),
{
    if count > 0 {
        out.push('+');
    }
    text::append_chars(out, word);
    assert(words.push(word@).drop_last() =~= words);
}

/// Writes a key press in canonical form: `ctrl`, `alt` and `shift` as held,
/// then the key's name (letters in lower case, `space` for the space bar),
/// joined by `+`. A key without a name gives empty text.
pub fn normalize_event(event: KeyPress) -> (r: String)
    ensures
        r@ == normalize_event_spec(event),
{
    let name = key_name_of(event.code);
    if name.len() == 0 {
        return String::new();
    }
    let mut out: Vec<char> = Vec::new();
    let mut count: usize = 0;
    let ghost mut words = Seq::<Seq<char>>::empty();
    if event.modifiers.control {
        let w = chars_of("ctrl");
        push_joined(&mut out, count, w.as_slice(), Ghost(words));
        proof {
            words = words.push("ctrl"@);
        }
        count = count + 1;
    }
    if event.modifiers.alt {
        let w = chars_of("alt");
        push_joined(&mut out, count, w.as_slice(), Ghost(words));
        proof {
            words = words.push("alt"@);
        }
        count = count + 1;
    }
    if event.modifiers.shift {
        let w = chars_of("shift");
        push_joined(&mut out, count, w.as_slice(), Ghost(words));
        proof {
            words = words.push("shift"@);
        }
        count = count + 1;
    }
    assert(words =~= mod_names(event.modifiers));
    push_joined(&mut out, count, name.as_slice(), Ghost(words));
    string_of(out.as_slice())
}

/// The canonical form of binding text, when it parses.
pub fn normalize_binding(binding: &str) -> (r: Option<String>)
    ensures
        r matches Some(s) ==> normalize_binding_spec(binding@) == Some(s@),
        r is None ==> normalize_binding_spec(binding@) is None,
{
    match parse_binding(binding) {
        Some(e) => Some(normalize_event(e)),
        None => None,
    }
}

// ---------------------------------------------------------------------------
// Remapping
// ---------------------------------------------------------------------------

/// Every command with its default binding, in the order the defaults are
/// registered.
pub open spec fn default_bindings() -> Seq<(Seq<char>, Seq<char>)> {
    seq![
        ("quit"@, "q"@),
        ("clear_and_repo_picker"@, "ctrl+g"@),
        ("repo_search"@, "/"@),
        ("issue_search"@, "/"@),
        ("cycle_issue_filter"@, "f"@),
        ("toggle_work_item_mode"@, "p"@),
        ("cycle_assignee_filter"@, "a"@),
        ("issue_filter_open"@, "1"@),
        ("issue_filter_closed"@, "2"@),
        ("refresh"@, "r"@),
        ("jump_prefix"@, "g"@),
        ("jump_bottom"@, "shift+g"@),
        ("open_comments"@, "c"@),
        ("add_comment"@, "m"@),
        ("toggle_file_viewed"@, "w"@),
        ("collapse_hunk"@, "z"@),
        ("edit_comment"@, "e"@),
        ("delete_comment"@, "x"@),
        ("resolve_thread"@, "shift+r"@),
        ("next_line_comment"@, "n"@),
        ("prev_line_comment"@, "p"@),
        ("review_side_left"@, "h"@),
        ("review_side_right"@, "l"@),
        ("visual_mode"@, "shift+v"@),
        ("edit_labels"@, "l"@),
        ("edit_assignees"@, "shift+a"@),
        ("reopen_issue"@, "u"@),
        ("popup_toggle"@, "space"@),
        ("submit"@, "enter"@),
        ("back"@, "b"@),
        ("back_escape"@, "esc"@),
        ("move_up"@, "k"@),
        ("move_down"@, "j"@),
        ("open_browser"@, "o"@),
        ("open_linked_pr_browser"@, "shift+o"@),
        ("open_linked_pr_tui"@, "shift+p"@),
        ("checkout_pr"@, "v"@),
        ("copy_status"@, "ctrl+y"@),
        ("page_up"@, "ctrl+u"@),
        ("page_down"@, "ctrl+d"@),
        ("focus_left"@, "ctrl+h"@),
        ("focus_right"@, "ctrl+l"@),
        ("rescan_repos"@, "ctrl+r"@),
        ("diff_scroll_left"@, "["@),
        ("diff_scroll_right"@, "]"@),
        ("diff_scroll_reset"@, "0"@)
    ]
}

/// The (action, default) view of binding specs.
pub open spec fn spec_views(v: Seq<BindingSpec>) -> Seq<(Seq<char>, Seq<char>)> {
    v.map_values(|b: BindingSpec| (b.action@, b.default@))
}

/// Every command with its default binding and a description.
pub fn binding_specs() -> (r: Vec<BindingSpec>)
    ensures
        spec_views(r@) == default_bindings(),
{
    let r = vec![
        BindingSpec { action: "quit", default: "q", description: "Quit app" },
        BindingSpec { action: "clear_and_repo_picker", default: "ctrl+g", description: "Clear search and open repo picker" },
        BindingSpec { action: "repo_search", default: "/", description: "Search repos" },
        BindingSpec { action: "issue_search", default: "/", description: "Search issues" },
        BindingSpec { action: "cycle_issue_filter", default: "f", description: "Cycle open/closed filter" },
        BindingSpec { action: "toggle_work_item_mode", default: "p", description: "Toggle issues/pull requests mode" },
        BindingSpec { action: "cycle_assignee_filter", default: "a", description: "Cycle assignee filter" },
        BindingSpec { action: "issue_filter_open", default: "1", description: "Open issues tab" },
        BindingSpec { action: "issue_filter_closed", default: "2", description: "Closed issues tab" },
        BindingSpec { action: "refresh", default: "r", description: "Refresh data" },
        BindingSpec { action: "jump_prefix", default: "g", description: "Jump prefix" },
        BindingSpec { action: "jump_bottom", default: "shift+g", description: "Jump bottom" },
        BindingSpec { action: "open_comments", default: "c", description: "Open comments view" },
        BindingSpec { action: "add_comment", default: "m", description: "Add comment" },
        BindingSpec { action: "toggle_file_viewed", default: "w", description: "Toggle PR file viewed state" },
        BindingSpec { action: "collapse_hunk", default: "z", description: "Collapse/expand current diff hunk" },
        BindingSpec { action: "edit_comment", default: "e", description: "Edit selected comment" },
        BindingSpec { action: "delete_comment", default: "x", description: "Delete selected comment" },
        BindingSpec { action: "resolve_thread", default: "shift+r", description: "Resolve/reopen selected review thread" },
        BindingSpec { action: "next_line_comment", default: "n", description: "Next line comment" },
        BindingSpec { action: "prev_line_comment", default: "p", description: "Previous line comment" },
        BindingSpec { action: "review_side_left", default: "h", description: "Select left diff side" },
        BindingSpec { action: "review_side_right", default: "l", description: "Select right diff side" },
        BindingSpec { action: "visual_mode", default: "shift+v", description: "Toggle visual range selection" },
        BindingSpec { action: "edit_labels", default: "l", description: "Edit labels" },
        BindingSpec { action: "edit_assignees", default: "shift+a", description: "Edit assignees" },
        BindingSpec { action: "reopen_issue", default: "u", description: "Reopen issue" },
        BindingSpec { action: "popup_toggle", default: "space", description: "Toggle popup item" },
        BindingSpec { action: "submit", default: "enter", description: "Submit or activate selection" },
        BindingSpec { action: "back", default: "b", description: "Back" },
        BindingSpec { action: "back_escape", default: "esc", description: "Back via escape" },
        BindingSpec { action: "move_up", default: "k", description: "Move up" },
        BindingSpec { action: "move_down", default: "j", description: "Move down" },
        BindingSpec { action: "open_browser", default: "o", description: "Open issue/PR in browser" },
        BindingSpec { action: "open_linked_pr_browser", default: "shift+o", description: "Open linked PR in browser" },
        BindingSpec { action: "open_linked_pr_tui", default: "shift+p", description: "Open linked PR in TUI" },
        BindingSpec { action: "checkout_pr", default: "v", description: "Checkout selected pull request" },
        BindingSpec { action: "copy_status", default: "ctrl+y", description: "Copy status text" },
        BindingSpec { action: "page_up", default: "ctrl+u", description: "Page up" },
        BindingSpec { action: "page_down", default: "ctrl+d", description: "Page down" },
        BindingSpec { action: "focus_left", default: "ctrl+h", description: "Move pane focus left" },
        BindingSpec { action: "focus_right", default: "ctrl+l", description: "Move pane focus right" },
        BindingSpec { action: "rescan_repos", default: "ctrl+r", description: "Rescan local repositories" },
        BindingSpec { action: "diff_scroll_left", default: "[", description: "Pan PR diff left" },
        BindingSpec { action: "diff_scroll_right", default: "]", description: "Pan PR diff right" },
        BindingSpec { action: "diff_scroll_reset", default: "0", description: "Reset PR diff horizontal pan" }
    ];
    assert(spec_views(r@) =~= default_bindings());
    r
}

/// The binding text the first override entry for `action` gives.
pub open spec fn lookup_override(overrides: Seq<(Seq<char>, Seq<char>)>, action: Seq<char>) -> Option<Seq<char>>
    decreases overrides.len(),
{
    if overrides.len() == 0 {
        None
    } else if overrides[0].0 == action {
        Some(overrides[0].1)
    } else {
        lookup_override(overrides.drop_first(), action)
    }
}

/// The canonical key an override sets for `action`, when it names one that parses.
pub open spec fn override_key(overrides: Seq<(Seq<char>, Seq<char>)>, action: Seq<char>) -> Option<Seq<char>> {
    match lookup_override(overrides, action) {
        Some(b) => normalize_binding_spec(b),
        None => None,
    }
}

/// The remap entry a command contributes: the overriding key, or else its
/// default key, mapped to its default key press.
pub open spec fn remap_entry(b: (Seq<char>, Seq<char>), overrides: Seq<(Seq<char>, Seq<char>)>) -> Option<(Seq<char>, KeyPress)> {
    match parse_binding_spec(b.1) {
        None => None,
        Some(ev) => match override_key(overrides, b.0) {
            Some(ok) => Some((ok, ev)),
            None => Some((normalize_event_spec(ev), ev)),
        },
    }
}

/// The remap entries of all commands, in order; a later entry for the same
/// key replaces an earlier one.
pub open spec fn remap_entries(specs: Seq<(Seq<char>, Seq<char>)>, overrides: Seq<(Seq<char>, Seq<char>)>) -> Seq<(Seq<char>, KeyPress)>
    decreases specs.len(),
{
    if specs.len() == 0 {
        Seq::<(Seq<char>, KeyPress)>::empty()
    } else {
        let init = remap_entries(specs.drop_last(), overrides);
        match remap_entry(specs.last(), overrides) {
            Some(e) => init.push(e),
            None => init,
        }
    }
}

/// The key press the last entry for `k` maps to.
pub open spec fn assoc_get(list: Seq<(Seq<char>, KeyPress)>, k: Seq<char>) -> Option<KeyPress>
    decreases list.len(),
{
    if list.len() == 0 {
        None
    } else if list.last().0 == k {
        Some(list.last().1)
    } else {
        assoc_get(list.drop_last(), k)
    }
}

/// A command's default key in canonical form; empty when it does not parse.
pub open spec fn default_key(b: (Seq<char>, Seq<char>)) -> Seq<char> {
    match normalize_binding_spec(b.1) {
        Some(k) => k,
        None => Seq::<char>::empty(),
    }
}

/// The command's default key is `k` and an override moves it to another key.
pub open spec fn moves_away(b: (Seq<char>, Seq<char>), overrides: Seq<(Seq<char>, Seq<char>)>, k: Seq<char>) -> bool {
    match parse_binding_spec(b.1) {
        None => false,
        Some(ev) => normalize_event_spec(ev) == k && match override_key(overrides, b.0) {
            Some(ok) => ok != k,
            None => false,
        },
    }
}

/// How many commands have `k` as default key.
pub open spec fn default_uses(specs: Seq<(Seq<char>, Seq<char>)>, k: Seq<char>) -> nat
    decreases specs.len(),
{
    if specs.len() == 0 {
        0
    } else {
        default_uses(specs.drop_last(), k) + if default_key(specs.last()) == k { 1nat } else { 0nat }
    }
}

/// How many commands with default key `k` are moved to another key.
pub open spec fn moved_uses(specs: Seq<(Seq<char>, Seq<char>)>, overrides: Seq<(Seq<char>, Seq<char>)>, k: Seq<char>) -> nat
    decreases specs.len(),
{
    if specs.len() == 0 {
        0
    } else {
        moved_uses(specs.drop_last(), overrides, k) + if moves_away(specs.last(), overrides, k) { 1nat } else { 0nat }
    }
}

/// A default key is switched off when every command that had it was moved
/// to another key.
pub open spec fn default_disabled(specs: Seq<(Seq<char>, Seq<char>)>, overrides: Seq<(Seq<char>, Seq<char>)>, k: Seq<char>) -> bool {
    default_uses(specs, k) > 0 && moved_uses(specs, overrides, k) >= default_uses(specs, k)
}

/// The view of override pairs.
pub open spec fn override_views(v: Seq<(String, String)>) -> Seq<(Seq<char>, Seq<char>)> {
    v.map_values(|p: (String, String)| (p.0@, p.1@))
}

/// The key remapping in force: user overrides onto default commands.
#[derive(Debug, Clone)]
pub struct Keybinds {
    remap: Vec<(Vec<char>, KeyPress)>,
    disabled_defaults: Vec<Vec<char>>,
}

impl Keybinds {
    /// The remap entries, in the order they were added.
    pub closed spec fn entries(&self) -> Seq<(Seq<char>, KeyPress)> {
        self.remap@.map_values(|e: (Vec<char>, KeyPress)| (e.0@, e.1))
    }

    /// The default keys that are switched off.
    pub closed spec fn disabled(&self) -> Seq<Seq<char>> {
        text::views(self.disabled_defaults@)
    }

    /// The key press that canonical key `k` is remapped to.
    pub open spec fn remapped(&self, k: Seq<char>) -> Option<KeyPress> {
        assoc_get(self.entries(), k)
    }

    /// Canonical key `k` is a default key that was moved away.
    pub open spec fn is_disabled(&self, k: Seq<char>) -> bool {
        self.disabled().contains(k)
    }

    /// The remapping built from the default commands and the user's overrides
    /// (command name, binding text). Each command's key press is reached by
    /// its overriding key when it has one, else by its default key; a
    /// default key is switched off once every command that had it has been
    /// moved elsewhere.
    pub fn from_overrides(overrides: &[(String, String)]) -> (r: Keybinds)
        ensures
            forall|k: Seq<char>| #[trigger] r.remapped(k) == assoc_get(remap_entries(default_bindings(), override_views(overrides@)), k),
            forall|k: Seq<char>| #[trigger] r.is_disabled(k) == default_disabled(default_bindings(), override_views(overrides@), k),
    {
        let specs = binding_specs();
        Self::from_specs(specs.as_slice(), overrides)
    }

    /// The remapping for the given commands and overrides.
    pub fn from_specs(specs: &[BindingSpec], overrides: &[(String, String)]) -> (r: Keybinds)
        ensures
            forall|k: Seq<char>| #[trigger] r.remapped(k) == assoc_get(remap_entries(spec_views(specs@), override_views(overrides@)), k),
            forall|k: Seq<char>| #[trigger] r.is_disabled(k) == default_disabled(spec_views(specs@), override_views(overrides@), k),
    {
        let ghost sv = spec_views(specs@);
        let ghost ov = override_views(overrides@);
        let mut remap: Vec<(Vec<char>, KeyPress)> = Vec::new();
        let mut i: usize = 0;
        while i < specs.len()
            invariant
                i <= specs.len(),
                sv == spec_views(specs@),
                ov == override_views(overrides@),
                remap@.map_values(|e: (Vec<char>, KeyPress)| (e.0@, e.1)) == remap_entries(sv.take(i as int), ov),
            decreases specs.len() - i,
        {
            assert(sv.take(i + 1).drop_last() =~= sv.take(i as int));
            assert(sv[i as int] == (specs@[i as int].action@, specs@[i as int].default@));
            let ghost before = remap@;
            match remap_entry_of(&specs[i], overrides) {
                Some(e) => {
                    remap.push(e);
                    assert(remap@.map_values(|e: (Vec<char>, KeyPress)| (e.0@, e.1)) =~= before.map_values(
                        |e: (Vec<char>, KeyPress)| (e.0@, e.1),
                    ).push((remap@.last().0@, remap@.last().1)));
                },
                None => {},
            }
            i = i + 1;
        }
        assert(sv.take(specs.len() as int) =~= sv);
        let mut disabled_defaults: Vec<Vec<char>> = Vec::new();
        let mut j: usize = 0;
        while j < specs.len()
            invariant
                j <= specs.len(),
                sv == spec_views(specs@),
                ov == override_views(overrides@),
                forall|k: Seq<char>| text::views(disabled_defaults@).contains(k) <==> (default_disabled(sv, ov, k)
                    && exists|m: int| 0 <= m < j && #[trigger] default_key(sv[m]) == k),
            decreases specs.len() - j,
        {
            let key = default_key_of(&specs[j]);
            assert(key@ == default_key(sv[j as int]));
            let uses = count_default_uses(specs, key.as_slice());
            let moved = count_moved_uses(specs, overrides, key.as_slice());
            let ghost before = disabled_defaults@;
            let ghost bv = text::views(before);
            let ghost jj = j as int;
            let ghost kk = key@;
            assert(kk == default_key(sv[jj]));
            let pushed = uses > 0 && moved >= uses;
            assert(pushed <==> default_disabled(sv, ov, kk));
            if pushed {
                disabled_defaults.push(key);
                assert(text::views(disabled_defaults@) =~= bv.push(kk));
            } else {
                assert(text::views(disabled_defaults@) =~= bv);
            }
            j = j + 1;
            proof {
                lemma_disabled_step(sv, ov, bv, text::views(disabled_defaults@), jj, kk, pushed);
            }
        }
        let r = Keybinds { remap, disabled_defaults };
        assert forall|k: Seq<char>| #[trigger] r.is_disabled(k) == default_disabled(sv, ov, k) by {
            if default_disabled(sv, ov, k) {
                lemma_default_uses_witness(sv, k);
            }
        }
        r
    }

    /// What a key press becomes: the command's default key press when its
    /// canonical key is remapped, nothing when it is a default key that was
    /// moved away, and the key press itself otherwise.
    pub fn remap_key(&self, key: KeyPress) -> (r: Option<KeyPress>)
        ensures
            ({
                let n = normalize_event_spec(key);
                match self.remapped(n) {
                    Some(m) => r == Some(KeyPress { code: m.code, modifiers: m.modifiers }),
                    None => if self.is_disabled(n) {
                        r is None
                    } else {
                        r == Some(key)
                    },
                }
            }),
    {
        let normalized = normalize_event(key);
        let n = chars_of(normalized.as_str());
        if let Some(mapped) = self.lookup(n.as_slice()) {
            return Some(KeyPress::new(mapped.code, mapped.modifiers));
        }
        let mut i: usize = 0;
        while i < self.disabled_defaults.len()
            invariant
                i <= self.disabled_defaults.len(),
                n@ == normalize_event_spec(key),
                self.remapped(n@) is None,
                forall|j: int| 0 <= j < i ==> self.disabled_defaults@[j]@ != n@,
            decreases self.disabled_defaults.len() - i,
        {
            if chars_eq(self.disabled_defaults[i].as_slice(), n.as_slice()) {
                assert(self.disabled()[i as int] == n@);
                assert(self.disabled().contains(n@));
                assert(n@ == normalize_event_spec(key));
                return None;
            }
            i = i + 1;
        }
        assert(!self.disabled().contains(n@)) by {
            if self.disabled().contains(n@) {
                let j = choose|j: int| 0 <= j < self.disabled().len() && self.disabled()[j] == n@;
                assert(self.disabled_defaults@[j]@ == n@);
            }
        }
        Some(key)
    }

    /// The key press the last entry for `k` maps to.
    fn lookup(&self, k: &[char]) -> (r: Option<KeyPress>)
        ensures
            r == self.remapped(k@),
    {
        let ghost es = self.entries();
        let mut i = self.remap.len();
        assert(es.take(i as int) =~= es);
        while i > 0
            invariant
                i <= self.remap.len(),
                es == self.entries(),
                assoc_get(es, k@) == assoc_get(es.take(i as int), k@),
            decreases i,
        {
            let ghost pre = es.take(i as int);
            assert(pre.drop_last() =~= es.take(i - 1));
            assert(pre.last() == (self.remap@[i - 1].0@, self.remap@[i - 1].1));
            if chars_eq(self.remap[i - 1].0.as_slice(), k) {
                return Some(self.remap[i - 1].1);
            }
            i = i - 1;
        }
        assert(es.take(0).len() == 0);
        None
    }
}

/// One more command scanned keeps the switched-off list exact.
proof fn lemma_disabled_step(
    sv: Seq<(Seq<char>, Seq<char>)>,
    ov: Seq<(Seq<char>, Seq<char>)>,
    bv: Seq<Seq<char>>,
    dv: Seq<Seq<char>>,
    jj: int,
    kk: Seq<char>,
    pushed: bool,
)
    requires
        0 <= jj < sv.len(),
        kk == default_key(sv[jj]),
        pushed <==> default_disabled(sv, ov, kk),
        pushed ==> dv == bv.push(kk),
        !pushed ==> dv == bv,
        forall|k: Seq<char>| bv.contains(k) <==> (default_disabled(sv, ov, k)
            && exists|m: int| 0 <= m < jj && #[trigger] default_key(sv[m]) == k),
    ensures
        forall|k: Seq<char>| dv.contains(k) <==> (default_disabled(sv, ov, k)
            && exists|m: int| 0 <= m < jj + 1 && #[trigger] default_key(sv[m]) == k),
{
    assert forall|k: Seq<char>| dv.contains(k) <==> (default_disabled(sv, ov, k)
        && exists|m: int| 0 <= m < jj + 1 && #[trigger] default_key(sv[m]) == k) by {
        let e_now = exists|m: int| 0 <= m < jj + 1 && #[trigger] default_key(sv[m]) == k;
        let e_before = exists|m: int| 0 <= m < jj && #[trigger] default_key(sv[m]) == k;
        assert(e_now <==> (e_before || kk == k)) by {
            if e_now {
                let m = choose|m: int| 0 <= m < jj + 1 && #[trigger] default_key(sv[m]) == k;
                if m < jj {
                    assert(e_before);
                }
            }
            if kk == k {
                assert(default_key(sv[jj]) == k);
            }
        }
        if pushed {
            assert(dv.contains(k) <==> (bv.contains(k) || k == kk)) by {
                if dv.contains(k) {
                    let w = choose|w: int| 0 <= w < dv.len() && dv[w] == k;
                    if w < bv.len() {
                        assert(bv[w] == k);
                    }
                }
                if bv.contains(k) {
                    let w = choose|w: int| 0 <= w < bv.len() && bv[w] == k;
                    assert(dv[w] == k);
                }
                if k == kk {
                    assert(dv[bv.len() as int] == k);
                }
            }
        }
    }
}

/// Some command has default key `k` when any does.
proof fn lemma_default_uses_witness(specs: Seq<(Seq<char>, Seq<char>)>, k: Seq<char>)
    requires
        default_uses(specs, k) > 0,
    ensures
        exists|m: int| 0 <= m < specs.len() && #[trigger] default_key(specs[m]) == k,
    decreases specs.len(),
{
    if default_key(specs.last()) == k {
        assert(default_key(specs[specs.len() - 1]) == k);
    } else {
        lemma_default_uses_witness(specs.drop_last(), k);
        let m = choose|m: int| 0 <= m < specs.len() - 1 && #[trigger] default_key(specs.drop_last()[m]) == k;
        assert(specs.drop_last()[m] == specs[m]);
    }
}

/// The binding text of the first override entry for `action`.
fn find_override<'a>(overrides: &'a [(String, String)], action: &str) -> (r: Option<&'a String>)
    ensures
        r matches Some(b) ==> lookup_override(override_views(overrides@), action@) == Some(b@),
        r is None ==> lookup_override(override_views(overrides@), action@) is None,
{
    let a = chars_of(action);
    let ghost ov = override_views(overrides@);
    let mut i: usize = 0;
    assert(ov.skip(0) =~= ov);
    while i < overrides.len()
        invariant
            i <= overrides.len(),
            ov == override_views(overrides@),
            lookup_override(ov, action@) == lookup_override(ov.skip(i as int), action@),
            a@ == action@,
        decreases overrides.len() - i,
    {
        assert(ov.skip(i as int).drop_first() =~= ov.skip(i + 1));
        assert(ov.skip(i as int)[0] == (overrides@[i as int].0@, overrides@[i as int].1@));
        let name = chars_of(overrides[i].0.as_str());
        if chars_eq(name.as_slice(), a.as_slice()) {
            assert(lookup_override(ov.skip(i as int), action@) == Some(overrides@[i as int].1@));
            return Some(&overrides[i].1);
        }
        assert(lookup_override(ov.skip(i as int), action@) == lookup_override(ov.skip(i + 1), action@));
        i = i + 1;
    }
    assert(ov.skip(i as int).len() == 0);
    None
}

/// The canonical key an override sets for `action`.
fn override_key_of(overrides: &[(String, String)], action: &str) -> (r: Option<Vec<char>>)
    ensures
        r matches Some(k) ==> override_key(override_views(overrides@), action@) == Some(k@),
        r is None ==> override_key(override_views(overrides@), action@) is None,
{
    match find_override(overrides, action) {
        Some(b) => match normalize_binding(b.as_str()) {
            Some(k) => Some(chars_of(k.as_str())),
            None => None,
        },
        None => None,
    }
}

/// Whether the overrides move command `action` to a key of its own (an
/// override for it whose binding parses).
pub fn action_overridden(overrides: &[(String, String)], action: &str) -> (r: bool)
    ensures
        r == override_key(override_views(overrides@), action@) is Some,
{
    override_key_of(overrides, action).is_some()
}

/// The remap entry one command contributes.
fn remap_entry_of(b: &BindingSpec, overrides: &[(String, String)]) -> (r: Option<(Vec<char>, KeyPress)>)
    ensures
        r matches Some(e) ==> remap_entry((b.action@, b.default@), override_views(overrides@)) == Some((e.0@, e.1)),
        r is None ==> remap_entry((b.action@, b.default@), override_views(overrides@)) is None,
{
    match parse_binding(b.default) {
        None => None,
        Some(ev) => match override_key_of(overrides, b.action) {
            Some(ok) => Some((ok, ev)),
            None => {
                let dk = normalize_event(ev);
                Some((chars_of(dk.as_str()), ev))
            },
        },
    }
}

/// A command's default key in canonical form, or empty text.
fn default_key_of(b: &BindingSpec) -> (r: Vec<char>)
    ensures
        r@ == default_key((b.action@, b.default@)),
{
    match normalize_binding(b.default) {
        Some(k) => chars_of(k.as_str()),
        None => Vec::new(),
    }
}

/// The command's default key is `k` and its override moves it elsewhere.
fn moves_away_of(b: &BindingSpec, overrides: &[(String, String)], k: &[char]) -> (r: bool)
    ensures
        r == moves_away((b.action@, b.default@), override_views(overrides@), k@),
{
    match parse_binding(b.default) {
        None => false,
        Some(ev) => {
            let dk = normalize_event(ev);
            let dkc = chars_of(dk.as_str());
            if !chars_eq(dkc.as_slice(), k) {
                return false;
            }
            match override_key_of(overrides, b.action) {
                Some(ok) => !chars_eq(ok.as_slice(), k),
                None => false,
            }
        },
    }
}

/// How many commands have default key `k`.
fn count_default_uses(specs: &[BindingSpec], k: &[char]) -> (r: usize)
    ensures
        r == default_uses(spec_views(specs@), k@),
{
    let ghost sv = spec_views(specs@);
    let mut count: usize = 0;
    let mut i: usize = 0;
    while i < specs.len()
        invariant
            i <= specs.len(),
            sv == spec_views(specs@),
            count == default_uses(sv.take(i as int), k@),
            count <= i,
        decreases specs.len() - i,
    {
        assert(sv.take(i + 1).drop_last() =~= sv.take(i as int));
        assert(sv[i as int] == (specs@[i as int].action@, specs@[i as int].default@));
        let key = default_key_of(&specs[i]);
        if chars_eq(key.as_slice(), k) {
            count = count + 1;
        }
        i = i + 1;
    }
    assert(sv.take(specs.len() as int) =~= sv);
    count
}

/// How many commands with default key `k` have been moved elsewhere.
fn count_moved_uses(specs: &[BindingSpec], overrides: &[(String, String)], k: &[char]) -> (r: usize)
    ensures
        r == moved_uses(spec_views(specs@), override_views(overrides@), k@),
{
    let ghost sv = spec_views(specs@);
    let ghost ov = override_views(overrides@);
    let mut count: usize = 0;
    let mut i: usize = 0;
    while i < specs.len()
        invariant
            i <= specs.len(),
            sv == spec_views(specs@),
            ov == override_views(overrides@),
            count == moved_uses(sv.take(i as int), ov, k@),
            count <= i,
        decreases specs.len() - i,
    {
        assert(sv.take(i + 1).drop_last() =~= sv.take(i as int));
        assert(sv[i as int] == (specs@[i as int].action@, specs@[i as int].default@));
        if moves_away_of(&specs[i], overrides, k) {
            count = count + 1;
        }
        i = i + 1;
    }
    assert(sv.take(specs.len() as int) =~= sv);
    count
}

// ---------------------------------------------------------------------------
// Laws of the remapping
// ---------------------------------------------------------------------------

/// A command's overriding key reaches the command's default key press,
/// unless a later command's entry claims the same key.
pub proof fn lemma_override_reaches_command(
    specs: Seq<(Seq<char>, Seq<char>)>,
    overrides: Seq<(Seq<char>, Seq<char>)>,
    i: int,
)
    requires
        0 <= i < specs.len(),
        parse_binding_spec(specs[i].1) is Some,
        override_key(overrides, specs[i].0) is Some,
        forall|j: int|
            i < j < specs.len() ==> match #[trigger] remap_entry(specs[j], overrides) {
                Some(e) => e.0 != override_key(overrides, specs[i].0).unwrap(),
                None => true,
            },
    ensures
        assoc_get(remap_entries(specs, overrides), override_key(overrides, specs[i].0).unwrap())
            == parse_binding_spec(specs[i].1),
    decreases specs.len(),
{
    let ok = override_key(overrides, specs[i].0).unwrap();
    let init = remap_entries(specs.drop_last(), overrides);
    if i == specs.len() - 1 {
        assert(specs.last() == specs[i]);
        let e = remap_entry(specs.last(), overrides).unwrap();
        assert(remap_entries(specs, overrides) == init.push(e));
        assert(init.push(e).last() == e);
    } else {
        assert(specs.drop_last()[i] == specs[i]);
        assert forall|j: int| i < j < specs.drop_last().len() implies match #[trigger] remap_entry(
            specs.drop_last()[j],
            overrides,
        ) {
            Some(e) => e.0 != ok,
            None => true,
        } by {
            assert(specs.drop_last()[j] == specs[j]);
            assert(match remap_entry(specs[j], overrides) {
                Some(e) => e.0 != ok,
                None => true,
            });
        }
        lemma_override_reaches_command(specs.drop_last(), overrides, i);
        let last = specs.len() - 1;
        assert(specs.last() == specs[last]);
        assert(match remap_entry(specs[last], overrides) {
            Some(e) => e.0 != ok,
            None => true,
        });
        match remap_entry(specs.last(), overrides) {
            Some(e) => {
                assert(remap_entries(specs, overrides) == init.push(e));
                assert(init.push(e).drop_last() =~= init);
            },
            None => {},
        }
    }
}

/// Without overrides no default key is switched off, so no key press is dropped.
pub proof fn lemma_no_overrides_disable_nothing(specs: Seq<(Seq<char>, Seq<char>)>, k: Seq<char>)
    ensures
        !default_disabled(specs, Seq::empty(), k),
{
    lemma_no_overrides_move_nothing(specs, k);
}

proof fn lemma_no_overrides_move_nothing(specs: Seq<(Seq<char>, Seq<char>)>, k: Seq<char>)
    ensures
        moved_uses(specs, Seq::empty(), k) == 0,
    decreases specs.len(),
{
    if specs.len() > 0 {
        lemma_no_overrides_move_nothing(specs.drop_last(), k);
        assert(lookup_override(Seq::empty(), specs.last().0) is None);
        assert(!moves_away(specs.last(), Seq::empty(), k));
    }
}

/// Without overrides every entry maps a key press's canonical text to that
/// same key press.
proof fn lemma_no_override_entries_canonical(specs: Seq<(Seq<char>, Seq<char>)>)
    ensures
        forall|j: int|
            0 <= j < remap_entries(specs, Seq::empty()).len() ==> #[trigger] remap_entries(specs, Seq::empty())[j].0
                == normalize_event_spec(remap_entries(specs, Seq::empty())[j].1),
    decreases specs.len(),
{
    if specs.len() > 0 {
        lemma_no_override_entries_canonical(specs.drop_last());
        assert(lookup_override(Seq::empty(), specs.last().0) is None);
        let init = remap_entries(specs.drop_last(), Seq::empty());
        match remap_entry(specs.last(), Seq::empty()) {
            Some(e) => {
                assert forall|j: int| 0 <= j < init.push(e).len() implies #[trigger] init.push(e)[j].0
                    == normalize_event_spec(init.push(e)[j].1) by {
                    if j < init.len() {
                        assert(init.push(e)[j] == init[j]);
                    }
                }
            },
            None => {},
        }
    }
}

proof fn lemma_assoc_get_canonical(list: Seq<(Seq<char>, KeyPress)>, k: Seq<char>)
    requires
        forall|j: int| 0 <= j < list.len() ==> #[trigger] list[j].0 == normalize_event_spec(list[j].1),
    ensures
        assoc_get(list, k) matches Some(m) ==> normalize_event_spec(m) == k,
    decreases list.len(),
{
    if list.len() > 0 {
        assert(list.last() == list[list.len() - 1]);
        assert forall|j: int| 0 <= j < list.drop_last().len() implies #[trigger] list.drop_last()[j].0
            == normalize_event_spec(list.drop_last()[j].1) by {
            assert(list.drop_last()[j] == list[j]);
        }
        lemma_assoc_get_canonical(list.drop_last(), k);
    }
}

/// Without overrides a key press is only ever remapped to a key press with
/// the same canonical text: the defaults change no key into another.
pub proof fn lemma_no_overrides_keep_keys(specs: Seq<(Seq<char>, Seq<char>)>, k: Seq<char>)
    ensures
        assoc_get(remap_entries(specs, Seq::empty()), k) matches Some(m) ==> normalize_event_spec(m) == k,
{
    lemma_no_override_entries_canonical(specs);
    lemma_assoc_get_canonical(remap_entries(specs, Seq::empty()), k);
}

// ---------------------------------------------------------------------------
// Canonical text is a fixed point
// ---------------------------------------------------------------------------

/// A token that stands alone between `+` signs: non-empty, no `+` in it,
/// and no whitespace at either end.
pub open spec fn plain_token(t: Seq<char>) -> bool {
    &&& t.len() > 0
    &&& !text::is_ws(t[0])
    &&& !text::is_ws(t.last())
    &&& text::free_of(t, '+')
}

/// The names `key_name` gives keys.
pub open spec fn is_key_name(n: Seq<char>) -> bool {
    ||| n == "esc"@
    ||| n == "enter"@
    ||| n == "tab"@
    ||| n == "backspace"@
    ||| n == "up"@
    ||| n == "down"@
    ||| n == "left"@
    ||| n == "right"@
    ||| n == "home"@
    ||| n == "end"@
    ||| n == "pageup"@
    ||| n == "pagedown"@
    ||| n == "space"@
}

/// A key name as canonical text writes it: a key's name, or one
/// character that is not whitespace, not `+` and not an upper-case letter.
pub open spec fn canonical_name(n: Seq<char>) -> bool {
    ||| is_key_name(n)
    ||| (n.len() == 1 && !text::is_ws(n[0]) && n[0] != '+' && text::ascii_lower(n[0]) == n[0])
}

/// Modifiers that binding text can name.
pub open spec fn nameable_mods(m: KeyMods) -> bool {
    !m.super_key && !m.hyper && !m.meta
}

proof fn lemma_modifier_words()
    ensures
        plain_token("ctrl"@),
        plain_token("alt"@),
        plain_token("shift"@),
        modifier_of("ctrl"@) == Some(0u8),
        modifier_of("alt"@) == Some(1u8),
        modifier_of("shift"@) == Some(2u8),
{
    reveal_strlit("ctrl");
    reveal_strlit("control");
    reveal_strlit("alt");
    reveal_strlit("shift");
    assert(text::lower("ctrl"@) =~= "ctrl"@);
    assert(text::lower("alt"@) =~= "alt"@);
    assert(text::lower("shift"@) =~= "shift"@);
}

proof fn lemma_key_name_words(n: Seq<char>)
    requires
        is_key_name(n),
    ensures
        plain_token(n),
        text::lower(n) == n,
        named_key(n) matches Some(code) && key_name(code) == n,
{
    reveal_strlit("esc");
    assert("esc"@.len() == 3 && "esc"@[0] == 'e' && "esc"@[1] == 's');
    reveal_strlit("escape");
    assert("escape"@.len() == 6 && "escape"@[0] == 'e' && "escape"@[1] == 's');
    reveal_strlit("enter");
    assert("enter"@.len() == 5 && "enter"@[0] == 'e' && "enter"@[1] == 'n');
    reveal_strlit("return");
    assert("return"@.len() == 6 && "return"@[0] == 'r' && "return"@[1] == 'e');
    reveal_strlit("tab");
    assert("tab"@.len() == 3 && "tab"@[0] == 't' && "tab"@[1] == 'a');
    reveal_strlit("backspace");
    assert("backspace"@.len() == 9 && "backspace"@[0] == 'b' && "backspace"@[1] == 'a');
    reveal_strlit("space");
    assert("space"@.len() == 5 && "space"@[0] == 's' && "space"@[1] == 'p');
    reveal_strlit("up");
    assert("up"@.len() == 2 && "up"@[0] == 'u' && "up"@[1] == 'p');
    reveal_strlit("down");
    assert("down"@.len() == 4 && "down"@[0] == 'd' && "down"@[1] == 'o');
    reveal_strlit("left");
    assert("left"@.len() == 4 && "left"@[0] == 'l' && "left"@[1] == 'e');
    reveal_strlit("right");
    assert("right"@.len() == 5 && "right"@[0] == 'r' && "right"@[1] == 'i');
    reveal_strlit("home");
    assert("home"@.len() == 4 && "home"@[0] == 'h' && "home"@[1] == 'o');
    reveal_strlit("end");
    assert("end"@.len() == 3 && "end"@[0] == 'e' && "end"@[1] == 'n');
    reveal_strlit("pageup");
    assert("pageup"@.len() == 6 && "pageup"@[0] == 'p' && "pageup"@[1] == 'a');
    reveal_strlit("pagedown");
    assert("pagedown"@.len() == 8 && "pagedown"@[0] == 'p' && "pagedown"@[1] == 'a');
    assert(text::lower(n) =~= n);
}

proof fn lemma_single_char_not_named(x: char)
    ensures
        named_key(seq![x]) is None,
        !is_key_name(seq![x]),
{
    reveal_strlit("esc");
    assert("esc"@.len() == 3);
    reveal_strlit("escape");
    assert("escape"@.len() == 6);
    reveal_strlit("enter");
    assert("enter"@.len() == 5);
    reveal_strlit("return");
    assert("return"@.len() == 6);
    reveal_strlit("tab");
    assert("tab"@.len() == 3);
    reveal_strlit("backspace");
    assert("backspace"@.len() == 9);
    reveal_strlit("space");
    assert("space"@.len() == 5);
    reveal_strlit("up");
    assert("up"@.len() == 2);
    reveal_strlit("down");
    assert("down"@.len() == 4);
    reveal_strlit("left");
    assert("left"@.len() == 4);
    reveal_strlit("right");
    assert("right"@.len() == 5);
    reveal_strlit("home");
    assert("home"@.len() == 4);
    reveal_strlit("end");
    assert("end"@.len() == 3);
    reveal_strlit("pageup");
    assert("pageup"@.len() == 6);
    reveal_strlit("pagedown");
    assert("pagedown"@.len() == 8);
}

/// Modifiers read from binding text are ones binding text can name.
proof fn lemma_mods_of_nameable(tokens: Seq<Seq<char>>)
    ensures
        mods_of(tokens) matches Some(m) ==> nameable_mods(m),
    decreases tokens.len(),
{
    if tokens.len() > 0 {
        lemma_mods_of_nameable(tokens.drop_last());
    }
}

/// The modifier names of nameable modifiers read back as the same modifiers.
proof fn lemma_mod_names_roundtrip(m: KeyMods)
    requires
        nameable_mods(m),
    ensures
        mods_of(mod_names(m)) == Some(m),
        forall|j: int| 0 <= j < mod_names(m).len() ==> plain_token(#[trigger] mod_names(m)[j]),
{
    lemma_modifier_words();
    let e = Seq::<Seq<char>>::empty();
    let a = if m.control { seq!["ctrl"@] } else { e };
    let b = if m.alt { a.push("alt"@) } else { a };
    let c = if m.shift { b.push("shift"@) } else { b };
    assert(c == mod_names(m));
    let ma = KeyMods { control: m.control, ..no_mods() };
    let mb = KeyMods { alt: m.alt, ..ma };
    assert(mods_of(e) == Some(no_mods()));
    if m.control {
        assert(seq!["ctrl"@].drop_last() =~= e);
    }
    assert(mods_of(a) == Some(ma));
    if m.alt {
        assert(a.push("alt"@).drop_last() =~= a);
    }
    assert(mods_of(b) == Some(mb));
    if m.shift {
        assert(b.push("shift"@).drop_last() =~= b);
    }
    assert(mods_of(c) == Some(m));
}

/// Tokens that already stand alone are kept as they are.
proof fn lemma_kept_plain(ts: Seq<Seq<char>>)
    requires
        forall|j: int| 0 <= j < ts.len() ==> plain_token(#[trigger] ts[j]),
    ensures
        kept_tokens(ts) == ts,
    decreases ts.len(),
{
    if ts.len() > 0 {
        let init = ts.drop_last();
        assert forall|j: int| 0 <= j < init.len() implies plain_token(#[trigger] init[j]) by {
            assert(init[j] == ts[j]);
        }
        lemma_kept_plain(init);
        assert(plain_token(ts[ts.len() - 1]));
        text::lemma_trim_plain(ts.last());
        assert(init.push(ts.last()) =~= ts);
    }
}

/// Kept tokens hold no `+` when the pieces hold none.
proof fn lemma_kept_free(pieces: Seq<Seq<char>>)
    requires
        forall|j: int| 0 <= j < pieces.len() ==> text::free_of(#[trigger] pieces[j], '+'),
    ensures
        forall|j: int| 0 <= j < kept_tokens(pieces).len() ==> text::free_of(#[trigger] kept_tokens(pieces)[j], '+'),
    decreases pieces.len(),
{
    if pieces.len() > 0 {
        let init = pieces.drop_last();
        assert forall|j: int| 0 <= j < init.len() implies text::free_of(#[trigger] init[j], '+') by {
            assert(init[j] == pieces[j]);
        }
        lemma_kept_free(init);
        assert(text::free_of(pieces[pieces.len() - 1], '+'));
        text::lemma_trim_ends(pieces.last(), '+');
        let k = kept_tokens(pieces);
        let ki = kept_tokens(init);
        assert forall|j: int| 0 <= j < k.len() implies text::free_of(#[trigger] k[j], '+') by {
            if j < ki.len() {
                assert(k[j] == ki[j]);
            }
        }
    }
}

/// A character case-folded as binding text reads it is written back as
/// the same lower-case character.
proof fn lemma_fold_char(ch: char, shift: bool)
    requires
        !text::is_ws(ch),
        ch != '+',
    ensures
        ({
            let c = if shift && is_ascii_alpha(ch) { text::ascii_upper(ch) } else { text::ascii_lower(ch) };
            &&& c != ' '
            &&& !text::is_ws(text::ascii_lower(c))
            &&& text::ascii_lower(c) != '+'
            &&& text::ascii_lower(text::ascii_lower(c)) == text::ascii_lower(c)
            &&& text::ascii_lower(c) == text::ascii_lower(ch)
        }),
{
}

/// What binding text reads as has nameable modifiers and a canonical key name.
proof fn lemma_parsed_canonical(s: Seq<char>)
    requires
        parse_binding_spec(s) is Some,
    ensures
        nameable_mods(parse_binding_spec(s)->0.modifiers),
        canonical_name(key_name(parse_binding_spec(s)->0.code)),
{
    let tokens = binding_tokens(s);
    text::lemma_split_pieces_free(s, '+');
    lemma_kept_free(text::split_on(s, '+'));
    lemma_mods_of_nameable(tokens.drop_last());
    let raw = text::trim(tokens.last());
    assert(text::free_of(tokens[tokens.len() - 1], '+'));
    text::lemma_trim_ends(tokens.last(), '+');
    match named_key(text::lower(raw)) {
        Some(code) => {},
        None => {
            let ch = raw[0];
            assert(ch != '+');
            let m = mods_of(tokens.drop_last())->0;
            lemma_fold_char(ch, m.shift);
        },
    }
}

/// Canonical text reads back as a key press with the same modifiers and
/// key name.
proof fn lemma_canonical_reads_back(m: KeyMods, name: Seq<char>)
    requires
        nameable_mods(m),
        canonical_name(name),
    ensures
        parse_binding_spec(text::join(mod_names(m).push(name), '+')) matches Some(e)
            && e.modifiers == m && key_name(e.code) == name,
{
    let ts = mod_names(m).push(name);
    lemma_mod_names_roundtrip(m);
    if is_key_name(name) {
        lemma_key_name_words(name);
    } else {
        lemma_fold_char(name[0], m.shift);
        lemma_single_char_not_named(name[0]);
        assert(name =~= seq![name[0]]);
        assert(text::lower(name) =~= name);
    }
    assert(plain_token(name));
    assert forall|j: int| 0 <= j < ts.len() implies plain_token(#[trigger] ts[j]) by {
        if j < mod_names(m).len() {
            assert(ts[j] == mod_names(m)[j]);
        }
    }
    assert forall|j: int| 0 <= j < ts.len() implies text::free_of(#[trigger] ts[j], '+') by {
        assert(plain_token(ts[j]));
    }
    text::lemma_split_join(ts, '+');
    lemma_kept_plain(ts);
    assert(ts.drop_last() =~= mod_names(m));
    text::lemma_trim_plain(name);
}

/// Each key name stands for the key it names, and names only that key: a
/// lower-cased name gives the arrow, paging, editing or escape key of that
/// name, and each of those keys is written back with its own name.
pub proof fn lemma_key_names_name_their_keys(l: Seq<char>, code: KeyCode)
    ensures
        named_key(l) == Some(KeyCode::Up) <==> l == "up"@,
        named_key(l) == Some(KeyCode::Down) <==> l == "down"@,
        named_key(l) == Some(KeyCode::Left) <==> l == "left"@,
        named_key(l) == Some(KeyCode::Right) <==> l == "right"@,
        named_key(l) == Some(KeyCode::Home) <==> l == "home"@,
        named_key(l) == Some(KeyCode::End) <==> l == "end"@,
        named_key(l) == Some(KeyCode::PageUp) <==> l == "pageup"@,
        named_key(l) == Some(KeyCode::PageDown) <==> l == "pagedown"@,
        named_key(l) == Some(KeyCode::Tab) <==> l == "tab"@,
        named_key(l) == Some(KeyCode::Backspace) <==> l == "backspace"@,
        named_key(l) == Some(KeyCode::Esc) <==> (l == "esc"@ || l == "escape"@),
        named_key(l) == Some(KeyCode::Enter) <==> (l == "enter"@ || l == "return"@),
        named_key(l) == Some(KeyCode::Char(' ')) <==> l == "space"@,
        key_name(code) == "up"@ <==> code == KeyCode::Up,
        key_name(code) == "down"@ <==> code == KeyCode::Down,
        key_name(code) == "left"@ <==> code == KeyCode::Left,
        key_name(code) == "right"@ <==> code == KeyCode::Right,
        key_name(code) == "home"@ <==> code == KeyCode::Home,
        key_name(code) == "end"@ <==> code == KeyCode::End,
        key_name(code) == "pageup"@ <==> code == KeyCode::PageUp,
        key_name(code) == "pagedown"@ <==> code == KeyCode::PageDown,
        key_name(code) == "tab"@ <==> code == KeyCode::Tab,
        key_name(code) == "backspace"@ <==> code == KeyCode::Backspace,
        key_name(code) == "esc"@ <==> code == KeyCode::Esc,
        key_name(code) == "enter"@ <==> code == KeyCode::Enter,
        key_name(code) == "space"@ <==> code == KeyCode::Char(' '),
        code is Char && code->Char_0 != ' ' ==> key_name(code) == seq![text::ascii_lower(code->Char_0)],
{
    reveal_strlit("esc");
    assert("esc"@.len() == 3 && "esc"@[0] == 'e' && "esc"@[1] == 's');
    reveal_strlit("escape");
    assert("escape"@.len() == 6 && "escape"@[0] == 'e' && "escape"@[1] == 's');
    reveal_strlit("enter");
    assert("enter"@.len() == 5 && "enter"@[0] == 'e' && "enter"@[1] == 'n');
    reveal_strlit("return");
    assert("return"@.len() == 6 && "return"@[0] == 'r' && "return"@[1] == 'e');
    reveal_strlit("tab");
    assert("tab"@.len() == 3 && "tab"@[0] == 't' && "tab"@[1] == 'a');
    reveal_strlit("backspace");
    assert("backspace"@.len() == 9 && "backspace"@[0] == 'b' && "backspace"@[1] == 'a');
    reveal_strlit("space");
    assert("space"@.len() == 5 && "space"@[0] == 's' && "space"@[1] == 'p');
    reveal_strlit("up");
    assert("up"@.len() == 2 && "up"@[0] == 'u' && "up"@[1] == 'p');
    reveal_strlit("down");
    assert("down"@.len() == 4 && "down"@[0] == 'd' && "down"@[1] == 'o');
    reveal_strlit("left");
    assert("left"@.len() == 4 && "left"@[0] == 'l' && "left"@[1] == 'e');
    reveal_strlit("right");
    assert("right"@.len() == 5 && "right"@[0] == 'r' && "right"@[1] == 'i');
    reveal_strlit("home");
    assert("home"@.len() == 4 && "home"@[0] == 'h' && "home"@[1] == 'o');
    reveal_strlit("end");
    assert("end"@.len() == 3 && "end"@[0] == 'e' && "end"@[1] == 'n');
    reveal_strlit("pageup");
    assert("pageup"@.len() == 6 && "pageup"@[0] == 'p' && "pageup"@[1] == 'a');
    reveal_strlit("pagedown");
    assert("pagedown"@.len() == 8 && "pagedown"@[0] == 'p' && "pagedown"@[1] == 'a');
}

/// Canonical binding text is already canonical: normalizing the text that
/// normalizing gives returns that same text.
pub proof fn lemma_normalize_binding_fixed_point(s: Seq<char>)
    requires
        normalize_binding_spec(s) is Some,
    ensures
        normalize_binding_spec(normalize_binding_spec(s)->0) == normalize_binding_spec(s),
{
    let e = parse_binding_spec(s)->0;
    lemma_parsed_canonical(s);
    let name = key_name(e.code);
    if is_key_name(name) {
        lemma_key_name_words(name);
    }
    assert(name.len() > 0);
    lemma_canonical_reads_back(e.modifiers, name);
}

} // verus!
