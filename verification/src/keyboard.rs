//! Where a key goes: to a drag, an overlay, a shortcut, or the shell.

use vstd::prelude::*;
use crate::control::ScrollAmount;
use crate::keys::{
    alt_digit_tab, digit_tab, linux_chord, linux_chord_translate, Key, KeyView, Mods, NamedKey,
};
use crate::layout::Axis;
use crate::overlay::{Overlays, OverlaysView};
use crate::text::{all_digits, ascii_lower, digit_value, is_digit, same, to_ascii_lower, to_chars};

verus! {

broadcast use vstd::seq_lib::group_seq_properties;

#[derive(Clone, Copy, Debug, PartialEq, Eq, Structural)]
pub enum Direction {
    Left,
    Right,
    Up,
    Down,
}

/// What a shortcut does.
#[derive(Clone, Copy, Debug, PartialEq, Eq, Structural)]
pub enum Shortcut {
    ToggleHelp,
    OpenPalette,
    OpenSearch,
    ToggleSettings,
    /// To the prompt before this one, or after it.
    JumpPrompt { back: bool },
    Copy,
    Paste,
    /// Splits the focused pane.
    Split(Axis),
    ClosePane,
    NewTab,
    ResetZoom,
    Zoom { closer: bool },
    /// Shows a tab, counted from 1.
    SelectTab(usize),
    CycleTab { next: bool },
    /// Makes the focused pane larger or smaller.
    Resize { axis: Axis, grow: bool },
    /// Moves the focus to the pane there.
    FocusPane(Direction),
}

// ---- the table of shortcuts ------------------------------------------------

/// The shortcuts on letters and signs that do something with overlays, text and panes.
pub open spec fn sign_shortcut(s: Seq<char>, mods: Mods) -> Option<Shortcut> {
    let low = ascii_lower(s);
    if s == "/"@ || s == "?"@ {
        Some(Shortcut::ToggleHelp)
    } else if low == "p"@ && mods.shift {
        Some(Shortcut::OpenPalette)
    } else if s == "f"@ && !mods.shift && !mods.alt {
        Some(Shortcut::OpenSearch)
    } else if s == ","@ {
        Some(Shortcut::ToggleSettings)
    } else if s == "["@ {
        Some(Shortcut::JumpPrompt { back: true })
    } else if s == "]"@ {
        Some(Shortcut::JumpPrompt { back: false })
    } else if low == "c"@ {
        Some(Shortcut::Copy)
    } else if low == "v"@ {
        Some(Shortcut::Paste)
    } else if low == "d"@ {
        Some(
            Shortcut::Split(if mods.shift {
                Axis::Vertical
            } else {
                Axis::Horizontal
            }),
        )
    } else if low == "w"@ {
        Some(Shortcut::ClosePane)
    } else if low == "t"@ {
        Some(Shortcut::NewTab)
    } else {
        None
    }
}

/// The shortcuts on digits and on the signs that zoom.
pub open spec fn digit_shortcut(s: Seq<char>) -> Option<Shortcut> {
    if s == "0"@ {
        Some(Shortcut::ResetZoom)
    } else if s == "="@ || s == "+"@ {
        Some(Shortcut::Zoom { closer: true })
    } else if s == "-"@ || s == "_"@ {
        Some(Shortcut::Zoom { closer: false })
    } else if s.len() > 0 && all_digits(s) {
        Some(Shortcut::SelectTab(digit_value(s[0]) as usize))
    } else {
        None
    }
}

/// The shortcuts on arrows: with Shift they change the tab, with Control the size of the pane,
/// else the focus.
pub open spec fn arrow_shortcut(key: NamedKey, mods: Mods) -> Option<Shortcut> {
    match key {
        NamedKey::ArrowRight => Some(
            if mods.shift {
                Shortcut::CycleTab { next: true }
            } else if mods.ctrl {
                Shortcut::Resize { axis: Axis::Horizontal, grow: true }
            } else {
                Shortcut::FocusPane(Direction::Right)
            },
        ),
        NamedKey::ArrowLeft => Some(
            if mods.shift {
                Shortcut::CycleTab { next: false }
            } else if mods.ctrl {
                Shortcut::Resize { axis: Axis::Horizontal, grow: false }
            } else {
                Shortcut::FocusPane(Direction::Left)
            },
        ),
        NamedKey::ArrowDown => Some(
            if mods.ctrl {
                Shortcut::Resize { axis: Axis::Vertical, grow: true }
            } else {
                Shortcut::FocusPane(Direction::Down)
            },
        ),
        NamedKey::ArrowUp => Some(
            if mods.ctrl {
                Shortcut::Resize { axis: Axis::Vertical, grow: false }
            } else {
                Shortcut::FocusPane(Direction::Up)
            },
        ),
        _ => None,
    }
}

/// The shortcut of a key.
pub open spec fn shortcut_of(key: KeyView, mods: Mods) -> Option<Shortcut> {
    match key {
        KeyView::Character(s) => match sign_shortcut(s, mods) {
            Some(c) => Some(c),
            None => digit_shortcut(s),
        },
        KeyView::Named(n) => arrow_shortcut(n, mods),
        KeyView::Other => None,
    }
}

fn find_sign(s: &str, mods: Mods) -> (r: Option<Shortcut>)
    ensures
        r == sign_shortcut(s@, mods),
{
    let low_text = to_ascii_lower(s);
    let low = low_text.as_str();
    if same(s, "/") || same(s, "?") {
        Some(Shortcut::ToggleHelp)
    } else if same(low, "p") && mods.shift {
        Some(Shortcut::OpenPalette)
    } else if same(s, "f") && !mods.shift && !mods.alt {
        Some(Shortcut::OpenSearch)
    } else if same(s, ",") {
        Some(Shortcut::ToggleSettings)
    } else if same(s, "[") {
        Some(Shortcut::JumpPrompt { back: true })
    } else if same(s, "]") {
        Some(Shortcut::JumpPrompt { back: false })
    } else if same(low, "c") {
        Some(Shortcut::Copy)
    } else if same(low, "v") {
        Some(Shortcut::Paste)
    } else if same(low, "d") {
        Some(
            Shortcut::Split(
                if mods.shift {
                    Axis::Vertical
                } else {
                    Axis::Horizontal
                },
            ),
        )
    } else if same(low, "w") {
        Some(Shortcut::ClosePane)
    } else if same(low, "t") {
        Some(Shortcut::NewTab)
    } else {
        None
    }
}

fn digits_only(chars: &[char]) -> (r: bool)
    ensures
        r == all_digits(chars@),
{
    let mut i: usize = 0;
    while i < chars.len()
        invariant
            i <= chars@.len(),
            forall|j: int| 0 <= j < i ==> is_digit(#[trigger] chars@[j]),
        decreases chars@.len() - i,
    {
        if !(chars[i] >= '0' && chars[i] <= '9') {
            assert(!is_digit(chars@[i as int]));
            return false;
        }
        i += 1;
    }
    true
}

fn find_digit(s: &str) -> (r: Option<Shortcut>)
    ensures
        r == digit_shortcut(s@),
{
    if same(s, "0") {
        return Some(Shortcut::ResetZoom);
    }
    if same(s, "=") || same(s, "+") {
        return Some(Shortcut::Zoom { closer: true });
    }
    if same(s, "-") || same(s, "_") {
        return Some(Shortcut::Zoom { closer: false });
    }
    let chars = to_chars(s);
    if chars.len() == 0 {
        return None;
    }
    if !digits_only(chars.as_slice()) {
        return None;
    }
    assert(is_digit(chars@[0]));
    let d: u8 = chars[0] as u8 - 48;
    Some(Shortcut::SelectTab(d as usize))
}

fn find_arrow(key: NamedKey, mods: Mods) -> (r: Option<Shortcut>)
    ensures
        r == arrow_shortcut(key, mods),
{
    match key {
        NamedKey::ArrowRight => Some(
            if mods.shift {
                Shortcut::CycleTab { next: true }
            } else if mods.ctrl {
                Shortcut::Resize { axis: Axis::Horizontal, grow: true }
            } else {
                Shortcut::FocusPane(Direction::Right)
            },
        ),
        NamedKey::ArrowLeft => Some(
            if mods.shift {
                Shortcut::CycleTab { next: false }
            } else if mods.ctrl {
                Shortcut::Resize { axis: Axis::Horizontal, grow: false }
            } else {
                Shortcut::FocusPane(Direction::Left)
            },
        ),
        NamedKey::ArrowDown => Some(
            if mods.ctrl {
                Shortcut::Resize { axis: Axis::Vertical, grow: true }
            } else {
                Shortcut::FocusPane(Direction::Down)
            },
        ),
        NamedKey::ArrowUp => Some(
            if mods.ctrl {
                Shortcut::Resize { axis: Axis::Vertical, grow: false }
            } else {
                Shortcut::FocusPane(Direction::Up)
            },
        ),
        _ => None,
    }
}

/// What a key does as a shortcut; nothing where it is none.
pub fn handle_shortcut(key: &Key, mods: Mods) -> (r: Option<Shortcut>)
    ensures
        r == shortcut_of(key@, mods),
{
    match key {
        Key::Character(s) => match find_sign(s.as_str(), mods) {
            Some(c) => Some(c),
            None => find_digit(s.as_str()),
        },
        Key::Named(n) => find_arrow(*n, mods),
        Key::Other => None,
    }
}

// ---- where a key goes ------------------------------------------------------

/// What a key does.
#[derive(Clone, Copy, Debug, PartialEq, Eq, Structural)]
pub enum KeyAction {
    /// The key is used up.
    Swallow,
    CancelDrag,
    /// The key goes to the palette, the search bar, the settings, or the title of a tab.
    ToPalette,
    ToSearch,
    ToSettings,
    ToRename,
    /// The question before closing is refused, answered as its focus says, or its focus moves.
    Refuse,
    Answer,
    MoveConfirmFocus,
    Quit,
    MoveTabToNewWindow,
    NewWindow,
    PromotePane,
    Shortcut(Shortcut),
    Scroll(ScrollAmount),
    /// Shows a tab, counted from 1.
    SelectTab(usize),
    /// The key goes to the shell, with an escape for Alt where `meta` is set.
    ToShell { meta: bool },
}

/// What is going on when a key comes.
#[derive(Clone, Copy, Debug, PartialEq, Eq, Structural)]
pub struct KeyScene {
    pub repeat: bool,
    /// A surface is dragged.
    pub dragging: bool,
    /// The title of a tab is being edited.
    pub renaming: bool,
    pub option_as_meta: bool,
    /// The chords of Linux desktops count.
    pub linux: bool,
}

/// A key's way: whether the cheat sheet and the about box close, and what the key does.
#[derive(Clone, Copy, Debug, PartialEq, Eq, Structural)]
pub struct KeyRoute {
    pub dismiss: bool,
    pub action: KeyAction,
}

/// The key is that letter, whatever its case.
pub open spec fn is_letter(key: KeyView, letter: Seq<char>) -> bool {
    key matches KeyView::Character(s) && ascii_lower(s) == letter
}

fn letter_is(key: &Key, letter: &str) -> (r: bool)
    ensures
        r == is_letter(key@, letter@),
{
    match key {
        Key::Character(s) => {
            let low = to_ascii_lower(s.as_str());
            same(low.as_str(), letter)
        },
        _ => false,
    }
}

/// What catches a key before anything else: a drag, an overlay that takes keys, the title of a
/// tab, the question before closing. Command chords pass overlays that take text.
pub open spec fn captured(v: OverlaysView, key: KeyView, mods: Mods, scene: KeyScene) -> Option<KeyAction> {
    if scene.dragging {
        Some(
            if !scene.repeat && key == KeyView::Named(NamedKey::Escape) {
                KeyAction::CancelDrag
            } else {
                KeyAction::Swallow
            },
        )
    } else if v.palette_open && !mods.sup {
        Some(KeyAction::ToPalette)
    } else if v.search_open && !mods.sup {
        Some(KeyAction::ToSearch)
    } else if v.settings_open {
        Some(KeyAction::ToSettings)
    } else if scene.renaming && !mods.sup {
        Some(KeyAction::ToRename)
    } else if v.pending_close is Some {
        Some(
            if scene.repeat {
                KeyAction::Swallow
            } else {
                match key {
                    KeyView::Named(NamedKey::Escape) => KeyAction::Refuse,
                    KeyView::Named(NamedKey::Enter) => KeyAction::Answer,
                    KeyView::Named(NamedKey::ArrowLeft) => KeyAction::MoveConfirmFocus,
                    KeyView::Named(NamedKey::ArrowRight) => KeyAction::MoveConfirmFocus,
                    KeyView::Named(NamedKey::Tab) => KeyAction::MoveConfirmFocus,
                    _ => KeyAction::Swallow,
                }
            },
        )
    } else {
        None
    }
}

/// What a key does with Command held.
pub open spec fn command_action(key: KeyView, mods: Mods) -> KeyAction {
    if is_letter(key, "n"@) {
        if mods.shift {
            KeyAction::MoveTabToNewWindow
        } else {
            KeyAction::NewWindow
        }
    } else if is_letter(key, "t"@) && mods.alt {
        KeyAction::PromotePane
    } else {
        match shortcut_of(key, mods) {
            Some(c) => KeyAction::Shortcut(c),
            None => KeyAction::Swallow,
        }
    }
}

/// How far a key with Shift scrolls back.
pub open spec fn scroll_of(key: KeyView, mods: Mods) -> Option<ScrollAmount> {
    if !mods.shift {
        None
    } else {
        match key {
            KeyView::Named(NamedKey::PageUp) => Some(ScrollAmount::PageUp),
            KeyView::Named(NamedKey::PageDown) => Some(ScrollAmount::PageDown),
            KeyView::Named(NamedKey::Home) => Some(ScrollAmount::Top),
            KeyView::Named(NamedKey::End) => Some(ScrollAmount::Bottom),
            _ => None,
        }
    }
}

/// What a key does that nothing has caught and that is no command.
pub open spec fn plain_action(key: KeyView, mods: Mods, scene: KeyScene) -> KeyAction {
    match scroll_of(key, mods) {
        Some(a) => KeyAction::Scroll(a),
        None => if scene.linux && digit_tab(key, mods) is Some {
            KeyAction::SelectTab(digit_tab(key, mods)->0)
        } else if scene.linux && linux_chord(key, mods) is Some {
            let (k, m) = linux_chord(key, mods)->0;
            command_action(k, m)
        } else {
            KeyAction::ToShell { meta: mods.alt && scene.option_as_meta }
        },
    }
}

/// A key's way. While the cheat sheet or the about box is open, a fresh key closes it; Escape,
/// Enter and command chords are then used up, any other key goes on.
pub open spec fn key_route(v: OverlaysView, key: KeyView, mods: Mods, scene: KeyScene) -> KeyRoute {
    match captured(v, key, mods, scene) {
        Some(action) => KeyRoute { dismiss: false, action },
        None => if mods.sup && is_letter(key, "q"@) {
            KeyRoute { dismiss: false, action: KeyAction::Quit }
        } else if (v.help || v.about) && scene.repeat {
            KeyRoute { dismiss: false, action: KeyAction::Swallow }
        } else if (v.help || v.about) && (mods.sup || key == KeyView::Named(NamedKey::Escape) || key
            == KeyView::Named(NamedKey::Enter)) {
            KeyRoute { dismiss: true, action: KeyAction::Swallow }
        } else {
            KeyRoute {
                dismiss: v.help || v.about,
                action: if mods.sup {
                    command_action(key, mods)
                } else {
                    plain_action(key, mods, scene)
                },
            }
        },
    }
}

fn is_named(key: &Key, name: NamedKey) -> (r: bool)
    ensures
        r == (key@ == KeyView::Named(name)),
{
    match key {
        Key::Named(n) => *n == name,
        _ => false,
    }
}

fn capture(ov: &Overlays, key: &Key, mods: Mods, scene: &KeyScene) -> (r: Option<KeyAction>)
    ensures
        r == captured(ov@, key@, mods, *scene),
{
    if scene.dragging {
        return Some(
            if !scene.repeat && is_named(key, NamedKey::Escape) {
                KeyAction::CancelDrag
            } else {
                KeyAction::Swallow
            },
        );
    }
    if ov.palette_open && !mods.sup {
        return Some(KeyAction::ToPalette);
    }
    if ov.search_open && !mods.sup {
        return Some(KeyAction::ToSearch);
    }
    if ov.settings_open {
        return Some(KeyAction::ToSettings);
    }
    if scene.renaming && !mods.sup {
        return Some(KeyAction::ToRename);
    }
    if ov.pending_close.is_some() {
        if scene.repeat {
            return Some(KeyAction::Swallow);
        }
        return Some(
            match key {
                Key::Named(NamedKey::Escape) => KeyAction::Refuse,
                Key::Named(NamedKey::Enter) => KeyAction::Answer,
                Key::Named(NamedKey::ArrowLeft) => KeyAction::MoveConfirmFocus,
                Key::Named(NamedKey::ArrowRight) => KeyAction::MoveConfirmFocus,
                Key::Named(NamedKey::Tab) => KeyAction::MoveConfirmFocus,
                _ => KeyAction::Swallow,
            },
        );
    }
    None
}

/// What a key does with Command held.
pub fn command_key(key: &Key, mods: Mods) -> (r: KeyAction)
    ensures
        r == command_action(key@, mods),
{
    if letter_is(key, "n") {
        if mods.shift {
            return KeyAction::MoveTabToNewWindow;
        }
        return KeyAction::NewWindow;
    }
    if mods.alt && letter_is(key, "t") {
        return KeyAction::PromotePane;
    }
    match handle_shortcut(key, mods) {
        Some(c) => KeyAction::Shortcut(c),
        None => KeyAction::Swallow,
    }
}

fn plain_key(key: &Key, mods: Mods, scene: &KeyScene) -> (r: KeyAction)
    ensures
        r == plain_action(key@, mods, *scene),
{
    if mods.shift {
        match key {
            Key::Named(NamedKey::PageUp) => return KeyAction::Scroll(ScrollAmount::PageUp),
            Key::Named(NamedKey::PageDown) => return KeyAction::Scroll(ScrollAmount::PageDown),
            Key::Named(NamedKey::Home) => return KeyAction::Scroll(ScrollAmount::Top),
            Key::Named(NamedKey::End) => return KeyAction::Scroll(ScrollAmount::Bottom),
            _ => {},
        }
    }
    if scene.linux {
        if let Some(n) = alt_digit_tab(key, mods) {
            return KeyAction::SelectTab(n);
        }
        if let Some((k, m)) = linux_chord_translate(key, mods) {
            return command_key(&k, m);
        }
    }
    KeyAction::ToShell { meta: mods.alt && scene.option_as_meta }
}

/// Where a key that was pressed goes.
pub fn route_key(ov: &Overlays, key: &Key, mods: Mods, scene: &KeyScene) -> (r: KeyRoute)
    ensures
        r == key_route(ov@, key@, mods, *scene),
{
    if let Some(action) = capture(ov, key, mods, scene) {
        return KeyRoute { dismiss: false, action };
    }
    if mods.sup && letter_is(key, "q") {
        return KeyRoute { dismiss: false, action: KeyAction::Quit };
    }
    let shown = ov.help || ov.about;
    if shown {
        if scene.repeat {
            return KeyRoute { dismiss: false, action: KeyAction::Swallow };
        }
        if mods.sup || is_named(key, NamedKey::Escape) || is_named(key, NamedKey::Enter) {
            return KeyRoute { dismiss: true, action: KeyAction::Swallow };
        }
    }
    let action = if mods.sup {
        command_key(key, mods)
    } else {
        plain_key(key, mods, scene)
    };
    KeyRoute { dismiss: shown, action }
}

/// While a surface is dragged no key reaches a shell or a shortcut.
pub proof fn law_drags_capture_keys(v: OverlaysView, key: KeyView, mods: Mods, scene: KeyScene)
    requires
        scene.dragging,
    ensures
        ({
            let r = key_route(v, key, mods, scene);
            &&& !r.dismiss
            &&& r.action == KeyAction::CancelDrag || r.action == KeyAction::Swallow
        }),
{
}

/// A held-down key never answers the question before closing.
pub proof fn law_repeats_confirm_nothing(v: OverlaysView, key: KeyView, mods: Mods, scene: KeyScene)
    requires
        scene.repeat,
    ensures
        key_route(v, key, mods, scene).action != KeyAction::Answer,
        key_route(v, key, mods, scene).action != KeyAction::Refuse,
        !key_route(v, key, mods, scene).dismiss,
{
}

/// A key with Command held never reaches the shell, and text typed while an overlay takes text
/// goes there and nowhere else.
pub proof fn law_keys_have_one_place_to_go(v: OverlaysView, key: KeyView, mods: Mods, scene: KeyScene)
    requires
        v.exclusive(),
        !scene.dragging,
    ensures
        mods.sup ==> !(key_route(v, key, mods, scene).action is ToShell),
        !mods.sup && v.palette_open ==> key_route(v, key, mods, scene).action
            == KeyAction::ToPalette,
        !mods.sup && v.search_open ==> key_route(v, key, mods, scene).action == KeyAction::ToSearch,
        v.settings_open && !v.palette_open && !v.search_open ==> key_route(v, key, mods, scene).action
            == KeyAction::ToSettings,
{
}

// ---- what the shortcuts are ------------------------------------------------

/// A text of one character that is that letter, large or small.
pub open spec fn types_letter(s: Seq<char>, c: char) -> bool {
    s.len() == 1 && (s[0] == c || s[0] as int == c as int - 32)
}

proof fn lemma_one_letter(s: Seq<char>)
    requires
        s.len() == 1,
        'a' <= s[0] <= 'z' || 'A' <= s[0] <= 'Z',
    ensures
        ascii_lower(s).len() == 1,
        'a' <= s[0] <= 'z' ==> ascii_lower(s)[0] == s[0],
        'A' <= s[0] <= 'Z' ==> ascii_lower(s)[0] as int == s[0] as int + 32,
        sign_literals(),
{
    lemma_sign_literals();
}

/// What the keys of the table are, character by character.
spec fn sign_literals() -> bool {
    &&& "/"@ == seq!['/'] && "?"@ == seq!['?'] && ","@ == seq![',']
    &&& "["@ == seq!['['] && "]"@ == seq![']'] && "0"@ == seq!['0']
    &&& "="@ == seq!['='] && "+"@ == seq!['+'] && "-"@ == seq!['-'] && "_"@ == seq!['_']
    &&& "p"@ == seq!['p'] && "f"@ == seq!['f'] && "c"@ == seq!['c'] && "v"@ == seq!['v']
    &&& "d"@ == seq!['d'] && "w"@ == seq!['w'] && "t"@ == seq!['t'] && "n"@ == seq!['n']
    &&& "q"@ == seq!['q']
}

proof fn lemma_sign_literals()
    ensures
        sign_literals(),
{
    reveal_strlit("/");
    reveal_strlit("?");
    reveal_strlit(",");
    reveal_strlit("[");
    reveal_strlit("]");
    reveal_strlit("0");
    reveal_strlit("=");
    reveal_strlit("+");
    reveal_strlit("-");
    reveal_strlit("_");
    reveal_strlit("p");
    reveal_strlit("f");
    reveal_strlit("c");
    reveal_strlit("v");
    reveal_strlit("d");
    reveal_strlit("w");
    reveal_strlit("t");
    reveal_strlit("n");
    reveal_strlit("q");
    assert("/"@ =~= seq!['/']);
    assert("?"@ =~= seq!['?']);
    assert(","@ =~= seq![',']);
    assert("["@ =~= seq!['[']);
    assert("]"@ =~= seq![']']);
    assert("0"@ =~= seq!['0']);
    assert("="@ =~= seq!['=']);
    assert("+"@ =~= seq!['+']);
    assert("-"@ =~= seq!['-']);
    assert("_"@ =~= seq!['_']);
    assert("p"@ =~= seq!['p']);
    assert("f"@ =~= seq!['f']);
    assert("c"@ =~= seq!['c']);
    assert("v"@ =~= seq!['v']);
    assert("d"@ =~= seq!['d']);
    assert("w"@ =~= seq!['w']);
    assert("t"@ =~= seq!['t']);
    assert("n"@ =~= seq!['n']);
    assert("q"@ =~= seq!['q']);
}

/// The letters of the cheat sheet: C copies, V pastes, W closes the pane, T opens a tab, D splits
/// side by side and with Shift stacked, P with Shift opens the palette, F without Shift and Alt
/// the search bar. Case makes no difference but to F.
pub proof fn law_letters_run_their_commands(s: Seq<char>, mods: Mods)
    ensures
        types_letter(s, 'c') ==> shortcut_of(KeyView::Character(s), mods) == Some(Shortcut::Copy),
        types_letter(s, 'v') ==> shortcut_of(KeyView::Character(s), mods) == Some(Shortcut::Paste),
        types_letter(s, 'w') ==> shortcut_of(KeyView::Character(s), mods) == Some(
            Shortcut::ClosePane,
        ),
        types_letter(s, 't') ==> shortcut_of(KeyView::Character(s), mods) == Some(Shortcut::NewTab),
        types_letter(s, 'd') && !mods.shift ==> shortcut_of(KeyView::Character(s), mods) == Some(
            Shortcut::Split(Axis::Horizontal),
        ),
        types_letter(s, 'd') && mods.shift ==> shortcut_of(KeyView::Character(s), mods) == Some(
            Shortcut::Split(Axis::Vertical),
        ),
        types_letter(s, 'p') ==> shortcut_of(KeyView::Character(s), mods) == (if mods.shift {
            Some(Shortcut::OpenPalette)
        } else {
            None
        }),
        s.len() == 1 && s[0] == 'f' ==> shortcut_of(KeyView::Character(s), mods) == (if !mods.shift
            && !mods.alt {
            Some(Shortcut::OpenSearch)
        } else {
            None
        }),
        s.len() == 1 && ('a' <= s[0] <= 'z' || 'A' <= s[0] <= 'Z') && shortcut_of(
            KeyView::Character(s),
            mods,
        ) is Some ==> types_letter(s, 'c') || types_letter(s, 'v') || types_letter(s, 'w')
            || types_letter(s, 't') || types_letter(s, 'd') || types_letter(s, 'p') || s[0] == 'f',
{
    if s.len() == 1 && ('a' <= s[0] <= 'z' || 'A' <= s[0] <= 'Z') {
        lemma_one_letter(s);
        let low = ascii_lower(s);
        assert(low =~= seq![low[0]]);
        assert(s =~= seq![s[0]]);
        assert(!is_digit(s[0]));
    }
}

/// The signs of the cheat sheet: slash and question mark show it, the comma opens the settings, the
/// brackets jump to the prompt before and after, zero resets the zoom, equals and plus zoom in,
/// minus and underscore out, and the digits from 1 on show their tab.
pub proof fn law_signs_run_their_commands(c: char, mods: Mods)
    ensures
        ({
            let run = shortcut_of(KeyView::Character(seq![c]), mods);
            &&& c == '/' || c == '?' ==> run == Some(Shortcut::ToggleHelp)
            &&& c == ',' ==> run == Some(Shortcut::ToggleSettings)
            &&& c == '[' ==> run == Some(Shortcut::JumpPrompt { back: true })
            &&& c == ']' ==> run == Some(Shortcut::JumpPrompt { back: false })
            &&& c == '0' ==> run == Some(Shortcut::ResetZoom)
            &&& c == '=' || c == '+' ==> run == Some(Shortcut::Zoom { closer: true })
            &&& c == '-' || c == '_' ==> run == Some(Shortcut::Zoom { closer: false })
            &&& '1' <= c <= '9' ==> run == Some(Shortcut::SelectTab((c as int - 48) as usize))
        }),
{
    lemma_sign_literals();
    let s = seq![c];
    assert(s[0] == c);
    assert(ascii_lower(s).len() == 1);
    assert(ascii_lower(s)[0] == crate::text::ascii_lower_char(c));
    assert('1' <= c <= '9' ==> all_digits(s));
}

/// The arrows: with Shift, right and left go to the next tab and the one before; with Control they
/// make the focused pane wider and narrower, and down and up higher and lower; otherwise they move
/// the focus their way.
pub proof fn law_arrows_run_their_commands(mods: Mods)
    ensures
        ({
            let run = |k: NamedKey| shortcut_of(KeyView::Named(k), mods);
            &&& mods.shift ==> run(NamedKey::ArrowRight) == Some(Shortcut::CycleTab { next: true })
                && run(NamedKey::ArrowLeft) == Some(Shortcut::CycleTab { next: false })
            &&& !mods.shift && mods.ctrl ==> run(NamedKey::ArrowRight) == Some(
                Shortcut::Resize { axis: Axis::Horizontal, grow: true },
            ) && run(NamedKey::ArrowLeft) == Some(
                Shortcut::Resize { axis: Axis::Horizontal, grow: false },
            )
            &&& !mods.shift && !mods.ctrl ==> run(NamedKey::ArrowRight) == Some(
                Shortcut::FocusPane(Direction::Right),
            ) && run(NamedKey::ArrowLeft) == Some(Shortcut::FocusPane(Direction::Left))
            &&& mods.ctrl ==> run(NamedKey::ArrowDown) == Some(
                Shortcut::Resize { axis: Axis::Vertical, grow: true },
            ) && run(NamedKey::ArrowUp) == Some(
                Shortcut::Resize { axis: Axis::Vertical, grow: false },
            )
            &&& !mods.ctrl ==> run(NamedKey::ArrowDown) == Some(
                Shortcut::FocusPane(Direction::Down),
            ) && run(NamedKey::ArrowUp) == Some(Shortcut::FocusPane(Direction::Up))
        }),
{
}

/// With Command held and nothing in the way, N opens a window and with Shift moves the tab to one
/// of its own, T with Option makes a tab of the pane, Q quits, and every other key runs its
/// shortcut or nothing.
pub proof fn law_command_keys(v: OverlaysView, key: KeyView, mods: Mods, scene: KeyScene)
    requires
        mods.sup,
        !scene.dragging && !v.settings_open && v.pending_close is None && !v.help && !v.about,
    ensures
        ({
            let done = key_route(v, key, mods, scene);
            &&& !done.dismiss
            &&& match key {
                KeyView::Character(s) => {
                    &&& types_letter(s, 'n') && !mods.shift ==> done.action == KeyAction::NewWindow
                    &&& types_letter(s, 'n') && mods.shift ==> done.action
                        == KeyAction::MoveTabToNewWindow
                    &&& types_letter(s, 't') && mods.alt ==> done.action == KeyAction::PromotePane
                    &&& types_letter(s, 'q') ==> done.action == KeyAction::Quit
                    &&& s.len() == 1 && !types_letter(s, 'n') && !types_letter(s, 'q') && !(
                    types_letter(s, 't') && mods.alt) ==> done.action == (match shortcut_of(
                        key,
                        mods,
                    ) {
                        Some(c) => KeyAction::Shortcut(c),
                        None => KeyAction::Swallow,
                    })
                },
                KeyView::Named(_) => done.action == (match shortcut_of(key, mods) {
                    Some(c) => KeyAction::Shortcut(c),
                    None => KeyAction::Swallow,
                }),
                KeyView::Other => done.action == KeyAction::Swallow,
            }
        }),
{
    lemma_sign_literals();
    if let KeyView::Character(s) = key {
        let low = ascii_lower(s);
        if s.len() == 1 {
            assert(low[0] == crate::text::ascii_lower_char(s[0]));
            assert(low =~= seq![low[0]]);
            assert(s =~= seq![s[0]]);
        }
    }
}

/// The question before closing: Escape refuses, Enter answers, Tab and the arrows to the sides move
/// its focus, and every other key is used up; a key that is held down does nothing.
pub proof fn law_question_keys(v: OverlaysView, key: KeyView, mods: Mods, scene: KeyScene)
    requires
        v.pending_close is Some,
        !scene.dragging && !scene.renaming,
        !v.palette_open && !v.search_open && !v.settings_open,
    ensures
        ({
            let done = key_route(v, key, mods, scene);
            &&& !done.dismiss
            &&& scene.repeat ==> done.action == KeyAction::Swallow
            &&& !scene.repeat ==> ({
                &&& done.action == KeyAction::Refuse <==> key == KeyView::Named(NamedKey::Escape)
                &&& done.action == KeyAction::Answer <==> key == KeyView::Named(NamedKey::Enter)
                &&& done.action == KeyAction::MoveConfirmFocus <==> (key == KeyView::Named(
                    NamedKey::Tab,
                ) || key == KeyView::Named(NamedKey::ArrowLeft) || key == KeyView::Named(
                    NamedKey::ArrowRight,
                ))
                &&& done.action == KeyAction::Refuse || done.action == KeyAction::Answer
                    || done.action == KeyAction::MoveConfirmFocus || done.action
                    == KeyAction::Swallow
            })
        }),
{
}

/// A drag is given up by Escape and by no other key; the title that is edited gets every key
/// without Command.
pub proof fn law_escape_alone_cancels_a_drag(v: OverlaysView, key: KeyView, mods: Mods, scene: KeyScene)
    ensures
        key_route(v, key, mods, scene).action == KeyAction::CancelDrag <==> scene.dragging
            && !scene.repeat && key == KeyView::Named(NamedKey::Escape),
        !scene.dragging && scene.renaming && !mods.sup && !v.palette_open && !v.search_open
            && !v.settings_open ==> key_route(v, key, mods, scene).action == KeyAction::ToRename,
{
}

/// The cheat sheet and the about box: a fresh key closes them, and Escape, Enter and commands do
/// nothing more. Command with Q quits even then.
pub proof fn law_keys_close_the_sheet(v: OverlaysView, key: KeyView, mods: Mods, scene: KeyScene)
    requires
        v.help || v.about,
        captured(v, key, mods, scene) is None,
        !(mods.sup && is_letter(key, "q"@)),
    ensures
        key_route(v, key, mods, scene).dismiss == !scene.repeat,
        scene.repeat || mods.sup || key == KeyView::Named(NamedKey::Escape) || key
            == KeyView::Named(NamedKey::Enter) ==> key_route(v, key, mods, scene).action
            == KeyAction::Swallow,
{
}

/// Without Command and with nothing in the way: Shift with the page keys scrolls by a page their
/// way, with Home and End to the ends; on Linux Alt with a digit shows a tab and a chord that
/// stands for Command runs that command; everything else goes to the shell, with an escape for
/// Alt where it is Meta.
pub proof fn law_plain_keys(v: OverlaysView, key: KeyView, mods: Mods, scene: KeyScene)
    requires
        !mods.sup,
        !scene.dragging && !scene.renaming && v.pending_close is None,
        !v.palette_open && !v.search_open && !v.settings_open && !v.help && !v.about,
    ensures
        ({
            let done = key_route(v, key, mods, scene).action;
            let scrolls = mods.shift && (key == KeyView::Named(NamedKey::PageUp) || key
                == KeyView::Named(NamedKey::PageDown) || key == KeyView::Named(NamedKey::Home) || key
                == KeyView::Named(NamedKey::End));
            &&& mods.shift && key == KeyView::Named(NamedKey::PageUp) ==> done == KeyAction::Scroll(
                ScrollAmount::PageUp,
            )
            &&& mods.shift && key == KeyView::Named(NamedKey::PageDown) ==> done
                == KeyAction::Scroll(ScrollAmount::PageDown)
            &&& mods.shift && key == KeyView::Named(NamedKey::Home) ==> done == KeyAction::Scroll(
                ScrollAmount::Top,
            )
            &&& mods.shift && key == KeyView::Named(NamedKey::End) ==> done == KeyAction::Scroll(
                ScrollAmount::Bottom,
            )
            &&& done is Scroll ==> scrolls
            &&& !scrolls && !scene.linux ==> done == (KeyAction::ToShell {
                meta: mods.alt && scene.option_as_meta,
            })
            &&& !scrolls && scene.linux ==> match digit_tab(key, mods) {
                Some(n) => done == KeyAction::SelectTab(n),
                None => match linux_chord(key, mods) {
                    Some(t) => done == key_route(v, t.0, Mods { sup: true, ..t.1 }, scene).action,
                    None => done == (KeyAction::ToShell { meta: mods.alt && scene.option_as_meta }),
                },
            }
        }),
{
    lemma_sign_literals();
    crate::keys::lemma_q_is_no_chord(key, mods);
    if let Some(t) = linux_chord(key, mods) {
        if let KeyView::Character(k) = t.0 {
            assert(ascii_lower(k)[0] == crate::text::ascii_lower_char(k[0]));
        }
        assert(shortcut_of(t.0, Mods { sup: true, ..t.1 }) == shortcut_of(t.0, t.1));
    }
}

/// On Linux, Control and Shift with a letter do what Command does with it, and Alt and Shift what
/// Command and Shift do; with T they make a tab of the pane.
pub proof fn law_linux_letters_run_commands(v: OverlaysView, s: Seq<char>, c: char, mods: Mods, scene: KeyScene)
    requires
        s == seq![c] || s == seq![(c as int - 32) as char],
        mods.shift && !mods.sup && scene.linux,
        !scene.dragging && !scene.renaming && v.pending_close is None,
        !v.palette_open && !v.search_open && !v.settings_open && !v.help && !v.about,
    ensures
        ({
            let done = key_route(v, KeyView::Character(s), mods, scene).action;
            &&& mods.ctrl && !mods.alt ==> ({
                &&& c == 'c' ==> done == KeyAction::Shortcut(Shortcut::Copy)
                &&& c == 'v' ==> done == KeyAction::Shortcut(Shortcut::Paste)
                &&& c == 'w' ==> done == KeyAction::Shortcut(Shortcut::ClosePane)
                &&& c == 't' ==> done == KeyAction::Shortcut(Shortcut::NewTab)
                &&& c == 'n' ==> done == KeyAction::NewWindow
                &&& c == 'd' ==> done == KeyAction::Shortcut(Shortcut::Split(Axis::Horizontal))
            })
            &&& mods.alt && !mods.ctrl ==> ({
                &&& c == 'd' ==> done == KeyAction::Shortcut(Shortcut::Split(Axis::Vertical))
                &&& c == 'p' ==> done == KeyAction::Shortcut(Shortcut::OpenPalette)
                &&& c == 'n' ==> done == KeyAction::MoveTabToNewWindow
                &&& c == 't' ==> done == KeyAction::PromotePane
            })
        }),
{
    if c == 'c' || c == 'v' || c == 't' || c == 'n' || c == 'w' || c == 'd' || c == 'p' {
        crate::keys::law_linux_letters_are_commands(s, c, mods);
        lemma_sign_literals();
        let k = seq![c];
        let none = Mods { shift: false, alt: false, ctrl: false, sup: false };
        lemma_one_letter(k);
        assert(k[0] == c);
        assert(ascii_lower(k) =~= seq![c]);
        law_letters_run_their_commands(k, none);
        law_letters_run_their_commands(k, Mods { shift: true, ..none });
        law_letters_run_their_commands(k, Mods { alt: true, ..none });
        assert(s.len() == 1);
        assert(digit_tab(KeyView::Character(s), mods) is None);
    }
}

} // verus!
