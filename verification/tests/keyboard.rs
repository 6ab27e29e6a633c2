use ember_term::control::ScrollAmount;
use ember_term::keyboard::{handle_shortcut, route_key, Direction, KeyAction, KeyScene, Shortcut};
use ember_term::keys::{
    alt_digit_tab, bracket_paste, encode_key, help_lines, linux_chord_translate, named_key,
    parse_chord, paste_bytes, parse_mods_only, Key, Mods, NamedKey,
};
use ember_term::layout::Axis;
use ember_term::overlay::{Overlays, PendingClose};

const NONE: Mods = Mods { shift: false, alt: false, ctrl: false, sup: false };
const SHIFT: Mods = Mods { shift: true, alt: false, ctrl: false, sup: false };
const ALT: Mods = Mods { shift: false, alt: true, ctrl: false, sup: false };
const CONTROL: Mods = Mods { shift: false, alt: false, ctrl: true, sup: false };
const SUPER: Mods = Mods { shift: false, alt: false, ctrl: false, sup: true };

fn ch(c: &str) -> Key {
    Key::Character(c.to_string())
}

fn enc(key: Key, mods: Mods) -> Option<Vec<u8>> {
    encode_key(&key, mods, false, false)
}

#[test]
fn named_editing_and_function_keys_encode() {
    let n = NONE;
    assert_eq!(enc(Key::Named(NamedKey::Home), n).unwrap(), b"\x1b[H");
    assert_eq!(enc(Key::Named(NamedKey::End), n).unwrap(), b"\x1b[F");
    assert_eq!(enc(Key::Named(NamedKey::PageUp), n).unwrap(), b"\x1b[5~");
    assert_eq!(enc(Key::Named(NamedKey::PageDown), n).unwrap(), b"\x1b[6~");
    assert_eq!(enc(Key::Named(NamedKey::Delete), n).unwrap(), b"\x1b[3~");
    assert_eq!(enc(Key::Named(NamedKey::Insert), n).unwrap(), b"\x1b[2~");
    assert_eq!(enc(Key::Named(NamedKey::F1), n).unwrap(), b"\x1bOP");
    assert_eq!(enc(Key::Named(NamedKey::F5), n).unwrap(), b"\x1b[15~");
    assert_eq!(enc(Key::Named(NamedKey::F12), n).unwrap(), b"\x1b[24~");
}

#[test]
fn arrows_follow_decckm_and_modifiers() {
    let n = NONE;
    let up = Key::Named(NamedKey::ArrowUp);
    let right = Key::Named(NamedKey::ArrowRight);
    assert_eq!(encode_key(&up, n, false, false).unwrap(), b"\x1b[A");
    assert_eq!(encode_key(&up, n, true, false).unwrap(), b"\x1bOA");
    assert_eq!(encode_key(&right, CONTROL, true, false).unwrap(), b"\x1b[1;5C");
    assert_eq!(
        enc(Key::Named(NamedKey::ArrowDown), Mods { shift: true, alt: true, ctrl: false, sup: false })
            .unwrap(),
        b"\x1b[1;4B"
    );
}

#[test]
fn control_specials_encode() {
    let c = CONTROL;
    assert_eq!(enc(Key::Named(NamedKey::Space), c).unwrap(), vec![0x00]);
    assert_eq!(enc(ch("["), c).unwrap(), vec![0x1b]);
    assert_eq!(enc(ch("]"), c).unwrap(), vec![0x1d]);
    assert_eq!(enc(ch("_"), c).unwrap(), vec![0x1f]);
    assert_eq!(enc(ch("?"), c).unwrap(), vec![0x7f]);
    assert_eq!(enc(ch("c"), c).unwrap(), vec![0x03]);
}

#[test]
fn shift_tab_is_backtab() {
    assert_eq!(enc(Key::Named(NamedKey::Tab), SHIFT).unwrap(), b"\x1b[Z");
}

#[test]
fn option_as_meta_prefixes_esc() {
    assert_eq!(encode_key(&ch("b"), ALT, false, true).unwrap(), b"\x1bb");
    assert_eq!(
        encode_key(&ch("\u{222b}"), ALT, false, false).unwrap(),
        "\u{222b}".as_bytes()
    );
}

#[test]
fn dead_keys_send_nothing() {
    assert_eq!(enc(Key::Other, NONE), None);
    assert_eq!(enc(ch(""), CONTROL), None);
}

#[test]
fn paste_unbracketed_is_raw() {
    assert_eq!(bracket_paste("ls -la\n", false), b"ls -la\n".to_vec());
}

#[test]
fn paste_bracketed_wraps() {
    assert_eq!(bracket_paste("hi", true), b"\x1b[200~hi\x1b[201~".to_vec());
}

#[test]
fn paste_bracketed_strips_embedded_end_marker() {
    let got = bracket_paste("a\x1b[201~rm -rf /\n", true);
    assert_eq!(got, b"\x1b[200~arm -rf /\n\x1b[201~".to_vec());
}

#[test]
fn paste_leaves_no_marker_that_removal_would_form() {
    let got = bracket_paste("\x1b[20\x1b[201~1~x", true);
    assert_eq!(got, b"\x1b[200~x\x1b[201~".to_vec());
}

#[test]
fn alt_digit_selects_tabs_one_through_nine_only() {
    assert_eq!(alt_digit_tab(&ch("1"), ALT), Some(1));
    assert_eq!(alt_digit_tab(&ch("9"), ALT), Some(9));
    assert_eq!(alt_digit_tab(&ch("0"), ALT), None);
    assert_eq!(alt_digit_tab(&ch("12"), ALT), None);
    assert_eq!(alt_digit_tab(&Key::Named(NamedKey::Enter), ALT), None);
    assert_eq!(alt_digit_tab(&ch("2"), NONE), None);
    assert_eq!(alt_digit_tab(&ch("2"), Mods { sup: true, ..ALT }), None);
    assert_eq!(alt_digit_tab(&ch("2"), Mods { ctrl: true, ..ALT }), None);
}

#[test]
fn linux_chords_translate_onto_the_mac_shortcut_table() {
    let tr = |k: &Key, m: Mods| linux_chord_translate(k, m);
    let cs = Mods { shift: true, alt: false, ctrl: true, sup: false };
    let als = Mods { shift: true, alt: true, ctrl: false, sup: false };
    let none = NONE;
    assert_eq!(tr(&ch("T"), cs), Some((ch("t"), none)));
    assert_eq!(tr(&ch("N"), cs), Some((ch("n"), none)), "new window");
    assert_eq!(tr(&ch("c"), cs), Some((ch("c"), none)));
    assert_eq!(tr(&ch("?"), cs), Some((ch("/"), none)));
    assert_eq!(tr(&ch("<"), cs), Some((ch(","), none)));
    assert_eq!(tr(&ch("{"), cs), Some((ch("["), none)));
    assert_eq!(tr(&ch("+"), cs), Some((ch("="), none)));
    assert_eq!(
        tr(&Key::Named(NamedKey::ArrowLeft), cs),
        Some((Key::Named(NamedKey::ArrowLeft), none))
    );
    assert_eq!(tr(&ch("D"), als), Some((ch("d"), SHIFT)));
    assert_eq!(tr(&ch("N"), als), Some((ch("n"), SHIFT)), "move tab to new window");
    assert_eq!(
        tr(&Key::Named(NamedKey::ArrowRight), als),
        Some((Key::Named(NamedKey::ArrowRight), SHIFT))
    );
    assert_eq!(tr(&ch("T"), als), Some((ch("t"), ALT)), "promote pane to tab");
    assert_eq!(tr(&ch("-"), CONTROL), Some((ch("-"), none)));
    assert_eq!(tr(&ch("0"), CONTROL), Some((ch("0"), none)));
    assert_eq!(tr(&ch("c"), CONTROL), None);
    assert_eq!(tr(&ch("r"), cs), None);
    assert_eq!(tr(&ch("t"), Mods { sup: true, ..cs }), None);
}

#[test]
fn chords_are_read_with_their_modifiers() {
    assert_eq!(parse_chord("cmd+shift+d"), Some((ch("d"), Mods { shift: true, ..SUPER })));
    assert_eq!(
        parse_chord(" ctrl + ArrowLeft "),
        Some((Key::Named(NamedKey::ArrowLeft), CONTROL))
    );
    assert_eq!(parse_chord(""), None);
    assert_eq!(parse_chord("hyper+d"), None);
    assert_eq!(parse_chord("cmd+nokey"), None);
    assert_eq!(named_key("Return"), Some(Key::Named(NamedKey::Enter)));
    assert_eq!(named_key("Nothing"), None);
}

#[test]
fn held_modifiers_ignore_unknown_names() {
    assert_eq!(
        parse_mods_only("Cmd+alt+bogus"),
        Mods { shift: false, alt: true, ctrl: false, sup: true }
    );
    assert_eq!(parse_mods_only(""), NONE);
}

#[test]
fn cheat_sheet_names_the_platform_keys() {
    let mac = help_lines(true);
    let linux = help_lines(false);
    assert_eq!(mac.len(), linux.len());
    assert_eq!(mac[0], ("".to_string(), "PANES".to_string()));
    assert_eq!(mac[1].0, "Cmd+D");
    assert_eq!(linux[1].0, "Ctrl+Shift+D");
}

#[test]
fn shortcuts_follow_the_table() {
    assert_eq!(handle_shortcut(&ch("/"), SUPER), Some(Shortcut::ToggleHelp));
    assert_eq!(
        handle_shortcut(&ch("P"), Mods { shift: true, ..SUPER }),
        Some(Shortcut::OpenPalette)
    );
    assert_eq!(handle_shortcut(&ch("p"), SUPER), None);
    assert_eq!(handle_shortcut(&ch("f"), SUPER), Some(Shortcut::OpenSearch));
    assert_eq!(handle_shortcut(&ch("f"), Mods { shift: true, ..SUPER }), None);
    assert_eq!(handle_shortcut(&ch("["), SUPER), Some(Shortcut::JumpPrompt { back: true }));
    assert_eq!(handle_shortcut(&ch("D"), SUPER), Some(Shortcut::Split(Axis::Horizontal)));
    assert_eq!(
        handle_shortcut(&ch("D"), Mods { shift: true, ..SUPER }),
        Some(Shortcut::Split(Axis::Vertical))
    );
    assert_eq!(handle_shortcut(&ch("0"), SUPER), Some(Shortcut::ResetZoom));
    assert_eq!(handle_shortcut(&ch("7"), SUPER), Some(Shortcut::SelectTab(7)));
    assert_eq!(handle_shortcut(&ch("42"), SUPER), Some(Shortcut::SelectTab(4)));
    assert_eq!(handle_shortcut(&ch("_"), SUPER), Some(Shortcut::Zoom { closer: false }));
    assert_eq!(
        handle_shortcut(&Key::Named(NamedKey::ArrowLeft), Mods { shift: true, ctrl: true, ..SUPER }),
        Some(Shortcut::CycleTab { next: false })
    );
    assert_eq!(
        handle_shortcut(&Key::Named(NamedKey::ArrowUp), Mods { ctrl: true, ..SUPER }),
        Some(Shortcut::Resize { axis: Axis::Vertical, grow: false })
    );
    assert_eq!(
        handle_shortcut(&Key::Named(NamedKey::ArrowDown), SUPER),
        Some(Shortcut::FocusPane(Direction::Down))
    );
    assert_eq!(handle_shortcut(&ch("x"), SUPER), None);
    assert_eq!(handle_shortcut(&Key::Other, SUPER), None);
}

fn scene() -> KeyScene {
    KeyScene { repeat: false, dragging: false, renaming: false, option_as_meta: false, linux: true }
}

#[test]
fn drags_take_every_key() {
    let ov = Overlays::new();
    let s = KeyScene { dragging: true, ..scene() };
    let escape = Key::Named(NamedKey::Escape);
    assert_eq!(route_key(&ov, &escape, NONE, &s).action, KeyAction::CancelDrag);
    assert_eq!(
        route_key(&ov, &escape, NONE, &KeyScene { repeat: true, ..s }).action,
        KeyAction::Swallow
    );
    assert_eq!(route_key(&ov, &ch("q"), SUPER, &s).action, KeyAction::Swallow);
}

#[test]
fn overlays_take_text_but_not_commands() {
    let mut ov = Overlays::new();
    ov.open_palette();
    assert_eq!(route_key(&ov, &ch("a"), NONE, &scene()).action, KeyAction::ToPalette);
    assert_eq!(
        route_key(&ov, &ch("w"), SUPER, &scene()).action,
        KeyAction::Shortcut(Shortcut::ClosePane)
    );
    ov.open_search();
    assert_eq!(route_key(&ov, &ch("a"), NONE, &scene()).action, KeyAction::ToSearch);
    ov.close_search();
    let renaming = KeyScene { renaming: true, ..scene() };
    assert_eq!(route_key(&ov, &ch("a"), NONE, &renaming).action, KeyAction::ToRename);
    assert_eq!(
        route_key(&ov, &ch("w"), SUPER, &renaming).action,
        KeyAction::Shortcut(Shortcut::ClosePane)
    );
}

#[test]
fn held_keys_answer_no_question() {
    let mut ov = Overlays::new();
    ov.show_close_confirm(PendingClose::Quit);
    let enter = Key::Named(NamedKey::Enter);
    assert_eq!(route_key(&ov, &enter, NONE, &scene()).action, KeyAction::Answer);
    assert_eq!(
        route_key(&ov, &enter, NONE, &KeyScene { repeat: true, ..scene() }).action,
        KeyAction::Swallow
    );
    assert_eq!(
        route_key(&ov, &Key::Named(NamedKey::Tab), NONE, &scene()).action,
        KeyAction::MoveConfirmFocus
    );
}

#[test]
fn the_cheat_sheet_closes_and_lets_text_through() {
    let mut ov = Overlays::new();
    ov.show_help();
    let r = route_key(&ov, &ch("l"), NONE, &scene());
    assert!(r.dismiss);
    assert_eq!(r.action, KeyAction::ToShell { meta: false });
    let r = route_key(&ov, &Key::Named(NamedKey::Escape), NONE, &scene());
    assert!(r.dismiss);
    assert_eq!(r.action, KeyAction::Swallow);
    let r = route_key(&ov, &ch("l"), NONE, &KeyScene { repeat: true, ..scene() });
    assert!(!r.dismiss);
    assert_eq!(route_key(&ov, &ch("Q"), SUPER, &scene()).action, KeyAction::Quit);
}

#[test]
fn command_keys_for_windows() {
    let ov = Overlays::new();
    assert_eq!(route_key(&ov, &ch("n"), SUPER, &scene()).action, KeyAction::NewWindow);
    assert_eq!(
        route_key(&ov, &ch("N"), Mods { shift: true, ..SUPER }, &scene()).action,
        KeyAction::MoveTabToNewWindow
    );
    assert_eq!(
        route_key(&ov, &ch("t"), Mods { alt: true, ..SUPER }, &scene()).action,
        KeyAction::PromotePane
    );
    let als = Mods { shift: true, alt: true, ctrl: false, sup: false };
    assert_eq!(route_key(&ov, &ch("T"), als, &scene()).action, KeyAction::PromotePane);
    assert_eq!(
        route_key(&ov, &ch("T"), als, &KeyScene { linux: false, ..scene() }).action,
        KeyAction::ToShell { meta: false }
    );
    assert_eq!(route_key(&ov, &ch("3"), ALT, &scene()).action, KeyAction::SelectTab(3));
    assert_eq!(
        route_key(&ov, &Key::Named(NamedKey::Home), SHIFT, &scene()).action,
        KeyAction::Scroll(ScrollAmount::Top)
    );
    assert_eq!(
        route_key(&ov, &ch("b"), ALT, &KeyScene { option_as_meta: true, ..scene() }).action,
        KeyAction::ToShell { meta: true }
    );
}

#[test]
fn nothing_is_sent_for_an_empty_paste() {
    assert_eq!(paste_bytes("", true), None);
    assert_eq!(paste_bytes("", false), None);
    assert_eq!(paste_bytes("hi", true), Some(b"\x1b[200~hi\x1b[201~".to_vec()));
    assert_eq!(paste_bytes("h\u{e9}", false), Some("h\u{e9}".as_bytes().to_vec()));
}

#[test]
fn white_space_round_a_key_is_dropped() {
    for c in ['\t', '\n', '\u{b}', '\r', ' ', '\u{85}', '\u{a0}', '\u{2003}', '\u{2029}', '\u{3000}'] {
        assert_eq!(parse_chord(&format!("{c}cmd{c}+{c}{c}d{c}")), Some((ch("d"), SUPER)));
    }
    assert_eq!(parse_chord("cmd\u{200b}+d"), None);
}
