use ember_term::commands::{
    check_drag, drag_outcome, drag_reply, handle_control, menu_step, move_reply, resolve_move,
    sort_control, ControlAction, ControlScene, MenuAction, MenuStep, Sorted, SourceWindow,
};
use ember_term::control::{ControlMsg, Coord, MoveTabTarget, PromotePaneTarget};
use ember_term::drag::DragEnded;
use ember_term::keys::{Key, NamedKey};
use ember_term::layout::{PaneId, TabId, WindowId};
use ember_term::overlay::{
    palette_rows, ClickStart, CloseStep, Overlays, PendingClose, SearchRequest, SettingsStep,
    SplitPreview,
};
use ember_term::titles::RowKind;
use ember_term::windows::{DeferredMoveOp, DeferredWindowAction, SurfaceDest, SurfaceRef};

const A: WindowId = WindowId(1);
const B: WindowId = WindowId(2);
const ROWS: [RowKind; 4] =
    [RowKind::SectionHeader, RowKind::Setting, RowKind::SectionHeader, RowKind::Setting];

fn named(k: NamedKey) -> Key {
    Key::Named(k)
}

fn ch(c: &str) -> Key {
    Key::Character(c.to_string())
}

fn scene() -> ControlScene {
    ControlScene { app_cursor: false, shift: false, mac: true, linux: false }
}

fn value(s: &str) -> serde_json::Value {
    serde_json::from_str(s).unwrap()
}

#[test]
fn overlays_replace_each_other() {
    let mut ov = Overlays::new();
    ov.show_help();
    ov.show_about();
    assert!(ov.about && !ov.help);
    ov.show_settings(&ROWS);
    assert!(ov.settings_open && !ov.about);
    assert_eq!(ov.settings_sel, 1);
    assert!(ov.dismiss_overlay());
    assert!(!ov.settings_open);
    assert!(!ov.dismiss_overlay());
    ov.toggle_help();
    assert!(ov.help);
    ov.toggle_help();
    assert!(!ov.help);
}

#[test]
fn the_palette_filters_by_letters_in_order() {
    let all = palette_rows("", true);
    assert!(all.iter().all(|(_, key)| !key.is_empty()));
    let hits = palette_rows("nwtb", true);
    assert!(hits.contains(&("New tab".to_string(), "Cmd+T".to_string())));
    assert!(palette_rows("zzzz", true).is_empty());
}

#[test]
fn palette_keys_edit_and_choose() {
    let mut ov = Overlays::new();
    ov.open_palette();
    for c in ["n", "e", "w", "x"] {
        assert_eq!(ov.palette_key(&ch(c), true), None);
    }
    ov.palette_key(&named(NamedKey::Backspace), true);
    assert_eq!(ov.palette_query, "new");
    let chosen = ov.palette_key(&named(NamedKey::Enter), true);
    assert!(chosen.is_some());
    assert!(!ov.palette_open);
    ov.open_palette();
    assert_eq!(ov.palette_query, "");
    assert_eq!(ov.palette_key(&named(NamedKey::Escape), true), None);
    assert!(!ov.palette_open);
}

#[test]
fn shift_searches_the_other_way() {
    let mut ov = Overlays::new();
    ov.open_search();
    assert_eq!(ov.search_key(&named(NamedKey::Enter), false), None);
    ov.search_key(&ch("a"), false);
    ov.search_key(&ch("b"), false);
    assert_eq!(
        ov.search_key(&named(NamedKey::Enter), false),
        Some(SearchRequest { pattern: "ab".to_string(), forward: true })
    );
    assert_eq!(
        ov.search_key(&named(NamedKey::Enter), true),
        Some(SearchRequest { pattern: "ab".to_string(), forward: false })
    );
    ov.on_search_result(Some((2, 7)));
    assert_eq!(ov.search_count, Some((2, 7)));
    assert_eq!(ov.search_line().as_deref(), Some("find: ab\u{2038}  2/7"));
    ov.search_key(&named(NamedKey::Escape), false);
    assert!(!ov.search_open);
    assert_eq!(ov.search_line(), None);
}

#[test]
fn settings_keys_step_over_headings() {
    let mut ov = Overlays::new();
    ov.show_settings(&ROWS);
    assert_eq!(ov.settings_key(&ROWS, &named(NamedKey::ArrowDown)), SettingsStep::Refresh);
    assert_eq!(ov.settings_sel, 3);
    assert_eq!(
        ov.settings_key(&ROWS, &named(NamedKey::ArrowRight)),
        SettingsStep::Adjust { up: true }
    );
    assert_eq!(
        ov.settings_key(&ROWS, &named(NamedKey::ArrowLeft)),
        SettingsStep::Adjust { up: false }
    );
    assert_eq!(ov.settings_key(&ROWS, &named(NamedKey::Escape)), SettingsStep::Closed);
    assert!(!ov.settings_open);
}

#[test]
fn running_commands_are_asked_about() {
    let mut ov = Overlays::new();
    assert_eq!(ov.request_close(PendingClose::Pane, false), CloseStep::Close(PendingClose::Pane));
    assert_eq!(ov.request_close(PendingClose::Tab(TabId(3)), true), CloseStep::Ask);
    assert_eq!(ov.confirm_view(), Some(("Close this tab?", "Close")));
    assert_eq!(ov.confirm_focus, 0);
    ov.move_confirm_focus();
    assert_eq!(ov.confirm_focus, 1);
    assert_eq!(ov.resolve_confirm(true), Some(PendingClose::Tab(TabId(3))));
    assert_eq!(ov.resolve_confirm(true), None);
    ov.show_close_confirm(PendingClose::Quit);
    assert_eq!(ov.confirm_view(), Some(("Quit Ember?", "Quit")));
    assert_eq!(ov.resolve_confirm(false), None);
}

#[test]
fn the_first_click_belongs_to_the_overlay() {
    let mut ov = Overlays::new();
    ov.show_about();
    let mut preview = None;
    assert_eq!(
        ov.begin_click(Some("https://x.org"), &mut preview, false),
        ClickStart::OpenLink("https://x.org".to_string())
    );
    ov.show_help();
    assert_eq!(ov.begin_click(None, &mut preview, false), ClickStart::Dismissed);
    assert_eq!(ov.begin_click(None, &mut preview, false), ClickStart::GoOn);
    let mut preview =
        Some(SplitPreview { pane: PaneId(4), horizontal: true, ratio_bits: 0.5f32.to_bits() });
    assert!(matches!(
        ov.begin_click(None, &mut preview, true),
        ClickStart::Split { pane: PaneId(4), .. }
    ));
}

#[test]
fn a_question_is_answered_by_keys_alone() {
    let mut ov = Overlays::new();
    ov.show_close_confirm(PendingClose::Quit);
    let typed = handle_control(&mut ov, ControlMsg::Type("x".to_string()), &ROWS, &scene());
    assert_eq!(typed, ControlAction::Nothing);
    assert!(ov.pending_close.is_some());
    let r = handle_control(&mut ov, ControlMsg::Key("Escape".to_string()), &ROWS, &scene());
    assert_eq!(r, ControlAction::Refresh);
    assert!(ov.pending_close.is_none());
}

#[test]
fn messages_become_actions() {
    let mut ov = Overlays::new();
    assert_eq!(
        handle_control(&mut ov, ControlMsg::Key("Enter".to_string()), &ROWS, &scene()),
        ControlAction::Input(vec![b'\r'])
    );
    assert_eq!(
        handle_control(&mut ov, ControlMsg::Key("nothing".to_string()), &ROWS, &scene()),
        ControlAction::Nothing
    );
    assert_eq!(
        handle_control(&mut ov, ControlMsg::ReorderTab(1, 2), &ROWS, &scene()),
        ControlAction::ReorderTab(1, 2)
    );
    assert_eq!(
        handle_control(&mut ov, ControlMsg::Paste("p".to_string()), &ROWS, &scene()),
        ControlAction::Paste("p".to_string())
    );
    handle_control(&mut ov, ControlMsg::About, &ROWS, &scene());
    assert!(ov.about);
    handle_control(&mut ov, ControlMsg::Settings, &ROWS, &scene());
    assert!(ov.settings_open && !ov.about);
}

#[test]
fn window_commands_wait_for_the_event_loop() {
    assert_eq!(
        sort_control(ControlMsg::NewWindow, A, Some("/d".to_string()), 5),
        Sorted::Later(DeferredWindowAction::OpenNew(Some("/d".to_string())))
    );
    assert_eq!(
        sort_control(ControlMsg::MoveTab(MoveTabTarget::Next), A, None, 5),
        Sorted::Later(DeferredWindowAction::Move(
            A,
            DeferredMoveOp::MoveTab(MoveTabTarget::Next),
            Some(5)
        ))
    );
    assert_eq!(
        sort_control(ControlMsg::State, A, None, 5),
        Sorted::Later(DeferredWindowAction::State(5))
    );
    assert_eq!(
        sort_control(ControlMsg::Focus("q".to_string()), A, None, 5),
        Sorted::Later(DeferredWindowAction::Focus("q".to_string(), 5))
    );
    assert_eq!(sort_control(ControlMsg::Copy, A, None, 5), Sorted::Now(ControlMsg::Copy));
    let zero = Coord { bits: 0 };
    let drag = ControlMsg::Drag {
        x1: zero,
        y1: zero,
        x2: zero,
        y2: zero,
        steps: 3,
        mods: "cmd".to_string(),
        cancel: true,
    };
    assert!(matches!(
        sort_control(drag, A, None, 5),
        Sorted::Later(DeferredWindowAction::Drag { window: A, steps: 3, cancel: true, reply: 5, .. })
    ));
}

#[test]
fn menu_items_do_what_they_say() {
    assert_eq!(menu_step(MenuAction::ShowShortcuts), MenuStep::ToggleHelp);
    assert_eq!(menu_step(MenuAction::Quit), MenuStep::RequestClose(PendingClose::Quit));
    assert_eq!(menu_step(MenuAction::Close), MenuStep::RequestClose(PendingClose::Pane));
    assert_eq!(
        menu_step(MenuAction::PromotePaneToWindow),
        MenuStep::Move(DeferredMoveOp::PromotePane(PromotePaneTarget::Window))
    );
}

#[test]
fn moves_are_resolved_when_they_run() {
    let w = SourceWindow { active: 1, focus: PaneId(4), prev_focus: Some(PaneId(2)) };
    assert_eq!(
        resolve_move(&[A, B], A, Some(w), DeferredMoveOp::MoveTab(MoveTabTarget::Next)),
        Ok((SurfaceRef::Tab { window: 0, tab: 1 }, SurfaceDest::NewTab { window: 1 }))
    );
    assert!(resolve_move(&[A, B], A, None, DeferredMoveOp::MergeTab).is_err());
    assert_eq!(value(&move_reply(None)), value(r#"{"ok":true}"#));
    assert_eq!(
        value(&move_reply(Some("no \"window\""))),
        value(r#"{"ok":false,"error":"no \"window\""}"#)
    );
}

#[test]
fn drags_are_checked_and_reported() {
    assert_eq!(check_drag(true, false, false, 8), Ok(8));
    assert_eq!(check_drag(true, false, false, 0), Ok(1));
    assert!(check_drag(false, false, false, 8).is_err());
    assert!(check_drag(true, true, false, 8).is_err());
    assert!(check_drag(true, false, true, 8).is_err());
    assert_eq!(drag_outcome(DragEnded::Reorder, None), DragEnded::Reorder);
    assert_eq!(drag_outcome(DragEnded::Move, Some(true)), DragEnded::Move);
    assert_eq!(drag_outcome(DragEnded::Move, Some(false)), DragEnded::Cancel);
    assert_eq!(
        value(&drag_reply(DragEnded::Move, true, None)),
        value(r#"{"ok":true,"drag_ended":"move","drag_active_mid":true}"#)
    );
}
