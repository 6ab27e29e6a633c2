use ember_term::drag::DragEnded;
use ember_term::events::{
    after_close, close_requested, press, released_button, ControlClose, MouseButton, PressAction,
    RenderOutcome, WindowFlags,
};
use ember_term::gesture::{
    drag_tab_to, elapsed, free_motion, hold_leash, link_under_cursor, note_spring_hover, open_modifier_held,
    pane_drag_modifier_held, release_link, split_modifier_held, start_morph, tick_hold, tick_morph,
    tick_spring_load, update_drag, ClickAction, ClickHits, Clicks, CursorIcon, Hold, HoldTarget,
    HoldTick, LinkAt, LinkOpen, MorphTick, MotionRoute, Pointer, PressedLink, SpringTick, TabDrag,
    TabDragStep, TabHit, FRAME, HOLD_ARM, HOLD_SWEEP, HOLD_SWEEP_TOLERANCE_PX, HOLD_TOLERANCE_PX,
    MULTI_CLICK, POUR_OUT, SPRING_LOAD, SUCK_IN,
};
use ember_term::keys::Mods;
use ember_term::layout::{Axis, LayoutNode, PaneId, SessionId, Tab, TabId, WindowId, WindowTree};
use ember_term::mouse::{
    mouse_mod_bits, mouse_report_bytes, wheel_scroll, Forwarded, MouseProto, PaneModes, PaneUnder,
    WheelAction,
};
use ember_term::overlay::PendingClose;
use ember_term::selection::{copied, SelectionMode};
use ember_term::windows::SurfaceRef;

const A: WindowId = WindowId(1);
const NONE: Mods = Mods { shift: false, alt: false, ctrl: false, sup: false };
const SHIFT: Mods = Mods { shift: true, ..NONE };
const CTRL: Mods = Mods { ctrl: true, ..NONE };

fn one_tab(id: u64, pane: u64) -> Tab {
    Tab {
        id: TabId(id),
        title: String::new(),
        focus: PaneId(pane),
        root: LayoutNode::pane(PaneId(pane), SessionId::new(&format!("s{pane}"))),
    }
}

fn tree() -> WindowTree {
    WindowTree { active: 0, tabs: vec![one_tab(10, 1), one_tab(11, 2), one_tab(12, 3)] }
}

fn hits() -> ClickHits {
    ClickHits { tab: None, scrollbar: None, link: None, link_claimed: false, pane: None }
}

#[test]
fn mouse_reports_encode_sgr_and_x10() {
    assert_eq!(mouse_report_bytes(true, 0, 4, 9, true), b"\x1b[<0;5;10M");
    assert_eq!(mouse_report_bytes(true, 0, 4, 9, false), b"\x1b[<0;5;10m");
    assert_eq!(mouse_report_bytes(true, 64 + 16, 0, 0, true), b"\x1b[<80;1;1M");
    assert_eq!(
        mouse_report_bytes(false, 0, 4, 9, true),
        vec![0x1b, b'[', b'M', 32, 37, 42]
    );
    assert_eq!(
        mouse_report_bytes(false, 0, 4, 9, false),
        vec![0x1b, b'[', b'M', 35, 37, 42]
    );
}

#[test]
fn modifiers_weigh_in_on_reports() {
    assert_eq!(mouse_mod_bits(NONE), 0);
    assert_eq!(mouse_mod_bits(Mods { shift: true, alt: true, ctrl: true, sup: true }), 24);
}

fn under(click: bool) -> Option<PaneUnder> {
    Some(PaneUnder {
        session: SessionId::new("s1"),
        reporting: true,
        proto: MouseProto { click, drag: true, motion: false, sgr: true },
        col: 4,
        row: 9,
    })
}

#[test]
fn a_forwarded_press_is_released_where_it_began() {
    let mut f = Forwarded::new();
    let sent = f.forward_mouse_press(under(true), 0, NONE).unwrap();
    assert_eq!(sent.session, SessionId::new("s1"));
    assert_eq!(sent.bytes, b"\x1b[<0;5;10M");
    let proto = MouseProto { click: true, drag: true, motion: false, sgr: true };
    let moved = f.forward_mouse_motion(Some((proto, 5, 9)), None, NONE).unwrap();
    assert_eq!(moved.bytes, b"\x1b[<32;6;10M");
    assert!(f.forward_mouse_motion(Some((proto, 5, 9)), None, NONE).is_none());
    let sent = f.forward_mouse_release(Some((proto, 5, 9)), 0, NONE).unwrap();
    assert_eq!(sent.bytes, b"\x1b[<0;6;10m");
    assert!(f.forward_mouse_release(Some((proto, 5, 9)), 0, NONE).is_none());
    assert!(f.forward_mouse_press(under(true), 0, SHIFT).is_none());
}

#[test]
fn the_wheel_scrolls_or_reports() {
    let plain = PaneModes { alt_screen: false, mouse_reporting: false, sgr: true };
    assert_eq!(wheel_scroll(3, plain, None, NONE), WheelAction::Scroll(3));
    assert_eq!(wheel_scroll(0, plain, None, NONE), WheelAction::Nothing);
    let alt = PaneModes { alt_screen: true, ..plain };
    assert_eq!(
        wheel_scroll(2, alt, None, NONE),
        WheelAction::Input(b"\x1b[A\x1b[A".to_vec())
    );
    let reporting = PaneModes { mouse_reporting: true, ..plain };
    assert_eq!(
        wheel_scroll(-1, reporting, Some((0, 0)), NONE),
        WheelAction::Input(b"\x1b[<65;1;1M".to_vec())
    );
    assert_eq!(wheel_scroll(-1, reporting, Some((0, 0)), SHIFT), WheelAction::Scroll(-1));
}

#[test]
fn a_hold_sweeps_and_completes() {
    assert_eq!(elapsed(5, 3), 0);
    let mut hold = Some(Hold { target: HoldTarget::Tab(1), started: 1000 });
    assert_eq!(tick_hold(&mut hold, 1000), HoldTick::Waiting(1000 + HOLD_ARM));
    assert_eq!(hold_leash(&hold.unwrap(), 1000), HOLD_TOLERANCE_PX);
    assert_eq!(hold_leash(&hold.unwrap(), 1000 + HOLD_ARM), HOLD_SWEEP_TOLERANCE_PX);
    assert!(matches!(tick_hold(&mut hold, 1000 + HOLD_ARM), HoldTick::Sweeping(_)));
    assert_eq!(
        tick_hold(&mut hold, 1000 + HOLD_ARM + HOLD_SWEEP),
        HoldTick::Completed(HoldTarget::Tab(1))
    );
    assert_eq!(hold, None);
    assert_eq!(tick_hold(&mut hold, 5000), HoldTick::Idle);
}

#[test]
fn morphs_run_for_their_span() {
    assert_eq!(start_morph(true, true, true, 0), None);
    let mut m = start_morph(true, false, true, 100);
    assert_eq!(m.unwrap().duration, SUCK_IN);
    assert_eq!(start_morph(true, false, false, 100).unwrap().duration, POUR_OUT);
    assert_eq!(tick_morph(&mut m, 200), MorphTick::Running { gone: 100, next: 200 + FRAME });
    assert_eq!(tick_morph(&mut m, 100 + SUCK_IN), MorphTick::Idle);
    assert_eq!(m, None);
}

#[test]
fn resting_on_a_chip_shows_its_tab() {
    let mut spring = None;
    note_spring_hover(&mut spring, Some(2), 50);
    note_spring_hover(&mut spring, Some(2), 90);
    assert_eq!(spring, Some((2, 50)));
    assert_eq!(tick_spring_load(&mut spring, 60, 0, 3), SpringTick::Waiting(50 + SPRING_LOAD));
    assert_eq!(tick_spring_load(&mut spring, 50 + SPRING_LOAD, 0, 3), SpringTick::Show(2));
    note_spring_hover(&mut spring, None, 90);
    assert_eq!(tick_spring_load(&mut spring, 90, 0, 3), SpringTick::Idle);
}

#[test]
fn a_tab_drag_reorders_then_tears_off() {
    let mut d = TabDrag { tab: 1, active: false, origin_tab: TabId(11) };
    assert_eq!(update_drag(&mut d, false, false), TabDragStep::Ignore);
    assert_eq!(update_drag(&mut d, true, false), TabDragStep::Reorder);
    assert!(d.active);
    assert_eq!(drag_tab_to(&mut d, Some(2)), Some((1, 2)));
    assert_eq!(d.tab, 2);
    assert_eq!(drag_tab_to(&mut d, Some(2)), None);
    assert_eq!(
        update_drag(&mut d, false, true),
        TabDragStep::TearOff { tab: 2, origin_tab: TabId(11) }
    );
}

#[test]
fn clicks_find_what_they_hit() {
    let mut p = Pointer::new();
    let t = tree();
    let tab = ClickHits { tab: Some(TabHit::Tab(1)), ..hits() };
    assert_eq!(p.left_click(&t, tab, NONE, true, 0, false), ClickAction::SelectTab(1));
    assert!(p.tab_drag.is_some() && p.hold.is_some());
    let again = ClickHits { tab: Some(TabHit::Tab(1)), ..hits() };
    let mut shown = tree();
    shown.active = 1;
    assert_eq!(
        p.left_click(&shown, again, NONE, true, MULTI_CLICK / 2, false),
        ClickAction::RenameTab(1)
    );
    assert!(p.tab_drag.is_none());
    let close = ClickHits { tab: Some(TabHit::CloseTab(2)), ..hits() };
    assert_eq!(p.left_click(&t, close, NONE, true, 0, false), ClickAction::CloseTab(TabId(12)));
    let new = ClickHits { tab: Some(TabHit::NewTab), ..hits() };
    assert_eq!(p.left_click(&t, new, NONE, true, 0, false), ClickAction::NewTab);
    let bar = ClickHits { scrollbar: Some(SessionId::new("s1")), ..hits() };
    assert_eq!(
        p.left_click(&t, bar, NONE, true, 0, false),
        ClickAction::GrabScrollbar(SessionId::new("s1"))
    );
}

#[test]
fn modifiers_differ_by_platform() {
    let cmd_alt = Mods { sup: true, alt: true, ..NONE };
    let ctrl_alt = Mods { ctrl: true, alt: true, ..NONE };
    assert!(pane_drag_modifier_held(cmd_alt, true));
    assert!(!pane_drag_modifier_held(NONE, true));
    assert!(split_modifier_held(ctrl_alt));
    assert!(!split_modifier_held(CTRL));
    assert!(open_modifier_held(Mods { sup: true, ..NONE }, true));
    assert!(open_modifier_held(CTRL, false));
    assert!(!open_modifier_held(CTRL, true));
}

#[test]
fn completed_holds_carry_their_target() {
    let mut p = Pointer::new();
    let mut t = tree();
    let drag = p.complete_hold(&mut t, &[A], A, HoldTarget::Tab(1));
    assert_eq!(drag.surface, SurfaceRef::Tab { window: 0, tab: 1 });
    let drag = p.complete_hold(&mut t, &[A], A, HoldTarget::Pane(PaneId(1)));
    assert_eq!(drag.surface, SurfaceRef::Tab { window: 0, tab: 0 });
}

#[test]
fn releases_end_what_was_under_way() {
    let mut p = Pointer::new();
    let r = p.left_release(&mut None, &[A], A, 3, false);
    assert_eq!(r.ended, DragEnded::Nothing);
    p.selecting = true;
    let r = p.left_release(&mut None, &[A], A, 3, true);
    assert_eq!(r.ended, DragEnded::Selection);
    assert!(r.clear_selection);
    p.tab_drag = Some(TabDrag { tab: 1, active: true, origin_tab: TabId(11) });
    assert!(p.tab_drag_is_active_drag());
    let r = p.left_release(&mut None, &[A], A, 3, false);
    assert_eq!(r.ended, DragEnded::Reorder);
    assert!(p.tab_drag.is_none());
}

fn link(url: &str, col: u16) -> Option<LinkAt> {
    Some(LinkAt { session: SessionId::new("s1"), id: 4, url: url.to_string(), row: 2, col })
}

#[test]
fn only_a_still_pointer_opens_a_link() {
    let pressed = || Some(PressedLink { session: SessionId::new("s1"), id: 4, row: 2, col: 3 });
    let mut p = pressed();
    assert_eq!(
        release_link(&mut p, link("https://x.org", 3)),
        LinkOpen::Open("https://x.org".to_string())
    );
    assert!(p.is_none());
    let mut p = pressed();
    assert_eq!(release_link(&mut p, link("file:///etc", 3)), LinkOpen::Refuse);
    let mut p = pressed();
    assert_eq!(release_link(&mut p, None), LinkOpen::Nothing);
    assert_eq!(release_link(&mut None, link("https://x.org", 3)), LinkOpen::Nothing);
}

#[test]
fn a_program_keeps_its_clicks_from_links() {
    let url = "https://x.org";
    assert_eq!(link_under_cursor(link(url, 3), false, NONE, false), link(url, 3));
    assert_eq!(link_under_cursor(link(url, 3), true, NONE, false), None);
    assert_eq!(link_under_cursor(link(url, 3), true, CTRL, false), link(url, 3));
    assert_eq!(link_under_cursor(link(url, 3), true, CTRL, true), None);
}

#[test]
fn quick_clicks_widen_the_selection() {
    let mut c = Clicks::new();
    let s = SessionId::new("s1");
    assert_eq!(c.note(0, &s, 1, 1), SelectionMode::Simple);
    assert_eq!(c.note(MULTI_CLICK / 2, &s, 1, 1), SelectionMode::Word);
    assert_eq!(c.note(MULTI_CLICK, &s, 1, 1), SelectionMode::Line);
    assert_eq!(c.note(3 * MULTI_CLICK, &s, 1, 1), SelectionMode::Simple);
    assert_eq!(c.note(3 * MULTI_CLICK, &s, 1, 2), SelectionMode::Simple);
}

#[test]
fn motion_goes_to_what_is_held() {
    let mut p = Pointer::new();
    assert_eq!(p.on_cursor_moved(false, NONE), MotionRoute::Free);
    p.selecting = true;
    assert_eq!(p.on_cursor_moved(false, NONE), MotionRoute::Select);
    assert_eq!(p.on_cursor_moved(true, NONE), MotionRoute::Drag);
    p.divider = true;
    assert_eq!(p.on_cursor_moved(false, NONE), MotionRoute::Divider);
    let m = free_motion(Some(TabHit::Tab(1)), None, false);
    assert_eq!(m.hovered_tab, Some(1));
    assert_eq!(free_motion(None, Some(Axis::Horizontal), false).icon, CursorIcon::EwResize);
    assert_eq!(free_motion(None, Some(Axis::Vertical), false).icon, CursorIcon::NsResize);
    assert_eq!(free_motion(None, None, true).icon, CursorIcon::Hand);
}

#[test]
fn buttons_press_close_and_forward() {
    let t = tree();
    assert_eq!(press(MouseButton::Left, false, None, None, &t), PressAction::Press);
    assert_eq!(
        press(MouseButton::Middle, false, None, Some(TabHit::Tab(1)), &t),
        PressAction::CloseTab(TabId(11))
    );
    assert_eq!(press(MouseButton::Right, false, None, None, &t), PressAction::Forward(2));
    assert_eq!(
        press(MouseButton::Left, true, Some(1), None, &t),
        PressAction::Answer { close: true }
    );
    assert_eq!(press(MouseButton::Left, true, None, None, &t), PressAction::Nothing);
    assert_eq!(released_button(MouseButton::Middle), 1);
}

#[test]
fn closing_the_last_window_quits() {
    assert_eq!(close_requested(1), PendingClose::Quit);
    assert_eq!(close_requested(2), PendingClose::CloseWindow);
    assert_eq!(after_close(PendingClose::Quit, false), Some(ControlClose::ExitApp));
    assert_eq!(after_close(PendingClose::Pane, true), Some(ControlClose::CloseWindow));
    assert_eq!(after_close(PendingClose::Pane, false), None);
}

#[test]
fn hidden_windows_are_not_drawn() {
    let mut w = WindowFlags { focused: false, occluded: false, render_starved: false };
    w.on_focused(true);
    assert!(w.focused);
    w.on_occluded(true);
    assert!(w.occluded);
    w.on_render(RenderOutcome::Starved);
    assert!(w.render_starved);
    w.on_render(RenderOutcome::Presented);
    assert!(!w.render_starved);
}

#[test]
fn a_rename_ends_the_drag_of_a_tab() {
    let t = tree();
    let drag = TabDrag { tab: 1, active: true, origin_tab: TabId(10) };
    let mut p = Pointer::new();
    p.tab_drag = Some(drag);
    p.start_rename(&t, 3);
    assert_eq!(p.tab_drag, Some(drag));
    p.start_rename(&t, 2);
    assert_eq!(p, Pointer::new());
}

#[test]
fn the_kept_text_of_a_selection_is_copied() {
    let text = |s: &str| Some(s.to_string());
    assert_eq!(copied(text("kept"), text("live")), text("kept"));
    assert_eq!(copied(text(""), text("live")), text("live"));
    assert_eq!(copied(None, text("live")), text("live"));
    assert_eq!(copied(text(""), None), None);
    assert_eq!(copied(None, None), None);
}
