//! Carrying out the commands of clients and of the menu.

use vstd::prelude::*;
use vstd::string::StrSliceExecFns;
use vstd::utf8::encode_utf8;
use crate::control::{
    err, failure, ok, ControlMsg, Coord, MoveTabTarget, MsgView, PromotePaneTarget, ScrollAmount,
};
use crate::drag::DragEnded;
use crate::json::{
    boolean, is_plain, json_parsed, json_rendered, json_view, object, put, render, set_member, text,
    JsonView,
};
use crate::keyboard::{handle_shortcut, shortcut_of, Shortcut};
use crate::keys::{
    alt_digit_tab, chord, digit_tab, encode_key, key_named, key_text, linux_chord,
    linux_chord_translate, named_key, parse_chord, Key, KeyView, Mods,
};
use crate::layout::{PaneId, WindowId};
use crate::overlay::{
    asks, palette_after, search_after, Overlays, OverlaysView, PendingClose, SearchRequest,
    SettingsStep,
};
use crate::selection::{parse_selection_mode, selection_mode, SelectionMode};
use crate::text::{opt_text, same};
use crate::titles::{is_step, RowKind};
use crate::windows::{
    build_merge_tab, build_move_tab, build_promote_pane, build_view, pane_promotion, tab_merge,
    tab_move, DeferredMoveOp, DeferredWindowAction, MoveBuild, SurfaceDest, SurfaceRef,
};

verus! {

broadcast use vstd::seq_lib::group_seq_properties;

// ---- commands for the focused window ---------------------------------------

/// What a command asks of the focused window.
#[derive(Debug, PartialEq, Eq)]
pub enum ControlAction {
    Nothing,
    /// The overlays are shown anew.
    Refresh,
    Search(SearchRequest),
    Settings(SettingsStep),
    /// The question before closing was answered: this is closed.
    Close(PendingClose),
    /// Bytes for the focused session.
    Input(Vec<u8>),
    /// Shows a tab, counted from 1.
    SelectTab(usize),
    /// A shortcut; a window that it leaves without tabs closes.
    Shortcut(Shortcut),
    Raise,
    Screenshot(String),
    Click(Coord, Coord),
    /// Selects from row and column to row and column.
    Select { from: (u16, u16), to: (u16, u16), mode: SelectionMode },
    Copy,
    Paste(String),
    ToggleFps,
    Scroll(ScrollAmount),
    Bell(Option<usize>),
    ReorderTab(usize, usize),
    RenameTab(usize, String),
    EditTab(usize),
}

/// What is going on in the focused window.
#[derive(Clone, Copy, Debug, PartialEq, Eq, Structural)]
pub struct ControlScene {
    /// The program in the focused pane wants the other encoding of arrows.
    pub app_cursor: bool,
    /// Shift is held.
    pub shift: bool,
    pub mac: bool,
    /// The chords of Linux desktops count.
    pub linux: bool,
}

/// The key gives these bytes, or nothing.
pub open spec fn types_key(key: KeyView, mods: Mods, app_cursor: bool, a: ControlAction) -> bool {
    match key_text(key, mods, app_cursor, false) {
        Some(t) => a matches ControlAction::Input(b) && b@ == encode_utf8(t),
        None => a is Nothing,
    }
}

pub open spec fn runs_shortcut(key: KeyView, mods: Mods, a: ControlAction) -> bool {
    match shortcut_of(key, mods) {
        Some(c) => a == ControlAction::Shortcut(c),
        None => a is Nothing,
    }
}

/// What a chord does: a shortcut, or bytes for the shell.
pub open spec fn runs_chord(combo: Seq<char>, scene: ControlScene, a: ControlAction) -> bool {
    match chord(combo) {
        None => a is Nothing,
        Some((key, mods)) => if scene.linux && digit_tab(key, mods) is Some {
            a == ControlAction::SelectTab(digit_tab(key, mods)->0)
        } else if scene.linux && linux_chord(key, mods) is Some {
            let (k, m) = linux_chord(key, mods)->0;
            runs_shortcut(k, m, a)
        } else if mods.sup {
            runs_shortcut(key, mods, a)
        } else {
            types_key(key, mods, scene.app_cursor, a)
        },
    }
}

/// What a command does where nothing is in its way. The commands for all windows do nothing here.
pub open spec fn carries_out(v: OverlaysView, msg: MsgView, rows: Seq<RowKind>, scene: ControlScene, w: OverlaysView, a: ControlAction) -> bool {
    match msg {
        MsgView::About => a is Refresh && w == (if v.about {
            OverlaysView { about: false, ..v }
        } else {
            v.with_about()
        }),
        MsgView::Settings => a is Refresh && w == (if v.settings_open {
            OverlaysView { settings_open: false, ..v }
        } else {
            v.with_settings(rows)
        }),
        _ => w == v && match msg {
            MsgView::Type(t) => a matches ControlAction::Input(b) && b@ == encode_utf8(t),
            MsgView::Key(name) => match key_named(name) {
                Some(k) => types_key(k, Mods::spec_none(), scene.app_cursor, a),
                None => a is Nothing,
            },
            MsgView::Chord(combo) => runs_chord(combo, scene, a),
            MsgView::Raise => a is Raise,
            MsgView::Screenshot(p) => a matches ControlAction::Screenshot(q) && q@ == p,
            MsgView::Click(x, y) => a == ControlAction::Click(x, y),
            MsgView::Select(r1, c1, r2, c2, mode) => a == (ControlAction::Select {
                from: (r1, c1),
                to: (r2, c2),
                mode: selection_mode(mode),
            }),
            MsgView::Copy => a is Copy,
            MsgView::Paste(t) => a matches ControlAction::Paste(u) && u@ == t,
            MsgView::Fps => a is ToggleFps,
            MsgView::Scroll(s) => a == ControlAction::Scroll(s),
            MsgView::Bell(t) => a == ControlAction::Bell(t),
            MsgView::ReorderTab(x, y) => a == ControlAction::ReorderTab(x, y),
            MsgView::RenameTab(i, t) => a matches ControlAction::RenameTab(j, u) && j == i && u@
                == t,
            MsgView::EditTab(i) => a == ControlAction::EditTab(i),
            _ => a is Nothing,
        },
    }
}

/// What a command does to the question before closing: keys answer it, nothing else gets past.
pub open spec fn answers(v: OverlaysView, msg: MsgView, w: OverlaysView, a: ControlAction) -> bool {
    let over = OverlaysView { pending_close: None, ..v };
    match msg {
        MsgView::Key(name) => if name == "Escape"@ {
            w == over && a is Refresh
        } else if name == "Enter"@ || name == "Return"@ {
            w == over && (if v.confirm_focus == 1 {
                a == ControlAction::Close(v.pending_close->0)
            } else {
                a is Refresh
            })
        } else if name == "ArrowLeft"@ || name == "ArrowRight"@ || name == "Tab"@ {
            w == (OverlaysView { confirm_focus: (1 - v.confirm_focus) as u8, ..v }) && a is Refresh
        } else {
            w == v && a is Nothing
        },
        _ => w == v && a is Nothing,
    }
}

pub open spec fn is_input(msg: MsgView) -> bool {
    msg is Type || msg is Key || msg is Chord
}

/// What a command does once no overlay has taken it: the question before closing comes first,
/// then input closes the cheat sheet and the about box.
pub open spec fn passes(v: OverlaysView, msg: MsgView, rows: Seq<RowKind>, scene: ControlScene, w: OverlaysView, a: ControlAction) -> bool {
    if v.pending_close is Some {
        answers(v, msg, w, a)
    } else if (v.help || v.about) && is_input(msg) {
        w == v.dismissed() && a is Refresh
    } else {
        carries_out(v, msg, rows, scene, w, a)
    }
}

/// What a key does in the settings.
pub open spec fn sets(v: OverlaysView, key: KeyView, rows: Seq<RowKind>, w: OverlaysView, step: SettingsStep) -> bool {
    match key {
        KeyView::Named(crate::keys::NamedKey::Escape) => step == SettingsStep::Closed && w == (
        OverlaysView { settings_open: false, ..v }),
        KeyView::Named(crate::keys::NamedKey::ArrowUp) => step == SettingsStep::Refresh && is_step(
            rows,
            v.settings_sel as int,
            -1,
            w.settings_sel as int,
        ) && w == (OverlaysView { settings_sel: w.settings_sel, ..v }),
        KeyView::Named(crate::keys::NamedKey::ArrowDown) => step == SettingsStep::Refresh && is_step(
            rows,
            v.settings_sel as int,
            1,
            w.settings_sel as int,
        ) && w == (OverlaysView { settings_sel: w.settings_sel, ..v }),
        KeyView::Named(crate::keys::NamedKey::ArrowRight) => step == (SettingsStep::Adjust {
            up: true,
        }) && w == v,
        KeyView::Named(crate::keys::NamedKey::Space) => step == (SettingsStep::Adjust { up: true })
            && w == v,
        KeyView::Named(crate::keys::NamedKey::ArrowLeft) => step == (SettingsStep::Adjust {
            up: false,
        }) && w == v,
        _ => step == SettingsStep::Refresh && w == v,
    }
}

/// What a command does. Named keys go to the palette, the search bar or the settings while one
/// of them is open; a chord picked in the palette is run.
pub open spec fn commands(v: OverlaysView, msg: MsgView, rows: Seq<RowKind>, scene: ControlScene, w: OverlaysView, a: ControlAction) -> bool {
    match msg {
        MsgView::Key(name) if v.palette_open => match key_named(name) {
            None => w == v && a is Nothing,
            Some(k) => match palette_after(v, k, scene.mac) {
                (next, Some(picked)) => passes(
                    next,
                    MsgView::Chord(picked),
                    rows,
                    scene,
                    w,
                    a,
                ),
                (next, None) => w == next && a is Refresh,
            },
        },
        MsgView::Key(name) if v.search_open => match key_named(name) {
            None => w == v && a is Nothing,
            Some(k) => {
                let (next, forward) = search_after(v, k, scene.shift);
                &&& w == next
                &&& match forward {
                    Some(f) if next.search_query.len() > 0 => a matches ControlAction::Search(q)
                        && asks(Some(q), next.search_query, forward),
                    _ => a is Refresh,
                }
            },
        },
        MsgView::Key(name) if v.settings_open => match key_named(name) {
            None => w == v && a is Nothing,
            Some(k) => a matches ControlAction::Settings(step) && sets(v, k, rows, w, step),
        },
        _ => passes(v, msg, rows, scene, w, a),
    }
}

fn type_key(key: &Key, mods: Mods, app_cursor: bool) -> (r: ControlAction)
    ensures
        types_key(key@, mods, app_cursor, r),
{
    match encode_key(key, mods, app_cursor, false) {
        Some(bytes) => ControlAction::Input(bytes),
        None => ControlAction::Nothing,
    }
}

fn run_shortcut(key: &Key, mods: Mods) -> (r: ControlAction)
    ensures
        runs_shortcut(key@, mods, r),
{
    match handle_shortcut(key, mods) {
        Some(c) => ControlAction::Shortcut(c),
        None => ControlAction::Nothing,
    }
}

fn run_chord(combo: &str, scene: &ControlScene) -> (r: ControlAction)
    ensures
        runs_chord(combo@, *scene, r),
{
    match parse_chord(combo) {
        None => ControlAction::Nothing,
        Some((key, mods)) => {
            if scene.linux {
                if let Some(n) = alt_digit_tab(&key, mods) {
                    return ControlAction::SelectTab(n);
                }
                if let Some((k, m)) = linux_chord_translate(&key, mods) {
                    return run_shortcut(&k, m);
                }
            }
            if mods.sup {
                run_shortcut(&key, mods)
            } else {
                type_key(&key, mods, scene.app_cursor)
            }
        },
    }
}

fn carry_out(ov: &mut Overlays, msg: ControlMsg, rows: &[RowKind], scene: &ControlScene) -> (r: ControlAction)
    ensures
        carries_out(old(ov)@, msg@, rows@, *scene, final(ov)@, r),
{
    match msg {
        ControlMsg::About => {
            ov.toggle_about();
            ControlAction::Refresh
        },
        ControlMsg::Settings => {
            ov.toggle_settings(rows);
            ControlAction::Refresh
        },
        ControlMsg::Type(t) => ControlAction::Input(t.as_str().as_bytes_vec()),
        ControlMsg::Key(name) => match named_key(name.as_str()) {
            Some(k) => type_key(&k, Mods::none(), scene.app_cursor),
            None => ControlAction::Nothing,
        },
        ControlMsg::Chord(combo) => run_chord(combo.as_str(), scene),
        ControlMsg::Raise => ControlAction::Raise,
        ControlMsg::Screenshot(p) => ControlAction::Screenshot(p),
        ControlMsg::Click(x, y) => ControlAction::Click(x, y),
        ControlMsg::Select(r1, c1, r2, c2, mode) => ControlAction::Select {
            from: (r1, c1),
            to: (r2, c2),
            mode: parse_selection_mode(mode.as_str()),
        },
        ControlMsg::Copy => ControlAction::Copy,
        ControlMsg::Paste(t) => ControlAction::Paste(t),
        ControlMsg::Fps => ControlAction::ToggleFps,
        ControlMsg::Scroll(s) => ControlAction::Scroll(s),
        ControlMsg::Bell(t) => ControlAction::Bell(t),
        ControlMsg::ReorderTab(x, y) => ControlAction::ReorderTab(x, y),
        ControlMsg::RenameTab(i, t) => ControlAction::RenameTab(i, t),
        ControlMsg::EditTab(i) => ControlAction::EditTab(i),
        _ => ControlAction::Nothing,
    }
}

fn answer(ov: &mut Overlays, name: &str) -> (r: ControlAction)
    requires
        old(ov).pending_close is Some,
        old(ov).confirm_focus <= 1,
    ensures
        answers(old(ov)@, MsgView::Key(name@), final(ov)@, r),
{
    if same(name, "Escape") {
        ov.resolve_confirm(false);
        return ControlAction::Refresh;
    }
    if same(name, "Enter") || same(name, "Return") {
        let agreed = ov.confirm_focus == 1;
        return match ov.resolve_confirm(agreed) {
            Some(kind) => ControlAction::Close(kind),
            None => ControlAction::Refresh,
        };
    }
    if same(name, "ArrowLeft") || same(name, "ArrowRight") || same(name, "Tab") {
        ov.move_confirm_focus();
        return ControlAction::Refresh;
    }
    ControlAction::Nothing
}

fn pass(ov: &mut Overlays, msg: ControlMsg, rows: &[RowKind], scene: &ControlScene) -> (r: ControlAction)
    requires
        old(ov).confirm_focus <= 1,
    ensures
        passes(old(ov)@, msg@, rows@, *scene, final(ov)@, r),
{
    if ov.pending_close.is_some() {
        return match msg {
            ControlMsg::Key(name) => answer(ov, name.as_str()),
            _ => ControlAction::Nothing,
        };
    }
    if ov.help || ov.about {
        let input = match &msg {
            ControlMsg::Type(_) => true,
            ControlMsg::Key(_) => true,
            ControlMsg::Chord(_) => true,
            _ => false,
        };
        if input {
            ov.dismiss_overlay();
            return ControlAction::Refresh;
        }
    }
    carry_out(ov, msg, rows, scene)
}

/// Carries out a command of a client in the focused window.
pub fn handle_control(ov: &mut Overlays, msg: ControlMsg, rows: &[RowKind], scene: &ControlScene) -> (r: ControlAction)
    requires
        old(ov).confirm_focus <= 1,
        old(ov).palette_sel < usize::MAX,
        old(ov).settings_sel < usize::MAX,
    ensures
        commands(old(ov)@, msg@, rows@, *scene, final(ov)@, r),
{
    if let ControlMsg::Key(name) = &msg {
        if ov.palette_open {
            return match named_key(name.as_str()) {
                None => ControlAction::Nothing,
                Some(k) => match ov.palette_key(&k, scene.mac) {
                    Some(picked) => pass(ov, ControlMsg::Chord(picked), rows, scene),
                    None => ControlAction::Refresh,
                },
            };
        }
        if ov.search_open {
            return match named_key(name.as_str()) {
                None => ControlAction::Nothing,
                Some(k) => match ov.search_key(&k, scene.shift) {
                    Some(q) => ControlAction::Search(q),
                    None => ControlAction::Refresh,
                },
            };
        }
        if ov.settings_open {
            return match named_key(name.as_str()) {
                None => ControlAction::Nothing,
                Some(k) => ControlAction::Settings(ov.settings_key(rows, &k)),
            };
        }
    }
    pass(ov, msg, rows, scene)
}

/// While the question before closing is open, nothing but keys has any effect, and nothing is
/// closed but what was asked about, with the button that closes focused.
pub proof fn law_questions_are_answered_by_keys(v: OverlaysView, msg: MsgView, rows: Seq<RowKind>, scene: ControlScene, w: OverlaysView, a: ControlAction)
    requires
        v.pending_close is Some,
        commands(v, msg, rows, scene, w, a),
    ensures
        !(msg is Key) ==> w == v && a is Nothing,
        a matches ControlAction::Close(kind) ==> v.pending_close == Some(kind) && v.confirm_focus
            == 1 && w.pending_close is None,
{
}

/// Commands keep overlays exclusive.
pub proof fn law_commands_keep_overlays_exclusive(v: OverlaysView, msg: MsgView, rows: Seq<RowKind>, scene: ControlScene, w: OverlaysView, a: ControlAction)
    requires
        v.exclusive(),
        commands(v, msg, rows, scene, w, a),
    ensures
        w.exclusive(),
{
}

// ---- commands that concern all windows -------------------------------------

/// A command of a client: put off until all windows are free, or for the focused window now.
#[derive(Debug, PartialEq, Eq)]
pub enum Sorted {
    Later(DeferredWindowAction),
    Now(ControlMsg),
}

/// The command is put off as this action. `cwd` is the directory of the focused session, `ticket`
/// the client that waits for a reply.
pub open spec fn sorted(msg: MsgView, focused: WindowId, cwd: Option<Seq<char>>, ticket: u64, r: Sorted) -> bool {
    match msg {
        MsgView::NewWindow => r matches Sorted::Later(DeferredWindowAction::OpenNew(d))
            && opt_text(d) == cwd,
        MsgView::MoveTab(t) => r == Sorted::Later(
            DeferredWindowAction::Move(focused, DeferredMoveOp::MoveTab(t), Some(ticket)),
        ),
        MsgView::PromotePane(t) => r == Sorted::Later(
            DeferredWindowAction::Move(focused, DeferredMoveOp::PromotePane(t), Some(ticket)),
        ),
        MsgView::MergeTab => r == Sorted::Later(
            DeferredWindowAction::Move(focused, DeferredMoveOp::MergeTab, Some(ticket)),
        ),
        MsgView::State => r == Sorted::Later(DeferredWindowAction::State(ticket)),
        MsgView::Focus(q) => r matches Sorted::Later(DeferredWindowAction::Focus(p, t)) && p@ == q
            && t == ticket,
        MsgView::Drag { x1, y1, x2, y2, steps, mods, cancel } => {
            &&& r matches Sorted::Later(
                DeferredWindowAction::Drag {
                    window,
                    x1: a1,
                    y1: b1,
                    x2: a2,
                    y2: b2,
                    steps: n,
                    mods: m,
                    cancel: c,
                    paced_ms,
                    reply,
                },
            )
            &&& window == focused && a1 == x1 && b1 == y1 && a2 == x2 && b2 == y2 && n == steps
                && m@ == mods && c == cancel && paced_ms is None && reply == ticket
        },
        _ => r matches Sorted::Now(m) && m@ == msg,
    }
}

/// Sorts a command of a client: those that concern all windows are put off, with the identity of
/// the focused window in place of its number, which may change until then.
pub fn sort_control(msg: ControlMsg, focused: WindowId, cwd: Option<String>, ticket: u64) -> (r: Sorted)
    ensures
        sorted(msg@, focused, opt_text(cwd), ticket, r),
{
    match msg {
        ControlMsg::NewWindow => Sorted::Later(DeferredWindowAction::OpenNew(cwd)),
        ControlMsg::MoveTab(t) => Sorted::Later(
            DeferredWindowAction::Move(focused, DeferredMoveOp::MoveTab(t), Some(ticket)),
        ),
        ControlMsg::PromotePane(t) => Sorted::Later(
            DeferredWindowAction::Move(focused, DeferredMoveOp::PromotePane(t), Some(ticket)),
        ),
        ControlMsg::MergeTab => Sorted::Later(
            DeferredWindowAction::Move(focused, DeferredMoveOp::MergeTab, Some(ticket)),
        ),
        ControlMsg::State => Sorted::Later(DeferredWindowAction::State(ticket)),
        ControlMsg::Focus(q) => Sorted::Later(DeferredWindowAction::Focus(q, ticket)),
        ControlMsg::Drag { x1, y1, x2, y2, steps, mods, cancel } => Sorted::Later(
            DeferredWindowAction::Drag {
                window: focused,
                x1,
                y1,
                x2,
                y2,
                steps,
                mods,
                cancel,
                paced_ms: None,
                reply: ticket,
            },
        ),
        other => Sorted::Now(other),
    }
}

// ---- the menu --------------------------------------------------------------

/// An item of the menu.
#[derive(Clone, Copy, Debug, PartialEq, Eq, Structural)]
pub enum MenuAction {
    ShowShortcuts,
    About,
    Settings,
    NewTab,
    NewWindow,
    Copy,
    Paste,
    Close,
    Quit,
    MoveTabToNewWindow,
    MoveTabToNextWindow,
    MoveTabToPrevWindow,
    PromotePaneToTab,
    PromotePaneToWindow,
    MergeTabIntoPrevious,
}

/// What an item of the menu does.
#[derive(Clone, Copy, Debug, PartialEq, Eq, Structural)]
pub enum MenuStep {
    ToggleHelp,
    ToggleAbout,
    ToggleSettings,
    NewTab,
    /// A window is opened once all windows are free.
    OpenWindow,
    Copy,
    Paste,
    /// Closes the pane or quits, asking first where a command runs.
    RequestClose(PendingClose),
    /// A move once all windows are free.
    Move(DeferredMoveOp),
}

/// What an item of the menu does.
pub fn menu_step(action: MenuAction) -> (r: MenuStep)
    ensures
        r == (match action {
            MenuAction::ShowShortcuts => MenuStep::ToggleHelp,
            MenuAction::About => MenuStep::ToggleAbout,
            MenuAction::Settings => MenuStep::ToggleSettings,
            MenuAction::NewTab => MenuStep::NewTab,
            MenuAction::NewWindow => MenuStep::OpenWindow,
            MenuAction::Copy => MenuStep::Copy,
            MenuAction::Paste => MenuStep::Paste,
            MenuAction::Close => MenuStep::RequestClose(PendingClose::Pane),
            MenuAction::Quit => MenuStep::RequestClose(PendingClose::Quit),
            MenuAction::MoveTabToNewWindow => MenuStep::Move(
                DeferredMoveOp::MoveTab(MoveTabTarget::New),
            ),
            MenuAction::MoveTabToNextWindow => MenuStep::Move(
                DeferredMoveOp::MoveTab(MoveTabTarget::Next),
            ),
            MenuAction::MoveTabToPrevWindow => MenuStep::Move(
                DeferredMoveOp::MoveTab(MoveTabTarget::Prev),
            ),
            MenuAction::PromotePaneToTab => MenuStep::Move(
                DeferredMoveOp::PromotePane(PromotePaneTarget::Tab),
            ),
            MenuAction::PromotePaneToWindow => MenuStep::Move(
                DeferredMoveOp::PromotePane(PromotePaneTarget::Window),
            ),
            MenuAction::MergeTabIntoPrevious => MenuStep::Move(DeferredMoveOp::MergeTab),
        }),
{
    match action {
        MenuAction::ShowShortcuts => MenuStep::ToggleHelp,
        MenuAction::About => MenuStep::ToggleAbout,
        MenuAction::Settings => MenuStep::ToggleSettings,
        MenuAction::NewTab => MenuStep::NewTab,
        MenuAction::NewWindow => MenuStep::OpenWindow,
        MenuAction::Copy => MenuStep::Copy,
        MenuAction::Paste => MenuStep::Paste,
        MenuAction::Close => MenuStep::RequestClose(PendingClose::Pane),
        MenuAction::Quit => MenuStep::RequestClose(PendingClose::Quit),
        MenuAction::MoveTabToNewWindow => MenuStep::Move(
            DeferredMoveOp::MoveTab(MoveTabTarget::New),
        ),
        MenuAction::MoveTabToNextWindow => MenuStep::Move(
            DeferredMoveOp::MoveTab(MoveTabTarget::Next),
        ),
        MenuAction::MoveTabToPrevWindow => MenuStep::Move(
            DeferredMoveOp::MoveTab(MoveTabTarget::Prev),
        ),
        MenuAction::PromotePaneToTab => MenuStep::Move(
            DeferredMoveOp::PromotePane(PromotePaneTarget::Tab),
        ),
        MenuAction::PromotePaneToWindow => MenuStep::Move(
            DeferredMoveOp::PromotePane(PromotePaneTarget::Window),
        ),
        MenuAction::MergeTabIntoPrevious => MenuStep::Move(DeferredMoveOp::MergeTab),
    }
}

// ---- moves that were put off -----------------------------------------------

/// What a move reads of the window that it starts in.
#[derive(Clone, Copy, Debug, PartialEq, Eq, Structural)]
pub struct SourceWindow {
    /// The tab that is shown.
    pub active: usize,
    /// The focused pane of that tab.
    pub focus: PaneId,
    /// The focused pane of the tab before it.
    pub prev_focus: Option<PaneId>,
}

/// What a move that was put off comes to, by the windows as they are now.
pub open spec fn resolved(order: Seq<WindowId>, source: WindowId, window: Option<SourceWindow>, op: DeferredMoveOp) -> MoveBuild {
    match window {
        None => MoveBuild::Refuse("the source window closed before this move could run"@),
        Some(w) => match op {
            DeferredMoveOp::MoveTab(t) => tab_move(order, source, w.active, t),
            DeferredMoveOp::PromotePane(t) => pane_promotion(order, source, w.active, w.focus, t),
            DeferredMoveOp::MergeTab => tab_merge(order, source, w.active, w.prev_focus),
        },
    }
}

/// Resolves a move that was put off, by the windows as they are now.
pub fn resolve_move(order: &[WindowId], source: WindowId, window: Option<SourceWindow>, op: DeferredMoveOp) -> (r: Result<
    (SurfaceRef, SurfaceDest),
    String,
>)
    requires
        window matches Some(w) ==> (w.prev_focus is Some <==> w.active > 0),
    ensures
        build_view(r) == resolved(order@, source, window, op),
{
    match window {
        None => Err("the source window closed before this move could run".to_owned()),
        Some(w) => match op {
            DeferredMoveOp::MoveTab(t) => build_move_tab(order, source, w.active, t),
            DeferredMoveOp::PromotePane(t) => build_promote_pane(
                order,
                source,
                w.active,
                w.focus,
                t,
            ),
            DeferredMoveOp::MergeTab => build_merge_tab(order, source, w.active, w.prev_focus),
        },
    }
}

/// The reply to a move: it worked, or why not.
pub open spec fn move_reply_text(error: Option<Seq<char>>) -> Seq<char> {
    match error {
        None => "{\"ok\":true}"@,
        Some(e) => json_rendered(failure(e)),
    }
}

/// The reply to a move.
pub fn move_reply(error: Option<&str>) -> (r: String)
    ensures
        r@ == move_reply_text(match error {
            Some(e) => Some(e@),
            None => None,
        }),
{
    match error {
        None => ok(),
        Some(e) => err(e),
    }
}

// ---- a drag for a client ---------------------------------------------------

/// Why a client cannot have a drag.
pub open spec fn drag_refused(known: bool, paced: bool, dragging: bool) -> Option<Seq<char>> {
    if !known {
        Some("window not tracked"@)
    } else if paced {
        Some("a paced drag is already running"@)
    } else if dragging {
        Some("a drag is already in progress"@)
    } else {
        None
    }
}

/// Whether a client can have a drag in a window, and in how many steps: at least one. A refusal
/// is the reply.
pub fn check_drag(known: bool, paced: bool, dragging: bool, steps: usize) -> (r: Result<usize, String>)
    ensures
        match drag_refused(known, paced, dragging) {
            Some(why) => r matches Err(reply) && reply@ == json_rendered(failure(why)),
            None => r == Ok::<usize, String>(if steps == 0 { 1 } else { steps }),
        },
{
    if !known {
        return Err(err("window not tracked"));
    }
    if paced {
        return Err(err("a paced drag is already running"));
    }
    if dragging {
        return Err(err("a drag is already in progress"));
    }
    Ok(
        if steps == 0 {
            1
        } else {
            steps
        },
    )
}

/// What a drag for a client came to: a move that was refused gives the drag up.
pub fn drag_outcome(released: DragEnded, moved: Option<bool>) -> (r: DragEnded)
    ensures
        r == (match moved {
            Some(true) => DragEnded::Move,
            Some(false) => DragEnded::Cancel,
            None => released,
        }),
{
    match moved {
        Some(worked) => if worked {
            DragEnded::Move
        } else {
            DragEnded::Cancel
        },
        None => released,
    }
}

/// The reply to a drag: what it came to, whether it was under way, and why a move was refused.
pub open spec fn drag_report(ended: DragEnded, under_way: bool, error: Option<Seq<char>>) -> JsonView {
    let report = put(
        put(
            put(JsonView::Object(Map::empty()), "ok"@, JsonView::Bool(true)),
            "drag_ended"@,
            JsonView::Text(ended.spec_str()),
        ),
        "drag_active_mid"@,
        JsonView::Bool(under_way),
    );
    match error {
        Some(e) => put(report, "error"@, JsonView::Text(e)),
        None => report,
    }
}

/// The reply to a drag.
pub fn drag_reply(ended: DragEnded, under_way: bool, error: Option<&str>) -> (r: String)
    ensures
        r@ == json_rendered(
            drag_report(
                ended,
                under_way,
                match error {
                    Some(e) => Some(e@),
                    None => None,
                },
            ),
        ),
        json_parsed(r@) == Ok::<JsonView, Seq<char>>(
            drag_report(
                ended,
                under_way,
                match error {
                    Some(e) => Some(e@),
                    None => None,
                },
            ),
        ),
{
    let mut v = object();
    set_member(&mut v, "ok", boolean(true));
    set_member(&mut v, "drag_ended", text(ended.as_str()));
    set_member(&mut v, "drag_active_mid", boolean(under_way));
    if let Some(e) = error {
        set_member(&mut v, "error", text(e));
    }
    proof {
        reveal_with_fuel(is_plain, 2);
        assert(is_plain(json_view(v), 100));
    }
    render(&v)
}

// ---- what commands do ------------------------------------------------------

/// No overlay takes the command: none is open, and nothing is asked.
pub open spec fn is_bare(v: OverlaysView) -> bool {
    !v.help && !v.about && !v.settings_open && !v.palette_open && !v.search_open && v.pending_close
        is None
}

/// Without an overlay a command does what it says, with what it was given, and the overlays stay
/// closed; text is typed as it is.
#[verifier::rlimit(40)]
pub proof fn law_commands_do_what_they_say(
    v: OverlaysView,
    msg: MsgView,
    rows: Seq<RowKind>,
    scene: ControlScene,
    w: OverlaysView,
    a: ControlAction,
)
    requires
        is_bare(v),
        commands(v, msg, rows, scene, w, a),
    ensures
        msg !is About && msg !is Settings ==> w == v,
        msg is About ==> w == (OverlaysView { about: true, ..v }) && a is Refresh,
        msg is Settings ==> w.settings_open && !w.about && !w.help && a is Refresh,
        msg matches MsgView::Type(t) ==> (a matches ControlAction::Input(b) && b@ == encode_utf8(t)),
        msg is Raise ==> a is Raise,
        msg matches MsgView::Screenshot(p) ==> (a matches ControlAction::Screenshot(q) && q@ == p),
        msg matches MsgView::Click(x, y) ==> a == ControlAction::Click(x, y),
        msg is Copy ==> a is Copy,
        msg matches MsgView::Paste(t) ==> (a matches ControlAction::Paste(u) && u@ == t),
        msg is Fps ==> a is ToggleFps,
        msg matches MsgView::Scroll(s) ==> a == ControlAction::Scroll(s),
        msg matches MsgView::Bell(t) ==> a == ControlAction::Bell(t),
        msg matches MsgView::ReorderTab(x, y) ==> a == ControlAction::ReorderTab(x, y),
        msg matches MsgView::RenameTab(i, t) ==> (a matches ControlAction::RenameTab(j, u) && j == i
            && u@ == t),
        msg matches MsgView::EditTab(i) ==> a == ControlAction::EditTab(i),
        msg matches MsgView::Select(r1, c1, r2, c2, mode) ==> (a matches ControlAction::Select {
            from,
            to,
            mode: m,
        } && from == (r1, c1) && to == (r2, c2) && (m is Word <==> mode == "word"@) && (m is Line
            <==> mode == "line"@)),
{
    reveal_strlit("word");
    reveal_strlit("line");
    assert("word"@[0] != "line"@[0]);
}

/// The commands that show an overlay hide it again the second time.
pub proof fn law_overlay_commands_toggle(v: OverlaysView, rows: Seq<RowKind>, scene: ControlScene, w: OverlaysView, a: ControlAction)
    requires
        v.pending_close is None,
    ensures
        v.about && commands(v, MsgView::About, rows, scene, w, a) ==> w == (OverlaysView {
            about: false,
            ..v
        }) && a is Refresh,
        v.settings_open && commands(v, MsgView::Settings, rows, scene, w, a) ==> w == (
        OverlaysView { settings_open: false, ..v }) && a is Refresh,
{
}

/// Input while the sheet of shortcuts or the about box is shown hides it and does nothing else.
pub proof fn law_input_hides_the_sheet(v: OverlaysView, msg: MsgView, rows: Seq<RowKind>, scene: ControlScene, w: OverlaysView, a: ControlAction)
    requires
        v.pending_close is None && !v.palette_open && !v.search_open && !v.settings_open,
        v.help || v.about,
        msg is Type || msg is Key || msg is Chord,
        commands(v, msg, rows, scene, w, a),
    ensures
        a is Refresh,
        !w.help && !w.about,
{
}

/// A question before closing is answered by name: Escape drops it, Enter or Return takes the
/// button in focus, an arrow or Tab moves the focus to the other button; other keys do nothing.
pub proof fn law_questions_are_answered_by_name(v: OverlaysView, name: Seq<char>, rows: Seq<RowKind>, scene: ControlScene, w: OverlaysView, a: ControlAction)
    requires
        v.pending_close is Some && !v.palette_open && !v.search_open && !v.settings_open,
        v.confirm_focus <= 1,
        commands(v, MsgView::Key(name), rows, scene, w, a),
    ensures
        name == "Escape"@ ==> w.pending_close is None && a is Refresh,
        name == "Enter"@ || name == "Return"@ ==> w.pending_close is None && (v.confirm_focus == 1
            ==> a == ControlAction::Close(v.pending_close->0)) && (v.confirm_focus == 0 ==> a
            is Refresh),
        name == "ArrowLeft"@ || name == "ArrowRight"@ || name == "Tab"@ ==> w.pending_close
            == v.pending_close && w.confirm_focus + v.confirm_focus == 1 && a is Refresh,
        name != "Escape"@ && name != "Enter"@ && name != "Return"@ && name != "ArrowLeft"@ && name
            != "ArrowRight"@ && name != "Tab"@ ==> w == v && a is Nothing,
{
    reveal_strlit("Escape");
    reveal_strlit("Enter");
    reveal_strlit("Return");
    reveal_strlit("ArrowLeft");
    reveal_strlit("ArrowRight");
    reveal_strlit("Tab");
    assert("Escape"@[0] != "Return"@[0]);
}

/// A chord runs its shortcut where Command is held and types its key where not; a name that is no
/// chord does nothing.
pub proof fn law_chords_run_their_shortcuts(v: OverlaysView, combo: Seq<char>, key: KeyView, mods: Mods, rows: Seq<RowKind>, scene: ControlScene, w: OverlaysView, a: ControlAction)
    requires
        is_bare(v),
        !scene.linux,
        commands(v, MsgView::Chord(combo), rows, scene, w, a),
    ensures
        chord(combo) is None ==> a is Nothing,
        chord(combo) == Some((key, mods)) && mods.sup ==> match shortcut_of(key, mods) {
            Some(c) => a == ControlAction::Shortcut(c),
            None => a is Nothing,
        },
        chord(combo) == Some((key, mods)) && !mods.sup ==> match key_text(
            key,
            mods,
            scene.app_cursor,
            false,
        ) {
            Some(t) => a matches ControlAction::Input(b) && b@ == encode_utf8(t),
            None => a is Nothing,
        },
{
}

/// On Linux a chord that stands for a tab shows it, and one that stands for a Command chord runs
/// that one's shortcut.
pub proof fn law_linux_chords_run_their_shortcuts(v: OverlaysView, combo: Seq<char>, key: KeyView, mods: Mods, rows: Seq<RowKind>, scene: ControlScene, w: OverlaysView, a: ControlAction, n: usize, k: KeyView, m: Mods, c: Shortcut)
    requires
        is_bare(v),
        scene.linux,
        commands(v, MsgView::Chord(combo), rows, scene, w, a),
        chord(combo) == Some((key, mods)),
    ensures
        digit_tab(key, mods) == Some(n) ==> a == ControlAction::SelectTab(n),
        digit_tab(key, mods) is None && linux_chord(key, mods) == Some((k, m)) && shortcut_of(k, m)
            == Some(c) ==> a == ControlAction::Shortcut(c),
{
}

/// The keys of the settings: the vertical arrows choose, the horizontal ones and the space bar
/// change, up to the right, and Escape closes; the others do nothing.
pub proof fn law_settings_keys(v: OverlaysView, key: crate::keys::NamedKey, rows: Seq<RowKind>, w: OverlaysView, step: SettingsStep)
    requires
        sets(v, KeyView::Named(key), rows, w, step),
    ensures
        key is Escape ==> step == SettingsStep::Closed && w == (OverlaysView {
            settings_open: false,
            ..v
        }),
        key is ArrowRight || key is Space ==> step == (SettingsStep::Adjust { up: true }) && w == v,
        key is ArrowLeft ==> step == (SettingsStep::Adjust { up: false }) && w == v,
        key is ArrowUp || key is ArrowDown ==> step == SettingsStep::Refresh && w.settings_open
            == v.settings_open,
        key !is Escape && key !is ArrowRight && key !is Space && key !is ArrowLeft && key
            !is ArrowUp && key !is ArrowDown ==> step == SettingsStep::Refresh && w == v,
{
}

/// The commands that change several windows wait until all are free, with what they were given
/// and who is to be answered; the others are carried out at once, as they came.
pub proof fn law_commands_are_sorted(msg: ControlMsg, focused: WindowId, cwd: Option<Seq<char>>, ticket: u64, r: Sorted)
    requires
        sorted(msg@, focused, cwd, ticket, r),
    ensures
        msg is NewWindow ==> (r matches Sorted::Later(DeferredWindowAction::OpenNew(d)) && opt_text(
            d,
        ) == cwd),
        msg matches ControlMsg::MoveTab(t) ==> r == Sorted::Later(
            DeferredWindowAction::Move(focused, DeferredMoveOp::MoveTab(t), Some(ticket)),
        ),
        msg matches ControlMsg::PromotePane(t) ==> r == Sorted::Later(
            DeferredWindowAction::Move(focused, DeferredMoveOp::PromotePane(t), Some(ticket)),
        ),
        msg is MergeTab ==> r == Sorted::Later(
            DeferredWindowAction::Move(focused, DeferredMoveOp::MergeTab, Some(ticket)),
        ),
        msg is State ==> r == Sorted::Later(DeferredWindowAction::State(ticket)),
        msg matches ControlMsg::Focus(q) ==> (r matches Sorted::Later(
            DeferredWindowAction::Focus(p, t),
        ) && p@ == q@ && t == ticket),
        msg matches ControlMsg::Drag { x1, y1, x2, y2, steps, mods, cancel } ==> (r
            matches Sorted::Later(
            DeferredWindowAction::Drag {
                window,
                x1: a1,
                y1: b1,
                x2: a2,
                y2: b2,
                steps: n,
                mods: m,
                cancel: c,
                paced_ms,
                reply,
            },
        ) && window == focused && a1 == x1 && b1 == y1 && a2 == x2 && b2 == y2 && n == steps && m@
            == mods@ && c == cancel && paced_ms is None && reply == ticket),
        msg is Type || msg is Key || msg is Chord || msg is Raise || msg is Screenshot || msg
            is Click || msg is About || msg is Settings || msg is Select || msg is Copy || msg
            is Paste || msg is Fps || msg is Bell || msg is ReorderTab || msg is RenameTab || msg
            is EditTab || msg is Scroll ==> (r matches Sorted::Now(m) && m@ == msg@),
{
}

/// Each item of the menu does what it is named for.
pub proof fn law_menu_items_do_what_they_say(item: MenuAction, r: MenuStep)
    requires
        call_ensures(menu_step, (item,), r),
    ensures
        item is ShowShortcuts ==> r is ToggleHelp,
        item is About ==> r is ToggleAbout,
        item is Settings ==> r is ToggleSettings,
        item is NewTab ==> r is NewTab,
        item is NewWindow ==> r is OpenWindow,
        item is Copy ==> r is Copy,
        item is Paste ==> r is Paste,
        item is Close ==> r == MenuStep::RequestClose(PendingClose::Pane),
        item is Quit ==> r == MenuStep::RequestClose(PendingClose::Quit),
        item is MoveTabToNewWindow ==> r == MenuStep::Move(
            DeferredMoveOp::MoveTab(MoveTabTarget::New),
        ),
        item is MoveTabToNextWindow ==> r == MenuStep::Move(
            DeferredMoveOp::MoveTab(MoveTabTarget::Next),
        ),
        item is MoveTabToPrevWindow ==> r == MenuStep::Move(
            DeferredMoveOp::MoveTab(MoveTabTarget::Prev),
        ),
        item is PromotePaneToTab ==> r == MenuStep::Move(
            DeferredMoveOp::PromotePane(PromotePaneTarget::Tab),
        ),
        item is PromotePaneToWindow ==> r == MenuStep::Move(
            DeferredMoveOp::PromotePane(PromotePaneTarget::Window),
        ),
        item is MergeTabIntoPrevious ==> r == MenuStep::Move(DeferredMoveOp::MergeTab),
{
}

/// A move that waited is worked out for the window as it is now: the tab on show, its focused
/// pane, and the tab before it. Where the window is gone it is refused.
#[verifier::rlimit(40)]
pub proof fn law_moves_are_of_the_tab_on_show(order: Seq<WindowId>, at: usize, w: SourceWindow, t: MoveTabTarget, p: PromotePaneTarget, op: DeferredMoveOp)
    requires
        at < order.len() <= usize::MAX,
        order.no_duplicates(),
    ensures
        ({
            let id = order[at as int];
            let n = order.len();
            &&& resolved(order, id, Some(w), DeferredMoveOp::MoveTab(MoveTabTarget::New))
                == MoveBuild::Move(
                SurfaceRef::Tab { window: at, tab: w.active },
                SurfaceDest::NewWindow,
            )
            &&& t matches MoveTabTarget::Window(k) ==> {
                &&& 1 <= k <= n ==> resolved(order, id, Some(w), DeferredMoveOp::MoveTab(t))
                    == MoveBuild::Move(
                    SurfaceRef::Tab { window: at, tab: w.active },
                    SurfaceDest::NewTab { window: (k - 1) as usize },
                )
                &&& k < 1 || k > n ==> resolved(order, id, Some(w), DeferredMoveOp::MoveTab(t))
                    is Refuse
            }
            &&& n >= 2 ==> resolved(
                order,
                id,
                Some(w),
                DeferredMoveOp::MoveTab(MoveTabTarget::Next),
            ) == MoveBuild::Move(
                SurfaceRef::Tab { window: at, tab: w.active },
                SurfaceDest::NewTab {
                    window: (if at + 1 == n { 0 } else { at + 1 }) as usize,
                },
            )
            &&& n >= 2 ==> resolved(
                order,
                id,
                Some(w),
                DeferredMoveOp::MoveTab(MoveTabTarget::Prev),
            ) == MoveBuild::Move(
                SurfaceRef::Tab { window: at, tab: w.active },
                SurfaceDest::NewTab {
                    window: (if at == 0 { n - 1 } else { at - 1 }) as usize,
                },
            )
            &&& n < 2 && (t is Next || t is Prev) ==> resolved(
                order,
                id,
                Some(w),
                DeferredMoveOp::MoveTab(t),
            ) is Refuse
            &&& resolved(order, id, Some(w), DeferredMoveOp::PromotePane(p)) == MoveBuild::Move(
                SurfaceRef::Pane { window: at, tab: w.active, pane: w.focus },
                match p {
                    PromotePaneTarget::Tab => SurfaceDest::NewTab { window: at },
                    PromotePaneTarget::Window => SurfaceDest::NewWindow,
                },
            )
            &&& w.prev_focus matches Some(pane) ==> resolved(
                order,
                id,
                Some(w),
                DeferredMoveOp::MergeTab,
            ) == MoveBuild::Move(
                SurfaceRef::Tab { window: at, tab: w.active },
                SurfaceDest::SplitInto {
                    window: at,
                    tab: (w.active - 1) as usize,
                    pane,
                    axis: crate::layout::Axis::Horizontal,
                    before: false,
                },
            )
            &&& w.prev_focus is None ==> resolved(order, id, Some(w), DeferredMoveOp::MergeTab)
                is Refuse
            &&& resolved(order, id, None, op) is Refuse
        }),
{
    let id = order[at as int];
    let n = order.len() as int;
    crate::layout::lemma_first_index(order, id);
    assert(order.contains(order[at as int]));
    if n >= 2 {
        let k = at as int;
        assert((k + 1) % n == if k + 1 == n { 0 } else { k + 1 }) by (nonlinear_arith)
            requires
                0 <= k < n,
                n >= 2,
        ;
        assert((k + n - 1) % n == if k == 0 { n - 1 } else { k - 1 }) by (nonlinear_arith)
            requires
                0 <= k < n,
                n >= 2,
        ;
    }
}

/// The replies to moves and drags. A move says `ok` or why not. A drag is refused for an unknown
/// window before a running replay before a drag under way; it has at least one step. A move that
/// was refused after all counts as given up.
pub proof fn law_drags_and_moves_are_answered(known: bool, paced: bool, dragging: bool, steps: usize, r: Result<usize, String>, e: Seq<char>, released: DragEnded, o: DragEnded, moved: bool)
    ensures
        move_reply_text(None) == "{\"ok\":true}"@,
        move_reply_text(Some(e)) == json_rendered(failure(e)),
        !known ==> drag_refused(known, paced, dragging) == Some("window not tracked"@),
        known && paced ==> drag_refused(known, paced, dragging) == Some(
            "a paced drag is already running"@,
        ),
        known && !paced && dragging ==> drag_refused(known, paced, dragging) == Some(
            "a drag is already in progress"@,
        ),
        known && !paced && !dragging ==> drag_refused(known, paced, dragging) is None,
        call_ensures(check_drag, (known, paced, dragging, steps), r) ==> {
            &&& r is Ok <==> known && !paced && !dragging
            &&& r is Ok && steps >= 1 ==> r->Ok_0 == steps
            &&& r is Ok && steps == 0 ==> r->Ok_0 == 1
        },
        call_ensures(drag_outcome, (released, None), o) ==> o == released,
        call_ensures(drag_outcome, (released, Some(moved)), o) ==> (o == DragEnded::Move <==> moved)
            && (o == DragEnded::Cancel <==> !moved),
{
}

/// The report of a drag says what it came to, whether it was under way, and why a move failed.
pub proof fn law_drags_are_reported(ended: DragEnded, under_way: bool, e: Seq<char>)
    ensures
        drag_report(ended, under_way, Some(e)) matches JsonView::Object(m) && m["ok"@]
            == JsonView::Bool(true) && m["drag_ended"@] == JsonView::Text(ended.spec_str())
            && m["drag_active_mid"@] == JsonView::Bool(under_way) && m.contains_key("error"@)
            && m["error"@] == JsonView::Text(e),
        drag_report(ended, under_way, None) matches JsonView::Object(m) && m["ok"@]
            == JsonView::Bool(true) && m["drag_ended"@] == JsonView::Text(ended.spec_str())
            && m["drag_active_mid"@] == JsonView::Bool(under_way) && !m.contains_key("error"@),
{
    reveal_strlit("ok");
    reveal_strlit("drag_ended");
    reveal_strlit("drag_active_mid");
    reveal_strlit("error");
    assert("ok"@.len() == 2 && "drag_ended"@.len() == 10 && "drag_active_mid"@.len() == 15
        && "error"@.len() == 5);
}

} // verus!
