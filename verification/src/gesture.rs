//! Presses, holds and clicks of the pointer in one window.
//!
//! Moments and spans are in nanoseconds of one steady clock.

use vstd::prelude::*;
use crate::drag::{
    carried_by, carried_title, drop_outcome, is_fresh, resolve_drag_drop, shown_after_tear_off,
    start_pane_drag, tear_off_tab, window_number, DragEnded, DragState, DropOutcome,
};
use crate::keys::Mods;
use crate::layout::{Axis, PaneId, SessionId, TabId, WindowId, WindowTree};
use crate::selection::SelectionMode;
use crate::windows::SurfaceRef;
use crate::titles::{is_openable, url_is_openable};

verus! {

/// How long a press lasts before the ring starts.
pub const HOLD_ARM: u64 = 300_000_000;

/// How long the ring takes to close.
pub const HOLD_SWEEP: u64 = 600_000_000;

/// How far the pointer may stray, in pixels, before the ring starts.
pub const HOLD_TOLERANCE_PX: u32 = 12;

/// How far the pointer may stray, in pixels, while the ring closes.
pub const HOLD_SWEEP_TOLERANCE_PX: u32 = 28;

/// How long a drag dwells on a chip before its tab is shown.
pub const SPRING_LOAD: u64 = 150_000_000;

/// How long a carried surface takes to shrink away.
pub const SUCK_IN: u64 = 150_000_000;

/// How long a dropped surface takes to grow back.
pub const POUR_OUT: u64 = 200_000_000;

/// The span between two frames of an animation.
pub const FRAME: u64 = 16_000_000;

/// Clicks closer together than this count as one gesture.
pub const MULTI_CLICK: u64 = 400_000_000;

/// The time from `since` to `now`; none where `since` lies ahead.
pub open spec fn span(since: u64, now: u64) -> int {
    if now > since {
        now - since
    } else {
        0
    }
}

/// The time from `since` to `now`; none where `since` lies ahead.
pub fn elapsed(since: u64, now: u64) -> (r: u64)
    ensures
        r == span(since, now),
{
    now.saturating_sub(since)
}

// ---- press and hold --------------------------------------------------------

/// What is being held.
#[derive(Clone, Copy, Debug, PartialEq, Eq, Structural)]
pub enum HoldTarget {
    Pane(PaneId),
    Tab(usize),
}

/// A press that may become a drag by being held.
#[derive(Clone, Copy, Debug, PartialEq, Eq, Structural)]
pub struct Hold {
    pub target: HoldTarget,
    pub started: u64,
}

/// How far a hold has come.
#[derive(Clone, Copy, Debug, PartialEq, Eq, Structural)]
pub enum HoldTick {
    Idle,
    /// The ring starts at this moment.
    Waiting(u64),
    /// The ring has been closing for this long.
    Sweeping(u64),
    /// The ring is closed: the target is carried from now on.
    Completed(HoldTarget),
}

/// How far a hold has come at `now`.
pub open spec fn hold_at(hold: Option<Hold>, now: u64) -> HoldTick {
    match hold {
        None => HoldTick::Idle,
        Some(h) => if now < h.started + HOLD_ARM {
            HoldTick::Waiting((h.started + HOLD_ARM) as u64)
        } else if now < h.started + HOLD_ARM + HOLD_SWEEP {
            HoldTick::Sweeping((now - h.started - HOLD_ARM) as u64)
        } else {
            HoldTick::Completed(h.target)
        },
    }
}

/// Advances a hold; it is over once the ring is closed.
pub fn tick_hold(hold: &mut Option<Hold>, now: u64) -> (r: HoldTick)
    requires
        *old(hold) matches Some(h) ==> h.started <= u64::MAX - HOLD_ARM,
    ensures
        r == hold_at(*old(hold), now),
        *final(hold) == (if r is Completed { None } else { *old(hold) }),
{
    let h = match hold {
        Some(h) => *h,
        None => return HoldTick::Idle,
    };
    let armed_at: u64 = h.started + HOLD_ARM;
    if now < armed_at {
        return HoldTick::Waiting(armed_at);
    }
    let gone: u64 = now - armed_at;
    if gone >= HOLD_SWEEP {
        *hold = None;
        return HoldTick::Completed(h.target);
    }
    HoldTick::Sweeping(gone)
}

/// How far the pointer may stray from where it was pressed, in pixels.
pub fn hold_leash(hold: &Hold, now: u64) -> (r: u32)
    ensures
        r == (if span(hold.started, now) >= HOLD_ARM {
            HOLD_SWEEP_TOLERANCE_PX
        } else {
            HOLD_TOLERANCE_PX
        }),
{
    if elapsed(hold.started, now) >= HOLD_ARM {
        HOLD_SWEEP_TOLERANCE_PX
    } else {
        HOLD_TOLERANCE_PX
    }
}

/// A hold completes exactly when it has lasted for both spans, and goes through its stages in
/// order.
pub proof fn law_hold_completes_after_both_spans(h: Hold, now: u64, later: u64)
    requires
        now <= later,
    ensures
        hold_at(Some(h), now) is Completed <==> now >= h.started + HOLD_ARM + HOLD_SWEEP,
        hold_at(Some(h), now) is Completed ==> hold_at(Some(h), later) is Completed,
        hold_at(Some(h), now) is Sweeping ==> !(hold_at(Some(h), later) is Waiting),
{
}

// ---- shrinking and growing -------------------------------------------------

/// A surface that is seen to shrink or grow.
#[derive(Clone, Copy, Debug, PartialEq, Eq, Structural)]
pub struct Morph {
    pub started: u64,
    pub duration: u64,
    /// Shrinking, as opposed to growing.
    pub inward: bool,
}

/// Begins to shrink or grow a surface. Nothing is seen where the wisp is off or motion is reduced.
pub fn start_morph(wisp: bool, reduce_motion: bool, inward: bool, now: u64) -> (r: Option<Morph>)
    ensures
        r == (if wisp && !reduce_motion {
            Some(
                Morph {
                    started: now,
                    duration: if inward { SUCK_IN } else { POUR_OUT },
                    inward,
                },
            )
        } else {
            None
        }),
{
    if !wisp || reduce_motion {
        return None;
    }
    Some(
        Morph {
            started: now,
            duration: if inward {
                SUCK_IN
            } else {
                POUR_OUT
            },
            inward,
        },
    )
}

/// What is seen of a morph.
#[derive(Clone, Copy, Debug, PartialEq, Eq, Structural)]
pub enum MorphTick {
    Idle,
    /// It has run for `gone`; the next frame is due at `next`.
    Running { gone: u64, next: u64 },
}

/// Advances a morph; it ends by itself once its time is over.
pub fn tick_morph(morph: &mut Option<Morph>, now: u64) -> (r: MorphTick)
    requires
        now <= u64::MAX - FRAME,
    ensures
        match *old(morph) {
            Some(m) if span(m.started, now) < m.duration => {
                &&& r == (MorphTick::Running {
                    gone: span(m.started, now) as u64,
                    next: (now + FRAME) as u64,
                })
                &&& *final(morph) == *old(morph)
            },
            _ => r == MorphTick::Idle && *final(morph) is None,
        },
{
    let m = match morph {
        Some(m) => *m,
        None => return MorphTick::Idle,
    };
    let gone: u64 = elapsed(m.started, now);
    if gone >= m.duration {
        *morph = None;
        return MorphTick::Idle;
    }
    MorphTick::Running { gone, next: now + FRAME }
}

// ---- dwelling on a chip ----------------------------------------------------

/// Notes the chip that a drag is over: the time runs on while it is the same one.
pub fn note_spring_hover(spring: &mut Option<(usize, u64)>, chip: Option<usize>, now: u64)
    ensures
        *final(spring) == (match chip {
            None => None,
            Some(c) => match *old(spring) {
                Some((cur, since)) if cur == c => Some((cur, since)),
                _ => Some((c, now)),
            },
        }),
{
    let same = match (chip, &*spring) {
        (Some(c), Some((cur, _))) => c == *cur,
        _ => false,
    };
    if !same {
        *spring = match chip {
            Some(c) => Some((c, now)),
            None => None,
        };
    }
}

/// What dwelling on a chip has come to.
#[derive(Clone, Copy, Debug, PartialEq, Eq, Structural)]
pub enum SpringTick {
    Idle,
    /// The tab is shown at this moment.
    Waiting(u64),
    /// This tab is shown now.
    Show(usize),
}

/// Advances the dwelling: once it has lasted, the tab is shown, unless it is shown already or is
/// gone.
pub fn tick_spring_load(spring: &mut Option<(usize, u64)>, now: u64, active: usize, n_tabs: usize) -> (r: SpringTick)
    requires
        *old(spring) matches Some((_, since)) ==> since <= u64::MAX - SPRING_LOAD,
    ensures
        match *old(spring) {
            None => r == SpringTick::Idle && *final(spring) is None,
            Some((chip, since)) => if now < since + SPRING_LOAD {
                &&& r == SpringTick::Waiting((since + SPRING_LOAD) as u64)
                &&& *final(spring) == *old(spring)
            } else {
                &&& r == (if chip != active && chip < n_tabs {
                    SpringTick::Show(chip)
                } else {
                    SpringTick::Idle
                })
                &&& *final(spring) is None
            },
        },
{
    let (chip, since) = match spring {
        Some((chip, since)) => (*chip, *since),
        None => return SpringTick::Idle,
    };
    let deadline: u64 = since + SPRING_LOAD;
    if now < deadline {
        return SpringTick::Waiting(deadline);
    }
    *spring = None;
    if chip != active && chip < n_tabs {
        SpringTick::Show(chip)
    } else {
        SpringTick::Idle
    }
}

// ---- a tab that is dragged in its strip ------------------------------------

/// A pressed tab that may be dragged.
#[derive(Clone, Copy, Debug, PartialEq, Eq, Structural)]
pub struct TabDrag {
    /// The place of the tab, which follows it as it is reordered.
    pub tab: usize,
    /// The pointer has gone far enough for a drag.
    pub active: bool,
    /// The tab that was active before the press.
    pub origin_tab: TabId,
}

/// What a motion makes of a pressed tab.
#[derive(Clone, Copy, Debug, PartialEq, Eq, Structural)]
pub enum TabDragStep {
    /// Not far enough for a drag.
    Ignore,
    /// The tab stays in the strip and is reordered.
    Reorder,
    /// The tab leaves the strip.
    TearOff { tab: usize, origin_tab: TabId },
}

/// Moves a pressed tab: `far` tells that the pointer is past the threshold for a drag, `below`
/// that it has left the strip.
pub fn update_drag(tab_drag: &mut TabDrag, far: bool, below: bool) -> (r: TabDragStep)
    ensures
        final(tab_drag).active == (old(tab_drag).active || far),
        final(tab_drag).tab == old(tab_drag).tab,
        final(tab_drag).origin_tab == old(tab_drag).origin_tab,
        r == (if !old(tab_drag).active && !far {
            TabDragStep::Ignore
        } else if below {
            TabDragStep::TearOff { tab: old(tab_drag).tab, origin_tab: old(tab_drag).origin_tab }
        } else {
            TabDragStep::Reorder
        }),
{
    if !tab_drag.active {
        if !far {
            return TabDragStep::Ignore;
        }
        tab_drag.active = true;
    }
    if below {
        TabDragStep::TearOff { tab: tab_drag.tab, origin_tab: tab_drag.origin_tab }
    } else {
        TabDragStep::Reorder
    }
}

/// Puts a dragged tab at the place under the pointer. The result is the exchange to carry out.
pub fn drag_tab_to(tab_drag: &mut TabDrag, slot: Option<usize>) -> (r: Option<(usize, usize)>)
    ensures
        match slot {
            Some(to) if to != old(tab_drag).tab => {
                &&& r == Some((old(tab_drag).tab, to))
                &&& *final(tab_drag) == (TabDrag { tab: to, ..*old(tab_drag) })
            },
            _ => r is None && *final(tab_drag) == *old(tab_drag),
        },
{
    let from: usize = tab_drag.tab;
    match slot {
        Some(to) => {
            if to != from {
                tab_drag.tab = to;
                Some((from, to))
            } else {
                None
            }
        },
        None => None,
    }
}

// ---- clicking --------------------------------------------------------------

/// A part of the tab strip that can be clicked.
#[derive(Clone, Copy, Debug, PartialEq, Eq, Structural)]
pub enum TabHit {
    Tab(usize),
    CloseTab(usize),
    NewTab,
    Help,
    Settings,
}

/// A link under the pointer, with the cell that the pointer is over.
#[derive(Debug, PartialEq, Eq)]
pub struct LinkAt {
    pub session: SessionId,
    pub id: u32,
    pub url: String,
    pub row: u16,
    pub col: u16,
}

/// The link and the cell that were pressed.
#[derive(Debug, PartialEq, Eq)]
pub struct PressedLink {
    pub session: SessionId,
    pub id: u32,
    pub row: u16,
    pub col: u16,
}

impl PressedLink {
    pub open spec fn spec_is(self, l: LinkAt) -> bool {
        self.session@ == l.session@ && self.id == l.id && self.row == l.row && self.col == l.col
    }
}

/// What the pointer is doing in a window.
#[derive(Debug, PartialEq, Eq)]
pub struct Pointer {
    pub hold: Option<Hold>,
    pub tab_drag: Option<TabDrag>,
    pub selecting: bool,
    /// The pane whose scrollbar is held.
    pub scrollbar: Option<SessionId>,
    /// A divider between panes is held.
    pub divider: bool,
    pub pressed_link: Option<PressedLink>,
    /// When which tab was last clicked.
    pub last_tab_click: Option<(u64, usize)>,
}

/// What a click hit.
#[derive(Debug, PartialEq, Eq)]
pub struct ClickHits {
    pub tab: Option<TabHit>,
    pub scrollbar: Option<SessionId>,
    pub link: Option<LinkAt>,
    /// The program in the pane of the link wants the mouse for itself.
    pub link_claimed: bool,
    pub pane: Option<PaneId>,
}

/// What a click does.
#[derive(Debug, PartialEq, Eq)]
pub enum ClickAction {
    Nothing,
    RenameTab(usize),
    /// Shows the tab; a drag may follow.
    SelectTab(usize),
    CloseTab(TabId),
    NewTab,
    ToggleHelp,
    ToggleSettings,
    /// Scrolls to where the scrollbar was pressed.
    GrabScrollbar(SessionId),
    /// The press belongs to a link; the program in the pane does not see it.
    PressLink,
    DragPane(PaneId),
    /// The program in the pane gets the click if it wants it; else text is selected.
    PaneBody,
}

/// Whether the chord that drags a pane is held: Command and Option on a Mac; Control, Alt and
/// Shift elsewhere.
pub open spec fn is_pane_drag_chord(mods: Mods, mac: bool) -> bool {
    if mac {
        mods.sup && mods.alt
    } else {
        mods.ctrl && mods.alt && mods.shift
    }
}

/// Whether the chord that drags a pane is held.
pub fn pane_drag_modifier_held(mods: Mods, mac: bool) -> (r: bool)
    ensures
        r == is_pane_drag_chord(mods, mac),
{
    if mac {
        mods.sup && mods.alt
    } else {
        mods.ctrl && mods.alt && mods.shift
    }
}

/// Whether the chord that splits panes with the pointer is held.
pub fn split_modifier_held(mods: Mods) -> (r: bool)
    ensures
        r == (mods.ctrl && mods.alt),
{
    mods.ctrl && mods.alt
}

/// Whether the key that opens links is held: Command on a Mac, Control elsewhere.
pub fn open_modifier_held(mods: Mods, mac: bool) -> (r: bool)
    ensures
        r == (if mac { mods.sup } else { mods.ctrl }),
{
    if mac {
        mods.sup
    } else {
        mods.ctrl
    }
}

/// Whether a link under the pointer counts. A program that takes the mouse keeps its clicks,
/// unless the key that opens links is held.
pub fn link_under_cursor(link: Option<LinkAt>, mouse_reporting: bool, mods: Mods, mac: bool) -> (r: Option<LinkAt>)
    ensures
        r == (if mouse_reporting && !(if mac { mods.sup } else { mods.ctrl }) {
            None
        } else {
            link
        }),
{
    if mouse_reporting && !open_modifier_held(mods, mac) {
        None
    } else {
        link
    }
}

/// A second click on the same tab soon after the first, which did not end a renaming.
pub open spec fn is_double(last: Option<(u64, usize)>, i: usize, now: u64, was_editing: bool) -> bool {
    !was_editing && (last matches Some((t, ti)) && ti == i && span(t, now) < MULTI_CLICK)
}

/// What a click does, by what it hit: the strip comes before the scrollbar, that before a link,
/// that before the pane.
pub open spec fn click_does(p: Pointer, tree: WindowTree, hits: ClickHits, chord: bool, now: u64, was_editing: bool, a: ClickAction) -> bool {
    match hits.tab {
        Some(TabHit::Tab(i)) => if is_double(p.last_tab_click, i, now, was_editing) {
            a == ClickAction::RenameTab(i)
        } else {
            a == ClickAction::SelectTab(i)
        },
        Some(TabHit::CloseTab(i)) => if i < tree.tabs@.len() {
            a == ClickAction::CloseTab(tree.tabs@[i as int].id)
        } else {
            a is Nothing
        },
        Some(TabHit::NewTab) => a is NewTab,
        Some(TabHit::Help) => a is ToggleHelp,
        Some(TabHit::Settings) => a is ToggleSettings,
        None => match hits.scrollbar {
            Some(s) => a matches ClickAction::GrabScrollbar(g) && g@ == s@,
            None => if hits.link is Some && hits.link_claimed {
                a is PressLink
            } else if chord && hits.pane is Some {
                a == ClickAction::DragPane(hits.pane->0)
            } else {
                a is PaneBody
            },
        },
    }
}

/// What a click leaves behind in the pointer's state.
pub open spec fn click_leaves(p: Pointer, tree: WindowTree, hits: ClickHits, now: u64, a: ClickAction, q: Pointer) -> bool {
    &&& q.selecting == p.selecting
    &&& q.divider == p.divider
    &&& q.last_tab_click == (match hits.tab {
        Some(TabHit::Tab(i)) => Some((now, i)),
        _ => p.last_tab_click,
    })
    &&& q.tab_drag == (match a {
        ClickAction::SelectTab(i) => Some(
            TabDrag { tab: i, active: false, origin_tab: tree.tabs@[tree.active as int].id },
        ),
        ClickAction::RenameTab(i) if i < tree.tabs@.len() => None,
        _ => p.tab_drag,
    })
    &&& q.hold == (match a {
        ClickAction::SelectTab(i) => Some(Hold { target: HoldTarget::Tab(i), started: now }),
        ClickAction::PaneBody => match hits.pane {
            Some(pane) => Some(Hold { target: HoldTarget::Pane(pane), started: now }),
            None => p.hold,
        },
        _ => p.hold,
    })
    &&& match a {
        ClickAction::GrabScrollbar(s) => q.scrollbar matches Some(t) && t@ == s@,
        _ => q.scrollbar == p.scrollbar,
    }
    &&& match a {
        ClickAction::PressLink | ClickAction::DragPane(_) | ClickAction::PaneBody => match hits.link {
            Some(l) => q.pressed_link matches Some(k) && k.spec_is(l),
            None => q.pressed_link is None,
        },
        _ => q.pressed_link == p.pressed_link,
    }
}

impl Pointer {
    /// Nothing is in progress.
    pub fn new() -> (r: Pointer)
        ensures
            r == (Pointer {
                hold: None,
                tab_drag: None,
                selecting: false,
                scrollbar: None,
                divider: false,
                pressed_link: None,
                last_tab_click: None,
            }),
    {
        Pointer {
            hold: None,
            tab_drag: None,
            selecting: false,
            scrollbar: None,
            divider: false,
            pressed_link: None,
            last_tab_click: None,
        }
    }

    /// The title of a tab begins to be edited: no tab is dragged any longer. Nothing happens where
    /// there is no such tab.
    pub fn start_rename(&mut self, tree: &WindowTree, i: usize)
        ensures
            *final(self) == (Pointer {
                tab_drag: if i < tree.tabs@.len() {
                    None
                } else {
                    old(self).tab_drag
                },
                ..*old(self)
            }),
    {
        if i < tree.tabs.len() {
            self.tab_drag = None;
        }
    }

    /// A press of the left button, once overlays and previews have had their say. `was_editing`
    /// tells that the press ended the renaming of a tab.
    pub fn left_click(&mut self, tree: &WindowTree, hits: ClickHits, mods: Mods, mac: bool, now: u64, was_editing: bool) -> (r: ClickAction)
        requires
            hits.tab matches Some(TabHit::Tab(_)) ==> tree.active < tree.tabs@.len(),
        ensures
            click_does(
                *old(self),
                *tree,
                hits,
                is_pane_drag_chord(mods, mac),
                now,
                was_editing,
                r,
            ),
            click_leaves(*old(self), *tree, hits, now, r, *final(self)),
    {
        if let Some(hit) = hits.tab {
            match hit {
                TabHit::Tab(i) => {
                    let dbl = match self.last_tab_click {
                        Some((t, ti)) => !was_editing && ti == i && elapsed(t, now) < MULTI_CLICK,
                        None => false,
                    };
                    self.last_tab_click = Some((now, i));
                    if dbl {
                        self.start_rename(tree, i);
                        return ClickAction::RenameTab(i);
                    }
                    let origin_tab = tree.tabs[tree.active].id;
                    self.tab_drag = Some(TabDrag { tab: i, active: false, origin_tab });
                    self.hold = Some(Hold { target: HoldTarget::Tab(i), started: now });
                    return ClickAction::SelectTab(i);
                },
                TabHit::CloseTab(i) => {
                    if i < tree.tabs.len() {
                        return ClickAction::CloseTab(tree.tabs[i].id);
                    }
                    return ClickAction::Nothing;
                },
                TabHit::NewTab => return ClickAction::NewTab,
                TabHit::Help => return ClickAction::ToggleHelp,
                TabHit::Settings => return ClickAction::ToggleSettings,
            }
        }
        if let Some(s) = hits.scrollbar {
            self.scrollbar = Some(s.copy());
            return ClickAction::GrabScrollbar(s);
        }
        let on_link = match &hits.link {
            Some(l) => {
                self.pressed_link = Some(
                    PressedLink { session: l.session.copy(), id: l.id, row: l.row, col: l.col },
                );
                true
            },
            None => {
                self.pressed_link = None;
                false
            },
        };
        if on_link && hits.link_claimed {
            return ClickAction::PressLink;
        }
        if let Some(pane) = hits.pane {
            if pane_drag_modifier_held(mods, mac) {
                return ClickAction::DragPane(pane);
            }
            self.hold = Some(Hold { target: HoldTarget::Pane(pane), started: now });
        }
        ClickAction::PaneBody
    }
}

/// The tab that was active before the press that is held.
pub open spec fn held_origin(p: Pointer, tree: WindowTree) -> TabId {
    match p.tab_drag {
        Some(d) => d.origin_tab,
        None => tree.tabs@[tree.active as int].id,
    }
}

impl Pointer {
    /// Makes a drag of a press that was held: it is carried from the start. A held pane stops
    /// selecting text; a held tab leaves the strip.
    pub fn complete_hold(&mut self, tree: &mut WindowTree, order: &[WindowId], window_id: WindowId, target: HoldTarget) -> (r: DragState)
        requires
            old(tree).active < old(tree).tabs@.len(),
        ensures
            r.carried,
            final(tree).tabs == old(tree).tabs,
            match target {
                HoldTarget::Pane(pane) => {
                    &&& *final(self) == (Pointer { selecting: false, ..*old(self) })
                    &&& final(tree).active == old(tree).active
                    &&& is_fresh(
                        DragState { carried: false, ..r },
                        carried_by(
                            window_number(order@, window_id),
                            old(tree).active,
                            pane,
                            old(tree).tabs@[old(tree).active as int].root.spec_panes().len(),
                        ),
                        window_id,
                        carried_title(*old(tree), old(tree).active as int),
                    )
                },
                HoldTarget::Tab(tab) => {
                    &&& *final(self) == (Pointer { tab_drag: None, ..*old(self) })
                    &&& final(tree).active == shown_after_tear_off(
                        old(tree).spec_tab_ids(),
                        old(tree).active as int,
                        tab as int,
                        held_origin(*old(self), *old(tree)),
                    )
                    &&& is_fresh(
                        DragState { carried: false, ..r },
                        SurfaceRef::Tab { window: window_number(order@, window_id), tab },
                        window_id,
                        carried_title(*old(tree), tab as int),
                    )
                },
            },
    {
        let mut d = match target {
            HoldTarget::Pane(pane) => {
                self.selecting = false;
                start_pane_drag(tree, order, window_id, pane)
            },
            HoldTarget::Tab(tab) => {
                let origin_tab = match self.tab_drag {
                    Some(t) => t.origin_tab,
                    None => tree.tabs[tree.active].id,
                };
                self.tab_drag = None;
                tear_off_tab(tree, order, window_id, tab, origin_tab)
            },
        };
        d.carried = true;
        d
    }
}

// ---- releasing -------------------------------------------------------------

/// What a release of the left button came to.
#[derive(Clone, Copy, Debug, PartialEq, Eq)]
pub struct Release {
    pub ended: DragEnded,
    /// A ring was shown and goes.
    pub hold_over: bool,
    /// What becomes of the surface that was carried.
    pub drop: Option<DropOutcome>,
    /// A chip followed the pointer and goes back.
    pub chip_back: bool,
    pub clear_selection: bool,
}

/// What a release comes to. `empty_click` tells that the selection is a plain click's.
pub open spec fn release_of(p: Pointer, drag: Option<DragState>, order: Seq<WindowId>, window_id: WindowId, n_tabs: nat, empty_click: bool) -> Release {
    let drop = match drag {
        Some(d) => Some(
            drop_outcome(order, window_id, n_tabs, d.surface, d.source_window, d.hover),
        ),
        None => None,
    };
    let of_drag = match drop {
        Some(o) => o.ended,
        None => match p.tab_drag {
            Some(t) if t.active => DragEnded::Reorder,
            _ => DragEnded::Nothing,
        },
    };
    Release {
        ended: if of_drag == DragEnded::Nothing && p.selecting {
            DragEnded::Selection
        } else {
            of_drag
        },
        hold_over: p.hold is Some,
        drop,
        chip_back: drag is None && p.tab_drag is Some,
        clear_selection: p.selecting && empty_click,
    }
}

impl Pointer {
    /// A release of the left button: the drag is resolved, and every gesture of the press ends.
    pub fn left_release(&mut self, drag: &mut Option<DragState>, order: &[WindowId], window_id: WindowId, n_tabs: usize, empty_click: bool) -> (r: Release)
        ensures
            r == release_of(*old(self), *old(drag), order@, window_id, n_tabs as nat, empty_click),
            *final(drag) is None,
            *final(self) == (Pointer {
                hold: None,
                tab_drag: if *old(drag) is Some { old(self).tab_drag } else { None },
                selecting: false,
                scrollbar: None,
                divider: false,
                ..*old(self)
            }),
    {
        let hold_over = self.hold.is_some();
        self.hold = None;
        let mut ended = DragEnded::Nothing;
        let mut drop: Option<DropOutcome> = None;
        let mut chip_back = false;
        match drag.take() {
            Some(d) => {
                let outcome = resolve_drag_drop(order, window_id, n_tabs, &d);
                ended = outcome.ended;
                drop = Some(outcome);
            },
            None => {
                if let Some(t) = self.tab_drag {
                    chip_back = true;
                    if t.active {
                        ended = DragEnded::Reorder;
                    }
                }
                self.tab_drag = None;
            },
        }
        let was_selecting = self.selecting;
        self.selecting = false;
        self.scrollbar = None;
        self.divider = false;
        if was_selecting && ended == DragEnded::Nothing {
            ended = DragEnded::Selection;
        }
        Release { ended, hold_over, drop, chip_back, clear_selection: was_selecting && empty_click }
    }
}

/// What becomes of a link that was pressed.
#[derive(Debug, PartialEq, Eq)]
pub enum LinkOpen {
    Nothing,
    Open(String),
    /// The link is not one that may be opened.
    Refuse,
}

/// Releasing over the same link and cell opens the link, if it may be opened. The press is
/// forgotten.
pub fn release_link(pressed: &mut Option<PressedLink>, now: Option<LinkAt>) -> (r: LinkOpen)
    ensures
        *final(pressed) is None,
        match (*old(pressed), now) {
            (Some(p), Some(l)) if p.spec_is(l) => if is_openable(l.url@) {
                r matches LinkOpen::Open(url) && url@ == l.url@
            } else {
                r is Refuse
            },
            _ => r is Nothing,
        },
{
    match (pressed.take(), now) {
        (Some(p), Some(l)) => {
            if p.session.is(&l.session) && p.id == l.id && p.row == l.row && p.col == l.col {
                if url_is_openable(l.url.as_str()) {
                    LinkOpen::Open(l.url)
                } else {
                    LinkOpen::Refuse
                }
            } else {
                LinkOpen::Nothing
            }
        },
        _ => LinkOpen::Nothing,
    }
}

// ---- counting clicks -------------------------------------------------------

/// Where the last click was, and how many came there in a row.
#[derive(Debug, PartialEq, Eq)]
pub struct Clicks {
    pub last: Option<(u64, SessionId, u16, u16)>,
    pub count: u8,
}

/// The click at `now` goes on from the last one.
pub open spec fn goes_on(c: Clicks, now: u64, session: Seq<char>, row: u16, col: u16) -> bool {
    c.last matches Some((t, s, r, k)) && span(t, now) < MULTI_CLICK && s@ == session && r == row
        && k == col
}

/// How many clicks there are in a row with this one, counted up to three.
pub open spec fn clicks_with(c: Clicks, now: u64, session: Seq<char>, row: u16, col: u16) -> u8 {
    if goes_on(c, now, session, row, col) {
        if c.count < 3 {
            (c.count + 1) as u8
        } else {
            3
        }
    } else {
        1
    }
}

/// One click selects by cells, two by words, three by lines.
pub open spec fn mode_of(count: u8) -> SelectionMode {
    if count == 2 {
        SelectionMode::Word
    } else if count == 3 {
        SelectionMode::Line
    } else {
        SelectionMode::Simple
    }
}

impl Clicks {
    pub fn new() -> (r: Clicks)
        ensures
            r == (Clicks { last: None, count: 0 }),
    {
        Clicks { last: None, count: 0 }
    }

    /// Counts a click on a cell, and tells how it selects.
    pub fn note(&mut self, now: u64, session: &SessionId, row: u16, col: u16) -> (r: SelectionMode)
        ensures
            final(self).count == clicks_with(*old(self), now, session@, row, col),
            final(self).last matches Some((t, s, x, y)) && t == now && s@ == session@ && x == row
                && y == col,
            r == mode_of(final(self).count),
    {
        let same = match &self.last {
            Some((t, s, r, c)) => elapsed(*t, now) < MULTI_CLICK && s.is(session) && *r == row
                && *c == col,
            None => false,
        };
        self.count = if same {
            if self.count < 3 {
                self.count + 1
            } else {
                3
            }
        } else {
            1
        };
        self.last = Some((now, session.copy(), row, col));
        if self.count == 2 {
            SelectionMode::Word
        } else if self.count == 3 {
            SelectionMode::Line
        } else {
            SelectionMode::Simple
        }
    }
}

/// Quick clicks on one cell select by cells, then words, then lines, and stay at lines.
pub proof fn law_clicks_widen_the_selection(c: Clicks, now: u64, session: Seq<char>, row: u16, col: u16)
    requires
        goes_on(c, now, session, row, col),
    ensures
        c.count == 1 ==> mode_of(clicks_with(c, now, session, row, col)) == SelectionMode::Word,
        c.count == 2 ==> mode_of(clicks_with(c, now, session, row, col)) == SelectionMode::Line,
        c.count >= 3 ==> mode_of(clicks_with(c, now, session, row, col)) == SelectionMode::Line,
{
}

// ---- moving ----------------------------------------------------------------

/// What a motion of the pointer is for.
#[derive(Debug, PartialEq, Eq)]
pub enum MotionRoute {
    /// The preview of a split follows the pointer.
    SplitPreview,
    Divider,
    /// A tab or a surface is dragged.
    Drag,
    Scrollbar(SessionId),
    Select,
    /// Nothing is in progress.
    Free,
}

/// What a motion is for: a split preview, then what is held, in this order.
pub open spec fn motion_for(p: Pointer, dragging: bool, split_held: bool, r: MotionRoute) -> bool {
    if split_held {
        r is SplitPreview
    } else if p.divider {
        r is Divider
    } else if p.tab_drag is Some || dragging {
        r is Drag
    } else {
        match p.scrollbar {
            Some(s) => r matches MotionRoute::Scrollbar(t) && t@ == s@,
            None => if p.selecting {
                r is Select
            } else {
                r is Free
            },
        }
    }
}

impl Pointer {
    /// What a motion of the pointer is for.
    pub fn on_cursor_moved(&self, dragging: bool, mods: Mods) -> (r: MotionRoute)
        ensures
            motion_for(*self, dragging, mods.ctrl && mods.alt, r),
    {
        if split_modifier_held(mods) {
            return MotionRoute::SplitPreview;
        }
        if self.divider {
            return MotionRoute::Divider;
        }
        if self.tab_drag.is_some() || dragging {
            return MotionRoute::Drag;
        }
        match &self.scrollbar {
            Some(s) => MotionRoute::Scrollbar(s.copy()),
            None => if self.selecting {
                MotionRoute::Select
            } else {
                MotionRoute::Free
            },
        }
    }

    /// A tab is being dragged, and not only pressed.
    pub fn tab_drag_is_active_drag(&self) -> (r: bool)
        ensures
            r == (self.tab_drag matches Some(t) && t.active),
    {
        match self.tab_drag {
            Some(t) => t.active,
            None => false,
        }
    }
}

/// The shape of the pointer.
#[derive(Clone, Copy, Debug, PartialEq, Eq, Structural)]
pub enum CursorIcon {
    Arrow,
    Hand,
    EwResize,
    NsResize,
}

/// What the pointer shows where nothing is in progress.
#[derive(Clone, Copy, Debug, PartialEq, Eq, Structural)]
pub struct FreeMotion {
    /// The tab that is marked in the strip.
    pub hovered_tab: Option<usize>,
    /// The link under the pointer is marked.
    pub mark_link: bool,
    pub icon: CursorIcon,
    /// The program in the pane may be told.
    pub forward: bool,
}

/// What the pointer shows over the strip, else over a divider, else over a link, else in a pane.
pub fn free_motion(hit: Option<TabHit>, divider: Option<Axis>, link: bool) -> (r: FreeMotion)
    ensures
        r == (FreeMotion {
            hovered_tab: match hit {
                Some(TabHit::Tab(i)) => Some(i),
                Some(TabHit::CloseTab(i)) => Some(i),
                _ => None,
            },
            mark_link: hit is None && divider is None && link,
            icon: if hit is Some {
                CursorIcon::Arrow
            } else {
                match divider {
                    Some(Axis::Horizontal) => CursorIcon::EwResize,
                    Some(Axis::Vertical) => CursorIcon::NsResize,
                    None => if link { CursorIcon::Hand } else { CursorIcon::Arrow },
                }
            },
            forward: hit is None && divider is None,
        }),
{
    let hovered_tab = match hit {
        Some(TabHit::Tab(i)) => Some(i),
        Some(TabHit::CloseTab(i)) => Some(i),
        _ => None,
    };
    if hit.is_some() {
        return FreeMotion { hovered_tab, mark_link: false, icon: CursorIcon::Arrow, forward: false };
    }
    match divider {
        Some(Axis::Horizontal) => FreeMotion {
            hovered_tab,
            mark_link: false,
            icon: CursorIcon::EwResize,
            forward: false,
        },
        Some(Axis::Vertical) => FreeMotion {
            hovered_tab,
            mark_link: false,
            icon: CursorIcon::NsResize,
            forward: false,
        },
        None => FreeMotion {
            hovered_tab,
            mark_link: link,
            icon: if link {
                CursorIcon::Hand
            } else {
                CursorIcon::Arrow
            },
            forward: true,
        },
    }
}

// ---- presses, holds and releases -------------------------------------------

/// A press that stays put shows nothing for 300 milliseconds, then a ring that closes in 600, and
/// is a drag of its own target after that. While the ring closes the pointer may stray further.
pub proof fn law_holds_run_their_course(h: Hold, now: u64, px: u32)
    requires
        h.started <= u64::MAX - 1_000_000_000,
    ensures
        now < h.started + 300_000_000 ==> hold_at(Some(h), now) == HoldTick::Waiting(
            (h.started + 300_000_000) as u64,
        ),
        h.started + 300_000_000 <= now < h.started + 900_000_000 ==> hold_at(Some(h), now)
            == HoldTick::Sweeping((now - h.started - 300_000_000) as u64),
        now >= h.started + 900_000_000 ==> hold_at(Some(h), now) == HoldTick::Completed(h.target),
        hold_at(None, now) == HoldTick::Idle,
        call_ensures(hold_leash, (&h, now), px) ==> (px == 12 <==> now < h.started + 300_000_000)
            && (px == 28 <==> now >= h.started + 300_000_000),
{
}

/// A hold goes when it completes, and stays until then.
pub proof fn law_holds_complete_once(hold: &mut Option<Hold>, now: u64, r: HoldTick)
    requires
        call_ensures(tick_hold, (hold, now), r),
    ensures
        r == hold_at(*old(hold), now),
        r is Completed ==> *final(hold) is None,
        r !is Completed ==> *final(hold) == *old(hold),
{
}

/// A surface shrinks in 150 milliseconds and grows in 200, only where wisps are shown and motion
/// is not reduced; frames follow each other in 16.
pub proof fn law_morphs_run_their_course(wisp: bool, reduce: bool, inward: bool, now: u64, started: Option<Morph>, morph: &mut Option<Morph>, r: MorphTick)
    ensures
        call_ensures(start_morph, (wisp, reduce, inward, now), started) ==> {
            &&& started is Some <==> wisp && !reduce
            &&& started matches Some(m) ==> m.started == now && m.inward == inward && m.duration == (
            if inward {
                150_000_000u64
            } else {
                200_000_000u64
            })
        },
        now <= u64::MAX - 16_000_000 && call_ensures(tick_morph, (morph, now), r) ==> match *old(morph) {
            None => r is Idle && *final(morph) is None,
            Some(m) => if now >= m.started && now - m.started >= m.duration {
                r is Idle && *final(morph) is None
            } else {
                now >= m.started ==> r == (MorphTick::Running {
                    gone: (now - m.started) as u64,
                    next: (now + 16_000_000) as u64,
                }) && *final(morph) == *old(morph)
            },
        },
{
}

/// A chip under a carried surface is shown after 150 milliseconds on it: the clock starts when the
/// pointer comes to it and starts anew on another. The tab on show is not shown again.
pub proof fn law_springs_run_their_course(spring: &mut Option<(usize, u64)>, chip: Option<usize>, now: u64, active: usize, n_tabs: usize, r: SpringTick)
    ensures
        call_ensures(note_spring_hover, (spring, chip, now), ()) ==> {
            &&& chip is None ==> *final(spring) is None
            &&& chip matches Some(c) ==> (*final(spring) matches Some((t, since)) && t == c && (
            match *old(spring) {
                Some((cur, from)) => since == (if cur == c {
                    from
                } else {
                    now
                }),
                None => since == now,
            }))
        },
        call_ensures(tick_spring_load, (spring, now, active, n_tabs), r) ==> match *old(spring) {
            None => r is Idle && *final(spring) is None,
            Some((c, since)) => {
                &&& now < since + 150_000_000 <==> *final(spring) is Some
                &&& now < since + 150_000_000 ==> r == SpringTick::Waiting(
                    (since + 150_000_000) as u64,
                ) && *final(spring) == *old(spring)
                &&& now >= since + 150_000_000 ==> (r == SpringTick::Show(c) <==> c != active && c
                    < n_tabs)
                &&& now >= since + 150_000_000 && (c == active || c >= n_tabs) ==> r is Idle
            },
        },
{
}

/// A dragged tab is ignored until the pointer has gone far enough, is reordered while it stays by
/// the strip and is torn off below it, with the tab that was active before.
pub proof fn law_tab_drags_follow_the_pointer(d: &mut TabDrag, far: bool, below: bool, step: TabDragStep, slot: Option<usize>, swap: Option<(usize, usize)>)
    ensures
        call_ensures(update_drag, (d, far, below), step) ==> {
            &&& final(d).active <==> old(d).active || far
            &&& final(d).tab == old(d).tab && final(d).origin_tab == old(d).origin_tab
            &&& step is Ignore <==> !old(d).active && !far
            &&& (old(d).active || far) && !below ==> step is Reorder
            &&& (old(d).active || far) && below ==> step == (TabDragStep::TearOff {
                tab: old(d).tab,
                origin_tab: old(d).origin_tab,
            })
        },
        call_ensures(drag_tab_to, (d, slot), swap) ==> {
            &&& final(d).active == old(d).active && final(d).origin_tab == old(d).origin_tab
            &&& final(d).tab == (match slot {
                Some(to) => to,
                None => old(d).tab,
            })
            &&& swap == (if final(d).tab == old(d).tab {
                None
            } else {
                Some((old(d).tab, final(d).tab))
            })
        },
{
}

/// The modifiers of the pointer. A pane is dragged with Command and Option on a Mac and with
/// Control, Alt and Shift elsewhere; a link is opened with Command there and with Control here; a
/// split is previewed with Control and Alt.
pub proof fn law_pointer_modifiers(mods: Mods, mac: bool, split: bool, open: bool, link: Option<LinkAt>, reporting: bool, found: Option<LinkAt>)
    ensures
        is_pane_drag_chord(mods, true) <==> mods.sup && mods.alt,
        is_pane_drag_chord(mods, false) <==> mods.ctrl && mods.alt && mods.shift,
        call_ensures(split_modifier_held, (mods,), split) ==> (split <==> mods.ctrl && mods.alt),
        call_ensures(open_modifier_held, (mods, true), open) ==> (open <==> mods.sup),
        call_ensures(open_modifier_held, (mods, false), open) ==> (open <==> mods.ctrl),
        call_ensures(link_under_cursor, (link, reporting, mods, mac), found) ==> {
            &&& !reporting || (mac && mods.sup) || (!mac && mods.ctrl) ==> found == link
            &&& reporting && ((mac && !mods.sup) || (!mac && !mods.ctrl)) ==> found is None
        },
{
}

/// What a click does. On a chip it shows the tab, and a second one within 400 milliseconds on the
/// same chip renames it; on the signs of the strip it does what they stand for; a scrollbar is
/// grabbed; a link that is claimed is pressed; with the chord a pane is dragged; else the click is
/// for the pane.
pub proof fn law_clicks_do_what_is_under_them(p: Pointer, tree: WindowTree, hits: ClickHits, chord: bool, now: u64, was_editing: bool, a: ClickAction)
    requires
        click_does(p, tree, hits, chord, now, was_editing, a),
    ensures
        hits.tab matches Some(TabHit::Tab(i)) ==> {
            &&& was_editing || p.last_tab_click is None ==> a == ClickAction::SelectTab(i)
            &&& p.last_tab_click matches Some((t, k)) ==> {
                &&& k != i ==> a == ClickAction::SelectTab(i)
                &&& now >= t && now - t >= 400_000_000 ==> a == ClickAction::SelectTab(i)
                &&& !was_editing && k == i && now >= t && now - t < 400_000_000 ==> a
                    == ClickAction::RenameTab(i)
            }
        },
        hits.tab matches Some(TabHit::CloseTab(i)) ==> (i < tree.tabs@.len() ==> a
            == ClickAction::CloseTab(tree.tabs@[i as int].id)) && (i >= tree.tabs@.len() ==> a
            is Nothing),
        hits.tab == Some(TabHit::NewTab) ==> a is NewTab,
        hits.tab == Some(TabHit::Help) ==> a is ToggleHelp,
        hits.tab == Some(TabHit::Settings) ==> a is ToggleSettings,
        hits.tab is None ==> {
            &&& hits.scrollbar matches Some(s) ==> (a matches ClickAction::GrabScrollbar(g) && g@
                == s@)
            &&& hits.scrollbar is None && hits.link is Some && hits.link_claimed ==> a is PressLink
            &&& hits.scrollbar is None && !(hits.link is Some && hits.link_claimed) ==> {
                &&& chord && hits.pane is Some ==> a == ClickAction::DragPane(hits.pane->0)
                &&& !chord || hits.pane is None ==> a is PaneBody
            }
        },
{
}

/// What a click leaves behind: a tab that is shown may be dragged and held, and remembers the tab
/// that was on show; a pane may be held; a link is remembered where one was pressed.
pub proof fn law_clicks_leave_their_mark(p: Pointer, tree: WindowTree, hits: ClickHits, now: u64, a: ClickAction, q: Pointer)
    requires
        click_leaves(p, tree, hits, now, a, q),
    ensures
        q.selecting == p.selecting && q.divider == p.divider,
        hits.tab matches Some(TabHit::Tab(i)) ==> q.last_tab_click == Some((now, i)),
        !(hits.tab matches Some(TabHit::Tab(_))) ==> q.last_tab_click == p.last_tab_click,
        a matches ClickAction::SelectTab(i) ==> {
            &&& q.tab_drag == Some(
                TabDrag { tab: i, active: false, origin_tab: tree.tabs@[tree.active as int].id },
            )
            &&& q.hold == Some(Hold { target: HoldTarget::Tab(i), started: now })
        },
        a matches ClickAction::RenameTab(i) ==> (i < tree.tabs@.len() ==> q.tab_drag is None)
            && q.hold == p.hold,
        a is PaneBody ==> {
            &&& hits.pane matches Some(pane) ==> q.hold == Some(
                Hold { target: HoldTarget::Pane(pane), started: now },
            )
            &&& hits.link is None ==> q.pressed_link is None
            &&& hits.link matches Some(l) ==> (q.pressed_link matches Some(k) && k.session@
                == l.session@ && k.id == l.id && k.row == l.row && k.col == l.col)
        },
        a is DragPane || a is PressLink ==> q.hold == p.hold && q.tab_drag == p.tab_drag,
        a matches ClickAction::GrabScrollbar(s) ==> (q.scrollbar matches Some(t) && t@ == s@)
            && q.hold == p.hold,
        a !is GrabScrollbar ==> q.scrollbar == p.scrollbar,
{
}

/// A hold that completes carries its own target: that pane of the tab on show, or its tab where
/// the pane is alone, or that tab; the selection or the drag in the strip ends.
pub proof fn law_completed_holds_carry_their_target(p: &mut Pointer, tree: &mut WindowTree, order: &[WindowId], id: WindowId, target: HoldTarget, r: DragState)
    requires
        call_ensures(Pointer::complete_hold, (p, tree, order, id, target), r),
    ensures
        r.carried && r.source_window == id && r.hover is None && r.last_raised is None,
        final(tree).tabs == old(tree).tabs,
        target matches HoldTarget::Tab(tab) ==> (r.surface matches SurfaceRef::Tab { tab: t, .. }
            && t == tab) && final(p).tab_drag is None,
        target matches HoldTarget::Pane(pane) ==> {
            &&& final(tree).active == old(tree).active && !final(p).selecting
            &&& match r.surface {
                SurfaceRef::Pane { tab, pane: q, .. } => tab == old(tree).active && q == pane,
                SurfaceRef::Tab { tab, .. } => tab == old(tree).active,
            }
            &&& r.surface is Pane <==> old(tree).tabs@[old(tree).active as int].root.spec_panes().len() >= 2
        },
{
}

/// A release ends what was in progress: a surface is dropped, a drag in the strip is a reorder, a
/// selection stays unless it is empty, and nothing is held any more.
pub proof fn law_releases_end_everything(p: &mut Pointer, drag: &mut Option<DragState>, order: &[WindowId], id: WindowId, n: usize, empty: bool, r: Release)
    requires
        call_ensures(Pointer::left_release, (p, drag, order, id, n, empty), r),
    ensures
        *final(drag) is None,
        final(p).hold is None && !final(p).selecting && final(p).scrollbar is None && !final(p).divider,
        final(p).pressed_link == old(p).pressed_link && final(p).last_tab_click == old(p).last_tab_click,
        r.hold_over <==> old(p).hold is Some,
        r.clear_selection <==> old(p).selecting && empty,
        r.drop is Some <==> *old(drag) is Some,
        r.chip_back <==> *old(drag) is None && old(p).tab_drag is Some,
        *old(drag) matches Some(d) ==> (r.drop == Some(
            drop_outcome(order@, id, n as nat, d.surface, d.source_window, d.hover),
        )) && (r.ended == r.drop->0.ended || (old(p).selecting && r.drop->0.ended
            == DragEnded::Nothing)),
        *old(drag) is None ==> {
            &&& r.ended == DragEnded::Reorder <==> (old(p).tab_drag matches Some(t) && t.active)
            &&& r.ended == DragEnded::Selection <==> old(p).selecting && !(old(p).tab_drag
                matches Some(t) && t.active)
            &&& r.ended == DragEnded::Nothing <==> !old(p).selecting && !(old(p).tab_drag
                matches Some(t) && t.active)
            &&& final(p).tab_drag is None
        },
{
}

/// A link opens where the button is let go on the very link that was pressed, if it may be opened.
pub proof fn law_links_open_where_pressed(pressed: &mut Option<PressedLink>, now: Option<LinkAt>, r: LinkOpen)
    requires
        call_ensures(release_link, (pressed, now), r),
    ensures
        *final(pressed) is None,
        r is Nothing <==> !(*old(pressed) matches Some(p) && (now matches Some(l) && p.session@
            == l.session@ && p.id == l.id && p.row == l.row && p.col == l.col)),
        r matches LinkOpen::Open(url) ==> (now matches Some(l) && url@ == l.url@ && is_openable(
            l.url@,
        )),
        r is Refuse ==> (now matches Some(l) && !is_openable(l.url@)),
{
}

/// Clicks on one cell within 400 milliseconds of each other are counted up to three; any other
/// click starts again at one. The first selects by characters, the second by words, the third by
/// lines.
pub proof fn law_clicks_are_counted(c: Clicks, t: u64, s: SessionId, now: u64, session: Seq<char>, row: u16, col: u16, r: u16, k: u16)
    ensures
        c.last is None ==> clicks_with(c, now, session, row, col) == 1,
        c.last == Some((t, s, r, k)) && (s@ != session || r != row || k != col || (now >= t && now
            - t >= 400_000_000)) ==> clicks_with(c, now, session, row, col) == 1,
        c.last == Some((t, s, r, k)) && s@ == session && r == row && k == col && t <= now && now - t
            < 400_000_000 ==> clicks_with(c, now, session, row, col) == (if c.count < 3 {
            c.count + 1
        } else {
            3
        }),
        mode_of(1) == SelectionMode::Simple,
        mode_of(2) == SelectionMode::Word,
        mode_of(3) == SelectionMode::Line,
{
}

/// Motion goes to the first that is in progress: a split preview, a divider, a drag, a scrollbar,
/// a selection.
pub proof fn law_motion_goes_to_what_is_held(p: Pointer, dragging: bool, split: bool, r: MotionRoute)
    requires
        motion_for(p, dragging, split, r),
    ensures
        r is SplitPreview <==> split,
        r is Divider <==> !split && p.divider,
        r is Drag <==> !split && !p.divider && (p.tab_drag is Some || dragging),
        r is Scrollbar <==> !split && !p.divider && p.tab_drag is None && !dragging && p.scrollbar
            is Some,
        r matches MotionRoute::Scrollbar(t) ==> t@ == p.scrollbar->0@,
        r is Select <==> !split && !p.divider && p.tab_drag is None && !dragging && p.scrollbar
            is None && p.selecting,
        r is Free <==> !split && !p.divider && p.tab_drag is None && !dragging && p.scrollbar is None
            && !p.selecting,
{
}

/// The pointer shows what it is over: a divider between panes side by side moves sideways, one
/// between stacked panes up and down; a link has a hand. Over the strip or a divider neither link
/// nor program is told.
pub proof fn law_the_pointer_shows_what_is_under_it(hit: Option<TabHit>, divider: Option<Axis>, link: bool, r: FreeMotion)
    requires
        call_ensures(free_motion, (hit, divider, link), r),
    ensures
        hit matches Some(TabHit::Tab(i)) ==> r.hovered_tab == Some(i),
        hit matches Some(TabHit::CloseTab(i)) ==> r.hovered_tab == Some(i),
        !(hit matches Some(TabHit::Tab(_))) && !(hit matches Some(TabHit::CloseTab(_)))
            ==> r.hovered_tab is None,
        hit is Some ==> r.icon == CursorIcon::Arrow && !r.mark_link && !r.forward,
        hit is None && divider == Some(Axis::Horizontal) ==> r.icon == CursorIcon::EwResize
            && !r.mark_link && !r.forward,
        hit is None && divider == Some(Axis::Vertical) ==> r.icon == CursorIcon::NsResize
            && !r.mark_link && !r.forward,
        hit is None && divider is None ==> r.forward && r.mark_link == link && r.icon == (if link {
            CursorIcon::Hand
        } else {
            CursorIcon::Arrow
        }),
{
}

/// A drag in the strip is under way once the pointer has gone far enough.
pub proof fn law_strip_drags_are_under_way_when_active(p: Pointer, r: bool)
    requires
        call_ensures(Pointer::tab_drag_is_active_drag, (&p,), r),
    ensures
        p.tab_drag is None ==> !r,
        p.tab_drag matches Some(t) ==> r == t.active,
{
}

} // verus!
