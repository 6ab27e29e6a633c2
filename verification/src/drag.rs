//! Dragging tabs and panes: what is carried, where it hovers, and what a drop does.

use vstd::prelude::*;
use crate::layout::{first_index, lemma_first_index, Axis, PaneId, SessionId, TabId, WindowId, WindowTree};
use crate::text::opt_view;
use crate::titles::{display_title, tab_display_title};
use crate::windows::{resolve_window_index, SurfaceDest, SurfaceRef};

verus! {

broadcast use vstd::seq_lib::group_seq_properties;

// ---- what a press carries --------------------------------------------------

/// What a drag came to on release.
#[derive(Clone, Copy, Debug, PartialEq, Eq, Structural)]
pub enum DragEnded {
    /// The tab was put elsewhere in its own strip.
    Reorder,
    /// A tab or a pane was moved.
    Move,
    /// There was nowhere to drop, or the drag was given up: nothing changed.
    Cancel,
    /// Text was being selected.
    Selection,
    /// Nothing was in progress.
    Nothing,
}

impl DragEnded {
    pub open spec fn spec_str(self) -> Seq<char> {
        match self {
            DragEnded::Reorder => "reorder"@,
            DragEnded::Move => "move"@,
            DragEnded::Cancel => "cancel"@,
            DragEnded::Selection => "selection"@,
            DragEnded::Nothing => "none"@,
        }
    }

    /// The name in replies.
    pub fn as_str(self) -> (r: &'static str)
        ensures
            r@ == self.spec_str(),
    {
        match self {
            DragEnded::Reorder => "reorder",
            DragEnded::Move => "move",
            DragEnded::Cancel => "cancel",
            DragEnded::Selection => "selection",
            DragEnded::Nothing => "none",
        }
    }
}

/// The tab that is shown in place of the one dragged out: the one before it, or the second where
/// the first is dragged. There is none where it is alone.
pub open spec fn fallback_tab(n_tabs: int, dragged: int) -> Option<int> {
    if n_tabs <= 1 {
        None
    } else if dragged == 0 {
        Some(1)
    } else {
        Some(dragged - 1)
    }
}

pub open spec fn opt_int(x: Option<usize>) -> Option<int> {
    match x {
        Some(i) => Some(i as int),
        None => None,
    }
}

/// The tab that is shown in place of the one dragged out.
pub fn revert_target_tab(n_tabs: usize, dragged: usize) -> (r: Option<usize>)
    ensures
        opt_int(r) == fallback_tab(n_tabs as int, dragged as int),
{
    if n_tabs <= 1 {
        return None;
    }
    Some(if dragged == 0 {
        1
    } else {
        dragged - 1
    })
}

/// What a press on a pane carries: the pane, or its whole tab where the pane is alone in it.
pub open spec fn carried_by(window: usize, tab: usize, pane: PaneId, panes_in_tab: nat) -> SurfaceRef {
    if panes_in_tab <= 1 {
        SurfaceRef::Tab { window, tab }
    } else {
        SurfaceRef::Pane { window, tab, pane }
    }
}

/// What a press on a pane carries: the pane, or its whole tab where the pane is alone in it.
pub fn pane_drag_source(window: usize, tab: usize, pane: PaneId, panes_in_tab: usize) -> (r: SurfaceRef)
    ensures
        r == carried_by(window, tab, pane, panes_in_tab as nat),
{
    if panes_in_tab <= 1 {
        SurfaceRef::Tab { window, tab }
    } else {
        SurfaceRef::Pane { window, tab, pane }
    }
}

// ---- where a drop lands ----------------------------------------------------

/// The part of a pane that the pointer is over.
#[derive(Clone, Copy, Debug, PartialEq, Eq, Structural)]
pub enum DropZone {
    /// Near an edge: a split of the pane on that side.
    Edge { axis: Axis, before: bool },
    /// The middle: a tab of its own.
    Center,
}

/// Where the carried surface would land.
#[derive(Clone, Copy, Debug, PartialEq, Eq, Structural)]
pub enum DropHover {
    /// The strip of a window; `chip` is the tab right under the pointer, where there is one.
    Strip { window: WindowId, insert_at: usize, chip: Option<usize> },
    /// A pane of the tab that the window shows.
    Pane { window: WindowId, tab: usize, pane: PaneId, zone: DropZone },
    /// No window: a window of its own.
    Desktop,
}

impl DropHover {
    /// The window that is hovered.
    pub open spec fn spec_window(self) -> Option<WindowId> {
        match self {
            DropHover::Strip { window, .. } => Some(window),
            DropHover::Pane { window, .. } => Some(window),
            DropHover::Desktop => None,
        }
    }
}

/// A tab or a pane that is being carried.
#[derive(Debug, PartialEq, Eq)]
pub struct DragState {
    pub surface: SurfaceRef,
    pub source_window: WindowId,
    /// Whether the pointer has left the source window. Once set it stays set.
    pub carried: bool,
    /// Where a release would drop; without it a release gives the drag up.
    pub hover: Option<DropHover>,
    /// The window that was last brought to the front for this drag.
    pub last_raised: Option<WindowId>,
    /// The title that the carried surface shows.
    pub title: String,
}

/// What dropping on a zone of a pane means.
pub open spec fn zone_dest(zone: DropZone, window: usize, tab: usize, pane: PaneId) -> SurfaceDest {
    match zone {
        DropZone::Edge { axis, before } => SurfaceDest::SplitInto { window, tab, pane, axis, before },
        DropZone::Center => SurfaceDest::NewTab { window },
    }
}

/// What dropping on a zone of a pane means.
pub fn drop_zone_to_dest(zone: DropZone, window: usize, tab: usize, pane: PaneId) -> (r: SurfaceDest)
    ensures
        r == zone_dest(zone, window, tab, pane),
{
    match zone {
        DropZone::Edge { axis, before } => SurfaceDest::SplitInto { window, tab, pane, axis, before },
        DropZone::Center => SurfaceDest::NewTab { window },
    }
}

/// Whether a surface would be dropped on itself: a tab on a pane of its own, a pane on itself.
pub open spec fn is_self_merge(surface: SurfaceRef, hovered_tab: usize, hovered_pane: PaneId) -> bool {
    match surface {
        SurfaceRef::Tab { tab, .. } => tab == hovered_tab,
        SurfaceRef::Pane { tab, pane, .. } => tab == hovered_tab && pane == hovered_pane,
    }
}

/// Whether a surface would be dropped on itself, within its own window.
pub fn hover_is_self_merge(surface: SurfaceRef, hovered_tab: usize, hovered_pane: PaneId) -> (r: bool)
    ensures
        r == is_self_merge(surface, hovered_tab, hovered_pane),
{
    match surface {
        SurfaceRef::Tab { tab, .. } => tab == hovered_tab,
        SurfaceRef::Pane { tab, pane, .. } => tab == hovered_tab && pane == hovered_pane,
    }
}

// ---- tearing off -----------------------------------------------------------

/// The tab that is shown once `tab` is torn off: the one that was active before the press, where
/// that is another one and is still there, else the fallback; without either, nothing changes.
pub open spec fn shown_after_tear_off(ids: Seq<TabId>, active: int, tab: int, origin: TabId) -> int {
    match first_index(ids, origin) {
        Some(i) if i != tab => i,
        _ => match fallback_tab(ids.len() as int, tab) {
            Some(i) => i,
            None => active,
        },
    }
}

/// The number that a drag keeps for its window.
pub open spec fn window_number(order: Seq<WindowId>, id: WindowId) -> usize {
    match first_index(order, id) {
        Some(i) => i as usize,
        None => 0,
    }
}

/// The title that a torn-off tab carries.
pub open spec fn carried_title(tree: WindowTree, tab: int) -> Seq<char> {
    if 0 <= tab < tree.tabs@.len() {
        display_title(tree.tabs@[tab].title@, tab as nat)
    } else {
        Seq::<char>::empty()
    }
}

/// A drag that has just begun.
pub open spec fn is_fresh(d: DragState, surface: SurfaceRef, source: WindowId, title: Seq<char>) -> bool {
    &&& d.surface == surface
    &&& d.source_window == source
    &&& !d.carried
    &&& d.hover is None
    &&& d.last_raised is None
    &&& d.title@ == title
}

/// Tears a tab off the strip: another tab is shown in its place and the drag begins.
///
/// `origin_tab` is the tab that was active before the press.
pub fn tear_off_tab(tree: &mut WindowTree, order: &[WindowId], window_id: WindowId, tab: usize, origin_tab: TabId) -> (r: DragState)
    ensures
        final(tree).tabs == old(tree).tabs,
        final(tree).active == shown_after_tear_off(
            old(tree).spec_tab_ids(),
            old(tree).active as int,
            tab as int,
            origin_tab,
        ),
        is_fresh(
            r,
            SurfaceRef::Tab { window: window_number(order@, window_id), tab },
            window_id,
            carried_title(*old(tree), tab as int),
        ),
{
    proof {
        lemma_first_index(tree.spec_tab_ids(), origin_tab);
        lemma_first_index(order@, window_id);
    }
    let origin = match tree.tab_index(origin_tab) {
        Some(i) => if i != tab {
            Some(i)
        } else {
            None
        },
        None => None,
    };
    let n: usize = tree.tabs.len();
    let show = match origin {
        Some(i) => Some(i),
        None => revert_target_tab(n, tab),
    };
    if let Some(i) = show {
        tree.active = i;
    }
    let window = match resolve_window_index(order, window_id) {
        Some(w) => w,
        None => 0,
    };
    let title = if tab < tree.tabs.len() {
        tab_display_title(tree.tabs[tab].title.as_str(), tab)
    } else {
        String::new()
    };
    DragState {
        surface: SurfaceRef::Tab { window, tab },
        source_window: window_id,
        carried: false,
        hover: None,
        last_raised: None,
        title,
    }
}

/// With two tabs or more, the tab shown after tearing one off is there and is not the one
/// dragged, so that there is something else to drop on.
pub proof fn law_another_tab_is_shown(ids: Seq<TabId>, active: int, tab: int, origin: TabId)
    requires
        ids.len() >= 2,
        0 <= tab < ids.len(),
    ensures
        shown_after_tear_off(ids, active, tab, origin) != tab,
        0 <= shown_after_tear_off(ids, active, tab, origin) < ids.len(),
{
    lemma_first_index(ids, origin);
}

/// Begins to carry a pane of the active tab, or that tab where the pane is alone in it.
pub fn start_pane_drag(tree: &WindowTree, order: &[WindowId], window_id: WindowId, pane: PaneId) -> (r: DragState)
    requires
        tree.active < tree.tabs@.len(),
    ensures
        is_fresh(
            r,
            carried_by(
                window_number(order@, window_id),
                tree.active,
                pane,
                tree.tabs@[tree.active as int].root.spec_panes().len(),
            ),
            window_id,
            carried_title(*tree, tree.active as int),
        ),
{
    proof {
        lemma_first_index(order@, window_id);
    }
    let window = match resolve_window_index(order, window_id) {
        Some(w) => w,
        None => 0,
    };
    let tab: usize = tree.active;
    let ids = tree.tabs[tab].root.pane_ids();
    let surface = pane_drag_source(window, tab, pane, ids.len());
    assert(tab < tree.tabs.len());
    let title = tab_display_title(tree.tabs[tab].title.as_str(), tab);
    DragState {
        surface,
        source_window: window_id,
        carried: false,
        hover: None,
        last_raised: None,
        title,
    }
}

// ---- the source while it is carried ----------------------------------------

/// What the source window stops showing while its surface is carried.
#[derive(Clone, Copy, Debug, PartialEq, Eq, Structural)]
pub enum CarriedExclusion {
    Pane(PaneId),
    Tab(TabId),
    /// The only tab: the window itself.
    WholeWindow,
}

/// What a surface takes with it. The only tab of a window, or one that is gone, takes the window.
pub open spec fn exclusion_of(surface: SurfaceRef, ids: Seq<TabId>) -> CarriedExclusion {
    match surface {
        SurfaceRef::Pane { pane, .. } => CarriedExclusion::Pane(pane),
        SurfaceRef::Tab { tab, .. } => if ids.len() <= 1 || tab >= ids.len() {
            CarriedExclusion::WholeWindow
        } else {
            CarriedExclusion::Tab(ids[tab as int])
        },
    }
}

/// What a surface takes with it from its window.
pub fn exclusion_for(surface: SurfaceRef, tree: &WindowTree) -> (r: CarriedExclusion)
    ensures
        r == exclusion_of(surface, tree.spec_tab_ids()),
{
    match surface {
        SurfaceRef::Pane { pane, .. } => CarriedExclusion::Pane(pane),
        SurfaceRef::Tab { tab, .. } => {
            if tree.tabs.len() <= 1 || tab >= tree.tabs.len() {
                CarriedExclusion::WholeWindow
            } else {
                CarriedExclusion::Tab(tree.tabs[tab].id)
            }
        },
    }
}

/// Which surface a window leaves out, and whether it already does.
#[derive(Clone, Copy, Debug, PartialEq, Eq, Structural)]
pub struct Exclusion {
    pub carried: Option<CarriedExclusion>,
    pub applied: bool,
    /// The window was hidden for a carry that is over, and has not been shown again.
    pub hidden_for_carry: bool,
}

/// What a change of the exclusion asks of the window.
#[derive(Clone, Copy, Debug, PartialEq, Eq, Structural)]
pub enum ExclusionStep {
    Nothing,
    /// Lay the tabs and panes out again.
    Relayout,
    HideWindow,
}

impl Exclusion {
    /// Nothing is left out.
    pub fn new() -> (r: Exclusion)
        ensures
            r == (Exclusion { carried: None, applied: false, hidden_for_carry: false }),
    {
        Exclusion { carried: None, applied: false, hidden_for_carry: false }
    }

    /// Notes what a drag that begins will take with it.
    pub fn begin_carried_exclusion(&mut self, surface: SurfaceRef, tree: &WindowTree)
        ensures
            *final(self) == (Exclusion {
                carried: Some(exclusion_of(surface, tree.spec_tab_ids())),
                applied: false,
                hidden_for_carry: old(self).hidden_for_carry,
            }),
    {
        self.carried = Some(exclusion_for(surface, tree));
        self.applied = false;
    }

    /// What leaving the surface out asks for now: nothing while it is still seen to shrink, nor
    /// twice; the window itself goes only once the pointer has left it.
    pub open spec fn spec_apply(self, morphing: bool, carried: bool) -> ExclusionStep {
        match self.carried {
            Some(_) if self.applied || morphing => ExclusionStep::Nothing,
            Some(CarriedExclusion::WholeWindow) => if carried {
                ExclusionStep::HideWindow
            } else {
                ExclusionStep::Nothing
            },
            Some(_) => ExclusionStep::Relayout,
            None => ExclusionStep::Nothing,
        }
    }

    /// Leaves the carried surface out, as soon as that is due.
    pub fn apply_carried_exclusion(&mut self, morphing: bool, carried: bool) -> (r: ExclusionStep)
        ensures
            r == old(self).spec_apply(morphing, carried),
            *final(self) == (Exclusion {
                applied: old(self).applied || r != ExclusionStep::Nothing,
                ..*old(self)
            }),
    {
        let ex = match self.carried {
            Some(ex) => ex,
            None => return ExclusionStep::Nothing,
        };
        if self.applied || morphing {
            return ExclusionStep::Nothing;
        }
        match ex {
            CarriedExclusion::WholeWindow => {
                if carried {
                    self.applied = true;
                    ExclusionStep::HideWindow
                } else {
                    ExclusionStep::Nothing
                }
            },
            _ => {
                self.applied = true;
                ExclusionStep::Relayout
            },
        }
    }

    /// Ends the exclusion, however the drag ended. A hidden window stays hidden until it is known
    /// to live on.
    pub fn clear_carried_exclusion(&mut self) -> (r: ExclusionStep)
        ensures
            r == (if old(self).applied { ExclusionStep::Relayout } else { ExclusionStep::Nothing }),
            *final(self) == (Exclusion {
                carried: None,
                applied: false,
                hidden_for_carry: old(self).hidden_for_carry || (old(self).applied
                    && old(self).carried == Some(CarriedExclusion::WholeWindow)),
            }),
    {
        let was_applied = self.applied;
        let whole = match self.carried {
            Some(CarriedExclusion::WholeWindow) => true,
            _ => false,
        };
        self.carried = None;
        self.applied = false;
        if !was_applied {
            return ExclusionStep::Nothing;
        }
        if whole {
            self.hidden_for_carry = true;
        }
        ExclusionStep::Relayout
    }

    /// Whether the window has to be shown again now.
    pub fn finish_carry_reshow(&mut self) -> (r: bool)
        ensures
            r == old(self).hidden_for_carry,
            *final(self) == (Exclusion { hidden_for_carry: false, ..*old(self) }),
    {
        let hidden = self.hidden_for_carry;
        self.hidden_for_carry = false;
        hidden
    }

    /// The tab that the strip leaves out now.
    pub open spec fn spec_hidden_tab(self) -> Option<TabId> {
        match self.carried {
            Some(CarriedExclusion::Tab(id)) if self.applied => Some(id),
            _ => None,
        }
    }

    /// The tab that the strip leaves out now.
    pub fn hidden_tab(&self) -> (r: Option<TabId>)
        ensures
            r == self.spec_hidden_tab(),
    {
        match self.carried {
            Some(CarriedExclusion::Tab(id)) => if self.applied {
                Some(id)
            } else {
                None
            },
            _ => None,
        }
    }

    /// The pane that is left out now.
    pub open spec fn spec_hidden_pane(self) -> Option<PaneId> {
        match self.carried {
            Some(CarriedExclusion::Pane(id)) if self.applied => Some(id),
            _ => None,
        }
    }

    /// The pane that is left out now.
    pub fn hidden_pane(&self) -> (r: Option<PaneId>)
        ensures
            r == self.spec_hidden_pane(),
    {
        match self.carried {
            Some(CarriedExclusion::Pane(id)) => if self.applied {
                Some(id)
            } else {
                None
            },
            _ => None,
        }
    }
}

/// Leaving out happens once: asked again with nothing changed, there is nothing to do.
pub proof fn law_exclusion_applies_once(e: Exclusion, morphing: bool, carried: bool)
    requires
        e.spec_apply(morphing, carried) != ExclusionStep::Nothing,
    ensures
        (Exclusion { applied: true, ..e }).spec_apply(morphing, carried) == ExclusionStep::Nothing,
{
}

/// A window is never hidden under a pointer that has not left it.
pub proof fn law_window_stays_under_the_pointer(e: Exclusion, morphing: bool)
    ensures
        e.spec_apply(morphing, false) != ExclusionStep::HideWindow,
{
}

// ---- hovering --------------------------------------------------------------

/// A part of the tab strip, in the numbering of the chips that it shows.
#[derive(Clone, Copy, Debug, PartialEq, Eq, Structural)]
pub enum StripSlot {
    Tab(usize),
    /// The place behind the last chip.
    Behind,
}

/// What the pointer is over in a window.
#[derive(Debug, PartialEq, Eq)]
pub enum Spot {
    Outside,
    Strip(Option<StripSlot>),
    Pane { session: SessionId, zone: DropZone },
    /// Neither the strip nor a pane.
    Body,
}

/// The number of the tab whose chip is the `i`-th that is shown, where tab `hidden` is left out.
pub open spec fn real_index(i: int, hidden: Option<int>) -> int {
    match hidden {
        Some(e) if i >= e => i + 1,
        _ => i,
    }
}

/// The chip at `i` belongs to the tab that `real_index` gives.
pub proof fn law_chips_name_their_tabs(ids: Seq<TabId>, hidden: int, i: int)
    requires
        0 <= hidden < ids.len(),
        0 <= i < ids.len() - 1,
    ensures
        ids.remove(hidden)[i] == ids[real_index(i, Some(hidden))],
        real_index(i, Some(hidden)) != hidden,
        0 <= real_index(i, Some(hidden)) < ids.len(),
{
}

/// The place of the tab that is left out.
pub open spec fn hidden_index(tree: WindowTree, ex: Exclusion) -> Option<int> {
    match ex.spec_hidden_tab() {
        Some(id) => first_index(tree.spec_tab_ids(), id),
        None => None,
    }
}

/// Where a drop would land.
pub open spec fn hover_of(window: WindowId, tree: WindowTree, ex: Exclusion, spot: Spot) -> Option<DropHover> {
    match spot {
        Spot::Outside | Spot::Body => None,
        Spot::Strip(None) => None,
        Spot::Strip(Some(StripSlot::Tab(i))) => {
            let place = real_index(i as int, hidden_index(tree, ex)) as usize;
            Some(DropHover::Strip { window, insert_at: place, chip: Some(place) })
        },
        Spot::Strip(Some(StripSlot::Behind)) => Some(
            DropHover::Strip {
                window,
                insert_at: if tree.tabs@.len() == 0 {
                    0
                } else {
                    (tree.tabs@.len() - 1) as usize
                },
                chip: None,
            },
        ),
        Spot::Pane { session, zone } => match tree.tabs@[tree.active as int].root.spec_pane_of(
            session@,
        ) {
            Some(pane) => Some(DropHover::Pane { window, tab: tree.active, pane, zone }),
            None => None,
        },
    }
}

/// Where a drop would land in a window, from what the pointer is over there.
pub fn hover_at(window: WindowId, tree: &WindowTree, ex: &Exclusion, spot: &Spot) -> (r: Option<DropHover>)
    requires
        spot is Pane ==> tree.active < tree.tabs@.len(),
        spot matches Spot::Strip(Some(StripSlot::Tab(i))) ==> i < usize::MAX,
    ensures
        r == hover_of(window, *tree, *ex, *spot),
{
    match spot {
        Spot::Outside => None,
        Spot::Body => None,
        Spot::Strip(slot) => match slot {
            None => None,
            Some(StripSlot::Tab(i)) => {
                let hidden = match ex.hidden_tab() {
                    Some(id) => tree.tab_index(id),
                    None => None,
                };
                let place: usize = match hidden {
                    Some(e) => if *i >= e {
                        *i + 1
                    } else {
                        *i
                    },
                    None => *i,
                };
                Some(DropHover::Strip { window, insert_at: place, chip: Some(place) })
            },
            Some(StripSlot::Behind) => {
                let n: usize = tree.tabs.len();
                let last: usize = if n == 0 {
                    0
                } else {
                    n - 1
                };
                Some(DropHover::Strip { window, insert_at: last, chip: None })
            },
        },
        Spot::Pane { session, zone } => match tree.tabs[tree.active].root.pane_of(session) {
            Some(pane) => Some(DropHover::Pane { window, tab: tree.active, pane, zone: *zone }),
            None => None,
        },
    }
}

/// A hover in the drag's own window, without the places where the surface would land on itself.
pub open spec fn without_self_merge(surface: SurfaceRef, hover: Option<DropHover>) -> Option<DropHover> {
    match hover {
        Some(DropHover::Pane { tab, pane, .. }) if is_self_merge(surface, tab, pane) => None,
        _ => hover,
    }
}

/// A change of the preview of a split.
#[derive(Debug, PartialEq, Eq)]
pub enum SplitVisual {
    Keep,
    Clear,
    /// Half of the pane is marked, or nearly all of it where `whole` is set.
    Show { session: SessionId, horizontal: bool, before: bool, whole: bool },
}

/// A change of the phantom of a tab behind the last chip.
#[derive(Debug, PartialEq, Eq)]
pub enum PhantomTab {
    Keep,
    Clear,
    Show(String),
}

/// What hovering shows in a window.
#[derive(Debug, PartialEq, Eq)]
pub struct HoverVisuals {
    /// The chip that the pointer dwells on.
    pub spring: Option<usize>,
    pub split: SplitVisual,
    pub phantom: PhantomTab,
    /// The tab whose chip follows the pointer.
    pub lifted: Option<usize>,
}

pub open spec fn split_is(v: SplitVisual, session: Option<Seq<char>>, horizontal: bool, before: bool, whole: bool, otherwise: SplitVisual) -> bool {
    match session {
        Some(s) => v matches SplitVisual::Show { session, horizontal: h, before: b, whole: w }
            && session@ == s && h == horizontal && b == before && w == whole,
        None => v == otherwise,
    }
}

/// The session of a pane of the active tab.
pub open spec fn active_session(tree: WindowTree, pane: PaneId) -> Option<Seq<char>> {
    tree.tabs@[tree.active as int].root.spec_session_of(pane)
}

/// What the source window shows while a surface of its own is dragged over it.
pub open spec fn own_visuals(tree: WindowTree, surface: SurfaceRef, title: Seq<char>, hover: Option<DropHover>, v: HoverVisuals) -> bool {
    &&& v.lifted == (match surface {
        SurfaceRef::Tab { tab, .. } => Some(tab),
        SurfaceRef::Pane { .. } => None,
    })
    &&& v.spring == (match hover {
        Some(DropHover::Strip { chip, .. }) => chip,
        _ => None,
    })
    &&& match hover {
        Some(DropHover::Strip { .. }) => {
            &&& v.split is Clear
            &&& match surface {
                SurfaceRef::Tab { .. } => v.phantom is Keep,
                SurfaceRef::Pane { .. } => v.phantom matches PhantomTab::Show(t) && t@ == title,
            }
        },
        Some(DropHover::Pane { pane, zone: DropZone::Edge { axis, before }, .. }) => {
            &&& v.phantom is Clear
            &&& split_is(
                v.split,
                active_session(tree, pane),
                axis == Axis::Horizontal,
                before,
                false,
                SplitVisual::Keep,
            )
        },
        _ => v.split is Clear && v.phantom is Clear,
    }
}

fn split_visual(tree: &WindowTree, pane: PaneId, horizontal: bool, before: bool, whole: bool, otherwise: SplitVisual) -> (r: SplitVisual)
    requires
        tree.active < tree.tabs@.len(),
    ensures
        split_is(r, active_session(*tree, pane), horizontal, before, whole, otherwise),
{
    match tree.tabs[tree.active].root.session_of(pane) {
        Some(s) => SplitVisual::Show { session: s.copy(), horizontal, before, whole },
        None => otherwise,
    }
}

/// Moves the pointer of a drag within its own window: the hover that `hover_at` found becomes the
/// drag's, unless the surface would land on itself there. `None` where the drag is not of this
/// window.
pub fn update_drag_hover(drag: &mut Option<DragState>, window_id: WindowId, tree: &WindowTree, found: Option<DropHover>) -> (r: Option<HoverVisuals>)
    requires
        found matches Some(DropHover::Pane { .. }) ==> tree.active < tree.tabs@.len(),
    ensures
        match *old(drag) {
            Some(d) if d.source_window == window_id => {
                &&& *final(drag) == Some(
                    DragState { hover: without_self_merge(d.surface, found), ..d },
                )
                &&& r matches Some(v) && own_visuals(
                    *tree,
                    d.surface,
                    d.title@,
                    without_self_merge(d.surface, found),
                    v,
                )
            },
            _ => *final(drag) == *old(drag) && r is None,
        },
{
    match drag {
        None => None,
        Some(d) => {
            if d.source_window != window_id {
                return None;
            }
            let surface = d.surface;
            let lifted = match surface {
                SurfaceRef::Tab { tab, .. } => Some(tab),
                SurfaceRef::Pane { .. } => None,
            };
            let mut hover = found;
            if let Some(DropHover::Pane { tab, pane, .. }) = found {
                if hover_is_self_merge(surface, tab, pane) {
                    hover = None;
                }
            }
            d.hover = hover;
            let visuals = match hover {
                Some(DropHover::Strip { chip, .. }) => HoverVisuals {
                    spring: chip,
                    split: SplitVisual::Clear,
                    phantom: match surface {
                        SurfaceRef::Tab { .. } => PhantomTab::Keep,
                        SurfaceRef::Pane { .. } => PhantomTab::Show(d.title.clone()),
                    },
                    lifted,
                },
                Some(DropHover::Pane { pane, zone: DropZone::Edge { axis, before }, .. }) => HoverVisuals {
                    spring: None,
                    split: split_visual(
                        tree,
                        pane,
                        axis == Axis::Horizontal,
                        before,
                        false,
                        SplitVisual::Keep,
                    ),
                    phantom: PhantomTab::Clear,
                    lifted,
                },
                _ => HoverVisuals {
                    spring: None,
                    split: SplitVisual::Clear,
                    phantom: PhantomTab::Clear,
                    lifted,
                },
            };
            Some(visuals)
        },
    }
}

/// The label of the phantom of a tab.
pub open spec fn phantom_label(title: Option<Seq<char>>) -> Seq<char> {
    match title {
        Some(t) if t.len() > 0 => t,
        _ => "\u{ff0b}"@,
    }
}

/// What a window shows while a surface of another window is dragged over it.
pub open spec fn incoming_visuals(tree: WindowTree, hover: Option<DropHover>, title: Option<Seq<char>>, v: HoverVisuals) -> bool {
    &&& v.lifted is None
    &&& v.spring == (match hover {
        Some(DropHover::Strip { chip, .. }) => chip,
        _ => None,
    })
    &&& match hover {
        Some(DropHover::Strip { .. }) => {
            &&& v.split is Clear
            &&& v.phantom matches PhantomTab::Show(t) && t@ == phantom_label(title)
        },
        Some(DropHover::Pane { pane, zone, .. }) => {
            &&& v.phantom is Clear
            &&& match zone {
                DropZone::Edge { axis, before } => split_is(
                    v.split,
                    active_session(tree, pane),
                    axis == Axis::Horizontal,
                    before,
                    false,
                    SplitVisual::Clear,
                ),
                DropZone::Center => split_is(
                    v.split,
                    active_session(tree, pane),
                    true,
                    false,
                    true,
                    SplitVisual::Clear,
                ),
            }
        },
        _ => v.split is Clear && v.phantom is Clear,
    }
}

/// What a window shows while a surface of another window is dragged over it.
pub fn set_incoming_drop(tree: &WindowTree, hover: Option<DropHover>, title: Option<&str>) -> (r: HoverVisuals)
    requires
        hover matches Some(DropHover::Pane { .. }) ==> tree.active < tree.tabs@.len(),
    ensures
        incoming_visuals(*tree, hover, opt_view(title), r),
{
    match hover {
        Some(DropHover::Strip { chip, .. }) => {
            let label = match title {
                Some(t) => if t.is_empty() {
                    "\u{ff0b}"
                } else {
                    t
                },
                None => "\u{ff0b}",
            };
            HoverVisuals {
                spring: chip,
                split: SplitVisual::Clear,
                phantom: PhantomTab::Show(label.to_owned()),
                lifted: None,
            }
        },
        Some(DropHover::Pane { pane, zone: DropZone::Edge { axis, before }, .. }) => HoverVisuals {
            spring: None,
            split: split_visual(
                tree,
                pane,
                axis == Axis::Horizontal,
                before,
                false,
                SplitVisual::Clear,
            ),
            phantom: PhantomTab::Clear,
            lifted: None,
        },
        Some(DropHover::Pane { pane, zone: DropZone::Center, .. }) => HoverVisuals {
            spring: None,
            split: split_visual(tree, pane, true, false, true, SplitVisual::Clear),
            phantom: PhantomTab::Clear,
            lifted: None,
        },
        _ => HoverVisuals {
            spring: None,
            split: SplitVisual::Clear,
            phantom: PhantomTab::Clear,
            lifted: None,
        },
    }
}

// ---- carrying over other windows -------------------------------------------

/// The window that is under a carried surface.
#[derive(Clone, Copy, Debug, PartialEq, Eq, Structural)]
pub enum Under {
    Desktop,
    /// A window, and the hover in it; the hover is not known where its place is not.
    Window { id: WindowId, hover: Option<Option<DropHover>> },
}

/// What a step of carrying asks of the windows.
#[derive(Clone, Copy, Debug, PartialEq, Eq)]
pub struct CarryStep {
    /// The window to bring to the front.
    pub raise: Option<WindowId>,
    /// The window whose preview may stay; all others are cleared.
    pub keep_preview: Option<WindowId>,
    /// The window that shows the hover as its preview.
    pub preview: Option<(WindowId, Option<DropHover>)>,
    /// The pointer has just left the source window for the first time.
    pub just_carried: bool,
    /// The pointer has left the source window, now or before.
    pub carried: bool,
}

/// The drag after a step: it stays carried once it was, and hovers what is under the pointer.
pub open spec fn carried_on(d: DragState, outside: bool, under: Under) -> DragState {
    DragState {
        carried: d.carried || outside,
        hover: if !outside {
            d.hover
        } else {
            match under {
                Under::Desktop => Some(DropHover::Desktop),
                Under::Window { id, hover } => if id == d.source_window {
                    None
                } else {
                    match hover {
                        Some(h) => h,
                        None => d.hover,
                    }
                },
            }
        },
        last_raised: match under {
            Under::Window { id, .. } if outside && id != d.source_window => Some(id),
            _ => d.last_raised,
        },
        ..d
    }
}

/// What a step asks of the windows.
pub open spec fn carry_step(d: DragState, outside: bool, under: Under) -> CarryStep {
    CarryStep {
        raise: match under {
            Under::Window { id, .. } if outside && id != d.source_window && d.last_raised != Some(
                id,
            ) => Some(id),
            _ => None,
        },
        keep_preview: if !outside {
            Some(d.source_window)
        } else {
            match under {
                Under::Desktop => None,
                Under::Window { id, .. } => Some(id),
            }
        },
        preview: match under {
            Under::Window { id, hover: Some(h) } if outside && id != d.source_window => Some((id, h)),
            _ => None,
        },
        just_carried: outside && !d.carried,
        carried: d.carried || outside,
    }
}

/// Carries a drag on by one motion of the pointer. `outside` tells that the pointer is outside of
/// the source window; `under` what is then under it. `None` where the drag is not of this window.
pub fn update_cross_window_drag(drag: &mut Option<DragState>, source_id: WindowId, outside: bool, under: Under) -> (r: Option<CarryStep>)
    ensures
        match *old(drag) {
            Some(d) if d.source_window == source_id => {
                &&& *final(drag) == Some(carried_on(d, outside, under))
                &&& r == Some(carry_step(d, outside, under))
            },
            _ => *final(drag) == *old(drag) && r is None,
        },
{
    match drag {
        None => None,
        Some(d) => {
            if d.source_window != source_id {
                return None;
            }
            let was_carried = d.carried;
            let mut raise: Option<WindowId> = None;
            let mut keep_preview: Option<WindowId> = Some(source_id);
            let mut preview: Option<(WindowId, Option<DropHover>)> = None;
            if outside {
                d.carried = true;
                match under {
                    Under::Desktop => {
                        d.hover = Some(DropHover::Desktop);
                        keep_preview = None;
                    },
                    Under::Window { id, hover } => {
                        keep_preview = Some(id);
                        if id == source_id {
                            d.hover = None;
                        } else {
                            let already = match d.last_raised {
                                Some(w) => w == id,
                                None => false,
                            };
                            if !already {
                                raise = Some(id);
                                d.last_raised = Some(id);
                            }
                            if let Some(h) = hover {
                                preview = Some((id, h));
                                d.hover = h;
                            }
                        }
                    },
                }
            }
            Some(
                CarryStep {
                    raise,
                    keep_preview,
                    preview,
                    just_carried: outside && !was_carried,
                    carried: was_carried || outside,
                },
            )
        },
    }
}

/// Once the pointer has left the source window, the drag stays carried.
pub proof fn law_carried_stays_carried(d: DragState, outside: bool, under: Under)
    requires
        d.carried,
    ensures
        carried_on(d, outside, under).carried,
        carry_step(d, outside, under).carried,
        !carry_step(d, outside, under).just_carried,
{
}

/// A window is brought to the front when the drag enters it, and not again while it stays there.
pub proof fn law_window_is_raised_once(d: DragState, id: WindowId, h1: Option<Option<DropHover>>, h2: Option<Option<DropHover>>, outside: bool)
    ensures
        ({
            let d1 = carried_on(d, true, Under::Window { id, hover: h1 });
            carry_step(d1, outside, Under::Window { id, hover: h2 }).raise is None
        }),
{
}

/// The source window is never brought to the front, and never shows a preview as a target.
pub proof fn law_source_is_no_target(d: DragState, outside: bool, under: Under)
    ensures
        carry_step(d, outside, under).raise != Some(d.source_window),
        carry_step(d, outside, under).preview matches Some((id, _)) ==> id != d.source_window,
{
}

// ---- dropping --------------------------------------------------------------

/// What a drop does.
#[derive(Clone, Copy, Debug, PartialEq, Eq)]
pub struct DropOutcome {
    pub ended: DragEnded,
    /// The tab that changes places in its own strip, from and to.
    pub reorder: Option<(usize, usize)>,
    /// The tab that is shown then.
    pub show: Option<usize>,
    /// The move to carry out.
    pub pending: Option<(SurfaceRef, SurfaceDest)>,
    /// The surface is seen to grow back in the source window.
    pub pour_out: bool,
    /// A window is opened where the pointer is.
    pub at_pointer: bool,
}

pub open spec fn given_up(pour_out: bool) -> DropOutcome {
    DropOutcome {
        ended: DragEnded::Cancel,
        reorder: None,
        show: None,
        pending: None,
        pour_out,
        at_pointer: false,
    }
}

pub open spec fn moved(src: SurfaceRef, dest: SurfaceDest) -> DropOutcome {
    DropOutcome {
        ended: DragEnded::Move,
        reorder: None,
        show: None,
        pending: Some((src, dest)),
        pour_out: false,
        at_pointer: dest is NewWindow,
    }
}

/// Where a hover leads: nowhere if its window is gone.
pub open spec fn hover_dest(order: Seq<WindowId>, hover: DropHover) -> Option<SurfaceDest> {
    match hover {
        DropHover::Desktop => Some(SurfaceDest::NewWindow),
        DropHover::Strip { window, .. } => match first_index(order, window) {
            Some(w) => Some(SurfaceDest::NewTab { window: w as usize }),
            None => None,
        },
        DropHover::Pane { window, tab, pane, zone } => match first_index(order, window) {
            Some(w) => Some(zone_dest(zone, w as usize, tab, pane)),
            None => None,
        },
    }
}

/// A tab dropped on its own strip.
pub open spec fn strip_drop(src_tab: usize, insert_at: usize, n_tabs: nat) -> DropOutcome {
    if src_tab >= n_tabs {
        given_up(true)
    } else {
        let to = if insert_at < n_tabs {
            insert_at
        } else {
            (n_tabs - 1) as usize
        };
        DropOutcome {
            ended: DragEnded::Reorder,
            reorder: if to != src_tab {
                Some((src_tab, to))
            } else {
                None
            },
            show: Some(to),
            pending: None,
            pour_out: true,
            at_pointer: false,
        }
    }
}

/// What a release does with a drag. `window_id` is the window that sees the release, with
/// `n_tabs` tabs.
pub open spec fn drop_outcome(order: Seq<WindowId>, window_id: WindowId, n_tabs: nat, surface: SurfaceRef, source: WindowId, hover: Option<DropHover>) -> DropOutcome {
    match first_index(order, source) {
        None => given_up(false),
        Some(w) => {
            let src_w = w as usize;
            match surface {
                SurfaceRef::Tab { tab, .. } => match hover {
                    Some(DropHover::Strip { window, insert_at, .. }) if window == window_id =>
                        strip_drop(tab, insert_at, n_tabs),
                    Some(h) => match hover_dest(order, h) {
                        Some(dest) => moved(SurfaceRef::Tab { window: src_w, tab }, dest),
                        None => given_up(false),
                    },
                    None => given_up(true),
                },
                SurfaceRef::Pane { tab, pane, .. } => match hover {
                    Some(h) => match hover_dest(order, h) {
                        Some(dest) => moved(SurfaceRef::Pane { window: src_w, tab, pane }, dest),
                        None => given_up(true),
                    },
                    None => given_up(true),
                },
            }
        },
    }
}

fn resolve_dest(order: &[WindowId], hover: DropHover) -> (r: Option<SurfaceDest>)
    ensures
        r == hover_dest(order@, hover),
{
    match hover {
        DropHover::Desktop => Some(SurfaceDest::NewWindow),
        DropHover::Strip { window, .. } => match resolve_window_index(order, window) {
            Some(w) => Some(SurfaceDest::NewTab { window: w }),
            None => None,
        },
        DropHover::Pane { window, tab, pane, zone } => match resolve_window_index(order, window) {
            Some(w) => Some(drop_zone_to_dest(zone, w, tab, pane)),
            None => None,
        },
    }
}

fn give_up(pour_out: bool) -> (r: DropOutcome)
    ensures
        r == given_up(pour_out),
{
    DropOutcome {
        ended: DragEnded::Cancel,
        reorder: None,
        show: None,
        pending: None,
        pour_out,
        at_pointer: false,
    }
}

fn move_to(src: SurfaceRef, dest: SurfaceDest) -> (r: DropOutcome)
    ensures
        r == moved(src, dest),
{
    let at_pointer = match dest {
        SurfaceDest::NewWindow => true,
        _ => false,
    };
    DropOutcome {
        ended: DragEnded::Move,
        reorder: None,
        show: None,
        pending: Some((src, dest)),
        pour_out: false,
        at_pointer,
    }
}

/// What a release does with a drag. `window_id` is the window that sees the release, with
/// `n_tabs` tabs.
pub fn resolve_drag_drop(order: &[WindowId], window_id: WindowId, n_tabs: usize, drag: &DragState) -> (r: DropOutcome)
    ensures
        r == drop_outcome(
            order@,
            window_id,
            n_tabs as nat,
            drag.surface,
            drag.source_window,
            drag.hover,
        ),
{
    let src_w = match resolve_window_index(order, drag.source_window) {
        Some(w) => w,
        None => return give_up(false),
    };
    match drag.surface {
        SurfaceRef::Tab { tab, .. } => match drag.hover {
            Some(hover) => {
                if let DropHover::Strip { window, insert_at, .. } = hover {
                    if window == window_id {
                        if tab >= n_tabs {
                            return give_up(true);
                        }
                        let to: usize = if insert_at < n_tabs {
                            insert_at
                        } else {
                            n_tabs - 1
                        };
                        return DropOutcome {
                            ended: DragEnded::Reorder,
                            reorder: if to != tab {
                                Some((tab, to))
                            } else {
                                None
                            },
                            show: Some(to),
                            pending: None,
                            pour_out: true,
                            at_pointer: false,
                        };
                    }
                }
                match resolve_dest(order, hover) {
                    Some(dest) => move_to(SurfaceRef::Tab { window: src_w, tab }, dest),
                    None => give_up(false),
                }
            },
            None => give_up(true),
        },
        SurfaceRef::Pane { tab, pane, .. } => match drag.hover {
            Some(hover) => match resolve_dest(order, hover) {
                Some(dest) => move_to(SurfaceRef::Pane { window: src_w, tab, pane }, dest),
                None => give_up(true),
            },
            None => give_up(true),
        },
    }
}

/// A drag that is given up moves nothing and reorders nothing; without a hover it is given up.
pub proof fn law_giving_up_changes_nothing(order: Seq<WindowId>, window_id: WindowId, n_tabs: nat, surface: SurfaceRef, source: WindowId, hover: Option<DropHover>)
    ensures
        ({
            let o = drop_outcome(order, window_id, n_tabs, surface, source, hover);
            &&& o.ended == DragEnded::Cancel ==> o.pending is None && o.reorder is None && o.show
                is None
            &&& o.pending is Some <==> o.ended == DragEnded::Move
            &&& hover is None ==> o.ended == DragEnded::Cancel
        }),
{
}

/// A move names windows by their numbers now: the source's own, and one that is still there.
pub proof fn law_drops_name_live_windows(order: Seq<WindowId>, window_id: WindowId, n_tabs: nat, surface: SurfaceRef, source: WindowId, hover: Option<DropHover>)
    requires
        order.len() <= usize::MAX,
    ensures
        drop_outcome(order, window_id, n_tabs, surface, source, hover).pending matches Some((src, dest))
            ==> {
            &&& src.spec_window() < order.len()
            &&& order[src.spec_window() as int] == source
            &&& match dest {
                SurfaceDest::NewWindow => true,
                SurfaceDest::NewTab { window } => window < order.len() && hover is Some
                    && hover->0.spec_window() == Some(order[window as int]),
                SurfaceDest::SplitInto { window, .. } => window < order.len() && hover is Some
                    && hover->0.spec_window() == Some(order[window as int]),
            }
        },
{
    lemma_first_index(order, source);
    if let Some(h) = hover {
        if let Some(w) = h.spec_window() {
            lemma_first_index(order, w);
        }
    }
}

// ---- a window that goes ----------------------------------------------------

/// The drag after a window has closed: the drag of that window ends, a hover over it is dropped.
pub open spec fn after_close(drag: Option<DragState>, id: WindowId) -> Option<DragState> {
    match drag {
        Some(d) => if d.source_window == id {
            None
        } else if d.hover is Some && d.hover->0.spec_window() == Some(id) {
            Some(DragState { hover: None, ..d })
        } else {
            drag
        },
        None => None,
    }
}

/// Drops what a drag has to do with a window that closes. The result tells that the drag ended.
pub fn clear_drag_on_window_close(drag: &mut Option<DragState>, id: WindowId) -> (r: bool)
    ensures
        *final(drag) == after_close(*old(drag), id),
        r == (*old(drag) matches Some(d) && d.source_window == id),
{
    let ends = match drag {
        Some(d) => d.source_window == id,
        None => return false,
    };
    if ends {
        *drag = None;
        return true;
    }
    match drag {
        Some(d) => {
            let over = match d.hover {
                Some(DropHover::Strip { window, .. }) => window == id,
                Some(DropHover::Pane { window, .. }) => window == id,
                _ => false,
            };
            if over {
                d.hover = None;
            }
        },
        None => {},
    }
    false
}

/// After a window has closed no drag comes from it and none hovers it.
pub proof fn law_no_drag_names_a_closed_window(drag: Option<DragState>, id: WindowId)
    ensures
        after_close(drag, id) matches Some(d) ==> d.source_window != id && (d.hover matches Some(h)
            ==> h.spec_window() != Some(id)),
{
}

/// Gives up whatever drag there is. The result is the window that takes its surface back.
pub fn cancel_drag_everywhere(drag: &mut Option<DragState>) -> (r: Option<WindowId>)
    ensures
        *final(drag) is None,
        r == (match *old(drag) {
            Some(d) => Some(d.source_window),
            None => None,
        }),
{
    match drag.take() {
        Some(d) => Some(d.source_window),
        None => None,
    }
}

// ---- drops -----------------------------------------------------------------

/// A drop that ends in a move carries exactly what was dragged: that tab, or that pane of that
/// tab. Only the number of the window is looked up anew, and it is the number of the source.
pub proof fn law_drops_carry_the_dragged_surface(
    order: Seq<WindowId>,
    window_id: WindowId,
    n_tabs: nat,
    surface: SurfaceRef,
    source: WindowId,
    hover: Option<DropHover>,
)
    requires
        order.len() <= usize::MAX,
    ensures
        drop_outcome(order, window_id, n_tabs, surface, source, hover).pending matches Some((src, _))
            ==> match surface {
            SurfaceRef::Tab { tab, .. } => src matches SurfaceRef::Tab { window, tab: t } && t == tab
                && window < order.len() && order[window as int] == source,
            SurfaceRef::Pane { tab, pane, .. } => src matches SurfaceRef::Pane {
                window,
                tab: t,
                pane: p,
            } && t == tab && p == pane && window < order.len() && order[window as int] == source,
        },
{
    lemma_first_index(order, source);
}

/// A drop lands where the pointer is: on no window it opens one there, on the strip of another
/// window it becomes a tab of that window, near the edge of a pane it splits that pane on that
/// side, and in the middle of a pane it becomes a tab of the pane's window.
#[verifier::rlimit(40)]
pub proof fn law_drops_land_under_the_pointer(
    order: Seq<WindowId>,
    window_id: WindowId,
    n_tabs: nat,
    surface: SurfaceRef,
    source: WindowId,
    hover: DropHover,
    at: usize,
)
    requires
        order.contains(source),
        order.no_duplicates(),
        hover.spec_window() is Some ==> at < order.len() && hover.spec_window() == Some(
            order[at as int],
        ),
        !(surface is Tab && hover is Strip && hover.spec_window() == Some(window_id)),
    ensures
        ({
            let o = drop_outcome(order, window_id, n_tabs, surface, source, Some(hover));
            &&& o.ended == DragEnded::Move
            &&& o.reorder is None && o.show is None && !o.pour_out
            &&& o.at_pointer <==> hover == DropHover::Desktop
            &&& o.pending matches Some((_, dest)) && match hover {
                DropHover::Desktop => dest == SurfaceDest::NewWindow,
                DropHover::Strip { .. } => dest == (SurfaceDest::NewTab { window: at }),
                DropHover::Pane { tab, pane, zone: DropZone::Edge { axis, before }, .. } => dest == (
                SurfaceDest::SplitInto { window: at, tab, pane, axis, before }),
                DropHover::Pane { zone: DropZone::Center, .. } => dest == (SurfaceDest::NewTab {
                    window: at,
                }),
            }
        }),
{
    lemma_first_index(order, source);
    if let Some(w) = hover.spec_window() {
        lemma_first_index(order, w);
        assert(order.contains(order[at as int]));
        match first_index(order, w) {
            Some(i) => {
                assert(order[i] == order[at as int]);
                assert(i == at);
            },
            None => {},
        }
    }
}

/// The window of a hover is the one that it names.
pub proof fn law_hovers_name_their_window(window: WindowId, n: usize, chip: Option<usize>, pane: PaneId, zone: DropZone)
    ensures
        (DropHover::Strip { window, insert_at: n, chip }).spec_window() == Some(window),
        (DropHover::Pane { window, tab: n, pane, zone }).spec_window() == Some(window),
        DropHover::Desktop.spec_window() is None,
{
}

/// A tab dropped on the strip it came from goes to the place under the pointer, or behind the
/// last where that is past the end, and is shown there; where it stays in its place nothing is
/// reordered. No move is left to carry out.
pub proof fn law_tabs_change_places_in_their_strip(
    order: Seq<WindowId>,
    window_id: WindowId,
    n_tabs: nat,
    window: usize,
    tab: usize,
    source: WindowId,
    insert_at: usize,
    chip: Option<usize>,
)
    requires
        order.contains(source),
    ensures
        ({
            let o = drop_outcome(
                order,
                window_id,
                n_tabs,
                SurfaceRef::Tab { window, tab },
                source,
                Some(DropHover::Strip { window: window_id, insert_at, chip }),
            );
            &&& o.pending is None && !o.at_pointer && o.pour_out
            &&& o.ended == DragEnded::Reorder <==> tab < n_tabs
            &&& o.ended == DragEnded::Cancel <==> tab >= n_tabs
            &&& tab < n_tabs && insert_at < n_tabs ==> o.show == Some(insert_at)
            &&& tab < n_tabs && insert_at >= n_tabs && n_tabs <= usize::MAX ==> o.show == Some(
                (n_tabs - 1) as usize,
            )
            &&& tab < n_tabs ==> (o.reorder == match o.show {
                Some(to) if to != tab => Some((tab, to)),
                _ => None,
            })
        }),
{
    lemma_first_index(order, source);
}

/// Without a target a drag is given up: where the source window is gone nothing is seen of it,
/// where the pointer is over nothing the surface is seen to grow back. A target window that is
/// gone lets a pane grow back; a tab just ends.
pub proof fn law_lost_drops_are_given_up(
    order: Seq<WindowId>,
    window_id: WindowId,
    n_tabs: nat,
    surface: SurfaceRef,
    source: WindowId,
    hover: Option<DropHover>,
)
    requires
        order.contains(window_id),
    ensures
        ({
            let o = drop_outcome(order, window_id, n_tabs, surface, source, hover);
            &&& !order.contains(source) ==> o.ended == DragEnded::Cancel && !o.pour_out
            &&& order.contains(source) && hover is None ==> o.ended == DragEnded::Cancel && o.pour_out
            &&& order.contains(source) && (hover matches Some(h) && h.spec_window() is Some
                && !order.contains(h.spec_window()->0)) ==> {
                &&& o.ended == DragEnded::Cancel
                &&& o.pour_out <==> surface is Pane
            }
            &&& o.ended == DragEnded::Cancel ==> o.pending is None && o.reorder is None && o.show
                is None && !o.at_pointer
        }),
{
    lemma_first_index(order, source);
    if let Some(i) = first_index(order, source) {
        assert(order.contains(order[i]));
    }
    if let Some(h) = hover {
        if let Some(w) = h.spec_window() {
            lemma_first_index(order, w);
            if let Some(i) = first_index(order, w) {
                assert(order.contains(order[i]));
            }
        }
    }
}

/// A press on a pane of several carries that pane of that tab; one on a pane that is alone
/// carries the tab.
pub proof fn law_presses_carry_what_is_under_them(window: usize, tab: usize, pane: PaneId, n: nat)
    ensures
        n >= 2 ==> carried_by(window, tab, pane, n) == (SurfaceRef::Pane { window, tab, pane }),
        n <= 1 ==> carried_by(window, tab, pane, n) == (SurfaceRef::Tab { window, tab }),
{
}

/// The tab that stands in for a dragged one is its neighbour: the one before, and only for the
/// first the one behind.
pub proof fn law_neighbours_stand_in(n: int, dragged: int)
    ensures
        n <= 1 ==> fallback_tab(n, dragged) is None,
        n >= 2 ==> (fallback_tab(n, dragged) matches Some(i) && (if dragged == 0 {
            i == 1
        } else {
            i + 1 == dragged
        })),
{
}

/// A tab that is torn off uncovers the tab that was active before the press, where that is
/// another one.
pub proof fn law_tearing_off_shows_the_origin(ids: Seq<TabId>, active: int, tab: int, at: int)
    requires
        0 <= at < ids.len(),
        ids.no_duplicates(),
    ensures
        at != tab ==> shown_after_tear_off(ids, active, tab, ids[at]) == at,
        ids.len() == 1 && at == tab ==> shown_after_tear_off(ids, active, tab, ids[at]) == active,
{
    lemma_first_index(ids, ids[at]);
    assert(ids.contains(ids[at]));
}

/// A drag keeps the number of its window, and the first one's where the window is not listed.
pub proof fn law_drags_number_their_window(order: Seq<WindowId>, at: int, other: WindowId)
    requires
        0 <= at < order.len() <= usize::MAX,
        order.no_duplicates(),
    ensures
        window_number(order, order[at]) == at,
        !order.contains(other) ==> window_number(order, other) == 0,
{
    lemma_first_index(order, order[at]);
    assert(order.contains(order[at]));
    lemma_first_index(order, other);
    if let Some(i) = first_index(order, other) {
        assert(order.contains(order[i]));
    }
}

/// A drag that has just begun has not left its window, hovers nowhere and has raised nothing; let
/// go at once it changes nothing.
pub proof fn law_fresh_drags_change_nothing(
    d: DragState,
    surface: SurfaceRef,
    source: WindowId,
    title: Seq<char>,
    order: Seq<WindowId>,
    window_id: WindowId,
    n_tabs: nat,
)
    requires
        is_fresh(d, surface, source, title),
    ensures
        d.surface == surface && d.source_window == source && d.title@ == title,
        !d.carried && d.hover is None && d.last_raised is None,
        drop_outcome(order, window_id, n_tabs, d.surface, d.source_window, d.hover).ended
            == DragEnded::Cancel,
{
}

/// What a window leaves out while it is carried from: the pane, the tab of that number, or itself
/// where the tab is its only one or is gone.
pub proof fn law_windows_leave_out_what_is_carried(ids: Seq<TabId>, window: usize, tab: usize, pane: PaneId)
    ensures
        exclusion_of(SurfaceRef::Pane { window, tab, pane }, ids) == CarriedExclusion::Pane(pane),
        ids.len() >= 2 && tab < ids.len() ==> exclusion_of(SurfaceRef::Tab { window, tab }, ids)
            == CarriedExclusion::Tab(ids[tab as int]),
        ids.len() <= 1 || tab >= ids.len() ==> exclusion_of(SurfaceRef::Tab { window, tab }, ids)
            == CarriedExclusion::WholeWindow,
{
}

/// What is left out is hidden only once that is applied, and only as what it is; it is applied
/// when the morph is over, a whole window only once the pointer has left it.
pub proof fn law_exclusion_hides_what_it_names(tab: TabId, pane: PaneId, applied: bool, hidden: bool, morphing: bool, carried: bool)
    ensures
        ({
            let t = Exclusion {
                carried: Some(CarriedExclusion::Tab(tab)),
                applied,
                hidden_for_carry: hidden,
            };
            let p = Exclusion {
                carried: Some(CarriedExclusion::Pane(pane)),
                applied,
                hidden_for_carry: hidden,
            };
            let w = Exclusion {
                carried: Some(CarriedExclusion::WholeWindow),
                applied,
                hidden_for_carry: hidden,
            };
            let none = Exclusion { carried: None, applied, hidden_for_carry: hidden };
            let due = !applied && !morphing;
            &&& t.spec_hidden_tab() == (if applied { Some(tab) } else { None })
            &&& p.spec_hidden_pane() == (if applied { Some(pane) } else { None })
            &&& t.spec_hidden_pane() is None && p.spec_hidden_tab() is None
            &&& w.spec_hidden_tab() is None && w.spec_hidden_pane() is None
            &&& none.spec_hidden_tab() is None && none.spec_hidden_pane() is None
            &&& t.spec_apply(morphing, carried) == ExclusionStep::Relayout <==> due
            &&& p.spec_apply(morphing, carried) == ExclusionStep::Relayout <==> due
            &&& w.spec_apply(morphing, carried) == ExclusionStep::HideWindow <==> due && carried
            &&& !due ==> t.spec_apply(morphing, carried) == ExclusionStep::Nothing
            &&& !(due && carried) ==> w.spec_apply(morphing, carried) == ExclusionStep::Nothing
            &&& none.spec_apply(morphing, carried) == ExclusionStep::Nothing
        }),
{
}

/// A spot in a window hovers where it is: a chip of the strip at its tab, counted with the hidden
/// one, the place behind the chips at the last tab, a pane as that pane of the tab on show; the
/// rest of the window nowhere.
#[verifier::rlimit(40)]
pub proof fn law_spots_hover_where_they_are(window: WindowId, tree: WindowTree, ex: Exclusion, i: usize, session: SessionId, zone: DropZone, hidden: int)
    requires
        ex.spec_hidden_tab() matches Some(id) ==> 0 <= hidden < tree.tabs@.len()
            && tree.spec_tab_ids().no_duplicates() && tree.spec_tab_ids()[hidden] == id,
        i < usize::MAX,
        tree.tabs@.len() <= usize::MAX,
    ensures
        hover_of(window, tree, ex, Spot::Outside) is None,
        hover_of(window, tree, ex, Spot::Body) is None,
        hover_of(window, tree, ex, Spot::Strip(None)) is None,
        ({
            let place = if ex.spec_hidden_tab() is Some && i >= hidden {
                i + 1
            } else {
                i as int
            };
            hover_of(window, tree, ex, Spot::Strip(Some(StripSlot::Tab(i)))) == Some(
                DropHover::Strip { window, insert_at: place as usize, chip: Some(place as usize) },
            )
        }),
        tree.tabs@.len() > 0 ==> hover_of(window, tree, ex, Spot::Strip(Some(StripSlot::Behind)))
            == Some(
            DropHover::Strip { window, insert_at: (tree.tabs@.len() - 1) as usize, chip: None },
        ),
        match tree.tabs@[tree.active as int].root.spec_pane_of(session@) {
            Some(pane) => hover_of(window, tree, ex, Spot::Pane { session, zone }) == Some(
                DropHover::Pane { window, tab: tree.active, pane, zone },
            ),
            None => hover_of(window, tree, ex, Spot::Pane { session, zone }) is None,
        },
{
    if let Some(id) = ex.spec_hidden_tab() {
        let ids = tree.spec_tab_ids();
        lemma_first_index(ids, id);
        assert(ids.contains(ids[hidden]));
    }
}

/// A surface is not dropped on itself: a tab on no pane of its own, a pane not on itself. Every
/// other hover stays.
pub proof fn law_nothing_is_dropped_on_itself(window: usize, tab: usize, pane: PaneId, hovered: WindowId, t: usize, p: PaneId, zone: DropZone, hover: DropHover)
    ensures
        ({
            let over = Some(DropHover::Pane { window: hovered, tab: t, pane: p, zone });
            let of_tab = without_self_merge(SurfaceRef::Tab { window, tab }, over);
            let of_pane = without_self_merge(SurfaceRef::Pane { window, tab, pane }, over);
            &&& of_tab == (if t == tab { None } else { over })
            &&& of_pane == (if t == tab && p == pane { None } else { over })
            &&& hover !is Pane ==> without_self_merge(SurfaceRef::Tab { window, tab }, Some(hover))
                == Some(hover) && without_self_merge(
                SurfaceRef::Pane { window, tab, pane },
                Some(hover),
            ) == Some(hover)
        }),
{
}

/// What a window shows of a surface of its own that hovers over it: near an edge half of the pane
/// is marked, side by side or stacked as the edge is and on its side; on the strip a pane shows a
/// tab to come, under its title, while a tab is lifted itself.
pub proof fn law_own_hover_is_seen(tree: WindowTree, surface: SurfaceRef, title: Seq<char>, window: WindowId, n: usize, chip: Option<usize>, pane: PaneId, axis: Axis, before: bool, session: Seq<char>, v: HoverVisuals)
    requires
        tree.tabs@[tree.active as int].root.spec_session_of(pane) == Some(session),
    ensures
        own_visuals(
            tree,
            surface,
            title,
            Some(
                DropHover::Pane { window, tab: n, pane, zone: DropZone::Edge { axis, before } },
            ),
            v,
        ) ==> (v.split matches SplitVisual::Show { session: s, horizontal, before: b, whole }
            && s@ == session && (horizontal <==> axis == Axis::Horizontal) && b == before && !whole)
            && v.phantom is Clear && v.spring is None,
        own_visuals(
            tree,
            surface,
            title,
            Some(DropHover::Strip { window, insert_at: n, chip }),
            v,
        ) ==> {
            &&& v.split is Clear && v.spring == chip
            &&& match surface {
                SurfaceRef::Tab { tab, .. } => v.phantom is Keep && v.lifted == Some(tab),
                SurfaceRef::Pane { .. } => v.lifted is None && (v.phantom matches PhantomTab::Show(
                    t,
                ) && t@ == title),
            }
        },
        own_visuals(tree, surface, title, None, v) ==> v.split is Clear && v.phantom is Clear
            && v.spring is None,
{
}

/// What a window shows of a surface from elsewhere: as of its own, but for the middle of a pane,
/// which is marked whole; without a title the tab to come shows a plus sign.
pub proof fn law_incoming_drop_is_seen(tree: WindowTree, title: Seq<char>, window: WindowId, n: usize, chip: Option<usize>, pane: PaneId, axis: Axis, before: bool, session: Seq<char>, v: HoverVisuals)
    requires
        tree.tabs@[tree.active as int].root.spec_session_of(pane) == Some(session),
    ensures
        incoming_visuals(
            tree,
            Some(
                DropHover::Pane { window, tab: n, pane, zone: DropZone::Edge { axis, before } },
            ),
            Some(title),
            v,
        ) ==> (v.split matches SplitVisual::Show { session: s, horizontal, before: b, whole }
            && s@ == session && (horizontal <==> axis == Axis::Horizontal) && b == before && !whole)
            && v.phantom is Clear,
        incoming_visuals(
            tree,
            Some(DropHover::Pane { window, tab: n, pane, zone: DropZone::Center }),
            Some(title),
            v,
        ) ==> (v.split matches SplitVisual::Show { session: s, whole, .. } && s@ == session
            && whole) && v.phantom is Clear,
        incoming_visuals(
            tree,
            Some(DropHover::Strip { window, insert_at: n, chip }),
            Some(title),
            v,
        ) && title.len() > 0 ==> v.split is Clear && v.spring == chip && (v.phantom
            matches PhantomTab::Show(t) && t@ == title),
        incoming_visuals(
            tree,
            Some(DropHover::Strip { window, insert_at: n, chip }),
            None,
            v,
        ) ==> (v.phantom matches PhantomTab::Show(t) && t@ == "\u{ff0b}"@),
        incoming_visuals(tree, None, Some(title), v) ==> v.split is Clear && v.phantom is Clear
            && v.spring is None,
{
}

/// While the pointer is in the source window the hover stays as that window found it. Outside, the
/// hover is what is under the pointer: nothing means a window of its own, another window its own
/// finding, and the source none.
pub proof fn law_carried_hover_follows_the_pointer(d: DragState, id: WindowId, h: Option<DropHover>)
    ensures
        carried_on(d, false, Under::Desktop).hover == d.hover,
        carried_on(d, false, Under::Desktop).carried == d.carried,
        carried_on(d, true, Under::Desktop).hover == Some(DropHover::Desktop),
        carried_on(d, true, Under::Desktop).carried,
        id != d.source_window ==> {
            let n = carried_on(d, true, Under::Window { id, hover: Some(h) });
            let s = carry_step(d, true, Under::Window { id, hover: Some(h) });
            &&& n.hover == h
            &&& n.last_raised == Some(id)
            &&& s.raise == (if d.last_raised == Some(id) { None } else { Some(id) })
            &&& s.keep_preview == Some(id)
            &&& s.preview == Some((id, h))
        },
        carried_on(
            d,
            true,
            Under::Window { id: d.source_window, hover: Some(h) },
        ).hover is None,
        carried_on(d, true, Under::Window { id, hover: None }).hover == (if id == d.source_window {
            None
        } else {
            d.hover
        }),
        forall|outside: bool, under: Under|
            {
                let n = #[trigger] carried_on(d, outside, under);
                &&& n.surface == d.surface && n.source_window == d.source_window && n.title
                    == d.title
                &&& n.carried <==> d.carried || outside
            },
        carry_step(d, false, Under::Desktop).keep_preview == Some(d.source_window),
        carry_step(d, true, Under::Desktop).keep_preview is None,
        carry_step(d, true, Under::Desktop).just_carried <==> !d.carried,
        !carry_step(d, false, Under::Desktop).just_carried,
{
}

/// A window that closes ends the drag that it is the source of, and takes the hover from one that
/// is over it; every other drag goes on unchanged.
pub proof fn law_closing_spares_other_drags(d: DragState, id: WindowId)
    ensures
        after_close(None, id) is None,
        after_close(Some(d), id) is None <==> d.source_window == id,
        after_close(Some(d), id) matches Some(n) ==> {
            &&& n.surface == d.surface && n.source_window == d.source_window && n.title == d.title
            &&& n.carried == d.carried && n.last_raised == d.last_raised
            &&& n.hover == (match d.hover {
                Some(h) if h.spec_window() == Some(id) => None,
                h => h,
            })
        },
{
}

/// The names by which the endings of a drag are reported.
pub proof fn law_endings_have_names(e: DragEnded)
    ensures
        e == DragEnded::Reorder ==> e.spec_str() == "reorder"@,
        e == DragEnded::Move ==> e.spec_str() == "move"@,
        e == DragEnded::Cancel ==> e.spec_str() == "cancel"@,
        e == DragEnded::Selection ==> e.spec_str() == "selection"@,
        e == DragEnded::Nothing ==> e.spec_str() == "none"@,
{
}

/// A window begins to leave a surface out with nothing applied, applies that at most once, and
/// ends it with nothing left out; one that was hidden for it is shown again once, when it ends.
pub proof fn law_exclusion_runs_its_course(e: &mut Exclusion, step: ExclusionStep, morphing: bool, carried: bool, shown: bool)
    ensures
        call_ensures(Exclusion::apply_carried_exclusion, (e, morphing, carried), step) ==> {
            &&& step == old(e).spec_apply(morphing, carried)
            &&& final(e).carried == old(e).carried
            &&& final(e).hidden_for_carry == old(e).hidden_for_carry
            &&& final(e).applied <==> old(e).applied || step != ExclusionStep::Nothing
        },
        call_ensures(Exclusion::clear_carried_exclusion, (e,), step) ==> {
            &&& step == ExclusionStep::Relayout <==> old(e).applied
            &&& step == ExclusionStep::Nothing <==> !old(e).applied
            &&& final(e).carried is None && !final(e).applied
            &&& final(e).hidden_for_carry <==> old(e).hidden_for_carry || (old(e).applied
                && old(e).carried == Some(CarriedExclusion::WholeWindow))
        },
        call_ensures(Exclusion::finish_carry_reshow, (e,), shown) ==> {
            &&& shown <==> old(e).hidden_for_carry
            &&& !final(e).hidden_for_carry
            &&& final(e).carried == old(e).carried && final(e).applied == old(e).applied
        },
{
}

/// Only the source window steers a drag; for every other window it stays as it is. A drag that
/// is called off is gone, and its source is told.
pub proof fn law_the_source_steers_the_drag(drag: &mut Option<DragState>, id: WindowId, outside: bool, under: Under, tree: WindowTree, found: Option<DropHover>, step: Option<CarryStep>, seen: Option<HoverVisuals>, told: Option<WindowId>, ended: bool)
    ensures
        call_ensures(update_cross_window_drag, (drag, id, outside, under), step) ==> match *old(drag) {
            Some(d) if d.source_window == id => step is Some && (*final(drag) matches Some(n)
                && n.surface == d.surface && n.source_window == id && (outside ==> n.carried)),
            _ => step is None && *final(drag) == *old(drag),
        },
        call_ensures(update_drag_hover, (drag, id, &tree, found), seen) ==> match *old(drag) {
            Some(d) if d.source_window == id => seen is Some && (*final(drag) matches Some(n)
                && n.surface == d.surface && n.source_window == id && n.carried == d.carried
                && n.hover == without_self_merge(d.surface, found)),
            _ => seen is None && *final(drag) == *old(drag),
        },
        call_ensures(clear_drag_on_window_close, (drag, id), ended) ==> {
            &&& ended <==> (*old(drag) matches Some(d) && d.source_window == id)
            &&& ended ==> *final(drag) is None
        },
        call_ensures(cancel_drag_everywhere, (drag,), told) ==> {
            &&& *final(drag) is None
            &&& *old(drag) matches Some(d) ==> told == Some(d.source_window)
            &&& *old(drag) is None ==> told is None
        },
{
}

/// A zone of a pane means a split of it on that side, or a tab of its window; a tab meets itself
/// on any pane of its own, a pane only on itself.
pub proof fn law_zones_mean_what_they_mark(axis: Axis, before: bool, window: usize, tab: usize, pane: PaneId, t: usize, p: PaneId, r: SurfaceDest, own: bool)
    ensures
        call_ensures(drop_zone_to_dest, (DropZone::Edge { axis, before }, window, tab, pane), r) ==> r
            == (SurfaceDest::SplitInto { window, tab, pane, axis, before }),
        call_ensures(drop_zone_to_dest, (DropZone::Center, window, tab, pane), r) ==> r == (
        SurfaceDest::NewTab { window }),
        call_ensures(hover_is_self_merge, (SurfaceRef::Tab { window, tab }, t, p), own) ==> (own
            <==> t == tab),
        call_ensures(hover_is_self_merge, (SurfaceRef::Pane { window, tab, pane }, t, p), own) ==> (
        own <==> t == tab && p == pane),
{
}

/// A carried tab or pane shows the title of its tab, its number where it has none.
pub proof fn law_carried_surfaces_show_their_title(tree: WindowTree, tab: int)
    ensures
        0 <= tab < tree.tabs@.len() ==> carried_title(tree, tab) == display_title(
            tree.tabs@[tab].title@,
            tab as nat,
        ),
        tab >= tree.tabs@.len() ==> carried_title(tree, tab).len() == 0,
{
}

/// A tab that is torn off is carried from its window under its title, and a pane is carried from
/// the tab on show, as itself where it is one of several.
pub proof fn law_drags_start_with_what_is_pressed(tree: &mut WindowTree, seen: WindowTree, order: &[WindowId], id: WindowId, tab: usize, origin: TabId, pane: PaneId, d: DragState)
    ensures
        call_ensures(tear_off_tab, (tree, order, id, tab, origin), d) ==> {
            &&& d.surface matches SurfaceRef::Tab { window, tab: t } && t == tab && window
                == window_number(order@, id)
            &&& d.source_window == id && !d.carried && d.hover is None
            &&& d.title@ == carried_title(*old(tree), tab as int)
            &&& final(tree).tabs == old(tree).tabs
        },
        seen.active < seen.tabs@.len() && call_ensures(start_pane_drag, (&seen, order, id, pane), d)
            ==> {
            let n = seen.tabs@[seen.active as int].root.spec_panes().len();
            &&& n >= 2 ==> d.surface == (SurfaceRef::Pane {
                window: window_number(order@, id),
                tab: seen.active,
                pane,
            })
            &&& n <= 1 ==> d.surface == (SurfaceRef::Tab {
                window: window_number(order@, id),
                tab: seen.active,
            })
            &&& d.source_window == id && !d.carried && d.hover is None
            &&& d.title@ == carried_title(seen, seen.active as int)
        },
{
}

} // verus!
