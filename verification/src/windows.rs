//! The open windows: their order, the focus among them, and moving tabs and panes between them.

use vstd::prelude::*;
use vstd::std_specs::cmp::PartialEqSpec;
use crate::control::{MoveTabTarget, PromotePaneTarget};
use crate::layout::{first_index, lemma_first_index, lemma_first_index_is, Axis, PaneId, SessionId, WindowId};
use crate::text::{decimal, push_decimal};

verus! {

broadcast use vstd::seq_lib::group_seq_properties;

/// A tab or a pane, by the number of its window in the order of the windows.
#[derive(Clone, Copy, Debug, PartialEq, Eq, Structural)]
pub enum SurfaceRef {
    Pane { window: usize, tab: usize, pane: PaneId },
    Tab { window: usize, tab: usize },
}

/// Where a tab or a pane is moved to.
#[derive(Clone, Copy, Debug, PartialEq, Eq, Structural)]
pub enum SurfaceDest {
    NewWindow,
    /// A tab of its own, behind the others of the window.
    NewTab { window: usize },
    /// Beside or below a pane, or before it.
    SplitInto { window: usize, tab: usize, pane: PaneId, axis: Axis, before: bool },
}

// ---- order -----------------------------------------------------------------

/// The position of the first item of `order` that equals `id`, as the type compares its values.
pub fn resolve_index<T: PartialEq>(order: &[T], id: &T) -> (r: Option<usize>)
    ensures
        r matches Some(i) ==> i < order@.len(),
        T::obeys_eq_spec() ==> match r {
            Some(i) => order@[i as int].eq_spec(id) && forall|j: int|
                0 <= j < i ==> !(#[trigger] order@[j]).eq_spec(id),
            None => forall|j: int| 0 <= j < order@.len() ==> !(#[trigger] order@[j]).eq_spec(id),
        },
{
    let mut i: usize = 0;
    while i < order.len()
        invariant
            i <= order@.len(),
            T::obeys_eq_spec() ==> forall|j: int|
                0 <= j < i ==> !(#[trigger] order@[j]).eq_spec(id),
        decreases order@.len() - i,
    {
        if order[i] == *id {
            return Some(i);
        }
        i += 1;
    }
    None
}

/// The number of a window in the order of the windows.
pub fn resolve_window_index(order: &[WindowId], id: WindowId) -> (r: Option<usize>)
    ensures
        match r {
            Some(i) => i < order@.len() && order@[i as int] == id && forall|j: int|
                0 <= j < i ==> order@[j] != id,
            None => !order@.contains(id),
        },
        first_index(order@, id) == (match r {
            Some(i) => Some(i as int),
            None => None,
        }),
{
    let ids = window_numbers(order);
    let r = resolve_index(ids.as_slice(), &id.0);
    proof {
        lemma_first_index(order@, id);
        assert(forall|j: int| 0 <= j < order@.len() ==> (order@[j] == id <==> ids@[j] == id.0));
        if let Some(i) = r {
            lemma_first_index_is(order@, id, i as int);
        }
    }
    r
}

/// The numbers behind the identities of windows.
fn window_numbers(order: &[WindowId]) -> (r: Vec<u64>)
    ensures
        r@.len() == order@.len(),
        forall|j: int| 0 <= j < order@.len() ==> #[trigger] r@[j] == order@[j].0,
{
    let mut ids: Vec<u64> = Vec::new();
    let mut i: usize = 0;
    while i < order.len()
        invariant
            i <= order@.len(),
            ids@.len() == i,
            forall|j: int| 0 <= j < i ==> #[trigger] ids@[j] == order@[j].0,
        decreases order@.len() - i,
    {
        ids.push(order[i].0);
        i += 1;
    }
    ids
}

/// The number after `w` or before it, round a circle of `n`.
pub open spec fn neighbour(w: int, n: int, next: bool) -> int {
    if next {
        (w + 1) % n
    } else {
        (w + n - 1) % n
    }
}

/// The number of the next or the previous window, round a circle of `n`.
pub fn next_prev_index(w: usize, n: usize, next: bool) -> (r: usize)
    requires
        w < n,
    ensures
        r == neighbour(w as int, n as int, next),
        r < n,
{
    if next {
        if w + 1 == n {
            proof {
                vstd::arithmetic::div_mod::lemma_mod_self_0(n as int);
            }
            0
        } else {
            proof {
                vstd::arithmetic::div_mod::lemma_small_mod((w + 1) as nat, n as nat);
            }
            w + 1
        }
    } else {
        if w == 0 {
            proof {
                vstd::arithmetic::div_mod::lemma_small_mod((n - 1) as nat, n as nat);
            }
            n - 1
        } else {
            proof {
                vstd::arithmetic::div_mod::lemma_mod_add_multiples_vanish((w - 1) as int, n as int);
                assert(w + n - 1 == n + (w - 1));
                vstd::arithmetic::div_mod::lemma_small_mod((w - 1) as nat, n as nat);
            }
            w - 1
        }
    }
}

/// Going on and going back undo each other.
pub proof fn law_next_and_prev_are_inverse(w: int, n: int)
    requires
        0 <= w < n,
    ensures
        neighbour(neighbour(w, n, true), n, false) == w,
        neighbour(neighbour(w, n, false), n, true) == w,
{
    lemma_neighbour(w, n, true);
    lemma_neighbour(w, n, false);
    lemma_neighbour(neighbour(w, n, true), n, false);
    lemma_neighbour(neighbour(w, n, false), n, true);
}

proof fn lemma_neighbour(w: int, n: int, next: bool)
    requires
        0 <= w < n,
    ensures
        neighbour(w, n, next) == (if next {
            if w + 1 == n { 0 } else { w + 1 }
        } else {
            if w == 0 { n - 1 } else { w - 1 }
        }),
{
    if next {
        if w + 1 < n {
            vstd::arithmetic::div_mod::lemma_small_mod((w + 1) as nat, n as nat);
        } else {
            vstd::arithmetic::div_mod::lemma_mod_self_0(n);
        }
    } else {
        if w == 0 {
            vstd::arithmetic::div_mod::lemma_small_mod((n - 1) as nat, n as nat);
        } else {
            vstd::arithmetic::div_mod::lemma_mod_add_multiples_vanish(w - 1, n);
            vstd::arithmetic::div_mod::lemma_small_mod((w - 1) as nat, n as nat);
        }
    }
}

// ---- what is moved where ---------------------------------------------------

pub enum MoveBuild {
    Move(SurfaceRef, SurfaceDest),
    Refuse(Seq<char>),
}

pub open spec fn build_view(r: Result<(SurfaceRef, SurfaceDest), String>) -> MoveBuild {
    match r {
        Ok((s, d)) => MoveBuild::Move(s, d),
        Err(e) => MoveBuild::Refuse(e@),
    }
}

pub open spec fn untracked() -> MoveBuild {
    MoveBuild::Refuse("focused window not tracked"@)
}

/// Moving the active tab of a window.
pub open spec fn tab_move(order: Seq<WindowId>, id: WindowId, active: usize, target: MoveTabTarget) -> MoveBuild {
    match first_index(order, id) {
        None => untracked(),
        Some(w) => {
            let src = SurfaceRef::Tab { window: w as usize, tab: active };
            let n = order.len();
            match target {
                MoveTabTarget::New => MoveBuild::Move(src, SurfaceDest::NewWindow),
                MoveTabTarget::Window(num) => if num < 1 || num > n {
                    MoveBuild::Refuse(
                        "no window "@ + decimal(num as nat) + " (there are "@ + decimal(n) + ")"@,
                    )
                } else {
                    MoveBuild::Move(src, SurfaceDest::NewTab { window: (num - 1) as usize })
                },
                MoveTabTarget::Next | MoveTabTarget::Prev => if n < 2 {
                    MoveBuild::Refuse("only one window open"@)
                } else {
                    MoveBuild::Move(
                        src,
                        SurfaceDest::NewTab {
                            window: neighbour(w, n as int, target is Next) as usize,
                        },
                    )
                },
            }
        },
    }
}

/// Which tab is moved, and where to. `active` is the active tab of the window.
pub fn build_move_tab(order: &[WindowId], focused_id: WindowId, active: usize, target: MoveTabTarget) -> (r: Result<
    (SurfaceRef, SurfaceDest),
    String,
>)
    ensures
        build_view(r) == tab_move(order@, focused_id, active, target),
{
    proof {
        lemma_first_index(order@, focused_id);
    }
    let w = match resolve_window_index(order, focused_id) {
        Some(w) => w,
        None => return Err("focused window not tracked".to_owned()),
    };
    let src = SurfaceRef::Tab { window: w, tab: active };
    let n: usize = order.len();
    match target {
        MoveTabTarget::New => Ok((src, SurfaceDest::NewWindow)),
        MoveTabTarget::Window(num) => {
            if num < 1 || num > n {
                let mut msg = "no window ".to_owned();
                push_decimal(&mut msg, num as u64);
                msg.append(" (there are ");
                push_decimal(&mut msg, n as u64);
                msg.append(")");
                return Err(msg);
            }
            Ok((src, SurfaceDest::NewTab { window: num - 1 }))
        },
        MoveTabTarget::Next => {
            if n < 2 {
                return Err("only one window open".to_owned());
            }
            Ok((src, SurfaceDest::NewTab { window: next_prev_index(w, n, true) }))
        },
        MoveTabTarget::Prev => {
            if n < 2 {
                return Err("only one window open".to_owned());
            }
            Ok((src, SurfaceDest::NewTab { window: next_prev_index(w, n, false) }))
        },
    }
}

/// A tab that goes to another window never goes to its own by next or previous.
pub proof fn law_next_window_is_another(w: int, n: int, next: bool)
    requires
        0 <= w < n,
        n >= 2,
    ensures
        neighbour(w, n, next) != w,
        0 <= neighbour(w, n, next) < n,
{
    lemma_neighbour(w, n, next);
}

/// Moving the focused pane of a window's active tab.
pub open spec fn pane_promotion(order: Seq<WindowId>, id: WindowId, active: usize, focus: PaneId, target: PromotePaneTarget) -> MoveBuild {
    match first_index(order, id) {
        None => untracked(),
        Some(w) => MoveBuild::Move(
            SurfaceRef::Pane { window: w as usize, tab: active, pane: focus },
            match target {
                PromotePaneTarget::Tab => SurfaceDest::NewTab { window: w as usize },
                PromotePaneTarget::Window => SurfaceDest::NewWindow,
            },
        ),
    }
}

/// Which pane is moved, and where to. `focus` is the focused pane of the active tab.
pub fn build_promote_pane(order: &[WindowId], focused_id: WindowId, active: usize, focus: PaneId, target: PromotePaneTarget) -> (r: Result<
    (SurfaceRef, SurfaceDest),
    String,
>)
    ensures
        build_view(r) == pane_promotion(order@, focused_id, active, focus, target),
{
    let w = match resolve_window_index(order, focused_id) {
        Some(w) => w,
        None => return Err("focused window not tracked".to_owned()),
    };
    let src = SurfaceRef::Pane { window: w, tab: active, pane: focus };
    let dest = match target {
        PromotePaneTarget::Tab => SurfaceDest::NewTab { window: w },
        PromotePaneTarget::Window => SurfaceDest::NewWindow,
    };
    Ok((src, dest))
}

/// Merging the active tab into the one before it.
pub open spec fn tab_merge(order: Seq<WindowId>, id: WindowId, active: usize, prev_focus: Option<PaneId>) -> MoveBuild {
    match first_index(order, id) {
        None => untracked(),
        Some(w) => match prev_focus {
            None => MoveBuild::Refuse("no previous tab"@),
            Some(pane) => MoveBuild::Move(
                SurfaceRef::Tab { window: w as usize, tab: active },
                SurfaceDest::SplitInto {
                    window: w as usize,
                    tab: (active - 1) as usize,
                    pane,
                    axis: Axis::Horizontal,
                    before: false,
                },
            ),
        },
    }
}

/// Which tab is merged, and where to: beside the focused pane of the tab before it.
///
/// `prev_focus` is that pane; there is none for the first tab.
pub fn build_merge_tab(order: &[WindowId], focused_id: WindowId, active: usize, prev_focus: Option<PaneId>) -> (r: Result<
    (SurfaceRef, SurfaceDest),
    String,
>)
    requires
        prev_focus is Some <==> active > 0,
    ensures
        build_view(r) == tab_merge(order@, focused_id, active, prev_focus),
{
    let w = match resolve_window_index(order, focused_id) {
        Some(w) => w,
        None => return Err("focused window not tracked".to_owned()),
    };
    let pane = match prev_focus {
        Some(p) => p,
        None => return Err("no previous tab".to_owned()),
    };
    Ok((
        SurfaceRef::Tab { window: w, tab: active },
        SurfaceDest::SplitInto {
            window: w,
            tab: active - 1,
            pane,
            axis: Axis::Horizontal,
            before: false,
        },
    ))
}

/// The number of the window that a surface is in.
pub fn surface_window_index(src: SurfaceRef) -> (r: usize)
    ensures
        r == src.spec_window(),
{
    match src {
        SurfaceRef::Pane { window, .. } => window,
        SurfaceRef::Tab { window, .. } => window,
    }
}

impl SurfaceRef {
    pub open spec fn spec_window(self) -> usize {
        match self {
            SurfaceRef::Pane { window, .. } => window,
            SurfaceRef::Tab { window, .. } => window,
        }
    }
}

/// Why a surface cannot be moved.
#[derive(Debug, PartialEq, Eq)]
pub enum MoveError {
    /// The only pane of a tab.
    WouldEmptyTab,
    Invalid(String),
}

/// The error in words.
pub fn humanize_move_error(e: MoveError) -> (r: String)
    ensures
        r@ == (match e {
            MoveError::WouldEmptyTab =>
                "the tab's only pane cannot be promoted; move the tab instead"@,
            MoveError::Invalid(msg) => msg@,
        }),
{
    match e {
        MoveError::WouldEmptyTab =>
            "the tab's only pane cannot be promoted; move the tab instead".to_owned(),
        MoveError::Invalid(msg) => msg,
    }
}

// ---- carrying out a move ---------------------------------------------------

/// What moving a surface changes besides the trees.
#[derive(Debug, PartialEq, Eq)]
pub enum MoveEffect {
    /// A window was made; it has this number afterwards.
    WindowOpened { index: usize },
    /// The window that had this number before lost its last tab.
    WindowClosed { index: usize },
    /// These sessions live in the window with this number afterwards.
    SessionsRehomed { sessions: Vec<SessionId>, to_window: usize },
}

/// A step of carrying out a move. Numbers are those after the move.
#[derive(Debug, PartialEq, Eq)]
pub enum MoveStep {
    /// Open a window for the tree at this number.
    Open { slot: usize },
    /// Show the sessions in the window at this number.
    Rehome { sessions: Vec<SessionId>, slot: usize },
    /// Close this window and leave its sessions alone.
    CloseShell { window: Option<WindowId> },
}

pub open spec fn closes(e: MoveEffect) -> bool {
    e is WindowClosed
}

/// The number before the move of the window that closes.
pub open spec fn closed_index(effects: Seq<MoveEffect>) -> Option<usize>
    decreases effects.len(),
{
    if effects.len() == 0 {
        None
    } else {
        match effects[0] {
            MoveEffect::WindowClosed { index } => Some(index),
            _ => closed_index(effects.skip(1)),
        }
    }
}

/// The windows by their numbers after the move; a number without a window is that of the new one.
pub open spec fn slots_after(order: Seq<WindowId>, closed: Option<usize>, count: nat) -> Seq<Option<WindowId>> {
    Seq::new(
        count,
        |i: int|
            match closed {
                Some(c) => if i < c {
                    if i < order.len() { Some(order[i]) } else { None }
                } else {
                    if i + 1 < order.len() { Some(order[i + 1]) } else { None }
                },
                None => if i < order.len() { Some(order[i]) } else { None },
            },
    )
}

/// What carrying out an effect takes. `order` holds the windows by their numbers before the move.
pub open spec fn is_step_of(order: Seq<WindowId>, e: MoveEffect, s: MoveStep) -> bool {
    match e {
        MoveEffect::WindowOpened { index } => s == (MoveStep::Open { slot: index }),
        MoveEffect::WindowClosed { index } => s == (MoveStep::CloseShell {
            window: if index < order.len() { Some(order[index as int]) } else { None },
        }),
        MoveEffect::SessionsRehomed { sessions, to_window } => s == (MoveStep::Rehome {
            sessions,
            slot: to_window,
        }),
    }
}

/// The effects with those that close a window at the end, otherwise in their order.
pub open spec fn closing_last(effects: Seq<MoveEffect>) -> Seq<MoveEffect> {
    effects.filter(|e: MoveEffect| !closes(e)) + effects.filter(|e: MoveEffect| closes(e))
}

/// A move under way.
#[derive(Debug, PartialEq, Eq)]
pub struct MovePlan {
    /// The windows by their numbers after the move, as far as they are open.
    pub slots: Vec<Option<WindowId>>,
    /// What is to be done, in order.
    pub steps: Vec<MoveStep>,
    /// The window that the surface comes from.
    pub source: Option<WindowId>,
    /// The windows to lay out again afterwards.
    pub touched: Vec<WindowId>,
    /// The number of the window that gets the focus.
    pub focus_slot: usize,
}

fn step_for(order: &[WindowId], e: MoveEffect) -> (r: MoveStep)
    ensures
        is_step_of(order@, e, r),
{
    match e {
        MoveEffect::WindowOpened { index } => MoveStep::Open { slot: index },
        MoveEffect::WindowClosed { index } => MoveStep::CloseShell {
            window: if index < order.len() {
                Some(order[index])
            } else {
                None
            },
        },
        MoveEffect::SessionsRehomed { sessions, to_window } => MoveStep::Rehome {
            sessions,
            slot: to_window,
        },
    }
}

/// `steps` carry out `effects`, one each and in order.
pub open spec fn steps_for(order: Seq<WindowId>, effects: Seq<MoveEffect>, steps: Seq<MoveStep>) -> bool {
    &&& steps.len() == effects.len()
    &&& forall|i: int| 0 <= i < steps.len() ==> is_step_of(order, effects[i], #[trigger] steps[i])
}

fn find_closed(effects: &[MoveEffect]) -> (r: Option<usize>)
    ensures
        r == closed_index(effects@),
{
    let mut i: usize = 0;
    assert(effects@.skip(0) == effects@);
    while i < effects.len()
        invariant
            i <= effects@.len(),
            closed_index(effects@) == closed_index(effects@.skip(i as int)),
        decreases effects@.len() - i,
    {
        assert(effects@.skip(i as int)[0] == effects@[i as int]);
        assert(effects@.skip(i as int).skip(1) == effects@.skip(i + 1));
        match &effects[i] {
            MoveEffect::WindowClosed { index } => return Some(*index),
            _ => {},
        }
        i += 1;
    }
    None
}

fn fill_slots(order: &[WindowId], closed: Option<usize>, count: usize) -> (r: Vec<Option<WindowId>>)
    ensures
        r@ == slots_after(order@, closed, count as nat),
{
    let mut out: Vec<Option<WindowId>> = Vec::new();
    let mut i: usize = 0;
    let n: usize = order.len();
    while i < count
        invariant
            i <= count,
            n == order@.len(),
            out@ == slots_after(order@, closed, i as nat),
        decreases count - i,
    {
        let from: usize = match closed {
            Some(c) => {
                if i < c {
                    i
                } else {
                    i + 1
                }
            },
            None => i,
        };
        let slot = if from < n { Some(order[from]) } else { None };
        out.push(slot);
        assert(out@ == slots_after(order@, closed, (i + 1) as nat));
        i += 1;
    }
    out
}

/// The order in which a move is carried out.
///
/// `order` holds the windows by their numbers before the move and `count` says how many there
/// are afterwards. A window that loses its last tab closes at the very end, when all its sessions
/// have their new homes.
pub fn plan_move(
    order: &[WindowId],
    count: usize,
    effects: Vec<MoveEffect>,
    focus_slot: usize,
    src: SurfaceRef,
) -> (r: MovePlan)
    ensures
        r.slots@ == slots_after(order@, closed_index(effects@), count as nat),
        steps_for(order@, closing_last(effects@), r.steps@),
        r.source == (if src.spec_window() < order@.len() {
            Some(order@[src.spec_window() as int])
        } else {
            None
        }),
        r.touched@ == (match r.source {
            Some(w) => seq![w],
            None => Seq::empty(),
        }),
        r.focus_slot == focus_slot,
{
    let closed = find_closed(effects.as_slice());
    let slots = fill_slots(order, closed, count);
    let mut rest = effects;
    let ghost all = rest@;
    let mut steps: Vec<MoveStep> = Vec::new();
    let mut last: Vec<MoveStep> = Vec::new();
    let ghost keep = |e: MoveEffect| !closes(e);
    let ghost close = |e: MoveEffect| closes(e);
    let ghost mut done: int = 0;
    while rest.len() > 0
        invariant
            0 <= done <= all.len(),
            rest@ == all.skip(done),
            keep == (|e: MoveEffect| !closes(e)),
            close == (|e: MoveEffect| closes(e)),
            steps_for(order@, all.take(done).filter(keep), steps@),
            steps_for(order@, all.take(done).filter(close), last@),
        decreases rest@.len(),
    {
        let e = rest.remove(0);
        proof {
            assert(all.take(done + 1) == all.take(done).push(e));
            all.take(done).lemma_filter_push(e, keep);
            all.take(done).lemma_filter_push(e, close);
            assert(all.skip(done).remove(0) == all.skip(done + 1));
        }
        let closing = match &e {
            MoveEffect::WindowClosed { .. } => true,
            _ => false,
        };
        let step = step_for(order, e);
        if closing {
            last.push(step);
        } else {
            steps.push(step);
        }
        proof {
            done = done + 1;
        }
    }
    assert(all.take(done) == all);
    let ghost first = steps@;
    let ghost tail = last@;
    steps.append(&mut last);
    assert(steps@ == first + tail);
    proof {
        let es = closing_last(all);
        assert forall|i: int| 0 <= i < steps@.len() implies is_step_of(
            order@,
            es[i],
            #[trigger] steps@[i],
        ) by {
            if i < first.len() {
                assert(steps@[i] == first[i]);
                assert(es[i] == all.filter(keep)[i]);
            } else {
                assert(steps@[i] == tail[i - first.len()]);
                assert(es[i] == all.filter(close)[i - first.len()]);
            }
        }
    }
    let w: usize = surface_window_index(src);
    let source = if w < order.len() { Some(order[w]) } else { None };
    let mut touched: Vec<WindowId> = Vec::new();
    if let Some(s) = source {
        touched.push(s);
    }
    MovePlan { slots, steps, source, touched, focus_slot }
}

impl MovePlan {
    /// Notes the window that was opened for the tree at `slot`.
    pub fn opened(&mut self, slot: usize, id: WindowId)
        requires
            slot < old(self).slots@.len(),
        ensures
            final(self).slots@ == old(self).slots@.update(slot as int, Some(id)),
            final(self).touched@ == old(self).touched@.push(id),
            final(self).steps == old(self).steps,
            final(self).source == old(self).source,
            final(self).focus_slot == old(self).focus_slot,
    {
        self.slots.set(slot, Some(id));
        self.touched.push(id);
    }

    pub open spec fn spec_home(self, slot: usize) -> Option<WindowId> {
        if slot < self.slots@.len() {
            self.slots@[slot as int]
        } else {
            None
        }
    }

    /// The window at a number, if it is open.
    pub fn home(&self, slot: usize) -> (r: Option<WindowId>)
        ensures
            r == self.spec_home(slot),
    {
        if slot < self.slots.len() {
            self.slots[slot]
        } else {
            None
        }
    }

    /// Notes that sessions were brought to the window `id`.
    pub fn touch(&mut self, id: WindowId)
        ensures
            final(self).touched@ == (if old(self).touched@.contains(id) {
                old(self).touched@
            } else {
                old(self).touched@.push(id)
            }),
            final(self).slots == old(self).slots,
            final(self).steps == old(self).steps,
            final(self).source == old(self).source,
            final(self).focus_slot == old(self).focus_slot,
    {
        proof {
            lemma_first_index(self.touched@, id);
        }
        if resolve_window_index(self.touched.as_slice(), id).is_none() {
            self.touched.push(id);
        }
    }

    /// The window that has the focus after the move, where it had `focused` before.
    pub fn focus(&self, focused: Option<WindowId>) -> (r: Option<WindowId>)
        ensures
            r == (match self.spec_home(self.focus_slot) {
                Some(id) => Some(id),
                None => focused,
            }),
    {
        match self.home(self.focus_slot) {
            Some(id) => Some(id),
            None => focused,
        }
    }
}

/// Every window but the one that closes keeps its place in the order, and each of them has one
/// number after the move.
pub proof fn law_surviving_windows_keep_their_order(order: Seq<WindowId>, closed: Option<usize>, count: nat, i: int)
    requires
        0 <= i < order.len(),
        closed is None || closed->0 < order.len(),
        closed is None ==> count >= order.len(),
        closed is Some ==> count >= order.len() - 1,
        closed is None || i != closed->0,
    ensures
        ({
            let at = if closed is Some && i > closed->0 { i - 1 } else { i };
            0 <= at < count && slots_after(order, closed, count)[at] == Some(order[i])
        }),
{
}

/// A window closes only after every session has been brought to its new home, and nothing in a
/// move ends a session.
pub proof fn law_sessions_move_before_their_window_closes(order: Seq<WindowId>, effects: Seq<MoveEffect>, steps: Seq<MoveStep>, i: int, j: int)
    requires
        steps_for(order, closing_last(effects), steps),
        0 <= i < steps.len(),
        0 <= j < steps.len(),
        steps[i] is CloseShell,
        !(steps[j] is CloseShell),
    ensures
        j < i,
{
    let keep = |e: MoveEffect| !closes(e);
    let close = |e: MoveEffect| closes(e);
}

// ---- windows in front of each other ----------------------------------------

/// The windows without `id`.
pub open spec fn others(order: Seq<WindowId>, id: WindowId) -> Seq<WindowId> {
    order.filter(is_other(id))
}

pub open spec fn is_other(id: WindowId) -> spec_fn(WindowId) -> bool {
    |w: WindowId| w != id
}

/// The focus history with `id` at the front.
pub open spec fn focused_first(history: Seq<WindowId>, id: WindowId) -> Seq<WindowId> {
    seq![id] + others(history, id)
}

fn without_window(order: &[WindowId], id: WindowId) -> (r: Vec<WindowId>)
    ensures
        r@ == others(order@, id),
{
    let mut out: Vec<WindowId> = Vec::new();
    let mut i: usize = 0;
    let ghost other = is_other(id);
    while i < order.len()
        invariant
            i <= order@.len(),
            other == is_other(id),
            out@ == others(order@.take(i as int), id),
        decreases order@.len() - i,
    {
        proof {
            assert(order@.take(i + 1) == order@.take(i as int).push(order@[i as int]));
            order@.take(i as int).lemma_filter_push(order@[i as int], other);
        }
        if order[i] != id {
            out.push(order[i]);
        }
        i += 1;
    }
    assert(order@.take(i as int) == order@);
    out
}

/// Notes that `id` has got the focus.
pub fn note_focused(history: &mut Vec<WindowId>, id: WindowId)
    ensures
        final(history)@ == focused_first(old(history)@, id),
{
    let ghost before = history@;
    let rest = without_window(history.as_slice(), id);
    *history = rest;
    history.insert(0, id);
    assert(history@ == focused_first(before, id));
}

/// The open windows from the front to the back: those focused last come first, and those never
/// focused follow in the order of the windows.
pub open spec fn front_order(history: Seq<WindowId>, order: Seq<WindowId>) -> Seq<WindowId> {
    let seen = history.filter(|w: WindowId| order.contains(w));
    seen + order.filter(|w: WindowId| !seen.contains(w))
}

fn holds_window(order: &[WindowId], id: WindowId) -> (r: bool)
    ensures
        r == order@.contains(id),
{
    proof {
        lemma_first_index(order@, id);
    }
    resolve_window_index(order, id).is_some()
}

/// The open windows from the front to the back, as far as the focus tells.
pub fn window_frames(history: &[WindowId], order: &[WindowId]) -> (r: Vec<WindowId>)
    requires
        order@.no_duplicates(),
    ensures
        r@ == front_order(history@, order@),
{
    let mut seen: Vec<WindowId> = Vec::new();
    let ghost open = |w: WindowId| order@.contains(w);
    let mut i: usize = 0;
    while i < history.len()
        invariant
            i <= history@.len(),
            open == (|w: WindowId| order@.contains(w)),
            seen@ == history@.take(i as int).filter(open),
        decreases history@.len() - i,
    {
        proof {
            assert(history@.take(i + 1) == history@.take(i as int).push(history@[i as int]));
            history@.take(i as int).lemma_filter_push(history@[i as int], open);
        }
        if holds_window(order, history[i]) {
            seen.push(history[i]);
        }
        i += 1;
    }
    assert(history@.take(i as int) == history@);
    let ghost first = seen@;
    let ghost fresh = |w: WindowId| !first.contains(w);
    let mut rest: Vec<WindowId> = Vec::new();
    let mut k: usize = 0;
    while k < order.len()
        invariant
            k <= order@.len(),
            seen@ == first,
            fresh == (|w: WindowId| !first.contains(w)),
            rest@ == order@.take(k as int).filter(fresh),
        decreases order@.len() - k,
    {
        proof {
            assert(order@.take(k + 1) == order@.take(k as int).push(order@[k as int]));
            order@.take(k as int).lemma_filter_push(order@[k as int], fresh);
        }
        if !holds_window(seen.as_slice(), order[k]) {
            rest.push(order[k]);
        }
        k += 1;
    }
    assert(order@.take(k as int) == order@);
    seen.append(&mut rest);
    seen
}

/// Every open window is in front of or behind the others exactly once.
pub proof fn law_each_window_has_one_place(history: Seq<WindowId>, order: Seq<WindowId>)
    requires
        history.no_duplicates(),
        order.no_duplicates(),
    ensures
        front_order(history, order).no_duplicates(),
        forall|w: WindowId| #[trigger] front_order(history, order).contains(w) <==> order.contains(w),
{
    let open = |w: WindowId| order.contains(w);
    let seen = history.filter(open);
    let fresh = |w: WindowId| !seen.contains(w);
    let rest = order.filter(fresh);
    lemma_filter_distinct(history, open);
    lemma_filter_distinct(order, fresh);
    let all = front_order(history, order);
    assert(all == seen + rest);
    assert forall|i: int, j: int| 0 <= i < j < all.len() implies all[i] != all[j] by {
        if i < seen.len() && j >= seen.len() {
            let x = rest[j - seen.len()];
            assert(rest.contains(x));
            lemma_filter_member(order, fresh, x);
            assert(seen.contains(seen[i]));
        } else if j < seen.len() {
            assert(seen[i] != seen[j]);
        } else {
            assert(rest[i - seen.len()] != rest[j - seen.len()]);
        }
    }
    assert forall|w: WindowId| #[trigger] all.contains(w) <==> order.contains(w) by {
        lemma_filter_member(history, open, w);
        lemma_filter_member(order, fresh, w);
        if all.contains(w) {
            let k = choose|k: int| 0 <= k < all.len() && all[k] == w;
            if k < seen.len() {
                assert(seen.contains(w));
            } else {
                assert(rest[k - seen.len()] == w);
                assert(rest.contains(w));
            }
        }
        if order.contains(w) {
            if seen.contains(w) {
                let k = choose|k: int| 0 <= k < seen.len() && seen[k] == w;
                assert(all[k] == w);
            } else {
                assert(rest.contains(w));
                let k = choose|k: int| 0 <= k < rest.len() && rest[k] == w;
                assert(all[seen.len() + k] == w);
            }
        }
    }
}

proof fn lemma_filter_member(s: Seq<WindowId>, keep: spec_fn(WindowId) -> bool, x: WindowId)
    ensures
        s.filter(keep).contains(x) <==> s.contains(x) && keep(x),
    decreases s.len(),
{
    reveal(Seq::filter);
    if s.len() > 0 {
        lemma_filter_member(s.drop_last(), keep, x);
        assert(s == s.drop_last().push(s.last()));
        s.drop_last().lemma_filter_push(s.last(), keep);
        let before = s.drop_last().filter(keep);
        if s.contains(x) {
            let k = choose|k: int| 0 <= k < s.len() && s[k] == x;
            if k < s.len() - 1 {
                assert(s.drop_last()[k] == x);
                assert(s.drop_last().contains(x));
            }
        }
        if s.drop_last().contains(x) {
            let k = choose|k: int| 0 <= k < s.drop_last().len() && s.drop_last()[k] == x;
            assert(s[k] == x);
        }
        if keep(s.last()) {
            assert(s.filter(keep) == before.push(s.last()));
            if before.contains(x) {
                let k = choose|k: int| 0 <= k < before.len() && before[k] == x;
                assert(before.push(s.last())[k] == x);
            }
            assert(before.push(s.last())[before.len() as int] == s.last());
            if s.filter(keep).contains(x) && x != s.last() {
                let k = choose|k: int|
                    0 <= k < s.filter(keep).len() && s.filter(keep)[k] == x;
                assert(before[k] == x);
            }
        }
    }
}

proof fn lemma_filter_distinct(s: Seq<WindowId>, keep: spec_fn(WindowId) -> bool)
    requires
        s.no_duplicates(),
    ensures
        s.filter(keep).no_duplicates(),
    decreases s.len(),
{
    reveal(Seq::filter);
    if s.len() > 0 {
        let init = s.drop_last();
        assert(init.no_duplicates());
        lemma_filter_distinct(init, keep);
        lemma_filter_member(init, keep, s.last());
        if init.contains(s.last()) {
            let k = choose|k: int| 0 <= k < init.len() && init[k] == s.last();
            assert(s[k] == s[s.len() - 1]);
        }
        let before = init.filter(keep);
        let all = s.filter(keep);
        if keep(s.last()) {
            assert(all == before.push(s.last()));
            assert forall|i: int, j: int| 0 <= i < j < all.len() implies all[i] != all[j] by {
                if j == before.len() {
                    assert(before.contains(before[i]));
                } else {
                    assert(before[i] != before[j]);
                }
            }
        }
    }
}

// ---- closing ---------------------------------------------------------------

/// The open windows and the one with the focus.
#[derive(Debug, PartialEq, Eq)]
pub struct WindowSet {
    pub order: Vec<WindowId>,
    pub focused: Option<WindowId>,
}

/// What a confirmed close comes to.
#[derive(Clone, Copy, Debug, PartialEq, Eq, Structural)]
pub enum CloseOutcome {
    /// The window is gone already.
    Nothing,
    /// The last window: end every session and quit.
    Quit,
    /// One of several: end its sessions and close it.
    CloseOne,
}

impl WindowSet {
    /// Every window is listed once.
    pub open spec fn wf(self) -> bool {
        self.order@.no_duplicates()
    }

    /// Adds a window that was opened.
    pub fn opened(&mut self, id: WindowId)
        requires
            old(self).wf(),
            !old(self).order@.contains(id),
        ensures
            final(self).wf(),
            final(self).order@ == old(self).order@.push(id),
            final(self).focused == old(self).focused,
    {
        self.order.push(id);
    }

    /// Takes a window out. Where it had the focus, the first of the others gets it.
    pub fn close_window(&mut self, id: WindowId)
        requires
            old(self).wf(),
        ensures
            final(self).wf(),
            final(self).order@ == others(old(self).order@, id),
            final(self).focused == (if old(self).focused == Some(id) {
                if others(old(self).order@, id).len() > 0 {
                    Some(others(old(self).order@, id)[0])
                } else {
                    None
                }
            } else {
                old(self).focused
            }),
    {
        let rest = without_window(self.order.as_slice(), id);
        proof {
            lemma_filter_distinct(self.order@, is_other(id));
        }
        let had_focus = match self.focused {
            Some(f) => f == id,
            None => false,
        };
        if had_focus {
            self.focused = if rest.len() > 0 { Some(rest[0]) } else { None };
        }
        self.order = rest;
    }

    pub open spec fn spec_close_outcome(self, id: WindowId) -> CloseOutcome {
        if !self.order@.contains(id) {
            CloseOutcome::Nothing
        } else if self.order@.len() <= 1 {
            CloseOutcome::Quit
        } else {
            CloseOutcome::CloseOne
        }
    }

    /// Decides what closing `id` comes to. A window that is gone already is never a reason to
    /// quit.
    pub fn finish_close(&self, id: WindowId) -> (r: CloseOutcome)
        ensures
            r == self.spec_close_outcome(id),
    {
        if !holds_window(self.order.as_slice(), id) {
            CloseOutcome::Nothing
        } else if self.order.len() <= 1 {
            CloseOutcome::Quit
        } else {
            CloseOutcome::CloseOne
        }
    }
}

/// Closing a window a second time does nothing.
pub proof fn law_closing_twice_closes_once(before: WindowSet, after: WindowSet, id: WindowId)
    requires
        before.wf(),
        after.order@ == others(before.order@, id),
    ensures
        after.spec_close_outcome(id) == CloseOutcome::Nothing,
{
    lemma_filter_member(before.order@, is_other(id), id);
}

/// Closing one of several windows leaves all the others open.
pub proof fn law_closing_leaves_the_others(before: WindowSet, after: WindowSet, id: WindowId, other: WindowId)
    requires
        before.wf(),
        after.order@ == others(before.order@, id),
        other != id,
    ensures
        after.order@.contains(other) == before.order@.contains(other),
{
    lemma_filter_member(before.order@, is_other(id), other);
}

/// A window that was replaced before it closes does not end the program: with another opened
/// first, closing it is closing one of several.
pub proof fn law_replaced_windows_do_not_quit(before: WindowSet, after: WindowSet, id: WindowId, new: WindowId)
    requires
        before.wf(),
        before.order@.contains(id),
        after.order@ == before.order@.push(new),
    ensures
        after.spec_close_outcome(id) == CloseOutcome::CloseOne,
{
    let k = choose|k: int| 0 <= k < before.order@.len() && before.order@[k] == id;
    assert(after.order@[k] == id);
}

// ---- actions put off to the end of a turn ----------------------------------

/// Which surface is moved; it is looked up only when its turn comes.
#[derive(Clone, Copy, Debug, PartialEq, Eq, Structural)]
pub enum DeferredMoveOp {
    MoveTab(MoveTabTarget),
    PromotePane(PromotePaneTarget),
    MergeTab,
}

/// An action on windows that waits until nothing else holds them. A reply is owed to the client
/// with the given number, if any.
#[derive(Debug, PartialEq, Eq)]
pub enum DeferredWindowAction {
    /// Open a window with a shell in this directory.
    OpenNew(Option<String>),
    /// Close the window that had the focus when the turn began.
    CloseThis,
    CloseWindow(WindowId),
    Move(WindowId, DeferredMoveOp, Option<u64>),
    State(u64),
    Focus(String, u64),
    Drag {
        window: WindowId,
        x1: crate::control::Coord,
        y1: crate::control::Coord,
        x2: crate::control::Coord,
        y2: crate::control::Coord,
        steps: usize,
        mods: String,
        cancel: bool,
        paced_ms: Option<u64>,
        reply: u64,
    },
}

pub open spec fn has_close_this(v: Seq<DeferredWindowAction>) -> bool {
    exists|i: int| 0 <= i < v.len() && #[trigger] v[i] is CloseThis
}

pub open spec fn has_close_window(v: Seq<DeferredWindowAction>, id: WindowId) -> bool {
    exists|i: int| 0 <= i < v.len() && #[trigger] v[i] == DeferredWindowAction::CloseWindow(id)
}

/// The actions with a close of this window at the end, where there is none yet.
pub open spec fn with_close_this(v: Seq<DeferredWindowAction>) -> Seq<DeferredWindowAction> {
    if has_close_this(v) {
        v
    } else {
        v.push(DeferredWindowAction::CloseThis)
    }
}

/// Puts off closing this window, once.
pub fn queue_close_this(deferred: &mut Vec<DeferredWindowAction>)
    ensures
        final(deferred)@ == with_close_this(old(deferred)@),
{
    let mut i: usize = 0;
    while i < deferred.len()
        invariant
            i <= deferred@.len(),
            deferred@ == old(deferred)@,
            forall|j: int| 0 <= j < i ==> !(#[trigger] deferred@[j] is CloseThis),
        decreases deferred@.len() - i,
    {
        match &deferred[i] {
            DeferredWindowAction::CloseThis => {
                assert(deferred@[i as int] is CloseThis);
                return;
            },
            _ => {},
        }
        i += 1;
    }
    deferred.push(DeferredWindowAction::CloseThis);
}

/// The actions with a close of the window `id` at the end, where there is none yet.
pub open spec fn with_close_window(v: Seq<DeferredWindowAction>, id: WindowId) -> Seq<
    DeferredWindowAction,
> {
    if has_close_window(v, id) {
        v
    } else {
        v.push(DeferredWindowAction::CloseWindow(id))
    }
}

/// Puts off closing the window `id`, once.
pub fn queue_close_window(deferred: &mut Vec<DeferredWindowAction>, id: WindowId)
    ensures
        final(deferred)@ == with_close_window(old(deferred)@, id),
{
    let mut i: usize = 0;
    while i < deferred.len()
        invariant
            i <= deferred@.len(),
            deferred@ == old(deferred)@,
            forall|j: int|
                0 <= j < i ==> #[trigger] deferred@[j] != DeferredWindowAction::CloseWindow(id),
        decreases deferred@.len() - i,
    {
        match &deferred[i] {
            DeferredWindowAction::CloseWindow(w) => {
                if *w == id {
                    assert(deferred@[i as int] == DeferredWindowAction::CloseWindow(id));
                    return;
                }
            },
            _ => {},
        }
        i += 1;
    }
    deferred.push(DeferredWindowAction::CloseWindow(id));
}

/// Asking again to close a window changes nothing, and no action that waits is dropped or moved.
pub proof fn law_queued_closes_are_kept_once(v: Seq<DeferredWindowAction>, id: WindowId)
    ensures
        with_close_this(with_close_this(v)) == with_close_this(v),
        with_close_window(with_close_window(v, id), id) == with_close_window(v, id),
        with_close_this(v).take(v.len() as int) == v,
        with_close_window(v, id).take(v.len() as int) == v,
{
    let a = v.push(DeferredWindowAction::CloseThis);
    assert(a[v.len() as int] is CloseThis);
    let b = v.push(DeferredWindowAction::CloseWindow(id));
    assert(b[v.len() as int] == DeferredWindowAction::CloseWindow(id));
    assert(v.take(v.len() as int) == v);
    assert(a.take(v.len() as int) == v);
    assert(b.take(v.len() as int) == v);
}

/// A close of another window is a separate action.
pub proof fn law_distinct_windows_close_separately(v: Seq<DeferredWindowAction>, a: WindowId, b: WindowId)
    requires
        a != b,
        !has_close_window(v, b),
    ensures
        with_close_window(with_close_window(v, a), b) == with_close_window(v, a).push(
            DeferredWindowAction::CloseWindow(b),
        ),
{
    let w = with_close_window(v, a);
    if has_close_window(w, b) {
        let i = choose|i: int| 0 <= i < w.len() && #[trigger] w[i]
            == DeferredWindowAction::CloseWindow(b);
        assert(v[i] == w[i]);
    }
}

// ---- moves and windows -----------------------------------------------------

/// The next window stands one further and the previous one before; the last is followed by the
/// first.
pub proof fn law_windows_stand_in_a_circle(w: int, n: int)
    requires
        0 <= w < n,
    ensures
        neighbour(w, n, true) == (if w + 1 == n { 0 } else { w + 1 }),
        neighbour(w, n, false) == (if w == 0 { n - 1 } else { w - 1 }),
{
    assert((w + 1) % n == if w + 1 == n { 0 } else { w + 1 }) by (nonlinear_arith)
        requires
            0 <= w < n,
    ;
    assert((w + n - 1) % n == if w == 0 { n - 1 } else { w - 1 }) by (nonlinear_arith)
        requires
            0 <= w < n,
    ;
}

/// A command that moves the tab on show moves that tab of that window: to a window of its own, to
/// the window of a number from 1, or to a neighbour. What cannot be is refused in words.
#[verifier::rlimit(40)]
pub proof fn law_tabs_move_where_they_are_told(order: Seq<WindowId>, at: usize, active: usize, k: usize)
    requires
        at < order.len() <= usize::MAX,
        order.no_duplicates(),
    ensures
        ({
            let id = order[at as int];
            let n = order.len();
            let src = SurfaceRef::Tab { window: at, tab: active };
            &&& tab_move(order, id, active, MoveTabTarget::New) == MoveBuild::Move(
                src,
                SurfaceDest::NewWindow,
            )
            &&& 1 <= k <= n ==> tab_move(order, id, active, MoveTabTarget::Window(k))
                == MoveBuild::Move(src, SurfaceDest::NewTab { window: (k - 1) as usize })
            &&& k == 0 || k > n ==> tab_move(order, id, active, MoveTabTarget::Window(k))
                == MoveBuild::Refuse(
                "no window "@ + decimal(k as nat) + " (there are "@ + decimal(n) + ")"@,
            )
            &&& n >= 2 ==> tab_move(order, id, active, MoveTabTarget::Next) == MoveBuild::Move(
                src,
                SurfaceDest::NewTab { window: (if at + 1 == n { 0 } else { at + 1 }) as usize },
            )
            &&& n >= 2 ==> tab_move(order, id, active, MoveTabTarget::Prev) == MoveBuild::Move(
                src,
                SurfaceDest::NewTab { window: (if at == 0 { n - 1 } else { at - 1 }) as usize },
            )
            &&& n == 1 ==> tab_move(order, id, active, MoveTabTarget::Next) == MoveBuild::Refuse(
                "only one window open"@,
            ) && tab_move(order, id, active, MoveTabTarget::Prev) == MoveBuild::Refuse(
                "only one window open"@,
            )
        }),
{
    lemma_first_index(order, order[at as int]);
    assert(order.contains(order[at as int]));
    law_windows_stand_in_a_circle(at as int, order.len() as int);
}

/// A pane that is promoted is the focused one of the tab on show; a tab that is merged goes beside
/// the focused pane of the tab before it, to the right. A window that is not known moves nothing.
pub proof fn law_panes_and_tabs_are_promoted_and_merged(order: Seq<WindowId>, at: usize, active: usize, focus: PaneId, prev: PaneId, stranger: WindowId, t: MoveTabTarget, p: PromotePaneTarget)
    requires
        at < order.len() <= usize::MAX,
        order.no_duplicates(),
        !order.contains(stranger),
        active > 0,
    ensures
        ({
            let id = order[at as int];
            let src = SurfaceRef::Pane { window: at, tab: active, pane: focus };
            &&& pane_promotion(order, id, active, focus, PromotePaneTarget::Tab) == MoveBuild::Move(
                src,
                SurfaceDest::NewTab { window: at },
            )
            &&& pane_promotion(order, id, active, focus, PromotePaneTarget::Window)
                == MoveBuild::Move(src, SurfaceDest::NewWindow)
            &&& tab_merge(order, id, active, Some(prev)) == MoveBuild::Move(
                SurfaceRef::Tab { window: at, tab: active },
                SurfaceDest::SplitInto {
                    window: at,
                    tab: (active - 1) as usize,
                    pane: prev,
                    axis: Axis::Horizontal,
                    before: false,
                },
            )
            &&& tab_merge(order, id, 0, None) == MoveBuild::Refuse("no previous tab"@)
            &&& tab_move(order, stranger, active, t) is Refuse
            &&& pane_promotion(order, stranger, active, focus, p) is Refuse
            &&& tab_merge(order, stranger, active, Some(prev)) is Refuse
        }),
{
    lemma_first_index(order, order[at as int]);
    assert(order.contains(order[at as int]));
    lemma_first_index(order, stranger);
    if let Some(i) = crate::layout::first_index(order, stranger) {
        assert(order.contains(order[i]));
    }
}

/// A surface names its window, and a refused move says why.
pub proof fn law_surfaces_name_their_window(window: usize, tab: usize, pane: PaneId, msg: String, r: String)
    ensures
        (SurfaceRef::Tab { window, tab }).spec_window() == window,
        (SurfaceRef::Pane { window, tab, pane }).spec_window() == window,
        call_ensures(humanize_move_error, (MoveError::Invalid(msg),), r) ==> r@ == msg@,
        call_ensures(humanize_move_error, (MoveError::WouldEmptyTab,), r) ==> r@
            == "the tab's only pane cannot be promoted; move the tab instead"@,
{
}

/// Each effect of a move is one step: a window is opened in its slot, sessions go to the window of
/// theirs, and a window that has lost its last tab is closed, by its own name.
pub proof fn law_effects_become_steps(order: Seq<WindowId>, index: usize, sessions: Vec<SessionId>, s: MoveStep)
    ensures
        is_step_of(order, MoveEffect::WindowOpened { index }, s) ==> s == (MoveStep::Open {
            slot: index,
        }),
        is_step_of(order, MoveEffect::WindowClosed { index }, s) && index < order.len() ==> s == (
        MoveStep::CloseShell { window: Some(order[index as int]) }),
        is_step_of(order, MoveEffect::SessionsRehomed { sessions, to_window: index }, s) ==> s == (
        MoveStep::Rehome { sessions, slot: index }),
{
}

/// The effects of a move are carried out in order, but for closings, which come last; the first
/// closing is the window that is lost.
#[verifier::rlimit(40)]
pub proof fn law_closings_come_last(effects: Seq<MoveEffect>, e: MoveEffect, index: usize)
    ensures
        closed_index(Seq::empty()) is None,
        closed_index(seq![MoveEffect::WindowClosed { index }] + effects) == Some(index),
        !(e is WindowClosed) ==> closed_index(seq![e] + effects) == closed_index(effects),
        closing_last(effects).len() == effects.len(),
        closing_last(effects).contains(e) <==> effects.contains(e),
{
    let first = seq![MoveEffect::WindowClosed { index }] + effects;
    assert(first.skip(1) =~= effects);
    assert((seq![e] + effects).skip(1) =~= effects);
    let open = |x: MoveEffect| !closes(x);
    let shut = |x: MoveEffect| closes(x);
    lemma_filters_part(effects, open, shut, e);
    let (a, b) = (effects.filter(open), effects.filter(shut));
    assert(closing_last(effects) == a + b);
    if a.contains(e) {
        let i = choose|i: int| 0 <= i < a.len() && a[i] == e;
        assert((a + b)[i] == e);
    }
    if b.contains(e) {
        let i = choose|i: int| 0 <= i < b.len() && b[i] == e;
        assert((a + b)[a.len() + i] == e);
    }
    if (a + b).contains(e) {
        let i = choose|i: int| 0 <= i < (a + b).len() && (a + b)[i] == e;
        if i < a.len() {
            assert(a[i] == e);
        } else {
            assert(b[i - a.len()] == e);
        }
    }
}

proof fn lemma_filters_part<A>(s: Seq<A>, p: spec_fn(A) -> bool, q: spec_fn(A) -> bool, x: A)
    requires
        forall|y: A| #[trigger] p(y) <==> !q(y),
    ensures
        s.filter(p).len() + s.filter(q).len() == s.len(),
        s.contains(x) <==> s.filter(p).contains(x) || s.filter(q).contains(x),
    decreases s.len(),
{
    reveal(Seq::filter);
    if s.len() > 0 {
        let t = s.drop_last();
        let z = s.last();
        lemma_filters_part(t, p, q, x);
        assert(s =~= t.push(z));
        assert(p(z) || q(z));
        let (f, g) = (t.filter(p), t.filter(q));
        assert(s.filter(p) == if p(z) { f.push(z) } else { f });
        assert(s.filter(q) == if q(z) { g.push(z) } else { g });
        assert(s[s.len() - 1] == z);
        lemma_contains_push(t, z, x);
        lemma_contains_push(f, z, x);
        lemma_contains_push(g, z, x);
    }
}

proof fn lemma_contains_push<A>(s: Seq<A>, z: A, x: A)
    ensures
        s.push(z).contains(x) <==> s.contains(x) || x == z,
{
    assert(s.push(z)[s.len() as int] == z);
    if s.contains(x) {
        let i = choose|i: int| 0 <= i < s.len() && s[i] == x;
        assert(s.push(z)[i] == x);
    }
    if s.push(z).contains(x) {
        let i = choose|i: int| 0 <= i < s.push(z).len() && s.push(z)[i] == x;
        if i < s.len() {
            assert(s[i] == x);
        }
    }
}

/// A plan knows the window that the surface leaves, which is the first it touches, and the slot to
/// focus; a window that opens takes its slot and is touched, once.
pub proof fn law_plans_follow_the_surface(order: &[WindowId], count: usize, effects: Vec<MoveEffect>, slot: usize, src: SurfaceRef, r: MovePlan, plan: &mut MovePlan, id: WindowId, focused: Option<WindowId>, f: Option<WindowId>)
    ensures
        call_ensures(plan_move, (order, count, effects, slot, src), r) ==> {
            &&& r.slots@.len() == count && r.focus_slot == slot
            &&& src.spec_window() < order@.len() ==> r.source == Some(
                order@[src.spec_window() as int],
            ) && r.touched@ == seq![order@[src.spec_window() as int]]
            &&& src.spec_window() >= order@.len() ==> r.source is None && r.touched@.len() == 0
            &&& r.steps@.len() == closing_last(effects@).len()
        },
        slot < old(plan).slots@.len() && call_ensures(MovePlan::opened, (plan, slot, id), ()) ==> {
            &&& final(plan).slots@ == old(plan).slots@.update(slot as int, Some(id))
            &&& final(plan).touched@ == old(plan).touched@.push(id)
            &&& final(plan).source == old(plan).source && final(plan).focus_slot == old(plan).focus_slot && final(plan).steps == old(plan).steps
        },
        call_ensures(MovePlan::touch, (plan, id), ()) ==> {
            &&& final(plan).touched@.contains(id)
            &&& old(plan).touched@.contains(id) ==> final(plan).touched@ == old(plan).touched@
            &&& final(plan).slots == old(plan).slots
        },
        call_ensures(MovePlan::focus, (&r, focused), f) ==> {
            &&& r.focus_slot < r.slots@.len() && r.slots@[r.focus_slot as int] is Some ==> f
                == r.slots@[r.focus_slot as int]
            &&& r.focus_slot >= r.slots@.len() || r.slots@[r.focus_slot as int] is None ==> f
                == focused
        },
        slot < r.slots@.len() ==> r.spec_home(slot) == r.slots@[slot as int],
        slot >= r.slots@.len() ==> r.spec_home(slot) is None,
{
    let t = old(plan).touched@;
    assert(t.push(id)[t.len() as int] == id);
}

/// The window in focus is the first of the history, and the others keep their order behind it.
#[verifier::rlimit(40)]
pub proof fn law_the_focused_window_is_first(history: Seq<WindowId>, id: WindowId, w: WindowId)
    ensures
        focused_first(history, id)[0] == id,
        focused_first(history, id).skip(1) == others(history, id),
        focused_first(history, id).contains(w) <==> w == id || history.contains(w),
        !others(history, id).contains(id),
        w != id ==> (others(history, id).contains(w) <==> history.contains(w)),
        w != id ==> others(history.push(w), id) == others(history, id).push(w),
        others(history.push(id), id) == others(history, id),
{
    let p = is_other(id);
    let q = |x: WindowId| !(x != id);
    assert(forall|y: WindowId| #[trigger] p(y) <==> !q(y));
    lemma_filters_part(history, p, q, w);
    lemma_filter_keeps(history, p, id);
    lemma_filter_keeps(history, p, w);
    lemma_filter_keeps(history, q, w);
    let o = others(history, id);
    let f = focused_first(history, id);
    assert(f.skip(1) =~= o);
    assert(f[0] == id);
    if o.contains(w) {
        let i = choose|i: int| 0 <= i < o.len() && o[i] == w;
        assert(f[i + 1] == w);
    }
    if f.contains(w) {
        let i = choose|i: int| 0 <= i < f.len() && f[i] == w;
        if i > 0 {
            assert(o[i - 1] == w);
        }
    }
    reveal(Seq::filter);
    assert(history.push(w).drop_last() =~= history);
    assert(history.push(id).drop_last() =~= history);
}

proof fn lemma_filter_keeps<A>(s: Seq<A>, p: spec_fn(A) -> bool, x: A)
    ensures
        s.filter(p).contains(x) ==> p(x),
    decreases s.len(),
{
    reveal(Seq::filter);
    if s.len() > 0 {
        lemma_filter_keeps(s.drop_last(), p, x);
        lemma_contains_push(s.drop_last().filter(p), s.last(), x);
    }
}

/// The set of windows: a new one stands last; a closed one is taken out, and where it had the focus
/// the first of the others gets it. The last window to close ends the program.
pub proof fn law_windows_come_and_go(set: &mut WindowSet, id: WindowId, seen: WindowSet)
    ensures
        call_ensures(WindowSet::opened, (set, id), ()) ==> final(set).order@ == old(set).order@.push(id) && final(set).focused == old(set).focused,
        call_ensures(WindowSet::close_window, (set, id), ()) ==> {
            &&& final(set).order@ == others(old(set).order@, id)
            &&& old(set).focused != Some(id) ==> final(set).focused == old(set).focused
            &&& old(set).focused == Some(id) && final(set).order@.len() > 0 ==> final(set).focused
                == Some(final(set).order@[0])
            &&& old(set).focused == Some(id) && final(set).order@.len() == 0 ==> final(set).focused
                is None
        },
        !seen.order@.contains(id) ==> seen.spec_close_outcome(id) == CloseOutcome::Nothing,
        seen.order@.contains(id) && seen.order@.len() == 1 ==> seen.spec_close_outcome(id)
            == CloseOutcome::Quit,
        seen.order@.contains(id) && seen.order@.len() >= 2 ==> seen.spec_close_outcome(id)
            == CloseOutcome::CloseOne,
{
}

/// What is put off is put last and stays: a close of this window, or of another.
pub proof fn law_closes_are_put_off(v: Seq<DeferredWindowAction>, id: WindowId)
    ensures
        has_close_this(with_close_this(v)),
        has_close_window(with_close_window(v, id), id),
        !has_close_this(v) ==> with_close_this(v) == v.push(DeferredWindowAction::CloseThis),
        !has_close_window(v, id) ==> with_close_window(v, id) == v.push(
            DeferredWindowAction::CloseWindow(id),
        ),
        has_close_this(v) ==> with_close_this(v) == v,
{
    let a = with_close_this(v);
    let b = with_close_window(v, id);
    if !has_close_this(v) {
        assert(a[v.len() as int] is CloseThis);
    }
    if !has_close_window(v, id) {
        assert(b[v.len() as int] == DeferredWindowAction::CloseWindow(id));
    }
}

/// The windows in front are those focused last, the last one first; those never focused follow in
/// the order in which they were opened.
#[verifier::rlimit(40)]
pub proof fn law_focused_windows_are_in_front(history: Seq<WindowId>, order: Seq<WindowId>, i: int, j: int)
    requires
        history.no_duplicates(),
        order.no_duplicates(),
    ensures
        ({
            let seen = history.filter(|w: WindowId| order.contains(w));
            let front = front_order(history, order);
            &&& 0 <= i < seen.len() ==> front[i] == seen[i]
            &&& seen.len() <= i < front.len() ==> !history.contains(front[i])
        }),
        history.len() > 0 && order.contains(history[0]) ==> front_order(history, order)[0]
            == history[0],
{
    let p = |w: WindowId| order.contains(w);
    let seen = history.filter(p);
    let q = |w: WindowId| !seen.contains(w);
    let rest = order.filter(q);
    let front = front_order(history, order);
    assert(front == seen + rest);
    if seen.len() <= i < front.len() {
        let x = front[i];
        assert(rest[i - seen.len()] == x);
        assert(rest.contains(x));
        lemma_filter_keeps(order, q, x);
        let r = |w: WindowId| !order.contains(w);
        lemma_filters_part(history, p, r, x);
        let k = |w: WindowId| seen.contains(w);
        lemma_filters_part(order, q, k, x);
        lemma_filter_keeps(history, r, x);
    }
    if history.len() > 0 && order.contains(history[0]) {
        lemma_first_is_kept(history, p);
    }
}

proof fn lemma_first_is_kept<A>(s: Seq<A>, p: spec_fn(A) -> bool)
    requires
        s.len() > 0,
        p(s[0]),
    ensures
        s.filter(p).len() > 0,
        s.filter(p)[0] == s[0],
    decreases s.len(),
{
    reveal(Seq::filter);
    if s.len() > 1 {
        lemma_first_is_kept(s.drop_last(), p);
        assert(s.drop_last()[0] == s[0]);
    } else {
        assert(s.drop_last() =~= Seq::<A>::empty());
        assert(s.drop_last().filter(p) =~= Seq::<A>::empty());
    }
}

/// Where the windows of a command stand is looked up, and what it moves is handed on or refused.
#[verifier::rlimit(40)]
pub proof fn law_commands_move_the_tab_on_show(order: &[WindowId], at: usize, active: usize, focus: PaneId, k: usize, r: Result<(SurfaceRef, SurfaceDest), String>)
    requires
        at < order@.len() <= usize::MAX,
        order@.no_duplicates(),
    ensures
        ({
            let id = order@[at as int];
            let src = SurfaceRef::Tab { window: at, tab: active };
            &&& call_ensures(build_move_tab, (order, id, active, MoveTabTarget::New), r) ==> r == Ok::<
                (SurfaceRef, SurfaceDest),
                String,
            >((src, SurfaceDest::NewWindow))
            &&& 1 <= k <= order@.len() && call_ensures(
                build_move_tab,
                (order, id, active, MoveTabTarget::Window(k)),
                r,
            ) ==> r == Ok::<(SurfaceRef, SurfaceDest), String>(
                (src, SurfaceDest::NewTab { window: (k - 1) as usize }),
            )
            &&& (k == 0 || k > order@.len()) && call_ensures(
                build_move_tab,
                (order, id, active, MoveTabTarget::Window(k)),
                r,
            ) ==> r is Err
            &&& call_ensures(
                build_promote_pane,
                (order, id, active, focus, PromotePaneTarget::Window),
                r,
            ) ==> r == Ok::<(SurfaceRef, SurfaceDest), String>(
                (SurfaceRef::Pane { window: at, tab: active, pane: focus }, SurfaceDest::NewWindow),
            )
            &&& call_ensures(
                build_promote_pane,
                (order, id, active, focus, PromotePaneTarget::Tab),
                r,
            ) ==> r == Ok::<(SurfaceRef, SurfaceDest), String>(
                (
                    SurfaceRef::Pane { window: at, tab: active, pane: focus },
                    SurfaceDest::NewTab { window: at },
                ),
            )
        }),
{
    law_tabs_move_where_they_are_told(order@, at, active, k);
    lemma_first_index(order@, order@[at as int]);
    assert(order@.contains(order@[at as int]));
}

/// A window is found at its first place, or not at all.
pub proof fn law_windows_are_found_in_order(order: &[WindowId], id: WindowId, r: Option<usize>, at: int)
    requires
        call_ensures(resolve_window_index, (order, id), r),
    ensures
        r matches Some(i) ==> i < order@.len() && order@[i as int] == id,
        0 <= at < order@.len() && order@[at] == id ==> (r matches Some(i) && i <= at),
{
    if 0 <= at < order@.len() && order@[at] == id {
        assert(order@.contains(order@[at]));
    }
}

} // verus!
