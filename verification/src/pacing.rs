//! When the event loop wakes and what is drawn then.
//!
//! Moments and spans are in nanoseconds of one steady clock.

use vstd::prelude::*;
use crate::gesture::{elapsed, span, tick_morph, Morph, MorphTick, FRAME};
use crate::layout::WindowId;
use crate::keys::Mods;

verus! {

// ---- waking ----------------------------------------------------------------

/// The earlier of two moments to wake at.
pub open spec fn sooner(a: Option<u64>, b: Option<u64>) -> Option<u64> {
    match (a, b) {
        (Some(x), Some(y)) => Some(if y < x { y } else { x }),
        (Some(x), None) => Some(x),
        (None, _) => b,
    }
}

/// Takes a moment to wake at into account.
pub fn wake_by(next_wake: &mut Option<u64>, deadline: u64)
    ensures
        *final(next_wake) == sooner(*old(next_wake), Some(deadline)),
{
    let next: u64 = match next_wake {
        Some(d) => if deadline < *d {
            deadline
        } else {
            *d
        },
        None => deadline,
    };
    *next_wake = Some(next);
}

/// The moment to wake at is none of the noted ones exceeded, in whatever order they were noted.
pub proof fn law_no_deadline_is_missed(next_wake: Option<u64>, a: u64, b: u64)
    ensures
        sooner(next_wake, Some(a)) matches Some(d) && d <= a,
        next_wake matches Some(n) ==> (sooner(next_wake, Some(a)) matches Some(d) && d <= n),
        sooner(sooner(next_wake, Some(a)), Some(b)) == sooner(sooner(next_wake, Some(b)), Some(a)),
{
}

// ---- sparks ----------------------------------------------------------------

/// When sparks fly.
#[derive(Clone, Copy, Debug, PartialEq, Eq, Structural)]
pub enum SparksMode {
    Off,
    /// In the window that has the focus.
    Focused,
    Always,
}

/// What is seen of a window.
#[derive(Clone, Copy, Debug, PartialEq, Eq, Structural)]
pub struct WindowSight {
    pub occluded: bool,
    pub focused: bool,
    pub help: bool,
    pub about: bool,
    pub settings_open: bool,
    pub fps_overlay: bool,
    pub bell_flashing: bool,
    /// The phantom of a tab is shown.
    pub phantom: bool,
    /// The last drawing got no surface to draw on.
    pub render_starved: bool,
}

/// Whether the sparks move: not behind an overlay or another window, not to save power, not where
/// motion is reduced, and as the mode says.
pub open spec fn sparks_move(s: WindowSight, mode: SparksMode, low_power: bool, reduce_motion: bool) -> bool {
    &&& !s.occluded && !s.help && !s.about && !s.settings_open
    &&& !low_power && !reduce_motion
    &&& match mode {
        SparksMode::Off => false,
        SparksMode::Focused => s.focused,
        SparksMode::Always => true,
    }
}

/// Whether the sparks move.
pub fn backdrop_animating(s: &WindowSight, mode: SparksMode, low_power: bool, reduce_motion: bool) -> (r: bool)
    ensures
        r == sparks_move(*s, mode, low_power, reduce_motion),
{
    if s.occluded || s.help || s.about || s.settings_open {
        return false;
    }
    if low_power || reduce_motion {
        return false;
    }
    match mode {
        SparksMode::Off => false,
        SparksMode::Focused => s.focused,
        SparksMode::Always => true,
    }
}

/// How long what the platform says of power and motion is taken to hold.
pub const POWER_STATE_TTL: u64 = 5_000_000_000;

/// What the platform last said of power and motion.
#[derive(Clone, Copy, Debug, PartialEq, Eq, Structural)]
pub struct PowerState {
    pub checked_at: u64,
    pub low_power: bool,
    pub reduce_motion: bool,
}

/// Whether the platform has to be asked again.
pub fn power_state_stale(state: Option<PowerState>, now: u64) -> (r: bool)
    ensures
        r == (match state {
            Some(p) => span(p.checked_at, now) >= POWER_STATE_TTL,
            None => true,
        }),
{
    match state {
        Some(p) => elapsed(p.checked_at, now) >= POWER_STATE_TTL,
        None => true,
    }
}

/// Whether sparks are drawn at all: not where they are off, nor to save power. Reduced motion
/// leaves them where they are.
pub fn sparks_visible(mode: SparksMode, low_power: bool) -> (r: bool)
    ensures
        r == (mode != SparksMode::Off && !low_power),
{
    match mode {
        SparksMode::Off => false,
        _ => !low_power,
    }
}

/// Sparks that move are drawn.
pub proof fn law_moving_sparks_are_drawn(s: WindowSight, mode: SparksMode, low_power: bool, reduce_motion: bool)
    requires
        sparks_move(s, mode, low_power, reduce_motion),
    ensures
        mode != SparksMode::Off && !low_power,
{
}

// ---- frames of a window ----------------------------------------------------

/// What a turn of the loop does for the animations of a window.
#[derive(Clone, Copy, Debug, PartialEq, Eq, Structural)]
pub struct Pace {
    /// The animations advance.
    pub advance: bool,
    /// The window is drawn.
    pub redraw: bool,
    /// The next frame is due then.
    pub deadline: Option<u64>,
}

/// The span between two frames of a window: the sparks have their own.
pub open spec fn frame_of(s: WindowSight, backdrop: bool, ember_frame: u64) -> u64 {
    if !(s.about || s.fps_overlay || s.bell_flashing) && backdrop {
        ember_frame
    } else {
        FRAME
    }
}

pub open spec fn animating(s: WindowSight, backdrop: bool) -> bool {
    s.about || s.fps_overlay || s.bell_flashing || backdrop || s.phantom || (s.render_starved
        && !s.occluded)
}

/// Paces the animations of a window: they advance when a frame has passed since the last, and the
/// next is due a frame after that. A window that is not seen is not drawn.
pub fn pace(last_anim: &mut u64, s: &WindowSight, backdrop: bool, ember_frame: u64, now: u64) -> (r: Pace)
    requires
        now <= u64::MAX - FRAME,
        now <= u64::MAX - ember_frame,
        *old(last_anim) <= u64::MAX - FRAME,
        *old(last_anim) <= u64::MAX - ember_frame,
    ensures
        ({
            let frame = frame_of(*s, backdrop, ember_frame);
            let due = animating(*s, backdrop) && span(*old(last_anim), now) >= frame;
            &&& *final(last_anim) == (if due { now } else { *old(last_anim) })
            &&& r == (Pace {
                advance: due,
                redraw: due && !s.occluded,
                deadline: if animating(*s, backdrop) {
                    Some((*final(last_anim) + frame) as u64)
                } else {
                    None
                },
            })
        }),
{
    let starve_retry = s.render_starved && !s.occluded;
    let frame: u64 = if s.about || s.fps_overlay || s.bell_flashing {
        FRAME
    } else if backdrop {
        ember_frame
    } else {
        FRAME
    };
    let moving = s.about || s.fps_overlay || s.bell_flashing || backdrop || s.phantom
        || starve_retry;
    if !moving {
        return Pace { advance: false, redraw: false, deadline: None };
    }
    let mut advance = false;
    if elapsed(*last_anim, now) >= frame {
        *last_anim = now;
        advance = true;
    }
    Pace { advance, redraw: advance && !s.occluded, deadline: Some(*last_anim + frame) }
}

/// What is done for a window that has closed and is still seen to shrink.
#[derive(Clone, Copy, Debug, PartialEq, Eq, Structural)]
pub enum Dying {
    /// It stays; the next frame is due then.
    Wait(u64),
    /// It is drawn; the next frame is due then.
    Draw { gone: u64, deadline: u64 },
    /// It has gone.
    Drop,
}

/// Paces a window that has closed.
pub fn pace_dying(last_anim: &mut u64, morph: &mut Option<Morph>, now: u64) -> (r: Dying)
    requires
        now <= u64::MAX - FRAME,
        *old(last_anim) <= u64::MAX - FRAME,
    ensures
        if span(*old(last_anim), now) < FRAME {
            &&& r == Dying::Wait((*old(last_anim) + FRAME) as u64)
            &&& *final(last_anim) == *old(last_anim)
            &&& *final(morph) == *old(morph)
        } else {
            &&& *final(last_anim) == now
            &&& match *old(morph) {
                Some(m) if span(m.started, now) < m.duration => {
                    &&& r == (Dying::Draw {
                        gone: span(m.started, now) as u64,
                        deadline: (now + FRAME) as u64,
                    })
                    &&& *final(morph) == *old(morph)
                },
                _ => r == Dying::Drop && *final(morph) is None,
            }
        },
{
    if elapsed(*last_anim, now) < FRAME {
        return Dying::Wait(*last_anim + FRAME);
    }
    *last_anim = now;
    match tick_morph(morph, now) {
        MorphTick::Running { gone, next } => Dying::Draw { gone, deadline: next },
        MorphTick::Idle => Dying::Drop,
    }
}

/// The span between two frames of the sparks, from the frames per second that are wished, which
/// are limited to 10 to 120.
pub fn ember_frame(fps: u32) -> (r: u64)
    ensures
        r == ({
            let f: int = if fps < 10 { 10 } else if fps > 120 { 120 } else { fps as int };
            (1000int / f) * 1_000_000
        }),
        r >= 8_000_000,
        r <= 100_000_000,
{
    let f: u64 = if fps < 10 {
        10
    } else if fps > 120 {
        120
    } else {
        fps as u64
    };
    assert(8 <= 1000int / (f as int) <= 100) by (nonlinear_arith)
        requires
            10 <= f <= 120,
    ;
    let ms: u64 = 1000 / f;
    ms * 1_000_000
}

// ---- a drag at a set pace --------------------------------------------------

/// A drag that a client asked for, one step at a time.
#[derive(Clone, Copy, Debug, PartialEq, Eq, Structural)]
pub struct PacedDrag {
    /// How many steps are done, of how many.
    pub done: usize,
    pub steps: usize,
    pub interval: u64,
    pub last_step: u64,
    pub window: WindowId,
    /// The drag ends by being given up, as opposed to being dropped.
    pub cancel: bool,
    /// What was held before the drag.
    pub saved_mods: Mods,
    /// The client that waits for the reply.
    pub reply: u64,
}

/// What a turn does for a paced drag.
#[derive(Clone, Copy, Debug, PartialEq, Eq, Structural)]
pub enum PacedStep {
    /// The window has closed: the client is told so.
    WindowGone,
    /// The next step is due then.
    Wait(u64),
    /// The pointer moves to this step of all; the next is due then.
    Move { step: usize, deadline: u64 },
    /// The last step is done: the drag ends.
    Finish,
}

/// What a turn at `now` does for a paced drag.
pub open spec fn paced_step(p: PacedDrag, window_open: bool, now: u64) -> PacedStep {
    if !window_open {
        PacedStep::WindowGone
    } else if span(p.last_step, now) < p.interval {
        PacedStep::Wait((p.last_step + p.interval) as u64)
    } else if p.done < p.steps {
        PacedStep::Move { step: (p.done + 1) as usize, deadline: (now + p.interval) as u64 }
    } else {
        PacedStep::Finish
    }
}

/// The paced drag after a turn.
pub open spec fn paced_after(p: PacedDrag, window_open: bool, now: u64) -> Option<PacedDrag> {
    match paced_step(p, window_open, now) {
        PacedStep::Wait(_) => Some(p),
        PacedStep::Move { step, .. } => Some(PacedDrag { done: step, last_step: now, ..p }),
        _ => None,
    }
}

/// Advances a paced drag by at most one step.
pub fn tick_paced(paced: &mut Option<PacedDrag>, window_open: bool, now: u64) -> (r: Option<PacedStep>)
    requires
        *old(paced) matches Some(p) ==> now <= u64::MAX - p.interval && p.last_step <= u64::MAX
            - p.interval,
    ensures
        match *old(paced) {
            Some(p) => {
                &&& r == Some(paced_step(p, window_open, now))
                &&& *final(paced) == paced_after(p, window_open, now)
            },
            None => r is None && *final(paced) is None,
        },
{
    let mut p = match paced.take() {
        Some(p) => p,
        None => return None,
    };
    if !window_open {
        return Some(PacedStep::WindowGone);
    }
    if elapsed(p.last_step, now) < p.interval {
        let deadline: u64 = p.last_step + p.interval;
        *paced = Some(p);
        return Some(PacedStep::Wait(deadline));
    }
    p.last_step = now;
    if p.done < p.steps {
        p.done = p.done + 1;
        let step: usize = p.done;
        let deadline: u64 = now + p.interval;
        *paced = Some(p);
        return Some(PacedStep::Move { step, deadline });
    }
    Some(PacedStep::Finish)
}

/// The steps of a paced drag come one after another, none left out, and then the drag finishes.
pub proof fn law_paced_steps_come_in_order(p: PacedDrag, window_open: bool, now: u64)
    requires
        p.done <= p.steps,
    ensures
        paced_step(p, window_open, now) matches PacedStep::Move { step, .. } ==> step == p.done + 1
            && step <= p.steps,
        paced_step(p, window_open, now) is Finish ==> p.done == p.steps,
        paced_after(p, window_open, now) matches Some(q) ==> p.done <= q.done <= p.done + 1 && q.done
            <= q.steps && q.steps == p.steps,
        paced_after(p, window_open, now) is None <==> paced_step(p, window_open, now) is Finish
            || paced_step(p, window_open, now) is WindowGone,
{
}

// ---- what moves and when ---------------------------------------------------

/// The sooner of two moments counts, and the only one where there is one.
pub proof fn law_the_sooner_moment_counts(wake: &mut Option<u64>, a: u64, b: u64)
    ensures
        sooner(None, Some(a)) == Some(a),
        sooner(Some(a), None) == Some(a),
        a <= b ==> sooner(Some(a), Some(b)) == Some(a) && sooner(Some(b), Some(a)) == Some(a),
        sooner(None, None) is None,
        call_ensures(wake_by, (wake, a), ()) ==> (*final(wake) matches Some(d) && d <= a && (d == a
            || *old(wake) == Some(d))),
{
}

/// Sparks move where they are seen: never under an overlay, in a hidden window, on low power or
/// with reduced motion; in the focused window only, or in all, as is set.
pub proof fn law_sparks_move_where_seen(s: WindowSight, mode: SparksMode, low: bool, reduce: bool, r: bool)
    ensures
        mode is Off ==> !sparks_move(s, mode, low, reduce),
        s.occluded || s.help || s.about || s.settings_open || low || reduce ==> !sparks_move(
            s,
            mode,
            low,
            reduce,
        ),
        !(s.occluded || s.help || s.about || s.settings_open || low || reduce) ==> (mode is Always
            ==> sparks_move(s, mode, low, reduce)) && (mode is Focused ==> (sparks_move(
            s,
            mode,
            low,
            reduce,
        ) <==> s.focused)),
        call_ensures(sparks_visible, (mode, low), r) ==> (r <==> mode !is Off && !low),
{
}

/// What is known of the power is asked anew after five seconds.
pub proof fn law_power_is_asked_every_five_seconds(p: PowerState, now: u64, r: bool)
    ensures
        call_ensures(power_state_stale, (None, now), r) ==> r,
        call_ensures(power_state_stale, (Some(p), now), r) && now >= p.checked_at ==> (r <==> now
            - p.checked_at >= 5_000_000_000),
{
}

/// A window is drawn again only while something in it moves, and no sooner than its frame is due:
/// 16 milliseconds, or the frame of the sparks where nothing else moves. What is hidden advances
/// but is not drawn.
pub proof fn law_windows_are_drawn_frame_by_frame(last: &mut u64, s: WindowSight, backdrop: bool, ember: u64, now: u64, r: Pace)
    requires
        now <= u64::MAX - 16_000_000 && now <= u64::MAX - ember,
        *old(last) <= now,
        call_ensures(pace, (last, &s, backdrop, ember, now), r),
    ensures
        ({
            let busy = s.about || s.fps_overlay || s.bell_flashing;
            let moves = busy || backdrop || s.phantom || (s.render_starved && !s.occluded);
            let frame = if !busy && backdrop {
                ember as int
            } else {
                16_000_000
            };
            &&& r.advance <==> moves && now - *old(last) >= frame
            &&& r.redraw <==> r.advance && !s.occluded
            &&& r.deadline is Some <==> moves
            &&& r.advance ==> *final(last) == now
            &&& !r.advance ==> *final(last) == *old(last)
            &&& r.deadline matches Some(d) ==> d == *final(last) + frame
        }),
{
}

/// A window that fades away is drawn frame by frame until its morph is over, and then dropped.
pub proof fn law_dying_windows_are_dropped(last: &mut u64, morph: &mut Option<Morph>, now: u64, r: Dying)
    requires
        now <= u64::MAX - 16_000_000,
        *old(last) <= now,
        call_ensures(pace_dying, (last, morph, now), r),
    ensures
        now - *old(last) < 16_000_000 ==> r == Dying::Wait((*old(last) + 16_000_000) as u64)
            && *final(last) == *old(last) && *final(morph) == *old(morph),
        now - *old(last) >= 16_000_000 ==> {
            &&& *final(last) == now
            &&& *old(morph) is None ==> r == Dying::Drop
            &&& *old(morph) matches Some(m) ==> now >= m.started ==> {
                &&& r == Dying::Drop <==> now - m.started >= m.duration
                &&& now - m.started < m.duration ==> r == (Dying::Draw {
                    gone: (now - m.started) as u64,
                    deadline: (now + 16_000_000) as u64,
                })
            }
        },
{
}

/// The sparks are drawn 10 to 120 times a second, as is set within these bounds.
pub proof fn law_sparks_have_a_frame(fps: u32, r: u64)
    requires
        call_ensures(ember_frame, (fps,), r),
    ensures
        fps <= 10 ==> r == 100_000_000,
        fps >= 120 ==> r == 8_000_000,
        10 <= fps <= 120 ==> r == (1000int / (fps as int)) * 1_000_000,
{
    let f: int = if fps < 10 {
        10
    } else if fps > 120 {
        120
    } else {
        fps as int
    };
    let q = 1000int / f;
    assert(r == q * 1_000_000);
    if fps <= 10 {
        assert(q == 100) by (nonlinear_arith)
            requires
                f == 10,
                q == 1000int / f,
        ;
    }
    if fps >= 120 {
        assert(q == 8) by (nonlinear_arith)
            requires
                f == 120,
                q == 1000int / f,
        ;
    }
}

/// A paced drag makes its steps one interval apart, each one further, and finishes when all are
/// made; it ends where its window is gone.
pub proof fn law_paced_drags_keep_their_pace(p: PacedDrag, now: u64)
    requires
        p.last_step <= now,
        now <= u64::MAX - p.interval,
        p.done < usize::MAX,
    ensures
        paced_step(p, false, now) == PacedStep::WindowGone,
        now - p.last_step < p.interval ==> paced_step(p, true, now) == PacedStep::Wait(
            (p.last_step + p.interval) as u64,
        ) && paced_after(p, true, now) == Some(p),
        now - p.last_step >= p.interval && p.done < p.steps ==> paced_step(p, true, now) == (
        PacedStep::Move { step: (p.done + 1) as usize, deadline: (now + p.interval) as u64 })
            && paced_after(p, true, now) == Some(
            PacedDrag { done: (p.done + 1) as usize, last_step: now, ..p },
        ),
        now - p.last_step >= p.interval && p.done >= p.steps ==> paced_step(p, true, now)
            == PacedStep::Finish && paced_after(p, true, now) is None,
{
}

} // verus!
