//! The wisp: the light that stands for a carried surface.
//!
//! Moments and spans are in nanoseconds of one steady clock.

use vstd::prelude::*;
use crate::gesture::{elapsed, span};

verus! {

/// The span between two frames.
pub const WISP_FRAME: u64 = 16_000_000;

/// How long the wisp takes to appear.
pub const WISP_FADE_IN: u64 = 150_000_000;

/// How long the wisp takes to go.
pub const WISP_FADE_OUT: u64 = 200_000_000;

#[derive(Clone, Copy, Debug, PartialEq, Eq, Structural)]
pub enum WispFade {
    In { start: u64 },
    Steady,
    Out { start: u64 },
    Hidden,
}

/// The wisp's fading and the moment of its last frame.
#[derive(Clone, Copy, Debug, PartialEq, Eq, Structural)]
pub struct Wisp {
    pub fade: WispFade,
    pub last_anim: u64,
}

/// What a tick of the wisp does.
#[derive(Clone, Copy, Debug, PartialEq, Eq, Structural)]
pub enum WispTick {
    /// Nothing: the next frame is not due, or the wisp is hidden.
    Skip,
    /// The wisp is drawn with `shown` parts of `whole`.
    Draw { shown: u64, whole: u64 },
    /// The wisp has gone and its window is hidden.
    Hide,
}

impl Wisp {
    /// A hidden wisp.
    pub fn new(now: u64) -> (r: Wisp)
        ensures
            r == (Wisp { fade: WispFade::Hidden, last_anim: now }),
    {
        Wisp { fade: WispFade::Hidden, last_anim: now }
    }

    /// The wisp begins to appear.
    pub fn show(&mut self, now: u64)
        ensures
            *final(self) == (Wisp { fade: WispFade::In { start: now }, ..*old(self) }),
    {
        self.fade = WispFade::In { start: now };
    }

    /// The fading after the drag has ended.
    pub open spec fn spec_fade_out(self, now: u64) -> Wisp {
        match self.fade {
            WispFade::In { .. } | WispFade::Steady => Wisp {
                fade: WispFade::Out { start: now },
                ..self
            },
            _ => self,
        }
    }

    /// The wisp begins to go, unless it is hidden or already going.
    pub fn begin_fade_out(&mut self, now: u64)
        ensures
            *final(self) == old(self).spec_fade_out(now),
    {
        match self.fade {
            WispFade::In { .. } => {
                self.fade = WispFade::Out { start: now };
            },
            WispFade::Steady => {
                self.fade = WispFade::Out { start: now };
            },
            _ => {},
        }
    }

    pub open spec fn spec_active(self) -> bool {
        self.fade != WispFade::Hidden
    }

    /// Whether the wisp needs frames.
    pub fn is_active(&self) -> (r: bool)
        ensures
            r == self.spec_active(),
    {
        match self.fade {
            WispFade::Hidden => false,
            _ => true,
        }
    }

    /// What a tick at `now` does.
    pub open spec fn spec_tick(self, now: u64) -> WispTick {
        if span(self.last_anim, now) < WISP_FRAME {
            WispTick::Skip
        } else {
            match self.fade {
                WispFade::Hidden => WispTick::Skip,
                WispFade::Steady => WispTick::Draw { shown: 1, whole: 1 },
                WispFade::In { start } => if span(start, now) >= WISP_FADE_IN {
                    WispTick::Draw { shown: 1, whole: 1 }
                } else {
                    WispTick::Draw { shown: span(start, now) as u64, whole: WISP_FADE_IN }
                },
                WispFade::Out { start } => if span(start, now) >= WISP_FADE_OUT {
                    WispTick::Hide
                } else {
                    WispTick::Draw {
                        shown: (WISP_FADE_OUT - span(start, now)) as u64,
                        whole: WISP_FADE_OUT,
                    }
                },
            }
        }
    }

    /// The wisp after a tick at `now`.
    pub open spec fn spec_after(self, now: u64) -> Wisp {
        if span(self.last_anim, now) < WISP_FRAME {
            self
        } else {
            Wisp {
                fade: match self.fade {
                    WispFade::In { start } if span(start, now) >= WISP_FADE_IN => WispFade::Steady,
                    WispFade::Out { start } if span(start, now) >= WISP_FADE_OUT => WispFade::Hidden,
                    _ => self.fade,
                },
                last_anim: now,
            }
        }
    }

    /// Advances the wisp at most once in a frame. It needs another tick while it is active.
    pub fn tick(&mut self, now: u64) -> (r: WispTick)
        ensures
            r == old(self).spec_tick(now),
            *final(self) == old(self).spec_after(now),
    {
        if elapsed(self.last_anim, now) < WISP_FRAME {
            return WispTick::Skip;
        }
        self.last_anim = now;
        match self.fade {
            WispFade::Hidden => WispTick::Skip,
            WispFade::Steady => WispTick::Draw { shown: 1, whole: 1 },
            WispFade::In { start } => {
                let gone: u64 = elapsed(start, now);
                if gone >= WISP_FADE_IN {
                    self.fade = WispFade::Steady;
                    WispTick::Draw { shown: 1, whole: 1 }
                } else {
                    WispTick::Draw { shown: gone, whole: WISP_FADE_IN }
                }
            },
            WispFade::Out { start } => {
                let gone: u64 = elapsed(start, now);
                if gone >= WISP_FADE_OUT {
                    self.fade = WispFade::Hidden;
                    WispTick::Hide
                } else {
                    WispTick::Draw { shown: WISP_FADE_OUT - gone, whole: WISP_FADE_OUT }
                }
            },
        }
    }
}

/// A wisp that is going is hidden by the first frame after its time, and then needs no frames.
pub proof fn law_wisp_goes_and_rests(w: Wisp, start: u64, now: u64, later: u64)
    requires
        w.fade == (WispFade::Out { start }),
        span(start, now) >= WISP_FADE_OUT,
        span(w.last_anim, now) >= WISP_FRAME,
    ensures
        w.spec_tick(now) == WispTick::Hide,
        !w.spec_after(now).spec_active(),
        w.spec_after(now).spec_tick(later) == WispTick::Skip,
        w.spec_after(now).spec_fade_out(later) == w.spec_after(now),
{
}

/// Asking the wisp to go twice is asking once.
pub proof fn law_fading_out_twice_is_once(w: Wisp, now: u64, later: u64)
    ensures
        w.spec_fade_out(now).spec_fade_out(later) == w.spec_fade_out(now),
{
}

// ---- the one wisp of the process -------------------------------------------

/// Whether there is a wisp.
#[derive(Clone, Copy, Debug, PartialEq, Eq, Structural)]
pub enum WispSlot {
    /// Nothing has been carried yet.
    Uninit,
    Ready(Wisp),
    /// A wisp could not be made, and is not tried again.
    Unsupported,
}

/// Whether a wisp has to be made now: for the first surface that is carried.
pub open spec fn must_make(slot: WispSlot, enabled: bool, just_carried: bool) -> bool {
    enabled && just_carried && slot == WispSlot::Uninit
}

/// Whether a wisp has to be made now.
pub fn wisp_wanted(slot: &WispSlot, enabled: bool, just_carried: bool) -> (r: bool)
    ensures
        r == must_make(*slot, enabled, just_carried),
{
    match slot {
        WispSlot::Uninit => enabled && just_carried,
        _ => false,
    }
}

/// The slot after a motion of a carried surface. `made` tells that a wisp could be made, where it
/// had to.
pub open spec fn slot_after(slot: WispSlot, enabled: bool, just_carried: bool, made: bool, now: u64) -> WispSlot {
    let there = if must_make(slot, enabled, just_carried) {
        if made {
            WispSlot::Ready(Wisp { fade: WispFade::Hidden, last_anim: now })
        } else {
            WispSlot::Unsupported
        }
    } else {
        slot
    };
    match there {
        WispSlot::Ready(w) if enabled && just_carried => WispSlot::Ready(
            Wisp { fade: WispFade::In { start: now }, ..w },
        ),
        _ => there,
    }
}

/// How a wisp follows the pointer: brighter over a place to drop.
#[derive(Clone, Copy, Debug, PartialEq, Eq, Structural)]
pub enum WispFollow {
    /// There is no wisp, or it is switched off.
    Absent,
    Dim,
    Bright,
}

/// Lets the wisp follow a carried surface.
pub fn wisp_tick(slot: &mut WispSlot, enabled: bool, just_carried: bool, made: bool, hovering: bool, now: u64) -> (r: WispFollow)
    ensures
        *final(slot) == slot_after(*old(slot), enabled, just_carried, made, now),
        r == (if enabled && *final(slot) is Ready {
            if hovering { WispFollow::Bright } else { WispFollow::Dim }
        } else {
            WispFollow::Absent
        }),
{
    if !enabled {
        return WispFollow::Absent;
    }
    if just_carried {
        if wisp_wanted(slot, enabled, just_carried) {
            *slot = if made {
                WispSlot::Ready(Wisp::new(now))
            } else {
                WispSlot::Unsupported
            };
        }
        if let WispSlot::Ready(w) = slot {
            w.show(now);
        }
    }
    match slot {
        WispSlot::Ready(_) => if hovering {
            WispFollow::Bright
        } else {
            WispFollow::Dim
        },
        _ => WispFollow::Absent,
    }
}

/// A wisp that could not be made is never tried again.
pub proof fn law_wisp_is_tried_once(enabled: bool, just_carried: bool, made: bool, now: u64, slot: WispSlot)
    ensures
        slot_after(WispSlot::Unsupported, enabled, just_carried, made, now) == WispSlot::Unsupported,
        must_make(slot, enabled, just_carried) ==> !must_make(
            slot_after(slot, enabled, just_carried, made, now),
            enabled,
            just_carried,
        ),
{
}

/// The drag has ended: the wisp goes, where there is one.
pub fn wisp_end_drag(slot: &mut WispSlot, now: u64)
    ensures
        *final(slot) == (match *old(slot) {
            WispSlot::Ready(w) => WispSlot::Ready(w.spec_fade_out(now)),
            _ => *old(slot),
        }),
{
    if let WispSlot::Ready(w) = slot {
        w.begin_fade_out(now);
    }
}

// ---- the course of a wisp --------------------------------------------------

/// A wisp fades in over 150 milliseconds and out over 200, in proportion to the time, and stays
/// whole in between; it is drawn every 16.
pub proof fn law_wisps_fade_in_proportion(w: Wisp, start: u64, now: u64)
    requires
        w.last_anim <= now && now - w.last_anim >= 16_000_000,
        start <= now,
    ensures
        w.fade == (WispFade::In { start }) ==> {
            &&& now - start < 150_000_000 ==> w.spec_tick(now) == (WispTick::Draw {
                shown: (now - start) as u64,
                whole: 150_000_000,
            }) && w.spec_after(now).fade == w.fade
            &&& now - start >= 150_000_000 ==> w.spec_tick(now) == (WispTick::Draw {
                shown: 1,
                whole: 1,
            }) && w.spec_after(now).fade == WispFade::Steady
        },
        w.fade == WispFade::Steady ==> w.spec_tick(now) == (WispTick::Draw { shown: 1, whole: 1 })
            && w.spec_after(now).fade == WispFade::Steady,
        w.fade == (WispFade::Out { start }) ==> {
            &&& now - start < 200_000_000 ==> w.spec_tick(now) == (WispTick::Draw {
                shown: (200_000_000 - (now - start)) as u64,
                whole: 200_000_000,
            }) && w.spec_after(now).fade == w.fade
            &&& now - start >= 200_000_000 ==> w.spec_tick(now) == WispTick::Hide && w.spec_after(
                now,
            ).fade == WispFade::Hidden
        },
        w.fade == WispFade::Hidden ==> w.spec_tick(now) == WispTick::Skip,
        w.spec_after(now).last_anim == now,
{
}

/// Between two frames a wisp is left alone.
pub proof fn law_wisps_rest_between_frames(w: Wisp, now: u64)
    requires
        w.last_anim <= now && now - w.last_anim < 16_000_000,
    ensures
        w.spec_tick(now) == WispTick::Skip,
        w.spec_after(now) == w,
{
}

/// A wisp starts hidden, fades in when it is shown, and fades out from where it is seen; a hidden
/// one stays hidden.
pub proof fn law_wisps_are_shown_and_hidden(w: &mut Wisp, fresh: Wisp, now: u64, start: u64)
    ensures
        call_ensures(Wisp::new, (now,), fresh) ==> fresh.fade == WispFade::Hidden && fresh.last_anim
            == now && !fresh.spec_active(),
        call_ensures(Wisp::show, (w, now), ()) ==> final(w).fade == (WispFade::In { start: now })
            && final(w).last_anim == old(w).last_anim,
        fresh.fade == WispFade::Steady || fresh.fade == (WispFade::In { start })
            ==> fresh.spec_fade_out(now).fade == (WispFade::Out { start: now }),
        fresh.fade == WispFade::Hidden || fresh.fade == (WispFade::Out { start })
            ==> fresh.spec_fade_out(now) == fresh,
        fresh.spec_active() <==> fresh.fade != WispFade::Hidden,
{
}

/// The wisp is made when a surface first leaves its window, if wisps are wanted, and shown each
/// time; one that could not be made is not tried again. It follows the pointer, brighter over a
/// place to drop.
pub proof fn law_the_wisp_follows_what_is_carried(slot: &mut WispSlot, enabled: bool, just: bool, made: bool, hovering: bool, now: u64, r: WispFollow, w: Wisp)
    ensures
        must_make(WispSlot::Uninit, enabled, just) <==> enabled && just,
        !must_make(WispSlot::Ready(w), enabled, just) && !must_make(
            WispSlot::Unsupported,
            enabled,
            just,
        ),
        slot_after(WispSlot::Uninit, true, true, true, now) == WispSlot::Ready(
            Wisp { fade: WispFade::In { start: now }, last_anim: now },
        ),
        slot_after(WispSlot::Uninit, true, true, false, now) == WispSlot::Unsupported,
        slot_after(WispSlot::Ready(w), true, true, made, now) == WispSlot::Ready(
            Wisp { fade: WispFade::In { start: now }, last_anim: w.last_anim },
        ),
        !enabled || !just ==> slot_after(*old(slot), enabled, just, made, now) == *old(slot),
        call_ensures(wisp_tick, (slot, enabled, just, made, hovering, now), r) ==> {
            &&& *final(slot) == slot_after(*old(slot), enabled, just, made, now)
            &&& r is Bright <==> enabled && *final(slot) is Ready && hovering
            &&& r is Dim <==> enabled && *final(slot) is Ready && !hovering
        },
        call_ensures(wisp_end_drag, (slot, now), ()) ==> match *old(slot) {
            WispSlot::Ready(u) => *final(slot) == WispSlot::Ready(u.spec_fade_out(now)),
            _ => *final(slot) == *old(slot),
        },
{
}

} // verus!
