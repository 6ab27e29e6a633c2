use ember_term::gesture::{start_morph, FRAME, POUR_OUT};
use ember_term::keys::Mods;
use ember_term::layout::WindowId;
use ember_term::pacing::{
    backdrop_animating, ember_frame, pace, pace_dying, power_state_stale, sparks_visible,
    tick_paced, wake_by, Dying, PacedDrag, PacedStep, PowerState, SparksMode, WindowSight,
    POWER_STATE_TTL,
};
use ember_term::wisp::{
    wisp_end_drag, wisp_tick, wisp_wanted, Wisp, WispFade, WispFollow, WispSlot, WispTick,
    WISP_FADE_IN, WISP_FADE_OUT, WISP_FRAME,
};

fn sight() -> WindowSight {
    WindowSight {
        occluded: false,
        focused: true,
        help: false,
        about: false,
        settings_open: false,
        fps_overlay: false,
        bell_flashing: false,
        phantom: false,
        render_starved: false,
    }
}

#[test]
fn the_earliest_deadline_wins() {
    let mut wake = None;
    wake_by(&mut wake, 50);
    wake_by(&mut wake, 70);
    wake_by(&mut wake, 20);
    assert_eq!(wake, Some(20));
}

#[test]
fn sparks_follow_their_mode() {
    assert!(backdrop_animating(&sight(), SparksMode::Focused, false, false));
    let away = WindowSight { focused: false, ..sight() };
    assert!(!backdrop_animating(&away, SparksMode::Focused, false, false));
    assert!(backdrop_animating(&away, SparksMode::Always, false, false));
    assert!(!backdrop_animating(&sight(), SparksMode::Off, false, false));
    assert!(!backdrop_animating(&sight(), SparksMode::Always, false, true));
    let hidden = WindowSight { occluded: true, ..sight() };
    assert!(!backdrop_animating(&hidden, SparksMode::Always, false, false));
    assert!(!sparks_visible(SparksMode::Off, false));
    assert!(sparks_visible(SparksMode::Always, false));
}

#[test]
fn the_power_state_is_asked_for_again() {
    let state = PowerState { checked_at: 100, low_power: false, reduce_motion: false };
    assert!(power_state_stale(None, 0));
    assert!(!power_state_stale(Some(state), 101));
    assert!(power_state_stale(Some(state), 100 + POWER_STATE_TTL));
}

#[test]
fn frames_come_at_their_rate() {
    assert_eq!(ember_frame(20), 50_000_000);
    let mut last = 1000;
    let p = pace(&mut last, &sight(), false, ember_frame(20), 1000 + FRAME);
    assert_eq!((p.redraw, p.deadline), (false, None));
    let p = pace(&mut last, &sight(), true, ember_frame(20), 1000 + ember_frame(20));
    assert!(p.advance && p.redraw);
    assert_eq!(last, 1000 + ember_frame(20));
    let soon = last + 1;
    let p = pace(&mut last, &sight(), true, ember_frame(20), soon);
    assert!(!p.redraw);
    assert_eq!(p.deadline, Some(last + ember_frame(20)));
}

#[test]
fn a_dying_window_is_dropped_when_its_morph_is_over() {
    let mut morph = start_morph(true, false, false, 0);
    let mut last = 0;
    assert_eq!(pace_dying(&mut last, &mut morph, 1), Dying::Wait(FRAME));
    assert_eq!(
        pace_dying(&mut last, &mut morph, FRAME),
        Dying::Draw { gone: FRAME, deadline: 2 * FRAME }
    );
    assert_eq!(pace_dying(&mut last, &mut morph, FRAME + POUR_OUT), Dying::Drop);
}

#[test]
fn paced_drags_take_their_steps_in_order() {
    let none = Mods { shift: false, alt: false, ctrl: false, sup: false };
    let mut paced = Some(PacedDrag {
        done: 0,
        steps: 2,
        interval: 10,
        last_step: 0,
        window: WindowId(1),
        cancel: false,
        saved_mods: none,
        reply: 3,
    });
    assert_eq!(tick_paced(&mut paced, true, 5), Some(PacedStep::Wait(10)));
    assert_eq!(
        tick_paced(&mut paced, true, 10),
        Some(PacedStep::Move { step: 1, deadline: 20 })
    );
    assert_eq!(
        tick_paced(&mut paced, true, 20),
        Some(PacedStep::Move { step: 2, deadline: 30 })
    );
    assert_eq!(tick_paced(&mut paced, true, 30), Some(PacedStep::Finish));
    assert_eq!(tick_paced(&mut paced, true, 40), None);
}

#[test]
fn the_wisp_fades_in_and_out() {
    let mut w = Wisp::new(0);
    w.show(0);
    assert_eq!(w.fade, WispFade::In { start: 0 });
    assert!(w.is_active());
    assert_eq!(w.tick(WISP_FRAME), WispTick::Draw { shown: WISP_FRAME, whole: WISP_FADE_IN });
    assert_eq!(w.tick(WISP_FRAME + 1), WispTick::Skip);
    w.tick(WISP_FADE_IN);
    assert_eq!(w.fade, WispFade::Steady);
    w.begin_fade_out(WISP_FADE_IN);
    w.begin_fade_out(WISP_FADE_IN + 5);
    assert_eq!(w.fade, WispFade::Out { start: WISP_FADE_IN });
    assert_eq!(w.tick(WISP_FADE_IN + WISP_FADE_OUT), WispTick::Hide);
    assert!(!w.is_active());
}

#[test]
fn the_wisp_is_tried_once() {
    let mut slot = WispSlot::Uninit;
    assert!(wisp_wanted(&slot, true, true));
    assert!(!wisp_wanted(&slot, false, true));
    assert_eq!(wisp_tick(&mut slot, true, true, false, false, 0), WispFollow::Absent);
    assert_eq!(slot, WispSlot::Unsupported);
    assert!(!wisp_wanted(&slot, true, true));
    let mut slot = WispSlot::Uninit;
    assert!(wisp_tick(&mut slot, true, true, true, false, 0) != WispFollow::Absent);
    assert!(matches!(slot, WispSlot::Ready(_)));
    wisp_end_drag(&mut slot, 10);
    let WispSlot::Ready(w) = slot else { panic!("expected a wisp") };
    assert!(matches!(w.fade, WispFade::Out { .. }));
}
