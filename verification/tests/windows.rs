use ember_term::control::{MoveTabTarget, PromotePaneTarget};
use ember_term::layout::{Axis, PaneId, SessionId, WindowId};
use ember_term::windows::{
    build_merge_tab, build_move_tab, build_promote_pane, humanize_move_error, next_prev_index,
    note_focused, plan_move, queue_close_this, queue_close_window, resolve_index,
    resolve_window_index, surface_window_index, window_frames, CloseOutcome, DeferredMoveOp,
    DeferredWindowAction, MoveEffect, MoveError, MoveStep, SurfaceDest, SurfaceRef, WindowSet,
};

const A: WindowId = WindowId(1);
const B: WindowId = WindowId(2);
const C: WindowId = WindowId(3);

#[test]
fn deferred_window_actions_preserve_write_order_and_dedup_close() {
    let v: Vec<DeferredWindowAction> = vec![
        DeferredWindowAction::OpenNew(Some("a".into())),
        DeferredWindowAction::OpenNew(Some("b".into())),
    ];
    assert_eq!(v.len(), 2);

    let mut v: Vec<DeferredWindowAction> = Vec::new();
    v.push(DeferredWindowAction::OpenNew(None));
    queue_close_this(&mut v);
    assert!(matches!(v[0], DeferredWindowAction::OpenNew(_)));
    assert!(matches!(v[1], DeferredWindowAction::CloseThis));

    let mut v: Vec<DeferredWindowAction> = Vec::new();
    queue_close_this(&mut v);
    queue_close_this(&mut v);
    queue_close_this(&mut v);
    assert_eq!(v.len(), 1);
}

#[test]
fn queue_close_window_dedups_same_id_but_keeps_distinct_ids() {
    let a = WindowId(0);
    let mut v: Vec<DeferredWindowAction> = Vec::new();
    queue_close_window(&mut v, a);
    queue_close_window(&mut v, a);
    assert_eq!(v.len(), 1);
    match &v[0] {
        DeferredWindowAction::CloseWindow(id) => assert_eq!(*id, a),
        other => panic!("expected CloseWindow(a), got {other:?}"),
    }
    queue_close_window(&mut v, B);
    assert_eq!(v.len(), 2);
    assert!(matches!(v[1], DeferredWindowAction::CloseWindow(B)));
}

#[test]
fn deferred_move_carries_window_identity_and_preserves_write_order() {
    let wid = WindowId(0);
    let v: Vec<DeferredWindowAction> = vec![
        DeferredWindowAction::OpenNew(None),
        DeferredWindowAction::Move(wid, DeferredMoveOp::MergeTab, None),
    ];
    assert_eq!(v.len(), 2);
    assert!(matches!(v[0], DeferredWindowAction::OpenNew(_)));
    match &v[1] {
        DeferredWindowAction::Move(source, DeferredMoveOp::MergeTab, None) => {
            assert_eq!(*source, wid);
        }
        other => panic!("expected a MergeTab Move carrying `wid`, got {other:?}"),
    }
}

#[test]
fn resolve_index_finds_present_ids_and_misses_absent_ones() {
    let order = [10u32, 20, 30];
    assert_eq!(resolve_index(&order, &10), Some(0));
    assert_eq!(resolve_index(&order, &20), Some(1));
    assert_eq!(resolve_index(&order, &30), Some(2));
    assert_eq!(resolve_index(&order, &99), None);
    assert_eq!(resolve_window_index(&[A, B], B), Some(1));
    assert_eq!(resolve_window_index(&[A, B], C), None);
}

#[test]
fn positions_go_by_the_equality_of_the_type() {
    assert_eq!(resolve_index(&[f64::NAN, 1.0, 1.0], &1.0), Some(1));
    assert_eq!(resolve_index(&[f64::NAN], &f64::NAN), None);
    assert_eq!(resolve_index(&["a", "b"], &"b"), Some(1));
}

#[test]
fn next_prev_index_wraps_across_a_three_entry_order() {
    let n = 3;
    assert_eq!(next_prev_index(0, n, true), 1);
    assert_eq!(next_prev_index(1, n, true), 2);
    assert_eq!(next_prev_index(2, n, true), 0, "wraps forward past the end");
    assert_eq!(next_prev_index(0, n, false), 2, "wraps backward past the start");
    assert_eq!(next_prev_index(1, n, false), 0);
    assert_eq!(next_prev_index(2, n, false), 1);
}

#[test]
fn moving_a_tab_names_windows_by_number() {
    let order = [A, B];
    let src = SurfaceRef::Tab { window: 0, tab: 3 };
    assert_eq!(
        build_move_tab(&order, A, 3, MoveTabTarget::New),
        Ok((src, SurfaceDest::NewWindow))
    );
    assert_eq!(
        build_move_tab(&order, A, 3, MoveTabTarget::Window(2)),
        Ok((src, SurfaceDest::NewTab { window: 1 }))
    );
    assert_eq!(
        build_move_tab(&order, A, 3, MoveTabTarget::Window(3)),
        Err("no window 3 (there are 2)".to_string())
    );
    assert_eq!(
        build_move_tab(&order, A, 3, MoveTabTarget::Prev),
        Ok((src, SurfaceDest::NewTab { window: 1 }))
    );
    assert_eq!(
        build_move_tab(&[A], A, 0, MoveTabTarget::Next),
        Err("only one window open".to_string())
    );
    assert_eq!(
        build_move_tab(&order, C, 0, MoveTabTarget::New),
        Err("focused window not tracked".to_string())
    );
}

#[test]
fn promoting_and_merging() {
    let order = [A, B];
    assert_eq!(
        build_promote_pane(&order, B, 1, PaneId(7), PromotePaneTarget::Tab),
        Ok((
            SurfaceRef::Pane { window: 1, tab: 1, pane: PaneId(7) },
            SurfaceDest::NewTab { window: 1 }
        ))
    );
    assert_eq!(
        build_merge_tab(&order, B, 2, Some(PaneId(5))),
        Ok((
            SurfaceRef::Tab { window: 1, tab: 2 },
            SurfaceDest::SplitInto {
                window: 1,
                tab: 1,
                pane: PaneId(5),
                axis: Axis::Horizontal,
                before: false
            }
        ))
    );
    assert_eq!(build_merge_tab(&order, B, 0, None), Err("no previous tab".to_string()));
    assert_eq!(surface_window_index(SurfaceRef::Tab { window: 4, tab: 0 }), 4);
    assert_eq!(
        humanize_move_error(MoveError::WouldEmptyTab),
        "the tab's only pane cannot be promoted; move the tab instead"
    );
    assert_eq!(humanize_move_error(MoveError::Invalid("why".to_string())), "why");
}

#[test]
fn sessions_move_before_their_window_closes() {
    let effects = vec![
        MoveEffect::WindowClosed { index: 0 },
        MoveEffect::SessionsRehomed { sessions: vec![SessionId::new("s1")], to_window: 0 },
    ];
    let plan = plan_move(&[A, B], 1, effects, 0, SurfaceRef::Tab { window: 0, tab: 0 });
    assert_eq!(plan.slots, vec![Some(B)]);
    assert!(matches!(plan.steps[0], MoveStep::Rehome { slot: 0, .. }));
    assert!(matches!(plan.steps[1], MoveStep::CloseShell { window: Some(A) }));
    assert_eq!(plan.source, Some(A));
    assert_eq!(plan.focus(Some(A)), Some(B));
}

#[test]
fn focus_orders_windows_from_the_front() {
    let mut history = vec![A];
    note_focused(&mut history, B);
    note_focused(&mut history, A);
    assert_eq!(history, vec![A, B]);
    assert_eq!(window_frames(&[C, A], &[A, B]), vec![A, B]);
    assert_eq!(window_frames(&[B], &[A, B, C]), vec![B, A, C]);
}

#[test]
fn the_last_window_quits() {
    let mut set = WindowSet { order: vec![A, B], focused: Some(A) };
    assert_eq!(set.finish_close(C), CloseOutcome::Nothing);
    assert_eq!(set.finish_close(A), CloseOutcome::CloseOne);
    set.close_window(A);
    assert_eq!(set.order, vec![B]);
    assert_eq!(set.focused, Some(B));
    assert_eq!(set.finish_close(B), CloseOutcome::Quit);
    assert_eq!(set.finish_close(A), CloseOutcome::Nothing);
}

#[test]
fn a_replaced_window_does_not_quit() {
    let mut set = WindowSet { order: vec![A], focused: Some(A) };
    assert_eq!(set.finish_close(A), CloseOutcome::Quit);
    set.opened(B);
    assert_eq!(set.finish_close(A), CloseOutcome::CloseOne);
}
