use ember_term::drag::{
    cancel_drag_everywhere, clear_drag_on_window_close, drop_zone_to_dest, exclusion_for,
    hover_at, hover_is_self_merge, pane_drag_source, resolve_drag_drop, revert_target_tab,
    set_incoming_drop, start_pane_drag, tear_off_tab, update_cross_window_drag, update_drag_hover,
    CarriedExclusion, DragEnded, DragState, DropHover, DropZone, Exclusion, ExclusionStep,
    PhantomTab, SplitVisual, Spot, StripSlot, Under,
};
use ember_term::layout::{Axis, LayoutNode, PaneId, SessionId, Tab, TabId, WindowId, WindowTree};
use ember_term::windows::{SurfaceDest, SurfaceRef};

const A: WindowId = WindowId(1);
const B: WindowId = WindowId(2);

fn tab(id: u64, title: &str, panes: &[u64]) -> Tab {
    let mut root = LayoutNode::pane(PaneId(panes[0]), SessionId::new(&format!("s{}", panes[0])));
    for p in &panes[1..] {
        root = LayoutNode::split(
            Axis::Horizontal,
            0.5f32.to_bits(),
            root,
            LayoutNode::pane(PaneId(*p), SessionId::new(&format!("s{p}"))),
        );
    }
    Tab { id: TabId(id), title: title.to_string(), focus: PaneId(panes[0]), root }
}

fn tree() -> WindowTree {
    WindowTree {
        active: 1,
        tabs: vec![tab(10, "one", &[1]), tab(11, "two", &[2, 3]), tab(12, "", &[4])],
    }
}

fn carrying(surface: SurfaceRef, hover: Option<DropHover>) -> DragState {
    DragState {
        surface,
        source_window: A,
        carried: false,
        hover,
        last_raised: None,
        title: "two".to_string(),
    }
}

#[test]
fn revert_target_tab_falls_back_to_the_nearest_survivor() {
    assert_eq!(revert_target_tab(4, 2), Some(1));
    assert_eq!(revert_target_tab(4, 0), Some(1));
    assert_eq!(revert_target_tab(4, 3), Some(2));
    assert_eq!(revert_target_tab(1, 0), None);
}

#[test]
fn drop_zone_to_dest_maps_edge_to_split_into_with_axis_and_side() {
    let left = drop_zone_to_dest(
        DropZone::Edge { axis: Axis::Horizontal, before: true },
        2,
        5,
        PaneId(9),
    );
    assert_eq!(
        left,
        SurfaceDest::SplitInto {
            window: 2,
            tab: 5,
            pane: PaneId(9),
            axis: Axis::Horizontal,
            before: true,
        }
    );
    let bottom = drop_zone_to_dest(
        DropZone::Edge { axis: Axis::Vertical, before: false },
        0,
        0,
        PaneId(1),
    );
    assert_eq!(
        bottom,
        SurfaceDest::SplitInto {
            window: 0,
            tab: 0,
            pane: PaneId(1),
            axis: Axis::Vertical,
            before: false,
        }
    );
}

#[test]
fn drop_zone_to_dest_maps_center_to_new_tab_of_the_hovered_window() {
    let dest = drop_zone_to_dest(DropZone::Center, 3, 7, PaneId(4));
    assert_eq!(dest, SurfaceDest::NewTab { window: 3 });
}

#[test]
fn pane_drag_source_picks_the_pane_in_a_multi_pane_tab() {
    assert_eq!(
        pane_drag_source(1, 2, PaneId(9), 2),
        SurfaceRef::Pane { window: 1, tab: 2, pane: PaneId(9) }
    );
    assert_eq!(
        pane_drag_source(0, 0, PaneId(3), 5),
        SurfaceRef::Pane { window: 0, tab: 0, pane: PaneId(3) }
    );
}

#[test]
fn pane_drag_source_promotes_to_a_tab_ref_for_a_sole_pane_tab() {
    assert_eq!(
        pane_drag_source(1, 2, PaneId(9), 1),
        SurfaceRef::Tab { window: 1, tab: 2 }
    );
    assert_eq!(
        pane_drag_source(4, 0, PaneId(7), 0),
        SurfaceRef::Tab { window: 4, tab: 0 }
    );
}

#[test]
fn a_drag_says_how_it_ended() {
    assert_eq!(DragEnded::Reorder.as_str(), "reorder");
    assert_eq!(DragEnded::Move.as_str(), "move");
    assert_eq!(DragEnded::Cancel.as_str(), "cancel");
    assert_eq!(DragEnded::Selection.as_str(), "selection");
    assert_eq!(DragEnded::Nothing.as_str(), "none");
}

#[test]
fn a_torn_off_tab_shows_a_neighbour() {
    let mut t = tree();
    let drag = tear_off_tab(&mut t, &[B, A], A, 1, TabId(11));
    assert_eq!(drag.surface, SurfaceRef::Tab { window: 1, tab: 1 });
    assert_eq!(drag.source_window, A);
    assert_eq!(drag.title, "two");
    assert!(!drag.carried);
    assert_eq!(t.active, 0);
}

#[test]
fn a_pane_drag_takes_a_sole_pane_as_its_tab() {
    let mut t = tree();
    let drag = start_pane_drag(&t, &[A], A, PaneId(3));
    assert_eq!(drag.surface, SurfaceRef::Pane { window: 0, tab: 1, pane: PaneId(3) });
    t.active = 0;
    let drag = start_pane_drag(&t, &[A], A, PaneId(1));
    assert_eq!(drag.surface, SurfaceRef::Tab { window: 0, tab: 0 });
}

#[test]
fn merging_a_surface_into_itself_is_seen() {
    let pane = SurfaceRef::Pane { window: 0, tab: 1, pane: PaneId(3) };
    assert!(hover_is_self_merge(pane, 1, PaneId(3)));
    assert!(!hover_is_self_merge(pane, 1, PaneId(2)));
    let tab = SurfaceRef::Tab { window: 0, tab: 1 };
    assert!(hover_is_self_merge(tab, 1, PaneId(2)));
    assert!(!hover_is_self_merge(tab, 0, PaneId(1)));
}

#[test]
fn what_is_carried_leaves_its_window_once() {
    let t = tree();
    let pane = SurfaceRef::Pane { window: 0, tab: 1, pane: PaneId(3) };
    assert_eq!(exclusion_for(pane, &t), CarriedExclusion::Pane(PaneId(3)));
    assert_eq!(
        exclusion_for(SurfaceRef::Tab { window: 0, tab: 1 }, &t),
        CarriedExclusion::Tab(TabId(11))
    );
    let sole = WindowTree { active: 0, tabs: vec![tab(10, "one", &[1])] };
    assert_eq!(
        exclusion_for(SurfaceRef::Tab { window: 0, tab: 0 }, &sole),
        CarriedExclusion::WholeWindow
    );
    let mut ex = Exclusion::new();
    assert_eq!(ex.apply_carried_exclusion(false, true), ExclusionStep::Nothing);
    ex.begin_carried_exclusion(pane, &t);
    assert_eq!(ex.hidden_pane(), None);
    assert_eq!(ex.apply_carried_exclusion(true, true), ExclusionStep::Nothing);
    assert_eq!(ex.apply_carried_exclusion(false, true), ExclusionStep::Relayout);
    assert_eq!(ex.hidden_pane(), Some(PaneId(3)));
    assert_eq!(ex.hidden_tab(), None);
    assert_eq!(ex.apply_carried_exclusion(false, true), ExclusionStep::Nothing);
    assert_eq!(ex.clear_carried_exclusion(), ExclusionStep::Relayout);
    assert_eq!(ex.hidden_pane(), None);
}

#[test]
fn a_whole_window_hides_until_the_carry_ends() {
    let sole = WindowTree { active: 0, tabs: vec![tab(10, "one", &[1])] };
    let mut ex = Exclusion::new();
    ex.begin_carried_exclusion(SurfaceRef::Tab { window: 0, tab: 0 }, &sole);
    assert_eq!(ex.apply_carried_exclusion(false, true), ExclusionStep::HideWindow);
    assert!(!ex.finish_carry_reshow());
    ex.clear_carried_exclusion();
    assert!(ex.finish_carry_reshow());
    assert!(!ex.finish_carry_reshow());
}

#[test]
fn the_pointer_finds_chips_and_panes() {
    let t = tree();
    let ex = Exclusion::new();
    assert_eq!(hover_at(A, &t, &ex, &Spot::Outside), None);
    assert_eq!(hover_at(A, &t, &ex, &Spot::Body), None);
    assert_eq!(
        hover_at(A, &t, &ex, &Spot::Strip(Some(StripSlot::Tab(2)))),
        Some(DropHover::Strip { window: A, insert_at: 2, chip: Some(2) })
    );
    assert_eq!(
        hover_at(A, &t, &ex, &Spot::Strip(Some(StripSlot::Behind))),
        Some(DropHover::Strip { window: A, insert_at: 2, chip: None })
    );
    let carried =
        Exclusion { carried: Some(CarriedExclusion::Tab(TabId(10))), applied: true, ..ex };
    assert_eq!(
        hover_at(A, &t, &carried, &Spot::Strip(Some(StripSlot::Tab(0)))),
        Some(DropHover::Strip { window: A, insert_at: 1, chip: Some(1) })
    );
    assert_eq!(
        hover_at(
            A,
            &t,
            &ex,
            &Spot::Pane { session: SessionId::new("s3"), zone: DropZone::Center }
        ),
        Some(DropHover::Pane { window: A, tab: 1, pane: PaneId(3), zone: DropZone::Center })
    );
    assert_eq!(
        hover_at(
            A,
            &t,
            &ex,
            &Spot::Pane { session: SessionId::new("s1"), zone: DropZone::Center }
        ),
        None
    );
}

#[test]
fn hovering_is_drawn_where_it_would_land() {
    let t = tree();
    let mut drag = Some(carrying(SurfaceRef::Tab { window: 0, tab: 0 }, None));
    let hover = DropHover::Pane {
        window: A,
        tab: 1,
        pane: PaneId(2),
        zone: DropZone::Edge { axis: Axis::Vertical, before: true },
    };
    let seen = update_drag_hover(&mut drag, A, &t, Some(hover)).unwrap();
    assert_eq!(
        seen.split,
        SplitVisual::Show {
            session: SessionId::new("s2"),
            horizontal: false,
            before: true,
            whole: false
        }
    );
    assert_eq!(drag.unwrap().hover, Some(hover));
    assert!(update_drag_hover(&mut None, A, &t, Some(hover)).is_none());
    let strip = DropHover::Strip { window: A, insert_at: 1, chip: None };
    let seen = set_incoming_drop(&t, Some(strip), Some("two"));
    assert_eq!(seen.phantom, PhantomTab::Show("two".to_string()));
}

#[test]
fn windows_under_the_carried_surface_are_raised_once() {
    let mut drag = Some(carrying(SurfaceRef::Tab { window: 0, tab: 1 }, None));
    let under = Under::Window { id: B, hover: Some(None) };
    let step = update_cross_window_drag(&mut drag, A, true, under).unwrap();
    assert_eq!(step.raise, Some(B));
    assert!(step.just_carried && step.carried);
    let step = update_cross_window_drag(&mut drag, A, true, under).unwrap();
    assert_eq!(step.raise, None);
    assert!(!step.just_carried && step.carried);
}

#[test]
fn drops_become_moves() {
    let order = [A, B];
    let strip = DropHover::Strip { window: A, insert_at: 0, chip: None };
    let out = resolve_drag_drop(
        &order,
        A,
        3,
        &carrying(SurfaceRef::Tab { window: 0, tab: 1 }, Some(strip)),
    );
    assert_eq!(out.ended, DragEnded::Reorder);
    assert_eq!(out.reorder, Some((1, 0)));
    let pane = DropHover::Pane { window: B, tab: 0, pane: PaneId(7), zone: DropZone::Center };
    let out = resolve_drag_drop(
        &order,
        A,
        3,
        &carrying(SurfaceRef::Tab { window: 0, tab: 1 }, Some(pane)),
    );
    assert_eq!(out.ended, DragEnded::Move);
    assert_eq!(
        out.pending,
        Some((SurfaceRef::Tab { window: 0, tab: 1 }, SurfaceDest::NewTab { window: 1 }))
    );
    let out = resolve_drag_drop(
        &order,
        A,
        3,
        &carrying(SurfaceRef::Tab { window: 0, tab: 1 }, Some(DropHover::Desktop)),
    );
    assert_eq!(out.ended, DragEnded::Move);
    assert_eq!(
        out.pending,
        Some((SurfaceRef::Tab { window: 0, tab: 1 }, SurfaceDest::NewWindow))
    );
    assert!(out.at_pointer);
    let out =
        resolve_drag_drop(&order, A, 3, &carrying(SurfaceRef::Tab { window: 0, tab: 1 }, None));
    assert_eq!(out.ended, DragEnded::Cancel);
    assert_eq!(out.pending, None);
}

#[test]
fn drags_end_with_their_window() {
    let mut drag = Some(carrying(SurfaceRef::Tab { window: 0, tab: 1 }, None));
    assert!(!clear_drag_on_window_close(&mut drag, B));
    assert!(drag.is_some());
    assert!(clear_drag_on_window_close(&mut drag, A));
    assert!(drag.is_none());
    let mut drag = Some(carrying(SurfaceRef::Tab { window: 0, tab: 1 }, None));
    assert_eq!(cancel_drag_everywhere(&mut drag), Some(A));
    assert_eq!(cancel_drag_everywhere(&mut drag), None);
}
