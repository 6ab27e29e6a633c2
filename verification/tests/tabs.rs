use ember_term::backend::{
    drain, is_live, note_focus, queue_emptied, window_of, BackendEvent, SessionTexts,
};
use ember_term::keys::{Key, NamedKey};
use ember_term::layout::{Axis, LayoutNode, PaneId, SessionId, Tab, TabId, WindowId, WindowTree};
use ember_term::overlay::PendingClose;
use ember_term::report::{
    build_state_json, focus_across_windows, screenshot_reply, state_json, tab_titles,
    tabs_summary_json, ListedWindow, PaneShot, Place, WindowFacts,
};
use ember_term::tabs::{
    after_removal, bell_session, changed_dims, clear_shown_bell, close_hits_running, cycle_tab,
    do_close, find_session, finish_split, focus_pane_of_session, focused_session_id, on_bell,
    restore_active, select_tab, session_named, single_pane_tree, strip_labels, visible_panes,
    window_session_ids, GridDims, NextIds, Removal, Rename, RenameStep, SplitStep,
};
use ember_term::windows::DeferredWindowAction;
use serde_json::Value;

const A: WindowId = WindowId(1);
const B: WindowId = WindowId(2);

fn sid(n: u64) -> SessionId {
    SessionId::new(&format!("s{n}"))
}

fn leaf(n: u64) -> LayoutNode {
    LayoutNode::pane(PaneId(n), sid(n))
}

fn tree() -> WindowTree {
    WindowTree {
        active: 0,
        tabs: vec![
            Tab { id: TabId(10), title: "one".to_string(), focus: PaneId(1), root: leaf(1) },
            Tab {
                id: TabId(11),
                title: String::new(),
                focus: PaneId(2),
                root: LayoutNode::split(Axis::Vertical, 0.5f32.to_bits(), leaf(2), leaf(3)),
            },
        ],
    }
}

fn value(s: &str) -> Value {
    serde_json::from_str(s).unwrap()
}

#[test]
fn tabs_are_chosen_and_cycled() {
    let mut t = tree();
    assert!(select_tab(&mut t, 2));
    assert_eq!(t.active, 1);
    assert!(!select_tab(&mut t, 3));
    assert!(!select_tab(&mut t, 0));
    assert!(cycle_tab(&mut t, 1));
    assert_eq!(t.active, 0);
    assert!(cycle_tab(&mut t, -1));
    assert_eq!(t.active, 1);
    assert!(cycle_tab(&mut t, -4));
    assert_eq!(t.active, 1);
    assert!(cycle_tab(&mut t, 3));
    assert_eq!(t.active, 0);
    t.active = 7;
    assert!(cycle_tab(&mut t, -1));
    assert_eq!(t.active, 0);
}

#[test]
fn cycling_uses_up_the_key_where_nothing_can_be_shown() {
    let mut t = tree();
    t.tabs.truncate(1);
    assert!(cycle_tab(&mut t, 1));
    assert_eq!(t.active, 0);
    t.tabs.clear();
    t.active = 5;
    assert!(cycle_tab(&mut t, -1));
    assert_eq!(t.active, 5);
}

#[test]
fn a_close_takes_the_pane_the_tab_or_everything() {
    let mut t = tree();
    assert_eq!(do_close(&t, PendingClose::Pane), Removal::Pane(t.tabs[0].focus));
    assert_eq!(do_close(&t, PendingClose::Tab(TabId(11))), Removal::Tab(TabId(11)));
    assert_eq!(do_close(&t, PendingClose::Quit), Removal::Everything);
    assert_eq!(do_close(&t, PendingClose::CloseWindow), Removal::Everything);
    t.active = 1;
    t.tabs.remove(0);
    assert!(!after_removal(&mut t, Removal::Tab(TabId(10)), Some(TabId(11))));
    assert_eq!(t.active, 0);
    assert!(!after_removal(&mut t, Removal::Pane(PaneId(1)), None));
    assert!(after_removal(&mut t, Removal::Everything, None));
    t.tabs.clear();
    assert!(after_removal(&mut t, Removal::Tab(TabId(11)), None));
    assert!(after_removal(&mut t, Removal::Pane(PaneId(1)), None));
}

#[test]
fn a_bell_is_rung_for_the_first_session_of_a_tab() {
    let t = tree();
    assert_eq!(bell_session(&t, None), Some(sid(1)));
    assert_eq!(bell_session(&t, Some(1)), Some(sid(2)));
    assert_eq!(bell_session(&t, Some(2)), None);
}

#[test]
fn a_copied_tree_is_the_same_tree() {
    let t = tree();
    assert_eq!(t.copy(), t);
}

#[test]
fn a_move_takes_its_number_once_it_is_made() {
    let mut ids = NextIds::new();
    assert_eq!(ids.for_move(), TabId(2));
    assert_eq!(ids.for_move(), TabId(2));
    ids.take_move();
    assert_eq!(ids, NextIds { pane: 2, session: 2, tab: 3 });
}

#[test]
fn sessions_are_found_in_their_panes() {
    let mut t = tree();
    assert_eq!(focused_session_id(&t), Some(sid(1)));
    assert_eq!(window_session_ids(&t), vec![sid(1), sid(2), sid(3)]);
    assert_eq!(find_session(&t, &sid(3)), Some((1, PaneId(3))));
    assert_eq!(find_session(&t, &sid(9)), None);
    assert!(!focus_pane_of_session(&mut t, &sid(3)));
    t.active = 1;
    assert!(focus_pane_of_session(&mut t, &sid(3)));
    assert_eq!(t.tabs[1].focus, PaneId(3));
}

#[test]
fn renaming_edits_a_copy_of_the_title() {
    let t = tree();
    let mut r = Rename::new();
    assert!(!r.start_rename(&t, 5));
    assert!(r.start_rename(&t, 0));
    assert_eq!(r.buffer, "one");
    r.rename_key(&t, &Key::Named(NamedKey::Backspace));
    r.rename_key(&t, &Key::Character("z\u{7}".to_string()));
    assert_eq!(r.buffer, "onz");
    assert_eq!(
        r.rename_key(&t, &Key::Named(NamedKey::Enter)),
        RenameStep::Retitle(TabId(10), "onz".to_string())
    );
    assert_eq!(r.editing, None);
    assert_eq!(r.buffer, "");
    r.start_rename(&t, 0);
    assert_eq!(r.rename_key(&t, &Key::Named(NamedKey::Escape)), RenameStep::Refresh);
    assert_eq!(r.buffer, "");
    r.buffer.push('x');
    assert_eq!(r.rename_key(&t, &Key::Named(NamedKey::Escape)), RenameStep::Nothing);
    assert_eq!(r.rename_key(&t, &Key::Named(NamedKey::Enter)), RenameStep::Nothing);
    assert_eq!(r.buffer, "x");
    assert_eq!(r.commit_rename(&t), RenameStep::Nothing);
    assert_eq!(r.cancel_rename(), RenameStep::Nothing);
}

#[test]
fn a_bell_marks_a_hidden_tab_until_it_is_shown() {
    let mut t = tree();
    let mut belled = vec![];
    let step = on_bell(&mut belled, &t, &sid(3), true);
    assert!(step.relayout);
    assert_eq!(belled, vec![TabId(11)]);
    let step = on_bell(&mut belled, &t, &sid(1), true);
    assert!(step.flash);
    assert_eq!(belled, vec![TabId(11)]);
    assert!(!on_bell(&mut belled, &t, &sid(1), false).flash);
    let labels = strip_labels(&t, None, &Rename::new(), &belled);
    assert_eq!(labels[0].title, "one");
    assert_eq!(labels[1].title, "2");
    assert!(labels[1].bell && !labels[0].bell && labels[0].active);
    assert_eq!(strip_labels(&t, Some(TabId(10)), &Rename::new(), &belled).len(), 1);
    t.active = 1;
    clear_shown_bell(&mut belled, &t);
    assert!(belled.is_empty());
}

#[test]
fn sizes_are_told_once() {
    let d = |c| GridDims { columns: c, screen_lines: 24 };
    assert_eq!(
        changed_dims(&[d(80), d(90), d(100)], &[Some(d(80)), Some(d(80)), None]),
        vec![1, 2]
    );
}

#[test]
fn placed_panes_keep_their_sessions() {
    let t = tree();
    assert_eq!(
        visible_panes(&t.tabs[1].root, &[PaneId(3), PaneId(9), PaneId(2)]),
        vec![(0, sid(3)), (2, sid(2))]
    );
}

#[test]
fn closing_asks_after_its_own_sessions() {
    let t = tree();
    let busy = [sid(3)];
    assert!(close_hits_running(&t, PendingClose::Tab(TabId(11)), &busy));
    assert!(!close_hits_running(&t, PendingClose::Tab(TabId(10)), &busy));
    assert!(!close_hits_running(&t, PendingClose::Pane, &busy));
    assert!(close_hits_running(&t, PendingClose::CloseWindow, &busy));
}

#[test]
fn closing_another_tab_keeps_the_chosen_one() {
    let mut t = tree();
    restore_active(&mut t, Some(TabId(11)));
    assert_eq!(t.active, 1);
    t.active = 7;
    restore_active(&mut t, Some(TabId(99)));
    assert_eq!(t.active, 1);
}

#[test]
fn fresh_ids_do_not_repeat() {
    let mut ids = NextIds::new();
    let (tab, pane, session) = ids.take_tab();
    let (pane2, session2) = ids.for_split();
    assert!(pane != pane2 && session != session2);
    assert_eq!(finish_split(&mut ids, false, false), SplitStep::Refused);
    assert_eq!(ids.for_split(), (pane2, session2.copy()));
    assert_eq!(finish_split(&mut ids, true, true), SplitStep::Done);
    assert!(ids.for_split().0 != pane2);
    assert!(matches!(finish_split(&mut ids, true, false), SplitStep::RollBack(_)));
    let t = single_pane_tree(tab, pane, session);
    assert_eq!(t.tabs.len(), 1);
    assert_eq!(t.tabs[0].focus, pane);
    assert!(session_named(1) != session_named(11));
}

#[test]
fn reports_add_up() {
    let events = [
        (sid(1), BackendEvent::Title("a".to_string())),
        (sid(2), BackendEvent::Title("b".to_string())),
        (sid(1), BackendEvent::Title("c".to_string())),
        (sid(2), BackendEvent::Exited),
        (sid(1), BackendEvent::Bell),
        (sid(1), BackendEvent::ClipboardSet("x".to_string())),
        (sid(1), BackendEvent::CurrentDir("/d".to_string())),
        (sid(1), BackendEvent::Other),
    ];
    let d = drain(&events, Some(&sid(1)));
    assert_eq!(d.new_title.as_deref(), Some("c"));
    assert_eq!(d.exited, vec![sid(2)]);
    assert_eq!(d.belled, vec![sid(1)]);
    assert_eq!(d.clipboard.as_deref(), Some("x"));
    assert_eq!(d.dirs, vec![(sid(1), "/d".to_string())]);
    assert_eq!(d.titles.len(), 3);
    let mut titles = SessionTexts::new();
    titles.insert_all(d.titles);
    assert_eq!(titles.get(&sid(1)).map(|s| s.as_str()), Some("c"));
    titles.insert(sid(3), "gone".to_string());
    titles.retain_live(&[sid(1)]);
    assert_eq!(titles.get(&sid(3)), None);
    assert!(is_live(&[sid(1)], &sid(1)) && !is_live(&[sid(1)], &sid(2)));
}

#[test]
fn emptied_windows_are_closed() {
    assert_eq!(window_of(&[(sid(1), B)], &sid(1), A), B);
    assert_eq!(window_of(&[(sid(1), B)], &sid(2), A), A);
    let mut deferred = vec![];
    queue_emptied(&mut deferred, &[A, B, B], A);
    assert_eq!(deferred, vec![DeferredWindowAction::CloseWindow(B)]);
}

#[test]
fn programs_hear_of_focus_changes() {
    let mut titles = SessionTexts::new();
    titles.insert(sid(2), "build".to_string());
    let mut notified = Some(sid(1));
    let change = note_focus(&mut notified, Some(sid(2)), true, &titles).unwrap();
    assert_eq!((change.lost, change.gained), (Some(sid(1)), Some(sid(2))));
    assert_eq!(notified, Some(sid(2)));
    assert!(note_focus(&mut notified, Some(sid(2)), true, &titles).is_none());
}

#[test]
fn the_state_names_every_tab() {
    let t = tree();
    assert_eq!(tab_titles(&t), vec!["one".to_string(), "2".to_string()]);
    assert_eq!(
        Value::Array(tabs_summary_json(&t)),
        value(
            r#"[{"index":1,"active":true,"title":"one","sessions":["s1"]},
                {"index":2,"active":false,"title":"2","sessions":["s2","s3"]}]"#
        )
    );
    let facts = WindowFacts {
        scale_factor: Value::from(2.0),
        surface: (1800, 1120),
        bracketed: true,
        shots: vec![Some(PaneShot {
            cols: 80,
            rows: 24,
            cursor_row: 3,
            cursor_col: 4,
            cursor_visible: true,
            styles_known: Value::from(7),
            text: "hi\n".to_string(),
        })],
    };
    let v = value(&state_json(&t, &facts));
    assert_eq!(v["surface"], value("[1800,1120]"));
    assert_eq!(v["scale_factor"], 2.0);
    assert_eq!(v["active_tab"], 0);
    assert_eq!(v["focus_pane"], 1);
    assert_eq!(v["bracketed_paste"], true);
    assert_eq!(
        v["panes"][0],
        value(
            r#"{"session":"s1","pane":1,"focused":true,"dims":[80,24],
                "cursor":{"row":3,"col":4,"visible":true},"styles_known":7,"text":"hi\n"}"#
        )
    );
}

#[test]
fn panes_that_were_never_drawn_are_null() {
    let facts = WindowFacts {
        scale_factor: Value::from(1.0),
        surface: (1, 1),
        bracketed: false,
        shots: vec![None],
    };
    let v = value(&state_json(&tree(), &facts));
    assert_eq!(
        v["panes"],
        value(
            r#"[{"session":"s1","pane":1,"focused":true,"dims":null,"cursor":null,
                 "styles_known":null,"text":null}]"#
        )
    );
}

#[test]
fn the_state_lists_every_window() {
    let listed = |place| Some(ListedWindow { tree: tree(), place });
    let place = Place { x: -5, y: 6, width: 70, height: 80 };
    let v = value(&build_state_json(
        &[A, B, WindowId(3)],
        &[listed(None), listed(Some(place)), None],
        Some(B),
        Some("{\"active_tab\":0}".to_string()),
    ));
    assert_eq!(v["active_tab"], 0);
    assert_eq!(v["focused_window"], 2);
    let windows = v["windows"].as_array().unwrap();
    assert_eq!(windows.len(), 2);
    assert_eq!(windows[1]["pos"], value("[-5,6]"));
    assert_eq!(windows[1]["size"], value("[70,80]"));
    assert_eq!(windows[1]["focused"], true);
    assert!(windows[0].get("pos").is_none());
}

#[test]
fn focus_queries_answer_with_what_they_found() {
    let titles = vec![vec!["build".to_string()], vec!["Agent".to_string(), "x".to_string()]];
    let f = focus_across_windows(&titles, "agent");
    assert_eq!(f.place, Some((1, 0)));
    let v = value(&f.reply);
    assert_eq!((&v["ok"], &v["title"]), (&Value::from(true), &Value::from("Agent")));
    let f = focus_across_windows(&titles, "none such");
    assert_eq!(f.place, None);
    assert_eq!(value(&f.reply)["ok"], false);
    assert_eq!(value(&screenshot_reply("/a \"b\".png", None))["path"], "/a \"b\".png");
    assert_eq!(value(&screenshot_reply("/a", Some("no")))["ok"], false);
}
