use ember_term::archive::{archive_with_stamp, list_archives, prune_archives};
use ember_term::calendar::{date_of, format_timestamp, humanize_age, humanize_stamp};
use ember_term::control::{
    client, dispatch, ClientAction, ControlMsg, Coord, Dispatch, MoveTabTarget, PromotePaneTarget,
    Question, ScrollAmount, unescape,
};
use ember_term::drag::{
    clear_drag_on_window_close, hover_at, update_cross_window_drag, DragState, DropHover, DropZone,
    Exclusion, ExclusionStep, Spot, StripSlot, Under,
};
use ember_term::keyboard::{route_key, KeyAction, KeyScene};
use ember_term::keys::{encode_key, linux_chord_translate, Key, Mods, NamedKey};
use ember_term::layout::{LayoutNode, PaneId, SessionId, Tab, TabId, WindowId, WindowTree};
use ember_term::mcp::{tools, tools_call, Plan};
use ember_term::overlay::{palette_rows, Overlays, PendingClose};
use ember_term::snapshot::{
    strip_commands, NodeSnap, PaneSnap, ReadOutcome, SessionSnapshot, StripPlan, TabSnap,
    WindowSnap,
};
use ember_term::tabs::{strip_labels, Rename};
use ember_term::titles::RowKind;
use ember_term::windows::{
    build_move_tab, next_prev_index, plan_move, window_frames, MoveEffect, MoveStep, SurfaceDest,
    SurfaceRef,
};
use ember_term::writer::{SnapshotWriter, WriterEvent};

const A: WindowId = WindowId(1);
const B: WindowId = WindowId(2);
const C: WindowId = WindowId(3);
const NONE: Mods = Mods { shift: false, alt: false, ctrl: false, sup: false };

fn args(s: &str) -> Vec<String> {
    s.split_whitespace().map(str::to_string).collect()
}

/// What arrives of a command that a client sends.
fn arrives(line: &str) -> Dispatch {
    let ClientAction::Request(v) = client(&args(line)).unwrap().action else {
        panic!("expected a request")
    };
    dispatch(&v.to_string(), "/tmp/shot.png")
}

fn at(x: f64) -> Coord {
    Coord { bits: x.to_bits() }
}

#[test]
fn text_arrives_with_its_escapes_resolved() {
    assert_eq!(arrives("ctl type ls\\n"), Dispatch::Send(ControlMsg::Type("ls\n".to_string())));
    assert_eq!(
        arrives("ctl paste a\\tb\"c"),
        Dispatch::Send(ControlMsg::Paste("a\tb\"c".to_string()))
    );
    assert_eq!(
        arrives("ctl key Escape"),
        Dispatch::Send(ControlMsg::Key("Escape".to_string()))
    );
    assert_eq!(
        arrives("ctl chord cmd+d"),
        Dispatch::Send(ControlMsg::Chord("cmd+d".to_string()))
    );
}

#[test]
fn bare_commands_arrive() {
    for (line, msg) in [
        ("ctl raise", ControlMsg::Raise),
        ("ctl about", ControlMsg::About),
        ("ctl settings", ControlMsg::Settings),
        ("ctl copy", ControlMsg::Copy),
        ("ctl fps", ControlMsg::Fps),
        ("ctl new-window", ControlMsg::NewWindow),
    ] {
        assert_eq!(arrives(line), Dispatch::Send(msg));
    }
    assert_eq!(arrives("ctl state"), Dispatch::Ask(ControlMsg::State, Question::State));
    assert_eq!(arrives("ctl merge-tab"), Dispatch::Ask(ControlMsg::MergeTab, Question::MergeTab));
}

#[test]
fn targets_arrive_or_are_refused() {
    assert_eq!(
        arrives("ctl move-tab prev"),
        Dispatch::Ask(ControlMsg::MoveTab(MoveTabTarget::Prev), Question::MoveTab)
    );
    assert!(matches!(arrives("ctl move-tab nowhere"), Dispatch::Reply(_)));
    assert_eq!(
        arrives("ctl promote-pane tab"),
        Dispatch::Ask(ControlMsg::PromotePane(PromotePaneTarget::Tab), Question::PromotePane)
    );
    assert_eq!(
        arrives("ctl scroll bottom"),
        Dispatch::Send(ControlMsg::Scroll(ScrollAmount::Bottom))
    );
}

#[test]
fn tabs_selections_and_points_arrive() {
    assert_eq!(arrives("ctl reorder-tab 2 x"), Dispatch::Send(ControlMsg::ReorderTab(2, 0)));
    assert_eq!(
        arrives("ctl rename-tab 1 my tab"),
        Dispatch::Send(ControlMsg::RenameTab(1, "my tab".to_string()))
    );
    assert_eq!(arrives("ctl edit-tab 3"), Dispatch::Send(ControlMsg::EditTab(3)));
    assert_eq!(arrives("ctl bell 2"), Dispatch::Send(ControlMsg::Bell(Some(2))));
    assert_eq!(
        arrives("ctl select 1 2 3 4 word"),
        Dispatch::Send(ControlMsg::Select(1, 2, 3, 4, "word".to_string()))
    );
    assert_eq!(
        arrives("ctl click 10 2.5"),
        Dispatch::Send(ControlMsg::Click(at(10.0), at(2.5)))
    );
    assert_eq!(
        arrives("ctl drag 1 2 3 4 --mods cmd --cancel"),
        Dispatch::Ask(
            ControlMsg::Drag {
                x1: at(1.0),
                y1: at(2.0),
                x2: at(3.0),
                y2: at(4.0),
                steps: 8,
                mods: "cmd".to_string(),
                cancel: true,
            },
            Question::Drag
        )
    );
}

#[test]
fn offered_tools_can_be_called() {
    for tool in tools().as_array().unwrap() {
        let mut call = String::from("{\"name\":\"");
        call.push_str(tool["name"].as_str().unwrap());
        call.push_str(
            "\",\"arguments\":{\"query\":\"q\",\"text\":\"t\",\"name\":\"n\",\"keys\":\"k\",\"to\":\"tab\"}}",
        );
        let plan = tools_call(Some(&serde_json::from_str(&call).unwrap()));
        assert!(!matches!(plan, Plan::Fail(_)));
        if let Plan::Send { request, .. } = plan {
            let sent = dispatch(&request.to_string(), "");
            let refused = request["cmd"] == "move-tab";
            assert_eq!(matches!(sent, Dispatch::Reply(_)), refused);
        }
    }
}

#[test]
fn what_a_tool_types_arrives() {
    let call = serde_json::from_str(
        r#"{"name":"ember_type","arguments":{"text":"say \"hi\"\\n\n"}}"#,
    )
    .unwrap();
    let Plan::Send { request, .. } = tools_call(Some(&call)) else { panic!("expected a request") };
    assert_eq!(
        dispatch(&request.to_string(), ""),
        Dispatch::Send(ControlMsg::Type("say \"hi\"\\n\n".to_string()))
    );
}

#[test]
fn archives_sort_by_stamp_and_number() {
    let first = archive_with_stamp(true, &[], "20260801-000000").unwrap();
    let second = archive_with_stamp(true, &[first.clone()], "20260801-000000").unwrap();
    let later = archive_with_stamp(true, &[], "20260802-000000").unwrap();
    assert!(first < second && second < later);
    let snap =
        || Some(SessionSnapshot { version: 1, saved_at: String::new(), windows: Vec::new() });
    let listed = list_archives(&[
        (second.clone(), snap()),
        (later.clone(), snap()),
        (first.clone(), snap()),
    ]);
    let paths: Vec<&String> = listed.iter().map(|e| &e.path).collect();
    assert_eq!(paths, vec![&later, &second, &first]);
}

#[test]
fn pruning_removes_the_oldest() {
    let mut names: Vec<String> =
        (0..13).map(|i| format!("session.json.prev-20260801-0000{i:02}")).collect();
    names.push("unrelated.txt".to_string());
    let mut gone = prune_archives(&names);
    gone.sort();
    assert_eq!(gone, names[..3].to_vec());
}

#[test]
fn days_count_up_through_the_calendar() {
    let mut last = (0, 0, 0);
    for day in 0..1500 {
        let d = date_of(day);
        assert!((d.year, d.month, d.day) > last);
        last = (d.year, d.month, d.day);
    }
    assert_eq!(last, (1974, 2, 8));
}

#[test]
fn a_snapshot_and_its_archive_have_one_age() {
    let (saved, now) = (1_700_000_000i64, 1_700_090_000i64);
    assert_eq!(
        humanize_age(&saved.to_string(), now),
        humanize_stamp(&format_timestamp(saved), now)
    );
    assert_eq!(humanize_age(&saved.to_string(), now), "1d ago");
}

#[test]
fn stripping_twice_is_stripping_once() {
    let pane = |cmd: Option<&str>| {
        NodeSnap::Pane(PaneSnap {
            cwd: None,
            last_cmd: cmd.map(str::to_string),
            was_running: false,
        })
    };
    let snap = |cmd: Option<&str>| SessionSnapshot {
        version: 1,
        saved_at: "t".to_string(),
        windows: vec![WindowSnap {
            pos: None,
            size: (1, 1),
            focused_tab: 0,
            tabs: vec![TabSnap { name: String::new(), named_by_user: false, splits: pane(cmd) }],
        }],
    };
    let once = strip_commands(ReadOutcome::Parsed(snap(Some("ls"))));
    assert_eq!(once, StripPlan::Rewrite(snap(None)));
    assert_eq!(strip_commands(ReadOutcome::Parsed(snap(None))), once);
}

#[test]
fn control_letters_reach_the_shell() {
    let ctrl = Mods { ctrl: true, ..NONE };
    for (i, c) in ('a'..='z').enumerate() {
        let lower = Key::Character(c.to_string());
        let upper = Key::Character(c.to_ascii_uppercase().to_string());
        let byte = vec![i as u8 + 1];
        assert_eq!(encode_key(&lower, ctrl, false, false), Some(byte.clone()));
        assert_eq!(encode_key(&upper, ctrl, false, false), Some(byte));
        assert_eq!(linux_chord_translate(&lower, ctrl), None);
    }
    assert_eq!(
        encode_key(&Key::Character("é".to_string()), NONE, true, false),
        Some("é".as_bytes().to_vec())
    );
}

#[test]
fn going_on_and_going_back_undo_each_other() {
    for n in 1..5 {
        for w in 0..n {
            assert_eq!(next_prev_index(next_prev_index(w, n, true), n, false), w);
        }
    }
    let (_, dest) = build_move_tab(&[A, B], A, 0, MoveTabTarget::Next).unwrap();
    assert_eq!(dest, SurfaceDest::NewTab { window: 1 });
}

#[test]
fn every_window_has_one_place() {
    let frames = window_frames(&[C, A, WindowId(9)], &[A, B, C]);
    assert_eq!(frames, vec![C, A, B]);
}

#[test]
fn surviving_windows_keep_their_order() {
    let effects = vec![
        MoveEffect::WindowClosed { index: 1 },
        MoveEffect::WindowOpened { index: 2 },
        MoveEffect::SessionsRehomed { sessions: vec![SessionId::new("s1")], to_window: 2 },
    ];
    let mut plan = plan_move(&[A, B, C], 3, effects, 2, SurfaceRef::Tab { window: 1, tab: 0 });
    assert_eq!(plan.slots, vec![Some(A), Some(C), None]);
    assert!(matches!(plan.steps[2], MoveStep::CloseShell { window: Some(B) }));
    plan.opened(2, WindowId(7));
    assert_eq!(plan.home(2), Some(WindowId(7)));
    plan.touch(A);
    plan.touch(A);
    assert_eq!(plan.touched, vec![B, WindowId(7), A]);
}

fn tree() -> WindowTree {
    let tab = |id: u64| Tab {
        id: TabId(id),
        title: format!("t{id}"),
        focus: PaneId(id),
        root: LayoutNode::pane(PaneId(id), SessionId::new(&format!("s{id}"))),
    };
    WindowTree { active: 0, tabs: vec![tab(1), tab(2), tab(3)] }
}

#[test]
fn chips_name_their_tabs() {
    let t = tree();
    let mut ex = Exclusion::new();
    ex.begin_carried_exclusion(SurfaceRef::Tab { window: 0, tab: 1 }, &t);
    assert_eq!(ex.apply_carried_exclusion(false, false), ExclusionStep::Relayout);
    let labels = strip_labels(&t, ex.hidden_tab(), &Rename::new(), &[]);
    for (chip, label) in labels.iter().enumerate() {
        let Some(DropHover::Strip { chip: Some(tab), .. }) =
            hover_at(A, &t, &ex, &Spot::Strip(Some(StripSlot::Tab(chip))))
        else {
            panic!("expected a chip")
        };
        assert_eq!(t.tabs[tab].title, label.title);
    }
    assert_eq!(labels.len(), 2);
}

#[test]
fn a_window_is_not_hidden_under_the_pointer() {
    let sole = WindowTree { active: 0, tabs: tree().tabs.into_iter().take(1).collect() };
    let mut ex = Exclusion::new();
    ex.begin_carried_exclusion(SurfaceRef::Tab { window: 0, tab: 0 }, &sole);
    assert_eq!(ex.apply_carried_exclusion(false, false), ExclusionStep::Nothing);
    assert_eq!(ex.apply_carried_exclusion(false, true), ExclusionStep::HideWindow);
}

fn drag(hover: Option<DropHover>) -> Option<DragState> {
    Some(DragState {
        surface: SurfaceRef::Tab { window: 0, tab: 0 },
        source_window: A,
        carried: false,
        hover,
        last_raised: None,
        title: "t".to_string(),
    })
}

#[test]
fn the_source_is_no_target_and_carrying_lasts() {
    let mut d = drag(None);
    let step = update_cross_window_drag(
        &mut d,
        A,
        true,
        Under::Window { id: A, hover: Some(Some(DropHover::Desktop)) },
    )
    .unwrap();
    assert_eq!((step.raise, step.preview), (None, None));
    assert!(step.carried);
    let step = update_cross_window_drag(&mut d, A, false, Under::Desktop).unwrap();
    assert!(step.carried && !step.just_carried);
}

#[test]
fn no_drag_hovers_a_closed_window() {
    let over = DropHover::Pane { window: B, tab: 0, pane: PaneId(1), zone: DropZone::Center };
    let mut d = drag(Some(over));
    clear_drag_on_window_close(&mut d, B);
    assert!(d.is_none() || d.unwrap().hover.is_none());
}

#[test]
fn fuzzy_matches_pick_letters_from_the_left() {
    let found = palette_rows("SPLT", true);
    assert!(found.iter().any(|(what, _)| what.starts_with("Split right")));
    assert!(palette_rows("thgir tilps", true).is_empty());
}

#[test]
fn keys_have_one_place_to_go() {
    let scene =
        KeyScene { repeat: false, dragging: false, renaming: false, option_as_meta: false, linux: false };
    let mut ov = Overlays::new();
    ov.show_help();
    ov.show_settings(&[RowKind::Setting]);
    assert!(!ov.help);
    assert_eq!(
        route_key(&ov, &Key::Named(NamedKey::Space), NONE, &scene).action,
        KeyAction::ToSettings
    );
    ov.open_search();
    ov.open_palette();
    assert!(ov.palette_open && !ov.search_open);
    ov.show_close_confirm(PendingClose::Pane);
    let cmd = Mods { sup: true, ..NONE };
    for key in ["a", "w", "q", "n", "5"] {
        let action = route_key(&ov, &Key::Character(key.to_string()), cmd, &scene).action;
        assert!(!matches!(action, KeyAction::ToShell { .. }));
    }
}

#[test]
fn the_last_snapshot_reaches_the_file_across_timeouts() {
    let snap = |m: &str| SessionSnapshot {
        version: 1,
        saved_at: m.to_string(),
        windows: Vec::new(),
    };
    let mut w = SnapshotWriter::new();
    let mut file = None;
    let events = [
        WriterEvent::Snapshot(snap("a")),
        WriterEvent::Timeout,
        WriterEvent::Snapshot(snap("b")),
        WriterEvent::Snapshot(snap("c")),
        WriterEvent::Timeout,
        WriterEvent::Timeout,
        WriterEvent::Snapshot(snap("d")),
        WriterEvent::Disconnected,
    ];
    let mut held = Vec::new();
    for (now, event) in events.into_iter().enumerate() {
        let step = w.on_event(event, now as u64);
        if let Some(s) = step.write {
            file = Some(s.saved_at);
        }
        held.push(file.clone().unwrap_or_default());
    }
    assert_eq!(held, ["", "a", "a", "a", "c", "c", "c", "d"]);
}

#[test]
fn unescaping_gives_an_escaped_text_back() {
    assert_eq!(unescape("a\\n\\t\\r\\\\n\\\\"), "a\n\t\r\\n\\");
}
