use ember_term::archive::{
    archive, archive_with_stamp, list_archives, prune_archives, saved_state_count, state_footprint,
    StateListing,
};
use ember_term::calendar::{
    date_of, format_timestamp, humanize_age, humanize_duration, humanize_stamp, is_leap_year,
    parse_timestamp,
};
use ember_term::layout::{Axis, LayoutNode, PaneId, SessionId, Tab, TabId, WindowTree};
use ember_term::snapshot::{
    assemble, cap_cmd, clear_captured_commands, is_other_version, load, load_archive, pane_snap_for, read_outcome,
    split_ops,
    strip_commands, LoadOutcome, NodeSnap, PaneMeta, PaneSnap, ReadOutcome, SessionSnapshot,
    StripPlan, TabSnap, WindowSnap,
};
use ember_term::writer::{SnapshotWriter, WriterEvent, MAX_DEFER, QUIET};

const MS: u64 = 1_000_000;

fn snap(marker: &str) -> SessionSnapshot {
    SessionSnapshot { version: 1, saved_at: marker.into(), windows: vec![] }
}

fn pane(cwd: &str) -> PaneSnap {
    PaneSnap { cwd: Some(cwd.to_string()), last_cmd: None, was_running: false }
}

fn split(dir: char, ratio: f32, a: NodeSnap, b: NodeSnap) -> NodeSnap {
    NodeSnap::Split { dir, ratio_bits: ratio.to_bits(), a: Box::new(a), b: Box::new(b) }
}

#[test]
fn split_ops_recreates_a_nested_tree() {
    let tree = split(
        'h',
        0.6,
        split('v', 0.5, NodeSnap::Pane(pane("p0")), NodeSnap::Pane(pane("p1"))),
        NodeSnap::Pane(pane("p2")),
    );
    let (first, ops) = split_ops(&tree);
    assert_eq!(first.cwd.as_deref(), Some("p0"));
    assert_eq!(ops.len(), 2);
    assert_eq!(ops.iter().filter(|o| o.1 == 'h').count(), 1);
    assert_eq!(ops.iter().filter(|o| o.1 == 'v').count(), 1);
}

#[test]
fn split_ops_carry_the_ratios() {
    let tree = split('h', 0.6, NodeSnap::Pane(pane("p0")), NodeSnap::Pane(pane("p1")));
    let (_, ops) = split_ops(&tree);
    assert_eq!(ops, vec![(0, 'h', 0.6f32.to_bits(), pane("p1"))]);
}

#[test]
fn split_ops_on_a_bare_pane_is_the_seed_with_no_ops() {
    let (first, ops) = split_ops(&NodeSnap::Pane(pane("only")));
    assert_eq!(first.cwd.as_deref(), Some("only"));
    assert!(ops.is_empty());
}

#[test]
fn split_ops_replay_indices_resolve_for_a_three_level_tree() {
    let tree = split(
        'h',
        0.5,
        split(
            'v',
            0.5,
            split('h', 0.5, NodeSnap::Pane(pane("p0")), NodeSnap::Pane(pane("p1"))),
            NodeSnap::Pane(pane("p2")),
        ),
        NodeSnap::Pane(pane("p3")),
    );
    let (first, ops) = split_ops(&tree);
    assert_eq!(first.cwd.as_deref(), Some("p0"));
    assert_eq!(ops.len(), 3);
    let mut pane_by_index = vec![first.cwd.clone()];
    for (parent, _dir, _ratio, new_pane) in &ops {
        assert!(
            *parent < pane_by_index.len(),
            "op parent index {parent} not yet created"
        );
        pane_by_index.push(new_pane.cwd.clone());
    }
    let mut cwds: Vec<Option<String>> = pane_by_index;
    cwds.sort();
    let mut expected = vec![
        Some("p0".to_string()),
        Some("p1".to_string()),
        Some("p2".to_string()),
        Some("p3".to_string()),
    ];
    expected.sort();
    assert_eq!(cwds, expected);
}

#[test]
fn humanize_age_buckets() {
    let now: i64 = 3_000_000_000;
    let saved = |ago: i64| (now - ago).to_string();
    assert_eq!(humanize_age(&saved(5), now), "just now");
    assert_eq!(humanize_age(&saved(60 * 5), now), "5m ago");
    assert_eq!(humanize_age(&saved(3600 * 2), now), "2h ago");
    assert_eq!(humanize_age(&saved(86400 * 3), now), "3d ago");
    assert_eq!(humanize_age(&saved(86400 * 7 * 3), now), "3 weeks ago");
    assert_eq!(humanize_age(&saved(86400 * 30), now), "1 month ago");
    assert_eq!(humanize_age(&saved(86400 * 365 * 2), now), "2 years ago");
    assert_eq!(humanize_age("not-a-number", now), "just now");
}

#[test]
fn spans_change_words_at_their_bounds() {
    assert_eq!(humanize_duration(-7), "just now");
    assert_eq!(humanize_duration(59), "just now");
    assert_eq!(humanize_duration(60), "1m ago");
    assert_eq!(humanize_duration(3599), "59m ago");
    assert_eq!(humanize_duration(86399), "23h ago");
    assert_eq!(humanize_duration(86400 * 7), "1 week ago");
    assert_eq!(humanize_duration(86400 * 30 * 2), "2 months ago");
    assert_eq!(humanize_duration(86400 * 365), "1 year ago");
}

#[test]
fn parse_timestamp_round_trips_format_timestamp() {
    let t: u64 = 1_800_000_000;
    let stamp = format_timestamp(t as i64);
    let parsed = parse_timestamp(&stamp).unwrap();
    assert_eq!(parsed, t);
}

#[test]
fn timestamps_spell_the_utc_date() {
    assert_eq!(format_timestamp(0), "19700101-000000");
    assert_eq!(format_timestamp(951_782_399), "20000228-235959");
    assert_eq!(format_timestamp(951_782_400), "20000229-000000");
    assert_eq!(format_timestamp(-5), "");
    assert!(is_leap_year(2000) && !is_leap_year(1900) && is_leap_year(2024));
    let d = date_of(59);
    assert_eq!((d.year, d.month, d.day), (1970, 3, 1));
}

#[test]
fn later_instants_have_greater_stamps() {
    let stamps: Vec<String> =
        [0, 1, 59, 60, 86_399, 86_400, 951_782_399, 951_782_400, 1_800_000_000]
            .iter()
            .map(|t| format_timestamp(*t))
            .collect();
    for i in 1..stamps.len() {
        assert!(stamps[i - 1] < stamps[i]);
    }
}

#[test]
fn parse_timestamp_ignores_a_collision_suffix() {
    let t: u64 = 1_800_000_000;
    let stamp = format!("{}-2", format_timestamp(t as i64));
    let parsed = parse_timestamp(&stamp).unwrap();
    assert_eq!(parsed, t);
}

#[test]
fn parse_timestamp_rejects_garbage() {
    assert!(parse_timestamp("not-a-stamp").is_none());
    assert!(parse_timestamp("").is_none());
}

#[test]
fn humanize_stamp_matches_humanize_age_for_the_same_instant() {
    let now: i64 = 2_000_000_000;
    let saved = now - 3600 * 5;
    let stamp = format_timestamp(saved);
    assert_eq!(humanize_stamp(&stamp, now), "5h ago");
}

#[test]
fn load_archive_reads_a_valid_file_and_none_for_missing_or_bad() {
    let loaded = load_archive(ReadOutcome::Parsed(snap("archived"))).unwrap();
    assert_eq!(loaded.saved_at, "archived");
    assert!(load_archive(ReadOutcome::Missing).is_none());
    assert!(load_archive(ReadOutcome::Unparseable).is_none());
}

#[test]
fn writer_debounces_and_writes_last_value() {
    let mut w = SnapshotWriter::new();
    let mut now = 5 * MS;
    for i in 0..20 {
        let step = w.on_event(WriterEvent::Snapshot(snap(&format!("v{i}"))), now);
        assert!(step.write.is_none() && !step.stop);
        now += 10 * MS;
    }
    let last = now - 10 * MS;
    assert_eq!(w.timeout(last), Some(QUIET));
    let step = w.on_event(WriterEvent::Timeout, last + QUIET);
    assert_eq!(step.write.unwrap().saved_at, "v19");
    assert!(!step.stop);
    let step = w.on_event(WriterEvent::Timeout, last + 3600 * QUIET);
    assert!(step.write.is_none() && !step.stop);
}

#[test]
fn steady_changes_are_written_within_the_cap() {
    let mut w = SnapshotWriter::new();
    assert_eq!(w.timeout(0), None);
    w.on_event(WriterEvent::Snapshot(snap("a")), 0);
    assert_eq!(w.timeout(0), Some(QUIET));
    w.on_event(WriterEvent::Snapshot(snap("b")), 900 * MS);
    assert_eq!(w.timeout(900 * MS), Some(MAX_DEFER - 900 * MS));
}

#[test]
fn drop_flushes_pending() {
    let mut w = SnapshotWriter::new();
    w.on_event(WriterEvent::Snapshot(snap("final")), 0);
    let step = w.on_event(WriterEvent::Disconnected, 0);
    assert_eq!(step.write.unwrap().saved_at, "final");
    assert!(step.stop);
}

#[test]
fn assemble_maps_tree_and_meta() {
    let tree = WindowTree {
        active: 0,
        tabs: vec![Tab {
            id: TabId(1),
            title: "EA".into(),
            focus: PaneId(1),
            root: LayoutNode::split(
                Axis::Horizontal,
                0.5f32.to_bits(),
                LayoutNode::pane(PaneId(1), SessionId::new("s1")),
                LayoutNode::pane(PaneId(2), SessionId::new("s2")),
            ),
        }],
    };
    let snap = assemble(
        &[(Some((10, 20)), (800, 600), &tree, &[true])],
        &|sid: &SessionId| PaneSnap {
            cwd: Some(format!("/d/{}", sid.0)),
            last_cmd: if sid.0 == "s1" { Some("gt crew at skippy".into()) } else { None },
            was_running: sid.0 == "s1",
        },
        1_800_000_000,
    );
    assert_eq!(snap.version, 1);
    assert_eq!(snap.saved_at, "1800000000");
    assert_eq!(snap.windows.len(), 1);
    assert_eq!(snap.windows[0].pos, Some((10, 20)));
    assert_eq!(snap.windows[0].size, (800, 600));
    let tab = &snap.windows[0].tabs[0];
    assert!(tab.named_by_user);
    let NodeSnap::Split { dir, ratio_bits, a, .. } = &tab.splits else {
        panic!("expected split")
    };
    assert_eq!(*dir, 'h');
    assert_eq!(*ratio_bits, 0.5f32.to_bits());
    let NodeSnap::Pane(p) = a.as_ref() else { panic!("expected pane") };
    assert_eq!(p.last_cmd.as_deref(), Some("gt crew at skippy"));
}

#[test]
fn assemble_caps_last_cmd_at_1024_on_a_char_boundary() {
    let long: String = "€".repeat(400);
    let tree = WindowTree {
        active: 0,
        tabs: vec![Tab {
            id: TabId(1),
            title: String::new(),
            focus: PaneId(1),
            root: LayoutNode::pane(PaneId(1), SessionId::new("s1")),
        }],
    };
    let snap = assemble(
        &[(None, (100, 100), &tree, &[false])],
        &|_sid: &SessionId| PaneSnap {
            cwd: None,
            last_cmd: Some(long.clone()),
            was_running: false,
        },
        0,
    );
    let NodeSnap::Pane(p) = &snap.windows[0].tabs[0].splits else { panic!("expected pane") };
    let capped = p.last_cmd.as_deref().unwrap();
    assert!(capped.len() <= 1024);
    assert!(long.starts_with(capped));
    assert!(long.is_char_boundary(capped.len()));
    assert_eq!(capped.len(), 1023);
    assert_eq!(cap_cmd("ls".to_string()), "ls");
}

fn snap_with_commands() -> SessionSnapshot {
    SessionSnapshot {
        version: 1,
        saved_at: "t1".into(),
        windows: vec![WindowSnap {
            pos: Some((1, 2)),
            size: (80, 24),
            focused_tab: 0,
            tabs: vec![TabSnap {
                name: "tab".into(),
                named_by_user: true,
                splits: split(
                    'h',
                    0.5,
                    NodeSnap::Pane(PaneSnap {
                        cwd: Some("/a".into()),
                        last_cmd: Some("echo left".into()),
                        was_running: true,
                    }),
                    NodeSnap::Pane(PaneSnap {
                        cwd: Some("/b".into()),
                        last_cmd: Some("echo right".into()),
                        was_running: false,
                    }),
                ),
            }],
        }],
    }
}

#[test]
fn strip_commands_clears_last_cmd_but_keeps_everything_else() {
    let StripPlan::Rewrite(loaded) = strip_commands(ReadOutcome::Parsed(snap_with_commands()))
    else {
        panic!("expected a rewrite")
    };
    let NodeSnap::Split { a, b, dir, ratio_bits } = &loaded.windows[0].tabs[0].splits else {
        panic!("expected split")
    };
    let NodeSnap::Pane(pa) = a.as_ref() else { panic!("expected pane") };
    let NodeSnap::Pane(pb) = b.as_ref() else { panic!("expected pane") };
    assert_eq!(pa.last_cmd, None);
    assert_eq!(pb.last_cmd, None);
    assert_eq!(*dir, 'h');
    assert_eq!(f32::from_bits(*ratio_bits), 0.5);
    assert_eq!(pa.cwd.as_deref(), Some("/a"));
    assert!(pa.was_running);
    assert_eq!(pb.cwd.as_deref(), Some("/b"));
    assert!(!pb.was_running);
    assert!(loaded.windows[0].tabs[0].named_by_user);
}

#[test]
fn subsequent_assemble_carries_no_commands_once_capture_is_off() {
    assert!(matches!(
        strip_commands(ReadOutcome::Parsed(snap_with_commands())),
        StripPlan::Rewrite(_)
    ));
    let sid = SessionId::new("s1");
    let tree = WindowTree {
        active: 0,
        tabs: vec![Tab {
            id: TabId(1),
            title: String::new(),
            focus: PaneId(1),
            root: LayoutNode::pane(PaneId(1), sid.copy()),
        }],
    };
    let mut pane_meta = vec![(
        sid.copy(),
        PaneMeta {
            cwd: Some("/a".to_string()),
            last_cmd: Some("echo left".to_string()),
            was_running: true,
        },
    )];
    clear_captured_commands(&mut pane_meta);
    let capture_commands = false;
    let snap = assemble(
        &[(None, (80, 24), &tree, &[false])],
        &|s: &SessionId| {
            pane_snap_for(
                pane_meta.iter().find(|(k, _)| k == s).map(|(_, m)| m),
                capture_commands,
            )
        },
        0,
    );
    let NodeSnap::Pane(p) = &snap.windows[0].tabs[0].splits else { panic!("expected pane") };
    assert_eq!(p.last_cmd, None);
    assert_eq!(p.cwd.as_deref(), Some("/a"));
    assert!(p.was_running);
}

#[test]
fn pane_metadata_gates_the_command() {
    let meta = PaneMeta {
        cwd: Some("/a".to_string()),
        last_cmd: Some("ls".to_string()),
        was_running: true,
    };
    assert_eq!(pane_snap_for(Some(&meta), true).last_cmd.as_deref(), Some("ls"));
    assert_eq!(pane_snap_for(Some(&meta), false).last_cmd, None);
    let none = pane_snap_for(None, true);
    assert_eq!((none.cwd, none.last_cmd, none.was_running), (None, None, false));
}

#[test]
fn strip_commands_is_a_noop_when_file_is_missing() {
    assert!(matches!(strip_commands(ReadOutcome::Missing), StripPlan::Nothing));
}

#[test]
fn strip_commands_leaves_a_corrupt_file_alone() {
    assert!(matches!(strip_commands(ReadOutcome::Unparseable), StripPlan::Nothing));
}

#[test]
fn strip_commands_reports_an_unreadable_file() {
    assert!(matches!(strip_commands(ReadOutcome::Unreadable), StripPlan::Fail));
}

#[test]
fn saved_state_count_and_delete_cover_the_live_file_corrupt_sibling_and_archives() {
    let listing = StateListing {
        live: true,
        corrupt: true,
        names: vec![
            "session.json".to_string(),
            "session.json.corrupt".to_string(),
            "session.json.prev-20260101-000000".to_string(),
            "unrelated.txt".to_string(),
            "session.json.prev-20260102-000000".to_string(),
        ],
    };
    assert_eq!(saved_state_count(Some(&listing)), 4);
    let removed = state_footprint(&listing);
    assert_eq!(removed.len(), 4);
    assert!(removed.contains(&"session.json".to_string()));
    assert!(removed.contains(&"session.json.corrupt".to_string()));
    assert!(removed.contains(&"session.json.prev-20260101-000000".to_string()));
    assert!(!removed.contains(&"unrelated.txt".to_string()));
}

#[test]
fn saved_state_count_is_zero_when_nothing_saved() {
    let empty = StateListing { live: false, corrupt: false, names: vec![] };
    assert_eq!(saved_state_count(Some(&empty)), 0);
    assert_eq!(state_footprint(&empty).len(), 0);
    assert_eq!(saved_state_count(None), 0);
}

#[test]
fn load_missing_is_none_and_corrupt_is_quarantined() {
    let missing = load(ReadOutcome::Missing);
    assert!(matches!(missing, LoadOutcome::Absent));
    assert!(!missing.quarantines());
    let corrupt = load(ReadOutcome::Unparseable);
    assert!(matches!(corrupt, LoadOutcome::Corrupt));
    assert!(corrupt.quarantines());
    let LoadOutcome::Loaded(s) = load(ReadOutcome::Parsed(snap("x"))) else {
        panic!("expected a session")
    };
    assert_eq!(s.saved_at, "x");
}

#[test]
fn unknown_version_is_treated_as_none() {
    let future = SessionSnapshot { version: 99, ..snap("x") };
    let out = load(ReadOutcome::Parsed(future));
    assert!(matches!(out, LoadOutcome::Absent));
    assert!(!out.quarantines());
}

#[test]
fn archive_prunes_to_ten() {
    let mut names: Vec<String> = Vec::new();
    for i in 0..12 {
        let stamp = format!("20260801-0000{:02}", i);
        let name = archive_with_stamp(true, &names, &stamp).unwrap();
        names.push(name);
        let gone = prune_archives(&names);
        names.retain(|n| !gone.contains(n));
    }
    let files: Vec<(String, Option<SessionSnapshot>)> =
        names.iter().map(|n| (n.clone(), Some(snap("s")))).collect();
    let list = list_archives(&files);
    assert_eq!(list.len(), 10, "Expected 10 archives, got {}", list.len());
    assert!(
        list[0].stamp > list[9].stamp,
        "Archives not sorted newest first"
    );
    assert_eq!(list[0].stamp, "20260801-000011");
    assert_eq!(list[9].stamp, "20260801-000002");
}

#[test]
fn archive_collision_avoidance_with_numeric_suffix() {
    let stamp = "20260801-123456";
    let first = archive_with_stamp(true, &[], stamp).unwrap();
    let second = archive_with_stamp(true, &[first.clone()], stamp).unwrap();
    let list = list_archives(&[(first, Some(snap("first"))), (second, Some(snap("second")))]);
    assert_eq!(
        list.len(),
        2,
        "Expected 2 archives after collision avoidance, got {}",
        list.len()
    );
    assert!(list[0].stamp > list[1].stamp);
    let stamps: Vec<&String> = list.iter().map(|e| &e.stamp).collect();
    assert!(
        stamps.contains(&&stamp.to_string())
            || stamps.iter().any(|s| s.as_str() == &format!("{}-2", stamp)),
        "Expected base or -2 suffix stamp"
    );
    assert_eq!(list[0].stamp, "20260801-123456-2");
    assert_eq!(list[0].path, "session.json.prev-20260801-123456-2");
}

#[test]
fn nothing_is_archived_where_nothing_was_saved() {
    assert_eq!(archive_with_stamp(false, &[], "20260801-123456"), None);
    assert_eq!(
        archive(true, &[], 0),
        Some("session.json.prev-19700101-000000".to_string())
    );
}

#[test]
fn list_archives_skips_unparseable_prev_files() {
    let name = archive_with_stamp(true, &[], "20260801-100000").unwrap();
    let list = list_archives(&[
        (name, Some(snap_with_commands())),
        ("session.json.prev-20260801-110000".to_string(), None),
        ("session.json".to_string(), Some(snap("live"))),
    ]);
    assert_eq!(list.len(), 1);
    assert_eq!(list[0].stamp, "20260801-100000");
    assert_eq!((list[0].windows, list[0].tabs), (1, 1));
}

#[test]
fn a_stamp_is_digits_and_a_dash() {
    assert_eq!(parse_timestamp("20260801-000000"), Some(1_785_542_400));
    assert_eq!(parse_timestamp("2026+8+1-000000"), None);
    assert_eq!(parse_timestamp("+0260801-000000"), None);
    assert_eq!(parse_timestamp("20260801-+00+00"), None);
    assert_eq!(parse_timestamp("20260801+000000"), None);
    assert_eq!(parse_timestamp("2026080\u{661}-000000"), None);
    assert_eq!(parse_timestamp("\u{e9}\u{e9}\u{e9}\u{e9}\u{e9}\u{e9}\u{e9}\u{e9}-000000"), None);
    assert_eq!(parse_timestamp("20261301-000000"), None);
    assert_eq!(parse_timestamp("20260832-000000"), None);
    assert_eq!(parse_timestamp("20260801-240000"), None);
    assert_eq!(parse_timestamp("20260801-006000"), None);
    assert_eq!(parse_timestamp("20260801-00000"), None);
    assert_eq!(parse_timestamp("20260801-000000-\u{e9}"), Some(1_785_542_400));
}

fn numbered(stamp: &str, numbers: &[&str]) -> Vec<String> {
    numbers.iter().map(|n| format!("session.json.prev-{stamp}{n}")).collect()
}

#[test]
fn the_next_number_sorts_after_all_that_are_there() {
    let stamp = "20260801-123456";
    let next = |there: &[&str]| {
        let name = archive_with_stamp(true, &numbered(stamp, there), stamp).unwrap();
        name["session.json.prev-20260801-123456".len()..].to_string()
    };
    assert_eq!(next(&[]), "");
    assert_eq!(next(&[""]), "-2");
    assert_eq!(next(&["", "-2", "-3"]), "-4");
    assert_eq!(next(&["", "-3", "-2", "-8"]), "-9");
    assert_eq!(next(&["-8", "-9"]), "-90");
    assert_eq!(next(&["-90", "-9"]), "-91");
    assert_eq!(next(&["-99"]), "-990");
    assert_eq!(next(&["-2"]), "-3");
    assert_eq!(next(&["-10"]), "-2");
    assert_eq!(next(&["-0"]), "-2");
    assert_eq!(next(&["-99999999999999999999999"]), "-999999999999999999999990");
    assert_eq!(next(&["-", "-x", "-2x", "0"]), "");
}

#[test]
fn the_archive_just_made_is_never_pruned() {
    let stamp = "20260801-123456";
    let mut names = numbered("20260801-123455", &["", "-2"]);
    for _ in 0..40 {
        let name = archive_with_stamp(true, &names, stamp).unwrap();
        assert!(!names.contains(&name));
        assert!(names.iter().all(|n| *n < name));
        names.insert(0, name.clone());
        let gone = prune_archives(&names);
        assert!(!gone.contains(&name));
        names.retain(|n| !gone.contains(n));
        assert!(names.len() <= 10);
        let files: Vec<_> = names.iter().map(|n| (n.clone(), Some(snap("x")))).collect();
        assert_eq!(list_archives(&files)[0].path, name);
    }
}

#[test]
fn a_file_of_another_version_is_left_alone() {
    for text in ["{\"version\": 2}", "{\"version\": 99, \"panes\": []}", "{\"version\": \"2\"}"] {
        assert_eq!(read_outcome(text, None), ReadOutcome::OtherVersion);
    }
    let out = load(read_outcome("{\"version\": 2}", None));
    assert!(matches!(out, LoadOutcome::Absent));
    assert!(!out.quarantines());
    for text in ["", "{", "[2]", "{}", "{\"version\": 1}"] {
        assert_eq!(read_outcome(text, None), ReadOutcome::Unparseable);
    }
    assert_eq!(read_outcome("{}", Some(snap("x"))), ReadOutcome::Parsed(snap("x")));
    assert!(matches!(strip_commands(ReadOutcome::OtherVersion), StripPlan::Nothing));
    assert!(load_archive(ReadOutcome::OtherVersion).is_none());
}

#[test]
fn the_version_is_read_from_the_value() {
    let v = |text: &str| serde_json::from_str::<serde_json::Value>(text).unwrap();
    assert!(is_other_version(&v("{\"version\": 2}")));
    assert!(is_other_version(&v("{\"version\": -1}")));
    assert!(is_other_version(&v("{\"version\": null}")));
    assert!(!is_other_version(&v("{\"version\": 1}")));
    assert!(!is_other_version(&v("{}")));
    assert!(!is_other_version(&v("2")));
}
