use ember_term::control::{
    build_request, client, client_pid, default_shot, dispatch, dispatch_value, err, finish,
    instance_pid, list_instances, ok, parse_drag_args, parse_i32, pid_socket, resolve_socket,
    server_bind_path, socket_dir, unescape, Answer, ClientAction, ControlMsg, ControlServer, Coord,
    Dispatch, MoveTabTarget, Probe, PromotePaneTarget, Question, ScrollAmount,
};
use ember_term::paths::{file_stem, join, path, state_path};
use serde_json::Value;

fn args(s: &str) -> Vec<String> {
    s.split_whitespace().map(str::to_string).collect()
}

fn value(s: &str) -> Value {
    serde_json::from_str(s).unwrap()
}

fn sent(s: &str) -> Dispatch {
    dispatch(s, "/tmp/shot.png")
}

fn at(x: f64) -> Coord {
    Coord { bits: x.to_bits() }
}

#[test]
fn drag_parses_four_coordinates_with_defaults() {
    let v = parse_drag_args(&args("10 20 30 40")).unwrap();
    assert_eq!(v["cmd"], "drag");
    assert_eq!(v["x1"], 10.0);
    assert_eq!(v["y1"], 20.0);
    assert_eq!(v["x2"], 30.0);
    assert_eq!(v["y2"], 40.0);
    assert_eq!(v["steps"], 8);
    assert_eq!(v["mods"], "");
    assert_eq!(v["cancel"], false);
}

#[test]
fn drag_parses_steps_mods_cancel_in_any_position() {
    let v = parse_drag_args(&args("--mods cmd+alt 1 2 3 4 --steps 3 --cancel")).unwrap();
    assert_eq!(v["x1"], 1.0);
    assert_eq!(v["y2"], 4.0);
    assert_eq!(v["steps"], 3);
    assert_eq!(v["mods"], "cmd+alt");
    assert_eq!(v["cancel"], true);
}

#[test]
fn drag_rejects_wrong_coordinate_count() {
    assert!(parse_drag_args(&args("1 2 3")).is_err());
    assert!(parse_drag_args(&args("1 2 3 4 5")).is_err());
    assert!(parse_drag_args(&args("")).is_err());
}

#[test]
fn drag_rejects_bad_coordinate() {
    assert!(parse_drag_args(&args("x 2 3 4")).is_err());
}

#[test]
fn drag_rejects_dangling_flags() {
    assert!(parse_drag_args(&args("1 2 3 4 --steps")).is_err());
    assert!(parse_drag_args(&args("1 2 3 4 --mods")).is_err());
}

#[test]
fn a_parsed_drag_arrives_whole() {
    let v = parse_drag_args(&args("1.5 -2 3 4 --steps 3 --mods cmd")).unwrap();
    assert_eq!(
        dispatch_value(&v, ""),
        Dispatch::Ask(
            ControlMsg::Drag {
                x1: at(1.5),
                y1: at(-2.0),
                x2: at(3.0),
                y2: at(4.0),
                steps: 3,
                mods: "cmd".to_string(),
                cancel: false,
            },
            Question::Drag,
        )
    );
}

#[test]
fn requests_become_messages() {
    assert_eq!(
        sent(r#"{"cmd":"type","text":"ls\n"}"#),
        Dispatch::Send(ControlMsg::Type("ls\n".to_string()))
    );
    assert_eq!(sent(r#" {"cmd":"raise"} "#), Dispatch::Send(ControlMsg::Raise));
    assert_eq!(sent(r#"{"cmd":"state"}"#), Dispatch::Ask(ControlMsg::State, Question::State));
    assert_eq!(
        sent(r#"{"cmd":"focus","query":"build"}"#),
        Dispatch::Ask(ControlMsg::Focus("build".to_string()), Question::Focus)
    );
    assert_eq!(
        sent(r#"{"cmd":"click","x":10,"y":2.5}"#),
        Dispatch::Send(ControlMsg::Click(at(10.0), at(2.5)))
    );
    assert_eq!(
        sent(r#"{"cmd":"click","x":"far"}"#),
        Dispatch::Send(ControlMsg::Click(at(0.0), at(0.0)))
    );
    assert_eq!(
        sent(r#"{"cmd":"screenshot"}"#),
        Dispatch::Ask(ControlMsg::Screenshot("/tmp/shot.png".to_string()), Question::Screenshot)
    );
    assert_eq!(
        sent(r#"{"cmd":"select","r1":1,"c1":65538}"#),
        Dispatch::Send(ControlMsg::Select(1, 2, 0, 0, "simple".to_string()))
    );
    assert_eq!(
        sent(r#"{"cmd":"scroll","dir":"-3"}"#),
        Dispatch::Send(ControlMsg::Scroll(ScrollAmount::Lines(-3)))
    );
    assert_eq!(
        sent(r#"{"cmd":"scroll","dir":"pageup"}"#),
        Dispatch::Send(ControlMsg::Scroll(ScrollAmount::PageUp))
    );
    assert_eq!(
        sent(r#"{"cmd":"move-tab","to":"next"}"#),
        Dispatch::Ask(ControlMsg::MoveTab(MoveTabTarget::Next), Question::MoveTab)
    );
    assert_eq!(
        sent(r#"{"cmd":"move-tab","to":"2"}"#),
        Dispatch::Ask(ControlMsg::MoveTab(MoveTabTarget::Window(2)), Question::MoveTab)
    );
    assert_eq!(
        sent(r#"{"cmd":"promote-pane","to":"window"}"#),
        Dispatch::Ask(ControlMsg::PromotePane(PromotePaneTarget::Window), Question::PromotePane)
    );
    assert_eq!(sent(r#"{"cmd":"bell"}"#), Dispatch::Send(ControlMsg::Bell(None)));
    assert_eq!(
        sent(r#"{"cmd":"rename-tab","i":2,"name":"x"}"#),
        Dispatch::Send(ControlMsg::RenameTab(2, "x".to_string()))
    );
}

fn refused(line: &str) -> String {
    let Dispatch::Reply(r) = sent(line) else { panic!("expected a reply") };
    let v = value(&r);
    assert_eq!(v["ok"], false);
    v["error"].as_str().unwrap().to_string()
}

#[test]
fn unknown_requests_are_refused() {
    assert_eq!(refused(r#"{"cmd":"non\"sense"}"#), "unknown cmd: non\"sense");
    assert!(refused("not json").starts_with("bad json: "));
    assert_eq!(refused(r#"{"cmd":"focus"}"#), "focus needs a query");
    assert_eq!(
        refused(r#"{"cmd":"scroll","dir":"sideways"}"#),
        "scroll: dir = top|bottom|page-up|page-down|<lines>"
    );
    assert_eq!(
        refused(r#"{"cmd":"move-tab","to":"0"}"#),
        "move-tab: to = new|next|prev|<1-based window number>"
    );
    assert_eq!(refused(r#"{"cmd":"promote-pane","to":"pane"}"#), "promote-pane: to = tab|window");
}

#[test]
fn replies_are_json() {
    assert_eq!(value(&ok()), value(r#"{"ok":true}"#));
    assert_eq!(value(&err("no \"x\"")), value(r#"{"ok":false,"error":"no \"x\""}"#));
    assert_eq!(
        finish(Question::State, Answer::Reply("{}".to_string())),
        "{\"ok\":true,\"state\":{}}"
    );
    assert_eq!(finish(Question::Focus, Answer::Reply("{}".to_string())), "{}");
    let timed_out = value(&finish(Question::Drag, Answer::TimedOut));
    assert_eq!(timed_out["error"], "drag timeout");
    let gone = value(&finish(Question::Focus, Answer::Gone));
    assert_eq!(gone["error"], "event loop gone");
    assert_eq!((Question::Screenshot.seconds(), Question::Drag.seconds()), (15, 5));
}

#[test]
fn signed_numbers_are_read() {
    assert_eq!(parse_i32("-12"), Some(-12));
    assert_eq!(parse_i32("+7"), Some(7));
    assert_eq!(parse_i32("2147483648"), None);
    assert_eq!(parse_i32("-2147483648"), Some(i32::MIN));
    assert_eq!(parse_i32("x"), None);
    assert_eq!(parse_i32(""), None);
}

#[test]
fn sockets_are_named_after_their_process() {
    let dir = socket_dir(Some("/var/tmp"));
    assert_eq!(dir, "/var/tmp/ember-ctl");
    assert_eq!(socket_dir(None), "/tmp/ember-ctl");
    let sock = pid_socket(&dir, 42);
    assert_eq!(sock, "/var/tmp/ember-ctl/42.sock");
    assert_eq!(instance_pid("42.sock"), Some(42));
    assert_eq!(instance_pid("x.sock"), None);
    assert_eq!(instance_pid("42-live.png"), None);
    assert_eq!(server_bind_path("1", &dir, 42), sock);
    assert_eq!(server_bind_path("/run/my.sock", &dir, 42), "/run/my.sock");
    let server = ControlServer::new(sock.clone());
    assert_eq!(server.path(), sock);
    assert_eq!(default_shot(&dir, 7), "/var/tmp/ember-ctl/7-live.png");
    assert_eq!(client_pid((1 << 32) | 5), 5);
}

#[test]
fn one_live_instance_is_found() {
    let live = [(7u32, "/tmp/ember-ctl/7.sock".to_string())];
    assert_eq!(resolve_socket(None, None, "/tmp", &live).unwrap(), "/tmp/ember-ctl/7.sock");
    assert_eq!(
        resolve_socket(Some("/x.sock".to_string()), Some(9), "/tmp", &[]).unwrap(),
        "/x.sock"
    );
    assert_eq!(resolve_socket(None, Some(9), "/run", &[]).unwrap(), "/run/9.sock");
    assert_eq!(
        resolve_socket(None, None, "/tmp", &[]).unwrap_err(),
        "no running ember-term with a control socket (launch with EMBER_CONTROL=1)"
    );
    let two = [(7u32, "a".to_string()), (8u32, "b".to_string())];
    assert_eq!(
        resolve_socket(None, None, "/tmp", &two).unwrap_err(),
        "multiple instances (7, 8); pass --pid <PID> or --sock <PATH>"
    );
}

#[test]
fn dead_sockets_are_swept() {
    let found = list_instances(&[
        Probe { pid: 9, path: "b".to_string(), alive: true },
        Probe { pid: 3, path: "a".to_string(), alive: true },
        Probe { pid: 5, path: "c".to_string(), alive: false },
    ]);
    assert_eq!(found.live, vec![(3, "a".to_string()), (9, "b".to_string())]);
    assert_eq!(found.stale, vec!["c".to_string()]);
}

#[test]
fn escapes_are_undone() {
    assert_eq!(unescape("ls\\n"), "ls\n");
    assert_eq!(unescape("a\\tb\\\\c"), "a\tb\\c");
    assert_eq!(unescape("\\r"), "\r");
    assert_eq!(unescape("plain"), "plain");
    assert_eq!(unescape("\\q"), "\\q");
    assert_eq!(unescape("end\\"), "end\\");
}

fn asked(line: &str) -> Value {
    let ClientAction::Request(v) = client(&args(line)).unwrap().action else {
        panic!("expected a request")
    };
    v
}

#[test]
fn client_arguments_become_requests() {
    let plan = client(&args("ctl --pid 12 type ls\\n")).unwrap();
    assert_eq!((plan.sock, plan.pid), (None, Some(12)));
    assert_eq!(asked("ctl type ls\\n"), value(r#"{"cmd":"type","text":"ls\n"}"#));
    assert_eq!(asked("ctl"), value(r#"{"cmd":"state"}"#));
    assert_eq!(asked("ctl focus agent alpha"), value(r#"{"cmd":"focus","query":"agent alpha"}"#));
    assert_eq!(asked("ctl click 3 x"), value(r#"{"cmd":"click","x":3.0,"y":0.0}"#));
    assert_eq!(
        asked("ctl select 1 2 3 99999"),
        value(r#"{"cmd":"select","r1":1,"c1":2,"r2":3,"c2":0,"mode":"simple"}"#)
    );
    assert_eq!(
        asked("ctl rename-tab 4 new name"),
        value(r#"{"cmd":"rename-tab","i":4,"name":"new name"}"#)
    );
    assert_eq!(
        asked("ctl screenshot"),
        value(r#"{"cmd":"screenshot","path":"/tmp/ember-live.png"}"#)
    );
    let plan = client(&args("ctl --sock /x.sock list")).unwrap();
    assert_eq!(plan.sock.as_deref(), Some("/x.sock"));
    assert_eq!(plan.action, ClientAction::List);
    assert_eq!(client(&args("ctl --pid")).unwrap_err(), "--pid needs a number");
    assert_eq!(client(&args("ctl --sock")).unwrap_err(), "--sock needs a path");
    assert_eq!(
        client(&args("ctl --pid x state")).unwrap_err(),
        "--pid: invalid digit found in string"
    );
    assert_eq!(
        client(&args("ctl focus")).unwrap_err(),
        "focus needs a query (matches tab titles)"
    );
    assert!(build_request(&args("nonsense")).unwrap_err().starts_with("unknown ctl cmd: nonsense"));
}

#[test]
fn files_stand_under_the_standard_directories() {
    assert_eq!(join("/a", "b"), "/a/b");
    assert_eq!(join("/a/", "b"), "/a/b");
    assert_eq!(
        path(Some("/cfg"), Some("/home/u")).as_deref(),
        Some("/cfg/ember/config.toml")
    );
    assert_eq!(path(None, Some("/home/u")).as_deref(), Some("/home/u/.config/ember/config.toml"));
    assert_eq!(path(None, None), None);
    assert_eq!(
        state_path(None, Some("/home/u")).as_deref(),
        Some("/home/u/.local/state/ember/session.json")
    );
    assert_eq!(state_path(Some("/st"), None).as_deref(), Some("/st/ember/session.json"));
    assert_eq!(file_stem("emberground.png"), "emberground");
    assert_eq!(file_stem(".hidden"), ".hidden");
}
