use ember_term::layout::{Axis, LayoutNode, PaneId, SessionId, Tab, TabId, WindowTree};
use ember_term::mcp::{
    handle, list_result, read_request, reply, request_from, shot_result, text_result, tools,
    tools_call, with, Plan,
};
use ember_term::screenshot::{
    compose, parse, parse_wisp_style, scene_steps, settings_highlight, Figure, Opts, SceneStep,
    WispStyle,
};
use ember_term::selection::SelectionMode;
use ember_term::startup::{
    about_info, about_lines, banner, launch, set_developer_mode, unrecognized, usage, DeveloperStep, Launch,
    PartVersions,
};
use serde_json::Value;

fn args(s: &str) -> Vec<String> {
    s.split_whitespace().map(str::to_string).collect()
}

fn value(s: &str) -> Value {
    serde_json::from_str(s).unwrap()
}

fn failed(p: Plan) -> String {
    match p {
        Plan::Fail(e) => e,
        other => panic!("expected a failure, got {other:?}"),
    }
}

#[test]
fn arguments_choose_the_program() {
    assert_eq!(launch(&args("ember-term")), Launch::Terminal);
    assert_eq!(launch(&args("ember-term ctl state")), Launch::Client);
    assert_eq!(launch(&args("ember-term mcp")), Launch::ToolServer);
    assert_eq!(launch(&args("ember-term --screenshot a.png")), Launch::Screenshot);
    assert_eq!(launch(&args("ember-term ctl -V")), Launch::Version);
    assert_eq!(launch(&args("ember-term -h")), Launch::Usage);
    assert_eq!(launch(&args("ember-term --vers")), Launch::Unrecognized("--vers".to_string()));
    assert!(usage().starts_with("usage: ember-term"));
    assert!(unrecognized("--vers").contains("--vers"));
}

#[test]
fn the_about_box_names_the_build() {
    let lines = about_lines("1.2.3", "abc123", "Somebody");
    assert_eq!(lines.len(), 8);
    assert_eq!(lines[3], "Commit    abc123");
    assert!(lines.iter().any(|l| l.contains("1.2.3")));
    assert!(lines.iter().any(|l| l.contains("Somebody")));
    let info = about_info("1.2.3", "abc123", "Somebody");
    assert_eq!(info.title, "ember");
    assert_eq!(info.lines, lines);
    let link = |name: &str, url: &str| (name.to_string(), url.to_string());
    assert_eq!(
        info.links,
        [link("Docs", "https://emberterm.com"), link("GitHub", "https://github.com/kingb/ember")]
    );
}

#[test]
fn developer_mode_binds_once() {
    assert_eq!(set_developer_mode(true, false), DeveloperStep::Bind);
    assert_eq!(set_developer_mode(true, true), DeveloperStep::Nothing);
    assert_eq!(set_developer_mode(false, true), DeveloperStep::Unbind);
    assert_eq!(set_developer_mode(false, false), DeveloperStep::Nothing);
}

#[test]
fn the_tool_server_introduces_itself() {
    let Plan::Done(v) = handle("initialize", None, "1.2.3") else { panic!("expected a result") };
    assert_eq!(v["protocolVersion"], "2024-11-05");
    assert_eq!(v["serverInfo"], value(r#"{"name":"ember-term","version":"1.2.3"}"#));
    assert_eq!(v["capabilities"], value(r#"{"tools":{}}"#));
    assert_eq!(handle("ping", None, ""), Plan::Done(value("{}")));
    assert_eq!(failed(handle("other", None, "")), "method not found: other");
    let Plan::Done(v) = handle("tools/list", None, "") else { panic!("expected a result") };
    assert_eq!(v["tools"], tools());
}

#[test]
fn every_tool_has_a_schema() {
    let tools = tools();
    let names: Vec<&str> =
        tools.as_array().unwrap().iter().map(|t| t["name"].as_str().unwrap()).collect();
    assert_eq!(
        names,
        vec![
            "ember_list",
            "ember_state",
            "ember_focus",
            "ember_raise",
            "ember_type",
            "ember_key",
            "ember_chord",
            "ember_screenshot",
            "ember_live_screenshot",
            "ember_move_tab",
            "ember_promote_pane",
            "ember_merge_tab",
        ]
    );
    assert_eq!(tools[4]["inputSchema"]["required"], value(r#"["text"]"#));
    assert_eq!(tools[4]["inputSchema"]["properties"]["pid"]["type"], "integer");
    assert_eq!(tools[7]["inputSchema"]["properties"]["split"]["enum"], value(r#"["h","v"]"#));
    assert_eq!(
        with(value(r#"{"a":1}"#), "b", value("2")),
        value(r#"{"a":1,"b":2}"#)
    );
    assert_eq!(with(value("[1]"), "b", value("2")), value("[1]"));
}

#[test]
fn tool_calls_become_requests() {
    let call = |s: &str| tools_call(Some(&value(s)));
    assert_eq!(
        call(r#"{"name":"ember_type","arguments":{"text":"ls\\n","pid":4294967301}}"#),
        Plan::Send {
            sock: None,
            pid: Some(5),
            request: value(r#"{"cmd":"type","text":"ls\\n"}"#),
        }
    );
    assert_eq!(
        call(r#"{"name":"ember_move_tab","arguments":{"to":"new","sock":"/x"}}"#),
        Plan::Send {
            sock: Some("/x".to_string()),
            pid: None,
            request: value(r#"{"cmd":"move-tab","to":"new"}"#),
        }
    );
    assert_eq!(
        call(r#"{"name":"ember_live_screenshot"}"#),
        Plan::Send { sock: None, pid: None, request: value(r#"{"cmd":"screenshot"}"#) }
    );
    assert_eq!(call(r#"{"name":"ember_list"}"#), Plan::List);
    assert_eq!(failed(tools_call(None)), "missing params");
    assert_eq!(failed(call("{}")), "missing tool name");
    assert_eq!(failed(call(r#"{"name":"ember_focus"}"#)), "query required");
    assert_eq!(failed(call(r#"{"name":"ember_type"}"#)), "text required");
    assert_eq!(failed(call(r#"{"name":"ember_key"}"#)), "name required");
    assert_eq!(failed(call(r#"{"name":"ember_chord"}"#)), "keys required");
    assert_eq!(failed(call(r#"{"name":"ember_move_tab"}"#)), "to required");
    assert_eq!(failed(call(r#"{"name":"rm"}"#)), "unknown tool: rm");
}

#[test]
fn a_tool_can_ask_for_a_picture() {
    let Plan::Shot(o) = tools_call(Some(&value(
        r#"{"name":"ember_screenshot",
            "arguments":{"path":"a.png","scale":1.5,"split":"v","tabs":0,"run":"ls"}}"#,
    ))) else {
        panic!("expected a picture")
    };
    assert_eq!(o.path, "a.png");
    assert_eq!(o.scale, Figure::Double(1.5f64.to_bits()));
    assert_eq!(o.split, Some(Axis::Vertical));
    assert_eq!(o.tabs, 1);
    assert_eq!(o.runs, vec!["ls".to_string()]);
}

#[test]
fn requests_with_an_id_are_answered() {
    let r = read_request(" {\"id\":7,\"method\":\"ping\",\"params\":{\"a\":1}}\n").unwrap();
    assert_eq!(r.id, Some(value("7")));
    assert_eq!(r.method, "ping");
    assert_eq!(r.params, Some(value(r#"{"a":1}"#)));
    assert!(read_request("\n").is_none());
    assert!(read_request("{oops").is_none());
    let quiet = request_from(&value(r#"{"jsonrpc":"2.0"}"#));
    assert_eq!((quiet.id, quiet.method.as_str()), (None, ""));
    assert_eq!(
        value(&reply(Some(value("7")), Ok(value("{}"))).unwrap()),
        value(r#"{"jsonrpc":"2.0","id":7,"result":{}}"#)
    );
    assert_eq!(
        value(&reply(Some(value("7")), Err("no".to_string())).unwrap()),
        value(r#"{"jsonrpc":"2.0","id":7,"error":{"code":-32000,"message":"no"}}"#)
    );
    assert_eq!(reply(None, Ok(value("{}"))), None);
}

#[test]
fn results_are_text() {
    assert_eq!(text_result("hi"), value(r#"{"content":[{"type":"text","text":"hi"}]}"#));
    let listed = list_result(&[(3, "/a.sock".to_string())]);
    assert_eq!(
        value(listed["content"][0]["text"].as_str().unwrap()),
        value(r#"[{"pid":3,"sock":"/a.sock"}]"#)
    );
    assert_eq!(
        shot_result("a.png")["content"][0]["text"],
        "wrote a.png \u{2014} read this file to view the render"
    );
}

#[test]
fn screenshot_flags_are_read() {
    let o = parse(&args(
        "--screenshot out.png --scale 1.5 --tabs 3 --split horizontal --ember \
         --select 1,2,3,4 --tab-drag 1 40.5 --wisp-preview EMBER",
    ))
    .unwrap();
    assert_eq!(o.path, "out.png");
    assert_eq!(o.scale, Figure::Text("1.5".to_string()));
    assert_eq!(o.tabs, 3);
    assert_eq!(o.split, Some(Axis::Horizontal));
    assert!(o.ember && o.backdrop);
    assert_eq!(o.select, Some((1, 2, 3, 4)));
    assert_eq!(o.tab_drag, Some((1, "40.5".to_string())));
    assert_eq!(o.wisp_preview, Some(WispStyle::Cinder));
    let d = Opts::default();
    assert_eq!((d.path.as_str(), d.tabs, d.settle_ms), ("ember.png", 1, 700));
    assert_eq!(parse(&args("--tabs 0")).unwrap().tabs, 1);
}

#[test]
fn bad_screenshot_flags_are_refused() {
    assert_eq!(parse(&args("--scale")).unwrap_err(), "--scale needs a value");
    assert_eq!(parse(&args("--scale x")).unwrap_err(), "--scale: invalid float literal");
    assert_eq!(parse(&args("--tabs x")).unwrap_err(), "--tabs: invalid digit found in string");
    assert_eq!(parse(&args("--split x")).unwrap_err(), "--split expects h|v, got x");
    assert_eq!(parse(&args("--select 1,2,3")).unwrap_err(), "--select expects r1,c1,r2,c2");
    assert_eq!(
        parse_wisp_style("Random").unwrap_err(),
        "--wisp-preview: unknown style \"random\" (expected cinder|coal|willowisp|comet|goo|star)"
    );
    assert_eq!(parse_wisp_style("WillOWisp"), Ok(WispStyle::WillOWisp));
}

#[test]
fn the_scene_is_seeded_split_and_tabbed() {
    let o = parse(&args("--split v --tabs 2 --run ls --select 0,0,0,5 --select-mode word")).unwrap();
    let steps = scene_steps(&o);
    assert_eq!(
        steps,
        vec![
            SceneStep::Seed { pane: PaneId(1), session: SessionId::new("s1") },
            SceneStep::Split {
                target: PaneId(1),
                axis: Axis::Vertical,
                pane: PaneId(2),
                session: SessionId::new("s2"),
            },
            SceneStep::NewTab { id: TabId(2), pane: PaneId(3), session: SessionId::new("s3") },
        ]
    );
    let tree = WindowTree {
        active: 0,
        tabs: vec![Tab {
            id: TabId(1),
            title: String::new(),
            focus: PaneId(1),
            root: LayoutNode::pane(PaneId(1), SessionId::new("s1")),
        }],
    };
    let plan = compose(&o, &tree, false).unwrap();
    assert_eq!(plan.panes.len(), 1);
    assert!(plan.panes[0].line.as_deref().unwrap().starts_with("ls"));
    assert_eq!(plan.selection, Some(((0, 0, 0, 5), SelectionMode::Word)));
    let labels = ["Theme".to_string(), "Font family".to_string()];
    assert_eq!(settings_highlight(&labels), 1);
}

#[test]
fn the_banner_names_every_part() {
    let parts = PartVersions {
        core: "1".to_string(),
        session: "2".to_string(),
        render: "3".to_string(),
        platform: "4".to_string(),
    };
    assert_eq!(
        banner("0.1.0", &parts),
        "ember-term 0.1.0 (core 1, session 2, render 3, platform 4)"
    );
}
