//! The debug tools for language-model clients: JSON-RPC over standard input and output.

use vstd::prelude::*;
use crate::control::{client_pid, command, command_view, live_view};
use crate::json::{
    as_float_bits, copy, float_bits, json_parsed, json_rendered, json_view, json_views, list,
    member, member_of, object, parse, put, render, set_member, signed, text, text_member,
    text_member_of, text_member_or_empty, text_or_empty, unsigned, unsigned_member,
    unsigned_member_of, JsonView,
};
use crate::layout::Axis;
use crate::screenshot::{default_opts, Figure, FigureView, Opts, OptsView};
use crate::text::{concat3, opt_text, same, trim, trim_of};

verus! {

broadcast use vstd::seq_lib::group_seq_properties;

// ---- the tools -------------------------------------------------------------

pub open spec fn none_view() -> JsonView {
    JsonView::Object(Map::empty())
}

/// `{"type":kind}`.
pub open spec fn typed_view(kind: Seq<char>) -> JsonView {
    put(none_view(), "type"@, JsonView::Text(kind))
}

fn typed(kind: &str) -> (r: serde_json::Value)
    ensures
        json_view(r) == typed_view(kind@),
{
    let mut v = object();
    set_member(&mut v, "type", text(kind));
    v
}

/// `{"type":kind,"description":about}`.
pub open spec fn described_view(kind: Seq<char>, about: Seq<char>) -> JsonView {
    put(typed_view(kind), "description"@, JsonView::Text(about))
}

fn described(kind: &str, about: &str) -> (r: serde_json::Value)
    ensures
        json_view(r) == described_view(kind@, about@),
{
    let mut v = typed(kind);
    set_member(&mut v, "description", text(about));
    v
}

/// `{"type":"string","enum":[a,b]}`.
pub open spec fn choice_view(a: Seq<char>, b: Seq<char>) -> JsonView {
    put(
        typed_view("string"@),
        "enum"@,
        JsonView::List(seq![JsonView::Text(a), JsonView::Text(b)]),
    )
}

fn choice(a: &str, b: &str) -> (r: serde_json::Value)
    ensures
        json_view(r) == choice_view(a@, b@),
{
    let mut v = typed("string");
    let mut items: Vec<serde_json::Value> = Vec::new();
    items.push(text(a));
    items.push(text(b));
    assert(json_views(items@) == seq![JsonView::Text(a@), JsonView::Text(b@)]);
    set_member(&mut v, "enum", list(items));
    v
}

/// `{"type":"object","properties":props}`.
pub open spec fn schema_view(props: JsonView) -> JsonView {
    put(typed_view("object"@), "properties"@, props)
}

fn schema(props: serde_json::Value) -> (r: serde_json::Value)
    ensures
        json_view(r) == schema_view(json_view(props)),
{
    let mut v = typed("object");
    set_member(&mut v, "properties", props);
    v
}

/// The schema with one property that must be given.
pub open spec fn required_view(schema: JsonView, key: Seq<char>) -> JsonView {
    put(schema, "required"@, JsonView::List(seq![JsonView::Text(key)]))
}

fn required(schema: serde_json::Value, key: &str) -> (r: serde_json::Value)
    ensures
        json_view(r) == required_view(json_view(schema), key@),
{
    let mut v = schema;
    let mut items: Vec<serde_json::Value> = Vec::new();
    items.push(text(key));
    assert(json_views(items@) == seq![JsonView::Text(key@)]);
    set_member(&mut v, "required", list(items));
    v
}

/// The properties by which a tool picks one of several instances.
pub open spec fn target_props_view() -> JsonView {
    put(
        put(
            none_view(),
            "pid"@,
            described_view(
                "integer"@,
                "Target instance PID (optional; auto when only one is running)."@,
            ),
        ),
        "sock"@,
        described_view("string"@, "Explicit control socket path (optional)."@),
    )
}

fn target_props() -> (r: serde_json::Value)
    ensures
        json_view(r) == target_props_view(),
{
    let mut v = object();
    set_member(
        &mut v,
        "pid",
        described("integer", "Target instance PID (optional; auto when only one is running)."),
    );
    set_member(&mut v, "sock", described("string", "Explicit control socket path (optional)."));
    v
}

/// The properties of a picture.
pub open spec fn scene_props_view() -> JsonView {
    put(
        put(
            put(
                put(
                    put(none_view(), "path"@, typed_view("string"@)),
                    "scale"@,
                    typed_view("number"@),
                ),
                "split"@,
                choice_view("h"@, "v"@),
            ),
            "tabs"@,
            typed_view("integer"@),
        ),
        "run"@,
        typed_view("string"@),
    )
}

fn scene_props() -> (r: serde_json::Value)
    ensures
        json_view(r) == scene_props_view(),
{
    let mut v = object();
    set_member(&mut v, "path", typed("string"));
    set_member(&mut v, "scale", typed("number"));
    set_member(&mut v, "split", choice("h", "v"));
    set_member(&mut v, "tabs", typed("integer"));
    set_member(&mut v, "run", typed("string"));
    v
}

/// The properties with one more.
pub fn with(props: serde_json::Value, key: &str, schema: serde_json::Value) -> (r: serde_json::Value)
    ensures
        json_view(r) == put(json_view(props), key@, json_view(schema)),
{
    let mut v = props;
    set_member(&mut v, key, schema);
    v
}

pub open spec fn tool_view(name: Seq<char>, about: Seq<char>, schema: JsonView) -> JsonView {
    put(
        put(put(none_view(), "name"@, JsonView::Text(name)), "description"@, JsonView::Text(about)),
        "inputSchema"@,
        schema,
    )
}

fn tool(name: &str, about: &str, schema: serde_json::Value) -> (r: serde_json::Value)
    ensures
        json_view(r) == tool_view(name@, about@, json_view(schema)),
{
    let mut v = object();
    set_member(&mut v, "name", text(name));
    set_member(&mut v, "description", text(about));
    set_member(&mut v, "inputSchema", schema);
    v
}

/// The tools on offer, with the arguments they take.
pub open spec fn tools_view() -> Seq<JsonView> {
    seq![
        tool_view(
            "ember_list"@,
            "List running ember-term instances (pid + control socket)."@,
            schema_view(JsonView::Object(Map::empty())),
        ),
        tool_view(
            "ember_state"@,
            "Dump the live app state as JSON: scale_factor, surface size, a tabs array (index/active/title/sessions for EVERY tab), and each active-tab pane's dims/cursor/styles_known/screen-text. The primary way to SEE what a running ember-term is rendering."@,
            schema_view(target_props_view()),
        ),
        tool_view(
            "ember_focus"@,
            "Focus the first tab whose title contains the query (case-insensitive) and raise the Ember window. Returns the matched index+title, or the list of titles seen when nothing matches."@,
            required_view(schema_view(put(target_props_view(), "query"@, described_view("string"@, "Substring to match against tab titles."@))), "query"@),
        ),
        tool_view(
            "ember_raise"@,
            "Bring the Ember window to the front and give it keyboard focus."@,
            schema_view(target_props_view()),
        ),
        tool_view(
            "ember_type"@,
            "Type text into the focused pane's shell. Use \\n for Enter."@,
            required_view(schema_view(put(target_props_view(), "text"@, described_view("string"@, "Text to type (\\n = Enter)."@))), "text"@),
        ),
        tool_view(
            "ember_key"@,
            "Press a named key in the focused pane: Enter, Tab, Escape, Backspace, Space, Up/Down/Left/Right."@,
            required_view(schema_view(put(target_props_view(), "name"@, typed_view("string"@))), "name"@),
        ),
        tool_view(
            "ember_chord"@,
            "Run a multiplexer chord, e.g. cmd+d (split), cmd+shift+d, cmd+w, cmd+t, cmd+arrowright, cmd+1."@,
            required_view(schema_view(put(target_props_view(), "keys"@, typed_view("string"@))), "keys"@),
        ),
        tool_view(
            "ember_screenshot"@,
            "Render a deterministic scene to a PNG headlessly (no display) and return the path to read. Args: path, scale (default 2), split (h|v), tabs (int), run (shell command)."@,
            schema_view(scene_props_view()),
        ),
        tool_view(
            "ember_live_screenshot"@,
            "Capture the CURRENT on-screen state of a running ember-term to a PNG (pixel-identical to the window) and return the path to read. Args: path (default /tmp/ember-live.png), plus pid/sock to target an instance."@,
            schema_view(put(target_props_view(), "path"@, typed_view("string"@))),
        ),
        tool_view(
            "ember_move_tab"@,
            "Move the focused tab to another window: a brand-new one, an existing 1-based window number, or the window next/previous in creation order. Returns {ok:true} or {ok:false,error}."@,
            required_view(schema_view(put(target_props_view(), "to"@, described_view("string"@, "new | next | prev | <1-based window number>"@))), "to"@),
        ),
        tool_view(
            "ember_promote_pane"@,
            "Promote the focused pane out of its current split: into its own new tab (same window) or its own brand-new window. Returns {ok:true} or {ok:false,error}."@,
            required_view(schema_view(put(target_props_view(), "to"@, choice_view("tab"@, "window"@))), "to"@),
        ),
        tool_view(
            "ember_merge_tab"@,
            "Merge the focused tab into the tab immediately before it, as a horizontal split of that tab's focused pane. Returns {ok:true} or {ok:false,error} (e.g. no previous tab)."@,
            schema_view(target_props_view()),
        ),
    ]
}

/// The tools on offer, with the arguments they take.
pub fn tools() -> (r: serde_json::Value)
    ensures
        json_view(r) == JsonView::List(tools_view()),
{
    let mut items: Vec<serde_json::Value> = Vec::new();
    items.push(
        tool(
            "ember_list",
            "List running ember-term instances (pid + control socket).",
            schema(object()),
        ),
    );
    items.push(
        tool(
            "ember_state",
            "Dump the live app state as JSON: scale_factor, surface size, a tabs array (index/active/title/sessions for EVERY tab), and each active-tab pane's dims/cursor/styles_known/screen-text. The primary way to SEE what a running ember-term is rendering.",
            schema(target_props()),
        ),
    );
    items.push(
        tool(
            "ember_focus",
            "Focus the first tab whose title contains the query (case-insensitive) and raise the Ember window. Returns the matched index+title, or the list of titles seen when nothing matches.",
            required(schema(with(target_props(), "query", described("string", "Substring to match against tab titles."))), "query"),
        ),
    );
    items.push(
        tool(
            "ember_raise",
            "Bring the Ember window to the front and give it keyboard focus.",
            schema(target_props()),
        ),
    );
    items.push(
        tool(
            "ember_type",
            "Type text into the focused pane's shell. Use \\n for Enter.",
            required(schema(with(target_props(), "text", described("string", "Text to type (\\n = Enter)."))), "text"),
        ),
    );
    items.push(
        tool(
            "ember_key",
            "Press a named key in the focused pane: Enter, Tab, Escape, Backspace, Space, Up/Down/Left/Right.",
            required(schema(with(target_props(), "name", typed("string"))), "name"),
        ),
    );
    items.push(
        tool(
            "ember_chord",
            "Run a multiplexer chord, e.g. cmd+d (split), cmd+shift+d, cmd+w, cmd+t, cmd+arrowright, cmd+1.",
            required(schema(with(target_props(), "keys", typed("string"))), "keys"),
        ),
    );
    items.push(
        tool(
            "ember_screenshot",
            "Render a deterministic scene to a PNG headlessly (no display) and return the path to read. Args: path, scale (default 2), split (h|v), tabs (int), run (shell command).",
            schema(scene_props()),
        ),
    );
    items.push(
        tool(
            "ember_live_screenshot",
            "Capture the CURRENT on-screen state of a running ember-term to a PNG (pixel-identical to the window) and return the path to read. Args: path (default /tmp/ember-live.png), plus pid/sock to target an instance.",
            schema(with(target_props(), "path", typed("string"))),
        ),
    );
    items.push(
        tool(
            "ember_move_tab",
            "Move the focused tab to another window: a brand-new one, an existing 1-based window number, or the window next/previous in creation order. Returns {ok:true} or {ok:false,error}.",
            required(schema(with(target_props(), "to", described("string", "new | next | prev | <1-based window number>"))), "to"),
        ),
    );
    items.push(
        tool(
            "ember_promote_pane",
            "Promote the focused pane out of its current split: into its own new tab (same window) or its own brand-new window. Returns {ok:true} or {ok:false,error}.",
            required(schema(with(target_props(), "to", choice("tab", "window"))), "to"),
        ),
    );
    items.push(
        tool(
            "ember_merge_tab",
            "Merge the focused tab into the tab immediately before it, as a horizontal split of that tab's focused pane. Returns {ok:true} or {ok:false,error} (e.g. no previous tab).",
            schema(target_props()),
        ),
    );
    assert(json_views(items@) =~= tools_view());
    list(items)
}

// ---- calling a tool --------------------------------------------------------

/// What a request asks for.
#[derive(Debug, PartialEq, Eq)]
pub enum Plan {
    /// The result is known.
    Done(serde_json::Value),
    Fail(String),
    /// List the running instances.
    List,
    /// Send a request to an instance, the one named or the only one.
    Send { sock: Option<String>, pid: Option<u32>, request: serde_json::Value },
    /// Take a picture of a scene.
    Shot(Opts),
}

pub enum PlanView {
    Done(JsonView),
    Fail(Seq<char>),
    List,
    Send { sock: Option<Seq<char>>, pid: Option<u32>, request: JsonView },
    Shot(OptsView),
}

impl Plan {
    pub open spec fn view(&self) -> PlanView {
        match *self {
            Plan::Done(v) => PlanView::Done(json_view(v)),
            Plan::Fail(e) => PlanView::Fail(e@),
            Plan::List => PlanView::List,
            Plan::Send { sock, pid, request } => PlanView::Send {
                sock: opt_text(sock),
                pid,
                request: json_view(request),
            },
            Plan::Shot(o) => PlanView::Shot(o@),
        }
    }
}

/// Sending `request` to the instance that the arguments name.
pub open spec fn send_view(args: JsonView, request: JsonView) -> PlanView {
    PlanView::Send {
        sock: text_member_of(args, "sock"@),
        pid: match unsigned_member_of(args, "pid"@) {
            Some(p) => Some(p as u32),
            None => None,
        },
        request,
    }
}

fn send(args: &serde_json::Value, request: serde_json::Value) -> (r: Plan)
    ensures
        r@ == send_view(json_view(*args), json_view(request)),
{
    let pid: Option<u32> = match unsigned_member(args, "pid") {
        Some(p) => Some(client_pid(p)),
        None => None,
    };
    Plan::Send { sock: text_member(args, "sock"), pid, request }
}

/// Sending a command with one text, which the arguments must hold under `arg`.
pub open spec fn send_text_view(
    args: JsonView,
    cmd: Seq<char>,
    arg: Seq<char>,
    missing: Seq<char>,
) -> PlanView {
    match text_member_of(args, arg) {
        Some(s) => send_view(args, put(command_view(cmd), arg, JsonView::Text(s))),
        None => PlanView::Fail(missing),
    }
}

fn send_text(args: &serde_json::Value, cmd: &str, arg: &str, missing: &str) -> (r: Plan)
    ensures
        r@ == send_text_view(json_view(*args), cmd@, arg@, missing@),
{
    match text_member(args, arg) {
        Some(s) => {
            let mut v = command(cmd);
            set_member(&mut v, arg, text(s.as_str()));
            send(args, v)
        },
        None => Plan::Fail(missing.to_owned()),
    }
}

/// The picture that the arguments ask for.
pub open spec fn scene_opts(args: JsonView) -> OptsView {
    let o = default_opts();
    OptsView {
        path: match text_member_of(args, "path"@) {
            Some(p) => p,
            None => o.path,
        },
        scale: match member_of(args, "scale"@) {
            Some(v) => match float_bits(v) {
                Some(bits) => FigureView::Double(bits),
                None => o.scale,
            },
            None => o.scale,
        },
        split: match text_member_of(args, "split"@) {
            Some(s) => if s == "h"@ {
                Some(Axis::Horizontal)
            } else if s == "v"@ {
                Some(Axis::Vertical)
            } else {
                None
            },
            None => o.split,
        },
        tabs: match unsigned_member_of(args, "tabs"@) {
            Some(t) => if (t as usize) < 1 {
                1
            } else {
                t as usize
            },
            None => o.tabs,
        },
        runs: match text_member_of(args, "run"@) {
            Some(r) => seq![r],
            None => o.runs,
        },
        ..o
    }
}

fn read_scene(args: &serde_json::Value) -> (r: Opts)
    ensures
        r@ == scene_opts(json_view(*args)),
{
    let mut opts = Opts::default();
    if let Some(p) = text_member(args, "path") {
        opts.path = p;
    }
    if let Some(v) = member(args, "scale") {
        if let Some(bits) = as_float_bits(v) {
            opts.scale = Figure::Double(bits);
        }
    }
    if let Some(s) = text_member(args, "split") {
        opts.split = if same(s.as_str(), "h") {
            Some(Axis::Horizontal)
        } else if same(s.as_str(), "v") {
            Some(Axis::Vertical)
        } else {
            None
        };
    }
    if let Some(t) = unsigned_member(args, "tabs") {
        let n: usize = t as usize;
        opts.tabs = if n < 1 { 1 } else { n };
    }
    if let Some(run) = text_member(args, "run") {
        let ghost line = run@;
        let mut runs: Vec<String> = Vec::new();
        runs.push(run);
        assert(crate::text::texts(runs@) == seq![line]);
        opts.runs = runs;
    }
    opts
}

/// What calling a tool asks for.
pub open spec fn called(params: Option<JsonView>) -> PlanView {
    match params {
        None => PlanView::Fail("missing params"@),
        Some(p) => match text_member_of(p, "name"@) {
            None => PlanView::Fail("missing tool name"@),
            Some(name) => {
                let args = match member_of(p, "arguments"@) {
                    Some(a) => a,
                    None => none_view(),
                };
                if name == "ember_list"@ {
                    PlanView::List
                } else if name == "ember_state"@ {
                    send_view(args, command_view("state"@))
                } else if name == "ember_focus"@ {
                    send_text_view(args, "focus"@, "query"@, "query required"@)
                } else if name == "ember_raise"@ {
                    send_view(args, command_view("raise"@))
                } else if name == "ember_type"@ {
                    send_text_view(args, "type"@, "text"@, "text required"@)
                } else if name == "ember_key"@ {
                    send_text_view(args, "key"@, "name"@, "name required"@)
                } else if name == "ember_chord"@ {
                    send_text_view(args, "chord"@, "keys"@, "keys required"@)
                } else if name == "ember_screenshot"@ {
                    PlanView::Shot(scene_opts(args))
                } else if name == "ember_live_screenshot"@ {
                    send_view(
                        args,
                        match text_member_of(args, "path"@) {
                            Some(path) => put(
                                command_view("screenshot"@),
                                "path"@,
                                JsonView::Text(path),
                            ),
                            None => command_view("screenshot"@),
                        },
                    )
                } else if name == "ember_move_tab"@ {
                    send_text_view(args, "move-tab"@, "to"@, "to required"@)
                } else if name == "ember_promote_pane"@ {
                    send_text_view(args, "promote-pane"@, "to"@, "to required"@)
                } else if name == "ember_merge_tab"@ {
                    send_view(args, command_view("merge-tab"@))
                } else {
                    PlanView::Fail("unknown tool: "@ + name)
                }
            },
        },
    }
}

pub open spec fn opt_json(v: Option<&serde_json::Value>) -> Option<JsonView> {
    match v {
        Some(x) => Some(json_view(*x)),
        None => None,
    }
}

/// Decides what calling a tool comes to.
pub fn tools_call(params: Option<&serde_json::Value>) -> (r: Plan)
    ensures
        r@ == called(opt_json(params)),
{
    let p = match params {
        Some(p) => p,
        None => return Plan::Fail("missing params".to_owned()),
    };
    let name_text = match text_member(p, "name") {
        Some(n) => n,
        None => return Plan::Fail("missing tool name".to_owned()),
    };
    let name = name_text.as_str();
    let args = match member(p, "arguments") {
        Some(a) => copy(a),
        None => object(),
    };
    if same(name, "ember_list") {
        Plan::List
    } else if same(name, "ember_state") {
        send(&args, command("state"))
    } else if same(name, "ember_focus") {
        send_text(&args, "focus", "query", "query required")
    } else if same(name, "ember_raise") {
        send(&args, command("raise"))
    } else if same(name, "ember_type") {
        send_text(&args, "type", "text", "text required")
    } else if same(name, "ember_key") {
        send_text(&args, "key", "name", "name required")
    } else if same(name, "ember_chord") {
        send_text(&args, "chord", "keys", "keys required")
    } else if same(name, "ember_screenshot") {
        Plan::Shot(read_scene(&args))
    } else if same(name, "ember_live_screenshot") {
        let mut req = command("screenshot");
        if let Some(path) = text_member(&args, "path") {
            set_member(&mut req, "path", text(path.as_str()));
        }
        send(&args, req)
    } else if same(name, "ember_move_tab") {
        send_text(&args, "move-tab", "to", "to required")
    } else if same(name, "ember_promote_pane") {
        send_text(&args, "promote-pane", "to", "to required")
    } else if same(name, "ember_merge_tab") {
        send(&args, command("merge-tab"))
    } else {
        let mut msg = "unknown tool: ".to_owned();
        msg.append(name);
        Plan::Fail(msg)
    }
}

/// What is told a client that introduces itself.
pub open spec fn greeting(version: Seq<char>) -> JsonView {
    put(
        put(
            put(none_view(), "protocolVersion"@, JsonView::Text("2024-11-05"@)),
            "capabilities"@,
            put(none_view(), "tools"@, none_view()),
        ),
        "serverInfo"@,
        put(
            put(none_view(), "name"@, JsonView::Text("ember-term"@)),
            "version"@,
            JsonView::Text(version),
        ),
    )
}

fn greet(version: &str) -> (r: serde_json::Value)
    ensures
        json_view(r) == greeting(version@),
{
    let mut capabilities = object();
    set_member(&mut capabilities, "tools", object());
    let mut info = object();
    set_member(&mut info, "name", text("ember-term"));
    set_member(&mut info, "version", text(version));
    let mut v = object();
    set_member(&mut v, "protocolVersion", text("2024-11-05"));
    set_member(&mut v, "capabilities", capabilities);
    set_member(&mut v, "serverInfo", info);
    v
}

/// What a method asks for.
pub open spec fn handled(method: Seq<char>, params: Option<JsonView>, version: Seq<char>) -> PlanView {
    if method == "initialize"@ {
        PlanView::Done(greeting(version))
    } else if method == "tools/list"@ {
        PlanView::Done(put(none_view(), "tools"@, JsonView::List(tools_view())))
    } else if method == "tools/call"@ {
        called(params)
    } else if method == "ping"@ {
        PlanView::Done(none_view())
    } else {
        PlanView::Fail("method not found: "@ + method)
    }
}

/// Decides what a method comes to. `version` is that of the program.
pub fn handle(method: &str, params: Option<&serde_json::Value>, version: &str) -> (r: Plan)
    ensures
        r@ == handled(method@, opt_json(params), version@),
{
    if same(method, "initialize") {
        Plan::Done(greet(version))
    } else if same(method, "tools/list") {
        let mut v = object();
        set_member(&mut v, "tools", tools());
        Plan::Done(v)
    } else if same(method, "tools/call") {
        tools_call(params)
    } else if same(method, "ping") {
        Plan::Done(object())
    } else {
        let mut msg = "method not found: ".to_owned();
        msg.append(method);
        Plan::Fail(msg)
    }
}

// ---- results ---------------------------------------------------------------

/// `{"content":[{"type":"text","text":s}]}`.
pub open spec fn text_content(s: Seq<char>) -> JsonView {
    put(
        none_view(),
        "content"@,
        JsonView::List(seq![put(typed_view("text"@), "text"@, JsonView::Text(s))]),
    )
}

/// A text as the result of a tool.
pub fn text_result(s: &str) -> (r: serde_json::Value)
    ensures
        json_view(r) == text_content(s@),
{
    let mut item = typed("text");
    set_member(&mut item, "text", text(s));
    let mut items: Vec<serde_json::Value> = Vec::new();
    items.push(item);
    assert(json_views(items@) == seq![put(typed_view("text"@), "text"@, JsonView::Text(s@))]);
    let mut v = object();
    set_member(&mut v, "content", list(items));
    v
}

/// `{"pid":pid,"sock":path}`.
pub open spec fn instance_view(i: (u32, Seq<char>)) -> JsonView {
    put(
        put(none_view(), "pid"@, JsonView::Unsigned(i.0 as u64)),
        "sock"@,
        JsonView::Text(i.1),
    )
}

pub open spec fn listing_view(live: Seq<(u32, Seq<char>)>) -> JsonView {
    JsonView::List(live.map_values(|i: (u32, Seq<char>)| instance_view(i)))
}

/// The result of listing the running instances.
pub fn list_result(live: &[(u32, String)]) -> (r: serde_json::Value)
    ensures
        json_view(r) == text_content(json_rendered(listing_view(live_view(live@)))),
{
    let mut items: Vec<serde_json::Value> = Vec::new();
    let ghost all = live_view(live@).map_values(|i: (u32, Seq<char>)| instance_view(i));
    let mut i: usize = 0;
    while i < live.len()
        invariant
            i <= live@.len(),
            all == live_view(live@).map_values(|i: (u32, Seq<char>)| instance_view(i)),
            json_views(items@) == all.take(i as int),
        decreases live@.len() - i,
    {
        let mut v = object();
        set_member(&mut v, "pid", unsigned(live[i].0 as u64));
        set_member(&mut v, "sock", text(live[i].1.as_str()));
        let ghost before = items@;
        assert(live_view(live@)[i as int] == (live@[i as int].0, live@[i as int].1@));
        assert(json_view(v) == all[i as int]);
        items.push(v);
        assert(json_views(items@) == json_views(before).push(json_view(v)));
        assert(all.take(i + 1) == all.take(i as int).push(all[i as int]));
        i += 1;
    }
    assert(all.take(i as int) == all);
    let listing = list(items);
    text_result(render(&listing).as_str())
}

/// The result of taking a picture.
pub fn shot_result(path: &str) -> (r: serde_json::Value)
    ensures
        json_view(r) == text_content("wrote "@ + path@ + " — read this file to view the render"@),
{
    text_result(concat3("wrote ", path, " — read this file to view the render").as_str())
}

// ---- requests and replies --------------------------------------------------

/// A request line, taken apart.
#[derive(Debug, PartialEq, Eq)]
pub struct Request {
    pub id: Option<serde_json::Value>,
    pub method: String,
    pub params: Option<serde_json::Value>,
}

pub open spec fn opt_value(v: Option<serde_json::Value>) -> Option<JsonView> {
    match v {
        Some(x) => Some(json_view(x)),
        None => None,
    }
}

/// `r` is the request that the value `v` stands for.
pub open spec fn request_of(v: JsonView, r: Request) -> bool {
    &&& opt_value(r.id) == member_of(v, "id"@)
    &&& r.method@ == text_or_empty(v, "method"@)
    &&& opt_value(r.params) == member_of(v, "params"@)
}

/// Takes a request apart.
pub fn request_from(v: &serde_json::Value) -> (r: Request)
    ensures
        request_of(json_view(*v), r),
{
    let id = match member(v, "id") {
        Some(x) => Some(copy(x)),
        None => None,
    };
    let params = match member(v, "params") {
        Some(x) => Some(copy(x)),
        None => None,
    };
    Request { id, method: text_member_or_empty(v, "method"), params }
}

/// Reads a request line. A blank line and one that is no JSON are passed over.
pub fn read_request(line: &str) -> (r: Option<Request>)
    ensures
        match r {
            Some(req) => trim_of(line@).len() > 0 && json_parsed(trim_of(line@)) is Ok && request_of(
                json_parsed(trim_of(line@))->Ok_0,
                req,
            ),
            None => trim_of(line@).len() == 0 || json_parsed(trim_of(line@)) is Err,
        },
{
    let trimmed = trim(line);
    if trimmed.as_str().is_empty() {
        return None;
    }
    match parse(trimmed.as_str()) {
        Ok(v) => Some(request_from(&v)),
        Err(_) => None,
    }
}

/// The reply to the request `id`.
pub open spec fn reply_view(id: JsonView, result: Result<JsonView, Seq<char>>) -> JsonView {
    let head = put(put(none_view(), "jsonrpc"@, JsonView::Text("2.0"@)), "id"@, id);
    match result {
        Ok(v) => put(head, "result"@, v),
        Err(e) => put(
            head,
            "error"@,
            put(
                put(none_view(), "code"@, JsonView::Negative((-32000int) as i64)),
                "message"@,
                JsonView::Text(e),
            ),
        ),
    }
}

/// The line that answers a request; a notification, which has no id, gets none.
pub fn reply(id: Option<serde_json::Value>, result: Result<serde_json::Value, String>) -> (r: Option<
    String,
>)
    ensures
        match id {
            Some(i) => r is Some && r->0@ == json_rendered(
                reply_view(json_view(i), crate::control::value_result(result)),
            ),
            None => r is None,
        },
{
    let id = match id {
        Some(i) => i,
        None => return None,
    };
    let mut v = object();
    set_member(&mut v, "jsonrpc", text("2.0"));
    set_member(&mut v, "id", id);
    match result {
        Ok(x) => {
            set_member(&mut v, "result", x);
        },
        Err(e) => {
            let mut error = object();
            set_member(&mut error, "code", signed(-32000));
            set_member(&mut error, "message", text(e.as_str()));
            set_member(&mut v, "error", error);
        },
    }
    Some(render(&v))
}

// ---- the conversation ------------------------------------------------------

proof fn lemma_conversation_members_differ()
    ensures
        "protocolVersion"@.len() == 15 && "capabilities"@.len() == 12 && "serverInfo"@.len() == 10,
        "name"@.len() == 4 && "version"@.len() == 7 && "jsonrpc"@.len() == 7 && "id"@.len() == 2,
        "result"@.len() == 6 && "error"@.len() == 5 && "code"@.len() == 4 && "message"@.len() == 7,
        "type"@.len() == 4 && "text"@.len() == 4 && "type"@[1] == 'y' && "text"@[1] == 'e',
        "pid"@.len() == 3 && "sock"@.len() == 4,
        "initialize"@.len() == 10 && "tools/list"@.len() == 10 && "tools/call"@.len() == 10,
        "ping"@.len() == 4 && "initialize"@[0] == 'i' && "tools/list"@[0] == 't' && "tools/call"@[0]
            == 't' && "tools/list"@[6] == 'l' && "tools/call"@[6] == 'c',
        "path"@.len() == 4 && "scale"@.len() == 5 && "split"@.len() == 5 && "tabs"@.len() == 4
            && "run"@.len() == 3 && "h"@.len() == 1 && "v"@.len() == 1 && "h"@[0] == 'h' && "v"@[0]
            == 'v',
{
    reveal_strlit("protocolVersion");
    reveal_strlit("capabilities");
    reveal_strlit("serverInfo");
    reveal_strlit("name");
    reveal_strlit("version");
    reveal_strlit("jsonrpc");
    reveal_strlit("id");
    reveal_strlit("result");
    reveal_strlit("error");
    reveal_strlit("code");
    reveal_strlit("message");
    reveal_strlit("type");
    reveal_strlit("text");
    reveal_strlit("pid");
    reveal_strlit("sock");
    reveal_strlit("initialize");
    reveal_strlit("tools/list");
    reveal_strlit("tools/call");
    reveal_strlit("ping");
    reveal_strlit("path");
    reveal_strlit("scale");
    reveal_strlit("split");
    reveal_strlit("tabs");
    reveal_strlit("run");
    reveal_strlit("h");
    reveal_strlit("v");
}

/// The methods: `initialize` greets, `tools/list` lists the tools, `tools/call` calls one, `ping`
/// answers with nothing; any other is an error that names it.
#[verifier::rlimit(40)]
pub proof fn law_methods_are_answered(method: Seq<char>, params: Option<JsonView>, version: Seq<char>)
    ensures
        method == "initialize"@ ==> (handled(method, params, version) matches PlanView::Done(
            JsonView::Object(m),
        ) && m["protocolVersion"@] == JsonView::Text("2024-11-05"@) && m.contains_key(
            "capabilities"@,
        ) && (m["capabilities"@] matches JsonView::Object(c) && c.contains_key("tools"@)) && (
        m["serverInfo"@] matches JsonView::Object(i) && i["name"@] == JsonView::Text(
            "ember-term"@,
        ) && i["version"@] == JsonView::Text(version))),
        method == "tools/list"@ ==> (handled(method, params, version) matches PlanView::Done(
            JsonView::Object(m),
        ) && m["tools"@] == JsonView::List(tools_view())),
        method == "tools/call"@ ==> handled(method, params, version) == called(params),
        method == "ping"@ ==> handled(method, params, version) == PlanView::Done(
            JsonView::Object(Map::empty()),
        ),
        method != "initialize"@ && method != "tools/list"@ && method != "tools/call"@ && method
            != "ping"@ ==> handled(method, params, version) == PlanView::Fail(
            "method not found: "@ + method,
        ),
{
    lemma_conversation_members_differ();
}

/// A reply repeats the id of its request and holds either the result or the error, with its code
/// and its words. A notification gets none.
#[verifier::rlimit(40)]
pub proof fn law_replies_carry_the_id(id: JsonView, v: JsonView, e: Seq<char>, i: serde_json::Value, result: Result<serde_json::Value, String>, r: Option<String>)
    ensures
        reply_view(id, Ok(v)) matches JsonView::Object(m) && m["jsonrpc"@] == JsonView::Text("2.0"@)
            && m["id"@] == id && m["result"@] == v && m.contains_key("result"@) && !m.contains_key(
            "error"@,
        ),
        reply_view(id, Err(e)) matches JsonView::Object(m) && m["jsonrpc"@] == JsonView::Text(
            "2.0"@,
        ) && m["id"@] == id && !m.contains_key("result"@) && m.contains_key("error"@) && (
        m["error"@] matches JsonView::Object(w) && w["message"@] == JsonView::Text(e) && (w["code"@]
            matches JsonView::Negative(code) && code == -32000)),
        call_ensures(reply, (None, result), r) ==> r is None,
        call_ensures(reply, (Some(i), result), r) ==> r is Some && r->0@ == json_rendered(
            reply_view(json_view(i), match result {
                Ok(x) => Ok(json_view(x)),
                Err(x) => Err(x@),
            }),
        ),
{
    lemma_conversation_members_differ();
}

/// A request is read member by member: its id, its method and its parameters.
pub proof fn law_requests_are_read(m: Map<Seq<char>, JsonView>, method: Seq<char>, id: JsonView, params: JsonView, r: Request)
    requires
        request_of(JsonView::Object(m), r),
    ensures
        m.contains_key("method"@) && m["method"@] == JsonView::Text(method) ==> r.method@ == method,
        !m.contains_key("method"@) ==> r.method@.len() == 0,
        m.contains_key("id"@) && m["id"@] == id ==> (r.id matches Some(x) && json_view(x) == id),
        !m.contains_key("id"@) ==> r.id is None,
        m.contains_key("params"@) && m["params"@] == params ==> (r.params matches Some(x)
            && json_view(x) == params),
        !m.contains_key("params"@) ==> r.params is None,
{
}

/// A result in words is one piece of content that holds them as text.
pub proof fn law_words_are_content(s: Seq<char>, pid: u32, sock: Seq<char>, live: Seq<(u32, Seq<char>)>, i: int)
    ensures
        text_content(s) matches JsonView::Object(m) && m.contains_key("content"@) && (m["content"@]
            matches JsonView::List(items) && items.len() == 1 && (items[0] matches JsonView::Object(
            c,
        ) && c["type"@] == JsonView::Text("text"@) && c["text"@] == JsonView::Text(s))),
        instance_view((pid, sock)) matches JsonView::Object(m) && m["pid"@] == JsonView::Unsigned(
            pid as u64,
        ) && m["sock"@] == JsonView::Text(sock),
        listing_view(live) matches JsonView::List(items) && items.len() == live.len() && (0 <= i
            < live.len() ==> items[i] == instance_view(live[i])),
{
    lemma_conversation_members_differ();
}

/// A scene is taken from the arguments: the path, the lines to run, how many tabs, at least one,
/// and how the panes are split, side by side for `h` and stacked for `v`.
#[verifier::rlimit(40)]
pub proof fn law_scenes_are_read(a: Map<Seq<char>, JsonView>, s: Seq<char>, n: u64)
    ensures
        ({
            let o = scene_opts(JsonView::Object(a));
            let given = |key: Seq<char>, v: JsonView| a.contains_key(key) && a[key] == v;
            &&& given("path"@, JsonView::Text(s)) ==> o.path == s
            &&& given("run"@, JsonView::Text(s)) ==> o.runs == seq![s]
            &&& !a.contains_key("run"@) ==> o.runs.len() == 0
            &&& given("tabs"@, JsonView::Unsigned(n)) && n >= 1 && n <= u32::MAX ==> o.tabs == n
            &&& given("tabs"@, JsonView::Unsigned(0)) || !a.contains_key("tabs"@) ==> o.tabs == 1
            &&& given("split"@, JsonView::Text("h"@)) ==> o.split == Some(Axis::Horizontal)
            &&& given("split"@, JsonView::Text("v"@)) ==> o.split == Some(Axis::Vertical)
            &&& !a.contains_key("split"@) ==> o.split is None
            &&& given("scale"@, JsonView::Float(n)) ==> o.scale == FigureView::Double(n)
        }),
{
    lemma_conversation_members_differ();
}

/// What a call plans is what its tool asks for: a list, a picture, or a request for the instance
/// that the arguments name.
pub proof fn law_calls_are_planned(params: Option<&serde_json::Value>, r: Plan)
    requires
        call_ensures(tools_call, (params,), r),
    ensures
        r is List <==> called(opt_json(params)) is List,
        r is Shot <==> called(opt_json(params)) is Shot,
        r is Fail <==> called(opt_json(params)) is Fail,
        r matches Plan::Fail(e) ==> called(opt_json(params)) == PlanView::Fail(e@),
        r matches Plan::Send { sock, pid, request } ==> (called(opt_json(params))
            matches PlanView::Send { sock: s, pid: p, request: q } && opt_text(sock) == s && pid == p
            && json_view(request) == q),
{
}

} // verus!
