//! The control socket: requests as one JSON object per line, one reply line each.

use vstd::prelude::*;
use crate::json::{
    boolean, coordinate, coordinate_parsed, flag_member, flag_of, float_bits_or_zero,
    float_member_or_zero, is_plain, json_parsed, json_rendered, json_view, json_views, object, parse, put,
    render, set_member, text, text_member, text_member_of, text_member_or_empty, text_or_empty,
    unsigned, unsigned_member, unsigned_member_of, unsigned_member_or_zero, unsigned_or_zero,
    JsonView,
};
use crate::paths::{below, file_stem, join, last_dot, stem};
use crate::text::{
    concat3, contains, contains_text, decimal, from_chars, lemma_append_assoc, lemma_decimal,
    lemma_parse_result, opt_text, parse_result, parse_up_to, push_decimal, quoted, quoted_of, same, texts, to_chars, trim, trim_of,
};

verus! {

broadcast use vstd::seq_lib::group_seq_properties;

/// The bits of a coordinate in logical pixels, an IEEE 754 double.
#[derive(Clone, Copy, Debug, PartialEq, Eq, Structural)]
pub struct Coord {
    pub bits: u64,
}

/// How far to scroll back.
#[derive(Clone, Copy, Debug, PartialEq, Eq, Structural)]
pub enum ScrollAmount {
    Lines(i32),
    PageUp,
    PageDown,
    Top,
    Bottom,
}

/// Where a tab is moved to.
#[derive(Clone, Copy, Debug, PartialEq, Eq, Structural)]
pub enum MoveTabTarget {
    New,
    /// An open window, counted from 1.
    Window(usize),
    Next,
    Prev,
}

/// Where a pane is moved to: a tab of its own, or a window of its own.
#[derive(Clone, Copy, Debug, PartialEq, Eq, Structural)]
pub enum PromotePaneTarget {
    Tab,
    Window,
}

/// A command for the event loop.
#[derive(Debug, PartialEq, Eq)]
pub enum ControlMsg {
    /// Types text into the focused session.
    Type(String),
    /// Presses a named key.
    Key(String),
    /// Runs a chord like `cmd+d`.
    Chord(String),
    /// Asks for the state of all windows.
    State,
    /// Focuses the first tab of any window whose title contains the text.
    Focus(String),
    Raise,
    /// Saves a picture of the window under the path.
    Screenshot(String),
    Click(Coord, Coord),
    About,
    Settings,
    /// Selects from row and column to row and column, by `simple`, `word` or `line`.
    Select(u16, u16, u16, u16, String),
    Copy,
    Paste(String),
    Fps,
    /// Rings the bell of a tab, or of the focused pane.
    Bell(Option<usize>),
    ReorderTab(usize, usize),
    RenameTab(usize, String),
    EditTab(usize),
    Scroll(ScrollAmount),
    NewWindow,
    MoveTab(MoveTabTarget),
    PromotePane(PromotePaneTarget),
    MergeTab,
    /// Drags from one point to another in steps, with modifiers held; released or called off.
    Drag {
        x1: Coord,
        y1: Coord,
        x2: Coord,
        y2: Coord,
        steps: usize,
        mods: String,
        cancel: bool,
    },
}

/// What a command says.
pub enum MsgView {
    Type(Seq<char>),
    Key(Seq<char>),
    Chord(Seq<char>),
    State,
    Focus(Seq<char>),
    Raise,
    Screenshot(Seq<char>),
    Click(Coord, Coord),
    About,
    Settings,
    Select(u16, u16, u16, u16, Seq<char>),
    Copy,
    Paste(Seq<char>),
    Fps,
    Bell(Option<usize>),
    ReorderTab(usize, usize),
    RenameTab(usize, Seq<char>),
    EditTab(usize),
    Scroll(ScrollAmount),
    NewWindow,
    MoveTab(MoveTabTarget),
    PromotePane(PromotePaneTarget),
    MergeTab,
    Drag {
        x1: Coord,
        y1: Coord,
        x2: Coord,
        y2: Coord,
        steps: usize,
        mods: Seq<char>,
        cancel: bool,
    },
}

impl ControlMsg {
    pub open spec fn view(&self) -> MsgView {
        match *self {
            ControlMsg::Type(s) => MsgView::Type(s@),
            ControlMsg::Key(s) => MsgView::Key(s@),
            ControlMsg::Chord(s) => MsgView::Chord(s@),
            ControlMsg::State => MsgView::State,
            ControlMsg::Focus(s) => MsgView::Focus(s@),
            ControlMsg::Raise => MsgView::Raise,
            ControlMsg::Screenshot(s) => MsgView::Screenshot(s@),
            ControlMsg::Click(x, y) => MsgView::Click(x, y),
            ControlMsg::About => MsgView::About,
            ControlMsg::Settings => MsgView::Settings,
            ControlMsg::Select(r1, c1, r2, c2, s) => MsgView::Select(r1, c1, r2, c2, s@),
            ControlMsg::Copy => MsgView::Copy,
            ControlMsg::Paste(s) => MsgView::Paste(s@),
            ControlMsg::Fps => MsgView::Fps,
            ControlMsg::Bell(t) => MsgView::Bell(t),
            ControlMsg::ReorderTab(a, b) => MsgView::ReorderTab(a, b),
            ControlMsg::RenameTab(i, s) => MsgView::RenameTab(i, s@),
            ControlMsg::EditTab(i) => MsgView::EditTab(i),
            ControlMsg::Scroll(a) => MsgView::Scroll(a),
            ControlMsg::NewWindow => MsgView::NewWindow,
            ControlMsg::MoveTab(t) => MsgView::MoveTab(t),
            ControlMsg::PromotePane(t) => MsgView::PromotePane(t),
            ControlMsg::MergeTab => MsgView::MergeTab,
            ControlMsg::Drag { x1, y1, x2, y2, steps, mods, cancel } => MsgView::Drag {
                x1,
                y1,
                x2,
                y2,
                steps,
                mods: mods@,
                cancel,
            },
        }
    }
}

// ---- replies ---------------------------------------------------------------

/// The reply to a command that was taken.
pub fn ok() -> (r: String)
    ensures
        r@ == "{\"ok\":true}"@,
{
    "{\"ok\":true}".to_owned()
}

/// `{"ok":false,"error":msg}`.
pub open spec fn failure(msg: Seq<char>) -> JsonView {
    put(
        put(JsonView::Object(Map::empty()), "ok"@, JsonView::Bool(false)),
        "error"@,
        JsonView::Text(msg),
    )
}

/// The reply that reports an error. Whatever the message holds, the reply is JSON that gives the
/// message back.
pub fn err(msg: &str) -> (r: String)
    ensures
        r@ == json_rendered(failure(msg@)),
        json_parsed(r@) == Ok::<JsonView, Seq<char>>(failure(msg@)),
{
    let mut v = object();
    set_member(&mut v, "ok", boolean(false));
    set_member(&mut v, "error", text(msg));
    proof {
        reveal_with_fuel(is_plain, 2);
        assert(is_plain(json_view(v), 100));
    }
    render(&v)
}

/// A question whose answer the socket waits for.
#[derive(Clone, Copy, Debug, PartialEq, Eq, Structural)]
pub enum Question {
    State,
    Screenshot,
    Focus,
    MoveTab,
    PromotePane,
    MergeTab,
    Drag,
}

impl Question {
    pub open spec fn spec_name(self) -> Seq<char> {
        match self {
            Question::State => "state"@,
            Question::Screenshot => "screenshot"@,
            Question::Focus => "focus"@,
            Question::MoveTab => "move-tab"@,
            Question::PromotePane => "promote-pane"@,
            Question::MergeTab => "merge-tab"@,
            Question::Drag => "drag"@,
        }
    }

    pub fn name(&self) -> (r: &'static str)
        ensures
            r@ == self.spec_name(),
    {
        match self {
            Question::State => "state",
            Question::Screenshot => "screenshot",
            Question::Focus => "focus",
            Question::MoveTab => "move-tab",
            Question::PromotePane => "promote-pane",
            Question::MergeTab => "merge-tab",
            Question::Drag => "drag",
        }
    }

    pub open spec fn spec_seconds(self) -> u64 {
        match self {
            Question::Screenshot => 15,
            Question::Drag => 5,
            _ => 2,
        }
    }

    /// How long to wait for the answer.
    pub fn seconds(&self) -> (r: u64)
        ensures
            r == self.spec_seconds(),
    {
        match self {
            Question::Screenshot => 15,
            Question::Drag => 5,
            _ => 2,
        }
    }
}

/// What came back for a question.
#[derive(Debug, PartialEq, Eq)]
pub enum Answer {
    /// The event loop takes no commands any more.
    Gone,
    TimedOut,
    Reply(String),
}

pub open spec fn answer_text(q: Question, a: Answer) -> Seq<char> {
    match a {
        Answer::Gone => json_rendered(failure("event loop gone"@)),
        Answer::TimedOut => json_rendered(failure(q.spec_name() + " timeout"@)),
        Answer::Reply(s) => if q == Question::State {
            "{\"ok\":true,\"state\":"@ + s@ + "}"@
        } else {
            s@
        },
    }
}

/// The reply line for what came back. A state is wrapped, every other answer is a reply already.
pub fn finish(q: Question, a: Answer) -> (r: String)
    ensures
        r@ == answer_text(q, a),
{
    match a {
        Answer::Gone => err("event loop gone"),
        Answer::TimedOut => {
            let mut msg = q.name().to_owned();
            msg.append(" timeout");
            err(msg.as_str())
        },
        Answer::Reply(s) => {
            if q == Question::State {
                concat3("{\"ok\":true,\"state\":", s.as_str(), "}")
            } else {
                s
            }
        },
    }
}

// ---- requests --------------------------------------------------------------

/// What is done with a request line.
#[derive(Debug, PartialEq, Eq)]
pub enum Dispatch {
    /// Answer at once.
    Reply(String),
    /// Hand the command on and answer that it was taken.
    Send(ControlMsg),
    /// Hand the command on, wake the event loop and wait for its answer.
    Ask(ControlMsg, Question),
}

pub enum DispatchView {
    Reply(Seq<char>),
    Send(MsgView),
    Ask(MsgView, Question),
}

impl Dispatch {
    pub open spec fn view(&self) -> DispatchView {
        match *self {
            Dispatch::Reply(s) => DispatchView::Reply(s@),
            Dispatch::Send(m) => DispatchView::Send(m@),
            Dispatch::Ask(m, q) => DispatchView::Ask(m@, q),
        }
    }
}

pub open spec fn refuse(msg: Seq<char>) -> DispatchView {
    DispatchView::Reply(json_rendered(failure(msg)))
}

fn refused(msg: &str) -> (r: Dispatch)
    ensures
        r@ == refuse(msg@),
{
    Dispatch::Reply(err(msg))
}

/// Where the argument of `move-tab` leads; `None` for anything else.
pub open spec fn move_target(to: Seq<char>) -> Option<MoveTabTarget> {
    if to == "new"@ {
        Some(MoveTabTarget::New)
    } else if to == "next"@ {
        Some(MoveTabTarget::Next)
    } else if to == "prev"@ {
        Some(MoveTabTarget::Prev)
    } else {
        match parse_result(to, usize::MAX as nat) {
            Ok(n) => if n >= 1 {
                Some(MoveTabTarget::Window(n as usize))
            } else {
                None
            },
            Err(_) => None,
        }
    }
}

fn read_move_target(to: &str) -> (r: Option<MoveTabTarget>)
    ensures
        r == move_target(to@),
{
    if same(to, "new") {
        Some(MoveTabTarget::New)
    } else if same(to, "next") {
        Some(MoveTabTarget::Next)
    } else if same(to, "prev") {
        Some(MoveTabTarget::Prev)
    } else {
        match parse_up_to(to, usize::MAX as u64) {
            Ok(n) => {
                if n >= 1 {
                    Some(MoveTabTarget::Window(n as usize))
                } else {
                    None
                }
            },
            Err(_) => None,
        }
    }
}

/// A signed number: an optional sign and digits, within the range of `i32`.
pub open spec fn signed_value(s: Seq<char>) -> Option<int> {
    if s.len() > 0 && s[0] == '-' {
        match parse_result(s.skip(1), 2147483648) {
            Ok(n) => if s[1] == '+' { None } else { Some(-(n as int)) },
            Err(_) => None,
        }
    } else {
        match parse_result(s, 2147483647) {
            Ok(n) => Some(n as int),
            Err(_) => None,
        }
    }
}

/// Reads a signed number.
pub fn parse_i32(s: &str) -> (r: Option<i32>)
    ensures
        match r {
            Some(n) => signed_value(s@) == Some(n as int),
            None => signed_value(s@) is None,
        },
{
    let chars = to_chars(s);
    if chars.len() > 0 && chars[0] == '-' {
        let n: usize = chars.len();
        let rest = from_chars(vstd::slice::slice_subrange(chars.as_slice(), 1, n));
        assert(rest@ == s@.skip(1));
        match parse_up_to(rest.as_str(), 2147483648) {
            Ok(v) => {
                if n > 1 && chars[1] == '+' {
                    None
                } else {
                    let neg: i64 = -(v as i64);
                    Some(neg as i32)
                }
            },
            Err(_) => None,
        }
    } else {
        match parse_up_to(s, 2147483647) {
            Ok(v) => Some(v as i32),
            Err(_) => None,
        }
    }
}

/// How far the argument of `scroll` leads; `None` for anything else.
pub open spec fn scroll_amount(dir: Seq<char>) -> Option<ScrollAmount> {
    if dir == "top"@ {
        Some(ScrollAmount::Top)
    } else if dir == "bottom"@ {
        Some(ScrollAmount::Bottom)
    } else if dir == "page-up"@ || dir == "pageup"@ {
        Some(ScrollAmount::PageUp)
    } else if dir == "page-down"@ || dir == "pagedown"@ {
        Some(ScrollAmount::PageDown)
    } else {
        match signed_value(dir) {
            Some(n) => Some(ScrollAmount::Lines(n as i32)),
            None => None,
        }
    }
}

fn read_scroll_amount(dir: &str) -> (r: Option<ScrollAmount>)
    ensures
        r == scroll_amount(dir@),
{
    if same(dir, "top") {
        Some(ScrollAmount::Top)
    } else if same(dir, "bottom") {
        Some(ScrollAmount::Bottom)
    } else if same(dir, "page-up") || same(dir, "pageup") {
        Some(ScrollAmount::PageUp)
    } else if same(dir, "page-down") || same(dir, "pagedown") {
        Some(ScrollAmount::PageDown)
    } else {
        match parse_i32(dir) {
            Some(n) => Some(ScrollAmount::Lines(n)),
            None => None,
        }
    }
}

pub open spec fn coord(v: JsonView, key: Seq<char>) -> Coord {
    Coord { bits: float_bits_or_zero(v, key) }
}

fn read_coord(v: &serde_json::Value, key: &str) -> (r: Coord)
    ensures
        r == coord(json_view(*v), key@),
{
    Coord { bits: float_member_or_zero(v, key) }
}

/// An unsigned member as an index; zero where there is none.
pub open spec fn index_member(v: JsonView, key: Seq<char>) -> usize {
    unsigned_or_zero(v, key) as usize
}

fn read_index(v: &serde_json::Value, key: &str) -> (r: usize)
    ensures
        r == index_member(json_view(*v), key@),
{
    unsigned_member_or_zero(v, key) as usize
}

/// An unsigned member as a row or a column, cut to 16 bits; zero where there is none.
pub open spec fn cell_member(v: JsonView, key: Seq<char>) -> u16 {
    unsigned_or_zero(v, key) as u16
}

fn read_cell(v: &serde_json::Value, key: &str) -> (r: u16)
    ensures
        r == cell_member(json_view(*v), key@),
{
    #[verifier::truncate]
    (unsigned_member_or_zero(v, key) as u16)
}

pub open spec fn text_or(v: JsonView, key: Seq<char>, default: Seq<char>) -> Seq<char> {
    match text_member_of(v, key) {
        Some(s) => s,
        None => default,
    }
}

/// What is done with the request `v`. `shot` is where a picture goes that names no path.
pub open spec fn dispatched(v: JsonView, shot: Seq<char>) -> DispatchView {
    let cmd = text_or_empty(v, "cmd"@);
    if cmd == "type"@ {
        DispatchView::Send(MsgView::Type(text_or_empty(v, "text"@)))
    } else if cmd == "key"@ {
        DispatchView::Send(MsgView::Key(text_or_empty(v, "name"@)))
    } else if cmd == "chord"@ {
        DispatchView::Send(MsgView::Chord(text_or_empty(v, "keys"@)))
    } else if cmd == "state"@ {
        DispatchView::Ask(MsgView::State, Question::State)
    } else if cmd == "screenshot"@ {
        DispatchView::Ask(MsgView::Screenshot(text_or(v, "path"@, shot)), Question::Screenshot)
    } else if cmd == "focus"@ {
        match text_member_of(v, "query"@) {
            Some(q) => DispatchView::Ask(MsgView::Focus(q), Question::Focus),
            None => refuse("focus needs a query"@),
        }
    } else if cmd == "raise"@ {
        DispatchView::Send(MsgView::Raise)
    } else if cmd == "click"@ {
        DispatchView::Send(MsgView::Click(coord(v, "x"@), coord(v, "y"@)))
    } else if cmd == "about"@ {
        DispatchView::Send(MsgView::About)
    } else if cmd == "new-window"@ {
        DispatchView::Send(MsgView::NewWindow)
    } else if cmd == "move-tab"@ {
        match move_target(text_or_empty(v, "to"@)) {
            Some(t) => DispatchView::Ask(MsgView::MoveTab(t), Question::MoveTab),
            None => refuse("move-tab: to = new|next|prev|<1-based window number>"@),
        }
    } else if cmd == "promote-pane"@ {
        let to = text_or_empty(v, "to"@);
        if to == "tab"@ {
            DispatchView::Ask(MsgView::PromotePane(PromotePaneTarget::Tab), Question::PromotePane)
        } else if to == "window"@ {
            DispatchView::Ask(
                MsgView::PromotePane(PromotePaneTarget::Window),
                Question::PromotePane,
            )
        } else {
            refuse("promote-pane: to = tab|window"@)
        }
    } else if cmd == "merge-tab"@ {
        DispatchView::Ask(MsgView::MergeTab, Question::MergeTab)
    } else if cmd == "settings"@ {
        DispatchView::Send(MsgView::Settings)
    } else if cmd == "select"@ {
        DispatchView::Send(
            MsgView::Select(
                cell_member(v, "r1"@),
                cell_member(v, "c1"@),
                cell_member(v, "r2"@),
                cell_member(v, "c2"@),
                text_or(v, "mode"@, "simple"@),
            ),
        )
    } else if cmd == "copy"@ {
        DispatchView::Send(MsgView::Copy)
    } else if cmd == "paste"@ {
        DispatchView::Send(MsgView::Paste(text_or_empty(v, "text"@)))
    } else if cmd == "fps"@ {
        DispatchView::Send(MsgView::Fps)
    } else if cmd == "scroll"@ {
        match scroll_amount(text_or_empty(v, "dir"@)) {
            Some(a) => DispatchView::Send(MsgView::Scroll(a)),
            None => refuse("scroll: dir = top|bottom|page-up|page-down|<lines>"@),
        }
    } else if cmd == "bell"@ {
        DispatchView::Send(
            MsgView::Bell(
                match unsigned_member_of(v, "tab"@) {
                    Some(n) => Some(n as usize),
                    None => None,
                },
            ),
        )
    } else if cmd == "reorder-tab"@ {
        DispatchView::Send(MsgView::ReorderTab(index_member(v, "from"@), index_member(v, "to"@)))
    } else if cmd == "rename-tab"@ {
        DispatchView::Send(MsgView::RenameTab(index_member(v, "i"@), text_or_empty(v, "name"@)))
    } else if cmd == "edit-tab"@ {
        DispatchView::Send(MsgView::EditTab(index_member(v, "i"@)))
    } else if cmd == "drag"@ {
        DispatchView::Ask(
            MsgView::Drag {
                x1: coord(v, "x1"@),
                y1: coord(v, "y1"@),
                x2: coord(v, "x2"@),
                y2: coord(v, "y2"@),
                steps: match unsigned_member_of(v, "steps"@) {
                    Some(n) => n as usize,
                    None => 8,
                },
                mods: text_or_empty(v, "mods"@),
                cancel: flag_of(v, "cancel"@),
            },
            Question::Drag,
        )
    } else {
        refuse("unknown cmd: "@ + cmd)
    }
}

/// Decides what is done with a request. `shot` is where a picture goes that names no path.
pub fn dispatch_value(v: &serde_json::Value, shot: &str) -> (r: Dispatch)
    ensures
        r@ == dispatched(json_view(*v), shot@),
{
    let cmd_text = text_member_or_empty(v, "cmd");
    let cmd = cmd_text.as_str();
    if same(cmd, "type") {
        Dispatch::Send(ControlMsg::Type(text_member_or_empty(v, "text")))
    } else if same(cmd, "key") {
        Dispatch::Send(ControlMsg::Key(text_member_or_empty(v, "name")))
    } else if same(cmd, "chord") {
        Dispatch::Send(ControlMsg::Chord(text_member_or_empty(v, "keys")))
    } else if same(cmd, "state") {
        Dispatch::Ask(ControlMsg::State, Question::State)
    } else if same(cmd, "screenshot") {
        let path = match text_member(v, "path") {
            Some(p) => p,
            None => shot.to_owned(),
        };
        Dispatch::Ask(ControlMsg::Screenshot(path), Question::Screenshot)
    } else if same(cmd, "focus") {
        match text_member(v, "query") {
            Some(q) => Dispatch::Ask(ControlMsg::Focus(q), Question::Focus),
            None => refused("focus needs a query"),
        }
    } else if same(cmd, "raise") {
        Dispatch::Send(ControlMsg::Raise)
    } else if same(cmd, "click") {
        Dispatch::Send(ControlMsg::Click(read_coord(v, "x"), read_coord(v, "y")))
    } else if same(cmd, "about") {
        Dispatch::Send(ControlMsg::About)
    } else if same(cmd, "new-window") {
        Dispatch::Send(ControlMsg::NewWindow)
    } else if same(cmd, "move-tab") {
        match read_move_target(text_member_or_empty(v, "to").as_str()) {
            Some(t) => Dispatch::Ask(ControlMsg::MoveTab(t), Question::MoveTab),
            None => refused("move-tab: to = new|next|prev|<1-based window number>"),
        }
    } else if same(cmd, "promote-pane") {
        let to = text_member_or_empty(v, "to");
        if same(to.as_str(), "tab") {
            Dispatch::Ask(
                ControlMsg::PromotePane(PromotePaneTarget::Tab),
                Question::PromotePane,
            )
        } else if same(to.as_str(), "window") {
            Dispatch::Ask(
                ControlMsg::PromotePane(PromotePaneTarget::Window),
                Question::PromotePane,
            )
        } else {
            refused("promote-pane: to = tab|window")
        }
    } else if same(cmd, "merge-tab") {
        Dispatch::Ask(ControlMsg::MergeTab, Question::MergeTab)
    } else if same(cmd, "settings") {
        Dispatch::Send(ControlMsg::Settings)
    } else if same(cmd, "select") {
        let mode = match text_member(v, "mode") {
            Some(m) => m,
            None => "simple".to_owned(),
        };
        Dispatch::Send(
            ControlMsg::Select(
                read_cell(v, "r1"),
                read_cell(v, "c1"),
                read_cell(v, "r2"),
                read_cell(v, "c2"),
                mode,
            ),
        )
    } else if same(cmd, "copy") {
        Dispatch::Send(ControlMsg::Copy)
    } else if same(cmd, "paste") {
        Dispatch::Send(ControlMsg::Paste(text_member_or_empty(v, "text")))
    } else if same(cmd, "fps") {
        Dispatch::Send(ControlMsg::Fps)
    } else if same(cmd, "scroll") {
        match read_scroll_amount(text_member_or_empty(v, "dir").as_str()) {
            Some(a) => Dispatch::Send(ControlMsg::Scroll(a)),
            None => refused("scroll: dir = top|bottom|page-up|page-down|<lines>"),
        }
    } else if same(cmd, "bell") {
        let tab = match unsigned_member(v, "tab") {
            Some(n) => Some(n as usize),
            None => None,
        };
        Dispatch::Send(ControlMsg::Bell(tab))
    } else if same(cmd, "reorder-tab") {
        Dispatch::Send(ControlMsg::ReorderTab(read_index(v, "from"), read_index(v, "to")))
    } else if same(cmd, "rename-tab") {
        Dispatch::Send(
            ControlMsg::RenameTab(read_index(v, "i"), text_member_or_empty(v, "name")),
        )
    } else if same(cmd, "edit-tab") {
        Dispatch::Send(ControlMsg::EditTab(read_index(v, "i")))
    } else if same(cmd, "drag") {
        let steps: usize = match unsigned_member(v, "steps") {
            Some(n) => n as usize,
            None => 8,
        };
        Dispatch::Ask(
            ControlMsg::Drag {
                x1: read_coord(v, "x1"),
                y1: read_coord(v, "y1"),
                x2: read_coord(v, "x2"),
                y2: read_coord(v, "y2"),
                steps,
                mods: text_member_or_empty(v, "mods"),
                cancel: flag_member(v, "cancel"),
            },
            Question::Drag,
        )
    } else {
        let mut msg = "unknown cmd: ".to_owned();
        msg.append(cmd);
        refused(msg.as_str())
    }
}

/// What is done with a request line, given what came of reading it as JSON.
pub open spec fn answered(parsed: Result<JsonView, Seq<char>>, shot: Seq<char>) -> DispatchView {
    match parsed {
        Ok(v) => dispatched(v, shot),
        Err(e) => refuse("bad json: "@ + e),
    }
}

/// Reads one request line and decides what is done with it.
pub fn dispatch(line: &str, shot: &str) -> (r: Dispatch)
    ensures
        r@ == answered(json_parsed(trim_of(line@)), shot@),
{
    match parse(trim(line).as_str()) {
        Ok(v) => dispatch_value(&v, shot),
        Err(e) => {
            let mut msg = "bad json: ".to_owned();
            msg.append(e.as_str());
            refused(msg.as_str())
        },
    }
}

/// A refused request line is answered with JSON that names the reason.
pub proof fn law_refusals_do_not_reach_the_event_loop(
    parsed: Result<JsonView, Seq<char>>,
    shot: Seq<char>,
)
    requires
        answered(parsed, shot) is Reply,
    ensures
        exists|msg: Seq<char>| #[trigger] refuse(msg) == answered(parsed, shot),
{
    let said = answered(parsed, shot);
    match parsed {
        Err(e) => {
            assert(said == refuse("bad json: "@ + e));
        },
        Ok(v) => {
            if said == refuse("focus needs a query"@) {
            } else if said == refuse("move-tab: to = new|next|prev|<1-based window number>"@) {
            } else if said == refuse("promote-pane: to = tab|window"@) {
            } else if said == refuse("scroll: dir = top|bottom|page-up|page-down|<lines>"@) {
            } else {
                assert(said == refuse("unknown cmd: "@ + text_or_empty(v, "cmd"@)));
            }
        },
    }
}

// ---- sockets ---------------------------------------------------------------

/// The socket of the process `pid` in the socket directory `dir`.
pub open spec fn socket_of(dir: Seq<char>, pid: u32) -> Seq<char> {
    below(dir, decimal(pid as nat) + ".sock"@)
}

/// The directory for sockets, given `TMPDIR`.
pub fn socket_dir(tmpdir: Option<&str>) -> (r: String)
    ensures
        r@ == below(
            match tmpdir {
                Some(d) => d@,
                None => "/tmp"@,
            },
            "ember-ctl"@,
        ),
{
    match tmpdir {
        Some(d) => join(d, "ember-ctl"),
        None => join("/tmp", "ember-ctl"),
    }
}

/// The socket of the process `pid` in the socket directory `dir`.
pub fn pid_socket(dir: &str, pid: u32) -> (r: String)
    ensures
        r@ == socket_of(dir@, pid),
{
    let mut name = String::new();
    push_decimal(&mut name, pid as u64);
    name.append(".sock");
    join(dir, name.as_str())
}

/// Where a picture goes that names no path: into the socket directory, which is the user's own.
pub fn default_shot(dir: &str, pid: u32) -> (r: String)
    ensures
        r@ == below(dir@, decimal(pid as nat) + "-live.png"@),
{
    let mut name = String::new();
    push_decimal(&mut name, pid as u64);
    name.append("-live.png");
    join(dir, name.as_str())
}

/// The socket to bind for the value of `EMBER_CONTROL`: a value with a `/` is the path itself.
pub open spec fn bound_socket(env_val: Seq<char>, dir: Seq<char>, pid: u32) -> Seq<char> {
    if env_val.contains('/') {
        env_val
    } else {
        socket_of(dir, pid)
    }
}

/// The socket to bind for the value of `EMBER_CONTROL`.
pub fn server_bind_path(env_val: &str, dir: &str, pid: u32) -> (r: String)
    ensures
        r@ == bound_socket(env_val@, dir@, pid),
{
    let slash = "/";
    let has = contains(env_val, slash);
    proof {
        reveal_strlit("/");
        assert(slash@ == seq!['/']);
        if contains_text(env_val@, slash@) {
            let at = choose|at: int| crate::text::occurs_at(env_val@, at, slash@);
            assert(env_val@.subrange(at, at + 1)[0] == slash@[0]);
            assert(env_val@[at] == '/');
        }
        if env_val@.contains('/') {
            let at = choose|at: int| 0 <= at < env_val@.len() && env_val@[at] == '/';
            assert(env_val@.subrange(at, at + 1) == slash@);
            assert(crate::text::occurs_at(env_val@, at, slash@));
        }
    }
    if has {
        env_val.to_owned()
    } else {
        pid_socket(dir, pid)
    }
}

/// A listening control socket.
#[derive(Debug, PartialEq, Eq)]
pub struct ControlServer {
    bind_path: String,
}

impl ControlServer {
    pub closed spec fn spec_path(self) -> Seq<char> {
        self.bind_path@
    }

    pub fn new(bind_path: String) -> (r: ControlServer)
        ensures
            r.spec_path() == bind_path@,
    {
        ControlServer { bind_path }
    }

    /// The socket that clients connect to.
    pub fn path(&self) -> (r: &str)
        ensures
            r@ == self.spec_path(),
    {
        self.bind_path.as_str()
    }
}

/// A process number, cut to 32 bits.
pub fn client_pid(p: u64) -> (r: u32)
    ensures
        r == p as u32,
{
    #[verifier::truncate]
    (p as u32)
}

/// The process that a socket file belongs to by its name.
pub open spec fn pid_of_name(name: Seq<char>) -> Option<nat> {
    match parse_result(stem(name), u32::MAX as nat) {
        Ok(n) => Some(n),
        Err(_) => None,
    }
}

/// The process that a socket file belongs to by its name.
pub fn instance_pid(name: &str) -> (r: Option<u32>)
    ensures
        match r {
            Some(p) => pid_of_name(name@) == Some(p as nat),
            None => pid_of_name(name@) is None,
        },
{
    match parse_up_to(file_stem(name).as_str(), u32::MAX as u64) {
        Ok(n) => Some(n as u32),
        Err(_) => None,
    }
}

/// The name of a socket file gives back the process that it was made for.
pub proof fn law_socket_names_give_their_process(pid: u32)
    ensures
        pid_of_name(decimal(pid as nat) + ".sock"@) == Some(pid as nat),
{
    let digits = decimal(pid as nat);
    let name = digits + ".sock"@;
    reveal_strlit(".sock");
    reveal_with_fuel(last_dot, 6);
    let n = digits.len() as int;
    assert(name.len() == n + 5);
    let s1 = name.drop_last();
    let s2 = s1.drop_last();
    let s3 = s2.drop_last();
    let s4 = s3.drop_last();
    assert(name.last() == 'k' && s1.last() == 'c' && s2.last() == 'o' && s3.last() == 's'
        && s4.last() == '.');
    assert(last_dot(name) == Some(n));
    lemma_decimal(pid as nat);
    assert(stem(name) == digits);
    lemma_parse_result(digits, u32::MAX as nat);
}

/// A client that names the process of a running program finds the socket that the program bound,
/// wherever the program was not given a path of its own.
pub proof fn law_clients_find_the_socket(env_val: Seq<char>, dir: Seq<char>, pid: u32, live: Seq<(u32, Seq<char>)>)
    requires
        !env_val.contains('/'),
    ensures
        chosen_socket(None, Some(pid), dir, live) == Ok::<Seq<char>, Seq<char>>(
            bound_socket(env_val, dir, pid),
        ),
{
}

/// A socket file with the process in its name, and whether something listens on it.
#[derive(Debug, PartialEq, Eq)]
pub struct Probe {
    pub pid: u32,
    pub path: String,
    pub alive: bool,
}

/// The running instances by process, and the socket files that nobody listens on.
#[derive(Debug, PartialEq, Eq)]
pub struct Instances {
    pub live: Vec<(u32, String)>,
    pub stale: Vec<String>,
}

pub open spec fn insert_by_pid(s: Seq<(u32, Seq<char>)>, x: (u32, Seq<char>)) -> Seq<
    (u32, Seq<char>),
>
    decreases s.len(),
{
    if s.len() == 0 || s.last().0 <= x.0 {
        s.push(x)
    } else {
        insert_by_pid(s.drop_last(), x).push(s.last())
    }
}

/// Those that listen, by ascending process.
pub open spec fn live_of(probes: Seq<Probe>) -> Seq<(u32, Seq<char>)>
    decreases probes.len(),
{
    if probes.len() == 0 {
        Seq::empty()
    } else if probes.last().alive {
        insert_by_pid(live_of(probes.drop_last()), (probes.last().pid, probes.last().path@))
    } else {
        live_of(probes.drop_last())
    }
}

/// Those that do not listen, in their order.
pub open spec fn stale_of(probes: Seq<Probe>) -> Seq<Seq<char>>
    decreases probes.len(),
{
    if probes.len() == 0 {
        Seq::empty()
    } else if probes.last().alive {
        stale_of(probes.drop_last())
    } else {
        stale_of(probes.drop_last()).push(probes.last().path@)
    }
}

pub open spec fn live_view(v: Seq<(u32, String)>) -> Seq<(u32, Seq<char>)> {
    v.map_values(|p: (u32, String)| (p.0, p.1@))
}

/// Where an item belongs: behind the last one that is not above it.
proof fn lemma_insert_by_pid(s: Seq<(u32, Seq<char>)>, x: (u32, Seq<char>), at: int)
    requires
        0 <= at <= s.len(),
        at == 0 || s[at - 1].0 <= x.0,
        forall|j: int| at <= j < s.len() ==> (#[trigger] s[j]).0 > x.0,
    ensures
        insert_by_pid(s, x) == s.insert(at, x),
    decreases s.len(),
{
    if at < s.len() {
        let init = s.drop_last();
        assert(s.last() == s[s.len() - 1]);
        assert(forall|j: int| 0 <= j < init.len() ==> init[j] == s[j]);
        lemma_insert_by_pid(init, x, at);
        assert(init.insert(at, x).push(s.last()) =~= s.insert(at, x));
    } else {
        assert(s.push(x) =~= s.insert(at, x));
    }
}

fn insert_live(live: &mut Vec<(u32, String)>, pid: u32, path: String)
    ensures
        live_view(final(live)@) == insert_by_pid(live_view(old(live)@), (pid, path@)),
{
    let mut i: usize = live.len();
    while i > 0 && live[i - 1].0 > pid
        invariant
            i <= live@.len(),
            live@ == old(live)@,
            forall|j: int| i <= j < live@.len() ==> (#[trigger] live@[j]).0 > pid,
        decreases i,
    {
        i -= 1;
    }
    let ghost all = live_view(live@);
    let ghost x = (pid, path@);
    live.insert(i, (pid, path));
    proof {
        assert(forall|j: int| 0 <= j < all.len() ==> all[j].0 == old(live)@[j].0);
        lemma_insert_by_pid(all, x, i as int);
        assert(live_view(live@) =~= all.insert(i as int, x));
    }
}

/// Sorts the socket files that name a process into running instances and leftovers.
pub fn list_instances(probes: &[Probe]) -> (r: Instances)
    ensures
        live_view(r.live@) == live_of(probes@),
        texts(r.stale@) == stale_of(probes@),
{
    let mut live: Vec<(u32, String)> = Vec::new();
    let mut stale: Vec<String> = Vec::new();
    let mut i: usize = 0;
    while i < probes.len()
        invariant
            i <= probes@.len(),
            live_view(live@) == live_of(probes@.take(i as int)),
            texts(stale@) == stale_of(probes@.take(i as int)),
        decreases probes@.len() - i,
    {
        assert(probes@.take(i + 1).drop_last() == probes@.take(i as int));
        assert(probes@.take(i + 1).last() == probes@[i as int]);
        let p = &probes[i];
        if p.alive {
            insert_live(&mut live, p.pid, p.path.clone());
        } else {
            let ghost before = stale@;
            stale.push(p.path.clone());
            assert(texts(stale@) == texts(before).push(p.path@));
        }
        i += 1;
    }
    assert(probes@.take(i as int) == probes@);
    Instances { live, stale }
}

/// The processes of `live`, separated by commas.
pub open spec fn pid_list(live: Seq<(u32, Seq<char>)>) -> Seq<char>
    decreases live.len(),
{
    if live.len() == 0 {
        Seq::empty()
    } else if live.len() == 1 {
        decimal(live[0].0 as nat)
    } else {
        pid_list(live.drop_last()) + ", "@ + decimal(live.last().0 as nat)
    }
}

fn list_pids(live: &[(u32, String)]) -> (r: String)
    ensures
        r@ == pid_list(live_view(live@)),
{
    let mut out = String::new();
    let mut i: usize = 0;
    while i < live.len()
        invariant
            i <= live@.len(),
            out@ == pid_list(live_view(live@).take(i as int)),
        decreases live@.len() - i,
    {
        let ghost next = live_view(live@).take(i + 1);
        assert(next.drop_last() == live_view(live@).take(i as int));
        assert(next.last().0 == live@[i as int].0);
        if i > 0 {
            out.append(", ");
        }
        push_decimal(&mut out, live[i].0 as u64);
        i += 1;
    }
    assert(live_view(live@).take(i as int) == live_view(live@));
    out
}

pub open spec fn chosen_socket(
    sock: Option<Seq<char>>,
    pid: Option<u32>,
    dir: Seq<char>,
    live: Seq<(u32, Seq<char>)>,
) -> Result<Seq<char>, Seq<char>> {
    match (sock, pid) {
        (Some(s), _) => Ok(s),
        (None, Some(p)) => Ok(socket_of(dir, p)),
        (None, None) => if live.len() == 1 {
            Ok(live[0].1)
        } else if live.len() == 0 {
            Err(
                "no running ember-term with a control socket (launch with EMBER_CONTROL=1)"@,
            )
        } else {
            Err(
                "multiple instances ("@ + pid_list(live)
                    + "); pass --pid <PID> or --sock <PATH>"@,
            )
        },
    }
}

pub open spec fn text_result(r: Result<String, String>) -> Result<Seq<char>, Seq<char>> {
    match r {
        Ok(s) => Ok(s@),
        Err(e) => Err(e@),
    }
}

/// The socket a client talks to: the one it names, that of the process it names, or that of the
/// only running instance.
pub fn resolve_socket(
    sock: Option<String>,
    pid: Option<u32>,
    dir: &str,
    live: &[(u32, String)],
) -> (r: Result<String, String>)
    ensures
        text_result(r) == chosen_socket(opt_text(sock), pid, dir@, live_view(live@)),
{
    if let Some(s) = sock {
        return Ok(s);
    }
    if let Some(p) = pid {
        return Ok(pid_socket(dir, p));
    }
    if live.len() == 1 {
        assert(live_view(live@)[0].1 == live@[0].1@);
        return Ok(live[0].1.clone());
    }
    if live.len() == 0 {
        return Err(
            "no running ember-term with a control socket (launch with EMBER_CONTROL=1)".to_owned(),
        );
    }
    let pids = list_pids(live);
    Err(
        concat3(
            "multiple instances (",
            pids.as_str(),
            "); pass --pid <PID> or --sock <PATH>",
        ),
    )
}

// ---- the command line client -----------------------------------------------

/// What a backslash and the character after it stand for.
pub open spec fn escape_of(c: char) -> Seq<char> {
    if c == 'n' {
        seq!['\n']
    } else if c == 't' {
        seq!['\t']
    } else if c == 'r' {
        seq!['\r']
    } else if c == '\\' {
        seq!['\\']
    } else {
        seq!['\\', c]
    }
}

/// `s` with the escapes `\n`, `\t`, `\r` and `\\` turned into the characters they stand for.
pub open spec fn unescaped(s: Seq<char>) -> Seq<char>
    decreases s.len(),
{
    if s.len() == 0 {
        s
    } else if s[0] != '\\' {
        seq![s[0]] + unescaped(s.skip(1))
    } else if s.len() == 1 {
        seq!['\\']
    } else {
        escape_of(s[1]) + unescaped(s.skip(2))
    }
}

fn push_escape(out: &mut String, c: char)
    ensures
        final(out)@ == old(out)@ + escape_of(c),
{
    if c == 'n' {
        out.push('\n');
    } else if c == 't' {
        out.push('\t');
    } else if c == 'r' {
        out.push('\r');
    } else if c == '\\' {
        out.push('\\');
    } else {
        out.push('\\');
        out.push(c);
    }
    assert(out@ =~= old(out)@ + escape_of(c));
}

/// Turns `\n`, `\t`, `\r` and `\\` into the characters they stand for; any other backslash stays.
pub fn unescape(s: &str) -> (r: String)
    ensures
        r@ == unescaped(s@),
{
    let chars = to_chars(s);
    let mut out = String::new();
    let mut i: usize = 0;
    assert(s@.skip(0) =~= s@);
    assert(out@ + unescaped(s@) =~= unescaped(s@));
    while i < chars.len()
        invariant
            i <= chars@.len(),
            chars@ == s@,
            out@ + unescaped(s@.skip(i as int)) == unescaped(s@),
        decreases chars@.len() - i,
    {
        let ghost rest = s@.skip(i as int);
        let ghost before = out@;
        let c = chars[i];
        assert(rest.len() == s@.len() - i);
        assert(rest[0] == c);
        if c != '\\' {
            out.push(c);
            proof {
                assert(rest.skip(1) =~= s@.skip(i + 1));
                assert(out@ =~= before + seq![c]);
                lemma_append_assoc(before, seq![c], unescaped(rest.skip(1)));
            }
            i += 1;
        } else if i + 1 == chars.len() {
            out.push('\\');
            proof {
                assert(s@.skip(i + 1) =~= Seq::<char>::empty());
                assert(out@ =~= before + seq!['\\']);
                assert(out@ + Seq::<char>::empty() =~= out@);
            }
            i += 1;
        } else {
            let d = chars[i + 1];
            assert(rest[1] == d);
            push_escape(&mut out, d);
            proof {
                assert(rest.skip(2) =~= s@.skip(i + 2));
                lemma_append_assoc(before, escape_of(d), unescaped(rest.skip(2)));
            }
            i += 2;
        }
    }
    assert(s@.skip(i as int) =~= Seq::<char>::empty());
    assert(out@ + Seq::<char>::empty() =~= out@);
    out
}

/// A text without a backslash stands for itself.
pub proof fn law_plain_text_is_not_unescaped(s: Seq<char>)
    requires
        !s.contains('\\'),
    ensures
        unescaped(s) == s,
    decreases s.len(),
{
    if s.len() > 0 {
        assert(s.contains(s[0]));
        assert forall|i: int| 0 <= i < s.skip(1).len() implies s.skip(1)[i] != '\\' by {
            assert(s.contains(s[i + 1]));
        }
        law_plain_text_is_not_unescaped(s.skip(1));
        assert(seq![s[0]] + s.skip(1) == s);
    }
}

/// A character as it is written where backslashes are escapes.
pub open spec fn escape_char(c: char) -> Seq<char> {
    if c == '\n' {
        seq!['\\', 'n']
    } else if c == '\t' {
        seq!['\\', 't']
    } else if c == '\r' {
        seq!['\\', 'r']
    } else if c == '\\' {
        seq!['\\', '\\']
    } else {
        seq![c]
    }
}

/// `s` with its line feeds, tabs, carriage returns and backslashes written as escapes.
pub open spec fn escaped(s: Seq<char>) -> Seq<char>
    decreases s.len(),
{
    if s.len() == 0 {
        s
    } else {
        escape_char(s[0]) + escaped(s.skip(1))
    }
}

/// Unescaping an escaped text gives the text back.
pub proof fn law_unescaping_undoes_escaping(s: Seq<char>)
    ensures
        unescaped(escaped(s)) == s,
    decreases s.len(),
{
    if s.len() > 0 {
        let rest = escaped(s.skip(1));
        let all = escaped(s);
        law_unescaping_undoes_escaping(s.skip(1));
        assert(all[0] == escape_char(s[0])[0]);
        if escape_char(s[0]).len() == 2 {
            assert(all[1] == escape_char(s[0])[1]);
            assert(all.skip(2) =~= rest);
            assert(escape_of(all[1]) =~= seq![s[0]]);
        } else {
            assert(all.skip(1) =~= rest);
        }
        assert(seq![s[0]] + s.skip(1) =~= s);
    }
}

/// What the arguments of a drag say so far.
pub struct DragScan {
    pub points: Seq<JsonView>,
    pub steps: nat,
    pub mods: Seq<char>,
    pub cancel: bool,
}

/// Reads the arguments of a drag from the left.
pub open spec fn scan_drag(args: Seq<Seq<char>>, so_far: DragScan) -> Result<DragScan, Seq<char>>
    decreases args.len(),
{
    if args.len() == 0 {
        Ok(so_far)
    } else if args[0] == "--steps"@ {
        if args.len() == 1 {
            Err("drag: --steps needs a number"@)
        } else {
            match parse_result(args[1], u64::MAX as nat) {
                Ok(n) => scan_drag(args.skip(2), DragScan { steps: n, ..so_far }),
                Err(e) => Err(
                    "drag: --steps: bad number "@ + quoted_of(args[1]) + ": "@ + e.spec_text(),
                ),
            }
        }
    } else if args[0] == "--mods"@ {
        if args.len() == 1 {
            Err("drag: --mods needs a value"@)
        } else {
            scan_drag(args.skip(2), DragScan { mods: args[1], ..so_far })
        }
    } else if args[0] == "--cancel"@ {
        scan_drag(args.skip(1), DragScan { cancel: true, ..so_far })
    } else {
        match coordinate_parsed(args[0]) {
            Ok(v) => scan_drag(
                args.skip(1),
                DragScan { points: so_far.points.push(v), ..so_far },
            ),
            Err(e) => Err("drag: bad coordinate "@ + quoted_of(args[0]) + ": "@ + e),
        }
    }
}

pub open spec fn command_view(name: Seq<char>) -> JsonView {
    put(JsonView::Object(Map::empty()), "cmd"@, JsonView::Text(name))
}

/// The request that a drag's arguments stand for: four coordinates, and the options anywhere.
pub open spec fn drag_request(args: Seq<Seq<char>>) -> Result<JsonView, Seq<char>> {
    match scan_drag(
        args,
        DragScan { points: Seq::empty(), steps: 8, mods: Seq::empty(), cancel: false },
    ) {
        Err(e) => Err(e),
        Ok(d) => if d.points.len() != 4 {
            Err(
                "drag: need x1 y1 x2 y2 [--steps N] [--mods m] [--cancel] (got "@ + decimal(
                    d.points.len(),
                ) + " coordinate(s))"@,
            )
        } else {
            Ok(
                put(
                    put(
                        put(
                            put(
                                put(
                                    put(
                                        put(command_view("drag"@), "x1"@, d.points[0]),
                                        "y1"@,
                                        d.points[1],
                                    ),
                                    "x2"@,
                                    d.points[2],
                                ),
                                "y2"@,
                                d.points[3],
                            ),
                            "steps"@,
                            JsonView::Unsigned(d.steps as u64),
                        ),
                        "mods"@,
                        JsonView::Text(d.mods),
                    ),
                    "cancel"@,
                    JsonView::Bool(d.cancel),
                ),
            )
        },
    }
}

pub open spec fn value_result(r: Result<serde_json::Value, String>) -> Result<
    JsonView,
    Seq<char>,
> {
    match r {
        Ok(v) => Ok(json_view(v)),
        Err(e) => Err(e@),
    }
}

pub fn command(name: &str) -> (r: serde_json::Value)
    ensures
        json_view(r) == command_view(name@),
{
    let mut v = object();
    set_member(&mut v, "cmd", text(name));
    v
}

/// Reads the arguments of `drag`: four coordinates, and `--steps N`, `--mods M` and `--cancel`
/// in any place.
pub fn parse_drag_args(args: &[String]) -> (r: Result<serde_json::Value, String>)
    ensures
        value_result(r) == drag_request(texts(args@)),
{
    let mut points: Vec<serde_json::Value> = Vec::new();
    let mut steps: u64 = 8;
    let mut mods = String::new();
    let mut cancel = false;
    let mut i: usize = 0;
    let ghost all = texts(args@);
    let ghost start = DragScan {
        points: Seq::empty(),
        steps: 8,
        mods: Seq::empty(),
        cancel: false,
    };
    assert(all.skip(0) == all);
    assert(json_views(points@) == start.points);
    while i < args.len()
        invariant
            i <= args@.len(),
            all == texts(args@),
            start == (DragScan {
                points: Seq::empty(),
                steps: 8,
                mods: Seq::empty(),
                cancel: false,
            }),
            scan_drag(all, start) == scan_drag(
                all.skip(i as int),
                DragScan {
                    points: json_views(points@),
                    steps: steps as nat,
                    mods: mods@,
                    cancel,
                },
            ),
        decreases args@.len() - i,
    {
        let ghost rest = all.skip(i as int);
        let arg = args[i].as_str();
        assert(rest[0] == arg@);
        proof {
            assert(rest.skip(1) == all.skip(i + 1));
            if rest.len() > 1 {
                assert(rest[1] == args@[i + 1]@);
                assert(rest.skip(2) == all.skip(i + 2));
            }
        }
        if same(arg, "--steps") {
            if i + 1 == args.len() {
                return Err("drag: --steps needs a number".to_owned());
            }
            match parse_up_to(args[i + 1].as_str(), u64::MAX) {
                Ok(n) => {
                    steps = n;
                },
                Err(e) => {
                    let mut msg = "drag: --steps: bad number ".to_owned();
                    msg.append(quoted(args[i + 1].as_str()).as_str());
                    msg.append(": ");
                    msg.append(e.text());
                    return Err(msg);
                },
            }
            i += 2;
        } else if same(arg, "--mods") {
            if i + 1 == args.len() {
                return Err("drag: --mods needs a value".to_owned());
            }
            mods = args[i + 1].clone();
            i += 2;
        } else if same(arg, "--cancel") {
            cancel = true;
            i += 1;
        } else {
            match coordinate(arg) {
                Ok(v) => {
                    let ghost before = points@;
                    points.push(v);
                    assert(json_views(points@) == json_views(before).push(json_view(v)));
                },
                Err(e) => {
                    let mut msg = "drag: bad coordinate ".to_owned();
                    msg.append(quoted(arg).as_str());
                    msg.append(": ");
                    msg.append(e.as_str());
                    return Err(msg);
                },
            }
            i += 1;
        }
    }
    assert(all.skip(i as int).len() == 0);
    assert(json_views(points@).len() == points@.len());
    if points.len() != 4 {
        let mut msg =
            "drag: need x1 y1 x2 y2 [--steps N] [--mods m] [--cancel] (got ".to_owned();
        push_decimal(&mut msg, points.len() as u64);
        msg.append(" coordinate(s))");
        return Err(msg);
    }
    let ghost all_points = points@;
    let y2 = points.remove(3);
    let x2 = points.remove(2);
    let y1 = points.remove(1);
    let x1 = points.remove(0);
    assert(json_views(all_points)[0] == json_view(x1));
    assert(json_views(all_points)[1] == json_view(y1));
    assert(json_views(all_points)[2] == json_view(x2));
    assert(json_views(all_points)[3] == json_view(y2));
    let mut v = command("drag");
    set_member(&mut v, "x1", x1);
    set_member(&mut v, "y1", y1);
    set_member(&mut v, "x2", x2);
    set_member(&mut v, "y2", y2);
    set_member(&mut v, "steps", unsigned(steps));
    set_member(&mut v, "mods", text(mods.as_str()));
    set_member(&mut v, "cancel", boolean(cancel));
    Ok(v)
}

/// The options of the client and the words that are none.
pub struct ClientScan {
    pub sock: Option<Seq<char>>,
    pub pid: Option<u32>,
    pub rest: Seq<Seq<char>>,
}

/// Reads the client's arguments from the left.
pub open spec fn scan_client(args: Seq<Seq<char>>, so_far: ClientScan) -> Result<
    ClientScan,
    Seq<char>,
>
    decreases args.len(),
{
    if args.len() == 0 {
        Ok(so_far)
    } else if args[0] == "--sock"@ {
        if args.len() == 1 {
            Err("--sock needs a path"@)
        } else {
            scan_client(args.skip(2), ClientScan { sock: Some(args[1]), ..so_far })
        }
    } else if args[0] == "--pid"@ {
        if args.len() == 1 {
            Err("--pid needs a number"@)
        } else {
            match parse_result(args[1], u32::MAX as nat) {
                Ok(n) => scan_client(args.skip(2), ClientScan { pid: Some(n as u32), ..so_far }),
                Err(e) => Err("--pid: "@ + e.spec_text()),
            }
        }
    } else {
        scan_client(args.skip(1), ClientScan { rest: so_far.rest.push(args[0]), ..so_far })
    }
}

/// Words with a blank between each two.
pub open spec fn joined(words: Seq<Seq<char>>) -> Seq<char>
    decreases words.len(),
{
    if words.len() == 0 {
        Seq::empty()
    } else if words.len() == 1 {
        words[0]
    } else {
        joined(words.drop_last()) + " "@ + words.last()
    }
}

/// The word at `i`, empty where there is none.
pub open spec fn word(rest: Seq<Seq<char>>, i: int) -> Seq<char> {
    if 0 <= i < rest.len() {
        rest[i]
    } else {
        Seq::empty()
    }
}

/// The number at `i` up to `max`; zero where there is none.
pub open spec fn number_at(rest: Seq<Seq<char>>, i: int, max: nat) -> u64 {
    if 0 <= i < rest.len() {
        match parse_result(rest[i], max) {
            Ok(n) => n as u64,
            Err(_) => 0,
        }
    } else {
        0
    }
}

/// The coordinate at `i`; zero where there is none.
pub open spec fn coordinate_at(rest: Seq<Seq<char>>, i: int) -> JsonView {
    if 0 <= i < rest.len() {
        match coordinate_parsed(rest[i]) {
            Ok(v) => v,
            Err(_) => JsonView::Float(0),
        }
    } else {
        JsonView::Float(0)
    }
}

/// What the client is to do.
#[derive(Debug, PartialEq, Eq)]
pub enum ClientAction {
    /// List the running instances.
    List,
    /// Send a request and print the reply.
    Request(serde_json::Value),
}

pub enum ActionView {
    List,
    Request(JsonView),
}

/// What the client's words ask for, the first of them being the command.
pub open spec fn client_action(rest: Seq<Seq<char>>) -> Result<ActionView, Seq<char>> {
    let cmd = if rest.len() > 0 { rest[0] } else { "state"@ };
    let arg = word(rest, 1);
    let text_request = |key: Seq<char>, value: Seq<char>|
        Ok::<ActionView, Seq<char>>(
            ActionView::Request(put(command_view(cmd), key, JsonView::Text(value))),
        );
    let bare = Ok::<ActionView, Seq<char>>(ActionView::Request(command_view(cmd)));
    if cmd == "list"@ {
        Ok(ActionView::List)
    } else if cmd == "type"@ || cmd == "paste"@ {
        text_request("text"@, unescaped(arg))
    } else if cmd == "key"@ {
        text_request("name"@, arg)
    } else if cmd == "chord"@ {
        text_request("keys"@, arg)
    } else if cmd == "state"@ || cmd == "raise"@ || cmd == "about"@ || cmd == "new-window"@ || cmd
        == "merge-tab"@ || cmd == "settings"@ || cmd == "copy"@ || cmd == "fps"@ {
        bare
    } else if cmd == "focus"@ {
        if joined(rest.skip(1)).len() == 0 {
            Err("focus needs a query (matches tab titles)"@)
        } else {
            text_request("query"@, joined(rest.skip(1)))
        }
    } else if cmd == "screenshot"@ {
        text_request("path"@, if arg.len() == 0 { "/tmp/ember-live.png"@ } else { arg })
    } else if cmd == "click"@ {
        Ok(
            ActionView::Request(
                put(
                    put(command_view(cmd), "x"@, coordinate_at(rest, 1)),
                    "y"@,
                    coordinate_at(rest, 2),
                ),
            ),
        )
    } else if cmd == "move-tab"@ || cmd == "promote-pane"@ {
        text_request("to"@, arg)
    } else if cmd == "select"@ {
        let cell = |i: int| JsonView::Unsigned(number_at(rest, i, u16::MAX as nat));
        Ok(
            ActionView::Request(
                put(
                    put(
                        put(
                            put(put(command_view(cmd), "r1"@, cell(1)), "c1"@, cell(2)),
                            "r2"@,
                            cell(3),
                        ),
                        "c2"@,
                        cell(4),
                    ),
                    "mode"@,
                    JsonView::Text(if rest.len() > 5 { rest[5] } else { "simple"@ }),
                ),
            ),
        )
    } else if cmd == "scroll"@ {
        text_request("dir"@, arg)
    } else if cmd == "bell"@ {
        if rest.len() > 1 && parse_result(rest[1], u64::MAX as nat) is Ok {
            Ok(
                ActionView::Request(
                    put(
                        command_view(cmd),
                        "tab"@,
                        JsonView::Unsigned(number_at(rest, 1, u64::MAX as nat)),
                    ),
                ),
            )
        } else {
            bare
        }
    } else if cmd == "reorder-tab"@ {
        let index = |i: int| JsonView::Unsigned(number_at(rest, i, u64::MAX as nat));
        Ok(
            ActionView::Request(
                put(put(command_view(cmd), "from"@, index(1)), "to"@, index(2)),
            ),
        )
    } else if cmd == "rename-tab"@ {
        Ok(
            ActionView::Request(
                put(
                    put(
                        command_view(cmd),
                        "i"@,
                        JsonView::Unsigned(number_at(rest, 1, u64::MAX as nat)),
                    ),
                    "name"@,
                    JsonView::Text(
                        if rest.len() >= 2 {
                            joined(rest.skip(2))
                        } else {
                            Seq::empty()
                        },
                    ),
                ),
            ),
        )
    } else if cmd == "edit-tab"@ {
        Ok(
            ActionView::Request(
                put(
                    command_view(cmd),
                    "i"@,
                    JsonView::Unsigned(number_at(rest, 1, u64::MAX as nat)),
                ),
            ),
        )
    } else if cmd == "drag"@ {
        match drag_request(rest.skip(1)) {
            Ok(v) => Ok(ActionView::Request(v)),
            Err(e) => Err(e),
        }
    } else {
        Err(
            "unknown ctl cmd: "@ + cmd
                + " (list|type|key|chord|state|focus|raise|screenshot|click|about|settings|select|copy|paste|reorder-tab|rename-tab|edit-tab|new-window|move-tab|promote-pane|merge-tab|drag)"@,
        )
    }
}

pub open spec fn action_result(r: Result<ClientAction, String>) -> Result<ActionView, Seq<char>> {
    match r {
        Ok(ClientAction::List) => Ok(ActionView::List),
        Ok(ClientAction::Request(v)) => Ok(ActionView::Request(json_view(v))),
        Err(e) => Err(e@),
    }
}

fn join_words(words: &[String], from: usize) -> (r: String)
    requires
        from <= words@.len(),
    ensures
        r@ == joined(texts(words@).skip(from as int)),
{
    let mut out = String::new();
    let mut i: usize = from;
    let ghost all = texts(words@).skip(from as int);
    while i < words.len()
        invariant
            from <= i <= words@.len(),
            all == texts(words@).skip(from as int),
            out@ == joined(all.take(i - from)),
        decreases words@.len() - i,
    {
        let ghost next = all.take(i + 1 - from);
        assert(next.drop_last() == all.take(i - from));
        assert(next.last() == words@[i as int]@);
        if i > from {
            out.append(" ");
        }
        out.append(words[i].as_str());
        assert(out@ == joined(next));
        i += 1;
    }
    assert(all.take(i - from) == all);
    out
}

fn read_number(rest: &[String], i: usize, max: u64) -> (r: u64)
    ensures
        r == number_at(texts(rest@), i as int, max as nat),
{
    if i < rest.len() {
        match parse_up_to(rest[i].as_str(), max) {
            Ok(n) => n,
            Err(_) => 0,
        }
    } else {
        0
    }
}

fn read_coordinate(rest: &[String], i: usize) -> (r: serde_json::Value)
    ensures
        json_view(r) == coordinate_at(texts(rest@), i as int),
{
    if i < rest.len() {
        if let Ok(v) = coordinate(rest[i].as_str()) {
            return v;
        }
    }
    match coordinate("0") {
        Ok(v) => v,
        Err(_) => object(),
    }
}

fn text_request(cmd: &str, key: &str, value: &str) -> (r: ClientAction)
    ensures
        r is Request,
        json_view(r->Request_0) == put(command_view(cmd@), key@, JsonView::Text(value@)),
{
    let mut v = command(cmd);
    set_member(&mut v, key, text(value));
    ClientAction::Request(v)
}

/// What the client's words ask for, the first of them being the command.
pub fn build_request(rest: &[String]) -> (r: Result<ClientAction, String>)
    ensures
        action_result(r) == client_action(texts(rest@)),
{
    let ghost words = texts(rest@);
    let cmd: &str = if rest.len() > 0 { rest[0].as_str() } else { "state" };
    let arg: &str = if rest.len() > 1 { rest[1].as_str() } else { "" };
    proof {
        reveal_strlit("");
        assert(arg@ == word(words, 1));
    }
    if same(cmd, "list") {
        return Ok(ClientAction::List);
    }
    if same(cmd, "type") || same(cmd, "paste") {
        return Ok(text_request(cmd, "text", unescape(arg).as_str()));
    }
    if same(cmd, "key") {
        return Ok(text_request(cmd, "name", arg));
    }
    if same(cmd, "chord") {
        return Ok(text_request(cmd, "keys", arg));
    }
    if same(cmd, "state") || same(cmd, "raise") || same(cmd, "about") || same(cmd, "new-window")
        || same(cmd, "merge-tab") || same(cmd, "settings") || same(cmd, "copy") || same(cmd, "fps") {
        return Ok(ClientAction::Request(command(cmd)));
    }
    if same(cmd, "focus") {
        let query = join_words(rest, 1);
        if query.as_str().is_empty() {
            return Err("focus needs a query (matches tab titles)".to_owned());
        }
        return Ok(text_request(cmd, "query", query.as_str()));
    }
    if same(cmd, "screenshot") {
        let path: &str = if arg.is_empty() { "/tmp/ember-live.png" } else { arg };
        return Ok(text_request(cmd, "path", path));
    }
    if same(cmd, "click") {
        let mut v = command(cmd);
        set_member(&mut v, "x", read_coordinate(rest, 1));
        set_member(&mut v, "y", read_coordinate(rest, 2));
        return Ok(ClientAction::Request(v));
    }
    if same(cmd, "move-tab") || same(cmd, "promote-pane") {
        return Ok(text_request(cmd, "to", arg));
    }
    if same(cmd, "select") {
        let mode: &str = if rest.len() > 5 { rest[5].as_str() } else { "simple" };
        let mut v = command(cmd);
        set_member(&mut v, "r1", unsigned(read_number(rest, 1, u16::MAX as u64)));
        set_member(&mut v, "c1", unsigned(read_number(rest, 2, u16::MAX as u64)));
        set_member(&mut v, "r2", unsigned(read_number(rest, 3, u16::MAX as u64)));
        set_member(&mut v, "c2", unsigned(read_number(rest, 4, u16::MAX as u64)));
        set_member(&mut v, "mode", text(mode));
        return Ok(ClientAction::Request(v));
    }
    if same(cmd, "scroll") {
        return Ok(text_request(cmd, "dir", arg));
    }
    if same(cmd, "bell") {
        let mut v = command(cmd);
        if rest.len() > 1 {
            if let Ok(tab) = parse_up_to(rest[1].as_str(), u64::MAX) {
                set_member(&mut v, "tab", unsigned(tab));
            }
        }
        return Ok(ClientAction::Request(v));
    }
    if same(cmd, "reorder-tab") {
        let mut v = command(cmd);
        set_member(&mut v, "from", unsigned(read_number(rest, 1, u64::MAX)));
        set_member(&mut v, "to", unsigned(read_number(rest, 2, u64::MAX)));
        return Ok(ClientAction::Request(v));
    }
    if same(cmd, "rename-tab") {
        let name = if rest.len() >= 2 { join_words(rest, 2) } else { String::new() };
        let mut v = command(cmd);
        set_member(&mut v, "i", unsigned(read_number(rest, 1, u64::MAX)));
        set_member(&mut v, "name", text(name.as_str()));
        return Ok(ClientAction::Request(v));
    }
    if same(cmd, "edit-tab") {
        let mut v = command(cmd);
        set_member(&mut v, "i", unsigned(read_number(rest, 1, u64::MAX)));
        return Ok(ClientAction::Request(v));
    }
    if same(cmd, "drag") {
        let n: usize = rest.len();
        let args = vstd::slice::slice_subrange(rest, 1, n);
        assert(texts(args@) == words.skip(1));
        return match parse_drag_args(args) {
            Ok(v) => Ok(ClientAction::Request(v)),
            Err(e) => Err(e),
        };
    }
    Err(
        concat3(
            "unknown ctl cmd: ",
            cmd,
            " (list|type|key|chord|state|focus|raise|screenshot|click|about|settings|select|copy|paste|reorder-tab|rename-tab|edit-tab|new-window|move-tab|promote-pane|merge-tab|drag)",
        ),
    )
}

/// What the client is to do, and with which socket.
#[derive(Debug, PartialEq, Eq)]
pub struct ClientPlan {
    pub sock: Option<String>,
    pub pid: Option<u32>,
    pub action: ClientAction,
}

/// `r` is what the client's arguments, after the word `ctl`, stand for.
pub open spec fn client_planned(args: Seq<Seq<char>>, r: Result<ClientPlan, String>) -> bool {
    let none = ClientScan { sock: None, pid: None, rest: Seq::empty() };
    match scan_client(if args.len() > 0 { args.skip(1) } else { args }, none) {
        Err(e) => r is Err && r->Err_0@ == e,
        Ok(scan) => match client_action(scan.rest) {
            Err(e) => r is Err && r->Err_0@ == e,
            Ok(action) => {
                &&& r is Ok
                &&& opt_text(r->Ok_0.sock) == scan.sock
                &&& r->Ok_0.pid == scan.pid
                &&& action_result(Ok(r->Ok_0.action)) == Ok::<ActionView, Seq<char>>(action)
            },
        },
    }
}

/// Reads the arguments of `ember-term ctl [--sock P | --pid N] <command> [argument]`.
pub fn client(args: &[String]) -> (r: Result<ClientPlan, String>)
    ensures
        client_planned(texts(args@), r),
{
    let mut sock: Option<String> = None;
    let mut pid: Option<u32> = None;
    let mut rest: Vec<String> = Vec::new();
    let ghost all = texts(args@);
    let ghost given = if all.len() > 0 { all.skip(1) } else { all };
    let ghost none = ClientScan { sock: None, pid: None, rest: Seq::empty() };
    let mut i: usize = if args.len() > 0 { 1 } else { 0 };
    assert(given == all.skip(i as int));
    assert(texts(rest@) == none.rest);
    while i < args.len()
        invariant
            i <= args@.len(),
            all == texts(args@),
            given == (if all.len() > 0 { all.skip(1) } else { all }),
            none == (ClientScan { sock: None, pid: None, rest: Seq::empty() }),
            scan_client(given, none) == scan_client(
                all.skip(i as int),
                ClientScan {
                    sock: opt_text(sock),
                    pid,
                    rest: texts(rest@),
                },
            ),
        decreases args@.len() - i,
    {
        let ghost left = all.skip(i as int);
        let arg = args[i].as_str();
        assert(left[0] == arg@);
        proof {
            assert(left.skip(1) == all.skip(i + 1));
            if left.len() > 1 {
                assert(left[1] == args@[i + 1]@);
                assert(left.skip(2) == all.skip(i + 2));
            }
        }
        if same(arg, "--sock") {
            if i + 1 == args.len() {
                return Err("--sock needs a path".to_owned());
            }
            sock = Some(args[i + 1].clone());
            i += 2;
        } else if same(arg, "--pid") {
            if i + 1 == args.len() {
                return Err("--pid needs a number".to_owned());
            }
            match parse_up_to(args[i + 1].as_str(), u32::MAX as u64) {
                Ok(n) => {
                    pid = Some(n as u32);
                },
                Err(e) => {
                    let mut msg = "--pid: ".to_owned();
                    msg.append(e.text());
                    return Err(msg);
                },
            }
            i += 2;
        } else {
            let ghost before = rest@;
            rest.push(args[i].clone());
            assert(texts(rest@) == texts(before).push(arg@));
            i += 1;
        }
    }
    assert(all.skip(i as int).len() == 0);
    match build_request(rest.as_slice()) {
        Ok(action) => Ok(ClientPlan { sock, pid, action }),
        Err(e) => Err(e),
    }
}

// ---- replies, sockets and arguments ----------------------------------------

/// A failure is an object that says so under `ok` and tells why under `error`, and no more.
pub proof fn law_failures_tell_why(msg: Seq<char>, key: Seq<char>)
    ensures
        failure(msg) matches JsonView::Object(m) && m.contains_key("ok"@) && m["ok"@]
            == JsonView::Bool(false) && m.contains_key("error"@) && m["error"@] == JsonView::Text(
            msg,
        ) && (m.contains_key(key) ==> key == "ok"@ || key == "error"@),
        refuse(msg) == DispatchView::Reply(json_rendered(failure(msg))),
{
    reveal_strlit("ok");
    reveal_strlit("error");
    assert("ok"@.len() != "error"@.len());
}

/// How long each question waits and under what name it is reported: a picture 15 seconds, a drag
/// 5, the others 2.
pub proof fn law_questions_wait_their_time(q: Question)
    ensures
        q == Question::State ==> q.spec_name() == "state"@ && q.spec_seconds() == 2,
        q == Question::Screenshot ==> q.spec_name() == "screenshot"@ && q.spec_seconds() == 15,
        q == Question::Focus ==> q.spec_name() == "focus"@ && q.spec_seconds() == 2,
        q == Question::MoveTab ==> q.spec_name() == "move-tab"@ && q.spec_seconds() == 2,
        q == Question::PromotePane ==> q.spec_name() == "promote-pane"@ && q.spec_seconds() == 2,
        q == Question::MergeTab ==> q.spec_name() == "merge-tab"@ && q.spec_seconds() == 2,
        q == Question::Drag ==> q.spec_name() == "drag"@ && q.spec_seconds() == 5,
{
}

/// The answer to a question is handed on as it is, the state inside an object that says `ok`; a
/// question that is not answered in time fails under its name, and one that cannot be asked fails
/// too.
pub proof fn law_answers_are_handed_on(q: Question, s: String)
    ensures
        q != Question::State ==> answer_text(q, Answer::Reply(s)) == s@,
        answer_text(Question::State, Answer::Reply(s)) == "{\"ok\":true,\"state\":"@ + s@ + "}"@,
        answer_text(q, Answer::Gone) == json_rendered(failure("event loop gone"@)),
        answer_text(q, Answer::TimedOut) == json_rendered(failure(q.spec_name() + " timeout"@)),
{
}

/// Text that is no JSON is refused with what is wrong in it; other text is taken for its value.
pub proof fn law_bad_json_is_refused(v: JsonView, e: Seq<char>, shot: Seq<char>)
    ensures
        answered(Err(e), shot) == DispatchView::Reply(json_rendered(failure("bad json: "@ + e))),
        answered(Ok(v), shot) == dispatched(v, shot),
{
}

/// A whole number is read with an optional minus sign, if it fits in 32 bits.
pub proof fn law_signed_numbers_are_read(n: nat)
    ensures
        n <= 2147483647 ==> signed_value(decimal(n)) == Some(n as int),
        n > 2147483647 ==> signed_value(decimal(n)) is None,
        n <= 2147483648 ==> signed_value(seq!['-'] + decimal(n)) == Some(-n),
        n > 2147483648 ==> signed_value(seq!['-'] + decimal(n)) is None,
{
    let minus = seq!['-'] + decimal(n);
    crate::text::lemma_decimal(n);
    crate::text::law_written_numbers_are_read(n, 2147483647);
    crate::text::law_written_numbers_are_read(n, 2147483648);
    assert(minus.skip(1) =~= decimal(n));
    assert(minus[1] == decimal(n)[0]);
    assert(crate::text::is_digit(decimal(n)[0]));
}

/// The socket of a process is a file of the directory that is named by the process; a server
/// binds to another path where it is given one.
pub proof fn law_sockets_are_named_by_process(env_val: Seq<char>, dir: Seq<char>, pid: u32)
    ensures
        dir.len() > 0 && dir.last() != '/' ==> socket_of(dir, pid) == dir + seq!['/'] + decimal(
            pid as nat,
        ) + ".sock"@,
        dir.len() > 0 && dir.last() == '/' ==> socket_of(dir, pid) == dir + decimal(pid as nat)
            + ".sock"@,
        env_val.contains('/') ==> bound_socket(env_val, dir, pid) == env_val,
        !env_val.contains('/') ==> bound_socket(env_val, dir, pid) == socket_of(dir, pid),
{
    let (d, s) = (decimal(pid as nat), ".sock"@);
    assert(dir + seq!['/'] + (d + s) =~= dir + seq!['/'] + d + s);
    assert(dir + (d + s) =~= dir + d + s);
}

/// The directory of the sockets is `ember-ctl` below the one for temporary files, and the picture
/// of a process stands beside its socket.
pub proof fn law_control_files_have_their_places(tmp: &str, dir: &str, pid: u32, r: String)
    requires
        tmp@.len() > 0 && tmp@.last() != '/',
        dir@.len() > 0 && dir@.last() != '/',
    ensures
        call_ensures(socket_dir, (Some(tmp),), r) ==> r@ == tmp@ + seq!['/'] + "ember-ctl"@,
        call_ensures(socket_dir, (None,), r) ==> r@ == "/tmp/ember-ctl"@,
        call_ensures(pid_socket, (dir, pid), r) ==> r@ == dir@ + seq!['/'] + decimal(pid as nat)
            + ".sock"@,
        call_ensures(default_shot, (dir, pid), r) ==> r@ == dir@ + seq!['/'] + decimal(pid as nat)
            + "-live.png"@,
{
    reveal_strlit("/tmp");
    reveal_strlit("/tmp/ember-ctl");
    reveal_strlit("ember-ctl");
    assert("/tmp"@ + seq!['/'] + "ember-ctl"@ =~= "/tmp/ember-ctl"@);
    law_sockets_are_named_by_process(Seq::empty(), dir@, pid);
    let (d, s) = (decimal(pid as nat), "-live.png"@);
    assert(dir@ + seq!['/'] + (d + s) =~= dir@ + seq!['/'] + d + s);
}

proof fn lemma_inserting_by_pid(s: Seq<(u32, Seq<char>)>, x: (u32, Seq<char>), y: (u32, Seq<char>))
    requires
        forall|i: int, j: int| 0 <= i < j < s.len() ==> (#[trigger] s[i]).0 <= (#[trigger] s[j]).0,
    ensures
        insert_by_pid(s, x).len() == s.len() + 1,
        insert_by_pid(s, x).contains(y) <==> s.contains(y) || x == y,
        forall|i: int, j: int|
            0 <= i < j < insert_by_pid(s, x).len() ==> (#[trigger] insert_by_pid(s, x)[i]).0 <= (
            #[trigger] insert_by_pid(s, x)[j]).0,
        forall|i: int|
            0 <= i < insert_by_pid(s, x).len() ==> (#[trigger] insert_by_pid(s, x)[i]).0 <= x.0 || (
            s.len() > 0 && insert_by_pid(s, x)[i].0 <= s.last().0),
    decreases s.len(),
{
    let r = insert_by_pid(s, x);
    if s.len() == 0 || s.last().0 <= x.0 {
        assert(r == s.push(x));
        assert(r[s.len() as int] == x);
        if s.contains(y) {
            let k = choose|k: int| 0 <= k < s.len() && s[k] == y;
            assert(r[k] == y);
        }
        if r.contains(y) {
            let k = choose|k: int| 0 <= k < r.len() && r[k] == y;
            if k < s.len() {
                assert(s[k] == y);
            }
        }
    } else {
        let t = s.drop_last();
        let q = insert_by_pid(t, x);
        lemma_inserting_by_pid(t, x, y);
        assert(r == q.push(s.last()));
        assert(r[s.len() as int] == s.last());
        if s.contains(y) {
            let k = choose|k: int| 0 <= k < s.len() && s[k] == y;
            if k < t.len() {
                assert(t[k] == y);
                let m = choose|m: int| 0 <= m < q.len() && q[m] == y;
                assert(r[m] == y);
            }
        }
        if x == y {
            let m = choose|m: int| 0 <= m < q.len() && q[m] == y;
            assert(r[m] == y);
        }
        if r.contains(y) {
            let k = choose|k: int| 0 <= k < r.len() && r[k] == y;
            if k < q.len() {
                assert(q[k] == y);
                if t.contains(y) {
                    let m = choose|m: int| 0 <= m < t.len() && t[m] == y;
                    assert(s[m] == y);
                }
            } else {
                assert(s[s.len() - 1] == y);
            }
        }
        assert forall|i: int| 0 <= i < q.len() implies (#[trigger] r[i]).0 <= s.last().0 by {
            assert(r[i] == q[i]);
            if t.len() > 0 {
                assert(t.last() == s[s.len() - 2]);
            }
        }
    }
}

/// The running instances are those that answered, in ascending order of their processes; the
/// others are stale, in the order in which they were met. None is lost and none is listed twice.
#[verifier::rlimit(40)]
pub proof fn law_instances_are_listed(probes: Seq<Probe>, x: (u32, Seq<char>), p: Seq<char>)
    ensures
        live_of(probes).contains(x) <==> exists|i: int|
            0 <= i < probes.len() && (#[trigger] probes[i]).alive && probes[i].pid == x.0
                && probes[i].path@ == x.1,
        stale_of(probes).contains(p) <==> exists|i: int|
            0 <= i < probes.len() && !(#[trigger] probes[i]).alive && probes[i].path@ == p,
        live_of(probes).len() + stale_of(probes).len() == probes.len(),
        forall|i: int, j: int|
            0 <= i < j < live_of(probes).len() ==> (#[trigger] live_of(probes)[i]).0 <= (
            #[trigger] live_of(probes)[j]).0,
    decreases probes.len(),
{
    if probes.len() > 0 {
        let q = probes.drop_last();
        let z = probes.last();
        let n = q.len() as int;
        law_instances_are_listed(q, x, p);
        lemma_inserting_by_pid(live_of(q), (z.pid, z.path@), x);
        assert(probes[n] == z);
        let was_live = exists|i: int|
            0 <= i < q.len() && (#[trigger] q[i]).alive && q[i].pid == x.0 && q[i].path@ == x.1;
        let was_stale = exists|i: int|
            0 <= i < q.len() && !(#[trigger] q[i]).alive && q[i].path@ == p;
        if was_live {
            let i = choose|i: int|
                0 <= i < q.len() && (#[trigger] q[i]).alive && q[i].pid == x.0 && q[i].path@ == x.1;
            assert(probes[i] == q[i]);
        }
        if was_stale {
            let i = choose|i: int|
                0 <= i < q.len() && !(#[trigger] q[i]).alive && q[i].path@ == p;
            assert(probes[i] == q[i]);
        }
        assert forall|i: int| 0 <= i < n implies #[trigger] probes[i] == q[i] by {}
        let s = stale_of(q);
        if !z.alive {
            let r = s.push(z.path@);
            assert(stale_of(probes) == r);
            assert(r[s.len() as int] == z.path@);
            if s.contains(p) {
                let k = choose|k: int| 0 <= k < s.len() && s[k] == p;
                assert(r[k] == p);
            }
            if r.contains(p) {
                let k = choose|k: int| 0 <= k < r.len() && r[k] == p;
                if k < s.len() {
                    assert(s[k] == p);
                }
            }
        }
    }
}

/// The socket of a client: the path it was given, else that of the process it was given, else
/// that of the only instance there is. With none or several it must be told.
pub proof fn law_the_socket_is_chosen(sock: Seq<char>, pid: u32, maybe: Option<u32>, dir: Seq<char>, live: Seq<(u32, Seq<char>)>)
    ensures
        chosen_socket(Some(sock), maybe, dir, live) == Ok::<Seq<char>, Seq<char>>(sock),
        chosen_socket(None, Some(pid), dir, live) == Ok::<Seq<char>, Seq<char>>(
            socket_of(dir, pid),
        ),
        live.len() == 1 ==> chosen_socket(None, None, dir, live) == Ok::<Seq<char>, Seq<char>>(
            live[0].1,
        ),
        live.len() != 1 ==> chosen_socket(None, None, dir, live) is Err,
        live.len() == 2 ==> chosen_socket(None, None, dir, live) == Err::<Seq<char>, Seq<char>>(
            "multiple instances ("@ + (decimal(live[0].0 as nat) + ", "@ + decimal(
                live[1].0 as nat,
            )) + "); pass --pid <PID> or --sock <PATH>"@,
        ),
{
    if live.len() == 2 {
        reveal_with_fuel(pid_list, 2);
        assert(live.drop_last()[0] == live[0]);
    }
}

/// A backslash stands for a line end before `n`, a tab before `t`, a return before `r` and itself
/// before another; before any other character, or at the end, it is kept. All else is kept.
pub proof fn law_escapes_are_read(s: Seq<char>, c: char)
    ensures
        unescaped(seq!['\\', 'n'] + s) == seq!['\n'] + unescaped(s),
        unescaped(seq!['\\', 't'] + s) == seq!['\t'] + unescaped(s),
        unescaped(seq!['\\', 'r'] + s) == seq!['\r'] + unescaped(s),
        unescaped(seq!['\\', '\\'] + s) == seq!['\\'] + unescaped(s),
        c != 'n' && c != 't' && c != 'r' && c != '\\' ==> unescaped(seq!['\\', c] + s) == seq![
            '\\',
            c,
        ] + unescaped(s),
        c != '\\' ==> unescaped(seq![c] + s) == seq![c] + unescaped(s),
        unescaped(seq!['\\']) == seq!['\\'],
{
    assert((seq!['\\', 'n'] + s).skip(2) =~= s);
    assert((seq!['\\', 't'] + s).skip(2) =~= s);
    assert((seq!['\\', 'r'] + s).skip(2) =~= s);
    assert((seq!['\\', '\\'] + s).skip(2) =~= s);
    assert((seq!['\\', c] + s).skip(2) =~= s);
    assert((seq![c] + s).skip(1) =~= s);
}

proof fn lemma_flags_differ()
    ensures
        "--steps"@.len() == 7 && "--mods"@.len() == 6 && "--cancel"@.len() == 8,
        "--sock"@.len() == 6 && "--pid"@.len() == 5,
{
    reveal_strlit("--steps");
    reveal_strlit("--mods");
    reveal_strlit("--cancel");
    reveal_strlit("--sock");
    reveal_strlit("--pid");
}

/// The flags of a drag: `--steps` takes a number, `--mods` a text, `--cancel` nothing; each other
/// word is a coordinate, in order. A later flag overrides an earlier one.
#[verifier::rlimit(40)]
pub proof fn law_drag_flags_are_read(rest: Seq<Seq<char>>, d: DragScan, n: u64, w: Seq<char>, v: JsonView)
    ensures
        scan_drag(seq!["--steps"@, decimal(n as nat)] + rest, d) == scan_drag(
            rest,
            DragScan { points: d.points, steps: n as nat, mods: d.mods, cancel: d.cancel },
        ),
        scan_drag(seq!["--mods"@, w] + rest, d) == scan_drag(
            rest,
            DragScan { points: d.points, steps: d.steps, mods: w, cancel: d.cancel },
        ),
        scan_drag(seq!["--cancel"@] + rest, d) == scan_drag(
            rest,
            DragScan { points: d.points, steps: d.steps, mods: d.mods, cancel: true },
        ),
        w != "--steps"@ && w != "--mods"@ && w != "--cancel"@ && coordinate_parsed(w) == Ok::<
            JsonView,
            Seq<char>,
        >(v) ==> scan_drag(seq![w] + rest, d) == scan_drag(
            rest,
            DragScan {
                points: d.points.push(v),
                steps: d.steps,
                mods: d.mods,
                cancel: d.cancel,
            },
        ),
        scan_drag(Seq::empty(), d) == Ok::<DragScan, Seq<char>>(d),
        scan_drag(seq!["--steps"@], d) is Err,
        scan_drag(seq!["--mods"@], d) is Err,
{
    lemma_flags_differ();
    crate::text::law_written_numbers_are_read(n as nat, u64::MAX as nat);
    assert((seq!["--steps"@, decimal(n as nat)] + rest).skip(2) =~= rest);
    assert((seq!["--mods"@, w] + rest).skip(2) =~= rest);
    assert((seq!["--cancel"@] + rest).skip(1) =~= rest);
    assert((seq![w] + rest).skip(1) =~= rest);
}

/// A drag needs exactly two points. They are sent in order, with the steps, eight where none are
/// asked for, the modifiers, and whether it is called off.
#[verifier::rlimit(40)]
pub proof fn law_drags_have_two_points(args: Seq<Seq<char>>, d: DragScan, r: JsonView)
    ensures
        scan_drag(
            args,
            DragScan { points: Seq::empty(), steps: 8, mods: Seq::empty(), cancel: false },
        ) == Ok::<DragScan, Seq<char>>(d) ==> {
            &&& drag_request(args) is Ok <==> d.points.len() == 4
            &&& drag_request(args) == Ok::<JsonView, Seq<char>>(r) ==> (r matches JsonView::Object(
                m,
            ) && m.contains_key("cmd"@) && m["cmd"@] == JsonView::Text("drag"@)
                && m.contains_key("x1"@) && m["x1"@] == d.points[0] && m.contains_key("y1"@)
                && m["y1"@] == d.points[1] && m.contains_key("x2"@) && m["x2"@] == d.points[2]
                && m.contains_key("y2"@) && m["y2"@] == d.points[3] && m.contains_key("steps"@)
                && m["steps"@] == JsonView::Unsigned(d.steps as u64) && m.contains_key("mods"@)
                && m["mods"@] == JsonView::Text(d.mods) && m.contains_key("cancel"@) && m["cancel"@]
                == JsonView::Bool(d.cancel))
        },
{
    reveal_strlit("cmd");
    reveal_strlit("x1");
    reveal_strlit("y1");
    reveal_strlit("x2");
    reveal_strlit("y2");
    reveal_strlit("steps");
    reveal_strlit("mods");
    reveal_strlit("cancel");
    assert("x1"@[0] != "y1"@[0] && "x1"@[0] != "y2"@[0] && "x2"@[0] != "y1"@[0] && "x2"@[0]
        != "y2"@[0]);
    assert("x1"@[1] != "x2"@[1] && "y1"@[1] != "y2"@[1]);
    assert("cmd"@.len() == 3 && "steps"@.len() == 5 && "mods"@.len() == 4 && "cancel"@.len() == 6);
}

/// The flags of the client: `--sock` takes a path, `--pid` a process; all other words are the
/// command, in order.
#[verifier::rlimit(40)]
pub proof fn law_client_flags_are_read(rest: Seq<Seq<char>>, c: ClientScan, n: u32, w: Seq<char>)
    ensures
        scan_client(seq!["--sock"@, w] + rest, c) == scan_client(
            rest,
            ClientScan { sock: Some(w), pid: c.pid, rest: c.rest },
        ),
        scan_client(seq!["--pid"@, decimal(n as nat)] + rest, c) == scan_client(
            rest,
            ClientScan { sock: c.sock, pid: Some(n), rest: c.rest },
        ),
        w != "--sock"@ && w != "--pid"@ ==> scan_client(seq![w] + rest, c) == scan_client(
            rest,
            ClientScan { sock: c.sock, pid: c.pid, rest: c.rest.push(w) },
        ),
        scan_client(Seq::empty(), c) == Ok::<ClientScan, Seq<char>>(c),
        scan_client(seq!["--sock"@], c) is Err,
        scan_client(seq!["--pid"@], c) is Err,
{
    lemma_flags_differ();
    crate::text::law_written_numbers_are_read(n as nat, u32::MAX as nat);
    assert((seq!["--sock"@, w] + rest).skip(2) =~= rest);
    assert((seq!["--pid"@, decimal(n as nat)] + rest).skip(2) =~= rest);
    assert((seq![w] + rest).skip(1) =~= rest);
}

/// Words are joined in order by single spaces, and taken by their places.
pub proof fn law_words_are_joined(words: Seq<Seq<char>>, w: Seq<char>, i: int)
    ensures
        joined(seq![w]) == w,
        words.len() > 0 ==> joined(words.push(w)) == joined(words) + seq![' '] + w,
        0 <= i < words.len() ==> word(words, i) == words[i],
        i >= words.len() ==> word(words, i).len() == 0,
{
    reveal_strlit(" ");
    assert(" "@ =~= seq![' ']);
    assert(words.push(w).drop_last() =~= words);
}

/// A client's plan keeps the socket and the process that its flags named, and asks for what the
/// rest of its words ask for; what is wrong with either is its error.
pub proof fn law_clients_are_planned(head: Seq<char>, args: Seq<Seq<char>>, scan: ClientScan, e: Seq<char>, action: ActionView, r: Result<ClientPlan, String>)
    requires
        client_planned(seq![head] + args, r),
    ensures
        ({
            let read = scan_client(
                args,
                ClientScan { sock: None, pid: None, rest: Seq::empty() },
            );
            &&& read == Err::<ClientScan, Seq<char>>(e) ==> (r matches Err(t) && t@ == e)
            &&& read == Ok::<ClientScan, Seq<char>>(scan) && client_action(scan.rest) == Err::<
                ActionView,
                Seq<char>,
            >(e) ==> (r matches Err(t) && t@ == e)
            &&& read == Ok::<ClientScan, Seq<char>>(scan) && client_action(scan.rest) == Ok::<
                ActionView,
                Seq<char>,
            >(action) ==> (r matches Ok(plan) && opt_text(plan.sock) == scan.sock && plan.pid
                == scan.pid && match action {
                ActionView::List => plan.action is List,
                ActionView::Request(v) => plan.action matches ClientAction::Request(j) && json_view(
                    j,
                ) == v,
            })
        }),
{
    assert((seq![head] + args).skip(1) =~= args);
}

/// A request names its command, a success says `ok` and no more, a process number is taken as it
/// is, and the choice of a socket is handed on.
pub proof fn law_requests_name_their_command(name: &str, v: serde_json::Value, p: u64, pid: u32, r: String, sock: Option<String>, maybe: Option<u32>, dir: &str, live: &[(u32, String)], chosen: Result<String, String>)
    ensures
        call_ensures(command, (name,), v) ==> json_view(v) == JsonView::Object(
            Map::<Seq<char>, JsonView>::empty().insert("cmd"@, JsonView::Text(name@)),
        ),
        call_ensures(ok, (), r) ==> r@ == "{\"ok\":true}"@,
        p <= u32::MAX && call_ensures(client_pid, (p,), pid) ==> pid == p,
        call_ensures(resolve_socket, (sock, maybe, dir, live), chosen) ==> {
            &&& sock matches Some(s) ==> (chosen matches Ok(c) && c@ == s@)
            &&& sock is None && maybe is Some ==> (chosen matches Ok(c) && c@ == socket_of(
                dir@,
                maybe->0,
            ))
            &&& sock is None && maybe is None && live@.len() == 1 ==> (chosen matches Ok(c)
                && ({
                let (_, s) = live@[0];
                c@ == s@
            }))
            &&& sock is None && maybe is None && live@.len() != 1 ==> chosen is Err
        },
{
    if live@.len() == 1 {
        let (n, s) = live@[0];
        assert(live_view(live@)[0] == (n, s@));
    }
}

/// The instances that are listed are those that answered, with their processes and paths.
#[verifier::rlimit(40)]
pub proof fn law_listed_instances_answered(probes: &[Probe], r: Instances, i: int, j: int)
    requires
        call_ensures(list_instances, (probes,), r),
    ensures
        r.live@.len() + r.stale@.len() == probes@.len(),
        0 <= i < j < r.live@.len() ==> live_view(r.live@)[i].0 <= live_view(r.live@)[j].0,
        0 <= i < r.live@.len() ==> exists|k: int|
            0 <= k < probes@.len() && (#[trigger] probes@[k]).alive && (probes@[k].pid, probes@[k].path@)
                == live_view(r.live@)[i],
        0 <= i < r.stale@.len() ==> exists|k: int|
            0 <= k < probes@.len() && !(#[trigger] probes@[k]).alive && probes@[k].path@
                == r.stale@[i]@,
{
    let live = live_of(probes@);
    let x = live[i];
    let p = stale_of(probes@)[i];
    law_instances_are_listed(probes@, x, p);
    assert(live_view(r.live@).len() == r.live@.len());
    assert(texts(r.stale@).len() == r.stale@.len());
    if 0 <= i < r.live@.len() {
        assert(live.contains(x));
        let k = choose|k: int|
            0 <= k < probes@.len() && (#[trigger] probes@[k]).alive && probes@[k].pid == x.0
                && probes@[k].path@ == x.1;
        assert(probes@[k].alive && (probes@[k].pid, probes@[k].path@) == live_view(r.live@)[i]);
    }
    if 0 <= i < r.stale@.len() {
        assert(stale_of(probes@).contains(p));
        assert(texts(r.stale@)[i] == r.stale@[i]@);
    }
}

/// A number among the words is read where there is one; what is missing or no number counts as
/// zero, and a coordinate likewise.
pub proof fn law_missing_numbers_count_as_zero(rest: Seq<Seq<char>>, i: int, n: nat, max: nat)
    requires
        max <= u64::MAX,
    ensures
        0 <= i < rest.len() && rest[i] == decimal(n) && n <= max ==> number_at(rest, i, max) == n,
        0 <= i < rest.len() && rest[i] == decimal(n) && n > max ==> number_at(rest, i, max) == 0,
        0 <= i < rest.len() && rest[i].len() == 0 ==> number_at(rest, i, max) == 0,
        i >= rest.len() ==> number_at(rest, i, max) == 0,
        i >= rest.len() ==> coordinate_at(rest, i) == JsonView::Float(0),
        0 <= i < rest.len() && coordinate_parsed(rest[i]) is Ok ==> coordinate_at(rest, i)
            == coordinate_parsed(rest[i])->Ok_0,
        0 <= i < rest.len() && coordinate_parsed(rest[i]) is Err ==> coordinate_at(rest, i)
            == JsonView::Float(0),
{
    crate::text::law_written_numbers_are_read(n, max);
}

} // verus!
