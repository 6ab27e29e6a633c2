//! What the client asks for is what the program does: the requests that the client builds, as the
//! program reads them.

use vstd::prelude::*;
use crate::control::{
    client_action, dispatch_value, dispatched, move_target, number_at, refuse, scan_drag,
    scroll_amount, unescaped, joined, word, coordinate_at, ActionView, ControlMsg, Coord, Dispatch,
    DispatchView, DragScan, MoveTabTarget, MsgView, PromotePaneTarget, Question, ScrollAmount,
};
use crate::json::{float_bits, json_view, member_of, text_member_of, JsonView};
use crate::mcp::{called, none_view, tools_view, PlanView};
use crate::text::{decimal, is_digit};

verus! {

broadcast use vstd::seq_lib::group_seq_properties;

/// The program reads the request that the client builds from these words as `d`.
pub open spec fn arrives(rest: Seq<Seq<char>>, shot: Seq<char>, d: DispatchView) -> bool {
    client_action(rest) matches Ok(ActionView::Request(v)) && dispatched(v, shot) == d
}

proof fn lemma_commands_differ()
    ensures
        "list"@.len() == 4,
        "type"@.len() == 4,
        "paste"@.len() == 5,
        "key"@.len() == 3,
        "chord"@.len() == 5,
        "state"@.len() == 5,
        "raise"@.len() == 5,
        "about"@.len() == 5,
        "new-window"@.len() == 10,
        "merge-tab"@.len() == 9,
        "settings"@.len() == 8,
        "copy"@.len() == 4,
        "fps"@.len() == 3,
        "focus"@.len() == 5,
        "screenshot"@.len() == 10,
        "click"@.len() == 5,
        "move-tab"@.len() == 8,
        "promote-pane"@.len() == 12,
        "select"@.len() == 6,
        "scroll"@.len() == 6,
        "bell"@.len() == 4,
        "reorder-tab"@.len() == 11,
        "rename-tab"@.len() == 10,
        "edit-tab"@.len() == 8,
        "drag"@.len() == 4,
        "list"@ != "type"@,
        "list"@ != "copy"@,
        "list"@ != "bell"@,
        "list"@ != "drag"@,
        "type"@ != "copy"@,
        "type"@ != "bell"@,
        "type"@ != "drag"@,
        "paste"@ != "chord"@,
        "paste"@ != "state"@,
        "paste"@ != "raise"@,
        "paste"@ != "about"@,
        "paste"@ != "focus"@,
        "paste"@ != "click"@,
        "key"@ != "fps"@,
        "chord"@ != "state"@,
        "chord"@ != "raise"@,
        "chord"@ != "about"@,
        "chord"@ != "focus"@,
        "chord"@ != "click"@,
        "state"@ != "raise"@,
        "state"@ != "about"@,
        "state"@ != "focus"@,
        "state"@ != "click"@,
        "raise"@ != "about"@,
        "raise"@ != "focus"@,
        "raise"@ != "click"@,
        "about"@ != "focus"@,
        "about"@ != "click"@,
        "new-window"@ != "screenshot"@,
        "new-window"@ != "rename-tab"@,
        "settings"@ != "move-tab"@,
        "settings"@ != "edit-tab"@,
        "copy"@ != "bell"@,
        "copy"@ != "drag"@,
        "focus"@ != "click"@,
        "screenshot"@ != "rename-tab"@,
        "move-tab"@ != "edit-tab"@,
        "select"@ != "scroll"@,
        "bell"@ != "drag"@,
{
    reveal_strlit("list");
    reveal_strlit("type");
    reveal_strlit("paste");
    reveal_strlit("key");
    reveal_strlit("chord");
    reveal_strlit("state");
    reveal_strlit("raise");
    reveal_strlit("about");
    reveal_strlit("new-window");
    reveal_strlit("merge-tab");
    reveal_strlit("settings");
    reveal_strlit("copy");
    reveal_strlit("fps");
    reveal_strlit("focus");
    reveal_strlit("screenshot");
    reveal_strlit("click");
    reveal_strlit("move-tab");
    reveal_strlit("promote-pane");
    reveal_strlit("select");
    reveal_strlit("scroll");
    reveal_strlit("bell");
    reveal_strlit("reorder-tab");
    reveal_strlit("rename-tab");
    reveal_strlit("edit-tab");
    reveal_strlit("drag");
    assert("list"@[0] != "type"@[0]);
    assert("list"@[0] != "copy"@[0]);
    assert("list"@[0] != "bell"@[0]);
    assert("list"@[0] != "drag"@[0]);
    assert("type"@[0] != "copy"@[0]);
    assert("type"@[0] != "bell"@[0]);
    assert("type"@[0] != "drag"@[0]);
    assert("paste"@[0] != "chord"@[0]);
    assert("paste"@[0] != "state"@[0]);
    assert("paste"@[0] != "raise"@[0]);
    assert("paste"@[0] != "about"@[0]);
    assert("paste"@[0] != "focus"@[0]);
    assert("paste"@[0] != "click"@[0]);
    assert("key"@[0] != "fps"@[0]);
    assert("chord"@[0] != "state"@[0]);
    assert("chord"@[0] != "raise"@[0]);
    assert("chord"@[0] != "about"@[0]);
    assert("chord"@[0] != "focus"@[0]);
    assert("chord"@[1] != "click"@[1]);
    assert("state"@[0] != "raise"@[0]);
    assert("state"@[0] != "about"@[0]);
    assert("state"@[0] != "focus"@[0]);
    assert("state"@[0] != "click"@[0]);
    assert("raise"@[0] != "about"@[0]);
    assert("raise"@[0] != "focus"@[0]);
    assert("raise"@[0] != "click"@[0]);
    assert("about"@[0] != "focus"@[0]);
    assert("about"@[0] != "click"@[0]);
    assert("new-window"@[0] != "screenshot"@[0]);
    assert("new-window"@[0] != "rename-tab"@[0]);
    assert("settings"@[0] != "move-tab"@[0]);
    assert("settings"@[0] != "edit-tab"@[0]);
    assert("copy"@[0] != "bell"@[0]);
    assert("copy"@[0] != "drag"@[0]);
    assert("focus"@[0] != "click"@[0]);
    assert("screenshot"@[0] != "rename-tab"@[0]);
    assert("move-tab"@[0] != "edit-tab"@[0]);
    assert("select"@[1] != "scroll"@[1]);
    assert("bell"@[0] != "drag"@[0]);
}

proof fn lemma_members_differ()
    ensures
        "cmd"@.len() == 3,
        "text"@.len() == 4,
        "name"@.len() == 4,
        "keys"@.len() == 4,
        "query"@.len() == 5,
        "path"@.len() == 4,
        "x"@.len() == 1,
        "y"@.len() == 1,
        "to"@.len() == 2,
        "r1"@.len() == 2,
        "c1"@.len() == 2,
        "r2"@.len() == 2,
        "c2"@.len() == 2,
        "mode"@.len() == 4,
        "dir"@.len() == 3,
        "tab"@.len() == 3,
        "from"@.len() == 4,
        "i"@.len() == 1,
        "x1"@.len() == 2,
        "y1"@.len() == 2,
        "x2"@.len() == 2,
        "y2"@.len() == 2,
        "steps"@.len() == 5,
        "mods"@.len() == 4,
        "cancel"@.len() == 6,
        "window"@.len() == 6,
        "cmd"@ != "dir"@,
        "cmd"@ != "tab"@,
        "text"@ != "name"@,
        "text"@ != "keys"@,
        "text"@ != "path"@,
        "text"@ != "mode"@,
        "text"@ != "from"@,
        "text"@ != "mods"@,
        "name"@ != "keys"@,
        "name"@ != "path"@,
        "name"@ != "mode"@,
        "name"@ != "from"@,
        "name"@ != "mods"@,
        "keys"@ != "path"@,
        "keys"@ != "mode"@,
        "keys"@ != "from"@,
        "keys"@ != "mods"@,
        "query"@ != "steps"@,
        "path"@ != "mode"@,
        "path"@ != "from"@,
        "path"@ != "mods"@,
        "x"@ != "y"@,
        "x"@ != "i"@,
        "y"@ != "i"@,
        "to"@ != "r1"@,
        "to"@ != "c1"@,
        "to"@ != "r2"@,
        "to"@ != "c2"@,
        "to"@ != "x1"@,
        "to"@ != "y1"@,
        "to"@ != "x2"@,
        "to"@ != "y2"@,
        "r1"@ != "c1"@,
        "r1"@ != "r2"@,
        "r1"@ != "c2"@,
        "r1"@ != "x1"@,
        "r1"@ != "y1"@,
        "r1"@ != "x2"@,
        "r1"@ != "y2"@,
        "c1"@ != "r2"@,
        "c1"@ != "c2"@,
        "c1"@ != "x1"@,
        "c1"@ != "y1"@,
        "c1"@ != "x2"@,
        "c1"@ != "y2"@,
        "r2"@ != "c2"@,
        "r2"@ != "x1"@,
        "r2"@ != "y1"@,
        "r2"@ != "x2"@,
        "r2"@ != "y2"@,
        "c2"@ != "x1"@,
        "c2"@ != "y1"@,
        "c2"@ != "x2"@,
        "c2"@ != "y2"@,
        "mode"@ != "from"@,
        "mode"@ != "mods"@,
        "dir"@ != "tab"@,
        "from"@ != "mods"@,
        "x1"@ != "y1"@,
        "x1"@ != "x2"@,
        "x1"@ != "y2"@,
        "y1"@ != "x2"@,
        "y1"@ != "y2"@,
        "x2"@ != "y2"@,
        "cancel"@ != "window"@,
{
    reveal_strlit("cmd");
    reveal_strlit("text");
    reveal_strlit("name");
    reveal_strlit("keys");
    reveal_strlit("query");
    reveal_strlit("path");
    reveal_strlit("x");
    reveal_strlit("y");
    reveal_strlit("to");
    reveal_strlit("r1");
    reveal_strlit("c1");
    reveal_strlit("r2");
    reveal_strlit("c2");
    reveal_strlit("mode");
    reveal_strlit("dir");
    reveal_strlit("tab");
    reveal_strlit("from");
    reveal_strlit("i");
    reveal_strlit("x1");
    reveal_strlit("y1");
    reveal_strlit("x2");
    reveal_strlit("y2");
    reveal_strlit("steps");
    reveal_strlit("mods");
    reveal_strlit("cancel");
    reveal_strlit("window");
    assert("cmd"@[0] != "dir"@[0]);
    assert("cmd"@[0] != "tab"@[0]);
    assert("text"@[0] != "name"@[0]);
    assert("text"@[0] != "keys"@[0]);
    assert("text"@[0] != "path"@[0]);
    assert("text"@[0] != "mode"@[0]);
    assert("text"@[0] != "from"@[0]);
    assert("text"@[0] != "mods"@[0]);
    assert("name"@[0] != "keys"@[0]);
    assert("name"@[0] != "path"@[0]);
    assert("name"@[0] != "mode"@[0]);
    assert("name"@[0] != "from"@[0]);
    assert("name"@[0] != "mods"@[0]);
    assert("keys"@[0] != "path"@[0]);
    assert("keys"@[0] != "mode"@[0]);
    assert("keys"@[0] != "from"@[0]);
    assert("keys"@[0] != "mods"@[0]);
    assert("query"@[0] != "steps"@[0]);
    assert("path"@[0] != "mode"@[0]);
    assert("path"@[0] != "from"@[0]);
    assert("path"@[0] != "mods"@[0]);
    assert("x"@[0] != "y"@[0]);
    assert("x"@[0] != "i"@[0]);
    assert("y"@[0] != "i"@[0]);
    assert("to"@[0] != "r1"@[0]);
    assert("to"@[0] != "c1"@[0]);
    assert("to"@[0] != "r2"@[0]);
    assert("to"@[0] != "c2"@[0]);
    assert("to"@[0] != "x1"@[0]);
    assert("to"@[0] != "y1"@[0]);
    assert("to"@[0] != "x2"@[0]);
    assert("to"@[0] != "y2"@[0]);
    assert("r1"@[0] != "c1"@[0]);
    assert("r1"@[1] != "r2"@[1]);
    assert("r1"@[0] != "c2"@[0]);
    assert("r1"@[0] != "x1"@[0]);
    assert("r1"@[0] != "y1"@[0]);
    assert("r1"@[0] != "x2"@[0]);
    assert("r1"@[0] != "y2"@[0]);
    assert("c1"@[0] != "r2"@[0]);
    assert("c1"@[1] != "c2"@[1]);
    assert("c1"@[0] != "x1"@[0]);
    assert("c1"@[0] != "y1"@[0]);
    assert("c1"@[0] != "x2"@[0]);
    assert("c1"@[0] != "y2"@[0]);
    assert("r2"@[0] != "c2"@[0]);
    assert("r2"@[0] != "x1"@[0]);
    assert("r2"@[0] != "y1"@[0]);
    assert("r2"@[0] != "x2"@[0]);
    assert("r2"@[0] != "y2"@[0]);
    assert("c2"@[0] != "x1"@[0]);
    assert("c2"@[0] != "y1"@[0]);
    assert("c2"@[0] != "x2"@[0]);
    assert("c2"@[0] != "y2"@[0]);
    assert("mode"@[0] != "from"@[0]);
    assert("mode"@[3] != "mods"@[3]);
    assert("dir"@[0] != "tab"@[0]);
    assert("from"@[0] != "mods"@[0]);
    assert("x1"@[0] != "y1"@[0]);
    assert("x1"@[1] != "x2"@[1]);
    assert("x1"@[0] != "y2"@[0]);
    assert("y1"@[0] != "x2"@[0]);
    assert("y1"@[1] != "y2"@[1]);
    assert("x2"@[0] != "y2"@[0]);
    assert("cancel"@[0] != "window"@[0]);
}

/// Text and keys arrive as they were given, typed and pasted text with its escapes resolved.
pub proof fn law_text_arrives(rest: Seq<Seq<char>>, shot: Seq<char>)
    requires
        rest.len() > 0,
    ensures
        rest[0] == "type"@ ==> arrives(
            rest,
            shot,
            DispatchView::Send(MsgView::Type(unescaped(word(rest, 1)))),
        ),
        rest[0] == "paste"@ ==> arrives(
            rest,
            shot,
            DispatchView::Send(MsgView::Paste(unescaped(word(rest, 1)))),
        ),
        rest[0] == "key"@ ==> arrives(
            rest,
            shot,
            DispatchView::Send(MsgView::Key(word(rest, 1))),
        ),
        rest[0] == "chord"@ ==> arrives(
            rest,
            shot,
            DispatchView::Send(MsgView::Chord(word(rest, 1))),
        ),
        rest[0] == "focus"@ && joined(rest.skip(1)).len() > 0 ==> arrives(
            rest,
            shot,
            DispatchView::Ask(MsgView::Focus(joined(rest.skip(1))), Question::Focus),
        ),
{
    lemma_commands_differ();
    lemma_members_differ();
}

/// Commands without arguments arrive as themselves.
pub proof fn law_bare_commands_arrive(rest: Seq<Seq<char>>, shot: Seq<char>)
    requires
        rest.len() > 0,
    ensures
        rest[0] == "state"@ ==> arrives(
            rest,
            shot,
            DispatchView::Ask(MsgView::State, Question::State),
        ),
        rest[0] == "merge-tab"@ ==> arrives(
            rest,
            shot,
            DispatchView::Ask(MsgView::MergeTab, Question::MergeTab),
        ),
        rest[0] == "raise"@ ==> arrives(
            rest,
            shot,
            DispatchView::Send(MsgView::Raise),
        ),
        rest[0] == "about"@ ==> arrives(
            rest,
            shot,
            DispatchView::Send(MsgView::About),
        ),
        rest[0] == "new-window"@ ==> arrives(
            rest,
            shot,
            DispatchView::Send(MsgView::NewWindow),
        ),
        rest[0] == "settings"@ ==> arrives(
            rest,
            shot,
            DispatchView::Send(MsgView::Settings),
        ),
        rest[0] == "copy"@ ==> arrives(
            rest,
            shot,
            DispatchView::Send(MsgView::Copy),
        ),
        rest[0] == "fps"@ ==> arrives(
            rest,
            shot,
            DispatchView::Send(MsgView::Fps),
        ),
{
    lemma_commands_differ();
    lemma_members_differ();
}

/// A target arrives as the program understands it, or is refused by it with the choices.
pub proof fn law_targets_arrive(rest: Seq<Seq<char>>, shot: Seq<char>)
    requires
        rest.len() > 0,
    ensures
        rest[0] == "move-tab"@ ==> arrives(
            rest,
            shot,
            match move_target(word(rest, 1)) {
                Some(t) => DispatchView::Ask(MsgView::MoveTab(t), Question::MoveTab),
                None => refuse("move-tab: to = new|next|prev|<1-based window number>"@),
            },
        ),
        rest[0] == "promote-pane"@ && word(rest, 1) == "tab"@ ==> arrives(
            rest,
            shot,
            DispatchView::Ask(MsgView::PromotePane(PromotePaneTarget::Tab), Question::PromotePane),
        ),
        rest[0] == "promote-pane"@ && word(rest, 1) == "window"@ ==> arrives(
            rest,
            shot,
            DispatchView::Ask(MsgView::PromotePane(PromotePaneTarget::Window), Question::PromotePane),
        ),
        rest[0] == "scroll"@ ==> arrives(
            rest,
            shot,
            match scroll_amount(word(rest, 1)) {
                Some(a) => DispatchView::Send(MsgView::Scroll(a)),
                None => refuse("scroll: dir = top|bottom|page-up|page-down|<lines>"@),
            },
        ),
{
    lemma_commands_differ();
    lemma_members_differ();
}

/// The numbers and names of tabs arrive as they were given, a number that is none as zero.
pub proof fn law_tab_commands_arrive(rest: Seq<Seq<char>>, shot: Seq<char>)
    requires
        rest.len() > 0,
    ensures
        rest[0] == "reorder-tab"@ ==> arrives(
            rest,
            shot,
            DispatchView::Send(
                MsgView::ReorderTab(
                    number_at(rest, 1, u64::MAX as nat) as usize,
                    number_at(rest, 2, u64::MAX as nat) as usize,
                ),
            ),
        ),
        rest[0] == "rename-tab"@ && rest.len() >= 2 ==> arrives(
            rest,
            shot,
            DispatchView::Send(
                MsgView::RenameTab(
                    number_at(rest, 1, u64::MAX as nat) as usize,
                    joined(rest.skip(2)),
                ),
            ),
        ),
        rest[0] == "edit-tab"@ ==> arrives(
            rest,
            shot,
            DispatchView::Send(MsgView::EditTab(number_at(rest, 1, u64::MAX as nat) as usize)),
        ),
        rest[0] == "bell"@ && rest.len() == 1 ==> arrives(
            rest,
            shot,
            DispatchView::Send(MsgView::Bell(None)),
        ),
{
    lemma_commands_differ();
    lemma_members_differ();
}

/// The cells of a selection arrive as they were given.
pub proof fn law_selections_arrive(rest: Seq<Seq<char>>, shot: Seq<char>)
    requires
        rest.len() > 0,
    ensures
        rest[0] == "select"@ && rest.len() > 5 ==> arrives(
            rest,
            shot,
            DispatchView::Send(
                MsgView::Select(
                    number_at(rest, 1, u16::MAX as nat) as u16,
                    number_at(rest, 2, u16::MAX as nat) as u16,
                    number_at(rest, 3, u16::MAX as nat) as u16,
                    number_at(rest, 4, u16::MAX as nat) as u16,
                    rest[5],
                ),
            ),
        ),
        rest[0] == "screenshot"@ && word(rest, 1).len() > 0 ==> arrives(
            rest,
            shot,
            DispatchView::Ask(MsgView::Screenshot(word(rest, 1)), Question::Screenshot),
        ),
{
    lemma_commands_differ();
    lemma_members_differ();
}

/// The coordinate that a number stands for; zero where it is none.
pub open spec fn coord_of(v: JsonView) -> Coord {
    Coord {
        bits: match float_bits(v) {
            Some(b) => b,
            None => 0,
        },
    }
}

/// Points arrive as they were given, with what is held during a drag and how it ends.
pub proof fn law_points_arrive(rest: Seq<Seq<char>>, shot: Seq<char>)
    requires
        rest.len() > 0,
    ensures
        rest[0] == "click"@ ==> arrives(
            rest,
            shot,
            DispatchView::Send(
                MsgView::Click(
                    coord_of(coordinate_at(rest, 1)),
                    coord_of(coordinate_at(rest, 2)),
                ),
            ),
        ),
{
    lemma_commands_differ();
    lemma_members_differ();
}

/// A drag arrives with its points, its steps, what is held, and how it ends.
pub proof fn law_drags_arrive(rest: Seq<Seq<char>>, shot: Seq<char>, d: DragScan)
    requires
        rest.len() > 0,
        rest[0] == "drag"@,
        scan_drag(
            rest.skip(1),
            DragScan { points: Seq::empty(), steps: 8, mods: Seq::empty(), cancel: false },
        ) == Ok::<DragScan, Seq<char>>(d),
        d.points.len() == 4,
    ensures
        arrives(
            rest,
            shot,
            DispatchView::Ask(
                MsgView::Drag {
                    x1: coord_of(d.points[0]),
                    y1: coord_of(d.points[1]),
                    x2: coord_of(d.points[2]),
                    y2: coord_of(d.points[3]),
                    steps: (d.steps as u64) as usize,
                    mods: d.mods,
                    cancel: d.cancel,
                },
                Question::Drag,
            ),
        ),
{
    lemma_commands_differ();
    lemma_members_differ();
}

/// Whatever the client sends, the program knows the command: it refuses only a target that it does not know.
pub proof fn law_client_sends_only_known_commands(rest: Seq<Seq<char>>, shot: Seq<char>, v: JsonView)
    requires
        rest.len() > 0,
        client_action(rest) == Ok::<ActionView, Seq<char>>(ActionView::Request(v)),
    ensures
        dispatched(v, shot) is Reply ==> rest[0] == "move-tab"@ || rest[0] == "promote-pane"@
            || rest[0] == "scroll"@,
{
    lemma_commands_differ();
    lemma_members_differ();
}

// ---- tools -----------------------------------------------------------------

proof fn lemma_tools_differ()
    ensures
        "ember_list"@.len() == 10,
        "ember_state"@.len() == 11,
        "ember_focus"@.len() == 11,
        "ember_raise"@.len() == 11,
        "ember_type"@.len() == 10,
        "ember_key"@.len() == 9,
        "ember_chord"@.len() == 11,
        "ember_screenshot"@.len() == 16,
        "ember_live_screenshot"@.len() == 21,
        "ember_move_tab"@.len() == 14,
        "ember_promote_pane"@.len() == 18,
        "ember_merge_tab"@.len() == 15,
        "ember_list"@ != "ember_type"@,
        "ember_state"@ != "ember_focus"@,
        "ember_state"@ != "ember_raise"@,
        "ember_state"@ != "ember_chord"@,
        "ember_focus"@ != "ember_raise"@,
        "ember_focus"@ != "ember_chord"@,
        "ember_raise"@ != "ember_chord"@,
{
    reveal_strlit("ember_list");
    reveal_strlit("ember_state");
    reveal_strlit("ember_focus");
    reveal_strlit("ember_raise");
    reveal_strlit("ember_type");
    reveal_strlit("ember_key");
    reveal_strlit("ember_chord");
    reveal_strlit("ember_screenshot");
    reveal_strlit("ember_live_screenshot");
    reveal_strlit("ember_move_tab");
    reveal_strlit("ember_promote_pane");
    reveal_strlit("ember_merge_tab");
    assert("ember_list"@[6] != "ember_type"@[6]);
    assert("ember_state"@[6] != "ember_focus"@[6]);
    assert("ember_state"@[6] != "ember_raise"@[6]);
    assert("ember_state"@[6] != "ember_chord"@[6]);
    assert("ember_focus"@[6] != "ember_raise"@[6]);
    assert("ember_focus"@[6] != "ember_chord"@[6]);
    assert("ember_raise"@[6] != "ember_chord"@[6]);
}

proof fn lemma_schema_members_differ()
    ensures
        "name"@.len() == 4,
        "description"@.len() == 11,
        "inputSchema"@.len() == 11,
        "type"@.len() == 4,
        "properties"@.len() == 10,
        "required"@.len() == 8,
        "arguments"@.len() == 9,
        "name"@ != "type"@,
        "description"@ != "inputSchema"@,
{
    reveal_strlit("name");
    reveal_strlit("description");
    reveal_strlit("inputSchema");
    reveal_strlit("type");
    reveal_strlit("properties");
    reveal_strlit("required");
    reveal_strlit("arguments");
    assert("name"@[0] != "type"@[0]);
    assert("description"@[0] != "inputSchema"@[0]);
}

/// The arguments of a call.
pub open spec fn arguments(params: JsonView) -> JsonView {
    match member_of(params, "arguments"@) {
        Some(a) => a,
        None => none_view(),
    }
}

/// The schema of a tool demands an argument.
pub open spec fn demands(tool: JsonView, key: Seq<char>) -> bool {
    match member_of(tool, "inputSchema"@) {
        Some(schema) => match member_of(schema, "required"@) {
            Some(JsonView::List(items)) => items.contains(JsonView::Text(key)),
            _ => false,
        },
        None => false,
    }
}

/// A tool on offer can be called: with the arguments that its schema demands, a call is planned.
pub proof fn law_offered_tools_can_be_called(i: int, params: JsonView)
    requires
        0 <= i < tools_view().len(),
        text_member_of(params, "name"@) == text_member_of(tools_view()[i], "name"@),
        forall|key: Seq<char>|
            demands(tools_view()[i], key) ==> #[trigger] text_member_of(arguments(params), key)
                is Some,
    ensures
        !(called(Some(params)) is Fail),
{
    lemma_tools_differ();
    lemma_schema_members_differ();
    let tool = tools_view()[i];
    let args = arguments(params);
    if 0 <= i < 12 {
        let name = text_member_of(tool, "name"@);
        assert(name is Some);
        let needs = |key: Seq<char>|
            seq![JsonView::Text(key)].contains(JsonView::Text(key));
        assert forall|key: Seq<char>| #[trigger] needs(key) by {
            assert(seq![JsonView::Text(key)][0] == JsonView::Text(key));
        }
        assert(needs("query"@) && needs("text"@) && needs("name"@) && needs("keys"@) && needs("to"@));
        assert(i == 2 ==> demands(tool, "query"@));
        assert(i == 4 ==> demands(tool, "text"@));
        assert(i == 5 ==> demands(tool, "name"@));
        assert(i == 6 ==> demands(tool, "keys"@));
        assert(i == 9 ==> demands(tool, "to"@));
        assert(i == 10 ==> demands(tool, "to"@));
        assert(i == 2 ==> text_member_of(args, "query"@) is Some);
        assert(i == 4 ==> text_member_of(args, "text"@) is Some);
        assert(i == 5 ==> text_member_of(args, "name"@) is Some);
        assert(i == 6 ==> text_member_of(args, "keys"@) is Some);
        assert(i == 9 || i == 10 ==> text_member_of(args, "to"@) is Some);
    }
}

/// What a tool sends, the program knows: it refuses only a target that it does not know.
pub proof fn law_tools_send_only_known_commands(params: JsonView, shot: Seq<char>)
    ensures
        called(Some(params)) matches PlanView::Send { request, .. } ==> (dispatched(request, shot)
            is Reply ==> text_member_of(params, "name"@) == Some("ember_move_tab"@)
            || text_member_of(params, "name"@) == Some("ember_promote_pane"@)),
{
    lemma_commands_differ();
    lemma_members_differ();
}

/// What a tool types, presses or asks for arrives as it was given.
pub proof fn law_tool_text_arrives(params: JsonView, shot: Seq<char>, given: Seq<char>)
    ensures
        text_member_of(params, "name"@) == Some("ember_type"@) && text_member_of(
            arguments(params),
            "text"@,
        ) == Some(given) ==> (called(Some(params)) matches PlanView::Send { request, .. }
            && dispatched(request, shot) == DispatchView::Send(MsgView::Type(given))),
        text_member_of(params, "name"@) == Some("ember_key"@) && text_member_of(
            arguments(params),
            "name"@,
        ) == Some(given) ==> (called(Some(params)) matches PlanView::Send { request, .. }
            && dispatched(request, shot) == DispatchView::Send(MsgView::Key(given))),
        text_member_of(params, "name"@) == Some("ember_chord"@) && text_member_of(
            arguments(params),
            "keys"@,
        ) == Some(given) ==> (called(Some(params)) matches PlanView::Send { request, .. }
            && dispatched(request, shot) == DispatchView::Send(MsgView::Chord(given))),
        text_member_of(params, "name"@) == Some("ember_focus"@) && text_member_of(
            arguments(params),
            "query"@,
        ) == Some(given) ==> (called(Some(params)) matches PlanView::Send { request, .. }
            && dispatched(request, shot) == DispatchView::Ask(
            MsgView::Focus(given),
            Question::Focus,
        )),
{
    lemma_tools_differ();
    lemma_commands_differ();
    lemma_members_differ();
}

// ---- the protocol ----------------------------------------------------------

/// The object has that member.
pub open spec fn says(m: Map<Seq<char>, JsonView>, key: Seq<char>, value: JsonView) -> bool {
    m.contains_key(key) && m[key] == value
}

/// The members that carry text: `text` for typing and pasting, `name` for a key, `keys` for a
/// chord, `query` for a title and `path` for a picture. Text that is typed, pasted, pressed or
/// looked for is handed on unchanged.
#[verifier::rlimit(40)]
pub proof fn law_server_takes_text(m: Map<Seq<char>, JsonView>, shot: Seq<char>, s: Seq<char>)
    ensures
        ({
            let done = dispatched(JsonView::Object(m), shot);
            let asks = |cmd: Seq<char>, key: Seq<char>| says(m, "cmd"@, JsonView::Text(cmd)) && says(
                m,
                key,
                JsonView::Text(s),
            );
            &&& asks("type"@, "text"@) ==> done == DispatchView::Send(MsgView::Type(s))
            &&& asks("paste"@, "text"@) ==> done == DispatchView::Send(MsgView::Paste(s))
            &&& asks("key"@, "name"@) ==> done == DispatchView::Send(MsgView::Key(s))
            &&& asks("chord"@, "keys"@) ==> done == DispatchView::Send(MsgView::Chord(s))
            &&& asks("focus"@, "query"@) ==> done == DispatchView::Ask(
                MsgView::Focus(s),
                Question::Focus,
            )
            &&& asks("screenshot"@, "path"@) ==> done == DispatchView::Ask(
                MsgView::Screenshot(s),
                Question::Screenshot,
            )
            &&& says(m, "cmd"@, JsonView::Text("screenshot"@)) && !m.contains_key("path"@) ==> done
                == DispatchView::Ask(MsgView::Screenshot(shot), Question::Screenshot)
        }),
{
    lemma_commands_differ();
    lemma_members_differ();
}

/// The commands that say all by their name.
#[verifier::rlimit(40)]
pub proof fn law_server_takes_bare_commands(m: Map<Seq<char>, JsonView>, shot: Seq<char>)
    ensures
        ({
            let done = dispatched(JsonView::Object(m), shot);
            let asks = |cmd: Seq<char>| says(m, "cmd"@, JsonView::Text(cmd));
            &&& asks("state"@) ==> done == DispatchView::Ask(MsgView::State, Question::State)
            &&& asks("merge-tab"@) ==> done == DispatchView::Ask(
                MsgView::MergeTab,
                Question::MergeTab,
            )
            &&& asks("raise"@) ==> done == DispatchView::Send(MsgView::Raise)
            &&& asks("about"@) ==> done == DispatchView::Send(MsgView::About)
            &&& asks("settings"@) ==> done == DispatchView::Send(MsgView::Settings)
            &&& asks("new-window"@) ==> done == DispatchView::Send(MsgView::NewWindow)
            &&& asks("copy"@) ==> done == DispatchView::Send(MsgView::Copy)
            &&& asks("fps"@) ==> done == DispatchView::Send(MsgView::Fps)
        }),
{
    lemma_commands_differ();
    lemma_members_differ();
}

/// Where a tab is moved to: `new`, `next` and `prev` are the targets of these names, and a number
/// from 1 on is the window of that number; anything else is refused.
#[verifier::rlimit(40)]
pub proof fn law_server_takes_move_targets(m: Map<Seq<char>, JsonView>, shot: Seq<char>, n: usize)
    requires
        says(m, "cmd"@, JsonView::Text("move-tab"@)),
    ensures
        ({
            let done = dispatched(JsonView::Object(m), shot);
            let to = |s: Seq<char>| says(m, "to"@, JsonView::Text(s));
            &&& to("new"@) ==> done == DispatchView::Ask(
                MsgView::MoveTab(MoveTabTarget::New),
                Question::MoveTab,
            )
            &&& to("next"@) ==> done == DispatchView::Ask(
                MsgView::MoveTab(MoveTabTarget::Next),
                Question::MoveTab,
            )
            &&& to("prev"@) ==> done == DispatchView::Ask(
                MsgView::MoveTab(MoveTabTarget::Prev),
                Question::MoveTab,
            )
            &&& to(decimal(n as nat)) && n >= 1 ==> done == DispatchView::Ask(
                MsgView::MoveTab(MoveTabTarget::Window(n)),
                Question::MoveTab,
            )
            &&& to(decimal(0)) || !m.contains_key("to"@) ==> done is Reply
            &&& done matches DispatchView::Ask(msg, q) ==> q == Question::MoveTab && msg is MoveTab
        }),
{
    lemma_commands_differ();
    lemma_members_differ();
    lemma_targets_differ();
    crate::text::lemma_decimal(n as nat);
    crate::text::lemma_decimal(0);
    crate::text::law_written_numbers_are_read(n as nat, usize::MAX as nat);
    crate::text::law_written_numbers_are_read(0, usize::MAX as nat);
    crate::text::law_written_numbers_are_read(0, 0);
    assert(is_digit(decimal(n as nat)[0]));
    assert(is_digit(decimal(0)[0]));
}

proof fn lemma_targets_differ()
    ensures
        "new"@.len() == 3 && "new"@[0] == 'n',
        "next"@.len() == 4 && "next"@[0] == 'n',
        "prev"@.len() == 4 && "prev"@[0] == 'p',
        "tab"@.len() == 3 && "window"@.len() == 6,
        "top"@.len() == 3 && "top"@[0] == 't',
        "bottom"@.len() == 6 && "bottom"@[0] == 'b',
        "page-up"@.len() == 7 && "page-up"@[0] == 'p',
        "pageup"@.len() == 6 && "pageup"@[0] == 'p',
        "page-down"@.len() == 9 && "page-down"@[0] == 'p',
        "pagedown"@.len() == 8 && "pagedown"@[0] == 'p',
{
    reveal_strlit("new");
    reveal_strlit("next");
    reveal_strlit("prev");
    reveal_strlit("tab");
    reveal_strlit("window");
    reveal_strlit("top");
    reveal_strlit("bottom");
    reveal_strlit("page-up");
    reveal_strlit("pageup");
    reveal_strlit("page-down");
    reveal_strlit("pagedown");
}

/// Where a pane goes, and how far a pane is scrolled: by name, or by a number of lines with an
/// optional minus sign.
#[verifier::rlimit(40)]
pub proof fn law_server_takes_other_targets(m: Map<Seq<char>, JsonView>, shot: Seq<char>, n: nat)
    ensures
        ({
            let done = dispatched(JsonView::Object(m), shot);
            let promotes = |s: Seq<char>| says(m, "cmd"@, JsonView::Text("promote-pane"@)) && says(
                m,
                "to"@,
                JsonView::Text(s),
            );
            let scrolls = |s: Seq<char>| says(m, "cmd"@, JsonView::Text("scroll"@)) && says(
                m,
                "dir"@,
                JsonView::Text(s),
            );
            &&& promotes("tab"@) ==> done == DispatchView::Ask(
                MsgView::PromotePane(PromotePaneTarget::Tab),
                Question::PromotePane,
            )
            &&& promotes("window"@) ==> done == DispatchView::Ask(
                MsgView::PromotePane(PromotePaneTarget::Window),
                Question::PromotePane,
            )
            &&& scrolls("top"@) ==> done == DispatchView::Send(MsgView::Scroll(ScrollAmount::Top))
            &&& scrolls("bottom"@) ==> done == DispatchView::Send(
                MsgView::Scroll(ScrollAmount::Bottom),
            )
            &&& scrolls("page-up"@) || scrolls("pageup"@) ==> done == DispatchView::Send(
                MsgView::Scroll(ScrollAmount::PageUp),
            )
            &&& scrolls("page-down"@) || scrolls("pagedown"@) ==> done == DispatchView::Send(
                MsgView::Scroll(ScrollAmount::PageDown),
            )
            &&& scrolls(decimal(n)) && n <= i32::MAX ==> done == DispatchView::Send(
                MsgView::Scroll(ScrollAmount::Lines(n as i32)),
            )
            &&& scrolls(seq!['-'] + decimal(n)) && n <= i32::MAX ==> done == DispatchView::Send(
                MsgView::Scroll(ScrollAmount::Lines((-n) as i32)),
            )
        }),
{
    lemma_commands_differ();
    lemma_members_differ();
    lemma_targets_differ();
    let minus = seq!['-'] + decimal(n);
    crate::text::lemma_decimal(n);
    crate::text::law_written_numbers_are_read(n, 2147483647);
    crate::text::law_written_numbers_are_read(n, 2147483648);
    assert(is_digit(decimal(n)[0]));
    assert(minus[0] == '-');
    assert(minus.skip(1) =~= decimal(n));
    assert(minus[1] == decimal(n)[0]);
}

/// The members that carry numbers: `from` and `to` for a reordered tab, `i` for a renamed or edited
/// one, `tab` for a bell, `r1`, `c1`, `r2`, `c2` and `mode` for a selection, `x` and `y` for a
/// click.
#[verifier::rlimit(40)]
pub proof fn law_server_takes_numbers(
    m: Map<Seq<char>, JsonView>,
    shot: Seq<char>,
    a: u64,
    b: u64,
    c: u64,
    d: u64,
    s: Seq<char>,
)
    requires
        a <= u16::MAX && b <= u16::MAX && c <= u16::MAX && d <= u16::MAX,
    ensures
        ({
            let done = dispatched(JsonView::Object(m), shot);
            let asks = |cmd: Seq<char>| says(m, "cmd"@, JsonView::Text(cmd));
            let num = |key: Seq<char>, n: u64| says(m, key, JsonView::Unsigned(n));
            &&& asks("reorder-tab"@) && num("from"@, a) && num("to"@, b) ==> done
                == DispatchView::Send(MsgView::ReorderTab(a as usize, b as usize))
            &&& asks("rename-tab"@) && num("i"@, a) && says(m, "name"@, JsonView::Text(s)) ==> done
                == DispatchView::Send(MsgView::RenameTab(a as usize, s))
            &&& asks("edit-tab"@) && num("i"@, a) ==> done == DispatchView::Send(
                MsgView::EditTab(a as usize),
            )
            &&& asks("bell"@) && num("tab"@, a) ==> done == DispatchView::Send(
                MsgView::Bell(Some(a as usize)),
            )
            &&& asks("bell"@) && !m.contains_key("tab"@) ==> done == DispatchView::Send(
                MsgView::Bell(None),
            )
            &&& asks("select"@) && num("r1"@, a) && num("c1"@, b) && num("r2"@, c) && num("c2"@, d)
                && says(m, "mode"@, JsonView::Text(s)) ==> done == DispatchView::Send(
                MsgView::Select(a as u16, b as u16, c as u16, d as u16, s),
            )
            &&& asks("select"@) && num("r1"@, a) && num("c1"@, b) && num("r2"@, c) && num("c2"@, d)
                && !m.contains_key("mode"@) ==> done == DispatchView::Send(
                MsgView::Select(a as u16, b as u16, c as u16, d as u16, "simple"@),
            )
            &&& asks("click"@) && says(m, "x"@, JsonView::Float(a)) && says(
                m,
                "y"@,
                JsonView::Float(b),
            ) ==> done == DispatchView::Send(
                MsgView::Click(Coord { bits: a }, Coord { bits: b }),
            )
        }),
{
    lemma_commands_differ();
    lemma_members_differ();
}

/// A drag goes from `x1`, `y1` to `x2`, `y2` in `steps` steps, eight where none are named, with
/// `mods` held, and is called off where `cancel` is true.
#[verifier::rlimit(40)]
pub proof fn law_server_takes_drags(
    m: Map<Seq<char>, JsonView>,
    shot: Seq<char>,
    a: u64,
    b: u64,
    c: u64,
    d: u64,
    steps: u64,
    mods: Seq<char>,
)
    requires
        says(m, "cmd"@, JsonView::Text("drag"@)),
        says(m, "x1"@, JsonView::Float(a)) && says(m, "y1"@, JsonView::Float(b)),
        says(m, "x2"@, JsonView::Float(c)) && says(m, "y2"@, JsonView::Float(d)),
        steps <= u32::MAX,
        says(m, "steps"@, JsonView::Unsigned(steps)) || (!m.contains_key("steps"@) && steps == 8),
        says(m, "mods"@, JsonView::Text(mods)) || (!m.contains_key("mods"@) && mods.len() == 0),
    ensures
        dispatched(JsonView::Object(m), shot) == DispatchView::Ask(
            MsgView::Drag {
                x1: Coord { bits: a },
                y1: Coord { bits: b },
                x2: Coord { bits: c },
                y2: Coord { bits: d },
                steps: steps as usize,
                mods,
                cancel: says(m, "cancel"@, JsonView::Bool(true)),
            },
            Question::Drag,
        ),
{
    lemma_commands_differ();
    lemma_members_differ();
    assert(!m.contains_key("mods"@) ==> mods =~= Seq::<char>::empty());
}

/// A bell of a tab arrives for that tab.
#[verifier::rlimit(40)]
pub proof fn law_bells_arrive(rest: Seq<Seq<char>>, shot: Seq<char>, n: u64)
    requires
        rest.len() > 1,
        rest[0] == "bell"@,
        rest[1] == decimal(n as nat),
    ensures
        arrives(rest, shot, DispatchView::Send(MsgView::Bell(Some(n as usize)))),
{
    lemma_commands_differ();
    lemma_members_differ();
    crate::text::law_written_numbers_are_read(n as nat, u64::MAX as nat);
}

/// The numbers that a client is given arrive as numbers: the places of tabs and the cells of a
/// selection.
#[verifier::rlimit(40)]
pub proof fn law_numbers_arrive(rest: Seq<Seq<char>>, shot: Seq<char>, a: u16, b: u16, c: u16, d: u16)
    ensures
        rest.len() == 3 && rest[0] == "reorder-tab"@ && rest[1] == decimal(a as nat) && rest[2]
            == decimal(b as nat) ==> arrives(
            rest,
            shot,
            DispatchView::Send(MsgView::ReorderTab(a as usize, b as usize)),
        ),
        rest.len() == 2 && rest[0] == "edit-tab"@ && rest[1] == decimal(a as nat) ==> arrives(
            rest,
            shot,
            DispatchView::Send(MsgView::EditTab(a as usize)),
        ),
        rest.len() == 3 && rest[0] == "rename-tab"@ && rest[1] == decimal(a as nat) ==> arrives(
            rest,
            shot,
            DispatchView::Send(MsgView::RenameTab(a as usize, rest[2])),
        ),
        rest.len() == 5 && rest[0] == "select"@ && rest[1] == decimal(a as nat) && rest[2]
            == decimal(b as nat) && rest[3] == decimal(c as nat) && rest[4] == decimal(d as nat)
            ==> arrives(
            rest,
            shot,
            DispatchView::Send(MsgView::Select(a, b, c, d, "simple"@)),
        ),
        rest.len() == 0 ==> arrives(rest, shot, DispatchView::Ask(MsgView::State, Question::State)),
{
    lemma_commands_differ();
    lemma_members_differ();
    crate::text::law_written_numbers_are_read(a as nat, u64::MAX as nat);
    crate::text::law_written_numbers_are_read(b as nat, u64::MAX as nat);
    crate::text::law_written_numbers_are_read(a as nat, u16::MAX as nat);
    crate::text::law_written_numbers_are_read(b as nat, u16::MAX as nat);
    crate::text::law_written_numbers_are_read(c as nat, u16::MAX as nat);
    crate::text::law_written_numbers_are_read(d as nat, u16::MAX as nat);
    if rest.len() == 3 {
        assert(rest.skip(2) =~= seq![rest[2]]);
    }
}

/// What the server cannot do is refused in words: a search for nothing, a target that is none, an
/// unknown direction, and a command that there is not.
#[verifier::rlimit(40)]
pub proof fn law_server_refuses_the_rest(m: Map<Seq<char>, JsonView>, shot: Seq<char>, c: Seq<char>)
    requires
        says(m, "cmd"@, JsonView::Text(c)),
    ensures
        ({
            let done = dispatched(JsonView::Object(m), shot);
            let says_no = |msg: Seq<char>| done == DispatchView::Reply(
                crate::json::json_rendered(crate::control::failure(msg)),
            );
            &&& c == "focus"@ && !m.contains_key("query"@) ==> says_no("focus needs a query"@)
            &&& c == "move-tab"@ && !m.contains_key("to"@) ==> says_no(
                "move-tab: to = new|next|prev|<1-based window number>"@,
            )
            &&& c == "promote-pane"@ && !m.contains_key("to"@) ==> says_no(
                "promote-pane: to = tab|window"@,
            )
            &&& c == "scroll"@ && !m.contains_key("dir"@) ==> says_no(
                "scroll: dir = top|bottom|page-up|page-down|<lines>"@,
            )
            &&& c != "type"@ && c != "key"@ && c != "chord"@ && c != "state"@
                && c != "screenshot"@ && c != "focus"@ && c != "raise"@ && c != "click"@
                && c != "about"@ && c != "new-window"@ && c != "move-tab"@ && c != "promote-pane"@
                && c != "merge-tab"@ && c != "settings"@ && c != "select"@ && c != "copy"@
                && c != "paste"@ && c != "fps"@ && c != "scroll"@ && c != "bell"@
                && c != "reorder-tab"@ && c != "rename-tab"@ && c != "edit-tab"@
                && c != "drag"@ ==> says_no("unknown cmd: "@ + c)
        }),
{
    lemma_commands_differ();
    lemma_members_differ();
    lemma_targets_differ();
}

/// What each tool does, by its name: it lists the instances, takes a picture of a scene, or has
/// the instance that its arguments name do what a client could ask for. A text that it needs and
/// does not have is an error, as is a name that no tool has.
#[verifier::rlimit(40)]
pub proof fn law_tools_do_what_they_are_named_for(
    p: Map<Seq<char>, JsonView>,
    a: Map<Seq<char>, JsonView>,
    shot: Seq<char>,
    s: Seq<char>,
    n: usize,
)
    requires
        says(p, "arguments"@, JsonView::Object(a)),
    ensures
        ({
            let plan = called(Some(JsonView::Object(p)));
            let tool = |name: Seq<char>| says(p, "name"@, JsonView::Text(name));
            let given = |key: Seq<char>, v: Seq<char>| says(a, key, JsonView::Text(v));
            let does = |d: DispatchView|
                plan matches PlanView::Send { request, .. } && dispatched(request, shot) == d;
            &&& tool("ember_list"@) ==> plan is List
            &&& tool("ember_screenshot"@) ==> plan is Shot
            &&& tool("ember_state"@) ==> does(DispatchView::Ask(MsgView::State, Question::State))
            &&& tool("ember_raise"@) ==> does(DispatchView::Send(MsgView::Raise))
            &&& tool("ember_merge_tab"@) ==> does(
                DispatchView::Ask(MsgView::MergeTab, Question::MergeTab),
            )
            &&& tool("ember_type"@) && given("text"@, s) ==> does(
                DispatchView::Send(MsgView::Type(s)),
            )
            &&& tool("ember_key"@) && given("name"@, s) ==> does(
                DispatchView::Send(MsgView::Key(s)),
            )
            &&& tool("ember_chord"@) && given("keys"@, s) ==> does(
                DispatchView::Send(MsgView::Chord(s)),
            )
            &&& tool("ember_focus"@) && given("query"@, s) ==> does(
                DispatchView::Ask(MsgView::Focus(s), Question::Focus),
            )
            &&& tool("ember_live_screenshot"@) && given("path"@, s) ==> does(
                DispatchView::Ask(MsgView::Screenshot(s), Question::Screenshot),
            )
            &&& tool("ember_live_screenshot"@) && !a.contains_key("path"@) ==> does(
                DispatchView::Ask(MsgView::Screenshot(shot), Question::Screenshot),
            )
            &&& tool("ember_move_tab"@) && given("to"@, "new"@) ==> does(
                DispatchView::Ask(MsgView::MoveTab(MoveTabTarget::New), Question::MoveTab),
            )
            &&& tool("ember_move_tab"@) && given("to"@, "next"@) ==> does(
                DispatchView::Ask(MsgView::MoveTab(MoveTabTarget::Next), Question::MoveTab),
            )
            &&& tool("ember_move_tab"@) && given("to"@, "prev"@) ==> does(
                DispatchView::Ask(MsgView::MoveTab(MoveTabTarget::Prev), Question::MoveTab),
            )
            &&& tool("ember_move_tab"@) && given("to"@, decimal(n as nat)) && n >= 1 ==> does(
                DispatchView::Ask(MsgView::MoveTab(MoveTabTarget::Window(n)), Question::MoveTab),
            )
            &&& tool("ember_promote_pane"@) && given("to"@, "tab"@) ==> does(
                DispatchView::Ask(
                    MsgView::PromotePane(PromotePaneTarget::Tab),
                    Question::PromotePane,
                ),
            )
            &&& tool("ember_promote_pane"@) && given("to"@, "window"@) ==> does(
                DispatchView::Ask(
                    MsgView::PromotePane(PromotePaneTarget::Window),
                    Question::PromotePane,
                ),
            )
        }),
{
    lemma_tools_differ();
    lemma_commands_differ();
    lemma_members_differ();
    lemma_targets_differ();
    crate::text::lemma_decimal(n as nat);
    crate::text::law_written_numbers_are_read(n as nat, usize::MAX as nat);
    assert(is_digit(decimal(n as nat)[0]));
}

/// A tool that needs a text fails without it, in words that name it; so does a call that names no
/// tool, or none there is.
#[verifier::rlimit(40)]
pub proof fn law_tools_tell_what_they_miss(p: Map<Seq<char>, JsonView>, a: Map<Seq<char>, JsonView>, s: Seq<char>)
    requires
        says(p, "arguments"@, JsonView::Object(a)),
    ensures
        ({
            let plan = called(Some(JsonView::Object(p)));
            let tool = |name: Seq<char>| says(p, "name"@, JsonView::Text(name));
            &&& tool("ember_focus"@) && !a.contains_key("query"@) ==> plan == PlanView::Fail(
                "query required"@,
            )
            &&& tool("ember_type"@) && !a.contains_key("text"@) ==> plan == PlanView::Fail(
                "text required"@,
            )
            &&& tool("ember_key"@) && !a.contains_key("name"@) ==> plan == PlanView::Fail(
                "name required"@,
            )
            &&& tool("ember_chord"@) && !a.contains_key("keys"@) ==> plan == PlanView::Fail(
                "keys required"@,
            )
            &&& (tool("ember_move_tab"@) || tool("ember_promote_pane"@)) && !a.contains_key("to"@)
                ==> plan == PlanView::Fail("to required"@)
            &&& !p.contains_key("name"@) ==> plan == PlanView::Fail("missing tool name"@)
            &&& tool(s) && s != "ember_list"@ && s != "ember_state"@ && s != "ember_focus"@
                && s != "ember_raise"@ && s != "ember_type"@ && s != "ember_key"@
                && s != "ember_chord"@ && s != "ember_screenshot"@
                && s != "ember_live_screenshot"@ && s != "ember_move_tab"@
                && s != "ember_promote_pane"@ && s != "ember_merge_tab"@ ==> plan == PlanView::Fail(
                "unknown tool: "@ + s,
            )
            &&& called(None) == PlanView::Fail("missing params"@)
        }),
{
    lemma_tools_differ();
}

/// A tool goes to the instance that its arguments name, by its socket or its process, and without
/// either to the only one.
pub proof fn law_tools_go_where_they_are_told(p: Map<Seq<char>, JsonView>, a: Map<Seq<char>, JsonView>, path: Seq<char>, pid: u32)
    requires
        says(p, "arguments"@, JsonView::Object(a)),
    ensures
        called(Some(JsonView::Object(p))) matches PlanView::Send { sock, pid: to, .. } ==> {
            &&& says(a, "sock"@, JsonView::Text(path)) ==> sock == Some(path)
            &&& !a.contains_key("sock"@) ==> sock is None
            &&& says(a, "pid"@, JsonView::Unsigned(pid as u64)) ==> to == Some(pid)
            &&& !a.contains_key("pid"@) ==> to is None
        },
{
    lemma_members_differ();
}

/// A request becomes the message that it asks for, with the values that it gave.
#[verifier::rlimit(40)]
pub proof fn law_requests_become_messages(
    v: serde_json::Value,
    shot: &str,
    r: Dispatch,
    m: Map<Seq<char>, JsonView>,
    s: Seq<char>,
    n: usize,
)
    requires
        json_view(v) == JsonView::Object(m),
        call_ensures(dispatch_value, (&v, shot), r),
    ensures
        ({
            let asks = |cmd: Seq<char>| says(m, "cmd"@, JsonView::Text(cmd));
            let with = |key: Seq<char>, t: Seq<char>| says(m, key, JsonView::Text(t));
            &&& asks("type"@) && with("text"@, s) ==> (r matches Dispatch::Send(
                ControlMsg::Type(t),
            ) && t@ == s)
            &&& asks("paste"@) && with("text"@, s) ==> (r matches Dispatch::Send(
                ControlMsg::Paste(t),
            ) && t@ == s)
            &&& asks("key"@) && with("name"@, s) ==> (r matches Dispatch::Send(ControlMsg::Key(t))
                && t@ == s)
            &&& asks("chord"@) && with("keys"@, s) ==> (r matches Dispatch::Send(
                ControlMsg::Chord(t),
            ) && t@ == s)
            &&& asks("focus"@) && with("query"@, s) ==> (r matches Dispatch::Ask(
                ControlMsg::Focus(t),
                q,
            ) && t@ == s && q == Question::Focus)
            &&& asks("screenshot"@) && with("path"@, s) ==> (r matches Dispatch::Ask(
                ControlMsg::Screenshot(t),
                q,
            ) && t@ == s && q == Question::Screenshot)
            &&& asks("state"@) ==> r == Dispatch::Ask(ControlMsg::State, Question::State)
            &&& asks("merge-tab"@) ==> r == Dispatch::Ask(ControlMsg::MergeTab, Question::MergeTab)
            &&& asks("raise"@) ==> r == Dispatch::Send(ControlMsg::Raise)
            &&& asks("about"@) ==> r == Dispatch::Send(ControlMsg::About)
            &&& asks("settings"@) ==> r == Dispatch::Send(ControlMsg::Settings)
            &&& asks("new-window"@) ==> r == Dispatch::Send(ControlMsg::NewWindow)
            &&& asks("copy"@) ==> r == Dispatch::Send(ControlMsg::Copy)
            &&& asks("fps"@) ==> r == Dispatch::Send(ControlMsg::Fps)
            &&& asks("move-tab"@) && with("to"@, "new"@) ==> r == Dispatch::Ask(
                ControlMsg::MoveTab(MoveTabTarget::New),
                Question::MoveTab,
            )
            &&& asks("move-tab"@) && with("to"@, "next"@) ==> r == Dispatch::Ask(
                ControlMsg::MoveTab(MoveTabTarget::Next),
                Question::MoveTab,
            )
            &&& asks("move-tab"@) && with("to"@, "prev"@) ==> r == Dispatch::Ask(
                ControlMsg::MoveTab(MoveTabTarget::Prev),
                Question::MoveTab,
            )
            &&& asks("move-tab"@) && with("to"@, decimal(n as nat)) && n >= 1 ==> r
                == Dispatch::Ask(ControlMsg::MoveTab(MoveTabTarget::Window(n)), Question::MoveTab)
        }),
{
    law_server_takes_text(m, shot@, s);
    law_server_takes_bare_commands(m, shot@);
    if says(m, "cmd"@, JsonView::Text("move-tab"@)) {
        law_server_takes_move_targets(m, shot@, n);
    }
}

/// A request with numbers becomes a message with the same numbers.
#[verifier::rlimit(40)]
pub proof fn law_numbers_become_messages(
    v: serde_json::Value,
    shot: &str,
    r: Dispatch,
    m: Map<Seq<char>, JsonView>,
    a: u64,
    b: u64,
    c: u64,
    d: u64,
    s: Seq<char>,
    n: nat,
)
    requires
        json_view(v) == JsonView::Object(m),
        call_ensures(dispatch_value, (&v, shot), r),
        a <= u16::MAX && b <= u16::MAX && c <= u16::MAX && d <= u16::MAX,
        n <= i32::MAX,
    ensures
        ({
            let asks = |cmd: Seq<char>| says(m, "cmd"@, JsonView::Text(cmd));
            let num = |key: Seq<char>, x: u64| says(m, key, JsonView::Unsigned(x));
            let with = |key: Seq<char>, t: Seq<char>| says(m, key, JsonView::Text(t));
            &&& asks("reorder-tab"@) && num("from"@, a) && num("to"@, b) ==> r == Dispatch::Send(
                ControlMsg::ReorderTab(a as usize, b as usize),
            )
            &&& asks("rename-tab"@) && num("i"@, a) && with("name"@, s) ==> (r
                matches Dispatch::Send(ControlMsg::RenameTab(i, t)) && i == a && t@ == s)
            &&& asks("edit-tab"@) && num("i"@, a) ==> r == Dispatch::Send(
                ControlMsg::EditTab(a as usize),
            )
            &&& asks("bell"@) && num("tab"@, a) ==> r == Dispatch::Send(
                ControlMsg::Bell(Some(a as usize)),
            )
            &&& asks("select"@) && num("r1"@, a) && num("c1"@, b) && num("r2"@, c) && num("c2"@, d)
                && with("mode"@, s) ==> (r matches Dispatch::Send(
                ControlMsg::Select(r1, c1, r2, c2, t),
            ) && r1 == a && c1 == b && r2 == c && c2 == d && t@ == s)
            &&& asks("click"@) && says(m, "x"@, JsonView::Float(a)) && says(
                m,
                "y"@,
                JsonView::Float(b),
            ) ==> r == Dispatch::Send(ControlMsg::Click(Coord { bits: a }, Coord { bits: b }))
            &&& asks("scroll"@) && with("dir"@, decimal(n)) ==> r == Dispatch::Send(
                ControlMsg::Scroll(ScrollAmount::Lines(n as i32)),
            )
            &&& asks("scroll"@) && with("dir"@, "top"@) ==> r == Dispatch::Send(
                ControlMsg::Scroll(ScrollAmount::Top),
            )
            &&& asks("scroll"@) && with("dir"@, "page-up"@) ==> r == Dispatch::Send(
                ControlMsg::Scroll(ScrollAmount::PageUp),
            )
            &&& asks("promote-pane"@) && with("to"@, "tab"@) ==> r == Dispatch::Ask(
                ControlMsg::PromotePane(PromotePaneTarget::Tab),
                Question::PromotePane,
            )
            &&& asks("promote-pane"@) && with("to"@, "window"@) ==> r == Dispatch::Ask(
                ControlMsg::PromotePane(PromotePaneTarget::Window),
                Question::PromotePane,
            )
        }),
{
    law_server_takes_numbers(m, shot@, a, b, c, d, s);
    law_server_takes_other_targets(m, shot@, n);
}

} // verus!
