//! What clients are told of the windows: their tabs and panes, and where a title was found.

use vstd::prelude::*;
use crate::json::{
    boolean, copy, json_parsed, json_rendered, json_view, json_views, list, null, object, parse, put,
    render, set_member, signed, text, unsigned, JsonView,
};
use crate::layout::{first_index, lemma_first_index, panes_view, PaneId, SessionId, WindowId, WindowTree};
use crate::text::texts;
use crate::titles::{
    all_texts, display_title, first_match_across, law_first_match_is_first, law_first_window_wins,
    match_tab_title_across, tab_display_title,
};
use crate::windows::resolve_window_index;

verus! {

broadcast use vstd::seq_lib::group_seq_properties;

pub open spec fn empty_object() -> JsonView {
    JsonView::Object(Map::empty())
}

// ---- titles ----------------------------------------------------------------

/// The titles that the strip shows, from the left.
pub open spec fn shown_titles(tree: WindowTree) -> Seq<Seq<char>> {
    Seq::new(tree.tabs@.len(), |i: int| display_title(tree.tabs@[i].title@, i as nat))
}

/// The titles that the strip shows, from the left.
pub fn tab_titles(tree: &WindowTree) -> (r: Vec<String>)
    ensures
        texts(r@) == shown_titles(*tree),
{
    let mut out: Vec<String> = Vec::new();
    let mut i: usize = 0;
    while i < tree.tabs.len()
        invariant
            i <= tree.tabs@.len(),
            texts(out@) == shown_titles(*tree).take(i as int),
        decreases tree.tabs@.len() - i,
    {
        let ghost before = out@;
        out.push(tab_display_title(tree.tabs[i].title.as_str(), i));
        assert(texts(out@) == texts(before).push(shown_titles(*tree)[i as int]));
        i += 1;
    }
    assert(shown_titles(*tree).take(i as int) == shown_titles(*tree));
    out
}

// ---- tabs ------------------------------------------------------------------

pub open spec fn text_list(s: Seq<Seq<char>>) -> JsonView {
    JsonView::List(s.map_values(|t: Seq<char>| JsonView::Text(t)))
}

/// A tab: its number from 1, whether it is shown, its title and its sessions.
pub open spec fn tab_report(tree: WindowTree, i: int) -> JsonView {
    let tab = tree.tabs@[i];
    put(
        put(
            put(
                put(empty_object(), "index"@, JsonView::Unsigned((i + 1) as u64)),
                "active"@,
                JsonView::Bool(i == tree.active),
            ),
            "title"@,
            JsonView::Text(display_title(tab.title@, i as nat)),
        ),
        "sessions"@,
        text_list(tab.root.spec_sessions()),
    )
}

/// Every tab of a window, from the left.
pub open spec fn tabs_report(tree: WindowTree) -> Seq<JsonView> {
    Seq::new(tree.tabs@.len(), |i: int| tab_report(tree, i))
}

fn sessions_json(leaves: &[(PaneId, SessionId)]) -> (r: serde_json::Value)
    ensures
        json_view(r) == text_list(panes_view(leaves@).map_values(|p: (PaneId, Seq<char>)| p.1)),
{
    let ghost all = panes_view(leaves@).map_values(|p: (PaneId, Seq<char>)| p.1);
    let ghost want = all.map_values(|t: Seq<char>| JsonView::Text(t));
    let mut items: Vec<serde_json::Value> = Vec::new();
    let mut i: usize = 0;
    while i < leaves.len()
        invariant
            i <= leaves@.len(),
            all == panes_view(leaves@).map_values(|p: (PaneId, Seq<char>)| p.1),
            want == all.map_values(|t: Seq<char>| JsonView::Text(t)),
            json_views(items@) == want.take(i as int),
        decreases leaves@.len() - i,
    {
        let ghost before = items@;
        items.push(text(leaves[i].1.0.as_str()));
        assert(want[i as int] == JsonView::Text(leaves@[i as int].1@));
        assert(json_views(items@) == json_views(before).push(want[i as int]));
        assert(want.take(i + 1) == want.take(i as int).push(want[i as int]));
        i += 1;
    }
    assert(want.take(i as int) == want);
    list(items)
}

/// Every tab of a window, from the left.
pub fn tabs_summary_json(tree: &WindowTree) -> (r: Vec<serde_json::Value>)
    ensures
        json_views(r@) == tabs_report(*tree),
{
    let mut out: Vec<serde_json::Value> = Vec::new();
    let mut i: usize = 0;
    while i < tree.tabs.len()
        invariant
            i <= tree.tabs@.len(),
            json_views(out@) == tabs_report(*tree).take(i as int),
        decreases tree.tabs@.len() - i,
    {
        let tab = &tree.tabs[i];
        let leaves = tab.root.leaves();
        let mut v = object();
        set_member(&mut v, "index", unsigned(i as u64 + 1));
        set_member(&mut v, "active", boolean(i == tree.active));
        let title = tab_display_title(tab.title.as_str(), i);
        set_member(&mut v, "title", text(title.as_str()));
        set_member(&mut v, "sessions", sessions_json(leaves.as_slice()));
        let ghost before = out@;
        assert(json_view(v) == tab_report(*tree, i as int));
        out.push(v);
        assert(json_views(out@) == json_views(before).push(tab_report(*tree, i as int)));
        i += 1;
    }
    assert(tabs_report(*tree).take(i as int) == tabs_report(*tree));
    out
}

// ---- one window in full ----------------------------------------------------

/// What the renderer shows of a pane.
#[derive(Debug, PartialEq, Eq)]
pub struct PaneShot {
    pub cols: u64,
    pub rows: u64,
    pub cursor_row: u64,
    pub cursor_col: u64,
    pub cursor_visible: bool,
    /// What the renderer knows of the styles, as it tells it.
    pub styles_known: serde_json::Value,
    pub text: String,
}

/// What is told of a window besides its tree.
#[derive(Debug, PartialEq, Eq)]
pub struct WindowFacts {
    /// The scale of the screen, as a number.
    pub scale_factor: serde_json::Value,
    pub surface: (u32, u32),
    /// The program in the focused pane wants pasted text marked.
    pub bracketed: bool,
    /// What is shown of each pane of the shown tab, in the order of its panes.
    pub shots: Vec<Option<PaneShot>>,
}

pub open spec fn cursor_report(s: PaneShot) -> JsonView {
    put(
        put(
            put(empty_object(), "row"@, JsonView::Unsigned(s.cursor_row)),
            "col"@,
            JsonView::Unsigned(s.cursor_col),
        ),
        "visible"@,
        JsonView::Bool(s.cursor_visible),
    )
}

pub open spec fn pair(a: u64, b: u64) -> JsonView {
    JsonView::List(seq![JsonView::Unsigned(a), JsonView::Unsigned(b)])
}

/// A pane: its session and number, whether it has the focus, and what it shows.
pub open spec fn pane_report(pane: PaneId, session: Seq<char>, focus: PaneId, shot: Option<PaneShot>) -> JsonView {
    let head = put(
        put(
            put(empty_object(), "session"@, JsonView::Text(session)),
            "pane"@,
            JsonView::Unsigned(pane.0),
        ),
        "focused"@,
        JsonView::Bool(pane == focus),
    );
    match shot {
        Some(s) => put(
            put(
                put(
                    put(head, "dims"@, pair(s.cols, s.rows)),
                    "cursor"@,
                    cursor_report(s),
                ),
                "styles_known"@,
                json_view(s.styles_known),
            ),
            "text"@,
            JsonView::Text(s.text@),
        ),
        None => put(
            put(
                put(put(head, "dims"@, JsonView::Null), "cursor"@, JsonView::Null),
                "styles_known"@,
                JsonView::Null,
            ),
            "text"@,
            JsonView::Null,
        ),
    }
}

/// The panes of the shown tab.
pub open spec fn panes_report(tree: WindowTree, shots: Seq<Option<PaneShot>>) -> Seq<JsonView> {
    let tab = tree.tabs@[tree.active as int];
    Seq::new(
        tab.root.spec_panes().len(),
        |i: int|
            pane_report(tab.root.spec_panes()[i].0, tab.root.spec_panes()[i].1, tab.focus, shots[i]),
    )
}

/// A window in full.
pub open spec fn window_report(tree: WindowTree, f: WindowFacts) -> JsonView {
    let tab = tree.tabs@[tree.active as int];
    let (w, h) = f.surface;
    put(
        put(
            put(
                put(
                    put(
                        put(
                            put(empty_object(), "scale_factor"@, json_view(f.scale_factor)),
                            "surface"@,
                            pair(w as u64, h as u64),
                        ),
                        "tabs"@,
                        JsonView::List(tabs_report(tree)),
                    ),
                    "active_tab"@,
                    JsonView::Unsigned(tree.active as u64),
                ),
                "focus_pane"@,
                JsonView::Unsigned(tab.focus.0),
            ),
            "bracketed_paste"@,
            JsonView::Bool(f.bracketed),
        ),
        "panes"@,
        JsonView::List(panes_report(tree, f.shots@)),
    )
}

fn pair_json(a: u64, b: u64) -> (r: serde_json::Value)
    ensures
        json_view(r) == pair(a, b),
{
    let mut items: Vec<serde_json::Value> = Vec::new();
    items.push(unsigned(a));
    items.push(unsigned(b));
    assert(json_views(items@) == seq![JsonView::Unsigned(a), JsonView::Unsigned(b)]);
    list(items)
}

fn pane_json(pane: PaneId, session: &SessionId, focus: PaneId, shot: &Option<PaneShot>) -> (r: serde_json::Value)
    ensures
        json_view(r) == pane_report(pane, session@, focus, *shot),
{
    let mut v = object();
    set_member(&mut v, "session", text(session.0.as_str()));
    set_member(&mut v, "pane", unsigned(pane.0));
    set_member(&mut v, "focused", boolean(pane == focus));
    match shot {
        Some(s) => {
            let mut cursor = object();
            set_member(&mut cursor, "row", unsigned(s.cursor_row));
            set_member(&mut cursor, "col", unsigned(s.cursor_col));
            set_member(&mut cursor, "visible", boolean(s.cursor_visible));
            set_member(&mut v, "dims", pair_json(s.cols, s.rows));
            set_member(&mut v, "cursor", cursor);
            set_member(&mut v, "styles_known", copy(&s.styles_known));
            set_member(&mut v, "text", text(s.text.as_str()));
        },
        None => {
            set_member(&mut v, "dims", null());
            set_member(&mut v, "cursor", null());
            set_member(&mut v, "styles_known", null());
            set_member(&mut v, "text", null());
        },
    }
    v
}

/// A window in full, as text.
pub fn state_json(tree: &WindowTree, facts: &WindowFacts) -> (r: String)
    requires
        tree.active < tree.tabs@.len(),
        facts.shots@.len() == tree.tabs@[tree.active as int].root.spec_panes().len(),
    ensures
        r@ == json_rendered(window_report(*tree, *facts)),
{
    let tab = &tree.tabs[tree.active];
    let leaves = tab.root.leaves();
    let ghost want = panes_report(*tree, facts.shots@);
    assert(leaves@.len() == panes_view(leaves@).len());
    let mut panes: Vec<serde_json::Value> = Vec::new();
    let mut i: usize = 0;
    while i < leaves.len()
        invariant
            i <= leaves@.len(),
            tree.active < tree.tabs@.len(),
            *tab == tree.tabs@[tree.active as int],
            panes_view(leaves@) == tab.root.spec_panes(),
            facts.shots@.len() == leaves@.len(),
            want == panes_report(*tree, facts.shots@),
            want.len() == leaves@.len(),
            json_views(panes@) == want.take(i as int),
        decreases leaves@.len() - i,
    {
        let ghost before = panes@;
        let v = pane_json(leaves[i].0, &leaves[i].1, tab.focus, &facts.shots[i]);
        assert(tab.root.spec_panes()[i as int] == panes_view(leaves@)[i as int]);
        assert(json_view(v) == want[i as int]);
        panes.push(v);
        assert(json_views(panes@) == json_views(before).push(want[i as int]));
        assert(want.take(i + 1) == want.take(i as int).push(want[i as int]));
        i += 1;
    }
    assert(want.take(i as int) == want);
    let (w, h) = facts.surface;
    let mut v = object();
    set_member(&mut v, "scale_factor", copy(&facts.scale_factor));
    set_member(&mut v, "surface", pair_json(w as u64, h as u64));
    set_member(&mut v, "tabs", list(tabs_summary_json(tree)));
    set_member(&mut v, "active_tab", unsigned(tree.active as u64));
    set_member(&mut v, "focus_pane", unsigned(tab.focus.0));
    set_member(&mut v, "bracketed_paste", boolean(facts.bracketed));
    set_member(&mut v, "panes", list(panes));
    render(&v)
}

// ---- all windows -----------------------------------------------------------

/// Where a window is on the screen, in pixels.
#[derive(Clone, Copy, Debug, PartialEq, Eq, Structural)]
pub struct Place {
    pub x: i32,
    pub y: i32,
    pub width: u32,
    pub height: u32,
}

/// A window in the list of all, and where it is where that is known.
#[derive(Debug, PartialEq, Eq)]
pub struct ListedWindow {
    pub tree: WindowTree,
    pub place: Option<Place>,
}

pub open spec fn signed_json(n: int) -> JsonView {
    if n < 0 {
        JsonView::Negative(n as i64)
    } else {
        JsonView::Unsigned(n as u64)
    }
}

/// A window in the list: its number from 1, whether it has the focus, its tabs, and its place.
pub open spec fn listed(i: int, id: WindowId, focused: Option<WindowId>, w: ListedWindow) -> JsonView {
    let head = put(
        put(
            put(
                put(empty_object(), "id"@, JsonView::Unsigned((i + 1) as u64)),
                "focused"@,
                JsonView::Bool(focused == Some(id)),
            ),
            "active_tab"@,
            JsonView::Unsigned(w.tree.active as u64),
        ),
        "tabs"@,
        JsonView::List(tabs_report(w.tree)),
    );
    match w.place {
        Some(p) => put(
            put(
                head,
                "pos"@,
                JsonView::List(seq![signed_json(p.x as int), signed_json(p.y as int)]),
            ),
            "size"@,
            pair(p.width as u64, p.height as u64),
        ),
        None => head,
    }
}

/// The first `k` windows in order, without those that are gone.
pub open spec fn listing(order: Seq<WindowId>, windows: Seq<Option<ListedWindow>>, focused: Option<WindowId>, k: nat) -> Seq<JsonView>
    decreases k,
{
    if k == 0 {
        Seq::<JsonView>::empty()
    } else {
        let before = listing(order, windows, focused, (k - 1) as nat);
        match windows[k - 1] {
            Some(w) => before.push(listed(k - 1, order[k - 1], focused, w)),
            None => before,
        }
    }
}

/// What the focused window's report comes to when it is read back.
pub open spec fn read_back(top: Option<Seq<char>>) -> JsonView {
    match top {
        Some(t) => match json_parsed(t) {
            Ok(v) => v,
            Err(_) => empty_object(),
        },
        None => empty_object(),
    }
}

/// The state of all windows: the focused one in full, and the list of all.
pub open spec fn state_report(order: Seq<WindowId>, windows: Seq<Option<ListedWindow>>, focused: Option<WindowId>, top: Option<Seq<char>>) -> JsonView {
    let all = put(
        read_back(top),
        "windows"@,
        JsonView::List(listing(order, windows, focused, order.len())),
    );
    match focused {
        Some(id) => match first_index(order, id) {
            Some(i) => put(all, "focused_window"@, JsonView::Unsigned((i + 1) as u64)),
            None => all,
        },
        None => all,
    }
}

fn listed_json(i: usize, id: WindowId, focused: Option<WindowId>, w: &ListedWindow) -> (r: serde_json::Value)
    requires
        i < usize::MAX,
    ensures
        json_view(r) == listed(i as int, id, focused, *w),
{
    let has_focus = match focused {
        Some(f) => f == id,
        None => false,
    };
    let mut v = object();
    set_member(&mut v, "id", unsigned(i as u64 + 1));
    set_member(&mut v, "focused", boolean(has_focus));
    set_member(&mut v, "active_tab", unsigned(w.tree.active as u64));
    set_member(&mut v, "tabs", list(tabs_summary_json(&w.tree)));
    if let Some(p) = w.place {
        let mut pos: Vec<serde_json::Value> = Vec::new();
        pos.push(signed(p.x as i64));
        pos.push(signed(p.y as i64));
        assert(json_views(pos@) == seq![signed_json(p.x as int), signed_json(p.y as int)]);
        set_member(&mut v, "pos", list(pos));
        set_member(&mut v, "size", pair_json(p.width as u64, p.height as u64));
    }
    v
}

/// The state of all windows. `top` is the report of the focused window in full.
pub fn build_state_json(order: &[WindowId], windows: &[Option<ListedWindow>], focused: Option<WindowId>, top: Option<String>) -> (r: String)
    requires
        order@.len() == windows@.len(),
        order@.len() < usize::MAX,
    ensures
        r@ == json_rendered(
            state_report(
                order@,
                windows@,
                focused,
                match top {
                    Some(t) => Some(t@),
                    None => None,
                },
            ),
        ),
{
    let mut items: Vec<serde_json::Value> = Vec::new();
    assert(json_views(items@) == Seq::<JsonView>::empty());
    let mut i: usize = 0;
    while i < order.len()
        invariant
            i <= order@.len(),
            order@.len() == windows@.len(),
            order@.len() < usize::MAX,
            json_views(items@) == listing(order@, windows@, focused, i as nat),
        decreases order@.len() - i,
    {
        let ghost before = items@;
        if let Some(w) = &windows[i] {
            let v = listed_json(i, order[i], focused, w);
            items.push(v);
            assert(json_views(items@) == json_views(before).push(
                listed(i as int, order@[i as int], focused, *w),
            ));
        }
        i += 1;
    }
    let mut v = match top {
        Some(t) => match parse(t.as_str()) {
            Ok(x) => x,
            Err(_) => object(),
        },
        None => object(),
    };
    set_member(&mut v, "windows", list(items));
    if let Some(id) = focused {
        proof {
            lemma_first_index(order@, id);
        }
        if let Some(w) = resolve_window_index(order, id) {
            set_member(&mut v, "focused_window", unsigned(w as u64 + 1));
        }
    }
    render(&v)
}

// ---- finding a title -------------------------------------------------------

/// All titles, window after window.
pub open spec fn flattened(windows: Seq<Seq<Seq<char>>>) -> Seq<Seq<char>>
    decreases windows.len(),
{
    if windows.len() == 0 {
        Seq::<Seq<char>>::empty()
    } else {
        flattened(windows.drop_last()) + windows.last()
    }
}

/// The reply to a search for a title: which tab of which window, counted from 1, or all titles.
pub open spec fn focus_report(windows: Seq<Seq<Seq<char>>>, query: Seq<char>) -> JsonView {
    match first_match_across(windows, query) {
        Some((w, t)) => put(
            put(
                put(
                    put(empty_object(), "ok"@, JsonView::Bool(true)),
                    "index"@,
                    JsonView::Unsigned((t + 1) as u64),
                ),
                "title"@,
                JsonView::Text(windows[w][t]),
            ),
            "window"@,
            JsonView::Unsigned((w + 1) as u64),
        ),
        None => put(
            put(
                put(empty_object(), "ok"@, JsonView::Bool(false)),
                "error"@,
                JsonView::Text("no tab title matches"@),
            ),
            "titles"@,
            text_list(flattened(windows)),
        ),
    }
}

/// Where a title was found, and the reply.
#[derive(Debug, PartialEq, Eq)]
pub struct FocusFound {
    /// The number of the window in the order of the windows, and of the tab in it.
    pub place: Option<(usize, usize)>,
    pub reply: String,
}

fn titles_json(windows: &[Vec<String>]) -> (r: serde_json::Value)
    ensures
        json_view(r) == text_list(flattened(all_texts(windows@))),
{
    let ghost all = all_texts(windows@);
    let mut items: Vec<serde_json::Value> = Vec::new();
    let ghost mut done: Seq<Seq<char>> = Seq::empty();
    assert(json_views(items@) == done.map_values(|t: Seq<char>| JsonView::Text(t)));
    assert(all.take(0) == Seq::<Seq<Seq<char>>>::empty());
    let mut w: usize = 0;
    while w < windows.len()
        invariant
            w <= windows@.len(),
            all == all_texts(windows@),
            done == flattened(all.take(w as int)),
            json_views(items@) == done.map_values(|t: Seq<char>| JsonView::Text(t)),
        decreases windows@.len() - w,
    {
        let ghost here = texts(windows@[w as int]@);
        let ghost start = done;
        let mut t: usize = 0;
        assert(start + here.take(0) == start);
        while t < windows[w].len()
            invariant
                w < windows@.len(),
                t <= windows@[w as int]@.len(),
                here == texts(windows@[w as int]@),
                done == start + here.take(t as int),
                json_views(items@) == done.map_values(|t: Seq<char>| JsonView::Text(t)),
            decreases windows@[w as int]@.len() - t,
        {
            let ghost before = items@;
            items.push(text(windows[w][t].as_str()));
            proof {
                assert(here.take(t + 1) == here.take(t as int).push(here[t as int]));
                done = done.push(here[t as int]);
                assert(done == start + here.take(t + 1));
                assert(json_views(items@) == json_views(before).push(
                    JsonView::Text(here[t as int]),
                ));
                assert(json_views(items@) == done.map_values(|t: Seq<char>| JsonView::Text(t)));
            }
            t += 1;
        }
        assert(here.take(t as int) == here);
        assert(all.take(w + 1).drop_last() == all.take(w as int));
        assert(all.take(w + 1).last() == here);
        w += 1;
    }
    assert(all.take(w as int) == all);
    list(items)
}

/// Looks for a title in all windows. `window_titles` holds the titles of each window, in the
/// order of the windows.
pub fn focus_across_windows(window_titles: &[Vec<String>], query: &str) -> (r: FocusFound)
    ensures
        match r.place {
            Some((w, t)) => first_match_across(all_texts(window_titles@), query@) == Some(
                (w as int, t as int),
            ),
            None => first_match_across(all_texts(window_titles@), query@) is None,
        },
        r.reply@ == json_rendered(focus_report(all_texts(window_titles@), query@)),
{
    let ghost all = all_texts(window_titles@);
    match match_tab_title_across(window_titles, query) {
        Some((w, t)) => {
            proof {
                law_first_window_wins(all, query@);
                law_first_match_is_first(all[w as int], query@);
                assert(all[w as int] == texts(window_titles@[w as int]@));
            }
            assert(w < window_titles@.len());
            assert(t < window_titles@[w as int].len());
            let mut v = object();
            set_member(&mut v, "ok", boolean(true));
            set_member(&mut v, "index", unsigned(t as u64 + 1));
            set_member(&mut v, "title", text(window_titles[w][t].as_str()));
            set_member(&mut v, "window", unsigned(w as u64 + 1));
            FocusFound { place: Some((w, t)), reply: render(&v) }
        },
        None => {
            let mut v = object();
            set_member(&mut v, "ok", boolean(false));
            set_member(&mut v, "error", text("no tab title matches"));
            set_member(&mut v, "titles", titles_json(window_titles));
            FocusFound { place: None, reply: render(&v) }
        },
    }
}

/// The reply to a picture of a window: where it was saved, or why not.
pub fn screenshot_reply(path: &str, error: Option<&str>) -> (r: String)
    ensures
        r@ == json_rendered(
            match error {
                Some(e) => crate::control::failure(e@),
                None => put(
                    put(empty_object(), "ok"@, JsonView::Bool(true)),
                    "path"@,
                    JsonView::Text(path@),
                ),
            },
        ),
{
    match error {
        Some(e) => crate::control::err(e),
        None => {
            let mut v = object();
            set_member(&mut v, "ok", boolean(true));
            set_member(&mut v, "path", text(path));
            render(&v)
        },
    }
}

// ---- what reports say ------------------------------------------------------

proof fn lemma_report_members_differ()
    ensures
        "index"@.len() == 5 && "active"@.len() == 6 && "title"@.len() == 5 && "sessions"@.len() == 8,
        "index"@[0] == 'i' && "title"@[0] == 't',
        "row"@.len() == 3 && "col"@.len() == 3 && "row"@[0] == 'r' && "col"@[0] == 'c'
            && "visible"@.len() == 7,
        "session"@.len() == 7 && "pane"@.len() == 4 && "focused"@.len() == 7 && "session"@[0] == 's'
            && "focused"@[0] == 'f',
        "dims"@.len() == 4 && "dims"@[0] == 'd' && "pane"@[0] == 'p' && "cursor"@.len() == 6
            && "styles_known"@.len() == 12 && "text"@.len() == 4 && "text"@[0] == 't',
        "scale_factor"@.len() == 12 && "surface"@.len() == 7 && "tabs"@.len() == 4
            && "active_tab"@.len() == 10 && "focus_pane"@.len() == 10 && "active_tab"@[0] == 'a'
            && "focus_pane"@[0] == 'f' && "bracketed_paste"@.len() == 15 && "panes"@.len() == 5,
        "id"@.len() == 2 && "pos"@.len() == 3 && "size"@.len() == 4 && "size"@[0] == 's'
            && "tabs"@[0] == 't' && "windows"@.len() == 7 && "focused_window"@.len() == 14,
        "ok"@.len() == 2 && "window"@.len() == 6 && "error"@.len() == 5 && "titles"@.len() == 6
            && "path"@.len() == 4,
{
    reveal_strlit("index");
    reveal_strlit("active");
    reveal_strlit("title");
    reveal_strlit("sessions");
    reveal_strlit("row");
    reveal_strlit("col");
    reveal_strlit("visible");
    reveal_strlit("session");
    reveal_strlit("pane");
    reveal_strlit("focused");
    reveal_strlit("dims");
    reveal_strlit("cursor");
    reveal_strlit("styles_known");
    reveal_strlit("text");
    reveal_strlit("scale_factor");
    reveal_strlit("surface");
    reveal_strlit("tabs");
    reveal_strlit("active_tab");
    reveal_strlit("focus_pane");
    reveal_strlit("bracketed_paste");
    reveal_strlit("panes");
    reveal_strlit("id");
    reveal_strlit("pos");
    reveal_strlit("size");
    reveal_strlit("windows");
    reveal_strlit("focused_window");
    reveal_strlit("ok");
    reveal_strlit("window");
    reveal_strlit("error");
    reveal_strlit("titles");
    reveal_strlit("path");
}

/// A tab is reported with its number from 1, whether it is on show, the title that is shown, and
/// its sessions in order; the tabs of a window in order.
#[verifier::rlimit(40)]
pub proof fn law_tabs_are_reported(tree: WindowTree, i: int, k: int)
    requires
        0 <= i < tree.tabs@.len() < u64::MAX,
    ensures
        tabs_report(tree).len() == tree.tabs@.len(),
        tabs_report(tree)[i] matches JsonView::Object(m) && m["index"@] == JsonView::Unsigned(
            (i + 1) as u64,
        ) && m["active"@] == JsonView::Bool(i == tree.active) && m["title"@] == JsonView::Text(
            display_title(tree.tabs@[i].title@, i as nat),
        ) && (m["sessions"@] matches JsonView::List(l) && l.len()
            == tree.tabs@[i].root.spec_sessions().len() && (0 <= k < l.len() ==> l[k]
            == JsonView::Text(tree.tabs@[i].root.spec_sessions()[k]))),
        shown_titles(tree).len() == tree.tabs@.len(),
        shown_titles(tree)[i] == display_title(tree.tabs@[i].title@, i as nat),
{
    lemma_report_members_differ();
}

/// A pane is reported with its session, its number, whether it has the focus, and what is seen of
/// it: its size as columns and rows, its cursor and its text. Of a pane that shows nothing yet
/// these are empty.
#[verifier::rlimit(40)]
pub proof fn law_panes_are_reported(tree: WindowTree, f: WindowFacts, i: int, s: PaneShot)
    requires
        0 <= i < tree.tabs@[tree.active as int].root.spec_panes().len(),
    ensures
        ({
            let tab = tree.tabs@[tree.active as int];
            let (pane, session) = tab.root.spec_panes()[i];
            let all = panes_report(tree, f.shots@);
            &&& all.len() == tab.root.spec_panes().len()
            &&& all[i] matches JsonView::Object(m) && m["session"@] == JsonView::Text(session)
                && m["pane"@] == JsonView::Unsigned(pane.0) && m["focused"@] == JsonView::Bool(
                pane == tab.focus,
            ) && (f.shots@[i] == Some(s) ==> m["dims"@] == JsonView::List(
                seq![JsonView::Unsigned(s.cols), JsonView::Unsigned(s.rows)],
            ) && m["text"@] == JsonView::Text(s.text@) && m["styles_known"@] == json_view(
                s.styles_known,
            ) && (m["cursor"@] matches JsonView::Object(c) && c["row"@] == JsonView::Unsigned(
                s.cursor_row,
            ) && c["col"@] == JsonView::Unsigned(s.cursor_col) && c["visible"@] == JsonView::Bool(
                s.cursor_visible,
            ))) && (f.shots@[i] is None ==> m["dims"@] is Null && m["text"@] is Null && m["cursor"@]
                is Null && m["styles_known"@] is Null)
        }),
{
    lemma_report_members_differ();
}

/// A window is reported with its scale, its surface as width and height, its tabs, the one on show
/// counted from 0, the pane in focus, whether pastes are bracketed, and its panes.
#[verifier::rlimit(40)]
pub proof fn law_windows_are_reported(tree: WindowTree, f: WindowFacts)
    ensures
        window_report(tree, f) matches JsonView::Object(m) && m["scale_factor"@] == json_view(
            f.scale_factor,
        ) && m["surface"@] == JsonView::List(
            seq![
                JsonView::Unsigned(f.surface.0 as u64),
                JsonView::Unsigned(f.surface.1 as u64),
            ],
        ) && m["tabs"@] == JsonView::List(tabs_report(tree)) && m["active_tab"@]
            == JsonView::Unsigned(tree.active as u64) && m["focus_pane"@] == JsonView::Unsigned(
            tree.tabs@[tree.active as int].focus.0,
        ) && m["bracketed_paste"@] == JsonView::Bool(f.bracketed) && m["panes"@] == JsonView::List(
            panes_report(tree, f.shots@),
        ),
{
    lemma_report_members_differ();
}

/// The list of windows has each with its number from 1, whether it has the focus, its tabs, and
/// where it stands: its corner as x and y, its size as width and height. Windows that are not
/// known are left out and keep their number.
#[verifier::rlimit(40)]
pub proof fn law_windows_are_listed(order: Seq<WindowId>, windows: Seq<Option<ListedWindow>>, focused: Option<WindowId>, k: nat, w: ListedWindow, p: Place, i: int)
    requires
        0 <= i < u64::MAX,
    ensures
        k > 0 && windows[k - 1] == Some(w) ==> listing(order, windows, focused, k) == listing(
            order,
            windows,
            focused,
            (k - 1) as nat,
        ).push(listed(k - 1, order[k - 1], focused, w)),
        k > 0 && windows[k - 1] is None ==> listing(order, windows, focused, k) == listing(
            order,
            windows,
            focused,
            (k - 1) as nat,
        ),
        listing(order, windows, focused, 0).len() == 0,
        listed(i, order[i], focused, w) matches JsonView::Object(m) && m["id"@]
            == JsonView::Unsigned((i + 1) as u64) && m["focused"@] == JsonView::Bool(
            focused == Some(order[i]),
        ) && m["active_tab"@] == JsonView::Unsigned(w.tree.active as u64) && m["tabs"@]
            == JsonView::List(tabs_report(w.tree)) && (w.place is None ==> !m.contains_key("pos"@)
            && !m.contains_key("size"@)) && (w.place == Some(p) && p.x >= 0 && p.y >= 0 ==> m["pos"@]
            == JsonView::List(
            seq![JsonView::Unsigned(p.x as u64), JsonView::Unsigned(p.y as u64)],
        )) && (w.place == Some(p) && p.x < 0 && p.y < 0 ==> m["pos"@] == JsonView::List(
            seq![JsonView::Negative(p.x as i64), JsonView::Negative(p.y as i64)],
        )) && (w.place == Some(p) ==> m["size"@] == JsonView::List(
            seq![JsonView::Unsigned(p.width as u64), JsonView::Unsigned(p.height as u64)],
        )),
{
    lemma_report_members_differ();
}

/// The state of all windows is that of the one in front, with the list of all and the number of
/// the one in focus, from 1.
#[verifier::rlimit(40)]
pub proof fn law_the_state_names_the_focus(order: Seq<WindowId>, windows: Seq<Option<ListedWindow>>, at: int, stranger: WindowId, m: Map<Seq<char>, JsonView>, top: Seq<char>)
    requires
        0 <= at < order.len() < u64::MAX,
        order.no_duplicates(),
        json_parsed(top) == Ok::<JsonView, Seq<char>>(JsonView::Object(m)),
    ensures
        state_report(order, windows, Some(order[at]), Some(top)) matches JsonView::Object(all)
            && all["windows"@] == JsonView::List(
            listing(order, windows, Some(order[at]), order.len()),
        ) && all["focused_window"@] == JsonView::Unsigned((at + 1) as u64),
        state_report(order, windows, None, Some(top)) == JsonView::Object(
            m.insert("windows"@, JsonView::List(listing(order, windows, None, order.len()))),
        ),
{
    lemma_report_members_differ();
    crate::layout::lemma_first_index(order, order[at]);
    assert(order.contains(order[at]));
}

/// A search for a title reports the tab and the window that were found, both counted from 1, with
/// the title; without one it lists all titles, window by window.
#[verifier::rlimit(40)]
pub proof fn law_searches_are_reported(windows: Seq<Seq<Seq<char>>>, query: Seq<char>, w: int, t: int, more: Seq<Seq<char>>)
    requires
        0 <= w < u64::MAX && 0 <= t < u64::MAX,
    ensures
        first_match_across(windows, query) == Some((w, t)) ==> (focus_report(windows, query)
            matches JsonView::Object(m) && m["ok"@] == JsonView::Bool(true) && m["index"@]
            == JsonView::Unsigned((t + 1) as u64) && m["title"@] == JsonView::Text(windows[w][t])
            && m["window"@] == JsonView::Unsigned((w + 1) as u64)),
        first_match_across(windows, query) is None ==> (focus_report(windows, query)
            matches JsonView::Object(m) && m["ok"@] == JsonView::Bool(false) && m["error"@]
            == JsonView::Text("no tab title matches"@) && m["titles"@] == text_list(
            flattened(windows),
        )),
        flattened(windows.push(more)) == flattened(windows) + more,
        flattened(Seq::empty()).len() == 0,
{
    lemma_report_members_differ();
    assert(windows.push(more).drop_last() =~= windows);
}

/// A picture that was taken is reported with its path, and one that was not with the reason.
pub proof fn law_pictures_are_reported(path: &str, e: &str, r: String)
    ensures
        call_ensures(screenshot_reply, (path, Some(e)), r) ==> r@ == json_rendered(
            crate::control::failure(e@),
        ),
        call_ensures(screenshot_reply, (path, None), r) ==> r@ == json_rendered(
            JsonView::Object(
                Map::<Seq<char>, JsonView>::empty().insert("ok"@, JsonView::Bool(true)).insert(
                    "path"@,
                    JsonView::Text(path@),
                ),
            ),
        ),
{
}

} // verus!
