//! The tabs of one window: which is shown, what the strip shows of them, their titles and bells,
//! and closing what is in them.

use vstd::prelude::*;
use crate::backend::{is_live, sessions_view};
use crate::keys::{Key, KeyView, NamedKey};
use crate::layout::{
    first_index, lemma_first_index, panes_view, LayoutNode, PaneId, SessionId,
    Tab, TabId, WindowTree,
};
use crate::overlay::PendingClose;
use crate::text::{decimal, pop, push_decimal, to_chars};
use crate::titles::{display_title, tab_display_title};
use crate::windows::neighbour;

verus! {

broadcast use vstd::seq_lib::group_seq_properties;

// ---- which tab is shown ----------------------------------------------------

/// Shows tab `n`, counted from 1, if there is one.
pub fn select_tab(tree: &mut WindowTree, n: usize) -> (r: bool)
    ensures
        r == (1 <= n <= old(tree).tabs@.len()),
        final(tree).tabs == old(tree).tabs,
        final(tree).active == (if r { (n - 1) as usize } else { old(tree).active }),
{
    if n >= 1 && n <= tree.tabs.len() {
        tree.active = n - 1;
        true
    } else {
        false
    }
}

/// `x` counted round a circle of `n`.
fn round_circle(x: isize, n: usize) -> (r: usize)
    requires
        n > 0,
    ensures
        r == x as int % n as int,
        r < n,
{
    if x >= 0 {
        x as usize % n
    } else {
        let back: usize = -(x + 1) as usize % n;
        proof {
            lemma_round_circle(x as int, n as int);
        }
        n - 1 - back
    }
}

proof fn lemma_round_circle(x: int, n: int)
    requires
        x < 0,
        n > 0,
    ensures
        x % n == n - 1 - (-(x + 1)) % n,
{
    let y = -(x + 1);
    let (q, back) = (y / n, y % n);
    vstd::arithmetic::div_mod::lemma_fundamental_div_mod(y, n);
    assert(x == (n - 1 - back) + n * (-q - 1)) by (nonlinear_arith)
        requires
            y == n * q + back,
            y == -(x + 1),
    ;
    vstd::arithmetic::div_mod::lemma_fundamental_div_mod_converse(x, n, -q - 1, n - 1 - back);
}

/// Shows the tab `delta` further round the circle, where there are two or more. The key that asked
/// for it is used up either way.
pub fn cycle_tab(tree: &mut WindowTree, delta: isize) -> (r: bool)
    requires
        old(tree).tabs@.len() > 1 ==> isize::MIN <= old(tree).active + delta <= isize::MAX && old(
            tree,
        ).active <= isize::MAX,
    ensures
        r,
        final(tree).tabs == old(tree).tabs,
        final(tree).active == (if old(tree).tabs@.len() > 1 {
            (old(tree).active + delta) % (old(tree).tabs@.len() as int)
        } else {
            old(tree).active as int
        }),
{
    let n: usize = tree.tabs.len();
    if n > 1 {
        tree.active = round_circle(tree.active as isize + delta, n);
    }
    true
}

/// With two tabs or more, one step lands on the neighbour, and a step back undoes it.
pub proof fn law_cycling_goes_round(active: int, n: int)
    requires
        0 <= active < n,
        n > 1,
    ensures
        (active + 1) % n == neighbour(active, n, true),
        (active - 1) % n == neighbour(active, n, false),
        ((active + 1) % n - 1) % n == active,
        ((active - 1) % n + 1) % n == active,
{
    lemma_in_circle(active, n);
    if active + 1 < n {
        lemma_in_circle(active + 1, n);
    } else {
        vstd::arithmetic::div_mod::lemma_mod_self_0(n);
        lemma_below_circle(n);
    }
    if active > 0 {
        lemma_in_circle(active - 1, n);
        vstd::arithmetic::div_mod::lemma_mod_add_multiples_vanish(active - 1, n);
    } else {
        lemma_in_circle(n - 1, n);
        lemma_below_circle(n);
        vstd::arithmetic::div_mod::lemma_mod_self_0(n);
    }
}

proof fn lemma_in_circle(x: int, n: int)
    requires
        0 <= x < n,
    ensures
        x % n == x,
{
    vstd::arithmetic::div_mod::lemma_small_mod(x as nat, n as nat);
}

proof fn lemma_below_circle(n: int)
    requires
        n > 1,
    ensures
        -1int % n == n - 1,
{
    lemma_round_circle(-1, n);
    lemma_in_circle(0, n);
}

/// The session that has the focus in a window.
pub open spec fn focused_session(tree: WindowTree) -> Option<Seq<char>> {
    if tree.tabs@.len() == 0 {
        None
    } else {
        let tab = tree.tabs@[tree.active as int];
        tab.root.spec_session_of(tab.focus)
    }
}

/// The session that has the focus in a window.
pub fn focused_session_id(tree: &WindowTree) -> (r: Option<SessionId>)
    requires
        tree.tabs@.len() > 0 ==> tree.active < tree.tabs@.len(),
    ensures
        match r {
            Some(s) => focused_session(*tree) == Some(s@),
            None => focused_session(*tree) is None,
        },
{
    if tree.tabs.len() == 0 {
        return None;
    }
    let tab = &tree.tabs[tree.active];
    match tab.root.session_of(tab.focus) {
        Some(s) => Some(s.copy()),
        None => None,
    }
}

/// The sessions of some tabs, from the left.
pub open spec fn sessions_of(tabs: Seq<Tab>) -> Seq<Seq<char>>
    decreases tabs.len(),
{
    if tabs.len() == 0 {
        Seq::<Seq<char>>::empty()
    } else {
        sessions_of(tabs.drop_last()) + tabs.last().root.spec_sessions()
    }
}

fn push_sessions(root: &LayoutNode, out: &mut Vec<SessionId>)
    ensures
        sessions_view(final(out)@) == sessions_view(old(out)@) + root.spec_sessions(),
{
    let leaves = root.leaves();
    let ghost all = root.spec_sessions();
    let ghost start = sessions_view(out@);
    let mut i: usize = 0;
    assert(all.len() == leaves@.len());
    while i < leaves.len()
        invariant
            i <= leaves@.len(),
            all == root.spec_sessions(),
            panes_view(leaves@) == root.spec_panes(),
            sessions_view(out@) == start + all.take(i as int),
        decreases leaves@.len() - i,
    {
        let ghost before = out@;
        assert(all[i as int] == panes_view(leaves@)[i as int].1);
        out.push(leaves[i].1.copy());
        assert(sessions_view(out@) == sessions_view(before).push(all[i as int]));
        assert(all.take(i + 1) == all.take(i as int).push(all[i as int]));
        i += 1;
    }
    assert(all.take(i as int) == all);
}

/// Every session of a window.
pub fn window_session_ids(tree: &WindowTree) -> (r: Vec<SessionId>)
    ensures
        sessions_view(r@) == sessions_of(tree.tabs@),
{
    let mut out: Vec<SessionId> = Vec::new();
    assert(sessions_view(out@) == Seq::<Seq<char>>::empty());
    let mut i: usize = 0;
    while i < tree.tabs.len()
        invariant
            i <= tree.tabs@.len(),
            sessions_view(out@) == sessions_of(tree.tabs@.take(i as int)),
        decreases tree.tabs@.len() - i,
    {
        assert(tree.tabs@.take(i + 1).drop_last() == tree.tabs@.take(i as int));
        assert(tree.tabs@.take(i + 1).last() == tree.tabs@[i as int]);
        push_sessions(&tree.tabs[i].root, &mut out);
        i += 1;
    }
    assert(tree.tabs@.take(i as int) == tree.tabs@);
    out
}

/// Gives the focus to the pane of the shown tab that shows a session.
pub fn focus_pane_of_session(tree: &mut WindowTree, session: &SessionId) -> (r: bool)
    requires
        old(tree).tabs@.len() > 0 ==> old(tree).active < old(tree).tabs@.len(),
    ensures
        final(tree).active == old(tree).active,
        ({
            let changes = old(tree).tabs@.len() > 0 && focused_session(*old(tree)) != Some(session@)
                && old(tree).tabs@[old(tree).active as int].root.spec_pane_of(session@) is Some;
            &&& r == changes
            &&& if changes {
                let i = old(tree).active as int;
                final(tree).tabs@ == old(tree).tabs@.update(
                    i,
                    Tab { focus: old(tree).tabs@[i].root.spec_pane_of(session@)->0, ..old(tree).tabs@[i] },
                )
            } else {
                final(tree).tabs == old(tree).tabs
            }
        }),
{
    if tree.tabs.len() == 0 {
        return false;
    }
    let focused = match focused_session_id(tree) {
        Some(s) => s.is(session),
        None => false,
    };
    if focused {
        return false;
    }
    let i: usize = tree.active;
    match tree.tabs[i].root.pane_of(session) {
        Some(pane) => {
            tree.tabs[i].focus = pane;
            true
        },
        None => false,
    }
}

// ---- finding a session -----------------------------------------------------

/// The first tab that holds a session.
pub open spec fn tab_with(tabs: Seq<Tab>, session: Seq<char>) -> Option<int>
    decreases tabs.len(),
{
    if tabs.len() == 0 {
        None
    } else {
        match tab_with(tabs.drop_last(), session) {
            Some(i) => Some(i),
            None => if tabs.last().root.spec_pane_of(session) is Some {
                Some(tabs.len() - 1)
            } else {
                None
            },
        }
    }
}

proof fn lemma_tab_with_found(tabs: Seq<Tab>, session: Seq<char>, k: int)
    requires
        0 <= k <= tabs.len(),
        tab_with(tabs.take(k), session) is Some,
    ensures
        tab_with(tabs, session) == tab_with(tabs.take(k), session),
    decreases tabs.len(),
{
    if k == tabs.len() {
        assert(tabs.take(k) == tabs);
    } else {
        assert(tabs.drop_last().take(k) == tabs.take(k));
        lemma_tab_with_found(tabs.drop_last(), session, k);
    }
}

/// Where a session is: its tab, and the pane there.
pub fn find_session(tree: &WindowTree, session: &SessionId) -> (r: Option<(usize, PaneId)>)
    ensures
        match r {
            Some((i, pane)) => {
                &&& i < tree.tabs@.len()
                &&& tab_with(tree.tabs@, session@) == Some(i as int)
                &&& tree.tabs@[i as int].root.spec_pane_of(session@) == Some(pane)
            },
            None => tab_with(tree.tabs@, session@) is None,
        },
{
    let mut i: usize = 0;
    while i < tree.tabs.len()
        invariant
            i <= tree.tabs@.len(),
            tab_with(tree.tabs@.take(i as int), session@) is None,
        decreases tree.tabs@.len() - i,
    {
        assert(tree.tabs@.take(i + 1).drop_last() == tree.tabs@.take(i as int));
        assert(tree.tabs@.take(i + 1).last() == tree.tabs@[i as int]);
        if let Some(pane) = tree.tabs[i].root.pane_of(session) {
            proof {
                lemma_tab_with_found(tree.tabs@, session@, i + 1);
            }
            return Some((i, pane));
        }
        i += 1;
    }
    assert(tree.tabs@.take(i as int) == tree.tabs@);
    None
}

// ---- renaming --------------------------------------------------------------

/// The title of a tab that is being edited.
#[derive(Debug, PartialEq, Eq)]
pub struct Rename {
    pub editing: Option<usize>,
    pub buffer: String,
}

/// A control character, which no title gets.
pub open spec fn is_control(c: char) -> bool {
    (c as u32) < 0x20 || 0x7f <= (c as u32) <= 0x9f
}

/// A text without its control characters.
pub open spec fn printable(s: Seq<char>) -> Seq<char>
    decreases s.len(),
{
    if s.len() == 0 {
        s
    } else if is_control(s.last()) {
        printable(s.drop_last())
    } else {
        printable(s.drop_last()).push(s.last())
    }
}

/// What a key does to a title that is being edited.
#[derive(Debug, PartialEq, Eq)]
pub enum RenameStep {
    Nothing,
    /// The strip is shown anew.
    Refresh,
    /// The tab gets this title.
    Retitle(TabId, String),
}

pub open spec fn commits(r: RenameStep, was: Rename, tree: WindowTree) -> bool {
    match was.editing {
        Some(i) if i < tree.tabs@.len() => r matches RenameStep::Retitle(id, title) && id
            == tree.tabs@[i as int].id && title@ == was.buffer@,
        Some(_) => r is Refresh,
        None => r is Nothing,
    }
}

impl Rename {
    pub fn new() -> (r: Rename)
        ensures
            r.editing is None,
            r.buffer@.len() == 0,
    {
        Rename { editing: None, buffer: String::new() }
    }

    /// Begins to edit the title of a tab, if there is such a tab.
    pub fn start_rename(&mut self, tree: &WindowTree, i: usize) -> (r: bool)
        ensures
            r == (i < tree.tabs@.len()),
            if r {
                &&& final(self).editing == Some(i)
                &&& final(self).buffer@ == tree.tabs@[i as int].title@
            } else {
                *final(self) == *old(self)
            },
    {
        if i >= tree.tabs.len() {
            return false;
        }
        self.editing = Some(i);
        self.buffer = tree.tabs[i].title.clone();
        true
    }

    /// Ends the editing and gives the tab the title, if the tab is still there.
    pub fn commit_rename(&mut self, tree: &WindowTree) -> (r: RenameStep)
        ensures
            commits(r, *old(self), *tree),
            final(self).editing is None,
            old(self).editing is Some ==> final(self).buffer@.len() == 0,
            old(self).editing is None ==> *final(self) == *old(self),
    {
        let i = match self.editing {
            Some(i) => i,
            None => return RenameStep::Nothing,
        };
        self.editing = None;
        let title = self.buffer.clone();
        self.buffer = String::new();
        if i < tree.tabs.len() {
            RenameStep::Retitle(tree.tabs[i].id, title)
        } else {
            RenameStep::Refresh
        }
    }

    /// Ends the editing and forgets the title.
    pub fn cancel_rename(&mut self) -> (r: RenameStep)
        ensures
            final(self).editing is None,
            match old(self).editing {
                Some(_) => r is Refresh && final(self).buffer@.len() == 0,
                None => r is Nothing && *final(self) == *old(self),
            },
    {
        if self.editing.is_none() {
            return RenameStep::Nothing;
        }
        self.editing = None;
        self.buffer = String::new();
        RenameStep::Refresh
    }

    fn type_text(&mut self, s: &str)
        ensures
            final(self).editing == old(self).editing,
            final(self).buffer@ == old(self).buffer@ + printable(s@),
    {
        let chars = to_chars(s);
        let ghost start = self.buffer@;
        let ghost editing = self.editing;
        let mut i: usize = 0;
        assert(chars@.take(0) == Seq::<char>::empty());
        while i < chars.len()
            invariant
                i <= chars@.len(),
                self.editing == editing,
                self.buffer@ == start + printable(chars@.take(i as int)),
            decreases chars@.len() - i,
        {
            let c = chars[i];
            assert(chars@.take(i + 1).drop_last() == chars@.take(i as int));
            assert(chars@.take(i + 1).last() == c);
            let n: u32 = c as u32;
            if !(n < 0x20 || (n >= 0x7f && n <= 0x9f)) {
                self.buffer.push(c);
                assert(start + printable(chars@.take(i as int)).push(c) == (start + printable(
                    chars@.take(i as int),
                )).push(c));
            }
            i += 1;
        }
        assert(chars@.take(i as int) == chars@);
    }

    /// A key while the title of a tab is edited: Enter gives the title, Escape forgets it, other
    /// keys edit it.
    pub fn rename_key(&mut self, tree: &WindowTree, key: &Key) -> (r: RenameStep)
        ensures
            match key@ {
                KeyView::Named(NamedKey::Enter) => {
                    &&& commits(r, *old(self), *tree)
                    &&& final(self).editing is None
                    &&& old(self).editing is Some ==> final(self).buffer@.len() == 0
                    &&& old(self).editing is None ==> final(self).buffer@ == old(self).buffer@
                },
                KeyView::Named(NamedKey::Escape) => {
                    &&& r == (if old(self).editing is Some {
                        RenameStep::Refresh
                    } else {
                        RenameStep::Nothing
                    })
                    &&& final(self).editing is None
                    &&& old(self).editing is Some ==> final(self).buffer@.len() == 0
                    &&& old(self).editing is None ==> final(self).buffer@ == old(self).buffer@
                },
                KeyView::Named(NamedKey::Backspace) => {
                    &&& r is Refresh
                    &&& final(self).editing == old(self).editing
                    &&& final(self).buffer@ == crate::overlay::shortened(old(self).buffer@)
                },
                KeyView::Named(NamedKey::Space) => {
                    &&& r is Refresh
                    &&& final(self).editing == old(self).editing
                    &&& final(self).buffer@ == old(self).buffer@.push(' ')
                },
                KeyView::Character(s) => {
                    &&& r is Refresh
                    &&& final(self).editing == old(self).editing
                    &&& final(self).buffer@ == old(self).buffer@ + printable(s)
                },
                _ => r is Nothing && *final(self) == *old(self),
            },
    {
        match key {
            Key::Named(NamedKey::Enter) => self.commit_rename(tree),
            Key::Named(NamedKey::Escape) => self.cancel_rename(),
            Key::Named(NamedKey::Backspace) => {
                pop(&mut self.buffer);
                RenameStep::Refresh
            },
            Key::Named(NamedKey::Space) => {
                self.buffer.push(' ');
                RenameStep::Refresh
            },
            Key::Character(s) => {
                self.type_text(s.as_str());
                RenameStep::Refresh
            },
            _ => RenameStep::Nothing,
        }
    }
}

/// Typing adds no control character to a title.
pub proof fn law_titles_get_no_control_characters(s: Seq<char>)
    ensures
        forall|i: int| 0 <= i < printable(s).len() ==> !is_control(#[trigger] printable(s)[i]),
        (forall|i: int| 0 <= i < s.len() ==> !is_control(#[trigger] s[i])) ==> printable(s) == s,
    decreases s.len(),
{
    if s.len() > 0 {
        law_titles_get_no_control_characters(s.drop_last());
        let init = s.drop_last();
        assert forall|i: int| 0 <= i < printable(s).len() implies !is_control(
            #[trigger] printable(s)[i],
        ) by {
            if !is_control(s.last()) && i < printable(init).len() {
                assert(printable(s)[i] == printable(init)[i]);
            }
        }
        if forall|i: int| 0 <= i < s.len() ==> !is_control(#[trigger] s[i]) {
            assert forall|i: int| 0 <= i < init.len() implies !is_control(#[trigger] init[i]) by {
                assert(init[i] == s[i]);
            }
            assert(printable(s) == s);
        }
    }
}

// ---- bells -----------------------------------------------------------------

/// What a bell does.
#[derive(Clone, Copy, Debug, PartialEq, Eq, Structural)]
pub struct BellStep {
    /// The window flashes.
    pub flash: bool,
    /// The strip is shown anew.
    pub relayout: bool,
}

fn has_tab(tabs: &[TabId], id: TabId) -> (r: bool)
    ensures
        r == tabs@.contains(id),
{
    let mut i: usize = 0;
    while i < tabs.len()
        invariant
            i <= tabs@.len(),
            forall|j: int| 0 <= j < i ==> tabs@[j] != id,
        decreases tabs@.len() - i,
    {
        if tabs[i] == id {
            return true;
        }
        i += 1;
    }
    false
}

/// The tab that a bell marks: that of the session, unless it is the one that is shown.
pub open spec fn marked_by(tree: WindowTree, session: Seq<char>) -> Option<TabId> {
    match tab_with(tree.tabs@, session) {
        Some(i) if i != tree.active => Some(tree.tabs@[i].id),
        _ => None,
    }
}

/// The session that a bell is rung for on request: the first of a tab, or the focused one where no
/// tab is named.
pub open spec fn rung(tree: WindowTree, tab: Option<usize>) -> Option<Seq<char>> {
    match tab {
        Some(i) => if i < tree.tabs@.len() {
            Some(tree.tabs@[i as int].root.spec_sessions()[0])
        } else {
            None
        },
        None => focused_session(tree),
    }
}

/// The session that a bell is rung for on request.
pub fn bell_session(tree: &WindowTree, tab: Option<usize>) -> (r: Option<SessionId>)
    requires
        tab is None && tree.tabs@.len() > 0 ==> tree.active < tree.tabs@.len(),
    ensures
        match r {
            Some(s) => rung(*tree, tab) == Some(s@),
            None => rung(*tree, tab) is None,
        },
{
    match tab {
        Some(i) => {
            if i >= tree.tabs.len() {
                return None;
            }
            Some(tree.tabs[i].root.first_session())
        },
        None => focused_session_id(tree),
    }
}

/// A bell of a session: the window flashes, and the tab of the session is marked unless it is
/// shown. Without the visual bell nothing happens.
pub fn on_bell(belled: &mut Vec<TabId>, tree: &WindowTree, session: &SessionId, visual_bell: bool) -> (r: BellStep)
    ensures
        if !visual_bell {
            &&& final(belled)@ == old(belled)@
            &&& r == (BellStep { flash: false, relayout: false })
        } else {
            match marked_by(*tree, session@) {
                Some(id) if !old(belled)@.contains(id) => {
                    &&& final(belled)@ == old(belled)@.push(id)
                    &&& r == (BellStep { flash: true, relayout: true })
                },
                _ => {
                    &&& final(belled)@ == old(belled)@
                    &&& r == (BellStep { flash: true, relayout: false })
                },
            }
        },
{
    if !visual_bell {
        return BellStep { flash: false, relayout: false };
    }
    if let Some((i, _)) = find_session(tree, session) {
        if i != tree.active {
            let id = tree.tabs[i].id;
            if !has_tab(belled.as_slice(), id) {
                belled.push(id);
                return BellStep { flash: true, relayout: true };
            }
        }
    }
    BellStep { flash: true, relayout: false }
}

/// The marks without that of the tab that is shown.
pub open spec fn unmarked(belled: Seq<TabId>, id: TabId) -> Seq<TabId>
    decreases belled.len(),
{
    if belled.len() == 0 {
        belled
    } else if belled.last() == id {
        unmarked(belled.drop_last(), id)
    } else {
        unmarked(belled.drop_last(), id).push(belled.last())
    }
}

/// Takes the mark off the tab that is shown.
pub fn clear_shown_bell(belled: &mut Vec<TabId>, tree: &WindowTree)
    ensures
        final(belled)@ == (if tree.active < tree.tabs@.len() {
            unmarked(old(belled)@, tree.tabs@[tree.active as int].id)
        } else {
            old(belled)@
        }),
{
    if tree.active >= tree.tabs.len() {
        return;
    }
    let id = tree.tabs[tree.active].id;
    let mut out: Vec<TabId> = Vec::new();
    let mut i: usize = 0;
    assert(belled@.take(0) == Seq::<TabId>::empty());
    while i < belled.len()
        invariant
            i <= belled@.len(),
            out@ == unmarked(belled@.take(i as int), id),
        decreases belled@.len() - i,
    {
        assert(belled@.take(i + 1).drop_last() == belled@.take(i as int));
        assert(belled@.take(i + 1).last() == belled@[i as int]);
        if belled[i] != id {
            out.push(belled[i]);
        }
        i += 1;
    }
    assert(belled@.take(i as int) == belled@);
    *belled = out;
}

/// A tab that is shown carries no mark, and the marks of the others stay.
pub proof fn law_showing_a_tab_clears_its_mark(belled: Seq<TabId>, id: TabId)
    ensures
        !unmarked(belled, id).contains(id),
        forall|other: TabId|
            other != id ==> (unmarked(belled, id).contains(other) <==> #[trigger] belled.contains(other)),
    decreases belled.len(),
{
    if belled.len() > 0 {
        let init = belled.drop_last();
        law_showing_a_tab_clears_its_mark(init, id);
        let kept = unmarked(init, id);
        assert(belled == init.push(belled.last()));
        assert forall|other: TabId| other != id implies (unmarked(belled, id).contains(other)
            <==> #[trigger] belled.contains(other)) by {
            assert(init.contains(other) <==> kept.contains(other));
            if belled.last() == id {
                assert(belled.contains(other) <==> init.contains(other)) by {
                    if belled.contains(other) {
                        let k = choose|k: int| 0 <= k < belled.len() && belled[k] == other;
                        assert(init[k] == other);
                    }
                }
            } else {
                assert(kept.push(belled.last()).contains(other) <==> kept.contains(other) || other
                    == belled.last());
                assert(init.push(belled.last()).contains(other) <==> init.contains(other) || other
                    == belled.last());
            }
        }
        if belled.last() != id {
            assert(kept.push(belled.last()).contains(id) <==> kept.contains(id) || id
                == belled.last());
        }
    }
}

// ---- the strip -------------------------------------------------------------

/// What the strip shows of a tab.
#[derive(Debug, PartialEq, Eq)]
pub struct StripLabel {
    pub title: String,
    pub active: bool,
    pub editing: bool,
    pub bell: bool,
}

#[verifier::ext_equal]
pub struct StripLabelView {
    pub title: Seq<char>,
    pub active: bool,
    pub editing: bool,
    pub bell: bool,
}

impl StripLabel {
    pub open spec fn view(&self) -> StripLabelView {
        StripLabelView {
            title: self.title@,
            active: self.active,
            editing: self.editing,
            bell: self.bell,
        }
    }
}

pub open spec fn labels_view(v: Seq<StripLabel>) -> Seq<StripLabelView> {
    v.map_values(|l: StripLabel| l@)
}

/// The label of a tab: its title, or the text that is being typed for it.
pub open spec fn label_of(tree: WindowTree, i: int, rename: Rename, belled: Seq<TabId>) -> StripLabelView {
    let editing = rename.editing matches Some(e) && e == i;
    StripLabelView {
        title: if editing {
            rename.buffer@
        } else {
            display_title(tree.tabs@[i].title@, i as nat)
        },
        active: i == tree.active,
        editing,
        bell: belled.contains(tree.tabs@[i].id),
    }
}

/// The labels of the first `k` tabs, without the hidden one.
pub open spec fn labels_of(tree: WindowTree, k: nat, hidden: Option<TabId>, rename: Rename, belled: Seq<TabId>) -> Seq<StripLabelView>
    decreases k,
{
    if k == 0 {
        Seq::<StripLabelView>::empty()
    } else {
        let before = labels_of(tree, (k - 1) as nat, hidden, rename, belled);
        if hidden == Some(tree.tabs@[k - 1].id) {
            before
        } else {
            before.push(label_of(tree, k - 1, rename, belled))
        }
    }
}

/// The labels of the strip. A tab that is carried away is left out.
pub fn strip_labels(tree: &WindowTree, hidden: Option<TabId>, rename: &Rename, belled: &[TabId]) -> (r: Vec<StripLabel>)
    ensures
        labels_view(r@) == labels_of(*tree, tree.tabs@.len(), hidden, *rename, belled@),
{
    let mut out: Vec<StripLabel> = Vec::new();
    assert(labels_view(out@) == Seq::<StripLabelView>::empty());
    let mut i: usize = 0;
    while i < tree.tabs.len()
        invariant
            i <= tree.tabs@.len(),
            labels_view(out@) == labels_of(*tree, i as nat, hidden, *rename, belled@),
        decreases tree.tabs@.len() - i,
    {
        let tab = &tree.tabs[i];
        let left_out = match hidden {
            Some(id) => id == tab.id,
            None => false,
        };
        if !left_out {
            let editing = match rename.editing {
                Some(e) => e == i,
                None => false,
            };
            let title = if editing {
                rename.buffer.clone()
            } else {
                tab_display_title(tab.title.as_str(), i)
            };
            let label = StripLabel {
                title,
                active: i == tree.active,
                editing,
                bell: has_tab(belled, tab.id),
            };
            let ghost before = out@;
            assert(label@ == label_of(*tree, i as int, *rename, belled@));
            out.push(label);
            assert(labels_view(out@) == labels_view(before).push(
                label_of(*tree, i as int, *rename, belled@),
            ));
        }
        i += 1;
    }
    out
}

/// With one tab carried away, the strip shows the labels of all the others, in order.
pub proof fn law_strip_leaves_out_only_the_carried_tab(tree: WindowTree, k: nat, e: int, rename: Rename, belled: Seq<TabId>)
    requires
        k <= tree.tabs@.len(),
        0 <= e < tree.tabs@.len(),
        tree.spec_tab_ids().no_duplicates(),
    ensures
        labels_of(tree, k, None, rename, belled).len() == k,
        labels_of(tree, k, Some(tree.tabs@[e].id), rename, belled) == (if e < k {
            labels_of(tree, k, None, rename, belled).remove(e)
        } else {
            labels_of(tree, k, None, rename, belled)
        }),
    decreases k,
{
    if k > 0 {
        law_strip_leaves_out_only_the_carried_tab(tree, (k - 1) as nat, e, rename, belled);
        let all = labels_of(tree, (k - 1) as nat, None, rename, belled);
        let ids = tree.spec_tab_ids();
        assert(ids[k - 1] == tree.tabs@[k - 1].id && ids[e] == tree.tabs@[e].id);
        let last = label_of(tree, k - 1, rename, belled);
        if e == k - 1 {
            assert(all.push(last).remove(e) == all);
        } else if e < k - 1 {
            assert(all.push(last).remove(e) == all.remove(e).push(last));
        }
    }
}

// ---- what is on screen -----------------------------------------------------

/// The size of a pane in cells.
#[derive(Clone, Copy, Debug, PartialEq, Eq, Structural)]
pub struct GridDims {
    pub columns: u16,
    pub screen_lines: u16,
}

/// The places among the first `k` whose size is not the one that the shell was told.
pub open spec fn to_resize(now: Seq<GridDims>, told: Seq<Option<GridDims>>, k: nat) -> Seq<int>
    decreases k,
{
    if k == 0 {
        Seq::<int>::empty()
    } else {
        let before = to_resize(now, told, (k - 1) as nat);
        if told[k - 1] == Some(now[k - 1]) {
            before
        } else {
            before.push(k - 1)
        }
    }
}

pub open spec fn ints(v: Seq<usize>) -> Seq<int> {
    v.map_values(|i: usize| i as int)
}

/// Which panes have a size that their shell was not told yet.
pub fn changed_dims(now: &[GridDims], told: &[Option<GridDims>]) -> (r: Vec<usize>)
    requires
        now@.len() == told@.len(),
    ensures
        ints(r@) == to_resize(now@, told@, now@.len()),
{
    let mut out: Vec<usize> = Vec::new();
    assert(ints(out@) == Seq::<int>::empty());
    let mut i: usize = 0;
    while i < now.len()
        invariant
            i <= now@.len(),
            now@.len() == told@.len(),
            ints(out@) == to_resize(now@, told@, i as nat),
        decreases now@.len() - i,
    {
        let known = match told[i] {
            Some(d) => d == now[i],
            None => false,
        };
        let ghost before = out@;
        if !known {
            out.push(i);
            assert(ints(out@) == ints(before).push(i as int));
        }
        i += 1;
    }
    out
}

/// Told once, a size is not told again.
pub proof fn law_sizes_are_told_once(now: Seq<GridDims>, k: nat)
    requires
        k <= now.len(),
    ensures
        to_resize(now, now.map_values(|d: GridDims| Some(d)), k).len() == 0,
    decreases k,
{
    if k > 0 {
        law_sizes_are_told_once(now, (k - 1) as nat);
    }
}

/// The panes that are shown, of those with a place on screen: each with its number there.
pub open spec fn shown(root: LayoutNode, placed: Seq<PaneId>) -> Seq<(int, Seq<char>)>
    decreases placed.len(),
{
    if placed.len() == 0 {
        Seq::<(int, Seq<char>)>::empty()
    } else {
        let before = shown(root, placed.drop_last());
        match root.spec_session_of(placed.last()) {
            Some(s) => before.push((placed.len() - 1, s)),
            None => before,
        }
    }
}

pub open spec fn shown_view(v: Seq<(usize, SessionId)>) -> Seq<(int, Seq<char>)> {
    v.map_values(|p: (usize, SessionId)| (p.0 as int, p.1@))
}

/// The sessions that are shown in the panes with a place on screen.
pub fn visible_panes(root: &LayoutNode, placed: &[PaneId]) -> (r: Vec<(usize, SessionId)>)
    ensures
        shown_view(r@) == shown(*root, placed@),
{
    let mut out: Vec<(usize, SessionId)> = Vec::new();
    assert(shown_view(out@) == Seq::<(int, Seq<char>)>::empty());
    let mut i: usize = 0;
    assert(placed@.take(0) == Seq::<PaneId>::empty());
    while i < placed.len()
        invariant
            i <= placed@.len(),
            shown_view(out@) == shown(*root, placed@.take(i as int)),
        decreases placed@.len() - i,
    {
        assert(placed@.take(i + 1).drop_last() == placed@.take(i as int));
        assert(placed@.take(i + 1).last() == placed@[i as int]);
        let ghost before = out@;
        if let Some(s) = root.session_of(placed[i]) {
            out.push((i, s.copy()));
            assert(shown_view(out@) == shown_view(before).push((i as int, s@)));
        }
        i += 1;
    }
    assert(placed@.take(i as int) == placed@);
    out
}

// ---- closing ---------------------------------------------------------------

/// Whether any of some sessions runs a command.
pub open spec fn any_busy(sessions: Seq<Seq<char>>, busy: Seq<Seq<char>>) -> bool {
    exists|i: int| 0 <= i < sessions.len() && busy.contains(#[trigger] sessions[i])
}

fn some_busy(sessions: &[SessionId], busy: &[SessionId]) -> (r: bool)
    ensures
        r == any_busy(sessions_view(sessions@), sessions_view(busy@)),
{
    let ghost all = sessions_view(sessions@);
    let mut i: usize = 0;
    while i < sessions.len()
        invariant
            i <= sessions@.len(),
            all == sessions_view(sessions@),
            forall|j: int| 0 <= j < i ==> !sessions_view(busy@).contains(#[trigger] all[j]),
        decreases sessions@.len() - i,
    {
        if is_live(busy, &sessions[i]) {
            assert(sessions_view(busy@).contains(all[i as int]));
            return true;
        }
        i += 1;
    }
    false
}

/// The tab with an id.
pub open spec fn tab_by_id(tree: WindowTree, id: TabId) -> Option<int> {
    first_index(tree.spec_tab_ids(), id)
}

/// Whether closing something would end a running command. `busy` are the sessions that run one:
/// quitting concerns them all, closing a window only its own.
pub open spec fn hits_running(tree: WindowTree, kind: PendingClose, busy: Seq<Seq<char>>) -> bool {
    match kind {
        PendingClose::Quit => busy.len() > 0,
        PendingClose::Pane => match focused_session(tree) {
            Some(s) => busy.contains(s),
            None => false,
        },
        PendingClose::Tab(id) => match tab_by_id(tree, id) {
            Some(i) => any_busy(tree.tabs@[i].root.spec_sessions(), busy),
            None => false,
        },
        PendingClose::CloseWindow => any_busy(sessions_of(tree.tabs@), busy),
    }
}

/// Whether closing something would end a running command.
pub fn close_hits_running(tree: &WindowTree, kind: PendingClose, busy: &[SessionId]) -> (r: bool)
    requires
        kind is Pane && tree.tabs@.len() > 0 ==> tree.active < tree.tabs@.len(),
    ensures
        r == hits_running(*tree, kind, sessions_view(busy@)),
{
    match kind {
        PendingClose::Quit => busy.len() > 0,
        PendingClose::Pane => match focused_session_id(tree) {
            Some(s) => is_live(busy, &s),
            None => false,
        },
        PendingClose::Tab(id) => match tree.tab_index(id) {
            Some(i) => {
                let mut sessions: Vec<SessionId> = Vec::new();
                push_sessions(&tree.tabs[i].root, &mut sessions);
                assert(sessions_view(sessions@) == tree.tabs@[i as int].root.spec_sessions());
                some_busy(sessions.as_slice(), busy)
            },
            None => false,
        },
        PendingClose::CloseWindow => {
            let sessions = window_session_ids(tree);
            some_busy(sessions.as_slice(), busy)
        },
    }
}

/// Closing one window is never held up by another: only its own sessions count.
pub proof fn law_other_windows_do_not_hold_up_a_close(tree: WindowTree, busy: Seq<Seq<char>>)
    requires
        forall|i: int|
            0 <= i < sessions_of(tree.tabs@).len() ==> !busy.contains(
                #[trigger] sessions_of(tree.tabs@)[i],
            ),
    ensures
        !hits_running(tree, PendingClose::CloseWindow, busy),
{
}

/// What a close takes out of a window.
#[derive(Clone, Copy, Debug, PartialEq, Eq, Structural)]
pub enum Removal {
    Pane(PaneId),
    Tab(TabId),
    /// The window with all it holds.
    Everything,
}

/// What a close that needs no further question takes out of the window: the focused pane, a tab,
/// or the window itself.
pub fn do_close(tree: &WindowTree, kind: PendingClose) -> (r: Removal)
    requires
        kind is Pane ==> tree.active < tree.tabs@.len(),
    ensures
        r == (match kind {
            PendingClose::Pane => Removal::Pane(tree.tabs@[tree.active as int].focus),
            PendingClose::Tab(id) => Removal::Tab(id),
            PendingClose::Quit | PendingClose::CloseWindow => Removal::Everything,
        }),
{
    match kind {
        PendingClose::Pane => Removal::Pane(tree.tabs[tree.active].focus),
        PendingClose::Tab(id) => Removal::Tab(id),
        PendingClose::Quit => Removal::Everything,
        PendingClose::CloseWindow => Removal::Everything,
    }
}

/// After a removal from a window: whether nothing is left of it. Where a tab was closed, the tab
/// that the user saw is shown again, if it is still there.
pub fn after_removal(tree: &mut WindowTree, removed: Removal, user_tab: Option<TabId>) -> (r: bool)
    ensures
        r == (removed is Everything || old(tree).tabs@.len() == 0),
        final(tree).tabs == old(tree).tabs,
        final(tree).active == (if removed is Tab && old(tree).tabs@.len() > 0 {
            restored(old(tree).spec_tab_ids(), old(tree).active as int, user_tab)
        } else {
            old(tree).active as int
        }),
{
    match removed {
        Removal::Everything => true,
        Removal::Pane(_) => tree.tabs.len() == 0,
        Removal::Tab(_) => {
            if tree.tabs.len() == 0 {
                return true;
            }
            restore_active(tree, user_tab);
            false
        },
    }
}

/// The tab that is shown after something was closed: the user's, if it is still there.
pub open spec fn restored(ids: Seq<TabId>, active: int, user_tab: Option<TabId>) -> int {
    let wished = match user_tab {
        Some(id) => match first_index(ids, id) {
            Some(i) => i,
            None => active,
        },
        None => active,
    };
    if wished < ids.len() {
        wished
    } else {
        ids.len() - 1
    }
}

/// Shows the user's tab again after something was closed in some tab.
pub fn restore_active(tree: &mut WindowTree, user_tab: Option<TabId>)
    requires
        old(tree).tabs@.len() > 0,
    ensures
        final(tree).tabs == old(tree).tabs,
        final(tree).active == restored(
            old(tree).spec_tab_ids(),
            old(tree).active as int,
            user_tab,
        ),
        final(tree).active < final(tree).tabs@.len(),
{
    let wished: usize = match user_tab {
        Some(id) => match tree.tab_index(id) {
            Some(i) => i,
            None => tree.active,
        },
        None => tree.active,
    };
    tree.active = if wished < tree.tabs.len() {
        wished
    } else {
        tree.tabs.len() - 1
    };
}

/// Closing something elsewhere leaves the user on their tab.
pub proof fn law_closing_elsewhere_keeps_the_tab(ids: Seq<TabId>, active: int, user_tab: TabId)
    requires
        ids.contains(user_tab),
    ensures
        0 <= restored(ids, active, Some(user_tab)) < ids.len(),
        ids[restored(ids, active, Some(user_tab))] == user_tab,
{
    lemma_first_index(ids, user_tab);
}

// ---- new panes -------------------------------------------------------------

/// The numbers for the next pane, session and tab.
#[derive(Clone, Copy, Debug, PartialEq, Eq, Structural)]
pub struct NextIds {
    pub pane: u64,
    pub session: u64,
    pub tab: u64,
}

/// The name of the `n`-th session.
pub open spec fn session_name(n: nat) -> Seq<char> {
    "s"@ + decimal(n)
}

/// The name of the `n`-th session.
pub fn session_named(n: u64) -> (r: SessionId)
    ensures
        r@ == session_name(n as nat),
{
    let mut name = "s".to_owned();
    push_decimal(&mut name, n);
    SessionId(name)
}

impl NextIds {
    /// After the first tab with its pane and session.
    pub fn new() -> (r: NextIds)
        ensures
            r == (NextIds { pane: 2, session: 2, tab: 2 }),
    {
        NextIds { pane: 2, session: 2, tab: 2 }
    }

    pub open spec fn has_room(self) -> bool {
        self.pane < u64::MAX && self.session < u64::MAX && self.tab < u64::MAX
    }

    /// The pane and session that a split would get; they are taken only once the split is made.
    pub fn for_split(&self) -> (r: (PaneId, SessionId))
        ensures
            r.0 == PaneId(self.pane),
            r.1@ == session_name(self.session as nat),
    {
        (PaneId(self.pane), session_named(self.session))
    }

    /// The split was made: its numbers are taken.
    pub fn take_split(&mut self)
        requires
            old(self).has_room(),
        ensures
            *final(self) == (NextIds {
                pane: (old(self).pane + 1) as u64,
                session: (old(self).session + 1) as u64,
                ..*old(self)
            }),
    {
        self.pane = self.pane + 1;
        self.session = self.session + 1;
    }

    /// The tab that a move would make, if it makes one; it is taken once the move is made.
    pub fn for_move(&self) -> (r: TabId)
        ensures
            r == TabId(self.tab),
    {
        TabId(self.tab)
    }

    /// The move was made: its number is taken.
    pub fn take_move(&mut self)
        requires
            old(self).tab < u64::MAX,
        ensures
            *final(self) == (NextIds { tab: (old(self).tab + 1) as u64, ..*old(self) }),
    {
        self.tab = self.tab + 1;
    }

    /// Takes the numbers of a tab with one pane.
    pub fn take_tab(&mut self) -> (r: (TabId, PaneId, SessionId))
        requires
            old(self).has_room(),
        ensures
            r.0 == TabId(old(self).tab),
            r.1 == PaneId(old(self).pane),
            r.2@ == session_name(old(self).session as nat),
            *final(self) == (NextIds {
                pane: (old(self).pane + 1) as u64,
                session: (old(self).session + 1) as u64,
                tab: (old(self).tab + 1) as u64,
            }),
    {
        let id = TabId(self.tab);
        let pane = PaneId(self.pane);
        let session = session_named(self.session);
        self.pane = self.pane + 1;
        self.session = self.session + 1;
        self.tab = self.tab + 1;
        (id, pane, session)
    }
}

/// Different numbers give sessions of different names.
pub proof fn law_session_names_differ(a: nat, b: nat)
    requires
        a != b,
    ensures
        session_name(a) != session_name(b),
{
    if session_name(a) == session_name(b) {
        reveal_strlit("s");
        assert(session_name(a).skip(1) == decimal(a));
        assert(session_name(b).skip(1) == decimal(b));
        crate::text::lemma_decimal(a);
        crate::text::lemma_decimal(b);
    }
}

/// A window with one tab of one pane.
pub fn single_pane_tree(id: TabId, pane: PaneId, session: SessionId) -> (r: WindowTree)
    ensures
        r.active == 0,
        r.tabs@.len() == 1,
        r.tabs@[0].id == id,
        r.tabs@[0].title@.len() == 0,
        r.tabs@[0].focus == pane,
        r.tabs@[0].root == (LayoutNode::Pane { pane, session }),
{
    let mut tabs: Vec<Tab> = Vec::new();
    tabs.push(Tab { id, title: String::new(), focus: pane, root: LayoutNode::pane(pane, session) });
    WindowTree { tabs, active: 0 }
}

/// What becomes of a split.
#[derive(Clone, Copy, Debug, PartialEq, Eq, Structural)]
pub enum SplitStep {
    /// The pane is too small: nothing was changed.
    Refused,
    /// No shell could be started: the new pane is closed again.
    RollBack(PaneId),
    Done,
}

/// What becomes of a split: `accepted` tells that there was room, `spawned` that a shell started
/// in the new pane. Numbers are taken only for a split that was made.
pub fn finish_split(ids: &mut NextIds, accepted: bool, spawned: bool) -> (r: SplitStep)
    requires
        old(ids).has_room(),
    ensures
        r == (if !accepted {
            SplitStep::Refused
        } else if !spawned {
            SplitStep::RollBack(PaneId(old(ids).pane))
        } else {
            SplitStep::Done
        }),
        *final(ids) == (if accepted {
            NextIds {
                pane: (old(ids).pane + 1) as u64,
                session: (old(ids).session + 1) as u64,
                ..*old(ids)
            }
        } else {
            *old(ids)
        }),
{
    if !accepted {
        return SplitStep::Refused;
    }
    let pane = PaneId(ids.pane);
    ids.take_split();
    if !spawned {
        return SplitStep::RollBack(pane);
    }
    SplitStep::Done
}

// ---- tabs, marks and names -------------------------------------------------

/// Tabs are chosen by their number from 1, and by steps round the strip: one step on is the next
/// tab, and behind the last comes the first.
pub proof fn law_tabs_are_chosen(tree: &mut WindowTree, n: usize, delta: isize, r: bool)
    ensures
        call_ensures(select_tab, (tree, n), r) ==> {
            &&& r <==> 1 <= n <= old(tree).tabs@.len()
            &&& r ==> final(tree).active + 1 == n
            &&& !r ==> final(tree).active == old(tree).active
            &&& final(tree).tabs == old(tree).tabs
        },
        old(tree).active < old(tree).tabs@.len() && call_ensures(cycle_tab, (tree, delta), r) ==> {
            let n = old(tree).tabs@.len();
            let a = old(tree).active;
            &&& final(tree).tabs == old(tree).tabs
            &&& delta == 1 && a + 1 < n ==> final(tree).active == a + 1
            &&& delta == 1 && a + 1 == n ==> final(tree).active == 0
            &&& delta == -1 && a > 0 ==> final(tree).active == a - 1
            &&& delta == -1 && a == 0 ==> final(tree).active == n - 1
        },
{
    let n = old(tree).tabs@.len() as int;
    let a = old(tree).active as int;
    if 0 <= a < n {
        assert((a + 1) % n == (if a + 1 == n { 0 } else { a + 1 })) by (nonlinear_arith)
            requires
                0 <= a < n,
        ;
        assert((a - 1) % n == (if a == 0 { n - 1 } else { a - 1 })) by (nonlinear_arith)
            requires
                0 <= a < n,
        ;
    }
}

/// The session in focus is that of the focused pane of the tab on show.
pub proof fn law_focus_is_in_the_tab_on_show(tree: WindowTree)
    ensures
        tree.tabs@.len() == 0 ==> focused_session(tree) is None,
        tree.tabs@.len() > 0 ==> focused_session(tree)
            == tree.tabs@[tree.active as int].root.spec_session_of(
            tree.tabs@[tree.active as int].focus,
        ),
{
}

/// The sessions of a window are those of its tabs, tab by tab.
pub proof fn law_sessions_are_listed_by_tab(tabs: Seq<Tab>, t: Tab)
    ensures
        sessions_of(tabs.push(t)) == sessions_of(tabs) + t.root.spec_sessions(),
        sessions_of(Seq::empty()).len() == 0,
{
    assert(tabs.push(t).drop_last() =~= tabs);
}

/// A session is found in the first tab that holds it, and in the pane that shows it.
pub proof fn law_sessions_are_found_in_their_tab(tabs: Seq<Tab>, session: Seq<char>, j: int)
    ensures
        match tab_with(tabs, session) {
            Some(i) => 0 <= i < tabs.len() && tabs[i].root.spec_pane_of(session) is Some && (0 <= j
                < i ==> tabs[j].root.spec_pane_of(session) is None),
            None => 0 <= j < tabs.len() ==> tabs[j].root.spec_pane_of(session) is None,
        },
    decreases tabs.len(),
{
    if tabs.len() > 0 {
        law_sessions_are_found_in_their_tab(tabs.drop_last(), session, j);
    }
}

/// Focusing a session changes the focus of the tab on show and nothing else, and only where the
/// session is in that tab.
pub proof fn law_focusing_changes_only_the_focus(tree: &mut WindowTree, session: &SessionId, r: bool, i: int)
    requires
        old(tree).tabs@.len() > 0 && old(tree).active < old(tree).tabs@.len(),
        call_ensures(focus_pane_of_session, (tree, session), r),
    ensures
        final(tree).active == old(tree).active,
        final(tree).tabs@.len() == old(tree).tabs@.len(),
        0 <= i < old(tree).tabs@.len() ==> {
            let (before, after) = (old(tree).tabs@[i], final(tree).tabs@[i]);
            &&& after.id == before.id && after.title == before.title && after.root == before.root
            &&& i != old(tree).active ==> after.focus == before.focus
            &&& i == old(tree).active && r ==> Some(after.focus) == before.root.spec_pane_of(
                session@,
            )
            &&& !r ==> after.focus == before.focus
        },
        r ==> focused_session(*old(tree)) != Some(session@),
{
}

/// Control characters are those below 32 and from 127 to 159; a title keeps all others, in order.
pub proof fn law_titles_keep_what_can_be_printed(s: Seq<char>, c: char)
    ensures
        printable(s.push(c)) == (if (c as int) < 32 || 127 <= c as int <= 159 {
            printable(s)
        } else {
            printable(s).push(c)
        }),
        printable(Seq::empty()).len() == 0,
{
    assert(s.push(c).drop_last() =~= s);
}

/// A rename starts with the title of its tab, ends with a new title for that tab when it is
/// committed, and with none when it is cancelled; after either nothing is edited.
pub proof fn law_renames_run_their_course(n: &mut Rename, tree: WindowTree, i: usize, began: bool, step: RenameStep)
    ensures
        call_ensures(Rename::start_rename, (n, &tree, i), began) ==> {
            &&& began <==> i < tree.tabs@.len()
            &&& began ==> final(n).editing == Some(i) && final(n).buffer@
                == tree.tabs@[i as int].title@
            &&& !began ==> *final(n) == *old(n)
        },
        call_ensures(Rename::commit_rename, (n, &tree), step) ==> {
            &&& final(n).editing is None
            &&& old(n).editing is None ==> step is Nothing
            &&& old(n).editing matches Some(k) ==> {
                &&& k < tree.tabs@.len() ==> (step matches RenameStep::Retitle(id, title) && id
                    == tree.tabs@[k as int].id && title@ == old(n).buffer@)
                &&& k >= tree.tabs@.len() ==> step is Refresh
            }
        },
        call_ensures(Rename::cancel_rename, (n,), step) ==> {
            &&& final(n).editing is None
            &&& step is Refresh <==> old(n).editing is Some
            &&& step is Nothing <==> old(n).editing is None
        },
{
}

/// The keys of a rename: Enter commits, Escape cancels, Backspace takes the last character, and
/// text is added without its control characters; other keys do nothing.
pub proof fn law_rename_keys(n: &mut Rename, tree: WindowTree, key: &Key, step: RenameStep)
    requires
        call_ensures(Rename::rename_key, (n, &tree, key), step),
    ensures
        key@ == KeyView::Named(NamedKey::Enter) ==> final(n).editing is None && (old(n).editing
            matches Some(k) ==> (k < tree.tabs@.len() ==> (step matches RenameStep::Retitle(
            id,
            title,
        ) && id == tree.tabs@[k as int].id && title@ == old(n).buffer@))),
        key@ == KeyView::Named(NamedKey::Escape) ==> final(n).editing is None && !(step is Retitle),
        key@ == KeyView::Named(NamedKey::Backspace) ==> final(n).editing == old(n).editing && (old(n).buffer@.len() > 0 ==> final(n).buffer@ == old(n).buffer@.drop_last()) && step is Refresh,
        key@ == KeyView::Named(NamedKey::Space) ==> final(n).buffer@ == old(n).buffer@.push(' ')
            && final(n).editing == old(n).editing && step is Refresh,
        key@ matches KeyView::Character(s) ==> final(n).buffer@ == old(n).buffer@ + printable(s)
            && final(n).editing == old(n).editing && step is Refresh,
        key@ == KeyView::Named(NamedKey::ArrowLeft) || key@ == KeyView::Named(NamedKey::Tab)
            ==> step is Nothing && *final(n) == *old(n),
{
}

/// A bell marks the tab that its session is in, once, where another tab is on show; it flashes
/// where bells are seen at all. A bell for a tab rings its first session, one for none the session
/// in focus.
pub proof fn law_bells_mark_their_tab(belled: &mut Vec<TabId>, tree: WindowTree, session: &SessionId, visual: bool, r: BellStep, i: int, tab: usize)
    ensures
        call_ensures(on_bell, (belled, &tree, session, visual), r) ==> {
            &&& r.flash <==> visual
            &&& !visual ==> final(belled)@ == old(belled)@ && !r.relayout
            &&& visual && tab_with(tree.tabs@, session@) == Some(i) && i != tree.active ==> final(belled)@ == (if old(belled)@.contains(tree.tabs@[i].id) {
                old(belled)@
            } else {
                old(belled)@.push(tree.tabs@[i].id)
            }) && r.relayout == !old(belled)@.contains(tree.tabs@[i].id)
            &&& tab_with(tree.tabs@, session@) == Some(i) && i == tree.active ==> final(belled)@
                == old(belled)@ && !r.relayout
            &&& tab_with(tree.tabs@, session@) is None ==> final(belled)@ == old(belled)@
        },
        rung(tree, None) == focused_session(tree),
        tab < tree.tabs@.len() ==> rung(tree, Some(tab)) == Some(
            tree.tabs@[tab as int].root.spec_sessions()[0],
        ),
        tab >= tree.tabs@.len() ==> rung(tree, Some(tab)) is None,
{
}

/// The strip shows each tab in its place: its title or, while it is renamed, what is typed, the
/// one on show, and the marks of those that rang.
pub proof fn law_the_strip_shows_each_tab(tree: WindowTree, k: nat, i: int, rename: Rename, belled: Seq<TabId>)
    requires
        0 <= i < k <= tree.tabs@.len(),
    ensures
        ({
            let all = labels_of(tree, k, None, rename, belled);
            &&& all.len() == k
            &&& all[i].active <==> i == tree.active
            &&& all[i].bell <==> belled.contains(tree.tabs@[i].id)
            &&& all[i].editing <==> (rename.editing matches Some(e) && e == i)
            &&& all[i].editing ==> all[i].title == rename.buffer@
            &&& !all[i].editing ==> all[i].title == display_title(tree.tabs@[i].title@, i as nat)
        }),
    decreases k,
{
    reveal_with_fuel(labels_of, 2);
    let before = labels_of(tree, (k - 1) as nat, None, rename, belled);
    let own = label_of(tree, k - 1, rename, belled);
    assert(labels_of(tree, k, None, rename, belled) == before.push(own));
    if i == k - 1 {
        if k > 1 {
            law_the_strip_shows_each_tab(tree, (k - 1) as nat, 0, rename, belled);
        }
    } else {
        law_the_strip_shows_each_tab(tree, (k - 1) as nat, i, rename, belled);
    }
}

/// The panes to be told of a new size are those that were last told another one, in order.
#[verifier::rlimit(40)]
pub proof fn law_changed_sizes_are_told(now: Seq<GridDims>, told: Seq<Option<GridDims>>, k: nat, i: int)
    ensures
        to_resize(now, told, k).contains(i) <==> 0 <= i < k && told[i] != Some(now[i]),
        forall|a: int, b: int|
            0 <= a < b < to_resize(now, told, k).len() ==> (#[trigger] to_resize(now, told, k)[a])
                < (#[trigger] to_resize(now, told, k)[b]),
        forall|a: int|
            0 <= a < to_resize(now, told, k).len() ==> 0 <= #[trigger] to_resize(now, told, k)[a]
                < k,
    decreases k,
{
    if k > 0 {
        law_changed_sizes_are_told(now, told, (k - 1) as nat, i);
        let before = to_resize(now, told, (k - 1) as nat);
        let after = to_resize(now, told, k);
        if told[k - 1] != Some(now[k - 1]) {
            assert(after == before.push(k - 1));
            assert(after[before.len() as int] == k - 1);
            if before.contains(i) {
                let a = choose|a: int| 0 <= a < before.len() && before[a] == i;
                assert(after[a] == i);
            }
            if after.contains(i) {
                let a = choose|a: int| 0 <= a < after.len() && after[a] == i;
                if a < before.len() {
                    assert(before[a] == i);
                }
            }
        }
    }
}

/// The panes on show are those placed whose session the layout knows, each with its own.
pub proof fn law_placed_panes_are_shown(root: LayoutNode, placed: Seq<PaneId>, p: PaneId, s: Seq<char>)
    ensures
        root.spec_session_of(p) == Some(s) ==> shown(root, placed.push(p)) == shown(
            root,
            placed,
        ).push((placed.len() as int, s)),
        root.spec_session_of(p) is None ==> shown(root, placed.push(p)) == shown(root, placed),
        shown(root, Seq::empty()).len() == 0,
{
    assert(placed.push(p).drop_last() =~= placed);
}

/// What closing would interrupt: the focused session of a pane, any of a tab, any of a window,
/// anything at all for the program.
#[verifier::rlimit(40)]
pub proof fn law_closing_interrupts_what_runs(tree: WindowTree, busy: Seq<Seq<char>>, s: Seq<char>, i: int)
    ensures
        focused_session(tree) == Some(s) ==> (hits_running(tree, PendingClose::Pane, busy)
            <==> busy.contains(s)),
        focused_session(tree) is None ==> !hits_running(tree, PendingClose::Pane, busy),
        hits_running(tree, PendingClose::Quit, busy) <==> busy.len() > 0,
        sessions_of(tree.tabs@).contains(s) && busy.contains(s) ==> hits_running(
            tree,
            PendingClose::CloseWindow,
            busy,
        ),
        0 <= i < tree.tabs@.len() && tree.spec_tab_ids().no_duplicates()
            && tree.tabs@[i].root.spec_sessions().contains(s) && busy.contains(s) ==> hits_running(
            tree,
            PendingClose::Tab(tree.tabs@[i].id),
            busy,
        ),
        busy.len() == 0 ==> !hits_running(tree, PendingClose::CloseWindow, busy),
{
    let all = sessions_of(tree.tabs@);
    if all.contains(s) && busy.contains(s) {
        let k = choose|k: int| 0 <= k < all.len() && all[k] == s;
        assert(busy.contains(all[k]));
    }
    if 0 <= i < tree.tabs@.len() && tree.spec_tab_ids().no_duplicates() {
        let ids = tree.spec_tab_ids();
        crate::layout::lemma_first_index(ids, ids[i]);
        assert(ids.contains(ids[i]));
        let own = tree.tabs@[i].root.spec_sessions();
        if own.contains(s) && busy.contains(s) {
            let k = choose|k: int| 0 <= k < own.len() && own[k] == s;
            assert(busy.contains(own[k]));
        }
    }
}

/// Closing a pane removes the focused one of the tab on show, closing a tab that tab, the rest
/// everything. The window goes with everything, or with its last tab.
pub proof fn law_closing_removes_what_it_names(tree: WindowTree, id: TabId, kind: PendingClose, r: Removal, t: &mut WindowTree, removed: Removal, user: Option<TabId>, gone: bool)
    ensures
        call_ensures(do_close, (&tree, kind), r) ==> {
            &&& kind is Pane ==> r == Removal::Pane(tree.tabs@[tree.active as int].focus)
            &&& kind == PendingClose::Tab(id) ==> r == Removal::Tab(id)
            &&& kind is Quit || kind is CloseWindow ==> r is Everything
        },
        call_ensures(after_removal, (t, removed, user), gone) ==> {
            &&& gone <==> removed is Everything || old(t).tabs@.len() == 0
            &&& final(t).tabs == old(t).tabs
            &&& removed !is Tab ==> final(t).active == old(t).active
        },
{
}

/// After a tab has gone the one that the user was in stays on show; one past the end gives way to
/// the last.
pub proof fn law_the_users_tab_stays(ids: Seq<TabId>, active: int, at: int)
    requires
        0 <= at < ids.len(),
        ids.no_duplicates(),
        0 <= active,
    ensures
        restored(ids, active, Some(ids[at])) == at,
        active < ids.len() ==> restored(ids, active, None) == active,
        active >= ids.len() ==> restored(ids, active, None) == ids.len() - 1,
{
    crate::layout::lemma_first_index(ids, ids[at]);
    assert(ids.contains(ids[at]));
}

/// Numbers are given out once: what is taken next is greater than what was taken.
pub proof fn law_numbers_are_given_out_once(ids: &mut NextIds, tab: (TabId, PaneId, SessionId), accepted: bool, spawned: bool, step: SplitStep)
    requires
        old(ids).has_room(),
    ensures
        call_ensures(NextIds::take_tab, (ids,), tab) ==> {
            let (t, p, s) = tab;
            &&& t == TabId(old(ids).tab) && p == PaneId(old(ids).pane)
            &&& s@ == session_name(old(ids).session as nat)
            &&& final(ids).tab == old(ids).tab + 1 && final(ids).pane == old(ids).pane + 1
            &&& final(ids).session == old(ids).session + 1
        },
        call_ensures(NextIds::take_split, (ids,), ()) ==> final(ids).pane == old(ids).pane + 1
            && final(ids).session == old(ids).session + 1 && final(ids).tab == old(ids).tab,
        call_ensures(NextIds::take_move, (ids,), ()) ==> final(ids).tab == old(ids).tab + 1 && final(ids).pane == old(ids).pane && final(ids).session == old(ids).session,
        call_ensures(finish_split, (ids, accepted, spawned), step) ==> {
            &&& step is Refused <==> !accepted
            &&& step is Done <==> accepted && spawned
            &&& accepted && !spawned ==> step == SplitStep::RollBack(PaneId(old(ids).pane))
            &&& accepted ==> final(ids).pane == old(ids).pane + 1 && final(ids).session == old(ids).session + 1 && final(ids).tab == old(ids).tab
            &&& !accepted ==> *final(ids) == *old(ids)
        },
{
}

/// The first split of a window asks for what was promised, and a window of one pane shows just
/// that.
pub proof fn law_first_numbers(ids: NextIds, split: (PaneId, SessionId), id: TabId, pane: PaneId, session: SessionId, tree: WindowTree)
    ensures
        call_ensures(NextIds::new, (), ids) ==> ids.pane == 2 && ids.session == 2 && ids.tab == 2,
        call_ensures(NextIds::for_split, (&ids,), split) ==> {
            let (p, s) = split;
            p == PaneId(ids.pane) && s@ == seq!['s'] + decimal(ids.session as nat)
        },
        call_ensures(single_pane_tree, (id, pane, session), tree) ==> tree.active == 0
            && tree.tabs@.len() == 1 && tree.tabs@[0].id == id && tree.tabs@[0].focus == pane
            && tree.tabs@[0].root == (LayoutNode::Pane { pane, session })
            && tree.tabs@[0].title@.len() == 0,
{
    reveal_strlit("s");
    assert("s"@ =~= seq!['s']);
}

/// A window that is moved to gets the next number of a tab.
pub proof fn law_moves_take_the_next_tab(ids: NextIds, r: TabId)
    requires
        call_ensures(NextIds::for_move, (&ids,), r),
    ensures
        r == TabId(ids.tab),
{
}

/// The labels of the strip are what is shown of the tabs.
pub proof fn law_labels_are_shown(tree: WindowTree, hidden: Option<TabId>, rename: Rename, belled: &[TabId], r: Vec<StripLabel>, i: int)
    requires
        call_ensures(strip_labels, (&tree, hidden, &rename, belled), r),
        0 <= i < r@.len(),
    ensures
        ({
            let all = labels_of(tree, tree.tabs@.len(), hidden, rename, belled@);
            &&& all.len() == r@.len()
            &&& r@[i].title@ == all[i].title && r@[i].active == all[i].active
            &&& r@[i].editing == all[i].editing && r@[i].bell == all[i].bell
        }),
{
    assert(labels_view(r@)[i] == r@[i]@);
}

} // verus!
