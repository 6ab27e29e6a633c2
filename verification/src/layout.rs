//! Tabs, splits and panes of one window.

use vstd::prelude::*;
use crate::text::same;

verus! {

broadcast use vstd::seq_lib::group_seq_properties;

#[derive(Clone, Copy, Debug, PartialEq, Eq, Structural)]
pub struct PaneId(pub u64);

#[derive(Clone, Copy, Debug, PartialEq, Eq, Structural)]
pub struct TabId(pub u64);

/// Identity of an OS window.
#[derive(Clone, Copy, Debug, PartialEq, Eq, Structural)]
pub struct WindowId(pub u64);

/// Identity of the shell behind a pane.
#[derive(Debug, PartialEq, Eq)]
pub struct SessionId(pub String);

impl SessionId {
    pub fn new(name: &str) -> (r: SessionId)
        ensures
            r@ == name@,
    {
        SessionId(name.to_owned())
    }

    pub open spec fn view(&self) -> Seq<char> {
        self.0@
    }

    /// Another handle on the same session.
    pub fn copy(&self) -> (r: SessionId)
        ensures
            r == *self,
    {
        SessionId(self.0.clone())
    }

    pub fn is(&self, other: &SessionId) -> (r: bool)
        ensures
            r == (self@ == other@),
    {
        same(self.0.as_str(), other.0.as_str())
    }
}

#[derive(Clone, Copy, Debug, PartialEq, Eq, Structural)]
pub enum Axis {
    Horizontal,
    Vertical,
}

/// One tab's split tree. `ratio_bits` is the share of `a`, as the bits of an IEEE 754 single.
#[derive(Debug, PartialEq, Eq)]
pub enum LayoutNode {
    Pane { pane: PaneId, session: SessionId },
    Split { axis: Axis, ratio_bits: u32, a: Box<LayoutNode>, b: Box<LayoutNode> },
}

#[derive(Debug, PartialEq, Eq)]
pub struct Tab {
    pub id: TabId,
    pub title: String,
    pub focus: PaneId,
    pub root: LayoutNode,
}

#[derive(Debug, PartialEq, Eq)]
pub struct WindowTree {
    pub tabs: Vec<Tab>,
    pub active: usize,
}

impl LayoutNode {
    pub fn pane(pane: PaneId, session: SessionId) -> (r: LayoutNode)
        ensures
            r == (LayoutNode::Pane { pane, session }),
    {
        LayoutNode::Pane { pane, session }
    }

    pub fn split(axis: Axis, ratio_bits: u32, a: LayoutNode, b: LayoutNode) -> (r: LayoutNode)
        ensures
            r == (LayoutNode::Split { axis, ratio_bits, a: Box::new(a), b: Box::new(b) }),
    {
        LayoutNode::Split { axis, ratio_bits, a: Box::new(a), b: Box::new(b) }
    }

    /// The panes of the tree with their sessions, `a` before `b`.
    pub open spec fn spec_panes(self) -> Seq<(PaneId, Seq<char>)>
        decreases self,
    {
        match self {
            LayoutNode::Pane { pane, session } => seq![(pane, session@)],
            LayoutNode::Split { a, b, .. } => a.spec_panes() + b.spec_panes(),
        }
    }

    /// The panes of the tree, `a` before `b`.
    pub open spec fn spec_pane_ids(self) -> Seq<PaneId> {
        self.spec_panes().map_values(|p: (PaneId, Seq<char>)| p.0)
    }

    /// The first pane whose id is `pane`, as an index into the panes of the tree.
    pub open spec fn spec_index_of(self, pane: PaneId) -> Option<int> {
        first_index(self.spec_pane_ids(), pane)
    }

    /// The session of the first pane with that id.
    pub open spec fn spec_session_of(self, pane: PaneId) -> Option<Seq<char>> {
        match self.spec_index_of(pane) {
            Some(i) => Some(self.spec_panes()[i].1),
            None => None,
        }
    }

    /// The sessions of the tree, `a` before `b`.
    pub open spec fn spec_sessions(self) -> Seq<Seq<char>> {
        self.spec_panes().map_values(|p: (PaneId, Seq<char>)| p.1)
    }

    /// The first pane that shows that session.
    pub open spec fn spec_pane_of(self, session: Seq<char>) -> Option<PaneId> {
        match first_index(self.spec_sessions(), session) {
            Some(i) => Some(self.spec_panes()[i].0),
            None => None,
        }
    }

    fn push_pane_ids(&self, out: &mut Vec<PaneId>)
        ensures
            final(out)@ == old(out)@ + self.spec_pane_ids(),
        decreases self,
    {
        match self {
            LayoutNode::Pane { pane, .. } => {
                out.push(*pane);
            },
            LayoutNode::Split { a, b, .. } => {
                a.push_pane_ids(out);
                b.push_pane_ids(out);
            },
        }
        assert(out@ == old(out)@ + self.spec_pane_ids());
    }

    /// The panes of the tree, `a` before `b`.
    pub fn pane_ids(&self) -> (r: Vec<PaneId>)
        ensures
            r@ == self.spec_pane_ids(),
    {
        let mut out: Vec<PaneId> = Vec::new();
        self.push_pane_ids(&mut out);
        out
    }

    fn push_panes(&self, out: &mut Vec<(PaneId, SessionId)>)
        ensures
            panes_view(final(out)@) == panes_view(old(out)@) + self.spec_panes(),
        decreases self,
    {
        let ghost before = out@;
        match self {
            LayoutNode::Pane { pane, session } => {
                out.push((*pane, session.copy()));
            },
            LayoutNode::Split { a, b, .. } => {
                a.push_panes(out);
                b.push_panes(out);
            },
        }
        assert(panes_view(out@) == panes_view(before) + self.spec_panes());
    }

    /// The panes of the tree with their sessions, `a` before `b`.
    pub fn leaves(&self) -> (r: Vec<(PaneId, SessionId)>)
        ensures
            panes_view(r@) == self.spec_panes(),
    {
        let mut out: Vec<(PaneId, SessionId)> = Vec::new();
        self.push_panes(&mut out);
        out
    }

    /// The session of the first pane.
    pub fn first_session(&self) -> (r: SessionId)
        ensures
            self.spec_sessions().len() > 0,
            r@ == self.spec_sessions()[0],
        decreases self,
    {
        match self {
            LayoutNode::Pane { session, .. } => session.copy(),
            LayoutNode::Split { a, b, .. } => {
                let r = a.first_session();
                assert(self.spec_panes()[0] == a.spec_panes()[0]);
                r
            },
        }
    }

    /// The same tree once more.
    pub fn copy(&self) -> (r: LayoutNode)
        ensures
            r == *self,
        decreases self,
    {
        match self {
            LayoutNode::Pane { pane, session } => LayoutNode::Pane {
                pane: *pane,
                session: session.copy(),
            },
            LayoutNode::Split { axis, ratio_bits, a, b } => LayoutNode::Split {
                axis: *axis,
                ratio_bits: *ratio_bits,
                a: Box::new(a.copy()),
                b: Box::new(b.copy()),
            },
        }
    }

    /// The session shown in `pane`, if the tree holds that pane.
    pub fn session_of(&self, pane: PaneId) -> (r: Option<&SessionId>)
        ensures
            match r {
                Some(s) => self.spec_session_of(pane) == Some(s@),
                None => self.spec_session_of(pane) is None,
            },
        decreases self,
    {
        match self {
            LayoutNode::Pane { pane: here, session } => {
                proof {
                    assert(self.spec_pane_ids() == seq![*here]);
                    reveal_with_fuel(first_index, 2);
                }
                if *here == pane {
                    Some(session)
                } else {
                    None
                }
            },
            LayoutNode::Split { a, b, .. } => {
                proof {
                    assert(self.spec_pane_ids() == a.spec_pane_ids() + b.spec_pane_ids());
                    lemma_first_index_concat(a.spec_pane_ids(), b.spec_pane_ids(), pane);
                    lemma_first_index(a.spec_pane_ids(), pane);
                    lemma_first_index(b.spec_pane_ids(), pane);
                }
                match a.session_of(pane) {
                    Some(s) => Some(s),
                    None => b.session_of(pane),
                }
            },
        }
    }
}

impl LayoutNode {
    /// The pane that shows `session`, if the tree holds that session.
    pub fn pane_of(&self, session: &SessionId) -> (r: Option<PaneId>)
        ensures
            r == self.spec_pane_of(session@),
        decreases self,
    {
        match self {
            LayoutNode::Pane { pane, session: here } => {
                proof {
                    assert(self.spec_sessions() == seq![here@]);
                    reveal_with_fuel(first_index, 2);
                }
                if here.is(session) {
                    Some(*pane)
                } else {
                    None
                }
            },
            LayoutNode::Split { a, b, .. } => {
                proof {
                    assert(self.spec_sessions() == a.spec_sessions() + b.spec_sessions());
                    lemma_first_index_concat(a.spec_sessions(), b.spec_sessions(), session@);
                    lemma_first_index(a.spec_sessions(), session@);
                    lemma_first_index(b.spec_sessions(), session@);
                }
                match a.pane_of(session) {
                    Some(p) => Some(p),
                    None => b.pane_of(session),
                }
            },
        }
    }
}

impl Tab {
    /// The same tab once more.
    pub fn copy(&self) -> (r: Tab)
        ensures
            r == *self,
    {
        Tab {
            id: self.id,
            title: self.title.clone(),
            focus: self.focus,
            root: self.root.copy(),
        }
    }
}

impl WindowTree {
    /// The same tabs once more.
    pub fn copy(&self) -> (r: WindowTree)
        ensures
            r.tabs@ == self.tabs@,
            r.active == self.active,
    {
        let mut tabs: Vec<Tab> = Vec::new();
        let mut i: usize = 0;
        while i < self.tabs.len()
            invariant
                i <= self.tabs@.len(),
                tabs@ == self.tabs@.take(i as int),
            decreases self.tabs@.len() - i,
        {
            tabs.push(self.tabs[i].copy());
            i += 1;
            assert(self.tabs@.take(i as int) =~= self.tabs@.take(i - 1).push(self.tabs@[i - 1]));
        }
        assert(self.tabs@.take(i as int) =~= self.tabs@);
        WindowTree { tabs, active: self.active }
    }

    /// The ids of the tabs, from the left.
    pub open spec fn spec_tab_ids(self) -> Seq<TabId> {
        self.tabs@.map_values(|t: Tab| t.id)
    }

    /// The place of the tab with that id, from the left.
    pub fn tab_index(&self, id: TabId) -> (r: Option<usize>)
        ensures
            match r {
                Some(i) => first_index(self.spec_tab_ids(), id) == Some(i as int) && i
                    < self.tabs@.len(),
                None => first_index(self.spec_tab_ids(), id) is None,
            },
    {
        proof {
            lemma_first_index(self.spec_tab_ids(), id);
        }
        let mut i: usize = 0;
        while i < self.tabs.len()
            invariant
                i <= self.tabs@.len(),
                forall|j: int| 0 <= j < i ==> self.spec_tab_ids()[j] != id,
            decreases self.tabs@.len() - i,
        {
            if self.tabs[i].id == id {
                proof {
                    lemma_first_index_is(self.spec_tab_ids(), id, i as int);
                }
                return Some(i);
            }
            i += 1;
        }
        assert(!self.spec_tab_ids().contains(id));
        None
    }
}

pub open spec fn panes_view(v: Seq<(PaneId, SessionId)>) -> Seq<(PaneId, Seq<char>)> {
    v.map_values(|p: (PaneId, SessionId)| (p.0, p.1@))
}

/// The first position of `x` in `s`.
pub open spec fn first_index<A>(s: Seq<A>, x: A) -> Option<int>
    decreases s.len(),
{
    if s.len() == 0 {
        None
    } else if s[0] == x {
        Some(0)
    } else {
        match first_index(s.skip(1), x) {
            Some(i) => Some(i + 1),
            None => None,
        }
    }
}

pub proof fn lemma_first_index<A>(s: Seq<A>, x: A)
    ensures
        match first_index(s, x) {
            Some(i) => 0 <= i < s.len() && s[i] == x && forall|j: int| 0 <= j < i ==> s[j] != x,
            None => !s.contains(x),
        },
    decreases s.len(),
{
    if s.len() > 0 && s[0] != x {
        lemma_first_index(s.skip(1), x);
        match first_index(s.skip(1), x) {
            Some(i) => {
                assert forall|j: int| 0 <= j < i + 1 implies s[j] != x by {
                    if j > 0 {
                        assert(s.skip(1)[j - 1] == s[j]);
                    }
                }
            },
            None => {
                assert forall|j: int| 0 <= j < s.len() implies s[j] != x by {
                    if j > 0 {
                        assert(s.skip(1)[j - 1] == s[j]);
                        assert(s.skip(1).contains(s[j]));
                    }
                }
            },
        }
    }
}

/// A position that holds `x` and before which nothing does is the first.
pub proof fn lemma_first_index_is<A>(s: Seq<A>, x: A, i: int)
    requires
        0 <= i < s.len(),
        s[i] == x,
        forall|j: int| 0 <= j < i ==> s[j] != x,
    ensures
        first_index(s, x) == Some(i),
{
    lemma_first_index(s, x);
    assert(s.contains(s[i]));
}

proof fn lemma_first_index_concat<A>(a: Seq<A>, b: Seq<A>, x: A)
    ensures
        first_index(a + b, x) == (match first_index(a, x) {
            Some(i) => Some(i),
            None => match first_index(b, x) {
                Some(i) => Some(i + a.len()),
                None => None,
            },
        }),
    decreases a.len(),
{
    if a.len() == 0 {
        assert(a + b == b);
    } else {
        assert((a + b).skip(1) == a.skip(1) + b);
        lemma_first_index_concat(a.skip(1), b, x);
    }
}

// ---- panes and sessions ----------------------------------------------------

/// A layout lists its panes from the first half to the second, whatever its axis; a lone pane
/// lists itself with its session.
pub proof fn law_layouts_list_their_panes(axis: Axis, bits: u32, a: LayoutNode, b: LayoutNode, pane: PaneId, session: SessionId)
    ensures
        (LayoutNode::Pane { pane, session }).spec_panes() == seq![(pane, session@)],
        (LayoutNode::Split { axis, ratio_bits: bits, a: Box::new(a), b: Box::new(b) }).spec_panes()
            == a.spec_panes() + b.spec_panes(),
        (LayoutNode::Pane { pane, session }).spec_session_of(pane) == Some(session@),
        (LayoutNode::Pane { pane, session }).spec_pane_of(session@) == Some(pane),
{
    let node = LayoutNode::Pane { pane, session };
    assert(node.spec_pane_ids()[0] == pane);
    assert(node.spec_sessions()[0] == session@);
}

/// Each pane is found with its own session, and each session in its own pane.
pub proof fn law_panes_and_sessions_find_each_other(node: LayoutNode, i: int, other: PaneId, s: Seq<char>)
    requires
        0 <= i < node.spec_panes().len(),
    ensures
        node.spec_pane_ids().no_duplicates() ==> node.spec_session_of(node.spec_panes()[i].0)
            == Some(node.spec_panes()[i].1),
        node.spec_sessions().no_duplicates() ==> node.spec_pane_of(node.spec_panes()[i].1) == Some(
            node.spec_panes()[i].0,
        ),
        !node.spec_pane_ids().contains(other) ==> node.spec_session_of(other) is None,
        !node.spec_sessions().contains(s) ==> node.spec_pane_of(s) is None,
        node.spec_pane_ids().len() == node.spec_panes().len(),
        node.spec_sessions().len() == node.spec_panes().len(),
{
    let (ids, names) = (node.spec_pane_ids(), node.spec_sessions());
    lemma_first_index(ids, ids[i]);
    lemma_first_index(names, names[i]);
    assert(ids.contains(ids[i]) && names.contains(names[i]));
    lemma_first_index(ids, other);
    lemma_first_index(names, s);
    if let Some(k) = first_index(ids, other) {
        assert(ids.contains(ids[k]));
    }
    if let Some(k) = first_index(names, s) {
        assert(names.contains(names[k]));
    }
}

/// What is built holds what it was built from, and what is copied is the same.
pub proof fn law_layouts_hold_what_they_are_built_from(pane: PaneId, session: SessionId, axis: Axis, bits: u32, a: LayoutNode, b: LayoutNode, r: LayoutNode, same: bool, other: SessionId)
    ensures
        call_ensures(LayoutNode::pane, (pane, session), r) ==> r == (LayoutNode::Pane {
            pane,
            session,
        }),
        call_ensures(LayoutNode::split, (axis, bits, a, b), r) ==> (r matches LayoutNode::Split {
            axis: x,
            ratio_bits,
            a: p,
            b: q,
        } && x == axis && ratio_bits == bits && *p == a && *q == b),
        call_ensures(LayoutNode::copy, (&a,), r) ==> r == a,
        call_ensures(SessionId::is, (&session, &other), same) ==> (same <==> session@ == other@),
{
}

/// The tabs of a window are listed in order.
pub proof fn law_tabs_are_listed_in_order(tree: WindowTree, i: int)
    requires
        0 <= i < tree.tabs@.len(),
    ensures
        tree.spec_tab_ids().len() == tree.tabs@.len(),
        tree.spec_tab_ids()[i] == tree.tabs@[i].id,
{
}

} // verus!
