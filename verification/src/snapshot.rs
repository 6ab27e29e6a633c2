//! The session snapshot: what is saved of the windows, and how a tab is rebuilt from it.

use vstd::prelude::*;
use crate::json;
use crate::json::{json_parsed, json_view, member_of, JsonView};
use crate::layout::{Axis, LayoutNode, SessionId, Tab, WindowTree};
use crate::text::{decimal, from_chars, to_chars, to_decimal};

verus! {

broadcast use vstd::seq_lib::group_seq_properties;

/// Everything that is saved, with a version of the format.
#[derive(Debug, PartialEq, Eq)]
pub struct SessionSnapshot {
    pub version: u32,
    pub saved_at: String,
    pub windows: Vec<WindowSnap>,
}

#[derive(Debug, PartialEq, Eq)]
pub struct WindowSnap {
    pub pos: Option<(i32, i32)>,
    pub size: (u32, u32),
    pub focused_tab: usize,
    pub tabs: Vec<TabSnap>,
}

#[derive(Debug, PartialEq, Eq)]
pub struct TabSnap {
    pub name: String,
    pub named_by_user: bool,
    pub splits: NodeSnap,
}

/// A split tree. `ratio_bits` holds the bits of an IEEE 754 single.
#[derive(Debug, PartialEq, Eq)]
pub enum NodeSnap {
    Pane(PaneSnap),
    Split { dir: char, ratio_bits: u32, a: Box<NodeSnap>, b: Box<NodeSnap> },
}

#[derive(Debug, PartialEq, Eq)]
pub struct PaneSnap {
    pub cwd: Option<String>,
    pub last_cmd: Option<String>,
    pub was_running: bool,
}

fn copy_text(s: &Option<String>) -> (r: Option<String>)
    ensures
        r == *s,
{
    match s {
        Some(t) => Some(t.clone()),
        None => None,
    }
}

impl PaneSnap {
    pub fn copy(&self) -> (r: PaneSnap)
        ensures
            r == *self,
    {
        PaneSnap {
            cwd: copy_text(&self.cwd),
            last_cmd: copy_text(&self.last_cmd),
            was_running: self.was_running,
        }
    }
}

// ---- rebuilding a tab ------------------------------------------------------

/// One split: the pane at index `.0` is split in direction `.1` with ratio bits `.2`, and the
/// new pane holds `.3`.
pub type SplitOp = (usize, char, u32, PaneSnap);

impl NodeSnap {
    /// The pane reached by following `a`.
    pub open spec fn spec_leftmost(self) -> PaneSnap
        decreases self,
    {
        match self {
            NodeSnap::Pane(p) => p,
            NodeSnap::Split { a, .. } => a.spec_leftmost(),
        }
    }

    /// How many splits the tree holds.
    pub open spec fn splits(self) -> nat
        decreases self,
    {
        match self {
            NodeSnap::Pane(_) => 0,
            NodeSnap::Split { a, b, .. } => 1 + a.splits() + b.splits(),
        }
    }

    /// The splits that grow the pane at index `at` into this tree, new panes being numbered
    /// from `next` on.
    pub open spec fn spec_ops(self, at: nat, next: nat) -> Seq<SplitOp>
        decreases self,
    {
        match self {
            NodeSnap::Pane(_) => Seq::empty(),
            NodeSnap::Split { dir, ratio_bits, a, b } => seq![
                (at as usize, dir, ratio_bits, b.spec_leftmost()),
            ] + a.spec_ops(at, next + 1) + b.spec_ops(next, next + 1 + a.splits()),
        }
    }

    fn leftmost_pane(&self) -> (r: PaneSnap)
        ensures
            r == self.spec_leftmost(),
        decreases self,
    {
        match self {
            NodeSnap::Pane(p) => p.copy(),
            NodeSnap::Split { a, .. } => a.leftmost_pane(),
        }
    }

    fn walk_split_ops(&self, at: usize, next_index: &mut usize, ops: &mut Vec<SplitOp>) -> (r:
        PaneSnap)
        requires
            *old(next_index) + self.splits() <= usize::MAX,
        ensures
            r == self.spec_leftmost(),
            *final(next_index) == *old(next_index) + self.splits(),
            final(ops)@ == old(ops)@ + self.spec_ops(at as nat, *old(next_index) as nat),
        decreases self,
    {
        match self {
            NodeSnap::Pane(p) => p.copy(),
            NodeSnap::Split { dir, ratio_bits, a, b } => {
                let new_index: usize = *next_index;
                *next_index = *next_index + 1;
                ops.push((at, *dir, *ratio_bits, b.leftmost_pane()));
                let first = a.walk_split_ops(at, next_index, ops);
                let _second = b.walk_split_ops(new_index, next_index, ops);
                assert(ops@ == old(ops)@ + self.spec_ops(at as nat, *old(next_index) as nat));
                first
            },
        }
    }
}

/// The content of the tab's first pane, and the splits that rebuild the rest of the tree.
///
/// The first pane has index 0 and every split makes the pane with the next index. A split
/// leaves the pane it is applied to on side `a`.
pub fn split_ops(root: &NodeSnap) -> (r: (PaneSnap, Vec<SplitOp>))
    requires
        root.splits() < usize::MAX,
    ensures
        r.0 == root.spec_leftmost(),
        r.1@ == root.spec_ops(0, 1),
{
    let mut ops: Vec<SplitOp> = Vec::new();
    let mut next_index: usize = 1;
    let first = root.walk_split_ops(0, &mut next_index, &mut ops);
    (first, ops)
}

/// A split tree whose leaves are the indices of panes in the order of their creation.
pub enum IndexTree {
    Leaf(nat),
    Split { dir: char, ratio_bits: u32, a: Box<IndexTree>, b: Box<IndexTree> },
}

impl IndexTree {
    /// The tree with every leaf `i` replaced by `t`.
    pub open spec fn replace(self, i: nat, t: IndexTree) -> IndexTree
        decreases self,
    {
        match self {
            IndexTree::Leaf(j) => if j == i { t } else { self },
            IndexTree::Split { dir, ratio_bits, a, b } => IndexTree::Split {
                dir,
                ratio_bits,
                a: Box::new(a.replace(i, t)),
                b: Box::new(b.replace(i, t)),
            },
        }
    }

    /// Whether every leaf is below `n`.
    pub open spec fn below(self, n: nat) -> bool
        decreases self,
    {
        match self {
            IndexTree::Leaf(j) => j < n,
            IndexTree::Split { a, b, .. } => a.below(n) && b.below(n),
        }
    }

    pub open spec fn has(self, i: nat) -> bool
        decreases self,
    {
        match self {
            IndexTree::Leaf(j) => j == i,
            IndexTree::Split { a, b, .. } => a.has(i) || b.has(i),
        }
    }

    /// The tree with the content of each pane in place of its index.
    pub open spec fn filled(self, panes: Seq<PaneSnap>) -> NodeSnap
        decreases self,
    {
        match self {
            IndexTree::Leaf(j) => NodeSnap::Pane(panes[j as int]),
            IndexTree::Split { dir, ratio_bits, a, b } => NodeSnap::Split {
                dir,
                ratio_bits,
                a: Box::new(a.filled(panes)),
                b: Box::new(b.filled(panes)),
            },
        }
    }
}

/// A tab under reconstruction: its tree, and the content of the panes made so far.
pub struct Rebuild {
    pub tree: IndexTree,
    pub panes: Seq<PaneSnap>,
}

impl Rebuild {
    /// A tab with its first pane only.
    pub open spec fn seed(first: PaneSnap) -> Rebuild {
        Rebuild { tree: IndexTree::Leaf(0), panes: seq![first] }
    }

    /// Splits one pane: it stays on side `a`, a new pane is on side `b`.
    pub open spec fn step(self, op: SplitOp) -> Rebuild {
        Rebuild {
            tree: self.tree.replace(
                op.0 as nat,
                IndexTree::Split {
                    dir: op.1,
                    ratio_bits: op.2,
                    a: Box::new(IndexTree::Leaf(op.0 as nat)),
                    b: Box::new(IndexTree::Leaf(self.panes.len())),
                },
            ),
            panes: self.panes.push(op.3),
        }
    }

    pub open spec fn replay(self, ops: Seq<SplitOp>) -> Rebuild
        decreases ops.len(),
    {
        if ops.len() == 0 {
            self
        } else {
            self.step(ops[0]).replay(ops.skip(1))
        }
    }
}

proof fn lemma_replay_concat(s: Rebuild, x: Seq<SplitOp>, y: Seq<SplitOp>)
    ensures
        s.replay(x + y) == s.replay(x).replay(y),
    decreases x.len(),
{
    if x.len() == 0 {
        assert(x + y == y);
    } else {
        assert((x + y).skip(1) == x.skip(1) + y);
        lemma_replay_concat(s.step(x[0]), x.skip(1), y);
    }
}

/// The tree with the indices that its panes get.
spec fn labelled(node: NodeSnap, at: nat, next: nat) -> IndexTree
    decreases node,
{
    match node {
        NodeSnap::Pane(_) => IndexTree::Leaf(at),
        NodeSnap::Split { dir, ratio_bits, a, b } => IndexTree::Split {
            dir,
            ratio_bits,
            a: Box::new(labelled(*a, at, next + 1)),
            b: Box::new(labelled(*b, next, next + 1 + a.splits())),
        },
    }
}

spec fn op_panes(ops: Seq<SplitOp>) -> Seq<PaneSnap> {
    ops.map_values(|op: SplitOp| op.3)
}

proof fn lemma_ops_len(node: NodeSnap, at: nat, next: nat)
    ensures
        node.spec_ops(at, next).len() == node.splits(),
    decreases node,
{
    match node {
        NodeSnap::Pane(_) => {},
        NodeSnap::Split { a, b, .. } => {
            lemma_ops_len(*a, at, next + 1);
            lemma_ops_len(*b, next, next + 1 + a.splits());
        },
    }
}

proof fn lemma_labelled_leaves(node: NodeSnap, at: nat, next: nat, i: nat)
    ensures
        labelled(node, at, next).has(i) ==> i == at || next <= i < next + node.splits(),
        at < next + node.splits() ==> labelled(node, at, next).below(next + node.splits()),
    decreases node,
{
    match node {
        NodeSnap::Pane(_) => {},
        NodeSnap::Split { a, b, .. } => {
            lemma_labelled_leaves(*a, at, next + 1, i);
            lemma_labelled_leaves(*b, next, next + 1 + a.splits(), i);
            if at < next + node.splits() {
                lemma_labelled_bound(*a, at, next + 1, next + node.splits());
                lemma_labelled_bound(*b, next, next + 1 + a.splits(), next + node.splits());
            }
        },
    }
}

proof fn lemma_labelled_bound(node: NodeSnap, at: nat, next: nat, n: nat)
    requires
        at < n,
        next + node.splits() <= n,
    ensures
        labelled(node, at, next).below(n),
    decreases node,
{
    match node {
        NodeSnap::Pane(_) => {},
        NodeSnap::Split { a, b, .. } => {
            lemma_labelled_bound(*a, at, next + 1, n);
            lemma_labelled_bound(*b, next, next + 1 + a.splits(), n);
        },
    }
}

proof fn lemma_replace_absent(t: IndexTree, i: nat, u: IndexTree)
    requires
        !t.has(i),
    ensures
        t.replace(i, u) == t,
    decreases t,
{
    match t {
        IndexTree::Leaf(_) => {},
        IndexTree::Split { a, b, .. } => {
            lemma_replace_absent(*a, i, u);
            lemma_replace_absent(*b, i, u);
        },
    }
}

proof fn lemma_below_has(t: IndexTree, n: nat, i: nat)
    requires
        t.below(n),
        i >= n,
    ensures
        !t.has(i),
    decreases t,
{
    match t {
        IndexTree::Leaf(_) => {},
        IndexTree::Split { a, b, .. } => {
            lemma_below_has(*a, n, i);
            lemma_below_has(*b, n, i);
        },
    }
}

proof fn lemma_replace_below(t: IndexTree, i: nat, u: IndexTree, n: nat, m: nat)
    requires
        t.below(n),
        u.below(m),
        n <= m,
    ensures
        t.replace(i, u).below(m),
    decreases t,
{
    match t {
        IndexTree::Leaf(_) => {},
        IndexTree::Split { a, b, .. } => {
            lemma_replace_below(*a, i, u, n, m);
            lemma_replace_below(*b, i, u, n, m);
        },
    }
}

/// Splitting `at` and then growing both halves is growing `at` into the split of both.
proof fn lemma_replace_thrice(
    t: IndexTree,
    at: nat,
    next: nat,
    dir: char,
    ratio_bits: u32,
    la: IndexTree,
    lb: IndexTree,
)
    requires
        t.below(next),
        at < next,
        !la.has(next),
    ensures
        t.replace(
            at,
            IndexTree::Split {
                dir,
                ratio_bits,
                a: Box::new(IndexTree::Leaf(at)),
                b: Box::new(IndexTree::Leaf(next)),
            },
        ).replace(at, la).replace(next, lb) == t.replace(
            at,
            IndexTree::Split { dir, ratio_bits, a: Box::new(la), b: Box::new(lb) },
        ),
    decreases t,
{
    match t {
        IndexTree::Leaf(j) => {
            lemma_replace_absent(la, next, lb);
            reveal_with_fuel(IndexTree::replace, 3);
        },
        IndexTree::Split { a, b, .. } => {
            lemma_replace_thrice(*a, at, next, dir, ratio_bits, la, lb);
            lemma_replace_thrice(*b, at, next, dir, ratio_bits, la, lb);
        },
    }
}

/// Replaying the splits of a tree grows the pane they start from into that tree.
proof fn lemma_replay_grows(s: Rebuild, node: NodeSnap, at: nat)
    requires
        at < s.panes.len(),
        s.tree.below(s.panes.len()),
        s.panes.len() + node.splits() <= usize::MAX,
    ensures
        ({
            let next = s.panes.len();
            let ops = node.spec_ops(at, next);
            &&& s.replay(ops).tree == s.tree.replace(at, labelled(node, at, next))
            &&& s.replay(ops).panes == s.panes + op_panes(ops)
        }),
    decreases node,
{
    let next = s.panes.len();
    let ops = node.spec_ops(at, next);
    match node {
        NodeSnap::Pane(_) => {
            lemma_replace_self(s.tree, at);
            assert(s.panes + op_panes(ops) == s.panes);
        },
        NodeSnap::Split { dir, ratio_bits, a, b } => {
            let op: SplitOp = (at as usize, dir, ratio_bits, b.spec_leftmost());
            let ops_a = a.spec_ops(at, next + 1);
            let ops_b = b.spec_ops(next, next + 1 + a.splits());
            assert(ops == seq![op] + (ops_a + ops_b));
            let s1 = s.step(op);
            assert(ops.skip(1) == ops_a + ops_b);
            assert(s.replay(ops) == s1.replay(ops_a + ops_b));
            lemma_replay_concat(s1, ops_a, ops_b);
            let pair = IndexTree::Split {
                dir,
                ratio_bits,
                a: Box::new(IndexTree::Leaf(at)),
                b: Box::new(IndexTree::Leaf(next)),
            };
            reveal_with_fuel(IndexTree::below, 3);
            lemma_replace_below(s.tree, at, pair, next, next + 1);
            lemma_replay_grows(s1, *a, at);
            let s2 = s1.replay(ops_a);
            let la = labelled(*a, at, next + 1);
            let lb = labelled(*b, next, next + 1 + a.splits());
            lemma_ops_len(*a, at, next + 1);
            lemma_labelled_bound(*a, at, next + 1, next + 1 + a.splits());
            lemma_replace_below(s1.tree, at, la, next + 1, next + 1 + a.splits());
            lemma_replay_grows(s2, *b, next);
            lemma_labelled_leaves(*a, at, next + 1, next);
            lemma_replace_thrice(s.tree, at, next, dir, ratio_bits, la, lb);
            assert(s.replay(ops).panes == s.panes + op_panes(ops));
        },
    }
}

proof fn lemma_replace_self(t: IndexTree, i: nat)
    ensures
        t.replace(i, IndexTree::Leaf(i)) == t,
    decreases t,
{
    match t {
        IndexTree::Leaf(_) => {},
        IndexTree::Split { a, b, .. } => {
            lemma_replace_self(*a, i);
            lemma_replace_self(*b, i);
        },
    }
}

/// Filling in the panes gives the tree back.
proof fn lemma_filled(node: NodeSnap, at: nat, next: nat, panes: Seq<PaneSnap>)
    requires
        at < panes.len(),
        next + node.splits() <= panes.len(),
        panes[at as int] == node.spec_leftmost(),
        panes.subrange(next as int, (next + node.splits()) as int) == op_panes(
            node.spec_ops(at, next),
        ),
    ensures
        labelled(node, at, next).filled(panes) == node,
    decreases node,
{
    match node {
        NodeSnap::Pane(_) => {},
        NodeSnap::Split { dir, ratio_bits, a, b } => {
            let op: SplitOp = (at as usize, dir, ratio_bits, b.spec_leftmost());
            let ops = node.spec_ops(at, next);
            let ops_a = a.spec_ops(at, next + 1);
            let ops_b = b.spec_ops(next, next + 1 + a.splits());
            let all = op_panes(ops);
            let part = panes.subrange(next as int, (next + node.splits()) as int);
            lemma_ops_len(*a, at, next + 1);
            lemma_ops_len(*b, next, next + 1 + a.splits());
            assert(ops == seq![op] + ops_a + ops_b);
            assert(all[0] == op.3);
            assert(part[0] == panes[next as int]);
            let mid = (1 + a.splits()) as int;
            let na = (next + 1) as int;
            let nb = (next + 1 + a.splits()) as int;
            let end = (next + node.splits()) as int;
            assert(panes.subrange(na, nb) == part.subrange(1, mid));
            assert(all.subrange(1, mid) == op_panes(ops_a));
            assert(panes.subrange(nb, end) == part.subrange(mid, node.splits() as int));
            assert(all.subrange(mid, node.splits() as int) == op_panes(ops_b));
            lemma_filled(*a, at, next + 1, panes);
            lemma_filled(*b, next, next + 1 + a.splits(), panes);
        },
    }
}

/// Starting from a tab with its first pane and replaying the splits in order rebuilds the tree:
/// the same shape, directions and ratios, and every pane's content in its place.
pub proof fn law_split_ops_rebuild_the_tree(root: NodeSnap)
    requires
        root.splits() < usize::MAX,
    ensures
        ({
            let done = Rebuild::seed(root.spec_leftmost()).replay(root.spec_ops(0, 1));
            done.tree.filled(done.panes) == root
        }),
{
    let s = Rebuild::seed(root.spec_leftmost());
    let ops = root.spec_ops(0, 1);
    lemma_replay_grows(s, root, 0);
    lemma_ops_len(root, 0, 1);
    let panes = s.panes + op_panes(ops);
    assert(panes.subrange(1, (1 + root.splits()) as int) == op_panes(ops));
    lemma_filled(root, 0, 1, panes);
}

proof fn lemma_parents_exist(node: NodeSnap, at: nat, next: nat, k: int)
    requires
        at < next,
        next + node.splits() <= usize::MAX,
        0 <= k < node.splits(),
    ensures
        node.spec_ops(at, next).len() == node.splits(),
        node.spec_ops(at, next)[k].0 < next + k,
    decreases node,
{
    lemma_ops_len(node, at, next);
    match node {
        NodeSnap::Pane(_) => {},
        NodeSnap::Split { a, b, .. } => {
            let ops_a = a.spec_ops(at, next + 1);
            let ops_b = b.spec_ops(next, next + 1 + a.splits());
            lemma_ops_len(*a, at, next + 1);
            lemma_ops_len(*b, next, next + 1 + a.splits());
            if 1 <= k < 1 + a.splits() {
                lemma_parents_exist(*a, at, next + 1, k - 1);
                assert(node.spec_ops(at, next)[k] == ops_a[k - 1]);
            } else if k >= 1 + a.splits() {
                lemma_parents_exist(*b, next, next + 1 + a.splits(), k - 1 - a.splits());
                assert(node.spec_ops(at, next)[k] == ops_b[k - 1 - a.splits()]);
            }
        },
    }
}

/// There is one split per split of the tree, and each one is applied to a pane that the first
/// pane and the earlier splits have already made.
pub proof fn law_split_ops_parents_exist(root: NodeSnap)
    requires
        root.splits() < usize::MAX,
    ensures
        root.spec_ops(0, 1).len() == root.splits(),
        forall|k: int| 0 <= k < root.splits() ==> (#[trigger] root.spec_ops(0, 1)[k]).0 <= k,
{
    lemma_ops_len(root, 0, 1);
    assert forall|k: int| 0 <= k < root.splits() implies (#[trigger] root.spec_ops(0, 1)[k]).0
        <= k by {
        lemma_parents_exist(root, 0, 1, k);
    }
}

// ---- taking a snapshot -----------------------------------------------------

/// How many bytes a character takes in UTF-8.
pub open spec fn char_bytes(c: char) -> nat {
    if (c as int) < 0x80 {
        1
    } else if (c as int) < 0x800 {
        2
    } else if (c as int) < 0x10000 {
        3
    } else {
        4
    }
}

/// How many bytes a text takes in UTF-8.
pub open spec fn text_bytes(s: Seq<char>) -> nat
    decreases s.len(),
{
    if s.len() == 0 {
        0
    } else {
        text_bytes(s.drop_last()) + char_bytes(s.last())
    }
}

/// The most bytes of a command that are saved.
pub const MAX_CMD_BYTES: usize = 1024;

/// `r` is the longest beginning of `s` that takes at most `MAX_CMD_BYTES` bytes.
pub open spec fn is_capped(s: Seq<char>, r: Seq<char>) -> bool {
    &&& r.len() <= s.len()
    &&& r == s.take(r.len() as int)
    &&& text_bytes(r) <= MAX_CMD_BYTES
    &&& r.len() < s.len() ==> text_bytes(s.take(r.len() as int + 1)) > MAX_CMD_BYTES
}

fn utf8_len(c: char) -> (r: usize)
    ensures
        r == char_bytes(c),
{
    let code: u32 = c as u32;
    if code < 0x80 {
        1
    } else if code < 0x800 {
        2
    } else if code < 0x10000 {
        3
    } else {
        4
    }
}

/// Cuts `s` to at most `MAX_CMD_BYTES` bytes, never inside a character.
pub fn cap_cmd(s: String) -> (r: String)
    ensures
        is_capped(s@, r@),
{
    let chars = to_chars(s.as_str());
    let mut i: usize = 0;
    let mut bytes: usize = 0;
    while i < chars.len()
        invariant
            i <= chars@.len(),
            chars@ == s@,
            bytes == text_bytes(s@.take(i as int)),
            bytes <= MAX_CMD_BYTES,
        decreases chars@.len() - i,
    {
        let more: usize = utf8_len(chars[i]);
        assert(s@.take(i + 1).drop_last() == s@.take(i as int));
        if bytes + more > MAX_CMD_BYTES {
            let kept = from_chars(vstd::slice::slice_subrange(chars.as_slice(), 0, i));
            assert(kept@ == s@.take(i as int));
            return kept;
        }
        bytes += more;
        i += 1;
    }
    assert(s@.take(i as int) == s@);
    s
}

/// A text that fits is not changed.
pub proof fn law_short_commands_are_kept(s: Seq<char>, r: Seq<char>)
    requires
        text_bytes(s) <= MAX_CMD_BYTES,
        is_capped(s, r),
    ensures
        r == s,
{
    if r.len() < s.len() {
        lemma_text_bytes_prefix(s, r.len() as int + 1);
    } else {
        assert(s.take(r.len() as int) == s);
    }
}

proof fn lemma_text_bytes_prefix(s: Seq<char>, k: int)
    requires
        0 <= k <= s.len(),
    ensures
        text_bytes(s.take(k)) <= text_bytes(s),
    decreases s.len(),
{
    if k == s.len() {
        assert(s.take(k) == s);
    } else {
        assert(s.drop_last().take(k) == s.take(k));
        lemma_text_bytes_prefix(s.drop_last(), k);
    }
}

/// `saved` is what is saved of a pane whose live data is `live`.
pub open spec fn pane_saved(live: PaneSnap, saved: PaneSnap) -> bool {
    &&& saved.cwd == live.cwd
    &&& saved.was_running == live.was_running
    &&& match live.last_cmd {
        Some(cmd) => saved.last_cmd is Some && is_capped(cmd@, saved.last_cmd->0@),
        None => saved.last_cmd is None,
    }
}

pub open spec fn axis_letter(axis: Axis) -> char {
    match axis {
        Axis::Horizontal => 'h',
        Axis::Vertical => 'v',
    }
}

/// `saved` has the shape of `node`, and each pane is saved from what `meta` gives of its session.
pub open spec fn node_saved<F: Fn(&SessionId) -> PaneSnap>(
    node: LayoutNode,
    meta: F,
    saved: NodeSnap,
) -> bool
    decreases node,
{
    match node {
        LayoutNode::Pane { session, .. } => saved is Pane && exists|live: PaneSnap|
            call_ensures(meta, (&session,), live) && #[trigger] pane_saved(live, saved->Pane_0),
        LayoutNode::Split { axis, ratio_bits, a, b } => {
            &&& saved is Split
            &&& saved->dir == axis_letter(axis)
            &&& saved->ratio_bits == ratio_bits
            &&& node_saved(*a, meta, *saved->a)
            &&& node_saved(*b, meta, *saved->b)
        },
    }
}

/// Saves one split tree.
pub fn assemble_node<F: Fn(&SessionId) -> PaneSnap>(node: &LayoutNode, meta: &F) -> (r: NodeSnap)
    requires
        forall|s: SessionId| call_requires(*meta, (&s,)),
    ensures
        node_saved(*node, *meta, r),
    decreases node,
{
    match node {
        LayoutNode::Pane { session, .. } => {
            let live = meta(session);
            let ghost l = live;
            let last_cmd = match live.last_cmd {
                Some(cmd) => Some(cap_cmd(cmd)),
                None => None,
            };
            let saved = PaneSnap { cwd: live.cwd, last_cmd, was_running: live.was_running };
            assert(pane_saved(l, saved));
            NodeSnap::Pane(saved)
        },
        LayoutNode::Split { axis, ratio_bits, a, b } => {
            let dir = match axis {
                Axis::Horizontal => 'h',
                Axis::Vertical => 'v',
            };
            let sa = assemble_node(a, meta);
            let sb = assemble_node(b, meta);
            NodeSnap::Split { dir, ratio_bits: *ratio_bits, a: Box::new(sa), b: Box::new(sb) }
        },
    }
}

/// A window's outer position, inner size, tree, and which tabs the user has named.
pub type WindowInput<'a> = (Option<(i32, i32)>, (u32, u32), &'a WindowTree, &'a [bool]);

/// `saved` is what is saved of `tab`. A tab without a flag counts as not named by the user.
pub open spec fn tab_saved<F: Fn(&SessionId) -> PaneSnap>(
    tab: Tab,
    i: int,
    named: Seq<bool>,
    meta: F,
    saved: TabSnap,
) -> bool {
    &&& saved.name == tab.title
    &&& saved.named_by_user == (i < named.len() && named[i])
    &&& node_saved(tab.root, meta, saved.splits)
}

pub open spec fn window_saved<F: Fn(&SessionId) -> PaneSnap>(
    window: WindowInput,
    meta: F,
    saved: WindowSnap,
) -> bool {
    &&& saved.pos == window.0
    &&& saved.size == window.1
    &&& saved.focused_tab == window.2.active
    &&& saved.tabs@.len() == window.2.tabs@.len()
    &&& forall|i: int|
        0 <= i < saved.tabs@.len() ==> tab_saved(
            window.2.tabs@[i],
            i,
            window.3@,
            meta,
            #[trigger] saved.tabs@[i],
        )
}

fn assemble_window<F: Fn(&SessionId) -> PaneSnap>(window: &WindowInput, meta: &F) -> (r: WindowSnap)
    requires
        forall|s: SessionId| call_requires(*meta, (&s,)),
    ensures
        window_saved(*window, *meta, r),
{
    let tree = window.2;
    let named = window.3;
    let mut tabs: Vec<TabSnap> = Vec::new();
    let mut i: usize = 0;
    while i < tree.tabs.len()
        invariant
            i <= tree.tabs@.len(),
            i == tabs@.len(),
            forall|s: SessionId| call_requires(*meta, (&s,)),
            forall|j: int|
                0 <= j < i ==> tab_saved(tree.tabs@[j], j, named@, *meta, #[trigger] tabs@[j]),
        decreases tree.tabs@.len() - i,
    {
        let tab = &tree.tabs[i];
        let named_by_user = i < named.len() && named[i];
        tabs.push(
            TabSnap {
                name: tab.title.clone(),
                named_by_user,
                splits: assemble_node(&tab.root, meta),
            },
        );
        i += 1;
    }
    WindowSnap { pos: window.0, size: window.1, focused_tab: tree.active, tabs }
}

/// The snapshot of `windows` at the moment `now`, in seconds since the epoch.
///
/// `meta` gives the live data of a session's pane. A clock before the epoch leaves the time out.
pub fn assemble<F: Fn(&SessionId) -> PaneSnap>(windows: &[WindowInput], meta: &F, now: i64) -> (r:
    SessionSnapshot)
    requires
        forall|s: SessionId| call_requires(*meta, (&s,)),
    ensures
        r.version == 1,
        r.saved_at@ == (if now < 0 { Seq::empty() } else { decimal(now as nat) }),
        r.windows@.len() == windows@.len(),
        forall|i: int|
            0 <= i < windows@.len() ==> window_saved(windows@[i], *meta, #[trigger] r.windows@[i]),
{
    let mut saved: Vec<WindowSnap> = Vec::new();
    let mut i: usize = 0;
    while i < windows.len()
        invariant
            i <= windows@.len(),
            i == saved@.len(),
            forall|s: SessionId| call_requires(*meta, (&s,)),
            forall|j: int|
                0 <= j < i ==> window_saved(windows@[j], *meta, #[trigger] saved@[j]),
        decreases windows@.len() - i,
    {
        saved.push(assemble_window(&windows[i], meta));
        i += 1;
    }
    let saved_at = if now < 0 {
        String::new()
    } else {
        to_decimal(now as u64)
    };
    SessionSnapshot { version: 1, saved_at, windows: saved }
}

// ---- keeping commands out --------------------------------------------------

/// The pane without its command.
pub open spec fn pane_stripped(p: PaneSnap) -> PaneSnap {
    PaneSnap { cwd: p.cwd, last_cmd: None, was_running: p.was_running }
}

/// The tree with every pane's command cleared and everything else as it was.
pub open spec fn node_stripped(node: NodeSnap) -> NodeSnap
    decreases node,
{
    match node {
        NodeSnap::Pane(p) => NodeSnap::Pane(pane_stripped(p)),
        NodeSnap::Split { dir, ratio_bits, a, b } => NodeSnap::Split {
            dir,
            ratio_bits,
            a: Box::new(node_stripped(*a)),
            b: Box::new(node_stripped(*b)),
        },
    }
}

pub open spec fn node_has_no_commands(node: NodeSnap) -> bool
    decreases node,
{
    match node {
        NodeSnap::Pane(p) => p.last_cmd is None,
        NodeSnap::Split { a, b, .. } => node_has_no_commands(*a) && node_has_no_commands(*b),
    }
}

/// `after` is `before` with every command cleared.
pub open spec fn snapshot_stripped(before: SessionSnapshot, after: SessionSnapshot) -> bool {
    &&& after.version == before.version
    &&& after.saved_at == before.saved_at
    &&& after.windows@.len() == before.windows@.len()
    &&& forall|i: int|
        0 <= i < before.windows@.len() ==> window_stripped(
            before.windows@[i],
            #[trigger] after.windows@[i],
        )
}

pub open spec fn window_stripped(before: WindowSnap, after: WindowSnap) -> bool {
    &&& after.pos == before.pos
    &&& after.size == before.size
    &&& after.focused_tab == before.focused_tab
    &&& after.tabs@.len() == before.tabs@.len()
    &&& forall|i: int|
        0 <= i < before.tabs@.len() ==> tab_stripped(before.tabs@[i], #[trigger] after.tabs@[i])
}

pub open spec fn tab_stripped(before: TabSnap, after: TabSnap) -> bool {
    &&& after.name == before.name
    &&& after.named_by_user == before.named_by_user
    &&& after.splits == node_stripped(before.splits)
}

/// Clears every pane's command.
pub fn strip_node_commands(node: &mut NodeSnap)
    ensures
        *final(node) == node_stripped(*old(node)),
    decreases *old(node),
{
    match node {
        NodeSnap::Pane(p) => {
            p.last_cmd = None;
        },
        NodeSnap::Split { a, b, .. } => {
            strip_node_commands(&mut **a);
            strip_node_commands(&mut **b);
        },
    }
}

fn strip_window(window: &mut WindowSnap)
    ensures
        window_stripped(*old(window), *final(window)),
{
    let mut i: usize = 0;
    let ghost before = *window;
    while i < window.tabs.len()
        invariant
            i <= window.tabs@.len(),
            window.pos == before.pos,
            window.size == before.size,
            window.focused_tab == before.focused_tab,
            window.tabs@.len() == before.tabs@.len(),
            forall|j: int|
                0 <= j < i ==> tab_stripped(before.tabs@[j], #[trigger] window.tabs@[j]),
            forall|j: int| i <= j < before.tabs@.len() ==> window.tabs@[j] == before.tabs@[j],
        decreases window.tabs@.len() - i,
    {
        strip_node_commands(&mut window.tabs[i].splits);
        i += 1;
    }
}

/// Clears every command of a snapshot.
pub fn strip_snapshot(snap: &mut SessionSnapshot)
    ensures
        snapshot_stripped(*old(snap), *final(snap)),
{
    let mut i: usize = 0;
    let ghost before = *snap;
    while i < snap.windows.len()
        invariant
            i <= snap.windows@.len(),
            snap.version == before.version,
            snap.saved_at == before.saved_at,
            snap.windows@.len() == before.windows@.len(),
            forall|j: int|
                0 <= j < i ==> window_stripped(before.windows@[j], #[trigger] snap.windows@[j]),
            forall|j: int| i <= j < before.windows@.len() ==> snap.windows@[j] == before.windows@[j],
        decreases snap.windows@.len() - i,
    {
        strip_window(&mut snap.windows[i]);
        i += 1;
    }
}

/// A stripped tree holds no command, and stripping it again changes nothing.
pub proof fn law_stripping_clears_every_command(node: NodeSnap)
    ensures
        node_has_no_commands(node_stripped(node)),
        node_stripped(node_stripped(node)) == node_stripped(node),
        node_has_no_commands(node) ==> node_stripped(node) == node,
    decreases node,
{
    match node {
        NodeSnap::Pane(_) => {},
        NodeSnap::Split { a, b, .. } => {
            law_stripping_clears_every_command(*a);
            law_stripping_clears_every_command(*b);
        },
    }
}

/// A snapshot of panes whose live data holds no command holds none either.
pub proof fn law_no_live_command_none_saved<F: Fn(&SessionId) -> PaneSnap>(
    node: LayoutNode,
    meta: F,
    saved: NodeSnap,
)
    requires
        node_saved(node, meta, saved),
        forall|s: SessionId, live: PaneSnap|
            call_ensures(meta, (&s,), live) ==> live.last_cmd is None,
    ensures
        node_has_no_commands(saved),
    decreases node,
{
    match node {
        LayoutNode::Pane { .. } => {},
        LayoutNode::Split { a, b, .. } => {
            law_no_live_command_none_saved(*a, meta, *saved->a);
            law_no_live_command_none_saved(*b, meta, *saved->b);
        },
    }
}

/// What is known of a pane while it runs.
#[derive(Debug, PartialEq, Eq)]
pub struct PaneMeta {
    pub cwd: Option<String>,
    pub last_cmd: Option<String>,
    pub was_running: bool,
}

/// Forgets every captured command.
pub fn clear_captured_commands(pane_meta: &mut Vec<(SessionId, PaneMeta)>)
    ensures
        final(pane_meta)@.len() == old(pane_meta)@.len(),
        forall|i: int|
            0 <= i < old(pane_meta)@.len() ==> {
                let (before, after) = (old(pane_meta)@[i], #[trigger] final(pane_meta)@[i]);
                &&& after.0 == before.0
                &&& after.1 == (PaneMeta {
                    cwd: before.1.cwd,
                    last_cmd: None,
                    was_running: before.1.was_running,
                })
            },
{
    let mut i: usize = 0;
    let ghost start = pane_meta@;
    while i < pane_meta.len()
        invariant
            i <= pane_meta@.len(),
            pane_meta@.len() == start.len(),
            forall|j: int|
                0 <= j < i ==> {
                    let (before, after) = (start[j], #[trigger] pane_meta@[j]);
                    &&& after.0 == before.0
                    &&& after.1 == (PaneMeta {
                        cwd: before.1.cwd,
                        last_cmd: None,
                        was_running: before.1.was_running,
                    })
                },
            forall|j: int| i <= j < start.len() ==> pane_meta@[j] == start[j],
        decreases pane_meta@.len() - i,
    {
        pane_meta[i].1.last_cmd = None;
        i += 1;
    }
}

/// What a snapshot takes from a pane: its command only where capturing is on.
pub fn pane_snap_for(meta: Option<&PaneMeta>, capture_commands: bool) -> (r: PaneSnap)
    ensures
        match meta {
            Some(m) => r.cwd == m.cwd && r.was_running == m.was_running && r.last_cmd == (if
                capture_commands {
                m.last_cmd
            } else {
                None
            }),
            None => r == (PaneSnap { cwd: None, last_cmd: None, was_running: false }),
        },
{
    match meta {
        Some(m) => PaneSnap {
            cwd: copy_text(&m.cwd),
            last_cmd: if capture_commands {
                copy_text(&m.last_cmd)
            } else {
                None
            },
            was_running: m.was_running,
        },
        None => PaneSnap { cwd: None, last_cmd: None, was_running: false },
    }
}

// ---- reading a saved file --------------------------------------------------

/// What came of reading and parsing a snapshot file.
#[derive(Debug, PartialEq, Eq)]
pub enum ReadOutcome {
    /// There is no such file.
    Missing,
    /// The file is there but could not be read.
    Unreadable,
    /// The text is no snapshot.
    Unparseable,
    /// The text is JSON that gives itself another version than this one, and its fields are not
    /// those of this version.
    OtherVersion,
    Parsed(SessionSnapshot),
}

/// Whether a JSON value is an object that names a version other than 1.
pub open spec fn names_other_version(v: JsonView) -> bool {
    match member_of(v, "version"@) {
        Some(version) => version != JsonView::Unsigned(1),
        None => false,
    }
}

/// Whether a JSON value is an object of another version than 1, whatever else it holds.
pub fn is_other_version(v: &serde_json::Value) -> (r: bool)
    ensures
        r == names_other_version(json_view(*v)),
{
    match json::member(v, "version") {
        Some(version) => match json::as_unsigned(version) {
            Some(n) => n != 1,
            None => true,
        },
        None => false,
    }
}

/// What a text came to that is `parsed` as JSON and whose fields made the snapshot `fields`, if
/// they made one.
pub open spec fn outcome_of(
    parsed: Result<JsonView, Seq<char>>,
    fields: Option<SessionSnapshot>,
) -> ReadOutcome {
    match fields {
        Some(snap) => ReadOutcome::Parsed(snap),
        None => match parsed {
            Ok(v) => if names_other_version(v) {
                ReadOutcome::OtherVersion
            } else {
                ReadOutcome::Unparseable
            },
            Err(_) => ReadOutcome::Unparseable,
        },
    }
}

/// What the text of a file came to, given the snapshot that its fields made, if they made one.
/// Where they did not, the version decides between a file of another version and a broken one.
pub fn read_outcome(text: &str, fields: Option<SessionSnapshot>) -> (r: ReadOutcome)
    ensures
        r == outcome_of(json_parsed(text@), fields),
{
    if let Some(snap) = fields {
        return ReadOutcome::Parsed(snap);
    }
    match json::parse(text) {
        Ok(v) => if is_other_version(&v) {
            ReadOutcome::OtherVersion
        } else {
            ReadOutcome::Unparseable
        },
        Err(_) => ReadOutcome::Unparseable,
    }
}

/// What is to be done to keep commands off the disk.
#[derive(Debug, PartialEq, Eq)]
pub enum StripPlan {
    /// Leave the disk as it is.
    Nothing,
    /// Report the read error.
    Fail,
    /// Write this snapshot over the file.
    Rewrite(SessionSnapshot),
}

/// Decides how the file is rewritten when the capturing of commands is switched off: a file that
/// is missing or whose fields could not be read is left alone.
pub fn strip_commands(read: ReadOutcome) -> (r: StripPlan)
    ensures
        match read {
            ReadOutcome::Missing => r is Nothing,
            ReadOutcome::Unreadable => r is Fail,
            ReadOutcome::Unparseable | ReadOutcome::OtherVersion => r is Nothing,
            ReadOutcome::Parsed(snap) => r is Rewrite && snapshot_stripped(snap, r->Rewrite_0),
        },
{
    match read {
        ReadOutcome::Missing => StripPlan::Nothing,
        ReadOutcome::Unreadable => StripPlan::Fail,
        ReadOutcome::Unparseable => StripPlan::Nothing,
        ReadOutcome::OtherVersion => StripPlan::Nothing,
        ReadOutcome::Parsed(snap) => {
            let mut snap = snap;
            strip_snapshot(&mut snap);
            StripPlan::Rewrite(snap)
        },
    }
}

/// What a snapshot file turned out to be.
#[derive(Debug, PartialEq, Eq)]
pub enum LoadOutcome {
    /// No file, or one of an unknown version.
    Absent,
    /// Not a snapshot; the file is to be moved aside.
    Corrupt,
    Loaded(SessionSnapshot),
}

impl LoadOutcome {
    pub open spec fn spec_quarantines(self) -> bool {
        self is Corrupt
    }

    /// Whether the file is to be renamed so that it does not stand in the way.
    pub fn quarantines(&self) -> (r: bool)
        ensures
            r == self.spec_quarantines(),
    {
        match self {
            LoadOutcome::Corrupt => true,
            _ => false,
        }
    }
}

/// What a file is that came to `read`.
pub open spec fn loaded(read: ReadOutcome) -> LoadOutcome {
    match read {
        ReadOutcome::Missing | ReadOutcome::Unreadable | ReadOutcome::OtherVersion =>
            LoadOutcome::Absent,
        ReadOutcome::Unparseable => LoadOutcome::Corrupt,
        ReadOutcome::Parsed(snap) => if snap.version == 1 {
            LoadOutcome::Loaded(snap)
        } else {
            LoadOutcome::Absent
        },
    }
}

/// Classifies a snapshot file: only version 1 is loaded. A file of another version is left alone,
/// whether or not its fields can be read; only an unparseable one is corrupt.
pub fn load(read: ReadOutcome) -> (r: LoadOutcome)
    ensures
        r == loaded(read),
{
    match read {
        ReadOutcome::Missing => LoadOutcome::Absent,
        ReadOutcome::Unreadable => LoadOutcome::Absent,
        ReadOutcome::OtherVersion => LoadOutcome::Absent,
        ReadOutcome::Unparseable => LoadOutcome::Corrupt,
        ReadOutcome::Parsed(snap) => {
            if snap.version != 1 {
                return LoadOutcome::Absent;
            }
            LoadOutcome::Loaded(snap)
        },
    }
}

/// A file whose JSON names another version is neither loaded nor put aside, whatever its other
/// fields are.
pub proof fn law_other_versions_are_left_alone(v: JsonView, fields: Option<SessionSnapshot>)
    requires
        names_other_version(v),
        fields matches Some(snap) ==> member_of(v, "version"@) == Some(
            JsonView::Unsigned(snap.version as u64),
        ),
    ensures
        loaded(outcome_of(Ok(v), fields)) is Absent,
        !loaded(outcome_of(Ok(v), fields)).spec_quarantines(),
{
}

/// What is no JSON, and whose fields can thus not be read, is corrupt and put aside.
pub proof fn law_broken_files_are_put_aside(e: Seq<char>)
    ensures
        loaded(outcome_of(Err(e), None)) is Corrupt,
        loaded(outcome_of(Err(e), None)).spec_quarantines(),
{
}

/// The snapshot of an archive, of whatever version; `None` where it could not be read or parsed.
pub fn load_archive(read: ReadOutcome) -> (r: Option<SessionSnapshot>)
    ensures
        r == (match read {
            ReadOutcome::Parsed(snap) => Some(snap),
            _ => None,
        }),
{
    match read {
        ReadOutcome::Parsed(snap) => Some(snap),
        _ => None,
    }
}

// ---- what is kept ----------------------------------------------------------

/// The part of a layout that a path of turns leads to, `true` for the second half of a split.
pub open spec fn layout_at(node: LayoutNode, path: Seq<bool>) -> Option<LayoutNode>
    decreases path.len(),
{
    if path.len() == 0 {
        Some(node)
    } else {
        match node {
            LayoutNode::Pane { .. } => None,
            LayoutNode::Split { a, b, .. } => layout_at(
                if path[0] {
                    *b
                } else {
                    *a
                },
                path.skip(1),
            ),
        }
    }
}

/// The part of a saved layout that a path of turns leads to.
pub open spec fn saved_at(node: NodeSnap, path: Seq<bool>) -> Option<NodeSnap>
    decreases path.len(),
{
    if path.len() == 0 {
        Some(node)
    } else {
        match node {
            NodeSnap::Pane(_) => None,
            NodeSnap::Split { a, b, .. } => saved_at(
                if path[0] {
                    *b
                } else {
                    *a
                },
                path.skip(1),
            ),
        }
    }
}

/// A saved layout has the shape of the live one. The letter of each split tells its axis, `h` for
/// side by side and `v` for stacked, so that the axis can be read back from it; the ratio is
/// kept to the bit.
pub proof fn law_splits_are_saved_with_their_axis<F: Fn(&SessionId) -> PaneSnap>(
    node: LayoutNode,
    meta: F,
    saved: NodeSnap,
    path: Seq<bool>,
)
    requires
        node_saved(node, meta, saved),
    ensures
        layout_at(node, path) is None <==> saved_at(saved, path) is None,
        layout_at(node, path) matches Some(LayoutNode::Split { axis, ratio_bits, .. }) ==> {
            &&& saved_at(saved, path) matches Some(NodeSnap::Split { dir, ratio_bits: r, .. })
            &&& (dir == 'h' <==> axis == Axis::Horizontal)
            &&& (dir == 'v' <==> axis == Axis::Vertical)
            &&& r == ratio_bits
        },
        layout_at(node, path) matches Some(LayoutNode::Pane { .. }) ==> (saved_at(
            saved,
            path,
        ) matches Some(n) && n is Pane),
    decreases path.len(),
{
    if path.len() > 0 && node is Split {
        if path[0] {
            law_splits_are_saved_with_their_axis(*node->b, meta, *saved->b, path.skip(1));
        } else {
            law_splits_are_saved_with_their_axis(*node->a, meta, *saved->a, path.skip(1));
        }
    }
}

/// Every pane is saved in its own place, from what is known of its own session: its directory,
/// whether something ran, and its last command, cut where it is too long.
pub proof fn law_panes_are_saved_in_place<F: Fn(&SessionId) -> PaneSnap>(
    node: LayoutNode,
    meta: F,
    saved: NodeSnap,
    path: Seq<bool>,
) -> (live: PaneSnap)
    requires
        node_saved(node, meta, saved),
    ensures
        layout_at(node, path) matches Some(LayoutNode::Pane { session, .. }) ==> {
            &&& call_ensures(meta, (&session,), live)
            &&& saved_at(saved, path) matches Some(NodeSnap::Pane(p))
            &&& p.cwd == live.cwd
            &&& p.was_running == live.was_running
            &&& (p.last_cmd is Some <==> live.last_cmd is Some)
            &&& (p.last_cmd matches Some(cut) ==> cut@.is_prefix_of(live.last_cmd->0@)
                && text_bytes(cut@) <= 1024)
        },
    decreases path.len(),
{
    if path.len() == 0 {
        let p = saved->Pane_0;
        let session = node->session;
        let live = choose|live: PaneSnap|
            call_ensures(meta, (&session,), live) && #[trigger] pane_saved(live, p);
        if node is Pane {
            if let Some(cut) = p.last_cmd {
                law_long_commands_are_cut(live.last_cmd->0@, cut@);
            }
        }
        live
    } else if node is Split {
        if path[0] {
            law_panes_are_saved_in_place(*node->b, meta, *saved->b, path.skip(1))
        } else {
            law_panes_are_saved_in_place(*node->a, meta, *saved->a, path.skip(1))
        }
    } else {
        arbitrary()
    }
}

/// The bytes of a text are those of its parts; a character below 128 takes one, and none takes
/// more than four.
pub proof fn law_bytes_are_counted(a: Seq<char>, b: Seq<char>, c: char)
    ensures
        text_bytes(Seq::<char>::empty()) == 0,
        text_bytes(a + b) == text_bytes(a) + text_bytes(b),
        text_bytes(seq![c]) == (if (c as int) < 128 {
            1int
        } else if (c as int) < 2048 {
            2
        } else if (c as int) < 65536 {
            3
        } else {
            4
        }),
    decreases b.len(),
{
    reveal_with_fuel(text_bytes, 2);
    assert(seq![c].drop_last() =~= Seq::<char>::empty());
    if b.len() == 0 {
        assert(a + b =~= a);
    } else {
        law_bytes_are_counted(a, b.drop_last(), c);
        assert((a + b).drop_last() =~= a + b.drop_last());
    }
}

/// A long command is cut at 1024 bytes, and no sooner than its next character would pass them.
pub proof fn law_long_commands_are_cut(s: Seq<char>, r: Seq<char>)
    requires
        is_capped(s, r),
    ensures
        r.is_prefix_of(s),
        text_bytes(r) <= 1024,
        text_bytes(s) > 1024 ==> text_bytes(r) > 1020,
        text_bytes(s) <= 1024 ==> r == s,
{
    if r.len() < s.len() {
        let k = r.len() as int;
        let t = s.take(k + 1);
        assert(t.drop_last() =~= s.take(k));
        lemma_text_bytes_prefix(s, k + 1);
    } else {
        assert(s.take(r.len() as int) =~= s);
    }
}

/// A tab is saved with its title, whether the user named it, and its layout; a window with its
/// place, its size, the tab on show, and its tabs in order.
pub proof fn law_tabs_are_saved_in_order<F: Fn(&SessionId) -> PaneSnap>(
    window: WindowInput,
    meta: F,
    saved: WindowSnap,
    i: int,
    path: Seq<bool>,
)
    requires
        window_saved(window, meta, saved),
        0 <= i < window.2.tabs@.len(),
    ensures
        saved.pos == window.0,
        saved.size == window.1,
        saved.focused_tab == window.2.active,
        saved.tabs@.len() == window.2.tabs@.len(),
        saved.tabs@[i].name@ == window.2.tabs@[i].title@,
        saved.tabs@[i].named_by_user <==> i < window.3@.len() && window.3@[i],
        layout_at(window.2.tabs@[i].root, path) is None <==> saved_at(saved.tabs@[i].splits, path)
            is None,
        layout_at(window.2.tabs@[i].root, path) matches Some(LayoutNode::Split { axis, .. }) ==> (
        saved_at(saved.tabs@[i].splits, path) matches Some(NodeSnap::Split { dir, .. }) && (dir
            == 'h' <==> axis == Axis::Horizontal) && (dir == 'v' <==> axis == Axis::Vertical)),
{
    assert(tab_saved(window.2.tabs@[i], i, window.3@, meta, saved.tabs@[i]));
    law_splits_are_saved_with_their_axis(
        window.2.tabs@[i].root,
        meta,
        saved.tabs@[i].splits,
        path,
    );
}

/// Stripping takes the commands and nothing else: every split stays as it is, and every pane keeps
/// its directory and whether something ran.
pub proof fn law_stripping_takes_commands_only(node: NodeSnap, path: Seq<bool>)
    ensures
        match saved_at(node, path) {
            None => saved_at(node_stripped(node), path) is None,
            Some(NodeSnap::Pane(p)) => saved_at(node_stripped(node), path) matches Some(
                NodeSnap::Pane(q),
            ) && q.cwd == p.cwd && q.was_running == p.was_running && q.last_cmd is None,
            Some(NodeSnap::Split { dir, ratio_bits, .. }) => saved_at(node_stripped(node), path)
                matches Some(NodeSnap::Split { dir: d, ratio_bits: r, .. }) && d == dir && r
                == ratio_bits,
        },
    decreases path.len(),
{
    if path.len() > 0 && node is Split {
        if path[0] {
            law_stripping_takes_commands_only(*node->b, path.skip(1));
        } else {
            law_stripping_takes_commands_only(*node->a, path.skip(1));
        }
    }
}

/// A stripped snapshot is the old one in all but the commands of its panes.
pub proof fn law_snapshots_are_stripped_in_place(before: SessionSnapshot, after: SessionSnapshot, i: int, j: int)
    requires
        snapshot_stripped(before, after),
        0 <= i < before.windows@.len(),
        0 <= j < before.windows@[i].tabs@.len(),
    ensures
        after.version == before.version && after.saved_at == before.saved_at,
        after.windows@.len() == before.windows@.len(),
        ({
            let (w, v) = (before.windows@[i], after.windows@[i]);
            &&& v.pos == w.pos && v.size == w.size && v.focused_tab == w.focused_tab
            &&& v.tabs@.len() == w.tabs@.len()
            &&& v.tabs@[j].name == w.tabs@[j].name
            &&& v.tabs@[j].named_by_user == w.tabs@[j].named_by_user
            &&& node_has_no_commands(v.tabs@[j].splits)
            &&& v.tabs@[j].splits == node_stripped(w.tabs@[j].splits)
        }),
{
    assert(window_stripped(before.windows@[i], after.windows@[i]));
    assert(tab_stripped(before.windows@[i].tabs@[j], after.windows@[i].tabs@[j]));
    law_stripping_clears_every_command(before.windows@[i].tabs@[j].splits);
}

/// A pane of which something is known is saved with it, the command only where commands are
/// captured; any other is saved empty.
pub proof fn law_panes_are_saved_as_known(m: PaneMeta, capture: bool, r: PaneSnap)
    ensures
        call_ensures(pane_snap_for, (Some(&m), capture), r) ==> {
            &&& r.cwd == m.cwd
            &&& r.was_running == m.was_running
            &&& (capture ==> r.last_cmd == m.last_cmd)
            &&& (!capture ==> r.last_cmd is None)
        },
        call_ensures(pane_snap_for, (None, capture), r) ==> r.cwd is None && r.last_cmd is None
            && !r.was_running,
{
}

/// What is done with a file by what is in it. Only a snapshot of this version is loaded, unchanged;
/// only one that is none is put aside; a missing, unreadable or newer one counts as none. An
/// archive is taken in any version. Commands are stripped from snapshots alone, and only a file
/// that cannot be read is reported.
pub proof fn law_files_are_taken_as_they_are(snap: SessionSnapshot, read: ReadOutcome, plan: StripPlan, arch: Option<SessionSnapshot>)
    ensures
        snap.version == 1 ==> loaded(ReadOutcome::Parsed(snap)) == LoadOutcome::Loaded(snap),
        snap.version != 1 ==> loaded(ReadOutcome::Parsed(snap)) is Absent,
        loaded(read) is Corrupt <==> read is Unparseable,
        loaded(read) is Loaded ==> read is Parsed,
        loaded(read).spec_quarantines() <==> read is Unparseable,
        call_ensures(strip_commands, (read,), plan) ==> {
            &&& plan is Fail <==> read is Unreadable
            &&& plan is Rewrite <==> read is Parsed
            &&& plan is Rewrite ==> snapshot_stripped(read->Parsed_0, plan->Rewrite_0)
        },
        call_ensures(load_archive, (read,), arch) ==> {
            &&& arch is Some <==> read is Parsed
            &&& arch is Some ==> arch->0 == read->Parsed_0
        },
{
}

/// What a text is read as: where the fields of a snapshot could be taken from it, that snapshot;
/// else another version where the text is an object that names one, and no snapshot in all other
/// cases.
pub proof fn law_texts_are_read_by_their_version(m: Map<Seq<char>, JsonView>, version: JsonView, snap: SessionSnapshot, e: Seq<char>, parsed: Result<JsonView, Seq<char>>)
    requires
        m.contains_key("version"@) ==> m["version"@] == version,
    ensures
        outcome_of(parsed, Some(snap)) == ReadOutcome::Parsed(snap),
        outcome_of(Err(e), None) is Unparseable,
        outcome_of(Ok(JsonView::Object(m)), None) is OtherVersion <==> m.contains_key("version"@)
            && version != JsonView::Unsigned(1),
        outcome_of(Ok(JsonView::Object(m)), None) is Unparseable <==> !m.contains_key("version"@)
            || version == JsonView::Unsigned(1),
{
}

/// Forgetting the captured commands forgets them all and nothing else.
pub proof fn law_captured_commands_are_forgotten(metas: &mut Vec<(SessionId, PaneMeta)>, i: int)
    requires
        call_ensures(clear_captured_commands, (metas,), ()),
        0 <= i < old(metas)@.len(),
    ensures
        final(metas)@.len() == old(metas)@.len(),
        ({
            let ((s, before), (t, after)) = (old(metas)@[i], final(metas)@[i]);
            &&& t == s
            &&& after.last_cmd is None
            &&& after.cwd == before.cwd && after.was_running == before.was_running
        }),
{
}

/// A snapshot is of version 1, says when it was made, and has the windows in order.
pub proof fn law_snapshots_hold_every_window<F: Fn(&SessionId) -> PaneSnap>(windows: &[WindowInput], meta: &F, now: i64, r: SessionSnapshot, i: int)
    requires
        forall|s: SessionId| call_requires(*meta, (&s,)),
        call_ensures(assemble::<F>, (windows, meta, now), r),
    ensures
        r.version == 1,
        now >= 0 ==> r.saved_at@ == decimal(now as nat),
        now < 0 ==> r.saved_at@.len() == 0,
        r.windows@.len() == windows@.len(),
        0 <= i < windows@.len() ==> window_saved(windows@[i], *meta, r.windows@[i]),
{
}

} // verus!
