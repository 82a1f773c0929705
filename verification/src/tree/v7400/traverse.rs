//! Depth-first traversal of a tree.

use vstd::prelude::*;

use crate::tree::v7400::{NodeId, Tree};

verus! {

/// Event of depth-first traversal.
#[derive(Debug, Clone, Copy, PartialEq, Eq, Structural, Hash)]
pub enum DepthFirstTraversed {
    /// Opening of a node.
    Open(NodeId),
    /// Closing of a node.
    Close(NodeId),
}

/// The node of a traversal event.
pub open spec fn event_node(e: DepthFirstTraversed) -> NodeId {
    match e {
        DepthFirstTraversed::Open(id) => id,
        DepthFirstTraversed::Close(id) => id,
    }
}

/// The event after `e` in the depth-first traversal of `t`: the opening of
/// the first child after an opening, or the closing of a childless node;
/// after a closing, the opening of the next sibling, or else the closing of
/// the parent. Nothing follows the closing of the root.
pub open spec fn traversal_next(t: Tree, e: DepthFirstTraversed) -> Option<DepthFirstTraversed> {
    match e {
        DepthFirstTraversed::Open(c) => {
            let ch = t.children_of(c);
            if ch.len() > 0 {
                Some(DepthFirstTraversed::Open(ch[0]))
            } else {
                Some(DepthFirstTraversed::Close(c))
            }
        },
        DepthFirstTraversed::Close(c) => match t.next_sibling_of(c) {
            Some(s) => Some(DepthFirstTraversed::Open(s)),
            None => match t.parent_of(c) {
                Some(p) => Some(DepthFirstTraversed::Close(p)),
                None => None,
            },
        },
    }
}

/// The event before `e` in the depth-first traversal of `t`: the closing of
/// the last child before a closing, or the opening of a childless node;
/// before an opening, the closing of the previous sibling, or else the
/// opening of the parent. Nothing comes before the opening of the root.
pub open spec fn traversal_prev(t: Tree, e: DepthFirstTraversed) -> Option<DepthFirstTraversed> {
    match e {
        DepthFirstTraversed::Close(c) => {
            let ch = t.children_of(c);
            if ch.len() > 0 {
                Some(DepthFirstTraversed::Close(ch.last()))
            } else {
                Some(DepthFirstTraversed::Open(c))
            }
        },
        DepthFirstTraversed::Open(c) => match t.previous_sibling_of(c) {
            Some(s) => Some(DepthFirstTraversed::Close(s)),
            None => match t.parent_of(c) {
                Some(p) => Some(DepthFirstTraversed::Open(p)),
                None => None,
            },
        },
    }
}

/// `b` comes `k` steps after `a` in the depth-first traversal of `t`.
pub open spec fn traversal_reaches(t: Tree, a: DepthFirstTraversed, b: DepthFirstTraversed, k: nat) -> bool
    decreases k,
{
    if k == 0 {
        a == b
    } else {
        match traversal_next(t, a) {
            Some(n) => traversal_reaches(t, n, b, (k - 1) as nat),
            None => false,
        }
    }
}

/// In a list without duplicates, the index of the element at `j` is `j`.
proof fn lemma_index_of_unique(s: Seq<NodeId>, j: int)
    requires
        s.no_duplicates(),
        0 <= j < s.len(),
    ensures
        s.index_of(s[j]) == j,
{
    assert(s.contains(s[j]));
    let k = s.index_of(s[j]);
    assert(s[k] == s[j]);
}

/// The position of a node other than the root among its parent's children.
proof fn lemma_position(t: Tree, c: NodeId)
    requires
        t.wf(),
        t.contains(c),
        t.parent_of(c) is Some,
    ensures
        ({
            let p = t.parent_of(c)->Some_0;
            let ch = t.children_of(p);
            let k = ch.index_of(c);
            &&& t.contains(p)
            &&& 0 <= k < ch.len()
            &&& ch[k] == c
            &&& ch.no_duplicates()
            &&& forall|j: int| 0 <= j < ch.len() ==> t.contains(#[trigger] ch[j]) && t.parent_of(ch[j]) == Some(p)
        }),
{
    t.lemma_parent(c);
    let p = t.parent_of(c)->Some_0;
    t.lemma_children(p);
    let ch = t.children_of(p);
    let k = ch.index_of(c);
    assert(ch[k] == c);
}

/// Stepping forward then backward in a traversal comes back.
pub proof fn law_traversal_prev_undoes_next(t: Tree, e: DepthFirstTraversed)
    requires
        t.wf(),
        t.contains(event_node(e)),
    ensures
        traversal_next(t, e) matches Some(f) ==> t.contains(event_node(f)) && traversal_prev(t, f) == Some(e),
{
    match e {
        DepthFirstTraversed::Open(c) => {
            t.lemma_children(c);
            let ch = t.children_of(c);
            if ch.len() > 0 {
                let d = ch[0];
                lemma_position(t, d);
                lemma_index_of_unique(ch, 0);
            }
        },
        DepthFirstTraversed::Close(c) => {
            t.lemma_parent(c);
            if let Some(p) = t.parent_of(c) {
                lemma_position(t, c);
                let ch = t.children_of(p);
                let k = ch.index_of(c);
                if k + 1 < ch.len() {
                    let s = ch[k + 1];
                    lemma_index_of_unique(ch, k + 1);
                } else {
                    t.lemma_children(p);
                }
            }
        },
    }
}

/// Stepping backward then forward in a traversal comes back.
pub proof fn law_traversal_next_undoes_prev(t: Tree, e: DepthFirstTraversed)
    requires
        t.wf(),
        t.contains(event_node(e)),
    ensures
        traversal_prev(t, e) matches Some(f) ==> t.contains(event_node(f)) && traversal_next(t, f) == Some(e),
{
    match e {
        DepthFirstTraversed::Close(c) => {
            t.lemma_children(c);
            let ch = t.children_of(c);
            if ch.len() > 0 {
                let d = ch.last();
                lemma_position(t, d);
                lemma_index_of_unique(ch, ch.len() - 1);
            }
        },
        DepthFirstTraversed::Open(c) => {
            t.lemma_parent(c);
            if let Some(p) = t.parent_of(c) {
                lemma_position(t, c);
                let ch = t.children_of(p);
                let k = ch.index_of(c);
                if k > 0 {
                    lemma_index_of_unique(ch, k - 1);
                } else {
                    t.lemma_children(p);
                }
            }
        },
    }
}

impl DepthFirstTraversed {
    /// Returns the node ID.
    pub fn node_id(self) -> (r: NodeId)
        ensures
            r == event_node(self),
    {
        match self {
            Self::Open(id) => id,
            Self::Close(id) => id,
        }
    }

    /// Returns true if the event is node open.
    pub fn is_open(self) -> (r: bool)
        ensures
            r == (self is Open),
    {
        matches!(self, Self::Open(_))
    }

    /// Returns true if the event is node close.
    pub fn is_close(self) -> (r: bool)
        ensures
            r == (self is Close),
    {
        matches!(self, Self::Close(_))
    }

    /// Returns the opened node ID.
    pub fn node_id_open(self) -> (r: Option<NodeId>)
        ensures
            r == (match self {
                Self::Open(id) => Some(id),
                Self::Close(_) => None,
            }),
    {
        match self {
            Self::Open(id) => Some(id),
            Self::Close(_) => None,
        }
    }

    /// Returns the closed node ID.
    pub fn node_id_close(self) -> (r: Option<NodeId>)
        ensures
            r == (match self {
                Self::Open(_) => None,
                Self::Close(id) => Some(id),
            }),
    {
        match self {
            Self::Open(_) => None,
            Self::Close(id) => Some(id),
        }
    }

    /// Returns the next (forward) event; `None` for the closing of the root.
    pub fn next(self, tree: &Tree) -> (r: Option<Self>)
        requires
            tree.wf(),
            tree.contains(event_node(self)),
        ensures
            r == traversal_next(*tree, self),
            r matches Some(f) ==> tree.contains(event_node(f)),
    {
        proof {
            law_traversal_prev_undoes_next(*tree, self);
        }
        match self {
            Self::Open(current) => {
                let handle = current.to_handle(tree);
                match handle.first_child() {
                    Some(child) => Some(Self::Open(child.node_id())),
                    None => Some(Self::Close(current)),
                }
            },
            Self::Close(current) => {
                let node = current.to_handle(tree);
                match node.next_sibling() {
                    Some(next_sib) => Some(Self::Open(next_sib.node_id())),
                    None => match node.parent() {
                        Some(parent) => Some(Self::Close(parent.node_id())),
                        None => None,
                    },
                }
            },
        }
    }

    /// Returns the previous (backward next) event; `None` for the opening
    /// of the root.
    ///
    /// Backward traversal meets the `Close` of every node first, and its
    /// `Open` later.
    pub fn prev(self, tree: &Tree) -> (r: Option<Self>)
        requires
            tree.wf(),
            tree.contains(event_node(self)),
        ensures
            r == traversal_prev(*tree, self),
            r matches Some(f) ==> tree.contains(event_node(f)),
    {
        proof {
            law_traversal_next_undoes_prev(*tree, self);
        }
        match self {
            Self::Close(current) => {
                let handle = current.to_handle(tree);
                match handle.last_child() {
                    Some(child) => Some(Self::Close(child.node_id())),
                    None => Some(Self::Open(current)),
                }
            },
            Self::Open(current) => {
                let node = current.to_handle(tree);
                match node.previous_sibling() {
                    Some(prev_sib) => Some(Self::Close(prev_sib.node_id())),
                    None => match node.parent() {
                        Some(parent) => Some(Self::Open(parent.node_id())),
                        None => None,
                    },
                }
            },
        }
    }
}

/// Steps of a traversal add up.
proof fn lemma_reaches_trans(
    t: Tree,
    a: DepthFirstTraversed,
    b: DepthFirstTraversed,
    k1: nat,
    c: DepthFirstTraversed,
    k2: nat,
)
    requires
        traversal_reaches(t, a, b, k1),
        traversal_reaches(t, b, c, k2),
    ensures
        traversal_reaches(t, a, c, k1 + k2),
    decreases k1,
{
    if k1 > 0 {
        let n = traversal_next(t, a)->Some_0;
        lemma_reaches_trans(t, n, b, (k1 - 1) as nat, c, k2);
        assert((k1 + k2 - 1) as nat == ((k1 - 1) as nat + k2) as nat);
    }
}

/// The traversal of the subtree of `n` goes from its opening to its
/// closing.
proof fn lemma_subtree_run(t: Tree, n: NodeId) -> (k: nat)
    requires
        t.wf(),
        t.contains(n),
    ensures
        traversal_reaches(t, DepthFirstTraversed::Open(n), DepthFirstTraversed::Close(n), k),
    decreases t.node_count() - n.index(), t.children_of(n).len(),
{
    t.lemma_children(n);
    let ch = t.children_of(n);
    let open = DepthFirstTraversed::Open(n);
    let close = DepthFirstTraversed::Close(n);
    if ch.len() == 0 {
        assert(traversal_reaches(t, close, close, 0));
        1
    } else {
        let last = (ch.len() - 1) as int;
        let k1 = lemma_children_run(t, n, last);
        let first = DepthFirstTraversed::Open(ch[0]);
        let last_close = DepthFirstTraversed::Close(ch[last]);
        assert(traversal_reaches(t, first, first, 0));
        assert(traversal_reaches(t, open, first, 1));
        lemma_position(t, ch[last]);
        lemma_index_of_unique(ch, last);
        assert(traversal_next(t, last_close) == Some(close));
        assert(traversal_reaches(t, close, close, 0));
        assert(traversal_reaches(t, last_close, close, 1));
        lemma_reaches_trans(t, first, last_close, k1, close, 1);
        lemma_reaches_trans(t, open, first, 1, close, k1 + 1);
        1 + (k1 + 1)
    }
}

/// The traversal of the children of `n` goes from the opening of the first
/// to the closing of the one at `j`.
proof fn lemma_children_run(t: Tree, n: NodeId, j: int) -> (k: nat)
    requires
        t.wf(),
        t.contains(n),
        0 <= j < t.children_of(n).len(),
    ensures
        traversal_reaches(
            t,
            DepthFirstTraversed::Open(t.children_of(n)[0]),
            DepthFirstTraversed::Close(t.children_of(n)[j]),
            k,
        ),
    decreases t.node_count() - n.index(), j,
{
    t.lemma_children(n);
    let ch = t.children_of(n);
    let kj = lemma_subtree_run(t, ch[j]);
    if j == 0 {
        kj
    } else {
        let k0 = lemma_children_run(t, n, j - 1);
        let prev_close = DepthFirstTraversed::Close(ch[j - 1]);
        let open_j = DepthFirstTraversed::Open(ch[j]);
        lemma_position(t, ch[j - 1]);
        lemma_index_of_unique(ch, j - 1);
        assert(traversal_next(t, prev_close) == Some(open_j));
        assert(traversal_reaches(t, open_j, open_j, 0));
        assert(traversal_reaches(t, prev_close, open_j, 1));
        lemma_reaches_trans(t, DepthFirstTraversed::Open(ch[0]), prev_close, k0, open_j, 1);
        lemma_reaches_trans(
            t,
            DepthFirstTraversed::Open(ch[0]),
            open_j,
            k0 + 1,
            DepthFirstTraversed::Close(ch[j]),
            kj,
        );
        k0 + 1 + kj
    }
}

/// The depth-first traversal from the opening of a node reaches its
/// closing.
pub proof fn law_subtree_traversal_ends(t: Tree, n: NodeId)
    requires
        t.wf(),
        t.contains(n),
    ensures
        exists|k: nat|
            traversal_reaches(t, DepthFirstTraversed::Open(n), DepthFirstTraversed::Close(n), k),
{
    let k = lemma_subtree_run(t, n);
}

/// The events of the depth-first traversal of the subtree of `n`: its
/// opening, the events of the subtrees of its children in order, and its
/// closing.
pub open spec fn subtree_events(t: Tree, n: NodeId) -> Seq<DepthFirstTraversed>
    decreases t.node_count() - n.index(), 1int, 0int,
{
    seq![DepthFirstTraversed::Open(n)] + children_events(t, n, t.children_of(n).len() as int)
        + seq![DepthFirstTraversed::Close(n)]
}

/// The events of the subtrees of the first `j` children of `n`, in order
/// (a child is taken only when it comes after `n` in the tree, as the
/// children of a well-formed tree do).
pub open spec fn children_events(t: Tree, n: NodeId, j: int) -> Seq<DepthFirstTraversed>
    decreases t.node_count() - n.index(), 0int, j,
{
    if j <= 0 {
        Seq::empty()
    } else {
        let c = t.children_of(n)[j - 1];
        children_events(t, n, j - 1) + if n.index() < c.index() <= t.node_count() {
            subtree_events(t, c)
        } else {
            Seq::empty()
        }
    }
}

/// The traversal from the opening of the first child of `n` goes through
/// the events of the subtrees of its first `j` children, one per step.
proof fn lemma_children_walk(t: Tree, n: NodeId, j: int)
    requires
        t.wf(),
        t.contains(n),
        1 <= j <= t.children_of(n).len(),
    ensures
        ({
            let ev = children_events(t, n, j);
            &&& ev.len() >= 2
            &&& ev.last() == DepthFirstTraversed::Close(t.children_of(n)[j - 1])
            &&& forall|i: int|
                0 <= i < ev.len() ==> traversal_reaches(
                    t,
                    DepthFirstTraversed::Open(t.children_of(n)[0]),
                    #[trigger] ev[i],
                    i as nat,
                )
        }),
    decreases t.node_count() - n.index(), 0int, j,
{
    t.lemma_children(n);
    let ch = t.children_of(n);
    let c = ch[j - 1];
    lemma_subtree_walk(t, c);
    let sub = subtree_events(t, c);
    let ev = children_events(t, n, j);
    let first = DepthFirstTraversed::Open(ch[0]);
    if j == 1 {
        assert(children_events(t, n, 0) =~= Seq::<DepthFirstTraversed>::empty());
        assert(ev =~= sub);
    } else {
        lemma_children_walk(t, n, j - 1);
        let prev = children_events(t, n, j - 1);
        let l = prev.len() as int;
        assert(ev =~= prev + sub);
        let prev_close = DepthFirstTraversed::Close(ch[j - 2]);
        let open_j = DepthFirstTraversed::Open(c);
        lemma_position(t, ch[j - 2]);
        lemma_index_of_unique(ch, j - 2);
        assert(traversal_next(t, prev_close) == Some(open_j));
        assert(traversal_reaches(t, open_j, open_j, 0));
        assert(traversal_reaches(t, prev_close, open_j, 1));
        assert(prev[l - 1] == prev_close);
        assert(traversal_reaches(t, first, prev[l - 1], (l - 1) as nat));
        lemma_reaches_trans(t, first, prev_close, (l - 1) as nat, open_j, 1);
        assert forall|i: int| 0 <= i < ev.len() implies traversal_reaches(t, first, #[trigger] ev[i], i as nat) by {
            if i < l {
                assert(ev[i] == prev[i]);
                assert(traversal_reaches(t, first, prev[i], i as nat));
            } else {
                assert(ev[i] == sub[i - l]);
                assert(traversal_reaches(t, open_j, sub[i - l], (i - l) as nat));
                lemma_reaches_trans(t, first, open_j, l as nat, sub[i - l], (i - l) as nat);
            }
        }
    }
}

/// The traversal from the opening of `n` goes through the events of the
/// subtree of `n`, one per step.
proof fn lemma_subtree_walk(t: Tree, n: NodeId)
    requires
        t.wf(),
        t.contains(n),
    ensures
        ({
            let ev = subtree_events(t, n);
            &&& ev.len() >= 2
            &&& ev[0] == DepthFirstTraversed::Open(n)
            &&& ev.last() == DepthFirstTraversed::Close(n)
            &&& forall|i: int|
                0 <= i < ev.len() ==> traversal_reaches(
                    t,
                    DepthFirstTraversed::Open(n),
                    #[trigger] ev[i],
                    i as nat,
                )
        }),
    decreases t.node_count() - n.index(), 1int, 0int,
{
    t.lemma_children(n);
    let ch = t.children_of(n);
    let ev = subtree_events(t, n);
    let open = DepthFirstTraversed::Open(n);
    let close = DepthFirstTraversed::Close(n);
    let cev = children_events(t, n, ch.len() as int);
    assert(ev =~= seq![open] + cev + seq![close]);
    assert(traversal_reaches(t, open, open, 0));
    if ch.len() == 0 {
        assert(cev =~= Seq::<DepthFirstTraversed>::empty());
        assert(traversal_reaches(t, close, close, 0));
        assert(traversal_reaches(t, open, close, 1));
    } else {
        lemma_children_walk(t, n, ch.len() as int);
        let l = cev.len() as int;
        let first = DepthFirstTraversed::Open(ch[0]);
        let last_close = DepthFirstTraversed::Close(ch[ch.len() - 1]);
        assert(traversal_reaches(t, first, first, 0));
        assert(traversal_reaches(t, open, first, 1));
        lemma_position(t, ch[ch.len() - 1]);
        lemma_index_of_unique(ch, ch.len() - 1);
        assert(traversal_next(t, last_close) == Some(close));
        assert(traversal_reaches(t, close, close, 0));
        assert(traversal_reaches(t, last_close, close, 1));
        assert(cev[l - 1] == last_close);
        assert(traversal_reaches(t, first, cev[l - 1], (l - 1) as nat));
        lemma_reaches_trans(t, first, last_close, (l - 1) as nat, close, 1);
        lemma_reaches_trans(t, open, first, 1, close, l as nat);
        assert forall|i: int| 0 <= i < ev.len() implies traversal_reaches(t, open, #[trigger] ev[i], i as nat) by {
            if i == 0 {
            } else if i <= l {
                assert(ev[i] == cev[i - 1]);
                assert(traversal_reaches(t, first, cev[i - 1], (i - 1) as nat));
                lemma_reaches_trans(t, open, first, 1, cev[i - 1], (i - 1) as nat);
            } else {
                assert(ev[i] == close);
            }
        }
    }
}

/// The depth-first traversal from the opening of a node goes through the
/// events of its subtree (`subtree_events`), one per step and in order: the
/// opening of the node, then the subtree of each child in turn, then the
/// closing of the node.
pub proof fn law_subtree_traversal_order(t: Tree, n: NodeId)
    requires
        t.wf(),
        t.contains(n),
    ensures
        subtree_events(t, n)[0] == DepthFirstTraversed::Open(n),
        subtree_events(t, n).last() == DepthFirstTraversed::Close(n),
        forall|i: int|
            0 <= i < subtree_events(t, n).len() ==> traversal_reaches(
                t,
                DepthFirstTraversed::Open(n),
                #[trigger] subtree_events(t, n)[i],
                i as nat,
            ),
{
    lemma_subtree_walk(t, n);
}

/// `m` is `c` or a descendant of `c`: going up from `m` by parents reaches
/// `c`.
pub open spec fn is_under(t: Tree, m: NodeId, c: NodeId) -> bool
    decreases m.index(),
{
    if m == c {
        true
    } else {
        match t.parent_of(m) {
            Some(p) => if 0 <= p.index() < m.index() {
                is_under(t, p, c)
            } else {
                false
            },
            None => false,
        }
    }
}

/// A descendant comes after its ancestor.
proof fn lemma_under_index(t: Tree, m: NodeId, c: NodeId)
    requires
        is_under(t, m, c),
    ensures
        m.index() >= c.index(),
    decreases m.index(),
{
    if m != c {
        let p = t.parent_of(m)->Some_0;
        lemma_under_index(t, p, c);
    }
}

/// Being under is transitive.
proof fn lemma_under_trans(t: Tree, m: NodeId, a: NodeId, b: NodeId)
    requires
        is_under(t, m, a),
        is_under(t, a, b),
    ensures
        is_under(t, m, b),
    decreases m.index(),
{
    if m != a {
        let p = t.parent_of(m)->Some_0;
        lemma_under_trans(t, p, a, b);
        if m == b {
        }
    }
}

/// A child of `n` in a well-formed tree is under `n`.
proof fn lemma_child_under(t: Tree, n: NodeId, k: int)
    requires
        t.wf(),
        t.contains(n),
        0 <= k < t.children_of(n).len(),
    ensures
        is_under(t, t.children_of(n)[k], n),
        t.parent_of(t.children_of(n)[k]) == Some(n),
{
    t.lemma_children(n);
    let c = t.children_of(n)[k];
    NodeId::lemma_index_unique(c, n);
    t.lemma_contains(n);
    assert(0 <= n.index() < c.index());
    assert(is_under(t, n, n));
}

/// No node is under two different children of the same node.
proof fn lemma_under_siblings(t: Tree, m: NodeId, n: NodeId, c1: NodeId, c2: NodeId)
    requires
        t.wf(),
        t.contains(n),
        t.children_of(n).contains(c1),
        t.children_of(n).contains(c2),
        is_under(t, m, c1),
        is_under(t, m, c2),
    ensures
        c1 == c2,
    decreases m.index(),
{
    t.lemma_children(n);
    let ch = t.children_of(n);
    let k1 = ch.index_of(c1);
    let k2 = ch.index_of(c2);
    lemma_child_under(t, n, k1);
    lemma_child_under(t, n, k2);
    if c1 != c2 {
        if m == c1 {
            // c1 is under c2, and c1's parent n comes before c2.
            NodeId::lemma_index_unique(c1, c2);
            let p = t.parent_of(c1)->Some_0;
            assert(p == n);
            lemma_under_index(t, n, c2);
        } else if m == c2 {
            NodeId::lemma_index_unique(c1, c2);
            let p = t.parent_of(c2)->Some_0;
            assert(p == n);
            lemma_under_index(t, n, c1);
        } else {
            let p = t.parent_of(m)->Some_0;
            lemma_under_siblings(t, p, n, c1, c2);
        }
    }
}

/// Two lists without duplicates and without a common element make a list
/// without duplicates.
proof fn lemma_concat_no_dup(a: Seq<DepthFirstTraversed>, b: Seq<DepthFirstTraversed>)
    requires
        a.no_duplicates(),
        b.no_duplicates(),
        forall|i: int, j: int| 0 <= i < a.len() && 0 <= j < b.len() ==> a[i] != b[j],
    ensures
        (a + b).no_duplicates(),
{
    let c = a + b;
    assert forall|i: int, j: int| 0 <= i < c.len() && 0 <= j < c.len() && i != j implies c[i] != c[j] by {
        if i < a.len() && j < a.len() {
        } else if i >= a.len() && j >= a.len() {
            assert(c[i] == b[i - a.len()] && c[j] == b[j - a.len()]);
        } else if i < a.len() {
            assert(c[j] == b[j - a.len()]);
        } else {
            assert(c[i] == b[i - a.len()]);
        }
    }
}

/// The events of the subtrees of the first `j` children of `n` are about
/// nodes each under one of those children, and none comes twice.
proof fn lemma_children_events_once(t: Tree, n: NodeId, j: int)
    requires
        t.wf(),
        t.contains(n),
        0 <= j <= t.children_of(n).len(),
    ensures
        children_events(t, n, j).no_duplicates(),
        forall|i: int|
            0 <= i < children_events(t, n, j).len() ==> exists|k: int|
                0 <= k < j && is_under(
                    t,
                    event_node(#[trigger] children_events(t, n, j)[i]),
                    t.children_of(n)[k],
                ),
    decreases t.node_count() - n.index(), 0int, j,
{
    t.lemma_children(n);
    let ch = t.children_of(n);
    if j > 0 {
        lemma_children_events_once(t, n, j - 1);
        let c = ch[j - 1];
        lemma_subtree_events_once(t, c);
        let prev = children_events(t, n, j - 1);
        let sub = subtree_events(t, c);
        let ev = children_events(t, n, j);
        assert(ev =~= prev + sub);
        assert forall|i: int, l: int| 0 <= i < prev.len() && 0 <= l < sub.len() implies prev[i] != sub[l] by {
            let k = choose|k: int| 0 <= k < j - 1 && is_under(t, event_node(prev[i]), ch[k]);
            assert(is_under(t, event_node(sub[l]), c));
            if prev[i] == sub[l] {
                lemma_under_siblings(t, event_node(prev[i]), n, ch[k], c);
                assert(ch[k] == ch[j - 1]);
            }
        }
        lemma_concat_no_dup(prev, sub);
        assert forall|i: int| 0 <= i < ev.len() implies exists|k: int|
            0 <= k < j && is_under(t, event_node(#[trigger] ev[i]), ch[k]) by {
            if i < prev.len() {
                assert(ev[i] == prev[i]);
                let k = choose|k: int| 0 <= k < j - 1 && is_under(t, event_node(prev[i]), ch[k]);
                assert(0 <= k < j && is_under(t, event_node(ev[i]), ch[k]));
            } else {
                assert(ev[i] == sub[i - prev.len()]);
                assert(is_under(t, event_node(ev[i]), ch[j - 1]));
            }
        }
    }
}

/// The events of the subtree of `n` are about nodes under `n`, and none
/// comes twice.
proof fn lemma_subtree_events_once(t: Tree, n: NodeId)
    requires
        t.wf(),
        t.contains(n),
    ensures
        subtree_events(t, n).no_duplicates(),
        forall|i: int|
            0 <= i < subtree_events(t, n).len() ==> is_under(
                t,
                event_node(#[trigger] subtree_events(t, n)[i]),
                n,
            ),
    decreases t.node_count() - n.index(), 1int, 0int,
{
    t.lemma_children(n);
    let ch = t.children_of(n);
    lemma_children_events_once(t, n, ch.len() as int);
    let cev = children_events(t, n, ch.len() as int);
    let open = DepthFirstTraversed::Open(n);
    let close = DepthFirstTraversed::Close(n);
    let ev = subtree_events(t, n);
    assert(ev =~= seq![open] + cev + seq![close]);
    assert(is_under(t, n, n));
    // Every event of the children is under a child, so after `n`.
    assert forall|i: int| 0 <= i < cev.len() implies is_under(t, event_node(#[trigger] cev[i]), n)
        && event_node(cev[i]) != n by {
        let k = choose|k: int| 0 <= k < ch.len() && is_under(t, event_node(cev[i]), ch[k]);
        lemma_child_under(t, n, k);
        lemma_under_trans(t, event_node(cev[i]), ch[k], n);
        lemma_under_index(t, event_node(cev[i]), ch[k]);
        NodeId::lemma_index_unique(event_node(cev[i]), n);
    }
    assert forall|i: int| 0 <= i < cev.len() implies cev[i] != open && cev[i] != close by {
        assert(event_node(cev[i]) != n);
    }
    lemma_concat_no_dup(seq![open], cev);
    lemma_concat_no_dup(seq![open] + cev, seq![close]);
    assert forall|i: int| 0 <= i < ev.len() implies is_under(t, event_node(#[trigger] ev[i]), n) by {
        if 0 < i < ev.len() - 1 {
            assert(ev[i] == cev[i - 1]);
        }
    }
}

/// The events of the subtree of a node `m` under `n` are among those of the
/// subtree of `n`.
proof fn lemma_subtree_events_inside(t: Tree, m: NodeId, n: NodeId)
    requires
        t.wf(),
        t.contains(m),
        is_under(t, m, n),
    ensures
        forall|e: DepthFirstTraversed| #[trigger] subtree_events(t, m).contains(e) ==> subtree_events(t, n).contains(e),
    decreases m.index(),
{
    if m != n {
        t.lemma_parent(m);
        let p = t.parent_of(m)->Some_0;
        lemma_subtree_events_inside(t, p, n);
        t.lemma_children(p);
        let ch = t.children_of(p);
        let k = ch.index_of(m);
        lemma_child_in_children_events(t, p, k, ch.len() as int);
        let ev = subtree_events(t, p);
        let cev = children_events(t, p, ch.len() as int);
        assert(ev =~= seq![DepthFirstTraversed::Open(p)] + cev + seq![DepthFirstTraversed::Close(p)]);
        assert forall|e: DepthFirstTraversed| #[trigger] subtree_events(t, m).contains(e) implies subtree_events(t, n).contains(e) by {
            assert(cev.contains(e));
            let i = choose|i: int| 0 <= i < cev.len() && cev[i] == e;
            assert(ev[i + 1] == e);
            assert(ev.contains(e));
        }
    }
}

/// The events of the subtree of the child at `k` are among those of the
/// subtrees of the first `j` children, for `k < j`.
proof fn lemma_child_in_children_events(t: Tree, n: NodeId, k: int, j: int)
    requires
        t.wf(),
        t.contains(n),
        0 <= k < j <= t.children_of(n).len(),
    ensures
        forall|e: DepthFirstTraversed|
            #[trigger] subtree_events(t, t.children_of(n)[k]).contains(e) ==> children_events(t, n, j).contains(e),
    decreases j,
{
    t.lemma_children(n);
    let ch = t.children_of(n);
    let prev = children_events(t, n, j - 1);
    let sub = subtree_events(t, ch[j - 1]);
    assert(children_events(t, n, j) =~= prev + sub);
    if k < j - 1 {
        lemma_child_in_children_events(t, n, k, j - 1);
        assert forall|e: DepthFirstTraversed| #[trigger] subtree_events(t, ch[k]).contains(e) implies children_events(t, n, j).contains(e) by {
            let i = choose|i: int| 0 <= i < prev.len() && prev[i] == e;
            assert((prev + sub)[i] == e);
        }
    } else {
        assert forall|e: DepthFirstTraversed| #[trigger] subtree_events(t, ch[k]).contains(e) implies children_events(t, n, j).contains(e) by {
            let i = choose|i: int| 0 <= i < sub.len() && sub[i] == e;
            assert((prev + sub)[prev.len() + i] == e);
        }
    }
}

/// The depth-first traversal of the subtree of a node meets each node under
/// it exactly once as an opening and once as a closing: the events of the
/// subtree (`subtree_events`, which the traversal goes through in order, see
/// `law_subtree_traversal_order`) hold no event twice, are all about nodes
/// under the node, and hold the opening and the closing of every node under
/// it.
pub proof fn law_subtree_traversal_once(t: Tree, n: NodeId)
    requires
        t.wf(),
        t.contains(n),
    ensures
        subtree_events(t, n).no_duplicates(),
        forall|i: int|
            0 <= i < subtree_events(t, n).len() ==> is_under(
                t,
                event_node(#[trigger] subtree_events(t, n)[i]),
                n,
            ),
        forall|m: NodeId|
            t.contains(m) && #[trigger] is_under(t, m, n) ==> subtree_events(t, n).contains(
                DepthFirstTraversed::Open(m),
            ) && subtree_events(t, n).contains(DepthFirstTraversed::Close(m)),
{
    lemma_subtree_events_once(t, n);
    assert forall|m: NodeId| t.contains(m) && #[trigger] is_under(t, m, n) implies subtree_events(t, n).contains(
        DepthFirstTraversed::Open(m),
    ) && subtree_events(t, n).contains(DepthFirstTraversed::Close(m)) by {
        lemma_subtree_walk(t, m);
        let ev = subtree_events(t, m);
        assert(ev.contains(ev[0]));
        assert(ev.contains(ev[ev.len() - 1]));
        lemma_subtree_events_inside(t, m, n);
    }
}

/// Every event of a traversal run is an event of the tree.
proof fn lemma_reaches_contains(t: Tree, a: DepthFirstTraversed, b: DepthFirstTraversed, k: nat)
    requires
        t.wf(),
        t.contains(event_node(a)),
        traversal_reaches(t, a, b, k),
    ensures
        t.contains(event_node(b)),
    decreases k,
{
    if k > 0 {
        law_traversal_prev_undoes_next(t, a);
        lemma_reaches_contains(t, traversal_next(t, a)->Some_0, b, (k - 1) as nat);
    }
}

/// A run of at least one step ends with a step from the event before its
/// end.
proof fn lemma_reaches_last(t: Tree, a: DepthFirstTraversed, b: DepthFirstTraversed, k: nat) -> (p: DepthFirstTraversed)
    requires
        t.wf(),
        t.contains(event_node(a)),
        traversal_reaches(t, a, b, k),
        k >= 1,
    ensures
        t.contains(event_node(p)),
        traversal_next(t, p) == Some(b),
        traversal_reaches(t, a, p, (k - 1) as nat),
    decreases k,
{
    law_traversal_prev_undoes_next(t, a);
    let n = traversal_next(t, a)->Some_0;
    if k == 1 {
        assert(traversal_reaches(t, n, b, 0));
        assert(traversal_reaches(t, a, a, 0));
        a
    } else {
        let p = lemma_reaches_last(t, n, b, (k - 1) as nat);
        assert(traversal_reaches(t, a, p, (k - 1) as nat)) by {
            assert(((k - 1) as nat - 1) as nat == (k - 2) as nat);
        }
        p
    }
}

/// Moves a cursor, forward or backward, until it passes an opening (or a
/// closing, as `open` says): gives that event's node, or `None` once the
/// cursors have met, with the cursors after the move. `fuel` bounds the
/// steps.
pub open spec fn traversal_scan(
    t: Tree,
    c: Option<(DepthFirstTraversed, DepthFirstTraversed)>,
    forward: bool,
    open: bool,
    fuel: nat,
) -> (Option<NodeId>, Option<(DepthFirstTraversed, DepthFirstTraversed)>)
    decreases fuel,
{
    match c {
        None => (None, None),
        Some((f, b)) => {
            let e = if forward {
                f
            } else {
                b
            };
            let after = if f == b {
                None
            } else if forward {
                Some((traversal_next(t, f)->Some_0, b))
            } else {
                Some((f, traversal_prev(t, b)->Some_0))
            };
            if (e is Open) == open {
                (Some(event_node(e)), after)
            } else if fuel == 0 {
                (None, after)
            } else {
                traversal_scan(t, after, forward, open, (fuel - 1) as nat)
            }
        },
    }
}

/// A type to traverse a node and its descendants in depth-first order.
///
/// It has a forward cursor and a backward cursor: at first the forward one
/// is at the opening of the node and the backward one at its closing. Each
/// moves toward the other; once they have met, every event has been given.
#[derive(Debug, Clone, Copy)]
pub struct DepthFirstTraverseSubtree {
    /// Next (forward and backward) events to return.
    cursors: Option<(DepthFirstTraversed, DepthFirstTraversed)>,
}

impl DepthFirstTraverseSubtree {
    /// The forward and backward cursors; `None` once every event was given.
    pub closed spec fn spec_cursors(self) -> Option<(DepthFirstTraversed, DepthFirstTraversed)> {
        self.cursors
    }

    /// The event at the forward cursor.
    pub open spec fn spec_forward(self) -> Option<DepthFirstTraversed> {
        match self.spec_cursors() {
            Some((f, _)) => Some(f),
            None => None,
        }
    }

    /// The event at the backward cursor.
    pub open spec fn spec_backward(self) -> Option<DepthFirstTraversed> {
        match self.spec_cursors() {
            Some((_, b)) => Some(b),
            None => None,
        }
    }

    /// The cursors are events of `t`, the forward one at or before the
    /// backward one.
    pub open spec fn valid_in(self, t: Tree) -> bool {
        match self.spec_cursors() {
            None => true,
            Some((f, b)) => {
                &&& t.contains(event_node(f))
                &&& t.contains(event_node(b))
                &&& exists|k: nat| traversal_reaches(t, f, b, k)
            },
        }
    }

    /// Where the cursors are after the forward one has moved.
    pub open spec fn spec_after_forward(self, t: Tree) -> Option<(DepthFirstTraversed, DepthFirstTraversed)> {
        match self.spec_cursors() {
            None => None,
            Some((f, b)) => if f == b {
                None
            } else {
                Some((traversal_next(t, f)->Some_0, b))
            },
        }
    }

    /// Where the cursors are after the backward one has moved.
    pub open spec fn spec_after_backward(self, t: Tree) -> Option<(DepthFirstTraversed, DepthFirstTraversed)> {
        match self.spec_cursors() {
            None => None,
            Some((f, b)) => if f == b {
                None
            } else {
                Some((f, traversal_prev(t, b)->Some_0))
            },
        }
    }

    /// Creates a new object for the subtree of `root`.
    pub(crate) fn with_root_id(root: NodeId) -> (r: Self)
        ensures
            r.spec_cursors() == Some((DepthFirstTraversed::Open(root), DepthFirstTraversed::Close(root))),
    {
        Self { cursors: Some((DepthFirstTraversed::Open(root), DepthFirstTraversed::Close(root))) }
    }

    /// Returns the forward next traversal event and advances the forward
    /// cursor.
    pub fn next_forward(&mut self, tree: &Tree) -> (r: Option<DepthFirstTraversed>)
        requires
            tree.wf(),
            old(self).valid_in(*tree),
        ensures
            r == old(self).spec_forward(),
            final(self).spec_cursors() == old(self).spec_after_forward(*tree),
            final(self).valid_in(*tree),
    {
        let (forward, backward) = match self.cursors {
            Some(c) => c,
            None => return None,
        };
        if forward == backward {
            self.cursors = None;
        } else {
            let ghost k = choose|k: nat| traversal_reaches(*tree, forward, backward, k);
            let next = forward.next(tree);
            proof {
                assert(k != 0);
                assert(traversal_reaches(*tree, next->Some_0, backward, (k - 1) as nat));
            }
            let next_of_next = match next {
                Some(n) => n,
                None => return Some(forward),
            };
            self.cursors = Some((next_of_next, backward));
        }
        Some(forward)
    }

    /// Returns the backward next traversal event and advances the backward
    /// cursor.
    pub fn next_backward(&mut self, tree: &Tree) -> (r: Option<DepthFirstTraversed>)
        requires
            tree.wf(),
            old(self).valid_in(*tree),
        ensures
            r == old(self).spec_backward(),
            final(self).spec_cursors() == old(self).spec_after_backward(*tree),
            final(self).valid_in(*tree),
    {
        let (forward, backward) = match self.cursors {
            Some(c) => c,
            None => return None,
        };
        if forward == backward {
            self.cursors = None;
        } else {
            let ghost k = choose|k: nat| traversal_reaches(*tree, forward, backward, k);
            proof {
                assert(k != 0);
                let p = lemma_reaches_last(*tree, forward, backward, k);
                law_traversal_prev_undoes_next(*tree, p);
            }
            let prev = backward.prev(tree);
            let next_of_next = match prev {
                Some(p) => p,
                None => return Some(backward),
            };
            self.cursors = Some((forward, next_of_next));
        }
        Some(backward)
    }

    /// Returns the forward next traversal event without advancing the
    /// cursor.
    pub fn peek_forward(&self) -> (r: Option<DepthFirstTraversed>)
        ensures
            r == self.spec_forward(),
    {
        match self.cursors {
            Some((forward, _backward)) => Some(forward),
            None => None,
        }
    }

    /// Returns the backward next traversal event without advancing the
    /// cursor.
    pub fn peek_backward(&self) -> (r: Option<DepthFirstTraversed>)
        ensures
            r == self.spec_backward(),
    {
        match self.cursors {
            Some((_forward, backward)) => Some(backward),
            None => None,
        }
    }
}

impl DepthFirstTraverseSubtree {
    /// One more than the number of steps from the forward cursor to the
    /// backward one; zero once every event was given.
    pub open spec fn spec_fuel(self, t: Tree) -> nat {
        match self.spec_cursors() {
            None => 0,
            Some((f, b)) => (choose|k: nat| traversal_reaches(t, f, b, k)) + 1,
        }
    }

    /// Moves a cursor until it passes an opening or a closing.
    fn scan(&mut self, tree: &Tree, forward: bool, open: bool) -> (r: Option<NodeId>)
        requires
            tree.wf(),
            old(self).valid_in(*tree),
        ensures
            final(self).valid_in(*tree),
            (r, final(self).spec_cursors()) == traversal_scan(
                *tree,
                old(self).spec_cursors(),
                forward,
                open,
                old(self).spec_fuel(*tree),
            ),
    {
        let ghost target = traversal_scan(*tree, self.spec_cursors(), forward, open, self.spec_fuel(*tree));
        let ghost mut fuel = self.spec_fuel(*tree);
        loop
            invariant
                tree.wf(),
                self.valid_in(*tree),
                traversal_scan(*tree, self.spec_cursors(), forward, open, fuel) == target,
                target == traversal_scan(
                    *tree,
                    old(self).spec_cursors(),
                    forward,
                    open,
                    old(self).spec_fuel(*tree),
                ),
                self.spec_cursors() matches Some((f, b)) ==> fuel >= 1 && traversal_reaches(
                    *tree,
                    f,
                    b,
                    (fuel - 1) as nat,
                ),
            decreases fuel,
        {
            let ghost c0 = self.spec_cursors();
            let e = if forward {
                self.next_forward(tree)
            } else {
                self.next_backward(tree)
            };
            let ev = match e {
                Some(ev) => ev,
                None => {
                    assert(traversal_scan(*tree, c0, forward, open, fuel) == (
                        None::<NodeId>,
                        None::<(DepthFirstTraversed, DepthFirstTraversed)>,
                    ));
                    return None;
                },
            };
            if ev.is_open() == open {
                proof {
                    let (f, b) = c0->Some_0;
                    let e0 = if forward {
                        f
                    } else {
                        b
                    };
                    assert(e0 == ev);
                    assert(traversal_scan(*tree, c0, forward, open, fuel) == (
                        Some(event_node(ev)),
                        self.spec_cursors(),
                    ));
                }
                return Some(ev.node_id());
            }
            proof {
                let (f, b) = c0->Some_0;
                if f != b {
                    let k = (fuel - 1) as nat;
                    if forward {
                        assert(traversal_reaches(*tree, traversal_next(*tree, f)->Some_0, b, (k - 1) as nat));
                    } else {
                        let p = lemma_reaches_last(*tree, f, b, k);
                        law_traversal_prev_undoes_next(*tree, p);
                    }
                }
                fuel = (fuel - 1) as nat;
            }
        }
    }

    /// Returns the node of the next forward `Open` event, advancing the
    /// forward cursor past it: the nodes of the subtree in preorder.
    pub fn next_open_forward(&mut self, tree: &Tree) -> (r: Option<NodeId>)
        requires
            tree.wf(),
            old(self).valid_in(*tree),
        ensures
            final(self).valid_in(*tree),
            (r, final(self).spec_cursors()) == traversal_scan(
                *tree,
                old(self).spec_cursors(),
                true,
                true,
                old(self).spec_fuel(*tree),
            ),
    {
        self.scan(tree, true, true)
    }

    /// Returns the node of the next forward `Close` event, advancing the
    /// forward cursor past it: the nodes of the subtree in postorder.
    pub fn next_close_forward(&mut self, tree: &Tree) -> (r: Option<NodeId>)
        requires
            tree.wf(),
            old(self).valid_in(*tree),
        ensures
            final(self).valid_in(*tree),
            (r, final(self).spec_cursors()) == traversal_scan(
                *tree,
                old(self).spec_cursors(),
                true,
                false,
                old(self).spec_fuel(*tree),
            ),
    {
        self.scan(tree, true, false)
    }

    /// Returns the node of the next backward `Open` event, advancing the
    /// backward cursor past it: the nodes of the subtree in reversed
    /// preorder.
    pub fn next_open_backward(&mut self, tree: &Tree) -> (r: Option<NodeId>)
        requires
            tree.wf(),
            old(self).valid_in(*tree),
        ensures
            final(self).valid_in(*tree),
            (r, final(self).spec_cursors()) == traversal_scan(
                *tree,
                old(self).spec_cursors(),
                false,
                true,
                old(self).spec_fuel(*tree),
            ),
    {
        self.scan(tree, false, true)
    }

    /// Returns the node of the next backward `Close` event, advancing the
    /// backward cursor past it: the nodes of the subtree in reversed
    /// postorder.
    pub fn next_close_backward(&mut self, tree: &Tree) -> (r: Option<NodeId>)
        requires
            tree.wf(),
            old(self).valid_in(*tree),
        ensures
            final(self).valid_in(*tree),
            (r, final(self).spec_cursors()) == traversal_scan(
                *tree,
                old(self).spec_cursors(),
                false,
                false,
                old(self).spec_fuel(*tree),
            ),
    {
        self.scan(tree, false, false)
    }
}

impl NodeId {
    /// Returns the helper object to traverse the subtree (the node itself
    /// and its descendants).
    pub fn traverse_depth_first(&self) -> (r: DepthFirstTraverseSubtree)
        ensures
            r.spec_cursors() == Some((DepthFirstTraversed::Open(*self), DepthFirstTraversed::Close(*self))),
    {
        DepthFirstTraverseSubtree::with_root_id(*self)
    }
}

} // verus!
