//! FBX data tree for v7.4 or later.

use indextree::Arena;
use vstd::prelude::*;

use crate::low::v7400::AttributeValue;

use self::arena::{
    arena_append, arena_children_of, arena_data_mut, arena_data_of, arena_parent_of, arena_insert_after, arena_insert_before, arena_new,
    arena_new_node, arena_nodes, arena_prepend, arena_replace_data, arena_siblings,
    interned_names, names_unique, node_at, NodeNames,
};
pub use self::compare::{
    attribute_same, attributes_same, law_strict_eq_reflexive, law_strict_eq_symmetric, subtrees_same,
};
pub use self::error::LoadError;
pub use self::handle::NodeHandle;
pub use self::loader::{
    node_loaded, spec_load_end, spec_load_step, LoadResult, spec_loadable_len, spec_run_step, spec_tree_loaded,
    Loader,
};
pub use self::node::{NodeData, NodeId};
pub use self::traverse::{
    children_events, event_node, is_under, law_subtree_traversal_ends,
    law_subtree_traversal_once, law_subtree_traversal_order, subtree_events,
    law_traversal_next_undoes_prev,
    law_traversal_prev_undoes_next, traversal_next, traversal_prev, traversal_reaches,
    DepthFirstTraverseSubtree, DepthFirstTraversed,
};

mod arena;
mod compare;
mod error;
mod handle;
mod loader;
mod node;
mod traverse;

verus! {

/// FBX data tree.
///
/// The root is implicit: it has the empty name, no attributes and no
/// parent, and it is the first node of the tree.
pub struct Tree {
    /// Tree data.
    arena: Arena<NodeData>,
    /// Node name interner.
    node_names: NodeNames,
    /// (Implicit) root node ID.
    root_id: NodeId,
}

/// The parent entry of the node in slot `i` points to a node before it,
/// which lists it as a child.
pub closed spec fn parent_entry_ok(nodes: Seq<(NodeData, Option<usize>, Seq<usize>)>, i: int) -> bool {
    match nodes[i].1 {
        Some(q) => 1 <= q <= i && nodes[q - 1].2.contains((i + 1) as usize),
        None => false,
    }
}

/// The child entry `k` of the node in slot `i` is a node after it, whose
/// parent is that node.
pub closed spec fn child_entry_ok(nodes: Seq<(NodeData, Option<usize>, Seq<usize>)>, i: int, k: int) -> bool {
    let c = nodes[i].2[k];
    &&& i + 1 < c <= nodes.len()
    &&& nodes[c - 1].1 == Some((i + 1) as usize)
}

impl Tree {
    /// The number of nodes, the root included.
    pub closed spec fn node_count(self) -> nat {
        arena_nodes(self.arena).len()
    }

    /// Whether the ID names a node of the tree.
    pub closed spec fn contains(self, id: NodeId) -> bool {
        1 <= id.0 <= self.node_count()
    }

    /// The ID of the root node.
    pub closed spec fn root_node(self) -> NodeId {
        self.root_id
    }

    /// The name of a node.
    pub closed spec fn name_of(self, id: NodeId) -> Seq<char> {
        interned_names(self.node_names)[node_at(self.arena, id.0 as int).0.name_sym as int]
    }

    /// The attributes of a node.
    pub closed spec fn attributes_of(self, id: NodeId) -> Seq<AttributeValue> {
        node_at(self.arena, id.0 as int).0.attributes@
    }

    /// The children of a node, in order.
    pub closed spec fn children_of(self, id: NodeId) -> Seq<NodeId> {
        node_at(self.arena, id.0 as int).2.map_values(|c: usize| NodeId(c))
    }

    /// The parent of a node; the root has none.
    pub closed spec fn parent_of(self, id: NodeId) -> Option<NodeId> {
        match node_at(self.arena, id.0 as int).1 {
            Some(p) => Some(NodeId(p)),
            None => None,
        }
    }

    /// Whether a node named `name` can be added as far as names go: the name
    /// is known already, or there is a symbol left for a new one (names are
    /// numbered with 32 bits).
    pub closed spec fn can_name(self, name: Seq<char>) -> bool {
        let names = interned_names(self.node_names);
        names.contains(name) || names.len() + 1 < u32::MAX
    }

    /// A tree holds no more distinct names than nodes, so that, with fewer
    /// than `u32::MAX - 1` nodes, every name can be added.
    pub proof fn lemma_name_room(self, name: Seq<char>)
        requires
            self.wf(),
        ensures
            self.node_count() + 1 < u32::MAX ==> self.can_name(name),
    {
    }

    /// The ID the next new node gets.
    pub closed spec fn next_id(self) -> NodeId {
        NodeId((self.node_count() + 1) as usize)
    }

    /// Well-formedness: the root comes first and has no parent; every other
    /// node has a parent that comes before it and lists it once among its
    /// children; every child entry points back to its parent; names are
    /// interned once each.
    pub closed spec fn wf(self) -> bool {
        let nodes = arena_nodes(self.arena);
        let names = interned_names(self.node_names);
        &&& self.root_id.0 == 1
        &&& 1 <= nodes.len() < usize::MAX
        &&& names.len() <= nodes.len()
        &&& names.len() < u32::MAX
        &&& names_unique(names)
        &&& nodes[0].1 is None
        &&& forall|i: int| 0 <= i < nodes.len() ==> (#[trigger] nodes[i]).0.name_sym < names.len()
        &&& forall|i: int| 1 <= i < nodes.len() ==> #[trigger] parent_entry_ok(nodes, i)
        &&& forall|i: int, k: int|
            0 <= i < nodes.len() && 0 <= k < nodes[i].2.len() ==> #[trigger] child_entry_ok(nodes, i, k)
        &&& forall|i: int| 0 <= i < nodes.len() ==> (#[trigger] nodes[i]).2.no_duplicates()
    }
}

/// What every node of `old` keeps in `new`: its name, its attributes and its
/// parent; and the root stays the root.
pub open spec fn keeps_nodes(old: Tree, new: Tree) -> bool {
    &&& new.root_node() == old.root_node()
    &&& forall|n: NodeId|
        #![trigger old.contains(n)]
        old.contains(n) ==> {
            &&& new.contains(n)
            &&& new.name_of(n) == old.name_of(n)
            &&& new.attributes_of(n) == old.attributes_of(n)
            &&& new.parent_of(n) == old.parent_of(n)
        }
}

/// Every node of `old` but `except` keeps its children in `new`.
pub open spec fn keeps_children_except(old: Tree, new: Tree, except: NodeId) -> bool {
    forall|n: NodeId|
        #![trigger old.contains(n)]
        old.contains(n) && n != except ==> new.children_of(n) == old.children_of(n)
}

/// `new` is `old` with one more node, `id`: named `name`, with no attributes
/// and no children, a child of `parent`, placed in the children of `parent`
/// as `children` says.
pub open spec fn node_added(
    old: Tree,
    new: Tree,
    id: NodeId,
    name: Seq<char>,
    parent: NodeId,
    children: Seq<NodeId>,
) -> bool {
    &&& new.wf()
    &&& id == old.next_id()
    &&& !old.contains(id)
    &&& new.contains(id)
    &&& new.node_count() == old.node_count() + 1
    &&& new.name_of(id) == name
    &&& new.attributes_of(id) == Seq::<AttributeValue>::empty()
    &&& new.children_of(id) == Seq::<NodeId>::empty()
    &&& new.parent_of(id) == Some(parent)
    &&& new.children_of(parent) == children
    &&& keeps_nodes(old, new)
    &&& keeps_children_except(old, new, parent)
}

/// Attaches a new node: `new` is `old` with one more node, the last one,
/// holding `d`, whose parent is `q`; the children of `q` become `l`, the
/// old children of `q` and the new node, each once.
proof fn lemma_attach_keeps_wf(old: Tree, new: Tree, q: usize, d: NodeData, l: Seq<usize>)
    requires
        old.wf(),
        1 <= q <= old.node_count(),
        old.node_count() + 1 < usize::MAX,
        new.root_id == old.root_id,
        ({
            let nodes = arena_nodes(old.arena);
            let p = nodes[q - 1];
            arena_nodes(new.arena) == nodes.push((d, Some(q), Seq::empty())).update(q - 1, (p.0, p.1, l))
        }),
        forall|x: usize|
            #[trigger] l.contains(x) <==> (arena_nodes(old.arena)[q - 1].2.contains(x) || x == old.node_count() + 1),
        l.no_duplicates(),
        ({
            let names = interned_names(old.node_names);
            let names2 = interned_names(new.node_names);
            &&& names2.len() <= names.len() + 1
            &&& names.len() <= names2.len()
            &&& names2.len() < u32::MAX
            &&& names2.take(names.len() as int) == names
            &&& names_unique(names2)
            &&& d.name_sym < names2.len()
        }),
    ensures
        new.wf(),
        keeps_nodes(old, new),
        forall|n: NodeId| #![trigger old.contains(n)] old.contains(n) ==> new.name_of(n) == old.name_of(n),
{
    let nodes = arena_nodes(old.arena);
    let nodes2 = arena_nodes(new.arena);
    let names = interned_names(old.node_names);
    let names2 = interned_names(new.node_names);
    let len = nodes.len() as int;
    assert(nodes2.len() == len + 1);
    assert forall|i: int| 0 <= i < nodes2.len() implies (#[trigger] nodes2[i]).0.name_sym < names2.len() by {
        if i < len {
            assert(nodes[i].0.name_sym < names.len());
        }
    }
    assert forall|i: int| 1 <= i < nodes2.len() implies #[trigger] parent_entry_ok(nodes2, i) by {
        if i < len {
            assert(parent_entry_ok(nodes, i));
            let pq = nodes[i].1->Some_0;
            if pq == q {
                assert(nodes[q - 1].2.contains((i + 1) as usize));
                assert(l.contains((i + 1) as usize));
            }
        } else {
            assert(l.contains((len + 1) as usize));
        }
    }
    assert forall|i: int, k: int|
        0 <= i < nodes2.len() && 0 <= k < nodes2[i].2.len() implies #[trigger] child_entry_ok(nodes2, i, k) by {
        if i == q - 1 {
            let c = l[k];
            assert(l.contains(c));
            if c != len + 1 {
                let j = choose|j: int| 0 <= j < nodes[q - 1].2.len() && #[trigger] nodes[q - 1].2[j] == c;
                assert(child_entry_ok(nodes, i, j));
            }
        } else if i < len {
            assert(child_entry_ok(nodes, i, k));
        }
    }
    assert forall|i: int| 0 <= i < nodes2.len() implies (#[trigger] nodes2[i]).2.no_duplicates() by {
        if i < len && i != q - 1 {
            assert(nodes[i].2.no_duplicates());
        }
    }
    assert forall|n: NodeId| #![trigger old.contains(n)] old.contains(n) implies {
        &&& new.contains(n)
        &&& new.name_of(n) == old.name_of(n)
        &&& new.attributes_of(n) == old.attributes_of(n)
        &&& new.parent_of(n) == old.parent_of(n)
    } by {
        let i = n.0 - 1;
        assert(nodes[i].0.name_sym < names.len());
        assert(names2[nodes[i].0.name_sym as int] == names.take(names.len() as int)[nodes[i].0.name_sym as int]) by {
            assert(names2.take(names.len() as int)[nodes[i].0.name_sym as int] == names2[nodes[i].0.name_sym as int]);
        }
    }
}

impl Tree {
    /// Interns the name and adds a detached node with it and no attributes.
    fn new_detached(&mut self, name: &str) -> (id: usize)
        requires
            old(self).wf(),
            old(self).node_count() + 1 < usize::MAX,
            old(self).can_name(name@),
        ensures
            id == old(self).node_count() + 1,
            final(self).root_id == old(self).root_id,
            ({
                let nodes = arena_nodes(old(self).arena);
                let nodes2 = arena_nodes(final(self).arena);
                let names = interned_names(old(self).node_names);
                let names2 = interned_names(final(self).node_names);
                let d = nodes2[nodes.len() as int].0;
                &&& nodes2 == nodes.push((d, None, Seq::empty()))
                &&& d.attributes@ == Seq::<AttributeValue>::empty()
                &&& names2[d.name_sym as int] == name@
                &&& names2.len() <= names.len() + 1
                &&& names.len() <= names2.len()
                &&& names2.len() < u32::MAX
                &&& names2.take(names.len() as int) == names
                &&& names_unique(names2)
                &&& d.name_sym < names2.len()
            }),
    {
        let ghost names = interned_names(self.node_names);
        let name_sym = self.node_names.get_or_intern(name);
        proof {
            let names2 = interned_names(self.node_names);
            if names.contains(name@) {
                assert(names2 == names);
                assert(names2.take(names.len() as int) =~= names);
            } else {
                assert(names2.take(names.len() as int) =~= names);
                assert forall|i: int, j: int|
                    0 <= i < names2.len() && 0 <= j < names2.len() && names2[i] == names2[j] implies i == j by {
                    if i < names.len() && j == names.len() {
                        assert(names.contains(names[i]));
                    }
                    if j < names.len() && i == names.len() {
                        assert(names.contains(names[j]));
                    }
                }
            }
        }
        arena_new_node(&mut self.arena, NodeData { name_sym, attributes: Vec::new() })
    }
}

/// Inserting a new id `m` at position `i` of a list of ids without
/// duplicates gives a list of the old ids and `m`, each once.
proof fn lemma_insert_id(cs: Seq<usize>, i: int, m: usize)
    requires
        0 <= i <= cs.len(),
        cs.no_duplicates(),
        !cs.contains(m),
    ensures
        ({
            let l = cs.take(i) + seq![m] + cs.skip(i);
            &&& l.len() == cs.len() + 1
            &&& l.no_duplicates()
            &&& forall|x: usize| #[trigger] l.contains(x) <==> (cs.contains(x) || x == m)
        }),
{
    let l = cs.take(i) + seq![m] + cs.skip(i);
    assert(l.len() == cs.len() + 1);
    assert forall|j: int| 0 <= j < l.len() implies #[trigger] l[j] == (if j < i {
        cs[j]
    } else if j == i {
        m
    } else {
        cs[j - 1]
    }) by {}
    assert forall|a: int, b: int| 0 <= a < l.len() && 0 <= b < l.len() && a != b implies l[a] != l[b] by {
        assert(l[a] == (if a < i { cs[a] } else if a == i { m } else { cs[a - 1] }));
        assert(l[b] == (if b < i { cs[b] } else if b == i { m } else { cs[b - 1] }));
        if a != i && b != i {
            let ia = if a < i { a } else { a - 1 };
            let ib = if b < i { b } else { b - 1 };
            assert(cs[ia] != cs[ib]);
        } else if a == i {
            let ib = if b < i { b } else { b - 1 };
            assert(cs.contains(cs[ib]));
        } else {
            let ia = if a < i { a } else { a - 1 };
            assert(cs.contains(cs[ia]));
        }
    }
    assert forall|x: usize| #[trigger] l.contains(x) <==> (cs.contains(x) || x == m) by {
        if l.contains(x) {
            let j = choose|j: int| 0 <= j < l.len() && l[j] == x;
            assert(l[j] == (if j < i { cs[j] } else if j == i { m } else { cs[j - 1] }));
            if j < i {
                assert(cs[j] == x);
            } else if j > i {
                assert(cs[j - 1] == x);
            }
        }
        if cs.contains(x) {
            let j = choose|j: int| 0 <= j < cs.len() && cs[j] == x;
            if j < i {
                assert(l[j] == (if j < i { cs[j] } else if j == i { m } else { cs[j - 1] }));
            } else {
                assert(l[j + 1] == (if j + 1 < i { cs[j + 1] } else if j + 1 == i { m } else { cs[j + 1 - 1] }));
            }
        }
        if x == m {
            assert(l[i] == (if i < i { cs[i] } else if i == i { m } else { cs[i - 1] }));
        }
    }
}

/// Mapping a list of ids to node IDs keeps the order.
proof fn lemma_ids_map(cs: Seq<usize>, i: int, m: usize)
    requires
        0 <= i <= cs.len(),
    ensures
        (cs.take(i) + seq![m] + cs.skip(i)).map_values(|c: usize| NodeId(c))
            == cs.map_values(|c: usize| NodeId(c)).take(i) + seq![NodeId(m)] + cs.map_values(|c: usize| NodeId(c)).skip(i),
{
    assert((cs.take(i) + seq![m] + cs.skip(i)).map_values(|c: usize| NodeId(c))
        =~= cs.map_values(|c: usize| NodeId(c)).take(i) + seq![NodeId(m)] + cs.map_values(|c: usize| NodeId(c)).skip(i));
}

impl Tree {
    /// Attaches the detached node `m` (the last one) under `q`, at position
    /// `i` of its children, through `attach`, and proves the result.
    proof fn lemma_attached(t0: Tree, t1: Tree, t2: Tree, q: usize, m: usize, i: int)
        requires
            t0.wf(),
            1 <= q <= t0.node_count(),
            t0.node_count() + 1 < usize::MAX,
            m == t0.node_count() + 1,
            0 <= i <= arena_nodes(t0.arena)[q - 1].2.len(),
            t1.root_id == t0.root_id,
            t2.root_id == t0.root_id,
            t2.node_names == t1.node_names,
            ({
                let nodes = arena_nodes(t0.arena);
                let nodes1 = arena_nodes(t1.arena);
                let names = interned_names(t0.node_names);
                let names2 = interned_names(t1.node_names);
                let d = nodes1[nodes.len() as int].0;
                &&& nodes1 == nodes.push((d, None, Seq::empty()))
                &&& names2.len() <= names.len() + 1
                &&& names.len() <= names2.len()
                &&& names2.len() < u32::MAX
                &&& names2.take(names.len() as int) == names
                &&& names_unique(names2)
                &&& d.name_sym < names2.len()
            }),
            ({
                let nodes1 = arena_nodes(t1.arena);
                let p = nodes1[q - 1];
                let n = nodes1[m - 1];
                arena_nodes(t2.arena) == nodes1.update(
                    q - 1,
                    (p.0, p.1, p.2.take(i) + seq![m] + p.2.skip(i)),
                ).update(m - 1, (n.0, Some(q), n.2))
            }),
        ensures
            t2.wf(),
            keeps_nodes(t0, t2),
            keeps_children_except(t0, t2, NodeId(q)),
            NodeId(m) == t0.next_id(),
            !t0.contains(NodeId(m)),
            t2.contains(NodeId(m)),
            t2.node_count() == t0.node_count() + 1,
            t2.name_of(NodeId(m)) == interned_names(t1.node_names)[arena_nodes(t1.arena)[m - 1].0.name_sym as int],
            t2.attributes_of(NodeId(m)) == arena_nodes(t1.arena)[m - 1].0.attributes@,
            t2.children_of(NodeId(m)) == Seq::<NodeId>::empty(),
            t2.parent_of(NodeId(m)) == Some(NodeId(q)),
            t2.children_of(NodeId(q)) == t0.children_of(NodeId(q)).take(i) + seq![NodeId(m)] + t0.children_of(
                NodeId(q),
            ).skip(i),
    {
        let nodes = arena_nodes(t0.arena);
        let p = nodes[q - 1];
        let d = arena_nodes(t1.arena)[nodes.len() as int].0;
        let l = p.2.take(i) + seq![m] + p.2.skip(i);
        assert(p.2.no_duplicates());
        assert forall|j: int| 0 <= j < p.2.len() implies p.2[j] != m by {
            assert(child_entry_ok(nodes, q - 1, j));
        }
        lemma_insert_id(p.2, i, m);
        assert(arena_nodes(t2.arena) =~= nodes.push((d, Some(q), Seq::empty())).update(q - 1, (p.0, p.1, l)));
        lemma_attach_keeps_wf(t0, t2, q, d, l);
        lemma_ids_map(p.2, i, m);
        assert(t2.children_of(NodeId(m)) =~= Seq::<NodeId>::empty());
        assert forall|n: NodeId| #![trigger t0.contains(n)] t0.contains(n) && n != NodeId(q) implies
            t2.children_of(n) == t0.children_of(n) by {
            assert(t2.children_of(n) =~= t0.children_of(n));
        }
    }

    /// Creates a new node and appends it to the given parent node.
    pub fn append_new(&mut self, parent: NodeId, name: &str) -> (id: NodeId)
        requires
            old(self).wf(),
            old(self).contains(parent),
            old(self).node_count() + 1 < usize::MAX,
            old(self).can_name(name@),
        ensures
            node_added(*old(self), *final(self), id, name@, parent, old(self).children_of(parent).push(id)),
    {
        let ghost t0 = *self;
        let m = self.new_detached(name);
        let ghost t1 = *self;
        arena_append(&mut self.arena, parent.0, m);
        proof {
            let cs = arena_nodes(t1.arena)[parent.0 - 1].2;
            assert(cs.push(m) =~= cs.take(cs.len() as int) + seq![m] + cs.skip(cs.len() as int));
            Tree::lemma_attached(t0, t1, *self, parent.0, m, cs.len() as int);
            let ch = t0.children_of(parent);
            assert(ch.take(ch.len() as int) + seq![NodeId(m)] + ch.skip(ch.len() as int) =~= ch.push(NodeId(m)));
        }
        NodeId(m)
    }

    /// Creates a new node and prepends it to the given parent node.
    pub fn prepend_new(&mut self, parent: NodeId, name: &str) -> (id: NodeId)
        requires
            old(self).wf(),
            old(self).contains(parent),
            old(self).node_count() + 1 < usize::MAX,
            old(self).can_name(name@),
        ensures
            node_added(*old(self), *final(self), id, name@, parent, seq![id] + old(self).children_of(parent)),
    {
        let ghost t0 = *self;
        let m = self.new_detached(name);
        let ghost t1 = *self;
        arena_prepend(&mut self.arena, parent.0, m);
        proof {
            let cs = arena_nodes(t1.arena)[parent.0 - 1].2;
            assert(seq![m] + cs =~= cs.take(0) + seq![m] + cs.skip(0));
            Tree::lemma_attached(t0, t1, *self, parent.0, m, 0);
            let ch = t0.children_of(parent);
            assert(ch.take(0) + seq![NodeId(m)] + ch.skip(0) =~= seq![NodeId(m)] + ch);
        }
        NodeId(m)
    }

    /// The parent of a node other than the root lists the node once among
    /// its children.
    proof fn lemma_sibling(self, sibling: NodeId)
        requires
            self.wf(),
            self.contains(sibling),
            sibling != self.root_node(),
        ensures
            ({
                let nodes = arena_nodes(self.arena);
                let q = nodes[sibling.0 - 1].1->Some_0;
                let cs = nodes[q - 1].2;
                let ch = self.children_of(NodeId(q));
                &&& nodes[sibling.0 - 1].1 is Some
                &&& 1 <= q < sibling.0
                &&& self.parent_of(sibling) == Some(NodeId(q))
                &&& cs.contains(sibling.0)
                &&& cs.no_duplicates()
                &&& ch.contains(sibling)
                &&& ch.index_of(sibling) == cs.index_of(sibling.0)
                &&& 0 <= cs.index_of(sibling.0) < cs.len()
                &&& cs[cs.index_of(sibling.0)] == sibling.0
            }),
    {
        let nodes = arena_nodes(self.arena);
        assert(parent_entry_ok(nodes, sibling.0 - 1));
        let q = nodes[sibling.0 - 1].1->Some_0;
        let cs = nodes[q - 1].2;
        let ch = self.children_of(NodeId(q));
        assert(cs.no_duplicates());
        let k = cs.index_of(sibling.0);
        assert(ch[k] == sibling);
        assert(ch.contains(sibling));
        let kk = ch.index_of(sibling);
        assert(cs[kk] == sibling.0);
    }

    /// Creates a new node and inserts it after the given sibling node.
    pub fn insert_new_after(&mut self, sibling: NodeId, name: &str) -> (id: NodeId)
        requires
            old(self).wf(),
            old(self).contains(sibling),
            sibling != old(self).root_node(),
            old(self).node_count() + 1 < usize::MAX,
            old(self).can_name(name@),
        ensures
            old(self).parent_of(sibling) is Some,
            ({
                let parent = old(self).parent_of(sibling)->Some_0;
                let ch = old(self).children_of(parent);
                let k = ch.index_of(sibling);
                &&& ch.contains(sibling)
                &&& node_added(*old(self), *final(self), id, name@, parent, ch.take(k + 1) + seq![id] + ch.skip(k + 1))
            }),
    {
        let ghost t0 = *self;
        proof {
            t0.lemma_sibling(sibling);
        }
        let m = self.new_detached(name);
        let ghost t1 = *self;
        proof {
            assert(arena_nodes(t1.arena)[sibling.0 - 1] == arena_nodes(t0.arena)[sibling.0 - 1]);
        }
        arena_insert_after(&mut self.arena, sibling.0, m);
        proof {
            let q = arena_nodes(t0.arena)[sibling.0 - 1].1->Some_0;
            let cs = arena_nodes(t0.arena)[q - 1].2;
            Tree::lemma_attached(t0, t1, *self, q, m, cs.index_of(sibling.0) + 1);
        }
        NodeId(m)
    }

    /// Creates a new node and inserts it before the given sibling node.
    pub fn insert_new_before(&mut self, sibling: NodeId, name: &str) -> (id: NodeId)
        requires
            old(self).wf(),
            old(self).contains(sibling),
            sibling != old(self).root_node(),
            old(self).node_count() + 1 < usize::MAX,
            old(self).can_name(name@),
        ensures
            old(self).parent_of(sibling) is Some,
            ({
                let parent = old(self).parent_of(sibling)->Some_0;
                let ch = old(self).children_of(parent);
                let k = ch.index_of(sibling);
                &&& ch.contains(sibling)
                &&& node_added(*old(self), *final(self), id, name@, parent, ch.take(k) + seq![id] + ch.skip(k))
            }),
    {
        let ghost t0 = *self;
        proof {
            t0.lemma_sibling(sibling);
        }
        let m = self.new_detached(name);
        let ghost t1 = *self;
        proof {
            assert(arena_nodes(t1.arena)[sibling.0 - 1] == arena_nodes(t0.arena)[sibling.0 - 1]);
        }
        arena_insert_before(&mut self.arena, sibling.0, m);
        proof {
            let q = arena_nodes(t0.arena)[sibling.0 - 1].1->Some_0;
            let cs = arena_nodes(t0.arena)[q - 1].2;
            Tree::lemma_attached(t0, t1, *self, q, m, cs.index_of(sibling.0));
        }
        NodeId(m)
    }
}

/// `new` is `old` with the attributes of `id` replaced by `attributes`:
/// every other node, and every name and link, is kept.
pub open spec fn attributes_replaced(old: Tree, new: Tree, id: NodeId, attributes: Seq<AttributeValue>) -> bool {
    &&& new.wf()
    &&& new.node_count() == old.node_count()
    &&& new.root_node() == old.root_node()
    &&& new.attributes_of(id) == attributes
    &&& forall|n: NodeId|
        #![trigger old.contains(n)]
        old.contains(n) ==> {
            &&& new.contains(n)
            &&& new.name_of(n) == old.name_of(n)
            &&& new.parent_of(n) == old.parent_of(n)
            &&& new.children_of(n) == old.children_of(n)
            &&& (n != id ==> new.attributes_of(n) == old.attributes_of(n))
        }
}

/// Replacing the data of a node by data with the same name keeps a tree
/// well-formed, and keeps everything but the node's attributes.
proof fn lemma_replaced_keeps_wf(t0: Tree, node_id: NodeId)
    requires
        t0.wf(),
        t0.contains(node_id),
    ensures
        forall|t: Tree, d: NodeData|
            #![trigger attributes_replaced(t0, t, node_id, d.attributes@)]
            t.node_names == t0.node_names && t.root_id == t0.root_id && d.name_sym == arena_nodes(
                t0.arena,
            )[node_id.0 - 1].0.name_sym && arena_nodes(t.arena) == arena_nodes(t0.arena).update(
                node_id.0 - 1,
                (d, arena_nodes(t0.arena)[node_id.0 - 1].1, arena_nodes(t0.arena)[node_id.0 - 1].2),
            ) ==> attributes_replaced(t0, t, node_id, d.attributes@),
{
    assert forall|t: Tree, d: NodeData|
        #![trigger attributes_replaced(t0, t, node_id, d.attributes@)]
        t.node_names == t0.node_names && t.root_id == t0.root_id && d.name_sym == arena_nodes(
            t0.arena,
        )[node_id.0 - 1].0.name_sym && arena_nodes(t.arena) == arena_nodes(t0.arena).update(
            node_id.0 - 1,
            (d, arena_nodes(t0.arena)[node_id.0 - 1].1, arena_nodes(t0.arena)[node_id.0 - 1].2),
        ) implies attributes_replaced(t0, t, node_id, d.attributes@) by {
        let nodes = arena_nodes(t0.arena);
        let nodes2 = arena_nodes(t.arena);
        assert forall|i: int| 0 <= i < nodes2.len() implies (#[trigger] nodes2[i]).0.name_sym < interned_names(
            t.node_names,
        ).len() by {
            assert(nodes[i].0.name_sym < interned_names(t0.node_names).len());
        }
        assert forall|i: int| 1 <= i < nodes2.len() implies #[trigger] parent_entry_ok(nodes2, i) by {
            assert(parent_entry_ok(nodes, i));
        }
        assert forall|i: int, k: int|
            0 <= i < nodes2.len() && 0 <= k < nodes2[i].2.len() implies #[trigger] child_entry_ok(nodes2, i, k) by {
            assert(child_entry_ok(nodes, i, k));
        }
        assert forall|i: int| 0 <= i < nodes2.len() implies (#[trigger] nodes2[i]).2.no_duplicates() by {
            assert(nodes[i].2.no_duplicates());
        }
    }
}

impl Tree {
    /// Replaces the attributes of a node, returning the previous ones.
    fn replace_attributes(&mut self, node_id: NodeId, new: Vec<AttributeValue>) -> (r: Vec<AttributeValue>)
        requires
            old(self).wf(),
            old(self).contains(node_id),
        ensures
            r@ == old(self).attributes_of(node_id),
            attributes_replaced(*old(self), *final(self), node_id, new@),
    {
        let ghost t0 = *self;
        let name_sym = arena_data_of(&self.arena, node_id.0).name_sym;
        let data = arena_replace_data(&mut self.arena, node_id.0, NodeData { name_sym, attributes: new });
        proof {
            let nodes = arena_nodes(t0.arena);
            let nodes2 = arena_nodes(self.arena);
            assert forall|i: int| 0 <= i < nodes2.len() implies (#[trigger] nodes2[i]).0.name_sym < interned_names(
                self.node_names,
            ).len() by {
                assert(nodes[i].0.name_sym < interned_names(t0.node_names).len());
            }
            assert forall|i: int| 1 <= i < nodes2.len() implies #[trigger] parent_entry_ok(nodes2, i) by {
                assert(parent_entry_ok(nodes, i));
            }
            assert forall|i: int, k: int|
                0 <= i < nodes2.len() && 0 <= k < nodes2[i].2.len() implies #[trigger] child_entry_ok(nodes2, i, k) by {
                assert(child_entry_ok(nodes, i, k));
            }
            assert forall|i: int| 0 <= i < nodes2.len() implies (#[trigger] nodes2[i]).2.no_duplicates() by {
                assert(nodes[i].2.no_duplicates());
            }
        }
        data.attributes
    }

    /// Returns a mutable reference to the attribute at the given index of a
    /// node, if there is one; the node's other attributes and the rest of the
    /// tree are kept.
    pub fn get_attribute_mut(&mut self, node_id: NodeId, i: usize) -> (r: Option<&mut AttributeValue>)
        requires
            old(self).wf(),
            old(self).contains(node_id),
            node_id != old(self).root_node(),
        ensures
            i >= old(self).attributes_of(node_id).len() ==> r is None && attributes_replaced(
                *old(self),
                *final(self),
                node_id,
                old(self).attributes_of(node_id),
            ),
            i < old(self).attributes_of(node_id).len() ==> (r matches Some(v) && *v == old(
                self,
            ).attributes_of(node_id)[i as int] && attributes_replaced(
                *old(self),
                *final(self),
                node_id,
                old(self).attributes_of(node_id).update(i as int, *final(v)),
            )),
    {
        let ghost t0 = *self;
        proof {
            let nodes = arena_nodes(t0.arena);
            assert forall|j: int| 0 <= j < nodes.len() implies (#[trigger] nodes[j]).0.name_sym < interned_names(
                t0.node_names,
            ).len() by {}
        }
        let ghost fs = *final(self);
        let data = arena_data_mut(&mut self.arena, node_id.0);
        let ghost d0 = *data;
        let ghost fd = *final(data);
        if i < data.attributes.len() {
            let v = &mut data.attributes[i];
            proof {
                lemma_replaced_keeps_wf(t0, node_id);
                assert(fd.name_sym == d0.name_sym);
                assert(fd.attributes@ == d0.attributes@.update(i as int, *final(v)));
                assert(attributes_replaced(t0, fs, node_id, fd.attributes@));
            }
            Some(v)
        } else {
            proof {
                lemma_replaced_keeps_wf(t0, node_id);
            }
            None
        }
    }

    /// Appends an attribute to a node other than the root.
    pub fn append_attribute(&mut self, node_id: NodeId, v: AttributeValue)
        requires
            old(self).wf(),
            old(self).contains(node_id),
            node_id != old(self).root_node(),
        ensures
            attributes_replaced(*old(self), *final(self), node_id, old(self).attributes_of(node_id).push(v)),
    {
        let mut attributes = self.replace_attributes(node_id, Vec::new());
        attributes.push(v);
        let _ = self.replace_attributes(node_id, attributes);
    }

    /// Takes all attributes of a node as a `Vec`; the node is left with no
    /// attributes.
    pub fn take_attributes_vec(&mut self, node_id: NodeId) -> (r: Vec<AttributeValue>)
        requires
            old(self).wf(),
            old(self).contains(node_id),
            node_id != old(self).root_node(),
        ensures
            r@ == old(self).attributes_of(node_id),
            attributes_replaced(*old(self), *final(self), node_id, Seq::empty()),
    {
        self.replace_attributes(node_id, Vec::new())
    }

    /// Sets the given attributes as the attributes of a node.
    pub fn set_attributes_vec(&mut self, node_id: NodeId, new: Vec<AttributeValue>)
        requires
            old(self).wf(),
            old(self).contains(node_id),
            node_id != old(self).root_node(),
        ensures
            attributes_replaced(*old(self), *final(self), node_id, new@),
    {
        let _ = self.replace_attributes(node_id, new);
    }
}

impl Default for Tree {
    /// A tree with the root alone.
    fn default() -> (t: Self)
        ensures
            t.wf(),
            t.node_count() == 1,
            t.contains(t.root_node()),
            t.name_of(t.root_node()) == Seq::<char>::empty(),
            t.attributes_of(t.root_node()) == Seq::<AttributeValue>::empty(),
            t.children_of(t.root_node()) == Seq::<NodeId>::empty(),
            t.parent_of(t.root_node()) is None,
    {
        let mut arena = arena_new();
        let mut node_names = NodeNames::new();
        let name_sym = node_names.get_or_intern("");
        let id = arena_new_node(&mut arena, NodeData { name_sym, attributes: Vec::new() });
        let t = Tree { arena, node_names, root_id: NodeId(id) };
        proof {
            reveal_strlit("");
            let nodes = arena_nodes(t.arena);
            assert(nodes[0].2.no_duplicates());
            assert(t.children_of(t.root_node()) =~= Seq::<NodeId>::empty());
        }
        t
    }
}

impl Tree {
    /// The next sibling of a node: the child after it in its parent's
    /// children.
    pub open spec fn next_sibling_of(self, id: NodeId) -> Option<NodeId> {
        match self.parent_of(id) {
            None => None,
            Some(p) => {
                let ch = self.children_of(p);
                let k = ch.index_of(id);
                if k + 1 < ch.len() {
                    Some(ch[k + 1])
                } else {
                    None
                }
            },
        }
    }

    /// The previous sibling of a node: the child before it in its parent's
    /// children.
    pub open spec fn previous_sibling_of(self, id: NodeId) -> Option<NodeId> {
        match self.parent_of(id) {
            None => None,
            Some(p) => {
                let ch = self.children_of(p);
                let k = ch.index_of(id);
                if k > 0 {
                    Some(ch[k - 1])
                } else {
                    None
                }
            },
        }
    }

    /// The children of a node that have the given name, in order.
    pub open spec fn children_named(self, id: NodeId, name: Seq<char>) -> Seq<NodeId> {
        self.children_of(id).filter(|c: NodeId| self.name_of(c) == name)
    }

    /// The children of a node are nodes of the tree, listed once each.
    pub proof fn lemma_children(self, id: NodeId)
        requires
            self.wf(),
            self.contains(id),
        ensures
            self.children_of(id).no_duplicates(),
            forall|k: int|
                0 <= k < self.children_of(id).len() ==> {
                    &&& self.contains(#[trigger] self.children_of(id)[k])
                    &&& self.parent_of(self.children_of(id)[k]) == Some(id)
                    &&& self.children_of(id)[k].index() > id.index()
                    &&& self.children_of(id)[k].index() <= self.node_count()
                },
    {
        broadcast use NodeId::lemma_index;

        let nodes = arena_nodes(self.arena);
        assert(nodes[id.0 - 1].2.no_duplicates());
        assert forall|k: int| 0 <= k < self.children_of(id).len() implies {
            &&& self.contains(#[trigger] self.children_of(id)[k])
            &&& self.parent_of(self.children_of(id)[k]) == Some(id)
            &&& self.children_of(id)[k].index() > id.index()
            &&& self.children_of(id)[k].index() <= self.node_count()
        } by {
            assert(child_entry_ok(nodes, id.0 - 1, k));
        }
    }

    /// The nodes of a tree are numbered from one to the node count.
    pub proof fn lemma_contains(self, id: NodeId)
        ensures
            self.contains(id) <==> 1 <= id.index() <= self.node_count(),
    {
        broadcast use NodeId::lemma_index;

        assert(NodeId(id.0) == id);
    }

    /// The parent of a node is a node of the tree.
    pub proof fn lemma_parent(self, id: NodeId)
        requires
            self.wf(),
            self.contains(id),
        ensures
            self.parent_of(id) is None <==> id == self.root_node(),
            self.parent_of(id) matches Some(p) ==> self.contains(p) && self.children_of(p).contains(id),
    {
        let nodes = arena_nodes(self.arena);
        if id.0 > 1 {
            assert(parent_entry_ok(nodes, id.0 - 1));
            let q = nodes[id.0 - 1].1->Some_0;
            let k = nodes[q - 1].2.index_of(id.0);
            assert(self.children_of(NodeId(q))[k] == id);
        }
    }

    /// Returns the name of a node.
    pub(crate) fn node_name(&self, id: NodeId) -> (r: &str)
        requires
            self.wf(),
            self.contains(id),
        ensures
            r@ == self.name_of(id),
    {
        let sym = arena_data_of(&self.arena, id.0).name_sym;
        proof {
            assert(arena_nodes(self.arena)[id.0 - 1].0.name_sym < interned_names(self.node_names).len());
        }
        self.node_names.resolve(sym)
    }

    /// Returns the attributes of a node.
    pub(crate) fn node_attributes(&self, id: NodeId) -> (r: &[AttributeValue])
        requires
            self.wf(),
            self.contains(id),
        ensures
            r@ == self.attributes_of(id),
    {
        arena_data_of(&self.arena, id.0).attributes.as_slice()
    }

    /// Returns the parent of a node.
    pub(crate) fn node_parent(&self, id: NodeId) -> (r: Option<NodeId>)
        requires
            self.wf(),
            self.contains(id),
        ensures
            r == self.parent_of(id),
    {
        match arena_parent_of(&self.arena, id.0) {
            Some(p) => Some(NodeId(p)),
            None => None,
        }
    }

    /// Returns the children of a node, in order.
    pub(crate) fn node_children(&self, id: NodeId) -> (r: Vec<NodeId>)
        requires
            self.wf(),
            self.contains(id),
        ensures
            r@ == self.children_of(id),
    {
        let cs = arena_children_of(&self.arena, id.0);
        let mut r: Vec<NodeId> = Vec::new();
        let mut j: usize = 0;
        while j < cs.len()
            invariant
                j <= cs.len(),
                cs@ == arena_nodes(self.arena)[id.0 - 1].2,
                r@ == cs@.take(j as int).map_values(|c: usize| NodeId(c)),
            decreases cs.len() - j,
        {
            r.push(NodeId(cs[j]));
            proof {
                assert(cs@.take(j + 1).map_values(|c: usize| NodeId(c)) =~= cs@.take(j as int).map_values(
                    |c: usize| NodeId(c),
                ).push(NodeId(cs@[j as int])));
            }
            j = j + 1;
        }
        proof {
            assert(cs@.take(cs.len() as int) =~= cs@);
        }
        r
    }

    /// Returns the position of a node other than the root among its
    /// parent's children, with the parent.
    fn sibling_position(&self, id: NodeId) -> (r: (NodeId, Vec<NodeId>, usize))
        requires
            self.wf(),
            self.contains(id),
            self.parent_of(id) is Some,
        ensures
            r.0 == self.parent_of(id)->Some_0,
            r.1@ == self.children_of(r.0),
            r.2 == r.1@.index_of(id),
            r.2 < r.1.len(),
            r.1@[r.2 as int] == id,
    {
        proof {
            self.lemma_parent(id);
        }
        let p = arena_parent_of(&self.arena, id.0).unwrap();
        let parent = NodeId(p);
        let ch = self.node_children(parent);
        proof {
            self.lemma_children(parent);
        }
        let mut k: usize = 0;
        while k < ch.len()
            invariant
                k <= ch.len(),
                ch@ == self.children_of(parent),
                ch@.contains(id),
                forall|j: int| 0 <= j < k ==> ch@[j] != id,
            ensures
                k < ch.len(),
                ch@[k as int] == id,
            decreases ch.len() - k,
        {
            if ch[k] == id {
                break;
            }
            k = k + 1;
        }
        proof {
            let kk = ch@.index_of(id);
            assert(ch@[kk] == id);
            assert(ch@.no_duplicates());
        }
        (parent, ch, k)
    }

    /// Returns the next sibling of a node.
    pub(crate) fn node_next_sibling(&self, id: NodeId) -> (r: Option<NodeId>)
        requires
            self.wf(),
            self.contains(id),
        ensures
            r == self.next_sibling_of(id),
    {
        if arena_parent_of(&self.arena, id.0).is_none() {
            return None;
        }
        let (_parent, ch, k) = self.sibling_position(id);
        if k + 1 < ch.len() {
            Some(ch[k + 1])
        } else {
            None
        }
    }

    /// Returns the previous sibling of a node.
    pub(crate) fn node_previous_sibling(&self, id: NodeId) -> (r: Option<NodeId>)
        requires
            self.wf(),
            self.contains(id),
        ensures
            r == self.previous_sibling_of(id),
    {
        if arena_parent_of(&self.arena, id.0).is_none() {
            return None;
        }
        let (_parent, ch, k) = self.sibling_position(id);
        if k > 0 {
            Some(ch[k - 1])
        } else {
            None
        }
    }

    /// Returns the children of a node that have the given name, in order.
    pub(crate) fn node_children_by_name(&self, id: NodeId, name: &str) -> (r: Vec<NodeId>)
        requires
            self.wf(),
            self.contains(id),
        ensures
            r@ == self.children_named(id, name@),
    {
        let ch = self.node_children(id);
        let mut r: Vec<NodeId> = Vec::new();
        let sym = match self.node_names.get(name) {
            Some(sym) => sym,
            None => {
                proof {
                    self.lemma_children(id);
                    self.lemma_unnamed(id, name@);
                }
                return r;
            },
        };
        let ghost pred = |c: NodeId| self.name_of(c) == name@;
        proof {
            self.lemma_children(id);
            reveal(Seq::filter);
        }
        let mut j: usize = 0;
        while j < ch.len()
            invariant
                self.wf(),
                j <= ch.len(),
                ch@ == self.children_of(id),
                forall|k: int| 0 <= k < ch.len() ==> self.contains(#[trigger] ch@[k]),
                sym < interned_names(self.node_names).len(),
                interned_names(self.node_names)[sym as int] == name@,
                pred == (|c: NodeId| self.name_of(c) == name@),
                r@ == ch@.take(j as int).filter(pred),
            decreases ch.len() - j,
        {
            let c = ch[j];
            let csym = arena_data_of(&self.arena, c.0).name_sym;
            proof {
                let names = interned_names(self.node_names);
                assert(arena_nodes(self.arena)[c.0 - 1].0.name_sym < names.len());
                assert(names_unique(names));
                assert(ch@.take(j + 1).drop_last() =~= ch@.take(j as int));
                reveal(Seq::filter);
            }
            if csym == sym {
                r.push(c);
            }
            j = j + 1;
        }
        proof {
            assert(ch@.take(ch.len() as int) =~= ch@);
        }
        r
    }

    /// A name that is not interned is the name of no node.
    proof fn lemma_unnamed(self, id: NodeId, name: Seq<char>)
        requires
            self.wf(),
            self.contains(id),
            !interned_names(self.node_names).contains(name),
            forall|k: int|
                0 <= k < self.children_of(id).len() ==> self.contains(#[trigger] self.children_of(id)[k]),
        ensures
            self.children_named(id, name) == Seq::<NodeId>::empty(),
    {
        let ch = self.children_of(id);
        let pred = |c: NodeId| self.name_of(c) == name;
        assert forall|k: int| 0 <= k < ch.len() implies !pred(#[trigger] ch[k]) by {
            let nodes = arena_nodes(self.arena);
            let sym = nodes[ch[k].0 - 1].0.name_sym;
            assert(sym < interned_names(self.node_names).len());
            if pred(ch[k]) {
                assert(interned_names(self.node_names)[sym as int] == name);
            }
        }
        if ch.filter(pred).len() > 0 {
            let e = ch.filter(pred)[0];
            assert(ch.filter(pred).contains(e));
            ch.lemma_filter_pred(pred, 0);
            ch.lemma_filter_contains_rev(pred, e);
            let k = choose|k: int| 0 <= k < ch.len() && ch[k] == e;
            assert(!pred(ch[k]));
        }
        assert(ch.filter(pred) =~= Seq::<NodeId>::empty());
    }
}

impl Tree {
    /// The root is a node of the tree.
    pub proof fn lemma_root(self)
        requires
            self.wf(),
        ensures
            self.contains(self.root_node()),
            self.parent_of(self.root_node()) is None,
    {
    }

    /// Returns the ID of the root node.
    pub(crate) fn root_id(&self) -> (r: NodeId)
        ensures
            r == self.root_node(),
    {
        self.root_id
    }
}

} // verus!
