//! The node arena and the node name interner, backed by `indextree` and
//! `string_interner`.
//!
//! Nodes are identified by their one-based index in the arena. Nodes are
//! never removed, so every slot holds a live node.

use std::num::NonZeroUsize;

use indextree::Arena;
use string_interner::{DefaultSymbol, StringInterner, Symbol};
use vstd::prelude::*;

use crate::tree::v7400::node::NodeData;

verus! {

/// The arena type of `indextree`.
#[verifier::external_type_specification]
#[verifier::external_body]
#[verifier::reject_recursive_types(T)]
pub struct ExArena<T>(indextree::Arena<T>);

/// The nodes of the arena, by zero-based slot: the data, the parent (a
/// one-based id) and the children (one-based ids, in order) of each.
pub uninterp spec fn arena_nodes(a: Arena<NodeData>) -> Seq<(NodeData, Option<usize>, Seq<usize>)>;

/// The node at a one-based id.
pub open spec fn node_at(a: Arena<NodeData>, id: int) -> (NodeData, Option<usize>, Seq<usize>) {
    arena_nodes(a)[id - 1]
}

/// The siblings of a node that has a parent: its parent's children.
pub open spec fn arena_siblings(a: Arena<NodeData>, id: int) -> Seq<usize> {
    node_at(a, node_at(a, id).1->Some_0 as int).2
}

/// Creates an empty arena with `Arena::new`.
#[verifier::external_body]
pub(crate) fn arena_new() -> (r: Arena<NodeData>)
    ensures
        arena_nodes(r) == Seq::<(NodeData, Option<usize>, Seq<usize>)>::empty(),
{
    Arena::new()
}

/// Adds a detached node with `Arena::new_node`; with no removed slot to
/// reuse, it takes the next slot, and its id is the one-based index.
#[verifier::external_body]
pub(crate) fn arena_new_node(arena: &mut Arena<NodeData>, data: NodeData) -> (id: usize)
    requires
        arena_nodes(*old(arena)).len() + 1 < usize::MAX,
    ensures
        id == arena_nodes(*old(arena)).len() + 1,
        arena_nodes(*final(arena)) == arena_nodes(*old(arena)).push((data, None, Seq::empty())),
{
    usize::from(arena.new_node(data))
}

/// Makes the detached childless node `child` the last child of `parent`
/// with `NodeId::append`.
#[verifier::external_body]
pub(crate) fn arena_append(arena: &mut Arena<NodeData>, parent: usize, child: usize)
    requires
        1 <= parent <= arena_nodes(*old(arena)).len(),
        1 <= child <= arena_nodes(*old(arena)).len(),
        parent != child,
        node_at(*old(arena), child as int).1 is None,
        node_at(*old(arena), child as int).2.len() == 0,
    ensures
        ({
            let p = node_at(*old(arena), parent as int);
            let c = node_at(*old(arena), child as int);
            arena_nodes(*final(arena)) == arena_nodes(*old(arena)).update(
                parent - 1,
                (p.0, p.1, p.2.push(child)),
            ).update(child - 1, (c.0, Some(parent), c.2))
        }),
{
    let p = arena.get_node_id_at(NonZeroUsize::new(parent).unwrap()).unwrap();
    let c = arena.get_node_id_at(NonZeroUsize::new(child).unwrap()).unwrap();
    p.append(c, arena);
}

/// Makes the detached childless node `child` the first child of `parent`
/// with `NodeId::prepend`.
#[verifier::external_body]
pub(crate) fn arena_prepend(arena: &mut Arena<NodeData>, parent: usize, child: usize)
    requires
        1 <= parent <= arena_nodes(*old(arena)).len(),
        1 <= child <= arena_nodes(*old(arena)).len(),
        parent != child,
        node_at(*old(arena), child as int).1 is None,
        node_at(*old(arena), child as int).2.len() == 0,
    ensures
        ({
            let p = node_at(*old(arena), parent as int);
            let c = node_at(*old(arena), child as int);
            arena_nodes(*final(arena)) == arena_nodes(*old(arena)).update(
                parent - 1,
                (p.0, p.1, seq![child] + p.2),
            ).update(child - 1, (c.0, Some(parent), c.2))
        }),
{
    let p = arena.get_node_id_at(NonZeroUsize::new(parent).unwrap()).unwrap();
    let c = arena.get_node_id_at(NonZeroUsize::new(child).unwrap()).unwrap();
    p.prepend(c, arena);
}

/// Makes the detached childless node `new` the next sibling of `sibling`
/// with `NodeId::insert_after`.
#[verifier::external_body]
pub(crate) fn arena_insert_after(arena: &mut Arena<NodeData>, sibling: usize, new: usize)
    requires
        1 <= sibling <= arena_nodes(*old(arena)).len(),
        1 <= new <= arena_nodes(*old(arena)).len(),
        sibling != new,
        node_at(*old(arena), new as int).1 is None,
        node_at(*old(arena), new as int).2.len() == 0,
        node_at(*old(arena), sibling as int).1 matches Some(q) && 1 <= q <= arena_nodes(*old(arena)).len() && q != new,
        arena_siblings(*old(arena), sibling as int).contains(sibling),
        arena_siblings(*old(arena), sibling as int).no_duplicates(),
    ensures
        ({
            let q = node_at(*old(arena), sibling as int).1->Some_0;
            let p = node_at(*old(arena), q as int);
            let n = node_at(*old(arena), new as int);
            let k = p.2.index_of(sibling);
            arena_nodes(*final(arena)) == arena_nodes(*old(arena)).update(
                q - 1,
                (p.0, p.1, p.2.take(k + 1) + seq![new] + p.2.skip(k + 1)),
            ).update(new - 1, (n.0, Some(q), n.2))
        }),
{
    let s = arena.get_node_id_at(NonZeroUsize::new(sibling).unwrap()).unwrap();
    let n = arena.get_node_id_at(NonZeroUsize::new(new).unwrap()).unwrap();
    s.insert_after(n, arena);
}

/// Makes the detached childless node `new` the previous sibling of
/// `sibling` with `NodeId::insert_before`.
#[verifier::external_body]
pub(crate) fn arena_insert_before(arena: &mut Arena<NodeData>, sibling: usize, new: usize)
    requires
        1 <= sibling <= arena_nodes(*old(arena)).len(),
        1 <= new <= arena_nodes(*old(arena)).len(),
        sibling != new,
        node_at(*old(arena), new as int).1 is None,
        node_at(*old(arena), new as int).2.len() == 0,
        node_at(*old(arena), sibling as int).1 matches Some(q) && 1 <= q <= arena_nodes(*old(arena)).len() && q != new,
        arena_siblings(*old(arena), sibling as int).contains(sibling),
        arena_siblings(*old(arena), sibling as int).no_duplicates(),
    ensures
        ({
            let q = node_at(*old(arena), sibling as int).1->Some_0;
            let p = node_at(*old(arena), q as int);
            let n = node_at(*old(arena), new as int);
            let k = p.2.index_of(sibling);
            arena_nodes(*final(arena)) == arena_nodes(*old(arena)).update(
                q - 1,
                (p.0, p.1, p.2.take(k) + seq![new] + p.2.skip(k)),
            ).update(new - 1, (n.0, Some(q), n.2))
        }),
{
    let s = arena.get_node_id_at(NonZeroUsize::new(sibling).unwrap()).unwrap();
    let n = arena.get_node_id_at(NonZeroUsize::new(new).unwrap()).unwrap();
    s.insert_before(n, arena);
}

/// Returns the data of a node (`Arena::get_node_id_at`, indexing and
/// `Node::get`).
#[verifier::external_body]
pub(crate) fn arena_data_of(arena: &Arena<NodeData>, id: usize) -> (r: &NodeData)
    requires
        1 <= id <= arena_nodes(*arena).len(),
    ensures
        *r == node_at(*arena, id as int).0,
{
    let n = arena.get_node_id_at(NonZeroUsize::new(id).unwrap()).unwrap();
    arena[n].get()
}

/// Replaces the data of a node, returning the previous data
/// (`Arena::get_node_id_at`, indexing and `Node::get_mut`).
#[verifier::external_body]
pub(crate) fn arena_replace_data(arena: &mut Arena<NodeData>, id: usize, data: NodeData) -> (r: NodeData)
    requires
        1 <= id <= arena_nodes(*old(arena)).len(),
    ensures
        ({
            let n = node_at(*old(arena), id as int);
            &&& r == n.0
            &&& arena_nodes(*final(arena)) == arena_nodes(*old(arena)).update(id - 1, (data, n.1, n.2))
        }),
{
    let n = arena.get_node_id_at(NonZeroUsize::new(id).unwrap()).unwrap();
    std::mem::replace(arena[n].get_mut(), data)
}

/// Returns the data of a node for mutation (`Arena::get_node_id_at`,
/// indexing and `Node::get_mut`): the arena then holds what the reference
/// holds at the end.
#[verifier::external_body]
pub(crate) fn arena_data_mut(arena: &mut Arena<NodeData>, id: usize) -> (r: &mut NodeData)
    requires
        1 <= id <= arena_nodes(*old(arena)).len(),
    ensures
        ({
            let n = node_at(*old(arena), id as int);
            &&& *r == n.0
            &&& arena_nodes(*final(arena)) == arena_nodes(*old(arena)).update(id - 1, (*final(r), n.1, n.2))
        }),
{
    let n = arena.get_node_id_at(NonZeroUsize::new(id).unwrap()).unwrap();
    arena[n].get_mut()
}

/// Returns the children of a node, in order (`NodeId::children`).
#[verifier::external_body]
pub(crate) fn arena_children_of(arena: &Arena<NodeData>, id: usize) -> (r: Vec<usize>)
    requires
        1 <= id <= arena_nodes(*arena).len(),
    ensures
        r@ == node_at(*arena, id as int).2,
{
    let n = arena.get_node_id_at(NonZeroUsize::new(id).unwrap()).unwrap();
    n.children(arena).map(usize::from).collect()
}

/// Returns the parent of a node (`NodeId::parent`).
#[verifier::external_body]
pub(crate) fn arena_parent_of(arena: &Arena<NodeData>, id: usize) -> (r: Option<usize>)
    requires
        1 <= id <= arena_nodes(*arena).len(),
    ensures
        r == node_at(*arena, id as int).1,
{
    let n = arena.get_node_id_at(NonZeroUsize::new(id).unwrap()).unwrap();
    n.parent(arena).map(usize::from)
}

/// A `string_interner` interner of node names.
///
/// The interner type's parameters are bounded by a trait of
/// `string_interner`, so the interner is held here, opaque, and described by
/// `interned_names`.
#[verifier::external_body]
pub struct NodeNames {
    interner: StringInterner,
}

/// The interned names, by symbol (zero-based).
pub uninterp spec fn interned_names(n: NodeNames) -> Seq<Seq<char>>;

/// No name is interned twice.
pub open spec fn names_unique(names: Seq<Seq<char>>) -> bool {
    forall|i: int, j: int| 0 <= i < names.len() && 0 <= j < names.len() && names[i] == names[j] ==> i == j
}

impl NodeNames {
    /// Creates an empty interner with `StringInterner::new`.
    #[verifier::external_body]
    pub(crate) fn new() -> (r: Self)
        ensures
            interned_names(r) == Seq::<Seq<char>>::empty(),
    {
        NodeNames { interner: StringInterner::new() }
    }

    /// Returns the symbol of the name, interning it if it is new
    /// (`StringInterner::get_or_intern`): a known name keeps its symbol (it
    /// is looked up first), a new one gets the next symbol (which must fit
    /// in 32 bits).
    #[verifier::external_body]
    pub(crate) fn get_or_intern(&mut self, name: &str) -> (sym: usize)
        requires
            interned_names(*old(self)).contains(name@) || interned_names(*old(self)).len() + 1
                < u32::MAX,
        ensures
            interned_names(*old(self)).contains(name@) ==> interned_names(*final(self)) == interned_names(*old(self))
                && interned_names(*old(self))[sym as int] == name@ && sym < interned_names(*old(self)).len(),
            !interned_names(*old(self)).contains(name@) ==> interned_names(*final(self)) == interned_names(*old(self)).push(name@)
                && sym == interned_names(*old(self)).len(),
    {
        self.interner.get_or_intern(name).to_usize()
    }

    /// Returns the symbol of the name, if it is interned
    /// (`StringInterner::get`).
    #[verifier::external_body]
    pub(crate) fn get(&self, name: &str) -> (sym: Option<usize>)
        ensures
            sym matches Some(s) ==> s < interned_names(*self).len() && interned_names(*self)[s as int] == name@,
            sym is None ==> !interned_names(*self).contains(name@),
    {
        self.interner.get(name).map(|s| s.to_usize())
    }

    /// Returns the name of a symbol (`StringInterner::resolve`).
    #[verifier::external_body]
    pub(crate) fn resolve(&self, sym: usize) -> (r: &str)
        requires
            sym < interned_names(*self).len(),
            interned_names(*self).len() < u32::MAX,
        ensures
            r@ == interned_names(*self)[sym as int],
    {
        self.interner.resolve(DefaultSymbol::try_from_usize(sym).unwrap()).unwrap()
    }
}

} // verus!
