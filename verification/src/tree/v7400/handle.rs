//! Node handle.

use vstd::prelude::*;

use crate::low::v7400::AttributeValue;
use crate::tree::v7400::{NodeId, Tree};

verus! {

/// Node handle: a node of a tree, with read access to it and its relatives.
#[derive(Clone, Copy)]
pub struct NodeHandle<'a> {
    /// The tree the node belongs to.
    tree: &'a Tree,
    /// Node ID.
    node_id: NodeId,
}

impl<'a> NodeHandle<'a> {
    /// The tree the handle reads.
    pub closed spec fn spec_tree(self) -> Tree {
        *self.tree
    }

    /// The node the handle stands for.
    pub closed spec fn spec_id(self) -> NodeId {
        self.node_id
    }

    /// The handle stands for a node of a well-formed tree.
    pub open spec fn wf(self) -> bool {
        self.spec_tree().wf() && self.spec_tree().contains(self.spec_id())
    }

    /// Whether the handle stands for `id` in `tree`.
    pub open spec fn is_handle_of(self, tree: Tree, id: NodeId) -> bool {
        self.wf() && self.spec_tree() == tree && self.spec_id() == id
    }

    /// Creates a new `NodeHandle`.
    pub(crate) fn new(tree: &'a Tree, node_id: NodeId) -> (r: Self)
        requires
            tree.wf(),
            tree.contains(node_id),
        ensures
            r.is_handle_of(*tree, node_id),
    {
        NodeHandle { tree, node_id }
    }

    /// Returns a reference to the tree.
    pub fn tree(&self) -> (t: &'a Tree)
        ensures
            *t == self.spec_tree(),
    {
        self.tree
    }

    /// Returns the node ID.
    pub fn node_id(&self) -> (id: NodeId)
        ensures
            id == self.spec_id(),
    {
        self.node_id
    }

    /// Returns the node name.
    pub fn name(&self) -> (r: &'a str)
        requires
            self.wf(),
        ensures
            r@ == self.spec_tree().name_of(self.spec_id()),
    {
        self.tree.node_name(self.node_id)
    }

    /// Returns the node attributes.
    pub fn attributes(&self) -> (r: &'a [AttributeValue])
        requires
            self.wf(),
        ensures
            r@ == self.spec_tree().attributes_of(self.spec_id()),
    {
        self.tree.node_attributes(self.node_id)
    }

    /// Makes handles of nodes of the same tree.
    fn handles(&self, ids: Vec<NodeId>) -> (r: Vec<NodeHandle<'a>>)
        requires
            self.wf(),
            forall|k: int| 0 <= k < ids.len() ==> self.spec_tree().contains(#[trigger] ids@[k]),
        ensures
            r.len() == ids.len(),
            forall|k: int| 0 <= k < r.len() ==> (#[trigger] r@[k]).is_handle_of(self.spec_tree(), ids@[k]),
    {
        let mut r: Vec<NodeHandle<'a>> = Vec::new();
        let mut j: usize = 0;
        while j < ids.len()
            invariant
                self.wf(),
                forall|k: int| 0 <= k < ids.len() ==> self.spec_tree().contains(#[trigger] ids@[k]),
                j <= ids.len(),
                r.len() == j,
                forall|k: int| 0 <= k < j ==> (#[trigger] r@[k]).is_handle_of(self.spec_tree(), ids@[k]),
            decreases ids.len() - j,
        {
            r.push(NodeHandle::new(self.tree, ids[j]));
            j = j + 1;
        }
        r
    }

    /// Returns the children, in order.
    pub fn children(&self) -> (r: Vec<NodeHandle<'a>>)
        requires
            self.wf(),
        ensures
            r.len() == self.spec_tree().children_of(self.spec_id()).len(),
            forall|k: int|
                0 <= k < r.len() ==> (#[trigger] r@[k]).is_handle_of(
                    self.spec_tree(),
                    self.spec_tree().children_of(self.spec_id())[k],
                ),
    {
        let ids = self.tree.node_children(self.node_id);
        proof {
            self.spec_tree().lemma_children(self.spec_id());
        }
        self.handles(ids)
    }

    /// Returns the children with the given name, in order.
    pub fn children_by_name(&self, name: &str) -> (r: Vec<NodeHandle<'a>>)
        requires
            self.wf(),
        ensures
            r.len() == self.spec_tree().children_named(self.spec_id(), name@).len(),
            forall|k: int|
                0 <= k < r.len() ==> (#[trigger] r@[k]).is_handle_of(
                    self.spec_tree(),
                    self.spec_tree().children_named(self.spec_id(), name@)[k],
                ),
    {
        let ids = self.tree.node_children_by_name(self.node_id, name);
        proof {
            let t = self.spec_tree();
            let ch = t.children_of(self.spec_id());
            t.lemma_children(self.spec_id());
            assert forall|k: int| 0 <= k < ids.len() implies t.contains(#[trigger] ids@[k]) by {
                let pred = |c: NodeId| t.name_of(c) == name@;
                assert(ch.filter(pred).contains(ids@[k]));
                ch.lemma_filter_contains_rev(pred, ids@[k]);
            }
        }
        self.handles(ids)
    }

    /// Returns the first child with the given name.
    pub fn first_child_by_name(&self, name: &str) -> (r: Option<NodeHandle<'a>>)
        requires
            self.wf(),
        ensures
            self.spec_tree().children_named(self.spec_id(), name@).len() == 0 ==> r is None,
            self.spec_tree().children_named(self.spec_id(), name@).len() > 0 ==> (r matches Some(h)
                && h.is_handle_of(self.spec_tree(), self.spec_tree().children_named(self.spec_id(), name@)[0])),
    {
        let v = self.children_by_name(name);
        if v.len() == 0 {
            None
        } else {
            Some(v[0])
        }
    }

    /// Makes a handle of a related node.
    fn related(&self, id: Option<NodeId>) -> (r: Option<NodeHandle<'a>>)
        requires
            self.wf(),
            id matches Some(n) ==> self.spec_tree().contains(n),
        ensures
            id is None ==> r is None,
            id matches Some(n) ==> r matches Some(h) && h.is_handle_of(self.spec_tree(), n),
    {
        match id {
            Some(n) => Some(NodeHandle::new(self.tree, n)),
            None => None,
        }
    }

    /// Returns the parent node handle if available.
    pub fn parent(&self) -> (r: Option<NodeHandle<'a>>)
        requires
            self.wf(),
        ensures
            self.spec_tree().parent_of(self.spec_id()) is None ==> r is None,
            self.spec_tree().parent_of(self.spec_id()) matches Some(p) ==> r matches Some(h)
                && h.is_handle_of(self.spec_tree(), p),
    {
        proof {
            self.spec_tree().lemma_parent(self.spec_id());
        }
        self.related(self.tree.node_parent(self.node_id))
    }

    /// Returns the first child node handle if available.
    pub fn first_child(&self) -> (r: Option<NodeHandle<'a>>)
        requires
            self.wf(),
        ensures
            self.spec_tree().children_of(self.spec_id()).len() == 0 ==> r is None,
            self.spec_tree().children_of(self.spec_id()).len() > 0 ==> (r matches Some(h)
                && h.is_handle_of(self.spec_tree(), self.spec_tree().children_of(self.spec_id()).first())),
    {
        let v = self.children();
        if v.len() == 0 {
            None
        } else {
            Some(v[0])
        }
    }

    /// Returns the last child node handle if available.
    pub fn last_child(&self) -> (r: Option<NodeHandle<'a>>)
        requires
            self.wf(),
        ensures
            self.spec_tree().children_of(self.spec_id()).len() == 0 ==> r is None,
            self.spec_tree().children_of(self.spec_id()).len() > 0 ==> (r matches Some(h)
                && h.is_handle_of(self.spec_tree(), self.spec_tree().children_of(self.spec_id()).last())),
    {
        let v = self.children();
        if v.len() == 0 {
            None
        } else {
            Some(v[v.len() - 1])
        }
    }

    /// Returns the previous sibling node handle if available.
    pub fn previous_sibling(&self) -> (r: Option<NodeHandle<'a>>)
        requires
            self.wf(),
        ensures
            self.spec_tree().previous_sibling_of(self.spec_id()) is None ==> r is None,
            self.spec_tree().previous_sibling_of(self.spec_id()) matches Some(s) ==> r matches Some(h)
                && h.is_handle_of(self.spec_tree(), s),
    {
        let s = self.tree.node_previous_sibling(self.node_id);
        proof {
            let t = self.spec_tree();
            t.lemma_parent(self.spec_id());
            if let Some(p) = t.parent_of(self.spec_id()) {
                t.lemma_children(p);
            }
        }
        self.related(s)
    }

    /// Returns the next sibling node handle if available.
    pub fn next_sibling(&self) -> (r: Option<NodeHandle<'a>>)
        requires
            self.wf(),
        ensures
            self.spec_tree().next_sibling_of(self.spec_id()) is None ==> r is None,
            self.spec_tree().next_sibling_of(self.spec_id()) matches Some(s) ==> r matches Some(h)
                && h.is_handle_of(self.spec_tree(), s),
    {
        let s = self.tree.node_next_sibling(self.node_id);
        proof {
            let t = self.spec_tree();
            t.lemma_parent(self.spec_id());
            if let Some(p) = t.parent_of(self.spec_id()) {
                t.lemma_children(p);
            }
        }
        self.related(s)
    }
}

impl Tree {
    /// Returns the root node.
    pub fn root(&self) -> (r: NodeHandle<'_>)
        requires
            self.wf(),
        ensures
            r.is_handle_of(*self, self.root_node()),
    {
        proof {
            self.lemma_root();
        }
        NodeHandle::new(self, self.root_id())
    }
}

impl NodeId {
    /// Creates a `NodeHandle` to access the node in the tree.
    pub fn to_handle(self, tree: &Tree) -> (r: NodeHandle<'_>)
        requires
            tree.wf(),
            tree.contains(self),
        ensures
            r.is_handle_of(*tree, self),
    {
        NodeHandle::new(tree, self)
    }
}

} // verus!
