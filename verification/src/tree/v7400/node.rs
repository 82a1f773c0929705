//! Node identifiers and node-local data.

use vstd::prelude::*;

use crate::low::v7400::AttributeValue;

verus! {

/// Node ID in FBX data tree.
///
/// It is the one-based index of the node in its tree; nodes are never
/// removed, so an ID stays valid for the tree that gave it.
#[derive(Debug, Clone, Copy, PartialEq, Eq, Structural, Hash)]
pub struct NodeId(pub(crate) usize);

impl NodeId {
    /// The one-based index of the node.
    pub closed spec fn index(self) -> int {
        self.0 as int
    }

    /// Two IDs are the same exactly when their indices are.
    pub proof fn lemma_index_unique(a: NodeId, b: NodeId)
        ensures
            (a.index() == b.index()) == (a == b),
    {
    }

    /// The index of the ID of a one-based index is that index.
    pub(crate) broadcast proof fn lemma_index(c: usize)
        ensures
            #[trigger] NodeId(c).index() == c as int,
    {
    }
}

/// Node-local data in FBX data tree: the name symbol and the attributes.
///
/// This does not manage relations among nodes.
#[derive(Debug, Clone, PartialEq)]
pub struct NodeData {
    /// Node name symbol.
    pub(crate) name_sym: usize,
    /// Node attributes.
    pub(crate) attributes: Vec<AttributeValue>,
}

} // verus!
