//! Syntactic position.

use vstd::prelude::*;

verus! {

/// Syntactic position.
///
/// This contains not only byte-position, but also additional information such
/// as node path and attribute index.
///
/// This type is implemented based on FBX 7.4 data structure, and may change in
/// future if FBX syntax has breaking changes.
#[derive(Debug, PartialEq, Eq, Hash)]
pub struct SyntacticPosition {
    /// Byte position.
    pub(crate) byte_pos: u64,
    /// Beginning byte position of the node or attribute.
    pub(crate) component_byte_pos: u64,
    /// Node path.
    ///
    /// This is a vector of pairs of node indices in siblings (i.e. the number
    /// of preceding siblings) and node names.
    pub(crate) node_path: Vec<(usize, String)>,
    /// Node attribute index (if the position points an attribute).
    pub(crate) attribute_index: Option<usize>,
}

impl View for SyntacticPosition {
    type V = (u64, u64, Seq<(usize, String)>, Option<usize>);

    /// Byte position, component byte position, node path and attribute index.
    open spec fn view(&self) -> Self::V {
        (
            self.spec_byte_pos(),
            self.spec_component_byte_pos(),
            self.spec_node_path(),
            self.spec_attribute_index(),
        )
    }
}

impl SyntacticPosition {
    /// The byte position.
    pub closed spec fn spec_byte_pos(&self) -> u64 {
        self.byte_pos
    }

    /// The beginning byte position of the node or attribute.
    pub closed spec fn spec_component_byte_pos(&self) -> u64 {
        self.component_byte_pos
    }

    /// The node path.
    pub closed spec fn spec_node_path(&self) -> Seq<(usize, String)> {
        self.node_path@
    }

    /// The node attribute index.
    pub closed spec fn spec_attribute_index(&self) -> Option<usize> {
        self.attribute_index
    }

    /// Creates a position.
    pub(crate) fn new(
        byte_pos: u64,
        component_byte_pos: u64,
        node_path: Vec<(usize, String)>,
        attribute_index: Option<usize>,
    ) -> (p: Self)
        ensures
            p.spec_byte_pos() == byte_pos,
            p.spec_component_byte_pos() == component_byte_pos,
            p.spec_node_path() == node_path@,
            p.spec_attribute_index() == attribute_index,
    {
        SyntacticPosition { byte_pos, component_byte_pos, node_path, attribute_index }
    }

    /// The same position, pointing the attribute of the given index which
    /// begins at the given byte position.
    pub(crate) fn with_attribute(self, component_byte_pos: u64, index: usize) -> (p: Self)
        ensures
            p.spec_byte_pos() == self.spec_byte_pos(),
            p.spec_component_byte_pos() == component_byte_pos,
            p.spec_node_path() == self.spec_node_path(),
            p.spec_attribute_index() == Some(index),
    {
        SyntacticPosition { component_byte_pos, attribute_index: Some(index), ..self }
    }

    /// Returns the byte position.
    pub fn byte_pos(&self) -> (r: u64)
        ensures
            r == self.spec_byte_pos(),
    {
        self.byte_pos
    }

    /// Returns the beginning byte position of the node or attribute.
    pub fn component_byte_pos(&self) -> (r: u64)
        ensures
            r == self.spec_component_byte_pos(),
    {
        self.component_byte_pos
    }

    /// Returns the node path.
    ///
    /// This is a vector of pairs of node indices in siblings (i.e. the number
    /// of preceding siblings) and node names.
    pub fn node_path(&self) -> (r: &[(usize, String)])
        ensures
            r@ == self.spec_node_path(),
    {
        self.node_path.as_slice()
    }

    /// Returns the node attribute index (if the position points an attribute).
    pub fn attribute_index(&self) -> (r: Option<usize>)
        ensures
            r == self.spec_attribute_index(),
    {
        self.attribute_index
    }

}

impl Clone for SyntacticPosition {
    /// Returns a copy of the position.
    fn clone(&self) -> (r: Self)
        ensures
            r@ == self@,
            r.spec_byte_pos() == self.spec_byte_pos(),
            r.spec_component_byte_pos() == self.spec_component_byte_pos(),
            r.spec_node_path() == self.spec_node_path(),
            r.spec_attribute_index() == self.spec_attribute_index(),
    {
        SyntacticPosition {
            byte_pos: self.byte_pos,
            component_byte_pos: self.component_byte_pos,
            node_path: clone_node_path(&self.node_path),
            attribute_index: self.attribute_index,
        }
    }
}

/// Copies a node path.
pub fn clone_node_path(path: &Vec<(usize, String)>) -> (r: Vec<(usize, String)>)
    ensures
        r@ == path@,
{
    let mut r: Vec<(usize, String)> = Vec::new();
    let mut i: usize = 0;
    while i < path.len()
        invariant
            i <= path@.len(),
            r@.len() == i,
            forall|k: int| 0 <= k < i ==> r@[k] == path@[k],
        decreases path@.len() - i,
    {
        let idx = path[i].0;
        let name = path[i].1.clone();
        r.push((idx, name));
        i = i + 1;
    }
    assert(r@ =~= path@);
    r
}

} // verus!
