//! Strict comparison of trees and nodes.

use vstd::prelude::*;
use vstd::std_specs::cmp::PartialEqSpec;

use crate::low::v7400::{spec_value_type, AttributeValue};
use crate::tree::v7400::{NodeHandle, NodeId, Tree};

verus! {

/// Two attribute values are the same: same type and same contents, floats
/// compared by their bits.
pub open spec fn attribute_same(x: AttributeValue, y: AttributeValue) -> bool {
    match (x, y) {
        (AttributeValue::Bool(a), AttributeValue::Bool(b)) => a == b,
        (AttributeValue::I16(a), AttributeValue::I16(b)) => a == b,
        (AttributeValue::I32(a), AttributeValue::I32(b)) => a == b,
        (AttributeValue::I64(a), AttributeValue::I64(b)) => a == b,
        (AttributeValue::F32(a), AttributeValue::F32(b)) => a == b,
        (AttributeValue::F64(a), AttributeValue::F64(b)) => a == b,
        (AttributeValue::ArrBool(a), AttributeValue::ArrBool(b)) => a@ == b@,
        (AttributeValue::ArrI32(a), AttributeValue::ArrI32(b)) => a@ == b@,
        (AttributeValue::ArrI64(a), AttributeValue::ArrI64(b)) => a@ == b@,
        (AttributeValue::ArrF32(a), AttributeValue::ArrF32(b)) => a@ == b@,
        (AttributeValue::ArrF64(a), AttributeValue::ArrF64(b)) => a@ == b@,
        (AttributeValue::String(a), AttributeValue::String(b)) => a@ == b@,
        (AttributeValue::Binary(a), AttributeValue::Binary(b)) => a@ == b@,
        _ => false,
    }
}

/// Two lists of attribute values are the same, value by value.
pub open spec fn attributes_same(xs: Seq<AttributeValue>, ys: Seq<AttributeValue>) -> bool {
    &&& xs.len() == ys.len()
    &&& forall|i: int| 0 <= i < xs.len() ==> #[trigger] attribute_same(xs[i], ys[i])
}

/// The subtree of `a` in `t1` is the same as the subtree of `b` in `t2`:
/// same names, same attributes, and children that are the same, in order.
///
/// In a well-formed tree children come after their parent, which the guard
/// on the recursion states.
pub open spec fn subtrees_same(t1: Tree, a: NodeId, t2: Tree, b: NodeId) -> bool
    decreases t1.node_count() - a.index(),
{
    let c1 = t1.children_of(a);
    let c2 = t2.children_of(b);
    &&& t1.name_of(a) == t2.name_of(b)
    &&& attributes_same(t1.attributes_of(a), t2.attributes_of(b))
    &&& c1.len() == c2.len()
    &&& forall|k: int|
        #![trigger t1.children_of(a)[k]]
        0 <= k < c1.len() ==> (a.index() < c1[k].index() <= t1.node_count() ==> subtrees_same(
            t1,
            c1[k],
            t2,
            c2[k],
        ))
}

/// Compares two lists of values element by element.
fn vec_same<T: Copy + PartialEq>(a: &Vec<T>, b: &Vec<T>) -> (r: bool)
    requires
        T::obeys_eq_spec(),
        forall|x: T, y: T| #[trigger] x.eq_spec(&y) <==> (x == y),
    ensures
        r == (a@ == b@),
{
    if a.len() != b.len() {
        return false;
    }
    let mut i: usize = 0;
    while i < a.len()
        invariant
            T::obeys_eq_spec(),
            forall|x: T, y: T| #[trigger] x.eq_spec(&y) <==> (x == y),
            a.len() == b.len(),
            i <= a.len(),
            forall|j: int| 0 <= j < i ==> a@[j] == b@[j],
        decreases a.len() - i,
    {
        if a[i] != b[i] {
            return false;
        }
        i = i + 1;
    }
    assert(a@ =~= b@);
    true
}

/// Compares two attribute values strictly (floats by their bits).
fn attribute_strict_eq(x: &AttributeValue, y: &AttributeValue) -> (r: bool)
    ensures
        r == attribute_same(*x, *y),
{
    match (x, y) {
        (AttributeValue::Bool(a), AttributeValue::Bool(b)) => *a == *b,
        (AttributeValue::I16(a), AttributeValue::I16(b)) => *a == *b,
        (AttributeValue::I32(a), AttributeValue::I32(b)) => *a == *b,
        (AttributeValue::I64(a), AttributeValue::I64(b)) => *a == *b,
        (AttributeValue::F32(a), AttributeValue::F32(b)) => *a == *b,
        (AttributeValue::F64(a), AttributeValue::F64(b)) => *a == *b,
        (AttributeValue::ArrBool(a), AttributeValue::ArrBool(b)) => vec_same(a, b),
        (AttributeValue::ArrI32(a), AttributeValue::ArrI32(b)) => vec_same(a, b),
        (AttributeValue::ArrI64(a), AttributeValue::ArrI64(b)) => vec_same(a, b),
        (AttributeValue::ArrF32(a), AttributeValue::ArrF32(b)) => vec_same(a, b),
        (AttributeValue::ArrF64(a), AttributeValue::ArrF64(b)) => vec_same(a, b),
        (AttributeValue::String(a), AttributeValue::String(b)) => *a == *b,
        (AttributeValue::Binary(a), AttributeValue::Binary(b)) => vec_same(a, b),
        _ => false,
    }
}

/// Compares two subtrees strictly.
fn nodes_strict_eq(left: NodeHandle<'_>, right: NodeHandle<'_>) -> (r: bool)
    requires
        left.wf(),
        right.wf(),
    ensures
        r == subtrees_same(left.spec_tree(), left.spec_id(), right.spec_tree(), right.spec_id()),
    decreases left.spec_tree().node_count() - left.spec_id().index(),
{
    let ghost t1 = left.spec_tree();
    let ghost t2 = right.spec_tree();
    let ghost a = left.spec_id();
    let ghost b = right.spec_id();
    proof {
        t1.lemma_children(a);
        t2.lemma_children(b);
        t1.lemma_contains(a);
    }
    // Compare name.
    let same_name = left.name().to_owned() == right.name().to_owned();
    if !same_name {
        return false;
    }
    // Compare attributes.
    let la = left.attributes();
    let ra = right.attributes();
    if la.len() != ra.len() {
        return false;
    }
    let mut i: usize = 0;
    while i < la.len()
        invariant
            t1 == left.spec_tree(),
            t2 == right.spec_tree(),
            a == left.spec_id(),
            b == right.spec_id(),
            la@ == t1.attributes_of(a),
            ra@ == t2.attributes_of(b),
            la.len() == ra.len(),
            i <= la.len(),
            forall|j: int| 0 <= j < i ==> #[trigger] attribute_same(la@[j], ra@[j]),
        decreases la.len() - i,
    {
        if !attribute_strict_eq(&la[i], &ra[i]) {
            return false;
        }
        i = i + 1;
    }
    // Compare children.
    let lc = left.children();
    let rc = right.children();
    if lc.len() != rc.len() {
        return false;
    }
    let mut j: usize = 0;
    while j < lc.len()
        invariant
            t1 == left.spec_tree(),
            t2 == right.spec_tree(),
            a == left.spec_id(),
            b == right.spec_id(),
            1 <= a.index() <= t1.node_count(),
            t1.name_of(a) == t2.name_of(b),
            attributes_same(t1.attributes_of(a), t2.attributes_of(b)),
            lc.len() == rc.len(),
            lc.len() == t1.children_of(a).len(),
            rc.len() == t2.children_of(b).len(),
            j <= lc.len(),
            forall|k: int| 0 <= k < lc.len() ==> (#[trigger] lc@[k]).is_handle_of(t1, t1.children_of(a)[k]),
            forall|k: int| 0 <= k < rc.len() ==> (#[trigger] rc@[k]).is_handle_of(t2, t2.children_of(b)[k]),
            forall|k: int|
                0 <= k < t1.children_of(a).len() ==> a.index() < (#[trigger] t1.children_of(a)[k]).index()
                    <= t1.node_count(),
            forall|k: int|
                0 <= k < j ==> #[trigger] subtrees_same(t1, t1.children_of(a)[k], t2, t2.children_of(b)[k]),
            t1.node_count() - a.index() == left.spec_tree().node_count() - left.spec_id().index(),
        decreases lc.len() - j,
    {
        if !nodes_strict_eq(lc[j], rc[j]) {
            proof {
                let c1 = t1.children_of(a);
                let c2 = t2.children_of(b);
                assert(!subtrees_same(t1, c1[j as int], t2, c2[j as int]));
                assert(a.index() < c1[j as int].index() <= t1.node_count());
                assert(!subtrees_same(t1, a, t2, b));
            }
            return false;
        }
        j = j + 1;
    }
    proof {
        let c1 = t1.children_of(a);
        let c2 = t2.children_of(b);
        assert forall|k: int|
            #![trigger t1.children_of(a)[k]]
            0 <= k < c1.len() && a.index() < c1[k].index() <= t1.node_count() implies subtrees_same(
                t1,
                c1[k],
                t2,
                c2[k],
            ) by {
            assert(subtrees_same(t1, t1.children_of(a)[k], t2, t2.children_of(b)[k]));
        }
        assert(subtrees_same(t1, a, t2, b));
    }
    true
}

impl<'a> NodeHandle<'a> {
    /// Compares the subtrees of two nodes strictly: names, attributes (floats
    /// by their bits) and children, recursively.
    ///
    /// Only the tree data is compared, not the internal state of the trees.
    pub fn strict_eq(&self, other: &Self) -> (r: bool)
        requires
            self.wf(),
            other.wf(),
        ensures
            r == subtrees_same(self.spec_tree(), self.spec_id(), other.spec_tree(), other.spec_id()),
    {
        nodes_strict_eq(*self, *other)
    }
}

impl Tree {
    /// Compares two trees strictly: their roots' subtrees.
    pub fn strict_eq(&self, other: &Self) -> (r: bool)
        requires
            self.wf(),
            other.wf(),
        ensures
            r == subtrees_same(*self, self.root_node(), *other, other.root_node()),
    {
        self.root().strict_eq(&other.root())
    }
}

/// Every subtree is strictly equal to itself.
pub proof fn law_strict_eq_reflexive(t: Tree, a: NodeId)
    requires
        t.wf(),
        t.contains(a),
    ensures
        subtrees_same(t, a, t, a),
    decreases t.node_count() - a.index(),
{
    t.lemma_contains(a);
    t.lemma_children(a);
    let c = t.children_of(a);
    let xs = t.attributes_of(a);
    assert forall|i: int| 0 <= i < xs.len() implies #[trigger] attribute_same(xs[i], xs[i]) by {}
    assert forall|k: int|
        #![trigger t.children_of(a)[k]]
        0 <= k < c.len() && a.index() < c[k].index() <= t.node_count() implies subtrees_same(
            t,
            c[k],
            t,
            c[k],
        ) by {
        law_strict_eq_reflexive(t, c[k]);
    }
}

/// Strict equality of subtrees does not depend on the order of the two.
pub proof fn law_strict_eq_symmetric(t1: Tree, a: NodeId, t2: Tree, b: NodeId)
    requires
        t1.wf(),
        t1.contains(a),
        t2.wf(),
        t2.contains(b),
        subtrees_same(t1, a, t2, b),
    ensures
        subtrees_same(t2, b, t1, a),
    decreases t1.node_count() - a.index(),
{
    t1.lemma_contains(a);
    t2.lemma_contains(b);
    t1.lemma_children(a);
    t2.lemma_children(b);
    let c1 = t1.children_of(a);
    let c2 = t2.children_of(b);
    let xs = t1.attributes_of(a);
    let ys = t2.attributes_of(b);
    assert forall|i: int| 0 <= i < ys.len() implies #[trigger] attribute_same(ys[i], xs[i]) by {
        assert(attribute_same(xs[i], ys[i]));
    }
    assert forall|k: int|
        #![trigger t2.children_of(b)[k]]
        0 <= k < c2.len() && b.index() < c2[k].index() <= t2.node_count() implies subtrees_same(
            t2,
            c2[k],
            t1,
            c1[k],
        ) by {
        assert(a.index() < t1.children_of(a)[k].index() <= t1.node_count());
        law_strict_eq_symmetric(t1, c1[k], t2, c2[k]);
    }
}

/// Strict equality of two attribute values holds exactly when both have the
/// same type and the same contents: scalars the same value (floats the same
/// bits), arrays, strings and binaries the same elements in the same order.
pub proof fn law_attribute_same_contents(x: AttributeValue, y: AttributeValue)
    ensures
        spec_value_type(x) != spec_value_type(y) ==> !attribute_same(x, y),
        x matches AttributeValue::Bool(a) ==> y matches AttributeValue::Bool(b)
            ==> (attribute_same(x, y) <==> a == b),
        x matches AttributeValue::I16(a) ==> y matches AttributeValue::I16(b)
            ==> (attribute_same(x, y) <==> a == b),
        x matches AttributeValue::I32(a) ==> y matches AttributeValue::I32(b)
            ==> (attribute_same(x, y) <==> a == b),
        x matches AttributeValue::I64(a) ==> y matches AttributeValue::I64(b)
            ==> (attribute_same(x, y) <==> a == b),
        x matches AttributeValue::F32(a) ==> y matches AttributeValue::F32(b)
            ==> (attribute_same(x, y) <==> a == b),
        x matches AttributeValue::F64(a) ==> y matches AttributeValue::F64(b)
            ==> (attribute_same(x, y) <==> a == b),
        x matches AttributeValue::ArrBool(a) ==> y matches AttributeValue::ArrBool(b)
            ==> (attribute_same(x, y) <==> a@ == b@),
        x matches AttributeValue::ArrI32(a) ==> y matches AttributeValue::ArrI32(b)
            ==> (attribute_same(x, y) <==> a@ == b@),
        x matches AttributeValue::ArrI64(a) ==> y matches AttributeValue::ArrI64(b)
            ==> (attribute_same(x, y) <==> a@ == b@),
        x matches AttributeValue::ArrF32(a) ==> y matches AttributeValue::ArrF32(b)
            ==> (attribute_same(x, y) <==> a@ == b@),
        x matches AttributeValue::ArrF64(a) ==> y matches AttributeValue::ArrF64(b)
            ==> (attribute_same(x, y) <==> a@ == b@),
        x matches AttributeValue::String(a) ==> y matches AttributeValue::String(b)
            ==> (attribute_same(x, y) <==> a@ == b@),
        x matches AttributeValue::Binary(a) ==> y matches AttributeValue::Binary(b)
            ==> (attribute_same(x, y) <==> a@ == b@),
{
}

/// Strictly equal subtrees have roots of the same name whose attributes agree
/// one by one in type, and string attributes in their text.
pub proof fn law_strict_eq_same_attributes(t1: Tree, a: NodeId, t2: Tree, b: NodeId)
    requires
        subtrees_same(t1, a, t2, b),
    ensures
        t1.name_of(a) == t2.name_of(b),
        t1.attributes_of(a).len() == t2.attributes_of(b).len(),
        forall|i: int|
            0 <= i < t1.attributes_of(a).len() ==> spec_value_type(#[trigger] t1.attributes_of(a)[i])
                == spec_value_type(t2.attributes_of(b)[i]),
        forall|i: int|
            0 <= i < t1.attributes_of(a).len() ==> (#[trigger] t1.attributes_of(a)[i] matches AttributeValue::String(s)
                ==> t2.attributes_of(b)[i] matches AttributeValue::String(u) && s@ == u@),
{
    let xs = t1.attributes_of(a);
    let ys = t2.attributes_of(b);
    assert forall|i: int| 0 <= i < xs.len() implies spec_value_type(#[trigger] xs[i]) == spec_value_type(ys[i]) by {
        assert(attribute_same(xs[i], ys[i]));
        law_attribute_same_contents(xs[i], ys[i]);
    }
    assert forall|i: int| 0 <= i < xs.len() implies (#[trigger] xs[i] matches AttributeValue::String(s)
        ==> ys[i] matches AttributeValue::String(u) && s@ == u@) by {
        assert(attribute_same(xs[i], ys[i]));
    }
}

} // verus!
