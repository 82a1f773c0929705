//! FBX data tree loader.

use vstd::prelude::*;

use crate::low::v7400::{AttributeValue, FbxFooter};
use crate::pull_parser::v7400::attribute::{load_all_direct, spec_loads_all, vec_result_view};
use crate::pull_parser::v7400::{spec_next_event, spec_reads_footer, EventKind, Parser};
use crate::pull_parser::ParserSource;
use crate::tree::v7400::{attributes_replaced, node_added, LoadError, NodeId, Tree};

verus! {

/// `t2` is `t` with one more node, the last child of `parent`, named `name`
/// and holding the attributes `attributes`.
pub open spec fn node_loaded(
    t: Tree,
    t2: Tree,
    name: Seq<char>,
    attributes: Seq<AttributeValue>,
    parent: NodeId,
) -> bool {
    exists|t1: Tree|
        #![trigger node_added(t, t1, t.next_id(), name, parent, t.children_of(parent).push(t.next_id()))]
        {
            &&& node_added(t, t1, t.next_id(), name, parent, t.children_of(parent).push(t.next_id()))
            &&& attributes_replaced(t1, t2, t.next_id(), attributes)
        }
}

/// One step of loading a tree that goes on: from the parser `p`, the tree
/// `t` and the stack `s` of the tree nodes of the open nodes (the root
/// first), to `p2`, `t2` and `s2`.
///
/// The next event is read as `spec_next_event` states. A node end closes the
/// innermost open node. A node start loads all the node's attributes with the
/// direct loader, as `spec_loads_all` states, and adds the node with them, as
/// the last child of the innermost open node.
pub open spec fn spec_load_step(
    p: Parser,
    t: Tree,
    s: Seq<NodeId>,
    p2: Parser,
    t2: Tree,
    s2: Seq<NodeId>,
) -> bool {
    exists|p1: Parser, k: crate::pull_parser::Result<EventKind>|
        #![trigger spec_next_event(p, p1, k)]
        {
            &&& spec_next_event(p, p1, k)
            &&& match k {
                Ok(EventKind::EndNode) => p2 == p1 && t2 == t && s2 == s.drop_last(),
                Ok(EventKind::StartNode) => exists|vs: Seq<AttributeValue>, f2: nat|
                    #![trigger spec_loads_all(
                        p1,
                        p1.spec_attributes_count(),
                        p1.spec_attributes_count(),
                        p1.spec_reader().spec_position() as u64,
                        Seq::empty(),
                        p2,
                        Ok::<Seq<AttributeValue>, crate::pull_parser::Error>(vs),
                        f2,
                    )]
                    {
                        &&& spec_loads_all(
                            p1,
                            p1.spec_attributes_count(),
                            p1.spec_attributes_count(),
                            p1.spec_reader().spec_position() as u64,
                            Seq::empty(),
                            p2,
                            Ok::<Seq<AttributeValue>, crate::pull_parser::Error>(vs),
                            f2,
                        )
                        &&& node_loaded(t, t2, p1.spec_node_path().last().1@, vs, s.last())
                        &&& s2 == s.push(t.next_id())
                    },
                _ => false,
            }
        }
}

/// The result of loading a tree: the tree, and the footer (or the error
/// reading it gave).
pub type LoadResult = Result<(Tree, crate::pull_parser::Result<FbxFooter>), LoadError>;

/// The last step of loading a tree: from the parser `p` and the tree `t`,
/// the parser ends as `q` and the result is `r`. The end of the document
/// gives the tree, with the footer read after it as `spec_reads_footer`
/// states (a footer that cannot be read leaves the tree loaded); otherwise
/// the first error of the parser is the result, from reading the event or
/// the attributes of a node that starts.
pub open spec fn spec_load_end(p: Parser, t: Tree, q: Parser, r: LoadResult) -> bool {
    exists|p1: Parser, k: crate::pull_parser::Result<EventKind>|
        #![trigger spec_next_event(p, p1, k)]
        {
            &&& spec_next_event(p, p1, k)
            &&& match k {
                Err(e) => q == p1 && r == LoadResult::Err(LoadError::Parser(e)),
                Ok(EventKind::EndFbx) => r matches Ok((t2, f)) && t2 == t && spec_reads_footer(p1, q, f),
                Ok(EventKind::StartNode) => exists|e: crate::pull_parser::Error, f2: nat|
                    #![trigger spec_loads_all(
                        p1,
                        p1.spec_attributes_count(),
                        p1.spec_attributes_count(),
                        p1.spec_reader().spec_position() as u64,
                        Seq::empty(),
                        q,
                        Err::<Seq<AttributeValue>, crate::pull_parser::Error>(e),
                        f2,
                    )]
                    {
                        &&& spec_loads_all(
                            p1,
                            p1.spec_attributes_count(),
                            p1.spec_attributes_count(),
                            p1.spec_reader().spec_position() as u64,
                            Seq::empty(),
                            q,
                            Err::<Seq<AttributeValue>, crate::pull_parser::Error>(e),
                            f2,
                        )
                        &&& r == LoadResult::Err(LoadError::Parser(e))
                    },
                Ok(EventKind::EndNode) => false,
            }
        }
}

/// The step of a run from its entry `i` to the next one.
pub open spec fn spec_run_step(run: Seq<(Parser, Tree, Seq<NodeId>)>, i: int) -> bool {
    spec_load_step(run[i].0, run[i].1, run[i].2, run[i + 1].0, run[i + 1].1, run[i + 1].2)
}

/// Loading a tree from the parser `p` into the tree `t` (the root alone)
/// ends with the parser `q` and the result `r`: a run of steps from `p`, `t`
/// and the stack of the root goes on as `spec_load_step` states, and ends as
/// `spec_load_end` states.
pub open spec fn spec_tree_loaded(p: Parser, t: Tree, q: Parser, r: LoadResult) -> bool {
    exists|run: Seq<(Parser, Tree, Seq<NodeId>)>|
        #![trigger spec_load_end(run.last().0, run.last().1, q, r)]
        {
            &&& run.len() >= 1
            &&& run[0] == (p, t, seq![t.root_node()])
            &&& forall|i: int| 0 <= i < run.len() - 1 ==> #[trigger] spec_run_step(run, i)
            &&& spec_load_end(run.last().0, run.last().1, q, r)
        }
}

/// A bound on the data a loader reads: every node takes at least 13 bytes, so
/// that the tree gets fewer than `u32::MAX - 1` nodes, and so no more
/// distinct names than 32-bit name symbols can number.
pub open spec fn spec_loadable_len(len: nat) -> bool {
    len < 13 * (u32::MAX - 2)
}

/// FBX data tree loader.
pub struct Loader {
    /// The tree being built: the root alone before loading.
    tree: Tree,
}

impl Loader {
    /// The tree the loader starts from.
    pub closed spec fn spec_tree(self) -> Tree {
        self.tree
    }

    /// A loader holds a tree with the root alone.
    pub open spec fn wf(self) -> bool {
        &&& self.spec_tree().wf()
        &&& self.spec_tree().node_count() == 1
    }

    /// Creates a new `Loader`.
    pub fn new() -> (r: Self)
        ensures
            r.wf(),
            r.spec_tree().node_count() == 1,
            r.spec_tree().name_of(r.spec_tree().root_node()) == Seq::<char>::empty(),
            r.spec_tree().attributes_of(r.spec_tree().root_node()) == Seq::<AttributeValue>::empty(),
            r.spec_tree().children_of(r.spec_tree().root_node()) == Seq::<NodeId>::empty(),
    {
        Loader { tree: Tree::default() }
    }

    /// Loads a tree from the given parser, and returns the tree and the FBX
    /// footer.
    ///
    /// The given parser should be brand-new, i.e. it should not have emitted
    /// any event; otherwise `LoadError::BadParser` is returned.
    ///
    /// If the tree is read but the FBX footer is not, the tree is returned
    /// with the footer's error.
    pub fn load(self, parser: &mut Parser) -> (r: LoadResult)
        requires
            self.wf(),
            old(parser).wf(),
            !old(parser).spec_used() ==> spec_loadable_len(old(parser).spec_reader().spec_rest().len()),
        ensures
            old(parser).spec_used() ==> (r matches Err(LoadError::BadParser) && *final(parser) == *old(parser)),
            !old(parser).spec_used() ==> spec_tree_loaded(*old(parser), self.spec_tree(), *final(parser), r),
            r matches Ok((t, _)) ==> t.wf() && final(parser).spec_finished(),
    {
        if parser.is_used() {
            return Err(LoadError::BadParser);
        }
        let ghost p0 = *parser;
        let ghost t0 = self.tree;
        let ghost rest0 = parser.spec_reader().spec_rest().len();
        let mut tree = self.tree;
        proof {
            tree.lemma_root();
        }
        let mut open_nodes: Vec<NodeId> = Vec::new();
        open_nodes.push(tree.root().node_id());
        let ghost mut run: Seq<(Parser, Tree, Seq<NodeId>)> = seq![(p0, t0, seq![t0.root_node()])];
        loop
            invariant
                p0 == *old(parser),
                !p0.spec_used(),
                t0 == self.spec_tree(),
                rest0 == p0.spec_reader().spec_rest().len(),
                spec_loadable_len(rest0),
                parser.wf(),
                parser.spec_running(),
                tree.wf(),
                open_nodes.len() == parser.spec_nodes().len() + 1,
                forall|i: int| 0 <= i < open_nodes.len() ==> tree.contains(#[trigger] open_nodes@[i]),
                parser.spec_reader().spec_rest().len() <= rest0,
                13 * (tree.node_count() - 1) <= rest0 - parser.spec_reader().spec_rest().len(),
                run.len() >= 1,
                run[0] == (p0, t0, seq![t0.root_node()]),
                run.last() == (*parser, tree, open_nodes@),
                forall|i: int| 0 <= i < run.len() - 1 ==> #[trigger] spec_run_step(run, i),
            decreases parser.spec_reader().spec_rest().len(), parser.spec_nodes().len(),
        {
            let ghost pa = *parser;
            let ghost ta = tree;
            let ghost sa = open_nodes@;
            let event = parser.next_event_kind();
            let ghost p1 = *parser;
            match event {
                Err(e) => {
                    proof {
                        assert(spec_load_end(pa, ta, p1, LoadResult::Err(LoadError::Parser(e))));
                        assert(spec_load_end(run.last().0, run.last().1, p1, LoadResult::Err(LoadError::Parser(e))));
                        assert(spec_tree_loaded(p0, t0, p1, LoadResult::Err(LoadError::Parser(e))));
                    }
                    return Err(LoadError::Parser(e));
                },
                Ok(EventKind::EndFbx) => {
                    let footer = parser.read_footer();
                    let ghost q = *parser;
                    proof {
                        let r = LoadResult::Ok((ta, footer));
                        assert(spec_load_end(pa, ta, q, r));
                        assert(spec_load_end(run.last().0, run.last().1, q, r));
                        assert(spec_tree_loaded(p0, t0, q, r));
                    }
                    return Ok((tree, footer));
                },
                Ok(EventKind::EndNode) => {
                    let _ = open_nodes.pop();
                    proof {
                        assert(open_nodes@ == sa.drop_last());
                        assert(spec_load_step(pa, ta, sa, p1, ta, sa.drop_last()));
                        let run2 = run.push((*parser, tree, open_nodes@));
                        assert forall|i: int| 0 <= i < run2.len() - 1 implies #[trigger] spec_run_step(run2, i) by {
                            if i < run.len() - 1 {
                                assert(spec_run_step(run, i));
                                assert(run2[i] == run[i] && run2[i + 1] == run[i + 1]);
                            } else {
                                assert(run2[i] == run.last());
                            }
                        }
                        run = run2;
                    }
                },
                Ok(EventKind::StartNode) => {
                    let name = parser.current_node_name().to_owned();
                    let attrs = load_all_direct(parser);
                    let ghost p2 = *parser;
                    let ghost f2 = choose|f2: nat|
                        #[trigger] spec_loads_all(
                            p1,
                            p1.spec_attributes_count(),
                            p1.spec_attributes_count(),
                            p1.spec_reader().spec_position() as u64,
                            Seq::empty(),
                            p2,
                            vec_result_view(attrs),
                            f2,
                        );
                    match attrs {
                        Err(e) => {
                            proof {
                                assert(spec_loads_all(
                                    p1,
                                    p1.spec_attributes_count(),
                                    p1.spec_attributes_count(),
                                    p1.spec_reader().spec_position() as u64,
                                    Seq::empty(),
                                    p2,
                                    Err::<Seq<AttributeValue>, crate::pull_parser::Error>(e),
                                    f2,
                                ));
                                assert(spec_load_end(pa, ta, p2, LoadResult::Err(LoadError::Parser(e))));
                                assert(spec_load_end(
                                    run.last().0,
                                    run.last().1,
                                    p2,
                                    LoadResult::Err(LoadError::Parser(e)),
                                ));
                                assert(spec_tree_loaded(p0, t0, p2, LoadResult::Err(LoadError::Parser(e))));
                            }
                            return Err(LoadError::Parser(e));
                        },
                        Ok(values) => {
                            let parent = open_nodes[open_nodes.len() - 1];
                            let ghost vs = values@;
                            proof {
                                tree.lemma_name_room(name@);
                            }
                            let id = tree.append_new(parent, name.as_str());
                            let ghost t1 = tree;
                            tree.set_attributes_vec(id, values);
                            open_nodes.push(id);
                            proof {
                                assert(spec_loads_all(
                                    p1,
                                    p1.spec_attributes_count(),
                                    p1.spec_attributes_count(),
                                    p1.spec_reader().spec_position() as u64,
                                    Seq::empty(),
                                    p2,
                                    Ok::<Seq<AttributeValue>, crate::pull_parser::Error>(vs),
                                    f2,
                                ));
                                assert(node_added(
                                    ta,
                                    t1,
                                    ta.next_id(),
                                    p1.spec_node_path().last().1@,
                                    sa.last(),
                                    ta.children_of(sa.last()).push(ta.next_id()),
                                ));
                                assert(node_loaded(ta, tree, p1.spec_node_path().last().1@, vs, sa.last()));
                                assert(open_nodes@ == sa.push(ta.next_id()));
                                assert(spec_load_step(pa, ta, sa, p2, tree, open_nodes@));
                                let run2 = run.push((*parser, tree, open_nodes@));
                                assert forall|i: int| 0 <= i < run2.len() - 1 implies #[trigger] spec_run_step(run2, i) by {
                                    if i < run.len() - 1 {
                                        assert(spec_run_step(run, i));
                                        assert(run2[i] == run[i] && run2[i + 1] == run[i + 1]);
                                    } else {
                                        assert(run2[i] == run.last());
                                    }
                                }
                                run = run2;
                            }
                        },
                    }
                },
            }
        }
    }
}

impl Default for Loader {
    /// A loader for a tree with the root alone.
    fn default() -> (r: Self)
        ensures
            r.wf(),
    {
        Loader::new()
    }
}

} // verus!
