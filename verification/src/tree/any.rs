//! Types and functions for all supported versions.

use vstd::prelude::*;

use crate::low::FbxVersion;
use crate::pull_parser::any::{spec_any_parser, AnyParser};
use crate::pull_parser::v7400::spec_headroom;
use crate::pull_parser::error::Warning;
use crate::pull_parser::{self, ParserSource, SyntacticPosition};
use crate::stream::MemoryReader;
use crate::tree::v7400::{spec_loadable_len, spec_tree_loaded, LoadResult, Loader, NodeId, Tree};
use crate::low::v7400::{AttributeValue, FbxFooter};

pub use self::error::{Error, Result};

mod error;

verus! {

/// FBX tree type with any supported version.
#[non_exhaustive]
pub enum AnyTree {
    /// FBX 7.4 or later: the version, the tree and the footer (or the error
    /// reading it gave).
    V7400(FbxVersion, Tree, pull_parser::Result<FbxFooter>),
}

/// A tree with the root alone: no name, no attributes, no children.
pub open spec fn bare_tree(t: Tree) -> bool {
    &&& t.wf()
    &&& t.node_count() == 1
    &&& t.name_of(t.root_node()) == Seq::<char>::empty()
    &&& t.attributes_of(t.root_node()) == Seq::<AttributeValue>::empty()
    &&& t.children_of(t.root_node()) == Seq::<NodeId>::empty()
}

/// What loading a tree from the FBX data in `data` gives, the data starting
/// at position `pos`: the parser creation error, or the tree loaded by a
/// brand-new parser into a tree with the root alone (see
/// `spec_tree_loaded`) with the footer read after it, or the loader's error.
pub open spec fn spec_any_tree(data: Seq<u8>, pos: nat, seekable: bool, r: Result<AnyTree>) -> bool {
    exists|ap: pull_parser::any::Result<AnyParser>|
        #![trigger spec_any_parser(data, pos, seekable, ap)]
        {
            &&& spec_any_parser(data, pos, seekable, ap)
            &&& match ap {
                Err(e) => r == Err::<AnyTree, Error>(Error::ParserCreation(e)),
                Ok(AnyParser::V7400(p)) => exists|t0: Tree, q: pull_parser::v7400::Parser, lr: LoadResult|
                    #![trigger spec_tree_loaded(p, t0, q, lr)]
                    {
                        &&& bare_tree(t0)
                        &&& spec_tree_loaded(p, t0, q, lr)
                        &&& match lr {
                            Ok((t, f)) => r == Ok::<AnyTree, Error>(AnyTree::V7400(p.spec_fbx_version(), t, f)),
                            Err(e) => r == Err::<AnyTree, Error>(Error::Tree(e)),
                        }
                    },
            }
        }
}

/// What loading a tree from the FBX data in `data` gives, as
/// `spec_any_tree` states, with the warnings the parser emitted on the way
/// (none if no parser could be made).
pub open spec fn spec_any_tree_warned(
    data: Seq<u8>,
    pos: nat,
    seekable: bool,
    r: Result<AnyTree>,
    ws: Seq<(Warning, SyntacticPosition)>,
) -> bool {
    exists|ap: pull_parser::any::Result<AnyParser>|
        #![trigger spec_any_parser(data, pos, seekable, ap)]
        {
            &&& spec_any_parser(data, pos, seekable, ap)
            &&& match ap {
                Err(e) => r == Err::<AnyTree, Error>(Error::ParserCreation(e)) && ws == Seq::<
                    (Warning, SyntacticPosition),
                >::empty(),
                Ok(AnyParser::V7400(p)) => exists|t0: Tree, q: pull_parser::v7400::Parser, lr: LoadResult|
                    #![trigger spec_tree_loaded(p, t0, q, lr)]
                    {
                        &&& bare_tree(t0)
                        &&& spec_tree_loaded(p, t0, q, lr)
                        &&& ws == q.spec_warnings()
                        &&& match lr {
                            Ok((t, f)) => r == Ok::<AnyTree, Error>(AnyTree::V7400(p.spec_fbx_version(), t, f)),
                            Err(e) => r == Err::<AnyTree, Error>(Error::Tree(e)),
                        }
                    },
            }
        }
}

/// Loads a tree with the parser made for the data, and returns it with the
/// warnings the parser emitted.
fn load_any(parser: pull_parser::any::Result<AnyParser>) -> (r: (Result<AnyTree>, Vec<(Warning, SyntacticPosition)>))
    requires
        parser matches Ok(AnyParser::V7400(p)) ==> p.wf() && p.spec_fresh(p.spec_fbx_version())
            && spec_loadable_len(p.spec_reader().spec_rest().len()),
    ensures
        parser matches Err(e) ==> r.0 == Err::<AnyTree, Error>(Error::ParserCreation(e)) && r.1@
            == Seq::<(Warning, SyntacticPosition)>::empty(),
        parser matches Ok(AnyParser::V7400(p)) ==> exists|t0: Tree, q: pull_parser::v7400::Parser, lr: LoadResult|
            #![trigger spec_tree_loaded(p, t0, q, lr)]
            {
                &&& bare_tree(t0)
                &&& spec_tree_loaded(p, t0, q, lr)
                &&& r.1@ == q.spec_warnings()
                &&& match lr {
                    Ok((t, f)) => r.0 == Ok::<AnyTree, Error>(AnyTree::V7400(p.spec_fbx_version(), t, f)),
                    Err(e) => r.0 == Err::<AnyTree, Error>(Error::Tree(e)),
                }
            },
{
    match parser {
        Err(e) => (Err(Error::ParserCreation(e)), Vec::new()),
        Ok(AnyParser::V7400(mut parser)) => {
            let ghost p0 = parser;
            let fbx_version = parser.fbx_version();
            let loader = Loader::new();
            let ghost t0 = loader.spec_tree();
            let loaded = loader.load(&mut parser);
            proof {
                assert(spec_tree_loaded(p0, t0, parser, loaded));
            }
            let warnings = parser.into_warnings();
            match loaded {
                Ok((tree, footer)) => (Ok(AnyTree::V7400(fbx_version, tree, footer)), warnings),
                Err(e) => (Err(Error::Tree(e)), warnings),
            }
        },
    }
}

impl AnyTree {
    /// Loads a tree from the given reader, skipping by reading.
    pub fn from_reader(reader: MemoryReader) -> (r: Result<Self>)
        requires
            reader.pos() + reader.rest().len() + spec_headroom() <= u64::MAX,
            spec_loadable_len(reader.rest().len()),
        ensures
            spec_any_tree(reader.rest(), reader.pos(), false, r),
    {
        let ghost data = reader.rest();
        let ghost pos = reader.pos();
        let parser = pull_parser::any::from_reader(reader);
        proof {
            assert(parser matches Ok(AnyParser::V7400(p)) ==> p.spec_reader().spec_rest().len()
                <= data.len());
        }
        let (r, _) = load_any(parser);
        proof {
            assert(spec_any_parser(data, pos, false, parser));
        }
        r
    }

    /// Loads a tree from the given reader, skipping by reading, and returns
    /// it with the warnings the parser emitted.
    pub fn from_reader_with_warnings(reader: MemoryReader) -> (r: (
        Result<Self>,
        Vec<(Warning, SyntacticPosition)>,
    ))
        requires
            reader.pos() + reader.rest().len() + spec_headroom() <= u64::MAX,
            spec_loadable_len(reader.rest().len()),
        ensures
            spec_any_tree_warned(reader.rest(), reader.pos(), false, r.0, r.1@),
    {
        let ghost data = reader.rest();
        let ghost pos = reader.pos();
        let parser = pull_parser::any::from_reader(reader);
        proof {
            assert(parser matches Ok(AnyParser::V7400(p)) ==> p.spec_reader().spec_rest().len()
                <= data.len());
        }
        let r = load_any(parser);
        proof {
            assert(spec_any_parser(data, pos, false, parser));
        }
        r
    }

    /// Loads a tree from the given reader, skipping by seeking.
    pub fn from_seekable_reader(reader: MemoryReader) -> (r: Result<Self>)
        requires
            reader.pos() + reader.rest().len() + spec_headroom() <= u64::MAX,
            spec_loadable_len(reader.rest().len()),
        ensures
            spec_any_tree(reader.rest(), reader.pos(), true, r),
    {
        let ghost data = reader.rest();
        let ghost pos = reader.pos();
        let parser = pull_parser::any::from_seekable_reader(reader);
        proof {
            assert(parser matches Ok(AnyParser::V7400(p)) ==> p.spec_reader().spec_rest().len()
                <= data.len());
        }
        let (r, _) = load_any(parser);
        proof {
            assert(spec_any_parser(data, pos, true, parser));
        }
        r
    }

    /// Loads a tree from the given reader, skipping by seeking, and returns
    /// it with the warnings the parser emitted.
    pub fn from_seekable_reader_with_warnings(reader: MemoryReader) -> (r: (
        Result<Self>,
        Vec<(Warning, SyntacticPosition)>,
    ))
        requires
            reader.pos() + reader.rest().len() + spec_headroom() <= u64::MAX,
            spec_loadable_len(reader.rest().len()),
        ensures
            spec_any_tree_warned(reader.rest(), reader.pos(), true, r.0, r.1@),
    {
        let ghost data = reader.rest();
        let ghost pos = reader.pos();
        let parser = pull_parser::any::from_seekable_reader(reader);
        proof {
            assert(parser matches Ok(AnyParser::V7400(p)) ==> p.spec_reader().spec_rest().len()
                <= data.len());
        }
        let r = load_any(parser);
        proof {
            assert(spec_any_parser(data, pos, true, parser));
        }
        r
    }

    /// Returns the FBX version of the document the tree came from.
    pub fn fbx_version(&self) -> (r: FbxVersion)
        ensures
            self matches AnyTree::V7400(v, _, _) ==> r == v,
    {
        match self {
            Self::V7400(ver, _, _) => *ver,
        }
    }
}

} // verus!
