//! Parser event.

use vstd::prelude::*;

use crate::low::v7400::FbxFooter;
use crate::pull_parser::v7400::{Attributes, Parser};
use crate::pull_parser::{ParserSource, Result};

verus! {

/// Parser event.
#[derive(Debug)]
pub enum Event<'a> {
    /// Start of a node.
    StartNode(StartNode<'a>),
    /// End of a node.
    EndNode,
    /// End of an FBX document, with the footer that follows it (or the error
    /// reading the footer gave).
    EndFbx(Result<FbxFooter>),
}

/// Node start event.
#[derive(Debug)]
pub struct StartNode<'a> {
    /// Parser (used as a token).
    parser: &'a mut Parser,
}

impl<'a> StartNode<'a> {
    /// The parser, right after the node header and name.
    pub closed spec fn spec_parser(&self) -> Parser {
        *self.parser
    }

    /// Creates a new `StartNode`.
    pub(crate) fn new(parser: &'a mut Parser) -> (r: Self)
        ensures
            r.spec_parser() == *old(parser),
    {
        Self { parser }
    }

    /// Returns the node name.
    pub fn name(&self) -> (r: &str)
        ensures
            self.spec_parser().spec_node_path().len() > 0 ==> r@
                == self.spec_parser().spec_node_path().last().1@,
    {
        self.parser.current_node_name()
    }

    /// Returns node attributes reader.
    pub fn attributes(self) -> (r: Attributes<'a>)
        requires
            self.spec_parser().wf(),
        ensures
            r.wf(),
            r.spec_parser() == self.spec_parser(),
            r.spec_total_count() == self.spec_parser().spec_attributes_count(),
            r.spec_rest_count() == r.spec_total_count(),
            r.spec_next_offset() == self.spec_parser().spec_reader().spec_position(),
    {
        Attributes::from_parser(self.parser)
    }
}

} // verus!
