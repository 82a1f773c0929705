//! Parser for FBX 7.4 or later.

use vstd::prelude::*;

use crate::low::v7400::{ArrayAttributeHeader, AttributeType, SpecialAttributeHeader};
use crate::low::{spec_parser_version, FbxVersion, HEADER_LEN};
use crate::pull_parser::error::{ErrorContainer, OperationError, Warning};
use crate::pull_parser::position::clone_node_path;
use crate::pull_parser::reader::{spec_consumed, spec_min, Reader};
use crate::codec::{spec_le_u16, spec_le_u32, spec_le_u64};
use crate::low::v7400::{spec_encoding_from_u32, spec_from_type_code};
use crate::pull_parser::error::DataError;
use crate::pull_parser::v7400::attribute::is_io_error;
use crate::pull_parser::v7400::read::{spec_array_header_fields, 
    read_array_header, read_attribute_type, read_bytes, read_i16, read_i32, read_i64,
    read_special_header, read_u32, read_u64, read_u8, spec_read_step,
};
use crate::pull_parser::{Error, ParserSource, ParserVersion, Result, SyntacticPosition};
use crate::stream::{IoError, MemoryReader};

pub use self::node::{
    is_end_position, is_node_position, law_next_event_ignores_skipping, spec_end_result,
    spec_end_warnings, spec_marker_required, law_next_event_keeps_warnings,
    law_stopped_parser_reads_no_event, same_open_nodes, spec_count_up, spec_ends_document, spec_is_end_marker, spec_large_header, spec_name_warnings,
    spec_next_event, spec_next_raw, spec_node_header, spec_node_header_len, spec_popped,
    spec_pushed, spec_saturating_add, spec_skip_len, EventKind,
};

pub use self::footer::{fails_at, spec_footer_warnings, spec_reads_footer};

mod footer;
mod node;

verus! {

/// Room left above the end of the data, in 64-bit byte positions, for offsets
/// computed from 32-bit lengths.
pub open spec fn spec_headroom() -> nat {
    0x1_0000_0000
}

/// Parsing progress.
#[derive(Debug)]
enum Health {
    /// Parsing can continue.
    Running,
    /// Parsing stopped on an error at the given position.
    Aborted(SyntacticPosition),
    /// The whole document was read.
    Finished,
}

/// A node the parser has started and not yet closed.
#[derive(Debug)]
pub struct OpenNode {
    /// Node name.
    pub name: String,
    /// Number of preceding siblings.
    pub index: usize,
    /// Beginning byte position of the node.
    pub start_pos: u64,
    /// Number of attributes.
    pub attributes_count: u64,
    /// End position of the node, as its header declares.
    pub end_pos: u64,
    /// End position of the node's attributes.
    pub attributes_end_pos: u64,
    /// Number of children read so far.
    pub children: usize,
}

/// Parser state.
///
/// This type contains parser state especially which are independent of parser
/// source type.
#[derive(Debug)]
struct State {
    /// Target FBX version.
    fbx_version: FbxVersion,
    /// Parsing progress.
    health: Health,
    /// Open nodes, outermost first.
    open_nodes: Vec<OpenNode>,
    /// Warnings emitted so far, with their positions.
    warnings: Vec<(Warning, SyntacticPosition)>,
    /// Whether a warning stops the parsing.
    warnings_critical: bool,
    /// Number of top-level nodes read so far.
    root_children: usize,
}

impl State {
    /// Creates a new `State` for the given FBX version.
    fn new(fbx_version: FbxVersion) -> (s: Self)
        ensures
            s.fbx_version == fbx_version,
            s.health is Running,
            s.open_nodes@.len() == 0,
            s.warnings@.len() == 0,
            !s.warnings_critical,
            s.root_children == 0,
    {
        Self {
            fbx_version,
            health: Health::Running,
            open_nodes: Vec::new(),
            warnings: Vec::new(),
            warnings_critical: false,
            root_children: 0,
        }
    }
}

/// The node path of a stack of open nodes.
pub open spec fn spec_path_of(nodes: Seq<OpenNode>) -> Seq<(usize, String)> {
    nodes.map_values(|n: OpenNode| (n.index, n.name))
}

/// Pull parser for FBX 7.4 binary or compatible later versions.
#[derive(Debug)]
pub struct Parser {
    /// Parser state.
    state: State,
    /// Reader.
    reader: Reader,
}

/// Creates a new `Parser` reading the data after the file header.
///
/// The source skips by reading. Byte positions are offsets in the file: the
/// first one is the header's length.
/// Returns an error if the given FBX version in unsupported.
pub fn from_reader(fbx_version: FbxVersion, reader: MemoryReader) -> (r: Result<Parser>)
    requires
        HEADER_LEN + reader.rest().len() + spec_headroom() <= u64::MAX,
    ensures
        spec_parser_version(fbx_version@) == Some(ParserVersion::V7400) ==> (r matches Ok(p)
            && p.wf() && p.spec_fresh(fbx_version) && p.spec_reader().spec_rest() == reader.rest()
            && p.spec_reader().spec_position() == HEADER_LEN && !p.spec_reader().spec_seekable()),
        spec_parser_version(fbx_version@) != Some(ParserVersion::V7400) ==> (r matches Err(e)
            && e.container() == ErrorContainer::Operation(
            OperationError::UnsupportedFbxVersion(ParserVersion::V7400, fbx_version),
        )),
{
    let inner = if reader.position() <= HEADER_LEN {
        reader
    } else {
        MemoryReader::new(reader.into_rest())
    };
    Parser::create(fbx_version, Reader::new(inner, HEADER_LEN as u64))
}

/// Creates a new `Parser` reading the data after the file header, skipping by
/// seeking.
///
/// Returns an error if the given FBX version in unsupported.
pub fn from_seekable_reader(fbx_version: FbxVersion, reader: MemoryReader) -> (r: Result<Parser>)
    requires
        HEADER_LEN + reader.rest().len() + spec_headroom() <= u64::MAX,
    ensures
        spec_parser_version(fbx_version@) == Some(ParserVersion::V7400) ==> (r matches Ok(p)
            && p.wf() && p.spec_fresh(fbx_version) && p.spec_reader().spec_rest() == reader.rest()
            && p.spec_reader().spec_position() == HEADER_LEN && p.spec_reader().spec_seekable()),
        spec_parser_version(fbx_version@) != Some(ParserVersion::V7400) ==> (r matches Err(e)
            && e.container() == ErrorContainer::Operation(
            OperationError::UnsupportedFbxVersion(ParserVersion::V7400, fbx_version),
        )),
{
    let inner = if reader.position() <= HEADER_LEN {
        reader
    } else {
        MemoryReader::new(reader.into_rest())
    };
    Parser::create(fbx_version, Reader::with_seekable(inner, HEADER_LEN as u64))
}

impl Parser {
    /// The reader.
    pub closed spec fn spec_reader(&self) -> Reader {
        self.reader
    }

    /// The FBX version.
    pub closed spec fn spec_fbx_version(&self) -> FbxVersion {
        self.state.fbx_version
    }

    /// Whether parsing can continue.
    pub closed spec fn spec_running(&self) -> bool {
        self.state.health is Running
    }

    /// Whether parsing stopped on an error.
    pub closed spec fn spec_aborted(&self) -> bool {
        self.state.health is Aborted
    }

    /// The position parsing stopped at, if it did on an error.
    pub closed spec fn spec_abort_position(&self) -> Option<SyntacticPosition> {
        match self.state.health {
            Health::Aborted(p) => Some(p),
            _ => None,
        }
    }

    /// The open nodes, outermost first.
    pub closed spec fn spec_nodes(&self) -> Seq<OpenNode> {
        self.state.open_nodes@
    }

    /// Number of top-level nodes read so far.
    pub closed spec fn spec_root_children(&self) -> usize {
        self.state.root_children
    }

    /// The node path: sibling index and name of each open node.
    pub open spec fn spec_node_path(&self) -> Seq<(usize, String)> {
        spec_path_of(self.spec_nodes())
    }

    /// Beginning byte position of the innermost open node (0 if none).
    pub open spec fn spec_node_start(&self) -> u64 {
        if self.spec_nodes().len() == 0 {
            0
        } else {
            self.spec_nodes().last().start_pos
        }
    }

    /// Number of attributes of the innermost open node (0 if none).
    pub open spec fn spec_attributes_count(&self) -> u64 {
        if self.spec_nodes().len() == 0 {
            0
        } else {
            self.spec_nodes().last().attributes_count
        }
    }

    /// End position of the innermost open node, as its header declares (0 if
    /// none).
    pub open spec fn spec_node_end(&self) -> u64 {
        if self.spec_nodes().len() == 0 {
            0
        } else {
            self.spec_nodes().last().end_pos
        }
    }

    /// End position of the attributes of the innermost open node (0 if none).
    pub open spec fn spec_attributes_end(&self) -> u64 {
        if self.spec_nodes().len() == 0 {
            0
        } else {
            self.spec_nodes().last().attributes_end_pos
        }
    }

    /// Number of children of the innermost open node read so far (of
    /// top-level nodes if none is open).
    pub open spec fn spec_child_count(&self) -> usize {
        if self.spec_nodes().len() == 0 {
            self.spec_root_children()
        } else {
            self.spec_nodes().last().children
        }
    }

    /// Whether the whole document was read.
    pub closed spec fn spec_finished(&self) -> bool {
        self.state.health is Finished
    }

    /// `self` and `other` have the same open nodes, with the same numbers of
    /// children read.
    pub open spec fn same_nodes(&self, other: &Parser) -> bool {
        &&& self.spec_nodes() == other.spec_nodes()
        &&& self.spec_root_children() == other.spec_root_children()
    }

    /// Warnings emitted so far.
    pub closed spec fn spec_warnings(&self) -> Seq<(Warning, SyntacticPosition)> {
        self.state.warnings@
    }

    /// Whether a warning stops the parsing.
    pub closed spec fn spec_warnings_critical(&self) -> bool {
        self.state.warnings_critical
    }

    /// A brand-new parser for the given FBX version.
    pub open spec fn spec_fresh(&self, fbx_version: FbxVersion) -> bool {
        &&& self.spec_fbx_version() == fbx_version
        &&& self.spec_running()
        &&& self.spec_node_path().len() == 0
        &&& self.spec_nodes().len() == 0
        &&& self.spec_root_children() == 0
        &&& self.spec_warnings().len() == 0
        &&& !self.spec_warnings_critical()
    }

    /// Well-formedness: the reader's end position fits in `usize`, with room
    /// for 32-bit lengths while parsing can continue.
    pub open spec fn wf(&self) -> bool {
        &&& self.spec_reader().bounded()
        &&& self.spec_running() ==> self.spec_reader().spec_position()
            + self.spec_reader().spec_rest().len() + spec_headroom() <= u64::MAX
    }

    /// `self` and `other` differ at most in their readers.
    pub open spec fn same_state(&self, other: &Parser) -> bool {
        &&& self.same_progress(other)
        &&& self.spec_warnings() == other.spec_warnings()
    }

    /// `self` and `other` read the same node of the same document, with the
    /// same warning policy.
    pub open spec fn same_document(&self, other: &Parser) -> bool {
        &&& self.spec_fbx_version() == other.spec_fbx_version()
        &&& self.spec_node_path() == other.spec_node_path()
        &&& self.spec_node_start() == other.spec_node_start()
        &&& self.spec_attributes_count() == other.spec_attributes_count()
        &&& self.spec_node_end() == other.spec_node_end()
        &&& self.spec_attributes_end() == other.spec_attributes_end()
        &&& self.spec_child_count() == other.spec_child_count()
        &&& self.same_nodes(other)
        &&& self.spec_warnings_critical() == other.spec_warnings_critical()
    }

    /// `self` and `other` differ at most in their readers and warnings.
    pub open spec fn same_progress(&self, other: &Parser) -> bool {
        &&& self.same_document(other)
        &&& self.spec_running() == other.spec_running()
        &&& self.spec_aborted() == other.spec_aborted()
        &&& self.spec_finished() == other.spec_finished()
        &&& self.spec_abort_position() == other.spec_abort_position()
    }

    /// Creates a new `Parser`.
    ///
    /// Returns an error if the given FBX version in unsupported.
    pub(crate) fn create(fbx_version: FbxVersion, reader: Reader) -> (r: Result<Self>)
        requires
            reader.bounded(),
            reader.spec_position() + reader.spec_rest().len() + spec_headroom() <= u64::MAX,
        ensures
            spec_parser_version(fbx_version@) == Some(ParserVersion::V7400) ==> (r matches Ok(p)
                && p.wf() && p.spec_fresh(fbx_version) && p.spec_reader() == reader),
            spec_parser_version(fbx_version@) != Some(ParserVersion::V7400) ==> (r matches Err(e)
                && e.container() == ErrorContainer::Operation(
                OperationError::UnsupportedFbxVersion(ParserVersion::V7400, fbx_version),
            ) && e.spec_position() is None),
    {
        match fbx_version.parser_version() {
            Some(ParserVersion::V7400) => {},
            _ => {
                return Err(
                    Error::new(
                        ErrorContainer::Operation(
                            OperationError::UnsupportedFbxVersion(
                                ParserVersion::V7400,
                                fbx_version,
                            ),
                        ),
                    ),
                );
            },
        }
        Ok(Self { state: State::new(fbx_version), reader })
    }

    /// Returns FBX version.
    pub fn fbx_version(&self) -> (v: FbxVersion)
        ensures
            v == self.spec_fbx_version(),
    {
        self.state.fbx_version
    }

    /// Returns whether the parser stopped on an error.
    pub fn is_aborted(&self) -> (r: bool)
        ensures
            r == self.spec_aborted(),
    {
        match self.state.health {
            Health::Aborted(_) => true,
            _ => false,
        }
    }

    /// A parser is in one state at a time: running, aborted on an error, or
    /// finished; an aborted or finished parser does not run.
    pub proof fn lemma_health(&self)
        ensures
            self.spec_aborted() ==> !self.spec_running() && !self.spec_finished(),
            self.spec_finished() ==> !self.spec_running(),
            self.spec_running() || self.spec_aborted() || self.spec_finished(),
            self.spec_abort_position() is Some <==> self.spec_aborted(),
    {
    }

    /// Whether the parser has emitted some event (or stopped): a brand-new
    /// parser is still running, with no node read.
    pub open spec fn spec_used(&self) -> bool {
        !(self.spec_running() && self.spec_nodes().len() == 0 && self.spec_root_children() == 0)
    }

    /// Returns whether the parser has already emitted some event.
    pub fn is_used(&self) -> (r: bool)
        ensures
            r == self.spec_used(),
    {
        let running = match self.state.health {
            Health::Running => true,
            _ => false,
        };
        !(running && self.state.open_nodes.len() == 0 && self.state.root_children == 0)
    }

    /// Makes every later warning stop the parsing (or not).
    ///
    /// By default warnings are only recorded.
    pub fn set_warnings_critical(&mut self, critical: bool)
        ensures
            final(self).spec_warnings_critical() == critical,
            final(self).spec_reader() == old(self).spec_reader(),
            final(self).spec_fbx_version() == old(self).spec_fbx_version(),
            final(self).spec_running() == old(self).spec_running(),
            final(self).spec_aborted() == old(self).spec_aborted(),
            final(self).spec_finished() == old(self).spec_finished(),
            final(self).spec_abort_position() == old(self).spec_abort_position(),
            final(self).spec_node_path() == old(self).spec_node_path(),
            final(self).spec_node_start() == old(self).spec_node_start(),
            final(self).spec_attributes_count() == old(self).spec_attributes_count(),
            final(self).spec_node_end() == old(self).spec_node_end(),
            final(self).spec_attributes_end() == old(self).spec_attributes_end(),
            final(self).spec_child_count() == old(self).spec_child_count(),
            final(self).same_nodes(old(self)),
            final(self).spec_warnings() == old(self).spec_warnings(),
    {
        self.state.warnings_critical = critical;
    }

    /// Gives up the parser, returning the warnings it emitted, with their
    /// positions.
    pub fn into_warnings(self) -> (r: Vec<(Warning, SyntacticPosition)>)
        ensures
            r@ == self.spec_warnings(),
    {
        self.state.warnings
    }

    /// Returns the warnings emitted so far, with their positions.
    pub fn warnings(&self) -> (r: &[(Warning, SyntacticPosition)])
        ensures
            r@ == self.spec_warnings(),
    {
        self.state.warnings.as_slice()
    }

    /// Returns an error if the parser cannot continue.
    pub(crate) fn ensure_continuable(&self) -> (r: Result<()>)
        ensures
            self.spec_running() <==> r is Ok,
            self.spec_aborted() ==> (r matches Err(e) && e.container() == ErrorContainer::Operation(
                OperationError::AlreadyAborted,
            ) && e.spec_position() is None),
            !self.spec_running() && !self.spec_aborted() ==> (r matches Err(e) && e.container()
                == ErrorContainer::Operation(OperationError::AlreadyFinished)
                && e.spec_position() is None),
    {
        match self.state.health {
            Health::Running => Ok(()),
            Health::Aborted(_) => Err(
                Error::new(ErrorContainer::Operation(OperationError::AlreadyAborted)),
            ),
            Health::Finished => Err(
                Error::new(ErrorContainer::Operation(OperationError::AlreadyFinished)),
            ),
        }
    }

    /// Sets the parser to aborted mode.
    pub(crate) fn set_aborted(&mut self, pos: SyntacticPosition)
        ensures
            final(self).spec_aborted(),
            !final(self).spec_running(),
            !final(self).spec_finished(),
            final(self).spec_abort_position() == Some(pos),
            final(self).spec_reader() == old(self).spec_reader(),
            final(self).same_document(old(self)),
            final(self).spec_warnings() == old(self).spec_warnings(),
    {
        self.state.health = Health::Aborted(pos);
    }

    /// Emits a warning: records it, and fails with it if warnings are
    /// critical.
    pub(crate) fn warn(&mut self, warning: Warning, pos: SyntacticPosition) -> (r: Result<()>)
        ensures
            final(self).spec_warnings() == old(self).spec_warnings().push((warning, pos)),
            old(self).spec_warnings_critical() ==> (r matches Err(e) && e.container()
                == ErrorContainer::Warning(warning) && (e.spec_position() matches Some(p) && p@
                == pos@)),
            !old(self).spec_warnings_critical() ==> r is Ok,
            final(self).spec_reader() == old(self).spec_reader(),
            final(self).same_progress(old(self)),
    {
        let copy = pos.clone();
        self.state.warnings.push((warning, pos));
        if self.state.warnings_critical {
            Err(Error::with_position(ErrorContainer::Warning(warning), copy))
        } else {
            Ok(())
        }
    }

    /// Returns the node path.
    fn node_path(&self) -> (r: Vec<(usize, String)>)
        ensures
            r@ == self.spec_node_path(),
    {
        let mut r: Vec<(usize, String)> = Vec::new();
        let mut i: usize = 0;
        while i < self.state.open_nodes.len()
            invariant
                i <= self.state.open_nodes@.len(),
                r@ == spec_path_of(self.state.open_nodes@.take(i as int)),
            decreases self.state.open_nodes@.len() - i,
        {
            let node = &self.state.open_nodes[i];
            r.push((node.index, node.name.clone()));
            assert(self.state.open_nodes@.take(i + 1) =~= self.state.open_nodes@.take(
                i as int,
            ).push(self.state.open_nodes@[i as int]));
            assert(r@ =~= spec_path_of(self.state.open_nodes@.take(i + 1)));
            i = i + 1;
        }
        assert(self.state.open_nodes@.take(i as int) =~= self.state.open_nodes@);
        r
    }

    /// Returns the syntactic position of the current node.
    pub(crate) fn position(&self) -> (p: SyntacticPosition)
        ensures
            p.spec_byte_pos() == self.spec_reader().spec_position(),
            p.spec_component_byte_pos() == self.spec_node_start(),
            p.spec_node_path() == self.spec_node_path(),
            p.spec_attribute_index() is None,
    {
        let n = self.state.open_nodes.len();
        let start = if n == 0 {
            0
        } else {
            self.state.open_nodes[n - 1].start_pos
        };
        SyntacticPosition::new(self.reader.position(), start, self.node_path(), None)
    }

    /// Returns the number of attributes of the current node.
    pub(crate) fn current_attributes_count(&self) -> (r: u64)
        ensures
            r == self.spec_attributes_count(),
    {
        let n = self.state.open_nodes.len();
        if n == 0 {
            0
        } else {
            self.state.open_nodes[n - 1].attributes_count
        }
    }

    /// Returns the name of the current node (empty if none is open).
    pub fn current_node_name(&self) -> (r: &str)
        ensures
            self.spec_node_path().len() > 0 ==> r@ == self.spec_node_path().last().1@,
    {
        let n = self.state.open_nodes.len();
        if n == 0 {
            ""
        } else {
            self.state.open_nodes[n - 1].name.as_str()
        }
    }

    /// Returns the byte position of the reader.
    pub fn reader_position(&self) -> (p: u64)
        ensures
            p == self.spec_reader().spec_position(),
    {
        self.reader.position()
    }

    /// Skips (seeks forward) the reader to the given position.
    pub(crate) fn skip_to(&mut self, pos: u64) -> (r: Result<()>)
        requires
            old(self).wf(),
            old(self).spec_running(),
            pos >= old(self).spec_reader().spec_position(),
            pos <= old(self).spec_reader().spec_position() + old(self).spec_reader().spec_rest().len()
                + spec_headroom(),
        ensures
            r is Ok,
            final(self).same_state(old(self)),
            final(self).spec_reader().bounded(),
            final(self).spec_reader().spec_seekable() == old(self).spec_reader().spec_seekable(),
            pos - old(self).spec_reader().spec_position() <= old(self).spec_reader().spec_rest().len()
                ==> spec_consumed(
                old(self).spec_reader(),
                final(self).spec_reader(),
                (pos - old(self).spec_reader().spec_position()) as nat,
            ),
            pos - old(self).spec_reader().spec_position() > old(self).spec_reader().spec_rest().len()
                ==> {
                &&& final(self).spec_reader().spec_rest() == Seq::<u8>::empty()
                &&& final(self).spec_reader().spec_position() == if old(self).spec_reader().spec_seekable() {
                    pos as nat
                } else {
                    old(self).spec_reader().spec_position() + old(self).spec_reader().spec_rest().len()
                }
            },
    {
        let _ = self.reader.skip_to_(pos);
        Ok(())
    }

    /// Reads a value from the source (see the reading function of the same
    /// type).
    pub(crate) fn parse_u8(&mut self) -> (r: Result<u8>)
        requires
            old(self).spec_reader().bounded(),
        ensures
            final(self).spec_reader().bounded(),
            final(self).same_state(old(self)),
            spec_read_step(old(self).spec_reader(), final(self).spec_reader(), 1, r),
            r matches Ok(v) ==> v == old(self).spec_reader().spec_rest()[0],
    {
        read_u8(&mut self.reader)
    }

    /// Reads a value from the source (see the reading function of the same
    /// type).
    pub(crate) fn parse_i16(&mut self) -> (r: Result<i16>)
        requires
            old(self).spec_reader().bounded(),
        ensures
            final(self).spec_reader().bounded(),
            final(self).same_state(old(self)),
            spec_read_step(old(self).spec_reader(), final(self).spec_reader(), 2, r),
            r matches Ok(v) ==> v == spec_le_u16(old(self).spec_reader().spec_rest()) as i16,
    {
        read_i16(&mut self.reader)
    }

    /// Reads a value from the source (see the reading function of the same
    /// type).
    pub(crate) fn parse_i32(&mut self) -> (r: Result<i32>)
        requires
            old(self).spec_reader().bounded(),
        ensures
            final(self).spec_reader().bounded(),
            final(self).same_state(old(self)),
            spec_read_step(old(self).spec_reader(), final(self).spec_reader(), 4, r),
            r matches Ok(v) ==> v == spec_le_u32(old(self).spec_reader().spec_rest()) as i32,
    {
        read_i32(&mut self.reader)
    }

    /// Reads a value from the source (see the reading function of the same
    /// type).
    pub(crate) fn parse_i64(&mut self) -> (r: Result<i64>)
        requires
            old(self).spec_reader().bounded(),
        ensures
            final(self).spec_reader().bounded(),
            final(self).same_state(old(self)),
            spec_read_step(old(self).spec_reader(), final(self).spec_reader(), 8, r),
            r matches Ok(v) ==> v == spec_le_u64(old(self).spec_reader().spec_rest()) as i64,
    {
        read_i64(&mut self.reader)
    }

    /// Reads a value from the source (see the reading function of the same
    /// type).
    pub(crate) fn parse_u32(&mut self) -> (r: Result<u32>)
        requires
            old(self).spec_reader().bounded(),
        ensures
            final(self).spec_reader().bounded(),
            final(self).same_state(old(self)),
            spec_read_step(old(self).spec_reader(), final(self).spec_reader(), 4, r),
            r matches Ok(v) ==> v == spec_le_u32(old(self).spec_reader().spec_rest()),
    {
        read_u32(&mut self.reader)
    }

    /// Reads a value from the source (see the reading function of the same
    /// type).
    pub(crate) fn parse_u64(&mut self) -> (r: Result<u64>)
        requires
            old(self).spec_reader().bounded(),
        ensures
            final(self).spec_reader().bounded(),
            final(self).same_state(old(self)),
            spec_read_step(old(self).spec_reader(), final(self).spec_reader(), 8, r),
            r matches Ok(v) ==> v == spec_le_u64(old(self).spec_reader().spec_rest()),
    {
        read_u64(&mut self.reader)
    }

    /// Reads a value from the source (see the reading function of the same
    /// type).
    pub(crate) fn parse_special_header(&mut self) -> (r: Result<SpecialAttributeHeader>)
        requires
            old(self).spec_reader().bounded(),
        ensures
            final(self).spec_reader().bounded(),
            final(self).same_state(old(self)),
            spec_read_step(old(self).spec_reader(), final(self).spec_reader(), 4, r),
            r matches Ok(v) ==> v.bytelen == spec_le_u32(old(self).spec_reader().spec_rest()),
    {
        read_special_header(&mut self.reader)
    }

    /// Reads an attribute type code.
    pub(crate) fn parse_attribute_type(&mut self) -> (r: Result<AttributeType>)
        requires
            old(self).spec_reader().bounded(),
        ensures
            final(self).spec_reader().bounded(),
            final(self).same_state(old(self)),
            old(self).spec_reader().spec_rest().len() >= 1 ==> spec_consumed(old(self).spec_reader(), final(self).spec_reader(), 1),
            old(self).spec_reader().spec_rest().len() >= 1 ==> match spec_from_type_code(old(self).spec_reader().spec_rest()[0]) {
                Some(ty) => r == Ok::<AttributeType, Error>(ty),
                None => (r matches Err(e) && e.container() == ErrorContainer::Data(
                    DataError::InvalidAttributeTypeCode(old(self).spec_reader().spec_rest()[0]),
                ) && e.spec_position() is None),
            },
            old(self).spec_reader().spec_rest().len() < 1 ==> (r matches Err(e) && is_io_error(e, IoError::UnexpectedEof))
                && spec_consumed(old(self).spec_reader(), final(self).spec_reader(), old(self).spec_reader().spec_rest().len()),
    {
        read_attribute_type(&mut self.reader)
    }

    /// Reads an array attribute header.
    pub(crate) fn parse_array_header(&mut self) -> (r: Result<ArrayAttributeHeader>)
        requires
            old(self).spec_reader().bounded(),
        ensures
            final(self).spec_reader().bounded(),
            final(self).same_state(old(self)),
            old(self).spec_reader().spec_rest().len() >= 12 ==> {
                let (count, enc, len) = spec_array_header_fields(old(self).spec_reader().spec_rest());
                &&& spec_consumed(old(self).spec_reader(), final(self).spec_reader(), 12)
                &&& match spec_encoding_from_u32(enc) {
                    Some(e) => r == Ok::<ArrayAttributeHeader, Error>(
                        ArrayAttributeHeader { elements_count: count, encoding: e, bytelen: len },
                    ),
                    None => (r matches Err(err) && err.container() == ErrorContainer::Data(
                        DataError::InvalidArrayAttributeEncoding(enc),
                    ) && err.spec_position() is None),
                }
            },
            old(self).spec_reader().spec_rest().len() < 12 ==> (r matches Err(e) && is_io_error(e, IoError::UnexpectedEof)),
            old(self).spec_reader().spec_rest().len() < 12 ==> spec_consumed(old(self).spec_reader(), final(self).spec_reader(), old(self).spec_reader().spec_rest().len()),
    {
        read_array_header(&mut self.reader)
    }

    /// Reads at most `n` bytes, stopping at the end of the data.
    pub(crate) fn read_payload(&mut self, n: u64) -> (v: Vec<u8>)
        requires
            old(self).spec_reader().bounded(),
        ensures
            final(self).spec_reader().bounded(),
            final(self).same_state(old(self)),
            v@ == old(self).spec_reader().spec_rest().take(spec_min(n as int, old(self).spec_reader().spec_rest().len() as int)),
            spec_consumed(
                old(self).spec_reader(),
                final(self).spec_reader(),
                spec_min(n as int, old(self).spec_reader().spec_rest().len() as int) as nat,
            ),
    {
        self.reader.read_up_to(n)
    }
}

} // verus!
