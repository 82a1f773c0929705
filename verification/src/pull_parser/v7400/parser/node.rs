//! Node events: node headers, names and end markers.

use vstd::prelude::*;
use vstd::utf8::{decode_utf8, valid_utf8};

use crate::codec::{byteorder_read_u32, byteorder_read_u64, spec_le_u32, spec_le_u64};
use crate::low::v7400::FbxFooter;
use crate::low::FbxVersion;
use crate::pull_parser::error::{DataError, ErrorContainer, Warning};
use crate::pull_parser::reader::{lemma_consumed_none, lemma_consumed_trans, spec_consumed, spec_min};
use crate::pull_parser::v7400::attribute::{fails_with, spec_utf8_error_debug, std_string_from_utf8};
use crate::pull_parser::{Error, ParserSource, Result, SyntacticPosition};
use crate::stream::IoError;

use super::{spec_reads_footer, Health, OpenNode, Parser};
use crate::pull_parser::v7400::{Event, StartNode};

verus! {

/// Kind of a parser event.
#[derive(Debug, Clone, Copy, PartialEq, Eq, Structural)]
pub enum EventKind {
    /// Start of a node.
    StartNode,
    /// End of a node.
    EndNode,
    /// End of the document.
    EndFbx,
}

/// Whether node headers have 64-bit fields (FBX 7.5 and later).
pub open spec fn spec_large_header(v: FbxVersion) -> bool {
    v@ >= 7500
}

/// Whether node headers have 64-bit fields (FBX 7.5 and later).
fn is_large_header(v: FbxVersion) -> (r: bool)
    ensures
        r == spec_large_header(v),
{
    v.raw() >= 7500
}

/// Byte length of a node header.
pub open spec fn spec_node_header_len(large: bool) -> nat {
    if large {
        25
    } else {
        13
    }
}

/// The node header at the start of `b`: end offset, number of attributes,
/// byte length of the attributes and byte length of the name.
pub open spec fn spec_node_header(b: Seq<u8>, large: bool) -> (u64, u64, u64, u8) {
    if large {
        (spec_le_u64(b), spec_le_u64(b.skip(8)), spec_le_u64(b.skip(16)), b[24])
    } else {
        (
            spec_le_u32(b) as u64,
            spec_le_u32(b.skip(4)) as u64,
            spec_le_u32(b.skip(8)) as u64,
            b[12],
        )
    }
}

/// A node end marker: a node header of zeros.
pub open spec fn spec_is_end_marker(h: (u64, u64, u64, u8)) -> bool {
    h.0 == 0 && h.1 == 0 && h.2 == 0 && h.3 == 0
}

/// `a + b`, or `u64::MAX` if that is larger.
pub open spec fn spec_saturating_add(a: int, b: int) -> u64 {
    if a + b > u64::MAX {
        u64::MAX
    } else {
        (a + b) as u64
    }
}

/// `c + 1`, or `c` at `usize::MAX`.
pub open spec fn spec_count_up(c: usize) -> usize {
    if c < usize::MAX {
        (c + 1) as usize
    } else {
        c
    }
}

/// The bytes skipped before the next event: what is left of the innermost
/// node's attributes, as far as the data goes.
pub open spec fn spec_skip_len(p: Parser) -> nat {
    let rd = p.spec_reader();
    if p.spec_nodes().len() > 0 && rd.spec_position() < p.spec_attributes_end() {
        spec_min(
            p.spec_attributes_end() - rd.spec_position(),
            rd.spec_rest().len() as int,
        ) as nat
    } else {
        0
    }
}

/// `q`'s open nodes are `p`'s without the innermost one.
pub open spec fn spec_popped(p: Parser, q: Parser) -> bool {
    &&& q.spec_nodes() == p.spec_nodes().drop_last()
    &&& q.spec_root_children() == p.spec_root_children()
}

/// `q`'s open nodes are `p`'s with a new innermost node, named by the UTF-8
/// bytes `name`, with the given header, beginning at `start` and with
/// attributes ending at `attributes_end`; the parent counts one more child.
pub open spec fn spec_pushed(
    p: Parser,
    q: Parser,
    name: Seq<u8>,
    h: (u64, u64, u64, u8),
    start: int,
    attributes_end: u64,
) -> bool {
    let nodes = p.spec_nodes();
    let qn = q.spec_nodes();
    let n = nodes.len();
    &&& qn.len() == n + 1
    &&& if n == 0 {
        q.spec_root_children() == spec_count_up(p.spec_root_children())
    } else {
        &&& q.spec_root_children() == p.spec_root_children()
        &&& qn.take(n - 1) == nodes.take(n - 1)
        &&& qn[n - 1].name == nodes[n - 1].name
        &&& qn[n - 1].index == nodes[n - 1].index
        &&& qn[n - 1].start_pos == nodes[n - 1].start_pos
        &&& qn[n - 1].attributes_count == nodes[n - 1].attributes_count
        &&& qn[n - 1].end_pos == nodes[n - 1].end_pos
        &&& qn[n - 1].attributes_end_pos == nodes[n - 1].attributes_end_pos
        &&& qn[n - 1].children == spec_count_up(nodes[n - 1].children)
    }
    &&& qn[n as int].name@ == decode_utf8(name)
    &&& qn[n as int].index == p.spec_child_count()
    &&& qn[n as int].start_pos == start
    &&& qn[n as int].attributes_count == h.1
    &&& qn[n as int].end_pos == h.0
    &&& qn[n as int].attributes_end_pos == attributes_end
    &&& qn[n as int].children == 0
}

/// `a` points the innermost open node of `q` at its reader's position.
pub open spec fn is_node_position(a: SyntacticPosition, q: Parser) -> bool {
    &&& a.spec_byte_pos() == q.spec_reader().spec_position()
    &&& a.spec_component_byte_pos() == q.spec_node_start()
    &&& a.spec_node_path() == q.spec_node_path()
    &&& a.spec_attribute_index() is None
}

/// The warnings of `q` are those of `p`, with an empty node name warning at
/// the innermost node of `q` if `warned`.
pub open spec fn spec_name_warnings(p: Parser, q: Parser, warned: bool) -> bool {
    if warned {
        &&& q.spec_warnings().len() == p.spec_warnings().len() + 1
        &&& q.spec_warnings().take(p.spec_warnings().len() as int) == p.spec_warnings()
        &&& q.spec_warnings().last().0 == Warning::EmptyNodeName
        &&& is_node_position(q.spec_warnings().last().1, q)
    } else {
        q.spec_warnings() == p.spec_warnings()
    }
}

/// Whether the innermost open node of `p` must end with a node end marker:
/// it has children, or no attributes.
pub open spec fn spec_marker_required(p: Parser) -> bool {
    p.spec_nodes().last().children > 0 || p.spec_nodes().last().attributes_count == 0
}

/// `a` points at the end of the innermost open node of `p`, the reader of
/// `q` being there.
pub open spec fn is_end_position(a: SyntacticPosition, p: Parser, q: Parser) -> bool {
    &&& a.spec_byte_pos() == q.spec_reader().spec_position()
    &&& a.spec_component_byte_pos() == p.spec_node_start()
    &&& a.spec_node_path() == p.spec_node_path()
    &&& a.spec_attribute_index() is None
}

/// The warnings of `q` are those of `p`, with the warning `w` at the end of
/// the innermost open node of `p` if `warned`.
pub open spec fn spec_end_warnings(p: Parser, q: Parser, warned: bool, w: Warning) -> bool {
    if warned {
        &&& q.spec_warnings().len() == p.spec_warnings().len() + 1
        &&& q.spec_warnings().take(p.spec_warnings().len() as int) == p.spec_warnings()
        &&& q.spec_warnings().last().0 == w
        &&& is_end_position(q.spec_warnings().last().1, p, q)
    } else {
        q.spec_warnings() == p.spec_warnings()
    }
}

/// Ending the innermost open node of `p` gives `r`, warning with `w` if
/// `warned`: the warning is the error if warnings are critical.
pub open spec fn spec_end_result(p: Parser, warned: bool, w: Warning, r: Result<EventKind>) -> bool {
    if warned && p.spec_warnings_critical() {
        fails_with(r, ErrorContainer::Warning(w))
    } else {
        r == Ok::<EventKind, Error>(EventKind::EndNode)
    }
}

/// What reading the next event does, from the running parser `p` to `q`,
/// giving `r` (on an error, how far the parser read and what it changed;
/// it then stops, see `spec_next_event`).
///
/// What is left of the innermost node's attributes is skipped first. A node
/// whose declared end is reached ends there (a node that needs an end marker,
/// see `spec_marker_required`, is warned about). Otherwise a node header is
/// read: an end marker ends the innermost node (which must end right after
/// it; a node that needs no end marker is warned about) or, at the top level,
/// the document; any other header starts a child node, whose name must be
/// UTF-8 (an empty name is warned about).
pub open spec fn spec_next_raw(p: Parser, q: Parser, r: Result<EventKind>) -> bool {
    let rd = p.spec_reader();
    let rd2 = q.spec_reader();
    let large = spec_large_header(p.spec_fbx_version());
    let hl = spec_node_header_len(large);
    let s = spec_skip_len(p);
    let pos1 = rd.spec_position() + s;
    let rest1 = rd.spec_rest().skip(s as int);
    let top = p.spec_nodes().len() > 0;
    let end = p.spec_node_end();
    &&& q.spec_fbx_version() == p.spec_fbx_version()
    &&& q.spec_warnings_critical() == p.spec_warnings_critical()
    &&& if top && pos1 == end {
        &&& spec_consumed(rd, rd2, s)
        &&& spec_popped(p, q)
        &&& spec_end_warnings(p, q, spec_marker_required(p), Warning::MissingNodeEndMarker)
        &&& spec_end_result(p, spec_marker_required(p), Warning::MissingNodeEndMarker, r)
    } else if top && pos1 > end {
        &&& fails_with(r, ErrorContainer::Data(DataError::NodeLengthMismatch(end, Some(pos1 as u64))))
        &&& spec_consumed(rd, rd2, s)
        &&& q.same_nodes(&p)
        &&& q.spec_warnings() == p.spec_warnings()
    } else if rest1.len() < hl {
        &&& fails_with(r, ErrorContainer::Io(IoError::UnexpectedEof))
        &&& spec_consumed(rd, rd2, s + rest1.len())
        &&& q.same_nodes(&p)
        &&& q.spec_warnings() == p.spec_warnings()
    } else {
        let h = spec_node_header(rest1, large);
        let pos2 = pos1 + hl;
        let rest2 = rest1.skip(hl as int);
        if spec_is_end_marker(h) {
            &&& spec_consumed(rd, rd2, s + hl)
            &&& if !top {
                &&& r == Ok::<EventKind, Error>(EventKind::EndFbx)
                &&& q.same_nodes(&p)
                &&& q.spec_warnings() == p.spec_warnings()
            } else {
                &&& spec_popped(p, q)
                &&& if pos2 == end {
                    &&& spec_end_warnings(p, q, !spec_marker_required(p), Warning::ExtraNodeEndMarker)
                    &&& spec_end_result(p, !spec_marker_required(p), Warning::ExtraNodeEndMarker, r)
                } else {
                    &&& fails_with(
                        r,
                        ErrorContainer::Data(DataError::NodeLengthMismatch(end, Some(pos2 as u64))),
                    )
                    &&& q.spec_warnings() == p.spec_warnings()
                }
            }
        } else if rest2.len() < h.3 {
            &&& fails_with(r, ErrorContainer::Io(IoError::UnexpectedEof))
            &&& spec_consumed(rd, rd2, s + hl + rest2.len())
            &&& q.same_nodes(&p)
            &&& q.spec_warnings() == p.spec_warnings()
        } else {
            let name = rest2.take(h.3 as int);
            let pos3 = pos2 + h.3;
            &&& spec_consumed(rd, rd2, s + hl + h.3 as nat)
            &&& if !valid_utf8(name) {
                &&& r matches Err(e) && (e.container() matches ErrorContainer::Data(
                    DataError::InvalidNodeNameEncoding(v, d),
                ) && v@ == name && d@ == spec_utf8_error_debug(name))
                &&& q.same_nodes(&p)
                &&& q.spec_warnings() == p.spec_warnings()
            } else {
                let empty = h.3 == 0;
                &&& spec_pushed(p, q, name, h, pos1 as int, spec_saturating_add(pos3 as int, h.2 as int))
                &&& spec_name_warnings(p, q, empty)
                &&& if empty && p.spec_warnings_critical() {
                    fails_with(r, ErrorContainer::Warning(Warning::EmptyNodeName))
                } else {
                    r == Ok::<EventKind, Error>(EventKind::StartNode)
                }
            }
        }
    }
}

/// What reading the next event does, from `p` to `q`, giving `r`.
///
/// A parser which cannot continue gives its operation error and is left as
/// it is. Otherwise the event is read as `spec_next_raw` states; the parser
/// is finished at the end of the document, and aborted at its position on an
/// error.
pub open spec fn spec_next_event(p: Parser, q: Parser, r: Result<EventKind>) -> bool {
    if !p.spec_running() {
        &&& q == p
        &&& r matches Err(e) && e.spec_position() is None && e.container()
            == ErrorContainer::Operation(
            if p.spec_aborted() {
                crate::pull_parser::error::OperationError::AlreadyAborted
            } else {
                crate::pull_parser::error::OperationError::AlreadyFinished
            },
        )
    } else {
        &&& spec_next_raw(p, q, r)
        &&& q.spec_reader().spec_seekable() == p.spec_reader().spec_seekable()
        &&& match r {
            Ok(EventKind::EndFbx) => q.spec_finished(),
            Ok(_) => q.spec_running(),
            Err(e) => {
                &&& q.spec_aborted()
                &&& q.spec_abort_position() matches Some(a) && is_node_position(a, q)
                &&& e.spec_position() matches Some(a) && is_node_position(a, q)
            },
        }
    }
}

/// Reading the end of the document and the footer after it, from `p` to
/// `q`: the end marker is read as `spec_next_event` states, then the footer
/// as `spec_reads_footer` states, giving `f`.
pub open spec fn spec_ends_document(p: Parser, q: Parser, f: Result<FbxFooter>) -> bool {
    exists|p1: Parser|
        #![trigger spec_reads_footer(p1, q, f)]
        spec_next_event(p, p1, Ok::<EventKind, Error>(EventKind::EndFbx)) && spec_reads_footer(p1, q, f)
}

impl Parser {
    /// Skips what is left of the innermost node's attributes, as far as the
    /// data goes.
    fn skip_unread_attributes(&mut self)
        requires
            old(self).wf(),
            old(self).spec_running(),
        ensures
            final(self).wf(),
            final(self).same_state(old(self)),
            final(self).spec_reader().spec_seekable() == old(self).spec_reader().spec_seekable(),
            spec_consumed(old(self).spec_reader(), final(self).spec_reader(), spec_skip_len(*old(self))),
    {
        proof {
            lemma_consumed_none(self.spec_reader());
        }
        let n = self.state.open_nodes.len();
        if n == 0 {
            return ;
        }
        let attrs_end = self.state.open_nodes[n - 1].attributes_end_pos;
        let pos = self.reader_position();
        if pos < attrs_end {
            let remaining = self.reader.remaining() as u64;
            let target = if attrs_end - pos < remaining {
                attrs_end
            } else {
                pos + remaining
            };
            let _ = self.skip_to(target);
        }
    }

    /// Reads the next event.
    ///
    /// On an error the parser is aborted at its position; a finished or
    /// aborted parser gives an operation error. The `StartNode` event borrows
    /// the parser, positioned at the node's attributes.
    pub fn next_event(&mut self) -> (r: Result<Event<'_>>)
        requires
            old(self).wf(),
        ensures
            r matches Ok(Event::StartNode(sn)) ==> spec_next_event(
                *old(self),
                sn.spec_parser(),
                Ok::<EventKind, Error>(EventKind::StartNode),
            ) && sn.spec_parser().wf(),
            r matches Ok(Event::EndNode) ==> spec_next_event(
                *old(self),
                *final(self),
                Ok::<EventKind, Error>(EventKind::EndNode),
            ) && final(self).wf(),
            r matches Ok(Event::EndFbx(f)) ==> spec_ends_document(*old(self), *final(self), f)
                && final(self).wf(),
            r matches Err(e) ==> spec_next_event(*old(self), *final(self), Err::<EventKind, Error>(e))
                && final(self).wf(),
    {
        match self.next_event_kind() {
            Ok(EventKind::StartNode) => Ok(Event::StartNode(StartNode::new(self))),
            Ok(EventKind::EndNode) => Ok(Event::EndNode),
            Ok(EventKind::EndFbx) => {
                let ghost p1 = *self;
                let f = self.read_footer();
                assert(spec_reads_footer(p1, *self, f));
                Ok(Event::EndFbx(f))
            },
            Err(e) => Err(e),
        }
    }

    /// Reads the next event, giving its kind; the parser is left at the
    /// attributes of a node that starts.
    pub(crate) fn next_event_kind(&mut self) -> (r: Result<EventKind>)
        requires
            old(self).wf(),
        ensures
            spec_next_event(*old(self), *final(self), r),
            final(self).wf(),
    {
        match self.ensure_continuable() {
            Ok(()) => {},
            Err(e) => return Err(e),
        }
        match self.next_event_raw() {
            Ok(k) => Ok(k),
            Err(e) => {
                let pos = self.position();
                self.set_aborted(pos.clone());
                Err(e.and_position(pos))
            },
        }
    }

    /// Ends the innermost open node, warning with `w` at its end if `warned`.
    fn end_node(&mut self, warned: bool, w: Warning) -> (r: Result<EventKind>)
        requires
            old(self).spec_nodes().len() > 0,
        ensures
            final(self).spec_reader() == old(self).spec_reader(),
            spec_popped(*old(self), *final(self)),
            final(self).spec_fbx_version() == old(self).spec_fbx_version(),
            final(self).spec_warnings_critical() == old(self).spec_warnings_critical(),
            final(self).spec_running() == old(self).spec_running(),
            final(self).spec_finished() == old(self).spec_finished(),
            spec_end_warnings(*old(self), *final(self), warned, w),
            spec_end_result(*old(self), warned, w, r),
    {
        let at = self.position();
        let ghost nodes = self.state.open_nodes@;
        let _ = self.state.open_nodes.pop();
        assert(self.state.open_nodes@ =~= nodes.drop_last());
        if warned {
            let ghost w0 = self.spec_warnings();
            let res = self.warn(w, at);
            assert(self.spec_warnings().take(w0.len() as int) =~= w0);
            match res {
                Ok(()) => {},
                Err(e) => return Err(e),
            }
        }
        Ok(EventKind::EndNode)
    }

    /// Reads the next event, without stopping the parser on an error.
    #[verifier::rlimit(40)]
    fn next_event_raw(&mut self) -> (r: Result<EventKind>)
        requires
            old(self).wf(),
            old(self).spec_running(),
        ensures
            final(self).spec_reader().bounded(),
            final(self).spec_reader().spec_position() + final(self).spec_reader().spec_rest().len()
                == old(self).spec_reader().spec_position() + old(self).spec_reader().spec_rest().len(),
            final(self).spec_reader().spec_seekable() == old(self).spec_reader().spec_seekable(),
            spec_next_raw(*old(self), *final(self), r),
            r matches Ok(EventKind::EndFbx) ==> final(self).spec_finished(),
            !(r matches Ok(EventKind::EndFbx)) ==> final(self).spec_running(),
    {
        let ghost p0 = *self;
        self.skip_unread_attributes();
        let ghost p1 = *self;
        let n = self.state.open_nodes.len();
        if n > 0 {
            let end = self.state.open_nodes[n - 1].end_pos;
            let pos = self.reader_position();
            if pos == end {
                let required = self.state.open_nodes[n - 1].children > 0
                    || self.state.open_nodes[n - 1].attributes_count == 0;
                return self.end_node(required, Warning::MissingNodeEndMarker);
            }
            if pos > end {
                return Err(
                    Error::new(ErrorContainer::Data(DataError::NodeLengthMismatch(end, Some(pos)))),
                );
            }
        }
        let header = match self.read_node_header() {
            Ok(h) => h,
            Err(e) => {
                proof {
                    lemma_consumed_trans(p0.spec_reader(), p1.spec_reader(), self.spec_reader(), spec_skip_len(p0), p1.spec_reader().spec_rest().len());
                }
                return Err(e);
            },
        };
        let ghost p2 = *self;
        proof {
            let hl = spec_node_header_len(spec_large_header(p0.spec_fbx_version()));
            lemma_consumed_trans(p0.spec_reader(), p1.spec_reader(), p2.spec_reader(), spec_skip_len(p0), hl);
        }
        let pos2 = self.reader_position();
        if header.0 == 0 && header.1 == 0 && header.2 == 0 && header.3 == 0 {
            if n == 0 {
                self.state.health = Health::Finished;
                return Ok(EventKind::EndFbx);
            }
            let ghost nodes = self.state.open_nodes@;
            let node_end = self.state.open_nodes[n - 1].end_pos;
            if pos2 == node_end {
                let extra = !(self.state.open_nodes[n - 1].children > 0
                    || self.state.open_nodes[n - 1].attributes_count == 0);
                return self.end_node(extra, Warning::ExtraNodeEndMarker);
            }
            let _ = self.state.open_nodes.pop();
            assert(self.state.open_nodes@ =~= nodes.drop_last());
            return Err(
                Error::new(
                    ErrorContainer::Data(DataError::NodeLengthMismatch(node_end, Some(pos2))),
                ),
            );
        }
        let name_bytes = self.read_payload(header.3 as u64);
        let ghost p3 = *self;
        proof {
            lemma_consumed_trans(p0.spec_reader(), p2.spec_reader(), p3.spec_reader(), (p2.spec_reader().spec_position() - p0.spec_reader().spec_position()) as nat, name_bytes@.len());
        }
        if name_bytes.len() < header.3 as usize {
            return Err(Error::new(ErrorContainer::Io(IoError::UnexpectedEof)));
        }
        let copy = name_bytes.clone();
        assert(copy@ =~= name_bytes@);
        let name = match std_string_from_utf8(name_bytes) {
            Ok(s) => s,
            Err(d) => {
                return Err(Error::new(ErrorContainer::Data(DataError::InvalidNodeNameEncoding(copy, d))));
            },
        };
        let pos3 = self.reader_position();
        let attributes_end_pos = if header.2 > u64::MAX - pos3 {
            u64::MAX
        } else {
            pos3 + header.2
        };
        let ghost nodes = self.state.open_nodes@;
        let index = if n == 0 {
            let c = self.state.root_children;
            self.state.root_children = if c < usize::MAX {
                c + 1
            } else {
                c
            };
            c
        } else {
            let mut parent = self.state.open_nodes.pop().unwrap();
            let c = parent.children;
            parent.children = if c < usize::MAX {
                c + 1
            } else {
                c
            };
            self.state.open_nodes.push(parent);
            assert(self.state.open_nodes@.take(n - 1) =~= nodes.take(n - 1));
            c
        };
        let start_pos = pos2 - if is_large_header(self.state.fbx_version) {
            25
        } else {
            13
        };
        self.state.open_nodes.push(
            OpenNode {
                name,
                index,
                start_pos,
                attributes_count: header.1,
                end_pos: header.0,
                attributes_end_pos,
                children: 0,
            },
        );
        assert(n > 0 ==> self.state.open_nodes@.take(n - 1) =~= nodes.take(n - 1));
        if header.3 == 0 {
            let pos = self.position();
            let ghost w0 = self.spec_warnings();
            let warned = self.warn(Warning::EmptyNodeName, pos);
            assert(self.spec_warnings().take(w0.len() as int) =~= w0);
            match warned {
                Ok(()) => {},
                Err(e) => return Err(e),
            }
        }
        Ok(EventKind::StartNode)
    }

    /// Reads a node header.
    fn read_node_header(&mut self) -> (r: Result<(u64, u64, u64, u8)>)
        requires
            old(self).spec_reader().bounded(),
        ensures
            final(self).spec_reader().bounded(),
            final(self).same_state(old(self)),
            ({
                let large = spec_large_header(old(self).spec_fbx_version());
                let hl = spec_node_header_len(large);
                let rest = old(self).spec_reader().spec_rest();
                &&& rest.len() >= hl ==> r == Ok::<(u64, u64, u64, u8), Error>(
                    spec_node_header(rest, large),
                ) && spec_consumed(old(self).spec_reader(), final(self).spec_reader(), hl)
                &&& rest.len() < hl ==> fails_with(r, ErrorContainer::Io(IoError::UnexpectedEof))
                    && spec_consumed(old(self).spec_reader(), final(self).spec_reader(), rest.len())
            }),
    {
        let ghost rest = self.spec_reader().spec_rest();
        let ghost r0 = self.spec_reader();
        let large = self.state.fbx_version.raw() >= 7500;
        let hl: usize = if large {
            25
        } else {
            13
        };
        if self.reader.remaining() < hl {
            let _ = self.read_payload(hl as u64);
            return Err(Error::new(ErrorContainer::Io(IoError::UnexpectedEof)));
        }
        if large {
            let end = self.parse_u64()?;
            let ghost r1 = self.spec_reader();
            let count = self.parse_u64()?;
            let ghost r2 = self.spec_reader();
            let len = self.parse_u64()?;
            let ghost r3 = self.spec_reader();
            let name_len = self.parse_u8()?;
            proof {
                lemma_consumed_trans(r0, r1, r2, 8, 8);
                lemma_consumed_trans(r0, r2, r3, 16, 8);
                lemma_consumed_trans(r0, r3, self.spec_reader(), 24, 1);
                assert(r1.spec_rest() == rest.skip(8));
                assert(r2.spec_rest() =~= rest.skip(16));
                assert(r3.spec_rest() =~= rest.skip(24));
            }
            Ok((end, count, len, name_len))
        } else {
            let end = self.parse_u32()?;
            let ghost r1 = self.spec_reader();
            let count = self.parse_u32()?;
            let ghost r2 = self.spec_reader();
            let len = self.parse_u32()?;
            let ghost r3 = self.spec_reader();
            let name_len = self.parse_u8()?;
            proof {
                lemma_consumed_trans(r0, r1, r2, 4, 4);
                lemma_consumed_trans(r0, r2, r3, 8, 4);
                lemma_consumed_trans(r0, r3, self.spec_reader(), 12, 1);
                assert(r1.spec_rest() == rest.skip(4));
                assert(r2.spec_rest() =~= rest.skip(8));
                assert(r3.spec_rest() =~= rest.skip(12));
            }
            Ok((end as u64, count as u64, len as u64, name_len))
        }
    }
}

} // verus!

verus! {

/// A parser that stopped (on an error or at the end of the document) stays
/// as it is: asking for the next event gives an operation error.
pub proof fn law_stopped_parser_reads_no_event(p: Parser, q: Parser, r: Result<EventKind>)
    requires
        spec_next_event(p, q, r),
        !p.spec_running(),
    ensures
        q == p,
        r matches Err(e) && (e.container() matches ErrorContainer::Operation(_)),
{
}

/// Reading an event never loses a warning emitted before.
pub proof fn law_next_event_keeps_warnings(p: Parser, q: Parser, r: Result<EventKind>)
    requires
        spec_next_event(p, q, r),
    ensures
        p.spec_warnings().len() <= q.spec_warnings().len(),
        q.spec_warnings().take(p.spec_warnings().len() as int) == p.spec_warnings(),
{
    if q.spec_warnings() == p.spec_warnings() {
        assert(q.spec_warnings().take(p.spec_warnings().len() as int) =~= p.spec_warnings());
    }
}

} // verus!

verus! {

/// The open nodes of `a` and `b` are the same, names taken by their text.
pub open spec fn same_open_nodes(a: Seq<OpenNode>, b: Seq<OpenNode>) -> bool {
    &&& a.len() == b.len()
    &&& forall|i: int|
        0 <= i < a.len() ==> {
            &&& (#[trigger] a[i]).name@ == b[i].name@
            &&& a[i].index == b[i].index
            &&& a[i].start_pos == b[i].start_pos
            &&& a[i].attributes_count == b[i].attributes_count
            &&& a[i].end_pos == b[i].end_pos
            &&& a[i].attributes_end_pos == b[i].attributes_end_pos
            &&& a[i].children == b[i].children
        }
}

/// Reading an event does not depend on how the parser skips: two parsers in
/// the same state, at the same position of the same data, one skipping by
/// reading and the other by seeking (or both the same way), read the same
/// event, and end at the same position with the same open nodes, progress
/// and number of warnings.
pub proof fn law_next_event_ignores_skipping(
    p: Parser,
    q: Parser,
    r: Result<EventKind>,
    p2: Parser,
    q2: Parser,
    r2: Result<EventKind>,
)
    requires
        spec_next_event(p, q, r),
        spec_next_event(p2, q2, r2),
        p.same_state(&p2),
        p.spec_reader().spec_position() == p2.spec_reader().spec_position(),
        p.spec_reader().spec_rest() == p2.spec_reader().spec_rest(),
    ensures
        r is Ok <==> r2 is Ok,
        r is Ok ==> r == r2,
        q.spec_reader().spec_position() == q2.spec_reader().spec_position(),
        q.spec_reader().spec_rest() == q2.spec_reader().spec_rest(),
        same_open_nodes(q.spec_nodes(), q2.spec_nodes()),
        q.spec_root_children() == q2.spec_root_children(),
        q.spec_running() == q2.spec_running(),
        q.spec_finished() == q2.spec_finished(),
        q.spec_aborted() == q2.spec_aborted(),
        q.spec_warnings().len() == q2.spec_warnings().len(),
{
    p.lemma_health();
    p2.lemma_health();
    q.lemma_health();
    q2.lemma_health();
    let qn = q.spec_nodes();
    let qn2 = q2.spec_nodes();
    if qn == qn2 {
        assert(same_open_nodes(qn, qn2));
    } else if p.spec_running() {
        let rd = p.spec_reader();
        let large = spec_large_header(p.spec_fbx_version());
        let hl = spec_node_header_len(large);
        let s = spec_skip_len(p);
        assert(s == spec_skip_len(p2));
        let pos1 = rd.spec_position() + s;
        let rest1 = rd.spec_rest().skip(s as int);
        let top = p.spec_nodes().len() > 0;
        let end = p.spec_node_end();
        if !(top && pos1 >= end) && rest1.len() >= hl {
            let h = spec_node_header(rest1, large);
            let rest2 = rest1.skip(hl as int);
            if !spec_is_end_marker(h) && rest2.len() >= h.3 {
                let name = rest2.take(h.3 as int);
                if valid_utf8(name) {
                    let nodes = p.spec_nodes();
                    let n = nodes.len() as int;
                    assert forall|i: int| 0 <= i < qn.len() implies {
                        &&& (#[trigger] qn[i]).name@ == qn2[i].name@
                        &&& qn[i].index == qn2[i].index
                        &&& qn[i].start_pos == qn2[i].start_pos
                        &&& qn[i].attributes_count == qn2[i].attributes_count
                        &&& qn[i].end_pos == qn2[i].end_pos
                        &&& qn[i].attributes_end_pos == qn2[i].attributes_end_pos
                        &&& qn[i].children == qn2[i].children
                    } by {
                        if i < n - 1 {
                            assert(qn[i] == qn.take(n - 1)[i]);
                            assert(qn2[i] == qn2.take(n - 1)[i]);
                        }
                    }
                }
            }
        }
    }
}

} // verus!
