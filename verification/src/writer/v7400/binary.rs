//! Binary writer for FBX 7.4 and 7.5.
//!
//! The writer appends to an in-memory sink ([`MemoryWriter`]), and goes back
//! to fill in node and attribute headers once their lengths are known.

use vstd::prelude::*;

use crate::codec::{spec_u32_le, spec_u64_le, u32_to_le_bytes, u64_to_le_bytes};
use crate::low::{magic, spec_magic, spec_parser_version, FbxVersion};
use crate::pull_parser::ParserVersion;
use crate::stream::{spec_write_at, MemoryWriter};
use vstd::string::StringSliceAdditionalSpecFns;
use vstd::utf8::encode_utf8;

pub use self::attributes::{
    spec_append_array, spec_append_single, spec_append_special, spec_array_attr_bytes, spec_attr_appended,
    spec_bool_attr_byte, spec_bool_elements, spec_f32_elements, spec_f64_elements,
    spec_i32_elements, spec_i64_elements, spec_special_attr_bytes, spec_top, zlib_encoding,
    AttributesWriter,
};
pub use self::error::{CompressionError, Error, Result};
pub use self::footer::{
    spec_default_unknown1, spec_default_unknown3, FbxFooter, FbxFooterPaddingLength,
};

mod attributes;
mod error;
mod footer;

verus! {

/// A node the writer has started and not yet closed.
#[derive(Debug, Clone, Copy)]
pub struct WriterNode {
    /// Position of the node header.
    pub header_pos: u64,
    /// Number of attributes written so far.
    pub num_attributes: u64,
    /// Byte length of the attributes, once a child is started.
    pub bytelen_attributes: u64,
    /// Byte length of the name.
    pub bytelen_name: u8,
    /// Position where the attributes begin.
    pub body_pos: u64,
    /// Whether a child node has been started.
    pub has_child: bool,
}

/// Whether node headers have 64-bit fields (FBX 7.5 and later).
pub open spec fn spec_writes_large_header(v: FbxVersion) -> bool {
    v@ >= 7500
}

/// Byte length of a node header written for the given version.
pub open spec fn spec_header_len(v: FbxVersion) -> nat {
    if spec_writes_large_header(v) {
        25
    } else {
        13
    }
}

/// The bytes of a node header (without the name).
pub open spec fn spec_node_header_bytes(
    large: bool,
    end: u64,
    count: u64,
    bytelen: u64,
    name_len: u8,
) -> Seq<u8> {
    if large {
        spec_u64_le(end) + spec_u64_le(count) + spec_u64_le(bytelen) + seq![name_len]
    } else {
        spec_u32_le(end as u32) + spec_u32_le(count as u32) + spec_u32_le(bytelen as u32) + seq![
            name_len,
        ]
    }
}

/// `n` zero bytes.
pub open spec fn spec_zeros(n: nat) -> Seq<u8> {
    Seq::new(n, |i: int| 0u8)
}

/// Writing at the end of the data appends.
pub proof fn lemma_write_at_end(data: Seq<u8>, bytes: Seq<u8>)
    ensures
        spec_write_at(data, data.len(), bytes) == data + bytes,
{
    assert(spec_write_at(data, data.len(), bytes) =~= data + bytes);
}

/// Writing inside the data keeps its length.
pub proof fn lemma_write_at_inside(data: Seq<u8>, pos: nat, bytes: Seq<u8>)
    requires
        pos + bytes.len() <= data.len(),
    ensures
        spec_write_at(data, pos, bytes).len() == data.len(),
        spec_write_at(data, pos, bytes).subrange(pos as int, (pos + bytes.len()) as int) == bytes,
        spec_write_at(data, pos, bytes).take(pos as int) == data.take(pos as int),
        spec_write_at(data, pos, bytes).skip((pos + bytes.len()) as int) == data.skip(
            (pos + bytes.len()) as int,
        ),
{
    let r = spec_write_at(data, pos, bytes);
    assert(r.subrange(pos as int, (pos + bytes.len()) as int) =~= bytes);
    assert(r.take(pos as int) =~= data.take(pos as int));
    assert(r.skip((pos + bytes.len()) as int) =~= data.skip((pos + bytes.len()) as int));
}

/// The open nodes after a child starts at position `pos`: the innermost
/// node, if it had no child yet, ends its attributes there.
pub open spec fn spec_parent_marked(nodes: Seq<WriterNode>, pos: nat) -> Seq<WriterNode> {
    if nodes.len() == 0 {
        nodes
    } else {
        let p = nodes.last();
        if p.has_child {
            nodes
        } else {
            nodes.update(
                nodes.len() - 1,
                WriterNode {
                    header_pos: p.header_pos,
                    num_attributes: p.num_attributes,
                    bytelen_attributes: (pos - p.body_pos) as u64,
                    bytelen_name: p.bytelen_name,
                    body_pos: p.body_pos,
                    has_child: true,
                },
            )
        }
    }
}

/// `w1` is `w0` with a node named by the bytes `name` started: a header
/// placeholder and the name are appended, and the node is pushed.
pub open spec fn spec_node_started(w0: Writer, w1: Writer, name: Seq<u8>) -> bool {
    let n = w0.spec_nodes().len();
    let pos = w0.spec_data().len();
    let hl = spec_header_len(w0.spec_fbx_version());
    &&& w1.spec_data() == w0.spec_data() + spec_zeros(hl) + name
    &&& w1.spec_fbx_version() == w0.spec_fbx_version()
    &&& w1.spec_nodes() == spec_parent_marked(w0.spec_nodes(), pos).push(
        WriterNode {
            header_pos: pos as u64,
            num_attributes: 0,
            bytelen_attributes: 0,
            bytelen_name: name.len() as u8,
            body_pos: (pos + hl + name.len()) as u64,
            has_child: false,
        },
    )
}

/// The innermost node as it closes at the end of `data`: its attributes end
/// there unless a child was started.
pub open spec fn spec_closing(node: WriterNode, data_len: nat) -> WriterNode {
    if node.has_child {
        node
    } else {
        WriterNode {
            header_pos: node.header_pos,
            num_attributes: node.num_attributes,
            bytelen_attributes: (data_len - node.body_pos) as u64,
            bytelen_name: node.bytelen_name,
            body_pos: node.body_pos,
            has_child: node.has_child,
        }
    }
}

/// Closing the innermost node of `w0` gives `w1` and `r`: a node end marker
/// is appended if the node has children or no attributes, then the header
/// is filled in (for FBX 7.4, every field must fit in 32 bits).
pub open spec fn spec_node_closed(w0: Writer, w1: Writer, r: Result<()>) -> bool {
    let nodes = w0.spec_nodes();
    if nodes.len() == 0 {
        &&& r == Err::<(), Error>(Error::NoNodesToClose)
        &&& w1 == w0
    } else {
        let large = spec_writes_large_header(w0.spec_fbx_version());
        let hl = spec_header_len(w0.spec_fbx_version());
        let node = spec_closing(nodes.last(), w0.spec_data().len());
        let marker = node.has_child || node.num_attributes == 0;
        let data1 = w0.spec_data() + if marker {
            spec_zeros(hl)
        } else {
            Seq::empty()
        };
        let end = data1.len();
        &&& w1.spec_fbx_version() == w0.spec_fbx_version()
        &&& w1.spec_nodes() == nodes.drop_last()
        &&& if !large && end > u32::MAX {
            &&& r == Err::<(), Error>(Error::FileTooLarge(end as u64))
            &&& w1.spec_data() == data1
        } else if !large && node.num_attributes > u32::MAX {
            &&& r == Err::<(), Error>(Error::TooManyAttributes(node.num_attributes as usize))
            &&& w1.spec_data() == data1
        } else if !large && node.bytelen_attributes > u32::MAX {
            &&& r == Err::<(), Error>(Error::AttributeTooLong(node.bytelen_attributes as usize))
            &&& w1.spec_data() == data1
        } else {
            &&& r == Ok::<(), Error>(())
            &&& w1.spec_data() == spec_write_at(
                data1,
                node.header_pos as nat,
                spec_node_header_bytes(
                    large,
                    end as u64,
                    node.num_attributes,
                    node.bytelen_attributes,
                    node.bytelen_name,
                ),
            )
        }
    }
}

/// The bytes of the footer, written after `data` for the given version.
pub open spec fn spec_footer_bytes(data: Seq<u8>, footer: FbxFooter, version: FbxVersion) -> Seq<
    u8,
> {
    let at_padding = data.len() + 16;
    let padding_len: nat = match footer.padding_len {
        FbxFooterPaddingLength::Default => ((16 - at_padding % 16) % 16) as nat,
        FbxFooterPaddingLength::Forced(v) => v as nat,
    };
    footer.spec_unknown1() + spec_zeros(padding_len) + footer.spec_unknown2() + spec_u32_le(
        version@,
    ) + spec_zeros(120) + footer.spec_unknown3()
}

/// Writes the `n` bytes of a node end marker.
fn end_marker(n: usize) -> (v: Vec<u8>)
    ensures
        v@ == spec_zeros(n as nat),
{
    let v = crate::pull_parser::reader::zeroed(n);
    assert(v@ =~= spec_zeros(n as nat));
    v
}

/// The bytes of a node header (without the name).
fn node_header_bytes(large: bool, end: u64, count: u64, bytelen: u64, name_len: u8) -> (v: Vec<
    u8,
>)
    requires
        !large ==> end <= u32::MAX && count <= u32::MAX && bytelen <= u32::MAX,
    ensures
        v@ == spec_node_header_bytes(large, end, count, bytelen, name_len),
{
    let mut v: Vec<u8> = Vec::new();
    if large {
        let mut a = u64_to_le_bytes(end);
        let mut b = u64_to_le_bytes(count);
        let mut c = u64_to_le_bytes(bytelen);
        v.append(&mut a);
        v.append(&mut b);
        v.append(&mut c);
    } else {
        let mut a = u32_to_le_bytes(end as u32);
        let mut b = u32_to_le_bytes(count as u32);
        let mut c = u32_to_le_bytes(bytelen as u32);
        v.append(&mut a);
        v.append(&mut b);
        v.append(&mut c);
    }
    v.push(name_len);
    proof {
        if large {
            assert(v@ =~= spec_u64_le(end) + spec_u64_le(count) + spec_u64_le(bytelen) + seq![name_len]);
        } else {
            assert(v@ =~= spec_u32_le(end as u32) + spec_u32_le(count as u32) + spec_u32_le(bytelen as u32) + seq![name_len]);
        }
    }
    v
}

/// Filling in a placeholder of zeros written after `prefix` gives the data
/// with the header in its place.
pub proof fn lemma_fill_placeholder(prefix: Seq<u8>, header: Seq<u8>, body: Seq<u8>)
    ensures
        spec_write_at(prefix + spec_zeros(header.len()) + body, prefix.len(), header) == prefix
            + header + body,
{
    let d = prefix + spec_zeros(header.len()) + body;
    lemma_write_at_inside(d, prefix.len(), header);
    let r = spec_write_at(d, prefix.len(), header);
    let want = prefix + header + body;
    let hp = prefix.len() as int;
    let hl = header.len() as int;
    assert forall|k: int| 0 <= k < r.len() implies r[k] == want[k] by {
        if k < hp {
            assert(r.take(hp)[k] == d.take(hp)[k]);
        } else if k < hp + hl {
            assert(r.subrange(hp, hp + hl)[k - hp] == header[k - hp]);
        } else {
            assert(r.skip(hp + hl)[k - hp - hl] == d.skip(hp + hl)[k - hp - hl]);
        }
    }
    assert(r =~= want);
}

/// Binary writer for FBX 7.4 and 7.5.
#[derive(Debug)]
pub struct Writer {
    /// Sink.
    sink: MemoryWriter,
    /// FBX version.
    fbx_version: FbxVersion,
    /// Open nodes, outermost first.
    open_nodes: Vec<WriterNode>,
}

impl Writer {
    /// The bytes written so far.
    pub closed spec fn spec_data(&self) -> Seq<u8> {
        self.sink.data()
    }

    /// The write position of the sink.
    pub closed spec fn spec_pos(&self) -> nat {
        self.sink.pos()
    }

    /// The FBX version written.
    pub closed spec fn spec_fbx_version(&self) -> FbxVersion {
        self.fbx_version
    }

    /// The open nodes, outermost first.
    pub closed spec fn spec_nodes(&self) -> Seq<WriterNode> {
        self.open_nodes@
    }

    /// Well-formedness: the writer appends at the end of the data, and the
    /// header and name of each open node lie within the data before its
    /// attributes.
    pub open spec fn wf(&self) -> bool {
        &&& self.spec_pos() == self.spec_data().len()
        &&& self.spec_data().len() <= u64::MAX
        &&& self.spec_data().len() <= usize::MAX
        &&& forall|i: int|
            0 <= i < self.spec_nodes().len() ==> #[trigger] self.spec_nodes()[i].header_pos
                + spec_header_len(self.spec_fbx_version()) + self.spec_nodes()[i].bytelen_name
                <= self.spec_nodes()[i].body_pos <= self.spec_data().len()
    }

    /// Creates a new writer, and writes the FBX header.
    ///
    /// The sink must be at its end; the header is appended there.
    pub fn new(sink: MemoryWriter, fbx_version: FbxVersion) -> (r: Result<Self>)
        requires
            sink.pos() == sink.data().len(),
            sink.data().len() + 27 <= usize::MAX,
        ensures
            spec_parser_version(fbx_version@) != Some(ParserVersion::V7400) ==> r
                == Err::<Writer, Error>(Error::UnsupportedFbxVersion(fbx_version)),
            spec_parser_version(fbx_version@) == Some(ParserVersion::V7400) ==> (r matches Ok(w)
                && w.wf() && w.spec_fbx_version() == fbx_version && w.spec_nodes().len() == 0
                && w.spec_data() == sink.data() + spec_magic() + spec_u32_le(fbx_version@)),
    {
        match fbx_version.parser_version() {
            Some(ParserVersion::V7400) => {},
            _ => return Err(Error::UnsupportedFbxVersion(fbx_version)),
        }
        let mut sink = sink;
        let ghost d0 = sink.data();
        let m = magic();
        sink.write_all(m.as_slice());
        let v = u32_to_le_bytes(fbx_version.raw());
        sink.write_all(v.as_slice());
        proof {
            lemma_write_at_end(d0, spec_magic());
            lemma_write_at_end(d0 + spec_magic(), spec_u32_le(fbx_version@));
        }
        Ok(Writer { sink, fbx_version, open_nodes: Vec::new() })
    }

    /// Returns the FBX version.
    pub fn fbx_version(&self) -> (v: FbxVersion)
        ensures
            v == self.spec_fbx_version(),
    {
        self.fbx_version
    }

    /// Returns the number of open nodes.
    pub fn depth(&self) -> (n: usize)
        ensures
            n == self.spec_nodes().len(),
    {
        self.open_nodes.len()
    }

    /// Returns the number of bytes written so far.
    pub fn written_len(&self) -> (n: u64)
        requires
            self.wf(),
        ensures
            n == self.spec_data().len(),
    {
        self.sink.stream_position()
    }

    /// Returns the current write position.
    pub(crate) fn position(&self) -> (p: u64)
        requires
            self.wf(),
        ensures
            p == self.spec_pos(),
    {
        self.sink.stream_position()
    }

    /// Appends bytes at the end of the data.
    pub(crate) fn append(&mut self, bytes: &[u8])
        requires
            old(self).wf(),
            old(self).spec_data().len() + bytes@.len() <= u64::MAX,
            old(self).spec_data().len() + bytes@.len() <= usize::MAX,
        ensures
            final(self).wf(),
            final(self).spec_data() == old(self).spec_data() + bytes@,
            final(self).spec_fbx_version() == old(self).spec_fbx_version(),
            final(self).spec_nodes() == old(self).spec_nodes(),
    {
        let ghost d0 = self.sink.data();
        self.sink.write_all(bytes);
        proof {
            lemma_write_at_end(d0, bytes@);
            assert forall|i: int| 0 <= i < self.spec_nodes().len() implies #[trigger] self.spec_nodes()[i].header_pos
                + spec_header_len(self.spec_fbx_version()) + self.spec_nodes()[i].bytelen_name
                <= self.spec_nodes()[i].body_pos <= self.spec_data().len() by {
                assert(old(self).spec_nodes()[i] == self.spec_nodes()[i]);
            }
        }
    }

    /// Overwrites bytes inside the data, keeping the write position at the
    /// end.
    pub(crate) fn overwrite(&mut self, pos: u64, bytes: &[u8])
        requires
            old(self).wf(),
            pos + bytes@.len() <= old(self).spec_data().len(),
        ensures
            final(self).wf(),
            final(self).spec_data() == spec_write_at(old(self).spec_data(), pos as nat, bytes@),
            final(self).spec_data().len() == old(self).spec_data().len(),
            final(self).spec_fbx_version() == old(self).spec_fbx_version(),
            final(self).spec_nodes() == old(self).spec_nodes(),
    {
        let end = self.sink.stream_position();
        self.sink.seek_to(pos as usize);
        self.sink.write_all(bytes);
        self.sink.seek_to(end as usize);
        proof {
            lemma_write_at_inside(old(self).spec_data(), pos as nat, bytes@);
            assert forall|i: int| 0 <= i < self.spec_nodes().len() implies #[trigger] self.spec_nodes()[i].header_pos
                + spec_header_len(self.spec_fbx_version()) + self.spec_nodes()[i].bytelen_name
                <= self.spec_nodes()[i].body_pos <= self.spec_data().len() by {
                assert(old(self).spec_nodes()[i] == self.spec_nodes()[i]);
            }
        }
    }

    /// Starts a new node with the given name, and returns the writer of its
    /// attributes.
    ///
    /// The name must be at most 255 bytes long.
    pub fn new_node(&mut self, name: &str) -> (r: Result<AttributesWriter<'_>>)
        requires
            old(self).wf(),
            old(self).spec_data().len() + 25 + encode_utf8(name@).len() <= usize::MAX,
            old(self).spec_data().len() + 25 + encode_utf8(name@).len() <= u64::MAX,
        ensures
            encode_utf8(name@).len() > 255 ==> (r matches Err(e) && e == Error::NodeNameTooLong(
                encode_utf8(name@).len() as usize,
            )) && *final(self) == *old(self),
            encode_utf8(name@).len() <= 255 ==> (r matches Ok(aw) && aw.wf() && spec_node_started(
                *old(self),
                aw.spec_writer(),
                encode_utf8(name@),
            )),
    {
        let name_bytes = name.as_bytes();
        if name_bytes.len() > 255 {
            return Err(Error::NodeNameTooLong(name_bytes.len()));
        }
        let pos = self.position();
        let n = self.open_nodes.len();
        proof {
            if n > 0 {
                let _ = self.spec_nodes()[n - 1].header_pos;
            }
        }
        if n > 0 && !self.open_nodes[n - 1].has_child {
            let mut parent = self.open_nodes.pop().unwrap();
            parent.bytelen_attributes = pos - parent.body_pos;
            parent.has_child = true;
            self.open_nodes.push(parent);
        }
        assert(self.open_nodes@ =~= spec_parent_marked(old(self).open_nodes@, pos as nat));
        let hl: usize = if self.fbx_version.raw() >= 7500 {
            25
        } else {
            13
        };
        let ghost d0 = self.spec_data();
        let placeholder = end_marker(hl);
        self.append(placeholder.as_slice());
        self.append(name_bytes);
        let body_pos = self.position();
        self.open_nodes.push(
            WriterNode {
                header_pos: pos,
                num_attributes: 0,
                bytelen_attributes: 0,
                bytelen_name: name_bytes.len() as u8,
                body_pos,
                has_child: false,
            },
        );
        proof {
            assert(self.spec_data() =~= d0 + spec_zeros(hl as nat) + name_bytes@);
            assert forall|i: int| 0 <= i < self.spec_nodes().len() implies #[trigger] self.spec_nodes()[i].header_pos
                + spec_header_len(self.spec_fbx_version()) + self.spec_nodes()[i].bytelen_name
                <= self.spec_nodes()[i].body_pos <= self.spec_data().len() by {
                if i < n {
                    assert(self.spec_nodes()[i].header_pos == old(self).spec_nodes()[i].header_pos);
                    assert(self.spec_nodes()[i].body_pos == old(self).spec_nodes()[i].body_pos);
                    assert(self.spec_nodes()[i].bytelen_name == old(self).spec_nodes()[i].bytelen_name);
                }
            }
        }
        Ok(AttributesWriter::new(self))
    }

    /// Closes the innermost open node.
    #[verifier::rlimit(40)]
    pub fn close_node(&mut self) -> (r: Result<()>)
        requires
            old(self).wf(),
            old(self).spec_data().len() + 25 <= usize::MAX,
            old(self).spec_data().len() + 25 <= u64::MAX,
        ensures
            final(self).wf(),
            spec_node_closed(*old(self), *final(self), r),
    {
        let n = self.open_nodes.len();
        if n == 0 {
            return Err(Error::NoNodesToClose);
        }
        let pos = self.position();
        let mut node = self.pop_node();
        if !node.has_child {
            node.bytelen_attributes = pos - node.body_pos;
        }
        assert(node == spec_closing(old(self).spec_nodes().last(), old(self).spec_data().len()));
        let large = self.fbx_version.raw() >= 7500;
        let hl: usize = if large {
            25
        } else {
            13
        };
        let ghost d0 = self.spec_data();
        if node.has_child || node.num_attributes == 0 {
            let marker = end_marker(hl);
            self.append(marker.as_slice());
        }
        assert(self.spec_data() =~= d0 + if node.has_child || node.num_attributes == 0 {
            spec_zeros(hl as nat)
        } else {
            Seq::empty()
        });
        assert(self.wf());
        let end = self.position();
        if !large {
            if end > 0xffff_ffffu64 {
                return Err(Error::FileTooLarge(end));
            }
            if node.num_attributes > 0xffff_ffffu64 {
                return Err(Error::TooManyAttributes(node.num_attributes as usize));
            }
            if node.bytelen_attributes > 0xffff_ffffu64 {
                return Err(Error::AttributeTooLong(node.bytelen_attributes as usize));
            }
        }
        let header = node_header_bytes(
            large,
            end,
            node.num_attributes,
            node.bytelen_attributes,
            node.bytelen_name,
        );
        self.overwrite(node.header_pos, header.as_slice());
        Ok(())
    }

    /// Writes the end of the document and the footer, and returns the sink.
    ///
    /// Every node must be closed.
    pub fn finalize(self, footer: &FbxFooter) -> (r: Result<MemoryWriter>)
        requires
            self.wf(),
            self.spec_data().len() + 25 + 16 + 255 + 4 + 4 + 120 + 16 <= usize::MAX,
        ensures
            self.spec_nodes().len() > 0 ==> (r matches Err(e) && e == Error::UnclosedNode(
                self.spec_nodes().len() as usize,
            )),
            self.spec_nodes().len() == 0 ==> (r matches Ok(sink) && {
                let data1 = self.spec_data() + spec_zeros(spec_header_len(self.spec_fbx_version()));
                sink.data() == data1 + spec_footer_bytes(data1, *footer, self.spec_fbx_version())
            }),
    {
        let mut this = self;
        let depth = this.open_nodes.len();
        if depth > 0 {
            return Err(Error::UnclosedNode(depth));
        }
        let hl: usize = if this.fbx_version.raw() >= 7500 {
            25
        } else {
            13
        };
        let ghost d0 = this.spec_data();
        let marker = end_marker(hl);
        this.append(marker.as_slice());
        let ghost d1 = this.spec_data();
        let unknown1 = footer.unknown1();
        this.append(&unknown1);
        let at_padding = this.position();
        let padding_len: usize = match footer.padding_len {
            FbxFooterPaddingLength::Default => ((16 - at_padding % 16) % 16) as usize,
            FbxFooterPaddingLength::Forced(v) => v as usize,
        };
        let padding = end_marker(padding_len);
        this.append(padding.as_slice());
        let unknown2 = footer.unknown2();
        this.append(&unknown2);
        let version = u32_to_le_bytes(this.fbx_version.raw());
        this.append(version.as_slice());
        let zeros = end_marker(120);
        this.append(zeros.as_slice());
        let unknown3 = footer.unknown3();
        this.append(&unknown3);
        proof {
            assert(this.spec_data() =~= d1 + spec_footer_bytes(d1, *footer, this.spec_fbx_version()));
        }
        Ok(this.sink)
    }

    /// Removes the innermost node.
    fn pop_node(&mut self) -> (node: WriterNode)
        requires
            old(self).wf(),
            old(self).spec_nodes().len() > 0,
        ensures
            final(self).wf(),
            final(self).spec_nodes() == old(self).spec_nodes().drop_last(),
            node == old(self).spec_nodes().last(),
            final(self).spec_data() == old(self).spec_data(),
            final(self).spec_fbx_version() == old(self).spec_fbx_version(),
            node.header_pos + spec_header_len(old(self).spec_fbx_version()) + node.bytelen_name
                <= node.body_pos <= old(self).spec_data().len(),
    {
        let n = self.open_nodes.len();
        proof {
            let _ = self.spec_nodes()[n - 1].header_pos;
        }
        let ghost nodes0 = self.open_nodes@;
        let node = self.open_nodes.pop().unwrap();
        proof {
            assert forall|i: int| 0 <= i < self.spec_nodes().len() implies #[trigger] self.spec_nodes()[i].header_pos
                + spec_header_len(self.spec_fbx_version()) + self.spec_nodes()[i].bytelen_name
                <= self.spec_nodes()[i].body_pos <= self.spec_data().len() by {
                assert(self.spec_nodes()[i] == nodes0[i]);
                let _ = nodes0[i].header_pos;
            }
        }
        node
    }

    /// Counts one more attribute in the innermost node.
    pub(crate) fn count_attribute(&mut self) -> (r: Result<()>)
        requires
            old(self).wf(),
            old(self).spec_nodes().len() > 0,
        ensures
            final(self).wf(),
            final(self).spec_nodes().len() > 0,
            spec_top(*old(self)).num_attributes == u64::MAX ==> {
                &&& r == Err::<(), Error>(Error::TooManyAttributes(u64::MAX as usize))
                &&& *final(self) == *old(self)
            },
            spec_top(*old(self)).num_attributes < u64::MAX ==> {
                &&& r == Ok::<(), Error>(())
                &&& spec_attr_appended(*old(self), *final(self), Seq::empty())
            },
    {
        let n = self.open_nodes.len();
        let num = self.open_nodes[n - 1].num_attributes;
        if num == u64::MAX {
            return Err(Error::TooManyAttributes(num as usize));
        }
        let ghost d = self.spec_data();
        let mut node = self.open_nodes.pop().unwrap();
        node.num_attributes = num + 1;
        self.open_nodes.push(node);
        assert(self.spec_data() =~= d + Seq::<u8>::empty());
        assert(self.open_nodes@ =~= old(self).open_nodes@.update(
            n - 1,
            WriterNode {
                header_pos: node.header_pos,
                num_attributes: (num + 1) as u64,
                bytelen_attributes: node.bytelen_attributes,
                bytelen_name: node.bytelen_name,
                body_pos: node.body_pos,
                has_child: node.has_child,
            },
        ));
        Ok(())
    }
}

} // verus!
