//! The FBX footer, after the end marker of the document's nodes.

use vstd::prelude::*;

use crate::codec::{byteorder_read_u32, spec_le_u32};
use crate::low::v7400::{
    spec_expected_padding_len, spec_footer_well_formed, spec_unknown1_pattern,
    spec_unknown1_plausible, spec_unknown3_expected, FbxFooter, FOOTER_MIN_LEN,
};
use crate::pull_parser::error::{DataError, ErrorContainer, Warning};
use crate::pull_parser::reader::spec_consumed;
use crate::pull_parser::{Error, ParserSource, Result};
use crate::stream::IoError;

use super::{is_node_position, Parser};

verus! {

/// The warnings about the footer bytes `b` (see `spec_footer_well_formed`)
/// beginning at byte position `pos`, in order: a first unknown field without
/// the official upper bits, a padding of another length than the one that
/// aligns it, a second unknown field that is not zeros, a third unknown field
/// other than the official one.
pub open spec fn spec_footer_warnings(b: Seq<u8>, pos: int) -> Seq<Warning> {
    let n = b.len() as int;
    let got = n - FOOTER_MIN_LEN;
    let expected = spec_expected_padding_len(pos);
    let w1 = if spec_unknown1_plausible(b) {
        Seq::<Warning>::empty()
    } else {
        seq![Warning::UnexpectedFooterFieldValue]
    };
    let w2 = if got == expected {
        Seq::<Warning>::empty()
    } else {
        seq![Warning::InvalidFooterPaddingLength(expected as usize, got as usize)]
    };
    let w3 = if forall|i: int| n - 144 <= i < n - 140 ==> #[trigger] b[i] == 0 {
        Seq::<Warning>::empty()
    } else {
        seq![Warning::UnexpectedFooterFieldValue]
    };
    let w4 = if forall|i: int| 0 <= i < 16 ==> #[trigger] b[n - 16 + i] == spec_unknown3_expected()[i] {
        Seq::<Warning>::empty()
    } else {
        seq![Warning::UnexpectedFooterFieldValue]
    };
    w1 + w2 + w3 + w4
}

/// `r` fails with the error `c`, at the position of the parser `q`.
pub open spec fn fails_at<T>(r: Result<T>, c: ErrorContainer, q: Parser) -> bool {
    r matches Err(e) && e.container() == c && (e.spec_position() matches Some(a)
        && is_node_position(a, q))
}

/// What reading the footer does, from the parser `p` to `q`, giving `r`.
///
/// All the bytes left are read. Too few for a footer give an end-of-file
/// error, bytes that are no footer for the parser's FBX version (see
/// `spec_footer_well_formed`) a broken footer error. Otherwise the warnings
/// of `spec_footer_warnings` are emitted in order, at the parser's position:
/// if warnings are critical, the first one is the error; else the footer is
/// the result. The parser's progress is left as it is.
pub open spec fn spec_reads_footer(p: Parser, q: Parser, r: Result<FbxFooter>) -> bool {
    let rd = p.spec_reader();
    let b = rd.spec_rest();
    let ws = spec_footer_warnings(b, rd.spec_position() as int);
    let w0 = p.spec_warnings();
    let w = q.spec_warnings();
    &&& spec_consumed(rd, q.spec_reader(), b.len())
    &&& q.same_progress(&p)
    &&& if b.len() < FOOTER_MIN_LEN {
        fails_at(r, ErrorContainer::Io(IoError::UnexpectedEof), q) && w == w0
    } else if !spec_footer_well_formed(b, p.spec_fbx_version()@) {
        fails_at(r, ErrorContainer::Data(DataError::BrokenFbxFooter), q) && w == w0
    } else if p.spec_warnings_critical() && ws.len() > 0 {
        &&& fails_at(r, ErrorContainer::Warning(ws[0]), q)
        &&& w.len() == w0.len() + 1
        &&& w.take(w0.len() as int) == w0
        &&& w.last().0 == ws[0]
        &&& is_node_position(w.last().1, q)
    } else {
        &&& r matches Ok(f) && f.spec_read_from(b, p.spec_fbx_version())
        &&& w.len() == w0.len() + ws.len()
        &&& w.take(w0.len() as int) == w0
        &&& forall|i: int|
            0 <= i < ws.len() ==> (#[trigger] w[w0.len() + i]).0 == ws[i] && is_node_position(
                w[w0.len() + i].1,
                q,
            )
    }
}

/// Copies the bytes of `b` from `from` to `to`.
fn copy_range(b: &Vec<u8>, from: usize, to: usize) -> (v: Vec<u8>)
    requires
        from <= to <= b.len(),
    ensures
        v@ == b@.subrange(from as int, to as int),
{
    let mut v: Vec<u8> = Vec::new();
    let mut i = from;
    while i < to
        invariant
            from <= i <= to <= b.len(),
            v@ == b@.subrange(from as int, i as int),
        decreases to - i,
    {
        v.push(b[i]);
        assert(v@ =~= b@.subrange(from as int, i + 1));
        i = i + 1;
    }
    v
}

/// Whether `b` is a footer for the raw FBX version `v`.
fn footer_well_formed(b: &Vec<u8>, v: u32) -> (r: bool)
    requires
        b.len() >= FOOTER_MIN_LEN,
    ensures
        r == spec_footer_well_formed(b@, v),
{
    let n = b.len();
    let mut i: usize = 16;
    while i < n - 144
        invariant
            16 <= i <= n - 144,
            n == b.len() >= FOOTER_MIN_LEN,
            forall|k: int| 16 <= k < i ==> #[trigger] b@[k] == 0,
        decreases n - 144 - i,
    {
        if b[i] != 0 {
            return false;
        }
        i = i + 1;
    }
    let ver = copy_range(b, n - 140, n - 136);
    let raw = byteorder_read_u32(ver.as_slice());
    assert(spec_le_u32(ver@) == spec_le_u32(b@.skip(n - 140))) by {
        assert(ver@[0] == b@.skip(n - 140)[0]);
        assert(ver@[1] == b@.skip(n - 140)[1]);
        assert(ver@[2] == b@.skip(n - 140)[2]);
        assert(ver@[3] == b@.skip(n - 140)[3]);
    }
    if raw != v {
        return false;
    }
    let mut j: usize = n - 136;
    while j < n - 16
        invariant
            n - 136 <= j <= n - 16,
            n == b.len() >= FOOTER_MIN_LEN,
            forall|k: int| n - 136 <= k < j ==> #[trigger] b@[k] == 0,
        decreases n - 16 - j,
    {
        if b[j] != 0 {
            return false;
        }
        j = j + 1;
    }
    true
}

/// Whether the first 16 bytes of `b` have the official upper bits.
fn unknown1_plausible(b: &Vec<u8>) -> (r: bool)
    requires
        b.len() >= 16,
    ensures
        r == spec_unknown1_plausible(b@),
{
    let pattern: [u8; 16] = [
        0xf0, 0xb0, 0xa0, 0x00, 0xd0, 0xc0, 0xd0, 0x60, 0xb0, 0x70, 0xf0, 0x80, 0x10, 0xf0, 0x20,
        0x70,
    ];
    assert(pattern@ =~= spec_unknown1_pattern());
    let mut i: usize = 0;
    while i < 16
        invariant
            i <= 16,
            b.len() >= 16,
            pattern@ == spec_unknown1_pattern(),
            forall|k: int| 0 <= k < i ==> (#[trigger] b@[k] & 0xf0u8) == spec_unknown1_pattern()[k],
        decreases 16 - i,
    {
        if b[i] & 0xf0 != pattern[i] {
            return false;
        }
        i = i + 1;
    }
    true
}

/// Whether the last 16 bytes of `b` are the official third unknown field.
fn unknown3_expected(b: &Vec<u8>) -> (r: bool)
    requires
        b.len() >= 16,
    ensures
        r == (forall|i: int| 0 <= i < 16 ==> #[trigger] b@[b.len() - 16 + i] == spec_unknown3_expected()[i]),
{
    let expected: [u8; 16] = [
        0xf8, 0x5a, 0x8c, 0x6a, 0xde, 0xf5, 0xd9, 0x7e, 0xec, 0xe9, 0x0c, 0xe3, 0x75, 0x8f, 0x29,
        0x0b,
    ];
    assert(expected@ =~= spec_unknown3_expected());
    let n = b.len();
    let mut i: usize = 0;
    while i < 16
        invariant
            i <= 16,
            n == b.len() >= 16,
            expected@ == spec_unknown3_expected(),
            forall|k: int| 0 <= k < i ==> #[trigger] b@[n - 16 + k] == spec_unknown3_expected()[k],
        decreases 16 - i,
    {
        if b[n - 16 + i] != expected[i] {
            return false;
        }
        i = i + 1;
    }
    true
}

/// The warnings about the footer bytes `b` beginning at byte position `pos`.
fn footer_warnings(b: &Vec<u8>, pos: u64) -> (ws: Vec<Warning>)
    requires
        b.len() >= FOOTER_MIN_LEN,
    ensures
        ws@ == spec_footer_warnings(b@, pos as int),
{
    let n = b.len();
    let mut ws: Vec<Warning> = Vec::new();
    if !unknown1_plausible(b) {
        ws.push(Warning::UnexpectedFooterFieldValue);
    }
    let ghost w1 = ws@;
    let expected = (16 - pos % 16) % 16;
    let got = n - FOOTER_MIN_LEN;
    if got as u64 != expected {
        ws.push(Warning::InvalidFooterPaddingLength(expected as usize, got));
    }
    let ghost w2 = ws@;
    if b[n - 144] != 0 || b[n - 143] != 0 || b[n - 142] != 0 || b[n - 141] != 0 {
        ws.push(Warning::UnexpectedFooterFieldValue);
    }
    let ghost w3 = ws@;
    if !unknown3_expected(b) {
        ws.push(Warning::UnexpectedFooterFieldValue);
    }
    proof {
        let bb = b@;
        let nn = n as int;
        assert((forall|i: int| nn - 144 <= i < nn - 140 ==> #[trigger] bb[i] == 0) == (bb[nn - 144]
            == 0 && bb[nn - 143] == 0 && bb[nn - 142] == 0 && bb[nn - 141] == 0));
        assert(ws@ =~= spec_footer_warnings(b@, pos as int));
    }
    ws
}

impl Parser {
    /// Reads the FBX footer: all the bytes left.
    pub(crate) fn read_footer(&mut self) -> (r: Result<FbxFooter>)
        requires
            old(self).wf(),
        ensures
            final(self).wf(),
            spec_reads_footer(*old(self), *final(self), r),
    {
        let ghost p0 = *self;
        let pos = self.reader_position();
        let n = self.reader.remaining();
        let b = self.read_payload(n as u64);
        assert(b@ =~= p0.spec_reader().spec_rest());
        if b.len() < FOOTER_MIN_LEN {
            return Err(Error::with_position(ErrorContainer::Io(IoError::UnexpectedEof), self.position()));
        }
        if !footer_well_formed(&b, self.state.fbx_version.raw()) {
            return Err(
                Error::with_position(ErrorContainer::Data(DataError::BrokenFbxFooter), self.position()),
            );
        }
        let ws = footer_warnings(&b, pos);
        let ghost p1 = *self;
        let ghost w0 = p0.spec_warnings();
        let mut i: usize = 0;
        while i < ws.len()
            invariant
                i <= ws.len(),
                ws@ == spec_footer_warnings(p0.spec_reader().spec_rest(), pos as int),
                self.spec_reader() == p1.spec_reader(),
                p0 == *old(self),
                p0.wf(),
                w0 == p0.spec_warnings(),
                pos == p0.spec_reader().spec_position(),
                p0.spec_reader().spec_rest().len() >= FOOTER_MIN_LEN,
                spec_footer_well_formed(p0.spec_reader().spec_rest(), p0.spec_fbx_version()@),
                p1.spec_reader().bounded(),
                spec_consumed(p0.spec_reader(), p1.spec_reader(), p0.spec_reader().spec_rest().len()),
                self.same_progress(&p1),
                p1.same_progress(&p0),
                p1.spec_warnings() == w0,
                self.spec_warnings().len() == w0.len() + i,
                self.spec_warnings().take(w0.len() as int) == w0,
                forall|k: int|
                    0 <= k < i ==> (#[trigger] self.spec_warnings()[w0.len() + k]).0 == ws@[k]
                        && is_node_position(self.spec_warnings()[w0.len() + k].1, p1),
                i > 0 ==> !p0.spec_warnings_critical(),
            decreases ws.len() - i,
        {
            let at = self.position();
            let ghost wb = self.spec_warnings();
            match self.warn(ws[i], at) {
                Ok(()) => {},
                Err(e) => {
                    assert(wb =~= w0);
                    assert(self.spec_warnings().take(w0.len() as int) =~= w0);
                    assert(i == 0 && p0.spec_warnings_critical());
                    return Err(e);
                },
            }
            assert(self.spec_warnings().take(w0.len() as int) =~= w0);
            i = i + 1;
        }
        let len = b.len();
        let footer = FbxFooter {
            unknown1: copy_range(&b, 0, 16),
            padding_len: len - FOOTER_MIN_LEN,
            unknown2: copy_range(&b, len - 144, len - 140),
            fbx_version: self.state.fbx_version,
            unknown3: copy_range(&b, len - 16, len),
        };
        assert(b@.subrange(0, 16) =~= b@.take(16));
        assert(b@.subrange(len - 16, len as int) =~= b@.skip(len - 16));
        Ok(footer)
    }
}

} // verus!
