//! Node attributes writer.

use vstd::prelude::*;
use vstd::string::StringSliceAdditionalSpecFns;
use vstd::utf8::encode_utf8;

use crate::codec::{
    i16_to_le_bytes, i32_to_le_bytes, i64_to_le_bytes, spec_u16_le, spec_u32_le, spec_u64_le,
    u32_to_le_bytes, u64_to_le_bytes,
};
use crate::low::v7400::{
    spec_encoding_to_u32, spec_type_code, ArrayAttributeEncoding, AttributeType,
};
use crate::writer::v7400::binary::{
    lemma_fill_placeholder, spec_zeros, CompressionError, Error, Result, Writer, WriterNode,
};

use self::text::encode_chars;
use self::array::{
    bool_elements, f32_elements, f64_elements, i32_elements, i64_elements, libflate_zlib_encode,
};
pub use self::array::{
    spec_bool_elements, spec_f32_elements, spec_f64_elements, spec_i32_elements,
    spec_i64_elements, zlib_encoding,
};

mod array;
mod text;

verus! {

/// The raw byte of a boolean value: `b'Y'` for true, `b'T'` for false.
pub open spec fn spec_bool_attr_byte(v: bool) -> u8 {
    if v {
        89
    } else {
        84
    }
}

/// The bytes of a binary or string attribute of type `ty` storing `bytes`.
pub open spec fn spec_special_attr_bytes(ty: AttributeType, bytes: Seq<u8>) -> Seq<u8> {
    seq![spec_type_code(ty)] + spec_u32_le(bytes.len() as u32) + bytes
}

/// The bytes of an array attribute of type `ty` with `count` elements stored
/// as `stored` with the given encoding.
pub open spec fn spec_array_attr_bytes(
    ty: AttributeType,
    count: u32,
    encoding: ArrayAttributeEncoding,
    stored: Seq<u8>,
) -> Seq<u8> {
    seq![spec_type_code(ty)] + spec_u32_le(count) + spec_u32_le(spec_encoding_to_u32(encoding))
        + spec_u32_le(stored.len() as u32) + stored
}

/// The innermost node of `w`.
pub open spec fn spec_top(w: Writer) -> WriterNode {
    w.spec_nodes().last()
}

/// `w1` is `w0` with `bytes` appended, as one more attribute of the innermost
/// node.
pub open spec fn spec_attr_appended(w0: Writer, w1: Writer, bytes: Seq<u8>) -> bool {
    let n = w0.spec_nodes().len();
    let top = spec_top(w0);
    &&& w1.spec_data() == w0.spec_data() + bytes
    &&& w1.spec_fbx_version() == w0.spec_fbx_version()
    &&& w1.spec_nodes() == w0.spec_nodes().update(
        n - 1,
        WriterNode {
            header_pos: top.header_pos,
            num_attributes: (top.num_attributes + 1) as u64,
            bytelen_attributes: top.bytelen_attributes,
            bytelen_name: top.bytelen_name,
            body_pos: top.body_pos,
            has_child: top.has_child,
        },
    )
}

/// Appending a single-value attribute stored as `bytes`: the innermost node
/// cannot count one more attribute, or it does and the bytes are appended.
pub open spec fn spec_append_single(w0: Writer, w1: Writer, bytes: Seq<u8>, r: Result<()>) -> bool {
    if spec_top(w0).num_attributes == u64::MAX {
        &&& r == Err::<(), Error>(Error::TooManyAttributes(u64::MAX as usize))
        &&& w1 == w0
    } else {
        &&& r == Ok::<(), Error>(())
        &&& spec_attr_appended(w0, w1, bytes)
    }
}

/// Appending a binary or string attribute of type `ty` storing `bytes`; its
/// length must fit in 32 bits (otherwise the bytes are written with a zero
/// length header, and the result is an error).
pub open spec fn spec_append_special(
    w0: Writer,
    w1: Writer,
    ty: AttributeType,
    bytes: Seq<u8>,
    r: Result<()>,
) -> bool {
    if spec_top(w0).num_attributes == u64::MAX {
        &&& r == Err::<(), Error>(Error::TooManyAttributes(u64::MAX as usize))
        &&& w1 == w0
    } else if bytes.len() > u32::MAX {
        &&& r == Err::<(), Error>(Error::AttributeTooLong(bytes.len() as usize))
        &&& spec_attr_appended(w0, w1, seq![spec_type_code(ty)] + seq![0u8, 0, 0, 0] + bytes)
    } else {
        &&& r == Ok::<(), Error>(())
        &&& spec_attr_appended(w0, w1, spec_special_attr_bytes(ty, bytes))
    }
}

/// Appending an array attribute of type `ty` with `count` elements whose
/// stored bytes, before any compression, are `elements`.
///
/// The count must fit in 32 bits; with zlib encoding the elements are
/// compressed (if that fails, the result is a compression error); and the
/// stored length must fit in 32 bits.
pub open spec fn spec_append_array(
    w0: Writer,
    w1: Writer,
    ty: AttributeType,
    encoding: ArrayAttributeEncoding,
    elements: Seq<u8>,
    count: nat,
    r: Result<()>,
) -> bool {
    let head = seq![spec_type_code(ty)] + spec_zeros(12);
    if spec_top(w0).num_attributes == u64::MAX {
        &&& r == Err::<(), Error>(Error::TooManyAttributes(u64::MAX as usize))
        &&& w1 == w0
    } else if count > u32::MAX {
        &&& r == Err::<(), Error>(Error::TooManyArrayAttributeElements((count + 1) as usize))
        &&& spec_attr_appended(
            w0,
            w1,
            head + if encoding == ArrayAttributeEncoding::Direct {
                elements
            } else {
                Seq::empty()
            },
        )
    } else {
        let stored = if encoding == ArrayAttributeEncoding::Direct {
            elements
        } else {
            zlib_encoding(elements)
        };
        ||| (encoding == ArrayAttributeEncoding::Zlib && (r matches Err(Error::Compression(
            CompressionError::Zlib(_),
        ))) && spec_attr_appended(w0, w1, head))
        ||| {
            &&& encoding == ArrayAttributeEncoding::Zlib
            &&& w0.spec_data().len() + 13 + stored.len() > usize::MAX
            &&& r == Err::<(), Error>(Error::AttributeTooLong(stored.len() as usize))
            &&& spec_attr_appended(w0, w1, head)
        }
        ||| {
            &&& stored.len() > u32::MAX
            &&& r == Err::<(), Error>(Error::AttributeTooLong(stored.len() as usize))
            &&& spec_attr_appended(w0, w1, head + stored)
        }
        ||| {
            &&& stored.len() <= u32::MAX
            &&& r == Ok::<(), Error>(())
            &&& spec_attr_appended(
                w0,
                w1,
                spec_array_attr_bytes(ty, count as u32, encoding, stored),
            )
        }
    }
}

/// `k` is the index of the first error among `items` (their number if there
/// is none).
pub open spec fn spec_first_error_at<T>(items: Seq<std::result::Result<T, String>>, k: int) -> bool {
    &&& 0 <= k <= items.len()
    &&& forall|j: int| 0 <= j < k ==> #[trigger] items[j] is Ok
    &&& k < items.len() ==> items[k] is Err
}

/// The values of the first `k` items (all `Ok`).
pub open spec fn spec_ok_values<T>(items: Seq<std::result::Result<T, String>>, k: int) -> Seq<T> {
    Seq::new(k as nat, |j: int| items[j]->Ok_0)
}

/// Appending a binary or string attribute of type `ty` from items, whose
/// `Ok` values up to the first error are encoded by `encode`: at an error,
/// the values before it are written after a zero length header, and the
/// result is that error as a user-defined error.
pub open spec fn spec_append_special_items<T>(
    w0: Writer,
    w1: Writer,
    ty: AttributeType,
    items: Seq<std::result::Result<T, String>>,
    encode: spec_fn(Seq<T>) -> Seq<u8>,
    r: Result<()>,
) -> bool {
    forall|k: int|
        #![trigger spec_first_error_at(items, k)]
        spec_first_error_at(items, k) ==> if spec_top(w0).num_attributes == u64::MAX {
            &&& r == Err::<(), Error>(Error::TooManyAttributes(u64::MAX as usize))
            &&& w1 == w0
        } else if k < items.len() {
            &&& r matches Err(Error::UserDefined(m)) && m@ == items[k]->Err_0@
            &&& spec_attr_appended(
                w0,
                w1,
                seq![spec_type_code(ty)] + seq![0u8, 0, 0, 0] + encode(spec_ok_values(items, k)),
            )
        } else {
            spec_append_special(w0, w1, ty, encode(spec_ok_values(items, k)), r)
        }
}

/// Node attributes writer.
///
/// Each `append_*` method writes one more attribute of the node being
/// written.
#[derive(Debug)]
pub struct AttributesWriter<'a> {
    /// Inner writer.
    writer: &'a mut Writer,
}

impl<'a> AttributesWriter<'a> {
    /// The writer.
    pub closed spec fn spec_writer(&self) -> Writer {
        *self.writer
    }

    /// Well-formedness: the writer is well-formed with a node open.
    pub open spec fn wf(&self) -> bool {
        &&& self.spec_writer().wf()
        &&& self.spec_writer().spec_nodes().len() > 0
    }

    /// Creates a new `AttributesWriter`.
    pub(crate) fn new(writer: &'a mut Writer) -> (r: Self)
        ensures
            r.spec_writer() == *old(writer),
    {
        Self { writer }
    }

    /// Returns the number of bytes written so far.
    pub fn written_len(&self) -> (n: u64)
        requires
            self.wf(),
        ensures
            n == self.spec_writer().spec_data().len(),
    {
        self.writer.position()
    }

    /// Counts one more attribute in the innermost node's header.
    fn update_node_header(&mut self) -> (r: Result<()>)
        requires
            old(self).wf(),
        ensures
            final(self).wf(),
            spec_top(old(self).spec_writer()).num_attributes == u64::MAX ==> {
                &&& r == Err::<(), Error>(Error::TooManyAttributes(u64::MAX as usize))
                &&& final(self).spec_writer() == old(self).spec_writer()
            },
            spec_top(old(self).spec_writer()).num_attributes < u64::MAX ==> {
                &&& r == Ok::<(), Error>(())
                &&& spec_attr_appended(old(self).spec_writer(), final(self).spec_writer(), Seq::empty())
            },
    {
        self.writer.count_attribute()
    }

    /// Writes the given attribute type as type code.
    fn write_type_code(&mut self, ty: AttributeType)
        requires
            old(self).wf(),
            old(self).spec_writer().spec_data().len() + 1 <= usize::MAX,
            old(self).spec_writer().spec_data().len() + 1 <= u64::MAX,
        ensures
            final(self).wf(),
            final(self).spec_writer().spec_data() == old(self).spec_writer().spec_data() + seq![spec_type_code(ty)],
            final(self).spec_writer().spec_nodes() == old(self).spec_writer().spec_nodes(),
            final(self).spec_writer().spec_fbx_version() == old(self).spec_writer().spec_fbx_version(),
    {
        let code = [ty.type_code()];
        self.writer.append(&code);
    }

    /// Appends the bytes of one single-value attribute: its type code, then
    /// `value`.
    fn append_single(&mut self, ty: AttributeType, value: &[u8]) -> (r: Result<()>)
        requires
            old(self).wf(),
            old(self).spec_writer().spec_data().len() + 1 + value@.len() <= usize::MAX,
            old(self).spec_writer().spec_data().len() + 1 + value@.len() <= u64::MAX,
        ensures
            final(self).wf(),
            spec_append_single(
                old(self).spec_writer(),
                final(self).spec_writer(),
                seq![spec_type_code(ty)] + value@,
                r,
            ),
    {
        match self.update_node_header() {
            Ok(()) => {},
            Err(e) => return Err(e),
        }
        let ghost w1 = self.spec_writer();
        self.write_type_code(ty);
        self.writer.append(value);
        assert(self.spec_writer().spec_data() =~= w1.spec_data() + (seq![spec_type_code(ty)] + value@));
        Ok(())
    }

    /// Writes a single boolean attribute.
    pub fn append_bool(&mut self, v: bool) -> (r: Result<()>)
        requires
            old(self).wf(),
            old(self).spec_writer().spec_data().len() + 2 <= usize::MAX,
            old(self).spec_writer().spec_data().len() + 2 <= u64::MAX,
        ensures
            final(self).wf(),
            spec_append_single(
                old(self).spec_writer(),
                final(self).spec_writer(),
                seq![spec_type_code(AttributeType::Bool)] + seq![spec_bool_attr_byte(v)],
                r,
            ),
    {
        let raw: [u8; 1] = [if v {
            89u8
        } else {
            84u8
        }];
        assert(raw@ =~= seq![spec_bool_attr_byte(v)]);
        self.append_single(AttributeType::Bool, &raw)
    }

    /// Writes a single `i16` attribute.
    pub fn append_i16(&mut self, v: i16) -> (r: Result<()>)
        requires
            old(self).wf(),
            old(self).spec_writer().spec_data().len() + 3 <= usize::MAX,
            old(self).spec_writer().spec_data().len() + 3 <= u64::MAX,
        ensures
            final(self).wf(),
            spec_append_single(
                old(self).spec_writer(),
                final(self).spec_writer(),
                seq![spec_type_code(AttributeType::I16)] + spec_u16_le(v as u16),
                r,
            ),
    {
        let b = i16_to_le_bytes(v);
        self.append_single(AttributeType::I16, b.as_slice())
    }

    /// Writes a single `i32` attribute.
    pub fn append_i32(&mut self, v: i32) -> (r: Result<()>)
        requires
            old(self).wf(),
            old(self).spec_writer().spec_data().len() + 5 <= usize::MAX,
            old(self).spec_writer().spec_data().len() + 5 <= u64::MAX,
        ensures
            final(self).wf(),
            spec_append_single(
                old(self).spec_writer(),
                final(self).spec_writer(),
                seq![spec_type_code(AttributeType::I32)] + spec_u32_le(v as u32),
                r,
            ),
    {
        let b = i32_to_le_bytes(v);
        self.append_single(AttributeType::I32, b.as_slice())
    }

    /// Writes a single `i64` attribute.
    pub fn append_i64(&mut self, v: i64) -> (r: Result<()>)
        requires
            old(self).wf(),
            old(self).spec_writer().spec_data().len() + 9 <= usize::MAX,
            old(self).spec_writer().spec_data().len() + 9 <= u64::MAX,
        ensures
            final(self).wf(),
            spec_append_single(
                old(self).spec_writer(),
                final(self).spec_writer(),
                seq![spec_type_code(AttributeType::I64)] + spec_u64_le(v as u64),
                r,
            ),
    {
        let b = i64_to_le_bytes(v);
        self.append_single(AttributeType::I64, b.as_slice())
    }

    /// Writes a single `f32`, given as its bit pattern attribute.
    pub fn append_f32(&mut self, v: u32) -> (r: Result<()>)
        requires
            old(self).wf(),
            old(self).spec_writer().spec_data().len() + 5 <= usize::MAX,
            old(self).spec_writer().spec_data().len() + 5 <= u64::MAX,
        ensures
            final(self).wf(),
            spec_append_single(
                old(self).spec_writer(),
                final(self).spec_writer(),
                seq![spec_type_code(AttributeType::F32)] + spec_u32_le(v),
                r,
            ),
    {
        let b = u32_to_le_bytes(v);
        self.append_single(AttributeType::F32, b.as_slice())
    }

    /// Writes a single `f64`, given as its bit pattern attribute.
    pub fn append_f64(&mut self, v: u64) -> (r: Result<()>)
        requires
            old(self).wf(),
            old(self).spec_writer().spec_data().len() + 9 <= usize::MAX,
            old(self).spec_writer().spec_data().len() + 9 <= u64::MAX,
        ensures
            final(self).wf(),
            spec_append_single(
                old(self).spec_writer(),
                final(self).spec_writer(),
                seq![spec_type_code(AttributeType::F64)] + spec_u64_le(v),
                r,
            ),
    {
        let b = u64_to_le_bytes(v);
        self.append_single(AttributeType::F64, b.as_slice())
    }

    /// Writes a special (binary or string) attribute of type `ty` storing
    /// `bytes`: the type code and a length placeholder, the bytes, and then
    /// the length.
    fn append_special(&mut self, ty: AttributeType, bytes: &[u8]) -> (r: Result<()>)
        requires
            old(self).wf(),
            old(self).spec_writer().spec_data().len() + 5 + bytes@.len() <= usize::MAX,
            old(self).spec_writer().spec_data().len() + 5 + bytes@.len() <= u64::MAX,
        ensures
            final(self).wf(),
            spec_append_special(old(self).spec_writer(), final(self).spec_writer(), ty, bytes@, r),
    {
        match self.update_node_header() {
            Ok(()) => {},
            Err(e) => return Err(e),
        }
        let ghost w1 = self.spec_writer();
        self.write_type_code(ty);
        let header_pos = self.writer.position();
        let placeholder: [u8; 4] = [0; 4];
        self.writer.append(&placeholder);
        self.writer.append(bytes);
        proof {
            assert(placeholder@ =~= seq![0u8, 0, 0, 0]);
        }
        let len = bytes.len();
        if len > 0xffff_ffffusize {
            assert(self.spec_writer().spec_data() =~= w1.spec_data() + (seq![spec_type_code(ty)] + seq![0u8, 0, 0, 0] + bytes@));
            return Err(Error::AttributeTooLong(len));
        }
        let ghost d2 = self.spec_writer().spec_data();
        let header = u32_to_le_bytes(len as u32);
        self.writer.overwrite(header_pos, header.as_slice());
        proof {
            let d = self.spec_writer().spec_data();
            let want = w1.spec_data() + spec_special_attr_bytes(ty, bytes@);
            let hp = header_pos as int;
            crate::writer::v7400::binary::lemma_write_at_inside(d2, hp as nat, header@);
            assert(d.len() == want.len());
            assert forall|k: int| 0 <= k < d.len() implies d[k] == want[k] by {
                if k < hp {
                    assert(d.take(hp)[k] == d2.take(hp)[k]);
                } else if k < hp + 4 {
                    assert(d.subrange(hp, hp + 4)[k - hp] == header@[k - hp]);
                } else {
                    assert(d.skip(hp + 4)[k - hp - 4] == d2.skip(hp + 4)[k - hp - 4]);
                }
            }
            assert(d =~= want);
        }
        Ok(())
    }

    /// Fills in the header of the array attribute just written, whose stored
    /// bytes are `stored` after the type code at `header_pos - 1`.
    fn finish_array(
        &mut self,
        header_pos: u64,
        ty: AttributeType,
        count: u32,
        encoding: ArrayAttributeEncoding,
        stored: &[u8],
        Ghost(prefix): Ghost<Seq<u8>>,
    ) -> (r: Result<()>)
        requires
            old(self).wf(),
            header_pos == prefix.len() + 1,
            old(self).spec_writer().spec_data() == prefix + (seq![spec_type_code(ty)] + spec_zeros(12))
                + stored@,
        ensures
            final(self).wf(),
            final(self).spec_writer().spec_nodes() == old(self).spec_writer().spec_nodes(),
            final(self).spec_writer().spec_fbx_version() == old(self).spec_writer().spec_fbx_version(),
            stored@.len() > u32::MAX ==> r == Err::<(), Error>(Error::AttributeTooLong(
                stored@.len() as usize,
            )) && final(self).spec_writer() == old(self).spec_writer(),
            stored@.len() <= u32::MAX ==> r == Ok::<(), Error>(()) && final(self).spec_writer().spec_data()
                == prefix + spec_array_attr_bytes(ty, count, encoding, stored@),
    {
        let len = stored.len();
        if len > 0xffff_ffffusize {
            return Err(Error::AttributeTooLong(len));
        }
        let mut header = u32_to_le_bytes(count);
        let mut enc = u32_to_le_bytes(encoding.to_u32());
        let mut bytelen = u32_to_le_bytes(len as u32);
        header.append(&mut enc);
        header.append(&mut bytelen);
        let ghost hdr = spec_u32_le(count) + spec_u32_le(spec_encoding_to_u32(encoding))
            + spec_u32_le(len as u32);
        assert(header@ =~= hdr);
        self.writer.overwrite(header_pos, header.as_slice());
        proof {
            let p1 = prefix + seq![spec_type_code(ty)];
            assert(prefix + (seq![spec_type_code(ty)] + spec_zeros(12)) + stored@ =~= p1 + spec_zeros(12) + stored@);
            lemma_fill_placeholder(p1, hdr, stored@);
            assert(p1 + hdr + stored@ =~= prefix + spec_array_attr_bytes(ty, count, encoding, stored@));
        }
        Ok(())
    }

    /// Writes an array attribute of type `ty` with `count` elements, whose
    /// stored bytes before any compression are `elements`: the type code and
    /// a header placeholder, the stored bytes, and then the header.
    #[verifier::rlimit(40)]
    fn append_array(
        &mut self,
        ty: AttributeType,
        encoding: ArrayAttributeEncoding,
        elements: &[u8],
        count: usize,
    ) -> (r: Result<()>)
        requires
            old(self).wf(),
            count < usize::MAX,
            old(self).spec_writer().spec_data().len() + 13 + elements@.len() <= usize::MAX,
            usize::MAX <= u64::MAX,
        ensures
            final(self).wf(),
            spec_append_array(
                old(self).spec_writer(),
                final(self).spec_writer(),
                ty,
                encoding,
                elements@,
                count as nat,
                r,
            ),
    {
        match self.update_node_header() {
            Ok(()) => {},
            Err(e) => return Err(e),
        }
        let ghost w1 = self.spec_writer();
        self.write_type_code(ty);
        let header_pos = self.writer.position();
        let placeholder = [0u8; 12];
        self.writer.append(&placeholder);
        assert(placeholder@ =~= spec_zeros(12));
        let ghost head = seq![spec_type_code(ty)] + spec_zeros(12);
        assert(self.spec_writer().spec_data() =~= w1.spec_data() + head);
        let stored: Vec<u8> = match encoding {
            ArrayAttributeEncoding::Direct => {
                self.writer.append(elements);
                if count > 0xffff_ffffusize {
                    assert(self.spec_writer().spec_data() =~= w1.spec_data() + (head + elements@));
                    return Err(Error::TooManyArrayAttributeElements(count + 1));
                }
                vstd::slice::slice_to_vec(elements)
            },
            ArrayAttributeEncoding::Zlib => {
                if count > 0xffff_ffffusize {
                    assert(self.spec_writer().spec_data() =~= w1.spec_data() + (head + Seq::<u8>::empty()));
                    return Err(Error::TooManyArrayAttributeElements(count + 1));
                }
                match libflate_zlib_encode(elements) {
                    Err(msg) => return Err(Error::Compression(CompressionError::Zlib(msg))),
                    Ok(v) => {
                        let pos = self.writer.position() as usize;
                        if v.len() > usize::MAX - pos {
                            assert(self.spec_writer().spec_data() =~= w1.spec_data() + head);
                            return Err(Error::AttributeTooLong(v.len()));
                        }
                        self.writer.append(v.as_slice());
                        v
                    },
                }
            },
        };
        assert(self.spec_writer().spec_data() =~= w1.spec_data() + head + stored@);
        let r = self.finish_array(
            header_pos,
            ty,
            count as u32,
            encoding,
            stored.as_slice(),
            Ghost(w1.spec_data()),
        );
        proof {
            if stored@.len() > u32::MAX {
                assert(self.spec_writer().spec_data() =~= old(self).spec_writer().spec_data() + (head
                    + stored@));
            } else {
                assert(self.spec_writer().spec_data() =~= old(self).spec_writer().spec_data()
                    + spec_array_attr_bytes(ty, count as u32, encoding, stored@));
            }
        }
        r
    }

    /// Writes a boolean array attribute, with the given encoding (direct if
    /// none).
    pub fn append_arr_bool_from_iter(
        &mut self,
        encoding: Option<ArrayAttributeEncoding>,
        iter: Vec<bool>,
    ) -> (r: Result<()>)
        requires
            old(self).wf(),
            iter@.len() < usize::MAX,
            old(self).spec_writer().spec_data().len() + 13 + 8 * iter@.len() <= usize::MAX,
            usize::MAX <= u64::MAX,
        ensures
            final(self).wf(),
            spec_append_array(
                old(self).spec_writer(),
                final(self).spec_writer(),
                AttributeType::ArrBool,
                match encoding {
                    Some(e) => e,
                    None => ArrayAttributeEncoding::Direct,
                },
                spec_bool_elements(iter@),
                iter@.len(),
                r,
            ),
    {
        let encoding = match encoding {
            Some(e) => e,
            None => ArrayAttributeEncoding::Direct,
        };
        let elements = bool_elements(iter.as_slice());
        self.append_array(AttributeType::ArrBool, encoding, elements.as_slice(), iter.len())
    }

    /// Writes an `i32` array attribute, with the given encoding (direct if
    /// none).
    pub fn append_arr_i32_from_iter(
        &mut self,
        encoding: Option<ArrayAttributeEncoding>,
        iter: Vec<i32>,
    ) -> (r: Result<()>)
        requires
            old(self).wf(),
            iter@.len() < usize::MAX,
            old(self).spec_writer().spec_data().len() + 13 + 8 * iter@.len() <= usize::MAX,
            usize::MAX <= u64::MAX,
        ensures
            final(self).wf(),
            spec_append_array(
                old(self).spec_writer(),
                final(self).spec_writer(),
                AttributeType::ArrI32,
                match encoding {
                    Some(e) => e,
                    None => ArrayAttributeEncoding::Direct,
                },
                spec_i32_elements(iter@),
                iter@.len(),
                r,
            ),
    {
        let encoding = match encoding {
            Some(e) => e,
            None => ArrayAttributeEncoding::Direct,
        };
        let elements = i32_elements(iter.as_slice());
        self.append_array(AttributeType::ArrI32, encoding, elements.as_slice(), iter.len())
    }

    /// Writes an `i64` array attribute, with the given encoding (direct if
    /// none).
    pub fn append_arr_i64_from_iter(
        &mut self,
        encoding: Option<ArrayAttributeEncoding>,
        iter: Vec<i64>,
    ) -> (r: Result<()>)
        requires
            old(self).wf(),
            iter@.len() < usize::MAX,
            old(self).spec_writer().spec_data().len() + 13 + 8 * iter@.len() <= usize::MAX,
            usize::MAX <= u64::MAX,
        ensures
            final(self).wf(),
            spec_append_array(
                old(self).spec_writer(),
                final(self).spec_writer(),
                AttributeType::ArrI64,
                match encoding {
                    Some(e) => e,
                    None => ArrayAttributeEncoding::Direct,
                },
                spec_i64_elements(iter@),
                iter@.len(),
                r,
            ),
    {
        let encoding = match encoding {
            Some(e) => e,
            None => ArrayAttributeEncoding::Direct,
        };
        let elements = i64_elements(iter.as_slice());
        self.append_array(AttributeType::ArrI64, encoding, elements.as_slice(), iter.len())
    }

    /// Writes an `f32` (bit patterns) array attribute, with the given encoding (direct if
    /// none).
    pub fn append_arr_f32_from_iter(
        &mut self,
        encoding: Option<ArrayAttributeEncoding>,
        iter: Vec<u32>,
    ) -> (r: Result<()>)
        requires
            old(self).wf(),
            iter@.len() < usize::MAX,
            old(self).spec_writer().spec_data().len() + 13 + 8 * iter@.len() <= usize::MAX,
            usize::MAX <= u64::MAX,
        ensures
            final(self).wf(),
            spec_append_array(
                old(self).spec_writer(),
                final(self).spec_writer(),
                AttributeType::ArrF32,
                match encoding {
                    Some(e) => e,
                    None => ArrayAttributeEncoding::Direct,
                },
                spec_f32_elements(iter@),
                iter@.len(),
                r,
            ),
    {
        let encoding = match encoding {
            Some(e) => e,
            None => ArrayAttributeEncoding::Direct,
        };
        let elements = f32_elements(iter.as_slice());
        self.append_array(AttributeType::ArrF32, encoding, elements.as_slice(), iter.len())
    }

    /// Writes an `f64` (bit patterns) array attribute, with the given encoding (direct if
    /// none).
    pub fn append_arr_f64_from_iter(
        &mut self,
        encoding: Option<ArrayAttributeEncoding>,
        iter: Vec<u64>,
    ) -> (r: Result<()>)
        requires
            old(self).wf(),
            iter@.len() < usize::MAX,
            old(self).spec_writer().spec_data().len() + 13 + 8 * iter@.len() <= usize::MAX,
            usize::MAX <= u64::MAX,
        ensures
            final(self).wf(),
            spec_append_array(
                old(self).spec_writer(),
                final(self).spec_writer(),
                AttributeType::ArrF64,
                match encoding {
                    Some(e) => e,
                    None => ArrayAttributeEncoding::Direct,
                },
                spec_f64_elements(iter@),
                iter@.len(),
                r,
            ),
    {
        let encoding = match encoding {
            Some(e) => e,
            None => ArrayAttributeEncoding::Direct,
        };
        let elements = f64_elements(iter.as_slice());
        self.append_array(AttributeType::ArrF64, encoding, elements.as_slice(), iter.len())
    }

    /// Writes a binary attribute.
    pub fn append_binary_direct(&mut self, binary: &[u8]) -> (r: Result<()>)
        requires
            old(self).wf(),
            old(self).spec_writer().spec_data().len() + 5 + binary@.len() <= usize::MAX,
            old(self).spec_writer().spec_data().len() + 5 + binary@.len() <= u64::MAX,
        ensures
            final(self).wf(),
            spec_append_special(
                old(self).spec_writer(),
                final(self).spec_writer(),
                AttributeType::Binary,
                binary@,
                r,
            ),
    {
        self.append_special(AttributeType::Binary, binary)
    }

    /// Writes a string attribute (its UTF-8 bytes).
    pub fn append_string_direct(&mut self, string: &str) -> (r: Result<()>)
        requires
            old(self).wf(),
            old(self).spec_writer().spec_data().len() + 5 + encode_utf8(string@).len() <= usize::MAX,
            old(self).spec_writer().spec_data().len() + 5 + encode_utf8(string@).len() <= u64::MAX,
        ensures
            final(self).wf(),
            spec_append_special(
                old(self).spec_writer(),
                final(self).spec_writer(),
                AttributeType::String,
                encode_utf8(string@),
                r,
            ),
    {
        let bytes = string.as_bytes();
        self.append_special(AttributeType::String, bytes)
    }

    /// Writes a string attribute from the given characters (their UTF-8
    /// bytes).
    pub fn append_string_from_iter(&mut self, iter: Vec<char>) -> (r: Result<()>)
        requires
            old(self).wf(),
            old(self).spec_writer().spec_data().len() + 5 + 4 * iter@.len() <= usize::MAX,
            old(self).spec_writer().spec_data().len() + 5 + 4 * iter@.len() <= u64::MAX,
        ensures
            final(self).wf(),
            spec_append_special(
                old(self).spec_writer(),
                final(self).spec_writer(),
                AttributeType::String,
                encode_utf8(iter@),
                r,
            ),
    {
        let bytes = encode_chars(iter.as_slice());
        self.append_special(AttributeType::String, bytes.as_slice())
    }

    /// Writes a binary attribute from the given results, stopping at the
    /// first error.
    pub fn append_binary_from_result_iter(&mut self, iter: Vec<std::result::Result<u8, String>>) -> (r:
        Result<()>)
        requires
            old(self).wf(),
            old(self).spec_writer().spec_data().len() + 5 + iter@.len() <= usize::MAX,
            old(self).spec_writer().spec_data().len() + 5 + iter@.len() <= u64::MAX,
        ensures
            final(self).wf(),
            spec_append_special_items(
                old(self).spec_writer(),
                final(self).spec_writer(),
                AttributeType::Binary,
                iter@,
                |v: Seq<u8>| v,
                r,
            ),
    {
        let mut bytes: Vec<u8> = Vec::new();
        let mut i: usize = 0;
        let mut failed = false;
        while i < iter.len() && !failed
            invariant
                i <= iter@.len(),
                forall|j: int| 0 <= j < i ==> #[trigger] iter@[j] is Ok,
                bytes@ == spec_ok_values(iter@, i as int),
                failed ==> i < iter@.len() && iter@[i as int] is Err,
            decreases iter@.len() - i + if failed {
                0int
            } else {
                1
            },
        {
            match &iter[i] {
                Ok(b) => {
                    bytes.push(*b);
                    assert(bytes@ =~= spec_ok_values(iter@, i + 1));
                    i = i + 1;
                },
                Err(_) => {
                    failed = true;
                },
            }
        }
        assert(spec_first_error_at(iter@, i as int));
        if i < iter.len() {
            let message = match &iter[i] {
                Ok(_) => String::new(),
                Err(e) => e.clone(),
            };
            let ghost w0 = self.spec_writer();
            let r = self.append_special_truncated(AttributeType::Binary, bytes.as_slice(), message);
            assert forall|k: int| #[trigger] spec_first_error_at(iter@, k) implies k == i by {
                if k < i {
                    assert(iter@[k] is Ok);
                } else if k > i {
                    assert(iter@[i as int] is Ok);
                }
            }
            r
        } else {
            assert forall|k: int| #[trigger] spec_first_error_at(iter@, k) implies k == i by {
                if k < i {
                    assert(iter@[k] is Ok);
                }
            }
            self.append_special(AttributeType::Binary, bytes.as_slice())
        }
    }

    /// Writes a string attribute from the given results, stopping at the
    /// first error.
    pub fn append_string_from_result_iter(&mut self, iter: Vec<std::result::Result<char, String>>) -> (r:
        Result<()>)
        requires
            old(self).wf(),
            old(self).spec_writer().spec_data().len() + 5 + 4 * iter@.len() <= usize::MAX,
            old(self).spec_writer().spec_data().len() + 5 + 4 * iter@.len() <= u64::MAX,
        ensures
            final(self).wf(),
            spec_append_special_items(
                old(self).spec_writer(),
                final(self).spec_writer(),
                AttributeType::String,
                iter@,
                |v: Seq<char>| encode_utf8(v),
                r,
            ),
    {
        let mut chars: Vec<char> = Vec::new();
        let mut i: usize = 0;
        let mut failed = false;
        while i < iter.len() && !failed
            invariant
                i <= iter@.len(),
                forall|j: int| 0 <= j < i ==> #[trigger] iter@[j] is Ok,
                chars@ == spec_ok_values(iter@, i as int),
                failed ==> i < iter@.len() && iter@[i as int] is Err,
            decreases iter@.len() - i + if failed {
                0int
            } else {
                1
            },
        {
            match &iter[i] {
                Ok(c) => {
                    chars.push(*c);
                    assert(chars@ =~= spec_ok_values(iter@, i + 1));
                    i = i + 1;
                },
                Err(_) => {
                    failed = true;
                },
            }
        }
        assert(spec_first_error_at(iter@, i as int));
        let bytes = encode_chars(chars.as_slice());
        if i < iter.len() {
            let message = match &iter[i] {
                Ok(_) => String::new(),
                Err(e) => e.clone(),
            };
            let r = self.append_special_truncated(AttributeType::String, bytes.as_slice(), message);
            assert forall|k: int| #[trigger] spec_first_error_at(iter@, k) implies k == i by {
                if k < i {
                    assert(iter@[k] is Ok);
                } else if k > i {
                    assert(iter@[i as int] is Ok);
                }
            }
            r
        } else {
            assert forall|k: int| #[trigger] spec_first_error_at(iter@, k) implies k == i by {
                if k < i {
                    assert(iter@[k] is Ok);
                }
            }
            self.append_special(AttributeType::String, bytes.as_slice())
        }
    }

    /// Writes a special attribute whose source failed after giving `bytes`:
    /// the bytes follow a zero length header, and the result is the source's
    /// error.
    fn append_special_truncated(&mut self, ty: AttributeType, bytes: &[u8], message: String) -> (r:
        Result<()>)
        requires
            old(self).wf(),
            old(self).spec_writer().spec_data().len() + 5 + bytes@.len() <= usize::MAX,
            old(self).spec_writer().spec_data().len() + 5 + bytes@.len() <= u64::MAX,
        ensures
            final(self).wf(),
            spec_top(old(self).spec_writer()).num_attributes == u64::MAX ==> {
                &&& r == Err::<(), Error>(Error::TooManyAttributes(u64::MAX as usize))
                &&& final(self).spec_writer() == old(self).spec_writer()
            },
            spec_top(old(self).spec_writer()).num_attributes < u64::MAX ==> {
                &&& r == Err::<(), Error>(Error::UserDefined(message))
                &&& spec_attr_appended(
                    old(self).spec_writer(),
                    final(self).spec_writer(),
                    seq![spec_type_code(ty)] + seq![0u8, 0, 0, 0] + bytes@,
                )
            },
    {
        match self.update_node_header() {
            Ok(()) => {},
            Err(e) => return Err(e),
        }
        let ghost w1 = self.spec_writer();
        self.write_type_code(ty);
        let placeholder: [u8; 4] = [0; 4];
        self.writer.append(&placeholder);
        self.writer.append(bytes);
        assert(placeholder@ =~= seq![0u8, 0, 0, 0]);
        assert(self.spec_writer().spec_data() =~= w1.spec_data() + (seq![spec_type_code(ty)] + seq![0u8, 0, 0, 0] + bytes@));
        Err(Error::UserDefined(message))
    }

    /// Writes a binary attribute from the given bytes.
    pub fn append_binary_from_iter(&mut self, iter: Vec<u8>) -> (r: Result<()>)
        requires
            old(self).wf(),
            old(self).spec_writer().spec_data().len() + 5 + iter@.len() <= usize::MAX,
            old(self).spec_writer().spec_data().len() + 5 + iter@.len() <= u64::MAX,
        ensures
            final(self).wf(),
            spec_append_special(
                old(self).spec_writer(),
                final(self).spec_writer(),
                AttributeType::Binary,
                iter@,
                r,
            ),
    {
        self.append_special(AttributeType::Binary, iter.as_slice())
    }
}

} // verus!
