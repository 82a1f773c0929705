//! Reading primitive values and low-level headers from a parser source.

use vstd::prelude::*;

use crate::codec::{
    byteorder_read_i16, byteorder_read_i32, byteorder_read_i64, byteorder_read_u16,
    byteorder_read_u32, byteorder_read_u64, spec_le_u16, spec_le_u32, spec_le_u64,
};
use crate::low::v7400::{
    spec_encoding_from_u32, spec_from_type_code, ArrayAttributeEncoding, ArrayAttributeHeader,
    AttributeType, SpecialAttributeHeader,
};
use crate::pull_parser::error::{DataError, ErrorContainer};
use crate::pull_parser::reader::{spec_consumed, Reader};
use crate::pull_parser::v7400::attribute::is_io_error;
use crate::pull_parser::{Error, ParserSource, Result};
use crate::stream::IoError;

verus! {

/// Reading `n` bytes from `old` gives `new`: the bytes were there, or all the
/// rest was consumed and the result is an end-of-file error.
pub open spec fn spec_read_step<T>(old: Reader, new: Reader, n: nat, r: Result<T>) -> bool {
    &&& new.bounded()
    &&& n <= old.spec_rest().len() ==> r is Ok && spec_consumed(old, new, n)
    &&& n > old.spec_rest().len() ==> (r matches Err(e) && is_io_error(e, IoError::UnexpectedEof))
        && spec_consumed(old, new, old.spec_rest().len())
}

/// Reads `n` bytes.
pub(crate) fn read_bytes(reader: &mut Reader, n: usize) -> (r: Result<Vec<u8>>)
    requires
        old(reader).bounded(),
    ensures
        spec_read_step(*old(reader), *final(reader), n as nat, r),
        r matches Ok(v) ==> v@ == old(reader).spec_rest().take(n as int),
{
    match reader.read_exact(n) {
        Ok(v) => Ok(v),
        Err(e) => Err(Error::new(ErrorContainer::Io(e))),
    }
}

/// Reads a `u8` value.
pub(crate) fn read_u8(reader: &mut Reader) -> (r: Result<u8>)
    requires
        old(reader).bounded(),
    ensures
        spec_read_step(*old(reader), *final(reader), 1, r),
        r matches Ok(v) ==> v == old(reader).spec_rest()[0],
{
    let b = read_bytes(reader, 1)?;
    Ok(b[0])
}

/// Reads a little-endian `u16` value.
pub(crate) fn read_u16(reader: &mut Reader) -> (r: Result<u16>)
    requires
        old(reader).bounded(),
    ensures
        spec_read_step(*old(reader), *final(reader), 2, r),
        r matches Ok(v) ==> v == spec_le_u16(old(reader).spec_rest()),
{
    let b = read_bytes(reader, 2)?;
    Ok(byteorder_read_u16(b.as_slice()))
}

/// Reads a little-endian `u32` value.
pub(crate) fn read_u32(reader: &mut Reader) -> (r: Result<u32>)
    requires
        old(reader).bounded(),
    ensures
        spec_read_step(*old(reader), *final(reader), 4, r),
        r matches Ok(v) ==> v == spec_le_u32(old(reader).spec_rest()),
{
    let b = read_bytes(reader, 4)?;
    Ok(byteorder_read_u32(b.as_slice()))
}

/// Reads a little-endian `u64` value.
pub(crate) fn read_u64(reader: &mut Reader) -> (r: Result<u64>)
    requires
        old(reader).bounded(),
    ensures
        spec_read_step(*old(reader), *final(reader), 8, r),
        r matches Ok(v) ==> v == spec_le_u64(old(reader).spec_rest()),
{
    let b = read_bytes(reader, 8)?;
    let v = byteorder_read_u64(b.as_slice());
    assert(b@.subrange(4, 8) =~= old(reader).spec_rest().subrange(4, 8));
    Ok(v)
}

/// Reads a little-endian `i16` value.
pub(crate) fn read_i16(reader: &mut Reader) -> (r: Result<i16>)
    requires
        old(reader).bounded(),
    ensures
        spec_read_step(*old(reader), *final(reader), 2, r),
        r matches Ok(v) ==> v == spec_le_u16(old(reader).spec_rest()) as i16,
{
    let b = read_bytes(reader, 2)?;
    Ok(byteorder_read_i16(b.as_slice()))
}

/// Reads a little-endian `i32` value.
pub(crate) fn read_i32(reader: &mut Reader) -> (r: Result<i32>)
    requires
        old(reader).bounded(),
    ensures
        spec_read_step(*old(reader), *final(reader), 4, r),
        r matches Ok(v) ==> v == spec_le_u32(old(reader).spec_rest()) as i32,
{
    let b = read_bytes(reader, 4)?;
    Ok(byteorder_read_i32(b.as_slice()))
}

/// Reads a little-endian `i64` value.
pub(crate) fn read_i64(reader: &mut Reader) -> (r: Result<i64>)
    requires
        old(reader).bounded(),
    ensures
        spec_read_step(*old(reader), *final(reader), 8, r),
        r matches Ok(v) ==> v == spec_le_u64(old(reader).spec_rest()) as i64,
{
    let b = read_bytes(reader, 8)?;
    let v = byteorder_read_i64(b.as_slice());
    assert(b@.subrange(4, 8) =~= old(reader).spec_rest().subrange(4, 8));
    Ok(v)
}

/// Reads an attribute type code.
///
/// An unknown code is an `InvalidAttributeTypeCode` data error.
pub(crate) fn read_attribute_type(reader: &mut Reader) -> (r: Result<AttributeType>)
    requires
        old(reader).bounded(),
    ensures
        final(reader).bounded(),
        old(reader).spec_rest().len() >= 1 ==> spec_consumed(*old(reader), *final(reader), 1),
        old(reader).spec_rest().len() >= 1 ==> match spec_from_type_code(old(reader).spec_rest()[0]) {
            Some(ty) => r == Ok::<AttributeType, Error>(ty),
            None => r matches Err(e) && e.container() == ErrorContainer::Data(
                DataError::InvalidAttributeTypeCode(old(reader).spec_rest()[0]),
            ) && e.spec_position() is None,
        },
        old(reader).spec_rest().len() < 1 ==> (r matches Err(e) && is_io_error(e, IoError::UnexpectedEof))
            && spec_consumed(*old(reader), *final(reader), old(reader).spec_rest().len()),
{
    let code = read_u8(reader)?;
    match AttributeType::from_type_code(code) {
        Some(ty) => Ok(ty),
        None => Err(Error::new(ErrorContainer::Data(DataError::InvalidAttributeTypeCode(code)))),
    }
}

/// The array attribute header the bytes start with: element count, raw
/// encoding and byte length.
pub open spec fn spec_array_header_fields(b: Seq<u8>) -> (u32, u32, u32) {
    (spec_le_u32(b), spec_le_u32(b.skip(4)), spec_le_u32(b.skip(8)))
}

/// Reads an array attribute header.
///
/// An unknown encoding is an `InvalidArrayAttributeEncoding` data error.
pub(crate) fn read_array_header(reader: &mut Reader) -> (r: Result<ArrayAttributeHeader>)
    requires
        old(reader).bounded(),
    ensures
        final(reader).bounded(),
        old(reader).spec_rest().len() >= 12 ==> {
            let (count, enc, len) = spec_array_header_fields(old(reader).spec_rest());
            &&& spec_consumed(*old(reader), *final(reader), 12)
            &&& match spec_encoding_from_u32(enc) {
                Some(e) => r == Ok::<ArrayAttributeHeader, Error>(
                    ArrayAttributeHeader { elements_count: count, encoding: e, bytelen: len },
                ),
                None => r matches Err(err) && err.container() == ErrorContainer::Data(
                    DataError::InvalidArrayAttributeEncoding(enc),
                ) && err.spec_position() is None,
            }
        },
        old(reader).spec_rest().len() < 12 ==> (r matches Err(e) && is_io_error(e, IoError::UnexpectedEof)),
        old(reader).spec_rest().len() < 12 ==> spec_consumed(*old(reader), *final(reader), old(reader).spec_rest().len()),
{
    let ghost r0 = *reader;
    let elements_count = read_u32(reader)?;
    let ghost r1 = *reader;
    let encoding_raw = match read_u32(reader) {
        Ok(v) => v,
        Err(e) => {
            assert(r0.spec_rest().skip(r0.spec_rest().len() as int) =~= Seq::<u8>::empty());
            assert(r1.spec_rest().skip(r1.spec_rest().len() as int) =~= Seq::<u8>::empty());
            return Err(e);
        },
    };
    let ghost r2 = *reader;
    let bytelen = match read_u32(reader) {
        Ok(v) => v,
        Err(e) => {
            assert(r0.spec_rest().skip(r0.spec_rest().len() as int) =~= Seq::<u8>::empty());
            assert(r2.spec_rest().skip(r2.spec_rest().len() as int) =~= Seq::<u8>::empty());
            return Err(e);
        },
    };
    assert(r1.spec_rest() =~= r0.spec_rest().skip(4));
    assert(r2.spec_rest() =~= r0.spec_rest().skip(8));
    assert(reader.spec_rest() =~= r0.spec_rest().skip(12));
    match ArrayAttributeEncoding::from_u32(encoding_raw) {
        Some(encoding) => Ok(ArrayAttributeHeader { elements_count, encoding, bytelen }),
        None => Err(
            Error::new(ErrorContainer::Data(DataError::InvalidArrayAttributeEncoding(encoding_raw))),
        ),
    }
}

/// Reads a special (binary or string) attribute header.
pub(crate) fn read_special_header(reader: &mut Reader) -> (r: Result<SpecialAttributeHeader>)
    requires
        old(reader).bounded(),
    ensures
        spec_read_step(*old(reader), *final(reader), 4, r),
        r matches Ok(h) ==> h.bytelen == spec_le_u32(old(reader).spec_rest()),
{
    let bytelen = read_u32(reader)?;
    Ok(SpecialAttributeHeader { bytelen })
}

} // verus!
