//! Array attributes things.

use vstd::prelude::*;

use crate::codec::{spec_u32_le, spec_u64_le};
use crate::pull_parser::v7400::attribute::zlib_decoding;
use crate::stream::IoError;
use crate::writer::v7400::binary::attributes::spec_bool_attr_byte;

verus! {

/// The stored elements of a boolean array.
pub open spec fn spec_bool_elements(values: Seq<bool>) -> Seq<u8>
    decreases values.len(),
{
    if values.len() == 0 {
        Seq::empty()
    } else {
        spec_bool_elements(values.drop_last()) + seq![spec_bool_attr_byte(values.last())]
    }
}

/// The stored elements of an `i32` array (little-endian).
pub open spec fn spec_i32_elements(values: Seq<i32>) -> Seq<u8>
    decreases values.len(),
{
    if values.len() == 0 {
        Seq::empty()
    } else {
        spec_i32_elements(values.drop_last()) + spec_u32_le(values.last() as u32)
    }
}

/// The stored elements of an `i64` array (little-endian).
pub open spec fn spec_i64_elements(values: Seq<i64>) -> Seq<u8>
    decreases values.len(),
{
    if values.len() == 0 {
        Seq::empty()
    } else {
        spec_i64_elements(values.drop_last()) + spec_u64_le(values.last() as u64)
    }
}

/// The stored elements of an `f32` array given as bit patterns
/// (little-endian).
pub open spec fn spec_f32_elements(values: Seq<u32>) -> Seq<u8>
    decreases values.len(),
{
    if values.len() == 0 {
        Seq::empty()
    } else {
        spec_f32_elements(values.drop_last()) + spec_u32_le(values.last())
    }
}

/// The stored elements of an `f64` array given as bit patterns
/// (little-endian).
pub open spec fn spec_f64_elements(values: Seq<u64>) -> Seq<u8>
    decreases values.len(),
{
    if values.len() == 0 {
        Seq::empty()
    } else {
        spec_f64_elements(values.drop_last()) + spec_u64_le(values.last())
    }
}

/// What zlib compression of `data` with `libflate`'s encoder (default
/// options) gives.
pub uninterp spec fn zlib_encoding(data: Seq<u8>) -> Seq<u8>;

/// Compresses `data` with `libflate`'s `zlib::Encoder` writing into a vector:
/// `Encoder::new` writes the zlib header, `write_all` the compressed data,
/// and `finish` the rest of the stream (an error on the way is returned as
/// its message; writing into a vector never fails, so none comes). The
/// contract names the compressed stream, and states that it decodes back to
/// `data` without error, zlib being lossless.
#[verifier::external_body]
pub(crate) fn libflate_zlib_encode(data: &[u8]) -> (r: std::result::Result<Vec<u8>, String>)
    ensures
        r is Ok,
        r matches Ok(v) ==> v@ == zlib_encoding(data@) && zlib_decoding(v@) == Some((data@, None::<IoError>)),
{
    let mut encoder = match libflate::zlib::Encoder::new(Vec::new()) {
        Ok(e) => e,
        Err(e) => return Err(format!("{}", e)),
    };
    if let Err(e) = std::io::Write::write_all(&mut encoder, data) {
        return Err(format!("{}", e));
    }
    encoder.finish().into_result().map_err(|e| format!("{}", e))
}

} // verus!

verus! {

/// The stored elements of a boolean array.
pub(crate) fn bool_elements(values: &[bool]) -> (v: Vec<u8>)
    ensures
        v@ == spec_bool_elements(values@),
        v@.len() == 1 * values@.len(),
{
    let mut v: Vec<u8> = Vec::new();
    let mut i: usize = 0;
    while i < values.len()
        invariant
            i <= values@.len(),
            v@ == spec_bool_elements(values@.take(i as int)),
            v@.len() == 1 * i,
        decreases values@.len() - i,
    {
        let b: u8 = if values[i] {
            89
        } else {
            84
        };
        v.push(b);
        assert(values@.take(i + 1).drop_last() =~= values@.take(i as int));
        i = i + 1;
    }
    assert(values@.take(i as int) =~= values@);
    v
}

/// The stored elements of an `i32` array.
pub(crate) fn i32_elements(values: &[i32]) -> (v: Vec<u8>)
    ensures
        v@ == spec_i32_elements(values@),
        v@.len() == 4 * values@.len(),
{
    let mut v: Vec<u8> = Vec::new();
    let mut i: usize = 0;
    while i < values.len()
        invariant
            i <= values@.len(),
            v@ == spec_i32_elements(values@.take(i as int)),
            v@.len() == 4 * i,
        decreases values@.len() - i,
    {
        let mut b = crate::codec::u32_to_le_bytes(values[i] as u32);
        v.append(&mut b);
        assert(values@.take(i + 1).drop_last() =~= values@.take(i as int));
        i = i + 1;
    }
    assert(values@.take(i as int) =~= values@);
    v
}

/// The stored elements of an `i64` array.
pub(crate) fn i64_elements(values: &[i64]) -> (v: Vec<u8>)
    ensures
        v@ == spec_i64_elements(values@),
        v@.len() == 8 * values@.len(),
{
    let mut v: Vec<u8> = Vec::new();
    let mut i: usize = 0;
    while i < values.len()
        invariant
            i <= values@.len(),
            v@ == spec_i64_elements(values@.take(i as int)),
            v@.len() == 8 * i,
        decreases values@.len() - i,
    {
        let mut b = crate::codec::u64_to_le_bytes(values[i] as u64);
        v.append(&mut b);
        assert(values@.take(i + 1).drop_last() =~= values@.take(i as int));
        i = i + 1;
    }
    assert(values@.take(i as int) =~= values@);
    v
}

/// The stored elements of an `f32` array given as bit patterns.
pub(crate) fn f32_elements(values: &[u32]) -> (v: Vec<u8>)
    ensures
        v@ == spec_f32_elements(values@),
        v@.len() == 4 * values@.len(),
{
    let mut v: Vec<u8> = Vec::new();
    let mut i: usize = 0;
    while i < values.len()
        invariant
            i <= values@.len(),
            v@ == spec_f32_elements(values@.take(i as int)),
            v@.len() == 4 * i,
        decreases values@.len() - i,
    {
        let mut b = crate::codec::u32_to_le_bytes(values[i]);
        v.append(&mut b);
        assert(values@.take(i + 1).drop_last() =~= values@.take(i as int));
        i = i + 1;
    }
    assert(values@.take(i as int) =~= values@);
    v
}

/// The stored elements of an `f64` array given as bit patterns.
pub(crate) fn f64_elements(values: &[u64]) -> (v: Vec<u8>)
    ensures
        v@ == spec_f64_elements(values@),
        v@.len() == 8 * values@.len(),
{
    let mut v: Vec<u8> = Vec::new();
    let mut i: usize = 0;
    while i < values.len()
        invariant
            i <= values@.len(),
            v@ == spec_f64_elements(values@.take(i as int)),
            v@.len() == 8 * i,
        decreases values@.len() - i,
    {
        let mut b = crate::codec::u64_to_le_bytes(values[i]);
        v.append(&mut b);
        assert(values@.take(i + 1).drop_last() =~= values@.take(i as int));
        i = i + 1;
    }
    assert(values@.take(i as int) =~= values@);
    v
}

} // verus!
