//! Attributes written by the writer read back as written.
//!
//! Each law takes the bytes the writer appends for an attribute (as its
//! `append_*` contracts state them), followed by any other data, and states
//! what loading the attribute there gives (as `spec_loads_attribute`
//! states it).

use vstd::prelude::*;

use crate::codec::{
    lemma_le_u16_prefix, lemma_le_u32_prefix, lemma_le_u64_prefix, lemma_u16_le_roundtrip,
    lemma_u32_le_roundtrip, lemma_u64_le_roundtrip, spec_le_u16, spec_le_u32, spec_le_u64,
    spec_u16_le, spec_u32_le, spec_u64_le,
};
use crate::low::v7400::{lemma_type_code_roundtrip, spec_type_code, AttributeType};
use crate::pull_parser::v7400::attribute::{spec_loads_attribute, LoadAttribute};
use crate::pull_parser::Result;
use crate::low::v7400::{spec_from_type_code, ArrayAttributeEncoding};
use crate::low::{spec_load_header, spec_magic, HeaderError, HEADER_LEN, MAGIC_LEN};
use crate::pull_parser::v7400::{
    spec_is_end_marker, spec_large_header, spec_next_event, spec_node_header, spec_node_header_len,
    spec_marker_required, spec_skip_len, EventKind, Parser,
};
use crate::pull_parser::ParserSource;
use crate::writer::v7400::binary::spec_zeros;
use crate::writer::v7400::binary::{spec_bool_elements, spec_node_header_bytes};
use crate::pull_parser::v7400::attribute::{
    spec_array_outcome, spec_bool_array_outcome, spec_bools_of, spec_decoded_stream,
    spec_has_incorrect_bool, spec_i32_values, spec_i64_values, spec_is_correct_bool, spec_payload,
    spec_u32_values, spec_u64_values, ArrayAttributeValues, BooleanArrayAttributeValues,
};
use crate::pull_parser::v7400::spec_array_header_fields;
use crate::stream::IoError;
use crate::low::v7400::{
    spec_expected_padding_len, spec_footer_well_formed, spec_unknown1_plausible,
    spec_unknown3_expected,
};
use crate::low::FbxVersion;
use crate::pull_parser::error::Warning;
use crate::pull_parser::v7400::spec_footer_warnings;
use crate::writer::v7400::binary::{
    spec_default_unknown1, spec_footer_bytes, FbxFooter as WrittenFooter, FbxFooterPaddingLength,
};
use crate::writer::v7400::binary::{
    spec_array_attr_bytes, spec_bool_attr_byte, spec_f32_elements, spec_f64_elements,
    spec_i32_elements, spec_i64_elements, spec_special_attr_bytes,
};

verus! {

/// A single boolean attribute as the writer stores it reads back as that
/// boolean, with no warning.
pub proof fn law_bool_attribute_roundtrip<V: LoadAttribute>(
    loader: V,
    v: bool,
    rest: Seq<u8>,
    critical: bool,
    r: Result<V::Output>,
    n: nat,
    warned: bool,
    next: nat,
)
    ensures
        spec_loads_attribute(
            loader,
            seq![spec_type_code(AttributeType::Bool), spec_bool_attr_byte(v)] + rest,
            critical,
            r,
            n,
            warned,
            next,
        ) <==> (n == 2 && next == 2 && !warned && loader.loads_bool(v, r)),
{
    let b = seq![spec_type_code(AttributeType::Bool), spec_bool_attr_byte(v)] + rest;
    lemma_type_code_roundtrip(AttributeType::Bool, b[0]);
    assert(b.skip(1) =~= seq![spec_bool_attr_byte(v)] + rest);
}

/// A single an `i16` attribute as the writer stores it reads back as that
/// value.
pub proof fn law_i16_attribute_roundtrip<V: LoadAttribute>(
    loader: V,
    v: i16,
    rest: Seq<u8>,
    critical: bool,
    r: Result<V::Output>,
    n: nat,
    warned: bool,
    next: nat,
)
    ensures
        spec_loads_attribute(
            loader,
            seq![spec_type_code(AttributeType::I16)] + spec_u16_le(v as u16) + rest,
            critical,
            r,
            n,
            warned,
            next,
        ) <==> (n == 1 + 2 && next == 1 + 2 && !warned && loader.loads_i16(v, r)),
{
    let b = seq![spec_type_code(AttributeType::I16)] + spec_u16_le(v as u16) + rest;
    lemma_type_code_roundtrip(AttributeType::I16, b[0]);
    lemma_u16_le_roundtrip(v as u16);
    lemma_le_u16_prefix(spec_u16_le(v as u16), rest);
    assert((v as u16) as i16 == v) by (bit_vector);
    assert(b.skip(1) =~= spec_u16_le(v as u16) + rest);
}

/// A single an `i32` attribute as the writer stores it reads back as that
/// value.
pub proof fn law_i32_attribute_roundtrip<V: LoadAttribute>(
    loader: V,
    v: i32,
    rest: Seq<u8>,
    critical: bool,
    r: Result<V::Output>,
    n: nat,
    warned: bool,
    next: nat,
)
    ensures
        spec_loads_attribute(
            loader,
            seq![spec_type_code(AttributeType::I32)] + spec_u32_le(v as u32) + rest,
            critical,
            r,
            n,
            warned,
            next,
        ) <==> (n == 1 + 4 && next == 1 + 4 && !warned && loader.loads_i32(v, r)),
{
    let b = seq![spec_type_code(AttributeType::I32)] + spec_u32_le(v as u32) + rest;
    lemma_type_code_roundtrip(AttributeType::I32, b[0]);
    lemma_u32_le_roundtrip(v as u32);
    lemma_le_u32_prefix(spec_u32_le(v as u32), rest);
    assert((v as u32) as i32 == v) by (bit_vector);
    assert(b.skip(1) =~= spec_u32_le(v as u32) + rest);
}

/// A single an `i64` attribute as the writer stores it reads back as that
/// value.
pub proof fn law_i64_attribute_roundtrip<V: LoadAttribute>(
    loader: V,
    v: i64,
    rest: Seq<u8>,
    critical: bool,
    r: Result<V::Output>,
    n: nat,
    warned: bool,
    next: nat,
)
    ensures
        spec_loads_attribute(
            loader,
            seq![spec_type_code(AttributeType::I64)] + spec_u64_le(v as u64) + rest,
            critical,
            r,
            n,
            warned,
            next,
        ) <==> (n == 1 + 8 && next == 1 + 8 && !warned && loader.loads_i64(v, r)),
{
    let b = seq![spec_type_code(AttributeType::I64)] + spec_u64_le(v as u64) + rest;
    lemma_type_code_roundtrip(AttributeType::I64, b[0]);
    lemma_u64_le_roundtrip(v as u64);
    lemma_le_u64_prefix(spec_u64_le(v as u64), rest);
    assert((v as u64) as i64 == v) by (bit_vector);
    assert(b.skip(1) =~= spec_u64_le(v as u64) + rest);
}

/// A single an `f32` (bit pattern) attribute as the writer stores it reads back as that
/// value.
pub proof fn law_f32_attribute_roundtrip<V: LoadAttribute>(
    loader: V,
    v: u32,
    rest: Seq<u8>,
    critical: bool,
    r: Result<V::Output>,
    n: nat,
    warned: bool,
    next: nat,
)
    ensures
        spec_loads_attribute(
            loader,
            seq![spec_type_code(AttributeType::F32)] + spec_u32_le(v) + rest,
            critical,
            r,
            n,
            warned,
            next,
        ) <==> (n == 1 + 4 && next == 1 + 4 && !warned && loader.loads_f32(v, r)),
{
    let b = seq![spec_type_code(AttributeType::F32)] + spec_u32_le(v) + rest;
    lemma_type_code_roundtrip(AttributeType::F32, b[0]);
    lemma_u32_le_roundtrip(v);
    lemma_le_u32_prefix(spec_u32_le(v), rest);
    assert(b.skip(1) =~= spec_u32_le(v) + rest);
}

/// A single an `f64` (bit pattern) attribute as the writer stores it reads back as that
/// value.
pub proof fn law_f64_attribute_roundtrip<V: LoadAttribute>(
    loader: V,
    v: u64,
    rest: Seq<u8>,
    critical: bool,
    r: Result<V::Output>,
    n: nat,
    warned: bool,
    next: nat,
)
    ensures
        spec_loads_attribute(
            loader,
            seq![spec_type_code(AttributeType::F64)] + spec_u64_le(v) + rest,
            critical,
            r,
            n,
            warned,
            next,
        ) <==> (n == 1 + 8 && next == 1 + 8 && !warned && loader.loads_f64(v, r)),
{
    let b = seq![spec_type_code(AttributeType::F64)] + spec_u64_le(v) + rest;
    lemma_type_code_roundtrip(AttributeType::F64, b[0]);
    lemma_u64_le_roundtrip(v);
    lemma_le_u64_prefix(spec_u64_le(v), rest);
    assert(b.skip(1) =~= spec_u64_le(v) + rest);
}

/// A binary attribute as the writer stores it reads back as the bytes
/// written.
pub proof fn law_binary_attribute_roundtrip<V: LoadAttribute>(
    loader: V,
    bytes: Seq<u8>,
    rest: Seq<u8>,
    critical: bool,
    r: Result<V::Output>,
    n: nat,
    warned: bool,
    next: nat,
)
    requires
        bytes.len() <= u32::MAX,
    ensures
        spec_loads_attribute(
            loader,
            spec_special_attr_bytes(AttributeType::Binary, bytes) + rest,
            critical,
            r,
            n,
            warned,
            next,
        ) <==> (n == 5 + bytes.len() && next == 5 + bytes.len() && !warned && loader.loads_binary(
            bytes,
            r,
        )),
{
    let b = spec_special_attr_bytes(AttributeType::Binary, bytes) + rest;
    lemma_type_code_roundtrip(AttributeType::Binary, b[0]);
    let len = bytes.len() as u32;
    lemma_u32_le_roundtrip(len);
    lemma_le_u32_prefix(spec_u32_le(len), bytes + rest);
    assert(b.skip(1) =~= spec_u32_le(len) + (bytes + rest));
    assert(b.skip(1).skip(4) =~= bytes + rest);
    assert((bytes + rest).take(bytes.len() as int) =~= bytes);
}

/// A string attribute as the writer stores it reads back as the bytes
/// written.
pub proof fn law_string_attribute_roundtrip<V: LoadAttribute>(
    loader: V,
    bytes: Seq<u8>,
    rest: Seq<u8>,
    critical: bool,
    r: Result<V::Output>,
    n: nat,
    warned: bool,
    next: nat,
)
    requires
        bytes.len() <= u32::MAX,
    ensures
        spec_loads_attribute(
            loader,
            spec_special_attr_bytes(AttributeType::String, bytes) + rest,
            critical,
            r,
            n,
            warned,
            next,
        ) <==> (n == 5 + bytes.len() && next == 5 + bytes.len() && !warned && loader.loads_string(
            bytes,
            r,
        )),
{
    let b = spec_special_attr_bytes(AttributeType::String, bytes) + rest;
    lemma_type_code_roundtrip(AttributeType::String, b[0]);
    let len = bytes.len() as u32;
    lemma_u32_le_roundtrip(len);
    lemma_le_u32_prefix(spec_u32_le(len), bytes + rest);
    assert(b.skip(1) =~= spec_u32_le(len) + (bytes + rest));
    assert(b.skip(1).skip(4) =~= bytes + rest);
    assert((bytes + rest).take(bytes.len() as int) =~= bytes);
}

} // verus!

verus! {

/// The stored elements of `i32` values start with the first value's.
pub proof fn lemma_i32_elements_first(vs: Seq<i32>)
    requires
        vs.len() > 0,
    ensures
        spec_i32_elements(vs) == spec_u32_le(vs[0] as u32) + spec_i32_elements(vs.drop_first()),
    decreases vs.len(),
{
    if vs.len() == 1 {
        assert(vs.drop_last() =~= Seq::<i32>::empty());
        assert(vs.drop_first() =~= Seq::<i32>::empty());
        assert(spec_i32_elements(vs) =~= spec_u32_le(vs[0] as u32) + spec_i32_elements(vs.drop_first()));
    } else {
        lemma_i32_elements_first(vs.drop_last());
        assert(vs.drop_last().drop_first() =~= vs.drop_first().drop_last());
        assert(vs.drop_first().last() == vs.last());
        assert(spec_i32_elements(vs) =~= spec_u32_le(vs[0] as u32) + spec_i32_elements(vs.drop_first()));
    }
}

/// The stored elements of `i32` values take 4 bytes each.
pub proof fn lemma_i32_elements_len(vs: Seq<i32>)
    ensures
        spec_i32_elements(vs).len() == 4 * vs.len(),
    decreases vs.len(),
{
    if vs.len() > 0 {
        lemma_i32_elements_len(vs.drop_last());
        lemma_u32_le_roundtrip(vs.last() as u32);
    }
}

/// The `i32` elements the writer stores decode back to the values written.
pub proof fn law_i32_elements_decode(vs: Seq<i32>)
    ensures
        spec_i32_values(spec_i32_elements(vs), vs.len()) == vs,
    decreases vs.len(),
{
    if vs.len() > 0 {
        lemma_i32_elements_first(vs);
        let x = vs[0];
        let b = spec_i32_elements(vs);
        lemma_u32_le_roundtrip(x as u32);
        lemma_le_u32_prefix(spec_u32_le(x as u32), spec_i32_elements(vs.drop_first()));
        assert((x as u32) as i32 == x) by (bit_vector);
        assert(b.skip(4) =~= spec_i32_elements(vs.drop_first()));
        law_i32_elements_decode(vs.drop_first());
        lemma_i32_elements_len(vs);
        assert(spec_i32_values(b, vs.len()) =~= seq![spec_le_u32(b) as i32] + spec_i32_values(b.skip(4), (vs.len() - 1) as nat));
        assert(vs =~= seq![vs[0]] + vs.drop_first());
    } else {
        assert(vs =~= Seq::<i32>::empty());
    }
}

/// A fresh iterator over the `i32` elements the writer stores gives back
/// every value written.
pub proof fn law_i32_array_values(it: ArrayAttributeValues<i32>, vs: Seq<i32>, end_error: IoError)
    requires
        vs.len() <= u32::MAX,
        it.starts(spec_i32_elements(vs), end_error, vs.len() as u32),
    ensures
        it.values() == vs,
        it.complete(),
{
    law_i32_elements_decode(vs);
    lemma_i32_elements_len(vs);
}

/// `i32` array attribute as the writer stores it without compression:
/// loading it hands the loader a fresh iterator over the elements written.
pub proof fn law_i32_array_attribute_roundtrip<V: LoadAttribute>(
    loader: V,
    vs: Seq<i32>,
    rest: Seq<u8>,
    critical: bool,
    r: Result<V::Output>,
    n: nat,
    warned: bool,
    next: nat,
)
    requires
        4 * vs.len() <= u32::MAX,
    ensures
        spec_loads_attribute(
            loader,
            spec_array_attr_bytes(
                AttributeType::ArrI32,
                vs.len() as u32,
                ArrayAttributeEncoding::Direct,
                spec_i32_elements(vs),
            ) + rest,
            critical,
            r,
            n,
            warned,
            next,
        ) <==> {
            &&& n == 13 + 4 * vs.len()
            &&& next == 13 + 4 * vs.len()
            &&& !warned
            &&& exists|before: ArrayAttributeValues<i32>, after: ArrayAttributeValues<i32>, lr: Result<V::Output>|
                {
                    &&& before.starts(spec_i32_elements(vs), IoError::UnexpectedEof, vs.len() as u32)
                    &&& loader.loads_seq_i32(before, after, lr)
                    &&& spec_array_outcome(lr, after.spec_has_error(), r)
                }
        },
{
    let elems = spec_i32_elements(vs);
    lemma_i32_elements_len(vs);
    lemma_array_frame(AttributeType::ArrI32, vs.len() as u32, elems, rest);
}

/// The stored elements of `i64` values start with the first value's.
pub proof fn lemma_i64_elements_first(vs: Seq<i64>)
    requires
        vs.len() > 0,
    ensures
        spec_i64_elements(vs) == spec_u64_le(vs[0] as u64) + spec_i64_elements(vs.drop_first()),
    decreases vs.len(),
{
    if vs.len() == 1 {
        assert(vs.drop_last() =~= Seq::<i64>::empty());
        assert(vs.drop_first() =~= Seq::<i64>::empty());
        assert(spec_i64_elements(vs) =~= spec_u64_le(vs[0] as u64) + spec_i64_elements(vs.drop_first()));
    } else {
        lemma_i64_elements_first(vs.drop_last());
        assert(vs.drop_last().drop_first() =~= vs.drop_first().drop_last());
        assert(vs.drop_first().last() == vs.last());
        assert(spec_i64_elements(vs) =~= spec_u64_le(vs[0] as u64) + spec_i64_elements(vs.drop_first()));
    }
}

/// The stored elements of `i64` values take 8 bytes each.
pub proof fn lemma_i64_elements_len(vs: Seq<i64>)
    ensures
        spec_i64_elements(vs).len() == 8 * vs.len(),
    decreases vs.len(),
{
    if vs.len() > 0 {
        lemma_i64_elements_len(vs.drop_last());
        lemma_u64_le_roundtrip(vs.last() as u64);
    }
}

/// The `i64` elements the writer stores decode back to the values written.
pub proof fn law_i64_elements_decode(vs: Seq<i64>)
    ensures
        spec_i64_values(spec_i64_elements(vs), vs.len()) == vs,
    decreases vs.len(),
{
    if vs.len() > 0 {
        lemma_i64_elements_first(vs);
        let x = vs[0];
        let b = spec_i64_elements(vs);
        lemma_u64_le_roundtrip(x as u64);
        lemma_le_u64_prefix(spec_u64_le(x as u64), spec_i64_elements(vs.drop_first()));
        assert((x as u64) as i64 == x) by (bit_vector);
        assert(b.skip(8) =~= spec_i64_elements(vs.drop_first()));
        law_i64_elements_decode(vs.drop_first());
        lemma_i64_elements_len(vs);
        assert(spec_i64_values(b, vs.len()) =~= seq![spec_le_u64(b) as i64] + spec_i64_values(b.skip(8), (vs.len() - 1) as nat));
        assert(vs =~= seq![vs[0]] + vs.drop_first());
    } else {
        assert(vs =~= Seq::<i64>::empty());
    }
}

/// A fresh iterator over the `i64` elements the writer stores gives back
/// every value written.
pub proof fn law_i64_array_values(it: ArrayAttributeValues<i64>, vs: Seq<i64>, end_error: IoError)
    requires
        vs.len() <= u32::MAX,
        it.starts(spec_i64_elements(vs), end_error, vs.len() as u32),
    ensures
        it.values() == vs,
        it.complete(),
{
    law_i64_elements_decode(vs);
    lemma_i64_elements_len(vs);
}

/// `i64` array attribute as the writer stores it without compression:
/// loading it hands the loader a fresh iterator over the elements written.
pub proof fn law_i64_array_attribute_roundtrip<V: LoadAttribute>(
    loader: V,
    vs: Seq<i64>,
    rest: Seq<u8>,
    critical: bool,
    r: Result<V::Output>,
    n: nat,
    warned: bool,
    next: nat,
)
    requires
        8 * vs.len() <= u32::MAX,
    ensures
        spec_loads_attribute(
            loader,
            spec_array_attr_bytes(
                AttributeType::ArrI64,
                vs.len() as u32,
                ArrayAttributeEncoding::Direct,
                spec_i64_elements(vs),
            ) + rest,
            critical,
            r,
            n,
            warned,
            next,
        ) <==> {
            &&& n == 13 + 8 * vs.len()
            &&& next == 13 + 8 * vs.len()
            &&& !warned
            &&& exists|before: ArrayAttributeValues<i64>, after: ArrayAttributeValues<i64>, lr: Result<V::Output>|
                {
                    &&& before.starts(spec_i64_elements(vs), IoError::UnexpectedEof, vs.len() as u32)
                    &&& loader.loads_seq_i64(before, after, lr)
                    &&& spec_array_outcome(lr, after.spec_has_error(), r)
                }
        },
{
    let elems = spec_i64_elements(vs);
    lemma_i64_elements_len(vs);
    lemma_array_frame(AttributeType::ArrI64, vs.len() as u32, elems, rest);
}

/// The stored elements of `f32` (bit pattern) values start with the first value's.
pub proof fn lemma_f32_elements_first(vs: Seq<u32>)
    requires
        vs.len() > 0,
    ensures
        spec_f32_elements(vs) == spec_u32_le(vs[0]) + spec_f32_elements(vs.drop_first()),
    decreases vs.len(),
{
    if vs.len() == 1 {
        assert(vs.drop_last() =~= Seq::<u32>::empty());
        assert(vs.drop_first() =~= Seq::<u32>::empty());
        assert(spec_f32_elements(vs) =~= spec_u32_le(vs[0]) + spec_f32_elements(vs.drop_first()));
    } else {
        lemma_f32_elements_first(vs.drop_last());
        assert(vs.drop_last().drop_first() =~= vs.drop_first().drop_last());
        assert(vs.drop_first().last() == vs.last());
        assert(spec_f32_elements(vs) =~= spec_u32_le(vs[0]) + spec_f32_elements(vs.drop_first()));
    }
}

/// The stored elements of `f32` (bit pattern) values take 4 bytes each.
pub proof fn lemma_f32_elements_len(vs: Seq<u32>)
    ensures
        spec_f32_elements(vs).len() == 4 * vs.len(),
    decreases vs.len(),
{
    if vs.len() > 0 {
        lemma_f32_elements_len(vs.drop_last());
        lemma_u32_le_roundtrip(vs.last());
    }
}

/// The `f32` (bit pattern) elements the writer stores decode back to the values written.
pub proof fn law_f32_elements_decode(vs: Seq<u32>)
    ensures
        spec_u32_values(spec_f32_elements(vs), vs.len()) == vs,
    decreases vs.len(),
{
    if vs.len() > 0 {
        lemma_f32_elements_first(vs);
        let x = vs[0];
        let b = spec_f32_elements(vs);
        lemma_u32_le_roundtrip(x);
        lemma_le_u32_prefix(spec_u32_le(x), spec_f32_elements(vs.drop_first()));
        assert(b.skip(4) =~= spec_f32_elements(vs.drop_first()));
        law_f32_elements_decode(vs.drop_first());
        lemma_f32_elements_len(vs);
        assert(spec_u32_values(b, vs.len()) =~= seq![spec_le_u32(b)] + spec_u32_values(b.skip(4), (vs.len() - 1) as nat));
        assert(vs =~= seq![vs[0]] + vs.drop_first());
    } else {
        assert(vs =~= Seq::<u32>::empty());
    }
}

/// A fresh iterator over the `f32` (bit pattern) elements the writer stores gives back
/// every value written.
pub proof fn law_f32_array_values(it: ArrayAttributeValues<u32>, vs: Seq<u32>, end_error: IoError)
    requires
        vs.len() <= u32::MAX,
        it.starts(spec_f32_elements(vs), end_error, vs.len() as u32),
    ensures
        it.values() == vs,
        it.complete(),
{
    law_f32_elements_decode(vs);
    lemma_f32_elements_len(vs);
}

/// `f32` (bit pattern) array attribute as the writer stores it without compression:
/// loading it hands the loader a fresh iterator over the elements written.
pub proof fn law_f32_array_attribute_roundtrip<V: LoadAttribute>(
    loader: V,
    vs: Seq<u32>,
    rest: Seq<u8>,
    critical: bool,
    r: Result<V::Output>,
    n: nat,
    warned: bool,
    next: nat,
)
    requires
        4 * vs.len() <= u32::MAX,
    ensures
        spec_loads_attribute(
            loader,
            spec_array_attr_bytes(
                AttributeType::ArrF32,
                vs.len() as u32,
                ArrayAttributeEncoding::Direct,
                spec_f32_elements(vs),
            ) + rest,
            critical,
            r,
            n,
            warned,
            next,
        ) <==> {
            &&& n == 13 + 4 * vs.len()
            &&& next == 13 + 4 * vs.len()
            &&& !warned
            &&& exists|before: ArrayAttributeValues<u32>, after: ArrayAttributeValues<u32>, lr: Result<V::Output>|
                {
                    &&& before.starts(spec_f32_elements(vs), IoError::UnexpectedEof, vs.len() as u32)
                    &&& loader.loads_seq_f32(before, after, lr)
                    &&& spec_array_outcome(lr, after.spec_has_error(), r)
                }
        },
{
    let elems = spec_f32_elements(vs);
    lemma_f32_elements_len(vs);
    lemma_array_frame(AttributeType::ArrF32, vs.len() as u32, elems, rest);
}

/// The stored elements of `f64` (bit pattern) values start with the first value's.
pub proof fn lemma_f64_elements_first(vs: Seq<u64>)
    requires
        vs.len() > 0,
    ensures
        spec_f64_elements(vs) == spec_u64_le(vs[0]) + spec_f64_elements(vs.drop_first()),
    decreases vs.len(),
{
    if vs.len() == 1 {
        assert(vs.drop_last() =~= Seq::<u64>::empty());
        assert(vs.drop_first() =~= Seq::<u64>::empty());
        assert(spec_f64_elements(vs) =~= spec_u64_le(vs[0]) + spec_f64_elements(vs.drop_first()));
    } else {
        lemma_f64_elements_first(vs.drop_last());
        assert(vs.drop_last().drop_first() =~= vs.drop_first().drop_last());
        assert(vs.drop_first().last() == vs.last());
        assert(spec_f64_elements(vs) =~= spec_u64_le(vs[0]) + spec_f64_elements(vs.drop_first()));
    }
}

/// The stored elements of `f64` (bit pattern) values take 8 bytes each.
pub proof fn lemma_f64_elements_len(vs: Seq<u64>)
    ensures
        spec_f64_elements(vs).len() == 8 * vs.len(),
    decreases vs.len(),
{
    if vs.len() > 0 {
        lemma_f64_elements_len(vs.drop_last());
        lemma_u64_le_roundtrip(vs.last());
    }
}

/// The `f64` (bit pattern) elements the writer stores decode back to the values written.
pub proof fn law_f64_elements_decode(vs: Seq<u64>)
    ensures
        spec_u64_values(spec_f64_elements(vs), vs.len()) == vs,
    decreases vs.len(),
{
    if vs.len() > 0 {
        lemma_f64_elements_first(vs);
        let x = vs[0];
        let b = spec_f64_elements(vs);
        lemma_u64_le_roundtrip(x);
        lemma_le_u64_prefix(spec_u64_le(x), spec_f64_elements(vs.drop_first()));
        assert(b.skip(8) =~= spec_f64_elements(vs.drop_first()));
        law_f64_elements_decode(vs.drop_first());
        lemma_f64_elements_len(vs);
        assert(spec_u64_values(b, vs.len()) =~= seq![spec_le_u64(b)] + spec_u64_values(b.skip(8), (vs.len() - 1) as nat));
        assert(vs =~= seq![vs[0]] + vs.drop_first());
    } else {
        assert(vs =~= Seq::<u64>::empty());
    }
}

/// A fresh iterator over the `f64` (bit pattern) elements the writer stores gives back
/// every value written.
pub proof fn law_f64_array_values(it: ArrayAttributeValues<u64>, vs: Seq<u64>, end_error: IoError)
    requires
        vs.len() <= u32::MAX,
        it.starts(spec_f64_elements(vs), end_error, vs.len() as u32),
    ensures
        it.values() == vs,
        it.complete(),
{
    law_f64_elements_decode(vs);
    lemma_f64_elements_len(vs);
}

/// `f64` (bit pattern) array attribute as the writer stores it without compression:
/// loading it hands the loader a fresh iterator over the elements written.
pub proof fn law_f64_array_attribute_roundtrip<V: LoadAttribute>(
    loader: V,
    vs: Seq<u64>,
    rest: Seq<u8>,
    critical: bool,
    r: Result<V::Output>,
    n: nat,
    warned: bool,
    next: nat,
)
    requires
        8 * vs.len() <= u32::MAX,
    ensures
        spec_loads_attribute(
            loader,
            spec_array_attr_bytes(
                AttributeType::ArrF64,
                vs.len() as u32,
                ArrayAttributeEncoding::Direct,
                spec_f64_elements(vs),
            ) + rest,
            critical,
            r,
            n,
            warned,
            next,
        ) <==> {
            &&& n == 13 + 8 * vs.len()
            &&& next == 13 + 8 * vs.len()
            &&& !warned
            &&& exists|before: ArrayAttributeValues<u64>, after: ArrayAttributeValues<u64>, lr: Result<V::Output>|
                {
                    &&& before.starts(spec_f64_elements(vs), IoError::UnexpectedEof, vs.len() as u32)
                    &&& loader.loads_seq_f64(before, after, lr)
                    &&& spec_array_outcome(lr, after.spec_has_error(), r)
                }
        },
{
    let elems = spec_f64_elements(vs);
    lemma_f64_elements_len(vs);
    lemma_array_frame(AttributeType::ArrF64, vs.len() as u32, elems, rest);
}

/// The frame of an array attribute as the writer stores it without
/// compression: type code, then a header that reads back as written.
pub proof fn lemma_array_frame(ty: AttributeType, count: u32, elems: Seq<u8>, rest: Seq<u8>)
    requires
        elems.len() <= u32::MAX,
    ensures
        ({
            let b = spec_array_attr_bytes(ty, count, ArrayAttributeEncoding::Direct, elems) + rest;
            &&& b.len() >= 13
            &&& b[0] == spec_type_code(ty)
            &&& spec_from_type_code(b[0]) == Some(ty)
            &&& b.skip(1).len() >= 12
            &&& spec_array_header_fields(b.skip(1)) == (count, 0u32, elems.len() as u32)
            &&& spec_payload(b.skip(1).skip(12), elems.len() as u32) == elems
            &&& spec_decoded_stream(ArrayAttributeEncoding::Direct, elems) == Some(
                (elems, IoError::UnexpectedEof),
            )
        }),
{
    let b = spec_array_attr_bytes(ty, count, ArrayAttributeEncoding::Direct, elems) + rest;
    lemma_type_code_roundtrip(ty, b[0]);
    let len = elems.len() as u32;
    lemma_u32_le_roundtrip(count);
    lemma_u32_le_roundtrip(0u32);
    lemma_u32_le_roundtrip(len);
    let body = b.skip(1);
    assert(body =~= spec_u32_le(count) + (spec_u32_le(0u32) + (spec_u32_le(len) + (elems + rest))));
    lemma_le_u32_prefix(spec_u32_le(count), spec_u32_le(0u32) + (spec_u32_le(len) + (elems + rest)));
    assert(body.skip(4) =~= spec_u32_le(0u32) + (spec_u32_le(len) + (elems + rest)));
    lemma_le_u32_prefix(spec_u32_le(0u32), spec_u32_le(len) + (elems + rest));
    assert(body.skip(8) =~= spec_u32_le(len) + (elems + rest));
    lemma_le_u32_prefix(spec_u32_le(len), elems + rest);
    assert(body.skip(12) =~= elems + rest);
    assert((elems + rest).take(elems.len() as int) =~= elems);
}

} // verus!

verus! {

/// The boolean elements the writer stores decode back to the values written,
/// all with a correct representation.
pub proof fn law_bool_elements_decode(vs: Seq<bool>)
    ensures
        spec_bool_elements(vs).len() == vs.len(),
        spec_bools_of(spec_bool_elements(vs)) == vs,
        !spec_has_incorrect_bool(spec_bool_elements(vs)),
    decreases vs.len(),
{
    if vs.len() > 0 {
        law_bool_elements_decode(vs.drop_last());
        let e = spec_bool_elements(vs);
        let e0 = spec_bool_elements(vs.drop_last());
        assert(e =~= e0 + seq![spec_bool_attr_byte(vs.last())]);
        assert forall|k: int| 0 <= k < vs.len() implies #[trigger] spec_bools_of(e)[k] == vs[k] by {
            if k < vs.len() - 1 {
                assert(spec_bools_of(e0)[k] == vs.drop_last()[k]);
                assert(e[k] == e0[k]);
            }
        }
        assert(spec_bools_of(e) =~= vs);
        assert forall|k: int| 0 <= k < e.len() implies spec_is_correct_bool(#[trigger] e[k]) by {
            if k < e0.len() {
                assert(e[k] == e0[k]);
                if !spec_is_correct_bool(e0[k]) {
                    assert(spec_has_incorrect_bool(e0));
                }
            }
        }
    } else {
        assert(spec_bools_of(spec_bool_elements(vs)) =~= vs);
    }
}

/// A fresh iterator over the boolean elements the writer stores gives back
/// every value written, none of them with an incorrect representation.
pub proof fn law_bool_array_values(it: BooleanArrayAttributeValues, vs: Seq<bool>, end_error: IoError)
    requires
        vs.len() <= u32::MAX,
        it.starts(spec_bool_elements(vs), end_error, vs.len() as u32),
    ensures
        it.values() == vs,
        it.complete(),
        !spec_has_incorrect_bool(it.raw_values()),
{
    law_bool_elements_decode(vs);
    assert(spec_bool_elements(vs).take(vs.len() as int) =~= spec_bool_elements(vs));
}

/// A boolean array attribute as the writer stores it without compression:
/// loading it hands the loader a fresh iterator over the elements written.
#[verifier::rlimit(80)]
pub proof fn law_bool_array_attribute_roundtrip<V: LoadAttribute>(
    loader: V,
    vs: Seq<bool>,
    rest: Seq<u8>,
    critical: bool,
    r: Result<V::Output>,
    n: nat,
    warned: bool,
    next: nat,
)
    requires
        vs.len() <= u32::MAX,
    ensures
        spec_loads_attribute(
            loader,
            spec_array_attr_bytes(
                AttributeType::ArrBool,
                vs.len() as u32,
                ArrayAttributeEncoding::Direct,
                spec_bool_elements(vs),
            ) + rest,
            critical,
            r,
            n,
            warned,
            next,
        ) <==> {
            &&& n == 13 + vs.len()
            &&& next == 13 + vs.len()
            &&& exists|
                before: BooleanArrayAttributeValues,
                after: BooleanArrayAttributeValues,
                lr: Result<V::Output>,
            |
                {
                    &&& before.starts(
                        spec_bool_elements(vs),
                        IoError::UnexpectedEof,
                        vs.len() as u32,
                    )
                    &&& loader.loads_seq_bool(before, after, lr)
                    &&& spec_bool_array_outcome(
                        lr,
                        after.spec_has_error(),
                        after.spec_has_incorrect(),
                        critical,
                        r,
                        warned,
                    )
                }
        },
{
    let elems = spec_bool_elements(vs);
    law_bool_elements_decode(vs);
    lemma_array_frame(AttributeType::ArrBool, vs.len() as u32, elems, rest);
}

/// The FBX header the writer writes reads back as the version written.
pub proof fn law_header_roundtrip(version: u32, rest: Seq<u8>)
    ensures
        spec_load_header(spec_magic() + spec_u32_le(version) + rest) == Ok::<u32, HeaderError>(
            version,
        ),
{
    let b = spec_magic() + spec_u32_le(version) + rest;
    assert(b.take(MAGIC_LEN as int) =~= spec_magic());
    assert(b.subrange(MAGIC_LEN as int, HEADER_LEN as int) =~= spec_u32_le(version));
    lemma_u32_le_roundtrip(version);
}

/// A node header the writer writes reads back as written (for FBX 7.4, each
/// field fits in 32 bits).
pub proof fn law_node_header_roundtrip(
    large: bool,
    end: u64,
    count: u64,
    bytelen: u64,
    name_len: u8,
    rest: Seq<u8>,
)
    requires
        !large ==> end <= u32::MAX && count <= u32::MAX && bytelen <= u32::MAX,
    ensures
        spec_node_header(spec_node_header_bytes(large, end, count, bytelen, name_len) + rest, large)
            == (end, count, bytelen, name_len),
        spec_node_header_bytes(large, end, count, bytelen, name_len).len() == spec_node_header_len(
            large,
        ),
{
    let h = spec_node_header_bytes(large, end, count, bytelen, name_len);
    let b = h + rest;
    if large {
        lemma_u64_le_roundtrip(end);
        lemma_u64_le_roundtrip(count);
        lemma_u64_le_roundtrip(bytelen);
        lemma_le_u64_prefix(spec_u64_le(end), b.skip(8));
        assert(b =~= spec_u64_le(end) + b.skip(8));
        assert(b.skip(8) =~= spec_u64_le(count) + b.skip(16));
        lemma_le_u64_prefix(spec_u64_le(count), b.skip(16));
        assert(b.skip(16) =~= spec_u64_le(bytelen) + b.skip(24));
        lemma_le_u64_prefix(spec_u64_le(bytelen), b.skip(24));
    } else {
        lemma_u32_le_roundtrip(end as u32);
        lemma_u32_le_roundtrip(count as u32);
        lemma_u32_le_roundtrip(bytelen as u32);
        lemma_le_u32_prefix(spec_u32_le(end as u32), b.skip(4));
        assert(b =~= spec_u32_le(end as u32) + b.skip(4));
        assert(b.skip(4) =~= spec_u32_le(count as u32) + b.skip(8));
        lemma_le_u32_prefix(spec_u32_le(count as u32), b.skip(8));
        assert(b.skip(8) =~= spec_u32_le(bytelen as u32) + b.skip(12));
        lemma_le_u32_prefix(spec_u32_le(bytelen as u32), b.skip(12));
    }
}

/// A node header and a name as the writer stores them, at the position the
/// parser reads next, read back as the start of a node with that name: the
/// parser is inside no node, or before the end of the innermost one, with
/// nothing of its attributes left to skip; the name is non-empty UTF-8, and
/// the header is no end marker.
#[verifier::rlimit(40)]
pub proof fn law_node_start_roundtrip(
    p: Parser,
    q: Parser,
    r: Result<EventKind>,
    end: u64,
    count: u64,
    bytelen: u64,
    name: Seq<u8>,
    rest: Seq<u8>,
)
    requires
        p.spec_running(),
        spec_skip_len(p) == 0,
        p.spec_nodes().len() > 0 ==> p.spec_reader().spec_position() < p.spec_node_end(),
        spec_large_header(p.spec_fbx_version()) || (end <= u32::MAX && count <= u32::MAX && bytelen
            <= u32::MAX),
        0 < name.len() <= u8::MAX,
        vstd::utf8::valid_utf8(name),
        p.spec_reader().spec_rest() == spec_node_header_bytes(
            spec_large_header(p.spec_fbx_version()),
            end,
            count,
            bytelen,
            name.len() as u8,
        ) + name + rest,
        spec_next_event(p, q, r),
    ensures
        r == Ok::<EventKind, crate::pull_parser::Error>(EventKind::StartNode),
        q.spec_running(),
        q.spec_nodes().len() == p.spec_nodes().len() + 1,
        q.spec_node_path().last().1@ == vstd::utf8::decode_utf8(name),
        q.spec_attributes_count() == count,
        q.spec_node_end() == end,
{
    let large = spec_large_header(p.spec_fbx_version());
    let h = spec_node_header_bytes(large, end, count, bytelen, name.len() as u8);
    law_node_header_roundtrip(large, end, count, bytelen, name.len() as u8, name + rest);
    let b = p.spec_reader().spec_rest();
    assert(b =~= h + (name + rest));
    assert(b.skip(0) =~= b);
    assert(b.skip(spec_node_header_len(large) as int) =~= name + rest);
    assert((name + rest).take(name.len() as int) =~= name);
    assert(!spec_is_end_marker(spec_node_header(b, large)));
}

/// An end marker as the writer stores it (after a node with children or
/// without attributes), at the position the parser reads next, right before
/// the declared end of the innermost node, read back as the end of that node,
/// with no warning; with no node open, as the end of the document.
pub proof fn law_node_end_roundtrip(p: Parser, q: Parser, r: Result<EventKind>, rest: Seq<u8>)
    requires
        p.spec_running(),
        spec_skip_len(p) == 0,
        p.spec_nodes().len() > 0 ==> p.spec_reader().spec_position() + spec_node_header_len(
            spec_large_header(p.spec_fbx_version()),
        ) == p.spec_node_end(),
        p.spec_reader().spec_rest() == spec_zeros(
            spec_node_header_len(spec_large_header(p.spec_fbx_version())),
        ) + rest,
        p.spec_nodes().len() > 0 ==> spec_marker_required(p),
        spec_next_event(p, q, r),
    ensures
        p.spec_nodes().len() > 0 ==> r == Ok::<EventKind, crate::pull_parser::Error>(EventKind::EndNode)
            && q.spec_running() && q.spec_nodes() == p.spec_nodes().drop_last()
            && q.spec_warnings() == p.spec_warnings(),
        p.spec_nodes().len() == 0 ==> r == Ok::<EventKind, crate::pull_parser::Error>(EventKind::EndFbx)
            && q.spec_finished(),
{
    let large = spec_large_header(p.spec_fbx_version());
    let z = spec_zeros(spec_node_header_len(large));
    let b = p.spec_reader().spec_rest();
    assert(b.skip(0) =~= b);
    if large {
        assert(z =~= spec_node_header_bytes(true, 0, 0, 0, 0)) by {
            lemma_u64_le_roundtrip(0);
            assert(spec_u64_le(0) =~= seq![0u8, 0, 0, 0, 0, 0, 0, 0]) by {
                assert(spec_le_u64(seq![0u8, 0, 0, 0, 0, 0, 0, 0]) == 0);
                lemma_le_u64_prefix(seq![0u8, 0, 0, 0, 0, 0, 0, 0], Seq::empty());
            }
        }
        law_node_header_roundtrip(true, 0, 0, 0, 0, rest);
    } else {
        assert(z =~= spec_node_header_bytes(false, 0, 0, 0, 0)) by {
            lemma_u32_le_roundtrip(0);
            assert(spec_u32_le(0) =~= seq![0u8, 0, 0, 0]) by {
                assert(spec_le_u32(seq![0u8, 0, 0, 0]) == 0);
                lemma_le_u32_prefix(seq![0u8, 0, 0, 0], Seq::empty());
            }
        }
        law_node_header_roundtrip(false, 0, 0, 0, 0, rest);
    }
}

/// The footer the writer stores after `data`, with the default padding, is a
/// footer for the version it was written for: read back, it gives the fields
/// that were written and the padding that aligns it, and, with the unknown
/// fields left to their defaults, no warning.
pub proof fn law_footer_roundtrip(
    data: Seq<u8>,
    footer: WrittenFooter,
    version: FbxVersion,
    read: crate::low::v7400::FbxFooter,
)
    requires
        footer.padding_len == FbxFooterPaddingLength::Default,
    ensures
        ({
            let b = spec_footer_bytes(data, footer, version);
            &&& spec_footer_well_formed(b, version@)
            &&& read.spec_read_from(b, version) ==> {
                &&& read.unknown1@ == footer.spec_unknown1()
                &&& read.unknown2@ == footer.spec_unknown2()
                &&& read.unknown3@ == footer.spec_unknown3()
                &&& read.padding_len == spec_expected_padding_len(data.len() as int)
            }
            &&& footer.unknown1 is None && footer.unknown2 is None && footer.unknown3 is None
                ==> spec_footer_warnings(b, data.len() as int) == Seq::<Warning>::empty()
        }),
{
    let pad = ((16 - (data.len() + 16) % 16) % 16) as nat;
    let u1 = footer.spec_unknown1();
    let u2 = footer.spec_unknown2();
    let u3 = footer.spec_unknown3();
    let v = spec_u32_le(version@);
    let b = spec_footer_bytes(data, footer, version);
    lemma_u32_le_roundtrip(version@);
    assert(u1.len() == 16 && u2.len() == 4 && u3.len() == 16);
    assert(b == u1 + spec_zeros(pad) + u2 + v + spec_zeros(120) + u3);
    let n = b.len() as int;
    assert(n == pad + 160);
    assert(pad == spec_expected_padding_len(data.len() as int));
    assert forall|i: int| 16 <= i < n - 144 implies #[trigger] b[i] == 0 by {
        assert(b[i] == spec_zeros(pad)[i - 16]);
    }
    assert(b.skip(n - 140) =~= v + (spec_zeros(120) + u3));
    lemma_le_u32_prefix(v, spec_zeros(120) + u3);
    assert forall|i: int| n - 136 <= i < n - 16 implies #[trigger] b[i] == 0 by {
        assert(b[i] == spec_zeros(120)[i - (n - 136)]);
    }
    assert(b.take(16) =~= u1);
    assert(b.subrange(n - 144, n - 140) =~= u2);
    assert(b.skip(n - 16) =~= u3);
    if footer.unknown1 is None && footer.unknown2 is None && footer.unknown3 is None {
        assert((0xf0u8 & 0xf0u8) == 0xf0u8 && (0xb1u8 & 0xf0u8) == 0xb0u8 && (0xa2u8 & 0xf0u8)
            == 0xa0u8 && (0x03u8 & 0xf0u8) == 0x00u8 && (0xd4u8 & 0xf0u8) == 0xd0u8 && (0xc5u8
            & 0xf0u8) == 0xc0u8 && (0xd6u8 & 0xf0u8) == 0xd0u8 && (0x67u8 & 0xf0u8) == 0x60u8
            && (0xb8u8 & 0xf0u8) == 0xb0u8 && (0x79u8 & 0xf0u8) == 0x70u8 && (0xfau8 & 0xf0u8)
            == 0xf0u8 && (0x8bu8 & 0xf0u8) == 0x80u8 && (0x1cu8 & 0xf0u8) == 0x10u8 && (0xfdu8
            & 0xf0u8) == 0xf0u8 && (0x2eu8 & 0xf0u8) == 0x20u8 && (0x7fu8 & 0xf0u8) == 0x70u8)
            by (bit_vector);
        assert(spec_unknown1_plausible(b)) by {
            assert forall|i: int| 0 <= i < 16 implies (#[trigger] b[i] & 0xf0u8)
                == crate::low::v7400::spec_unknown1_pattern()[i] by {
                assert(b[i] == spec_default_unknown1()[i]);
            }
        }
        assert(forall|i: int| n - 144 <= i < n - 140 ==> #[trigger] b[i] == 0) by {
            assert forall|i: int| n - 144 <= i < n - 140 implies #[trigger] b[i] == 0 by {
                assert(b[i] == u2[i - (n - 144)]);
            }
        }
        assert(forall|i: int| 0 <= i < 16 ==> #[trigger] b[n - 16 + i] == spec_unknown3_expected()[i]) by {
            assert forall|i: int| 0 <= i < 16 implies #[trigger] b[n - 16 + i] == spec_unknown3_expected()[i] by {
                assert(b[n - 16 + i] == u3[i]);
            }
        }
        assert(spec_footer_warnings(b, data.len() as int) =~= Seq::<Warning>::empty());
    }
}

} // verus!
