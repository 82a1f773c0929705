//! Direct attribute value loader.

use vstd::prelude::*;

use crate::pull_parser::v7400::attribute::{
    collects_bools, collects_i32, collects_i64, collects_u32, collects_u64,
    is_unexpected_attribute, read_utf8, reads_utf8, unexpected_attribute, vec_result_view,
    ArrayAttributeValues, BooleanArrayAttributeValues, LoadAttribute,
};
use crate::pull_parser::{Error, Result};
use crate::low::v7400::AttributeValue;
use crate::pull_parser::v7400::attribute::is_io_error;
use crate::roundtrip::{
    law_bool_array_values, law_f32_array_values, law_f64_array_values, law_i32_array_values,
    law_i64_array_values,
};
use crate::pull_parser::v7400::attribute::loaders::{ArrayLoader, BinaryLoader, StringLoader};
use crate::stream::IoError;
use vstd::utf8::{decode_utf8, valid_utf8};
use crate::writer::v7400::binary::{
    spec_bool_elements, spec_f32_elements, spec_f64_elements, spec_i32_elements,
    spec_i64_elements,
};

verus! {

/// Loader for [`AttributeValue`]: accepts every attribute type and returns
/// its value.
#[derive(Default, Debug, Clone, Copy, PartialEq, Eq, Hash)]
pub struct DirectLoader;

impl LoadAttribute for DirectLoader {
    type Output = AttributeValue;

    fn load_binary_buffered(self, bytes: Vec<u8>, len: u64) -> (r: crate::pull_parser::Result<Self::Output>) {
        self.load_binary(bytes, len)
    }

    fn load_string_buffered(self, bytes: Vec<u8>, len: u64) -> (r: crate::pull_parser::Result<Self::Output>) {
        self.load_string(bytes, len)
    }

    open spec fn spec_expecting(&self) -> Seq<char> {
        "any type"@
    }

    open spec fn loads_bool(self, v: bool, r: Result<AttributeValue>) -> bool {
        r == Ok::<AttributeValue, Error>(AttributeValue::Bool(v))
    }

    open spec fn loads_i16(self, v: i16, r: Result<AttributeValue>) -> bool {
        r == Ok::<AttributeValue, Error>(AttributeValue::I16(v))
    }

    open spec fn loads_i32(self, v: i32, r: Result<AttributeValue>) -> bool {
        r == Ok::<AttributeValue, Error>(AttributeValue::I32(v))
    }

    open spec fn loads_i64(self, v: i64, r: Result<AttributeValue>) -> bool {
        r == Ok::<AttributeValue, Error>(AttributeValue::I64(v))
    }

    open spec fn loads_f32(self, v: u32, r: Result<AttributeValue>) -> bool {
        r == Ok::<AttributeValue, Error>(AttributeValue::F32(v))
    }

    open spec fn loads_f64(self, v: u64, r: Result<AttributeValue>) -> bool {
        r == Ok::<AttributeValue, Error>(AttributeValue::F64(v))
    }

    open spec fn loads_seq_bool(self, before: BooleanArrayAttributeValues, after: BooleanArrayAttributeValues, r: Result<AttributeValue>) -> bool {
        match r {
            Ok(AttributeValue::ArrBool(v)) => collects_bools(before, after, Ok(v@)),
            Ok(_) => false,
            Err(e) => collects_bools(before, after, Err(e)),
        }
    }

    open spec fn loads_seq_i32(self, before: ArrayAttributeValues<i32>, after: ArrayAttributeValues<i32>, r: Result<AttributeValue>) -> bool {
        match r {
            Ok(AttributeValue::ArrI32(v)) => collects_i32(before, after, Ok(v@)),
            Ok(_) => false,
            Err(e) => collects_i32(before, after, Err(e)),
        }
    }

    open spec fn loads_seq_i64(self, before: ArrayAttributeValues<i64>, after: ArrayAttributeValues<i64>, r: Result<AttributeValue>) -> bool {
        match r {
            Ok(AttributeValue::ArrI64(v)) => collects_i64(before, after, Ok(v@)),
            Ok(_) => false,
            Err(e) => collects_i64(before, after, Err(e)),
        }
    }

    open spec fn loads_seq_f32(self, before: ArrayAttributeValues<u32>, after: ArrayAttributeValues<u32>, r: Result<AttributeValue>) -> bool {
        match r {
            Ok(AttributeValue::ArrF32(v)) => collects_u32(before, after, Ok(v@)),
            Ok(_) => false,
            Err(e) => collects_u32(before, after, Err(e)),
        }
    }

    open spec fn loads_seq_f64(self, before: ArrayAttributeValues<u64>, after: ArrayAttributeValues<u64>, r: Result<AttributeValue>) -> bool {
        match r {
            Ok(AttributeValue::ArrF64(v)) => collects_u64(before, after, Ok(v@)),
            Ok(_) => false,
            Err(e) => collects_u64(before, after, Err(e)),
        }
    }

    open spec fn loads_binary(self, bytes: Seq<u8>, r: Result<AttributeValue>) -> bool {
        r matches Ok(AttributeValue::Binary(v)) && v@ == bytes
    }

    open spec fn loads_string(self, bytes: Seq<u8>, r: Result<AttributeValue>) -> bool {
        match r {
            Ok(AttributeValue::String(s)) => reads_utf8(bytes, Ok(s)),
            Ok(_) => false,
            Err(e) => reads_utf8(bytes, Err(e)),
        }
    }

    fn expecting(&self) -> (s: String) {
        "any type".to_owned()
    }

    fn load_bool(self, v: bool) -> (r: Result<AttributeValue>) {
        Ok(AttributeValue::Bool(v))
    }

    fn load_i16(self, v: i16) -> (r: Result<AttributeValue>) {
        Ok(AttributeValue::I16(v))
    }

    fn load_i32(self, v: i32) -> (r: Result<AttributeValue>) {
        Ok(AttributeValue::I32(v))
    }

    fn load_i64(self, v: i64) -> (r: Result<AttributeValue>) {
        Ok(AttributeValue::I64(v))
    }

    fn load_f32(self, v: u32) -> (r: Result<AttributeValue>) {
        Ok(AttributeValue::F32(v))
    }

    fn load_f64(self, v: u64) -> (r: Result<AttributeValue>) {
        Ok(AttributeValue::F64(v))
    }

    fn load_seq_bool(self, iter: &mut BooleanArrayAttributeValues, len: usize) -> (r: Result<AttributeValue>) {
        match iter.collect_values() {
            Ok(v) => Ok(AttributeValue::ArrBool(v)),
            Err(e) => Err(e),
        }
    }

    fn load_seq_i32(self, iter: &mut ArrayAttributeValues<i32>, len: usize) -> (r: Result<AttributeValue>) {
        match iter.collect_values() {
            Ok(v) => Ok(AttributeValue::ArrI32(v)),
            Err(e) => Err(e),
        }
    }

    fn load_seq_i64(self, iter: &mut ArrayAttributeValues<i64>, len: usize) -> (r: Result<AttributeValue>) {
        match iter.collect_values() {
            Ok(v) => Ok(AttributeValue::ArrI64(v)),
            Err(e) => Err(e),
        }
    }

    fn load_seq_f32(self, iter: &mut ArrayAttributeValues<u32>, len: usize) -> (r: Result<AttributeValue>) {
        match iter.collect_values() {
            Ok(v) => Ok(AttributeValue::ArrF32(v)),
            Err(e) => Err(e),
        }
    }

    fn load_seq_f64(self, iter: &mut ArrayAttributeValues<u64>, len: usize) -> (r: Result<AttributeValue>) {
        match iter.collect_values() {
            Ok(v) => Ok(AttributeValue::ArrF64(v)),
            Err(e) => Err(e),
        }
    }

    fn load_binary(self, bytes: Vec<u8>, len: u64) -> (r: Result<AttributeValue>) {
        Ok(AttributeValue::Binary(bytes))
    }

    fn load_string(self, bytes: Vec<u8>, len: u64) -> (r: Result<AttributeValue>) {
        match read_utf8(bytes) {
            Ok(s) => Ok(AttributeValue::String(s)),
            Err(e) => Err(e),
        }
    }
}

/// The direct loader gives a complete boolean array back as exactly its
/// elements, in order, and an incomplete one as the error its stream ends
/// with.
pub proof fn law_direct_loads_bool_array(
    before: BooleanArrayAttributeValues,
    after: BooleanArrayAttributeValues,
    r: Result<AttributeValue>,
)
    requires
        DirectLoader.loads_seq_bool(before, after, r),
    ensures
        before.complete() ==> (r matches Ok(AttributeValue::ArrBool(v)) && v@ == before.values()),
        !before.complete() ==> (r matches Err(e) && is_io_error(e, before.spec_end_error())),
{
}

/// The direct loader gives a complete `i32` array back as exactly its
/// elements, in order, and an incomplete one as the error its stream ends
/// with.
pub proof fn law_direct_loads_i32_array(
    before: ArrayAttributeValues<i32>,
    after: ArrayAttributeValues<i32>,
    r: Result<AttributeValue>,
)
    requires
        DirectLoader.loads_seq_i32(before, after, r),
    ensures
        before.complete() ==> (r matches Ok(AttributeValue::ArrI32(v)) && v@ == before.values()),
        !before.complete() ==> (r matches Err(e) && is_io_error(e, before.spec_end_error())),
{
}

/// The direct loader gives a complete `i64` array back as exactly its
/// elements, in order, and an incomplete one as the error its stream ends
/// with.
pub proof fn law_direct_loads_i64_array(
    before: ArrayAttributeValues<i64>,
    after: ArrayAttributeValues<i64>,
    r: Result<AttributeValue>,
)
    requires
        DirectLoader.loads_seq_i64(before, after, r),
    ensures
        before.complete() ==> (r matches Ok(AttributeValue::ArrI64(v)) && v@ == before.values()),
        !before.complete() ==> (r matches Err(e) && is_io_error(e, before.spec_end_error())),
{
}

/// The direct loader gives a complete `f32` array (bit patterns) back as
/// exactly its elements, in order, and an incomplete one as the error its
/// stream ends with.
pub proof fn law_direct_loads_f32_array(
    before: ArrayAttributeValues<u32>,
    after: ArrayAttributeValues<u32>,
    r: Result<AttributeValue>,
)
    requires
        DirectLoader.loads_seq_f32(before, after, r),
    ensures
        before.complete() ==> (r matches Ok(AttributeValue::ArrF32(v)) && v@ == before.values()),
        !before.complete() ==> (r matches Err(e) && is_io_error(e, before.spec_end_error())),
{
}

/// The direct loader gives a complete `f64` array (bit patterns) back as
/// exactly its elements, in order, and an incomplete one as the error its
/// stream ends with.
pub proof fn law_direct_loads_f64_array(
    before: ArrayAttributeValues<u64>,
    after: ArrayAttributeValues<u64>,
    r: Result<AttributeValue>,
)
    requires
        DirectLoader.loads_seq_f64(before, after, r),
    ensures
        before.complete() ==> (r matches Ok(AttributeValue::ArrF64(v)) && v@ == before.values()),
        !before.complete() ==> (r matches Err(e) && is_io_error(e, before.spec_end_error())),
{
}

/// Booleans stored as the writer stores them load through the direct loader
/// as exactly the values written.
pub proof fn law_direct_loads_written_bools(
    vs: Seq<bool>,
    end_error: IoError,
    before: BooleanArrayAttributeValues,
    after: BooleanArrayAttributeValues,
    r: Result<AttributeValue>,
)
    requires
        vs.len() <= u32::MAX,
        before.starts(spec_bool_elements(vs), end_error, vs.len() as u32),
        DirectLoader.loads_seq_bool(before, after, r),
    ensures
        r matches Ok(AttributeValue::ArrBool(v)) && v@ == vs,
{
    law_bool_array_values(before, vs, end_error);
}

/// `i32` values stored as the writer stores them load through the direct
/// loader as exactly the values written.
pub proof fn law_direct_loads_written_i32s(
    vs: Seq<i32>,
    end_error: IoError,
    before: ArrayAttributeValues<i32>,
    after: ArrayAttributeValues<i32>,
    r: Result<AttributeValue>,
)
    requires
        vs.len() <= u32::MAX,
        before.starts(spec_i32_elements(vs), end_error, vs.len() as u32),
        DirectLoader.loads_seq_i32(before, after, r),
    ensures
        r matches Ok(AttributeValue::ArrI32(v)) && v@ == vs,
{
    law_i32_array_values(before, vs, end_error);
}

/// `i64` values stored as the writer stores them load through the direct
/// loader as exactly the values written.
pub proof fn law_direct_loads_written_i64s(
    vs: Seq<i64>,
    end_error: IoError,
    before: ArrayAttributeValues<i64>,
    after: ArrayAttributeValues<i64>,
    r: Result<AttributeValue>,
)
    requires
        vs.len() <= u32::MAX,
        before.starts(spec_i64_elements(vs), end_error, vs.len() as u32),
        DirectLoader.loads_seq_i64(before, after, r),
    ensures
        r matches Ok(AttributeValue::ArrI64(v)) && v@ == vs,
{
    law_i64_array_values(before, vs, end_error);
}

/// `f32` values (bit patterns) stored as the writer stores them load through
/// the direct loader as exactly the values written, in order.
pub proof fn law_direct_loads_written_f32s(
    vs: Seq<u32>,
    end_error: IoError,
    before: ArrayAttributeValues<u32>,
    after: ArrayAttributeValues<u32>,
    r: Result<AttributeValue>,
)
    requires
        vs.len() <= u32::MAX,
        before.starts(spec_f32_elements(vs), end_error, vs.len() as u32),
        DirectLoader.loads_seq_f32(before, after, r),
    ensures
        r matches Ok(AttributeValue::ArrF32(v)) && v@ == vs,
{
    law_f32_array_values(before, vs, end_error);
}

/// `f64` values (bit patterns) stored as the writer stores them load through
/// the direct loader as exactly the values written, in order.
pub proof fn law_direct_loads_written_f64s(
    vs: Seq<u64>,
    end_error: IoError,
    before: ArrayAttributeValues<u64>,
    after: ArrayAttributeValues<u64>,
    r: Result<AttributeValue>,
)
    requires
        vs.len() <= u32::MAX,
        before.starts(spec_f64_elements(vs), end_error, vs.len() as u32),
        DirectLoader.loads_seq_f64(before, after, r),
    ensures
        r matches Ok(AttributeValue::ArrF64(v)) && v@ == vs,
{
    law_f64_array_values(before, vs, end_error);
}

/// The boolean array loader succeeds exactly where the direct loader does,
/// with the same elements.
pub proof fn law_bool_array_loader_agrees_with_direct(
    loader: ArrayLoader<Vec<bool>>,
    before: BooleanArrayAttributeValues,
    after1: BooleanArrayAttributeValues,
    r1: Result<Vec<bool>>,
    after2: BooleanArrayAttributeValues,
    r2: Result<AttributeValue>,
)
    requires
        loader.loads_seq_bool(before, after1, r1),
        DirectLoader.loads_seq_bool(before, after2, r2),
    ensures
        r1 is Ok <==> r2 is Ok,
        r1 matches Ok(v1) ==> r2 matches Ok(AttributeValue::ArrBool(v2)) && v1@ == v2@,
{
}

/// The `i32` array loader succeeds exactly where the direct loader does, with
/// the same elements.
pub proof fn law_i32_array_loader_agrees_with_direct(
    loader: ArrayLoader<Vec<i32>>,
    before: ArrayAttributeValues<i32>,
    after1: ArrayAttributeValues<i32>,
    r1: Result<Vec<i32>>,
    after2: ArrayAttributeValues<i32>,
    r2: Result<AttributeValue>,
)
    requires
        loader.loads_seq_i32(before, after1, r1),
        DirectLoader.loads_seq_i32(before, after2, r2),
    ensures
        r1 is Ok <==> r2 is Ok,
        r1 matches Ok(v1) ==> r2 matches Ok(AttributeValue::ArrI32(v2)) && v1@ == v2@,
{
}

/// The `i64` array loader succeeds exactly where the direct loader does, with
/// the same elements.
pub proof fn law_i64_array_loader_agrees_with_direct(
    loader: ArrayLoader<Vec<i64>>,
    before: ArrayAttributeValues<i64>,
    after1: ArrayAttributeValues<i64>,
    r1: Result<Vec<i64>>,
    after2: ArrayAttributeValues<i64>,
    r2: Result<AttributeValue>,
)
    requires
        loader.loads_seq_i64(before, after1, r1),
        DirectLoader.loads_seq_i64(before, after2, r2),
    ensures
        r1 is Ok <==> r2 is Ok,
        r1 matches Ok(v1) ==> r2 matches Ok(AttributeValue::ArrI64(v2)) && v1@ == v2@,
{
}

/// The binary loader and the direct loader both give back the stored bytes.
pub proof fn law_binary_loader_agrees_with_direct(
    bytes: Seq<u8>,
    r1: Result<Vec<u8>>,
    r2: Result<AttributeValue>,
)
    requires
        BinaryLoader.loads_binary(bytes, r1),
        DirectLoader.loads_binary(bytes, r2),
    ensures
        r1 matches Ok(v1) && r2 matches Ok(AttributeValue::Binary(v2)) && v1@ == bytes && v2@ == bytes,
{
}

/// The string loader succeeds exactly where the direct loader does, on valid
/// UTF-8, and both give the text the bytes encode.
pub proof fn law_string_loader_agrees_with_direct(
    bytes: Seq<u8>,
    r1: Result<String>,
    r2: Result<AttributeValue>,
)
    requires
        StringLoader.loads_string(bytes, r1),
        DirectLoader.loads_string(bytes, r2),
    ensures
        r1 is Ok <==> valid_utf8(bytes),
        r2 is Ok <==> valid_utf8(bytes),
        r1 matches Ok(s1) ==> s1@ == decode_utf8(bytes),
        r2 matches Ok(v) ==> v matches AttributeValue::String(s2) && s2@ == decode_utf8(bytes),
{
}

} // verus!
