//! Attribute type loader.

use vstd::prelude::*;

use crate::pull_parser::v7400::attribute::{
    collects_bools, collects_i32, collects_i64, collects_u32, collects_u64,
    is_unexpected_attribute, read_utf8, reads_utf8, unexpected_attribute, vec_result_view,
    ArrayAttributeValues, BooleanArrayAttributeValues, LoadAttribute,
};
use crate::pull_parser::{Error, Result};
use crate::low::v7400::AttributeType;

verus! {

/// Loader for node attribute type ([`AttributeType`]).
///
/// This returns only node attribute type ([`AttributeType`]) and discards
/// its real value (array elements are not read).
#[derive(Default, Debug, Clone, Copy, PartialEq, Eq, Hash)]
pub struct TypeLoader;

impl LoadAttribute for TypeLoader {
    type Output = AttributeType;

    fn load_binary_buffered(self, bytes: Vec<u8>, len: u64) -> (r: crate::pull_parser::Result<Self::Output>) {
        self.load_binary(bytes, len)
    }

    fn load_string_buffered(self, bytes: Vec<u8>, len: u64) -> (r: crate::pull_parser::Result<Self::Output>) {
        self.load_string(bytes, len)
    }

    open spec fn spec_expecting(&self) -> Seq<char> {
        "any type"@
    }

    open spec fn loads_bool(self, v: bool, r: Result<AttributeType>) -> bool {
        r == Ok::<AttributeType, Error>(AttributeType::Bool)
    }

    open spec fn loads_i16(self, v: i16, r: Result<AttributeType>) -> bool {
        r == Ok::<AttributeType, Error>(AttributeType::I16)
    }

    open spec fn loads_i32(self, v: i32, r: Result<AttributeType>) -> bool {
        r == Ok::<AttributeType, Error>(AttributeType::I32)
    }

    open spec fn loads_i64(self, v: i64, r: Result<AttributeType>) -> bool {
        r == Ok::<AttributeType, Error>(AttributeType::I64)
    }

    open spec fn loads_f32(self, v: u32, r: Result<AttributeType>) -> bool {
        r == Ok::<AttributeType, Error>(AttributeType::F32)
    }

    open spec fn loads_f64(self, v: u64, r: Result<AttributeType>) -> bool {
        r == Ok::<AttributeType, Error>(AttributeType::F64)
    }

    open spec fn loads_seq_bool(self, before: BooleanArrayAttributeValues, after: BooleanArrayAttributeValues, r: Result<AttributeType>) -> bool {
        r == Ok::<AttributeType, Error>(AttributeType::ArrBool) && after == before
    }

    open spec fn loads_seq_i32(self, before: ArrayAttributeValues<i32>, after: ArrayAttributeValues<i32>, r: Result<AttributeType>) -> bool {
        r == Ok::<AttributeType, Error>(AttributeType::ArrI32) && after == before
    }

    open spec fn loads_seq_i64(self, before: ArrayAttributeValues<i64>, after: ArrayAttributeValues<i64>, r: Result<AttributeType>) -> bool {
        r == Ok::<AttributeType, Error>(AttributeType::ArrI64) && after == before
    }

    open spec fn loads_seq_f32(self, before: ArrayAttributeValues<u32>, after: ArrayAttributeValues<u32>, r: Result<AttributeType>) -> bool {
        r == Ok::<AttributeType, Error>(AttributeType::ArrF32) && after == before
    }

    open spec fn loads_seq_f64(self, before: ArrayAttributeValues<u64>, after: ArrayAttributeValues<u64>, r: Result<AttributeType>) -> bool {
        r == Ok::<AttributeType, Error>(AttributeType::ArrF64) && after == before
    }

    open spec fn loads_binary(self, bytes: Seq<u8>, r: Result<AttributeType>) -> bool {
        r == Ok::<AttributeType, Error>(AttributeType::Binary)
    }

    open spec fn loads_string(self, bytes: Seq<u8>, r: Result<AttributeType>) -> bool {
        r == Ok::<AttributeType, Error>(AttributeType::String)
    }

    fn expecting(&self) -> (s: String) {
        "any type".to_owned()
    }

    fn load_bool(self, v: bool) -> (r: Result<AttributeType>) {
        Ok(AttributeType::Bool)
    }

    fn load_i16(self, v: i16) -> (r: Result<AttributeType>) {
        Ok(AttributeType::I16)
    }

    fn load_i32(self, v: i32) -> (r: Result<AttributeType>) {
        Ok(AttributeType::I32)
    }

    fn load_i64(self, v: i64) -> (r: Result<AttributeType>) {
        Ok(AttributeType::I64)
    }

    fn load_f32(self, v: u32) -> (r: Result<AttributeType>) {
        Ok(AttributeType::F32)
    }

    fn load_f64(self, v: u64) -> (r: Result<AttributeType>) {
        Ok(AttributeType::F64)
    }

    fn load_seq_bool(self, iter: &mut BooleanArrayAttributeValues, len: usize) -> (r: Result<AttributeType>) {
        Ok(AttributeType::ArrBool)
    }

    fn load_seq_i32(self, iter: &mut ArrayAttributeValues<i32>, len: usize) -> (r: Result<AttributeType>) {
        Ok(AttributeType::ArrI32)
    }

    fn load_seq_i64(self, iter: &mut ArrayAttributeValues<i64>, len: usize) -> (r: Result<AttributeType>) {
        Ok(AttributeType::ArrI64)
    }

    fn load_seq_f32(self, iter: &mut ArrayAttributeValues<u32>, len: usize) -> (r: Result<AttributeType>) {
        Ok(AttributeType::ArrF32)
    }

    fn load_seq_f64(self, iter: &mut ArrayAttributeValues<u64>, len: usize) -> (r: Result<AttributeType>) {
        Ok(AttributeType::ArrF64)
    }

    fn load_binary(self, bytes: Vec<u8>, len: u64) -> (r: Result<AttributeType>) {
        Ok(AttributeType::Binary)
    }

    fn load_string(self, bytes: Vec<u8>, len: u64) -> (r: Result<AttributeType>) {
        Ok(AttributeType::String)
    }
}

} // verus!
