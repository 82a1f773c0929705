//! Single type loader.

use std::marker::PhantomData;

use vstd::prelude::*;

use crate::pull_parser::v7400::attribute::{
    collects_bools, collects_i32, collects_i64, collects_u32, collects_u64,
    is_unexpected_attribute, read_utf8, reads_utf8, unexpected_attribute, vec_result_view,
    ArrayAttributeValues, BooleanArrayAttributeValues, LoadAttribute,
};
use crate::pull_parser::{Error, Result};

verus! {

/// Loader for primitive types.
///
/// Supported types are: `bool`, `i16` , `i32` and `i64`.
#[derive(Default, Debug)]
pub struct PrimitiveLoader<T>(PhantomData<T>);

impl LoadAttribute for PrimitiveLoader<bool> {
    type Output = bool;

    fn load_binary_buffered(self, bytes: Vec<u8>, len: u64) -> (r: crate::pull_parser::Result<Self::Output>) {
        self.load_binary(bytes, len)
    }

    fn load_string_buffered(self, bytes: Vec<u8>, len: u64) -> (r: crate::pull_parser::Result<Self::Output>) {
        self.load_string(bytes, len)
    }

    open spec fn spec_expecting(&self) -> Seq<char> {
        "single boolean"@
    }

    open spec fn loads_bool(self, v: bool, r: Result<bool>) -> bool {
        r == Ok::<bool, Error>(v)
    }

    open spec fn loads_i16(self, v: i16, r: Result<bool>) -> bool {
        (r matches Err(e) && is_unexpected_attribute(e, self.spec_expecting(), "i16"@))
    }

    open spec fn loads_i32(self, v: i32, r: Result<bool>) -> bool {
        (r matches Err(e) && is_unexpected_attribute(e, self.spec_expecting(), "i32"@))
    }

    open spec fn loads_i64(self, v: i64, r: Result<bool>) -> bool {
        (r matches Err(e) && is_unexpected_attribute(e, self.spec_expecting(), "i64"@))
    }

    open spec fn loads_f32(self, v: u32, r: Result<bool>) -> bool {
        (r matches Err(e) && is_unexpected_attribute(e, self.spec_expecting(), "f32"@))
    }

    open spec fn loads_f64(self, v: u64, r: Result<bool>) -> bool {
        (r matches Err(e) && is_unexpected_attribute(e, self.spec_expecting(), "f64"@))
    }

    open spec fn loads_seq_bool(self, before: BooleanArrayAttributeValues, after: BooleanArrayAttributeValues, r: Result<bool>) -> bool {
        (r matches Err(e) && is_unexpected_attribute(e, self.spec_expecting(), "boolean array"@)) && after == before
    }

    open spec fn loads_seq_i32(self, before: ArrayAttributeValues<i32>, after: ArrayAttributeValues<i32>, r: Result<bool>) -> bool {
        (r matches Err(e) && is_unexpected_attribute(e, self.spec_expecting(), "i32 array"@)) && after == before
    }

    open spec fn loads_seq_i64(self, before: ArrayAttributeValues<i64>, after: ArrayAttributeValues<i64>, r: Result<bool>) -> bool {
        (r matches Err(e) && is_unexpected_attribute(e, self.spec_expecting(), "i64 array"@)) && after == before
    }

    open spec fn loads_seq_f32(self, before: ArrayAttributeValues<u32>, after: ArrayAttributeValues<u32>, r: Result<bool>) -> bool {
        (r matches Err(e) && is_unexpected_attribute(e, self.spec_expecting(), "f32 array"@)) && after == before
    }

    open spec fn loads_seq_f64(self, before: ArrayAttributeValues<u64>, after: ArrayAttributeValues<u64>, r: Result<bool>) -> bool {
        (r matches Err(e) && is_unexpected_attribute(e, self.spec_expecting(), "f64 array"@)) && after == before
    }

    open spec fn loads_binary(self, bytes: Seq<u8>, r: Result<bool>) -> bool {
        (r matches Err(e) && is_unexpected_attribute(e, self.spec_expecting(), "binary data"@))
    }

    open spec fn loads_string(self, bytes: Seq<u8>, r: Result<bool>) -> bool {
        (r matches Err(e) && is_unexpected_attribute(e, self.spec_expecting(), "string data"@))
    }

    fn expecting(&self) -> (s: String) {
        "single boolean".to_owned()
    }

    fn load_bool(self, v: bool) -> (r: Result<bool>) {
        Ok(v)
    }

    fn load_i16(self, v: i16) -> (r: Result<bool>) {
        Err(unexpected_attribute(self.expecting(), "i16"))
    }

    fn load_i32(self, v: i32) -> (r: Result<bool>) {
        Err(unexpected_attribute(self.expecting(), "i32"))
    }

    fn load_i64(self, v: i64) -> (r: Result<bool>) {
        Err(unexpected_attribute(self.expecting(), "i64"))
    }

    fn load_f32(self, v: u32) -> (r: Result<bool>) {
        Err(unexpected_attribute(self.expecting(), "f32"))
    }

    fn load_f64(self, v: u64) -> (r: Result<bool>) {
        Err(unexpected_attribute(self.expecting(), "f64"))
    }

    fn load_seq_bool(self, iter: &mut BooleanArrayAttributeValues, len: usize) -> (r: Result<bool>) {
        Err(unexpected_attribute(self.expecting(), "boolean array"))
    }

    fn load_seq_i32(self, iter: &mut ArrayAttributeValues<i32>, len: usize) -> (r: Result<bool>) {
        Err(unexpected_attribute(self.expecting(), "i32 array"))
    }

    fn load_seq_i64(self, iter: &mut ArrayAttributeValues<i64>, len: usize) -> (r: Result<bool>) {
        Err(unexpected_attribute(self.expecting(), "i64 array"))
    }

    fn load_seq_f32(self, iter: &mut ArrayAttributeValues<u32>, len: usize) -> (r: Result<bool>) {
        Err(unexpected_attribute(self.expecting(), "f32 array"))
    }

    fn load_seq_f64(self, iter: &mut ArrayAttributeValues<u64>, len: usize) -> (r: Result<bool>) {
        Err(unexpected_attribute(self.expecting(), "f64 array"))
    }

    fn load_binary(self, bytes: Vec<u8>, len: u64) -> (r: Result<bool>) {
        Err(unexpected_attribute(self.expecting(), "binary data"))
    }

    fn load_string(self, bytes: Vec<u8>, len: u64) -> (r: Result<bool>) {
        Err(unexpected_attribute(self.expecting(), "string data"))
    }
}

impl LoadAttribute for PrimitiveLoader<i16> {
    type Output = i16;

    fn load_binary_buffered(self, bytes: Vec<u8>, len: u64) -> (r: crate::pull_parser::Result<Self::Output>) {
        self.load_binary(bytes, len)
    }

    fn load_string_buffered(self, bytes: Vec<u8>, len: u64) -> (r: crate::pull_parser::Result<Self::Output>) {
        self.load_string(bytes, len)
    }

    open spec fn spec_expecting(&self) -> Seq<char> {
        "single i16"@
    }

    open spec fn loads_bool(self, v: bool, r: Result<i16>) -> bool {
        (r matches Err(e) && is_unexpected_attribute(e, self.spec_expecting(), "boolean"@))
    }

    open spec fn loads_i16(self, v: i16, r: Result<i16>) -> bool {
        r == Ok::<i16, Error>(v)
    }

    open spec fn loads_i32(self, v: i32, r: Result<i16>) -> bool {
        (r matches Err(e) && is_unexpected_attribute(e, self.spec_expecting(), "i32"@))
    }

    open spec fn loads_i64(self, v: i64, r: Result<i16>) -> bool {
        (r matches Err(e) && is_unexpected_attribute(e, self.spec_expecting(), "i64"@))
    }

    open spec fn loads_f32(self, v: u32, r: Result<i16>) -> bool {
        (r matches Err(e) && is_unexpected_attribute(e, self.spec_expecting(), "f32"@))
    }

    open spec fn loads_f64(self, v: u64, r: Result<i16>) -> bool {
        (r matches Err(e) && is_unexpected_attribute(e, self.spec_expecting(), "f64"@))
    }

    open spec fn loads_seq_bool(self, before: BooleanArrayAttributeValues, after: BooleanArrayAttributeValues, r: Result<i16>) -> bool {
        (r matches Err(e) && is_unexpected_attribute(e, self.spec_expecting(), "boolean array"@)) && after == before
    }

    open spec fn loads_seq_i32(self, before: ArrayAttributeValues<i32>, after: ArrayAttributeValues<i32>, r: Result<i16>) -> bool {
        (r matches Err(e) && is_unexpected_attribute(e, self.spec_expecting(), "i32 array"@)) && after == before
    }

    open spec fn loads_seq_i64(self, before: ArrayAttributeValues<i64>, after: ArrayAttributeValues<i64>, r: Result<i16>) -> bool {
        (r matches Err(e) && is_unexpected_attribute(e, self.spec_expecting(), "i64 array"@)) && after == before
    }

    open spec fn loads_seq_f32(self, before: ArrayAttributeValues<u32>, after: ArrayAttributeValues<u32>, r: Result<i16>) -> bool {
        (r matches Err(e) && is_unexpected_attribute(e, self.spec_expecting(), "f32 array"@)) && after == before
    }

    open spec fn loads_seq_f64(self, before: ArrayAttributeValues<u64>, after: ArrayAttributeValues<u64>, r: Result<i16>) -> bool {
        (r matches Err(e) && is_unexpected_attribute(e, self.spec_expecting(), "f64 array"@)) && after == before
    }

    open spec fn loads_binary(self, bytes: Seq<u8>, r: Result<i16>) -> bool {
        (r matches Err(e) && is_unexpected_attribute(e, self.spec_expecting(), "binary data"@))
    }

    open spec fn loads_string(self, bytes: Seq<u8>, r: Result<i16>) -> bool {
        (r matches Err(e) && is_unexpected_attribute(e, self.spec_expecting(), "string data"@))
    }

    fn expecting(&self) -> (s: String) {
        "single i16".to_owned()
    }

    fn load_bool(self, v: bool) -> (r: Result<i16>) {
        Err(unexpected_attribute(self.expecting(), "boolean"))
    }

    fn load_i16(self, v: i16) -> (r: Result<i16>) {
        Ok(v)
    }

    fn load_i32(self, v: i32) -> (r: Result<i16>) {
        Err(unexpected_attribute(self.expecting(), "i32"))
    }

    fn load_i64(self, v: i64) -> (r: Result<i16>) {
        Err(unexpected_attribute(self.expecting(), "i64"))
    }

    fn load_f32(self, v: u32) -> (r: Result<i16>) {
        Err(unexpected_attribute(self.expecting(), "f32"))
    }

    fn load_f64(self, v: u64) -> (r: Result<i16>) {
        Err(unexpected_attribute(self.expecting(), "f64"))
    }

    fn load_seq_bool(self, iter: &mut BooleanArrayAttributeValues, len: usize) -> (r: Result<i16>) {
        Err(unexpected_attribute(self.expecting(), "boolean array"))
    }

    fn load_seq_i32(self, iter: &mut ArrayAttributeValues<i32>, len: usize) -> (r: Result<i16>) {
        Err(unexpected_attribute(self.expecting(), "i32 array"))
    }

    fn load_seq_i64(self, iter: &mut ArrayAttributeValues<i64>, len: usize) -> (r: Result<i16>) {
        Err(unexpected_attribute(self.expecting(), "i64 array"))
    }

    fn load_seq_f32(self, iter: &mut ArrayAttributeValues<u32>, len: usize) -> (r: Result<i16>) {
        Err(unexpected_attribute(self.expecting(), "f32 array"))
    }

    fn load_seq_f64(self, iter: &mut ArrayAttributeValues<u64>, len: usize) -> (r: Result<i16>) {
        Err(unexpected_attribute(self.expecting(), "f64 array"))
    }

    fn load_binary(self, bytes: Vec<u8>, len: u64) -> (r: Result<i16>) {
        Err(unexpected_attribute(self.expecting(), "binary data"))
    }

    fn load_string(self, bytes: Vec<u8>, len: u64) -> (r: Result<i16>) {
        Err(unexpected_attribute(self.expecting(), "string data"))
    }
}

impl LoadAttribute for PrimitiveLoader<i32> {
    type Output = i32;

    fn load_binary_buffered(self, bytes: Vec<u8>, len: u64) -> (r: crate::pull_parser::Result<Self::Output>) {
        self.load_binary(bytes, len)
    }

    fn load_string_buffered(self, bytes: Vec<u8>, len: u64) -> (r: crate::pull_parser::Result<Self::Output>) {
        self.load_string(bytes, len)
    }

    open spec fn spec_expecting(&self) -> Seq<char> {
        "single i32"@
    }

    open spec fn loads_bool(self, v: bool, r: Result<i32>) -> bool {
        (r matches Err(e) && is_unexpected_attribute(e, self.spec_expecting(), "boolean"@))
    }

    open spec fn loads_i16(self, v: i16, r: Result<i32>) -> bool {
        (r matches Err(e) && is_unexpected_attribute(e, self.spec_expecting(), "i16"@))
    }

    open spec fn loads_i32(self, v: i32, r: Result<i32>) -> bool {
        r == Ok::<i32, Error>(v)
    }

    open spec fn loads_i64(self, v: i64, r: Result<i32>) -> bool {
        (r matches Err(e) && is_unexpected_attribute(e, self.spec_expecting(), "i64"@))
    }

    open spec fn loads_f32(self, v: u32, r: Result<i32>) -> bool {
        (r matches Err(e) && is_unexpected_attribute(e, self.spec_expecting(), "f32"@))
    }

    open spec fn loads_f64(self, v: u64, r: Result<i32>) -> bool {
        (r matches Err(e) && is_unexpected_attribute(e, self.spec_expecting(), "f64"@))
    }

    open spec fn loads_seq_bool(self, before: BooleanArrayAttributeValues, after: BooleanArrayAttributeValues, r: Result<i32>) -> bool {
        (r matches Err(e) && is_unexpected_attribute(e, self.spec_expecting(), "boolean array"@)) && after == before
    }

    open spec fn loads_seq_i32(self, before: ArrayAttributeValues<i32>, after: ArrayAttributeValues<i32>, r: Result<i32>) -> bool {
        (r matches Err(e) && is_unexpected_attribute(e, self.spec_expecting(), "i32 array"@)) && after == before
    }

    open spec fn loads_seq_i64(self, before: ArrayAttributeValues<i64>, after: ArrayAttributeValues<i64>, r: Result<i32>) -> bool {
        (r matches Err(e) && is_unexpected_attribute(e, self.spec_expecting(), "i64 array"@)) && after == before
    }

    open spec fn loads_seq_f32(self, before: ArrayAttributeValues<u32>, after: ArrayAttributeValues<u32>, r: Result<i32>) -> bool {
        (r matches Err(e) && is_unexpected_attribute(e, self.spec_expecting(), "f32 array"@)) && after == before
    }

    open spec fn loads_seq_f64(self, before: ArrayAttributeValues<u64>, after: ArrayAttributeValues<u64>, r: Result<i32>) -> bool {
        (r matches Err(e) && is_unexpected_attribute(e, self.spec_expecting(), "f64 array"@)) && after == before
    }

    open spec fn loads_binary(self, bytes: Seq<u8>, r: Result<i32>) -> bool {
        (r matches Err(e) && is_unexpected_attribute(e, self.spec_expecting(), "binary data"@))
    }

    open spec fn loads_string(self, bytes: Seq<u8>, r: Result<i32>) -> bool {
        (r matches Err(e) && is_unexpected_attribute(e, self.spec_expecting(), "string data"@))
    }

    fn expecting(&self) -> (s: String) {
        "single i32".to_owned()
    }

    fn load_bool(self, v: bool) -> (r: Result<i32>) {
        Err(unexpected_attribute(self.expecting(), "boolean"))
    }

    fn load_i16(self, v: i16) -> (r: Result<i32>) {
        Err(unexpected_attribute(self.expecting(), "i16"))
    }

    fn load_i32(self, v: i32) -> (r: Result<i32>) {
        Ok(v)
    }

    fn load_i64(self, v: i64) -> (r: Result<i32>) {
        Err(unexpected_attribute(self.expecting(), "i64"))
    }

    fn load_f32(self, v: u32) -> (r: Result<i32>) {
        Err(unexpected_attribute(self.expecting(), "f32"))
    }

    fn load_f64(self, v: u64) -> (r: Result<i32>) {
        Err(unexpected_attribute(self.expecting(), "f64"))
    }

    fn load_seq_bool(self, iter: &mut BooleanArrayAttributeValues, len: usize) -> (r: Result<i32>) {
        Err(unexpected_attribute(self.expecting(), "boolean array"))
    }

    fn load_seq_i32(self, iter: &mut ArrayAttributeValues<i32>, len: usize) -> (r: Result<i32>) {
        Err(unexpected_attribute(self.expecting(), "i32 array"))
    }

    fn load_seq_i64(self, iter: &mut ArrayAttributeValues<i64>, len: usize) -> (r: Result<i32>) {
        Err(unexpected_attribute(self.expecting(), "i64 array"))
    }

    fn load_seq_f32(self, iter: &mut ArrayAttributeValues<u32>, len: usize) -> (r: Result<i32>) {
        Err(unexpected_attribute(self.expecting(), "f32 array"))
    }

    fn load_seq_f64(self, iter: &mut ArrayAttributeValues<u64>, len: usize) -> (r: Result<i32>) {
        Err(unexpected_attribute(self.expecting(), "f64 array"))
    }

    fn load_binary(self, bytes: Vec<u8>, len: u64) -> (r: Result<i32>) {
        Err(unexpected_attribute(self.expecting(), "binary data"))
    }

    fn load_string(self, bytes: Vec<u8>, len: u64) -> (r: Result<i32>) {
        Err(unexpected_attribute(self.expecting(), "string data"))
    }
}

impl LoadAttribute for PrimitiveLoader<i64> {
    type Output = i64;

    fn load_binary_buffered(self, bytes: Vec<u8>, len: u64) -> (r: crate::pull_parser::Result<Self::Output>) {
        self.load_binary(bytes, len)
    }

    fn load_string_buffered(self, bytes: Vec<u8>, len: u64) -> (r: crate::pull_parser::Result<Self::Output>) {
        self.load_string(bytes, len)
    }

    open spec fn spec_expecting(&self) -> Seq<char> {
        "single i64"@
    }

    open spec fn loads_bool(self, v: bool, r: Result<i64>) -> bool {
        (r matches Err(e) && is_unexpected_attribute(e, self.spec_expecting(), "boolean"@))
    }

    open spec fn loads_i16(self, v: i16, r: Result<i64>) -> bool {
        (r matches Err(e) && is_unexpected_attribute(e, self.spec_expecting(), "i16"@))
    }

    open spec fn loads_i32(self, v: i32, r: Result<i64>) -> bool {
        (r matches Err(e) && is_unexpected_attribute(e, self.spec_expecting(), "i32"@))
    }

    open spec fn loads_i64(self, v: i64, r: Result<i64>) -> bool {
        r == Ok::<i64, Error>(v)
    }

    open spec fn loads_f32(self, v: u32, r: Result<i64>) -> bool {
        (r matches Err(e) && is_unexpected_attribute(e, self.spec_expecting(), "f32"@))
    }

    open spec fn loads_f64(self, v: u64, r: Result<i64>) -> bool {
        (r matches Err(e) && is_unexpected_attribute(e, self.spec_expecting(), "f64"@))
    }

    open spec fn loads_seq_bool(self, before: BooleanArrayAttributeValues, after: BooleanArrayAttributeValues, r: Result<i64>) -> bool {
        (r matches Err(e) && is_unexpected_attribute(e, self.spec_expecting(), "boolean array"@)) && after == before
    }

    open spec fn loads_seq_i32(self, before: ArrayAttributeValues<i32>, after: ArrayAttributeValues<i32>, r: Result<i64>) -> bool {
        (r matches Err(e) && is_unexpected_attribute(e, self.spec_expecting(), "i32 array"@)) && after == before
    }

    open spec fn loads_seq_i64(self, before: ArrayAttributeValues<i64>, after: ArrayAttributeValues<i64>, r: Result<i64>) -> bool {
        (r matches Err(e) && is_unexpected_attribute(e, self.spec_expecting(), "i64 array"@)) && after == before
    }

    open spec fn loads_seq_f32(self, before: ArrayAttributeValues<u32>, after: ArrayAttributeValues<u32>, r: Result<i64>) -> bool {
        (r matches Err(e) && is_unexpected_attribute(e, self.spec_expecting(), "f32 array"@)) && after == before
    }

    open spec fn loads_seq_f64(self, before: ArrayAttributeValues<u64>, after: ArrayAttributeValues<u64>, r: Result<i64>) -> bool {
        (r matches Err(e) && is_unexpected_attribute(e, self.spec_expecting(), "f64 array"@)) && after == before
    }

    open spec fn loads_binary(self, bytes: Seq<u8>, r: Result<i64>) -> bool {
        (r matches Err(e) && is_unexpected_attribute(e, self.spec_expecting(), "binary data"@))
    }

    open spec fn loads_string(self, bytes: Seq<u8>, r: Result<i64>) -> bool {
        (r matches Err(e) && is_unexpected_attribute(e, self.spec_expecting(), "string data"@))
    }

    fn expecting(&self) -> (s: String) {
        "single i64".to_owned()
    }

    fn load_bool(self, v: bool) -> (r: Result<i64>) {
        Err(unexpected_attribute(self.expecting(), "boolean"))
    }

    fn load_i16(self, v: i16) -> (r: Result<i64>) {
        Err(unexpected_attribute(self.expecting(), "i16"))
    }

    fn load_i32(self, v: i32) -> (r: Result<i64>) {
        Err(unexpected_attribute(self.expecting(), "i32"))
    }

    fn load_i64(self, v: i64) -> (r: Result<i64>) {
        Ok(v)
    }

    fn load_f32(self, v: u32) -> (r: Result<i64>) {
        Err(unexpected_attribute(self.expecting(), "f32"))
    }

    fn load_f64(self, v: u64) -> (r: Result<i64>) {
        Err(unexpected_attribute(self.expecting(), "f64"))
    }

    fn load_seq_bool(self, iter: &mut BooleanArrayAttributeValues, len: usize) -> (r: Result<i64>) {
        Err(unexpected_attribute(self.expecting(), "boolean array"))
    }

    fn load_seq_i32(self, iter: &mut ArrayAttributeValues<i32>, len: usize) -> (r: Result<i64>) {
        Err(unexpected_attribute(self.expecting(), "i32 array"))
    }

    fn load_seq_i64(self, iter: &mut ArrayAttributeValues<i64>, len: usize) -> (r: Result<i64>) {
        Err(unexpected_attribute(self.expecting(), "i64 array"))
    }

    fn load_seq_f32(self, iter: &mut ArrayAttributeValues<u32>, len: usize) -> (r: Result<i64>) {
        Err(unexpected_attribute(self.expecting(), "f32 array"))
    }

    fn load_seq_f64(self, iter: &mut ArrayAttributeValues<u64>, len: usize) -> (r: Result<i64>) {
        Err(unexpected_attribute(self.expecting(), "f64 array"))
    }

    fn load_binary(self, bytes: Vec<u8>, len: u64) -> (r: Result<i64>) {
        Err(unexpected_attribute(self.expecting(), "binary data"))
    }

    fn load_string(self, bytes: Vec<u8>, len: u64) -> (r: Result<i64>) {
        Err(unexpected_attribute(self.expecting(), "string data"))
    }
}

/// Loader for array types.
///
/// Supported types are: `Vec<{bool, i32, i64}>`.
#[derive(Default, Debug)]
pub struct ArrayLoader<T>(PhantomData<T>);

impl LoadAttribute for ArrayLoader<Vec<bool>> {
    type Output = Vec<bool>;

    fn load_binary_buffered(self, bytes: Vec<u8>, len: u64) -> (r: crate::pull_parser::Result<Self::Output>) {
        self.load_binary(bytes, len)
    }

    fn load_string_buffered(self, bytes: Vec<u8>, len: u64) -> (r: crate::pull_parser::Result<Self::Output>) {
        self.load_string(bytes, len)
    }

    open spec fn spec_expecting(&self) -> Seq<char> {
        "boolean array"@
    }

    open spec fn loads_bool(self, v: bool, r: Result<Vec<bool>>) -> bool {
        (r matches Err(e) && is_unexpected_attribute(e, self.spec_expecting(), "boolean"@))
    }

    open spec fn loads_i16(self, v: i16, r: Result<Vec<bool>>) -> bool {
        (r matches Err(e) && is_unexpected_attribute(e, self.spec_expecting(), "i16"@))
    }

    open spec fn loads_i32(self, v: i32, r: Result<Vec<bool>>) -> bool {
        (r matches Err(e) && is_unexpected_attribute(e, self.spec_expecting(), "i32"@))
    }

    open spec fn loads_i64(self, v: i64, r: Result<Vec<bool>>) -> bool {
        (r matches Err(e) && is_unexpected_attribute(e, self.spec_expecting(), "i64"@))
    }

    open spec fn loads_f32(self, v: u32, r: Result<Vec<bool>>) -> bool {
        (r matches Err(e) && is_unexpected_attribute(e, self.spec_expecting(), "f32"@))
    }

    open spec fn loads_f64(self, v: u64, r: Result<Vec<bool>>) -> bool {
        (r matches Err(e) && is_unexpected_attribute(e, self.spec_expecting(), "f64"@))
    }

    open spec fn loads_seq_bool(self, before: BooleanArrayAttributeValues, after: BooleanArrayAttributeValues, r: Result<Vec<bool>>) -> bool {
        collects_bools(before, after, vec_result_view(r))
    }

    open spec fn loads_seq_i32(self, before: ArrayAttributeValues<i32>, after: ArrayAttributeValues<i32>, r: Result<Vec<bool>>) -> bool {
        (r matches Err(e) && is_unexpected_attribute(e, self.spec_expecting(), "i32 array"@)) && after == before
    }

    open spec fn loads_seq_i64(self, before: ArrayAttributeValues<i64>, after: ArrayAttributeValues<i64>, r: Result<Vec<bool>>) -> bool {
        (r matches Err(e) && is_unexpected_attribute(e, self.spec_expecting(), "i64 array"@)) && after == before
    }

    open spec fn loads_seq_f32(self, before: ArrayAttributeValues<u32>, after: ArrayAttributeValues<u32>, r: Result<Vec<bool>>) -> bool {
        (r matches Err(e) && is_unexpected_attribute(e, self.spec_expecting(), "f32 array"@)) && after == before
    }

    open spec fn loads_seq_f64(self, before: ArrayAttributeValues<u64>, after: ArrayAttributeValues<u64>, r: Result<Vec<bool>>) -> bool {
        (r matches Err(e) && is_unexpected_attribute(e, self.spec_expecting(), "f64 array"@)) && after == before
    }

    open spec fn loads_binary(self, bytes: Seq<u8>, r: Result<Vec<bool>>) -> bool {
        (r matches Err(e) && is_unexpected_attribute(e, self.spec_expecting(), "binary data"@))
    }

    open spec fn loads_string(self, bytes: Seq<u8>, r: Result<Vec<bool>>) -> bool {
        (r matches Err(e) && is_unexpected_attribute(e, self.spec_expecting(), "string data"@))
    }

    fn expecting(&self) -> (s: String) {
        "boolean array".to_owned()
    }

    fn load_bool(self, v: bool) -> (r: Result<Vec<bool>>) {
        Err(unexpected_attribute(self.expecting(), "boolean"))
    }

    fn load_i16(self, v: i16) -> (r: Result<Vec<bool>>) {
        Err(unexpected_attribute(self.expecting(), "i16"))
    }

    fn load_i32(self, v: i32) -> (r: Result<Vec<bool>>) {
        Err(unexpected_attribute(self.expecting(), "i32"))
    }

    fn load_i64(self, v: i64) -> (r: Result<Vec<bool>>) {
        Err(unexpected_attribute(self.expecting(), "i64"))
    }

    fn load_f32(self, v: u32) -> (r: Result<Vec<bool>>) {
        Err(unexpected_attribute(self.expecting(), "f32"))
    }

    fn load_f64(self, v: u64) -> (r: Result<Vec<bool>>) {
        Err(unexpected_attribute(self.expecting(), "f64"))
    }

    fn load_seq_bool(self, iter: &mut BooleanArrayAttributeValues, len: usize) -> (r: Result<Vec<bool>>) {
        iter.collect_values()
    }

    fn load_seq_i32(self, iter: &mut ArrayAttributeValues<i32>, len: usize) -> (r: Result<Vec<bool>>) {
        Err(unexpected_attribute(self.expecting(), "i32 array"))
    }

    fn load_seq_i64(self, iter: &mut ArrayAttributeValues<i64>, len: usize) -> (r: Result<Vec<bool>>) {
        Err(unexpected_attribute(self.expecting(), "i64 array"))
    }

    fn load_seq_f32(self, iter: &mut ArrayAttributeValues<u32>, len: usize) -> (r: Result<Vec<bool>>) {
        Err(unexpected_attribute(self.expecting(), "f32 array"))
    }

    fn load_seq_f64(self, iter: &mut ArrayAttributeValues<u64>, len: usize) -> (r: Result<Vec<bool>>) {
        Err(unexpected_attribute(self.expecting(), "f64 array"))
    }

    fn load_binary(self, bytes: Vec<u8>, len: u64) -> (r: Result<Vec<bool>>) {
        Err(unexpected_attribute(self.expecting(), "binary data"))
    }

    fn load_string(self, bytes: Vec<u8>, len: u64) -> (r: Result<Vec<bool>>) {
        Err(unexpected_attribute(self.expecting(), "string data"))
    }
}

impl LoadAttribute for ArrayLoader<Vec<i32>> {
    type Output = Vec<i32>;

    fn load_binary_buffered(self, bytes: Vec<u8>, len: u64) -> (r: crate::pull_parser::Result<Self::Output>) {
        self.load_binary(bytes, len)
    }

    fn load_string_buffered(self, bytes: Vec<u8>, len: u64) -> (r: crate::pull_parser::Result<Self::Output>) {
        self.load_string(bytes, len)
    }

    open spec fn spec_expecting(&self) -> Seq<char> {
        "i32 array"@
    }

    open spec fn loads_bool(self, v: bool, r: Result<Vec<i32>>) -> bool {
        (r matches Err(e) && is_unexpected_attribute(e, self.spec_expecting(), "boolean"@))
    }

    open spec fn loads_i16(self, v: i16, r: Result<Vec<i32>>) -> bool {
        (r matches Err(e) && is_unexpected_attribute(e, self.spec_expecting(), "i16"@))
    }

    open spec fn loads_i32(self, v: i32, r: Result<Vec<i32>>) -> bool {
        (r matches Err(e) && is_unexpected_attribute(e, self.spec_expecting(), "i32"@))
    }

    open spec fn loads_i64(self, v: i64, r: Result<Vec<i32>>) -> bool {
        (r matches Err(e) && is_unexpected_attribute(e, self.spec_expecting(), "i64"@))
    }

    open spec fn loads_f32(self, v: u32, r: Result<Vec<i32>>) -> bool {
        (r matches Err(e) && is_unexpected_attribute(e, self.spec_expecting(), "f32"@))
    }

    open spec fn loads_f64(self, v: u64, r: Result<Vec<i32>>) -> bool {
        (r matches Err(e) && is_unexpected_attribute(e, self.spec_expecting(), "f64"@))
    }

    open spec fn loads_seq_bool(self, before: BooleanArrayAttributeValues, after: BooleanArrayAttributeValues, r: Result<Vec<i32>>) -> bool {
        (r matches Err(e) && is_unexpected_attribute(e, self.spec_expecting(), "boolean array"@)) && after == before
    }

    open spec fn loads_seq_i32(self, before: ArrayAttributeValues<i32>, after: ArrayAttributeValues<i32>, r: Result<Vec<i32>>) -> bool {
        collects_i32(before, after, vec_result_view(r))
    }

    open spec fn loads_seq_i64(self, before: ArrayAttributeValues<i64>, after: ArrayAttributeValues<i64>, r: Result<Vec<i32>>) -> bool {
        (r matches Err(e) && is_unexpected_attribute(e, self.spec_expecting(), "i64 array"@)) && after == before
    }

    open spec fn loads_seq_f32(self, before: ArrayAttributeValues<u32>, after: ArrayAttributeValues<u32>, r: Result<Vec<i32>>) -> bool {
        (r matches Err(e) && is_unexpected_attribute(e, self.spec_expecting(), "f32 array"@)) && after == before
    }

    open spec fn loads_seq_f64(self, before: ArrayAttributeValues<u64>, after: ArrayAttributeValues<u64>, r: Result<Vec<i32>>) -> bool {
        (r matches Err(e) && is_unexpected_attribute(e, self.spec_expecting(), "f64 array"@)) && after == before
    }

    open spec fn loads_binary(self, bytes: Seq<u8>, r: Result<Vec<i32>>) -> bool {
        (r matches Err(e) && is_unexpected_attribute(e, self.spec_expecting(), "binary data"@))
    }

    open spec fn loads_string(self, bytes: Seq<u8>, r: Result<Vec<i32>>) -> bool {
        (r matches Err(e) && is_unexpected_attribute(e, self.spec_expecting(), "string data"@))
    }

    fn expecting(&self) -> (s: String) {
        "i32 array".to_owned()
    }

    fn load_bool(self, v: bool) -> (r: Result<Vec<i32>>) {
        Err(unexpected_attribute(self.expecting(), "boolean"))
    }

    fn load_i16(self, v: i16) -> (r: Result<Vec<i32>>) {
        Err(unexpected_attribute(self.expecting(), "i16"))
    }

    fn load_i32(self, v: i32) -> (r: Result<Vec<i32>>) {
        Err(unexpected_attribute(self.expecting(), "i32"))
    }

    fn load_i64(self, v: i64) -> (r: Result<Vec<i32>>) {
        Err(unexpected_attribute(self.expecting(), "i64"))
    }

    fn load_f32(self, v: u32) -> (r: Result<Vec<i32>>) {
        Err(unexpected_attribute(self.expecting(), "f32"))
    }

    fn load_f64(self, v: u64) -> (r: Result<Vec<i32>>) {
        Err(unexpected_attribute(self.expecting(), "f64"))
    }

    fn load_seq_bool(self, iter: &mut BooleanArrayAttributeValues, len: usize) -> (r: Result<Vec<i32>>) {
        Err(unexpected_attribute(self.expecting(), "boolean array"))
    }

    fn load_seq_i32(self, iter: &mut ArrayAttributeValues<i32>, len: usize) -> (r: Result<Vec<i32>>) {
        iter.collect_values()
    }

    fn load_seq_i64(self, iter: &mut ArrayAttributeValues<i64>, len: usize) -> (r: Result<Vec<i32>>) {
        Err(unexpected_attribute(self.expecting(), "i64 array"))
    }

    fn load_seq_f32(self, iter: &mut ArrayAttributeValues<u32>, len: usize) -> (r: Result<Vec<i32>>) {
        Err(unexpected_attribute(self.expecting(), "f32 array"))
    }

    fn load_seq_f64(self, iter: &mut ArrayAttributeValues<u64>, len: usize) -> (r: Result<Vec<i32>>) {
        Err(unexpected_attribute(self.expecting(), "f64 array"))
    }

    fn load_binary(self, bytes: Vec<u8>, len: u64) -> (r: Result<Vec<i32>>) {
        Err(unexpected_attribute(self.expecting(), "binary data"))
    }

    fn load_string(self, bytes: Vec<u8>, len: u64) -> (r: Result<Vec<i32>>) {
        Err(unexpected_attribute(self.expecting(), "string data"))
    }
}

impl LoadAttribute for ArrayLoader<Vec<i64>> {
    type Output = Vec<i64>;

    fn load_binary_buffered(self, bytes: Vec<u8>, len: u64) -> (r: crate::pull_parser::Result<Self::Output>) {
        self.load_binary(bytes, len)
    }

    fn load_string_buffered(self, bytes: Vec<u8>, len: u64) -> (r: crate::pull_parser::Result<Self::Output>) {
        self.load_string(bytes, len)
    }

    open spec fn spec_expecting(&self) -> Seq<char> {
        "i64 array"@
    }

    open spec fn loads_bool(self, v: bool, r: Result<Vec<i64>>) -> bool {
        (r matches Err(e) && is_unexpected_attribute(e, self.spec_expecting(), "boolean"@))
    }

    open spec fn loads_i16(self, v: i16, r: Result<Vec<i64>>) -> bool {
        (r matches Err(e) && is_unexpected_attribute(e, self.spec_expecting(), "i16"@))
    }

    open spec fn loads_i32(self, v: i32, r: Result<Vec<i64>>) -> bool {
        (r matches Err(e) && is_unexpected_attribute(e, self.spec_expecting(), "i32"@))
    }

    open spec fn loads_i64(self, v: i64, r: Result<Vec<i64>>) -> bool {
        (r matches Err(e) && is_unexpected_attribute(e, self.spec_expecting(), "i64"@))
    }

    open spec fn loads_f32(self, v: u32, r: Result<Vec<i64>>) -> bool {
        (r matches Err(e) && is_unexpected_attribute(e, self.spec_expecting(), "f32"@))
    }

    open spec fn loads_f64(self, v: u64, r: Result<Vec<i64>>) -> bool {
        (r matches Err(e) && is_unexpected_attribute(e, self.spec_expecting(), "f64"@))
    }

    open spec fn loads_seq_bool(self, before: BooleanArrayAttributeValues, after: BooleanArrayAttributeValues, r: Result<Vec<i64>>) -> bool {
        (r matches Err(e) && is_unexpected_attribute(e, self.spec_expecting(), "boolean array"@)) && after == before
    }

    open spec fn loads_seq_i32(self, before: ArrayAttributeValues<i32>, after: ArrayAttributeValues<i32>, r: Result<Vec<i64>>) -> bool {
        (r matches Err(e) && is_unexpected_attribute(e, self.spec_expecting(), "i32 array"@)) && after == before
    }

    open spec fn loads_seq_i64(self, before: ArrayAttributeValues<i64>, after: ArrayAttributeValues<i64>, r: Result<Vec<i64>>) -> bool {
        collects_i64(before, after, vec_result_view(r))
    }

    open spec fn loads_seq_f32(self, before: ArrayAttributeValues<u32>, after: ArrayAttributeValues<u32>, r: Result<Vec<i64>>) -> bool {
        (r matches Err(e) && is_unexpected_attribute(e, self.spec_expecting(), "f32 array"@)) && after == before
    }

    open spec fn loads_seq_f64(self, before: ArrayAttributeValues<u64>, after: ArrayAttributeValues<u64>, r: Result<Vec<i64>>) -> bool {
        (r matches Err(e) && is_unexpected_attribute(e, self.spec_expecting(), "f64 array"@)) && after == before
    }

    open spec fn loads_binary(self, bytes: Seq<u8>, r: Result<Vec<i64>>) -> bool {
        (r matches Err(e) && is_unexpected_attribute(e, self.spec_expecting(), "binary data"@))
    }

    open spec fn loads_string(self, bytes: Seq<u8>, r: Result<Vec<i64>>) -> bool {
        (r matches Err(e) && is_unexpected_attribute(e, self.spec_expecting(), "string data"@))
    }

    fn expecting(&self) -> (s: String) {
        "i64 array".to_owned()
    }

    fn load_bool(self, v: bool) -> (r: Result<Vec<i64>>) {
        Err(unexpected_attribute(self.expecting(), "boolean"))
    }

    fn load_i16(self, v: i16) -> (r: Result<Vec<i64>>) {
        Err(unexpected_attribute(self.expecting(), "i16"))
    }

    fn load_i32(self, v: i32) -> (r: Result<Vec<i64>>) {
        Err(unexpected_attribute(self.expecting(), "i32"))
    }

    fn load_i64(self, v: i64) -> (r: Result<Vec<i64>>) {
        Err(unexpected_attribute(self.expecting(), "i64"))
    }

    fn load_f32(self, v: u32) -> (r: Result<Vec<i64>>) {
        Err(unexpected_attribute(self.expecting(), "f32"))
    }

    fn load_f64(self, v: u64) -> (r: Result<Vec<i64>>) {
        Err(unexpected_attribute(self.expecting(), "f64"))
    }

    fn load_seq_bool(self, iter: &mut BooleanArrayAttributeValues, len: usize) -> (r: Result<Vec<i64>>) {
        Err(unexpected_attribute(self.expecting(), "boolean array"))
    }

    fn load_seq_i32(self, iter: &mut ArrayAttributeValues<i32>, len: usize) -> (r: Result<Vec<i64>>) {
        Err(unexpected_attribute(self.expecting(), "i32 array"))
    }

    fn load_seq_i64(self, iter: &mut ArrayAttributeValues<i64>, len: usize) -> (r: Result<Vec<i64>>) {
        iter.collect_values()
    }

    fn load_seq_f32(self, iter: &mut ArrayAttributeValues<u32>, len: usize) -> (r: Result<Vec<i64>>) {
        Err(unexpected_attribute(self.expecting(), "f32 array"))
    }

    fn load_seq_f64(self, iter: &mut ArrayAttributeValues<u64>, len: usize) -> (r: Result<Vec<i64>>) {
        Err(unexpected_attribute(self.expecting(), "f64 array"))
    }

    fn load_binary(self, bytes: Vec<u8>, len: u64) -> (r: Result<Vec<i64>>) {
        Err(unexpected_attribute(self.expecting(), "binary data"))
    }

    fn load_string(self, bytes: Vec<u8>, len: u64) -> (r: Result<Vec<i64>>) {
        Err(unexpected_attribute(self.expecting(), "string data"))
    }
}

/// Loader for a binary.
#[derive(Default, Debug, Clone, Copy, PartialEq, Eq, Hash)]
pub struct BinaryLoader;

impl LoadAttribute for BinaryLoader {
    type Output = Vec<u8>;

    fn load_binary_buffered(self, bytes: Vec<u8>, len: u64) -> (r: crate::pull_parser::Result<Self::Output>) {
        self.load_binary(bytes, len)
    }

    fn load_string_buffered(self, bytes: Vec<u8>, len: u64) -> (r: crate::pull_parser::Result<Self::Output>) {
        self.load_string(bytes, len)
    }

    open spec fn spec_expecting(&self) -> Seq<char> {
        "binary"@
    }

    open spec fn loads_bool(self, v: bool, r: Result<Vec<u8>>) -> bool {
        (r matches Err(e) && is_unexpected_attribute(e, self.spec_expecting(), "boolean"@))
    }

    open spec fn loads_i16(self, v: i16, r: Result<Vec<u8>>) -> bool {
        (r matches Err(e) && is_unexpected_attribute(e, self.spec_expecting(), "i16"@))
    }

    open spec fn loads_i32(self, v: i32, r: Result<Vec<u8>>) -> bool {
        (r matches Err(e) && is_unexpected_attribute(e, self.spec_expecting(), "i32"@))
    }

    open spec fn loads_i64(self, v: i64, r: Result<Vec<u8>>) -> bool {
        (r matches Err(e) && is_unexpected_attribute(e, self.spec_expecting(), "i64"@))
    }

    open spec fn loads_f32(self, v: u32, r: Result<Vec<u8>>) -> bool {
        (r matches Err(e) && is_unexpected_attribute(e, self.spec_expecting(), "f32"@))
    }

    open spec fn loads_f64(self, v: u64, r: Result<Vec<u8>>) -> bool {
        (r matches Err(e) && is_unexpected_attribute(e, self.spec_expecting(), "f64"@))
    }

    open spec fn loads_seq_bool(self, before: BooleanArrayAttributeValues, after: BooleanArrayAttributeValues, r: Result<Vec<u8>>) -> bool {
        (r matches Err(e) && is_unexpected_attribute(e, self.spec_expecting(), "boolean array"@)) && after == before
    }

    open spec fn loads_seq_i32(self, before: ArrayAttributeValues<i32>, after: ArrayAttributeValues<i32>, r: Result<Vec<u8>>) -> bool {
        (r matches Err(e) && is_unexpected_attribute(e, self.spec_expecting(), "i32 array"@)) && after == before
    }

    open spec fn loads_seq_i64(self, before: ArrayAttributeValues<i64>, after: ArrayAttributeValues<i64>, r: Result<Vec<u8>>) -> bool {
        (r matches Err(e) && is_unexpected_attribute(e, self.spec_expecting(), "i64 array"@)) && after == before
    }

    open spec fn loads_seq_f32(self, before: ArrayAttributeValues<u32>, after: ArrayAttributeValues<u32>, r: Result<Vec<u8>>) -> bool {
        (r matches Err(e) && is_unexpected_attribute(e, self.spec_expecting(), "f32 array"@)) && after == before
    }

    open spec fn loads_seq_f64(self, before: ArrayAttributeValues<u64>, after: ArrayAttributeValues<u64>, r: Result<Vec<u8>>) -> bool {
        (r matches Err(e) && is_unexpected_attribute(e, self.spec_expecting(), "f64 array"@)) && after == before
    }

    open spec fn loads_binary(self, bytes: Seq<u8>, r: Result<Vec<u8>>) -> bool {
        r matches Ok(v) && v@ == bytes
    }

    open spec fn loads_string(self, bytes: Seq<u8>, r: Result<Vec<u8>>) -> bool {
        (r matches Err(e) && is_unexpected_attribute(e, self.spec_expecting(), "string data"@))
    }

    fn expecting(&self) -> (s: String) {
        "binary".to_owned()
    }

    fn load_bool(self, v: bool) -> (r: Result<Vec<u8>>) {
        Err(unexpected_attribute(self.expecting(), "boolean"))
    }

    fn load_i16(self, v: i16) -> (r: Result<Vec<u8>>) {
        Err(unexpected_attribute(self.expecting(), "i16"))
    }

    fn load_i32(self, v: i32) -> (r: Result<Vec<u8>>) {
        Err(unexpected_attribute(self.expecting(), "i32"))
    }

    fn load_i64(self, v: i64) -> (r: Result<Vec<u8>>) {
        Err(unexpected_attribute(self.expecting(), "i64"))
    }

    fn load_f32(self, v: u32) -> (r: Result<Vec<u8>>) {
        Err(unexpected_attribute(self.expecting(), "f32"))
    }

    fn load_f64(self, v: u64) -> (r: Result<Vec<u8>>) {
        Err(unexpected_attribute(self.expecting(), "f64"))
    }

    fn load_seq_bool(self, iter: &mut BooleanArrayAttributeValues, len: usize) -> (r: Result<Vec<u8>>) {
        Err(unexpected_attribute(self.expecting(), "boolean array"))
    }

    fn load_seq_i32(self, iter: &mut ArrayAttributeValues<i32>, len: usize) -> (r: Result<Vec<u8>>) {
        Err(unexpected_attribute(self.expecting(), "i32 array"))
    }

    fn load_seq_i64(self, iter: &mut ArrayAttributeValues<i64>, len: usize) -> (r: Result<Vec<u8>>) {
        Err(unexpected_attribute(self.expecting(), "i64 array"))
    }

    fn load_seq_f32(self, iter: &mut ArrayAttributeValues<u32>, len: usize) -> (r: Result<Vec<u8>>) {
        Err(unexpected_attribute(self.expecting(), "f32 array"))
    }

    fn load_seq_f64(self, iter: &mut ArrayAttributeValues<u64>, len: usize) -> (r: Result<Vec<u8>>) {
        Err(unexpected_attribute(self.expecting(), "f64 array"))
    }

    fn load_binary(self, bytes: Vec<u8>, len: u64) -> (r: Result<Vec<u8>>) {
        Ok(bytes)
    }

    fn load_string(self, bytes: Vec<u8>, len: u64) -> (r: Result<Vec<u8>>) {
        Err(unexpected_attribute(self.expecting(), "string data"))
    }
}

/// Loader for a string.
#[derive(Default, Debug, Clone, Copy, PartialEq, Eq, Hash)]
pub struct StringLoader;

impl LoadAttribute for StringLoader {
    type Output = String;

    fn load_binary_buffered(self, bytes: Vec<u8>, len: u64) -> (r: crate::pull_parser::Result<Self::Output>) {
        self.load_binary(bytes, len)
    }

    fn load_string_buffered(self, bytes: Vec<u8>, len: u64) -> (r: crate::pull_parser::Result<Self::Output>) {
        self.load_string(bytes, len)
    }

    open spec fn spec_expecting(&self) -> Seq<char> {
        "string"@
    }

    open spec fn loads_bool(self, v: bool, r: Result<String>) -> bool {
        (r matches Err(e) && is_unexpected_attribute(e, self.spec_expecting(), "boolean"@))
    }

    open spec fn loads_i16(self, v: i16, r: Result<String>) -> bool {
        (r matches Err(e) && is_unexpected_attribute(e, self.spec_expecting(), "i16"@))
    }

    open spec fn loads_i32(self, v: i32, r: Result<String>) -> bool {
        (r matches Err(e) && is_unexpected_attribute(e, self.spec_expecting(), "i32"@))
    }

    open spec fn loads_i64(self, v: i64, r: Result<String>) -> bool {
        (r matches Err(e) && is_unexpected_attribute(e, self.spec_expecting(), "i64"@))
    }

    open spec fn loads_f32(self, v: u32, r: Result<String>) -> bool {
        (r matches Err(e) && is_unexpected_attribute(e, self.spec_expecting(), "f32"@))
    }

    open spec fn loads_f64(self, v: u64, r: Result<String>) -> bool {
        (r matches Err(e) && is_unexpected_attribute(e, self.spec_expecting(), "f64"@))
    }

    open spec fn loads_seq_bool(self, before: BooleanArrayAttributeValues, after: BooleanArrayAttributeValues, r: Result<String>) -> bool {
        (r matches Err(e) && is_unexpected_attribute(e, self.spec_expecting(), "boolean array"@)) && after == before
    }

    open spec fn loads_seq_i32(self, before: ArrayAttributeValues<i32>, after: ArrayAttributeValues<i32>, r: Result<String>) -> bool {
        (r matches Err(e) && is_unexpected_attribute(e, self.spec_expecting(), "i32 array"@)) && after == before
    }

    open spec fn loads_seq_i64(self, before: ArrayAttributeValues<i64>, after: ArrayAttributeValues<i64>, r: Result<String>) -> bool {
        (r matches Err(e) && is_unexpected_attribute(e, self.spec_expecting(), "i64 array"@)) && after == before
    }

    open spec fn loads_seq_f32(self, before: ArrayAttributeValues<u32>, after: ArrayAttributeValues<u32>, r: Result<String>) -> bool {
        (r matches Err(e) && is_unexpected_attribute(e, self.spec_expecting(), "f32 array"@)) && after == before
    }

    open spec fn loads_seq_f64(self, before: ArrayAttributeValues<u64>, after: ArrayAttributeValues<u64>, r: Result<String>) -> bool {
        (r matches Err(e) && is_unexpected_attribute(e, self.spec_expecting(), "f64 array"@)) && after == before
    }

    open spec fn loads_binary(self, bytes: Seq<u8>, r: Result<String>) -> bool {
        (r matches Err(e) && is_unexpected_attribute(e, self.spec_expecting(), "binary data"@))
    }

    open spec fn loads_string(self, bytes: Seq<u8>, r: Result<String>) -> bool {
        reads_utf8(bytes, r)
    }

    fn expecting(&self) -> (s: String) {
        "string".to_owned()
    }

    fn load_bool(self, v: bool) -> (r: Result<String>) {
        Err(unexpected_attribute(self.expecting(), "boolean"))
    }

    fn load_i16(self, v: i16) -> (r: Result<String>) {
        Err(unexpected_attribute(self.expecting(), "i16"))
    }

    fn load_i32(self, v: i32) -> (r: Result<String>) {
        Err(unexpected_attribute(self.expecting(), "i32"))
    }

    fn load_i64(self, v: i64) -> (r: Result<String>) {
        Err(unexpected_attribute(self.expecting(), "i64"))
    }

    fn load_f32(self, v: u32) -> (r: Result<String>) {
        Err(unexpected_attribute(self.expecting(), "f32"))
    }

    fn load_f64(self, v: u64) -> (r: Result<String>) {
        Err(unexpected_attribute(self.expecting(), "f64"))
    }

    fn load_seq_bool(self, iter: &mut BooleanArrayAttributeValues, len: usize) -> (r: Result<String>) {
        Err(unexpected_attribute(self.expecting(), "boolean array"))
    }

    fn load_seq_i32(self, iter: &mut ArrayAttributeValues<i32>, len: usize) -> (r: Result<String>) {
        Err(unexpected_attribute(self.expecting(), "i32 array"))
    }

    fn load_seq_i64(self, iter: &mut ArrayAttributeValues<i64>, len: usize) -> (r: Result<String>) {
        Err(unexpected_attribute(self.expecting(), "i64 array"))
    }

    fn load_seq_f32(self, iter: &mut ArrayAttributeValues<u32>, len: usize) -> (r: Result<String>) {
        Err(unexpected_attribute(self.expecting(), "f32 array"))
    }

    fn load_seq_f64(self, iter: &mut ArrayAttributeValues<u64>, len: usize) -> (r: Result<String>) {
        Err(unexpected_attribute(self.expecting(), "f64 array"))
    }

    fn load_binary(self, bytes: Vec<u8>, len: u64) -> (r: Result<String>) {
        Err(unexpected_attribute(self.expecting(), "binary data"))
    }

    fn load_string(self, bytes: Vec<u8>, len: u64) -> (r: Result<String>) {
        read_utf8(bytes)
    }
}

} // verus!
