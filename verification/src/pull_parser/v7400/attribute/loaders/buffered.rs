//! Loader adapter for buffered loading.

use vstd::prelude::*;

use crate::pull_parser::v7400::attribute::{
    ArrayAttributeValues, BooleanArrayAttributeValues, LoadAttribute,
};
use crate::pull_parser::Result;

verus! {

/// A loader that loads binary and string values with the buffered methods
/// (`load_binary_buffered`, `load_string_buffered`) of the loader it holds,
/// and every other value as that loader does.
#[derive(Debug, Clone, Copy, PartialEq, Eq, Hash)]
pub struct BufferedLoader<V>(pub V);

impl<V: LoadAttribute> LoadAttribute for BufferedLoader<V> {
    type Output = V::Output;

    open spec fn spec_expecting(&self) -> Seq<char> {
        self.0.spec_expecting()
    }

    open spec fn loads_bool(self, v: bool, r: Result<V::Output>) -> bool {
        self.0.loads_bool(v, r)
    }

    open spec fn loads_i16(self, v: i16, r: Result<V::Output>) -> bool {
        self.0.loads_i16(v, r)
    }

    open spec fn loads_i32(self, v: i32, r: Result<V::Output>) -> bool {
        self.0.loads_i32(v, r)
    }

    open spec fn loads_i64(self, v: i64, r: Result<V::Output>) -> bool {
        self.0.loads_i64(v, r)
    }

    open spec fn loads_f32(self, v: u32, r: Result<V::Output>) -> bool {
        self.0.loads_f32(v, r)
    }

    open spec fn loads_f64(self, v: u64, r: Result<V::Output>) -> bool {
        self.0.loads_f64(v, r)
    }

    open spec fn loads_seq_bool(
        self,
        before: BooleanArrayAttributeValues,
        after: BooleanArrayAttributeValues,
        r: Result<V::Output>,
    ) -> bool {
        self.0.loads_seq_bool(before, after, r)
    }

    open spec fn loads_seq_i32(
        self,
        before: ArrayAttributeValues<i32>,
        after: ArrayAttributeValues<i32>,
        r: Result<V::Output>,
    ) -> bool {
        self.0.loads_seq_i32(before, after, r)
    }

    open spec fn loads_seq_i64(
        self,
        before: ArrayAttributeValues<i64>,
        after: ArrayAttributeValues<i64>,
        r: Result<V::Output>,
    ) -> bool {
        self.0.loads_seq_i64(before, after, r)
    }

    open spec fn loads_seq_f32(
        self,
        before: ArrayAttributeValues<u32>,
        after: ArrayAttributeValues<u32>,
        r: Result<V::Output>,
    ) -> bool {
        self.0.loads_seq_f32(before, after, r)
    }

    open spec fn loads_seq_f64(
        self,
        before: ArrayAttributeValues<u64>,
        after: ArrayAttributeValues<u64>,
        r: Result<V::Output>,
    ) -> bool {
        self.0.loads_seq_f64(before, after, r)
    }

    open spec fn loads_binary(self, bytes: Seq<u8>, r: Result<V::Output>) -> bool {
        self.0.loads_binary_buffered(bytes, r)
    }

    open spec fn loads_string(self, bytes: Seq<u8>, r: Result<V::Output>) -> bool {
        self.0.loads_string_buffered(bytes, r)
    }

    fn expecting(&self) -> (s: String) {
        self.0.expecting()
    }

    fn load_bool(self, v: bool) -> (r: Result<V::Output>) {
        self.0.load_bool(v)
    }

    fn load_i16(self, v: i16) -> (r: Result<V::Output>) {
        self.0.load_i16(v)
    }

    fn load_i32(self, v: i32) -> (r: Result<V::Output>) {
        self.0.load_i32(v)
    }

    fn load_i64(self, v: i64) -> (r: Result<V::Output>) {
        self.0.load_i64(v)
    }

    fn load_f32(self, v: u32) -> (r: Result<V::Output>) {
        self.0.load_f32(v)
    }

    fn load_f64(self, v: u64) -> (r: Result<V::Output>) {
        self.0.load_f64(v)
    }

    fn load_seq_bool(self, iter: &mut BooleanArrayAttributeValues, len: usize) -> (r: Result<
        V::Output,
    >) {
        self.0.load_seq_bool(iter, len)
    }

    fn load_seq_i32(self, iter: &mut ArrayAttributeValues<i32>, len: usize) -> (r: Result<
        V::Output,
    >) {
        self.0.load_seq_i32(iter, len)
    }

    fn load_seq_i64(self, iter: &mut ArrayAttributeValues<i64>, len: usize) -> (r: Result<
        V::Output,
    >) {
        self.0.load_seq_i64(iter, len)
    }

    fn load_seq_f32(self, iter: &mut ArrayAttributeValues<u32>, len: usize) -> (r: Result<
        V::Output,
    >) {
        self.0.load_seq_f32(iter, len)
    }

    fn load_seq_f64(self, iter: &mut ArrayAttributeValues<u64>, len: usize) -> (r: Result<
        V::Output,
    >) {
        self.0.load_seq_f64(iter, len)
    }

    fn load_binary(self, bytes: Vec<u8>, len: u64) -> (r: Result<V::Output>) {
        self.0.load_binary_buffered(bytes, len)
    }

    fn load_string(self, bytes: Vec<u8>, len: u64) -> (r: Result<V::Output>) {
        self.0.load_string_buffered(bytes, len)
    }

    fn load_binary_buffered(self, bytes: Vec<u8>, len: u64) -> (r: Result<V::Output>) {
        self.load_binary(bytes, len)
    }

    fn load_string_buffered(self, bytes: Vec<u8>, len: u64) -> (r: Result<V::Output>) {
        self.load_string(bytes, len)
    }
}

} // verus!
