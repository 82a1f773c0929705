//! Node attribute loader.

use vstd::prelude::*;
use vstd::utf8::{decode_utf8, valid_utf8};

use crate::pull_parser::error::{DataError, ErrorContainer};
use crate::pull_parser::v7400::attribute::array::{
    is_io_error, spec_has_incorrect_bool, ArrayAttributeValues, BooleanArrayAttributeValues,
};
use crate::pull_parser::{Error, Result};
use crate::stream::IoError;

verus! {

/// Whether `e` is an `UnexpectedAttribute` data error with the given
/// descriptions of the expected and the actual value.
pub open spec fn is_unexpected_attribute(e: Error, expecting: Seq<char>, got: Seq<char>) -> bool {
    &&& e.container() matches ErrorContainer::Data(DataError::UnexpectedAttribute(exp, g))
    &&& exp@ == expecting
    &&& g@ == got
    &&& e.spec_position() is None
}

/// Makes an `UnexpectedAttribute` data error.
pub fn unexpected_attribute(expecting: String, got: &str) -> (e: Error)
    ensures
        is_unexpected_attribute(e, expecting@, got@),
{
    let got: String = got.to_owned();
    Error::new(ErrorContainer::Data(DataError::UnexpectedAttribute(expecting, got)))
}

/// The debugging form (`Debug`) of the error `std`'s `String::from_utf8`
/// gives for the bytes `bytes`.
pub uninterp spec fn spec_utf8_error_debug(bytes: Seq<u8>) -> Seq<char>;

/// Calls `std`'s `String::from_utf8`, which succeeds exactly when the bytes are
/// valid UTF-8, and then holds the characters they encode. Its error
/// (`FromUtf8Error`) is returned as its debugging form, which depends on the
/// bytes alone; the contract only names it.
#[verifier::external_body]
pub(crate) fn std_string_from_utf8(bytes: Vec<u8>) -> (r: std::result::Result<String, String>)
    ensures
        r is Ok <==> valid_utf8(bytes@),
        r matches Ok(s) ==> s@ == decode_utf8(bytes@),
        r matches Err(d) ==> d@ == spec_utf8_error_debug(bytes@),
{
    match String::from_utf8(bytes) {
        Ok(s) => Ok(s),
        Err(e) => Err(format!("{:?}", e)),
    }
}

/// Whether `r` is what reading `bytes` as a UTF-8 string gives: the string, or
/// an `InvalidData` I/O error.
pub open spec fn reads_utf8(bytes: Seq<u8>, r: Result<String>) -> bool {
    &&& valid_utf8(bytes) ==> (r matches Ok(s) && s@ == decode_utf8(bytes))
    &&& !valid_utf8(bytes) ==> (r matches Err(e) && is_io_error(e, IoError::InvalidData))
}

/// Reads the given bytes as a UTF-8 string.
pub fn read_utf8(bytes: Vec<u8>) -> (r: Result<String>)
    ensures
        reads_utf8(bytes@, r),
{
    match std_string_from_utf8(bytes) {
        Ok(s) => Ok(s),
        Err(_) => Err(Error::new(ErrorContainer::Io(IoError::InvalidData))),
    }
}

/// Whether `after` and `r` are what collecting all rest booleans of `before`
/// gives.
pub open spec fn collects_bools(
    before: BooleanArrayAttributeValues,
    after: BooleanArrayAttributeValues,
    r: Result<Seq<bool>>,
) -> bool {
    &&& before.complete() ==> r == Ok::<Seq<bool>, Error>(before.values())
        && after.spec_has_error() == before.spec_has_error()
    &&& !before.complete() ==> (r matches Err(e) && is_io_error(e, before.spec_end_error()))
        && after.spec_has_error()
    &&& after.spec_has_incorrect() == (before.spec_has_incorrect() || spec_has_incorrect_bool(
        before.raw_values(),
    ))
}

/// Whether `after` and `r` are what collecting all rest elements of `before`
/// gives (for `i32` arrays).
pub open spec fn collects_i32(
    before: ArrayAttributeValues<i32>,
    after: ArrayAttributeValues<i32>,
    r: Result<Seq<i32>>,
) -> bool {
    &&& before.complete() ==> r == Ok::<Seq<i32>, Error>(before.values())
        && after.spec_has_error() == before.spec_has_error()
    &&& !before.complete() ==> (r matches Err(e) && is_io_error(e, before.spec_end_error()))
        && after.spec_has_error()
}

/// Whether `after` and `r` are what collecting all rest elements of `before`
/// gives (for `i64` arrays).
pub open spec fn collects_i64(
    before: ArrayAttributeValues<i64>,
    after: ArrayAttributeValues<i64>,
    r: Result<Seq<i64>>,
) -> bool {
    &&& before.complete() ==> r == Ok::<Seq<i64>, Error>(before.values())
        && after.spec_has_error() == before.spec_has_error()
    &&& !before.complete() ==> (r matches Err(e) && is_io_error(e, before.spec_end_error()))
        && after.spec_has_error()
}

/// Whether `after` and `r` are what collecting all rest elements of `before`
/// gives (for `f32` arrays, as bit patterns).
pub open spec fn collects_u32(
    before: ArrayAttributeValues<u32>,
    after: ArrayAttributeValues<u32>,
    r: Result<Seq<u32>>,
) -> bool {
    &&& before.complete() ==> r == Ok::<Seq<u32>, Error>(before.values())
        && after.spec_has_error() == before.spec_has_error()
    &&& !before.complete() ==> (r matches Err(e) && is_io_error(e, before.spec_end_error()))
        && after.spec_has_error()
}

/// Whether `after` and `r` are what collecting all rest elements of `before`
/// gives (for `f64` arrays, as bit patterns).
pub open spec fn collects_u64(
    before: ArrayAttributeValues<u64>,
    after: ArrayAttributeValues<u64>,
    r: Result<Seq<u64>>,
) -> bool {
    &&& before.complete() ==> r == Ok::<Seq<u64>, Error>(before.values())
        && after.spec_has_error() == before.spec_has_error()
    &&& !before.complete() ==> (r matches Err(e) && is_io_error(e, before.spec_end_error()))
        && after.spec_has_error()
}

/// The view of a result carrying a vector.
pub open spec fn vec_result_view<T>(r: Result<Vec<T>>) -> Result<Seq<T>> {
    match r {
        Ok(v) => Ok(v@),
        Err(e) => Err(e),
    }
}

/// A trait for attribute loader types.
///
/// This is a lot like a "visitor", but the loader itself is consumed by a
/// call, and the loader can return any type as the result.
///
/// Each `load_*` method is called with the value of an attribute of the
/// corresponding type; the `loads_*` relations state what each loader returns
/// for it. Loaders which do not accept a type return an `UnexpectedAttribute`
/// error for it (see [`unexpected_attribute`]).
///
/// `f32` and `f64` values are passed as their bit patterns; array values are
/// passed as iterators, binary and string values as the bytes stored.
pub trait LoadAttribute: Sized {
    /// Result type on successful read.
    type Output;

    /// Description of the expected value.
    spec fn spec_expecting(&self) -> Seq<char>;

    /// Whether `r` is a possible result of loading a boolean.
    spec fn loads_bool(self, v: bool, r: Result<Self::Output>) -> bool;

    /// Whether `r` is a possible result of loading an `i16`.
    spec fn loads_i16(self, v: i16, r: Result<Self::Output>) -> bool;

    /// Whether `r` is a possible result of loading an `i32`.
    spec fn loads_i32(self, v: i32, r: Result<Self::Output>) -> bool;

    /// Whether `r` is a possible result of loading an `i64`.
    spec fn loads_i64(self, v: i64, r: Result<Self::Output>) -> bool;

    /// Whether `r` is a possible result of loading an `f32` (bit pattern).
    spec fn loads_f32(self, v: u32, r: Result<Self::Output>) -> bool;

    /// Whether `r` is a possible result of loading an `f64` (bit pattern).
    spec fn loads_f64(self, v: u64, r: Result<Self::Output>) -> bool;

    /// Whether `r` and the iterator state `after` are possible results of
    /// loading a boolean array from `before`.
    spec fn loads_seq_bool(
        self,
        before: BooleanArrayAttributeValues,
        after: BooleanArrayAttributeValues,
        r: Result<Self::Output>,
    ) -> bool;

    /// Whether `r` and the iterator state `after` are possible results of
    /// loading an `i32` array from `before`.
    spec fn loads_seq_i32(
        self,
        before: ArrayAttributeValues<i32>,
        after: ArrayAttributeValues<i32>,
        r: Result<Self::Output>,
    ) -> bool;

    /// Whether `r` and the iterator state `after` are possible results of
    /// loading an `i64` array from `before`.
    spec fn loads_seq_i64(
        self,
        before: ArrayAttributeValues<i64>,
        after: ArrayAttributeValues<i64>,
        r: Result<Self::Output>,
    ) -> bool;

    /// Whether `r` and the iterator state `after` are possible results of
    /// loading an `f32` array from `before`.
    spec fn loads_seq_f32(
        self,
        before: ArrayAttributeValues<u32>,
        after: ArrayAttributeValues<u32>,
        r: Result<Self::Output>,
    ) -> bool;

    /// Whether `r` and the iterator state `after` are possible results of
    /// loading an `f64` array from `before`.
    spec fn loads_seq_f64(
        self,
        before: ArrayAttributeValues<u64>,
        after: ArrayAttributeValues<u64>,
        r: Result<Self::Output>,
    ) -> bool;

    /// Whether `r` is a possible result of loading binary data.
    spec fn loads_binary(self, bytes: Seq<u8>, r: Result<Self::Output>) -> bool;

    /// Whether `r` is a possible result of loading string data (given as the
    /// stored bytes).
    spec fn loads_string(self, bytes: Seq<u8>, r: Result<Self::Output>) -> bool;

    /// Whether `r` is a possible result of loading binary data with buffered
    /// I/O; by default, what loading it otherwise gives.
    open spec fn loads_binary_buffered(self, bytes: Seq<u8>, r: Result<Self::Output>) -> bool {
        self.loads_binary(bytes, r)
    }

    /// Whether `r` is a possible result of loading string data (given as the
    /// stored bytes) with buffered I/O; by default, what loading it otherwise
    /// gives.
    open spec fn loads_string_buffered(self, bytes: Seq<u8>, r: Result<Self::Output>) -> bool {
        self.loads_string(bytes, r)
    }

    /// Describes the expecting value.
    fn expecting(&self) -> (s: String)
        ensures
            s@ == self.spec_expecting(),
    ;

    /// Loads boolean value.
    fn load_bool(self, v: bool) -> (r: Result<Self::Output>)
        ensures
            self.loads_bool(v, r),
    ;

    /// Loads `i16` value.
    fn load_i16(self, v: i16) -> (r: Result<Self::Output>)
        ensures
            self.loads_i16(v, r),
    ;

    /// Loads `i32` value.
    fn load_i32(self, v: i32) -> (r: Result<Self::Output>)
        ensures
            self.loads_i32(v, r),
    ;

    /// Loads `i64` value.
    fn load_i64(self, v: i64) -> (r: Result<Self::Output>)
        ensures
            self.loads_i64(v, r),
    ;

    /// Loads `f32` value, given as its bit pattern.
    fn load_f32(self, v: u32) -> (r: Result<Self::Output>)
        ensures
            self.loads_f32(v, r),
    ;

    /// Loads `f64` value, given as its bit pattern.
    fn load_f64(self, v: u64) -> (r: Result<Self::Output>)
        ensures
            self.loads_f64(v, r),
    ;

    /// Loads boolean array.
    fn load_seq_bool(self, iter: &mut BooleanArrayAttributeValues, len: usize) -> (r: Result<
        Self::Output,
    >)
        ensures
            self.loads_seq_bool(*old(iter), *final(iter), r),
    ;

    /// Loads `i32` array.
    fn load_seq_i32(self, iter: &mut ArrayAttributeValues<i32>, len: usize) -> (r: Result<
        Self::Output,
    >)
        ensures
            self.loads_seq_i32(*old(iter), *final(iter), r),
    ;

    /// Loads `i64` array.
    fn load_seq_i64(self, iter: &mut ArrayAttributeValues<i64>, len: usize) -> (r: Result<
        Self::Output,
    >)
        ensures
            self.loads_seq_i64(*old(iter), *final(iter), r),
    ;

    /// Loads `f32` array (bit patterns).
    fn load_seq_f32(self, iter: &mut ArrayAttributeValues<u32>, len: usize) -> (r: Result<
        Self::Output,
    >)
        ensures
            self.loads_seq_f32(*old(iter), *final(iter), r),
    ;

    /// Loads `f64` array (bit patterns).
    fn load_seq_f64(self, iter: &mut ArrayAttributeValues<u64>, len: usize) -> (r: Result<
        Self::Output,
    >)
        ensures
            self.loads_seq_f64(*old(iter), *final(iter), r),
    ;

    /// Loads binary value.
    fn load_binary(self, bytes: Vec<u8>, len: u64) -> (r: Result<Self::Output>)
        ensures
            self.loads_binary(bytes@, r),
    ;

    /// Loads string value, given as the stored bytes.
    fn load_string(self, bytes: Vec<u8>, len: u64) -> (r: Result<Self::Output>)
        ensures
            self.loads_string(bytes@, r),
    ;

    /// Loads binary value, when the attributes are loaded with buffered I/O.
    fn load_binary_buffered(self, bytes: Vec<u8>, len: u64) -> (r: Result<Self::Output>)
        ensures
            self.loads_binary_buffered(bytes@, r),
    ;

    /// Loads string value, given as the stored bytes, when the attributes are
    /// loaded with buffered I/O.
    fn load_string_buffered(self, bytes: Vec<u8>, len: u64) -> (r: Result<Self::Output>)
        ensures
            self.loads_string_buffered(bytes@, r),
    ;
}

} // verus!
