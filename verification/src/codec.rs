//! Little-endian encoding and decoding of fixed-width integers.
//!
//! Decoding goes through `byteorder`; encoding is written here and proved
//! against the same specification, so that every encoded value decodes back.

use byteorder::{ByteOrder, LittleEndian};
use vstd::prelude::*;

verus! {

/// The `u16` whose little-endian bytes start `b`.
pub open spec fn spec_le_u16(b: Seq<u8>) -> u16 {
    (b[0] as int + 256 * (b[1] as int)) as u16
}

/// The `u32` whose little-endian bytes start `b`.
pub open spec fn spec_le_u32(b: Seq<u8>) -> u32 {
    (b[0] as int + 256 * (b[1] as int) + 65536 * (b[2] as int) + 16777216 * (b[3] as int)) as u32
}

/// The `u64` whose little-endian bytes start `b`.
pub open spec fn spec_le_u64(b: Seq<u8>) -> u64 {
    (spec_le_u32(b) as int + 4294967296 * (spec_le_u32(b.subrange(4, 8)) as int)) as u64
}

/// Little-endian bytes of a `u16`.
pub open spec fn spec_u16_le(x: u16) -> Seq<u8> {
    seq![(x % 256) as u8, (x / 256) as u8]
}

/// Little-endian bytes of a `u32`.
pub open spec fn spec_u32_le(x: u32) -> Seq<u8> {
    seq![
        (x % 256) as u8,
        ((x / 256) % 256) as u8,
        ((x / 65536) % 256) as u8,
        (x / 16777216) as u8,
    ]
}

/// Little-endian bytes of a `u64`.
pub open spec fn spec_u64_le(x: u64) -> Seq<u8> {
    spec_u32_le((x % 4294967296) as u32) + spec_u32_le((x / 4294967296) as u32)
}

/// Calls `byteorder`'s `LittleEndian::read_u16`, which decodes the first two
/// bytes of the buffer as a little-endian `u16` (it panics on a shorter
/// buffer, which the precondition rules out).
#[verifier::external_body]
pub(crate) fn byteorder_read_u16(buf: &[u8]) -> (v: u16)
    requires
        buf@.len() >= 2,
    ensures
        v == spec_le_u16(buf@),
{
    LittleEndian::read_u16(buf)
}

/// Calls `byteorder`'s `LittleEndian::read_u32`, which decodes the first four
/// bytes of the buffer as a little-endian `u32`.
#[verifier::external_body]
pub(crate) fn byteorder_read_u32(buf: &[u8]) -> (v: u32)
    requires
        buf@.len() >= 4,
    ensures
        v == spec_le_u32(buf@),
{
    LittleEndian::read_u32(buf)
}

/// Calls `byteorder`'s `LittleEndian::read_u64`, which decodes the first eight
/// bytes of the buffer as a little-endian `u64`.
#[verifier::external_body]
pub(crate) fn byteorder_read_u64(buf: &[u8]) -> (v: u64)
    requires
        buf@.len() >= 8,
    ensures
        v == spec_le_u64(buf@),
{
    LittleEndian::read_u64(buf)
}

/// Calls `byteorder`'s `LittleEndian::read_i16`, which reinterprets the
/// little-endian `u16` of the first two bytes as an `i16`.
#[verifier::external_body]
pub(crate) fn byteorder_read_i16(buf: &[u8]) -> (v: i16)
    requires
        buf@.len() >= 2,
    ensures
        v == spec_le_u16(buf@) as i16,
{
    LittleEndian::read_i16(buf)
}

/// Calls `byteorder`'s `LittleEndian::read_i32`, which reinterprets the
/// little-endian `u32` of the first four bytes as an `i32`.
#[verifier::external_body]
pub(crate) fn byteorder_read_i32(buf: &[u8]) -> (v: i32)
    requires
        buf@.len() >= 4,
    ensures
        v == spec_le_u32(buf@) as i32,
{
    LittleEndian::read_i32(buf)
}

/// Calls `byteorder`'s `LittleEndian::read_i64`, which reinterprets the
/// little-endian `u64` of the first eight bytes as an `i64`.
#[verifier::external_body]
pub(crate) fn byteorder_read_i64(buf: &[u8]) -> (v: i64)
    requires
        buf@.len() >= 8,
    ensures
        v == spec_le_u64(buf@) as i64,
{
    LittleEndian::read_i64(buf)
}

/// Encodes a `u16` in little-endian byte order.
pub fn u16_to_le_bytes(x: u16) -> (b: Vec<u8>)
    ensures
        b@ == spec_u16_le(x),
        spec_le_u16(b@) == x,
{
    let b0: u8 = (x & 0xff) as u8;
    let b1: u8 = (x >> 8u16) as u8;
    assert(b0 == x % 256 && b1 == x / 256 && x == b0 as int + 256 * (b1 as int)) by (bit_vector)
        requires
            b0 == (x & 0xff) as u8,
            b1 == (x >> 8u16) as u8,
    ;
    let mut v: Vec<u8> = Vec::new();
    v.push(b0);
    v.push(b1);
    assert(v@ =~= spec_u16_le(x));
    v
}

/// Encodes a `u32` in little-endian byte order.
pub fn u32_to_le_bytes(x: u32) -> (b: Vec<u8>)
    ensures
        b@ == spec_u32_le(x),
        spec_le_u32(b@) == x,
{
    let b0: u8 = (x & 0xff) as u8;
    let b1: u8 = ((x >> 8u32) & 0xff) as u8;
    let b2: u8 = ((x >> 16u32) & 0xff) as u8;
    let b3: u8 = (x >> 24u32) as u8;
    assert(b0 == x % 256 && b1 == (x / 256) % 256 && b2 == (x / 65536) % 256 && b3 == x
        / 16777216 && x == b0 as int + 256 * (b1 as int) + 65536 * (b2 as int) + 16777216 * (
    b3 as int)) by (bit_vector)
        requires
            b0 == (x & 0xff) as u8,
            b1 == ((x >> 8u32) & 0xff) as u8,
            b2 == ((x >> 16u32) & 0xff) as u8,
            b3 == (x >> 24u32) as u8,
    ;
    let mut v: Vec<u8> = Vec::new();
    v.push(b0);
    v.push(b1);
    v.push(b2);
    v.push(b3);
    assert(v@ =~= spec_u32_le(x));
    v
}

/// Encodes a `u64` in little-endian byte order.
pub fn u64_to_le_bytes(x: u64) -> (b: Vec<u8>)
    ensures
        b@ == spec_u64_le(x),
        spec_le_u64(b@) == x,
{
    let lo: u32 = (x & 0xffff_ffff) as u32;
    let hi: u32 = (x >> 32u64) as u32;
    assert(lo == x % 4294967296 && hi == x / 4294967296 && x == lo as int + 4294967296 * (
    hi as int)) by (bit_vector)
        requires
            lo == (x & 0xffff_ffff) as u32,
            hi == (x >> 32u64) as u32,
    ;
    let mut v = u32_to_le_bytes(lo);
    let mut w = u32_to_le_bytes(hi);
    v.append(&mut w);
    assert(v@.subrange(0, 4) =~= spec_u32_le(lo));
    assert(v@.subrange(4, 8) =~= spec_u32_le(hi));
    assert(spec_le_u32(v@) == spec_le_u32(v@.subrange(0, 4)));
    v
}

/// Encodes an `i16` in little-endian (two's complement) byte order.
pub fn i16_to_le_bytes(x: i16) -> (b: Vec<u8>)
    ensures
        b@ == spec_u16_le(x as u16),
        spec_le_u16(b@) as i16 == x,
{
    let u: u16 = x as u16;
    let b = u16_to_le_bytes(u);
    assert(u as i16 == x) by (bit_vector)
        requires
            u == x as u16,
    ;
    b
}

/// Encodes an `i32` in little-endian (two's complement) byte order.
pub fn i32_to_le_bytes(x: i32) -> (b: Vec<u8>)
    ensures
        b@ == spec_u32_le(x as u32),
        spec_le_u32(b@) as i32 == x,
{
    let u: u32 = x as u32;
    let b = u32_to_le_bytes(u);
    assert(u as i32 == x) by (bit_vector)
        requires
            u == x as u32,
    ;
    b
}

/// Encodes an `i64` in little-endian (two's complement) byte order.
pub fn i64_to_le_bytes(x: i64) -> (b: Vec<u8>)
    ensures
        b@ == spec_u64_le(x as u64),
        spec_le_u64(b@) as i64 == x,
{
    let u: u64 = x as u64;
    let b = u64_to_le_bytes(u);
    assert(u as i64 == x) by (bit_vector)
        requires
            u == x as u64,
    ;
    b
}

/// Decoding the encoding of a `u32` gives the value back.
pub proof fn lemma_u32_le_roundtrip(x: u32)
    ensures
        spec_u32_le(x).len() == 4,
        spec_le_u32(spec_u32_le(x)) == x,
{
    let b = spec_u32_le(x);
    assert(x == (x % 256) + 256 * ((x / 256) % 256) + 65536 * ((x / 65536) % 256) + 16777216 * (x
        / 16777216)) by (bit_vector);
    assert(b[0] == x % 256);
    assert(b[3] == x / 16777216) by {
        assert(x / 16777216 < 256) by (bit_vector);
    }
}

/// Decoding the little-endian bytes of a `u16` gives it back.
pub proof fn lemma_u16_le_roundtrip(x: u16)
    ensures
        spec_u16_le(x).len() == 2,
        spec_le_u16(spec_u16_le(x)) == x,
{
    assert(x == (x % 256) + 256 * (x / 256)) by (bit_vector);
    assert(x / 256 < 256) by (bit_vector);
}

/// Decoding the little-endian bytes of a `u64` gives it back.
pub proof fn lemma_u64_le_roundtrip(x: u64)
    ensures
        spec_u64_le(x).len() == 8,
        spec_le_u64(spec_u64_le(x)) == x,
{
    let lo = (x % 4294967296) as u32;
    let hi = (x / 4294967296) as u32;
    lemma_u32_le_roundtrip(lo);
    lemma_u32_le_roundtrip(hi);
    let b = spec_u64_le(x);
    assert(b.subrange(4, 8) =~= spec_u32_le(hi));
    lemma_le_u32_prefix(spec_u32_le(lo), spec_u32_le(hi));
    assert(x == (x % 4294967296) + 4294967296 * (x / 4294967296)) by (bit_vector);
}

/// A little-endian `u16` depends only on the first two bytes.
pub proof fn lemma_le_u16_prefix(s: Seq<u8>, t: Seq<u8>)
    requires
        s.len() >= 2,
    ensures
        spec_le_u16(s + t) == spec_le_u16(s),
{
    assert((s + t)[0] == s[0] && (s + t)[1] == s[1]);
}

/// A little-endian `u32` depends only on the first four bytes.
pub proof fn lemma_le_u32_prefix(s: Seq<u8>, t: Seq<u8>)
    requires
        s.len() >= 4,
    ensures
        spec_le_u32(s + t) == spec_le_u32(s),
{
    assert((s + t)[0] == s[0] && (s + t)[1] == s[1] && (s + t)[2] == s[2] && (s + t)[3] == s[3]);
}

/// A little-endian `u64` depends only on the first eight bytes.
pub proof fn lemma_le_u64_prefix(s: Seq<u8>, t: Seq<u8>)
    requires
        s.len() >= 8,
    ensures
        spec_le_u64(s + t) == spec_le_u64(s),
{
    lemma_le_u32_prefix(s, t);
    assert((s + t).subrange(4, 8) =~= s.subrange(4, 8));
}

} // verus!
