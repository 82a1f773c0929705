//! Loading one attribute value, after its type code, from the parser.

use vstd::prelude::*;

use crate::codec::{spec_le_u16, spec_le_u32, spec_le_u64};
use crate::low::v7400::AttributeType;
use crate::pull_parser::error::{DataError, ErrorContainer, Warning};
use crate::pull_parser::reader::spec_consumed;
use crate::pull_parser::v7400::attribute::array::{
    bool_of, AttributeStreamDecoder, ArrayAttributeValues, BooleanArrayAttributeValues,
};
use crate::pull_parser::v7400::attribute::layout::{
    spec_loads_bool, spec_loads_value, spec_warnings_after,
};
use crate::pull_parser::v7400::attribute::loader::LoadAttribute;
use crate::pull_parser::v7400::Parser;
use crate::pull_parser::{Error, ParserSource, Result};

verus! {

/// What loading a value does to the parser: reads `n` bytes, keeps the
/// progress, and records a warning at the attribute's position if `warned`.
pub open spec fn spec_value_step(
    old: Parser,
    new: Parser,
    n: nat,
    warned: bool,
    start: u64,
    index: usize,
) -> bool {
    &&& new.spec_reader().bounded()
    &&& new.same_progress(&old)
    &&& spec_consumed(old.spec_reader(), new.spec_reader(), n)
    &&& spec_warnings_after(
        old.spec_warnings(),
        new.spec_warnings(),
        warned,
        new.spec_reader().spec_position() as int,
        start,
        old.spec_node_path(),
        index,
    )
}

/// Loads a single boolean.
fn load_bool<V: LoadAttribute>(parser: &mut Parser, loader: V, start: u64, index: usize) -> (r: (
    Result<V::Output>,
    u64,
    Ghost<nat>,
    Ghost<bool>,
))
    requires
        old(parser).spec_reader().bounded(),
    ensures
        spec_value_step(*old(parser), *final(parser), r.2@, r.3@, start, index),
        r.0 is Ok ==> r.1 <= r.2@ + 0xFFFF_FFFF,
        spec_loads_bool(
            loader,
            old(parser).spec_reader().spec_rest(),
            old(parser).spec_warnings_critical(),
            r.0,
            r.2@,
            r.3@,
            r.1 as nat,
        ),
{
    let ghost rest = parser.spec_reader().spec_rest();
    let raw = match parser.parse_u8() {
        Ok(v) => v,
        Err(e) => {
            assert(rest.skip(rest.len() as int) =~= Seq::<u8>::empty());
            return (Err(e), 0, Ghost(rest.len()), Ghost(false));
        },
    };
    let value = bool_of(raw);
    let correct = raw == 84u8 || raw == 89u8;
    if !correct {
        let pos = parser.position().with_attribute(start, index);
        let ghost w0 = parser.spec_warnings();
        let warned = parser.warn(Warning::IncorrectBooleanRepresentation, pos);
        assert(parser.spec_warnings().take(w0.len() as int) =~= w0);
        match warned {
            Ok(()) => {},
            Err(e) => return (Err(e), 1, Ghost(1), Ghost(true)),
        }
    }
    (loader.load_bool(value), 1, Ghost(1), Ghost(!correct))
}

/// Loads a single `i16`.
fn load_i16<V: LoadAttribute>(parser: &mut Parser, loader: V) -> (r: (
    Result<V::Output>,
    u64,
    Ghost<nat>,
    Ghost<bool>,
))
    requires
        old(parser).spec_reader().bounded(),
    ensures
        spec_value_step(*old(parser), *final(parser), r.2@, r.3@, 0, 0),
        r.0 is Ok ==> r.1 <= r.2@ + 0xFFFF_FFFF,
        spec_loads_value(
            loader,
            AttributeType::I16,
            old(parser).spec_reader().spec_rest(),
            old(parser).spec_warnings_critical(),
            r.0,
            r.2@,
            r.3@,
            r.1 as nat,
        ),
{
    let ghost rest = parser.spec_reader().spec_rest();
    let v = match parser.parse_i16() {
        Ok(v) => v,
        Err(e) => {
            assert(rest.skip(rest.len() as int) =~= Seq::<u8>::empty());
            return (Err(e), 0, Ghost(rest.len()), Ghost(false));
        },
    };
    assert(v == spec_le_u16(rest) as i16);
    (loader.load_i16(v), 2, Ghost(2nat), Ghost(false))
}

/// Loads a single `i32`.
fn load_i32<V: LoadAttribute>(parser: &mut Parser, loader: V) -> (r: (
    Result<V::Output>,
    u64,
    Ghost<nat>,
    Ghost<bool>,
))
    requires
        old(parser).spec_reader().bounded(),
    ensures
        spec_value_step(*old(parser), *final(parser), r.2@, r.3@, 0, 0),
        r.0 is Ok ==> r.1 <= r.2@ + 0xFFFF_FFFF,
        spec_loads_value(
            loader,
            AttributeType::I32,
            old(parser).spec_reader().spec_rest(),
            old(parser).spec_warnings_critical(),
            r.0,
            r.2@,
            r.3@,
            r.1 as nat,
        ),
{
    let ghost rest = parser.spec_reader().spec_rest();
    let v = match parser.parse_i32() {
        Ok(v) => v,
        Err(e) => {
            assert(rest.skip(rest.len() as int) =~= Seq::<u8>::empty());
            return (Err(e), 0, Ghost(rest.len()), Ghost(false));
        },
    };
    assert(v == spec_le_u32(rest) as i32);
    (loader.load_i32(v), 4, Ghost(4nat), Ghost(false))
}

/// Loads a single `i64`.
fn load_i64<V: LoadAttribute>(parser: &mut Parser, loader: V) -> (r: (
    Result<V::Output>,
    u64,
    Ghost<nat>,
    Ghost<bool>,
))
    requires
        old(parser).spec_reader().bounded(),
    ensures
        spec_value_step(*old(parser), *final(parser), r.2@, r.3@, 0, 0),
        r.0 is Ok ==> r.1 <= r.2@ + 0xFFFF_FFFF,
        spec_loads_value(
            loader,
            AttributeType::I64,
            old(parser).spec_reader().spec_rest(),
            old(parser).spec_warnings_critical(),
            r.0,
            r.2@,
            r.3@,
            r.1 as nat,
        ),
{
    let ghost rest = parser.spec_reader().spec_rest();
    let v = match parser.parse_i64() {
        Ok(v) => v,
        Err(e) => {
            assert(rest.skip(rest.len() as int) =~= Seq::<u8>::empty());
            return (Err(e), 0, Ghost(rest.len()), Ghost(false));
        },
    };
    assert(v == spec_le_u64(rest) as i64);
    (loader.load_i64(v), 8, Ghost(8nat), Ghost(false))
}

/// Loads a single `f32` (bit pattern).
fn load_f32<V: LoadAttribute>(parser: &mut Parser, loader: V) -> (r: (
    Result<V::Output>,
    u64,
    Ghost<nat>,
    Ghost<bool>,
))
    requires
        old(parser).spec_reader().bounded(),
    ensures
        spec_value_step(*old(parser), *final(parser), r.2@, r.3@, 0, 0),
        r.0 is Ok ==> r.1 <= r.2@ + 0xFFFF_FFFF,
        spec_loads_value(
            loader,
            AttributeType::F32,
            old(parser).spec_reader().spec_rest(),
            old(parser).spec_warnings_critical(),
            r.0,
            r.2@,
            r.3@,
            r.1 as nat,
        ),
{
    let ghost rest = parser.spec_reader().spec_rest();
    let v = match parser.parse_u32() {
        Ok(v) => v,
        Err(e) => {
            assert(rest.skip(rest.len() as int) =~= Seq::<u8>::empty());
            return (Err(e), 0, Ghost(rest.len()), Ghost(false));
        },
    };
    assert(v == spec_le_u32(rest));
    (loader.load_f32(v), 4, Ghost(4nat), Ghost(false))
}

/// Loads a single `f64` (bit pattern).
fn load_f64<V: LoadAttribute>(parser: &mut Parser, loader: V) -> (r: (
    Result<V::Output>,
    u64,
    Ghost<nat>,
    Ghost<bool>,
))
    requires
        old(parser).spec_reader().bounded(),
    ensures
        spec_value_step(*old(parser), *final(parser), r.2@, r.3@, 0, 0),
        r.0 is Ok ==> r.1 <= r.2@ + 0xFFFF_FFFF,
        spec_loads_value(
            loader,
            AttributeType::F64,
            old(parser).spec_reader().spec_rest(),
            old(parser).spec_warnings_critical(),
            r.0,
            r.2@,
            r.3@,
            r.1 as nat,
        ),
{
    let ghost rest = parser.spec_reader().spec_rest();
    let v = match parser.parse_u64() {
        Ok(v) => v,
        Err(e) => {
            assert(rest.skip(rest.len() as int) =~= Seq::<u8>::empty());
            return (Err(e), 0, Ghost(rest.len()), Ghost(false));
        },
    };
    assert(v == spec_le_u64(rest));
    (loader.load_f64(v), 8, Ghost(8nat), Ghost(false))
}

/// Loads a boolean array.
fn load_array_bool<V: LoadAttribute>(parser: &mut Parser, loader: V, start: u64, index: usize) -> (r: (
    Result<V::Output>,
    u64,
    Ghost<nat>,
    Ghost<bool>,
))
    requires
        old(parser).spec_reader().bounded(),
    ensures
        spec_value_step(*old(parser), *final(parser), r.2@, r.3@, start, index),
        r.0 is Ok ==> r.1 <= r.2@ + 0xFFFF_FFFF,
        spec_loads_value(
            loader,
            AttributeType::ArrBool,
            old(parser).spec_reader().spec_rest(),
            old(parser).spec_warnings_critical(),
            r.0,
            r.2@,
            r.3@,
            r.1 as nat,
        ),
{
    let ghost rest = parser.spec_reader().spec_rest();
    let header = match parser.parse_array_header() {
        Ok(h) => h,
        Err(e) => {
            assert(rest.skip(rest.len() as int) =~= Seq::<u8>::empty());
            let ghost n: nat = if rest.len() < 12 {
                rest.len()
            } else {
                12
            };
            return (Err(e), 0, Ghost(n), Ghost(false));
        },
    };
    let next = 12 + header.bytelen as u64;
    let ghost mid = parser.spec_reader().spec_rest();
    let stored = parser.read_payload(header.bytelen as u64);
    let ghost stored_len: nat = stored@.len();
    proof {
        assert(mid =~= rest.skip(12));
        assert(parser.spec_reader().spec_rest() =~= rest.skip((12 + stored_len) as int));
    }
    let decoder = match AttributeStreamDecoder::create(header.encoding, stored) {
        Ok(d) => d,
        Err(e) => return (Err(e), next, Ghost(12nat + stored_len), Ghost(false)),
    };
    let count = header.elements_count;
    let mut iter = BooleanArrayAttributeValues::new(decoder, count);
    let ghost before = iter;
    let res = loader.load_seq_bool(&mut iter, count as usize);
    let o = match res {
        Ok(o) => o,
        Err(e) => return (Err(e), next, Ghost(12nat + stored_len), Ghost(false)),
    };
    let has_error = iter.has_error();
    let incorrect = iter.has_incorrect_boolean_value();
    if incorrect {
        let pos = parser.position().with_attribute(start, index);
        let ghost w0 = parser.spec_warnings();
        let warned = parser.warn(Warning::IncorrectBooleanRepresentation, pos);
        assert(parser.spec_warnings().take(w0.len() as int) =~= w0);
        match warned {
            Ok(()) => {},
            Err(e) => return (Err(e), next, Ghost(12nat + stored_len), Ghost(true)),
        }
    }
    if has_error {
        return (
            Err(Error::new(ErrorContainer::Data(DataError::NodeAttributeError))),
            next,
            Ghost(12nat + stored_len),
            Ghost(incorrect),
        );
    }
    (Ok(o), next, Ghost(12nat + stored_len), Ghost(incorrect))
}

/// Loads an `i32` array.
fn load_array_i32<V: LoadAttribute>(parser: &mut Parser, loader: V, start: u64, index: usize) -> (r: (
    Result<V::Output>,
    u64,
    Ghost<nat>,
    Ghost<bool>,
))
    requires
        old(parser).spec_reader().bounded(),
    ensures
        spec_value_step(*old(parser), *final(parser), r.2@, r.3@, start, index),
        r.0 is Ok ==> r.1 <= r.2@ + 0xFFFF_FFFF,
        spec_loads_value(
            loader,
            AttributeType::ArrI32,
            old(parser).spec_reader().spec_rest(),
            old(parser).spec_warnings_critical(),
            r.0,
            r.2@,
            r.3@,
            r.1 as nat,
        ),
{
    let ghost rest = parser.spec_reader().spec_rest();
    let header = match parser.parse_array_header() {
        Ok(h) => h,
        Err(e) => {
            assert(rest.skip(rest.len() as int) =~= Seq::<u8>::empty());
            let ghost n: nat = if rest.len() < 12 {
                rest.len()
            } else {
                12
            };
            return (Err(e), 0, Ghost(n), Ghost(false));
        },
    };
    let next = 12 + header.bytelen as u64;
    let ghost mid = parser.spec_reader().spec_rest();
    let stored = parser.read_payload(header.bytelen as u64);
    let ghost stored_len: nat = stored@.len();
    proof {
        assert(mid =~= rest.skip(12));
        assert(parser.spec_reader().spec_rest() =~= rest.skip((12 + stored_len) as int));
    }
    let decoder = match AttributeStreamDecoder::create(header.encoding, stored) {
        Ok(d) => d,
        Err(e) => return (Err(e), next, Ghost(12nat + stored_len), Ghost(false)),
    };
    let count = header.elements_count;
    let mut iter = ArrayAttributeValues::<i32>::new(decoder, count);
    let ghost before = iter;
    let res = loader.load_seq_i32(&mut iter, count as usize);
    let o = match res {
        Ok(o) => o,
        Err(e) => return (Err(e), next, Ghost(12nat + stored_len), Ghost(false)),
    };
    if iter.has_error() {
        return (
            Err(Error::new(ErrorContainer::Data(DataError::NodeAttributeError))),
            next,
            Ghost(12nat + stored_len),
            Ghost(false),
        );
    }
    (Ok(o), next, Ghost(12nat + stored_len), Ghost(false))
}

/// Loads an `i64` array.
fn load_array_i64<V: LoadAttribute>(parser: &mut Parser, loader: V, start: u64, index: usize) -> (r: (
    Result<V::Output>,
    u64,
    Ghost<nat>,
    Ghost<bool>,
))
    requires
        old(parser).spec_reader().bounded(),
    ensures
        spec_value_step(*old(parser), *final(parser), r.2@, r.3@, start, index),
        r.0 is Ok ==> r.1 <= r.2@ + 0xFFFF_FFFF,
        spec_loads_value(
            loader,
            AttributeType::ArrI64,
            old(parser).spec_reader().spec_rest(),
            old(parser).spec_warnings_critical(),
            r.0,
            r.2@,
            r.3@,
            r.1 as nat,
        ),
{
    let ghost rest = parser.spec_reader().spec_rest();
    let header = match parser.parse_array_header() {
        Ok(h) => h,
        Err(e) => {
            assert(rest.skip(rest.len() as int) =~= Seq::<u8>::empty());
            let ghost n: nat = if rest.len() < 12 {
                rest.len()
            } else {
                12
            };
            return (Err(e), 0, Ghost(n), Ghost(false));
        },
    };
    let next = 12 + header.bytelen as u64;
    let ghost mid = parser.spec_reader().spec_rest();
    let stored = parser.read_payload(header.bytelen as u64);
    let ghost stored_len: nat = stored@.len();
    proof {
        assert(mid =~= rest.skip(12));
        assert(parser.spec_reader().spec_rest() =~= rest.skip((12 + stored_len) as int));
    }
    let decoder = match AttributeStreamDecoder::create(header.encoding, stored) {
        Ok(d) => d,
        Err(e) => return (Err(e), next, Ghost(12nat + stored_len), Ghost(false)),
    };
    let count = header.elements_count;
    let mut iter = ArrayAttributeValues::<i64>::new(decoder, count);
    let ghost before = iter;
    let res = loader.load_seq_i64(&mut iter, count as usize);
    let o = match res {
        Ok(o) => o,
        Err(e) => return (Err(e), next, Ghost(12nat + stored_len), Ghost(false)),
    };
    if iter.has_error() {
        return (
            Err(Error::new(ErrorContainer::Data(DataError::NodeAttributeError))),
            next,
            Ghost(12nat + stored_len),
            Ghost(false),
        );
    }
    (Ok(o), next, Ghost(12nat + stored_len), Ghost(false))
}

/// Loads an `f32` (bit pattern) array.
fn load_array_f32<V: LoadAttribute>(parser: &mut Parser, loader: V, start: u64, index: usize) -> (r: (
    Result<V::Output>,
    u64,
    Ghost<nat>,
    Ghost<bool>,
))
    requires
        old(parser).spec_reader().bounded(),
    ensures
        spec_value_step(*old(parser), *final(parser), r.2@, r.3@, start, index),
        r.0 is Ok ==> r.1 <= r.2@ + 0xFFFF_FFFF,
        spec_loads_value(
            loader,
            AttributeType::ArrF32,
            old(parser).spec_reader().spec_rest(),
            old(parser).spec_warnings_critical(),
            r.0,
            r.2@,
            r.3@,
            r.1 as nat,
        ),
{
    let ghost rest = parser.spec_reader().spec_rest();
    let header = match parser.parse_array_header() {
        Ok(h) => h,
        Err(e) => {
            assert(rest.skip(rest.len() as int) =~= Seq::<u8>::empty());
            let ghost n: nat = if rest.len() < 12 {
                rest.len()
            } else {
                12
            };
            return (Err(e), 0, Ghost(n), Ghost(false));
        },
    };
    let next = 12 + header.bytelen as u64;
    let ghost mid = parser.spec_reader().spec_rest();
    let stored = parser.read_payload(header.bytelen as u64);
    let ghost stored_len: nat = stored@.len();
    proof {
        assert(mid =~= rest.skip(12));
        assert(parser.spec_reader().spec_rest() =~= rest.skip((12 + stored_len) as int));
    }
    let decoder = match AttributeStreamDecoder::create(header.encoding, stored) {
        Ok(d) => d,
        Err(e) => return (Err(e), next, Ghost(12nat + stored_len), Ghost(false)),
    };
    let count = header.elements_count;
    let mut iter = ArrayAttributeValues::<u32>::new(decoder, count);
    let ghost before = iter;
    let res = loader.load_seq_f32(&mut iter, count as usize);
    let o = match res {
        Ok(o) => o,
        Err(e) => return (Err(e), next, Ghost(12nat + stored_len), Ghost(false)),
    };
    if iter.has_error() {
        return (
            Err(Error::new(ErrorContainer::Data(DataError::NodeAttributeError))),
            next,
            Ghost(12nat + stored_len),
            Ghost(false),
        );
    }
    (Ok(o), next, Ghost(12nat + stored_len), Ghost(false))
}

/// Loads an `f64` (bit pattern) array.
fn load_array_f64<V: LoadAttribute>(parser: &mut Parser, loader: V, start: u64, index: usize) -> (r: (
    Result<V::Output>,
    u64,
    Ghost<nat>,
    Ghost<bool>,
))
    requires
        old(parser).spec_reader().bounded(),
    ensures
        spec_value_step(*old(parser), *final(parser), r.2@, r.3@, start, index),
        r.0 is Ok ==> r.1 <= r.2@ + 0xFFFF_FFFF,
        spec_loads_value(
            loader,
            AttributeType::ArrF64,
            old(parser).spec_reader().spec_rest(),
            old(parser).spec_warnings_critical(),
            r.0,
            r.2@,
            r.3@,
            r.1 as nat,
        ),
{
    let ghost rest = parser.spec_reader().spec_rest();
    let header = match parser.parse_array_header() {
        Ok(h) => h,
        Err(e) => {
            assert(rest.skip(rest.len() as int) =~= Seq::<u8>::empty());
            let ghost n: nat = if rest.len() < 12 {
                rest.len()
            } else {
                12
            };
            return (Err(e), 0, Ghost(n), Ghost(false));
        },
    };
    let next = 12 + header.bytelen as u64;
    let ghost mid = parser.spec_reader().spec_rest();
    let stored = parser.read_payload(header.bytelen as u64);
    let ghost stored_len: nat = stored@.len();
    proof {
        assert(mid =~= rest.skip(12));
        assert(parser.spec_reader().spec_rest() =~= rest.skip((12 + stored_len) as int));
    }
    let decoder = match AttributeStreamDecoder::create(header.encoding, stored) {
        Ok(d) => d,
        Err(e) => return (Err(e), next, Ghost(12nat + stored_len), Ghost(false)),
    };
    let count = header.elements_count;
    let mut iter = ArrayAttributeValues::<u64>::new(decoder, count);
    let ghost before = iter;
    let res = loader.load_seq_f64(&mut iter, count as usize);
    let o = match res {
        Ok(o) => o,
        Err(e) => return (Err(e), next, Ghost(12nat + stored_len), Ghost(false)),
    };
    if iter.has_error() {
        return (
            Err(Error::new(ErrorContainer::Data(DataError::NodeAttributeError))),
            next,
            Ghost(12nat + stored_len),
            Ghost(false),
        );
    }
    (Ok(o), next, Ghost(12nat + stored_len), Ghost(false))
}

/// Loads a binary value.
fn load_binary<V: LoadAttribute>(parser: &mut Parser, loader: V) -> (r: (
    Result<V::Output>,
    u64,
    Ghost<nat>,
    Ghost<bool>,
))
    requires
        old(parser).spec_reader().bounded(),
    ensures
        spec_value_step(*old(parser), *final(parser), r.2@, r.3@, 0, 0),
        r.0 is Ok ==> r.1 <= r.2@ + 0xFFFF_FFFF,
        spec_loads_value(
            loader,
            AttributeType::Binary,
            old(parser).spec_reader().spec_rest(),
            old(parser).spec_warnings_critical(),
            r.0,
            r.2@,
            r.3@,
            r.1 as nat,
        ),
{
    let ghost rest = parser.spec_reader().spec_rest();
    let header = match parser.parse_special_header() {
        Ok(h) => h,
        Err(e) => {
            assert(rest.skip(rest.len() as int) =~= Seq::<u8>::empty());
            return (Err(e), 0, Ghost(rest.len()), Ghost(false));
        },
    };
    let len = header.bytelen as u64;
    let stored = parser.read_payload(len);
    let ghost stored_len = stored@.len();
    proof {
        assert(parser.spec_reader().spec_rest() =~= rest.skip((4 + stored_len) as int));
    }
    let lr = loader.load_binary(stored, len);
    (lr, 4 + len, Ghost(4nat + stored_len), Ghost(false))
}

/// Loads a string value.
fn load_string<V: LoadAttribute>(parser: &mut Parser, loader: V) -> (r: (
    Result<V::Output>,
    u64,
    Ghost<nat>,
    Ghost<bool>,
))
    requires
        old(parser).spec_reader().bounded(),
    ensures
        spec_value_step(*old(parser), *final(parser), r.2@, r.3@, 0, 0),
        r.0 is Ok ==> r.1 <= r.2@ + 0xFFFF_FFFF,
        spec_loads_value(
            loader,
            AttributeType::String,
            old(parser).spec_reader().spec_rest(),
            old(parser).spec_warnings_critical(),
            r.0,
            r.2@,
            r.3@,
            r.1 as nat,
        ),
{
    let ghost rest = parser.spec_reader().spec_rest();
    let header = match parser.parse_special_header() {
        Ok(h) => h,
        Err(e) => {
            assert(rest.skip(rest.len() as int) =~= Seq::<u8>::empty());
            return (Err(e), 0, Ghost(rest.len()), Ghost(false));
        },
    };
    let len = header.bytelen as u64;
    let stored = parser.read_payload(len);
    let ghost stored_len = stored@.len();
    proof {
        assert(parser.spec_reader().spec_rest() =~= rest.skip((4 + stored_len) as int));
    }
    let lr = loader.load_string(stored, len);
    (lr, 4 + len, Ghost(4nat + stored_len), Ghost(false))
}

/// Loads the value of an attribute of type `ty`, whose type code was just
/// read; returns the result, the offset of the next attribute relative to the
/// current position, the number of bytes read and whether an incorrect
/// boolean representation was warned about.
pub(crate) fn load_value<V: LoadAttribute>(
    parser: &mut Parser,
    ty: AttributeType,
    loader: V,
    start: u64,
    index: usize,
) -> (r: (Result<V::Output>, u64, Ghost<nat>, Ghost<bool>))
    requires
        old(parser).spec_reader().bounded(),
    ensures
        spec_value_step(*old(parser), *final(parser), r.2@, r.3@, start, index),
        r.0 is Ok ==> r.1 <= r.2@ + 0xFFFF_FFFF,
        spec_loads_value(
            loader,
            ty,
            old(parser).spec_reader().spec_rest(),
            old(parser).spec_warnings_critical(),
            r.0,
            r.2@,
            r.3@,
            r.1 as nat,
        ),
{
    match ty {
        AttributeType::Bool => load_bool(parser, loader, start, index),
        AttributeType::I16 => load_i16(parser, loader),
        AttributeType::I32 => load_i32(parser, loader),
        AttributeType::I64 => load_i64(parser, loader),
        AttributeType::F32 => load_f32(parser, loader),
        AttributeType::F64 => load_f64(parser, loader),
        AttributeType::ArrBool => load_array_bool(parser, loader, start, index),
        AttributeType::ArrI32 => load_array_i32(parser, loader, start, index),
        AttributeType::ArrI64 => load_array_i64(parser, loader, start, index),
        AttributeType::ArrF32 => load_array_f32(parser, loader, start, index),
        AttributeType::ArrF64 => load_array_f64(parser, loader, start, index),
        AttributeType::Binary => load_binary(parser, loader),
        AttributeType::String => load_string(parser, loader),
    }
}

} // verus!
