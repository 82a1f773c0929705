//! What loading one node attribute reads and gives.
//!
//! The relations here take the bytes of an attribute as stored, the loader
//! and whether warnings are critical, and relate them to the result `r`, the
//! number `n` of bytes read, whether an incorrect boolean representation was
//! warned about, and the offset `next` of the next attribute relative to the
//! start of the bytes given.

use vstd::prelude::*;

use crate::codec::{spec_le_u16, spec_le_u32, spec_le_u64};
use crate::low::v7400::{spec_encoding_from_u32, spec_from_type_code, AttributeType};
use crate::pull_parser::error::{Compression, DataError, ErrorContainer, Warning};
use crate::pull_parser::reader::spec_min;
use crate::pull_parser::v7400::attribute::array::{
    spec_bool_of, spec_decoded_stream, spec_is_correct_bool, ArrayAttributeValues,
    BooleanArrayAttributeValues,
};
use crate::pull_parser::v7400::attribute::loader::LoadAttribute;
use crate::pull_parser::v7400::read::spec_array_header_fields;
use crate::pull_parser::{Error, Result, SyntacticPosition};
use crate::stream::IoError;

verus! {

/// `r` is an error with the given content.
pub open spec fn fails_with<T>(r: Result<T>, c: ErrorContainer) -> bool {
    r matches Err(e) && e.container() == c
}

/// `r` is the error of a zlib stream whose header is broken.
pub open spec fn fails_with_broken_zlib<T>(r: Result<T>) -> bool {
    r matches Err(e) && (e.container() matches ErrorContainer::Data(
        DataError::BrokenCompression(Compression::Zlib, _),
    ))
}

/// The data ended early: all of `data` was read and `r` is an end-of-file
/// error.
pub open spec fn spec_truncated<T>(data: Seq<u8>, r: Result<T>, n: nat, warned: bool) -> bool {
    &&& fails_with(r, ErrorContainer::Io(IoError::UnexpectedEof))
    &&& n == data.len()
    &&& !warned
}

/// The stored bytes of a value of `len` bytes at the start of `data` (fewer
/// if the data ends first). Array elements are decoded from these bytes
/// alone, never from the data after the attribute.
pub open spec fn spec_payload(data: Seq<u8>, len: u32) -> Seq<u8> {
    data.take(spec_min(len as int, data.len() as int))
}

/// `p` points the attribute of the given index, which begins at `start`, in
/// the node at `path`, while the reader is at `byte_pos`.
pub open spec fn is_attr_position(
    p: SyntacticPosition,
    byte_pos: int,
    start: u64,
    path: Seq<(usize, String)>,
    index: usize,
) -> bool {
    &&& p.spec_byte_pos() == byte_pos
    &&& p.spec_component_byte_pos() == start
    &&& p.spec_node_path() == path
    &&& p.spec_attribute_index() == Some(index)
}

/// The warnings after reading an attribute: one more, about an incorrect
/// boolean representation at `pos`, if `warned`.
pub open spec fn spec_warnings_after(
    before: Seq<(Warning, SyntacticPosition)>,
    after: Seq<(Warning, SyntacticPosition)>,
    warned: bool,
    byte_pos: int,
    start: u64,
    path: Seq<(usize, String)>,
    index: usize,
) -> bool {
    if warned {
        &&& after.len() == before.len() + 1
        &&& after.take(before.len() as int) == before
        &&& after.last().0 == Warning::IncorrectBooleanRepresentation
        &&& is_attr_position(after.last().1, byte_pos, start, path, index)
    } else {
        after == before
    }
}

/// Result of an array attribute whose loader gave `lr`, leaving the values
/// iterator with or without an error.
pub open spec fn spec_array_outcome<T>(lr: Result<T>, has_error: bool, r: Result<T>) -> bool {
    match lr {
        Err(_) => r == lr,
        Ok(o) => if has_error {
            fails_with(r, ErrorContainer::Data(DataError::NodeAttributeError))
        } else {
            r == Ok::<T, Error>(o)
        },
    }
}

/// Result of a boolean array attribute whose loader gave `lr`, leaving the
/// values iterator with or without an error and an incorrect representation.
pub open spec fn spec_bool_array_outcome<T>(
    lr: Result<T>,
    has_error: bool,
    incorrect: bool,
    critical: bool,
    r: Result<T>,
    warned: bool,
) -> bool {
    match lr {
        Err(_) => r == lr && !warned,
        Ok(o) => {
            &&& warned == incorrect
            &&& if incorrect && critical {
                fails_with(r, ErrorContainer::Warning(Warning::IncorrectBooleanRepresentation))
            } else if has_error {
                fails_with(r, ErrorContainer::Data(DataError::NodeAttributeError))
            } else {
                r == Ok::<T, Error>(o)
            }
        },
    }
}

/// Loading a boolean array attribute whose body (after the type code) is
/// `body`.
pub open spec fn spec_loads_array_bool<V: LoadAttribute>(
    loader: V,
    body: Seq<u8>,
    critical: bool,
    r: Result<V::Output>,
    n: nat,
    warned: bool,
    next: nat,
) -> bool {
    if body.len() < 12 {
        spec_truncated(body, r, n, warned)
    } else {
        let (count, enc, len) = spec_array_header_fields(body);
        let stored = spec_payload(body.skip(12), len);
        match spec_encoding_from_u32(enc) {
            None => n == 12 && !warned && fails_with(
                r,
                ErrorContainer::Data(DataError::InvalidArrayAttributeEncoding(enc)),
            ),
            Some(e) => {
                &&& n == 12 + stored.len()
                &&& next == 12 + len
                &&& match spec_decoded_stream(e, stored) {
                    None => !warned && fails_with_broken_zlib(r),
                    Some((s, end)) => exists|
                        before: BooleanArrayAttributeValues,
                        after: BooleanArrayAttributeValues,
                        lr: Result<V::Output>,
                    |
                        {
                            &&& before.starts(s, end, count)
                            &&& loader.loads_seq_bool(before, after, lr)
                            &&& spec_bool_array_outcome(
                                lr,
                                after.spec_has_error(),
                                after.spec_has_incorrect(),
                                critical,
                                r,
                                warned,
                            )
                        },
                }
            },
        }
    }
}

/// Loading an `i32` array attribute whose body (after the type code) is
/// `body`.
pub open spec fn spec_loads_array_i32<V: LoadAttribute>(
    loader: V,
    body: Seq<u8>,
    r: Result<V::Output>,
    n: nat,
    warned: bool,
    next: nat,
) -> bool {
    if body.len() < 12 {
        spec_truncated(body, r, n, warned)
    } else {
        let (count, enc, len) = spec_array_header_fields(body);
        let stored = spec_payload(body.skip(12), len);
        &&& !warned
        &&& match spec_encoding_from_u32(enc) {
            None => n == 12 && fails_with(
                r,
                ErrorContainer::Data(DataError::InvalidArrayAttributeEncoding(enc)),
            ),
            Some(e) => {
                &&& n == 12 + stored.len()
                &&& next == 12 + len
                &&& match spec_decoded_stream(e, stored) {
                    None => fails_with_broken_zlib(r),
                    Some((s, end)) => exists|
                        before: ArrayAttributeValues<i32>,
                        after: ArrayAttributeValues<i32>,
                        lr: Result<V::Output>,
                    |
                        {
                            &&& before.starts(s, end, count)
                            &&& loader.loads_seq_i32(before, after, lr)
                            &&& spec_array_outcome(lr, after.spec_has_error(), r)
                        },
                }
            },
        }
    }
}

/// Loading an `i64` array attribute whose body (after the type code) is
/// `body`.
pub open spec fn spec_loads_array_i64<V: LoadAttribute>(
    loader: V,
    body: Seq<u8>,
    r: Result<V::Output>,
    n: nat,
    warned: bool,
    next: nat,
) -> bool {
    if body.len() < 12 {
        spec_truncated(body, r, n, warned)
    } else {
        let (count, enc, len) = spec_array_header_fields(body);
        let stored = spec_payload(body.skip(12), len);
        &&& !warned
        &&& match spec_encoding_from_u32(enc) {
            None => n == 12 && fails_with(
                r,
                ErrorContainer::Data(DataError::InvalidArrayAttributeEncoding(enc)),
            ),
            Some(e) => {
                &&& n == 12 + stored.len()
                &&& next == 12 + len
                &&& match spec_decoded_stream(e, stored) {
                    None => fails_with_broken_zlib(r),
                    Some((s, end)) => exists|
                        before: ArrayAttributeValues<i64>,
                        after: ArrayAttributeValues<i64>,
                        lr: Result<V::Output>,
                    |
                        {
                            &&& before.starts(s, end, count)
                            &&& loader.loads_seq_i64(before, after, lr)
                            &&& spec_array_outcome(lr, after.spec_has_error(), r)
                        },
                }
            },
        }
    }
}

/// Loading an `f32` array attribute whose body (after the type code) is
/// `body`.
pub open spec fn spec_loads_array_f32<V: LoadAttribute>(
    loader: V,
    body: Seq<u8>,
    r: Result<V::Output>,
    n: nat,
    warned: bool,
    next: nat,
) -> bool {
    if body.len() < 12 {
        spec_truncated(body, r, n, warned)
    } else {
        let (count, enc, len) = spec_array_header_fields(body);
        let stored = spec_payload(body.skip(12), len);
        &&& !warned
        &&& match spec_encoding_from_u32(enc) {
            None => n == 12 && fails_with(
                r,
                ErrorContainer::Data(DataError::InvalidArrayAttributeEncoding(enc)),
            ),
            Some(e) => {
                &&& n == 12 + stored.len()
                &&& next == 12 + len
                &&& match spec_decoded_stream(e, stored) {
                    None => fails_with_broken_zlib(r),
                    Some((s, end)) => exists|
                        before: ArrayAttributeValues<u32>,
                        after: ArrayAttributeValues<u32>,
                        lr: Result<V::Output>,
                    |
                        {
                            &&& before.starts(s, end, count)
                            &&& loader.loads_seq_f32(before, after, lr)
                            &&& spec_array_outcome(lr, after.spec_has_error(), r)
                        },
                }
            },
        }
    }
}

/// Loading an `f64` array attribute whose body (after the type code) is
/// `body`.
pub open spec fn spec_loads_array_f64<V: LoadAttribute>(
    loader: V,
    body: Seq<u8>,
    r: Result<V::Output>,
    n: nat,
    warned: bool,
    next: nat,
) -> bool {
    if body.len() < 12 {
        spec_truncated(body, r, n, warned)
    } else {
        let (count, enc, len) = spec_array_header_fields(body);
        let stored = spec_payload(body.skip(12), len);
        &&& !warned
        &&& match spec_encoding_from_u32(enc) {
            None => n == 12 && fails_with(
                r,
                ErrorContainer::Data(DataError::InvalidArrayAttributeEncoding(enc)),
            ),
            Some(e) => {
                &&& n == 12 + stored.len()
                &&& next == 12 + len
                &&& match spec_decoded_stream(e, stored) {
                    None => fails_with_broken_zlib(r),
                    Some((s, end)) => exists|
                        before: ArrayAttributeValues<u64>,
                        after: ArrayAttributeValues<u64>,
                        lr: Result<V::Output>,
                    |
                        {
                            &&& before.starts(s, end, count)
                            &&& loader.loads_seq_f64(before, after, lr)
                            &&& spec_array_outcome(lr, after.spec_has_error(), r)
                        },
                }
            },
        }
    }
}

/// Loading a binary or string attribute whose body (after the type code) is
/// `body`: `loads` relates the stored bytes to the result.
pub open spec fn spec_loads_special<T>(
    body: Seq<u8>,
    loads: spec_fn(Seq<u8>, Result<T>) -> bool,
    r: Result<T>,
    n: nat,
    warned: bool,
    next: nat,
) -> bool {
    if body.len() < 4 {
        spec_truncated(body, r, n, warned)
    } else {
        let len = spec_le_u32(body);
        let stored = spec_payload(body.skip(4), len);
        &&& !warned
        &&& n == 4 + stored.len()
        &&& next == 4 + len
        &&& loads(stored, r)
    }
}

/// Loading a single value of `width` bytes whose body (after the type code)
/// is `body`: `loads` relates the body to the result.
pub open spec fn spec_loads_single<T>(
    body: Seq<u8>,
    width: nat,
    loads: spec_fn(Seq<u8>, Result<T>) -> bool,
    r: Result<T>,
    n: nat,
    warned: bool,
    next: nat,
) -> bool {
    if body.len() < width {
        spec_truncated(body, r, n, warned)
    } else {
        &&& !warned
        &&& n == width
        &&& next == width
        &&& loads(body, r)
    }
}

/// Loading a single boolean attribute whose body (after the type code) is
/// `body`.
pub open spec fn spec_loads_bool<V: LoadAttribute>(
    loader: V,
    body: Seq<u8>,
    critical: bool,
    r: Result<V::Output>,
    n: nat,
    warned: bool,
    next: nat,
) -> bool {
    if body.len() < 1 {
        spec_truncated(body, r, n, warned)
    } else {
        let raw = body[0];
        &&& n == 1
        &&& next == 1
        &&& warned == !spec_is_correct_bool(raw)
        &&& if warned && critical {
            fails_with(r, ErrorContainer::Warning(Warning::IncorrectBooleanRepresentation))
        } else {
            loader.loads_bool(spec_bool_of(raw), r)
        }
    }
}

/// Loading an attribute of type `ty` whose body (after the type code) is
/// `body`.
pub open spec fn spec_loads_value<V: LoadAttribute>(
    loader: V,
    ty: AttributeType,
    body: Seq<u8>,
    critical: bool,
    r: Result<V::Output>,
    n: nat,
    warned: bool,
    next: nat,
) -> bool {
    match ty {
        AttributeType::Bool => spec_loads_bool(loader, body, critical, r, n, warned, next),
        AttributeType::I16 => spec_loads_single(
            body,
            2,
            |b: Seq<u8>, res: Result<V::Output>| loader.loads_i16(spec_le_u16(b) as i16, res),
            r,
            n,
            warned,
            next,
        ),
        AttributeType::I32 => spec_loads_single(
            body,
            4,
            |b: Seq<u8>, res: Result<V::Output>| loader.loads_i32(spec_le_u32(b) as i32, res),
            r,
            n,
            warned,
            next,
        ),
        AttributeType::I64 => spec_loads_single(
            body,
            8,
            |b: Seq<u8>, res: Result<V::Output>| loader.loads_i64(spec_le_u64(b) as i64, res),
            r,
            n,
            warned,
            next,
        ),
        AttributeType::F32 => spec_loads_single(
            body,
            4,
            |b: Seq<u8>, res: Result<V::Output>| loader.loads_f32(spec_le_u32(b), res),
            r,
            n,
            warned,
            next,
        ),
        AttributeType::F64 => spec_loads_single(
            body,
            8,
            |b: Seq<u8>, res: Result<V::Output>| loader.loads_f64(spec_le_u64(b), res),
            r,
            n,
            warned,
            next,
        ),
        AttributeType::ArrBool => spec_loads_array_bool(loader, body, critical, r, n, warned, next),
        AttributeType::ArrI32 => spec_loads_array_i32(loader, body, r, n, warned, next),
        AttributeType::ArrI64 => spec_loads_array_i64(loader, body, r, n, warned, next),
        AttributeType::ArrF32 => spec_loads_array_f32(loader, body, r, n, warned, next),
        AttributeType::ArrF64 => spec_loads_array_f64(loader, body, r, n, warned, next),
        AttributeType::Binary => spec_loads_special(
            body,
            |b: Seq<u8>, res: Result<V::Output>| loader.loads_binary(b, res),
            r,
            n,
            warned,
            next,
        ),
        AttributeType::String => spec_loads_special(
            body,
            |b: Seq<u8>, res: Result<V::Output>| loader.loads_string(b, res),
            r,
            n,
            warned,
            next,
        ),
    }
}

/// Loading the attribute stored at the start of `b` (type code first).
pub open spec fn spec_loads_attribute<V: LoadAttribute>(
    loader: V,
    b: Seq<u8>,
    critical: bool,
    r: Result<V::Output>,
    n: nat,
    warned: bool,
    next: nat,
) -> bool {
    if b.len() == 0 {
        spec_truncated(b, r, n, warned)
    } else {
        match spec_from_type_code(b[0]) {
            None => n == 1 && !warned && fails_with(
                r,
                ErrorContainer::Data(DataError::InvalidAttributeTypeCode(b[0])),
            ),
            Some(ty) => {
                &&& n >= 1
                &&& next >= 1
                &&& spec_loads_value(
                    loader,
                    ty,
                    b.skip(1),
                    critical,
                    r,
                    (n - 1) as nat,
                    warned,
                    (next - 1) as nat,
                )
            },
        }
    }
}

} // verus!
