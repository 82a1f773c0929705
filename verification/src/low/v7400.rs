//! Low-level data types for FBX 7.4 binary (and compatible later versions).

use vstd::prelude::*;

use crate::pull_parser::error::Compression;

pub use self::fbx_footer::{
    spec_expected_padding_len, spec_footer_well_formed, spec_unknown1_pattern,
    spec_unknown1_plausible, spec_unknown3_expected, FbxFooter, FOOTER_MIN_LEN,
};

mod fbx_footer;

verus! {

/// Node attribute type.
#[derive(Debug, Clone, Copy, PartialEq, Eq, Structural, Hash)]
pub enum AttributeType {
    /// Single `bool`.
    Bool,
    /// Single `i16`.
    I16,
    /// Single `i32`.
    I32,
    /// Single `i64`.
    I64,
    /// Single `f32`.
    F32,
    /// Single `f64`.
    F64,
    /// Array of `bool`.
    ArrBool,
    /// Array of `i32`.
    ArrI32,
    /// Array of `i64`.
    ArrI64,
    /// Array of `f32`.
    ArrF32,
    /// Array of `f64`.
    ArrF64,
    /// Binary.
    Binary,
    /// UTF-8 string.
    String,
}

/// The type code of an attribute type in the binary format.
pub open spec fn spec_type_code(ty: AttributeType) -> u8 {
    match ty {
        AttributeType::Bool => 67u8,  // 'C'
        AttributeType::I16 => 89u8,  // 'Y'
        AttributeType::I32 => 73u8,  // 'I'
        AttributeType::I64 => 76u8,  // 'L'
        AttributeType::F32 => 70u8,  // 'F'
        AttributeType::F64 => 68u8,  // 'D'
        AttributeType::ArrBool => 98u8,  // 'b'
        AttributeType::ArrI32 => 105u8,  // 'i'
        AttributeType::ArrI64 => 108u8,  // 'l'
        AttributeType::ArrF32 => 102u8,  // 'f'
        AttributeType::ArrF64 => 100u8,  // 'd'
        AttributeType::Binary => 82u8,  // 'R'
        AttributeType::String => 83u8,  // 'S'
    }
}

/// The attribute type with the given type code, if any.
pub open spec fn spec_from_type_code(code: u8) -> Option<AttributeType> {
    if code == 67 {
        Some(AttributeType::Bool)
    } else if code == 89 {
        Some(AttributeType::I16)
    } else if code == 73 {
        Some(AttributeType::I32)
    } else if code == 76 {
        Some(AttributeType::I64)
    } else if code == 70 {
        Some(AttributeType::F32)
    } else if code == 68 {
        Some(AttributeType::F64)
    } else if code == 98 {
        Some(AttributeType::ArrBool)
    } else if code == 105 {
        Some(AttributeType::ArrI32)
    } else if code == 108 {
        Some(AttributeType::ArrI64)
    } else if code == 102 {
        Some(AttributeType::ArrF32)
    } else if code == 100 {
        Some(AttributeType::ArrF64)
    } else if code == 82 {
        Some(AttributeType::Binary)
    } else if code == 83 {
        Some(AttributeType::String)
    } else {
        None
    }
}

impl AttributeType {
    /// Returns the type code.
    pub fn type_code(self) -> (c: u8)
        ensures
            c == spec_type_code(self),
    {
        match self {
            AttributeType::Bool => 67u8,  // 'C'
            AttributeType::I16 => 89u8,  // 'Y'
            AttributeType::I32 => 73u8,  // 'I'
            AttributeType::I64 => 76u8,  // 'L'
            AttributeType::F32 => 70u8,  // 'F'
            AttributeType::F64 => 68u8,  // 'D'
            AttributeType::ArrBool => 98u8,  // 'b'
            AttributeType::ArrI32 => 105u8,  // 'i'
            AttributeType::ArrI64 => 108u8,  // 'l'
            AttributeType::ArrF32 => 102u8,  // 'f'
            AttributeType::ArrF64 => 100u8,  // 'd'
            AttributeType::Binary => 82u8,  // 'R'
            AttributeType::String => 83u8,  // 'S'
        }
    }

    /// Returns the attribute type of the given type code, if any.
    pub fn from_type_code(code: u8) -> (r: Option<Self>)
        ensures
            r == spec_from_type_code(code),
    {
        match code {
            67u8 => Some(AttributeType::Bool),
            89u8 => Some(AttributeType::I16),
            73u8 => Some(AttributeType::I32),
            76u8 => Some(AttributeType::I64),
            70u8 => Some(AttributeType::F32),
            68u8 => Some(AttributeType::F64),
            98u8 => Some(AttributeType::ArrBool),
            105u8 => Some(AttributeType::ArrI32),
            108u8 => Some(AttributeType::ArrI64),
            102u8 => Some(AttributeType::ArrF32),
            100u8 => Some(AttributeType::ArrF64),
            82u8 => Some(AttributeType::Binary),
            83u8 => Some(AttributeType::String),
            _ => None,
        }
    }
}

/// The type code of every attribute type reads back as that type, and a code
/// that reads as a type is that type's code.
pub proof fn lemma_type_code_roundtrip(ty: AttributeType, code: u8)
    ensures
        spec_from_type_code(spec_type_code(ty)) == Some(ty),
        spec_from_type_code(code) == Some(ty) ==> spec_type_code(ty) == code,
{
}

/// The type codes are the fixed letters of the binary format: `C`, `Y`, `I`,
/// `L`, `F`, `D` for the single values, `b`, `i`, `l`, `f`, `d` for the
/// arrays, `R` for binary and `S` for string; reading a code gives the type
/// whose code it is, and no other byte is a type code.
pub proof fn law_type_codes(code: u8)
    ensures
        spec_type_code(AttributeType::Bool) == 'C' as u8,
        spec_type_code(AttributeType::I16) == 'Y' as u8,
        spec_type_code(AttributeType::I32) == 'I' as u8,
        spec_type_code(AttributeType::I64) == 'L' as u8,
        spec_type_code(AttributeType::F32) == 'F' as u8,
        spec_type_code(AttributeType::F64) == 'D' as u8,
        spec_type_code(AttributeType::ArrBool) == 'b' as u8,
        spec_type_code(AttributeType::ArrI32) == 'i' as u8,
        spec_type_code(AttributeType::ArrI64) == 'l' as u8,
        spec_type_code(AttributeType::ArrF32) == 'f' as u8,
        spec_type_code(AttributeType::ArrF64) == 'd' as u8,
        spec_type_code(AttributeType::Binary) == 'R' as u8,
        spec_type_code(AttributeType::String) == 'S' as u8,
        forall|ty: AttributeType| spec_from_type_code(code) == Some(ty) <==> spec_type_code(ty) == code,
        spec_from_type_code(code) is None <==> !(exists|ty: AttributeType| spec_type_code(ty) == code),
{
    if let Some(ty) = spec_from_type_code(code) {
        assert(spec_type_code(ty) == code);
    } else {
        assert forall|ty: AttributeType| spec_type_code(ty) != code by {
            lemma_type_code_roundtrip(ty, code);
        }
    }
}

/// Array attribute encoding.
#[derive(Debug, Clone, Copy, PartialEq, Eq, Structural, Hash)]
pub enum ArrayAttributeEncoding {
    /// Elements are stored as they are.
    Direct,
    /// Elements are zlib-compressed.
    Zlib,
}

/// The encoding with the given raw value, if any.
pub open spec fn spec_encoding_from_u32(v: u32) -> Option<ArrayAttributeEncoding> {
    if v == 0 {
        Some(ArrayAttributeEncoding::Direct)
    } else if v == 1 {
        Some(ArrayAttributeEncoding::Zlib)
    } else {
        None
    }
}

/// The raw value of an encoding.
pub open spec fn spec_encoding_to_u32(e: ArrayAttributeEncoding) -> u32 {
    match e {
        ArrayAttributeEncoding::Direct => 0u32,
        ArrayAttributeEncoding::Zlib => 1u32,
    }
}

impl ArrayAttributeEncoding {
    /// Returns the encoding of the given raw value, if any.
    pub fn from_u32(v: u32) -> (r: Option<Self>)
        ensures
            r == spec_encoding_from_u32(v),
    {
        match v {
            0 => Some(ArrayAttributeEncoding::Direct),
            1 => Some(ArrayAttributeEncoding::Zlib),
            _ => None,
        }
    }

    /// Returns the raw value.
    pub fn to_u32(self) -> (v: u32)
        ensures
            v == spec_encoding_to_u32(self),
            spec_encoding_from_u32(v) == Some(self),
    {
        match self {
            ArrayAttributeEncoding::Direct => 0,
            ArrayAttributeEncoding::Zlib => 1,
        }
    }

    /// Returns the compression format of the encoding, if it is compressed.
    pub fn compression(self) -> (r: Option<Compression>)
        ensures
            r == match self {
                ArrayAttributeEncoding::Direct => None,
                ArrayAttributeEncoding::Zlib => Some(Compression::Zlib),
            },
    {
        match self {
            ArrayAttributeEncoding::Direct => None,
            ArrayAttributeEncoding::Zlib => Some(Compression::Zlib),
        }
    }
}

/// Array attribute header.
#[derive(Debug, Clone, Copy, PartialEq, Eq, Structural, Hash)]
pub struct ArrayAttributeHeader {
    /// Number of elements.
    pub elements_count: u32,
    /// Encoding.
    pub encoding: ArrayAttributeEncoding,
    /// Elements length in bytes.
    pub bytelen: u32,
}

/// Special attribute (binary or string) header.
#[derive(Debug, Clone, Copy, PartialEq, Eq, Structural, Hash)]
pub struct SpecialAttributeHeader {
    /// Elements length in bytes.
    pub bytelen: u32,
}

/// Node attribute value.
///
/// Floating-point values are held by their IEEE 754 bit patterns, as the
/// binary format stores them.
#[derive(Debug, Clone, PartialEq)]
pub enum AttributeValue {
    /// Single `bool`.
    Bool(bool),
    /// Single `i16`.
    I16(i16),
    /// Single `i32`.
    I32(i32),
    /// Single `i64`.
    I64(i64),
    /// Single `f32`, as its bit pattern.
    F32(u32),
    /// Single `f64`, as its bit pattern.
    F64(u64),
    /// Array of `bool`.
    ArrBool(Vec<bool>),
    /// Array of `i32`.
    ArrI32(Vec<i32>),
    /// Array of `i64`.
    ArrI64(Vec<i64>),
    /// Array of `f32`, as bit patterns.
    ArrF32(Vec<u32>),
    /// Array of `f64`, as bit patterns.
    ArrF64(Vec<u64>),
    /// UTF-8 string.
    String(String),
    /// Binary.
    Binary(Vec<u8>),
}

/// The type of an attribute value.
pub open spec fn spec_value_type(v: AttributeValue) -> AttributeType {
    match v {
        AttributeValue::Bool(_) => AttributeType::Bool,
        AttributeValue::I16(_) => AttributeType::I16,
        AttributeValue::I32(_) => AttributeType::I32,
        AttributeValue::I64(_) => AttributeType::I64,
        AttributeValue::F32(_) => AttributeType::F32,
        AttributeValue::F64(_) => AttributeType::F64,
        AttributeValue::ArrBool(_) => AttributeType::ArrBool,
        AttributeValue::ArrI32(_) => AttributeType::ArrI32,
        AttributeValue::ArrI64(_) => AttributeType::ArrI64,
        AttributeValue::ArrF32(_) => AttributeType::ArrF32,
        AttributeValue::ArrF64(_) => AttributeType::ArrF64,
        AttributeValue::String(_) => AttributeType::String,
        AttributeValue::Binary(_) => AttributeType::Binary,
    }
}

impl AttributeValue {
    /// Returns the value type.
    pub fn type_(&self) -> (t: AttributeType)
        ensures
            t == spec_value_type(*self),
    {
        match self {
            AttributeValue::Bool(_) => AttributeType::Bool,
            AttributeValue::I16(_) => AttributeType::I16,
            AttributeValue::I32(_) => AttributeType::I32,
            AttributeValue::I64(_) => AttributeType::I64,
            AttributeValue::F32(_) => AttributeType::F32,
            AttributeValue::F64(_) => AttributeType::F64,
            AttributeValue::ArrBool(_) => AttributeType::ArrBool,
            AttributeValue::ArrI32(_) => AttributeType::ArrI32,
            AttributeValue::ArrI64(_) => AttributeType::ArrI64,
            AttributeValue::ArrF32(_) => AttributeType::ArrF32,
            AttributeValue::ArrF64(_) => AttributeType::ArrF64,
            AttributeValue::String(_) => AttributeType::String,
            AttributeValue::Binary(_) => AttributeType::Binary,
        }
    }
}

} // verus!
