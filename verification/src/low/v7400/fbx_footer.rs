//! FBX 7.4 footer.

use vstd::prelude::*;

use crate::codec::spec_le_u32;
use crate::low::FbxVersion;

verus! {

/// Length of a footer without padding: the first unknown field, then, after
/// the padding, the second unknown field, the FBX version, 120 zeros and the
/// third unknown field.
pub const FOOTER_MIN_LEN: usize = 160;

/// Upper four bits of each byte of the first unknown field, as the official
/// SDK writes it.
pub open spec fn spec_unknown1_pattern() -> Seq<u8> {
    seq![
        0xf0u8, 0xb0, 0xa0, 0x00, 0xd0, 0xc0, 0xd0, 0x60, 0xb0, 0x70, 0xf0, 0x80, 0x10, 0xf0, 0x20,
        0x70,
    ]
}

/// Value of the third unknown field, as the official SDK writes it.
pub open spec fn spec_unknown3_expected() -> Seq<u8> {
    seq![
        0xf8u8, 0x5a, 0x8c, 0x6a, 0xde, 0xf5, 0xd9, 0x7e, 0xec, 0xe9, 0x0c, 0xe3, 0x75, 0x8f, 0x29,
        0x0b,
    ]
}

/// Whether the first 16 bytes of `u` have the upper four bits the official
/// SDK writes.
pub open spec fn spec_unknown1_plausible(u: Seq<u8>) -> bool {
    forall|i: int| 0 <= i < 16 ==> (#[trigger] u[i] & 0xf0u8) == spec_unknown1_pattern()[i]
}

/// The padding length that aligns the end of a footer's padding to 16 bytes,
/// for a footer beginning at byte position `pos` (its padding begins 16 bytes
/// later, at the same position modulo 16).
pub open spec fn spec_expected_padding_len(pos: int) -> int {
    (16 - pos % 16) % 16
}

/// Whether `b`, the bytes after the end of the document's nodes, is a footer
/// for the raw FBX version `v`: 16 bytes of the first unknown field, zeros as
/// padding, 4 bytes of the second unknown field, the version, 120 zeros and
/// 16 bytes of the third unknown field, up to the end of the data.
pub open spec fn spec_footer_well_formed(b: Seq<u8>, v: u32) -> bool {
    let n = b.len() as int;
    &&& n >= FOOTER_MIN_LEN
    &&& forall|i: int| 16 <= i < n - 144 ==> #[trigger] b[i] == 0
    &&& spec_le_u32(b.skip(n - 140)) == v
    &&& forall|i: int| n - 136 <= i < n - 16 ==> #[trigger] b[i] == 0
}

/// FBX 7.4 footer.
#[derive(Debug, Clone, PartialEq, Eq)]
pub struct FbxFooter {
    /// Unknown (semirandom) 16-bytes data.
    pub unknown1: Vec<u8>,
    /// Padding length.
    pub padding_len: usize,
    /// Unknown 4-bytes data.
    pub unknown2: Vec<u8>,
    /// FBX version.
    pub fbx_version: FbxVersion,
    /// Unknown 16-bytes data.
    pub unknown3: Vec<u8>,
}

impl FbxFooter {
    /// The footer holds the fields of the footer bytes `b` (see
    /// `spec_footer_well_formed`), read for the FBX version `v`.
    pub open spec fn spec_read_from(&self, b: Seq<u8>, v: FbxVersion) -> bool {
        let n = b.len() as int;
        &&& self.unknown1@ == b.take(16)
        &&& self.padding_len == n - FOOTER_MIN_LEN
        &&& self.unknown2@ == b.subrange(n - 144, n - 140)
        &&& self.fbx_version == v
        &&& self.unknown3@ == b.skip(n - 16)
    }
}

} // verus!
