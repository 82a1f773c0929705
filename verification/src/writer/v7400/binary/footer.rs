//! FBX footer.

use vstd::prelude::*;

verus! {

/// FBX footer padding length.
#[derive(Debug, Clone, Copy, PartialEq, Eq, Structural, PartialOrd, Ord, Hash)]
pub enum FbxFooterPaddingLength {
    /// Default (correct) value.
    Default,
    /// Forced specified value, which can be wrong.
    Forced(u8),
}

impl Default for FbxFooterPaddingLength {
    fn default() -> (r: Self)
        ensures
            r == FbxFooterPaddingLength::Default,
    {
        FbxFooterPaddingLength::Default
    }
}

/// Default value of the first unknown footer field.
pub open spec fn spec_default_unknown1() -> Seq<u8> {
    seq![
        0xf0u8, 0xb1, 0xa2, 0x03, 0xd4, 0xc5, 0xd6, 0x67, 0xb8, 0x79, 0xfa, 0x8b, 0x1c, 0xfd, 0x2e,
        0x7f,
    ]
}

/// Default value of the third unknown footer field.
pub open spec fn spec_default_unknown3() -> Seq<u8> {
    seq![
        0xf8u8, 0x5a, 0x8c, 0x6a, 0xde, 0xf5, 0xd9, 0x7e, 0xec, 0xe9, 0x0c, 0xe3, 0x75, 0x8f, 0x29,
        0x0b,
    ]
}

/// FBX 7.4 footer.
#[derive(Debug, Clone, Copy, PartialEq, Eq, PartialOrd, Ord, Hash)]
pub struct FbxFooter<'a> {
    /// Unknown (semirandom) 16-bytes data.
    ///
    /// This field is expected to have prescribed upper 4 bits, i.e. the field
    /// is `fx bx ax 0x dx cx dx 6x bx 7x fx 8x 1x fx 2x 7x` if the FBX data is
    /// exported from official SDK.
    ///
    /// Note that third party exporter will use completely random data.
    pub unknown1: Option<&'a [u8; 16]>,
    /// Padding length.
    ///
    /// Padding is `padding_len` `0`s.
    /// `padding_len >= 0 && padding <= 15` should hold.
    ///
    /// Note that third party exporter will not use correct padding length.
    pub padding_len: FbxFooterPaddingLength,
    /// Unknown 4-bytes data.
    ///
    /// This is expected to be `[0u8; 4]`.
    pub unknown2: Option<[u8; 4]>,
    /// Unknown 16-bytes data.
    ///
    /// This is expected to be `[0xf8, 0x5a, 0x8c, 0x6a, 0xde, 0xf5, 0xd9, 0x7e,
    /// 0xec, 0xe9, 0x0c, 0xe3, 0x75, 0x8f, 0x29, 0x0b]`.
    pub unknown3: Option<&'a [u8; 16]>,
}

impl<'a> Default for FbxFooter<'a> {
    fn default() -> (r: Self)
        ensures
            r.unknown1 is None,
            r.padding_len == FbxFooterPaddingLength::Default,
            r.unknown2 is None,
            r.unknown3 is None,
    {
        FbxFooter {
            unknown1: None,
            padding_len: FbxFooterPaddingLength::Default,
            unknown2: None,
            unknown3: None,
        }
    }
}

impl<'a> FbxFooter<'a> {
    /// The first unknown field, or its default.
    pub open spec fn spec_unknown1(&self) -> Seq<u8> {
        match self.unknown1 {
            Some(v) => v@,
            None => spec_default_unknown1(),
        }
    }

    /// The second unknown field, or its default (zeros).
    pub open spec fn spec_unknown2(&self) -> Seq<u8> {
        match self.unknown2 {
            Some(v) => v@,
            None => seq![0u8, 0, 0, 0],
        }
    }

    /// The third unknown field, or its default.
    pub open spec fn spec_unknown3(&self) -> Seq<u8> {
        match self.unknown3 {
            Some(v) => v@,
            None => spec_default_unknown3(),
        }
    }

    /// Returns the first unknown field or default.
    pub(crate) fn unknown1(&self) -> (r: [u8; 16])
        ensures
            r@ == self.spec_unknown1(),
    {
        match self.unknown1 {
            Some(v) => *v,
            None => {
                let d: [u8; 16] = [
                    0xf0, 0xb1, 0xa2, 0x03, 0xd4, 0xc5, 0xd6, 0x67, 0xb8, 0x79, 0xfa, 0x8b, 0x1c,
                    0xfd, 0x2e, 0x7f,
                ];
                assert(d@ =~= spec_default_unknown1());
                d
            },
        }
    }

    /// Returns the second unknown field or default.
    pub(crate) fn unknown2(&self) -> (r: [u8; 4])
        ensures
            r@ == self.spec_unknown2(),
    {
        match self.unknown2 {
            Some(v) => v,
            None => {
                let d: [u8; 4] = [0; 4];
                assert(d@ =~= seq![0u8, 0, 0, 0]);
                d
            },
        }
    }

    /// Returns the third unknown field or default.
    pub(crate) fn unknown3(&self) -> (r: [u8; 16])
        ensures
            r@ == self.spec_unknown3(),
    {
        match self.unknown3 {
            Some(v) => *v,
            None => {
                let d: [u8; 16] = [
                    0xf8, 0x5a, 0x8c, 0x6a, 0xde, 0xf5, 0xd9, 0x7e, 0xec, 0xe9, 0x0c, 0xe3, 0x75,
                    0x8f, 0x29, 0x0b,
                ];
                assert(d@ =~= spec_default_unknown3());
                d
            },
        }
    }
}

} // verus!
