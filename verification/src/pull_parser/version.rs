//! FBX parser version types.

use vstd::prelude::*;

use crate::low::{spec_parser_version, FbxVersion};

verus! {

/// Parser version for each version of FBX.
///
/// Some parser supports multiple versions of FBX binary.
/// Each variants of this type corresponds to a parser implementation.
#[derive(Debug, Clone, Copy, PartialEq, Eq, Structural, PartialOrd, Ord, Hash)]
#[non_exhaustive]
pub enum ParserVersion {
    /// FBX 7.4 and 7.5.
    V7400,
}

impl ParserVersion {
    /// Returns the parser version corresponding to the given FBX version.
    ///
    /// Every FBX 7.x version is read by the v7400 parser; versions before 7.4
    /// and after 7.5 might be read successfully but are not supported.
    pub fn from_fbx_version(fbx_version: FbxVersion) -> (r: Option<Self>)
        ensures
            r == spec_parser_version(fbx_version@),
    {
        let raw = fbx_version.raw();
        if 7000 <= raw && raw <= 7999 {
            Some(ParserVersion::V7400)
        } else {
            None
        }
    }
}

} // verus!
