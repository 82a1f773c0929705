//! Invalid operation.

use vstd::prelude::*;
use vstd::string::StringExecFns;

use crate::text::{push_decimal, spec_decimal};

use crate::low::FbxVersion;
use crate::pull_parser::ParserVersion;

verus! {

/// Invalid operation.
#[derive(Debug, Clone, Copy, PartialEq, Eq, Structural)]
pub enum OperationError {
    /// Attempt to parse more data while the parsing is aborted.
    AlreadyAborted,
    /// Attempt to parse more data while the parsing is (successfully) finished.
    AlreadyFinished,
    /// Attempt to create a parser with unsupported FBX version.
    UnsupportedFbxVersion(ParserVersion, FbxVersion),
}


impl OperationError {
    /// The human-readable message of the error.
    pub open spec fn spec_message(&self) -> Seq<char> {
        match self {
            OperationError::AlreadyAborted => "Attempt to parse more data while the parsing is aborted"@,
            OperationError::AlreadyFinished => "Attempt to parse more data while the parsing is successfully finished"@,
            OperationError::UnsupportedFbxVersion(_, fbx) => "Unsupported FBX version: parser=V7400, fbx=FbxVersion("@
                + spec_decimal(fbx@ as nat) + ")"@,
        }
    }

    /// Returns the human-readable message of the error.
    pub fn message(&self) -> (s: String)
        ensures
            s@ == self.spec_message(),
    {
        let mut s = String::new();
        match self {
            OperationError::AlreadyAborted => s.append("Attempt to parse more data while the parsing is aborted"),
            OperationError::AlreadyFinished => s.append("Attempt to parse more data while the parsing is successfully finished"),
            OperationError::UnsupportedFbxVersion(_, fbx) => {
                s.append("Unsupported FBX version: parser=V7400, fbx=FbxVersion(");
                push_decimal(&mut s, fbx.raw() as u64);
                s.append(")");
            },
        }
        s
    }
}

} // verus!
