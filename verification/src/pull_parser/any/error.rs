//! Error and result types for `pull_parser::any` module.

use vstd::prelude::*;
use vstd::string::StringExecFns;

use crate::text::{push_decimal, spec_decimal};

use crate::low::{FbxVersion, HeaderError};

verus! {

/// Parser creation result.
pub type Result<T> = std::result::Result<T, Error>;

/// Error.
#[derive(Debug)]
pub enum Error {
    /// Header error.
    Header(HeaderError),
    /// Unsupported version.
    UnsupportedVersion(FbxVersion),
}

impl From<HeaderError> for Error {
    fn from(e: HeaderError) -> (r: Self) {
        Error::Header(e)
    }
}

impl vstd::std_specs::convert::FromSpecImpl<HeaderError> for Error {
    open spec fn obeys_from_spec() -> bool {
        true
    }

    open spec fn from_spec(v: HeaderError) -> Self {
        Error::Header(v)
    }
}


impl Error {
    /// The human-readable message of the error.
    pub open spec fn spec_message(&self) -> Seq<char> {
        match self {
            Error::Header(e) => "FBX header error: "@ + e.spec_message(),
            Error::UnsupportedVersion(v) => "Unsupported FBX version: FbxVersion("@ + spec_decimal(
                v@ as nat,
            ) + ")"@,
        }
    }

    /// Returns the human-readable message of the error.
    pub fn message(&self) -> (s: String)
        ensures
            s@ == self.spec_message(),
    {
        let mut s = String::new();
        match self {
            Error::Header(e) => {
                s.append("FBX header error: ");
                let m = e.message();
                s.append(m.as_str());
            },
            Error::UnsupportedVersion(v) => {
                s.append("Unsupported FBX version: FbxVersion(");
                push_decimal(&mut s, v.raw() as u64);
                s.append(")");
            },
        }
        s
    }
}

} // verus!
