//! Binary writer error.

use vstd::prelude::*;
use vstd::string::StringExecFns;

use crate::text::{push_decimal, spec_decimal};

use crate::low::FbxVersion;
use crate::stream::IoError;

verus! {

/// Write result.
pub type Result<T> = std::result::Result<T, Error>;

/// Write error.
#[derive(Debug)]
pub enum Error {
    /// Node attribute is too long.
    AttributeTooLong(usize),
    /// Compression error.
    Compression(CompressionError),
    /// File is too large.
    FileTooLarge(u64),
    /// I/O error.
    Io(IoError),
    /// There are no nodes to close.
    NoNodesToClose,
    /// Node name is too long.
    NodeNameTooLong(usize),
    /// Too many array attribute elements.
    TooManyArrayAttributeElements(usize),
    /// Too many attributes.
    TooManyAttributes(usize),
    /// There remains unclosed nodes.
    UnclosedNode(usize),
    /// Unsupported FBX version.
    UnsupportedFbxVersion(FbxVersion),
    /// User-defined error (its description).
    UserDefined(String),
}

impl From<IoError> for Error {
    fn from(e: IoError) -> (r: Self) {
        Error::Io(e)
    }
}

impl vstd::std_specs::convert::FromSpecImpl<IoError> for Error {
    open spec fn obeys_from_spec() -> bool {
        true
    }

    open spec fn from_spec(v: IoError) -> Self {
        Error::Io(v)
    }
}

impl From<CompressionError> for Error {
    fn from(e: CompressionError) -> (r: Self) {
        Error::Compression(e)
    }
}

impl vstd::std_specs::convert::FromSpecImpl<CompressionError> for Error {
    open spec fn obeys_from_spec() -> bool {
        true
    }

    open spec fn from_spec(v: CompressionError) -> Self {
        Error::Compression(v)
    }
}

/// Compression error.
#[derive(Debug)]
pub enum CompressionError {
    /// Zlib error (its description).
    Zlib(String),
}


impl CompressionError {
    /// The human-readable message of the error.
    pub open spec fn spec_message(&self) -> Seq<char> {
        match self {
            CompressionError::Zlib(e) => "Zlib compression error: "@ + e@,
        }
    }

    /// Returns the human-readable message of the error.
    pub fn message(&self) -> (s: String)
        ensures
            s@ == self.spec_message(),
    {
        let mut s = String::new();
        match self {
            CompressionError::Zlib(e) => {
                s.append("Zlib compression error: ");
                s.append(e.as_str());
            },
        }
        s
    }
}

impl Error {
    /// The human-readable message of the error.
    pub open spec fn spec_message(&self) -> Seq<char> {
        match self {
            Error::AttributeTooLong(v) => "Node attribute is too long: "@ + spec_decimal(*v as nat)
                + " bytes"@,
            Error::Compression(e) => "Compression error: "@ + e.spec_message(),
            Error::FileTooLarge(v) => "File is too large: "@ + spec_decimal(*v as nat) + " bytes"@,
            Error::Io(e) => "I/O error: "@ + e.spec_message(),
            Error::NoNodesToClose => "There are no nodes to close"@,
            Error::NodeNameTooLong(v) => "Node name is too long: "@ + spec_decimal(*v as nat)
                + " bytes"@,
            Error::TooManyArrayAttributeElements(v) => "Too many array elements for a single node attribute: count="@
                + spec_decimal(*v as nat),
            Error::TooManyAttributes(v) => "Too many attributes: count="@ + spec_decimal(*v as nat),
            Error::UnclosedNode(v) => "There remains unclosed nodes: depth="@ + spec_decimal(*v as nat),
            Error::UnsupportedFbxVersion(v) => "Unsupported FBX version: FbxVersion("@ + spec_decimal(v@ as nat)
                + ")"@,
            Error::UserDefined(e) => "User-defined error: "@ + e@,
        }
    }

    /// Returns the human-readable message of the error.
    pub fn message(&self) -> (s: String)
        ensures
            s@ == self.spec_message(),
    {
        let mut s = String::new();
        match self {
            Error::AttributeTooLong(v) => {
                s.append("Node attribute is too long: ");
                push_decimal(&mut s, *v as u64);
                s.append(" bytes");
            },
            Error::Compression(e) => {
                s.append("Compression error: ");
                let m = e.message();
                s.append(m.as_str());
            },
            Error::FileTooLarge(v) => {
                s.append("File is too large: ");
                push_decimal(&mut s, *v);
                s.append(" bytes");
            },
            Error::Io(e) => {
                s.append("I/O error: ");
                let m = e.message();
                s.append(m.as_str());
            },
            Error::NoNodesToClose => s.append("There are no nodes to close"),
            Error::NodeNameTooLong(v) => {
                s.append("Node name is too long: ");
                push_decimal(&mut s, *v as u64);
                s.append(" bytes");
            },
            Error::TooManyArrayAttributeElements(v) => {
                s.append("Too many array elements for a single node attribute: count=");
                push_decimal(&mut s, *v as u64);
            },
            Error::TooManyAttributes(v) => {
                s.append("Too many attributes: count=");
                push_decimal(&mut s, *v as u64);
            },
            Error::UnclosedNode(v) => {
                s.append("There remains unclosed nodes: depth=");
                push_decimal(&mut s, *v as u64);
            },
            Error::UnsupportedFbxVersion(v) => {
                s.append("Unsupported FBX version: FbxVersion(");
                push_decimal(&mut s, v.raw() as u64);
                s.append(")");
            },
            Error::UserDefined(e) => {
                s.append("User-defined error: ");
                s.append(e.as_str());
            },
        }
        s
    }
}

} // verus!
