//! Data error.
//!
//! This is mainly syntax and low-level structure error.

use vstd::prelude::*;
use vstd::string::StringExecFns;

use crate::text::{push_decimal, push_option_debug, spec_decimal, spec_option_debug};

verus! {

/// Data error.
#[derive(Debug)]
pub enum DataError {
    /// Data with broken compression, with the debugging form of the
    /// decoder's error.
    BrokenCompression(Compression, String),
    /// FBX footer is broken.
    ///
    /// Detail is not available because the footer may contain variable length
    /// field, and it is hard to identify what is actually broken.
    BrokenFbxFooter,
    /// Got an unknown array attribute encoding.
    InvalidArrayAttributeEncoding(u32),
    /// Invalid node attribute type code.
    ///
    /// The `u8` is the code the parser got.
    InvalidAttributeTypeCode(u8),
    /// Invalid node name encoding.
    ///
    /// This error indicates that the node name is non-valid UTF-8; the bytes
    /// of the name are kept, with the debugging form of the UTF-8 decoding
    /// error.
    InvalidNodeNameEncoding(Vec<u8>, String),
    /// Node attribute error.
    ///
    /// This error indicates that some error happened while reading node
    /// attributes.
    NodeAttributeError,
    /// Node length mismatch.
    ///
    /// This error indicates that a node ends at the position which differs from
    /// the offset declared at the header.
    ///
    /// The former `u64` is expected position, the latter `Option<u64>` is the
    /// actual position the node ends.
    /// If the error is detected before the node actually ends, the actual
    /// position will be `None`.
    NodeLengthMismatch(u64, Option<u64>),
    /// Unexpected attribute value or type.
    ///
    /// The former is the expected, the latter is a description of the actual value.
    UnexpectedAttribute(String, String),
}

/// Compression format or algorithm.
#[derive(Debug, Clone, Copy, PartialEq, Eq, Structural, Hash)]
pub enum Compression {
    /// ZLIB compression.
    Zlib,
}


impl DataError {
    /// The human-readable message of the error.
    pub open spec fn spec_message(&self) -> Seq<char> {
        match self {
            DataError::BrokenFbxFooter => "FBX footer is broken"@,
            DataError::BrokenCompression(_, e) => "Data with broken compression (codec=Zlib): "@
                + e@,
            DataError::InvalidArrayAttributeEncoding(encoding) => "Unknown array attribute encoding: got "@
                + spec_decimal(*encoding as nat),
            DataError::InvalidAttributeTypeCode(code) => "Invalid node attribute type code: "@
                + spec_decimal(*code as nat),
            DataError::InvalidNodeNameEncoding(_, e) => "Invalid node name encoding: "@ + e@,
            DataError::NodeAttributeError => "Some error occured while reading node attributes"@,
            DataError::NodeLengthMismatch(expected, got) => "Node ends with unexpected position: expected "@
                + spec_decimal(*expected as nat) + ", got "@ + spec_option_debug(*got),
            DataError::UnexpectedAttribute(expected, got) => "Unexpected attribute value or type: expected "@
                + expected@ + ", got "@ + got@,
        }
    }

    /// Returns the human-readable message of the error.
    pub fn message(&self) -> (s: String)
        ensures
            s@ == self.spec_message(),
    {
        let mut s = String::new();
        match self {
            DataError::BrokenFbxFooter => s.append("FBX footer is broken"),
            DataError::BrokenCompression(_, e) => {
                s.append("Data with broken compression (codec=Zlib): ");
                s.append(e.as_str());
            },
            DataError::InvalidArrayAttributeEncoding(encoding) => {
                s.append("Unknown array attribute encoding: got ");
                push_decimal(&mut s, *encoding as u64);
            },
            DataError::InvalidAttributeTypeCode(code) => {
                s.append("Invalid node attribute type code: ");
                push_decimal(&mut s, *code as u64);
            },
            DataError::InvalidNodeNameEncoding(_, e) => {
                s.append("Invalid node name encoding: ");
                s.append(e.as_str());
            },
            DataError::NodeAttributeError => s.append("Some error occured while reading node attributes"),
            DataError::NodeLengthMismatch(expected, got) => {
                s.append("Node ends with unexpected position: expected ");
                push_decimal(&mut s, *expected);
                s.append(", got ");
                push_option_debug(&mut s, *got);
            },
            DataError::UnexpectedAttribute(expected, got) => {
                s.append("Unexpected attribute value or type: expected ");
                s.append(expected.as_str());
                s.append(", got ");
                s.append(got.as_str());
            },
        }
        s
    }
}

} // verus!
