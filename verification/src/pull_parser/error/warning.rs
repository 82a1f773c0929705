//! Warnings.

use vstd::prelude::*;
use vstd::string::StringExecFns;

use crate::text::{push_decimal, spec_decimal};

verus! {

/// Warning.
#[derive(Debug, Clone, Copy, PartialEq, Eq, Structural)]
pub enum Warning {
    /// Node name is empty.
    EmptyNodeName,
    /// Incorrect boolean representation.
    ///
    /// Boolean value in node attributes should be some prescribed value
    /// (for example `b'T'` and `b'Y'` for FBX 7.4).
    /// Official SDK and tools may emit those values correctly, but some
    /// third-party exporters emits them wrongly with `0x00` and `0x01`, and
    /// those will be ignored by official SDK and tools.
    IncorrectBooleanRepresentation,
    /// Footer padding length is invalid.
    InvalidFooterPaddingLength(usize, usize),
    /// Unexpected value for footer fields (mainly for unknown fields).
    UnexpectedFooterFieldValue,
    /// A node which has children or no attributes ends without a node end
    /// marker.
    MissingNodeEndMarker,
    /// A node which has attributes and no children ends with a node end
    /// marker.
    ExtraNodeEndMarker,
}


impl Warning {
    /// The human-readable message of the warning.
    pub open spec fn spec_message(&self) -> Seq<char> {
        match self {
            Warning::EmptyNodeName => "Node name is empty"@,
            Warning::IncorrectBooleanRepresentation => "Incorrect boolean representation"@,
            Warning::InvalidFooterPaddingLength(expected, got) => "Invalid footer padding length: expected "@
                + spec_decimal(*expected as nat) + " bytes, got "@ + spec_decimal(*got as nat)
                + " bytes"@,
            Warning::UnexpectedFooterFieldValue => "Unexpected footer field value"@,
            Warning::MissingNodeEndMarker => "Missing node end marker"@,
            Warning::ExtraNodeEndMarker => "Extra node end marker"@,
        }
    }

    /// Returns the human-readable message of the warning.
    pub fn message(&self) -> (s: String)
        ensures
            s@ == self.spec_message(),
    {
        let mut s = String::new();
        match self {
            Warning::EmptyNodeName => s.append("Node name is empty"),
            Warning::IncorrectBooleanRepresentation => s.append("Incorrect boolean representation"),
            Warning::InvalidFooterPaddingLength(expected, got) => {
                s.append("Invalid footer padding length: expected ");
                push_decimal(&mut s, *expected as u64);
                s.append(" bytes, got ");
                push_decimal(&mut s, *got as u64);
                s.append(" bytes");
            },
            Warning::UnexpectedFooterFieldValue => s.append("Unexpected footer field value"),
            Warning::MissingNodeEndMarker => s.append("Missing node end marker"),
            Warning::ExtraNodeEndMarker => s.append("Extra node end marker"),
        }
        s
    }
}

} // verus!
