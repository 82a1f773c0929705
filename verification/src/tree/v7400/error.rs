//! Error types.

use vstd::prelude::*;
use vstd::string::StringExecFns;

use crate::pull_parser::Error as ParserError;

verus! {

/// FBX data tree load error.
#[derive(Debug)]
#[non_exhaustive]
pub enum LoadError {
    /// Bad parser.
    ///
    /// This error will be mainly caused by user logic error.
    BadParser,
    /// Parser error.
    Parser(ParserError),
}

impl From<ParserError> for LoadError {
    fn from(e: ParserError) -> (r: Self) {
        LoadError::Parser(e)
    }
}

impl vstd::std_specs::convert::FromSpecImpl<ParserError> for LoadError {
    open spec fn obeys_from_spec() -> bool {
        true
    }

    open spec fn from_spec(v: ParserError) -> Self {
        LoadError::Parser(v)
    }
}


impl LoadError {
    /// The human-readable message of the error.
    pub open spec fn spec_message(&self) -> Seq<char> {
        match self {
            LoadError::BadParser => "Attempt to use a bad parser"@,
            LoadError::Parser(e) => "Parser error: "@ + e.spec_message(),
        }
    }

    /// Returns the human-readable message of the error.
    pub fn message(&self) -> (s: String)
        ensures
            s@ == self.spec_message(),
    {
        let mut s = String::new();
        match self {
            LoadError::BadParser => s.append("Attempt to use a bad parser"),
            LoadError::Parser(e) => {
                s.append("Parser error: ");
                let m = e.message();
                s.append(m.as_str());
            },
        }
        s
    }
}

} // verus!
