//! Error and result types for `tree::any` module.

use vstd::prelude::*;
use vstd::string::StringExecFns;

use crate::pull_parser;
use crate::tree::v7400::LoadError;

verus! {

/// AnyTree load result.
pub type Result<T> = std::result::Result<T, Error>;

/// Error.
#[derive(Debug)]
#[non_exhaustive]
pub enum Error {
    /// Parser creation error.
    ParserCreation(pull_parser::any::Error),
    /// Parser error.
    Parser(pull_parser::Error),
    /// Tree load error.
    Tree(LoadError),
}

impl From<pull_parser::any::Error> for Error {
    fn from(e: pull_parser::any::Error) -> (r: Self) {
        Error::ParserCreation(e)
    }
}

impl vstd::std_specs::convert::FromSpecImpl<pull_parser::any::Error> for Error {
    open spec fn obeys_from_spec() -> bool {
        true
    }

    open spec fn from_spec(v: pull_parser::any::Error) -> Self {
        Error::ParserCreation(v)
    }
}

impl From<pull_parser::Error> for Error {
    fn from(e: pull_parser::Error) -> (r: Self) {
        Error::Parser(e)
    }
}

impl vstd::std_specs::convert::FromSpecImpl<pull_parser::Error> for Error {
    open spec fn obeys_from_spec() -> bool {
        true
    }

    open spec fn from_spec(v: pull_parser::Error) -> Self {
        Error::Parser(v)
    }
}

impl From<LoadError> for Error {
    fn from(e: LoadError) -> (r: Self) {
        Error::Tree(e)
    }
}

impl vstd::std_specs::convert::FromSpecImpl<LoadError> for Error {
    open spec fn obeys_from_spec() -> bool {
        true
    }

    open spec fn from_spec(v: LoadError) -> Self {
        Error::Tree(v)
    }
}


impl Error {
    /// The human-readable message of the error.
    pub open spec fn spec_message(&self) -> Seq<char> {
        match self {
            Error::ParserCreation(e) => "Failed to create a parser: "@ + e.spec_message(),
            Error::Parser(e) => "Parser error: "@ + e.spec_message(),
            Error::Tree(e) => "Tree load error: "@ + e.spec_message(),
        }
    }

    /// Returns the human-readable message of the error.
    pub fn message(&self) -> (s: String)
        ensures
            s@ == self.spec_message(),
    {
        let mut s = String::new();
        let m = match self {
            Error::ParserCreation(e) => {
                s.append("Failed to create a parser: ");
                e.message()
            },
            Error::Parser(e) => {
                s.append("Parser error: ");
                e.message()
            },
            Error::Tree(e) => {
                s.append("Tree load error: ");
                e.message()
            },
        };
        s.append(m.as_str());
        s
    }
}

} // verus!
