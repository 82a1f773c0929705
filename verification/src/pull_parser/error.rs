//! Errors and result types.
//!
//! Types in this module will be used among multiple versions of parsers.

use vstd::prelude::*;
use vstd::string::StringExecFns;
use vstd::std_specs::convert::FromSpecImpl;

use crate::pull_parser::SyntacticPosition;
use crate::stream::IoError;

pub use self::data::{Compression, DataError};
pub use self::operation::OperationError;
pub use self::warning::Warning;

mod data;
mod operation;
mod warning;

verus! {

/// Parsing result.
pub type Result<T> = std::result::Result<T, Error>;

/// Parsing error.
#[derive(Debug)]
pub struct Error {
    /// The real error.
    repr: Box<Repr>,
}

/// Internal representation of parsing error.
#[derive(Debug)]
struct Repr {
    /// Error.
    error: ErrorContainer,
    /// Syntactic position.
    position: Option<SyntacticPosition>,
}

/// Error kind for parsing errors.
#[derive(Debug, Clone, Copy, PartialEq, Eq, Structural, Hash)]
pub enum ErrorKind {
    /// Invalid data.
    ///
    /// With this error kind, the inner error must be [`DataError`].
    Data,
    /// I/O error.
    ///
    /// With this error kind, the inner error must be [`IoError`].
    Io,
    /// Invalid operation.
    ///
    /// With this error kind, the inner error must be [`OperationError`].
    Operation,
    /// Critical warning.
    ///
    /// With this error kind, the inner error must be [`Warning`].
    Warning,
}

/// Parsing error container.
#[derive(Debug)]
pub enum ErrorContainer {
    /// Invalid data.
    Data(DataError),
    /// I/O error.
    Io(IoError),
    /// Invalid operation.
    Operation(OperationError),
    /// Critical warning.
    Warning(Warning),
}

/// The kind of an error container.
pub open spec fn spec_container_kind(e: ErrorContainer) -> ErrorKind {
    match e {
        ErrorContainer::Data(_) => ErrorKind::Data,
        ErrorContainer::Io(_) => ErrorKind::Io,
        ErrorContainer::Operation(_) => ErrorKind::Operation,
        ErrorContainer::Warning(_) => ErrorKind::Warning,
    }
}

impl ErrorContainer {
    /// Returns the error kind of the error.
    pub fn kind(&self) -> (k: ErrorKind)
        ensures
            k == spec_container_kind(*self),
    {
        match self {
            ErrorContainer::Data(_) => ErrorKind::Data,
            ErrorContainer::Io(_) => ErrorKind::Io,
            ErrorContainer::Operation(_) => ErrorKind::Operation,
            ErrorContainer::Warning(_) => ErrorKind::Warning,
        }
    }
}

impl Repr {
    /// Creates a new `Repr`.
    fn new(error: ErrorContainer) -> (r: Self)
        ensures
            r.error == error,
            r.position is None,
    {
        Self { error, position: None }
    }

    /// Creates a new `Repr` with the given syntactic position info.
    fn with_position(error: ErrorContainer, position: SyntacticPosition) -> (r: Self)
        ensures
            r.error == error,
            r.position == Some(position),
    {
        Self { error, position: Some(position) }
    }
}

impl Error {
    /// The inner error.
    pub closed spec fn container(&self) -> ErrorContainer {
        self.repr.error
    }

    /// The syntactic position, if any.
    pub closed spec fn spec_position(&self) -> Option<SyntacticPosition> {
        self.repr.position
    }

    /// The error kind.
    pub open spec fn spec_kind(&self) -> ErrorKind {
        spec_container_kind(self.container())
    }

    /// Creates an error without position info.
    pub fn new(error: ErrorContainer) -> (e: Self)
        ensures
            e.container() == error,
            e.spec_position() is None,
    {
        Error { repr: Box::new(Repr::new(error)) }
    }

    /// Returns the error kind.
    pub fn kind(&self) -> (k: ErrorKind)
        ensures
            k == self.spec_kind(),
    {
        self.repr.error.kind()
    }

    /// Returns a reference to the inner error container.
    pub fn get_ref(&self) -> (r: &ErrorContainer)
        ensures
            *r == self.container(),
    {
        &self.repr.error
    }

    /// Returns the syntactic position if available.
    pub fn position(&self) -> (r: Option<&SyntacticPosition>)
        ensures
            r matches Some(p) ==> self.spec_position() == Some(*p),
            r is None ==> self.spec_position() is None,
    {
        self.repr.position.as_ref()
    }

    /// Creates a new `Error` with the given syntactic position info.
    pub(crate) fn with_position(error: ErrorContainer, position: SyntacticPosition) -> (e: Self)
        ensures
            e.container() == error,
            e.spec_position() == Some(position),
    {
        Self { repr: Box::new(Repr::with_position(error, position)) }
    }

    /// Sets the syntactic position and returns the new error.
    pub(crate) fn and_position(self, position: SyntacticPosition) -> (e: Self)
        ensures
            e.container() == self.container(),
            e.spec_position() == Some(position),
    {
        let Error { repr } = self;
        let Repr { error, position: _ } = *repr;
        Self { repr: Box::new(Repr::with_position(error, position)) }
    }
}

impl From<DataError> for ErrorContainer {
    fn from(e: DataError) -> (r: Self) {
        ErrorContainer::Data(e)
    }
}

impl FromSpecImpl<DataError> for ErrorContainer {
    open spec fn obeys_from_spec() -> bool {
        true
    }

    open spec fn from_spec(v: DataError) -> Self {
        ErrorContainer::Data(v)
    }
}

impl From<IoError> for ErrorContainer {
    fn from(e: IoError) -> (r: Self) {
        ErrorContainer::Io(e)
    }
}

impl FromSpecImpl<IoError> for ErrorContainer {
    open spec fn obeys_from_spec() -> bool {
        true
    }

    open spec fn from_spec(v: IoError) -> Self {
        ErrorContainer::Io(v)
    }
}

impl From<OperationError> for ErrorContainer {
    fn from(e: OperationError) -> (r: Self) {
        ErrorContainer::Operation(e)
    }
}

impl FromSpecImpl<OperationError> for ErrorContainer {
    open spec fn obeys_from_spec() -> bool {
        true
    }

    open spec fn from_spec(v: OperationError) -> Self {
        ErrorContainer::Operation(v)
    }
}

impl From<Warning> for ErrorContainer {
    fn from(e: Warning) -> (r: Self) {
        ErrorContainer::Warning(e)
    }
}

impl FromSpecImpl<Warning> for ErrorContainer {
    open spec fn obeys_from_spec() -> bool {
        true
    }

    open spec fn from_spec(v: Warning) -> Self {
        ErrorContainer::Warning(v)
    }
}


impl ErrorContainer {
    /// The human-readable message of the error.
    pub open spec fn spec_message(&self) -> Seq<char> {
        match self {
            ErrorContainer::Data(e) => "Data error: "@ + e.spec_message(),
            ErrorContainer::Io(e) => "I/O error: "@ + e.spec_message(),
            ErrorContainer::Operation(e) => "Invalid operation: "@ + e.spec_message(),
            ErrorContainer::Warning(e) => "Warning considered critical: "@ + e.spec_message(),
        }
    }

    /// Returns the human-readable message of the error.
    pub fn message(&self) -> (s: String)
        ensures
            s@ == self.spec_message(),
    {
        let mut s = String::new();
        let inner = match self {
            ErrorContainer::Data(e) => {
                s.append("Data error: ");
                e.message()
            },
            ErrorContainer::Io(e) => {
                s.append("I/O error: ");
                e.message()
            },
            ErrorContainer::Operation(e) => {
                s.append("Invalid operation: ");
                e.message()
            },
            ErrorContainer::Warning(e) => {
                s.append("Warning considered critical: ");
                e.message()
            },
        };
        s.append(inner.as_str());
        s
    }
}

impl Error {
    /// The human-readable message of the error: that of the inner error.
    pub open spec fn spec_message(&self) -> Seq<char> {
        self.container().spec_message()
    }

    /// Returns the human-readable message of the error.
    pub fn message(&self) -> (s: String)
        ensures
            s@ == self.spec_message(),
    {
        self.get_ref().message()
    }
}

} // verus!
