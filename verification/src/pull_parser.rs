//! Pull parser for FBX binary.
//!
//! The parser reads from an in-memory byte stream
//! ([`crate::stream::MemoryReader`]) wrapped in one of the sources of the
//! [`reader`] module, which track the byte position.

pub use self::error::{Error, Result};
pub use self::position::SyntacticPosition;
pub use self::reader::ParserSource;
pub use self::version::ParserVersion;

pub mod any;
pub mod error;
mod position;
pub mod reader;
mod version;
pub mod v7400;
