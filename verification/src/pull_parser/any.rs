//! Types and functions for all supported versions.

use vstd::prelude::*;

use crate::low::{spec_load_header, spec_parser_version, FbxHeader, FbxVersion, HEADER_LEN};
use crate::pull_parser::v7400::{spec_headroom, Parser};
use crate::pull_parser::{ParserSource, ParserVersion};
use crate::stream::MemoryReader;

pub use self::error::{Error, Result};

mod error;

verus! {

/// Parser with any supported version.
#[derive(Debug)]
pub enum AnyParser {
    /// FBX 7.4 or later.
    V7400(Parser),
}

impl AnyParser {
    /// Returns the parser version.
    pub fn parser_version(&self) -> (r: ParserVersion)
        ensures
            self matches AnyParser::V7400(_) ==> r == ParserVersion::V7400,
    {
        match self {
            AnyParser::V7400(_) => ParserVersion::V7400,
        }
    }

    /// Returns the FBX version.
    pub fn fbx_version(&self) -> (r: FbxVersion)
        ensures
            self matches AnyParser::V7400(p) ==> r == p.spec_fbx_version(),
    {
        match self {
            AnyParser::V7400(parser) => parser.fbx_version(),
        }
    }
}

/// Returns the parser version for the FBX data.
fn parser_version(header: &FbxHeader) -> (r: Result<ParserVersion>)
    ensures
        spec_parser_version(header.spec_version()@) matches Some(v) ==> r == Ok::<
            ParserVersion,
            Error,
        >(v),
        spec_parser_version(header.spec_version()@) is None ==> r == Err::<ParserVersion, Error>(
            Error::UnsupportedVersion(header.spec_version()),
        ),
{
    match header.parser_version() {
        Some(v) => Ok(v),
        None => Err(Error::UnsupportedVersion(header.version())),
    }
}

/// What creating a parser for the FBX data in `data` gives, the data starting
/// at position `pos`: a header error, an unsupported version, or a brand-new
/// parser positioned after the header.
pub open spec fn spec_any_parser(data: Seq<u8>, pos: nat, seekable: bool, r: Result<AnyParser>) -> bool {
    match spec_load_header(data) {
        Err(e) => r == Err::<AnyParser, Error>(Error::Header(e)),
        Ok(raw) => match spec_parser_version(raw) {
            None => r matches Err(Error::UnsupportedVersion(v)) && v@ == raw,
            Some(_) => r matches Ok(AnyParser::V7400(p)) && {
                &&& p.wf()
                &&& p.spec_fresh(p.spec_fbx_version())
                &&& p.spec_fbx_version()@ == raw
                &&& p.spec_reader().spec_rest() == data.skip(HEADER_LEN as int)
                &&& p.spec_reader().spec_position() == HEADER_LEN
                &&& p.spec_reader().spec_seekable() == seekable
            },
        },
    }
}

/// Loads the FBX header from the given reader, and creates a parser for the
/// rest of the data, which skips by reading.
pub fn from_reader(reader: MemoryReader) -> (r: Result<AnyParser>)
    requires
        reader.pos() + reader.rest().len() + spec_headroom() <= u64::MAX,
    ensures
        spec_any_parser(reader.rest(), reader.pos(), false, r),
{
    let mut reader = reader;
    let header = match FbxHeader::load(&mut reader) {
        Ok(h) => h,
        Err(e) => return Err(Error::Header(e)),
    };
    let version = parser_version(&header)?;
    match version {
        ParserVersion::V7400 => match crate::pull_parser::v7400::from_reader(header.version(), reader) {
            Ok(parser) => Ok(AnyParser::V7400(parser)),
            Err(_) => Err(Error::UnsupportedVersion(header.version())),
        },
    }
}

/// Loads the FBX header from the given reader, and creates a parser for the
/// rest of the data, which skips by seeking.
pub fn from_seekable_reader(reader: MemoryReader) -> (r: Result<AnyParser>)
    requires
        reader.pos() + reader.rest().len() + spec_headroom() <= u64::MAX,
    ensures
        spec_any_parser(reader.rest(), reader.pos(), true, r),
{
    let mut reader = reader;
    let header = match FbxHeader::load(&mut reader) {
        Ok(h) => h,
        Err(e) => return Err(Error::Header(e)),
    };
    let version = parser_version(&header)?;
    match version {
        ParserVersion::V7400 => match crate::pull_parser::v7400::from_seekable_reader(
            header.version(),
            reader,
        ) {
            Ok(parser) => Ok(AnyParser::V7400(parser)),
            Err(_) => Err(Error::UnsupportedVersion(header.version())),
        },
    }
}

} // verus!
