//! Low-level FBX data types: versions, the file header and the v7400 binary
//! building blocks.

use vstd::prelude::*;
use vstd::string::StringExecFns;

use crate::codec::{byteorder_read_u32, spec_le_u32};
use crate::pull_parser::ParserVersion;
use crate::stream::{IoError, MemoryReader};

pub mod v7400;

verus! {

/// FBX version.
///
/// The raw value is the version number times 1000, e.g. `7400` for FBX 7.4.
#[derive(Debug, Clone, Copy, PartialEq, Eq, Structural, Hash, PartialOrd, Ord)]
pub struct FbxVersion(u32);

impl View for FbxVersion {
    type V = u32;

    closed spec fn view(&self) -> u32 {
        self.0
    }
}

/// The parser version that reads FBX data of the given raw version, if any.
pub open spec fn spec_parser_version(raw: u32) -> Option<ParserVersion> {
    if 7000 <= raw <= 7999 {
        Some(ParserVersion::V7400)
    } else {
        None
    }
}

/// Every FBX 7.x version, from 7.0 up to 7.999, is read by the v7400 parser
/// (including versions before 7.4 and after 7.5, which are not supported but
/// may read well), and no version outside 7.x has a parser.
pub proof fn law_parser_version_7x(raw: u32)
    ensures
        7000 <= raw <= 7999 ==> spec_parser_version(raw) == Some(ParserVersion::V7400),
        raw < 7000 || raw > 7999 ==> spec_parser_version(raw) is None,
        spec_parser_version(raw) is Some <==> raw / 1000 == 7,
{
}

impl FbxVersion {
    /// Creates a new `FbxVersion` from its raw value.
    pub fn new(version: u32) -> (v: Self)
        ensures
            v@ == version,
    {
        FbxVersion(version)
    }

    /// Returns the raw value.
    ///
    /// For example, `7400` for FBX 7.4.
    pub fn raw(self) -> (r: u32)
        ensures
            r == self@,
    {
        self.0
    }

    /// Returns the major version.
    ///
    /// For example, `7` for FBX 7.4.
    pub fn major(self) -> (r: u32)
        ensures
            r == self@ / 1000,
    {
        self.raw() / 1000
    }

    /// Returns the minor version.
    ///
    /// For example, `4` for FBX 7.4.
    pub fn minor(self) -> (r: u32)
        ensures
            r == (self@ % 1000) / 100,
    {
        (self.raw() % 1000) / 100
    }

    /// Returns the major and minor verison.
    ///
    /// For example, `(7, 4)` for FBX 7.4.
    pub fn major_minor(self) -> (r: (u32, u32))
        ensures
            r == (self@ / 1000, (self@ % 1000) / 100),
    {
        let major = self.major();
        let minor = self.minor();
        (major, minor)
    }

    /// Returns the corresponding parser version.
    pub fn parser_version(self) -> (r: Option<ParserVersion>)
        ensures
            r == spec_parser_version(self@),
    {
        ParserVersion::from_fbx_version(self)
    }
}

/// FBX header error.
#[derive(Debug, Clone, Copy, PartialEq, Eq, Structural)]
pub enum HeaderError {
    /// The data ended inside the header.
    Io(IoError),
    /// The magic binary was not found at the start of the data.
    MagicNotDetected,
}

/// Length of the magic binary.
pub const MAGIC_LEN: usize = 23;

/// Length of the whole file header (magic binary and version).
pub const HEADER_LEN: usize = 27;

/// The magic binary at the start of FBX binary data:
/// `"Kaydara FBX Binary  \x00\x1a\x00"`.
pub open spec fn spec_magic() -> Seq<u8> {
    seq![
        75u8, 97, 121, 100, 97, 114, 97, 32, 70, 66, 88, 32, 66, 105, 110, 97, 114, 121, 32, 32, 0,
        26, 0,
    ]
}

/// Returns the magic binary.
pub fn magic() -> (m: Vec<u8>)
    ensures
        m@ == spec_magic(),
        m@.len() == MAGIC_LEN,
{
    let m: Vec<u8> = vec![
        75u8, 97, 121, 100, 97, 114, 97, 32, 70, 66, 88, 32, 66, 105, 110, 97, 114, 121, 32, 32, 0,
        26, 0,
    ];
    assert(m@ =~= spec_magic());
    m
}

/// The raw FBX version declared by the header a byte stream starts with, or
/// the error reading the header gives.
pub open spec fn spec_load_header(bytes: Seq<u8>) -> Result<u32, HeaderError> {
    if bytes.len() < MAGIC_LEN {
        Err(HeaderError::Io(IoError::UnexpectedEof))
    } else if bytes.take(MAGIC_LEN as int) != spec_magic() {
        Err(HeaderError::MagicNotDetected)
    } else if bytes.len() < HEADER_LEN {
        Err(HeaderError::Io(IoError::UnexpectedEof))
    } else {
        Ok(spec_le_u32(bytes.subrange(MAGIC_LEN as int, HEADER_LEN as int)))
    }
}

/// FBX binary header.
#[derive(Debug, Clone, Copy, PartialEq, Eq, Structural)]
pub struct FbxHeader {
    /// FBX version.
    version: FbxVersion,
}

impl FbxHeader {
    /// The FBX version the header declares.
    pub closed spec fn spec_version(self) -> FbxVersion {
        self.version
    }

    /// Loads the header from the start of the reader.
    ///
    /// On success the reader is left just after the header.
    pub fn load(reader: &mut MemoryReader) -> (r: Result<Self, HeaderError>)
        ensures
            r is Ok <==> spec_load_header(old(reader).rest()) is Ok,
            r matches Ok(h) ==> spec_load_header(old(reader).rest()) == Ok::<u32, HeaderError>(
                h.spec_version()@,
            ),
            r matches Err(e) ==> spec_load_header(old(reader).rest()) == Err::<u32, HeaderError>(
                e,
            ),
            final(reader).data() == old(reader).data(),
            r is Ok ==> final(reader).rest() == old(reader).rest().skip(HEADER_LEN as int),
            r is Ok ==> final(reader).pos() == old(reader).pos() + HEADER_LEN,
    {
        let ghost bytes = reader.rest();
        let magic_buf = match reader.read_exact(MAGIC_LEN) {
            Ok(v) => v,
            Err(e) => return Err(HeaderError::Io(e)),
        };
        let expected = magic();
        let mut i: usize = 0;
        while i < MAGIC_LEN
            invariant
                bytes == old(reader).rest(),
                bytes.len() >= MAGIC_LEN,
                reader.data() == old(reader).data(),
                magic_buf@ == bytes.take(MAGIC_LEN as int),
                expected@ == spec_magic(),
                expected@.len() == MAGIC_LEN,
                magic_buf@.len() == MAGIC_LEN,
                i <= MAGIC_LEN,
                forall|k: int| 0 <= k < i ==> magic_buf@[k] == expected@[k],
            decreases MAGIC_LEN - i,
        {
            if magic_buf[i] != expected[i] {
                assert(bytes.take(MAGIC_LEN as int)[i as int] != spec_magic()[i as int]);
                assert(bytes.take(MAGIC_LEN as int) != spec_magic());
                return Err(HeaderError::MagicNotDetected);
            }
            i = i + 1;
        }
        assert(bytes.take(MAGIC_LEN as int) =~= spec_magic());
        let ver_buf = match reader.read_exact(4) {
            Ok(v) => v,
            Err(e) => return Err(HeaderError::Io(e)),
        };
        let raw = byteorder_read_u32(ver_buf.as_slice());
        assert(ver_buf@ =~= bytes.subrange(MAGIC_LEN as int, HEADER_LEN as int));
        assert(bytes.skip(MAGIC_LEN as int).skip(4) =~= bytes.skip(HEADER_LEN as int));
        Ok(FbxHeader { version: FbxVersion(raw) })
    }

    /// Returns the FBX version.
    pub fn version(&self) -> (v: FbxVersion)
        ensures
            v == self.spec_version(),
    {
        self.version
    }

    /// Returns the parser version that reads the rest of the data, if any.
    pub fn parser_version(&self) -> (r: Option<ParserVersion>)
        ensures
            r == spec_parser_version(self.spec_version()@),
    {
        self.version.parser_version()
    }
}


impl HeaderError {
    /// The human-readable message of the error.
    pub open spec fn spec_message(&self) -> Seq<char> {
        match self {
            HeaderError::Io(e) => "I/O error: "@ + e.spec_message(),
            HeaderError::MagicNotDetected => "FBX magic binary is not detected"@,
        }
    }

    /// Returns the human-readable message of the error.
    pub fn message(&self) -> (s: String)
        ensures
            s@ == self.spec_message(),
    {
        let mut s = String::new();
        match self {
            HeaderError::Io(e) => {
                s.append("I/O error: ");
                let m = e.message();
                s.append(m.as_str());
            },
            HeaderError::MagicNotDetected => s.append("FBX magic binary is not detected"),
        }
        s
    }
}

} // verus!
