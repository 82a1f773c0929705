//! Tests for FBX versions and headers.

use fbxcel::low::{FbxHeader, FbxVersion, HeaderError};
use fbxcel::pull_parser::ParserVersion;
use fbxcel::stream::{IoError, MemoryReader};

#[test]
fn version() {
    let major = 7;
    let minor = 4;
    let raw = major * 1000 + minor * 100;
    let ver = FbxVersion::new(raw);
    assert_eq!(ver.raw(), raw, "Should return raw value");
    assert_eq!(ver.major(), major, "Should return major version");
    assert_eq!(ver.minor(), minor, "Should return minor version");
    assert_eq!(
        ver.major_minor(),
        (major, minor),
        "Should return major and minor version"
    );
}

#[test]
fn parser_version_of_fbx_versions() {
    assert_eq!(FbxVersion::new(7400).parser_version(), Some(ParserVersion::V7400));
    assert_eq!(FbxVersion::new(7500).parser_version(), Some(ParserVersion::V7400));
    assert_eq!(FbxVersion::new(6100).parser_version(), None);
    assert_eq!(FbxVersion::new(8000).parser_version(), None);
    assert_eq!(ParserVersion::from_fbx_version(FbxVersion::new(7300)), Some(ParserVersion::V7400));
}

fn header_bytes(raw: u32) -> Vec<u8> {
    let mut v = b"Kaydara FBX Binary  \x00\x1a\x00".to_vec();
    v.extend_from_slice(&raw.to_le_bytes());
    v
}

#[test]
fn header_load() {
    let mut data = header_bytes(7500);
    data.push(0xAA);
    let mut reader = MemoryReader::new(data);
    let header = FbxHeader::load(&mut reader).expect("valid header");
    assert_eq!(header.version(), FbxVersion::new(7500));
    assert_eq!(header.parser_version(), Some(ParserVersion::V7400));
    assert_eq!(reader.position(), 27);
}

#[test]
fn header_errors() {
    let mut short = MemoryReader::new(b"Kaydara".to_vec());
    assert_eq!(
        FbxHeader::load(&mut short).err(),
        Some(HeaderError::Io(IoError::UnexpectedEof))
    );
    let mut bad = header_bytes(7400);
    bad[0] = b'k';
    let mut reader = MemoryReader::new(bad);
    assert_eq!(FbxHeader::load(&mut reader).err(), Some(HeaderError::MagicNotDetected));
    let truncated = header_bytes(7400)[..25].to_vec();
    let mut reader = MemoryReader::new(truncated);
    assert_eq!(
        FbxHeader::load(&mut reader).err(),
        Some(HeaderError::Io(IoError::UnexpectedEof))
    );
}
