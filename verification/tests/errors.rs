//! Malformed documents and their errors and warnings.

use fbxcel::low::v7400::AttributeValue;
use fbxcel::low::FbxVersion;
use fbxcel::pull_parser::any::{from_reader, AnyParser, Error as AnyError};
use fbxcel::pull_parser::error::{DataError, ErrorContainer, ErrorKind, OperationError, Warning};
use fbxcel::pull_parser::v7400::attribute::loaders::DirectLoader;
use fbxcel::pull_parser::v7400::{self, Event, Parser};
use fbxcel::pull_parser::ParserVersion;
use fbxcel::stream::{IoError, MemoryReader, MemoryWriter};
use fbxcel::writer::v7400::binary::{Error as WriteError, FbxFooter, Writer};

fn header(raw: u32) -> Vec<u8> {
    let mut v = b"Kaydara FBX Binary  \x00\x1a\x00".to_vec();
    v.extend_from_slice(&raw.to_le_bytes());
    v
}

/// An FBX 7.4 document with one top-level node holding the given raw
/// attributes, declared with the given end offset change.
fn one_node(name: &[u8], num_attrs: u32, attrs: &[u8], end_delta: i64) -> Vec<u8> {
    let mut v = header(7400);
    let end = (v.len() + 13 + name.len() + attrs.len()) as i64 + end_delta;
    v.extend_from_slice(&(end as u32).to_le_bytes());
    v.extend_from_slice(&num_attrs.to_le_bytes());
    v.extend_from_slice(&(attrs.len() as u32).to_le_bytes());
    v.push(name.len() as u8);
    v.extend_from_slice(name);
    v.extend_from_slice(attrs);
    v.extend_from_slice(&[0; 13]);
    v
}

/// An FBX 7.4 document that ends inside the attributes of its first node.
fn cut_node(name: &[u8], num_attrs: u32, attrs: &[u8]) -> Vec<u8> {
    let mut v = one_node(name, num_attrs, attrs, 0);
    v.truncate(v.len() - 13);
    v
}

fn parser_of(data: Vec<u8>) -> Parser {
    match from_reader(MemoryReader::new(data)).expect("parsable header") {
        AnyParser::V7400(p) => p,
    }
}

fn load_first_attribute(parser: &mut Parser) -> fbxcel::pull_parser::Result<Option<AttributeValue>> {
    match parser.next_event().expect("node start") {
        Event::StartNode(start) => start.attributes().load_next(DirectLoader),
        other => panic!("expected a node, got {:?}", other),
    }
}

#[test]
fn invalid_attribute_type_code() {
    let mut parser = parser_of(one_node(b"N", 1, b"Z", 0));
    let err = load_first_attribute(&mut parser).unwrap_err();
    assert_eq!(err.kind(), ErrorKind::Data);
    assert!(matches!(
        err.get_ref(),
        ErrorContainer::Data(DataError::InvalidAttributeTypeCode(b'Z'))
    ));
    assert!(parser.is_aborted());
    let again = parser.next_event().unwrap_err();
    assert!(matches!(
        again.get_ref(),
        ErrorContainer::Operation(OperationError::AlreadyAborted)
    ));
}

#[test]
fn truncated_attribute_value() {
    let mut parser = parser_of(cut_node(b"N", 1, &[b'I', 1, 2]));
    let err = load_first_attribute(&mut parser).unwrap_err();
    assert!(matches!(err.get_ref(), ErrorContainer::Io(IoError::UnexpectedEof)));
    assert_eq!(err.position().map(|p| p.attribute_index()), Some(Some(0)));
}

#[test]
fn attribute_value_reads_on_into_following_bytes() {
    let mut parser = parser_of(one_node(b"N", 1, &[b'I', 1, 2], 0));
    assert_eq!(load_first_attribute(&mut parser).unwrap(), Some(AttributeValue::I32(513)));
}

#[test]
fn invalid_array_encoding() {
    let mut attrs = vec![b'i'];
    attrs.extend_from_slice(&1u32.to_le_bytes());
    attrs.extend_from_slice(&7u32.to_le_bytes());
    attrs.extend_from_slice(&4u32.to_le_bytes());
    attrs.extend_from_slice(&5i32.to_le_bytes());
    let mut parser = parser_of(one_node(b"N", 1, &attrs, 0));
    let err = load_first_attribute(&mut parser).unwrap_err();
    assert!(matches!(
        err.get_ref(),
        ErrorContainer::Data(DataError::InvalidArrayAttributeEncoding(7))
    ));
}

#[test]
fn short_array_payload_is_an_io_error() {
    let mut attrs = vec![b'i'];
    attrs.extend_from_slice(&3u32.to_le_bytes());
    attrs.extend_from_slice(&0u32.to_le_bytes());
    attrs.extend_from_slice(&4u32.to_le_bytes());
    attrs.extend_from_slice(&5i32.to_le_bytes());
    let mut parser = parser_of(cut_node(b"N", 1, &attrs));
    let err = load_first_attribute(&mut parser).unwrap_err();
    assert!(matches!(err.get_ref(), ErrorContainer::Io(IoError::UnexpectedEof)), "{:?}", err);
}

#[test]
fn broken_zlib_stream() {
    let mut attrs = vec![b'd'];
    attrs.extend_from_slice(&1u32.to_le_bytes());
    attrs.extend_from_slice(&1u32.to_le_bytes());
    attrs.extend_from_slice(&2u32.to_le_bytes());
    attrs.extend_from_slice(&[0xff, 0xff]);
    let mut parser = parser_of(one_node(b"N", 1, &attrs, 0));
    let err = load_first_attribute(&mut parser).unwrap_err();
    assert!(matches!(
        err.get_ref(),
        ErrorContainer::Data(DataError::BrokenCompression(_, _))
    ));
    let expected = match libflate::zlib::Decoder::new(&[0xffu8, 0xff][..]) {
        Err(e) => e,
        Ok(_) => panic!("a broken header is expected"),
    };
    assert_eq!(
        err.message(),
        format!("Data error: Data with broken compression (codec=Zlib): {:?}", expected)
    );
}

#[test]
fn incorrect_boolean_is_warned() {
    let mut parser = parser_of(one_node(b"N", 1, &[b'C', 1], 0));
    let v = load_first_attribute(&mut parser).expect("warnings are not critical by default");
    assert_eq!(v, Some(AttributeValue::Bool(true)));
    let warnings = parser.warnings();
    assert_eq!(warnings.len(), 1);
    assert_eq!(warnings[0].0, Warning::IncorrectBooleanRepresentation);
    assert_eq!(warnings[0].1.attribute_index(), Some(0));
}

#[test]
fn critical_incorrect_boolean_stops_the_parser() {
    let mut parser = parser_of(one_node(b"N", 1, &[b'C', 0], 0));
    parser.set_warnings_critical(true);
    let err = load_first_attribute(&mut parser).unwrap_err();
    assert!(matches!(
        err.get_ref(),
        ErrorContainer::Warning(Warning::IncorrectBooleanRepresentation)
    ));
    assert!(parser.is_aborted());
}

#[test]
fn invalid_node_name_encoding() {
    let mut parser = parser_of(one_node(&[0xff, 0xfe], 0, &[], 0));
    let err = parser.next_event().unwrap_err();
    match err.get_ref() {
        ErrorContainer::Data(DataError::InvalidNodeNameEncoding(bytes, description)) => {
            assert_eq!(bytes, &vec![0xff, 0xfe]);
            let expected = String::from_utf8(vec![0xff, 0xfe]).unwrap_err();
            assert_eq!(description, &format!("{:?}", expected));
            assert_eq!(
                err.message(),
                format!("Data error: Invalid node name encoding: {:?}", expected)
            );
        }
        other => panic!("unexpected error: {:?}", other),
    }
}

#[test]
fn empty_node_name_is_warned() {
    let mut parser = parser_of(one_node(b"", 0, &[], 0));
    match parser.next_event().expect("node") {
        Event::StartNode(start) => assert_eq!(start.name(), ""),
        other => panic!("expected a node, got {:?}", other),
    }
    assert_eq!(parser.warnings().len(), 1);
    assert_eq!(parser.warnings()[0].0, Warning::EmptyNodeName);
}

#[test]
fn node_length_mismatch() {
    let mut parser = parser_of(one_node(b"N", 0, &[], 5));
    assert!(matches!(parser.next_event(), Ok(Event::StartNode(_))));
    let err = parser.next_event().unwrap_err();
    match err.get_ref() {
        ErrorContainer::Data(DataError::NodeLengthMismatch(expected, Some(got))) => {
            assert_eq!(*got, *expected + 8);
        }
        other => panic!("unexpected error: {:?}", other),
    }
}

#[test]
fn truncated_node_header() {
    let mut data = header(7400);
    data.extend_from_slice(&[1, 2, 3]);
    let mut parser = parser_of(data);
    let err = parser.next_event().unwrap_err();
    assert_eq!(err.kind(), ErrorKind::Io);
    assert_eq!(err.position().map(|p| p.byte_pos()), Some(30));
}

#[test]
fn unsupported_versions() {
    match from_reader(MemoryReader::new(header(6100))) {
        Err(AnyError::UnsupportedVersion(v)) => assert_eq!(v, FbxVersion::new(6100)),
        _ => panic!("FBX 6.1 should be unsupported"),
    }
    let err = v7400::from_reader(FbxVersion::new(8000), MemoryReader::new(Vec::new())).unwrap_err();
    assert!(matches!(
        err.get_ref(),
        ErrorContainer::Operation(OperationError::UnsupportedFbxVersion(ParserVersion::V7400, _))
    ));
    assert!(matches!(
        Writer::new(MemoryWriter::new(Vec::new()), FbxVersion::new(6100)),
        Err(WriteError::UnsupportedFbxVersion(_))
    ));
}

#[test]
fn writer_node_errors() {
    let mut writer = Writer::new(MemoryWriter::new(Vec::new()), FbxVersion::new(7400)).unwrap();
    assert!(matches!(writer.close_node(), Err(WriteError::NoNodesToClose)));
    let long = "x".repeat(256);
    assert!(matches!(writer.new_node(&long), Err(WriteError::NodeNameTooLong(256))));
    let _ = writer.new_node("Open").unwrap();
    assert_eq!(writer.depth(), 1);
    assert!(matches!(
        writer.finalize(&FbxFooter::default()),
        Err(WriteError::UnclosedNode(1))
    ));
}

#[test]
fn truncated_zlib_stream_is_an_unexpected_end() {
    let values: Vec<u8> = (0..64u64).flat_map(|v| (v as f64).to_bits().to_le_bytes()).collect();
    let mut encoder = libflate::zlib::Encoder::new(Vec::new()).unwrap();
    std::io::Write::write_all(&mut encoder, &values).unwrap();
    let mut stream = encoder.finish().into_result().unwrap();
    stream.truncate(stream.len() / 2);
    let mut attrs = vec![b'd'];
    attrs.extend_from_slice(&64u32.to_le_bytes());
    attrs.extend_from_slice(&1u32.to_le_bytes());
    attrs.extend_from_slice(&(stream.len() as u32).to_le_bytes());
    attrs.extend_from_slice(&stream);
    let mut parser = parser_of(one_node(b"N", 1, &attrs, 0));
    let err = load_first_attribute(&mut parser).unwrap_err();
    assert!(matches!(err.get_ref(), ErrorContainer::Io(IoError::UnexpectedEof)));
}

#[test]
fn v7400_parser_positions_start_after_the_header() {
    let parser = v7400::from_reader(FbxVersion::new(7400), MemoryReader::new(Vec::new())).unwrap();
    assert_eq!(parser.reader_position(), 27);
    assert_eq!(parser.fbx_version(), FbxVersion::new(7400));
    let parser =
        v7400::from_seekable_reader(FbxVersion::new(7400), MemoryReader::new(vec![0; 13])).unwrap();
    assert_eq!(parser.reader_position(), 27);
}

#[test]
fn written_len_counts_the_attribute_bytes() {
    let mut writer = Writer::new(MemoryWriter::new(Vec::new()), FbxVersion::new(7400)).unwrap();
    let mut attrs = writer.new_node("N").unwrap();
    let before = attrs.written_len();
    attrs.append_binary_direct(&[1, 2, 3]).unwrap();
    assert_eq!(attrs.written_len(), before + 8);
}

#[test]
fn error_messages() {
    assert_eq!(
        Warning::InvalidFooterPaddingLength(3, 120).message(),
        "Invalid footer padding length: expected 3 bytes, got 120 bytes"
    );
    assert_eq!(Warning::EmptyNodeName.message(), "Node name is empty");
    assert_eq!(
        DataError::NodeLengthMismatch(1024, Some(1037)).message(),
        "Node ends with unexpected position: expected 1024, got Some(1037)"
    );
    assert_eq!(
        DataError::NodeLengthMismatch(0, None).message(),
        "Node ends with unexpected position: expected 0, got None"
    );
    assert_eq!(
        DataError::InvalidNodeNameEncoding(vec![255, 0, 7], "FromUtf8Error".to_string()).message(),
        "Invalid node name encoding: FromUtf8Error"
    );
    assert_eq!(
        DataError::InvalidAttributeTypeCode(99).message(),
        "Invalid node attribute type code: 99"
    );
    assert_eq!(
        DataError::BrokenCompression(fbxcel::pull_parser::error::Compression::Zlib, "Custom".to_string())
            .message(),
        "Data with broken compression (codec=Zlib): Custom"
    );
    assert_eq!(
        OperationError::UnsupportedFbxVersion(ParserVersion::V7400, FbxVersion::new(6100)).message(),
        "Unsupported FBX version: parser=V7400, fbx=FbxVersion(6100)"
    );
    assert_eq!(
        ErrorContainer::Io(IoError::UnexpectedEof).message(),
        "I/O error: unexpected end of data"
    );
    assert_eq!(
        WriteError::UnsupportedFbxVersion(FbxVersion::new(8000)).message(),
        "Unsupported FBX version: FbxVersion(8000)"
    );
    assert_eq!(WriteError::FileTooLarge(4294967296).message(), "File is too large: 4294967296 bytes");
    let err = v7400::from_reader(FbxVersion::new(8000), MemoryReader::new(Vec::new())).unwrap_err();
    assert_eq!(
        err.message(),
        "Invalid operation: Unsupported FBX version: parser=V7400, fbx=FbxVersion(8000)"
    );
}
