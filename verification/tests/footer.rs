//! Writing documents with their footers, then parsing them back.

use fbxcel::low::v7400::AttributeValue;
use fbxcel::low::FbxVersion;
use fbxcel::pull_parser::any::{from_reader, from_seekable_reader, AnyParser};
use fbxcel::pull_parser::error::{DataError, ErrorContainer, ErrorKind, Warning};
use fbxcel::pull_parser::v7400::attribute::loaders::DirectLoader;
use fbxcel::pull_parser::v7400::{Attributes, Event, Parser};
use fbxcel::stream::{IoError, MemoryReader, MemoryWriter};
use fbxcel::tree::any::AnyTree;
use fbxcel::tree::v7400::{Loader, Tree};
use fbxcel::writer::v7400::binary::{FbxFooter, FbxFooterPaddingLength, Writer};

const MAGIC: &[u8] = b"Kaydara FBX Binary  \x00\x1a\x00";

const CUSTOM_UNKNOWN1: [u8; 16] = [
    0xff, 0xbe, 0xad, 0x0c, 0xdb, 0xca, 0xd9, 0x68, 0xb7, 0x76, 0xf5, 0x84, 0x13, 0xf2, 0x21, 0x70,
];

const UNKNOWN3: [u8; 16] = [
    0xf8, 0x5a, 0x8c, 0x6a, 0xde, 0xf5, 0xd9, 0x7e, 0xec, 0xe9, 0x0c, 0xe3, 0x75, 0x8f, 0x29, 0x0b,
];

fn expect_node_start<'a>(parser: &'a mut Parser, name: &str) -> Attributes<'a> {
    match parser.next_event().expect("node start") {
        Event::StartNode(node) => {
            assert_eq!(node.name(), name);
            node.attributes()
        }
        ev => panic!("Unexpected event: {:?}", ev),
    }
}

fn expect_node_end(parser: &mut Parser) {
    match parser.next_event().expect("node end") {
        Event::EndNode => {}
        ev => panic!("Unexpected event: {:?}", ev),
    }
}

fn expect_fbx_end(parser: &mut Parser) -> fbxcel::pull_parser::Result<fbxcel::low::v7400::FbxFooter> {
    match parser.next_event().expect("document end") {
        Event::EndFbx(footer_res) => footer_res,
        ev => panic!("Unexpected event: {:?}", ev),
    }
}

fn v7400(parser: AnyParser) -> Parser {
    match parser {
        AnyParser::V7400(parser) => parser,
    }
}

/// Writes the sample tree: `Node0 {Node0_0, Node0_1}`, `Node1 [true]
/// {Node1_0 (42, f), Node1_1 [[1, 2, 4, 8, 16], "Hello, world"]}`.
fn write_sample(writer: &mut Writer, f: f64) {
    let _ = writer.new_node("Node0").unwrap();
    let _ = writer.new_node("Node0_0").unwrap();
    writer.close_node().unwrap();
    let _ = writer.new_node("Node0_1").unwrap();
    writer.close_node().unwrap();
    writer.close_node().unwrap();
    {
        let mut attrs = writer.new_node("Node1").unwrap();
        attrs.append_bool(true).unwrap();
    }
    {
        let mut attrs = writer.new_node("Node1_0").unwrap();
        attrs.append_i32(42).unwrap();
        attrs.append_f64(f.to_bits()).unwrap();
    }
    writer.close_node().unwrap();
    {
        let mut attrs = writer.new_node("Node1_1").unwrap();
        attrs.append_binary_direct(&[1u8, 2, 4, 8, 16]).unwrap();
        attrs.append_string_direct("Hello, world").unwrap();
    }
    writer.close_node().unwrap();
    writer.close_node().unwrap();
}

fn sample_tree(f: f64) -> Tree {
    let mut tree = Tree::default();
    let node0_id = tree.append_new(tree.root().node_id(), "Node0");
    tree.append_new(node0_id, "Node0_0");
    tree.append_new(node0_id, "Node0_1");
    let node1_id = tree.append_new(tree.root().node_id(), "Node1");
    tree.append_attribute(node1_id, AttributeValue::Bool(true));
    let node1_0_id = tree.append_new(node1_id, "Node1_0");
    tree.append_attribute(node1_0_id, AttributeValue::I32(42));
    tree.append_attribute(node1_0_id, AttributeValue::F64(f.to_bits()));
    let node1_1_id = tree.append_new(node1_id, "Node1_1");
    tree.append_attribute(node1_1_id, AttributeValue::Binary(vec![1u8, 2, 4, 8, 16]));
    tree.append_attribute(node1_1_id, AttributeValue::String("Hello, world".to_string()));
    tree
}

fn sample_document(version: u32, footer: &FbxFooter) -> Vec<u8> {
    let mut writer =
        Writer::new(MemoryWriter::new(Vec::new()), FbxVersion::new(version)).expect("supported");
    write_sample(&mut writer, 1.234);
    writer.finalize(footer).expect("all closed").into_inner()
}

/// The padding length of the sample document with the default footer, as
/// read back.
fn default_padding_len() -> usize {
    let data = sample_document(7400, &Default::default());
    let mut parser = v7400(from_reader(MemoryReader::new(data)).unwrap());
    let (_, footer_res) = Loader::new().load(&mut parser).unwrap();
    assert!(parser.warnings().is_empty());
    footer_res.expect("valid footer").padding_len
}

/// Compares expected binary and binary generated with events.
#[test]
fn empty_write_v7400() {
    let writer = Writer::new(MemoryWriter::new(Vec::new()), FbxVersion::new(7400)).unwrap();
    let footer = FbxFooter {
        unknown1: Some(&CUSTOM_UNKNOWN1),
        padding_len: Default::default(),
        unknown2: None,
        unknown3: None,
    };
    let dest = writer.finalize(&footer).unwrap().into_inner();

    let expected = {
        let raw_ver = 7400u32;
        let mut vec = Vec::new();
        vec.extend(MAGIC);
        vec.extend(&raw_ver.to_le_bytes());
        vec.extend(std::iter::repeat(0).take(4 * 3 + 1));
        vec.extend(&CUSTOM_UNKNOWN1);
        {
            let len = vec.len().wrapping_neg() % 16;
            assert_eq!((vec.len() + len) % 16, 0);
            vec.extend(std::iter::repeat(0).take(len));
        }
        vec.extend(&[0; 4]);
        vec.extend(&raw_ver.to_le_bytes());
        vec.extend(std::iter::repeat(0).take(120));
        vec.extend(&UNKNOWN3);
        vec
    };

    assert_eq!(dest.len() % 16, 0);
    assert_eq!(dest, expected);

    let mut parser = v7400(from_seekable_reader(MemoryReader::new(dest)).unwrap());
    assert_eq!(parser.fbx_version(), FbxVersion::new(7400));
    {
        let footer = expect_fbx_end(&mut parser).expect("valid footer");
        assert_eq!(footer.unknown1, CUSTOM_UNKNOWN1.to_vec());
        assert_eq!(footer.unknown2, vec![0u8; 4]);
        assert_eq!(footer.unknown3, UNKNOWN3.to_vec());
    }
    assert_eq!(parser.warnings().len(), 0);
}

/// Parses a written document event by event.
#[test]
fn tree_write_7500() {
    let mut writer = Writer::new(MemoryWriter::new(Vec::new()), FbxVersion::new(7500)).unwrap();
    write_sample(&mut writer, 3.14);
    let dest = writer.finalize(&Default::default()).unwrap().into_inner();

    let mut parser = v7400(from_seekable_reader(MemoryReader::new(dest)).unwrap());
    assert_eq!(parser.fbx_version(), FbxVersion::new(7500));
    assert_eq!(expect_node_start(&mut parser, "Node0").total_count(), 0);
    assert_eq!(expect_node_start(&mut parser, "Node0_0").total_count(), 0);
    expect_node_end(&mut parser);
    assert_eq!(expect_node_start(&mut parser, "Node0_1").total_count(), 0);
    expect_node_end(&mut parser);
    expect_node_end(&mut parser);
    assert_eq!(expect_node_start(&mut parser, "Node1").total_count(), 1);
    assert_eq!(expect_node_start(&mut parser, "Node1_0").total_count(), 2);
    expect_node_end(&mut parser);
    assert_eq!(expect_node_start(&mut parser, "Node1_1").total_count(), 2);
    expect_node_end(&mut parser);
    expect_node_end(&mut parser);
    assert!(expect_fbx_end(&mut parser).is_ok());
    assert_eq!(parser.warnings().len(), 0);
}

/// Writes a tree node by node, and reads its attributes back.
#[test]
fn macro_v7400_idempotence() {
    let version = FbxVersion::new(7400);
    let mut writer = Writer::new(MemoryWriter::new(Vec::new()), version).unwrap();
    write_sample(&mut writer, 3.14);
    let bin = writer.finalize(&Default::default()).unwrap().into_inner();

    let mut parser = v7400(from_seekable_reader(MemoryReader::new(bin)).unwrap());
    assert_eq!(parser.fbx_version(), version);
    assert_eq!(expect_node_start(&mut parser, "Node0").total_count(), 0);
    assert_eq!(expect_node_start(&mut parser, "Node0_0").total_count(), 0);
    expect_node_end(&mut parser);
    assert_eq!(expect_node_start(&mut parser, "Node0_1").total_count(), 0);
    expect_node_end(&mut parser);
    expect_node_end(&mut parser);
    {
        let mut attrs = expect_node_start(&mut parser, "Node1");
        assert_eq!(attrs.load_next(DirectLoader).unwrap(), Some(AttributeValue::Bool(true)));
        assert_eq!(attrs.total_count(), 1);
    }
    {
        let mut attrs = expect_node_start(&mut parser, "Node1_0");
        assert_eq!(attrs.load_next(DirectLoader).unwrap(), Some(AttributeValue::I32(42)));
        assert_eq!(
            attrs.load_next(DirectLoader).unwrap(),
            Some(AttributeValue::F64(3.14f64.to_bits()))
        );
        assert_eq!(attrs.total_count(), 2);
    }
    expect_node_end(&mut parser);
    {
        let mut attrs = expect_node_start(&mut parser, "Node1_1");
        assert_eq!(
            attrs.load_next(DirectLoader).unwrap(),
            Some(AttributeValue::Binary(vec![1u8, 2, 4, 8, 16]))
        );
        assert_eq!(
            attrs.load_next(DirectLoader).unwrap(),
            Some(AttributeValue::String("Hello, world".to_owned()))
        );
        assert_eq!(attrs.total_count(), 2);
    }
    expect_node_end(&mut parser);
    expect_node_end(&mut parser);
    assert!(expect_fbx_end(&mut parser).is_ok());
    assert_eq!(parser.warnings().len(), 0);
}

/// Writes a tree, parses it and loads it back, and compares them.
#[test]
fn tree_write_parse_idempotence_v7500() {
    let tree1 = sample_tree(1.234);
    let bin = sample_document(7500, &Default::default());
    let mut parser = v7400(from_seekable_reader(MemoryReader::new(bin)).unwrap());
    assert_eq!(parser.fbx_version(), FbxVersion::new(7500));
    let (tree2, footer_res) = Loader::new().load(&mut parser).unwrap();
    assert_eq!(parser.warnings().len(), 0);
    assert!(footer_res.is_ok());
    assert!(tree1.strict_eq(&tree2));
}

#[test]
fn footer_fields_are_read_back() {
    let unknown3 = [7u8; 16];
    let footer = FbxFooter {
        unknown1: Some(&CUSTOM_UNKNOWN1),
        padding_len: Default::default(),
        unknown2: Some([1, 2, 3, 4]),
        unknown3: Some(&unknown3),
    };
    let data = sample_document(7400, &footer);
    let mut parser = v7400(from_reader(MemoryReader::new(data.clone())).unwrap());
    let (_, footer_res) = Loader::new().load(&mut parser).unwrap();
    let read = footer_res.expect("valid footer");
    assert_eq!(read.unknown1, CUSTOM_UNKNOWN1.to_vec());
    assert_eq!(read.unknown2, vec![1, 2, 3, 4]);
    assert_eq!(read.unknown3, unknown3.to_vec());
    assert_eq!(read.fbx_version, FbxVersion::new(7400));
    assert!(read.padding_len < 16);
    // Both unexpected unknown fields are warned about, in order.
    let warnings: Vec<Warning> = parser.warnings().iter().map(|(w, _)| *w).collect();
    assert_eq!(
        warnings,
        vec![Warning::UnexpectedFooterFieldValue, Warning::UnexpectedFooterFieldValue]
    );
    let pos = &parser.warnings()[0].1;
    assert_eq!(pos.byte_pos(), data.len() as u64);
    assert!(pos.node_path().is_empty());
}

#[test]
fn implausible_unknown1_is_warned() {
    let footer = FbxFooter {
        unknown1: Some(&[0u8; 16]),
        padding_len: Default::default(),
        unknown2: None,
        unknown3: None,
    };
    let mut parser = v7400(from_reader(MemoryReader::new(sample_document(7400, &footer))).unwrap());
    let (_, footer_res) = Loader::new().load(&mut parser).unwrap();
    assert_eq!(footer_res.expect("valid footer").unknown1, vec![0u8; 16]);
    assert_eq!(parser.warnings().len(), 1);
    assert_eq!(parser.warnings()[0].0, Warning::UnexpectedFooterFieldValue);
}

#[test]
fn wrong_padding_length_is_warned() {
    let expected = default_padding_len();
    let forced = (expected + 3) as u8;
    let footer = FbxFooter {
        unknown1: None,
        padding_len: FbxFooterPaddingLength::Forced(forced),
        unknown2: None,
        unknown3: None,
    };
    let mut parser = v7400(from_reader(MemoryReader::new(sample_document(7400, &footer))).unwrap());
    let (tree, footer_res) = Loader::new().load(&mut parser).unwrap();
    assert!(tree.strict_eq(&sample_tree(1.234)));
    assert_eq!(footer_res.expect("valid footer").padding_len, forced as usize);
    assert_eq!(parser.warnings().len(), 1);
    assert_eq!(
        parser.warnings()[0].0,
        Warning::InvalidFooterPaddingLength(expected, forced as usize)
    );
}

#[test]
fn critical_footer_warning_is_the_footer_error() {
    let expected = default_padding_len();
    let footer = FbxFooter {
        unknown1: None,
        padding_len: FbxFooterPaddingLength::Forced((expected + 1) as u8),
        unknown2: None,
        unknown3: None,
    };
    let mut parser = v7400(from_reader(MemoryReader::new(sample_document(7400, &footer))).unwrap());
    parser.set_warnings_critical(true);
    let (tree, footer_res) = Loader::new().load(&mut parser).unwrap();
    assert!(tree.strict_eq(&sample_tree(1.234)));
    let err = footer_res.unwrap_err();
    assert_eq!(err.kind(), ErrorKind::Warning);
    assert!(matches!(
        err.get_ref(),
        ErrorContainer::Warning(Warning::InvalidFooterPaddingLength(_, _))
    ));
    assert!(!parser.is_aborted());
    assert!(parser.next_event().is_err());
}

#[test]
fn broken_footer_keeps_the_tree() {
    let mut data = sample_document(7400, &Default::default());
    let n = data.len();
    // The FBX version in the footer.
    data[n - 140] = 0x99;
    let mut parser = v7400(from_reader(MemoryReader::new(data.clone())).unwrap());
    let (tree, footer_res) = Loader::new().load(&mut parser).unwrap();
    assert!(tree.strict_eq(&sample_tree(1.234)));
    let err = footer_res.unwrap_err();
    assert!(matches!(err.get_ref(), ErrorContainer::Data(DataError::BrokenFbxFooter)));
    assert_eq!(err.position().expect("position").byte_pos(), n as u64);

    // The same through `AnyTree`.
    match AnyTree::from_reader(MemoryReader::new(data)).expect("loadable") {
        AnyTree::V7400(v, tree, footer_res) => {
            assert_eq!(v, FbxVersion::new(7400));
            assert!(tree.strict_eq(&sample_tree(1.234)));
            assert!(footer_res.is_err());
        }
        _ => panic!("a v7400 tree is expected"),
    }
}

#[test]
fn truncated_footer_is_an_io_error() {
    let mut data = sample_document(7500, &Default::default());
    let n = data.len();
    data.truncate(n - 20);
    let mut parser = v7400(from_seekable_reader(MemoryReader::new(data)).unwrap());
    let (_, footer_res) = Loader::new().load(&mut parser).unwrap();
    let err = footer_res.unwrap_err();
    assert!(matches!(err.get_ref(), ErrorContainer::Io(IoError::UnexpectedEof)));
}

#[test]
fn nonzero_padding_breaks_the_footer() {
    let footer = FbxFooter {
        unknown1: None,
        padding_len: FbxFooterPaddingLength::Forced(4),
        unknown2: None,
        unknown3: None,
    };
    let mut data = sample_document(7400, &footer);
    let n = data.len();
    // A byte of the padding, right after the first unknown field.
    data[n - 144 - 1] = 1;
    let mut parser = v7400(from_reader(MemoryReader::new(data)).unwrap());
    let (_, footer_res) = Loader::new().load(&mut parser).unwrap();
    assert!(matches!(
        footer_res.unwrap_err().get_ref(),
        ErrorContainer::Data(DataError::BrokenFbxFooter)
    ));
}

/// Plain and seekable parsers read the same events from the same document.
#[test]
fn plain_and_seekable_parsers_agree() {
    let data = sample_document(7400, &Default::default());
    let mut plain = v7400(from_reader(MemoryReader::new(data.clone())).unwrap());
    let mut seekable = v7400(from_seekable_reader(MemoryReader::new(data)).unwrap());
    loop {
        let a = match plain.next_event().unwrap() {
            Event::StartNode(n) => Some(n.name().to_owned()),
            Event::EndNode => None,
            Event::EndFbx(f) => {
                assert!(f.is_ok());
                break;
            }
        };
        let b = match seekable.next_event().unwrap() {
            Event::StartNode(n) => Some(n.name().to_owned()),
            Event::EndNode => None,
            Event::EndFbx(_) => panic!("the seekable parser ended first"),
        };
        assert_eq!(a, b);
        assert_eq!(plain.reader_position(), seekable.reader_position());
    }
    assert!(matches!(seekable.next_event(), Ok(Event::EndFbx(Ok(_)))));
}

/// Appends the end of the implicit root and a footer for FBX 7.4.
fn finish_document(vec: &mut Vec<u8>) {
    let raw_ver = 7400_u32;
    vec.extend(std::iter::repeat(0).take(4 * 3 + 1));
    vec.extend(CUSTOM_UNKNOWN1);
    let len = vec.len().wrapping_neg() % 16;
    assert_eq!((vec.len() + len) % 16, 0);
    vec.extend(std::iter::repeat(0).take(len));
    vec.extend([0; 4]);
    vec.extend(raw_ver.to_le_bytes());
    vec.extend(std::iter::repeat(0).take(120));
    vec.extend(UNKNOWN3);
}

/// Parses a node which lacks necessary node end marker.
#[test]
fn missing_node_end_marker() {
    let data = {
        let mut vec = Vec::new();
        vec.extend(MAGIC);
        vec.extend(7400_u32.to_le_bytes());
        {
            const CONTAINER: &[u8] = b"Container";
            let container_start = vec.len();
            vec.extend([0; 4]);
            vec.extend([0; 4]);
            vec.extend([0; 4]);
            vec.push(CONTAINER.len() as u8);
            vec.extend(CONTAINER);
            {
                const INVALID_NODE: &[u8] = b"InvalidNode";
                let invalid_node_start = vec.len();
                vec.extend([0; 4]);
                vec.extend([0; 4]);
                vec.extend([0; 4]);
                vec.push(INVALID_NODE.len() as u8);
                vec.extend(INVALID_NODE);
                let end_pos = (vec.len() as u32).to_le_bytes();
                vec[invalid_node_start..(invalid_node_start + 4)].copy_from_slice(&end_pos);
            }
            vec.extend([0; 13]);
            let end_pos = (vec.len() as u32).to_le_bytes();
            vec[container_start..(container_start + 4)].copy_from_slice(&end_pos);
        }
        finish_document(&mut vec);
        vec
    };
    assert_eq!(data.len() % 16, 0);

    let mut parser = v7400(from_seekable_reader(MemoryReader::new(data)).unwrap());
    assert_eq!(parser.fbx_version(), FbxVersion::new(7400));
    assert_eq!(expect_node_start(&mut parser, "Container").total_count(), 0);
    assert_eq!(expect_node_start(&mut parser, "InvalidNode").total_count(), 0);
    expect_node_end(&mut parser);
    expect_node_end(&mut parser);
    let _: fbxcel::low::v7400::FbxFooter = expect_fbx_end(&mut parser).unwrap();
    let warnings: Vec<Warning> = parser.warnings().iter().map(|(w, _)| *w).collect();
    assert_eq!(warnings, vec![Warning::MissingNodeEndMarker]);
}

/// Parses a node which has an unnecessary node end marker.
#[test]
fn extra_node_end_marker() {
    let data = {
        let mut vec = Vec::new();
        vec.extend(MAGIC);
        vec.extend(7400_u32.to_le_bytes());
        {
            const CONTAINER: &[u8] = b"Container";
            let container_start = vec.len();
            vec.extend([0; 4]);
            vec.extend([0; 4]);
            vec.extend([0; 4]);
            vec.push(CONTAINER.len() as u8);
            vec.extend(CONTAINER);
            {
                const INVALID_NODE: &[u8] = b"InvalidNode";
                let invalid_node_start = vec.len();
                vec.extend([0; 4]);
                vec.extend(1_u32.to_le_bytes());
                vec.extend(2_u32.to_le_bytes());
                vec.push(INVALID_NODE.len() as u8);
                vec.extend(INVALID_NODE);
                vec.extend([b'C', b'T']);
                vec.extend([0; 13]);
                let end_pos = (vec.len() as u32).to_le_bytes();
                vec[invalid_node_start..(invalid_node_start + 4)].copy_from_slice(&end_pos);
            }
            vec.extend([0; 13]);
            let end_pos = (vec.len() as u32).to_le_bytes();
            vec[container_start..(container_start + 4)].copy_from_slice(&end_pos);
        }
        finish_document(&mut vec);
        vec
    };
    assert_eq!(data.len() % 16, 0);

    let mut parser = v7400(from_seekable_reader(MemoryReader::new(data)).unwrap());
    assert_eq!(parser.fbx_version(), FbxVersion::new(7400));
    assert_eq!(expect_node_start(&mut parser, "Container").total_count(), 0);
    assert_eq!(expect_node_start(&mut parser, "InvalidNode").total_count(), 1);
    expect_node_end(&mut parser);
    expect_node_end(&mut parser);
    let _: fbxcel::low::v7400::FbxFooter = expect_fbx_end(&mut parser).unwrap();
    let warnings: Vec<Warning> = parser.warnings().iter().map(|(w, _)| *w).collect();
    assert_eq!(warnings, vec![Warning::ExtraNodeEndMarker]);
    // The warning points at the end of the node that has the marker.
    let pos = &parser.warnings()[0].1;
    assert_eq!(pos.node_path().len(), 2);
    assert_eq!(pos.node_path()[1].1, "InvalidNode");
}

/// A critical end marker warning stops the parser.
#[test]
fn critical_missing_node_end_marker_aborts() {
    let mut writer = Writer::new(MemoryWriter::new(Vec::new()), FbxVersion::new(7400)).unwrap();
    let _ = writer.new_node("Empty").unwrap();
    writer.close_node().unwrap();
    let mut data = writer.finalize(&Default::default()).unwrap().into_inner();
    // Drop the end marker of `Empty` (right after its name) and fix its end
    // offset.
    let name_end = 27 + 13 + 5;
    data.drain(name_end..name_end + 13);
    data[27..31].copy_from_slice(&(name_end as u32).to_le_bytes());
    let mut parser = v7400(from_reader(MemoryReader::new(data)).unwrap());
    parser.set_warnings_critical(true);
    let _ = expect_node_start(&mut parser, "Empty");
    let err = parser.next_event().unwrap_err();
    assert!(matches!(
        err.get_ref(),
        ErrorContainer::Warning(Warning::MissingNodeEndMarker)
    ));
    assert!(parser.is_aborted());
}

#[test]
fn tree_loading_returns_the_parser_warnings() {
    let footer = FbxFooter {
        unknown1: Some(&[0u8; 16]),
        padding_len: Default::default(),
        unknown2: None,
        unknown3: None,
    };
    let data = sample_document(7400, &footer);
    let (tree, warnings) = AnyTree::from_seekable_reader_with_warnings(MemoryReader::new(data.clone()));
    match tree.expect("loadable") {
        AnyTree::V7400(_, tree, footer_res) => {
            assert!(tree.strict_eq(&sample_tree(1.234)));
            assert!(footer_res.is_ok());
        }
        _ => panic!("a v7400 tree is expected"),
    }
    assert_eq!(warnings.len(), 1);
    assert_eq!(warnings[0].0, Warning::UnexpectedFooterFieldValue);
    let (_, warnings) = AnyTree::from_reader_with_warnings(MemoryReader::new(data));
    assert_eq!(warnings.len(), 1);
    let (r, warnings) = AnyTree::from_reader_with_warnings(MemoryReader::new(b"no".to_vec()));
    assert!(r.is_err());
    assert!(warnings.is_empty());
}
