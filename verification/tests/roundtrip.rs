//! Writing a document, then parsing it back.

use fbxcel::low::v7400::{ArrayAttributeEncoding, AttributeType, AttributeValue};
use fbxcel::low::FbxVersion;
use fbxcel::pull_parser::any::{from_reader, from_seekable_reader, AnyParser};
use fbxcel::pull_parser::v7400::attribute::loaders::{
    ArrayLoader, BinaryLoader, DirectLoader, PrimitiveLoader, StringLoader, TypeLoader,
};
use fbxcel::pull_parser::v7400::{Event, Parser};
use fbxcel::pull_parser::ParserVersion;
use fbxcel::stream::{MemoryReader, MemoryWriter};
use fbxcel::writer::v7400::binary::{FbxFooter, Writer};

/// Writes a small document: `Root` holding scalar, array and special
/// attributes and two children.
fn sample_document(version: u32) -> Vec<u8> {
    let mut writer =
        Writer::new(MemoryWriter::new(Vec::new()), FbxVersion::new(version)).expect("supported");
    {
        let mut attrs = writer.new_node("Root").expect("short name");
        attrs.append_bool(true).unwrap();
        attrs.append_i16(-2).unwrap();
        attrs.append_i32(42).unwrap();
        attrs.append_i64(-1_000_000_000_000).unwrap();
        attrs.append_f32(1.5f32.to_bits()).unwrap();
        attrs.append_f64(2.25f64.to_bits()).unwrap();
        attrs.append_arr_i32_from_iter(None, vec![1, -2, 3]).unwrap();
        attrs
            .append_arr_f64_from_iter(
                Some(ArrayAttributeEncoding::Zlib),
                vec![0.5f64.to_bits(), 16.0f64.to_bits()],
            )
            .unwrap();
        attrs.append_arr_bool_from_iter(None, vec![true, false]).unwrap();
        attrs.append_string_direct("Hello, world").unwrap();
        attrs.append_binary_direct(&[1, 2, 3]).unwrap();
    }
    {
        let _ = writer.new_node("Child0").expect("short name");
    }
    writer.close_node().unwrap();
    {
        let mut attrs = writer.new_node("Child1").expect("short name");
        attrs.append_i64(7).unwrap();
    }
    writer.close_node().unwrap();
    writer.close_node().unwrap();
    writer.finalize(&FbxFooter::default()).expect("all closed").into_inner()
}

fn v7400_parser(data: Vec<u8>) -> Parser {
    match from_reader(MemoryReader::new(data)).expect("parsable") {
        AnyParser::V7400(parser) => parser,
    }
}

#[test]
fn document_roundtrip_v7400() {
    let mut parser = v7400_parser(sample_document(7400));
    assert_eq!(parser.fbx_version(), FbxVersion::new(7400));
    match parser.next_event().expect("root") {
        Event::StartNode(start) => {
            assert_eq!(start.name(), "Root");
            let attrs = start.attributes();
            assert_eq!(attrs.total_count(), 11);
            let loaders = vec![DirectLoader; 11];
            let mut iter = attrs.into_iter(loaders);
            assert_eq!(iter.size_hint(), (11, Some(11)));
            let mut values = Vec::new();
            while let Some(v) = iter.next() {
                values.push(v.expect("valid attribute"));
            }
            assert_eq!(
                values,
                vec![
                    AttributeValue::Bool(true),
                    AttributeValue::I16(-2),
                    AttributeValue::I32(42),
                    AttributeValue::I64(-1_000_000_000_000),
                    AttributeValue::F32(1.5f32.to_bits()),
                    AttributeValue::F64(2.25f64.to_bits()),
                    AttributeValue::ArrI32(vec![1, -2, 3]),
                    AttributeValue::ArrF64(vec![0.5f64.to_bits(), 16.0f64.to_bits()]),
                    AttributeValue::ArrBool(vec![true, false]),
                    AttributeValue::String("Hello, world".to_owned()),
                    AttributeValue::Binary(vec![1, 2, 3]),
                ]
            );
        }
        other => panic!("expected the root node, got {:?}", other),
    }
    match parser.next_event().expect("child 0") {
        Event::StartNode(start) => {
            assert_eq!(start.name(), "Child0");
            assert_eq!(start.attributes().total_count(), 0);
        }
        other => panic!("expected Child0, got {:?}", other),
    }
    assert!(matches!(parser.next_event(), Ok(Event::EndNode)));
    match parser.next_event().expect("child 1") {
        Event::StartNode(start) => {
            assert_eq!(start.name(), "Child1");
            let mut attrs = start.attributes();
            let v = attrs.load_next(PrimitiveLoader::<i64>::default()).unwrap();
            assert_eq!(v, Some(7));
            assert_eq!(attrs.rest_count(), 0);
            assert!(matches!(attrs.load_next(DirectLoader), Ok(None)));
        }
        other => panic!("expected Child1, got {:?}", other),
    }
    assert!(matches!(parser.next_event(), Ok(Event::EndNode)));
    assert!(matches!(parser.next_event(), Ok(Event::EndNode)));
    match parser.next_event().expect("end of the document") {
        Event::EndFbx(footer) => {
            let footer = footer.expect("valid footer");
            assert_eq!(footer.fbx_version, FbxVersion::new(7400));
            assert!(footer.padding_len < 16);
        }
        other => panic!("expected the end of the document, got {:?}", other),
    }
    assert!(parser.warnings().is_empty());
    assert!(parser.next_event().is_err());
    assert!(!parser.is_aborted());
}

#[test]
fn document_roundtrip_v7500_seekable() {
    let data = sample_document(7500);
    let parser = from_seekable_reader(MemoryReader::new(data)).expect("parsable");
    assert_eq!(parser.parser_version(), ParserVersion::V7400);
    assert_eq!(parser.fbx_version(), FbxVersion::new(7500));
    let mut parser = match parser {
        AnyParser::V7400(p) => p,
    };
    // Skip every attribute of the root by not reading them.
    match parser.next_event().expect("root") {
        Event::StartNode(start) => assert_eq!(start.name(), "Root"),
        other => panic!("expected the root node, got {:?}", other),
    }
    match parser.next_event().expect("child 0") {
        Event::StartNode(start) => assert_eq!(start.name(), "Child0"),
        other => panic!("expected Child0, got {:?}", other),
    }
    assert!(matches!(parser.next_event(), Ok(Event::EndNode)));
    match parser.next_event().expect("child 1") {
        Event::StartNode(start) => {
            let mut attrs = start.attributes();
            assert_eq!(attrs.load_next(TypeLoader).unwrap(), Some(AttributeType::I64));
        }
        other => panic!("expected Child1, got {:?}", other),
    }
    assert!(matches!(parser.next_event(), Ok(Event::EndNode)));
    assert!(matches!(parser.next_event(), Ok(Event::EndNode)));
    assert!(matches!(parser.next_event(), Ok(Event::EndFbx(Ok(_)))));
    assert!(parser.warnings().is_empty());
}

#[test]
fn typed_loaders_read_the_root_attributes() {
    let mut parser = v7400_parser(sample_document(7400));
    match parser.next_event().expect("root") {
        Event::StartNode(start) => {
            let mut attrs = start.attributes();
            assert_eq!(attrs.load_next(PrimitiveLoader::<bool>::default()).unwrap(), Some(true));
            assert_eq!(attrs.load_next(PrimitiveLoader::<i16>::default()).unwrap(), Some(-2));
            assert_eq!(attrs.load_next(PrimitiveLoader::<i32>::default()).unwrap(), Some(42));
            assert_eq!(attrs.load_next(TypeLoader).unwrap(), Some(AttributeType::I64));
            assert_eq!(attrs.load_next(TypeLoader).unwrap(), Some(AttributeType::F32));
            assert_eq!(attrs.load_next(TypeLoader).unwrap(), Some(AttributeType::F64));
            assert_eq!(
                attrs.load_next(ArrayLoader::<Vec<i32>>::default()).unwrap(),
                Some(vec![1, -2, 3])
            );
            assert_eq!(attrs.load_next(TypeLoader).unwrap(), Some(AttributeType::ArrF64));
            assert_eq!(
                attrs.load_next(ArrayLoader::<Vec<bool>>::default()).unwrap(),
                Some(vec![true, false])
            );
            assert_eq!(
                attrs.load_next(StringLoader).unwrap(),
                Some("Hello, world".to_owned())
            );
            assert_eq!(attrs.load_next(BinaryLoader).unwrap(), Some(vec![1, 2, 3]));
            assert_eq!(attrs.rest_count(), 0);
        }
        other => panic!("expected the root node, got {:?}", other),
    }
}

#[test]
fn unexpected_attribute_aborts_the_parser() {
    let mut parser = v7400_parser(sample_document(7400));
    match parser.next_event().expect("root") {
        Event::StartNode(start) => {
            let mut attrs = start.attributes();
            let err = attrs.load_next(PrimitiveLoader::<i32>::default()).unwrap_err();
            let pos = err.position().expect("error position");
            assert_eq!(pos.attribute_index(), Some(0));
            assert_eq!(pos.node_path().len(), 1);
            assert_eq!(pos.node_path()[0].1, "Root");
            assert!(attrs.load_next(DirectLoader).is_err());
        }
        other => panic!("expected the root node, got {:?}", other),
    }
    assert!(parser.is_aborted());
    assert!(parser.next_event().is_err());
}

#[test]
fn borrowed_iterators_stop_with_the_loaders() {
    let mut parser = v7400_parser(sample_document(7400));
    match parser.next_event().expect("root") {
        Event::StartNode(start) => {
            let mut attrs = start.attributes();
            {
                let mut iter = attrs.iter(vec![TypeLoader, TypeLoader]);
                assert_eq!(iter.next().map(|r| r.unwrap()), Some(AttributeType::Bool));
                assert_eq!(iter.next().map(|r| r.unwrap()), Some(AttributeType::I16));
                assert!(iter.next().is_none());
            }
            assert_eq!(attrs.rest_count(), 9);
            let mut iter = attrs.iter_buffered(vec![DirectLoader]);
            assert_eq!(iter.next().map(|r| r.unwrap()), Some(AttributeValue::I32(42)));
        }
        other => panic!("expected the root node, got {:?}", other),
    }
}

#[test]
fn buffered_loading_reads_binary_and_string() {
    let mut parser = v7400_parser(sample_document(7400));
    match parser.next_event().expect("root") {
        Event::StartNode(start) => {
            let mut attrs = start.attributes();
            for _ in 0..9 {
                assert!(attrs.load_next_buffered(TypeLoader).unwrap().is_some());
            }
            assert_eq!(
                attrs.load_next_buffered(StringLoader).unwrap(),
                Some("Hello, world".to_owned())
            );
            let mut iter = attrs.iter_buffered(vec![DirectLoader, DirectLoader]);
            assert_eq!(
                iter.next().map(|r| r.unwrap()),
                Some(AttributeValue::Binary(vec![1, 2, 3]))
            );
            assert!(iter.next().is_none());
        }
        other => panic!("expected the root node, got {:?}", other),
    }
}
