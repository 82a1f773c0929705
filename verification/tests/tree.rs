use fbxcel::low::v7400::AttributeValue;
use fbxcel::low::FbxVersion;
use fbxcel::pull_parser::any::{from_reader, AnyParser};
use fbxcel::stream::{MemoryReader, MemoryWriter};
use fbxcel::tree::any::{AnyTree, Error as AnyTreeError};
use fbxcel::tree::v7400::{DepthFirstTraversed, LoadError, Loader, NodeHandle, Tree};
use fbxcel::writer::v7400::binary::{FbxFooter, Writer};

fn names(nodes: &[NodeHandle<'_>]) -> Vec<String> {
    nodes.iter().map(|n| n.name().to_string()).collect()
}

#[test]
fn empty_nodes() {
    let mut tree = Tree::default();
    let root = tree.root().node_id();
    tree.append_new(root, "Hello");
    tree.append_new(root, "World");

    assert_eq!(names(&tree.root().children()), vec!["Hello", "World"]);
    assert!(tree.root().children().iter().all(|c| c.children().is_empty()));
}

#[test]
fn nested_node() {
    let mut tree = Tree::default();
    let root = tree.root().node_id();
    let hello = tree.append_new(root, "Hello");
    tree.append_new(hello, "Hello1");
    tree.append_new(hello, "Hello2");
    let world = tree.append_new(root, "World");
    let world1 = tree.append_new(world, "World1");
    tree.append_new(world1, "World1_1");
    tree.append_new(world1, "World1_2");
    tree.append_new(world, "World2");

    let root = tree.root();
    assert_eq!(names(&root.children()), vec!["Hello", "World"]);
    let world = root.first_child_by_name("World").unwrap();
    assert_eq!(names(&world.children()), vec!["World1", "World2"]);
    let world1 = world.first_child().unwrap();
    assert_eq!(names(&world1.children()), vec!["World1_1", "World1_2"]);
    assert_eq!(world1.parent().unwrap().node_id(), world.node_id());
}

#[test]
fn nested_node_with_attrs() {
    let mut tree = Tree::default();
    let root = tree.root().node_id();
    let hello = tree.append_new(root, "Hello");
    let hello1 = tree.append_new(hello, "Hello1");
    tree.append_attribute(hello1, AttributeValue::String("string".to_string()));
    let hello2 = tree.append_new(hello, "Hello2");
    tree.append_attribute(hello2, AttributeValue::F32(1.234f32.to_bits()));
    tree.append_attribute(hello2, AttributeValue::I64(42));
    let world = tree.append_new(root, "World");
    let world1 = tree.append_new(world, "World1");
    let world1_1 = tree.append_new(world1, "World1_1");
    tree.set_attributes_vec(
        world1_1,
        vec![AttributeValue::String("Hello".to_string()), AttributeValue::I32(42)],
    );
    tree.append_new(world1, "World1_2");
    tree.append_new(world, "World2");

    let hello2 = tree.root().first_child().unwrap().last_child().unwrap();
    assert_eq!(hello2.name(), "Hello2");
    assert_eq!(
        hello2.attributes(),
        &[AttributeValue::F32(1.234f32.to_bits()), AttributeValue::I64(42)][..]
    );
    let world1_1 = world1_1.to_handle(&tree);
    assert_eq!(
        world1_1.attributes(),
        &[AttributeValue::String("Hello".to_string()), AttributeValue::I32(42)][..]
    );
}

#[test]
fn tree_default_has_bare_root() {
    let tree = Tree::default();
    let root = tree.root();
    assert_eq!(root.name(), "");
    assert!(root.attributes().is_empty());
    assert!(root.children().is_empty());
    assert!(root.parent().is_none());
    assert!(root.next_sibling().is_none());
    assert!(root.previous_sibling().is_none());
}

#[test]
fn tree_prepend_and_insert_order() {
    let mut tree = Tree::default();
    let root = tree.root().node_id();
    let b = tree.append_new(root, "B");
    tree.prepend_new(root, "A");
    tree.insert_new_after(b, "D");
    tree.insert_new_before(b, "C");
    tree.append_new(root, "E");
    assert_eq!(names(&tree.root().children()), vec!["A", "C", "B", "D", "E"]);

    let b = b.to_handle(&tree);
    assert_eq!(b.previous_sibling().unwrap().name(), "C");
    assert_eq!(b.next_sibling().unwrap().name(), "D");
    assert!(tree.root().first_child().unwrap().previous_sibling().is_none());
    assert!(tree.root().last_child().unwrap().next_sibling().is_none());
}

#[test]
fn tree_children_by_name() {
    let mut tree = Tree::default();
    let root = tree.root().node_id();
    tree.append_new(root, "X");
    let y = tree.append_new(root, "Y");
    tree.append_new(root, "X");
    tree.append_attribute(y, AttributeValue::Bool(true));
    let root = tree.root();
    assert_eq!(root.children_by_name("X").len(), 2);
    assert_eq!(root.children_by_name("Y").len(), 1);
    assert!(root.children_by_name("Z").is_empty());
    assert!(root.first_child_by_name("Z").is_none());
    assert_eq!(
        root.first_child_by_name("Y").unwrap().attributes(),
        &[AttributeValue::Bool(true)][..]
    );
}

#[test]
fn tree_take_after_set_gives_back_attributes() {
    let mut tree = Tree::default();
    let root = tree.root().node_id();
    let n = tree.append_new(root, "N");
    tree.append_attribute(n, AttributeValue::I16(7));
    let taken = tree.take_attributes_vec(n);
    assert_eq!(taken, vec![AttributeValue::I16(7)]);
    assert!(n.to_handle(&tree).attributes().is_empty());
    tree.set_attributes_vec(n, vec![AttributeValue::Binary(vec![1, 2, 4, 8, 16])]);
    assert_eq!(
        tree.take_attributes_vec(n),
        vec![AttributeValue::Binary(vec![1, 2, 4, 8, 16])]
    );
}

fn gentree() -> Tree {
    let mut tree = Tree::default();
    let root = tree.root().node_id();
    tree.append_new(root, "Node0");
    let node1 = tree.append_new(root, "Node1");
    tree.append_new(node1, "Node1_0");
    tree.append_new(node1, "Node1_1");
    let node1_2 = tree.append_new(node1, "Node1_2");
    tree.append_new(node1_2, "Node1_2_child");
    tree.append_new(node1_2, "Node1_2_child");
    let node2 = tree.append_new(root, "Node2");
    tree.append_attribute(node2, AttributeValue::Bool(true));
    tree.append_attribute(node2, AttributeValue::I16(42));
    tree.append_attribute(node2, AttributeValue::I32(42));
    tree.append_attribute(node2, AttributeValue::I64(42));
    tree.append_attribute(node2, AttributeValue::F32(1.414f32.to_bits()));
    tree.append_attribute(node2, AttributeValue::F64(3.14f64.to_bits()));
    let node2_0 = tree.append_new(node2, "Node2_0");
    tree.append_attribute(node2_0, AttributeValue::ArrBool(vec![true, false]));
    tree.append_attribute(node2_0, AttributeValue::ArrI32(vec![0, 42]));
    let node2_1 = tree.append_new(node2, "Node2_1");
    tree.append_attribute(
        node2_1,
        AttributeValue::ArrF32(vec![f32::NAN.to_bits(), f32::INFINITY.to_bits()]),
    );
    tree.append_attribute(
        node2_1,
        AttributeValue::ArrF64(vec![f64::NAN.to_bits(), f64::INFINITY.to_bits()]),
    );
    tree
}

#[test]
fn empty_trees_eq() {
    let tree1 = Tree::default();
    let tree2 = Tree::default();
    assert!(tree1.strict_eq(&tree2));
}

#[test]
fn compare_empties() {
    let tree1 = Tree::default();
    let tree2 = Tree::default();
    assert!(tree1.strict_eq(&tree2));
}

#[test]
fn compare_complex_trees() {
    let tree1 = gentree();
    let tree2 = gentree();
    assert!(tree1.strict_eq(&tree2));
    let empty = Tree::default();
    assert!(!empty.strict_eq(&tree2));
}

#[test]
fn compare_trees() {
    let tree1 = gentree();
    let tree2 = gentree();
    assert!(tree1.strict_eq(&tree2));
    assert!(tree2.strict_eq(&tree1));
    let empty = Tree::default();
    assert!(!empty.strict_eq(&tree2));
    assert!(!tree2.strict_eq(&empty));
}

fn manual_tree(f: f64) -> Tree {
    let mut tree = Tree::default();
    let node0_id = tree.append_new(tree.root().node_id(), "Node0");
    tree.append_new(node0_id, "Node0_0");
    tree.append_new(node0_id, "Node0_1");
    let node1_id = tree.append_new(tree.root().node_id(), "Node1");
    tree.append_attribute(node1_id, AttributeValue::Bool(true));
    let node1_0_id = tree.append_new(node1_id, "Node1_0");
    tree.append_attribute(node1_0_id, AttributeValue::I32(42));
    tree.append_attribute(node1_0_id, AttributeValue::F64(f.to_bits()));
    let node1_1_id = tree.append_new(node1_id, "Node1_1");
    tree.append_attribute(node1_1_id, AttributeValue::Binary(vec![1u8, 2, 4, 8, 16]));
    tree.append_attribute(node1_1_id, AttributeValue::String("Hello, world".to_string()));
    tree
}

/// The same tree, built node by node and subtree by subtree.
fn grown_tree(f: f64) -> Tree {
    let mut tree = Tree::default();
    let root = tree.root().node_id();
    let node0 = tree.append_new(root, "Node0");
    tree.append_new(node0, "Node0_0");
    tree.append_new(node0, "Node0_1");
    let node1 = tree.append_new(root, "Node1");
    tree.set_attributes_vec(node1, vec![AttributeValue::Bool(true)]);
    let node1_1 = tree.append_new(node1, "Node1_1");
    let node1_0 = tree.insert_new_before(node1_1, "Node1_0");
    tree.set_attributes_vec(
        node1_0,
        vec![AttributeValue::I32(42), AttributeValue::F64(f.to_bits())],
    );
    tree.append_attribute(node1_1, AttributeValue::Binary(vec![1u8, 2, 4, 8, 16]));
    tree.append_attribute(node1_1, AttributeValue::String("Hello, world".to_string()));
    tree
}

#[test]
fn macros_correct_tree() {
    assert!(manual_tree(1.234).strict_eq(&grown_tree(1.234)));
    assert!(manual_tree(3.14).strict_eq(&grown_tree(3.14)));
    assert!(!manual_tree(3.14).strict_eq(&grown_tree(1.234)));
}

#[test]
fn traversal_visits_subtree_in_order() {
    let tree = manual_tree(1.0);
    let root = tree.root().node_id();
    let mut pre = Vec::new();
    let mut t = root.traverse_depth_first();
    while let Some(id) = t.next_open_forward(&tree) {
        pre.push(id.to_handle(&tree).name().to_string());
    }
    assert_eq!(pre, vec!["", "Node0", "Node0_0", "Node0_1", "Node1", "Node1_0", "Node1_1"]);

    let mut post = Vec::new();
    let mut t = root.traverse_depth_first();
    while let Some(id) = t.next_close_forward(&tree) {
        post.push(id.to_handle(&tree).name().to_string());
    }
    assert_eq!(post, vec!["Node0_0", "Node0_1", "Node0", "Node1_0", "Node1_1", "Node1", ""]);

    let mut back = Vec::new();
    let mut t = root.traverse_depth_first();
    while let Some(id) = t.next_close_backward(&tree) {
        back.push(id.to_handle(&tree).name().to_string());
    }
    assert_eq!(back, vec!["", "Node1", "Node1_1", "Node1_0", "Node0", "Node0_1", "Node0_0"]);

    let first = DepthFirstTraversed::Open(root);
    let second = first.next(&tree).unwrap();
    assert_eq!(second.prev(&tree), Some(first));
    assert_eq!(DepthFirstTraversed::Close(root).next(&tree), None);
    assert_eq!(first.prev(&tree), None);
    assert!(second.is_open());
    assert_eq!(second.node_id_close(), None);
}

#[test]
fn traversal_cursors_meet() {
    let tree = manual_tree(1.0);
    let node1 = tree.root().last_child().unwrap().node_id();
    let mut t = node1.traverse_depth_first();
    let mut events = 0;
    loop {
        let f = t.next_forward(&tree);
        if f.is_none() {
            break;
        }
        events += 1;
        if t.next_backward(&tree).is_none() {
            break;
        }
        events += 1;
    }
    assert_eq!(events, 6);
    assert_eq!(t.peek_forward(), None);
    assert_eq!(t.peek_backward(), None);
}

/// Writes the nodes of `manual_tree(1.234)` as a document.
fn written_document(version: u32) -> Vec<u8> {
    let mut writer =
        Writer::new(MemoryWriter::new(Vec::new()), FbxVersion::new(version)).expect("supported");
    let _ = writer.new_node("Node0").unwrap();
    let _ = writer.new_node("Node0_0").unwrap();
    writer.close_node().unwrap();
    let _ = writer.new_node("Node0_1").unwrap();
    writer.close_node().unwrap();
    writer.close_node().unwrap();
    {
        let mut attrs = writer.new_node("Node1").unwrap();
        attrs.append_bool(true).unwrap();
    }
    {
        let mut attrs = writer.new_node("Node1_0").unwrap();
        attrs.append_i32(42).unwrap();
        attrs.append_f64(1.234f64.to_bits()).unwrap();
    }
    writer.close_node().unwrap();
    {
        let mut attrs = writer.new_node("Node1_1").unwrap();
        attrs.append_binary_direct(&[1u8, 2, 4, 8, 16]).unwrap();
        attrs.append_string_direct("Hello, world").unwrap();
    }
    writer.close_node().unwrap();
    writer.close_node().unwrap();
    writer.finalize(&FbxFooter::default()).expect("all closed").into_inner()
}

#[test]
fn tree_loads_written_document() {
    for version in [7400u32, 7500] {
        let data = written_document(version);
        match AnyTree::from_reader(MemoryReader::new(data.clone())).expect("loadable") {
            AnyTree::V7400(v, tree, footer) => {
                assert_eq!(v, FbxVersion::new(version));
                assert_eq!(footer.expect("valid footer").fbx_version, v);
                assert!(tree.strict_eq(&manual_tree(1.234)));
            }
            _ => panic!("a v7400 tree is expected"),
        }
        let any = AnyTree::from_seekable_reader(MemoryReader::new(data)).expect("loadable");
        assert_eq!(any.fbx_version(), FbxVersion::new(version));
    }
}

#[test]
fn loader_refuses_a_used_parser() {
    let mut parser = match from_reader(MemoryReader::new(written_document(7400))).unwrap() {
        AnyParser::V7400(p) => p,
    };
    assert!(!parser.is_used());
    let _ = parser.next_event().unwrap();
    assert!(parser.is_used());
    assert!(matches!(Loader::new().load(&mut parser), Err(LoadError::BadParser)));
    assert!(parser.next_event().is_ok());
}

#[test]
fn loader_reports_parser_errors() {
    let mut data = written_document(7400);
    data.truncate(40);
    match AnyTree::from_reader(MemoryReader::new(data)) {
        Err(AnyTreeError::Tree(LoadError::Parser(_))) => {}
        _ => panic!("a truncated document should not load"),
    }
    match AnyTree::from_reader(MemoryReader::new(b"not an FBX file at all....".to_vec())) {
        Err(AnyTreeError::ParserCreation(_)) => {}
        _ => panic!("a document without header should not load"),
    }
}

#[test]
fn tree_get_attribute_mut_edits_in_place() {
    let mut tree = Tree::default();
    let root = tree.root().node_id();
    let n = tree.append_new(root, "N");
    tree.append_attribute(n, AttributeValue::I32(1));
    tree.append_attribute(n, AttributeValue::I32(2));
    if let Some(v) = tree.get_attribute_mut(n, 1) {
        *v = AttributeValue::String("two".to_string());
    }
    assert!(tree.get_attribute_mut(n, 2).is_none());
    assert_eq!(
        n.to_handle(&tree).attributes(),
        &[AttributeValue::I32(1), AttributeValue::String("two".to_string())][..]
    );
}
