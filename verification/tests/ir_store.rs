use lumen::ir::error::CoreError;
use lumen::ir::{CodegenOptions, Node, NodeRef, NodeType, NodeValue, SourceLocation, IR};
use std::sync::Arc;

#[test]
fn create_node_ids_increase() {
    let mut ir = IR::new();
    let a = ir.create_node(NodeType::StringLiteral);
    let b = ir.create_node(NodeType::NumericLiteral);
    assert_eq!(a, 1);
    assert_eq!(b, 2);
    assert!(a < b);
    assert!(ir.remove_node(a));
    let c = ir.create_node(NodeType::Identifier);
    assert_eq!(c, 3);
    assert_eq!(ir.next_id(), 4);
    assert!(ir.get_node(a).is_none());
    assert_eq!(ir.node_count(), 3);
}

#[test]
fn new_unit_holds_an_empty_program() {
    let ir = IR::new();
    assert_eq!(ir.root_id(), 0);
    assert_eq!(ir.next_id(), 1);
    assert_eq!(ir.node_count(), 1);
    assert_eq!(ir.source_path(), None);
    let root = ir.get_root();
    assert_eq!(root.id, 0);
    assert_eq!(root.node_type, NodeType::Program);
    assert!(root.children.is_empty());
    assert!(root.parent.is_none());
    let named = IR::new().with_source_path("src/app.js");
    assert_eq!(named.source_path(), Some("src/app.js"));
    assert_eq!(ir.to_json(), "{\n  \"type\": \"Program\",\n  \"body\": []\n}\n");
}

#[test]
fn created_nodes_are_empty_and_resolve() {
    let mut ir = IR::new();
    let id = ir.create_node(NodeType::StringLiteral);
    let node = ir.get_node(id).unwrap();
    assert_eq!(node.id, id);
    assert_eq!(node.node_type, NodeType::StringLiteral);
    assert!(node.values.is_empty());
    assert!(node.children.is_empty());
    assert!(node.location.is_none());
    assert!(node.parent.is_none());
    assert!(ir.get_node(99).is_none());
}

#[test]
fn visit_walks_in_preorder() {
    let mut ir = IR::new();
    let a = ir.create_node(NodeType::BlockStatement);
    let b = ir.create_node(NodeType::Identifier);
    let c = ir.create_node(NodeType::Identifier);
    let d = ir.create_node(NodeType::ReturnStatement);
    ir.add_child(a, b);
    ir.add_child(a, c);
    ir.add_child(0, a);
    ir.add_child(0, d);
    let ids: Vec<usize> = ir.visit().iter().map(|n| n.0.id).collect();
    assert_eq!(ids, vec![0, a, b, c, d]);
    let again: Vec<usize> = ir.visit().iter().map(|n| n.0.id).collect();
    assert_eq!(ids, again);
}

#[test]
fn visit_of_a_deep_tree_takes_first_children_first() {
    let mut ir = IR::new();
    let leaf1 = ir.create_node(NodeType::Identifier);
    let leaf2 = ir.create_node(NodeType::Identifier);
    let leaf3 = ir.create_node(NodeType::Identifier);
    let inner = ir.create_node(NodeType::CallExpression);
    let outer = ir.create_node(NodeType::BlockStatement);
    ir.add_child(inner, leaf1);
    ir.add_child(inner, leaf2);
    ir.add_child(outer, inner);
    ir.add_child(outer, leaf3);
    ir.add_child(0, outer);
    ir.add_child(0, leaf3);
    let ids: Vec<usize> = ir.visit().iter().map(|n| n.0.id).collect();
    assert_eq!(ids, vec![0, outer, inner, leaf1, leaf2, leaf3, leaf3]);
}

#[test]
fn a_child_is_taken_as_it_is_when_it_is_added() {
    let mut ir = IR::new();
    let a = ir.create_node(NodeType::BlockStatement);
    let b = ir.create_node(NodeType::Identifier);
    ir.add_child(0, a);
    ir.add_child(a, b);
    let ids: Vec<usize> = ir.visit().iter().map(|n| n.0.id).collect();
    assert_eq!(ids, vec![0, a]);
    assert_eq!(ir.get_node(a).unwrap().children.len(), 1);
}

#[test]
fn add_child_with_an_unknown_id_changes_nothing() {
    let mut ir = IR::new();
    let a = ir.create_node(NodeType::Identifier);
    ir.add_child(77, a);
    ir.add_child(0, 78);
    assert!(ir.get_root().children.is_empty());
    assert_eq!(ir.node_count(), 2);
}

#[test]
fn holders_of_the_old_parent_keep_their_view() {
    let mut ir = IR::new();
    let a = ir.create_node(NodeType::Identifier);
    let before = ir.get_root();
    ir.add_child(0, a);
    assert!(before.children.is_empty());
    assert_eq!(ir.get_root().children.len(), 1);
}

#[test]
fn the_root_cannot_be_removed() {
    let mut ir = IR::new();
    assert!(!ir.remove_node(0));
    assert!(!ir.remove_node(5));
    assert_eq!(ir.get_root().id, 0);
}

#[test]
fn update_node_files_an_edited_node() {
    let mut ir = IR::new();
    let id = ir.create_node(NodeType::Identifier);
    let mut node = (*ir.get_node(id).unwrap()).clone();
    node.set_value("name", NodeValue::String("x".to_string()));
    assert!(ir.update_node(node));
    assert_eq!(ir.get_node(id).unwrap().get_string_value("name"), Some("x"));
    assert!(!ir.update_node(Node::new(42, NodeType::Identifier)));
    assert!(!ir.update_node(Node::new(0, NodeType::Identifier)));
    assert!(ir.update_node(Node::new(0, NodeType::Program)));
}

#[test]
fn replace_root_puts_a_new_tree_in_place() {
    let mut ir = IR::new();
    let mut root = Node::new(0, NodeType::Program);
    root.add_child(Arc::new(Node::new(9, NodeType::Comment)));
    ir.replace_root(NodeRef::new(root));
    let ids: Vec<usize> = ir.visit().iter().map(|n| n.0.id).collect();
    assert_eq!(ids, vec![0, 9]);
    assert_eq!(ir.node_count(), 1);
}

#[test]
fn node_values_are_set_and_read_by_key() {
    let mut node = Node::new(1, NodeType::Identifier);
    assert!(node.get_value("name").is_none());
    node.set_value("name", NodeValue::String("x".to_string()));
    node.set_value("count", NodeValue::Number(3.0f64.to_bits()));
    node.set_value("flag", NodeValue::Boolean(true));
    node.set_value("nothing", NodeValue::Null);
    assert_eq!(node.get_string_value("name"), Some("x"));
    assert_eq!(node.get_number_value("count"), Some(3.0f64.to_bits()));
    assert_eq!(node.get_boolean_value("flag"), Some(true));
    assert_eq!(node.get_value("nothing"), Some(&NodeValue::Null));
    assert_eq!(node.get_string_value("count"), None);
    assert_eq!(node.get_number_value("name"), None);
    assert_eq!(node.get_boolean_value("missing"), None);
    node.set_value("name", NodeValue::String("y".to_string()));
    assert_eq!(node.get_string_value("name"), Some("y"));
    assert_eq!(node.get_boolean_value("flag"), Some(true));
    assert_eq!(node.values.len(), 4);
}

#[test]
fn node_builders_set_location_and_parent() {
    let loc = SourceLocation::new(1, 2, 3, 4);
    let node = Node::new(5, NodeType::Comment).with_location(loc).with_parent(2);
    assert_eq!(node.location, Some(loc));
    assert_eq!(node.parent, Some(2));
    assert_eq!(loc.to_text(), "1:2-3:4");
    assert_eq!(SourceLocation::new(10, 0, 120, 7).to_text(), "10:0-120:7");
}

#[test]
fn duplicates_have_the_same_content() {
    let mut node = Node::new(1, NodeType::ObjectExpression);
    let child = NodeRef::new(Node::new(2, NodeType::Identifier));
    node.add_child(Arc::clone(&child.0));
    node.set_value("items", NodeValue::Array(vec![child.share()]));
    node.set_value("fields", NodeValue::Object(vec![("a".to_string(), child.share())]));
    let copy = node.duplicate();
    assert_eq!(copy, node);
    assert_eq!(child.share(), child);
}

#[test]
fn codegen_options_default_to_es2020() {
    let o = CodegenOptions::default();
    assert!(!o.minify);
    assert!(!o.sourcemap);
    assert_eq!(o.target, "es2020");
    assert!(!o.inline_sources);
    assert!(o.preserve_comments);
    let copy = o.duplicate();
    assert_eq!(copy.target, "es2020");
}

fn refused(r: Result<IR, CoreError>) -> String {
    match r {
        Ok(_) => String::new(),
        Err(CoreError::General(m)) => m,
    }
}

#[test]
fn a_unit_is_made_of_well_formed_parts_only() {
    let mut root = Node::new(0, NodeType::Program);
    let child = Node::new(1, NodeType::Identifier);
    root.add_child(Arc::new(child.clone()));
    let ir = IR::from_nodes(vec![child.clone(), root.clone()], 0, 2, Some("a.js".to_string())).unwrap();
    assert_eq!(ir.root_id(), 0);
    assert_eq!(ir.next_id(), 2);
    assert_eq!(ir.source_path(), Some("a.js"));
    assert_eq!(ir.node_count(), 2);
    let ids: Vec<usize> = ir.visit().iter().map(|n| n.0.id).collect();
    assert_eq!(ids, vec![0, 1]);
    assert_eq!(refused(IR::from_nodes(vec![child.clone(), root.clone()], 0, 1, None)), "节点ID超出范围");
    assert_eq!(refused(IR::from_nodes(vec![root.clone()], 0, 2, None)), "存在悬空的子节点引用");
    assert_eq!(refused(IR::from_nodes(vec![child.clone()], 0, 2, None)), "根节点不存在");
    assert_eq!(refused(IR::from_nodes(vec![child.clone(), root.clone()], 1, 2, None)), "根节点不是程序节点");
    assert_eq!(refused(IR::from_nodes(Vec::new(), 0, 0, None)), "根节点不存在");
    let later = Node::new(0, NodeType::Program);
    let replaced = IR::from_nodes(vec![child, root, later], 0, 5, None).unwrap();
    assert!(replaced.get_root().children.is_empty());
}
