use lumen::ir::{Node, NodeRef, NodeType, NodeValue};
use lumen::optimizers::{ConstantFolding, NumericOp, OptimizerOptions};
use std::sync::Arc;

fn arithmetic(op: NumericOp, a: u64, b: u64) -> u64 {
    let x = f64::from_bits(a);
    let y = f64::from_bits(b);
    let r = match op {
        NumericOp::Add => x + y,
        NumericOp::Sub => x - y,
        NumericOp::Mul => x * y,
        NumericOp::Div => x / y,
    };
    r.to_bits()
}

fn number(id: usize, value: f64) -> NodeRef {
    let mut n = Node::new(id, NodeType::NumericLiteral);
    n.set_value("value", NodeValue::Number(value.to_bits()));
    NodeRef::new(n)
}

fn string(id: usize, value: &str) -> NodeRef {
    let mut n = Node::new(id, NodeType::StringLiteral);
    n.set_value("value", NodeValue::String(value.to_string()));
    NodeRef::new(n)
}

fn binary(id: usize, operator: &str, left: &NodeRef, right: &NodeRef) -> NodeRef {
    let mut n = Node::new(id, NodeType::BinaryExpression);
    n.set_value("operator", NodeValue::String(operator.to_string()));
    n.add_child(Arc::clone(&left.0));
    n.add_child(Arc::clone(&right.0));
    NodeRef::new(n)
}

fn folding() -> ConstantFolding<fn(NumericOp, u64, u64) -> u64> {
    ConstantFolding::new(OptimizerOptions::default_options(), arithmetic)
}

#[test]
fn sum_of_numbers_folds_to_a_numeric_literal() {
    let expr = binary(3, "+", &number(1, 2.0), &number(2, 3.0));
    let folded = folding().fold_tree(&expr);
    assert_eq!(folded.0.node_type, NodeType::NumericLiteral);
    assert_eq!(folded.0.id, 3);
    assert_eq!(folded.0.get_number_value("value"), Some(5.0f64.to_bits()));
    assert!(folded.0.children.is_empty());
}

#[test]
fn sum_of_strings_folds_to_a_string_literal() {
    let expr = binary(3, "+", &string(1, "a"), &string(2, "b"));
    let folded = folding().fold_tree(&expr);
    assert_eq!(folded.0.node_type, NodeType::StringLiteral);
    assert_eq!(folded.0.get_string_value("value"), Some("ab"));
}

#[test]
fn division_by_zero_is_left_unfolded() {
    let expr = binary(3, "/", &number(1, 1.0), &number(2, 0.0));
    let folded = folding().fold_tree(&expr);
    assert_eq!(folded, expr);
    assert_eq!(folding().evaluate_constant_expression(&expr), None);
    let negative_zero = binary(3, "/", &number(1, 1.0), &number(2, -0.0));
    assert_eq!(folding().fold_tree(&negative_zero), negative_zero);
}

#[test]
fn each_operator_is_evaluated() {
    let f = folding();
    let a = number(1, 7.0);
    let b = number(2, 2.0);
    let value = |op: &str| f.evaluate_constant_expression(&binary(3, op, &a, &b));
    assert_eq!(value("+"), Some(NodeValue::Number(9.0f64.to_bits())));
    assert_eq!(value("-"), Some(NodeValue::Number(5.0f64.to_bits())));
    assert_eq!(value("*"), Some(NodeValue::Number(14.0f64.to_bits())));
    assert_eq!(value("/"), Some(NodeValue::Number(3.5f64.to_bits())));
    assert_eq!(value("%"), None);
}

#[test]
fn nested_expressions_are_evaluated() {
    let inner = binary(3, "*", &number(1, 2.0), &number(2, 3.0));
    let outer = binary(5, "-", &inner, &number(4, 1.0));
    assert_eq!(
        folding().evaluate_constant_expression(&outer),
        Some(NodeValue::Number(5.0f64.to_bits()))
    );
    let folded = folding().fold_tree(&outer);
    assert_eq!(folded.0.node_type, NodeType::NumericLiteral);
    assert_eq!(folded.0.id, 5);
}

#[test]
fn mixed_or_unknown_operands_do_not_fold() {
    let f = folding();
    let mixed = binary(3, "+", &number(1, 1.0), &string(2, "a"));
    assert_eq!(f.evaluate_constant_expression(&mixed), None);
    assert_eq!(f.fold_tree(&mixed), mixed);
    let minus = binary(3, "-", &string(1, "a"), &string(2, "b"));
    assert_eq!(f.evaluate_constant_expression(&minus), None);
    let name = NodeRef::new(Node::new(1, NodeType::Identifier));
    let with_name = binary(3, "+", &name, &number(2, 1.0));
    assert_eq!(f.fold_tree(&with_name), with_name);
    let mut lonely = Node::new(9, NodeType::BinaryExpression);
    lonely.set_value("operator", NodeValue::String("+".to_string()));
    lonely.add_child(Arc::clone(&number(1, 1.0).0));
    let lonely = NodeRef::new(lonely);
    assert_eq!(f.evaluate_constant_expression(&lonely), None);
    let mut unnamed = Node::new(9, NodeType::BinaryExpression);
    unnamed.add_child(Arc::clone(&number(1, 1.0).0));
    unnamed.add_child(Arc::clone(&number(2, 1.0).0));
    assert_eq!(f.evaluate_constant_expression(&NodeRef::new(unnamed)), None);
}

#[test]
fn literals_evaluate_to_their_value() {
    let f = folding();
    assert_eq!(
        f.evaluate_constant_expression(&number(1, 4.0)),
        Some(NodeValue::Number(4.0f64.to_bits()))
    );
    let mut flag = Node::new(2, NodeType::BooleanLiteral);
    flag.set_value("value", NodeValue::Boolean(true));
    assert_eq!(f.evaluate_constant_expression(&NodeRef::new(flag)), Some(NodeValue::Boolean(true)));
    let empty = NodeRef::new(Node::new(3, NodeType::NumericLiteral));
    assert_eq!(f.evaluate_constant_expression(&empty), None);
}

#[test]
fn folding_twice_changes_nothing_more() {
    let f = folding();
    let mut block = Node::new(10, NodeType::BlockStatement);
    block.add_child(Arc::clone(&binary(3, "+", &number(1, 2.0), &number(2, 3.0)).0));
    block.add_child(Arc::clone(&binary(6, "/", &number(4, 1.0), &number(5, 0.0)).0));
    block.add_child(Arc::clone(&string(7, "s").0));
    let block = NodeRef::new(block);
    let once = f.fold_tree(&block);
    let twice = f.fold_tree(&once);
    assert_eq!(once, twice);
    assert_eq!(once.0.children[0].0.node_type, NodeType::NumericLiteral);
    assert_eq!(once.0.children[1].0.node_type, NodeType::BinaryExpression);
    assert_eq!(once.0.children.len(), 3);
}

#[test]
fn combine_goes_by_the_operator() {
    let f = folding();
    let two = NodeValue::Number(2.0f64.to_bits());
    let three = NodeValue::Number(3.0f64.to_bits());
    assert_eq!(
        f.combine(two.clone(), three.clone(), "*"),
        Some(NodeValue::Number(6.0f64.to_bits()))
    );
    assert_eq!(f.combine(two.clone(), NodeValue::Number(0), "/"), None);
    assert_eq!(f.combine(two, NodeValue::Null, "+"), None);
    assert_eq!(f.combine(NodeValue::Boolean(true), NodeValue::Boolean(true), "+"), None);
    assert_eq!(
        f.combine(NodeValue::String("x".into()), NodeValue::String("y".into()), "+"),
        Some(NodeValue::String("xy".into()))
    );
    drop(three);
}
