use vstd::prelude::*;

verus! {

/// The kinds of a node in the plain view of a tree.
#[derive(Debug, Clone, Copy, PartialEq, Eq, Structural)]
pub enum NodeType {
    Program,
    Expression,
    Statement,
    Identifier,
    Literal,
}

/// A node in the plain view of a tree: its id and its kind.
#[derive(Debug, Clone, Copy, PartialEq, Eq, Structural)]
pub struct Node {
    pub id: usize,
    pub node_type: NodeType,
}

} // verus!
