use crate::ir::node::{refs_model, NodeModel, NodeRef, NodeType};
use crate::ir::store::IR;
use crate::ir::traverse::preorder;
use crate::optimizers::pruning::{count_kind, count_nodes_of_kind};
use vstd::prelude::*;

verus! {

/// How many constructs of each kind a unit holds.
#[derive(Debug, Clone, Copy, PartialEq, Eq, Structural)]
pub struct CodeStats {
    pub functions: usize,
    pub variables: usize,
    pub classes: usize,
    pub conditionals: usize,
    pub loops: usize,
}

/// How many nodes of a walk are loops: `for` or `while` statements.
pub open spec fn count_loops(order: Seq<NodeModel>, upto: int) -> nat
    decreases upto,
{
    if upto <= 0 {
        0
    } else {
        count_loops(order, upto - 1) + if order[upto - 1].node_type == NodeType::ForStatement
            || order[upto - 1].node_type == NodeType::WhileStatement {
            1nat
        } else {
            0nat
        }
    }
}

fn count_loop_nodes(order: &Vec<NodeRef>) -> (n: usize)
    ensures
        n == count_loops(refs_model(order@), order.len() as int),
{
    let mut n: usize = 0;
    let mut i: usize = 0;
    while i < order.len()
        invariant
            i <= order.len(),
            n <= i,
            n == count_loops(refs_model(order@), i as int),
        decreases order.len() - i,
    {
        assert(refs_model(order@)[i as int] == order@[i as int]@);
        if order[i].0.node_type == NodeType::ForStatement || order[i].0.node_type
            == NodeType::WhileStatement {
            n = n + 1;
        }
        i = i + 1;
    }
    n
}

impl CodeStats {
    /// No construct of any kind.
    pub fn new() -> (stats: Self)
        ensures
            stats == (CodeStats { functions: 0, variables: 0, classes: 0, conditionals: 0, loops: 0 }),
    {
        CodeStats { functions: 0, variables: 0, classes: 0, conditionals: 0, loops: 0 }
    }
}

/// Counts the constructs of a unit by a walk of the tree under its root:
/// the declarations of functions, of variables and of classes, the `if`
/// statements, and the loops.
pub fn analyze_ir(ir: &IR) -> (stats: CodeStats)
    requires
        ir.wf(),
    ensures
        ({
            let order = preorder(ir@.root());
            let n = order.len() as int;
            &&& stats.functions == count_kind(order, NodeType::FunctionDeclaration, n)
            &&& stats.variables == count_kind(order, NodeType::VariableDeclaration, n)
            &&& stats.classes == count_kind(order, NodeType::ClassDeclaration, n)
            &&& stats.conditionals == count_kind(order, NodeType::IfStatement, n)
            &&& stats.loops == count_loops(order, n)
        }),
{
    let order = ir.visit();
    CodeStats {
        functions: count_nodes_of_kind(&order, NodeType::FunctionDeclaration),
        variables: count_nodes_of_kind(&order, NodeType::VariableDeclaration),
        classes: count_nodes_of_kind(&order, NodeType::ClassDeclaration),
        conditionals: count_nodes_of_kind(&order, NodeType::IfStatement),
        loops: count_loop_nodes(&order),
    }
}

} // verus!
