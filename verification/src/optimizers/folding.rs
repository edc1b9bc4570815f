use crate::ir::node::{refs_model, Node, NodeModel, NodeRef, NodeType, NodeValue, ValueModel};
use crate::optimizers::options::OptimizerOptions;
use crate::text::str_eq;
use vstd::prelude::*;
use vstd::string::StringExecFns;

verus! {

/// The four operations that folding asks of the arithmetic it is given.
#[derive(Debug, Clone, Copy, PartialEq, Eq, Structural)]
pub enum NumericOp {
    Add,
    Sub,
    Mul,
    Div,
}

/// Whether a binary64 bit pattern is one of the two zeros.
pub open spec fn is_zero(bits: u64) -> bool {
    bits == 0 || bits == 0x8000_0000_0000_0000
}

pub fn number_is_zero(bits: u64) -> (r: bool)
    ensures
        r == is_zero(bits),
{
    bits == 0 || bits == 0x8000_0000_0000_0000
}

/// Whether `g` says what the arithmetic `arith` returns on every input.
pub open spec fn computes<A: Fn(NumericOp, u64, u64) -> u64>(
    arith: &A,
    g: spec_fn(NumericOp, u64, u64) -> u64,
) -> bool {
    forall|op: NumericOp, a: u64, b: u64, r: u64| #[trigger]
        arith.ensures((op, a, b), r) ==> r == g(op, a, b)
}

/// Whether the arithmetic computes a function: what it returns depends
/// on its input alone.
pub open spec fn is_function<A: Fn(NumericOp, u64, u64) -> u64>(arith: &A) -> bool {
    exists|g: spec_fn(NumericOp, u64, u64) -> u64| computes(arith, g)
}

/// The function that the arithmetic computes, where it computes one.
pub open spec fn function_of<A: Fn(NumericOp, u64, u64) -> u64>(arith: &A) -> spec_fn(
    NumericOp,
    u64,
    u64,
) -> u64 {
    choose|g: spec_fn(NumericOp, u64, u64) -> u64| computes(arith, g)
}

/// What two operand values and an operator fold to, if they fold: numbers
/// under `+ - * /` unless the divisor is zero, strings under `+`.
pub open spec fn combined(
    left: ValueModel,
    right: ValueModel,
    operator: Seq<char>,
    g: spec_fn(NumericOp, u64, u64) -> u64,
) -> Option<ValueModel> {
    match (left, right) {
        (ValueModel::Number(a), ValueModel::Number(b)) => {
            if operator == "+"@ {
                Some(ValueModel::Number(g(NumericOp::Add, a, b)))
            } else if operator == "-"@ {
                Some(ValueModel::Number(g(NumericOp::Sub, a, b)))
            } else if operator == "*"@ {
                Some(ValueModel::Number(g(NumericOp::Mul, a, b)))
            } else if operator == "/"@ {
                if is_zero(b) {
                    None
                } else {
                    Some(ValueModel::Number(g(NumericOp::Div, a, b)))
                }
            } else {
                None
            }
        },
        (ValueModel::Text(a), ValueModel::Text(b)) => {
            if operator == "+"@ {
                Some(ValueModel::Text(a + b))
            } else {
                None
            }
        },
        _ => None,
    }
}

pub open spec fn is_literal(t: NodeType) -> bool {
    t == NodeType::NumericLiteral || t == NodeType::StringLiteral || t == NodeType::BooleanLiteral
}

/// The constant that an expression stands for, if it is one: a literal
/// stands for its `value`; a binary expression with exactly two children
/// that both stand for constants stands for what they combine to under
/// its `operator`.
pub open spec fn evaluated(n: NodeModel, g: spec_fn(NumericOp, u64, u64) -> u64) -> Option<
    ValueModel,
>
    decreases n,
{
    if is_literal(n.node_type) {
        if n.values.contains_key("value"@) {
            Some(n.values["value"@])
        } else {
            None
        }
    } else if n.node_type == NodeType::BinaryExpression {
        if n.children.len() != 2 {
            None
        } else {
            match (evaluated(n.children[0], g), evaluated(n.children[1], g)) {
                (Some(left), Some(right)) => {
                    if n.values.contains_key("operator"@) && n.values["operator"@] is Text {
                        combined(left, right, n.values["operator"@]->Text_0, g)
                    } else {
                        None
                    }
                },
                _ => None,
            }
        }
    } else {
        None
    }
}

/// Whether a node is a division by a constant zero: a binary expression
/// with two children and the operator `/` whose second child stands for
/// a number that is zero.
pub open spec fn divides_by_zero(n: NodeModel, g: spec_fn(NumericOp, u64, u64) -> u64) -> bool {
    &&& n.node_type == NodeType::BinaryExpression
    &&& n.children.len() == 2
    &&& n.values.contains_key("operator"@)
    &&& n.values["operator"@] == ValueModel::Text("/"@)
    &&& evaluated(n.children[1], g) matches Some(ValueModel::Number(b)) && is_zero(b)
}

/// How many of the first `upto` nodes of a walk are divisions by a
/// constant zero.
pub open spec fn zero_divisions(
    order: Seq<NodeModel>,
    upto: int,
    g: spec_fn(NumericOp, u64, u64) -> u64,
) -> nat
    decreases upto,
{
    if upto <= 0 {
        0
    } else {
        zero_divisions(order, upto - 1, g) + if divides_by_zero(order[upto - 1], g) {
            1nat
        } else {
            0nat
        }
    }
}

/// The literal that takes the place of a folded expression: it keeps the
/// expression's id, location and parent and holds the constant as `value`.
pub open spec fn literal_of(n: NodeModel, node_type: NodeType, value: ValueModel) -> NodeModel {
    NodeModel {
        id: n.id,
        node_type,
        values: Map::<Seq<char>, ValueModel>::empty().insert("value"@, value),
        location: n.location,
        children: Seq::empty(),
        parent: n.parent,
    }
}

/// The tree with every constant binary expression replaced by its literal.
/// A binary expression that stands for no constant is left as it is, with
/// all that is under it. Folding works on the tree of children: the
/// attributes of a node that stays are left as they are, also where an
/// attribute holds nodes.
pub open spec fn folded(n: NodeModel, g: spec_fn(NumericOp, u64, u64) -> u64) -> NodeModel
    decreases n,
{
    if n.node_type == NodeType::BinaryExpression {
        match evaluated(n, g) {
            Some(ValueModel::Number(x)) => literal_of(
                n,
                NodeType::NumericLiteral,
                ValueModel::Number(x),
            ),
            Some(ValueModel::Text(t)) => literal_of(n, NodeType::StringLiteral, ValueModel::Text(t)),
            _ => n,
        }
    } else {
        NodeModel { children: folded_all(n.children, g), ..n }
    }
}

pub open spec fn folded_all(s: Seq<NodeModel>, g: spec_fn(NumericOp, u64, u64) -> u64) -> Seq<
    NodeModel,
>
    decreases s,
{
    Seq::new(
        s.len(),
        |i: int|
            if 0 <= i < s.len() {
                folded(s[i], g)
            } else {
                arbitrary()
            },
    )
}

pub open spec fn option_model(v: Option<NodeValue>) -> Option<ValueModel> {
    match v {
        Some(x) => Some(x@),
        None => None,
    }
}

/// Folding a tree that is already folded changes nothing.
pub proof fn lemma_folding_is_idempotent(n: NodeModel, g: spec_fn(NumericOp, u64, u64) -> u64)
    ensures
        folded(folded(n, g), g) == folded(n, g),
    decreases n,
{
    if n.node_type == NodeType::BinaryExpression {
        let m = folded(n, g);
        if m != n {
            assert(m.children == Seq::<NodeModel>::empty());
            assert(folded_all(m.children, g) =~= m.children);
        }
    } else {
        let m = folded(n, g);
        assert forall|i: int| 0 <= i < n.children.len() implies folded(
            #[trigger] m.children[i],
            g,
        ) == m.children[i] by {
            lemma_folding_is_idempotent(n.children[i], g);
        }
        assert(folded_all(m.children, g) =~= m.children);
    }
}

/// A division whose divisor stands for zero is never folded: the
/// expression stays as it is, with all that is under it.
pub proof fn lemma_division_by_zero_is_not_folded(
    n: NodeModel,
    g: spec_fn(NumericOp, u64, u64) -> u64,
    divisor: u64,
)
    requires
        n.node_type == NodeType::BinaryExpression,
        n.children.len() == 2,
        n.values.contains_key("operator"@),
        n.values["operator"@] == ValueModel::Text("/"@),
        evaluated(n.children[1], g) == Some(ValueModel::Number(divisor)),
        is_zero(divisor),
    ensures
        evaluated(n, g) is None,
        folded(n, g) == n,
{
    reveal_strlit("/");
    reveal_strlit("+");
    reveal_strlit("-");
    reveal_strlit("*");
    assert("/"@ != "+"@) by {
        assert("/"@[0] != "+"@[0]);
    }
    assert("/"@ != "-"@) by {
        assert("/"@[0] != "-"@[0]);
    }
    assert("/"@ != "*"@) by {
        assert("/"@[0] != "*"@[0]);
    }
}

/// The pass that computes constant expressions ahead of time. It holds the
/// arithmetic on binary64 bit patterns that it folds numbers with. It
/// works on the tree of children; nodes that an attribute holds are left
/// as they are.
pub struct ConstantFolding<A> {
    pub options: OptimizerOptions,
    pub arith: A,
}

impl<A: Fn(NumericOp, u64, u64) -> u64> ConstantFolding<A> {
    /// Whether the pass can run: its arithmetic can be called on every
    /// input, and what it returns depends on the input alone.
    pub open spec fn is_total(&self) -> bool {
        &&& forall|op: NumericOp, a: u64, b: u64| #[trigger] self.arith.requires((op, a, b))
        &&& is_function(&self.arith)
    }

    /// The function that the arithmetic of the pass computes.
    pub open spec fn arithmetic(&self) -> spec_fn(NumericOp, u64, u64) -> u64 {
        function_of(&self.arith)
    }

    /// What the arithmetic returns is what its function says.
    pub proof fn lemma_arithmetic(&self)
        requires
            self.is_total(),
        ensures
            computes(&self.arith, self.arithmetic()),
    {
    }

    pub fn new(options: OptimizerOptions, arith: A) -> (pass: Self)
        ensures
            pass.options == options,
            pass.arith == arith,
    {
        ConstantFolding { options, arith }
    }

    /// What two operand values fold to under an operator, if they fold.
    pub fn combine(&self, left: NodeValue, right: NodeValue, operator: &str) -> (r: Option<
        NodeValue,
    >)
        requires
            self.is_total(),
        ensures
            option_model(r) == combined(left@, right@, operator@, self.arithmetic()),
    {
        proof {
            self.lemma_arithmetic();
        }
        match (left, right) {
            (NodeValue::Number(a), NodeValue::Number(b)) => {
                if str_eq(operator, "+") {
                    Some(NodeValue::Number((self.arith)(NumericOp::Add, a, b)))
                } else if str_eq(operator, "-") {
                    Some(NodeValue::Number((self.arith)(NumericOp::Sub, a, b)))
                } else if str_eq(operator, "*") {
                    Some(NodeValue::Number((self.arith)(NumericOp::Mul, a, b)))
                } else if str_eq(operator, "/") {
                    if number_is_zero(b) {
                        None
                    } else {
                        Some(NodeValue::Number((self.arith)(NumericOp::Div, a, b)))
                    }
                } else {
                    None
                }
            },
            (NodeValue::String(a), NodeValue::String(b)) => {
                if str_eq(operator, "+") {
                    Some(NodeValue::String(a.concat(b.as_str())))
                } else {
                    None
                }
            },
            _ => None,
        }
    }

    /// The constant that the expression under `node` stands for, if it is one.
    pub fn evaluate_constant_expression(&self, node: &NodeRef) -> (r: Option<NodeValue>)
        requires
            self.is_total(),
        ensures
            option_model(r) == evaluated(node@, self.arithmetic()),
        decreases node@,
    {
        match node.0.node_type {
            NodeType::NumericLiteral | NodeType::StringLiteral | NodeType::BooleanLiteral => {
                match node.0.get_value("value") {
                    Some(v) => Some(v.duplicate()),
                    None => None,
                }
            },
            NodeType::BinaryExpression => {
                if node.0.children.len() != 2 {
                    return None;
                }
                let left = match self.evaluate_constant_expression(&node.0.children[0]) {
                    Some(v) => v,
                    None => {
                        return None;
                    },
                };
                let right = match self.evaluate_constant_expression(&node.0.children[1]) {
                    Some(v) => v,
                    None => {
                        return None;
                    },
                };
                let operator = match node.0.get_string_value("operator") {
                    Some(o) => o,
                    None => {
                        return None;
                    },
                };
                self.combine(left, right, operator)
            },
            _ => None,
        }
    }

    /// Whether the node is a division by a constant zero.
    pub fn is_division_by_zero(&self, node: &NodeRef) -> (r: bool)
        requires
            self.is_total(),
        ensures
            r == divides_by_zero(node@, self.arithmetic()),
    {
        if node.0.node_type != NodeType::BinaryExpression || node.0.children.len() != 2 {
            return false;
        }
        let slash = match node.0.get_string_value("operator") {
            Some(operator) => str_eq(operator, "/"),
            None => false,
        };
        if !slash {
            return false;
        }
        assert(node@.children[1] == node.0.children@[1]@);
        match self.evaluate_constant_expression(&node.0.children[1]) {
            Some(NodeValue::Number(b)) => number_is_zero(b),
            _ => false,
        }
    }

    /// How many nodes of a walk are divisions by a constant zero.
    pub fn count_divisions_by_zero(&self, order: &Vec<NodeRef>) -> (n: usize)
        requires
            self.is_total(),
        ensures
            n == zero_divisions(refs_model(order@), order.len() as int, self.arithmetic()),
    {
        let mut n: usize = 0;
        let mut i: usize = 0;
        while i < order.len()
            invariant
                self.is_total(),
                i <= order.len(),
                n <= i,
                n == zero_divisions(refs_model(order@), i as int, self.arithmetic()),
            decreases order.len() - i,
        {
            assert(refs_model(order@)[i as int] == order@[i as int]@);
            if self.is_division_by_zero(&order[i]) {
                n = n + 1;
            }
            i = i + 1;
        }
        n
    }

    /// The tree under `node` with every constant binary expression
    /// replaced by its literal. Nodes that an attribute holds are not
    /// folded: the attributes of a node that stays are as they were.
    pub fn fold_tree(&self, node: &NodeRef) -> (r: NodeRef)
        requires
            self.is_total(),
        ensures
            r@ == folded(node@, self.arithmetic()),
            r@.id == node@.id,
            r@.location == node@.location,
            r@.parent == node@.parent,
            node@.node_type != NodeType::BinaryExpression ==> r@.node_type == node@.node_type
                && r@.values == node@.values && r@.children.len() == node@.children.len(),
        decreases node@,
    {
        if node.0.node_type == NodeType::BinaryExpression {
            match self.evaluate_constant_expression(node) {
                Some(NodeValue::Number(x)) => literal_node(
                    &node.0,
                    NodeType::NumericLiteral,
                    NodeValue::Number(x),
                ),
                Some(NodeValue::String(t)) => literal_node(
                    &node.0,
                    NodeType::StringLiteral,
                    NodeValue::String(t),
                ),
                _ => node.share(),
            }
        } else {
            let mut kids: Vec<NodeRef> = Vec::new();
            let mut i: usize = 0;
            while i < node.0.children.len()
                invariant
                    self.is_total(),
                    i <= node.0.children.len(),
                    kids.len() == i,
                    forall|j: int|
                        0 <= j < i ==> (#[trigger] kids@[j])@ == folded(
                            node@.children[j],
                            self.arithmetic(),
                        ),
                decreases node.0.children.len() - i,
            {
                assert(node.0.children@[i as int]@ == node@.children[i as int]);
                let kid = self.fold_tree(&node.0.children[i]);
                kids.push(kid);
                i = i + 1;
            }
            let mut n = node.0.duplicate();
            n.children = kids;
            let r = NodeRef::new(n);
            assert(r@.children =~= folded_all(node@.children, self.arithmetic()));
            r
        }
    }
}

/// A literal node in the place of `n`, holding `value`.
pub fn literal_node(n: &Node, node_type: NodeType, value: NodeValue) -> (r: NodeRef)
    ensures
        r@ == literal_of(n@, node_type, value@),
{
    let mut lit = Node::new(n.id, node_type);
    lit.location = n.location;
    lit.parent = n.parent;
    lit.set_value("value", value);
    NodeRef::new(lit)
}

} // verus!
