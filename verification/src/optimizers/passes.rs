use crate::clock::{elapsed_ms, now};
use crate::ir::node::{refs_model, NodeModel, NodeRef, NodeType};
use crate::ir::store::{root_replaced, IRModel, IR};
use crate::ir::traverse::{preorder, tree_size, walk};
use crate::optimizers::folding::{folded, zero_divisions, ConstantFolding, NumericOp};
use crate::optimizers::options::{
    clamped, details_model, estimated_size_delta, signed_delta, OptimizationLevel,
    OptimizationResult, OptimizerOptions, ESTIMATED_NODE_BYTES,
};
use crate::optimizers::pruning::{
    collect_reads, count_kind, count_nodes_of_kind, eliminate, eliminated,
    lemma_eliminated_keeps_top, reads, PruneScope,
};
use crate::text::names_of;
use crate::text::{decimal, decimal_string};
use vstd::prelude::*;

verus! {

/// What every pass of the pipeline offers.
pub trait Optimizer {
    /// What the pass needs of itself before it can run.
    spec fn ready(&self) -> bool;

    spec fn pass_name(&self) -> Seq<char>;

    /// The levels at which the pass runs.
    spec fn applies(&self, level: OptimizationLevel) -> bool;

    /// What the pass makes of a unit.
    spec fn effect(&self, before: IRModel, after: IRModel) -> bool;

    /// What the pass says in its report of a run that made `after` of
    /// `before`, the time taken apart.
    spec fn report(&self, before: IRModel, after: IRModel, r: OptimizationResult) -> bool;

    fn name(&self) -> (n: &'static str)
        ensures
            n@ == self.pass_name(),
    ;

    /// What the pass does, in a line for a reader.
    spec fn pass_description(&self) -> Seq<char>;

    fn description(&self) -> (d: &'static str)
        ensures
            d@ == self.pass_description(),
    ;

    /// Runs the pass on a unit and reports on the run.
    fn optimize(&self, ir: &mut IR) -> (r: OptimizationResult)
        requires
            self.ready(),
            old(ir).wf(),
        ensures
            final(ir).wf(),
            final(ir)@.root_id == old(ir)@.root_id,
            final(ir)@.next_id >= old(ir)@.next_id,
            self.effect(old(ir)@, final(ir)@),
            r.optimizer@ == self.pass_name(),
            self.report(old(ir)@, final(ir)@, r),
    ;

    fn is_applicable_for_level(&self, level: OptimizationLevel) -> (r: bool)
        ensures
            r == self.applies(level),
    ;
}

/// How many nodes of kind `t` a pass took out of a tree, by the walks
/// before and after it.
pub open spec fn removed_of_kind(before: NodeModel, after: NodeModel, t: NodeType) -> nat {
    let b = count_kind(preorder(before), t, preorder(before).len() as int);
    let a = count_kind(preorder(after), t, preorder(after).len() as int);
    if b >= a {
        (b - a) as nat
    } else {
        0
    }
}

/// What a result says of the trees before and after a pass, the time
/// taken apart: no failure, the change of the number of nodes under the
/// root, and the change of size estimated from it.
pub open spec fn reports(r: OptimizationResult, before: NodeModel, after: NodeModel) -> bool {
    &&& r.success
    &&& r.nodes_delta == clamped(tree_size(after) - tree_size(before))
    &&& r.size_delta == clamped(r.nodes_delta * ESTIMATED_NODE_BYTES)
}

/// The two entries of the details of a pass that removes nodes: under
/// each key the number of nodes of a kind that the pass took out.
pub open spec fn removal_details(
    before: NodeModel,
    after: NodeModel,
    first_key: Seq<char>,
    first_kind: NodeType,
    second_key: Seq<char>,
    second_kind: NodeType,
) -> Seq<(Seq<char>, Seq<char>)> {
    seq![
        (first_key, decimal(removed_of_kind(before, after, first_kind))),
        (second_key, decimal(removed_of_kind(before, after, second_kind))),
    ]
}

/// The two entries of the details of constant folding: the number of
/// binary expressions that it took out, and the number of divisions by
/// zero that it left, under the arithmetic `g`.
pub open spec fn folding_details(
    before: NodeModel,
    after: NodeModel,
    g: spec_fn(NumericOp, u64, u64) -> u64,
) -> Seq<(Seq<char>, Seq<char>)> {
    seq![
        ("folded_expressions"@, decimal(removed_of_kind(before, after, NodeType::BinaryExpression))),
        ("divisions_by_zero"@, decimal(zero_divisions(preorder(after), preorder(after).len() as int, g))),
    ]
}

fn removed_count(before: &Vec<NodeRef>, after: &Vec<NodeRef>, t: NodeType) -> (n: usize)
    ensures
        n == {
            let b = count_kind(refs_model(before@), t, before.len() as int);
            let a = count_kind(refs_model(after@), t, after.len() as int);
            if b >= a {
                (b - a) as nat
            } else {
                0
            }
        },
{
    let b = count_nodes_of_kind(before, t);
    let a = count_nodes_of_kind(after, t);
    if b >= a {
        b - a
    } else {
        0
    }
}

/// The pass that removes declarations of functions, variables and
/// classes whose name nothing reads. It works on the tree of children;
/// nodes that an attribute holds are left as they are.
pub struct DeadCodeElimination {
    pub options: OptimizerOptions,
}

impl DeadCodeElimination {
    pub fn new(options: OptimizerOptions) -> (pass: Self)
        ensures
            pass.options == options,
    {
        DeadCodeElimination { options }
    }

    /// The names that the tree under the root reads: those of its
    /// identifiers, but for the places where a declaration binds one.
    pub fn collect_used_identifiers(&self, ir: &IR) -> (used: Vec<String>)
        requires
            ir.wf(),
        ensures
            names_of(used@) == reads(ir@.root()),
    {
        let order = ir.visit();
        collect_reads(&order)
    }
}

impl Optimizer for DeadCodeElimination {
    open spec fn ready(&self) -> bool {
        true
    }

    open spec fn pass_name(&self) -> Seq<char> {
        "DeadCodeElimination"@
    }

    open spec fn pass_description(&self) -> Seq<char> {
        "消除未使用的变量和函数"@
    }

    open spec fn applies(&self, level: OptimizationLevel) -> bool {
        level != OptimizationLevel::Off
    }

    open spec fn effect(&self, before: IRModel, after: IRModel) -> bool {
        after == root_replaced(
            before,
            eliminated(
                before.root(),
                PruneScope::Declarations,
                names_of(self.options.preserved_globals@),
            ),
        )
    }

    open spec fn report(&self, before: IRModel, after: IRModel, r: OptimizationResult) -> bool {
        &&& reports(r, before.root(), after.root())
        &&& details_model(r.details@) == removal_details(
            before.root(),
            after.root(),
            "removed_vars"@,
            NodeType::VariableDeclaration,
            "removed_functions"@,
            NodeType::FunctionDeclaration,
        )
    }

    fn name(&self) -> (n: &'static str) {
        "DeadCodeElimination"
    }

    fn description(&self) -> (d: &'static str) {
        "消除未使用的变量和函数"
    }

    fn optimize(&self, ir: &mut IR) -> (r: OptimizationResult) {
        let start = now();
        let root = NodeRef(ir.get_root());
        let before = walk(&root);
        let new_root = eliminate(&root, PruneScope::Declarations, &self.options.preserved_globals);
        proof {
            lemma_eliminated_keeps_top(
                root@,
                PruneScope::Declarations,
                names_of(self.options.preserved_globals@),
            );
        }
        let after = walk(&new_root);
        let mut details: Vec<(String, String)> = Vec::new();
        details.push(
            (
                "removed_vars".to_owned(),
                decimal_string(removed_count(&before, &after, NodeType::VariableDeclaration)),
            ),
        );
        details.push(
            (
                "removed_functions".to_owned(),
                decimal_string(removed_count(&before, &after, NodeType::FunctionDeclaration)),
            ),
        );
        let nodes_delta = signed_delta(after.len(), before.len());
        ir.replace_root(new_root);
        let r = OptimizationResult {
            optimizer: "DeadCodeElimination".to_owned(),
            success: true,
            time_ms: elapsed_ms(&start),
            nodes_delta,
            size_delta: estimated_size_delta(nodes_delta),
            details,
        };
        assert(details_model(r.details@) =~= removal_details(
            old(ir)@.root(),
            ir@.root(),
            "removed_vars"@,
            NodeType::VariableDeclaration,
            "removed_functions"@,
            NodeType::FunctionDeclaration,
        ));
        r
    }

    fn is_applicable_for_level(&self, level: OptimizationLevel) -> (r: bool) {
        match level {
            OptimizationLevel::Off => false,
            _ => true,
        }
    }
}

/// The pass that removes import and export declarations whose name
/// nothing reads. It works on the tree of children; nodes that an
/// attribute holds are left as they are.
pub struct TreeShaking {
    pub options: OptimizerOptions,
}

impl TreeShaking {
    pub fn new(options: OptimizerOptions) -> (pass: Self)
        ensures
            pass.options == options,
    {
        TreeShaking { options }
    }
}

impl Optimizer for TreeShaking {
    open spec fn ready(&self) -> bool {
        true
    }

    open spec fn pass_name(&self) -> Seq<char> {
        "TreeShaking"@
    }

    open spec fn pass_description(&self) -> Seq<char> {
        "移除未使用的导入和导出"@
    }

    open spec fn applies(&self, level: OptimizationLevel) -> bool {
        level != OptimizationLevel::Off
    }

    open spec fn effect(&self, before: IRModel, after: IRModel) -> bool {
        after == root_replaced(
            before,
            eliminated(before.root(), PruneScope::ModuleLinks, Seq::<Seq<char>>::empty()),
        )
    }

    open spec fn report(&self, before: IRModel, after: IRModel, r: OptimizationResult) -> bool {
        &&& reports(r, before.root(), after.root())
        &&& details_model(r.details@) == removal_details(
            before.root(),
            after.root(),
            "removed_imports"@,
            NodeType::ImportDeclaration,
            "removed_exports"@,
            NodeType::ExportDeclaration,
        )
    }

    fn name(&self) -> (n: &'static str) {
        "TreeShaking"
    }

    fn description(&self) -> (d: &'static str) {
        "移除未使用的导入和导出"
    }

    fn optimize(&self, ir: &mut IR) -> (r: OptimizationResult) {
        let start = now();
        let root = NodeRef(ir.get_root());
        let before = walk(&root);
        let nothing: Vec<String> = Vec::new();
        assert(names_of(nothing@) =~= Seq::<Seq<char>>::empty());
        let new_root = eliminate(&root, PruneScope::ModuleLinks, &nothing);
        proof {
            lemma_eliminated_keeps_top(root@, PruneScope::ModuleLinks, Seq::<Seq<char>>::empty());
        }
        let after = walk(&new_root);
        let mut details: Vec<(String, String)> = Vec::new();
        details.push(
            (
                "removed_imports".to_owned(),
                decimal_string(removed_count(&before, &after, NodeType::ImportDeclaration)),
            ),
        );
        details.push(
            (
                "removed_exports".to_owned(),
                decimal_string(removed_count(&before, &after, NodeType::ExportDeclaration)),
            ),
        );
        let nodes_delta = signed_delta(after.len(), before.len());
        ir.replace_root(new_root);
        let r = OptimizationResult {
            optimizer: "TreeShaking".to_owned(),
            success: true,
            time_ms: elapsed_ms(&start),
            nodes_delta,
            size_delta: estimated_size_delta(nodes_delta),
            details,
        };
        assert(details_model(r.details@) =~= removal_details(
            old(ir)@.root(),
            ir@.root(),
            "removed_imports"@,
            NodeType::ImportDeclaration,
            "removed_exports"@,
            NodeType::ExportDeclaration,
        ));
        r
    }

    fn is_applicable_for_level(&self, level: OptimizationLevel) -> (r: bool) {
        match level {
            OptimizationLevel::Off => false,
            _ => true,
        }
    }
}

impl<A: Fn(NumericOp, u64, u64) -> u64> Optimizer for ConstantFolding<A> {
    open spec fn ready(&self) -> bool {
        self.is_total()
    }

    open spec fn pass_name(&self) -> Seq<char> {
        "ConstantFolding"@
    }

    open spec fn pass_description(&self) -> Seq<char> {
        "在编译时计算常量表达式"@
    }

    open spec fn applies(&self, level: OptimizationLevel) -> bool {
        level == OptimizationLevel::Normal || level == OptimizationLevel::Aggressive
    }

    open spec fn effect(&self, before: IRModel, after: IRModel) -> bool {
        after == root_replaced(before, folded(before.root(), self.arithmetic()))
    }

    open spec fn report(&self, before: IRModel, after: IRModel, r: OptimizationResult) -> bool {
        &&& reports(r, before.root(), after.root())
        &&& details_model(r.details@) == folding_details(
            before.root(),
            after.root(),
            self.arithmetic(),
        )
    }

    fn name(&self) -> (n: &'static str) {
        "ConstantFolding"
    }

    fn description(&self) -> (d: &'static str) {
        "在编译时计算常量表达式"
    }

    fn optimize(&self, ir: &mut IR) -> (r: OptimizationResult) {
        let start = now();
        let root = NodeRef(ir.get_root());
        let before = walk(&root);
        let new_root = self.fold_tree(&root);
        let after = walk(&new_root);
        let mut details: Vec<(String, String)> = Vec::new();
        details.push(
            (
                "folded_expressions".to_owned(),
                decimal_string(removed_count(&before, &after, NodeType::BinaryExpression)),
            ),
        );
        details.push(
            ("divisions_by_zero".to_owned(), decimal_string(self.count_divisions_by_zero(&after))),
        );
        let nodes_delta = signed_delta(after.len(), before.len());
        ir.replace_root(new_root);
        let r = OptimizationResult {
            optimizer: "ConstantFolding".to_owned(),
            success: true,
            time_ms: elapsed_ms(&start),
            nodes_delta,
            size_delta: estimated_size_delta(nodes_delta),
            details,
        };
        assert(details_model(r.details@) =~= folding_details(
            old(ir)@.root(),
            ir@.root(),
            self.arithmetic(),
        ));
        r
    }

    fn is_applicable_for_level(&self, level: OptimizationLevel) -> (r: bool) {
        match level {
            OptimizationLevel::Off => false,
            OptimizationLevel::Basic => false,
            _ => true,
        }
    }
}

/// One of the three passes that the library brings, as one type, so that
/// a pipeline can hold them side by side.
pub enum StandardPass<A> {
    DeadCodeElimination(DeadCodeElimination),
    ConstantFolding(ConstantFolding<A>),
    TreeShaking(TreeShaking),
}

impl<A: Fn(NumericOp, u64, u64) -> u64> Optimizer for StandardPass<A> {
    open spec fn ready(&self) -> bool {
        match self {
            StandardPass::DeadCodeElimination(p) => p.ready(),
            StandardPass::ConstantFolding(p) => p.ready(),
            StandardPass::TreeShaking(p) => p.ready(),
        }
    }

    open spec fn pass_name(&self) -> Seq<char> {
        match self {
            StandardPass::DeadCodeElimination(p) => p.pass_name(),
            StandardPass::ConstantFolding(p) => p.pass_name(),
            StandardPass::TreeShaking(p) => p.pass_name(),
        }
    }

    open spec fn pass_description(&self) -> Seq<char> {
        match self {
            StandardPass::DeadCodeElimination(p) => p.pass_description(),
            StandardPass::ConstantFolding(p) => p.pass_description(),
            StandardPass::TreeShaking(p) => p.pass_description(),
        }
    }

    open spec fn applies(&self, level: OptimizationLevel) -> bool {
        match self {
            StandardPass::DeadCodeElimination(p) => p.applies(level),
            StandardPass::ConstantFolding(p) => p.applies(level),
            StandardPass::TreeShaking(p) => p.applies(level),
        }
    }

    open spec fn effect(&self, before: IRModel, after: IRModel) -> bool {
        match self {
            StandardPass::DeadCodeElimination(p) => p.effect(before, after),
            StandardPass::ConstantFolding(p) => p.effect(before, after),
            StandardPass::TreeShaking(p) => p.effect(before, after),
        }
    }

    open spec fn report(&self, before: IRModel, after: IRModel, r: OptimizationResult) -> bool {
        match self {
            StandardPass::DeadCodeElimination(p) => p.report(before, after, r),
            StandardPass::ConstantFolding(p) => p.report(before, after, r),
            StandardPass::TreeShaking(p) => p.report(before, after, r),
        }
    }

    fn name(&self) -> (n: &'static str) {
        match self {
            StandardPass::DeadCodeElimination(p) => p.name(),
            StandardPass::ConstantFolding(p) => p.name(),
            StandardPass::TreeShaking(p) => p.name(),
        }
    }

    fn description(&self) -> (d: &'static str) {
        match self {
            StandardPass::DeadCodeElimination(p) => p.description(),
            StandardPass::ConstantFolding(p) => p.description(),
            StandardPass::TreeShaking(p) => p.description(),
        }
    }

    fn optimize(&self, ir: &mut IR) -> (r: OptimizationResult) {
        match self {
            StandardPass::DeadCodeElimination(p) => p.optimize(ir),
            StandardPass::ConstantFolding(p) => p.optimize(ir),
            StandardPass::TreeShaking(p) => p.optimize(ir),
        }
    }

    fn is_applicable_for_level(&self, level: OptimizationLevel) -> (r: bool) {
        match self {
            StandardPass::DeadCodeElimination(p) => p.is_applicable_for_level(level),
            StandardPass::ConstantFolding(p) => p.is_applicable_for_level(level),
            StandardPass::TreeShaking(p) => p.is_applicable_for_level(level),
        }
    }
}

} // verus!
