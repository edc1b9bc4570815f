use lumen::ir::{Node, NodeRef, NodeType, NodeValue, IR};
use lumen::optimizers::pruning::{collect_reads, eliminate, prune_tree, PruneScope};
use lumen::optimizers::{
    create_default_pipeline, optimize, optimize_ir, ConstantFolding, DeadCodeElimination,
    LumenOptimizer, NumericOp, OptimizationLevel, OptimizationPipeline, Optimizer, OptimizerConfig,
    OptimizerOptions, StandardPass, TreeShaking,
};
use std::sync::Arc;

fn arithmetic(op: NumericOp, a: u64, b: u64) -> u64 {
    let x = f64::from_bits(a);
    let y = f64::from_bits(b);
    let r = match op {
        NumericOp::Add => x + y,
        NumericOp::Sub => x - y,
        NumericOp::Mul => x * y,
        NumericOp::Div => x / y,
    };
    r.to_bits()
}

fn identifier(id: usize, name: &str) -> Arc<Node> {
    let mut n = Node::new(id, NodeType::Identifier);
    n.set_value("name", NodeValue::String(name.to_string()));
    Arc::new(n)
}

fn number(id: usize, value: f64) -> Arc<Node> {
    let mut n = Node::new(id, NodeType::NumericLiteral);
    n.set_value("value", NodeValue::Number(value.to_bits()));
    Arc::new(n)
}

fn parent(id: usize, node_type: NodeType, children: Vec<Arc<Node>>) -> Arc<Node> {
    let mut n = Node::new(id, node_type);
    for c in children {
        n.add_child(c);
    }
    Arc::new(n)
}

fn unit(children: Vec<Arc<Node>>) -> IR {
    let mut ir = IR::new();
    ir.replace_root(NodeRef(parent(0, NodeType::Program, children)));
    ir
}

fn ids(ir: &IR) -> Vec<usize> {
    ir.visit().iter().map(|n| n.0.id).collect()
}

fn sample() -> IR {
    unit(vec![
        parent(1, NodeType::VariableDeclaration, vec![identifier(2, "a"), number(3, 1.0)]),
        parent(4, NodeType::VariableDeclaration, vec![identifier(5, "b"), identifier(6, "a")]),
        parent(7, NodeType::FunctionDeclaration, vec![identifier(8, "c")]),
        parent(9, NodeType::ReturnStatement, vec![identifier(10, "c")]),
        parent(11, NodeType::VariableDeclaration, vec![identifier(12, "window")]),
        parent(13, NodeType::ImportDeclaration, vec![identifier(14, "unused")]),
    ])
}

#[test]
fn reads_leave_out_the_names_that_declarations_bind() {
    let ir = sample();
    let used = DeadCodeElimination::new(OptimizerOptions::default()).collect_used_identifiers(&ir);
    assert_eq!(used, vec!["a".to_string(), "c".to_string()]);
    assert_eq!(collect_reads(&ir.visit()), used);
}

#[test]
fn dead_declarations_are_removed_round_by_round() {
    let mut ir = sample();
    let pass = DeadCodeElimination::new(OptimizerOptions::default());
    let result = pass.optimize(&mut ir);
    assert_eq!(ids(&ir), vec![0, 7, 8, 9, 10, 11, 12, 13, 14]);
    assert_eq!(result.optimizer, "DeadCodeElimination");
    assert!(result.success);
    assert_eq!(result.nodes_delta, -6);
    assert_eq!(result.size_delta, -96);
    assert_eq!(
        result.details,
        vec![
            ("removed_vars".to_string(), "2".to_string()),
            ("removed_functions".to_string(), "0".to_string()),
        ]
    );
    let again = pass.optimize(&mut ir);
    assert_eq!(again.nodes_delta, 0);
    assert_eq!(ids(&ir), vec![0, 7, 8, 9, 10, 11, 12, 13, 14]);
}

#[test]
fn one_round_of_pruning_keeps_what_the_full_tree_reads() {
    let ir = sample();
    let root = NodeRef(ir.get_root());
    let used = collect_reads(&ir.visit());
    let preserved = vec!["window".to_string()];
    let once = prune_tree(&root, PruneScope::Declarations, &used, &preserved);
    let kept: Vec<usize> = once.0.children.iter().map(|c| c.0.id).collect();
    assert_eq!(kept, vec![1, 7, 9, 11, 13]);
    let all = eliminate(&root, PruneScope::Declarations, &preserved);
    let kept: Vec<usize> = all.0.children.iter().map(|c| c.0.id).collect();
    assert_eq!(kept, vec![7, 9, 11, 13]);
}

#[test]
fn a_declaration_used_later_in_the_source_is_kept() {
    let mut ir = unit(vec![
        parent(1, NodeType::FunctionDeclaration, vec![identifier(2, "late")]),
        parent(3, NodeType::ClassDeclaration, vec![identifier(4, "Never")]),
        parent(5, NodeType::CallExpression, vec![identifier(6, "late")]),
    ]);
    let result = DeadCodeElimination::new(OptimizerOptions::default()).optimize(&mut ir);
    assert_eq!(ids(&ir), vec![0, 1, 2, 5, 6]);
    assert_eq!(result.nodes_delta, -2);
}

#[test]
fn tree_shaking_removes_unused_imports_and_exports() {
    let mut ir = unit(vec![
        parent(1, NodeType::ImportDeclaration, vec![identifier(2, "used")]),
        parent(3, NodeType::ImportDeclaration, vec![identifier(4, "unused")]),
        parent(5, NodeType::ExportDeclaration, vec![identifier(6, "window")]),
        parent(7, NodeType::VariableDeclaration, vec![identifier(8, "x"), identifier(9, "used")]),
    ]);
    let pass = TreeShaking::new(OptimizerOptions::default());
    let result = pass.optimize(&mut ir);
    assert_eq!(ids(&ir), vec![0, 1, 2, 7, 8, 9]);
    assert_eq!(result.optimizer, "TreeShaking");
    assert_eq!(result.nodes_delta, -4);
    assert_eq!(
        result.details,
        vec![
            ("removed_imports".to_string(), "1".to_string()),
            ("removed_exports".to_string(), "1".to_string()),
        ]
    );
}

#[test]
fn constant_folding_pass_rewrites_the_tree() {
    let mut sum = Node::new(1, NodeType::BinaryExpression);
    sum.set_value("operator", NodeValue::String("+".to_string()));
    sum.add_child(number(2, 2.0));
    sum.add_child(number(3, 3.0));
    let mut ir = unit(vec![Arc::new(sum)]);
    let pass = ConstantFolding::new(OptimizerOptions::default(), arithmetic);
    let result = pass.optimize(&mut ir);
    assert_eq!(ids(&ir), vec![0, 1]);
    let literal = Arc::clone(&ir.get_root().children[0].0);
    assert_eq!(literal.node_type, NodeType::NumericLiteral);
    assert_eq!(literal.get_number_value("value"), Some(5.0f64.to_bits()));
    assert_eq!(result.optimizer, "ConstantFolding");
    assert_eq!(result.nodes_delta, -2);
    assert_eq!(result.size_delta, -32);
    assert_eq!(
        result.details,
        vec![
            ("folded_expressions".to_string(), "1".to_string()),
            ("divisions_by_zero".to_string(), "0".to_string()),
        ]
    );
}

#[test]
fn passes_have_names_descriptions_and_levels() {
    let dce = DeadCodeElimination::new(OptimizerOptions::default());
    let folding = ConstantFolding::new(OptimizerOptions::default(), arithmetic);
    let shaking = TreeShaking::new(OptimizerOptions::default());
    assert_eq!(dce.name(), "DeadCodeElimination");
    assert_eq!(folding.name(), "ConstantFolding");
    assert_eq!(shaking.name(), "TreeShaking");
    assert_eq!(dce.description(), "消除未使用的变量和函数");
    assert_eq!(folding.description(), "在编译时计算常量表达式");
    assert_eq!(shaking.description(), "移除未使用的导入和导出");
    let levels = [
        OptimizationLevel::Off,
        OptimizationLevel::Basic,
        OptimizationLevel::Normal,
        OptimizationLevel::Aggressive,
    ];
    let applies = |p: &dyn Fn(OptimizationLevel) -> bool| levels.map(|l| p(l));
    assert_eq!(applies(&|l| dce.is_applicable_for_level(l)), [false, true, true, true]);
    assert_eq!(applies(&|l| folding.is_applicable_for_level(l)), [false, false, true, true]);
    assert_eq!(applies(&|l| shaking.is_applicable_for_level(l)), [false, true, true, true]);
}

fn names_at(level: OptimizationLevel) -> Vec<String> {
    let mut ir = sample();
    create_default_pipeline(level, arithmetic).run(&mut ir).into_iter().map(|r| r.optimizer).collect()
}

#[test]
fn default_pipeline_goes_by_the_level() {
    assert!(names_at(OptimizationLevel::Off).is_empty());
    assert_eq!(names_at(OptimizationLevel::Basic), vec!["DeadCodeElimination"]);
    assert_eq!(names_at(OptimizationLevel::Normal), vec!["DeadCodeElimination", "ConstantFolding"]);
    assert_eq!(
        names_at(OptimizationLevel::Aggressive),
        vec!["DeadCodeElimination", "ConstantFolding", "TreeShaking"]
    );
}

#[test]
fn default_pipeline_heeds_the_toggles() {
    let mut options = OptimizerOptions::default();
    options.level = OptimizationLevel::Aggressive;
    options.dce = false;
    options.const_folding = false;
    let mut pipeline = OptimizationPipeline::new(options);
    pipeline.setup_default_pipeline(arithmetic);
    let mut ir = sample();
    let results = pipeline.run(&mut ir);
    assert_eq!(results.len(), 1);
    assert_eq!(results[0].optimizer, "TreeShaking");
    assert_eq!(ids(&ir), vec![0, 1, 2, 3, 4, 5, 6, 7, 8, 9, 10, 11, 12]);
}

#[test]
fn a_pass_that_does_not_apply_is_passed_over() {
    let mut options = OptimizerOptions::default();
    options.level = OptimizationLevel::Basic;
    let mut pipeline = OptimizationPipeline::new(options.clone());
    pipeline.add_optimizer(StandardPass::ConstantFolding(ConstantFolding::new(
        options.clone(),
        arithmetic,
    )));
    pipeline.add_optimizer(StandardPass::DeadCodeElimination(DeadCodeElimination::new(options)));
    let mut ir = sample();
    let results = pipeline.run(&mut ir);
    assert_eq!(results.len(), 1);
    assert_eq!(results[0].optimizer, "DeadCodeElimination");
}

#[test]
fn each_pass_sees_what_the_passes_before_it_left() {
    let mut product = Node::new(3, NodeType::BinaryExpression);
    product.set_value("operator", NodeValue::String("*".to_string()));
    product.add_child(number(4, 2.0));
    product.add_child(identifier(5, "k"));
    let mut ir = unit(vec![
        parent(1, NodeType::VariableDeclaration, vec![identifier(2, "dead"), Arc::new(product)]),
        parent(6, NodeType::ImportDeclaration, vec![identifier(7, "k")]),
    ]);
    let results = optimize(&mut ir, OptimizationLevel::Aggressive, arithmetic);
    let names: Vec<&str> = results.iter().map(|r| r.optimizer.as_str()).collect();
    assert_eq!(names, vec!["DeadCodeElimination", "ConstantFolding", "TreeShaking"]);
    assert_eq!(results[0].nodes_delta, -5);
    assert_eq!(results[1].nodes_delta, 0);
    assert_eq!(results[2].nodes_delta, -2);
    assert_eq!(ids(&ir), vec![0]);
}

#[test]
fn levels_are_read_from_text() {
    assert_eq!(OptimizationLevel::from_str("none"), OptimizationLevel::Off);
    assert_eq!(OptimizationLevel::from_str("Basic"), OptimizationLevel::Basic);
    assert_eq!(OptimizationLevel::from_str("NORMAL"), OptimizationLevel::Normal);
    assert_eq!(OptimizationLevel::from_str("AGGRESSIVE"), OptimizationLevel::Aggressive);
    assert_eq!(OptimizationLevel::from_str("fastest"), OptimizationLevel::Normal);
    assert_eq!(OptimizationLevel::from_lowercase("AGGRESSIVE"), OptimizationLevel::Normal);
    assert!(OptimizationLevel::Aggressive.at_least(OptimizationLevel::Normal));
    assert!(OptimizationLevel::Off.at_least(OptimizationLevel::Off));
    assert!(!OptimizationLevel::Basic.at_least(OptimizationLevel::Normal));
}

#[test]
fn default_options_preserve_the_browser_globals() {
    let o = OptimizerOptions::default();
    assert_eq!(o.level, OptimizationLevel::Normal);
    assert!(o.minify && o.inline && o.dce && o.const_folding && o.type_inference);
    assert!(!o.use_gpu);
    assert_eq!(o.preserved_globals, vec!["window", "document", "console"]);
    assert_eq!(o.duplicate().preserved_globals, o.preserved_globals);
}

#[test]
fn plain_optimizer_leaves_the_unit_alone() {
    let mut ir = sample();
    let before = ids(&ir);
    assert!(optimize_ir(&mut ir).is_ok());
    let config = OptimizerConfig {
        enable_tree_shaking: false,
        enable_dead_code_elimination: true,
        enable_constant_folding: false,
    };
    assert!(LumenOptimizer::with_config(config).optimize(&mut ir).is_ok());
    assert!(LumenOptimizer::new().optimize(&mut ir).is_ok());
    assert_eq!(ids(&ir), before);
    let defaults = OptimizerConfig::default();
    assert!(defaults.enable_tree_shaking);
    assert!(defaults.enable_dead_code_elimination);
    assert!(defaults.enable_constant_folding);
}

#[test]
fn a_division_by_zero_is_reported_and_left_in_place() {
    let mut quotient = Node::new(1, NodeType::BinaryExpression);
    quotient.set_value("operator", NodeValue::String("/".to_string()));
    quotient.add_child(number(2, 1.0));
    quotient.add_child(number(3, 0.0));
    let mut ir = unit(vec![Arc::new(quotient)]);
    let pass = ConstantFolding::new(OptimizerOptions::default(), arithmetic);
    let result = pass.optimize(&mut ir);
    assert!(result.success);
    assert_eq!(ids(&ir), vec![0, 1, 2, 3]);
    assert_eq!(result.nodes_delta, 0);
    assert_eq!(
        result.details,
        vec![
            ("folded_expressions".to_string(), "0".to_string()),
            ("divisions_by_zero".to_string(), "1".to_string()),
        ]
    );
    assert!(pass.is_division_by_zero(&NodeRef(Arc::clone(&ir.get_root().children[0].0))));
    assert!(!pass.is_division_by_zero(&NodeRef(ir.get_root())));
}

#[test]
fn a_standard_pass_speaks_for_the_pass_it_holds() {
    let options = OptimizerOptions::default();
    let passes: Vec<StandardPass<fn(NumericOp, u64, u64) -> u64>> = vec![
        StandardPass::DeadCodeElimination(DeadCodeElimination::new(options.clone())),
        StandardPass::ConstantFolding(ConstantFolding::new(options.clone(), arithmetic)),
        StandardPass::TreeShaking(TreeShaking::new(options)),
    ];
    let names: Vec<&str> = passes.iter().map(|p| p.name()).collect();
    assert_eq!(names, vec!["DeadCodeElimination", "ConstantFolding", "TreeShaking"]);
    let descriptions: Vec<&str> = passes.iter().map(|p| p.description()).collect();
    assert_eq!(
        descriptions,
        vec!["消除未使用的变量和函数", "在编译时计算常量表达式", "移除未使用的导入和导出"]
    );
    assert!(!passes[1].is_applicable_for_level(OptimizationLevel::Basic));
    assert!(passes[2].is_applicable_for_level(OptimizationLevel::Basic));
}
