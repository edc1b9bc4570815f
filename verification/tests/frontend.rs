use lumen::compiler::{compile_js, CodeGenerator, CompileOptions, Compiler, CompilerContext};
use lumen::ir::{CodegenOptions, Node, NodeRef, NodeType, NodeValue, IR};
use lumen::parser::{
    create_js_parser, create_jsx_parser, create_ts_parser, create_tsx_parser, parse_js, parse_jsx,
    parse_string, parse_ts, parse_tsx, JsParser, Lexer, ParseOptions, Parser, Token, TokenType, DFA,
};
use lumen::wasm::{
    compile_to_wasm, format_to_string, js_to_wasm, WasmCompiler, WasmConfig, WasmOptions,
    WasmOutputFormat, WasmTransformOptions, WasmTransformer,
};
use std::sync::Arc;
use std::time::Instant;

fn number_text(bits: u64) -> String {
    f64::from_bits(bits).to_string()
}

#[test]
fn test_simple_js_parsing() {
    let js_code = "var x = 42; function test() { return x * 2; }";
    let parser = JsParser::new(ParseOptions::default());
    let start = Instant::now();
    let result = parser.parse_string(js_code);
    let elapsed = start.elapsed();
    assert!(result.is_ok(), "解析应该成功");
    println!("简单JS解析耗时: {:?}", elapsed);
}

#[test]
fn every_front_end_gives_the_empty_program() {
    for ir in [
        parse_js("var x;").unwrap(),
        parse_ts("let x: number;").unwrap(),
        parse_jsx("<a/>").unwrap(),
        parse_tsx("<a/>").unwrap(),
        parse_string("").unwrap(),
        Parser::new("x").parse().unwrap(),
    ] {
        assert_eq!(ir.node_count(), 1);
        assert_eq!(ir.next_id(), 1);
        assert_eq!(ir.get_root().node_type, NodeType::Program);
    }
    assert!(!create_js_parser().options.typescript && !create_js_parser().options.jsx);
    assert!(create_ts_parser().options.typescript && !create_ts_parser().options.jsx);
    assert!(!create_jsx_parser().options.typescript && create_jsx_parser().options.jsx);
    assert!(create_tsx_parser().options.typescript && create_tsx_parser().options.jsx);
    let o = ParseOptions::default();
    assert!(o.comments && !o.source_map && o.filename.is_none());
}

#[test]
fn lexer_gives_the_units_of_a_declaration() {
    let mut lexer = Lexer::new("anything", ParseOptions::default());
    assert_eq!(lexer.source, "anything");
    assert_eq!((lexer.start, lexer.current, lexer.line, lexer.column), (0, 0, 1, 0));
    let tokens = lexer.scan_tokens();
    let seen: Vec<(TokenType, &str, usize, usize)> =
        tokens.iter().map(|t| (t.token_type, t.lexeme.as_str(), t.line, t.column)).collect();
    assert_eq!(
        seen,
        vec![
            (TokenType::Var, "var", 1, 1),
            (TokenType::Identifier, "x", 1, 5),
            (TokenType::Assign, "=", 1, 7),
            (TokenType::Number, "42", 1, 9),
            (TokenType::Semicolon, ";", 1, 11),
            (TokenType::EOF, "", 1, 12),
        ]
    );
    assert!(lexer.tokens.is_empty());
    let t = Token::new(TokenType::Arrow, "=>", 2, 3);
    assert_eq!((t.token_type, t.lexeme.as_str(), t.line, t.column), (TokenType::Arrow, "=>", 2, 3));
}

#[test]
fn automaton_follows_its_table() {
    let mut dfa = DFA::new(3, vec![2]);
    dfa.add_transition(0, 'a', 1);
    dfa.add_transition(1, 'b', 2);
    dfa.add_transition(2, 'b', 2);
    dfa.add_transition(7, 'a', 1);
    dfa.add_transition(1, 'é', 2);
    assert!(!dfa.is_in_accept_state());
    assert!(!dfa.transition('a'));
    assert!(dfa.transition('b'));
    assert!(dfa.is_in_accept_state());
    assert!(dfa.transition('b'));
    assert!(!dfa.transition('é'));
    assert!(dfa.is_in_accept_state());
    assert!(!dfa.transition('x'));
    assert!(!dfa.is_in_accept_state());
    assert!(!dfa.transition('a'));
    assert!(!dfa.transition('c'));
    dfa.reset();
    assert!(!dfa.transition('b'));
    let mut start_accepts = DFA::new(1, vec![0]);
    assert!(start_accepts.is_in_accept_state());
    assert!(start_accepts.transition('z'));
}

#[test]
fn automaton_stores_a_target_that_has_no_row() {
    let mut dfa = DFA::new(2, vec![5]);
    dfa.add_transition(0, 'a', 5);
    assert!(dfa.transition('a'));
    assert!(dfa.is_in_accept_state());
    dfa.reset();
    assert!(!dfa.is_in_accept_state());
    assert!(!dfa.transition('b'));
}

#[test]
fn automaton_without_states_ignores_transitions() {
    let mut dfa = DFA::new(0, vec![0]);
    dfa.add_transition(0, 'a', 1);
    assert!(dfa.is_in_accept_state());
    assert!(!dfa.transition('é'));
    assert!(dfa.is_in_accept_state());
}

fn declaration(id: usize, kind: Option<&str>, name: &str, value: Arc<Node>) -> Arc<Node> {
    let mut decl = Node::new(id, NodeType::VariableDeclaration);
    if let Some(k) = kind {
        decl.set_value("kind", NodeValue::String(k.to_string()));
    }
    let mut ident = Node::new(id + 1, NodeType::Identifier);
    ident.set_value("name", NodeValue::String(name.to_string()));
    decl.add_child(Arc::new(ident));
    decl.add_child(value);
    Arc::new(decl)
}

fn literal(id: usize, node_type: NodeType, value: NodeValue) -> Arc<Node> {
    let mut n = Node::new(id, node_type);
    n.set_value("value", value);
    Arc::new(n)
}

fn program() -> IR {
    let mut root = Node::new(0, NodeType::Program);
    root.add_child(declaration(
        1,
        Some("const"),
        "n",
        literal(3, NodeType::NumericLiteral, NodeValue::Number(1.5f64.to_bits())),
    ));
    root.add_child(declaration(
        4,
        None,
        "s",
        literal(6, NodeType::StringLiteral, NodeValue::String("hi there".to_string())),
    ));
    root.add_child(declaration(
        7,
        Some("let"),
        "b",
        literal(9, NodeType::BooleanLiteral, NodeValue::Boolean(true)),
    ));
    let mut short = Node::new(10, NodeType::VariableDeclaration);
    short.add_child(Arc::new(Node::new(11, NodeType::Identifier)));
    root.add_child(Arc::new(short));
    let mut ir = IR::new();
    ir.replace_root(NodeRef::new(root));
    ir
}

fn generator(minify: bool, target: &str) -> CodeGenerator {
    let mut options = CodegenOptions::default();
    options.minify = minify;
    options.target = target.to_string();
    CodeGenerator::new(options)
}

#[test]
fn code_is_written_for_the_declarations_of_variables() {
    let ir = program();
    assert_eq!(
        generator(false, "es2020").generate(&ir, &number_text),
        "const n = 1.5;var s = \"hi there\";let b = ;var "
    );
    assert_eq!(
        generator(false, "es5").generate(&ir, &number_text),
        "var n = 1.5;var s = \"hi there\";var b = ;var "
    );
    assert_eq!(
        generator(false, "es2015").generate(&ir, &number_text),
        "\"use strict\";\nconst n = 1.5;var s = \"hi there\";let b = ;var "
    );
    assert_eq!(
        generator(true, "es2015").generate(&ir, &number_text),
        "\"usestrict\";constn=1.5;vars=\"hithere\";letb=;var"
    );
    assert_eq!(generator(false, "es2020").generate(&IR::new(), &number_text), "");
}

#[test]
fn target_transform_and_minify_work_on_text() {
    let g = generator(false, "es5");
    assert_eq!(g.apply_target_transform("const a; let b; constant; outlet "), "var a; var b; constant; outvar ");
    assert_eq!(generator(false, "es2015").apply_target_transform("x"), "\"use strict\";\nx");
    assert_eq!(generator(false, "esnext").apply_target_transform("let x"), "let x");
    assert_eq!(g.minify(" a\tb \n c "), "abc");
}

#[test]
fn compiler_compiles_a_source_to_the_code_of_the_empty_program() {
    let result = Compiler::new().compile_string("var x = 10;", &number_text).unwrap();
    assert_eq!(result.code, "");
    assert_eq!(result.input_size, 11);
    assert_eq!(result.output_size, 0);
    assert!(result.source_map.is_none());
    let strict = Compiler::new()
        .with_target("es2015")
        .with_minify(true)
        .with_sourcemap(true)
        .with_jsx(true)
        .with_typescript(true)
        .with_distributed(true)
        .with_gpu(true)
        .with_cache(false);
    assert!(strict.options.codegen_options.sourcemap);
    assert!(strict.options.parse_options.jsx && strict.options.parse_options.typescript);
    assert!(strict.options.distributed && strict.options.use_gpu && !strict.options.cache_enabled);
    let result = strict.compile_string("日本", &number_text).unwrap();
    assert_eq!(result.code, "\"usestrict\";");
    assert_eq!(result.input_size, 6);
    assert_eq!(result.output_size, 12);
    assert_eq!(compile_js("let y;", &number_text), Ok(String::new()));
    let with = Compiler::with_options(CompileOptions::default());
    assert!(with.options.cache_enabled);
}

#[test]
fn context_caches_outputs_when_the_cache_is_on() {
    let mut on = CompilerContext::new(true);
    assert_eq!(on.get_cache("k"), None);
    on.set_cache("k", "v1");
    on.set_cache("k", "v2");
    on.set_cache("j", "w");
    assert_eq!(on.get_cache("k"), Some("v2".to_string()));
    assert_eq!(on.get_cache("j"), Some("w".to_string()));
    on.record_perf("parse", 12);
    on.record_perf("parse", 15);
    assert_eq!(on.perf_stats.get("parse"), Some(&15));
    let mut off = CompilerContext::new(false);
    off.set_cache("k", "v");
    assert_eq!(off.get_cache("k"), None);
    assert!(off.cache.is_none());
}

#[test]
fn wasm_outputs_go_by_the_format() {
    let header = vec![0u8, 97, 115, 109, 1, 0, 0, 0];
    let t = WasmTransformer::new(WasmTransformOptions::default());
    let ir = IR::new();
    let binary = t.transform_to_wasm(&ir, WasmOutputFormat::Binary).unwrap();
    assert_eq!(binary.output, header);
    assert_eq!(binary.format, WasmOutputFormat::Binary);
    assert_eq!(
        binary.typescript_types,
        Some("export function init(): Promise<void>;".to_string())
    );
    assert_eq!(binary.metadata.version, "0.1.0");
    assert_eq!(binary.metadata.format, "binary");
    assert!(!binary.metadata.simd && !binary.metadata.threads);
    assert!(binary.errors.is_empty() && binary.warnings.is_empty());
    let text = t.transform_to_wasm(&ir, WasmOutputFormat::Text).unwrap();
    assert_eq!(text.output, b"(module)".to_vec());
    let js = t.transform_js("var x;", WasmOutputFormat::JavaScript).unwrap();
    assert_eq!(js.output, b"export function init() { /* ... */ }".to_vec());
    assert_eq!(js.metadata.format, "javascript");
    let bundle = t.transform_to_wasm(&ir, WasmOutputFormat::Bundle).unwrap();
    let mut expected = b"export function init(wasmBytes) { /* ... */ }\n// WASM_BINARY:".to_vec();
    expected.extend_from_slice(&header);
    assert_eq!(bundle.output, expected);
    let mut options = WasmTransformOptions::default();
    options.generate_types = false;
    options.wasm_options.enable_simd = true;
    options.wasm_options.enable_threads = true;
    let plain = WasmTransformer::new(options).transform_to_wasm(&ir, WasmOutputFormat::Text).unwrap();
    assert_eq!(plain.typescript_types, None);
    assert!(plain.metadata.simd && plain.metadata.threads);
    assert_eq!(format_to_string(WasmOutputFormat::Bundle), "bundle");
    assert_eq!(format_to_string(WasmOutputFormat::Text), "text");
    assert_eq!(WasmCompiler::new().compile_to_wasm(&ir).unwrap(), header);
    assert_eq!(WasmCompiler::new().compile_from_source("x").unwrap(), header);
    assert_eq!(compile_to_wasm(&ir).unwrap(), header);
    assert_eq!(js_to_wasm("x").unwrap(), header);
    let config = WasmConfig::default();
    assert_eq!(config.optimize_level, 1);
    assert!(!config.enable_simd && !config.enable_threads);
    assert_eq!(WasmCompiler::with_config(config).config.optimize_level, 1);
    let w = WasmOptions::default();
    assert!(w.memory_efficient && w.optimize_size);
    assert_eq!(w.max_memory_mb, 1024);
    assert!(w.target_features.is_empty());
}

#[test]
fn options_for_a_file_go_by_its_extension() {
    let base = ParseOptions::default();
    let tsx = base.for_file("a.tsx", Some("tsx"));
    assert!(tsx.jsx && tsx.typescript);
    assert_eq!(tsx.filename, Some("a.tsx".to_string()));
    let jsx = base.for_file("a.jsx", Some("jsx"));
    assert!(jsx.jsx && !jsx.typescript);
    let ts = base.for_file("a.ts", Some("ts"));
    assert!(!ts.jsx && ts.typescript);
    let js = base.for_file("a.js", Some("js"));
    assert!(!js.jsx && !js.typescript && js.comments);
    let none = tsx.for_file("Makefile", None);
    assert!(none.jsx && none.typescript);
    assert_eq!(none.filename, Some("Makefile".to_string()));
}

#[test]
fn constructs_of_a_unit_are_counted() {
    let mut root = Node::new(0, NodeType::Program);
    let kinds = [
        NodeType::FunctionDeclaration,
        NodeType::VariableDeclaration,
        NodeType::VariableDeclaration,
        NodeType::ClassDeclaration,
        NodeType::IfStatement,
        NodeType::ForStatement,
        NodeType::WhileStatement,
        NodeType::WhileStatement,
        NodeType::ReturnStatement,
    ];
    for (i, kind) in kinds.iter().enumerate() {
        let mut node = Node::new(i + 1, *kind);
        node.add_child(Arc::new(Node::new(100 + i, NodeType::IfStatement)));
        root.add_child(Arc::new(node));
    }
    let mut ir = IR::new();
    ir.replace_root(NodeRef::new(root));
    let stats = lumen::stats::analyze_ir(&ir);
    assert_eq!(
        stats,
        lumen::stats::CodeStats { functions: 1, variables: 2, classes: 1, conditionals: 10, loops: 3 }
    );
    assert_eq!(lumen::stats::analyze_ir(&IR::new()), lumen::stats::CodeStats::new());
}
