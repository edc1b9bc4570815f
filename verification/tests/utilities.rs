use lumen::collections::StringMap;
use lumen::config::{CompileOptions, Config};
use lumen::error::{CompileErrorInfo, Error};
use lumen::gpu::{GpuOptimizer, GpuOptions, GpuWasmCompiler};
use lumen::ir::error::CoreError;
use lumen::text::{decimal_string, decimal_text, hex_string, repeat_char};
use lumen::utils::{
    filter_by_pattern, get_dependency_graph, hash_chunks, select_flagged, get_file_extension, hash_text, is_javascript_extension,
    is_javascript_file, is_supported_file, is_target_extension, is_typescript_extension,
    is_typescript_file, normalize_extension, summarize, DependencyGraph, Timer,
};
use std::collections::hash_map::DefaultHasher;
use std::hash::{Hash, Hasher};

#[test]
fn numbers_are_written_in_decimal_and_hexadecimal() {
    assert_eq!(decimal_string(0), "0");
    assert_eq!(decimal_string(9), "9");
    assert_eq!(decimal_string(10), "10");
    assert_eq!(decimal_string(1234567890), "1234567890");
    assert_eq!(decimal_text(u64::MAX), "18446744073709551615");
    assert_eq!(hex_string(0), "0");
    assert_eq!(hex_string(15), "f");
    assert_eq!(hex_string(16), "10");
    assert_eq!(hex_string(0xdeadbeef), "deadbeef");
    assert_eq!(hex_string(u64::MAX), "ffffffffffffffff");
    assert_eq!(repeat_char("^", 3), "^^^");
    assert_eq!(repeat_char(" ", 0), "");
}

#[test]
fn text_hash_is_the_hash_of_the_standard_library() {
    for text in ["", "a", "var x = 1;", "日本語"] {
        let mut hasher = DefaultHasher::new();
        text.hash(&mut hasher);
        assert_eq!(hash_text(text), format!("{:x}", hasher.finish()));
    }
    assert_ne!(hash_text("a"), hash_text("b"));
}

#[test]
fn extensions_are_compared_in_lower_case() {
    assert_eq!(get_file_extension("src/App.JSX"), Some("jsx".to_string()));
    assert_eq!(get_file_extension("src/app.d.ts"), Some("ts".to_string()));
    assert_eq!(get_file_extension("Makefile"), None);
    assert_eq!(normalize_extension(Some("TSX".to_string())), Some("tsx".to_string()));
    assert_eq!(normalize_extension(None), None);
    assert!(is_javascript_file("a.js"));
    assert!(is_javascript_file("a.MJS"));
    assert!(is_javascript_file("dir.ts/a.jsx"));
    assert!(!is_javascript_file("a.ts"));
    assert!(is_typescript_file("a.ts"));
    assert!(is_typescript_file("a.Tsx"));
    assert!(!is_typescript_file("a.js"));
    assert!(is_supported_file("a.tsx"));
    assert!(is_supported_file("a.mjs"));
    assert!(!is_supported_file("a.rs"));
    assert!(!is_supported_file("js"));
    assert!(is_javascript_extension(Some("mjs")));
    assert!(!is_javascript_extension(Some("JS")));
    assert!(!is_javascript_extension(None));
    assert!(is_typescript_extension(Some("tsx")));
    assert!(!is_typescript_extension(Some("jsx")));
    assert!(is_target_extension(Some("jsx")));
    assert!(is_target_extension(Some("ts")));
    assert!(!is_target_extension(Some("mjs")));
    assert!(!is_target_extension(None));
}

#[test]
fn dependency_graph_keeps_each_file_once() {
    let mut g = DependencyGraph::new();
    g.add_node("a.js".to_string());
    g.add_node("b.js".to_string());
    g.add_node("a.js".to_string());
    g.add_edge("a.js".to_string(), "b.js".to_string());
    assert_eq!(g.get_nodes(), &vec!["a.js".to_string(), "b.js".to_string()]);
    assert_eq!(g.get_edges(), &vec![("a.js".to_string(), "b.js".to_string())]);
    assert!(g.has_node("b.js"));
    assert!(!g.has_node("c.js"));
    let entries = vec!["x.js".to_string(), "y.ts".to_string(), "x.js".to_string()];
    let graph = get_dependency_graph(&entries, &Vec::new()).unwrap();
    assert_eq!(graph.get_nodes(), &vec!["x.js".to_string(), "y.ts".to_string()]);
    assert!(graph.get_edges().is_empty());
}

#[test]
fn summary_lists_each_checkpoint_with_its_increment() {
    assert_eq!(summarize(&Vec::new(), 5), vec!["性能计时器汇总:", "  没有记录任何检查点"]);
    let checkpoints =
        vec![("parse".to_string(), 12), ("emit".to_string(), 40), ("odd".to_string(), 30)];
    assert_eq!(
        summarize(&checkpoints, 45),
        vec![
            "性能计时器汇总:",
            "  parse: 12ms (增量: 12ms)",
            "  emit: 40ms (增量: 28ms)",
            "  odd: 30ms (增量: 0ms)",
            "  总耗时: 45ms",
        ]
    );
}

#[test]
fn timer_takes_checkpoints() {
    let mut timer = Timer::new();
    assert_eq!(timer.print_summary().len(), 2);
    timer.checkpoint("first");
    timer.checkpoint("second");
    let lines = timer.print_summary();
    assert_eq!(lines.len(), 4);
    assert!(lines[1].starts_with("  first: "));
    assert!(lines[2].starts_with("  second: "));
    assert!(lines[3].starts_with("  总耗时: "));
    assert!(timer.total_elapsed() < 60_000);
}

#[test]
fn string_map_keeps_the_last_value_of_a_key() {
    let mut m: StringMap<u32> = StringMap::new();
    assert!(m.is_empty());
    m.insert("a".to_string(), 1);
    m.insert("b".to_string(), 2);
    m.insert("a".to_string(), 3);
    assert_eq!(m.get("a"), Some(&3));
    assert_eq!(m.get("b"), Some(&2));
    assert_eq!(m.get("c"), None);
    assert!(m.contains_key("b"));
    assert!(!m.contains_key("B"));
    assert!(!m.is_empty());
    m.clear();
    assert!(m.is_empty());
    assert_eq!(m.get("a"), None);
}

#[test]
fn config_holds_options_plugins_and_transformers() {
    let mut c = Config::new();
    assert!(!c.minify && !c.sourcemap && !c.distributed && !c.gpu);
    assert_eq!(c.target, "es2020");
    assert!(c.cache_enabled);
    assert_eq!(c.cache_size_limit, 100 * 1024 * 1024);
    assert!(c.transformers.is_empty() && c.plugins.is_empty());
    assert_eq!(c.get_option("mode"), None);
    c.add_option("mode", "fast");
    c.add_option("mode", "safe");
    c.add_option("jobs", "4");
    assert_eq!(c.get_option("mode"), Some(&"safe".to_string()));
    assert_eq!(c.get_option("jobs"), Some(&"4".to_string()));
    c.add_plugin("p1");
    c.add_plugin("p2");
    c.add_transformer("t1");
    assert_eq!(c.plugins, vec!["p1", "p2"]);
    assert_eq!(c.transformers, vec!["t1"]);
    let d = Config::default();
    assert_eq!(d.target, "es2020");
    let o = CompileOptions::default();
    assert_eq!(o.input, "");
    assert_eq!(o.output, None);
    assert!(!o.minify && !o.sourcemap);
    assert_eq!(o.target, "es2020");
}

#[test]
fn errors_have_their_texts() {
    assert_eq!(Error::IoError("gone".into()).message(), "IO错误: gone");
    assert_eq!(Error::ParseError("p".into()).message(), "解析错误: p");
    assert_eq!(Error::TypeError("t".into()).message(), "类型错误: t");
    assert_eq!(Error::CompileError("c".into()).message(), "编译错误: c");
    assert_eq!(Error::UnknownFileType("u".into()).message(), "未知文件类型: u");
    assert_eq!(Error::UnsupportedSyntax("s".into()).message(), "不支持的语法: s");
    assert_eq!(Error::ConfigError("c".into()).message(), "配置错误: c");
    assert_eq!(Error::PluginError("p".into()).message(), "插件错误: p");
    assert_eq!(Error::BatchCompilationFailed(12).message(), "批量编译失败: 12 个文件出错");
    assert_eq!(Error::DistributedError("d".into()).message(), "分布式执行错误: d");
    assert_eq!(Error::GpuError("g".into()).message(), "GPU加速错误: g");
    assert_eq!(Error::InternalError("i".into()).message(), "内部错误: i");
    assert_eq!(CoreError::General("x".into()).message(), "一般错误: x");
}

#[test]
fn compile_error_info_is_built_step_by_step() {
    let bare = CompileErrorInfo::new("unexpected token");
    assert_eq!(bare.message, "unexpected token");
    assert!(bare.file.is_none() && bare.line.is_none() && bare.column.is_none());
    assert_eq!(bare.to_text(), "错误:\nunexpected token\n");
    assert_eq!(bare.clone().into_error(), Error::CompileError("unexpected token".to_string()));
    let in_file = bare.clone().with_file("a.js");
    assert_eq!(in_file.to_text(), "错误: a.js\nunexpected token\n");
    assert_eq!(in_file.clone().into_error(), Error::CompileError("unexpected token".to_string()));
    let full = in_file
        .with_position(3, 14)
        .with_code("E042")
        .with_snippet("let x = ;")
        .with_highlight(8, 9);
    assert_eq!(full.line, Some(3));
    assert_eq!(full.column, Some(14));
    assert_eq!(
        full.to_text(),
        "错误: a.js:3:14\n[E042] unexpected token\n\nlet x = ;\n        ^\n"
    );
    assert_eq!(
        full.into_error(),
        Error::CompileError("a.js:3:14 - unexpected token".to_string())
    );
    let plain = CompileErrorInfo::new("m").with_snippet("code");
    assert_eq!(plain.to_text(), "错误:\nm\n\ncode\n");
    let unordered = CompileErrorInfo::new("m").with_highlight(5, 2);
    assert_eq!(unordered.to_text(), "错误:\nm\n");
    let empty_mark = CompileErrorInfo::new("m").with_snippet("code").with_highlight(2, 2);
    assert_eq!(empty_mark.to_text(), "错误:\nm\n\ncode\n  \n");
}

#[test]
fn gpu_optimizer_strips_blanks_and_line_feeds() {
    let gpu = GpuOptimizer::new();
    assert!(gpu.is_available);
    assert!(GpuOptimizer::check_gpu_available());
    assert_eq!(gpu.options.batch_size, 1024);
    assert_eq!(gpu.options.workgroup_size, 64);
    assert_eq!(gpu.options.max_memory_mb, 512);
    assert!(gpu.options.enable_simd && gpu.options.use_shared_memory);
    assert_eq!(gpu.minify("let x = 1;\n let  y;\t"), Ok("letx=1;lety;\t".to_string()));
    assert_eq!(gpu.optimize("{ }"), Ok("{ }".to_string()));
    assert_eq!(gpu.type_check("let x: number = 1;"), Ok(Vec::new()));
    let mut off = GpuOptimizer::with_options(GpuOptions::default());
    off.is_available = false;
    assert_eq!(off.minify("a b"), Ok("a b".to_string()));
    let wasm = GpuWasmCompiler::new();
    assert!(GpuWasmCompiler::check_gpu_available());
    assert_eq!(wasm.compile_to_wasm("{}"), Ok(vec![0x00, 0x61, 0x73, 0x6D, 0x01, 0x00, 0x00, 0x00]));
    let mut none = GpuWasmCompiler::new();
    none.is_available = false;
    assert_eq!(
        none.compile_to_wasm("{}"),
        Err("GPU不可用，请使用CPU版本的WASM编译器".to_string())
    );
}

#[test]
fn files_are_put_in_compile_order() {
    let mut g = DependencyGraph::new();
    for n in ["d", "c", "b", "a"] {
        g.add_node(n.to_string());
    }
    assert_eq!(g.topological_sort(), Ok(vec!["d".to_string(), "c".into(), "b".into(), "a".into()]));
    g.add_edge("a".to_string(), "c".to_string());
    g.add_edge("b".to_string(), "d".to_string());
    g.add_edge("a".to_string(), "b".to_string());
    g.add_edge("outside".to_string(), "a".to_string());
    assert!(g.has_edge("a", "c"));
    assert!(!g.has_edge("c", "a"));
    assert_eq!(g.topological_sort(), Ok(vec!["a".to_string(), "c".into(), "b".into(), "d".into()]));
    g.add_edge("d".to_string(), "a".to_string());
    assert_eq!(
        g.topological_sort(),
        Err(Error::ConfigError("依赖图中存在循环依赖".to_string()))
    );
    assert_eq!(DependencyGraph::new().topological_sort(), Ok(Vec::new()));
    assert_eq!(
        lumen::ordering::topological_order(
            &vec!["a".to_string(), "b".into(), "c".into()],
            &vec![("b".to_string(), "a".to_string()), ("a".to_string(), "b".to_string())]
        ),
        vec!["c".to_string()]
    );
}

#[test]
fn items_are_ordered_by_rank_and_stay_in_order_within_a_rank() {
    let items: Vec<String> = ["a", "b", "c", "d", "e"].iter().map(|s| s.to_string()).collect();
    assert_eq!(
        lumen::ranking::sort_by_rank(&items, &vec![3, 1, 3, 0, 1]),
        vec!["d".to_string(), "b".into(), "e".into(), "a".into(), "c".into()]
    );
    assert_eq!(lumen::ranking::sort_by_rank(&Vec::new(), &Vec::new()), Vec::<String>::new());
    assert_eq!(lumen::text::index_of(&items, "c"), Some(2));
    assert_eq!(lumen::text::index_of(&items, "z"), None);
    assert!(lumen::text::contains_name(&items, "e"));
    assert!(!lumen::text::contains_name(&items, "E"));
}

#[test]
fn paths_are_selected_by_a_glob_pattern() {
    let paths: Vec<String> =
        ["src/a.js", "src/b.ts", "src/deep/c.js", "README.md"].iter().map(|s| s.to_string()).collect();
    assert_eq!(filter_by_pattern(&paths, "src/*.js"), vec!["src/a.js", "src/deep/c.js"]);
    assert_eq!(filter_by_pattern(&paths, "**/*.ts"), vec!["src/b.ts"]);
    assert_eq!(filter_by_pattern(&paths, "*.md"), vec!["README.md"]);
    assert_eq!(filter_by_pattern(&paths, "a[b"), Vec::<String>::new());
    assert_eq!(
        select_flagged(&paths, &vec![true, false, false, true]),
        vec!["src/a.js", "README.md"]
    );
}

#[test]
fn chunks_are_hashed_as_the_standard_library_hashes_slices() {
    let chunks = vec![vec![1u8, 2, 3], vec![], vec![255u8; 40]];
    let mut hasher = DefaultHasher::new();
    for chunk in &chunks {
        chunk[..].hash(&mut hasher);
    }
    assert_eq!(hash_chunks(&chunks), format!("{:x}", hasher.finish()));
    assert_eq!(hash_chunks(&Vec::new()), format!("{:x}", DefaultHasher::new().finish()));
}

#[test]
fn string_map_lists_its_keys_once() {
    let mut m: StringMap<u8> = StringMap::new();
    assert!(m.keys().is_empty());
    m.insert("b".to_string(), 1);
    m.insert("a".to_string(), 2);
    m.insert("b".to_string(), 3);
    assert_eq!(m.keys(), vec!["b", "a"]);
}
