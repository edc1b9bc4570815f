use lumen::config::Config;
use lumen::toolchain::{Compiler, CppFrontend, LumenCompiler, WasmCompiler};
use lumen::{compile, Error, Lumen};

#[test]
fn test_compile_str() {
    let source = "var x = 1 + 2;";
    let result = compile(source).unwrap();
    assert!(result.contains("let x = 1 + 2;"));
}

#[test]
fn test_config_options() {
    let compiler = Lumen::new()
        .with_minify(true)
        .with_sourcemap(true)
        .with_target("es2015")
        .with_distributed(false)
        .with_gpu(true);

    assert_eq!(compiler.config.minify, true);
    assert_eq!(compiler.config.sourcemap, true);
    assert_eq!(compiler.config.target, "es2015");
    assert_eq!(compiler.config.distributed, false);
    assert_eq!(compiler.config.gpu, true);
}

#[test]
fn compile_str_writes_heading_and_replaces_every_var() {
    let code = Lumen::new().compile_str("var a = 1; var b = a;", Some("main.js")).unwrap();
    assert_eq!(
        code,
        "// 由Lumen编译 - https://github.com/lumen-compiler\n// 源文件: main.js\nlet a = 1; let b = a;"
    );
    let unnamed = Lumen::new().compile_str("x", None).unwrap();
    assert_eq!(unnamed, "// 由Lumen编译 - https://github.com/lumen-compiler\n// 源文件: input.js\nx");
}

#[test]
fn lumen_cache_can_be_cleared_and_disabled() {
    let mut lumen = Lumen::with_config(Config::new());
    assert!(lumen.cache.is_some());
    lumen.clear_cache();
    assert!(lumen.cache.as_ref().unwrap().is_empty());
    lumen.disable_cache();
    assert!(lumen.cache.is_none());
    lumen.clear_cache();
    assert!(lumen.cache.is_none());
}

#[test]
fn batch_verdict_counts_failures() {
    assert_eq!(Lumen::summarize_batch(&vec![true, true]), Ok(()));
    assert_eq!(Lumen::summarize_batch(&vec![]), Ok(()));
    assert_eq!(
        Lumen::summarize_batch(&vec![true, false, false, true]),
        Err(Error::BatchCompilationFailed(2))
    );
}

#[test]
fn default_output_path_appends_compiled() {
    assert_eq!(Lumen::default_output_path("src/a.js"), "src/a.js.compiled");
    assert_eq!(Lumen::default_output_path("src/a"), "src/a.compiled");
}

#[test]
fn native_front_end_goes_by_suffix() {
    assert_eq!(Compiler::select_cpp_parser("a.js"), CppFrontend::JavaScript);
    assert_eq!(Compiler::select_cpp_parser("a.ts"), CppFrontend::TypeScript);
    assert_eq!(Compiler::select_cpp_parser("a.jsx"), CppFrontend::Jsx);
    assert_eq!(Compiler::select_cpp_parser("a.tsx"), CppFrontend::Tsx);
    assert_eq!(Compiler::select_cpp_parser("ts"), CppFrontend::JavaScript);
}

#[test]
fn native_optimizer_runs_only_when_minifying_natively() {
    assert_eq!(Compiler::new().cpp_optimization_level(), None);
    assert_eq!(Compiler::new().with_minify(true).cpp_optimization_level(), Some(3));
    assert_eq!(Compiler::new().with_minify(true).with_cpp(false).cpp_optimization_level(), None);
}

#[test]
fn hybrid_compiler_writes_the_empty_program() {
    let plain = Compiler::new().with_cpp(false).compile_with_rust("var x = 10;", 7).unwrap();
    assert_eq!(plain.code, "// 生成的代码\n");
    assert_eq!(plain.time_ms, 7);
    assert_eq!(plain.input_size, 11);
    assert_eq!(plain.output_size, plain.code.len());
    assert!(plain.source_map.is_none());
    let mapped = Compiler::new()
        .with_minify(true)
        .with_sourcemap(true)
        .compile_with_rust("", 0)
        .unwrap();
    assert_eq!(mapped.code, "// 生成的代码\n//# sourceMappingURL=output.js.map");
}

#[test]
fn wasm_module_is_decoded_from_base64() {
    assert_eq!(Compiler::decode_wasm("AGFzbQEAAAA=").unwrap(), vec![0, 97, 115, 109, 1, 0, 0, 0]);
    assert_eq!(Compiler::decode_wasm("").unwrap(), Vec::<u8>::new());
    assert_eq!(
        Compiler::decode_wasm("AGFz!QEAAAA="),
        Err(Error::InternalError("Base64解码错误: Invalid byte 33, offset 4.".to_string()))
    );
    assert_eq!(
        Compiler::decode_wasm("AGFzb"),
        Err(Error::InternalError(
            "Base64解码错误: Encoded text cannot have a 6-bit remainder.".to_string()
        ))
    );
    assert_eq!(
        Compiler::decode_wasm("AGFzbQ"),
        Err(Error::InternalError("Base64解码错误: Invalid padding".to_string()))
    );
    assert_eq!(
        Compiler::decode_wasm("AGFzbR=="),
        Err(Error::InternalError("Base64解码错误: Invalid last symbol 82, offset 5.".to_string()))
    );
}

#[test]
fn wasm_compiler_writes_its_options_as_json() {
    let json = WasmCompiler::new().with_simd(true).wasm_options_json("binary", "a.ts");
    assert_eq!(json, "{\"format\":\"binary\",\"simd\":true,\"threads\":false,\"typescript\":true}");
    let other = WasmCompiler::new()
        .with_threads(true)
        .with_target("es5")
        .with_typescript(true)
        .wasm_options_json("text", "a.js");
    assert_eq!(other, "{\"format\":\"text\",\"simd\":false,\"threads\":true,\"typescript\":false}");
}

#[test]
fn lumen_compiler_switches_its_parts() {
    let c = LumenCompiler::new();
    assert!(c.gpu_optimizer.is_none());
    assert!(c.distributed_compiler.is_none());
    let c = c.with_gpu(true).with_distributed(true).with_minify(true).with_target("es5");
    assert!(c.gpu_optimizer.is_some());
    assert!(c.distributed_compiler.is_some());
    assert!(c.compiler.options.gpu);
    assert!(c.compiler.options.distributed);
    assert!(c.compiler.options.minify);
    assert_eq!(c.compiler.options.target, "es5");
    let c = c.with_gpu(false).with_distributed(false).with_cpp(false).with_sourcemap(true);
    assert!(c.gpu_optimizer.is_none());
    assert!(c.distributed_compiler.is_none());
    assert!(!c.compiler.use_cpp);
    assert!(c.compiler.options.sourcemap);
}

#[test]
fn gpu_minifier_is_applied_to_a_result() {
    let result = Compiler::assemble_result("a b", "var x = 1;\nvar y;".to_string(), 3);
    assert_eq!(result.output_size, 17);
    let untouched = LumenCompiler::new().apply_gpu(result.clone());
    assert_eq!(untouched.code, "var x = 1;\nvar y;");
    let squeezed = LumenCompiler::new().with_gpu(true).apply_gpu(result);
    assert_eq!(squeezed.code, "varx=1;vary;");
    assert_eq!(squeezed.output_size, 12);
    assert_eq!(squeezed.input_size, 3);
    assert_eq!(squeezed.time_ms, 3);
}

#[test]
fn a_batch_keeps_the_results_of_the_files_that_compiled() {
    let ok = |code: &str| Ok(Compiler::assemble_result("src", code.to_string(), 1));
    let outcomes = vec![
        ok("a"),
        Err(Error::ParseError("bad".to_string())),
        ok("b"),
        Err(Error::IoError("gone".to_string())),
    ];
    let (results, failed) = Compiler::collect_results(outcomes);
    let codes: Vec<&str> = results.iter().map(|r| r.code.as_str()).collect();
    assert_eq!(codes, vec!["a", "b"]);
    assert_eq!(failed, 2);
    let (none, zero) = Compiler::collect_results(Vec::new());
    assert!(none.is_empty());
    assert_eq!(zero, 0);
}

#[test]
fn builders_leave_the_rest_of_the_configuration() {
    let mut config = Config::new();
    config.cache_enabled = false;
    config.cache_size_limit = 77;
    config.add_plugin("p");
    config.add_transformer("t");
    config.add_option("k", "v");
    let l = Lumen::with_config(config)
        .with_minify(true)
        .with_sourcemap(true)
        .with_target("es5")
        .with_distributed(true)
        .with_gpu(true);
    assert!(l.cache.is_some());
    assert!(!l.config.cache_enabled);
    assert_eq!(l.config.cache_size_limit, 77);
    assert_eq!(l.config.plugins, vec!["p".to_string()]);
    assert_eq!(l.config.transformers, vec!["t".to_string()]);
    assert_eq!(l.config.get_option("k"), Some(&"v".to_string()));
    assert!(l.config.minify && l.config.sourcemap && l.config.distributed && l.config.gpu);
    assert_eq!(l.config.target, "es5");

    let mut c = Compiler::new();
    c.options.cache_size_limit = 5;
    c.options.add_plugin("q");
    let c = c.with_target("es2015").with_minify(true).with_cpp(false).with_gpu(true);
    assert_eq!(c.options.cache_size_limit, 5);
    assert_eq!(c.options.plugins, vec!["q".to_string()]);
    assert_eq!(c.options.target, "es2015");
    assert!(c.options.minify && c.options.gpu && !c.use_cpp);
    assert!(!c.options.sourcemap && !c.options.distributed);

    let mut full = LumenCompiler::new();
    full.compiler.options.add_plugin("r");
    let full = full.with_gpu(true).with_minify(true).with_target("es5").with_cpp(false);
    assert_eq!(full.compiler.options.plugins, vec!["r".to_string()]);
    assert!(full.gpu_optimizer.is_some());
    assert!(full.distributed_compiler.is_none());
    assert!(full.compiler.options.gpu && full.compiler.options.minify);
    assert!(!full.compiler.use_cpp);
}
