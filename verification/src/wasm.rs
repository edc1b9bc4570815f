use crate::compiler::driver::CompileOptions;
use crate::error::Error;
use crate::gpu::{empty_wasm_module, wasm_header};
use crate::ir::store::IR;
use crate::parser::JsParser;
use vstd::prelude::*;
use vstd::slice::slice_to_vec;

verus! {

/// How WebAssembly is generated.
#[derive(Debug, Clone)]
pub struct WasmOptions {
    pub memory_efficient: bool,
    pub optimize_size: bool,
    pub enable_simd: bool,
    pub enable_threads: bool,
    /// The most memory to use, in MiB.
    pub max_memory_mb: usize,
    pub target_features: Vec<String>,
}

impl WasmOptions {
    pub open spec fn is_default(&self) -> bool {
        &&& self.memory_efficient
        &&& self.optimize_size
        &&& !self.enable_simd
        &&& !self.enable_threads
        &&& self.max_memory_mb == 1024
        &&& self.target_features@.len() == 0
    }

    pub fn default_options() -> (o: WasmOptions)
        ensures
            o.is_default(),
    {
        WasmOptions {
            memory_efficient: true,
            optimize_size: true,
            enable_simd: false,
            enable_threads: false,
            max_memory_mb: 1024,
            target_features: Vec::new(),
        }
    }
}

impl Default for WasmOptions {
    fn default() -> (o: WasmOptions)
        ensures
            o.is_default(),
    {
        WasmOptions::default_options()
    }
}

/// What a transformation to WebAssembly is set up with.
#[derive(Debug, Clone)]
pub struct WasmTransformOptions {
    pub compile_options: CompileOptions,
    pub wasm_options: WasmOptions,
    /// Whether to write TypeScript declarations beside the output.
    pub generate_types: bool,
    pub es_module: bool,
}

impl WasmTransformOptions {
    pub open spec fn is_default(&self) -> bool {
        &&& self.compile_options.is_default()
        &&& self.wasm_options.is_default()
        &&& self.generate_types
        &&& self.es_module
    }

    pub fn default_options() -> (o: WasmTransformOptions)
        ensures
            o.is_default(),
    {
        WasmTransformOptions {
            compile_options: CompileOptions::default_options(),
            wasm_options: WasmOptions::default_options(),
            generate_types: true,
            es_module: true,
        }
    }
}

impl Default for WasmTransformOptions {
    fn default() -> (o: WasmTransformOptions)
        ensures
            o.is_default(),
    {
        WasmTransformOptions::default_options()
    }
}

/// The form in which WebAssembly is handed out.
#[derive(Debug, Clone, Copy, PartialEq, Eq, Structural)]
pub enum WasmOutputFormat {
    /// The module in its binary form.
    Binary,
    /// The module in its text form.
    Text,
    /// A JavaScript wrapper.
    JavaScript,
    /// A JavaScript wrapper with the binary module after it.
    Bundle,
}

/// What is noted beside an output: the version of the transformer, the
/// name of the format, and the features that were switched on.
#[derive(Debug, Clone)]
pub struct WasmMetadata {
    pub version: String,
    pub format: String,
    pub simd: bool,
    pub threads: bool,
}

/// What a transformation to WebAssembly gave.
#[derive(Debug)]
pub struct WasmTransformResult {
    pub output: Vec<u8>,
    pub format: WasmOutputFormat,
    /// The TypeScript declarations, where they were asked for.
    pub typescript_types: Option<String>,
    pub metadata: WasmMetadata,
    pub errors: Vec<String>,
    pub warnings: Vec<String>,
    pub time_ms: u64,
}

/// The name of a format.
pub open spec fn format_name(format: WasmOutputFormat) -> Seq<char> {
    match format {
        WasmOutputFormat::Binary => "binary"@,
        WasmOutputFormat::Text => "text"@,
        WasmOutputFormat::JavaScript => "javascript"@,
        WasmOutputFormat::Bundle => "bundle"@,
    }
}

/// The name of a format.
pub fn format_to_string(format: WasmOutputFormat) -> (name: &'static str)
    ensures
        name@ == format_name(format),
{
    match format {
        WasmOutputFormat::Binary => "binary",
        WasmOutputFormat::Text => "text",
        WasmOutputFormat::JavaScript => "javascript",
        WasmOutputFormat::Bundle => "bundle",
    }
}

/// The bytes of a text in UTF-8.
pub open spec fn utf8(text: Seq<char>) -> Seq<u8> {
    vstd::utf8::encode_utf8(text)
}

/// The output of a transformation in a format: the empty module, its
/// text form, a wrapper, or a wrapper with the empty module after a
/// marker line.
pub open spec fn format_output(format: WasmOutputFormat) -> Seq<u8> {
    match format {
        WasmOutputFormat::Binary => wasm_header(),
        WasmOutputFormat::Text => utf8("(module)"@),
        WasmOutputFormat::JavaScript => utf8("export function init() { /* ... */ }"@),
        WasmOutputFormat::Bundle => utf8("export function init(wasmBytes) { /* ... */ }"@) + utf8(
            "\n// WASM_BINARY:"@,
        ) + wasm_header(),
    }
}

fn text_bytes(text: &str) -> (bytes: Vec<u8>)
    ensures
        bytes@ == utf8(text@),
{
    slice_to_vec(text.as_bytes())
}

fn append_bytes(to: &mut Vec<u8>, from: &Vec<u8>)
    ensures
        final(to)@ == old(to)@ + from@,
{
    let mut i: usize = 0;
    assert(to@ =~= old(to)@ + from@.subrange(0, 0));
    while i < from.len()
        invariant
            i <= from.len(),
            to@ == old(to)@ + from@.subrange(0, i as int),
        decreases from.len() - i,
    {
        to.push(from[i]);
        assert(to@ =~= old(to)@ + from@.subrange(0, i + 1));
        i = i + 1;
    }
    assert(from@.subrange(0, i as int) =~= from@);
}

/// The transformer of units to WebAssembly.
pub struct WasmTransformer {
    pub options: WasmTransformOptions,
}

impl WasmTransformer {
    pub fn new(options: WasmTransformOptions) -> (t: Self)
        ensures
            t.options == options,
    {
        WasmTransformer { options }
    }

    /// Transforms a unit to WebAssembly in a format. Whatever the unit
    /// holds, the output is that of the empty module.
    pub fn transform_to_wasm(&self, ir: &IR, format: WasmOutputFormat) -> (r: Result<
        WasmTransformResult,
        Error,
    >)
        ensures
            r matches Ok(result) && result.output@ == format_output(format) && result.format == format
                && crate::text::opt_text(result.typescript_types) == (if self.options.generate_types {
                Some("export function init(): Promise<void>;"@)
            } else {
                None
            }) && result.metadata.version@ == "0.1.0"@ && result.metadata.format@ == format_name(
                format,
            ) && result.metadata.simd == self.options.wasm_options.enable_simd
                && result.metadata.threads == self.options.wasm_options.enable_threads
                && result.errors@.len() == 0 && result.warnings@.len() == 0,
    {
        let start = crate::clock::now();
        let output = match format {
            WasmOutputFormat::Binary => empty_wasm_module(),
            WasmOutputFormat::Text => text_bytes("(module)"),
            WasmOutputFormat::JavaScript => text_bytes("export function init() { /* ... */ }"),
            WasmOutputFormat::Bundle => {
                let mut out = text_bytes("export function init(wasmBytes) { /* ... */ }");
                append_bytes(&mut out, &text_bytes("\n// WASM_BINARY:"));
                append_bytes(&mut out, &empty_wasm_module());
                out
            },
        };
        let typescript_types = if self.options.generate_types {
            Some("export function init(): Promise<void>;".to_owned())
        } else {
            None
        };
        let metadata = WasmMetadata {
            version: "0.1.0".to_owned(),
            format: format_to_string(format).to_owned(),
            simd: self.options.wasm_options.enable_simd,
            threads: self.options.wasm_options.enable_threads,
        };
        Ok(
            WasmTransformResult {
                output,
                format,
                typescript_types,
                metadata,
                errors: Vec::new(),
                warnings: Vec::new(),
                time_ms: crate::clock::elapsed_ms(&start),
            },
        )
    }

    /// Reads a JavaScript source and transforms its unit to WebAssembly.
    pub fn transform_js(&self, source: &str, format: WasmOutputFormat) -> (r: Result<
        WasmTransformResult,
        Error,
    >)
        ensures
            r matches Ok(result) && result.output@ == format_output(format) && result.format
                == format,
    {
        let parser = JsParser::new(self.options.compile_options.parse_options.duplicate());
        let ir = match parser.parse_string(source) {
            Ok(ir) => ir,
            Err(e) => {
                return Err(e);
            },
        };
        self.transform_to_wasm(&ir, format)
    }
}

/// How the compiler to WebAssembly is set up.
#[derive(Debug, Clone)]
pub struct WasmConfig {
    pub optimize_level: u8,
    pub enable_simd: bool,
    pub enable_threads: bool,
}

impl WasmConfig {
    pub open spec fn is_default(&self) -> bool {
        self.optimize_level == 1 && !self.enable_simd && !self.enable_threads
    }

    pub fn default_config() -> (c: WasmConfig)
        ensures
            c.is_default(),
    {
        WasmConfig { optimize_level: 1, enable_simd: false, enable_threads: false }
    }
}

impl Default for WasmConfig {
    fn default() -> (c: WasmConfig)
        ensures
            c.is_default(),
    {
        WasmConfig::default_config()
    }
}

/// The compiler of units and sources to WebAssembly.
pub struct WasmCompiler {
    pub config: WasmConfig,
}

impl WasmCompiler {
    pub fn new() -> (c: Self)
        ensures
            c.config.is_default(),
    {
        WasmCompiler { config: WasmConfig::default_config() }
    }

    pub fn with_config(config: WasmConfig) -> (c: Self)
        ensures
            c.config == config,
    {
        WasmCompiler { config }
    }

    /// Compiles a unit to WebAssembly: whatever it holds, to the empty module.
    pub fn compile_to_wasm(&self, ir: &IR) -> (r: Result<Vec<u8>, Error>)
        ensures
            r matches Ok(bytes) && bytes@ == wasm_header(),
    {
        Ok(empty_wasm_module())
    }

    /// Compiles a source to WebAssembly: whatever it holds, to the empty module.
    pub fn compile_from_source(&self, source: &str) -> (r: Result<Vec<u8>, Error>)
        ensures
            r matches Ok(bytes) && bytes@ == wasm_header(),
    {
        Ok(empty_wasm_module())
    }
}

/// Compiles a unit to WebAssembly with the default setup.
pub fn compile_to_wasm(ir: &IR) -> (r: Result<Vec<u8>, Error>)
    ensures
        r matches Ok(bytes) && bytes@ == wasm_header(),
{
    let compiler = WasmCompiler::new();
    compiler.compile_to_wasm(ir)
}

/// Compiles a JavaScript source to WebAssembly with the default setup.
pub fn js_to_wasm(source: &str) -> (r: Result<Vec<u8>, Error>)
    ensures
        r matches Ok(bytes) && bytes@ == wasm_header(),
{
    let compiler = WasmCompiler::new();
    compiler.compile_from_source(source)
}

} // verus!
