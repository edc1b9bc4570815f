use crate::collections::StringMap;
use crate::config::Config;
use crate::distributed::scheduler::DistributedCompiler;
use crate::distributed::types::DistributedOptions;
use crate::encoding::{base64_decoding, decode, failure_text, DecodeFailure};
use crate::error::Error;
use crate::gpu::{gpu_minified, GpuOptimizer, GpuOptions};
use crate::ir::node::{refs_model, NodeModel, NodeType};
use crate::ir::options::CodegenOptions;
use crate::ir::store::IR;
use crate::ir::traverse::preorder;
use crate::parser::{empty_program, JsParser, ParseOptions};
use crate::paths::{extension, extension_of, with_extension, with_extension_of};
use crate::text::{byte_len, ends_with, has_suffix, names_of, replace, replaced};
use vstd::prelude::*;
use vstd::string::StringExecFns;

verus! {

/// The plain compiler: it turns a source into code with a heading.
pub struct Lumen {
    pub config: Config,
    pub cache: Option<StringMap<Vec<u8>>>,
}

/// The output for a source under a file name: two lines of heading, then
/// the source with `let` in the place of `var`.
pub open spec fn compiled_text(source: Seq<char>, filename: Seq<char>) -> Seq<char> {
    "// 由Lumen编译 - https://github.com/lumen-compiler\n// 源文件: "@ + filename + "\n"@ + replaced(
        source,
        "var "@,
        "let "@,
    )
}

/// Where the output of a file goes when the caller names no place: the
/// path of the input with its extension set anew, to the old extension
/// with `.compiled` after it, or to `compiled` where it had none.
pub open spec fn default_output_text(input: Seq<char>) -> Seq<char> {
    match extension_of(input) {
        Some(ext) => with_extension_of(input, ext + ".compiled"@),
        None => with_extension_of(input, "compiled"@),
    }
}

/// How many of the outcomes of a batch are failures.
pub open spec fn failures(outcomes: Seq<bool>, upto: int) -> nat
    decreases upto,
{
    if upto <= 0 {
        0
    } else {
        failures(outcomes, upto - 1) + if outcomes[upto - 1] {
            0nat
        } else {
            1nat
        }
    }
}

impl Lumen {
    /// A compiler with the default configuration and an empty cache.
    pub fn new() -> (l: Self)
        ensures
            l.config.is_default(),
            l.cache matches Some(c) && c@ == Map::<Seq<char>, Vec<u8>>::empty(),
    {
        Lumen { config: Config::new(), cache: Some(StringMap::new()) }
    }

    /// A compiler with this configuration and an empty cache.
    pub fn with_config(config: Config) -> (l: Self)
        ensures
            l.config == config,
            l.cache matches Some(c) && c@ == Map::<Seq<char>, Vec<u8>>::empty(),
    {
        Lumen { config, cache: Some(StringMap::new()) }
    }

    /// Compiles a source. Where no file name is given, `input.js` stands
    /// for it.
    pub fn compile_str(&self, source: &str, filename: Option<&str>) -> (r: Result<String, Error>)
        ensures
            r matches Ok(code) && code@ == compiled_text(
                source@,
                match filename {
                    Some(f) => f@,
                    None => "input.js"@,
                },
            ),
    {
        let filename = match filename {
            Some(f) => f,
            None => "input.js",
        };
        proof {
            reveal_strlit("var ");
        }
        let body = replace(source, "var ", "let ");
        let code = "// 由Lumen编译 - https://github.com/lumen-compiler\n// 源文件: ".to_owned().concat(
            filename,
        ).concat("\n").concat(body.as_str());
        Ok(code)
    }

    /// Where the output of a file goes when the caller names no place:
    /// beside the input, with `.compiled` after its extension, or with
    /// the extension `compiled` where it has none.
    pub fn default_output_path(input: &str) -> (output: String)
        ensures
            output@ == default_output_text(input@),
    {
        proof {
            reveal_strlit(".compiled");
            reveal_strlit("compiled");
        }
        match extension(input) {
            Some(ext) => {
                let marked = ext.concat(".compiled");
                assert(marked@ == ext@ + ".compiled"@);
                with_extension(input, marked.as_str())
            },
            None => with_extension(input, "compiled"),
        }
    }

    /// The verdict on a batch from the outcome of each of its files:
    /// success where every file compiled, else the number of those that
    /// did not.
    pub fn summarize_batch(outcomes: &Vec<bool>) -> (r: Result<(), Error>)
        ensures
            match r {
                Ok(_) => failures(outcomes@, outcomes.len() as int) == 0,
                Err(e) => failures(outcomes@, outcomes.len() as int) > 0 && e
                    == Error::BatchCompilationFailed(
                    failures(outcomes@, outcomes.len() as int) as usize,
                ),
            },
    {
        let mut error_count: usize = 0;
        let mut i: usize = 0;
        while i < outcomes.len()
            invariant
                i <= outcomes.len(),
                error_count <= i,
                error_count == failures(outcomes@, i as int),
            decreases outcomes.len() - i,
        {
            if !outcomes[i] {
                error_count = error_count + 1;
            }
            i = i + 1;
        }
        if error_count > 0 {
            Err(Error::BatchCompilationFailed(error_count))
        } else {
            Ok(())
        }
    }

    pub fn with_minify(self, enable: bool) -> (l: Self)
        ensures
            l == (Lumen { config: Config { minify: enable, ..self.config }, ..self }),
    {
        let mut l = self;
        l.config.minify = enable;
        l
    }

    pub fn with_sourcemap(self, enable: bool) -> (l: Self)
        ensures
            l == (Lumen { config: Config { sourcemap: enable, ..self.config }, ..self }),
    {
        let mut l = self;
        l.config.sourcemap = enable;
        l
    }

    pub fn with_target(self, target: &str) -> (l: Self)
        ensures
            l.config.target@ == target@,
            (Lumen { config: Config { target: self.config.target, ..l.config }, ..l }) == self,
    {
        let mut l = self;
        l.config.target = target.to_owned();
        l
    }

    pub fn with_distributed(self, enable: bool) -> (l: Self)
        ensures
            l == (Lumen { config: Config { distributed: enable, ..self.config }, ..self }),
    {
        let mut l = self;
        l.config.distributed = enable;
        l
    }

    pub fn with_gpu(self, enable: bool) -> (l: Self)
        ensures
            l == (Lumen { config: Config { gpu: enable, ..self.config }, ..self }),
    {
        let mut l = self;
        l.config.gpu = enable;
        l
    }

    /// Empties the cache, where there is one.
    pub fn clear_cache(&mut self)
        ensures
            final(self).config == old(self).config,
            old(self).cache is Some ==> (final(self).cache matches Some(c) && c@ == Map::<
                Seq<char>,
                Vec<u8>,
            >::empty()),
            old(self).cache is None ==> final(self).cache is None,
    {
        if self.cache.is_some() {
            self.cache = Some(StringMap::new());
        }
    }

    /// Does away with the cache.
    pub fn disable_cache(&mut self)
        ensures
            final(self).config == old(self).config,
            final(self).cache is None,
    {
        self.cache = None;
    }
}

/// Compiles a source with the plain compiler in its default setup.
pub fn compile(source: &str) -> (r: Result<String, Error>)
    ensures
        r matches Ok(code) && code@ == compiled_text(source@, "input.js"@),
{
    Lumen::new().compile_str(source, None)
}

/// What one compilation gave.
#[derive(Debug, Clone)]
pub struct CompileResult {
    pub code: String,
    pub source_map: Option<String>,
    pub time_ms: u64,
    /// The size of the source, in bytes.
    pub input_size: usize,
    /// The size of the code, in bytes.
    pub output_size: usize,
}

/// The native front ends, one for each kind of source.
#[derive(Debug, Clone, Copy, PartialEq, Eq, Structural)]
pub enum CppFrontend {
    JavaScript,
    TypeScript,
    Jsx,
    Tsx,
}

/// The front end for a file name: by whether it ends in `.ts` or `.tsx`,
/// and whether in `.jsx` or `.tsx`.
pub open spec fn frontend_for(filename: Seq<char>) -> CppFrontend {
    let is_ts = has_suffix(filename, ".ts"@) || has_suffix(filename, ".tsx"@);
    let is_jsx = has_suffix(filename, ".jsx"@) || has_suffix(filename, ".tsx"@);
    if is_ts && is_jsx {
        CppFrontend::Tsx
    } else if is_ts {
        CppFrontend::TypeScript
    } else if is_jsx {
        CppFrontend::Jsx
    } else {
        CppFrontend::JavaScript
    }
}

/// The names of the identifiers among the first `upto` nodes of a walk.
pub open spec fn identifier_names(order: Seq<NodeModel>, upto: int) -> Seq<Seq<char>>
    decreases upto,
{
    if upto <= 0 {
        Seq::empty()
    } else {
        let n = order[upto - 1];
        if n.node_type == NodeType::Identifier && n.values.contains_key("name"@)
            && n.values["name"@] is Text {
            identifier_names(order, upto - 1).push(n.values["name"@]->Text_0)
        } else {
            identifier_names(order, upto - 1)
        }
    }
}

/// The values of the string literals among the first `upto` nodes of a walk.
pub open spec fn string_values(order: Seq<NodeModel>, upto: int) -> Seq<Seq<char>>
    decreases upto,
{
    if upto <= 0 {
        Seq::empty()
    } else {
        let n = order[upto - 1];
        if n.node_type == NodeType::StringLiteral && n.values.contains_key("value"@)
            && n.values["value"@] is Text {
            string_values(order, upto - 1).push(n.values["value"@]->Text_0)
        } else {
            string_values(order, upto - 1)
        }
    }
}

/// A line `var x = x;` for each of the first `upto` names.
pub open spec fn declaration_lines(names: Seq<Seq<char>>, upto: int) -> Seq<char>
    decreases upto,
{
    if upto <= 0 {
        Seq::empty()
    } else {
        declaration_lines(names, upto - 1) + "var "@ + names[upto - 1] + " = "@ + names[upto - 1]
            + ";\n"@
    }
}

/// A line `console.log(s);` for each of the first `upto` values.
pub open spec fn logging_lines(values: Seq<Seq<char>>, upto: int) -> Seq<char>
    decreases upto,
{
    if upto <= 0 {
        Seq::empty()
    } else {
        logging_lines(values, upto - 1) + "console.log("@ + values[upto - 1] + ");\n"@
    }
}

/// Code as the plain minifier leaves it: without line feeds, with one
/// blank for two, and with no blank after a semicolon or about an
/// equals sign.
pub open spec fn squeezed(code: Seq<char>) -> Seq<char> {
    replaced(
        replaced(replaced(replaced(code, "\n"@, Seq::empty()), "  "@, " "@), "; "@, ";"@),
        " = "@,
        "="@,
    )
}

/// The code written for a tree: a heading, a declaration for each
/// identifier, a logging line for each string literal; squeezed where
/// minifying is on; with a pointer to the source map where that is on.
pub open spec fn output_text(root: NodeModel, minify: bool, sourcemap: bool) -> Seq<char> {
    let order = preorder(root);
    let names = identifier_names(order, order.len() as int);
    let values = string_values(order, order.len() as int);
    let raw = "// 生成的代码\n"@ + declaration_lines(names, names.len() as int) + logging_lines(
        values,
        values.len() as int,
    );
    let body = if minify {
        squeezed(raw)
    } else {
        raw
    };
    if sourcemap {
        body + "\n//# sourceMappingURL=output.js.map"@
    } else {
        body
    }
}

/// The compiler that can read with the native front end or with the
/// front end of the library.
pub struct Compiler {
    pub options: Config,
    pub use_cpp: bool,
}

impl Compiler {
    /// A compiler with the default configuration that reads with the
    /// native front end.
    pub fn new() -> (c: Self)
        ensures
            c.options.is_default(),
            c.use_cpp,
    {
        Compiler { options: Config::new(), use_cpp: true }
    }

    /// The native front end that reads a file of this name.
    pub fn select_cpp_parser(filename: &str) -> (frontend: CppFrontend)
        ensures
            frontend == frontend_for(filename@),
    {
        let is_ts = ends_with(filename, ".ts") || ends_with(filename, ".tsx");
        let is_jsx = ends_with(filename, ".jsx") || ends_with(filename, ".tsx");
        if is_ts && is_jsx {
            CppFrontend::Tsx
        } else if is_ts {
            CppFrontend::TypeScript
        } else if is_jsx {
            CppFrontend::Jsx
        } else {
            CppFrontend::JavaScript
        }
    }

    /// The level at which the native optimizer is to be run on a unit:
    /// the highest, 3, where minifying is on and the native side is in
    /// use; else the unit is left as it is.
    pub fn cpp_optimization_level(&self) -> (level: Option<i32>)
        ensures
            level == (if self.options.minify && self.use_cpp {
                Some(3i32)
            } else {
                None
            }),
    {
        if self.options.minify && self.use_cpp {
            Some(3)
        } else {
            None
        }
    }

    /// Writes the code for a unit.
    pub fn generate_output(&self, ir: &IR, options: &CodegenOptions, source: &str) -> (r: Result<
        String,
        Error,
    >)
        requires
            ir.wf(),
        ensures
            r matches Ok(code) && code@ == output_text(ir@.root(), options.minify, options.sourcemap),
    {
        let order = ir.visit();
        let ghost models = refs_model(order@);
        let mut identifiers: Vec<String> = Vec::new();
        let mut strings: Vec<String> = Vec::new();
        let mut i: usize = 0;
        assert(names_of(identifiers@) =~= identifier_names(models, 0));
        assert(names_of(strings@) =~= string_values(models, 0));
        while i < order.len()
            invariant
                i <= order.len(),
                models == refs_model(order@),
                names_of(identifiers@) == identifier_names(models, i as int),
                names_of(strings@) == string_values(models, i as int),
            decreases order.len() - i,
        {
            assert(models[i as int] == order@[i as int]@);
            let ghost ids = names_of(identifiers@);
            let ghost vals = names_of(strings@);
            if order[i].0.node_type == NodeType::Identifier {
                if let Some(name) = order[i].0.get_string_value("name") {
                    identifiers.push(name.to_owned());
                    assert(names_of(identifiers@) =~= ids.push(name@));
                }
            }
            if order[i].0.node_type == NodeType::StringLiteral {
                if let Some(value) = order[i].0.get_string_value("value") {
                    strings.push(value.to_owned());
                    assert(names_of(strings@) =~= vals.push(value@));
                }
            }
            i = i + 1;
        }
        let ghost names = names_of(identifiers@);
        let ghost values = names_of(strings@);
        let mut output = "// 生成的代码\n".to_owned();
        let mut k: usize = 0;
        assert(output@ =~= "// 生成的代码\n"@ + declaration_lines(names, 0));
        while k < identifiers.len()
            invariant
                k <= identifiers.len(),
                names == names_of(identifiers@),
                output@ == "// 生成的代码\n"@ + declaration_lines(names, k as int),
            decreases identifiers.len() - k,
        {
            let id = identifiers[k].as_str();
            assert(names[k as int] == id@);
            output = output.concat("var ").concat(id).concat(" = ").concat(id).concat(";\n");
            k = k + 1;
            assert(output@ =~= "// 生成的代码\n"@ + declaration_lines(names, k as int));
        }
        let ghost head = output@;
        let mut m: usize = 0;
        assert(output@ =~= head + logging_lines(values, 0));
        while m < strings.len()
            invariant
                m <= strings.len(),
                values == names_of(strings@),
                output@ == head + logging_lines(values, m as int),
            decreases strings.len() - m,
        {
            let s = strings[m].as_str();
            assert(values[m as int] == s@);
            output = output.concat("console.log(").concat(s).concat(");\n");
            m = m + 1;
            assert(output@ =~= head + logging_lines(values, m as int));
        }
        if options.minify {
            proof {
                reveal_strlit("\n");
                reveal_strlit("  ");
                reveal_strlit("; ");
                reveal_strlit(" = ");
                reveal_strlit("");
            }
            assert(""@ =~= Seq::<char>::empty());
            let a = replace(output.as_str(), "\n", "");
            let b = replace(a.as_str(), "  ", " ");
            let c = replace(b.as_str(), "; ", ";");
            output = replace(c.as_str(), " = ", "=");
        }
        if options.sourcemap {
            output = output.concat("\n//# sourceMappingURL=output.js.map");
        }
        Ok(output)
    }

    /// Compiles a source with the front end of the library: reads it,
    /// writes the code of its unit, and reports the sizes and the time
    /// taken.
    pub fn compile_with_rust(&self, source: &str, elapsed_ms: u64) -> (r: Result<
        CompileResult,
        Error,
    >)
        ensures
            r matches Ok(result) && result.code@ == output_text(
                empty_program().root(),
                self.options.minify,
                self.options.sourcemap,
            ) && result.source_map is None && result.time_ms == elapsed_ms && result.input_size
                == byte_len(source@) as usize && result.output_size == byte_len(result.code@) as usize,
    {
        let parser = JsParser::new(ParseOptions::default_options());
        let ir = match parser.parse_string(source) {
            Ok(ir) => ir,
            Err(e) => {
                return Err(Error::ParseError(e.message()));
            },
        };
        let options = CodegenOptions {
            minify: self.options.minify,
            sourcemap: self.options.sourcemap,
            target: self.options.target.clone(),
            inline_sources: true,
            preserve_comments: false,
        };
        let output = match self.generate_output(&ir, &options, source) {
            Ok(o) => o,
            Err(e) => {
                return Err(e);
            },
        };
        Ok(Self::assemble_result(source, output, elapsed_ms))
    }

    /// The report on a compilation from its source, its output and the
    /// time that it took.
    pub fn assemble_result(source: &str, output: String, elapsed_ms: u64) -> (result: CompileResult)
        ensures
            result.code == output,
            result.source_map is None,
            result.time_ms == elapsed_ms,
            result.input_size == byte_len(source@) as usize,
            result.output_size == byte_len(output@) as usize,
    {
        let size = output.as_str().len();
        CompileResult {
            code: output,
            source_map: None,
            time_ms: elapsed_ms,
            input_size: source.len(),
            output_size: size,
        }
    }

    /// Sorts the outcomes of a batch: the results of the files that
    /// compiled, in the order of the files, and the number of files that
    /// did not. A batch gives what it could compile also where some of
    /// its files failed.
    pub fn collect_results(outcomes: Vec<Result<CompileResult, Error>>) -> (r: (
        Vec<CompileResult>,
        usize,
    ))
        ensures
            r.0@ == successes(outcomes@, outcomes.len() as int),
            r.1 == outcomes.len() - r.0.len(),
    {
        let mut results: Vec<CompileResult> = Vec::new();
        let mut error_count: usize = 0;
        let mut outcomes = outcomes;
        let ghost all = outcomes@;
        let count = outcomes.len();
        assert(all.len() == count);
        let mut rest: Vec<Result<CompileResult, Error>> = Vec::new();
        while outcomes.len() > 0
            invariant
                all.len() <= usize::MAX,
                rest@.len() + outcomes@.len() == all.len(),
                outcomes@ == all.subrange(0, outcomes@.len() as int),
                forall|j: int| 0 <= j < rest@.len() ==> rest@[j] == all[all.len() - 1 - j],
            decreases outcomes.len(),
        {
            let last = outcomes.pop().unwrap();
            rest.push(last);
            assert(outcomes@ =~= all.subrange(0, outcomes@.len() as int));
        }
        assert(results@ =~= successes(all, 0));
        while rest.len() > 0
            invariant
                all.len() <= usize::MAX,
                rest@.len() <= all.len(),
                forall|j: int| 0 <= j < rest@.len() ==> rest@[j] == all[all.len() - 1 - j],
                results@ == successes(all, all.len() - rest@.len()),
                error_count + results.len() == all.len() - rest@.len(),
            decreases rest.len(),
        {
            let ghost seen = results@;
            let ghost at = all.len() - rest@.len();
            let next = rest.pop().unwrap();
            assert(next == all[at]);
            match next {
                Ok(result) => {
                    results.push(result);
                    assert(results@ =~= seen.push(all[at]->Ok_0));
                },
                Err(_) => {
                    error_count = error_count + 1;
                },
            }
        }
        (results, error_count)
    }

    /// The bytes of a WebAssembly module from the Base64 text in which
    /// the native generator hands it out.
    pub fn decode_wasm(encoded: &str) -> (r: Result<Vec<u8>, Error>)
        ensures
            match r {
                Ok(bytes) => base64_decoding(encoded@) == Ok::<Seq<u8>, DecodeFailure>(bytes@),
                Err(e) => base64_decoding(encoded@) matches Err(f) && e matches Error::InternalError(
                    m,
                ) && m@ == "Base64解码错误: "@ + failure_text(f),
            },
    {
        match decode(encoded) {
            Ok(bytes) => Ok(bytes),
            Err(f) => Err(
                Error::InternalError("Base64解码错误: ".to_owned().concat(f.message().as_str())),
            ),
        }
    }

    pub fn with_cpp(self, enable: bool) -> (c: Self)
        ensures
            c == (Compiler { use_cpp: enable, ..self }),
    {
        let mut c = self;
        c.use_cpp = enable;
        c
    }

    pub fn with_minify(self, enable: bool) -> (c: Self)
        ensures
            c == (Compiler { options: Config { minify: enable, ..self.options }, ..self }),
    {
        let mut c = self;
        c.options.minify = enable;
        c
    }

    pub fn with_sourcemap(self, enable: bool) -> (c: Self)
        ensures
            c == (Compiler { options: Config { sourcemap: enable, ..self.options }, ..self }),
    {
        let mut c = self;
        c.options.sourcemap = enable;
        c
    }

    pub fn with_target(self, target: &str) -> (c: Self)
        ensures
            c.options.target@ == target@,
            (Compiler { options: Config { target: self.options.target, ..c.options }, ..c }) == self,
    {
        let mut c = self;
        c.options.target = target.to_owned();
        c
    }

    pub fn with_distributed(self, enable: bool) -> (c: Self)
        ensures
            c == (Compiler { options: Config { distributed: enable, ..self.options }, ..self }),
    {
        let mut c = self;
        c.options.distributed = enable;
        c
    }

    pub fn with_gpu(self, enable: bool) -> (c: Self)
        ensures
            c == (Compiler { options: Config { gpu: enable, ..self.options }, ..self }),
    {
        let mut c = self;
        c.options.gpu = enable;
        c
    }
}

/// The results among the first `upto` outcomes of a batch, in their order.
pub open spec fn successes(outcomes: Seq<Result<CompileResult, Error>>, upto: int) -> Seq<
    CompileResult,
>
    decreases upto,
{
    if upto <= 0 {
        Seq::empty()
    } else {
        match outcomes[upto - 1] {
            Ok(result) => successes(outcomes, upto - 1).push(result),
            Err(_) => successes(outcomes, upto - 1),
        }
    }
}

/// The text of `true` or `false`.
pub open spec fn bool_text(b: bool) -> Seq<char> {
    if b {
        "true"@
    } else {
        "false"@
    }
}

/// The options for the native generator of WebAssembly, as JSON.
pub open spec fn wasm_options_text(format: Seq<char>, simd: bool, threads: bool, typescript: bool) -> Seq<
    char,
> {
    "{\"format\":\""@ + format + "\",\"simd\":"@ + bool_text(simd) + ",\"threads\":"@ + bool_text(
        threads,
    ) + ",\"typescript\":"@ + bool_text(typescript) + "}"@
}

fn bool_str(b: bool) -> (t: &'static str)
    ensures
        t@ == bool_text(b),
{
    if b {
        "true"
    } else {
        "false"
    }
}

/// The compiler to WebAssembly that goes through the native generator.
pub struct WasmCompiler {
    pub compiler: Compiler,
}

impl WasmCompiler {
    pub fn new() -> (w: Self)
        ensures
            w.compiler.options.is_default(),
            w.compiler.use_cpp,
    {
        WasmCompiler { compiler: Compiler::new() }
    }

    /// The options that are handed to the native generator for a file:
    /// the format; SIMD where the GPU is on; threads where distribution
    /// is on; TypeScript where the path ends in `.ts`.
    pub fn wasm_options_json(&self, format: &str, input_path: &str) -> (json: String)
        ensures
            json@ == wasm_options_text(
                format@,
                self.compiler.options.gpu,
                self.compiler.options.distributed,
                has_suffix(input_path@, ".ts"@),
            ),
    {
        "{\"format\":\"".to_owned().concat(format).concat("\",\"simd\":").concat(
            bool_str(self.compiler.options.gpu),
        ).concat(",\"threads\":").concat(bool_str(self.compiler.options.distributed)).concat(
            ",\"typescript\":",
        ).concat(bool_str(ends_with(input_path, ".ts"))).concat("}")
    }

    pub fn with_target(self, target: &str) -> (w: Self)
        ensures
            w.compiler.options.target@ == target@,
            (Compiler {
                options: Config { target: self.compiler.options.target, ..w.compiler.options },
                ..w.compiler
            }) == self.compiler,
    {
        WasmCompiler { compiler: self.compiler.with_target(target) }
    }

    pub fn with_simd(self, enable: bool) -> (w: Self)
        ensures
            w.compiler == (Compiler {
                options: Config { gpu: enable, ..self.compiler.options },
                ..self.compiler
            }),
    {
        WasmCompiler { compiler: self.compiler.with_gpu(enable) }
    }

    pub fn with_threads(self, enable: bool) -> (w: Self)
        ensures
            w.compiler == (Compiler {
                options: Config { distributed: enable, ..self.compiler.options },
                ..self.compiler
            }),
    {
        WasmCompiler { compiler: self.compiler.with_distributed(enable) }
    }

    /// Nothing to set: TypeScript is told by the name of the file.
    pub fn with_typescript(self, enable: bool) -> (w: Self)
        ensures
            w == self,
    {
        self
    }
}

/// The compiler with everything: the hybrid compiler, and, where they
/// are switched on, the GPU optimizer and the distributed scheduler.
pub struct LumenCompiler {
    pub compiler: Compiler,
    pub gpu_optimizer: Option<GpuOptimizer>,
    pub distributed_compiler: Option<DistributedCompiler>,
}

impl LumenCompiler {
    pub fn new() -> (c: Self)
        ensures
            c.compiler.options.is_default(),
            c.compiler.use_cpp,
            c.gpu_optimizer is None,
            c.distributed_compiler is None,
    {
        LumenCompiler { compiler: Compiler::new(), gpu_optimizer: None, distributed_compiler: None }
    }

    /// Switches the GPU on, with the default options, or off.
    pub fn with_gpu(self, enable: bool) -> (c: Self)
        ensures
            c.compiler == (Compiler {
                options: Config { gpu: enable, ..self.compiler.options },
                ..self.compiler
            }),
            enable ==> (c.gpu_optimizer matches Some(g) && g.options.is_default() && g.is_available),
            !enable ==> c.gpu_optimizer is None,
            c.distributed_compiler == self.distributed_compiler,
    {
        LumenCompiler {
            compiler: self.compiler.with_gpu(enable),
            gpu_optimizer: if enable {
                Some(GpuOptimizer::new())
            } else {
                None
            },
            distributed_compiler: self.distributed_compiler,
        }
    }

    /// Switches distribution on, with a scheduler of default options, or off.
    pub fn with_distributed(self, enable: bool) -> (c: Self)
        ensures
            c.compiler == (Compiler {
                options: Config { distributed: enable, ..self.compiler.options },
                ..self.compiler
            }),
            enable ==> (c.distributed_compiler matches Some(d) && d.wf() && d@.tasks.len() == 0
                && d@.workers.len() == 0),
            !enable ==> c.distributed_compiler is None,
            c.gpu_optimizer == self.gpu_optimizer,
    {
        LumenCompiler {
            compiler: self.compiler.with_distributed(enable),
            gpu_optimizer: self.gpu_optimizer,
            distributed_compiler: if enable {
                Some(DistributedCompiler::new())
            } else {
                None
            },
        }
    }

    /// Switches the GPU on, with these options.
    pub fn with_gpu_options(self, options: GpuOptions) -> (c: Self)
        ensures
            c.compiler == (Compiler {
                options: Config { gpu: true, ..self.compiler.options },
                ..self.compiler
            }),
            c.gpu_optimizer matches Some(g) && g.options == options && g.is_available,
            c.distributed_compiler == self.distributed_compiler,
    {
        LumenCompiler {
            compiler: self.compiler.with_gpu(true),
            gpu_optimizer: Some(GpuOptimizer::with_options(options)),
            distributed_compiler: self.distributed_compiler,
        }
    }

    /// Switches distribution on, with a scheduler of these options.
    pub fn with_distributed_options(self, options: DistributedOptions) -> (c: Self)
        ensures
            c.compiler == (Compiler {
                options: Config { distributed: true, ..self.compiler.options },
                ..self.compiler
            }),
            c.distributed_compiler matches Some(d) && d.wf() && d.options() == options
                && d@.tasks.len() == 0 && d@.workers.len() == 0,
            c.gpu_optimizer == self.gpu_optimizer,
    {
        LumenCompiler {
            compiler: self.compiler.with_distributed(true),
            gpu_optimizer: self.gpu_optimizer,
            distributed_compiler: Some(DistributedCompiler::with_options(options)),
        }
    }

    /// Passes the code of a result through the GPU minifier, where the
    /// GPU is switched on, and sets the size of the output anew.
    pub fn apply_gpu(&self, result: CompileResult) -> (r: CompileResult)
        ensures
            r.source_map == result.source_map,
            r.time_ms == result.time_ms,
            r.input_size == result.input_size,
            match self.gpu_optimizer {
                Some(g) => r.code@ == (if g.is_available {
                    gpu_minified(result.code@)
                } else {
                    result.code@
                }) && r.output_size == byte_len(r.code@) as usize,
                None => r == result,
            },
    {
        match &self.gpu_optimizer {
            Some(g) => {
                let code = match g.minify(result.code.as_str()) {
                    Ok(code) => code,
                    Err(_) => result.code,
                };
                let size = code.as_str().len();
                CompileResult {
                    code,
                    source_map: result.source_map,
                    time_ms: result.time_ms,
                    input_size: result.input_size,
                    output_size: size,
                }
            },
            None => result,
        }
    }

    pub fn with_minify(self, enable: bool) -> (c: Self)
        ensures
            c.compiler == (Compiler {
                options: Config { minify: enable, ..self.compiler.options },
                ..self.compiler
            }),
            c.gpu_optimizer == self.gpu_optimizer,
            c.distributed_compiler == self.distributed_compiler,
    {
        LumenCompiler {
            compiler: self.compiler.with_minify(enable),
            gpu_optimizer: self.gpu_optimizer,
            distributed_compiler: self.distributed_compiler,
        }
    }

    pub fn with_sourcemap(self, enable: bool) -> (c: Self)
        ensures
            c.compiler == (Compiler {
                options: Config { sourcemap: enable, ..self.compiler.options },
                ..self.compiler
            }),
            c.gpu_optimizer == self.gpu_optimizer,
            c.distributed_compiler == self.distributed_compiler,
    {
        LumenCompiler {
            compiler: self.compiler.with_sourcemap(enable),
            gpu_optimizer: self.gpu_optimizer,
            distributed_compiler: self.distributed_compiler,
        }
    }

    pub fn with_target(self, target: &str) -> (c: Self)
        ensures
            c.compiler.options.target@ == target@,
            (Compiler {
                options: Config { target: self.compiler.options.target, ..c.compiler.options },
                ..c.compiler
            }) == self.compiler,
            c.gpu_optimizer == self.gpu_optimizer,
            c.distributed_compiler == self.distributed_compiler,
    {
        LumenCompiler {
            compiler: self.compiler.with_target(target),
            gpu_optimizer: self.gpu_optimizer,
            distributed_compiler: self.distributed_compiler,
        }
    }

    pub fn with_cpp(self, enable: bool) -> (c: Self)
        ensures
            c.compiler == (Compiler { use_cpp: enable, ..self.compiler }),
            c.gpu_optimizer == self.gpu_optimizer,
            c.distributed_compiler == self.distributed_compiler,
    {
        LumenCompiler {
            compiler: self.compiler.with_cpp(enable),
            gpu_optimizer: self.gpu_optimizer,
            distributed_compiler: self.distributed_compiler,
        }
    }
}

} // verus!
