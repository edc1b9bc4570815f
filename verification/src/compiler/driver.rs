use crate::clock::{elapsed_ms, now};
use crate::collections::StringMap;
use crate::compiler::codegen::{declares_nothing, emitted, CodeGenerator};
use crate::ir::options::CodegenOptions;
use crate::ir::traverse::preorder;
use crate::parser::{empty_program, JsParser, ParseOptions};
use crate::text::byte_len;
use crate::utils::hash_text;
use vstd::prelude::*;

verus! {

/// What one compilation gave.
#[derive(Debug, Clone)]
pub struct CompileResult {
    pub code: String,
    pub source_map: Option<String>,
    pub time_ms: u64,
    /// The size of the source, in bytes.
    pub input_size: usize,
    /// The size of the code, in bytes.
    pub output_size: usize,
}

/// What one compilation is set up with.
#[derive(Debug, Clone)]
pub struct CompileOptions {
    pub parse_options: ParseOptions,
    pub codegen_options: CodegenOptions,
    pub use_gpu: bool,
    pub distributed: bool,
    pub cache_enabled: bool,
    pub extra_options: StringMap<String>,
}

impl CompileOptions {
    /// The default way to read, the default way to write, nothing
    /// switched on but the cache, and no option more.
    pub open spec fn is_default(&self) -> bool {
        &&& self.parse_options.is_default()
        &&& self.codegen_options.is_default()
        &&& !self.use_gpu
        &&& !self.distributed
        &&& self.cache_enabled
        &&& self.extra_options@ == Map::<Seq<char>, String>::empty()
    }

    pub fn default_options() -> (o: CompileOptions)
        ensures
            o.is_default(),
    {
        CompileOptions {
            parse_options: ParseOptions::default_options(),
            codegen_options: CodegenOptions::default_options(),
            use_gpu: false,
            distributed: false,
            cache_enabled: true,
            extra_options: StringMap::new(),
        }
    }
}

impl Default for CompileOptions {
    fn default() -> (o: CompileOptions)
        ensures
            o.is_default(),
    {
        CompileOptions::default_options()
    }
}

/// What one compilation keeps at hand: its cache of outputs by key, if
/// it has one, and the times that its stages took.
pub struct CompilerContext {
    pub cache: Option<StringMap<String>>,
    pub perf_stats: StringMap<u64>,
}

impl CompilerContext {
    /// A context with an empty cache, or with none where the cache is
    /// switched off, and with no time taken.
    pub fn new(cache_enabled: bool) -> (ctx: Self)
        ensures
            cache_enabled ==> (ctx.cache matches Some(c) && c@ == Map::<Seq<char>, String>::empty()),
            !cache_enabled ==> ctx.cache is None,
            ctx.perf_stats@ == Map::<Seq<char>, u64>::empty(),
    {
        CompilerContext {
            cache: if cache_enabled {
                Some(StringMap::new())
            } else {
                None
            },
            perf_stats: StringMap::new(),
        }
    }

    /// Notes the time that a stage took.
    pub fn record_perf(&mut self, key: &str, time_ms: u64)
        ensures
            final(self).perf_stats@ == old(self).perf_stats@.insert(key@, time_ms),
            final(self).cache == old(self).cache,
    {
        self.perf_stats.insert(key.to_owned(), time_ms);
    }

    /// The output that the cache holds for a key.
    pub fn get_cache(&self, key: &str) -> (found: Option<String>)
        ensures
            match found {
                Some(v) => (self.cache matches Some(c) && c@.contains_key(key@) && v@ == c@[key@]@),
                None => (self.cache matches Some(c) ==> !c@.contains_key(key@)),
            },
    {
        match &self.cache {
            Some(c) => match c.get(key) {
                Some(v) => Some(v.clone()),
                None => None,
            },
            None => None,
        }
    }

    /// Puts an output into the cache, where there is one.
    pub fn set_cache(&mut self, key: &str, value: &str)
        ensures
            final(self).perf_stats == old(self).perf_stats,
            match old(self).cache {
                Some(c) => (final(self).cache matches Some(d) && d@.dom() == c@.dom().insert(key@)
                    && d@[key@]@ == value@ && forall|k: Seq<char>|
                    k != key@ && c@.contains_key(k) ==> d@[k] == c@[k]),
                None => final(self).cache is None,
            },
    {
        let cache = self.cache.take();
        match cache {
            Some(c) => {
                let mut c = c;
                let ghost before = c@;
                c.insert(key.to_owned(), value.to_owned());
                assert(c@.dom() =~= before.dom().insert(key@));
                self.cache = Some(c);
            },
            None => {
                self.cache = None;
            },
        }
    }
}

/// The compiler of sources to target code.
pub struct Compiler {
    pub options: CompileOptions,
}

impl Compiler {
    pub fn new() -> (c: Self)
        ensures
            c.options.is_default(),
    {
        Compiler { options: CompileOptions::default_options() }
    }

    pub fn with_options(options: CompileOptions) -> (c: Self)
        ensures
            c.options == options,
    {
        Compiler { options }
    }

    /// Compiles a source: reads it, writes the code of its unit, and
    /// reports the sizes. Numbers are written by `number_text`.
    pub fn compile_string<F: Fn(u64) -> String>(&self, source: &str, number_text: &F) -> (r: Result<
        CompileResult,
        String,
    >)
        requires
            forall|bits: u64| number_text.requires((bits,)),
        ensures
            r matches Ok(result) && result.source_map is None && result.input_size
                == byte_len(source@) as usize && result.output_size == byte_len(result.code@) as usize
                && result.code@ == emitted(
                self.options.codegen_options.minify,
                self.options.codegen_options.target@,
                Seq::empty(),
            ),
    {
        let start = now();
        let mut ctx = CompilerContext::new(self.options.cache_enabled);
        let cache_key = hash_text(source);
        if let Some(cached) = ctx.get_cache(cache_key.as_str()) {
            proof {
                if self.options.cache_enabled {
                    assert(!Map::<Seq<char>, String>::empty().contains_key(cache_key@));
                }
                assert(false);
            }
            let size = cached.as_str().len();
            return Ok(
                CompileResult {
                    code: cached,
                    source_map: None,
                    time_ms: elapsed_ms(&start),
                    input_size: source.len(),
                    output_size: size,
                },
            );
        }
        let parse_start = now();
        let parser = JsParser::new(self.options.parse_options.duplicate());
        let ir = match parser.parse_string(source) {
            Ok(ir) => ir,
            Err(e) => {
                return Err(e.message());
            },
        };
        ctx.record_perf("parse", elapsed_ms(&parse_start));
        let codegen_start = now();
        let generator = CodeGenerator::new(self.options.codegen_options.duplicate());
        let output = generator.generate(&ir, number_text);
        proof {
            let order = preorder(empty_program().root());
            assert(order =~= seq![empty_program().root()]);
            assert(declares_nothing(order));
        }
        ctx.record_perf("codegen", elapsed_ms(&codegen_start));
        if self.options.cache_enabled {
            ctx.set_cache(cache_key.as_str(), output.as_str());
        }
        let size = output.as_str().len();
        Ok(
            CompileResult {
                code: output,
                source_map: None,
                time_ms: elapsed_ms(&start),
                input_size: source.len(),
                output_size: size,
            },
        )
    }

    pub fn with_sourcemap(self, enable: bool) -> (c: Self)
        ensures
            c == (Compiler {
                options: CompileOptions {
                    codegen_options: CodegenOptions { sourcemap: enable, ..self.options.codegen_options },
                    ..self.options
                },
            }),
    {
        let mut c = self;
        c.options.codegen_options.sourcemap = enable;
        c
    }

    pub fn with_minify(self, enable: bool) -> (c: Self)
        ensures
            c == (Compiler {
                options: CompileOptions {
                    codegen_options: CodegenOptions { minify: enable, ..self.options.codegen_options },
                    ..self.options
                },
            }),
    {
        let mut c = self;
        c.options.codegen_options.minify = enable;
        c
    }

    pub fn with_target(self, target: &str) -> (c: Self)
        ensures
            c.options.codegen_options.target@ == target@,
            (Compiler {
                options: CompileOptions {
                    codegen_options: CodegenOptions {
                        target: self.options.codegen_options.target,
                        ..c.options.codegen_options
                    },
                    ..c.options
                },
            }) == self,
    {
        let mut c = self;
        c.options.codegen_options.target = target.to_owned();
        c
    }

    pub fn with_jsx(self, enable: bool) -> (c: Self)
        ensures
            c == (Compiler {
                options: CompileOptions {
                    parse_options: ParseOptions { jsx: enable, ..self.options.parse_options },
                    ..self.options
                },
            }),
    {
        let mut c = self;
        c.options.parse_options.jsx = enable;
        c
    }

    pub fn with_typescript(self, enable: bool) -> (c: Self)
        ensures
            c == (Compiler {
                options: CompileOptions {
                    parse_options: ParseOptions { typescript: enable, ..self.options.parse_options },
                    ..self.options
                },
            }),
    {
        let mut c = self;
        c.options.parse_options.typescript = enable;
        c
    }

    pub fn with_distributed(self, enable: bool) -> (c: Self)
        ensures
            c == (Compiler { options: CompileOptions { distributed: enable, ..self.options } }),
    {
        let mut c = self;
        c.options.distributed = enable;
        c
    }

    pub fn with_gpu(self, enable: bool) -> (c: Self)
        ensures
            c == (Compiler { options: CompileOptions { use_gpu: enable, ..self.options } }),
    {
        let mut c = self;
        c.options.use_gpu = enable;
        c
    }

    pub fn with_cache(self, enable: bool) -> (c: Self)
        ensures
            c == (Compiler { options: CompileOptions { cache_enabled: enable, ..self.options } }),
    {
        let mut c = self;
        c.options.cache_enabled = enable;
        c
    }
}

/// Compiles a JavaScript source with the default options and returns
/// the code.
pub fn compile_js<F: Fn(u64) -> String>(source: &str, number_text: &F) -> (r: Result<String, String>)
    requires
        forall|bits: u64| number_text.requires((bits,)),
    ensures
        r matches Ok(code) && code@ == Seq::<char>::empty(),
{
    let compiler = Compiler::new();
    match compiler.compile_string(source, number_text) {
        Ok(result) => {
            proof {
                reveal_strlit("es2020");
                reveal_strlit("es5");
                reveal_strlit("es2015");
                assert("es2020"@ != "es5"@) by {
                    assert("es2020"@.len() != "es5"@.len());
                }
                assert("es2020"@ != "es2015"@) by {
                    assert("es2020"@[4] != "es2015"@[4]);
                }
            }
            Ok(result.code)
        },
        Err(e) => Err(e),
    }
}

} // verus!
