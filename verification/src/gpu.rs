use crate::text::{replace, replaced};
use vstd::prelude::*;

verus! {

/// How work is laid out on the GPU.
#[derive(Debug, Clone)]
pub struct GpuOptions {
    pub enable_simd: bool,
    pub use_shared_memory: bool,
    pub batch_size: usize,
    pub workgroup_size: usize,
    /// The most memory to use, in MiB.
    pub max_memory_mb: usize,
}

impl GpuOptions {
    pub open spec fn is_default(&self) -> bool {
        &&& self.enable_simd
        &&& self.use_shared_memory
        &&& self.batch_size == 1024
        &&& self.workgroup_size == 64
        &&& self.max_memory_mb == 512
    }

    pub fn default_options() -> (o: GpuOptions)
        ensures
            o.is_default(),
    {
        GpuOptions {
            enable_simd: true,
            use_shared_memory: true,
            batch_size: 1024,
            workgroup_size: 64,
            max_memory_mb: 512,
        }
    }
}

impl Default for GpuOptions {
    fn default() -> (o: GpuOptions)
        ensures
            o.is_default(),
    {
        GpuOptions::default_options()
    }
}

/// The optimizer that would run on a GPU. Where none is available its
/// functions hand their input back.
pub struct GpuOptimizer {
    pub options: GpuOptions,
    pub is_available: bool,
}

/// Code as the GPU minifier leaves it: without spaces and line feeds.
pub open spec fn gpu_minified(code: Seq<char>) -> Seq<char> {
    replaced(replaced(code, " "@, Seq::empty()), "\n"@, Seq::empty())
}

impl GpuOptimizer {
    pub fn new() -> (g: Self)
        ensures
            g.options.is_default(),
            g.is_available,
    {
        GpuOptimizer { options: GpuOptions::default_options(), is_available: Self::check_gpu_available() }
    }

    pub fn with_options(options: GpuOptions) -> (g: Self)
        ensures
            g.options == options,
            g.is_available,
    {
        GpuOptimizer { options, is_available: Self::check_gpu_available() }
    }

    /// Whether a GPU can be used. One always can.
    pub fn check_gpu_available() -> (available: bool)
        ensures
            available,
    {
        true
    }

    /// Optimizes a unit in its text form. The text comes back as it went in.
    pub fn optimize(&self, ir: &str) -> (r: Result<String, String>)
        ensures
            r matches Ok(text) && text@ == ir@,
    {
        Ok(ir.to_owned())
    }

    /// Takes the spaces and line feeds out of code; hands the code back
    /// as it is where no GPU is available.
    pub fn minify(&self, code: &str) -> (r: Result<String, String>)
        ensures
            r matches Ok(text) && text@ == if self.is_available {
                gpu_minified(code@)
            } else {
                code@
            },
    {
        if !self.is_available {
            return Ok(code.to_owned());
        }
        proof {
            reveal_strlit(" ");
            reveal_strlit("\n");
            reveal_strlit("");
        }
        let without_spaces = replace(code, " ", "");
        let result = replace(without_spaces.as_str(), "\n", "");
        assert(""@ =~= Seq::<char>::empty());
        Ok(result)
    }

    /// Checks the types of a source. It finds no type error.
    pub fn type_check(&self, source: &str) -> (r: Result<Vec<String>, String>)
        ensures
            r matches Ok(errors) && errors@.len() == 0,
    {
        Ok(Vec::new())
    }
}

/// The generator of WebAssembly that would run on a GPU.
pub struct GpuWasmCompiler {
    pub options: GpuOptions,
    pub is_available: bool,
}

/// The eight bytes that every WebAssembly module begins with: the magic
/// number and version 1.
pub open spec fn wasm_header() -> Seq<u8> {
    seq![0x00u8, 0x61u8, 0x73u8, 0x6Du8, 0x01u8, 0x00u8, 0x00u8, 0x00u8]
}

/// The empty WebAssembly module: its header and nothing more.
pub fn empty_wasm_module() -> (bytes: Vec<u8>)
    ensures
        bytes@ == wasm_header(),
{
    let mut bytes: Vec<u8> = Vec::new();
    bytes.push(0x00);
    bytes.push(0x61);
    bytes.push(0x73);
    bytes.push(0x6D);
    bytes.push(0x01);
    bytes.push(0x00);
    bytes.push(0x00);
    bytes.push(0x00);
    assert(bytes@ =~= wasm_header());
    bytes
}

impl GpuWasmCompiler {
    pub fn new() -> (g: Self)
        ensures
            g.options.is_default(),
            g.is_available,
    {
        GpuWasmCompiler {
            options: GpuOptions::default_options(),
            is_available: Self::check_gpu_available(),
        }
    }

    /// Whether a GPU can be used. One always can.
    pub fn check_gpu_available() -> (available: bool)
        ensures
            available,
    {
        true
    }

    /// Generates WebAssembly for a unit in its text form: the empty
    /// module, or an error where no GPU is available.
    pub fn compile_to_wasm(&self, ir: &str) -> (r: Result<Vec<u8>, String>)
        ensures
            match r {
                Ok(bytes) => self.is_available && bytes@ == wasm_header(),
                Err(e) => !self.is_available && e@ == "GPU不可用，请使用CPU版本的WASM编译器"@,
            },
    {
        if !self.is_available {
            return Err("GPU不可用，请使用CPU版本的WASM编译器".to_owned());
        }
        Ok(empty_wasm_module())
    }
}

} // verus!
