pub mod codegen;
pub mod driver;

pub use codegen::CodeGenerator;
pub use driver::{compile_js, CompileOptions, CompileResult, Compiler, CompilerContext};
