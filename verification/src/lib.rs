//! The core of a source-to-source compiler: the tree that its stages
//! share, the pipeline of passes that optimizes the tree, and the
//! scheduler that spreads compilations over workers. Every function
//! states what it does in a contract. The contracts of the library's own
//! functions are proved; the few functions that only call the standard
//! library or another crate say so, and say what they take on trust.

pub mod clock;
pub mod collections;
pub mod compiler;
pub mod config;
pub mod distributed;
pub mod encoding;
pub mod error;
pub mod gpu;
pub mod ir;
pub mod optimizers;
pub mod ordering;
pub mod parser;
pub mod paths;
pub mod ranking;
pub mod stats;
pub mod text;
pub mod toolchain;
pub mod utils;
pub mod wasm;

pub use config::CompileOptions;
pub use distributed::DistributedCompiler;
pub use error::Error;
pub use gpu::GpuOptimizer;
pub use toolchain::{compile, CompileResult, Compiler, Lumen, LumenCompiler, WasmCompiler};
