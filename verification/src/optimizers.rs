pub mod facade;
pub mod folding;
pub mod options;
pub mod passes;
pub mod pipeline;
pub mod pruning;

pub use facade::{optimize_ir, LumenOptimizer, OptimizerConfig};
pub use folding::{ConstantFolding, NumericOp};
pub use options::{OptimizationLevel, OptimizationResult, OptimizerOptions};
pub use passes::{DeadCodeElimination, Optimizer, StandardPass, TreeShaking};
pub use pipeline::{create_default_pipeline, optimize, OptimizationPipeline};
