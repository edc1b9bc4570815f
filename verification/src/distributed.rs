pub mod batch;
pub mod ids;
pub mod laws;
pub mod model;
pub mod scheduler;
pub mod types;

pub use model::SchedulerModel;
pub use scheduler::DistributedCompiler;
pub use types::{
    CompileTask, DistributedOptions, DistributionStrategy, SchedulerError, TaskStatus, WaitOutcome,
    WorkerInfo, WorkerStatus,
};
