use crate::text::{names_of, opt_text};
use std::time::Instant;
use vstd::prelude::*;
use vstd::string::StringExecFns;

verus! {

/// How a batch of inputs is ordered before it is submitted.
#[derive(Debug, Clone, Copy, PartialEq, Eq, Structural)]
pub enum DistributionStrategy {
    Random,
    DirectoryBased,
    DependencyBased,
    SizePriority,
}

/// What a scheduler is set up with. It is read once, when the scheduler
/// is made.
#[derive(Debug, Clone)]
pub struct DistributedOptions {
    /// The addresses of the workers to register.
    pub workers: Vec<String>,
    pub strategy: DistributionStrategy,
    /// How often a task that failed is tried again.
    pub max_retries: usize,
    /// How long to wait for a task, in seconds, where the caller names no time.
    pub timeout_secs: u64,
    pub load_balancing: bool,
    /// How many inputs make one batch.
    pub batch_size: usize,
}

impl DistributedOptions {
    /// One worker on `localhost:8080`, ordering by dependencies, three
    /// retries, thirty seconds, batches of ten.
    pub fn default_options() -> (o: DistributedOptions)
        ensures
            o.workers@.len() == 1,
            o.workers@[0]@ == "localhost:8080"@,
            o.strategy == DistributionStrategy::DependencyBased,
            o.max_retries == 3,
            o.timeout_secs == 30,
            o.load_balancing,
            o.batch_size == 10,
    {
        let mut workers: Vec<String> = Vec::new();
        workers.push("localhost:8080".to_owned());
        DistributedOptions {
            workers,
            strategy: DistributionStrategy::DependencyBased,
            max_retries: 3,
            timeout_secs: 30,
            load_balancing: true,
            batch_size: 10,
        }
    }
}

impl Default for DistributedOptions {
    fn default() -> (o: DistributedOptions)
        ensures
            o.workers@.len() == 1,
            o.workers@[0]@ == "localhost:8080"@,
            o.strategy == DistributionStrategy::DependencyBased,
            o.max_retries == 3,
            o.timeout_secs == 30,
            o.load_balancing,
            o.batch_size == 10,
    {
        DistributedOptions::default_options()
    }
}

/// Where a task stands: it waits, it is being compiled, or it has ended,
/// well or badly.
#[derive(Debug, Clone, Copy, PartialEq, Eq, Structural)]
pub enum TaskStatus {
    Waiting,
    Compiling,
    Completed,
    Failed,
}

/// One unit of work: the compilation of one input file.
#[derive(Debug, Clone)]
pub struct CompileTask {
    pub id: String,
    pub input_path: String,
    pub output_path: Option<String>,
    pub assigned_worker: Option<String>,
    pub status: TaskStatus,
    pub priority: usize,
    /// The ids of the tasks that must be completed first.
    pub dependencies: Vec<String>,
    pub created_at: Instant,
    pub completed_at: Option<Instant>,
    pub retries: usize,
}

/// The mathematical value of a task. Of the two moments it keeps only
/// whether the task has one of completion.
pub struct TaskModel {
    pub id: Seq<char>,
    pub input_path: Seq<char>,
    pub output_path: Option<Seq<char>>,
    pub assigned_worker: Option<Seq<char>>,
    pub status: TaskStatus,
    pub priority: usize,
    pub dependencies: Seq<Seq<char>>,
    pub has_completion_time: bool,
    pub retries: usize,
}

impl View for CompileTask {
    type V = TaskModel;

    open spec fn view(&self) -> TaskModel {
        TaskModel {
            id: self.id@,
            input_path: self.input_path@,
            output_path: opt_text(self.output_path),
            assigned_worker: opt_text(self.assigned_worker),
            status: self.status,
            priority: self.priority,
            dependencies: names_of(self.dependencies@),
            has_completion_time: self.completed_at is Some,
            retries: self.retries,
        }
    }
}

/// Whether a worker takes work.
#[derive(Debug, Clone, Copy, PartialEq, Eq, Structural)]
pub enum WorkerStatus {
    Online,
    Busy,
    Offline,
}

/// What the registry knows of one worker. The performance score is in
/// thousandths, 1000 for a worker of ordinary speed.
#[derive(Debug, Clone)]
pub struct WorkerInfo {
    pub address: String,
    pub active_tasks: usize,
    pub status: WorkerStatus,
    pub last_response_time_ms: u64,
    pub performance_score: u64,
}

/// The mathematical value of a registry entry.
pub struct WorkerModel {
    pub address: Seq<char>,
    pub active_tasks: usize,
    pub status: WorkerStatus,
    pub last_response_time_ms: u64,
    pub performance_score: u64,
}

impl View for WorkerInfo {
    type V = WorkerModel;

    open spec fn view(&self) -> WorkerModel {
        WorkerModel {
            address: self.address@,
            active_tasks: self.active_tasks,
            status: self.status,
            last_response_time_ms: self.last_response_time_ms,
            performance_score: self.performance_score,
        }
    }
}

/// Why the scheduler could not do what it was asked.
#[derive(Debug, Clone, PartialEq, Eq)]
pub enum SchedulerError {
    /// No task has this id.
    TaskNotFound(String),
    /// A task with this id is already there.
    DuplicateTask(String),
    /// No worker is registered.
    NoWorkers,
    /// Workers are registered, but none takes work.
    NoOnlineWorker,
    /// The task has failed for good.
    TaskFailed(String),
    /// The task did not end within the time allowed.
    Timeout(String),
    /// Files of the dependency graph wait for each other in a circle.
    DependencyCycle,
}

/// The mathematical value of an error.
pub enum ErrorModel {
    TaskNotFound(Seq<char>),
    DuplicateTask(Seq<char>),
    NoWorkers,
    NoOnlineWorker,
    TaskFailed(Seq<char>),
    Timeout(Seq<char>),
    DependencyCycle,
}

impl View for SchedulerError {
    type V = ErrorModel;

    open spec fn view(&self) -> ErrorModel {
        match self {
            SchedulerError::TaskNotFound(id) => ErrorModel::TaskNotFound(id@),
            SchedulerError::DuplicateTask(id) => ErrorModel::DuplicateTask(id@),
            SchedulerError::NoWorkers => ErrorModel::NoWorkers,
            SchedulerError::NoOnlineWorker => ErrorModel::NoOnlineWorker,
            SchedulerError::TaskFailed(id) => ErrorModel::TaskFailed(id@),
            SchedulerError::Timeout(id) => ErrorModel::Timeout(id@),
            SchedulerError::DependencyCycle => ErrorModel::DependencyCycle,
        }
    }
}

/// The text of an error.
pub open spec fn error_text(e: ErrorModel) -> Seq<char> {
    match e {
        ErrorModel::TaskNotFound(id) => "任务不存在: "@ + id,
        ErrorModel::DuplicateTask(id) => "任务已存在: "@ + id,
        ErrorModel::NoWorkers => "没有可用的工作节点"@,
        ErrorModel::NoOnlineWorker => "没有在线的工作节点"@,
        ErrorModel::TaskFailed(id) => "任务失败: "@ + id,
        ErrorModel::Timeout(id) => "等待任务完成超时: "@ + id,
        ErrorModel::DependencyCycle => "依赖图中存在循环依赖"@,
    }
}

impl SchedulerError {
    /// The error as a line of text.
    pub fn message(&self) -> (text: String)
        ensures
            text@ == error_text(self@),
    {
        match self {
            SchedulerError::TaskNotFound(id) => "任务不存在: ".to_owned().concat(id.as_str()),
            SchedulerError::DuplicateTask(id) => "任务已存在: ".to_owned().concat(id.as_str()),
            SchedulerError::NoWorkers => "没有可用的工作节点".to_owned(),
            SchedulerError::NoOnlineWorker => "没有在线的工作节点".to_owned(),
            SchedulerError::TaskFailed(id) => "任务失败: ".to_owned().concat(id.as_str()),
            SchedulerError::Timeout(id) => "等待任务完成超时: ".to_owned().concat(id.as_str()),
            SchedulerError::DependencyCycle => "依赖图中存在循环依赖".to_owned(),
        }
    }
}

/// What one look at a task that is waited for finds.
#[derive(Debug, Clone, Copy, PartialEq, Eq, Structural)]
pub enum WaitOutcome {
    /// The task is completed.
    Completed,
    /// The task has not ended and time is left: look again after a pause.
    Pending,
}

} // verus!
