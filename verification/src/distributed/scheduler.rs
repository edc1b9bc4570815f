use crate::clock::now;
use crate::collections::StringMap;
use crate::distributed::model::{
    INITIAL_SCORE,
    best_worker, dependencies_met, fresh_worker, lemma_load_bound, lemma_load_push,
    lemma_load_update, lemma_task_index, lemma_worker_index, load, released, relieved,
    task_completed, task_index, worker_index, SchedulerModel, SATURATION_THRESHOLD,
};
use crate::distributed::types::{
    CompileTask, DistributedOptions, ErrorModel, SchedulerError, TaskModel, TaskStatus, WaitOutcome,
    WorkerInfo, WorkerModel, WorkerStatus,
};
use crate::text::{names_of, opt_str, opt_text, str_eq};
use crate::utils::DependencyGraph;
use vstd::prelude::*;

verus! {

/// The coordinator of distributed compilation: it files tasks, keeps a
/// registry of workers, hands each task whose dependencies are met to the
/// least loaded worker, and follows every task to its end. It does no
/// work on a file itself and waits for nothing: its caller sends the work
/// out and reports back what the workers say.
pub struct DistributedCompiler {
    pub(crate) options: DistributedOptions,
    pub(crate) tasks: Vec<CompileTask>,
    pub(crate) workers: Vec<WorkerInfo>,
    pub(crate) dependency_graph: DependencyGraph,
    pub(crate) input_sizes: StringMap<u64>,
}

/// What a scheduler is set up with and told of its inputs: its options,
/// which inputs must be compiled before which, and the sizes of inputs.
pub struct Setup {
    pub options: DistributedOptions,
    pub graph_nodes: Seq<Seq<char>>,
    pub graph_edges: Seq<(Seq<char>, Seq<char>)>,
    pub sizes: Map<Seq<char>, u64>,
}

pub open spec fn tasks_model(s: Seq<CompileTask>) -> Seq<TaskModel> {
    Seq::new(s.len(), |i: int| s[i]@)
}

pub open spec fn workers_model(s: Seq<WorkerInfo>) -> Seq<WorkerModel> {
    Seq::new(s.len(), |i: int| s[i]@)
}

impl View for DistributedCompiler {
    type V = SchedulerModel;

    closed spec fn view(&self) -> SchedulerModel {
        SchedulerModel {
            tasks: tasks_model(self.tasks@),
            workers: workers_model(self.workers@),
            max_retries: self.options.max_retries,
        }
    }
}

/// What `schedule_task` answers: the address of the worker that got the
/// task; nothing where the task stays as it is; an error where the task
/// is not there, or waits with its dependencies met and no worker takes it.
pub open spec fn schedule_answer(s: SchedulerModel, id: Seq<char>) -> Result<
    Option<Seq<char>>,
    ErrorModel,
> {
    let i = task_index(s.tasks, id, 0);
    if i < 0 {
        Err(ErrorModel::TaskNotFound(id))
    } else if s.tasks[i].status != TaskStatus::Waiting || !dependencies_met(
        s.tasks,
        s.tasks[i].dependencies,
    ) {
        Ok(None)
    } else if s.workers.len() == 0 {
        Err(ErrorModel::NoWorkers)
    } else if best_worker(s.workers, s.workers.len() as int) < 0 {
        Err(ErrorModel::NoOnlineWorker)
    } else {
        Ok(Some(s.workers[best_worker(s.workers, s.workers.len() as int)].address))
    }
}

pub open spec fn answer_model(r: Result<Option<String>, SchedulerError>) -> Result<
    Option<Seq<char>>,
    ErrorModel,
> {
    match r {
        Ok(Some(w)) => Ok(Some(w@)),
        Ok(None) => Ok(None),
        Err(e) => Err(e@),
    }
}

/// The scheduler after `submit_task_with_id`: where the id is new, the
/// task is on file and scheduling was tried; else nothing has changed.
pub open spec fn submitted(
    s: SchedulerModel,
    id: Seq<char>,
    input_path: Seq<char>,
    output_path: Option<Seq<char>>,
    dependencies: Seq<Seq<char>>,
) -> SchedulerModel {
    if task_index(s.tasks, id, 0) >= 0 {
        s
    } else {
        s.enrolled(id, input_path, output_path, dependencies).scheduled(id)
    }
}

/// What `submit_task_with_id` answers: the id, or why the task was not
/// handed to a worker although nothing but a worker was missing, or that
/// the id is taken.
pub open spec fn submit_answer(
    s: SchedulerModel,
    id: Seq<char>,
    input_path: Seq<char>,
    output_path: Option<Seq<char>>,
    dependencies: Seq<Seq<char>>,
) -> Result<Seq<char>, ErrorModel> {
    if task_index(s.tasks, id, 0) >= 0 {
        Err(ErrorModel::DuplicateTask(id))
    } else {
        match schedule_answer(s.enrolled(id, input_path, output_path, dependencies), id) {
            Ok(_) => Ok(id),
            Err(e) => Err(e),
        }
    }
}

pub open spec fn id_answer_model(r: Result<String, SchedulerError>) -> Result<Seq<char>, ErrorModel> {
    match r {
        Ok(id) => Ok(id@),
        Err(e) => Err(e@),
    }
}

/// What one look at a task that is waited for answers, `elapsed` whole
/// seconds after the wait began and with `timeout` seconds allowed.
pub open spec fn wait_answer(s: SchedulerModel, id: Seq<char>, timeout: u64, elapsed: u64) -> Result<
    WaitOutcome,
    ErrorModel,
> {
    let i = task_index(s.tasks, id, 0);
    if i < 0 {
        Err(ErrorModel::TaskNotFound(id))
    } else if s.tasks[i].status == TaskStatus::Completed {
        Ok(WaitOutcome::Completed)
    } else if s.tasks[i].status == TaskStatus::Failed {
        Err(ErrorModel::TaskFailed(id))
    } else if elapsed > timeout {
        Err(ErrorModel::Timeout(id))
    } else {
        Ok(WaitOutcome::Pending)
    }
}

pub open spec fn wait_model(r: Result<WaitOutcome, SchedulerError>) -> Result<
    WaitOutcome,
    ErrorModel,
> {
    match r {
        Ok(o) => Ok(o),
        Err(e) => Err(e@),
    }
}

/// The size that is on record for an input; zero where none is.
pub open spec fn size_of_input(sizes: Map<Seq<char>, u64>, input: Seq<char>) -> u64 {
    if sizes.contains_key(input) {
        sizes[input]
    } else {
        0
    }
}

/// The scheduler after each of `addresses` was registered in turn.
pub open spec fn registered_all(s: SchedulerModel, addresses: Seq<Seq<char>>) -> SchedulerModel
    decreases addresses.len(),
{
    if addresses.len() == 0 {
        s
    } else {
        registered_all(s, addresses.drop_last()).registered(addresses.last())
    }
}

/// The scheduler after scheduling was tried for each of its first `upto`
/// tasks in turn.
pub open spec fn swept(s: SchedulerModel, upto: int) -> SchedulerModel
    decreases upto,
{
    if upto <= 0 {
        s
    } else {
        swept(s, upto - 1).scheduled(s.tasks[upto - 1].id)
    }
}

/// The tasks among the first `upto` that such a sweep hands to a worker,
/// each with the address of its worker, in the order of the tasks.
pub open spec fn sweep_assignments(s: SchedulerModel, upto: int) -> Seq<(Seq<char>, Seq<char>)>
    decreases upto,
{
    if upto <= 0 {
        Seq::empty()
    } else {
        let rest = sweep_assignments(s, upto - 1);
        match schedule_answer(swept(s, upto - 1), s.tasks[upto - 1].id) {
            Ok(Some(worker)) => rest.push((s.tasks[upto - 1].id, worker)),
            _ => rest,
        }
    }
}

pub open spec fn assignments_model(s: Seq<(String, String)>) -> Seq<(Seq<char>, Seq<char>)> {
    Seq::new(s.len(), |i: int| (s[i].0@, s[i].1@))
}

/// Scheduling moves no task and changes no id.
pub proof fn lemma_scheduled_keeps_ids(s: SchedulerModel, id: Seq<char>)
    ensures
        s.scheduled(id).tasks.len() == s.tasks.len(),
        forall|j: int| 0 <= j < s.tasks.len() ==> (#[trigger] s.scheduled(id).tasks[j]).id == s.tasks[j].id,
        s.scheduled(id).max_retries == s.max_retries,
{
    lemma_task_index(s.tasks, id, 0);
}

/// The ids of the tasks among the first `upto` that are being compiled.
pub open spec fn compiling_ids(tasks: Seq<TaskModel>, upto: int) -> Seq<Seq<char>>
    decreases upto,
{
    if upto <= 0 {
        Seq::empty()
    } else if tasks[upto - 1].status == TaskStatus::Compiling {
        compiling_ids(tasks, upto - 1).push(tasks[upto - 1].id)
    } else {
        compiling_ids(tasks, upto - 1)
    }
}

impl DistributedCompiler {
    /// The scheduler is well formed, and no file is in its dependency
    /// graph twice.
    pub open spec fn wf(&self) -> bool {
        self@.wf() && self.setup().graph_nodes.no_duplicates()
    }

    pub closed spec fn setup(&self) -> Setup {
        Setup {
            options: self.options,
            graph_nodes: self.dependency_graph.nodes(),
            graph_edges: self.dependency_graph.edges(),
            sizes: self.input_sizes@,
        }
    }

    /// The options that the scheduler was made with.
    pub open spec fn options(&self) -> DistributedOptions {
        self.setup().options
    }

    /// Whether the setup is that of a scheduler that was told nothing of
    /// its inputs.
    pub open spec fn knows_no_input(&self) -> bool {
        self.setup().graph_nodes.len() == 0 && self.setup().graph_edges.len() == 0
            && self.setup().sizes == Map::<Seq<char>, u64>::empty()
    }

    /// How many inputs make one batch.
    pub fn batch_size(&self) -> (n: usize)
        ensures
            n == self.options().batch_size,
    {
        self.options.batch_size
    }

    /// How a batch of inputs is ordered.
    pub fn strategy(&self) -> (s: crate::distributed::types::DistributionStrategy)
        ensures
            s == self.options().strategy,
    {
        self.options.strategy
    }

    /// A scheduler with the default options, no task and no worker.
    pub fn new() -> (s: Self)
        ensures
            s.wf(),
            s@.tasks.len() == 0,
            s@.workers.len() == 0,
            s@.max_retries == 3,
            s.options().timeout_secs == 30,
            s.options().batch_size == 10,
            s.options().strategy == crate::distributed::types::DistributionStrategy::DependencyBased,
            s.options().workers@.len() == 1,
            s.options().workers@[0]@ == "localhost:8080"@,
            s.knows_no_input(),
    {
        DistributedCompiler {
            options: DistributedOptions::default_options(),
            tasks: Vec::new(),
            workers: Vec::new(),
            dependency_graph: DependencyGraph::new(),
            input_sizes: StringMap::new(),
        }
    }

    /// A scheduler with these options, no task and no worker.
    pub fn with_options(options: DistributedOptions) -> (s: Self)
        ensures
            s.wf(),
            s@.tasks.len() == 0,
            s@.workers.len() == 0,
            s@.max_retries == options.max_retries,
            s.options() == options,
            s.knows_no_input(),
    {
        DistributedCompiler {
            options,
            tasks: Vec::new(),
            workers: Vec::new(),
            dependency_graph: DependencyGraph::new(),
            input_sizes: StringMap::new(),
        }
    }

    /// Tells the scheduler which inputs must be compiled before which.
    pub fn set_dependency_graph(&mut self, graph: DependencyGraph)
        requires
            old(self).wf(),
            graph.wf(),
        ensures
            final(self).wf(),
            final(self)@ == old(self)@,
            final(self).setup() == (Setup {
                graph_nodes: graph.nodes(),
                graph_edges: graph.edges(),
                ..old(self).setup()
            }),
    {
        self.dependency_graph = graph;
    }

    /// Tells the scheduler the size of an input, in bytes.
    pub fn set_input_size(&mut self, input: &str, size: u64)
        requires
            old(self).wf(),
        ensures
            final(self).wf(),
            final(self)@ == old(self)@,
            final(self).setup() == (Setup {
                sizes: old(self).setup().sizes.insert(input@, size),
                ..old(self).setup()
            }),
    {
        self.input_sizes.insert(input.to_owned(), size);
    }

    /// The size that the scheduler was told of an input; zero where it
    /// was told none.
    pub fn input_size(&self, input: &str) -> (size: u64)
        ensures
            size == size_of_input(self.setup().sizes, input@),
    {
        match self.input_sizes.get(input) {
            Some(s) => *s,
            None => 0,
        }
    }

    /// The dependency graph that the scheduler was told.
    pub fn dependency_graph(&self) -> (graph: &DependencyGraph)
        ensures
            graph.nodes() == self.setup().graph_nodes,
            graph.edges() == self.setup().graph_edges,
    {
        &self.dependency_graph
    }

    /// The place of the task with this id.
    fn find_task(&self, id: &str) -> (r: Option<usize>)
        ensures
            match r {
                Some(i) => task_index(self@.tasks, id@, 0) == i as int && i < self.tasks.len(),
                None => task_index(self@.tasks, id@, 0) == -1,
            },
    {
        let mut i: usize = 0;
        while i < self.tasks.len()
            invariant
                i <= self.tasks.len(),
                task_index(self@.tasks, id@, 0) == task_index(self@.tasks, id@, i as int),
            decreases self.tasks.len() - i,
        {
            assert(self@.tasks[i as int] == self.tasks@[i as int]@);
            if str_eq(self.tasks[i].id.as_str(), id) {
                return Some(i);
            }
            i = i + 1;
        }
        None
    }

    /// The place of the worker with this address.
    fn find_worker(&self, address: &str) -> (r: Option<usize>)
        ensures
            match r {
                Some(i) => worker_index(self@.workers, address@, 0) == i as int && i
                    < self.workers.len(),
                None => worker_index(self@.workers, address@, 0) == -1,
            },
    {
        let mut i: usize = 0;
        while i < self.workers.len()
            invariant
                i <= self.workers.len(),
                worker_index(self@.workers, address@, 0) == worker_index(
                    self@.workers,
                    address@,
                    i as int,
                ),
            decreases self.workers.len() - i,
        {
            assert(self@.workers[i as int] == self.workers@[i as int]@);
            if str_eq(self.workers[i].address.as_str(), address) {
                return Some(i);
            }
            i = i + 1;
        }
        None
    }

    /// Registers a worker as online with no active task. A worker that
    /// was already registered under the address starts afresh.
    pub fn register_worker(&mut self, address: &str) -> (r: Result<(), SchedulerError>)
        requires
            old(self).wf(),
        ensures
            r is Ok,
            final(self)@ == old(self)@.registered(address@),
            final(self).wf(),
            final(self).setup() == old(self).setup(),
    {
        let worker = WorkerInfo {
            address: address.to_owned(),
            active_tasks: 0,
            status: WorkerStatus::Online,
            last_response_time_ms: 0,
            performance_score: INITIAL_SCORE,
        };
        proof {
            lemma_worker_index(self@.workers, address@, 0);
        }
        match self.find_worker(address) {
            Some(i) => {
                self.workers.set(i, worker);
                assert(self@.workers =~= old(self)@.workers.update(
                    i as int,
                    fresh_worker(address@),
                ));
            },
            None => {
                self.workers.push(worker);
                assert(self@.workers =~= old(self)@.workers.push(fresh_worker(address@)));
            },
        }
        assert(self@.tasks =~= old(self)@.tasks);
        Ok(())
    }

    /// Registers every worker that the options name.
    pub fn initialize(&mut self) -> (r: Result<(), SchedulerError>)
        requires
            old(self).wf(),
        ensures
            r is Ok,
            final(self)@ == registered_all(old(self)@, names_of(old(self).options().workers@)),
            final(self).wf(),
            final(self).setup() == old(self).setup(),
    {
        let mut i: usize = 0;
        let ghost names = names_of(self.options.workers@);
        assert(names.subrange(0, 0) =~= Seq::<Seq<char>>::empty());
        while i < self.options.workers.len()
            invariant
                i <= self.options.workers.len(),
                self.wf(),
                self.setup() == old(self).setup(),
                names == names_of(self.options.workers@),
                self@ == registered_all(old(self)@, names.subrange(0, i as int)),
            decreases self.options.workers.len() - i,
        {
            let address = self.options.workers[i].clone();
            let ghost prefix = names.subrange(0, i + 1);
            assert(prefix.drop_last() =~= names.subrange(0, i as int));
            assert(prefix.last() == address@);
            let _ = self.register_worker(address.as_str());
            i = i + 1;
        }
        assert(names.subrange(0, i as int) =~= names);
        Ok(())
    }

    /// Marks a registered worker as offline, so that it gets no more tasks.
    pub fn mark_worker_offline(&mut self, address: &str) -> (found: bool)
        requires
            old(self).wf(),
        ensures
            found == (worker_index(old(self)@.workers, address@, 0) >= 0),
            final(self)@ == old(self)@.taken_offline(address@),
            final(self).wf(),
            final(self).setup() == old(self).setup(),
    {
        match self.find_worker(address) {
            Some(i) => {
                self.workers[i].status = WorkerStatus::Offline;
                assert(self@.workers =~= old(self)@.taken_offline(address@).workers);
                assert(self@.tasks =~= old(self)@.tasks);
                true
            },
            None => false,
        }
    }

    /// Whether every dependency of the task is a task on file that is completed.
    pub fn check_dependencies(&self, task: &CompileTask) -> (met: bool)
        ensures
            met == dependencies_met(self@.tasks, task@.dependencies),
    {
        let mut k: usize = 0;
        while k < task.dependencies.len()
            invariant
                k <= task.dependencies.len(),
                forall|j: int| 0 <= j < k ==> task_completed(self@.tasks, #[trigger] task@.dependencies[j]),
            decreases task.dependencies.len() - k,
        {
            assert(task@.dependencies[k as int] == task.dependencies@[k as int]@);
            match self.find_task(task.dependencies[k].as_str()) {
                Some(i) => {
                    assert(self@.tasks[i as int] == self.tasks@[i as int]@);
                    if self.tasks[i].status != TaskStatus::Completed {
                        return false;
                    }
                },
                None => {
                    return false;
                },
            }
            k = k + 1;
        }
        true
    }

    /// The place of the worker that the next task goes to.
    fn find_best_worker(&self) -> (r: Option<usize>)
        ensures
            match r {
                Some(w) => best_worker(self@.workers, self@.workers.len() as int) == w as int && w
                    < self.workers.len(),
                None => best_worker(self@.workers, self@.workers.len() as int) == -1,
            },
    {
        let mut best: Option<usize> = None;
        let mut least: usize = usize::MAX;
        let mut i: usize = 0;
        while i < self.workers.len()
            invariant
                i <= self.workers.len(),
                match best {
                    Some(b) => best_worker(self@.workers, i as int) == b as int && b < i && least
                        == self@.workers[b as int].active_tasks,
                    None => best_worker(self@.workers, i as int) == -1 && least == usize::MAX,
                },
            decreases self.workers.len() - i,
        {
            assert(self@.workers[i as int] == self.workers@[i as int]@);
            if self.workers[i].status != WorkerStatus::Offline && self.workers[i].active_tasks
                < least {
                least = self.workers[i].active_tasks;
                best = Some(i);
            }
            i = i + 1;
        }
        best
    }

    /// The address of the worker that the next task goes to: of those
    /// that are not offline the one with the fewest active tasks, and of
    /// several such the one registered first.
    pub fn select_worker(&self) -> (r: Result<String, SchedulerError>)
        ensures
            match r {
                Ok(address) => {
                    let b = best_worker(self@.workers, self@.workers.len() as int);
                    b >= 0 && address@ == self@.workers[b].address
                },
                Err(e) => if self@.workers.len() == 0 {
                    e@ == ErrorModel::NoWorkers
                } else {
                    e@ == ErrorModel::NoOnlineWorker && best_worker(
                        self@.workers,
                        self@.workers.len() as int,
                    ) < 0
                },
            },
    {
        if self.workers.len() == 0 {
            return Err(SchedulerError::NoWorkers);
        }
        match self.find_best_worker() {
            Some(w) => {
                assert(self@.workers[w as int] == self.workers@[w as int]@);
                Ok(self.workers[w].address.clone())
            },
            None => Err(SchedulerError::NoOnlineWorker),
        }
    }

    /// Hands the task to a worker if it waits and its dependencies are
    /// met. On success the answer names the worker, to which the caller
    /// then sends the work.
    pub fn schedule_task(&mut self, task_id: &str) -> (r: Result<Option<String>, SchedulerError>)
        requires
            old(self).wf(),
        ensures
            final(self)@ == old(self)@.scheduled(task_id@),
            answer_model(r) == schedule_answer(old(self)@, task_id@),
            final(self).wf(),
            final(self).setup() == old(self).setup(),
    {
        let i = match self.find_task(task_id) {
            Some(i) => i,
            None => {
                return Err(SchedulerError::TaskNotFound(task_id.to_owned()));
            },
        };
        assert(self@.tasks[i as int] == self.tasks@[i as int]@);
        if self.tasks[i].status != TaskStatus::Waiting {
            return Ok(None);
        }
        if !self.check_dependencies(&self.tasks[i]) {
            return Ok(None);
        }
        if self.workers.len() == 0 {
            return Err(SchedulerError::NoWorkers);
        }
        let w = match self.find_best_worker() {
            Some(w) => w,
            None => {
                return Err(SchedulerError::NoOnlineWorker);
            },
        };
        assert(self@.workers[w as int] == self.workers@[w as int]@);
        let address = self.workers[w].address.clone();
        let ghost before = self@;
        let ghost after = before.scheduled(task_id@);
        proof {
            lemma_task_index(before.tasks, task_id@, 0);
            lemma_load_update(before.tasks, i as int, after.tasks[i as int], address@);
            lemma_load_bound(after.tasks, address@);
            assert forall|k: int| 0 <= k < after.workers.len() implies (
            #[trigger] after.workers[k]).active_tasks <= load(
                after.tasks,
                after.workers[k].address,
            ) by {
                lemma_load_update(
                    before.tasks,
                    i as int,
                    after.tasks[i as int],
                    before.workers[k].address,
                );
            }
        }
        self.tasks[i].assigned_worker = Some(address.clone());
        self.tasks[i].status = TaskStatus::Compiling;
        self.workers[w].active_tasks = self.workers[w].active_tasks + 1;
        if self.workers[w].active_tasks >= SATURATION_THRESHOLD {
            self.workers[w].status = WorkerStatus::Busy;
        }
        assert(self@.tasks =~= after.tasks);
        assert(self@.workers =~= after.workers);
        Ok(Some(address))
    }

    /// Files a new task under `task_id` and tries at once to schedule it.
    /// The task stays on file also where no worker takes it.
    pub fn submit_task_with_id(
        &mut self,
        task_id: String,
        input: &str,
        output: Option<&str>,
        dependencies: Vec<String>,
    ) -> (r: Result<String, SchedulerError>)
        requires
            old(self).wf(),
        ensures
            final(self)@ == submitted(
                old(self)@,
                task_id@,
                input@,
                opt_str(output),
                names_of(dependencies@),
            ),
            id_answer_model(r) == submit_answer(
                old(self)@,
                task_id@,
                input@,
                opt_str(output),
                names_of(dependencies@),
            ),
            final(self).wf(),
            final(self).setup() == old(self).setup(),
    {
        if self.find_task(task_id.as_str()).is_some() {
            return Err(SchedulerError::DuplicateTask(task_id));
        }
        let task = CompileTask {
            id: task_id.clone(),
            input_path: input.to_owned(),
            output_path: match output {
                Some(o) => Some(o.to_owned()),
                None => None,
            },
            assigned_worker: None,
            status: TaskStatus::Waiting,
            priority: 0,
            dependencies,
            created_at: now(),
            completed_at: None,
            retries: 0,
        };
        let ghost before = self@;
        let ghost filed = before.enrolled(
            task_id@,
            input@,
            opt_str(output),
            names_of(dependencies@),
        );
        proof {
            lemma_task_index(before.tasks, task_id@, 0);
            assert forall|k: int| 0 <= k < filed.workers.len() implies (
            #[trigger] filed.workers[k]).active_tasks <= load(filed.tasks, filed.workers[k].address) by {
                lemma_load_push(before.tasks, filed.tasks.last(), filed.workers[k].address);
            }
        }
        self.tasks.push(task);
        assert(self@.tasks =~= filed.tasks);
        assert(self@.workers =~= filed.workers);
        match self.schedule_task(task_id.as_str()) {
            Ok(_) => Ok(task_id),
            Err(e) => Err(e),
        }
    }

    /// The status of the task with this id.
    pub fn get_task_status(&self, task_id: &str) -> (r: Result<TaskStatus, SchedulerError>)
        ensures
            match r {
                Ok(status) => {
                    let i = task_index(self@.tasks, task_id@, 0);
                    i >= 0 && status == self@.tasks[i].status
                },
                Err(e) => task_index(self@.tasks, task_id@, 0) < 0 && e@
                    == ErrorModel::TaskNotFound(task_id@),
            },
    {
        match self.find_task(task_id) {
            Some(i) => {
                assert(self@.tasks[i as int] == self.tasks@[i as int]@);
                Ok(self.tasks[i].status)
            },
            None => Err(SchedulerError::TaskNotFound(task_id.to_owned())),
        }
    }

    /// The task with this id.
    pub fn get_task(&self, task_id: &str) -> (r: Option<&CompileTask>)
        ensures
            match r {
                Some(task) => {
                    let i = task_index(self@.tasks, task_id@, 0);
                    i >= 0 && task@ == self@.tasks[i]
                },
                None => task_index(self@.tasks, task_id@, 0) < 0,
            },
    {
        match self.find_task(task_id) {
            Some(i) => {
                assert(self@.tasks[i as int] == self.tasks@[i as int]@);
                Some(&self.tasks[i])
            },
            None => None,
        }
    }

    /// How many workers are registered.
    pub fn worker_count(&self) -> (n: usize)
        ensures
            n == self@.workers.len(),
    {
        self.workers.len()
    }

    /// What the registry knows of the worker at this address.
    pub fn get_worker(&self, address: &str) -> (r: Option<&WorkerInfo>)
        ensures
            match r {
                Some(worker) => {
                    let i = worker_index(self@.workers, address@, 0);
                    i >= 0 && worker@ == self@.workers[i]
                },
                None => worker_index(self@.workers, address@, 0) < 0,
            },
    {
        match self.find_worker(address) {
            Some(i) => {
                assert(self@.workers[i as int] == self.workers@[i as int]@);
                Some(&self.workers[i])
            },
            None => None,
        }
    }

    /// The address of the worker that the task is assigned to.
    pub fn assigned_worker(&self, task_id: &str) -> (r: Option<String>)
        ensures
            match r {
                Some(address) => {
                    let i = task_index(self@.tasks, task_id@, 0);
                    i >= 0 && self@.tasks[i].assigned_worker == Some(address@)
                },
                None => {
                    let i = task_index(self@.tasks, task_id@, 0);
                    i < 0 || self@.tasks[i].assigned_worker is None
                },
            },
    {
        match self.find_task(task_id) {
            Some(i) => {
                assert(self@.tasks[i as int] == self.tasks@[i as int]@);
                match &self.tasks[i].assigned_worker {
                    Some(a) => Some(a.clone()),
                    None => None,
                }
            },
            None => None,
        }
    }

    /// Relieves the worker at `address`, if it is registered, of one task.
    fn release_worker(&mut self, assigned: &Option<String>)
        ensures
            final(self)@.workers == released(old(self)@.workers, opt_text(*assigned)),
            final(self)@.tasks == old(self)@.tasks,
            final(self)@.max_retries == old(self)@.max_retries,
            final(self).setup() == old(self).setup(),
    {
        if let Some(address) = assigned {
            if let Some(w) = self.find_worker(address.as_str()) {
                assert(self@.workers[w as int] == self.workers@[w as int]@);
                if self.workers[w].active_tasks > 0 {
                    self.workers[w].active_tasks = self.workers[w].active_tasks - 1;
                }
                if self.workers[w].active_tasks < SATURATION_THRESHOLD {
                    self.workers[w].status = WorkerStatus::Online;
                }
                assert(self@.workers =~= released(old(self)@.workers, Some(address@)));
            }
        }
        assert(self@.tasks =~= old(self)@.tasks);
    }

    /// Takes the report of a worker that a task is done: the task is
    /// completed, with the moment of the report, and its worker is
    /// relieved of it. A report on a task that is not being compiled
    /// changes nothing.
    pub fn complete_task(&mut self, task_id: &str) -> (done: bool)
        requires
            old(self).wf(),
        ensures
            done == old(self)@.is_compiling(task_id@),
            final(self)@ == old(self)@.completed(task_id@),
            final(self).wf(),
            final(self).setup() == old(self).setup(),
    {
        let i = match self.find_task(task_id) {
            Some(i) => i,
            None => {
                return false;
            },
        };
        assert(self@.tasks[i as int] == self.tasks@[i as int]@);
        if self.tasks[i].status != TaskStatus::Compiling {
            return false;
        }
        let assigned = match &self.tasks[i].assigned_worker {
            Some(a) => Some(a.clone()),
            None => None,
        };
        let ghost before = self@;
        let ghost after = before.completed(task_id@);
        proof {
            lemma_ending_keeps_wf(before, i as int, after.tasks[i as int]);
        }
        self.tasks[i].status = TaskStatus::Completed;
        self.tasks[i].completed_at = Some(now());
        assert(self@.tasks =~= after.tasks);
        self.release_worker(&assigned);
        true
    }

    /// Takes the report of a worker that a task has failed: its worker is
    /// relieved of it, and the task waits again, to be scheduled anew, or
    /// has failed for good where its retries are used up. A report on a
    /// task that is not being compiled changes nothing.
    pub fn fail_task(&mut self, task_id: &str) -> (done: bool)
        requires
            old(self).wf(),
        ensures
            done == old(self)@.is_compiling(task_id@),
            final(self)@ == old(self)@.failed(task_id@),
            final(self).wf(),
            final(self).setup() == old(self).setup(),
    {
        let i = match self.find_task(task_id) {
            Some(i) => i,
            None => {
                return false;
            },
        };
        assert(self@.tasks[i as int] == self.tasks@[i as int]@);
        if self.tasks[i].status != TaskStatus::Compiling {
            return false;
        }
        let assigned = match &self.tasks[i].assigned_worker {
            Some(a) => Some(a.clone()),
            None => None,
        };
        let ghost before = self@;
        let ghost after = before.failed(task_id@);
        proof {
            lemma_ending_keeps_wf(before, i as int, after.tasks[i as int]);
        }
        if self.tasks[i].retries < self.options.max_retries {
            self.tasks[i].retries = self.tasks[i].retries + 1;
            self.tasks[i].status = TaskStatus::Waiting;
            self.tasks[i].assigned_worker = None;
        } else {
            self.tasks[i].status = TaskStatus::Failed;
        }
        assert(self@.tasks =~= after.tasks);
        self.release_worker(&assigned);
        true
    }

    /// One look at a task that is waited for, `elapsed_secs` whole seconds
    /// after the wait began. Where the caller names no time allowed, that
    /// of the options holds. On `Pending` the caller pauses and looks again.
    pub fn wait_for_completion(
        &self,
        task_id: &str,
        timeout_secs: Option<u64>,
        elapsed_secs: u64,
    ) -> (r: Result<WaitOutcome, SchedulerError>)
        ensures
            wait_model(r) == wait_answer(
                self@,
                task_id@,
                match timeout_secs {
                    Some(t) => t,
                    None => self.options().timeout_secs,
                },
                elapsed_secs,
            ),
    {
        let timeout = match timeout_secs {
            Some(t) => t,
            None => self.options.timeout_secs,
        };
        let status = match self.get_task_status(task_id) {
            Ok(s) => s,
            Err(e) => {
                return Err(e);
            },
        };
        match status {
            TaskStatus::Completed => Ok(WaitOutcome::Completed),
            TaskStatus::Failed => Err(SchedulerError::TaskFailed(task_id.to_owned())),
            _ => {
                if elapsed_secs > timeout {
                    Err(SchedulerError::Timeout(task_id.to_owned()))
                } else {
                    Ok(WaitOutcome::Pending)
                }
            },
        }
    }

    /// The ids of the tasks that are being compiled, in the order in
    /// which the tasks were submitted.
    pub fn compiling_tasks(&self) -> (ids: Vec<String>)
        ensures
            names_of(ids@) == compiling_ids(self@.tasks, self@.tasks.len() as int),
    {
        let mut ids: Vec<String> = Vec::new();
        let mut i: usize = 0;
        assert(names_of(ids@) =~= compiling_ids(self@.tasks, 0));
        while i < self.tasks.len()
            invariant
                i <= self.tasks.len(),
                names_of(ids@) == compiling_ids(self@.tasks, i as int),
            decreases self.tasks.len() - i,
        {
            let ghost seen = names_of(ids@);
            assert(self@.tasks[i as int] == self.tasks@[i as int]@);
            if self.tasks[i].status == TaskStatus::Compiling {
                ids.push(self.tasks[i].id.clone());
                assert(names_of(ids@) =~= seen.push(self.tasks@[i as int].id@));
            }
            i = i + 1;
        }
        ids
    }

    /// Tries to schedule every task, in the order in which the tasks
    /// were submitted, and returns the tasks that were handed to a worker,
    /// each with the address of its worker, to which the caller then
    /// sends the work. This is how tasks get going whose dependencies
    /// were completed, or for which no worker was there, since they were
    /// last looked at.
    pub fn schedule_ready_tasks(&mut self) -> (assigned: Vec<(String, String)>)
        requires
            old(self).wf(),
        ensures
            final(self)@ == swept(old(self)@, old(self)@.tasks.len() as int),
            assignments_model(assigned@) == sweep_assignments(
                old(self)@,
                old(self)@.tasks.len() as int,
            ),
            final(self).wf(),
            final(self).setup() == old(self).setup(),
    {
        let mut assigned: Vec<(String, String)> = Vec::new();
        let mut i: usize = 0;
        let count = self.tasks.len();
        assert(assignments_model(assigned@) =~= sweep_assignments(old(self)@, 0));
        while i < count
            invariant
                i <= count,
                count == old(self)@.tasks.len(),
                self.wf(),
                self.setup() == old(self).setup(),
                self@ == swept(old(self)@, i as int),
                self@.tasks.len() == count,
                forall|j: int| 0 <= j < count ==> (#[trigger] self@.tasks[j]).id == old(self)@.tasks[j].id,
                assignments_model(assigned@) == sweep_assignments(old(self)@, i as int),
            decreases count - i,
        {
            let ghost seen = assignments_model(assigned@);
            let ghost here = self@;
            assert(self.tasks.len() == count);
            assert(self@.tasks[i as int] == self.tasks@[i as int]@);
            let id = self.tasks[i].id.clone();
            proof {
                lemma_scheduled_keeps_ids(here, id@);
            }
            match self.schedule_task(id.as_str()) {
                Ok(Some(worker)) => {
                    assigned.push((id, worker));
                    assert(assignments_model(assigned@) =~= seen.push((id@, worker@)));
                },
                _ => {},
            }
            i = i + 1;
        }
        assigned
    }

    /// Empties the registry of workers. No task is touched: one that
    /// waits goes on waiting.
    pub fn shutdown(&mut self) -> (r: Result<(), SchedulerError>)
        requires
            old(self).wf(),
        ensures
            r is Ok,
            final(self)@ == old(self)@.shut_down(),
            final(self).wf(),
            final(self).setup() == old(self).setup(),
    {
        self.workers.clear();
        assert(self@.workers =~= Seq::<WorkerModel>::empty());
        assert(self@.tasks =~= old(self)@.tasks);
        Ok(())
    }
}

/// When a task that is being compiled ends, whatever it becomes, and its
/// worker is relieved of it, no worker counts more active tasks than
/// tasks are being compiled by it.
pub proof fn lemma_ending_keeps_wf(s: SchedulerModel, i: int, ended: TaskModel)
    requires
        s.wf(),
        0 <= i < s.tasks.len(),
        s.tasks[i].status == TaskStatus::Compiling,
        ended.status != TaskStatus::Compiling,
        ended.id == s.tasks[i].id,
    ensures
        (SchedulerModel {
            tasks: s.tasks.update(i, ended),
            workers: released(s.workers, s.tasks[i].assigned_worker),
            ..s
        }).wf(),
{
    let tasks = s.tasks.update(i, ended);
    let workers = released(s.workers, s.tasks[i].assigned_worker);
    let after = SchedulerModel { tasks, workers, ..s };
    match s.tasks[i].assigned_worker {
        Some(address) => {
            lemma_worker_index(s.workers, address, 0);
        },
        None => {},
    }
    assert forall|k: int| 0 <= k < workers.len() implies (#[trigger] workers[k]).active_tasks
        <= load(tasks, workers[k].address) by {
        lemma_load_update(s.tasks, i, ended, s.workers[k].address);
        assert(s.workers[k].active_tasks <= load(s.tasks, s.workers[k].address));
    }
    assert forall|a: int, b: int| 0 <= a < b < tasks.len() implies (#[trigger] tasks[a]).id != (
    #[trigger] tasks[b]).id by {
        assert(s.tasks[a].id != s.tasks[b].id);
    }
    assert forall|a: int, b: int| 0 <= a < b < workers.len() implies (
    #[trigger] workers[a]).address != (#[trigger] workers[b]).address by {
        assert(s.workers[a].address != s.workers[b].address);
    }
}

} // verus!
