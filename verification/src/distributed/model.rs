use crate::distributed::types::{TaskModel, TaskStatus, WorkerModel, WorkerStatus};
use vstd::prelude::*;

verus! {

/// The number of active tasks from which a worker counts as busy.
pub const SATURATION_THRESHOLD: usize = 10;

/// The first place from `from` on where a task has the id, or -1.
pub open spec fn task_index(tasks: Seq<TaskModel>, id: Seq<char>, from: int) -> int
    decreases tasks.len() - from,
{
    if from < 0 || from >= tasks.len() {
        -1
    } else if tasks[from].id == id {
        from
    } else {
        task_index(tasks, id, from + 1)
    }
}

/// The first place from `from` on where a worker has the address, or -1.
pub open spec fn worker_index(workers: Seq<WorkerModel>, address: Seq<char>, from: int) -> int
    decreases workers.len() - from,
{
    if from < 0 || from >= workers.len() {
        -1
    } else if workers[from].address == address {
        from
    } else {
        worker_index(workers, address, from + 1)
    }
}

/// Whether a task is being compiled by the worker at `address`.
pub open spec fn occupies(t: TaskModel, address: Seq<char>) -> bool {
    t.status == TaskStatus::Compiling && t.assigned_worker == Some(address)
}

/// How many tasks the worker at `address` is compiling.
pub open spec fn load(tasks: Seq<TaskModel>, address: Seq<char>) -> nat
    decreases tasks.len(),
{
    if tasks.len() == 0 {
        0
    } else {
        load(tasks.drop_last(), address) + if occupies(tasks.last(), address) {
            1nat
        } else {
            0nat
        }
    }
}

/// Whether the task with this id is there and completed.
pub open spec fn task_completed(tasks: Seq<TaskModel>, id: Seq<char>) -> bool {
    let i = task_index(tasks, id, 0);
    i >= 0 && tasks[i].status == TaskStatus::Completed
}

/// Whether each of the dependencies is a task that is there and
/// completed. A dependency that names no task is not met.
pub open spec fn dependencies_met(tasks: Seq<TaskModel>, dependencies: Seq<Seq<char>>) -> bool {
    forall|k: int| 0 <= k < dependencies.len() ==> task_completed(tasks, #[trigger] dependencies[k])
}

/// The worker that the next task goes to, among the first `upto`: the
/// first of those with the fewest active tasks that are not offline;
/// -1 where there is none.
pub open spec fn best_worker(workers: Seq<WorkerModel>, upto: int) -> int
    decreases upto,
{
    if upto <= 0 {
        -1
    } else {
        let best = best_worker(workers, upto - 1);
        let least = if best < 0 {
            usize::MAX
        } else {
            workers[best].active_tasks
        };
        if workers[upto - 1].status != WorkerStatus::Offline && workers[upto - 1].active_tasks
            < least {
            upto - 1
        } else {
            best
        }
    }
}

/// The score that a worker has when it is registered.
pub const INITIAL_SCORE: u64 = 1000;

/// A worker as it is right after it was registered: in service, with no
/// task, no measured latency and the initial score.
pub open spec fn fresh_worker(address: Seq<char>) -> WorkerModel {
    WorkerModel {
        address,
        active_tasks: 0,
        status: WorkerStatus::Online,
        last_response_time_ms: 0,
        performance_score: INITIAL_SCORE,
    }
}

/// A task as it is right after it was submitted.
pub open spec fn fresh_task(
    id: Seq<char>,
    input_path: Seq<char>,
    output_path: Option<Seq<char>>,
    dependencies: Seq<Seq<char>>,
) -> TaskModel {
    TaskModel {
        id,
        input_path,
        output_path,
        assigned_worker: None,
        status: TaskStatus::Waiting,
        priority: 0,
        dependencies,
        has_completion_time: false,
        retries: 0,
    }
}

/// A worker after it was given one more task.
pub open spec fn charged(w: WorkerModel) -> WorkerModel {
    WorkerModel {
        active_tasks: (w.active_tasks + 1) as usize,
        status: if w.active_tasks + 1 >= SATURATION_THRESHOLD {
            WorkerStatus::Busy
        } else {
            w.status
        },
        ..w
    }
}

/// A worker after one of its tasks ended.
pub open spec fn relieved(w: WorkerModel) -> WorkerModel {
    let active: usize = if w.active_tasks > 0 {
        (w.active_tasks - 1) as usize
    } else {
        0
    };
    WorkerModel {
        active_tasks: active,
        status: if active < SATURATION_THRESHOLD {
            WorkerStatus::Online
        } else {
            w.status
        },
        ..w
    }
}

/// The registry after the worker that a task was assigned to, if it is
/// still registered, was relieved of it.
pub open spec fn released(workers: Seq<WorkerModel>, assigned: Option<Seq<char>>) -> Seq<
    WorkerModel,
> {
    match assigned {
        Some(address) => {
            let w = worker_index(workers, address, 0);
            if w >= 0 {
                workers.update(w, relieved(workers[w]))
            } else {
                workers
            }
        },
        None => workers,
    }
}

/// The mathematical value of a scheduler: its tasks in the order in which
/// they were submitted, its workers in the order in which they were
/// registered, and how often a failed task is tried again.
pub struct SchedulerModel {
    pub tasks: Seq<TaskModel>,
    pub workers: Seq<WorkerModel>,
    pub max_retries: usize,
}

impl SchedulerModel {
    /// No two tasks share an id, no two workers an address, and no worker
    /// counts more active tasks than tasks are being compiled by it.
    pub open spec fn wf(self) -> bool {
        &&& forall|i: int, j: int|
            0 <= i < j < self.tasks.len() ==> (#[trigger] self.tasks[i]).id != (
            #[trigger] self.tasks[j]).id
        &&& forall|i: int, j: int|
            0 <= i < j < self.workers.len() ==> (#[trigger] self.workers[i]).address != (
            #[trigger] self.workers[j]).address
        &&& forall|w: int|
            0 <= w < self.workers.len() ==> (#[trigger] self.workers[w]).active_tasks <= load(
                self.tasks,
                self.workers[w].address,
            )
    }

    /// After `register_worker`: the worker is online with no active task,
    /// in the place of an earlier entry for the address or after the others.
    pub open spec fn registered(self, address: Seq<char>) -> SchedulerModel {
        let w = worker_index(self.workers, address, 0);
        SchedulerModel {
            workers: if w >= 0 {
                self.workers.update(w, fresh_worker(address))
            } else {
                self.workers.push(fresh_worker(address))
            },
            ..self
        }
    }

    /// After a task was put on file: it waits, after the tasks already there.
    pub open spec fn enrolled(
        self,
        id: Seq<char>,
        input_path: Seq<char>,
        output_path: Option<Seq<char>>,
        dependencies: Seq<Seq<char>>,
    ) -> SchedulerModel {
        SchedulerModel {
            tasks: self.tasks.push(fresh_task(id, input_path, output_path, dependencies)),
            ..self
        }
    }

    /// Whether scheduling the task with this id would hand it to a worker:
    /// it is there, it waits, its dependencies are met, and a worker takes it.
    pub open spec fn can_schedule(self, id: Seq<char>) -> bool {
        let i = task_index(self.tasks, id, 0);
        &&& i >= 0
        &&& self.tasks[i].status == TaskStatus::Waiting
        &&& dependencies_met(self.tasks, self.tasks[i].dependencies)
        &&& best_worker(self.workers, self.workers.len() as int) >= 0
    }

    /// After `schedule_task`: where the task can be scheduled it is being
    /// compiled by the best worker, which counts one task more; else
    /// nothing has changed.
    pub open spec fn scheduled(self, id: Seq<char>) -> SchedulerModel {
        if self.can_schedule(id) {
            let i = task_index(self.tasks, id, 0);
            let w = best_worker(self.workers, self.workers.len() as int);
            SchedulerModel {
                tasks: self.tasks.update(
                    i,
                    TaskModel {
                        assigned_worker: Some(self.workers[w].address),
                        status: TaskStatus::Compiling,
                        ..self.tasks[i]
                    },
                ),
                workers: self.workers.update(w, charged(self.workers[w])),
                ..self
            }
        } else {
            self
        }
    }

    /// Whether the task with this id is there and being compiled.
    pub open spec fn is_compiling(self, id: Seq<char>) -> bool {
        let i = task_index(self.tasks, id, 0);
        i >= 0 && self.tasks[i].status == TaskStatus::Compiling
    }

    /// After a worker reported the task as done: where the task was being
    /// compiled it is completed and its worker is relieved of it; else
    /// nothing has changed.
    pub open spec fn completed(self, id: Seq<char>) -> SchedulerModel {
        if self.is_compiling(id) {
            let i = task_index(self.tasks, id, 0);
            SchedulerModel {
                tasks: self.tasks.update(
                    i,
                    TaskModel {
                        status: TaskStatus::Completed,
                        has_completion_time: true,
                        ..self.tasks[i]
                    },
                ),
                workers: released(self.workers, self.tasks[i].assigned_worker),
                ..self
            }
        } else {
            self
        }
    }

    /// After a worker reported the task as failed: where the task was
    /// being compiled its worker is relieved of it, and the task waits
    /// again, with one retry more, or, where its retries are used up, has
    /// failed for good; else nothing has changed.
    pub open spec fn failed(self, id: Seq<char>) -> SchedulerModel {
        if self.is_compiling(id) {
            let i = task_index(self.tasks, id, 0);
            let t = self.tasks[i];
            SchedulerModel {
                tasks: self.tasks.update(
                    i,
                    if t.retries < self.max_retries {
                        TaskModel {
                            status: TaskStatus::Waiting,
                            assigned_worker: None,
                            retries: (t.retries + 1) as usize,
                            ..t
                        }
                    } else {
                        TaskModel { status: TaskStatus::Failed, ..t }
                    },
                ),
                workers: released(self.workers, t.assigned_worker),
                ..self
            }
        } else {
            self
        }
    }

    /// After a worker was marked as offline.
    pub open spec fn taken_offline(self, address: Seq<char>) -> SchedulerModel {
        let w = worker_index(self.workers, address, 0);
        if w >= 0 {
            SchedulerModel {
                workers: self.workers.update(
                    w,
                    WorkerModel { status: WorkerStatus::Offline, ..self.workers[w] },
                ),
                ..self
            }
        } else {
            self
        }
    }

    /// After `shutdown`: no worker is registered; the tasks are as they were.
    pub open spec fn shut_down(self) -> SchedulerModel {
        SchedulerModel { workers: Seq::empty(), ..self }
    }
}

/// A place that `task_index` gives holds the id, and no place before it does.
pub proof fn lemma_task_index(tasks: Seq<TaskModel>, id: Seq<char>, from: int)
    requires
        0 <= from,
    ensures
        ({
            let i = task_index(tasks, id, from);
            &&& i == -1 || (from <= i < tasks.len() && tasks[i].id == id)
            &&& forall|j: int| from <= j < tasks.len() && (i == -1 || j < i) ==> tasks[j].id != id
        }),
    decreases tasks.len() - from,
{
    if from < tasks.len() && tasks[from].id != id {
        lemma_task_index(tasks, id, from + 1);
    }
}

/// A place that `worker_index` gives holds the address, and no place
/// before it does.
pub proof fn lemma_worker_index(workers: Seq<WorkerModel>, address: Seq<char>, from: int)
    requires
        0 <= from,
    ensures
        ({
            let i = worker_index(workers, address, from);
            &&& i == -1 || (from <= i < workers.len() && workers[i].address == address)
            &&& forall|j: int|
                from <= j < workers.len() && (i == -1 || j < i) ==> workers[j].address != address
        }),
    decreases workers.len() - from,
{
    if from < workers.len() && workers[from].address != address {
        lemma_worker_index(workers, address, from + 1);
    }
}

/// With ids that differ, the task at place `i` is the one that its id finds.
pub proof fn lemma_task_index_of_place(tasks: Seq<TaskModel>, i: int)
    requires
        0 <= i < tasks.len(),
        forall|a: int, b: int|
            0 <= a < b < tasks.len() ==> (#[trigger] tasks[a]).id != (#[trigger] tasks[b]).id,
    ensures
        task_index(tasks, tasks[i].id, 0) == i,
{
    lemma_task_index(tasks, tasks[i].id, 0);
}

/// A change to a task that keeps its id moves no id.
pub proof fn lemma_task_index_update(
    tasks: Seq<TaskModel>,
    i: int,
    t: TaskModel,
    id: Seq<char>,
    from: int,
)
    requires
        0 <= i < tasks.len(),
        t.id == tasks[i].id,
        0 <= from,
    ensures
        task_index(tasks.update(i, t), id, from) == task_index(tasks, id, from),
    decreases tasks.len() - from,
{
    if from < tasks.len() {
        if tasks[from].id != id {
            lemma_task_index_update(tasks, i, t, id, from + 1);
        }
    }
}

/// A change to a worker that keeps its address moves no address.
pub proof fn lemma_worker_index_update(
    workers: Seq<WorkerModel>,
    i: int,
    w: WorkerModel,
    address: Seq<char>,
    from: int,
)
    requires
        0 <= i < workers.len(),
        w.address == workers[i].address,
        0 <= from,
    ensures
        worker_index(workers.update(i, w), address, from) == worker_index(workers, address, from),
    decreases workers.len() - from,
{
    if from < workers.len() {
        if workers[from].address != address {
            lemma_worker_index_update(workers, i, w, address, from + 1);
        }
    }
}

/// A worker compiles no more tasks than there are.
pub proof fn lemma_load_bound(tasks: Seq<TaskModel>, address: Seq<char>)
    ensures
        load(tasks, address) <= tasks.len(),
    decreases tasks.len(),
{
    if tasks.len() > 0 {
        lemma_load_bound(tasks.drop_last(), address);
    }
}

/// A new task that waits adds to no load.
pub proof fn lemma_load_push(tasks: Seq<TaskModel>, t: TaskModel, address: Seq<char>)
    ensures
        load(tasks.push(t), address) == load(tasks, address) + if occupies(t, address) {
            1nat
        } else {
            0nat
        },
{
    assert(tasks.push(t).drop_last() =~= tasks);
}

/// What a change to one task does to a load.
pub proof fn lemma_load_update(tasks: Seq<TaskModel>, i: int, t: TaskModel, address: Seq<char>)
    requires
        0 <= i < tasks.len(),
    ensures
        load(tasks.update(i, t), address) + (if occupies(tasks[i], address) {
            1nat
        } else {
            0nat
        }) == load(tasks, address) + (if occupies(t, address) {
            1nat
        } else {
            0nat
        }),
    decreases tasks.len(),
{
    let changed = tasks.update(i, t);
    if i == tasks.len() - 1 {
        assert(changed.drop_last() =~= tasks.drop_last());
    } else {
        assert(changed.drop_last() =~= tasks.drop_last().update(i, t));
        assert(changed.last() == tasks.last());
        lemma_load_update(tasks.drop_last(), i, t, address);
    }
}

/// The worker that `best_worker` gives takes work, and no worker that
/// takes work has fewer active tasks, nor as few and an earlier place.
pub proof fn lemma_best_worker(workers: Seq<WorkerModel>, upto: int)
    requires
        0 <= upto <= workers.len(),
    ensures
        ({
            let b = best_worker(workers, upto);
            &&& -1 <= b < upto
            &&& b >= 0 ==> workers[b].status != WorkerStatus::Offline && workers[b].active_tasks
                < usize::MAX
            &&& forall|j: int|
                0 <= j < upto && workers[j].status != WorkerStatus::Offline && workers[j].active_tasks
                    < usize::MAX ==> b >= 0 && workers[b].active_tasks <= workers[j].active_tasks
                    && (workers[b].active_tasks == workers[j].active_tasks ==> b <= j)
        }),
    decreases upto,
{
    if upto > 0 {
        lemma_best_worker(workers, upto - 1);
    }
}

} // verus!
