use crate::distributed::batch::{
    batch_dependencies, batch_run, dependencies_of, is_batch_outcome, lemma_batch_stops,
};
use crate::distributed::model::{
    best_worker, dependencies_met, fresh_worker, lemma_best_worker, lemma_load_bound,
    lemma_load_push, lemma_load_update, lemma_task_index, lemma_task_index_update,
    lemma_worker_index, load, task_index, worker_index, SchedulerModel,
};
use crate::distributed::scheduler::{lemma_ending_keeps_wf, submit_answer, submitted};
use crate::distributed::types::{ErrorModel, TaskStatus, WorkerModel, WorkerStatus};
use vstd::prelude::*;

verus! {

/// One thing that can happen to a scheduler.
pub enum Action {
    Register { address: Seq<char> },
    Submit {
        id: Seq<char>,
        input_path: Seq<char>,
        output_path: Option<Seq<char>>,
        dependencies: Seq<Seq<char>>,
    },
    Schedule { id: Seq<char> },
    Complete { id: Seq<char> },
    Fail { id: Seq<char> },
    TakeOffline { address: Seq<char> },
    ShutDown,
}

/// The scheduler after one thing happened to it.
pub open spec fn applied(s: SchedulerModel, a: Action) -> SchedulerModel {
    match a {
        Action::Register { address } => s.registered(address),
        Action::Submit { id, input_path, output_path, dependencies } => submitted(
            s,
            id,
            input_path,
            output_path,
            dependencies,
        ),
        Action::Schedule { id } => s.scheduled(id),
        Action::Complete { id } => s.completed(id),
        Action::Fail { id } => s.failed(id),
        Action::TakeOffline { address } => s.taken_offline(address),
        Action::ShutDown => s.shut_down(),
    }
}

/// Registering is idempotent: a second registration of an address right
/// after the first changes nothing.
pub proof fn lemma_register_is_idempotent(s: SchedulerModel, address: Seq<char>)
    ensures
        s.registered(address).registered(address) == s.registered(address),
{
    let once = s.registered(address);
    let w = worker_index(s.workers, address, 0);
    lemma_worker_index(s.workers, address, 0);
    lemma_worker_index(once.workers, address, 0);
    if w >= 0 {
        assert(once.workers[w].address == address);
        assert(worker_index(once.workers, address, 0) == w);
        assert(once.workers.update(w, fresh_worker(address)) =~= once.workers);
    } else {
        let n = s.workers.len() as int;
        assert(once.workers[n].address == address);
        assert forall|j: int| 0 <= j < n implies once.workers[j].address != address by {
            assert(once.workers[j] == s.workers[j]);
        }
        assert(worker_index(once.workers, address, 0) == n);
        assert(once.workers.update(n, fresh_worker(address)) =~= once.workers);
    }
}

/// Scheduling keeps a scheduler well formed.
pub proof fn lemma_scheduled_keeps_wf(s: SchedulerModel, id: Seq<char>)
    requires
        s.wf(),
    ensures
        s.scheduled(id).wf(),
{
    if s.can_schedule(id) {
        let after = s.scheduled(id);
        let i = task_index(s.tasks, id, 0);
        let w = best_worker(s.workers, s.workers.len() as int);
        lemma_task_index(s.tasks, id, 0);
        lemma_best_worker(s.workers, s.workers.len() as int);
        assert forall|k: int| 0 <= k < after.workers.len() implies (
        #[trigger] after.workers[k]).active_tasks <= load(after.tasks, after.workers[k].address) by {
            lemma_load_update(s.tasks, i, after.tasks[i], s.workers[k].address);
            assert(s.workers[k].active_tasks <= load(s.tasks, s.workers[k].address));
            if k == w {
                lemma_load_bound(after.tasks, s.workers[k].address);
            } else {
                assert(s.workers[k].address != s.workers[w].address);
            }
        }
        assert forall|a: int, b: int| 0 <= a < b < after.tasks.len() implies (
        #[trigger] after.tasks[a]).id != (#[trigger] after.tasks[b]).id by {
            assert(s.tasks[a].id != s.tasks[b].id);
        }
        assert forall|a: int, b: int| 0 <= a < b < after.workers.len() implies (
        #[trigger] after.workers[a]).address != (#[trigger] after.workers[b]).address by {
            assert(s.workers[a].address != s.workers[b].address);
        }
    }
}

/// Whatever happens to a well-formed scheduler, it stays well formed.
pub proof fn lemma_step_keeps_wf(s: SchedulerModel, a: Action)
    requires
        s.wf(),
    ensures
        applied(s, a).wf(),
{
    let after = applied(s, a);
    match a {
        Action::Register { address } => {
            lemma_worker_index(s.workers, address, 0);
            assert forall|x: int, y: int| 0 <= x < y < after.workers.len() implies (
            #[trigger] after.workers[x]).address != (#[trigger] after.workers[y]).address by {
                if x < s.workers.len() && y < s.workers.len() {
                    assert(s.workers[x].address != s.workers[y].address);
                }
            }
            assert forall|k: int| 0 <= k < after.workers.len() implies (
            #[trigger] after.workers[k]).active_tasks <= load(
                after.tasks,
                after.workers[k].address,
            ) by {
                if k < s.workers.len() {
                    assert(s.workers[k].active_tasks <= load(s.tasks, s.workers[k].address));
                }
            }
        },
        Action::Submit { id, input_path, output_path, dependencies } => {
            if task_index(s.tasks, id, 0) < 0 {
                let filed = s.enrolled(id, input_path, output_path, dependencies);
                lemma_task_index(s.tasks, id, 0);
                assert forall|k: int| 0 <= k < filed.workers.len() implies (
                #[trigger] filed.workers[k]).active_tasks <= load(
                    filed.tasks,
                    filed.workers[k].address,
                ) by {
                    lemma_load_push(s.tasks, filed.tasks.last(), filed.workers[k].address);
                    assert(s.workers[k].active_tasks <= load(s.tasks, s.workers[k].address));
                }
                assert forall|x: int, y: int| 0 <= x < y < filed.tasks.len() implies (
                #[trigger] filed.tasks[x]).id != (#[trigger] filed.tasks[y]).id by {
                    if y < s.tasks.len() {
                        assert(s.tasks[x].id != s.tasks[y].id);
                    }
                }
                lemma_scheduled_keeps_wf(filed, id);
            }
        },
        Action::Schedule { id } => {
            lemma_scheduled_keeps_wf(s, id);
        },
        Action::Complete { id } => {
            if s.is_compiling(id) {
                let i = task_index(s.tasks, id, 0);
                lemma_task_index(s.tasks, id, 0);
                lemma_ending_keeps_wf(s, i, after.tasks[i]);
            }
        },
        Action::Fail { id } => {
            if s.is_compiling(id) {
                let i = task_index(s.tasks, id, 0);
                lemma_task_index(s.tasks, id, 0);
                lemma_ending_keeps_wf(s, i, after.tasks[i]);
            }
        },
        Action::TakeOffline { address } => {
            lemma_worker_index(s.workers, address, 0);
            assert forall|x: int, y: int| 0 <= x < y < after.workers.len() implies (
            #[trigger] after.workers[x]).address != (#[trigger] after.workers[y]).address by {
                assert(s.workers[x].address != s.workers[y].address);
            }
            assert forall|k: int| 0 <= k < after.workers.len() implies (
            #[trigger] after.workers[k]).active_tasks <= load(
                after.tasks,
                after.workers[k].address,
            ) by {
                assert(s.workers[k].active_tasks <= load(s.tasks, s.workers[k].address));
            }
        },
        Action::ShutDown => {},
    }
}

/// A task that waits while one of its dependencies is not completed
/// stays where it is, as it is, whatever happens to the scheduler.
pub proof fn lemma_unmet_dependencies_keep_waiting(s: SchedulerModel, a: Action, i: int)
    requires
        s.wf(),
        0 <= i < s.tasks.len(),
        s.tasks[i].status == TaskStatus::Waiting,
        !dependencies_met(s.tasks, s.tasks[i].dependencies),
    ensures
        i < applied(s, a).tasks.len(),
        applied(s, a).tasks[i] == s.tasks[i],
{
    match a {
        Action::Submit { id, input_path, output_path, dependencies } => {
            if task_index(s.tasks, id, 0) < 0 {
                let filed = s.enrolled(id, input_path, output_path, dependencies);
                lemma_task_index(s.tasks, id, 0);
                lemma_task_index(filed.tasks, id, 0);
                assert(filed.tasks[i] == s.tasks[i]);
                assert(filed.tasks[i].id != id);
            }
        },
        Action::Schedule { id } => {
            lemma_task_index(s.tasks, id, 0);
        },
        Action::Complete { id } => {
            lemma_task_index(s.tasks, id, 0);
        },
        Action::Fail { id } => {
            lemma_task_index(s.tasks, id, 0);
        },
        _ => {},
    }
}

/// A report that a task is done completes the task, if it was being
/// compiled, and changes no other task.
pub proof fn lemma_completion(s: SchedulerModel, id: Seq<char>)
    requires
        s.is_compiling(id),
    ensures
        ({
            let i = task_index(s.tasks, id, 0);
            let after = s.completed(id);
            &&& after.tasks.len() == s.tasks.len()
            &&& task_index(after.tasks, id, 0) == i
            &&& after.tasks[i].status == TaskStatus::Completed
            &&& forall|j: int| 0 <= j < s.tasks.len() && j != i ==> after.tasks[j] == s.tasks[j]
        }),
{
    let i = task_index(s.tasks, id, 0);
    lemma_task_index(s.tasks, id, 0);
    lemma_task_index_update(s.tasks, i, s.completed(id).tasks[i], id, 0);
}

/// The scheduler after the workers reported each of the first `upto`
/// tasks of `ids` as done, in turn.
pub open spec fn all_reported(s: SchedulerModel, ids: Seq<Seq<char>>, upto: int) -> SchedulerModel
    decreases upto,
{
    if upto <= 0 {
        s
    } else {
        all_reported(s, ids, upto - 1).completed(ids[upto - 1])
    }
}

/// Once the workers have reported every one of a set of tasks that were
/// being compiled as done, each of them is completed.
pub proof fn lemma_all_reported_are_completed(s: SchedulerModel, ids: Seq<Seq<char>>, upto: int)
    requires
        0 <= upto <= ids.len(),
        forall|k: int| 0 <= k < ids.len() ==> s.is_compiling(#[trigger] ids[k]),
        forall|a: int, b: int| 0 <= a < b < ids.len() ==> ids[a] != ids[b],
    ensures
        ({
            let after = all_reported(s, ids, upto);
            &&& after.tasks.len() == s.tasks.len()
            &&& forall|k: int|
                0 <= k < ids.len() ==> task_index(after.tasks, #[trigger] ids[k], 0) == task_index(
                    s.tasks,
                    ids[k],
                    0,
                )
            &&& forall|k: int|
                0 <= k < upto ==> after.tasks[task_index(s.tasks, #[trigger] ids[k], 0)].status
                    == TaskStatus::Completed
            &&& forall|k: int|
                upto <= k < ids.len() ==> after.tasks[task_index(s.tasks, #[trigger] ids[k], 0)]
                    == s.tasks[task_index(s.tasks, ids[k], 0)]
        }),
    decreases upto,
{
    if upto > 0 {
        lemma_all_reported_are_completed(s, ids, upto - 1);
        let before = all_reported(s, ids, upto - 1);
        let id = ids[upto - 1];
        let i = task_index(s.tasks, id, 0);
        assert(s.is_compiling(id));
        lemma_task_index(s.tasks, id, 0);
        assert(before.tasks[i] == s.tasks[i]);
        assert(before.is_compiling(id));
        lemma_completion(before, id);
        let after = before.completed(id);
        assert forall|k: int| 0 <= k < ids.len() implies task_index(
            after.tasks,
            #[trigger] ids[k],
            0,
        ) == task_index(s.tasks, ids[k], 0) by {
            lemma_task_index_update(before.tasks, i, after.tasks[i], ids[k], 0);
        }
        assert forall|k: int| 0 <= k < upto implies after.tasks[task_index(
            s.tasks,
            #[trigger] ids[k],
            0,
        )].status == TaskStatus::Completed by {
            let j = task_index(s.tasks, ids[k], 0);
            assert(s.is_compiling(ids[k]));
            lemma_task_index(s.tasks, ids[k], 0);
            if k < upto - 1 {
                assert(ids[k] != id);
                assert(j != i);
            }
        }
        assert forall|k: int| upto <= k < ids.len() implies after.tasks[task_index(
            s.tasks,
            #[trigger] ids[k],
            0,
        )] == s.tasks[task_index(s.tasks, ids[k], 0)] by {
            let j = task_index(s.tasks, ids[k], 0);
            assert(s.is_compiling(ids[k]));
            lemma_task_index(s.tasks, ids[k], 0);
            assert(ids[upto - 1] != ids[k]);
            assert(j != i);
        }
    }
}

/// Whether some worker is registered that is not offline.
pub open spec fn has_worker_in_service(workers: Seq<WorkerModel>) -> bool {
    exists|w: int| 0 <= w < workers.len() && (#[trigger] workers[w]).status != WorkerStatus::Offline
}

/// A batch of inputs under fresh ids that all differ, submitted while a
/// worker is in service, does not stop: it answers with its ids, as many
/// as there are inputs; the tasks that were there stay as they were; and
/// after them comes one task for each input, in the order of the inputs,
/// under its id and with its output, at once being compiled.
pub proof fn lemma_batch_is_scheduled(
    s: SchedulerModel,
    inputs: Seq<Seq<char>>,
    ids: Seq<Seq<char>>,
    outputs: Seq<Option<Seq<char>>>,
    dependencies: Seq<Seq<Seq<char>>>,
    upto: int,
)
    requires
        s.wf(),
        0 <= upto <= ids.len(),
        inputs.len() == ids.len(),
        outputs.len() == ids.len(),
        dependencies.len() == ids.len(),
        forall|k: int| 0 <= k < ids.len() ==> (#[trigger] dependencies[k]).len() == 0,
        has_worker_in_service(s.workers),
        s.tasks.len() + ids.len() < usize::MAX,
        forall|k: int| 0 <= k < ids.len() ==> task_index(s.tasks, #[trigger] ids[k], 0) < 0,
        forall|a: int, b: int| 0 <= a < b < ids.len() ==> ids[a] != ids[b],
    ensures
        ({
            let run = batch_run(s, inputs, ids, outputs, dependencies, upto);
            &&& run.1 is None
            &&& run.0.wf()
            &&& run.0.tasks.len() == s.tasks.len() + upto
            &&& run.0.workers.len() == s.workers.len()
            &&& forall|w: int|
                0 <= w < s.workers.len() ==> (#[trigger] run.0.workers[w]).address
                    == s.workers[w].address && (run.0.workers[w].status == WorkerStatus::Offline)
                    == (s.workers[w].status == WorkerStatus::Offline)
            &&& forall|j: int| 0 <= j < s.tasks.len() ==> #[trigger] run.0.tasks[j] == s.tasks[j]
            &&& forall|k: int|
                0 <= k < upto ==> (#[trigger] run.0.tasks[s.tasks.len() + k]).id == ids[k]
                    && run.0.tasks[s.tasks.len() + k].status == TaskStatus::Compiling
                    && run.0.tasks[s.tasks.len() + k].input_path == inputs[k]
                    && run.0.tasks[s.tasks.len() + k].output_path == outputs[k]
            &&& forall|k: int| 0 <= k < upto ==> run.0.is_compiling(#[trigger] ids[k])
        }),
    decreases upto,
{
    if upto > 0 {
        lemma_batch_is_scheduled(s, inputs, ids, outputs, dependencies, upto - 1);
        let before = batch_run(s, inputs, ids, outputs, dependencies, upto - 1).0;
        assert(dependencies[upto - 1] =~= Seq::<Seq<char>>::empty());
        let id = ids[upto - 1];
        let n = s.tasks.len() as int;
        let filed = before.enrolled(id, inputs[upto - 1], outputs[upto - 1], Seq::empty());
        // the id is new to what the batch has filed so far
        assert forall|j: int| 0 <= j < before.tasks.len() implies (#[trigger] before.tasks[j]).id
            != id by {
            if j < n {
                lemma_task_index(s.tasks, id, 0);
                assert(before.tasks[j] == s.tasks[j]);
            } else {
                assert(before.tasks[n + (j - n)].id == ids[j - n]);
            }
        }
        lemma_task_index(before.tasks, id, 0);
        assert(task_index(before.tasks, id, 0) < 0);
        lemma_step_keeps_wf(
            before,
            Action::Submit {
                id,
                input_path: inputs[upto - 1],
                output_path: outputs[upto - 1],
                dependencies: Seq::empty(),
            },
        );
        // in the filed state the new task is the last one, found by its id
        lemma_task_index(filed.tasks, id, 0);
        let at = before.tasks.len() as int;
        assert(filed.tasks[at].id == id);
        assert forall|j: int| 0 <= j < at implies filed.tasks[j].id != id by {
            assert(filed.tasks[j] == before.tasks[j]);
        }
        assert(task_index(filed.tasks, id, 0) == at);
        // a worker takes it
        let witness = choose|w: int|
            0 <= w < s.workers.len() && (#[trigger] s.workers[w]).status != WorkerStatus::Offline;
        assert(filed.workers[witness].status != WorkerStatus::Offline);
        assert(before.workers[witness].active_tasks <= load(
            before.tasks,
            before.workers[witness].address,
        ));
        lemma_load_bound(before.tasks, before.workers[witness].address);
        lemma_best_worker(filed.workers, filed.workers.len() as int);
        assert(filed.can_schedule(id));
        let after = filed.scheduled(id);
        assert(after == batch_run(s, inputs, ids, outputs, dependencies, upto).0);
        let w = best_worker(filed.workers, filed.workers.len() as int);
        assert forall|k: int| 0 <= k < upto implies after.is_compiling(#[trigger] ids[k]) by {
            lemma_task_index_update(filed.tasks, at, after.tasks[at], ids[k], 0);
            if k < upto - 1 {
                assert(before.is_compiling(ids[k]));
                lemma_task_index(before.tasks, ids[k], 0);
                let j = task_index(before.tasks, ids[k], 0);
                lemma_task_index(filed.tasks, ids[k], 0);
                assert(filed.tasks[j] == before.tasks[j]);
                assert(task_index(filed.tasks, ids[k], 0) == j);
            }
        }
        assert forall|k: int| 0 <= k < upto implies (#[trigger] after.tasks[n + k]).id == ids[k]
            && after.tasks[n + k].status == TaskStatus::Compiling && after.tasks[n + k].input_path
            == inputs[k] && after.tasks[n + k].output_path == outputs[k] by {
            if k < upto - 1 {
                assert(before.tasks[n + k].id == ids[k]);
                assert(filed.tasks[n + k] == before.tasks[n + k]);
            }
        }
        assert forall|j: int| 0 <= j < n implies #[trigger] after.tasks[j] == s.tasks[j] by {
            assert(filed.tasks[j] == before.tasks[j]);
            assert(before.tasks[j] == s.tasks[j]);
        }
        assert forall|x: int| 0 <= x < s.workers.len() implies (#[trigger] after.workers[x]).address
            == s.workers[x].address && (after.workers[x].status == WorkerStatus::Offline) == (
        s.workers[x].status == WorkerStatus::Offline) by {
            assert(before.workers[x].address == s.workers[x].address);
        }
    }
}

/// Where the graph orders none of the inputs of a batch before another,
/// no task of the batch waits for another.
pub proof fn lemma_no_edges_no_dependencies(
    edges: Seq<(Seq<char>, Seq<char>)>,
    inputs: Seq<Seq<char>>,
    ids: Seq<Seq<char>>,
    k: int,
    upto: int,
)
    requires
        0 <= k < inputs.len(),
        0 <= upto <= inputs.len(),
        forall|a: int, b: int|
            0 <= a < inputs.len() && 0 <= b < inputs.len() && a != b ==> !edges.contains(
                (#[trigger] inputs[a], #[trigger] inputs[b]),
            ),
    ensures
        dependencies_of(edges, inputs, ids, k, upto).len() == 0,
    decreases upto,
{
    if upto > 0 {
        lemma_no_edges_no_dependencies(edges, inputs, ids, k, upto - 1);
        if upto - 1 != k {
            assert(!edges.contains((inputs[upto - 1], inputs[k])));
        }
    }
}

/// A batch whose inputs the graph does not order among themselves,
/// submitted under fresh ids that all differ while a worker is in
/// service: it answers with one id for each input; the tasks that were
/// there stay as they were; after them comes the task of each input,
/// under its id; and once the workers have reported each task of the
/// batch as done, every one of them is completed.
pub proof fn lemma_batch_completes(
    before: SchedulerModel,
    edges: Seq<(Seq<char>, Seq<char>)>,
    ordered: Seq<Seq<char>>,
    ids: Seq<Seq<char>>,
    outputs: Seq<Option<Seq<char>>>,
    after: SchedulerModel,
    r: Result<Seq<Seq<char>>, ErrorModel>,
)
    requires
        before.wf(),
        has_worker_in_service(before.workers),
        before.tasks.len() + ids.len() < usize::MAX,
        forall|k: int| 0 <= k < ids.len() ==> task_index(before.tasks, #[trigger] ids[k], 0) < 0,
        forall|a: int, b: int| 0 <= a < b < ids.len() ==> ids[a] != ids[b],
        forall|a: int, b: int|
            0 <= a < ordered.len() && 0 <= b < ordered.len() && a != b ==> !edges.contains(
                (#[trigger] ordered[a], #[trigger] ordered[b]),
            ),
        is_batch_outcome(before, edges, ordered, ids, outputs, after, r),
    ensures
        r == Ok::<Seq<Seq<char>>, ErrorModel>(ids),
        ids.len() == ordered.len(),
        after.wf(),
        after.tasks.len() == before.tasks.len() + ids.len(),
        forall|j: int| 0 <= j < before.tasks.len() ==> #[trigger] after.tasks[j] == before.tasks[j],
        forall|k: int|
            0 <= k < ids.len() ==> (#[trigger] after.tasks[before.tasks.len() + k]).id == ids[k]
                && after.tasks[before.tasks.len() + k].input_path == ordered[k]
                && after.tasks[before.tasks.len() + k].output_path == outputs[k],
        forall|k: int|
            0 <= k < ids.len() ==> all_reported(after, ids, ids.len() as int).tasks[task_index(
                after.tasks,
                #[trigger] ids[k],
                0,
            )].status == TaskStatus::Completed,
{
    let dependencies = batch_dependencies(edges, ordered, ids);
    assert forall|k: int| 0 <= k < ids.len() implies (#[trigger] dependencies[k]).len() == 0 by {
        lemma_no_edges_no_dependencies(edges, ordered, ids, k, ordered.len() as int);
    }
    lemma_batch_is_scheduled(before, ordered, ids, outputs, dependencies, ids.len() as int);
    lemma_all_reported_are_completed(after, ids, ids.len() as int);
}

/// What a batch has done after its first inputs depends on them, their
/// ids, their outputs and their dependencies only.
pub proof fn lemma_batch_run_reads_a_prefix(
    s: SchedulerModel,
    inputs: Seq<Seq<char>>,
    ids: Seq<Seq<char>>,
    outputs: Seq<Option<Seq<char>>>,
    dependencies: Seq<Seq<Seq<char>>>,
    upto: int,
)
    requires
        0 <= upto <= inputs.len(),
        upto <= ids.len(),
        upto <= outputs.len(),
        upto <= dependencies.len(),
    ensures
        batch_run(s, inputs, ids, outputs, dependencies, upto) == batch_run(
            s,
            inputs.subrange(0, upto),
            ids.subrange(0, upto),
            outputs.subrange(0, upto),
            dependencies.subrange(0, upto),
            upto,
        ),
{
    lemma_batch_run_agrees(
        s,
        inputs,
        ids,
        outputs,
        dependencies,
        inputs.subrange(0, upto),
        ids.subrange(0, upto),
        outputs.subrange(0, upto),
        dependencies.subrange(0, upto),
        upto,
    );
}

/// Two batches that agree on their first inputs, ids, outputs and
/// dependencies have done the same after them.
pub proof fn lemma_batch_run_agrees(
    s: SchedulerModel,
    inputs: Seq<Seq<char>>,
    ids: Seq<Seq<char>>,
    outputs: Seq<Option<Seq<char>>>,
    dependencies: Seq<Seq<Seq<char>>>,
    other_inputs: Seq<Seq<char>>,
    other_ids: Seq<Seq<char>>,
    other_outputs: Seq<Option<Seq<char>>>,
    other_dependencies: Seq<Seq<Seq<char>>>,
    upto: int,
)
    requires
        forall|k: int|
            0 <= k < upto ==> inputs[k] == other_inputs[k] && ids[k] == other_ids[k] && outputs[k]
                == other_outputs[k] && dependencies[k] == other_dependencies[k],
    ensures
        batch_run(s, inputs, ids, outputs, dependencies, upto) == batch_run(
            s,
            other_inputs,
            other_ids,
            other_outputs,
            other_dependencies,
            upto,
        ),
    decreases upto,
{
    if upto > 0 {
        lemma_batch_run_agrees(
            s,
            inputs,
            ids,
            outputs,
            dependencies,
            other_inputs,
            other_ids,
            other_outputs,
            other_dependencies,
            upto - 1,
        );
    }
}

/// A batch that did not stop was submitted under ids that were new to
/// the scheduler and that all differ: an id that is taken stops it.
pub proof fn lemma_answered_ids_are_fresh(
    s: SchedulerModel,
    inputs: Seq<Seq<char>>,
    ids: Seq<Seq<char>>,
    outputs: Seq<Option<Seq<char>>>,
    dependencies: Seq<Seq<Seq<char>>>,
    upto: int,
)
    requires
        s.wf(),
        has_worker_in_service(s.workers),
        s.tasks.len() + ids.len() < usize::MAX,
        inputs.len() == ids.len(),
        outputs.len() == ids.len(),
        dependencies.len() == ids.len(),
        forall|k: int| 0 <= k < ids.len() ==> (#[trigger] dependencies[k]).len() == 0,
        0 <= upto <= ids.len(),
        batch_run(s, inputs, ids, outputs, dependencies, ids.len() as int).1 is None,
    ensures
        forall|k: int| 0 <= k < upto ==> task_index(s.tasks, #[trigger] ids[k], 0) < 0,
        forall|a: int, b: int| 0 <= a < b < upto ==> ids[a] != ids[b],
    decreases upto,
{
    if upto > 0 {
        lemma_answered_ids_are_fresh(s, inputs, ids, outputs, dependencies, upto - 1);
        let k = upto - 1;
        let n = ids.len() as int;
        let id = ids[k];
        let before = batch_run(s, inputs, ids, outputs, dependencies, k);
        if before.1 is Some {
            lemma_batch_stops(s, inputs, ids, outputs, dependencies, k, n);
        }
        let next = batch_run(s, inputs, ids, outputs, dependencies, k + 1);
        if next.1 is Some {
            lemma_batch_stops(s, inputs, ids, outputs, dependencies, k + 1, n);
        }
        assert(submit_answer(before.0, id, inputs[k], outputs[k], dependencies[k]) is Ok);
        assert(task_index(before.0.tasks, id, 0) < 0);
        // what the batch had filed when it came to this id
        let first_inputs = inputs.subrange(0, k);
        let first_ids = ids.subrange(0, k);
        let first_outputs = outputs.subrange(0, k);
        let first_dependencies = dependencies.subrange(0, k);
        lemma_batch_run_reads_a_prefix(s, inputs, ids, outputs, dependencies, k);
        assert forall|j: int| 0 <= j < first_ids.len() implies (
        #[trigger] first_dependencies[j]).len() == 0 by {
            assert(first_dependencies[j] == dependencies[j]);
        }
        assert forall|j: int| 0 <= j < first_ids.len() implies task_index(
            s.tasks,
            #[trigger] first_ids[j],
            0,
        ) < 0 by {
            assert(first_ids[j] == ids[j]);
        }
        assert forall|a: int, b: int| 0 <= a < b < first_ids.len() implies first_ids[a]
            != first_ids[b] by {
            assert(first_ids[a] == ids[a]);
            assert(first_ids[b] == ids[b]);
        }
        lemma_batch_is_scheduled(
            s,
            first_inputs,
            first_ids,
            first_outputs,
            first_dependencies,
            k,
        );
        lemma_task_index(before.0.tasks, id, 0);
        lemma_task_index(s.tasks, id, 0);
        let at = task_index(s.tasks, id, 0);
        if at >= 0 {
            assert(before.0.tasks[at] == s.tasks[at]);
            assert(false);
        }
        assert forall|a: int| 0 <= a < k implies ids[a] != id by {
            assert(before.0.tasks[s.tasks.len() + a].id == first_ids[a]);
            assert(first_ids[a] == ids[a]);
        }
    }
}

/// A batch whose inputs the graph does not order among themselves and
/// that was answered with ids, submitted while a worker is in service:
/// the ids are as many as the inputs, they were new to the scheduler and
/// all differ; the tasks that were there stay as they were; after them
/// comes the task of each input, under its id; and once the workers have
/// reported each task of the batch as done, every one of them is
/// completed.
pub proof fn lemma_answered_batch_completes(
    before: SchedulerModel,
    edges: Seq<(Seq<char>, Seq<char>)>,
    ordered: Seq<Seq<char>>,
    ids: Seq<Seq<char>>,
    outputs: Seq<Option<Seq<char>>>,
    after: SchedulerModel,
    r: Result<Seq<Seq<char>>, ErrorModel>,
)
    requires
        before.wf(),
        has_worker_in_service(before.workers),
        before.tasks.len() + ids.len() < usize::MAX,
        forall|a: int, b: int|
            0 <= a < ordered.len() && 0 <= b < ordered.len() && a != b ==> !edges.contains(
                (#[trigger] ordered[a], #[trigger] ordered[b]),
            ),
        is_batch_outcome(before, edges, ordered, ids, outputs, after, r),
        r is Ok,
    ensures
        r == Ok::<Seq<Seq<char>>, ErrorModel>(ids),
        ids.len() == ordered.len(),
        forall|k: int| 0 <= k < ids.len() ==> task_index(before.tasks, #[trigger] ids[k], 0) < 0,
        forall|a: int, b: int| 0 <= a < b < ids.len() ==> ids[a] != ids[b],
        after.wf(),
        after.tasks.len() == before.tasks.len() + ids.len(),
        forall|j: int| 0 <= j < before.tasks.len() ==> #[trigger] after.tasks[j] == before.tasks[j],
        forall|k: int|
            0 <= k < ids.len() ==> (#[trigger] after.tasks[before.tasks.len() + k]).id == ids[k]
                && after.tasks[before.tasks.len() + k].input_path == ordered[k]
                && after.tasks[before.tasks.len() + k].output_path == outputs[k],
        forall|k: int|
            0 <= k < ids.len() ==> all_reported(after, ids, ids.len() as int).tasks[task_index(
                after.tasks,
                #[trigger] ids[k],
                0,
            )].status == TaskStatus::Completed,
{
    let dependencies = batch_dependencies(edges, ordered, ids);
    assert forall|k: int| 0 <= k < ids.len() implies (#[trigger] dependencies[k]).len() == 0 by {
        lemma_no_edges_no_dependencies(edges, ordered, ids, k, ordered.len() as int);
    }
    lemma_answered_ids_are_fresh(before, ordered, ids, outputs, dependencies, ids.len() as int);
    lemma_batch_completes(before, edges, ordered, ids, outputs, after, r);
}

} // verus!
