use lumen::distributed::ids::{generate_uuid, task_id_from};
use lumen::distributed::{
    DistributedCompiler, DistributedOptions, DistributionStrategy, SchedulerError, TaskStatus,
    WaitOutcome, WorkerStatus,
};
use lumen::utils::DependencyGraph;

fn scheduler_with(workers: &[&str]) -> DistributedCompiler {
    let mut s = DistributedCompiler::new();
    for w in workers {
        s.register_worker(w).unwrap();
    }
    s
}

fn submit(s: &mut DistributedCompiler, id: &str) -> Result<String, SchedulerError> {
    s.submit_task_with_id(id.to_string(), "in.js", None, Vec::new())
}

#[test]
fn a_task_waits_for_its_dependency() {
    let mut s = scheduler_with(&["w1", "w2"]);
    let a = s.submit_task("a.js", None).unwrap();
    let b = s.submit_task_with_dependencies("b.js", Some("b.out.js"), vec![a.clone()]).unwrap();
    assert_eq!(s.get_task_status(&a), Ok(TaskStatus::Compiling));
    assert_eq!(s.get_task_status(&b), Ok(TaskStatus::Waiting));
    assert_eq!(s.schedule_task(&b), Ok(None));
    assert_eq!(s.get_task_status(&b), Ok(TaskStatus::Waiting));
    assert_eq!(s.assigned_worker(&b), None);
    assert!(s.complete_task(&a));
    assert_eq!(s.get_task_status(&a), Ok(TaskStatus::Completed));
    assert_eq!(s.get_task_status(&b), Ok(TaskStatus::Waiting));
    let worker = s.schedule_task(&b).unwrap();
    assert!(worker.is_some());
    assert_eq!(s.get_task_status(&b), Ok(TaskStatus::Compiling));
    assert_eq!(s.assigned_worker(&b), worker);
}

#[test]
fn a_dependency_that_is_not_on_file_is_not_met() {
    let mut s = scheduler_with(&["w1"]);
    let id = s
        .submit_task_with_id("t".to_string(), "t.js", None, vec!["ghost".to_string()])
        .unwrap();
    assert_eq!(id, "t");
    assert_eq!(s.get_task_status("t"), Ok(TaskStatus::Waiting));
    assert_eq!(s.schedule_task("t"), Ok(None));
    let task = s.get_task("t").unwrap().clone();
    assert!(!s.check_dependencies(&task));
    submit(&mut s, "ghost").unwrap();
    assert!(!s.check_dependencies(&task));
    s.complete_task("ghost");
    assert!(s.check_dependencies(&task));
}

#[test]
fn the_least_loaded_worker_gets_the_next_task() {
    let mut s = scheduler_with(&["w2"]);
    for i in 0..5 {
        submit(&mut s, &format!("t{}", i)).unwrap();
    }
    s.register_worker("w1").unwrap();
    assert_eq!(s.get_worker("w1").unwrap().active_tasks, 0);
    assert_eq!(s.get_worker("w2").unwrap().active_tasks, 5);
    assert_eq!(s.select_worker(), Ok("w1".to_string()));
    submit(&mut s, "next").unwrap();
    assert_eq!(s.assigned_worker("next"), Some("w1".to_string()));
    assert_eq!(s.get_worker("w1").unwrap().active_tasks, 1);
}

#[test]
fn of_equally_loaded_workers_the_first_registered_is_taken() {
    let mut s = scheduler_with(&["b", "a", "c"]);
    assert_eq!(s.select_worker(), Ok("b".to_string()));
    submit(&mut s, "t1").unwrap();
    submit(&mut s, "t2").unwrap();
    submit(&mut s, "t3").unwrap();
    submit(&mut s, "t4").unwrap();
    assert_eq!(s.assigned_worker("t1"), Some("b".to_string()));
    assert_eq!(s.assigned_worker("t2"), Some("a".to_string()));
    assert_eq!(s.assigned_worker("t3"), Some("c".to_string()));
    assert_eq!(s.assigned_worker("t4"), Some("b".to_string()));
}

#[test]
fn a_batch_gives_one_id_for_each_input_and_all_complete() {
    let mut s = scheduler_with(&["w1"]);
    let inputs = vec!["src/a.ts".to_string(), "src/b.jsx".to_string(), "c".to_string()];
    let ids = s.submit_batch(inputs, Some("out".to_string())).unwrap();
    assert_eq!(ids.len(), 3);
    assert_eq!(s.compiling_tasks(), ids);
    let outputs: Vec<Option<String>> =
        ids.iter().map(|id| s.get_task(id).unwrap().output_path.clone()).collect();
    assert_eq!(
        outputs,
        vec![Some("out/a.js".to_string()), Some("out/b.js".to_string()), Some("out/c.js".to_string())]
    );
    let inputs: Vec<String> = ids.iter().map(|id| s.get_task(id).unwrap().input_path.clone()).collect();
    assert_eq!(inputs, vec!["src/a.ts", "src/b.jsx", "c"]);
    for id in &ids {
        assert_eq!(s.get_task_status(id), Ok(TaskStatus::Compiling));
        assert!(s.complete_task(id));
    }
    for id in &ids {
        assert_eq!(s.get_task_status(id), Ok(TaskStatus::Completed));
        assert!(s.get_task(id).unwrap().completed_at.is_some());
    }
    assert!(s.compiling_tasks().is_empty());
    assert_eq!(s.get_worker("w1").unwrap().active_tasks, 0);
}

#[test]
fn a_batch_under_given_ids_spans_several_slices() {
    let mut options = DistributedOptions::default();
    options.batch_size = 2;
    options.strategy = DistributionStrategy::Random;
    let mut s = DistributedCompiler::with_options(options);
    s.initialize().unwrap();
    let inputs: Vec<String> = (0..5).map(|i| format!("f{}.js", i)).collect();
    let ids: Vec<String> = (0..5).map(|i| format!("id{}", i)).collect();
    let outputs = vec![None; 5];
    assert_eq!(s.batch_size(), 2);
    assert_eq!(s.strategy(), DistributionStrategy::Random);
    let mut shuffled = s.sort_inputs_by_strategy(inputs.clone()).unwrap();
    shuffled.sort();
    assert_eq!(shuffled, inputs);
    assert_eq!(
        s.submit_batch_with_ids(inputs, ids.clone(), outputs, vec![Vec::new(); 5]),
        Ok(ids.clone())
    );
    assert_eq!(s.compiling_tasks(), ids);
    assert_eq!(s.get_worker("localhost:8080").unwrap().active_tasks, 5);
    assert!(s.get_task("id3").unwrap().output_path.is_none());
}

#[test]
fn a_batch_stops_at_the_first_error_and_keeps_what_it_filed() {
    let mut s = DistributedCompiler::new();
    let inputs = vec!["a.js".to_string(), "b.js".to_string()];
    let ids = vec!["x".to_string(), "y".to_string()];
    let r = s.submit_batch_with_ids(inputs, ids, vec![None, None], vec![Vec::new(), Vec::new()]);
    assert_eq!(r, Err(SchedulerError::NoWorkers));
    assert_eq!(s.get_task_status("x"), Ok(TaskStatus::Waiting));
    assert_eq!(s.get_task_status("y"), Err(SchedulerError::TaskNotFound("y".to_string())));
    let empty = s.submit_batch(Vec::new(), None);
    assert_eq!(empty, Ok(Vec::new()));
}

#[test]
fn waiting_times_out_without_a_crash() {
    let mut s = scheduler_with(&["w1"]);
    s.submit_task_with_id("b".to_string(), "b.js", None, vec!["a".to_string()]).unwrap();
    assert_eq!(s.get_task_status("b"), Ok(TaskStatus::Waiting));
    assert_eq!(s.wait_for_completion("b", Some(0), 0), Ok(WaitOutcome::Pending));
    assert_eq!(
        s.wait_for_completion("b", Some(0), 1),
        Err(SchedulerError::Timeout("b".to_string()))
    );
    assert_eq!(s.wait_for_completion("b", None, 30), Ok(WaitOutcome::Pending));
    assert_eq!(s.wait_for_completion("b", None, 31), Err(SchedulerError::Timeout("b".to_string())));
    assert_eq!(
        s.wait_for_completion("missing", None, 0),
        Err(SchedulerError::TaskNotFound("missing".to_string()))
    );
    submit(&mut s, "c").unwrap();
    assert_eq!(s.wait_for_completion("c", Some(5), 5), Ok(WaitOutcome::Pending));
    s.complete_task("c");
    assert_eq!(s.wait_for_completion("c", Some(0), 100), Ok(WaitOutcome::Completed));
}

#[test]
fn without_a_worker_the_task_stays_waiting() {
    let mut s = DistributedCompiler::new();
    assert_eq!(s.select_worker(), Err(SchedulerError::NoWorkers));
    assert_eq!(submit(&mut s, "t"), Err(SchedulerError::NoWorkers));
    assert_eq!(s.get_task_status("t"), Ok(TaskStatus::Waiting));
    s.register_worker("w").unwrap();
    assert!(s.mark_worker_offline("w"));
    assert!(!s.mark_worker_offline("nobody"));
    assert_eq!(s.select_worker(), Err(SchedulerError::NoOnlineWorker));
    assert_eq!(s.schedule_task("t"), Err(SchedulerError::NoOnlineWorker));
    assert_eq!(s.get_task_status("t"), Ok(TaskStatus::Waiting));
    s.register_worker("w").unwrap();
    assert_eq!(s.schedule_task("t"), Ok(Some("w".to_string())));
    assert_eq!(s.get_task_status("t"), Ok(TaskStatus::Compiling));
}

#[test]
fn errors_name_the_task() {
    let mut s = scheduler_with(&["w"]);
    assert_eq!(s.schedule_task("nope"), Err(SchedulerError::TaskNotFound("nope".to_string())));
    assert_eq!(s.get_task_status("nope"), Err(SchedulerError::TaskNotFound("nope".to_string())));
    submit(&mut s, "t").unwrap();
    assert_eq!(submit(&mut s, "t"), Err(SchedulerError::DuplicateTask("t".to_string())));
    assert_eq!(SchedulerError::TaskNotFound("t".into()).message(), "任务不存在: t");
    assert_eq!(SchedulerError::DuplicateTask("t".into()).message(), "任务已存在: t");
    assert_eq!(SchedulerError::NoWorkers.message(), "没有可用的工作节点");
    assert_eq!(SchedulerError::NoOnlineWorker.message(), "没有在线的工作节点");
    assert_eq!(SchedulerError::TaskFailed("t".into()).message(), "任务失败: t");
    assert_eq!(SchedulerError::Timeout("t".into()).message(), "等待任务完成超时: t");
    assert_eq!(SchedulerError::DependencyCycle.message(), "依赖图中存在循环依赖");
}

#[test]
fn a_worker_is_busy_from_ten_tasks_on() {
    let mut s = scheduler_with(&["w"]);
    for i in 0..9 {
        submit(&mut s, &format!("t{}", i)).unwrap();
    }
    assert_eq!(s.get_worker("w").unwrap().status, WorkerStatus::Online);
    submit(&mut s, "t9").unwrap();
    assert_eq!(s.get_worker("w").unwrap().status, WorkerStatus::Busy);
    assert_eq!(s.get_worker("w").unwrap().active_tasks, 10);
    submit(&mut s, "t10").unwrap();
    assert_eq!(s.assigned_worker("t10"), Some("w".to_string()));
    s.complete_task("t0");
    assert_eq!(s.get_worker("w").unwrap().status, WorkerStatus::Busy);
    s.complete_task("t1");
    assert_eq!(s.get_worker("w").unwrap().status, WorkerStatus::Online);
    assert_eq!(s.get_worker("w").unwrap().active_tasks, 9);
}

#[test]
fn a_failed_task_is_tried_again_until_its_retries_are_used_up() {
    let mut options = DistributedOptions::default();
    options.max_retries = 1;
    let mut s = DistributedCompiler::with_options(options);
    s.register_worker("w").unwrap();
    submit(&mut s, "t").unwrap();
    assert!(s.fail_task("t"));
    assert_eq!(s.get_task_status("t"), Ok(TaskStatus::Waiting));
    assert_eq!(s.get_task("t").unwrap().retries, 1);
    assert_eq!(s.assigned_worker("t"), None);
    assert_eq!(s.get_worker("w").unwrap().active_tasks, 0);
    assert!(!s.fail_task("t"));
    assert_eq!(s.schedule_task("t"), Ok(Some("w".to_string())));
    assert!(s.fail_task("t"));
    assert_eq!(s.get_task_status("t"), Ok(TaskStatus::Failed));
    assert_eq!(
        s.wait_for_completion("t", None, 0),
        Err(SchedulerError::TaskFailed("t".to_string()))
    );
    assert_eq!(s.schedule_task("t"), Ok(None));
    assert!(!s.complete_task("t"));
    assert!(!s.complete_task("unknown"));
}

#[test]
fn registering_again_starts_the_worker_afresh() {
    let mut s = scheduler_with(&["a", "b"]);
    submit(&mut s, "t").unwrap();
    assert_eq!(s.get_worker("a").unwrap().active_tasks, 1);
    s.register_worker("a").unwrap();
    s.register_worker("a").unwrap();
    assert_eq!(s.worker_count(), 2);
    assert_eq!(s.get_worker("a").unwrap().active_tasks, 0);
    assert_eq!(s.get_worker("a").unwrap().status, WorkerStatus::Online);
    assert!(s.complete_task("t"));
    assert_eq!(s.get_worker("a").unwrap().active_tasks, 0);
    assert!(s.get_worker("z").is_none());
}

#[test]
fn shutdown_empties_the_registry_and_leaves_the_tasks() {
    let mut s = scheduler_with(&["w"]);
    submit(&mut s, "running").unwrap();
    s.submit_task_with_id("held".to_string(), "h.js", None, vec!["running".to_string()]).unwrap();
    assert_eq!(s.compiling_tasks(), vec!["running".to_string()]);
    assert!(s.shutdown().is_ok());
    assert_eq!(s.worker_count(), 0);
    assert_eq!(s.get_task_status("running"), Ok(TaskStatus::Compiling));
    assert_eq!(s.get_task_status("held"), Ok(TaskStatus::Waiting));
    assert!(s.complete_task("running"));
    assert_eq!(s.schedule_task("held"), Err(SchedulerError::NoWorkers));
}

#[test]
fn initialize_registers_the_configured_workers() {
    let mut options = DistributedOptions::default();
    assert_eq!(options.workers, vec!["localhost:8080"]);
    assert_eq!(options.strategy, DistributionStrategy::DependencyBased);
    assert_eq!(options.max_retries, 3);
    assert_eq!(options.timeout_secs, 30);
    assert!(options.load_balancing);
    assert_eq!(options.batch_size, 10);
    options.workers = vec!["a:1".to_string(), "b:2".to_string(), "a:1".to_string()];
    let mut s = DistributedCompiler::with_options(options);
    assert_eq!(s.worker_count(), 0);
    assert!(s.initialize().is_ok());
    assert_eq!(s.worker_count(), 2);
    assert_eq!(s.select_worker(), Ok("a:1".to_string()));
    let w = s.get_worker("b:2").unwrap();
    assert_eq!(w.last_response_time_ms, 0);
    assert_eq!(w.performance_score, 1000);
}

#[test]
fn fresh_tasks_have_no_worker_and_no_retry() {
    let mut s = DistributedCompiler::new();
    let _ = s.submit_task_with_id("t".to_string(), "in.ts", Some("out.js"), Vec::new());
    let t = s.get_task("t").unwrap();
    assert_eq!(t.id, "t");
    assert_eq!(t.input_path, "in.ts");
    assert_eq!(t.output_path, Some("out.js".to_string()));
    assert_eq!(t.assigned_worker, None);
    assert_eq!(t.status, TaskStatus::Waiting);
    assert_eq!(t.priority, 0);
    assert!(t.dependencies.is_empty());
    assert!(t.completed_at.is_none());
    assert_eq!(t.retries, 0);
    assert!(s.get_task("u").is_none());
}

#[test]
fn ids_are_the_time_and_random_bits_in_hexadecimal() {
    assert_eq!(task_id_from(Some((1, 5)), 255), "3b9aca05ff");
    assert_eq!(task_id_from(None, 0), "00");
    assert_eq!(task_id_from(Some((0, 16)), 0xabcdef), "10abcdef");
    assert_eq!(
        task_id_from(Some((u64::MAX, 0)), u64::MAX),
        format!("{:x}{:x}", u64::MAX.wrapping_mul(1_000_000_000), u64::MAX)
    );
    let a = generate_uuid();
    let b = generate_uuid();
    assert_ne!(a, b);
    assert!(a.len() >= 2);
    assert!(a.chars().all(|c| c.is_ascii_hexdigit() && !c.is_ascii_uppercase()));
}

fn graph(nodes: &[&str], edges: &[(&str, &str)]) -> DependencyGraph {
    let mut g = DependencyGraph::new();
    for n in nodes {
        g.add_node(n.to_string());
    }
    for (a, b) in edges {
        g.add_edge(a.to_string(), b.to_string());
    }
    g
}

fn strings(items: &[&str]) -> Vec<String> {
    items.iter().map(|s| s.to_string()).collect()
}

fn with_strategy(strategy: DistributionStrategy) -> DistributedCompiler {
    let mut options = DistributedOptions::default();
    options.strategy = strategy;
    options.workers = vec!["w".to_string()];
    let mut s = DistributedCompiler::with_options(options);
    s.initialize().unwrap();
    s
}

#[test]
fn inputs_are_ordered_by_dependencies() {
    let mut s = with_strategy(DistributionStrategy::DependencyBased);
    let inputs = strings(&["app.js", "free.js", "lib.js", "util.js", "other.js"]);
    assert_eq!(s.sort_inputs_by_strategy(inputs.clone()), Ok(inputs.clone()));
    s.set_dependency_graph(graph(
        &["app.js", "lib.js", "util.js"],
        &[("lib.js", "app.js"), ("util.js", "lib.js"), ("gone.js", "util.js")],
    ));
    assert_eq!(
        s.sort_inputs_by_strategy(inputs),
        Ok(strings(&["util.js", "lib.js", "app.js", "free.js", "other.js"]))
    );
    assert_eq!(s.dependency_graph().get_nodes().len(), 3);
}

#[test]
fn inputs_are_ordered_by_size_and_by_directory() {
    let mut s = with_strategy(DistributionStrategy::SizePriority);
    s.set_input_size("b.js", 300);
    s.set_input_size("c.js", 20);
    s.set_input_size("d.js", 300);
    s.set_input_size("c.js", 40);
    assert_eq!(s.input_size("c.js"), 40);
    assert_eq!(s.input_size("a.js"), 0);
    assert_eq!(
        s.sort_inputs_by_strategy(strings(&["a.js", "b.js", "c.js", "d.js", "e.js"])),
        Ok(strings(&["b.js", "d.js", "c.js", "a.js", "e.js"]))
    );
    let by_dir = with_strategy(DistributionStrategy::DirectoryBased);
    assert_eq!(
        by_dir.sort_inputs_by_strategy(strings(&["x/1.js", "y/1.js", "top.js", "x/2.js", "y/2.js"])),
        Ok(strings(&["x/1.js", "x/2.js", "y/1.js", "y/2.js", "top.js"]))
    );
    assert_eq!(
        DistributedCompiler::rank_by_group(&strings(&["x", "y", "x", "z", "y"])),
        vec![0, 1, 0, 3, 1]
    );
    assert_eq!(
        DistributedCompiler::rank_by_dependencies(&strings(&["b", "a"]), &strings(&["a", "c", "b"])),
        vec![1, 2, 0]
    );
    assert_eq!(s.rank_by_size(&strings(&["b.js", "zz"])), vec![u64::MAX - 300, u64::MAX]);
}

#[test]
fn a_graph_with_a_cycle_is_refused() {
    let mut s = with_strategy(DistributionStrategy::Random);
    s.set_dependency_graph(graph(&["a", "b", "c"], &[("a", "b"), ("b", "a")]));
    assert_eq!(
        s.submit_batch(strings(&["a", "b", "c"]), None),
        Err(SchedulerError::DependencyCycle)
    );
    assert!(s.get_task_status("a").is_err());
    let mut by_deps = with_strategy(DistributionStrategy::DependencyBased);
    by_deps.set_dependency_graph(graph(&["a"], &[("a", "a")]));
    assert_eq!(
        by_deps.sort_inputs_by_strategy(strings(&["a"])),
        Err(SchedulerError::DependencyCycle)
    );
}

#[test]
fn tasks_of_a_batch_wait_for_what_the_graph_puts_before_them() {
    let mut s = with_strategy(DistributionStrategy::DependencyBased);
    s.set_dependency_graph(graph(
        &["app.js", "lib.js", "util.js"],
        &[("lib.js", "app.js"), ("util.js", "lib.js"), ("util.js", "app.js")],
    ));
    let ids = s.submit_batch(strings(&["app.js", "lib.js", "util.js"]), None).unwrap();
    let inputs: Vec<String> = ids.iter().map(|id| s.get_task(id).unwrap().input_path.clone()).collect();
    assert_eq!(inputs, strings(&["util.js", "lib.js", "app.js"]));
    let (util, lib, app) = (ids[0].clone(), ids[1].clone(), ids[2].clone());
    assert!(s.get_task(&util).unwrap().dependencies.is_empty());
    assert_eq!(s.get_task(&lib).unwrap().dependencies, vec![util.clone()]);
    assert_eq!(s.get_task(&app).unwrap().dependencies, vec![util.clone(), lib.clone()]);
    assert_eq!(s.get_task_status(&util), Ok(TaskStatus::Compiling));
    assert_eq!(s.get_task_status(&lib), Ok(TaskStatus::Waiting));
    assert_eq!(s.get_task_status(&app), Ok(TaskStatus::Waiting));
    assert!(s.schedule_ready_tasks().is_empty());
    s.complete_task(&util);
    assert_eq!(s.schedule_ready_tasks(), vec![(lib.clone(), "w".to_string())]);
    assert_eq!(s.get_task_status(&app), Ok(TaskStatus::Waiting));
    s.complete_task(&lib);
    assert_eq!(s.schedule_ready_tasks(), vec![(app.clone(), "w".to_string())]);
    s.complete_task(&app);
    assert!(s.schedule_ready_tasks().is_empty());
    assert!(s.compiling_tasks().is_empty());
}

#[test]
fn dependencies_hold_whatever_the_order_of_the_batch() {
    let mut s = with_strategy(DistributionStrategy::SizePriority);
    s.set_dependency_graph(graph(&["first", "second"], &[("first", "second")]));
    s.set_input_size("second", 10);
    let ids = s.submit_batch(strings(&["first", "second"]), None).unwrap();
    assert_eq!(s.get_task(&ids[0]).unwrap().input_path, "second");
    assert_eq!(s.get_task(&ids[0]).unwrap().dependencies, vec![ids[1].clone()]);
    assert_eq!(s.get_task_status(&ids[0]), Ok(TaskStatus::Waiting));
    assert_eq!(s.get_task_status(&ids[1]), Ok(TaskStatus::Compiling));
    let deps = s.dependencies_for(&strings(&["second", "first", "second"]), &strings(&["x", "y", "z"]));
    assert_eq!(deps, vec![strings(&["y"]), Vec::new(), strings(&["y"])]);
}

#[test]
fn a_sweep_schedules_what_waited_for_a_worker() {
    let mut s = DistributedCompiler::new();
    let _ = s.submit_task_with_id("a".to_string(), "a.js", None, Vec::new());
    let _ = s.submit_task_with_id("b".to_string(), "b.js", None, vec!["a".to_string()]);
    let _ = s.submit_task_with_id("c".to_string(), "c.js", None, Vec::new());
    assert!(s.schedule_ready_tasks().is_empty());
    s.register_worker("w1").unwrap();
    s.register_worker("w2").unwrap();
    assert_eq!(
        s.schedule_ready_tasks(),
        vec![("a".to_string(), "w1".to_string()), ("c".to_string(), "w2".to_string())]
    );
    assert_eq!(s.get_task_status("b"), Ok(TaskStatus::Waiting));
}

#[test]
fn the_size_of_the_slices_does_not_show_in_a_batch() {
    for size in [0, 1, 3, 100] {
        let mut options = DistributedOptions::default();
        options.batch_size = size;
        options.workers = vec!["w".to_string()];
        let mut s = DistributedCompiler::with_options(options);
        s.initialize().unwrap();
        let ids = strings(&["i1", "i2", "i3", "i4"]);
        let r = s.submit_batch_with_ids(
            strings(&["a", "b", "c", "d"]),
            ids.clone(),
            vec![None; 4],
            vec![Vec::new(); 4],
        );
        assert_eq!(r, Ok(ids.clone()));
        assert_eq!(s.compiling_tasks(), ids);
    }
}

#[test]
fn a_new_worker_has_no_latency_and_the_initial_score() {
    let mut s = scheduler_with(&["w1"]);
    let w = s.get_worker("w1").unwrap();
    assert_eq!(w.last_response_time_ms, 0);
    assert_eq!(w.performance_score, 1000);
    assert_eq!(w.active_tasks, 0);
    assert_eq!(w.status, WorkerStatus::Online);
    submit(&mut s, "t").unwrap();
    let w = s.get_worker("w1").unwrap();
    assert_eq!(w.active_tasks, 1);
    assert_eq!(w.last_response_time_ms, 0);
    assert_eq!(w.performance_score, 1000);
}

#[test]
fn a_batch_leaves_the_tasks_before_it_as_they_were() {
    let mut s = scheduler_with(&["w1"]);
    submit(&mut s, "old").unwrap();
    let before = s.get_task("old").unwrap().clone();
    let inputs = vec!["src/b.ts".to_string(), "a.js".to_string(), "src/c.js".to_string()];
    let ids = s.submit_batch(inputs.clone(), Some("out".to_string())).unwrap();
    assert_eq!(ids.len(), 3);
    let after = s.get_task("old").unwrap();
    assert_eq!(after.id, before.id);
    assert_eq!(after.input_path, before.input_path);
    assert_eq!(after.status, before.status);
    assert_eq!(after.assigned_worker, before.assigned_worker);
    let mut paths: Vec<String> =
        ids.iter().map(|id| s.get_task(id).unwrap().input_path.clone()).collect();
    let outputs: Vec<Option<String>> =
        ids.iter().map(|id| s.get_task(id).unwrap().output_path.clone()).collect();
    assert_eq!(
        outputs,
        vec![
            Some("out/b.js".to_string()),
            Some("out/a.js".to_string()),
            Some("out/c.js".to_string())
        ]
    );
    paths.sort();
    let mut expected = inputs;
    expected.sort();
    assert_eq!(paths, expected);
    for id in &ids {
        assert_eq!(s.get_task_status(id), Ok(TaskStatus::Compiling));
        assert!(s.complete_task(id));
    }
    for id in &ids {
        assert_eq!(s.get_task_status(id), Ok(TaskStatus::Completed));
    }
}
