use crate::distributed::ids::{generate_uuid, random_u64};
use crate::distributed::model::SchedulerModel;
use crate::distributed::scheduler::{
    id_answer_model, size_of_input, submit_answer, submitted, DistributedCompiler,
};
use crate::distributed::types::{DistributionStrategy, ErrorModel, SchedulerError};
use crate::ordering::{compile_order, has_cycle};
use crate::paths::{batch_output_path, batch_output_text, parent, parent_of};
use crate::ranking::{lemma_sorted_by_rank_is_a_permutation, sort_by_rank, sorted_by_rank};
use crate::text::{first_index_of, index_of, names_of, opt_str, opt_text};
use vstd::prelude::*;

verus! {

pub open spec fn outputs_model(s: Seq<Option<String>>) -> Seq<Option<Seq<char>>> {
    Seq::new(s.len(), |i: int| opt_text(s[i]))
}

pub open spec fn lists_model(s: Seq<Vec<String>>) -> Seq<Seq<Seq<char>>> {
    Seq::new(s.len(), |i: int| names_of(s[i]@))
}

/// The scheduler after the first `upto` inputs of a batch were submitted
/// in turn, each under its id and with its output and its dependencies,
/// and the error at which the batch stopped, if it did: the first error
/// ends the batch, and what was submitted until then stays.
pub open spec fn batch_run(
    s: SchedulerModel,
    inputs: Seq<Seq<char>>,
    ids: Seq<Seq<char>>,
    outputs: Seq<Option<Seq<char>>>,
    dependencies: Seq<Seq<Seq<char>>>,
    upto: int,
) -> (SchedulerModel, Option<ErrorModel>)
    decreases upto,
{
    if upto <= 0 {
        (s, None)
    } else {
        let before = batch_run(s, inputs, ids, outputs, dependencies, upto - 1);
        if before.1 is Some {
            before
        } else {
            (
                submitted(
                    before.0,
                    ids[upto - 1],
                    inputs[upto - 1],
                    outputs[upto - 1],
                    dependencies[upto - 1],
                ),
                match submit_answer(
                    before.0,
                    ids[upto - 1],
                    inputs[upto - 1],
                    outputs[upto - 1],
                    dependencies[upto - 1],
                ) {
                    Ok(_) => None,
                    Err(e) => Some(e),
                },
            )
        }
    }
}

/// What a batch answers: the ids in the order of the inputs, or the error
/// at which it stopped.
pub open spec fn batch_answer(ids: Seq<Seq<char>>, error: Option<ErrorModel>) -> Result<
    Seq<Seq<char>>,
    ErrorModel,
> {
    match error {
        None => Ok(ids),
        Some(e) => Err(e),
    }
}

pub open spec fn ids_answer_model(r: Result<Vec<String>, SchedulerError>) -> Result<
    Seq<Seq<char>>,
    ErrorModel,
> {
    match r {
        Ok(v) => Ok(names_of(v@)),
        Err(e) => Err(e@),
    }
}

/// The rank of each input by the dependency graph: its place in the
/// order in which the files of the graph can be compiled; an input that
/// is no file of the graph ranks after all of them.
pub open spec fn dependency_ranks(order: Seq<Seq<char>>, inputs: Seq<Seq<char>>) -> Seq<u64> {
    Seq::new(
        inputs.len(),
        |i: int|
            if first_index_of(order, inputs[i], 0) < 0 {
                order.len() as u64
            } else {
                first_index_of(order, inputs[i], 0) as u64
            },
    )
}

/// The rank of each input by size: the larger the input, the lower the rank.
pub open spec fn size_ranks(sizes: Map<Seq<char>, u64>, inputs: Seq<Seq<char>>) -> Seq<u64> {
    Seq::new(inputs.len(), |i: int| (u64::MAX - size_of_input(sizes, inputs[i])) as u64)
}

/// The rank of each input by a key: the place of the first input with
/// the same key.
pub open spec fn group_ranks(keys: Seq<Seq<char>>) -> Seq<u64> {
    Seq::new(keys.len(), |i: int| first_index_of(keys, keys[i], 0) as u64)
}

/// The directory of each input: the path without its last component, or
/// the empty text where the path has no parent.
pub open spec fn directory_keys(inputs: Seq<Seq<char>>) -> Seq<Seq<char>> {
    Seq::new(
        inputs.len(),
        |i: int|
            match parent_of(inputs[i]) {
                Some(dir) => dir,
                None => Seq::empty(),
            },
    )
}

/// The outputs of a batch: for each input its place in the directory
/// that was named, or none where no directory was named.
pub open spec fn batch_outputs(dir: Option<Seq<char>>, ordered: Seq<Seq<char>>) -> Seq<
    Option<Seq<char>>,
> {
    Seq::new(
        ordered.len(),
        |k: int|
            match dir {
                Some(d) => Some(batch_output_text(d, ordered[k])),
                None => None,
            },
    )
}

/// The ids of the tasks that the task of input `k` must wait for, as far
/// as the first `upto` inputs go: those of the other inputs that the
/// graph wants compiled before it.
pub open spec fn dependencies_of(
    edges: Seq<(Seq<char>, Seq<char>)>,
    inputs: Seq<Seq<char>>,
    ids: Seq<Seq<char>>,
    k: int,
    upto: int,
) -> Seq<Seq<char>>
    decreases upto,
{
    if upto <= 0 {
        Seq::empty()
    } else {
        let rest = dependencies_of(edges, inputs, ids, k, upto - 1);
        if upto - 1 != k && edges.contains((inputs[upto - 1], inputs[k])) {
            rest.push(ids[upto - 1])
        } else {
            rest
        }
    }
}

/// For each input of a batch, the ids of the tasks that its task must
/// wait for.
pub open spec fn batch_dependencies(
    edges: Seq<(Seq<char>, Seq<char>)>,
    inputs: Seq<Seq<char>>,
    ids: Seq<Seq<char>>,
) -> Seq<Seq<Seq<char>>> {
    Seq::new(inputs.len(), |k: int| dependencies_of(edges, inputs, ids, k, inputs.len() as int))
}

/// What `sort_inputs_by_strategy` answers.
pub open spec fn is_sorted_answer(
    strategy: DistributionStrategy,
    nodes: Seq<Seq<char>>,
    edges: Seq<(Seq<char>, Seq<char>)>,
    sizes: Map<Seq<char>, u64>,
    inputs: Seq<Seq<char>>,
    r: Result<Seq<Seq<char>>, ErrorModel>,
) -> bool {
    match strategy {
        DistributionStrategy::DependencyBased => if has_cycle(nodes, edges) {
            r == Err::<Seq<Seq<char>>, ErrorModel>(ErrorModel::DependencyCycle)
        } else {
            r == Ok::<Seq<Seq<char>>, ErrorModel>(
                sorted_by_rank(dependency_ranks(compile_order(nodes, edges), inputs), inputs),
            )
        },
        DistributionStrategy::SizePriority => r == Ok::<Seq<Seq<char>>, ErrorModel>(
            sorted_by_rank(size_ranks(sizes, inputs), inputs),
        ),
        DistributionStrategy::DirectoryBased => r == Ok::<Seq<Seq<char>>, ErrorModel>(
            sorted_by_rank(group_ranks(directory_keys(inputs)), inputs),
        ),
        DistributionStrategy::Random => exists|ranks: Seq<u64>|
            ranks.len() == inputs.len() && r == Ok::<Seq<Seq<char>>, ErrorModel>(
                #[trigger] sorted_by_rank(ranks, inputs),
            ),
    }
}

/// Whatever the strategy, the inputs in its order are the inputs that
/// came, each as often as it came.
pub proof fn lemma_sorted_answer_is_a_permutation(
    strategy: DistributionStrategy,
    nodes: Seq<Seq<char>>,
    edges: Seq<(Seq<char>, Seq<char>)>,
    sizes: Map<Seq<char>, u64>,
    inputs: Seq<Seq<char>>,
    ordered: Seq<Seq<char>>,
)
    requires
        is_sorted_answer(
            strategy,
            nodes,
            edges,
            sizes,
            inputs,
            Ok::<Seq<Seq<char>>, ErrorModel>(ordered),
        ),
    ensures
        ordered.to_multiset() == inputs.to_multiset(),
        ordered.len() == inputs.len(),
{
    broadcast use vstd::seq_lib::group_to_multiset_ensures;

    match strategy {
        DistributionStrategy::DependencyBased => {
            lemma_sorted_by_rank_is_a_permutation(
                dependency_ranks(compile_order(nodes, edges), inputs),
                inputs,
            );
        },
        DistributionStrategy::SizePriority => {
            lemma_sorted_by_rank_is_a_permutation(size_ranks(sizes, inputs), inputs);
        },
        DistributionStrategy::DirectoryBased => {
            lemma_sorted_by_rank_is_a_permutation(group_ranks(directory_keys(inputs)), inputs);
        },
        DistributionStrategy::Random => {
            let ranks = choose|ranks: Seq<u64>|
                ranks.len() == inputs.len() && ordered == #[trigger] sorted_by_rank(ranks, inputs);
            lemma_sorted_by_rank_is_a_permutation(ranks, inputs);
        },
    }
    assert(ordered.to_multiset().len() == inputs.to_multiset().len());
}

/// Whether a batch was run on `ordered` inputs under `ids`, with some
/// outputs and with the dependencies that the graph asks for, and gave
/// the scheduler `after` and the answer `r`.
pub open spec fn is_batch_outcome(
    before: SchedulerModel,
    edges: Seq<(Seq<char>, Seq<char>)>,
    ordered: Seq<Seq<char>>,
    ids: Seq<Seq<char>>,
    outputs: Seq<Option<Seq<char>>>,
    after: SchedulerModel,
    r: Result<Seq<Seq<char>>, ErrorModel>,
) -> bool {
    let run = batch_run(
        before,
        ordered,
        ids,
        outputs,
        batch_dependencies(edges, ordered, ids),
        ordered.len() as int,
    );
    ids.len() == ordered.len() && outputs.len() == ordered.len() && after == run.0 && r
        == batch_answer(ids, run.1)
}

impl DistributedCompiler {
    /// Files a new task without dependencies under a fresh id and tries
    /// at once to schedule it.
    pub fn submit_task(&mut self, input: &str, output: Option<&str>) -> (r: Result<
        String,
        SchedulerError,
    >)
        requires
            old(self).wf(),
        ensures
            final(self).wf(),
            final(self).setup() == old(self).setup(),
            exists|id: Seq<char>|
                final(self)@ == submitted(old(self)@, id, input@, opt_str(output), Seq::empty())
                    && id_answer_model(r) == #[trigger] submit_answer(
                    old(self)@,
                    id,
                    input@,
                    opt_str(output),
                    Seq::empty(),
                ),
    {
        let id = generate_uuid();
        let dependencies: Vec<String> = Vec::new();
        assert(names_of(dependencies@) =~= Seq::<Seq<char>>::empty());
        self.submit_task_with_id(id, input, output, dependencies)
    }

    /// Files a new task that must wait for others under a fresh id and
    /// tries at once to schedule it.
    pub fn submit_task_with_dependencies(
        &mut self,
        input: &str,
        output: Option<&str>,
        dependencies: Vec<String>,
    ) -> (r: Result<String, SchedulerError>)
        requires
            old(self).wf(),
        ensures
            final(self).wf(),
            final(self).setup() == old(self).setup(),
            exists|id: Seq<char>|
                final(self)@ == submitted(
                    old(self)@,
                    id,
                    input@,
                    opt_str(output),
                    names_of(dependencies@),
                ) && id_answer_model(r) == #[trigger] submit_answer(
                    old(self)@,
                    id,
                    input@,
                    opt_str(output),
                    names_of(dependencies@),
                ),
    {
        let id = generate_uuid();
        self.submit_task_with_id(id, input, output, dependencies)
    }

    /// The rank of each input by the order in which the files of the
    /// graph can be compiled.
    pub fn rank_by_dependencies(order: &Vec<String>, inputs: &Vec<String>) -> (ranks: Vec<u64>)
        ensures
            ranks@ == dependency_ranks(names_of(order@), names_of(inputs@)),
    {
        let mut ranks: Vec<u64> = Vec::new();
        let mut i: usize = 0;
        while i < inputs.len()
            invariant
                i <= inputs.len(),
                ranks.len() == i,
                forall|j: int|
                    0 <= j < i ==> ranks@[j] == dependency_ranks(
                        names_of(order@),
                        names_of(inputs@),
                    )[j],
            decreases inputs.len() - i,
        {
            assert(names_of(inputs@)[i as int] == inputs@[i as int]@);
            let rank = match index_of(order, inputs[i].as_str()) {
                Some(p) => p as u64,
                None => order.len() as u64,
            };
            ranks.push(rank);
            i = i + 1;
        }
        assert(ranks@ =~= dependency_ranks(names_of(order@), names_of(inputs@)));
        ranks
    }

    /// The rank of each input by its key: the place of the first input
    /// with the same key.
    pub fn rank_by_group(keys: &Vec<String>) -> (ranks: Vec<u64>)
        ensures
            ranks@ == group_ranks(names_of(keys@)),
    {
        let mut ranks: Vec<u64> = Vec::new();
        let mut i: usize = 0;
        while i < keys.len()
            invariant
                i <= keys.len(),
                ranks.len() == i,
                forall|j: int| 0 <= j < i ==> ranks@[j] == group_ranks(names_of(keys@))[j],
            decreases keys.len() - i,
        {
            assert(names_of(keys@)[i as int] == keys@[i as int]@);
            let rank = match index_of(keys, keys[i].as_str()) {
                Some(p) => p as u64,
                None => 0,
            };
            proof {
                crate::text::lemma_first_index_of(names_of(keys@), keys@[i as int]@, 0);
            }
            ranks.push(rank);
            i = i + 1;
        }
        assert(ranks@ =~= group_ranks(names_of(keys@)));
        ranks
    }

    /// The rank of each input by the size that the scheduler was told of it.
    pub fn rank_by_size(&self, inputs: &Vec<String>) -> (ranks: Vec<u64>)
        ensures
            ranks@ == size_ranks(self.setup().sizes, names_of(inputs@)),
    {
        let mut ranks: Vec<u64> = Vec::new();
        let mut i: usize = 0;
        while i < inputs.len()
            invariant
                i <= inputs.len(),
                ranks.len() == i,
                forall|j: int|
                    0 <= j < i ==> ranks@[j] == size_ranks(self.setup().sizes, names_of(inputs@))[j],
            decreases inputs.len() - i,
        {
            assert(names_of(inputs@)[i as int] == inputs@[i as int]@);
            ranks.push(u64::MAX - self.input_size(inputs[i].as_str()));
            i = i + 1;
        }
        assert(ranks@ =~= size_ranks(self.setup().sizes, names_of(inputs@)));
        ranks
    }

    /// Puts the inputs of a batch in the order of the configured
    /// strategy: by dependencies, each input after the inputs that the
    /// graph wants compiled before it; by size, the largest first; by
    /// directory, the inputs of one directory together, the directories
    /// in the order in which they first occur; at random, in an order
    /// drawn by chance. Inputs that the strategy does not tell apart stay
    /// in the order in which they came. Ordering by dependencies refuses
    /// a graph in which files wait for each other in a circle.
    pub fn sort_inputs_by_strategy(&self, inputs: Vec<String>) -> (r: Result<
        Vec<String>,
        SchedulerError,
    >)
        requires
            self.wf(),
        ensures
            is_sorted_answer(
                self.options().strategy,
                self.setup().graph_nodes,
                self.setup().graph_edges,
                self.setup().sizes,
                names_of(inputs@),
                ids_answer_model(r),
            ),
            r matches Ok(sorted) ==> sorted.len() == inputs.len(),
    {
        let ghost ins = names_of(inputs@);
        match self.strategy() {
            DistributionStrategy::Random => {
                let mut ranks: Vec<u64> = Vec::new();
                let mut i: usize = 0;
                while i < inputs.len()
                    invariant
                        i <= inputs.len(),
                        ranks.len() == i,
                    decreases inputs.len() - i,
                {
                    ranks.push(random_u64());
                    i = i + 1;
                }
                let sorted = sort_by_rank(&inputs, &ranks);
                assert(names_of(sorted@) == sorted_by_rank(ranks@, ins));
                Ok(sorted)
            },
            DistributionStrategy::DirectoryBased => {
                let mut keys: Vec<String> = Vec::new();
                let mut i: usize = 0;
                while i < inputs.len()
                    invariant
                        i <= inputs.len(),
                        keys.len() == i,
                        ins == names_of(inputs@),
                        forall|j: int| 0 <= j < i ==> (#[trigger] keys@[j])@ == directory_keys(ins)[j],
                    decreases inputs.len() - i,
                {
                    let key = match parent(inputs[i].as_str()) {
                        Some(dir) => dir,
                        None => String::new(),
                    };
                    assert(ins[i as int] == inputs@[i as int]@);
                    assert(key@ == directory_keys(ins)[i as int]);
                    keys.push(key);
                    i = i + 1;
                }
                assert(names_of(keys@) =~= directory_keys(ins));
                let ranks = Self::rank_by_group(&keys);
                let sorted = sort_by_rank(&inputs, &ranks);
                assert(names_of(sorted@) == sorted_by_rank(group_ranks(directory_keys(ins)), ins));
                Ok(sorted)
            },
            DistributionStrategy::DependencyBased => {
                let order = match self.dependency_graph().topological_sort() {
                    Ok(order) => order,
                    Err(_) => {
                        return Err(SchedulerError::DependencyCycle);
                    },
                };
                let ranks = Self::rank_by_dependencies(&order, &inputs);
                Ok(sort_by_rank(&inputs, &ranks))
            },
            DistributionStrategy::SizePriority => {
                let ranks = self.rank_by_size(&inputs);
                Ok(sort_by_rank(&inputs, &ranks))
            },
        }
    }

    /// For each input of a batch, the ids of the tasks that its task must
    /// wait for: those of the other inputs of the batch that the graph
    /// wants compiled before it.
    pub fn dependencies_for(&self, inputs: &Vec<String>, ids: &Vec<String>) -> (dependencies: Vec<
        Vec<String>,
    >)
        requires
            ids.len() == inputs.len(),
        ensures
            lists_model(dependencies@) == batch_dependencies(
                self.setup().graph_edges,
                names_of(inputs@),
                names_of(ids@),
            ),
            dependencies.len() == inputs.len(),
    {
        let ghost edges = self.setup().graph_edges;
        let ghost ins = names_of(inputs@);
        let ghost names = names_of(ids@);
        let mut all: Vec<Vec<String>> = Vec::new();
        let mut k: usize = 0;
        while k < inputs.len()
            invariant
                k <= inputs.len(),
                ids.len() == inputs.len(),
                edges == self.setup().graph_edges,
                ins == names_of(inputs@),
                names == names_of(ids@),
                all.len() == k,
                forall|i: int|
                    0 <= i < k ==> names_of(#[trigger] all@[i]@) == dependencies_of(
                        edges,
                        ins,
                        names,
                        i,
                        ins.len() as int,
                    ),
            decreases inputs.len() - k,
        {
            let mut deps: Vec<String> = Vec::new();
            let mut j: usize = 0;
            assert(names_of(deps@) =~= dependencies_of(edges, ins, names, k as int, 0));
            while j < inputs.len()
                invariant
                    j <= inputs.len(),
                    k < inputs.len(),
                    ids.len() == inputs.len(),
                    edges == self.setup().graph_edges,
                    ins == names_of(inputs@),
                    names == names_of(ids@),
                    names_of(deps@) == dependencies_of(edges, ins, names, k as int, j as int),
                decreases inputs.len() - j,
            {
                let ghost seen = names_of(deps@);
                assert(ins[j as int] == inputs@[j as int]@);
                assert(ins[k as int] == inputs@[k as int]@);
                assert(names[j as int] == ids@[j as int]@);
                if j != k && self.dependency_graph().has_edge(
                    inputs[j].as_str(),
                    inputs[k].as_str(),
                ) {
                    deps.push(ids[j].clone());
                    assert(names_of(deps@) =~= seen.push(names[j as int]));
                }
                j = j + 1;
            }
            all.push(deps);
            k = k + 1;
        }
        assert(lists_model(all@) =~= batch_dependencies(edges, ins, names));
        all
    }

    /// Submits the inputs of a batch one by one, in slices of the
    /// configured size, each input under its id, with its output and its
    /// dependencies. The slices are a hint and no barrier: each task is
    /// scheduled by its own dependencies alone, so that the size of the
    /// slices does not show in what comes of the batch. A size of zero
    /// is taken as one.
    pub fn submit_batch_with_ids(
        &mut self,
        inputs: Vec<String>,
        ids: Vec<String>,
        outputs: Vec<Option<String>>,
        dependencies: Vec<Vec<String>>,
    ) -> (r: Result<Vec<String>, SchedulerError>)
        requires
            old(self).wf(),
            ids.len() == inputs.len(),
            outputs.len() == inputs.len(),
            dependencies.len() == inputs.len(),
        ensures
            final(self).wf(),
            final(self).setup() == old(self).setup(),
            final(self)@ == batch_run(
                old(self)@,
                names_of(inputs@),
                names_of(ids@),
                outputs_model(outputs@),
                lists_model(dependencies@),
                inputs.len() as int,
            ).0,
            ids_answer_model(r) == batch_answer(
                names_of(ids@),
                batch_run(
                    old(self)@,
                    names_of(inputs@),
                    names_of(ids@),
                    outputs_model(outputs@),
                    lists_model(dependencies@),
                    inputs.len() as int,
                ).1,
            ),
    {
        let ghost ins = names_of(inputs@);
        let ghost names = names_of(ids@);
        let ghost outs = outputs_model(outputs@);
        let ghost deps = lists_model(dependencies@);
        let size = if self.batch_size() == 0 {
            1
        } else {
            self.batch_size()
        };
        let mut task_ids: Vec<String> = Vec::new();
        let mut start: usize = 0;
        assert(names_of(task_ids@) =~= names.subrange(0, 0));
        while start < inputs.len()
            invariant
                start <= inputs.len(),
                size > 0,
                ids.len() == inputs.len(),
                outputs.len() == inputs.len(),
                dependencies.len() == inputs.len(),
                ins == names_of(inputs@),
                names == names_of(ids@),
                outs == outputs_model(outputs@),
                deps == lists_model(dependencies@),
                self.wf(),
                self.setup() == old(self).setup(),
                names_of(task_ids@) == names.subrange(0, start as int),
                batch_run(old(self)@, ins, names, outs, deps, start as int) == (
                    self@,
                    None::<ErrorModel>,
                ),
            decreases inputs.len() - start,
        {
            let end = if inputs.len() - start < size {
                inputs.len()
            } else {
                start + size
            };
            let mut k: usize = start;
            while k < end
                invariant
                    start <= k <= end <= inputs.len(),
                    ids.len() == inputs.len(),
                    outputs.len() == inputs.len(),
                    dependencies.len() == inputs.len(),
                    ins == names_of(inputs@),
                    names == names_of(ids@),
                    outs == outputs_model(outputs@),
                    deps == lists_model(dependencies@),
                    self.wf(),
                    self.setup() == old(self).setup(),
                    names_of(task_ids@) == names.subrange(0, k as int),
                    batch_run(old(self)@, ins, names, outs, deps, k as int) == (
                        self@,
                        None::<ErrorModel>,
                    ),
                decreases end - k,
            {
                let ghost seen = names_of(task_ids@);
                let mut needed: Vec<String> = Vec::new();
                let mut d: usize = 0;
                while d < dependencies[k].len()
                    invariant
                        k < dependencies.len(),
                        d <= dependencies@[k as int].len(),
                        needed.len() == d,
                        forall|j: int|
                            0 <= j < d ==> needed@[j]@ == dependencies@[k as int]@[j]@,
                    decreases dependencies@[k as int].len() - d,
                {
                    needed.push(dependencies[k][d].clone());
                    d = d + 1;
                }
                assert(names_of(needed@) =~= deps[k as int]);
                let output: Option<&str> = match &outputs[k] {
                    Some(o) => Some(o.as_str()),
                    None => None,
                };
                assert(opt_str(output) == outs[k as int]);
                assert(ins[k as int] == inputs@[k as int]@);
                assert(names[k as int] == ids@[k as int]@);
                let ghost here = self@;
                let answer = self.submit_task_with_id(
                    ids[k].clone(),
                    inputs[k].as_str(),
                    output,
                    needed,
                );
                proof {
                    let step = batch_run(old(self)@, ins, names, outs, deps, k + 1);
                    assert(batch_run(old(self)@, ins, names, outs, deps, k as int) == (
                        here,
                        None::<ErrorModel>,
                    ));
                    assert(step.0 == submitted(
                        here,
                        names[k as int],
                        ins[k as int],
                        outs[k as int],
                        deps[k as int],
                    ));
                    assert(step.0 == self@);
                }
                match answer {
                    Ok(id) => {
                        assert(id@ == names[k as int]);
                        task_ids.push(id);
                        assert(names_of(task_ids@) =~= seen.push(names[k as int]));
                        assert(names_of(task_ids@) =~= names.subrange(0, k + 1));
                    },
                    Err(e) => {
                        proof {
                            assert(batch_run(old(self)@, ins, names, outs, deps, k + 1).1 == Some(
                                e@,
                            ));
                            lemma_batch_stops(
                                old(self)@,
                                ins,
                                names,
                                outs,
                                deps,
                                k + 1,
                                inputs.len() as int,
                            );
                        }
                        return Err(e);
                    },
                }
                k = k + 1;
            }
            start = end;
        }
        assert(names.subrange(0, start as int) =~= names);
        Ok(task_ids)
    }

    /// Submits a batch of inputs, each under a fresh id. The inputs are
    /// first put in the order of the configured strategy. The task of an
    /// input waits for the tasks of the other inputs of the batch that
    /// the dependency graph wants compiled before it; a graph in which
    /// files wait for each other in a circle is refused, and nothing is
    /// submitted. Where a directory for the outputs is named, each input
    /// gets an output there, under its own name with the extension `js`.
    pub fn submit_batch(&mut self, inputs: Vec<String>, output_dir: Option<String>) -> (r: Result<
        Vec<String>,
        SchedulerError,
    >)
        requires
            old(self).wf(),
        ensures
            final(self).wf(),
            final(self).setup() == old(self).setup(),
            r matches Ok(ids) ==> ids.len() == inputs.len(),
            has_cycle(old(self).setup().graph_nodes, old(self).setup().graph_edges) ==> (final(self)@
                == old(self)@ && (r matches Err(e) && e@ == ErrorModel::DependencyCycle)),
            !has_cycle(old(self).setup().graph_nodes, old(self).setup().graph_edges) ==> exists|
                ordered: Seq<Seq<char>>,
                ids: Seq<Seq<char>>,
            |
                is_sorted_answer(
                    old(self).options().strategy,
                    old(self).setup().graph_nodes,
                    old(self).setup().graph_edges,
                    old(self).setup().sizes,
                    names_of(inputs@),
                    Ok::<Seq<Seq<char>>, ErrorModel>(ordered),
                ) && #[trigger] is_batch_outcome(
                    old(self)@,
                    old(self).setup().graph_edges,
                    ordered,
                    ids,
                    batch_outputs(opt_text(output_dir), ordered),
                    final(self)@,
                    ids_answer_model(r),
                ),
    {
        if self.dependency_graph().topological_sort().is_err() {
            return Err(SchedulerError::DependencyCycle);
        }
        let count = inputs.len();
        let sorted = match self.sort_inputs_by_strategy(inputs) {
            Ok(s) => s,
            Err(e) => {
                proof {
                    assert(false);
                }
                return Err(e);
            },
        };
        let mut ids: Vec<String> = Vec::new();
        let mut outputs: Vec<Option<String>> = Vec::new();
        let mut k: usize = 0;
        let ghost ordered = names_of(sorted@);
        let ghost planned = batch_outputs(opt_text(output_dir), ordered);
        while k < sorted.len()
            invariant
                k <= sorted.len(),
                ids.len() == k,
                outputs.len() == k,
                ordered == names_of(sorted@),
                planned == batch_outputs(opt_text(output_dir), ordered),
                forall|j: int| 0 <= j < k ==> opt_text(#[trigger] outputs@[j]) == planned[j],
            decreases sorted.len() - k,
        {
            ids.push(generate_uuid());
            assert(ordered[k as int] == sorted@[k as int]@);
            let output = match &output_dir {
                Some(dir) => Some(batch_output_path(dir.as_str(), sorted[k].as_str())),
                None => None,
            };
            assert(opt_text(output) == planned[k as int]);
            outputs.push(output);
            k = k + 1;
        }
        let dependencies = self.dependencies_for(&sorted, &ids);
        let ghost names = names_of(ids@);
        let ghost outs = outputs_model(outputs@);
        assert(outs =~= planned);
        let r = self.submit_batch_with_ids(sorted, ids, outputs, dependencies);
        proof {
            if r is Ok {
                assert(names_of(r->Ok_0@) == names);
                assert(names_of(r->Ok_0@).len() == r->Ok_0.len());
            }
            assert(is_batch_outcome(
                old(self)@,
                old(self).setup().graph_edges,
                ordered,
                names,
                outs,
                self@,
                ids_answer_model(r),
            ));
        }
        r
    }
}

/// Once a batch has stopped on an error, it stays as it stopped.
pub proof fn lemma_batch_stops(
    s: SchedulerModel,
    inputs: Seq<Seq<char>>,
    ids: Seq<Seq<char>>,
    outputs: Seq<Option<Seq<char>>>,
    dependencies: Seq<Seq<Seq<char>>>,
    at: int,
    upto: int,
)
    requires
        0 <= at <= upto,
        batch_run(s, inputs, ids, outputs, dependencies, at).1 is Some,
    ensures
        batch_run(s, inputs, ids, outputs, dependencies, upto) == batch_run(
            s,
            inputs,
            ids,
            outputs,
            dependencies,
            at,
        ),
    decreases upto - at,
{
    if at < upto {
        lemma_batch_stops(s, inputs, ids, outputs, dependencies, at, upto - 1);
    }
}

} // verus!
