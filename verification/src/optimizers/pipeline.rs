use crate::ir::store::{IRModel, IR};
use crate::optimizers::folding::{is_function, ConstantFolding, NumericOp};
use crate::optimizers::options::{
    same_options, OptimizationLevel, OptimizationResult, OptimizerOptions,
};
use crate::optimizers::passes::{DeadCodeElimination, Optimizer, StandardPass, TreeShaking};
use crate::text::names_of;
use vstd::prelude::*;

verus! {

/// The passes of one run, in the order in which they are tried. The type
/// of the passes is the caller's choice; `StandardPass` holds the three
/// that the library brings.
pub struct OptimizationPipeline<P> {
    pub(crate) optimizers: Vec<P>,
    pub(crate) options: OptimizerOptions,
}

/// The names of the passes among `passes` that run at `level`, in order.
pub open spec fn applicable_names<P: Optimizer>(passes: Seq<P>, level: OptimizationLevel) -> Seq<
    Seq<char>,
>
    decreases passes.len(),
{
    if passes.len() == 0 {
        Seq::empty()
    } else {
        let init = applicable_names(passes.drop_last(), level);
        if passes.last().applies(level) {
            init.push(passes.last().pass_name())
        } else {
            init
        }
    }
}

/// Whether `states` are the units that a run goes through: the unit before
/// the first pass, then the unit after each pass in turn. A pass that runs
/// at `level` works on what the passes before it left; one that does not
/// leaves the unit alone.
pub open spec fn runs<P: Optimizer>(
    passes: Seq<P>,
    level: OptimizationLevel,
    states: Seq<IRModel>,
) -> bool {
    &&& states.len() == passes.len() + 1
    &&& forall|i: int|
        0 <= i < passes.len() ==> if (#[trigger] passes[i]).applies(level) {
            passes[i].effect(states[i], states[i + 1])
        } else {
            states[i + 1] == states[i]
        }
}

/// Whether `results` are the reports of a run through `states`: one of
/// each pass that runs at `level`, in the order of the passes, each as
/// its pass reports on the unit that it found and the unit that it left.
pub open spec fn run_reports<P: Optimizer>(
    passes: Seq<P>,
    level: OptimizationLevel,
    states: Seq<IRModel>,
    results: Seq<OptimizationResult>,
) -> bool
    decreases passes.len(),
{
    if passes.len() == 0 {
        results.len() == 0
    } else if passes.last().applies(level) {
        &&& results.len() > 0
        &&& results.last().optimizer@ == passes.last().pass_name()
        &&& passes.last().report(
            states[passes.len() - 1],
            states[passes.len() as int],
            results.last(),
        )
        &&& run_reports(passes.drop_last(), level, states, results.drop_last())
    } else {
        run_reports(passes.drop_last(), level, states, results)
    }
}

/// The reports of a run speak of no more units than its passes go through.
pub proof fn lemma_run_reports_read_a_prefix<P: Optimizer>(
    passes: Seq<P>,
    level: OptimizationLevel,
    states: Seq<IRModel>,
    longer: Seq<IRModel>,
    results: Seq<OptimizationResult>,
)
    requires
        states.len() == passes.len() + 1,
        states.len() <= longer.len(),
        forall|k: int| 0 <= k < states.len() ==> states[k] == longer[k],
    ensures
        run_reports(passes, level, states, results) == run_reports(passes, level, longer, results),
    decreases passes.len(),
{
    if passes.len() > 0 {
        let results_before = if passes.last().applies(level) {
            results.drop_last()
        } else {
            results
        };
        lemma_run_reports_read_a_prefix(
            passes.drop_last(),
            level,
            states.drop_last(),
            states,
            results_before,
        );
        lemma_run_reports_read_a_prefix(
            passes.drop_last(),
            level,
            states.drop_last(),
            longer,
            results_before,
        );
    }
}

/// The names under which the results of a run were reported, in order.
pub open spec fn result_names(results: Seq<OptimizationResult>) -> Seq<Seq<char>> {
    Seq::new(results.len(), |i: int| results[i].optimizer@)
}

/// The names of the passes that `setup_default_pipeline` adds for a
/// level: none when off; elimination of dead code from basic on, constant
/// folding after it from normal on, each if its toggle is set; tree
/// shaking last when aggressive.
pub open spec fn default_names(level: OptimizationLevel, dce: bool, const_folding: bool) -> Seq<
    Seq<char>,
> {
    let first = if dce && level != OptimizationLevel::Off {
        seq!["DeadCodeElimination"@]
    } else {
        Seq::empty()
    };
    let second = if const_folding && (level == OptimizationLevel::Normal || level
        == OptimizationLevel::Aggressive) {
        seq!["ConstantFolding"@]
    } else {
        Seq::empty()
    };
    let third = if level == OptimizationLevel::Aggressive {
        seq!["TreeShaking"@]
    } else {
        Seq::empty()
    };
    first + second + third
}

/// Whether `pass` is the standard pass of its kind, set up with `options`
/// and, where it folds constants, with the arithmetic `arith`.
pub open spec fn is_default_pass<A: Fn(NumericOp, u64, u64) -> u64>(
    pass: StandardPass<A>,
    options: OptimizerOptions,
    arith: A,
) -> bool {
    match pass {
        StandardPass::DeadCodeElimination(p) => same_options(p.options, options),
        StandardPass::ConstantFolding(p) => same_options(p.options, options) && p.arith == arith,
        StandardPass::TreeShaking(p) => same_options(p.options, options),
    }
}

impl<P: Optimizer> OptimizationPipeline<P> {
    pub closed spec fn passes(&self) -> Seq<P> {
        self.optimizers@
    }

    pub closed spec fn options(&self) -> OptimizerOptions {
        self.options
    }

    /// Every pass is ready to run.
    pub open spec fn wf(&self) -> bool {
        forall|i: int| 0 <= i < self.passes().len() ==> (#[trigger] self.passes()[i]).ready()
    }

    pub open spec fn names(&self) -> Seq<Seq<char>> {
        Seq::new(self.passes().len(), |i: int| self.passes()[i].pass_name())
    }

    /// A pipeline without passes.
    pub fn new(options: OptimizerOptions) -> (p: Self)
        ensures
            p.wf(),
            p.passes().len() == 0,
            p.options() == options,
    {
        OptimizationPipeline { optimizers: Vec::new(), options }
    }

    /// Appends a pass after those already there.
    pub fn add_optimizer(&mut self, optimizer: P)
        requires
            old(self).wf(),
            optimizer.ready(),
        ensures
            final(self).wf(),
            final(self).options() == old(self).options(),
            final(self).passes() == old(self).passes().push(optimizer),
    {
        self.optimizers.push(optimizer);
        assert forall|i: int| 0 <= i < self.passes().len() implies (
        #[trigger] self.passes()[i]).ready() by {
            if i < old(self).passes().len() {
                assert(self.passes()[i] == old(self).passes()[i]);
            }
        }
    }

    /// Runs the passes one after the other on the same unit and returns
    /// the report of each pass that ran, in the order of the run. A pass
    /// that does not run at the configured level is passed over and
    /// reports nothing.
    pub fn run(&self, ir: &mut IR) -> (results: Vec<OptimizationResult>)
        requires
            self.wf(),
            old(ir).wf(),
        ensures
            final(ir).wf(),
            final(ir)@.root_id == old(ir)@.root_id,
            final(ir)@.next_id >= old(ir)@.next_id,
            result_names(results@) == applicable_names(self.passes(), self.options().level),
            exists|states: Seq<IRModel>|
                runs(self.passes(), self.options().level, states) && states.first() == old(ir)@
                    && states.last() == final(ir)@ && run_reports(
                    self.passes(),
                    self.options().level,
                    states,
                    results@,
                ),
    {
        let mut results: Vec<OptimizationResult> = Vec::new();
        let ghost mut states: Seq<IRModel> = seq![ir@];
        let mut i: usize = 0;
        assert(self.optimizers@.subrange(0, 0) =~= Seq::<P>::empty());
        assert(result_names(results@) =~= Seq::<Seq<char>>::empty());
        while i < self.optimizers.len()
            invariant
                i <= self.optimizers.len(),
                self.wf(),
                ir.wf(),
                ir@.root_id == old(ir)@.root_id,
                ir@.next_id >= old(ir)@.next_id,
                result_names(results@) == applicable_names(
                    self.optimizers@.subrange(0, i as int),
                    self.options.level,
                ),
                runs(self.optimizers@.subrange(0, i as int), self.options.level, states),
                run_reports(
                    self.optimizers@.subrange(0, i as int),
                    self.options.level,
                    states,
                    results@,
                ),
                states.first() == old(ir)@,
                states.last() == ir@,
            decreases self.optimizers.len() - i,
        {
            let ghost done = self.optimizers@.subrange(0, i as int);
            let ghost next = self.optimizers@.subrange(0, i + 1);
            let ghost names = result_names(results@);
            let ghost seen = states;
            let ghost reported = results@;
            assert(next.drop_last() =~= done);
            assert(next.last() == self.optimizers@[i as int]);
            assert(self.passes()[i as int].ready());
            if self.optimizers[i].is_applicable_for_level(self.options.level) {
                let r = self.optimizers[i].optimize(ir);
                results.push(r);
                assert(result_names(results@) =~= names.push(r.optimizer@));
                assert(results@.drop_last() =~= reported);
            }
            proof {
                states = states.push(ir@);
                lemma_run_reports_read_a_prefix(done, self.options.level, seen, states, reported);
                assert forall|k: int| 0 <= k < next.len() implies if (#[trigger] next[k]).applies(
                    self.options.level,
                ) {
                    next[k].effect(states[k], states[k + 1])
                } else {
                    states[k + 1] == states[k]
                } by {
                    if k < i {
                        assert(next[k] == done[k]);
                        assert(states[k] == seen[k]);
                        assert(states[k + 1] == seen[k + 1]);
                    }
                }
            }
            i = i + 1;
        }
        assert(self.optimizers@.subrange(0, i as int) =~= self.optimizers@);
        results
    }
}

impl<A: Fn(NumericOp, u64, u64) -> u64> OptimizationPipeline<StandardPass<A>> {
    /// Appends the standard passes that go with the configured level and
    /// toggles, each set up with the options of the pipeline.
    pub fn setup_default_pipeline(&mut self, arith: A)
        requires
            old(self).wf(),
            forall|op: NumericOp, a: u64, b: u64| #[trigger] arith.requires((op, a, b)),
        is_function(&arith),
        ensures
            final(self).wf(),
            final(self).options() == old(self).options(),
            final(self).names() == old(self).names() + default_names(
                old(self).options().level,
                old(self).options().dce,
                old(self).options().const_folding,
            ),
            final(self).passes().subrange(0, old(self).passes().len() as int) == old(
                self,
            ).passes(),
            forall|i: int|
                old(self).passes().len() <= i < final(self).passes().len() ==> is_default_pass(
                    #[trigger] final(self).passes()[i],
                    old(self).options(),
                    arith,
                ),
    {
        let level = self.options.level;
        let ghost start = self.names();
        let ghost first = self.passes();
        if self.options.dce && level.at_least(OptimizationLevel::Basic) {
            let options = self.options.duplicate();
            self.add_optimizer(StandardPass::DeadCodeElimination(DeadCodeElimination::new(options)));
        }
        let ghost second = self.passes();
        if level.at_least(OptimizationLevel::Aggressive) {
            if self.options.const_folding {
                let options = self.options.duplicate();
                self.add_optimizer(StandardPass::ConstantFolding(ConstantFolding::new(options, arith)));
            }
            let options = self.options.duplicate();
            self.add_optimizer(StandardPass::TreeShaking(TreeShaking::new(options)));
        } else if self.options.const_folding && level.at_least(OptimizationLevel::Normal) {
            let options = self.options.duplicate();
            self.add_optimizer(StandardPass::ConstantFolding(ConstantFolding::new(options, arith)));
        }
        assert(self.names() =~= start + default_names(
            old(self).options().level,
            old(self).options().dce,
            old(self).options().const_folding,
        ));
        assert(self.passes().subrange(0, first.len() as int) =~= first);
    }
}

/// The pipeline that goes with a level, every other option at its default.
pub fn create_default_pipeline<A: Fn(NumericOp, u64, u64) -> u64>(
    level: OptimizationLevel,
    arith: A,
) -> (p: OptimizationPipeline<StandardPass<A>>)
    requires
        forall|op: NumericOp, a: u64, b: u64| #[trigger] arith.requires((op, a, b)),
        is_function(&arith),
    ensures
        p.wf(),
        p.options().level == level,
        p.names() == default_names(level, true, true),
        forall|i: int| 0 <= i < p.passes().len() ==> is_default_pass(#[trigger] p.passes()[i], p.options(), arith),
        names_of(p.options().preserved_globals@) == seq!["window"@, "document"@, "console"@],
{
    let mut options = OptimizerOptions::default_options();
    options.level = level;
    let mut pipeline = OptimizationPipeline::new(options);
    pipeline.setup_default_pipeline(arith);
    assert(pipeline.names() =~= default_names(level, true, true));
    pipeline
}

/// Runs the default pipeline of a level on a unit.
pub fn optimize<A: Fn(NumericOp, u64, u64) -> u64>(
    ir: &mut IR,
    level: OptimizationLevel,
    arith: A,
) -> (results: Vec<OptimizationResult>)
    requires
        old(ir).wf(),
        forall|op: NumericOp, a: u64, b: u64| #[trigger] arith.requires((op, a, b)),
        is_function(&arith),
    ensures
        final(ir).wf(),
        final(ir)@.root_id == old(ir)@.root_id,
        final(ir)@.next_id >= old(ir)@.next_id,
        result_names(results@) == default_names(level, true, true),
        exists|passes: Seq<StandardPass<A>>, options: OptimizerOptions, states: Seq<IRModel>|
            #[trigger] is_default_run(
                passes,
                options,
                arith,
                level,
                states,
                old(ir)@,
                final(ir)@,
            ) && run_reports(passes, level, states, results@),
{
    let pipeline = create_default_pipeline(level, arith);
    let results = pipeline.run(ir);
    proof {
        lemma_default_names_all_apply(pipeline.passes(), level);
        let states = choose|states: Seq<IRModel>|
            runs(pipeline.passes(), pipeline.options().level, states) && states.first() == old(ir)@
                && states.last() == ir@ && run_reports(
                pipeline.passes(),
                pipeline.options().level,
                states,
                results@,
            );
        assert(is_default_run(
            pipeline.passes(),
            pipeline.options(),
            arith,
            level,
            states,
            old(ir)@,
            ir@,
        ));
    }
    results
}

/// Whether `states` are the units that a run of the default pipeline of
/// a level goes through, from `before` to `after`: its passes are the
/// standard passes of that level, set up with options that are the
/// defaults but for the level, and with the arithmetic `arith`.
pub open spec fn is_default_run<A: Fn(NumericOp, u64, u64) -> u64>(
    passes: Seq<StandardPass<A>>,
    options: OptimizerOptions,
    arith: A,
    level: OptimizationLevel,
    states: Seq<IRModel>,
    before: IRModel,
    after: IRModel,
) -> bool {
    &&& options.level == level
    &&& names_of(options.preserved_globals@) == seq!["window"@, "document"@, "console"@]
    &&& Seq::new(passes.len(), |i: int| passes[i].pass_name()) == default_names(level, true, true)
    &&& forall|i: int| 0 <= i < passes.len() ==> is_default_pass(#[trigger] passes[i], options, arith)
    &&& runs(passes, level, states)
    &&& states.first() == before
    &&& states.last() == after
}

/// At the level for which the default pipeline was set up, each of its
/// passes runs.
pub proof fn lemma_default_names_all_apply<A: Fn(NumericOp, u64, u64) -> u64>(
    passes: Seq<StandardPass<A>>,
    level: OptimizationLevel,
)
    requires
        Seq::new(passes.len(), |i: int| passes[i].pass_name()) == default_names(level, true, true),
    ensures
        applicable_names(passes, level) == default_names(level, true, true),
{
    let names = Seq::new(passes.len(), |i: int| passes[i].pass_name());
    lemma_pass_names_differ();
    assert forall|i: int| 0 <= i < passes.len() implies (#[trigger] passes[i]).applies(level) by {
        assert(names[i] == passes[i].pass_name());
        assert(names[i] == default_names(level, true, true)[i]);
    }
    lemma_all_apply(passes, level);
}

/// The three standard passes have three different names.
pub proof fn lemma_pass_names_differ()
    ensures
        "DeadCodeElimination"@ != "ConstantFolding"@,
        "DeadCodeElimination"@ != "TreeShaking"@,
        "ConstantFolding"@ != "TreeShaking"@,
{
    reveal_strlit("DeadCodeElimination");
    reveal_strlit("ConstantFolding");
    reveal_strlit("TreeShaking");
    assert("DeadCodeElimination"@[0] != "ConstantFolding"@[0]);
    assert("DeadCodeElimination"@[0] != "TreeShaking"@[0]);
    assert("ConstantFolding"@[0] != "TreeShaking"@[0]);
}

/// Where every pass runs, the names of those that run are the names of all.
pub proof fn lemma_all_apply<P: Optimizer>(passes: Seq<P>, level: OptimizationLevel)
    requires
        forall|i: int| 0 <= i < passes.len() ==> (#[trigger] passes[i]).applies(level),
    ensures
        applicable_names(passes, level) == Seq::new(passes.len(), |i: int| passes[i].pass_name()),
    decreases passes.len(),
{
    if passes.len() > 0 {
        assert forall|i: int| 0 <= i < passes.drop_last().len() implies (
        #[trigger] passes.drop_last()[i]).applies(level) by {
            assert(passes.drop_last()[i] == passes[i]);
        }
        lemma_all_apply(passes.drop_last(), level);
        assert(applicable_names(passes, level) =~= Seq::new(
            passes.len(),
            |i: int| passes[i].pass_name(),
        ));
    } else {
        assert(applicable_names(passes, level) =~= Seq::new(
            passes.len(),
            |i: int| passes[i].pass_name(),
        ));
    }
}

} // verus!
