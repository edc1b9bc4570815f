use crate::error::Error;
use crate::ir::store::IR;
use vstd::prelude::*;

verus! {

/// Which steps the plain optimizer takes.
#[derive(Debug, Clone)]
pub struct OptimizerConfig {
    pub enable_tree_shaking: bool,
    pub enable_dead_code_elimination: bool,
    pub enable_constant_folding: bool,
}

impl OptimizerConfig {
    /// Every step switched on.
    pub open spec fn is_default(&self) -> bool {
        self.enable_tree_shaking && self.enable_dead_code_elimination
            && self.enable_constant_folding
    }

    pub fn default_config() -> (c: OptimizerConfig)
        ensures
            c.is_default(),
    {
        OptimizerConfig {
            enable_tree_shaking: true,
            enable_dead_code_elimination: true,
            enable_constant_folding: true,
        }
    }
}

impl Default for OptimizerConfig {
    fn default() -> (c: OptimizerConfig)
        ensures
            c.is_default(),
    {
        OptimizerConfig::default_config()
    }
}

/// The plain optimizer: it takes its steps in a fixed order, each of
/// which leaves the unit as it is.
pub struct LumenOptimizer {
    pub config: OptimizerConfig,
}

impl LumenOptimizer {
    pub fn new() -> (o: Self)
        ensures
            o.config.is_default(),
    {
        LumenOptimizer { config: OptimizerConfig::default_config() }
    }

    pub fn with_config(config: OptimizerConfig) -> (o: Self)
        ensures
            o.config == config,
    {
        LumenOptimizer { config }
    }

    /// Takes the steps that are switched on: constant folding, then the
    /// elimination of dead code, then tree shaking.
    pub fn optimize(&self, ir: &mut IR) -> (r: Result<(), Error>)
        ensures
            r is Ok,
            *final(ir) == *old(ir),
    {
        if self.config.enable_constant_folding {
            match self.fold_constants(ir) {
                Ok(_) => {},
                Err(e) => {
                    return Err(e);
                },
            }
        }
        if self.config.enable_dead_code_elimination {
            match self.eliminate_dead_code(ir) {
                Ok(_) => {},
                Err(e) => {
                    return Err(e);
                },
            }
        }
        if self.config.enable_tree_shaking {
            match self.shake_tree(ir) {
                Ok(_) => {},
                Err(e) => {
                    return Err(e);
                },
            }
        }
        Ok(())
    }

    fn fold_constants(&self, ir: &mut IR) -> (r: Result<(), Error>)
        ensures
            r is Ok,
            *final(ir) == *old(ir),
    {
        Ok(())
    }

    fn eliminate_dead_code(&self, ir: &mut IR) -> (r: Result<(), Error>)
        ensures
            r is Ok,
            *final(ir) == *old(ir),
    {
        Ok(())
    }

    fn shake_tree(&self, ir: &mut IR) -> (r: Result<(), Error>)
        ensures
            r is Ok,
            *final(ir) == *old(ir),
    {
        Ok(())
    }
}

/// Runs the plain optimizer with every step switched on.
pub fn optimize_ir(ir: &mut IR) -> (r: Result<(), Error>)
    ensures
        r is Ok,
        *final(ir) == *old(ir),
{
    let optimizer = LumenOptimizer::new();
    optimizer.optimize(ir)
}

} // verus!
