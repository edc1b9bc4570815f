use crate::text::{lowercase_of, names_of, str_eq, to_lowercase};
use vstd::prelude::*;

verus! {

/// How hard the pipeline tries, from `Off` up to `Aggressive`.
#[derive(Debug, Clone, Copy, PartialEq, Eq, Structural)]
pub enum OptimizationLevel {
    Off,
    Basic,
    Normal,
    Aggressive,
}

/// The level that a lower-case name stands for; `Normal` for any other text.
pub open spec fn level_named(lower: Seq<char>) -> OptimizationLevel {
    if lower == "none"@ {
        OptimizationLevel::Off
    } else if lower == "basic"@ {
        OptimizationLevel::Basic
    } else if lower == "normal"@ {
        OptimizationLevel::Normal
    } else if lower == "aggressive"@ {
        OptimizationLevel::Aggressive
    } else {
        OptimizationLevel::Normal
    }
}

impl OptimizationLevel {
    /// The place of a level in the order none < basic < normal < aggressive.
    pub open spec fn rank(self) -> int {
        match self {
            OptimizationLevel::Off => 0,
            OptimizationLevel::Basic => 1,
            OptimizationLevel::Normal => 2,
            OptimizationLevel::Aggressive => 3,
        }
    }

    /// Whether `self` is at least as high as `other`.
    pub fn at_least(self, other: OptimizationLevel) -> (r: bool)
        ensures
            r == (self.rank() >= other.rank()),
    {
        let a: u8 = match self {
            OptimizationLevel::Off => 0,
            OptimizationLevel::Basic => 1,
            OptimizationLevel::Normal => 2,
            OptimizationLevel::Aggressive => 3,
        };
        let b: u8 = match other {
            OptimizationLevel::Off => 0,
            OptimizationLevel::Basic => 1,
            OptimizationLevel::Normal => 2,
            OptimizationLevel::Aggressive => 3,
        };
        a >= b
    }

    /// The level named by a text that is already in lower case.
    pub fn from_lowercase(lower: &str) -> (level: Self)
        ensures
            level == level_named(lower@),
    {
        if str_eq(lower, "none") {
            OptimizationLevel::Off
        } else if str_eq(lower, "basic") {
            OptimizationLevel::Basic
        } else if str_eq(lower, "normal") {
            OptimizationLevel::Normal
        } else if str_eq(lower, "aggressive") {
            OptimizationLevel::Aggressive
        } else {
            OptimizationLevel::Normal
        }
    }

    /// The level named by a text, whatever its case; `Normal` where the
    /// text names none.
    pub fn from_str(s: &str) -> (level: Self)
        ensures
            level == level_named(lowercase_of(s@)),
    {
        let lower = to_lowercase(s);
        Self::from_lowercase(lower.as_str())
    }
}

/// What one run of the pipeline is configured with.
#[derive(Debug, Clone)]
pub struct OptimizerOptions {
    pub level: OptimizationLevel,
    pub minify: bool,
    pub inline: bool,
    pub dce: bool,
    pub const_folding: bool,
    pub type_inference: bool,
    /// Names that no pass may remove.
    pub preserved_globals: Vec<String>,
    pub use_gpu: bool,
}

/// Whether two sets of options say the same.
pub open spec fn same_options(a: OptimizerOptions, b: OptimizerOptions) -> bool {
    &&& a.level == b.level
    &&& a.minify == b.minify
    &&& a.inline == b.inline
    &&& a.dce == b.dce
    &&& a.const_folding == b.const_folding
    &&& a.type_inference == b.type_inference
    &&& a.use_gpu == b.use_gpu
    &&& names_of(a.preserved_globals@) == names_of(b.preserved_globals@)
}

impl OptimizerOptions {
    /// Normal level, every feature on but the GPU, and the three browser
    /// globals preserved.
    pub fn default_options() -> (o: OptimizerOptions)
        ensures
            o.level == OptimizationLevel::Normal,
            o.minify && o.inline && o.dce && o.const_folding && o.type_inference && !o.use_gpu,
            names_of(o.preserved_globals@) == seq!["window"@, "document"@, "console"@],
    {
        let mut preserved: Vec<String> = Vec::new();
        preserved.push("window".to_owned());
        preserved.push("document".to_owned());
        preserved.push("console".to_owned());
        assert(names_of(preserved@) =~= seq!["window"@, "document"@, "console"@]);
        OptimizerOptions {
            level: OptimizationLevel::Normal,
            minify: true,
            inline: true,
            dce: true,
            const_folding: true,
            type_inference: true,
            preserved_globals: preserved,
            use_gpu: false,
        }
    }

    /// A copy of these options.
    pub fn duplicate(&self) -> (o: OptimizerOptions)
        ensures
            same_options(o, *self),
    {
        let mut preserved: Vec<String> = Vec::new();
        let mut i: usize = 0;
        while i < self.preserved_globals.len()
            invariant
                i <= self.preserved_globals.len(),
                preserved.len() == i,
                forall|j: int| 0 <= j < i ==> preserved@[j]@ == self.preserved_globals@[j]@,
            decreases self.preserved_globals.len() - i,
        {
            preserved.push(self.preserved_globals[i].clone());
            i = i + 1;
        }
        assert(names_of(preserved@) =~= names_of(self.preserved_globals@));
        OptimizerOptions {
            level: self.level,
            minify: self.minify,
            inline: self.inline,
            dce: self.dce,
            const_folding: self.const_folding,
            type_inference: self.type_inference,
            preserved_globals: preserved,
            use_gpu: self.use_gpu,
        }
    }
}

impl Default for OptimizerOptions {
    fn default() -> (o: OptimizerOptions)
        ensures
            o.level == OptimizationLevel::Normal,
            o.minify && o.inline && o.dce && o.const_folding && o.type_inference && !o.use_gpu,
            names_of(o.preserved_globals@) == seq!["window"@, "document"@, "console"@],
    {
        OptimizerOptions::default_options()
    }
}

/// What one pass reports of one run.
#[derive(Debug, Clone)]
pub struct OptimizationResult {
    /// The name of the pass.
    pub optimizer: String,
    pub success: bool,
    pub time_ms: u64,
    /// Nodes under the root after the pass, less those before it.
    pub nodes_delta: isize,
    /// The change of the estimated size of the output, in bytes.
    pub size_delta: isize,
    /// Free-form diagnostics, as keys with their values.
    pub details: Vec<(String, String)>,
}

/// The diagnostics of a result as plain text.
pub open spec fn details_model(s: Seq<(String, String)>) -> Seq<(Seq<char>, Seq<char>)> {
    Seq::new(s.len(), |i: int| (s[i].0@, s[i].1@))
}

/// The bytes of output that one node is taken to stand for.
pub const ESTIMATED_NODE_BYTES: isize = 16;

/// `x`, or the nearest of `-isize::MAX` and `isize::MAX` where it is beyond them.
pub open spec fn clamped(x: int) -> int {
    if x > isize::MAX {
        isize::MAX as int
    } else if x < -isize::MAX {
        -isize::MAX
    } else {
        x
    }
}

/// A count after a pass less the count before it, as a signed number.
pub fn signed_delta(after: usize, before: usize) -> (d: isize)
    ensures
        d == clamped(after - before),
{
    if after >= before {
        let up = after - before;
        if up > isize::MAX as usize {
            isize::MAX
        } else {
            up as isize
        }
    } else {
        let down = before - after;
        if down > isize::MAX as usize {
            -isize::MAX
        } else {
            -(down as isize)
        }
    }
}

/// The change of the estimated output size that goes with a change of
/// the number of nodes.
pub fn estimated_size_delta(nodes_delta: isize) -> (d: isize)
    ensures
        d == clamped(nodes_delta * ESTIMATED_NODE_BYTES),
{
    let limit = isize::MAX / ESTIMATED_NODE_BYTES;
    if nodes_delta > limit {
        isize::MAX
    } else if nodes_delta < -limit {
        -isize::MAX
    } else {
        nodes_delta * ESTIMATED_NODE_BYTES
    }
}

} // verus!
