//! The parameters of an annealing run.

use vstd::prelude::*;

verus! {

/// Bit pattern of the binary64 number 100.0, the default starting temperature.
pub const DEFAULT_INITIAL_TEMPERATURE: u64 = 0x4059_0000_0000_0000;

/// Bit pattern of the binary64 number nearest to 0.95, the default cooling factor.
pub const DEFAULT_TEMPERATURE_REDUCTION: u64 = 0x3FEE_6666_6666_6666;

/// The six parameters of an annealing run.
///
/// The two temperatures are real numbers. They are carried as the bit patterns
/// of IEEE 754 binary64 values: nothing here computes with them, they are
/// handed through to whoever does.
#[derive(Debug, Clone, Copy, PartialEq, Eq, Structural)]
pub struct Solver {
    /// Hard cap on the number of candidates evaluated.
    pub iterations: u64,
    /// Starting temperature, as binary64 bits.
    pub initial_temperature: u64,
    /// Factor by which the temperature is multiplied at the end of each
    /// stage, as binary64 bits. Expected to lie between 0 and 1.
    pub temperature_reduction: u64,
    /// Candidates evaluated in one stage before the temperature is lowered.
    pub max_attempts: u64,
    /// Candidates accepted in one stage before the temperature is lowered.
    pub max_accepts: u64,
    /// Consecutive stages without a single acceptance that end the search.
    pub max_rejects: u64,
}

impl Solver {
    /// The default parameters.
    pub open spec fn standard() -> Solver {
        Solver {
            iterations: 1_000_000,
            initial_temperature: DEFAULT_INITIAL_TEMPERATURE,
            temperature_reduction: DEFAULT_TEMPERATURE_REDUCTION,
            max_attempts: 50,
            max_accepts: 10,
            max_rejects: 4,
        }
    }

    /// A solver with the default parameters.
    pub fn new() -> (solver: Solver)
        ensures
            solver == Solver::standard(),
    {
        Solver {
            iterations: 1_000_000,
            initial_temperature: DEFAULT_INITIAL_TEMPERATURE,
            temperature_reduction: DEFAULT_TEMPERATURE_REDUCTION,
            max_attempts: 50,
            max_accepts: 10,
            max_rejects: 4,
        }
    }

    /// A solver with the default parameters as `builder` has changed them.
    ///
    /// `builder` is applied once, to the default parameters, and what it leaves
    /// behind is returned.
    pub fn build_new<F>(builder: F) -> (solver: Solver) where F: FnOnce(&mut Solver)
        requires
            forall|s: &mut Solver| *s == Solver::standard() ==> call_requires(builder, (s,)),
        ensures
            exists|s: &mut Solver|
                *s == Solver::standard() && *final(s) == solver && call_ensures(builder, (s,), ()),
    {
        let mut solver = Solver::new();
        builder(&mut solver);
        solver
    }
}

impl Default for Solver {
    fn default() -> (solver: Solver)
        ensures
            solver == Solver::standard(),
    {
        Solver::new()
    }
}

} // verus!
