//! Simulated annealing: the solver's parameters and the staged schedule that
//! decides, from one acceptance outcome after another, when the search cools
//! and when it ends.

pub mod solver;
pub mod schedule;
pub mod laws;
