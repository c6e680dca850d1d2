//! A genetic algorithm for the knapsack problem with two capacities.
//!
//! A candidate solution is a genome: one bit per item. A population is a
//! grid of genomes. Each generation is evaluated against the task, parents
//! are chosen by tournament, recombined at a cutting point and mutated, and
//! the children replace their parents. Every function comes with a contract
//! that is proved of its body; what is taken on trust of `nalgebra`, `rand`,
//! `rayon` and `crossbeam` is said where they are called.

pub mod algorithm;
pub mod individual;
pub mod loader;
pub mod matrix;
pub mod population;
pub mod random;
pub mod rate;
pub mod task;
pub mod utils;
