[package]
name = "knapsack_ga"
version = "0.1.0"
edition = "2021"
publish = false

[dependencies]
crossbeam = "0.7"
nalgebra = "0.21"
rand = "0.7"
rayon = "1"
structopt = "0.3"
