pub mod mutation_diff;
