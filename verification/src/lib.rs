//! Fixed-tick simulation kernels: a Game of Life automaton whose every
//! generation is computed from one frozen snapshot of the previous one.

pub mod index;
pub mod laws;
pub mod rules;
pub mod scheduler;
pub mod seed;
pub mod world;
