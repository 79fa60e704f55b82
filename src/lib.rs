//! A virtual processor that runs small self-replicating programs on a
//! growable tape of instructions.

pub mod bpu;
