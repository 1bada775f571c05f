//! Small verified kernels for working with owned data: counters and
//! identifiers, whitespace normalization and joining, sorted
//! de-duplication and binary search, byte and integer sums, frequency
//! counting, vector transforms, a command-list interpreter, pattern
//! classification, adder closures, and arithmetic workloads.

pub mod animals;
pub mod closures;
pub mod cmds;
pub mod counters;
pub mod iterating;
pub mod lists;
pub mod patterns;
pub mod sequences;
pub mod tally;
pub mod text;
pub mod vecs;
pub mod workloads;
