//! A small interpreter for a fixed-format, AArch64-inspired assembly
//! language: a loader that turns program text into a typed instruction
//! sequence, and an execution engine that runs that sequence against a
//! flat file of 31 unsigned 64-bit registers and a single condition flag.

pub mod eval;
pub mod parser;
