//! A small compiler from a toy systems language to RISC-V assembly:
//! a hand-written parser, a semantic analyzer with constant folding, and
//! an instruction generator, each stated against a mathematical model.

pub mod text;
pub mod parser;
pub mod nodes;
pub mod shared_store;
pub mod analysis;
pub mod generator;
