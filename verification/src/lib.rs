//! A player core for block-based visual programs: a nested tree of command
//! blocks is compiled into a flat, jump-addressable instruction list, and a
//! cooperative, tick-driven scheduler executes many such programs against a
//! mutable scene of objects and variables.
//!
//! Numbers are fixed-point decimals with three fractional digits, so every
//! arithmetic step has an exact, stated result.

pub mod compile;
pub mod engine;
pub mod instruction;
pub mod memory;
pub mod num;
pub mod scene;
pub mod state;
pub mod step;
pub mod text;
pub mod value;
