//! Bounded model checking queries from VMT transition systems.
//!
//! A VMT script is an SMT-LIB script whose trailing declarations carry the
//! initial condition, the transition relation and the safety property of a
//! symbolic transition system. This crate extracts that system, renames its
//! symbols into time-indexed copies to unroll it for a fixed number of steps,
//! and renders the resulting satisfiability query as SMT-LIB text.

pub mod text;
pub mod syntax;
pub mod builder;
pub mod model;
pub mod smt;
pub mod array_abstractor;
pub mod laws;
