//! Semiring expressions for equality saturation: the language of nodes,
//! the analysis of free variables and constants, and the rewrite tables.
pub mod analysis;
pub mod lang;
pub mod meaning;
pub mod rewrites;
pub mod smt;
pub mod soundness;
pub mod text;
