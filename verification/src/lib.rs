//! Front end of a minimal statically typed language: a code generator that
//! walks syntax trees, checks types, and emits a typed register IR, together
//! with a reference machine that gives the IR its meaning.

pub mod codegen;
pub mod correctness;
pub mod error;
pub mod ir;
pub mod laws;
pub mod lowering;
pub mod machine;
pub mod myast;
pub mod types;
pub mod wrapper;
