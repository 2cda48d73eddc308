//! What holds of every program of a given shape, and of every state of the
//! code generator.

pub mod branches;
pub mod calls;
pub mod expressions;
pub mod programs;
pub mod recursion;
pub mod redefinition;
pub mod tables;
