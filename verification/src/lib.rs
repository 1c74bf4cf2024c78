//! Function values of a small scripting language: native functions, closures
//! and partial applications, the protocol by which they are called, and the
//! analysis that decides which outer variables a closure literal captures.

pub mod value;
pub mod error;
pub mod args;
pub mod scope;
pub mod syntax;
pub mod capture;
pub mod machine;
pub mod func;
pub mod laws;
