//! Semantic analysis for a small contract language: lexical scopes, symbol
//! resolution and type computation over a mutable syntax tree.

pub mod ast;
pub mod error;
pub mod fixpoint;
pub mod growth;
pub mod laws;
pub mod model;
pub mod prophet;
pub mod sema;
pub mod symbol;
pub mod types;
