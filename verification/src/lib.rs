//! Execution core of a small interpreted language: a reference-counted value
//! store addressed by identifiers, a per-scope dictionary from variable names
//! to identifiers, and a scope that runs one instruction per step.

pub mod error;
pub mod instruction;
pub mod memory;
pub mod scope;
