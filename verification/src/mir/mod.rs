//! MIR: the mid-level intermediate representation, built block by block.

pub mod ty;
pub mod inst;
pub mod block;
pub mod callable;
pub mod builder;
pub mod module;
