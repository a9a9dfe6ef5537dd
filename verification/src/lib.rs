//! Miel: lexer, parser, type system and mid-level IR of a small programming language.

pub mod common;
pub mod lexer;
pub mod parser;
pub mod sema;
pub mod mir;
pub mod ir;
