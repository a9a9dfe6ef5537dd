//! Shared building blocks: source spans, diagnostics, operators and string interning.

pub mod span;
pub mod diag;
pub mod text;
pub mod intern;
pub mod operator;
pub mod ctx;
pub mod const_eval;

pub use span::Span;
pub use diag::{Diag, Label};
pub use operator::{Operator, ReassignmentOp};
pub use intern::{Interner, Sym};
pub use ctx::Context;
