use vstd::prelude::*;
use super::intern::Interner;

verus! {

/// What the compiler passes know of the source being compiled: its interned strings and its id.
pub struct Context<'ctx> {
    pub interner: &'ctx Interner,
    pub source_id: usize,
}

impl<'ctx> Context<'ctx> {
    /// The same context.
    pub fn clone(&self) -> (r: Context<'ctx>)
        ensures
            r.interner == self.interner,
            r.source_id == self.source_id,
    {
        Context { interner: self.interner, source_id: self.source_id }
    }
}

} // verus!
