//! Semantic analysis: types, constants, scopes and diagnostics.

pub mod ty;
pub mod errors;
pub mod symbol;
pub mod types;
pub mod constants;
pub mod scope;

use vstd::prelude::*;
use crate::common::Interner;
use crate::parser::ast::Ast;
use types::{TypeManager, PreDefinedTypes, TypeId, TypesV, primitive_types, register_all, intern_all, primitive_names};
use scope::{ScopeManager, SymbolMapV, SymbolMapKind};

verus! {

/// The semantic checker: the types and the scopes of a program.
pub struct SemaChecker {
    types: TypeManager,
    scope: ScopeManager,
}

impl SemaChecker {
    pub closed spec fn types(&self) -> TypesV {
        self.types@
    }

    pub closed spec fn wf(&self) -> bool {
        self.types.wf() && self.scope.wf()
    }

    /// A checker with the primitive types (their names interned into `interner`) and empty
    /// scopes.
    pub fn new(interner: &mut Interner) -> (r: SemaChecker)
        requires
            old(interner).wf(),
            old(interner).has_room(15),
        ensures
            r.wf(),
            final(interner).wf(),
            final(interner)@ == intern_all(old(interner)@, primitive_names(), 15),
            r.types() == (TypesV {
                pool: primitive_types(),
                registry: register_all(old(interner)@, primitive_names(), 15),
                coercions: Map::empty(),
                type_map: Map::empty(),
                predef: PreDefinedTypes { bool_id: TypeId(13), nil_id: TypeId(14), never_id: TypeId(15) },
            }),
    {
        SemaChecker { types: TypeManager::new(interner), scope: ScopeManager::new() }
    }

    /// Checks `ast`. Nothing is checked yet: the checker is left as it is.
    pub fn check(&mut self, ast: &Ast)
        ensures
            final(self).types() == old(self).types(),
            final(self).wf() == old(self).wf(),
    {
    }
}

} // verus!
