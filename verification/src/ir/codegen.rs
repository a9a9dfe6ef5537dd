//! Generating IR from an AST.

use vstd::prelude::*;
use crate::common::{Context, Diag};
use crate::common::diag::diag1;
use crate::parser::ast::{Ast, Node, NodeKind};
use super::module::IrModule;

verus! {

/// The node under the semicolons that wrap `n`.
pub open spec fn under_semis(n: Node) -> Node
    decreases n,
{
    match n.kind {
        NodeKind::Semi(e) => under_semis(*e),
        _ => n,
    }
}

/// Whether `n` declares a constant.
pub open spec fn is_const_decl(n: Node) -> bool {
    n.kind is ShortConstDecl || n.kind is TypedConstDecl
}

/// Generates an IR module from ASTs.
pub struct Codegen<'a> {
    ctx: Context<'a>,
    pub module: IrModule<'a>,
}

impl<'a> Codegen<'a> {
    pub closed spec fn context(&self) -> Context<'a> {
        self.ctx
    }

    /// The module being filled.
    pub closed spec fn target(&self) -> IrModule<'a> {
        self.module
    }

    /// A generator filling an empty module called `name`.
    pub fn new(name: &str, ctx: Context<'a>) -> (r: Codegen<'a>)
        ensures
            r.context() == ctx,
            r.target().name() == name@,
            r.target().context() == ctx,
            r.target().callables().len() == 0,
            r.target().constants().len() == 0,
            r.target().constant_names().len() == 0,
    {
        Codegen { ctx: Context::clone(&ctx), module: IrModule::new(name, ctx) }
    }

    /// Generates the IR of `ast`. Nothing is generated yet: the module is left as it is and
    /// the result is `Ok`.
    pub fn generate(&mut self, ast: &Ast) -> (r: Result<(), Diag>)
        ensures
            r is Ok,
            final(self).target().callables() == old(self).target().callables(),
            final(self).target().constants() == old(self).target().constants(),
            final(self).target().constant_names() == old(self).target().constant_names(),
    {
        Ok(())
    }

    /// Accepts a root-level constant declaration, under any semicolons, and refuses any other
    /// node with a diagnostic over it.
    #[allow(dead_code)]
    fn collect_constant(&mut self, node: &Node) -> (r: Result<(), Diag>)
        ensures
            *final(self) == *old(self),
            r is Ok <==> is_const_decl(under_semis(*node)),
            r matches Err(d) ==> d@ == diag1("Expected root-level item"@, under_semis(*node).span.source_id,
                under_semis(*node).span.start, under_semis(*node).span.end,
                "expression is not a valid root-level item"@),
        decreases node,
    {
        match &node.kind {
            NodeKind::Semi(stmt) => self.collect_constant(stmt),
            NodeKind::ShortConstDecl { .. } | NodeKind::TypedConstDecl { .. } => Ok(()),
            _ => Err(Diag::single("Expected root-level item", node.span.source_id, node.span.start,
                node.span.end, "expression is not a valid root-level item")),
        }
    }
}

} // verus!
