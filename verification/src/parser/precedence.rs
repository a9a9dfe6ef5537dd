//! Operator precedence: how the grammar groups two infix operators between three names.

use vstd::prelude::*;
use crate::common::{Operator, Sym};
use crate::lexer::token::TokenKind;
use super::ast::{KindV, NodeV};
use super::grammar::{PCtx, bump, p_expr, p_infix, p_mutation};

verus! {

/// The operator and the operands of a binary operation.
pub open spec fn binary(e: NodeV) -> Option<(Operator, NodeV, NodeV)> {
    match e.kind {
        KindV::BinaryOp { op, lhs, rhs } => Some((op.0, *lhs, *rhs)),
        _ => None,
    }
}

/// The name that a node reads.
pub open spec fn name_of(e: NodeV) -> Option<Sym> {
    match e.kind {
        KindV::Identifier(s) => Some(s),
        _ => None,
    }
}

/// Whether the tokens from `pos` on are `a o1 b o2 d`, three names and two infix operators,
/// followed by the end of the input or by a token that continues no expression (no operator,
/// `(` or reassignment).
pub open spec fn three_names(c: PCtx, pos: int, o1: Operator, o2: Operator) -> bool {
    &&& 0 <= pos
    &&& pos + 5 <= c.toks.len()
    &&& c.toks[pos].kind is Identifier
    &&& c.toks[pos + 1].kind == TokenKind::Operator(o1)
    &&& c.toks[pos + 2].kind is Identifier
    &&& c.toks[pos + 3].kind == TokenKind::Operator(o2)
    &&& c.toks[pos + 4].kind is Identifier
    &&& o1.spec_can_infix()
    &&& o2.spec_can_infix()
    &&& !(c.has(pos + 5) && (c.toks[pos + 5].kind is Operator || c.toks[pos + 5].kind is LParen
        || c.toks[pos + 5].kind is Reassign))
}

/// Parsing from `pos` a name followed by an infix operator: the name is read as a leaf and
/// the operators after it are handled by `p_infix`.
proof fn lemma_name_then_operator(c: PCtx, pos: int, nid: usize, min_bp: usize)
    requires
        0 <= pos,
        pos + 1 < c.toks.len(),
        c.toks[pos].kind is Identifier,
        c.toks[pos + 1].kind is Operator,
    ensures
        p_expr(c, pos, nid, min_bp) == p_infix(c, pos + 1, bump(nid),
            super::grammar::mk(KindV::Identifier(c.toks[pos].kind->Identifier_0), c.toks[pos].span, nid), min_bp),
{
    assert(p_mutation(c, pos, nid).out is Err);
    assert(p_mutation(c, pos, nid).out == Err::<NodeV, Option<crate::common::diag::DiagV>>(None));
}

/// Parsing from `pos` a last name, after which no expression continues.
proof fn lemma_last_name(c: PCtx, pos: int, nid: usize, min_bp: usize)
    requires
        0 <= pos < c.toks.len(),
        c.toks[pos].kind is Identifier,
        !(c.has(pos + 1) && (c.toks[pos + 1].kind is Operator || c.toks[pos + 1].kind is LParen
            || c.toks[pos + 1].kind is Reassign)),
    ensures
        p_expr(c, pos, nid, min_bp).out == Ok::<NodeV, crate::common::diag::DiagV>(
            super::grammar::mk(KindV::Identifier(c.toks[pos].kind->Identifier_0), c.toks[pos].span, nid)),
        p_expr(c, pos, nid, min_bp).pos == pos + 1,
        p_expr(c, pos, nid, min_bp).nid == bump(nid),
{
    assert(p_mutation(c, pos, nid).out == Err::<NodeV, Option<crate::common::diag::DiagV>>(None));
    let x = super::grammar::mk(KindV::Identifier(c.toks[pos].kind->Identifier_0), c.toks[pos].span, nid);
    assert(p_infix(c, pos + 1, bump(nid), x, min_bp) == super::grammar::done(x, pos + 1, bump(nid)));
}

/// Of two infix operators between three names, `a o1 b o2 d`, the one that binds tighter takes
/// the name between them: where `o2` binds tighter than `o1` the expression is `a o1 (b o2 d)`,
/// and otherwise (operators that bind alike group from the left) it is `(a o1 b) o2 d`. So
/// `a + b / c` is `a + (b / c)` and `a - b + c` is `(a - b) + c`.
pub proof fn law_precedence(c: PCtx, pos: int, nid: usize, o1: Operator, o2: Operator)
    requires
        three_names(c, pos, o1, o2),
    ensures
        p_expr(c, pos, nid, 0).out is Ok,
        p_expr(c, pos, nid, 0).pos == pos + 5,
        ({
            let e = p_expr(c, pos, nid, 0).out->Ok_0;
            let a = c.toks[pos].kind->Identifier_0;
            let b = c.toks[pos + 2].kind->Identifier_0;
            let d = c.toks[pos + 4].kind->Identifier_0;
            let (op, l, r) = binary(e)->Some_0;
            &&& binary(e) is Some
            &&& if o1.spec_binding_power() < o2.spec_binding_power() {
                let (op2, y, z) = binary(r)->Some_0;
                &&& op == o1 && name_of(l) == Some(a)
                &&& binary(r) is Some && op2 == o2 && name_of(y) == Some(b) && name_of(z) == Some(d)
            } else {
                let (op1, x, y) = binary(l)->Some_0;
                &&& op == o2 && name_of(r) == Some(d)
                &&& binary(l) is Some && op1 == o1 && name_of(x) == Some(a) && name_of(y) == Some(b)
            }
        }),
{
    let a = c.toks[pos].kind->Identifier_0;
    let b = c.toks[pos + 2].kind->Identifier_0;
    let bp1 = o1.spec_binding_power();
    let bp2 = o2.spec_binding_power();
    let n1 = bump(nid);
    let x = super::grammar::mk(KindV::Identifier(a), c.toks[pos].span, nid);
    lemma_name_then_operator(c, pos, nid, 0);
    let inner_bp = (bp1 + 1) as usize;
    // The right operand of `o1`, parsed from `pos + 2` with `o1`'s binding power.
    lemma_name_then_operator(c, pos + 2, n1, inner_bp);
    let n2 = bump(n1);
    let y = super::grammar::mk(KindV::Identifier(b), c.toks[pos + 2].span, n1);
    let inner = p_expr(c, pos + 2, n1, inner_bp);
    assert(inner == p_infix(c, pos + 3, n2, y, inner_bp));
    lemma_last_name(c, pos + 4, n2, (bp2 + 1) as usize);
    let z_step = p_expr(c, pos + 4, n2, (bp2 + 1) as usize);
    let z = z_step.out->Ok_0;
    if bp1 < bp2 {
        let bnode = super::grammar::mk(
            KindV::BinaryOp { op: (o2, c.toks[pos + 3].span), lhs: Box::new(y), rhs: Box::new(z) },
            y.span.spec_concat(z.span), z_step.nid);
        assert(p_infix(c, pos + 5, bump(z_step.nid), bnode, inner_bp) == super::grammar::done(bnode, pos + 5, bump(z_step.nid)));
        assert(inner == super::grammar::done(bnode, pos + 5, bump(z_step.nid)));
        let anode = super::grammar::mk(
            KindV::BinaryOp { op: (o1, c.toks[pos + 1].span), lhs: Box::new(x), rhs: Box::new(bnode) },
            x.span.spec_concat(bnode.span), inner.nid);
        assert(p_infix(c, pos + 5, bump(inner.nid), anode, 0) == super::grammar::done(anode, pos + 5, bump(inner.nid)));
        assert(p_expr(c, pos, nid, 0) == super::grammar::done(anode, pos + 5, bump(inner.nid)));
    } else {
        assert(inner == super::grammar::done(y, pos + 3, n2));
        let anode = super::grammar::mk(
            KindV::BinaryOp { op: (o1, c.toks[pos + 1].span), lhs: Box::new(x), rhs: Box::new(y) },
            x.span.spec_concat(y.span), n2);
        let n3 = bump(n2);
        lemma_last_name(c, pos + 4, n3, (bp2 + 1) as usize);
        let z2_step = p_expr(c, pos + 4, n3, (bp2 + 1) as usize);
        let z2 = z2_step.out->Ok_0;
        let cnode = super::grammar::mk(
            KindV::BinaryOp { op: (o2, c.toks[pos + 3].span), lhs: Box::new(anode), rhs: Box::new(z2) },
            anode.span.spec_concat(z2.span), z2_step.nid);
        assert(p_infix(c, pos + 5, bump(z2_step.nid), cnode, 0) == super::grammar::done(cnode, pos + 5, bump(z2_step.nid)));
        assert(p_infix(c, pos + 3, n3, anode, 0) == super::grammar::done(cnode, pos + 5, bump(z2_step.nid)));
        assert(p_expr(c, pos, nid, 0) == super::grammar::done(cnode, pos + 5, bump(z2_step.nid)));
    }
}

/// Whether `o` is `+` or `-`.
pub open spec fn additive(o: Operator) -> bool {
    o is Plus || o is Minus
}

/// Whether `o` is `*`, `/` or `%`.
pub open spec fn multiplicative(o: Operator) -> bool {
    o is Star || o is Slash || o is Modulo
}

/// Multiplication, division and remainder bind tighter than addition and subtraction:
/// `a + b / d` is `a + (b / d)` and `a / b + d` is `(a / b) + d`; operators of one of these
/// two levels group from the left, so `a - b + d` is `(a - b) + d` and `a / b * d` is
/// `(a / b) * d`.
pub proof fn law_multiplicative_binds_tighter(c: PCtx, pos: int, nid: usize, o1: Operator, o2: Operator)
    requires
        three_names(c, pos, o1, o2),
        additive(o1) || multiplicative(o1),
        additive(o2) || multiplicative(o2),
    ensures
        ({
            let e = p_expr(c, pos, nid, 0).out->Ok_0;
            let (op, l, r) = binary(e)->Some_0;
            &&& p_expr(c, pos, nid, 0).out is Ok && binary(e) is Some
            &&& if additive(o1) && multiplicative(o2) {
                // a o1 (b o2 d)
                &&& op == o1 && name_of(l) == Some(c.toks[pos].kind->Identifier_0)
                &&& binary(r) is Some && binary(r)->Some_0.0 == o2
            } else {
                // (a o1 b) o2 d
                &&& op == o2 && name_of(r) == Some(c.toks[pos + 4].kind->Identifier_0)
                &&& binary(l) is Some && binary(l)->Some_0.0 == o1
            }
        }),
{
    super::super::common::operator::law_binding_power_levels();
    law_precedence(c, pos, nid, o1, o2);
}

} // verus!
