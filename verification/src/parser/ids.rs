//! Node ids: the parser numbers the nodes it builds from a counter, so no two nodes of a
//! parsed source share an id while the counter has not passed `usize::MAX`.

use vstd::prelude::*;
use crate::lexer::token::TokenKind;
use super::ast::{KindV, NodeV};
use super::grammar::{
    PCtx, bump, callable_body, p_args, p_block, p_block_items, p_callable, p_decl, p_expr, p_if,
    p_infix, p_mutation, p_param, p_params, p_paren, p_paren_items, p_primary, p_return,
    p_statement, p_stmts, p_type, p_type_items, p_type_paren, p_while, typed_decl,
};

verus! {

/// The value of the id counter `k` steps after `n`.
pub open spec fn bumped(n: usize, k: nat) -> usize
    decreases k,
{
    if k == 0 {
        n
    } else {
        bump(bumped(n, (k - 1) as nat))
    }
}

/// The ids of a tree, each node's after those of its children, in the order the parser
/// gives them.
pub open spec fn node_ids(n: NodeV) -> Seq<usize>
    decreases n,
{
    let below = match n.kind {
        KindV::BinaryOp { lhs, rhs, .. } => node_ids(*lhs) + node_ids(*rhs),
        KindV::UnaryOp { operand, .. } => node_ids(*operand),
        KindV::Tuple(items) => nodes_ids(items),
        KindV::Block(stmts) => nodes_ids(stmts),
        KindV::Semi(e) => node_ids(*e),
        KindV::Callable { body, .. } => nodes_ids(body),
        KindV::Call { callee, args } => node_ids(*callee) + nodes_ids(args),
        KindV::ShortVarDecl { expr, .. } => node_ids(*expr),
        KindV::TypedVarDecl { expr, .. } => node_ids(*expr),
        KindV::Mutation { expr, .. } => node_ids(*expr),
        KindV::ShortConstDecl { expr, .. } => node_ids(*expr),
        KindV::TypedConstDecl { expr, .. } => node_ids(*expr),
        KindV::If { cond, then, else_ } => node_ids(*cond) + node_ids(*then) + match else_ {
            Some(e) => node_ids(*e),
            None => Seq::empty(),
        },
        KindV::While { cond, body } => node_ids(*cond) + node_ids(*body),
        KindV::Return(Some(e)) => node_ids(*e),
        _ => Seq::empty(),
    };
    below.push(n.id.0)
}

/// The ids of a sequence of trees, tree after tree.
pub open spec fn nodes_ids(s: Seq<NodeV>) -> Seq<usize>
    decreases s,
{
    if s.len() == 0 {
        Seq::empty()
    } else {
        nodes_ids(s.drop_last()) + node_ids(s.last())
    }
}

/// Whether `ids` are the counter values at the rising steps `idx`, all in `lo..hi`, of a
/// counter started at `n0`.
pub open spec fn drawn(ids: Seq<usize>, n0: usize, lo: nat, hi: nat, idx: Seq<nat>) -> bool {
    &&& idx.len() == ids.len()
    &&& forall|i: int| 0 <= i < idx.len() ==> lo <= #[trigger] idx[i] < hi && ids[i] == bumped(n0, idx[i])
    &&& forall|i: int, j: int| 0 <= i < j < idx.len() ==> idx[i] < idx[j]
}

proof fn lemma_drawn_concat(a: Seq<usize>, ia: Seq<nat>, b: Seq<usize>, ib: Seq<nat>, n0: usize, lo: nat, mid: nat, hi: nat)
    requires
        drawn(a, n0, lo, mid, ia),
        drawn(b, n0, mid, hi, ib),
        lo <= mid <= hi,
    ensures
        drawn(a + b, n0, lo, hi, ia + ib),
{
    let s = ia + ib;
    assert forall|i: int| 0 <= i < s.len() implies lo <= #[trigger] s[i] < hi && (a + b)[i] == bumped(n0, s[i]) by {
        if i >= ia.len() {
            assert(s[i] == ib[i - ia.len()]);
            assert((a + b)[i] == b[i - a.len()]);
        } else {
            assert(s[i] == ia[i]);
            assert((a + b)[i] == a[i]);
        }
    }
    assert forall|i: int, j: int| 0 <= i < j < s.len() implies s[i] < s[j] by {
        if j < ia.len() {
        } else if i >= ia.len() {
            assert(s[i] == ib[i - ia.len()]);
            assert(s[j] == ib[j - ia.len()]);
        } else {
            assert(s[i] == ia[i]);
            assert(s[j] == ib[j - ia.len()]);
        }
    }
}

proof fn lemma_drawn_push(a: Seq<usize>, ia: Seq<nat>, n0: usize, lo: nat, k: nat)
    requires
        drawn(a, n0, lo, k, ia),
        lo <= k,
    ensures
        drawn(a.push(bumped(n0, k)), n0, lo, k + 1, ia.push(k)),
        bump(bumped(n0, k)) == bumped(n0, k + 1),
{
    let s = ia.push(k);
    assert forall|i: int| 0 <= i < s.len() implies lo <= #[trigger] s[i] < k + 1
        && a.push(bumped(n0, k))[i] == bumped(n0, s[i]) by {
        if i < ia.len() {
            assert(s[i] == ia[i]);
        }
    }
    assert forall|i: int, j: int| 0 <= i < j < s.len() implies s[i] < s[j] by {
        assert(s[i] == ia[i]);
        if j < ia.len() {
            assert(s[j] == ia[j]);
        }
    }
}

proof fn lemma_drawn_widen(a: Seq<usize>, ia: Seq<nat>, n0: usize, lo: nat, hi: nat, lo2: nat, hi2: nat)
    requires
        drawn(a, n0, lo, hi, ia),
        lo2 <= lo,
        hi <= hi2,
    ensures
        drawn(a, n0, lo2, hi2, ia),
{
}

proof fn lemma_nodes_ids_push(s: Seq<NodeV>, x: NodeV)
    ensures
        nodes_ids(s.push(x)) == nodes_ids(s) + node_ids(x),
{
    assert(s.push(x).drop_last() =~= s);
}

proof fn lemma_nodes_ids_one(s: Seq<NodeV>)
    requires
        s.len() == 1,
    ensures
        nodes_ids(s) == node_ids(s[0]),
{
    assert(s.drop_last() =~= Seq::<NodeV>::empty());
    assert(nodes_ids(s.drop_last()) == Seq::<usize>::empty());
    assert(s.last() == s[0]);
    assert(nodes_ids(s) =~= node_ids(s[0]));
}

// ---------------------------------------------------------------------------------------------
// Types and parameters take no ids
// ---------------------------------------------------------------------------------------------

proof fn type_keeps_nid(c: PCtx, pos: int, nid: usize)
    ensures
        p_type(c, pos, nid).nid == nid,
    decreases c.toks.len() - pos, 2int,
{
    if c.has(pos) && c.toks[pos].kind == TokenKind::LParen {
        type_paren_keeps_nid(c, pos, nid);
    }
}

proof fn type_paren_keeps_nid(c: PCtx, pos: int, nid: usize)
    ensures
        p_type_paren(c, pos, nid).nid == nid,
    decreases c.toks.len() - pos, 1int,
{
    if c.at(pos, TokenKind::LParen) {
        type_items_keeps_nid(c, pos + 1, nid, Seq::empty(), false);
    }
}

proof fn type_items_keeps_nid(c: PCtx, pos: int, nid: usize, acc: Seq<super::ast::ParsedTypeV>, is_tuple: bool)
    ensures
        p_type_items(c, pos, nid, acc, is_tuple).nid == nid,
    decreases c.toks.len() - pos, 3int,
{
    if c.has(pos) {
        type_keeps_nid(c, pos, nid);
        let r = p_type(c, pos, nid);
        if let Ok(t) = r.out {
            if c.at(r.pos, TokenKind::Comma) && r.pos >= pos {
                type_items_keeps_nid(c, r.pos + 1, r.nid, acc.push(t), true);
            }
        }
    }
}

proof fn params_keep_nid(c: PCtx, pos: int, nid: usize, acc: Seq<super::ast::ParamV>)
    ensures
        p_params(c, pos, nid, acc).nid == nid,
    decreases c.toks.len() - pos,
{
    if !(!c.has(pos) || c.at(pos, TokenKind::RParen)) {
        if c.ident_at(pos) && c.at(pos + 1, TokenKind::Colon) {
            type_keeps_nid(c, pos + 2, nid);
        }
        let r = p_param(c, pos, nid);
        if let Ok(p) = r.out {
            if c.at(r.pos, TokenKind::Comma) && r.pos >= pos {
                params_keep_nid(c, r.pos + 1, r.nid, acc.push(p));
            }
        }
    }
}

// ---------------------------------------------------------------------------------------------
// Expressions: each rule started at step `k0` of a counter started at `n0` stops at some step
// `k` no earlier, and the ids of what it builds are drawn from the steps between
// ---------------------------------------------------------------------------------------------

proof fn ids_expr(c: PCtx, pos: int, n0: usize, k0: nat, min_bp: usize) -> (res: (nat, Seq<nat>))
    ensures
        k0 <= res.0,
        p_expr(c, pos, bumped(n0, k0), min_bp).nid == bumped(n0, res.0),
        p_expr(c, pos, bumped(n0, k0), min_bp).out matches Ok(v) ==> drawn(node_ids(v), n0, k0, res.0, res.1),
    decreases c.toks.len() - pos, 3int,
{
    let nid = bumped(n0, k0);
    let m = p_mutation(c, pos, nid);
    let rm = ids_mutation(c, pos, n0, k0);
    match m.out {
        Ok(_) => rm,
        Err(Some(_)) => rm,
        Err(None) => {
            let p = p_primary(c, pos, nid);
            let rp = ids_primary(c, pos, n0, k0);
            match p.out {
                Err(_) => rp,
                Ok(lhs) => if pos <= p.pos <= c.toks.len() {
                    ids_infix(c, p.pos, n0, k0, rp.0, lhs, rp.1, min_bp)
                } else {
                    rp
                },
            }
        },
    }
}

proof fn ids_infix(c: PCtx, pos: int, n0: usize, lo: nat, k0: nat, lhs: NodeV, il: Seq<nat>, min_bp: usize) -> (res: (nat, Seq<nat>))
    requires
        lo <= k0,
        drawn(node_ids(lhs), n0, lo, k0, il),
    ensures
        k0 <= res.0,
        p_infix(c, pos, bumped(n0, k0), lhs, min_bp).nid == bumped(n0, res.0),
        p_infix(c, pos, bumped(n0, k0), lhs, min_bp).out matches Ok(v) ==> drawn(node_ids(v), n0, lo, res.0, res.1),
    decreases c.toks.len() - pos, 1int,
{
    let nid = bumped(n0, k0);
    if !c.has(pos) {
        (k0, il)
    } else {
        let t = c.toks[pos];
        match t.kind {
            TokenKind::Operator(op) => if !op.spec_can_infix() || op.spec_binding_power() < min_bp {
                (k0, il)
            } else {
                let bp = (op.spec_binding_power() + 1) as usize;
                let r = p_expr(c, pos + 1, nid, bp);
                let rr = ids_expr(c, pos + 1, n0, k0, bp);
                match r.out {
                    Err(_) => rr,
                    Ok(rhs) => {
                        let n = super::grammar::mk(
                            KindV::BinaryOp { op: (op, t.span), lhs: Box::new(lhs), rhs: Box::new(rhs) },
                            lhs.span.spec_concat(rhs.span),
                            r.nid,
                        );
                        lemma_drawn_concat(node_ids(lhs), il, node_ids(rhs), rr.1, n0, lo, k0, rr.0);
                        lemma_drawn_push(node_ids(lhs) + node_ids(rhs), il + rr.1, n0, lo, rr.0);
                        assert(node_ids(n) == (node_ids(lhs) + node_ids(rhs)).push(bumped(n0, rr.0)));
                        if pos < r.pos <= c.toks.len() {
                            ids_infix(c, r.pos, n0, lo, rr.0 + 1, n, (il + rr.1).push(rr.0), min_bp)
                        } else {
                            (rr.0 + 1, (il + rr.1).push(rr.0))
                        }
                    },
                }
            },
            TokenKind::LParen => {
                let a = p_args(c, pos + 1, nid, Seq::empty());
                let ra = ids_args(c, pos + 1, n0, k0, k0, Seq::empty(), Seq::empty());
                match a.out {
                    Err(_) => ra,
                    Ok(args) => if !c.at(a.pos, TokenKind::RParen) {
                        ra
                    } else {
                        let n = super::grammar::mk(
                            KindV::Call { callee: Box::new(lhs), args },
                            t.span.spec_concat(c.toks[a.pos].span),
                            a.nid,
                        );
                        lemma_drawn_concat(node_ids(lhs), il, nodes_ids(args), ra.1, n0, lo, k0, ra.0);
                        lemma_drawn_push(node_ids(lhs) + nodes_ids(args), il + ra.1, n0, lo, ra.0);
                        assert(node_ids(n) == (node_ids(lhs) + nodes_ids(args)).push(bumped(n0, ra.0)));
                        if a.pos >= pos {
                            ids_infix(c, a.pos + 1, n0, lo, ra.0 + 1, n, (il + ra.1).push(ra.0), min_bp)
                        } else {
                            (ra.0 + 1, (il + ra.1).push(ra.0))
                        }
                    },
                }
            },
            _ => (k0, il),
        }
    }
}

proof fn ids_args(c: PCtx, pos: int, n0: usize, lo: nat, k0: nat, acc: Seq<NodeV>, ia: Seq<nat>) -> (res: (nat, Seq<nat>))
    requires
        lo <= k0,
        drawn(nodes_ids(acc), n0, lo, k0, ia),
    ensures
        k0 <= res.0,
        p_args(c, pos, bumped(n0, k0), acc).nid == bumped(n0, res.0),
        p_args(c, pos, bumped(n0, k0), acc).out matches Ok(v) ==> drawn(nodes_ids(v), n0, lo, res.0, res.1),
    decreases c.toks.len() - pos, 4int,
{
    let nid = bumped(n0, k0);
    if !c.has(pos) || c.at(pos, TokenKind::RParen) {
        (k0, ia)
    } else {
        let r = p_expr(c, pos, nid, 0);
        let re = ids_expr(c, pos, n0, k0, 0);
        match r.out {
            Err(_) => re,
            Ok(e) => {
                lemma_nodes_ids_push(acc, e);
                lemma_drawn_concat(nodes_ids(acc), ia, node_ids(e), re.1, n0, lo, k0, re.0);
                if c.at(r.pos, TokenKind::Comma) && r.pos >= pos {
                    ids_args(c, r.pos + 1, n0, lo, re.0, acc.push(e), ia + re.1)
                } else {
                    (re.0, ia + re.1)
                }
            },
        }
    }
}

proof fn ids_mutation(c: PCtx, pos: int, n0: usize, k0: nat) -> (res: (nat, Seq<nat>))
    ensures
        k0 <= res.0,
        p_mutation(c, pos, bumped(n0, k0)).nid == bumped(n0, res.0),
        p_mutation(c, pos, bumped(n0, k0)).out matches Ok(v) ==> drawn(node_ids(v), n0, k0, res.0, res.1),
    decreases c.toks.len() - pos, 1int,
{
    let nid = bumped(n0, k0);
    if !c.ident_at(pos) || !(c.has(pos + 1) && c.toks[pos + 1].kind is Reassign) {
        (k0, Seq::empty())
    } else {
        let r = p_expr(c, pos + 2, nid, 0);
        let re = ids_expr(c, pos + 2, n0, k0, 0);
        match r.out {
            Err(_) => re,
            Ok(e) => {
                lemma_drawn_push(node_ids(e), re.1, n0, k0, re.0);
                (re.0 + 1, re.1.push(re.0))
            },
        }
    }
}

proof fn ids_leaf(n0: usize, k0: nat)
    ensures
        drawn(seq![bumped(n0, k0)], n0, k0, k0 + 1, seq![k0]),
        bump(bumped(n0, k0)) == bumped(n0, k0 + 1),
{
    lemma_drawn_push(Seq::empty(), Seq::empty(), n0, k0, k0);
    assert(Seq::<usize>::empty().push(bumped(n0, k0)) =~= seq![bumped(n0, k0)]);
    assert(Seq::<nat>::empty().push(k0) =~= seq![k0]);
}

proof fn ids_primary(c: PCtx, pos: int, n0: usize, k0: nat) -> (res: (nat, Seq<nat>))
    ensures
        k0 <= res.0,
        p_primary(c, pos, bumped(n0, k0)).nid == bumped(n0, res.0),
        p_primary(c, pos, bumped(n0, k0)).out matches Ok(v) ==> drawn(node_ids(v), n0, k0, res.0, res.1),
    decreases c.toks.len() - pos, 2int,
{
    let nid = bumped(n0, k0);
    if !c.has(pos) {
        (k0, Seq::empty())
    } else {
        let t = c.toks[pos];
        match t.kind {
            TokenKind::LParen => ids_paren(c, pos, n0, k0),
            TokenKind::LCurly => ids_block(c, pos, n0, k0),
            TokenKind::Operator(op) => if op.spec_can_prefix() {
                let r = p_expr(c, pos + 1, nid, 0);
                let re = ids_expr(c, pos + 1, n0, k0, 0);
                match r.out {
                    Err(_) => re,
                    Ok(e) => {
                        lemma_drawn_push(node_ids(e), re.1, n0, k0, re.0);
                        (re.0 + 1, re.1.push(re.0))
                    },
                }
            } else {
                (k0, Seq::empty())
            },
            TokenKind::KwCallable => ids_callable(c, pos, n0, k0),
            TokenKind::KwIf => ids_if(c, pos, n0, k0),
            TokenKind::KwWhile => ids_while(c, pos, n0, k0),
            TokenKind::KwReturn => ids_return(c, pos, n0, k0),
            TokenKind::IntLit(_) | TokenKind::FloatLit(_) | TokenKind::BoolLit(_) | TokenKind::StringLit(_)
            | TokenKind::Identifier(_) | TokenKind::KwNil | TokenKind::KwBreak | TokenKind::KwContinue => {
                ids_leaf(n0, k0);
                (k0 + 1, seq![k0])
            },
            _ => (k0, Seq::empty()),
        }
    }
}

proof fn ids_paren(c: PCtx, pos: int, n0: usize, k0: nat) -> (res: (nat, Seq<nat>))
    ensures
        k0 <= res.0,
        p_paren(c, pos, bumped(n0, k0)).nid == bumped(n0, res.0),
        p_paren(c, pos, bumped(n0, k0)).out matches Ok(v) ==> drawn(node_ids(v), n0, k0, res.0, res.1),
    decreases c.toks.len() - pos, 1int,
{
    let nid = bumped(n0, k0);
    if !c.at(pos, TokenKind::LParen) {
        (k0, Seq::empty())
    } else {
        assert(nodes_ids(Seq::<NodeV>::empty()) =~= Seq::<usize>::empty());
        let r = p_paren_items(c, pos + 1, nid, Seq::empty(), false);
        let ri = ids_paren_items(c, pos + 1, n0, k0, k0, Seq::empty(), Seq::empty(), false);
        match r.out {
            Err(_) => ri,
            Ok((items, is_tuple)) => if !c.at(r.pos, TokenKind::RParen) {
                ri
            } else if is_tuple {
                lemma_drawn_push(nodes_ids(items), ri.1, n0, k0, ri.0);
                (ri.0 + 1, ri.1.push(ri.0))
            } else {
                lemma_nodes_ids_one(items);
                ri
            },
        }
    }
}

proof fn ids_paren_items(c: PCtx, pos: int, n0: usize, lo: nat, k0: nat, acc: Seq<NodeV>, ia: Seq<nat>, is_tuple: bool)
    -> (res: (nat, Seq<nat>))
    requires
        lo <= k0,
        drawn(nodes_ids(acc), n0, lo, k0, ia),
    ensures
        k0 <= res.0,
        p_paren_items(c, pos, bumped(n0, k0), acc, is_tuple).nid == bumped(n0, res.0),
        p_paren_items(c, pos, bumped(n0, k0), acc, is_tuple).out matches Ok((v, t)) ==> {
            &&& drawn(nodes_ids(v), n0, lo, res.0, res.1)
            &&& c.has(p_paren_items(c, pos, bumped(n0, k0), acc, is_tuple).pos) ==> v.len() > acc.len()
            &&& !t ==> v.len() <= acc.len() + 1
            &&& is_tuple ==> t
        },
    decreases c.toks.len() - pos, 4int,
{
    let nid = bumped(n0, k0);
    if !c.has(pos) {
        (k0, ia)
    } else {
        let r = p_expr(c, pos, nid, 0);
        let re = ids_expr(c, pos, n0, k0, 0);
        match r.out {
            Err(_) => re,
            Ok(e) => {
                lemma_nodes_ids_push(acc, e);
                lemma_drawn_concat(nodes_ids(acc), ia, node_ids(e), re.1, n0, lo, k0, re.0);
                if c.at(r.pos, TokenKind::Comma) && r.pos >= pos {
                    ids_paren_items(c, r.pos + 1, n0, lo, re.0, acc.push(e), ia + re.1, true)
                } else {
                    (re.0, ia + re.1)
                }
            },
        }
    }
}

proof fn ids_block(c: PCtx, pos: int, n0: usize, k0: nat) -> (res: (nat, Seq<nat>))
    ensures
        k0 <= res.0,
        p_block(c, pos, bumped(n0, k0)).nid == bumped(n0, res.0),
        p_block(c, pos, bumped(n0, k0)).out matches Ok(v) ==> drawn(node_ids(v), n0, k0, res.0, res.1),
    decreases c.toks.len() - pos, 1int,
{
    let nid = bumped(n0, k0);
    if !c.at(pos, TokenKind::LCurly) {
        (k0, Seq::empty())
    } else {
        assert(nodes_ids(Seq::<NodeV>::empty()) =~= Seq::<usize>::empty());
        let r = p_block_items(c, pos + 1, nid, Seq::empty());
        let ri = ids_block_items(c, pos + 1, n0, k0, k0, Seq::empty(), Seq::empty());
        match r.out {
            Err(_) => ri,
            Ok(stmts) => if !c.at(r.pos, TokenKind::RCurly) {
                ri
            } else {
                lemma_drawn_push(nodes_ids(stmts), ri.1, n0, k0, ri.0);
                (ri.0 + 1, ri.1.push(ri.0))
            },
        }
    }
}

proof fn ids_block_items(c: PCtx, pos: int, n0: usize, lo: nat, k0: nat, acc: Seq<NodeV>, ia: Seq<nat>) -> (res: (nat, Seq<nat>))
    requires
        lo <= k0,
        drawn(nodes_ids(acc), n0, lo, k0, ia),
    ensures
        k0 <= res.0,
        p_block_items(c, pos, bumped(n0, k0), acc).nid == bumped(n0, res.0),
        p_block_items(c, pos, bumped(n0, k0), acc).out matches Ok(v) ==> drawn(nodes_ids(v), n0, lo, res.0, res.1),
    decreases c.toks.len() - pos, 4int,
{
    let nid = bumped(n0, k0);
    if !c.has(pos) || c.at(pos, TokenKind::RCurly) {
        (k0, ia)
    } else {
        let r = p_expr(c, pos, nid, 0);
        let re = ids_expr(c, pos, n0, k0, 0);
        match r.out {
            Err(_) => re,
            Ok(e) => if c.at(r.pos, TokenKind::Semicolon) && r.pos >= pos {
                let s = super::grammar::mk(KindV::Semi(Box::new(e)), e.span.spec_concat(c.toks[r.pos].span), r.nid);
                lemma_drawn_push(node_ids(e), re.1, n0, k0, re.0);
                lemma_nodes_ids_push(acc, s);
                lemma_drawn_concat(nodes_ids(acc), ia, node_ids(s), re.1.push(re.0), n0, lo, k0, re.0 + 1);
                ids_block_items(c, r.pos + 1, n0, lo, re.0 + 1, acc.push(s), ia + re.1.push(re.0))
            } else {
                lemma_nodes_ids_push(acc, e);
                lemma_drawn_concat(nodes_ids(acc), ia, node_ids(e), re.1, n0, lo, k0, re.0);
                (re.0, ia + re.1)
            },
        }
    }
}

proof fn ids_callable(c: PCtx, pos: int, n0: usize, k0: nat) -> (res: (nat, Seq<nat>))
    ensures
        k0 <= res.0,
        p_callable(c, pos, bumped(n0, k0)).nid == bumped(n0, res.0),
        p_callable(c, pos, bumped(n0, k0)).out matches Ok(v) ==> drawn(node_ids(v), n0, k0, res.0, res.1),
    decreases c.toks.len() - pos, 1int,
{
    let nid = bumped(n0, k0);
    if !c.at(pos, TokenKind::KwCallable) || !c.at(pos + 1, TokenKind::LParen) {
        (k0, Seq::empty())
    } else {
        params_keep_nid(c, pos + 2, nid, Seq::empty());
        let ps = p_params(c, pos + 2, nid, Seq::empty());
        match ps.out {
            Err(_) => (k0, Seq::empty()),
            Ok(params) => if !c.at(ps.pos, TokenKind::RParen) || ps.pos < pos {
                (k0, Seq::empty())
            } else {
                let sig = c.toks[pos].span.spec_concat(c.toks[ps.pos].span);
                if c.at(ps.pos + 1, TokenKind::Colon) {
                    type_keeps_nid(c, ps.pos + 2, ps.nid);
                    let r = p_type(c, ps.pos + 2, ps.nid);
                    match r.out {
                        Err(_) => (k0, Seq::empty()),
                        Ok(ty) => if pos < r.pos <= c.toks.len() {
                            ids_callable_body(c, r.pos, n0, k0, params, Some(ty), sig.spec_concat(ty.span))
                        } else {
                            (k0, Seq::empty())
                        },
                    }
                } else {
                    ids_callable_body(c, ps.pos + 1, n0, k0, params, None, sig)
                }
            },
        }
    }
}

proof fn ids_callable_body(
    c: PCtx,
    pos: int,
    n0: usize,
    k0: nat,
    params: Seq<super::ast::ParamV>,
    ret_ty: Option<super::ast::ParsedTypeV>,
    sig_span: crate::common::Span,
) -> (res: (nat, Seq<nat>))
    ensures
        k0 <= res.0,
        callable_body(c, pos, bumped(n0, k0), params, ret_ty, sig_span).nid == bumped(n0, res.0),
        callable_body(c, pos, bumped(n0, k0), params, ret_ty, sig_span).out matches Ok(v)
            ==> drawn(node_ids(v), n0, k0, res.0, res.1),
    decreases c.toks.len() - pos, 0int,
{
    let nid = bumped(n0, k0);
    if !c.at(pos, TokenKind::LCurly) {
        (k0, Seq::empty())
    } else {
        assert(nodes_ids(Seq::<NodeV>::empty()) =~= Seq::<usize>::empty());
        let b = p_block_items(c, pos + 1, nid, Seq::empty());
        let rb = ids_block_items(c, pos + 1, n0, k0, k0, Seq::empty(), Seq::empty());
        match b.out {
            Err(_) => rb,
            Ok(body) => if !c.at(b.pos, TokenKind::RCurly) {
                rb
            } else {
                lemma_drawn_push(nodes_ids(body), rb.1, n0, k0, rb.0);
                (rb.0 + 1, rb.1.push(rb.0))
            },
        }
    }
}

proof fn ids_if(c: PCtx, pos: int, n0: usize, k0: nat) -> (res: (nat, Seq<nat>))
    ensures
        k0 <= res.0,
        p_if(c, pos, bumped(n0, k0)).nid == bumped(n0, res.0),
        p_if(c, pos, bumped(n0, k0)).out matches Ok(v) ==> drawn(node_ids(v), n0, k0, res.0, res.1),
    decreases c.toks.len() - pos, 1int,
{
    let nid = bumped(n0, k0);
    if !c.at(pos, TokenKind::KwIf) {
        (k0, Seq::empty())
    } else {
        let r1 = p_expr(c, pos + 1, nid, 0);
        let a = ids_expr(c, pos + 1, n0, k0, 0);
        match r1.out {
            Err(_) => a,
            Ok(cond) => if !c.at(r1.pos, TokenKind::KwThen) || r1.pos < pos {
                a
            } else {
                let r2 = p_expr(c, r1.pos + 1, r1.nid, 0);
                let b = ids_expr(c, r1.pos + 1, n0, a.0, 0);
                match r2.out {
                    Err(_) => b,
                    Ok(then) => {
                        lemma_drawn_concat(node_ids(cond), a.1, node_ids(then), b.1, n0, k0, a.0, b.0);
                        if c.at(r2.pos, TokenKind::KwElse) && r2.pos >= pos {
                            let r3 = p_expr(c, r2.pos + 1, r2.nid, 0);
                            let d = ids_expr(c, r2.pos + 1, n0, b.0, 0);
                            match r3.out {
                                Err(_) => d,
                                Ok(e) => {
                                    lemma_drawn_concat(node_ids(cond) + node_ids(then), a.1 + b.1, node_ids(e), d.1,
                                        n0, k0, b.0, d.0);
                                    lemma_drawn_push(node_ids(cond) + node_ids(then) + node_ids(e), a.1 + b.1 + d.1,
                                        n0, k0, d.0);
                                    (d.0 + 1, (a.1 + b.1 + d.1).push(d.0))
                                },
                            }
                        } else {
                            lemma_drawn_push(node_ids(cond) + node_ids(then), a.1 + b.1, n0, k0, b.0);
                            assert(node_ids(cond) + node_ids(then) + Seq::<usize>::empty()
                                =~= node_ids(cond) + node_ids(then));
                            (b.0 + 1, (a.1 + b.1).push(b.0))
                        }
                    },
                }
            },
        }
    }
}

proof fn ids_while(c: PCtx, pos: int, n0: usize, k0: nat) -> (res: (nat, Seq<nat>))
    ensures
        k0 <= res.0,
        p_while(c, pos, bumped(n0, k0)).nid == bumped(n0, res.0),
        p_while(c, pos, bumped(n0, k0)).out matches Ok(v) ==> drawn(node_ids(v), n0, k0, res.0, res.1),
    decreases c.toks.len() - pos, 1int,
{
    let nid = bumped(n0, k0);
    if !c.at(pos, TokenKind::KwWhile) {
        (k0, Seq::empty())
    } else {
        let r1 = p_expr(c, pos + 1, nid, 0);
        let a = ids_expr(c, pos + 1, n0, k0, 0);
        match r1.out {
            Err(_) => a,
            Ok(cond) => if !c.at(r1.pos, TokenKind::KwDo) || r1.pos < pos {
                a
            } else {
                let r2 = p_expr(c, r1.pos + 1, r1.nid, 0);
                let b = ids_expr(c, r1.pos + 1, n0, a.0, 0);
                match r2.out {
                    Err(_) => b,
                    Ok(body) => {
                        lemma_drawn_concat(node_ids(cond), a.1, node_ids(body), b.1, n0, k0, a.0, b.0);
                        lemma_drawn_push(node_ids(cond) + node_ids(body), a.1 + b.1, n0, k0, b.0);
                        (b.0 + 1, (a.1 + b.1).push(b.0))
                    },
                }
            },
        }
    }
}

proof fn ids_return(c: PCtx, pos: int, n0: usize, k0: nat) -> (res: (nat, Seq<nat>))
    ensures
        k0 <= res.0,
        p_return(c, pos, bumped(n0, k0)).nid == bumped(n0, res.0),
        p_return(c, pos, bumped(n0, k0)).out matches Ok(v) ==> drawn(node_ids(v), n0, k0, res.0, res.1),
    decreases c.toks.len() - pos, 1int,
{
    let nid = bumped(n0, k0);
    if !c.at(pos, TokenKind::KwReturn) {
        (k0, Seq::empty())
    } else {
        let r = p_expr(c, pos + 1, nid, 0);
        let re = ids_expr(c, pos + 1, n0, k0, 0);
        match r.out {
            Ok(e) => {
                lemma_drawn_push(node_ids(e), re.1, n0, k0, re.0);
                (re.0 + 1, re.1.push(re.0))
            },
            Err(_) => {
                ids_leaf(n0, re.0);
                lemma_drawn_widen(seq![bumped(n0, re.0)], seq![re.0], n0, re.0, re.0 + 1, k0, re.0 + 1);
                assert(Seq::<usize>::empty().push(bumped(n0, re.0)) =~= seq![bumped(n0, re.0)]);
                (re.0 + 1, seq![re.0])
            },
        }
    }
}

// ---------------------------------------------------------------------------------------------
// Statements
// ---------------------------------------------------------------------------------------------

proof fn ids_typed_decl(c: PCtx, start: int, pos: int, n0: usize, k0: nat, ty: super::ast::ParsedTypeV) -> (res: (nat, Seq<nat>))
    ensures
        k0 <= res.0,
        typed_decl(c, start, pos, bumped(n0, k0), ty).nid == bumped(n0, res.0),
        typed_decl(c, start, pos, bumped(n0, k0), ty).out matches Ok(v) ==> drawn(node_ids(v), n0, k0, res.0, res.1),
{
    let nid = bumped(n0, k0);
    if c.at(pos, TokenKind::CColon) || c.at(pos, TokenKind::Reassign(crate::common::ReassignmentOp::Assign)) {
        let r = p_expr(c, pos + 1, nid, 0);
        let re = ids_expr(c, pos + 1, n0, k0, 0);
        match r.out {
            Err(_) => re,
            Ok(e) => {
                lemma_drawn_push(node_ids(e), re.1, n0, k0, re.0);
                (re.0 + 1, re.1.push(re.0))
            },
        }
    } else {
        (k0, Seq::empty())
    }
}

proof fn ids_decl(c: PCtx, pos: int, n0: usize, k0: nat) -> (res: (nat, Seq<nat>))
    ensures
        k0 <= res.0,
        p_decl(c, pos, bumped(n0, k0)).nid == bumped(n0, res.0),
        p_decl(c, pos, bumped(n0, k0)).out matches Ok(v) ==> drawn(node_ids(v), n0, k0, res.0, res.1),
{
    let nid = bumped(n0, k0);
    if !c.ident_at(pos) {
        (k0, Seq::empty())
    } else if c.at(pos + 1, TokenKind::Colon) {
        type_keeps_nid(c, pos + 2, nid);
        let t = p_type(c, pos + 2, nid);
        match t.out {
            Err(_) => (k0, Seq::empty()),
            Ok(ty) => if pos < t.pos <= c.toks.len() {
                ids_typed_decl(c, pos, t.pos, n0, k0, ty)
            } else {
                (k0, Seq::empty())
            },
        }
    } else if c.at(pos + 1, TokenKind::CColon) || c.at(pos + 1, TokenKind::Walrus) {
        let r = p_expr(c, pos + 2, nid, 0);
        let re = ids_expr(c, pos + 2, n0, k0, 0);
        match r.out {
            Err(_) => re,
            Ok(e) => {
                lemma_drawn_push(node_ids(e), re.1, n0, k0, re.0);
                (re.0 + 1, re.1.push(re.0))
            },
        }
    } else {
        (k0, Seq::empty())
    }
}

proof fn ids_statement(c: PCtx, pos: int, n0: usize, k0: nat) -> (res: (nat, Seq<nat>))
    ensures
        k0 <= res.0,
        p_statement(c, pos, bumped(n0, k0)).nid == bumped(n0, res.0),
        p_statement(c, pos, bumped(n0, k0)).out matches Ok(v) ==> drawn(node_ids(v), n0, k0, res.0, res.1),
{
    let nid = bumped(n0, k0);
    let d = p_decl(c, pos, nid);
    let rd = ids_decl(c, pos, n0, k0);
    match d.out {
        Ok(_) => rd,
        Err(Some(_)) => rd,
        Err(None) => {
            let r = p_expr(c, pos, nid, 0);
            let re = ids_expr(c, pos, n0, k0, 0);
            match r.out {
                Err(_) => re,
                Ok(e) => if !c.at(r.pos, TokenKind::Semicolon) {
                    re
                } else {
                    lemma_drawn_push(node_ids(e), re.1, n0, k0, re.0);
                    (re.0 + 1, re.1.push(re.0))
                },
            }
        },
    }
}

proof fn ids_stmts(c: PCtx, pos: int, n0: usize, lo: nat, k0: nat, acc: Seq<NodeV>, ia: Seq<nat>) -> (res: (nat, Seq<nat>))
    requires
        lo <= k0,
        drawn(nodes_ids(acc), n0, lo, k0, ia),
    ensures
        k0 <= res.0,
        p_stmts(c, pos, bumped(n0, k0), acc).nid == bumped(n0, res.0),
        p_stmts(c, pos, bumped(n0, k0), acc).out matches Ok(v) ==> drawn(nodes_ids(v), n0, lo, res.0, res.1),
    decreases c.toks.len() - pos,
{
    let nid = bumped(n0, k0);
    if !c.has(pos) {
        (k0, ia)
    } else {
        let r = p_statement(c, pos, nid);
        let rs = ids_statement(c, pos, n0, k0);
        match r.out {
            Err(_) => rs,
            Ok(s) => {
                lemma_nodes_ids_push(acc, s);
                lemma_drawn_concat(nodes_ids(acc), ia, node_ids(s), rs.1, n0, lo, k0, rs.0);
                if pos < r.pos <= c.toks.len() {
                    ids_stmts(c, r.pos, n0, lo, rs.0, acc.push(s), ia + rs.1)
                } else {
                    (rs.0, ia + rs.1)
                }
            },
        }
    }
}

proof fn lemma_bumped_plain(n: usize, k: nat)
    requires
        n + k <= usize::MAX,
    ensures
        bumped(n, k) == n + k,
    decreases k,
{
    if k > 0 {
        lemma_bumped_plain(n, (k - 1) as nat);
    }
}

/// Every node of a parsed source has an id of its own. The parser draws ids from a counter
/// that starts at the id it is given and moves on by one per node it builds (wrapping round at
/// `usize::MAX`); `steps` is how far it moved. Unless it passed `usize::MAX`, the ids of the
/// nodes, each listed after those of its children, rise strictly and lie between the first id
/// and the next one the parser hands out.
pub proof fn law_parsed_node_ids_distinct(c: PCtx, pos: int, nid: usize) -> (steps: nat)
    ensures
        p_stmts(c, pos, nid, Seq::empty()).nid == bumped(nid, steps),
        p_stmts(c, pos, nid, Seq::empty()).out matches Ok(v) ==> (nid + steps <= usize::MAX + 1 ==> {
            let ids = nodes_ids(v);
            &&& forall|i: int| 0 <= i < ids.len() ==> nid <= #[trigger] ids[i] < nid + steps
            &&& forall|i: int, j: int| 0 <= i < j < ids.len() ==> ids[i] < ids[j]
        }),
{
    assert(nodes_ids(Seq::<NodeV>::empty()) =~= Seq::<usize>::empty());
    assert(bumped(nid, 0) == nid);
    let (steps, idx) = ids_stmts(c, pos, nid, 0, 0, Seq::empty(), Seq::empty());
    if p_stmts(c, pos, nid, Seq::empty()).out is Ok && nid + steps <= usize::MAX + 1 {
        let v = p_stmts(c, pos, nid, Seq::empty()).out->Ok_0;
        let ids = nodes_ids(v);
        assert forall|i: int| 0 <= i < ids.len() implies nid <= #[trigger] ids[i] < nid + steps by {
            lemma_bumped_plain(nid, idx[i]);
        }
        assert forall|i: int, j: int| 0 <= i < j < ids.len() implies ids[i] < ids[j] by {
            lemma_bumped_plain(nid, idx[i]);
            lemma_bumped_plain(nid, idx[j]);
        }
    }
    steps
}

} // verus!
