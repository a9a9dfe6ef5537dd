//! The grammar of Miel as functions on token sequences: for every input, the tree or the
//! diagnostic that the parser returns, the position it stops at and the next node id.

use vstd::prelude::*;
use crate::common::{ReassignmentOp, Span};
use crate::common::diag::{DiagV, diag1};
use crate::lexer::token::{Token, TokenKind};
use super::ast::{NodeId, KindV, NodeV, ParamV, ParsedTypeV, TypeV};

verus! {

/// What the grammar reads: the tokens, the interned strings their symbols name, and the
/// source id used in diagnostics.
pub struct PCtx {
    pub toks: Seq<Token>,
    pub strs: Seq<Seq<char>>,
    pub sid: usize,
}

/// The outcome of a rule: the value or the diagnostic, the position after it and the id
/// that the next node gets.
pub struct Step<T> {
    pub out: Result<T, DiagV>,
    pub pos: int,
    pub nid: usize,
}

/// The outcome of a rule that may find that the input is not its construct at all
/// (`Err(None)`), in which case the caller tries another rule at the same place.
pub struct Attempt {
    pub out: Result<NodeV, Option<DiagV>>,
    pub pos: int,
    pub nid: usize,
}

/// The id after `n`.
pub open spec fn bump(n: usize) -> usize {
    if n == usize::MAX { 0 } else { (n + 1) as usize }
}

pub open spec fn mk(kind: KindV, span: Span, nid: usize) -> NodeV {
    NodeV { id: NodeId(nid), kind, span }
}

pub open spec fn fail<T>(d: DiagV, pos: int, nid: usize) -> Step<T> {
    Step { out: Err(d), pos, nid }
}

pub open spec fn done<T>(v: T, pos: int, nid: usize) -> Step<T> {
    Step { out: Ok(v), pos, nid }
}

impl PCtx {
    pub open spec fn has(self, pos: int) -> bool {
        0 <= pos < self.toks.len()
    }

    pub open spec fn at(self, pos: int, k: TokenKind) -> bool {
        self.has(pos) && self.toks[pos].kind == k
    }

    pub open spec fn ident_at(self, pos: int) -> bool {
        self.has(pos) && self.toks[pos].kind is Identifier
    }

    pub open spec fn fmt(self, t: Token) -> Seq<char> {
        t.kind.spec_format(self.strs)
    }

    /// Where a diagnostic about the end of the input points.
    pub open spec fn end_span(self) -> Span {
        if self.toks.len() > 0 {
            self.toks.last().span.spec_splat_to_end()
        } else {
            Span::spec_empty(self.sid)
        }
    }

    pub open spec fn unexpected(self, t: Token, expected: Seq<char>) -> DiagV {
        diag1(
            "Unexpected `"@ + self.fmt(t) + "`"@,
            self.sid,
            t.span.start,
            t.span.end,
            expected + ", found `"@ + self.fmt(t) + "`"@,
        )
    }

    pub open spec fn end_of_input(self, expected: Seq<char>) -> DiagV {
        diag1(
            "Unexpected end of input"@,
            self.sid,
            self.end_span().start,
            self.end_span().end,
            expected + ", found end of input"@,
        )
    }

    /// The diagnostic for not finding what `expected` describes at `pos`.
    pub open spec fn missing(self, pos: int, expected: Seq<char>) -> DiagV {
        if self.has(pos) {
            self.unexpected(self.toks[pos], expected)
        } else {
            self.end_of_input(expected)
        }
    }

    pub open spec fn expected_kind(self, k: TokenKind) -> Seq<char> {
        "expected `"@ + k.spec_format(self.strs) + "`"@
    }
}

// ---------------------------------------------------------------------------------------------
// Types and parameters
// ---------------------------------------------------------------------------------------------

/// `type := identifier | nil | '(' type (',' type)* ')'`
pub open spec fn p_type(c: PCtx, pos: int, nid: usize) -> Step<ParsedTypeV>
    decreases c.toks.len() - pos, 2int,
{
    if !c.has(pos) {
        fail(c.end_of_input("expected type"@), pos, nid)
    } else {
        let t = c.toks[pos];
        match t.kind {
            TokenKind::Identifier(s) => done(ParsedTypeV { kind: TypeV::Identifier(s), span: t.span }, pos + 1, nid),
            TokenKind::LParen => p_type_paren(c, pos, nid),
            TokenKind::KwNil => done(ParsedTypeV { kind: TypeV::Nil, span: t.span }, pos + 1, nid),
            _ => fail(c.unexpected(t, "expected type"@), pos, nid),
        }
    }
}

pub open spec fn p_type_paren(c: PCtx, pos: int, nid: usize) -> Step<ParsedTypeV>
    decreases c.toks.len() - pos, 1int,
{
    if !c.at(pos, TokenKind::LParen) {
        fail(c.missing(pos, c.expected_kind(TokenKind::LParen)), pos, nid)
    } else {
        let r = p_type_items(c, pos + 1, nid, Seq::empty(), false);
        match r.out {
            Err(d) => fail(d, r.pos, r.nid),
            Ok((items, is_tuple)) => if !c.at(r.pos, TokenKind::RParen) {
                fail(c.missing(r.pos, c.expected_kind(TokenKind::RParen)), r.pos, r.nid)
            } else if is_tuple {
                let span = c.toks[pos].span.spec_concat(c.toks[r.pos].span);
                done(ParsedTypeV { kind: TypeV::Tuple(items), span }, r.pos + 1, r.nid)
            } else {
                done(items[0], r.pos + 1, r.nid)
            },
        }
    }
}

/// The items of a parenthesised type list, from `pos` on, after `acc`.
pub open spec fn p_type_items(c: PCtx, pos: int, nid: usize, acc: Seq<ParsedTypeV>, is_tuple: bool)
    -> Step<(Seq<ParsedTypeV>, bool)>
    decreases c.toks.len() - pos, 3int,
{
    if !c.has(pos) {
        done((acc, is_tuple), pos, nid)
    } else {
        let r = p_type(c, pos, nid);
        match r.out {
            Err(d) => fail(d, r.pos, r.nid),
            Ok(t) => if c.at(r.pos, TokenKind::Comma) && r.pos >= pos {
                p_type_items(c, r.pos + 1, r.nid, acc.push(t), true)
            } else {
                done((acc.push(t), is_tuple), r.pos, r.nid)
            },
        }
    }
}

/// `param := identifier ':' type`
pub open spec fn p_param(c: PCtx, pos: int, nid: usize) -> Step<ParamV>
    decreases c.toks.len() - pos, 3int,
{
    if !c.ident_at(pos) {
        fail(c.missing(pos, "expected identifier"@), pos, nid)
    } else if !c.at(pos + 1, TokenKind::Colon) {
        fail(c.missing(pos + 1, c.expected_kind(TokenKind::Colon)), pos + 1, nid)
    } else {
        let name = c.toks[pos].kind->Identifier_0;
        let r = p_type(c, pos + 2, nid);
        match r.out {
            Err(d) => fail(d, r.pos, r.nid),
            Ok(ty) => done(ParamV { name, ty, span: c.toks[pos].span.spec_concat(ty.span) }, r.pos, r.nid),
        }
    }
}

/// The parameters of a callable, from `pos` on, after `acc`.
pub open spec fn p_params(c: PCtx, pos: int, nid: usize, acc: Seq<ParamV>) -> Step<Seq<ParamV>>
    decreases c.toks.len() - pos, 4int,
{
    if !c.has(pos) || c.at(pos, TokenKind::RParen) {
        done(acc, pos, nid)
    } else {
        let r = p_param(c, pos, nid);
        match r.out {
            Err(d) => fail(d, r.pos, r.nid),
            Ok(p) => if c.at(r.pos, TokenKind::Comma) && r.pos >= pos {
                p_params(c, r.pos + 1, r.nid, acc.push(p))
            } else {
                done(acc.push(p), r.pos, r.nid)
            },
        }
    }
}

// ---------------------------------------------------------------------------------------------
// Expressions
// ---------------------------------------------------------------------------------------------

/// An expression whose infix operators bind at least as tightly as `min_bp`.
pub open spec fn p_expr(c: PCtx, pos: int, nid: usize, min_bp: usize) -> Step<NodeV>
    decreases c.toks.len() - pos, 3int,
{
    let m = p_mutation(c, pos, nid);
    match m.out {
        Ok(n) => done(n, m.pos, m.nid),
        Err(Some(d)) => fail(d, m.pos, m.nid),
        Err(None) => {
            let p = p_primary(c, pos, nid);
            match p.out {
                Err(d) => fail(d, p.pos, p.nid),
                Ok(lhs) => if pos <= p.pos <= c.toks.len() {
                    p_infix(c, p.pos, p.nid, lhs, min_bp)
                } else {
                    done(lhs, p.pos, p.nid)
                },
            }
        },
    }
}

/// The infix operators and calls that follow `lhs`, from `pos` on.
pub open spec fn p_infix(c: PCtx, pos: int, nid: usize, lhs: NodeV, min_bp: usize) -> Step<NodeV>
    decreases c.toks.len() - pos, 1int,
{
    if !c.has(pos) {
        done(lhs, pos, nid)
    } else {
        let t = c.toks[pos];
        match t.kind {
            TokenKind::Operator(op) => if !op.spec_can_infix() || op.spec_binding_power() < min_bp {
                done(lhs, pos, nid)
            } else {
                let r = p_expr(c, pos + 1, nid, (op.spec_binding_power() + 1) as usize);
                match r.out {
                    Err(d) => fail(d, r.pos, r.nid),
                    Ok(rhs) => {
                        let n = mk(
                            KindV::BinaryOp { op: (op, t.span), lhs: Box::new(lhs), rhs: Box::new(rhs) },
                            lhs.span.spec_concat(rhs.span),
                            r.nid,
                        );
                        if pos < r.pos <= c.toks.len() {
                            p_infix(c, r.pos, bump(r.nid), n, min_bp)
                        } else {
                            done(n, r.pos, bump(r.nid))
                        }
                    },
                }
            },
            TokenKind::LParen => {
                let a = p_args(c, pos + 1, nid, Seq::empty());
                match a.out {
                    Err(d) => fail(d, a.pos, a.nid),
                    Ok(args) => if !c.at(a.pos, TokenKind::RParen) {
                        fail(c.missing(a.pos, c.expected_kind(TokenKind::RParen)), a.pos, a.nid)
                    } else {
                        let n = mk(
                            KindV::Call { callee: Box::new(lhs), args },
                            t.span.spec_concat(c.toks[a.pos].span),
                            a.nid,
                        );
                        if a.pos >= pos {
                            p_infix(c, a.pos + 1, bump(a.nid), n, min_bp)
                        } else {
                            done(n, a.pos + 1, bump(a.nid))
                        }
                    },
                }
            },
            _ => done(lhs, pos, nid),
        }
    }
}

/// The arguments of a call, from `pos` on, after `acc`.
pub open spec fn p_args(c: PCtx, pos: int, nid: usize, acc: Seq<NodeV>) -> Step<Seq<NodeV>>
    decreases c.toks.len() - pos, 4int,
{
    if !c.has(pos) || c.at(pos, TokenKind::RParen) {
        done(acc, pos, nid)
    } else {
        let r = p_expr(c, pos, nid, 0);
        match r.out {
            Err(d) => fail(d, r.pos, r.nid),
            Ok(e) => if c.at(r.pos, TokenKind::Comma) && r.pos >= pos {
                p_args(c, r.pos + 1, r.nid, acc.push(e))
            } else {
                done(acc.push(e), r.pos, r.nid)
            },
        }
    }
}

/// `mutation := identifier reassign-op expression`
pub open spec fn p_mutation(c: PCtx, pos: int, nid: usize) -> Attempt
    decreases c.toks.len() - pos, 1int,
{
    if !c.ident_at(pos) || !(c.has(pos + 1) && c.toks[pos + 1].kind is Reassign) {
        Attempt { out: Err(None), pos, nid }
    } else {
        let name = c.toks[pos].kind->Identifier_0;
        let op = (c.toks[pos + 1].kind->Reassign_0, c.toks[pos + 1].span);
        let r = p_expr(c, pos + 2, nid, 0);
        match r.out {
            Err(d) => Attempt { out: Err(Some(d)), pos: r.pos, nid: r.nid },
            Ok(e) => Attempt {
                out: Ok(mk(KindV::Mutation { name, op, expr: Box::new(e) }, c.toks[pos].span.spec_concat(e.span), r.nid)),
                pos: r.pos,
                nid: bump(r.nid),
            },
        }
    }
}

pub open spec fn leaf(c: PCtx, pos: int, nid: usize, kind: KindV) -> Step<NodeV> {
    done(mk(kind, c.toks[pos].span, nid), pos + 1, bump(nid))
}

/// A literal, a name, a bracketed or prefixed expression, or a keyword construct.
pub open spec fn p_primary(c: PCtx, pos: int, nid: usize) -> Step<NodeV>
    decreases c.toks.len() - pos, 2int,
{
    if !c.has(pos) {
        fail(c.end_of_input("expected expression"@), pos, nid)
    } else {
        let t = c.toks[pos];
        match t.kind {
            TokenKind::IntLit(s) => leaf(c, pos, nid, KindV::IntLit(s)),
            TokenKind::FloatLit(s) => leaf(c, pos, nid, KindV::FloatLit(s)),
            TokenKind::BoolLit(b) => leaf(c, pos, nid, KindV::BoolLit(b)),
            TokenKind::StringLit(s) => leaf(c, pos, nid, KindV::StringLit(c.strs[s.0 as int])),
            TokenKind::Identifier(s) => leaf(c, pos, nid, KindV::Identifier(s)),
            TokenKind::LParen => p_paren(c, pos, nid),
            TokenKind::LCurly => p_block(c, pos, nid),
            TokenKind::Operator(op) => if op.spec_can_prefix() {
                let r = p_expr(c, pos + 1, nid, 0);
                match r.out {
                    Err(d) => fail(d, r.pos, r.nid),
                    Ok(e) => done(
                        mk(KindV::UnaryOp { op: (op, t.span), operand: Box::new(e) }, t.span.spec_concat(e.span), r.nid),
                        r.pos,
                        bump(r.nid),
                    ),
                }
            } else {
                fail(c.unexpected(t, "expected expression"@), pos, nid)
            },
            TokenKind::KwCallable => p_callable(c, pos, nid),
            TokenKind::KwNil => leaf(c, pos, nid, KindV::Nil),
            TokenKind::KwIf => p_if(c, pos, nid),
            TokenKind::KwWhile => p_while(c, pos, nid),
            TokenKind::KwReturn => p_return(c, pos, nid),
            TokenKind::KwBreak => leaf(c, pos, nid, KindV::Break),
            TokenKind::KwContinue => leaf(c, pos, nid, KindV::Continue),
            _ => fail(c.unexpected(t, "expected expression"@), pos, nid),
        }
    }
}

/// `'(' expression (',' expression)* ')'`: a tuple when a comma follows an item, else the
/// single expression itself.
pub open spec fn p_paren(c: PCtx, pos: int, nid: usize) -> Step<NodeV>
    decreases c.toks.len() - pos, 1int,
{
    if !c.at(pos, TokenKind::LParen) {
        fail(c.missing(pos, c.expected_kind(TokenKind::LParen)), pos, nid)
    } else {
        let r = p_paren_items(c, pos + 1, nid, Seq::empty(), false);
        match r.out {
            Err(d) => fail(d, r.pos, r.nid),
            Ok((items, is_tuple)) => if !c.at(r.pos, TokenKind::RParen) {
                fail(c.missing(r.pos, c.expected_kind(TokenKind::RParen)), r.pos, r.nid)
            } else if is_tuple {
                let span = c.toks[pos].span.spec_concat(c.toks[r.pos].span);
                done(mk(KindV::Tuple(items), span, r.nid), r.pos + 1, bump(r.nid))
            } else {
                done(items[0], r.pos + 1, r.nid)
            },
        }
    }
}

pub open spec fn p_paren_items(c: PCtx, pos: int, nid: usize, acc: Seq<NodeV>, is_tuple: bool)
    -> Step<(Seq<NodeV>, bool)>
    decreases c.toks.len() - pos, 4int,
{
    if !c.has(pos) {
        done((acc, is_tuple), pos, nid)
    } else {
        let r = p_expr(c, pos, nid, 0);
        match r.out {
            Err(d) => fail(d, r.pos, r.nid),
            Ok(e) => if c.at(r.pos, TokenKind::Comma) && r.pos >= pos {
                p_paren_items(c, r.pos + 1, r.nid, acc.push(e), true)
            } else {
                done((acc.push(e), is_tuple), r.pos, r.nid)
            },
        }
    }
}

/// `'{' (expression ';')* expression? '}'`
pub open spec fn p_block(c: PCtx, pos: int, nid: usize) -> Step<NodeV>
    decreases c.toks.len() - pos, 1int,
{
    if !c.at(pos, TokenKind::LCurly) {
        fail(c.missing(pos, c.expected_kind(TokenKind::LCurly)), pos, nid)
    } else {
        let r = p_block_items(c, pos + 1, nid, Seq::empty());
        match r.out {
            Err(d) => fail(d, r.pos, r.nid),
            Ok(stmts) => if !c.at(r.pos, TokenKind::RCurly) {
                fail(c.missing(r.pos, c.expected_kind(TokenKind::RCurly)), r.pos, r.nid)
            } else {
                let span = c.toks[pos].span.spec_concat(c.toks[r.pos].span);
                done(mk(KindV::Block(stmts), span, r.nid), r.pos + 1, bump(r.nid))
            },
        }
    }
}

/// The statements of a block or callable body, from `pos` on, after `acc`: each expression
/// followed by `;` becomes a `Semi` node; one without ends the list.
pub open spec fn p_block_items(c: PCtx, pos: int, nid: usize, acc: Seq<NodeV>) -> Step<Seq<NodeV>>
    decreases c.toks.len() - pos, 4int,
{
    if !c.has(pos) || c.at(pos, TokenKind::RCurly) {
        done(acc, pos, nid)
    } else {
        let r = p_expr(c, pos, nid, 0);
        match r.out {
            Err(d) => fail(d, r.pos, r.nid),
            Ok(e) => if c.at(r.pos, TokenKind::Semicolon) && r.pos >= pos {
                let s = mk(KindV::Semi(Box::new(e)), e.span.spec_concat(c.toks[r.pos].span), r.nid);
                p_block_items(c, r.pos + 1, bump(r.nid), acc.push(s))
            } else {
                done(acc.push(e), r.pos, r.nid)
            },
        }
    }
}

/// `callable := 'callable' '(' params ')' (':' type)? '{' body '}'`
pub open spec fn p_callable(c: PCtx, pos: int, nid: usize) -> Step<NodeV>
    decreases c.toks.len() - pos, 1int,
{
    if !c.at(pos, TokenKind::KwCallable) {
        fail(c.missing(pos, c.expected_kind(TokenKind::KwCallable)), pos, nid)
    } else if !c.at(pos + 1, TokenKind::LParen) {
        fail(c.missing(pos + 1, c.expected_kind(TokenKind::LParen)), pos + 1, nid)
    } else {
        let ps = p_params(c, pos + 2, nid, Seq::empty());
        match ps.out {
            Err(d) => fail(d, ps.pos, ps.nid),
            Ok(params) => if !c.at(ps.pos, TokenKind::RParen) {
                fail(c.missing(ps.pos, c.expected_kind(TokenKind::RParen)), ps.pos, ps.nid)
            } else if ps.pos < pos {
                fail(c.missing(ps.pos, c.expected_kind(TokenKind::RParen)), ps.pos, ps.nid)
            } else {
                let sig = c.toks[pos].span.spec_concat(c.toks[ps.pos].span);
                if c.at(ps.pos + 1, TokenKind::Colon) {
                    let r = p_type(c, ps.pos + 2, ps.nid);
                    match r.out {
                        Err(d) => fail(d, r.pos, r.nid),
                        Ok(ty) => if pos < r.pos <= c.toks.len() {
                            callable_body(c, r.pos, r.nid, params, Some(ty), sig.spec_concat(ty.span))
                        } else {
                            fail(c.missing(r.pos, c.expected_kind(TokenKind::LCurly)), r.pos, r.nid)
                        },
                    }
                } else {
                    callable_body(c, ps.pos + 1, ps.nid, params, None, sig)
                }
            },
        }
    }
}

/// The body of a callable whose signature ends before `pos`.
pub open spec fn callable_body(
    c: PCtx,
    pos: int,
    nid: usize,
    params: Seq<ParamV>,
    ret_ty: Option<ParsedTypeV>,
    sig_span: Span,
) -> Step<NodeV>
    decreases c.toks.len() - pos, 0int,
{
    if !c.at(pos, TokenKind::LCurly) {
        fail(c.missing(pos, c.expected_kind(TokenKind::LCurly)), pos, nid)
    } else {
        let b = p_block_items(c, pos + 1, nid, Seq::empty());
        match b.out {
            Err(d) => fail(d, b.pos, b.nid),
            Ok(body) => if !c.at(b.pos, TokenKind::RCurly) {
                fail(c.missing(b.pos, c.expected_kind(TokenKind::RCurly)), b.pos, b.nid)
            } else {
                let body_span = c.toks[pos].span.spec_concat(c.toks[b.pos].span);
                done(
                    mk(KindV::Callable { params, ret_ty, sig_span, body, body_span }, sig_span.spec_concat(body_span), b.nid),
                    b.pos + 1,
                    bump(b.nid),
                )
            },
        }
    }
}

/// `'if' expression 'then' expression ('else' expression)?`
pub open spec fn p_if(c: PCtx, pos: int, nid: usize) -> Step<NodeV>
    decreases c.toks.len() - pos, 1int,
{
    if !c.at(pos, TokenKind::KwIf) {
        fail(c.missing(pos, c.expected_kind(TokenKind::KwIf)), pos, nid)
    } else {
        let kw = c.toks[pos].span;
        let r1 = p_expr(c, pos + 1, nid, 0);
        match r1.out {
            Err(d) => fail(d, r1.pos, r1.nid),
            Ok(cond) => if !c.at(r1.pos, TokenKind::KwThen) || r1.pos < pos {
                fail(c.missing(r1.pos, c.expected_kind(TokenKind::KwThen)), r1.pos, r1.nid)
            } else {
                let r2 = p_expr(c, r1.pos + 1, r1.nid, 0);
                match r2.out {
                    Err(d) => fail(d, r2.pos, r2.nid),
                    Ok(then) => if c.at(r2.pos, TokenKind::KwElse) && r2.pos >= pos {
                        let r3 = p_expr(c, r2.pos + 1, r2.nid, 0);
                        match r3.out {
                            Err(d) => fail(d, r3.pos, r3.nid),
                            Ok(e) => done(
                                mk(
                                    KindV::If { cond: Box::new(cond), then: Box::new(then), else_: Some(Box::new(e)) },
                                    kw.spec_concat(e.span),
                                    r3.nid,
                                ),
                                r3.pos,
                                bump(r3.nid),
                            ),
                        }
                    } else {
                        done(
                            mk(KindV::If { cond: Box::new(cond), then: Box::new(then), else_: None }, kw.spec_concat(then.span), r2.nid),
                            r2.pos,
                            bump(r2.nid),
                        )
                    },
                }
            },
        }
    }
}

/// `'while' expression 'do' expression`
pub open spec fn p_while(c: PCtx, pos: int, nid: usize) -> Step<NodeV>
    decreases c.toks.len() - pos, 1int,
{
    if !c.at(pos, TokenKind::KwWhile) {
        fail(c.missing(pos, c.expected_kind(TokenKind::KwWhile)), pos, nid)
    } else {
        let kw = c.toks[pos].span;
        let r1 = p_expr(c, pos + 1, nid, 0);
        match r1.out {
            Err(d) => fail(d, r1.pos, r1.nid),
            Ok(cond) => if !c.at(r1.pos, TokenKind::KwDo) || r1.pos < pos {
                fail(c.missing(r1.pos, c.expected_kind(TokenKind::KwDo)), r1.pos, r1.nid)
            } else {
                let r2 = p_expr(c, r1.pos + 1, r1.nid, 0);
                match r2.out {
                    Err(d) => fail(d, r2.pos, r2.nid),
                    Ok(body) => done(
                        mk(KindV::While { cond: Box::new(cond), body: Box::new(body) }, kw.spec_concat(body.span), r2.nid),
                        r2.pos,
                        bump(r2.nid),
                    ),
                }
            },
        }
    }
}

/// `'return' expression?`: when no expression can be read after the keyword, the return
/// carries none and the input continues right after the keyword.
pub open spec fn p_return(c: PCtx, pos: int, nid: usize) -> Step<NodeV>
    decreases c.toks.len() - pos, 1int,
{
    if !c.at(pos, TokenKind::KwReturn) {
        fail(c.missing(pos, c.expected_kind(TokenKind::KwReturn)), pos, nid)
    } else {
        let kw = c.toks[pos].span;
        let r = p_expr(c, pos + 1, nid, 0);
        match r.out {
            Ok(e) => done(mk(KindV::Return(Some(Box::new(e))), kw.spec_concat(e.span), r.nid), r.pos, bump(r.nid)),
            Err(_) => done(mk(KindV::Return(None), kw, r.nid), pos + 1, bump(r.nid)),
        }
    }
}

// ---------------------------------------------------------------------------------------------
// Statements
// ---------------------------------------------------------------------------------------------

/// The declaration that follows `name: type` at `pos`: `:: expr` or `= expr`.
pub open spec fn typed_decl(c: PCtx, start: int, pos: int, nid: usize, ty: ParsedTypeV) -> Attempt
    decreases c.toks.len() - pos, 0int,
{
    let name = c.toks[start].kind->Identifier_0;
    let span = c.toks[start].span;
    if c.at(pos, TokenKind::CColon) {
        let r = p_expr(c, pos + 1, nid, 0);
        match r.out {
            Err(d) => Attempt { out: Err(Some(d)), pos: r.pos, nid: r.nid },
            Ok(e) => Attempt {
                out: Ok(mk(KindV::TypedConstDecl { name, ty, expr: Box::new(e) }, span.spec_concat(e.span), r.nid)),
                pos: r.pos,
                nid: bump(r.nid),
            },
        }
    } else if c.at(pos, TokenKind::Reassign(ReassignmentOp::Assign)) {
        let r = p_expr(c, pos + 1, nid, 0);
        match r.out {
            Err(d) => Attempt { out: Err(Some(d)), pos: r.pos, nid: r.nid },
            Ok(e) => Attempt {
                out: Ok(mk(KindV::TypedVarDecl { name, ty, expr: Box::new(e) }, span.spec_concat(e.span), r.nid)),
                pos: r.pos,
                nid: bump(r.nid),
            },
        }
    } else {
        Attempt {
            out: Err(Some(c.missing(pos, c.expected_kind(TokenKind::Reassign(ReassignmentOp::Assign))))),
            pos,
            nid,
        }
    }
}

/// `decl := identifier ':' type ('::' | '=') expression | identifier ('::' | ':=') expression`
pub open spec fn p_decl(c: PCtx, pos: int, nid: usize) -> Attempt
    decreases c.toks.len() - pos, 1int,
{
    if !c.ident_at(pos) {
        Attempt { out: Err(None), pos, nid }
    } else {
        let name = c.toks[pos].kind->Identifier_0;
        let span = c.toks[pos].span;
        if c.at(pos + 1, TokenKind::Colon) {
            let t = p_type(c, pos + 2, nid);
            match t.out {
                Err(d) => Attempt { out: Err(Some(d)), pos: t.pos, nid: t.nid },
                Ok(ty) => if pos < t.pos <= c.toks.len() {
                    typed_decl(c, pos, t.pos, t.nid, ty)
                } else {
                    Attempt { out: Err(None), pos, nid }
                },
            }
        } else if c.at(pos + 1, TokenKind::CColon) || c.at(pos + 1, TokenKind::Walrus) {
            let r = p_expr(c, pos + 2, nid, 0);
            match r.out {
                Err(d) => Attempt { out: Err(Some(d)), pos: r.pos, nid: r.nid },
                Ok(e) => Attempt {
                    out: Ok(mk(
                        if c.at(pos + 1, TokenKind::CColon) {
                            KindV::ShortConstDecl { name, expr: Box::new(e) }
                        } else {
                            KindV::ShortVarDecl { name, expr: Box::new(e) }
                        },
                        span.spec_concat(e.span),
                        r.nid,
                    )),
                    pos: r.pos,
                    nid: bump(r.nid),
                },
            }
        } else {
            Attempt { out: Err(None), pos, nid }
        }
    }
}

/// `statement := decl | expression ';'`
pub open spec fn p_statement(c: PCtx, pos: int, nid: usize) -> Step<NodeV>
    decreases c.toks.len() - pos, 4int,
{
    let d = p_decl(c, pos, nid);
    match d.out {
        Ok(n) => done(n, d.pos, d.nid),
        Err(Some(e)) => fail(e, d.pos, d.nid),
        Err(None) => {
            let r = p_expr(c, pos, nid, 0);
            match r.out {
                Err(e) => fail(e, r.pos, r.nid),
                Ok(e) => if !c.at(r.pos, TokenKind::Semicolon) {
                    fail(c.missing(r.pos, c.expected_kind(TokenKind::Semicolon)), r.pos, r.nid)
                } else {
                    done(mk(KindV::Semi(Box::new(e)), e.span.spec_concat(c.toks[r.pos].span), r.nid), r.pos + 1, bump(r.nid))
                },
            }
        },
    }
}

/// The statements of a source from `pos` to its end, after `acc`.
pub open spec fn p_stmts(c: PCtx, pos: int, nid: usize, acc: Seq<NodeV>) -> Step<Seq<NodeV>>
    decreases c.toks.len() - pos,
{
    if !c.has(pos) {
        done(acc, pos, nid)
    } else {
        let r = p_statement(c, pos, nid);
        match r.out {
            Err(d) => fail(d, r.pos, r.nid),
            Ok(s) => if pos < r.pos <= c.toks.len() {
                p_stmts(c, r.pos, r.nid, acc.push(s))
            } else {
                done(acc.push(s), r.pos, r.nid)
            },
        }
    }
}

} // verus!
