//! Parser: syntactic analysis of a token sequence into an AST.
//!
//! Every rule is a method that reads the tokens from a position on and returns what it
//! built (or the diagnostic), the position after it and the id of the next node; its
//! contract is the rule of the same name in [`grammar`].

pub mod ast;
pub mod grammar;
pub mod ids;
pub mod precedence;

use vstd::prelude::*;
use crate::common::{Context, Diag, Interner, Span, Sym};
use crate::common::diag::DiagV;
use crate::common::text::string_of;
use crate::lexer::token::{Token, TokenKind};
use ast::{
    Ast, KindV, Node, NodeId, NodeKind, NodeV, Param, ParamV, ParsedType, ParsedTypeKind, ParsedTypeV,
    lemma_nodes_view, lemma_nodes_view_push, lemma_params_view_push, lemma_types_view,
    lemma_types_view_push, node_view, nodes_view, param_view, params_view, type_view, types_view,
};
use grammar::{
    Attempt, PCtx, Step, bump, callable_body, p_args, p_block, p_block_items, p_callable, p_decl,
    p_expr, p_if, p_infix, p_mutation, p_param, p_params, p_paren, p_paren_items, p_primary,
    p_return, p_statement, p_stmts, p_type, p_type_items, p_type_paren, p_while, typed_decl,
};

verus! {

pub open spec fn res_node(r: Result<Node, Diag>) -> Result<NodeV, DiagV> {
    match r {
        Ok(n) => Ok(node_view(n)),
        Err(d) => Err(d@),
    }
}

pub open spec fn res_nodes(r: Result<Vec<Node>, Diag>) -> Result<Seq<NodeV>, DiagV> {
    match r {
        Ok(v) => Ok(nodes_view(v@)),
        Err(d) => Err(d@),
    }
}

pub open spec fn res_ast(r: Result<Ast, Diag>) -> Result<Seq<NodeV>, DiagV> {
    match r {
        Ok(a) => Ok(nodes_view(a.0@)),
        Err(d) => Err(d@),
    }
}

pub open spec fn same_node(r: (Result<Node, Diag>, usize, usize), s: Step<NodeV>) -> bool {
    res_node(r.0) == s.out && r.1 == s.pos && r.2 == s.nid
}

pub open spec fn same_nodes(r: (Result<Vec<Node>, Diag>, usize, usize), s: Step<Seq<NodeV>>) -> bool {
    res_nodes(r.0) == s.out && r.1 == s.pos && r.2 == s.nid
}

pub open spec fn same_nodes_t(r: (Result<(Vec<Node>, bool), Diag>, usize, usize), s: Step<(Seq<NodeV>, bool)>) -> bool {
    &&& r.1 == s.pos
    &&& r.2 == s.nid
    &&& match r.0 {
        Ok((v, b)) => s.out == Ok::<(Seq<NodeV>, bool), DiagV>((nodes_view(v@), b)),
        Err(d) => s.out == Err::<(Seq<NodeV>, bool), DiagV>(d@),
    }
}

pub open spec fn same_type(r: (Result<ParsedType, Diag>, usize, usize), s: Step<ParsedTypeV>) -> bool {
    &&& r.1 == s.pos
    &&& r.2 == s.nid
    &&& match r.0 {
        Ok(t) => s.out == Ok::<ParsedTypeV, DiagV>(type_view(t)),
        Err(d) => s.out == Err::<ParsedTypeV, DiagV>(d@),
    }
}

pub open spec fn same_types_t(r: (Result<(Vec<ParsedType>, bool), Diag>, usize, usize), s: Step<(Seq<ParsedTypeV>, bool)>) -> bool {
    &&& r.1 == s.pos
    &&& r.2 == s.nid
    &&& match r.0 {
        Ok((v, b)) => s.out == Ok::<(Seq<ParsedTypeV>, bool), DiagV>((types_view(v@), b)),
        Err(d) => s.out == Err::<(Seq<ParsedTypeV>, bool), DiagV>(d@),
    }
}

pub open spec fn same_param(r: (Result<Param, Diag>, usize, usize), s: Step<ParamV>) -> bool {
    &&& r.1 == s.pos
    &&& r.2 == s.nid
    &&& match r.0 {
        Ok(p) => s.out == Ok::<ParamV, DiagV>(param_view(p)),
        Err(d) => s.out == Err::<ParamV, DiagV>(d@),
    }
}

pub open spec fn same_params(r: (Result<Vec<Param>, Diag>, usize, usize), s: Step<Seq<ParamV>>) -> bool {
    &&& r.1 == s.pos
    &&& r.2 == s.nid
    &&& match r.0 {
        Ok(v) => s.out == Ok::<Seq<ParamV>, DiagV>(params_view(v@)),
        Err(d) => s.out == Err::<Seq<ParamV>, DiagV>(d@),
    }
}

pub open spec fn same_attempt(r: (Result<Node, Option<Diag>>, usize, usize), s: Attempt) -> bool {
    &&& r.1 == s.pos
    &&& r.2 == s.nid
    &&& match r.0 {
        Ok(n) => s.out == Ok::<NodeV, Option<DiagV>>(node_view(n)),
        Err(Some(d)) => s.out == Err::<NodeV, Option<DiagV>>(Some(d@)),
        Err(None) => s.out == Err::<NodeV, Option<DiagV>>(None),
    }
}

/// Whether every symbol that the tokens carry names a string of the interner.
pub open spec fn tokens_ok(c: PCtx) -> bool {
    forall|i: int| 0 <= i < c.toks.len() ==> (#[trigger] c.toks[i]).kind.syms_in(c.strs)
}

fn next_id(n: usize) -> (r: usize)
    ensures
        r == bump(n),
{
    if n == usize::MAX { 0 } else { n + 1 }
}

/// A recursive-descent parser over a token sequence.
pub struct Parser<'p> {
    ctx: &'p Context<'p>,
    tokens: &'p [Token],
    pos: usize,
    next_node_id: usize,
}

impl<'p> Parser<'p> {
    /// The tokens, interned strings and source id that the parser reads.
    pub closed spec fn grammar(&self) -> PCtx {
        PCtx { toks: self.tokens@, strs: self.ctx.interner@, sid: self.ctx.source_id }
    }

    pub closed spec fn interner(&self) -> Interner {
        *self.ctx.interner
    }

    /// The index of the next token to read.
    pub closed spec fn position(&self) -> int {
        self.pos as int
    }

    /// The id that the next node gets.
    pub closed spec fn next_id(&self) -> usize {
        self.next_node_id
    }

    /// The interner is well formed, every token symbol names one of its strings, and the
    /// position lies within the tokens.
    pub open spec fn ready(&self) -> bool {
        &&& self.interner().wf()
        &&& self.grammar().strs == self.interner()@
        &&& tokens_ok(self.grammar())
        &&& 0 <= self.position() <= self.grammar().toks.len()
    }

    /// A parser at the first token, whose first node gets id 0.
    pub fn new(ctx: &'p Context<'p>, tokens: &'p [Token]) -> (r: Parser<'p>)
        ensures
            r.grammar() == (PCtx { toks: tokens@, strs: ctx.interner@, sid: ctx.source_id }),
            r.interner() == *ctx.interner,
            r.position() == 0,
            r.next_id() == 0,
    {
        Parser { ctx, tokens, pos: 0, next_node_id: 0 }
    }

    /// Parses statements up to the end of the tokens: the AST, or the first diagnostic.
    pub fn parse(&mut self) -> (r: Result<Ast, Diag>)
        requires
            old(self).ready(),
        ensures
            final(self).ready(),
            final(self).grammar() == old(self).grammar(),
            final(self).interner() == old(self).interner(),
            res_ast(r) == p_stmts(old(self).grammar(), old(self).position(), old(self).next_id(), Seq::empty()).out,
            final(self).position() == p_stmts(old(self).grammar(), old(self).position(), old(self).next_id(), Seq::empty()).pos,
            final(self).next_id() == p_stmts(old(self).grammar(), old(self).position(), old(self).next_id(), Seq::empty()).nid,
            r is Ok ==> final(self).position() == final(self).grammar().toks.len(),
    {
        let r = self.statements(self.pos, self.next_node_id, Vec::new());
        assert(nodes_view(Seq::<Node>::empty()) =~= Seq::<NodeV>::empty());
        self.pos = r.1;
        self.next_node_id = r.2;
        match r.0 {
            Ok(nodes) => Ok(Ast(nodes)),
            Err(d) => Err(d),
        }
    }

    fn statements(&self, pos: usize, nid: usize, acc: Vec<Node>) -> (r: (Result<Vec<Node>, Diag>, usize, usize))
        requires
            self.ready(),
            pos <= self.tokens@.len(),
        ensures
            same_nodes(r, p_stmts(self.grammar(), pos as int, nid, nodes_view(acc@))),
            pos <= r.1 <= self.tokens@.len(),
            r.0 is Ok ==> r.1 == self.tokens@.len(),
        decreases self.tokens@.len() - pos,
    {
        if pos >= self.tokens.len() {
            return (Ok(acc), pos, nid);
        }
        let r = self.parse_statement(pos, nid);
        match r.0 {
            Err(d) => (Err(d), r.1, r.2),
            Ok(s) => {
                let mut acc = acc;
                proof { lemma_nodes_view_push(acc@, s); }
                acc.push(s);
                self.statements(r.1, r.2, acc)
            },
        }
    }

    // -----------------------------------------------------------------------------------------
    // Token tests and diagnostics
    // -----------------------------------------------------------------------------------------

    fn at(&self, pos: usize, k: TokenKind) -> (b: bool)
        ensures
            b == self.grammar().at(pos as int, k),
            b ==> pos < self.tokens.len(),
    {
        pos < self.tokens.len() && self.tokens[pos].kind == k
    }

    fn ident_at(&self, pos: usize) -> (r: Option<Sym>)
        ensures
            r is Some == self.grammar().ident_at(pos as int),
            r is Some ==> self.tokens@[pos as int].kind == TokenKind::Identifier(r->Some_0),
            r is Some ==> pos < self.tokens.len(),
    {
        if pos < self.tokens.len() {
            match self.tokens[pos].kind {
                TokenKind::Identifier(s) => Some(s),
                _ => None,
            }
        } else {
            None
        }
    }

    fn unexpected(&self, t: &Token, expected: &str) -> (d: Diag)
        requires
            self.ready(),
            t.kind.syms_in(self.grammar().strs),
        ensures
            d@ == self.grammar().unexpected(*t, expected@),
    {
        let f = t.kind.format(self.ctx.interner);
        let mut msg = string_of("Unexpected `");
        msg.append(f.as_str());
        msg.append("`");
        let mut label = string_of(expected);
        label.append(", found `");
        label.append(f.as_str());
        label.append("`");
        Diag::single(msg.as_str(), self.ctx.source_id, t.span.start, t.span.end, label.as_str())
    }

    fn end_of_input(&self, expected: &str) -> (d: Diag)
        ensures
            d@ == self.grammar().end_of_input(expected@),
    {
        let span = if self.tokens.len() > 0 {
            self.tokens[self.tokens.len() - 1].span.splat_to_end()
        } else {
            Span::empty(self.ctx.source_id)
        };
        let mut label = string_of(expected);
        label.append(", found end of input");
        Diag::single("Unexpected end of input", self.ctx.source_id, span.start, span.end, label.as_str())
    }

    fn missing(&self, pos: usize, expected: &str) -> (d: Diag)
        requires
            self.ready(),
        ensures
            d@ == self.grammar().missing(pos as int, expected@),
    {
        if pos < self.tokens.len() {
            let t = self.tokens[pos];
            assert(self.grammar().toks[pos as int] == t);
            self.unexpected(&t, expected)
        } else {
            self.end_of_input(expected)
        }
    }

    fn missing_kind(&self, pos: usize, k: TokenKind) -> (d: Diag)
        requires
            self.ready(),
            k.syms_in(self.grammar().strs),
        ensures
            d@ == self.grammar().missing(pos as int, self.grammar().expected_kind(k)),
    {
        let mut e = string_of("expected `");
        let f = k.format(self.ctx.interner);
        e.append(f.as_str());
        e.append("`");
        self.missing(pos, e.as_str())
    }

    // -----------------------------------------------------------------------------------------
    // Types and parameters
    // -----------------------------------------------------------------------------------------

    fn parse_type(&self, pos: usize, nid: usize) -> (r: (Result<ParsedType, Diag>, usize, usize))
        requires
            self.ready(),
            pos <= self.tokens@.len(),
        ensures
            same_type(r, p_type(self.grammar(), pos as int, nid)),
            pos <= r.1 <= self.tokens@.len(),
            r.0 is Ok ==> pos < r.1,
        decreases self.tokens@.len() - pos, 2int,
    {
        if pos >= self.tokens.len() {
            return (Err(self.end_of_input("expected type")), pos, nid);
        }
        let t = self.tokens[pos];
        assert(self.grammar().toks[pos as int] == t);
        match t.kind {
            TokenKind::Identifier(s) => (Ok(ParsedType { kind: ParsedTypeKind::Identifier(s), span: t.span }), pos + 1, nid),
            TokenKind::LParen => self.parse_type_paren(pos, nid),
            TokenKind::KwNil => (Ok(ParsedType { kind: ParsedTypeKind::Nil, span: t.span }), pos + 1, nid),
            _ => (Err(self.unexpected(&t, "expected type")), pos, nid),
        }
    }

    fn parse_type_paren(&self, pos: usize, nid: usize) -> (r: (Result<ParsedType, Diag>, usize, usize))
        requires
            self.ready(),
            pos <= self.tokens@.len(),
        ensures
            same_type(r, p_type_paren(self.grammar(), pos as int, nid)),
            pos <= r.1 <= self.tokens@.len(),
            r.0 is Ok ==> pos < r.1,
        decreases self.tokens@.len() - pos, 1int,
    {
        if !self.at(pos, TokenKind::LParen) {
            return (Err(self.missing_kind(pos, TokenKind::LParen)), pos, nid);
        }
        proof { lemma_types_view(Seq::empty()); }
        let r = self.type_items(pos + 1, nid, Vec::new(), false);
        match r.0 {
            Err(d) => (Err(d), r.1, r.2),
            Ok((items, is_tuple)) => {
                if !self.at(r.1, TokenKind::RParen) {
                    return (Err(self.missing_kind(r.1, TokenKind::RParen)), r.1, r.2);
                }
                if is_tuple {
                    let span = self.tokens[pos].span.concat(&self.tokens[r.1].span);
                    (Ok(ParsedType { kind: ParsedTypeKind::Tuple(items), span }), r.1 + 1, r.2)
                } else {
                    let mut items = items;
                    proof { lemma_types_view(items@); }
                    let first = items.remove(0);
                    (Ok(first), r.1 + 1, r.2)
                }
            },
        }
    }

    fn type_items(&self, pos: usize, nid: usize, acc: Vec<ParsedType>, is_tuple: bool)
        -> (r: (Result<(Vec<ParsedType>, bool), Diag>, usize, usize))
        requires
            self.ready(),
            pos <= self.tokens@.len(),
        ensures
            same_types_t(r, p_type_items(self.grammar(), pos as int, nid, types_view(acc@), is_tuple)),
            pos <= r.1 <= self.tokens@.len(),
            r.0 matches Ok((v, _)) ==> v.len() > acc.len() || (v.len() == acc.len() && r.1 == self.tokens@.len()),
        decreases self.tokens@.len() - pos, 3int,
    {
        if pos >= self.tokens.len() {
            return (Ok((acc, is_tuple)), pos, nid);
        }
        let r = self.parse_type(pos, nid);
        match r.0 {
            Err(d) => (Err(d), r.1, r.2),
            Ok(t) => {
                let mut acc = acc;
                proof { lemma_types_view_push(acc@, t); }
                acc.push(t);
                if self.at(r.1, TokenKind::Comma) {
                    self.type_items(r.1 + 1, r.2, acc, true)
                } else {
                    (Ok((acc, is_tuple)), r.1, r.2)
                }
            },
        }
    }

    fn parse_param(&self, pos: usize, nid: usize) -> (r: (Result<Param, Diag>, usize, usize))
        requires
            self.ready(),
            pos <= self.tokens@.len(),
        ensures
            same_param(r, p_param(self.grammar(), pos as int, nid)),
            pos <= r.1 <= self.tokens@.len(),
            r.0 is Ok ==> pos < r.1,
        decreases self.tokens@.len() - pos, 3int,
    {
        let name = match self.ident_at(pos) {
            Some(s) => s,
            None => return (Err(self.missing(pos, "expected identifier")), pos, nid),
        };
        if !self.at(pos + 1, TokenKind::Colon) {
            return (Err(self.missing_kind(pos + 1, TokenKind::Colon)), pos + 1, nid);
        }
        let r = self.parse_type(pos + 2, nid);
        match r.0 {
            Err(d) => (Err(d), r.1, r.2),
            Ok(ty) => {
                let span = self.tokens[pos].span.concat(&ty.span);
                (Ok(Param { name, ty, span }), r.1, r.2)
            },
        }
    }

    fn params(&self, pos: usize, nid: usize, acc: Vec<Param>) -> (r: (Result<Vec<Param>, Diag>, usize, usize))
        requires
            self.ready(),
            pos <= self.tokens@.len(),
        ensures
            same_params(r, p_params(self.grammar(), pos as int, nid, params_view(acc@))),
            pos <= r.1 <= self.tokens@.len(),
        decreases self.tokens@.len() - pos, 4int,
    {
        if pos >= self.tokens.len() || self.at(pos, TokenKind::RParen) {
            return (Ok(acc), pos, nid);
        }
        let r = self.parse_param(pos, nid);
        match r.0 {
            Err(d) => (Err(d), r.1, r.2),
            Ok(p) => {
                let mut acc = acc;
                proof { lemma_params_view_push(acc@, p); }
                acc.push(p);
                if self.at(r.1, TokenKind::Comma) {
                    self.params(r.1 + 1, r.2, acc)
                } else {
                    (Ok(acc), r.1, r.2)
                }
            },
        }
    }

    // -----------------------------------------------------------------------------------------
    // Expressions
    // -----------------------------------------------------------------------------------------

    fn parse_expression(&self, pos: usize, nid: usize, min_bp: usize) -> (r: (Result<Node, Diag>, usize, usize))
        requires
            self.ready(),
            pos <= self.tokens@.len(),
        ensures
            same_node(r, p_expr(self.grammar(), pos as int, nid, min_bp)),
            pos <= r.1 <= self.tokens@.len(),
            r.0 is Ok ==> pos < r.1,
        decreases self.tokens@.len() - pos, 3int,
    {
        let m = self.try_parse_mutation(pos, nid);
        match m.0 {
            Ok(n) => (Ok(n), m.1, m.2),
            Err(Some(d)) => (Err(d), m.1, m.2),
            Err(None) => {
                let p = self.parse_primary(pos, nid);
                match p.0 {
                    Err(d) => (Err(d), p.1, p.2),
                    Ok(lhs) => self.parse_infix(p.1, p.2, lhs, min_bp),
                }
            },
        }
    }

    fn parse_infix(&self, pos: usize, nid: usize, lhs: Node, min_bp: usize) -> (r: (Result<Node, Diag>, usize, usize))
        requires
            self.ready(),
            pos <= self.tokens@.len(),
        ensures
            same_node(r, p_infix(self.grammar(), pos as int, nid, node_view(lhs), min_bp)),
            pos <= r.1 <= self.tokens@.len(),
        decreases self.tokens@.len() - pos, 1int,
    {
        if pos >= self.tokens.len() {
            return (Ok(lhs), pos, nid);
        }
        let t = self.tokens[pos];
        assert(self.grammar().toks[pos as int] == t);
        match t.kind {
            TokenKind::Operator(op) => {
                if !op.can_infix() || op.binding_power() < min_bp {
                    return (Ok(lhs), pos, nid);
                }
                let r = self.parse_expression(pos + 1, nid, op.binding_power() + 1);
                match r.0 {
                    Err(d) => (Err(d), r.1, r.2),
                    Ok(rhs) => {
                        let span = lhs.span.concat(&rhs.span);
                        let n = Node {
                            id: NodeId(r.2),
                            kind: NodeKind::BinaryOp { op: (op, t.span), lhs: Box::new(lhs), rhs: Box::new(rhs) },
                            span,
                        };
                        self.parse_infix(r.1, next_id(r.2), n, min_bp)
                    },
                }
            },
            TokenKind::LParen => {
                proof { lemma_nodes_view(Seq::empty()); }
                let a = self.args(pos + 1, nid, Vec::new());
                match a.0 {
                    Err(d) => (Err(d), a.1, a.2),
                    Ok(args) => {
                        if !self.at(a.1, TokenKind::RParen) {
                            return (Err(self.missing_kind(a.1, TokenKind::RParen)), a.1, a.2);
                        }
                        let span = t.span.concat(&self.tokens[a.1].span);
                        let n = Node { id: NodeId(a.2), kind: NodeKind::Call { callee: Box::new(lhs), args }, span };
                        self.parse_infix(a.1 + 1, next_id(a.2), n, min_bp)
                    },
                }
            },
            _ => (Ok(lhs), pos, nid),
        }
    }

    fn args(&self, pos: usize, nid: usize, acc: Vec<Node>) -> (r: (Result<Vec<Node>, Diag>, usize, usize))
        requires
            self.ready(),
            pos <= self.tokens@.len(),
        ensures
            same_nodes(r, p_args(self.grammar(), pos as int, nid, nodes_view(acc@))),
            pos <= r.1 <= self.tokens@.len(),
        decreases self.tokens@.len() - pos, 4int,
    {
        if pos >= self.tokens.len() || self.at(pos, TokenKind::RParen) {
            return (Ok(acc), pos, nid);
        }
        let r = self.parse_expression(pos, nid, 0);
        match r.0 {
            Err(d) => (Err(d), r.1, r.2),
            Ok(e) => {
                let mut acc = acc;
                proof { lemma_nodes_view_push(acc@, e); }
                acc.push(e);
                if self.at(r.1, TokenKind::Comma) {
                    self.args(r.1 + 1, r.2, acc)
                } else {
                    (Ok(acc), r.1, r.2)
                }
            },
        }
    }

    fn try_parse_mutation(&self, pos: usize, nid: usize) -> (r: (Result<Node, Option<Diag>>, usize, usize))
        requires
            self.ready(),
            pos <= self.tokens@.len(),
        ensures
            same_attempt(r, p_mutation(self.grammar(), pos as int, nid)),
            pos <= r.1 <= self.tokens@.len(),
            r.0 is Ok ==> pos < r.1,
        decreases self.tokens@.len() - pos, 1int,
    {
        let name = match self.ident_at(pos) {
            Some(s) => s,
            None => return (Err(None), pos, nid),
        };
        if pos + 1 >= self.tokens.len() {
            return (Err(None), pos, nid);
        }
        let t1 = self.tokens[pos + 1];
        let op = match t1.kind {
            TokenKind::Reassign(o) => o,
            _ => return (Err(None), pos, nid),
        };
        let r = self.parse_expression(pos + 2, nid, 0);
        match r.0 {
            Err(d) => (Err(Some(d)), r.1, r.2),
            Ok(e) => {
                let span = self.tokens[pos].span.concat(&e.span);
                let n = Node { id: NodeId(r.2), kind: NodeKind::Mutation { name, op: (op, t1.span), expr: Box::new(e) }, span };
                (Ok(n), r.1, next_id(r.2))
            },
        }
    }

    fn leaf(&self, pos: usize, nid: usize, kind: NodeKind) -> (r: Node)
        requires
            pos < self.tokens@.len(),
        ensures
            r == (Node { id: NodeId(nid), kind, span: self.tokens@[pos as int].span }),
    {
        Node { id: NodeId(nid), kind, span: self.tokens[pos].span }
    }

    fn parse_primary(&self, pos: usize, nid: usize) -> (r: (Result<Node, Diag>, usize, usize))
        requires
            self.ready(),
            pos <= self.tokens@.len(),
        ensures
            same_node(r, p_primary(self.grammar(), pos as int, nid)),
            pos <= r.1 <= self.tokens@.len(),
            r.0 is Ok ==> pos < r.1,
        decreases self.tokens@.len() - pos, 2int,
    {
        if pos >= self.tokens.len() {
            return (Err(self.end_of_input("expected expression")), pos, nid);
        }
        let t = self.tokens[pos];
        assert(self.grammar().toks[pos as int] == t);
        match t.kind {
            TokenKind::IntLit(s) => (Ok(self.leaf(pos, nid, NodeKind::IntLit(s))), pos + 1, next_id(nid)),
            TokenKind::FloatLit(s) => (Ok(self.leaf(pos, nid, NodeKind::FloatLit(s))), pos + 1, next_id(nid)),
            TokenKind::BoolLit(b) => (Ok(self.leaf(pos, nid, NodeKind::BoolLit(b))), pos + 1, next_id(nid)),
            TokenKind::StringLit(s) => {
                let text = string_of(self.ctx.interner.resolve(s));
                (Ok(self.leaf(pos, nid, NodeKind::StringLit(text))), pos + 1, next_id(nid))
            },
            TokenKind::Identifier(s) => (Ok(self.leaf(pos, nid, NodeKind::Identifier(s))), pos + 1, next_id(nid)),
            TokenKind::LParen => self.parse_paren(pos, nid),
            TokenKind::LCurly => self.parse_block(pos, nid),
            TokenKind::Operator(op) => {
                if !op.can_prefix() {
                    return (Err(self.unexpected(&t, "expected expression")), pos, nid);
                }
                let r = self.parse_expression(pos + 1, nid, 0);
                match r.0 {
                    Err(d) => (Err(d), r.1, r.2),
                    Ok(e) => {
                        let span = t.span.concat(&e.span);
                        let n = Node { id: NodeId(r.2), kind: NodeKind::UnaryOp { op: (op, t.span), operand: Box::new(e) }, span };
                        (Ok(n), r.1, next_id(r.2))
                    },
                }
            },
            TokenKind::KwCallable => self.parse_callable(pos, nid),
            TokenKind::KwNil => (Ok(self.leaf(pos, nid, NodeKind::Nil)), pos + 1, next_id(nid)),
            TokenKind::KwIf => self.parse_if(pos, nid),
            TokenKind::KwWhile => self.parse_while(pos, nid),
            TokenKind::KwReturn => self.parse_return(pos, nid),
            TokenKind::KwBreak => (Ok(self.leaf(pos, nid, NodeKind::Break)), pos + 1, next_id(nid)),
            TokenKind::KwContinue => (Ok(self.leaf(pos, nid, NodeKind::Continue)), pos + 1, next_id(nid)),
            _ => (Err(self.unexpected(&t, "expected expression")), pos, nid),
        }
    }

    fn parse_paren(&self, pos: usize, nid: usize) -> (r: (Result<Node, Diag>, usize, usize))
        requires
            self.ready(),
            pos <= self.tokens@.len(),
        ensures
            same_node(r, p_paren(self.grammar(), pos as int, nid)),
            pos <= r.1 <= self.tokens@.len(),
            r.0 is Ok ==> pos < r.1,
        decreases self.tokens@.len() - pos, 1int,
    {
        if !self.at(pos, TokenKind::LParen) {
            return (Err(self.missing_kind(pos, TokenKind::LParen)), pos, nid);
        }
        proof { lemma_nodes_view(Seq::empty()); }
        let r = self.paren_items(pos + 1, nid, Vec::new(), false);
        match r.0 {
            Err(d) => (Err(d), r.1, r.2),
            Ok((items, is_tuple)) => {
                if !self.at(r.1, TokenKind::RParen) {
                    return (Err(self.missing_kind(r.1, TokenKind::RParen)), r.1, r.2);
                }
                if is_tuple {
                    let span = self.tokens[pos].span.concat(&self.tokens[r.1].span);
                    (Ok(Node { id: NodeId(r.2), kind: NodeKind::Tuple(items), span }), r.1 + 1, next_id(r.2))
                } else {
                    let mut items = items;
                    proof { lemma_nodes_view(items@); }
                    let first = items.remove(0);
                    (Ok(first), r.1 + 1, r.2)
                }
            },
        }
    }

    fn paren_items(&self, pos: usize, nid: usize, acc: Vec<Node>, is_tuple: bool)
        -> (r: (Result<(Vec<Node>, bool), Diag>, usize, usize))
        requires
            self.ready(),
            pos <= self.tokens@.len(),
        ensures
            same_nodes_t(r, p_paren_items(self.grammar(), pos as int, nid, nodes_view(acc@), is_tuple)),
            pos <= r.1 <= self.tokens@.len(),
            r.0 matches Ok((v, _)) ==> v.len() > acc.len() || (v.len() == acc.len() && r.1 == self.tokens@.len()),
        decreases self.tokens@.len() - pos, 4int,
    {
        if pos >= self.tokens.len() {
            return (Ok((acc, is_tuple)), pos, nid);
        }
        let r = self.parse_expression(pos, nid, 0);
        match r.0 {
            Err(d) => (Err(d), r.1, r.2),
            Ok(e) => {
                let mut acc = acc;
                proof { lemma_nodes_view_push(acc@, e); }
                acc.push(e);
                if self.at(r.1, TokenKind::Comma) {
                    self.paren_items(r.1 + 1, r.2, acc, true)
                } else {
                    (Ok((acc, is_tuple)), r.1, r.2)
                }
            },
        }
    }

    fn parse_block(&self, pos: usize, nid: usize) -> (r: (Result<Node, Diag>, usize, usize))
        requires
            self.ready(),
            pos <= self.tokens@.len(),
        ensures
            same_node(r, p_block(self.grammar(), pos as int, nid)),
            pos <= r.1 <= self.tokens@.len(),
            r.0 is Ok ==> pos < r.1,
        decreases self.tokens@.len() - pos, 1int,
    {
        if !self.at(pos, TokenKind::LCurly) {
            return (Err(self.missing_kind(pos, TokenKind::LCurly)), pos, nid);
        }
        proof { lemma_nodes_view(Seq::empty()); }
        let r = self.block_items(pos + 1, nid, Vec::new());
        match r.0 {
            Err(d) => (Err(d), r.1, r.2),
            Ok(stmts) => {
                if !self.at(r.1, TokenKind::RCurly) {
                    return (Err(self.missing_kind(r.1, TokenKind::RCurly)), r.1, r.2);
                }
                let span = self.tokens[pos].span.concat(&self.tokens[r.1].span);
                (Ok(Node { id: NodeId(r.2), kind: NodeKind::Block(stmts), span }), r.1 + 1, next_id(r.2))
            },
        }
    }

    fn block_items(&self, pos: usize, nid: usize, acc: Vec<Node>) -> (r: (Result<Vec<Node>, Diag>, usize, usize))
        requires
            self.ready(),
            pos <= self.tokens@.len(),
        ensures
            same_nodes(r, p_block_items(self.grammar(), pos as int, nid, nodes_view(acc@))),
            pos <= r.1 <= self.tokens@.len(),
        decreases self.tokens@.len() - pos, 4int,
    {
        if pos >= self.tokens.len() || self.at(pos, TokenKind::RCurly) {
            return (Ok(acc), pos, nid);
        }
        let r = self.parse_expression(pos, nid, 0);
        match r.0 {
            Err(d) => (Err(d), r.1, r.2),
            Ok(e) => {
                let mut acc = acc;
                if self.at(r.1, TokenKind::Semicolon) {
                    let span = e.span.concat(&self.tokens[r.1].span);
                    let s = Node { id: NodeId(r.2), kind: NodeKind::Semi(Box::new(e)), span };
                    proof { lemma_nodes_view_push(acc@, s); }
                    acc.push(s);
                    self.block_items(r.1 + 1, next_id(r.2), acc)
                } else {
                    proof { lemma_nodes_view_push(acc@, e); }
                    acc.push(e);
                    (Ok(acc), r.1, r.2)
                }
            },
        }
    }

    fn parse_callable(&self, pos: usize, nid: usize) -> (r: (Result<Node, Diag>, usize, usize))
        requires
            self.ready(),
            pos <= self.tokens@.len(),
        ensures
            same_node(r, p_callable(self.grammar(), pos as int, nid)),
            pos <= r.1 <= self.tokens@.len(),
            r.0 is Ok ==> pos < r.1,
        decreases self.tokens@.len() - pos, 1int,
    {
        if !self.at(pos, TokenKind::KwCallable) {
            return (Err(self.missing_kind(pos, TokenKind::KwCallable)), pos, nid);
        }
        if !self.at(pos + 1, TokenKind::LParen) {
            return (Err(self.missing_kind(pos + 1, TokenKind::LParen)), pos + 1, nid);
        }
        proof { lemma_params_view_push(Seq::empty(), arbitrary()); }
        assert(params_view(Seq::<Param>::empty()) =~= Seq::<ParamV>::empty());
        let ps = self.params(pos + 2, nid, Vec::new());
        match ps.0 {
            Err(d) => (Err(d), ps.1, ps.2),
            Ok(params) => {
                if !self.at(ps.1, TokenKind::RParen) {
                    return (Err(self.missing_kind(ps.1, TokenKind::RParen)), ps.1, ps.2);
                }
                let sig = self.tokens[pos].span.concat(&self.tokens[ps.1].span);
                if self.at(ps.1 + 1, TokenKind::Colon) {
                    let r = self.parse_type(ps.1 + 2, ps.2);
                    match r.0 {
                        Err(d) => (Err(d), r.1, r.2),
                        Ok(ty) => {
                            let sig = sig.concat(&ty.span);
                            self.callable_body(r.1, r.2, params, Some(ty), sig)
                        },
                    }
                } else {
                    self.callable_body(ps.1 + 1, ps.2, params, None, sig)
                }
            },
        }
    }

    fn callable_body(&self, pos: usize, nid: usize, params: Vec<Param>, ret_ty: Option<ParsedType>, sig_span: Span)
        -> (r: (Result<Node, Diag>, usize, usize))
        requires
            self.ready(),
            pos <= self.tokens@.len(),
        ensures
            same_node(r, callable_body(self.grammar(), pos as int, nid, params_view(params@),
                match ret_ty { Some(t) => Some(type_view(t)), None => None }, sig_span)),
            pos <= r.1 <= self.tokens@.len(),
            r.0 is Ok ==> pos < r.1,
        decreases self.tokens@.len() - pos, 0int,
    {
        if !self.at(pos, TokenKind::LCurly) {
            return (Err(self.missing_kind(pos, TokenKind::LCurly)), pos, nid);
        }
        proof { lemma_nodes_view(Seq::empty()); }
        let b = self.block_items(pos + 1, nid, Vec::new());
        match b.0 {
            Err(d) => (Err(d), b.1, b.2),
            Ok(body) => {
                if !self.at(b.1, TokenKind::RCurly) {
                    return (Err(self.missing_kind(b.1, TokenKind::RCurly)), b.1, b.2);
                }
                let body_span = self.tokens[pos].span.concat(&self.tokens[b.1].span);
                let span = sig_span.concat(&body_span);
                let n = Node { id: NodeId(b.2), kind: NodeKind::Callable { params, ret_ty, sig_span, body: (body, body_span) }, span };
                (Ok(n), b.1 + 1, next_id(b.2))
            },
        }
    }

    fn parse_if(&self, pos: usize, nid: usize) -> (r: (Result<Node, Diag>, usize, usize))
        requires
            self.ready(),
            pos <= self.tokens@.len(),
        ensures
            same_node(r, p_if(self.grammar(), pos as int, nid)),
            pos <= r.1 <= self.tokens@.len(),
            r.0 is Ok ==> pos < r.1,
        decreases self.tokens@.len() - pos, 1int,
    {
        if !self.at(pos, TokenKind::KwIf) {
            return (Err(self.missing_kind(pos, TokenKind::KwIf)), pos, nid);
        }
        let kw = self.tokens[pos].span;
        let r1 = self.parse_expression(pos + 1, nid, 0);
        let cond = match r1.0 {
            Err(d) => return (Err(d), r1.1, r1.2),
            Ok(c) => c,
        };
        if !self.at(r1.1, TokenKind::KwThen) {
            return (Err(self.missing_kind(r1.1, TokenKind::KwThen)), r1.1, r1.2);
        }
        let r2 = self.parse_expression(r1.1 + 1, r1.2, 0);
        let then = match r2.0 {
            Err(d) => return (Err(d), r2.1, r2.2),
            Ok(t) => t,
        };
        if self.at(r2.1, TokenKind::KwElse) {
            let r3 = self.parse_expression(r2.1 + 1, r2.2, 0);
            match r3.0 {
                Err(d) => (Err(d), r3.1, r3.2),
                Ok(e) => {
                    let span = kw.concat(&e.span);
                    let n = Node {
                        id: NodeId(r3.2),
                        kind: NodeKind::If { cond: Box::new(cond), then: Box::new(then), else_: Some(Box::new(e)) },
                        span,
                    };
                    (Ok(n), r3.1, next_id(r3.2))
                },
            }
        } else {
            let span = kw.concat(&then.span);
            let n = Node { id: NodeId(r2.2), kind: NodeKind::If { cond: Box::new(cond), then: Box::new(then), else_: None }, span };
            (Ok(n), r2.1, next_id(r2.2))
        }
    }

    fn parse_while(&self, pos: usize, nid: usize) -> (r: (Result<Node, Diag>, usize, usize))
        requires
            self.ready(),
            pos <= self.tokens@.len(),
        ensures
            same_node(r, p_while(self.grammar(), pos as int, nid)),
            pos <= r.1 <= self.tokens@.len(),
            r.0 is Ok ==> pos < r.1,
        decreases self.tokens@.len() - pos, 1int,
    {
        if !self.at(pos, TokenKind::KwWhile) {
            return (Err(self.missing_kind(pos, TokenKind::KwWhile)), pos, nid);
        }
        let kw = self.tokens[pos].span;
        let r1 = self.parse_expression(pos + 1, nid, 0);
        let cond = match r1.0 {
            Err(d) => return (Err(d), r1.1, r1.2),
            Ok(c) => c,
        };
        if !self.at(r1.1, TokenKind::KwDo) {
            return (Err(self.missing_kind(r1.1, TokenKind::KwDo)), r1.1, r1.2);
        }
        let r2 = self.parse_expression(r1.1 + 1, r1.2, 0);
        match r2.0 {
            Err(d) => (Err(d), r2.1, r2.2),
            Ok(body) => {
                let span = kw.concat(&body.span);
                let n = Node { id: NodeId(r2.2), kind: NodeKind::While { cond: Box::new(cond), body: Box::new(body) }, span };
                (Ok(n), r2.1, next_id(r2.2))
            },
        }
    }

    fn parse_return(&self, pos: usize, nid: usize) -> (r: (Result<Node, Diag>, usize, usize))
        requires
            self.ready(),
            pos <= self.tokens@.len(),
        ensures
            same_node(r, p_return(self.grammar(), pos as int, nid)),
            pos <= r.1 <= self.tokens@.len(),
            r.0 is Ok ==> pos < r.1,
        decreases self.tokens@.len() - pos, 1int,
    {
        if !self.at(pos, TokenKind::KwReturn) {
            return (Err(self.missing_kind(pos, TokenKind::KwReturn)), pos, nid);
        }
        let kw = self.tokens[pos].span;
        let r = self.parse_expression(pos + 1, nid, 0);
        match r.0 {
            Ok(e) => {
                let span = kw.concat(&e.span);
                (Ok(Node { id: NodeId(r.2), kind: NodeKind::Return(Some(Box::new(e))), span }), r.1, next_id(r.2))
            },
            Err(_) => (Ok(Node { id: NodeId(r.2), kind: NodeKind::Return(None), span: kw }), pos + 1, next_id(r.2)),
        }
    }

    // -----------------------------------------------------------------------------------------
    // Statements
    // -----------------------------------------------------------------------------------------

    fn typed_decl(&self, start: usize, pos: usize, nid: usize, ty: ParsedType) -> (r: (Result<Node, Option<Diag>>, usize, usize))
        requires
            self.ready(),
            start < pos <= self.tokens@.len(),
            self.grammar().ident_at(start as int),
        ensures
            same_attempt(r, typed_decl(self.grammar(), start as int, pos as int, nid, type_view(ty))),
            pos <= r.1 <= self.tokens@.len(),
            r.0 is Ok ==> pos < r.1,
        decreases self.tokens@.len() - pos, 0int,
    {
        let name = match self.ident_at(start) {
            Some(s) => s,
            None => return (Err(None), pos, nid),
        };
        let span = self.tokens[start].span;
        let is_const = self.at(pos, TokenKind::CColon);
        if !is_const && !self.at(pos, TokenKind::Reassign(crate::common::ReassignmentOp::Assign)) {
            let k = TokenKind::Reassign(crate::common::ReassignmentOp::Assign);
            return (Err(Some(self.missing_kind(pos, k))), pos, nid);
        }
        let r = self.parse_expression(pos + 1, nid, 0);
        match r.0 {
            Err(d) => (Err(Some(d)), r.1, r.2),
            Ok(e) => {
                let espan = span.concat(&e.span);
                let kind = if is_const {
                    NodeKind::TypedConstDecl { name, ty, expr: Box::new(e) }
                } else {
                    NodeKind::TypedVarDecl { name, ty, expr: Box::new(e) }
                };
                (Ok(Node { id: NodeId(r.2), kind, span: espan }), r.1, next_id(r.2))
            },
        }
    }

    fn try_parse_decl(&self, pos: usize, nid: usize) -> (r: (Result<Node, Option<Diag>>, usize, usize))
        requires
            self.ready(),
            pos <= self.tokens@.len(),
        ensures
            same_attempt(r, p_decl(self.grammar(), pos as int, nid)),
            pos <= r.1 <= self.tokens@.len(),
            r.0 is Ok ==> pos < r.1,
        decreases self.tokens@.len() - pos, 1int,
    {
        let name = match self.ident_at(pos) {
            Some(s) => s,
            None => return (Err(None), pos, nid),
        };
        let span = self.tokens[pos].span;
        if self.at(pos + 1, TokenKind::Colon) {
            let t = self.parse_type(pos + 2, nid);
            match t.0 {
                Err(d) => (Err(Some(d)), t.1, t.2),
                Ok(ty) => self.typed_decl(pos, t.1, t.2, ty),
            }
        } else {
            let is_const = self.at(pos + 1, TokenKind::CColon);
            if !is_const && !self.at(pos + 1, TokenKind::Walrus) {
                return (Err(None), pos, nid);
            }
            let r = self.parse_expression(pos + 2, nid, 0);
            match r.0 {
                Err(d) => (Err(Some(d)), r.1, r.2),
                Ok(e) => {
                    let espan = span.concat(&e.span);
                    let kind = if is_const {
                        NodeKind::ShortConstDecl { name, expr: Box::new(e) }
                    } else {
                        NodeKind::ShortVarDecl { name, expr: Box::new(e) }
                    };
                    (Ok(Node { id: NodeId(r.2), kind, span: espan }), r.1, next_id(r.2))
                },
            }
        }
    }

    fn parse_statement(&self, pos: usize, nid: usize) -> (r: (Result<Node, Diag>, usize, usize))
        requires
            self.ready(),
            pos <= self.tokens@.len(),
        ensures
            same_node(r, p_statement(self.grammar(), pos as int, nid)),
            pos <= r.1 <= self.tokens@.len(),
            r.0 is Ok ==> pos < r.1,
        decreases self.tokens@.len() - pos, 4int,
    {
        let d = self.try_parse_decl(pos, nid);
        match d.0 {
            Ok(n) => return (Ok(n), d.1, d.2),
            Err(Some(e)) => return (Err(e), d.1, d.2),
            Err(None) => {},
        }
        let r = self.parse_expression(pos, nid, 0);
        match r.0 {
            Err(e) => (Err(e), r.1, r.2),
            Ok(e) => {
                if !self.at(r.1, TokenKind::Semicolon) {
                    return (Err(self.missing_kind(r.1, TokenKind::Semicolon)), r.1, r.2);
                }
                let span = e.span.concat(&self.tokens[r.1].span);
                (Ok(Node { id: NodeId(r.2), kind: NodeKind::Semi(Box::new(e)), span }), r.1 + 1, next_id(r.2))
            },
        }
    }
}

} // verus!
