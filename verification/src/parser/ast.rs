//! AST: the abstract syntax tree built by the parser.

use vstd::prelude::*;
use crate::common::{Operator, ReassignmentOp, Span, Sym};

verus! {

/// The statements at the root of a source.
#[derive(Debug)]
pub struct Ast(pub Vec<Node>);

#[derive(Debug, Clone, Copy, PartialEq, Eq, Hash, Structural)]
pub struct NodeId(pub usize);

#[derive(Debug)]
pub struct Param {
    pub name: Sym,
    pub ty: ParsedType,
    pub span: Span,
}

#[derive(Debug)]
pub enum NodeKind {
    IntLit(Sym), FloatLit(Sym),
    BoolLit(bool), StringLit(String),
    Identifier(Sym),
    Nil,
    BinaryOp {
        op: (Operator, Span),
        lhs: Box<Node>,
        rhs: Box<Node>,
    },
    UnaryOp {
        op: (Operator, Span),
        operand: Box<Node>,
    },
    Tuple(Vec<Node>),
    Block(Vec<Node>),
    Semi(Box<Node>),
    Callable {
        params: Vec<Param>,
        ret_ty: Option<ParsedType>,
        sig_span: Span,
        body: (Vec<Node>, Span),
    },
    Call {
        callee: Box<Node>,
        args: Vec<Node>,
    },
    ShortVarDecl {
        name: Sym,
        expr: Box<Node>,
    },
    TypedVarDecl {
        name: Sym,
        ty: ParsedType,
        expr: Box<Node>,
    },
    Mutation {
        name: Sym,
        op: (ReassignmentOp, Span),
        expr: Box<Node>,
    },
    ShortConstDecl {
        name: Sym,
        expr: Box<Node>,
    },
    TypedConstDecl {
        name: Sym,
        ty: ParsedType,
        expr: Box<Node>,
    },
    If {
        cond: Box<Node>,
        then: Box<Node>,
        else_: Option<Box<Node>>,
    },
    While {
        cond: Box<Node>,
        body: Box<Node>,
    },
    Return(Option<Box<Node>>),
    Break,
    Continue,
}

#[derive(Debug)]
pub struct Node {
    pub id: NodeId,
    pub kind: NodeKind,
    pub span: Span,
}

#[derive(Debug)]
pub enum ParsedTypeKind {
    Identifier(Sym),
    Nil,
    Tuple(Vec<ParsedType>),
}

#[derive(Debug)]
pub struct ParsedType {
    pub kind: ParsedTypeKind,
    pub span: Span,
}

// ---------------------------------------------------------------------------------------------
// Mathematical values of the tree
// ---------------------------------------------------------------------------------------------

pub enum TypeV {
    Identifier(Sym),
    Nil,
    Tuple(Seq<ParsedTypeV>),
}

pub struct ParsedTypeV {
    pub kind: TypeV,
    pub span: Span,
}

pub struct ParamV {
    pub name: Sym,
    pub ty: ParsedTypeV,
    pub span: Span,
}

pub enum KindV {
    IntLit(Sym), FloatLit(Sym),
    BoolLit(bool), StringLit(Seq<char>),
    Identifier(Sym),
    Nil,
    BinaryOp { op: (Operator, Span), lhs: Box<NodeV>, rhs: Box<NodeV> },
    UnaryOp { op: (Operator, Span), operand: Box<NodeV> },
    Tuple(Seq<NodeV>),
    Block(Seq<NodeV>),
    Semi(Box<NodeV>),
    Callable { params: Seq<ParamV>, ret_ty: Option<ParsedTypeV>, sig_span: Span, body: Seq<NodeV>, body_span: Span },
    Call { callee: Box<NodeV>, args: Seq<NodeV> },
    ShortVarDecl { name: Sym, expr: Box<NodeV> },
    TypedVarDecl { name: Sym, ty: ParsedTypeV, expr: Box<NodeV> },
    Mutation { name: Sym, op: (ReassignmentOp, Span), expr: Box<NodeV> },
    ShortConstDecl { name: Sym, expr: Box<NodeV> },
    TypedConstDecl { name: Sym, ty: ParsedTypeV, expr: Box<NodeV> },
    If { cond: Box<NodeV>, then: Box<NodeV>, else_: Option<Box<NodeV>> },
    While { cond: Box<NodeV>, body: Box<NodeV> },
    Return(Option<Box<NodeV>>),
    Break,
    Continue,
}

pub struct NodeV {
    pub id: NodeId,
    pub kind: KindV,
    pub span: Span,
}

pub open spec fn type_view(t: ParsedType) -> ParsedTypeV
    decreases t,
{
    ParsedTypeV {
        kind: match t.kind {
            ParsedTypeKind::Identifier(s) => TypeV::Identifier(s),
            ParsedTypeKind::Nil => TypeV::Nil,
            ParsedTypeKind::Tuple(items) => TypeV::Tuple(types_view(items@)),
        },
        span: t.span,
    }
}

pub open spec fn types_view(s: Seq<ParsedType>) -> Seq<ParsedTypeV>
    decreases s,
{
    if s.len() == 0 {
        Seq::empty()
    } else {
        seq![type_view(s[0])] + types_view(s.drop_first())
    }
}

pub open spec fn param_view(p: Param) -> ParamV {
    ParamV { name: p.name, ty: type_view(p.ty), span: p.span }
}

pub open spec fn params_view(s: Seq<Param>) -> Seq<ParamV>
    decreases s.len(),
{
    if s.len() == 0 {
        Seq::empty()
    } else {
        seq![param_view(s[0])] + params_view(s.drop_first())
    }
}

pub open spec fn opt_type_view(t: Option<ParsedType>) -> Option<ParsedTypeV> {
    match t {
        Some(t) => Some(type_view(t)),
        None => None,
    }
}

pub open spec fn node_view(n: Node) -> NodeV
    decreases n,
{
    NodeV {
        id: n.id,
        kind: match n.kind {
            NodeKind::IntLit(s) => KindV::IntLit(s),
            NodeKind::FloatLit(s) => KindV::FloatLit(s),
            NodeKind::BoolLit(b) => KindV::BoolLit(b),
            NodeKind::StringLit(s) => KindV::StringLit(s@),
            NodeKind::Identifier(s) => KindV::Identifier(s),
            NodeKind::Nil => KindV::Nil,
            NodeKind::BinaryOp { op, lhs, rhs } =>
                KindV::BinaryOp { op, lhs: Box::new(node_view(*lhs)), rhs: Box::new(node_view(*rhs)) },
            NodeKind::UnaryOp { op, operand } =>
                KindV::UnaryOp { op, operand: Box::new(node_view(*operand)) },
            NodeKind::Tuple(items) => KindV::Tuple(nodes_view(items@)),
            NodeKind::Block(stmts) => KindV::Block(nodes_view(stmts@)),
            NodeKind::Semi(e) => KindV::Semi(Box::new(node_view(*e))),
            NodeKind::Callable { params, ret_ty, sig_span, body } => KindV::Callable {
                params: params_view(params@),
                ret_ty: opt_type_view(ret_ty),
                sig_span,
                body: nodes_view(body.0@),
                body_span: body.1,
            },
            NodeKind::Call { callee, args } =>
                KindV::Call { callee: Box::new(node_view(*callee)), args: nodes_view(args@) },
            NodeKind::ShortVarDecl { name, expr } =>
                KindV::ShortVarDecl { name, expr: Box::new(node_view(*expr)) },
            NodeKind::TypedVarDecl { name, ty, expr } =>
                KindV::TypedVarDecl { name, ty: type_view(ty), expr: Box::new(node_view(*expr)) },
            NodeKind::Mutation { name, op, expr } =>
                KindV::Mutation { name, op, expr: Box::new(node_view(*expr)) },
            NodeKind::ShortConstDecl { name, expr } =>
                KindV::ShortConstDecl { name, expr: Box::new(node_view(*expr)) },
            NodeKind::TypedConstDecl { name, ty, expr } =>
                KindV::TypedConstDecl { name, ty: type_view(ty), expr: Box::new(node_view(*expr)) },
            NodeKind::If { cond, then, else_ } => KindV::If {
                cond: Box::new(node_view(*cond)),
                then: Box::new(node_view(*then)),
                else_: match else_ {
                    Some(e) => Some(Box::new(node_view(*e))),
                    None => None,
                },
            },
            NodeKind::While { cond, body } =>
                KindV::While { cond: Box::new(node_view(*cond)), body: Box::new(node_view(*body)) },
            NodeKind::Return(v) => KindV::Return(match v {
                Some(e) => Some(Box::new(node_view(*e))),
                None => None,
            }),
            NodeKind::Break => KindV::Break,
            NodeKind::Continue => KindV::Continue,
        },
        span: n.span,
    }
}

pub open spec fn nodes_view(s: Seq<Node>) -> Seq<NodeV>
    decreases s,
{
    if s.len() == 0 {
        Seq::empty()
    } else {
        seq![node_view(s[0])] + nodes_view(s.drop_first())
    }
}

// ---------------------------------------------------------------------------------------------
// Views of sequences, element by element
// ---------------------------------------------------------------------------------------------

pub proof fn lemma_nodes_view(s: Seq<Node>)
    ensures
        nodes_view(s).len() == s.len(),
        forall|i: int| 0 <= i < s.len() ==> nodes_view(s)[i] == node_view(#[trigger] s[i]),
    decreases s.len(),
{
    if s.len() > 0 {
        lemma_nodes_view(s.drop_first());
        assert forall|i: int| 0 <= i < s.len() implies nodes_view(s)[i] == node_view(#[trigger] s[i]) by {
            if i > 0 {
                assert(s[i] == s.drop_first()[i - 1]);
            }
        }
    }
}

pub proof fn lemma_nodes_view_push(s: Seq<Node>, x: Node)
    ensures
        nodes_view(s.push(x)) == nodes_view(s).push(node_view(x)),
{
    lemma_nodes_view(s);
    lemma_nodes_view(s.push(x));
    assert forall|i: int| 0 <= i < s.len() + 1 implies nodes_view(s.push(x))[i] == nodes_view(s).push(node_view(x))[i] by {
        if i < s.len() {
            assert(s.push(x)[i] == s[i]);
        } else {
            assert(s.push(x)[i] == x);
        }
    }
    assert(nodes_view(s.push(x)) =~= nodes_view(s).push(node_view(x)));
}

pub proof fn lemma_types_view(s: Seq<ParsedType>)
    ensures
        types_view(s).len() == s.len(),
        forall|i: int| 0 <= i < s.len() ==> types_view(s)[i] == type_view(#[trigger] s[i]),
    decreases s.len(),
{
    if s.len() > 0 {
        lemma_types_view(s.drop_first());
        assert forall|i: int| 0 <= i < s.len() implies types_view(s)[i] == type_view(#[trigger] s[i]) by {
            if i > 0 {
                assert(s[i] == s.drop_first()[i - 1]);
            }
        }
    }
}

pub proof fn lemma_types_view_push(s: Seq<ParsedType>, x: ParsedType)
    ensures
        types_view(s.push(x)) == types_view(s).push(type_view(x)),
{
    lemma_types_view(s);
    lemma_types_view(s.push(x));
    assert forall|i: int| 0 <= i < s.len() + 1 implies types_view(s.push(x))[i] == types_view(s).push(type_view(x))[i] by {
        if i < s.len() {
            assert(s.push(x)[i] == s[i]);
        } else {
            assert(s.push(x)[i] == x);
        }
    }
    assert(types_view(s.push(x)) =~= types_view(s).push(type_view(x)));
}

pub proof fn lemma_params_view(s: Seq<Param>)
    ensures
        params_view(s).len() == s.len(),
        forall|i: int| 0 <= i < s.len() ==> params_view(s)[i] == param_view(#[trigger] s[i]),
    decreases s.len(),
{
    if s.len() > 0 {
        lemma_params_view(s.drop_first());
        assert forall|i: int| 0 <= i < s.len() implies params_view(s)[i] == param_view(#[trigger] s[i]) by {
            if i > 0 {
                assert(s[i] == s.drop_first()[i - 1]);
            }
        }
    }
}

pub proof fn lemma_params_view_push(s: Seq<Param>, x: Param)
    ensures
        params_view(s.push(x)) == params_view(s).push(param_view(x)),
{
    lemma_params_view(s);
    lemma_params_view(s.push(x));
    assert forall|i: int| 0 <= i < s.len() + 1 implies params_view(s.push(x))[i] == params_view(s).push(param_view(x))[i] by {
        if i < s.len() {
            assert(s.push(x)[i] == s[i]);
        } else {
            assert(s.push(x)[i] == x);
        }
    }
    assert(params_view(s.push(x)) =~= params_view(s).push(param_view(x)));
}

// ---------------------------------------------------------------------------------------------
// Copies
// ---------------------------------------------------------------------------------------------

/// A copy of a written type.
pub fn copy_type(t: &ParsedType) -> (r: ParsedType)
    ensures
        type_view(r) == type_view(*t),
    decreases t,
{
    let kind = match &t.kind {
        ParsedTypeKind::Identifier(s) => ParsedTypeKind::Identifier(*s),
        ParsedTypeKind::Nil => ParsedTypeKind::Nil,
        ParsedTypeKind::Tuple(items) => {
            let mut v: Vec<ParsedType> = Vec::new();
            let mut i: usize = 0;
            while i < items.len()
                invariant
                    i <= items@.len(),
                    (match t.kind { ParsedTypeKind::Tuple(w) => w == *items, _ => false }),
                    v@.len() == i,
                    forall|j: int| 0 <= j < i ==> type_view(#[trigger] v@[j]) == type_view(items@[j]),
                decreases items.len() - i,
            {
                proof {
                    vstd::std_specs::vec::axiom_vec_index_decreases(*items, i as int);
                    assert(decreases_to!(*t => t.kind));
                    assert(decreases_to!(t.kind => *items));
                }
                let c = copy_type(&items[i]);
                v.push(c);
                i += 1;
            }
            proof {
                lemma_types_view(v@);
                lemma_types_view(items@);
                assert forall|j: int| 0 <= j < v@.len() implies #[trigger] types_view(v@)[j] == types_view(items@)[j] by {
            assert(type_view(v@[j]) == type_view(items@[j]));
        }
        assert(types_view(v@) =~= types_view(items@));
            }
            ParsedTypeKind::Tuple(v)
        },
    };
    ParsedType { kind, span: t.span }
}

fn copy_params(ps: &Vec<Param>) -> (r: Vec<Param>)
    ensures
        params_view(r@) == params_view(ps@),
{
    let mut v: Vec<Param> = Vec::new();
    let mut i: usize = 0;
    while i < ps.len()
        invariant
            i <= ps@.len(),
            v@.len() == i,
            forall|j: int| 0 <= j < i ==> param_view(#[trigger] v@[j]) == param_view(ps@[j]),
        decreases ps.len() - i,
    {
        let p = &ps[i];
        v.push(Param { name: p.name, ty: copy_type(&p.ty), span: p.span });
        i += 1;
    }
    proof {
        lemma_params_view(v@);
        lemma_params_view(ps@);
        assert forall|j: int| 0 <= j < v@.len() implies #[trigger] params_view(v@)[j] == params_view(ps@)[j] by {
            assert(param_view(v@[j]) == param_view(ps@[j]));
        }
        assert(params_view(v@) =~= params_view(ps@));
    }
    v
}

/// A copy of a list of nodes.
pub fn copy_nodes(items: &Vec<Node>) -> (r: Vec<Node>)
    ensures
        nodes_view(r@) == nodes_view(items@),
    decreases items, 1nat,
{
    let mut v: Vec<Node> = Vec::new();
    let mut i: usize = 0;
    while i < items.len()
        invariant
            i <= items@.len(),
            v@.len() == i,
            forall|j: int| 0 <= j < i ==> node_view(#[trigger] v@[j]) == node_view(items@[j]),
        decreases items.len() - i,
    {
        proof { vstd::std_specs::vec::axiom_vec_index_decreases(*items, i as int); }
        let c = copy_node(&items[i]);
        v.push(c);
        i += 1;
    }
    proof {
        lemma_nodes_view(v@);
        lemma_nodes_view(items@);
        assert forall|j: int| 0 <= j < v@.len() implies #[trigger] nodes_view(v@)[j] == nodes_view(items@)[j] by {
            assert(node_view(v@[j]) == node_view(items@[j]));
        }
        assert(nodes_view(v@) =~= nodes_view(items@));
    }
    v
}

/// A copy of a node and everything under it.
pub fn copy_node(n: &Node) -> (r: Node)
    ensures
        node_view(r) == node_view(*n),
    decreases n, 0nat,
{
    let kind = match &n.kind {
        NodeKind::IntLit(s) => NodeKind::IntLit(*s),
        NodeKind::FloatLit(s) => NodeKind::FloatLit(*s),
        NodeKind::BoolLit(b) => NodeKind::BoolLit(*b),
        NodeKind::StringLit(s) => NodeKind::StringLit(crate::common::text::string_of(s.as_str())),
        NodeKind::Identifier(s) => NodeKind::Identifier(*s),
        NodeKind::Nil => NodeKind::Nil,
        NodeKind::BinaryOp { op, lhs, rhs } =>
            NodeKind::BinaryOp { op: *op, lhs: Box::new(copy_node(lhs)), rhs: Box::new(copy_node(rhs)) },
        NodeKind::UnaryOp { op, operand } => NodeKind::UnaryOp { op: *op, operand: Box::new(copy_node(operand)) },
        NodeKind::Tuple(items) => NodeKind::Tuple(copy_nodes(items)),
        NodeKind::Block(stmts) => NodeKind::Block(copy_nodes(stmts)),
        NodeKind::Semi(e) => NodeKind::Semi(Box::new(copy_node(e))),
        NodeKind::Callable { params, ret_ty, sig_span, body } => NodeKind::Callable {
            params: copy_params(params),
            ret_ty: match ret_ty {
                Some(t) => Some(copy_type(t)),
                None => None,
            },
            sig_span: *sig_span,
            body: (copy_nodes(&body.0), body.1),
        },
        NodeKind::Call { callee, args } => NodeKind::Call { callee: Box::new(copy_node(callee)), args: copy_nodes(args) },
        NodeKind::ShortVarDecl { name, expr } => NodeKind::ShortVarDecl { name: *name, expr: Box::new(copy_node(expr)) },
        NodeKind::TypedVarDecl { name, ty, expr } =>
            NodeKind::TypedVarDecl { name: *name, ty: copy_type(ty), expr: Box::new(copy_node(expr)) },
        NodeKind::Mutation { name, op, expr } => NodeKind::Mutation { name: *name, op: *op, expr: Box::new(copy_node(expr)) },
        NodeKind::ShortConstDecl { name, expr } => NodeKind::ShortConstDecl { name: *name, expr: Box::new(copy_node(expr)) },
        NodeKind::TypedConstDecl { name, ty, expr } =>
            NodeKind::TypedConstDecl { name: *name, ty: copy_type(ty), expr: Box::new(copy_node(expr)) },
        NodeKind::If { cond, then, else_ } => NodeKind::If {
            cond: Box::new(copy_node(cond)),
            then: Box::new(copy_node(then)),
            else_: match else_ {
                Some(e) => Some(Box::new(copy_node(e))),
                None => None,
            },
        },
        NodeKind::While { cond, body } => NodeKind::While { cond: Box::new(copy_node(cond)), body: Box::new(copy_node(body)) },
        NodeKind::Return(v) => NodeKind::Return(match v {
            Some(e) => Some(Box::new(copy_node(e))),
            None => None,
        }),
        NodeKind::Break => NodeKind::Break,
        NodeKind::Continue => NodeKind::Continue,
    };
    Node { id: n.id, kind, span: n.span }
}

} // verus!
