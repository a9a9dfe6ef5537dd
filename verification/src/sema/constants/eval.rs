//! Evaluation of constant expressions.
//!
//! Operators, strings, callables and `if` are not evaluated yet: an expression that reaches
//! one of them is outside what the evaluator accepts ([`Outcome::Stuck`]).

use vstd::prelude::*;
use crate::common::{Diag, Interner, Span, Sym};
use crate::common::diag::{DiagV, diag1};
use crate::common::text::string_of;
use crate::parser::ast::{KindV, Node, NodeId, NodeKind, NodeV, node_view, nodes_view, lemma_nodes_view};
use super::super::errors::{unknown_ident, unknown_ident_diag, note_lines};
use super::super::scope::{SymbolMap, SymbolMapV, find_in_maps, found, maps_view};
use super::super::types::{Type, TypeId, TypeManager, TypeV, TypesV};
use super::bigint::{parse_decimal, parsed_decimal};
use super::{ConstV, ConstValue, const_view, consts_view, lemma_consts_view_push};

verus! {

/// The result of evaluating an expression, with the type manager after it; `Stuck` where
/// the evaluation would reach what it does not handle, or would panic.
pub enum Outcome {
    Done(Result<ConstV, Seq<DiagV>>, TypesV),
    Stuck,
}

pub open spec fn non_constant_diag(span: Span, label: Seq<char>) -> DiagV {
    diag1("Unexpected non-constant expression"@, span.source_id, span.start, span.end, label)
}

pub open spec fn invalid_literal_diag(span: Span, label: Seq<char>) -> DiagV {
    diag1("Invalid literal"@, span.source_id, span.start, span.end, label)
}

/// Records `ty` as the type of node `id` and gives `out`; stuck if the node has a type.
pub open spec fn assign(v: TypesV, id: NodeId, ty: TypeId, out: Result<ConstV, Seq<DiagV>>) -> Outcome {
    if v.type_map.contains_key(id.0) {
        Outcome::Stuck
    } else {
        Outcome::Done(out, TypesV { type_map: v.type_map.insert(id.0, ty), ..v })
    }
}

/// A literal: a new type `t` is created for it and becomes the node's type.
pub open spec fn literal(v: TypesV, id: NodeId, t: TypeV, val: ConstV) -> Outcome {
    if v.pool.len() >= usize::MAX {
        Outcome::Stuck
    } else {
        assign(v.with_pool(v.pool.push(t)), id, TypeId(v.pool.len() as usize), Ok(val))
    }
}

pub open spec fn gathered(errs: Seq<DiagV>, val: ConstV) -> Result<ConstV, Seq<DiagV>> {
    if errs.len() == 0 { Ok(val) } else { Err(errs) }
}

/// The value of the constant expression `n`, with names looked up in `scope` (innermost
/// last) and interned strings `strs`.
pub open spec fn eval_spec(strs: Seq<Seq<char>>, scope: Seq<SymbolMapV>, v: TypesV, n: NodeV) -> Outcome
    decreases n,
{
    match n.kind {
        KindV::IntLit(s) => if s.0 >= strs.len() {
            Outcome::Stuck
        } else {
            match parsed_decimal(strs[s.0 as int]) {
                Ok(x) => literal(v, n.id, TypeV::AmbiguousInt, ConstV::Int(x)),
                Err(m) => Outcome::Done(Err(seq![invalid_literal_diag(n.span, m)]), v),
            }
        },
        KindV::FloatLit(s) => literal(v, n.id, TypeV::AmbiguousFloat, ConstV::Float(s)),
        KindV::BoolLit(b) => assign(v, n.id, v.predef.bool_id, Ok(ConstV::Bool(b))),
        KindV::Identifier(s) => if s.0 >= strs.len() {
            Outcome::Stuck
        } else {
            match find_in_maps(scope, s.0) {
                Some((ty, Some(val))) => assign(v, n.id, ty, Ok(val)),
                Some((_, None)) => Outcome::Done(
                    Err(seq![non_constant_diag(n.span, "`"@ + strs[s.0 as int] + "` is not a constant"@)]),
                    v,
                ),
                None => Outcome::Done(Err(seq![unknown_ident_diag(n.span, strs[s.0 as int], Seq::empty())]), v),
            }
        },
        KindV::Nil => Outcome::Done(Ok(ConstV::Nil), v),
        KindV::Tuple(items) => eval_tuple(strs, scope, v, items, Seq::empty(), Seq::empty()),
        KindV::Block(stmts) => eval_block(strs, scope, v, stmts, ConstV::Nil, Seq::empty()),
        KindV::Semi(e) => match eval_spec(strs, scope, v, *e) {
            Outcome::Done(Ok(x), v2) => Outcome::Done(Ok(if x is Never { ConstV::Never } else { ConstV::Nil }), v2),
            other => other,
        },
        KindV::StringLit(_) | KindV::BinaryOp { .. } | KindV::UnaryOp { .. } | KindV::Callable { .. }
        | KindV::If { .. } => Outcome::Stuck,
        _ => Outcome::Done(Err(seq![non_constant_diag(n.span, "expected constant expression"@)]), v),
    }
}

/// A tuple's items from the first of `items` on, after the values `vals` and diagnostics
/// `errs` of the earlier ones; a `!` item ends the tuple with that value.
pub open spec fn eval_tuple(
    strs: Seq<Seq<char>>,
    scope: Seq<SymbolMapV>,
    v: TypesV,
    items: Seq<NodeV>,
    vals: Seq<ConstV>,
    errs: Seq<DiagV>,
) -> Outcome
    decreases items,
{
    if items.len() == 0 {
        Outcome::Done(gathered(errs, ConstV::Tuple(vals)), v)
    } else {
        match eval_spec(strs, scope, v, items[0]) {
            Outcome::Stuck => Outcome::Stuck,
            Outcome::Done(Ok(x), v2) => if x is Never {
                Outcome::Done(gathered(errs, x), v2)
            } else {
                eval_tuple(strs, scope, v2, items.drop_first(), vals.push(x), errs)
            },
            Outcome::Done(Err(e), v2) => eval_tuple(strs, scope, v2, items.drop_first(), vals, errs + e),
        }
    }
}

/// A block's statements from the first of `stmts` on, `last` the value of the latest one;
/// a `!` statement ends the block.
pub open spec fn eval_block(
    strs: Seq<Seq<char>>,
    scope: Seq<SymbolMapV>,
    v: TypesV,
    stmts: Seq<NodeV>,
    last: ConstV,
    errs: Seq<DiagV>,
) -> Outcome
    decreases stmts,
{
    if stmts.len() == 0 {
        Outcome::Done(gathered(errs, last), v)
    } else {
        match eval_spec(strs, scope, v, stmts[0]) {
            Outcome::Stuck => Outcome::Stuck,
            Outcome::Done(Ok(x), v2) => if x is Never {
                Outcome::Done(gathered(errs, last), v2)
            } else {
                eval_block(strs, scope, v2, stmts.drop_first(), x, errs)
            },
            Outcome::Done(Err(e), v2) => eval_block(strs, scope, v2, stmts.drop_first(), last, errs + e),
        }
    }
}

pub open spec fn res_const(r: Result<ConstValue, Vec<Diag>>) -> Result<ConstV, Seq<DiagV>> {
    match r {
        Ok(c) => Ok(const_view(c)),
        Err(ds) => Err(ds@.map_values(|d: Diag| d@)),
    }
}

proof fn lemma_map_diags_concat(a: Seq<Diag>, b: Seq<Diag>)
    ensures
        (a + b).map_values(|d: Diag| d@) == a.map_values(|d: Diag| d@) + b.map_values(|d: Diag| d@),
{
    let l = (a + b).map_values(|d: Diag| d@);
    let r = a.map_values(|d: Diag| d@) + b.map_values(|d: Diag| d@);
    assert forall|i: int| 0 <= i < a.len() + b.len() implies #[trigger] l[i] == r[i] by {
        if i < a.len() {
            assert((a + b)[i] == a[i]);
        } else {
            assert((a + b)[i] == b[i - a.len()]);
        }
    }
    assert(l =~= r);
}

fn one(d: Diag) -> (r: Vec<Diag>)
    ensures
        r@.map_values(|x: Diag| x@) == seq![d@],
{
    let mut r = Vec::new();
    r.push(d);
    assert(r@.map_values(|x: Diag| x@) =~= seq![d@]);
    r
}

fn non_constant(span: &Span, label: &str) -> (d: Diag)
    ensures
        d@ == non_constant_diag(*span, label@),
{
    Diag::single("Unexpected non-constant expression", span.source_id, span.start, span.end, label)
}

fn find_in_scope<'a>(scope: &'a Vec<SymbolMap>, name: &Sym) -> (r: Option<(TypeId, Option<&'a ConstValue>)>)
    requires
        forall|i: int| 0 <= i < scope@.len() ==> (#[trigger] scope@[i]).wf(),
    ensures
        match (r, find_in_maps(maps_view(scope@), name.0)) {
            (Some((t, Some(a))), Some((u, Some(b)))) => t == u && const_view(*a) == b,
            (Some((t, None)), Some((u, None))) => t == u,
            (None, None) => true,
            _ => false,
        },
{
    let mut i = scope.len();
    assert(maps_view(scope@).subrange(0, scope@.len() as int) =~= maps_view(scope@));
    while i > 0
        invariant
            i <= scope@.len(),
            forall|j: int| 0 <= j < scope@.len() ==> (#[trigger] scope@[j]).wf(),
            find_in_maps(maps_view(scope@), name.0) == find_in_maps(maps_view(scope@).subrange(0, i as int), name.0),
        decreases i,
    {
        i -= 1;
        let ghost pre = maps_view(scope@).subrange(0, i + 1);
        assert(pre.last() == scope@[i as int]@);
        assert(pre.drop_last() =~= maps_view(scope@).subrange(0, i as int));
        match scope[i].find_symbol(name) {
            Some(s) => return Some((*s.ty, s.val)),
            None => {},
        }
    }
    None
}

/// Evaluates the constant expression `node`: its value, or the diagnostics of every part that
/// is not a constant; the types of literals and names are recorded in `types`.
pub fn eval_node(interner: &Interner, scope: &Vec<SymbolMap>, types: &mut TypeManager, node: &Node)
    -> (r: Result<ConstValue, Vec<Diag>>)
    requires
        interner.wf(),
        old(types).wf(),
        forall|i: int| 0 <= i < scope@.len() ==> (#[trigger] scope@[i]).wf(),
        !(eval_spec(interner@, maps_view(scope@), old(types)@, node_view(*node)) is Stuck),
    ensures
        final(types).wf(),
        eval_spec(interner@, maps_view(scope@), old(types)@, node_view(*node))
            == Outcome::Done(res_const(r), final(types)@),
    decreases node,
{
    match &node.kind {
        NodeKind::IntLit(s) => {
            let lit = interner.resolve(*s);
            match parse_decimal(lit) {
                Ok(val) => {
                    let ty_id = types.create_type(Type::AmbiguousInt);
                    types.assign_node_type(node.id, ty_id);
                    Ok(ConstValue::Int(val))
                },
                Err(msg) => Err(one(Diag::single(
                    "Invalid literal", node.span.source_id, node.span.start, node.span.end, msg.as_str()))),
            }
        },
        NodeKind::FloatLit(s) => {
            let ty_id = types.create_type(Type::AmbiguousFloat);
            types.assign_node_type(node.id, ty_id);
            Ok(ConstValue::Float(*s))
        },
        NodeKind::BoolLit(b) => {
            let bool_id = types.predef().bool_id;
            types.assign_node_type(node.id, bool_id);
            Ok(ConstValue::Bool(*b))
        },
        NodeKind::Identifier(s) => {
            match find_in_scope(scope, s) {
                Some((ty, Some(v))) => {
                    types.assign_node_type(node.id, ty);
                    Ok(v.copy())
                },
                Some((_, None)) => {
                    let mut label = string_of("`");
                    label.append(interner.resolve(*s));
                    label.append("` is not a constant");
                    Err(one(non_constant(&node.span, label.as_str())))
                },
                None => {
                    let no_notes: Vec<&str> = Vec::new();
                    let d = unknown_ident(&node.span, interner.resolve(*s), no_notes.as_slice());
                    proof {
                        let tag = choose|tag: Seq<char>| super::super::errors::is_note_tag(tag)
                            && d@ == unknown_ident_diag(node.span, interner@[s.0 as int], note_lines(tag, no_notes@));
                        assert(note_lines(tag, no_notes@) =~= Seq::<Seq<char>>::empty());
                    }
                    Err(one(d))
                },
            }
        },
        NodeKind::Nil => Ok(ConstValue::Nil),
        NodeKind::Tuple(items) => {
            let ghost tv = nodes_view(items@);
            proof { lemma_nodes_view(items@); }
            let mut item_vals: Vec<ConstValue> = Vec::new();
            let mut errors: Vec<Diag> = Vec::new();
            let mut i: usize = 0;
            assert(tv.subrange(0, tv.len() as int) =~= tv);
            assert(consts_view(item_vals@) =~= Seq::<ConstV>::empty());
            assert(errors@.map_values(|d: Diag| d@) =~= Seq::<DiagV>::empty());
            while i < items.len()
                invariant
                    i <= items@.len(),
                    (match node.kind { NodeKind::Tuple(w) => w == *items, _ => false }),
                    tv == nodes_view(items@),
                    tv.len() == items@.len(),
                    forall|j: int| 0 <= j < items@.len() ==> tv[j] == node_view(#[trigger] items@[j]),
                    interner.wf(),
                    types.wf(),
                    forall|j: int| 0 <= j < scope@.len() ==> (#[trigger] scope@[j]).wf(),
                    eval_spec(interner@, maps_view(scope@), old(types)@, node_view(*node))
                        == eval_tuple(interner@, maps_view(scope@), types@, tv.subrange(i as int, tv.len() as int),
                            consts_view(item_vals@), errors@.map_values(|d: Diag| d@)),
                    !(eval_spec(interner@, maps_view(scope@), old(types)@, node_view(*node)) is Stuck),
                decreases items.len() - i,
            {
                let ghost rest = tv.subrange(i as int, tv.len() as int);
                assert(rest[0] == tv[i as int]);
                assert(rest.drop_first() =~= tv.subrange(i + 1, tv.len() as int));
                proof {
                    vstd::std_specs::vec::axiom_vec_index_decreases(*items, i as int);
                    assert(decreases_to!(*node => node.kind));
                    assert(decreases_to!(node.kind => *items));
                }
                let ghost before = errors@;
                match eval_node(interner, scope, types, &items[i]) {
                    Ok(val) => {
                        if matches!(val, ConstValue::Never) {
                            if errors.len() == 0 {
                                return Ok(val);
                            } else {
                                return Err(errors);
                            }
                        } else {
                            proof { lemma_consts_view_push(item_vals@, val); }
                            item_vals.push(val);
                        }
                    },
                    Err(err) => {
                        let ghost added = err@;
                        let mut err = err;
                        errors.append(&mut err);
                        proof { lemma_map_diags_concat(before, added); }
                    },
                }
                i += 1;
            }
            if errors.len() == 0 {
                Ok(ConstValue::Tuple(item_vals))
            } else {
                Err(errors)
            }
        },
        NodeKind::Block(stmts) => {
            let ghost tv = nodes_view(stmts@);
            proof { lemma_nodes_view(stmts@); }
            let mut final_val = ConstValue::Nil;
            let mut errors: Vec<Diag> = Vec::new();
            let mut i: usize = 0;
            assert(tv.subrange(0, tv.len() as int) =~= tv);
            assert(errors@.map_values(|d: Diag| d@) =~= Seq::<DiagV>::empty());
            while i < stmts.len()
                invariant
                    i <= stmts@.len(),
                    (match node.kind { NodeKind::Block(w) => w == *stmts, _ => false }),
                    tv == nodes_view(stmts@),
                    tv.len() == stmts@.len(),
                    forall|j: int| 0 <= j < stmts@.len() ==> tv[j] == node_view(#[trigger] stmts@[j]),
                    interner.wf(),
                    types.wf(),
                    forall|j: int| 0 <= j < scope@.len() ==> (#[trigger] scope@[j]).wf(),
                    eval_spec(interner@, maps_view(scope@), old(types)@, node_view(*node))
                        == eval_block(interner@, maps_view(scope@), types@, tv.subrange(i as int, tv.len() as int),
                            const_view(final_val), errors@.map_values(|d: Diag| d@)),
                    !(eval_spec(interner@, maps_view(scope@), old(types)@, node_view(*node)) is Stuck),
                decreases stmts.len() - i,
            {
                let ghost rest = tv.subrange(i as int, tv.len() as int);
                assert(rest[0] == tv[i as int]);
                assert(rest.drop_first() =~= tv.subrange(i + 1, tv.len() as int));
                proof {
                    vstd::std_specs::vec::axiom_vec_index_decreases(*stmts, i as int);
                    assert(decreases_to!(*node => node.kind));
                    assert(decreases_to!(node.kind => *stmts));
                }
                let ghost before = errors@;
                match eval_node(interner, scope, types, &stmts[i]) {
                    Ok(val) => {
                        if matches!(val, ConstValue::Never) {
                            if errors.len() == 0 {
                                return Ok(final_val);
                            } else {
                                return Err(errors);
                            }
                        }
                        final_val = val;
                    },
                    Err(err) => {
                        let ghost added = err@;
                        let mut err = err;
                        errors.append(&mut err);
                        proof { lemma_map_diags_concat(before, added); }
                    },
                }
                i += 1;
            }
            if errors.len() == 0 {
                Ok(final_val)
            } else {
                Err(errors)
            }
        },
        NodeKind::Semi(stmt) => {
            let v = eval_node(interner, scope, types, stmt)?;
            if matches!(v, ConstValue::Never) {
                Ok(ConstValue::Never)
            } else {
                Ok(ConstValue::Nil)
            }
        },
        NodeKind::StringLit(_) | NodeKind::BinaryOp { .. } | NodeKind::UnaryOp { .. } | NodeKind::Callable { .. }
        | NodeKind::If { .. } => {
            assert(false);
            Ok(ConstValue::Nil)
        },
        _ => Err(one(non_constant(&node.span, "expected constant expression"))),
    }
}

/// Evaluates constant expressions against a stack of symbol maps, recording types in a type
/// manager.
pub struct ConstEvaluator<'co> {
    pub interner: &'co Interner,
    pub scope: &'co mut Vec<SymbolMap>,
    pub types: &'co mut TypeManager,
}

impl<'co> ConstEvaluator<'co> {
    pub fn new(interner: &'co Interner, scope: &'co mut Vec<SymbolMap>, types: &'co mut TypeManager) -> (r: ConstEvaluator<'co>)
        ensures
            r.interner == interner,
            *r.scope == *old(scope),
            *r.types == *old(types),
            *final(scope) == *final(r.scope),
            *final(types) == *final(r.types),
    {
        ConstEvaluator { interner, scope, types }
    }

    /// The value of the constant expression `node`, as [`eval_node`] gives it.
    pub fn evaluate(&mut self, node: &Node) -> (r: Result<ConstValue, Vec<Diag>>)
        requires
            old(self).interner.wf(),
            old(self).types.wf(),
            forall|i: int| 0 <= i < old(self).scope@.len() ==> (#[trigger] old(self).scope@[i]).wf(),
            !(eval_spec(old(self).interner@, maps_view(old(self).scope@), old(self).types@, node_view(*node)) is Stuck),
        ensures
            final(self).types.wf(),
            final(self).interner == old(self).interner,
            *final(self).scope == *old(self).scope,
            *final(final(self).scope) == *final(old(self).scope),
            *final(final(self).types) == *final(old(self).types),
            eval_spec(old(self).interner@, maps_view(old(self).scope@), old(self).types@, node_view(*node))
                == Outcome::Done(res_const(r), final(self).types@),
    {
        eval_node(self.interner, &*self.scope, &mut *self.types, node)
    }
}

/// `w` is `v` with types and node types added: the names, coercions and predefined ids are the
/// same, the types of `v` keep their ids, and every node type of `v` stays.
pub open spec fn extends(v: TypesV, w: TypesV) -> bool {
    &&& w.registry == v.registry
    &&& w.coercions == v.coercions
    &&& w.predef == v.predef
    &&& v.pool.len() <= w.pool.len()
    &&& w.pool.subrange(0, v.pool.len() as int) == v.pool
    &&& forall|k: usize| #[trigger] v.type_map.contains_key(k) ==> w.type_map.contains_key(k) && w.type_map[k] == v.type_map[k]
}

proof fn lemma_extends_refl(v: TypesV)
    ensures
        extends(v, v),
{
    assert(v.pool.subrange(0, v.pool.len() as int) =~= v.pool);
}

proof fn lemma_extends_trans(a: TypesV, b: TypesV, c: TypesV)
    requires
        extends(a, b),
        extends(b, c),
    ensures
        extends(a, c),
{
    assert(c.pool.subrange(0, a.pool.len() as int) =~= b.pool.subrange(0, a.pool.len() as int));
}

/// Evaluating a constant expression only adds types and node types: it changes no name, no
/// coercion, no existing type and no recorded node type.
pub proof fn law_eval_only_adds(strs: Seq<Seq<char>>, scope: Seq<SymbolMapV>, v: TypesV, n: NodeV)
    ensures
        eval_spec(strs, scope, v, n) matches Outcome::Done(_, w) ==> extends(v, w),
    decreases n,
{
    lemma_extends_refl(v);
    match n.kind {
        KindV::IntLit(_) | KindV::FloatLit(_) => {
            let w = v.with_pool(v.pool.push(TypeV::AmbiguousInt));
            assert(w.pool.subrange(0, v.pool.len() as int) =~= v.pool);
            let w2 = v.with_pool(v.pool.push(TypeV::AmbiguousFloat));
            assert(w2.pool.subrange(0, v.pool.len() as int) =~= v.pool);
        },
        KindV::Tuple(items) => lemma_tuple_only_adds(strs, scope, v, items, Seq::empty(), Seq::empty()),
        KindV::Block(stmts) => lemma_block_only_adds(strs, scope, v, stmts, ConstV::Nil, Seq::empty()),
        KindV::Semi(e) => law_eval_only_adds(strs, scope, v, *e),
        _ => {},
    }
}

proof fn lemma_tuple_only_adds(
    strs: Seq<Seq<char>>,
    scope: Seq<SymbolMapV>,
    v: TypesV,
    items: Seq<NodeV>,
    vals: Seq<ConstV>,
    errs: Seq<DiagV>,
)
    ensures
        eval_tuple(strs, scope, v, items, vals, errs) matches Outcome::Done(_, w) ==> extends(v, w),
    decreases items,
{
    lemma_extends_refl(v);
    if items.len() > 0 {
        law_eval_only_adds(strs, scope, v, items[0]);
        match eval_spec(strs, scope, v, items[0]) {
            Outcome::Done(Ok(x), v2) => {
                lemma_tuple_only_adds(strs, scope, v2, items.drop_first(), vals.push(x), errs);
                if let Outcome::Done(_, w) = eval_tuple(strs, scope, v, items, vals, errs) {
                    if !(x is Never) {
                        lemma_extends_trans(v, v2, w);
                    }
                }
            },
            Outcome::Done(Err(e), v2) => {
                lemma_tuple_only_adds(strs, scope, v2, items.drop_first(), vals, errs + e);
                if let Outcome::Done(_, w) = eval_tuple(strs, scope, v, items, vals, errs) {
                    lemma_extends_trans(v, v2, w);
                }
            },
            Outcome::Stuck => {},
        }
    }
}

proof fn lemma_block_only_adds(
    strs: Seq<Seq<char>>,
    scope: Seq<SymbolMapV>,
    v: TypesV,
    stmts: Seq<NodeV>,
    last: ConstV,
    errs: Seq<DiagV>,
)
    ensures
        eval_block(strs, scope, v, stmts, last, errs) matches Outcome::Done(_, w) ==> extends(v, w),
    decreases stmts,
{
    lemma_extends_refl(v);
    if stmts.len() > 0 {
        law_eval_only_adds(strs, scope, v, stmts[0]);
        match eval_spec(strs, scope, v, stmts[0]) {
            Outcome::Done(Ok(x), v2) => {
                lemma_block_only_adds(strs, scope, v2, stmts.drop_first(), x, errs);
                if let Outcome::Done(_, w) = eval_block(strs, scope, v, stmts, last, errs) {
                    if !(x is Never) {
                        lemma_extends_trans(v, v2, w);
                    }
                }
            },
            Outcome::Done(Err(e), v2) => {
                lemma_block_only_adds(strs, scope, v2, stmts.drop_first(), last, errs + e);
                if let Outcome::Done(_, w) = eval_block(strs, scope, v, stmts, last, errs) {
                    lemma_extends_trans(v, v2, w);
                }
            },
            Outcome::Stuck => {},
        }
    }
}

/// Whether `n`, evaluated with the types `w`, gives the value `x`.
pub open spec fn evaluates_to(strs: Seq<Seq<char>>, scope: Seq<SymbolMapV>, w: TypesV, n: NodeV, x: ConstV) -> bool {
    eval_spec(strs, scope, w, n) matches Outcome::Done(Ok(y), _) && y == x
}

/// The types with which each of `items` is evaluated, when they are evaluated one after
/// another from the types `v`: each item starts from the types the one before it left.
pub open spec fn states_from(strs: Seq<Seq<char>>, scope: Seq<SymbolMapV>, v: TypesV, items: Seq<NodeV>) -> Seq<TypesV>
    decreases items.len(),
{
    if items.len() == 0 {
        Seq::empty()
    } else {
        let next = match eval_spec(strs, scope, v, items[0]) {
            Outcome::Done(_, v2) => v2,
            Outcome::Stuck => v,
        };
        seq![v] + states_from(strs, scope, next, items.drop_first())
    }
}

/// Whether the values of `out` from `off` on are, one for one, the values that the `items`
/// evaluate to with the types `states`, none of them `!`.
pub open spec fn item_values(
    strs: Seq<Seq<char>>,
    scope: Seq<SymbolMapV>,
    items: Seq<NodeV>,
    states: Seq<TypesV>,
    out: Seq<ConstV>,
    off: int,
) -> bool {
    &&& states.len() == items.len()
    &&& forall|i: int| #![trigger items[i]] 0 <= i < items.len() ==>
        evaluates_to(strs, scope, states[i], items[i], out[off + i]) && !(out[off + i] is Never)
}

proof fn lemma_tuple_errs(
    strs: Seq<Seq<char>>,
    scope: Seq<SymbolMapV>,
    v: TypesV,
    items: Seq<NodeV>,
    vals: Seq<ConstV>,
    errs: Seq<DiagV>,
)
    ensures
        eval_tuple(strs, scope, v, items, vals, errs) matches Outcome::Done(Err(e), _) ==> e.len() > 0,
    decreases items.len(),
{
    if items.len() > 0 {
        match eval_spec(strs, scope, v, items[0]) {
            Outcome::Done(Ok(x), v2) => if !(x is Never) {
                lemma_tuple_errs(strs, scope, v2, items.drop_first(), vals.push(x), errs);
            },
            Outcome::Done(Err(e), v2) => lemma_tuple_errs(strs, scope, v2, items.drop_first(), vals, errs + e),
            Outcome::Stuck => {},
        }
    }
}

proof fn lemma_block_errs(
    strs: Seq<Seq<char>>,
    scope: Seq<SymbolMapV>,
    v: TypesV,
    stmts: Seq<NodeV>,
    last: ConstV,
    errs: Seq<DiagV>,
)
    ensures
        eval_block(strs, scope, v, stmts, last, errs) matches Outcome::Done(Err(e), _) ==> e.len() > 0,
    decreases stmts.len(),
{
    if stmts.len() > 0 {
        match eval_spec(strs, scope, v, stmts[0]) {
            Outcome::Done(Ok(x), v2) => if !(x is Never) {
                lemma_block_errs(strs, scope, v2, stmts.drop_first(), x, errs);
            },
            Outcome::Done(Err(e), v2) => lemma_block_errs(strs, scope, v2, stmts.drop_first(), last, errs + e),
            Outcome::Stuck => {},
        }
    }
}

/// A failed evaluation reports at least one diagnostic.
proof fn lemma_errs_nonempty(strs: Seq<Seq<char>>, scope: Seq<SymbolMapV>, v: TypesV, n: NodeV)
    ensures
        eval_spec(strs, scope, v, n) matches Outcome::Done(Err(e), _) ==> e.len() > 0,
    decreases n,
{
    match n.kind {
        KindV::Tuple(items) => lemma_tuple_errs(strs, scope, v, items, Seq::empty(), Seq::empty()),
        KindV::Block(stmts) => lemma_block_errs(strs, scope, v, stmts, ConstV::Nil, Seq::empty()),
        KindV::Semi(e) => lemma_errs_nonempty(strs, scope, v, *e),
        _ => {},
    }
}

proof fn lemma_tuple_values(
    strs: Seq<Seq<char>>,
    scope: Seq<SymbolMapV>,
    v: TypesV,
    items: Seq<NodeV>,
    vals: Seq<ConstV>,
    errs: Seq<DiagV>,
)
    ensures
        eval_tuple(strs, scope, v, items, vals, errs) matches Outcome::Done(Ok(ConstV::Tuple(out)), _) ==> {
            &&& out.len() == vals.len() + items.len()
            &&& out.subrange(0, vals.len() as int) == vals
            &&& item_values(strs, scope, items, states_from(strs, scope, v, items), out, vals.len() as int)
        },
    decreases items.len(),
{
    if items.len() == 0 {
        if let Outcome::Done(Ok(ConstV::Tuple(out)), _) = eval_tuple(strs, scope, v, items, vals, errs) {
            assert(out == vals);
            assert(out.subrange(0, vals.len() as int) =~= vals);
        }
    } else {
        match eval_spec(strs, scope, v, items[0]) {
            Outcome::Done(Ok(x), v2) => if !(x is Never) {
                let rest = items.drop_first();
                lemma_tuple_values(strs, scope, v2, rest, vals.push(x), errs);
                if let Outcome::Done(Ok(ConstV::Tuple(out)), _) = eval_tuple(strs, scope, v, items, vals, errs) {
                    assert(eval_tuple(strs, scope, v, items, vals, errs) == eval_tuple(strs, scope, v2, rest, vals.push(x), errs));
                    assert(out.subrange(0, vals.len() + 1int) == vals.push(x));
                    assert(out.subrange(0, vals.len() as int) =~= vals);
                    assert(out.subrange(0, vals.len() + 1int)[vals.len() as int] == out[vals.len() as int]);
                    assert(vals.push(x)[vals.len() as int] == x);
                    assert(out[vals.len() as int] == x);
                    assert(out[vals.len() as int] == vals.push(x)[vals.len() as int]);
                    let st = states_from(strs, scope, v, items);
                    let st2 = states_from(strs, scope, v2, rest);
                    assert(st == seq![v] + st2);
                    assert forall|i: int| #![trigger items[i]] 0 <= i < items.len() implies
                        evaluates_to(strs, scope, st[i], items[i], out[vals.len() + i])
                        && !(out[vals.len() + i] is Never) by {
                        if i == 0 {
                            assert(st[0] == v);
                            assert(evaluates_to(strs, scope, v, items[0], out[vals.len() as int]));
                        } else {
                            assert(rest[i - 1] == items[i]);
                            assert(st[i] == st2[i - 1]);
                            assert(vals.push(x).len() + (i - 1) == vals.len() + i);
                        }
                    }
                    assert(item_values(strs, scope, items, st, out, vals.len() as int));
                }
            },
            Outcome::Done(Err(e), v2) => {
                lemma_errs_nonempty(strs, scope, v, items[0]);
                lemma_gathered_errs(strs, scope, v2, items.drop_first(), vals, errs + e, e);
            },
            Outcome::Stuck => {},
        }
    }
}

/// Once a diagnostic is gathered, the tuple gives no value.
proof fn lemma_gathered_errs(
    strs: Seq<Seq<char>>,
    scope: Seq<SymbolMapV>,
    v: TypesV,
    items: Seq<NodeV>,
    vals: Seq<ConstV>,
    errs: Seq<DiagV>,
    e: Seq<DiagV>,
)
    requires
        errs.len() > 0,
    ensures
        !(eval_tuple(strs, scope, v, items, vals, errs) matches Outcome::Done(Ok(_), _)),
    decreases items.len(),
{
    if items.len() > 0 {
        match eval_spec(strs, scope, v, items[0]) {
            Outcome::Done(Ok(x), v2) => if !(x is Never) {
                lemma_gathered_errs(strs, scope, v2, items.drop_first(), vals.push(x), errs, e);
            },
            Outcome::Done(Err(e2), v2) => {
                lemma_gathered_errs(strs, scope, v2, items.drop_first(), vals, errs + e2, e);
            },
            Outcome::Stuck => {},
        }
    }
}

/// A tuple expression that evaluates to a tuple value holds one value for each item, in the
/// order of the items: the value at each place is the value that the item there evaluates to,
/// each item evaluated with the types the earlier items left, and none is `!`.
pub proof fn law_tuple_values(strs: Seq<Seq<char>>, scope: Seq<SymbolMapV>, v: TypesV, n: NodeV)
    requires
        n.kind is Tuple,
    ensures
        eval_spec(strs, scope, v, n) matches Outcome::Done(Ok(ConstV::Tuple(out)), _) ==> {
            let items = n.kind->Tuple_0;
            &&& out.len() == items.len()
            &&& item_values(strs, scope, items, states_from(strs, scope, v, items), out, 0)
        },
{
    let items = n.kind->Tuple_0;
    lemma_tuple_values(strs, scope, v, items, Seq::empty(), Seq::empty());
    assert(eval_spec(strs, scope, v, n) == eval_tuple(strs, scope, v, items, Seq::empty(), Seq::empty()));
}

} // verus!
