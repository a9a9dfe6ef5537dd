//! Collecting the constants declared at the root of a source into the innermost symbol map.

use vstd::prelude::*;
use crate::common::{Diag, Interner, Span, Sym};
use crate::common::diag::DiagV;
use crate::parser::ast::{KindV, Node, NodeKind, NodeV, ParsedTypeV, node_view, nodes_view, lemma_nodes_view, type_view};
use super::super::errors::{mismatch_diag, mismatch_label, note_line, note_tag, is_note_tag, type_mismatch_with};
use super::super::scope::{SymbolMap, SymbolMapV, find_in_map, find_in_maps, maps_view};
use super::super::types::{TypeId, TypeManager, TypeV, TypesV, chain_ends, resolve_spec, type_text, tuple_count};
use super::{ConstV, ConstValue, const_view};
use super::eval::{Outcome, eval_node, eval_spec, res_const};

verus! {

/// The result of collecting from one item: the diagnostics or nothing, with the type manager
/// and the symbol maps after it; `Stuck` where collecting would panic or not return.
pub enum Collected {
    Done(Result<(), Seq<DiagV>>, TypesV, Seq<SymbolMapV>),
    Stuck,
}

/// The symbol map after defining the constant `name`.
pub open spec fn define_const(m: SymbolMapV, name: Sym, ty: TypeId, span: Span, val: ConstV) -> SymbolMapV {
    SymbolMapV {
        types: m.types.insert(name.0, ty),
        def_locs: m.def_locs.insert(name.0, span),
        constants: m.constants.insert(name.0, val),
        ..m
    }
}

/// The maps after defining the constant `name` in the innermost one.
pub open spec fn define_last(scope: Seq<SymbolMapV>, name: Sym, ty: TypeId, span: Span, val: ConstV) -> Seq<SymbolMapV> {
    scope.update(scope.len() - 1, define_const(scope.last(), name, ty, span, val))
}

/// How the type that `id` stands for reads, where it can be written out.
pub open spec fn text_of(v: TypesV, id: TypeId) -> Option<Seq<char>> {
    match v.lookup(id) {
        Some(t) => if exists|d: nat| #[trigger] type_text(v, t, d) is Some {
            type_text(v, t, choose|d: nat| #[trigger] type_text(v, t, d) is Some)
        } else {
            None
        },
        None => None,
    }
}

pub open spec fn mismatch_note() -> Seq<char> {
    "annotated type and initializer type must be of the same type"@
}

/// What collecting from `item` gives, with `tag` the rendering of the word "note".
pub open spec fn collect_spec(strs: Seq<Seq<char>>, tag: Seq<char>, v: TypesV, scope: Seq<SymbolMapV>, item: NodeV)
    -> Collected
    decreases item,
{
    match item.kind {
        KindV::Semi(stmt) => collect_spec(strs, tag, v, scope, *stmt),
        KindV::ShortConstDecl { name, expr } => match eval_spec(strs, scope, v, *expr) {
            Outcome::Stuck => Collected::Stuck,
            Outcome::Done(Err(e), v2) => Collected::Done(Err(e), v2, scope),
            Outcome::Done(Ok(val), v2) => if !v2.type_map.contains_key(expr.id.0) || scope.len() == 0 {
                Collected::Stuck
            } else {
                Collected::Done(Ok(()), v2, define_last(scope, name, v2.type_map[expr.id.0], item.span, val))
            },
        },
        KindV::TypedConstDecl { name, ty, expr } => typed_const(strs, tag, v, scope, item, name, ty, *expr),
        _ => Collected::Done(Ok(()), v, scope),
    }
}

/// Collecting `name: ty :: expr`: the annotation and the value are both checked, then the
/// value's type is coerced into the annotated one, or a type mismatch is reported.
pub open spec fn typed_const(
    strs: Seq<Seq<char>>,
    tag: Seq<char>,
    v: TypesV,
    scope: Seq<SymbolMapV>,
    item: NodeV,
    name: Sym,
    ty: ParsedTypeV,
    expr: NodeV,
) -> Collected {
    let (rt, v1) = resolve_spec(v, ty);
    let errs1: Seq<DiagV> = match rt { Ok(_) => Seq::empty(), Err(e) => e };
    if v.pool.len() + tuple_count(ty) >= usize::MAX {
        Collected::Stuck
    } else {
        match eval_spec(strs, scope, v1, expr) {
            Outcome::Stuck => Collected::Stuck,
            Outcome::Done(ev, v2) => {
                let errs = errs1 + match ev { Ok(_) => Seq::<DiagV>::empty(), Err(e) => e };
                if errs.len() > 0 {
                    Collected::Done(Err(errs), v2, scope)
                } else if rt is Err || ev is Err || !v2.type_map.contains_key(expr.id.0) {
                    Collected::Stuck
                } else {
                    let annotated = rt->Ok_0;
                    let init = v2.type_map[expr.id.0];
                    if !chain_ends(v2.coercions, init.0) || !chain_ends(v2.coercions, annotated.0)
                        || v2.lookup(init) is None || v2.lookup(annotated) is None {
                        Collected::Stuck
                    } else if v2.lookup(init)->Some_0.coerceable_into(v2.lookup(annotated)->Some_0) {
                        if scope.len() == 0 {
                            Collected::Stuck
                        } else {
                            Collected::Done(
                                Ok(()),
                                TypesV { coercions: v2.coercions.insert(init.0, annotated), ..v2 },
                                define_last(scope, name, annotated, item.span, ev->Ok_0),
                            )
                        }
                    } else if text_of(v2, annotated) is None || text_of(v2, init) is None {
                        Collected::Stuck
                    } else {
                        Collected::Done(
                            Err(seq![mismatch_diag(
                                expr.span,
                                mismatch_label(text_of(v2, annotated)->Some_0, text_of(v2, init)->Some_0),
                                seq![note_line(tag, mismatch_note())],
                            )]),
                            v2,
                            scope,
                        )
                    }
                }
            },
        }
    }
}

/// What collecting from every item of `items` gives, after the diagnostics `errs` gathered.
pub open spec fn collect_all(
    strs: Seq<Seq<char>>,
    tag: Seq<char>,
    v: TypesV,
    scope: Seq<SymbolMapV>,
    items: Seq<NodeV>,
    errs: Seq<DiagV>,
) -> Collected
    decreases items.len(),
{
    if items.len() == 0 {
        Collected::Done(if errs.len() == 0 { Ok(()) } else { Err(errs) }, v, scope)
    } else {
        match collect_spec(strs, tag, v, scope, items[0]) {
            Collected::Stuck => Collected::Stuck,
            Collected::Done(Err(e), v2, s2) => collect_all(strs, tag, v2, s2, items.drop_first(), errs + e),
            Collected::Done(Ok(()), v2, s2) => collect_all(strs, tag, v2, s2, items.drop_first(), errs),
        }
    }
}

pub open spec fn res_unit(r: Result<(), Vec<Diag>>) -> Result<(), Seq<DiagV>> {
    match r {
        Ok(()) => Ok(()),
        Err(ds) => Err(ds@.map_values(|d: Diag| d@)),
    }
}

proof fn lemma_map_diags_concat(a: Seq<Diag>, b: Seq<Diag>)
    ensures
        (a + b).map_values(|d: Diag| d@) == a.map_values(|d: Diag| d@) + b.map_values(|d: Diag| d@),
{
    let l = (a + b).map_values(|d: Diag| d@);
    let r = a.map_values(|d: Diag| d@) + b.map_values(|d: Diag| d@);
    assert forall|i: int| 0 <= i < a.len() + b.len() implies #[trigger] l[i] == r[i] by {
        if i < a.len() {
            assert((a + b)[i] == a[i]);
        } else {
            assert((a + b)[i] == b[i - a.len()]);
        }
    }
    assert(l =~= r);
}

/// Every symbol map is well formed.
pub open spec fn maps_wf(scope: Seq<SymbolMap>) -> bool {
    forall|i: int| 0 <= i < scope.len() ==> (#[trigger] scope[i]).wf()
}

fn define_in_last(scope: &mut Vec<SymbolMap>, name: Sym, ty: TypeId, defined_at: Span, val: ConstValue)
    requires
        old(scope)@.len() > 0,
        maps_wf(old(scope)@),
    ensures
        maps_wf(final(scope)@),
        maps_view(final(scope)@) == define_last(maps_view(old(scope)@), name, ty, defined_at, const_view(val)),
{
    let mut m = scope.pop().unwrap();
    m.define_const_symbol(name, ty, defined_at, val);
    scope.push(m);
    assert(maps_view(scope@) =~= define_last(maps_view(old(scope)@), name, ty, defined_at, const_view(val)));
}

/// Collects the constant declared by `item`, if it declares one (through any `;`), with
/// `tag` the rendering of the word "note" for diagnostics.
fn collect_node(interner: &Interner, tag: &str, scope: &mut Vec<SymbolMap>, types: &mut TypeManager, item: &Node)
    -> (r: Result<(), Vec<Diag>>)
    requires
        interner.wf(),
        old(types).wf(),
        maps_wf(old(scope)@),
        !(collect_spec(interner@, tag@, old(types)@, maps_view(old(scope)@), node_view(*item)) is Stuck),
    ensures
        final(types).wf(),
        maps_wf(final(scope)@),
        collect_spec(interner@, tag@, old(types)@, maps_view(old(scope)@), node_view(*item))
            == Collected::Done(res_unit(r), final(types)@, maps_view(final(scope)@)),
    decreases item,
{
    match &item.kind {
        NodeKind::Semi(stmt) => collect_node(interner, tag, scope, types, stmt),
        NodeKind::ShortConstDecl { name, expr } => {
            let val = eval_node(interner, scope, types, expr)?;
            let ty = *types.get_node_type(&expr.id).unwrap();
            define_in_last(scope, *name, ty, item.span, val);
            Ok(())
        },
        NodeKind::TypedConstDecl { name, ty, expr } => {
            let mut errors: Vec<Diag> = Vec::new();
            let annotated_ty = match types.resolve_type(ty) {
                Ok(t) => Some(t),
                Err(errs) => {
                    let ghost added = errs@;
                    let mut errs = errs;
                    errors.append(&mut errs);
                    proof {
                        lemma_map_diags_concat(Seq::empty(), added);
                        assert(Seq::<Diag>::empty() + added =~= added);
                        assert(Seq::<Diag>::empty().map_values(|d: Diag| d@) =~= Seq::<DiagV>::empty());
                        assert(Seq::<DiagV>::empty() + added.map_values(|d: Diag| d@) =~= added.map_values(|d: Diag| d@));
                    }
                    None
                },
            };
            let ghost before = errors@;
            let val = match eval_node(interner, scope, types, expr) {
                Ok(v) => Some(v),
                Err(errs) => {
                    let ghost added = errs@;
                    let mut errs = errs;
                    errors.append(&mut errs);
                    proof { lemma_map_diags_concat(before, added); }
                    None
                },
            };
            proof {
                if val is Some {
                    assert(errors@ =~= before);
                }
                assert(before.map_values(|d: Diag| d@) =~= before.map_values(|d: Diag| d@) + Seq::<DiagV>::empty());
            }
            if errors.len() > 0 {
                return Err(errors);
            }
            let annotated_ty = annotated_ty.unwrap();
            let val = val.unwrap();
            let init_ty = *types.get_node_type(&expr.id).unwrap();
            if types.can_coerce(&init_ty, &annotated_ty) {
                types.coerce_type(init_ty, annotated_ty);
                define_in_last(scope, *name, annotated_ty, item.span, val);
                Ok(())
            } else {
                let expected = types.get_type(&annotated_ty).unwrap().format(&*types);
                let found = types.get_type(&init_ty).unwrap().format(&*types);
                let mut notes: Vec<&str> = Vec::new();
                notes.push("annotated type and initializer type must be of the same type");
                let d = type_mismatch_with(tag, &expr.span, expected.as_str(), found.as_str(), notes.as_slice());
                assert(super::super::errors::note_lines(tag@, notes@) =~= seq![note_line(tag@, mismatch_note())]);
                let mut ds = Vec::new();
                ds.push(d);
                assert(ds@.map_values(|x: Diag| x@) =~= seq![d@]);
                Err(ds)
            }
        },
        _ => Ok(()),
    }
}

/// Collects the constants declared at the root of a source.
pub struct ConstantCollector<'cc> {
    pub interner: &'cc Interner,
    pub scope: &'cc mut Vec<SymbolMap>,
    pub types: &'cc mut TypeManager,
}

impl<'cc> ConstantCollector<'cc> {
    pub fn new(interner: &'cc Interner, scope: &'cc mut Vec<SymbolMap>, types: &'cc mut TypeManager) -> (r: ConstantCollector<'cc>)
        ensures
            r.interner == interner,
            *r.scope == *old(scope),
            *r.types == *old(types),
            *final(scope) == *final(r.scope),
            *final(types) == *final(r.types),
    {
        ConstantCollector { interner, scope, types }
    }

    /// [`ConstantCollector::collect_constants`] with `tag` the rendering of the word "note".
    pub fn collect_constants_with(&mut self, tag: &str, items: &[Node]) -> (r: Result<(), Vec<Diag>>)
        requires
            old(self).interner.wf(),
            old(self).types.wf(),
            maps_wf(old(self).scope@),
            !(collect_all(old(self).interner@, tag@, old(self).types@, maps_view(old(self).scope@),
                nodes_view(items@), Seq::empty()) is Stuck),
        ensures
            final(self).types.wf(),
            maps_wf(final(self).scope@),
            final(self).interner == old(self).interner,
            *final(final(self).scope) == *final(old(self).scope),
            *final(final(self).types) == *final(old(self).types),
            collect_all(old(self).interner@, tag@, old(self).types@, maps_view(old(self).scope@),
                nodes_view(items@), Seq::empty())
                == Collected::Done(res_unit(r), final(self).types@, maps_view(final(self).scope@)),
    {
        let ghost iv = nodes_view(items@);
        proof { lemma_nodes_view(items@); }
        let mut errors: Vec<Diag> = Vec::new();
        let mut i: usize = 0;
        assert(iv.subrange(0, iv.len() as int) =~= iv);
        assert(errors@.map_values(|d: Diag| d@) =~= Seq::<DiagV>::empty());
        while i < items.len()
            invariant
                i <= items@.len(),
                iv == nodes_view(items@),
                iv.len() == items@.len(),
                forall|j: int| 0 <= j < items@.len() ==> iv[j] == node_view(#[trigger] items@[j]),
                self.interner == old(self).interner,
                self.interner.wf(),
                self.types.wf(),
                maps_wf(self.scope@),
                *final(self.scope) == *final(old(self).scope),
                *final(self.types) == *final(old(self).types),
                collect_all(old(self).interner@, tag@, old(self).types@, maps_view(old(self).scope@), iv, Seq::empty())
                    == collect_all(self.interner@, tag@, self.types@, maps_view(self.scope@),
                        iv.subrange(i as int, iv.len() as int), errors@.map_values(|d: Diag| d@)),
                !(collect_all(old(self).interner@, tag@, old(self).types@, maps_view(old(self).scope@), iv, Seq::empty())
                    is Stuck),
            decreases items.len() - i,
        {
            let ghost rest = iv.subrange(i as int, iv.len() as int);
            assert(rest[0] == iv[i as int]);
            assert(rest.drop_first() =~= iv.subrange(i + 1, iv.len() as int));
            let ghost before = errors@;
            match collect_node(self.interner, tag, &mut *self.scope, &mut *self.types, &items[i]) {
                Ok(()) => {},
                Err(errs) => {
                    let ghost added = errs@;
                    let mut errs = errs;
                    errors.append(&mut errs);
                    proof { lemma_map_diags_concat(before, added); }
                },
            }
            i += 1;
        }
        if errors.len() == 0 {
            Ok(())
        } else {
            Err(errors)
        }
    }

    /// Collects the constants that `items` declare into the innermost symbol map, evaluating
    /// their values: the diagnostics of every item that fails, gathered in order.
    pub fn collect_constants(&mut self, items: &[Node]) -> (r: Result<(), Vec<Diag>>)
        requires
            old(self).interner.wf(),
            old(self).types.wf(),
            maps_wf(old(self).scope@),
            forall|tag: Seq<char>| #[trigger] is_note_tag(tag) ==>
                !(collect_all(old(self).interner@, tag, old(self).types@, maps_view(old(self).scope@),
                    nodes_view(items@), Seq::empty()) is Stuck),
        ensures
            final(self).types.wf(),
            maps_wf(final(self).scope@),
            final(self).interner == old(self).interner,
            *final(final(self).scope) == *final(old(self).scope),
            *final(final(self).types) == *final(old(self).types),
            exists|tag: Seq<char>| is_note_tag(tag) && collect_all(old(self).interner@, tag, old(self).types@,
                maps_view(old(self).scope@), nodes_view(items@), Seq::empty())
                == Collected::Done(res_unit(r), final(self).types@, maps_view(final(self).scope@)),
    {
        let tag = note_tag();
        self.collect_constants_with(tag.as_str(), items)
    }
}

/// After the constant `name` is defined in a map, looking it up there finds its type and
/// value, and every other name is found as before.
pub proof fn law_define_then_find(m: SymbolMapV, name: Sym, ty: TypeId, span: Span, val: ConstV, other: usize)
    ensures
        find_in_map(define_const(m, name, ty, span, val), name.0) == Some((ty, Some(val))),
        other != name.0 ==> find_in_map(define_const(m, name, ty, span, val), other) == find_in_map(m, other),
{
}

/// After the constant `name` is defined in the innermost of a stack of maps, looking it up in
/// the stack finds its type and value, whatever the outer maps define.
pub proof fn law_define_last_then_find(scope: Seq<SymbolMapV>, name: Sym, ty: TypeId, span: Span, val: ConstV)
    requires
        scope.len() > 0,
    ensures
        find_in_maps(define_last(scope, name, ty, span, val), name.0) == Some((ty, Some(val))),
{
    let s2 = define_last(scope, name, ty, span, val);
    assert(s2.last() == define_const(scope.last(), name, ty, span, val));
}

} // verus!
