//! Scopes: the names defined in nested symbol maps, in functions and at the root.

use vstd::prelude::*;
use std::collections::HashMap;
use std::collections::hash_map::Entry;
use crate::common::{Span, Sym};
use super::types::TypeId;
use super::constants::{ConstV, ConstValue, const_view};

verus! {

broadcast use vstd::std_specs::hash::group_hash_axioms;

#[derive(Debug, Clone, Copy, PartialEq, Eq, Hash, Structural)]
pub enum SymbolMapKind {
    Default,
    Loop,
}

/// The names defined in one scope: each with its type and where it was defined, and the
/// value of those that are constants. Names are keyed by the index of their symbol.
#[derive(Debug)]
pub struct SymbolMap {
    pub kind: SymbolMapKind,
    types: HashMap<usize, TypeId>,
    def_locs: HashMap<usize, Span>,
    constants: HashMap<usize, ConstValue>,
}

/// The mathematical value of a [`SymbolMap`].
pub struct SymbolMapV {
    pub kind: SymbolMapKind,
    pub types: Map<usize, TypeId>,
    pub def_locs: Map<usize, Span>,
    pub constants: Map<usize, ConstV>,
}

impl View for SymbolMap {
    type V = SymbolMapV;

    closed spec fn view(&self) -> SymbolMapV {
        SymbolMapV {
            kind: self.kind,
            types: self.types@,
            def_locs: self.def_locs@,
            constants: self.constants@.map_values(|c: ConstValue| const_view(c)),
        }
    }
}

/// What a lookup finds: the type of the name and, for a constant, its value.
#[derive(Debug, Clone, Copy)]
pub struct Symbol<'a> {
    pub ty: &'a TypeId,
    pub val: Option<&'a ConstValue>,
}

/// What a lookup for writing finds: the type of the name and, for a constant, its value,
/// each to be changed in place.
#[derive(Debug)]
pub struct SymbolMut<'a> {
    pub ty: &'a mut TypeId,
    pub val: Option<&'a mut ConstValue>,
}

/// What a lookup of `name` in `m` finds.
pub open spec fn find_in_map(m: SymbolMapV, name: usize) -> Option<(TypeId, Option<ConstV>)> {
    if m.types.contains_key(name) {
        Some((m.types[name], if m.constants.contains_key(name) { Some(m.constants[name]) } else { None }))
    } else {
        None
    }
}

/// What a lookup of `name` finds in the innermost of `maps` (the last) that defines it.
pub open spec fn find_in_maps(maps: Seq<SymbolMapV>, name: usize) -> Option<(TypeId, Option<ConstV>)>
    decreases maps.len(),
{
    if maps.len() == 0 {
        None
    } else if find_in_map(maps.last(), name) is Some {
        find_in_map(maps.last(), name)
    } else {
        find_in_maps(maps.drop_last(), name)
    }
}

/// The index of the innermost of `maps` (the last) that defines `name`, or -1 where none does.
pub open spec fn innermost(maps: Seq<SymbolMapV>, name: usize) -> int
    decreases maps.len(),
{
    if maps.len() == 0 {
        -1
    } else if maps.last().types.contains_key(name) {
        maps.len() - 1
    } else {
        innermost(maps.drop_last(), name)
    }
}

/// A lookup in nested maps finds what the innermost map that defines the name holds.
pub proof fn lemma_innermost(maps: Seq<SymbolMapV>, name: usize)
    ensures
        -1 <= innermost(maps, name) < maps.len(),
        innermost(maps, name) == -1 <==> find_in_maps(maps, name) is None,
        innermost(maps, name) >= 0 ==> {
            &&& maps[innermost(maps, name)].types.contains_key(name)
            &&& find_in_maps(maps, name) == find_in_map(maps[innermost(maps, name)], name)
            &&& forall|j: int| innermost(maps, name) < j < maps.len() ==> !(#[trigger] maps[j]).types.contains_key(name)
        },
        innermost(maps, name) == -1 ==> forall|j: int| 0 <= j < maps.len() ==> !(#[trigger] maps[j]).types.contains_key(name),
    decreases maps.len(),
{
    if maps.len() > 0 && !maps.last().types.contains_key(name) {
        lemma_innermost(maps.drop_last(), name);
        assert forall|j: int| innermost(maps, name) < j < maps.len() - 1 implies
            !(#[trigger] maps[j]).types.contains_key(name) by {
            assert(maps[j] == maps.drop_last()[j]);
        }
    }
}

/// Whether the symbol found is what `s` says.
pub open spec fn found(r: Option<Symbol>, s: Option<(TypeId, Option<ConstV>)>) -> bool {
    match (r, s) {
        (Some(sym), Some((t, v))) => *sym.ty == t && match (sym.val, v) {
            (Some(a), Some(b)) => const_view(*a) == b,
            (None, None) => true,
            _ => false,
        },
        (None, None) => true,
        _ => false,
    }
}

/// Whether what `s` points at is the entry of `name` in `m`.
pub open spec fn reads(m: SymbolMapV, name: usize, s: SymbolMut) -> bool {
    &&& m.types.contains_key(name)
    &&& *s.ty == m.types[name]
    &&& (s.val is Some <==> m.constants.contains_key(name))
    &&& s.val matches Some(v) ==> const_view(*v) == m.constants[name]
}

/// `m` after the type of `name` became `ty` and, where `val` holds one, its value became it.
pub open spec fn written(m: SymbolMapV, name: usize, ty: TypeId, val: Option<ConstV>) -> SymbolMapV {
    SymbolMapV {
        types: m.types.insert(name, ty),
        constants: match val {
            Some(v) => m.constants.insert(name, v),
            None => m.constants,
        },
        ..m
    }
}

pub open spec fn maps_view(maps: Seq<SymbolMap>) -> Seq<SymbolMapV> {
    maps.map_values(|m: SymbolMap| m@)
}

impl SymbolMap {
    /// Every name with a type has a place of definition, and every constant a type.
    pub closed spec fn wf(&self) -> bool {
        &&& self.def_locs@.dom() == self.types@.dom()
        &&& self.constants@.dom().subset_of(self.types@.dom())
    }

    /// An empty map of the given kind.
    pub fn new(kind: SymbolMapKind) -> (r: SymbolMap)
        ensures
            r.wf(),
            r@ == (SymbolMapV { kind, types: Map::empty(), def_locs: Map::empty(), constants: Map::empty() }),
    {
        let r = SymbolMap { kind, types: HashMap::new(), def_locs: HashMap::new(), constants: HashMap::new() };
        assert(r@.constants =~= Map::<usize, ConstV>::empty());
        r
    }

    pub fn is_loop(&self) -> (r: bool)
        ensures
            r == (self@.kind == SymbolMapKind::Loop),
    {
        matches!(&self.kind, SymbolMapKind::Loop)
    }

    /// Defines `name` with type `ty`, defined at `defined_at`. A constant value it had stays.
    pub fn define_symbol(&mut self, name: Sym, ty: TypeId, defined_at: Span)
        requires
            old(self).wf(),
        ensures
            final(self).wf(),
            final(self)@ == (SymbolMapV {
                types: old(self)@.types.insert(name.0, ty),
                def_locs: old(self)@.def_locs.insert(name.0, defined_at),
                ..old(self)@
            }),
    {
        self.types.insert(name.0, ty);
        self.def_locs.insert(name.0, defined_at);
        assert(self.def_locs@.dom() =~= self.types@.dom());
    }

    /// Defines the constant `name` of type `ty` with value `c`, defined at `defined_at`.
    pub fn define_const_symbol(&mut self, name: Sym, ty: TypeId, defined_at: Span, c: ConstValue)
        requires
            old(self).wf(),
        ensures
            final(self).wf(),
            final(self)@ == (SymbolMapV {
                types: old(self)@.types.insert(name.0, ty),
                def_locs: old(self)@.def_locs.insert(name.0, defined_at),
                constants: old(self)@.constants.insert(name.0, const_view(c)),
                ..old(self)@
            }),
    {
        let ghost cv = const_view(c);
        let ghost before = self.constants@;
        self.types.insert(name.0, ty);
        self.def_locs.insert(name.0, defined_at);
        self.constants.insert(name.0, c);
        assert(self.def_locs@.dom() =~= self.types@.dom());
        assert(self.constants@.map_values(|c: ConstValue| const_view(c))
            =~= before.map_values(|c: ConstValue| const_view(c)).insert(name.0, cv));
    }

    /// The type of `name` and, if it is a constant, its value.
    pub fn find_symbol(&self, name: &Sym) -> (r: Option<Symbol<'_>>)
        requires
            self.wf(),
        ensures
            found(r, find_in_map(self@, name.0)),
    {
        match self.types.get(&name.0) {
            Some(ty) => Some(Symbol { ty, val: self.constants.get(&name.0) }),
            None => None,
        }
    }

    /// The type of `name` and, if it is a constant, its value, to be changed in place.
    pub fn find_symbol_mut(&mut self, name: &Sym) -> (r: Option<SymbolMut<'_>>)
        requires
            old(self).wf(),
        ensures
            r is Some <==> old(self)@.types.contains_key(name.0),
            r is None ==> final(self)@ == old(self)@,
            r matches Some(s) ==> {
                &&& reads(old(self)@, name.0, s)
                &&& final(self)@ == written(old(self)@, name.0, *final(s.ty), match s.val {
                    Some(v) => Some(const_view(*final(v))),
                    None => None,
                })
            },
            final(self).wf(),
    {
        let k = name.0;
        let ghost t0 = self.types@;
        let ghost c0 = self.constants@;
        proof {
            assert(!t0.contains_key(k) ==> t0.remove(k) =~= t0);
            assert(!c0.contains_key(k) ==> c0.remove(k) =~= c0);
            assert forall|x: TypeId| t0.contains_key(k) implies #[trigger] t0.insert(k, x).dom() =~= t0.dom() by {}
            assert forall|x: ConstValue| c0.contains_key(k) implies #[trigger] c0.insert(k, x).dom() =~= c0.dom() by {}
            assert forall|x: ConstValue| #![trigger c0.insert(k, x)] c0.insert(k, x).map_values(|c: ConstValue| const_view(c))
                =~= c0.map_values(|c: ConstValue| const_view(c)).insert(k, const_view(x)) by {}
        }
        let SymbolMap { kind: _, types, def_locs: _, constants } = self;
        match types.entry(k) {
            Entry::Occupied(o) => {
                let ty = o.into_mut();
                let val = match constants.entry(k) {
                    Entry::Occupied(c) => Some(c.into_mut()),
                    Entry::Vacant(_) => None,
                };
                Some(SymbolMut { ty, val })
            },
            Entry::Vacant(_) => None,
        }
    }
}

/// The nested symbol maps of one function, innermost last, with its return type.
#[derive(Debug)]
pub struct FunctionScope {
    smaps: Vec<SymbolMap>,
    pub ret_ty: TypeId,
    pub sig_span: Span,
}

/// Looks `name` up in `maps[0..n]`, innermost first.
fn find_in_vec<'a>(maps: &'a Vec<SymbolMap>, name: &Sym) -> (r: Option<Symbol<'a>>)
    requires
        forall|i: int| 0 <= i < maps@.len() ==> (#[trigger] maps@[i]).wf(),
    ensures
        found(r, find_in_maps(maps_view(maps@), name.0)),
{
    let mut i = maps.len();
    assert(maps_view(maps@).subrange(0, maps@.len() as int) =~= maps_view(maps@));
    while i > 0
        invariant
            i <= maps@.len(),
            forall|j: int| 0 <= j < maps@.len() ==> (#[trigger] maps@[j]).wf(),
            find_in_maps(maps_view(maps@), name.0) == find_in_maps(maps_view(maps@).subrange(0, i as int), name.0),
        decreases i,
    {
        i -= 1;
        let ghost pre = maps_view(maps@).subrange(0, i + 1);
        assert(pre.last() == maps@[i as int]@);
        assert(pre.drop_last() =~= maps_view(maps@).subrange(0, i as int));
        let s = maps[i].find_symbol(name);
        if s.is_some() {
            return s;
        }
    }
    None
}

proof fn lemma_maps_view_update(s: Seq<SymbolMap>, i: int)
    requires
        0 <= i < s.len(),
    ensures
        forall|x: SymbolMap| #[trigger] maps_view(s.update(i, x)) == maps_view(s).update(i, x@),
{
    assert forall|x: SymbolMap| #[trigger] maps_view(s.update(i, x)) == maps_view(s).update(i, x@) by {
        assert(maps_view(s.update(i, x)) =~= maps_view(s).update(i, x@));
    }
}

impl FunctionScope {
    pub closed spec fn maps(&self) -> Seq<SymbolMapV> {
        maps_view(self.smaps@)
    }

    pub closed spec fn ret(&self) -> TypeId {
        self.ret_ty
    }

    pub closed spec fn sig(&self) -> Span {
        self.sig_span
    }

    pub closed spec fn wf(&self) -> bool {
        forall|i: int| 0 <= i < self.smaps@.len() ==> (#[trigger] self.smaps@[i]).wf()
    }

    /// A function scope with no symbol maps.
    pub fn new(ret_ty: TypeId, sig_span: Span) -> (r: FunctionScope)
        ensures
            r.wf(),
            r.maps().len() == 0,
            r.ret() == ret_ty,
            r.sig() == sig_span,
    {
        FunctionScope { smaps: Vec::new(), ret_ty, sig_span }
    }

    /// Opens an empty symbol map of the given kind.
    pub fn enter_smap(&mut self, kind: SymbolMapKind)
        requires
            old(self).wf(),
        ensures
            final(self).wf(),
            final(self).maps() == old(self).maps().push(
                SymbolMapV { kind, types: Map::empty(), def_locs: Map::empty(), constants: Map::empty() }),
            final(self).ret() == old(self).ret(),
            final(self).sig() == old(self).sig(),
    {
        let m = SymbolMap::new(kind);
        self.smaps.push(m);
        assert(self.maps() =~= old(self).maps().push(
            SymbolMapV { kind, types: Map::empty(), def_locs: Map::empty(), constants: Map::empty() }));
    }

    /// Closes the innermost symbol map, if any.
    pub fn exit_smap(&mut self)
        requires
            old(self).wf(),
        ensures
            final(self).wf(),
            final(self).maps() == (if old(self).maps().len() == 0 { old(self).maps() } else { old(self).maps().drop_last() }),
            final(self).ret() == old(self).ret(),
            final(self).sig() == old(self).sig(),
    {
        self.smaps.pop();
        assert(self.maps() =~= (if old(self).maps().len() == 0 { old(self).maps() } else { old(self).maps().drop_last() }));
    }

    /// The type and value of `name` in the innermost map that defines it.
    pub fn find_symbol(&self, name: &Sym) -> (r: Option<Symbol<'_>>)
        requires
            self.wf(),
        ensures
            found(r, find_in_maps(self.maps(), name.0)),
    {
        find_in_vec(&self.smaps, name)
    }

    /// The type and value of `name` in the innermost map that defines it, to be changed in place.
    pub fn find_symbol_mut(&mut self, name: &Sym) -> (r: Option<SymbolMut<'_>>)
        requires
            old(self).wf(),
        ensures
            r is Some <==> find_in_maps(old(self).maps(), name.0) is Some,
            r is None ==> final(self).maps() == old(self).maps(),
            r matches Some(s) ==> {
                let i = innermost(old(self).maps(), name.0);
                &&& reads(old(self).maps()[i], name.0, s)
                &&& final(self).maps() == old(self).maps().update(i, written(old(self).maps()[i], name.0,
                    *final(s.ty), match s.val {
                        Some(v) => Some(const_view(*final(v))),
                        None => None,
                    }))
            },
            final(self).wf(),
            final(self).ret() == old(self).ret(),
            final(self).sig() == old(self).sig(),
    {
        let ghost maps = self.maps();
        proof {
            lemma_innermost(maps, name.0);
        }
        let mut i = self.smaps.len();
        while i > 0
            invariant
                i <= self.smaps@.len(),
                self.wf(),
                self.maps() == maps,
                *self == *old(self),
                forall|j: int| i <= j < maps.len() ==> !(#[trigger] maps[j]).types.contains_key(name.0),
            decreases i,
        {
            i -= 1;
            if self.smaps[i].find_symbol(name).is_some() {
                proof {
                    assert(maps[i as int] == self.smaps@[i as int]@);
                    lemma_innermost(maps, name.0);
                    assert(maps[i as int].types.contains_key(name.0));
                    assert(innermost(maps, name.0) == i);
                    lemma_maps_view_update(self.smaps@, i as int);
                }
                let m = &mut self.smaps[i];
                return m.find_symbol_mut(name);
            }
            assert(maps[i as int] == self.smaps@[i as int]@);
        }
        None
    }
}

spec fn scope_maps(s: Seq<FunctionScope>) -> Seq<Seq<SymbolMapV>> {
    s.map_values(|f: FunctionScope| f.maps())
}

proof fn lemma_scope_maps_update(s: Seq<FunctionScope>, i: int)
    requires
        0 <= i < s.len(),
    ensures
        forall|x: FunctionScope| #[trigger] scope_maps(s.update(i, x)) == scope_maps(s).update(i, x.maps()),
{
    assert forall|x: FunctionScope| #[trigger] scope_maps(s.update(i, x)) == scope_maps(s).update(i, x.maps()) by {
        assert(scope_maps(s.update(i, x)) =~= scope_maps(s).update(i, x.maps()));
    }
}

/// Whether the innermost of the function scopes `fm` defines `name`.
pub open spec fn in_function(fm: Seq<Seq<SymbolMapV>>, name: usize) -> bool {
    fm.len() > 0 && find_in_maps(fm.last(), name) is Some
}

/// The root symbol map and the scopes of the functions being checked, innermost last.
#[derive(Debug)]
pub struct ScopeManager {
    root_scope: SymbolMap,
    scopes: Vec<FunctionScope>,
}

impl ScopeManager {
    pub closed spec fn root(&self) -> SymbolMapV {
        self.root_scope@
    }

    pub closed spec fn function_maps(&self) -> Seq<Seq<SymbolMapV>> {
        scope_maps(self.scopes@)
    }

    pub closed spec fn wf(&self) -> bool {
        &&& self.root_scope.wf()
        &&& forall|i: int| 0 <= i < self.scopes@.len() ==> (#[trigger] self.scopes@[i]).wf()
    }

    /// An empty root map and no function scope.
    pub fn new() -> (r: ScopeManager)
        ensures
            r.wf(),
            r.root() == (SymbolMapV {
                kind: SymbolMapKind::Default,
                types: Map::empty(),
                def_locs: Map::empty(),
                constants: Map::empty(),
            }),
            r.function_maps().len() == 0,
    {
        let r = ScopeManager { root_scope: SymbolMap::new(SymbolMapKind::Default), scopes: Vec::new() };
        assert(r.function_maps() =~= Seq::empty());
        r
    }

    /// Opens the scope of a function returning `ret_ty`.
    pub fn enter_scope(&mut self, ret_ty: TypeId, sig_span: Span)
        requires
            old(self).wf(),
        ensures
            final(self).wf(),
            final(self).root() == old(self).root(),
            final(self).function_maps() == old(self).function_maps().push(Seq::empty()),
    {
        let s = FunctionScope::new(ret_ty, sig_span);
        assert(s.maps() =~= Seq::<SymbolMapV>::empty());
        self.scopes.push(s);
        assert(self.function_maps() =~= old(self).function_maps().push(Seq::empty()));
    }

    /// Closes the innermost function scope, if any.
    pub fn exit_scope(&mut self)
        requires
            old(self).wf(),
        ensures
            final(self).wf(),
            final(self).root() == old(self).root(),
            final(self).function_maps() == (if old(self).function_maps().len() == 0 {
                old(self).function_maps()
            } else {
                old(self).function_maps().drop_last()
            }),
    {
        self.scopes.pop();
        assert(self.function_maps() =~= (if old(self).function_maps().len() == 0 {
            old(self).function_maps()
        } else {
            old(self).function_maps().drop_last()
        }));
    }

    /// `name` as the innermost function scope defines it, else as the root map does.
    pub fn find_symbol(&self, name: &Sym) -> (r: Option<Symbol<'_>>)
        requires
            self.wf(),
        ensures
            found(r, if self.function_maps().len() > 0 && find_in_maps(self.function_maps().last(), name.0) is Some {
                find_in_maps(self.function_maps().last(), name.0)
            } else {
                find_in_map(self.root(), name.0)
            }),
    {
        if self.scopes.len() > 0 {
            let last = &self.scopes[self.scopes.len() - 1];
            let s = last.find_symbol(name);
            if s.is_some() {
                return s;
            }
        }
        self.root_scope.find_symbol(name)
    }

    /// `name` as the innermost function scope defines it, else as the root map does, to be
    /// changed in place.
    pub fn find_symbol_mut(&mut self, name: &Sym) -> (r: Option<SymbolMut<'_>>)
        requires
            old(self).wf(),
        ensures
            r is Some <==> in_function(old(self).function_maps(), name.0)
                || old(self).root().types.contains_key(name.0),
            r is None ==> final(self).root() == old(self).root()
                && final(self).function_maps() == old(self).function_maps(),
            r matches Some(s) ==> if in_function(old(self).function_maps(), name.0) {
                let fm = old(self).function_maps();
                let i = innermost(fm.last(), name.0);
                &&& reads(fm.last()[i], name.0, s)
                &&& final(self).function_maps() == fm.update(fm.len() - 1, fm.last().update(i,
                    written(fm.last()[i], name.0, *final(s.ty), match s.val {
                        Some(v) => Some(const_view(*final(v))),
                        None => None,
                    })))
                &&& final(self).root() == old(self).root()
            } else {
                &&& reads(old(self).root(), name.0, s)
                &&& final(self).root() == written(old(self).root(), name.0, *final(s.ty), match s.val {
                    Some(v) => Some(const_view(*final(v))),
                    None => None,
                })
                &&& final(self).function_maps() == old(self).function_maps()
            },
            final(self).wf(),
    {
        if self.scopes.len() > 0 {
            let n = self.scopes.len() - 1;
            if self.scopes[n].find_symbol(name).is_some() {
                proof {
                    lemma_scope_maps_update(self.scopes@, n as int);
                    assert(self.function_maps().last() == self.scopes@[n as int].maps());
                }
                let sc = &mut self.scopes[n];
                return sc.find_symbol_mut(name);
            }
            assert(self.function_maps().last() == self.scopes@[n as int].maps());
        }
        self.root_scope.find_symbol_mut(name)
    }
}

/// What is written through a lookup for writing is what a later lookup finds.
pub proof fn law_write_then_find(m: SymbolMapV, name: usize, ty: TypeId, val: Option<ConstV>)
    requires
        m.types.contains_key(name),
        val is Some <==> m.constants.contains_key(name),
    ensures
        find_in_map(written(m, name, ty, val), name) == Some((ty, val)),
{
}

/// What is written through a lookup for writing in nested maps is what a later lookup in
/// them finds.
pub proof fn law_write_innermost_then_find(maps: Seq<SymbolMapV>, name: usize, ty: TypeId, val: Option<ConstV>)
    requires
        innermost(maps, name) >= 0,
        val is Some <==> maps[innermost(maps, name)].constants.contains_key(name),
    ensures
        find_in_maps(maps.update(innermost(maps, name), written(maps[innermost(maps, name)], name, ty, val)), name)
            == Some((ty, val)),
{
    let i = innermost(maps, name);
    let after = maps.update(i, written(maps[i], name, ty, val));
    lemma_innermost(maps, name);
    lemma_innermost(after, name);
    assert(after[i].types.contains_key(name));
    if innermost(after, name) > i {
        assert(maps[innermost(after, name)] == after[innermost(after, name)]);
    }
    assert(innermost(after, name) == i);
}

/// A name that the innermost map defines hides the same name in the outer maps; one that it
/// does not define is found as the outer maps define it.
pub proof fn law_inner_map_shadows(maps: Seq<SymbolMapV>, m: SymbolMapV, name: usize)
    ensures
        m.types.contains_key(name) ==> find_in_maps(maps.push(m), name) == find_in_map(m, name),
        !m.types.contains_key(name) ==> find_in_maps(maps.push(m), name) == find_in_maps(maps, name),
{
    assert(maps.push(m).last() == m);
    assert(maps.push(m).drop_last() =~= maps);
}

/// Closing the symbol map that was just opened gives back the maps as they were.
pub proof fn law_exit_smap_undoes_enter(maps: Seq<SymbolMapV>, kind: SymbolMapKind)
    ensures
        ({
            let opened = maps.push(SymbolMapV { kind, types: Map::empty(), def_locs: Map::empty(), constants: Map::empty() });
            if opened.len() == 0 { opened } else { opened.drop_last() }
        }) == maps,
{
    let opened = maps.push(SymbolMapV { kind, types: Map::empty(), def_locs: Map::empty(), constants: Map::empty() });
    assert(opened.drop_last() =~= maps);
}

} // verus!
