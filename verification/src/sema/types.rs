//! The type manager: a pool of types, the names of types, coercions between types, and the
//! type of each AST node.

use vstd::prelude::*;
use std::collections::HashMap;
use crate::common::{Diag, Interner, Label, Span, Sym};
use crate::common::diag::{DiagV, LabelV};
use crate::common::intern::intern_spec;
use crate::common::text::string_of;
use crate::parser::ast::{NodeId, ParsedType, ParsedTypeKind, ParsedTypeV, TypeV as ParsedKindV, type_view, types_view,
    lemma_types_view};

verus! {

broadcast use vstd::std_specs::hash::group_hash_axioms;

#[derive(Debug, Clone, Copy, PartialEq, Eq, Hash, Structural)]
pub struct TypeId(pub usize);

#[derive(Debug, Clone, PartialEq, Eq, Hash)]
pub enum Type {
    AmbiguousInt,
    Int, UInt,
    I8, I16, I32, I64,
    U8, U16, U32, U64,
    AmbiguousFloat,
    Float,
    F32, F64,
    Bool,
    Nil,
    Never,
    Tuple(Vec<TypeId>),
    Callable {
        params: Vec<TypeId>,
        ret_ty: TypeId,
    },
}

/// The mathematical value of a [`Type`].
pub enum TypeV {
    AmbiguousInt,
    Int, UInt,
    I8, I16, I32, I64,
    U8, U16, U32, U64,
    AmbiguousFloat,
    Float,
    F32, F64,
    Bool,
    Nil,
    Never,
    Tuple(Seq<TypeId>),
    Callable { params: Seq<TypeId>, ret_ty: TypeId },
}

impl View for Type {
    type V = TypeV;

    open spec fn view(&self) -> TypeV {
        match self {
            Type::AmbiguousInt => TypeV::AmbiguousInt,
            Type::Int => TypeV::Int,
            Type::UInt => TypeV::UInt,
            Type::I8 => TypeV::I8,
            Type::I16 => TypeV::I16,
            Type::I32 => TypeV::I32,
            Type::I64 => TypeV::I64,
            Type::U8 => TypeV::U8,
            Type::U16 => TypeV::U16,
            Type::U32 => TypeV::U32,
            Type::U64 => TypeV::U64,
            Type::AmbiguousFloat => TypeV::AmbiguousFloat,
            Type::Float => TypeV::Float,
            Type::F32 => TypeV::F32,
            Type::F64 => TypeV::F64,
            Type::Bool => TypeV::Bool,
            Type::Nil => TypeV::Nil,
            Type::Never => TypeV::Never,
            Type::Tuple(items) => TypeV::Tuple(items@),
            Type::Callable { params, ret_ty } => TypeV::Callable { params: params@, ret_ty: *ret_ty },
        }
    }
}

impl TypeV {
    /// Numeric types, and `!`, which stands in for every type.
    pub open spec fn is_numeric(self) -> bool {
        self.is_int() || self.is_float()
    }

    pub open spec fn is_int(self) -> bool {
        match self {
            TypeV::AmbiguousInt | TypeV::Int | TypeV::UInt | TypeV::I8 | TypeV::I16 | TypeV::I32 | TypeV::I64
            | TypeV::U8 | TypeV::U16 | TypeV::U32 | TypeV::U64 | TypeV::Never => true,
            _ => false,
        }
    }

    pub open spec fn is_float(self) -> bool {
        match self {
            TypeV::AmbiguousFloat | TypeV::Float | TypeV::F32 | TypeV::F64 | TypeV::Never => true,
            _ => false,
        }
    }

    /// Whether a value of this type can be given type `other`: anything into `!`, the same
    /// type, or an integer (float) literal's type into an integer (float) type.
    pub open spec fn coerceable_into(self, other: TypeV) -> bool {
        ||| other is Never
        ||| self == other
        ||| (self is AmbiguousInt && other.is_int())
        ||| (self is AmbiguousFloat && other.is_float())
    }
}

fn copy_ids(v: &Vec<TypeId>) -> (r: Vec<TypeId>)
    ensures
        r@ == v@,
{
    let mut r = Vec::new();
    let mut i: usize = 0;
    while i < v.len()
        invariant
            i <= v.len(),
            r@ == v@.subrange(0, i as int),
        decreases v.len() - i,
    {
        r.push(v[i]);
        i += 1;
        assert(r@ =~= v@.subrange(0, i as int));
    }
    assert(r@ =~= v@);
    r
}

fn same_ids(a: &Vec<TypeId>, b: &Vec<TypeId>) -> (r: bool)
    ensures
        r == (a@ == b@),
{
    if a.len() != b.len() {
        return false;
    }
    let mut i: usize = 0;
    while i < a.len()
        invariant
            i <= a.len() == b.len(),
            a@.subrange(0, i as int) == b@.subrange(0, i as int),
        decreases a.len() - i,
    {
        if a[i].0 != b[i].0 {
            assert(a@[i as int] != b@[i as int]);
            return false;
        }
        assert(a@.subrange(0, i + 1) =~= a@.subrange(0, i as int).push(a@[i as int]));
        assert(b@.subrange(0, i + 1) =~= b@.subrange(0, i as int).push(b@[i as int]));
        i += 1;
    }
    assert(a@ =~= a@.subrange(0, a.len() as int));
    assert(b@ =~= b@.subrange(0, b.len() as int));
    true
}

impl Type {
    /// A type equal to this one.
    pub fn duplicate(&self) -> (r: Type)
        ensures
            r@ == self@,
    {
        match self {
            Type::AmbiguousInt => Type::AmbiguousInt,
            Type::Int => Type::Int,
            Type::UInt => Type::UInt,
            Type::I8 => Type::I8,
            Type::I16 => Type::I16,
            Type::I32 => Type::I32,
            Type::I64 => Type::I64,
            Type::U8 => Type::U8,
            Type::U16 => Type::U16,
            Type::U32 => Type::U32,
            Type::U64 => Type::U64,
            Type::AmbiguousFloat => Type::AmbiguousFloat,
            Type::Float => Type::Float,
            Type::F32 => Type::F32,
            Type::F64 => Type::F64,
            Type::Bool => Type::Bool,
            Type::Nil => Type::Nil,
            Type::Never => Type::Never,
            Type::Tuple(items) => Type::Tuple(copy_ids(items)),
            Type::Callable { params, ret_ty } => Type::Callable { params: copy_ids(params), ret_ty: *ret_ty },
        }
    }

    /// Whether the two types are the same.
    pub fn same_as(&self, other: &Type) -> (r: bool)
        ensures
            r == (self@ == other@),
    {
        match (self, other) {
            (Type::AmbiguousInt, Type::AmbiguousInt) | (Type::Int, Type::Int) | (Type::UInt, Type::UInt)
            | (Type::I8, Type::I8) | (Type::I16, Type::I16) | (Type::I32, Type::I32) | (Type::I64, Type::I64)
            | (Type::U8, Type::U8) | (Type::U16, Type::U16) | (Type::U32, Type::U32) | (Type::U64, Type::U64)
            | (Type::AmbiguousFloat, Type::AmbiguousFloat) | (Type::Float, Type::Float)
            | (Type::F32, Type::F32) | (Type::F64, Type::F64) | (Type::Bool, Type::Bool)
            | (Type::Nil, Type::Nil) | (Type::Never, Type::Never) => true,
            (Type::Tuple(a), Type::Tuple(b)) => same_ids(a, b),
            (Type::Callable { params: pa, ret_ty: ra }, Type::Callable { params: pb, ret_ty: rb }) =>
                ra.0 == rb.0 && same_ids(pa, pb),
            _ => false,
        }
    }

    pub fn is_numeric(&self) -> (r: bool)
        ensures
            r == self@.is_numeric(),
    {
        self.is_int() || self.is_float()
    }

    pub fn is_int(&self) -> (r: bool)
        ensures
            r == self@.is_int(),
    {
        match self {
            Type::AmbiguousInt | Type::Int | Type::UInt | Type::I8 | Type::I16 | Type::I32 | Type::I64
            | Type::U8 | Type::U16 | Type::U32 | Type::U64 | Type::Never => true,
            _ => false,
        }
    }

    pub fn is_float(&self) -> (r: bool)
        ensures
            r == self@.is_float(),
    {
        match self {
            Type::AmbiguousFloat | Type::Float | Type::F32 | Type::F64 | Type::Never => true,
            _ => false,
        }
    }

    /// Whether `self` can be coerced *into* `other`.
    pub fn is_coerceable_into(&self, other: &Type) -> (r: bool)
        ensures
            r == self@.coerceable_into(other@),
    {
        matches!(other, Type::Never)
        || self.same_as(other)
        || (matches!(self, Type::AmbiguousInt) && other.is_int())
        || (matches!(self, Type::AmbiguousFloat) && other.is_float())
    }
}

#[derive(Debug, Clone, Copy, PartialEq, Eq, Hash, Structural)]
pub struct PreDefinedTypes {
    pub bool_id: TypeId,
    pub nil_id: TypeId,
    pub never_id: TypeId,
}

/// The mathematical value of a [`TypeManager`].
pub struct TypesV {
    /// The types, indexed by id.
    pub pool: Seq<TypeV>,
    /// The type that each name (by the index of its symbol) stands for.
    pub registry: Map<usize, TypeId>,
    /// For each coerced type id, the id it was coerced into.
    pub coercions: Map<usize, TypeId>,
    /// The type of each AST node (by node id).
    pub type_map: Map<usize, TypeId>,
    pub predef: PreDefinedTypes,
}

/// The id that `id` ends at after following at most `fuel` coercions; `None` where the
/// chain of coercions is longer.
pub open spec fn follow(c: Map<usize, TypeId>, id: usize, fuel: nat) -> Option<usize>
    decreases fuel,
{
    if !c.contains_key(id) {
        Some(id)
    } else if fuel == 0 {
        None
    } else {
        follow(c, c[id].0, (fuel - 1) as nat)
    }
}

/// Whether the chain of coercions from `id` ends.
pub open spec fn chain_ends(c: Map<usize, TypeId>, id: usize) -> bool {
    exists|n: nat| #[trigger] follow(c, id, n) is Some
}

/// The id where the chain of coercions from `id` ends.
pub open spec fn chain_end(c: Map<usize, TypeId>, id: usize) -> usize {
    follow(c, id, choose|n: nat| #[trigger] follow(c, id, n) is Some)->Some_0
}

proof fn lemma_follow_mono(c: Map<usize, TypeId>, id: usize, n: nat, m: nat)
    requires
        follow(c, id, n) is Some,
        n <= m,
    ensures
        follow(c, id, m) == follow(c, id, n),
    decreases n,
{
    if c.contains_key(id) {
        lemma_follow_mono(c, c[id].0, (n - 1) as nat, (m - 1) as nat);
    }
}

proof fn lemma_chain_end(c: Map<usize, TypeId>, id: usize, n: nat)
    requires
        follow(c, id, n) is Some,
    ensures
        chain_ends(c, id),
        chain_end(c, id) == follow(c, id, n)->Some_0,
{
    let k = choose|k: nat| #[trigger] follow(c, id, k) is Some;
    if k <= n {
        lemma_follow_mono(c, id, k, n);
    } else {
        lemma_follow_mono(c, id, n, k);
    }
}

impl TypesV {
    /// The type that `id` stands for, after its coercions.
    pub open spec fn lookup(self, id: TypeId) -> Option<TypeV> {
        if chain_ends(self.coercions, id.0) && chain_end(self.coercions, id.0) < self.pool.len() {
            Some(self.pool[chain_end(self.coercions, id.0) as int])
        } else {
            None
        }
    }
}

/// The primitive types that a new manager holds, in the order of their ids, with the names
/// they are registered under (the last has none).
pub open spec fn primitive_types() -> Seq<TypeV> {
    seq![
        TypeV::Int, TypeV::I8, TypeV::I16, TypeV::I32, TypeV::I64,
        TypeV::UInt, TypeV::U8, TypeV::U16, TypeV::U32, TypeV::U64,
        TypeV::Float, TypeV::F32, TypeV::F64,
        TypeV::Bool, TypeV::Nil, TypeV::Never,
    ]
}

pub open spec fn primitive_names() -> Seq<Seq<char>> {
    seq![
        "int"@, "i8"@, "i16"@, "i32"@, "i64"@,
        "uint"@, "u8"@, "u16"@, "u32"@, "u64"@,
        "float"@, "f32"@, "f64"@,
        "bool"@, "nil"@,
    ]
}

/// The interned strings after interning `names[0..n]` in order into `strs`.
pub open spec fn intern_all(strs: Seq<Seq<char>>, names: Seq<Seq<char>>, n: nat) -> Seq<Seq<char>>
    decreases n,
{
    if n == 0 || n > names.len() {
        strs
    } else {
        intern_spec(intern_all(strs, names, (n - 1) as nat), names[n - 1]).0
    }
}

/// The registry after registering `names[0..n]` under ids `0..n`, interning them into `strs`.
pub open spec fn register_all(strs: Seq<Seq<char>>, names: Seq<Seq<char>>, n: nat) -> Map<usize, TypeId>
    decreases n,
{
    if n == 0 || n > names.len() {
        Map::empty()
    } else {
        let before = intern_all(strs, names, (n - 1) as nat);
        register_all(strs, names, (n - 1) as nat).insert(
            intern_spec(before, names[n - 1]).1.0,
            TypeId((n - 1) as usize),
        )
    }
}

/// The primitive types, each registered under its name, and the ids of `bool`, `nil` and
/// `!`, with the next free type id.
fn setup_primitives(
    pool: &mut Vec<Type>,
    registry: &mut HashMap<usize, TypeId>,
    interner: &mut Interner,
) -> (r: (PreDefinedTypes, usize))
    requires
        old(pool)@.len() == 0,
        old(registry)@ == Map::<usize, TypeId>::empty(),
        old(interner).wf(),
        old(interner).has_room(15),
    ensures
        final(interner).wf(),
        final(interner)@ == intern_all(old(interner)@, primitive_names(), 15),
        final(pool)@.map_values(|t: Type| t@) == primitive_types(),
        final(registry)@ == register_all(old(interner)@, primitive_names(), 15),
        r.0 == (PreDefinedTypes { bool_id: TypeId(13), nil_id: TypeId(14), never_id: TypeId(15) }),
        r.1 == 16,
        final(pool)@.len() == 16,
{
    let mut next_type_id: usize = 0;
    let names: [&str; 15] = [
        "int", "i8", "i16", "i32", "i64",
        "uint", "u8", "u16", "u32", "u64",
        "float", "f32", "f64",
        "bool", "nil",
    ];
    let ghost strs0 = interner@;
    assert(names@.map_values(|s: &str| s@) =~= primitive_names());
    while next_type_id < 15
        invariant
            next_type_id <= 15,
            interner.wf(),
            interner@ == intern_all(strs0, primitive_names(), next_type_id as nat),
            interner@.len() <= strs0.len() + next_type_id,
            strs0.len() + 15 <= u32::MAX,
            pool@.len() == next_type_id,
            pool@.map_values(|t: Type| t@) == primitive_types().subrange(0, next_type_id as int),
            registry@ == register_all(strs0, primitive_names(), next_type_id as nat),
            names@.map_values(|s: &str| s@) == primitive_names(),
        decreases 15 - next_type_id,
    {
        let id = TypeId(next_type_id);
        let ty = primitive(next_type_id);
        let ghost tv = ty@;
        pool.push(ty);
        let name = names[next_type_id];
        assert(name@ == primitive_names()[next_type_id as int]);
        let sym = interner.intern(name);
        registry.insert(sym.0, id);
        next_type_id += 1;
        assert(pool@.map_values(|t: Type| t@) =~= primitive_types().subrange(0, next_type_id as int));
    }
    let ghost before = pool@;
    assert(before.map_values(|t: Type| t@) == primitive_types().subrange(0, 15));
    let never = Type::Never;
    pool.push(never);
    next_type_id += 1;
    assert forall|i: int| 0 <= i < 16 implies pool@.map_values(|t: Type| t@)[i] == primitive_types()[i] by {
        if i < 15 {
            assert(pool@[i] == before[i]);
            assert(before.map_values(|t: Type| t@)[i] == primitive_types().subrange(0, 15)[i]);
        }
    }
    assert(pool@.map_values(|t: Type| t@) =~= primitive_types());
    (PreDefinedTypes { bool_id: TypeId(13), nil_id: TypeId(14), never_id: TypeId(15) }, next_type_id)
}

fn primitive(i: usize) -> (t: Type)
    requires
        i < 16,
    ensures
        t@ == primitive_types()[i as int],
{
    match i {
        0 => Type::Int,
        1 => Type::I8,
        2 => Type::I16,
        3 => Type::I32,
        4 => Type::I64,
        5 => Type::UInt,
        6 => Type::U8,
        7 => Type::U16,
        8 => Type::U32,
        9 => Type::U64,
        10 => Type::Float,
        11 => Type::F32,
        12 => Type::F64,
        13 => Type::Bool,
        14 => Type::Nil,
        _ => Type::Never,
    }
}

/// The type manager.
pub struct TypeManager {
    pool: Vec<Type>,
    next_type_id: usize,
    registry: HashMap<usize, TypeId>,
    coercions: HashMap<usize, TypeId>,
    type_map: HashMap<usize, TypeId>,
    pub predef_types: PreDefinedTypes,
}

impl View for TypeManager {
    type V = TypesV;

    closed spec fn view(&self) -> TypesV {
        TypesV {
            pool: self.pool@.map_values(|t: Type| t@),
            registry: self.registry@,
            coercions: self.coercions@,
            type_map: self.type_map@,
            predef: self.predef_types,
        }
    }
}

/// The diagnostic for a type name that names no type.
pub open spec fn unknown_type_diag(span: Span) -> DiagV {
    DiagV {
        message: "Unknown type"@,
        labels: seq![LabelV { source_id: span.source_id, start: span.start, end: span.end, message: "type not defined"@ }],
        notes: Seq::empty(),
    }
}

/// The number of tuple types written in `t`.
pub open spec fn tuple_count(t: ParsedTypeV) -> nat
    decreases t,
{
    match t.kind {
        ParsedKindV::Tuple(items) => 1 + tuples_count(items),
        _ => 0,
    }
}

pub open spec fn tuples_count(items: Seq<ParsedTypeV>) -> nat
    decreases items,
{
    if items.len() == 0 { 0 } else { tuple_count(items[0]) + tuples_count(items.drop_first()) }
}

impl TypesV {
    pub open spec fn with_pool(self, pool: Seq<TypeV>) -> TypesV {
        TypesV { pool, ..self }
    }
}

/// The id that a written type stands for, and the manager after resolving it: a name gives
/// the type registered under it, `nil` the `nil` type, and a tuple a new tuple type of its
/// items' types; every item is resolved, and the diagnostics of all items are gathered.
pub open spec fn resolve_spec(v: TypesV, t: ParsedTypeV) -> (Result<TypeId, Seq<DiagV>>, TypesV)
    decreases t,
{
    match t.kind {
        ParsedKindV::Identifier(s) => if v.registry.contains_key(s.0) {
            (Ok(v.registry[s.0]), v)
        } else {
            (Err(seq![unknown_type_diag(t.span)]), v)
        },
        ParsedKindV::Nil => (Ok(v.predef.nil_id), v),
        ParsedKindV::Tuple(items) => {
            let (ids, errs, v2) = resolve_items(v, items, Seq::empty(), Seq::empty());
            if errs.len() == 0 {
                (Ok(TypeId(v2.pool.len() as usize)), v2.with_pool(v2.pool.push(TypeV::Tuple(ids))))
            } else {
                (Err(errs), v2)
            }
        },
    }
}

/// Resolves `items` in order after the ids `ids` and diagnostics `errs` gathered so far.
pub open spec fn resolve_items(v: TypesV, items: Seq<ParsedTypeV>, ids: Seq<TypeId>, errs: Seq<DiagV>)
    -> (Seq<TypeId>, Seq<DiagV>, TypesV)
    decreases items,
{
    if items.len() == 0 {
        (ids, errs, v)
    } else {
        let (r, v2) = resolve_spec(v, items[0]);
        match r {
            Ok(id) => resolve_items(v2, items.drop_first(), ids.push(id), errs),
            Err(e) => resolve_items(v2, items.drop_first(), ids, errs + e),
        }
    }
}

proof fn lemma_resolve_grows(v: TypesV, t: ParsedTypeV)
    ensures
        resolve_spec(v, t).1.pool.len() <= v.pool.len() + tuple_count(t),
        resolve_spec(v, t).1.registry == v.registry,
        resolve_spec(v, t).1.coercions == v.coercions,
        resolve_spec(v, t).1.type_map == v.type_map,
        resolve_spec(v, t).1.predef == v.predef,
    decreases t,
{
    match t.kind {
        ParsedKindV::Tuple(items) => {
            lemma_resolve_items_grows(v, items, Seq::empty(), Seq::empty());
        },
        _ => {},
    }
}

proof fn lemma_resolve_items_grows(v: TypesV, items: Seq<ParsedTypeV>, ids: Seq<TypeId>, errs: Seq<DiagV>)
    ensures
        resolve_items(v, items, ids, errs).2.pool.len() <= v.pool.len() + tuples_count(items),
        resolve_items(v, items, ids, errs).2.registry == v.registry,
        resolve_items(v, items, ids, errs).2.coercions == v.coercions,
        resolve_items(v, items, ids, errs).2.type_map == v.type_map,
        resolve_items(v, items, ids, errs).2.predef == v.predef,
    decreases items,
{
    if items.len() > 0 {
        lemma_resolve_grows(v, items[0]);
        let (r, v2) = resolve_spec(v, items[0]);
        match r {
            Ok(id) => lemma_resolve_items_grows(v2, items.drop_first(), ids.push(id), errs),
            Err(e) => lemma_resolve_items_grows(v2, items.drop_first(), ids, errs + e),
        }
    }
}

proof fn lemma_map_diags_concat(a: Seq<Diag>, b: Seq<Diag>)
    ensures
        (a + b).map_values(|d: Diag| d@) == a.map_values(|d: Diag| d@) + b.map_values(|d: Diag| d@),
{
    let l = (a + b).map_values(|d: Diag| d@);
    let r = a.map_values(|d: Diag| d@) + b.map_values(|d: Diag| d@);
    assert forall|i: int| 0 <= i < a.len() + b.len() implies #[trigger] l[i] == r[i] by {
        if i < a.len() {
            assert((a + b)[i] == a[i]);
        } else {
            assert((a + b)[i] == b[i - a.len()]);
        }
    }
    assert(l =~= r);
}

impl TypeManager {
    /// The id counter agrees with the number of types.
    pub closed spec fn wf(&self) -> bool {
        self.next_type_id == self.pool@.len()
    }

    /// A manager holding the primitive types, registered under their names (interned into
    /// `interner`), with no coercions and no node types.
    pub fn new(interner: &mut Interner) -> (r: TypeManager)
        requires
            old(interner).wf(),
            old(interner).has_room(15),
        ensures
            r.wf(),
            final(interner).wf(),
            final(interner)@ == intern_all(old(interner)@, primitive_names(), 15),
            r@ == (TypesV {
                pool: primitive_types(),
                registry: register_all(old(interner)@, primitive_names(), 15),
                coercions: Map::empty(),
                type_map: Map::empty(),
                predef: PreDefinedTypes { bool_id: TypeId(13), nil_id: TypeId(14), never_id: TypeId(15) },
            }),
    {
        let mut pool = Vec::new();
        let mut registry = HashMap::new();
        let (predef_types, next_type_id) = setup_primitives(&mut pool, &mut registry, interner);
        TypeManager {
            pool,
            next_type_id,
            registry,
            coercions: HashMap::new(),
            type_map: HashMap::new(),
            predef_types,
        }
    }

    /// The ids of `bool`, `nil` and `!`.
    pub fn predef(&self) -> (r: PreDefinedTypes)
        ensures
            r == self@.predef,
    {
        self.predef_types
    }

    /// Adds `ty` under the next id and returns that id.
    pub fn create_type(&mut self, ty: Type) -> (id: TypeId)
        requires
            old(self).wf(),
            old(self)@.pool.len() < usize::MAX,
        ensures
            final(self).wf(),
            id == TypeId(old(self)@.pool.len() as usize),
            final(self)@ == old(self)@.with_pool(old(self)@.pool.push(ty@)),
    {
        let id = TypeId(self.next_type_id);
        self.next_type_id += 1;
        let ghost tv = ty@;
        self.pool.push(ty);
        assert(self@.pool =~= old(self)@.pool.push(tv));
        id
    }

    /// Registers `id` under `name`.
    pub fn name_type(&mut self, name: Sym, id: TypeId)
        ensures
            final(self).wf() == old(self).wf(),
            final(self)@ == (TypesV { registry: old(self)@.registry.insert(name.0, id), ..old(self)@ }),
    {
        self.registry.insert(name.0, id);
    }

    /// The type that `id` stands for: the type at the end of its chain of coercions.
    pub fn get_type(&self, id: &TypeId) -> (r: Option<&Type>)
        requires
            chain_ends(self@.coercions, id.0),
        ensures
            match r {
                Some(t) => self@.lookup(*id) == Some(t@),
                None => self@.lookup(*id) is None,
            },
    {
        let ghost c = self.coercions@;
        let mut current = id.0;
        let ghost mut fuel: nat = choose|n: nat| #[trigger] follow(c, id.0, n) is Some;
        proof { lemma_chain_end(c, id.0, fuel); }
        loop
            invariant
                c == self.coercions@,
                chain_ends(c, id.0),
                follow(c, current, fuel) is Some,
                follow(c, current, fuel)->Some_0 == chain_end(c, id.0),
            ensures
                current == chain_end(c, id.0),
            decreases fuel,
        {
            match self.coercions.get(&current) {
                Some(next) => {
                    current = next.0;
                    proof { fuel = (fuel - 1) as nat; }
                },
                None => break,
            }
        }
        if current < self.pool.len() {
            Some(&self.pool[current])
        } else {
            None
        }
    }

    /// Whether the type that `from` stands for can be coerced into the one `into` stands for.
    pub fn can_coerce(&self, from: &TypeId, into: &TypeId) -> (r: bool)
        requires
            chain_ends(self@.coercions, from.0),
            chain_ends(self@.coercions, into.0),
            self@.lookup(*from) is Some,
            self@.lookup(*into) is Some,
        ensures
            r == self@.lookup(*from)->Some_0.coerceable_into(self@.lookup(*into)->Some_0),
    {
        let from_ty = self.get_type(from).unwrap();
        let into_ty = self.get_type(into).unwrap();
        from_ty.is_coerceable_into(into_ty)
    }

    /// Coerces `from` into `into`: from now on `from` stands for what `into` stands for.
    pub fn coerce_type(&mut self, from: TypeId, into: TypeId)
        ensures
            final(self).wf() == old(self).wf(),
            final(self)@ == (TypesV { coercions: old(self)@.coercions.insert(from.0, into), ..old(self)@ }),
    {
        self.coercions.insert(from.0, into);
    }

    /// Records `ty` as the type of the node `node_id`, which has none yet.
    pub fn assign_node_type(&mut self, node_id: NodeId, ty: TypeId)
        requires
            !old(self)@.type_map.contains_key(node_id.0),
        ensures
            final(self).wf() == old(self).wf(),
            final(self)@ == (TypesV { type_map: old(self)@.type_map.insert(node_id.0, ty), ..old(self)@ }),
    {
        self.type_map.insert(node_id.0, ty);
    }

    /// The type recorded for the node `node_id`.
    pub fn get_node_type(&self, node_id: &NodeId) -> (r: Option<&TypeId>)
        ensures
            match r {
                Some(t) => self@.type_map.contains_key(node_id.0) && self@.type_map[node_id.0] == *t,
                None => !self@.type_map.contains_key(node_id.0),
            },
    {
        self.type_map.get(&node_id.0)
    }

    /// The id that the written type `ty` stands for, creating tuple types as needed; the
    /// diagnostics of every unknown type name in it otherwise.
    pub fn resolve_type(&mut self, ty: &ParsedType) -> (r: Result<TypeId, Vec<Diag>>)
        requires
            old(self).wf(),
            old(self)@.pool.len() + tuple_count(type_view(*ty)) < usize::MAX,
        ensures
            final(self).wf(),
            ({
                let (out, v) = resolve_spec(old(self)@, type_view(*ty));
                &&& final(self)@ == v
                &&& match r {
                    Ok(id) => out == Ok::<TypeId, Seq<DiagV>>(id),
                    Err(ds) => out == Err::<TypeId, Seq<DiagV>>(ds@.map_values(|d: Diag| d@)),
                }
            }),
        decreases ty,
    {
        match &ty.kind {
            ParsedTypeKind::Identifier(s) => match self.registry.get(&s.0) {
                Some(id) => Ok(*id),
                None => {
                    let d = Diag::single("Unknown type", ty.span.source_id, ty.span.start, ty.span.end, "type not defined");
                    let mut ds = Vec::new();
                    ds.push(d);
                    assert(ds@.map_values(|d: Diag| d@) =~= seq![unknown_type_diag(ty.span)]);
                    Err(ds)
                },
            },
            ParsedTypeKind::Nil => Ok(self.predef_types.nil_id),
            ParsedTypeKind::Tuple(items) => {
                let ghost v0 = self@;
                let ghost tys = types_view(items@);
                proof { lemma_types_view(items@); }
                let mut errors: Vec<Diag> = Vec::new();
                let mut item_tys: Vec<TypeId> = Vec::new();
                let mut i: usize = 0;
                assert(tys.subrange(0, tys.len() as int) =~= tys);
                assert(errors@.map_values(|d: Diag| d@) =~= Seq::<DiagV>::empty());
                while i < items.len()
                    invariant
                        i <= items@.len(),
                        (match ty.kind { ParsedTypeKind::Tuple(v) => v == *items, _ => false }),
                        tys == types_view(items@),
                        tys.len() == items@.len(),
                        forall|j: int| 0 <= j < items@.len() ==> tys[j] == type_view(#[trigger] items@[j]),
                        self.wf(),
                        resolve_items(v0, tys, Seq::empty(), Seq::empty())
                            == resolve_items(self@, tys.subrange(i as int, tys.len() as int), item_tys@,
                                errors@.map_values(|d: Diag| d@)),
                        self@.pool.len() + tuples_count(tys.subrange(i as int, tys.len() as int)) < usize::MAX,
                    decreases items.len() - i,
                {
                    let ghost rest = tys.subrange(i as int, tys.len() as int);
                    assert(rest[0] == tys[i as int]);
                    assert(rest.drop_first() =~= tys.subrange(i + 1, tys.len() as int));
                    proof {
                        lemma_resolve_grows(self@, tys[i as int]);
                        vstd::std_specs::vec::axiom_vec_index_decreases(*items, i as int);
                        assert(decreases_to!(*ty => ty.kind));
                        assert(decreases_to!(ty.kind => *items));
                    }
                    let r = self.resolve_type(&items[i]);
                    match r {
                        Ok(id) => item_tys.push(id),
                        Err(errs) => {
                            let ghost before = errors@;
                            let ghost added = errs@;
                            let mut errs = errs;
                            errors.append(&mut errs);
                            proof { lemma_map_diags_concat(before, added); }
                        },
                    }
                    i += 1;
                }
                assert(tys.subrange(items@.len() as int, tys.len() as int) =~= Seq::<ParsedTypeV>::empty());
                if errors.len() == 0 {
                    proof { lemma_resolve_items_grows(v0, tys, Seq::empty(), Seq::empty()); }
                    Ok(self.create_type(Type::Tuple(item_tys)))
                } else {
                    Err(errors)
                }
            },
        }
    }
}

// ---------------------------------------------------------------------------------------------
// Formatting
// ---------------------------------------------------------------------------------------------

/// The name of a type that names no other type.
pub open spec fn leaf_name(t: TypeV) -> Seq<char> {
    match t {
        TypeV::AmbiguousInt => "<int>"@,
        TypeV::Int => "int"@,
        TypeV::UInt => "uint"@,
        TypeV::I8 => "i8"@,
        TypeV::I16 => "i16"@,
        TypeV::I32 => "i32"@,
        TypeV::I64 => "i64"@,
        TypeV::U8 => "u8"@,
        TypeV::U16 => "u16"@,
        TypeV::U32 => "u32"@,
        TypeV::U64 => "u64"@,
        TypeV::AmbiguousFloat => "<float>"@,
        TypeV::Float => "float"@,
        TypeV::F32 => "f32"@,
        TypeV::F64 => "f64"@,
        TypeV::Bool => "bool"@,
        TypeV::Nil => "nil"@,
        TypeV::Never => "!"@,
        _ => Seq::empty(),
    }
}

/// How `t` reads, the ids it names looked up in `v` (after their coercions), going at most
/// `depth` levels deep; `None` where a lookup fails or the depth does not suffice.
pub open spec fn type_text(v: TypesV, t: TypeV, depth: nat) -> Option<Seq<char>>
    decreases depth, 0nat, 0nat,
{
    if depth == 0 {
        None
    } else {
        match t {
            TypeV::Tuple(items) => match list_text(v, items, (depth - 1) as nat) {
                Some(s) => Some("("@ + s + (if items.len() < 2 { ", "@ } else { Seq::empty() }) + ")"@),
                None => None,
            },
            TypeV::Callable { params, ret_ty } => match list_text(v, params, (depth - 1) as nat) {
                Some(s) => match v.lookup(ret_ty) {
                    Some(rt) => match type_text(v, rt, (depth - 1) as nat) {
                        Some(r) => Some("callable("@ + s + "): "@ + r),
                        None => None,
                    },
                    None => None,
                },
                None => None,
            },
            _ => Some(leaf_name(t)),
        }
    }
}

/// The types named by `ids`, each as [`type_text`] reads it, separated by `", "`.
pub open spec fn list_text(v: TypesV, ids: Seq<TypeId>, depth: nat) -> Option<Seq<char>>
    decreases depth, 1nat, ids.len(),
{
    if ids.len() == 0 {
        Some(Seq::empty())
    } else {
        match list_text(v, ids.drop_last(), depth) {
            Some(s) => match v.lookup(ids.last()) {
                Some(t) => match type_text(v, t, depth) {
                    Some(x) => Some(if ids.len() == 1 { x } else { s + ", "@ + x }),
                    None => None,
                },
                None => None,
            },
            None => None,
        }
    }
}

proof fn lemma_text_mono(v: TypesV, t: TypeV, d: nat)
    ensures
        type_text(v, t, d) is Some ==> type_text(v, t, d + 1) == type_text(v, t, d),
    decreases d, 0nat, 0nat,
{
    if d > 0 {
        match t {
            TypeV::Tuple(items) => lemma_list_mono(v, items, (d - 1) as nat),
            TypeV::Callable { params, ret_ty } => {
                lemma_list_mono(v, params, (d - 1) as nat);
                if v.lookup(ret_ty) is Some {
                    lemma_text_mono(v, v.lookup(ret_ty)->Some_0, (d - 1) as nat);
                }
            },
            _ => {},
        }
    }
}

proof fn lemma_list_mono(v: TypesV, ids: Seq<TypeId>, d: nat)
    ensures
        list_text(v, ids, d) is Some ==> list_text(v, ids, d + 1) == list_text(v, ids, d),
    decreases d, 1nat, ids.len(),
{
    if ids.len() > 0 {
        lemma_list_mono(v, ids.drop_last(), d);
        if v.lookup(ids.last()) is Some {
            lemma_text_mono(v, v.lookup(ids.last())->Some_0, d);
        }
    }
}

proof fn lemma_text_unique(v: TypesV, t: TypeV, d1: nat, d2: nat)
    requires
        type_text(v, t, d1) is Some,
        type_text(v, t, d2) is Some,
    ensures
        type_text(v, t, d1) == type_text(v, t, d2),
    decreases if d1 <= d2 { d2 - d1 } else { d1 - d2 },
{
    if d1 < d2 {
        lemma_text_mono(v, t, d1);
        lemma_text_unique(v, t, d1 + 1, d2);
    } else if d2 < d1 {
        lemma_text_mono(v, t, d2);
        lemma_text_unique(v, t, d1, d2 + 1);
    }
}

proof fn lemma_list_prefix(v: TypesV, ids: Seq<TypeId>, i: int, d: nat)
    requires
        list_text(v, ids, d) is Some,
        0 <= i <= ids.len(),
    ensures
        list_text(v, ids.subrange(0, i), d) is Some,
    decreases ids.len(),
{
    if i == ids.len() {
        assert(ids.subrange(0, i) =~= ids);
    } else {
        lemma_list_prefix(v, ids.drop_last(), i, d);
        assert(ids.drop_last().subrange(0, i) =~= ids.subrange(0, i));
    }
}

impl Type {
    fn leaf_str(&self) -> (r: &'static str)
        ensures
            r@ == leaf_name(self@),
    {
        match self {
            Type::AmbiguousInt => "<int>",
            Type::Int => "int",
            Type::UInt => "uint",
            Type::I8 => "i8",
            Type::I16 => "i16",
            Type::I32 => "i32",
            Type::I64 => "i64",
            Type::U8 => "u8",
            Type::U16 => "u16",
            Type::U32 => "u32",
            Type::U64 => "u64",
            Type::AmbiguousFloat => "<float>",
            Type::Float => "float",
            Type::F32 => "f32",
            Type::F64 => "f64",
            Type::Bool => "bool",
            Type::Nil => "nil",
            Type::Never => "!",
            _ => {
                proof { reveal_strlit(""); }
                ""
            },
        }
    }

    fn format_at(&self, types: &TypeManager, Ghost(depth): Ghost<nat>) -> (r: String)
        requires
            type_text(types@, self@, depth) is Some,
        ensures
            Some(r@) == type_text(types@, self@, depth),
        decreases depth, 0int,
    {
        match self {
            Type::Tuple(items) => {
                let s = format_list(items, types, Ghost((depth - 1) as nat));
                let mut r = string_of("(");
                r.append(s.as_str());
                if items.len() < 2 {
                    r.append(", ");
                }
                r.append(")");
                let ghost sep: Seq<char> = if items@.len() < 2 { ", "@ } else { Seq::empty() };
                assert(r@ =~= "("@ + s@ + sep + ")"@);
                r
            },
            Type::Callable { params, ret_ty } => {
                let s = format_list(params, types, Ghost((depth - 1) as nat));
                let rt = types.get_type(ret_ty).unwrap();
                let rs = rt.format_at(types, Ghost((depth - 1) as nat));
                let mut r = string_of("callable(");
                r.append(s.as_str());
                r.append("): ");
                r.append(rs.as_str());
                r
            },
            _ => string_of(self.leaf_str()),
        }
    }

    /// How the type reads, with the types it names looked up in `types`. Every id reached
    /// must stand for a type (its coercions ending) and must not lead back to the type
    /// itself: then the text is that of [`type_text`] at any depth that suffices.
    pub fn format(&self, types: &TypeManager) -> (r: String)
        requires
            exists|d: nat| type_text(types@, self@, d) is Some,
        ensures
            forall|d: nat| #[trigger] type_text(types@, self@, d) is Some ==> type_text(types@, self@, d) == Some(r@),
    {
        let ghost d = choose|d: nat| type_text(types@, self@, d) is Some;
        let r = self.format_at(types, Ghost(d));
        proof {
            assert forall|d2: nat| #[trigger] type_text(types@, self@, d2) is Some
                implies type_text(types@, self@, d2) == Some(r@) by {
                lemma_text_unique(types@, self@, d, d2);
            }
        }
        r
    }
}

fn format_list(ids: &Vec<TypeId>, types: &TypeManager, Ghost(depth): Ghost<nat>) -> (r: String)
    requires
        list_text(types@, ids@, depth) is Some,
    ensures
        Some(r@) == list_text(types@, ids@, depth),
    decreases depth, 1int,
{
    let mut buf = String::new();
    let mut i: usize = 0;
    proof {
        assert(ids@.subrange(0, 0) =~= Seq::<TypeId>::empty());
        assert(buf@ =~= Seq::<char>::empty());
    }
    while i < ids.len()
        invariant
            i <= ids.len(),
            list_text(types@, ids@, depth) is Some,
            Some(buf@) == list_text(types@, ids@.subrange(0, i as int), depth),
        decreases ids.len() - i,
    {
        proof {
            lemma_list_prefix(types@, ids@, i + 1, depth);
            let pre = ids@.subrange(0, i + 1);
            assert(pre.drop_last() =~= ids@.subrange(0, i as int));
            assert(pre.last() == ids@[i as int]);
        }
        let ghost before = buf@;
        if i > 0 {
            buf.append(", ");
        }
        let t = types.get_type(&ids[i]).unwrap();
        let s = t.format_at(types, Ghost(depth));
        buf.append(s.as_str());
        proof {
            if i == 0 {
                assert(before =~= Seq::<char>::empty());
                assert(buf@ =~= s@);
            } else {
                assert(buf@ =~= before + ", "@ + s@);
            }
        }
        i += 1;
    }
    assert(ids@.subrange(0, ids@.len() as int) =~= ids@);
    buf
}

/// After `from` is coerced into an id that is not coerced itself, `from` stands for what that
/// id stands for.
pub proof fn law_coerce_then_lookup(v: TypesV, from: TypeId, into: TypeId)
    requires
        !v.coercions.contains_key(into.0),
        from.0 != into.0,
    ensures
        (TypesV { coercions: v.coercions.insert(from.0, into), ..v }).lookup(from) == v.lookup(into),
{
    let c2 = v.coercions.insert(from.0, into);
    assert(follow(c2, into.0, 0) == Some(into.0));
    assert(follow(c2, from.0, 1) == Some(into.0));
    lemma_chain_end(c2, from.0, 1);
    assert(follow(v.coercions, into.0, 0) == Some(into.0));
    lemma_chain_end(v.coercions, into.0, 0);
}

/// A type just created is what its new id stands for, while that id is not coerced, and
/// every id that stood for a type before stands for the same type after.
pub proof fn law_create_then_lookup(v: TypesV, t: TypeV, other: TypeId)
    requires
        v.pool.len() < usize::MAX,
        !v.coercions.contains_key(v.pool.len() as usize),
    ensures
        v.with_pool(v.pool.push(t)).lookup(TypeId(v.pool.len() as usize)) == Some(t),
        v.lookup(other) is Some ==> v.with_pool(v.pool.push(t)).lookup(other) == v.lookup(other),
{
    let id = v.pool.len() as usize;
    assert(follow(v.coercions, id, 0) == Some(id));
    lemma_chain_end(v.coercions, id, 0);
}

} // verus!
