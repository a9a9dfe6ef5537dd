//! A pool of types addressed by dense ids, with the primitive types created up front.

use vstd::prelude::*;
use crate::common::text::string_of;

verus! {

#[derive(Debug, Clone, Copy, PartialEq, Eq, Hash, Structural)]
pub struct TypeId(pub usize);

#[derive(Debug, Clone, PartialEq, Eq, Hash)]
pub enum Type {
    AmbiguousInt,
    Int, UInt,
    I8, I16, I32, I64,
    U8, U16, U32, U64,
    AmbiguousFloat,
    Float,
    F32, F64,
    Bool,
    Nil,
    Tuple(Vec<TypeId>),
    Callable {
        params: Vec<TypeId>,
        ret_ty: TypeId,
    },
}

/// The mathematical value of a [`Type`].
pub enum TypeV {
    AmbiguousInt,
    Int, UInt,
    I8, I16, I32, I64,
    U8, U16, U32, U64,
    AmbiguousFloat,
    Float,
    F32, F64,
    Bool,
    Nil,
    Tuple(Seq<TypeId>),
    Callable { params: Seq<TypeId>, ret_ty: TypeId },
}

impl View for Type {
    type V = TypeV;

    open spec fn view(&self) -> TypeV {
        match self {
            Type::AmbiguousInt => TypeV::AmbiguousInt,
            Type::Int => TypeV::Int,
            Type::UInt => TypeV::UInt,
            Type::I8 => TypeV::I8,
            Type::I16 => TypeV::I16,
            Type::I32 => TypeV::I32,
            Type::I64 => TypeV::I64,
            Type::U8 => TypeV::U8,
            Type::U16 => TypeV::U16,
            Type::U32 => TypeV::U32,
            Type::U64 => TypeV::U64,
            Type::AmbiguousFloat => TypeV::AmbiguousFloat,
            Type::Float => TypeV::Float,
            Type::F32 => TypeV::F32,
            Type::F64 => TypeV::F64,
            Type::Bool => TypeV::Bool,
            Type::Nil => TypeV::Nil,
            Type::Tuple(items) => TypeV::Tuple(items@),
            Type::Callable { params, ret_ty } => TypeV::Callable { params: params@, ret_ty: *ret_ty },
        }
    }
}

impl TypeV {
    pub open spec fn is_numeric(self) -> bool {
        self.is_int() || self.is_float()
    }

    pub open spec fn is_int(self) -> bool {
        match self {
            TypeV::AmbiguousInt | TypeV::Int | TypeV::UInt | TypeV::I8 | TypeV::I16 | TypeV::I32 | TypeV::I64
            | TypeV::U8 | TypeV::U16 | TypeV::U32 | TypeV::U64 => true,
            _ => false,
        }
    }

    pub open spec fn is_float(self) -> bool {
        match self {
            TypeV::AmbiguousFloat | TypeV::Float | TypeV::F32 | TypeV::F64 => true,
            _ => false,
        }
    }

    /// Whether a value of this type can be given type `other`: the same type, or an
    /// integer (float) literal's type into an integer (float) type.
    pub open spec fn coerceable_into(self, other: TypeV) -> bool {
        ||| self == other
        ||| (self is AmbiguousInt && other.is_int())
        ||| (self is AmbiguousFloat && other.is_float())
    }
}

fn copy_ids(v: &Vec<TypeId>) -> (r: Vec<TypeId>)
    ensures
        r@ == v@,
{
    let mut r = Vec::new();
    let mut i: usize = 0;
    while i < v.len()
        invariant
            i <= v.len(),
            r@ == v@.subrange(0, i as int),
        decreases v.len() - i,
    {
        r.push(v[i]);
        i += 1;
        assert(r@ =~= v@.subrange(0, i as int));
    }
    assert(r@ =~= v@);
    r
}

fn same_ids(a: &Vec<TypeId>, b: &Vec<TypeId>) -> (r: bool)
    ensures
        r == (a@ == b@),
{
    if a.len() != b.len() {
        return false;
    }
    let mut i: usize = 0;
    while i < a.len()
        invariant
            i <= a.len() == b.len(),
            a@.subrange(0, i as int) == b@.subrange(0, i as int),
        decreases a.len() - i,
    {
        if a[i].0 != b[i].0 {
            assert(a@[i as int] != b@[i as int]);
            return false;
        }
        assert(a@.subrange(0, i + 1) =~= a@.subrange(0, i as int).push(a@[i as int]));
        assert(b@.subrange(0, i + 1) =~= b@.subrange(0, i as int).push(b@[i as int]));
        i += 1;
    }
    assert(a@ =~= a@.subrange(0, a.len() as int));
    assert(b@ =~= b@.subrange(0, b.len() as int));
    true
}

impl Type {
    /// A type equal to this one.
    pub fn duplicate(&self) -> (r: Type)
        ensures
            r@ == self@,
    {
        match self {
            Type::AmbiguousInt => Type::AmbiguousInt,
            Type::Int => Type::Int,
            Type::UInt => Type::UInt,
            Type::I8 => Type::I8,
            Type::I16 => Type::I16,
            Type::I32 => Type::I32,
            Type::I64 => Type::I64,
            Type::U8 => Type::U8,
            Type::U16 => Type::U16,
            Type::U32 => Type::U32,
            Type::U64 => Type::U64,
            Type::AmbiguousFloat => Type::AmbiguousFloat,
            Type::Float => Type::Float,
            Type::F32 => Type::F32,
            Type::F64 => Type::F64,
            Type::Bool => Type::Bool,
            Type::Nil => Type::Nil,
            Type::Tuple(items) => Type::Tuple(copy_ids(items)),
            Type::Callable { params, ret_ty } => Type::Callable { params: copy_ids(params), ret_ty: *ret_ty },
        }
    }

    /// Whether the two types are the same.
    pub fn same_as(&self, other: &Type) -> (r: bool)
        ensures
            r == (self@ == other@),
    {
        match (self, other) {
            (Type::AmbiguousInt, Type::AmbiguousInt) | (Type::Int, Type::Int) | (Type::UInt, Type::UInt)
            | (Type::I8, Type::I8) | (Type::I16, Type::I16) | (Type::I32, Type::I32) | (Type::I64, Type::I64)
            | (Type::U8, Type::U8) | (Type::U16, Type::U16) | (Type::U32, Type::U32) | (Type::U64, Type::U64)
            | (Type::AmbiguousFloat, Type::AmbiguousFloat) | (Type::Float, Type::Float)
            | (Type::F32, Type::F32) | (Type::F64, Type::F64) | (Type::Bool, Type::Bool)
            | (Type::Nil, Type::Nil) => true,
            (Type::Tuple(a), Type::Tuple(b)) => same_ids(a, b),
            (Type::Callable { params: pa, ret_ty: ra }, Type::Callable { params: pb, ret_ty: rb }) =>
                ra.0 == rb.0 && same_ids(pa, pb),
            _ => false,
        }
    }

    pub fn is_numeric(&self) -> (r: bool)
        ensures
            r == self@.is_numeric(),
    {
        self.is_int() || self.is_float()
    }

    pub fn is_int(&self) -> (r: bool)
        ensures
            r == self@.is_int(),
    {
        match self {
            Type::AmbiguousInt | Type::Int | Type::UInt | Type::I8 | Type::I16 | Type::I32 | Type::I64
            | Type::U8 | Type::U16 | Type::U32 | Type::U64 => true,
            _ => false,
        }
    }

    pub fn is_float(&self) -> (r: bool)
        ensures
            r == self@.is_float(),
    {
        match self {
            Type::AmbiguousFloat | Type::Float | Type::F32 | Type::F64 => true,
            _ => false,
        }
    }

    /// Whether `self` can be coerced *into* `other`.
    pub fn is_coerceable_into(&self, other: &Type) -> (r: bool)
        ensures
            r == self@.coerceable_into(other@),
    {
        self.same_as(other)
        || (matches!(self, Type::AmbiguousInt) && other.is_int())
        || (matches!(self, Type::AmbiguousFloat) && other.is_float())
    }
}

/// The types of a pool, indexed by id. Ids are handed out in order from 0, so the pool
/// holds exactly the ids below its length.
pub struct TypePool {
    types: Vec<Type>,
    next_id: usize,

    pub int_id: TypeId,
    pub uint_id: TypeId,
    pub i8_id: TypeId,
    pub i16_id: TypeId,
    pub i32_id: TypeId,
    pub i64_id: TypeId,
    pub u8_id: TypeId,
    pub u16_id: TypeId,
    pub u32_id: TypeId,
    pub u64_id: TypeId,
    pub float_id: TypeId,
    pub f32_id: TypeId,
    pub f64_id: TypeId,
    pub nil_id: TypeId,
}

impl View for TypePool {
    type V = Seq<TypeV>;

    closed spec fn view(&self) -> Seq<TypeV> {
        self.types@.map_values(|t: Type| t@)
    }
}

/// The types that a new pool holds, in the order of their ids.
pub open spec fn primitive_types() -> Seq<TypeV> {
    seq![
        TypeV::Int, TypeV::UInt,
        TypeV::I8, TypeV::I16, TypeV::I32, TypeV::I64,
        TypeV::U8, TypeV::U16, TypeV::U32, TypeV::U64,
        TypeV::Float, TypeV::F32, TypeV::F64,
        TypeV::Nil,
    ]
}

impl TypePool {
    /// The id counter agrees with the number of types.
    pub closed spec fn wf(&self) -> bool {
        self.next_id == self.types.len()
    }

    /// A pool holding the primitive types; each `*_id` field names its type.
    pub fn new() -> (r: TypePool)
        ensures
            r.wf(),
            r@ == primitive_types(),
            r.primitive_ids() == Seq::new(14, |i: int| TypeId(i as usize)),
    {
        let mut types = Vec::new();
        let mut next_id: usize = 0;

        let int_id = TypeId(next_id);
        next_id += 1;
        types.push(Type::Int);

        let uint_id = TypeId(next_id);
        next_id += 1;
        types.push(Type::UInt);

        let i8_id = TypeId(next_id);
        next_id += 1;
        types.push(Type::I8);

        let i16_id = TypeId(next_id);
        next_id += 1;
        types.push(Type::I16);

        let i32_id = TypeId(next_id);
        next_id += 1;
        types.push(Type::I32);

        let i64_id = TypeId(next_id);
        next_id += 1;
        types.push(Type::I64);

        let u8_id = TypeId(next_id);
        next_id += 1;
        types.push(Type::U8);

        let u16_id = TypeId(next_id);
        next_id += 1;
        types.push(Type::U16);

        let u32_id = TypeId(next_id);
        next_id += 1;
        types.push(Type::U32);

        let u64_id = TypeId(next_id);
        next_id += 1;
        types.push(Type::U64);

        let float_id = TypeId(next_id);
        next_id += 1;
        types.push(Type::Float);

        let f32_id = TypeId(next_id);
        next_id += 1;
        types.push(Type::F32);

        let f64_id = TypeId(next_id);
        next_id += 1;
        types.push(Type::F64);

        let nil_id = TypeId(next_id);
        next_id += 1;
        types.push(Type::Nil);

        let r = TypePool {
            types, next_id,
            int_id, uint_id,
            i8_id, i16_id, i32_id, i64_id,
            u8_id, u16_id, u32_id, u64_id,
            float_id, f32_id, f64_id,
            nil_id,
        };
        assert(r@ =~= primitive_types());
        assert(r.primitive_ids() =~= Seq::new(14, |i: int| TypeId(i as usize)));
        r
    }

    /// Adds `ty` under the next id and returns that id.
    pub fn create_type(&mut self, ty: Type) -> (id: TypeId)
        requires
            old(self).wf(),
            old(self)@.len() < usize::MAX,
        ensures
            final(self).wf(),
            id == TypeId(old(self)@.len() as usize),
            final(self)@ == old(self)@.push(ty@),
            final(self).same_ids(*old(self)),
    {
        let id = TypeId(self.next_id);
        self.next_id += 1;
        let ghost tv = ty@;
        self.types.push(ty);
        assert(self@ =~= old(self)@.push(tv));
        id
    }

    /// Replaces the type of `from` by `to`.
    pub fn coerce_type(&mut self, from: &TypeId, to: Type)
        requires
            old(self).wf(),
            from.0 < old(self)@.len(),
        ensures
            final(self).wf(),
            final(self)@ == old(self)@.update(from.0 as int, to@),
            final(self).same_ids(*old(self)),
    {
        let ghost tv = to@;
        self.types.set(from.0, to);
        assert(self@ =~= old(self)@.update(from.0 as int, tv));
    }

    /// The type with id `id`, if the pool has one.
    pub fn get_type(&self, id: &TypeId) -> (r: Option<&Type>)
        requires
            self.wf(),
        ensures
            match r {
                Some(t) => id.0 < self@.len() && t@ == self@[id.0 as int],
                None => id.0 >= self@.len(),
            },
    {
        if id.0 < self.types.len() {
            Some(&self.types[id.0])
        } else {
            None
        }
    }

    /// The `*_id` fields, in the order of `primitive_types`: int, uint, i8 to i64, u8 to u64,
    /// float, f32, f64 and nil.
    pub closed spec fn primitive_ids(&self) -> Seq<TypeId> {
        seq![
            self.int_id, self.uint_id,
            self.i8_id, self.i16_id, self.i32_id, self.i64_id,
            self.u8_id, self.u16_id, self.u32_id, self.u64_id,
            self.float_id, self.f32_id, self.f64_id,
            self.nil_id,
        ]
    }

    /// The `*_id` fields of the two pools agree.
    pub open spec fn same_ids(&self, other: TypePool) -> bool {
        self.primitive_ids() == other.primitive_ids()
    }
}

/// A type created in a pool gets an id that held no type before and now holds it, and every
/// other id holds what it held (or nothing, as before).
pub proof fn law_pool_create_then_get(pool: Seq<TypeV>, t: TypeV, other: int)
    ensures
        ({
            let id = pool.len() as int;
            let after = pool.push(t);
            &&& !(0 <= id < pool.len())
            &&& 0 <= id < after.len() && after[id] == t
            &&& other != id ==> (0 <= other < after.len() <==> 0 <= other < pool.len())
            &&& other != id && 0 <= other < pool.len() ==> after[other] == pool[other]
        }),
{
}

// ---------------------------------------------------------------------------------------------
// Formatting
// ---------------------------------------------------------------------------------------------

/// The name of a type that names no other type.
pub open spec fn leaf_name(t: TypeV) -> Seq<char> {
    match t {
        TypeV::AmbiguousInt => "<int>"@,
        TypeV::Int => "int"@,
        TypeV::UInt => "uint"@,
        TypeV::I8 => "i8"@,
        TypeV::I16 => "i16"@,
        TypeV::I32 => "i32"@,
        TypeV::I64 => "i64"@,
        TypeV::U8 => "u8"@,
        TypeV::U16 => "u16"@,
        TypeV::U32 => "u32"@,
        TypeV::U64 => "u64"@,
        TypeV::AmbiguousFloat => "float"@,
        TypeV::Float => "float"@,
        TypeV::F32 => "f32"@,
        TypeV::F64 => "f64"@,
        TypeV::Bool => "bool"@,
        TypeV::Nil => "nil"@,
        _ => Seq::empty(),
    }
}

/// How `t` reads, the types it names looked up in `pool`, going at most `depth` levels
/// deep; `None` where an id is missing from the pool or the depth does not suffice.
pub open spec fn type_text(pool: Seq<TypeV>, t: TypeV, depth: nat) -> Option<Seq<char>>
    decreases depth, 0nat, 0nat,
{
    if depth == 0 {
        None
    } else {
        match t {
            TypeV::Tuple(items) => match list_text(pool, items, (depth - 1) as nat) {
                Some(s) => Some("("@ + s + (if items.len() < 2 { ", "@ } else { Seq::empty() }) + ")"@),
                None => None,
            },
            TypeV::Callable { params, ret_ty } => match list_text(pool, params, (depth - 1) as nat) {
                Some(s) => if ret_ty.0 < pool.len() {
                    match type_text(pool, pool[ret_ty.0 as int], (depth - 1) as nat) {
                        Some(r) => Some("callable("@ + s + "): "@ + r),
                        None => None,
                    }
                } else {
                    None
                },
                None => None,
            },
            _ => Some(leaf_name(t)),
        }
    }
}

/// The types named by `ids`, each as [`type_text`] reads it, separated by `", "`.
pub open spec fn list_text(pool: Seq<TypeV>, ids: Seq<TypeId>, depth: nat) -> Option<Seq<char>>
    decreases depth, 1nat, ids.len(),
{
    if ids.len() == 0 {
        Some(Seq::empty())
    } else {
        match list_text(pool, ids.drop_last(), depth) {
            Some(s) => if ids.last().0 < pool.len() {
                match type_text(pool, pool[ids.last().0 as int], depth) {
                    Some(t) => Some(if ids.len() == 1 { t } else { s + ", "@ + t }),
                    None => None,
                }
            } else {
                None
            },
            None => None,
        }
    }
}

proof fn lemma_text_mono(pool: Seq<TypeV>, t: TypeV, d: nat)
    ensures
        type_text(pool, t, d) is Some ==> type_text(pool, t, d + 1) == type_text(pool, t, d),
    decreases d, 0nat, 0nat,
{
    if d > 0 {
        match t {
            TypeV::Tuple(items) => lemma_list_mono(pool, items, (d - 1) as nat),
            TypeV::Callable { params, ret_ty } => {
                lemma_list_mono(pool, params, (d - 1) as nat);
                if ret_ty.0 < pool.len() {
                    lemma_text_mono(pool, pool[ret_ty.0 as int], (d - 1) as nat);
                }
            },
            _ => {},
        }
    }
}

proof fn lemma_list_mono(pool: Seq<TypeV>, ids: Seq<TypeId>, d: nat)
    ensures
        list_text(pool, ids, d) is Some ==> list_text(pool, ids, d + 1) == list_text(pool, ids, d),
    decreases d, 1nat, ids.len(),
{
    if ids.len() > 0 {
        lemma_list_mono(pool, ids.drop_last(), d);
        if ids.last().0 < pool.len() {
            lemma_text_mono(pool, pool[ids.last().0 as int], d);
        }
    }
}

/// The text of a type does not depend on the depth, once the depth suffices.
proof fn lemma_text_unique(pool: Seq<TypeV>, t: TypeV, d1: nat, d2: nat)
    requires
        type_text(pool, t, d1) is Some,
        type_text(pool, t, d2) is Some,
    ensures
        type_text(pool, t, d1) == type_text(pool, t, d2),
    decreases if d1 <= d2 { d2 - d1 } else { d1 - d2 },
{
    if d1 < d2 {
        lemma_text_mono(pool, t, d1);
        lemma_text_unique(pool, t, d1 + 1, d2);
    } else if d2 < d1 {
        lemma_text_mono(pool, t, d2);
        lemma_text_unique(pool, t, d1, d2 + 1);
    }
}

proof fn lemma_list_prefix(pool: Seq<TypeV>, ids: Seq<TypeId>, i: int, d: nat)
    requires
        list_text(pool, ids, d) is Some,
        0 <= i <= ids.len(),
    ensures
        list_text(pool, ids.subrange(0, i), d) is Some,
    decreases ids.len(),
{
    if i == ids.len() {
        assert(ids.subrange(0, i) =~= ids);
    } else {
        lemma_list_prefix(pool, ids.drop_last(), i, d);
        assert(ids.drop_last().subrange(0, i) =~= ids.subrange(0, i));
    }
}

impl Type {
    fn leaf_str(&self) -> (r: &'static str)
        ensures
            r@ == leaf_name(self@),
    {
        match self {
            Type::AmbiguousInt => "<int>",
            Type::Int => "int",
            Type::UInt => "uint",
            Type::I8 => "i8",
            Type::I16 => "i16",
            Type::I32 => "i32",
            Type::I64 => "i64",
            Type::U8 => "u8",
            Type::U16 => "u16",
            Type::U32 => "u32",
            Type::U64 => "u64",
            Type::AmbiguousFloat => "float",
            Type::Float => "float",
            Type::F32 => "f32",
            Type::F64 => "f64",
            Type::Bool => "bool",
            Type::Nil => "nil",
            _ => {
                proof { reveal_strlit(""); }
                ""
            },
        }
    }

    fn format_at(&self, pool: &TypePool, Ghost(depth): Ghost<nat>) -> (r: String)
        requires
            pool.wf(),
            type_text(pool@, self@, depth) is Some,
        ensures
            Some(r@) == type_text(pool@, self@, depth),
        decreases depth, 0int,
    {
        match self {
            Type::Tuple(items) => {
                let s = format_list(items, pool, Ghost((depth - 1) as nat));
                let mut r = string_of("(");
                r.append(s.as_str());
                if items.len() < 2 {
                    r.append(", ");
                }
                r.append(")");
                let ghost sep: Seq<char> = if items@.len() < 2 { ", "@ } else { Seq::empty() };
                assert(r@ =~= "("@ + s@ + sep + ")"@);
                r
            },
            Type::Callable { params, ret_ty } => {
                let s = format_list(params, pool, Ghost((depth - 1) as nat));
                let rt = pool.get_type(ret_ty).unwrap();
                let rs = rt.format_at(pool, Ghost((depth - 1) as nat));
                let mut r = string_of("callable(");
                r.append(s.as_str());
                r.append("): ");
                r.append(rs.as_str());
                r
            },
            _ => string_of(self.leaf_str()),
        }
    }

    /// How the type reads, with the types it names looked up in `type_pool`. The pool must
    /// hold every id reached and the ids must not lead back to the type itself: then the
    /// text is that of [`type_text`] at any depth that suffices.
    pub fn format(&self, type_pool: &TypePool) -> (r: String)
        requires
            type_pool.wf(),
            exists|d: nat| type_text(type_pool@, self@, d) is Some,
        ensures
            forall|d: nat| #[trigger] type_text(type_pool@, self@, d) is Some
                ==> type_text(type_pool@, self@, d) == Some(r@),
    {
        let ghost d = choose|d: nat| type_text(type_pool@, self@, d) is Some;
        let r = self.format_at(type_pool, Ghost(d));
        proof {
            assert forall|d2: nat| #[trigger] type_text(type_pool@, self@, d2) is Some
                implies type_text(type_pool@, self@, d2) == Some(r@) by {
                lemma_text_unique(type_pool@, self@, d, d2);
            }
        }
        r
    }
}

fn format_list(ids: &Vec<TypeId>, pool: &TypePool, Ghost(depth): Ghost<nat>) -> (r: String)
    requires
        pool.wf(),
        list_text(pool@, ids@, depth) is Some,
    ensures
        Some(r@) == list_text(pool@, ids@, depth),
    decreases depth, 1int,
{
    let mut buf = String::new();
    let mut i: usize = 0;
    proof {
        assert(ids@.subrange(0, 0) =~= Seq::<TypeId>::empty());
        assert(buf@ =~= Seq::<char>::empty());
    }
    while i < ids.len()
        invariant
            i <= ids.len(),
            pool.wf(),
            list_text(pool@, ids@, depth) is Some,
            Some(buf@) == list_text(pool@, ids@.subrange(0, i as int), depth),
        decreases ids.len() - i,
    {
        proof {
            lemma_list_prefix(pool@, ids@, i + 1, depth);
            let pre = ids@.subrange(0, i + 1);
            assert(pre.drop_last() =~= ids@.subrange(0, i as int));
            assert(pre.last() == ids@[i as int]);
        }
        let ghost before = buf@;
        if i > 0 {
            buf.append(", ");
        }
        let t = pool.get_type(&ids[i]).unwrap();
        let s = t.format_at(pool, Ghost(depth));
        buf.append(s.as_str());
        proof {
            if i == 0 {
                assert(before =~= Seq::<char>::empty());
                assert(buf@ =~= s@);
            } else {
                assert(buf@ =~= before + ", "@ + s@);
            }
        }
        i += 1;
    }
    assert(ids@.subrange(0, ids@.len() as int) =~= ids@);
    buf
}

} // verus!
