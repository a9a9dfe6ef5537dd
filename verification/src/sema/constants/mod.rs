//! Compile-time constants.

pub mod bigint;
pub mod eval;
pub mod collect;

use vstd::prelude::*;
use crate::common::{Span, Sym};
use crate::parser::ast::{Node, NodeV, copy_nodes, nodes_view};
use super::types::TypeId;
use bigint::BigInt;

verus! {

/// A value known at compile time. A floating-point constant is held as the text of its
/// literal.
#[derive(Debug)]
pub enum ConstValue {
    Int(BigInt),
    Float(Sym),
    Bool(bool),
    Never,
    Nil,
    Tuple(Vec<ConstValue>),
    Callable {
        params: Vec<(Sym, TypeId)>,
        ret_ty: TypeId,
        body: Vec<Node>,
        body_span: Span,
    },
}

/// The mathematical value of a [`ConstValue`].
pub enum ConstV {
    Int(int),
    Float(Sym),
    Bool(bool),
    Never,
    Nil,
    Tuple(Seq<ConstV>),
    Callable { params: Seq<(Sym, TypeId)>, ret_ty: TypeId, body: Seq<NodeV>, body_span: Span },
}

pub open spec fn const_view(v: ConstValue) -> ConstV
    decreases v,
{
    match v {
        ConstValue::Int(b) => ConstV::Int(b.value()),
        ConstValue::Float(s) => ConstV::Float(s),
        ConstValue::Bool(b) => ConstV::Bool(b),
        ConstValue::Never => ConstV::Never,
        ConstValue::Nil => ConstV::Nil,
        ConstValue::Tuple(items) => ConstV::Tuple(consts_view(items@)),
        ConstValue::Callable { params, ret_ty, body, body_span } =>
            ConstV::Callable { params: params@, ret_ty, body: nodes_view(body@), body_span },
    }
}

pub open spec fn consts_view(s: Seq<ConstValue>) -> Seq<ConstV>
    decreases s,
{
    if s.len() == 0 {
        Seq::empty()
    } else {
        seq![const_view(s[0])] + consts_view(s.drop_first())
    }
}

pub proof fn lemma_consts_view(s: Seq<ConstValue>)
    ensures
        consts_view(s).len() == s.len(),
        forall|i: int| 0 <= i < s.len() ==> consts_view(s)[i] == const_view(#[trigger] s[i]),
    decreases s.len(),
{
    if s.len() > 0 {
        lemma_consts_view(s.drop_first());
        assert forall|i: int| 0 <= i < s.len() implies consts_view(s)[i] == const_view(#[trigger] s[i]) by {
            if i > 0 {
                assert(s[i] == s.drop_first()[i - 1]);
            }
        }
    }
}

pub proof fn lemma_consts_view_push(s: Seq<ConstValue>, x: ConstValue)
    ensures
        consts_view(s.push(x)) == consts_view(s).push(const_view(x)),
{
    lemma_consts_view(s);
    lemma_consts_view(s.push(x));
    assert forall|i: int| 0 <= i < s.len() + 1 implies consts_view(s.push(x))[i] == consts_view(s).push(const_view(x))[i] by {
        if i < s.len() {
            assert(s.push(x)[i] == s[i]);
        } else {
            assert(s.push(x)[i] == x);
        }
    }
    assert(consts_view(s.push(x)) =~= consts_view(s).push(const_view(x)));
}

fn copy_params(ps: &Vec<(Sym, TypeId)>) -> (r: Vec<(Sym, TypeId)>)
    ensures
        r@ == ps@,
{
    let mut v = Vec::new();
    let mut i: usize = 0;
    while i < ps.len()
        invariant
            i <= ps@.len(),
            v@ == ps@.subrange(0, i as int),
        decreases ps.len() - i,
    {
        v.push(ps[i]);
        i += 1;
        assert(v@ =~= ps@.subrange(0, i as int));
    }
    assert(v@ =~= ps@);
    v
}

impl ConstValue {
    /// A copy of the value.
    pub fn copy(&self) -> (r: ConstValue)
        ensures
            const_view(r) == const_view(*self),
        decreases self,
    {
        match self {
            ConstValue::Int(b) => ConstValue::Int(bigint::copy(b)),
            ConstValue::Float(s) => ConstValue::Float(*s),
            ConstValue::Bool(b) => ConstValue::Bool(*b),
            ConstValue::Never => ConstValue::Never,
            ConstValue::Nil => ConstValue::Nil,
            ConstValue::Tuple(items) => {
                let mut v: Vec<ConstValue> = Vec::new();
                let mut i: usize = 0;
                while i < items.len()
                    invariant
                        i <= items@.len(),
                        (match *self { ConstValue::Tuple(w) => w == *items, _ => false }),
                        v@.len() == i,
                        forall|j: int| 0 <= j < i ==> const_view(#[trigger] v@[j]) == const_view(items@[j]),
                    decreases items.len() - i,
                {
                    proof {
                        vstd::std_specs::vec::axiom_vec_index_decreases(*items, i as int);
                    }
                    let c = items[i].copy();
                    v.push(c);
                    i += 1;
                }
                proof {
                    lemma_consts_view(v@);
                    lemma_consts_view(items@);
                    assert forall|j: int| 0 <= j < v@.len() implies #[trigger] consts_view(v@)[j] == consts_view(items@)[j] by {
                        assert(const_view(v@[j]) == const_view(items@[j]));
                    }
                    assert(consts_view(v@) =~= consts_view(items@));
                }
                ConstValue::Tuple(v)
            },
            ConstValue::Callable { params, ret_ty, body, body_span } => ConstValue::Callable {
                params: copy_params(params),
                ret_ty: *ret_ty,
                body: copy_nodes(body),
                body_span: *body_span,
            },
        }
    }
}

} // verus!
