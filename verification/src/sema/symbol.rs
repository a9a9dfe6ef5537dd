//! Constant values and the evaluation of operators on them.

use vstd::prelude::*;
use std::collections::HashMap;
use crate::common::{Operator, Span, Sym};
use crate::parser::ast::Node;
use super::ty::TypeId;

verus! {

#[derive(Debug, Clone, Copy, PartialEq, Eq, Hash, Structural)]
pub enum ScopeContext {
    Loop,
    Normal,
}

#[derive(Debug, Clone, Copy, PartialEq, Eq, Hash, Structural)]
pub struct ConstId(pub usize);

/// A value known at compile time. Floating-point values are not represented here.
#[derive(Debug)]
pub enum ConstValue {
    Int(i64),
    Bool(bool),
    Nil,
    Tuple(Vec<ConstValue>),
    Callable {
        params: Vec<(Sym, TypeId)>,
        ret_ty: TypeId,
        body: Vec<Node>,
    },
}

/// Whether the arithmetic of `op` on two integers stays within `i64` (the operations
/// that overflow or divide by zero panic).
pub open spec fn int_op_defined(op: Operator, a: i64, b: i64) -> bool {
    match op {
        Operator::Plus => i64::MIN <= a + b <= i64::MAX,
        Operator::Minus => i64::MIN <= a - b <= i64::MAX,
        Operator::Star => i64::MIN <= a * b <= i64::MAX,
        Operator::Slash | Operator::Modulo => b != 0 && !(a == i64::MIN && b == -1),
        _ => true,
    }
}

/// Whether `lhs op rhs` can be evaluated without a panic.
pub open spec fn infix_defined(op: Operator, lhs: ConstValue, rhs: ConstValue) -> bool {
    match (lhs, rhs) {
        (ConstValue::Int(a), ConstValue::Int(b)) => int_op_defined(op, a, b),
        _ => true,
    }
}

/// Element-wise equality of two tuples, over the pairs that both have: `Some(false)` at the
/// first pair of unequal integers (or of unequal nested tuples), `None` at the first pair
/// that is not two integers, two `nil`s or two tuples, else `Some(true)`.
pub open spec fn tuples_eq(l: Seq<ConstValue>, r: Seq<ConstValue>) -> Option<bool>
    decreases l,
{
    if l.len() == 0 || r.len() == 0 {
        Some(true)
    } else {
        match (l[0], r[0]) {
            (ConstValue::Int(a), ConstValue::Int(b)) =>
                if a != b { Some(false) } else { tuples_eq(l.drop_first(), r.drop_first()) },
            (ConstValue::Nil, ConstValue::Nil) => tuples_eq(l.drop_first(), r.drop_first()),
            (ConstValue::Tuple(a), ConstValue::Tuple(b)) => match tuples_eq(a@, b@) {
                None => None,
                Some(false) => Some(false),
                Some(true) => tuples_eq(l.drop_first(), r.drop_first()),
            },
            _ => None,
        }
    }
}

/// Element-wise inequality of two tuples, over the pairs that both have: `Some(true)` at the
/// first pair of unequal integers (or of unequal nested tuples), `None` at the first pair
/// that is not two integers, two `nil`s or two tuples, else `Some(false)`.
pub open spec fn tuples_ne(l: Seq<ConstValue>, r: Seq<ConstValue>) -> Option<bool>
    decreases l,
{
    if l.len() == 0 || r.len() == 0 {
        Some(false)
    } else {
        match (l[0], r[0]) {
            (ConstValue::Int(a), ConstValue::Int(b)) =>
                if a != b { Some(true) } else { tuples_ne(l.drop_first(), r.drop_first()) },
            (ConstValue::Nil, ConstValue::Nil) => tuples_ne(l.drop_first(), r.drop_first()),
            (ConstValue::Tuple(a), ConstValue::Tuple(b)) => match tuples_ne(a@, b@) {
                None => None,
                Some(true) => Some(true),
                Some(false) => tuples_ne(l.drop_first(), r.drop_first()),
            },
            _ => None,
        }
    }
}

/// The negation of a comparison result that may be missing.
pub open spec fn negated(b: Option<bool>) -> Option<bool> {
    match b {
        Some(x) => Some(!x),
        None => None,
    }
}

/// Element-wise inequality of two tuples is the negation of their element-wise equality, and
/// finds no answer on exactly the same tuples.
pub proof fn law_tuples_ne_negates_eq(l: Seq<ConstValue>, r: Seq<ConstValue>)
    ensures
        tuples_ne(l, r) == negated(tuples_eq(l, r)),
    decreases l,
{
    if l.len() > 0 && r.len() > 0 {
        match (l[0], r[0]) {
            (ConstValue::Tuple(a), ConstValue::Tuple(b)) => {
                law_tuples_ne_negates_eq(a@, b@);
                law_tuples_ne_negates_eq(l.drop_first(), r.drop_first());
            },
            _ => {
                law_tuples_ne_negates_eq(l.drop_first(), r.drop_first());
            },
        }
    }
}

pub open spec fn opt_bool(b: Option<bool>) -> Option<ConstValue> {
    match b {
        Some(b) => Some(ConstValue::Bool(b)),
        None => None,
    }
}

/// The value of `lhs op rhs`, `None` where the operator does not apply to the operands.
/// `!=` gives what `==` gives on integers and on `nil`s.
pub open spec fn eval_infix_spec(op: Operator, lhs: ConstValue, rhs: ConstValue) -> Option<ConstValue> {
    match (lhs, rhs) {
        (ConstValue::Int(a), ConstValue::Int(b)) => match op {
            Operator::Plus => Some(ConstValue::Int((a + b) as i64)),
            Operator::Minus => Some(ConstValue::Int((a - b) as i64)),
            Operator::Star => Some(ConstValue::Int((a * b) as i64)),
            Operator::Slash => Some(ConstValue::Int(a.checked_div(b)->Some_0)),
            Operator::Modulo => Some(ConstValue::Int(a.checked_rem(b)->Some_0)),
            Operator::Eq | Operator::Ne => Some(ConstValue::Bool(a == b)),
            Operator::Gt => Some(ConstValue::Bool(a > b)),
            Operator::Lt => Some(ConstValue::Bool(a < b)),
            Operator::Ge => Some(ConstValue::Bool(a >= b)),
            Operator::Le => Some(ConstValue::Bool(a <= b)),
            Operator::Pipe => Some(ConstValue::Int(a | b)),
            Operator::Ampersand => Some(ConstValue::Int(a & b)),
            Operator::Caret => Some(ConstValue::Int(a ^ b)),
            _ => None,
        },
        (ConstValue::Bool(a), ConstValue::Bool(b)) => match op {
            Operator::Pipe | Operator::KwOr => Some(ConstValue::Bool(a || b)),
            Operator::Ampersand | Operator::KwAnd => Some(ConstValue::Bool(a && b)),
            Operator::Caret | Operator::KwXor => Some(ConstValue::Bool(a != b)),
            _ => None,
        },
        (ConstValue::Nil, ConstValue::Nil) => match op {
            Operator::Eq | Operator::Ne => Some(ConstValue::Bool(true)),
            _ => None,
        },
        (ConstValue::Tuple(a), ConstValue::Tuple(b)) => match op {
            Operator::Eq => opt_bool(tuples_eq(a@, b@)),
            Operator::Ne => opt_bool(tuples_ne(a@, b@)),
            _ => None,
        },
        _ => None,
    }
}

/// On two integer constants the order comparisons give the order of the integers: `>` is
/// strict and `>=` is not, and swapping the operands turns `>` into `<` and `>=` into `<=`.
pub proof fn law_int_order_comparisons(a: i64, b: i64)
    ensures
        eval_infix_spec(Operator::Gt, ConstValue::Int(a), ConstValue::Int(b)) == Some(ConstValue::Bool(a > b)),
        eval_infix_spec(Operator::Lt, ConstValue::Int(a), ConstValue::Int(b)) == Some(ConstValue::Bool(a < b)),
        eval_infix_spec(Operator::Ge, ConstValue::Int(a), ConstValue::Int(b)) == Some(ConstValue::Bool(a >= b)),
        eval_infix_spec(Operator::Le, ConstValue::Int(a), ConstValue::Int(b)) == Some(ConstValue::Bool(a <= b)),
        eval_infix_spec(Operator::Gt, ConstValue::Int(a), ConstValue::Int(b))
            == eval_infix_spec(Operator::Lt, ConstValue::Int(b), ConstValue::Int(a)),
        eval_infix_spec(Operator::Ge, ConstValue::Int(a), ConstValue::Int(b))
            == eval_infix_spec(Operator::Le, ConstValue::Int(b), ConstValue::Int(a)),
        eval_infix_spec(Operator::Gt, ConstValue::Int(a), ConstValue::Int(a)) == Some(ConstValue::Bool(false)),
        eval_infix_spec(Operator::Ge, ConstValue::Int(a), ConstValue::Int(a)) == Some(ConstValue::Bool(true)),
        eval_infix_spec(Operator::Gt, ConstValue::Int(a), ConstValue::Int(b)) != eval_infix_spec(Operator::Le, ConstValue::Int(a), ConstValue::Int(b)),
{
}

/// The prefix operators on constants: `+` keeps an integer, `-` negates it (where the
/// negation fits), `!` flips every bit of an integer (`!a == -a - 1`) and negates a boolean,
/// and `not` negates a boolean; nothing else applies.
pub proof fn law_prefix_values(a: i64, p: bool)
    ensures
        eval_prefix_spec(Operator::Plus, ConstValue::Int(a)) == Some(ConstValue::Int(a)),
        a != i64::MIN ==> eval_prefix_spec(Operator::Minus, ConstValue::Int(a)) == Some(ConstValue::Int((-a) as i64)),
        eval_prefix_spec(Operator::Bang, ConstValue::Int(a)) matches Some(ConstValue::Int(x)) && x == -a - 1,
        eval_prefix_spec(Operator::Bang, ConstValue::Bool(p)) == Some(ConstValue::Bool(!p)),
        eval_prefix_spec(Operator::KwNot, ConstValue::Bool(p)) == Some(ConstValue::Bool(!p)),
        eval_prefix_spec(Operator::KwNot, ConstValue::Int(a)) is None,
        eval_prefix_spec(Operator::Plus, ConstValue::Bool(p)) is None,
        eval_prefix_spec(Operator::Minus, ConstValue::Bool(p)) is None,
{
    assert(!a == -a - 1) by (bit_vector);
}

/// Integer arithmetic on constants is the arithmetic of the integers where the result fits:
/// `+` and `*` do not depend on the order of the operands.
pub proof fn law_int_arithmetic(a: i64, b: i64)
    ensures
        eval_infix_spec(Operator::Plus, ConstValue::Int(a), ConstValue::Int(b))
            == eval_infix_spec(Operator::Plus, ConstValue::Int(b), ConstValue::Int(a)),
        eval_infix_spec(Operator::Star, ConstValue::Int(a), ConstValue::Int(b))
            == eval_infix_spec(Operator::Star, ConstValue::Int(b), ConstValue::Int(a)),
        i64::MIN <= a + b <= i64::MAX ==>
            eval_infix_spec(Operator::Plus, ConstValue::Int(a), ConstValue::Int(b)) == Some(ConstValue::Int((a + b) as i64)),
        i64::MIN <= a - b <= i64::MAX ==>
            eval_infix_spec(Operator::Minus, ConstValue::Int(a), ConstValue::Int(b)) == Some(ConstValue::Int((a - b) as i64)),
        i64::MIN <= a * b <= i64::MAX ==>
            eval_infix_spec(Operator::Star, ConstValue::Int(a), ConstValue::Int(b)) == Some(ConstValue::Int((a * b) as i64)),
{
    assert(a * b == b * a) by (nonlinear_arith);
}

/// Integer equality on constants is the equality of the integers, and `!=` answers as `==`
/// does on integers.
pub proof fn law_int_equality(a: i64, b: i64)
    ensures
        eval_infix_spec(Operator::Eq, ConstValue::Int(a), ConstValue::Int(b)) == Some(ConstValue::Bool(a == b)),
        eval_infix_spec(Operator::Eq, ConstValue::Int(a), ConstValue::Int(b))
            == eval_infix_spec(Operator::Eq, ConstValue::Int(b), ConstValue::Int(a)),
        eval_infix_spec(Operator::Eq, ConstValue::Int(a), ConstValue::Int(a)) == Some(ConstValue::Bool(true)),
        eval_infix_spec(Operator::Ne, ConstValue::Int(a), ConstValue::Int(b))
            == eval_infix_spec(Operator::Eq, ConstValue::Int(a), ConstValue::Int(b)),
{
}

/// On boolean constants `|` and `or` are disjunction, `&` and `and` conjunction, and `^` and
/// `xor` are true exactly when the operands differ.
pub proof fn law_bool_logic(a: bool, b: bool)
    ensures
        eval_infix_spec(Operator::Pipe, ConstValue::Bool(a), ConstValue::Bool(b)) == Some(ConstValue::Bool(a || b)),
        eval_infix_spec(Operator::KwOr, ConstValue::Bool(a), ConstValue::Bool(b)) == Some(ConstValue::Bool(a || b)),
        eval_infix_spec(Operator::Ampersand, ConstValue::Bool(a), ConstValue::Bool(b)) == Some(ConstValue::Bool(a && b)),
        eval_infix_spec(Operator::KwAnd, ConstValue::Bool(a), ConstValue::Bool(b)) == Some(ConstValue::Bool(a && b)),
        eval_infix_spec(Operator::Caret, ConstValue::Bool(a), ConstValue::Bool(b)) == Some(ConstValue::Bool(a != b)),
        eval_infix_spec(Operator::KwXor, ConstValue::Bool(a), ConstValue::Bool(b)) == Some(ConstValue::Bool(a != b)),
        eval_infix_spec(Operator::Gt, ConstValue::Bool(a), ConstValue::Bool(b)) is None,
{
}

/// Integer division on constants rounds toward zero: where the divisor is not zero and the
/// quotient fits, `/` and `%` split `a` into `b * (a / b) + a % b`, the remainder smaller
/// than the divisor in size and either zero or of the sign of `a`.
pub proof fn law_i64_division(a: i64, b: i64)
    requires
        b != 0,
        !(a == i64::MIN && b == -1),
    ensures
        eval_infix_spec(Operator::Slash, ConstValue::Int(a), ConstValue::Int(b)) matches Some(ConstValue::Int(q))
            && eval_infix_spec(Operator::Modulo, ConstValue::Int(a), ConstValue::Int(b)) matches Some(ConstValue::Int(r))
            && a == b * q + r
            && (if r < 0 { -r } else { r as int }) < (if b < 0 { -b } else { b as int })
            && (r == 0 || ((r < 0) == (a < 0))),
{
    lemma_div_defined(a, b);
    let x = a as int;
    let d = b as int;
    let q = a.checked_div(b)->Some_0 as int;
    let r = a.checked_rem(b)->Some_0 as int;
    if x > 0 && d > 0 {
        assert(q == x / d && r == x % d);
        assert(x == d * (x / d) + x % d && 0 <= x % d < d) by (nonlinear_arith) requires d > 0;
        assert(x == d * q + r);
    } else if x < 0 && d < 0 {
        let p = -x;
        let e = -d;
        assert(q == p / e && r == -(p % e));
        assert(p == e * (p / e) + p % e && 0 <= p % e < e) by (nonlinear_arith) requires e > 0;
        assert(x == d * q + r) by (nonlinear_arith)
            requires p == e * (p / e) + p % e, p == -x, e == -d, q == p / e, r == -(p % e);
    } else if x < 0 {
        let p = -x;
        assert(q == -(p / d) && r == -(p % d));
        assert(p == d * (p / d) + p % d && 0 <= p % d < d) by (nonlinear_arith) requires d > 0;
        assert(x == d * q + r) by (nonlinear_arith)
            requires p == d * (p / d) + p % d, p == -x, q == -(p / d), r == -(p % d);
    } else if x > 0 {
        let e = -d;
        assert(q == -(x / e) && r == x % e);
        assert(x == e * (x / e) + x % e && 0 <= x % e < e) by (nonlinear_arith) requires e > 0;
        assert(x == d * q + r) by (nonlinear_arith)
            requires x == e * (x / e) + x % e, e == -d, q == -(x / e), r == x % e;
    } else {
        assert(q == 0 && r == 0);
        assert(d * q == 0) by (nonlinear_arith) requires q == 0;
    }
}

/// The value of `op operand`, `None` where the operator does not apply.
pub open spec fn eval_prefix_spec(op: Operator, operand: ConstValue) -> Option<ConstValue> {
    match (op, operand) {
        (Operator::Plus, ConstValue::Int(o)) => Some(ConstValue::Int(o)),
        (Operator::Minus, ConstValue::Int(o)) => Some(ConstValue::Int((-o) as i64)),
        (Operator::Bang, ConstValue::Int(o)) => Some(ConstValue::Int(!o)),
        (Operator::Bang, ConstValue::Bool(o)) => Some(ConstValue::Bool(!o)),
        (Operator::KwNot, ConstValue::Bool(o)) => Some(ConstValue::Bool(!o)),
        _ => None,
    }
}

fn compare_tuples_eq(l: &[ConstValue], r: &[ConstValue]) -> (res: Option<bool>)
    ensures
        res == tuples_eq(l@, r@),
    decreases l@,
{
    let mut i: usize = 0;
    assert(l@.subrange(0, l@.len() as int) =~= l@);
    assert(r@.subrange(0, r@.len() as int) =~= r@);
    while i < l.len() && i < r.len()
        invariant
            i <= l@.len(),
            i <= r@.len(),
            tuples_eq(l@, r@) == tuples_eq(l@.subrange(i as int, l@.len() as int), r@.subrange(i as int, r@.len() as int)),
        decreases l.len() - i,
    {
        let ghost ls = l@.subrange(i as int, l@.len() as int);
        let ghost rs = r@.subrange(i as int, r@.len() as int);
        assert(ls[0] == l@[i as int]);
        assert(rs[0] == r@[i as int]);
        assert(ls.drop_first() =~= l@.subrange(i + 1, l@.len() as int));
        assert(rs.drop_first() =~= r@.subrange(i + 1, r@.len() as int));
        match (&l[i], &r[i]) {
            (ConstValue::Int(a), ConstValue::Int(b)) => {
                if *a != *b {
                    return Some(false);
                }
            },
            (ConstValue::Nil, ConstValue::Nil) => {},
            (ConstValue::Tuple(a), ConstValue::Tuple(b)) => {
                assert(decreases_to!(l@ => a@)) by {
                    assert(decreases_to!(l@ => l@[i as int]));
                };
                match compare_tuples_eq(a.as_slice(), b.as_slice()) {
                    None => return None,
                    Some(false) => return Some(false),
                    Some(true) => {},
                }
            },
            _ => return None,
        }
        i += 1;
    }
    Some(true)
}

fn compare_tuples_ne(l: &[ConstValue], r: &[ConstValue]) -> (res: Option<bool>)
    ensures
        res == tuples_ne(l@, r@),
    decreases l@,
{
    let mut i: usize = 0;
    assert(l@.subrange(0, l@.len() as int) =~= l@);
    assert(r@.subrange(0, r@.len() as int) =~= r@);
    while i < l.len() && i < r.len()
        invariant
            i <= l@.len(),
            i <= r@.len(),
            tuples_ne(l@, r@) == tuples_ne(l@.subrange(i as int, l@.len() as int), r@.subrange(i as int, r@.len() as int)),
        decreases l.len() - i,
    {
        let ghost ls = l@.subrange(i as int, l@.len() as int);
        let ghost rs = r@.subrange(i as int, r@.len() as int);
        assert(ls[0] == l@[i as int]);
        assert(rs[0] == r@[i as int]);
        assert(ls.drop_first() =~= l@.subrange(i + 1, l@.len() as int));
        assert(rs.drop_first() =~= r@.subrange(i + 1, r@.len() as int));
        match (&l[i], &r[i]) {
            (ConstValue::Int(a), ConstValue::Int(b)) => {
                if *a != *b {
                    return Some(true);
                }
            },
            (ConstValue::Nil, ConstValue::Nil) => {},
            (ConstValue::Tuple(a), ConstValue::Tuple(b)) => {
                assert(decreases_to!(l@ => a@)) by {
                    assert(decreases_to!(l@ => l@[i as int]));
                };
                match compare_tuples_ne(a.as_slice(), b.as_slice()) {
                    None => return None,
                    Some(true) => return Some(true),
                    Some(false) => {},
                }
            },
            _ => return None,
        }
        i += 1;
    }
    Some(false)
}

proof fn lemma_div_defined(a: i64, b: i64)
    requires
        b != 0,
        !(a == i64::MIN && b == -1),
    ensures
        a.checked_div(b) is Some,
        a.checked_rem(b) is Some,
{
    let x = a as int;
    let d = b as int;
    if x > 0 && d > 0 {
        assert(0 <= x / d <= x) by (nonlinear_arith) requires x > 0, d > 0;
        assert(0 <= x % d < d) by (nonlinear_arith) requires x > 0, d > 0;
    } else if x < 0 && d < 0 {
        let p = -x;
        let q = -d;
        assert(0 <= p / q <= p) by (nonlinear_arith) requires p > 0, q > 0;
        assert(q >= 2 ==> p / q <= p / 2) by (nonlinear_arith) requires p > 0, q > 0;
        assert(0 <= p % q < q) by (nonlinear_arith) requires p > 0, q > 0;
    } else if x < 0 {
        let p = -x;
        assert(0 <= p / d <= p) by (nonlinear_arith) requires p > 0, d > 0;
        assert(0 <= p % d < d) by (nonlinear_arith) requires p > 0, d > 0;
    } else if x > 0 {
        let q = -d;
        assert(0 <= x / q <= x) by (nonlinear_arith) requires x > 0, q > 0;
        assert(0 <= x % q < q) by (nonlinear_arith) requires x > 0, q > 0;
    }
}

impl Operator {
    /// The value of `lhs self rhs` for constant operands; `None` where the operator does not
    /// apply to them.
    pub fn eval_infix(&self, lhs: &ConstValue, rhs: &ConstValue) -> (r: Option<ConstValue>)
        requires
            infix_defined(*self, *lhs, *rhs),
        ensures
            r == eval_infix_spec(*self, *lhs, *rhs),
    {
        match (lhs, rhs) {
            (ConstValue::Int(a), ConstValue::Int(b)) => {
                let (a, b) = (*a, *b);
                proof {
                    if b != 0 && !(a == i64::MIN && b == -1) {
                        lemma_div_defined(a, b);
                    }
                }
                match self {
                    Operator::Plus => Some(ConstValue::Int(a + b)),
                    Operator::Minus => Some(ConstValue::Int(a - b)),
                    Operator::Star => Some(ConstValue::Int(a * b)),
                    Operator::Slash => Some(ConstValue::Int(a.checked_div(b).unwrap())),
                    Operator::Modulo => Some(ConstValue::Int(a.checked_rem(b).unwrap())),
                    Operator::Eq | Operator::Ne => Some(ConstValue::Bool(a == b)),
                    Operator::Gt => Some(ConstValue::Bool(a > b)),
                    Operator::Lt => Some(ConstValue::Bool(a < b)),
                    Operator::Ge => Some(ConstValue::Bool(a >= b)),
                    Operator::Le => Some(ConstValue::Bool(a <= b)),
                    Operator::Pipe => Some(ConstValue::Int(a | b)),
                    Operator::Ampersand => Some(ConstValue::Int(a & b)),
                    Operator::Caret => Some(ConstValue::Int(a ^ b)),
                    _ => None,
                }
            },
            (ConstValue::Bool(a), ConstValue::Bool(b)) => {
                let (a, b) = (*a, *b);
                match self {
                    Operator::Pipe | Operator::KwOr => Some(ConstValue::Bool(a || b)),
                    Operator::Ampersand | Operator::KwAnd => Some(ConstValue::Bool(a && b)),
                    Operator::Caret | Operator::KwXor => Some(ConstValue::Bool(a != b)),
                    _ => None,
                }
            },
            (ConstValue::Nil, ConstValue::Nil) => match self {
                Operator::Eq | Operator::Ne => Some(ConstValue::Bool(true)),
                _ => None,
            },
            (ConstValue::Tuple(a), ConstValue::Tuple(b)) => match self {
                Operator::Eq => match compare_tuples_eq(a.as_slice(), b.as_slice()) {
                    Some(v) => Some(ConstValue::Bool(v)),
                    None => None,
                },
                Operator::Ne => match compare_tuples_ne(a.as_slice(), b.as_slice()) {
                    Some(v) => Some(ConstValue::Bool(v)),
                    None => None,
                },
                _ => None,
            },
            _ => None,
        }
    }

    /// The value of `self operand` for a constant operand; `None` where the operator does not
    /// apply to it.
    pub fn eval_prefix(&self, operand: &ConstValue) -> (r: Option<ConstValue>)
        requires
            (*self == Operator::Minus && operand is Int) ==> operand->Int_0 != i64::MIN,
        ensures
            r == eval_prefix_spec(*self, *operand),
    {
        match (self, operand) {
            (Operator::Plus, ConstValue::Int(o)) => Some(ConstValue::Int(*o)),
            (Operator::Minus, ConstValue::Int(o)) => Some(ConstValue::Int(-*o)),
            (Operator::Bang, ConstValue::Int(o)) => Some(ConstValue::Int(!*o)),
            (Operator::Bang, ConstValue::Bool(o)) => Some(ConstValue::Bool(!*o)),
            (Operator::KwNot, ConstValue::Bool(o)) => Some(ConstValue::Bool(!*o)),
            _ => None,
        }
    }
}

// ---------------------------------------------------------------------------------------------
// Symbol maps
// ---------------------------------------------------------------------------------------------

broadcast use vstd::std_specs::hash::group_hash_axioms;

/// The names defined in one scope, keyed by the index of their symbol: each with its type and
/// where it was defined, and the value of those that are constants.
#[derive(Debug)]
pub struct SymbolMap {
    types: HashMap<usize, TypeId>,
    constants: HashMap<usize, ConstValue>,
    defined_at: HashMap<usize, Span>,
    ctx: ScopeContext,
    names: Vec<usize>,
}

/// The mathematical value of a [`SymbolMap`].
pub struct SymbolMapV {
    pub types: Map<usize, TypeId>,
    pub constants: Map<usize, ConstValue>,
    pub defined_at: Map<usize, Span>,
    pub ctx: ScopeContext,
}

impl View for SymbolMap {
    type V = SymbolMapV;

    closed spec fn view(&self) -> SymbolMapV {
        SymbolMapV { types: self.types@, constants: self.constants@, defined_at: self.defined_at@, ctx: self.ctx }
    }
}

impl SymbolMap {
    /// Every name with a type has a place of definition, and `names` lists the names with a
    /// type, each once.
    pub closed spec fn wf(&self) -> bool {
        &&& self.types@.dom().subset_of(self.defined_at@.dom())
        &&& forall|i: int| 0 <= i < self.names@.len() ==> self.types@.contains_key(#[trigger] self.names@[i])
        &&& forall|k: usize| self.types@.contains_key(k) ==> #[trigger] self.names@.contains(k)
    }

    fn note_name(&mut self, name: usize)
        requires
            forall|i: int| 0 <= i < old(self).names@.len() ==> old(self).types@.contains_key(#[trigger] old(self).names@[i]),
            forall|k: usize| old(self).types@.contains_key(k) ==> #[trigger] old(self).names@.contains(k),
        ensures
            final(self).types == old(self).types,
            final(self).constants == old(self).constants,
            final(self).defined_at == old(self).defined_at,
            final(self).ctx == old(self).ctx,
            forall|i: int| 0 <= i < final(self).names@.len() ==>
                old(self).types@.insert(name, TypeId(0)).contains_key(#[trigger] final(self).names@[i]),
            forall|k: usize| old(self).types@.contains_key(k) || k == name ==> #[trigger] final(self).names@.contains(k),
    {
        if !self.types.contains_key(&name) {
            self.names.push(name);
            assert(self.names@.last() == name);
            assert forall|k: usize| old(self).types@.contains_key(k) || k == name implies #[trigger] self.names@.contains(k) by {
                if k == name {
                    assert(self.names@[self.names@.len() - 1] == name);
                } else {
                    assert(old(self).names@.contains(k));
                    let j = choose|j: int| 0 <= j < old(self).names@.len() && old(self).names@[j] == k;
                    assert(self.names@[j] == k);
                }
            }
        } else {
            assert forall|k: usize| old(self).types@.contains_key(k) || k == name implies #[trigger] self.names@.contains(k) by {
                assert(old(self).types@.contains_key(k));
            }
        }
    }

    pub fn new(ctx: ScopeContext) -> (r: SymbolMap)
        ensures
            r.wf(),
            r@ == (SymbolMapV { types: Map::empty(), constants: Map::empty(), defined_at: Map::empty(), ctx }),
    {
        SymbolMap { types: HashMap::new(), constants: HashMap::new(), defined_at: HashMap::new(), ctx, names: Vec::new() }
    }

    pub fn is_loop(&self) -> (r: bool)
        ensures
            r == (self@.ctx == ScopeContext::Loop),
    {
        matches!(self.ctx, ScopeContext::Loop)
    }

    /// Forgets every name.
    pub fn clear(&mut self)
        ensures
            final(self).wf(),
            final(self)@ == (SymbolMapV { types: Map::empty(), constants: Map::empty(), defined_at: Map::empty(), ..old(self)@ }),
    {
        self.types.clear();
        self.constants.clear();
        self.defined_at.clear();
        self.names.clear();
    }

    /// Defines `name` with type `ty`, defined at `defined_at`. A constant value it had stays.
    pub fn define_symbol(&mut self, name: Sym, ty: TypeId, defined_at: Span)
        requires
            old(self).wf(),
        ensures
            final(self).wf(),
            final(self)@ == (SymbolMapV {
                types: old(self)@.types.insert(name.0, ty),
                defined_at: old(self)@.defined_at.insert(name.0, defined_at),
                ..old(self)@
            }),
    {
        self.note_name(name.0);
        self.types.insert(name.0, ty);
        self.defined_at.insert(name.0, defined_at);
    }

    /// Defines the constant `name` of type `ty` with value `val`, defined at `defined_at`.
    pub fn define_constant(&mut self, name: Sym, ty: TypeId, val: ConstValue, defined_at: Span)
        requires
            old(self).wf(),
        ensures
            final(self).wf(),
            final(self)@ == (SymbolMapV {
                types: old(self)@.types.insert(name.0, ty),
                constants: old(self)@.constants.insert(name.0, val),
                defined_at: old(self)@.defined_at.insert(name.0, defined_at),
                ..old(self)@
            }),
    {
        self.note_name(name.0);
        self.types.insert(name.0, ty);
        self.constants.insert(name.0, val);
        self.defined_at.insert(name.0, defined_at);
    }

    /// The type of `name`, its value if it is a constant, and where it was defined.
    pub fn find_symbol(&self, name: &Sym) -> (r: Option<(&TypeId, Option<&ConstValue>, &Span)>)
        requires
            self.wf(),
        ensures
            match r {
                Some((t, v, s)) => {
                    &&& self@.types.contains_key(name.0)
                    &&& *t == self@.types[name.0]
                    &&& *s == self@.defined_at[name.0]
                    &&& match v {
                        Some(c) => self@.constants.contains_key(name.0) && *c == self@.constants[name.0],
                        None => !self@.constants.contains_key(name.0),
                    }
                },
                None => !self@.types.contains_key(name.0),
            },
    {
        match self.types.get(&name.0) {
            Some(t) => Some((t, self.constants.get(&name.0), self.defined_at.get(&name.0).unwrap())),
            None => None,
        }
    }

    /// The names defined, for suggesting a name close to a misspelt one.
    pub fn names(&self) -> (r: Vec<Sym>)
        requires
            self.wf(),
        ensures
            forall|i: int| 0 <= i < r@.len() ==> self@.types.contains_key((#[trigger] r@[i]).0),
            forall|k: usize| self@.types.contains_key(k) ==> #[trigger] r@.contains(Sym(k)),
    {
        let mut r: Vec<Sym> = Vec::new();
        let mut i: usize = 0;
        while i < self.names.len()
            invariant
                i <= self.names@.len(),
                r@.len() == i,
                forall|j: int| 0 <= j < i ==> (#[trigger] r@[j]) == Sym(self.names@[j]),
            decreases self.names.len() - i,
        {
            r.push(Sym(self.names[i]));
            i += 1;
        }
        assert forall|k: usize| self@.types.contains_key(k) implies #[trigger] r@.contains(Sym(k)) by {
            assert(self.names@.contains(k));
            let j = choose|j: int| 0 <= j < self.names@.len() && self.names@[j] == k;
            assert(r@[j] == Sym(k));
        }
        r
    }
}

} // verus!
