//! Evaluation of infix operators on constant integers and booleans.

use vstd::prelude::*;
use super::operator::Operator;
use crate::sema::constants::{ConstV, ConstValue, const_view};
use crate::sema::constants::bigint::{
    BigInt, int_bitand, int_bitor, int_bitxor, bit_and, bit_or, bit_xor, difference, equal, less, product,
    quotient, remainder, sum, trunc_div, trunc_rem,
};

verus! {

pub open spec fn opt_const(r: Option<ConstValue>) -> Option<ConstV> {
    match r {
        Some(c) => Some(const_view(c)),
        None => None,
    }
}

/// The value of `a op b` on integers; `None` for the operators that do not apply to them.
pub open spec fn eval_int_spec(op: Operator, a: int, b: int) -> Option<ConstV> {
    match op {
        Operator::Plus => Some(ConstV::Int(a + b)),
        Operator::Minus => Some(ConstV::Int(a - b)),
        Operator::Star => Some(ConstV::Int(a * b)),
        Operator::Slash => Some(ConstV::Int(trunc_div(a, b))),
        Operator::Modulo => Some(ConstV::Int(trunc_rem(a, b))),
        Operator::Eq => Some(ConstV::Bool(a == b)),
        Operator::Ne => Some(ConstV::Bool(a != b)),
        Operator::Gt => Some(ConstV::Bool(a > b)),
        Operator::Lt => Some(ConstV::Bool(a < b)),
        Operator::Ge => Some(ConstV::Bool(a >= b)),
        Operator::Le => Some(ConstV::Bool(a <= b)),
        Operator::Pipe => Some(ConstV::Int(int_bitor(a, b))),
        Operator::Ampersand => Some(ConstV::Int(int_bitand(a, b))),
        Operator::Caret => Some(ConstV::Int(int_bitxor(a, b))),
        _ => None,
    }
}

/// The value of `a op b` on booleans; `None` for the operators that do not apply to them.
pub open spec fn eval_bool_spec(op: Operator, a: bool, b: bool) -> Option<ConstV> {
    match op {
        Operator::Pipe | Operator::KwOr => Some(ConstV::Bool(a || b)),
        Operator::Ampersand | Operator::KwAnd => Some(ConstV::Bool(a && b)),
        Operator::Caret | Operator::KwXor => Some(ConstV::Bool(a != b)),
        _ => None,
    }
}

/// `lhs op rhs` on constant integers. Dividing by zero panics.
pub fn eval_int(op: &Operator, lhs: &BigInt, rhs: &BigInt) -> (r: Option<ConstValue>)
    requires
        (*op == Operator::Slash || *op == Operator::Modulo) ==> rhs.value() != 0,
    ensures
        opt_const(r) == eval_int_spec(*op, lhs.value(), rhs.value()),
{
    match op {
        Operator::Plus => Some(ConstValue::Int(sum(lhs, rhs))),
        Operator::Minus => Some(ConstValue::Int(difference(lhs, rhs))),
        Operator::Star => Some(ConstValue::Int(product(lhs, rhs))),
        Operator::Slash => Some(ConstValue::Int(quotient(lhs, rhs))),
        Operator::Modulo => Some(ConstValue::Int(remainder(lhs, rhs))),
        Operator::Eq => Some(ConstValue::Bool(equal(lhs, rhs))),
        Operator::Ne => Some(ConstValue::Bool(!equal(lhs, rhs))),
        Operator::Gt => Some(ConstValue::Bool(less(rhs, lhs))),
        Operator::Lt => Some(ConstValue::Bool(less(lhs, rhs))),
        Operator::Ge => Some(ConstValue::Bool(!less(lhs, rhs))),
        Operator::Le => Some(ConstValue::Bool(!less(rhs, lhs))),
        Operator::Pipe => Some(ConstValue::Int(bit_or(lhs, rhs))),
        Operator::Ampersand => Some(ConstValue::Int(bit_and(lhs, rhs))),
        Operator::Caret => Some(ConstValue::Int(bit_xor(lhs, rhs))),
        _ => None,
    }
}

/// `lhs op rhs` on constant booleans.
pub fn eval_bool(op: &Operator, lhs: &bool, rhs: &bool) -> (r: Option<ConstValue>)
    ensures
        opt_const(r) == eval_bool_spec(*op, *lhs, *rhs),
{
    match op {
        Operator::Pipe | Operator::KwOr => Some(ConstValue::Bool(*lhs || *rhs)),
        Operator::Ampersand | Operator::KwAnd => Some(ConstValue::Bool(*lhs && *rhs)),
        Operator::Caret | Operator::KwXor => Some(ConstValue::Bool(*lhs != *rhs)),
        _ => None,
    }
}

/// On integers the comparisons give the order and equality of the integers: `>` is strict and
/// `>=` is not, swapping the operands turns `>` into `<` and `>=` into `<=`, and `!=` is the
/// negation of `==`. `+` and `*` do not depend on the order of the operands, and `a - b` is
/// `a + (-b)`.
pub proof fn law_int_operators(a: int, b: int)
    ensures
        eval_int_spec(Operator::Gt, a, b) == Some(ConstV::Bool(a > b)),
        eval_int_spec(Operator::Lt, a, b) == Some(ConstV::Bool(a < b)),
        eval_int_spec(Operator::Ge, a, b) == Some(ConstV::Bool(a >= b)),
        eval_int_spec(Operator::Le, a, b) == Some(ConstV::Bool(a <= b)),
        eval_int_spec(Operator::Gt, a, b) == eval_int_spec(Operator::Lt, b, a),
        eval_int_spec(Operator::Ge, a, b) == eval_int_spec(Operator::Le, b, a),
        eval_int_spec(Operator::Gt, a, a) == Some(ConstV::Bool(false)),
        eval_int_spec(Operator::Ge, a, a) == Some(ConstV::Bool(true)),
        eval_int_spec(Operator::Eq, a, b) == Some(ConstV::Bool(a == b)),
        eval_int_spec(Operator::Ne, a, b) == Some(ConstV::Bool(!(a == b))),
        eval_int_spec(Operator::Plus, a, b) == Some(ConstV::Int(a + b)),
        eval_int_spec(Operator::Plus, a, b) == eval_int_spec(Operator::Plus, b, a),
        eval_int_spec(Operator::Star, a, b) == eval_int_spec(Operator::Star, b, a),
        eval_int_spec(Operator::Minus, a, b) == eval_int_spec(Operator::Plus, a, -b),
{
    assert(a * b == b * a) by (nonlinear_arith);
}

/// On booleans `|` and `or` are disjunction, `&` and `and` conjunction, `^` and `xor` are
/// true exactly when the operands differ.
pub proof fn law_bool_operators(a: bool, b: bool)
    ensures
        eval_bool_spec(Operator::Pipe, a, b) == Some(ConstV::Bool(a || b)),
        eval_bool_spec(Operator::KwOr, a, b) == eval_bool_spec(Operator::Pipe, a, b),
        eval_bool_spec(Operator::Ampersand, a, b) == Some(ConstV::Bool(a && b)),
        eval_bool_spec(Operator::KwAnd, a, b) == eval_bool_spec(Operator::Ampersand, a, b),
        eval_bool_spec(Operator::Caret, a, b) == Some(ConstV::Bool(a != b)),
        eval_bool_spec(Operator::KwXor, a, b) == eval_bool_spec(Operator::Caret, a, b),
{
}

/// Integer division rounds toward zero: where the divisor is not zero, `/` and `%` split `a`
/// into `b * (a / b) + a % b`, the remainder smaller than the divisor in size and either zero
/// or of the sign of `a`.
pub proof fn law_int_division(a: int, b: int)
    requires
        b != 0,
    ensures
        eval_int_spec(Operator::Slash, a, b) matches Some(ConstV::Int(q))
            && eval_int_spec(Operator::Modulo, a, b) matches Some(ConstV::Int(r))
            && a == b * q + r
            && (if r < 0 { -r } else { r }) < (if b < 0 { -b } else { b })
            && (r == 0 || ((r < 0) == (a < 0))),
{
    let aa = if a < 0 { -a } else { a };
    let bb = if b < 0 { -b } else { b };
    let qq = aa / bb;
    let rr = aa % bb;
    assert(aa == bb * qq + rr && 0 <= rr < bb) by (nonlinear_arith)
        requires aa >= 0, bb > 0, qq == aa / bb, rr == aa % bb;
    let q = trunc_div(a, b);
    let r = trunc_rem(a, b);
    assert(r == (if a < 0 { -rr } else { rr })) by (nonlinear_arith)
        requires
            aa == (if a < 0 { -a } else { a }),
            bb == (if b < 0 { -b } else { b }),
            aa == bb * qq + rr,
            q == (if (a < 0) != (b < 0) { -qq } else { qq }),
            r == a - b * q;
}

} // verus!
