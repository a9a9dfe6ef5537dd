//! Integers of any size, held as a sign and base-2^32 digits; the arithmetic is done by
//! `num_bigint`.

use vstd::prelude::*;
use num_bigint::Sign;
use std::str::FromStr;

verus! {

/// An integer: its sign and its magnitude as base-2^32 digits, least significant first.
#[derive(Debug, Clone, PartialEq, Eq)]
pub struct BigInt {
    pub negative: bool,
    pub digits: Vec<u32>,
}

/// The number that base-2^32 digits, least significant first, stand for.
pub open spec fn digits_value(d: Seq<u32>) -> nat
    decreases d.len(),
{
    if d.len() == 0 { 0 } else { (d[0] + 0x1_0000_0000 * digits_value(d.drop_first())) as nat }
}

impl BigInt {
    /// The integer it stands for.
    pub open spec fn value(&self) -> int {
        if self.negative { -(digits_value(self.digits@) as int) } else { digits_value(self.digits@) as int }
    }

    /// No leading zero digit, and zero is not negative.
    pub open spec fn wf(&self) -> bool {
        &&& (self.digits@.len() == 0 || self.digits@.last() != 0)
        &&& (self.negative ==> self.digits@.len() > 0)
    }
}

/// Whether `s` is a nonempty run of ASCII decimal digits.
pub open spec fn is_decimal(s: Seq<char>) -> bool {
    s.len() > 0 && forall|i: int| 0 <= i < s.len() ==> '0' <= #[trigger] s[i] <= '9'
}

/// The number that a run of decimal digits stands for.
pub open spec fn decimal_value(s: Seq<char>) -> nat
    decreases s.len(),
{
    if s.len() == 0 { 0 } else { (10 * decimal_value(s.drop_last()) + ((s.last() as int) - ('0' as int))) as nat }
}

/// Quotient of `a / b` rounded toward zero.
pub open spec fn trunc_div(a: int, b: int) -> int {
    let q = (if a < 0 { -a } else { a }) / (if b < 0 { -b } else { b });
    if (a < 0) != (b < 0) { -q } else { q }
}

/// Remainder of `a / b` with the sign of `a`.
pub open spec fn trunc_rem(a: int, b: int) -> int {
    a - b * trunc_div(a, b)
}

/// What `num_bigint::BigInt::from_str` makes of a text: the number, or the error message.
pub uninterp spec fn parsed_decimal(s: Seq<char>) -> Result<int, Seq<char>>;

/// The size of an integer, which halving brings down until it is 0 or -1.
pub open spec fn size(a: int) -> nat {
    if a < 0 { (-a) as nat } else { a as nat }
}

/// Whether `a` has every bit equal (0 or -1 in two's complement).
pub open spec fn uniform(a: int) -> bool {
    a == 0 || a == -1
}

/// Halving an integer does not make it larger, and makes it smaller unless it is 0 or -1.
pub proof fn lemma_halve(a: int)
    ensures
        size(a / 2) <= size(a),
        !uniform(a) ==> size(a / 2) < size(a),
        uniform(a) ==> a / 2 == a,
{
}

/// `a | b` in two's complement, bit by bit from the lowest (`num_bigint`'s `BitOr`).
pub open spec fn int_bitor(a: int, b: int) -> int
    decreases size(a) + size(b),
{
    if uniform(a) && uniform(b) {
        if a == -1 || b == -1 { -1 } else { 0 }
    } else {
        proof { lemma_halve(a); lemma_halve(b); }
        2 * int_bitor(a / 2, b / 2) + (if a % 2 == 1 || b % 2 == 1 { 1int } else { 0 })
    }
}

/// `a & b` in two's complement, bit by bit from the lowest (`num_bigint`'s `BitAnd`).
pub open spec fn int_bitand(a: int, b: int) -> int
    decreases size(a) + size(b),
{
    if uniform(a) && uniform(b) {
        if a == -1 && b == -1 { -1 } else { 0 }
    } else {
        proof { lemma_halve(a); lemma_halve(b); }
        2 * int_bitand(a / 2, b / 2) + (if a % 2 == 1 && b % 2 == 1 { 1int } else { 0 })
    }
}

/// `a ^ b` in two's complement, bit by bit from the lowest (`num_bigint`'s `BitXor`).
pub open spec fn int_bitxor(a: int, b: int) -> int
    decreases size(a) + size(b),
{
    if uniform(a) && uniform(b) {
        if (a == -1) != (b == -1) { -1 } else { 0 }
    } else {
        proof { lemma_halve(a); lemma_halve(b); }
        2 * int_bitxor(a / 2, b / 2) + (if (a % 2 == 1) != (b % 2 == 1) { 1int } else { 0 })
    }
}

/// `num_bigint::BigInt::from_str` (`from_str_radix` with radix 10). A nonempty run of
/// decimal digits gives its number. Other text may be accepted (a sign, underscores between
/// digits) or refused with "cannot parse integer from empty string" or "invalid digit found
/// in string"; which, this contract does not say.
#[verifier::external_body]
pub(crate) fn parse_decimal(s: &str) -> (r: Result<BigInt, String>)
    ensures
        is_decimal(s@) ==> r is Ok && r->Ok_0.value() == decimal_value(s@),
        r is Ok == parsed_decimal(s@) is Ok,
        r is Ok ==> r->Ok_0.wf() && parsed_decimal(s@) == Ok::<int, Seq<char>>(r->Ok_0.value()),
        r is Err ==> parsed_decimal(s@) == Err::<int, Seq<char>>(r->Err_0@),
        r is Err ==> r->Err_0@ == "cannot parse integer from empty string"@ || r->Err_0@ == "invalid digit found in string"@,
{
    match num_bigint::BigInt::from_str(s) {
        Ok(n) => {
            let (sign, digits) = n.to_u32_digits();
            Ok(BigInt { negative: sign == Sign::Minus, digits })
        },
        Err(e) => Err(e.to_string()),
    }
}

/// `a + b` on `num_bigint::BigInt`.
#[verifier::external_body]
pub(crate) fn sum(a: &BigInt, b: &BigInt) -> (r: BigInt)
    ensures
        r.wf(),
        r.value() == a.value() + b.value(),
{
    let x = num_bigint::BigInt::from_slice(if a.negative { Sign::Minus } else { Sign::Plus }, &a.digits);
    let y = num_bigint::BigInt::from_slice(if b.negative { Sign::Minus } else { Sign::Plus }, &b.digits);
    let (sign, digits) = (x + y).to_u32_digits();
    BigInt { negative: sign == Sign::Minus, digits }
}

/// `a - b` on `num_bigint::BigInt`.
#[verifier::external_body]
pub(crate) fn difference(a: &BigInt, b: &BigInt) -> (r: BigInt)
    ensures
        r.wf(),
        r.value() == a.value() - b.value(),
{
    let x = num_bigint::BigInt::from_slice(if a.negative { Sign::Minus } else { Sign::Plus }, &a.digits);
    let y = num_bigint::BigInt::from_slice(if b.negative { Sign::Minus } else { Sign::Plus }, &b.digits);
    let (sign, digits) = (x - y).to_u32_digits();
    BigInt { negative: sign == Sign::Minus, digits }
}

/// `a * b` on `num_bigint::BigInt`.
#[verifier::external_body]
pub(crate) fn product(a: &BigInt, b: &BigInt) -> (r: BigInt)
    ensures
        r.wf(),
        r.value() == a.value() * b.value(),
{
    let x = num_bigint::BigInt::from_slice(if a.negative { Sign::Minus } else { Sign::Plus }, &a.digits);
    let y = num_bigint::BigInt::from_slice(if b.negative { Sign::Minus } else { Sign::Plus }, &b.digits);
    let (sign, digits) = (x * y).to_u32_digits();
    BigInt { negative: sign == Sign::Minus, digits }
}

/// `a / b` on `num_bigint::BigInt`: the quotient rounded toward zero (`div_rem`). A zero
/// divisor panics.
#[verifier::external_body]
pub(crate) fn quotient(a: &BigInt, b: &BigInt) -> (r: BigInt)
    requires
        b.value() != 0,
    ensures
        r.wf(),
        r.value() == trunc_div(a.value(), b.value()),
{
    let x = num_bigint::BigInt::from_slice(if a.negative { Sign::Minus } else { Sign::Plus }, &a.digits);
    let y = num_bigint::BigInt::from_slice(if b.negative { Sign::Minus } else { Sign::Plus }, &b.digits);
    let (sign, digits) = (x / y).to_u32_digits();
    BigInt { negative: sign == Sign::Minus, digits }
}

/// `a % b` on `num_bigint::BigInt`: the remainder with the sign of `a` (`div_rem`). A zero
/// divisor panics.
#[verifier::external_body]
pub(crate) fn remainder(a: &BigInt, b: &BigInt) -> (r: BigInt)
    requires
        b.value() != 0,
    ensures
        r.wf(),
        r.value() == trunc_rem(a.value(), b.value()),
{
    let x = num_bigint::BigInt::from_slice(if a.negative { Sign::Minus } else { Sign::Plus }, &a.digits);
    let y = num_bigint::BigInt::from_slice(if b.negative { Sign::Minus } else { Sign::Plus }, &b.digits);
    let (sign, digits) = (x % y).to_u32_digits();
    BigInt { negative: sign == Sign::Minus, digits }
}

/// `a | b` on `num_bigint::BigInt`.
#[verifier::external_body]
pub(crate) fn bit_or(a: &BigInt, b: &BigInt) -> (r: BigInt)
    ensures
        r.wf(),
        r.value() == int_bitor(a.value(), b.value()),
{
    let x = num_bigint::BigInt::from_slice(if a.negative { Sign::Minus } else { Sign::Plus }, &a.digits);
    let y = num_bigint::BigInt::from_slice(if b.negative { Sign::Minus } else { Sign::Plus }, &b.digits);
    let (sign, digits) = (x | y).to_u32_digits();
    BigInt { negative: sign == Sign::Minus, digits }
}

/// `a & b` on `num_bigint::BigInt`.
#[verifier::external_body]
pub(crate) fn bit_and(a: &BigInt, b: &BigInt) -> (r: BigInt)
    ensures
        r.wf(),
        r.value() == int_bitand(a.value(), b.value()),
{
    let x = num_bigint::BigInt::from_slice(if a.negative { Sign::Minus } else { Sign::Plus }, &a.digits);
    let y = num_bigint::BigInt::from_slice(if b.negative { Sign::Minus } else { Sign::Plus }, &b.digits);
    let (sign, digits) = (x & y).to_u32_digits();
    BigInt { negative: sign == Sign::Minus, digits }
}

/// `a ^ b` on `num_bigint::BigInt`.
#[verifier::external_body]
pub(crate) fn bit_xor(a: &BigInt, b: &BigInt) -> (r: BigInt)
    ensures
        r.wf(),
        r.value() == int_bitxor(a.value(), b.value()),
{
    let x = num_bigint::BigInt::from_slice(if a.negative { Sign::Minus } else { Sign::Plus }, &a.digits);
    let y = num_bigint::BigInt::from_slice(if b.negative { Sign::Minus } else { Sign::Plus }, &b.digits);
    let (sign, digits) = (x ^ y).to_u32_digits();
    BigInt { negative: sign == Sign::Minus, digits }
}

/// `a == b` on `num_bigint::BigInt`.
#[verifier::external_body]
pub(crate) fn equal(a: &BigInt, b: &BigInt) -> (r: bool)
    ensures
        r == (a.value() == b.value()),
{
    let x = num_bigint::BigInt::from_slice(if a.negative { Sign::Minus } else { Sign::Plus }, &a.digits);
    let y = num_bigint::BigInt::from_slice(if b.negative { Sign::Minus } else { Sign::Plus }, &b.digits);
    x == y
}

/// `a < b` on `num_bigint::BigInt`.
#[verifier::external_body]
pub(crate) fn less(a: &BigInt, b: &BigInt) -> (r: bool)
    ensures
        r == (a.value() < b.value()),
{
    let x = num_bigint::BigInt::from_slice(if a.negative { Sign::Minus } else { Sign::Plus }, &a.digits);
    let y = num_bigint::BigInt::from_slice(if b.negative { Sign::Minus } else { Sign::Plus }, &b.digits);
    x < y
}

/// A copy of `a`.
pub fn copy(a: &BigInt) -> (r: BigInt)
    ensures
        r.negative == a.negative,
        r.digits@ == a.digits@,
{
    let mut digits = Vec::new();
    let mut i: usize = 0;
    while i < a.digits.len()
        invariant
            i <= a.digits@.len(),
            digits@ == a.digits@.subrange(0, i as int),
        decreases a.digits.len() - i,
    {
        digits.push(a.digits[i]);
        i += 1;
        assert(digits@ =~= a.digits@.subrange(0, i as int));
    }
    assert(digits@ =~= a.digits@);
    BigInt { negative: a.negative, digits }
}

} // verus!
