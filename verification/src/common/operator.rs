//! Infix and prefix operators, and reassignment operators.

use vstd::prelude::*;
use crate::sema::ty::{TypeId, TypePool, TypeV};

verus! {

#[derive(Debug, Clone, Copy, PartialEq, Eq, Structural)]
pub enum Operator {
    Plus,
    Minus,
    Star,
    Slash,
    Modulo,
    Eq, Ne, Gt, Lt, Ge, Le,
    Pipe, Ampersand, Caret, Bang,
    KwOr, KwAnd, KwXor, KwNot,
}

impl Operator {
    pub open spec fn spec_can_infix(self) -> bool {
        !(self is Bang || self is KwNot)
    }

    /// Whether the operator may stand between two operands.
    pub fn can_infix(&self) -> (r: bool)
        ensures
            r == self.spec_can_infix(),
    {
        !matches!(self, Operator::Bang | Operator::KwNot)
    }

    /// The signs, the bitwise `!` and the logical `not` stand before a single operand.
    pub open spec fn spec_can_prefix(self) -> bool {
        self is Plus || self is Minus || self is Bang || self is KwNot
    }

    /// Whether the operator may stand before a single operand.
    pub fn can_prefix(&self) -> (r: bool)
        ensures
            r == self.spec_can_prefix(),
    {
        matches!(self, Operator::Plus | Operator::Minus | Operator::Bang | Operator::KwNot)
    }

    pub open spec fn spec_binding_power(self) -> usize {
        match self {
            Operator::KwOr | Operator::KwXor => 10,
            Operator::KwAnd => 20,
            Operator::Eq | Operator::Ne => 30,
            Operator::Gt | Operator::Lt | Operator::Ge | Operator::Le => 40,
            Operator::Pipe | Operator::Caret => 50,
            Operator::Ampersand => 60,
            Operator::Plus | Operator::Minus => 70,
            Operator::Star | Operator::Slash | Operator::Modulo => 80,
            _ => 0,
        }
    }

    /// How tightly the operator binds as an infix operator (0 for prefix-only operators).
    pub fn binding_power(&self) -> (r: usize)
        ensures
            r == self.spec_binding_power(),
    {
        match self {
            Operator::KwOr | Operator::KwXor => 10,
            Operator::KwAnd => 20,
            Operator::Eq | Operator::Ne => 30,
            Operator::Gt | Operator::Lt | Operator::Ge | Operator::Le => 40,
            Operator::Pipe | Operator::Caret => 50,
            Operator::Ampersand => 60,
            Operator::Plus | Operator::Minus => 70,
            Operator::Star | Operator::Slash | Operator::Modulo => 80,
            _ => 0,
        }
    }

    pub open spec fn spec_text(self) -> Seq<char> {
        match self {
            Operator::Plus => seq!['+'],
            Operator::Minus => seq!['-'],
            Operator::Star => seq!['*'],
            Operator::Slash => seq!['/'],
            Operator::Modulo => seq!['%'],
            Operator::Eq => seq!['=', '='],
            Operator::Ne => seq!['!', '='],
            Operator::Gt => seq!['>'],
            Operator::Lt => seq!['<'],
            Operator::Ge => seq!['>', '='],
            Operator::Le => seq!['<', '='],
            Operator::Pipe => seq!['|'],
            Operator::Ampersand => seq!['&'],
            Operator::Caret => seq!['^'],
            Operator::Bang => seq!['!'],
            Operator::KwOr => seq!['o', 'r'],
            Operator::KwAnd => seq!['a', 'n', 'd'],
            Operator::KwXor => seq!['x', 'o', 'r'],
            Operator::KwNot => seq!['n', 'o', 't'],
        }
    }

    /// The operator as written in source.
    pub fn as_str(&self) -> (r: &'static str)
        ensures
            r@ == self.spec_text(),
    {
        match self {
            Operator::Plus => { proof { reveal_strlit("+"); } "+" },
            Operator::Minus => { proof { reveal_strlit("-"); } "-" },
            Operator::Star => { proof { reveal_strlit("*"); } "*" },
            Operator::Slash => { proof { reveal_strlit("/"); } "/" },
            Operator::Modulo => { proof { reveal_strlit("%"); } "%" },
            Operator::Eq => { proof { reveal_strlit("=="); } "==" },
            Operator::Ne => { proof { reveal_strlit("!="); } "!=" },
            Operator::Gt => { proof { reveal_strlit(">"); } ">" },
            Operator::Lt => { proof { reveal_strlit("<"); } "<" },
            Operator::Ge => { proof { reveal_strlit(">="); } ">=" },
            Operator::Le => { proof { reveal_strlit("<="); } "<=" },
            Operator::Pipe => { proof { reveal_strlit("|"); } "|" },
            Operator::Ampersand => { proof { reveal_strlit("&"); } "&" },
            Operator::Caret => { proof { reveal_strlit("^"); } "^" },
            Operator::Bang => { proof { reveal_strlit("!"); } "!" },
            Operator::KwOr => { proof { reveal_strlit("or"); } "or" },
            Operator::KwAnd => { proof { reveal_strlit("and"); } "and" },
            Operator::KwXor => { proof { reveal_strlit("xor"); } "xor" },
            Operator::KwNot => { proof { reveal_strlit("not"); } "not" },
        }
    }
}

#[derive(Debug, Clone, Copy, PartialEq, Eq, Structural)]
pub enum ReassignmentOp {
    Assign,
    PlusEq, MinusEq, StarEq, SlashEq, ModuloEq,
    PipeEq, AmpersandEq, CaretEq,
}

impl ReassignmentOp {
    pub open spec fn spec_text(self) -> Seq<char> {
        match self {
            ReassignmentOp::Assign => seq!['='],
            ReassignmentOp::PlusEq => seq!['+', '='],
            ReassignmentOp::MinusEq => seq!['-', '='],
            ReassignmentOp::StarEq => seq!['*', '='],
            ReassignmentOp::SlashEq => seq!['/', '='],
            ReassignmentOp::ModuloEq => seq!['%', '='],
            ReassignmentOp::PipeEq => seq!['|', '='],
            ReassignmentOp::AmpersandEq => seq!['&', '='],
            ReassignmentOp::CaretEq => seq!['^', '='],
        }
    }

    /// The operator as written in source.
    pub fn as_str(&self) -> (r: &'static str)
        ensures
            r@ == self.spec_text(),
    {
        match self {
            ReassignmentOp::Assign => { proof { reveal_strlit("="); } "=" },
            ReassignmentOp::PlusEq => { proof { reveal_strlit("+="); } "+=" },
            ReassignmentOp::MinusEq => { proof { reveal_strlit("-="); } "-=" },
            ReassignmentOp::StarEq => { proof { reveal_strlit("*="); } "*=" },
            ReassignmentOp::SlashEq => { proof { reveal_strlit("/="); } "/=" },
            ReassignmentOp::ModuloEq => { proof { reveal_strlit("%="); } "%=" },
            ReassignmentOp::PipeEq => { proof { reveal_strlit("|="); } "|=" },
            ReassignmentOp::AmpersandEq => { proof { reveal_strlit("&="); } "&=" },
            ReassignmentOp::CaretEq => { proof { reveal_strlit("^="); } "^=" },
        }
    }
}

// ---------------------------------------------------------------------------------------------
// Typing of operator applications
// ---------------------------------------------------------------------------------------------

/// The pool after giving the types of `a` and `b` one type: unchanged when they are the
/// same; else the type of the one that can be coerced into the other becomes the other's
/// (`a` is tried first); `None` when neither can.
pub open spec fn unify_spec(pool: Seq<TypeV>, a: TypeId, b: TypeId) -> Option<Seq<TypeV>> {
    let at = pool[a.0 as int];
    let bt = pool[b.0 as int];
    if at == bt {
        Some(pool)
    } else if at.coerceable_into(bt) {
        Some(pool.update(a.0 as int, bt))
    } else if bt.coerceable_into(at) {
        Some(pool.update(b.0 as int, at))
    } else {
        None
    }
}

pub open spec fn unify_then(pool: Seq<TypeV>, a: TypeId, b: TypeId, out: TypeId) -> (Option<TypeId>, Seq<TypeV>) {
    match unify_spec(pool, a, b) {
        Some(p) => (Some(out), p),
        None => (None, pool),
    }
}

/// The type of `lhs op rhs` and the pool after the check, for operand types held in `pool`.
pub open spec fn infix_ty_spec(op: Operator, pool: Seq<TypeV>, bool_id: TypeId, lhs: TypeId, rhs: TypeId)
    -> (Option<TypeId>, Seq<TypeV>)
{
    if lhs.0 >= pool.len() || rhs.0 >= pool.len() {
        (None, pool)
    } else {
        let lty = pool[lhs.0 as int];
        let rty = pool[rhs.0 as int];
        match op {
            Operator::Plus | Operator::Minus | Operator::Star | Operator::Slash | Operator::Modulo =>
                if lty.is_numeric() && rty.is_numeric() { unify_then(pool, lhs, rhs, lhs) } else { (None, pool) },
            Operator::Eq | Operator::Ne =>
                if lty is Callable { (None, pool) } else { unify_then(pool, lhs, rhs, bool_id) },
            Operator::Gt | Operator::Lt | Operator::Ge | Operator::Le =>
                if lty.is_numeric() && rty.is_numeric() { unify_then(pool, lhs, rhs, bool_id) } else { (None, pool) },
            Operator::Pipe | Operator::Ampersand | Operator::Caret =>
                if lty.is_int() && rty.is_int() {
                    unify_then(pool, lhs, rhs, lhs)
                } else if lty is Bool && rty is Bool {
                    (Some(lhs), pool)
                } else {
                    (None, pool)
                },
            Operator::KwOr | Operator::KwAnd | Operator::KwXor =>
                if lty is Bool && rty is Bool { (Some(lhs), pool) } else { (None, pool) },
            _ => (None, pool),
        }
    }
}

/// The type of `op operand`, for an operand type held in `pool`.
pub open spec fn prefix_ty_spec(op: Operator, pool: Seq<TypeV>, operand: TypeId) -> Option<TypeId> {
    if operand.0 >= pool.len() {
        None
    } else {
        let oty = pool[operand.0 as int];
        let ok = match op {
            Operator::Plus | Operator::Minus => oty.is_numeric(),
            Operator::Bang => oty.is_int() || oty is Bool,
            Operator::KwNot => oty is Bool,
            _ => false,
        };
        if ok { Some(operand) } else { None }
    }
}

/// Whether `original op= expr` type checks, and the pool after the check.
pub open spec fn reassign_spec(op: ReassignmentOp, pool: Seq<TypeV>, original: TypeId, expr: TypeId) -> (bool, Seq<TypeV>) {
    let oty = pool[original.0 as int];
    let ety = pool[expr.0 as int];
    let allowed = match op {
        ReassignmentOp::Assign => true,
        ReassignmentOp::PlusEq | ReassignmentOp::MinusEq | ReassignmentOp::StarEq
        | ReassignmentOp::SlashEq | ReassignmentOp::ModuloEq => oty.is_numeric() && ety.is_numeric(),
        ReassignmentOp::PipeEq | ReassignmentOp::AmpersandEq | ReassignmentOp::CaretEq => oty.is_int() && ety.is_int(),
    };
    if !allowed {
        (false, pool)
    } else {
        match unify_spec(pool, original, expr) {
            Some(p) => (true, p),
            None => (false, pool),
        }
    }
}

/// Gives the types of `a` and `b` one type, as [`unify_spec`] says.
fn unify(type_pool: &mut TypePool, a: &TypeId, b: &TypeId) -> (r: bool)
    requires
        old(type_pool).wf(),
        a.0 < old(type_pool)@.len(),
        b.0 < old(type_pool)@.len(),
    ensures
        final(type_pool).wf(),
        final(type_pool).same_ids(*old(type_pool)),
        r == unify_spec(old(type_pool)@, *a, *b) is Some,
        r ==> final(type_pool)@ == unify_spec(old(type_pool)@, *a, *b)->Some_0,
        !r ==> final(type_pool)@ == old(type_pool)@,
{
    let at = type_pool.get_type(a).unwrap();
    let bt = type_pool.get_type(b).unwrap();
    if at.same_as(bt) {
        true
    } else if at.is_coerceable_into(bt) {
        let t = bt.duplicate();
        type_pool.coerce_type(a, t);
        true
    } else if bt.is_coerceable_into(at) {
        let t = at.duplicate();
        type_pool.coerce_type(b, t);
        true
    } else {
        false
    }
}

impl Operator {
    /// The type of `lhs self rhs`: arithmetic gives the (unified) type of `lhs`, comparisons
    /// give `bool`, bitwise operators work on integers or on two booleans, logical ones on
    /// booleans. Where the operand types differ but one can be coerced into the other, that
    /// operand's type becomes the other's in `type_pool`. Comparisons give `bool_id`, the id
    /// under which the caller keeps `bool` (the pool's primitive types do not include it).
    pub fn infix_output_ty(&self, lhs: &TypeId, rhs: &TypeId, type_pool: &mut TypePool, bool_id: &TypeId)
        -> (r: Option<TypeId>)
        requires
            old(type_pool).wf(),
        ensures
            final(type_pool).wf(),
            final(type_pool).same_ids(*old(type_pool)),
            (r, final(type_pool)@) == infix_ty_spec(*self, old(type_pool)@, *bool_id, *lhs, *rhs),
    {
        let lty = match type_pool.get_type(lhs) {
            Some(t) => t,
            None => return None,
        };
        let rty = match type_pool.get_type(rhs) {
            Some(t) => t,
            None => return None,
        };
        let bool_id = *bool_id;
        match self {
            Operator::Plus | Operator::Minus | Operator::Star | Operator::Slash | Operator::Modulo =>
                if lty.is_numeric() && rty.is_numeric() {
                    if unify(type_pool, lhs, rhs) { Some(*lhs) } else { None }
                } else {
                    None
                },
            Operator::Eq | Operator::Ne =>
                if matches!(lty, crate::sema::ty::Type::Callable { .. }) {
                    None
                } else if unify(type_pool, lhs, rhs) {
                    Some(bool_id)
                } else {
                    None
                },
            Operator::Gt | Operator::Lt | Operator::Ge | Operator::Le =>
                if lty.is_numeric() && rty.is_numeric() {
                    if unify(type_pool, lhs, rhs) { Some(bool_id) } else { None }
                } else {
                    None
                },
            Operator::Pipe | Operator::Ampersand | Operator::Caret =>
                if lty.is_int() && rty.is_int() {
                    if unify(type_pool, lhs, rhs) { Some(*lhs) } else { None }
                } else if matches!(lty, crate::sema::ty::Type::Bool) && matches!(rty, crate::sema::ty::Type::Bool) {
                    Some(*lhs)
                } else {
                    None
                },
            Operator::KwOr | Operator::KwAnd | Operator::KwXor =>
                if matches!(lty, crate::sema::ty::Type::Bool) && matches!(rty, crate::sema::ty::Type::Bool) {
                    Some(*lhs)
                } else {
                    None
                },
            _ => None,
        }
    }

    /// The type of `self operand`: `+`/`-` keep a numeric type, `!` an integer or boolean
    /// one, `not` a boolean one.
    pub fn prefix_output_ty(&self, operand: &TypeId, type_pool: &TypePool) -> (r: Option<TypeId>)
        requires
            type_pool.wf(),
        ensures
            r == prefix_ty_spec(*self, type_pool@, *operand),
    {
        let oty = match type_pool.get_type(operand) {
            Some(t) => t,
            None => return None,
        };
        match self {
            Operator::Plus | Operator::Minus => if oty.is_numeric() { Some(*operand) } else { None },
            Operator::Bang =>
                if oty.is_int() || matches!(oty, crate::sema::ty::Type::Bool) { Some(*operand) } else { None },
            Operator::KwNot => if matches!(oty, crate::sema::ty::Type::Bool) { Some(*operand) } else { None },
            _ => None,
        }
    }
}

impl ReassignmentOp {
    /// Whether `original self expr` type checks: `=` takes any two types that unify, the
    /// arithmetic forms two numeric types, the bitwise forms two integer types; unifying may
    /// coerce one of the two types into the other in `type_pool`.
    pub fn validate_reassignment(&self, original: &TypeId, expr: &TypeId, type_pool: &mut TypePool) -> (r: bool)
        requires
            old(type_pool).wf(),
            original.0 < old(type_pool)@.len(),
            expr.0 < old(type_pool)@.len(),
        ensures
            final(type_pool).wf(),
            final(type_pool).same_ids(*old(type_pool)),
            (r, final(type_pool)@) == reassign_spec(*self, old(type_pool)@, *original, *expr),
    {
        let oty = type_pool.get_type(original).unwrap();
        let ety = type_pool.get_type(expr).unwrap();
        let allowed = match self {
            ReassignmentOp::Assign => true,
            ReassignmentOp::PlusEq | ReassignmentOp::MinusEq | ReassignmentOp::StarEq
            | ReassignmentOp::SlashEq | ReassignmentOp::ModuloEq => oty.is_numeric() && ety.is_numeric(),
            ReassignmentOp::PipeEq | ReassignmentOp::AmpersandEq | ReassignmentOp::CaretEq => oty.is_int() && ety.is_int(),
        };
        if !allowed {
            return false;
        }
        unify(type_pool, original, expr)
    }
}

// ---------------------------------------------------------------------------------------------
// Laws of operator typing
// ---------------------------------------------------------------------------------------------

/// What unifying two types leaves: the two ids have one type, the pool keeps its length, and
/// a type that changed was a literal's type that became an integer (float) type.
proof fn lemma_unify(pool: Seq<TypeV>, a: TypeId, b: TypeId)
    requires
        a.0 < pool.len(),
        b.0 < pool.len(),
        unify_spec(pool, a, b) is Some,
    ensures
        ({
            let p = unify_spec(pool, a, b)->Some_0;
            &&& p.len() == pool.len()
            &&& p[a.0 as int] == p[b.0 as int]
            &&& forall|i: int| 0 <= i < pool.len() && #[trigger] p[i] != pool[i] ==> refines(pool[i], p[i])
        }),
{
}

/// `after` is an integer (float) type given to what had the type of an integer (float)
/// literal.
pub open spec fn refines(before: TypeV, after: TypeV) -> bool {
    ||| (before is AmbiguousInt && after.is_int())
    ||| (before is AmbiguousFloat && after.is_float())
}

/// When an infix application type checks, its two operands end up with one type.
pub proof fn law_infix_operands_agree(op: Operator, pool: Seq<TypeV>, bool_id: TypeId, lhs: TypeId, rhs: TypeId)
    requires
        infix_ty_spec(op, pool, bool_id, lhs, rhs).0 is Some,
    ensures
        infix_ty_spec(op, pool, bool_id, lhs, rhs).1[lhs.0 as int] == infix_ty_spec(op, pool, bool_id, lhs, rhs).1[rhs.0 as int],
{
    if unify_spec(pool, lhs, rhs) is Some {
        lemma_unify(pool, lhs, rhs);
    }
}

/// Type checking an infix application changes no type but by giving an integer (float)
/// literal's type an integer (float) type, and keeps the number of types.
pub proof fn law_infix_only_refines_literals(op: Operator, pool: Seq<TypeV>, bool_id: TypeId, lhs: TypeId, rhs: TypeId)
    ensures
        infix_ty_spec(op, pool, bool_id, lhs, rhs).1.len() == pool.len(),
        forall|i: int| 0 <= i < pool.len() && #[trigger] infix_ty_spec(op, pool, bool_id, lhs, rhs).1[i] != pool[i]
            ==> refines(pool[i], infix_ty_spec(op, pool, bool_id, lhs, rhs).1[i]),
{
    if lhs.0 < pool.len() && rhs.0 < pool.len() && unify_spec(pool, lhs, rhs) is Some {
        lemma_unify(pool, lhs, rhs);
    }
}

/// When a reassignment type checks, the target and the value end up with one type.
pub proof fn law_reassign_operands_agree(op: ReassignmentOp, pool: Seq<TypeV>, original: TypeId, expr: TypeId)
    requires
        original.0 < pool.len(),
        expr.0 < pool.len(),
        reassign_spec(op, pool, original, expr).0,
    ensures
        reassign_spec(op, pool, original, expr).1[original.0 as int] == reassign_spec(op, pool, original, expr).1[expr.0 as int],
{
    lemma_unify(pool, original, expr);
}

/// Type checking a reassignment changes no type but by giving an integer (float) literal's
/// type an integer (float) type, and keeps the number of types.
pub proof fn law_reassign_only_refines_literals(op: ReassignmentOp, pool: Seq<TypeV>, original: TypeId, expr: TypeId)
    requires
        original.0 < pool.len(),
        expr.0 < pool.len(),
    ensures
        reassign_spec(op, pool, original, expr).1.len() == pool.len(),
        forall|i: int| 0 <= i < pool.len() && #[trigger] reassign_spec(op, pool, original, expr).1[i] != pool[i]
            ==> refines(pool[i], reassign_spec(op, pool, original, expr).1[i]),
{
    if unify_spec(pool, original, expr) is Some {
        lemma_unify(pool, original, expr);
    }
}

/// Binding powers order the infix operators from the loosest to the tightest: `or` and
/// `xor`, then `and`, `==` and `!=`, the order comparisons, `|` and `^`, `&`, the additive
/// operators `+` and `-`, and last the multiplicative operators `*`, `/` and `%`. Operators of
/// one level bind alike, and `!` and `not`, which never stand between two operands, bind
/// looser than any infix operator.
pub proof fn law_binding_power_levels()
    ensures
        Operator::KwOr.spec_binding_power() == Operator::KwXor.spec_binding_power(),
        Operator::KwXor.spec_binding_power() < Operator::KwAnd.spec_binding_power(),
        Operator::KwAnd.spec_binding_power() < Operator::Eq.spec_binding_power(),
        Operator::Eq.spec_binding_power() == Operator::Ne.spec_binding_power(),
        Operator::Ne.spec_binding_power() < Operator::Gt.spec_binding_power(),
        Operator::Gt.spec_binding_power() == Operator::Lt.spec_binding_power(),
        Operator::Lt.spec_binding_power() == Operator::Ge.spec_binding_power(),
        Operator::Ge.spec_binding_power() == Operator::Le.spec_binding_power(),
        Operator::Le.spec_binding_power() < Operator::Pipe.spec_binding_power(),
        Operator::Pipe.spec_binding_power() == Operator::Caret.spec_binding_power(),
        Operator::Caret.spec_binding_power() < Operator::Ampersand.spec_binding_power(),
        Operator::Ampersand.spec_binding_power() < Operator::Plus.spec_binding_power(),
        Operator::Plus.spec_binding_power() == Operator::Minus.spec_binding_power(),
        Operator::Minus.spec_binding_power() < Operator::Star.spec_binding_power(),
        Operator::Star.spec_binding_power() == Operator::Slash.spec_binding_power(),
        Operator::Slash.spec_binding_power() == Operator::Modulo.spec_binding_power(),
        forall|op: Operator| op.spec_can_infix() ==> Operator::Bang.spec_binding_power() < #[trigger] op.spec_binding_power(),
        Operator::Bang.spec_binding_power() == Operator::KwNot.spec_binding_power(),
{
}

/// Whether `op` compares its operands.
pub open spec fn is_comparison(op: Operator) -> bool {
    op is Eq || op is Ne || op is Gt || op is Lt || op is Ge || op is Le
}

/// The type of an infix operation that type checks: a comparison gives `bool` (the id passed
/// in); arithmetic, bitwise and logical operations give the type of their left operand;
/// `!` and `not` never type check between two operands. Where the check fails the pool is left
/// as it was, and a comparison or an arithmetic operation that succeeds leaves both operands
/// with one type.
pub proof fn law_infix_result_types(op: Operator, pool: Seq<TypeV>, bool_id: TypeId, lhs: TypeId, rhs: TypeId)
    ensures
        ({
            let (r, after) = infix_ty_spec(op, pool, bool_id, lhs, rhs);
            &&& is_comparison(op) && r is Some ==> r == Some(bool_id)
            &&& !is_comparison(op) && r is Some ==> r == Some(lhs)
            &&& (op is Bang || op is KwNot) ==> r is None
            &&& r is None ==> after == pool
            &&& r is Some && !(op is Pipe || op is Ampersand || op is Caret || op is KwOr || op is KwAnd || op is KwXor)
                ==> after[lhs.0 as int] == after[rhs.0 as int]
        }),
{
}

/// A prefix operation that type checks has the type of its operand: `+` and `-` on numbers,
/// `!` on integers and booleans, `not` on booleans.
pub proof fn law_prefix_result_type(op: Operator, pool: Seq<TypeV>, operand: TypeId)
    ensures
        prefix_ty_spec(op, pool, operand) is Some ==> prefix_ty_spec(op, pool, operand) == Some(operand),
        prefix_ty_spec(op, pool, operand) is Some ==> 0 <= operand.0 < pool.len() && ({
            let t = pool[operand.0 as int];
            &&& (op is Plus || op is Minus) ==> t.is_numeric()
            &&& op is Bang ==> t.is_int() || t is Bool
            &&& op is KwNot ==> t is Bool
            &&& !(op is Plus || op is Minus || op is Bang || op is KwNot) ==> false
        }),
{
}

} // verus!
