//! MIR instructions, expressions, constants and terminals, and their text form.

use vstd::prelude::*;
use crate::common::{Interner, Span, Sym};
use crate::common::text::{decimal, push_decimal, string_of};
use super::callable::MirCallableId;
use super::ty::MirType;

verus! {

#[derive(Debug, Clone, Copy, PartialEq, Eq, Hash, Structural)]
pub struct MirConstId(pub usize);

impl MirConstId {
    /// `co` and the number.
    pub fn fmt(&self) -> (r: String)
        ensures
            r@ == "co"@ + decimal(self.0 as nat),
    {
        let mut r = string_of("co");
        push_decimal(&mut r, self.0);
        r
    }
}

#[derive(Debug, Clone, Copy, PartialEq, Eq, Hash, Structural)]
pub struct MirValue(pub usize);

impl MirValue {
    pub open spec fn text(self) -> Seq<char> {
        "v"@ + decimal(self.0 as nat)
    }

    /// `v` and the register number.
    pub fn fmt(&self) -> (r: String)
        ensures
            r@ == self.text(),
    {
        let mut r = string_of("v");
        push_decimal(&mut r, self.0);
        r
    }
}

#[derive(Debug, PartialEq)]
pub enum MirConstValue {
    Int(Sym),
    Float(Sym),
    Bool(bool),
    Nil,
    Tuple(Vec<MirConstValue>),
    Callable(MirCallableId),
}

/// Whether every symbol in the constant names a string of `strs`.
pub open spec fn const_syms_in(v: MirConstValue, strs: Seq<Seq<char>>) -> bool
    decreases v,
{
    match v {
        MirConstValue::Int(s) | MirConstValue::Float(s) => s.0 < strs.len(),
        MirConstValue::Tuple(items) => forall|i: int| 0 <= i < items@.len() ==> const_syms_in(#[trigger] items@[i], strs),
        _ => true,
    }
}

/// How deep tuples nest in the constant.
pub open spec fn const_depth(v: MirConstValue) -> nat
    decreases v,
{
    match v {
        MirConstValue::Tuple(items) => 1 + items_depth(items@),
        _ => 0,
    }
}

pub open spec fn items_depth(s: Seq<MirConstValue>) -> nat
    decreases s,
{
    if s.len() == 0 {
        0
    } else {
        let d = const_depth(s[0]);
        let e = items_depth(s.drop_first());
        if d >= e { d } else { e }
    }
}

/// The text of a constant.
pub open spec fn const_text(v: MirConstValue, strs: Seq<Seq<char>>) -> Seq<char>
    decreases v,
{
    match v {
        MirConstValue::Int(s) => "(int "@ + strs[s.0 as int] + ")"@,
        MirConstValue::Float(s) => "(float "@ + strs[s.0 as int] + ")"@,
        MirConstValue::Bool(b) => "(bool "@ + (if b { "true"@ } else { "false"@ }) + ")"@,
        MirConstValue::Nil => "nil"@,
        MirConstValue::Tuple(items) => "(tuple"@ + items_text(items@, strs) + ")"@,
        MirConstValue::Callable(c) => c.text(),
    }
}

/// The texts of the items, separated by line breaks.
pub open spec fn items_text(s: Seq<MirConstValue>, strs: Seq<Seq<char>>) -> Seq<char>
    decreases s,
{
    if s.len() == 0 {
        Seq::empty()
    } else if s.len() == 1 {
        const_text(s[0], strs)
    } else {
        const_text(s[0], strs) + "\n"@ + items_text(s.drop_first(), strs)
    }
}

proof fn lemma_items_depth(s: Seq<MirConstValue>, i: int)
    requires
        0 <= i < s.len(),
    ensures
        const_depth(s[i]) <= items_depth(s),
    decreases s.len(),
{
    if i > 0 {
        lemma_items_depth(s.drop_first(), i - 1);
    }
}

impl MirConstValue {
    /// The constant as the MIR text writes it.
    pub fn fmt(&self, interner: &Interner, tabs: usize) -> (r: String)
        requires
            interner.wf(),
            const_syms_in(*self, interner@),
            tabs + const_depth(*self) < usize::MAX,
        ensures
            r@ == const_text(*self, interner@),
        decreases const_depth(*self),
    {
        match self {
            MirConstValue::Int(s) => {
                let mut r = string_of("(int ");
                r.append(interner.resolve(*s));
                r.append(")");
                r
            },
            MirConstValue::Float(s) => {
                let mut r = string_of("(float ");
                r.append(interner.resolve(*s));
                r.append(")");
                r
            },
            MirConstValue::Bool(b) => {
                let mut r = string_of("(bool ");
                r.append(if *b { "true" } else { "false" });
                r.append(")");
                r
            },
            MirConstValue::Nil => string_of("nil"),
            MirConstValue::Tuple(items) => {
                let mut output = string_of("(tuple");
                let mut idx: usize = 0;
                let ghost s = items@;
                assert(output@ =~= "(tuple"@ + prefix_text(s, 0, interner@));
                while idx < items.len()
                    invariant
                        idx <= s.len(),
                        s == items@,
                        (match *self { MirConstValue::Tuple(v) => v@ == s, _ => false }),
                        interner.wf(),
                        const_syms_in(*self, interner@),
                        tabs + const_depth(*self) < usize::MAX,
                        output@ == "(tuple"@ + prefix_text(s, idx as int, interner@),
                    decreases s.len() - idx,
                {
                    if idx > 0 {
                        output.append("\n");
                    }
                    proof {
                        lemma_items_depth(s, idx as int);
                        assert(const_syms_in(items@[idx as int], interner@));
                    }
                    let t = items[idx].fmt(interner, tabs + 1);
                    output.append(t.as_str());
                    idx += 1;
                    assert(output@ =~= "(tuple"@ + prefix_text(s, idx as int, interner@));
                }
                proof { lemma_prefix_text_all(s, interner@); }
                output.append(")");
                output
            },
            MirConstValue::Callable(c) => c.fmt(),
        }
    }
}

/// The text of the first `n` items, separated by line breaks.
pub open spec fn prefix_text(s: Seq<MirConstValue>, n: int, strs: Seq<Seq<char>>) -> Seq<char>
    decreases n,
{
    if n <= 0 {
        Seq::empty()
    } else if n == 1 {
        const_text(s[0], strs)
    } else {
        prefix_text(s, n - 1, strs) + "\n"@ + const_text(s[n - 1], strs)
    }
}

proof fn lemma_prefix_text_all(s: Seq<MirConstValue>, strs: Seq<Seq<char>>)
    ensures
        prefix_text(s, s.len() as int, strs) == items_text(s, strs),
    decreases s.len(),
{
    if s.len() > 1 {
        lemma_prefix_text_all(s.drop_first(), strs);
        lemma_prefix_shift(s, s.len() as int, strs);
    }
}

/// Dropping the first item of `s` drops the first item's text and its line break.
proof fn lemma_prefix_shift(s: Seq<MirConstValue>, n: int, strs: Seq<Seq<char>>)
    requires
        2 <= n <= s.len(),
    ensures
        prefix_text(s, n, strs) == const_text(s[0], strs) + "\n"@ + prefix_text(s.drop_first(), n - 1, strs),
    decreases n,
{
    if n > 2 {
        lemma_prefix_shift(s, n - 1, strs);
        assert(s.drop_first()[n - 2] == s[n - 1]);
        assert(prefix_text(s, n, strs) =~= const_text(s[0], strs) + "\n"@ + prefix_text(s.drop_first(), n - 1, strs));
    } else {
        assert(s.drop_first()[0] == s[1]);
        assert(prefix_text(s, 1, strs) == const_text(s[0], strs));
        assert(prefix_text(s.drop_first(), 1, strs) == const_text(s[1], strs));
        assert(prefix_text(s, 2, strs) =~= const_text(s[0], strs) + "\n"@ + prefix_text(s.drop_first(), 1, strs));
    }
}

#[derive(Debug, PartialEq)]
pub enum MirExpr {
    Const(MirConstValue),
    IAdd(MirValue, MirValue),
    ISub(MirValue, MirValue),
    IMul(MirValue, MirValue),
    SDiv(MirValue, MirValue),
    UDiv(MirValue, MirValue),
    SRem(MirValue, MirValue),
    URem(MirValue, MirValue),
}

pub open spec fn binary_text(name: Seq<char>, l: MirValue, r: MirValue) -> Seq<char> {
    "("@ + name + " "@ + l.text() + " "@ + r.text() + ")"@
}

impl MirExpr {
    pub open spec fn syms_in(self, strs: Seq<Seq<char>>) -> bool {
        match self {
            MirExpr::Const(c) => const_syms_in(c, strs),
            _ => true,
        }
    }

    pub open spec fn depth(self) -> nat {
        match self {
            MirExpr::Const(c) => 1 + const_depth(c),
            _ => 0,
        }
    }

    pub open spec fn text(self, strs: Seq<Seq<char>>) -> Seq<char> {
        match self {
            MirExpr::Const(c) => "(const "@ + const_text(c, strs) + ")"@,
            MirExpr::IAdd(l, r) => binary_text("iadd"@, l, r),
            MirExpr::ISub(l, r) => binary_text("isub"@, l, r),
            MirExpr::IMul(l, r) => binary_text("imul"@, l, r),
            MirExpr::SDiv(l, r) => binary_text("sdiv"@, l, r),
            MirExpr::UDiv(l, r) => binary_text("udiv"@, l, r),
            MirExpr::SRem(l, r) => binary_text("srem"@, l, r),
            MirExpr::URem(l, r) => binary_text("urem"@, l, r),
        }
    }

    /// The expression as the MIR text writes it.
    pub fn fmt(&self, interner: &Interner, tabs: usize) -> (r: String)
        requires
            interner.wf(),
            self.syms_in(interner@),
            tabs + self.depth() < usize::MAX,
        ensures
            r@ == self.text(interner@),
    {
        match self {
            MirExpr::Const(c) => {
                let mut r = string_of("(const ");
                let t = c.fmt(interner, tabs + 1);
                r.append(t.as_str());
                r.append(")");
                r
            },
            MirExpr::IAdd(l, r) => fmt_binary("iadd", l, r),
            MirExpr::ISub(l, r) => fmt_binary("isub", l, r),
            MirExpr::IMul(l, r) => fmt_binary("imul", l, r),
            MirExpr::SDiv(l, r) => fmt_binary("sdiv", l, r),
            MirExpr::UDiv(l, r) => fmt_binary("udiv", l, r),
            MirExpr::SRem(l, r) => fmt_binary("srem", l, r),
            MirExpr::URem(l, r) => fmt_binary("urem", l, r),
        }
    }
}

fn fmt_binary(name: &str, l: &MirValue, r: &MirValue) -> (s: String)
    ensures
        s@ == binary_text(name@, *l, *r),
{
    let mut s = string_of("(");
    s.append(name);
    s.append(" ");
    s.append(l.fmt().as_str());
    s.append(" ");
    s.append(r.fmt().as_str());
    s.append(")");
    s
}

#[derive(Debug, PartialEq)]
pub enum MirInstKind {
    Assign {
        dst: MirValue,
        ty: MirType,
        expr: MirExpr,
    },
}

impl MirInstKind {
    pub open spec fn text(self, strs: Seq<Seq<char>>) -> Seq<char> {
        match self {
            MirInstKind::Assign { dst, ty, expr } =>
                "(= "@ + ty.name() + " "@ + dst.text() + " "@ + expr.text(strs) + ")"@,
        }
    }

    /// The instruction as the MIR text writes it.
    pub fn fmt(&self, interner: &Interner, tabs: usize) -> (r: String)
        requires
            interner.wf(),
            (match *self { MirInstKind::Assign { expr, .. } => expr.syms_in(interner@) && tabs + expr.depth() + 1 < usize::MAX }),
        ensures
            r@ == self.text(interner@),
    {
        match self {
            MirInstKind::Assign { dst, ty, expr } => {
                let mut r = string_of("(= ");
                r.append(ty.fmt());
                r.append(" ");
                r.append(dst.fmt().as_str());
                r.append(" ");
                let e = expr.fmt(interner, tabs + 1);
                r.append(e.as_str());
                r.append(")");
                r
            },
        }
    }
}

#[derive(Debug, PartialEq)]
pub struct MirInst {
    pub kind: MirInstKind,
    pub span: Span,
}

impl MirInst {
    /// Whether the instruction can be written out from `tabs` on with the strings `strs`.
    pub open spec fn printable(self, strs: Seq<Seq<char>>, tabs: nat) -> bool {
        match self.kind {
            MirInstKind::Assign { expr, .. } => expr.syms_in(strs) && tabs + expr.depth() + 2 < usize::MAX,
        }
    }

    /// The instruction as the MIR text writes it.
    pub fn fmt(&self, interner: &Interner, tabs: usize) -> (r: String)
        requires
            interner.wf(),
            self.printable(interner@, tabs as nat),
        ensures
            r@ == self.kind.text(interner@),
    {
        self.kind.fmt(interner, tabs + 1)
    }
}

#[derive(Debug, Clone, Copy, PartialEq, Eq, Structural)]
pub enum MirTerminalKind {
    Ret(MirValue),
}

impl MirTerminalKind {
    pub open spec fn text(self) -> Seq<char> {
        match self {
            MirTerminalKind::Ret(v) => "(ret "@ + v.text() + ")"@,
        }
    }

    /// The terminal as the MIR text writes it.
    pub fn fmt(&self) -> (r: String)
        ensures
            r@ == self.text(),
    {
        match self {
            MirTerminalKind::Ret(v) => {
                let mut r = string_of("(ret ");
                r.append(v.fmt().as_str());
                r.append(")");
                r
            },
        }
    }
}

#[derive(Debug, Clone, Copy, PartialEq, Eq, Structural)]
pub struct MirTerminal {
    pub kind: MirTerminalKind,
    pub span: Span,
}

impl MirTerminal {
    /// The terminal as the MIR text writes it.
    pub fn fmt(&self) -> (r: String)
        ensures
            r@ == self.kind.text(),
    {
        self.kind.fmt()
    }
}

/// A binary expression prints as its mnemonic and then its operands, the left one first, each
/// as `v` and its register number, in parentheses and separated by spaces.
pub proof fn law_binary_text(l: MirValue, r: MirValue, strs: Seq<Seq<char>>)
    ensures
        MirExpr::IAdd(l, r).text(strs) == seq!['('] + seq!['i', 'a', 'd', 'd'] + seq![' '] + l.text() + seq![' '] + r.text() + seq![')'],
        MirExpr::ISub(l, r).text(strs) == seq!['('] + seq!['i', 's', 'u', 'b'] + seq![' '] + l.text() + seq![' '] + r.text() + seq![')'],
        MirExpr::IMul(l, r).text(strs) == seq!['('] + seq!['i', 'm', 'u', 'l'] + seq![' '] + l.text() + seq![' '] + r.text() + seq![')'],
        MirExpr::SDiv(l, r).text(strs) == seq!['('] + seq!['s', 'd', 'i', 'v'] + seq![' '] + l.text() + seq![' '] + r.text() + seq![')'],
        MirExpr::UDiv(l, r).text(strs) == seq!['('] + seq!['u', 'd', 'i', 'v'] + seq![' '] + l.text() + seq![' '] + r.text() + seq![')'],
        MirExpr::SRem(l, r).text(strs) == seq!['('] + seq!['s', 'r', 'e', 'm'] + seq![' '] + l.text() + seq![' '] + r.text() + seq![')'],
        MirExpr::URem(l, r).text(strs) == seq!['('] + seq!['u', 'r', 'e', 'm'] + seq![' '] + l.text() + seq![' '] + r.text() + seq![')'],
        l.text() == seq!['v'] + crate::common::text::decimal(l.0 as nat),
{
    reveal_strlit("(");
    reveal_strlit(")");
    reveal_strlit(" ");
    reveal_strlit("v");
    reveal_strlit("iadd");
    reveal_strlit("isub");
    reveal_strlit("imul");
    reveal_strlit("sdiv");
    reveal_strlit("udiv");
    reveal_strlit("srem");
    reveal_strlit("urem");
    assert(MirExpr::IAdd(l, r).text(strs) =~= seq!['('] + seq!['i', 'a', 'd', 'd'] + seq![' '] + l.text() + seq![' '] + r.text() + seq![')']);
    assert(MirExpr::ISub(l, r).text(strs) =~= seq!['('] + seq!['i', 's', 'u', 'b'] + seq![' '] + l.text() + seq![' '] + r.text() + seq![')']);
    assert(MirExpr::IMul(l, r).text(strs) =~= seq!['('] + seq!['i', 'm', 'u', 'l'] + seq![' '] + l.text() + seq![' '] + r.text() + seq![')']);
    assert(MirExpr::SDiv(l, r).text(strs) =~= seq!['('] + seq!['s', 'd', 'i', 'v'] + seq![' '] + l.text() + seq![' '] + r.text() + seq![')']);
    assert(MirExpr::UDiv(l, r).text(strs) =~= seq!['('] + seq!['u', 'd', 'i', 'v'] + seq![' '] + l.text() + seq![' '] + r.text() + seq![')']);
    assert(MirExpr::SRem(l, r).text(strs) =~= seq!['('] + seq!['s', 'r', 'e', 'm'] + seq![' '] + l.text() + seq![' '] + r.text() + seq![')']);
    assert(MirExpr::URem(l, r).text(strs) =~= seq!['('] + seq!['u', 'r', 'e', 'm'] + seq![' '] + l.text() + seq![' '] + r.text() + seq![')']);
}

/// An assignment prints as `=`, the type's name, the destination register and then the
/// expression, in parentheses and separated by spaces; a return prints as `ret` and the
/// returned register in parentheses.
pub proof fn law_assign_and_ret_text(dst: MirValue, ty: MirType, expr: MirExpr, v: MirValue, strs: Seq<Seq<char>>)
    ensures
        (MirInstKind::Assign { dst, ty, expr }).text(strs) == seq!['(', '=', ' '] + ty.name() + seq![' '] + dst.text() + seq![' '] + expr.text(strs) + seq![')'],
        MirTerminalKind::Ret(v).text() == seq!['(', 'r', 'e', 't', ' '] + v.text() + seq![')'],
{
    reveal_strlit("(= ");
    reveal_strlit(" ");
    reveal_strlit(")");
    reveal_strlit("(ret ");
    assert((MirInstKind::Assign { dst, ty, expr }).text(strs) =~= seq!['(', '=', ' '] + ty.name() + seq![' '] + dst.text() + seq![' '] + expr.text(strs) + seq![')']);
    assert(MirTerminalKind::Ret(v).text() =~= seq!['(', 'r', 'e', 't', ' '] + v.text() + seq![')']);
}

} // verus!
