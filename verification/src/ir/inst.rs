//! IR instructions, expressions, constants and terminals, and their text form.

use vstd::prelude::*;
use crate::common::{Interner, Span, Sym};
use crate::common::text::{decimal, push_decimal, string_of};
use super::callable::IrCallableId;

verus! {

#[derive(Debug, Clone, Copy, PartialEq, Eq, Hash, Structural)]
pub struct IrConstId(pub usize);

impl IrConstId {
    /// `co` and the number.
    pub fn fmt(&self) -> (r: String)
        ensures
            r@ == "co"@ + decimal(self.0 as nat),
    {
        let mut r = string_of("co");
        push_decimal(&mut r, self.0);
        r
    }
}

#[derive(Debug, Clone, Copy, PartialEq, Eq, Hash, Structural)]
pub struct IrValue(pub usize);

impl IrValue {
    pub open spec fn text(self) -> Seq<char> {
        "v"@ + decimal(self.0 as nat)
    }

    /// `v` and the register number.
    pub fn fmt(&self) -> (r: String)
        ensures
            r@ == self.text(),
    {
        let mut r = string_of("v");
        push_decimal(&mut r, self.0);
        r
    }
}

#[derive(Debug, PartialEq)]
pub enum IrConstValue {
    Int(Sym),
    Float(Sym),
    Bool(bool),
    Nil,
    Tuple(Vec<IrConstValue>),
    Callable(IrCallableId),
}

/// Whether every symbol in the constant names a string of `strs`.
pub open spec fn const_syms_in(v: IrConstValue, strs: Seq<Seq<char>>) -> bool
    decreases v,
{
    match v {
        IrConstValue::Int(s) | IrConstValue::Float(s) => s.0 < strs.len(),
        IrConstValue::Tuple(items) => forall|i: int| 0 <= i < items@.len() ==> const_syms_in(#[trigger] items@[i], strs),
        _ => true,
    }
}

/// How deep tuples nest in the constant.
pub open spec fn const_depth(v: IrConstValue) -> nat
    decreases v,
{
    match v {
        IrConstValue::Tuple(items) => 1 + items_depth(items@),
        _ => 0,
    }
}

pub open spec fn items_depth(s: Seq<IrConstValue>) -> nat
    decreases s,
{
    if s.len() == 0 {
        0
    } else {
        let d = const_depth(s[0]);
        let e = items_depth(s.drop_first());
        if d >= e { d } else { e }
    }
}

/// The text of a constant.
pub open spec fn const_text(v: IrConstValue, strs: Seq<Seq<char>>) -> Seq<char>
    decreases v,
{
    match v {
        IrConstValue::Int(s) => "(int "@ + strs[s.0 as int] + ")"@,
        IrConstValue::Float(s) => "(float "@ + strs[s.0 as int] + ")"@,
        IrConstValue::Bool(b) => "(bool "@ + (if b { "true"@ } else { "false"@ }) + ")"@,
        IrConstValue::Nil => "nil"@,
        IrConstValue::Tuple(items) => "(tuple"@ + items_text(items@, strs) + ")"@,
        IrConstValue::Callable(c) => c.text(),
    }
}

/// The texts of the items, separated by line breaks.
pub open spec fn items_text(s: Seq<IrConstValue>, strs: Seq<Seq<char>>) -> Seq<char>
    decreases s,
{
    if s.len() == 0 {
        Seq::empty()
    } else if s.len() == 1 {
        const_text(s[0], strs)
    } else {
        const_text(s[0], strs) + "\n"@ + items_text(s.drop_first(), strs)
    }
}

proof fn lemma_items_depth(s: Seq<IrConstValue>, i: int)
    requires
        0 <= i < s.len(),
    ensures
        const_depth(s[i]) <= items_depth(s),
    decreases s.len(),
{
    if i > 0 {
        lemma_items_depth(s.drop_first(), i - 1);
    }
}

impl IrConstValue {
    /// The constant as the IR text writes it.
    pub fn fmt(&self, interner: &Interner, tabs: usize) -> (r: String)
        requires
            interner.wf(),
            const_syms_in(*self, interner@),
            tabs + const_depth(*self) < usize::MAX,
        ensures
            r@ == const_text(*self, interner@),
        decreases const_depth(*self),
    {
        match self {
            IrConstValue::Int(s) => {
                let mut r = string_of("(int ");
                r.append(interner.resolve(*s));
                r.append(")");
                r
            },
            IrConstValue::Float(s) => {
                let mut r = string_of("(float ");
                r.append(interner.resolve(*s));
                r.append(")");
                r
            },
            IrConstValue::Bool(b) => {
                let mut r = string_of("(bool ");
                r.append(if *b { "true" } else { "false" });
                r.append(")");
                r
            },
            IrConstValue::Nil => string_of("nil"),
            IrConstValue::Tuple(items) => {
                let mut output = string_of("(tuple");
                let mut idx: usize = 0;
                let ghost s = items@;
                assert(output@ =~= "(tuple"@ + prefix_text(s, 0, interner@));
                while idx < items.len()
                    invariant
                        idx <= s.len(),
                        s == items@,
                        (match *self { IrConstValue::Tuple(v) => v@ == s, _ => false }),
                        interner.wf(),
                        const_syms_in(*self, interner@),
                        tabs + const_depth(*self) < usize::MAX,
                        output@ == "(tuple"@ + prefix_text(s, idx as int, interner@),
                    decreases s.len() - idx,
                {
                    if idx > 0 {
                        output.append("\n");
                    }
                    proof {
                        lemma_items_depth(s, idx as int);
                        assert(const_syms_in(items@[idx as int], interner@));
                    }
                    let t = items[idx].fmt(interner, tabs + 1);
                    output.append(t.as_str());
                    idx += 1;
                    assert(output@ =~= "(tuple"@ + prefix_text(s, idx as int, interner@));
                }
                proof { lemma_prefix_text_all(s, interner@); }
                output.append(")");
                output
            },
            IrConstValue::Callable(c) => c.fmt(),
        }
    }
}

/// The text of the first `n` items, separated by line breaks.
pub open spec fn prefix_text(s: Seq<IrConstValue>, n: int, strs: Seq<Seq<char>>) -> Seq<char>
    decreases n,
{
    if n <= 0 {
        Seq::empty()
    } else if n == 1 {
        const_text(s[0], strs)
    } else {
        prefix_text(s, n - 1, strs) + "\n"@ + const_text(s[n - 1], strs)
    }
}

proof fn lemma_prefix_text_all(s: Seq<IrConstValue>, strs: Seq<Seq<char>>)
    ensures
        prefix_text(s, s.len() as int, strs) == items_text(s, strs),
    decreases s.len(),
{
    if s.len() > 1 {
        lemma_prefix_text_all(s.drop_first(), strs);
        lemma_prefix_shift(s, s.len() as int, strs);
    }
}

/// Dropping the first item of `s` drops the first item's text and its line break.
proof fn lemma_prefix_shift(s: Seq<IrConstValue>, n: int, strs: Seq<Seq<char>>)
    requires
        2 <= n <= s.len(),
    ensures
        prefix_text(s, n, strs) == const_text(s[0], strs) + "\n"@ + prefix_text(s.drop_first(), n - 1, strs),
    decreases n,
{
    if n > 2 {
        lemma_prefix_shift(s, n - 1, strs);
        assert(s.drop_first()[n - 2] == s[n - 1]);
        assert(prefix_text(s, n, strs) =~= const_text(s[0], strs) + "\n"@ + prefix_text(s.drop_first(), n - 1, strs));
    } else {
        assert(s.drop_first()[0] == s[1]);
        assert(prefix_text(s, 1, strs) == const_text(s[0], strs));
        assert(prefix_text(s.drop_first(), 1, strs) == const_text(s[1], strs));
        assert(prefix_text(s, 2, strs) =~= const_text(s[0], strs) + "\n"@ + prefix_text(s.drop_first(), 1, strs));
    }
}

#[derive(Debug, PartialEq)]
pub enum IrExpr {
    Const(IrConstValue),
    Add(IrValue, IrValue),
    Sub(IrValue, IrValue),
    Mul(IrValue, IrValue),
    Div(IrValue, IrValue),
    Rem(IrValue, IrValue),
}

pub open spec fn binary_text(name: Seq<char>, l: IrValue, r: IrValue) -> Seq<char> {
    "("@ + name + " "@ + l.text() + " "@ + r.text() + ")"@
}

impl IrExpr {
    pub open spec fn syms_in(self, strs: Seq<Seq<char>>) -> bool {
        match self {
            IrExpr::Const(c) => const_syms_in(c, strs),
            _ => true,
        }
    }

    pub open spec fn depth(self) -> nat {
        match self {
            IrExpr::Const(c) => 1 + const_depth(c),
            _ => 0,
        }
    }

    pub open spec fn text(self, strs: Seq<Seq<char>>) -> Seq<char> {
        match self {
            IrExpr::Const(c) => "(const "@ + const_text(c, strs) + ")"@,
            IrExpr::Add(l, r) => binary_text("add"@, l, r),
            IrExpr::Sub(l, r) => binary_text("sub"@, l, r),
            IrExpr::Mul(l, r) => binary_text("mul"@, l, r),
            IrExpr::Div(l, r) => binary_text("div"@, l, r),
            IrExpr::Rem(l, r) => binary_text("rem"@, l, r),
        }
    }

    /// The expression as the IR text writes it.
    pub fn fmt(&self, interner: &Interner, tabs: usize) -> (r: String)
        requires
            interner.wf(),
            self.syms_in(interner@),
            tabs + self.depth() < usize::MAX,
        ensures
            r@ == self.text(interner@),
    {
        match self {
            IrExpr::Const(c) => {
                let mut r = string_of("(const ");
                let t = c.fmt(interner, tabs + 1);
                r.append(t.as_str());
                r.append(")");
                r
            },
            IrExpr::Add(l, r) => fmt_binary("add", l, r),
            IrExpr::Sub(l, r) => fmt_binary("sub", l, r),
            IrExpr::Mul(l, r) => fmt_binary("mul", l, r),
            IrExpr::Div(l, r) => fmt_binary("div", l, r),
            IrExpr::Rem(l, r) => fmt_binary("rem", l, r),
        }
    }
}

fn fmt_binary(name: &str, l: &IrValue, r: &IrValue) -> (s: String)
    ensures
        s@ == binary_text(name@, *l, *r),
{
    let mut s = string_of("(");
    s.append(name);
    s.append(" ");
    s.append(l.fmt().as_str());
    s.append(" ");
    s.append(r.fmt().as_str());
    s.append(")");
    s
}

#[derive(Debug, PartialEq)]
pub enum IrInstKind {
    Assign {
        dst: IrValue,
        expr: IrExpr,
    },
}

impl IrInstKind {
    pub open spec fn text(self, strs: Seq<Seq<char>>) -> Seq<char> {
        match self {
            IrInstKind::Assign { dst, expr } =>
                "(= "@ + dst.text() + " "@ + expr.text(strs) + ")"@,
        }
    }

    /// The instruction as the IR text writes it.
    pub fn fmt(&self, interner: &Interner, tabs: usize) -> (r: String)
        requires
            interner.wf(),
            (match *self { IrInstKind::Assign { expr, .. } => expr.syms_in(interner@) && tabs + expr.depth() + 1 < usize::MAX }),
        ensures
            r@ == self.text(interner@),
    {
        match self {
            IrInstKind::Assign { dst, expr } => {
                let mut r = string_of("(= ");
                r.append(dst.fmt().as_str());
                r.append(" ");
                let e = expr.fmt(interner, tabs + 1);
                r.append(e.as_str());
                r.append(")");
                r
            },
        }
    }
}

#[derive(Debug, PartialEq)]
pub struct IrInst {
    pub kind: IrInstKind,
    pub span: Span,
}

impl IrInst {
    /// Whether the instruction can be written out from `tabs` on with the strings `strs`.
    pub open spec fn printable(self, strs: Seq<Seq<char>>, tabs: nat) -> bool {
        match self.kind {
            IrInstKind::Assign { expr, .. } => expr.syms_in(strs) && tabs + expr.depth() + 2 < usize::MAX,
        }
    }

    /// The instruction as the IR text writes it.
    pub fn fmt(&self, interner: &Interner, tabs: usize) -> (r: String)
        requires
            interner.wf(),
            self.printable(interner@, tabs as nat),
        ensures
            r@ == self.kind.text(interner@),
    {
        self.kind.fmt(interner, tabs + 1)
    }
}

#[derive(Debug, Clone, Copy, PartialEq, Eq, Structural)]
pub enum IrTerminalKind {
    Ret(IrValue),
}

impl IrTerminalKind {
    pub open spec fn text(self) -> Seq<char> {
        match self {
            IrTerminalKind::Ret(v) => "(ret "@ + v.text() + ")"@,
        }
    }

    /// The terminal as the IR text writes it.
    pub fn fmt(&self) -> (r: String)
        ensures
            r@ == self.text(),
    {
        match self {
            IrTerminalKind::Ret(v) => {
                let mut r = string_of("(ret ");
                r.append(v.fmt().as_str());
                r.append(")");
                r
            },
        }
    }
}

#[derive(Debug, Clone, Copy, PartialEq, Eq, Structural)]
pub struct IrTerminal {
    pub kind: IrTerminalKind,
    pub span: Span,
}

impl IrTerminal {
    /// The terminal as the IR text writes it.
    pub fn fmt(&self) -> (r: String)
        ensures
            r@ == self.kind.text(),
    {
        self.kind.fmt()
    }
}

/// A binary expression prints as its mnemonic and then its operands, the left one first, each
/// as `v` and its register number, in parentheses and separated by spaces.
pub proof fn law_binary_text(l: IrValue, r: IrValue, strs: Seq<Seq<char>>)
    ensures
        IrExpr::Add(l, r).text(strs) == seq!['('] + seq!['a', 'd', 'd'] + seq![' '] + l.text() + seq![' '] + r.text() + seq![')'],
        IrExpr::Sub(l, r).text(strs) == seq!['('] + seq!['s', 'u', 'b'] + seq![' '] + l.text() + seq![' '] + r.text() + seq![')'],
        IrExpr::Mul(l, r).text(strs) == seq!['('] + seq!['m', 'u', 'l'] + seq![' '] + l.text() + seq![' '] + r.text() + seq![')'],
        IrExpr::Div(l, r).text(strs) == seq!['('] + seq!['d', 'i', 'v'] + seq![' '] + l.text() + seq![' '] + r.text() + seq![')'],
        IrExpr::Rem(l, r).text(strs) == seq!['('] + seq!['r', 'e', 'm'] + seq![' '] + l.text() + seq![' '] + r.text() + seq![')'],
        l.text() == seq!['v'] + crate::common::text::decimal(l.0 as nat),
{
    reveal_strlit("(");
    reveal_strlit(")");
    reveal_strlit(" ");
    reveal_strlit("v");
    reveal_strlit("add");
    reveal_strlit("sub");
    reveal_strlit("mul");
    reveal_strlit("div");
    reveal_strlit("rem");
    assert(IrExpr::Add(l, r).text(strs) =~= seq!['('] + seq!['a', 'd', 'd'] + seq![' '] + l.text() + seq![' '] + r.text() + seq![')']);
    assert(IrExpr::Sub(l, r).text(strs) =~= seq!['('] + seq!['s', 'u', 'b'] + seq![' '] + l.text() + seq![' '] + r.text() + seq![')']);
    assert(IrExpr::Mul(l, r).text(strs) =~= seq!['('] + seq!['m', 'u', 'l'] + seq![' '] + l.text() + seq![' '] + r.text() + seq![')']);
    assert(IrExpr::Div(l, r).text(strs) =~= seq!['('] + seq!['d', 'i', 'v'] + seq![' '] + l.text() + seq![' '] + r.text() + seq![')']);
    assert(IrExpr::Rem(l, r).text(strs) =~= seq!['('] + seq!['r', 'e', 'm'] + seq![' '] + l.text() + seq![' '] + r.text() + seq![')']);
}

/// An assignment prints as `=`, the destination register and then the expression, in
/// parentheses and separated by spaces; a return prints as `ret` and the returned register
/// in parentheses.
pub proof fn law_assign_and_ret_text(dst: IrValue, expr: IrExpr, v: IrValue, strs: Seq<Seq<char>>)
    ensures
        (IrInstKind::Assign { dst, expr }).text(strs) == seq!['(', '=', ' '] + dst.text() + seq![' '] + expr.text(strs) + seq![')'],
        IrTerminalKind::Ret(v).text() == seq!['(', 'r', 'e', 't', ' '] + v.text() + seq![')'],
{
    reveal_strlit("(= ");
    reveal_strlit(" ");
    reveal_strlit(")");
    reveal_strlit("(ret ");
    assert((IrInstKind::Assign { dst, expr }).text(strs) =~= seq!['(', '=', ' '] + dst.text() + seq![' '] + expr.text(strs) + seq![')']);
    assert(IrTerminalKind::Ret(v).text() =~= seq!['(', 'r', 'e', 't', ' '] + v.text() + seq![')']);
}

} // verus!
