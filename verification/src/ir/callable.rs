//! IR callables and their signatures.

use vstd::prelude::*;
use crate::common::Interner;
use crate::common::text::{decimal, push_decimal, string_of};
use super::ty::IrType;
use super::block::{IrBlock, indent, push_indent};

verus! {

#[derive(Debug, Clone, Copy, PartialEq, Eq, Hash, Structural)]
pub struct IrCallableId(pub usize);

impl IrCallableId {
    pub open spec fn text(self) -> Seq<char> {
        "ca"@ + decimal(self.0 as nat)
    }

    /// `ca` and the number.
    pub fn fmt(&self) -> (r: String)
        ensures
            r@ == self.text(),
    {
        let mut r = string_of("ca");
        push_decimal(&mut r, self.0);
        r
    }
}

#[derive(Debug, PartialEq)]
pub struct IrSignature {
    pub params: Vec<IrType>,
    pub return_: IrType,
}

/// The names of the types, separated by spaces.
pub open spec fn types_text(s: Seq<IrType>) -> Seq<char>
    decreases s.len(),
{
    if s.len() == 0 {
        Seq::empty()
    } else if s.len() == 1 {
        s[0].name()
    } else {
        types_text(s.drop_last()) + " "@ + s.last().name()
    }
}

impl IrSignature {
    pub open spec fn text(self) -> Seq<char> {
        "("@ + types_text(self.params@) + ") "@ + self.return_.name()
    }

    /// The signature as the IR text writes it: the parameter types, then the return type.
    pub fn fmt(&self) -> (r: String)
        ensures
            r@ == self.text(),
    {
        let mut r = string_of("(");
        let mut idx: usize = 0;
        while idx < self.params.len()
            invariant
                idx <= self.params@.len(),
                r@ == "("@ + types_text(self.params@.subrange(0, idx as int)),
            decreases self.params.len() - idx,
        {
            let ghost before = r@;
            if idx > 0 {
                r.append(" ");
            }
            r.append(self.params[idx].fmt());
            proof {
                let pre = self.params@.subrange(0, idx + 1);
                assert(pre.drop_last() =~= self.params@.subrange(0, idx as int));
                if idx == 0 {
                    assert(self.params@.subrange(0, 0) =~= Seq::<IrType>::empty());
                    assert(r@ =~= "("@ + types_text(pre));
                } else {
                    assert(r@ =~= "("@ + types_text(pre));
                }
            }
            idx += 1;
        }
        assert(self.params@.subrange(0, self.params@.len() as int) =~= self.params@);
        r.append(") ");
        r.append(self.return_.fmt());
        r
    }
}

#[derive(Debug, PartialEq)]
pub struct IrCallable {
    pub sig: IrSignature,
    pub blocks: Vec<IrBlock>,
}

/// Each block on a line of its own, indented by `ind`, as written from `tabs` on.
pub open spec fn blocks_text(s: Seq<IrBlock>, strs: Seq<Seq<char>>, tabs: nat) -> Seq<char>
    decreases s.len(),
{
    if s.len() == 0 {
        Seq::empty()
    } else {
        blocks_text(s.drop_last(), strs, tabs) + "\n"@ + indent(tabs + 1) + s.last().text(strs, tabs + 1)
    }
}

impl IrCallable {
    /// Whether the callable can be written out from `tabs` on with the strings `strs`.
    pub open spec fn printable(self, strs: Seq<Seq<char>>, tabs: nat) -> bool {
        &&& tabs + 1 < usize::MAX
        &&& forall|i: int| 0 <= i < self.blocks@.len() ==> (#[trigger] self.blocks@[i]).printable(strs, tabs + 1)
    }

    pub open spec fn text(self, strs: Seq<Seq<char>>, tabs: nat) -> Seq<char> {
        "(callable "@ + self.sig.text() + blocks_text(self.blocks@, strs, tabs) + ")"@
    }

    /// The callable as the IR text writes it: its signature, then each block on a line of
    /// its own.
    pub fn fmt(&self, interner: &Interner, tabs: usize) -> (r: String)
        requires
            interner.wf(),
            self.printable(interner@, tabs as nat),
        ensures
            r@ == self.text(interner@, tabs as nat),
    {
        let mut f = string_of("(callable ");
        f.append(self.sig.fmt().as_str());
        let ghost head = f@;
        let mut k: usize = 0;
        assert(f@ =~= head + blocks_text(self.blocks@.subrange(0, 0), interner@, tabs as nat));
        while k < self.blocks.len()
            invariant
                k <= self.blocks@.len(),
                interner.wf(),
                self.printable(interner@, tabs as nat),
                f@ == head + blocks_text(self.blocks@.subrange(0, k as int), interner@, tabs as nat),
            decreases self.blocks.len() - k,
        {
            f.append("\n");
            push_indent(&mut f, tabs + 1);
            assert(self.blocks@[k as int].printable(interner@, (tabs + 1) as nat));
            let t = self.blocks[k].fmt(interner, tabs + 1);
            f.append(t.as_str());
            proof {
                let pre = self.blocks@.subrange(0, k + 1);
                assert(pre.drop_last() =~= self.blocks@.subrange(0, k as int));
                assert(pre.last() == self.blocks@[k as int]);
                assert(f@ =~= head + blocks_text(pre, interner@, tabs as nat));
            }
            k += 1;
        }
        assert(self.blocks@.subrange(0, self.blocks@.len() as int) =~= self.blocks@);
        f.append(")");
        f
    }
}

} // verus!
