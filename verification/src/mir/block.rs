//! MIR basic blocks.

use vstd::prelude::*;
use crate::common::Interner;
use crate::common::text::{decimal, push_decimal, string_of};
use super::ty::MirType;
use super::inst::{MirInst, MirTerminal, MirValue};

verus! {

#[derive(Debug, Clone, Copy, PartialEq, Eq, Hash, Structural)]
pub struct MirBlockId(pub usize);

impl MirBlockId {
    pub open spec fn text(self) -> Seq<char> {
        "b"@ + decimal(self.0 as nat)
    }

    /// `b` and the number.
    pub fn fmt(&self) -> (r: String)
        ensures
            r@ == self.text(),
    {
        let mut r = string_of("b");
        push_decimal(&mut r, self.0);
        r
    }
}

#[derive(Debug, PartialEq)]
pub struct MirBlock {
    pub id: MirBlockId,
    pub params: Vec<(MirValue, MirType)>,
    pub insts: Vec<MirInst>,
    pub terminal: Option<MirTerminal>,
}

/// `n` levels of indentation, four spaces each.
pub open spec fn indent(n: nat) -> Seq<char>
    decreases n,
{
    if n == 0 { Seq::empty() } else { indent((n - 1) as nat) + "    "@ }
}

/// Appends `n` levels of indentation.
pub fn push_indent(s: &mut String, n: usize)
    ensures
        final(s)@ == old(s)@ + indent(n as nat),
{
    let mut i: usize = 0;
    assert(s@ =~= old(s)@ + indent(0));
    while i < n
        invariant
            i <= n,
            s@ == old(s)@ + indent(i as nat),
        decreases n - i,
    {
        s.append("    ");
        i += 1;
        assert(s@ =~= old(s)@ + indent(i as nat));
    }
}

pub open spec fn param_text(p: (MirValue, MirType)) -> Seq<char> {
    "("@ + p.0.text() + " "@ + p.1.name() + ")"@
}

/// The parameters, separated by spaces.
pub open spec fn params_text(s: Seq<(MirValue, MirType)>) -> Seq<char>
    decreases s.len(),
{
    if s.len() == 0 {
        Seq::empty()
    } else if s.len() == 1 {
        param_text(s[0])
    } else {
        params_text(s.drop_last()) + " "@ + param_text(s.last())
    }
}

/// Each instruction on a line of its own, indented by `ind`.
pub open spec fn insts_text(s: Seq<MirInst>, strs: Seq<Seq<char>>, ind: Seq<char>) -> Seq<char>
    decreases s.len(),
{
    if s.len() == 0 {
        Seq::empty()
    } else {
        insts_text(s.drop_last(), strs, ind) + "\n"@ + ind + s.last().kind.text(strs)
    }
}

impl MirBlock {
    /// Whether the block can be written out from `tabs` on with the strings `strs`.
    pub open spec fn printable(self, strs: Seq<Seq<char>>, tabs: nat) -> bool {
        &&& tabs + 1 < usize::MAX
        &&& forall|i: int| 0 <= i < self.insts@.len() ==> (#[trigger] self.insts@[i]).printable(strs, tabs + 1)
    }

    pub open spec fn text(self, strs: Seq<Seq<char>>, tabs: nat) -> Seq<char> {
        let ind = indent(tabs + 1);
        "(block "@ + self.id.text() + " ("@ + params_text(self.params@) + ")"@
            + insts_text(self.insts@, strs, ind)
            + (match self.terminal { Some(t) => "\n"@ + ind + t.kind.text(), None => Seq::empty() })
            + ")"@
    }

    /// The block as the MIR text writes it, its lines indented one level deeper than `tabs`.
    pub fn fmt(&self, interner: &Interner, tabs: usize) -> (r: String)
        requires
            interner.wf(),
            self.printable(interner@, tabs as nat),
        ensures
            r@ == self.text(interner@, tabs as nat),
    {
        let mut f = string_of("(block ");
        f.append(self.id.fmt().as_str());
        f.append(" (");
        let ghost head = f@;
        let mut idx: usize = 0;
        assert(f@ =~= head + params_text(self.params@.subrange(0, 0)));
        while idx < self.params.len()
            invariant
                idx <= self.params@.len(),
                f@ == head + params_text(self.params@.subrange(0, idx as int)),
            decreases self.params.len() - idx,
        {
            if idx > 0 {
                f.append(" ");
            }
            let (pr, pt) = self.params[idx];
            f.append("(");
            f.append(pr.fmt().as_str());
            f.append(" ");
            f.append(pt.fmt());
            f.append(")");
            proof {
                let pre = self.params@.subrange(0, idx + 1);
                assert(pre.drop_last() =~= self.params@.subrange(0, idx as int));
                assert(pre.last() == (pr, pt));
                if idx == 0 {
                    assert(self.params@.subrange(0, 0) =~= Seq::<(MirValue, MirType)>::empty());
                }
                assert(f@ =~= head + params_text(pre));
            }
            idx += 1;
        }
        assert(self.params@.subrange(0, self.params@.len() as int) =~= self.params@);
        f.append(")");
        let ghost head2 = f@;
        let ghost ind = indent((tabs + 1) as nat);
        let mut k: usize = 0;
        assert(f@ =~= head2 + insts_text(self.insts@.subrange(0, 0), interner@, ind));
        while k < self.insts.len()
            invariant
                k <= self.insts@.len(),
                interner.wf(),
                self.printable(interner@, tabs as nat),
                ind == indent((tabs + 1) as nat),
                f@ == head2 + insts_text(self.insts@.subrange(0, k as int), interner@, ind),
            decreases self.insts.len() - k,
        {
            f.append("\n");
            push_indent(&mut f, tabs + 1);
            assert(self.insts@[k as int].printable(interner@, (tabs + 1) as nat));
            let t = self.insts[k].fmt(interner, tabs + 1);
            f.append(t.as_str());
            proof {
                let pre = self.insts@.subrange(0, k + 1);
                assert(pre.drop_last() =~= self.insts@.subrange(0, k as int));
                assert(pre.last() == self.insts@[k as int]);
                assert(f@ =~= head2 + insts_text(pre, interner@, ind));
            }
            k += 1;
        }
        assert(self.insts@.subrange(0, self.insts@.len() as int) =~= self.insts@);
        let ghost head3 = f@;
        match &self.terminal {
            Some(t) => {
                f.append("\n");
                push_indent(&mut f, tabs + 1);
                f.append(t.fmt().as_str());
                assert(f@ =~= head3 + ("\n"@ + ind + t.kind.text()));
            },
            None => {
                assert(f@ =~= head3 + Seq::<char>::empty());
            },
        }
        f.append(")");
        f
    }
}

} // verus!
