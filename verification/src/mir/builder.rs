//! Building the blocks of one MIR function.

use vstd::prelude::*;
use crate::common::Span;
use super::ty::MirType;
use super::inst::{MirExpr, MirInst, MirInstKind, MirTerminal, MirTerminalKind, MirValue};
use super::block::{MirBlock, MirBlockId};
use super::callable::MirSignature;

verus! {

/// The blocks of a function under construction, with the block that new instructions go
/// to. Block ids are handed out in order from 0: the block with id `i` is `blocks[i]`.
pub struct MirFunctionBuilder {
    pub sig: MirSignature,
    pub blocks: Vec<MirBlock>,
    pub next_block_id: usize,
    pub next_register_id: usize,
    pub current_block: Option<MirBlockId>,
}

/// Every register that `blocks` define, as a block parameter or as the target of an
/// instruction, lies below `n`.
pub open spec fn registers_below(blocks: Seq<MirBlock>, n: usize) -> bool {
    &&& forall|i: int, j: int| 0 <= i < blocks.len() && 0 <= j < blocks[i].params@.len()
        ==> (#[trigger] blocks[i].params@[j]).0.0 < n
    &&& forall|i: int, k: int| 0 <= i < blocks.len() && 0 <= k < blocks[i].insts@.len()
        ==> (#[trigger] blocks[i].insts@[k]).kind->dst.0 < n
}

impl MirFunctionBuilder {
    /// Each block sits at the index of its id, the id counter is the number of blocks, and
    /// every register defined so far lies below the register counter.
    pub open spec fn wf(&self) -> bool {
        &&& self.next_block_id == self.blocks@.len()
        &&& forall|i: int| 0 <= i < self.blocks@.len() ==> (#[trigger] self.blocks@[i]).id == MirBlockId(i as usize)
        &&& registers_below(self.blocks@, self.next_register_id)
    }

    /// Whether instructions can be added: a block is selected, it exists, and it has no
    /// terminal yet.
    pub open spec fn open_block(&self) -> bool {
        &&& self.current_block is Some
        &&& self.current_block->Some_0.0 < self.blocks@.len()
        &&& self.blocks@[self.current_block->Some_0.0 as int].terminal is None
    }

    /// A builder for a function with signature `sig`, with no blocks.
    pub fn new(sig: MirSignature) -> (r: MirFunctionBuilder)
        ensures
            r.wf(),
            r.sig == sig,
            r.blocks@.len() == 0,
            r.next_register_id == 0,
            r.current_block is None,
    {
        MirFunctionBuilder { sig, blocks: Vec::new(), next_block_id: 0, next_register_id: 0, current_block: None }
    }

    /// Adds an empty block whose parameters get fresh registers, one for each type in
    /// `params`, in order.
    pub fn create_block(&mut self, params: Vec<MirType>) -> (id: MirBlockId)
        requires
            old(self).wf(),
            old(self).next_block_id < usize::MAX,
            old(self).next_register_id + params@.len() <= usize::MAX,
        ensures
            final(self).wf(),
            id == MirBlockId(old(self).next_block_id),
            final(self).blocks@.len() == old(self).blocks@.len() + 1,
            forall|i: int| 0 <= i < old(self).blocks@.len() ==> final(self).blocks@[i] == old(self).blocks@[i],
            final(self).blocks@.last().params@ == Seq::new(params@.len(),
                |i: int| (MirValue((old(self).next_register_id + i) as usize), params@[i])),
            final(self).blocks@.last().insts@.len() == 0,
            final(self).blocks@.last().terminal is None,
            final(self).next_register_id == old(self).next_register_id + params@.len(),
            final(self).sig == old(self).sig,
            final(self).current_block == old(self).current_block,
    {
        let id = MirBlockId(self.next_block_id);
        self.next_block_id += 1;
        let mut regs: Vec<(MirValue, MirType)> = Vec::new();
        let mut i: usize = 0;
        while i < params.len()
            invariant
                i <= params@.len(),
                self.next_register_id == old(self).next_register_id + i,
                self.blocks == old(self).blocks,
                self.next_block_id == old(self).next_block_id + 1,
                self.sig == old(self).sig,
                self.current_block == old(self).current_block,
                old(self).wf(),
                id == MirBlockId(old(self).next_block_id),
                old(self).next_register_id + params@.len() <= usize::MAX,
                regs@ == Seq::new(i as nat, |j: int| (MirValue((old(self).next_register_id + j) as usize), params@[j])),
            decreases params.len() - i,
        {
            let reg = MirValue(self.next_register_id);
            self.next_register_id += 1;
            regs.push((reg, params[i]));
            i += 1;
            assert(regs@ =~= Seq::new(i as nat, |j: int| (MirValue((old(self).next_register_id + j) as usize), params@[j])));
        }
        self.blocks.push(MirBlock { id, params: regs, insts: Vec::new(), terminal: None });
        id
    }

    /// Makes `block` the block that new instructions go to.
    pub fn switch_to_block(&mut self, block: MirBlockId)
        ensures
            final(self).current_block == Some(block),
            final(self).blocks == old(self).blocks,
            final(self).sig == old(self).sig,
            final(self).next_block_id == old(self).next_block_id,
            final(self).next_register_id == old(self).next_register_id,
    {
        self.current_block = Some(block);
    }

    /// An instruction builder that adds to the current block, with `span` as the source
    /// of what it adds.
    pub fn ib(&mut self, span: Span) -> (r: MirInstBuilder<'_>)
        ensures
            *r.builder == *old(self),
            r.span == span,
            *final(self) == *final(r.builder),
    {
        MirInstBuilder { builder: self, span }
    }
}

/// Adds instructions and terminals to the current block of a function builder.
pub struct MirInstBuilder<'b> {
    pub builder: &'b mut MirFunctionBuilder,
    pub span: Span,
}

impl<'b> MirInstBuilder<'b> {
    /// Appends `dst = expr` of type `ty` to the current block, `dst` a fresh register.
    pub fn set(&mut self, ty: MirType, expr: MirExpr)
        requires
            old(self).builder.wf(),
            old(self).builder.open_block(),
            old(self).builder.next_register_id < usize::MAX,
        ensures
            final(self).builder.wf(),
            final(self).span == old(self).span,
            *final(final(self).builder) == *final(old(self).builder),
            ({
                let b = old(self).builder.current_block->Some_0.0 as int;
                let before = old(self).builder.blocks@;
                let after = final(self).builder.blocks@;
                &&& after.len() == before.len()
                &&& forall|i: int| 0 <= i < before.len() && i != b ==> after[i] == before[i]
                &&& after[b].id == before[b].id
                &&& after[b].params == before[b].params
                &&& after[b].terminal == before[b].terminal
                &&& after[b].insts@ == before[b].insts@.push(MirInst {
                    kind: MirInstKind::Assign { dst: MirValue(old(self).builder.next_register_id), ty, expr },
                    span: old(self).span,
                })
            }),
            final(self).builder.next_register_id == old(self).builder.next_register_id + 1,
            final(self).builder.current_block == old(self).builder.current_block,
            final(self).builder.sig == old(self).builder.sig,
            final(self).builder.next_block_id == old(self).builder.next_block_id,
    {
        let b = self.builder.current_block.unwrap().0;
        let dst = MirValue(self.builder.next_register_id);
        self.builder.next_register_id += 1;
        let inst = MirInst { kind: MirInstKind::Assign { dst, ty, expr }, span: self.span };
        let mut blocks: Vec<MirBlock> = Vec::new();
        std::mem::swap(&mut blocks, &mut self.builder.blocks);
        let mut block = blocks.remove(b);
        block.insts.push(inst);
        blocks.insert(b, block);
        self.builder.blocks = blocks;
        assert(self.builder.blocks@ =~= old(self).builder.blocks@.update(b as int, self.builder.blocks@[b as int]));
    }

    /// Ends the current block by returning `v`.
    pub fn ret(&mut self, v: MirValue)
        requires
            old(self).builder.wf(),
            old(self).builder.open_block(),
        ensures
            final(self).builder.wf(),
            final(self).span == old(self).span,
            *final(final(self).builder) == *final(old(self).builder),
            ({
                let b = old(self).builder.current_block->Some_0.0 as int;
                let before = old(self).builder.blocks@;
                let after = final(self).builder.blocks@;
                &&& after.len() == before.len()
                &&& forall|i: int| 0 <= i < before.len() && i != b ==> after[i] == before[i]
                &&& after[b].id == before[b].id
                &&& after[b].params == before[b].params
                &&& after[b].insts == before[b].insts
                &&& after[b].terminal == Some(MirTerminal { kind: MirTerminalKind::Ret(v), span: old(self).span })
            }),
            final(self).builder.next_register_id == old(self).builder.next_register_id,
            final(self).builder.current_block == old(self).builder.current_block,
            final(self).builder.sig == old(self).builder.sig,
            final(self).builder.next_block_id == old(self).builder.next_block_id,
    {
        let b = self.builder.current_block.unwrap().0;
        let mut blocks: Vec<MirBlock> = Vec::new();
        std::mem::swap(&mut blocks, &mut self.builder.blocks);
        let mut block = blocks.remove(b);
        block.terminal = Some(MirTerminal { kind: MirTerminalKind::Ret(v), span: self.span });
        blocks.insert(b, block);
        self.builder.blocks = blocks;
        assert(self.builder.blocks@ =~= old(self).builder.blocks@.update(b as int, self.builder.blocks@[b as int]));
    }
}

/// The register that the next instruction or block parameter gets is defined nowhere in the
/// builder yet.
pub proof fn law_next_register_fresh(b: MirFunctionBuilder)
    requires
        b.wf(),
    ensures
        forall|i: int, j: int| 0 <= i < b.blocks@.len() && 0 <= j < b.blocks@[i].params@.len()
            ==> (#[trigger] b.blocks@[i].params@[j]).0 != MirValue(b.next_register_id),
        forall|i: int, k: int| 0 <= i < b.blocks@.len() && 0 <= k < b.blocks@[i].insts@.len()
            ==> (#[trigger] b.blocks@[i].insts@[k]).kind->dst != MirValue(b.next_register_id),
{
}

} // verus!
