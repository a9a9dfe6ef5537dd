use miel::common::{Context, Interner, Span};
use miel::mir::block::MirBlockId;
use miel::mir::builder::MirFunctionBuilder;
use miel::mir::callable::{MirCallable, MirCallableId, MirSignature};
use miel::mir::inst::{MirConstId, MirConstValue, MirExpr, MirInstKind, MirTerminal, MirTerminalKind, MirValue};
use miel::mir::module::MirModule;
use miel::mir::ty::MirType;

fn span() -> Span {
    Span { start: 0, end: 1, source_id: 0 }
}

#[test]
fn mir_ids_and_terminals_format() {
    assert_eq!(MirValue(12).fmt(), "v12");
    assert_eq!(MirBlockId(0).fmt(), "b0");
    assert_eq!(MirConstId(7).fmt(), "co7");
    assert_eq!(MirCallableId(3).fmt(), "ca3");
    assert_eq!(MirType::U64.fmt(), "u64");
    let t = MirTerminal { kind: MirTerminalKind::Ret(MirValue(4)), span: span() };
    assert_eq!(t.fmt(), "(ret v4)");
    assert_eq!(MirTerminalKind::Ret(MirValue(40)).fmt(), "(ret v40)");
}

#[test]
fn mir_builder_builds_blocks() {
    let sig = MirSignature { params: vec![MirType::Int, MirType::U8], return_: MirType::Int };
    assert_eq!(sig.fmt(), "(int u8) int");
    let mut fb = MirFunctionBuilder::new(sig);
    let b0 = fb.create_block(vec![MirType::Int, MirType::U8]);
    let b1 = fb.create_block(vec![MirType::I8]);
    assert_eq!(b0, MirBlockId(0));
    assert_eq!(b1, MirBlockId(1));
    assert_eq!(fb.blocks[1].params, vec![(MirValue(2), MirType::I8)]);
    fb.switch_to_block(b0);
    {
        let mut ib = fb.ib(span());
        ib.set(MirType::Int, MirExpr::IAdd(MirValue(0), MirValue(1)));
        ib.ret(MirValue(3));
    }
    assert_eq!(fb.next_register_id, 4);
    assert_eq!(fb.blocks[0].insts.len(), 1);
    assert!(matches!(fb.blocks[0].insts[0].kind, MirInstKind::Assign { dst: MirValue(3), .. }));
    let interner = Interner::new();
    assert_eq!(
        fb.blocks[0].fmt(&interner, 0),
        "(block b0 ((v0 int) (v1 u8))\n    (= int v3 (iadd v0 v1))\n    (ret v3))"
    );
    assert_eq!(fb.blocks[1].fmt(&interner, 1), "(block b1 ((v2 i8)))");
}

#[test]
fn mir_constants_format() {
    let mut interner = Interner::new();
    let one = interner.intern("1");
    let half = interner.intern("0.5");
    let v = MirConstValue::Tuple(vec![MirConstValue::Int(one), MirConstValue::Float(half), MirConstValue::Bool(true)]);
    assert_eq!(v.fmt(&interner, 0), "(tuple(int 1)\n(float 0.5)\n(bool true))");
    assert_eq!(MirConstValue::Nil.fmt(&interner, 0), "nil");
    assert_eq!(MirExpr::Const(MirConstValue::Callable(MirCallableId(2))).fmt(&interner, 0), "(const ca2)");
    assert_eq!(MirExpr::URem(MirValue(1), MirValue(2)).fmt(&interner, 0), "(urem v1 v2)");
}

#[test]
fn mir_callable_format() {
    let sig = MirSignature { params: vec![], return_: MirType::Nil };
    let mut fb = MirFunctionBuilder::new(sig);
    let b = fb.create_block(vec![]);
    fb.switch_to_block(b);
    fb.ib(span()).ret(MirValue(0));
    let c = MirCallable { sig: fb.sig, blocks: fb.blocks };
    let interner = Interner::new();
    assert_eq!(c.fmt(&interner, 0), "(callable () nil\n    (block b0 ()\n        (ret v0)))");
}

#[test]
fn mir_module_defines() {
    let interner = Interner::new();
    let ctx = Context { interner: &interner, source_id: 0 };
    let mut m = MirModule::new("main", ctx);
    let fb = MirFunctionBuilder::new(MirSignature { params: vec![], return_: MirType::Nil });
    assert_eq!(m.define_callable(fb), MirCallableId(0));
    let mut names = Interner::new();
    let k = names.intern("K");
    let c1 = MirCallable { sig: MirSignature { params: vec![], return_: MirType::Int }, blocks: vec![] };
    let c2 = MirCallable { sig: MirSignature { params: vec![], return_: MirType::Int }, blocks: vec![] };
    assert_eq!(m.define_constant(k, c1), Some(MirConstId(1)));
    assert_eq!(m.define_constant(k, c2), None);
}

#[test]
fn mir_module_format() {
    let mut interner = Interner::new();
    let k = interner.intern("K");
    let ctx = Context { interner: &interner, source_id: 0 };
    let mut m = MirModule::new("main", ctx);
    let fb = MirFunctionBuilder::new(MirSignature { params: vec![], return_: MirType::Nil });
    m.define_callable(fb);
    let c = MirCallable { sig: MirSignature { params: vec![MirType::I8], return_: MirType::Int }, blocks: vec![] };
    m.define_constant(k, c);
    assert_eq!(
        m.fmt(),
        "(module main\n    (callables\n        (ca0 (callable () nil)))\n    (constants\n        (K (callable (i8) int))))"
    );
}

#[test]
fn mir_builder_registers_are_fresh() {
    let sig = MirSignature { params: vec![], return_: MirType::Nil };
    let mut fb = MirFunctionBuilder::new(sig);
    let b0 = fb.create_block(vec![MirType::Int, MirType::Int]);
    let b1 = fb.create_block(vec![MirType::U8]);
    for b in [b0, b1] {
        fb.switch_to_block(b);
        let mut ib = fb.ib(span());
        ib.set(MirType::Int, MirExpr::IAdd(MirValue(0), MirValue(1)));
        ib.set(MirType::Int, MirExpr::IAdd(MirValue(0), MirValue(1)));
    }
    let mut regs = Vec::new();
    for blk in &fb.blocks {
        regs.extend(blk.params.iter().map(|p| p.0 .0));
        for inst in &blk.insts {
            match inst.kind {
                MirInstKind::Assign { dst, .. } => regs.push(dst.0),
            }
        }
    }
    assert_eq!(regs.len(), 7);
    assert!(regs.iter().all(|r| *r < fb.next_register_id));
    let mut sorted = regs.clone();
    sorted.sort();
    sorted.dedup();
    assert_eq!(sorted.len(), regs.len());
}
