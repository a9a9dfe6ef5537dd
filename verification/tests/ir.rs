use miel::common::{Context, Interner, Span};
use miel::ir::block::IrBlockId;
use miel::ir::builder::IrFunctionBuilder;
use miel::ir::callable::{IrCallableId, IrSignature};
use miel::ir::codegen::Codegen;
use miel::ir::inst::{IrExpr, IrTerminal, IrTerminalKind, IrValue};
use miel::ir::ty::IrType;
use miel::parser::ast::Ast;

#[test]
fn ir_builder_and_format() {
    let mut fb = IrFunctionBuilder::new(IrSignature { params: vec![IrType::F32], return_: IrType::F32 });
    let b = fb.create_block(vec![IrType::F32]);
    assert_eq!(b, IrBlockId(0));
    fb.switch_to_block(b);
    {
        let mut ib = fb.ib(Span { start: 2, end: 3, source_id: 0 });
        ib.set(IrExpr::Mul(IrValue(0), IrValue(0)));
        ib.ret(IrValue(1));
    }
    let interner = Interner::new();
    assert_eq!(fb.blocks[0].fmt(&interner, 0), "(block b0 ((v0 f32))\n    (= v1 (mul v0 v0))\n    (ret v1))");
    let t = IrTerminal { kind: IrTerminalKind::Ret(IrValue(9)), span: Span { start: 0, end: 0, source_id: 0 } };
    assert_eq!(t.fmt(), "(ret v9)");
    assert_eq!(IrCallableId(1).fmt(), "ca1");
}

#[test]
fn codegen_generates_nothing_yet() {
    let interner = Interner::new();
    let ctx = Context { interner: &interner, source_id: 0 };
    let mut cg = Codegen::new("m", ctx);
    assert!(cg.generate(&Ast(vec![])).is_ok());
}
