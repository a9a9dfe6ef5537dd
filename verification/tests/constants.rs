use miel::common::const_eval::{eval_bool, eval_int};
use miel::common::{Context, Interner, Operator, Sym};
use miel::lexer::tokenize;
use miel::parser::ast::Node;
use miel::parser::Parser;
use miel::sema::constants::bigint::BigInt;
use miel::sema::constants::collect::ConstantCollector;
use miel::sema::constants::ConstValue;
use miel::sema::scope::{SymbolMap, SymbolMapKind};
use miel::sema::symbol::ConstValue as OldValue;
use miel::sema::types::{TypeId, TypeManager, Type};

fn big(n: i64) -> BigInt {
    let m = n.unsigned_abs();
    let mut digits = Vec::new();
    if m != 0 {
        digits.push(m as u32);
        if m >> 32 != 0 {
            digits.push((m >> 32) as u32);
        }
    }
    BigInt { negative: n < 0, digits }
}

fn int_of(v: &ConstValue) -> BigInt {
    match v {
        ConstValue::Int(b) => b.clone(),
        _ => panic!("expected an integer"),
    }
}

#[test]
fn eval_int_arithmetic() {
    assert_eq!(int_of(&eval_int(&Operator::Plus, &big(40), &big(2)).unwrap()), big(42));
    assert_eq!(int_of(&eval_int(&Operator::Minus, &big(2), &big(40)).unwrap()), big(-38));
    assert_eq!(int_of(&eval_int(&Operator::Star, &big(-6), &big(7)).unwrap()), big(-42));
    assert_eq!(int_of(&eval_int(&Operator::Slash, &big(-7), &big(2)).unwrap()), big(-3));
    assert_eq!(int_of(&eval_int(&Operator::Modulo, &big(-7), &big(2)).unwrap()), big(-1));
    let large = BigInt { negative: false, digits: vec![0xFFFF_FFFF, 0xFFFF_FFFF] };
    assert_eq!(int_of(&eval_int(&Operator::Plus, &large, &big(1)).unwrap()),
        BigInt { negative: false, digits: vec![0, 0, 1] });
    assert_eq!(int_of(&eval_int(&Operator::Minus, &big(5), &big(5)).unwrap()), big(0));
}

#[test]
fn integer_literals_of_any_size() {
    let mut interner = Interner::new();
    let mut types = TypeManager::new(&mut interner);
    let items = parse_items("big :: 12345678901234567890 zero :: 0", &mut interner);
    let mut scope = vec![SymbolMap::new(SymbolMapKind::Default)];
    {
        let mut c = ConstantCollector::new(&interner, &mut scope, &mut types);
        assert!(c.collect_constants(&items).is_ok());
    }
    let b = sym(&mut interner, "big");
    let z = sym(&mut interner, "zero");
    assert_eq!(int_of(scope[0].find_symbol(&b).unwrap().val.unwrap()),
        BigInt { negative: false, digits: vec![0xEB1F0AD2, 0xAB54A98C] });
    assert_eq!(int_of(scope[0].find_symbol(&z).unwrap().val.unwrap()), big(0));
}

#[test]
fn eval_int_operators() {
    assert_eq!(int_of(&eval_int(&Operator::Slash, &big(7), &big(-2)).unwrap()), big(-3));
    assert_eq!(int_of(&eval_int(&Operator::Modulo, &big(7), &big(-2)).unwrap()), big(1));
    assert_eq!(int_of(&eval_int(&Operator::Pipe, &big(12), &big(3)).unwrap()), big(15));
    assert_eq!(int_of(&eval_int(&Operator::Ampersand, &big(-1), &big(6)).unwrap()), big(6));
    assert_eq!(int_of(&eval_int(&Operator::Caret, &big(5), &big(1)).unwrap()), big(4));
    assert!(matches!(eval_int(&Operator::Ge, &big(3), &big(3)), Some(ConstValue::Bool(true))));
    assert!(matches!(eval_int(&Operator::Ne, &big(3), &big(3)), Some(ConstValue::Bool(false))));
    assert!(matches!(eval_int(&Operator::Lt, &big(-3), &big(3)), Some(ConstValue::Bool(true))));
    assert!(eval_int(&Operator::KwAnd, &big(1), &big(1)).is_none());
}

#[test]
fn eval_bool_operators() {
    assert!(matches!(eval_bool(&Operator::KwXor, &true, &true), Some(ConstValue::Bool(false))));
    assert!(matches!(eval_bool(&Operator::Pipe, &false, &true), Some(ConstValue::Bool(true))));
    assert!(matches!(eval_bool(&Operator::KwAnd, &true, &false), Some(ConstValue::Bool(false))));
    assert!(eval_bool(&Operator::Plus, &true, &true).is_none());
}

#[test]
fn old_eval_infix() {
    assert!(matches!(Operator::Slash.eval_infix(&OldValue::Int(-7), &OldValue::Int(2)), Some(OldValue::Int(-3))));
    assert!(matches!(Operator::Modulo.eval_infix(&OldValue::Int(-7), &OldValue::Int(2)), Some(OldValue::Int(-1))));
    assert!(matches!(Operator::Ne.eval_infix(&OldValue::Int(1), &OldValue::Int(1)), Some(OldValue::Bool(true))));
    assert!(matches!(Operator::KwXor.eval_infix(&OldValue::Bool(true), &OldValue::Bool(false)), Some(OldValue::Bool(true))));
    assert!(matches!(Operator::Eq.eval_infix(&OldValue::Nil, &OldValue::Nil), Some(OldValue::Bool(true))));
    assert!(Operator::Plus.eval_infix(&OldValue::Int(1), &OldValue::Bool(true)).is_none());
    let a = OldValue::Tuple(vec![OldValue::Int(1), OldValue::Nil]);
    let b = OldValue::Tuple(vec![OldValue::Int(1), OldValue::Nil]);
    let c = OldValue::Tuple(vec![OldValue::Int(2), OldValue::Nil]);
    let d = OldValue::Tuple(vec![OldValue::Bool(true)]);
    assert!(matches!(Operator::Eq.eval_infix(&a, &b), Some(OldValue::Bool(true))));
    assert!(matches!(Operator::Eq.eval_infix(&a, &c), Some(OldValue::Bool(false))));
    assert!(matches!(Operator::Ne.eval_infix(&a, &c), Some(OldValue::Bool(true))));
    assert!(Operator::Eq.eval_infix(&d, &d).is_none());
}

#[test]
fn old_eval_prefix() {
    assert!(matches!(Operator::Minus.eval_prefix(&OldValue::Int(5)), Some(OldValue::Int(-5))));
    assert!(matches!(Operator::Bang.eval_prefix(&OldValue::Int(0)), Some(OldValue::Int(-1))));
    assert!(matches!(Operator::KwNot.eval_prefix(&OldValue::Bool(false)), Some(OldValue::Bool(true))));
    assert!(Operator::KwNot.eval_prefix(&OldValue::Int(1)).is_none());
}

fn parse_items(src: &str, interner: &mut Interner) -> Vec<Node> {
    let toks = tokenize(0, src, interner).unwrap();
    let ctx = Context { interner: &*interner, source_id: 0 };
    let mut p = Parser::new(&ctx, &toks);
    p.parse().unwrap().0
}

fn sym(interner: &mut Interner, s: &str) -> Sym {
    interner.intern(s)
}

#[test]
fn collect_constants_defines_values() {
    let mut interner = Interner::new();
    let mut types = TypeManager::new(&mut interner);
    let items = parse_items("x :: 5 y: int :: x", &mut interner);
    let mut scope = vec![SymbolMap::new(SymbolMapKind::Default)];
    {
        let mut c = ConstantCollector::new(&interner, &mut scope, &mut types);
        assert!(c.collect_constants(&items).is_ok());
    }
    let x = sym(&mut interner, "x");
    let y = sym(&mut interner, "y");
    let sx = scope[0].find_symbol(&x).unwrap();
    assert_eq!(*sx.ty, TypeId(16));
    assert_eq!(int_of(sx.val.unwrap()), big(5));
    let sy = scope[0].find_symbol(&y).unwrap();
    assert_eq!(*sy.ty, TypeId(0));
    assert_eq!(int_of(sy.val.unwrap()), big(5));
    assert_eq!(types.get_type(&TypeId(16)), Some(&Type::Int));
}

#[test]
fn collect_constants_reports_errors() {
    let mut interner = Interner::new();
    let mut types = TypeManager::new(&mut interner);
    let items = parse_items("a: bool :: 1 b :: q c :: f(1)", &mut interner);
    let mut scope = vec![SymbolMap::new(SymbolMapKind::Default)];
    let errs = {
        let mut c = ConstantCollector::new(&interner, &mut scope, &mut types);
        c.collect_constants(&items).unwrap_err()
    };
    assert_eq!(errs.len(), 3);
    assert_eq!(errs[0].message, "Type mismatch");
    assert_eq!(errs[0].labels[0].message, "expected `bool`, found `<int>`");
    assert!(errs[0].notes[0].contains("note"));
    assert!(errs[0].notes[0].ends_with(": annotated type and initializer type must be of the same type"));
    assert_eq!(errs[1].message, "Unknown identifier");
    assert_eq!(errs[1].labels[0].message, "`q` not in scope");
    assert_eq!(errs[2].message, "Unexpected non-constant expression");
    assert_eq!(errs[2].labels[0].message, "expected constant expression");
}

#[test]
fn constant_copy_is_equal() {
    let v = ConstValue::Tuple(vec![ConstValue::Int(big(3)), ConstValue::Nil, ConstValue::Bool(false)]);
    match v.copy() {
        ConstValue::Tuple(items) => {
            assert_eq!(items.len(), 3);
            assert_eq!(int_of(&items[0]), big(3));
        },
        _ => panic!("expected a tuple"),
    }
}

#[test]
fn evaluation_only_adds_types() {
    let mut interner = Interner::new();
    let mut types = TypeManager::new(&mut interner);
    let items = parse_items("a :: 1 b :: 2.5 c :: true", &mut interner);
    let mut scope = vec![SymbolMap::new(SymbolMapKind::Default)];
    {
        let mut c = ConstantCollector::new(&interner, &mut scope, &mut types);
        assert!(c.collect_constants(&items).is_ok());
    }
    assert_eq!(types.get_type(&TypeId(0)), Some(&Type::Int));
    assert_eq!(types.get_type(&TypeId(13)), Some(&Type::Bool));
    assert_eq!(types.get_type(&TypeId(16)), Some(&Type::AmbiguousInt));
    assert_eq!(types.get_type(&TypeId(17)), Some(&Type::AmbiguousFloat));
    assert_eq!(types.get_type(&TypeId(18)), None);
    let c = sym(&mut interner, "c");
    let sc = scope[0].find_symbol(&c).unwrap();
    assert_eq!(*sc.ty, TypeId(13));
    assert!(matches!(sc.val, Some(ConstValue::Bool(true))));
}

#[test]
fn old_tuple_ne_negates_eq() {
    let a = OldValue::Tuple(vec![OldValue::Int(1), OldValue::Tuple(vec![OldValue::Nil])]);
    let b = OldValue::Tuple(vec![OldValue::Int(1), OldValue::Tuple(vec![OldValue::Nil])]);
    let c = OldValue::Tuple(vec![OldValue::Int(1), OldValue::Tuple(vec![OldValue::Int(3)])]);
    let d = OldValue::Tuple(vec![OldValue::Bool(true)]);
    for (l, r) in [(&a, &b), (&a, &c), (&d, &d), (&a, &d)] {
        let eq = Operator::Eq.eval_infix(l, r);
        let ne = Operator::Ne.eval_infix(l, r);
        match (eq, ne) {
            (Some(OldValue::Bool(x)), Some(OldValue::Bool(y))) => assert_eq!(x, !y),
            (None, None) => {},
            _ => panic!("`==` and `!=` disagree on whether they apply"),
        }
    }
}
