use miel::common::{Interner, Operator, ReassignmentOp, Span};
use miel::parser::ast::{ParsedType, ParsedTypeKind};
use miel::sema::ty::{Type, TypeId, TypePool};
use miel::sema::types::{Type as SemaType, TypeId as SemaTypeId, TypeManager};

const BOOL: TypeId = TypeId(14);

/// The primitive pool with `bool` created under id 14, then `extra`.
fn pool_with(extra: Vec<Type>) -> (TypePool, Vec<TypeId>) {
    let mut pool = TypePool::new();
    assert_eq!(pool.create_type(Type::Bool), BOOL);
    let ids = extra.into_iter().map(|t| pool.create_type(t)).collect();
    (pool, ids)
}

#[test]
fn type_pool_new_holds_primitives() {
    let pool = TypePool::new();
    assert_eq!(pool.int_id, TypeId(0));
    assert_eq!(pool.f64_id, TypeId(12));
    assert_eq!(pool.nil_id, TypeId(13));
    assert_eq!(pool.uint_id, TypeId(1));
    assert_eq!(pool.get_type(&TypeId(5)), Some(&Type::I64));
    assert_eq!(pool.get_type(&TypeId(13)), Some(&Type::Nil));
    assert_eq!(pool.get_type(&TypeId(14)), None);
}

#[test]
fn type_pool_create_and_coerce() {
    let mut pool = TypePool::new();
    let id = pool.create_type(Type::AmbiguousInt);
    assert_eq!(id, TypeId(14));
    pool.coerce_type(&id, Type::U8);
    assert_eq!(pool.get_type(&id), Some(&Type::U8));
}

#[test]
fn type_predicates() {
    assert!(Type::AmbiguousInt.is_int() && Type::AmbiguousInt.is_numeric());
    assert!(Type::F32.is_float() && !Type::F32.is_int());
    assert!(!Type::Bool.is_numeric());
    assert!(Type::UInt.is_int() && Type::UInt.is_numeric() && !Type::UInt.is_float());
    assert!(Type::AmbiguousInt.is_coerceable_into(&Type::UInt));
    assert!(Type::AmbiguousInt.is_coerceable_into(&Type::U16));
    assert!(!Type::AmbiguousInt.is_coerceable_into(&Type::F32));
    assert!(Type::AmbiguousFloat.is_coerceable_into(&Type::F64));
    assert!(!Type::Int.is_coerceable_into(&Type::I32));
    assert!(Type::Tuple(vec![TypeId(0)]).is_coerceable_into(&Type::Tuple(vec![TypeId(0)])));
}

#[test]
fn type_format() {
    let (pool, ids) = pool_with(vec![
        Type::Tuple(vec![TypeId(0)]),
        Type::Tuple(vec![TypeId(0), TypeId(14)]),
        Type::Callable { params: vec![TypeId(2), TypeId(15)], ret_ty: TypeId(13) },
    ]);
    assert_eq!(pool.get_type(&ids[0]).unwrap().format(&pool), "(int, )");
    assert_eq!(pool.get_type(&ids[1]).unwrap().format(&pool), "(int, bool)");
    assert_eq!(pool.get_type(&ids[2]).unwrap().format(&pool), "callable(i8, (int, )): nil");
    assert_eq!(Type::I64.format(&pool), "i64");
    assert_eq!(Type::U64.format(&pool), "u64");
    assert_eq!(Type::AmbiguousInt.format(&pool), "<int>");
}

#[test]
fn infix_arithmetic_coerces_literal() {
    let (mut pool, ids) = pool_with(vec![Type::AmbiguousInt]);
    let lit = ids[0];
    let r = Operator::Plus.infix_output_ty(&lit, &TypeId(4), &mut pool, &BOOL);
    assert_eq!(r, Some(lit));
    assert_eq!(pool.get_type(&lit), Some(&Type::I32));
    let r = Operator::Star.infix_output_ty(&TypeId(4), &TypeId(4), &mut pool, &BOOL);
    assert_eq!(r, Some(TypeId(4)));
}

#[test]
fn infix_coerces_right_operand() {
    let (mut pool, ids) = pool_with(vec![Type::AmbiguousFloat]);
    let r = Operator::Lt.infix_output_ty(&TypeId(11), &ids[0], &mut pool, &BOOL);
    assert_eq!(r, Some(BOOL));
    assert_eq!(pool.get_type(&ids[0]), Some(&Type::F32));
}

#[test]
fn infix_rejects_mismatch() {
    let (mut pool, _) = pool_with(vec![]);
    assert_eq!(Operator::Plus.infix_output_ty(&TypeId(0), &TypeId(14), &mut pool, &BOOL), None);
    assert_eq!(Operator::Minus.infix_output_ty(&TypeId(0), &TypeId(1), &mut pool, &BOOL), None);
    assert_eq!(Operator::Plus.infix_output_ty(&TypeId(0), &TypeId(99), &mut pool, &BOOL), None);
    assert_eq!(Operator::Bang.infix_output_ty(&TypeId(0), &TypeId(0), &mut pool, &BOOL), None);
    assert_eq!(pool.get_type(&TypeId(0)), Some(&Type::Int));
}

#[test]
fn infix_equality_and_logic() {
    let (mut pool, ids) = pool_with(vec![Type::Callable { params: vec![], ret_ty: TypeId(13) }]);
    assert_eq!(Operator::Eq.infix_output_ty(&TypeId(13), &TypeId(13), &mut pool, &BOOL), Some(BOOL));
    assert_eq!(Operator::Ne.infix_output_ty(&ids[0], &ids[0], &mut pool, &BOOL), None);
    assert_eq!(Operator::KwAnd.infix_output_ty(&TypeId(14), &TypeId(14), &mut pool, &BOOL), Some(TypeId(14)));
    assert_eq!(Operator::KwOr.infix_output_ty(&TypeId(0), &TypeId(0), &mut pool, &BOOL), None);
    assert_eq!(Operator::Pipe.infix_output_ty(&TypeId(14), &TypeId(14), &mut pool, &BOOL), Some(TypeId(14)));
    assert_eq!(Operator::Caret.infix_output_ty(&TypeId(6), &TypeId(6), &mut pool, &BOOL), Some(TypeId(6)));
    assert_eq!(Operator::Ampersand.infix_output_ty(&TypeId(10), &TypeId(10), &mut pool, &BOOL), None);
}

#[test]
fn infix_operands_agree_after_typing() {
    let (mut pool, ids) = pool_with(vec![Type::AmbiguousInt, Type::AmbiguousInt]);
    for (op, l, r) in [(Operator::Ge, ids[0], TypeId(7)), (Operator::Eq, ids[1], ids[0])] {
        assert!(op.infix_output_ty(&l, &r, &mut pool, &BOOL).is_some());
        assert_eq!(pool.get_type(&l), pool.get_type(&r));
    }
    assert_eq!(pool.get_type(&ids[1]), Some(&Type::U16));
    assert_eq!(pool.get_type(&TypeId(7)), Some(&Type::U16));
}

#[test]
fn prefix_types() {
    let (pool, _) = pool_with(vec![]);
    assert_eq!(Operator::Minus.prefix_output_ty(&TypeId(10), &pool), Some(TypeId(10)));
    assert_eq!(Operator::Minus.prefix_output_ty(&TypeId(14), &pool), None);
    assert_eq!(Operator::Bang.prefix_output_ty(&TypeId(14), &pool), Some(TypeId(14)));
    assert_eq!(Operator::Bang.prefix_output_ty(&TypeId(3), &pool), Some(TypeId(3)));
    assert_eq!(Operator::KwNot.prefix_output_ty(&TypeId(3), &pool), None);
    assert_eq!(Operator::Star.prefix_output_ty(&TypeId(3), &pool), None);
    assert_eq!(Operator::Plus.prefix_output_ty(&TypeId(40), &pool), None);
}

#[test]
fn reassignment_checks() {
    let (mut pool, ids) = pool_with(vec![Type::AmbiguousFloat]);
    assert!(ReassignmentOp::PlusEq.validate_reassignment(&TypeId(12), &ids[0], &mut pool));
    assert_eq!(pool.get_type(&ids[0]), Some(&Type::F64));
    assert!(!ReassignmentOp::PipeEq.validate_reassignment(&TypeId(12), &TypeId(12), &mut pool));
    assert!(ReassignmentOp::Assign.validate_reassignment(&TypeId(14), &TypeId(14), &mut pool));
    assert!(!ReassignmentOp::Assign.validate_reassignment(&TypeId(14), &TypeId(13), &mut pool));
    assert!(ReassignmentOp::CaretEq.validate_reassignment(&TypeId(8), &TypeId(8), &mut pool));
}

fn ident(interner: &mut Interner, name: &str) -> ParsedType {
    let s = interner.intern(name);
    ParsedType { kind: ParsedTypeKind::Identifier(s), span: Span { start: 1, end: 4, source_id: 2 } }
}

#[test]
fn manager_resolves_names_and_tuples() {
    let mut interner = Interner::new();
    let mut tm = TypeManager::new(&mut interner);
    let int = ident(&mut interner, "int");
    assert_eq!(tm.resolve_type(&int).unwrap(), SemaTypeId(0));
    let b = ident(&mut interner, "bool");
    assert_eq!(tm.resolve_type(&b).unwrap(), SemaTypeId(13));
    let nil = ParsedType { kind: ParsedTypeKind::Nil, span: Span { start: 0, end: 3, source_id: 0 } };
    assert_eq!(tm.resolve_type(&nil).unwrap(), SemaTypeId(14));
    let tup = ParsedType { kind: ParsedTypeKind::Tuple(vec![int, nil]), span: Span { start: 0, end: 9, source_id: 0 } };
    let id = tm.resolve_type(&tup).unwrap();
    assert_eq!(id, SemaTypeId(16));
    assert_eq!(tm.get_type(&id), Some(&SemaType::Tuple(vec![SemaTypeId(0), SemaTypeId(14)])));
    assert_eq!(tm.get_type(&id).unwrap().format(&tm), "(int, nil)");
    assert_eq!(tm.get_type(&SemaTypeId(15)), Some(&SemaType::Never));
    assert_eq!(tm.predef_types.never_id, SemaTypeId(15));
}

#[test]
fn manager_reports_unknown_types() {
    let mut interner = Interner::new();
    let mut tm = TypeManager::new(&mut interner);
    let a = ident(&mut interner, "Foo");
    let b = ident(&mut interner, "Bar");
    let tup = ParsedType { kind: ParsedTypeKind::Tuple(vec![a, b]), span: Span { start: 0, end: 9, source_id: 0 } };
    let errs = tm.resolve_type(&tup).unwrap_err();
    assert_eq!(errs.len(), 2);
    assert_eq!(errs[0].message, "Unknown type");
    assert_eq!(errs[0].labels[0].message, "type not defined");
    assert_eq!((errs[0].labels[0].source_id, errs[0].labels[0].start, errs[0].labels[0].end), (2, 1, 4));
    assert_eq!(tm.get_type(&SemaTypeId(16)), None);
}

#[test]
fn manager_follows_coercions() {
    let mut interner = Interner::new();
    let mut tm = TypeManager::new(&mut interner);
    let lit = tm.create_type(SemaType::AmbiguousInt);
    assert!(tm.can_coerce(&lit, &SemaTypeId(3)));
    assert!(!tm.can_coerce(&lit, &SemaTypeId(11)));
    assert!(tm.can_coerce(&SemaTypeId(13), &SemaTypeId(15)));
    tm.coerce_type(lit, SemaTypeId(3));
    assert_eq!(tm.get_type(&lit), Some(&SemaType::I32));
    let lit2 = tm.create_type(SemaType::AmbiguousInt);
    tm.coerce_type(lit2, lit);
    assert_eq!(tm.get_type(&lit2), Some(&SemaType::I32));
    assert_eq!(SemaType::AmbiguousFloat.format(&tm), "<float>");
    assert_eq!(SemaType::Never.format(&tm), "!");
}

#[test]
fn manager_uint_is_an_integer() {
    assert!(SemaType::UInt.is_int() && SemaType::UInt.is_numeric() && !SemaType::UInt.is_float());
    assert!(SemaType::AmbiguousInt.is_coerceable_into(&SemaType::UInt));
    let mut interner = Interner::new();
    let tm = TypeManager::new(&mut interner);
    assert_eq!(SemaType::I64.format(&tm), "i64");
    assert_eq!(SemaType::U64.format(&tm), "u64");
}
