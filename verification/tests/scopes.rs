use miel::common::{Interner, Span};
use miel::sema::constants::ConstValue;
use miel::sema::scope::{FunctionScope, ScopeManager, SymbolMap, SymbolMapKind};
use miel::sema::types::TypeId;
use miel::sema::SemaChecker;

fn span() -> Span {
    Span { start: 0, end: 1, source_id: 0 }
}

#[test]
fn symbol_map_defines_and_finds() {
    let mut interner = Interner::new();
    let a = interner.intern("a");
    let b = interner.intern("b");
    let mut m = SymbolMap::new(SymbolMapKind::Loop);
    assert!(m.is_loop());
    assert!(m.find_symbol(&a).is_none());
    m.define_symbol(a, TypeId(3), span());
    m.define_const_symbol(b, TypeId(13), span(), ConstValue::Bool(true));
    let sa = m.find_symbol(&a).unwrap();
    assert_eq!(*sa.ty, TypeId(3));
    assert!(sa.val.is_none());
    let sb = m.find_symbol(&b).unwrap();
    assert!(matches!(sb.val, Some(ConstValue::Bool(true))));
    m.define_symbol(b, TypeId(0), span());
    let sb = m.find_symbol(&b).unwrap();
    assert_eq!(*sb.ty, TypeId(0));
    assert!(matches!(sb.val, Some(ConstValue::Bool(true))));
}

#[test]
fn function_scope_prefers_innermost() {
    let mut interner = Interner::new();
    let a = interner.intern("a");
    let mut f = FunctionScope::new(TypeId(14), span());
    assert!(f.find_symbol(&a).is_none());
    f.enter_smap(SymbolMapKind::Default);
    f.enter_smap(SymbolMapKind::Loop);
    f.exit_smap();
    f.enter_smap(SymbolMapKind::Default);
    assert!(f.find_symbol(&a).is_none());
    f.exit_smap();
    f.exit_smap();
    f.exit_smap();
    assert!(f.find_symbol(&a).is_none());
    assert_eq!(f.ret_ty, TypeId(14));
}

#[test]
fn scope_manager_enters_and_exits() {
    let mut interner = Interner::new();
    let a = interner.intern("a");
    let mut s = ScopeManager::new();
    assert!(s.find_symbol(&a).is_none());
    s.enter_scope(TypeId(14), span());
    assert!(s.find_symbol(&a).is_none());
    s.exit_scope();
    s.exit_scope();
    assert!(s.find_symbol(&a).is_none());
}

#[test]
fn sema_checker_new() {
    let mut interner = Interner::new();
    let mut c = SemaChecker::new(&mut interner);
    assert_eq!(interner.len(), 15);
    c.check(&miel::parser::ast::Ast(vec![]));
}

#[test]
fn symbol_map_writes_in_place() {
    let mut interner = Interner::new();
    let a = interner.intern("a");
    let b = interner.intern("b");
    let c = interner.intern("c");
    let mut m = SymbolMap::new(SymbolMapKind::Default);
    m.define_symbol(a, TypeId(3), span());
    m.define_const_symbol(b, TypeId(13), span(), ConstValue::Bool(true));
    assert!(m.find_symbol_mut(&c).is_none());
    {
        let sa = m.find_symbol_mut(&a).unwrap();
        assert_eq!(*sa.ty, TypeId(3));
        assert!(sa.val.is_none());
        *sa.ty = TypeId(4);
    }
    {
        let sb = m.find_symbol_mut(&b).unwrap();
        assert_eq!(*sb.ty, TypeId(13));
        let v = sb.val.unwrap();
        assert!(matches!(v, ConstValue::Bool(true)));
        *v = ConstValue::Bool(false);
    }
    assert_eq!(*m.find_symbol(&a).unwrap().ty, TypeId(4));
    assert!(matches!(m.find_symbol(&b).unwrap().val, Some(ConstValue::Bool(false))));
    assert!(m.find_symbol(&c).is_none());
}

#[test]
fn scopes_find_nothing_to_write_when_empty() {
    let mut interner = Interner::new();
    let a = interner.intern("a");
    let mut f = FunctionScope::new(TypeId(14), span());
    assert!(f.find_symbol_mut(&a).is_none());
    f.enter_smap(SymbolMapKind::Loop);
    assert!(f.find_symbol_mut(&a).is_none());
    let mut s = ScopeManager::new();
    assert!(s.find_symbol_mut(&a).is_none());
    s.enter_scope(TypeId(14), span());
    assert!(s.find_symbol_mut(&a).is_none());
}

#[test]
fn symbol_copies_share_their_targets() {
    let mut interner = Interner::new();
    let a = interner.intern("a");
    let mut m = SymbolMap::new(SymbolMapKind::Default);
    m.define_const_symbol(a, TypeId(5), span(), ConstValue::Nil);
    let s = m.find_symbol(&a).unwrap();
    let t = s.clone();
    assert!(std::ptr::eq(s.ty, t.ty));
    assert_eq!(*t.ty, TypeId(5));
    assert!(matches!(t.val, Some(ConstValue::Nil)));
}
