use miel::common::{Context, Interner, Operator};
use miel::lexer::tokenize;
use miel::parser::ast::{Ast, Node, NodeKind, ParsedTypeKind};
use miel::parser::Parser;

fn parse_src(src: &str) -> (Result<Ast, miel::common::Diag>, Interner) {
    let mut interner = Interner::new();
    let toks = tokenize(0, src, &mut interner).unwrap();
    let r = {
        let ctx = Context { interner: &interner, source_id: 0 };
        let mut p = Parser::new(&ctx, &toks);
        p.parse()
    };
    (r, interner)
}

fn int_text<'a>(n: &Node, interner: &'a Interner) -> &'a str {
    match &n.kind {
        NodeKind::IntLit(s) => interner.resolve(*s),
        _ => panic!("expected an integer literal"),
    }
}

fn collect_ids(n: &Node, out: &mut Vec<usize>) {
    out.push(n.id.0);
    match &n.kind {
        NodeKind::BinaryOp { lhs, rhs, .. } => {
            collect_ids(lhs, out);
            collect_ids(rhs, out);
        },
        NodeKind::UnaryOp { operand, .. } | NodeKind::Semi(operand) => collect_ids(operand, out),
        NodeKind::Tuple(items) | NodeKind::Block(items) => items.iter().for_each(|i| collect_ids(i, out)),
        NodeKind::Call { callee, args } => {
            collect_ids(callee, out);
            args.iter().for_each(|i| collect_ids(i, out));
        },
        NodeKind::ShortVarDecl { expr, .. } | NodeKind::ShortConstDecl { expr, .. }
        | NodeKind::TypedVarDecl { expr, .. } | NodeKind::TypedConstDecl { expr, .. }
        | NodeKind::Mutation { expr, .. } => collect_ids(expr, out),
        NodeKind::Callable { body, .. } => body.0.iter().for_each(|i| collect_ids(i, out)),
        NodeKind::If { cond, then, else_ } => {
            collect_ids(cond, out);
            collect_ids(then, out);
            if let Some(e) = else_ {
                collect_ids(e, out);
            }
        },
        NodeKind::While { cond, body } => {
            collect_ids(cond, out);
            collect_ids(body, out);
        },
        NodeKind::Return(Some(e)) => collect_ids(e, out),
        _ => {},
    }
}

#[test]
fn parse_respects_precedence() {
    let (r, interner) = parse_src("x := 1 + 2 * 3");
    let ast = r.unwrap();
    assert_eq!(ast.0.len(), 1);
    let decl = &ast.0[0];
    assert_eq!(decl.id.0, 5);
    match &decl.kind {
        NodeKind::ShortVarDecl { name, expr } => {
            assert_eq!(interner.resolve(*name), "x");
            match &expr.kind {
                NodeKind::BinaryOp { op, lhs, rhs } => {
                    assert_eq!(op.0, Operator::Plus);
                    assert_eq!(int_text(lhs, &interner), "1");
                    assert_eq!(lhs.id.0, 0);
                    match &rhs.kind {
                        NodeKind::BinaryOp { op, lhs, rhs } => {
                            assert_eq!(op.0, Operator::Star);
                            assert_eq!(int_text(lhs, &interner), "2");
                            assert_eq!(int_text(rhs, &interner), "3");
                        },
                        _ => panic!("expected a product"),
                    }
                    assert_eq!((expr.span.start, expr.span.end), (5, 14));
                },
                _ => panic!("expected a sum"),
            }
            assert_eq!((decl.span.start, decl.span.end), (0, 14));
        },
        _ => panic!("expected a short variable declaration"),
    }
}

#[test]
fn parse_left_associative() {
    let (r, interner) = parse_src("a :: 8 - 4 - 2");
    let ast = r.unwrap();
    match &ast.0[0].kind {
        NodeKind::ShortConstDecl { expr, .. } => match &expr.kind {
            NodeKind::BinaryOp { lhs, rhs, .. } => {
                assert!(matches!(lhs.kind, NodeKind::BinaryOp { .. }));
                assert_eq!(int_text(rhs, &interner), "2");
            },
            _ => panic!("expected a difference"),
        },
        _ => panic!("expected a constant declaration"),
    }
}

#[test]
fn parse_call_statement() {
    let (r, _) = parse_src("f(1, 2);");
    let ast = r.unwrap();
    assert_eq!(ast.0.len(), 1);
    match &ast.0[0].kind {
        NodeKind::Semi(e) => match &e.kind {
            NodeKind::Call { callee, args } => {
                assert!(matches!(callee.kind, NodeKind::Identifier(_)));
                assert_eq!(args.len(), 2);
                assert_eq!((e.span.start, e.span.end), (1, 7));
            },
            _ => panic!("expected a call"),
        },
        _ => panic!("expected a statement"),
    }
    assert_eq!((ast.0[0].span.start, ast.0[0].span.end), (1, 8));
}

#[test]
fn parse_typed_declarations_and_mutation() {
    let (r, _) = parse_src("a: int = 1 b: (int, nil) :: (1, nil) a += 2;");
    let ast = r.unwrap();
    assert_eq!(ast.0.len(), 3);
    assert!(matches!(ast.0[0].kind, NodeKind::TypedVarDecl { .. }));
    match &ast.0[1].kind {
        NodeKind::TypedConstDecl { ty, expr, .. } => {
            match &ty.kind {
                ParsedTypeKind::Tuple(items) => assert_eq!(items.len(), 2),
                _ => panic!("expected a tuple type"),
            }
            assert!(matches!(expr.kind, NodeKind::Tuple(_)));
        },
        _ => panic!("expected a typed constant"),
    }
    match &ast.0[2].kind {
        NodeKind::Semi(e) => assert!(matches!(e.kind, NodeKind::Mutation { .. })),
        _ => panic!("expected a statement"),
    }
}

#[test]
fn parse_callable_if_while() {
    let (r, _) = parse_src("f :: callable(a: int, b: bool): int { if b then a else 0; while b do { break }; a }");
    let ast = r.unwrap();
    match &ast.0[0].kind {
        NodeKind::ShortConstDecl { expr, .. } => match &expr.kind {
            NodeKind::Callable { params, ret_ty, body, .. } => {
                assert_eq!(params.len(), 2);
                assert!(ret_ty.is_some());
                assert_eq!(body.0.len(), 3);
                match &body.0[0].kind {
                    NodeKind::Semi(e) => match &e.kind {
                        NodeKind::If { else_, .. } => assert!(else_.is_some()),
                        _ => panic!("expected an if"),
                    },
                    _ => panic!("expected a statement"),
                }
                assert!(matches!(body.0[2].kind, NodeKind::Identifier(_)));
            },
            _ => panic!("expected a callable"),
        },
        _ => panic!("expected a constant declaration"),
    }
}

#[test]
fn parse_return_without_value() {
    let (r, _) = parse_src("{ return };");
    let ast = r.unwrap();
    match &ast.0[0].kind {
        NodeKind::Semi(e) => match &e.kind {
            NodeKind::Block(stmts) => {
                assert_eq!(stmts.len(), 1);
                assert!(matches!(stmts[0].kind, NodeKind::Return(None)));
            },
            _ => panic!("expected a block"),
        },
        _ => panic!("expected a statement"),
    }
}

#[test]
fn parse_paren_is_not_a_tuple() {
    let (r, _) = parse_src("(1);");
    match &r.unwrap().0[0].kind {
        NodeKind::Semi(e) => assert!(matches!(e.kind, NodeKind::IntLit(_))),
        _ => panic!("expected a statement"),
    }
    let (r, _) = parse_src("(1,);");
    assert_eq!(r.unwrap_err().labels[0].message, "expected expression, found `)`");
    let (r, _) = parse_src("(1, 2);");
    match &r.unwrap().0[0].kind {
        NodeKind::Semi(e) => match &e.kind {
            NodeKind::Tuple(items) => assert_eq!(items.len(), 2),
            _ => panic!("expected a tuple"),
        },
        _ => panic!("expected a statement"),
    }
}

#[test]
fn parse_error_unexpected_token() {
    let (r, _) = parse_src("x := ;");
    let d = r.unwrap_err();
    assert_eq!(d.message, "Unexpected `;`");
    assert_eq!(d.labels.len(), 1);
    assert_eq!(d.labels[0].message, "expected expression, found `;`");
    assert_eq!((d.labels[0].start, d.labels[0].end), (5, 6));
}

#[test]
fn parse_error_end_of_input() {
    let (r, _) = parse_src("(1, 2");
    let d = r.unwrap_err();
    assert_eq!(d.message, "Unexpected end of input");
    assert_eq!(d.labels[0].message, "expected `)`, found end of input");
    assert_eq!((d.labels[0].start, d.labels[0].end), (5, 5));
}

#[test]
fn parse_error_missing_semicolon() {
    let (r, _) = parse_src("f(1) g(2);");
    let d = r.unwrap_err();
    assert_eq!(d.message, "Unexpected `g`");
    assert_eq!(d.labels[0].message, "expected `;`, found `g`");
}

#[test]
fn parse_error_bad_type() {
    let (r, _) = parse_src("a: 1 = 2");
    let d = r.unwrap_err();
    assert_eq!(d.message, "Unexpected `1`");
    assert_eq!(d.labels[0].message, "expected type, found `1`");
}

#[test]
fn parse_empty_input() {
    let (r, _) = parse_src("");
    assert!(r.unwrap().0.is_empty());
}

#[test]
fn parse_node_ids_distinct() {
    let (r, _) = parse_src("f :: callable(a: int) { (a, -a, { a; 1 }) } g := f(2) + h(3, 4)");
    let ast = r.unwrap();
    let mut ids = Vec::new();
    for n in ast.0.iter() {
        collect_ids(n, &mut ids);
    }
    let mut sorted = ids.clone();
    sorted.sort();
    sorted.dedup();
    assert_eq!(sorted.len(), ids.len());
}

fn post_order_ids(n: &Node, out: &mut Vec<usize>) {
    match &n.kind {
        NodeKind::BinaryOp { lhs, rhs, .. } => {
            post_order_ids(lhs, out);
            post_order_ids(rhs, out);
        },
        NodeKind::UnaryOp { operand, .. } | NodeKind::Semi(operand) => post_order_ids(operand, out),
        NodeKind::Tuple(items) | NodeKind::Block(items) => items.iter().for_each(|i| post_order_ids(i, out)),
        NodeKind::Call { callee, args } => {
            post_order_ids(callee, out);
            args.iter().for_each(|i| post_order_ids(i, out));
        },
        NodeKind::ShortVarDecl { expr, .. } | NodeKind::ShortConstDecl { expr, .. }
        | NodeKind::TypedVarDecl { expr, .. } | NodeKind::TypedConstDecl { expr, .. }
        | NodeKind::Mutation { expr, .. } => post_order_ids(expr, out),
        NodeKind::Callable { body, .. } => body.0.iter().for_each(|i| post_order_ids(i, out)),
        NodeKind::If { cond, then, else_ } => {
            post_order_ids(cond, out);
            post_order_ids(then, out);
            if let Some(e) = else_ {
                post_order_ids(e, out);
            }
        },
        NodeKind::While { cond, body } => {
            post_order_ids(cond, out);
            post_order_ids(body, out);
        },
        NodeKind::Return(Some(e)) => post_order_ids(e, out),
        _ => {},
    }
    out.push(n.id.0);
}

#[test]
fn parse_node_ids_rise_children_first() {
    let (r, _) = parse_src("x :: if a then b else c while x < 3 do { x += 1; }; y := f(1, (2, 3))");
    let ast = r.unwrap();
    let mut ids = Vec::new();
    for n in ast.0.iter() {
        post_order_ids(n, &mut ids);
    }
    assert!(!ids.is_empty());
    assert_eq!(ids[0], 0);
    for w in ids.windows(2) {
        assert!(w[0] < w[1]);
    }
}

#[test]
fn parse_bitwise_and_logical_negation() {
    let (r, _) = parse_src("x := !a y := not b z := - !c");
    let ast = r.unwrap();
    assert_eq!(ast.0.len(), 3);
    let ops: Vec<Operator> = ast.0.iter().map(|n| match &n.kind {
        NodeKind::ShortVarDecl { expr, .. } => match &expr.kind {
            NodeKind::UnaryOp { op, .. } => op.0,
            _ => panic!("expected a prefix operator"),
        },
        _ => panic!("expected a declaration"),
    }).collect();
    assert_eq!(ops, vec![Operator::Bang, Operator::KwNot, Operator::Minus]);
    assert!(Operator::Bang.can_prefix() && Operator::KwNot.can_prefix());
    assert!(Operator::Plus.can_prefix() && Operator::Minus.can_prefix() && !Operator::Star.can_prefix());
}
