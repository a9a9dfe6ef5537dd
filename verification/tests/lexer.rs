use miel::common::{Interner, Operator, ReassignmentOp, Span};
use miel::lexer::token::{Token, TokenKind};
use miel::lexer::tokenize;

fn kinds(src: &str, interner: &mut Interner) -> Vec<TokenKind> {
    tokenize(0, src, interner).unwrap().into_iter().map(|t| t.kind).collect()
}

#[test]
fn tokenize_declaration() {
    let mut interner = Interner::new();
    let toks = tokenize(3, "x := 1 + 2;", &mut interner).unwrap();
    let ks: Vec<TokenKind> = toks.iter().map(|t| t.kind).collect();
    assert_eq!(ks.len(), 6);
    match ks[0] {
        TokenKind::Identifier(s) => assert_eq!(interner.resolve(s), "x"),
        _ => panic!("expected an identifier"),
    }
    assert_eq!(ks[1], TokenKind::Walrus);
    match ks[2] {
        TokenKind::IntLit(s) => assert_eq!(interner.resolve(s), "1"),
        _ => panic!("expected an integer literal"),
    }
    assert_eq!(ks[3], TokenKind::Operator(Operator::Plus));
    assert_eq!(ks[5], TokenKind::Semicolon);
    assert_eq!((toks[0].span.start, toks[0].span.end, toks[0].span.source_id), (0, 1, 3));
    assert_eq!((toks[1].span.start, toks[1].span.end), (2, 4));
    assert_eq!((toks[5].span.start, toks[5].span.end), (10, 11));
}

#[test]
fn tokenize_keywords_and_operators() {
    let mut interner = Interner::new();
    let ks = kinds("if a >= b then nil else not c == d or e", &mut interner);
    assert_eq!(ks[0], TokenKind::KwIf);
    assert_eq!(ks[2], TokenKind::Operator(Operator::Ge));
    assert_eq!(ks[4], TokenKind::KwThen);
    assert_eq!(ks[5], TokenKind::KwNil);
    assert_eq!(ks[6], TokenKind::KwElse);
    assert_eq!(ks[7], TokenKind::Operator(Operator::KwNot));
    assert_eq!(ks[9], TokenKind::Operator(Operator::Eq));
    assert_eq!(ks[11], TokenKind::Operator(Operator::KwOr));
    let ks = kinds("a += 1; b = c; d :: e: f", &mut interner);
    assert_eq!(ks[1], TokenKind::Reassign(ReassignmentOp::PlusEq));
    assert_eq!(ks[5], TokenKind::Reassign(ReassignmentOp::Assign));
    assert_eq!(ks[9], TokenKind::CColon);
    assert_eq!(ks[11], TokenKind::Colon);
}

#[test]
fn tokenize_literals() {
    let mut interner = Interner::new();
    let ks = kinds("12.5 true \"hi\" 7", &mut interner);
    match ks[0] {
        TokenKind::FloatLit(s) => assert_eq!(interner.resolve(s), "12.5"),
        _ => panic!("expected a float literal"),
    }
    assert_eq!(ks[1], TokenKind::BoolLit(true));
    match ks[2] {
        TokenKind::StringLit(s) => assert_eq!(interner.resolve(s), "hi"),
        _ => panic!("expected a string literal"),
    }
}

#[test]
fn tokenize_skips_comments() {
    let mut interner = Interner::new();
    let ks = kinds(";; a line comment\nx ;[ a ;[ nested ]; block ] y", &mut interner);
    assert_eq!(ks.len(), 2);
}

#[test]
fn tokenize_interns_each_name_once() {
    let mut interner = Interner::new();
    let ks = kinds("abc abc def", &mut interner);
    assert_eq!(ks[0], ks[1]);
    assert_ne!(ks[0], ks[2]);
    assert_eq!(interner.len(), 2);
}

#[test]
fn tokenize_tokens_in_source_order() {
    let mut interner = Interner::new();
    let toks = tokenize(1, "foo(1, bar) ;; c\n{ x }", &mut interner).unwrap();
    for w in toks.windows(2) {
        assert!(w[0].span.start < w[0].span.end);
        assert!(w[0].span.end <= w[1].span.start);
    }
    assert!(toks.last().unwrap().span.end <= "foo(1, bar) ;; c\n{ x }".len());
}

#[test]
fn tokenize_unrecognized_character() {
    let mut interner = Interner::new();
    let d = tokenize(2, "a $", &mut interner).unwrap_err();
    assert_eq!(d.message, "Unrecognized character `$`");
    assert_eq!(d.labels.len(), 1);
    assert_eq!((d.labels[0].source_id, d.labels[0].start, d.labels[0].end), (2, 2, 3));
    assert_eq!(d.labels[0].message, "unknown character");
}

#[test]
fn tokenize_unterminated_string() {
    let mut interner = Interner::new();
    let d = tokenize(0, "x \"abc", &mut interner).unwrap_err();
    assert_eq!(d.message, "Unterminated string");
    assert_eq!(d.labels[0].message, "unterminated string");
}

#[test]
fn tokenize_unterminated_comment() {
    let mut interner = Interner::new();
    let d = tokenize(0, "x ;[ never closed", &mut interner).unwrap_err();
    assert_eq!(d.message, "Unterminated block comment");
    assert_eq!(d.labels[0].message, "unterminated block comment");
}

#[test]
fn tokenize_empty_source() {
    let mut interner = Interner::new();
    assert!(tokenize(0, "", &mut interner).unwrap().is_empty());
}

#[test]
fn intern_twice_gives_same_symbol() {
    let mut interner = Interner::new();
    let a = interner.intern("name");
    let n = interner.len();
    let b = interner.intern("name");
    assert_eq!(a, b);
    assert_eq!(interner.len(), n);
    assert_eq!(interner.resolve(a), "name");
    let c = interner.intern("other");
    assert_ne!(a, c);
    assert_eq!(interner.resolve(c), "other");
}

#[test]
fn token_reads_and_writes_as_its_kind() {
    let mut t = Token { kind: TokenKind::Comma, span: Span { start: 3, end: 4, source_id: 1 } };
    assert_eq!(*t, TokenKind::Comma);
    assert!(!matches!(*t, TokenKind::Dot));
    *t = TokenKind::Dot;
    assert_eq!(t.kind, TokenKind::Dot);
    assert_eq!(t.span, Span { start: 3, end: 4, source_id: 1 });
}

#[test]
fn tokens_print_back_as_their_source_text() {
    let mut interner = Interner::new();
    let src = "x :: callable(a: int) { a += 1; \"hi\" } y := !a != 2.5 and not true ;; done";
    let toks = tokenize(0, src, &mut interner).unwrap();
    assert!(!toks.is_empty());
    for t in &toks {
        assert_eq!(t.kind.format(&interner), &src[t.span.start..t.span.end]);
    }
}

#[test]
fn operator_texts_lex_back() {
    let ops = [
        Operator::Plus, Operator::Minus, Operator::Star, Operator::Slash, Operator::Modulo,
        Operator::Eq, Operator::Ne, Operator::Gt, Operator::Lt, Operator::Ge, Operator::Le,
        Operator::Pipe, Operator::Ampersand, Operator::Caret, Operator::Bang,
        Operator::KwOr, Operator::KwAnd, Operator::KwXor, Operator::KwNot,
    ];
    for op in ops {
        let mut interner = Interner::new();
        let text = op.as_str();
        let toks = tokenize(4, text, &mut interner).unwrap();
        assert_eq!(toks, vec![Token { kind: TokenKind::Operator(op), span: Span { start: 0, end: text.len(), source_id: 4 } }]);
    }
    let rops = [
        ReassignmentOp::Assign, ReassignmentOp::PlusEq, ReassignmentOp::MinusEq, ReassignmentOp::StarEq,
        ReassignmentOp::SlashEq, ReassignmentOp::ModuloEq, ReassignmentOp::PipeEq,
        ReassignmentOp::AmpersandEq, ReassignmentOp::CaretEq,
    ];
    for op in rops {
        let mut interner = Interner::new();
        let text = op.as_str();
        let toks = tokenize(4, text, &mut interner).unwrap();
        assert_eq!(toks, vec![Token { kind: TokenKind::Reassign(op), span: Span { start: 0, end: text.len(), source_id: 4 } }]);
    }
}

#[test]
fn lexed_kinds_lex_back() {
    let mut interner = Interner::new();
    let src = "x :: callable(a: int) { a += 1; \"hi\" } y_2 := !a != 2.5 and not true; 1_000 . , ;";
    let toks = tokenize(0, src, &mut interner).unwrap();
    for t in &toks {
        let text = t.kind.format(&interner);
        let again = tokenize(3, &text, &mut interner).unwrap();
        assert_eq!(again, vec![Token { kind: t.kind, span: Span { start: 0, end: text.len(), source_id: 3 } }]);
    }
}
