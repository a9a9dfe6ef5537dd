//! Tokens produced by the lexer.

use vstd::prelude::*;
use crate::common::{Interner, Operator, ReassignmentOp, Span, Sym};
use crate::common::text::string_of;

verus! {

#[derive(Debug, Clone, Copy, PartialEq, Eq, Structural)]
pub enum TokenKind {
    IntLit(Sym), FloatLit(Sym),
    BoolLit(bool), StringLit(Sym),
    Identifier(Sym),
    Operator(Operator),
    Reassign(ReassignmentOp),
    LParen, RParen, LCurly, RCurly,
    Colon, Comma,
    CColon, Walrus,
    Semicolon, Dot,
    KwCallable,
    KwNil,
    KwIf, KwThen, KwElse,
    KwWhile, KwDo,
    KwReturn,
    KwBreak, KwContinue,
}

#[derive(Debug, Clone, Copy, PartialEq, Eq, Structural)]
pub struct Token {
    pub kind: TokenKind,
    pub span: Span,
}

/// A token reads as its kind.
impl std::ops::Deref for Token {
    type Target = TokenKind;

    fn deref(&self) -> (r: &TokenKind)
        ensures
            *r == self.kind,
    {
        &self.kind
    }
}

/// A token's kind can be changed through the token.
impl std::ops::DerefMut for Token {
    fn deref_mut(&mut self) -> (r: &mut TokenKind)
        ensures
            *r == old(self).kind,
            *final(self) == (Token { kind: *final(r), span: old(self).span }),
    {
        &mut self.kind
    }
}

impl TokenKind {
    /// Whether every symbol carried by the kind names a string of `strs`.
    pub open spec fn syms_in(self, strs: Seq<Seq<char>>) -> bool {
        match self {
            TokenKind::IntLit(s) | TokenKind::FloatLit(s) | TokenKind::StringLit(s)
            | TokenKind::Identifier(s) => s.0 < strs.len(),
            _ => true,
        }
    }

    /// How the token reads in a message, given the interned strings.
    pub open spec fn spec_format(self, strs: Seq<Seq<char>>) -> Seq<char> {
        match self {
            TokenKind::IntLit(s) | TokenKind::FloatLit(s) | TokenKind::Identifier(s) => strs[s.0 as int],
            TokenKind::BoolLit(b) => if b { "true"@ } else { "false"@ },
            TokenKind::StringLit(s) => "\""@ + strs[s.0 as int] + "\""@,
            TokenKind::Operator(o) => o.spec_text(),
            TokenKind::Reassign(o) => o.spec_text(),
            TokenKind::LParen => "("@,
            TokenKind::RParen => ")"@,
            TokenKind::LCurly => "{"@,
            TokenKind::RCurly => "}"@,
            TokenKind::Colon => ":"@,
            TokenKind::Comma => ","@,
            TokenKind::CColon => "::"@,
            TokenKind::Walrus => ":="@,
            TokenKind::Semicolon => ";"@,
            TokenKind::Dot => "."@,
            TokenKind::KwCallable => "callable"@,
            TokenKind::KwNil => "nil"@,
            TokenKind::KwIf => "if"@,
            TokenKind::KwThen => "then"@,
            TokenKind::KwElse => "else"@,
            TokenKind::KwWhile => "while"@,
            TokenKind::KwDo => "do"@,
            TokenKind::KwReturn => "return"@,
            TokenKind::KwBreak => "break"@,
            TokenKind::KwContinue => "continue"@,
        }
    }

    /// How the token reads in a message.
    pub fn format(&self, interner: &Interner) -> (r: String)
        requires
            interner.wf(),
            self.syms_in(interner@),
        ensures
            r@ == self.spec_format(interner@),
    {
        match self {
            TokenKind::IntLit(s) | TokenKind::FloatLit(s) | TokenKind::Identifier(s) =>
                string_of(interner.resolve(*s)),
            TokenKind::BoolLit(b) => if *b { string_of("true") } else { string_of("false") },
            TokenKind::StringLit(s) => {
                let mut r = string_of("\"");
                r.append(interner.resolve(*s));
                r.append("\"");
                r
            },
            TokenKind::Operator(o) => string_of(o.as_str()),
            TokenKind::Reassign(o) => string_of(o.as_str()),
            TokenKind::LParen => string_of("("),
            TokenKind::RParen => string_of(")"),
            TokenKind::LCurly => string_of("{"),
            TokenKind::RCurly => string_of("}"),
            TokenKind::Colon => string_of(":"),
            TokenKind::Comma => string_of(","),
            TokenKind::CColon => string_of("::"),
            TokenKind::Walrus => string_of(":="),
            TokenKind::Semicolon => string_of(";"),
            TokenKind::Dot => string_of("."),
            TokenKind::KwCallable => string_of("callable"),
            TokenKind::KwNil => string_of("nil"),
            TokenKind::KwIf => string_of("if"),
            TokenKind::KwThen => string_of("then"),
            TokenKind::KwElse => string_of("else"),
            TokenKind::KwWhile => string_of("while"),
            TokenKind::KwDo => string_of("do"),
            TokenKind::KwReturn => string_of("return"),
            TokenKind::KwBreak => string_of("break"),
            TokenKind::KwContinue => string_of("continue"),
        }
    }
}

} // verus!
