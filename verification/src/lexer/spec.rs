//! The lexical grammar, stated over the characters of the source.

use vstd::prelude::*;
use crate::common::{Operator, ReassignmentOp, Span, Sym};
use crate::common::intern::intern_spec;
use super::token::{Token, TokenKind};

verus! {

/// Unicode `Alphabetic` property of a character (std `char::is_alphabetic`).
pub uninterp spec fn is_alphabetic(c: char) -> bool;

/// Unicode `Alphabetic` or `Numeric` property of a character (std `char::is_alphanumeric`).
pub uninterp spec fn is_alphanumeric(c: char) -> bool;

/// Whether `c` may start a name: among ASCII characters the letters, beyond them the
/// characters that std's `char::is_alphabetic` accepts.
pub open spec fn letter(c: char) -> bool {
    if (c as u32) < 128 {
        ('a' <= c && c <= 'z') || ('A' <= c && c <= 'Z')
    } else {
        is_alphabetic(c)
    }
}

/// Whether `c` may continue a name (with `_`): among ASCII characters the letters and
/// digits, beyond them the characters that std's `char::is_alphanumeric` accepts.
pub open spec fn letter_or_digit(c: char) -> bool {
    if (c as u32) < 128 {
        ('a' <= c && c <= 'z') || ('A' <= c && c <= 'Z') || ('0' <= c && c <= '9')
    } else {
        is_alphanumeric(c)
    }
}

/// std `char::is_alphabetic`: whether `c` has the Unicode `Alphabetic` property. Among
/// ASCII characters these are exactly the letters.
#[verifier::external_body]
pub(crate) fn char_is_alphabetic(c: char) -> (r: bool)
    ensures
        r == is_alphabetic(c),
        (c as u32) < 128 ==> (r <==> (('a' <= c && c <= 'z') || ('A' <= c && c <= 'Z'))),
{
    c.is_alphabetic()
}

/// std `char::is_alphanumeric`: whether `c` has the Unicode `Alphabetic` or `Numeric`
/// property. Among ASCII characters these are exactly the letters and the digits.
#[verifier::external_body]
pub(crate) fn char_is_alphanumeric(c: char) -> (r: bool)
    ensures
        r == is_alphanumeric(c),
        (c as u32) < 128 ==> (r <==> (('a' <= c && c <= 'z') || ('A' <= c && c <= 'Z') || ('0' <= c && c <= '9'))),
{
    c.is_alphanumeric()
}

/// The number of bytes of the UTF-8 encoding of `ch`.
pub open spec fn utf8_width(ch: char) -> nat {
    if (ch as u32) <= 0x7F {
        1
    } else if (ch as u32) <= 0x7FF {
        2
    } else if (ch as u32) <= 0xFFFF {
        3
    } else {
        4
    }
}

/// The byte offset at which the character with index `i` starts.
pub open spec fn byte_offset(c: Seq<char>, i: int) -> nat
    decreases i,
{
    if i <= 0 || c.len() == 0 {
        0
    } else if i > c.len() {
        byte_offset(c, c.len() as int)
    } else {
        byte_offset(c, i - 1) + utf8_width(c[i - 1])
    }
}

pub open spec fn is_digit(ch: char) -> bool {
    '0' <= ch && ch <= '9'
}

pub open spec fn is_space(ch: char) -> bool {
    ch == ' ' || ch == '\t' || ch == '\n' || ch == '\r'
}

/// Why lexing stopped.
#[derive(Debug, Clone, Copy, PartialEq, Eq, Structural)]
pub enum LexError {
    /// A `;[` comment that is never closed; the byte range to report.
    UnterminatedComment { start: usize, end: usize },
    /// A string literal that is never closed; the byte range to report.
    UnterminatedString { start: usize, end: usize },
    /// A character that starts no token, at byte `start`.
    Unrecognized { start: usize, ch: char },
}

/// The index just after the first line feed at or after `j` (or the end).
pub open spec fn skip_line(c: Seq<char>, j: int) -> int
    decreases c.len() - j,
{
    if j >= c.len() {
        c.len() as int
    } else if c[j] == '\n' {
        j + 1
    } else {
        skip_line(c, j + 1)
    }
}

/// Scans a `;[ ... ]` comment body from `j`, with `open` the indices of the `;` of the
/// comments still open (outermost first): the index after the closing `]` of the outermost,
/// or the error for the innermost comment left open.
pub open spec fn block_scan(c: Seq<char>, j: int, open: Seq<int>) -> Result<int, LexError>
    decreases c.len() - j,
{
    if j >= c.len() || open.len() == 0 {
        let s = open.last();
        Err(LexError::UnterminatedComment {
            start: byte_offset(c, s) as usize,
            end: if c.len() > s + 2 { byte_offset(c, c.len() as int) as usize } else { (byte_offset(c, s) + 1) as usize },
        })
    } else if c[j] == ';' && j + 1 < c.len() && c[j + 1] == '[' {
        block_scan(c, j + 2, open.push(j))
    } else if c[j] == ']' {
        if open.len() == 1 {
            Ok(j + 1)
        } else {
            block_scan(c, j + 1, open.drop_last())
        }
    } else {
        block_scan(c, j + 1, open)
    }
}

/// The end of a number literal whose remaining characters start at `j`, and whether it
/// holds a `.`.
pub open spec fn num_scan(c: Seq<char>, j: int, is_float: bool) -> (int, bool)
    decreases c.len() - j,
{
    if j >= c.len() {
        (c.len() as int, is_float)
    } else if is_digit(c[j]) || c[j] == '_' {
        num_scan(c, j + 1, is_float)
    } else if c[j] == '.' && !is_float {
        num_scan(c, j + 1, true)
    } else {
        (j, is_float)
    }
}

/// The end of an identifier whose remaining characters start at `j`.
pub open spec fn ident_scan(c: Seq<char>, j: int) -> int
    decreases c.len() - j,
{
    if j >= c.len() {
        c.len() as int
    } else if letter_or_digit(c[j]) || c[j] == '_' {
        ident_scan(c, j + 1)
    } else {
        j
    }
}

/// The index of the first `"` at or after `j`, if any.
pub open spec fn quote_scan(c: Seq<char>, j: int) -> Option<int>
    decreases c.len() - j,
{
    if j >= c.len() {
        None
    } else if c[j] == '"' {
        Some(j)
    } else {
        quote_scan(c, j + 1)
    }
}

/// The keyword (or boolean literal, or word operator) spelled by `w`, if any.
pub open spec fn keyword(w: Seq<char>) -> Option<TokenKind> {
    if w == seq!['t', 'r', 'u', 'e'] { Some(TokenKind::BoolLit(true)) }
    else if w == seq!['f', 'a', 'l', 's', 'e'] { Some(TokenKind::BoolLit(false)) }
    else if w == seq!['c', 'a', 'l', 'l', 'a', 'b', 'l', 'e'] { Some(TokenKind::KwCallable) }
    else if w == seq!['n', 'i', 'l'] { Some(TokenKind::KwNil) }
    else if w == seq!['i', 'f'] { Some(TokenKind::KwIf) }
    else if w == seq!['t', 'h', 'e', 'n'] { Some(TokenKind::KwThen) }
    else if w == seq!['e', 'l', 's', 'e'] { Some(TokenKind::KwElse) }
    else if w == seq!['w', 'h', 'i', 'l', 'e'] { Some(TokenKind::KwWhile) }
    else if w == seq!['d', 'o'] { Some(TokenKind::KwDo) }
    else if w == seq!['r', 'e', 't', 'u', 'r', 'n'] { Some(TokenKind::KwReturn) }
    else if w == seq!['b', 'r', 'e', 'a', 'k'] { Some(TokenKind::KwBreak) }
    else if w == seq!['c', 'o', 'n', 't', 'i', 'n', 'u', 'e'] { Some(TokenKind::KwContinue) }
    else if w == seq!['o', 'r'] { Some(TokenKind::Operator(Operator::KwOr)) }
    else if w == seq!['a', 'n', 'd'] { Some(TokenKind::Operator(Operator::KwAnd)) }
    else if w == seq!['x', 'o', 'r'] { Some(TokenKind::Operator(Operator::KwXor)) }
    else if w == seq!['n', 'o', 't'] { Some(TokenKind::Operator(Operator::KwNot)) }
    else { None }
}

/// Whether the character after index `i` is `x`.
pub open spec fn next_is(c: Seq<char>, i: int, x: char) -> bool {
    i + 1 < c.len() && c[i + 1] == x
}

/// The punctuation or operator token that starts at `i`, with its length in characters.
pub open spec fn punct(c: Seq<char>, i: int) -> Option<(TokenKind, int)> {
    let ch = c[i];
    let eq = next_is(c, i, '=');
    if ch == '+' { if eq { Some((TokenKind::Reassign(ReassignmentOp::PlusEq), 2)) } else { Some((TokenKind::Operator(Operator::Plus), 1)) } }
    else if ch == '-' { if eq { Some((TokenKind::Reassign(ReassignmentOp::MinusEq), 2)) } else { Some((TokenKind::Operator(Operator::Minus), 1)) } }
    else if ch == '*' { if eq { Some((TokenKind::Reassign(ReassignmentOp::StarEq), 2)) } else { Some((TokenKind::Operator(Operator::Star), 1)) } }
    else if ch == '/' { if eq { Some((TokenKind::Reassign(ReassignmentOp::SlashEq), 2)) } else { Some((TokenKind::Operator(Operator::Slash), 1)) } }
    else if ch == '%' { if eq { Some((TokenKind::Reassign(ReassignmentOp::ModuloEq), 2)) } else { Some((TokenKind::Operator(Operator::Modulo), 1)) } }
    else if ch == '(' { Some((TokenKind::LParen, 1)) }
    else if ch == ')' { Some((TokenKind::RParen, 1)) }
    else if ch == '{' { Some((TokenKind::LCurly, 1)) }
    else if ch == '}' { Some((TokenKind::RCurly, 1)) }
    else if ch == ':' {
        if next_is(c, i, ':') { Some((TokenKind::CColon, 2)) }
        else if eq { Some((TokenKind::Walrus, 2)) }
        else { Some((TokenKind::Colon, 1)) }
    }
    else if ch == ',' { Some((TokenKind::Comma, 1)) }
    else if ch == '=' { if eq { Some((TokenKind::Operator(Operator::Eq), 2)) } else { Some((TokenKind::Reassign(ReassignmentOp::Assign), 1)) } }
    else if ch == '!' { if eq { Some((TokenKind::Operator(Operator::Ne), 2)) } else { Some((TokenKind::Operator(Operator::Bang), 1)) } }
    else if ch == '>' { if eq { Some((TokenKind::Operator(Operator::Ge), 2)) } else { Some((TokenKind::Operator(Operator::Gt), 1)) } }
    else if ch == '<' { if eq { Some((TokenKind::Operator(Operator::Le), 2)) } else { Some((TokenKind::Operator(Operator::Lt), 1)) } }
    else if ch == '|' { if eq { Some((TokenKind::Reassign(ReassignmentOp::PipeEq), 2)) } else { Some((TokenKind::Operator(Operator::Pipe), 1)) } }
    else if ch == '&' { if eq { Some((TokenKind::Reassign(ReassignmentOp::AmpersandEq), 2)) } else { Some((TokenKind::Operator(Operator::Ampersand), 1)) } }
    else if ch == '^' { if eq { Some((TokenKind::Reassign(ReassignmentOp::CaretEq), 2)) } else { Some((TokenKind::Operator(Operator::Caret), 1)) } }
    else if ch == '.' { Some((TokenKind::Dot, 1)) }
    else { None }
}

/// The token of kind `kind` over the characters `i..j`.
pub open spec fn tok(c: Seq<char>, kind: TokenKind, i: int, j: int, sid: usize) -> Token {
    Token { kind, span: Span { start: byte_offset(c, i) as usize, end: byte_offset(c, j) as usize, source_id: sid } }
}

/// The outcome of lexing: the tokens or the error, and the interned strings afterwards.
pub type LexOutcome = (Result<Seq<Token>, LexError>, Seq<Seq<char>>);

/// `t` followed by the outcome `rest`.
pub open spec fn emit(t: Token, rest: LexOutcome) -> LexOutcome {
    (match rest.0 {
        Ok(ts) => Ok(seq![t] + ts),
        Err(e) => Err(e),
    }, rest.1)
}

/// The tokens `ts` followed by the outcome `rest`.
pub open spec fn emit_all(ts: Seq<Token>, rest: LexOutcome) -> LexOutcome {
    (match rest.0 {
        Ok(r) => Ok(ts + r),
        Err(e) => Err(e),
    }, rest.1)
}

pub proof fn lemma_skip_line(c: Seq<char>, j: int)
    ensures
        j < c.len() ==> j < skip_line(c, j),
        skip_line(c, j) <= c.len() || j > c.len(),
    decreases c.len() - j,
{
    if j < c.len() && c[j] != '\n' {
        lemma_skip_line(c, j + 1);
    }
}

pub proof fn lemma_block_scan(c: Seq<char>, j: int, open: Seq<int>)
    requires
        forall|k: int| 0 <= k < open.len() ==> open[k] < j,
    ensures
        block_scan(c, j, open) matches Ok(k) ==> j < k <= c.len(),
        block_scan(c, j, open) matches Err(e) ==> e is UnterminatedComment,
    decreases c.len() - j,
{
    if j >= c.len() || open.len() == 0 {
    } else if c[j] == ';' && j + 1 < c.len() && c[j + 1] == '[' {
        lemma_block_scan(c, j + 2, open.push(j));
    } else if c[j] == ']' {
        if open.len() != 1 {
            lemma_block_scan(c, j + 1, open.drop_last());
        }
    } else {
        lemma_block_scan(c, j + 1, open);
    }
}

pub proof fn lemma_num_scan(c: Seq<char>, j: int, is_float: bool)
    requires
        j <= c.len(),
    ensures
        j <= num_scan(c, j, is_float).0 <= c.len(),
    decreases c.len() - j,
{
    if j < c.len() {
        if is_digit(c[j]) || c[j] == '_' {
            lemma_num_scan(c, j + 1, is_float);
        } else if c[j] == '.' && !is_float {
            lemma_num_scan(c, j + 1, true);
        }
    }
}

pub proof fn lemma_ident_scan(c: Seq<char>, j: int)
    requires
        j <= c.len(),
    ensures
        j <= ident_scan(c, j) <= c.len(),
    decreases c.len() - j,
{
    if j < c.len() && (letter_or_digit(c[j]) || c[j] == '_') {
        lemma_ident_scan(c, j + 1);
    }
}

pub proof fn lemma_quote_scan(c: Seq<char>, j: int)
    ensures
        quote_scan(c, j) matches Some(k) ==> j <= k < c.len() && c[k] == '"',
    decreases c.len() - j,
{
    if j < c.len() && c[j] != '"' {
        lemma_quote_scan(c, j + 1);
    }
}

/// The tokens of `c` from index `i` on, threading the interned strings `strs`.
pub open spec fn lex(c: Seq<char>, i: int, strs: Seq<Seq<char>>, sid: usize) -> LexOutcome
    decreases c.len() - i,
{
    if i < 0 || i >= c.len() {
        (Ok(Seq::empty()), strs)
    } else {
        let ch = c[i];
        if is_space(ch) {
            lex(c, i + 1, strs, sid)
        } else if ch == ';' && next_is(c, i, ';') {
            proof { lemma_skip_line(c, i + 1); }
            lex(c, skip_line(c, i + 1), strs, sid)
        } else if ch == ';' && next_is(c, i, '[') {
            proof { lemma_block_scan(c, i + 2, seq![i]); }
            match block_scan(c, i + 2, seq![i]) {
                Ok(j) => lex(c, j, strs, sid),
                Err(e) => (Err(e), strs),
            }
        } else if ch == ';' {
            emit(tok(c, TokenKind::Semicolon, i, i + 1, sid), lex(c, i + 1, strs, sid))
        } else if punct(c, i) is Some {
            let (kind, n) = punct(c, i).unwrap();
            emit(tok(c, kind, i, i + n, sid), lex(c, i + n, strs, sid))
        } else if is_digit(ch) {
            proof { lemma_num_scan(c, i + 1, false); }
            let (j, is_float) = num_scan(c, i + 1, false);
            let (strs2, s) = intern_spec(strs, c.subrange(i, j));
            let kind = if is_float { TokenKind::FloatLit(s) } else { TokenKind::IntLit(s) };
            emit(tok(c, kind, i, j, sid), lex(c, j, strs2, sid))
        } else if letter(ch) || ch == '_' {
            proof { lemma_ident_scan(c, i + 1); }
            let j = ident_scan(c, i + 1);
            let w = c.subrange(i, j);
            match keyword(w) {
                Some(kind) => emit(tok(c, kind, i, j, sid), lex(c, j, strs, sid)),
                None => {
                    let (strs2, s) = intern_spec(strs, w);
                    emit(tok(c, TokenKind::Identifier(s), i, j, sid), lex(c, j, strs2, sid))
                },
            }
        } else if ch == '"' {
            proof { lemma_quote_scan(c, i + 1); }
            match quote_scan(c, i + 1) {
                Some(k) => {
                    let (strs2, s) = intern_spec(strs, c.subrange(i + 1, k));
                    emit(tok(c, TokenKind::StringLit(s), i, k + 1, sid), lex(c, k + 1, strs2, sid))
                },
                None => (Err(LexError::UnterminatedString {
                    start: byte_offset(c, i) as usize,
                    end: if c.len() > i + 1 { byte_offset(c, c.len() as int) as usize } else { (byte_offset(c, i) + 1) as usize },
                }), strs),
            }
        } else {
            (Err(LexError::Unrecognized { start: byte_offset(c, i) as usize, ch }), strs)
        }
    }
}

/// Lexing from `i` on keeps the strings interned before, and adds at most one string for each
/// character left to read.
pub proof fn lemma_lex_strings(c: Seq<char>, i: int, strs: Seq<Seq<char>>, sid: usize)
    requires
        0 <= i,
    ensures
        strs.len() <= lex(c, i, strs, sid).1.len(),
        i <= c.len() ==> lex(c, i, strs, sid).1.len() <= strs.len() + (c.len() - i),
    decreases c.len() - i,
{
    if i < c.len() {
        let ch = c[i];
        if is_space(ch) {
            lemma_lex_strings(c, i + 1, strs, sid);
        } else if ch == ';' && next_is(c, i, ';') {
            lemma_skip_line(c, i + 1);
            lemma_lex_strings(c, skip_line(c, i + 1), strs, sid);
        } else if ch == ';' && next_is(c, i, '[') {
            lemma_block_scan(c, i + 2, seq![i]);
            if let Ok(j) = block_scan(c, i + 2, seq![i]) {
                lemma_lex_strings(c, j, strs, sid);
            }
        } else if ch == ';' {
            lemma_lex_strings(c, i + 1, strs, sid);
        } else if punct(c, i) is Some {
            let (kind, n) = punct(c, i).unwrap();
            lemma_lex_strings(c, i + n, strs, sid);
        } else if is_digit(ch) {
            lemma_num_scan(c, i + 1, false);
            let (j, is_float) = num_scan(c, i + 1, false);
            lemma_lex_strings(c, j, intern_spec(strs, c.subrange(i, j)).0, sid);
        } else if letter(ch) || ch == '_' {
            lemma_ident_scan(c, i + 1);
            let j = ident_scan(c, i + 1);
            let w = c.subrange(i, j);
            if keyword(w) is Some {
                lemma_lex_strings(c, j, strs, sid);
            } else {
                lemma_lex_strings(c, j, intern_spec(strs, w).0, sid);
            }
        } else if ch == '"' {
            lemma_quote_scan(c, i + 1);
            if let Some(k) = quote_scan(c, i + 1) {
                lemma_lex_strings(c, k + 1, intern_spec(strs, c.subrange(i + 1, k)).0, sid);
            }
        }
    }
}

} // verus!
