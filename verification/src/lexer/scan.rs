//! Executable scanners for the pieces of the lexical grammar.

use vstd::prelude::*;
use crate::common::{Operator, ReassignmentOp};
use super::token::TokenKind;
use super::spec::{LexError, byte_offset, skip_line, block_scan, num_scan, ident_scan, quote_scan, keyword, punct, char_is_alphanumeric};

verus! {

/// The index just after the first line feed at or after `j` (or the end).
pub fn scan_line(c: &Vec<char>, j: usize) -> (r: usize)
    requires
        j <= c.len(),
    ensures
        r == skip_line(c@, j as int),
{
    let mut k = j;
    while k < c.len()
        invariant
            j <= k <= c.len(),
            skip_line(c@, j as int) == skip_line(c@, k as int),
        decreases c.len() - k,
    {
        if c[k] == '\n' {
            return k + 1;
        }
        k += 1;
    }
    k
}

/// Scans the body of a `;[` comment whose `;` stands at `start`.
pub fn scan_block(c: &Vec<char>, start: usize, offsets: &Vec<usize>) -> (r: Result<usize, LexError>)
    requires
        start + 2 <= c.len(),
        offsets@.len() == c.len() + 1,
        forall|k: int| 0 <= k <= c.len() ==> offsets@[k] == byte_offset(c@, k),
        byte_offset(c@, c.len() as int) <= usize::MAX,
    ensures
        r matches Ok(k) ==> block_scan(c@, start + 2, seq![start as int]) == Ok::<int, LexError>(k as int),
        r matches Err(e) ==> block_scan(c@, start + 2, seq![start as int]) == Err::<int, LexError>(e),
{
    let mut open: Vec<usize> = Vec::new();
    open.push(start);
    let mut j = start + 2;
    let ghost top: Seq<int> = seq![start as int];
    assert(open@.map_values(|x: usize| x as int) =~= top);
    while j < c.len()
        invariant
            j <= c.len(),
            open@.len() >= 1,
            top == seq![start as int],
            forall|k: int| 0 <= k < open@.len() ==> open@[k] + 2 <= j,
            offsets@.len() == c.len() + 1,
            forall|k: int| 0 <= k <= c.len() ==> offsets@[k] == byte_offset(c@, k),
            byte_offset(c@, c.len() as int) <= usize::MAX,
            block_scan(c@, start + 2, top) == block_scan(c@, j as int, open@.map_values(|x: usize| x as int)),
        decreases c.len() - j,
    {
        let ghost before = open@.map_values(|x: usize| x as int);
        if c[j] == ';' && j + 1 < c.len() && c[j + 1] == '[' {
            open.push(j);
            assert(open@.map_values(|x: usize| x as int) =~= before.push(j as int));
            j += 2;
        } else if c[j] == ']' {
            if open.len() == 1 {
                assert(before.len() == 1);
                return Ok(j + 1);
            }
            open.pop();
            assert(open@.map_values(|x: usize| x as int) =~= before.drop_last());
            j += 1;
        } else {
            j += 1;
        }
    }
    let s = open[open.len() - 1];
    proof { super::chars::lemma_byte_offset_mono(c@, s as int, c.len() as int); }
    let end = if c.len() > s + 2 { offsets[c.len()] } else { offsets[s] + 1 };
    Err(LexError::UnterminatedComment { start: offsets[s], end })
}

/// The end of a number literal whose first character stands at `j - 1`, and whether it holds a `.`.
pub fn scan_number(c: &Vec<char>, j: usize) -> (r: (usize, bool))
    requires
        j <= c.len(),
    ensures
        r.0 as int == num_scan(c@, j as int, false).0,
        r.1 == num_scan(c@, j as int, false).1,
{
    let mut k = j;
    let mut is_float = false;
    while k < c.len()
        invariant
            j <= k <= c.len(),
            num_scan(c@, j as int, false) == num_scan(c@, k as int, is_float),
        decreases c.len() - k,
    {
        let ch = c[k];
        if ('0' <= ch && ch <= '9') || ch == '_' {
            k += 1;
        } else if ch == '.' && !is_float {
            is_float = true;
            k += 1;
        } else {
            return (k, is_float);
        }
    }
    (k, is_float)
}

/// The end of an identifier whose remaining characters start at `j`.
pub fn scan_ident(c: &Vec<char>, j: usize) -> (r: usize)
    requires
        j <= c.len(),
    ensures
        r == ident_scan(c@, j as int),
{
    let mut k = j;
    while k < c.len()
        invariant
            j <= k <= c.len(),
            ident_scan(c@, j as int) == ident_scan(c@, k as int),
        decreases c.len() - k,
    {
        let ch = c[k];
        if char_is_alphanumeric(ch) || ch == '_' {
            k += 1;
        } else {
            return k;
        }
    }
    k
}

/// The index of the first `"` at or after `j`, if any.
pub fn scan_quote(c: &Vec<char>, j: usize) -> (r: Option<usize>)
    requires
        j <= c.len(),
    ensures
        r matches Some(k) ==> quote_scan(c@, j as int) == Some(k as int),
        r is None ==> quote_scan(c@, j as int) is None,
{
    let mut k = j;
    while k < c.len()
        invariant
            j <= k <= c.len(),
            quote_scan(c@, j as int) == quote_scan(c@, k as int),
        decreases c.len() - k,
    {
        if c[k] == '"' {
            return Some(k);
        }
        k += 1;
    }
    None
}

/// Whether `c[i..j]` spells `w`.
fn spells(c: &Vec<char>, i: usize, j: usize, w: &[char]) -> (r: bool)
    requires
        i <= j <= c.len(),
    ensures
        r == (c@.subrange(i as int, j as int) == w@),
{
    if j - i != w.len() {
        assert(c@.subrange(i as int, j as int).len() != w@.len());
        return false;
    }
    let mut k: usize = 0;
    while k < w.len()
        invariant
            j - i == w@.len(),
            i <= j <= c.len(),
            k <= w@.len(),
            forall|m: int| 0 <= m < k ==> c@[i + m] == w@[m],
        decreases w.len() - k,
    {
        if c[i + k] != w[k] {
            assert(c@.subrange(i as int, j as int)[k as int] != w@[k as int]);
            return false;
        }
        k += 1;
    }
    assert(c@.subrange(i as int, j as int) =~= w@);
    true
}

/// The keyword (or boolean literal, or word operator) spelled by `c[i..j]`, if any.
pub fn keyword_at(c: &Vec<char>, i: usize, j: usize) -> (r: Option<TokenKind>)
    requires
        i <= j <= c.len(),
    ensures
        r == keyword(c@.subrange(i as int, j as int)),
{
    let ghost w = c@.subrange(i as int, j as int);
    if spells(c, i, j, &['t', 'r', 'u', 'e']) { assert(w == seq!['t', 'r', 'u', 'e']); return Some(TokenKind::BoolLit(true)); }
    assert(w != seq!['t', 'r', 'u', 'e']);
    if spells(c, i, j, &['f', 'a', 'l', 's', 'e']) { return Some(TokenKind::BoolLit(false)); }
    assert(w != seq!['f', 'a', 'l', 's', 'e']);
    if spells(c, i, j, &['c', 'a', 'l', 'l', 'a', 'b', 'l', 'e']) { return Some(TokenKind::KwCallable); }
    assert(w != seq!['c', 'a', 'l', 'l', 'a', 'b', 'l', 'e']);
    if spells(c, i, j, &['n', 'i', 'l']) { return Some(TokenKind::KwNil); }
    assert(w != seq!['n', 'i', 'l']);
    if spells(c, i, j, &['i', 'f']) { return Some(TokenKind::KwIf); }
    assert(w != seq!['i', 'f']);
    if spells(c, i, j, &['t', 'h', 'e', 'n']) { return Some(TokenKind::KwThen); }
    assert(w != seq!['t', 'h', 'e', 'n']);
    if spells(c, i, j, &['e', 'l', 's', 'e']) { return Some(TokenKind::KwElse); }
    assert(w != seq!['e', 'l', 's', 'e']);
    if spells(c, i, j, &['w', 'h', 'i', 'l', 'e']) { return Some(TokenKind::KwWhile); }
    assert(w != seq!['w', 'h', 'i', 'l', 'e']);
    if spells(c, i, j, &['d', 'o']) { return Some(TokenKind::KwDo); }
    assert(w != seq!['d', 'o']);
    if spells(c, i, j, &['r', 'e', 't', 'u', 'r', 'n']) { return Some(TokenKind::KwReturn); }
    assert(w != seq!['r', 'e', 't', 'u', 'r', 'n']);
    if spells(c, i, j, &['b', 'r', 'e', 'a', 'k']) { return Some(TokenKind::KwBreak); }
    assert(w != seq!['b', 'r', 'e', 'a', 'k']);
    if spells(c, i, j, &['c', 'o', 'n', 't', 'i', 'n', 'u', 'e']) { return Some(TokenKind::KwContinue); }
    assert(w != seq!['c', 'o', 'n', 't', 'i', 'n', 'u', 'e']);
    if spells(c, i, j, &['o', 'r']) { return Some(TokenKind::Operator(Operator::KwOr)); }
    assert(w != seq!['o', 'r']);
    if spells(c, i, j, &['a', 'n', 'd']) { return Some(TokenKind::Operator(Operator::KwAnd)); }
    assert(w != seq!['a', 'n', 'd']);
    if spells(c, i, j, &['x', 'o', 'r']) { return Some(TokenKind::Operator(Operator::KwXor)); }
    assert(w != seq!['x', 'o', 'r']);
    if spells(c, i, j, &['n', 'o', 't']) { return Some(TokenKind::Operator(Operator::KwNot)); }
    None
}

/// The punctuation or operator token that starts at `i`, with its length in characters.
pub fn punct_at(c: &Vec<char>, i: usize) -> (r: Option<(TokenKind, usize)>)
    requires
        i < c.len(),
    ensures
        r matches Some((k, n)) ==> punct(c@, i as int) == Some((k, n as int)),
        r is None ==> punct(c@, i as int) is None,
{
    let ch = c[i];
    let eq = i + 1 < c.len() && c[i + 1] == '=';
    if ch == '+' { if eq { Some((TokenKind::Reassign(ReassignmentOp::PlusEq), 2)) } else { Some((TokenKind::Operator(Operator::Plus), 1)) } }
    else if ch == '-' { if eq { Some((TokenKind::Reassign(ReassignmentOp::MinusEq), 2)) } else { Some((TokenKind::Operator(Operator::Minus), 1)) } }
    else if ch == '*' { if eq { Some((TokenKind::Reassign(ReassignmentOp::StarEq), 2)) } else { Some((TokenKind::Operator(Operator::Star), 1)) } }
    else if ch == '/' { if eq { Some((TokenKind::Reassign(ReassignmentOp::SlashEq), 2)) } else { Some((TokenKind::Operator(Operator::Slash), 1)) } }
    else if ch == '%' { if eq { Some((TokenKind::Reassign(ReassignmentOp::ModuloEq), 2)) } else { Some((TokenKind::Operator(Operator::Modulo), 1)) } }
    else if ch == '(' { Some((TokenKind::LParen, 1)) }
    else if ch == ')' { Some((TokenKind::RParen, 1)) }
    else if ch == '{' { Some((TokenKind::LCurly, 1)) }
    else if ch == '}' { Some((TokenKind::RCurly, 1)) }
    else if ch == ':' {
        if i + 1 < c.len() && c[i + 1] == ':' { Some((TokenKind::CColon, 2)) }
        else if eq { Some((TokenKind::Walrus, 2)) }
        else { Some((TokenKind::Colon, 1)) }
    }
    else if ch == ',' { Some((TokenKind::Comma, 1)) }
    else if ch == '=' { if eq { Some((TokenKind::Operator(Operator::Eq), 2)) } else { Some((TokenKind::Reassign(ReassignmentOp::Assign), 1)) } }
    else if ch == '!' { if eq { Some((TokenKind::Operator(Operator::Ne), 2)) } else { Some((TokenKind::Operator(Operator::Bang), 1)) } }
    else if ch == '>' { if eq { Some((TokenKind::Operator(Operator::Ge), 2)) } else { Some((TokenKind::Operator(Operator::Gt), 1)) } }
    else if ch == '<' { if eq { Some((TokenKind::Operator(Operator::Le), 2)) } else { Some((TokenKind::Operator(Operator::Lt), 1)) } }
    else if ch == '|' { if eq { Some((TokenKind::Reassign(ReassignmentOp::PipeEq), 2)) } else { Some((TokenKind::Operator(Operator::Pipe), 1)) } }
    else if ch == '&' { if eq { Some((TokenKind::Reassign(ReassignmentOp::AmpersandEq), 2)) } else { Some((TokenKind::Operator(Operator::Ampersand), 1)) } }
    else if ch == '^' { if eq { Some((TokenKind::Reassign(ReassignmentOp::CaretEq), 2)) } else { Some((TokenKind::Operator(Operator::Caret), 1)) } }
    else if ch == '.' { Some((TokenKind::Dot, 1)) }
    else { None }
}

} // verus!
