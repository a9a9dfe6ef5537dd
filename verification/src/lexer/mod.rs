//! Lexer: turns source text into tokens.

pub mod token;
pub mod spec;
pub mod reading;
pub mod relex;
pub mod chars;
pub mod scan;

use vstd::prelude::*;
use vstd::utf8::encode_utf8;
use crate::common::{Diag, Interner, Span};
use crate::common::diag::{DiagV, diag1};
use crate::common::text::{push_char, string_of, string_of_chars};
use token::{Token, TokenKind};
use spec::{LexError, LexOutcome, byte_offset, emit, emit_all, lex, lemma_lex_strings, char_is_alphabetic,
    lemma_skip_line, lemma_num_scan, lemma_ident_scan, lemma_quote_scan, lemma_block_scan};
use scan::{scan_line, scan_block, scan_number, scan_ident, scan_quote, keyword_at, punct_at};

verus! {

/// The diagnostic that reports the lexing error `e` in source `sid`.
pub open spec fn lex_error_diag(e: LexError, sid: usize) -> DiagV {
    match e {
        LexError::UnterminatedComment { start, end } =>
            diag1("Unterminated block comment"@, sid, start, end, "unterminated block comment"@),
        LexError::UnterminatedString { start, end } =>
            diag1("Unterminated string"@, sid, start, end, "unterminated string"@),
        LexError::Unrecognized { start, ch } =>
            diag1("Unrecognized character `"@ + seq![ch] + "`"@, sid, start, (start + 1) as usize, "unknown character"@),
    }
}

/// The diagnostic that reports the lexing error `e` in source `source_id`.
pub fn lex_error_to_diag(e: LexError, source_id: usize) -> (d: Diag)
    requires
        e matches LexError::Unrecognized { start, .. } ==> start < usize::MAX,
    ensures
        d@ == lex_error_diag(e, source_id),
{
    match e {
        LexError::UnterminatedComment { start, end } => {
            let d = Diag::single("Unterminated block comment", source_id, start, end, "unterminated block comment");
            assert(d@ == diag1("Unterminated block comment"@, source_id, start, end, "unterminated block comment"@));
            d
        },
        LexError::UnterminatedString { start, end } =>
            Diag::single("Unterminated string", source_id, start, end, "unterminated string"),
        LexError::Unrecognized { start, ch } => {
            let mut message = string_of("Unrecognized character `");
            push_char(&mut message, ch);
            message.append("`");
            assert(message@ =~= "Unrecognized character `"@ + seq![ch] + "`"@);
            Diag::single(message.as_str(), source_id, start, start + 1, "unknown character")
        },
    }
}

/// The spec value of an executable lexing result.
pub open spec fn outcome_of(r: Result<Vec<Token>, LexError>) -> Result<Seq<Token>, LexError> {
    match r {
        Ok(v) => Ok(v@),
        Err(e) => Err(e),
    }
}

proof fn lemma_emit_all_push(ts: Seq<Token>, t: Token, rest: LexOutcome)
    ensures
        emit_all(ts, emit(t, rest)) == emit_all(ts.push(t), rest),
{
    match rest.0 {
        Ok(r) => { assert(ts + (seq![t] + r) =~= ts.push(t) + r); },
        Err(_) => {},
    }
}

fn make_token(kind: TokenKind, offsets: &Vec<usize>, i: usize, j: usize, source_id: usize) -> (t: Token)
    requires
        i <= j < offsets@.len(),
    ensures
        t == (Token { kind, span: Span { start: offsets@[i as int], end: offsets@[j as int], source_id } }),
{
    Token { kind, span: Span { start: offsets[i], end: offsets[j], source_id } }
}

/// Lexes the characters `c`, whose byte offsets are `offsets`.
pub fn lex_chars(source_id: usize, c: &Vec<char>, offsets: &Vec<usize>, interner: &mut Interner)
    -> (r: Result<Vec<Token>, LexError>)
    requires
        old(interner).wf(),
        lex(c@, 0, old(interner)@, source_id).1.len() <= u32::MAX,
        offsets@.len() == c.len() + 1,
        forall|k: int| 0 <= k <= c.len() ==> offsets@[k] == byte_offset(c@, k),
        byte_offset(c@, c.len() as int) <= usize::MAX,
    ensures
        final(interner).wf(),
        lex(c@, 0, old(interner)@, source_id) == (outcome_of(r), final(interner)@),
        r matches Err(LexError::Unrecognized { start, .. }) ==> start < usize::MAX,
{
    let n = c.len();
    let mut tokens: Vec<Token> = Vec::new();
    let mut i: usize = 0;
    let ghost strs0 = interner@;
    assert(tokens@ + Seq::<Token>::empty() =~= Seq::<Token>::empty());
    while i < n
        invariant
            n == c.len(),
            i <= n,
            interner.wf(),
            strs0 == old(interner)@,
            lex(c@, 0, strs0, source_id).1.len() <= u32::MAX,
            offsets@.len() == n + 1,
            forall|k: int| 0 <= k <= n ==> offsets@[k] == byte_offset(c@, k),
            byte_offset(c@, n as int) <= usize::MAX,
            lex(c@, 0, strs0, source_id) == emit_all(tokens@, lex(c@, i as int, interner@, source_id)),
        decreases n - i,
    {
        let ghost strs = interner@;
        let ch = c[i];
        if ch == ' ' || ch == '\t' || ch == '\n' || ch == '\r' {
            i += 1;
        } else if ch == ';' && i + 1 < n && c[i + 1] == ';' {
            proof { lemma_skip_line(c@, i + 1); }
            i = scan_line(c, i + 1);
        } else if ch == ';' && i + 1 < n && c[i + 1] == '[' {
            proof { lemma_block_scan(c@, i + 2, seq![i as int]); }
            match scan_block(c, i, offsets) {
                Ok(j) => { i = j; },
                Err(e) => {
                    assert(lex(c@, i as int, strs, source_id) == (Err::<Seq<Token>, LexError>(e), strs));
                    return Err(e);
                },
            }
        } else if ch == ';' {
            let t = make_token(TokenKind::Semicolon, offsets, i, i + 1, source_id);
            proof { lemma_emit_all_push(tokens@, t, lex(c@, i + 1, strs, source_id)); }
            tokens.push(t);
            i += 1;
        } else {
            match punct_at(c, i) {
                Some((kind, k)) => {
                    let t = make_token(kind, offsets, i, i + k, source_id);
                    proof { lemma_emit_all_push(tokens@, t, lex(c@, i + k, strs, source_id)); }
                    tokens.push(t);
                    i += k;
                },
                None => {
                    if '0' <= ch && ch <= '9' {
                        proof { lemma_num_scan(c@, i + 1, false); }
                        let (j, is_float) = scan_number(c, i + 1);
                        let text = string_of_chars(c, i, j);
                        proof { lemma_lex_strings(c@, j as int, crate::common::intern::intern_spec(strs, c@.subrange(i as int, j as int)).0, source_id); }
                        let s = interner.intern(text.as_str());
                        let kind = if is_float { TokenKind::FloatLit(s) } else { TokenKind::IntLit(s) };
                        let t = make_token(kind, offsets, i, j, source_id);
                        proof { lemma_emit_all_push(tokens@, t, lex(c@, j as int, interner@, source_id)); }
                        tokens.push(t);
                        i = j;
                    } else if char_is_alphabetic(ch) || ch == '_' {
                        proof { lemma_ident_scan(c@, i + 1); }
                        let j = scan_ident(c, i + 1);
                        match keyword_at(c, i, j) {
                            Some(kind) => {
                                let t = make_token(kind, offsets, i, j, source_id);
                                proof { lemma_emit_all_push(tokens@, t, lex(c@, j as int, strs, source_id)); }
                                tokens.push(t);
                            },
                            None => {
                                let text = string_of_chars(c, i, j);
                                proof { lemma_lex_strings(c@, j as int, crate::common::intern::intern_spec(strs, c@.subrange(i as int, j as int)).0, source_id); }
                                let s = interner.intern(text.as_str());
                                let t = make_token(TokenKind::Identifier(s), offsets, i, j, source_id);
                                proof { lemma_emit_all_push(tokens@, t, lex(c@, j as int, interner@, source_id)); }
                                tokens.push(t);
                            },
                        }
                        i = j;
                    } else if ch == '"' {
                        proof { lemma_quote_scan(c@, i + 1); }
                        match scan_quote(c, i + 1) {
                            Some(k) => {
                                let text = string_of_chars(c, i + 1, k);
                                proof { lemma_lex_strings(c@, k + 1, crate::common::intern::intern_spec(strs, c@.subrange(i + 1, k as int)).0, source_id); }
                                let s = interner.intern(text.as_str());
                                let t = make_token(TokenKind::StringLit(s), offsets, i, k + 1, source_id);
                                proof { lemma_emit_all_push(tokens@, t, lex(c@, k + 1, interner@, source_id)); }
                                tokens.push(t);
                                i = k + 1;
                            },
                            None => {
                                proof { chars::lemma_byte_offset_mono(c@, i as int, n as int); }
                                let end = if n > i + 1 { offsets[n] } else { offsets[i] + 1 };
                                return Err(LexError::UnterminatedString { start: offsets[i], end });
                            },
                        }
                    } else {
                        proof { chars::lemma_byte_offset_mono(c@, i as int, n as int); }
                        return Err(LexError::Unrecognized { start: offsets[i], ch });
                    }
                },
            }
        }
    }
    assert(tokens@ + Seq::<Token>::empty() =~= tokens@);
    Ok(tokens)
}

/// Splits `source` (the source with id `source_id`) into tokens, interning the text of
/// literals and identifiers; whitespace and `;; ...` / `;[ ... ]` comments produce no token.
pub fn tokenize(source_id: usize, source: &str, interner: &mut Interner) -> (r: Result<Vec<Token>, Diag>)
    requires
        old(interner).wf(),
        lex(source@, 0, old(interner)@, source_id).1.len() <= u32::MAX,
        encode_utf8(source@).len() <= usize::MAX,
    ensures
        final(interner).wf(),
        final(interner)@ == lex(source@, 0, old(interner)@, source_id).1,
        r matches Ok(v) ==> lex(source@, 0, old(interner)@, source_id).0 == Ok::<Seq<Token>, LexError>(v@),
        r matches Err(d) ==> exists|e: LexError| lex(source@, 0, old(interner)@, source_id).0 == Err::<Seq<Token>, LexError>(e)
            && d@ == lex_error_diag(e, source_id),
{
    let (c, offsets) = chars::chars_and_offsets(source);
    match lex_chars(source_id, &c, &offsets, interner) {
        Ok(v) => Ok(v),
        Err(e) => Err(lex_error_to_diag(e, source_id)),
    }
}

} // verus!

verus! {

/// Whether the tokens `ts` lie, in order and without overlapping, inside bytes `lo..hi` of
/// source `sid`, each covering at least one byte.
pub open spec fn tokens_in_order(ts: Seq<Token>, lo: nat, hi: nat, sid: usize) -> bool {
    &&& forall|k: int| 0 <= k < ts.len() ==> {
        &&& lo <= ts[k].span.start < ts[k].span.end <= hi
        &&& ts[k].span.source_id == sid
    }
    &&& forall|k: int, l: int| 0 <= k < l < ts.len() ==> ts[k].span.end <= ts[l].span.start
}

proof fn lemma_lex_in_order(c: Seq<char>, i: int, strs: Seq<Seq<char>>, sid: usize)
    requires
        0 <= i <= c.len(),
        byte_offset(c, c.len() as int) <= usize::MAX,
    ensures
        lex(c, i, strs, sid).0 matches Ok(ts) ==> tokens_in_order(ts, byte_offset(c, i), byte_offset(c, c.len() as int), sid),
        strs.is_prefix_of(lex(c, i, strs, sid).1),
    decreases c.len() - i,
{
    let total = byte_offset(c, c.len() as int);
    if i == c.len() {
        assert(strs.take(strs.len() as int) =~= strs);
    } else {
        let ch = c[i];
        if spec::is_space(ch) {
            lemma_lex_in_order(c, i + 1, strs, sid);
            chars::lemma_byte_offset_mono(c, i, i + 1);
        } else if ch == ';' && spec::next_is(c, i, ';') {
            lemma_skip_line(c, i + 1);
            let j = spec::skip_line(c, i + 1);
            lemma_lex_in_order(c, j, strs, sid);
            chars::lemma_byte_offset_mono(c, i, j);
        } else if ch == ';' && spec::next_is(c, i, '[') {
            lemma_block_scan(c, i + 2, seq![i]);
            if let Ok(j) = spec::block_scan(c, i + 2, seq![i]) {
                lemma_lex_in_order(c, j, strs, sid);
                chars::lemma_byte_offset_mono(c, i, j);
            } else {
                assert(strs.take(strs.len() as int) =~= strs);
            }
        } else {
            let (j, strs2) = next_token_end(c, i, strs, sid);
            assert(strs.take(strs.len() as int) =~= strs);
            lemma_lex_in_order(c, j, strs2, sid);
            chars::lemma_byte_offset_mono(c, i, j);
            chars::lemma_byte_offset_mono(c, j, c.len() as int);
            if let Ok(ts) = lex(c, i, strs, sid).0 {
                let rest = lex(c, j, strs2, sid).0->Ok_0;
                assert(ts == seq![ts[0]] + rest);
                assert forall|k: int, l: int| 0 <= k < l < ts.len() implies ts[k].span.end <= ts[l].span.start by {
                    if k > 0 {
                        assert(ts[k] == rest[k - 1]);
                        assert(ts[l] == rest[l - 1]);
                    } else {
                        assert(ts[l] == rest[l - 1]);
                    }
                }
                assert forall|k: int| 0 <= k < ts.len() implies byte_offset(c, i) <= ts[k].span.start < ts[k].span.end <= total
                    && ts[k].span.source_id == sid by {
                    if k > 0 {
                        assert(ts[k] == rest[k - 1]);
                    }
                }
            }
        }
    }
}

/// Where the token that starts at `i` ends and what is interned afterwards, for the cases that
/// emit a token or stop.
proof fn next_token_end(c: Seq<char>, i: int, strs: Seq<Seq<char>>, sid: usize) -> (r: (int, Seq<Seq<char>>))
    requires
        0 <= i < c.len(),
        !spec::is_space(c[i]),
        !(c[i] == ';' && spec::next_is(c, i, ';')),
        !(c[i] == ';' && spec::next_is(c, i, '[')),
    ensures
        i < r.0 <= c.len(),
        strs.is_prefix_of(r.1),
        lex(c, i, strs, sid).1 == strs || lex(c, i, strs, sid).1 == lex(c, r.0, r.1, sid).1,
        lex(c, i, strs, sid).0 is Ok ==> {
            &&& lex(c, i, strs, sid) == emit(
                lex(c, i, strs, sid).0->Ok_0[0], lex(c, r.0, r.1, sid))
            &&& lex(c, i, strs, sid).0->Ok_0[0].span == (Span {
                start: byte_offset(c, i) as usize, end: byte_offset(c, r.0) as usize, source_id: sid })
        },
{
    let ch = c[i];
    if ch == ';' {
        (i + 1, strs)
    } else if spec::punct(c, i) is Some {
        (i + spec::punct(c, i).unwrap().1, strs)
    } else if spec::is_digit(ch) {
        lemma_num_scan(c, i + 1, false);
        let j = spec::num_scan(c, i + 1, false).0;
        let r = crate::common::intern::intern_spec(strs, c.subrange(i, j)).0;
        assert(strs.is_prefix_of(r));
        (j, r)
    } else if spec::letter(ch) || ch == '_' {
        lemma_ident_scan(c, i + 1);
        let j = spec::ident_scan(c, i + 1);
        match spec::keyword(c.subrange(i, j)) {
            Some(_) => (j, strs),
            None => {
                let r = crate::common::intern::intern_spec(strs, c.subrange(i, j)).0;
                assert(strs.is_prefix_of(r));
                (j, r)
            },
        }
    } else if ch == '"' {
        lemma_quote_scan(c, i + 1);
        match spec::quote_scan(c, i + 1) {
            Some(k) => {
                let r = crate::common::intern::intern_spec(strs, c.subrange(i + 1, k)).0;
                assert(strs.is_prefix_of(r));
                (k + 1, r)
            },
            None => (i + 1, strs),
        }
    } else {
        (i + 1, strs)
    }
}

/// Tokens come out in source order, do not overlap, each covers at least one byte of the
/// source, and carry the id of their source; interning only ever adds strings.
pub proof fn law_tokens_in_source_order(source: Seq<char>, strs: Seq<Seq<char>>, sid: usize)
    requires
        byte_offset(source, source.len() as int) <= usize::MAX,
    ensures
        lex(source, 0, strs, sid).0 matches Ok(ts) ==> tokens_in_order(ts, 0, byte_offset(source, source.len() as int), sid),
        strs.is_prefix_of(lex(source, 0, strs, sid).1),
{
    lemma_lex_in_order(source, 0, strs, sid);
}

} // verus!
