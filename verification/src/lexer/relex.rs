//! Lexing a token's text back: the printed text of a token kind that lexing gave lexes to
//! exactly that one token.

use vstd::prelude::*;
use crate::common::Sym;
use crate::common::intern::{intern_spec, no_dups};
use super::spec::{
    ident_scan, is_digit, keyword, letter, letter_or_digit, lex, num_scan, quote_scan, tok, LexError,
};
use super::token::{Token, TokenKind};

verus! {

/// Whether `w` is what the lexer reads as one number: a digit, then digits, underscores and
/// at most one point, which makes it a float.
pub open spec fn number_text(w: Seq<char>, is_float: bool) -> bool {
    w.len() > 0 && is_digit(w[0]) && num_scan(w, 1, false) == (w.len() as int, is_float)
}

/// Whether `w` is what the lexer reads as one name: a letter or `_`, then letters, digits and
/// underscores, and no keyword.
pub open spec fn name_text(w: Seq<char>) -> bool {
    w.len() > 0 && (letter(w[0]) || w[0] == '_') && ident_scan(w, 1) == w.len() && keyword(w) is None
}

/// Whether `w` holds no `"`.
pub open spec fn quote_free(w: Seq<char>) -> bool {
    forall|i: int| 0 <= i < w.len() ==> w[i] != '"'
}

/// Whether the kind is one that lexing can give with the strings `strs`: a number, name or
/// string literal names a string that the lexer reads as such a token.
pub open spec fn lexable_kind(k: TokenKind, strs: Seq<Seq<char>>) -> bool {
    match k {
        TokenKind::IntLit(s) => s.0 < strs.len() && number_text(strs[s.0 as int], false),
        TokenKind::FloatLit(s) => s.0 < strs.len() && number_text(strs[s.0 as int], true),
        TokenKind::Identifier(s) => s.0 < strs.len() && name_text(strs[s.0 as int]),
        TokenKind::StringLit(s) => s.0 < strs.len() && quote_free(strs[s.0 as int]),
        _ => true,
    }
}

/// The outcome of lexing a text into the single token `k` over all of it.
pub open spec fn single(text: Seq<char>, k: TokenKind, strs: Seq<Seq<char>>, sid: usize)
    -> (Result<Seq<Token>, LexError>, Seq<Seq<char>>)
{
    (Ok(seq![tok(text, k, 0, text.len() as int, sid)]), strs)
}

// ---------------------------------------------------------------------------------------------
// Scans read the same on the text they cut out
// ---------------------------------------------------------------------------------------------

proof fn lemma_num_scan_cut(c: Seq<char>, i: int, p: int, f: bool)
    requires
        0 <= i < p <= c.len(),
        p <= num_scan(c, p, f).0,
    ensures
        num_scan(c.subrange(i, num_scan(c, p, f).0), p - i, f)
            == (num_scan(c, p, f).0 - i, num_scan(c, p, f).1),
    decreases c.len() - p,
{
    let j = num_scan(c, p, f).0;
    let w = c.subrange(i, j);
    if p < c.len() {
        if is_digit(c[p]) || c[p] == '_' {
            super::spec::lemma_num_scan(c, p + 1, f);
            lemma_num_scan_cut(c, i, p + 1, f);
            assert(w[p - i] == c[p]);
        } else if c[p] == '.' && !f {
            super::spec::lemma_num_scan(c, p + 1, true);
            lemma_num_scan_cut(c, i, p + 1, true);
            assert(w[p - i] == c[p]);
        }
    }
}

proof fn lemma_ident_scan_cut(c: Seq<char>, i: int, p: int)
    requires
        0 <= i < p <= c.len(),
    ensures
        ident_scan(c.subrange(i, ident_scan(c, p)), p - i) == ident_scan(c, p) - i,
    decreases c.len() - p,
{
    super::spec::lemma_ident_scan(c, p);
    let j = ident_scan(c, p);
    let w = c.subrange(i, j);
    if p < c.len() && (letter_or_digit(c[p]) || c[p] == '_') {
        super::spec::lemma_ident_scan(c, p + 1);
        lemma_ident_scan_cut(c, i, p + 1);
        assert(w[p - i] == c[p]);
    }
}

proof fn lemma_quote_scan_free(c: Seq<char>, p: int)
    requires
        0 <= p,
        quote_scan(c, p) is Some,
    ensures
        quote_free(c.subrange(p, quote_scan(c, p)->Some_0)),
    decreases c.len() - p,
{
    super::spec::lemma_quote_scan(c, p);
    let k = quote_scan(c, p)->Some_0;
    if c[p] != '"' {
        lemma_quote_scan_free(c, p + 1);
        super::spec::lemma_quote_scan(c, p + 1);
        assert forall|q: int| 0 <= q < k - p implies c.subrange(p, k)[q] != '"' by {
            if q > 0 {
                assert(c.subrange(p, k)[q] == c.subrange(p + 1, k)[q - 1]);
            }
        }
    }
}

// ---------------------------------------------------------------------------------------------
// Lexing the text of one kind
// ---------------------------------------------------------------------------------------------

proof fn lemma_known(strs: Seq<Seq<char>>, s: Sym)
    requires
        no_dups(strs),
        s.0 < strs.len(),
    ensures
        intern_spec(strs, strs[s.0 as int]) == (strs, s),
{
    let w = strs[s.0 as int];
    assert(strs.contains(w));
    let i = strs.index_of(w);
    assert(strs[i] == w);
}

proof fn lemma_relex_number(k: TokenKind, strs: Seq<Seq<char>>, sid: usize)
    requires
        no_dups(strs),
        k is IntLit || k is FloatLit,
        lexable_kind(k, strs),
    ensures
        lex(k.spec_format(strs), 0, strs, sid) == single(k.spec_format(strs), k, strs, sid),
{
    let s = match k { TokenKind::IntLit(s) => s, TokenKind::FloatLit(s) => s, _ => Sym(0) };
    let w = strs[s.0 as int];
    lemma_known(strs, s);
    assert(w.subrange(0, w.len() as int) =~= w);
    assert(lex(w, w.len() as int, strs, sid) == (Ok::<Seq<Token>, LexError>(Seq::<Token>::empty()), strs));
    assert(seq![tok(w, k, 0, w.len() as int, sid)] + Seq::<Token>::empty() =~= seq![tok(w, k, 0, w.len() as int, sid)]);
}

proof fn lemma_relex_name(k: TokenKind, strs: Seq<Seq<char>>, sid: usize)
    requires
        no_dups(strs),
        k is Identifier,
        lexable_kind(k, strs),
    ensures
        lex(k.spec_format(strs), 0, strs, sid) == single(k.spec_format(strs), k, strs, sid),
{
    let s = k->Identifier_0;
    let w = strs[s.0 as int];
    lemma_known(strs, s);
    assert(w.subrange(0, w.len() as int) =~= w);
    assert(lex(w, w.len() as int, strs, sid) == (Ok::<Seq<Token>, LexError>(Seq::<Token>::empty()), strs));
    assert(seq![tok(w, k, 0, w.len() as int, sid)] + Seq::<Token>::empty() =~= seq![tok(w, k, 0, w.len() as int, sid)]);
}

proof fn lemma_quote_scan_end(t: Seq<char>, p: int)
    requires
        1 <= p <= t.len() - 1,
        t[t.len() - 1] == '"',
        forall|q: int| p <= q < t.len() - 1 ==> t[q] != '"',
    ensures
        quote_scan(t, p) == Some(t.len() - 1),
    decreases t.len() - p,
{
    if p < t.len() - 1 {
        lemma_quote_scan_end(t, p + 1);
    }
}

proof fn lemma_relex_string(k: TokenKind, strs: Seq<Seq<char>>, sid: usize)
    requires
        no_dups(strs),
        k is StringLit,
        lexable_kind(k, strs),
    ensures
        lex(k.spec_format(strs), 0, strs, sid) == single(k.spec_format(strs), k, strs, sid),
{
    reveal_strlit("\"");
    let s = k->StringLit_0;
    let w = strs[s.0 as int];
    let t = k.spec_format(strs);
    assert(t =~= seq!['"'] + w + seq!['"']);
    let n = t.len() as int;
    assert forall|q: int| 1 <= q < n - 1 implies t[q] != '"' by {
        assert(t[q] == w[q - 1]);
    }
    lemma_quote_scan_end(t, 1);
    assert(t.subrange(1, n - 1) =~= w);
    lemma_known(strs, s);
    assert(lex(t, n, strs, sid) == (Ok::<Seq<Token>, LexError>(Seq::<Token>::empty()), strs));
    assert(seq![tok(t, k, 0, n, sid)] + Seq::<Token>::empty() =~= seq![tok(t, k, 0, n, sid)]);
}

/// Whether `k` is a keyword or a boolean literal.
pub open spec fn keyword_kind(k: TokenKind) -> bool {
    k is BoolLit || k is KwCallable || k is KwNil || k is KwIf || k is KwThen || k is KwElse
        || k is KwWhile || k is KwDo || k is KwReturn || k is KwBreak || k is KwContinue
}

/// Whether `k` is punctuation.
pub open spec fn punct_kind(k: TokenKind) -> bool {
    k is LParen || k is RParen || k is LCurly || k is RCurly || k is Colon || k is Comma
        || k is CColon || k is Walrus || k is Semicolon || k is Dot
}

#[verifier::rlimit(40)]
proof fn lemma_relex_keyword(k: TokenKind, strs: Seq<Seq<char>>, sid: usize)
    requires
        keyword_kind(k),
    ensures
        lex(k.spec_format(strs), 0, strs, sid) == single(k.spec_format(strs), k, strs, sid),
{
    reveal_strlit("true");
    reveal_strlit("false");
    reveal_strlit("callable");
    reveal_strlit("nil");
    reveal_strlit("if");
    reveal_strlit("then");
    reveal_strlit("else");
    reveal_strlit("while");
    reveal_strlit("do");
    reveal_strlit("return");
    reveal_strlit("break");
    reveal_strlit("continue");
    reveal_with_fuel(ident_scan, 9);
    let t = k.spec_format(strs);
    let n = t.len() as int;
    assert(ident_scan(t, 1) == n);
    assert(t.subrange(0, n) =~= t);
    match k {
        TokenKind::BoolLit(true) => assert(t =~= seq!['t', 'r', 'u', 'e']),
        TokenKind::BoolLit(false) => assert(t =~= seq!['f', 'a', 'l', 's', 'e']),
        TokenKind::KwCallable => assert(t =~= seq!['c', 'a', 'l', 'l', 'a', 'b', 'l', 'e']),
        TokenKind::KwNil => assert(t =~= seq!['n', 'i', 'l']),
        TokenKind::KwIf => assert(t =~= seq!['i', 'f']),
        TokenKind::KwThen => assert(t =~= seq!['t', 'h', 'e', 'n']),
        TokenKind::KwElse => assert(t =~= seq!['e', 'l', 's', 'e']),
        TokenKind::KwWhile => assert(t =~= seq!['w', 'h', 'i', 'l', 'e']),
        TokenKind::KwDo => assert(t =~= seq!['d', 'o']),
        TokenKind::KwReturn => assert(t =~= seq!['r', 'e', 't', 'u', 'r', 'n']),
        TokenKind::KwBreak => assert(t =~= seq!['b', 'r', 'e', 'a', 'k']),
        TokenKind::KwContinue => assert(t =~= seq!['c', 'o', 'n', 't', 'i', 'n', 'u', 'e']),
        _ => {},
    }
    assert(keyword(t) == Some(k));
    assert(lex(t, n, strs, sid) == (Ok::<Seq<Token>, LexError>(Seq::<Token>::empty()), strs));
    assert(seq![tok(t, k, 0, n, sid)] + Seq::<Token>::empty() =~= seq![tok(t, k, 0, n, sid)]);
}

proof fn lemma_relex_punct(k: TokenKind, strs: Seq<Seq<char>>, sid: usize)
    requires
        punct_kind(k),
    ensures
        lex(k.spec_format(strs), 0, strs, sid) == single(k.spec_format(strs), k, strs, sid),
{
    reveal_strlit("(");
    reveal_strlit(")");
    reveal_strlit("{");
    reveal_strlit("}");
    reveal_strlit(":");
    reveal_strlit(",");
    reveal_strlit("::");
    reveal_strlit(":=");
    reveal_strlit(";");
    reveal_strlit(".");
    let t = k.spec_format(strs);
    let n = t.len() as int;
    assert(lex(t, n, strs, sid) == (Ok::<Seq<Token>, LexError>(Seq::<Token>::empty()), strs));
    assert(seq![tok(t, k, 0, n, sid)] + Seq::<Token>::empty() =~= seq![tok(t, k, 0, n, sid)]);
}

/// The printed text of a kind that lexing can give lexes back to exactly that one token.
pub proof fn law_kind_text_lexes_back(k: TokenKind, strs: Seq<Seq<char>>, sid: usize)
    requires
        no_dups(strs),
        lexable_kind(k, strs),
    ensures
        lex(k.spec_format(strs), 0, strs, sid) == single(k.spec_format(strs), k, strs, sid),
{
    match k {
        TokenKind::Operator(op) => super::reading::law_operator_text_lexes_back(op, strs, sid),
        TokenKind::Reassign(op) => super::reading::law_reassign_text_lexes_back(op, strs, sid),
        TokenKind::IntLit(_) | TokenKind::FloatLit(_) => lemma_relex_number(k, strs, sid),
        TokenKind::Identifier(_) => lemma_relex_name(k, strs, sid),
        TokenKind::StringLit(_) => lemma_relex_string(k, strs, sid),
        TokenKind::LParen | TokenKind::RParen | TokenKind::LCurly | TokenKind::RCurly | TokenKind::Colon
        | TokenKind::Comma | TokenKind::CColon | TokenKind::Walrus | TokenKind::Semicolon | TokenKind::Dot =>
            lemma_relex_punct(k, strs, sid),
        _ => lemma_relex_keyword(k, strs, sid),
    }
}

proof fn lemma_first_lexable(ts: Seq<Token>, rest: Seq<Token>, t: Token, fin: Seq<Seq<char>>)
    requires
        ts == seq![t] + rest,
        lexable_kind(t.kind, fin),
        forall|k: int| 0 <= k < rest.len() ==> lexable_kind(#[trigger] rest[k].kind, fin),
    ensures
        forall|k: int| 0 <= k < ts.len() ==> lexable_kind(#[trigger] ts[k].kind, fin),
{
    assert forall|k: int| 0 <= k < ts.len() implies lexable_kind(#[trigger] ts[k].kind, fin) by {
        if k > 0 {
            assert(ts[k] == rest[k - 1]);
        }
    }
}

/// Lexing from `i` on keeps the interned strings distinct, and every token it gives has a
/// kind that lexing can give with the strings interned by the end.
#[verifier::rlimit(40)]
#[verifier::spinoff_prover]
proof fn lemma_tokens_lexable(c: Seq<char>, i: int, strs: Seq<Seq<char>>, sid: usize)
    requires
        0 <= i,
        no_dups(strs),
        lex(c, i, strs, sid).1.len() <= u32::MAX,
    ensures
        no_dups(lex(c, i, strs, sid).1),
        lex(c, i, strs, sid).0 matches Ok(ts) ==>
            forall|k: int| 0 <= k < ts.len() ==> lexable_kind(#[trigger] ts[k].kind, lex(c, i, strs, sid).1),
    decreases c.len() - i,
{
    if i < c.len() {
        super::spec::lemma_lex_strings(c, i, strs, sid);
        let ch = c[i];
        let fin = lex(c, i, strs, sid).1;
        if super::spec::is_space(ch) {
            lemma_tokens_lexable(c, i + 1, strs, sid);
        } else if ch == ';' && super::spec::next_is(c, i, ';') {
            super::spec::lemma_skip_line(c, i + 1);
            lemma_tokens_lexable(c, super::spec::skip_line(c, i + 1), strs, sid);
        } else if ch == ';' && super::spec::next_is(c, i, '[') {
            super::spec::lemma_block_scan(c, i + 2, seq![i]);
            if let Ok(j) = super::spec::block_scan(c, i + 2, seq![i]) {
                lemma_tokens_lexable(c, j, strs, sid);
            }
        } else if ch == ';' {
            lemma_tokens_lexable(c, i + 1, strs, sid);
            if lex(c, i + 1, strs, sid).0 is Ok {
                lemma_first_lexable(lex(c, i, strs, sid).0->Ok_0, lex(c, i + 1, strs, sid).0->Ok_0,
                    tok(c, TokenKind::Semicolon, i, i + 1, sid), fin);
            }
        } else if super::spec::punct(c, i) is Some {
            let (kind, n) = super::spec::punct(c, i).unwrap();
            lemma_tokens_lexable(c, i + n, strs, sid);
            if lex(c, i + n, strs, sid).0 is Ok {
                lemma_first_lexable(lex(c, i, strs, sid).0->Ok_0, lex(c, i + n, strs, sid).0->Ok_0,
                    tok(c, kind, i, i + n, sid), fin);
            }
        } else if is_digit(ch) {
            super::spec::lemma_num_scan(c, i + 1, false);
            let (j, is_float) = num_scan(c, i + 1, false);
            let w = c.subrange(i, j);
            let strs2 = intern_spec(strs, w).0;
            let sym = intern_spec(strs, w).1;
            super::reading::lemma_intern_facts(strs, w);
            crate::common::intern::law_intern_idempotent(strs, w);
            super::reading::lemma_lex_keeps(c, j, strs2, sid);
            lemma_tokens_lexable(c, j, strs2, sid);
            lemma_num_scan_cut(c, i, i + 1, false);
            let kind = if is_float { TokenKind::FloatLit(sym) } else { TokenKind::IntLit(sym) };
            assert(lexable_kind(kind, fin));
            if lex(c, j, strs2, sid).0 is Ok {
                lemma_first_lexable(lex(c, i, strs, sid).0->Ok_0, lex(c, j, strs2, sid).0->Ok_0,
                    tok(c, kind, i, j, sid), fin);
            }
        } else if letter(ch) || ch == '_' {
            super::spec::lemma_ident_scan(c, i + 1);
            let j = ident_scan(c, i + 1);
            let w = c.subrange(i, j);
            if keyword(w) is Some {
                lemma_tokens_lexable(c, j, strs, sid);
                if lex(c, j, strs, sid).0 is Ok {
                    lemma_first_lexable(lex(c, i, strs, sid).0->Ok_0, lex(c, j, strs, sid).0->Ok_0,
                        tok(c, keyword(w).unwrap(), i, j, sid), fin);
                }
            } else {
                let strs2 = intern_spec(strs, w).0;
                let sym = intern_spec(strs, w).1;
                super::reading::lemma_intern_facts(strs, w);
                crate::common::intern::law_intern_idempotent(strs, w);
                super::reading::lemma_lex_keeps(c, j, strs2, sid);
                lemma_tokens_lexable(c, j, strs2, sid);
                lemma_ident_scan_cut(c, i, i + 1);
                assert(w[0] == ch);
                assert(lexable_kind(TokenKind::Identifier(sym), fin));
                if lex(c, j, strs2, sid).0 is Ok {
                    lemma_first_lexable(lex(c, i, strs, sid).0->Ok_0, lex(c, j, strs2, sid).0->Ok_0,
                        tok(c, TokenKind::Identifier(sym), i, j, sid), fin);
                }
            }
        } else if ch == '"' {
            super::spec::lemma_quote_scan(c, i + 1);
            if let Some(k) = quote_scan(c, i + 1) {
                let w = c.subrange(i + 1, k);
                let strs2 = intern_spec(strs, w).0;
                let sym = intern_spec(strs, w).1;
                super::reading::lemma_intern_facts(strs, w);
                crate::common::intern::law_intern_idempotent(strs, w);
                super::reading::lemma_lex_keeps(c, k + 1, strs2, sid);
                lemma_tokens_lexable(c, k + 1, strs2, sid);
                lemma_quote_scan_free(c, i + 1);
                assert(lexable_kind(TokenKind::StringLit(sym), fin));
                if lex(c, k + 1, strs2, sid).0 is Ok {
                    lemma_first_lexable(lex(c, i, strs, sid).0->Ok_0, lex(c, k + 1, strs2, sid).0->Ok_0,
                        tok(c, TokenKind::StringLit(sym), i, k + 1, sid), fin);
                }
            }
        }
    }
}

/// Printing the kind of any token that lexing gives, with the strings interned by the end,
/// and lexing that text again gives back exactly that one token, over the whole text, and
/// interns nothing new.
pub proof fn law_lexed_kinds_lex_back(c: Seq<char>, strs: Seq<Seq<char>>, sid: usize, sid2: usize)
    requires
        no_dups(strs),
        lex(c, 0, strs, sid).1.len() <= u32::MAX,
    ensures
        lex(c, 0, strs, sid).0 matches Ok(ts) ==> forall|k: int| 0 <= k < ts.len() ==> {
            let fin = lex(c, 0, strs, sid).1;
            let text = (#[trigger] ts[k]).kind.spec_format(fin);
            lex(text, 0, fin, sid2) == single(text, ts[k].kind, fin, sid2)
        },
{
    lemma_tokens_lexable(c, 0, strs, sid);
    if lex(c, 0, strs, sid).0 is Ok {
        let ts = lex(c, 0, strs, sid).0->Ok_0;
        let fin = lex(c, 0, strs, sid).1;
        assert forall|k: int| 0 <= k < ts.len() implies ({
            let text = (#[trigger] ts[k]).kind.spec_format(fin);
            lex(text, 0, fin, sid2) == single(text, ts[k].kind, fin, sid2)
        }) by {
            law_kind_text_lexes_back(ts[k].kind, fin, sid2);
        }
    }
}

} // verus!
