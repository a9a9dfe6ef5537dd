//! What tokens read as: printed back, each token of a lexed source is the text it covers.

use vstd::prelude::*;
use crate::common::intern::intern_spec;
use super::spec::{
    block_scan, byte_offset, ident_scan, is_digit, is_space, keyword, lemma_block_scan, lemma_ident_scan,
    lemma_num_scan, lemma_quote_scan, lemma_skip_line, letter, lex, next_is, num_scan, punct, quote_scan,
    skip_line,
};
use super::token::{Token, TokenKind};

verus! {

/// Whether `t`, printed with the strings `strs`, is the text of the characters of `c` it covers.
pub open spec fn reads_as_source(t: Token, c: Seq<char>, strs: Seq<Seq<char>>) -> bool {
    exists|i: int, j: int| #![trigger c.subrange(i, j)]
        0 <= i <= j <= c.len()
        && t.span.start == byte_offset(c, i) as usize && t.span.end == byte_offset(c, j) as usize
        && t.kind.spec_format(strs) == c.subrange(i, j)
}

pub(crate) proof fn lemma_intern_facts(strs: Seq<Seq<char>>, w: Seq<char>)
    requires
        strs.len() <= usize::MAX,
    ensures
        strs.len() <= intern_spec(strs, w).0.len(),
        forall|k: int| 0 <= k < strs.len() ==> intern_spec(strs, w).0[k] == strs[k],
        intern_spec(strs, w).1.0 < intern_spec(strs, w).0.len(),
        intern_spec(strs, w).0[intern_spec(strs, w).1.0 as int] == w,
{
    if strs.contains(w) {
        let i = strs.index_of(w);
        assert(strs[i] == w);
    } else {
        assert(strs.push(w)[strs.len() as int] == w);
    }
}

/// Lexing keeps every string interned before where it was.
pub(crate) proof fn lemma_lex_keeps(c: Seq<char>, i: int, strs: Seq<Seq<char>>, sid: usize)
    requires
        0 <= i,
        lex(c, i, strs, sid).1.len() <= u32::MAX,
    ensures
        strs.len() <= lex(c, i, strs, sid).1.len(),
        forall|k: int| 0 <= k < strs.len() ==> lex(c, i, strs, sid).1[k] == strs[k],
    decreases c.len() - i,
{
    if i < c.len() {
        super::spec::lemma_lex_strings(c, i, strs, sid);
        let ch = c[i];
        if is_space(ch) {
            lemma_lex_keeps(c, i + 1, strs, sid);
        } else if ch == ';' && next_is(c, i, ';') {
            lemma_skip_line(c, i + 1);
            lemma_lex_keeps(c, skip_line(c, i + 1), strs, sid);
        } else if ch == ';' && next_is(c, i, '[') {
            lemma_block_scan(c, i + 2, seq![i]);
            if let Ok(j) = block_scan(c, i + 2, seq![i]) {
                lemma_lex_keeps(c, j, strs, sid);
            }
        } else if ch == ';' {
            lemma_lex_keeps(c, i + 1, strs, sid);
        } else if punct(c, i) is Some {
            let (kind, n) = punct(c, i).unwrap();
            lemma_lex_keeps(c, i + n, strs, sid);
        } else if is_digit(ch) {
            lemma_num_scan(c, i + 1, false);
            let (j, is_float) = num_scan(c, i + 1, false);
            let w = c.subrange(i, j);
            lemma_intern_facts(strs, w);
            lemma_lex_keeps(c, j, intern_spec(strs, w).0, sid);
        } else if letter(ch) || ch == '_' {
            lemma_ident_scan(c, i + 1);
            let j = ident_scan(c, i + 1);
            let w = c.subrange(i, j);
            if keyword(w) is Some {
                lemma_lex_keeps(c, j, strs, sid);
            } else {
                lemma_intern_facts(strs, w);
                lemma_lex_keeps(c, j, intern_spec(strs, w).0, sid);
            }
        } else if ch == '"' {
            lemma_quote_scan(c, i + 1);
            if let Some(k) = quote_scan(c, i + 1) {
                let w = c.subrange(i + 1, k);
                lemma_intern_facts(strs, w);
                lemma_lex_keeps(c, k + 1, intern_spec(strs, w).0, sid);
            }
        }
    }
}

proof fn lemma_punct_text(c: Seq<char>, i: int, strs: Seq<Seq<char>>)
    requires
        0 <= i < c.len(),
        punct(c, i) is Some,
    ensures
        punct(c, i).unwrap().1 == 1 || punct(c, i).unwrap().1 == 2,
        i + punct(c, i).unwrap().1 <= c.len(),
        punct(c, i).unwrap().0.spec_format(strs) == c.subrange(i, i + punct(c, i).unwrap().1),
{
    reveal_strlit("(");
    reveal_strlit(")");
    reveal_strlit("{");
    reveal_strlit("}");
    reveal_strlit(":");
    reveal_strlit(",");
    reveal_strlit("::");
    reveal_strlit(":=");
    reveal_strlit(".");
    let n = punct(c, i).unwrap().1;
    if n == 2 {
        assert(next_is(c, i, '=') || next_is(c, i, ':'));
    }
    assert(c.subrange(i, i + n) =~= if n == 1 { seq![c[i]] } else { seq![c[i], c[i + 1]] });
}

proof fn lemma_keyword_text(w: Seq<char>, strs: Seq<Seq<char>>)
    requires
        keyword(w) is Some,
    ensures
        keyword(w).unwrap().spec_format(strs) == w,
{
    reveal_strlit("true");
    reveal_strlit("false");
    reveal_strlit("callable");
    reveal_strlit("nil");
    reveal_strlit("if");
    reveal_strlit("then");
    reveal_strlit("else");
    reveal_strlit("while");
    reveal_strlit("do");
    reveal_strlit("return");
    reveal_strlit("break");
    reveal_strlit("continue");
}

proof fn lemma_quoted_text(c: Seq<char>, i: int, k: int, strs: Seq<Seq<char>>, s: crate::common::Sym)
    requires
        0 <= i < k < c.len(),
        c[i] == '"',
        c[k] == '"',
        s.0 < strs.len(),
        strs[s.0 as int] == c.subrange(i + 1, k),
    ensures
        TokenKind::StringLit(s).spec_format(strs) == c.subrange(i, k + 1),
{
    reveal_strlit("\"");
    assert(c.subrange(i, k + 1) =~= seq!['"'] + c.subrange(i + 1, k) + seq!['"']);
}

/// Each token of the part of `c` lexed from `i` on reads as the text it covers.
#[verifier::rlimit(40)]
#[verifier::spinoff_prover]
proof fn lemma_tokens_read(c: Seq<char>, i: int, strs: Seq<Seq<char>>, sid: usize)
    requires
        0 <= i,
        lex(c, i, strs, sid).1.len() <= u32::MAX,
    ensures
        lex(c, i, strs, sid).0 matches Ok(ts) ==>
            forall|k: int| 0 <= k < ts.len() ==> reads_as_source(#[trigger] ts[k], c, lex(c, i, strs, sid).1),
    decreases c.len() - i,
{
    if i < c.len() {
        super::spec::lemma_lex_strings(c, i, strs, sid);
        let ch = c[i];
        let fin = lex(c, i, strs, sid).1;
        if is_space(ch) {
            lemma_tokens_read(c, i + 1, strs, sid);
        } else if ch == ';' && next_is(c, i, ';') {
            lemma_skip_line(c, i + 1);
            lemma_tokens_read(c, skip_line(c, i + 1), strs, sid);
        } else if ch == ';' && next_is(c, i, '[') {
            lemma_block_scan(c, i + 2, seq![i]);
            if let Ok(j) = block_scan(c, i + 2, seq![i]) {
                lemma_tokens_read(c, j, strs, sid);
            }
        } else if ch == ';' {
            reveal_strlit(";");
            lemma_tokens_read(c, i + 1, strs, sid);
            assert(c.subrange(i, i + 1) =~= seq![';']);
            let t = super::spec::tok(c, TokenKind::Semicolon, i, i + 1, sid);
            assert(lex(c, i, strs, sid) == super::spec::emit(t, lex(c, i + 1, strs, sid)));
            assert(t.kind.spec_format(fin) == c.subrange(i, i + 1));
            lemma_emitted(c, i, i + 1, lex(c, i, strs, sid), lex(c, i + 1, strs, sid));
        } else if punct(c, i) is Some {
            let (kind, n) = punct(c, i).unwrap();
            lemma_punct_text(c, i, fin);
            lemma_tokens_read(c, i + n, strs, sid);
            lemma_emitted(c, i, i + n, lex(c, i, strs, sid), lex(c, i + n, strs, sid));
        } else if is_digit(ch) {
            lemma_num_scan(c, i + 1, false);
            let (j, is_float) = num_scan(c, i + 1, false);
            let w = c.subrange(i, j);
            lemma_intern_facts(strs, w);
            lemma_lex_keeps(c, j, intern_spec(strs, w).0, sid);
            lemma_tokens_read(c, j, intern_spec(strs, w).0, sid);
            lemma_emitted(c, i, j, lex(c, i, strs, sid), lex(c, j, intern_spec(strs, w).0, sid));
        } else if letter(ch) || ch == '_' {
            lemma_ident_scan(c, i + 1);
            let j = ident_scan(c, i + 1);
            let w = c.subrange(i, j);
            if keyword(w) is Some {
                lemma_keyword_text(w, fin);
                lemma_tokens_read(c, j, strs, sid);
                lemma_emitted(c, i, j, lex(c, i, strs, sid), lex(c, j, strs, sid));
            } else {
                lemma_intern_facts(strs, w);
                lemma_lex_keeps(c, j, intern_spec(strs, w).0, sid);
                lemma_tokens_read(c, j, intern_spec(strs, w).0, sid);
                lemma_emitted(c, i, j, lex(c, i, strs, sid), lex(c, j, intern_spec(strs, w).0, sid));
            }
        } else if ch == '"' {
            lemma_quote_scan(c, i + 1);
            if let Some(k) = quote_scan(c, i + 1) {
                let w = c.subrange(i + 1, k);
                lemma_intern_facts(strs, w);
                lemma_lex_keeps(c, k + 1, intern_spec(strs, w).0, sid);
                lemma_tokens_read(c, k + 1, intern_spec(strs, w).0, sid);
                lemma_quoted_text(c, i, k, fin, intern_spec(strs, w).1);
                lemma_emitted(c, i, k + 1, lex(c, i, strs, sid), lex(c, k + 1, intern_spec(strs, w).0, sid));
            }
        }
    }
}

/// Where `whole` is the first token of `whole` over `i..j` followed by `rest`, and the tokens
/// of `rest` read as their text, so do those of `whole`, provided the first one does.
proof fn lemma_emitted(c: Seq<char>, i: int, j: int, whole: (Result<Seq<Token>, super::spec::LexError>, Seq<Seq<char>>),
    rest: (Result<Seq<Token>, super::spec::LexError>, Seq<Seq<char>>))
    requires
        0 <= i <= j <= c.len(),
        whole.1 == rest.1,
        rest.0 matches Ok(rt) ==> forall|k: int| 0 <= k < rt.len() ==> reads_as_source(#[trigger] rt[k], c, rest.1),
        whole.0 matches Ok(wt) ==> rest.0 is Ok && wt.len() == rest.0->Ok_0.len() + 1
            && wt[0].span.start == byte_offset(c, i) as usize && wt[0].span.end == byte_offset(c, j) as usize
            && wt[0].kind.spec_format(whole.1) == c.subrange(i, j)
            && forall|k: int| 1 <= k < wt.len() ==> wt[k] == rest.0->Ok_0[k - 1],
    ensures
        whole.0 matches Ok(wt) ==> forall|k: int| 0 <= k < wt.len() ==> reads_as_source(#[trigger] wt[k], c, whole.1),
{
    if whole.0 is Ok {
        let wt = whole.0->Ok_0;
        assert forall|k: int| 0 <= k < wt.len() implies reads_as_source(#[trigger] wt[k], c, whole.1) by {
            if k == 0 {
                assert(c.subrange(i, j) == c.subrange(i, j));
            } else {
                assert(wt[k] == rest.0->Ok_0[k - 1]);
            }
        }
    }
}

/// Printed back with the strings interned by the end of lexing, each token of a lexed source
/// is exactly the text it covers: literals, names, keywords, operators and punctuation alike,
/// a string literal with both its quotes.
pub proof fn law_tokens_read_as_source(c: Seq<char>, strs: Seq<Seq<char>>, sid: usize)
    requires
        lex(c, 0, strs, sid).1.len() <= u32::MAX,
    ensures
        lex(c, 0, strs, sid).0 matches Ok(ts) ==>
            forall|k: int| 0 <= k < ts.len() ==> reads_as_source(#[trigger] ts[k], c, lex(c, 0, strs, sid).1),
{
    lemma_tokens_read(c, 0, strs, sid);
}

/// The text of an operator lexes back to that one operator, as one token over the whole text.
pub proof fn law_operator_text_lexes_back(op: crate::common::Operator, strs: Seq<Seq<char>>, sid: usize)
    ensures
        lex(op.spec_text(), 0, strs, sid)
            == (Ok::<Seq<Token>, super::spec::LexError>(seq![super::spec::tok(op.spec_text(),
                TokenKind::Operator(op), 0, op.spec_text().len() as int, sid)]), strs),
{
    let c = op.spec_text();
    let n = c.len() as int;
    reveal_with_fuel(ident_scan, 4);
    assert(lex(c, n, strs, sid) == (Ok::<Seq<Token>, super::spec::LexError>(Seq::<Token>::empty()), strs));
    if n == 3 || op is KwOr {
        assert(ident_scan(c, 1) == n);
        assert(c.subrange(0, n) =~= c);
    }
    assert(seq![super::spec::tok(c, TokenKind::Operator(op), 0, n, sid)] + Seq::<Token>::empty()
        =~= seq![super::spec::tok(c, TokenKind::Operator(op), 0, n, sid)]);
}

/// The text of a reassignment operator lexes back to that one operator, as one token over the
/// whole text.
pub proof fn law_reassign_text_lexes_back(op: crate::common::ReassignmentOp, strs: Seq<Seq<char>>, sid: usize)
    ensures
        lex(op.spec_text(), 0, strs, sid)
            == (Ok::<Seq<Token>, super::spec::LexError>(seq![super::spec::tok(op.spec_text(),
                TokenKind::Reassign(op), 0, op.spec_text().len() as int, sid)]), strs),
{
    let c = op.spec_text();
    let n = c.len() as int;
    assert(lex(c, n, strs, sid) == (Ok::<Seq<Token>, super::spec::LexError>(Seq::<Token>::empty()), strs));
    assert(seq![super::spec::tok(c, TokenKind::Reassign(op), 0, n, sid)] + Seq::<Token>::empty()
        =~= seq![super::spec::tok(c, TokenKind::Reassign(op), 0, n, sid)]);
}

} // verus!
