//! Commonly used error diagnostics.
//!
//! Their notes start with the word "note" as `colored` renders it (bright cyan, bold,
//! underlined), which depends on whether the environment allows colours. The functions ending
//! in `_with` take that rendering as an argument and build the diagnostic from it.

use vstd::prelude::*;
use colored::Colorize;
use crate::common::{Diag, Label, Span};
use crate::common::diag::{DiagV, LabelV};
use crate::common::text::string_of;

verus! {

/// `colored`'s rendering of the word "note" in bright cyan, bold and underlined
/// (`Colorize::bright_cyan`, `bold`, `underline`, then `Display`). Where colouring is off
/// (no terminal, `NO_COLOR`, the `no-color` feature) it is the plain word; otherwise the
/// word stands between an ANSI style sequence and the reset sequence `ESC[0m`. Which of the
/// two comes out depends on the environment, so nothing more is stated.
#[verifier::external_body]
pub(crate) fn note_tag() -> (r: String)
    ensures
        is_note_tag(r@),
{
    format!("{}", "note".bright_cyan().bold().underline())
}

/// What a rendering of the word "note" can be.
pub open spec fn is_note_tag(t: Seq<char>) -> bool {
    t == "note"@ || exists|style: Seq<char>| t == style + "note"@ + "\u{1b}[0m"@
}

/// A note line: the tag, a colon and the text.
pub open spec fn note_line(tag: Seq<char>, text: Seq<char>) -> Seq<char> {
    tag + ": "@ + text
}

pub open spec fn mismatch_diag(span: Span, label: Seq<char>, notes: Seq<Seq<char>>) -> DiagV {
    DiagV {
        message: "Type mismatch"@,
        labels: seq![LabelV { source_id: span.source_id, start: span.start, end: span.end, message: label }],
        notes,
    }
}

pub open spec fn unknown_ident_diag(span: Span, ident: Seq<char>, notes: Seq<Seq<char>>) -> DiagV {
    DiagV {
        message: "Unknown identifier"@,
        labels: seq![LabelV {
            source_id: span.source_id,
            start: span.start,
            end: span.end,
            message: "`"@ + ident + "` not in scope"@,
        }],
        notes,
    }
}

/// The note lines for `notes`, each behind `tag`.
pub open spec fn note_lines(tag: Seq<char>, notes: Seq<&str>) -> Seq<Seq<char>> {
    notes.map_values(|s: &str| note_line(tag, s@))
}

fn diag_with(message: &str, span: &Span, label: &str, notes: Vec<String>) -> (d: Diag)
    ensures
        d@ == (DiagV {
            message: message@,
            labels: seq![LabelV { source_id: span.source_id, start: span.start, end: span.end, message: label@ }],
            notes: notes@.map_values(|n: String| n@),
        }),
{
    let l = Label::primary(span.source_id, span.start, span.end).with_message(label);
    let mut labels = Vec::new();
    labels.push(l);
    let d = Diag::error().with_message(message).with_labels(labels).with_notes(notes);
    assert(d@.labels =~= seq![LabelV { source_id: span.source_id, start: span.start, end: span.end, message: label@ }]);
    d
}

fn tagged_notes(tag: &str, notes: &[&str]) -> (r: Vec<String>)
    ensures
        r@.map_values(|n: String| n@) == note_lines(tag@, notes@),
{
    let mut r: Vec<String> = Vec::new();
    let mut i: usize = 0;
    while i < notes.len()
        invariant
            i <= notes@.len(),
            r@.len() == i,
            r@.map_values(|n: String| n@) == note_lines(tag@, notes@.subrange(0, i as int)),
        decreases notes.len() - i,
    {
        let mut line = string_of(tag);
        line.append(": ");
        line.append(notes[i]);
        let ghost before = r@;
        let ghost lv = line@;
        assert(lv == note_line(tag@, notes@[i as int]@));
        r.push(line);
        proof {
            let prev = note_lines(tag@, notes@.subrange(0, i as int));
            let next = note_lines(tag@, notes@.subrange(0, i + 1));
            assert forall|j: int| 0 <= j < i + 1 implies r@.map_values(|n: String| n@)[j] == next[j] by {
                if j < i {
                    assert(r@[j] == before[j]);
                    assert(before.map_values(|n: String| n@)[j] == prev[j]);
                } else {
                    assert(r@[j]@ == lv);
                }
            }
            assert(r@.map_values(|n: String| n@) =~= next);
        }
        i += 1;
    }
    assert(notes@.subrange(0, notes@.len() as int) =~= notes@);
    r
}

/// [`non_bool_if_condition`] with its note tag given.
pub fn non_bool_if_condition_with(tag: &str, span: Span) -> (d: Diag)
    ensures
        d@ == mismatch_diag(span, "expected `bool`"@, seq![note_line(tag@, "`if` conditions must be of type `bool`"@)]),
{
    let mut note = string_of(tag);
    note.append(": ");
    note.append("`if` conditions must be of type `bool`");
    let mut notes = Vec::new();
    notes.push(note);
    let d = diag_with("Type mismatch", &span, "expected `bool`", notes);
    assert(d@.notes =~= seq![note_line(tag@, "`if` conditions must be of type `bool`"@)]);
    d
}

/// The diagnostic for an `if` condition whose type is not `bool`.
pub fn non_bool_if_condition(span: Span) -> (d: Diag)
    ensures
        exists|tag: Seq<char>| is_note_tag(tag)
            && d@ == mismatch_diag(span, "expected `bool`"@, seq![note_line(tag, "`if` conditions must be of type `bool`"@)]),
{
    let tag = note_tag();
    non_bool_if_condition_with(tag.as_str(), span)
}

pub open spec fn mismatch_label(expected: Seq<char>, found: Seq<char>) -> Seq<char> {
    "expected `"@ + expected + "`, found `"@ + found + "`"@
}

/// [`type_mismatch`] with its note tag given.
pub fn type_mismatch_with(tag: &str, span: &Span, expected: &str, found: &str, notes: &[&str]) -> (d: Diag)
    ensures
        d@ == mismatch_diag(*span, mismatch_label(expected@, found@), note_lines(tag@, notes@)),
{
    let mut label = string_of("expected `");
    label.append(expected);
    label.append("`, found `");
    label.append(found);
    label.append("`");
    let lines = tagged_notes(tag, notes);
    diag_with("Type mismatch", span, label.as_str(), lines)
}

/// The diagnostic for a value of type `found` where `expected` is required, with `notes`.
pub fn type_mismatch(span: &Span, expected: &str, found: &str, notes: &[&str]) -> (d: Diag)
    ensures
        exists|tag: Seq<char>| is_note_tag(tag)
            && d@ == mismatch_diag(*span, mismatch_label(expected@, found@), note_lines(tag, notes@)),
{
    let tag = note_tag();
    type_mismatch_with(tag.as_str(), span, expected, found, notes)
}

/// [`unknown_ident`] with its note tag given.
pub fn unknown_ident_with(tag: &str, span: &Span, ident: &str, notes: &[&str]) -> (d: Diag)
    ensures
        d@ == unknown_ident_diag(*span, ident@, note_lines(tag@, notes@)),
{
    let mut label = string_of("`");
    label.append(ident);
    label.append("` not in scope");
    let lines = tagged_notes(tag, notes);
    diag_with("Unknown identifier", span, label.as_str(), lines)
}

/// The diagnostic for a name that is not in scope, with `notes`.
pub fn unknown_ident(span: &Span, ident: &str, notes: &[&str]) -> (d: Diag)
    ensures
        exists|tag: Seq<char>| is_note_tag(tag) && d@ == unknown_ident_diag(*span, ident@, note_lines(tag, notes@)),
{
    let tag = note_tag();
    unknown_ident_with(tag.as_str(), span, ident, notes)
}

} // verus!
