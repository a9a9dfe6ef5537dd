//! Error diagnostics: a message, labelled source ranges and notes.

use vstd::prelude::*;
use super::text::string_of;

verus! {

/// A labelled byte range `start..end` of a source.
#[derive(Debug)]
pub struct Label {
    pub source_id: usize,
    pub start: usize,
    pub end: usize,
    pub message: String,
}

/// The mathematical value of a [`Label`].
pub struct LabelV {
    pub source_id: usize,
    pub start: usize,
    pub end: usize,
    pub message: Seq<char>,
}

impl View for Label {
    type V = LabelV;

    open spec fn view(&self) -> LabelV {
        LabelV { source_id: self.source_id, start: self.start, end: self.end, message: self.message@ }
    }
}

impl Label {
    /// A primary label over `start..end` with an empty message.
    pub fn primary(source_id: usize, start: usize, end: usize) -> (r: Label)
        ensures
            r@ == (LabelV { source_id, start, end, message: Seq::empty() }),
    {
        Label { source_id, start, end, message: String::new() }
    }

    /// The same label carrying `message`.
    pub fn with_message(self, message: &str) -> (r: Label)
        ensures
            r@ == (LabelV { message: message@, ..self@ }),
    {
        Label { source_id: self.source_id, start: self.start, end: self.end, message: string_of(message) }
    }
}

/// An error diagnostic.
#[derive(Debug)]
pub struct Diag {
    pub message: String,
    pub labels: Vec<Label>,
    pub notes: Vec<String>,
}

/// The mathematical value of a [`Diag`].
pub struct DiagV {
    pub message: Seq<char>,
    pub labels: Seq<LabelV>,
    pub notes: Seq<Seq<char>>,
}

impl View for Diag {
    type V = DiagV;

    open spec fn view(&self) -> DiagV {
        DiagV {
            message: self.message@,
            labels: self.labels@.map_values(|l: Label| l@),
            notes: self.notes@.map_values(|n: String| n@),
        }
    }
}

/// The diagnostic with a message and one primary label, as `Diag::single` composes it.
pub open spec fn diag1(message: Seq<char>, source_id: usize, start: usize, end: usize, label: Seq<char>) -> DiagV {
    DiagV {
        message,
        labels: seq![LabelV { source_id, start, end, message: label }],
        notes: Seq::empty(),
    }
}

impl Diag {
    /// An error diagnostic with no message, labels or notes.
    pub fn error() -> (r: Diag)
        ensures
            r@ == (DiagV { message: Seq::empty(), labels: Seq::empty(), notes: Seq::empty() }),
    {
        let r = Diag { message: String::new(), labels: Vec::new(), notes: Vec::new() };
        assert(r@.labels =~= Seq::empty());
        assert(r@.notes =~= Seq::empty());
        r
    }

    /// The same diagnostic carrying `message`.
    pub fn with_message(self, message: &str) -> (r: Diag)
        ensures
            r@ == (DiagV { message: message@, ..self@ }),
    {
        Diag { message: string_of(message), labels: self.labels, notes: self.notes }
    }

    /// The same diagnostic carrying `labels`.
    pub fn with_labels(self, labels: Vec<Label>) -> (r: Diag)
        ensures
            r@ == (DiagV { labels: labels@.map_values(|l: Label| l@), ..self@ }),
    {
        Diag { message: self.message, labels, notes: self.notes }
    }

    /// The same diagnostic carrying `notes`.
    pub fn with_notes(self, notes: Vec<String>) -> (r: Diag)
        ensures
            r@ == (DiagV { notes: notes@.map_values(|n: String| n@), ..self@ }),
    {
        Diag { message: self.message, labels: self.labels, notes }
    }

    /// A diagnostic with `message` and one primary label over `start..end` carrying `label`.
    pub fn single(message: &str, source_id: usize, start: usize, end: usize, label: &str) -> (r: Diag)
        ensures
            r@ == diag1(message@, source_id, start, end, label@),
    {
        let l = Label::primary(source_id, start, end).with_message(label);
        let mut labels = Vec::new();
        labels.push(l);
        let r = Diag::error().with_message(message).with_labels(labels);
        assert(r@.labels =~= seq![LabelV { source_id, start, end, message: label@ }]);
        r
    }
}

} // verus!
