use miel::common::{Diag, Label, Span};
use miel::sema::errors::{non_bool_if_condition, type_mismatch, type_mismatch_with, unknown_ident, unknown_ident_with};

fn span() -> Span {
    Span { start: 3, end: 9, source_id: 1 }
}

#[test]
fn type_mismatch_with_tag() {
    let d = type_mismatch_with("note", &span(), "bool", "int", &["first", "second"]);
    assert_eq!(d.message, "Type mismatch");
    assert_eq!(d.labels.len(), 1);
    assert_eq!((d.labels[0].source_id, d.labels[0].start, d.labels[0].end), (1, 3, 9));
    assert_eq!(d.labels[0].message, "expected `bool`, found `int`");
    assert_eq!(d.notes, vec!["note: first".to_string(), "note: second".to_string()]);
}

#[test]
fn type_mismatch_renders_note() {
    let d = type_mismatch(&span(), "u8", "nil", &["n"]);
    assert_eq!(d.labels[0].message, "expected `u8`, found `nil`");
    assert!(d.notes[0].contains("note") && d.notes[0].ends_with(": n"));
}

#[test]
fn unknown_ident_diagnostic() {
    let d = unknown_ident_with("N", &span(), "foo", &[]);
    assert_eq!(d.message, "Unknown identifier");
    assert_eq!(d.labels[0].message, "`foo` not in scope");
    assert!(d.notes.is_empty());
    let d = unknown_ident(&span(), "bar", &["did you mean `baz`?"]);
    assert!(d.notes[0].ends_with(": did you mean `baz`?"));
}

#[test]
fn non_bool_if_condition_diagnostic() {
    let d = non_bool_if_condition(span());
    assert_eq!(d.message, "Type mismatch");
    assert_eq!(d.labels[0].message, "expected `bool`");
    assert_eq!(d.notes.len(), 1);
    assert!(d.notes[0].ends_with(": `if` conditions must be of type `bool`"));
}

#[test]
fn diag_builders() {
    let d = Diag::error()
        .with_message("m")
        .with_labels(vec![Label::primary(0, 1, 2).with_message("l")])
        .with_notes(vec!["n".to_string()]);
    assert_eq!(d.message, "m");
    assert_eq!(d.labels[0].message, "l");
    assert_eq!(d.notes, vec!["n".to_string()]);
    let s = Span { start: 1, end: 2, source_id: 0 }.concat(&Span { start: 5, end: 8, source_id: 0 });
    assert_eq!((s.start, s.end), (1, 8));
    let e = Span { start: 1, end: 2, source_id: 4 }.splat_to_end();
    assert_eq!((e.start, e.end, e.source_id), (2, 2, 4));
    assert_eq!(Span::empty(3), Span { start: 0, end: 0, source_id: 3 });
}
