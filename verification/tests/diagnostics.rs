use line_editor::buffer::LineStore;
use line_editor::diagnostics::{DiagnosticRecord, Diagnostics, DiagnosticsIndex};
use line_editor::error::EditError;
use line_editor::text_input::TextInput;

fn record(line: usize, start: usize, end: usize, message: &str) -> DiagnosticRecord {
    DiagnosticRecord { line, start_utf16: start, end_utf16: end, message: message.to_string() }
}

fn spans(list: &Vec<Diagnostics>) -> Vec<(usize, usize, bool, String)> {
    list.iter()
        .map(|d| (d.diagnostic_range.start, d.diagnostic_range.end, d.is_error, d.message.clone()))
        .collect()
}

#[test]
fn records_are_indexed_by_line_in_their_order() {
    let store = LineStore::from_lines(vec!["let x = 1;".to_string(), "x \u{1F600} y".to_string()]);
    let records = vec![
        record(1, 2, 4, "second"),
        record(0, 4, 5, "first"),
        record(1, 5, 6, "third"),
    ];
    let index = DiagnosticsIndex::build(&store, &records).unwrap();
    assert_eq!(spans(index.for_line(0).unwrap()), vec![(4, 5, false, "first".to_string())]);
    assert_eq!(
        spans(index.for_line(1).unwrap()),
        vec![(2, 6, false, "second".to_string()), (7, 8, false, "third".to_string())]
    );
    assert!(index.for_line(2).is_none());
}

#[test]
fn a_span_inside_a_character_is_rounded_down() {
    let store = LineStore::from_lines(vec!["\u{1F600}b".to_string()]);
    let index = DiagnosticsIndex::build(&store, &vec![record(0, 1, 3, "w")]).unwrap();
    assert_eq!(spans(index.for_line(0).unwrap()), vec![(0, 5, false, "w".to_string())]);
}

#[test]
fn a_record_of_a_missing_line_is_out_of_range() {
    let store = LineStore::from_lines(vec!["a".to_string()]);
    let records = vec![record(0, 0, 1, "ok"), record(1, 0, 0, "stale")];
    assert_eq!(DiagnosticsIndex::build(&store, &records).err(), Some(EditError::OutOfRange));
}

#[test]
fn an_empty_index_has_no_line() {
    let index = DiagnosticsIndex::new();
    assert!(index.for_line(0).is_none());
    let store = LineStore::new();
    let built = DiagnosticsIndex::build(&store, &Vec::new()).unwrap();
    assert!(built.for_line(0).is_none());
}

#[test]
fn a_new_report_replaces_the_old_one_whole() {
    let mut e = TextInput::new("f.rs".to_string(), vec!["aaa".to_string(), "bbb".to_string()]);
    assert!(e.diagnostics().for_line(0).is_none());
    e.set_diagnostics(&vec![record(0, 0, 1, "old")]).unwrap();
    assert_eq!(e.diagnostics().for_line(0).unwrap().len(), 1);
    e.set_diagnostics(&vec![record(1, 1, 2, "new")]).unwrap();
    assert!(e.diagnostics().for_line(0).is_none());
    assert_eq!(spans(e.diagnostics().for_line(1).unwrap()), vec![(1, 2, false, "new".to_string())]);
    assert_eq!(e.set_diagnostics(&vec![record(2, 0, 0, "stale")]), Err(EditError::OutOfRange));
    assert_eq!(e.diagnostics().for_line(1).unwrap().len(), 1);
}

#[test]
fn a_cloned_annotation_equals_its_source() {
    let d = Diagnostics { diagnostic_range: 1..4, is_error: true, message: "m".to_string() };
    let c = d.clone();
    assert_eq!(c.diagnostic_range, 1..4);
    assert!(c.is_error);
    assert_eq!(c.message, "m");
}
