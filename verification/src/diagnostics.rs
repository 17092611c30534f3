//! Annotations of lines that a language server supplies, and the index that
//! holds them by line.

use crate::boundary::{bytes_within, unit16_to_byte};
use crate::buffer::LineStore;
use crate::error::EditError;
use crate::state::Span;
use std::collections::HashMap;
use std::ops::Range;
use vstd::prelude::*;
use vstd::utf8::*;

verus! {

broadcast use {vstd::std_specs::hash::group_hash_axioms, encode_utf8_decode_utf8};

/// One annotation of a line: the byte span it marks, how grave it is, and
/// what it says.
#[derive(Debug)]
pub struct Diagnostics {
    pub diagnostic_range: Range<usize>,
    pub is_error: bool,
    pub message: String,
}

/// An annotation as a value: its byte span, its gravity, its message.
pub struct DiagnosticsView {
    pub range: Span,
    pub is_error: bool,
    pub message: Seq<char>,
}

impl View for Diagnostics {
    type V = DiagnosticsView;

    open spec fn view(&self) -> DiagnosticsView {
        DiagnosticsView {
            range: Span {
                start: self.diagnostic_range.start as int,
                end: self.diagnostic_range.end as int,
            },
            is_error: self.is_error,
            message: self.message@,
        }
    }
}

impl Clone for Diagnostics {
    fn clone(&self) -> (copy: Self)
        ensures
            copy == *self,
    {
        Diagnostics {
            diagnostic_range: self.diagnostic_range.start..self.diagnostic_range.end,
            is_error: self.is_error,
            message: self.message.clone(),
        }
    }
}

/// One annotation as a language server reports it: the line, the span in
/// UTF-16 code units of that line, and the message.
#[derive(Debug)]
pub struct DiagnosticRecord {
    pub line: usize,
    pub start_utf16: usize,
    pub end_utf16: usize,
    pub message: String,
}

/// The annotation that `record` makes on a line with the bytes `line`: its
/// span is that of the record, taken to byte offsets; it is no error.
pub open spec fn annotation_of(record: DiagnosticRecord, line: Seq<u8>) -> DiagnosticsView {
    DiagnosticsView {
        range: Span {
            start: bytes_within(decode_utf8(line), record.start_utf16 as int),
            end: bytes_within(decode_utf8(line), record.end_utf16 as int),
        },
        is_error: false,
        message: record.message@,
    }
}

/// The annotations that `records` make on line `line`, in the order of the
/// records.
pub open spec fn annotations_of_line(
    records: Seq<DiagnosticRecord>,
    lines: Seq<Seq<u8>>,
    line: int,
) -> Seq<DiagnosticsView>
    decreases records.len(),
{
    if records.len() == 0 {
        Seq::empty()
    } else {
        let before = annotations_of_line(records.drop_last(), lines, line);
        if records.last().line == line {
            before.push(annotation_of(records.last(), lines[line]))
        } else {
            before
        }
    }
}

/// Whether one of `records` is about line `line`.
pub open spec fn annotates(records: Seq<DiagnosticRecord>, line: int) -> bool {
    exists|i: int| 0 <= i < records.len() && (#[trigger] records[i]).line == line
}

/// Whether each of `records` is about a line of `lines`.
pub open spec fn all_in_buffer(records: Seq<DiagnosticRecord>, lines: Seq<Seq<u8>>) -> bool {
    forall|i: int| 0 <= i < records.len() ==> (#[trigger] records[i]).line < lines.len()
}

/// The index of `records` over `lines`: each line that a record is about,
/// with the annotations of that line.
pub open spec fn index_of(records: Seq<DiagnosticRecord>, lines: Seq<Seq<u8>>) -> Map<
    usize,
    Seq<DiagnosticsView>,
> {
    Map::new(
        |line: usize| annotates(records, line as int),
        |line: usize| annotations_of_line(records, lines, line as int),
    )
}

/// The annotations of a buffer, by line. It is built whole from the records
/// of one report and never changed.
pub struct DiagnosticsIndex {
    by_line: HashMap<usize, Vec<Diagnostics>>,
}

impl View for DiagnosticsIndex {
    type V = Map<usize, Seq<DiagnosticsView>>;

    closed spec fn view(&self) -> Map<usize, Seq<DiagnosticsView>> {
        listed(self.by_line@)
    }
}

/// The annotations that `by_line` holds, as values.
pub open spec fn listed(by_line: Map<usize, Vec<Diagnostics>>) -> Map<usize, Seq<DiagnosticsView>> {
    Map::new(
        |line: usize| by_line.contains_key(line),
        |line: usize| by_line[line]@.map_values(|d: Diagnostics| d@),
    )
}

impl DiagnosticsIndex {
    /// The index without any annotation.
    pub fn new() -> (index: Self)
        ensures
            index@ == Map::<usize, Seq<DiagnosticsView>>::empty(),
    {
        let index = DiagnosticsIndex { by_line: HashMap::new() };
        assert(index@ =~= Map::<usize, Seq<DiagnosticsView>>::empty());
        index
    }

    /// The index of `records` over the lines of `lines`: every record is
    /// kept, under its line, with its span in bytes. Refused where a record
    /// is about a line that the buffer does not have.
    pub fn build(lines: &LineStore, records: &Vec<DiagnosticRecord>) -> (r: Result<Self, EditError>)
        ensures
            r is Ok <==> all_in_buffer(records@, lines@),
            r is Ok ==> r->Ok_0@ == index_of(records@, lines@),
            r is Err ==> r->Err_0 == EditError::OutOfRange,
    {
        let count = lines.line_count();
        let mut by_line: HashMap<usize, Vec<Diagnostics>> = HashMap::new();
        let mut i: usize = 0;
        proof {
            assert(records@.take(0) =~= Seq::<DiagnosticRecord>::empty());
            assert(listed(by_line@) =~= index_of(records@.take(0), lines@));
        }
        while i < records.len()
            invariant
                i <= records.len(),
                count == lines@.len(),
                all_in_buffer(records@.take(i as int), lines@),
                listed(by_line@) == index_of(records@.take(i as int), lines@),
            decreases records.len() - i,
        {
            let record = &records[i];
            let ghost before = records@.take(i as int);
            let ghost after = records@.take(i + 1);
            let ghost old_map = by_line@;
            proof {
                assert(after.drop_last() =~= before);
                assert(after.last() == records@[i as int]);
            }
            if record.line >= count {
                proof {
                    assert(records@[i as int].line >= lines@.len());
                }
                return Err(EditError::OutOfRange);
            }
            let text = lines.line(record.line);
            let annotation = Diagnostics {
                diagnostic_range: unit16_to_byte(text, record.start_utf16)..unit16_to_byte(
                    text,
                    record.end_utf16,
                ),
                is_error: false,
                message: record.message.clone(),
            };
            let mut list = match by_line.remove(&record.line) {
                Some(list) => list,
                None => Vec::new(),
            };
            let ghost list_taken = list;
            let ghost old_list = list@;
            list.push(annotation);
            by_line.insert(record.line, list);
            proof {
                let line = record.line;
                assert(annotation@ == annotation_of(*record, lines@[line as int]));
                assert(list@.map_values(|d: Diagnostics| d@) =~= old_list.map_values(
                    |d: Diagnostics| d@,
                ).push(annotation@));
                let old_views = old_list.map_values(|d: Diagnostics| d@);
                assert(listed(old_map).contains_key(line) == index_of(
                    before,
                    lines@,
                ).contains_key(line));
                if old_map.contains_key(line) {
                    assert(old_map[line] == list_taken);
                    assert(listed(old_map)[line] == old_views);
                    assert(index_of(before, lines@)[line] == annotations_of_line(
                        before,
                        lines@,
                        line as int,
                    ));
                } else {
                    assert(!annotates(before, line as int));
                    lemma_no_annotation(before, lines@, line as int);
                    assert(old_list.map_values(|d: Diagnostics| d@) =~= Seq::<
                        DiagnosticsView,
                    >::empty());
                }
                assert forall|l: usize| annotates(after, l as int) <==> (annotates(before, l as int)
                    || l == line) by {
                    if annotates(before, l as int) {
                        let j = choose|j: int| 0 <= j < before.len() && (#[trigger] before[j]).line == l;
                        assert(after[j].line == l);
                    }
                    if l == line {
                        assert(after[i as int].line == l);
                    }
                    if annotates(after, l as int) {
                        let j = choose|j: int| 0 <= j < after.len() && (#[trigger] after[j]).line == l;
                        if j < i {
                            assert(before[j].line == l);
                        }
                    }
                }
                assert(annotations_of_line(before, lines@, line as int) == old_views);
                assert(by_line@ == old_map.remove(line).insert(line, list));
                assert forall|l: usize| #[trigger]
                    listed(by_line@).contains_key(l) implies listed(by_line@)[l] == index_of(
                    after,
                    lines@,
                )[l] by {
                    if l != line {
                        assert(by_line@[l] == old_map[l]);
                        assert(listed(old_map).contains_key(l));
                        assert(listed(old_map)[l] == index_of(before, lines@)[l]);
                    }
                }
                assert forall|l: usize|
                    listed(by_line@).contains_key(l) == index_of(after, lines@).contains_key(
                        l,
                    ) by {
                    assert(listed(old_map).contains_key(l) == index_of(
                        before,
                        lines@,
                    ).contains_key(l));
                }
                assert(listed(by_line@) =~= index_of(after, lines@));
                assert forall|j: int| 0 <= j < after.len() implies (#[trigger] after[j]).line
                    < lines@.len() by {
                    if j < i {
                        assert(before[j].line < lines@.len());
                    }
                }
            }
            i = i + 1;
        }
        proof {
            assert(records@.take(records@.len() as int) =~= records@);
        }
        Ok(DiagnosticsIndex { by_line })
    }

    /// The annotations of line `line`, if it has any.
    pub fn for_line(&self, line: usize) -> (list: Option<&Vec<Diagnostics>>)
        ensures
            match list {
                Some(list) => self@.contains_key(line) && self@[line] == list@.map_values(
                    |d: Diagnostics| d@,
                ),
                None => !self@.contains_key(line),
            },
    {
        self.by_line.get(&line)
    }
}

/// A line that no record is about has no annotation.
pub proof fn lemma_no_annotation(records: Seq<DiagnosticRecord>, lines: Seq<Seq<u8>>, line: int)
    requires
        !annotates(records, line),
    ensures
        annotations_of_line(records, lines, line) == Seq::<DiagnosticsView>::empty(),
    decreases records.len(),
{
    if records.len() > 0 {
        let front = records.drop_last();
        assert(records[records.len() - 1].line != line);
        assert(!annotates(front, line)) by {
            if annotates(front, line) {
                let j = choose|j: int| 0 <= j < front.len() && (#[trigger] front[j]).line == line;
                assert(records[j].line == line);
            }
        }
        lemma_no_annotation(front, lines, line);
    }
}

} // verus!
