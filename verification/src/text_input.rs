//! The editor: a line store with a caret and a selection, and the commands
//! that move the caret, extend the selection and change the text.

use crate::boundary::{
    byte_to_unit16, next_grapheme_boundary, previous_grapheme_boundary, unit16_to_byte,
};
use crate::buffer::{bytes_of_lines, LineStore};
use crate::diagnostics::{DiagnosticRecord, DiagnosticsIndex};
use crate::error::EditError;
use crate::files::{join_lines, joined_lines};
use crate::laws::{
    lemma_backspace_at_origin, lemma_backspace_wf, lemma_cut_out_wf, lemma_delete_at_line_end,
    lemma_enter_wf, lemma_initial_wf, lemma_move_to_wf, lemma_moved_to_line_wf,
    lemma_replace_text_wf, lemma_reset_wf, lemma_select_to_wf, lemma_selected_to_line_wf,
};
use crate::state::{follows, EditorState, MouseHit, Span};
use crate::text::{byte_len, flatten, joined, splice, text_after, text_before, text_between};
use std::ops::Range;
use vstd::prelude::*;
use vstd::string::*;
use vstd::utf8::*;

verus! {

/// The range `start..end` of `r`, as a range of integers.
pub open spec fn span_of(r: Range<usize>) -> Span {
    Span { start: r.start as int, end: r.end as int }
}

/// The range that `r` holds, if any, as a range of integers.
pub open spec fn opt_span_of(r: Option<Range<usize>>) -> Option<Span> {
    match r {
        Some(r) => Some(span_of(r)),
        None => None,
    }
}

/// One editor. Its fields are its own: every value is made by `new` and
/// changed by the commands below, each of which keeps `wf`.
pub struct TextInput {
    content: LineStore,
    focused_line: usize,
    cursor_pos: usize,
    open_file: String,
    placeholder: String,
    selected_start: usize,
    selected_end: usize,
    selection_reversed: bool,
    lines_start: usize,
    lines_end: usize,
    selected_lines_reversed: bool,
    marked_range: Option<(usize, usize)>,
    is_selecting: bool,
    diagnostics: DiagnosticsIndex,
}

impl View for TextInput {
    type V = EditorState;

    closed spec fn view(&self) -> EditorState {
        EditorState {
            lines: self.content@,
            focused_line: self.focused_line as int,
            ideal_column: self.cursor_pos as int,
            intra_line_range: Span {
                start: self.selected_start as int,
                end: self.selected_end as int,
            },
            intra_line_reversed: self.selection_reversed,
            line_range: Span { start: self.lines_start as int, end: self.lines_end as int },
            line_range_reversed: self.selected_lines_reversed,
            is_extending: self.is_selecting,
            marked_range: match self.marked_range {
                Some(m) => Some(Span { start: m.0 as int, end: m.1 as int }),
                None => None,
            },
            open_file: self.open_file@,
            placeholder: self.placeholder@,
            diagnostics: self.diagnostics@,
        }
    }
}

impl TextInput {
    /// Holds of every editor between two commands.
    pub open spec fn wf(&self) -> bool {
        self@.wf()
    }

    /// An editor on the lines of the file `open_file`, the caret at the start
    /// of the first line. Where no line is given, the buffer is one empty
    /// line.
    pub fn new(open_file: String, lines: Vec<String>) -> (editor: Self)
        ensures
            editor.wf(),
            editor@ == EditorState::initial(
                open_file@,
                if lines@.len() == 0 {
                    seq![Seq::<u8>::empty()]
                } else {
                    bytes_of_lines(lines@)
                },
            ),
    {
        let content = LineStore::from_lines(lines);
        let editor = TextInput {
            content,
            focused_line: 0,
            cursor_pos: 0,
            open_file,
            placeholder: String::new(),
            selected_start: 0,
            selected_end: 0,
            selection_reversed: false,
            lines_start: 0,
            lines_end: 0,
            selected_lines_reversed: false,
            marked_range: None,
            is_selecting: false,
            diagnostics: DiagnosticsIndex::new(),
        };
        proof {
            lemma_initial_wf(editor@.open_file, editor@.lines);
        }
        editor
    }

    /// The number of lines of the buffer.
    pub fn line_count(&self) -> (n: usize)
        ensures
            n == self@.lines.len(),
    {
        self.content.line_count()
    }

    /// The lines of the buffer.
    pub fn content(&self) -> (lines: &Vec<String>)
        ensures
            bytes_of_lines(lines@) == self@.lines,
    {
        self.content.lines()
    }

    /// The line that holds the caret.
    pub fn focused_line(&self) -> (line: usize)
        ensures
            line == self@.focused_line,
    {
        self.focused_line
    }

    /// The ideal column: the byte column that moves up and down aim for.
    pub fn cursor_pos(&self) -> (column: usize)
        ensures
            column == self@.ideal_column,
    {
        self.cursor_pos
    }

    /// The bytes selected within the line.
    pub fn selected_range(&self) -> (range: Range<usize>)
        ensures
            span_of(range) == self@.intra_line_range,
    {
        self.selected_start..self.selected_end
    }

    /// Whether the caret is at the start of the selected range.
    pub fn selection_reversed(&self) -> (reversed: bool)
        ensures
            reversed == self@.intra_line_reversed,
    {
        self.selection_reversed
    }

    /// The lines that the selection over lines touches, as it is kept.
    pub fn selected_lines(&self) -> (range: Range<usize>)
        ensures
            span_of(range) == self@.line_range,
    {
        self.lines_start..self.lines_end
    }

    /// Whether the selection over lines was begun below the focused line.
    pub fn selected_lines_reversed(&self) -> (reversed: bool)
        ensures
            reversed == self@.line_range_reversed,
    {
        self.selected_lines_reversed
    }

    /// Whether a gesture that extends the selection is in progress.
    pub fn is_selecting(&self) -> (extending: bool)
        ensures
            extending == self@.is_extending,
    {
        self.is_selecting
    }

    /// The range that an input method is composing, in bytes.
    pub fn marked_range(&self) -> (range: Option<Range<usize>>)
        ensures
            match range {
                Some(r) => self@.marked_range == Some(span_of(r)),
                None => self@.marked_range is None,
            },
    {
        match self.marked_range {
            Some(m) => Some(m.0..m.1),
            None => None,
        }
    }

    /// The path of the file that is being edited.
    pub fn open_file(&self) -> (path: &str)
        ensures
            path@ == self@.open_file,
    {
        self.open_file.as_str()
    }

    /// The text shown in place of an empty line.
    pub fn placeholder(&self) -> (text: &str)
        ensures
            text@ == self@.placeholder,
    {
        self.placeholder.as_str()
    }

    /// Sets the text shown in place of an empty line.
    pub fn set_placeholder(&mut self, text: String)
        ensures
            old(self).wf() ==> final(self).wf(),
            final(self)@ == (EditorState { placeholder: text@, ..old(self)@ }),
    {
        self.placeholder = text;
    }

    /// The annotations of the last report that was taken in.
    pub fn diagnostics(&self) -> (index: &DiagnosticsIndex)
        ensures
            index@ == self@.diagnostics,
    {
        &self.diagnostics
    }

    /// Takes in a report of a language server: the annotations that were
    /// held give way, all of them, to those of `records`, each with its span
    /// taken from UTF-16 code units to bytes of its line. Refused where a
    /// record is about a line that the buffer does not have.
    pub fn set_diagnostics(&mut self, records: &Vec<DiagnosticRecord>) -> (r: Result<(), EditError>)
        ensures
            old(self).wf() ==> final(self).wf(),
            follows(r, old(self)@, final(self)@, old(self)@.set_diagnostics(records@)),
    {
        match DiagnosticsIndex::build(&self.content, records) {
            Ok(index) => {
                self.diagnostics = index;
                Ok(())
            },
            Err(e) => Err(e),
        }
    }

    /// The byte offset of the caret in the focused line.
    pub fn cursor_offset(&self) -> (offset: usize)
        ensures
            offset == self@.caret(),
    {
        if self.selection_reversed {
            self.selected_start
        } else {
            self.selected_end
        }
    }

    /// The length in bytes of line `line`.
    fn line_len(&self, line: usize) -> (n: usize)
        requires
            line < self@.lines.len(),
        ensures
            n == self@.lines[line as int].len(),
    {
        byte_len(self.content.line(line))
    }

    /// Nothing selected, the caret at `offset`.
    fn collapse(&mut self, offset: usize)
        ensures
            final(self)@ == old(self)@.collapsed(offset as int),
    {
        self.selected_start = offset;
        self.selected_end = offset;
        self.selection_reversed = false;
        self.lines_start = 0;
        self.lines_end = 0;
        self.selected_lines_reversed = false;
        self.is_selecting = false;
    }

    /// The moving end of the selection within the line put at `offset`.
    fn put_caret(&mut self, offset: usize)
        ensures
            final(self)@ == old(self)@.with_caret(offset as int),
    {
        let anchor = if self.selection_reversed {
            self.selected_end
        } else {
            self.selected_start
        };
        if offset < anchor {
            self.selected_start = offset;
            self.selected_end = anchor;
            self.selection_reversed = true;
        } else if anchor < offset {
            self.selected_start = anchor;
            self.selected_end = offset;
            self.selection_reversed = false;
        } else {
            self.selected_start = offset;
            self.selected_end = offset;
        }
    }

    /// The caret put at `offset`, whatever the line holds there.
    fn jump_to(&mut self, offset: usize)
        requires
            old(self).wf(),
        ensures
            final(self).wf(),
            final(self)@ == old(self)@.move_to(offset as int),
    {
        proof {
            lemma_move_to_wf(self@, offset as int);
        }
        self.collapse(offset);
        self.cursor_pos = offset;
        self.marked_range = None;
    }

    /// The selection extended to `offset`, whatever the line holds there.
    fn stretch_to(&mut self, offset: usize)
        requires
            old(self).wf(),
        ensures
            final(self).wf(),
            final(self)@ == old(self)@.select_to(offset as int),
    {
        proof {
            lemma_select_to_wf(self@, offset as int);
        }
        self.put_caret(offset);
        self.cursor_pos = offset;
        self.is_selecting = true;
        self.marked_range = None;
    }

    /// Puts the caret at the byte offset `offset` of the focused line and
    /// drops the selection. Refused where the line is shorter than `offset`.
    pub fn move_to(&mut self, offset: usize) -> (r: Result<(), EditError>)
        requires
            old(self).wf(),
        ensures
            final(self).wf(),
            r is Ok <==> offset <= old(self)@.line().len(),
            r is Ok ==> final(self)@ == old(self)@.move_to(offset as int),
            r is Err ==> r->Err_0 == EditError::OutOfRange && final(self)@ == old(self)@,
    {
        if offset > self.line_len(self.focused_line) {
            return Err(EditError::OutOfRange);
        }
        self.jump_to(offset);
        Ok(())
    }

    /// Extends the selection within the line to the byte offset `offset`,
    /// which becomes the caret. Refused where the line is shorter than
    /// `offset`.
    pub fn select_to(&mut self, offset: usize) -> (r: Result<(), EditError>)
        requires
            old(self).wf(),
        ensures
            final(self).wf(),
            r is Ok <==> offset <= old(self)@.line().len(),
            r is Ok ==> final(self)@ == old(self)@.select_to(offset as int),
            r is Err ==> r->Err_0 == EditError::OutOfRange && final(self)@ == old(self)@,
    {
        if offset > self.line_len(self.focused_line) {
            return Err(EditError::OutOfRange);
        }
        self.stretch_to(offset);
        Ok(())
    }

    /// The line above the focused one, or the first line itself.
    fn line_above(&self) -> (line: usize)
        requires
            self.wf(),
        ensures
            line == self@.line_above(),
    {
        if self.focused_line > 0 {
            self.focused_line - 1
        } else {
            0
        }
    }

    /// The line below the focused one, or the last line itself.
    fn line_below(&self) -> (line: usize)
        requires
            self.wf(),
        ensures
            line == self@.line_below(),
    {
        let count = self.content.line_count();
        if self.focused_line + 1 < count {
            self.focused_line + 1
        } else {
            self.focused_line
        }
    }

    /// The column at which a move up or down arrives in line `line`.
    fn column_in(&self, line: usize) -> (column: usize)
        requires
            line < self@.lines.len(),
        ensures
            column == self@.column_in(line as int),
    {
        let len = self.line_len(line);
        if self.cursor_pos < len {
            self.cursor_pos
        } else {
            len
        }
    }

    /// The focus moved to line `line`, nothing selected.
    fn move_to_line(&mut self, line: usize)
        requires
            old(self).wf(),
            line < old(self)@.lines.len(),
        ensures
            final(self).wf(),
            final(self)@ == old(self)@.moved_to_line(line as int),
    {
        proof {
            lemma_moved_to_line_wf(self@, line as int);
        }
        let column = self.column_in(line);
        self.collapse(column);
        self.focused_line = line;
        self.marked_range = None;
    }

    /// The selection extended to line `line`.
    fn select_to_line(&mut self, line: usize)
        requires
            old(self).wf(),
            line < old(self)@.lines.len(),
        ensures
            final(self).wf(),
            final(self)@ == old(self)@.selected_to_line(line as int),
    {
        proof {
            lemma_selected_to_line_wf(self@, line as int);
        }
        // Reading the count bounds `line + 1` by a machine word.
        let _count = self.content.line_count();
        let column = self.column_in(line);
        let begun = if self.is_selecting && (self.lines_start != 0 || self.lines_end != 0) {
            self.lines_start
        } else {
            self.focused_line
        };
        self.put_caret(column);
        self.focused_line = line;
        self.lines_start = begun;
        self.lines_end = line + 1;
        self.selected_lines_reversed = begun >= line + 1;
        self.is_selecting = true;
        self.marked_range = None;
    }

    /// Up: the focus moves one line up, where there is one; the caret goes
    /// to the ideal column or to the end of a shorter line; nothing stays
    /// selected.
    pub fn up(&mut self)
        requires
            old(self).wf(),
        ensures
            final(self).wf(),
            final(self)@ == old(self)@.up(),
    {
        let line = self.line_above();
        self.move_to_line(line);
    }

    /// Down: as `up`, one line down.
    pub fn down(&mut self)
        requires
            old(self).wf(),
        ensures
            final(self).wf(),
            final(self)@ == old(self)@.down(),
    {
        let line = self.line_below();
        self.move_to_line(line);
    }

    /// Left: to the start of what is selected within the line; else one
    /// grapheme cluster to the left; at the start of the line, to the end of
    /// the line above.
    pub fn left(&mut self)
        requires
            old(self).wf(),
        ensures
            final(self).wf(),
            final(self)@ == old(self)@.left(),
    {
        if self.selected_start < self.selected_end {
            self.jump_to(self.selected_start);
        } else if self.cursor_offset() != 0 {
            let to = previous_grapheme_boundary(
                self.content.line(self.focused_line),
                self.cursor_offset(),
            );
            self.jump_to(to);
        } else {
            let above = self.line_above();
            let end = self.line_len(above);
            self.focused_line = above;
            self.jump_to(end);
        }
    }

    /// Right: to the end of what is selected within the line; else one
    /// grapheme cluster to the right; at the end of the line, to the start of
    /// the line below.
    pub fn right(&mut self)
        requires
            old(self).wf(),
        ensures
            final(self).wf(),
            final(self)@ == old(self)@.right(),
    {
        if self.selected_start < self.selected_end {
            self.jump_to(self.selected_end);
        } else if self.cursor_offset() != self.line_len(self.focused_line) {
            let to = next_grapheme_boundary(
                self.content.line(self.focused_line),
                self.cursor_offset(),
            );
            self.jump_to(to);
        } else {
            let below = self.line_below();
            self.focused_line = below;
            self.jump_to(0);
        }
    }

    /// Select-Left: the selection within the line grows or shrinks by the
    /// grapheme cluster to the left of the caret.
    pub fn select_left(&mut self)
        requires
            old(self).wf(),
        ensures
            final(self).wf(),
            final(self)@ == old(self)@.select_left(),
    {
        let to = previous_grapheme_boundary(
            self.content.line(self.focused_line),
            self.cursor_offset(),
        );
        self.stretch_to(to);
    }

    /// Select-Right: the selection within the line grows or shrinks by the
    /// grapheme cluster to the right of the caret.
    pub fn select_right(&mut self)
        requires
            old(self).wf(),
        ensures
            final(self).wf(),
            final(self)@ == old(self)@.select_right(),
    {
        let to = next_grapheme_boundary(
            self.content.line(self.focused_line),
            self.cursor_offset(),
        );
        self.stretch_to(to);
    }

    /// Select-Up: the selection reaches one line further up.
    pub fn select_up(&mut self)
        requires
            old(self).wf(),
        ensures
            final(self).wf(),
            final(self)@ == old(self)@.select_up(),
    {
        let line = self.line_above();
        self.select_to_line(line);
    }

    /// Select-Down: the selection reaches one line further down.
    pub fn select_down(&mut self)
        requires
            old(self).wf(),
        ensures
            final(self).wf(),
            final(self)@ == old(self)@.select_down(),
    {
        let line = self.line_below();
        self.select_to_line(line);
    }

    /// Select-All: the whole of the focused line, and no other.
    pub fn select_all(&mut self)
        requires
            old(self).wf(),
        ensures
            final(self).wf(),
            final(self)@ == old(self)@.select_all(),
    {
        let end = self.line_len(self.focused_line);
        self.jump_to(0);
        self.stretch_to(end);
    }

    /// Home: the caret at the start of the focused line, nothing selected.
    pub fn home(&mut self)
        requires
            old(self).wf(),
        ensures
            final(self).wf(),
            final(self)@ == old(self)@.home(),
    {
        self.jump_to(0);
    }

    /// End: the caret at the end of the focused line, nothing selected.
    pub fn end(&mut self)
        requires
            old(self).wf(),
        ensures
            final(self).wf(),
            final(self)@ == old(self)@.end(),
    {
        let end = self.line_len(self.focused_line);
        self.jump_to(end);
    }
    /// The end of a gesture, as when the pointer is released: nothing stays
    /// selected, the caret stays where it is.
    pub fn on_mouse_up(&mut self)
        requires
            old(self).wf(),
        ensures
            final(self).wf(),
            final(self)@ == old(self)@.gesture_ended(),
    {
        proof {
            lemma_move_to_wf(self@, self@.caret());
        }
        let caret = self.cursor_offset();
        self.collapse(caret);
    }

    /// The byte offset of line `line` that a pointer position stands for.
    fn index_in_line(&self, line: usize, hit: Option<MouseHit>) -> (index: usize)
        requires
            line < self@.lines.len(),
        ensures
            index == self@.index_for_mouse_position(line as int, hit),
    {
        let len = self.line_len(line);
        if len == 0 {
            return 0;
        }
        match hit {
            None => 0,
            Some(MouseHit::Above) => 0,
            Some(MouseHit::Below) => len,
            Some(MouseHit::Within(at)) => at,
        }
    }

    /// The byte offset of the focused line that a pointer position stands
    /// for, from what the layout of the line says of it: 0 in an empty line,
    /// without a layout, and above the line; the line's length below it;
    /// else the index that the layout found.
    pub fn index_for_mouse_position(&self, hit: Option<MouseHit>) -> (index: usize)
        requires
            self.wf(),
        ensures
            index == self@.index_for_mouse_position(self@.focused_line, hit),
    {
        self.index_in_line(self.focused_line, hit)
    }

    /// A press of the pointer on line `line`, at the offset that `hit`
    /// stands for in that line. The focus goes to the line; with `shift` the
    /// selection reaches to the offset, without it the caret goes there.
    /// Refused where the buffer has no such line or the line is shorter than
    /// the offset.
    pub fn on_mouse_down(&mut self, line: usize, hit: Option<MouseHit>, shift: bool) -> (r: Result<
        (),
        EditError,
    >)
        requires
            old(self).wf(),
        ensures
            final(self).wf(),
            follows(r, old(self)@, final(self)@, old(self)@.mouse_down(line as int, hit, shift)),
    {
        if line >= self.content.line_count() {
            return Err(EditError::OutOfRange);
        }
        let offset = self.index_in_line(line, hit);
        if offset > self.line_len(line) {
            return Err(EditError::OutOfRange);
        }
        self.focused_line = line;
        if shift {
            self.stretch_to(offset);
        } else {
            self.jump_to(offset);
        }
        Ok(())
    }

    /// The pointer moved to the offset of the focused line that `hit`
    /// stands for. While a gesture is in progress the selection follows it;
    /// else nothing changes. Refused where the line is shorter than the
    /// offset.
    pub fn on_mouse_move(&mut self, hit: Option<MouseHit>) -> (r: Result<(), EditError>)
        requires
            old(self).wf(),
        ensures
            final(self).wf(),
            follows(r, old(self)@, final(self)@, old(self)@.mouse_moved(hit)),
    {
        if !self.is_selecting {
            return Ok(());
        }
        let offset = self.index_in_line(self.focused_line, hit);
        if offset > self.line_len(self.focused_line) {
            return Err(EditError::OutOfRange);
        }
        self.stretch_to(offset);
        Ok(())
    }

    /// `range` with its ends in the other order where the selection within
    /// the line is reversed.
    pub fn normalized_selection_bounds_range(&self, selected_range: Range<usize>) -> (range: Range<
        usize,
    >)
        ensures
            span_of(range) == if self@.intra_line_reversed {
                span_of(selected_range).swapped()
            } else {
                span_of(selected_range)
            },
    {
        if !self.selection_reversed {
            selected_range
        } else {
            selected_range.end..selected_range.start
        }
    }

    /// `range` with its ends in the other order where the selection over
    /// lines is reversed.
    pub fn normalized_selection_bounds_lines(&self, selected_range: Range<usize>) -> (range: Range<
        usize,
    >)
        ensures
            span_of(range) == if self@.line_range_reversed {
                span_of(selected_range).swapped()
            } else {
                span_of(selected_range)
            },
    {
        if !self.selected_lines_reversed {
            selected_range
        } else {
            selected_range.end..selected_range.start
        }
    }

    /// The two byte offsets that bound the selection: first the one in the
    /// first selected line, then the one in the last.
    pub fn normalized_selection_bounds(&self) -> (range: Range<usize>)
        ensures
            span_of(range) == self@.selection_bounds(),
    {
        self.normalized_selection_bounds_lines(
            self.normalized_selection_bounds_range(self.selected_start..self.selected_end),
        )
    }

    /// The lines that the selection touches, lower line first, as a range
    /// that is never empty: the focused line alone where no selection over
    /// lines exists; else the kept range, where it is reversed with 1 taken
    /// from its end for the start and 1 added to its start for the end.
    pub fn normalized_selection_lines(&self) -> (lines: Range<usize>)
        requires
            self.wf(),
        ensures
            span_of(lines) == self@.selected_lines(),
            lines.start < lines.end <= self@.lines.len(),
    {
        // Reading the count bounds the sums below by a machine word.
        let _count = self.content.line_count();
        if self.lines_start == 0 && self.lines_end == 0 {
            self.focused_line..self.focused_line + 1
        } else if self.selected_lines_reversed {
            self.lines_end - 1..self.lines_start + 1
        } else {
            self.lines_start..self.lines_end
        }
    }

    /// The range that a deletion takes away once the caret has gone to
    /// `caret`.
    fn doomed_range(&self, caret: usize) -> (range: (usize, usize))
        ensures
            range.0 == self@.picked_to(caret as int).doomed_range().start,
            range.1 == self@.picked_to(caret as int).doomed_range().end,
            caret == self@.caret() ==> range.0 == self@.doomed_range().start && range.1
                == self@.doomed_range().end,
    {
        match self.marked_range {
            Some(m) => m,
            None => {
                let anchor = if self.selection_reversed {
                    self.selected_end
                } else {
                    self.selected_start
                };
                if self.selected_lines_reversed {
                    (caret, anchor)
                } else {
                    (anchor, caret)
                }
            },
        }
    }

    /// Takes out of the lines `first..=last` what `start` and `end` bound.
    fn cut_out(&mut self, first: usize, last: usize, start: usize, end: usize) -> (r: Result<
        (),
        EditError,
    >)
        requires
            old(self).wf(),
            first <= last < old(self)@.lines.len(),
        ensures
            final(self).wf(),
            follows(
                r,
                old(self)@,
                final(self)@,
                old(self)@.cut_out(
                    Span { start: first as int, end: last + 1 },
                    Span { start: start as int, end: end as int },
                ),
            ),
    {
        let ghost before = self@;
        let ghost touched = Span { start: first as int, end: last + 1 };
        let ghost doomed = Span { start: start as int, end: end as int };
        proof {
            lemma_cut_out_wf(before, touched, doomed);
        }
        if first == last {
            let (from, to) = if end < start {
                (end, start)
            } else {
                (start, end)
            };
            let nothing = String::new();
            let line = match splice(self.content.line(first), from, to, nothing.as_str()) {
                Ok(line) => line,
                Err(e) => {
                    return Err(e);
                },
            };
            let _ = self.content.replace(first, line);
            self.collapse(from);
            self.focused_line = first;
            self.marked_range = None;
            assert(self@ =~= before.cut_out(touched, doomed)->Ok_0);
            Ok(())
        } else {
            let head = match text_before(self.content.line(first), start) {
                Ok(head) => head,
                Err(e) => {
                    return Err(e);
                },
            };
            let tail = match text_after(self.content.line(last), end) {
                Ok(tail) => tail,
                Err(e) => {
                    return Err(e);
                },
            };
            let ghost head_bytes = encode_utf8(head@);
            let ghost tail_bytes = encode_utf8(tail@);
            let _ = self.content.replace(first, head);
            let between: usize = last - first - 1;
            let mut gone: usize = 0;
            while gone < between
                invariant
                    gone <= between,
                    between == last - first - 1,
                    first < last < before.lines.len(),
                    self.content.wf(),
                    self.cursor_pos == before.ideal_column,
                    self.open_file@ == before.open_file,
                    self.placeholder@ == before.placeholder,
                    self.diagnostics@ == before.diagnostics,
                    self.content@ =~= before.lines.subrange(0, first as int).push(head_bytes)
                        + before.lines.subrange(first + 1 + gone, before.lines.len() as int),
                decreases between - gone,
            {
                let _ = self.content.remove_line(first + 1);
                gone = gone + 1;
            }
            let tail_len = byte_len(tail.as_str());
            if tail_len == 0 {
                let _ = self.content.remove_line(first + 1);
            } else {
                let _ = self.content.replace(first + 1, tail);
            }
            self.collapse(start);
            self.focused_line = first;
            self.marked_range = None;
            assert(self@.lines =~= before.cut_out(touched, doomed)->Ok_0.lines);
            assert(self@ =~= before.cut_out(touched, doomed)->Ok_0);
            Ok(())
        }
    }

    /// Backspace. At the start of a line that is not the first, without an
    /// active selection, the line is joined to the one above it and the
    /// caret stands where the two meet. Else what is selected is deleted;
    /// without an active selection that is the grapheme cluster to the left
    /// of the caret. At the start of the first line, with nothing selected
    /// or composed, nothing changes.
    pub fn backspace(&mut self) -> (r: Result<(), EditError>)
        requires
            old(self).wf(),
        ensures
            final(self).wf(),
            follows(r, old(self)@, final(self)@, old(self)@.backspace()),
            ({
                let before = old(self)@;
                let after = final(self)@;
                before.focused_line == 0 && before.caret() == 0 && !before.has_selection()
                    && before.marked_range is None ==> r is Ok && after.lines == before.lines
                    && after.focused_line == 0 && after.caret() == 0 && !after.has_selection()
            }),
    {
        let ghost before = self@;
        proof {
            lemma_backspace_wf(before);
            lemma_backspace_at_origin(before);
        }
        let caret = self.cursor_offset();
        if !self.is_selecting && self.focused_line != 0 && caret == 0 {
            let above = self.focused_line - 1;
            let at = self.line_len(above);
            let line = joined(self.content.line(above), self.content.line(self.focused_line));
            let _ = self.content.replace(above, line);
            let _ = self.content.remove_line(self.focused_line);
            self.collapse(at);
            self.focused_line = above;
            self.cursor_pos = at;
            assert(self@ =~= before.backspace()->Ok_0);
            Ok(())
        } else {
            let picking = !self.is_selecting;
            let to = if picking {
                previous_grapheme_boundary(self.content.line(self.focused_line), caret)
            } else {
                caret
            };
            let touched = self.normalized_selection_lines();
            let (start, end) = self.doomed_range(to);
            match self.cut_out(touched.start, touched.end - 1, start, end) {
                Ok(()) => {
                    if picking {
                        self.cursor_pos = to;
                    }
                    assert(self@ =~= before.backspace()->Ok_0);
                    Ok(())
                },
                Err(e) => Err(e),
            }
        }
    }

    /// Delete. What is selected is deleted; where nothing is selected, that
    /// is the grapheme cluster to the right of the caret. At the end of a
    /// line, with nothing selected or composed, nothing changes.
    pub fn delete(&mut self) -> (r: Result<(), EditError>)
        requires
            old(self).wf(),
        ensures
            final(self).wf(),
            follows(r, old(self)@, final(self)@, old(self)@.delete()),
            ({
                let before = old(self)@;
                let after = final(self)@;
                before.caret() == before.line().len() && !before.has_selection()
                    && before.marked_range is None ==> r is Ok && after.lines == before.lines
                    && after.focused_line == before.focused_line && after.caret()
                    == before.caret() && !after.has_selection()
            }),
    {
        let ghost before = self@;
        proof {
            crate::laws::lemma_delete_wf(before);
        }
        let caret = self.cursor_offset();
        let picking = self.selected_start == self.selected_end && self.lines_start == 0
            && self.lines_end == 0;
        let to = if picking {
            next_grapheme_boundary(self.content.line(self.focused_line), caret)
        } else {
            caret
        };
        proof {
            if picking && to == before.line().len() {
                lemma_delete_at_line_end(before);
            }
        }
        let touched = self.normalized_selection_lines();
        let (start, end) = self.doomed_range(to);
        match self.cut_out(touched.start, touched.end - 1, start, end) {
            Ok(()) => {
                if picking {
                    self.cursor_pos = to;
                }
                assert(self@ =~= before.delete()->Ok_0);
                Ok(())
            },
            Err(e) => Err(e),
        }
    }

    /// Enter: the focused line is split at the caret; what stands behind the
    /// caret becomes a new line below, which gets the focus, the caret at
    /// its start. Refused where the caret is no character boundary of the
    /// line.
    pub fn enter(&mut self) -> (r: Result<(), EditError>)
        requires
            old(self).wf(),
        ensures
            final(self).wf(),
            follows(r, old(self)@, final(self)@, old(self)@.enter()),
    {
        let ghost before = self@;
        proof {
            lemma_enter_wf(before);
        }
        // Reading the count bounds `focused_line + 1` by a machine word.
        let _count = self.content.line_count();
        let at = self.cursor_offset();
        let head = match text_before(self.content.line(self.focused_line), at) {
            Ok(head) => head,
            Err(e) => {
                return Err(e);
            },
        };
        let tail = match text_after(self.content.line(self.focused_line), at) {
            Ok(tail) => tail,
            Err(e) => {
                return Err(e);
            },
        };
        let _ = self.content.replace(self.focused_line, head);
        let _ = self.content.insert_line(self.focused_line + 1, tail);
        self.collapse(0);
        self.focused_line = self.focused_line + 1;
        assert(self@ =~= before.enter()->Ok_0);
        Ok(())
    }

    /// The byte range that new text replaces.
    fn replaced_range(&self, range_utf16: &Option<Range<usize>>) -> (range: (usize, usize))
        requires
            self.wf(),
        ensures
            range.0 == self@.replaced_range(opt_span_of(*range_utf16)).start,
            range.1 == self@.replaced_range(opt_span_of(*range_utf16)).end,
    {
        broadcast use encode_utf8_decode_utf8;

        match range_utf16 {
            Some(r) => {
                let line = self.content.line(self.focused_line);
                (unit16_to_byte(line, r.start), unit16_to_byte(line, r.end))
            },
            None => match self.marked_range {
                Some(m) => m,
                None => (self.selected_start, self.selected_end),
            },
        }
    }

    /// Puts `new_text` in the place of a range of the focused line: the
    /// range `range_utf16`, given in UTF-16 code units, where the caller
    /// names one; else the composition; else the selection within the line.
    /// The caret goes behind the new text, and nothing stays selected or
    /// composed. Refused where the range is no span of the line.
    pub fn replace_text_in_range(&mut self, range_utf16: Option<Range<usize>>, new_text: &str) -> (r:
        Result<(), EditError>)
        requires
            old(self).wf(),
        ensures
            final(self).wf(),
            follows(
                r,
                old(self)@,
                final(self)@,
                old(self)@.replace_text_in_range(opt_span_of(range_utf16), new_text.spec_bytes()),
            ),
    {
        broadcast use encode_utf8_valid_utf8;

        let ghost before = self@;
        proof {
            lemma_replace_text_wf(before, opt_span_of(range_utf16), new_text.spec_bytes());
        }
        let (start, end) = self.replaced_range(&range_utf16);
        let line = match splice(self.content.line(self.focused_line), start, end, new_text) {
            Ok(line) => line,
            Err(e) => {
                return Err(e);
            },
        };
        // Reading the new length bounds the caret by a machine word.
        let _len = byte_len(line.as_str());
        let caret = start + byte_len(new_text);
        let _ = self.content.replace(self.focused_line, line);
        self.collapse(caret);
        self.marked_range = None;
        assert(self@ =~= before.replace_text_in_range(
            opt_span_of(range_utf16),
            new_text.spec_bytes(),
        )->Ok_0);
        Ok(())
    }

    /// Paste: `text` is put in as `replace_text_in_range` does without a
    /// range, on one line: a space stands for each line feed of `text`.
    pub fn paste(&mut self, text: &str) -> (r: Result<(), EditError>)
        requires
            old(self).wf(),
        ensures
            final(self).wf(),
            follows(r, old(self)@, final(self)@, old(self)@.paste(text.spec_bytes())),
    {
        let flat = flatten(text);
        self.replace_text_in_range(None, flat.as_str())
    }

    /// Copy: the text that is selected within the focused line, or nothing
    /// where nothing is selected there. Refused where the selection is no
    /// span of the line.
    pub fn copy(&self) -> (r: Result<Option<String>, EditError>)
        requires
            self.wf(),
        ensures
            match self@.copied() {
                Ok(Some(bytes)) => r is Ok && r->Ok_0 is Some && encode_utf8(r->Ok_0->Some_0@)
                    == bytes,
                Ok(None) => r is Ok && r->Ok_0 is None,
                Err(e) => r is Err && r->Err_0 == e,
            },
    {
        if self.selected_start == self.selected_end {
            return Ok(None);
        }
        match text_between(
            self.content.line(self.focused_line),
            self.selected_start,
            self.selected_end,
        ) {
            Ok(text) => Ok(Some(text)),
            Err(e) => Err(e),
        }
    }

    /// Cut: what Copy hands out, and where that is some text, the state
    /// after Delete. Where either is refused, nothing changes.
    pub fn cut(&mut self) -> (r: Result<Option<String>, EditError>)
        requires
            old(self).wf(),
        ensures
            final(self).wf(),
            match old(self)@.cut() {
                Ok(s) => r is Ok && final(self)@ == s && match old(self)@.copied() {
                    Ok(Some(bytes)) => r->Ok_0 is Some && encode_utf8(r->Ok_0->Some_0@) == bytes,
                    _ => r->Ok_0 is None,
                },
                Err(e) => r is Err && r->Err_0 == e && final(self)@ == old(self)@,
            },
    {
        match self.copy() {
            Ok(Some(text)) => match self.delete() {
                Ok(()) => Ok(Some(text)),
                Err(e) => Err(e),
            },
            Ok(None) => Ok(None),
            Err(e) => Err(e),
        }
    }

    /// Empties the focused line; the caret goes to its start, and nothing
    /// stays selected or composed.
    pub fn reset(&mut self)
        requires
            old(self).wf(),
        ensures
            final(self).wf(),
            final(self)@ == old(self)@.reset(),
    {
        let ghost before = self@;
        proof {
            lemma_reset_wf(before);
        }
        let _ = self.content.replace(self.focused_line, String::new());
        self.collapse(0);
        self.marked_range = None;
        assert(self@ =~= before.reset());
    }

    /// The text of the file that holds the buffer: its lines, a line feed
    /// between each two of them and none behind the last.
    pub fn save(&self) -> (text: String)
        ensures
            encode_utf8(text@) == joined_lines(self@.lines),
    {
        join_lines(self.content.lines())
    }

    /// The byte offset of the focused line that the UTF-16 offset `offset`
    /// stands for; an offset inside a character is rounded down.
    pub fn offset_from_utf16(&self, offset: usize) -> (bytes: usize)
        requires
            self.wf(),
        ensures
            bytes == self@.range_from_utf16(offset as int, offset as int).start,
    {
        broadcast use encode_utf8_decode_utf8;

        unit16_to_byte(self.content.line(self.focused_line), offset)
    }

    /// The UTF-16 offset that stands for the byte offset `offset` of the
    /// focused line.
    pub fn offset_to_utf16(&self, offset: usize) -> (units: usize)
        requires
            self.wf(),
        ensures
            units == self@.offset_to_utf16(offset as int),
    {
        broadcast use encode_utf8_decode_utf8;

        byte_to_unit16(self.content.line(self.focused_line), offset)
    }

    /// The UTF-16 range that stands for the byte range `range` of the
    /// focused line.
    pub fn range_to_utf16(&self, range: &Range<usize>) -> (units: Range<usize>)
        requires
            self.wf(),
        ensures
            span_of(units) == self@.range_to_utf16(span_of(*range)),
    {
        self.offset_to_utf16(range.start)..self.offset_to_utf16(range.end)
    }

    /// The byte range of the focused line that the UTF-16 range
    /// `range_utf16` stands for.
    pub fn range_from_utf16(&self, range_utf16: &Range<usize>) -> (bytes: Range<usize>)
        requires
            self.wf(),
        ensures
            span_of(bytes) == self@.range_from_utf16(
                range_utf16.start as int,
                range_utf16.end as int,
            ),
    {
        self.offset_from_utf16(range_utf16.start)..self.offset_from_utf16(range_utf16.end)
    }

    /// The selection within the line in UTF-16 code units, and whether it is
    /// reversed.
    pub fn selected_text_range(&self) -> (selection: (Range<usize>, bool))
        requires
            self.wf(),
        ensures
            span_of(selection.0) == self@.range_to_utf16(self@.intra_line_range),
            selection.1 == self@.intra_line_reversed,
    {
        (
            self.offset_to_utf16(self.selected_start)..self.offset_to_utf16(self.selected_end),
            self.selection_reversed,
        )
    }

    /// The composition in UTF-16 code units, if there is one.
    pub fn marked_text_range(&self) -> (range: Option<Range<usize>>)
        requires
            self.wf(),
        ensures
            match self@.marked_range {
                Some(m) => range is Some && span_of(range->Some_0) == self@.range_to_utf16(m),
                None => range is None,
            },
    {
        match self.marked_range {
            Some(m) => Some(self.offset_to_utf16(m.0)..self.offset_to_utf16(m.1)),
            None => None,
        }
    }

    /// Ends the composition; the text stays.
    pub fn unmark_text(&mut self)
        ensures
            old(self).wf() ==> final(self).wf(),
            final(self)@ == (EditorState { marked_range: None, ..old(self)@ }),
    {
        self.marked_range = None;
    }

    /// The text of the focused line in the UTF-16 range `range_utf16`, with
    /// the UTF-16 range that was in fact taken. Refused where the range ends
    /// before it begins.
    pub fn text_for_range(&self, range_utf16: Range<usize>) -> (r: Result<
        (String, Range<usize>),
        EditError,
    >)
        requires
            self.wf(),
        ensures
            match self@.text_for_range(span_of(range_utf16)) {
                Ok(taken) => r is Ok && encode_utf8(r->Ok_0.0@) == taken.0 && span_of(r->Ok_0.1)
                    == taken.1,
                Err(e) => r is Err && r->Err_0 == e,
            },
    {
        let range = self.range_from_utf16(&range_utf16);
        match text_between(self.content.line(self.focused_line), range.start, range.end) {
            Ok(text) => Ok((text, self.range_to_utf16(&range))),
            Err(e) => Err(e),
        }
    }
    /// Puts in text that an input method goes on composing: `new_text`
    /// replaces the range that `replace_text_in_range` would replace and
    /// becomes the composition. The selection becomes the range
    /// `new_selected_range_utf16` of the new line, its start moved by the
    /// start of the replaced range and its end by the end of it; without
    /// one the caret goes behind the new text. Refused where the replaced
    /// range is no span of the line, or where the selection would end
    /// before it begins or behind the greatest offset.
    pub fn replace_and_mark_text_in_range(
        &mut self,
        range_utf16: Option<Range<usize>>,
        new_text: &str,
        new_selected_range_utf16: Option<Range<usize>>,
    ) -> (r: Result<(), EditError>)
        requires
            old(self).wf(),
        ensures
            final(self).wf(),
            follows(
                r,
                old(self)@,
                final(self)@,
                old(self)@.replace_and_mark_text_in_range(
                    opt_span_of(range_utf16),
                    new_text.spec_bytes(),
                    opt_span_of(new_selected_range_utf16),
                ),
            ),
    {
        broadcast use {encode_utf8_valid_utf8, encode_utf8_decode_utf8};

        let ghost before = self@;
        let ghost expected = before.replace_and_mark_text_in_range(
            opt_span_of(range_utf16),
            new_text.spec_bytes(),
            opt_span_of(new_selected_range_utf16),
        );
        proof {
            lemma_replace_text_wf(before, opt_span_of(range_utf16), new_text.spec_bytes());
        }
        let (start, end) = self.replaced_range(&range_utf16);
        let line = match splice(self.content.line(self.focused_line), start, end, new_text) {
            Ok(line) => line,
            Err(e) => {
                return Err(e);
            },
        };
        // Reading the new length bounds the end of the composition by a
        // machine word.
        let _len = byte_len(line.as_str());
        let marked_end = start + byte_len(new_text);
        let (from, to) = match new_selected_range_utf16 {
            Some(r) => {
                let inner_start = unit16_to_byte(line.as_str(), r.start);
                let inner_end = unit16_to_byte(line.as_str(), r.end);
                if inner_start > usize::MAX - start || inner_end > usize::MAX - end {
                    return Err(EditError::OutOfRange);
                }
                (inner_start + start, inner_end + end)
            },
            None => (marked_end, marked_end),
        };
        if from > to {
            return Err(EditError::OutOfRange);
        }
        let _ = self.content.replace(self.focused_line, line);
        self.collapse(0);
        self.selected_start = from;
        self.selected_end = to;
        self.is_selecting = from < to;
        self.marked_range = Some((start, marked_end));
        assert(self@ =~= expected->Ok_0);
        Ok(())
    }
}

} // verus!
