//! The editor as a mathematical state, and each command as a function from
//! the state before it to the state after it.

use crate::boundary::{bytes_within, next_boundary, previous_boundary, units_before};
use crate::buffer::is_buffer;
use crate::diagnostics::{all_in_buffer, index_of, DiagnosticRecord, DiagnosticsView};
use crate::error::EditError;
use crate::text::{flattened, is_span, spliced};
use vstd::prelude::*;
use vstd::utf8::*;

verus! {

/// Where a pointer stands, as the layout of a line tells it.
#[derive(Clone, Copy, Debug)]
pub enum MouseHit {
    /// Above the line.
    Above,
    /// Below the line.
    Below,
    /// On the line, nearest to the byte offset that it holds.
    Within(usize),
}

/// A half-open range `start..end` of byte offsets or of line numbers.
pub struct Span {
    pub start: int,
    pub end: int,
}

impl Span {
    /// The range that begins and ends at `at`.
    pub open spec fn at(at: int) -> Span {
        Span { start: at, end: at }
    }

    /// The range of no line: it stands for "no selection of lines".
    pub open spec fn none() -> Span {
        Span { start: 0, end: 0 }
    }

    /// The same two ends, given in the other order.
    pub open spec fn swapped(self) -> Span {
        Span { start: self.end, end: self.start }
    }

    /// The same two ends, the lesser first.
    pub open spec fn ordered(self) -> Span {
        if self.end < self.start {
            self.swapped()
        } else {
            self
        }
    }
}

/// The state of one editor: the lines, the focused line, the selection
/// within the line and over lines, and the range that an input method is
/// composing.
#[verifier::ext_equal]
pub struct EditorState {
    /// The lines of the buffer, each as its UTF-8 bytes.
    pub lines: Seq<Seq<u8>>,
    /// The line that holds the caret.
    pub focused_line: int,
    /// The byte column that the caret was last put at sideways. Moves up and
    /// down aim for it.
    pub ideal_column: int,
    /// The bytes selected within the line, `start <= end`.
    pub intra_line_range: Span,
    /// Whether the caret is at the start of `intra_line_range`, not its end.
    pub intra_line_reversed: bool,
    /// The lines that a selection over lines touches: from the line where it
    /// was begun to behind the focused line, or `0..0` for none.
    pub line_range: Span,
    /// Whether the selection over lines was begun below the focused line.
    pub line_range_reversed: bool,
    /// Whether a gesture that extends the selection is in progress.
    pub is_extending: bool,
    /// The range that an input method is composing, if any.
    pub marked_range: Option<Span>,
    /// The path of the file that is being edited.
    pub open_file: Seq<char>,
    /// The text shown in place of an empty line.
    pub placeholder: Seq<char>,
    /// The annotations of the last report of a language server, by line.
    pub diagnostics: Map<usize, Seq<DiagnosticsView>>,
}

impl EditorState {
    /// The bytes of the focused line.
    pub open spec fn line(self) -> Seq<u8> {
        self.lines[self.focused_line]
    }

    /// The byte offset of the caret: the end of the selection that moves.
    pub open spec fn caret(self) -> int {
        if self.intra_line_reversed {
            self.intra_line_range.start
        } else {
            self.intra_line_range.end
        }
    }

    /// The byte offset at which the selection within the line was begun.
    pub open spec fn anchor(self) -> int {
        if self.intra_line_reversed {
            self.intra_line_range.end
        } else {
            self.intra_line_range.start
        }
    }

    /// Whether a selection over lines exists.
    pub open spec fn has_line_selection(self) -> bool {
        self.line_range != Span::none()
    }

    /// Whether anything is selected, within the line or over lines.
    pub open spec fn has_selection(self) -> bool {
        self.intra_line_range.start < self.intra_line_range.end || self.has_line_selection()
    }

    /// What holds of the state of every editor, between any two commands.
    pub open spec fn wf(self) -> bool {
        &&& is_buffer(self.lines)
        &&& 0 <= self.focused_line < self.lines.len()
        &&& 0 <= self.ideal_column
        &&& 0 <= self.intra_line_range.start <= self.intra_line_range.end
        &&& if self.line_range_reversed {
            1 <= self.line_range.end <= self.line_range.start < self.lines.len()
        } else {
            self.has_line_selection() ==> 0 <= self.line_range.start < self.line_range.end
                <= self.lines.len()
        }
        &&& self.has_selection() ==> self.is_extending
        &&& match self.marked_range {
            Some(m) => 0 <= m.start && 0 <= m.end,
            None => true,
        }
    }

    /// The state of an editor that has just opened `lines`.
    pub open spec fn initial(open_file: Seq<char>, lines: Seq<Seq<u8>>) -> EditorState {
        EditorState {
            lines,
            focused_line: 0,
            ideal_column: 0,
            intra_line_range: Span::at(0),
            intra_line_reversed: false,
            line_range: Span::none(),
            line_range_reversed: false,
            is_extending: false,
            marked_range: None,
            open_file,
            placeholder: Seq::empty(),
            diagnostics: Map::empty(),
        }
    }

    /// Nothing selected, not extending, and the caret at `offset` of the
    /// focused line.
    pub open spec fn collapsed(self, offset: int) -> EditorState {
        EditorState {
            intra_line_range: Span::at(offset),
            intra_line_reversed: false,
            line_range: Span::none(),
            line_range_reversed: false,
            is_extending: false,
            ..self
        }
    }

    /// The selection within the line with its moving end put at `offset`:
    /// where that end passes the anchor, the two ends change roles.
    pub open spec fn with_caret(self, offset: int) -> EditorState {
        let anchor = self.anchor();
        if offset < anchor {
            EditorState {
                intra_line_range: Span { start: offset, end: anchor },
                intra_line_reversed: true,
                ..self
            }
        } else if anchor < offset {
            EditorState {
                intra_line_range: Span { start: anchor, end: offset },
                intra_line_reversed: false,
                ..self
            }
        } else {
            EditorState { intra_line_range: Span::at(offset), ..self }
        }
    }

    /// The caret put at `offset` of the focused line, with nothing selected;
    /// a composition is given up.
    pub open spec fn move_to(self, offset: int) -> EditorState {
        EditorState { ideal_column: offset, marked_range: None, ..self.collapsed(offset) }
    }

    /// The selection within the line extended to `offset`; a composition is
    /// given up. The selection over lines stays as it is.
    pub open spec fn select_to(self, offset: int) -> EditorState {
        EditorState {
            ideal_column: offset,
            is_extending: true,
            marked_range: None,
            ..self.with_caret(offset)
        }
    }

    /// The line above the focused one, or the first line itself.
    pub open spec fn line_above(self) -> int {
        if self.focused_line > 0 {
            self.focused_line - 1
        } else {
            0
        }
    }

    /// The line below the focused one, or the last line itself.
    pub open spec fn line_below(self) -> int {
        if self.focused_line + 1 < self.lines.len() {
            self.focused_line + 1
        } else {
            self.focused_line
        }
    }

    /// The column that a move up or down to line `line` arrives at: the
    /// ideal column, or the end of the line where the line is shorter.
    pub open spec fn column_in(self, line: int) -> int {
        if self.ideal_column < self.lines[line].len() {
            self.ideal_column
        } else {
            self.lines[line].len() as int
        }
    }

    /// The focus moved to line `line`, nothing selected; the ideal column is
    /// kept.
    pub open spec fn moved_to_line(self, line: int) -> EditorState {
        EditorState {
            focused_line: line,
            marked_range: None,
            ..self.collapsed(self.column_in(line))
        }
    }

    /// The selection extended to line `line`: the selection over lines runs
    /// from the line where the gesture began to behind `line`.
    pub open spec fn selected_to_line(self, line: int) -> EditorState {
        let begun = if self.is_extending && self.has_line_selection() {
            self.line_range.start
        } else {
            self.focused_line
        };
        EditorState {
            focused_line: line,
            line_range: Span { start: begun, end: line + 1 },
            line_range_reversed: begun >= line + 1,
            is_extending: true,
            marked_range: None,
            ..self.with_caret(self.column_in(line))
        }
    }

    /// Up.
    pub open spec fn up(self) -> EditorState {
        self.moved_to_line(self.line_above())
    }

    /// Down.
    pub open spec fn down(self) -> EditorState {
        self.moved_to_line(self.line_below())
    }

    /// Left: to the start of what is selected within the line; else one
    /// grapheme cluster to the left; at the start of the line, to the end of
    /// the line above.
    pub open spec fn left(self) -> EditorState {
        if self.intra_line_range.start < self.intra_line_range.end {
            self.move_to(self.intra_line_range.start)
        } else if self.caret() != 0 {
            self.move_to(previous_boundary(self.line(), self.caret()))
        } else {
            let above = self.line_above();
            EditorState { focused_line: above, ..self }.move_to(self.lines[above].len() as int)
        }
    }

    /// Right: to the end of what is selected within the line; else one
    /// grapheme cluster to the right; at the end of the line, to the start of
    /// the line below.
    pub open spec fn right(self) -> EditorState {
        if self.intra_line_range.start < self.intra_line_range.end {
            self.move_to(self.intra_line_range.end)
        } else if self.caret() != self.line().len() {
            self.move_to(next_boundary(self.line(), self.caret()))
        } else {
            EditorState { focused_line: self.line_below(), ..self }.move_to(0)
        }
    }

    /// Select-Left.
    pub open spec fn select_left(self) -> EditorState {
        self.select_to(previous_boundary(self.line(), self.caret()))
    }

    /// Select-Right.
    pub open spec fn select_right(self) -> EditorState {
        self.select_to(next_boundary(self.line(), self.caret()))
    }

    /// Select-Up.
    pub open spec fn select_up(self) -> EditorState {
        self.selected_to_line(self.line_above())
    }

    /// Select-Down.
    pub open spec fn select_down(self) -> EditorState {
        self.selected_to_line(self.line_below())
    }

    /// Select-All: the whole focused line, the caret at its end.
    pub open spec fn select_all(self) -> EditorState {
        self.move_to(0).select_to(self.line().len() as int)
    }

    /// Home.
    pub open spec fn home(self) -> EditorState {
        self.move_to(0)
    }

    /// End.
    pub open spec fn end(self) -> EditorState {
        self.move_to(self.line().len() as int)
    }

    /// The end of a gesture: nothing stays selected, the caret stays.
    pub open spec fn gesture_ended(self) -> EditorState {
        self.collapsed(self.caret())
    }

    /// The lines that the selection touches, lower line first: the focused
    /// line alone where no selection over lines exists.
    pub open spec fn selected_lines(self) -> Span {
        if !self.has_line_selection() {
            Span { start: self.focused_line, end: self.focused_line + 1 }
        } else if self.line_range_reversed {
            Span { start: self.line_range.end - 1, end: self.line_range.start + 1 }
        } else {
            self.line_range
        }
    }

    /// The two byte offsets that bound the selection: first the one in the
    /// first selected line, then the one in the last.
    pub open spec fn selection_bounds(self) -> Span {
        let begun_first = Span { start: self.anchor(), end: self.caret() };
        if self.line_range_reversed {
            begun_first.swapped()
        } else {
            begun_first
        }
    }

    /// The range that a deletion takes away: the composition where there is
    /// one, else the selection.
    pub open spec fn doomed_range(self) -> Span {
        match self.marked_range {
            Some(m) => m,
            None => self.selection_bounds(),
        }
    }

    /// The lines `touched` without what `doomed` bounds. Where `touched` is
    /// one line, the bytes between the two offsets of `doomed` leave that
    /// line. Where it is several lines, the first keeps what stands before
    /// `doomed.start`, the last what stands from `doomed.end` on, and the
    /// lines between them go; the last line goes too where nothing of it is
    /// left. The focus and the caret end where the cut began, and nothing
    /// stays selected or composed. Refused where an offset is no character
    /// boundary of its line.
    pub open spec fn cut_out(self, touched: Span, doomed: Span) -> Result<EditorState, EditError> {
        let first = touched.start;
        let last = touched.end - 1;
        if first == last {
            let span = doomed.ordered();
            if is_span(self.lines[first], span.start, span.end) {
                Ok(
                    EditorState {
                        lines: self.lines.update(
                            first,
                            spliced(self.lines[first], span.start, span.end, Seq::empty()),
                        ),
                        focused_line: first,
                        marked_range: None,
                        ..self.collapsed(span.start)
                    },
                )
            } else {
                Err(EditError::OutOfRange)
            }
        } else {
            if is_char_boundary(self.lines[first], doomed.start) && is_char_boundary(
                self.lines[last],
                doomed.end,
            ) {
                let head = self.lines[first].subrange(0, doomed.start);
                let tail = self.lines[last].subrange(doomed.end, self.lines[last].len() as int);
                let kept = if tail.len() == 0 {
                    seq![head]
                } else {
                    seq![head, tail]
                };
                Ok(
                    EditorState {
                        lines: self.lines.subrange(0, first) + kept + self.lines.subrange(
                            last + 1,
                            self.lines.len() as int,
                        ),
                        focused_line: first,
                        marked_range: None,
                        ..self.collapsed(doomed.start)
                    },
                )
            } else {
                Err(EditError::OutOfRange)
            }
        }
    }

    /// The selection deleted: the selected lines without what the doomed
    /// range bounds.
    pub open spec fn delete_selection(self) -> Result<EditorState, EditError> {
        self.cut_out(self.selected_lines(), self.doomed_range())
    }

    /// The state in which the selection within the line reaches to `offset`
    /// and a composition, if any, is still in progress.
    pub open spec fn picked_to(self, offset: int) -> EditorState {
        EditorState { ideal_column: offset, is_extending: true, ..self.with_caret(offset) }
    }

    /// Whether Backspace joins the focused line to the line above: the caret
    /// is at column 0 of a line that is not the first, and no selection is
    /// active.
    pub open spec fn joins_lines(self) -> bool {
        !self.is_extending && self.focused_line != 0 && self.caret() == 0
    }

    /// Backspace. At the start of a line without an active selection, the
    /// line is joined to the one above it. Else what is selected is deleted,
    /// and without an active selection the grapheme cluster to the left of
    /// the caret is selected first.
    pub open spec fn backspace(self) -> Result<EditorState, EditError> {
        if self.joins_lines() {
            let above = self.focused_line - 1;
            Ok(
                EditorState {
                    lines: self.lines.update(above, self.lines[above] + self.line()).remove(
                        self.focused_line,
                    ),
                    focused_line: above,
                    ideal_column: self.lines[above].len() as int,
                    ..self.collapsed(self.lines[above].len() as int)
                },
            )
        } else if !self.is_extending {
            self.picked_to(previous_boundary(self.line(), self.caret())).delete_selection()
        } else {
            self.delete_selection()
        }
    }

    /// Delete. What is selected is deleted; where nothing is selected, the
    /// grapheme cluster to the right of the caret is selected first.
    pub open spec fn delete(self) -> Result<EditorState, EditError> {
        if !self.has_selection() {
            self.picked_to(next_boundary(self.line(), self.caret())).delete_selection()
        } else {
            self.delete_selection()
        }
    }

    /// Enter: the focused line is split at the caret, what stands behind the
    /// caret becomes a new line below, and the caret goes to the start of
    /// that line. Refused where the caret is no character boundary.
    pub open spec fn enter(self) -> Result<EditorState, EditError> {
        let at = self.caret();
        if is_char_boundary(self.line(), at) {
            Ok(
                EditorState {
                    lines: self.lines.update(self.focused_line, self.line().subrange(0, at)).insert(
                        self.focused_line + 1,
                        self.line().subrange(at, self.line().len() as int),
                    ),
                    focused_line: self.focused_line + 1,
                    ..self.collapsed(0)
                },
            )
        } else {
            Err(EditError::OutOfRange)
        }
    }

    /// The byte range of the focused line that the UTF-16 range
    /// `start..end` stands for.
    pub open spec fn range_from_utf16(self, start: int, end: int) -> Span {
        let text = decode_utf8(self.line());
        Span { start: bytes_within(text, start), end: bytes_within(text, end) }
    }

    /// The range that new text replaces: the range that the caller names, in
    /// UTF-16 code units; else the composition; else the selection within the
    /// line.
    pub open spec fn replaced_range(self, range_utf16: Option<Span>) -> Span {
        match range_utf16 {
            Some(r) => self.range_from_utf16(r.start, r.end),
            None => match self.marked_range {
                Some(m) => m,
                None => self.intra_line_range,
            },
        }
    }

    /// Text put in: `text` replaces the range that `replaced_range` gives,
    /// on the focused line; the caret goes behind it and nothing stays
    /// selected or composed. Refused where the range is no span of the line.
    pub open spec fn replace_text_in_range(self, range_utf16: Option<Span>, text: Seq<u8>) -> Result<
        EditorState,
        EditError,
    > {
        let range = self.replaced_range(range_utf16);
        if is_span(self.line(), range.start, range.end) {
            Ok(
                EditorState {
                    lines: self.lines.update(
                        self.focused_line,
                        spliced(self.line(), range.start, range.end, text),
                    ),
                    marked_range: None,
                    ..self.collapsed(range.start + text.len())
                },
            )
        } else {
            Err(EditError::OutOfRange)
        }
    }

    /// The focused line emptied, the caret at its start, nothing selected or
    /// composed.
    pub open spec fn reset(self) -> EditorState {
        EditorState {
            lines: self.lines.update(self.focused_line, Seq::empty()),
            marked_range: None,
            ..self.collapsed(0)
        }
    }

    /// A report of a language server taken in: the annotations that were
    /// held give way, all of them, to those of `records`. Refused where a
    /// record is about a line that the buffer does not have.
    pub open spec fn set_diagnostics(self, records: Seq<DiagnosticRecord>) -> Result<
        EditorState,
        EditError,
    > {
        if all_in_buffer(records, self.lines) {
            Ok(EditorState { diagnostics: index_of(records, self.lines), ..self })
        } else {
            Err(EditError::OutOfRange)
        }
    }

    /// Paste: `text` is put in on one line, a space for each of its line
    /// feeds, in the place of the composition or of the selection within the
    /// line.
    pub open spec fn paste(self, text: Seq<u8>) -> Result<EditorState, EditError> {
        self.replace_text_in_range(None, flattened(text))
    }

    /// What Copy hands out: nothing where nothing is selected within the
    /// line, else the selected bytes of the focused line. Refused where the
    /// selection is no span of that line.
    pub open spec fn copied(self) -> Result<Option<Seq<u8>>, EditError> {
        let range = self.intra_line_range;
        if range.start == range.end {
            Ok(None)
        } else if is_span(self.line(), range.start, range.end) {
            Ok(Some(self.line().subrange(range.start, range.end)))
        } else {
            Err(EditError::OutOfRange)
        }
    }

    /// The state after Cut: that after Delete where Copy hands something
    /// out, else the state as it is.
    pub open spec fn cut(self) -> Result<EditorState, EditError> {
        match self.copied() {
            Ok(Some(_)) => self.delete(),
            Ok(None) => Ok(self),
            Err(e) => Err(e),
        }
    }

    /// The byte offset of line `line` that a pointer position stands for: 0
    /// in an empty line, without a layout, and above the line; the line's
    /// length below it; else the index that the layout found.
    pub open spec fn index_for_mouse_position(self, line: int, hit: Option<MouseHit>) -> int {
        if self.lines[line].len() == 0 {
            0
        } else {
            match hit {
                None => 0,
                Some(MouseHit::Above) => 0,
                Some(MouseHit::Below) => self.lines[line].len() as int,
                Some(MouseHit::Within(at)) => at as int,
            }
        }
    }

    /// A press of the pointer on line `line`, at the offset that `hit`
    /// stands for: the focus goes to that line; with shift held the
    /// selection reaches to the offset, without it the caret goes there.
    /// Refused where the buffer has no such line or the line is shorter
    /// than the offset.
    pub open spec fn mouse_down(self, line: int, hit: Option<MouseHit>, shift: bool) -> Result<
        EditorState,
        EditError,
    > {
        let offset = self.index_for_mouse_position(line, hit);
        let focused = EditorState { focused_line: line, ..self };
        if line >= self.lines.len() || offset > self.lines[line].len() {
            Err(EditError::OutOfRange)
        } else if shift {
            Ok(focused.select_to(offset))
        } else {
            Ok(focused.move_to(offset))
        }
    }

    /// The pointer moved to the offset of the focused line that `hit`
    /// stands for: the selection follows it while a gesture is in progress.
    /// Refused where the line is shorter than the offset.
    pub open spec fn mouse_moved(self, hit: Option<MouseHit>) -> Result<EditorState, EditError> {
        let offset = self.index_for_mouse_position(self.focused_line, hit);
        if !self.is_extending {
            Ok(self)
        } else if offset > self.line().len() {
            Err(EditError::OutOfRange)
        } else {
            Ok(self.select_to(offset))
        }
    }

    /// The UTF-16 offset that stands for the byte offset `offset` of the
    /// focused line.
    pub open spec fn offset_to_utf16(self, offset: int) -> int {
        units_before(decode_utf8(self.line()), offset)
    }

    /// The UTF-16 range that stands for the byte range `range` of the
    /// focused line.
    pub open spec fn range_to_utf16(self, range: Span) -> Span {
        Span { start: self.offset_to_utf16(range.start), end: self.offset_to_utf16(range.end) }
    }

    /// The text of the focused line that the UTF-16 range `range_utf16`
    /// names, with the UTF-16 range that was in fact taken.
    pub open spec fn text_for_range(self, range_utf16: Span) -> Result<(Seq<u8>, Span), EditError> {
        let range = self.range_from_utf16(range_utf16.start, range_utf16.end);
        if is_span(self.line(), range.start, range.end) {
            Ok((self.line().subrange(range.start, range.end), self.range_to_utf16(range)))
        } else {
            Err(EditError::OutOfRange)
        }
    }

    /// Text put in by an input method that goes on composing: `text`
    /// replaces the range that `replaced_range` gives and becomes the
    /// composition. The selection becomes the range that the input method
    /// names, in UTF-16 code units of the new line, its start moved by the
    /// start of the replaced range and its end by the end of it; or the
    /// caret goes behind `text`. Refused where the replaced range is no span
    /// of the line, or where the selection would end before it begins or
    /// behind every offset that a machine word holds.
    pub open spec fn replace_and_mark_text_in_range(
        self,
        range_utf16: Option<Span>,
        text: Seq<u8>,
        new_selected_utf16: Option<Span>,
    ) -> Result<EditorState, EditError> {
        let range = self.replaced_range(range_utf16);
        let line = spliced(self.line(), range.start, range.end, text);
        let selected = match new_selected_utf16 {
            Some(r) => Span {
                start: bytes_within(decode_utf8(line), r.start) + range.start,
                end: bytes_within(decode_utf8(line), r.end) + range.end,
            },
            None => Span::at(range.start + text.len()),
        };
        if is_span(self.line(), range.start, range.end) && selected.start <= selected.end
            <= usize::MAX {
            Ok(
                EditorState {
                    lines: self.lines.update(self.focused_line, line),
                    marked_range: Some(Span { start: range.start, end: range.start + text.len() }),
                    intra_line_range: selected,
                    is_extending: selected.start < selected.end,
                    ..self.collapsed(0)
                },
            )
        } else {
            Err(EditError::OutOfRange)
        }
    }
}

/// Whether a command did what `expected` says: it succeeded and left the
/// state that `expected` holds, or it failed with the error that `expected`
/// holds and left the state as it was.
pub open spec fn follows(
    r: Result<(), EditError>,
    before: EditorState,
    after: EditorState,
    expected: Result<EditorState, EditError>,
) -> bool {
    match expected {
        Ok(s) => r is Ok && after == s,
        Err(e) => r == Err::<(), EditError>(e) && after == before,
    }
}

} // verus!
