//! What holds of the editor's commands: each keeps the state well formed,
//! and some leave it as it is.

use crate::boundary::{
    grapheme_starts, lemma_boundary_before_bounds, lemma_least_above, next_boundary,
    previous_boundary,
};
use crate::buffer::is_buffer;
use crate::state::{EditorState, Span};
use crate::text::{lemma_boundary_in_line, spliced};
use vstd::prelude::*;
use vstd::utf8::*;

verus! {

/// An editor that has just opened a buffer is well formed.
pub proof fn lemma_initial_wf(open_file: Seq<char>, lines: Seq<Seq<u8>>)
    requires
        is_buffer(lines),
    ensures
        EditorState::initial(open_file, lines).wf(),
{
}

/// Putting the caret at an offset keeps the state well formed.
pub proof fn lemma_move_to_wf(s: EditorState, offset: int)
    requires
        s.wf(),
        0 <= offset,
    ensures
        s.collapsed(offset).wf(),
        s.move_to(offset).wf(),
        s.move_to(offset).caret() == offset,
        !s.move_to(offset).has_selection(),
{
}

/// Extending the selection to an offset keeps the state well formed.
pub proof fn lemma_select_to_wf(s: EditorState, offset: int)
    requires
        s.wf(),
        0 <= offset,
    ensures
        s.select_to(offset).wf(),
        s.select_to(offset).caret() == offset,
        s.select_to(offset).anchor() == s.anchor(),
{
}

/// Moving the focus to a line of the buffer keeps the state well formed.
pub proof fn lemma_moved_to_line_wf(s: EditorState, line: int)
    requires
        s.wf(),
        0 <= line < s.lines.len(),
    ensures
        s.moved_to_line(line).wf(),
{
}

/// Extending the selection to a line of the buffer keeps the state well
/// formed.
pub proof fn lemma_selected_to_line_wf(s: EditorState, line: int)
    requires
        s.wf(),
        0 <= line < s.lines.len(),
    ensures
        s.selected_to_line(line).wf(),
{
}

/// The boundary to the right of an offset that is not negative is not
/// negative.
pub proof fn lemma_next_boundary_nonnegative(line: Seq<u8>, offset: int)
    requires
        0 <= offset,
    ensures
        0 <= next_boundary(line, offset),
{
    lemma_least_above(grapheme_starts(decode_utf8(line)), offset);
}

/// The commands that move the caret or extend the selection keep the state
/// well formed.
pub proof fn lemma_navigation_wf(s: EditorState)
    requires
        s.wf(),
    ensures
        s.up().wf(),
        s.down().wf(),
        s.left().wf(),
        s.right().wf(),
        s.select_left().wf(),
        s.select_right().wf(),
        s.select_up().wf(),
        s.select_down().wf(),
        s.select_all().wf(),
        s.home().wf(),
        s.end().wf(),
        s.gesture_ended().wf(),
{
    lemma_boundary_before_bounds(grapheme_starts(decode_utf8(s.line())), s.caret());
    lemma_moved_to_line_wf(s, s.line_above());
    lemma_moved_to_line_wf(s, s.line_below());
    lemma_selected_to_line_wf(s, s.line_above());
    lemma_selected_to_line_wf(s, s.line_below());
    lemma_next_boundary_nonnegative(s.line(), s.caret());
    lemma_select_to_wf(s, previous_boundary(s.line(), s.caret()));
    lemma_select_to_wf(s, next_boundary(s.line(), s.caret()));
    lemma_move_to_wf(s, 0);
    lemma_select_to_wf(s.move_to(0), s.line().len() as int);
}

/// Cutting a span out of lines of the buffer keeps the state well formed
/// and leaves nothing selected.
pub proof fn lemma_cut_out_wf(s: EditorState, touched: Span, doomed: Span)
    requires
        s.wf(),
        0 <= touched.start < touched.end <= s.lines.len(),
    ensures
        s.cut_out(touched, doomed) is Ok ==> s.cut_out(touched, doomed)->Ok_0.wf() && !s.cut_out(
            touched,
            doomed,
        )->Ok_0.has_selection(),
{
    if s.cut_out(touched, doomed) is Ok {
        let t = s.cut_out(touched, doomed)->Ok_0;
        let first = touched.start;
        let last = touched.end - 1;
        if first == last {
            let span = doomed.ordered();
            let line = s.lines[first];
            lemma_boundary_in_line(line, span.start);
            lemma_boundary_in_line(line, span.end);
            valid_utf8_split(line, span.start);
            valid_utf8_split(line, span.end);
            valid_utf8_concat(line.subrange(0, span.start), Seq::<u8>::empty());
            valid_utf8_concat(
                line.subrange(0, span.start) + Seq::<u8>::empty(),
                line.subrange(span.end, line.len() as int),
            );
            assert(is_buffer(t.lines));
        } else {
            lemma_boundary_in_line(s.lines[first], doomed.start);
            lemma_boundary_in_line(s.lines[last], doomed.end);
            valid_utf8_split(s.lines[first], doomed.start);
            valid_utf8_split(s.lines[last], doomed.end);
            assert forall|i: int| 0 <= i < t.lines.len() implies valid_utf8(
                #[trigger] t.lines[i],
            ) by {
                if i < first {
                    assert(t.lines[i] == s.lines[i]);
                } else if i == first {
                } else if i == first + 1 && t.lines.len() == first + 2 + (s.lines.len() - last
                    - 1) {
                } else {
                    let j = i - t.lines.len() + s.lines.len();
                    assert(t.lines[i] == s.lines[j]);
                }
            }
            assert(is_buffer(t.lines));
        }
    }
}

/// Deleting the selection keeps the state well formed.
pub proof fn lemma_delete_selection_wf(s: EditorState)
    requires
        s.wf(),
    ensures
        s.delete_selection() is Ok ==> s.delete_selection()->Ok_0.wf(),
{
    lemma_cut_out_wf(s, s.selected_lines(), s.doomed_range());
}

/// Backspace keeps the state well formed.
pub proof fn lemma_backspace_wf(s: EditorState)
    requires
        s.wf(),
    ensures
        s.backspace() is Ok ==> s.backspace()->Ok_0.wf(),
{
    if s.joins_lines() {
        let above = s.focused_line - 1;
        valid_utf8_concat(s.lines[above], s.line());
        let t = s.backspace()->Ok_0;
        assert(is_buffer(t.lines));
    } else if !s.is_extending {
        lemma_boundary_before_bounds(grapheme_starts(decode_utf8(s.line())), s.caret());
        let picked = s.picked_to(previous_boundary(s.line(), s.caret()));
        assert(picked.wf());
        lemma_delete_selection_wf(picked);
    } else {
        lemma_delete_selection_wf(s);
    }
}

/// Delete keeps the state well formed.
pub proof fn lemma_delete_wf(s: EditorState)
    requires
        s.wf(),
    ensures
        s.delete() is Ok ==> s.delete()->Ok_0.wf(),
{
    if !s.has_selection() {
        lemma_next_boundary_nonnegative(s.line(), s.caret());
        let picked = s.picked_to(next_boundary(s.line(), s.caret()));
        assert(picked.wf());
        lemma_delete_selection_wf(picked);
    } else {
        lemma_delete_selection_wf(s);
    }
}

/// Enter keeps the state well formed.
pub proof fn lemma_enter_wf(s: EditorState)
    requires
        s.wf(),
    ensures
        s.enter() is Ok ==> s.enter()->Ok_0.wf(),
{
    if s.enter() is Ok {
        valid_utf8_split(s.line(), s.caret());
        let t = s.enter()->Ok_0;
        assert(is_buffer(t.lines));
    }
}

/// Putting valid text in keeps the state well formed.
pub proof fn lemma_replace_text_wf(s: EditorState, range_utf16: Option<Span>, text: Seq<u8>)
    requires
        s.wf(),
        valid_utf8(text),
    ensures
        s.replace_text_in_range(range_utf16, text) is Ok ==> s.replace_text_in_range(
            range_utf16,
            text,
        )->Ok_0.wf(),
{
    if s.replace_text_in_range(range_utf16, text) is Ok {
        let range = s.replaced_range(range_utf16);
        let line = s.line();
        lemma_boundary_in_line(line, range.start);
        lemma_boundary_in_line(line, range.end);
        valid_utf8_split(line, range.start);
        valid_utf8_split(line, range.end);
        valid_utf8_concat(line.subrange(0, range.start), text);
        valid_utf8_concat(
            line.subrange(0, range.start) + text,
            line.subrange(range.end, line.len() as int),
        );
        let t = s.replace_text_in_range(range_utf16, text)->Ok_0;
        assert(is_buffer(t.lines));
    }
}

/// Emptying the focused line keeps the state well formed.
pub proof fn lemma_reset_wf(s: EditorState)
    requires
        s.wf(),
    ensures
        s.reset().wf(),
{
    assert(valid_utf8(Seq::<u8>::empty()));
    assert(is_buffer(s.reset().lines));
}

/// Home brings the caret to column 0 and leaves nothing selected, and a
/// second Home changes nothing more.
pub proof fn lemma_home_twice(s: EditorState)
    requires
        s.wf(),
    ensures
        s.home().caret() == 0,
        !s.home().has_selection(),
        s.home().home() == s.home(),
        s.home().lines == s.lines,
        s.home().focused_line == s.focused_line,
{
}

/// Backspace at the start of the first line, with nothing selected or
/// composed, changes neither the lines nor the place of the caret.
pub proof fn lemma_backspace_at_origin(s: EditorState)
    requires
        s.wf(),
    ensures
        s.focused_line == 0 && s.caret() == 0 && !s.has_selection() && s.marked_range is None ==> {
            &&& s.backspace() is Ok
            &&& s.backspace()->Ok_0.lines == s.lines
            &&& s.backspace()->Ok_0.focused_line == 0
            &&& s.backspace()->Ok_0.caret() == 0
            &&& !s.backspace()->Ok_0.has_selection()
        },
{
    if s.focused_line == 0 && s.caret() == 0 && !s.has_selection() && s.marked_range is None {
        lemma_boundary_before_bounds(grapheme_starts(decode_utf8(s.line())), s.caret());
        let line = s.lines[0];
        assert(is_char_boundary(line, 0));
        assert(spliced(line, 0, 0, Seq::<u8>::empty()) =~= line);
        assert(s.backspace()->Ok_0.lines =~= s.lines);
    }
}

/// Delete at the end of a line, with nothing selected or composed, changes
/// neither the lines nor the place of the caret, given that no grapheme
/// cluster begins behind the end of the line.
pub proof fn lemma_delete_at_line_end(s: EditorState)
    requires
        s.wf(),
        next_boundary(s.line(), s.caret()) == s.line().len(),
    ensures
        s.caret() == s.line().len() && !s.has_selection() && s.marked_range is None ==> {
            &&& s.delete() is Ok
            &&& s.delete()->Ok_0.lines == s.lines
            &&& s.delete()->Ok_0.focused_line == s.focused_line
            &&& s.delete()->Ok_0.caret() == s.caret()
            &&& !s.delete()->Ok_0.has_selection()
        },
{
    if s.caret() == s.line().len() && !s.has_selection() && s.marked_range is None {
        let line = s.line();
        let end = line.len() as int;
        is_char_boundary_start_end_of_seq(line);
        assert(spliced(line, end, end, Seq::<u8>::empty()) =~= line);
        assert(s.delete()->Ok_0.lines =~= s.lines);
    }
}

} // verus!
