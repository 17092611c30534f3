//! The line store: the ordered lines of the text that is being edited.

use crate::error::EditError;
use vstd::prelude::*;
use vstd::string::*;
use vstd::utf8::*;

verus! {

broadcast use encode_utf8_valid_utf8;

/// The UTF-8 bytes of each of `lines`, in order.
pub open spec fn bytes_of_lines(lines: Seq<String>) -> Seq<Seq<u8>> {
    Seq::new(lines.len(), |i: int| encode_utf8(lines[i]@))
}

/// What every buffer is: at least one line, each of them valid UTF-8. A text
/// without any character is one empty line.
pub open spec fn is_buffer(lines: Seq<Seq<u8>>) -> bool {
    &&& lines.len() >= 1
    &&& forall|i: int| 0 <= i < lines.len() ==> valid_utf8(#[trigger] lines[i])
}

/// The lines of a text, numbered from 0. Seen as the sequence of their UTF-8
/// bytes.
pub struct LineStore {
    lines: Vec<String>,
}

impl View for LineStore {
    type V = Seq<Seq<u8>>;

    closed spec fn view(&self) -> Seq<Seq<u8>> {
        bytes_of_lines(self.lines@)
    }
}

impl LineStore {
    /// Holds of every store that this module hands out.
    pub open spec fn wf(&self) -> bool {
        is_buffer(self@)
    }

    /// The store of an empty text.
    pub fn new() -> (store: Self)
        ensures
            store.wf(),
            store@ == seq![Seq::<u8>::empty()],
    {
        let mut lines: Vec<String> = Vec::new();
        lines.push(String::new());
        let store = LineStore { lines };
        assert(store@ =~= seq![Seq::<u8>::empty()]);
        store
    }

    /// The store of the given lines; of one empty line where none is given.
    pub fn from_lines(lines: Vec<String>) -> (store: Self)
        ensures
            store.wf(),
            store@ == if lines@.len() == 0 {
                seq![Seq::<u8>::empty()]
            } else {
                bytes_of_lines(lines@)
            },
    {
        if lines.len() == 0 {
            LineStore::new()
        } else {
            LineStore { lines }
        }
    }

    /// The lines, as text.
    pub fn lines(&self) -> (lines: &Vec<String>)
        ensures
            bytes_of_lines(lines@) == self@,
    {
        &self.lines
    }

    /// The number of lines.
    pub fn line_count(&self) -> (n: usize)
        ensures
            n == self@.len(),
    {
        self.lines.len()
    }

    /// The text of line `line`, for a caller that knows the line to exist.
    pub fn line(&self, line: usize) -> (text: &str)
        requires
            line < self@.len(),
        ensures
            text.spec_bytes() == self@[line as int],
    {
        self.lines[line].as_str()
    }

    /// The text of line `line`.
    pub fn get(&self, line: usize) -> (r: Result<&str, EditError>)
        ensures
            r is Ok <==> line < self@.len(),
            r is Ok ==> r->Ok_0.spec_bytes() == self@[line as int],
            r is Err ==> r->Err_0 == EditError::OutOfRange,
    {
        if line < self.lines.len() {
            Ok(self.lines[line].as_str())
        } else {
            Err(EditError::OutOfRange)
        }
    }

    /// Puts `text` in the place of line `line`.
    pub fn replace(&mut self, line: usize, text: String) -> (r: Result<(), EditError>)
        requires
            old(self).wf(),
        ensures
            final(self).wf(),
            r is Ok <==> line < old(self)@.len(),
            r is Ok ==> final(self)@ == old(self)@.update(line as int, encode_utf8(text@)),
            r is Err ==> r->Err_0 == EditError::OutOfRange && final(self)@ == old(self)@,
    {
        if line < self.lines.len() {
            self.lines.set(line, text);
            assert(self@ =~= old(self)@.update(line as int, encode_utf8(text@)));
            Ok(())
        } else {
            Err(EditError::OutOfRange)
        }
    }

    /// Makes `text` the line `at`; the lines from `at` on move down by one.
    /// `at` may be the line count, which appends.
    pub fn insert_line(&mut self, at: usize, text: String) -> (r: Result<(), EditError>)
        requires
            old(self).wf(),
        ensures
            final(self).wf(),
            r is Ok <==> at <= old(self)@.len(),
            r is Ok ==> final(self)@ == old(self)@.insert(at as int, encode_utf8(text@)),
            r is Err ==> r->Err_0 == EditError::OutOfRange && final(self)@ == old(self)@,
    {
        if at <= self.lines.len() {
            self.lines.insert(at, text);
            assert(self@ =~= old(self)@.insert(at as int, encode_utf8(text@)));
            Ok(())
        } else {
            Err(EditError::OutOfRange)
        }
    }

    /// Takes line `at` out and returns its text; the lines after it move up
    /// by one. The only line of a store stays: a buffer is never without one.
    pub fn remove_line(&mut self, at: usize) -> (r: Result<String, EditError>)
        requires
            old(self).wf(),
        ensures
            final(self).wf(),
            r is Ok <==> at < old(self)@.len() && old(self)@.len() > 1,
            r is Ok ==> final(self)@ == old(self)@.remove(at as int) && encode_utf8(r->Ok_0@)
                == old(self)@[at as int],
            r is Err ==> r->Err_0 == EditError::OutOfRange && final(self)@ == old(self)@,
    {
        if at < self.lines.len() && self.lines.len() > 1 {
            let text = self.lines.remove(at);
            assert(self@ =~= old(self)@.remove(at as int));
            Ok(text)
        } else {
            Err(EditError::OutOfRange)
        }
    }
}

} // verus!
