//! Positions within one line: grapheme-cluster boundaries, and the
//! conversion between byte offsets and offsets in UTF-16 code units.

use crate::text::byte_len;
use unicode_segmentation::UnicodeSegmentation;
use vstd::prelude::*;
use vstd::std_specs::iter::IteratorSpec;
use vstd::string::*;
use vstd::utf8::*;

verus! {

/// The byte offsets at which the extended grapheme clusters of `text` begin,
/// in the order of the text. Which offsets these are is decided by the rules
/// of Unicode text segmentation, which this library does not restate.
pub uninterp spec fn grapheme_starts(text: Seq<char>) -> Seq<usize>;

/// Asks `UnicodeSegmentation::grapheme_indices` for the extended grapheme
/// clusters of `line` and keeps the byte offset of each. Taken on trust: the
/// offsets depend on the text alone, and each is the offset of a non-empty
/// piece of `line`, so it lies before the line's end.
#[verifier::external_body]
fn grapheme_offsets(line: &str) -> (starts: Vec<usize>)
    ensures
        starts@ == grapheme_starts(line@),
        forall|i: int| 0 <= i < starts@.len() ==> (#[trigger] starts@[i]) < line.spec_bytes().len(),
{
    line.grapheme_indices(true).map(|(at, _)| at).collect()
}

/// The greatest of `starts` that is less than `offset`, if there is one.
pub open spec fn greatest_below(starts: Seq<usize>, offset: int) -> Option<int>
    decreases starts.len(),
{
    if starts.len() == 0 {
        None
    } else {
        let rest = greatest_below(starts.drop_last(), offset);
        let s = starts.last() as int;
        if s < offset && (rest is None || rest->0 < s) {
            Some(s)
        } else {
            rest
        }
    }
}

/// The least of `starts` that is greater than `offset`, if there is one.
pub open spec fn least_above(starts: Seq<usize>, offset: int) -> Option<int>
    decreases starts.len(),
{
    if starts.len() == 0 {
        None
    } else {
        let rest = least_above(starts.drop_last(), offset);
        let s = starts.last() as int;
        if offset < s && (rest is None || s < rest->0) {
            Some(s)
        } else {
            rest
        }
    }
}

/// The boundary to the left of `offset`: the greatest of `starts` that is
/// less than `offset`, and 0 where there is none.
pub open spec fn boundary_before(starts: Seq<usize>, offset: int) -> int {
    match greatest_below(starts, offset) {
        Some(s) => s,
        None => 0,
    }
}

/// The boundary to the right of `offset`: the least of `starts` that is
/// greater than `offset`, and `end` where there is none.
pub open spec fn boundary_after(starts: Seq<usize>, offset: int, end: int) -> int {
    match least_above(starts, offset) {
        Some(s) => s,
        None => end,
    }
}

/// `greatest_below` is what its name says.
pub proof fn lemma_greatest_below(starts: Seq<usize>, offset: int)
    ensures
        match greatest_below(starts, offset) {
            Some(s) => {
                &&& s < offset
                &&& exists|i: int| 0 <= i < starts.len() && starts[i] == s
                &&& forall|i: int| 0 <= i < starts.len() && starts[i] < offset ==> starts[i] <= s
            },
            None => forall|i: int| 0 <= i < starts.len() ==> starts[i] >= offset,
        },
    decreases starts.len(),
{
    if starts.len() > 0 {
        let front = starts.drop_last();
        lemma_greatest_below(front, offset);
        let last = starts.len() - 1;
        match greatest_below(starts, offset) {
            Some(s) => {
                if s == starts.last() {
                    assert(starts[last] == s);
                } else {
                    let i = choose|i: int| 0 <= i < front.len() && front[i] == s;
                    assert(starts[i] == s);
                }
                assert forall|i: int| 0 <= i < starts.len() && starts[i] < offset implies starts[i]
                    <= s by {
                    if i < last {
                        assert(front[i] == starts[i]);
                    }
                }
            },
            None => {
                assert forall|i: int| 0 <= i < starts.len() implies starts[i] >= offset by {
                    if i < last {
                        assert(front[i] == starts[i]);
                    }
                }
            },
        }
    }
}

/// `least_above` is what its name says.
pub proof fn lemma_least_above(starts: Seq<usize>, offset: int)
    ensures
        match least_above(starts, offset) {
            Some(s) => {
                &&& offset < s
                &&& exists|i: int| 0 <= i < starts.len() && starts[i] == s
                &&& forall|i: int| 0 <= i < starts.len() && offset < starts[i] ==> s <= starts[i]
            },
            None => forall|i: int| 0 <= i < starts.len() ==> starts[i] <= offset,
        },
    decreases starts.len(),
{
    if starts.len() > 0 {
        let front = starts.drop_last();
        lemma_least_above(front, offset);
        let last = starts.len() - 1;
        match least_above(starts, offset) {
            Some(s) => {
                if s == starts.last() {
                    assert(starts[last] == s);
                } else {
                    let i = choose|i: int| 0 <= i < front.len() && front[i] == s;
                    assert(starts[i] == s);
                }
                assert forall|i: int| 0 <= i < starts.len() && offset < starts[i] implies s
                    <= starts[i] by {
                    if i < last {
                        assert(front[i] == starts[i]);
                    }
                }
            },
            None => {
                assert forall|i: int| 0 <= i < starts.len() implies starts[i] <= offset by {
                    if i < last {
                        assert(front[i] == starts[i]);
                    }
                }
            },
        }
    }
}

/// The boundary to the left of an offset is to its left, or is 0.
pub proof fn lemma_boundary_before_bounds(starts: Seq<usize>, offset: int)
    ensures
        0 <= boundary_before(starts, offset),
        boundary_before(starts, offset) < offset || boundary_before(starts, offset) == 0,
{
    lemma_greatest_below(starts, offset);
}

/// Where every boundary lies before `end`, the boundary to the right of an
/// offset is to its right and at most `end`, or is `end`.
pub proof fn lemma_boundary_after_bounds(starts: Seq<usize>, offset: int, end: int)
    requires
        forall|i: int| 0 <= i < starts.len() ==> starts[i] < end,
    ensures
        boundary_after(starts, offset, end) <= end,
        offset < boundary_after(starts, offset, end) || boundary_after(starts, offset, end) == end,
        end <= offset ==> boundary_after(starts, offset, end) == end,
{
    lemma_least_above(starts, offset);
}

/// The boundary to the left of `offset` among `starts`.
pub fn boundary_before_in(starts: &Vec<usize>, offset: usize) -> (r: usize)
    ensures
        r == boundary_before(starts@, offset as int),
{
    let mut best: Option<usize> = None;
    let mut i: usize = 0;
    proof {
        assert(starts@.take(0) =~= Seq::<usize>::empty());
    }
    while i < starts.len()
        invariant
            i <= starts.len(),
            match best {
                Some(s) => greatest_below(starts@.take(i as int), offset as int) == Some(s as int),
                None => greatest_below(starts@.take(i as int), offset as int) is None,
            },
        decreases starts.len() - i,
    {
        proof {
            assert(starts@.take(i + 1).drop_last() =~= starts@.take(i as int));
        }
        let s = starts[i];
        let better = match best {
            Some(b) => b < s,
            None => true,
        };
        if s < offset && better {
            best = Some(s);
        }
        i = i + 1;
    }
    proof {
        assert(starts@.take(starts@.len() as int) =~= starts@);
    }
    match best {
        Some(s) => s,
        None => 0,
    }
}

/// The boundary to the right of `offset` among `starts`, with `end` for the
/// case that there is none.
pub fn boundary_after_in(starts: &Vec<usize>, offset: usize, end: usize) -> (r: usize)
    ensures
        r == boundary_after(starts@, offset as int, end as int),
{
    let mut best: Option<usize> = None;
    let mut i: usize = 0;
    proof {
        assert(starts@.take(0) =~= Seq::<usize>::empty());
    }
    while i < starts.len()
        invariant
            i <= starts.len(),
            match best {
                Some(s) => least_above(starts@.take(i as int), offset as int) == Some(s as int),
                None => least_above(starts@.take(i as int), offset as int) is None,
            },
        decreases starts.len() - i,
    {
        proof {
            assert(starts@.take(i + 1).drop_last() =~= starts@.take(i as int));
        }
        let s = starts[i];
        let better = match best {
            Some(b) => s < b,
            None => true,
        };
        if offset < s && better {
            best = Some(s);
        }
        i = i + 1;
    }
    proof {
        assert(starts@.take(starts@.len() as int) =~= starts@);
    }
    match best {
        Some(s) => s,
        None => end,
    }
}

/// The grapheme boundary to the left of the byte offset `offset` of a line
/// with the bytes `line`.
pub open spec fn previous_boundary(line: Seq<u8>, offset: int) -> int {
    boundary_before(grapheme_starts(decode_utf8(line)), offset)
}

/// The grapheme boundary to the right of the byte offset `offset` of a line
/// with the bytes `line`.
pub open spec fn next_boundary(line: Seq<u8>, offset: int) -> int {
    boundary_after(grapheme_starts(decode_utf8(line)), offset, line.len() as int)
}

/// The greatest byte offset less than `offset` at which a grapheme cluster of
/// `line` begins; 0 where there is none.
pub fn previous_grapheme_boundary(line: &str, offset: usize) -> (r: usize)
    ensures
        r == previous_boundary(line.spec_bytes(), offset as int),
        r < offset || r == 0,
{
    broadcast use encode_utf8_decode_utf8;

    let starts = grapheme_offsets(line);
    proof {
        lemma_boundary_before_bounds(starts@, offset as int);
    }
    boundary_before_in(&starts, offset)
}

/// The least byte offset greater than `offset` at which a grapheme cluster of
/// `line` begins; the length of `line` where there is none.
pub fn next_grapheme_boundary(line: &str, offset: usize) -> (r: usize)
    ensures
        r == next_boundary(line.spec_bytes(), offset as int),
        r <= line.spec_bytes().len(),
        offset < r || r == line.spec_bytes().len(),
{
    broadcast use encode_utf8_decode_utf8;

    let starts = grapheme_offsets(line);
    let end = byte_len(line);
    proof {
        lemma_boundary_after_bounds(starts@, offset as int, end as int);
    }
    boundary_after_in(&starts, offset, end)
}

/// The number of bytes that `c` takes in UTF-8.
pub open spec fn utf8_width(c: char) -> int {
    encode_scalar(c as u32).len() as int
}

/// The number of code units that `c` takes in UTF-16.
pub open spec fn utf16_width(c: char) -> int {
    if (c as u32) < 0x10000 {
        1
    } else {
        2
    }
}

/// The UTF-16 offset that stands for the byte offset `offset` of `text`: the
/// UTF-16 width of the leading characters that begin before that byte
/// offset. An offset inside a character counts that character in.
pub open spec fn units_before(text: Seq<char>, offset: int) -> int
    decreases text.len(),
{
    if text.len() == 0 || offset <= 0 {
        0
    } else {
        utf16_width(text[0]) + units_before(text.drop_first(), offset - utf8_width(text[0]))
    }
}

/// The byte offset that stands for the UTF-16 offset `units` of `text`: the
/// UTF-8 width of the longest run of whole leading characters that `units`
/// code units hold. An offset inside a character is thereby rounded down to
/// where the character begins.
pub open spec fn bytes_within(text: Seq<char>, units: int) -> int
    decreases text.len(),
{
    if text.len() == 0 || units < utf16_width(text[0]) {
        0
    } else {
        utf8_width(text[0]) + bytes_within(text.drop_first(), units - utf16_width(text[0]))
    }
}

/// The number of bytes that `c` takes in UTF-8.
pub fn char_len_utf8(c: char) -> (n: usize)
    ensures
        n == utf8_width(c),
        1 <= n <= 4,
{
    let v: u32 = c as u32;
    if v < 0x80 {
        1
    } else if v < 0x800 {
        2
    } else if v < 0x10000 {
        3
    } else {
        4
    }
}

/// The number of code units that `c` takes in UTF-16.
pub fn char_len_utf16(c: char) -> (n: usize)
    ensures
        n == utf16_width(c),
        1 <= n <= 2,
{
    let v: u32 = c as u32;
    if v < 0x10000 {
        1
    } else {
        2
    }
}

/// A character takes no more code units in UTF-16 than bytes in UTF-8.
pub proof fn lemma_widths(c: char)
    ensures
        1 <= utf16_width(c) <= utf8_width(c) <= 4,
{
    char_is_scalar(c);
}

/// A byte offset made from a UTF-16 offset lies within the text.
pub proof fn lemma_bytes_within_bounds(text: Seq<char>, units: int)
    ensures
        0 <= bytes_within(text, units) <= encode_utf8(text).len(),
    decreases text.len(),
{
    if text.len() == 0 || units < utf16_width(text[0]) {
    } else {
        lemma_widths(text[0]);
        lemma_bytes_within_bounds(text.drop_first(), units - utf16_width(text[0]));
    }
}

/// A byte offset made from a UTF-16 offset lies between two characters of
/// the text, never inside one.
pub proof fn lemma_bytes_within_is_boundary(text: Seq<char>, units: int)
    ensures
        is_char_boundary(encode_utf8(text), bytes_within(text, units)),
    decreases text.len(),
{
    let bytes = encode_utf8(text);
    encode_utf8_valid_utf8(text);
    if text.len() == 0 || units < utf16_width(text[0]) {
    } else {
        let rest = text.drop_first();
        lemma_widths(text[0]);
        lemma_bytes_within_is_boundary(rest, units - utf16_width(text[0]));
        lemma_bytes_within_bounds(rest, units - utf16_width(text[0]));
        encode_utf8_first_scalar(text);
        assert(pop_first_scalar(bytes) =~= encode_utf8(rest));
    }
}

/// A UTF-16 offset made from a byte offset is no greater than the text is
/// long in bytes.
pub proof fn lemma_units_before_bounds(text: Seq<char>, offset: int)
    ensures
        0 <= units_before(text, offset) <= encode_utf8(text).len(),
    decreases text.len(),
{
    if text.len() == 0 || offset <= 0 {
    } else {
        lemma_widths(text[0]);
        lemma_units_before_bounds(text.drop_first(), offset - utf8_width(text[0]));
    }
}

/// The byte offset of `line` that stands for the UTF-16 offset
/// `unit_offset`. An offset inside a character is rounded down to where the
/// character begins; an offset behind the line gives the line's length.
pub fn unit16_to_byte(line: &str, unit_offset: usize) -> (offset: usize)
    ensures
        offset == bytes_within(line@, unit_offset as int),
        offset <= line.spec_bytes().len(),
        is_char_boundary(line.spec_bytes(), offset as int),
{
    broadcast use group_string_axioms;

    let len: usize = byte_len(line);
    let mut it = line.chars();
    let mut bytes: usize = 0;
    let mut left: usize = unit_offset;
    proof {
        lemma_bytes_within_bounds(line@, unit_offset as int);
        lemma_bytes_within_is_boundary(line@, unit_offset as int);
    }
    loop
        invariant
            it.obeys_prophetic_iter_laws(),
            it.decrease() is Some,
            bytes_within(line@, unit_offset as int) == bytes + bytes_within(
                it.remaining(),
                left as int,
            ),
            bytes_within(line@, unit_offset as int) <= len,
            is_char_boundary(line.spec_bytes(), bytes_within(line@, unit_offset as int)),
            len == line.spec_bytes().len(),
        decreases it.decrease()->0,
    {
        let ghost before = it.remaining();
        match it.next() {
            None => {
                return bytes;
            },
            Some(c) => {
                let w: usize = char_len_utf16(c);
                if left < w {
                    return bytes;
                }
                proof {
                    lemma_bytes_within_bounds(before.drop_first(), left - w);
                }
                left = left - w;
                bytes = bytes + char_len_utf8(c);
            },
        }
    }
}

/// The UTF-16 offset that stands for the byte offset `byte_offset` of
/// `line`. An offset inside a character counts that character in; an offset
/// behind the line gives the line's length in code units.
pub fn byte_to_unit16(line: &str, byte_offset: usize) -> (units: usize)
    ensures
        units == units_before(line@, byte_offset as int),
        units <= line.spec_bytes().len(),
{
    broadcast use group_string_axioms;

    let len: usize = byte_len(line);
    let mut it = line.chars();
    let mut units: usize = 0;
    let mut left: usize = byte_offset;
    proof {
        lemma_units_before_bounds(line@, byte_offset as int);
    }
    loop
        invariant
            it.obeys_prophetic_iter_laws(),
            it.decrease() is Some,
            units_before(line@, byte_offset as int) == units + units_before(
                it.remaining(),
                left as int,
            ),
            units_before(line@, byte_offset as int) <= len,
            len == line.spec_bytes().len(),
        decreases it.decrease()->0,
    {
        let ghost before = it.remaining();
        if left == 0 {
            return units;
        }
        match it.next() {
            None => {
                return units;
            },
            Some(c) => {
                let w: usize = char_len_utf8(c);
                proof {
                    lemma_units_before_bounds(before.drop_first(), left - w);
                }
                units = units + char_len_utf16(c);
                left = if left < w {
                    0
                } else {
                    left - w
                };
            },
        }
    }
}

} // verus!
