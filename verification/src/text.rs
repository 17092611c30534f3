//! Lines as UTF-8 byte sequences: where a line may be cut, and what comes of
//! cutting and joining.

use crate::error::EditError;
use vstd::prelude::*;
use vstd::string::*;
use vstd::utf8::*;

verus! {

/// The byte that ends a line in a file.
pub const LINE_FEED: u8 = 10;

/// The byte of a space.
pub const SPACE: u8 = 32;

/// Whether `start..end` is a byte span of `line` that begins and ends between
/// two characters (or at an end of the line).
pub open spec fn is_span(line: Seq<u8>, start: int, end: int) -> bool {
    &&& start <= end
    &&& is_char_boundary(line, start)
    &&& is_char_boundary(line, end)
}

/// `line` with the bytes of `start..end` replaced by `text`.
pub open spec fn spliced(line: Seq<u8>, start: int, end: int, text: Seq<u8>) -> Seq<u8> {
    line.subrange(0, start) + text + line.subrange(end, line.len() as int)
}

/// Encoding distributes over concatenation.
pub proof fn lemma_encode_concat(a: Seq<char>, b: Seq<char>)
    ensures
        encode_utf8(a + b) == encode_utf8(a) + encode_utf8(b),
    decreases a.len(),
{
    if a.len() == 0 {
        assert(a + b =~= b);
        assert(encode_utf8(a) + encode_utf8(b) =~= encode_utf8(b));
    } else {
        lemma_encode_concat(a.drop_first(), b);
        assert((a + b).drop_first() =~= a.drop_first() + b);
        assert(encode_utf8(a + b) =~= encode_utf8(a) + encode_utf8(b));
    }
}

/// A character boundary lies within the line.
pub proof fn lemma_boundary_in_line(line: Seq<u8>, at: int)
    requires
        valid_utf8(line),
        is_char_boundary(line, at),
    ensures
        0 <= at <= line.len(),
{
    reveal_with_fuel(is_char_boundary, 2);
}

/// A character boundary of a line that lies within one of its leading spans
/// is a character boundary of that span.
pub proof fn lemma_boundary_in_prefix(line: Seq<u8>, end: int, at: int)
    requires
        valid_utf8(line),
        is_char_boundary(line, end),
        is_char_boundary(line, at),
        at <= end,
    ensures
        valid_utf8(line.subrange(0, end)),
        is_char_boundary(line.subrange(0, end), at),
{
    lemma_boundary_in_line(line, end);
    lemma_boundary_in_line(line, at);
    let head = line.subrange(0, end);
    valid_utf8_split(line, end);
    if at == end {
        is_char_boundary_start_end_of_seq(head);
    } else {
        is_char_boundary_iff_not_is_continuation_byte(line, at);
        is_char_boundary_iff_not_is_continuation_byte(head, at);
    }
}

/// Behind a byte that is a character of its own lies a character boundary.
pub proof fn lemma_boundary_after_ascii(line: Seq<u8>, at: int)
    requires
        valid_utf8(line),
        0 <= at < line.len(),
        line[at] < 0x80,
    ensures
        is_char_boundary(line, at),
        is_char_boundary(line, at + 1),
{
    is_char_boundary_iff_is_leading_byte(line, at);
    if at + 1 == line.len() {
        is_char_boundary_start_end_of_seq(line);
    } else {
        valid_utf8_split(line, at);
        let tail = line.subrange(at, line.len() as int);
        assert(tail[0] == line[at]);
        let rest = pop_first_scalar(tail);
        assert(valid_utf8(rest));
        assert(rest.len() > 0);
        assert(rest[0] == line[at + 1]);
        assert(valid_first_scalar(rest));
        is_char_boundary_iff_not_is_continuation_byte(line, at + 1);
    }
}

/// The length of `line` in bytes.
pub fn byte_len(line: &str) -> (n: usize)
    ensures
        n == line.spec_bytes().len(),
{
    line.as_bytes().len()
}

/// The text of `line` before the byte offset `at`.
pub fn text_before(line: &str, at: usize) -> (r: Result<String, EditError>)
    ensures
        r is Ok <==> is_char_boundary(line.spec_bytes(), at as int),
        r is Ok ==> encode_utf8(r->Ok_0@) == line.spec_bytes().subrange(0, at as int),
{
    if !line.is_char_boundary(at) {
        return Err(EditError::OutOfRange);
    }
    let (head, _) = line.split_at(at);
    Ok(head.to_owned())
}

/// The text of `line` from the byte offset `at` on.
pub fn text_after(line: &str, at: usize) -> (r: Result<String, EditError>)
    ensures
        r is Ok <==> is_char_boundary(line.spec_bytes(), at as int),
        r is Ok ==> encode_utf8(r->Ok_0@) == line.spec_bytes().subrange(
            at as int,
            line.spec_bytes().len() as int,
        ),
{
    if !line.is_char_boundary(at) {
        return Err(EditError::OutOfRange);
    }
    let (_, tail) = line.split_at(at);
    Ok(tail.to_owned())
}

/// `first` followed by `second`.
pub fn joined(first: &str, second: &str) -> (r: String)
    ensures
        encode_utf8(r@) == first.spec_bytes() + second.spec_bytes(),
{
    proof {
        lemma_encode_concat(first@, second@);
    }
    first.to_owned().concat(second)
}

/// `line` with the bytes of `start..end` replaced by `text`; refused unless
/// the span begins and ends between characters of `line`.
pub fn splice(line: &str, start: usize, end: usize, text: &str) -> (r: Result<String, EditError>)
    ensures
        r is Ok <==> is_span(line.spec_bytes(), start as int, end as int),
        r is Ok ==> encode_utf8(r->Ok_0@) == spliced(
            line.spec_bytes(),
            start as int,
            end as int,
            text.spec_bytes(),
        ),
{
    if start > end || !line.is_char_boundary(start) || !line.is_char_boundary(end) {
        return Err(EditError::OutOfRange);
    }
    let (head, _) = line.split_at(start);
    let (_, tail) = line.split_at(end);
    let r = head.to_owned().concat(text).concat(tail);
    proof {
        lemma_encode_concat(head@, text@);
        lemma_encode_concat(head@ + text@, tail@);
    }
    Ok(r)
}

/// The text of `line` between the byte offsets `start` and `end`; refused
/// unless the span begins and ends between characters of `line`.
pub fn text_between(line: &str, start: usize, end: usize) -> (r: Result<String, EditError>)
    ensures
        r is Ok <==> is_span(line.spec_bytes(), start as int, end as int),
        r is Ok ==> encode_utf8(r->Ok_0@) == line.spec_bytes().subrange(start as int, end as int),
        r is Err ==> r->Err_0 == EditError::OutOfRange,
{
    broadcast use encode_utf8_valid_utf8;

    if start > end || !line.is_char_boundary(start) || !line.is_char_boundary(end) {
        return Err(EditError::OutOfRange);
    }
    proof {
        lemma_boundary_in_prefix(line.spec_bytes(), end as int, start as int);
        lemma_boundary_in_line(line.spec_bytes(), end as int);
    }
    let (head, _) = line.split_at(end);
    let (_, piece) = head.split_at(start);
    proof {
        assert(piece.spec_bytes() =~= line.spec_bytes().subrange(start as int, end as int));
    }
    Ok(piece.to_owned())
}

/// `text` with a space in the place of each line feed.
pub open spec fn flattened(text: Seq<u8>) -> Seq<u8> {
    Seq::new(
        text.len(),
        |i: int|
            if text[i] == LINE_FEED {
                SPACE
            } else {
                text[i]
            },
    )
}

/// The text of a space is the one byte `SPACE`.
proof fn lemma_space_text()
    ensures
        encode_utf8(" "@) == seq![SPACE],
{
    reveal_strlit(" ");
    let s = " "@;
    assert(s.drop_first() =~= Seq::<char>::empty());
    assert(leading_byte_width_1(32u32) == 32u8) by (bit_vector);
    assert(encode_utf8(s.drop_first()) =~= Seq::<u8>::empty());
    assert(encode_utf8(s) =~= seq![SPACE]);
}

/// `text` on one line: a space stands where `text` has a line feed.
pub fn flatten(text: &str) -> (flat: String)
    ensures
        encode_utf8(flat@) == flattened(text.spec_bytes()),
{
    broadcast use encode_utf8_valid_utf8;

    let bytes = text.as_bytes();
    let n = bytes.len();
    let mut flat = String::new();
    let mut start: usize = 0;
    let mut i: usize = 0;
    proof {
        assert(flattened(bytes@.subrange(0, 0)) =~= Seq::<u8>::empty());
    }
    while i < n
        invariant
            bytes@ == text.spec_bytes(),
            valid_utf8(bytes@),
            n == bytes@.len(),
            start <= i <= n,
            is_char_boundary(bytes@, start as int),
            encode_utf8(flat@) == flattened(bytes@.subrange(0, start as int)),
            forall|j: int| start <= j < i ==> bytes@[j] != LINE_FEED,
        decreases n - i,
    {
        if bytes[i] == LINE_FEED {
            proof {
                lemma_boundary_after_ascii(bytes@, i as int);
                lemma_boundary_in_prefix(bytes@, i as int, start as int);
            }
            let (head, _) = text.split_at(i);
            let (_, piece) = head.split_at(start);
            let ghost so_far = flat@;
            flat.append(piece);
            let ghost with_piece = flat@;
            flat.append(" ");
            proof {
                lemma_space_text();
                lemma_encode_concat(so_far, piece@);
                lemma_encode_concat(with_piece, " "@);
                assert(piece.spec_bytes() =~= bytes@.subrange(start as int, i as int));
                assert(encode_utf8(flat@) =~= flattened(bytes@.subrange(0, i + 1)));
            }
            start = i + 1;
        }
        i = i + 1;
    }
    let (_, piece) = text.split_at(start);
    let ghost so_far = flat@;
    flat.append(piece);
    proof {
        lemma_encode_concat(so_far, piece@);
        assert(piece.spec_bytes() =~= bytes@.subrange(start as int, n as int));
        assert(encode_utf8(flat@) =~= flattened(bytes@));
    }
    flat
}

} // verus!
