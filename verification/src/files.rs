//! The text of a file and the lines of a buffer: a file holds the lines
//! joined by line feeds, with none after the last line.

use crate::buffer::bytes_of_lines;
use crate::text::{
    lemma_boundary_after_ascii, lemma_boundary_in_prefix, lemma_encode_concat, LINE_FEED,
};
use vstd::prelude::*;
use vstd::string::*;
use vstd::utf8::*;

verus! {

broadcast use encode_utf8_valid_utf8;

/// The text of a file that holds `lines`: each line but the last is followed
/// by a line feed.
pub open spec fn joined_lines(lines: Seq<Seq<u8>>) -> Seq<u8>
    decreases lines.len(),
{
    if lines.len() == 0 {
        Seq::empty()
    } else if lines.len() == 1 {
        lines[0]
    } else {
        joined_lines(lines.drop_last()) + seq![LINE_FEED] + lines.last()
    }
}

/// The lines of a file that holds `text`: what stands between its line
/// feeds, before the first and after the last. A text without a line feed is
/// one line, an empty text one empty line.
pub open spec fn split_text(text: Seq<u8>) -> Seq<Seq<u8>>
    decreases text.len(),
{
    if text.len() == 0 {
        seq![Seq::empty()]
    } else {
        let before = split_text(text.drop_last());
        if text.last() == LINE_FEED {
            before.push(Seq::empty())
        } else {
            before.drop_last().push(before.last().push(text.last()))
        }
    }
}

/// Whether no line of `lines` holds a line feed.
pub open spec fn no_line_feed(lines: Seq<Seq<u8>>) -> bool {
    forall|i: int, j: int|
        0 <= i < lines.len() && 0 <= j < lines[i].len() ==> #[trigger] lines[i][j] != LINE_FEED
}

/// A text always splits into at least one line.
pub proof fn lemma_split_nonempty(text: Seq<u8>)
    ensures
        split_text(text).len() >= 1,
    decreases text.len(),
{
    if text.len() > 0 {
        lemma_split_nonempty(text.drop_last());
    }
}

/// Splitting a text that ends in a line without line feeds: the text before
/// that line's line feed gives the lines before it.
proof fn lemma_split_append_line(text: Seq<u8>, line: Seq<u8>)
    requires
        forall|j: int| 0 <= j < line.len() ==> line[j] != LINE_FEED,
    ensures
        split_text(text + seq![LINE_FEED] + line) == split_text(text).push(line),
    decreases line.len(),
{
    let whole = text + seq![LINE_FEED] + line;
    if line.len() == 0 {
        assert(whole.drop_last() =~= text);
        assert(line =~= Seq::<u8>::empty());
    } else {
        let shorter = line.drop_last();
        lemma_split_append_line(text, shorter);
        assert(whole.drop_last() =~= text + seq![LINE_FEED] + shorter);
        assert(whole.last() == line.last());
        let before = split_text(whole.drop_last());
        assert(before.drop_last() =~= split_text(text));
        assert(shorter.push(line.last()) =~= line);
    }
}

/// A text without a line feed is one line.
proof fn lemma_split_single_line(line: Seq<u8>)
    requires
        forall|j: int| 0 <= j < line.len() ==> line[j] != LINE_FEED,
    ensures
        split_text(line) == seq![line],
    decreases line.len(),
{
    if line.len() == 0 {
        assert(line =~= Seq::<u8>::empty());
    } else {
        lemma_split_single_line(line.drop_last());
        let before = split_text(line.drop_last());
        assert(before.drop_last().push(before.last().push(line.last())) =~= seq![line]) by {
            assert(line.drop_last().push(line.last()) =~= line);
        }
    }
}

/// Writing the lines of a buffer to a file and reading the file again gives
/// the same lines in the same order, provided that no line holds a line feed.
pub proof fn lemma_save_then_load(lines: Seq<Seq<u8>>)
    requires
        lines.len() >= 1,
        no_line_feed(lines),
    ensures
        split_text(joined_lines(lines)) == lines,
    decreases lines.len(),
{
    let last = lines.last();
    assert forall|j: int| 0 <= j < last.len() implies last[j] != LINE_FEED by {
        assert(lines[lines.len() - 1][j] != LINE_FEED);
    }
    if lines.len() == 1 {
        lemma_split_single_line(lines[0]);
        assert(seq![lines[0]] =~= lines);
    } else {
        let front = lines.drop_last();
        assert(no_line_feed(front)) by {
            assert forall|i: int, j: int|
                0 <= i < front.len() && 0 <= j < front[i].len() implies #[trigger] front[i][j]
                != LINE_FEED by {
                assert(lines[i][j] != LINE_FEED);
            }
        }
        lemma_save_then_load(front);
        lemma_split_append_line(joined_lines(front), last);
        assert(front.push(last) =~= lines);
    }
}

/// Reading a file and writing its lines again gives the same text, and no
/// line that was read holds a line feed.
pub proof fn lemma_load_then_save(text: Seq<u8>)
    ensures
        joined_lines(split_text(text)) == text,
        no_line_feed(split_text(text)),
    decreases text.len(),
{
    if text.len() == 0 {
        assert(joined_lines(seq![Seq::<u8>::empty()]) =~= text);
    } else {
        let shorter = text.drop_last();
        lemma_load_then_save(shorter);
        lemma_split_nonempty(shorter);
        let before = split_text(shorter);
        let after = split_text(text);
        if text.last() == LINE_FEED {
            assert(after.drop_last() =~= before);
            assert(joined_lines(after) =~= text);
            assert forall|i: int, j: int|
                0 <= i < after.len() && 0 <= j < after[i].len() implies #[trigger] after[i][j]
                != LINE_FEED by {
                assert(before[i][j] != LINE_FEED);
            }
        } else {
            let grown = before.last().push(text.last());
            assert(after.last() == grown);
            if before.len() == 1 {
                assert(text =~= shorter.push(text.last()));
                assert(joined_lines(after) =~= text);
            } else {
                assert(after.drop_last() =~= before.drop_last());
                assert(text =~= shorter.push(text.last()));
                assert(joined_lines(before) == joined_lines(before.drop_last()) + seq![LINE_FEED]
                    + before.last());
                assert(joined_lines(after) == joined_lines(before.drop_last()) + seq![LINE_FEED]
                    + grown);
                assert(joined_lines(after) =~= text);
            }
            assert forall|i: int, j: int|
                0 <= i < after.len() && 0 <= j < after[i].len() implies #[trigger] after[i][j]
                != LINE_FEED by {
                if i < after.len() - 1 {
                    assert(before[i][j] != LINE_FEED);
                } else if j < before.last().len() {
                    assert(before[before.len() - 1][j] != LINE_FEED);
                }
            }
        }
    }
}

/// The text of a line feed is the one byte `LINE_FEED`.
proof fn lemma_line_feed_text()
    ensures
        encode_utf8("\n"@) == seq![LINE_FEED],
{
    reveal_strlit("\n");
    let s = "\n"@;
    assert(s.drop_first() =~= Seq::<char>::empty());
    assert(leading_byte_width_1(10u32) == 10u8) by (bit_vector);
    assert(encode_utf8(s.drop_first()) =~= Seq::<u8>::empty());
    assert(encode_utf8(s) =~= seq![LINE_FEED]);
}

/// The lines of the file text `text`.
pub fn split_lines(text: &str) -> (lines: Vec<String>)
    ensures
        bytes_of_lines(lines@) == split_text(text.spec_bytes()),
{
    let bytes = text.as_bytes();
    let n = bytes.len();
    let mut lines: Vec<String> = Vec::new();
    let mut start: usize = 0;
    let mut i: usize = 0;
    proof {
        assert(bytes@.subrange(0, 0) =~= Seq::<u8>::empty());
        assert(bytes_of_lines(lines@).push(bytes@.subrange(0, 0)) =~= seq![Seq::<u8>::empty()]);
    }
    while i < n
        invariant
            bytes@ == text.spec_bytes(),
            valid_utf8(bytes@),
            n == bytes@.len(),
            start <= i <= n,
            is_char_boundary(bytes@, start as int),
            split_text(bytes@.subrange(0, i as int)) == bytes_of_lines(lines@).push(
                bytes@.subrange(start as int, i as int),
            ),
        decreases n - i,
    {
        let ghost done = bytes_of_lines(lines@);
        let ghost upto = bytes@.subrange(0, i + 1);
        proof {
            assert(upto.drop_last() =~= bytes@.subrange(0, i as int));
            assert(upto.last() == bytes@[i as int]);
        }
        if bytes[i] == LINE_FEED {
            proof {
                lemma_boundary_after_ascii(bytes@, i as int);
                lemma_boundary_in_prefix(bytes@, i as int, start as int);
            }
            let (head, _) = text.split_at(i);
            let (_, line) = head.split_at(start);
            lines.push(line.to_owned());
            proof {
                assert(line.spec_bytes() =~= bytes@.subrange(start as int, i as int));
                assert(bytes_of_lines(lines@) =~= done.push(bytes@.subrange(start as int, i as int)));
                assert(bytes@.subrange(i + 1, i + 1) =~= Seq::<u8>::empty());
            }
            start = i + 1;
        } else {
            proof {
                let line = bytes@.subrange(start as int, i as int);
                assert(done.push(line).drop_last() =~= done);
                assert(line.push(bytes@[i as int]) =~= bytes@.subrange(start as int, i + 1));
            }
        }
        i = i + 1;
    }
    let ghost done = bytes_of_lines(lines@);
    let (_, line) = text.split_at(start);
    lines.push(line.to_owned());
    proof {
        assert(bytes@.subrange(0, n as int) =~= bytes@);
        assert(bytes_of_lines(lines@) =~= done.push(bytes@.subrange(start as int, n as int)));
    }
    lines
}

/// The file text of `lines`.
pub fn join_lines(lines: &Vec<String>) -> (text: String)
    ensures
        encode_utf8(text@) == joined_lines(bytes_of_lines(lines@)),
{
    let mut text = String::new();
    let mut i: usize = 0;
    proof {
        assert(bytes_of_lines(lines@).take(0) =~= Seq::<Seq<u8>>::empty());
    }
    while i < lines.len()
        invariant
            i <= lines.len(),
            encode_utf8(text@) == joined_lines(bytes_of_lines(lines@).take(i as int)),
        decreases lines.len() - i,
    {
        let ghost all = bytes_of_lines(lines@);
        let ghost so_far = text@;
        proof {
            assert(all.take(i + 1).drop_last() =~= all.take(i as int));
            assert(all.take(i + 1).last() == encode_utf8(lines@[i as int]@));
        }
        if i > 0 {
            text.append("\n");
            proof {
                lemma_line_feed_text();
                lemma_encode_concat(so_far, "\n"@);
            }
        }
        let ghost with_feed = text@;
        text.append(lines[i].as_str());
        proof {
            lemma_encode_concat(with_feed, lines@[i as int]@);
            if i == 0 {
                assert(encode_utf8(text@) =~= encode_utf8(lines@[0]@));
            }
        }
        i = i + 1;
    }
    proof {
        assert(bytes_of_lines(lines@).take(lines@.len() as int) =~= bytes_of_lines(lines@));
    }
    text
}

} // verus!
