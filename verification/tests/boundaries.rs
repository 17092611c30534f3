use line_editor::boundary::{
    boundary_after_in, boundary_before_in, byte_to_unit16, char_len_utf16, char_len_utf8,
    next_grapheme_boundary, previous_grapheme_boundary, unit16_to_byte,
};

#[test]
fn boundaries_among_given_starts() {
    let starts = vec![0, 3, 6, 11];
    assert_eq!(boundary_before_in(&starts, 6), 3);
    assert_eq!(boundary_before_in(&starts, 7), 6);
    assert_eq!(boundary_before_in(&starts, 0), 0);
    assert_eq!(boundary_before_in(&starts, 1), 0);
    assert_eq!(boundary_before_in(&Vec::new(), 5), 0);
    assert_eq!(boundary_after_in(&starts, 0, 13), 3);
    assert_eq!(boundary_after_in(&starts, 6, 13), 11);
    assert_eq!(boundary_after_in(&starts, 11, 13), 13);
    assert_eq!(boundary_after_in(&Vec::new(), 0, 0), 0);
}

#[test]
fn boundaries_do_not_depend_on_the_order_of_the_starts() {
    let starts = vec![6, 0, 11, 3];
    assert_eq!(boundary_before_in(&starts, 7), 6);
    assert_eq!(boundary_after_in(&starts, 1, 13), 3);
}

#[test]
fn grapheme_boundaries_keep_clusters_whole() {
    let line = "a\u{310}e\u{301}o\u{308}\u{332}\r\n";
    assert_eq!(previous_grapheme_boundary(line, 13), 11);
    assert_eq!(previous_grapheme_boundary(line, 11), 6);
    assert_eq!(previous_grapheme_boundary(line, 5), 3);
    assert_eq!(previous_grapheme_boundary(line, 3), 0);
    assert_eq!(previous_grapheme_boundary(line, 0), 0);
    assert_eq!(next_grapheme_boundary(line, 0), 3);
    assert_eq!(next_grapheme_boundary(line, 4), 6);
    assert_eq!(next_grapheme_boundary(line, 6), 11);
    assert_eq!(next_grapheme_boundary(line, 11), 13);
    assert_eq!(next_grapheme_boundary(line, 13), 13);
}

#[test]
fn grapheme_boundaries_of_an_empty_line() {
    assert_eq!(previous_grapheme_boundary("", 0), 0);
    assert_eq!(next_grapheme_boundary("", 0), 0);
}

#[test]
fn grapheme_boundaries_of_an_emoji_with_modifier() {
    let line = "x\u{1F44D}\u{1F3FD}y";
    assert_eq!(next_grapheme_boundary(line, 1), 9);
    assert_eq!(previous_grapheme_boundary(line, 9), 1);
}

#[test]
fn widths_of_characters() {
    assert_eq!((char_len_utf8('a'), char_len_utf16('a')), (1, 1));
    assert_eq!((char_len_utf8('\u{e9}'), char_len_utf16('\u{e9}')), (2, 1));
    assert_eq!((char_len_utf8('\u{20ac}'), char_len_utf16('\u{20ac}')), (3, 1));
    assert_eq!((char_len_utf8('\u{1F600}'), char_len_utf16('\u{1F600}')), (4, 2));
    for c in ['\u{7f}', '\u{80}', '\u{7ff}', '\u{800}', '\u{ffff}', '\u{10000}', '\u{10ffff}'] {
        assert_eq!(char_len_utf8(c), c.len_utf8());
        assert_eq!(char_len_utf16(c), c.len_utf16());
    }
}

#[test]
fn utf16_offsets_to_byte_offsets() {
    let line = "a\u{e9}\u{1F600}b";
    assert_eq!(unit16_to_byte(line, 0), 0);
    assert_eq!(unit16_to_byte(line, 1), 1);
    assert_eq!(unit16_to_byte(line, 2), 3);
    assert_eq!(unit16_to_byte(line, 3), 3);
    assert_eq!(unit16_to_byte(line, 4), 7);
    assert_eq!(unit16_to_byte(line, 5), 8);
    assert_eq!(unit16_to_byte(line, 50), 8);
}

#[test]
fn byte_offsets_to_utf16_offsets() {
    let line = "a\u{e9}\u{1F600}b";
    assert_eq!(byte_to_unit16(line, 0), 0);
    assert_eq!(byte_to_unit16(line, 1), 1);
    assert_eq!(byte_to_unit16(line, 2), 2);
    assert_eq!(byte_to_unit16(line, 3), 2);
    assert_eq!(byte_to_unit16(line, 4), 4);
    assert_eq!(byte_to_unit16(line, 7), 4);
    assert_eq!(byte_to_unit16(line, 8), 5);
    assert_eq!(byte_to_unit16(line, 80), 5);
}
