use line_editor::buffer::LineStore;
use line_editor::error::EditError;
use line_editor::files::{join_lines, split_lines};
use line_editor::text::{flatten, joined, splice, text_after, text_before, text_between};

fn strings(lines: &[&str]) -> Vec<String> {
    lines.iter().map(|l| l.to_string()).collect()
}

#[test]
fn split_then_join_gives_the_text_back() {
    let text = "one\ntwo\n\nfour";
    let lines = split_lines(text);
    assert_eq!(lines, strings(&["one", "two", "", "four"]));
    assert_eq!(join_lines(&lines), text);
}

#[test]
fn join_then_split_gives_the_lines_back() {
    for lines in [
        strings(&[""]),
        strings(&["only"]),
        strings(&["a", "b"]),
        strings(&["", ""]),
        strings(&["caf\u{e9}", "", "\u{1F600} end", ""]),
    ] {
        assert_eq!(split_lines(&join_lines(&lines)), lines);
    }
}

#[test]
fn an_empty_file_is_one_empty_line() {
    assert_eq!(split_lines(""), strings(&[""]));
    assert_eq!(join_lines(&strings(&[""])), "");
}

#[test]
fn a_line_feed_at_the_end_opens_an_empty_last_line() {
    assert_eq!(split_lines("a\n"), strings(&["a", ""]));
    assert_eq!(split_lines("\n"), strings(&["", ""]));
    assert_eq!(join_lines(&strings(&["a", ""])), "a\n");
}

#[test]
fn a_line_with_a_line_feed_does_not_come_back_as_one_line() {
    let lines = strings(&["a\nb"]);
    assert_eq!(split_lines(&join_lines(&lines)), strings(&["a", "b"]));
}

#[test]
fn flatten_puts_spaces_for_line_feeds() {
    assert_eq!(flatten("a\nb\n\nc"), "a b  c");
    assert_eq!(flatten("\n"), " ");
    assert_eq!(flatten(""), "");
    assert_eq!(flatten("caf\u{e9}\n\u{1F600}"), "caf\u{e9} \u{1F600}");
}

#[test]
fn cutting_text_at_character_boundaries() {
    let line = "a\u{e9}b";
    assert_eq!(text_before(line, 1), Ok("a".to_string()));
    assert_eq!(text_before(line, 2), Err(EditError::OutOfRange));
    assert_eq!(text_before(line, 5), Err(EditError::OutOfRange));
    assert_eq!(text_after(line, 3), Ok("b".to_string()));
    assert_eq!(text_after(line, 4), Ok("".to_string()));
    assert_eq!(text_after(line, 2), Err(EditError::OutOfRange));
    assert_eq!(text_between(line, 1, 3), Ok("\u{e9}".to_string()));
    assert_eq!(text_between(line, 3, 1), Err(EditError::OutOfRange));
    assert_eq!(text_between(line, 1, 2), Err(EditError::OutOfRange));
    assert_eq!(joined("ab", "cd"), "abcd");
}

#[test]
fn splicing_text() {
    assert_eq!(splice("hello world", 6, 11, "there"), Ok("hello there".to_string()));
    assert_eq!(splice("abc", 1, 1, "-"), Ok("a-bc".to_string()));
    assert_eq!(splice("abc", 0, 3, ""), Ok("".to_string()));
    assert_eq!(splice("abc", 2, 1, "-"), Err(EditError::OutOfRange));
    assert_eq!(splice("abc", 1, 4, "-"), Err(EditError::OutOfRange));
    assert_eq!(splice("a\u{e9}", 2, 3, "-"), Err(EditError::OutOfRange));
}

#[test]
fn line_store_operations() {
    let mut store = LineStore::from_lines(strings(&["a", "b", "c"]));
    assert_eq!(store.line_count(), 3);
    assert_eq!(store.get(1), Ok("b"));
    assert_eq!(store.get(3), Err(EditError::OutOfRange));
    assert_eq!(store.replace(1, "B".to_string()), Ok(()));
    assert_eq!(store.replace(3, "x".to_string()), Err(EditError::OutOfRange));
    assert_eq!(store.insert_line(3, "d".to_string()), Ok(()));
    assert_eq!(store.insert_line(5, "x".to_string()), Err(EditError::OutOfRange));
    assert_eq!(store.insert_line(0, "z".to_string()), Ok(()));
    assert_eq!(store.lines(), &strings(&["z", "a", "B", "c", "d"]));
    assert_eq!(store.remove_line(1), Ok("a".to_string()));
    assert_eq!(store.remove_line(4), Err(EditError::OutOfRange));
    assert_eq!(store.lines(), &strings(&["z", "B", "c", "d"]));
    assert_eq!(store.line_count(), store.lines().len());
    assert_eq!(store.line(2), "c");
}

#[test]
fn a_line_store_never_runs_empty() {
    let mut store = LineStore::new();
    assert_eq!(store.line_count(), 1);
    assert_eq!(store.get(0), Ok(""));
    assert_eq!(store.remove_line(0), Err(EditError::OutOfRange));
    assert_eq!(store.line_count(), 1);
    let from_nothing = LineStore::from_lines(Vec::new());
    assert_eq!(from_nothing.lines(), &strings(&[""]));
}
