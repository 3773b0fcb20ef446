use zephyr_bot::wrap::{marked, owned_lines, pack_words, wrap_lines, DEFAULT_WIDTH};

fn lines(expected: &[&str]) -> Vec<String> {
    expected.iter().map(|l| l.to_string()).collect()
}

#[test]
fn three_words_at_width_ten() {
    assert_eq!(wrap_lines(10, "one two three"), lines(&["one two", "three"]));
}

#[test]
fn the_joining_space_counts_against_the_limit() {
    // `one two abc` would be 11 wide.
    assert_eq!(wrap_lines(10, "one two abc"), lines(&["one two", "abc"]));
    assert_eq!(wrap_lines(11, "one two abc"), lines(&["one two abc"]));
    assert_eq!(wrap_lines(6, "one two"), lines(&["one", "two"]));
    assert_eq!(wrap_lines(7, "one two"), lines(&["one two"]));
}

#[test]
fn no_line_is_wider_than_the_limit_unless_it_is_one_word() {
    let text = "the quick brown fox jumps over the extraordinarily lazy dog and then rests";
    for limit in 0..40 {
        for line in wrap_lines(limit, text) {
            assert!(line.len() <= limit || !line.contains(' '), "{} at {}", line, limit);
        }
    }
}

#[test]
fn the_words_come_out_whole_and_in_order() {
    let text = "the quick brown fox jumps over the extraordinarily lazy dog and then rests";
    for limit in 0..40 {
        let wrapped = wrap_lines(limit, text).join(" ");
        let got: Vec<&str> = wrapped.split_whitespace().collect();
        let expected: Vec<&str> = text.split_whitespace().collect();
        assert_eq!(got, expected);
    }
}

#[test]
fn a_newline_forces_a_break() {
    assert_eq!(wrap_lines(70, "hello\nworld"), lines(&["hello", "world"]));
    assert_eq!(wrap_lines(70, "a b\nc d"), lines(&["a b", "c d"]));
}

#[test]
fn a_word_is_never_split() {
    assert_eq!(wrap_lines(3, "hello"), lines(&["", "hello"]));
    assert_eq!(wrap_lines(3, "a hello b"), lines(&["a", "hello", "b"]));
}

#[test]
fn short_text_stays_on_one_line() {
    assert_eq!(wrap_lines(DEFAULT_WIDTH, "hello world"), lines(&["hello world"]));
    assert_eq!(DEFAULT_WIDTH, 70);
}

#[test]
fn empty_text_is_one_empty_line() {
    assert_eq!(wrap_lines(10, ""), lines(&[""]));
}

#[test]
fn spaces_in_a_row_are_kept() {
    assert_eq!(wrap_lines(10, "a  b"), lines(&["a  b"]));
}

#[test]
fn a_newline_at_the_end_leaves_an_empty_last_line() {
    assert_eq!(wrap_lines(10, "hi\n"), lines(&["hi", ""]));
}

#[test]
fn width_counts_bytes() {
    // Two letters of two bytes each use four.
    assert_eq!(wrap_lines(4, "\u{e9}\u{e9} a"), lines(&["\u{e9}\u{e9}", "a"]));
    assert_eq!(wrap_lines(5, "\u{e9}\u{e9} a"), lines(&["\u{e9}\u{e9}", "a"]));
    assert_eq!(wrap_lines(6, "\u{e9}\u{e9} a"), lines(&["\u{e9}\u{e9} a"]));
    assert_eq!(wrap_lines(3, "\u{e9}\u{e9}"), lines(&["", "\u{e9}\u{e9}"]));
}

#[test]
fn packing_takes_the_words_as_they_are_given() {
    assert_eq!(pack_words(10, &vec!["one", "two", "three"]), lines(&["one two", "three"]));
    assert_eq!(pack_words(6, &vec!["one", "two"]), lines(&["one", "two"]));
    assert_eq!(pack_words(10, &vec![]), lines(&[""]));
    assert_eq!(pack_words(10, &vec!["a\n", "b"]), lines(&["a", "b"]));
    assert_eq!(pack_words(0, &vec!["a", "b"]), lines(&["", "a", "b"]));
}

#[test]
fn marking_puts_a_nul_behind_each_newline() {
    assert_eq!(marked("a\nb\n"), "a\n\0b\n\0");
    assert_eq!(marked("ab"), "ab");
    assert_eq!(marked(""), "");
}

#[test]
fn lines_are_cut_at_newlines() {
    assert_eq!(owned_lines("a\n\nb"), lines(&["a", "", "b"]));
    assert_eq!(owned_lines(""), lines(&[""]));
}
