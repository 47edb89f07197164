use fabricof::text::{clamp_scroll, max_scroll, paginate, wrap_entries, wrap_lines, wrap_text};

fn strings(items: &[&str]) -> Vec<String> {
    items.iter().map(|s| s.to_string()).collect()
}

#[test]
fn wrap_breaks_before_word_that_does_not_fit() {
    assert_eq!(wrap_lines("aaa bbb ccc", 7), strings(&["aaa bbb", "ccc"]));
}

#[test]
fn wrap_keeps_long_word_whole() {
    assert_eq!(wrap_lines("supercalifragilistic", 5), strings(&["supercalifragilistic"]));
}

#[test]
fn wrap_long_word_after_short_one() {
    assert_eq!(wrap_lines("ab supercalifragilistic cd", 5), strings(&["ab", "supercalifragilistic", "cd"]));
}

#[test]
fn wrap_line_may_fill_width_exactly() {
    assert_eq!(wrap_lines("ab cd ef", 5), strings(&["ab cd", "ef"]));
    assert_eq!(wrap_lines("ab cd ef", 4), strings(&["ab", "cd", "ef"]));
}

#[test]
fn wrap_collapses_runs_of_blanks() {
    assert_eq!(wrap_lines("  Welcome   to\tThe \n Fabricof  ", 35), strings(&["Welcome to The Fabricof"]));
}

#[test]
fn wrap_of_blank_text_is_empty() {
    assert!(wrap_lines("", 10).is_empty());
    assert!(wrap_lines("       ", 10).is_empty());
}

#[test]
fn wrap_counts_characters_not_bytes() {
    assert_eq!(wrap_lines("▒▒▒ ♠♠♠ x", 7), strings(&["▒▒▒ ♠♠♠", "x"]));
}

#[test]
fn wrap_width_zero_puts_each_word_alone() {
    assert_eq!(wrap_lines("a b c", 0), strings(&["a", "b", "c"]));
}

#[test]
fn wrap_text_joins_lines_with_newlines() {
    assert_eq!(wrap_text("aaa bbb ccc", 7), "aaa bbb\nccc");
    assert_eq!(wrap_text("one", 7), "one");
    assert_eq!(wrap_text("", 7), "");
}

#[test]
fn wrap_entries_concatenates_in_order() {
    let entries = strings(&["aaa bbb ccc", "", "dd ee"]);
    assert_eq!(wrap_entries(&entries, 7), strings(&["aaa bbb", "ccc", "dd ee"]));
}

#[test]
fn max_scroll_of_ten_lines_in_eight() {
    let entries = strings(&["l0", "l1", "l2", "l3", "l4", "l5", "l6", "l7", "l8", "l9"]);
    assert_eq!(max_scroll(&entries, 35, 8), 2);
    assert_eq!(clamp_scroll(3, 2), 2);
    assert_eq!(clamp_scroll(100, 2), 2);
    assert_eq!(clamp_scroll(1, 2), 1);
    assert_eq!(clamp_scroll(0, 2), 0);
}

#[test]
fn max_scroll_is_zero_when_everything_fits() {
    let entries = strings(&["a b c", "d"]);
    assert_eq!(max_scroll(&entries, 35, 8), 0);
    assert_eq!(max_scroll(&Vec::new(), 35, 8), 0);
}

#[test]
fn paginate_returns_window() {
    let entries = strings(&["l0", "l1", "l2", "l3", "l4", "l5", "l6", "l7", "l8", "l9"]);
    assert_eq!(paginate(&entries, 35, 8, 0), strings(&["l0", "l1", "l2", "l3", "l4", "l5", "l6", "l7"]));
    assert_eq!(paginate(&entries, 35, 8, 2), strings(&["l2", "l3", "l4", "l5", "l6", "l7", "l8", "l9"]));
}

#[test]
fn paginate_near_end_returns_fewer_lines() {
    let entries = strings(&["l0", "l1", "l2", "l3", "l4", "l5", "l6", "l7", "l8", "l9"]);
    assert_eq!(paginate(&entries, 35, 8, 7), strings(&["l7", "l8", "l9"]));
    assert!(paginate(&entries, 35, 8, 10).is_empty());
    assert!(paginate(&entries, 35, 8, usize::MAX).is_empty());
    assert_eq!(paginate(&entries, 35, usize::MAX, 9), strings(&["l9"]));
}

#[test]
fn wrap_splits_on_all_unicode_whitespace() {
    assert_eq!(wrap_lines("aaaaaa\u{0c}bbbbbb", 5), strings(&["aaaaaa", "bbbbbb"]));
    assert_eq!(wrap_lines("aa b\u{0c}cccccc", 5), strings(&["aa b", "cccccc"]));
    assert_eq!(wrap_lines("a\u{0c}b", 5), strings(&["a b"]));
    assert_eq!(wrap_lines("xxx a\u{0c}b yyy", 5), strings(&["xxx a", "b yyy"]));
    assert_eq!(wrap_lines("a\u{a0}b\u{3000}c\u{2009}d\u{85}e\u{0b}f", 35), strings(&["a b c d e f"]));
}

#[test]
fn wrap_keeps_non_whitespace_symbols_in_words() {
    assert_eq!(wrap_lines("a\u{200b}b c", 35), strings(&["a\u{200b}b c"]));
}
