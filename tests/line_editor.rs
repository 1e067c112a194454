use rusty_bash::editor::{Completion, HistorySource, Writer};
use rusty_bash::width::{char_to_width, chars_to_width, checked_chars_to_width};

fn chars(s: &str) -> Vec<char> {
    s.chars().collect()
}

#[test]
fn widths() {
    assert_eq!(char_to_width('a'), 1);
    assert_eq!(char_to_width('あ'), 2);
    assert_eq!(chars_to_width(&chars("abc")), 3);
    assert_eq!(chars_to_width(&chars("aあb")), 4);
    assert_eq!(chars_to_width(&vec![]), 0);
}

#[test]
fn cursor_moves_within_line() {
    let mut w = Writer::new(0, 2);
    w.insert_multi(&chars("abc"));
    assert_eq!(w.ch_ptr, 3);
    w.move_char_ptr(-5);
    assert_eq!(w.ch_ptr, 0);
    w.move_char_ptr(2);
    assert_eq!(w.ch_ptr, 2);
    w.move_char_ptr(10);
    assert_eq!(w.ch_ptr, 3);
}

#[test]
fn insert_and_remove() {
    let mut w = Writer::new(0, 2);
    w.insert('a');
    w.insert('c');
    w.move_char_ptr(-1);
    w.insert('b');
    assert_eq!(w.chars, chars("abc"));
    assert_eq!(w.ch_ptr, 2);
    w.remove();
    assert_eq!(w.chars, chars("ac"));
    assert_eq!(w.ch_ptr, 1);
    w.move_char_ptr(-1);
    w.remove();
    assert_eq!(w.chars, chars("c"));
    assert_eq!(w.ch_ptr, 0);
    let mut e = Writer::new(0, 2);
    e.remove();
    assert!(e.chars.is_empty());
}

#[test]
fn last_word_of_line() {
    let mut w = Writer::new(0, 0);
    w.insert_multi(&chars("ls some\\ dir"));
    assert_eq!(w.last_word(), chars("some\\ dir"));
    let mut v = Writer::new(0, 0);
    v.insert_multi(&chars("cd /usr/lo"));
    assert_eq!(v.last_word(), chars("/usr/lo"));
    let mut u = Writer::new(0, 0);
    u.insert_multi(&chars("echo "));
    assert_eq!(u.last_word(), chars(""));
}

#[test]
fn fold_points_and_rows() {
    let mut w = Writer::new(0, 2);
    w.insert_multi(&chars("abcdefghij"));
    w.calculate_fold_points(5);
    assert_eq!(w.fold_points, vec![3, 8]);
    assert_eq!(w.previous_fold_points_num, 0);
    assert_eq!(w.ch_ptr_to_multiline_origin(), (8, 2));
    assert_eq!(w.cursor_column(), 3);
    w.move_char_ptr(-8);
    assert_eq!(w.ch_ptr_to_multiline_origin(), (0, 0));
    assert_eq!(w.cursor_column(), 5);
    w.move_char_ptr(3);
    assert_eq!(w.ch_ptr_to_multiline_origin(), (3, 1));
    assert_eq!(w.cursor_column(), 3);
    w.calculate_fold_points(80);
    assert!(w.fold_points.is_empty());
    assert_eq!(w.previous_fold_points_num, 2);
}

#[test]
fn history_moves() {
    let history = vec![chars("ls"), chars("echo hi")];
    let mut w = Writer::new(2, 0);
    w.insert_multi(&chars("draft"));
    assert_eq!(w.call_history(-1, &history), HistorySource::FromList(1));
    assert_eq!(w.chars, chars("echo hi"));
    assert_eq!(w.ch_ptr, 7);
    assert_eq!(w.call_history(-1, &history), HistorySource::FromList(0));
    assert_eq!(w.chars, chars("ls"));
    assert_eq!(w.ch_ptr, 2);
    assert_eq!(w.call_history(-1, &history), HistorySource::FromFile(0));
    assert_eq!(w.chars, chars("ls"));
    assert_eq!(w.call_history(-1, &history), HistorySource::FromFile(1));
    assert_eq!(w.call_history(5, &history), HistorySource::Empty);
    assert_eq!(w.hist_ptr, 2);
    assert!(w.chars.is_empty());
    assert_eq!(w.ch_ptr, 0);
    w.set_line(chars("echo x"));
    assert_eq!(w.ch_ptr, 6);
}

#[test]
fn tab_completion_kinds() {
    let mut w = Writer::new(0, 0);
    w.insert_multi(&chars("ec"));
    assert_eq!(w.tab_completion(1), Completion::Command);
    assert_eq!(w.tab_completion(2), Completion::CommandCandidates);
    let mut v = Writer::new(0, 0);
    v.insert_multi(&chars("cat ma"));
    assert_eq!(v.tab_completion(1), Completion::File);
    assert_eq!(v.tab_completion(3), Completion::FileCandidates);
    let mut u = Writer::new(0, 0);
    u.insert_multi(&chars("./scr"));
    assert_eq!(u.tab_completion(1), Completion::File);
    let e = Writer::new(0, 0);
    assert_eq!(e.tab_completion(1), Completion::Command);
}

#[test]
fn insert_multi_inside_line_appends() {
    let mut w = Writer::new(0, 0);
    w.insert_multi(&chars("abc"));
    w.move_char_ptr(-2);
    w.insert_multi(&chars("xy"));
    assert_eq!(w.chars, chars("abcxy"));
    assert_eq!(w.ch_ptr, 3);
}

#[test]
fn checked_widths() {
    assert_eq!(checked_chars_to_width(&chars("aあb")), Some(4));
    assert_eq!(checked_chars_to_width(&vec![]), Some(0));
    let long: Vec<char> = std::iter::repeat('a').take(20_000_000).collect();
    assert_eq!(chars_to_width(&long), 20_000_000);
}

#[test]
fn last_word_after_escaped_backslash() {
    let mut w = Writer::new(0, 0);
    w.insert_multi(&chars("a\\\\ b"));
    assert_eq!(w.last_word(), chars("b"));
    let mut v = Writer::new(0, 0);
    v.insert_multi(&chars("a\\ b"));
    assert_eq!(v.last_word(), chars("a\\ b"));
    assert_eq!(v.tab_completion(1), Completion::Command);
}
