use achitek_ls::completion::prefix_before_column;
use achitek_ls::handlers::{replacement_text_for_range, selected_text};
use achitek_ls::text::{nth_line, source_line};
use achitek_ls::{TextPosition, TextRange};

fn range(sl: usize, sb: usize, el: usize, eb: usize) -> TextRange {
    TextRange { start: TextPosition { line: sl, byte: sb }, end: TextPosition { line: el, byte: eb } }
}

#[test]
fn source_line_follows_str_lines() {
    let source = "first\r\nsecond\n\nfourth";
    assert_eq!(source_line(source, 0), "first");
    assert_eq!(source_line(source, 1), "second");
    assert_eq!(source_line(source, 2), "");
    assert_eq!(source_line(source, 3), "fourth");
    assert_eq!(source_line(source, 4), "");
    assert_eq!(nth_line(source, 2), Some(""));
    assert_eq!(nth_line(source, 4), None);
    assert_eq!(nth_line("a\n", 1), None);
}

#[test]
fn prefix_stops_at_column_or_line_end() {
    assert_eq!(prefix_before_column("  type = ", 6), "  type");
    assert_eq!(prefix_before_column("abc", 10), "abc");
    assert_eq!(prefix_before_column("abc", 0), "");
}

#[test]
fn selected_text_reads_single_line_ranges() {
    let source = "name = \"x\"\nother";
    assert_eq!(selected_text(source, &range(0, 7, 0, 10)), Some("\"x\""));
    assert_eq!(selected_text(source, &range(0, 0, 1, 2)), None);
    assert_eq!(selected_text(source, &range(1, 2, 1, 9)), None);
    assert_eq!(selected_text(source, &range(5, 0, 5, 0)), None);
}

#[test]
fn replacement_keeps_quotes() {
    let source = "name = \"x\"\nother";
    assert_eq!(replacement_text_for_range(source, &range(0, 7, 0, 10), "y"), "\"y\"");
    assert_eq!(replacement_text_for_range(source, &range(1, 0, 1, 5), "y"), "y");
    assert_eq!(replacement_text_for_range(source, &range(0, 0, 1, 2), "y"), "y");
}
