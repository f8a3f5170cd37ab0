use pgcrab::lint::sql::FilePos;
use pgcrab::lint::DiagnosticClassification::{self, Error, Note, Warning};
use pgcrab::report::{classification_counts, gutter_widths, highlight_parts, summary_line};
use pgcrab::text::decimal_string;

fn pos(line: usize, col: usize) -> FilePos {
    FilePos { line, col }
}

fn parts(line: &str, start: FilePos, end: FilePos) -> (String, String, String) {
    highlight_parts(line, start, end)
}

#[test]
fn counts_come_in_order_of_seriousness() {
    let classes: Vec<DiagnosticClassification> = vec![Error, Warning, Error, Error];
    assert_eq!(classification_counts(&classes), vec![(Warning, 1), (Error, 3)]);
    assert_eq!(classification_counts(&vec![Note]), vec![(Note, 1)]);
    assert!(classification_counts(&vec![]).is_empty());
}

#[test]
fn summary_lines_are_plural_from_two_on() {
    assert_eq!(summary_line("SQL", Error, 3), "error: SQL linting generated 3 errors");
    assert_eq!(summary_line("schema", Warning, 1), "warning: schema linting generated 1 warning");
    assert_eq!(summary_line("SQL", Note, 12), "note: SQL linting generated 12 notes");
}

#[test]
fn decimals() {
    assert_eq!(decimal_string(0), "0");
    assert_eq!(decimal_string(7), "7");
    assert_eq!(decimal_string(1234567890), "1234567890");
    assert_eq!(decimal_string(u64::MAX), u64::MAX.to_string());
}

#[test]
fn gutters_grow_with_the_line_number() {
    assert_eq!(gutter_widths(7), (0, 3));
    assert_eq!(gutter_widths(42), (0, 3));
    assert_eq!(gutter_widths(123), (1, 4));
    assert_eq!(gutter_widths(10000), (3, 6));
}

#[test]
fn the_span_is_underlined() {
    // SELECT CURRENT_TIME FROM t
    //        ^^^^^^^^^^^^ columns 8 to 19
    let (pre, hl, post) = parts("SELECT CURRENT_TIME FROM t", pos(1, 8), pos(1, 19));
    assert_eq!((pre.as_str(), hl.as_str(), post.as_str()), ("SELECT ", "CURRENT_TIME", " FROM t"));
}

#[test]
fn spans_beyond_the_line_are_cut_at_its_end() {
    let (pre, hl, post) = parts("abc", pos(2, 2), pos(5, 1));
    assert_eq!((pre.as_str(), hl.as_str(), post.as_str()), ("a", "bc", ""));
    let (pre, hl, post) = parts("abc", pos(2, 9), pos(2, 12));
    assert_eq!((pre.as_str(), hl.as_str(), post.as_str()), ("ab", "c", ""));
    let (pre, hl, post) = parts("héllo", pos(1, 2), pos(1, 3));
    assert_eq!((pre.as_str(), hl.as_str(), post.as_str()), ("h", "él", "lo"));
}
