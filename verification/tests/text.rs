use nsharp::text::span::TextSpan;
use nsharp::text::SourceText;

fn span(start: usize, end: usize, literal: &str) -> TextSpan {
    TextSpan::new(start, end, literal.to_string())
}

#[test]
fn span_length_and_literal() {
    let s = span(4, 9, "hello");
    assert_eq!(s.length(), 5);
    assert_eq!(s.literal("let hello = 1"), "hello");
    assert_eq!(span(2, 2, "").length(), 0);
    assert_eq!(span(1, 3, "").literal("\u{e9}t\u{e9}"), "t\u{e9}");
}

#[test]
fn combine_orders_spans_by_start() {
    let combined = TextSpan::combine(vec![span(6, 9, "baz"), span(0, 3, "foo"), span(3, 6, "bar")]);
    assert_eq!(combined.start, 0);
    assert_eq!(combined.end, 9);
    assert_eq!(combined.literal, "foobarbaz");
}

#[test]
fn combine_of_one_span_is_that_span() {
    let combined = TextSpan::combine(vec![span(2, 5, "abc")]);
    assert_eq!(combined.start, 2);
    assert_eq!(combined.end, 5);
    assert_eq!(combined.literal, "abc");
}

#[test]
fn combine_keeps_spans_of_equal_start_in_order() {
    let combined =
        TextSpan::combine(vec![span(1, 4, "b"), span(1, 2, "c"), span(0, 7, "a"), span(1, 3, "d")]);
    assert_eq!(combined.start, 0);
    assert_eq!(combined.end, 3);
    assert_eq!(combined.literal, "abcd");
}

#[test]
fn line_index_counts_line_breaks_in_front() {
    let text = SourceText::new("ab\ncd\n\nef".to_string());
    assert_eq!(text.line_index(0), 0);
    assert_eq!(text.line_index(2), 0);
    assert_eq!(text.line_index(3), 1);
    assert_eq!(text.line_index(5), 1);
    assert_eq!(text.line_index(6), 2);
    assert_eq!(text.line_index(7), 3);
    assert_eq!(text.line_index(8), 3);
}

#[test]
fn line_start_is_where_a_line_begins() {
    let text = SourceText::new("ab\ncd\n\nef".to_string());
    assert_eq!(text.line_start(0), 0);
    assert_eq!(text.line_start(1), 3);
    assert_eq!(text.line_start(2), 6);
    assert_eq!(text.line_start(3), 7);
}

#[test]
fn line_start_behind_the_last_line() {
    // Each line counts with one for its line break, also a last line
    // that has none.
    assert_eq!(SourceText::new("ab\ncd".to_string()).line_start(2), 6);
    assert_eq!(SourceText::new("ab\ncd".to_string()).line_start(9), 6);
    assert_eq!(SourceText::new("ab\n".to_string()).line_start(1), 3);
    assert_eq!(SourceText::new("ab\n".to_string()).line_start(2), 3);
    assert_eq!(SourceText::new("ab".to_string()).line_start(1), 3);
    assert_eq!(SourceText::new(String::new()).line_start(0), 0);
    assert_eq!(SourceText::new(String::new()).line_start(3), 0);
}
