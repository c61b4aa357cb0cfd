use lantern::highlighter::{HighlightStyle, QueryHighlighter};
use lantern::ingester::Ingester;
use lantern::validator::{QueryValidator, ValidationStatus};

#[test]
fn highlight_styles_tokens_and_gaps() {
    let segments = QueryHighlighter.highlight("source t | where x == \"a\" + 1");
    let expected: Vec<(HighlightStyle, String)> = vec![
        (HighlightStyle::Keyword, "source".to_string()),
        (HighlightStyle::Unstyled, " ".to_string()),
        (HighlightStyle::Plain, "t".to_string()),
        (HighlightStyle::Unstyled, " ".to_string()),
        (HighlightStyle::Operator, "|".to_string()),
        (HighlightStyle::Unstyled, " ".to_string()),
        (HighlightStyle::Keyword, "where".to_string()),
        (HighlightStyle::Unstyled, " ".to_string()),
        (HighlightStyle::Plain, "x".to_string()),
        (HighlightStyle::Unstyled, " ".to_string()),
        (HighlightStyle::Operator, "==".to_string()),
        (HighlightStyle::Unstyled, " ".to_string()),
        (HighlightStyle::StringLiteral, "\"a\"".to_string()),
        (HighlightStyle::Unstyled, " ".to_string()),
        (HighlightStyle::Operator, "+".to_string()),
        (HighlightStyle::Unstyled, " ".to_string()),
        (HighlightStyle::Integer, "1".to_string()),
    ];
    assert_eq!(segments, expected);
}

// The segments cover the line exactly, bad input included.
#[test]
fn highlight_segments_rebuild_the_line() {
    for line in ["", "   ", "  a @@ \"s\" 5 ", "source t | where a >= -2"] {
        let rebuilt: String = QueryHighlighter
            .highlight(line)
            .into_iter()
            .map(|(_, text)| text)
            .collect();
        assert_eq!(rebuilt, line);
    }
}

#[test]
fn highlight_marks_trailing_gap_unstyled() {
    let segments = QueryHighlighter.highlight("limit \t");
    assert_eq!(
        segments,
        vec![
            (HighlightStyle::Keyword, "limit".to_string()),
            (HighlightStyle::Unstyled, " \t".to_string()),
        ]
    );
}

#[test]
fn validator_flags_continuation_lines() {
    let v = QueryValidator;
    assert_eq!(v.validate("source t |"), ValidationStatus::Incomplete);
    assert_eq!(v.validate("source t | \t "), ValidationStatus::Incomplete);
    assert_eq!(v.validate("aggr a,"), ValidationStatus::Incomplete);
    assert_eq!(v.validate("source t"), ValidationStatus::Complete);
    assert_eq!(v.validate(""), ValidationStatus::Complete);
    assert_eq!(v.validate("   "), ValidationStatus::Complete);
    assert_eq!(v.validate("a | b"), ValidationStatus::Complete);
}

#[test]
fn ingester_records_its_configuration() {
    let ingester = Ingester::new("logs", "/data");
    assert_eq!(ingester.table_name(), "logs");
    assert_eq!(ingester.data_dir_path(), "/data");
    assert_eq!(ingester.batch_size_line_count(), 50000);
}

#[test]
fn ingester_drops_blank_lines() {
    let ingester = Ingester::new("logs", "/data");
    let mut buffer: Vec<String> = Vec::new();
    assert!(!ingester.buffer_line(&mut buffer, "".to_string()));
    assert!(!ingester.buffer_line(&mut buffer, " \t ".to_string()));
    assert!(buffer.is_empty());
    assert!(!ingester.buffer_line(&mut buffer, "{\"a\":1}".to_string()));
    assert_eq!(buffer, vec!["{\"a\":1}".to_string()]);
}

#[test]
fn ingester_flushes_at_the_batch_size() {
    let ingester = Ingester::new("logs", "/data");
    let mut buffer: Vec<String> = Vec::new();
    for i in 0..49999 {
        assert!(
            !ingester.buffer_line(&mut buffer, format!("line {}", i)),
            "no flush before the batch is full"
        );
    }
    assert!(ingester.buffer_line(&mut buffer, "the last line".to_string()));
    assert_eq!(buffer.len(), 50000);
}

#[test]
fn by_and_identifiers_highlight_as_plain() {
    let segments = QueryHighlighter.highlight("aggr count() by day");
    assert_eq!(
        segments,
        vec![
            (HighlightStyle::Keyword, "aggr".to_string()),
            (HighlightStyle::Unstyled, " ".to_string()),
            (HighlightStyle::Plain, "count".to_string()),
            (HighlightStyle::Plain, "(".to_string()),
            (HighlightStyle::Plain, ")".to_string()),
            (HighlightStyle::Unstyled, " ".to_string()),
            (HighlightStyle::Plain, "by".to_string()),
            (HighlightStyle::Unstyled, " ".to_string()),
            (HighlightStyle::Plain, "day".to_string()),
        ]
    );
}
