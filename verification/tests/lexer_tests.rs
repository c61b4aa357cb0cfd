use lantern::lexer::{tokenizer, Token};
use lantern::span::Span;

fn kinds(source: &str) -> Vec<Token> {
    tokenizer(source).into_iter().map(|(t, _)| t).collect()
}

#[test]
fn tokenizes_a_simple_query() {
    let toks = tokenizer("source test | where status == 200");
    let expected = vec![
        (Token::KeywordSource, Span::new(0..6)),
        (Token::Identifier("test".to_string()), Span::new(7..11)),
        (Token::Pipe, Span::new(12..13)),
        (Token::KeywordWhere, Span::new(14..19)),
        (Token::Identifier("status".to_string()), Span::new(20..26)),
        (Token::OperatorEqual, Span::new(27..29)),
        (Token::Integer(200), Span::new(30..33)),
    ];
    assert_eq!(toks, expected);
}

#[test]
fn keywords_win_only_on_exact_match() {
    assert_eq!(
        kinds("source sources by by2 and or"),
        vec![
            Token::KeywordSource,
            Token::Identifier("sources".to_string()),
            Token::KeywordBy,
            Token::Identifier("by2".to_string()),
            Token::OperatorAnd,
            Token::OperatorOr,
        ]
    );
}

#[test]
fn longest_match_binds_minus_to_digits() {
    assert_eq!(
        kinds("a-5"),
        vec![Token::Identifier("a".to_string()), Token::Integer(-5)]
    );
    assert_eq!(
        kinds("a - 5"),
        vec![
            Token::Identifier("a".to_string()),
            Token::OperatorSubtract,
            Token::Integer(5),
        ]
    );
}

#[test]
fn integer_range_limits() {
    assert_eq!(kinds("9223372036854775807"), vec![Token::Integer(i64::MAX)]);
    assert_eq!(kinds("-9223372036854775808"), vec![Token::Integer(i64::MIN)]);
    assert_eq!(kinds("9223372036854775808"), vec![Token::Error]);
    let toks = tokenizer("99999999999999999999");
    assert_eq!(toks, vec![(Token::Error, Span::new(0..20))]);
}

#[test]
fn string_literals_are_kept_raw() {
    let toks = tokenizer(r#"where name == "O'Conner""#);
    assert_eq!(
        toks.last().unwrap().0,
        Token::StringLiteral("\"O'Conner\"".to_string())
    );
    assert_eq!(
        kinds(r#""a\nb\t\"q\"""#),
        vec![Token::StringLiteral("\"a\\nb\\t\\\"q\\\"\"".to_string())]
    );
}

#[test]
fn unterminated_string_becomes_an_error_token() {
    let toks = tokenizer("\"abc");
    assert_eq!(toks[0], (Token::Error, Span::new(0..1)));
    assert_eq!(toks[1], (Token::Identifier("abc".to_string()), Span::new(1..4)));
}

#[test]
fn unrecognized_run_is_a_single_error_token() {
    let toks = tokenizer("a @#$ b");
    assert_eq!(
        toks,
        vec![
            (Token::Identifier("a".to_string()), Span::new(0..1)),
            (Token::Error, Span::new(2..5)),
            (Token::Identifier("b".to_string()), Span::new(6..7)),
        ]
    );
}

#[test]
fn carriage_return_is_not_whitespace() {
    assert_eq!(
        kinds("a\rb"),
        vec![
            Token::Identifier("a".to_string()),
            Token::Error,
            Token::Identifier("b".to_string()),
        ]
    );
}

#[test]
fn whitespace_only_input_yields_no_tokens() {
    assert!(tokenizer("").is_empty());
    assert!(tokenizer(" \t\n\u{c} ").is_empty());
}

#[test]
fn operators_two_character_forms() {
    assert_eq!(
        kinds("= == ! != > >= < <= + * / ( ) , |"),
        vec![
            Token::OperatorAssign,
            Token::OperatorEqual,
            Token::Error,
            Token::OperatorNotEqual,
            Token::OperatorGreaterThan,
            Token::OperatorGreaterThanOrEqual,
            Token::OperatorLessThan,
            Token::OperatorLessThanOrEqual,
            Token::OperatorAdd,
            Token::OperatorMultiply,
            Token::OperatorDivide,
            Token::LeftParenthesis,
            Token::RightParenthesis,
            Token::Comma,
            Token::Pipe,
        ]
    );
}

// Concatenating the text of every token span, with the skipped gaps,
// reconstructs the source; the gaps hold only whitespace.
#[test]
fn spans_round_trip_to_the_source() {
    for source in [
        "source test | where a + b * c > 10",
        "  where @@@ 5 ",
        "\"open 42 and|or",
        "aggr total = sum(x) by region,\tday\n",
    ] {
        let mut rebuilt = String::new();
        let mut last = 0usize;
        for (_, span) in tokenizer(source) {
            let gap = &source[last..span.start()];
            assert!(gap.chars().all(|c| " \t\n\u{c}".contains(c)));
            rebuilt.push_str(gap);
            rebuilt.push_str(&source[span.into_range()]);
            last = span.end();
        }
        rebuilt.push_str(&source[last..]);
        assert_eq!(rebuilt, source);
    }
}
