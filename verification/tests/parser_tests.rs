use lantern::ast::{BinaryOperator, Command, Expression, Query, SortOrder};
use lantern::parser::{check, parse};

fn parse_ok(source: &str) -> Query {
    match parse(source) {
        Ok(query) => query,
        Err(error) => {
            println!("{}", error.render(source));
            panic!("Parse failed for input: '{}'", source);
        }
    }
}

fn field(name: &str) -> Expression {
    Expression::Field(name.to_string())
}

fn binary(op: BinaryOperator, l: Expression, r: Expression) -> Expression {
    Expression::Binary(op, Box::new(l), Box::new(r))
}

#[test]
fn basic_source() {
    let ast = parse_ok("source test");
    assert_eq!(
        ast,
        Query { source: "test".to_string(), commands: vec![] }
    );
}

#[test]
fn basic_literal_filter() {
    let ast = parse_ok("source test | where status == 200");
    assert_eq!(
        ast.commands,
        vec![Command::Where(binary(
            BinaryOperator::Equal,
            field("status"),
            Expression::Number(200),
        ))]
    );
}

#[test]
fn math_precedence() {
    // a + b * c > 10 groups as (a + (b * c)) > 10
    let ast = parse_ok("source test | where a + b * c > 10");
    assert_eq!(
        ast.commands,
        vec![Command::Where(binary(
            BinaryOperator::GreaterThan,
            binary(
                BinaryOperator::Add,
                field("a"),
                binary(BinaryOperator::Multiply, field("b"), field("c")),
            ),
            Expression::Number(10),
        ))]
    );
}

#[test]
fn parenthesis_precedence() {
    // (a or b) and c keeps the parenthesized disjunction on the left
    let ast = parse_ok("source test | where (a or b) and c");
    assert_eq!(
        ast.commands,
        vec![Command::Where(binary(
            BinaryOperator::And,
            binary(BinaryOperator::Or, field("a"), field("b")),
            field("c"),
        ))]
    );
}

#[test]
fn subtraction_is_left_associative() {
    // a - b - c groups as (a - b) - c, never right-nested
    let ast = parse_ok("source t | where a - b - c");
    assert_eq!(
        ast.commands,
        vec![Command::Where(binary(
            BinaryOperator::Subtract,
            binary(BinaryOperator::Subtract, field("a"), field("b")),
            field("c"),
        ))]
    );
}

#[test]
fn string_quoting() {
    let ast = parse_ok(r#"source test | where name == "O'Conner" "#);
    assert_eq!(
        ast.commands,
        vec![Command::Where(binary(
            BinaryOperator::Equal,
            field("name"),
            Expression::String("\"O'Conner\"".to_string()),
        ))]
    );
}

#[test]
fn test_should_fail() {
    let input = "source |";
    let ast = parse(input);
    assert!(ast.is_err());

    assert!(ast.unwrap_err().len() >= 1);
}

#[test]
fn zero_argument_call_is_legal() {
    let ast = parse_ok("source t | aggr count()");
    assert_eq!(
        ast.commands,
        vec![Command::Aggregate {
            aggregates: vec![(Expression::Call("count".to_string(), vec![]), None)],
            by: vec![],
        }]
    );
}

#[test]
fn aggregate_with_alias_and_grouping() {
    let ast = parse_ok("source t | aggr total = sum(x), count() by region, day");
    assert_eq!(
        ast.commands,
        vec![Command::Aggregate {
            aggregates: vec![
                (
                    Expression::Call("sum".to_string(), vec![field("x")]),
                    Some("total".to_string()),
                ),
                (Expression::Call("count".to_string(), vec![]), None),
            ],
            by: vec![field("region"), field("day")],
        }]
    );
}

#[test]
fn sort_directions_default_to_ascending() {
    let ast = parse_ok("source t | sort a desc, b");
    match &ast.commands[0] {
        Command::Sort(items) => {
            assert_eq!(items.len(), 2);
            assert_eq!(items[0].expression, field("a"));
            assert_eq!(items[0].order, SortOrder::Descending);
            assert_eq!(items[1].expression, field("b"));
            assert_eq!(items[1].order, SortOrder::Ascending);
        }
        other => panic!("expected a sort command, got {:?}", other),
    }
}

#[test]
fn limit_takes_a_signed_integer() {
    let ast = parse_ok("source t | limit 10");
    assert_eq!(ast.commands, vec![Command::Limit(10)]);
    let ast = parse_ok("source t | limit -5");
    assert_eq!(ast.commands, vec![Command::Limit(-5)]);
}

#[test]
fn pipeline_chains_commands_in_order() {
    let ast = parse_ok("source t | where a > 1 | limit 3");
    assert_eq!(ast.commands.len(), 2);
    assert!(matches!(ast.commands[0], Command::Where(_)));
    assert!(matches!(ast.commands[1], Command::Limit(3)));
}

#[test]
fn malformed_input_is_rejected() {
    assert!(parse("").is_err());
    assert!(parse("source").is_err());
    assert!(parse("where a").is_err());
    assert!(parse("source t where a").is_err());
    assert!(parse("source t | where").is_err());
    assert!(parse("source t | limit x").is_err());
    assert!(parse("source t | where f(a,)").is_err());
    assert!(parse("source t | where (a").is_err());
}

// A doubly-invalid input yields one diagnostic per bad command, not
// just the first.
#[test]
fn two_bad_commands_give_two_errors() {
    let err = parse("source t | where @@ | limit x").unwrap_err();
    assert!(err.len() >= 2);
}

// check agrees with parse on validity, input by input.
#[test]
fn check_matches_parse() {
    for source in [
        "source test",
        "source test | where status == 200",
        "source t | aggr count() by a",
        "source |",
        "",
        "source t | where @@ | limit x",
        "nonsense ( | where",
    ] {
        assert_eq!(check(source).is_ok(), parse(source).is_ok());
    }
}

#[test]
fn render_labels_every_error() {
    let source = "source |";
    let err = parse(source).unwrap_err();
    assert_eq!(err.len(), 2);
    let rendered = err.render(source);
    assert_eq!(
        rendered,
        "error: expected 'source' followed by a table name at 1:1\n  source |\n  ^\n\
         error: expected a command after '|' at 1:8\n  source |\n         ^\n"
    );
}

#[test]
fn line_col_counts_newlines() {
    assert_eq!(lantern::parser_error::line_col("ab\ncd", 4), (1, 1));
    assert_eq!(lantern::parser_error::line_col("ab\ncd", 0), (0, 0));
    assert_eq!(lantern::parser_error::line_col("ab\ncd", 3), (1, 0));
}

#[test]
fn sort_direction_words_are_plain_identifiers() {
    // a bare `desc` with no expression before it is itself a field
    let ast = parse_ok("source t | sort desc");
    match &ast.commands[0] {
        Command::Sort(items) => {
            assert_eq!(items.len(), 1);
            assert_eq!(items[0].expression, field("desc"));
            assert_eq!(items[0].order, SortOrder::Ascending);
        }
        other => panic!("expected a sort command, got {:?}", other),
    }
}

#[test]
fn list_commands_need_at_least_one_item() {
    assert!(parse("source t | aggr").is_err());
    assert!(parse("source t | sort").is_err());
    assert!(parse("source t | aggr count() by").is_err());
}

#[test]
fn render_reports_the_right_line() {
    let source = "source t\n| where @@";
    let err = parse(source).unwrap_err();
    assert_eq!(err.len(), 1);
    assert_eq!(
        err.render(source),
        "error: expected a command after '|' at 2:3\n  | where @@\n    ^\n"
    );
}
