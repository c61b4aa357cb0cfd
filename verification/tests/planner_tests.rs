use lantern::parser::parse;
use lantern::planner::{
    Catalog, FunctionRegistry, LiteralValue, LogicalPlan, PlanError, PlanExpression,
    PlanOperator, QueryPlanner,
};

fn setup() -> (Catalog, FunctionRegistry) {
    let mut catalog = Catalog::new();
    catalog.register_table("t".to_string());
    let mut registry = FunctionRegistry::new();
    registry.register_aggregate("count".to_string());
    registry.register_aggregate("sum".to_string());
    registry.register_scalar("upper".to_string());
    (catalog, registry)
}

fn lower(source: &str, catalog: &Catalog, registry: &FunctionRegistry) -> Result<LogicalPlan, PlanError> {
    let query = parse(source).expect("query should parse");
    QueryPlanner::new(catalog, registry).create_logical_plan(query)
}

fn column(name: &str) -> PlanExpression {
    PlanExpression::Column(name.to_string())
}

#[test]
fn bare_scan_lowers_to_a_scan() {
    let (catalog, registry) = setup();
    let plan = lower("source t", &catalog, &registry).unwrap();
    assert_eq!(plan, LogicalPlan::Scan("t".to_string()));
}

// Lowering count() produces the identical node as lowering count(1).
#[test]
fn zero_arg_count_rewrites_to_count_of_one() {
    let (catalog, registry) = setup();
    let a = lower("source t | aggr count()", &catalog, &registry).unwrap();
    let b = lower("source t | aggr count(1)", &catalog, &registry).unwrap();
    assert_eq!(a, b);
    assert_eq!(
        a,
        LogicalPlan::Aggregate(
            Box::new(LogicalPlan::Scan("t".to_string())),
            vec![],
            vec![PlanExpression::AggregateFunction(
                "count".to_string(),
                vec![PlanExpression::Literal(LiteralValue::Integer(1))],
            )],
        )
    );
}

// A name registered as both resolves as an aggregate: the aggregate
// registry is probed first.
#[test]
fn aggregate_resolution_beats_scalar() {
    let mut catalog = Catalog::new();
    catalog.register_table("t".to_string());
    let mut registry = FunctionRegistry::new();
    registry.register_aggregate("f".to_string());
    registry.register_scalar("f".to_string());
    let plan = lower("source t | aggr f(x)", &catalog, &registry).unwrap();
    assert_eq!(
        plan,
        LogicalPlan::Aggregate(
            Box::new(LogicalPlan::Scan("t".to_string())),
            vec![],
            vec![PlanExpression::AggregateFunction(
                "f".to_string(),
                vec![column("x")],
            )],
        )
    );
}

// An unregistered source fails with a table-not-found error naming it.
#[test]
fn unknown_source_fails_by_name() {
    let (catalog, registry) = setup();
    let err = lower("source missing | limit 1", &catalog, &registry).unwrap_err();
    assert_eq!(err, PlanError::TableNotFound("missing".to_string()));
}

#[test]
fn unknown_function_fails_by_name() {
    let (catalog, registry) = setup();
    let err = lower("source t | where g(x)", &catalog, &registry).unwrap_err();
    assert_eq!(err, PlanError::FunctionNotFound("g".to_string()));
}

#[test]
fn scalar_functions_resolve_after_aggregates() {
    let (catalog, registry) = setup();
    let plan = lower("source t | where upper(a)", &catalog, &registry).unwrap();
    assert_eq!(
        plan,
        LogicalPlan::Filter(
            Box::new(LogicalPlan::Scan("t".to_string())),
            PlanExpression::ScalarFunction("upper".to_string(), vec![column("a")]),
        )
    );
}

// and / or lower to the native short-circuit combinators, not to the
// generic binary-operator path.
#[test]
fn logical_operators_use_native_combinators() {
    let (catalog, registry) = setup();
    let plan = lower("source t | where a and b or c", &catalog, &registry).unwrap();
    assert_eq!(
        plan,
        LogicalPlan::Filter(
            Box::new(LogicalPlan::Scan("t".to_string())),
            PlanExpression::Or(
                Box::new(PlanExpression::And(
                    Box::new(column("a")),
                    Box::new(column("b")),
                )),
                Box::new(column("c")),
            ),
        )
    );
}

#[test]
fn arithmetic_and_comparisons_map_to_engine_operators() {
    let (catalog, registry) = setup();
    let plan = lower("source t | where a + b != 2", &catalog, &registry).unwrap();
    assert_eq!(
        plan,
        LogicalPlan::Filter(
            Box::new(LogicalPlan::Scan("t".to_string())),
            PlanExpression::Binary(
                PlanOperator::NotEq,
                Box::new(PlanExpression::Binary(
                    PlanOperator::Plus,
                    Box::new(column("a")),
                    Box::new(column("b")),
                )),
                Box::new(PlanExpression::Literal(LiteralValue::Integer(2))),
            ),
        )
    );
}

#[test]
fn full_pipeline_folds_left_to_right() {
    let (catalog, registry) = setup();
    let plan = lower(
        "source t | where a > 1 | sort a desc, b | limit 3 | aggr total = sum(x) by day",
        &catalog,
        &registry,
    )
    .unwrap();
    match &plan {
        LogicalPlan::Aggregate(limit, group, aggs) => {
            assert_eq!(group, &vec![column("day")]);
            assert_eq!(
                aggs,
                &vec![PlanExpression::Alias(
                    Box::new(PlanExpression::AggregateFunction(
                        "sum".to_string(),
                        vec![column("x")],
                    )),
                    "total".to_string(),
                )]
            );
            match &**limit {
                LogicalPlan::Limit(sort, 3) => match &**sort {
                    LogicalPlan::Sort(filter, items) => {
                        assert_eq!(items.len(), 2);
                        assert_eq!(items[0].expression, column("a"));
                        assert!(!items[0].ascending);
                        assert_eq!(items[1].expression, column("b"));
                        assert!(items[1].ascending);
                        assert!(matches!(&**filter, LogicalPlan::Filter(_, _)));
                    }
                    other => panic!("expected a sort under the limit, got {:?}", other),
                },
                other => panic!("expected a limit under the aggregate, got {:?}", other),
            }
        }
        other => panic!("expected an aggregate at the top, got {:?}", other),
    }
}

#[test]
fn string_and_negative_literals_lower_unchanged() {
    let (catalog, registry) = setup();
    let plan = lower(r#"source t | where name == "x" | limit -5"#, &catalog, &registry).unwrap();
    match plan {
        LogicalPlan::Limit(filter, n) => {
            assert_eq!(n, -5);
            assert_eq!(
                *filter,
                LogicalPlan::Filter(
                    Box::new(LogicalPlan::Scan("t".to_string())),
                    PlanExpression::Binary(
                        PlanOperator::Eq,
                        Box::new(column("name")),
                        Box::new(PlanExpression::Literal(LiteralValue::Text(
                            "\"x\"".to_string(),
                        ))),
                    ),
                ),
            );
        }
        other => panic!("expected a limit at the top, got {:?}", other),
    }
}

#[test]
fn registering_a_table_twice_keeps_it_registered() {
    let mut catalog = Catalog::new();
    assert!(!catalog.has_table("t"));
    catalog.register_table("t".to_string());
    catalog.register_table("t".to_string());
    assert!(catalog.has_table("t"));
    assert!(!catalog.has_table("other"));
}

#[test]
fn registry_lookups_are_kind_specific() {
    let (_, registry) = setup();
    assert!(registry.lookup_aggregate("count"));
    assert!(!registry.lookup_scalar("count"));
    assert!(registry.lookup_scalar("upper"));
    assert!(!registry.lookup_aggregate("upper"));
    assert!(!registry.lookup_aggregate("missing"));
}
