//! Lowering: a parsed [`Query`] driven into a logical plan for the
//! execution engine.
//!
//! The planner walks the command pipeline left to right, folding each
//! command onto the plan built so far: `where` becomes a filter, `sort` a
//! sort with an explicit direction per item, `limit` a row cap with the
//! offset fixed at zero, and `aggr` a group-by with the aggregate
//! expressions, each optionally wrapped in its alias.
//!
//! Expression mapping is structural, with two special cases. Logical
//! `and`/`or` become the engine's native short-circuiting combinators
//! rather than generic binary operators. And a zero-argument call of
//! `count` is rewritten to `count(1)` before resolution, so that it keeps
//! its count-all-rows meaning.
//!
//! Calls resolve against a [`FunctionRegistry`] in a fixed order: a name
//! is probed as an aggregate function first, then as a scalar function;
//! a name registered as neither fails the lowering. The query's source is
//! resolved against a [`Catalog`] before anything else; an unknown source
//! fails with [`PlanError::TableNotFound`]. Lowering is fail-fast: the
//! first error aborts the fold.

use vstd::prelude::*;

use crate::ast::{
    BinaryOperator, Command, CommandModel, Expression, ExpressionModel, Query, QueryModel,
    SortExpressionModel, SortOrder,
};

verus! {

// ---------------------------------------------------------------------------
// The catalog and the function registry
// ---------------------------------------------------------------------------

/// The models of a sequence of names.
pub open spec fn strings_models(v: Seq<String>) -> Seq<Seq<char>> {
    v.map_values(|s: String| s@)
}

/// Whether `name` is among `names`.
pub open spec fn contains_name(names: Seq<Seq<char>>, name: Seq<char>) -> bool {
    names.contains(name)
}

/// The tables the engine knows. Lowering only reads it; registration is
/// the session's concern and is kept register-if-absent, so registering
/// twice leaves one entry.
#[derive(Debug)]
pub struct Catalog {
    tables: Vec<String>,
}

impl View for Catalog {
    type V = Seq<Seq<char>>;

    closed spec fn view(&self) -> Seq<Seq<char>> {
        strings_models(self.tables@)
    }
}

impl Catalog {
    pub fn new() -> (r: Self)
        ensures
            r@ == Seq::<Seq<char>>::empty(),
    {
        let r = Self { tables: Vec::new() };
        proof {
            assert(r@ =~= Seq::<Seq<char>>::empty());
        }
        r
    }

    /// Registers a table if it is absent; a second registration of the
    /// same name changes nothing.
    pub fn register_table(&mut self, name: String)
        ensures
            final(self)@ == if contains_name(old(self)@, name@) {
                old(self)@
            } else {
                old(self)@.push(name@)
            },
    {
        if !contains_str(&self.tables, name.as_str()) {
            let ghost prev = strings_models(self.tables@);
            self.tables.push(name);
            proof {
                assert(strings_models(self.tables@) =~= prev.push(self.tables@.last()@));
            }
        }
    }

    /// Whether `name` resolves to a registered table.
    pub fn has_table(&self, name: &str) -> (r: bool)
        ensures
            r == contains_name(self@, name@),
    {
        contains_str(&self.tables, name)
    }
}

/// The model of a [`FunctionRegistry`]: the registered aggregate and
/// scalar function names.
pub struct FunctionRegistryModel {
    pub aggregates: Seq<Seq<char>>,
    pub scalars: Seq<Seq<char>>,
}

/// The functions the engine knows, split into aggregate functions (a
/// group of rows to one value) and scalar functions (row by row).
#[derive(Debug)]
pub struct FunctionRegistry {
    aggregates: Vec<String>,
    scalars: Vec<String>,
}

impl View for FunctionRegistry {
    type V = FunctionRegistryModel;

    closed spec fn view(&self) -> FunctionRegistryModel {
        FunctionRegistryModel {
            aggregates: strings_models(self.aggregates@),
            scalars: strings_models(self.scalars@),
        }
    }
}

impl FunctionRegistry {
    pub fn new() -> (r: Self)
        ensures
            r@.aggregates == Seq::<Seq<char>>::empty(),
            r@.scalars == Seq::<Seq<char>>::empty(),
    {
        let r = Self { aggregates: Vec::new(), scalars: Vec::new() };
        proof {
            assert(r@.aggregates =~= Seq::<Seq<char>>::empty());
            assert(r@.scalars =~= Seq::<Seq<char>>::empty());
        }
        r
    }

    pub fn register_aggregate(&mut self, name: String)
        ensures
            final(self)@.aggregates == old(self)@.aggregates.push(name@),
            final(self)@.scalars == old(self)@.scalars,
    {
        let ghost prev = strings_models(self.aggregates@);
        let ghost nm = name@;
        self.aggregates.push(name);
        proof {
            assert(strings_models(self.aggregates@) =~= prev.push(nm));
        }
    }

    pub fn register_scalar(&mut self, name: String)
        ensures
            final(self)@.scalars == old(self)@.scalars.push(name@),
            final(self)@.aggregates == old(self)@.aggregates,
    {
        let ghost prev = strings_models(self.scalars@);
        let ghost nm = name@;
        self.scalars.push(name);
        proof {
            assert(strings_models(self.scalars@) =~= prev.push(nm));
        }
    }

    /// Whether `name` is registered as an aggregate function.
    pub fn lookup_aggregate(&self, name: &str) -> (r: bool)
        ensures
            r == contains_name(self@.aggregates, name@),
    {
        contains_str(&self.aggregates, name)
    }

    /// Whether `name` is registered as a scalar function.
    pub fn lookup_scalar(&self, name: &str) -> (r: bool)
        ensures
            r == contains_name(self@.scalars, name@),
    {
        contains_str(&self.scalars, name)
    }
}

/// Character-by-character membership of `name` in `v`.
fn contains_str(v: &Vec<String>, name: &str) -> (r: bool)
    ensures
        r == contains_name(strings_models(v@), name@),
{
    let n = v.len();
    let mut k: usize = 0;
    while k < n
        invariant
            n == v@.len(),
            k <= n,
            forall|m: int| 0 <= m < k ==> strings_models(v@)[m] != name@,
        decreases n - k,
    {
        if crate::lexer::str_eq(v[k].as_str(), name) {
            assert(strings_models(v@)[k as int] == name@);
            return true;
        }
        k = k + 1;
    }
    false
}

} // verus!

verus! {

// ---------------------------------------------------------------------------
// The logical plan
// ---------------------------------------------------------------------------

/// An engine literal.
#[derive(Debug, PartialEq)]
pub enum LiteralValue {
    Null,
    Boolean(bool),
    Integer(i64),
    Text(String),
}

/// The model of a [`LiteralValue`].
pub enum LiteralValueModel {
    Null,
    Boolean(bool),
    Integer(int),
    Text(Seq<char>),
}

impl View for LiteralValue {
    type V = LiteralValueModel;

    open spec fn view(&self) -> LiteralValueModel {
        match *self {
            LiteralValue::Null => LiteralValueModel::Null,
            LiteralValue::Boolean(b) => LiteralValueModel::Boolean(b),
            LiteralValue::Integer(n) => LiteralValueModel::Integer(n as int),
            LiteralValue::Text(ref s) => LiteralValueModel::Text(s@),
        }
    }
}

/// An engine binary operator. Logical conjunction and disjunction are not
/// here: they lower to [`PlanExpression::And`] and [`PlanExpression::Or`].
#[derive(Clone, Copy, Debug, PartialEq, Eq, Structural)]
pub enum PlanOperator {
    Plus,
    Minus,
    Multiply,
    Divide,
    Eq,
    NotEq,
    Gt,
    GtEq,
    Lt,
    LtEq,
}

/// An engine expression, as the lowering hands it to the plan builder.
#[derive(Debug, PartialEq)]
pub enum PlanExpression {
    Literal(LiteralValue),
    /// A column reference by name, resolved lazily by the engine.
    Column(String),
    Binary(PlanOperator, Box<PlanExpression>, Box<PlanExpression>),
    /// The engine's native short-circuiting conjunction.
    And(Box<PlanExpression>, Box<PlanExpression>),
    /// The engine's native short-circuiting disjunction.
    Or(Box<PlanExpression>, Box<PlanExpression>),
    /// An aggregate-function node: non-distinct, no filter, no explicit
    /// ordering, no null-treatment override.
    AggregateFunction(String, Vec<PlanExpression>),
    ScalarFunction(String, Vec<PlanExpression>),
    Alias(Box<PlanExpression>, String),
}

/// The model of a [`PlanExpression`].
pub enum PlanExpressionModel {
    Literal(LiteralValueModel),
    Column(Seq<char>),
    Binary(PlanOperator, Box<PlanExpressionModel>, Box<PlanExpressionModel>),
    And(Box<PlanExpressionModel>, Box<PlanExpressionModel>),
    Or(Box<PlanExpressionModel>, Box<PlanExpressionModel>),
    AggregateFunction(Seq<char>, Seq<PlanExpressionModel>),
    ScalarFunction(Seq<char>, Seq<PlanExpressionModel>),
    Alias(Box<PlanExpressionModel>, Seq<char>),
}

impl PlanExpression {
    /// The model of this plan expression.
    pub open spec fn model(self) -> PlanExpressionModel
        decreases self,
    {
        match self {
            PlanExpression::Literal(v) => PlanExpressionModel::Literal(v@),
            PlanExpression::Column(name) => PlanExpressionModel::Column(name@),
            PlanExpression::Binary(op, l, r) => PlanExpressionModel::Binary(
                op,
                Box::new((*l).model()),
                Box::new((*r).model()),
            ),
            PlanExpression::And(l, r) => PlanExpressionModel::And(
                Box::new((*l).model()),
                Box::new((*r).model()),
            ),
            PlanExpression::Or(l, r) => PlanExpressionModel::Or(
                Box::new((*l).model()),
                Box::new((*r).model()),
            ),
            PlanExpression::AggregateFunction(name, args) => PlanExpressionModel::AggregateFunction(
                name@,
                Seq::new(
                    args@.len(),
                    |i: int|
                        if 0 <= i < args@.len() {
                            args@[i].model()
                        } else {
                            PlanExpressionModel::Column(Seq::empty())
                        },
                ),
            ),
            PlanExpression::ScalarFunction(name, args) => PlanExpressionModel::ScalarFunction(
                name@,
                Seq::new(
                    args@.len(),
                    |i: int|
                        if 0 <= i < args@.len() {
                            args@[i].model()
                        } else {
                            PlanExpressionModel::Column(Seq::empty())
                        },
                ),
            ),
            PlanExpression::Alias(e, name) => PlanExpressionModel::Alias(
                Box::new((*e).model()),
                name@,
            ),
        }
    }
}

impl View for PlanExpression {
    type V = PlanExpressionModel;

    open spec fn view(&self) -> PlanExpressionModel {
        self.model()
    }
}

/// The models of a sequence of plan expressions.
pub open spec fn plan_exprs_models(v: Seq<PlanExpression>) -> Seq<PlanExpressionModel> {
    v.map_values(|e: PlanExpression| e.model())
}

/// One sort item of a sort node. Nulls sort last: the lowering does not
/// override the engine's default.
#[derive(Debug, PartialEq)]
pub struct PlanSortExpression {
    pub expression: PlanExpression,
    pub ascending: bool,
}

/// The model of a [`PlanSortExpression`].
pub struct PlanSortExpressionModel {
    pub expression: PlanExpressionModel,
    pub ascending: bool,
}

impl View for PlanSortExpression {
    type V = PlanSortExpressionModel;

    open spec fn view(&self) -> PlanSortExpressionModel {
        PlanSortExpressionModel { expression: self.expression.model(), ascending: self.ascending }
    }
}

/// The models of a sequence of plan sort items.
pub open spec fn plan_sorts_models(v: Seq<PlanSortExpression>) -> Seq<PlanSortExpressionModel> {
    v.map_values(|s: PlanSortExpression| s@)
}

/// The logical plan handed to the execution engine: a scan with the
/// lowered commands folded onto it, innermost first.
#[derive(Debug, PartialEq)]
pub enum LogicalPlan {
    /// A table scan by name.
    Scan(String),
    Filter(Box<LogicalPlan>, PlanExpression),
    Sort(Box<LogicalPlan>, Vec<PlanSortExpression>),
    /// A row cap; the offset is fixed at zero.
    Limit(Box<LogicalPlan>, i64),
    /// A group-by: the grouping expressions, then the aggregate
    /// expressions in output-column order.
    Aggregate(Box<LogicalPlan>, Vec<PlanExpression>, Vec<PlanExpression>),
}

/// The model of a [`LogicalPlan`].
pub enum LogicalPlanModel {
    Scan(Seq<char>),
    Filter(Box<LogicalPlanModel>, PlanExpressionModel),
    Sort(Box<LogicalPlanModel>, Seq<PlanSortExpressionModel>),
    Limit(Box<LogicalPlanModel>, int),
    Aggregate(Box<LogicalPlanModel>, Seq<PlanExpressionModel>, Seq<PlanExpressionModel>),
}

impl LogicalPlan {
    /// The model of this plan.
    pub open spec fn model(self) -> LogicalPlanModel
        decreases self,
    {
        match self {
            LogicalPlan::Scan(name) => LogicalPlanModel::Scan(name@),
            LogicalPlan::Filter(input, e) => LogicalPlanModel::Filter(
                Box::new((*input).model()),
                e.model(),
            ),
            LogicalPlan::Sort(input, items) => LogicalPlanModel::Sort(
                Box::new((*input).model()),
                plan_sorts_models(items@),
            ),
            LogicalPlan::Limit(input, n) => LogicalPlanModel::Limit(
                Box::new((*input).model()),
                n as int,
            ),
            LogicalPlan::Aggregate(input, group, aggregates) => LogicalPlanModel::Aggregate(
                Box::new((*input).model()),
                plan_exprs_models(group@),
                plan_exprs_models(aggregates@),
            ),
        }
    }
}

impl View for LogicalPlan {
    type V = LogicalPlanModel;

    open spec fn view(&self) -> LogicalPlanModel {
        self.model()
    }
}

/// The terminal error of a lowering: the failing construct by name.
#[derive(Debug, PartialEq)]
pub enum PlanError {
    /// The query's source is not a registered table.
    TableNotFound(String),
    /// A called name is registered neither as an aggregate nor as a
    /// scalar function.
    FunctionNotFound(String),
}

/// The model of a [`PlanError`].
pub enum PlanErrorModel {
    TableNotFound(Seq<char>),
    FunctionNotFound(Seq<char>),
}

impl View for PlanError {
    type V = PlanErrorModel;

    open spec fn view(&self) -> PlanErrorModel {
        match *self {
            PlanError::TableNotFound(ref s) => PlanErrorModel::TableNotFound(s@),
            PlanError::FunctionNotFound(ref s) => PlanErrorModel::FunctionNotFound(s@),
        }
    }
}

} // verus!

verus! {

// ---------------------------------------------------------------------------
// Lowering, as functions of the models
// ---------------------------------------------------------------------------

/// The engine operator for an arithmetic or comparison operator. `and`
/// and `or` never reach this mapping: they lower to the native
/// combinators.
pub open spec fn sp_map_operator(op: BinaryOperator) -> PlanOperator
    recommends
        op != BinaryOperator::And,
        op != BinaryOperator::Or,
{
    match op {
        BinaryOperator::Add => PlanOperator::Plus,
        BinaryOperator::Subtract => PlanOperator::Minus,
        BinaryOperator::Multiply => PlanOperator::Multiply,
        BinaryOperator::Divide => PlanOperator::Divide,
        BinaryOperator::Equal => PlanOperator::Eq,
        BinaryOperator::NotEqual => PlanOperator::NotEq,
        BinaryOperator::GreaterThan => PlanOperator::Gt,
        BinaryOperator::GreaterThanOrEqual => PlanOperator::GtEq,
        BinaryOperator::LessThan => PlanOperator::Lt,
        BinaryOperator::LessThanOrEqual => PlanOperator::LtEq,
        BinaryOperator::And => PlanOperator::Plus,
        BinaryOperator::Or => PlanOperator::Plus,
    }
}

/// Lowering one expression against the registry: the engine expression,
/// or the first function name that resolves to nothing.
pub open spec fn sp_map_expression(e: ExpressionModel, reg: FunctionRegistryModel) -> Result<
    PlanExpressionModel,
    Seq<char>,
>
    decreases e,
{
    match e {
        ExpressionModel::Null => Result::Ok(PlanExpressionModel::Literal(LiteralValueModel::Null)),
        ExpressionModel::Boolean(b) => Result::Ok(
            PlanExpressionModel::Literal(LiteralValueModel::Boolean(b)),
        ),
        ExpressionModel::Number(n) => Result::Ok(
            PlanExpressionModel::Literal(LiteralValueModel::Integer(n)),
        ),
        ExpressionModel::String(s) => Result::Ok(
            PlanExpressionModel::Literal(LiteralValueModel::Text(s)),
        ),
        ExpressionModel::Field(name) => Result::Ok(PlanExpressionModel::Column(name)),
        ExpressionModel::Binary(op, l, r) => match sp_map_expression(*l, reg) {
            Result::Err(n) => Result::Err(n),
            Result::Ok(pl) => match sp_map_expression(*r, reg) {
                Result::Err(n) => Result::Err(n),
                Result::Ok(pr) => if op == BinaryOperator::And {
                    Result::Ok(PlanExpressionModel::And(Box::new(pl), Box::new(pr)))
                } else if op == BinaryOperator::Or {
                    Result::Ok(PlanExpressionModel::Or(Box::new(pl), Box::new(pr)))
                } else {
                    Result::Ok(
                        PlanExpressionModel::Binary(
                            sp_map_operator(op),
                            Box::new(pl),
                            Box::new(pr),
                        ),
                    )
                },
            },
        },
        ExpressionModel::Call(name, args) => {
            let mapped = if name == "count"@ && args.len() == 0 {
                Result::Ok(
                    seq![PlanExpressionModel::Literal(LiteralValueModel::Integer(1))],
                )
            } else {
                sp_map_expressions(args, reg)
            };
            match mapped {
                Result::Err(n) => Result::Err(n),
                Result::Ok(pargs) => if contains_name(reg.aggregates, name) {
                    Result::Ok(PlanExpressionModel::AggregateFunction(name, pargs))
                } else if contains_name(reg.scalars, name) {
                    Result::Ok(PlanExpressionModel::ScalarFunction(name, pargs))
                } else {
                    Result::Err(name)
                },
            }
        },
    }
}

/// Lowering a sequence of expressions, failing on the first that fails.
pub open spec fn sp_map_expressions(args: Seq<ExpressionModel>, reg: FunctionRegistryModel) -> Result<
    Seq<PlanExpressionModel>,
    Seq<char>,
>
    decreases args,
{
    if args.len() == 0 {
        Result::Ok(Seq::empty())
    } else {
        match sp_map_expression(args[0], reg) {
            Result::Err(n) => Result::Err(n),
            Result::Ok(p) => match sp_map_expressions(args.drop_first(), reg) {
                Result::Err(n) => Result::Err(n),
                Result::Ok(rest) => Result::Ok(seq![p] + rest),
            },
        }
    }
}

/// Lowering the items of a sort command.
pub open spec fn sp_map_sorts(
    items: Seq<SortExpressionModel>,
    reg: FunctionRegistryModel,
) -> Result<Seq<PlanSortExpressionModel>, Seq<char>>
    decreases items,
{
    if items.len() == 0 {
        Result::Ok(Seq::empty())
    } else {
        match sp_map_expression(items[0].expression, reg) {
            Result::Err(n) => Result::Err(n),
            Result::Ok(p) => {
                let item = PlanSortExpressionModel {
                    expression: p,
                    ascending: items[0].order == SortOrder::Ascending,
                };
                match sp_map_sorts(items.drop_first(), reg) {
                    Result::Err(n) => Result::Err(n),
                    Result::Ok(rest) => Result::Ok(seq![item] + rest),
                }
            },
        }
    }
}

/// Lowering the items of an aggregate command: each expression, wrapped
/// in its alias where one was written.
pub open spec fn sp_map_aggs(
    items: Seq<(ExpressionModel, Option<Seq<char>>)>,
    reg: FunctionRegistryModel,
) -> Result<Seq<PlanExpressionModel>, Seq<char>>
    decreases items,
{
    if items.len() == 0 {
        Result::Ok(Seq::empty())
    } else {
        match sp_map_expression(items[0].0, reg) {
            Result::Err(n) => Result::Err(n),
            Result::Ok(p) => {
                let e = match items[0].1 {
                    Option::Some(alias) => PlanExpressionModel::Alias(Box::new(p), alias),
                    Option::None => p,
                };
                match sp_map_aggs(items.drop_first(), reg) {
                    Result::Err(n) => Result::Err(n),
                    Result::Ok(rest) => Result::Ok(seq![e] + rest),
                }
            },
        }
    }
}

/// Folding one command onto the plan built so far.
pub open spec fn sp_apply_command(
    plan: LogicalPlanModel,
    c: CommandModel,
    reg: FunctionRegistryModel,
) -> Result<LogicalPlanModel, Seq<char>> {
    match c {
        CommandModel::Where(e) => match sp_map_expression(e, reg) {
            Result::Err(n) => Result::Err(n),
            Result::Ok(p) => Result::Ok(LogicalPlanModel::Filter(Box::new(plan), p)),
        },
        CommandModel::Sort(items) => match sp_map_sorts(items, reg) {
            Result::Err(n) => Result::Err(n),
            Result::Ok(ps) => Result::Ok(LogicalPlanModel::Sort(Box::new(plan), ps)),
        },
        CommandModel::Limit(n) => Result::Ok(LogicalPlanModel::Limit(Box::new(plan), n)),
        CommandModel::Aggregate { aggregates, by } => match sp_map_expressions(by, reg) {
            Result::Err(n) => Result::Err(n),
            Result::Ok(group) => match sp_map_aggs(aggregates, reg) {
                Result::Err(n) => Result::Err(n),
                Result::Ok(aexprs) => Result::Ok(
                    LogicalPlanModel::Aggregate(Box::new(plan), group, aexprs),
                ),
            },
        },
    }
}

/// The linear fold over the pipeline: each command consumes the plan the
/// previous one produced; the first error aborts.
pub open spec fn sp_lower_commands(
    plan: LogicalPlanModel,
    cmds: Seq<CommandModel>,
    reg: FunctionRegistryModel,
) -> Result<LogicalPlanModel, Seq<char>>
    decreases cmds,
{
    if cmds.len() == 0 {
        Result::Ok(plan)
    } else {
        match sp_apply_command(plan, cmds[0], reg) {
            Result::Err(n) => Result::Err(n),
            Result::Ok(p2) => sp_lower_commands(p2, cmds.drop_first(), reg),
        }
    }
}

/// The whole lowering: resolve the source against the catalog, then fold
/// the commands over the scan.
pub open spec fn sp_lower(
    q: QueryModel,
    catalog: Seq<Seq<char>>,
    reg: FunctionRegistryModel,
) -> Result<LogicalPlanModel, PlanErrorModel> {
    if !contains_name(catalog, q.source) {
        Result::Err(PlanErrorModel::TableNotFound(q.source))
    } else {
        match sp_lower_commands(LogicalPlanModel::Scan(q.source), q.commands, reg) {
            Result::Err(n) => Result::Err(PlanErrorModel::FunctionNotFound(n)),
            Result::Ok(p) => Result::Ok(p),
        }
    }
}

/// The model of an executable lowering result.
pub open spec fn lower_result_model(r: Result<LogicalPlan, PlanError>) -> Result<
    LogicalPlanModel,
    PlanErrorModel,
> {
    match r {
        Result::Ok(p) => Result::Ok(p@),
        Result::Err(e) => Result::Err(e@),
    }
}

} // verus!

verus! {

// ---------------------------------------------------------------------------
// The executable planner
// ---------------------------------------------------------------------------

/// Builds logical plans for queries against one catalog and one function
/// registry.
pub struct QueryPlanner<'a> {
    pub catalog: &'a Catalog,
    pub registry: &'a FunctionRegistry,
}

fn map_operator(operator: BinaryOperator) -> (r: PlanOperator)
    requires
        operator != BinaryOperator::And,
        operator != BinaryOperator::Or,
    ensures
        r == sp_map_operator(operator),
{
    match operator {
        BinaryOperator::Add => PlanOperator::Plus,
        BinaryOperator::Subtract => PlanOperator::Minus,
        BinaryOperator::Multiply => PlanOperator::Multiply,
        BinaryOperator::Divide => PlanOperator::Divide,
        BinaryOperator::Equal => PlanOperator::Eq,
        BinaryOperator::NotEqual => PlanOperator::NotEq,
        BinaryOperator::GreaterThan => PlanOperator::Gt,
        BinaryOperator::GreaterThanOrEqual => PlanOperator::GtEq,
        BinaryOperator::LessThan => PlanOperator::Lt,
        // excluded by the precondition; the arms keep the match total
        BinaryOperator::And => PlanOperator::Plus,
        BinaryOperator::Or => PlanOperator::Plus,
        BinaryOperator::LessThanOrEqual => PlanOperator::LtEq,
    }
}

impl<'a> QueryPlanner<'a> {
    pub fn new(catalog: &'a Catalog, registry: &'a FunctionRegistry) -> (r: Self)
        ensures
            r.catalog == catalog,
            r.registry == registry,
    {
        Self { catalog, registry }
    }

    fn map_expression(&self, expression: &Expression) -> (r: Result<PlanExpression, PlanError>)
        ensures
            r matches Ok(p) ==> sp_map_expression(expression@, self.registry@) == Result::<
                PlanExpressionModel,
                Seq<char>,
            >::Ok(p@),
            r matches Err(e) ==> sp_map_expression(expression@, self.registry@) matches
                Result::Err(n) && e@ == PlanErrorModel::FunctionNotFound(n),
        decreases expression,
    {
        match expression {
            Expression::Null => Ok(PlanExpression::Literal(LiteralValue::Null)),
            Expression::Boolean(b) => Ok(PlanExpression::Literal(LiteralValue::Boolean(*b))),
            Expression::Number(n) => Ok(PlanExpression::Literal(LiteralValue::Integer(*n))),
            Expression::String(s) => Ok(PlanExpression::Literal(LiteralValue::Text(s.clone()))),
            Expression::Field(name) => Ok(PlanExpression::Column(name.clone())),
            Expression::Binary(op, l, r) => {
                let pl = match self.map_expression(&**l) {
                    Ok(p) => p,
                    Err(e) => {
                        return Err(e);
                    },
                };
                let pr = match self.map_expression(&**r) {
                    Ok(p) => p,
                    Err(e) => {
                        return Err(e);
                    },
                };
                if matches!(op, BinaryOperator::And) {
                    Ok(PlanExpression::And(Box::new(pl), Box::new(pr)))
                } else if matches!(op, BinaryOperator::Or) {
                    Ok(PlanExpression::Or(Box::new(pl), Box::new(pr)))
                } else {
                    Ok(PlanExpression::Binary(map_operator(*op), Box::new(pl), Box::new(pr)))
                }
            },
            Expression::Call(name, args) => {
                proof {
                    assert(expression@->Call_1 =~= crate::ast::exprs_models(args@));
                }
                let mapped: Result<Vec<PlanExpression>, PlanError> = if crate::lexer::str_eq(
                    name.as_str(),
                    "count",
                ) && args.len() == 0 {
                    let mut one: Vec<PlanExpression> = Vec::new();
                    one.push(PlanExpression::Literal(LiteralValue::Integer(1)));
                    proof {
                        assert(plan_exprs_models(one@) =~= seq![
                            PlanExpressionModel::Literal(LiteralValueModel::Integer(1)),
                        ]);
                    }
                    Ok(one)
                } else {
                    self.map_expressions(args)
                };
                let pargs = match mapped {
                    Ok(v) => v,
                    Err(e) => {
                        return Err(e);
                    },
                };
                let ghost pm = plan_exprs_models(pargs@);
                if self.registry.lookup_aggregate(name.as_str()) {
                    let e = PlanExpression::AggregateFunction(name.clone(), pargs);
                    proof {
                        assert(e.model()->AggregateFunction_1 =~= pm);
                    }
                    Ok(e)
                } else if self.registry.lookup_scalar(name.as_str()) {
                    let e = PlanExpression::ScalarFunction(name.clone(), pargs);
                    proof {
                        assert(e.model()->ScalarFunction_1 =~= pm);
                    }
                    Ok(e)
                } else {
                    Err(PlanError::FunctionNotFound(name.clone()))
                }
            },
        }
    }

    fn map_expressions(&self, exprs: &Vec<Expression>) -> (r: Result<Vec<PlanExpression>, PlanError>)
        ensures
            r matches Ok(v) ==> sp_map_expressions(crate::ast::exprs_models(exprs@), self.registry@)
                == Result::<Seq<PlanExpressionModel>, Seq<char>>::Ok(plan_exprs_models(v@)),
            r matches Err(e) ==> sp_map_expressions(crate::ast::exprs_models(exprs@), self.registry@)
                matches Result::Err(n) && e@ == PlanErrorModel::FunctionNotFound(n),
        decreases exprs@,
    {
        let n = exprs.len();
        let ghost am = crate::ast::exprs_models(exprs@);
        let mut out: Vec<PlanExpression> = Vec::new();
        let mut k: usize = 0;
        proof {
            assert(am.subrange(0, n as int) =~= am);
        }
        while k < n
            invariant
                n == exprs@.len(),
                k <= n,
                am == crate::ast::exprs_models(exprs@),
                sp_map_expressions(am, self.registry@) == match sp_map_expressions(
                    am.subrange(k as int, n as int),
                    self.registry@,
                ) {
                    Result::Err(nm) => Result::<Seq<PlanExpressionModel>, Seq<char>>::Err(nm),
                    Result::Ok(rest) => Result::Ok(plan_exprs_models(out@) + rest),
                },
            decreases n - k,
        {
            match self.map_expression(&exprs[k]) {
                Err(e) => {
                    return Err(e);
                },
                Ok(p) => {
                    let ghost pm = p@;
                    let ghost prev = plan_exprs_models(out@);
                    out.push(p);
                    proof {
                        assert(plan_exprs_models(out@) =~= prev.push(pm));
                        assert(am.subrange(k as int, n as int).drop_first() =~= am.subrange(
                            k as int + 1,
                            n as int,
                        ));
                        if let Result::Ok(rest) = sp_map_expressions(
                            am.subrange(k as int + 1, n as int),
                            self.registry@,
                        ) {
                            assert(prev + (seq![pm] + rest) =~= prev.push(pm) + rest);
                        }
                    }
                    k = k + 1;
                },
            }
        }
        proof {
            assert(am.subrange(n as int, n as int) =~= Seq::<ExpressionModel>::empty());
            assert(plan_exprs_models(out@) + Seq::<PlanExpressionModel>::empty()
                =~= plan_exprs_models(out@));
        }
        Ok(out)
    }

    fn map_sorts(&self, items: &Vec<crate::ast::SortExpression>) -> (r: Result<
        Vec<PlanSortExpression>,
        PlanError,
    >)
        ensures
            r matches Ok(v) ==> sp_map_sorts(crate::ast::sorts_models(items@), self.registry@)
                == Result::<Seq<PlanSortExpressionModel>, Seq<char>>::Ok(plan_sorts_models(v@)),
            r matches Err(e) ==> sp_map_sorts(crate::ast::sorts_models(items@), self.registry@)
                matches Result::Err(n) && e@ == PlanErrorModel::FunctionNotFound(n),
    {
        let n = items.len();
        let ghost am = crate::ast::sorts_models(items@);
        let mut out: Vec<PlanSortExpression> = Vec::new();
        let mut k: usize = 0;
        proof {
            assert(am.subrange(0, n as int) =~= am);
        }
        while k < n
            invariant
                n == items@.len(),
                k <= n,
                am == crate::ast::sorts_models(items@),
                sp_map_sorts(am, self.registry@) == match sp_map_sorts(
                    am.subrange(k as int, n as int),
                    self.registry@,
                ) {
                    Result::Err(nm) => Result::<Seq<PlanSortExpressionModel>, Seq<char>>::Err(nm),
                    Result::Ok(rest) => Result::Ok(plan_sorts_models(out@) + rest),
                },
            decreases n - k,
        {
            match self.map_expression(&items[k].expression) {
                Err(e) => {
                    return Err(e);
                },
                Ok(p) => {
                    let ascending = matches!(items[k].order, SortOrder::Ascending);
                    let item = PlanSortExpression { expression: p, ascending };
                    let ghost pm = item@;
                    let ghost prev = plan_sorts_models(out@);
                    out.push(item);
                    proof {
                        assert(plan_sorts_models(out@) =~= prev.push(pm));
                        assert(am.subrange(k as int, n as int).drop_first() =~= am.subrange(
                            k as int + 1,
                            n as int,
                        ));
                        if let Result::Ok(rest) = sp_map_sorts(
                            am.subrange(k as int + 1, n as int),
                            self.registry@,
                        ) {
                            assert(prev + (seq![pm] + rest) =~= prev.push(pm) + rest);
                        }
                    }
                    k = k + 1;
                },
            }
        }
        proof {
            assert(am.subrange(n as int, n as int) =~= Seq::<SortExpressionModel>::empty());
            assert(plan_sorts_models(out@) + Seq::<PlanSortExpressionModel>::empty()
                =~= plan_sorts_models(out@));
        }
        Ok(out)
    }

    fn map_aggs(&self, items: &Vec<(Expression, Option<String>)>) -> (r: Result<
        Vec<PlanExpression>,
        PlanError,
    >)
        ensures
            r matches Ok(v) ==> sp_map_aggs(crate::ast::aggs_models(items@), self.registry@)
                == Result::<Seq<PlanExpressionModel>, Seq<char>>::Ok(plan_exprs_models(v@)),
            r matches Err(e) ==> sp_map_aggs(crate::ast::aggs_models(items@), self.registry@)
                matches Result::Err(n) && e@ == PlanErrorModel::FunctionNotFound(n),
    {
        let n = items.len();
        let ghost am = crate::ast::aggs_models(items@);
        let mut out: Vec<PlanExpression> = Vec::new();
        let mut k: usize = 0;
        proof {
            assert(am.subrange(0, n as int) =~= am);
        }
        while k < n
            invariant
                n == items@.len(),
                k <= n,
                am == crate::ast::aggs_models(items@),
                sp_map_aggs(am, self.registry@) == match sp_map_aggs(
                    am.subrange(k as int, n as int),
                    self.registry@,
                ) {
                    Result::Err(nm) => Result::<Seq<PlanExpressionModel>, Seq<char>>::Err(nm),
                    Result::Ok(rest) => Result::Ok(plan_exprs_models(out@) + rest),
                },
            decreases n - k,
        {
            match self.map_expression(&items[k].0) {
                Err(e) => {
                    return Err(e);
                },
                Ok(p) => {
                    let e = match &items[k].1 {
                        Some(alias) => PlanExpression::Alias(Box::new(p), alias.clone()),
                        None => p,
                    };
                    let ghost pm = e@;
                    let ghost prev = plan_exprs_models(out@);
                    out.push(e);
                    proof {
                        assert(plan_exprs_models(out@) =~= prev.push(pm));
                        assert(am.subrange(k as int, n as int).drop_first() =~= am.subrange(
                            k as int + 1,
                            n as int,
                        ));
                        if let Result::Ok(rest) = sp_map_aggs(
                            am.subrange(k as int + 1, n as int),
                            self.registry@,
                        ) {
                            assert(prev + (seq![pm] + rest) =~= prev.push(pm) + rest);
                        }
                    }
                    k = k + 1;
                },
            }
        }
        proof {
            assert(am.subrange(n as int, n as int) =~= Seq::<
                (ExpressionModel, Option<Seq<char>>),
            >::empty());
            assert(plan_exprs_models(out@) + Seq::<PlanExpressionModel>::empty()
                =~= plan_exprs_models(out@));
        }
        Ok(out)
    }

    fn apply_command(&self, plan: LogicalPlan, command: &Command) -> (r: Result<
        LogicalPlan,
        PlanError,
    >)
        ensures
            r matches Ok(p) ==> sp_apply_command(plan@, command@, self.registry@) == Result::<
                LogicalPlanModel,
                Seq<char>,
            >::Ok(p@),
            r matches Err(e) ==> sp_apply_command(plan@, command@, self.registry@) matches
                Result::Err(n) && e@ == PlanErrorModel::FunctionNotFound(n),
    {
        match command {
            Command::Where(e) => match self.map_expression(e) {
                Err(err) => Err(err),
                Ok(p) => Ok(LogicalPlan::Filter(Box::new(plan), p)),
            },
            Command::Sort(items) => {
                proof {
                    assert(command@->Sort_0 =~= crate::ast::sorts_models(items@));
                }
                match self.map_sorts(items) {
                    Err(err) => Err(err),
                    Ok(ps) => Ok(LogicalPlan::Sort(Box::new(plan), ps)),
                }
            },
            Command::Limit(n) => Ok(LogicalPlan::Limit(Box::new(plan), *n)),
            Command::Aggregate { aggregates, by } => {
                proof {
                    assert(command@->aggregates =~= crate::ast::aggs_models(aggregates@));
                    assert(command@->by =~= crate::ast::exprs_models(by@));
                }
                match self.map_expressions(by) {
                    Err(err) => Err(err),
                    Ok(group) => match self.map_aggs(aggregates) {
                        Err(err) => Err(err),
                        Ok(aexprs) => Ok(
                            LogicalPlan::Aggregate(Box::new(plan), group, aexprs),
                        ),
                    },
                }
            },
        }
    }

    /// Lowers a parsed query into a logical plan: the source resolved
    /// against the catalog, then each command folded onto the scan in
    /// pipeline order. The result is exactly [`sp_lower`] of the query.
    pub fn create_logical_plan(&self, query: Query) -> (r: Result<LogicalPlan, PlanError>)
        ensures
            lower_result_model(r) == sp_lower(query@, self.catalog@, self.registry@),
    {
        let ghost qm = query@;
        let Query { source, commands } = query;
        proof {
            assert(qm.commands =~= crate::ast::cmds_models(commands@));
        }
        if !self.catalog.has_table(source.as_str()) {
            return Err(PlanError::TableNotFound(source));
        }
        let ghost cm = crate::ast::cmds_models(commands@);
        let mut plan = LogicalPlan::Scan(source);
        let n = commands.len();
        let mut k: usize = 0;
        proof {
            assert(cm.subrange(0, n as int) =~= cm);
        }
        while k < n
            invariant
                n == commands@.len(),
                k <= n,
                cm == crate::ast::cmds_models(commands@),
                qm == query@,
                qm.commands == cm,
                contains_name(self.catalog@, qm.source),
                sp_lower_commands(plan@, cm.subrange(k as int, n as int), self.registry@)
                    == sp_lower_commands(
                    LogicalPlanModel::Scan(qm.source),
                    qm.commands,
                    self.registry@,
                ),
            decreases n - k,
        {
            match self.apply_command(plan, &commands[k]) {
                Err(e) => {
                    proof {
                        let sub = cm.subrange(k as int, n as int);
                        assert(sub[0] == cm[k as int]);
                        assert(cm[k as int] == commands@[k as int]@);
                        assert(sp_lower_commands(plan@, sub, self.registry@) == sp_apply_command(
                            plan@,
                            cm[k as int],
                            self.registry@,
                        ));
                    }
                    return Err(e);
                },
                Ok(p2) => {
                    proof {
                        assert(cm.subrange(k as int, n as int).drop_first() =~= cm.subrange(
                            k as int + 1,
                            n as int,
                        ));
                    }
                    plan = p2;
                    k = k + 1;
                },
            }
        }
        proof {
            assert(cm.subrange(n as int, n as int) =~= Seq::<CommandModel>::empty());
        }
        Ok(plan)
    }
}

} // verus!

verus! {

// ---------------------------------------------------------------------------
// Laws of the lowering
// ---------------------------------------------------------------------------

/// Lowering a zero-argument call of `count` produces exactly the node
/// that lowering `count(1)` produces, against any registry.
pub proof fn lemma_zero_arg_count_rewrite(reg: FunctionRegistryModel)
    ensures
        sp_map_expression(ExpressionModel::Call("count"@, Seq::empty()), reg) == sp_map_expression(
            ExpressionModel::Call("count"@, seq![ExpressionModel::Number(1)]),
            reg,
        ),
{
    assert(sp_map_expression(ExpressionModel::Number(1), reg) == Result::<
        PlanExpressionModel,
        Seq<char>,
    >::Ok(PlanExpressionModel::Literal(LiteralValueModel::Integer(1))));
    assert(seq![ExpressionModel::Number(1)].drop_first() =~= Seq::<ExpressionModel>::empty());
    assert(sp_map_expressions(Seq::<ExpressionModel>::empty(), reg) == Result::<
        Seq<PlanExpressionModel>,
        Seq<char>,
    >::Ok(Seq::<PlanExpressionModel>::empty()));
    assert(seq![PlanExpressionModel::Literal(LiteralValueModel::Integer(1))] + Seq::<
        PlanExpressionModel,
    >::empty() =~= seq![PlanExpressionModel::Literal(LiteralValueModel::Integer(1))]);
    assert(sp_map_expressions(seq![ExpressionModel::Number(1)], reg) == Result::<
        Seq<PlanExpressionModel>,
        Seq<char>,
    >::Ok(seq![PlanExpressionModel::Literal(LiteralValueModel::Integer(1))]));
}

/// A name registered as an aggregate function resolves as one: the
/// aggregate registry is probed before the scalar registry, so whatever
/// the scalar registry holds, a successful lowering of the call is an
/// aggregate-function node with that name, and it succeeds whenever the
/// arguments lower.
pub proof fn lemma_aggregate_resolves_first(
    name: Seq<char>,
    args: Seq<ExpressionModel>,
    reg: FunctionRegistryModel,
)
    requires
        contains_name(reg.aggregates, name),
    ensures
        sp_map_expression(ExpressionModel::Call(name, args), reg) matches Result::Ok(p) ==> p
            matches PlanExpressionModel::AggregateFunction(n2, _) && n2 == name,
        ({
            let mapped = if name == "count"@ && args.len() == 0 {
                Result::<Seq<PlanExpressionModel>, Seq<char>>::Ok(
                    seq![PlanExpressionModel::Literal(LiteralValueModel::Integer(1))],
                )
            } else {
                sp_map_expressions(args, reg)
            };
            mapped matches Result::Ok(pargs) ==> sp_map_expression(
                ExpressionModel::Call(name, args),
                reg,
            ) == Result::<PlanExpressionModel, Seq<char>>::Ok(
                PlanExpressionModel::AggregateFunction(name, pargs),
            )
        }),
{
}

/// Lowering a query whose source is not in the catalog fails with
/// exactly the table-not-found error naming that source; no plan is
/// built.
pub proof fn lemma_unknown_source_fails(
    q: QueryModel,
    catalog: Seq<Seq<char>>,
    reg: FunctionRegistryModel,
)
    requires
        !contains_name(catalog, q.source),
    ensures
        sp_lower(q, catalog, reg) == Result::<LogicalPlanModel, PlanErrorModel>::Err(
            PlanErrorModel::TableNotFound(q.source),
        ),
{
}

} // verus!
