//! The abstract syntax tree that the parser produces, together with its
//! mathematical model.
//!
//! Executable values carry `String` and `Vec`; the model types carry
//! `Seq<char>` and `Seq`, so that contracts can speak of them directly.
//! `Expression::Number` holds a signed 64-bit integer: the grammar's only
//! numeric literal is the integer literal of the tokenizer.

use vstd::prelude::*;

verus! {

/// The closed set of binary operators of the expression grammar.
#[derive(Clone, Copy, Debug, PartialEq, Eq, Structural)]
pub enum BinaryOperator {
    Add,
    Subtract,
    Multiply,
    Divide,
    Equal,
    NotEqual,
    GreaterThan,
    GreaterThanOrEqual,
    LessThan,
    LessThanOrEqual,
    And,
    Or,
}

/// Direction of one sort item.
#[derive(Clone, Copy, Debug, PartialEq, Eq, Structural)]
pub enum SortOrder {
    Ascending,
    Descending,
}

/// An expression of the query language.
#[derive(Debug, PartialEq)]
pub enum Expression {
    Null,
    Boolean(bool),
    Number(i64),
    String(String),
    Field(String),
    Binary(BinaryOperator, Box<Expression>, Box<Expression>),
    Call(String, Vec<Expression>),
}

/// The model of an [`Expression`]: the same tree over `Seq<char>` names.
pub enum ExpressionModel {
    Null,
    Boolean(bool),
    Number(int),
    String(Seq<char>),
    Field(Seq<char>),
    Binary(BinaryOperator, Box<ExpressionModel>, Box<ExpressionModel>),
    Call(Seq<char>, Seq<ExpressionModel>),
}

impl Expression {
    /// The model of this expression.
    pub open spec fn model(self) -> ExpressionModel
        decreases self,
    {
        match self {
            Expression::Null => ExpressionModel::Null,
            Expression::Boolean(b) => ExpressionModel::Boolean(b),
            Expression::Number(n) => ExpressionModel::Number(n as int),
            Expression::String(s) => ExpressionModel::String(s@),
            Expression::Field(s) => ExpressionModel::Field(s@),
            Expression::Binary(op, l, r) => ExpressionModel::Binary(
                op,
                Box::new((*l).model()),
                Box::new((*r).model()),
            ),
            Expression::Call(name, args) => ExpressionModel::Call(
                name@,
                Seq::new(
                    args@.len(),
                    |i: int|
                        if 0 <= i < args@.len() {
                            args@[i].model()
                        } else {
                            ExpressionModel::Null
                        },
                ),
            ),
        }
    }
}

impl View for Expression {
    type V = ExpressionModel;

    open spec fn view(&self) -> ExpressionModel {
        self.model()
    }
}

/// One sort item: an expression and the direction to order it by.
#[derive(Debug, PartialEq)]
pub struct SortExpression {
    pub expression: Expression,
    pub order: SortOrder,
}

/// The model of a [`SortExpression`].
pub struct SortExpressionModel {
    pub expression: ExpressionModel,
    pub order: SortOrder,
}

impl View for SortExpression {
    type V = SortExpressionModel;

    open spec fn view(&self) -> SortExpressionModel {
        SortExpressionModel { expression: self.expression.model(), order: self.order }
    }
}

/// One command of the pipeline.
#[derive(Debug, PartialEq)]
pub enum Command {
    Where(Expression),
    Sort(Vec<SortExpression>),
    Limit(i64),
    Aggregate { aggregates: Vec<(Expression, Option<String>)>, by: Vec<Expression> },
}

/// The model of a [`Command`].
pub enum CommandModel {
    Where(ExpressionModel),
    Sort(Seq<SortExpressionModel>),
    Limit(int),
    Aggregate { aggregates: Seq<(ExpressionModel, Option<Seq<char>>)>, by: Seq<ExpressionModel> },
}

/// The model of an optional alias name.
pub open spec fn alias_model(alias: Option<String>) -> Option<Seq<char>> {
    match alias {
        Option::Some(a) => Option::Some(a@),
        Option::None => Option::None,
    }
}

impl View for Command {
    type V = CommandModel;

    open spec fn view(&self) -> CommandModel {
        match *self {
            Command::Where(e) => CommandModel::Where(e.model()),
            Command::Sort(items) => CommandModel::Sort(
                Seq::new(items@.len(), |i: int| items@[i]@),
            ),
            Command::Limit(n) => CommandModel::Limit(n as int),
            Command::Aggregate { aggregates, by } => CommandModel::Aggregate {
                aggregates: Seq::new(
                    aggregates@.len(),
                    |i: int| (aggregates@[i].0.model(), alias_model(aggregates@[i].1)),
                ),
                by: Seq::new(by@.len(), |i: int| by@[i].model()),
            },
        }
    }
}

/// A parsed query: the source table and the pipeline of commands, applied
/// left to right. `commands` may be empty: that is a bare scan.
#[derive(Debug, PartialEq)]
pub struct Query {
    pub source: String,
    pub commands: Vec<Command>,
}

/// The model of a [`Query`].
pub struct QueryModel {
    pub source: Seq<char>,
    pub commands: Seq<CommandModel>,
}

impl View for Query {
    type V = QueryModel;

    open spec fn view(&self) -> QueryModel {
        QueryModel {
            source: self.source@,
            commands: Seq::new(self.commands@.len(), |i: int| self.commands@[i]@),
        }
    }
}

} // verus!

verus! {

/// The models of a sequence of expressions.
pub open spec fn exprs_models(v: Seq<Expression>) -> Seq<ExpressionModel> {
    v.map_values(|e: Expression| e.model())
}

/// The models of a sequence of sort items.
pub open spec fn sorts_models(v: Seq<SortExpression>) -> Seq<SortExpressionModel> {
    v.map_values(|s: SortExpression| s@)
}

/// The models of a sequence of aggregation items.
pub open spec fn aggs_models(v: Seq<(Expression, Option<String>)>) -> Seq<
    (ExpressionModel, Option<Seq<char>>),
> {
    v.map_values(|p: (Expression, Option<String>)| (p.0.model(), alias_model(p.1)))
}

/// The models of a sequence of commands.
pub open spec fn cmds_models(v: Seq<Command>) -> Seq<CommandModel> {
    v.map_values(|c: Command| c@)
}

} // verus!
