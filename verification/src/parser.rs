//! The parser: a token sequence to a [`Query`], or every recoverable
//! syntax error collected in one pass.
//!
//! The grammar, with terminals written as lexemes:
//!
//! ```text
//! Query      := "source" IDENT ("|" Command)*
//! Command    := Where | Sort | Limit | Aggregate
//! Where      := "where" Expr
//! Sort       := "sort" SortItem ("," SortItem)*
//! SortItem   := Expr ("asc" | "desc")?        // defaults to ascending
//! Limit      := "limit" INTEGER
//! Aggregate  := "aggr" AggItem ("," AggItem)* ("by" Expr ("," Expr)*)?
//! AggItem    := (IDENT "=" Expr) | Expr
//! Expr       := Logical
//! Logical    := Comparison (("and"|"or") Comparison)*
//! Comparison := Sum (("=="|"!="|">"|">="|"<"|"<=") Sum)*
//! Sum        := Product (("+"|"-") Product)*
//! Product    := Atom (("*"|"/") Atom)*
//! Atom       := INTEGER | STRING | Call | IDENT | "(" Expr ")"
//! Call       := IDENT "(" (Expr ("," Expr)*)? ")"
//! ```
//!
//! Every binary level is left-associative: each following
//! `(operator, operand)` pair is folded onto the expression built so far.
//! Parentheses reset precedence, and a call may have zero arguments.
//!
//! The grammar is written out below as spec functions over the token
//! models: each returns the parsed value and the position after it, or
//! `None` where the input does not match. The executable parser is proved
//! to return `Ok` exactly where [`sp_query`] parses, with exactly that
//! query; on failure it collects one diagnostic per unparsable command,
//! resynchronizing at the next `|`.

use vstd::prelude::*;

use crate::ast::{
    BinaryOperator, Command, CommandModel, Expression, ExpressionModel, Query, QueryModel,
    SortExpression, SortExpressionModel, SortOrder,
};
use crate::lexer::{spec_tokens, tokenizer, Token, TokenModel};
use crate::parser_error::{ParserError, SyntaxError};
use crate::span::Span;

verus! {

/// The token models of a spanned token sequence.
pub open spec fn toks_models(v: Seq<(Token, Span)>) -> Seq<TokenModel> {
    v.map_values(|p: (Token, Span)| p.0@)
}

/// The token models of the tokenizer's output for `s`.
pub open spec fn source_models(s: Seq<char>) -> Seq<TokenModel> {
    spec_tokens(s).map_values(|x: (TokenModel, int, int)| x.0)
}

/// The binary operator that one token stands for at one precedence level:
/// level 1 is product, 2 sum, 3 comparison, 4 logical.
pub open spec fn level_op(t: TokenModel, lvl: nat) -> Option<BinaryOperator> {
    if lvl == 1 {
        match t {
            TokenModel::OperatorMultiply => Option::Some(BinaryOperator::Multiply),
            TokenModel::OperatorDivide => Option::Some(BinaryOperator::Divide),
            _ => Option::None,
        }
    } else if lvl == 2 {
        match t {
            TokenModel::OperatorAdd => Option::Some(BinaryOperator::Add),
            TokenModel::OperatorSubtract => Option::Some(BinaryOperator::Subtract),
            _ => Option::None,
        }
    } else if lvl == 3 {
        match t {
            TokenModel::OperatorEqual => Option::Some(BinaryOperator::Equal),
            TokenModel::OperatorNotEqual => Option::Some(BinaryOperator::NotEqual),
            TokenModel::OperatorGreaterThan => Option::Some(BinaryOperator::GreaterThan),
            TokenModel::OperatorGreaterThanOrEqual => Option::Some(
                BinaryOperator::GreaterThanOrEqual,
            ),
            TokenModel::OperatorLessThan => Option::Some(BinaryOperator::LessThan),
            TokenModel::OperatorLessThanOrEqual => Option::Some(
                BinaryOperator::LessThanOrEqual,
            ),
            _ => Option::None,
        }
    } else if lvl == 4 {
        match t {
            TokenModel::OperatorAnd => Option::Some(BinaryOperator::And),
            TokenModel::OperatorOr => Option::Some(BinaryOperator::Or),
            _ => Option::None,
        }
    } else {
        Option::None
    }
}

/// An atom: an integer, a string, a call, a field, or a parenthesized
/// expression.
pub open spec fn sp_atom(t: Seq<TokenModel>, i: int) -> Option<(ExpressionModel, int)>
    decreases t.len() - i, 0nat, 0nat,
{
    if !(0 <= i < t.len()) {
        Option::None
    } else {
        match t[i] {
            TokenModel::Integer(n) => Option::Some((ExpressionModel::Number(n), i + 1)),
            TokenModel::StringLiteral(s) => Option::Some((ExpressionModel::String(s), i + 1)),
            TokenModel::Identifier(name) => if i + 1 < t.len() && t[i + 1]
                is LeftParenthesis {
                match sp_args(t, i + 2) {
                    Option::Some((args, j)) => Option::Some(
                        (ExpressionModel::Call(name, args), j),
                    ),
                    Option::None => Option::None,
                }
            } else {
                Option::Some((ExpressionModel::Field(name), i + 1))
            },
            TokenModel::LeftParenthesis => match sp_level(t, i + 1, 4) {
                Option::Some((e, j)) => if 0 <= j < t.len() && t[j] is RightParenthesis {
                    Option::Some((e, j + 1))
                } else {
                    Option::None
                },
                Option::None => Option::None,
            },
            _ => Option::None,
        }
    }
}

/// A call's argument list, from just after the opening parenthesis to just
/// after the closing one. The list may be empty.
pub open spec fn sp_args(t: Seq<TokenModel>, i: int) -> Option<(Seq<ExpressionModel>, int)>
    decreases t.len() - i, 6nat, 1nat,
{
    if !(0 <= i <= t.len()) {
        Option::None
    } else if i < t.len() && t[i] is RightParenthesis {
        Option::Some((Seq::empty(), i + 1))
    } else {
        sp_args_rest(t, i)
    }
}

/// A non-empty comma-separated argument list followed by the closing
/// parenthesis.
pub open spec fn sp_args_rest(t: Seq<TokenModel>, i: int) -> Option<(Seq<ExpressionModel>, int)>
    decreases t.len() - i, 6nat, 0nat,
{
    match sp_level(t, i, 4) {
        Option::None => Option::None,
        Option::Some((e, j)) => if 0 <= j < t.len() && t[j] is Comma && i < j {
            match sp_args_rest(t, j + 1) {
                Option::None => Option::None,
                Option::Some((rest, k)) => Option::Some((seq![e] + rest, k)),
            }
        } else if 0 <= j < t.len() && t[j] is RightParenthesis {
            Option::Some((seq![e], j + 1))
        } else {
            Option::None
        },
    }
}

/// One precedence level: the level below, then any number of
/// `(operator, operand)` pairs folded on from the left.
pub open spec fn sp_level(t: Seq<TokenModel>, i: int, lvl: nat) -> Option<(ExpressionModel, int)>
    recommends
        1 <= lvl <= 4,
    decreases t.len() - i, lvl, 1nat,
{
    let first = if lvl <= 1 {
        sp_atom(t, i)
    } else {
        sp_level(t, i, (lvl - 1) as nat)
    };
    match first {
        Option::None => Option::None,
        Option::Some((e, j)) => if i < j <= t.len() {
            sp_level_tail(t, j, lvl, e)
        } else {
            Option::Some((e, j))
        },
    }
}

/// The left fold of one precedence level: while the next token is an
/// operator of this level, parse the operand after it and fold it onto
/// `acc`.
pub open spec fn sp_level_tail(t: Seq<TokenModel>, i: int, lvl: nat, acc: ExpressionModel) -> Option<
    (ExpressionModel, int),
>
    recommends
        1 <= lvl <= 4,
    decreases t.len() - i, lvl, 0nat,
{
    if !(0 <= i < t.len()) {
        Option::Some((acc, i))
    } else {
        match level_op(t[i], lvl) {
            Option::None => Option::Some((acc, i)),
            Option::Some(op) => {
                let operand = if lvl <= 1 {
                    sp_atom(t, i + 1)
                } else {
                    sp_level(t, i + 1, (lvl - 1) as nat)
                };
                match operand {
                    Option::None => Option::None,
                    Option::Some((r, j)) => if i < j <= t.len() {
                        sp_level_tail(
                            t,
                            j,
                            lvl,
                            ExpressionModel::Binary(op, Box::new(acc), Box::new(r)),
                        )
                    } else {
                        Option::None
                    },
                }
            },
        }
    }
}

/// A whole expression: the logical level.
pub open spec fn sp_expr(t: Seq<TokenModel>, i: int) -> Option<(ExpressionModel, int)> {
    sp_level(t, i, 4)
}

/// An optional sort direction: the identifier `asc` or `desc` right after
/// a sort item; ascending when absent.
pub open spec fn sp_sort_direction(t: Seq<TokenModel>, i: int) -> (SortOrder, int) {
    if 0 <= i < t.len() && t[i] == TokenModel::Identifier("asc"@) {
        (SortOrder::Ascending, i + 1)
    } else if 0 <= i < t.len() && t[i] == TokenModel::Identifier("desc"@) {
        (SortOrder::Descending, i + 1)
    } else {
        (SortOrder::Ascending, i)
    }
}

/// A non-empty comma-separated list of sort items.
pub open spec fn sp_sort_items(t: Seq<TokenModel>, i: int) -> Option<
    (Seq<SortExpressionModel>, int),
>
    decreases t.len() - i, 7nat, 0nat,
{
    match sp_expr(t, i) {
        Option::None => Option::None,
        Option::Some((e, j)) => {
            let (order, j2) = sp_sort_direction(t, j);
            let item = SortExpressionModel { expression: e, order };
            if 0 <= j2 < t.len() && t[j2] is Comma && i < j2 {
                match sp_sort_items(t, j2 + 1) {
                    Option::None => Option::None,
                    Option::Some((rest, k)) => Option::Some((seq![item] + rest, k)),
                }
            } else {
                Option::Some((seq![item], j2))
            }
        },
    }
}

/// One aggregation item: `alias = expression`, or a bare expression.
pub open spec fn sp_agg_item(t: Seq<TokenModel>, i: int) -> Option<
    ((ExpressionModel, Option<Seq<char>>), int),
>
    decreases t.len() - i, 5nat, 0nat,
{
    if sp_agg_has_alias(t, i) {
        match (t[i], sp_level(t, i + 2, 4)) {
            (TokenModel::Identifier(alias), Option::Some((e, j))) => Option::Some(
                ((e, Option::Some(alias)), j),
            ),
            _ => Option::None,
        }
    } else {
        match sp_level(t, i, 4) {
            Option::None => Option::None,
            Option::Some((e, j)) => Option::Some(((e, Option::None), j)),
        }
    }
}

/// Whether an aggregation item starts with `alias =`.
pub open spec fn sp_agg_has_alias(t: Seq<TokenModel>, i: int) -> bool {
    0 <= i && i + 1 < t.len() && t[i] is Identifier && t[i + 1] is OperatorAssign
}

/// A non-empty comma-separated list of aggregation items.
pub open spec fn sp_agg_items(t: Seq<TokenModel>, i: int) -> Option<
    (Seq<(ExpressionModel, Option<Seq<char>>)>, int),
>
    decreases t.len() - i, 6nat, 0nat,
{
    match sp_agg_item(t, i) {
        Option::None => Option::None,
        Option::Some((item, j)) => if 0 <= j < t.len() && t[j] is Comma && i < j {
            match sp_agg_items(t, j + 1) {
                Option::None => Option::None,
                Option::Some((rest, k)) => Option::Some((seq![item] + rest, k)),
            }
        } else {
            Option::Some((seq![item], j))
        },
    }
}

/// A non-empty comma-separated list of grouping expressions.
pub open spec fn sp_by_items(t: Seq<TokenModel>, i: int) -> Option<(Seq<ExpressionModel>, int)>
    decreases t.len() - i, 7nat, 0nat,
{
    match sp_expr(t, i) {
        Option::None => Option::None,
        Option::Some((e, j)) => if 0 <= j < t.len() && t[j] is Comma && i < j {
            match sp_by_items(t, j + 1) {
                Option::None => Option::None,
                Option::Some((rest, k)) => Option::Some((seq![e] + rest, k)),
            }
        } else {
            Option::Some((seq![e], j))
        },
    }
}

/// One command: `where`, `sort`, `limit` or `aggr`, with everything it
/// consumes.
pub open spec fn sp_command(t: Seq<TokenModel>, i: int) -> Option<(CommandModel, int)>
    decreases t.len() - i, 8nat, 0nat,
{
    if !(0 <= i < t.len()) {
        Option::None
    } else {
        match t[i] {
            TokenModel::KeywordWhere => match sp_expr(t, i + 1) {
                Option::None => Option::None,
                Option::Some((e, j)) => Option::Some((CommandModel::Where(e), j)),
            },
            TokenModel::KeywordLimit => if i + 1 < t.len() {
                match t[i + 1] {
                    TokenModel::Integer(n) => Option::Some((CommandModel::Limit(n), i + 2)),
                    _ => Option::None,
                }
            } else {
                Option::None
            },
            TokenModel::KeywordSort => match sp_sort_items(t, i + 1) {
                Option::None => Option::None,
                Option::Some((items, j)) => Option::Some((CommandModel::Sort(items), j)),
            },
            TokenModel::KeywordAggregate => match sp_agg_items(t, i + 1) {
                Option::None => Option::None,
                Option::Some((aggregates, j)) => if 0 <= j < t.len() && t[j] is KeywordBy && i
                    < j {
                    match sp_by_items(t, j + 1) {
                        Option::None => Option::None,
                        Option::Some((by, k)) => Option::Some(
                            (CommandModel::Aggregate { aggregates, by }, k),
                        ),
                    }
                } else {
                    Option::Some((CommandModel::Aggregate { aggregates, by: Seq::empty() }, j))
                },
            },
            _ => Option::None,
        }
    }
}

/// The pipeline from position `i` to the end of the input: zero or more
/// commands, each introduced by `|`, consuming every remaining token.
pub open spec fn sp_commands(t: Seq<TokenModel>, i: int) -> Option<Seq<CommandModel>>
    decreases t.len() - i, 9nat, 0nat,
{
    if i == t.len() {
        Option::Some(Seq::empty())
    } else if 0 <= i < t.len() && t[i] is Pipe {
        match sp_command(t, i + 1) {
            Option::None => Option::None,
            Option::Some((c, j)) => if i < j <= t.len() {
                match sp_commands(t, j) {
                    Option::None => Option::None,
                    Option::Some(rest) => Option::Some(seq![c] + rest),
                }
            } else {
                Option::None
            },
        }
    } else {
        Option::None
    }
}

/// A whole query: `source`, the table name, then the pipeline, consuming
/// the whole token sequence.
pub open spec fn sp_query(t: Seq<TokenModel>) -> Option<QueryModel> {
    if t.len() >= 2 && t[0] is KeywordSource {
        match (t[1], sp_commands(t, 2)) {
            (TokenModel::Identifier(name), Option::Some(commands)) => Option::Some(
                QueryModel { source: name, commands },
            ),
            _ => Option::None,
        }
    } else {
        Option::None
    }
}

/// Whether `s` is a syntactically valid query.
pub open spec fn spec_query_ok(s: Seq<char>) -> bool {
    sp_query(source_models(s)) is Some
}

} // verus!

verus! {

// ---------------------------------------------------------------------------
// The executable parser: expressions
// ---------------------------------------------------------------------------

fn level_op_exec(tok: &Token, lvl: u8) -> (r: Option<BinaryOperator>)
    ensures
        r == level_op(tok@, lvl as nat),
{
    if lvl == 1 {
        match tok {
            Token::OperatorMultiply => Some(BinaryOperator::Multiply),
            Token::OperatorDivide => Some(BinaryOperator::Divide),
            _ => None,
        }
    } else if lvl == 2 {
        match tok {
            Token::OperatorAdd => Some(BinaryOperator::Add),
            Token::OperatorSubtract => Some(BinaryOperator::Subtract),
            _ => None,
        }
    } else if lvl == 3 {
        match tok {
            Token::OperatorEqual => Some(BinaryOperator::Equal),
            Token::OperatorNotEqual => Some(BinaryOperator::NotEqual),
            Token::OperatorGreaterThan => Some(BinaryOperator::GreaterThan),
            Token::OperatorGreaterThanOrEqual => Some(BinaryOperator::GreaterThanOrEqual),
            Token::OperatorLessThan => Some(BinaryOperator::LessThan),
            Token::OperatorLessThanOrEqual => Some(BinaryOperator::LessThanOrEqual),
            _ => None,
        }
    } else if lvl == 4 {
        match tok {
            Token::OperatorAnd => Some(BinaryOperator::And),
            Token::OperatorOr => Some(BinaryOperator::Or),
            _ => None,
        }
    } else {
        None
    }
}

fn p_atom(toks: &Vec<(Token, Span)>, i: usize) -> (r: Option<(Expression, usize)>)
    requires
        i <= toks@.len(),
    ensures
        r is None <==> sp_atom(toks_models(toks@), i as int) is None,
        r matches Some(ej) ==> sp_atom(toks_models(toks@), i as int) == Option::Some(
            (ej.0@, ej.1 as int),
        ) && i < ej.1 <= toks@.len(),
    decreases toks@.len() - i, 0int, 0int,
{
    let n = toks.len();
    if i >= n {
        return None;
    }
    match &toks[i].0 {
        Token::Integer(v) => Some((Expression::Number(*v), i + 1)),
        Token::StringLiteral(s) => Some((Expression::String(s.clone()), i + 1)),
        Token::Identifier(name) => {
            if i + 1 < n && matches!(&toks[i + 1].0, Token::LeftParenthesis) {
                match p_args(toks, i + 2) {
                    Some((args, j)) => {
                        let e = Expression::Call(name.clone(), args);
                        proof {
                            assert(e.model()->Call_1 =~= crate::ast::exprs_models(args@));
                        }
                        Some((e, j))
                    },
                    None => None,
                }
            } else {
                Some((Expression::Field(name.clone()), i + 1))
            }
        },
        Token::LeftParenthesis => {
            match p_level(toks, i + 1, 4) {
                Some((e, j)) => {
                    if j < n && matches!(&toks[j].0, Token::RightParenthesis) {
                        Some((e, j + 1))
                    } else {
                        None
                    }
                },
                None => None,
            }
        },
        _ => None,
    }
}

fn p_args(toks: &Vec<(Token, Span)>, i: usize) -> (r: Option<(Vec<Expression>, usize)>)
    requires
        i <= toks@.len(),
    ensures
        r is None <==> sp_args(toks_models(toks@), i as int) is None,
        r matches Some(vj) ==> sp_args(toks_models(toks@), i as int) == Option::Some(
            (crate::ast::exprs_models(vj.0@), vj.1 as int),
        ) && i < vj.1 <= toks@.len(),
    decreases toks@.len() - i, 6int, 1int,
{
    let n = toks.len();
    if i < n && matches!(&toks[i].0, Token::RightParenthesis) {
        let empty: Vec<Expression> = Vec::new();
        proof {
            assert(crate::ast::exprs_models(empty@) =~= Seq::<ExpressionModel>::empty());
        }
        Some((empty, i + 1))
    } else {
        p_args_rest(toks, i)
    }
}

fn p_args_rest(toks: &Vec<(Token, Span)>, i: usize) -> (r: Option<(Vec<Expression>, usize)>)
    requires
        i <= toks@.len(),
    ensures
        r is None <==> sp_args_rest(toks_models(toks@), i as int) is None,
        r matches Some(vj) ==> sp_args_rest(toks_models(toks@), i as int) == Option::Some(
            (crate::ast::exprs_models(vj.0@), vj.1 as int),
        ) && i < vj.1 <= toks@.len(),
    decreases toks@.len() - i, 6int, 0int,
{
    let n = toks.len();
    match p_level(toks, i, 4) {
        None => None,
        Some((e, j)) => {
            if j < n && matches!(&toks[j].0, Token::Comma) {
                match p_args_rest(toks, j + 1) {
                    None => None,
                    Some((mut rest, k)) => {
                        let ghost rest_models = crate::ast::exprs_models(rest@);
                        rest.insert(0, e);
                        proof {
                            let em = sp_level(toks_models(toks@), i as int, 4)->Some_0.0;
                            assert(crate::ast::exprs_models(rest@) =~= seq![em] + rest_models);
                        }
                        Some((rest, k))
                    },
                }
            } else if j < n && matches!(&toks[j].0, Token::RightParenthesis) {
                let mut v: Vec<Expression> = Vec::new();
                let ghost em = e.model();
                v.push(e);
                proof {
                    assert(crate::ast::exprs_models(v@) =~= seq![em]);
                }
                Some((v, j + 1))
            } else {
                None
            }
        },
    }
}

fn p_level(toks: &Vec<(Token, Span)>, i: usize, lvl: u8) -> (r: Option<(Expression, usize)>)
    requires
        i <= toks@.len(),
        1 <= lvl <= 4,
    ensures
        r is None <==> sp_level(toks_models(toks@), i as int, lvl as nat) is None,
        r matches Some(ej) ==> sp_level(toks_models(toks@), i as int, lvl as nat)
            == Option::Some((ej.0@, ej.1 as int)) && i < ej.1 <= toks@.len(),
    decreases toks@.len() - i, lvl as int, 1int,
{
    let first = if lvl <= 1 {
        p_atom(toks, i)
    } else {
        p_level(toks, i, lvl - 1)
    };
    match first {
        None => None,
        Some((e, j)) => p_level_tail(toks, j, lvl, e),
    }
}

fn p_level_tail(toks: &Vec<(Token, Span)>, i0: usize, lvl: u8, acc0: Expression) -> (r: Option<
    (Expression, usize),
>)
    requires
        i0 <= toks@.len(),
        1 <= lvl <= 4,
    ensures
        r is None <==> sp_level_tail(toks_models(toks@), i0 as int, lvl as nat, acc0@)
            is None,
        r matches Some(ej) ==> sp_level_tail(toks_models(toks@), i0 as int, lvl as nat, acc0@)
            == Option::Some((ej.0@, ej.1 as int)) && i0 <= ej.1 <= toks@.len(),
    decreases toks@.len() - i0, lvl as int, 0int,
{
    let n = toks.len();
    let mut i: usize = i0;
    let mut acc = acc0;
    loop
        invariant
            i0 <= i <= n,
            n == toks@.len(),
            1 <= lvl <= 4,
            sp_level_tail(toks_models(toks@), i0 as int, lvl as nat, acc0@) == sp_level_tail(
                toks_models(toks@),
                i as int,
                lvl as nat,
                acc@,
            ),
        decreases n - i,
    {
        if i >= n {
            return Some((acc, i));
        }
        let op = match level_op_exec(&toks[i].0, lvl) {
            None => {
                return Some((acc, i));
            },
            Some(op) => op,
        };
        let operand = if lvl <= 1 {
            p_atom(toks, i + 1)
        } else {
            p_level(toks, i + 1, lvl - 1)
        };
        match operand {
            None => {
                return None;
            },
            Some((rhs, j)) => {
                acc = Expression::Binary(op, Box::new(acc), Box::new(rhs));
                i = j;
            },
        }
    }
}

} // verus!

verus! {

// ---------------------------------------------------------------------------
// The executable parser: commands
// ---------------------------------------------------------------------------

fn p_sort_direction(toks: &Vec<(Token, Span)>, j: usize) -> (r: (SortOrder, usize))
    requires
        j <= toks@.len(),
    ensures
        (r.0, r.1 as int) == sp_sort_direction(toks_models(toks@), j as int),
        j <= r.1 <= toks@.len(),
{
    let n = toks.len();
    if j < n {
        match &toks[j].0 {
            Token::Identifier(w) => {
                if crate::lexer::str_eq(w.as_str(), "asc") {
                    (SortOrder::Ascending, j + 1)
                } else if crate::lexer::str_eq(w.as_str(), "desc") {
                    (SortOrder::Descending, j + 1)
                } else {
                    (SortOrder::Ascending, j)
                }
            },
            _ => (SortOrder::Ascending, j),
        }
    } else {
        (SortOrder::Ascending, j)
    }
}

fn p_sort_items(toks: &Vec<(Token, Span)>, i: usize) -> (r: Option<(Vec<SortExpression>, usize)>)
    requires
        i <= toks@.len(),
    ensures
        r is None <==> sp_sort_items(toks_models(toks@), i as int) is None,
        r matches Some(vj) ==> sp_sort_items(toks_models(toks@), i as int) == Option::Some(
            (crate::ast::sorts_models(vj.0@), vj.1 as int),
        ) && i < vj.1 <= toks@.len(),
    decreases toks@.len() - i, 7int, 0int,
{
    let n = toks.len();
    match p_level(toks, i, 4) {
        None => None,
        Some((e, j)) => {
            let (order, j2) = p_sort_direction(toks, j);
            let item = SortExpression { expression: e, order };
            let ghost im = item@;
            if j2 < n && matches!(&toks[j2].0, Token::Comma) {
                match p_sort_items(toks, j2 + 1) {
                    None => None,
                    Some((mut rest, k)) => {
                        let ghost rm = crate::ast::sorts_models(rest@);
                        rest.insert(0, item);
                        proof {
                            assert(crate::ast::sorts_models(rest@) =~= seq![im] + rm);
                        }
                        Some((rest, k))
                    },
                }
            } else {
                let mut v: Vec<SortExpression> = Vec::new();
                v.push(item);
                proof {
                    assert(crate::ast::sorts_models(v@) =~= seq![im]);
                }
                Some((v, j2))
            }
        },
    }
}

fn p_agg_item(toks: &Vec<(Token, Span)>, i: usize) -> (r: Option<
    ((Expression, Option<String>), usize),
>)
    requires
        i <= toks@.len(),
    ensures
        r is None <==> sp_agg_item(toks_models(toks@), i as int) is None,
        r matches Some(pj) ==> sp_agg_item(toks_models(toks@), i as int) == Option::Some(
            ((pj.0.0@, crate::ast::alias_model(pj.0.1)), pj.1 as int),
        ) && i < pj.1 <= toks@.len(),
    decreases toks@.len() - i, 5int, 0int,
{
    let n = toks.len();
    if i < n && i + 1 < n && matches!(&toks[i + 1].0, Token::OperatorAssign) {
        if let Token::Identifier(alias) = &toks[i].0 {
            return match p_level(toks, i + 2, 4) {
                None => None,
                Some((e, j)) => Some(((e, Some(alias.clone())), j)),
            };
        }
    }
    match p_level(toks, i, 4) {
        None => None,
        Some((e, j)) => Some(((e, None), j)),
    }
}

fn p_agg_items(toks: &Vec<(Token, Span)>, i: usize) -> (r: Option<
    (Vec<(Expression, Option<String>)>, usize),
>)
    requires
        i <= toks@.len(),
    ensures
        r is None <==> sp_agg_items(toks_models(toks@), i as int) is None,
        r matches Some(vj) ==> sp_agg_items(toks_models(toks@), i as int) == Option::Some(
            (crate::ast::aggs_models(vj.0@), vj.1 as int),
        ) && i < vj.1 <= toks@.len(),
    decreases toks@.len() - i, 6int, 0int,
{
    let n = toks.len();
    match p_agg_item(toks, i) {
        None => None,
        Some((item, j)) => {
            let ghost im = (item.0@, crate::ast::alias_model(item.1));
            if j < n && matches!(&toks[j].0, Token::Comma) {
                match p_agg_items(toks, j + 1) {
                    None => None,
                    Some((mut rest, k)) => {
                        let ghost rm = crate::ast::aggs_models(rest@);
                        rest.insert(0, item);
                        proof {
                            assert(crate::ast::aggs_models(rest@) =~= seq![im] + rm);
                        }
                        Some((rest, k))
                    },
                }
            } else {
                let mut v: Vec<(Expression, Option<String>)> = Vec::new();
                v.push(item);
                proof {
                    assert(crate::ast::aggs_models(v@) =~= seq![im]);
                }
                Some((v, j))
            }
        },
    }
}

fn p_by_items(toks: &Vec<(Token, Span)>, i: usize) -> (r: Option<(Vec<Expression>, usize)>)
    requires
        i <= toks@.len(),
    ensures
        r is None <==> sp_by_items(toks_models(toks@), i as int) is None,
        r matches Some(vj) ==> sp_by_items(toks_models(toks@), i as int) == Option::Some(
            (crate::ast::exprs_models(vj.0@), vj.1 as int),
        ) && i < vj.1 <= toks@.len(),
    decreases toks@.len() - i, 7int, 0int,
{
    let n = toks.len();
    match p_level(toks, i, 4) {
        None => None,
        Some((e, j)) => {
            let ghost em = e@;
            if j < n && matches!(&toks[j].0, Token::Comma) {
                match p_by_items(toks, j + 1) {
                    None => None,
                    Some((mut rest, k)) => {
                        let ghost rm = crate::ast::exprs_models(rest@);
                        rest.insert(0, e);
                        proof {
                            assert(crate::ast::exprs_models(rest@) =~= seq![em] + rm);
                        }
                        Some((rest, k))
                    },
                }
            } else {
                let mut v: Vec<Expression> = Vec::new();
                v.push(e);
                proof {
                    assert(crate::ast::exprs_models(v@) =~= seq![em]);
                }
                Some((v, j))
            }
        },
    }
}

fn p_command(toks: &Vec<(Token, Span)>, i: usize) -> (r: Option<(Command, usize)>)
    requires
        i <= toks@.len(),
    ensures
        r is None <==> sp_command(toks_models(toks@), i as int) is None,
        r matches Some(cj) ==> sp_command(toks_models(toks@), i as int) == Option::Some(
            (cj.0@, cj.1 as int),
        ) && i < cj.1 <= toks@.len(),
    decreases toks@.len() - i, 8int, 0int,
{
    let n = toks.len();
    if i >= n {
        return None;
    }
    match &toks[i].0 {
        Token::KeywordWhere => match p_level(toks, i + 1, 4) {
            None => None,
            Some((e, j)) => Some((Command::Where(e), j)),
        },
        Token::KeywordLimit => {
            if i + 1 < n {
                match &toks[i + 1].0 {
                    Token::Integer(v) => Some((Command::Limit(*v), i + 2)),
                    _ => None,
                }
            } else {
                None
            }
        },
        Token::KeywordSort => match p_sort_items(toks, i + 1) {
            None => None,
            Some((items, j)) => {
                let ghost sm = crate::ast::sorts_models(items@);
                let c = Command::Sort(items);
                proof {
                    assert(c@->Sort_0 =~= sm);
                }
                Some((c, j))
            },
        },
        Token::KeywordAggregate => match p_agg_items(toks, i + 1) {
            None => None,
            Some((aggs, j)) => {
                let ghost am = crate::ast::aggs_models(aggs@);
                if j < n && matches!(&toks[j].0, Token::KeywordBy) {
                    match p_by_items(toks, j + 1) {
                        None => None,
                        Some((by, k)) => {
                            let ghost bm = crate::ast::exprs_models(by@);
                            let c = Command::Aggregate { aggregates: aggs, by };
                            proof {
                                assert(c@->aggregates =~= am);
                                assert(c@->by =~= bm);
                            }
                            Some((c, k))
                        },
                    }
                } else {
                    let by: Vec<Expression> = Vec::new();
                    let c = Command::Aggregate { aggregates: aggs, by };
                    proof {
                        assert(c@->aggregates =~= am);
                        assert(c@->by =~= Seq::<ExpressionModel>::empty());
                    }
                    Some((c, j))
                }
            },
        },
        _ => None,
    }
}

} // verus!

verus! {

// ---------------------------------------------------------------------------
// The whole query, with error recovery
// ---------------------------------------------------------------------------

/// Prepends already-parsed commands to the outcome of parsing the rest.
pub open spec fn opt_prepend(pre: Seq<CommandModel>, o: Option<Seq<CommandModel>>) -> Option<
    Seq<CommandModel>,
> {
    match o {
        Option::None => Option::None,
        Option::Some(rest) => Option::Some(pre + rest),
    }
}

/// Advances to the next `|`, the anchor where parsing resynchronizes
/// after an error.
fn skip_to_pipe(toks: &Vec<(Token, Span)>, from: usize) -> (r: usize)
    requires
        from <= toks@.len(),
    ensures
        from <= r <= toks@.len(),
{
    let n = toks.len();
    let mut j: usize = from;
    while j < n && !matches!(&toks[j].0, Token::Pipe)
        invariant
            from <= j <= n,
            n == toks@.len(),
        decreases n - j,
    {
        j = j + 1;
    }
    j
}

/// Marker for the query grammar; parsing goes through [`parse`] and
/// [`check`].
pub struct QueryParser;

/// Parses `source` into a [`Query`], or collects every syntax error the
/// parser can recover from — one per unparsable command, resynchronizing
/// at the next `|` — into a [`ParserError`].
///
/// Returns `Ok` exactly when the token sequence of `source` matches the
/// grammar ([`sp_query`]), and then the query is exactly the one the
/// grammar derives.
pub fn parse(source: &str) -> (r: Result<Query, ParserError>)
    ensures
        r is Ok <==> spec_query_ok(source@),
        r matches Ok(q) ==> sp_query(source_models(source@)) == Option::Some(q@),
        r matches Err(e) ==> e.wf(),
{
    let toks = tokenizer(source);
    proof {
        assert(toks_models(toks@) =~= source_models(source@));
    }
    let ghost t = toks_models(toks@);
    let n = toks.len();
    let mut errors: Vec<SyntaxError> = Vec::new();
    let mut commands: Vec<Command> = Vec::new();
    let mut source_name = String::new();
    let mut i: usize = 0;

    let mut head_ok = false;
    if n >= 2 && matches!(&toks[0].0, Token::KeywordSource) {
        if let Token::Identifier(nm) = &toks[1].0 {
            source_name = nm.clone();
            i = 2;
            head_ok = true;
        }
    }
    if !head_ok {
        let sp = if n > 0 {
            toks[0].1
        } else {
            Span::new(0..0)
        };
        errors.push(
            SyntaxError {
                span: sp,
                message: String::from_str("expected 'source' followed by a table name"),
            },
        );
        i = skip_to_pipe(&toks, 0);
    }
    proof {
        if errors@.len() == 0 {
            if let Option::Some(rest) = sp_commands(t, 2) {
                assert(Seq::<CommandModel>::empty() + rest =~= rest);
            }
            assert(crate::ast::cmds_models(commands@) =~= Seq::<CommandModel>::empty());
        }
    }

    while i < n
        invariant
            n == toks@.len(),
            t == toks_models(toks@),
            t == source_models(source@),
            i <= n,
            errors@.len() == 0 ==> {
                &&& n >= 2
                &&& t[0] is KeywordSource
                &&& t[1] == TokenModel::Identifier(source_name@)
                &&& opt_prepend(
                    crate::ast::cmds_models(commands@),
                    sp_commands(t, i as int),
                ) == sp_commands(t, 2)
            },
            errors@.len() > 0 ==> sp_query(t) is None,
        decreases n - i,
    {
        if matches!(&toks[i].0, Token::Pipe) {
            match p_command(&toks, i + 1) {
                Some((c, j)) => {
                    let ghost pre = crate::ast::cmds_models(commands@);
                    let ghost cm = c@;
                    commands.push(c);
                    proof {
                        assert(crate::ast::cmds_models(commands@) =~= pre + seq![cm]);
                        if errors@.len() == 0 {
                            if let Option::Some(rest) = sp_commands(t, j as int) {
                                assert(pre + (seq![cm] + rest) =~= (pre + seq![cm]) + rest);
                            }
                        }
                    }
                    i = j;
                },
                None => {
                    let sp = if i + 1 < n {
                        toks[i + 1].1
                    } else {
                        toks[i].1
                    };
                    errors.push(
                        SyntaxError {
                            span: sp,
                            message: String::from_str("expected a command after '|'"),
                        },
                    );
                    i = skip_to_pipe(&toks, i + 1);
                },
            }
        } else {
            errors.push(
                SyntaxError {
                    span: toks[i].1,
                    message: String::from_str("expected '|' before the next command"),
                },
            );
            i = skip_to_pipe(&toks, i + 1);
        }
    }

    if errors.len() == 0 {
        proof {
            assert(crate::ast::cmds_models(commands@) + Seq::<CommandModel>::empty()
                =~= crate::ast::cmds_models(commands@));
        }
        let q = Query { source: source_name, commands };
        proof {
            assert(q@.commands =~= crate::ast::cmds_models(q.commands@));
        }
        Ok(q)
    } else {
        Err(ParserError::new(errors))
    }
}

/// Validates `source` against the grammar without handing back the tree:
/// `Ok` exactly where [`parse`] returns `Ok`.
pub fn check(source: &str) -> (r: Result<(), ParserError>)
    ensures
        r is Ok <==> spec_query_ok(source@),
        r matches Err(e) ==> e.wf(),
{
    match parse(source) {
        Ok(_) => Ok(()),
        Err(e) => Err(e),
    }
}

} // verus!
