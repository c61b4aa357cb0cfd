//! A small pipe-style query language: `source table | where ... | aggr ... |
//! sort ... | limit n`.
//!
//! The crate covers the language front end: a tokenizer that turns source
//! text into spanned tokens, a recursive-descent parser that builds a
//! [`Query`](ast::Query) or collects every recoverable syntax error into a
//! [`ParserError`](parser_error::ParserError), and a lowering pass that
//! translates the parsed query into a logical plan for an execution engine.

pub mod ast;
pub mod highlighter;
pub mod ingester;
pub mod lexer;
pub mod parser;
pub mod parser_error;
pub mod planner;
pub mod span;
pub mod validator;
