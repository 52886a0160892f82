//! A tree-walking interpreter for a small dynamically typed expression
//! language: numbers, strings, booleans, conditionals, first-class
//! functions, variable binding and a handful of binary operators.
//!
//! The pipeline is: source text -> [`InputStream`](input_stream::InputStream)
//! (character cursor) -> [`TokenStream`](lexer::TokenStream) (one-token
//! lookahead lexer) -> [`Parser`](parser::Parser) (recursive descent with
//! precedence climbing) -> [`AST`](ast::AST) -> [`evaluate`](evaluate::evaluate)
//! against an [`Environment`](environment::Environment) (a chain of scopes).
//!
//! Every stage is specified against a mathematical model: a ghost syntax
//! tree ([`ast::SpecAST`]), a specification lexer, parser and evaluator.
//! The executable code is proved to agree with those models exactly.
//!
//! Two semantic choices deserve a caller's attention. Function values carry
//! no reference to their defining scope: a free name inside a body resolves
//! through the scopes active at the call, not at the definition. And a
//! block is not a scope: its statements run directly in the enclosing
//! frame — only call frames and the transient scopes of conditions,
//! branches, operands and assignment right sides are fresh frames.

pub mod ast;
pub mod errors;
pub mod input_stream;
pub mod lexer;
pub mod parser;
pub mod environment;
pub mod evaluate;
pub mod laws;
