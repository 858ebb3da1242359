//! A verified front end for the Lox programming language: lexing, parsing,
//! static resolution of variables and the decisions of the tree-walk
//! interpreter that do not compute with numbers.
pub mod chars;
pub mod cli;
pub mod environment;
pub mod expr;
pub mod grammar;
pub mod interpreter;
pub mod lexing_laws;
pub mod parse;
pub mod parse_laws;
pub mod program;
pub mod punctuation;
pub mod resolver;
pub mod source;
pub mod stmt;
pub mod syntax;
pub mod span;
pub mod text;
pub mod token;
pub mod tokenize;
pub mod tokenizing;
