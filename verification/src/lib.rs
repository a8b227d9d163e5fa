//! A normalisation engine for untyped lambda-calculus expressions with
//! integer constants, arithmetic and `let`.

pub mod alpha;
pub mod arithmetic;
pub mod ast;
pub mod beta;
pub mod convert;
pub mod decimal;
pub mod error;
pub mod hygiene;
pub mod lexer;
pub mod normal;
pub mod parser;
pub mod pretty;
pub mod repl;
pub mod term;
