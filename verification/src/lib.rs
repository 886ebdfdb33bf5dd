//! Front end of a small expression-oriented scripting language: a lexer with
//! error recovery, a recursive-descent expression parser with delimiter
//! tracking and multi-error accumulation, a binder that resolves operators,
//! and a tree-walking evaluator over a closed value type.

pub mod binder;
pub mod bound_expression;
pub mod bound_operator;
pub mod character_provider;
pub mod cli;
pub mod compiler;
pub mod data_type;
pub mod error;
pub mod error_handler;
pub mod expression;
pub mod interpreter;
pub mod lexer;
pub mod parser;
pub mod position;
pub mod reshape;
pub mod text;
pub mod token;
pub mod token_provider;
pub mod value;
