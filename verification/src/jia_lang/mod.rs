//! The Jia modelling language: tokenizer, parser, AST and analysis.
//!
//! A `.jia` file describes a constraint programming or linear programming model;
//! the optional `@model` tag declares which, and the parser validates the
//! constructs against it: an `lp` model may hold no interval variables, interval
//! attributes, scheduling constraints or interval accessors.

pub mod analysis;
pub mod ast;
pub mod lexer;
pub mod parser;

pub use parser::parse_model_str;
