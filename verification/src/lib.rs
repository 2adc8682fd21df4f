//! Parser library for PDDL and `.jia` model files.
//!
//! The PDDL front end ([`pddl`]) reads domain and problem files into an AST whose
//! declarations come out in a deterministic order; the Jia front end ([`jia`])
//! reads `.jia` models and builds their symbol tables.

pub mod ast;
pub mod error;
pub mod jia;
pub mod jia_lang;
pub mod lexer;
pub mod normalize;
pub mod parser;
pub mod pddl;
pub mod sorting;
pub mod text;

pub use error::{ParseError, Span};
