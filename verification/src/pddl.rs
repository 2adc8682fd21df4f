//! The PDDL parser, gathered in one place.

pub use crate::ast;
pub use crate::lexer;
pub use crate::parser;
pub use crate::parser::{parse_domain, parse_domain_str, parse_problem, parse_problem_str};
