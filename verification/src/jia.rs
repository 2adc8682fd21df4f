//! The `.jia` model parser, gathered in one place.

pub use crate::jia_lang::analysis;
pub use crate::jia_lang::ast;
pub use crate::jia_lang::lexer;
pub use crate::jia_lang::parse_model_str;
pub use crate::jia_lang::parser;
