//! Recursive-descent parser for PDDL domain and problem files.
//!
//! Consumes the tokens of [`crate::lexer::tokenize`] and produces the values of
//! [`crate::ast`], with declarations, object lists and init elements sorted as
//! [`crate::normalize`] describes.

pub mod condition;
pub mod cursor;
pub mod domain;
pub mod effect;
pub mod expr;
pub mod nesting;
pub mod problem;
pub mod terms;
pub mod utils;

use vstd::prelude::*;

use crate::ast::{Domain, Problem, SpecDomain, SpecProblem};
use crate::error::{ParseError, SpecParseError};
use crate::lexer::{spans_bounded, spec_tokenize, tokenize, tokens_view, SpecToken, Token};
use crate::normalize::{sorted_domain, sorted_problem};

use self::cursor::Parser;
use self::domain::{parse_domain_def, sp_domain_def};
use self::problem::{parse_problem_def, sp_problem_def};

verus! {

/// The domain that tokens hold, in the order written, or the first error met
/// while reading it. Tokens after the domain's closing `)` are ignored.
pub open spec fn domain_of_tokens(ts: Seq<SpecToken>) -> Result<SpecDomain, SpecParseError> {
    match sp_domain_def(ts, 0) {
        Ok((d, _)) => Ok(d),
        Err(e) => Err(e),
    }
}

/// The problem that tokens hold, in the order written, or the first error met
/// while reading it. Tokens after the problem's closing `)` are ignored.
pub open spec fn problem_of_tokens(ts: Seq<SpecToken>) -> Result<SpecProblem, SpecParseError> {
    match sp_problem_def(ts, 0) {
        Ok((p, _)) => Ok(p),
        Err(e) => Err(e),
    }
}

/// A parse result for a domain is the domain the tokens hold, sorted, or the
/// error met.
pub open spec fn domain_result(
    r: Result<Domain, ParseError>,
    expected: Result<SpecDomain, SpecParseError>,
) -> bool {
    match (r, expected) {
        (Ok(d), Ok(d0)) => sorted_domain(d0, d@),
        (Err(e), Err(e0)) => e@ == e0,
        _ => false,
    }
}

/// A parse result for a problem is the problem the tokens hold, sorted, or the
/// error met.
pub open spec fn problem_result(
    r: Result<Problem, ParseError>,
    expected: Result<SpecProblem, SpecParseError>,
) -> bool {
    match (r, expected) {
        (Ok(p), Ok(p0)) => sorted_problem(p0, p@),
        (Err(e), Err(e0)) => e@ == e0,
        _ => false,
    }
}

/// Parses a tokenized PDDL domain, and sorts it.
pub fn parse_domain(tokens: &[Token]) -> (r: Result<Domain, ParseError>)
    requires
        tokens@.len() < usize::MAX,
        spans_bounded(tokens_view(tokens@)),
    ensures
        domain_result(r, domain_of_tokens(tokens_view(tokens@))),
{
    let mut p = Parser::new(tokens);
    let mut domain = parse_domain_def(&mut p)?;
    domain.sort_alphabetically();
    Ok(domain)
}

/// Parses a tokenized PDDL problem, and sorts it.
pub fn parse_problem(tokens: &[Token]) -> (r: Result<Problem, ParseError>)
    requires
        tokens@.len() < usize::MAX,
        spans_bounded(tokens_view(tokens@)),
    ensures
        problem_result(r, problem_of_tokens(tokens_view(tokens@))),
{
    let mut p = Parser::new(tokens);
    let mut problem = parse_problem_def(&mut p)?;
    problem.sort_alphabetically();
    Ok(problem)
}

/// Tokenizes and parses a PDDL domain: the tokenizer's error, or what
/// [`parse_domain`] makes of the tokens.
pub fn parse_domain_str(input: &str) -> (r: Result<Domain, ParseError>)
    requires
        input.len() < usize::MAX,
    ensures
        match spec_tokenize(input@) {
            Err(e) => r matches Err(x) && x@ == e,
            Ok(ts) => domain_result(r, domain_of_tokens(ts)),
        },
{
    let tokens = tokenize(input)?;
    parse_domain(tokens.as_slice())
}

/// Tokenizes and parses a PDDL problem: the tokenizer's error, or what
/// [`parse_problem`] makes of the tokens.
pub fn parse_problem_str(input: &str) -> (r: Result<Problem, ParseError>)
    requires
        input.len() < usize::MAX,
    ensures
        match spec_tokenize(input@) {
            Err(e) => r matches Err(x) && x@ == e,
            Ok(ts) => problem_result(r, problem_of_tokens(ts)),
        },
{
    let tokens = tokenize(input)?;
    parse_problem(tokens.as_slice())
}

} // verus!
