//! Parser utilities: skipping balanced forms, comparison operators, numeric
//! literals.

use vstd::prelude::*;

use crate::ast::CompareOp;
use crate::error::ParseError;
use crate::lexer::{SpecToken, SpecTokenKind, TokenKind};
use crate::text::same_text;

use super::cursor::{
    advanced, at_symbol, end_of_input, expected_got, expected_got_error, lift, moved, ran,
    sp_advance, sp_expect_lparen, Parser, SpecParse,
};

verus! {

/// The stand-in error for a nested parse that did not move forward (which no
/// parse step does when it succeeds).
pub open spec fn stalled(ts: Seq<SpecToken>) -> crate::error::SpecParseError {
    end_of_input(ts)
}

/// Consumes tokens until `depth` open parentheses have been closed.
pub open spec fn sp_skip_depth(ts: Seq<SpecToken>, pos: int, depth: nat) -> SpecParse<()>
    decreases ts.len() - pos,
{
    if depth == 0 {
        Ok(((), pos))
    } else {
        match sp_advance(ts, pos) {
            Err(e) => Err(e),
            Ok((t, p)) => {
                let d = if t.kind is LParen {
                    depth + 1
                } else if t.kind is RParen {
                    (depth - 1) as nat
                } else {
                    depth
                };
                sp_skip_depth(ts, p, d)
            },
        }
    }
}

/// Skips a balanced S-expression.
pub open spec fn sp_skip_sexp(ts: Seq<SpecToken>, pos: int) -> SpecParse<()> {
    match sp_expect_lparen(ts, pos) {
        Err(e) => Err(e),
        Ok((_, p)) => sp_skip_depth(ts, p, 1),
    }
}

/// Skips S-expressions until `(define`, and consumes it.
pub open spec fn sp_skip_to_define(ts: Seq<SpecToken>, pos: int) -> SpecParse<()>
    decreases ts.len() - pos,
{
    match sp_expect_lparen(ts, pos) {
        Err(e) => Err(e),
        Ok((_, p1)) => if at_symbol(ts, p1, "define"@) {
            Ok(((), p1 + 1))
        } else {
            match sp_skip_depth(ts, p1, 1) {
                Err(e) => Err(e),
                Ok((_, p2)) => if advanced(ts, pos, p2) {
                    sp_skip_to_define(ts, p2)
                } else {
                    Err(stalled(ts))
                },
            }
        },
    }
}

/// The comparison operator a symbol names; anything unknown counts as `=`.
pub open spec fn compare_op_of(s: Seq<char>) -> CompareOp {
    if s == "<"@ {
        CompareOp::Lt
    } else if s == "<="@ {
        CompareOp::Lte
    } else if s == ">"@ {
        CompareOp::Gt
    } else if s == ">="@ {
        CompareOp::Gte
    } else {
        CompareOp::Eq
    }
}

pub open spec fn sp_compare_op(ts: Seq<SpecToken>, pos: int) -> SpecParse<CompareOp> {
    match sp_advance(ts, pos) {
        Err(e) => Err(e),
        Ok((t, p)) => match t.kind {
            SpecTokenKind::Symbol(s) => Ok((compare_op_of(s), p)),
            _ => Err(expected_got("comparison operator"@, t)),
        },
    }
}

pub open spec fn sp_number_literal(ts: Seq<SpecToken>, pos: int) -> SpecParse<Seq<char>> {
    match sp_advance(ts, pos) {
        Err(e) => Err(e),
        Ok((t, p)) => match t.kind {
            SpecTokenKind::Number(n) => Ok((n, p)),
            _ => Err(expected_got("number"@, t)),
        },
    }
}

fn skip_depth(p: &mut Parser) -> (r: Result<(), ParseError>)
    requires
        old(p).wf(),
    ensures
        ran(*old(p), *final(p)),
        moved(*old(p), *final(p), r),
        lift(r, final(p).pos) == sp_skip_depth(old(p).ts(), old(p).pos as int, 1),
{
    let ghost ts = p.ts();
    let ghost start = p.pos;
    let mut depth: usize = 1;
    while depth > 0
        invariant
            p.tokens == old(p).tokens,
            p.wf(),
            ts == p.ts(),
            start == old(p).pos,
            start <= p.pos,
            depth >= 1 ==> depth <= p.pos - start + 1,
            depth == 0 ==> start < p.pos,
            sp_skip_depth(ts, start as int, 1) == sp_skip_depth(ts, p.pos as int, depth as nat),
        decreases ts.len() - p.pos,
    {
        let tok = p.advance()?;
        match tok.kind {
            TokenKind::LParen => depth = depth + 1,
            TokenKind::RParen => depth = depth - 1,
            _ => {},
        }
    }
    Ok(())
}

/// Skips a balanced S-expression (used for unknown sections).
pub fn skip_sexp(p: &mut Parser) -> (r: Result<(), ParseError>)
    requires
        old(p).wf(),
    ensures
        ran(*old(p), *final(p)),
        moved(*old(p), *final(p), r),
        lift(r, final(p).pos) == sp_skip_sexp(old(p).ts(), old(p).pos as int),
{
    p.expect_lparen()?;
    skip_depth(p)
}

/// Skips any S-expressions before `(define ...)` (e.g. `(in-package "PDDL")`) and
/// consumes `(define`.
pub fn skip_to_define(p: &mut Parser) -> (r: Result<(), ParseError>)
    requires
        old(p).wf(),
    ensures
        ran(*old(p), *final(p)),
        moved(*old(p), *final(p), r),
        lift(r, final(p).pos) == sp_skip_to_define(old(p).ts(), old(p).pos as int),
{
    let ghost ts = p.ts();
    let ghost start = p.pos;
    loop
        invariant
            p.tokens == old(p).tokens,
            p.wf(),
            ts == p.ts(),
            start == old(p).pos,
            start <= p.pos,
            sp_skip_to_define(ts, start as int) == sp_skip_to_define(ts, p.pos as int),
        decreases ts.len() - p.pos,
    {
        p.expect_lparen()?;
        if p.at_symbol("define") {
            p.advance()?;
            return Ok(());
        }
        skip_depth(p)?;
    }
}

/// The comparison operator a symbol names (`<`, `<=`, `>`, `>=`; anything else is `=`).
pub fn parse_compare_op_from_str(s: &str) -> (op: CompareOp)
    ensures
        op == compare_op_of(s@),
{
    if same_text(s, "<") {
        CompareOp::Lt
    } else if same_text(s, "<=") {
        CompareOp::Lte
    } else if same_text(s, ">") {
        CompareOp::Gt
    } else if same_text(s, ">=") {
        CompareOp::Gte
    } else {
        CompareOp::Eq
    }
}

/// Parses a comparison operator token.
pub fn parse_compare_op(p: &mut Parser) -> (r: Result<CompareOp, ParseError>)
    requires
        old(p).wf(),
    ensures
        ran(*old(p), *final(p)),
        moved(*old(p), *final(p), r),
        lift(r, final(p).pos) == sp_compare_op(old(p).ts(), old(p).pos as int),
{
    let tok = p.advance()?;
    match &tok.kind {
        TokenKind::Symbol(s) => Ok(parse_compare_op_from_str(s.as_str())),
        _ => Err(expected_got_error("comparison operator", tok)),
    }
}

/// Parses a numeric literal token, giving its text.
pub fn parse_number_literal(p: &mut Parser) -> (r: Result<String, ParseError>)
    requires
        old(p).wf(),
    ensures
        ran(*old(p), *final(p)),
        moved(*old(p), *final(p), r),
        lift(r, final(p).pos) == sp_number_literal(old(p).ts(), old(p).pos as int),
{
    let tok = p.advance()?;
    match &tok.kind {
        TokenKind::Number(n) => Ok(n.clone()),
        _ => Err(expected_got_error("number", tok)),
    }
}

} // verus!
