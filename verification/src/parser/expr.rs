//! Numeric expression parsing.

use vstd::prelude::*;

use crate::ast::{views, BinaryOp, FunctionTerm, NumericExpr, SpecFunctionTerm, SpecNumericExpr};
use crate::error::{err_at, ParseError};
use crate::lexer::{is_symbol_like, kind_debug, SpecToken, SpecTokenKind, TokenKind};
use crate::text::{concat2, same_text};

use super::cursor::{
    advanced, at_lparen, at_number, at_rparen, at_symbol, current_span, eof_span, lift, moved,
    ran, sp_expect_rparen, Parser, SpecParse,
};
use super::terms::{parse_terms, sp_terms};
use super::utils::{parse_number_literal, sp_number_literal, stalled};

verus! {

/// The arithmetic operator a symbol names.
pub open spec fn binop_of(s: Seq<char>) -> Option<BinaryOp> {
    if s == "+"@ {
        Some(BinaryOp::Add)
    } else if s == "-"@ {
        Some(BinaryOp::Sub)
    } else if s == "*"@ {
        Some(BinaryOp::Mul)
    } else if s == "/"@ {
        Some(BinaryOp::Div)
    } else {
        None
    }
}

pub open spec fn call(name: Seq<char>, args: Seq<crate::ast::SpecTerm>) -> SpecNumericExpr {
    SpecNumericExpr::FunctionCall(SpecFunctionTerm { name, args })
}

pub open spec fn binary(op: BinaryOp, l: SpecNumericExpr, r: SpecNumericExpr) -> SpecNumericExpr {
    SpecNumericExpr::BinaryOp { op, left: Box::new(l), right: Box::new(r) }
}

/// `(name term*)` after the `(` and the name: the terms and the closing `)`.
pub open spec fn sp_call_rest(ts: Seq<SpecToken>, pos: int, name: Seq<char>) -> SpecParse<
    SpecNumericExpr,
> {
    match sp_terms(ts, pos) {
        Err(e) => Err(e),
        Ok((args, q)) => match sp_expect_rparen(ts, q) {
            Err(e) => Err(e),
            Ok((_, q2)) => Ok((call(name, args), q2)),
        },
    }
}

/// A numeric expression. `metric` selects the variant used in `:metric`, where
/// `(total-time)` may be parenthesized and a bare `?duration` is not an
/// expression. In both, `-` with one operand negates it, and any other
/// operator with one operand stands for that operand.
pub open spec fn sp_numeric(ts: Seq<SpecToken>, pos: int, metric: bool) -> SpecParse<
    SpecNumericExpr,
>
    decreases ts.len() - pos, 1int,
{
    if at_lparen(ts, pos) {
        let p1 = pos + 1;
        if p1 >= ts.len() {
            Err(
                err_at(
                    if metric {
                        "unexpected end of input in metric expression"@
                    } else {
                        "unexpected end in numeric expression"@
                    },
                    eof_span(ts),
                ),
            )
        } else if metric && is_symbol_like(ts[p1].kind, "total-time"@) {
            match sp_expect_rparen(ts, p1 + 1) {
                Err(e) => Err(e),
                Ok((_, q)) => Ok((SpecNumericExpr::TotalTime, q)),
            }
        } else {
            match ts[p1].kind {
                SpecTokenKind::Symbol(s) => match binop_of(s) {
                    Some(op) => match sp_numeric(ts, p1 + 1, metric) {
                        Err(e) => Err(e),
                        Ok((first, q1)) => if !advanced(ts, pos, q1) {
                            Err(stalled(ts))
                        } else if at_rparen(ts, q1) && s == "-"@ {
                            Ok((SpecNumericExpr::Negate(Box::new(first)), q1 + 1))
                        } else {
                            sp_fold_close(ts, q1, metric, op, first)
                        },
                    },
                    None => sp_call_rest(ts, p1 + 1, s),
                },
                _ => Err(
                    err_at(
                        (if metric {
                            "unexpected token in metric expression: "@
                        } else {
                            "unexpected token in numeric expression: "@
                        }) + kind_debug(ts[p1].kind),
                        ts[p1].span,
                    ),
                ),
            }
        }
    } else if at_number(ts, pos) {
        match sp_number_literal(ts, pos) {
            Err(e) => Err(e),
            Ok((n, q)) => Ok((SpecNumericExpr::Number(n), q)),
        }
    } else if metric {
        if at_symbol(ts, pos, "total-time"@) {
            Ok((SpecNumericExpr::TotalTime, pos + 1))
        } else if 0 <= pos < ts.len() && ts[pos].kind is Symbol {
            Ok((call(ts[pos].kind->Symbol_0, seq![]), pos + 1))
        } else {
            Err(err_at("expected metric expression"@, current_span(ts, pos)))
        }
    } else if 0 <= pos < ts.len() && ts[pos].kind == SpecTokenKind::Variable("?duration"@) {
        Ok((SpecNumericExpr::Duration, pos + 1))
    } else if 0 <= pos < ts.len() && ts[pos].kind is Symbol {
        if ts[pos].kind->Symbol_0 == "total-time"@ {
            Ok((SpecNumericExpr::TotalTime, pos + 1))
        } else {
            Ok((call(ts[pos].kind->Symbol_0, seq![]), pos + 1))
        }
    } else {
        Err(err_at("expected numeric expression"@, current_span(ts, pos)))
    }
}

/// The operands of an n-ary operator after the first, folded to the left onto
/// `acc`, up to the next `)`.
pub open spec fn sp_fold(
    ts: Seq<SpecToken>,
    pos: int,
    metric: bool,
    op: BinaryOp,
    acc: SpecNumericExpr,
) -> SpecParse<SpecNumericExpr>
    decreases ts.len() - pos, 2int,
{
    if at_rparen(ts, pos) || pos < 0 || pos > ts.len() {
        Ok((acc, pos))
    } else {
        match sp_numeric(ts, pos, metric) {
            Err(e) => Err(e),
            Ok((next, q)) => if advanced(ts, pos, q) {
                sp_fold(ts, q, metric, op, binary(op, acc, next))
            } else {
                Err(stalled(ts))
            },
        }
    }
}

/// The remaining operands of an n-ary operator, folded, and the closing `)`.
pub open spec fn sp_fold_close(
    ts: Seq<SpecToken>,
    pos: int,
    metric: bool,
    op: BinaryOp,
    first: SpecNumericExpr,
) -> SpecParse<SpecNumericExpr>
    decreases ts.len() - pos, 3int,
{
    match sp_fold(ts, pos, metric, op, first) {
        Err(e) => Err(e),
        Ok((res, q2)) => match sp_expect_rparen(ts, q2) {
            Err(e) => Err(e),
            Ok((_, q3)) => Ok((res, q3)),
        },
    }
}

/// Whether the tokens at `pos` begin a numeric expression rather than a term,
/// judging by one token of lookahead after `(`.
pub open spec fn numeric_start(ts: Seq<SpecToken>, pos: int) -> bool {
    if 0 <= pos < ts.len() {
        match ts[pos].kind {
            SpecTokenKind::Number(_) => true,
            SpecTokenKind::Variable(v) => v == "?duration"@,
            SpecTokenKind::LParen => if pos + 1 < ts.len() {
                match ts[pos + 1].kind {
                    SpecTokenKind::Symbol(s) => s == "+"@ || s == "-"@ || s == "*"@ || s == "/"@
                        || s == "total-time"@ || !(s == "and"@ || s == "or"@ || s == "not"@ || s
                        == "forall"@ || s == "exists"@ || s == "imply"@ || s == "at"@ || s
                        == "over"@ || s == "preference"@ || s == "when"@),
                    _ => false,
                }
            } else {
                false
            },
            _ => false,
        }
    } else {
        false
    }
}

/// The arithmetic operator a symbol names, if any.
pub fn binary_op_from_symbol(symbol: &str) -> (r: Option<BinaryOp>)
    ensures
        r == binop_of(symbol@),
{
    if same_text(symbol, "+") {
        Some(BinaryOp::Add)
    } else if same_text(symbol, "-") {
        Some(BinaryOp::Sub)
    } else if same_text(symbol, "*") {
        Some(BinaryOp::Mul)
    } else if same_text(symbol, "/") {
        Some(BinaryOp::Div)
    } else {
        None
    }
}

fn parse_call_rest(p: &mut Parser, name: String) -> (r: Result<NumericExpr, ParseError>)
    requires
        old(p).wf(),
    ensures
        ran(*old(p), *final(p)),
        moved(*old(p), *final(p), r),
        lift(r, final(p).pos) == sp_call_rest(old(p).ts(), old(p).pos as int, name@),
{
    let args = parse_terms(p)?;
    p.expect_rparen()?;
    Ok(NumericExpr::FunctionCall(FunctionTerm { name, args }))
}

fn parse_numeric(p: &mut Parser, metric: bool) -> (r: Result<NumericExpr, ParseError>)
    requires
        old(p).wf(),
    ensures
        ran(*old(p), *final(p)),
        moved(*old(p), *final(p), r),
        lift(r, final(p).pos) == sp_numeric(old(p).ts(), old(p).pos as int, metric),
    decreases old(p).ts().len() - old(p).pos,
{
    let ghost ts = p.ts();
    let ghost start = p.pos as int;
    if p.at_lparen() {
        p.expect_lparen()?;
        let tok = match p.peek() {
            Some(t) => t,
            None => {
                let msg = if metric {
                    String::from_str("unexpected end of input in metric expression")
                } else {
                    String::from_str("unexpected end in numeric expression")
                };
                return Err(ParseError::new(msg, p.eof_span()));
            },
        };
        if metric && tok.symbol_eq("total-time") {
            p.advance()?;
            p.expect_rparen()?;
            return Ok(NumericExpr::TotalTime);
        }
        match &tok.kind {
            TokenKind::Symbol(s) => {
                match binary_op_from_symbol(s.as_str()) {
                    Some(op) => {
                        p.advance()?;
                        let first = parse_numeric(p, metric)?;
                        let q1 = p.pos;
                        if p.at_rparen() && same_text(s.as_str(), "-") {
                            p.expect_rparen()?;
                            return Ok(NumericExpr::Negate(Box::new(first)));
                        }
                        let ghost first_v = first@;
                        let mut result = first;
                        while !p.at_rparen()
                            invariant
                                ran(*old(p), *p),
                                ts == p.ts(),
                                start < q1 <= p.pos,
                                start == old(p).pos,
                                sp_numeric(ts, start, metric) == sp_fold_close(
                                    ts,
                                    q1 as int,
                                    metric,
                                    op,
                                    first_v,
                                ),
                                sp_fold(ts, q1 as int, metric, op, first_v) == sp_fold(
                                    ts,
                                    p.pos as int,
                                    metric,
                                    op,
                                    result@,
                                ),
                            decreases ts.len() - p.pos,
                        {
                            let next = parse_numeric(p, metric)?;
                            result = NumericExpr::BinaryOp {
                                op,
                                left: Box::new(result),
                                right: Box::new(next),
                            };
                        }
                        p.expect_rparen()?;
                        Ok(result)
                    },
                    None => {
                        p.advance()?;
                        parse_call_rest(p, s.clone())
                    },
                }
            },
            _ => {
                let d = tok.kind.debug_text();
                let msg = if metric {
                    concat2("unexpected token in metric expression: ", d.as_str())
                } else {
                    concat2("unexpected token in numeric expression: ", d.as_str())
                };
                Err(ParseError::new(msg, tok.span))
            },
        }
    } else if p.at_number() {
        let n = parse_number_literal(p)?;
        Ok(NumericExpr::Number(n))
    } else if metric {
        if p.at_symbol("total-time") {
            p.advance()?;
            return Ok(NumericExpr::TotalTime);
        }
        if let Some(tok) = p.peek() {
            if let TokenKind::Symbol(s) = &tok.kind {
                let name = s.clone();
                p.advance()?;
                let r = FunctionTerm { name, args: Vec::new() };
                assert(views(r.args@) =~= seq![]);
                return Ok(NumericExpr::FunctionCall(r));
            }
        }
        Err(ParseError::new(String::from_str("expected metric expression"), p.current_span()))
    } else {
        if let Some(tok) = p.peek() {
            if let TokenKind::Variable(v) = &tok.kind {
                if same_text(v.as_str(), "?duration") {
                    p.advance()?;
                    return Ok(NumericExpr::Duration);
                }
            }
            if let TokenKind::Symbol(s) = &tok.kind {
                if same_text(s.as_str(), "total-time") {
                    p.advance()?;
                    return Ok(NumericExpr::TotalTime);
                }
                let name = s.clone();
                p.advance()?;
                let r = FunctionTerm { name, args: Vec::new() };
                assert(views(r.args@) =~= seq![]);
                return Ok(NumericExpr::FunctionCall(r));
            }
        }
        Err(ParseError::new(String::from_str("expected numeric expression"), p.current_span()))
    }
}

/// Parses a numeric expression (arithmetic, function terms, `?duration`,
/// `total-time`, numbers). N-ary operators are folded to the left.
pub fn parse_numeric_expr(p: &mut Parser) -> (r: Result<NumericExpr, ParseError>)
    requires
        old(p).wf(),
    ensures
        ran(*old(p), *final(p)),
        moved(*old(p), *final(p), r),
        lift(r, final(p).pos) == sp_numeric(old(p).ts(), old(p).pos as int, false),
{
    parse_numeric(p, false)
}

/// Parses a metric expression: like a numeric expression, but `(total-time)`
/// may be parenthesized and `?duration` is not one.
pub fn parse_metric_expr(p: &mut Parser) -> (r: Result<NumericExpr, ParseError>)
    requires
        old(p).wf(),
    ensures
        ran(*old(p), *final(p)),
        moved(*old(p), *final(p), r),
        lift(r, final(p).pos) == sp_numeric(old(p).ts(), old(p).pos as int, true),
{
    parse_numeric(p, true)
}

/// Lookahead that tells a numeric expression from a term after `(=`.
pub fn is_numeric_start(p: &Parser) -> (b: bool)
    requires
        p.wf(),
    ensures
        b == numeric_start(p.ts(), p.pos as int),
{
    match p.peek() {
        Some(tok) => match &tok.kind {
            TokenKind::Number(_) => true,
            TokenKind::Variable(v) => same_text(v.as_str(), "?duration"),
            TokenKind::LParen => {
                if p.pos + 1 < p.tokens.len() {
                    let next = &p.tokens[p.pos + 1];
                    match &next.kind {
                        TokenKind::Symbol(s) => {
                            let s = s.as_str();
                            same_text(s, "+") || same_text(s, "-") || same_text(s, "*")
                                || same_text(s, "/") || same_text(s, "total-time") || !(
                            same_text(s, "and") || same_text(s, "or") || same_text(s, "not")
                                || same_text(s, "forall") || same_text(s, "exists") || same_text(
                                s,
                                "imply",
                            ) || same_text(s, "at") || same_text(s, "over") || same_text(
                                s,
                                "preference",
                            ) || same_text(s, "when"))
                        },
                        _ => false,
                    }
                } else {
                    false
                }
            },
            _ => false,
        },
        None => false,
    }
}

} // verus!
