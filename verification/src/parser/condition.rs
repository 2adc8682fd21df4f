//! Condition and goal parsing.

use vstd::prelude::*;

use crate::ast::{
    conditions_view, AtomicFormula, CompareOp, Condition, SpecAtomicFormula, SpecCondition,
};
use crate::error::{err_at, ParseError};
use crate::lexer::{is_symbol_like, kind_debug, SpecToken, SpecTokenKind, TokenKind};
use crate::text::{concat2, same_text};

use super::cursor::{
    at_lparen, at_rparen, current_span, eof_span, lemma_prepend_empty, lemma_prepend_push, lift,
    moved, prepend, ran, sp_expect_lparen, sp_expect_rparen, sp_expect_symbol, Parser, SpecParse,
};
use super::expr::{is_numeric_start, numeric_start, parse_numeric_expr, sp_numeric};
use super::terms::{parse_term, parse_terms, parse_typed_list_vars, sp_term, sp_terms, sp_typed_list};
use super::utils::{
    compare_op_of, parse_compare_op_from_str, parse_number_literal, sp_number_literal, stalled,
};

verus! {

/// Whether a nested parse that ended at `q` stayed at or after `pos` and within
/// the tokens.
pub open spec fn reached(ts: Seq<SpecToken>, pos: int, q: int) -> bool {
    pos <= q <= ts.len()
}

/// A condition.
pub open spec fn sp_condition(ts: Seq<SpecToken>, pos: int) -> SpecParse<SpecCondition>
    decreases ts.len() - pos, 1int,
{
    if !at_lparen(ts, pos) {
        Err(err_at("expected condition (must start with '(')"@, current_span(ts, pos)))
    } else if pos + 1 >= ts.len() {
        Err(err_at("unexpected end of input in condition"@, eof_span(ts)))
    } else {
        match ts[pos + 1].kind {
            SpecTokenKind::Symbol(s) => sp_cond_keyword(ts, pos + 2, s),
            _ => Err(
                err_at(
                    "unexpected token in condition: "@ + kind_debug(ts[pos + 1].kind),
                    ts[pos + 1].span,
                ),
            ),
        }
    }
}

/// Conditions up to the next `)`.
pub open spec fn sp_conditions(ts: Seq<SpecToken>, pos: int) -> SpecParse<Seq<SpecCondition>>
    decreases ts.len() - pos, 2int,
{
    if at_rparen(ts, pos) || pos < 0 || pos > ts.len() {
        Ok((seq![], pos))
    } else {
        match sp_condition(ts, pos) {
            Err(e) => Err(e),
            Ok((c, q)) => if pos < q <= ts.len() {
                prepend(seq![c], sp_conditions(ts, q))
            } else {
                Err(stalled(ts))
            },
        }
    }
}

/// A condition followed by `)`.
pub open spec fn sp_cond_close(ts: Seq<SpecToken>, pos: int) -> SpecParse<SpecCondition>
    decreases ts.len() - pos, 2int,
{
    if pos < 0 || pos > ts.len() {
        Err(stalled(ts))
    } else {
        match sp_condition(ts, pos) {
            Err(e) => Err(e),
            Ok((c, q)) => match sp_expect_rparen(ts, q) {
                Err(e) => Err(e),
                Ok((_, q2)) => Ok((c, q2)),
            },
        }
    }
}

/// Two conditions followed by `)`.
pub open spec fn sp_two_close(ts: Seq<SpecToken>, pos: int) -> SpecParse<
    (SpecCondition, SpecCondition),
>
    decreases ts.len() - pos, 2int,
{
    if pos < 0 || pos > ts.len() {
        Err(stalled(ts))
    } else {
        match sp_condition(ts, pos) {
            Err(e) => Err(e),
            Ok((a, q)) => if pos < q <= ts.len() {
                match sp_cond_close(ts, q) {
                    Err(e) => Err(e),
                    Ok((b, q2)) => Ok(((a, b), q2)),
                }
            } else {
                Err(stalled(ts))
            },
        }
    }
}

pub open spec fn bx(c: SpecCondition) -> Box<SpecCondition> {
    Box::new(c)
}

/// Terms up to `)` and the `)`: a predicate named `name`.
pub open spec fn sp_predicate_rest(ts: Seq<SpecToken>, pos: int, name: Seq<char>) -> SpecParse<
    SpecCondition,
> {
    match sp_terms(ts, pos) {
        Err(e) => Err(e),
        Ok((args, q)) => match sp_expect_rparen(ts, q) {
            Err(e) => Err(e),
            Ok((_, q2)) => Ok((SpecCondition::Predicate(SpecAtomicFormula { name, args }), q2)),
        },
    }
}

/// Two numeric expressions and `)`: a comparison.
pub open spec fn sp_comparison_rest(ts: Seq<SpecToken>, pos: int, op: CompareOp) -> SpecParse<
    SpecCondition,
> {
    match sp_numeric(ts, pos, false) {
        Err(e) => Err(e),
        Ok((l, q1)) => match sp_numeric(ts, q1, false) {
            Err(e) => Err(e),
            Ok((r, q2)) => match sp_expect_rparen(ts, q2) {
                Err(e) => Err(e),
                Ok((_, q3)) => Ok((SpecCondition::NumericComparison { op, left: l, right: r }, q3)),
            },
        },
    }
}

/// A quantifier after its keyword: `(typed variables) condition )`.
pub open spec fn sp_quantified(ts: Seq<SpecToken>, pos: int, exists: bool) -> SpecParse<
    SpecCondition,
>
    decreases ts.len() - pos, 3int,
{
    match sp_expect_lparen(ts, pos) {
        Err(e) => Err(e),
        Ok((_, p1)) => match sp_typed_list(ts, p1, true) {
            Err(e) => Err(e),
            Ok((variables, p2)) => match sp_expect_rparen(ts, p2) {
                Err(e) => Err(e),
                Ok((_, p3)) => if reached(ts, pos, p3) {
                    match sp_cond_close(ts, p3) {
                        Err(e) => Err(e),
                        Ok((c, q)) => Ok(
                            (
                                if exists {
                                    SpecCondition::Exists { variables, condition: bx(c) }
                                } else {
                                    SpecCondition::Forall { variables, condition: bx(c) }
                                },
                                q,
                            ),
                        ),
                    }
                } else {
                    Err(stalled(ts))
                },
            },
        },
    }
}

/// The rest of a condition after `(` and the symbol `s`, from `pos`.
pub open spec fn sp_cond_keyword(ts: Seq<SpecToken>, pos: int, s: Seq<char>) -> SpecParse<
    SpecCondition,
>
    decreases ts.len() - pos, 4int,
{
    if pos < 0 || pos > ts.len() {
        Err(stalled(ts))
    } else if s == "and"@ || s == "or"@ {
        match sp_conditions(ts, pos) {
            Err(e) => Err(e),
            Ok((cs, q)) => match sp_expect_rparen(ts, q) {
                Err(e) => Err(e),
                Ok((_, q2)) => Ok(
                    (
                        if s == "and"@ {
                            SpecCondition::And(cs)
                        } else {
                            SpecCondition::Or(cs)
                        },
                        q2,
                    ),
                ),
            },
        }
    } else if s == "not"@ {
        match sp_cond_close(ts, pos) {
            Err(e) => Err(e),
            Ok((c, q)) => Ok((SpecCondition::Not(bx(c)), q)),
        }
    } else if s == "imply"@ {
        match sp_two_close(ts, pos) {
            Err(e) => Err(e),
            Ok(((a, b), q)) => Ok((SpecCondition::Imply(bx(a), bx(b)), q)),
        }
    } else if s == "forall"@ || s == "exists"@ {
        sp_quantified(ts, pos, s == "exists"@)
    } else if s == "preference"@ {
        let named = !at_lparen(ts, pos) && !at_rparen(ts, pos);
        let nm: SpecParse<Option<Seq<char>>> = if named {
            match sp_expect_symbol(ts, pos) {
                Err(e) => Err(e),
                Ok((n, q)) => Ok((Some(n), q)),
            }
        } else {
            Ok((None, pos))
        };
        match nm {
            Err(e) => Err(e),
            Ok((name, q)) => if reached(ts, pos, q) {
                match sp_cond_close(ts, q) {
                    Err(e) => Err(e),
                    Ok((c, q2)) => Ok((SpecCondition::Preference { name, condition: bx(c) }, q2)),
                }
            } else {
                Err(stalled(ts))
            },
        }
    } else if s == "at"@ {
        if pos >= ts.len() {
            Err(err_at("unexpected end after 'at'"@, eof_span(ts)))
        } else if is_symbol_like(ts[pos].kind, "start"@) {
            match sp_cond_close(ts, pos + 1) {
                Err(e) => Err(e),
                Ok((c, q)) => Ok((SpecCondition::AtStart(bx(c)), q)),
            }
        } else if is_symbol_like(ts[pos].kind, "end"@) {
            match sp_cond_close(ts, pos + 1) {
                Err(e) => Err(e),
                Ok((c, q)) => Ok((SpecCondition::AtEnd(bx(c)), q)),
            }
        } else {
            sp_predicate_rest(ts, pos, s)
        }
    } else if s == "over"@ {
        if pos >= ts.len() {
            Err(err_at("unexpected end after 'over'"@, eof_span(ts)))
        } else if is_symbol_like(ts[pos].kind, "all"@) {
            match sp_cond_close(ts, pos + 1) {
                Err(e) => Err(e),
                Ok((c, q)) => Ok((SpecCondition::OverAll(bx(c)), q)),
            }
        } else {
            sp_predicate_rest(ts, pos, s)
        }
    } else if s == "always"@ || s == "sometime"@ || s == "at-most-once"@ {
        match sp_cond_close(ts, pos) {
            Err(e) => Err(e),
            Ok((c, q)) => Ok(
                (
                    if s == "always"@ {
                        SpecCondition::Always(bx(c))
                    } else if s == "sometime"@ {
                        SpecCondition::Sometime(bx(c))
                    } else {
                        SpecCondition::AtMostOnce(bx(c))
                    },
                    q,
                ),
            ),
        }
    } else if s == "within"@ || s == "hold-after"@ {
        match sp_number_literal(ts, pos) {
            Err(e) => Err(e),
            Ok((t, q)) => if reached(ts, pos, q) {
                match sp_cond_close(ts, q) {
                    Err(e) => Err(e),
                    Ok((c, q2)) => Ok(
                        (
                            if s == "within"@ {
                                SpecCondition::Within(t, bx(c))
                            } else {
                                SpecCondition::HoldAfter(t, bx(c))
                            },
                            q2,
                        ),
                    ),
                }
            } else {
                Err(stalled(ts))
            },
        }
    } else if s == "sometime-before"@ || s == "sometime-after"@ {
        match sp_two_close(ts, pos) {
            Err(e) => Err(e),
            Ok(((a, b), q)) => Ok(
                (
                    if s == "sometime-before"@ {
                        SpecCondition::SometimeBefore(bx(a), bx(b))
                    } else {
                        SpecCondition::SometimeAfter(bx(a), bx(b))
                    },
                    q,
                ),
            ),
        }
    } else if s == "always-within"@ {
        match sp_number_literal(ts, pos) {
            Err(e) => Err(e),
            Ok((t, q)) => if reached(ts, pos, q) {
                match sp_two_close(ts, q) {
                    Err(e) => Err(e),
                    Ok(((a, b), q2)) => Ok((SpecCondition::AlwaysWithin(t, bx(a), bx(b)), q2)),
                }
            } else {
                Err(stalled(ts))
            },
        }
    } else if s == "hold-during"@ {
        match sp_number_literal(ts, pos) {
            Err(e) => Err(e),
            Ok((t1, q1)) => match sp_number_literal(ts, q1) {
                Err(e) => Err(e),
                Ok((t2, q2)) => if reached(ts, pos, q2) {
                    match sp_cond_close(ts, q2) {
                        Err(e) => Err(e),
                        Ok((c, q3)) => Ok((SpecCondition::HoldDuring(t1, t2, bx(c)), q3)),
                    }
                } else {
                    Err(stalled(ts))
                },
            },
        }
    } else if s == "="@ {
        if numeric_start(ts, pos) {
            sp_comparison_rest(ts, pos, CompareOp::Eq)
        } else {
            match sp_term(ts, pos) {
                Err(e) => Err(e),
                Ok((a, q1)) => match sp_term(ts, q1) {
                    Err(e) => Err(e),
                    Ok((b, q2)) => match sp_expect_rparen(ts, q2) {
                        Err(e) => Err(e),
                        Ok((_, q3)) => Ok((SpecCondition::Equals(a, b), q3)),
                    },
                },
            }
        }
    } else if s == "<"@ || s == "<="@ || s == ">"@ || s == ">="@ {
        sp_comparison_rest(ts, pos, compare_op_of(s))
    } else {
        sp_predicate_rest(ts, pos, s)
    }
}


// ---------------------------------------------------------------------------
// Parsing
// ---------------------------------------------------------------------------

/// Parses a condition (goal description): connectives, quantifiers, temporal
/// wrappers, predicates (telling `at` and `over` as predicate names from the
/// temporal keywords), comparisons, equality, preferences and trajectory
/// constraints.
pub fn parse_condition(p: &mut Parser) -> (r: Result<Condition, ParseError>)
    requires
        old(p).wf(),
    ensures
        ran(*old(p), *final(p)),
        moved(*old(p), *final(p), r),
        lift(r, final(p).pos) == sp_condition(old(p).ts(), old(p).pos as int),
    decreases old(p).ts().len() - old(p).pos, 1int,
{
    if p.at_lparen() {
        p.expect_lparen()?;
        let tok = match p.peek() {
            Some(t) => t,
            None => {
                return Err(
                    ParseError::new(
                        String::from_str("unexpected end of input in condition"),
                        p.eof_span(),
                    ),
                );
            },
        };
        match &tok.kind {
            TokenKind::Symbol(s) => {
                p.advance()?;
                parse_cond_keyword(p, s.as_str())
            },
            _ => {
                let d = tok.kind.debug_text();
                Err(ParseError::new(concat2("unexpected token in condition: ", d.as_str()), tok.span))
            },
        }
    } else {
        Err(
            ParseError::new(
                String::from_str("expected condition (must start with '(')"),
                p.current_span(),
            ),
        )
    }
}

/// Parses conditions up to the next `)`.
fn parse_conditions(p: &mut Parser) -> (r: Result<Vec<Condition>, ParseError>)
    requires
        old(p).wf(),
    ensures
        ran(*old(p), *final(p)),
        old(p).pos <= final(p).pos,
        match r {
            Ok(v) => sp_conditions(old(p).ts(), old(p).pos as int) == Ok::<
                (Seq<SpecCondition>, int),
                crate::error::SpecParseError,
            >((conditions_view(v@), final(p).pos as int)),
            Err(e) => sp_conditions(old(p).ts(), old(p).pos as int) == Err::<
                (Seq<SpecCondition>, int),
                crate::error::SpecParseError,
            >(e@),
        },
    decreases old(p).ts().len() - old(p).pos, 2int,
{
    let ghost ts = p.ts();
    let mut conds: Vec<Condition> = Vec::new();
    assert(conditions_view(conds@) =~= seq![]);
    while !p.at_rparen()
        invariant
            ran(*old(p), *p),
            ts == p.ts(),
            old(p).pos <= p.pos,
            sp_conditions(ts, old(p).pos as int) == prepend(
                conditions_view(conds@),
                sp_conditions(ts, p.pos as int),
            ),
        decreases ts.len() - p.pos,
    {
        let ghost before = conditions_view(conds@);
        let c = parse_condition(p)?;
        let ghost cv = c@;
        conds.push(c);
        assert(conditions_view(conds@) =~= before.push(cv));
        proof {
            lemma_prepend_push(before, cv, sp_conditions(ts, p.pos as int));
        }
    }
    proof {
        lemma_prepend_empty(conditions_view(conds@), p.pos as int);
    }
    Ok(conds)
}

/// Parses a condition and the `)` after it.
fn parse_cond_close(p: &mut Parser) -> (r: Result<Condition, ParseError>)
    requires
        old(p).wf(),
    ensures
        ran(*old(p), *final(p)),
        moved(*old(p), *final(p), r),
        lift(r, final(p).pos) == sp_cond_close(old(p).ts(), old(p).pos as int),
    decreases old(p).ts().len() - old(p).pos, 2int,
{
    let c = parse_condition(p)?;
    p.expect_rparen()?;
    Ok(c)
}

/// Parses two conditions and the `)` after them.
fn parse_two_close(p: &mut Parser) -> (r: Result<(Condition, Condition), ParseError>)
    requires
        old(p).wf(),
    ensures
        ran(*old(p), *final(p)),
        moved(*old(p), *final(p), r),
        lift(r, final(p).pos) == sp_two_close(old(p).ts(), old(p).pos as int),
    decreases old(p).ts().len() - old(p).pos, 2int,
{
    let a = parse_condition(p)?;
    let b = parse_cond_close(p)?;
    Ok((a, b))
}

/// Parses a quantifier after its keyword.
fn parse_quantified(p: &mut Parser, exists: bool) -> (r: Result<Condition, ParseError>)
    requires
        old(p).wf(),
    ensures
        ran(*old(p), *final(p)),
        moved(*old(p), *final(p), r),
        lift(r, final(p).pos) == sp_quantified(old(p).ts(), old(p).pos as int, exists),
    decreases old(p).ts().len() - old(p).pos, 3int,
{
    p.expect_lparen()?;
    let variables = parse_typed_list_vars(p)?;
    p.expect_rparen()?;
    let c = parse_cond_close(p)?;
    if exists {
        Ok(Condition::Exists { variables, condition: Box::new(c) })
    } else {
        Ok(Condition::Forall { variables, condition: Box::new(c) })
    }
}

fn parse_predicate_rest(p: &mut Parser, name: &str) -> (r: Result<Condition, ParseError>)
    requires
        old(p).wf(),
    ensures
        ran(*old(p), *final(p)),
        moved(*old(p), *final(p), r),
        lift(r, final(p).pos) == sp_predicate_rest(old(p).ts(), old(p).pos as int, name@),
{
    let args = parse_terms(p)?;
    p.expect_rparen()?;
    Ok(Condition::Predicate(AtomicFormula { name: String::from_str(name), args }))
}

fn parse_comparison_rest(p: &mut Parser, op: CompareOp) -> (r: Result<Condition, ParseError>)
    requires
        old(p).wf(),
    ensures
        ran(*old(p), *final(p)),
        moved(*old(p), *final(p), r),
        lift(r, final(p).pos) == sp_comparison_rest(old(p).ts(), old(p).pos as int, op),
{
    let left = parse_numeric_expr(p)?;
    let right = parse_numeric_expr(p)?;
    p.expect_rparen()?;
    Ok(Condition::NumericComparison { op, left, right })
}

/// Parses the rest of a condition after `(` and the symbol `s`.
fn parse_cond_keyword(p: &mut Parser, s: &str) -> (r: Result<Condition, ParseError>)
    requires
        old(p).wf(),
    ensures
        ran(*old(p), *final(p)),
        moved(*old(p), *final(p), r),
        lift(r, final(p).pos) == sp_cond_keyword(old(p).ts(), old(p).pos as int, s@),
    decreases old(p).ts().len() - old(p).pos, 4int,
{
    if same_text(s, "and") || same_text(s, "or") {
        let cs = parse_conditions(p)?;
        p.expect_rparen()?;
        if same_text(s, "and") {
            Ok(Condition::And(cs))
        } else {
            Ok(Condition::Or(cs))
        }
    } else if same_text(s, "not") {
        let c = parse_cond_close(p)?;
        Ok(Condition::Not(Box::new(c)))
    } else if same_text(s, "imply") {
        let (a, b) = parse_two_close(p)?;
        Ok(Condition::Imply(Box::new(a), Box::new(b)))
    } else if same_text(s, "forall") || same_text(s, "exists") {
        parse_quantified(p, same_text(s, "exists"))
    } else if same_text(s, "preference") {
        let name = if !p.at_lparen() && !p.at_rparen() {
            Some(p.expect_symbol()?)
        } else {
            None
        };
        let c = parse_cond_close(p)?;
        Ok(Condition::Preference { name, condition: Box::new(c) })
    } else if same_text(s, "at") {
        let tok2 = match p.peek() {
            Some(t) => t,
            None => {
                return Err(
                    ParseError::new(String::from_str("unexpected end after 'at'"), p.eof_span()),
                );
            },
        };
        if tok2.symbol_eq("start") {
            p.advance()?;
            let c = parse_cond_close(p)?;
            Ok(Condition::AtStart(Box::new(c)))
        } else if tok2.symbol_eq("end") {
            p.advance()?;
            let c = parse_cond_close(p)?;
            Ok(Condition::AtEnd(Box::new(c)))
        } else {
            parse_predicate_rest(p, s)
        }
    } else if same_text(s, "over") {
        let next = match p.peek() {
            Some(t) => t,
            None => {
                return Err(
                    ParseError::new(String::from_str("unexpected end after 'over'"), p.eof_span()),
                );
            },
        };
        if next.symbol_eq("all") {
            p.advance()?;
            let c = parse_cond_close(p)?;
            Ok(Condition::OverAll(Box::new(c)))
        } else {
            parse_predicate_rest(p, s)
        }
    } else if same_text(s, "always") || same_text(s, "sometime") || same_text(s, "at-most-once") {
        let c = parse_cond_close(p)?;
        if same_text(s, "always") {
            Ok(Condition::Always(Box::new(c)))
        } else if same_text(s, "sometime") {
            Ok(Condition::Sometime(Box::new(c)))
        } else {
            Ok(Condition::AtMostOnce(Box::new(c)))
        }
    } else if same_text(s, "within") || same_text(s, "hold-after") {
        let t = parse_number_literal(p)?;
        let c = parse_cond_close(p)?;
        if same_text(s, "within") {
            Ok(Condition::Within(t, Box::new(c)))
        } else {
            Ok(Condition::HoldAfter(t, Box::new(c)))
        }
    } else if same_text(s, "sometime-before") || same_text(s, "sometime-after") {
        let (a, b) = parse_two_close(p)?;
        if same_text(s, "sometime-before") {
            Ok(Condition::SometimeBefore(Box::new(a), Box::new(b)))
        } else {
            Ok(Condition::SometimeAfter(Box::new(a), Box::new(b)))
        }
    } else if same_text(s, "always-within") {
        let t = parse_number_literal(p)?;
        let (a, b) = parse_two_close(p)?;
        Ok(Condition::AlwaysWithin(t, Box::new(a), Box::new(b)))
    } else if same_text(s, "hold-during") {
        let t1 = parse_number_literal(p)?;
        let t2 = parse_number_literal(p)?;
        let c = parse_cond_close(p)?;
        Ok(Condition::HoldDuring(t1, t2, Box::new(c)))
    } else if same_text(s, "=") {
        if is_numeric_start(p) {
            parse_comparison_rest(p, CompareOp::Eq)
        } else {
            let a = parse_term(p)?;
            let b = parse_term(p)?;
            p.expect_rparen()?;
            Ok(Condition::Equals(a, b))
        }
    } else if same_text(s, "<") || same_text(s, "<=") || same_text(s, ">") || same_text(s, ">=") {
        parse_comparison_rest(p, parse_compare_op_from_str(s))
    } else {
        parse_predicate_rest(p, s)
    }
}


/// A connective that parses is the one written: `(and ...)` gives a
/// conjunction and `(or ...)` a disjunction, whatever the tokens around them.
pub proof fn law_condition_connective(ts: Seq<SpecToken>, pos: int)
    requires
        0 <= pos,
        pos + 1 < ts.len(),
    ensures
        sp_condition(ts, pos) is Ok && ts[pos + 1].kind == SpecTokenKind::Symbol("and"@)
            ==> sp_condition(ts, pos)->Ok_0.0 matches SpecCondition::And(_),
        sp_condition(ts, pos) is Ok && ts[pos + 1].kind == SpecTokenKind::Symbol("or"@)
            ==> sp_condition(ts, pos)->Ok_0.0 matches SpecCondition::Or(_),
{
    reveal_strlit("and");
    reveal_strlit("or");
    assert("and"@.len() != "or"@.len());
}

} // verus!
