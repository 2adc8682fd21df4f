//! Effect parsing.

use vstd::prelude::*;

use crate::ast::{
    effects_view, AssignOp, AtomicFormula, Effect, SpecAtomicFormula, SpecEffect,
};
use crate::error::{err_at, ParseError};
use crate::lexer::{is_symbol_like, kind_debug, SpecToken, SpecTokenKind, TokenKind};
use crate::text::{concat2, same_text};

use super::condition::{parse_condition, reached, sp_condition};
use super::cursor::{
    at_rparen, eof_span, lemma_prepend_empty, lemma_prepend_push, lift, moved, prepend, ran,
    sp_expect_lparen, sp_expect_rparen, Parser, SpecParse,
};
use super::expr::{parse_numeric_expr, sp_numeric};
use super::terms::{
    parse_atomic_formula, parse_function_term, parse_terms, parse_typed_list_vars,
    sp_atomic_formula, sp_function_term, sp_terms, sp_typed_list,
};
use super::utils::stalled;

verus! {

/// The assignment operator a symbol names.
pub open spec fn assign_of(s: Seq<char>) -> Option<AssignOp> {
    if s == "assign"@ {
        Some(AssignOp::Assign)
    } else if s == "increase"@ {
        Some(AssignOp::Increase)
    } else if s == "decrease"@ {
        Some(AssignOp::Decrease)
    } else if s == "scale-up"@ {
        Some(AssignOp::ScaleUp)
    } else if s == "scale-down"@ {
        Some(AssignOp::ScaleDown)
    } else {
        None
    }
}

pub open spec fn bxe(e: SpecEffect) -> Box<SpecEffect> {
    Box::new(e)
}

/// An effect.
pub open spec fn sp_effect(ts: Seq<SpecToken>, pos: int) -> SpecParse<SpecEffect>
    decreases ts.len() - pos, 1int,
{
    if !(0 <= pos < ts.len()) {
        match sp_expect_lparen(ts, pos) {
            Err(e) => Err(e),
            Ok(_) => Err(stalled(ts)),
        }
    } else if !(ts[pos].kind is LParen) {
        match sp_expect_lparen(ts, pos) {
            Err(e) => Err(e),
            Ok(_) => Err(stalled(ts)),
        }
    } else if pos + 1 >= ts.len() {
        Err(err_at("unexpected end of input in effect"@, eof_span(ts)))
    } else {
        match ts[pos + 1].kind {
            SpecTokenKind::Symbol(s) => sp_effect_keyword(ts, pos + 2, s),
            _ => Err(
                err_at(
                    "unexpected token in effect: "@ + kind_debug(ts[pos + 1].kind),
                    ts[pos + 1].span,
                ),
            ),
        }
    }
}

/// Effects up to the next `)`.
pub open spec fn sp_effects(ts: Seq<SpecToken>, pos: int) -> SpecParse<Seq<SpecEffect>>
    decreases ts.len() - pos, 2int,
{
    if at_rparen(ts, pos) || pos < 0 || pos > ts.len() {
        Ok((seq![], pos))
    } else {
        match sp_effect(ts, pos) {
            Err(e) => Err(e),
            Ok((x, q)) => if pos < q <= ts.len() {
                prepend(seq![x], sp_effects(ts, q))
            } else {
                Err(stalled(ts))
            },
        }
    }
}

/// An effect followed by `)`.
pub open spec fn sp_effect_close(ts: Seq<SpecToken>, pos: int) -> SpecParse<SpecEffect>
    decreases ts.len() - pos, 2int,
{
    if pos < 0 || pos > ts.len() {
        Err(stalled(ts))
    } else {
        match sp_effect(ts, pos) {
            Err(e) => Err(e),
            Ok((x, q)) => match sp_expect_rparen(ts, q) {
                Err(e) => Err(e),
                Ok((_, q2)) => Ok((x, q2)),
            },
        }
    }
}

/// Terms up to `)` and the `)`: a positive predicate effect named `name`.
pub open spec fn sp_effect_predicate(ts: Seq<SpecToken>, pos: int, name: Seq<char>) -> SpecParse<
    SpecEffect,
> {
    match sp_terms(ts, pos) {
        Err(e) => Err(e),
        Ok((args, q)) => match sp_expect_rparen(ts, q) {
            Err(e) => Err(e),
            Ok((_, q2)) => Ok((SpecEffect::Predicate(SpecAtomicFormula { name, args }), q2)),
        },
    }
}

/// The rest of an effect after `(` and the symbol `s`, from `pos`.
pub open spec fn sp_effect_keyword(ts: Seq<SpecToken>, pos: int, s: Seq<char>) -> SpecParse<
    SpecEffect,
>
    decreases ts.len() - pos, 3int,
{
    if pos < 0 || pos > ts.len() {
        Err(stalled(ts))
    } else if s == "and"@ {
        match sp_effects(ts, pos) {
            Err(e) => Err(e),
            Ok((es, q)) => match sp_expect_rparen(ts, q) {
                Err(e) => Err(e),
                Ok((_, q2)) => Ok((SpecEffect::And(es), q2)),
            },
        }
    } else if s == "not"@ {
        match sp_atomic_formula(ts, pos) {
            Err(e) => Err(e),
            Ok((af, q)) => match sp_expect_rparen(ts, q) {
                Err(e) => Err(e),
                Ok((_, q2)) => Ok((SpecEffect::NotPredicate(af), q2)),
            },
        }
    } else if s == "forall"@ {
        match sp_expect_lparen(ts, pos) {
            Err(e) => Err(e),
            Ok((_, p1)) => match sp_typed_list(ts, p1, true) {
                Err(e) => Err(e),
                Ok((variables, p2)) => match sp_expect_rparen(ts, p2) {
                    Err(e) => Err(e),
                    Ok((_, p3)) => if reached(ts, pos, p3) {
                        match sp_effect_close(ts, p3) {
                            Err(e) => Err(e),
                            Ok((x, q)) => Ok((SpecEffect::Forall { variables, effect: bxe(x) }, q)),
                        }
                    } else {
                        Err(stalled(ts))
                    },
                },
            },
        }
    } else if s == "when"@ {
        match sp_condition(ts, pos) {
            Err(e) => Err(e),
            Ok((c, q)) => if reached(ts, pos, q) {
                match sp_effect_close(ts, q) {
                    Err(e) => Err(e),
                    Ok((x, q2)) => Ok((SpecEffect::When { condition: c, effect: bxe(x) }, q2)),
                }
            } else {
                Err(stalled(ts))
            },
        }
    } else if s == "at"@ {
        if pos >= ts.len() {
            Err(err_at("unexpected end after 'at' in effect"@, eof_span(ts)))
        } else if is_symbol_like(ts[pos].kind, "start"@) {
            match sp_effect_close(ts, pos + 1) {
                Err(e) => Err(e),
                Ok((x, q)) => Ok((SpecEffect::AtStart(bxe(x)), q)),
            }
        } else if is_symbol_like(ts[pos].kind, "end"@) {
            match sp_effect_close(ts, pos + 1) {
                Err(e) => Err(e),
                Ok((x, q)) => Ok((SpecEffect::AtEnd(bxe(x)), q)),
            }
        } else {
            sp_effect_predicate(ts, pos, s)
        }
    } else {
        match assign_of(s) {
            Some(op) => match sp_function_term(ts, pos) {
                Err(e) => Err(e),
                Ok((function, q1)) => match sp_numeric(ts, q1, false) {
                    Err(e) => Err(e),
                    Ok((expr, q2)) => match sp_expect_rparen(ts, q2) {
                        Err(e) => Err(e),
                        Ok((_, q3)) => Ok((SpecEffect::NumericAssign { op, function, expr }, q3)),
                    },
                },
            },
            None => sp_effect_predicate(ts, pos, s),
        }
    }
}


/// The effect keywords are different words.
proof fn lemma_effect_words_differ()
    ensures
        "assign"@ != "forall"@,
        "increase"@ != "decrease"@,
        "increase"@ != "scale-up"@,
        "decrease"@ != "scale-up"@,
        "assign"@.len() == 6,
        "increase"@.len() == 8,
        "decrease"@.len() == 8,
        "scale-up"@.len() == 8,
        "scale-down"@.len() == 10,
        "and"@.len() == 3,
        "not"@.len() == 3,
        "forall"@.len() == 6,
        "when"@.len() == 4,
        "at"@.len() == 2,
{
    reveal_strlit("and");
    reveal_strlit("not");
    reveal_strlit("forall");
    reveal_strlit("when");
    reveal_strlit("at");
    reveal_strlit("assign");
    reveal_strlit("increase");
    reveal_strlit("decrease");
    reveal_strlit("scale-up");
    reveal_strlit("scale-down");
    assert("assign"@[0] != "forall"@[0]);
    assert("increase"@[0] != "decrease"@[0]);
    assert("increase"@[0] != "scale-up"@[0]);
    assert("decrease"@[0] != "scale-up"@[0]);
}

/// The assignment operator a symbol names, if any.
pub fn assign_op_from_symbol(symbol: &str) -> (r: Option<AssignOp>)
    ensures
        r == assign_of(symbol@),
        symbol@ == "assign"@ ==> r == Some(AssignOp::Assign),
        symbol@ == "increase"@ ==> r == Some(AssignOp::Increase),
        symbol@ == "decrease"@ ==> r == Some(AssignOp::Decrease),
        symbol@ == "scale-up"@ ==> r == Some(AssignOp::ScaleUp),
        symbol@ == "scale-down"@ ==> r == Some(AssignOp::ScaleDown),
{
    proof {
        lemma_effect_words_differ();
    }
    if same_text(symbol, "assign") {
        Some(AssignOp::Assign)
    } else if same_text(symbol, "increase") {
        Some(AssignOp::Increase)
    } else if same_text(symbol, "decrease") {
        Some(AssignOp::Decrease)
    } else if same_text(symbol, "scale-up") {
        Some(AssignOp::ScaleUp)
    } else if same_text(symbol, "scale-down") {
        Some(AssignOp::ScaleDown)
    } else {
        None
    }
}

/// Parses an effect: conjunction, negation, `forall`, `when`, numeric
/// assignment, temporal wrappers, and predicates (telling `at` as a predicate
/// name from the temporal keyword).
pub fn parse_effect(p: &mut Parser) -> (r: Result<Effect, ParseError>)
    requires
        old(p).wf(),
    ensures
        ran(*old(p), *final(p)),
        moved(*old(p), *final(p), r),
        lift(r, final(p).pos) == sp_effect(old(p).ts(), old(p).pos as int),
    decreases old(p).ts().len() - old(p).pos, 1int,
{
    p.expect_lparen()?;
    let tok = match p.peek() {
        Some(t) => t,
        None => {
            return Err(
                ParseError::new(String::from_str("unexpected end of input in effect"), p.eof_span()),
            );
        },
    };
    match &tok.kind {
        TokenKind::Symbol(s) => {
            p.advance()?;
            parse_effect_keyword(p, s.as_str())
        },
        _ => {
            let d = tok.kind.debug_text();
            Err(ParseError::new(concat2("unexpected token in effect: ", d.as_str()), tok.span))
        },
    }
}

fn parse_effects(p: &mut Parser) -> (r: Result<Vec<Effect>, ParseError>)
    requires
        old(p).wf(),
    ensures
        ran(*old(p), *final(p)),
        old(p).pos <= final(p).pos,
        match r {
            Ok(v) => sp_effects(old(p).ts(), old(p).pos as int) == Ok::<
                (Seq<SpecEffect>, int),
                crate::error::SpecParseError,
            >((effects_view(v@), final(p).pos as int)),
            Err(e) => sp_effects(old(p).ts(), old(p).pos as int) == Err::<
                (Seq<SpecEffect>, int),
                crate::error::SpecParseError,
            >(e@),
        },
    decreases old(p).ts().len() - old(p).pos, 2int,
{
    let ghost ts = p.ts();
    let mut effects: Vec<Effect> = Vec::new();
    assert(effects_view(effects@) =~= seq![]);
    while !p.at_rparen()
        invariant
            ran(*old(p), *p),
            ts == p.ts(),
            old(p).pos <= p.pos,
            sp_effects(ts, old(p).pos as int) == prepend(
                effects_view(effects@),
                sp_effects(ts, p.pos as int),
            ),
        decreases ts.len() - p.pos,
    {
        let ghost before = effects_view(effects@);
        let x = parse_effect(p)?;
        let ghost xv = x@;
        effects.push(x);
        assert(effects_view(effects@) =~= before.push(xv));
        proof {
            lemma_prepend_push(before, xv, sp_effects(ts, p.pos as int));
        }
    }
    proof {
        lemma_prepend_empty(effects_view(effects@), p.pos as int);
    }
    Ok(effects)
}

fn parse_effect_close(p: &mut Parser) -> (r: Result<Effect, ParseError>)
    requires
        old(p).wf(),
    ensures
        ran(*old(p), *final(p)),
        moved(*old(p), *final(p), r),
        lift(r, final(p).pos) == sp_effect_close(old(p).ts(), old(p).pos as int),
    decreases old(p).ts().len() - old(p).pos, 2int,
{
    let x = parse_effect(p)?;
    p.expect_rparen()?;
    Ok(x)
}

fn parse_effect_predicate(p: &mut Parser, name: &str) -> (r: Result<Effect, ParseError>)
    requires
        old(p).wf(),
    ensures
        ran(*old(p), *final(p)),
        moved(*old(p), *final(p), r),
        lift(r, final(p).pos) == sp_effect_predicate(old(p).ts(), old(p).pos as int, name@),
{
    let args = parse_terms(p)?;
    p.expect_rparen()?;
    Ok(Effect::Predicate(AtomicFormula { name: String::from_str(name), args }))
}

fn parse_effect_keyword(p: &mut Parser, s: &str) -> (r: Result<Effect, ParseError>)
    requires
        old(p).wf(),
    ensures
        ran(*old(p), *final(p)),
        moved(*old(p), *final(p), r),
        lift(r, final(p).pos) == sp_effect_keyword(old(p).ts(), old(p).pos as int, s@),
    decreases old(p).ts().len() - old(p).pos, 3int,
{
    if same_text(s, "and") {
        let es = parse_effects(p)?;
        p.expect_rparen()?;
        Ok(Effect::And(es))
    } else if same_text(s, "not") {
        let af = parse_atomic_formula(p)?;
        p.expect_rparen()?;
        Ok(Effect::NotPredicate(af))
    } else if same_text(s, "forall") {
        p.expect_lparen()?;
        let variables = parse_typed_list_vars(p)?;
        p.expect_rparen()?;
        let x = parse_effect_close(p)?;
        Ok(Effect::Forall { variables, effect: Box::new(x) })
    } else if same_text(s, "when") {
        let condition = parse_condition(p)?;
        let x = parse_effect_close(p)?;
        Ok(Effect::When { condition, effect: Box::new(x) })
    } else if same_text(s, "at") {
        let tok2 = match p.peek() {
            Some(t) => t,
            None => {
                return Err(
                    ParseError::new(
                        String::from_str("unexpected end after 'at' in effect"),
                        p.eof_span(),
                    ),
                );
            },
        };
        if tok2.symbol_eq("start") {
            p.advance()?;
            let x = parse_effect_close(p)?;
            Ok(Effect::AtStart(Box::new(x)))
        } else if tok2.symbol_eq("end") {
            p.advance()?;
            let x = parse_effect_close(p)?;
            Ok(Effect::AtEnd(Box::new(x)))
        } else {
            parse_effect_predicate(p, s)
        }
    } else {
        match assign_op_from_symbol(s) {
            Some(op) => {
                let function = parse_function_term(p)?;
                let expr = parse_numeric_expr(p)?;
                p.expect_rparen()?;
                Ok(Effect::NumericAssign { op, function, expr })
            },
            None => parse_effect_predicate(p, s),
        }
    }
}


/// A numeric assignment effect `(op f v)` that parses carries the operator its
/// keyword names: `assign`, `increase`, `decrease`, `scale-up` and `scale-down`
/// each give their own operator, whatever the tokens around them.
pub proof fn law_effect_assign_op(ts: Seq<SpecToken>, pos: int)
    requires
        0 <= pos,
        pos + 1 < ts.len(),
    ensures
        sp_effect(ts, pos) is Ok && ts[pos + 1].kind == SpecTokenKind::Symbol("assign"@)
            ==> sp_effect(ts, pos)->Ok_0.0 matches SpecEffect::NumericAssign { op: AssignOp::Assign, .. },
        sp_effect(ts, pos) is Ok && ts[pos + 1].kind == SpecTokenKind::Symbol("increase"@)
            ==> sp_effect(ts, pos)->Ok_0.0 matches SpecEffect::NumericAssign { op: AssignOp::Increase, .. },
        sp_effect(ts, pos) is Ok && ts[pos + 1].kind == SpecTokenKind::Symbol("decrease"@)
            ==> sp_effect(ts, pos)->Ok_0.0 matches SpecEffect::NumericAssign { op: AssignOp::Decrease, .. },
        sp_effect(ts, pos) is Ok && ts[pos + 1].kind == SpecTokenKind::Symbol("scale-up"@)
            ==> sp_effect(ts, pos)->Ok_0.0 matches SpecEffect::NumericAssign { op: AssignOp::ScaleUp, .. },
        sp_effect(ts, pos) is Ok && ts[pos + 1].kind == SpecTokenKind::Symbol("scale-down"@)
            ==> sp_effect(ts, pos)->Ok_0.0 matches SpecEffect::NumericAssign { op: AssignOp::ScaleDown, .. },
{
    lemma_effect_words_differ();
}

} // verus!
