//! Problem parsing.

use vstd::prelude::*;

use crate::ast::{
    views, AtomicFormula, Condition, InitElement, MetricSpec, Optimization, Problem,
    SpecAtomicFormula, SpecCondition, SpecInitElement, SpecMetricSpec, SpecProblem,
};
use crate::error::{err_at, ParseError};
use crate::lexer::{SpecToken, SpecTokenKind, TokenKind};
use crate::text::{concat3, same_text};

use super::condition::{parse_condition, sp_condition};
use super::cursor::{
    advanced, at_lparen, at_number, at_rparen, at_symbol, current_span, end_of_input,
    lemma_prepend_empty, lemma_prepend_push, lift, lift_seq, moved, prepend, ran,
    sp_expect_lparen, sp_expect_rparen, sp_expect_symbol, sp_expect_symbol_eq, Parser, SpecParse,
};
use super::domain::{parse_requirements, sp_close, sp_requirements, sp_skip_keep};
use super::expr::{parse_metric_expr, sp_numeric};
use super::terms::{
    parse_atomic_formula, parse_function_term, parse_names, parse_typed_list_names,
    sp_atomic_formula, sp_function_term, sp_names, sp_typed_list,
};
use super::utils::{
    parse_number_literal, skip_sexp, skip_to_define, sp_number_literal, sp_skip_to_define,
    stalled,
};

verus! {

// ---------------------------------------------------------------------------
// Init elements and the metric
// ---------------------------------------------------------------------------

/// One init element: `(= f n)`, `(not p)`, `(at n element)` or `(p names...)`.
/// `at` followed by anything but a number is a predicate named `at`.
pub open spec fn sp_init_element(ts: Seq<SpecToken>, pos: int) -> SpecParse<SpecInitElement>
    decreases ts.len() - pos,
{
    match sp_expect_lparen(ts, pos) {
        Err(e) => Err(e),
        Ok((_, p1)) => if at_symbol(ts, p1, "="@) {
            match sp_function_term(ts, p1 + 1) {
                Err(e) => Err(e),
                Ok((f, p2)) => match sp_number_literal(ts, p2) {
                    Err(e) => Err(e),
                    Ok((v, p3)) => sp_close(ts, p3, SpecInitElement::NumericAssignment(f, v)),
                },
            }
        } else if at_symbol(ts, p1, "not"@) {
            match sp_atomic_formula(ts, p1 + 1) {
                Err(e) => Err(e),
                Ok((af, p2)) => sp_close(ts, p2, SpecInitElement::NotPredicate(af)),
            }
        } else if at_symbol(ts, p1, "at"@) && at_number(ts, p1 + 1) {
            match sp_init_element(ts, p1 + 2) {
                Err(e) => Err(e),
                Ok((inner, p3)) => sp_close(
                    ts,
                    p3,
                    SpecInitElement::At(ts[p1 + 1].kind->Number_0, Box::new(inner)),
                ),
            }
        } else {
            match sp_expect_symbol(ts, p1) {
                Err(e) => Err(e),
                Ok((name, p2)) => match sp_names(ts, p2) {
                    Err(e) => Err(e),
                    Ok((args, p3)) => sp_close(
                        ts,
                        p3,
                        SpecInitElement::Predicate(SpecAtomicFormula { name, args }),
                    ),
                },
            }
        },
    }
}

/// Init elements up to (not including) the next `)`.
pub open spec fn sp_init_elements(ts: Seq<SpecToken>, pos: int) -> SpecParse<
    Seq<SpecInitElement>,
>
    decreases ts.len() - pos,
{
    if at_rparen(ts, pos) {
        Ok((seq![], pos))
    } else {
        match sp_init_element(ts, pos) {
            Err(e) => Err(e),
            Ok((x, q)) => if advanced(ts, pos, q) {
                prepend(seq![x], sp_init_elements(ts, q))
            } else {
                Err(stalled(ts))
            },
        }
    }
}

/// The message for a metric direction that is neither `minimize` nor `maximize`.
pub open spec fn bad_direction(s: Seq<char>) -> Seq<char> {
    "expected 'minimize' or 'maximize', got '"@ + s + "'"@
}

/// `minimize expr` or `maximize expr`.
pub open spec fn sp_metric(ts: Seq<SpecToken>, pos: int) -> SpecParse<SpecMetricSpec> {
    match sp_expect_symbol(ts, pos) {
        Err(e) => Err(e),
        Ok((s, p1)) => if s == "minimize"@ || s == "maximize"@ {
            match sp_numeric(ts, p1, true) {
                Err(e) => Err(e),
                Ok((expr, p2)) => Ok(
                    (
                        SpecMetricSpec {
                            optimization: if s == "minimize"@ {
                                Optimization::Minimize
                            } else {
                                Optimization::Maximize
                            },
                            expr,
                        },
                        p2,
                    ),
                ),
            }
        } else {
            Err(err_at(bad_direction(s), current_span(ts, p1)))
        },
    }
}

// ---------------------------------------------------------------------------
// The problem form
// ---------------------------------------------------------------------------

/// The problem before any section: a name, an empty domain name and goal
/// `(and)`.
pub open spec fn empty_problem(name: Seq<char>) -> SpecProblem {
    SpecProblem {
        name,
        domain_name: seq![],
        requirements: seq![],
        objects: seq![],
        init: seq![],
        goal: SpecCondition::And(seq![]),
        metric: None,
        constraints: None,
    }
}

pub open spec fn sp_section_domain(ts: Seq<SpecToken>, pos: int, d: SpecProblem) -> SpecParse<
    SpecProblem,
> {
    match sp_expect_symbol(ts, pos) {
        Err(e) => Err(e),
        Ok((v, q)) => sp_close(ts, q, SpecProblem { domain_name: v, ..d }),
    }
}

pub open spec fn sp_section_requirements(
    ts: Seq<SpecToken>,
    pos: int,
    d: SpecProblem,
) -> SpecParse<SpecProblem> {
    match sp_requirements(ts, pos) {
        Err(e) => Err(e),
        Ok((v, q)) => sp_close(ts, q, SpecProblem { requirements: v, ..d }),
    }
}

pub open spec fn sp_section_objects(ts: Seq<SpecToken>, pos: int, d: SpecProblem) -> SpecParse<
    SpecProblem,
> {
    match sp_typed_list(ts, pos, false) {
        Err(e) => Err(e),
        Ok((v, q)) => sp_close(ts, q, SpecProblem { objects: v, ..d }),
    }
}

pub open spec fn sp_section_init(ts: Seq<SpecToken>, pos: int, d: SpecProblem) -> SpecParse<
    SpecProblem,
> {
    match sp_init_elements(ts, pos) {
        Err(e) => Err(e),
        Ok((v, q)) => sp_close(ts, q, SpecProblem { init: v, ..d }),
    }
}

pub open spec fn sp_section_goal(ts: Seq<SpecToken>, pos: int, d: SpecProblem) -> SpecParse<
    SpecProblem,
> {
    match sp_condition(ts, pos) {
        Err(e) => Err(e),
        Ok((v, q)) => sp_close(ts, q, SpecProblem { goal: v, ..d }),
    }
}

pub open spec fn sp_section_metric(ts: Seq<SpecToken>, pos: int, d: SpecProblem) -> SpecParse<
    SpecProblem,
> {
    match sp_metric(ts, pos) {
        Err(e) => Err(e),
        Ok((v, q)) => sp_close(ts, q, SpecProblem { metric: Some(v), ..d }),
    }
}

pub open spec fn sp_section_constraints(
    ts: Seq<SpecToken>,
    pos: int,
    d: SpecProblem,
) -> SpecParse<SpecProblem> {
    match sp_condition(ts, pos) {
        Err(e) => Err(e),
        Ok((v, q)) => sp_close(ts, q, SpecProblem { constraints: Some(v), ..d }),
    }
}

/// A section `(:keyword ...)` named by `kw`, from after the keyword, added to
/// `d`; `None` for a keyword that names no problem section.
pub open spec fn sp_problem_keyword(
    ts: Seq<SpecToken>,
    pos: int,
    kw: Seq<char>,
    d: SpecProblem,
) -> Option<SpecParse<SpecProblem>> {
    if kw == "domain"@ {
        Some(sp_section_domain(ts, pos, d))
    } else if kw == "requirements"@ {
        Some(sp_section_requirements(ts, pos, d))
    } else if kw == "objects"@ {
        Some(sp_section_objects(ts, pos, d))
    } else if kw == "init"@ {
        Some(sp_section_init(ts, pos, d))
    } else if kw == "goal"@ {
        Some(sp_section_goal(ts, pos, d))
    } else if kw == "metric"@ {
        Some(sp_section_metric(ts, pos, d))
    } else if kw == "constraints"@ {
        Some(sp_section_constraints(ts, pos, d))
    } else {
        None
    }
}

/// One parenthesised section at `pos` added to `d`; a form that is not a known
/// `(:keyword ...)` section is passed over whole.
#[verifier::opaque]
pub open spec fn sp_problem_section(ts: Seq<SpecToken>, pos: int, d: SpecProblem) -> SpecParse<
    SpecProblem,
> {
    if pos + 1 < ts.len() {
        match ts[pos + 1].kind {
            SpecTokenKind::Keyword(kw) => match sp_problem_keyword(ts, pos + 2, kw, d) {
                Some(r) => r,
                None => sp_skip_keep(ts, pos, d),
            },
            _ => sp_skip_keep(ts, pos, d),
        }
    } else {
        Err(end_of_input(ts))
    }
}

/// The sections of a problem while a `(` follows.
pub open spec fn sp_problem_sections(ts: Seq<SpecToken>, pos: int, d: SpecProblem) -> SpecParse<
    SpecProblem,
>
    decreases ts.len() - pos,
{
    if at_lparen(ts, pos) {
        match sp_problem_section(ts, pos, d) {
            Err(e) => Err(e),
            Ok((d2, q)) => if advanced(ts, pos, q) {
                sp_problem_sections(ts, q, d2)
            } else {
                Err(stalled(ts))
            },
        }
    } else {
        Ok((d, pos))
    }
}

/// A whole problem: `(define (problem name) sections... )`, after whatever
/// forms come before `(define`.
pub open spec fn sp_problem_def(ts: Seq<SpecToken>, pos: int) -> SpecParse<SpecProblem> {
    match sp_skip_to_define(ts, pos) {
        Err(e) => Err(e),
        Ok((_, p1)) => match sp_expect_lparen(ts, p1) {
            Err(e) => Err(e),
            Ok((_, p2)) => match sp_expect_symbol_eq(ts, p2, "problem"@) {
                Err(e) => Err(e),
                Ok((_, p3)) => match sp_expect_symbol(ts, p3) {
                    Err(e) => Err(e),
                    Ok((name, p4)) => match sp_expect_rparen(ts, p4) {
                        Err(e) => Err(e),
                        Ok((_, p5)) => match sp_problem_sections(ts, p5, empty_problem(name)) {
                            Err(e) => Err(e),
                            Ok((d, p6)) => sp_close(ts, p6, d),
                        },
                    },
                },
            },
        },
    }
}

// ---------------------------------------------------------------------------
// Parsing
// ---------------------------------------------------------------------------

fn parse_init_element(p: &mut Parser) -> (r: Result<InitElement, ParseError>)
    requires
        old(p).wf(),
    ensures
        ran(*old(p), *final(p)),
        moved(*old(p), *final(p), r),
        lift(r, final(p).pos) == sp_init_element(old(p).ts(), old(p).pos as int),
    decreases old(p).ts().len() - old(p).pos,
{
    p.expect_lparen()?;
    if p.at_symbol("=") {
        p.advance()?;
        let func = parse_function_term(p)?;
        let val = parse_number_literal(p)?;
        p.expect_rparen()?;
        return Ok(InitElement::NumericAssignment(func, val));
    }
    if p.at_symbol("not") {
        p.advance()?;
        let af = parse_atomic_formula(p)?;
        p.expect_rparen()?;
        return Ok(InitElement::NotPredicate(af));
    }
    if p.at_symbol("at") {
        let save = p.pos;
        p.advance()?;
        if p.at_number() {
            let time = parse_number_literal(p)?;
            let inner = parse_init_element(p)?;
            p.expect_rparen()?;
            return Ok(InitElement::At(time, Box::new(inner)));
        }
        p.pos = save;
    }
    let name = p.expect_symbol()?;
    let args = parse_names(p)?;
    p.expect_rparen()?;
    Ok(InitElement::Predicate(AtomicFormula { name, args }))
}

fn parse_init(p: &mut Parser) -> (r: Result<Vec<InitElement>, ParseError>)
    requires
        old(p).wf(),
    ensures
        ran(*old(p), *final(p)),
        old(p).pos <= final(p).pos,
        lift_seq(r, final(p).pos) == sp_init_elements(old(p).ts(), old(p).pos as int),
{
    let ghost ts = p.ts();
    let mut elements: Vec<InitElement> = Vec::new();
    assert(views(elements@) =~= seq![]);
    while !p.at_rparen()
        invariant
            ran(*old(p), *p),
            ts == p.ts(),
            old(p).pos <= p.pos,
            sp_init_elements(ts, old(p).pos as int) == prepend(
                views(elements@),
                sp_init_elements(ts, p.pos as int),
            ),
        decreases ts.len() - p.pos,
    {
        let ghost before = views(elements@);
        let x = parse_init_element(p)?;
        let ghost xv = x@;
        elements.push(x);
        assert(views(elements@) =~= before.push(xv));
        proof {
            lemma_prepend_push(before, xv, sp_init_elements(ts, p.pos as int));
        }
    }
    proof {
        lemma_prepend_empty(views(elements@), p.pos as int);
    }
    Ok(elements)
}

fn parse_metric(p: &mut Parser) -> (r: Result<MetricSpec, ParseError>)
    requires
        old(p).wf(),
    ensures
        ran(*old(p), *final(p)),
        moved(*old(p), *final(p), r),
        lift(r, final(p).pos) == sp_metric(old(p).ts(), old(p).pos as int),
{
    let opt_sym = p.expect_symbol()?;
    let optimization = if same_text(opt_sym.as_str(), "minimize") {
        Optimization::Minimize
    } else if same_text(opt_sym.as_str(), "maximize") {
        Optimization::Maximize
    } else {
        let msg = concat3("expected 'minimize' or 'maximize', got '", opt_sym.as_str(), "'");
        return Err(ParseError::new(msg, p.current_span()));
    };
    let expr = parse_metric_expr(p)?;
    Ok(MetricSpec { optimization, expr })
}

fn section_domain(p: &mut Parser, problem: &mut Problem) -> (r: Result<(), ParseError>)
    requires
        old(p).wf(),
    ensures
        ran(*old(p), *final(p)),
        old(p).pos <= final(p).pos,
        match sp_section_domain(old(p).ts(), old(p).pos as int, old(problem)@) {
            Ok((d, q)) => r is Ok && final(problem)@ == d && final(p).pos == q,
            Err(e) => r matches Err(e2) && e2@ == e,
        },
{
    let v = p.expect_symbol()?;
    p.expect_rparen()?;
    problem.domain_name = v;
    Ok(())
}

fn section_requirements(p: &mut Parser, problem: &mut Problem) -> (r: Result<(), ParseError>)
    requires
        old(p).wf(),
    ensures
        ran(*old(p), *final(p)),
        old(p).pos <= final(p).pos,
        match sp_section_requirements(old(p).ts(), old(p).pos as int, old(problem)@) {
            Ok((d, q)) => r is Ok && final(problem)@ == d && final(p).pos == q,
            Err(e) => r matches Err(e2) && e2@ == e,
        },
{
    let v = parse_requirements(p)?;
    p.expect_rparen()?;
    problem.requirements = v;
    assert(problem.requirements@ =~= views(problem.requirements@));
    Ok(())
}

fn section_objects(p: &mut Parser, problem: &mut Problem) -> (r: Result<(), ParseError>)
    requires
        old(p).wf(),
    ensures
        ran(*old(p), *final(p)),
        old(p).pos <= final(p).pos,
        match sp_section_objects(old(p).ts(), old(p).pos as int, old(problem)@) {
            Ok((d, q)) => r is Ok && final(problem)@ == d && final(p).pos == q,
            Err(e) => r matches Err(e2) && e2@ == e,
        },
{
    let v = parse_typed_list_names(p)?;
    p.expect_rparen()?;
    problem.objects = v;
    Ok(())
}

fn section_init(p: &mut Parser, problem: &mut Problem) -> (r: Result<(), ParseError>)
    requires
        old(p).wf(),
    ensures
        ran(*old(p), *final(p)),
        old(p).pos <= final(p).pos,
        match sp_section_init(old(p).ts(), old(p).pos as int, old(problem)@) {
            Ok((d, q)) => r is Ok && final(problem)@ == d && final(p).pos == q,
            Err(e) => r matches Err(e2) && e2@ == e,
        },
{
    let v = parse_init(p)?;
    p.expect_rparen()?;
    problem.init = v;
    Ok(())
}

fn section_goal(p: &mut Parser, problem: &mut Problem) -> (r: Result<(), ParseError>)
    requires
        old(p).wf(),
    ensures
        ran(*old(p), *final(p)),
        old(p).pos <= final(p).pos,
        match sp_section_goal(old(p).ts(), old(p).pos as int, old(problem)@) {
            Ok((d, q)) => r is Ok && final(problem)@ == d && final(p).pos == q,
            Err(e) => r matches Err(e2) && e2@ == e,
        },
{
    let v = parse_condition(p)?;
    p.expect_rparen()?;
    problem.goal = v;
    Ok(())
}

fn section_metric(p: &mut Parser, problem: &mut Problem) -> (r: Result<(), ParseError>)
    requires
        old(p).wf(),
    ensures
        ran(*old(p), *final(p)),
        old(p).pos <= final(p).pos,
        match sp_section_metric(old(p).ts(), old(p).pos as int, old(problem)@) {
            Ok((d, q)) => r is Ok && final(problem)@ == d && final(p).pos == q,
            Err(e) => r matches Err(e2) && e2@ == e,
        },
{
    let v = parse_metric(p)?;
    p.expect_rparen()?;
    problem.metric = Some(v);
    Ok(())
}

fn section_constraints(p: &mut Parser, problem: &mut Problem) -> (r: Result<(), ParseError>)
    requires
        old(p).wf(),
    ensures
        ran(*old(p), *final(p)),
        old(p).pos <= final(p).pos,
        match sp_section_constraints(old(p).ts(), old(p).pos as int, old(problem)@) {
            Ok((d, q)) => r is Ok && final(problem)@ == d && final(p).pos == q,
            Err(e) => r matches Err(e2) && e2@ == e,
        },
{
    let v = parse_condition(p)?;
    p.expect_rparen()?;
    problem.constraints = Some(v);
    Ok(())
}

/// Parses one section at a `(` into `problem`.
fn parse_problem_section(p: &mut Parser, problem: &mut Problem) -> (r: Result<(), ParseError>)
    requires
        old(p).wf(),
        at_lparen(old(p).ts(), old(p).pos as int),
    ensures
        ran(*old(p), *final(p)),
        moved(*old(p), *final(p), r),
        match sp_problem_section(old(p).ts(), old(p).pos as int, old(problem)@) {
            Ok((d, q)) => r is Ok && final(problem)@ == d && final(p).pos == q,
            Err(e) => r matches Err(e2) && e2@ == e,
        },
{
    reveal(sp_problem_section);
    let save = p.pos;
    p.expect_lparen()?;
    let tok = p.advance()?;
    let mut skip = false;
    match &tok.kind {
        TokenKind::Keyword(kw) => {
            if same_text(kw.as_str(), "domain") {
                section_domain(p, problem)?;
            } else if same_text(kw.as_str(), "requirements") {
                section_requirements(p, problem)?;
            } else if same_text(kw.as_str(), "objects") {
                section_objects(p, problem)?;
            } else if same_text(kw.as_str(), "init") {
                section_init(p, problem)?;
            } else if same_text(kw.as_str(), "goal") {
                section_goal(p, problem)?;
            } else if same_text(kw.as_str(), "metric") {
                section_metric(p, problem)?;
            } else if same_text(kw.as_str(), "constraints") {
                section_constraints(p, problem)?;
            } else {
                skip = true;
            }
        },
        _ => {
            skip = true;
        },
    }
    if skip {
        p.pos = save;
        skip_sexp(p)?;
    }
    Ok(())
}

/// Parses sections into `problem` while a `(` follows.
fn parse_problem_sections(p: &mut Parser, problem: &mut Problem) -> (r: Result<(), ParseError>)
    requires
        old(p).wf(),
    ensures
        ran(*old(p), *final(p)),
        old(p).pos <= final(p).pos,
        match sp_problem_sections(old(p).ts(), old(p).pos as int, old(problem)@) {
            Ok((d, q)) => r is Ok && final(problem)@ == d && final(p).pos == q,
            Err(e) => r matches Err(e2) && e2@ == e,
        },
{
    let ghost ts = p.ts();
    while p.at_lparen()
        invariant
            ran(*old(p), *p),
            ts == p.ts(),
            old(p).pos <= p.pos,
            sp_problem_sections(ts, old(p).pos as int, old(problem)@) == sp_problem_sections(
                ts,
                p.pos as int,
                problem@,
            ),
        decreases ts.len() - p.pos,
    {
        parse_problem_section(p, problem)?;
    }
    Ok(())
}

/// Parses a whole problem form (after any forms before `(define`).
pub(crate) fn parse_problem_def(p: &mut Parser) -> (r: Result<Problem, ParseError>)
    requires
        old(p).wf(),
    ensures
        ran(*old(p), *final(p)),
        moved(*old(p), *final(p), r),
        lift(r, final(p).pos) == sp_problem_def(old(p).ts(), old(p).pos as int),
{
    skip_to_define(p)?;
    p.expect_lparen()?;
    p.expect_symbol_eq("problem")?;
    let name = p.expect_symbol()?;
    p.expect_rparen()?;
    let no_goals: Vec<Condition> = Vec::new();
    assert(crate::ast::conditions_view(no_goals@) =~= seq![]);
    let mut problem = Problem {
        name,
        domain_name: String::new(),
        requirements: Vec::new(),
        objects: Vec::new(),
        init: Vec::new(),
        goal: Condition::And(no_goals),
        metric: None,
        constraints: None,
    };
    assert(problem.requirements@ =~= seq![]);
    assert(views(problem.objects@) =~= seq![]);
    assert(views(problem.init@) =~= seq![]);
    assert(problem.goal@ == SpecCondition::And(seq![]));
    assert(problem@ == empty_problem(problem.name@));
    parse_problem_sections(p, &mut problem)?;
    p.expect_rparen()?;
    Ok(problem)
}

} // verus!
