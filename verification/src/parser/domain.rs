//! Domain parsing.

use vstd::prelude::*;

use crate::ast::{
    durations_view, views, BasicAction, CompareOp, DerivedPredicate, Domain, DurationConstraint,
    DurativeAction, FunctionDecl, NumericExpr, PredicateDecl, Requirement, SpecBasicAction,
    SpecDerivedPredicate, SpecDomain, SpecDurationConstraint, SpecDurativeAction,
    SpecFunctionDecl, SpecNumericExpr, SpecPredicateDecl, SpecTypedGroup, TypedGroup,
};
use crate::error::ParseError;
use crate::lexer::{SpecToken, SpecTokenKind, TokenKind};
use crate::text::same_text;

use super::condition::{parse_condition, sp_condition};
use super::cursor::{
    advanced, at_keyword_any, at_lparen, at_rparen, at_symbol, end_of_input, lemma_prepend_empty,
    lemma_prepend_push, lift, lift_seq, moved, prepend, ran, sp_expect_lparen,
    sp_expect_rparen, sp_expect_symbol, sp_expect_symbol_eq, sp_expect_variable, Parser, SpecParse,
};
use super::effect::{parse_effect, sp_effect};
use super::expr::{parse_numeric_expr, sp_numeric};
use super::terms::{
    parse_atomic_formula, parse_typed_list_names, parse_typed_list_vars, sp_atomic_formula,
    sp_typed_list,
};
use super::utils::{
    parse_compare_op, skip_sexp, skip_to_define, sp_compare_op, sp_skip_sexp, sp_skip_to_define,
    stalled,
};

verus! {

// ---------------------------------------------------------------------------
// Requirements
// ---------------------------------------------------------------------------

/// The requirement a keyword names.
pub open spec fn requirement_of(k: Seq<char>) -> Option<Requirement> {
    if k == "strips"@ {
        Some(Requirement::Strips)
    } else if k == "typing"@ {
        Some(Requirement::Typing)
    } else if k == "negative-preconditions"@ {
        Some(Requirement::NegativePreconditions)
    } else if k == "disjunctive-preconditions"@ {
        Some(Requirement::DisjunctivePreconditions)
    } else if k == "equality"@ {
        Some(Requirement::Equality)
    } else if k == "existential-preconditions"@ {
        Some(Requirement::ExistentialPreconditions)
    } else if k == "universal-preconditions"@ {
        Some(Requirement::UniversalPreconditions)
    } else if k == "quantified-preconditions"@ {
        Some(Requirement::QuantifiedPreconditions)
    } else if k == "conditional-effects"@ {
        Some(Requirement::ConditionalEffects)
    } else if k == "fluents"@ {
        Some(Requirement::Fluents)
    } else if k == "numeric-fluents"@ {
        Some(Requirement::NumericFluents)
    } else if k == "adl"@ {
        Some(Requirement::Adl)
    } else if k == "durative-actions"@ {
        Some(Requirement::DurativeActions)
    } else if k == "duration-inequalities"@ {
        Some(Requirement::DurationInequalities)
    } else if k == "timed-initial-literals"@ {
        Some(Requirement::TimedInitialLiterals)
    } else if k == "preferences"@ {
        Some(Requirement::Preferences)
    } else if k == "constraints"@ {
        Some(Requirement::Constraints)
    } else if k == "action-costs"@ {
        Some(Requirement::ActionCosts)
    } else if k == "goal-utilities"@ {
        Some(Requirement::GoalUtilities)
    } else if k == "derived-predicates"@ {
        Some(Requirement::DerivedPredicates)
    } else if k == "domain-axioms"@ {
        Some(Requirement::DomainAxioms)
    } else {
        None
    }
}

/// The requirements named by the keywords from `pos` on; unknown ones are
/// passed over.
pub open spec fn sp_requirements(ts: Seq<SpecToken>, pos: int) -> SpecParse<Seq<Requirement>>
    decreases ts.len() - pos,
{
    if at_keyword_any(ts, pos) {
        let rest = sp_requirements(ts, pos + 1);
        match requirement_of(ts[pos].kind->Keyword_0) {
            Some(r) => prepend(seq![r], rest),
            None => rest,
        }
    } else {
        Ok((seq![], pos))
    }
}

/// The requirement a keyword names, if any.
pub fn requirement_from_keyword(k: &str) -> (r: Option<Requirement>)
    ensures
        r == requirement_of(k@),
{
    if same_text(k, "strips") {
        Some(Requirement::Strips)
    } else if same_text(k, "typing") {
        Some(Requirement::Typing)
    } else if same_text(k, "negative-preconditions") {
        Some(Requirement::NegativePreconditions)
    } else if same_text(k, "disjunctive-preconditions") {
        Some(Requirement::DisjunctivePreconditions)
    } else if same_text(k, "equality") {
        Some(Requirement::Equality)
    } else if same_text(k, "existential-preconditions") {
        Some(Requirement::ExistentialPreconditions)
    } else if same_text(k, "universal-preconditions") {
        Some(Requirement::UniversalPreconditions)
    } else if same_text(k, "quantified-preconditions") {
        Some(Requirement::QuantifiedPreconditions)
    } else if same_text(k, "conditional-effects") {
        Some(Requirement::ConditionalEffects)
    } else if same_text(k, "fluents") {
        Some(Requirement::Fluents)
    } else if same_text(k, "numeric-fluents") {
        Some(Requirement::NumericFluents)
    } else if same_text(k, "adl") {
        Some(Requirement::Adl)
    } else if same_text(k, "durative-actions") {
        Some(Requirement::DurativeActions)
    } else if same_text(k, "duration-inequalities") {
        Some(Requirement::DurationInequalities)
    } else if same_text(k, "timed-initial-literals") {
        Some(Requirement::TimedInitialLiterals)
    } else if same_text(k, "preferences") {
        Some(Requirement::Preferences)
    } else if same_text(k, "constraints") {
        Some(Requirement::Constraints)
    } else if same_text(k, "action-costs") {
        Some(Requirement::ActionCosts)
    } else if same_text(k, "goal-utilities") {
        Some(Requirement::GoalUtilities)
    } else if same_text(k, "derived-predicates") {
        Some(Requirement::DerivedPredicates)
    } else if same_text(k, "domain-axioms") {
        Some(Requirement::DomainAxioms)
    } else {
        None
    }
}

/// Parses the keywords of a `:requirements` section.
pub fn parse_requirements(p: &mut Parser) -> (r: Result<Vec<Requirement>, ParseError>)
    requires
        old(p).wf(),
    ensures
        ran(*old(p), *final(p)),
        old(p).pos <= final(p).pos,
        lift_seq(r, final(p).pos) == sp_requirements(old(p).ts(), old(p).pos as int),
{
    let ghost ts = p.ts();
    let mut reqs: Vec<Requirement> = Vec::new();
    assert(views(reqs@) =~= seq![]);
    while p.at_keyword_any()
        invariant
            ran(*old(p), *p),
            ts == p.ts(),
            old(p).pos <= p.pos,
            sp_requirements(ts, old(p).pos as int) == prepend(
                views(reqs@),
                sp_requirements(ts, p.pos as int),
            ),
        decreases ts.len() - p.pos,
    {
        let ghost before = views(reqs@);
        let kw = p.expect_keyword()?;
        match requirement_from_keyword(kw.as_str()) {
            Some(req) => {
                reqs.push(req);
                assert(views(reqs@) =~= before.push(req));
                proof {
                    lemma_prepend_push(before, req, sp_requirements(ts, p.pos as int));
                }
            },
            None => {},
        }
    }
    proof {
        lemma_prepend_empty(views(reqs@), p.pos as int);
    }
    Ok(reqs)
}


// ---------------------------------------------------------------------------
// Declarations
// ---------------------------------------------------------------------------

/// Predicate declarations `(name typed-variables)` while a `(` follows.
pub open spec fn sp_predicate_decls(ts: Seq<SpecToken>, pos: int) -> SpecParse<
    Seq<SpecPredicateDecl>,
>
    decreases ts.len() - pos,
{
    if at_lparen(ts, pos) {
        match sp_expect_symbol(ts, pos + 1) {
            Err(e) => Err(e),
            Ok((name, p1)) => match sp_typed_list(ts, p1, true) {
                Err(e) => Err(e),
                Ok((parameters, p2)) => match sp_expect_rparen(ts, p2) {
                    Err(e) => Err(e),
                    Ok((_, p3)) => if advanced(ts, pos, p3) {
                        prepend(
                            seq![SpecPredicateDecl { name, parameters }],
                            sp_predicate_decls(ts, p3),
                        )
                    } else {
                        Err(stalled(ts))
                    },
                },
            },
        }
    } else {
        Ok((seq![], pos))
    }
}

/// The optional return type `- type` of a function declaration.
pub open spec fn sp_return_type(ts: Seq<SpecToken>, pos: int) -> SpecParse<Option<Seq<char>>> {
    if at_symbol(ts, pos, "-"@) {
        match sp_expect_symbol(ts, pos + 1) {
            Err(e) => Err(e),
            Ok((t, q)) => Ok((Some(t), q)),
        }
    } else {
        Ok((None, pos))
    }
}

/// Function declarations `(name typed-variables) [- type]` while a `(` follows.
pub open spec fn sp_function_decls(ts: Seq<SpecToken>, pos: int) -> SpecParse<
    Seq<SpecFunctionDecl>,
>
    decreases ts.len() - pos,
{
    if at_lparen(ts, pos) {
        match sp_expect_symbol(ts, pos + 1) {
            Err(e) => Err(e),
            Ok((name, p1)) => match sp_typed_list(ts, p1, true) {
                Err(e) => Err(e),
                Ok((parameters, p2)) => match sp_expect_rparen(ts, p2) {
                    Err(e) => Err(e),
                    Ok((_, p3)) => match sp_return_type(ts, p3) {
                        Err(e) => Err(e),
                        Ok((return_type, p4)) => if advanced(ts, pos, p4) {
                            prepend(
                                seq![SpecFunctionDecl { name, parameters, return_type }],
                                sp_function_decls(ts, p4),
                            )
                        } else {
                            Err(stalled(ts))
                        },
                    },
                },
            },
        }
    } else {
        Ok((seq![], pos))
    }
}

/// `( typed-variables )`.
pub open spec fn sp_parameters(ts: Seq<SpecToken>, pos: int) -> SpecParse<Seq<SpecTypedGroup>> {
    match sp_expect_lparen(ts, pos) {
        Err(e) => Err(e),
        Ok((_, p1)) => match sp_typed_list(ts, p1, true) {
            Err(e) => Err(e),
            Ok((vs, p2)) => match sp_expect_rparen(ts, p2) {
                Err(e) => Err(e),
                Ok((_, p3)) => Ok((vs, p3)),
            },
        },
    }
}

/// The value of an unknown keyword in an action: a skipped S-expression, or nothing.
pub open spec fn sp_skip_value(ts: Seq<SpecToken>, pos: int) -> SpecParse<()> {
    if at_lparen(ts, pos) {
        sp_skip_sexp(ts, pos)
    } else {
        Ok(((), pos))
    }
}

/// One `:keyword value` field of an action, from after the keyword.
pub open spec fn sp_action_field(
    ts: Seq<SpecToken>,
    pos: int,
    kw: Seq<char>,
    a: SpecBasicAction,
) -> SpecParse<SpecBasicAction> {
    if kw == "parameters"@ {
        match sp_parameters(ts, pos) {
            Err(e) => Err(e),
            Ok((vs, q)) => Ok((SpecBasicAction { parameters: vs, ..a }, q)),
        }
    } else if kw == "vars"@ {
        match sp_parameters(ts, pos) {
            Err(e) => Err(e),
            Ok((vs, q)) => Ok((SpecBasicAction { parameters: a.parameters + vs, ..a }, q)),
        }
    } else if kw == "precondition"@ {
        match sp_condition(ts, pos) {
            Err(e) => Err(e),
            Ok((c, q)) => Ok((SpecBasicAction { precondition: Some(c), ..a }, q)),
        }
    } else if kw == "effect"@ {
        match sp_effect(ts, pos) {
            Err(e) => Err(e),
            Ok((x, q)) => Ok((SpecBasicAction { effect: Some(x), ..a }, q)),
        }
    } else {
        match sp_skip_value(ts, pos) {
            Err(e) => Err(e),
            Ok((_, q)) => Ok((a, q)),
        }
    }
}

/// The fields of an action while keywords follow.
pub open spec fn sp_action_fields(ts: Seq<SpecToken>, pos: int, a: SpecBasicAction) -> SpecParse<
    SpecBasicAction,
>
    decreases ts.len() - pos,
{
    if at_keyword_any(ts, pos) {
        match sp_action_field(ts, pos + 1, ts[pos].kind->Keyword_0, a) {
            Err(e) => Err(e),
            Ok((a2, q)) => if advanced(ts, pos, q) {
                sp_action_fields(ts, q, a2)
            } else {
                Err(stalled(ts))
            },
        }
    } else {
        Ok((a, pos))
    }
}

/// An action after `:action`: its name and fields.
pub open spec fn sp_basic_action(ts: Seq<SpecToken>, pos: int) -> SpecParse<SpecBasicAction> {
    match sp_expect_symbol(ts, pos) {
        Err(e) => Err(e),
        Ok((name, p1)) => sp_action_fields(
            ts,
            p1,
            SpecBasicAction { name, parameters: seq![], precondition: None, effect: None },
        ),
    }
}

/// `op ?duration expr )`: a single duration constraint after its `(`.
pub open spec fn sp_duration_comparison(ts: Seq<SpecToken>, pos: int) -> SpecParse<
    SpecDurationConstraint,
> {
    match sp_compare_op(ts, pos) {
        Err(e) => Err(e),
        Ok((op, p1)) => match sp_expect_variable(ts, p1) {
            Err(e) => Err(e),
            Ok((_, p2)) => match sp_numeric(ts, p2, false) {
                Err(e) => Err(e),
                Ok((expr, p3)) => match sp_expect_rparen(ts, p3) {
                    Err(e) => Err(e),
                    Ok((_, p4)) => Ok((SpecDurationConstraint::Cmp { op, expr }, p4)),
                },
            },
        },
    }
}

/// Single duration constraints `(op ?duration expr)` up to the next `)`.
pub open spec fn sp_duration_items(ts: Seq<SpecToken>, pos: int) -> SpecParse<
    Seq<SpecDurationConstraint>,
>
    decreases ts.len() - pos,
{
    if at_rparen(ts, pos) {
        Ok((seq![], pos))
    } else {
        match sp_expect_lparen(ts, pos) {
            Err(e) => Err(e),
            Ok((_, p1)) => match sp_duration_comparison(ts, p1) {
                Err(e) => Err(e),
                Ok((c, q)) => if advanced(ts, pos, q) {
                    prepend(seq![c], sp_duration_items(ts, q))
                } else {
                    Err(stalled(ts))
                },
            },
        }
    }
}

/// A duration constraint: one comparison, or `(and ...)` of comparisons.
pub open spec fn sp_duration(ts: Seq<SpecToken>, pos: int) -> SpecParse<SpecDurationConstraint> {
    match sp_expect_lparen(ts, pos) {
        Err(e) => Err(e),
        Ok((_, p1)) => if at_symbol(ts, p1, "and"@) {
            match sp_duration_items(ts, p1 + 1) {
                Err(e) => Err(e),
                Ok((cs, q)) => match sp_expect_rparen(ts, q) {
                    Err(e) => Err(e),
                    Ok((_, q2)) => Ok((SpecDurationConstraint::And(cs), q2)),
                },
            }
        } else {
            sp_duration_comparison(ts, p1)
        },
    }
}

/// One `:keyword value` field of a durative action, from after the keyword.
pub open spec fn sp_durative_field(
    ts: Seq<SpecToken>,
    pos: int,
    kw: Seq<char>,
    a: SpecDurativeAction,
) -> SpecParse<SpecDurativeAction> {
    if kw == "parameters"@ {
        match sp_parameters(ts, pos) {
            Err(e) => Err(e),
            Ok((vs, q)) => Ok((SpecDurativeAction { parameters: vs, ..a }, q)),
        }
    } else if kw == "duration"@ {
        match sp_duration(ts, pos) {
            Err(e) => Err(e),
            Ok((d, q)) => Ok((SpecDurativeAction { duration: d, ..a }, q)),
        }
    } else if kw == "condition"@ {
        match sp_condition(ts, pos) {
            Err(e) => Err(e),
            Ok((c, q)) => Ok((SpecDurativeAction { condition: Some(c), ..a }, q)),
        }
    } else if kw == "effect"@ {
        match sp_effect(ts, pos) {
            Err(e) => Err(e),
            Ok((x, q)) => Ok((SpecDurativeAction { effect: Some(x), ..a }, q)),
        }
    } else {
        match sp_skip_value(ts, pos) {
            Err(e) => Err(e),
            Ok((_, q)) => Ok((a, q)),
        }
    }
}

/// The fields of a durative action while keywords follow.
pub open spec fn sp_durative_fields(
    ts: Seq<SpecToken>,
    pos: int,
    a: SpecDurativeAction,
) -> SpecParse<SpecDurativeAction>
    decreases ts.len() - pos,
{
    if at_keyword_any(ts, pos) {
        match sp_durative_field(ts, pos + 1, ts[pos].kind->Keyword_0, a) {
            Err(e) => Err(e),
            Ok((a2, q)) => if advanced(ts, pos, q) {
                sp_durative_fields(ts, q, a2)
            } else {
                Err(stalled(ts))
            },
        }
    } else {
        Ok((a, pos))
    }
}

/// The duration a durative action has until one is given: `(= ?duration 0)`.
pub open spec fn default_duration() -> SpecDurationConstraint {
    SpecDurationConstraint::Cmp { op: CompareOp::Eq, expr: SpecNumericExpr::Number("0"@) }
}

/// A durative action after `:durative-action`: its name and fields.
pub open spec fn sp_durative_action(ts: Seq<SpecToken>, pos: int) -> SpecParse<
    SpecDurativeAction,
> {
    match sp_expect_symbol(ts, pos) {
        Err(e) => Err(e),
        Ok((name, p1)) => sp_durative_fields(
            ts,
            p1,
            SpecDurativeAction {
                name,
                parameters: seq![],
                duration: default_duration(),
                condition: None,
                effect: None,
            },
        ),
    }
}

/// A derived predicate after `:derived`: the predicate and its body.
pub open spec fn sp_derived(ts: Seq<SpecToken>, pos: int) -> SpecParse<SpecDerivedPredicate> {
    match sp_atomic_formula(ts, pos) {
        Err(e) => Err(e),
        Ok((predicate, p1)) => match sp_condition(ts, p1) {
            Err(e) => Err(e),
            Ok((condition, p2)) => Ok((SpecDerivedPredicate { predicate, condition }, p2)),
        },
    }
}

// ---------------------------------------------------------------------------
// The domain form
// ---------------------------------------------------------------------------

/// A closing `)` after a value parsed up to `pos`.
pub open spec fn sp_close<T>(ts: Seq<SpecToken>, pos: int, v: T) -> SpecParse<T> {
    match sp_expect_rparen(ts, pos) {
        Err(e) => Err(e),
        Ok((_, q)) => Ok((v, q)),
    }
}

/// A form that is passed over whole, leaving the value as it was.
pub open spec fn sp_skip_keep<T>(ts: Seq<SpecToken>, pos: int, v: T) -> SpecParse<T> {
    match sp_skip_sexp(ts, pos) {
        Err(e) => Err(e),
        Ok((_, q)) => Ok((v, q)),
    }
}

/// The domain before any section: a name and nothing else.
pub open spec fn empty_domain(name: Seq<char>) -> SpecDomain {
    SpecDomain {
        name,
        requirements: seq![],
        types: seq![],
        constants: seq![],
        predicates: seq![],
        functions: seq![],
        actions: seq![],
        durative_actions: seq![],
        derived_predicates: seq![],
    }
}

/// The `(:requirements ...)` section from after its keyword, through its `)`.
pub open spec fn sp_section_requirements(ts: Seq<SpecToken>, pos: int, d: SpecDomain) -> SpecParse<
    SpecDomain,
> {
    match sp_requirements(ts, pos) {
        Err(e) => Err(e),
        Ok((v, q)) => sp_close(ts, q, SpecDomain { requirements: v, ..d }),
    }
}

/// The `(:types ...)` section from after its keyword, through its `)`.
pub open spec fn sp_section_types(ts: Seq<SpecToken>, pos: int, d: SpecDomain) -> SpecParse<
    SpecDomain,
> {
    match sp_typed_list(ts, pos, false) {
        Err(e) => Err(e),
        Ok((v, q)) => sp_close(ts, q, SpecDomain { types: v, ..d }),
    }
}

/// The `(:constants ...)` section from after its keyword, through its `)`.
pub open spec fn sp_section_constants(ts: Seq<SpecToken>, pos: int, d: SpecDomain) -> SpecParse<
    SpecDomain,
> {
    match sp_typed_list(ts, pos, false) {
        Err(e) => Err(e),
        Ok((v, q)) => sp_close(ts, q, SpecDomain { constants: v, ..d }),
    }
}

/// The `(:predicates ...)` section from after its keyword, through its `)`.
pub open spec fn sp_section_predicates(ts: Seq<SpecToken>, pos: int, d: SpecDomain) -> SpecParse<
    SpecDomain,
> {
    match sp_predicate_decls(ts, pos) {
        Err(e) => Err(e),
        Ok((v, q)) => sp_close(ts, q, SpecDomain { predicates: v, ..d }),
    }
}

/// The `(:functions ...)` section from after its keyword, through its `)`.
pub open spec fn sp_section_functions(ts: Seq<SpecToken>, pos: int, d: SpecDomain) -> SpecParse<
    SpecDomain,
> {
    match sp_function_decls(ts, pos) {
        Err(e) => Err(e),
        Ok((v, q)) => sp_close(ts, q, SpecDomain { functions: v, ..d }),
    }
}

/// The `(:action ...)` section from after its keyword, through its `)`.
pub open spec fn sp_section_actions(ts: Seq<SpecToken>, pos: int, d: SpecDomain) -> SpecParse<
    SpecDomain,
> {
    match sp_basic_action(ts, pos) {
        Err(e) => Err(e),
        Ok((v, q)) => sp_close(ts, q, SpecDomain { actions: d.actions.push(v), ..d }),
    }
}

/// The `(:durative-action ...)` section from after its keyword, through its `)`.
pub open spec fn sp_section_durative_actions(ts: Seq<SpecToken>, pos: int, d: SpecDomain) -> SpecParse<
    SpecDomain,
> {
    match sp_durative_action(ts, pos) {
        Err(e) => Err(e),
        Ok((v, q)) => sp_close(ts, q, SpecDomain { durative_actions: d.durative_actions.push(v), ..d }),
    }
}

/// The `(:derived ...)` section from after its keyword, through its `)`.
pub open spec fn sp_section_derived_predicates(ts: Seq<SpecToken>, pos: int, d: SpecDomain) -> SpecParse<
    SpecDomain,
> {
    match sp_derived(ts, pos) {
        Err(e) => Err(e),
        Ok((v, q)) => sp_close(ts, q, SpecDomain { derived_predicates: d.derived_predicates.push(v), ..d }),
    }
}

/// A section `(:keyword ...)` named by `kw`, from after the keyword, added to
/// `d`; `None` for a keyword that names no domain section.
pub open spec fn sp_domain_keyword(
    ts: Seq<SpecToken>,
    pos: int,
    kw: Seq<char>,
    d: SpecDomain,
) -> Option<SpecParse<SpecDomain>> {
    if kw == "requirements"@ {
        Some(sp_section_requirements(ts, pos, d))
    } else if kw == "types"@ {
        Some(sp_section_types(ts, pos, d))
    } else if kw == "constants"@ {
        Some(sp_section_constants(ts, pos, d))
    } else if kw == "predicates"@ {
        Some(sp_section_predicates(ts, pos, d))
    } else if kw == "functions"@ {
        Some(sp_section_functions(ts, pos, d))
    } else if kw == "action"@ {
        Some(sp_section_actions(ts, pos, d))
    } else if kw == "durative-action"@ {
        Some(sp_section_durative_actions(ts, pos, d))
    } else if kw == "derived"@ {
        Some(sp_section_derived_predicates(ts, pos, d))
    } else {
        None
    }
}

/// One parenthesised section at `pos` added to `d`; a form that is not a known
/// `(:keyword ...)` section is passed over whole.
#[verifier::opaque]
pub open spec fn sp_domain_section(ts: Seq<SpecToken>, pos: int, d: SpecDomain) -> SpecParse<
    SpecDomain,
> {
    if pos + 1 < ts.len() {
        match ts[pos + 1].kind {
            SpecTokenKind::Keyword(kw) => match sp_domain_keyword(ts, pos + 2, kw, d) {
                Some(r) => r,
                None => sp_skip_keep(ts, pos, d),
            },
            _ => sp_skip_keep(ts, pos, d),
        }
    } else {
        Err(end_of_input(ts))
    }
}

/// The sections of a domain while a `(` follows.
pub open spec fn sp_domain_sections(ts: Seq<SpecToken>, pos: int, d: SpecDomain) -> SpecParse<
    SpecDomain,
>
    decreases ts.len() - pos,
{
    if at_lparen(ts, pos) {
        match sp_domain_section(ts, pos, d) {
            Err(e) => Err(e),
            Ok((d2, q)) => if advanced(ts, pos, q) {
                sp_domain_sections(ts, q, d2)
            } else {
                Err(stalled(ts))
            },
        }
    } else {
        Ok((d, pos))
    }
}

/// A whole domain: `(define (domain name) sections... )`, after whatever
/// forms come before `(define`.
pub open spec fn sp_domain_def(ts: Seq<SpecToken>, pos: int) -> SpecParse<SpecDomain> {
    match sp_skip_to_define(ts, pos) {
        Err(e) => Err(e),
        Ok((_, p1)) => match sp_expect_lparen(ts, p1) {
            Err(e) => Err(e),
            Ok((_, p2)) => match sp_expect_symbol_eq(ts, p2, "domain"@) {
                Err(e) => Err(e),
                Ok((_, p3)) => match sp_expect_symbol(ts, p3) {
                    Err(e) => Err(e),
                    Ok((name, p4)) => match sp_expect_rparen(ts, p4) {
                        Err(e) => Err(e),
                        Ok((_, p5)) => match sp_domain_sections(ts, p5, empty_domain(name)) {
                            Err(e) => Err(e),
                            Ok((d, p6)) => sp_close(ts, p6, d),
                        },
                    },
                },
            },
        },
    }
}

// ---------------------------------------------------------------------------
// Parsing declarations
// ---------------------------------------------------------------------------

fn parse_predicate_decls(p: &mut Parser) -> (r: Result<Vec<PredicateDecl>, ParseError>)
    requires
        old(p).wf(),
    ensures
        ran(*old(p), *final(p)),
        old(p).pos <= final(p).pos,
        lift_seq(r, final(p).pos) == sp_predicate_decls(old(p).ts(), old(p).pos as int),
{
    let ghost ts = p.ts();
    let mut decls: Vec<PredicateDecl> = Vec::new();
    assert(views(decls@) =~= seq![]);
    while p.at_lparen()
        invariant
            ran(*old(p), *p),
            ts == p.ts(),
            old(p).pos <= p.pos,
            sp_predicate_decls(ts, old(p).pos as int) == prepend(
                views(decls@),
                sp_predicate_decls(ts, p.pos as int),
            ),
        decreases ts.len() - p.pos,
    {
        let ghost before = views(decls@);
        p.expect_lparen()?;
        let name = p.expect_symbol()?;
        let parameters = parse_typed_list_vars(p)?;
        p.expect_rparen()?;
        let d = PredicateDecl { name, parameters };
        let ghost dv = d@;
        decls.push(d);
        assert(views(decls@) =~= before.push(dv));
        proof {
            lemma_prepend_push(before, dv, sp_predicate_decls(ts, p.pos as int));
        }
    }
    proof {
        lemma_prepend_empty(views(decls@), p.pos as int);
    }
    Ok(decls)
}

fn parse_function_decls(p: &mut Parser) -> (r: Result<Vec<FunctionDecl>, ParseError>)
    requires
        old(p).wf(),
    ensures
        ran(*old(p), *final(p)),
        old(p).pos <= final(p).pos,
        lift_seq(r, final(p).pos) == sp_function_decls(old(p).ts(), old(p).pos as int),
{
    let ghost ts = p.ts();
    let mut decls: Vec<FunctionDecl> = Vec::new();
    assert(views(decls@) =~= seq![]);
    while p.at_lparen()
        invariant
            ran(*old(p), *p),
            ts == p.ts(),
            old(p).pos <= p.pos,
            sp_function_decls(ts, old(p).pos as int) == prepend(
                views(decls@),
                sp_function_decls(ts, p.pos as int),
            ),
        decreases ts.len() - p.pos,
    {
        let ghost before = views(decls@);
        p.expect_lparen()?;
        let name = p.expect_symbol()?;
        let parameters = parse_typed_list_vars(p)?;
        p.expect_rparen()?;
        let return_type = if p.at_symbol("-") {
            p.advance()?;
            Some(p.expect_symbol()?)
        } else {
            None
        };
        let d = FunctionDecl { name, parameters, return_type };
        let ghost dv = d@;
        decls.push(d);
        assert(views(decls@) =~= before.push(dv));
        proof {
            lemma_prepend_push(before, dv, sp_function_decls(ts, p.pos as int));
        }
    }
    proof {
        lemma_prepend_empty(views(decls@), p.pos as int);
    }
    Ok(decls)
}

fn parse_parameters(p: &mut Parser) -> (r: Result<Vec<TypedGroup<String>>, ParseError>)
    requires
        old(p).wf(),
    ensures
        ran(*old(p), *final(p)),
        moved(*old(p), *final(p), r),
        lift_seq(r, final(p).pos) == sp_parameters(old(p).ts(), old(p).pos as int),
{
    p.expect_lparen()?;
    let vs = parse_typed_list_vars(p)?;
    p.expect_rparen()?;
    Ok(vs)
}

fn skip_value(p: &mut Parser) -> (r: Result<(), ParseError>)
    requires
        old(p).wf(),
    ensures
        ran(*old(p), *final(p)),
        old(p).pos <= final(p).pos,
        lift(r, final(p).pos) == sp_skip_value(old(p).ts(), old(p).pos as int),
{
    if p.at_lparen() {
        skip_sexp(p)?;
    }
    Ok(())
}

fn parse_basic_action(p: &mut Parser) -> (r: Result<BasicAction, ParseError>)
    requires
        old(p).wf(),
    ensures
        ran(*old(p), *final(p)),
        moved(*old(p), *final(p), r),
        lift(r, final(p).pos) == sp_basic_action(old(p).ts(), old(p).pos as int),
{
    let ghost ts = p.ts();
    let name = p.expect_symbol()?;
    let ghost p1 = p.pos;
    let mut action = BasicAction { name, parameters: Vec::new(), precondition: None, effect: None };
    assert(views(action.parameters@) =~= seq![]);
    while p.at_keyword_any()
        invariant
            ran(*old(p), *p),
            ts == p.ts(),
            old(p).pos < p1 <= p.pos,
            sp_basic_action(ts, old(p).pos as int) == sp_action_fields(ts, p.pos as int, action@),
        decreases ts.len() - p.pos,
    {
        let ghost a0 = action@;
        let kw = p.expect_keyword()?;
        if same_text(kw.as_str(), "parameters") {
            action.parameters = parse_parameters(p)?;
        } else if same_text(kw.as_str(), "vars") {
            let mut vs = parse_parameters(p)?;
            let ghost vv = views(vs@);
            action.parameters.append(&mut vs);
            assert(views(action.parameters@) =~= a0.parameters + vv);
        } else if same_text(kw.as_str(), "precondition") {
            action.precondition = Some(parse_condition(p)?);
        } else if same_text(kw.as_str(), "effect") {
            action.effect = Some(parse_effect(p)?);
        } else {
            skip_value(p)?;
        }
    }
    Ok(action)
}

fn parse_duration_comparison(p: &mut Parser) -> (r: Result<DurationConstraint, ParseError>)
    requires
        old(p).wf(),
    ensures
        ran(*old(p), *final(p)),
        moved(*old(p), *final(p), r),
        lift(r, final(p).pos) == sp_duration_comparison(old(p).ts(), old(p).pos as int),
{
    let op = parse_compare_op(p)?;
    p.expect_variable()?;
    let expr = parse_numeric_expr(p)?;
    p.expect_rparen()?;
    Ok(DurationConstraint::Cmp { op, expr })
}

fn parse_duration_constraint(p: &mut Parser) -> (r: Result<DurationConstraint, ParseError>)
    requires
        old(p).wf(),
    ensures
        ran(*old(p), *final(p)),
        moved(*old(p), *final(p), r),
        lift(r, final(p).pos) == sp_duration(old(p).ts(), old(p).pos as int),
{
    let ghost ts = p.ts();
    p.expect_lparen()?;
    if p.at_symbol("and") {
        p.advance()?;
        let ghost start = p.pos;
        let mut cs: Vec<DurationConstraint> = Vec::new();
        assert(durations_view(cs@) =~= seq![]);
        while !p.at_rparen()
            invariant
                ran(*old(p), *p),
                ts == p.ts(),
                old(p).pos < start <= p.pos,
                at_lparen(ts, old(p).pos as int),
                at_symbol(ts, start - 1, "and"@),
                start == old(p).pos + 2,
                sp_duration_items(ts, start as int) == prepend(
                    durations_view(cs@),
                    sp_duration_items(ts, p.pos as int),
                ),
            decreases ts.len() - p.pos,
        {
            let ghost before = durations_view(cs@);
            p.expect_lparen()?;
            let c = parse_duration_comparison(p)?;
            let ghost cv = c@;
            cs.push(c);
            assert(durations_view(cs@) =~= before.push(cv));
            proof {
                lemma_prepend_push(before, cv, sp_duration_items(ts, p.pos as int));
            }
        }
        proof {
            lemma_prepend_empty(durations_view(cs@), p.pos as int);
        }
        p.expect_rparen()?;
        return Ok(DurationConstraint::And(cs));
    }
    parse_duration_comparison(p)
}

fn parse_durative_action(p: &mut Parser) -> (r: Result<DurativeAction, ParseError>)
    requires
        old(p).wf(),
    ensures
        ran(*old(p), *final(p)),
        moved(*old(p), *final(p), r),
        lift(r, final(p).pos) == sp_durative_action(old(p).ts(), old(p).pos as int),
{
    let ghost ts = p.ts();
    let name = p.expect_symbol()?;
    let ghost p1 = p.pos;
    let mut action = DurativeAction {
        name,
        parameters: Vec::new(),
        duration: DurationConstraint::Cmp {
            op: CompareOp::Eq,
            expr: NumericExpr::Number(String::from_str("0")),
        },
        condition: None,
        effect: None,
    };
    assert(views(action.parameters@) =~= seq![]);
    while p.at_keyword_any()
        invariant
            ran(*old(p), *p),
            ts == p.ts(),
            old(p).pos < p1 <= p.pos,
            sp_durative_action(ts, old(p).pos as int) == sp_durative_fields(
                ts,
                p.pos as int,
                action@,
            ),
        decreases ts.len() - p.pos,
    {
        let kw = p.expect_keyword()?;
        if same_text(kw.as_str(), "parameters") {
            action.parameters = parse_parameters(p)?;
        } else if same_text(kw.as_str(), "duration") {
            action.duration = parse_duration_constraint(p)?;
        } else if same_text(kw.as_str(), "condition") {
            action.condition = Some(parse_condition(p)?);
        } else if same_text(kw.as_str(), "effect") {
            action.effect = Some(parse_effect(p)?);
        } else {
            skip_value(p)?;
        }
    }
    Ok(action)
}

fn parse_derived_predicate(p: &mut Parser) -> (r: Result<DerivedPredicate, ParseError>)
    requires
        old(p).wf(),
    ensures
        ran(*old(p), *final(p)),
        moved(*old(p), *final(p), r),
        lift(r, final(p).pos) == sp_derived(old(p).ts(), old(p).pos as int),
{
    let predicate = parse_atomic_formula(p)?;
    let condition = parse_condition(p)?;
    Ok(DerivedPredicate { predicate, condition })
}

fn section_requirements(p: &mut Parser, domain: &mut Domain) -> (r: Result<(), ParseError>)
    requires
        old(p).wf(),
    ensures
        ran(*old(p), *final(p)),
        old(p).pos <= final(p).pos,
        match sp_section_requirements(old(p).ts(), old(p).pos as int, old(domain)@) {
            Ok((d, q)) => r is Ok && final(domain)@ == d && final(p).pos == q,
            Err(e) => r matches Err(e2) && e2@ == e,
        },
{
    let v = parse_requirements(p)?;
    p.expect_rparen()?;
    domain.requirements = v;
    assert(domain.requirements@ =~= views(domain.requirements@));
    Ok(())
}

fn section_types(p: &mut Parser, domain: &mut Domain) -> (r: Result<(), ParseError>)
    requires
        old(p).wf(),
    ensures
        ran(*old(p), *final(p)),
        old(p).pos <= final(p).pos,
        match sp_section_types(old(p).ts(), old(p).pos as int, old(domain)@) {
            Ok((d, q)) => r is Ok && final(domain)@ == d && final(p).pos == q,
            Err(e) => r matches Err(e2) && e2@ == e,
        },
{
    let v = parse_typed_list_names(p)?;
    p.expect_rparen()?;
    domain.types = v;
    Ok(())
}

fn section_constants(p: &mut Parser, domain: &mut Domain) -> (r: Result<(), ParseError>)
    requires
        old(p).wf(),
    ensures
        ran(*old(p), *final(p)),
        old(p).pos <= final(p).pos,
        match sp_section_constants(old(p).ts(), old(p).pos as int, old(domain)@) {
            Ok((d, q)) => r is Ok && final(domain)@ == d && final(p).pos == q,
            Err(e) => r matches Err(e2) && e2@ == e,
        },
{
    let v = parse_typed_list_names(p)?;
    p.expect_rparen()?;
    domain.constants = v;
    Ok(())
}

fn section_predicates(p: &mut Parser, domain: &mut Domain) -> (r: Result<(), ParseError>)
    requires
        old(p).wf(),
    ensures
        ran(*old(p), *final(p)),
        old(p).pos <= final(p).pos,
        match sp_section_predicates(old(p).ts(), old(p).pos as int, old(domain)@) {
            Ok((d, q)) => r is Ok && final(domain)@ == d && final(p).pos == q,
            Err(e) => r matches Err(e2) && e2@ == e,
        },
{
    let v = parse_predicate_decls(p)?;
    p.expect_rparen()?;
    domain.predicates = v;
    Ok(())
}

fn section_functions(p: &mut Parser, domain: &mut Domain) -> (r: Result<(), ParseError>)
    requires
        old(p).wf(),
    ensures
        ran(*old(p), *final(p)),
        old(p).pos <= final(p).pos,
        match sp_section_functions(old(p).ts(), old(p).pos as int, old(domain)@) {
            Ok((d, q)) => r is Ok && final(domain)@ == d && final(p).pos == q,
            Err(e) => r matches Err(e2) && e2@ == e,
        },
{
    let v = parse_function_decls(p)?;
    p.expect_rparen()?;
    domain.functions = v;
    Ok(())
}

fn section_actions(p: &mut Parser, domain: &mut Domain) -> (r: Result<(), ParseError>)
    requires
        old(p).wf(),
    ensures
        ran(*old(p), *final(p)),
        old(p).pos <= final(p).pos,
        match sp_section_actions(old(p).ts(), old(p).pos as int, old(domain)@) {
            Ok((d, q)) => r is Ok && final(domain)@ == d && final(p).pos == q,
            Err(e) => r matches Err(e2) && e2@ == e,
        },
{
    let v = parse_basic_action(p)?;
    p.expect_rparen()?;
    let ghost a = v@;
    domain.actions.push(v);
    assert(views(domain.actions@) =~= old(domain)@.actions.push(a));
    Ok(())
}

fn section_durative_actions(p: &mut Parser, domain: &mut Domain) -> (r: Result<(), ParseError>)
    requires
        old(p).wf(),
    ensures
        ran(*old(p), *final(p)),
        old(p).pos <= final(p).pos,
        match sp_section_durative_actions(old(p).ts(), old(p).pos as int, old(domain)@) {
            Ok((d, q)) => r is Ok && final(domain)@ == d && final(p).pos == q,
            Err(e) => r matches Err(e2) && e2@ == e,
        },
{
    let v = parse_durative_action(p)?;
    p.expect_rparen()?;
    let ghost a = v@;
    domain.durative_actions.push(v);
    assert(views(domain.durative_actions@) =~= old(domain)@.durative_actions.push(a));
    Ok(())
}

fn section_derived_predicates(p: &mut Parser, domain: &mut Domain) -> (r: Result<(), ParseError>)
    requires
        old(p).wf(),
    ensures
        ran(*old(p), *final(p)),
        old(p).pos <= final(p).pos,
        match sp_section_derived_predicates(old(p).ts(), old(p).pos as int, old(domain)@) {
            Ok((d, q)) => r is Ok && final(domain)@ == d && final(p).pos == q,
            Err(e) => r matches Err(e2) && e2@ == e,
        },
{
    let v = parse_derived_predicate(p)?;
    p.expect_rparen()?;
    let ghost a = v@;
    domain.derived_predicates.push(v);
    assert(views(domain.derived_predicates@) =~= old(domain)@.derived_predicates.push(a));
    Ok(())
}

/// Parses one section at a `(` into `domain`.
fn parse_domain_section(p: &mut Parser, domain: &mut Domain) -> (r: Result<(), ParseError>)
    requires
        old(p).wf(),
        at_lparen(old(p).ts(), old(p).pos as int),
    ensures
        ran(*old(p), *final(p)),
        moved(*old(p), *final(p), r),
        match sp_domain_section(old(p).ts(), old(p).pos as int, old(domain)@) {
            Ok((d, q)) => r is Ok && final(domain)@ == d && final(p).pos == q,
            Err(e) => r matches Err(e2) && e2@ == e,
        },
{
    reveal(sp_domain_section);
    let save = p.pos;
    p.expect_lparen()?;
    let tok = p.advance()?;
    let mut skip = false;
    match &tok.kind {
        TokenKind::Keyword(kw) => {
            if same_text(kw.as_str(), "requirements") {
                section_requirements(p, domain)?;
            } else if same_text(kw.as_str(), "types") {
                section_types(p, domain)?;
            } else if same_text(kw.as_str(), "constants") {
                section_constants(p, domain)?;
            } else if same_text(kw.as_str(), "predicates") {
                section_predicates(p, domain)?;
            } else if same_text(kw.as_str(), "functions") {
                section_functions(p, domain)?;
            } else if same_text(kw.as_str(), "action") {
                section_actions(p, domain)?;
            } else if same_text(kw.as_str(), "durative-action") {
                section_durative_actions(p, domain)?;
            } else if same_text(kw.as_str(), "derived") {
                section_derived_predicates(p, domain)?;
            } else {
                skip = true;
            }
        },
        _ => {
            skip = true;
        },
    }
    if skip {
        p.pos = save;
        skip_sexp(p)?;
    }
    Ok(())
}

/// Parses sections into `domain` while a `(` follows.
fn parse_domain_sections(p: &mut Parser, domain: &mut Domain) -> (r: Result<(), ParseError>)
    requires
        old(p).wf(),
    ensures
        ran(*old(p), *final(p)),
        old(p).pos <= final(p).pos,
        match sp_domain_sections(old(p).ts(), old(p).pos as int, old(domain)@) {
            Ok((d, q)) => r is Ok && final(domain)@ == d && final(p).pos == q,
            Err(e) => r matches Err(e2) && e2@ == e,
        },
{
    let ghost ts = p.ts();
    while p.at_lparen()
        invariant
            ran(*old(p), *p),
            ts == p.ts(),
            old(p).pos <= p.pos,
            sp_domain_sections(ts, old(p).pos as int, old(domain)@) == sp_domain_sections(
                ts,
                p.pos as int,
                domain@,
            ),
        decreases ts.len() - p.pos,
    {
        parse_domain_section(p, domain)?;
    }
    Ok(())
}

/// Parses a whole domain form (after any forms before `(define`).
pub(crate) fn parse_domain_def(p: &mut Parser) -> (r: Result<Domain, ParseError>)
    requires
        old(p).wf(),
    ensures
        ran(*old(p), *final(p)),
        moved(*old(p), *final(p), r),
        lift(r, final(p).pos) == sp_domain_def(old(p).ts(), old(p).pos as int),
{
    let ghost ts = p.ts();
    skip_to_define(p)?;
    p.expect_lparen()?;
    p.expect_symbol_eq("domain")?;
    let name = p.expect_symbol()?;
    p.expect_rparen()?;
    let ghost p5 = p.pos;
    let mut domain = Domain {
        name,
        requirements: Vec::new(),
        types: Vec::new(),
        constants: Vec::new(),
        predicates: Vec::new(),
        functions: Vec::new(),
        actions: Vec::new(),
        durative_actions: Vec::new(),
        derived_predicates: Vec::new(),
    };
    assert(domain.requirements@ =~= seq![]);
    assert(views(domain.types@) =~= seq![]);
    assert(views(domain.constants@) =~= seq![]);
    assert(views(domain.predicates@) =~= seq![]);
    assert(views(domain.functions@) =~= seq![]);
    assert(views(domain.actions@) =~= seq![]);
    assert(views(domain.durative_actions@) =~= seq![]);
    assert(views(domain.derived_predicates@) =~= seq![]);
    assert(domain@ == empty_domain(domain.name@));
    parse_domain_sections(p, &mut domain)?;
    p.expect_rparen()?;
    Ok(domain)
}

} // verus!
