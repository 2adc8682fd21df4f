//! The constructs that only a constraint programming model may hold.
//!
//! A model tagged `@model lp` is a linear program: it has no interval
//! variables, no interval attributes, no scheduling constraints and no interval
//! accessors in its expressions. The model parser refuses a section of an
//! `lp` model that holds one, naming the first such construct.

use vstd::prelude::*;

use crate::jia_lang::ast::{
    Constraint, DomainStmt, Expr, SpecConstraint, SpecDomainStmt, SpecExpr, SpecVarDecl, VarDecl,
    VarType,
};

verus! {

/// The message for a CP-only construct met in an `lp` model.
pub open spec fn cp_only_message(what: Seq<char>) -> Seq<char> {
    "CP construct '"@ + what + "' is not allowed in an lp model"@
}

/// The CP-only construct of a variable declaration, if it declares intervals.
pub open spec fn var_issue(v: SpecVarDecl) -> Option<Seq<char>> {
    match v.var_type {
        VarType::Interval => Some("Interval"@),
        VarType::SetInterval => Some("Set[Interval]"@),
        _ => None,
    }
}

/// The first CP-only construct of an expression, left to right.
pub open spec fn expr_issue(e: SpecExpr) -> Option<Seq<char>>
    decreases e,
{
    match e {
        SpecExpr::StartOf(_) => Some("start_of"@),
        SpecExpr::EndOf(_) => Some("end_of"@),
        SpecExpr::DurationOf(_) => Some("duration_of"@),
        SpecExpr::PresentOf(_) => Some("present_of"@),
        SpecExpr::BinaryOp { left, right, .. } => match expr_issue(*left) {
            Some(w) => Some(w),
            None => expr_issue(*right),
        },
        SpecExpr::Negate(inner) => expr_issue(*inner),
        _ => None,
    }
}

/// The CP-only construct of a domain statement, if it speaks of intervals.
pub open spec fn domain_issue(d: SpecDomainStmt) -> Option<Seq<char>> {
    match d {
        SpecDomainStmt::IntervalDuration { .. } => Some("duration"@),
        SpecDomainStmt::IntervalStart { .. } => Some("start"@),
        SpecDomainStmt::IntervalEnd { .. } => Some("end"@),
        SpecDomainStmt::IntervalOptional { .. } => Some("optional"@),
        SpecDomainStmt::Demand { .. } => Some("demand"@),
        _ => None,
    }
}

/// The first CP-only construct of a constraint.
pub open spec fn constraint_issue(c: SpecConstraint) -> Option<Seq<char>> {
    match c {
        SpecConstraint::NoOverlap { .. } => Some("no_overlap"@),
        SpecConstraint::Cumulative { .. } => Some("cumulative"@),
        SpecConstraint::Span { .. } => Some("span"@),
        SpecConstraint::Alternative { .. } => Some("alternative"@),
        SpecConstraint::Comparison { left, right, .. } => match expr_issue(left) {
            Some(w) => Some(w),
            None => expr_issue(right),
        },
    }
}

/// The first CP-only construct among the declarations from index `i` on.
pub open spec fn vars_issue(vs: Seq<SpecVarDecl>, i: int) -> Option<Seq<char>>
    decreases vs.len() - i,
{
    if 0 <= i < vs.len() {
        match var_issue(vs[i]) {
            Some(w) => Some(w),
            None => vars_issue(vs, i + 1),
        }
    } else {
        None
    }
}

/// The first CP-only construct among the domain statements from index `i` on.
pub open spec fn domains_issue(ds: Seq<SpecDomainStmt>, i: int) -> Option<Seq<char>>
    decreases ds.len() - i,
{
    if 0 <= i < ds.len() {
        match domain_issue(ds[i]) {
            Some(w) => Some(w),
            None => domains_issue(ds, i + 1),
        }
    } else {
        None
    }
}

/// The first CP-only construct among the constraints from index `i` on.
pub open spec fn constraints_issue(cs: Seq<SpecConstraint>, i: int) -> Option<Seq<char>>
    decreases cs.len() - i,
{
    if 0 <= i < cs.len() {
        match constraint_issue(cs[i]) {
            Some(w) => Some(w),
            None => constraints_issue(cs, i + 1),
        }
    } else {
        None
    }
}

/// The view of an optional name.
pub open spec fn name_view(o: Option<String>) -> Option<Seq<char>> {
    match o {
        Some(s) => Some(s@),
        None => None,
    }
}

/// The first CP-only construct of an expression.
pub fn find_expr_issue(e: &Expr) -> (r: Option<String>)
    ensures
        name_view(r) == expr_issue(e@),
    decreases e,
{
    match e {
        Expr::StartOf(_) => Some(String::from_str("start_of")),
        Expr::EndOf(_) => Some(String::from_str("end_of")),
        Expr::DurationOf(_) => Some(String::from_str("duration_of")),
        Expr::PresentOf(_) => Some(String::from_str("present_of")),
        Expr::BinaryOp { left, right, .. } => match find_expr_issue(left) {
            Some(w) => Some(w),
            None => find_expr_issue(right),
        },
        Expr::Negate(inner) => find_expr_issue(inner),
        _ => None,
    }
}

/// The first CP-only construct among variable declarations.
pub fn find_vars_issue(vs: &Vec<VarDecl>) -> (r: Option<String>)
    ensures
        name_view(r) == vars_issue(crate::ast::views(vs@), 0),
{
    let ghost v = crate::ast::views(vs@);
    let mut i: usize = 0;
    while i < vs.len()
        invariant
            i <= vs@.len(),
            v == crate::ast::views(vs@),
            vars_issue(v, 0) == vars_issue(v, i as int),
        decreases vs@.len() - i,
    {
        assert(v[i as int] == vs@[i as int]@);
        match vs[i].var_type {
            VarType::Interval => {
                return Some(String::from_str("Interval"));
            },
            VarType::SetInterval => {
                return Some(String::from_str("Set[Interval]"));
            },
            _ => {},
        }
        i = i + 1;
    }
    None
}

/// The first CP-only construct among domain statements.
pub fn find_domains_issue(ds: &Vec<DomainStmt>) -> (r: Option<String>)
    ensures
        name_view(r) == domains_issue(crate::ast::views(ds@), 0),
{
    let ghost v = crate::ast::views(ds@);
    let mut i: usize = 0;
    while i < ds.len()
        invariant
            i <= ds@.len(),
            v == crate::ast::views(ds@),
            domains_issue(v, 0) == domains_issue(v, i as int),
        decreases ds@.len() - i,
    {
        assert(v[i as int] == ds@[i as int]@);
        let w = match &ds[i] {
            DomainStmt::IntervalDuration { .. } => "duration",
            DomainStmt::IntervalStart { .. } => "start",
            DomainStmt::IntervalEnd { .. } => "end",
            DomainStmt::IntervalOptional { .. } => "optional",
            DomainStmt::Demand { .. } => "demand",
            _ => {
                i = i + 1;
                continue;
            },
        };
        return Some(String::from_str(w));
    }
    None
}

/// The first CP-only construct of a constraint.
fn find_constraint_issue(c: &Constraint) -> (r: Option<String>)
    ensures
        name_view(r) == constraint_issue(c@),
{
    match c {
        Constraint::NoOverlap { .. } => Some(String::from_str("no_overlap")),
        Constraint::Cumulative { .. } => Some(String::from_str("cumulative")),
        Constraint::Span { .. } => Some(String::from_str("span")),
        Constraint::Alternative { .. } => Some(String::from_str("alternative")),
        Constraint::Comparison { left, right, .. } => match find_expr_issue(left) {
            Some(w) => Some(w),
            None => find_expr_issue(right),
        },
    }
}

/// The first CP-only construct among constraints.
pub fn find_constraints_issue(cs: &Vec<Constraint>) -> (r: Option<String>)
    ensures
        name_view(r) == constraints_issue(crate::ast::views(cs@), 0),
{
    let ghost v = crate::ast::views(cs@);
    let mut i: usize = 0;
    while i < cs.len()
        invariant
            i <= cs@.len(),
            v == crate::ast::views(cs@),
            constraints_issue(v, 0) == constraints_issue(v, i as int),
        decreases cs@.len() - i,
    {
        assert(v[i as int] == cs@[i as int]@);
        let w = find_constraint_issue(&cs[i]);
        if w.is_some() {
            return w;
        }
        i = i + 1;
    }
    None
}

} // verus!
