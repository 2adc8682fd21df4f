//! The constraints block:
//! ```text
//! constraints {
//!   no_overlap(machine1)
//!   cumulative(res1, 4)
//!   span(project, phases)
//!   alternative(j1_o1, j1_o1_alts)
//!   end_of(a) <= start_of(b)
//! }
//! ```

use vstd::prelude::*;

use crate::ast::views;
use crate::error::{err_at, ParseError};
use crate::jia_lang::ast::{CmpOp, Constraint, SpecConstraint};
use crate::jia_lang::lexer::{SpecToken, SpecTokenKind, TokenKind};
use crate::parser::cursor::{lemma_prepend_empty, lemma_prepend_push, lift, lift_seq, prepend, SpecParse};
use crate::text::same_text;

use super::decl::sp_ident_list;
use super::expr::sp_expr;
use super::{
    advanced, moved, peek, ran, span_at, sp_expect_ident, sp_expect_ident_matching,
    sp_expect_token, stalled, Parser,
};

verus! {

/// The comparison operator a token names, if any (`=` and `==` both name
/// equality).
pub open spec fn comparison_op_of(k: Option<SpecTokenKind>) -> Option<CmpOp> {
    match k {
        Some(SpecTokenKind::Le) => Some(CmpOp::Le),
        Some(SpecTokenKind::Ge) => Some(CmpOp::Ge),
        Some(SpecTokenKind::Lt) => Some(CmpOp::Lt),
        Some(SpecTokenKind::Gt) => Some(CmpOp::Gt),
        Some(SpecTokenKind::EqEq) => Some(CmpOp::Eq),
        Some(SpecTokenKind::Eq) => Some(CmpOp::Eq),
        Some(SpecTokenKind::Ne) => Some(CmpOp::Ne),
        _ => None,
    }
}

pub open spec fn sp_comparison_op(ts: Seq<SpecToken>, pos: int) -> SpecParse<CmpOp> {
    match comparison_op_of(peek(ts, pos)) {
        Some(op) => Ok((op, pos + 1)),
        None => Err(
            err_at("expected comparison operator (<=, >=, <, >, ==, !=, =)"@, span_at(ts, pos)),
        ),
    }
}

/// `name ( name , name )`: the two names of `span` or `alternative`.
pub open spec fn sp_pair(ts: Seq<SpecToken>, pos: int, name: Seq<char>) -> SpecParse<
    (Seq<char>, Seq<char>),
> {
    match sp_expect_ident_matching(ts, pos, name) {
        Err(e) => Err(e),
        Ok((_, p1)) => match sp_expect_token(ts, p1, SpecTokenKind::LParen) {
            Err(e) => Err(e),
            Ok((_, p2)) => match sp_expect_ident(ts, p2) {
                Err(e) => Err(e),
                Ok((a, p3)) => match sp_expect_token(ts, p3, SpecTokenKind::Comma) {
                    Err(e) => Err(e),
                    Ok((_, p4)) => match sp_expect_ident(ts, p4) {
                        Err(e) => Err(e),
                        Ok((b, p5)) => match sp_expect_token(ts, p5, SpecTokenKind::RParen) {
                            Err(e) => Err(e),
                            Ok((_, p6)) => Ok(((a, b), p6)),
                        },
                    },
                },
            },
        },
    }
}

/// `no_overlap(name, ...)`.
pub open spec fn sp_no_overlap(ts: Seq<SpecToken>, pos: int) -> SpecParse<SpecConstraint> {
    match sp_expect_ident_matching(ts, pos, "no_overlap"@) {
        Err(e) => Err(e),
        Ok((_, p1)) => match sp_expect_token(ts, p1, SpecTokenKind::LParen) {
            Err(e) => Err(e),
            Ok((_, p2)) => match sp_ident_list(ts, p2) {
                Err(e) => Err(e),
                Ok((intervals, p3)) => match sp_expect_token(ts, p3, SpecTokenKind::RParen) {
                    Err(e) => Err(e),
                    Ok((_, p4)) => Ok((SpecConstraint::NoOverlap { intervals }, p4)),
                },
            },
        },
    }
}

/// `cumulative(set, capacity)`.
pub open spec fn sp_cumulative(ts: Seq<SpecToken>, pos: int) -> SpecParse<SpecConstraint> {
    match sp_expect_ident_matching(ts, pos, "cumulative"@) {
        Err(e) => Err(e),
        Ok((_, p1)) => match sp_expect_token(ts, p1, SpecTokenKind::LParen) {
            Err(e) => Err(e),
            Ok((_, p2)) => match sp_expect_ident(ts, p2) {
                Err(e) => Err(e),
                Ok((set, p3)) => match sp_expect_token(ts, p3, SpecTokenKind::Comma) {
                    Err(e) => Err(e),
                    Ok((_, p4)) => match sp_expr(ts, p4) {
                        Err(e) => Err(e),
                        Ok((capacity, p5)) => match sp_expect_token(
                            ts,
                            p5,
                            SpecTokenKind::RParen,
                        ) {
                            Err(e) => Err(e),
                            Ok((_, p6)) => Ok((SpecConstraint::Cumulative { set, capacity }, p6)),
                        },
                    },
                },
            },
        },
    }
}

/// `left op right`.
pub open spec fn sp_comparison(ts: Seq<SpecToken>, pos: int) -> SpecParse<SpecConstraint> {
    match sp_expr(ts, pos) {
        Err(e) => Err(e),
        Ok((left, p1)) => match sp_comparison_op(ts, p1) {
            Err(e) => Err(e),
            Ok((op, p2)) => match sp_expr(ts, p2) {
                Err(e) => Err(e),
                Ok((right, p3)) => Ok((SpecConstraint::Comparison { left, op, right }, p3)),
            },
        },
    }
}

/// One constraint: chosen by its first identifier, else a comparison.
pub open spec fn sp_constraint(ts: Seq<SpecToken>, pos: int) -> SpecParse<SpecConstraint> {
    match peek(ts, pos) {
        Some(SpecTokenKind::Ident(name)) if name == "no_overlap"@ => sp_no_overlap(ts, pos),
        Some(SpecTokenKind::Ident(name)) if name == "cumulative"@ => sp_cumulative(ts, pos),
        Some(SpecTokenKind::Ident(name)) if name == "span"@ => match sp_pair(ts, pos, name) {
            Err(e) => Err(e),
            Ok(((parent, set), q)) => Ok((SpecConstraint::Span { parent, set }, q)),
        },
        Some(SpecTokenKind::Ident(name)) if name == "alternative"@ => match sp_pair(
            ts,
            pos,
            name,
        ) {
            Err(e) => Err(e),
            Ok(((parent, set), q)) => Ok((SpecConstraint::Alternative { parent, set }, q)),
        },
        _ => sp_comparison(ts, pos),
    }
}

/// Constraints up to the next `}`.
pub open spec fn sp_constraints(ts: Seq<SpecToken>, pos: int) -> SpecParse<Seq<SpecConstraint>>
    decreases ts.len() - pos,
{
    if peek(ts, pos) == Some(SpecTokenKind::RBrace) {
        Ok((seq![], pos))
    } else {
        match sp_constraint(ts, pos) {
            Err(e) => Err(e),
            Ok((c, q)) => if advanced(ts, pos, q) {
                prepend(seq![c], sp_constraints(ts, q))
            } else {
                Err(stalled(ts))
            },
        }
    }
}

/// `constraints { constraints }`.
pub open spec fn sp_constraints_block(ts: Seq<SpecToken>, pos: int) -> SpecParse<
    Seq<SpecConstraint>,
> {
    match sp_expect_ident_matching(ts, pos, "constraints"@) {
        Err(e) => Err(e),
        Ok((_, p1)) => match sp_expect_token(ts, p1, SpecTokenKind::LBrace) {
            Err(e) => Err(e),
            Ok((_, p2)) => match sp_constraints(ts, p2) {
                Err(e) => Err(e),
                Ok((cs, p3)) => match sp_expect_token(ts, p3, SpecTokenKind::RBrace) {
                    Err(e) => Err(e),
                    Ok((_, p4)) => Ok((cs, p4)),
                },
            },
        },
    }
}

impl<'a> Parser<'a> {
    /// Parses a `constraints { ... }` block.
    pub fn parse_constraints_block(&mut self) -> (r: Result<Vec<Constraint>, ParseError>)
        requires
            old(self).wf(),
        ensures
            ran(*old(self), *final(self)),
            moved(*old(self), *final(self), r),
            lift_seq(r, final(self).pos) == sp_constraints_block(
                old(self).ts(),
                old(self).pos as int,
            ),
    {
        let ghost ts = self.ts();
        self.expect_ident_matching("constraints")?;
        self.expect_token(TokenKind::LBrace)?;
        let ghost p2 = self.pos;
        let mut cs: Vec<Constraint> = Vec::new();
        assert(views(cs@) =~= seq![]);
        while !self.at_plain(TokenKind::RBrace)
            invariant
                ran(*old(self), *self),
                ts == self.ts(),
                old(self).pos < p2 <= self.pos,
                self.pos <= ts.len(),
                sp_constraints_block(ts, old(self).pos as int) == (match prepend(
                    views(cs@),
                    sp_constraints(ts, self.pos as int),
                ) {
                    Err(e) => Err(e),
                    Ok((ds, p3)) => match sp_expect_token(ts, p3, SpecTokenKind::RBrace) {
                        Err(e) => Err(e),
                        Ok((_, p4)) => Ok((ds, p4)),
                    },
                }),
            decreases ts.len() - self.pos,
        {
            let ghost before = views(cs@);
            let c = self.parse_constraint_stmt()?;
            let ghost cv = c@;
            cs.push(c);
            assert(views(cs@) =~= before.push(cv));
            proof {
                lemma_prepend_push(before, cv, sp_constraints(ts, self.pos as int));
            }
        }
        proof {
            lemma_prepend_empty(views(cs@), self.pos as int);
        }
        self.expect_token(TokenKind::RBrace)?;
        Ok(cs)
    }

    /// Parses one constraint.
    fn parse_constraint_stmt(&mut self) -> (r: Result<Constraint, ParseError>)
        requires
            old(self).wf(),
        ensures
            ran(*old(self), *final(self)),
            moved(*old(self), *final(self), r),
            lift(r, final(self).pos) == sp_constraint(old(self).ts(), old(self).pos as int),
    {
        if self.pos < self.tokens.len() {
            match &self.tokens[self.pos].kind {
                TokenKind::Ident(name) => {
                    let n = name.as_str();
                    if same_text(n, "no_overlap") {
                        return self.parse_no_overlap();
                    }
                    if same_text(n, "cumulative") {
                        return self.parse_cumulative();
                    }
                    if same_text(n, "span") {
                        let (parent, set) = self.parse_pair("span")?;
                        return Ok(Constraint::Span { parent, set });
                    }
                    if same_text(n, "alternative") {
                        let (parent, set) = self.parse_pair("alternative")?;
                        return Ok(Constraint::Alternative { parent, set });
                    }
                },
                _ => {},
            }
        }
        self.parse_comparison()
    }

    /// Parses `no_overlap(name, ...)`.
    fn parse_no_overlap(&mut self) -> (r: Result<Constraint, ParseError>)
        requires
            old(self).wf(),
        ensures
            ran(*old(self), *final(self)),
            moved(*old(self), *final(self), r),
            lift(r, final(self).pos) == sp_no_overlap(old(self).ts(), old(self).pos as int),
    {
        self.expect_ident_matching("no_overlap")?;
        self.expect_token(TokenKind::LParen)?;
        let intervals = self.parse_ident_list()?;
        self.expect_token(TokenKind::RParen)?;
        Ok(Constraint::NoOverlap { intervals })
    }

    /// Parses `cumulative(set, capacity)`.
    fn parse_cumulative(&mut self) -> (r: Result<Constraint, ParseError>)
        requires
            old(self).wf(),
        ensures
            ran(*old(self), *final(self)),
            moved(*old(self), *final(self), r),
            lift(r, final(self).pos) == sp_cumulative(old(self).ts(), old(self).pos as int),
    {
        self.expect_ident_matching("cumulative")?;
        self.expect_token(TokenKind::LParen)?;
        let set = self.expect_ident()?;
        self.expect_token(TokenKind::Comma)?;
        let capacity = self.parse_expr()?;
        self.expect_token(TokenKind::RParen)?;
        Ok(Constraint::Cumulative { set, capacity })
    }

    /// Parses `name(a, b)` for `span` and `alternative`.
    fn parse_pair(&mut self, name: &str) -> (r: Result<(String, String), ParseError>)
        requires
            old(self).wf(),
        ensures
            ran(*old(self), *final(self)),
            moved(*old(self), *final(self), r),
            match r {
                Ok((a, b)) => sp_pair(old(self).ts(), old(self).pos as int, name@) == Ok::<
                    ((Seq<char>, Seq<char>), int),
                    crate::error::SpecParseError,
                >(((a@, b@), final(self).pos as int)),
                Err(e) => sp_pair(old(self).ts(), old(self).pos as int, name@) == Err::<
                    ((Seq<char>, Seq<char>), int),
                    crate::error::SpecParseError,
                >(e@),
            },
    {
        self.expect_ident_matching(name)?;
        self.expect_token(TokenKind::LParen)?;
        let a = self.expect_ident()?;
        self.expect_token(TokenKind::Comma)?;
        let b = self.expect_ident()?;
        self.expect_token(TokenKind::RParen)?;
        Ok((a, b))
    }

    /// Parses `left op right`.
    fn parse_comparison(&mut self) -> (r: Result<Constraint, ParseError>)
        requires
            old(self).wf(),
        ensures
            ran(*old(self), *final(self)),
            moved(*old(self), *final(self), r),
            lift(r, final(self).pos) == sp_comparison(old(self).ts(), old(self).pos as int),
    {
        let left = self.parse_expr()?;
        let op = self.parse_comparison_op()?;
        let right = self.parse_expr()?;
        Ok(Constraint::Comparison { left, op, right })
    }

    /// Parses a comparison operator.
    fn parse_comparison_op(&mut self) -> (r: Result<CmpOp, ParseError>)
        requires
            old(self).wf(),
        ensures
            ran(*old(self), *final(self)),
            moved(*old(self), *final(self), r),
            lift(r, final(self).pos) == sp_comparison_op(old(self).ts(), old(self).pos as int),
    {
        let span = self.current_span();
        if self.pos < self.tokens.len() {
            let op = match &self.tokens[self.pos].kind {
                TokenKind::Le => Some(CmpOp::Le),
                TokenKind::Ge => Some(CmpOp::Ge),
                TokenKind::Lt => Some(CmpOp::Lt),
                TokenKind::Gt => Some(CmpOp::Gt),
                TokenKind::EqEq => Some(CmpOp::Eq),
                TokenKind::Eq => Some(CmpOp::Eq),
                TokenKind::Ne => Some(CmpOp::Ne),
                _ => None,
            };
            match op {
                Some(op) => {
                    self.pos = self.pos + 1;
                    return Ok(op);
                },
                None => {},
            }
        }
        Err(
            ParseError::new(
                String::from_str("expected comparison operator (<=, >=, <, >, ==, !=, =)"),
                span,
            ),
        )
    }
}

} // verus!
