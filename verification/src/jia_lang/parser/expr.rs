//! Expressions: sums of products of atoms.
//!
//! Precedence, lowest first:
//! 1. `+`, `-` (left-associative)
//! 2. `*`, `/` (left-associative)
//! 3. atoms: integer, real, identifier, `start_of(name)`, `end_of(name)`,
//!    `duration_of(name)`, `present_of(name)`, `(expr)`, unary `-`

use vstd::prelude::*;

use crate::error::{err_at, ParseError};
use crate::jia_lang::ast::{ArithOp, Expr, SpecExpr};
use crate::jia_lang::lexer::{SpecToken, SpecTokenKind, TokenKind};
use crate::parser::cursor::{lift, SpecParse};
use crate::text::same_text;

use super::{
    advanced, moved, peek, ran, span_at, sp_expect_ident, sp_expect_token, stalled, Parser,
};

verus! {

/// The additive operator at a token, if it is one.
pub open spec fn add_op(k: Option<SpecTokenKind>) -> Option<ArithOp> {
    match k {
        Some(SpecTokenKind::Plus) => Some(ArithOp::Add),
        Some(SpecTokenKind::Minus) => Some(ArithOp::Sub),
        _ => None,
    }
}

/// The multiplicative operator at a token, if it is one.
pub open spec fn mul_op(k: Option<SpecTokenKind>) -> Option<ArithOp> {
    match k {
        Some(SpecTokenKind::Star) => Some(ArithOp::Mul),
        Some(SpecTokenKind::Slash) => Some(ArithOp::Div),
        _ => None,
    }
}

/// A binary operation.
pub open spec fn bin(op: ArithOp, l: SpecExpr, r: SpecExpr) -> SpecExpr {
    SpecExpr::BinaryOp { op, left: Box::new(l), right: Box::new(r) }
}

/// Whether an identifier names one of the interval attributes.
pub open spec fn is_attr_call(name: Seq<char>) -> bool {
    name == "start_of"@ || name == "end_of"@ || name == "duration_of"@ || name == "present_of"@
}

/// The attribute `name` of the interval `arg`.
pub open spec fn attr_call(name: Seq<char>, arg: Seq<char>) -> SpecExpr {
    if name == "start_of"@ {
        SpecExpr::StartOf(arg)
    } else if name == "end_of"@ {
        SpecExpr::EndOf(arg)
    } else if name == "duration_of"@ {
        SpecExpr::DurationOf(arg)
    } else {
        SpecExpr::PresentOf(arg)
    }
}

/// `( name )`: the argument of an attribute call.
pub open spec fn sp_call_arg(ts: Seq<SpecToken>, pos: int) -> SpecParse<Seq<char>> {
    match sp_expect_token(ts, pos, SpecTokenKind::LParen) {
        Err(e) => Err(e),
        Ok((_, p1)) => match sp_expect_ident(ts, p1) {
            Err(e) => Err(e),
            Ok((arg, p2)) => match sp_expect_token(ts, p2, SpecTokenKind::RParen) {
                Err(e) => Err(e),
                Ok((_, p3)) => Ok((arg, p3)),
            },
        },
    }
}

/// An expression: products joined by `+` and `-`, grouped to the left.
pub open spec fn sp_expr(ts: Seq<SpecToken>, pos: int) -> SpecParse<SpecExpr>
    decreases ts.len() - pos, 3int,
{
    match sp_product(ts, pos) {
        Err(e) => Err(e),
        Ok((l, p1)) => if advanced(ts, pos, p1) {
            sp_sum_rest(ts, p1, l)
        } else {
            Err(stalled(ts))
        },
    }
}

/// The rest of a sum after `left`: `(+|- product)*`.
pub open spec fn sp_sum_rest(ts: Seq<SpecToken>, pos: int, left: SpecExpr) -> SpecParse<SpecExpr>
    decreases ts.len() - pos, 0int,
{
    match add_op(peek(ts, pos)) {
        None => Ok((left, pos)),
        Some(op) => match sp_product(ts, pos + 1) {
            Err(e) => Err(e),
            Ok((r, q)) => if advanced(ts, pos, q) {
                sp_sum_rest(ts, q, bin(op, left, r))
            } else {
                Err(stalled(ts))
            },
        },
    }
}

/// A product: atoms joined by `*` and `/`, grouped to the left.
pub open spec fn sp_product(ts: Seq<SpecToken>, pos: int) -> SpecParse<SpecExpr>
    decreases ts.len() - pos, 2int,
{
    match sp_atom(ts, pos) {
        Err(e) => Err(e),
        Ok((l, p1)) => if advanced(ts, pos, p1) {
            sp_product_rest(ts, p1, l)
        } else {
            Err(stalled(ts))
        },
    }
}

/// The rest of a product after `left`: `(*|/ atom)*`.
pub open spec fn sp_product_rest(ts: Seq<SpecToken>, pos: int, left: SpecExpr) -> SpecParse<
    SpecExpr,
>
    decreases ts.len() - pos, 0int,
{
    match mul_op(peek(ts, pos)) {
        None => Ok((left, pos)),
        Some(op) => match sp_atom(ts, pos + 1) {
            Err(e) => Err(e),
            Ok((r, q)) => if advanced(ts, pos, q) {
                sp_product_rest(ts, q, bin(op, left, r))
            } else {
                Err(stalled(ts))
            },
        },
    }
}

/// An atom.
pub open spec fn sp_atom(ts: Seq<SpecToken>, pos: int) -> SpecParse<SpecExpr>
    decreases ts.len() - pos, 1int,
{
    match peek(ts, pos) {
        Some(SpecTokenKind::Number(n)) => Ok((SpecExpr::Number(n), pos + 1)),
        Some(SpecTokenKind::Float(t)) => Ok((SpecExpr::Float(t), pos + 1)),
        Some(SpecTokenKind::Minus) => match sp_atom(ts, pos + 1) {
            Err(e) => Err(e),
            Ok((inner, q)) => Ok((SpecExpr::Negate(Box::new(inner)), q)),
        },
        Some(SpecTokenKind::LParen) => match sp_expr(ts, pos + 1) {
            Err(e) => Err(e),
            Ok((e, q)) => match sp_expect_token(ts, q, SpecTokenKind::RParen) {
                Err(err) => Err(err),
                Ok((_, q2)) => Ok((e, q2)),
            },
        },
        Some(SpecTokenKind::Ident(name)) => if is_attr_call(name) {
            match sp_call_arg(ts, pos + 1) {
                Err(e) => Err(e),
                Ok((arg, q)) => Ok((attr_call(name, arg), q)),
            }
        } else {
            Ok((SpecExpr::Var(name), pos + 1))
        },
        _ => Err(err_at("expected expression"@, span_at(ts, pos))),
    }
}

impl<'a> Parser<'a> {
    /// Whether `+` or `-` is at the cursor.
    fn at_add_op(&self) -> (b: bool)
        ensures
            b == add_op(peek(self.ts(), self.pos as int)) is Some,
            b ==> self.pos < self.tokens@.len(),
    {
        if self.pos < self.tokens.len() {
            match &self.tokens[self.pos].kind {
                TokenKind::Plus => true,
                TokenKind::Minus => true,
                _ => false,
            }
        } else {
            false
        }
    }

    /// Whether `*` or `/` is at the cursor.
    fn at_mul_op(&self) -> (b: bool)
        ensures
            b == mul_op(peek(self.ts(), self.pos as int)) is Some,
            b ==> self.pos < self.tokens@.len(),
    {
        if self.pos < self.tokens.len() {
            match &self.tokens[self.pos].kind {
                TokenKind::Star => true,
                TokenKind::Slash => true,
                _ => false,
            }
        } else {
            false
        }
    }

    /// Parses an expression.
    pub fn parse_expr(&mut self) -> (r: Result<Expr, ParseError>)
        requires
            old(self).wf(),
        ensures
            ran(*old(self), *final(self)),
            moved(*old(self), *final(self), r),
            lift(r, final(self).pos) == sp_expr(old(self).ts(), old(self).pos as int),
        decreases old(self).ts().len() - old(self).pos, 4int,
    {
        self.parse_additive()
    }

    /// Parses a sum: `term (('+' | '-') term)*`.
    fn parse_additive(&mut self) -> (r: Result<Expr, ParseError>)
        requires
            old(self).wf(),
        ensures
            ran(*old(self), *final(self)),
            moved(*old(self), *final(self), r),
            lift(r, final(self).pos) == sp_expr(old(self).ts(), old(self).pos as int),
        decreases old(self).ts().len() - old(self).pos, 3int,
    {
        let ghost ts = self.ts();
        let ghost start = self.pos;
        let mut left = self.parse_multiplicative()?;
        while self.at_add_op()
            invariant
                ran(*old(self), *self),
                ts == self.ts(),
                start < self.pos <= ts.len(),
                start == old(self).pos,
                sp_expr(ts, start as int) == sp_sum_rest(ts, self.pos as int, left@),
            decreases ts.len() - self.pos,
        {
            let op = match &self.tokens[self.pos].kind {
                TokenKind::Plus => ArithOp::Add,
                _ => ArithOp::Sub,
            };
            self.pos = self.pos + 1;
            let right = self.parse_multiplicative()?;
            left = Expr::BinaryOp { op, left: Box::new(left), right: Box::new(right) };
        }
        Ok(left)
    }

    /// Parses a product: `atom (('*' | '/') atom)*`.
    fn parse_multiplicative(&mut self) -> (r: Result<Expr, ParseError>)
        requires
            old(self).wf(),
        ensures
            ran(*old(self), *final(self)),
            moved(*old(self), *final(self), r),
            lift(r, final(self).pos) == sp_product(old(self).ts(), old(self).pos as int),
        decreases old(self).ts().len() - old(self).pos, 2int,
    {
        let ghost ts = self.ts();
        let ghost start = self.pos;
        let mut left = self.parse_atom()?;
        while self.at_mul_op()
            invariant
                ran(*old(self), *self),
                ts == self.ts(),
                start < self.pos <= ts.len(),
                start == old(self).pos,
                sp_product(ts, start as int) == sp_product_rest(ts, self.pos as int, left@),
            decreases ts.len() - self.pos,
        {
            let op = match &self.tokens[self.pos].kind {
                TokenKind::Star => ArithOp::Mul,
                _ => ArithOp::Div,
            };
            self.pos = self.pos + 1;
            let right = self.parse_atom()?;
            left = Expr::BinaryOp { op, left: Box::new(left), right: Box::new(right) };
        }
        Ok(left)
    }

    /// Parses an atom.
    fn parse_atom(&mut self) -> (r: Result<Expr, ParseError>)
        requires
            old(self).wf(),
        ensures
            ran(*old(self), *final(self)),
            moved(*old(self), *final(self), r),
            lift(r, final(self).pos) == sp_atom(old(self).ts(), old(self).pos as int),
        decreases old(self).ts().len() - old(self).pos, 1int,
    {
        if self.pos >= self.tokens.len() {
            return Err(ParseError::new(String::from_str("expected expression"), self.current_span()));
        }
        match &self.tokens[self.pos].kind {
            TokenKind::Number(n) => {
                let n = *n;
                self.pos = self.pos + 1;
                Ok(Expr::Number(n))
            },
            TokenKind::Float(t) => {
                let t = t.clone();
                self.pos = self.pos + 1;
                Ok(Expr::Float(t))
            },
            TokenKind::Minus => {
                self.pos = self.pos + 1;
                let inner = self.parse_atom()?;
                Ok(Expr::Negate(Box::new(inner)))
            },
            TokenKind::LParen => {
                self.pos = self.pos + 1;
                let e = self.parse_expr()?;
                self.expect_token(TokenKind::RParen)?;
                Ok(e)
            },
            TokenKind::Ident(name) => {
                let name = name.clone();
                self.pos = self.pos + 1;
                let n = name.as_str();
                if same_text(n, "start_of") || same_text(n, "end_of") || same_text(n, "duration_of")
                    || same_text(n, "present_of") {
                    self.expect_token(TokenKind::LParen)?;
                    let arg = self.expect_ident()?;
                    self.expect_token(TokenKind::RParen)?;
                    if same_text(n, "start_of") {
                        Ok(Expr::StartOf(arg))
                    } else if same_text(n, "end_of") {
                        Ok(Expr::EndOf(arg))
                    } else if same_text(n, "duration_of") {
                        Ok(Expr::DurationOf(arg))
                    } else {
                        Ok(Expr::PresentOf(arg))
                    }
                } else {
                    Ok(Expr::Var(name))
                }
            },
            _ => Err(ParseError::new(String::from_str("expected expression"), self.current_span())),
        }
    }
}

} // verus!
