//! The variables block:
//! ```text
//! variables {
//!   Interval: a, b, c
//!   Integer: makespan
//!   Set[Interval]: machine1, machine2
//! }
//! ```

use vstd::prelude::*;

use crate::ast::views;
use crate::error::{err_at, ParseError};
use crate::jia_lang::ast::{SpecVarDecl, VarDecl, VarType};
use crate::jia_lang::lexer::{SpecToken, SpecTokenKind, TokenKind};
use crate::parser::cursor::{lemma_prepend_empty, lemma_prepend_push, lift, lift_seq, prepend, SpecParse};
use crate::text::{concat3, same_text};

use super::{
    advanced, moved, peek, ran, span_at, sp_expect_ident, sp_expect_ident_matching,
    sp_expect_token, stalled, Parser,
};

verus! {

/// `Set[Interval]` or `Set[Integer]` after `Set`.
pub open spec fn sp_set_type(ts: Seq<SpecToken>, pos: int) -> SpecParse<VarType> {
    match sp_expect_token(ts, pos, SpecTokenKind::LBracket) {
        Err(e) => Err(e),
        Ok((_, p1)) => match sp_expect_ident(ts, p1) {
            Err(e) => Err(e),
            Ok((inner, p2)) => match sp_expect_token(ts, p2, SpecTokenKind::RBracket) {
                Err(e) => Err(e),
                Ok((_, p3)) => if inner == "Interval"@ {
                    Ok((VarType::SetInterval, p3))
                } else if inner == "Integer"@ {
                    Ok((VarType::SetInteger, p3))
                } else {
                    Err(
                        err_at(
                            "expected 'Interval' or 'Integer' in Set[...], got '"@ + inner + "'"@,
                            span_at(ts, p3),
                        ),
                    )
                },
            },
        },
    }
}

/// A variable type: `Interval`, `Integer`, `Real`, `Set[Interval]`, `Set[Integer]`.
pub open spec fn sp_var_type(ts: Seq<SpecToken>, pos: int) -> SpecParse<VarType> {
    match sp_expect_ident(ts, pos) {
        Err(e) => Err(e),
        Ok((name, p1)) => if name == "Interval"@ {
            Ok((VarType::Interval, p1))
        } else if name == "Integer"@ {
            Ok((VarType::Integer, p1))
        } else if name == "Real"@ {
            Ok((VarType::Real, p1))
        } else if name == "Set"@ {
            sp_set_type(ts, p1)
        } else {
            Err(
                err_at(
                    "expected type (Interval, Integer, Real, Set[...]), got '"@ + name + "'"@,
                    span_at(ts, p1),
                ),
            )
        },
    }
}

/// `(, name)*`: the names after the first of a list.
pub open spec fn sp_more_idents(ts: Seq<SpecToken>, pos: int) -> SpecParse<Seq<Seq<char>>>
    decreases ts.len() - pos,
{
    if peek(ts, pos) == Some(SpecTokenKind::Comma) {
        match sp_expect_ident(ts, pos + 1) {
            Err(e) => Err(e),
            Ok((n, q)) => if advanced(ts, pos, q) {
                prepend(seq![n], sp_more_idents(ts, q))
            } else {
                Err(stalled(ts))
            },
        }
    } else {
        Ok((seq![], pos))
    }
}

/// `name (, name)*`: a list of at least one name.
pub open spec fn sp_ident_list(ts: Seq<SpecToken>, pos: int) -> SpecParse<Seq<Seq<char>>> {
    match sp_expect_ident(ts, pos) {
        Err(e) => Err(e),
        Ok((n, p1)) => prepend(seq![n], sp_more_idents(ts, p1)),
    }
}

/// `Type: name, name, ...`.
pub open spec fn sp_var_decl(ts: Seq<SpecToken>, pos: int) -> SpecParse<SpecVarDecl> {
    match sp_var_type(ts, pos) {
        Err(e) => Err(e),
        Ok((var_type, p1)) => match sp_expect_token(ts, p1, SpecTokenKind::Colon) {
            Err(e) => Err(e),
            Ok((_, p2)) => match sp_ident_list(ts, p2) {
                Err(e) => Err(e),
                Ok((names, p3)) => Ok((SpecVarDecl { names, var_type }, p3)),
            },
        },
    }
}

/// Declarations up to the next `}`.
pub open spec fn sp_var_decls(ts: Seq<SpecToken>, pos: int) -> SpecParse<Seq<SpecVarDecl>>
    decreases ts.len() - pos,
{
    if peek(ts, pos) == Some(SpecTokenKind::RBrace) {
        Ok((seq![], pos))
    } else {
        match sp_var_decl(ts, pos) {
            Err(e) => Err(e),
            Ok((d, q)) => if advanced(ts, pos, q) {
                prepend(seq![d], sp_var_decls(ts, q))
            } else {
                Err(stalled(ts))
            },
        }
    }
}

/// `variables { declarations }`.
pub open spec fn sp_variables_block(ts: Seq<SpecToken>, pos: int) -> SpecParse<Seq<SpecVarDecl>> {
    match sp_expect_ident_matching(ts, pos, "variables"@) {
        Err(e) => Err(e),
        Ok((_, p1)) => match sp_expect_token(ts, p1, SpecTokenKind::LBrace) {
            Err(e) => Err(e),
            Ok((_, p2)) => match sp_var_decls(ts, p2) {
                Err(e) => Err(e),
                Ok((ds, p3)) => match sp_expect_token(ts, p3, SpecTokenKind::RBrace) {
                    Err(e) => Err(e),
                    Ok((_, p4)) => Ok((ds, p4)),
                },
            },
        },
    }
}

impl<'a> Parser<'a> {
    /// Whether the token at the cursor has the given kind, with no payload.
    pub(crate) fn at_plain(&self, k: TokenKind) -> (b: bool)
        ensures
            b == (peek(self.ts(), self.pos as int) == Some(k@)),
            b ==> self.pos < self.tokens@.len(),
    {
        if self.pos < self.tokens.len() {
            super::same_kind(&self.tokens[self.pos].kind, &k)
        } else {
            false
        }
    }

    /// Parses a `variables { ... }` block.
    pub fn parse_variables_block(&mut self) -> (r: Result<Vec<VarDecl>, ParseError>)
        requires
            old(self).wf(),
        ensures
            ran(*old(self), *final(self)),
            moved(*old(self), *final(self), r),
            lift_seq(r, final(self).pos) == sp_variables_block(
                old(self).ts(),
                old(self).pos as int,
            ),
    {
        let ghost ts = self.ts();
        self.expect_ident_matching("variables")?;
        self.expect_token(TokenKind::LBrace)?;
        let ghost p2 = self.pos;
        let mut decls: Vec<VarDecl> = Vec::new();
        assert(views(decls@) =~= seq![]);
        while !self.at_plain(TokenKind::RBrace)
            invariant
                ran(*old(self), *self),
                ts == self.ts(),
                old(self).pos < p2 <= self.pos,
                self.pos <= ts.len(),
                sp_variables_block(ts, old(self).pos as int) == (match prepend(
                    views(decls@),
                    sp_var_decls(ts, self.pos as int),
                ) {
                    Err(e) => Err(e),
                    Ok((ds, p3)) => match sp_expect_token(ts, p3, SpecTokenKind::RBrace) {
                        Err(e) => Err(e),
                        Ok((_, p4)) => Ok((ds, p4)),
                    },
                }),
            decreases ts.len() - self.pos,
        {
            let ghost before = views(decls@);
            let d = self.parse_var_decl()?;
            let ghost dv = d@;
            decls.push(d);
            assert(views(decls@) =~= before.push(dv));
            proof {
                lemma_prepend_push(before, dv, sp_var_decls(ts, self.pos as int));
            }
        }
        proof {
            lemma_prepend_empty(views(decls@), self.pos as int);
        }
        self.expect_token(TokenKind::RBrace)?;
        Ok(decls)
    }

    /// Parses `Type: name1, name2, ...`.
    fn parse_var_decl(&mut self) -> (r: Result<VarDecl, ParseError>)
        requires
            old(self).wf(),
        ensures
            ran(*old(self), *final(self)),
            moved(*old(self), *final(self), r),
            lift(r, final(self).pos) == sp_var_decl(old(self).ts(), old(self).pos as int),
    {
        let var_type = self.parse_var_type()?;
        self.expect_token(TokenKind::Colon)?;
        let names = self.parse_ident_list()?;
        Ok(VarDecl { names, var_type })
    }

    /// Parses a variable type.
    fn parse_var_type(&mut self) -> (r: Result<VarType, ParseError>)
        requires
            old(self).wf(),
        ensures
            ran(*old(self), *final(self)),
            moved(*old(self), *final(self), r),
            lift(r, final(self).pos) == sp_var_type(old(self).ts(), old(self).pos as int),
    {
        let name = self.expect_ident()?;
        if same_text(name.as_str(), "Interval") {
            Ok(VarType::Interval)
        } else if same_text(name.as_str(), "Integer") {
            Ok(VarType::Integer)
        } else if same_text(name.as_str(), "Real") {
            Ok(VarType::Real)
        } else if same_text(name.as_str(), "Set") {
            self.expect_token(TokenKind::LBracket)?;
            let inner = self.expect_ident()?;
            self.expect_token(TokenKind::RBracket)?;
            if same_text(inner.as_str(), "Interval") {
                Ok(VarType::SetInterval)
            } else if same_text(inner.as_str(), "Integer") {
                Ok(VarType::SetInteger)
            } else {
                let msg = concat3(
                    "expected 'Interval' or 'Integer' in Set[...], got '",
                    inner.as_str(),
                    "'",
                );
                Err(ParseError::new(msg, self.current_span()))
            }
        } else {
            let msg = concat3(
                "expected type (Interval, Integer, Real, Set[...]), got '",
                name.as_str(),
                "'",
            );
            Err(ParseError::new(msg, self.current_span()))
        }
    }

    /// Parses a comma-separated list of at least one identifier.
    pub fn parse_ident_list(&mut self) -> (r: Result<Vec<String>, ParseError>)
        requires
            old(self).wf(),
        ensures
            ran(*old(self), *final(self)),
            moved(*old(self), *final(self), r),
            lift_seq(r, final(self).pos) == sp_ident_list(old(self).ts(), old(self).pos as int),
    {
        let ghost ts = self.ts();
        let first = self.expect_ident()?;
        let ghost p1 = self.pos;
        let mut names: Vec<String> = Vec::new();
        names.push(first);
        assert(views(names@) =~= seq![first@]);
        while self.at_plain(TokenKind::Comma)
            invariant
                ran(*old(self), *self),
                ts == self.ts(),
                old(self).pos < p1 <= self.pos,
                self.pos <= ts.len(),
                sp_ident_list(ts, old(self).pos as int) == prepend(
                    views(names@),
                    sp_more_idents(ts, self.pos as int),
                ),
            decreases ts.len() - self.pos,
        {
            let ghost before = views(names@);
            self.pos = self.pos + 1;
            let n = self.expect_ident()?;
            let ghost nv = n@;
            names.push(n);
            assert(views(names@) =~= before.push(nv));
            proof {
                lemma_prepend_push(before, nv, sp_more_idents(ts, self.pos as int));
            }
        }
        proof {
            lemma_prepend_empty(views(names@), self.pos as int);
        }
        Ok(names)
    }
}

} // verus!
