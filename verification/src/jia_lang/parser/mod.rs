//! Parser for the Jia modelling language.
//!
//! Top-level grammar:
//! ```text
//! model    = ("@" "model" ("lp" | "cp"))? "model" IDENT section*
//! section  = variables_block | domains_block | constraints_block
//!          | ("minimize" | "maximize") expr
//! ```
//!
//! Every parse step is stated over the tokens as mathematical values: the
//! `sp_` functions give what a step yields from a position, and the position
//! after it.

pub mod constraint;
pub mod decl;
pub mod domain;
pub mod expr;
pub mod paradigm;

use vstd::prelude::*;

use crate::error::{err_at, ParseError, Span, SpecParseError};
use crate::jia_lang::ast::{
    Expr, JiaModel, ModelType, Objective, OptDirection, SpecJiaModel, SpecObjective,
};
use crate::jia_lang::lexer::{
    kind_debug, spec_tokenize, tokenize, tokens_view, SpecToken, SpecTokenKind, Token, TokenKind,
};
use crate::parser::cursor::{lift, SpecParse};
use crate::text::{concat2, concat3, concat4, same_text};

use self::constraint::sp_constraints_block;
use self::decl::sp_variables_block;
use self::domain::sp_domains_block;
use self::expr::sp_expr;
use self::paradigm::{
    constraints_issue, cp_only_message, domains_issue, expr_issue, find_constraints_issue,
    find_domains_issue, find_expr_issue, find_vars_issue, vars_issue,
};

verus! {

/// Parser state: a token slice with a cursor.
pub struct Parser<'a> {
    /// The tokens being parsed.
    pub tokens: &'a [Token],
    /// The index of the next token.
    pub pos: usize,
}

impl<'a> Parser<'a> {
    /// The tokens, as mathematical values.
    pub open spec fn ts(self) -> Seq<SpecToken> {
        tokens_view(self.tokens@)
    }

    /// There are fewer than `usize::MAX` tokens (the cursor may lie past them).
    pub open spec fn wf(self) -> bool {
        self.tokens@.len() < usize::MAX
    }
}

/// A parse step kept the tokens.
pub open spec fn ran(p0: Parser, p1: Parser) -> bool {
    p1.tokens == p0.tokens && p1.wf()
}

/// A parse step never moves back, and moves forward when it succeeds.
pub open spec fn moved<T>(p0: Parser, p1: Parser, r: Result<T, ParseError>) -> bool {
    &&& p0.pos <= p1.pos
    &&& r is Ok ==> p0.pos < p1.pos <= p0.tokens@.len()
}

/// The kind of the token at `pos`, if any.
pub open spec fn peek(ts: Seq<SpecToken>, pos: int) -> Option<SpecTokenKind> {
    if 0 <= pos < ts.len() {
        Some(ts[pos].kind)
    } else {
        None
    }
}

/// The span of the token at `pos`, or `1:1` past the end.
pub open spec fn span_at(ts: Seq<SpecToken>, pos: int) -> Span {
    if 0 <= pos < ts.len() {
        ts[pos].span
    } else {
        Span { offset: 0, line: 1, col: 1 }
    }
}

/// Whether a nested parse that ended at `q` moved past `pos` and stayed within
/// the tokens (every parse step that succeeds does).
pub open spec fn advanced(ts: Seq<SpecToken>, pos: int, q: int) -> bool {
    pos < q <= ts.len()
}

/// The stand-in error for a nested parse that did not move forward (which no
/// parse step does when it succeeds).
pub open spec fn stalled(ts: Seq<SpecToken>) -> SpecParseError {
    err_at("expected expression"@, Span { offset: 0, line: 1, col: 1 })
}

/// `expected <what>, got <kind>` or `expected <what>, got end of input`.
pub open spec fn expected_error(what: Seq<char>, ts: Seq<SpecToken>, pos: int) -> SpecParseError {
    match peek(ts, pos) {
        Some(k) => err_at("expected "@ + what + ", got "@ + kind_debug(k), span_at(ts, pos)),
        None => err_at("expected "@ + what + ", got end of input"@, span_at(ts, pos)),
    }
}

pub open spec fn sp_expect_token(ts: Seq<SpecToken>, pos: int, expected: SpecTokenKind) -> SpecParse<
    (),
> {
    if peek(ts, pos) == Some(expected) {
        Ok(((), pos + 1))
    } else {
        Err(expected_error(kind_debug(expected), ts, pos))
    }
}

pub open spec fn sp_expect_ident(ts: Seq<SpecToken>, pos: int) -> SpecParse<Seq<char>> {
    match peek(ts, pos) {
        Some(SpecTokenKind::Ident(name)) => Ok((name, pos + 1)),
        _ => Err(expected_error("identifier"@, ts, pos)),
    }
}

pub open spec fn sp_expect_ident_matching(
    ts: Seq<SpecToken>,
    pos: int,
    expected: Seq<char>,
) -> SpecParse<()> {
    match sp_expect_ident(ts, pos) {
        Err(e) => Err(e),
        Ok((name, q)) => if name == expected {
            Ok(((), q))
        } else {
            Err(err_at("expected '"@ + expected + "', got '"@ + name + "'"@, span_at(ts, pos)))
        },
    }
}

pub open spec fn sp_expect_number(ts: Seq<SpecToken>, pos: int) -> SpecParse<i64> {
    match peek(ts, pos) {
        Some(SpecTokenKind::Number(n)) => Ok((n, pos + 1)),
        _ => Err(expected_error("number"@, ts, pos)),
    }
}

/// Whether two token kinds are the same.
pub fn same_kind(a: &TokenKind, b: &TokenKind) -> (r: bool)
    ensures
        r == (a@ == b@),
{
    match (a, b) {
        (TokenKind::LParen, TokenKind::LParen) => true,
        (TokenKind::RParen, TokenKind::RParen) => true,
        (TokenKind::LBrace, TokenKind::LBrace) => true,
        (TokenKind::RBrace, TokenKind::RBrace) => true,
        (TokenKind::LBracket, TokenKind::LBracket) => true,
        (TokenKind::RBracket, TokenKind::RBracket) => true,
        (TokenKind::Comma, TokenKind::Comma) => true,
        (TokenKind::Colon, TokenKind::Colon) => true,
        (TokenKind::DotDot, TokenKind::DotDot) => true,
        (TokenKind::Plus, TokenKind::Plus) => true,
        (TokenKind::Minus, TokenKind::Minus) => true,
        (TokenKind::Star, TokenKind::Star) => true,
        (TokenKind::Slash, TokenKind::Slash) => true,
        (TokenKind::At, TokenKind::At) => true,
        (TokenKind::Le, TokenKind::Le) => true,
        (TokenKind::Ge, TokenKind::Ge) => true,
        (TokenKind::Lt, TokenKind::Lt) => true,
        (TokenKind::Gt, TokenKind::Gt) => true,
        (TokenKind::EqEq, TokenKind::EqEq) => true,
        (TokenKind::Ne, TokenKind::Ne) => true,
        (TokenKind::Eq, TokenKind::Eq) => true,
        (TokenKind::Number(x), TokenKind::Number(y)) => *x == *y,
        (TokenKind::Float(x), TokenKind::Float(y)) => same_text(x.as_str(), y.as_str()),
        (TokenKind::Ident(x), TokenKind::Ident(y)) => same_text(x.as_str(), y.as_str()),
        _ => false,
    }
}

/// A copy of a token kind.
pub fn copy_kind(k: &TokenKind) -> (r: TokenKind)
    ensures
        r@ == k@,
{
    match k {
        TokenKind::LParen => TokenKind::LParen,
        TokenKind::RParen => TokenKind::RParen,
        TokenKind::LBrace => TokenKind::LBrace,
        TokenKind::RBrace => TokenKind::RBrace,
        TokenKind::LBracket => TokenKind::LBracket,
        TokenKind::RBracket => TokenKind::RBracket,
        TokenKind::Comma => TokenKind::Comma,
        TokenKind::Colon => TokenKind::Colon,
        TokenKind::DotDot => TokenKind::DotDot,
        TokenKind::Plus => TokenKind::Plus,
        TokenKind::Minus => TokenKind::Minus,
        TokenKind::Star => TokenKind::Star,
        TokenKind::Slash => TokenKind::Slash,
        TokenKind::At => TokenKind::At,
        TokenKind::Le => TokenKind::Le,
        TokenKind::Ge => TokenKind::Ge,
        TokenKind::Lt => TokenKind::Lt,
        TokenKind::Gt => TokenKind::Gt,
        TokenKind::EqEq => TokenKind::EqEq,
        TokenKind::Ne => TokenKind::Ne,
        TokenKind::Eq => TokenKind::Eq,
        TokenKind::Number(n) => TokenKind::Number(*n),
        TokenKind::Float(t) => TokenKind::Float(t.clone()),
        TokenKind::Ident(s) => TokenKind::Ident(s.clone()),
    }
}

impl<'a> Parser<'a> {
    /// A parser at the first of the tokens.
    pub fn new(tokens: &'a [Token]) -> (p: Self)
        ensures
            p.tokens == tokens,
            p.pos == 0,
    {
        Parser { tokens, pos: 0 }
    }

    /// The kind of the token at the cursor, if any.
    pub fn peek_kind(&self) -> (r: Option<TokenKind>)
        ensures
            match r {
                Some(k) => peek(self.ts(), self.pos as int) == Some(k@),
                None => peek(self.ts(), self.pos as int) is None,
            },
    {
        if self.pos < self.tokens.len() {
            Some(copy_kind(&self.tokens[self.pos].kind))
        } else {
            None
        }
    }

    /// Whether the token at the cursor has the given kind.
    fn at_kind(&self, k: &TokenKind) -> (r: bool)
        ensures
            r == (peek(self.ts(), self.pos as int) == Some(k@)),
    {
        if self.pos < self.tokens.len() {
            same_kind(&self.tokens[self.pos].kind, k)
        } else {
            false
        }
    }

    /// Moves the cursor one token on.
    pub fn advance(&mut self)
        requires
            old(self).pos < usize::MAX,
        ensures
            final(self).tokens == old(self).tokens,
            final(self).pos == old(self).pos + 1,
    {
        self.pos = self.pos + 1;
    }

    /// The span of the token at the cursor, or `1:1` past the end.
    pub fn current_span(&self) -> (s: Span)
        ensures
            s == span_at(self.ts(), self.pos as int),
    {
        if self.pos < self.tokens.len() {
            self.tokens[self.pos].span
        } else {
            Span::new(0, 1, 1)
        }
    }

    /// Whether the cursor is past the last token.
    pub fn is_eof(&self) -> (b: bool)
        ensures
            b == (self.pos >= self.tokens@.len()),
    {
        self.pos >= self.tokens.len()
    }

    /// The error `expected <what>, got ...` at the cursor.
    fn expected_err(&self, what: &str) -> (e: ParseError)
        ensures
            e@ == expected_error(what@, self.ts(), self.pos as int),
    {
        let span = self.current_span();
        if self.pos < self.tokens.len() {
            let d = self.tokens[self.pos].kind.debug_text();
            ParseError::new(concat4("expected ", what, ", got ", d.as_str()), span)
        } else {
            ParseError::new(concat3("expected ", what, ", got end of input"), span)
        }
    }

    /// Consumes a token of the given kind.
    pub fn expect_token(&mut self, expected: TokenKind) -> (r: Result<(), ParseError>)
        requires
            old(self).wf(),
        ensures
            ran(*old(self), *final(self)),
            moved(*old(self), *final(self), r),
            r is Err ==> final(self).pos == old(self).pos,
            lift(r, final(self).pos) == sp_expect_token(
                old(self).ts(),
                old(self).pos as int,
                expected@,
            ),
    {
        if self.at_kind(&expected) {
            self.pos = self.pos + 1;
            Ok(())
        } else {
            let d = expected.debug_text();
            Err(self.expected_err(d.as_str()))
        }
    }

    /// Consumes an identifier and gives its name.
    pub fn expect_ident(&mut self) -> (r: Result<String, ParseError>)
        requires
            old(self).wf(),
        ensures
            ran(*old(self), *final(self)),
            moved(*old(self), *final(self), r),
            r is Err ==> final(self).pos == old(self).pos,
            lift(r, final(self).pos) == sp_expect_ident(old(self).ts(), old(self).pos as int),
    {
        if self.pos < self.tokens.len() {
            match &self.tokens[self.pos].kind {
                TokenKind::Ident(name) => {
                    let name = name.clone();
                    self.pos = self.pos + 1;
                    return Ok(name);
                },
                _ => {},
            }
        }
        Err(self.expected_err("identifier"))
    }

    /// Consumes the identifier `expected`.
    pub fn expect_ident_matching(&mut self, expected: &str) -> (r: Result<(), ParseError>)
        requires
            old(self).wf(),
        ensures
            ran(*old(self), *final(self)),
            moved(*old(self), *final(self), r),
            r is Err ==> final(self).pos == old(self).pos + if (peek(
                old(self).ts(),
                old(self).pos as int,
            ) matches Some(SpecTokenKind::Ident(_))) {
                1int
            } else {
                0int
            },
            lift(r, final(self).pos) == sp_expect_ident_matching(
                old(self).ts(),
                old(self).pos as int,
                expected@,
            ),
    {
        let span = self.current_span();
        let name = self.expect_ident()?;
        if !same_text(name.as_str(), expected) {
            let msg = concat4("expected '", expected, "', got '", name.as_str());
            return Err(ParseError::new(concat2(msg.as_str(), "'"), span));
        }
        Ok(())
    }

    /// Consumes an integer literal and gives its value.
    pub fn expect_number(&mut self) -> (r: Result<i64, ParseError>)
        requires
            old(self).wf(),
        ensures
            ran(*old(self), *final(self)),
            moved(*old(self), *final(self), r),
            r is Err ==> final(self).pos == old(self).pos,
            lift(r, final(self).pos) == sp_expect_number(old(self).ts(), old(self).pos as int),
    {
        if self.pos < self.tokens.len() {
            match &self.tokens[self.pos].kind {
                TokenKind::Number(n) => {
                    let n = *n;
                    self.pos = self.pos + 1;
                    return Ok(n);
                },
                _ => {},
            }
        }
        Err(self.expected_err("number"))
    }
}

// ---------------------------------------------------------------------------
// Models
// ---------------------------------------------------------------------------

/// The optional `@model lp` / `@model cp` tag at the start.
pub open spec fn sp_model_tag(ts: Seq<SpecToken>) -> SpecParse<Option<ModelType>> {
    if peek(ts, 0) == Some(SpecTokenKind::At) {
        match sp_expect_ident_matching(ts, 1, "model"@) {
            Err(e) => Err(e),
            Ok((_, p1)) => match sp_expect_ident(ts, p1) {
                Err(e) => Err(e),
                Ok((t, p2)) => if t == "lp"@ {
                    Ok((Some(ModelType::Lp), p2))
                } else if t == "cp"@ {
                    Ok((Some(ModelType::Cp), p2))
                } else {
                    Err(
                        err_at(
                            "unknown model type '"@ + t + "', expected 'lp' or 'cp'"@,
                            span_at(ts, p1),
                        ),
                    )
                },
            },
        }
    } else {
        Ok((None, 0))
    }
}

/// The error for a section at `pos` of a model of type `mt` whose first CP-only
/// construct is `issue`: only an `lp` model refuses one.
pub open spec fn lp_refusal(
    mt: Option<ModelType>,
    issue: Option<Seq<char>>,
    ts: Seq<SpecToken>,
    pos: int,
) -> Option<SpecParseError> {
    match (mt, issue) {
        (Some(ModelType::Lp), Some(w)) => Some(err_at(cp_only_message(w), span_at(ts, pos))),
        _ => None,
    }
}

/// One section, or the objective, at `pos` (which holds a token) into `m`: a
/// later section of a kind replaces an earlier one. In an `lp` model a section
/// holding a CP-only construct is refused, at the section's first token.
pub open spec fn sp_model_section(ts: Seq<SpecToken>, pos: int, m: SpecJiaModel) -> SpecParse<
    SpecJiaModel,
> {
    match peek(ts, pos) {
        Some(SpecTokenKind::Ident(kw)) => if kw == "variables"@ {
            match sp_variables_block(ts, pos) {
                Err(e) => Err(e),
                Ok((v, q)) => match lp_refusal(m.model_type, vars_issue(v, 0), ts, pos) {
                    Some(e) => Err(e),
                    None => Ok((SpecJiaModel { variables: v, ..m }, q)),
                },
            }
        } else if kw == "domains"@ {
            match sp_domains_block(ts, pos) {
                Err(e) => Err(e),
                Ok((v, q)) => match lp_refusal(m.model_type, domains_issue(v, 0), ts, pos) {
                    Some(e) => Err(e),
                    None => Ok((SpecJiaModel { domains: v, ..m }, q)),
                },
            }
        } else if kw == "constraints"@ {
            match sp_constraints_block(ts, pos) {
                Err(e) => Err(e),
                Ok((v, q)) => match lp_refusal(m.model_type, constraints_issue(v, 0), ts, pos) {
                    Some(e) => Err(e),
                    None => Ok((SpecJiaModel { constraints: v, ..m }, q)),
                },
            }
        } else if kw == "minimize"@ || kw == "maximize"@ {
            match sp_expr(ts, pos + 1) {
                Err(e) => Err(e),
                Ok((e, q)) => if lp_refusal(m.model_type, expr_issue(e), ts, pos) is Some {
                    Err(lp_refusal(m.model_type, expr_issue(e), ts, pos)->0)
                } else { Ok(
                    (
                        SpecJiaModel {
                            objective: Some(
                                SpecObjective {
                                    direction: if kw == "minimize"@ {
                                        OptDirection::Minimize
                                    } else {
                                        OptDirection::Maximize
                                    },
                                    expr: e,
                                },
                            ),
                            ..m
                        },
                        q,
                    ),
                ) },
            }
        } else {
            Err(
                err_at(
                    "unexpected keyword '"@ + kw + "', expected section or objective"@,
                    span_at(ts, pos),
                ),
            )
        },
        Some(k) => Err(err_at("unexpected token "@ + kind_debug(k), span_at(ts, pos))),
        None => Ok((m, pos)),
    }
}

/// The sections of a model up to the end of the tokens.
pub open spec fn sp_model_sections(ts: Seq<SpecToken>, pos: int, m: SpecJiaModel) -> SpecParse<
    SpecJiaModel,
>
    decreases ts.len() - pos,
{
    if pos >= ts.len() {
        Ok((m, pos))
    } else {
        match sp_model_section(ts, pos, m) {
            Err(e) => Err(e),
            Ok((m2, q)) => if advanced(ts, pos, q) {
                sp_model_sections(ts, q, m2)
            } else {
                Err(stalled(ts))
            },
        }
    }
}

/// A model with a type and a name and nothing else.
pub open spec fn empty_model(model_type: Option<ModelType>, name: Seq<char>) -> SpecJiaModel {
    SpecJiaModel {
        model_type,
        name,
        variables: seq![],
        domains: seq![],
        constraints: seq![],
        objective: None,
    }
}

/// The model that tokens hold, or the first error met while reading it.
pub open spec fn spec_model(ts: Seq<SpecToken>) -> Result<SpecJiaModel, SpecParseError> {
    match sp_model_tag(ts) {
        Err(e) => Err(e),
        Ok((mt, p1)) => match sp_expect_ident_matching(ts, p1, "model"@) {
            Err(e) => Err(e),
            Ok((_, p2)) => match sp_expect_ident(ts, p2) {
                Err(e) => Err(e),
                Ok((name, p3)) => match sp_model_sections(ts, p3, empty_model(mt, name)) {
                    Err(e) => Err(e),
                    Ok((m, _)) => Ok(m),
                },
            },
        },
    }
}

/// A parse result for a model is the model the tokens hold, or the error met.
pub open spec fn model_result(
    r: Result<JiaModel, ParseError>,
    expected: Result<SpecJiaModel, SpecParseError>,
) -> bool {
    match (r, expected) {
        (Ok(m), Ok(m0)) => m@ == m0,
        (Err(e), Err(e0)) => e@ == e0,
        _ => false,
    }
}

/// The error for a CP-only construct met in an `lp` model.
fn lp_error(what: &str, span: Span) -> (e: ParseError)
    ensures
        e@ == err_at(cp_only_message(what@), span),
{
    ParseError::new(concat3("CP construct '", what, "' is not allowed in an lp model"), span)
}

impl<'a> Parser<'a> {
    /// Parses the optional model tag.
    fn parse_model_tag(&mut self) -> (r: Result<Option<ModelType>, ParseError>)
        requires
            old(self).wf(),
            old(self).pos == 0,
        ensures
            ran(*old(self), *final(self)),
            match r {
                Ok(mt) => sp_model_tag(old(self).ts()) == Ok::<
                    (Option<ModelType>, int),
                    SpecParseError,
                >((mt, final(self).pos as int)),
                Err(e) => sp_model_tag(old(self).ts()) == Err::<
                    (Option<ModelType>, int),
                    SpecParseError,
                >(e@),
            },
    {
        if self.at_plain(TokenKind::At) {
            self.pos = self.pos + 1;
            self.expect_ident_matching("model")?;
            let span = self.current_span();
            let tag_name = self.expect_ident()?;
            if same_text(tag_name.as_str(), "lp") {
                Ok(Some(ModelType::Lp))
            } else if same_text(tag_name.as_str(), "cp") {
                Ok(Some(ModelType::Cp))
            } else {
                let msg = concat3(
                    "unknown model type '",
                    tag_name.as_str(),
                    "', expected 'lp' or 'cp'",
                );
                Err(ParseError::new(msg, span))
            }
        } else {
            Ok(None)
        }
    }

    /// Parses one section or the objective into `model`.
    fn parse_model_section(&mut self, model: &mut JiaModel) -> (r: Result<(), ParseError>)
        requires
            old(self).wf(),
            old(self).pos < old(self).tokens@.len(),
        ensures
            ran(*old(self), *final(self)),
            moved(*old(self), *final(self), r),
            match sp_model_section(old(self).ts(), old(self).pos as int, old(model)@) {
                Ok((m, q)) => r is Ok && final(model)@ == m && final(self).pos == q,
                Err(e) => r matches Err(e2) && e2@ == e,
            },
    {
        let kw = match &self.tokens[self.pos].kind {
            TokenKind::Ident(kw) => kw.clone(),
            _ => {
                let d = self.tokens[self.pos].kind.debug_text();
                return Err(
                    ParseError::new(concat2("unexpected token ", d.as_str()), self.current_span()),
                );
            },
        };
        let k = kw.as_str();
        let span = self.current_span();
        let lp = match model.model_type {
            Some(ModelType::Lp) => true,
            _ => false,
        };
        if same_text(k, "variables") {
            let vars = self.parse_variables_block()?;
            if lp {
                if let Some(w) = find_vars_issue(&vars) {
                    return Err(lp_error(w.as_str(), span));
                }
            }
            model.variables = vars;
        } else if same_text(k, "domains") {
            let doms = self.parse_domains_block()?;
            if lp {
                if let Some(w) = find_domains_issue(&doms) {
                    return Err(lp_error(w.as_str(), span));
                }
            }
            model.domains = doms;
        } else if same_text(k, "constraints") {
            let cons = self.parse_constraints_block()?;
            if lp {
                if let Some(w) = find_constraints_issue(&cons) {
                    return Err(lp_error(w.as_str(), span));
                }
            }
            model.constraints = cons;
        } else if same_text(k, "minimize") || same_text(k, "maximize") {
            let direction = if same_text(k, "minimize") {
                OptDirection::Minimize
            } else {
                OptDirection::Maximize
            };
            self.pos = self.pos + 1;
            let expr = self.parse_expr()?;
            if lp {
                if let Some(w) = find_expr_issue(&expr) {
                    return Err(lp_error(w.as_str(), span));
                }
            }
            model.objective = Some(Objective { direction, expr });
        } else {
            let msg = concat3("unexpected keyword '", k, "', expected section or objective");
            return Err(ParseError::new(msg, self.current_span()));
        }
        Ok(())
    }
}

/// Parses a Jia model from its tokens.
pub fn parse_model(tokens: &[Token]) -> (r: Result<JiaModel, ParseError>)
    requires
        tokens@.len() < usize::MAX,
    ensures
        model_result(r, spec_model(tokens_view(tokens@))),
{
    let mut parser = Parser::new(tokens);
    let ghost ts = parser.ts();
    let model_type = parser.parse_model_tag()?;
    parser.expect_ident_matching("model")?;
    let name = parser.expect_ident()?;
    let mut model = JiaModel {
        model_type,
        name,
        variables: Vec::new(),
        domains: Vec::new(),
        constraints: Vec::new(),
        objective: None,
    };
    assert(model@ =~= empty_model(model_type, model.name@)) by {
        assert(crate::ast::views(model.variables@) =~= seq![]);
        assert(crate::ast::views(model.domains@) =~= seq![]);
        assert(crate::ast::views(model.constraints@) =~= seq![]);
    }
    let ghost start = parser.pos;
    let ghost m0 = model@;
    while !parser.is_eof()
        invariant
            parser.wf(),
            parser.tokens == tokens,
            ts == parser.ts(),
            spec_model(ts) == match sp_model_sections(ts, start as int, m0) {
                Err(e) => Err(e),
                Ok((m, _)) => Ok(m),
            },
            sp_model_sections(ts, start as int, m0) == sp_model_sections(
                ts,
                parser.pos as int,
                model@,
            ),
        decreases ts.len() - parser.pos,
    {
        parser.parse_model_section(&mut model)?;
    }
    Ok(model)
}

/// Tokenizes and parses a Jia model: the tokenizer's error, or what
/// [`parse_model`] makes of the tokens.
pub fn parse_model_str(input: &str) -> (r: Result<JiaModel, ParseError>)
    requires
        input.len() < usize::MAX,
    ensures
        match spec_tokenize(input@) {
            Err(e) => r matches Err(x) && x@ == e,
            Ok(ts) => model_result(r, spec_model(ts)),
        },
{
    let tokens = tokenize(input)?;
    parse_model(tokens.as_slice())
}

/// Tokenizes a text and parses an expression at its start.
pub fn parse_expr_str(input: &str) -> (r: Result<Expr, ParseError>)
    requires
        input.len() < usize::MAX,
    ensures
        match spec_tokenize(input@) {
            Err(e) => r matches Err(x) && x@ == e,
            Ok(ts) => match (r, sp_expr(ts, 0)) {
                (Ok(e), Ok((e0, _))) => e@ == e0,
                (Err(e), Err(e0)) => e@ == e0,
                _ => false,
            },
        },
{
    let tokens = tokenize(input)?;
    let mut parser = Parser::new(tokens.as_slice());
    parser.parse_expr()
}


/// An objective that parses has the direction written: `maximize e` gives
/// Maximize and `minimize e` gives Minimize, whatever the model before it.
pub proof fn law_objective_direction(ts: Seq<SpecToken>, pos: int, m: SpecJiaModel)
    ensures
        sp_model_section(ts, pos, m) is Ok && peek(ts, pos) == Some(
            SpecTokenKind::Ident("maximize"@),
        ) ==> sp_model_section(ts, pos, m)->Ok_0.0.objective is Some && sp_model_section(
            ts,
            pos,
            m,
        )->Ok_0.0.objective->Some_0.direction == OptDirection::Maximize,
        sp_model_section(ts, pos, m) is Ok && peek(ts, pos) == Some(
            SpecTokenKind::Ident("minimize"@),
        ) ==> sp_model_section(ts, pos, m)->Ok_0.0.objective is Some && sp_model_section(
            ts,
            pos,
            m,
        )->Ok_0.0.objective->Some_0.direction == OptDirection::Minimize,
{
    reveal_strlit("variables");
    reveal_strlit("domains");
    reveal_strlit("constraints");
    reveal_strlit("minimize");
    reveal_strlit("maximize");
    assert("variables"@.len() == 9);
    assert("domains"@.len() == 7);
    assert("constraints"@.len() == 11);
    assert("minimize"@[1] != "maximize"@[1]);
}

} // verus!
