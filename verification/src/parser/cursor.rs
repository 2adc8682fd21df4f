//! Parser cursor: a position-tracking view over a token slice, with the
//! primitive steps of the recursive-descent parser and their meaning.

use vstd::prelude::*;

use crate::error::{err_at, ParseError, Span, SpecParseError};
use crate::lexer::{
    is_symbol_like, kind_debug, spans_bounded, tokens_view, SpecToken, SpecTokenKind, Token,
    TokenKind,
};
use crate::text::concat4;

verus! {

/// The outcome of parsing from a position: the value and the position after it,
/// or an error.
pub type SpecParse<T> = Result<(T, int), SpecParseError>;

/// A cursor over a token slice.
pub struct Parser<'a> {
    pub tokens: &'a [Token],
    pub pos: usize,
}

impl<'a> Parser<'a> {
    /// The tokens, as mathematical values.
    pub open spec fn ts(self) -> Seq<SpecToken> {
        tokens_view(self.tokens@)
    }

    /// The position lies within the tokens (of which there are fewer than
    /// `usize::MAX`), and every span leaves room for the position just past it.
    pub open spec fn wf(self) -> bool {
        self.pos <= self.tokens@.len() < usize::MAX && spans_bounded(self.ts())
    }
}

/// A parse step kept the tokens and left a well-formed cursor.
pub open spec fn ran(p0: Parser, p1: Parser) -> bool {
    p1.tokens == p0.tokens && p1.wf()
}

/// A parse step never moves back, and moves forward when it succeeds.
pub open spec fn moved<T>(p0: Parser, p1: Parser, r: Result<T, ParseError>) -> bool {
    &&& p0.pos <= p1.pos
    &&& r is Ok ==> p0.pos < p1.pos
}

/// The meaning of a parse result, given the position reached.
pub open spec fn lift<T: View>(r: Result<T, ParseError>, pos: usize) -> SpecParse<T::V> {
    match r {
        Ok(v) => Ok((v@, pos as int)),
        Err(e) => Err(e@),
    }
}

/// The meaning of a parse result that is a vector.
pub open spec fn lift_seq<T: View>(r: Result<Vec<T>, ParseError>, pos: usize) -> SpecParse<
    Seq<T::V>,
> {
    match r {
        Ok(v) => Ok((v@.map_values(|x: T| x@), pos as int)),
        Err(e) => Err(e@),
    }
}

/// Prepends values to the outcome of parsing a list.
pub open spec fn prepend<T>(acc: Seq<T>, r: SpecParse<Seq<T>>) -> SpecParse<Seq<T>> {
    match r {
        Ok((xs, p)) => Ok((acc + xs, p)),
        Err(e) => Err(e),
    }
}

/// Prepending a value after a prefix is prepending the longer prefix.
pub proof fn lemma_prepend_push<T>(acc: Seq<T>, x: T, r: SpecParse<Seq<T>>)
    ensures
        prepend(acc, prepend(seq![x], r)) == prepend(acc.push(x), r),
{
    match r {
        Ok((xs, q)) => {
            assert(acc + (seq![x] + xs) =~= acc.push(x) + xs);
        },
        Err(_) => {},
    }
}

/// Prepending nothing changes nothing.
pub proof fn lemma_prepend_empty<T>(acc: Seq<T>, p: int)
    ensures
        prepend(acc, Ok((seq![], p))) == Ok::<(Seq<T>, int), SpecParseError>((acc, p)),
{
    assert(acc + seq![] =~= acc);
}

/// Whether a nested parse that ended at `q` moved past `pos` and stayed within
/// the tokens (every parse step that succeeds does).
pub open spec fn advanced(ts: Seq<SpecToken>, pos: int, q: int) -> bool {
    pos < q <= ts.len()
}

/// The span just past the last token (or `1:1` for no tokens).
pub open spec fn eof_span(ts: Seq<SpecToken>) -> Span {
    if ts.len() > 0 {
        let s = ts.last().span;
        Span { offset: (s.offset + 1) as usize, line: s.line, col: (s.col + 1) as usize }
    } else {
        Span { offset: 0, line: 1, col: 1 }
    }
}

/// The span of the token at `pos`, or the end-of-input span.
pub open spec fn current_span(ts: Seq<SpecToken>, pos: int) -> Span {
    if 0 <= pos < ts.len() {
        ts[pos].span
    } else {
        eof_span(ts)
    }
}

/// The error for running out of tokens.
pub open spec fn end_of_input(ts: Seq<SpecToken>) -> SpecParseError {
    err_at("unexpected end of input"@, eof_span(ts))
}

/// `expected <what>, got <token kind>` at the token.
pub open spec fn expected_got(what: Seq<char>, t: SpecToken) -> SpecParseError {
    err_at("expected "@ + what + ", got "@ + kind_debug(t.kind), t.span)
}

pub open spec fn peek_kind(ts: Seq<SpecToken>, pos: int) -> Option<SpecTokenKind> {
    if 0 <= pos < ts.len() {
        Some(ts[pos].kind)
    } else {
        None
    }
}

pub open spec fn sp_advance(ts: Seq<SpecToken>, pos: int) -> SpecParse<SpecToken> {
    if 0 <= pos < ts.len() {
        Ok((ts[pos], pos + 1))
    } else {
        Err(end_of_input(ts))
    }
}

pub open spec fn sp_expect_lparen(ts: Seq<SpecToken>, pos: int) -> SpecParse<Span> {
    match sp_advance(ts, pos) {
        Err(e) => Err(e),
        Ok((t, p)) => if t.kind is LParen {
            Ok((t.span, p))
        } else {
            Err(expected_got("'('"@, t))
        },
    }
}

pub open spec fn sp_expect_rparen(ts: Seq<SpecToken>, pos: int) -> SpecParse<Span> {
    match sp_advance(ts, pos) {
        Err(e) => Err(e),
        Ok((t, p)) => if t.kind is RParen {
            Ok((t.span, p))
        } else {
            Err(expected_got("')'"@, t))
        },
    }
}

pub open spec fn sp_expect_symbol(ts: Seq<SpecToken>, pos: int) -> SpecParse<Seq<char>> {
    match sp_advance(ts, pos) {
        Err(e) => Err(e),
        Ok((t, p)) => match t.kind {
            SpecTokenKind::Symbol(s) => Ok((s, p)),
            _ => Err(expected_got("symbol"@, t)),
        },
    }
}

pub open spec fn sp_expect_symbol_eq(ts: Seq<SpecToken>, pos: int, lit: Seq<char>) -> SpecParse<
    (),
> {
    match sp_advance(ts, pos) {
        Err(e) => Err(e),
        Ok((t, p)) => if is_symbol_like(t.kind, lit) {
            Ok(((), p))
        } else {
            Err(expected_got("'"@ + lit + "'"@, t))
        },
    }
}

pub open spec fn sp_expect_keyword(ts: Seq<SpecToken>, pos: int) -> SpecParse<Seq<char>> {
    match sp_advance(ts, pos) {
        Err(e) => Err(e),
        Ok((t, p)) => match t.kind {
            SpecTokenKind::Keyword(s) => Ok((s, p)),
            _ => Err(expected_got("keyword"@, t)),
        },
    }
}

pub open spec fn sp_expect_variable(ts: Seq<SpecToken>, pos: int) -> SpecParse<Seq<char>> {
    match sp_advance(ts, pos) {
        Err(e) => Err(e),
        Ok((t, p)) => match t.kind {
            SpecTokenKind::Variable(s) => Ok((s, p)),
            _ => Err(expected_got("variable"@, t)),
        },
    }
}

pub open spec fn at_lparen(ts: Seq<SpecToken>, pos: int) -> bool {
    0 <= pos < ts.len() && ts[pos].kind is LParen
}

pub open spec fn at_rparen(ts: Seq<SpecToken>, pos: int) -> bool {
    0 <= pos < ts.len() && ts[pos].kind is RParen
}

pub open spec fn at_symbol(ts: Seq<SpecToken>, pos: int, s: Seq<char>) -> bool {
    0 <= pos < ts.len() && is_symbol_like(ts[pos].kind, s)
}

pub open spec fn at_number(ts: Seq<SpecToken>, pos: int) -> bool {
    0 <= pos < ts.len() && ts[pos].kind is Number
}

pub open spec fn at_keyword_any(ts: Seq<SpecToken>, pos: int) -> bool {
    0 <= pos < ts.len() && ts[pos].kind is Keyword
}

/// Builds the error `expected <what>, got <token kind>` at the token.
pub fn expected_got_error(what: &str, tok: &Token) -> (e: ParseError)
    ensures
        e@ == expected_got(what@, tok@),
{
    let d = tok.kind.debug_text();
    ParseError::new(concat4("expected ", what, ", got ", d.as_str()), tok.span)
}

impl<'a> Parser<'a> {
    /// A cursor at the first token.
    pub fn new(tokens: &'a [Token]) -> (p: Self)
        requires
            tokens@.len() < usize::MAX,
            spans_bounded(tokens_view(tokens@)),
        ensures
            p.tokens == tokens,
            p.pos == 0,
            p.wf(),
    {
        Parser { tokens, pos: 0 }
    }

    /// The token at the cursor, if any.
    pub fn peek(&self) -> (r: Option<&'a Token>)
        requires
            self.wf(),
        ensures
            match r {
                Some(t) => self.pos < self.tokens@.len() && *t == self.tokens@[self.pos as int],
                None => self.pos >= self.tokens@.len(),
            },
    {
        if self.pos < self.tokens.len() {
            Some(&self.tokens[self.pos])
        } else {
            None
        }
    }

    /// The span just past the last token.
    pub fn eof_span(&self) -> (s: Span)
        requires
            self.wf(),
        ensures
            s == eof_span(self.ts()),
    {
        if self.tokens.len() > 0 {
            let last = &self.tokens[self.tokens.len() - 1];
            assert(self.ts().last() == last@);
            Span::new(last.span.offset + 1, last.span.line, last.span.col + 1)
        } else {
            Span::new(0, 1, 1)
        }
    }

    /// The span of the token at the cursor, or the end-of-input span.
    pub fn current_span(&self) -> (s: Span)
        requires
            self.wf(),
        ensures
            s == current_span(self.ts(), self.pos as int),
    {
        match self.peek() {
            Some(t) => t.span,
            None => self.eof_span(),
        }
    }

    /// Consumes the token at the cursor.
    pub fn advance(&mut self) -> (r: Result<&'a Token, ParseError>)
        requires
            old(self).wf(),
        ensures
            ran(*old(self), *final(self)),
            moved(*old(self), *final(self), r),
            final(self).pos as int == if old(self).pos < old(self).tokens@.len() {
                old(self).pos + 1
            } else {
                old(self).pos as int
            },
            lift(r, final(self).pos) == sp_advance(old(self).ts(), old(self).pos as int),
    {
        if self.pos < self.tokens.len() {
            let t = &self.tokens[self.pos];
            self.pos = self.pos + 1;
            Ok(t)
        } else {
            let span = self.eof_span();
            Err(ParseError::new(String::from_str("unexpected end of input"), span))
        }
    }

    /// Consumes the token at the cursor, which must be `(`, and gives its span.
    pub fn expect_lparen(&mut self) -> (r: Result<Span, ParseError>)
        requires
            old(self).wf(),
        ensures
            ran(*old(self), *final(self)),
            moved(*old(self), *final(self), r),
            final(self).pos as int == if old(self).pos < old(self).tokens@.len() {
                old(self).pos + 1
            } else {
                old(self).pos as int
            },
            lift(r, final(self).pos) == sp_expect_lparen(old(self).ts(), old(self).pos as int),
    {
        let tok = self.advance()?;
        match tok.kind {
            TokenKind::LParen => Ok(tok.span),
            _ => Err(expected_got_error("'('", tok)),
        }
    }

    /// Consumes the token at the cursor, which must be `)`, and gives its span.
    pub fn expect_rparen(&mut self) -> (r: Result<Span, ParseError>)
        requires
            old(self).wf(),
        ensures
            ran(*old(self), *final(self)),
            moved(*old(self), *final(self), r),
            final(self).pos as int == if old(self).pos < old(self).tokens@.len() {
                old(self).pos + 1
            } else {
                old(self).pos as int
            },
            lift(r, final(self).pos) == sp_expect_rparen(old(self).ts(), old(self).pos as int),
    {
        let tok = self.advance()?;
        match tok.kind {
            TokenKind::RParen => Ok(tok.span),
            _ => Err(expected_got_error("')'", tok)),
        }
    }

    /// Consumes the token at the cursor, which must be a symbol, and gives its text.
    pub fn expect_symbol(&mut self) -> (r: Result<String, ParseError>)
        requires
            old(self).wf(),
        ensures
            ran(*old(self), *final(self)),
            moved(*old(self), *final(self), r),
            final(self).pos as int == if old(self).pos < old(self).tokens@.len() {
                old(self).pos + 1
            } else {
                old(self).pos as int
            },
            lift(r, final(self).pos) == sp_expect_symbol(old(self).ts(), old(self).pos as int),
    {
        let tok = self.advance()?;
        match &tok.kind {
            TokenKind::Symbol(s) => Ok(s.clone()),
            _ => Err(expected_got_error("symbol", tok)),
        }
    }

    /// Consumes the token at the cursor, which must be the symbol `expected` (any ASCII case).
    pub fn expect_symbol_eq(&mut self, expected: &str) -> (r: Result<(), ParseError>)
        requires
            old(self).wf(),
        ensures
            ran(*old(self), *final(self)),
            moved(*old(self), *final(self), r),
            final(self).pos as int == if old(self).pos < old(self).tokens@.len() {
                old(self).pos + 1
            } else {
                old(self).pos as int
            },
            lift(r, final(self).pos) == sp_expect_symbol_eq(
                old(self).ts(),
                old(self).pos as int,
                expected@,
            ),
    {
        let tok = self.advance()?;
        if tok.symbol_eq(expected) {
            Ok(())
        } else {
            let d = tok.kind.debug_text();
            let what = crate::text::concat3("'", expected, "'");
            Err(ParseError::new(concat4("expected ", what.as_str(), ", got ", d.as_str()), tok.span))
        }
    }

    /// Consumes the token at the cursor, which must be a keyword, and gives its text.
    pub fn expect_keyword(&mut self) -> (r: Result<String, ParseError>)
        requires
            old(self).wf(),
        ensures
            ran(*old(self), *final(self)),
            moved(*old(self), *final(self), r),
            final(self).pos as int == if old(self).pos < old(self).tokens@.len() {
                old(self).pos + 1
            } else {
                old(self).pos as int
            },
            lift(r, final(self).pos) == sp_expect_keyword(old(self).ts(), old(self).pos as int),
    {
        let tok = self.advance()?;
        match &tok.kind {
            TokenKind::Keyword(s) => Ok(s.clone()),
            _ => Err(expected_got_error("keyword", tok)),
        }
    }

    /// Consumes the token at the cursor, which must be a variable, and gives its text.
    pub fn expect_variable(&mut self) -> (r: Result<String, ParseError>)
        requires
            old(self).wf(),
        ensures
            ran(*old(self), *final(self)),
            moved(*old(self), *final(self), r),
            final(self).pos as int == if old(self).pos < old(self).tokens@.len() {
                old(self).pos + 1
            } else {
                old(self).pos as int
            },
            lift(r, final(self).pos) == sp_expect_variable(old(self).ts(), old(self).pos as int),
    {
        let tok = self.advance()?;
        match &tok.kind {
            TokenKind::Variable(s) => Ok(s.clone()),
            _ => Err(expected_got_error("variable", tok)),
        }
    }

    pub fn at_lparen(&self) -> (b: bool)
        requires
            self.wf(),
        ensures
            b == at_lparen(self.ts(), self.pos as int),
    {
        match self.peek() {
            Some(t) => match t.kind {
                TokenKind::LParen => true,
                _ => false,
            },
            None => false,
        }
    }

    pub fn at_rparen(&self) -> (b: bool)
        requires
            self.wf(),
        ensures
            b == at_rparen(self.ts(), self.pos as int),
    {
        match self.peek() {
            Some(t) => match t.kind {
                TokenKind::RParen => true,
                _ => false,
            },
            None => false,
        }
    }

    pub fn at_symbol(&self, s: &str) -> (b: bool)
        requires
            self.wf(),
        ensures
            b == at_symbol(self.ts(), self.pos as int, s@),
    {
        match self.peek() {
            Some(t) => t.symbol_eq(s),
            None => false,
        }
    }

    pub fn at_number(&self) -> (b: bool)
        requires
            self.wf(),
        ensures
            b == at_number(self.ts(), self.pos as int),
    {
        match self.peek() {
            Some(t) => match t.kind {
                TokenKind::Number(_) => true,
                _ => false,
            },
            None => false,
        }
    }

    pub fn at_keyword_any(&self) -> (b: bool)
        requires
            self.wf(),
        ensures
            b == at_keyword_any(self.ts(), self.pos as int),
    {
        match self.peek() {
            Some(t) => match t.kind {
                TokenKind::Keyword(_) => true,
                _ => false,
            },
            None => false,
        }
    }
}

} // verus!
