//! Error types shared by the parsers.
//!
//! A [`ParseError`] carries a human-readable message and a [`Span`] that pinpoints
//! where in the source text (byte offset, line, column) the error was detected.

use vstd::prelude::*;

use crate::text::{concat3, concat4, decimal, usize_text};

verus! {

/// A source location in the input text. `line` and `col` are 1-based.
#[derive(Debug, Clone, Copy, PartialEq, Eq, Structural)]
pub struct Span {
    /// Byte offset from the start of the input.
    pub offset: usize,
    /// 1-based line number.
    pub line: usize,
    /// 1-based column number.
    pub col: usize,
}

impl View for Span {
    type V = Span;

    open spec fn view(&self) -> Span {
        *self
    }
}

/// The text `<line>:<col>` that identifies a span to a reader.
pub open spec fn span_text(s: Span) -> Seq<char> {
    decimal(s.line as nat) + seq![':'] + decimal(s.col as nat)
}

impl Span {
    /// Creates a source span.
    pub fn new(offset: usize, line: usize, col: usize) -> (s: Self)
        ensures
            s == (Span { offset, line, col }),
    {
        Span { offset, line, col }
    }

    /// Renders the span as `<line>:<col>`.
    pub fn to_string(&self) -> (s: String)
        ensures
            s@ == span_text(*self),
    {
        let l = usize_text(self.line);
        let c = usize_text(self.col);
        proof {
            reveal_strlit(":");
        }
        concat3(l.as_str(), ":", c.as_str())
    }
}

/// A parse error: what went wrong and where.
#[derive(Debug, Clone, PartialEq, Eq)]
pub struct ParseError {
    /// What went wrong.
    pub message: String,
    /// Where in the source text it went wrong.
    pub span: Span,
}

/// The mathematical content of a [`ParseError`].
pub struct SpecParseError {
    pub message: Seq<char>,
    pub span: Span,
}

impl View for ParseError {
    type V = SpecParseError;

    open spec fn view(&self) -> SpecParseError {
        SpecParseError { message: self.message@, span: self.span }
    }
}

/// An error with the given message at the given span.
pub open spec fn err_at(message: Seq<char>, span: Span) -> SpecParseError {
    SpecParseError { message, span }
}

/// The text `parse error at <line>:<col>: <message>`.
pub open spec fn error_text(e: SpecParseError) -> Seq<char> {
    "parse error at "@ + span_text(e.span) + ": "@ + e.message
}

impl ParseError {
    /// Creates a parse error.
    pub fn new(message: String, span: Span) -> (e: Self)
        ensures
            e@ == err_at(message@, span),
    {
        ParseError { message, span }
    }

    /// Renders the error as `parse error at <line>:<col>: <message>`.
    pub fn to_string(&self) -> (s: String)
        ensures
            s@ == error_text(self@),
    {
        let at = self.span.to_string();
        let s = concat4("parse error at ", at.as_str(), ": ", self.message.as_str());
        s
    }
}

} // verus!
