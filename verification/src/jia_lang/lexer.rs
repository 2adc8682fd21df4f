//! Tokenizer for the Jia modelling language.
//!
//! Token conventions:
//! - `//` starts a line comment, which is skipped entirely
//! - two-character operators: `<=`, `>=`, `==`, `!=`, `..`
//! - identifiers are case-sensitive
//! - `@model` is the token `At` followed by `Ident("model")`
//! - numbers: an integer (`42`, which must fit in an `i64`) or a real
//!   (`3.14`, kept as the shortest text of its value: `2.50` as `2.5`)

use vstd::prelude::*;
use vstd::utf8::*;

use crate::error::{err_at, ParseError, Span, SpecParseError};
use crate::lexer::{
    byte_run, byte_text, is_alpha, is_digit, is_ws, lemma_line_bounds, lemma_line_end,
    lemma_no_newlines, lemma_step_over, lex_at, line_end, line_start, newlines, scan_line, span_at,
};
use crate::text::{
    concat2, concat3, decimal_debug, decimal_debug_text, decimal_display, decimal_display_text,
    i64_text, signed_decimal, str_debug, str_debug_text, string_from_chars,
};

verus! {

/// The kind of a Jia token.
#[derive(Debug, Clone, PartialEq)]
pub enum TokenKind {
    /// `(`
    LParen,
    /// `)`
    RParen,
    /// `{`
    LBrace,
    /// `}`
    RBrace,
    /// `[`
    LBracket,
    /// `]`
    RBracket,
    /// `,`
    Comma,
    /// `:`
    Colon,
    /// `..`
    DotDot,
    /// `+`
    Plus,
    /// `-`
    Minus,
    /// `*`
    Star,
    /// `/`
    Slash,
    /// `@`
    At,
    /// `<=`
    Le,
    /// `>=`
    Ge,
    /// `<`
    Lt,
    /// `>`
    Gt,
    /// `==`
    EqEq,
    /// `!=`
    Ne,
    /// `=`
    Eq,
    /// An integer literal.
    Number(i64),
    /// A real literal (digits, a `.`, digits), by the shortest text of its
    /// value (`2.50` as `2.5`, `3.0` as `3`).
    Float(String),
    /// An identifier or keyword.
    Ident(String),
}

/// A token with its position in the source text.
#[derive(Debug, Clone, PartialEq)]
pub struct Token {
    /// What kind of token this is.
    pub kind: TokenKind,
    /// Where in the source text this token appears.
    pub span: Span,
}

/// The mathematical content of a [`TokenKind`].
pub enum SpecTokenKind {
    LParen,
    RParen,
    LBrace,
    RBrace,
    LBracket,
    RBracket,
    Comma,
    Colon,
    DotDot,
    Plus,
    Minus,
    Star,
    Slash,
    At,
    Le,
    Ge,
    Lt,
    Gt,
    EqEq,
    Ne,
    Eq,
    Number(i64),
    Float(Seq<char>),
    Ident(Seq<char>),
}

/// The mathematical content of a [`Token`].
pub struct SpecToken {
    pub kind: SpecTokenKind,
    pub span: Span,
}

impl View for TokenKind {
    type V = SpecTokenKind;

    open spec fn view(&self) -> SpecTokenKind {
        match self {
            TokenKind::LParen => SpecTokenKind::LParen,
            TokenKind::RParen => SpecTokenKind::RParen,
            TokenKind::LBrace => SpecTokenKind::LBrace,
            TokenKind::RBrace => SpecTokenKind::RBrace,
            TokenKind::LBracket => SpecTokenKind::LBracket,
            TokenKind::RBracket => SpecTokenKind::RBracket,
            TokenKind::Comma => SpecTokenKind::Comma,
            TokenKind::Colon => SpecTokenKind::Colon,
            TokenKind::DotDot => SpecTokenKind::DotDot,
            TokenKind::Plus => SpecTokenKind::Plus,
            TokenKind::Minus => SpecTokenKind::Minus,
            TokenKind::Star => SpecTokenKind::Star,
            TokenKind::Slash => SpecTokenKind::Slash,
            TokenKind::At => SpecTokenKind::At,
            TokenKind::Le => SpecTokenKind::Le,
            TokenKind::Ge => SpecTokenKind::Ge,
            TokenKind::Lt => SpecTokenKind::Lt,
            TokenKind::Gt => SpecTokenKind::Gt,
            TokenKind::EqEq => SpecTokenKind::EqEq,
            TokenKind::Ne => SpecTokenKind::Ne,
            TokenKind::Eq => SpecTokenKind::Eq,
            TokenKind::Number(n) => SpecTokenKind::Number(*n),
            TokenKind::Float(t) => SpecTokenKind::Float(t@),
            TokenKind::Ident(s) => SpecTokenKind::Ident(s@),
        }
    }
}

impl View for Token {
    type V = SpecToken;

    open spec fn view(&self) -> SpecToken {
        SpecToken { kind: self.kind@, span: self.span }
    }
}

/// The views of a sequence of tokens.
pub open spec fn tokens_view(ts: Seq<Token>) -> Seq<SpecToken> {
    ts.map_values(|t: Token| t@)
}

/// The debugging text of a token kind, as `{:?}` shows it: the variant's name,
/// with its payload in parentheses (`Ident("x")`, `Number(3)`, `Float(2.5)`).
pub open spec fn kind_debug(k: SpecTokenKind) -> Seq<char> {
    match k {
        SpecTokenKind::LParen => "LParen"@,
        SpecTokenKind::RParen => "RParen"@,
        SpecTokenKind::LBrace => "LBrace"@,
        SpecTokenKind::RBrace => "RBrace"@,
        SpecTokenKind::LBracket => "LBracket"@,
        SpecTokenKind::RBracket => "RBracket"@,
        SpecTokenKind::Comma => "Comma"@,
        SpecTokenKind::Colon => "Colon"@,
        SpecTokenKind::DotDot => "DotDot"@,
        SpecTokenKind::Plus => "Plus"@,
        SpecTokenKind::Minus => "Minus"@,
        SpecTokenKind::Star => "Star"@,
        SpecTokenKind::Slash => "Slash"@,
        SpecTokenKind::At => "At"@,
        SpecTokenKind::Le => "Le"@,
        SpecTokenKind::Ge => "Ge"@,
        SpecTokenKind::Lt => "Lt"@,
        SpecTokenKind::Gt => "Gt"@,
        SpecTokenKind::EqEq => "EqEq"@,
        SpecTokenKind::Ne => "Ne"@,
        SpecTokenKind::Eq => "Eq"@,
        SpecTokenKind::Number(n) => "Number("@ + signed_decimal(n as int) + ")"@,
        SpecTokenKind::Float(t) => "Float("@ + decimal_debug(t) + ")"@,
        SpecTokenKind::Ident(s) => "Ident("@ + str_debug_text(s) + ")"@,
    }
}

impl TokenKind {
    /// The debugging text of this token kind (see [`kind_debug`]).
    pub fn debug_text(&self) -> (s: String)
        ensures
            s@ == kind_debug(self@),
    {
        match self {
            TokenKind::LParen => String::from_str("LParen"),
            TokenKind::RParen => String::from_str("RParen"),
            TokenKind::LBrace => String::from_str("LBrace"),
            TokenKind::RBrace => String::from_str("RBrace"),
            TokenKind::LBracket => String::from_str("LBracket"),
            TokenKind::RBracket => String::from_str("RBracket"),
            TokenKind::Comma => String::from_str("Comma"),
            TokenKind::Colon => String::from_str("Colon"),
            TokenKind::DotDot => String::from_str("DotDot"),
            TokenKind::Plus => String::from_str("Plus"),
            TokenKind::Minus => String::from_str("Minus"),
            TokenKind::Star => String::from_str("Star"),
            TokenKind::Slash => String::from_str("Slash"),
            TokenKind::At => String::from_str("At"),
            TokenKind::Le => String::from_str("Le"),
            TokenKind::Ge => String::from_str("Ge"),
            TokenKind::Lt => String::from_str("Lt"),
            TokenKind::Gt => String::from_str("Gt"),
            TokenKind::EqEq => String::from_str("EqEq"),
            TokenKind::Ne => String::from_str("Ne"),
            TokenKind::Eq => String::from_str("Eq"),
            TokenKind::Number(n) => {
                let d = i64_text(*n);
                concat3("Number(", d.as_str(), ")")
            },
            TokenKind::Float(t) => {
                let d = decimal_debug_text(t.as_str());
                concat3("Float(", d.as_str(), ")")
            },
            TokenKind::Ident(s) => {
                let d = str_debug(s.as_str());
                concat3("Ident(", d.as_str(), ")")
            },
        }
    }
}

// ---------------------------------------------------------------------------
// Scanning
// ---------------------------------------------------------------------------

/// Bytes that can continue an identifier: letters, digits and `_`.
pub open spec fn is_ident_char(b: u8) -> bool {
    is_alpha(b) || is_digit(b) || b == 95
}

/// The end of the run of identifier bytes that starts at `i`.
pub open spec fn ident_end(bs: Seq<u8>, i: int) -> int
    decreases bs.len() - i,
{
    if i < 0 || i >= bs.len() || !is_ident_char(bs[i]) {
        i
    } else {
        ident_end(bs, i + 1)
    }
}

/// The end of the run of digits that starts at `i`.
pub open spec fn digits_end(bs: Seq<u8>, i: int) -> int
    decreases bs.len() - i,
{
    if i < 0 || i >= bs.len() || !is_digit(bs[i]) {
        i
    } else {
        digits_end(bs, i + 1)
    }
}

/// The value of a run of decimal digits.
pub open spec fn digits_value(ds: Seq<u8>) -> nat
    decreases ds.len(),
{
    if ds.len() == 0 {
        0
    } else {
        digits_value(ds.drop_last()) * 10 + (ds.last() - 48) as nat
    }
}

/// The token kind of a two-byte operator.
pub open spec fn two_byte_op(b: u8, next: u8) -> Option<SpecTokenKind> {
    if b == 60 && next == 61 {
        Some(SpecTokenKind::Le)
    } else if b == 62 && next == 61 {
        Some(SpecTokenKind::Ge)
    } else if b == 61 && next == 61 {
        Some(SpecTokenKind::EqEq)
    } else if b == 33 && next == 61 {
        Some(SpecTokenKind::Ne)
    } else if b == 46 && next == 46 {
        Some(SpecTokenKind::DotDot)
    } else {
        None
    }
}

/// The token kind of a one-byte token.
pub open spec fn one_byte_op(b: u8) -> Option<SpecTokenKind> {
    if b == 40 {
        Some(SpecTokenKind::LParen)
    } else if b == 41 {
        Some(SpecTokenKind::RParen)
    } else if b == 123 {
        Some(SpecTokenKind::LBrace)
    } else if b == 125 {
        Some(SpecTokenKind::RBrace)
    } else if b == 91 {
        Some(SpecTokenKind::LBracket)
    } else if b == 93 {
        Some(SpecTokenKind::RBracket)
    } else if b == 44 {
        Some(SpecTokenKind::Comma)
    } else if b == 58 {
        Some(SpecTokenKind::Colon)
    } else if b == 43 {
        Some(SpecTokenKind::Plus)
    } else if b == 45 {
        Some(SpecTokenKind::Minus)
    } else if b == 42 {
        Some(SpecTokenKind::Star)
    } else if b == 47 {
        Some(SpecTokenKind::Slash)
    } else if b == 64 {
        Some(SpecTokenKind::At)
    } else if b == 60 {
        Some(SpecTokenKind::Lt)
    } else if b == 62 {
        Some(SpecTokenKind::Gt)
    } else if b == 61 {
        Some(SpecTokenKind::Eq)
    } else {
        None
    }
}

/// One step of the tokenizer.
pub enum LexStep {
    /// Skip to the given position, line and column.
    Skip(int, int, int),
    /// Emit a token and go on at the given position, line and column.
    Emit(SpecToken, int, int, int),
    /// Stop with an error.
    Fail(SpecParseError),
}

/// What the tokenizer does at position `pos` (which holds a byte) on the given
/// line and column. A comment does not move the column.
pub open spec fn lex_step(bs: Seq<u8>, pos: int, line: int, col: int) -> LexStep {
    let b = bs[pos];
    let span = span_at(pos, line, col);
    if is_ws(b) {
        if b == 10 {
            LexStep::Skip(pos + 1, line + 1, 1)
        } else {
            LexStep::Skip(pos + 1, line, col + 1)
        }
    } else if b == 47 && pos + 1 < bs.len() && bs[pos + 1] == 47 {
        LexStep::Skip(line_end(bs, pos), line, col)
    } else if pos + 1 < bs.len() && two_byte_op(b, bs[pos + 1]) is Some {
        LexStep::Emit(
            SpecToken { kind: two_byte_op(b, bs[pos + 1])->Some_0, span },
            pos + 2,
            line,
            col + 2,
        )
    } else if one_byte_op(b) is Some {
        LexStep::Emit(SpecToken { kind: one_byte_op(b)->Some_0, span }, pos + 1, line, col + 1)
    } else if is_digit(b) {
        let e = digits_end(bs, pos);
        if e + 1 < bs.len() && bs[e] == 46 && is_digit(bs[e + 1]) {
            let end = digits_end(bs, e + 1);
            LexStep::Emit(
                SpecToken {
                    kind: SpecTokenKind::Float(decimal_display(byte_text(bs.subrange(pos, end)))),
                    span,
                },
                end,
                line,
                col + (end - pos),
            )
        } else {
            let ds = bs.subrange(pos, e);
            if digits_value(ds) <= i64::MAX {
                LexStep::Emit(
                    SpecToken { kind: SpecTokenKind::Number(digits_value(ds) as i64), span },
                    e,
                    line,
                    col + (e - pos),
                )
            } else {
                LexStep::Fail(err_at("invalid number literal: "@ + byte_text(ds), span))
            }
        }
    } else if is_alpha(b) || b == 95 {
        let end = ident_end(bs, pos);
        LexStep::Emit(
            SpecToken { kind: SpecTokenKind::Ident(byte_text(bs.subrange(pos, end))), span },
            end,
            line,
            col + (end - pos),
        )
    } else {
        LexStep::Fail(err_at("unexpected character: '"@ + seq![b as char] + "'"@, span))
    }
}

/// The tokens of `bs` from position `pos` on, starting on the given line and
/// column; or the first error.
pub open spec fn lex_from(bs: Seq<u8>, pos: int, line: int, col: int) -> Result<
    Seq<SpecToken>,
    SpecParseError,
>
    decreases bs.len() - pos,
{
    if pos < 0 || pos >= bs.len() {
        Ok(seq![])
    } else {
        match lex_step(bs, pos, line, col) {
            LexStep::Skip(p, l, c) => {
                if pos < p <= bs.len() {
                    lex_from(bs, p, l, c)
                } else {
                    Ok(seq![])
                }
            },
            LexStep::Emit(t, p, l, c) => {
                if pos < p <= bs.len() {
                    match lex_from(bs, p, l, c) {
                        Ok(ts) => Ok(seq![t] + ts),
                        Err(e) => Err(e),
                    }
                } else {
                    Ok(seq![])
                }
            },
            LexStep::Fail(e) => Err(e),
        }
    }
}

/// The tokens of a Jia text, or the first error met while reading it.
pub open spec fn spec_tokenize(input: Seq<char>) -> Result<Seq<SpecToken>, SpecParseError> {
    lex_from(encode_utf8(input), 0, 1, 1)
}

/// The view of a token vector result.
pub open spec fn tokens_result_view(r: Result<Vec<Token>, ParseError>) -> Result<
    Seq<SpecToken>,
    SpecParseError,
> {
    match r {
        Ok(ts) => Ok(tokens_view(ts@)),
        Err(e) => Err(e@),
    }
}

// ---------------------------------------------------------------------------
// Executable scanning
// ---------------------------------------------------------------------------

fn scan_ident(bs: &[u8], i: usize) -> (j: usize)
    requires
        i <= bs@.len(),
    ensures
        j == ident_end(bs@, i as int),
        i <= j <= bs@.len(),
{
    let mut j = i;
    while j < bs.len() && ((65 <= bs[j] && bs[j] <= 90) || (97 <= bs[j] && bs[j] <= 122) || (48
        <= bs[j] && bs[j] <= 57) || bs[j] == 95)
        invariant
            i <= j <= bs@.len(),
            ident_end(bs@, j as int) == ident_end(bs@, i as int),
        decreases bs@.len() - j,
    {
        j = j + 1;
    }
    j
}

fn scan_digits(bs: &[u8], i: usize) -> (j: usize)
    requires
        i <= bs@.len(),
    ensures
        j == digits_end(bs@, i as int),
        i <= j <= bs@.len(),
{
    let mut j = i;
    while j < bs.len() && 48 <= bs[j] && bs[j] <= 57
        invariant
            i <= j <= bs@.len(),
            digits_end(bs@, j as int) == digits_end(bs@, i as int),
        decreases bs@.len() - j,
    {
        j = j + 1;
    }
    j
}

/// A run of digits ends at a byte that is no digit.
proof fn lemma_digits_end(bs: Seq<u8>, i: int)
    requires
        0 <= i <= bs.len(),
    ensures
        i <= digits_end(bs, i) <= bs.len(),
        forall|k: int| i <= k < digits_end(bs, i) ==> is_digit(#[trigger] bs[k]),
    decreases bs.len() - i,
{
    if i < bs.len() && is_digit(bs[i]) {
        lemma_digits_end(bs, i + 1);
    }
}

/// The value of the digits from `from` to `to`, if it fits in an `i64`.
fn digits_to_i64(bs: &[u8], from: usize, to: usize) -> (r: Option<i64>)
    requires
        from <= to <= bs@.len(),
        forall|k: int| from <= k < to ==> is_digit(#[trigger] bs@[k]),
    ensures
        match r {
            Some(v) => digits_value(bs@.subrange(from as int, to as int)) == v,
            None => digits_value(bs@.subrange(from as int, to as int)) > i64::MAX,
        },
{
    let mut v: u64 = 0;
    let mut k = from;
    while k < to
        invariant
            from <= k <= to <= bs@.len(),
            forall|k: int| from <= k < to ==> is_digit(#[trigger] bs@[k]),
            v == digits_value(bs@.subrange(from as int, k as int)),
            v <= i64::MAX,
        decreases to - k,
    {
        let d = (bs[k] - 48) as u64;
        assert(bs@.subrange(from as int, k + 1).drop_last() =~= bs@.subrange(from as int, k as int));
        assert(bs@.subrange(from as int, k + 1).last() == bs@[k as int]);
        if v > 922337203685477580 || (v == 922337203685477580 && d > 7) {
            proof {
                lemma_digits_value_grows(bs@, from as int, k + 1, to as int);
            }
            return None;
        }
        v = v * 10 + d;
        k = k + 1;
    }
    Some(v as i64)
}

/// More digits never make a smaller value.
proof fn lemma_digits_value_grows(bs: Seq<u8>, from: int, k: int, to: int)
    requires
        0 <= from <= k <= to <= bs.len(),
        forall|i: int| from <= i < to ==> is_digit(#[trigger] bs[i]),
    ensures
        digits_value(bs.subrange(from, k)) <= digits_value(bs.subrange(from, to)),
    decreases to - k,
{
    if k < to {
        lemma_digits_value_grows(bs, from, k + 1, to);
        assert(bs.subrange(from, k + 1).drop_last() =~= bs.subrange(from, k));
    }
}

/// A step of the executable tokenizer.
enum Step {
    Skip(usize, usize, usize),
    Emit(Token, usize, usize, usize),
    Fail(ParseError),
}

spec fn step_view(s: Step) -> LexStep {
    match s {
        Step::Skip(p, l, c) => LexStep::Skip(p as int, l as int, c as int),
        Step::Emit(t, p, l, c) => LexStep::Emit(t@, p as int, l as int, c as int),
        Step::Fail(e) => LexStep::Fail(e@),
    }
}

/// Where a step leaves the tokenizer: strictly further on, with the line and
/// column bounded by the position.
spec fn step_moves(s: Step, pos: usize, len: nat) -> bool {
    match s {
        Step::Skip(p, l, c) => pos < p <= len && 1 <= l <= p + 1 && 1 <= c <= p + 1,
        Step::Emit(t, p, l, c) => pos < p <= len && 1 <= l <= p + 1 && 1 <= c <= p + 1,
        Step::Fail(_) => true,
    }
}

fn two_byte_token(b: u8, next: u8) -> (r: Option<TokenKind>)
    ensures
        match r {
            Some(k) => two_byte_op(b, next) == Some(k@),
            None => two_byte_op(b, next) is None,
        },
{
    if b == 60 && next == 61 {
        Some(TokenKind::Le)
    } else if b == 62 && next == 61 {
        Some(TokenKind::Ge)
    } else if b == 61 && next == 61 {
        Some(TokenKind::EqEq)
    } else if b == 33 && next == 61 {
        Some(TokenKind::Ne)
    } else if b == 46 && next == 46 {
        Some(TokenKind::DotDot)
    } else {
        None
    }
}

fn one_byte_token(b: u8) -> (r: Option<TokenKind>)
    ensures
        match r {
            Some(k) => one_byte_op(b) == Some(k@),
            None => one_byte_op(b) is None,
        },
{
    if b == 40 {
        Some(TokenKind::LParen)
    } else if b == 41 {
        Some(TokenKind::RParen)
    } else if b == 123 {
        Some(TokenKind::LBrace)
    } else if b == 125 {
        Some(TokenKind::RBrace)
    } else if b == 91 {
        Some(TokenKind::LBracket)
    } else if b == 93 {
        Some(TokenKind::RBracket)
    } else if b == 44 {
        Some(TokenKind::Comma)
    } else if b == 58 {
        Some(TokenKind::Colon)
    } else if b == 43 {
        Some(TokenKind::Plus)
    } else if b == 45 {
        Some(TokenKind::Minus)
    } else if b == 42 {
        Some(TokenKind::Star)
    } else if b == 47 {
        Some(TokenKind::Slash)
    } else if b == 64 {
        Some(TokenKind::At)
    } else if b == 60 {
        Some(TokenKind::Lt)
    } else if b == 62 {
        Some(TokenKind::Gt)
    } else if b == 61 {
        Some(TokenKind::Eq)
    } else {
        None
    }
}

fn next_step(bs: &[u8], pos: usize, line: usize, col: usize) -> (s: Step)
    requires
        pos < bs@.len() < usize::MAX,
        1 <= line <= pos + 1,
        1 <= col <= pos + 1,
    ensures
        step_view(s) == lex_step(bs@, pos as int, line as int, col as int),
        step_moves(s, pos, bs@.len()),
{
    let b = bs[pos];
    let span = Span::new(pos, line, col);
    if b == 32 || b == 9 || b == 10 || b == 12 || b == 13 {
        if b == 10 {
            return Step::Skip(pos + 1, line + 1, 1);
        } else {
            return Step::Skip(pos + 1, line, col + 1);
        }
    }
    if b == 47 && pos + 1 < bs.len() && bs[pos + 1] == 47 {
        let end = scan_line(bs, pos + 2);
        proof {
            reveal_with_fuel(line_end, 3);
        }
        return Step::Skip(end, line, col);
    }
    if pos + 1 < bs.len() {
        match two_byte_token(b, bs[pos + 1]) {
            Some(kind) => {
                return Step::Emit(Token { kind, span }, pos + 2, line, col + 2);
            },
            None => {},
        }
    }
    match one_byte_token(b) {
        Some(kind) => {
            return Step::Emit(Token { kind, span }, pos + 1, line, col + 1);
        },
        None => {},
    }
    if 48 <= b && b <= 57 {
        let e = scan_digits(bs, pos + 1);
        proof {
            lemma_digits_end(bs@, pos as int);
        }
        if e + 1 < bs.len() && bs[e] == 46 && 48 <= bs[e + 1] && bs[e + 1] <= 57 {
            let end = scan_digits(bs, e + 2);
            let text = byte_run(bs, pos, end);
            let value = decimal_display_text(text.as_str());
            return Step::Emit(
                Token { kind: TokenKind::Float(value), span },
                end,
                line,
                col + (end - pos),
            );
        }
        let text_ok = digits_to_i64(bs, pos, e);
        match text_ok {
            Some(v) => {
                return Step::Emit(
                    Token { kind: TokenKind::Number(v), span },
                    e,
                    line,
                    col + (e - pos),
                );
            },
            None => {
                let text = byte_run(bs, pos, e);
                let msg = concat2("invalid number literal: ", text.as_str());
                return Step::Fail(ParseError::new(msg, span));
            },
        }
    }
    if (65 <= b && b <= 90) || (97 <= b && b <= 122) || b == 95 {
        let end = scan_ident(bs, pos + 1);
        let text = byte_run(bs, pos, end);
        return Step::Emit(
            Token { kind: TokenKind::Ident(text), span },
            end,
            line,
            col + (end - pos),
        );
    }
    let mut cs: Vec<char> = Vec::new();
    cs.push(b as char);
    let ch = string_from_chars(&cs);
    let msg = concat3("unexpected character: '", ch.as_str(), "'");
    Step::Fail(ParseError::new(msg, span))
}

/// Prepends tokens to a tokenizer result.
pub open spec fn prepend_tokens(
    acc: Seq<SpecToken>,
    r: Result<Seq<SpecToken>, SpecParseError>,
) -> Result<Seq<SpecToken>, SpecParseError> {
    match r {
        Ok(ts) => Ok(acc + ts),
        Err(e) => Err(e),
    }
}

/// Tokenizes a Jia source text.
///
/// Line comments and whitespace are dropped. Fails on a byte that cannot begin
/// a token, and on an integer literal that does not fit in an `i64`.
pub fn tokenize(input: &str) -> (r: Result<Vec<Token>, ParseError>)
    requires
        input.len() < usize::MAX,
    ensures
        tokens_result_view(r) == spec_tokenize(input@),
        r matches Ok(ts) ==> ts@.len() < usize::MAX,
{
    let bytes = input.as_bytes();
    let ghost bs = bytes@;
    let n = bytes.len();
    assert(bs.len() == n);
    let mut tokens: Vec<Token> = Vec::new();
    let mut pos: usize = 0;
    let mut line: usize = 1;
    let mut col: usize = 1;
    while pos < bytes.len()
        invariant
            bs == bytes@,
            bs == encode_utf8(input@),
            bs.len() < usize::MAX,
            pos <= bs.len(),
            1 <= line <= pos + 1,
            1 <= col <= pos + 1,
            spec_tokenize(input@) == prepend_tokens(
                tokens_view(tokens@),
                lex_from(bs, pos as int, line as int, col as int),
            ),
            tokens@.len() <= pos,
        decreases bs.len() - pos,
    {
        let step = next_step(bytes, pos, line, col);
        let ghost before = tokens_view(tokens@);
        match step {
            Step::Skip(p, l, c) => {
                pos = p;
                line = l;
                col = c;
            },
            Step::Emit(t, p, l, c) => {
                let ghost tv = t@;
                let ghost rest = lex_from(bs, p as int, l as int, c as int);
                tokens.push(t);
                assert(tokens_view(tokens@) =~= before + seq![tv]);
                assert(prepend_tokens(before, prepend_tokens(seq![tv], rest)) == prepend_tokens(
                    before + seq![tv],
                    rest,
                )) by {
                    match rest {
                        Ok(ts) => {
                            assert(before + (seq![tv] + ts) =~= before + seq![tv] + ts);
                        },
                        Err(_) => {},
                    }
                }
                pos = p;
                line = l;
                col = c;
            },
            Step::Fail(e) => {
                return Err(e);
            },
        }
    }
    assert(tokens_view(tokens@) + seq![] =~= tokens_view(tokens@));
    Ok(tokens)
}


// ---------------------------------------------------------------------------
// Where tokens stand
// ---------------------------------------------------------------------------

/// Each token stands at a byte offset from `lo` on, the offsets increase, the
/// line and column follow the line feeds before the offset, and an identifier
/// is the bytes at its offset, as written.
pub open spec fn spans_follow(bs: Seq<u8>, ts: Seq<SpecToken>, lo: int) -> bool {
    forall|i: int|
        0 <= i < ts.len() ==> {
            let o = (#[trigger] ts[i]).span.offset as int;
            &&& lo <= o < bs.len()
            &&& (i > 0 ==> ts[i - 1].span.offset < o)
            &&& ts[i].span.line == 1 + newlines(bs, o)
            &&& ts[i].span.col == o - line_start(bs, o) + 1
            &&& (ts[i].kind matches SpecTokenKind::Ident(s) ==> s.len() > 0 && o + s.len()
                <= bs.len() && s == byte_text(bs.subrange(o, o + s.len())))
        }
}

proof fn lemma_ident_end(bs: Seq<u8>, i: int)
    requires
        0 <= i <= bs.len(),
    ensures
        i <= ident_end(bs, i) <= bs.len(),
        forall|k: int| i <= k < ident_end(bs, i) ==> is_ident_char(#[trigger] bs[k]),
    decreases bs.len() - i,
{
    if i < bs.len() && is_ident_char(bs[i]) {
        lemma_ident_end(bs, i + 1);
    }
}

/// What the tokenizer makes from `pos` on, standing where the bytes say, has
/// its spans where the bytes say.
proof fn lemma_lex_spans(bs: Seq<u8>, pos: int, line: int, col: int)
    requires
        0 <= pos,
        bs.len() <= usize::MAX,
        lex_at(bs, pos, line, col),
    ensures
        lex_from(bs, pos, line, col) matches Ok(ts) ==> spans_follow(bs, ts, pos),
    decreases bs.len() - pos,
{
    if pos < bs.len() {
        let b = bs[pos];
        lemma_line_bounds(bs, pos);
        match lex_step(bs, pos, line, col) {
            LexStep::Skip(p, l, c) => {
                if pos < p <= bs.len() {
                    if is_ws(b) {
                        if b != 10 {
                            lemma_step_over(bs, pos, p, line, col);
                        }
                    } else {
                        lemma_line_end(bs, pos);
                        lemma_no_newlines(bs, pos, p);
                    }
                    assert(lex_at(bs, p, l, c));
                    lemma_lex_spans(bs, p, l, c);
                }
            },
            LexStep::Emit(t, p, l, c) => {
                if pos < p <= bs.len() {
                    if is_digit(b) {
                        lemma_digits_end(bs, pos);
                        let e = digits_end(bs, pos);
                        if e + 1 < bs.len() && bs[e] == 46 && is_digit(bs[e + 1]) {
                            lemma_digits_end(bs, e + 1);
                        }
                    } else if pos + 1 < bs.len() && two_byte_op(b, bs[pos + 1]) is Some {
                    } else if one_byte_op(b) is Some {
                    } else {
                        lemma_ident_end(bs, pos);
                    }
                    assert forall|k: int| pos <= k < p implies #[trigger] bs[k] != 10 by {
                        if is_digit(b) {
                            let e = digits_end(bs, pos);
                            if k > e {
                                assert(is_digit(bs[k]));
                            }
                        }
                    }
                    lemma_step_over(bs, pos, p, line, col);
                    lemma_lex_spans(bs, p, l, c);
                    match lex_from(bs, p, l, c) {
                        Ok(rest) => {
                            let ts = seq![t] + rest;
                            assert(t.span.offset == pos);
                            assert forall|i: int| 0 <= i < ts.len() implies {
                                let o = (#[trigger] ts[i]).span.offset as int;
                                &&& pos <= o < bs.len()
                                &&& (i > 0 ==> ts[i - 1].span.offset < o)
                                &&& ts[i].span.line == 1 + newlines(bs, o)
                                &&& ts[i].span.col == o - line_start(bs, o) + 1
                                &&& (ts[i].kind matches SpecTokenKind::Ident(s) ==> s.len() > 0
                                    && o + s.len() <= bs.len() && s == byte_text(
                                    bs.subrange(o, o + s.len()),
                                ))
                            } by {
                                if i > 0 {
                                    assert(ts[i] == rest[i - 1]);
                                    if i > 1 {
                                        assert(ts[i - 1] == rest[i - 2]);
                                    }
                                }
                            }
                        },
                        Err(_) => {},
                    }
                }
            },
            LexStep::Fail(_) => {},
        }
    }
}

/// Where the tokens stand: each token's offset is the byte it starts at, the
/// offsets increase, its line is one more than the line feeds before it, its
/// column counts the bytes from the start of its line (from 1), and an
/// identifier is kept exactly as written (case included).
pub proof fn law_token_spans(input: Seq<char>)
    requires
        encode_utf8(input).len() <= usize::MAX,
    ensures
        spec_tokenize(input) matches Ok(ts) ==> spans_follow(encode_utf8(input), ts, 0),
{
    lemma_lex_spans(encode_utf8(input), 0, 1, 1);
}

} // verus!
