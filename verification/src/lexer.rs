//! Tokenizer for PDDL S-expressions.
//!
//! Converts PDDL source text into a flat vector of [`Token`]s, each carrying a
//! [`TokenKind`] and a [`Span`] for error reporting.
//!
//! Token conventions:
//! - `:` prefix: [`TokenKind::Keyword`] (e.g. `:requirements`, `:typing`)
//! - `?` prefix: [`TokenKind::Variable`] (e.g. `?x`, `?duration`)
//! - `;` starts a line comment, which is skipped entirely
//! - symbols, keywords and variables are lowercased during tokenization
//! - a numeric literal consists of digits and at most one `.`; it is kept as
//!   the shortest text of its value (`3.50` as `3.5`, `.5` as `0.5`)

use vstd::prelude::*;
use vstd::utf8::*;

use crate::error::{err_at, ParseError, Span, SpecParseError};
use crate::text::{
    ascii_case_eq, ascii_lower, concat3, decimal_debug, decimal_debug_text, decimal_display,
    decimal_display_text, eq_ignore_case,
    lower_byte, lower_char, lower_chars, lower_string, str_debug, str_debug_text,
    string_from_chars, string_from_utf8,
};

verus! {

/// The kind of a lexed PDDL token.
#[derive(Debug, Clone, PartialEq)]
pub enum TokenKind {
    /// Opening parenthesis `(`.
    LParen,
    /// Closing parenthesis `)`.
    RParen,
    /// An identifier: predicate names, type names, operators (`+`, `-`, ...), or the
    /// contents of a double-quoted string. Stored with ASCII letters lowercased.
    Symbol(String),
    /// A keyword starting with `:`; the `:` is stripped and the rest lowercased.
    Keyword(String),
    /// A variable starting with `?`; the `?` is kept and the rest lowercased.
    Variable(String),
    /// A numeric literal, by the shortest text of its value (`3.50` is kept as
    /// `3.5`, `007.0` as `7`, `.5` as `0.5`).
    Number(String),
}

/// A token with its position in the source text.
#[derive(Debug, Clone, PartialEq)]
pub struct Token {
    /// What kind of token this is.
    pub kind: TokenKind,
    /// Where in the source text this token appears.
    pub span: Span,
}

/// The mathematical content of a [`TokenKind`].
pub enum SpecTokenKind {
    LParen,
    RParen,
    Symbol(Seq<char>),
    Keyword(Seq<char>),
    Variable(Seq<char>),
    Number(Seq<char>),
}

/// The mathematical content of a [`Token`].
pub struct SpecToken {
    pub kind: SpecTokenKind,
    pub span: Span,
}

impl View for TokenKind {
    type V = SpecTokenKind;

    open spec fn view(&self) -> SpecTokenKind {
        match self {
            TokenKind::LParen => SpecTokenKind::LParen,
            TokenKind::RParen => SpecTokenKind::RParen,
            TokenKind::Symbol(s) => SpecTokenKind::Symbol(s@),
            TokenKind::Keyword(s) => SpecTokenKind::Keyword(s@),
            TokenKind::Variable(s) => SpecTokenKind::Variable(s@),
            TokenKind::Number(s) => SpecTokenKind::Number(s@),
        }
    }
}

impl View for Token {
    type V = SpecToken;

    open spec fn view(&self) -> SpecToken {
        SpecToken { kind: self.kind@, span: self.span }
    }
}

/// The views of a sequence of tokens.
pub open spec fn tokens_view(ts: Seq<Token>) -> Seq<SpecToken> {
    ts.map_values(|t: Token| t@)
}

/// The last token's span leaves room for the end-of-input position just past
/// it.
pub open spec fn spans_bounded(ts: Seq<SpecToken>) -> bool {
    ts.len() > 0 ==> ts.last().span.offset < usize::MAX && ts.last().span.col < usize::MAX
}

/// The token is a symbol that matches `s` ignoring ASCII case.
pub open spec fn is_symbol_like(k: SpecTokenKind, s: Seq<char>) -> bool {
    match k {
        SpecTokenKind::Symbol(t) => ascii_case_eq(t, s),
        _ => false,
    }
}

/// The token is a keyword that matches `s` ignoring ASCII case.
pub open spec fn is_keyword_like(k: SpecTokenKind, s: Seq<char>) -> bool {
    match k {
        SpecTokenKind::Keyword(t) => ascii_case_eq(t, s),
        _ => false,
    }
}

/// The token is a variable that matches `s` ignoring ASCII case.
pub open spec fn is_variable_like(k: SpecTokenKind, s: Seq<char>) -> bool {
    match k {
        SpecTokenKind::Variable(t) => ascii_case_eq(t, s),
        _ => false,
    }
}

impl Token {
    /// Whether this token is a symbol matching `s` (ASCII case-insensitive).
    pub fn symbol_eq(&self, s: &str) -> (r: bool)
        ensures
            r == is_symbol_like(self.kind@, s@),
    {
        match &self.kind {
            TokenKind::Symbol(sym) => eq_ignore_case(sym.as_str(), s),
            _ => false,
        }
    }

    /// Whether this token is a keyword matching `s` (given without the `:`).
    pub fn keyword_eq(&self, s: &str) -> (r: bool)
        ensures
            r == is_keyword_like(self.kind@, s@),
    {
        match &self.kind {
            TokenKind::Keyword(kw) => eq_ignore_case(kw.as_str(), s),
            _ => false,
        }
    }

    /// Whether this token is a variable matching `s` (given with the `?`).
    pub fn variable_eq(&self, s: &str) -> (r: bool)
        ensures
            r == is_variable_like(self.kind@, s@),
    {
        match &self.kind {
            TokenKind::Variable(v) => eq_ignore_case(v.as_str(), s),
            _ => false,
        }
    }
}

/// The debugging text of a token kind, as `{:?}` shows it: `LParen`, `RParen`,
/// or the variant's name with its payload in parentheses (`Symbol("and")`,
/// `Number(3.0)`).
pub open spec fn kind_debug(k: SpecTokenKind) -> Seq<char> {
    match k {
        SpecTokenKind::LParen => "LParen"@,
        SpecTokenKind::RParen => "RParen"@,
        SpecTokenKind::Symbol(s) => "Symbol("@ + str_debug_text(s) + ")"@,
        SpecTokenKind::Keyword(s) => "Keyword("@ + str_debug_text(s) + ")"@,
        SpecTokenKind::Variable(s) => "Variable("@ + str_debug_text(s) + ")"@,
        SpecTokenKind::Number(t) => "Number("@ + decimal_debug(t) + ")"@,
    }
}

impl TokenKind {
    /// The debugging text of this token kind (see [`kind_debug`]).
    pub fn debug_text(&self) -> (s: String)
        ensures
            s@ == kind_debug(self@),
    {
        match self {
            TokenKind::LParen => String::from_str("LParen"),
            TokenKind::RParen => String::from_str("RParen"),
            TokenKind::Symbol(s) => {
                let d = str_debug(s.as_str());
                concat3("Symbol(", d.as_str(), ")")
            },
            TokenKind::Keyword(s) => {
                let d = str_debug(s.as_str());
                concat3("Keyword(", d.as_str(), ")")
            },
            TokenKind::Variable(s) => {
                let d = str_debug(s.as_str());
                concat3("Variable(", d.as_str(), ")")
            },
            TokenKind::Number(t) => {
                let d = decimal_debug_text(t.as_str());
                concat3("Number(", d.as_str(), ")")
            },
        }
    }
}

// ---------------------------------------------------------------------------
// Byte classes
// ---------------------------------------------------------------------------

/// ASCII whitespace: space, tab, line feed, form feed, carriage return.
pub open spec fn is_ws(b: u8) -> bool {
    b == 32 || b == 9 || b == 10 || b == 12 || b == 13
}

pub open spec fn is_digit(b: u8) -> bool {
    48 <= b <= 57
}

pub open spec fn is_alpha(b: u8) -> bool {
    (65 <= b <= 90) || (97 <= b <= 122)
}

/// Operator bytes that may appear in symbols: `_ - + * / = < > #`.
pub open spec fn is_symbol_punct(b: u8) -> bool {
    b == 95 || b == 45 || b == 43 || b == 42 || b == 47 || b == 61 || b == 60 || b == 62 || b
        == 35
}

/// Bytes that can begin a symbol: letters and the operator bytes.
pub open spec fn starts_symbol(b: u8) -> bool {
    is_alpha(b) || is_symbol_punct(b)
}

/// Bytes that can continue a symbol: those that begin one, digits and `.`.
pub open spec fn continues_symbol(b: u8) -> bool {
    starts_symbol(b) || is_digit(b) || b == 46
}

/// Whether `b` can begin a symbol.
pub fn is_symbol_start(b: u8) -> (r: bool)
    ensures
        r == starts_symbol(b),
{
    (65 <= b && b <= 90) || (97 <= b && b <= 122) || b == 95 || b == 45 || b == 43 || b == 42
        || b == 47 || b == 61 || b == 60 || b == 62 || b == 35
}

/// Whether `b` can continue a symbol.
pub fn is_symbol_char(b: u8) -> (r: bool)
    ensures
        r == continues_symbol(b),
{
    is_symbol_start(b) || (48 <= b && b <= 57) || b == 46
}

// ---------------------------------------------------------------------------
// Scanning
// ---------------------------------------------------------------------------

/// The end of the run of symbol bytes that starts at `i`.
pub open spec fn run_end(bs: Seq<u8>, i: int) -> int
    decreases bs.len() - i,
{
    if i < 0 || i >= bs.len() || !continues_symbol(bs[i]) {
        i
    } else {
        run_end(bs, i + 1)
    }
}

/// The end of the run of digits and `.` that starts at `i`.
pub open spec fn number_end(bs: Seq<u8>, i: int) -> int
    decreases bs.len() - i,
{
    if i < 0 || i >= bs.len() || !(is_digit(bs[i]) || bs[i] == 46) {
        i
    } else {
        number_end(bs, i + 1)
    }
}

/// The index of the first line feed at or after `i`, or the end of the input.
pub open spec fn line_end(bs: Seq<u8>, i: int) -> int
    decreases bs.len() - i,
{
    if i < 0 || i >= bs.len() || bs[i] == 10 {
        i
    } else {
        line_end(bs, i + 1)
    }
}

/// Scans the inside of a quoted string from `i`: the index of the closing quote
/// (or the end of the input), with the line and column reached there.
pub open spec fn quote_scan(bs: Seq<u8>, i: int, line: int, col: int) -> (int, int, int)
    decreases bs.len() - i,
{
    if i < 0 || i >= bs.len() || bs[i] == 34 {
        (i, line, col)
    } else if bs[i] == 10 {
        quote_scan(bs, i + 1, line + 1, 1)
    } else {
        quote_scan(bs, i + 1, line, col + 1)
    }
}

/// The characters of ASCII bytes, lowercased.
pub open spec fn lower_text(bs: Seq<u8>) -> Seq<char> {
    bs.map_values(|b: u8| lower_byte(b) as char)
}

/// The characters of ASCII bytes.
pub open spec fn byte_text(bs: Seq<u8>) -> Seq<char> {
    bs.map_values(|b: u8| b as char)
}

/// The number of `.` bytes.
pub open spec fn dot_count(bs: Seq<u8>) -> nat
    decreases bs.len(),
{
    if bs.len() == 0 {
        0
    } else {
        dot_count(bs.drop_last()) + if bs.last() == 46 {
            1nat
        } else {
            0nat
        }
    }
}

pub open spec fn span_at(pos: int, line: int, col: int) -> Span {
    Span { offset: pos as usize, line: line as usize, col: col as usize }
}

/// One step of the tokenizer.
pub enum LexStep {
    /// Skip to the given position, line and column.
    Skip(int, int, int),
    /// Emit a token and go on at the given position, line and column.
    Emit(SpecToken, int, int, int),
    /// Stop with an error.
    Fail(SpecParseError),
}

/// What the tokenizer does at position `pos` (which holds a byte) on the given
/// line and column.
pub open spec fn lex_step(bs: Seq<u8>, pos: int, line: int, col: int) -> LexStep {
    let b = bs[pos];
    let span = span_at(pos, line, col);
    if is_ws(b) {
        if b == 10 {
            LexStep::Skip(pos + 1, line + 1, 1)
        } else {
            LexStep::Skip(pos + 1, line, col + 1)
        }
    } else if b == 59 {
        LexStep::Skip(line_end(bs, pos), line, col)
    } else if b == 40 {
        LexStep::Emit(SpecToken { kind: SpecTokenKind::LParen, span }, pos + 1, line, col + 1)
    } else if b == 41 {
        LexStep::Emit(SpecToken { kind: SpecTokenKind::RParen, span }, pos + 1, line, col + 1)
    } else if b == 58 {
        let end = run_end(bs, pos + 1);
        LexStep::Emit(
            SpecToken {
                kind: SpecTokenKind::Keyword(lower_text(bs.subrange(pos + 1, end))),
                span,
            },
            end,
            line,
            col + (end - pos),
        )
    } else if b == 63 {
        let end = run_end(bs, pos + 1);
        LexStep::Emit(
            SpecToken { kind: SpecTokenKind::Variable(lower_text(bs.subrange(pos, end))), span },
            end,
            line,
            col + (end - pos),
        )
    } else if is_digit(b) || (b == 46 && pos + 1 < bs.len() && is_digit(bs[pos + 1])) {
        let end = number_end(bs, pos);
        let digits = bs.subrange(pos, end);
        if dot_count(digits) > 1 {
            LexStep::Fail(err_at("invalid number: "@ + byte_text(digits), span))
        } else {
            LexStep::Emit(
                SpecToken { kind: SpecTokenKind::Number(decimal_display(byte_text(digits))), span },
                end,
                line,
                col + (end - pos),
            )
        }
    } else if b == 34 {
        let (q, l, c) = quote_scan(bs, pos + 1, line, col + 1);
        let tok = SpecToken {
            kind: SpecTokenKind::Symbol(lower_chars(decode_utf8(bs.subrange(pos + 1, q)))),
            span,
        };
        if q < bs.len() {
            LexStep::Emit(tok, q + 1, l, c + 1)
        } else {
            LexStep::Emit(tok, q, l, c)
        }
    } else if starts_symbol(b) {
        let end = run_end(bs, pos);
        LexStep::Emit(
            SpecToken { kind: SpecTokenKind::Symbol(lower_text(bs.subrange(pos, end))), span },
            end,
            line,
            col + (end - pos),
        )
    } else {
        LexStep::Fail(
            err_at("unexpected character: '"@ + seq![b as char] + "'"@, span),
        )
    }
}

/// The tokens of `bs` from position `pos` on, starting on the given line and
/// column; or the first error.
pub open spec fn lex_from(bs: Seq<u8>, pos: int, line: int, col: int) -> Result<
    Seq<SpecToken>,
    SpecParseError,
>
    decreases bs.len() - pos,
{
    if pos < 0 || pos >= bs.len() {
        Ok(seq![])
    } else {
        match lex_step(bs, pos, line, col) {
            LexStep::Skip(p, l, c) => {
                // every step moves forward
                if pos < p <= bs.len() {
                    lex_from(bs, p, l, c)
                } else {
                    Ok(seq![])
                }
            },
            LexStep::Emit(t, p, l, c) => {
                if pos < p <= bs.len() {
                    match lex_from(bs, p, l, c) {
                        Ok(ts) => Ok(seq![t] + ts),
                        Err(e) => Err(e),
                    }
                } else {
                    Ok(seq![])
                }
            },
            LexStep::Fail(e) => Err(e),
        }
    }
}

/// The tokens of a PDDL text, or the first error met while reading it.
pub open spec fn spec_tokenize(input: Seq<char>) -> Result<Seq<SpecToken>, SpecParseError> {
    lex_from(encode_utf8(input), 0, 1, 1)
}

/// The view of a token vector result.
pub open spec fn tokens_result_view(r: Result<Vec<Token>, ParseError>) -> Result<
    Seq<SpecToken>,
    SpecParseError,
> {
    match r {
        Ok(ts) => Ok(tokens_view(ts@)),
        Err(e) => Err(e@),
    }
}

// ---------------------------------------------------------------------------
// Executable scanning
// ---------------------------------------------------------------------------

fn scan_symbol(bs: &[u8], i: usize) -> (j: usize)
    requires
        i <= bs@.len(),
    ensures
        j == run_end(bs@, i as int),
        i <= j <= bs@.len(),
{
    let mut j = i;
    while j < bs.len() && is_symbol_char(bs[j])
        invariant
            i <= j <= bs@.len(),
            run_end(bs@, j as int) == run_end(bs@, i as int),
        decreases bs@.len() - j,
    {
        j = j + 1;
    }
    j
}

fn scan_number(bs: &[u8], i: usize) -> (j: usize)
    requires
        i <= bs@.len(),
    ensures
        j == number_end(bs@, i as int),
        i <= j <= bs@.len(),
{
    let mut j = i;
    while j < bs.len() && ((48 <= bs[j] && bs[j] <= 57) || bs[j] == 46)
        invariant
            i <= j <= bs@.len(),
            number_end(bs@, j as int) == number_end(bs@, i as int),
        decreases bs@.len() - j,
    {
        j = j + 1;
    }
    j
}

pub(crate) fn scan_line(bs: &[u8], i: usize) -> (j: usize)
    requires
        i <= bs@.len(),
    ensures
        j == line_end(bs@, i as int),
        i <= j <= bs@.len(),
{
    let mut j = i;
    while j < bs.len() && bs[j] != 10
        invariant
            i <= j <= bs@.len(),
            line_end(bs@, j as int) == line_end(bs@, i as int),
        decreases bs@.len() - j,
    {
        j = j + 1;
    }
    j
}

fn scan_quoted(bs: &[u8], i: usize, line: usize, col: usize) -> (r: (usize, usize, usize))
    requires
        i <= bs@.len(),
        1 <= line <= i,
        1 <= col <= i + 1,
        bs@.len() < usize::MAX,
    ensures
        (r.0 as int, r.1 as int, r.2 as int) == quote_scan(bs@, i as int, line as int, col as int),
        i <= r.0 <= bs@.len(),
        1 <= r.1 <= r.0,
        1 <= r.2 <= r.0 + 1,
        r.0 < bs@.len() ==> bs@[r.0 as int] == 34,
{
    let mut j = i;
    let mut l = line;
    let mut c = col;
    while j < bs.len() && bs[j] != 34
        invariant
            i <= j <= bs@.len(),
            bs@.len() < usize::MAX,
            1 <= l <= j,
            1 <= c <= j + 1,
            quote_scan(bs@, j as int, l as int, c as int) == quote_scan(
                bs@,
                i as int,
                line as int,
                col as int,
            ),
        decreases bs@.len() - j,
    {
        if bs[j] == 10 {
            l = l + 1;
            c = 1;
        } else {
            c = c + 1;
        }
        j = j + 1;
    }
    (j, l, c)
}

fn lower_run(bs: &[u8], from: usize, to: usize) -> (s: String)
    requires
        from <= to <= bs@.len(),
    ensures
        s@ == lower_text(bs@.subrange(from as int, to as int)),
{
    let mut cs: Vec<char> = Vec::new();
    let mut k = from;
    while k < to
        invariant
            from <= k <= to <= bs@.len(),
            cs@ == lower_text(bs@.subrange(from as int, k as int)),
        decreases to - k,
    {
        let b = ascii_lower(bs[k]);
        cs.push(b as char);
        assert(lower_text(bs@.subrange(from as int, k + 1)) =~= lower_text(
            bs@.subrange(from as int, k as int),
        ).push(b as char));
        k = k + 1;
    }
    string_from_chars(&cs)
}

pub(crate) fn byte_run(bs: &[u8], from: usize, to: usize) -> (s: String)
    requires
        from <= to <= bs@.len(),
    ensures
        s@ == byte_text(bs@.subrange(from as int, to as int)),
{
    let mut cs: Vec<char> = Vec::new();
    let mut k = from;
    while k < to
        invariant
            from <= k <= to <= bs@.len(),
            cs@ == byte_text(bs@.subrange(from as int, k as int)),
        decreases to - k,
    {
        let b = bs[k];
        cs.push(b as char);
        assert(byte_text(bs@.subrange(from as int, k + 1)) =~= byte_text(
            bs@.subrange(from as int, k as int),
        ).push(b as char));
        k = k + 1;
    }
    string_from_chars(&cs)
}

fn count_dots(bs: &[u8], from: usize, to: usize) -> (n: usize)
    requires
        from <= to <= bs@.len(),
    ensures
        n == dot_count(bs@.subrange(from as int, to as int)),
{
    let mut n: usize = 0;
    let mut k = from;
    while k < to
        invariant
            from <= k <= to <= bs@.len(),
            n == dot_count(bs@.subrange(from as int, k as int)),
            n <= k - from,
        decreases to - k,
    {
        assert(bs@.subrange(from as int, k + 1).drop_last() =~= bs@.subrange(from as int, k as int));
        if bs[k] == 46 {
            n = n + 1;
        }
        k = k + 1;
    }
    n
}

fn copy_run(bs: &[u8], from: usize, to: usize) -> (v: Vec<u8>)
    requires
        from <= to <= bs@.len(),
    ensures
        v@ == bs@.subrange(from as int, to as int),
{
    let mut v: Vec<u8> = Vec::new();
    let mut k = from;
    while k < to
        invariant
            from <= k <= to <= bs@.len(),
            v@ == bs@.subrange(from as int, k as int),
        decreases to - k,
    {
        v.push(bs[k]);
        assert(bs@.subrange(from as int, k + 1) =~= bs@.subrange(from as int, k as int).push(
            bs@[k as int],
        ));
        k = k + 1;
    }
    v
}

/// A character boundary followed by an ASCII byte is followed by another boundary.
proof fn lemma_boundary_after_ascii(bs: Seq<u8>, i: int)
    requires
        valid_utf8(bs),
        0 <= i < bs.len(),
        bs[i] < 128,
        is_char_boundary(bs, i),
    ensures
        is_char_boundary(bs, i + 1),
    decreases bs.len(),
{
    reveal_with_fuel(is_char_boundary, 2);
    let n = length_of_first_scalar(bs);
    if i == 0 {
        assert(n == 1);
    } else {
        let rest = pop_first_scalar(bs);
        assert(valid_utf8(rest));
        assert(rest.len() < bs.len());
        assert(rest[i - n] == bs[i]);
        lemma_boundary_after_ascii(rest, i - n);
    }
}

/// The bytes strictly between a quote at `open` and the next quote (or the end)
/// are valid UTF-8.
proof fn lemma_quoted_valid(bs: Seq<u8>, open: int, close: int)
    requires
        valid_utf8(bs),
        0 <= open < close <= bs.len(),
        bs[open] == 34,
        close < bs.len() ==> bs[close] == 34,
    ensures
        valid_utf8(bs.subrange(open + 1, close)),
{
    broadcast use is_char_boundary_iff_not_is_continuation_byte, is_char_boundary_start_end_of_seq;

    is_char_boundary_iff_not_is_continuation_byte(bs, open);
    lemma_boundary_after_ascii(bs, open);
    valid_utf8_split(bs, open + 1);
    let t = bs.subrange(open + 1, bs.len() as int);
    let k = close - (open + 1);
    if close < bs.len() {
        assert(t[k] == bs[close]);
        is_char_boundary_iff_not_is_continuation_byte(t, k);
    } else {
        assert(k == t.len());
        is_char_boundary_start_end_of_seq(t);
    }
    valid_utf8_split(t, k);
    assert(t.subrange(0, k) =~= bs.subrange(open + 1, close));
}

/// A step of the executable tokenizer.
enum Step {
    Skip(usize, usize, usize),
    Emit(Token, usize, usize, usize),
    Fail(ParseError),
}

/// The view of a step.
spec fn step_view(s: Step) -> LexStep {
    match s {
        Step::Skip(p, l, c) => LexStep::Skip(p as int, l as int, c as int),
        Step::Emit(t, p, l, c) => LexStep::Emit(t@, p as int, l as int, c as int),
        Step::Fail(e) => LexStep::Fail(e@),
    }
}

/// Where a step leaves the tokenizer: strictly further on, with the line and
/// column bounded by the position.
spec fn step_moves(s: Step, pos: usize, len: nat) -> bool {
    match s {
        Step::Skip(p, l, c) => pos < p <= len && 1 <= l <= p + 1 && 1 <= c <= p + 1,
        Step::Emit(t, p, l, c) => pos < p <= len && 1 <= l <= p + 1 && 1 <= c <= p + 1
            && t.span.offset == pos && t.span.col <= pos + 1,
        Step::Fail(_) => true,
    }
}

fn next_step(bs: &[u8], pos: usize, line: usize, col: usize) -> (s: Step)
    requires
        pos < bs@.len() < usize::MAX,
        valid_utf8(bs@),
        1 <= line <= pos + 1,
        1 <= col <= pos + 1,
    ensures
        step_view(s) == lex_step(bs@, pos as int, line as int, col as int),
        step_moves(s, pos, bs@.len()),
{
    let b = bs[pos];
    let span = Span::new(pos, line, col);
    if b == 32 || b == 9 || b == 10 || b == 12 || b == 13 {
        if b == 10 {
            Step::Skip(pos + 1, line + 1, 1)
        } else {
            Step::Skip(pos + 1, line, col + 1)
        }
    } else if b == 59 {
        let end = scan_line(bs, pos + 1);
        Step::Skip(end, line, col)
    } else if b == 40 {
        Step::Emit(Token { kind: TokenKind::LParen, span }, pos + 1, line, col + 1)
    } else if b == 41 {
        Step::Emit(Token { kind: TokenKind::RParen, span }, pos + 1, line, col + 1)
    } else if b == 58 {
        let end = scan_symbol(bs, pos + 1);
        let kw = lower_run(bs, pos + 1, end);
        Step::Emit(Token { kind: TokenKind::Keyword(kw), span }, end, line, col + (end - pos))
    } else if b == 63 {
        let end = scan_symbol(bs, pos + 1);
        let var = lower_run(bs, pos, end);
        Step::Emit(Token { kind: TokenKind::Variable(var), span }, end, line, col + (end - pos))
    } else if (48 <= b && b <= 57) || (b == 46 && pos + 1 < bs.len() && 48 <= bs[pos + 1]
        && bs[pos + 1] <= 57) {
        let end = scan_number(bs, pos + 1);
        let text = byte_run(bs, pos, end);
        if count_dots(bs, pos, end) > 1 {
            let msg = crate::text::concat2("invalid number: ", text.as_str());
            Step::Fail(ParseError::new(msg, span))
        } else {
            let value = decimal_display_text(text.as_str());
            Step::Emit(Token { kind: TokenKind::Number(value), span }, end, line, col + (end - pos))
        }
    } else if b == 34 {
        let (q, l, c) = scan_quoted(bs, pos + 1, line, col + 1);
        proof {
            lemma_quoted_valid(bs@, pos as int, q as int);
        }
        let content = copy_run(bs, pos + 1, q);
        let text = match string_from_utf8(content) {
            Some(t) => lower_string(t.as_str()),
            None => String::new(),
        };
        let tok = Token { kind: TokenKind::Symbol(text), span };
        if q < bs.len() {
            Step::Emit(tok, q + 1, l, c + 1)
        } else {
            Step::Emit(tok, q, l, c)
        }
    } else if is_symbol_start(b) {
        let end = scan_symbol(bs, pos + 1);
        let sym = lower_run(bs, pos, end);
        Step::Emit(Token { kind: TokenKind::Symbol(sym), span }, end, line, col + (end - pos))
    } else {
        let mut cs: Vec<char> = Vec::new();
        cs.push(b as char);
        let ch = string_from_chars(&cs);
        let msg = crate::text::concat3("unexpected character: '", ch.as_str(), "'");
        Step::Fail(ParseError::new(msg, span))
    }
}

/// Prepends tokens to a tokenizer result.
pub open spec fn prepend_tokens(acc: Seq<SpecToken>, r: Result<Seq<SpecToken>, SpecParseError>) -> Result<
    Seq<SpecToken>,
    SpecParseError,
> {
    match r {
        Ok(ts) => Ok(acc + ts),
        Err(e) => Err(e),
    }
}

/// Tokenizes a PDDL source text.
///
/// Line comments are stripped; symbols, keywords and variables are lowercased.
/// Fails on a character that cannot begin a token, and on a numeric literal with
/// more than one `.`.
pub fn tokenize(input: &str) -> (r: Result<Vec<Token>, ParseError>)
    requires
        input.len() < usize::MAX,
    ensures
        tokens_result_view(r) == spec_tokenize(input@),
        r matches Ok(ts) ==> spans_bounded(tokens_view(ts@)) && ts@.len() < usize::MAX,
{
    let bytes = input.as_bytes();
    let ghost bs = bytes@;
    let n = bytes.len();
    assert(bs.len() == n);
    proof {
        broadcast use vstd::utf8::encode_utf8_valid_utf8;
    }
    let mut tokens: Vec<Token> = Vec::new();
    let mut pos: usize = 0;
    let mut line: usize = 1;
    let mut col: usize = 1;
    while pos < bytes.len()
        invariant
            bs == bytes@,
            bs == encode_utf8(input@),
            valid_utf8(bs),
            bs.len() < usize::MAX,
            pos <= bs.len(),
            1 <= line <= pos + 1,
            1 <= col <= pos + 1,
            spec_tokenize(input@) == prepend_tokens(
                tokens_view(tokens@),
                lex_from(bs, pos as int, line as int, col as int),
            ),
            spans_bounded(tokens_view(tokens@)),
            tokens@.len() <= pos,
        decreases bs.len() - pos,
    {
        let step = next_step(bytes, pos, line, col);
        let ghost before = tokens_view(tokens@);
        match step {
            Step::Skip(p, l, c) => {
                pos = p;
                line = l;
                col = c;
            },
            Step::Emit(t, p, l, c) => {
                let ghost tv = t@;
                let ghost rest = lex_from(bs, p as int, l as int, c as int);
                tokens.push(t);
                assert(tokens_view(tokens@) =~= before + seq![tv]);
                assert(prepend_tokens(before, prepend_tokens(seq![tv], rest)) == prepend_tokens(
                    before + seq![tv],
                    rest,
                )) by {
                    match rest {
                        Ok(ts) => {
                            assert(before + (seq![tv] + ts) =~= before + seq![tv] + ts);
                        },
                        Err(_) => {},
                    }
                }
                pos = p;
                line = l;
                col = c;
            },
            Step::Fail(e) => {
                return Err(e);
            },
        }
    }
    assert(tokens_view(tokens@) + seq![] =~= tokens_view(tokens@));
    Ok(tokens)
}

// ---------------------------------------------------------------------------
// Laws
// ---------------------------------------------------------------------------

/// No ASCII capital letter.
pub open spec fn no_capitals(s: Seq<char>) -> bool {
    forall|i: int| 0 <= i < s.len() ==> !('A' <= #[trigger] s[i] <= 'Z')
}

/// Every symbol, keyword and variable is free of ASCII capitals.
pub open spec fn lowercase_words(ts: Seq<SpecToken>) -> bool {
    forall|i: int|
        0 <= i < ts.len() ==> match (#[trigger] ts[i]).kind {
            SpecTokenKind::Symbol(s) => no_capitals(s),
            SpecTokenKind::Keyword(s) => no_capitals(s),
            SpecTokenKind::Variable(s) => no_capitals(s),
            _ => true,
        }
}

/// Lowercased bytes hold no capitals.
proof fn lemma_lower_text(bs: Seq<u8>)
    ensures
        no_capitals(lower_text(bs)),
{
    assert forall|i: int| 0 <= i < lower_text(bs).len() implies !('A' <= #[trigger] lower_text(
        bs,
    )[i] <= 'Z') by {
        let b = bs[i];
        let l = lower_byte(b);
        assert(!(65 <= l <= 90));
        assert(lower_text(bs)[i] == l as char);
    }
}

/// Lowercased characters hold no capitals.
proof fn lemma_lower_chars(s: Seq<char>)
    ensures
        no_capitals(lower_chars(s)),
{
    assert forall|i: int| 0 <= i < lower_chars(s).len() implies !('A' <= #[trigger] lower_chars(
        s,
    )[i] <= 'Z') by {
        assert(lower_chars(s)[i] == lower_char(s[i]));
    }
}

/// What the tokenizer makes from a position on has its symbols, keywords and
/// variables lowercased.
proof fn lemma_lex_lowercase(bs: Seq<u8>, pos: int, line: int, col: int)
    ensures
        lex_from(bs, pos, line, col) matches Ok(ts) ==> lowercase_words(ts),
    decreases bs.len() - pos,
{
    if 0 <= pos < bs.len() {
        match lex_step(bs, pos, line, col) {
            LexStep::Skip(p, l, c) => {
                if pos < p <= bs.len() {
                    lemma_lex_lowercase(bs, p, l, c);
                }
            },
            LexStep::Emit(t, p, l, c) => {
                if pos < p <= bs.len() {
                    lemma_lex_lowercase(bs, p, l, c);
                    let b = bs[pos];
                    if b == 58 {
                        lemma_lower_text(bs.subrange(pos + 1, run_end(bs, pos + 1)));
                    } else if b == 63 {
                        lemma_lower_text(bs.subrange(pos, run_end(bs, pos + 1)));
                    } else if b == 34 {
                        let q = quote_scan(bs, pos + 1, line, col + 1).0;
                        lemma_lower_chars(decode_utf8(bs.subrange(pos + 1, q)));
                    } else if starts_symbol(b) {
                        lemma_lower_text(bs.subrange(pos, run_end(bs, pos)));
                    }
                    match lex_from(bs, p, l, c) {
                        Ok(rest) => {
                            let ts = seq![t] + rest;
                            assert forall|i: int| 0 <= i < ts.len() implies match (
                            #[trigger] ts[i]).kind {
                                SpecTokenKind::Symbol(s) => no_capitals(s),
                                SpecTokenKind::Keyword(s) => no_capitals(s),
                                SpecTokenKind::Variable(s) => no_capitals(s),
                                _ => true,
                            } by {
                                if i > 0 {
                                    assert(ts[i] == rest[i - 1]);
                                }
                            }
                        },
                        Err(_) => {},
                    }
                }
            },
            LexStep::Fail(_) => {},
        }
    }
}

/// The tokenizer lowercases symbols (quoted ones too), keywords and variables:
/// none that it yields holds an ASCII capital.
pub proof fn law_tokenize_lowercases(input: Seq<char>)
    ensures
        spec_tokenize(input) matches Ok(ts) ==> lowercase_words(ts),
{
    lemma_lex_lowercase(encode_utf8(input), 0, 1, 1);
}


// ---------------------------------------------------------------------------
// Where tokens stand
// ---------------------------------------------------------------------------

/// The number of line feeds among the first `n` bytes.
pub open spec fn newlines(bs: Seq<u8>, n: int) -> int
    decreases n,
{
    if n <= 0 || n > bs.len() {
        0
    } else {
        newlines(bs, n - 1) + if bs[n - 1] == 10 {
            1int
        } else {
            0int
        }
    }
}

/// The index at which the line holding byte `n` starts: just after the last
/// line feed before `n`, or 0.
pub open spec fn line_start(bs: Seq<u8>, n: int) -> int
    decreases n,
{
    if n <= 0 || n > bs.len() {
        0
    } else if bs[n - 1] == 10 {
        n
    } else {
        line_start(bs, n - 1)
    }
}

/// The byte a token of this kind starts with.
pub open spec fn starts_kind(k: SpecTokenKind, b: u8) -> bool {
    match k {
        SpecTokenKind::LParen => b == 40,
        SpecTokenKind::RParen => b == 41,
        SpecTokenKind::Keyword(_) => b == 58,
        SpecTokenKind::Variable(_) => b == 63,
        SpecTokenKind::Number(_) => is_digit(b) || b == 46,
        SpecTokenKind::Symbol(_) => b == 34 || starts_symbol(b),
    }
}

/// Each token stands at a byte offset from `lo` on, the offsets increase, the
/// line and column follow the line feeds before the offset, and the byte there
/// begins a token of the token's kind.
pub open spec fn spans_follow(bs: Seq<u8>, ts: Seq<SpecToken>, lo: int) -> bool {
    forall|i: int|
        0 <= i < ts.len() ==> {
            let o = (#[trigger] ts[i]).span.offset as int;
            &&& lo <= o < bs.len()
            &&& (i > 0 ==> ts[i - 1].span.offset < o)
            &&& ts[i].span.line == 1 + newlines(bs, o)
            &&& ts[i].span.col == o - line_start(bs, o) + 1
            &&& starts_kind(ts[i].kind, bs[o])
        }
}

/// The tokenizer's line and column at `pos` agree with the bytes before it
/// (the column only where `pos` holds a byte other than a line feed).
pub open spec fn lex_at(bs: Seq<u8>, pos: int, line: int, col: int) -> bool {
    &&& line == 1 + newlines(bs, pos)
    &&& (pos < bs.len() && bs[pos] != 10 ==> col == pos - line_start(bs, pos) + 1)
}

pub(crate) proof fn lemma_line_bounds(bs: Seq<u8>, n: int)
    requires
        0 <= n <= bs.len(),
    ensures
        0 <= newlines(bs, n) <= n,
        0 <= line_start(bs, n) <= n,
    decreases n,
{
    if n > 0 {
        lemma_line_bounds(bs, n - 1);
    }
}

/// Bytes other than line feeds between `a` and `b` leave the line count and
/// the line start unchanged.
pub(crate) proof fn lemma_no_newlines(bs: Seq<u8>, a: int, b: int)
    requires
        0 <= a <= b <= bs.len(),
        forall|k: int| a <= k < b ==> bs[k] != 10,
    ensures
        newlines(bs, b) == newlines(bs, a),
        a > 0 || b == a ==> line_start(bs, b) == line_start(bs, a),
        b > a && a == 0 ==> line_start(bs, b) == 0,
    decreases b - a,
{
    if b > a {
        lemma_no_newlines(bs, a, b - 1);
    }
}

proof fn lemma_run_end(bs: Seq<u8>, i: int)
    requires
        0 <= i <= bs.len(),
    ensures
        i <= run_end(bs, i) <= bs.len(),
        forall|k: int| i <= k < run_end(bs, i) ==> continues_symbol(#[trigger] bs[k]),
        run_end(bs, i) < bs.len() ==> !continues_symbol(bs[run_end(bs, i)]),
    decreases bs.len() - i,
{
    if i < bs.len() && continues_symbol(bs[i]) {
        lemma_run_end(bs, i + 1);
    }
}

proof fn lemma_number_end(bs: Seq<u8>, i: int)
    requires
        0 <= i <= bs.len(),
    ensures
        i <= number_end(bs, i) <= bs.len(),
        forall|k: int| i <= k < number_end(bs, i) ==> is_digit(#[trigger] bs[k]) || bs[k] == 46,
    decreases bs.len() - i,
{
    if i < bs.len() && (is_digit(bs[i]) || bs[i] == 46) {
        lemma_number_end(bs, i + 1);
    }
}

pub(crate) proof fn lemma_line_end(bs: Seq<u8>, i: int)
    requires
        0 <= i <= bs.len(),
    ensures
        i <= line_end(bs, i) <= bs.len(),
        line_end(bs, i) < bs.len() ==> bs[line_end(bs, i)] == 10,
        forall|k: int| i <= k < line_end(bs, i) ==> #[trigger] bs[k] != 10,
    decreases bs.len() - i,
{
    if i < bs.len() && bs[i] != 10 {
        lemma_line_end(bs, i + 1);
    }
}

proof fn lemma_quote_scan_at(bs: Seq<u8>, i: int, line: int, col: int)
    requires
        0 <= i <= bs.len(),
        line == 1 + newlines(bs, i),
        i > 0,
        col == i - line_start(bs, i) + 1,
    ensures
        ({
            let (q, l, c) = quote_scan(bs, i, line, col);
            &&& i <= q <= bs.len()
            &&& q < bs.len() ==> bs[q] == 34
            &&& l == 1 + newlines(bs, q)
            &&& c == q - line_start(bs, q) + 1
        }),
    decreases bs.len() - i,
{
    if i < bs.len() && bs[i] != 34 {
        if bs[i] == 10 {
            lemma_quote_scan_at(bs, i + 1, line + 1, 1);
        } else {
            lemma_quote_scan_at(bs, i + 1, line, col + 1);
        }
    }
}

/// After an emitted token that covers the bytes from `pos` to `p`, none a line
/// feed, the tokenizer stands where the bytes say.
pub(crate) proof fn lemma_step_over(bs: Seq<u8>, pos: int, p: int, line: int, col: int)
    requires
        0 <= pos < p <= bs.len(),
        lex_at(bs, pos, line, col),
        bs[pos] != 10,
        forall|k: int| pos <= k < p ==> #[trigger] bs[k] != 10,
    ensures
        lex_at(bs, p, line, col + (p - pos)),
{
    lemma_no_newlines(bs, pos, p);
    if pos == 0 {
        assert(line_start(bs, pos) == 0);
    }
}

/// What the tokenizer makes from `pos` on, standing where the bytes say, has
/// its spans where the bytes say.
proof fn lemma_lex_spans(bs: Seq<u8>, pos: int, line: int, col: int)
    requires
        0 <= pos,
        bs.len() <= usize::MAX,
        lex_at(bs, pos, line, col),
    ensures
        lex_from(bs, pos, line, col) matches Ok(ts) ==> spans_follow(bs, ts, pos),
    decreases bs.len() - pos,
{
    if pos < bs.len() {
        let b = bs[pos];
        lemma_line_bounds(bs, pos);
        match lex_step(bs, pos, line, col) {
            LexStep::Skip(p, l, c) => {
                if pos < p <= bs.len() {
                    if is_ws(b) {
                        if b == 10 {
                            assert(lex_at(bs, p, l, c));
                        } else {
                            lemma_step_over(bs, pos, p, line, col);
                        }
                    } else {
                        lemma_line_end(bs, pos);
                        lemma_no_newlines(bs, pos, p);
                        assert(lex_at(bs, p, l, c));
                    }
                    lemma_lex_spans(bs, p, l, c);
                }
            },
            LexStep::Emit(t, p, l, c) => {
                if pos < p <= bs.len() {
                    if b == 34 {
                        assert(line_start(bs, pos + 1) == line_start(bs, pos) || pos == 0);
                        lemma_no_newlines(bs, pos, pos + 1);
                        lemma_quote_scan_at(bs, pos + 1, line, col + 1);
                        let (q, l0, c0) = quote_scan(bs, pos + 1, line, col + 1);
                        if q < bs.len() {
                            lemma_step_over(bs, q, q + 1, l0, c0);
                        }
                        assert(lex_at(bs, p, l, c));
                    } else {
                        if b == 58 || b == 63 {
                            lemma_run_end(bs, pos + 1);
                        } else if is_digit(b) || b == 46 {
                            lemma_number_end(bs, pos);
                        } else {
                            lemma_run_end(bs, pos);
                        }
                        assert forall|k: int| pos <= k < p implies #[trigger] bs[k] != 10 by {
                            if k > pos && (b == 58 || b == 63) {
                                assert(continues_symbol(bs[k]));
                            }
                        }
                        lemma_step_over(bs, pos, p, line, col);
                    }
                    lemma_lex_spans(bs, p, l, c);
                    match lex_from(bs, p, l, c) {
                        Ok(rest) => {
                            let ts = seq![t] + rest;
                            assert(t.span.offset == pos);
                            assert forall|i: int| 0 <= i < ts.len() implies {
                                let o = (#[trigger] ts[i]).span.offset as int;
                                &&& pos <= o < bs.len()
                                &&& (i > 0 ==> ts[i - 1].span.offset < o)
                                &&& ts[i].span.line == 1 + newlines(bs, o)
                                &&& ts[i].span.col == o - line_start(bs, o) + 1
                                &&& starts_kind(ts[i].kind, bs[o])
                            } by {
                                if i > 0 {
                                    assert(ts[i] == rest[i - 1]);
                                    if i > 1 {
                                        assert(ts[i - 1] == rest[i - 2]);
                                    }
                                }
                            }
                        },
                        Err(_) => {},
                    }
                }
            },
            LexStep::Fail(_) => {},
        }
    }
}

/// Where the tokens stand: each token's offset is the byte it starts at, the
/// offsets increase, its line is one more than the line feeds before it, its
/// column counts the bytes from the start of its line (from 1), and the byte
/// at its offset begins a token of its kind (`(`, `)`, `:`, `?`, a digit or
/// `.`, a quote or a symbol byte).
pub proof fn law_token_spans(input: Seq<char>)
    requires
        encode_utf8(input).len() <= usize::MAX,
    ensures
        spec_tokenize(input) matches Ok(ts) ==> spans_follow(encode_utf8(input), ts, 0),
{
    lemma_lex_spans(encode_utf8(input), 0, 1, 1);
}


// ---------------------------------------------------------------------------
// Names are whole runs
// ---------------------------------------------------------------------------

/// A byte that may stand in a PDDL name: an ASCII letter or digit, or one of
/// `_ - + * / = < > # .`.
pub open spec fn name_byte(b: u8) -> bool {
    (65 <= b <= 90) || (97 <= b <= 122) || (48 <= b <= 57) || b == 95 || b == 45 || b == 43
        || b == 42 || b == 47 || b == 61 || b == 60 || b == 62 || b == 35 || b == 46
}

/// The symbol `s` at offset `o` is the whole run of name bytes there, with its
/// ASCII capitals lowered: every byte it covers is a name byte, the byte after
/// it (if any) is not, and its characters are those bytes.
pub open spec fn whole_run(bs: Seq<u8>, o: int, s: Seq<char>) -> bool {
    &&& 0 <= o
    &&& o + s.len() <= bs.len()
    &&& forall|k: int| o <= k < o + s.len() ==> name_byte(#[trigger] bs[k])
    &&& (o + s.len() == bs.len() || !name_byte(bs[o + s.len()]))
    &&& forall|k: int|
        0 <= k < s.len() ==> #[trigger] s[k] == (if 65 <= bs[o + k] <= 90 {
            (bs[o + k] + 32) as u8
        } else {
            bs[o + k]
        }) as char
}

/// Every unquoted symbol among the tokens is a whole run of name bytes.
pub open spec fn symbols_whole(bs: Seq<u8>, ts: Seq<SpecToken>) -> bool {
    forall|i: int|
        0 <= i < ts.len() && (#[trigger] ts[i]).kind is Symbol && 0 <= ts[i].span.offset
            < bs.len() && bs[ts[i].span.offset as int] != 34 ==> whole_run(
            bs,
            ts[i].span.offset as int,
            ts[i].kind->Symbol_0,
        )
}

proof fn lemma_name_byte(b: u8)
    ensures
        continues_symbol(b) == name_byte(b),
{
}

proof fn lemma_lex_runs(bs: Seq<u8>, pos: int, line: int, col: int)
    requires
        0 <= pos,
        bs.len() <= usize::MAX,
    ensures
        lex_from(bs, pos, line, col) matches Ok(ts) ==> symbols_whole(bs, ts),
    decreases bs.len() - pos,
{
    if pos < bs.len() {
        let b = bs[pos];
        match lex_step(bs, pos, line, col) {
            LexStep::Skip(p, l, c) => {
                if pos < p <= bs.len() {
                    lemma_lex_runs(bs, p, l, c);
                }
            },
            LexStep::Emit(t, p, l, c) => {
                if pos < p <= bs.len() {
                    lemma_lex_runs(bs, p, l, c);
                    assert(t.span.offset == pos);
                    if t.kind is Symbol && b != 34 {
                        lemma_run_end(bs, pos);
                        let end = run_end(bs, pos);
                        let s = t.kind->Symbol_0;
                        assert(s == lower_text(bs.subrange(pos, end)));
                        assert forall|k: int| pos <= k < pos + s.len() implies name_byte(
                            #[trigger] bs[k],
                        ) by {
                            lemma_name_byte(bs[k]);
                        }
                        if end < bs.len() {
                            lemma_name_byte(bs[end]);
                        }
                        assert forall|k: int| 0 <= k < s.len() implies #[trigger] s[k] == (if 65
                            <= bs[pos + k] <= 90 {
                            (bs[pos + k] + 32) as u8
                        } else {
                            bs[pos + k]
                        }) as char by {
                            assert(s[k] == lower_byte(bs.subrange(pos, end)[k]) as char);
                        }
                        assert(whole_run(bs, pos, s));
                    }
                    match lex_from(bs, p, l, c) {
                        Ok(rest) => {
                            let ts = seq![t] + rest;
                            assert forall|i: int|
                                0 <= i < ts.len() && (#[trigger] ts[i]).kind is Symbol && 0
                                    <= ts[i].span.offset < bs.len() && bs[ts[i].span.offset as int]
                                    != 34 implies whole_run(
                                bs,
                                ts[i].span.offset as int,
                                ts[i].kind->Symbol_0,
                            ) by {
                                if i > 0 {
                                    assert(ts[i] == rest[i - 1]);
                                }
                            }
                        },
                        Err(_) => {},
                    }
                }
            },
            LexStep::Fail(_) => {},
        }
    }
}

/// Names are whole: every symbol the tokenizer yields outside quotes is the
/// whole run of name bytes (ASCII letters and digits and `_ - + * / = < > #
/// .`) at its offset, lowercased; the run ends only at a byte that cannot stand
/// in a name, so `at_home` is one symbol.
pub proof fn law_symbols_are_whole_runs(input: Seq<char>)
    requires
        encode_utf8(input).len() <= usize::MAX,
    ensures
        spec_tokenize(input) matches Ok(ts) ==> symbols_whole(encode_utf8(input), ts),
{
    lemma_lex_runs(encode_utf8(input), 0, 1, 1);
}

} // verus!
