//! The domains block:
//! ```text
//! domains {
//!   duration(a, b) = 3
//!   start(a) in 0..10
//!   optional(x, y)
//!   makespan in 0..100
//!   machine1 = {a, b, c}
//!   demand(a, res1) = 2
//! }
//! ```

use vstd::prelude::*;

use crate::ast::views;
use crate::error::{err_at, ParseError};
use crate::jia_lang::ast::{
    Domain, DomainStmt, RealBound, SpecDomain, SpecDomainStmt, SpecRealBound,
};
use crate::jia_lang::lexer::{SpecToken, SpecTokenKind, TokenKind};
use crate::parser::cursor::{lemma_prepend_empty, lemma_prepend_push, lift, lift_seq, prepend, SpecParse};
use crate::text::{concat3, decimal, decimal_parts, literal_frac_part, literal_int_part, same_text, u64_text};

use super::decl::sp_ident_list;
use super::{
    advanced, moved, peek, ran, span_at, sp_expect_ident, sp_expect_ident_matching,
    sp_expect_number, sp_expect_token, stalled, Parser,
};

verus! {

// ---------------------------------------------------------------------------
// Bounds and domain values
// ---------------------------------------------------------------------------

/// The value of a decimal digit character (`0` for any other character).
pub open spec fn digit_of(c: char) -> nat {
    if '0' <= c <= '9' {
        (c as int - 48) as nat
    } else {
        0
    }
}

/// The value of a run of decimal digit characters.
pub open spec fn digit_chars_value(s: Seq<char>) -> nat
    decreases s.len(),
{
    if s.len() == 0 {
        0
    } else {
        digit_chars_value(s.drop_last()) * 10 + digit_of(s.last())
    }
}

/// An integer clamped into the range of `i64`.
pub open spec fn clamp_i64(v: int) -> i64 {
    if v > i64::MAX {
        i64::MAX
    } else if v < i64::MIN {
        i64::MIN
    } else {
        v as i64
    }
}

/// A bound with a whole value: finite, with no fractional digits but zeros.
pub open spec fn is_whole(b: SpecRealBound) -> bool {
    match b {
        SpecRealBound::Finite { text, .. } => literal_frac_part(text).len() == 0,
        SpecRealBound::Infinite { .. } => false,
    }
}

/// The value of a whole bound, clamped into `i64`.
pub open spec fn whole_value(b: SpecRealBound) -> i64 {
    match b {
        SpecRealBound::Finite { negative, text } => {
            let v = digit_chars_value(literal_int_part(text)) as int;
            clamp_i64(if negative { -v } else { v })
        },
        SpecRealBound::Infinite { .. } => 0,
    }
}

/// The range between two bounds: an integer range when both are whole, a
/// real range otherwise.
pub open spec fn range_of(lo: SpecRealBound, hi: SpecRealBound) -> SpecDomain {
    if is_whole(lo) && is_whole(hi) {
        SpecDomain::Range { min: whole_value(lo), max: whole_value(hi) }
    } else {
        SpecDomain::RealRange { min: lo, max: hi }
    }
}

/// The bound an integer literal gives, negated when a `-` came before it.
pub open spec fn number_bound(negate: bool, n: i64) -> SpecRealBound {
    SpecRealBound::Finite {
        negative: negate != (n < 0),
        text: decimal((if n < 0 { -(n as int) } else { n as int }) as nat),
    }
}

/// A bound: an optional `-`, then an integer, a real or `inf`.
pub open spec fn sp_bound(ts: Seq<SpecToken>, pos: int) -> SpecParse<SpecRealBound> {
    let negate = peek(ts, pos) == Some(SpecTokenKind::Minus);
    let p1 = if negate {
        pos + 1
    } else {
        pos
    };
    match peek(ts, p1) {
        Some(SpecTokenKind::Number(n)) => Ok((number_bound(negate, n), p1 + 1)),
        Some(SpecTokenKind::Float(t)) => Ok(
            (SpecRealBound::Finite { negative: negate, text: t }, p1 + 1),
        ),
        Some(SpecTokenKind::Ident(s)) => if s == "inf"@ {
            Ok((SpecRealBound::Infinite { negative: negate }, p1 + 1))
        } else {
            Err(err_at("expected number, float, or 'inf'"@, span_at(ts, p1)))
        },
        _ => Err(err_at("expected number, float, or 'inf'"@, span_at(ts, p1))),
    }
}

/// `lo .. hi`.
pub open spec fn sp_bounds(ts: Seq<SpecToken>, pos: int) -> SpecParse<(SpecRealBound, SpecRealBound)> {
    match sp_bound(ts, pos) {
        Err(e) => Err(e),
        Ok((lo, p1)) => match sp_expect_token(ts, p1, SpecTokenKind::DotDot) {
            Err(e) => Err(e),
            Ok((_, p2)) => match sp_bound(ts, p2) {
                Err(e) => Err(e),
                Ok((hi, p3)) => Ok(((lo, hi), p3)),
            },
        },
    }
}

/// `(, number)*`.
pub open spec fn sp_more_numbers(ts: Seq<SpecToken>, pos: int) -> SpecParse<Seq<i64>>
    decreases ts.len() - pos,
{
    if peek(ts, pos) == Some(SpecTokenKind::Comma) {
        match sp_expect_number(ts, pos + 1) {
            Err(e) => Err(e),
            Ok((v, q)) => if advanced(ts, pos, q) {
                prepend(seq![v], sp_more_numbers(ts, q))
            } else {
                Err(stalled(ts))
            },
        }
    } else {
        Ok((seq![], pos))
    }
}

/// `{ number (, number)* }` after its `{`.
pub open spec fn sp_enumeration(ts: Seq<SpecToken>, pos: int) -> SpecParse<Seq<i64>> {
    match sp_expect_number(ts, pos) {
        Err(e) => Err(e),
        Ok((v, p1)) => match prepend(seq![v], sp_more_numbers(ts, p1)) {
            Err(e) => Err(e),
            Ok((vs, p2)) => match sp_expect_token(ts, p2, SpecTokenKind::RBrace) {
                Err(e) => Err(e),
                Ok((_, p3)) => Ok((vs, p3)),
            },
        },
    }
}

/// A domain value after `in`: `{1, 3}`, `lo..hi`, `inf..hi` or `free`.
pub open spec fn sp_domain_value(ts: Seq<SpecToken>, pos: int) -> SpecParse<SpecDomain> {
    match peek(ts, pos) {
        Some(SpecTokenKind::LBrace) => match sp_enumeration(ts, pos + 1) {
            Err(e) => Err(e),
            Ok((vs, q)) => Ok((SpecDomain::Enumerated(vs), q)),
        },
        Some(SpecTokenKind::Number(_)) | Some(SpecTokenKind::Float(_)) | Some(
            SpecTokenKind::Minus,
        ) => match sp_bounds(ts, pos) {
            Err(e) => Err(e),
            Ok(((lo, hi), q)) => Ok((range_of(lo, hi), q)),
        },
        Some(SpecTokenKind::Ident(s)) if s == "free"@ => Ok(
            (
                SpecDomain::RealRange {
                    min: SpecRealBound::Infinite { negative: true },
                    max: SpecRealBound::Infinite { negative: false },
                },
                pos + 1,
            ),
        ),
        Some(SpecTokenKind::Ident(s)) if s == "inf"@ => match sp_bounds(ts, pos) {
            Err(e) => Err(e),
            Ok(((lo, hi), q)) => Ok((SpecDomain::RealRange { min: lo, max: hi }, q)),
        },
        _ => Err(
            err_at(
                "expected range (min..max), enumeration ({v1, v2, ...}), or 'free'"@,
                span_at(ts, pos),
            ),
        ),
    }
}

/// A domain specification after an interval attribute: `= n`, `= x.y`, or
/// `in value`.
pub open spec fn sp_domain_spec(ts: Seq<SpecToken>, pos: int) -> SpecParse<SpecDomain> {
    match peek(ts, pos) {
        Some(SpecTokenKind::Eq) => match peek(ts, pos + 1) {
            Some(SpecTokenKind::Number(n)) => Ok((SpecDomain::Fixed(n), pos + 2)),
            Some(SpecTokenKind::Float(t)) => Ok((SpecDomain::RealFixed(t), pos + 2)),
            _ => Err(err_at("expected number after '='"@, span_at(ts, pos + 1))),
        },
        Some(SpecTokenKind::Ident(kw)) if kw == "in"@ => sp_domain_value(ts, pos + 1),
        _ => Err(err_at("expected '=' or 'in' in domain specification"@, span_at(ts, pos))),
    }
}

// ---------------------------------------------------------------------------
// Statements
// ---------------------------------------------------------------------------

/// `attr(a, b) spec` for `attr` one of `duration`, `start`, `end`.
pub open spec fn sp_interval_attr(ts: Seq<SpecToken>, pos: int) -> SpecParse<SpecDomainStmt> {
    match sp_expect_ident(ts, pos) {
        Err(e) => Err(e),
        Ok((attr, p1)) => match sp_expect_token(ts, p1, SpecTokenKind::LParen) {
            Err(e) => Err(e),
            Ok((_, p2)) => match sp_ident_list(ts, p2) {
                Err(e) => Err(e),
                Ok((intervals, p3)) => match sp_expect_token(ts, p3, SpecTokenKind::RParen) {
                    Err(e) => Err(e),
                    Ok((_, p4)) => match sp_domain_spec(ts, p4) {
                        Err(e) => Err(e),
                        Ok((domain, p5)) => Ok(
                            (
                                if attr == "duration"@ {
                                    SpecDomainStmt::IntervalDuration { intervals, domain }
                                } else if attr == "start"@ {
                                    SpecDomainStmt::IntervalStart { intervals, domain }
                                } else {
                                    SpecDomainStmt::IntervalEnd { intervals, domain }
                                },
                                p5,
                            ),
                        ),
                    },
                },
            },
        },
    }
}

/// `optional(a, b)`.
pub open spec fn sp_optional(ts: Seq<SpecToken>, pos: int) -> SpecParse<SpecDomainStmt> {
    match sp_expect_ident_matching(ts, pos, "optional"@) {
        Err(e) => Err(e),
        Ok((_, p1)) => match sp_expect_token(ts, p1, SpecTokenKind::LParen) {
            Err(e) => Err(e),
            Ok((_, p2)) => match sp_ident_list(ts, p2) {
                Err(e) => Err(e),
                Ok((intervals, p3)) => match sp_expect_token(ts, p3, SpecTokenKind::RParen) {
                    Err(e) => Err(e),
                    Ok((_, p4)) => Ok((SpecDomainStmt::IntervalOptional { intervals }, p4)),
                },
            },
        },
    }
}

/// `demand(interval, set) = value`.
pub open spec fn sp_demand(ts: Seq<SpecToken>, pos: int) -> SpecParse<SpecDomainStmt> {
    match sp_expect_ident_matching(ts, pos, "demand"@) {
        Err(e) => Err(e),
        Ok((_, p1)) => match sp_expect_token(ts, p1, SpecTokenKind::LParen) {
            Err(e) => Err(e),
            Ok((_, p2)) => match sp_expect_ident(ts, p2) {
                Err(e) => Err(e),
                Ok((interval, p3)) => match sp_expect_token(ts, p3, SpecTokenKind::Comma) {
                    Err(e) => Err(e),
                    Ok((_, p4)) => match sp_expect_ident(ts, p4) {
                        Err(e) => Err(e),
                        Ok((set, p5)) => match sp_expect_token(ts, p5, SpecTokenKind::RParen) {
                            Err(e) => Err(e),
                            Ok((_, p6)) => match sp_expect_token(ts, p6, SpecTokenKind::Eq) {
                                Err(e) => Err(e),
                                Ok((_, p7)) => match sp_expect_number(ts, p7) {
                                    Err(e) => Err(e),
                                    Ok((value, p8)) => Ok(
                                        (SpecDomainStmt::Demand { interval, set, value }, p8),
                                    ),
                                },
                            },
                        },
                    },
                },
            },
        },
    }
}

/// `in value` after a variable's name.
pub open spec fn sp_integer_domain(ts: Seq<SpecToken>, pos: int, name: Seq<char>) -> SpecParse<
    SpecDomainStmt,
> {
    match sp_expect_ident_matching(ts, pos, "in"@) {
        Err(e) => Err(e),
        Ok((_, p1)) => match sp_domain_value(ts, p1) {
            Err(e) => Err(e),
            Ok((domain, p2)) => Ok((SpecDomainStmt::IntegerDomain { name, domain }, p2)),
        },
    }
}

/// `= {a, b}` after a set's name.
pub open spec fn sp_set_domain(ts: Seq<SpecToken>, pos: int, name: Seq<char>) -> SpecParse<
    SpecDomainStmt,
> {
    match sp_expect_token(ts, pos, SpecTokenKind::Eq) {
        Err(e) => Err(e),
        Ok((_, p1)) => match sp_expect_token(ts, p1, SpecTokenKind::LBrace) {
            Err(e) => Err(e),
            Ok((_, p2)) => match sp_ident_list(ts, p2) {
                Err(e) => Err(e),
                Ok((members, p3)) => match sp_expect_token(ts, p3, SpecTokenKind::RBrace) {
                    Err(e) => Err(e),
                    Ok((_, p4)) => Ok((SpecDomainStmt::SetDomain { name, members }, p4)),
                },
            },
        },
    }
}

/// One domain statement, chosen by its first identifier.
pub open spec fn sp_domain_stmt(ts: Seq<SpecToken>, pos: int) -> SpecParse<SpecDomainStmt> {
    match peek(ts, pos) {
        Some(SpecTokenKind::Ident(name)) => if name == "duration"@ || name == "start"@ || name
            == "end"@ {
            sp_interval_attr(ts, pos)
        } else if name == "optional"@ {
            sp_optional(ts, pos)
        } else if name == "demand"@ {
            sp_demand(ts, pos)
        } else {
            match peek(ts, pos + 1) {
                Some(SpecTokenKind::Ident(kw)) if kw == "in"@ => sp_integer_domain(
                    ts,
                    pos + 1,
                    name,
                ),
                Some(SpecTokenKind::Eq) => sp_set_domain(ts, pos + 1, name),
                _ => Err(
                    err_at(
                        "expected 'in' or '=' after '"@ + name + "'"@,
                        span_at(ts, pos + 1),
                    ),
                ),
            }
        },
        _ => Err(err_at("expected domain statement"@, span_at(ts, pos))),
    }
}

/// Domain statements up to the next `}`.
pub open spec fn sp_domain_stmts(ts: Seq<SpecToken>, pos: int) -> SpecParse<Seq<SpecDomainStmt>>
    decreases ts.len() - pos,
{
    if peek(ts, pos) == Some(SpecTokenKind::RBrace) {
        Ok((seq![], pos))
    } else {
        match sp_domain_stmt(ts, pos) {
            Err(e) => Err(e),
            Ok((d, q)) => if advanced(ts, pos, q) {
                prepend(seq![d], sp_domain_stmts(ts, q))
            } else {
                Err(stalled(ts))
            },
        }
    }
}

/// `domains { statements }`.
pub open spec fn sp_domains_block(ts: Seq<SpecToken>, pos: int) -> SpecParse<Seq<SpecDomainStmt>> {
    match sp_expect_ident_matching(ts, pos, "domains"@) {
        Err(e) => Err(e),
        Ok((_, p1)) => match sp_expect_token(ts, p1, SpecTokenKind::LBrace) {
            Err(e) => Err(e),
            Ok((_, p2)) => match sp_domain_stmts(ts, p2) {
                Err(e) => Err(e),
                Ok((ds, p3)) => match sp_expect_token(ts, p3, SpecTokenKind::RBrace) {
                    Err(e) => Err(e),
                    Ok((_, p4)) => Ok((ds, p4)),
                },
            },
        },
    }
}

// ---------------------------------------------------------------------------
// Parsing
// ---------------------------------------------------------------------------

/// The value of the digits of a whole bound, clamped into `i64`, as in
/// [`whole_value`].
fn whole_bound_value(negative: bool, text: &str) -> (v: i64)
    ensures
        v == whole_value(SpecRealBound::Finite { negative, text: text@ }),
{
    let (ip, _) = decimal_parts(text);
    let ghost ds = ip@;
    let mut v: u64 = 0;
    let mut big = false;
    let mut k: usize = 0;
    while k < ip.len()
        invariant
            ds == ip@,
            k <= ds.len(),
            !big ==> v == digit_chars_value(ds.take(k as int)) && v <= 9223372036854775808u64,
            big ==> digit_chars_value(ds.take(k as int)) > 9223372036854775808u64,
        decreases ds.len() - k,
    {
        let c = ip[k];
        let d: u64 = if '0' <= c && c <= '9' {
            (c as u32 - 48) as u64
        } else {
            0
        };
        assert(ds.take(k + 1).drop_last() =~= ds.take(k as int));
        assert(ds.take(k + 1).last() == c);
        assert(d == digit_of(c));
        if !big {
            if v > 922337203685477580 {
                big = true;
            } else {
                v = v * 10 + d;
                if v > 9223372036854775808u64 {
                    big = true;
                }
            }
        }
        k = k + 1;
    }
    assert(ds.take(ds.len() as int) =~= ds);
    if big {
        if negative {
            i64::MIN
        } else {
            i64::MAX
        }
    } else if v == 9223372036854775808u64 {
        if negative {
            i64::MIN
        } else {
            i64::MAX
        }
    } else if negative {
        -(v as i64)
    } else {
        v as i64
    }
}

/// Whether a bound is whole, as in [`is_whole`].
fn bound_is_whole(b: &RealBound) -> (r: bool)
    ensures
        r == is_whole(b@),
{
    match b {
        RealBound::Finite { text, .. } => {
            let (_, f) = decimal_parts(text.as_str());
            f.len() == 0
        },
        RealBound::Infinite { .. } => false,
    }
}

impl<'a> Parser<'a> {
    /// Parses a `domains { ... }` block.
    pub fn parse_domains_block(&mut self) -> (r: Result<Vec<DomainStmt>, ParseError>)
        requires
            old(self).wf(),
        ensures
            ran(*old(self), *final(self)),
            moved(*old(self), *final(self), r),
            lift_seq(r, final(self).pos) == sp_domains_block(old(self).ts(), old(self).pos as int),
    {
        let ghost ts = self.ts();
        self.expect_ident_matching("domains")?;
        self.expect_token(TokenKind::LBrace)?;
        let ghost p2 = self.pos;
        let mut stmts: Vec<DomainStmt> = Vec::new();
        assert(views(stmts@) =~= seq![]);
        while !self.at_plain(TokenKind::RBrace)
            invariant
                ran(*old(self), *self),
                ts == self.ts(),
                old(self).pos < p2 <= self.pos,
                self.pos <= ts.len(),
                sp_domains_block(ts, old(self).pos as int) == (match prepend(
                    views(stmts@),
                    sp_domain_stmts(ts, self.pos as int),
                ) {
                    Err(e) => Err(e),
                    Ok((ds, p3)) => match sp_expect_token(ts, p3, SpecTokenKind::RBrace) {
                        Err(e) => Err(e),
                        Ok((_, p4)) => Ok((ds, p4)),
                    },
                }),
            decreases ts.len() - self.pos,
        {
            let ghost before = views(stmts@);
            let d = self.parse_domain_stmt()?;
            let ghost dv = d@;
            stmts.push(d);
            assert(views(stmts@) =~= before.push(dv));
            proof {
                lemma_prepend_push(before, dv, sp_domain_stmts(ts, self.pos as int));
            }
        }
        proof {
            lemma_prepend_empty(views(stmts@), self.pos as int);
        }
        self.expect_token(TokenKind::RBrace)?;
        Ok(stmts)
    }

    /// Parses one domain statement.
    fn parse_domain_stmt(&mut self) -> (r: Result<DomainStmt, ParseError>)
        requires
            old(self).wf(),
        ensures
            ran(*old(self), *final(self)),
            moved(*old(self), *final(self), r),
            lift(r, final(self).pos) == sp_domain_stmt(old(self).ts(), old(self).pos as int),
    {
        let name = match self.peek_kind() {
            Some(TokenKind::Ident(s)) => s,
            _ => {
                return Err(
                    ParseError::new(
                        String::from_str("expected domain statement"),
                        self.current_span(),
                    ),
                );
            },
        };
        let n = name.as_str();
        if same_text(n, "duration") || same_text(n, "start") || same_text(n, "end") {
            return self.parse_interval_attr_stmt();
        }
        if same_text(n, "optional") {
            return self.parse_optional_stmt();
        }
        if same_text(n, "demand") {
            return self.parse_demand_stmt();
        }
        let ident = self.expect_ident()?;
        match self.peek_kind() {
            Some(TokenKind::Ident(kw)) => {
                if same_text(kw.as_str(), "in") {
                    return self.parse_integer_domain(ident);
                }
            },
            Some(TokenKind::Eq) => {
                return self.parse_set_domain(ident);
            },
            _ => {},
        }
        let msg = concat3("expected 'in' or '=' after '", ident.as_str(), "'");
        Err(ParseError::new(msg, self.current_span()))
    }

    /// Parses `duration(a, b) = 3` or `start(a) in 0..10` (and `end`).
    fn parse_interval_attr_stmt(&mut self) -> (r: Result<DomainStmt, ParseError>)
        requires
            old(self).wf(),
        ensures
            ran(*old(self), *final(self)),
            moved(*old(self), *final(self), r),
            lift(r, final(self).pos) == sp_interval_attr(old(self).ts(), old(self).pos as int),
    {
        let attr = self.expect_ident()?;
        self.expect_token(TokenKind::LParen)?;
        let intervals = self.parse_ident_list()?;
        self.expect_token(TokenKind::RParen)?;
        let domain = self.parse_domain_spec()?;
        if same_text(attr.as_str(), "duration") {
            Ok(DomainStmt::IntervalDuration { intervals, domain })
        } else if same_text(attr.as_str(), "start") {
            Ok(DomainStmt::IntervalStart { intervals, domain })
        } else {
            Ok(DomainStmt::IntervalEnd { intervals, domain })
        }
    }

    /// Parses `optional(x, y, z)`.
    fn parse_optional_stmt(&mut self) -> (r: Result<DomainStmt, ParseError>)
        requires
            old(self).wf(),
        ensures
            ran(*old(self), *final(self)),
            moved(*old(self), *final(self), r),
            lift(r, final(self).pos) == sp_optional(old(self).ts(), old(self).pos as int),
    {
        self.expect_ident_matching("optional")?;
        self.expect_token(TokenKind::LParen)?;
        let intervals = self.parse_ident_list()?;
        self.expect_token(TokenKind::RParen)?;
        Ok(DomainStmt::IntervalOptional { intervals })
    }

    /// Parses `demand(interval, set) = value`.
    fn parse_demand_stmt(&mut self) -> (r: Result<DomainStmt, ParseError>)
        requires
            old(self).wf(),
        ensures
            ran(*old(self), *final(self)),
            moved(*old(self), *final(self), r),
            lift(r, final(self).pos) == sp_demand(old(self).ts(), old(self).pos as int),
    {
        self.expect_ident_matching("demand")?;
        self.expect_token(TokenKind::LParen)?;
        let interval = self.expect_ident()?;
        self.expect_token(TokenKind::Comma)?;
        let set = self.expect_ident()?;
        self.expect_token(TokenKind::RParen)?;
        self.expect_token(TokenKind::Eq)?;
        let value = self.expect_number()?;
        Ok(DomainStmt::Demand { interval, set, value })
    }

    /// Parses `in value` after the variable's name.
    fn parse_integer_domain(&mut self, name: String) -> (r: Result<DomainStmt, ParseError>)
        requires
            old(self).wf(),
        ensures
            ran(*old(self), *final(self)),
            moved(*old(self), *final(self), r),
            lift(r, final(self).pos) == sp_integer_domain(
                old(self).ts(),
                old(self).pos as int,
                name@,
            ),
    {
        self.expect_ident_matching("in")?;
        let domain = self.parse_domain_value()?;
        Ok(DomainStmt::IntegerDomain { name, domain })
    }

    /// Parses `= {a, b, c}` after the set's name.
    fn parse_set_domain(&mut self, name: String) -> (r: Result<DomainStmt, ParseError>)
        requires
            old(self).wf(),
        ensures
            ran(*old(self), *final(self)),
            moved(*old(self), *final(self), r),
            lift(r, final(self).pos) == sp_set_domain(old(self).ts(), old(self).pos as int, name@),
    {
        self.expect_token(TokenKind::Eq)?;
        self.expect_token(TokenKind::LBrace)?;
        let members = self.parse_ident_list()?;
        self.expect_token(TokenKind::RBrace)?;
        Ok(DomainStmt::SetDomain { name, members })
    }

    /// Parses a domain specification after an interval attribute.
    fn parse_domain_spec(&mut self) -> (r: Result<Domain, ParseError>)
        requires
            old(self).wf(),
        ensures
            ran(*old(self), *final(self)),
            moved(*old(self), *final(self), r),
            lift(r, final(self).pos) == sp_domain_spec(old(self).ts(), old(self).pos as int),
    {
        if self.at_plain(TokenKind::Eq) {
            self.pos = self.pos + 1;
            if self.pos < self.tokens.len() {
                match &self.tokens[self.pos].kind {
                    TokenKind::Number(n) => {
                        let n = *n;
                        self.pos = self.pos + 1;
                        return Ok(Domain::Fixed(n));
                    },
                    TokenKind::Float(t) => {
                        let t = t.clone();
                        self.pos = self.pos + 1;
                        return Ok(Domain::RealFixed(t));
                    },
                    _ => {},
                }
            }
            return Err(
                ParseError::new(String::from_str("expected number after '='"), self.current_span()),
            );
        }
        if self.pos < self.tokens.len() {
            match &self.tokens[self.pos].kind {
                TokenKind::Ident(kw) => {
                    if same_text(kw.as_str(), "in") {
                        self.pos = self.pos + 1;
                        return self.parse_domain_value();
                    }
                },
                _ => {},
            }
        }
        Err(
            ParseError::new(
                String::from_str("expected '=' or 'in' in domain specification"),
                self.current_span(),
            ),
        )
    }

    /// Parses a bound: an optional `-`, then an integer, a real or `inf`.
    fn parse_bound(&mut self) -> (r: Result<RealBound, ParseError>)
        requires
            old(self).wf(),
        ensures
            ran(*old(self), *final(self)),
            moved(*old(self), *final(self), r),
            lift(r, final(self).pos) == sp_bound(old(self).ts(), old(self).pos as int),
    {
        let negate = self.at_plain(TokenKind::Minus);
        if negate {
            self.pos = self.pos + 1;
        }
        if self.pos < self.tokens.len() {
            match &self.tokens[self.pos].kind {
                TokenKind::Number(n) => {
                    let n = *n;
                    let abs: u64 = if n < 0 {
                        if n == i64::MIN {
                            9223372036854775808u64
                        } else {
                            (-n) as u64
                        }
                    } else {
                        n as u64
                    };
                    let text = u64_text(abs);
                    self.pos = self.pos + 1;
                    return Ok(RealBound::Finite { negative: negate != (n < 0), text });
                },
                TokenKind::Float(t) => {
                    let text = t.clone();
                    self.pos = self.pos + 1;
                    return Ok(RealBound::Finite { negative: negate, text });
                },
                TokenKind::Ident(s) => {
                    if same_text(s.as_str(), "inf") {
                        self.pos = self.pos + 1;
                        return Ok(RealBound::Infinite { negative: negate });
                    }
                },
                _ => {},
            }
        }
        Err(
            ParseError::new(
                String::from_str("expected number, float, or 'inf'"),
                self.current_span(),
            ),
        )
    }

    /// Parses `lo .. hi`.
    fn parse_bounds(&mut self) -> (r: Result<(RealBound, RealBound), ParseError>)
        requires
            old(self).wf(),
        ensures
            ran(*old(self), *final(self)),
            moved(*old(self), *final(self), r),
            match r {
                Ok((lo, hi)) => sp_bounds(old(self).ts(), old(self).pos as int) == Ok::<
                    ((SpecRealBound, SpecRealBound), int),
                    crate::error::SpecParseError,
                >(((lo@, hi@), final(self).pos as int)),
                Err(e) => sp_bounds(old(self).ts(), old(self).pos as int) == Err::<
                    ((SpecRealBound, SpecRealBound), int),
                    crate::error::SpecParseError,
                >(e@),
            },
    {
        let lo = self.parse_bound()?;
        self.expect_token(TokenKind::DotDot)?;
        let hi = self.parse_bound()?;
        Ok((lo, hi))
    }

    /// Parses `{n, n, ...}` after its `{`.
    fn parse_enumeration(&mut self) -> (r: Result<Vec<i64>, ParseError>)
        requires
            old(self).wf(),
        ensures
            ran(*old(self), *final(self)),
            moved(*old(self), *final(self), r),
            lift_seq(r, final(self).pos) == sp_enumeration(old(self).ts(), old(self).pos as int),
    {
        let ghost ts = self.ts();
        let first = self.expect_number()?;
        let ghost p1 = self.pos;
        let mut values: Vec<i64> = Vec::new();
        values.push(first);
        assert(views(values@) =~= seq![first]);
        while self.at_plain(TokenKind::Comma)
            invariant
                ran(*old(self), *self),
                ts == self.ts(),
                old(self).pos < p1 <= self.pos,
                self.pos <= ts.len(),
                prepend(seq![views(values@)[0]], sp_more_numbers(ts, p1 as int)) == prepend(
                    views(values@),
                    sp_more_numbers(ts, self.pos as int),
                ),
                views(values@).len() >= 1,
                sp_expect_number(ts, old(self).pos as int) == Ok::<(i64, int), crate::error::SpecParseError>((views(values@)[0], p1 as int)),
            decreases ts.len() - self.pos,
        {
            let ghost before = views(values@);
            self.pos = self.pos + 1;
            let v = self.expect_number()?;
            values.push(v);
            assert(views(values@) =~= before.push(v));
            proof {
                lemma_prepend_push(before, v, sp_more_numbers(ts, self.pos as int));
            }
        }
        proof {
            lemma_prepend_empty(views(values@), self.pos as int);
        }
        self.expect_token(TokenKind::RBrace)?;
        Ok(values)
    }

    /// Parses a domain value after `in`.
    fn parse_domain_value(&mut self) -> (r: Result<Domain, ParseError>)
        requires
            old(self).wf(),
        ensures
            ran(*old(self), *final(self)),
            moved(*old(self), *final(self), r),
            lift(r, final(self).pos) == sp_domain_value(old(self).ts(), old(self).pos as int),
    {
        if self.pos < self.tokens.len() {
            match &self.tokens[self.pos].kind {
                TokenKind::LBrace => {
                    self.pos = self.pos + 1;
                    let values = self.parse_enumeration()?;
                    assert(views(values@) =~= values@);
                    return Ok(Domain::Enumerated(values));
                },
                TokenKind::Number(_) | TokenKind::Float(_) | TokenKind::Minus => {
                    let (lo, hi) = self.parse_bounds()?;
                    if bound_is_whole(&lo) && bound_is_whole(&hi) {
                        let min = match &lo {
                            RealBound::Finite { negative, text } => whole_bound_value(
                                *negative,
                                text.as_str(),
                            ),
                            RealBound::Infinite { .. } => 0,
                        };
                        let max = match &hi {
                            RealBound::Finite { negative, text } => whole_bound_value(
                                *negative,
                                text.as_str(),
                            ),
                            RealBound::Infinite { .. } => 0,
                        };
                        return Ok(Domain::Range { min, max });
                    }
                    return Ok(Domain::RealRange { min: lo, max: hi });
                },
                TokenKind::Ident(s) => {
                    if same_text(s.as_str(), "free") {
                        self.pos = self.pos + 1;
                        return Ok(
                            Domain::RealRange {
                                min: RealBound::Infinite { negative: true },
                                max: RealBound::Infinite { negative: false },
                            },
                        );
                    }
                    if same_text(s.as_str(), "inf") {
                        let (lo, hi) = self.parse_bounds()?;
                        return Ok(Domain::RealRange { min: lo, max: hi });
                    }
                },
                _ => {},
            }
        }
        Err(
            ParseError::new(
                String::from_str(
                    "expected range (min..max), enumeration ({v1, v2, ...}), or 'free'",
                ),
                self.current_span(),
            ),
        )
    }
}

} // verus!
