//! How the parsers consume parentheses: every successful parse of a
//! condition takes exactly one balanced parenthesised expression.

use vstd::prelude::*;

use crate::lexer::{SpecToken, SpecTokenKind};

use super::condition::{
    sp_comparison_rest, sp_cond_close, sp_cond_keyword, sp_condition, sp_conditions,
    sp_predicate_rest, sp_quantified, sp_two_close,
};
use super::cursor::{at_lparen, at_rparen, at_symbol};
use super::expr::{binop_of, sp_call_rest, sp_fold, sp_fold_close, sp_numeric};
use super::terms::{
    dash_type, sp_symbols, sp_term, sp_terms, sp_type_name, sp_typed_from, sp_typed_list,
};
use super::utils::sp_number_literal;

verus! {

// ---------------------------------------------------------------------------
// Counting parentheses
// ---------------------------------------------------------------------------

/// What a token adds to the nesting depth: `(` one, `)` minus one.
pub open spec fn paren_delta(k: SpecTokenKind) -> int {
    match k {
        SpecTokenKind::LParen => 1,
        SpecTokenKind::RParen => -1,
        _ => 0,
    }
}

/// The number of `(` less the number of `)` among the tokens from `a` to `b`.
pub open spec fn net(ts: Seq<SpecToken>, a: int, b: int) -> int
    decreases b - a,
{
    if b <= a {
        0
    } else {
        net(ts, a, b - 1) + paren_delta(ts[b - 1].kind)
    }
}

/// The tokens from `a` to `b` are a run of balanced items: no prefix closes
/// more than it opens, and the whole run opens as many as it closes.
pub open spec fn nested(ts: Seq<SpecToken>, a: int, b: int) -> bool {
    &&& 0 <= a <= b <= ts.len()
    &&& net(ts, a, b) == 0
    &&& forall|k: int| a <= k <= b ==> net(ts, a, k) >= 0
}

/// The tokens from `a` to `b` are a balanced run followed by one `)`.
pub open spec fn closes(ts: Seq<SpecToken>, a: int, b: int) -> bool {
    &&& a < b <= ts.len()
    &&& nested(ts, a, b - 1)
    &&& ts[b - 1].kind is RParen
}

/// The tokens from `a` to `b` are exactly one parenthesised expression: they
/// start with `(` and end with `)`, every proper nonempty prefix holds more `(`
/// than `)`, and the whole holds as many of each.
pub open spec fn one_sexp(ts: Seq<SpecToken>, a: int, b: int) -> bool {
    &&& 0 <= a < b <= ts.len()
    &&& ts[a].kind is LParen
    &&& ts[b - 1].kind is RParen
    &&& net(ts, a, b) == 0
    &&& forall|k: int| a < k < b ==> net(ts, a, k) > 0
}

proof fn lemma_net_split(ts: Seq<SpecToken>, a: int, b: int, c: int)
    requires
        a <= b <= c,
    ensures
        net(ts, a, c) == net(ts, a, b) + net(ts, b, c),
    decreases c - b,
{
    if c > b {
        lemma_net_split(ts, a, b, c - 1);
    }
}

proof fn lemma_nested_empty(ts: Seq<SpecToken>, a: int)
    requires
        0 <= a <= ts.len(),
    ensures
        nested(ts, a, a),
{
}

/// One token that is no parenthesis is a balanced run.
proof fn lemma_nested_atom(ts: Seq<SpecToken>, a: int)
    requires
        0 <= a < ts.len(),
        !(ts[a].kind is LParen),
        !(ts[a].kind is RParen),
    ensures
        nested(ts, a, a + 1),
{
    assert(net(ts, a, a + 1) == net(ts, a, a) + paren_delta(ts[a].kind));
}

/// Balanced runs one after the other make a balanced run.
proof fn lemma_nested_concat(ts: Seq<SpecToken>, a: int, b: int, c: int)
    requires
        nested(ts, a, b),
        nested(ts, b, c),
    ensures
        nested(ts, a, c),
{
    lemma_net_split(ts, a, b, c);
    assert forall|k: int| a <= k <= c implies net(ts, a, k) >= 0 by {
        if k > b {
            lemma_net_split(ts, a, b, k);
        }
    }
}

/// A balanced run followed by `)` closes.
proof fn lemma_close(ts: Seq<SpecToken>, a: int, b: int)
    requires
        nested(ts, a, b),
        b < ts.len(),
        ts[b].kind is RParen,
    ensures
        closes(ts, a, b + 1),
{
}

/// A balanced run followed by a closing run closes.
proof fn lemma_concat_closes(ts: Seq<SpecToken>, a: int, b: int, c: int)
    requires
        nested(ts, a, b),
        closes(ts, b, c),
    ensures
        closes(ts, a, c),
{
    lemma_nested_concat(ts, a, b, c - 1);
}

/// `(` followed by a closing run is one parenthesised expression.
proof fn lemma_wrap(ts: Seq<SpecToken>, a: int, c: int)
    requires
        0 <= a < ts.len(),
        ts[a].kind is LParen,
        closes(ts, a + 1, c),
    ensures
        one_sexp(ts, a, c),
        nested(ts, a, c),
{
    lemma_net_split(ts, a, a + 1, c - 1);
    assert(net(ts, a, a + 1) == 1) by {
        assert(net(ts, a, a + 1) == net(ts, a, a) + paren_delta(ts[a].kind));
    }
    assert(net(ts, a, c) == net(ts, a, c - 1) + paren_delta(ts[c - 1].kind));
    assert(net(ts, a, c - 1) == 1);
    assert forall|k: int| a < k < c implies net(ts, a, k) > 0 by {
        lemma_net_split(ts, a, a + 1, k);
        assert(net(ts, a + 1, k) >= 0);
    }
    assert forall|k: int| a <= k <= c implies net(ts, a, k) >= 0 by {
        if a < k < c {
            lemma_net_split(ts, a, a + 1, k);
        }
    }
}

/// A single token that is no parenthesis, then a closing run.
proof fn lemma_atom_closes(ts: Seq<SpecToken>, a: int, c: int)
    requires
        0 <= a < ts.len(),
        !(ts[a].kind is LParen),
        !(ts[a].kind is RParen),
        closes(ts, a + 1, c),
    ensures
        closes(ts, a, c),
{
    lemma_nested_atom(ts, a);
    lemma_concat_closes(ts, a, a + 1, c);
}

// ---------------------------------------------------------------------------
// Terms, types and numbers
// ---------------------------------------------------------------------------

proof fn lemma_term(ts: Seq<SpecToken>, pos: int)
    requires
        0 <= pos <= ts.len(),
    ensures
        sp_term(ts, pos) matches Ok((_, q)) ==> nested(ts, pos, q),
{
    if sp_term(ts, pos) is Ok {
        lemma_nested_atom(ts, pos);
    }
}

proof fn lemma_number(ts: Seq<SpecToken>, pos: int)
    requires
        0 <= pos <= ts.len(),
    ensures
        sp_number_literal(ts, pos) matches Ok((_, q)) ==> nested(ts, pos, q),
{
    if sp_number_literal(ts, pos) is Ok {
        lemma_nested_atom(ts, pos);
    }
}

proof fn lemma_terms(ts: Seq<SpecToken>, pos: int)
    requires
        0 <= pos <= ts.len(),
    ensures
        sp_terms(ts, pos) matches Ok((_, q)) ==> nested(ts, pos, q),
    decreases ts.len() - pos,
{
    if !at_rparen(ts, pos) {
        lemma_term(ts, pos);
        match sp_term(ts, pos) {
            Ok((x, p)) => {
                if pos < p <= ts.len() {
                    lemma_terms(ts, p);
                    if let Ok((_, q)) = sp_terms(ts, p) {
                        lemma_nested_concat(ts, pos, p, q);
                    }
                }
            },
            Err(_) => {},
        }
    }
}

proof fn lemma_symbols(ts: Seq<SpecToken>, pos: int)
    requires
        0 <= pos <= ts.len(),
    ensures
        sp_symbols(ts, pos) matches Ok((_, q)) ==> nested(ts, pos, q),
    decreases ts.len() - pos,
{
    if !at_rparen(ts, pos) {
        if pos < ts.len() && ts[pos].kind is Symbol {
            lemma_nested_atom(ts, pos);
            lemma_symbols(ts, pos + 1);
            if let Ok((_, q)) = sp_symbols(ts, pos + 1) {
                lemma_nested_concat(ts, pos, pos + 1, q);
            }
        }
    }
}

proof fn lemma_type_name(ts: Seq<SpecToken>, pos: int)
    requires
        0 <= pos <= ts.len(),
    ensures
        sp_type_name(ts, pos) matches Ok((_, q)) ==> nested(ts, pos, q),
{
    if at_lparen(ts, pos) {
        if pos + 2 <= ts.len() && sp_type_name(ts, pos) is Ok {
            lemma_symbols(ts, pos + 2);
            if let Ok((_, p3)) = sp_symbols(ts, pos + 2) {
                lemma_nested_atom(ts, pos + 1);
                lemma_nested_concat(ts, pos + 1, pos + 2, p3);
                lemma_close(ts, pos + 1, p3);
                lemma_wrap(ts, pos, p3 + 1);
            }
        }
    } else if sp_type_name(ts, pos) is Ok {
        lemma_nested_atom(ts, pos);
    }
}

proof fn lemma_typed_from(
    ts: Seq<SpecToken>,
    pos: int,
    vars: bool,
    groups: Seq<crate::ast::SpecTypedGroup>,
    pending: Seq<Seq<char>>,
)
    requires
        0 <= pos <= ts.len(),
    ensures
        sp_typed_from(ts, pos, vars, groups, pending) matches Ok((_, q)) ==> nested(ts, pos, q),
    decreases ts.len() - pos,
{
    if at_rparen(ts, pos) || !(0 <= pos < ts.len()) {
    } else if at_symbol(ts, pos, "-"@) {
        lemma_nested_atom(ts, pos);
        lemma_type_name(ts, pos + 1);
        if let Ok((ty, p)) = sp_type_name(ts, pos + 1) {
            if pos < p <= ts.len() {
                lemma_typed_from(ts, p, vars, groups.push(super::terms::group(pending, Some(ty))), seq![]);
                if let Ok((_, q)) = sp_typed_from(
                    ts,
                    p,
                    vars,
                    groups.push(super::terms::group(pending, Some(ty))),
                    seq![],
                ) {
                    lemma_nested_concat(ts, pos, pos + 1, p);
                    lemma_nested_concat(ts, pos, p, q);
                }
            }
        }
    } else if dash_type(ts[pos].kind) is Some && pending.len() > 0 {
        lemma_nested_atom(ts, pos);
        let g = groups.push(super::terms::group(pending, dash_type(ts[pos].kind)));
        lemma_typed_from(ts, pos + 1, vars, g, seq![]);
        if let Ok((_, q)) = sp_typed_from(ts, pos + 1, vars, g, seq![]) {
            lemma_nested_concat(ts, pos, pos + 1, q);
        }
    } else {
        if ts[pos].kind is Symbol || ts[pos].kind is Variable {
            lemma_nested_atom(ts, pos);
        }
        match super::terms::sp_list_item(ts, pos, vars) {
            Ok((x, p)) => {
                if pos < p <= ts.len() {
                    lemma_typed_from(ts, p, vars, groups, pending.push(x));
                    if let Ok((_, q)) = sp_typed_from(ts, p, vars, groups, pending.push(x)) {
                        lemma_nested_concat(ts, pos, p, q);
                    }
                }
            },
            Err(_) => {},
        }
    }
}

proof fn lemma_typed_list(ts: Seq<SpecToken>, pos: int, vars: bool)
    requires
        0 <= pos <= ts.len(),
    ensures
        sp_typed_list(ts, pos, vars) matches Ok((_, q)) ==> nested(ts, pos, q),
{
    lemma_typed_from(ts, pos, vars, seq![], seq![]);
}

proof fn lemma_call_rest(ts: Seq<SpecToken>, pos: int, name: Seq<char>)
    requires
        0 <= pos <= ts.len(),
    ensures
        sp_call_rest(ts, pos, name) matches Ok((_, q)) ==> closes(ts, pos, q),
{
    lemma_terms(ts, pos);
    if let Ok((_, q)) = sp_terms(ts, pos) {
        if sp_call_rest(ts, pos, name) is Ok {
            lemma_close(ts, pos, q);
        }
    }
}

proof fn lemma_numeric(ts: Seq<SpecToken>, pos: int, metric: bool)
    requires
        0 <= pos <= ts.len(),
    ensures
        sp_numeric(ts, pos, metric) matches Ok((_, q)) ==> nested(ts, pos, q),
    decreases ts.len() - pos, 1int,
{
    if at_lparen(ts, pos) {
        let p1 = pos + 1;
        if p1 >= ts.len() {
        } else if metric && crate::lexer::is_symbol_like(ts[p1].kind, "total-time"@) {
            if sp_numeric(ts, pos, metric) is Ok {
                lemma_nested_atom(ts, p1);
                lemma_close(ts, p1, p1 + 1);
                lemma_wrap(ts, pos, p1 + 2);
            }
        } else {
            match ts[p1].kind {
                SpecTokenKind::Symbol(s) => match binop_of(s) {
                    Some(op) => {
                        lemma_numeric(ts, p1 + 1, metric);
                        match sp_numeric(ts, p1 + 1, metric) {
                            Ok((first, q1)) => {
                                if pos < q1 <= ts.len() {
                                    lemma_nested_atom(ts, p1);
                                    lemma_nested_concat(ts, p1, p1 + 1, q1);
                                    if at_rparen(ts, q1) && s == "-"@ {
                                        lemma_close(ts, p1, q1);
                                        lemma_wrap(ts, pos, q1 + 1);
                                    } else {
                                        lemma_fold_close(ts, q1, metric, op, first);
                                        if let Ok((_, q)) = sp_fold_close(
                                            ts,
                                            q1,
                                            metric,
                                            op,
                                            first,
                                        ) {
                                            lemma_concat_closes(ts, p1, q1, q);
                                            lemma_wrap(ts, pos, q);
                                        }
                                    }
                                }
                            },
                            Err(_) => {},
                        }
                    },
                    None => {
                        lemma_call_rest(ts, p1 + 1, s);
                        if let Ok((_, q)) = sp_call_rest(ts, p1 + 1, s) {
                            lemma_atom_closes(ts, p1, q);
                            lemma_wrap(ts, pos, q);
                        }
                    },
                },
                _ => {},
            }
        }
    } else if sp_numeric(ts, pos, metric) is Ok {
        lemma_nested_atom(ts, pos);
    }
}

proof fn lemma_fold(
    ts: Seq<SpecToken>,
    pos: int,
    metric: bool,
    op: crate::ast::BinaryOp,
    acc: crate::ast::SpecNumericExpr,
)
    requires
        0 <= pos <= ts.len(),
    ensures
        sp_fold(ts, pos, metric, op, acc) matches Ok((_, q)) ==> nested(ts, pos, q),
    decreases ts.len() - pos, 2int,
{
    if !at_rparen(ts, pos) {
        lemma_numeric(ts, pos, metric);
        match sp_numeric(ts, pos, metric) {
            Ok((next, q)) => {
                if pos < q <= ts.len() {
                    lemma_fold(ts, q, metric, op, super::expr::binary(op, acc, next));
                    if let Ok((_, q2)) = sp_fold(
                        ts,
                        q,
                        metric,
                        op,
                        super::expr::binary(op, acc, next),
                    ) {
                        lemma_nested_concat(ts, pos, q, q2);
                    }
                }
            },
            Err(_) => {},
        }
    }
}

proof fn lemma_fold_close(
    ts: Seq<SpecToken>,
    pos: int,
    metric: bool,
    op: crate::ast::BinaryOp,
    first: crate::ast::SpecNumericExpr,
)
    requires
        0 <= pos <= ts.len(),
    ensures
        sp_fold_close(ts, pos, metric, op, first) matches Ok((_, q)) ==> closes(ts, pos, q),
    decreases ts.len() - pos, 3int,
{
    lemma_fold(ts, pos, metric, op, first);
    if let Ok((_, q2)) = sp_fold(ts, pos, metric, op, first) {
        if sp_fold_close(ts, pos, metric, op, first) is Ok {
            lemma_close(ts, pos, q2);
        }
    }
}


// ---------------------------------------------------------------------------
// Conditions
// ---------------------------------------------------------------------------

proof fn lemma_condition(ts: Seq<SpecToken>, pos: int)
    requires
        0 <= pos <= ts.len(),
    ensures
        sp_condition(ts, pos) matches Ok((_, q)) ==> one_sexp(ts, pos, q) && nested(ts, pos, q),
    decreases ts.len() - pos, 1int,
{
    if at_lparen(ts, pos) && pos + 1 < ts.len() {
        match ts[pos + 1].kind {
            SpecTokenKind::Symbol(s) => {
                lemma_cond_keyword(ts, pos + 2, s);
                if let Ok((_, q)) = sp_cond_keyword(ts, pos + 2, s) {
                    lemma_atom_closes(ts, pos + 1, q);
                    lemma_wrap(ts, pos, q);
                }
            },
            _ => {},
        }
    }
}

proof fn lemma_conditions(ts: Seq<SpecToken>, pos: int)
    requires
        0 <= pos <= ts.len(),
    ensures
        sp_conditions(ts, pos) matches Ok((_, q)) ==> nested(ts, pos, q),
    decreases ts.len() - pos, 2int,
{
    if !at_rparen(ts, pos) {
        lemma_condition(ts, pos);
        match sp_condition(ts, pos) {
            Ok((c, q)) => {
                if pos < q <= ts.len() {
                    lemma_conditions(ts, q);
                    if let Ok((_, q2)) = sp_conditions(ts, q) {
                        lemma_nested_concat(ts, pos, q, q2);
                    }
                }
            },
            Err(_) => {},
        }
    }
}

proof fn lemma_cond_close(ts: Seq<SpecToken>, pos: int)
    requires
        0 <= pos <= ts.len(),
    ensures
        sp_cond_close(ts, pos) matches Ok((_, q)) ==> closes(ts, pos, q),
    decreases ts.len() - pos, 2int,
{
    lemma_condition(ts, pos);
    if let Ok((_, q)) = sp_condition(ts, pos) {
        if sp_cond_close(ts, pos) is Ok {
            lemma_close(ts, pos, q);
        }
    }
}

proof fn lemma_two_close(ts: Seq<SpecToken>, pos: int)
    requires
        0 <= pos <= ts.len(),
    ensures
        sp_two_close(ts, pos) matches Ok((_, q)) ==> closes(ts, pos, q),
    decreases ts.len() - pos, 2int,
{
    lemma_condition(ts, pos);
    if let Ok((_, q)) = sp_condition(ts, pos) {
        if pos < q <= ts.len() {
            lemma_cond_close(ts, q);
            if let Ok((_, q2)) = sp_cond_close(ts, q) {
                lemma_concat_closes(ts, pos, q, q2);
            }
        }
    }
}

proof fn lemma_quantified(ts: Seq<SpecToken>, pos: int, exists: bool)
    requires
        0 <= pos <= ts.len(),
    ensures
        sp_quantified(ts, pos, exists) matches Ok((_, q)) ==> closes(ts, pos, q),
    decreases ts.len() - pos, 3int,
{
    if at_lparen(ts, pos) {
        let p1 = pos + 1;
        lemma_typed_list(ts, p1, true);
        if let Ok((_, p2)) = sp_typed_list(ts, p1, true) {
            if p2 < ts.len() && ts[p2].kind is RParen {
                let p3 = p2 + 1;
                lemma_close(ts, p1, p2);
                lemma_wrap(ts, pos, p3);
                lemma_cond_close(ts, p3);
                if let Ok((_, q)) = sp_cond_close(ts, p3) {
                    lemma_concat_closes(ts, pos, p3, q);
                }
            }
        }
    }
}

proof fn lemma_predicate_rest(ts: Seq<SpecToken>, pos: int, name: Seq<char>)
    requires
        0 <= pos <= ts.len(),
    ensures
        sp_predicate_rest(ts, pos, name) matches Ok((_, q)) ==> closes(ts, pos, q),
{
    lemma_terms(ts, pos);
    if let Ok((_, q)) = sp_terms(ts, pos) {
        if sp_predicate_rest(ts, pos, name) is Ok {
            lemma_close(ts, pos, q);
        }
    }
}

proof fn lemma_comparison_rest(ts: Seq<SpecToken>, pos: int, op: crate::ast::CompareOp)
    requires
        0 <= pos <= ts.len(),
    ensures
        sp_comparison_rest(ts, pos, op) matches Ok((_, q)) ==> closes(ts, pos, q),
{
    lemma_numeric(ts, pos, false);
    if let Ok((_, q1)) = sp_numeric(ts, pos, false) {
        lemma_numeric(ts, q1, false);
        if let Ok((_, q2)) = sp_numeric(ts, q1, false) {
            lemma_nested_concat(ts, pos, q1, q2);
            if sp_comparison_rest(ts, pos, op) is Ok {
                lemma_close(ts, pos, q2);
            }
        }
    }
}

/// The rest of a condition after `(` and its keyword. Every way the keyword
/// can lead is covered, so the proof does not depend on which it takes.
#[verifier::rlimit(40)]
proof fn lemma_cond_keyword(ts: Seq<SpecToken>, pos: int, s: Seq<char>)
    requires
        0 <= pos <= ts.len(),
    ensures
        sp_cond_keyword(ts, pos, s) matches Ok((_, q)) ==> closes(ts, pos, q),
    decreases ts.len() - pos, 4int,
{
    lemma_conditions(ts, pos);
    if let Ok((_, q)) = sp_conditions(ts, pos) {
        if q < ts.len() && ts[q].kind is RParen {
            lemma_close(ts, pos, q);
        }
    }
    lemma_cond_close(ts, pos);
    lemma_two_close(ts, pos);
    lemma_quantified(ts, pos, true);
    lemma_quantified(ts, pos, false);
    if pos < ts.len() && !(ts[pos].kind is LParen) && !(ts[pos].kind is RParen) {
        lemma_nested_atom(ts, pos);
        lemma_cond_close(ts, pos + 1);
        if let Ok((_, q)) = sp_cond_close(ts, pos + 1) {
            lemma_concat_closes(ts, pos, pos + 1, q);
        }
    }
    lemma_predicate_rest(ts, pos, s);
    lemma_number(ts, pos);
    if let Ok((_, q)) = sp_number_literal(ts, pos) {
        lemma_cond_close(ts, q);
        lemma_two_close(ts, q);
        if let Ok((_, q2)) = sp_cond_close(ts, q) {
            lemma_concat_closes(ts, pos, q, q2);
        }
        if let Ok((_, q2)) = sp_two_close(ts, q) {
            lemma_concat_closes(ts, pos, q, q2);
        }
        lemma_number(ts, q);
        if let Ok((_, q2)) = sp_number_literal(ts, q) {
            lemma_nested_concat(ts, pos, q, q2);
            lemma_cond_close(ts, q2);
            if let Ok((_, q3)) = sp_cond_close(ts, q2) {
                lemma_concat_closes(ts, pos, q2, q3);
            }
        }
    }
    lemma_comparison_rest(ts, pos, crate::ast::CompareOp::Eq);
    lemma_comparison_rest(ts, pos, super::utils::compare_op_of(s));
    lemma_term(ts, pos);
    if let Ok((_, q1)) = sp_term(ts, pos) {
        lemma_term(ts, q1);
        if let Ok((_, q2)) = sp_term(ts, q1) {
            lemma_nested_concat(ts, pos, q1, q2);
            if q2 < ts.len() && ts[q2].kind is RParen {
                lemma_close(ts, pos, q2);
            }
        }
    }
}

/// A condition that parses takes exactly one parenthesised expression: it
/// starts at `(`, ends just after the matching `)`, and every proper prefix of
/// what it took opens more parentheses than it closes.
pub proof fn law_condition_one_sexp(ts: Seq<SpecToken>, pos: int)
    requires
        0 <= pos <= ts.len(),
    ensures
        sp_condition(ts, pos) matches Ok((_, q)) ==> one_sexp(ts, pos, q),
{
    lemma_condition(ts, pos);
}

} // verus!
