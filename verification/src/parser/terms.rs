//! Term parsing: variables, names, atomic formulas, function terms, typed lists.

use vstd::prelude::*;
use vstd::utf8::encode_utf8;

use crate::ast::{
    opt_view, views, AtomicFormula, FunctionTerm, Name, SpecAtomicFormula, SpecFunctionTerm, SpecTerm,
    SpecTypedGroup, Term, TypedGroup, TypedList, Variable,
};
use crate::error::ParseError;
use crate::lexer::{SpecToken, SpecTokenKind, Token, TokenKind};
use crate::text::{concat2, string_from_chars};

use super::cursor::{
    advanced, at_lparen, at_rparen, at_symbol, expected_got, expected_got_error, lemma_prepend_empty,
    lemma_prepend_push, lift, lift_seq, moved, prepend, ran, sp_advance, sp_expect_lparen, sp_expect_rparen, sp_expect_symbol,
    sp_expect_symbol_eq, sp_expect_variable, Parser, SpecParse,
};
use super::utils::stalled;

verus! {

// ---------------------------------------------------------------------------
// Meaning
// ---------------------------------------------------------------------------

pub open spec fn sp_term(ts: Seq<SpecToken>, pos: int) -> SpecParse<SpecTerm> {
    match sp_advance(ts, pos) {
        Err(e) => Err(e),
        Ok((t, p)) => match t.kind {
            SpecTokenKind::Symbol(s) => Ok((SpecTerm::Name(s), p)),
            SpecTokenKind::Variable(v) => Ok((SpecTerm::Variable(v), p)),
            _ => Err(expected_got("term (name or variable)"@, t)),
        },
    }
}

pub open spec fn sp_term_name_only(ts: Seq<SpecToken>, pos: int) -> SpecParse<SpecTerm> {
    match sp_advance(ts, pos) {
        Err(e) => Err(e),
        Ok((t, p)) => match t.kind {
            SpecTokenKind::Symbol(s) => Ok((SpecTerm::Name(s), p)),
            _ => Err(expected_got("name"@, t)),
        },
    }
}

/// Terms up to (not including) the next `)`.
pub open spec fn sp_terms(ts: Seq<SpecToken>, pos: int) -> SpecParse<Seq<SpecTerm>>
    decreases ts.len() - pos,
{
    if at_rparen(ts, pos) {
        Ok((seq![], pos))
    } else {
        match sp_term(ts, pos) {
            Err(e) => Err(e),
            Ok((x, p)) => if advanced(ts, pos, p) {
                prepend(seq![x], sp_terms(ts, p))
            } else {
                Err(stalled(ts))
            },
        }
    }
}

/// Name-only terms up to (not including) the next `)`.
pub open spec fn sp_names(ts: Seq<SpecToken>, pos: int) -> SpecParse<Seq<SpecTerm>>
    decreases ts.len() - pos,
{
    if at_rparen(ts, pos) {
        Ok((seq![], pos))
    } else {
        match sp_term_name_only(ts, pos) {
            Err(e) => Err(e),
            Ok((x, p)) => if advanced(ts, pos, p) {
                prepend(seq![x], sp_names(ts, p))
            } else {
                Err(stalled(ts))
            },
        }
    }
}

/// Symbols up to (not including) the next `)`.
pub open spec fn sp_symbols(ts: Seq<SpecToken>, pos: int) -> SpecParse<Seq<Seq<char>>>
    decreases ts.len() - pos,
{
    if at_rparen(ts, pos) {
        Ok((seq![], pos))
    } else {
        match sp_expect_symbol(ts, pos) {
            Err(e) => Err(e),
            Ok((x, p)) => if advanced(ts, pos, p) {
                prepend(seq![x], sp_symbols(ts, p))
            } else {
                Err(stalled(ts))
            },
        }
    }
}

/// `(name term*)`.
pub open spec fn sp_atomic_formula(ts: Seq<SpecToken>, pos: int) -> SpecParse<SpecAtomicFormula> {
    match sp_expect_lparen(ts, pos) {
        Err(e) => Err(e),
        Ok((_, p1)) => match sp_expect_symbol(ts, p1) {
            Err(e) => Err(e),
            Ok((name, p2)) => match sp_terms(ts, p2) {
                Err(e) => Err(e),
                Ok((args, p3)) => match sp_expect_rparen(ts, p3) {
                    Err(e) => Err(e),
                    Ok((_, p4)) => Ok((SpecAtomicFormula { name, args }, p4)),
                },
            },
        },
    }
}

/// `(name term*)`, or a bare name for a function of no arguments.
pub open spec fn sp_function_term(ts: Seq<SpecToken>, pos: int) -> SpecParse<SpecFunctionTerm> {
    if at_lparen(ts, pos) {
        match sp_expect_lparen(ts, pos) {
            Err(e) => Err(e),
            Ok((_, p1)) => match sp_expect_symbol(ts, p1) {
                Err(e) => Err(e),
                Ok((name, p2)) => match sp_terms(ts, p2) {
                    Err(e) => Err(e),
                    Ok((args, p3)) => match sp_expect_rparen(ts, p3) {
                        Err(e) => Err(e),
                        Ok((_, p4)) => Ok((SpecFunctionTerm { name, args }, p4)),
                    },
                },
            },
        }
    } else {
        match sp_expect_symbol(ts, pos) {
            Err(e) => Err(e),
            Ok((name, p)) => Ok((SpecFunctionTerm { name, args: seq![] }, p)),
        }
    }
}

/// Names joined with `:` in between.
pub open spec fn join_colon(names: Seq<Seq<char>>) -> Seq<char>
    decreases names.len(),
{
    if names.len() == 0 {
        seq![]
    } else if names.len() == 1 {
        names[0]
    } else {
        join_colon(names.drop_last()) + seq![':'] + names.last()
    }
}

/// A type name, or `(either t1 t2 ...)` which stands as `either:t1:t2:...`.
pub open spec fn sp_type_name(ts: Seq<SpecToken>, pos: int) -> SpecParse<Seq<char>> {
    if at_lparen(ts, pos) {
        match sp_expect_lparen(ts, pos) {
            Err(e) => Err(e),
            Ok((_, p1)) => match sp_expect_symbol_eq(ts, p1, "either"@) {
                Err(e) => Err(e),
                Ok((_, p2)) => match sp_symbols(ts, p2) {
                    Err(e) => Err(e),
                    Ok((types, p3)) => match sp_expect_rparen(ts, p3) {
                        Err(e) => Err(e),
                        Ok((_, p4)) => Ok(("either:"@ + join_colon(types), p4)),
                    },
                },
            },
        }
    } else {
        sp_expect_symbol(ts, pos)
    }
}

/// The type named by a symbol written `-name` (no space after the dash).
pub open spec fn dash_type(k: SpecTokenKind) -> Option<Seq<char>> {
    match k {
        SpecTokenKind::Symbol(s) => if s.len() > 0 && s[0] == '-' && encode_utf8(s).len() > 1 {
            Some(s.subrange(1, s.len() as int))
        } else {
            None
        },
        _ => None,
    }
}

pub open spec fn group(items: Seq<Seq<char>>, ty: Option<Seq<char>>) -> SpecTypedGroup {
    SpecTypedGroup { items, group_type: ty }
}

/// The groups collected so far, closed with the untyped pending items if any.
pub open spec fn finish_groups(groups: Seq<SpecTypedGroup>, pending: Seq<Seq<char>>) -> Seq<
    SpecTypedGroup,
> {
    if pending.len() > 0 {
        groups.push(group(pending, None))
    } else {
        groups
    }
}

/// An item of a typed list: a variable or a name.
pub open spec fn sp_list_item(ts: Seq<SpecToken>, pos: int, vars: bool) -> SpecParse<Seq<char>> {
    if vars {
        sp_expect_variable(ts, pos)
    } else {
        sp_expect_symbol(ts, pos)
    }
}

/// The rest of a typed list, given the groups closed so far and the items that
/// wait for a type.
pub open spec fn sp_typed_from(
    ts: Seq<SpecToken>,
    pos: int,
    vars: bool,
    groups: Seq<SpecTypedGroup>,
    pending: Seq<Seq<char>>,
) -> SpecParse<Seq<SpecTypedGroup>>
    decreases ts.len() - pos,
{
    if at_rparen(ts, pos) || !(0 <= pos < ts.len()) {
        Ok((finish_groups(groups, pending), pos))
    } else if at_symbol(ts, pos, "-"@) {
        match sp_type_name(ts, pos + 1) {
            Err(e) => Err(e),
            Ok((ty, p)) => if advanced(ts, pos, p) {
                sp_typed_from(ts, p, vars, groups.push(group(pending, Some(ty))), seq![])
            } else {
                Err(stalled(ts))
            },
        }
    } else if dash_type(ts[pos].kind) is Some && pending.len() > 0 {
        sp_typed_from(
            ts,
            pos + 1,
            vars,
            groups.push(group(pending, dash_type(ts[pos].kind))),
            seq![],
        )
    } else {
        match sp_list_item(ts, pos, vars) {
            Err(e) => Err(e),
            Ok((x, p)) => if advanced(ts, pos, p) {
                sp_typed_from(ts, p, vars, groups, pending.push(x))
            } else {
                Err(stalled(ts))
            },
        }
    }
}

/// A typed list of variables (`vars`) or names, up to the next `)`.
pub open spec fn sp_typed_list(ts: Seq<SpecToken>, pos: int, vars: bool) -> SpecParse<
    Seq<SpecTypedGroup>,
> {
    sp_typed_from(ts, pos, vars, seq![], seq![])
}

// ---------------------------------------------------------------------------
// Parsing
// ---------------------------------------------------------------------------

/// Parses a term (a name or a variable).
pub fn parse_term(p: &mut Parser) -> (r: Result<Term, ParseError>)
    requires
        old(p).wf(),
    ensures
        ran(*old(p), *final(p)),
        moved(*old(p), *final(p), r),
        lift(r, final(p).pos) == sp_term(old(p).ts(), old(p).pos as int),
{
    let tok = p.advance()?;
    match &tok.kind {
        TokenKind::Symbol(s) => Ok(Term::Name(s.clone())),
        TokenKind::Variable(v) => Ok(Term::Variable(v.clone())),
        _ => Err(expected_got_error("term (name or variable)", tok)),
    }
}

/// Parses a term that must be a name (as in `:init`, where variables cannot occur).
pub fn parse_term_name_only(p: &mut Parser) -> (r: Result<Term, ParseError>)
    requires
        old(p).wf(),
    ensures
        ran(*old(p), *final(p)),
        moved(*old(p), *final(p), r),
        lift(r, final(p).pos) == sp_term_name_only(old(p).ts(), old(p).pos as int),
{
    let tok = p.advance()?;
    match &tok.kind {
        TokenKind::Symbol(s) => Ok(Term::Name(s.clone())),
        _ => Err(expected_got_error("name", tok)),
    }
}

/// Parses terms up to the next `)`.
pub fn parse_terms(p: &mut Parser) -> (r: Result<Vec<Term>, ParseError>)
    requires
        old(p).wf(),
    ensures
        ran(*old(p), *final(p)),
        moved(*old(p), *final(p), r) || (r is Ok && old(p).pos == final(p).pos),
        lift_seq(r, final(p).pos) == sp_terms(old(p).ts(), old(p).pos as int),
{
    let ghost ts = p.ts();
    let mut args: Vec<Term> = Vec::new();
    while !p.at_rparen()
        invariant
            ran(*old(p), *p),
            ts == p.ts(),
            old(p).pos <= p.pos,
            sp_terms(ts, old(p).pos as int) == prepend(views(args@), sp_terms(ts, p.pos as int)),
        decreases ts.len() - p.pos,
    {
        let ghost before = views(args@);
        let t = parse_term(p)?;
        let ghost tv = t@;
        args.push(t);
        assert(views(args@) =~= before.push(tv));
        proof {
            lemma_prepend_push(before, tv, sp_terms(ts, p.pos as int));
        }
    }
    proof {
        lemma_prepend_empty(views(args@), p.pos as int);
    }
    Ok(args)
}


/// Parses name-only terms up to the next `)`.
pub fn parse_names(p: &mut Parser) -> (r: Result<Vec<Term>, ParseError>)
    requires
        old(p).wf(),
    ensures
        ran(*old(p), *final(p)),
        old(p).pos <= final(p).pos,
        lift_seq(r, final(p).pos) == sp_names(old(p).ts(), old(p).pos as int),
{
    let ghost ts = p.ts();
    let mut args: Vec<Term> = Vec::new();
    while !p.at_rparen()
        invariant
            ran(*old(p), *p),
            ts == p.ts(),
            old(p).pos <= p.pos,
            sp_names(ts, old(p).pos as int) == prepend(views(args@), sp_names(ts, p.pos as int)),
        decreases ts.len() - p.pos,
    {
        let ghost before = views(args@);
        let t = parse_term_name_only(p)?;
        let ghost tv = t@;
        args.push(t);
        assert(views(args@) =~= before.push(tv));
        proof {
            lemma_prepend_push(before, tv, sp_names(ts, p.pos as int));
        }
    }
    proof {
        lemma_prepend_empty(views(args@), p.pos as int);
    }
    Ok(args)
}

/// Parses symbols up to the next `)`.
pub fn parse_symbols(p: &mut Parser) -> (r: Result<Vec<String>, ParseError>)
    requires
        old(p).wf(),
    ensures
        ran(*old(p), *final(p)),
        old(p).pos <= final(p).pos,
        lift_seq(r, final(p).pos) == sp_symbols(old(p).ts(), old(p).pos as int),
{
    let ghost ts = p.ts();
    let mut names: Vec<String> = Vec::new();
    while !p.at_rparen()
        invariant
            ran(*old(p), *p),
            ts == p.ts(),
            old(p).pos <= p.pos,
            sp_symbols(ts, old(p).pos as int) == prepend(
                views(names@),
                sp_symbols(ts, p.pos as int),
            ),
        decreases ts.len() - p.pos,
    {
        let ghost before = views(names@);
        let t = p.expect_symbol()?;
        let ghost tv = t@;
        names.push(t);
        assert(views(names@) =~= before.push(tv));
        proof {
            lemma_prepend_push(before, tv, sp_symbols(ts, p.pos as int));
        }
    }
    proof {
        lemma_prepend_empty(views(names@), p.pos as int);
    }
    Ok(names)
}

/// Parses `(predicate-name term*)`.
pub fn parse_atomic_formula(p: &mut Parser) -> (r: Result<AtomicFormula, ParseError>)
    requires
        old(p).wf(),
    ensures
        ran(*old(p), *final(p)),
        moved(*old(p), *final(p), r),
        lift(r, final(p).pos) == sp_atomic_formula(old(p).ts(), old(p).pos as int),
{
    p.expect_lparen()?;
    let name = p.expect_symbol()?;
    let args = parse_terms(p)?;
    p.expect_rparen()?;
    Ok(AtomicFormula { name, args })
}

/// Parses a function term: `(func-name term*)` or a bare name of no arguments.
pub fn parse_function_term(p: &mut Parser) -> (r: Result<FunctionTerm, ParseError>)
    requires
        old(p).wf(),
    ensures
        ran(*old(p), *final(p)),
        moved(*old(p), *final(p), r),
        lift(r, final(p).pos) == sp_function_term(old(p).ts(), old(p).pos as int),
{
    if p.at_lparen() {
        p.expect_lparen()?;
        let name = p.expect_symbol()?;
        let args = parse_terms(p)?;
        p.expect_rparen()?;
        Ok(FunctionTerm { name, args })
    } else {
        let name = p.expect_symbol()?;
        let r = FunctionTerm { name, args: Vec::new() };
        assert(views(r.args@) =~= seq![]);
        Ok(r)
    }
}

/// Joins names with `:` in between.
pub fn join_with_colons(names: &Vec<String>) -> (s: String)
    ensures
        s@ == join_colon(views(names@)),
{
    let mut out: Vec<char> = Vec::new();
    let mut i: usize = 0;
    while i < names.len()
        invariant
            i <= names@.len(),
            out@ == join_colon(views(names@).take(i as int)),
        decreases names@.len() - i,
    {
        let ghost prev = out@;
        if i > 0 {
            out.push(':');
        }
        let n = names[i].as_str();
        let len = n.unicode_len();
        let mut k: usize = 0;
        while k < len
            invariant
                len == n@.len(),
                k <= len,
                out@ == (if i > 0 {
                    prev + seq![':']
                } else {
                    prev
                }) + n@.take(k as int),
            decreases len - k,
        {
            let c = n.get_char(k);
            out.push(c);
            assert(n@.take(k + 1) =~= n@.take(k as int).push(c));
            k = k + 1;
        }
        assert(n@.take(len as int) =~= n@);
        let ghost vs = views(names@);
        assert(vs.take(i + 1).drop_last() =~= vs.take(i as int));
        assert(vs.take(i + 1).last() == n@);
        if i == 0 {
            assert(prev =~= seq![]);
            assert(out@ =~= n@);
        }
        i = i + 1;
    }
    assert(views(names@).take(names@.len() as int) =~= views(names@));
    string_from_chars(&out)
}

/// Parses a type name, or `(either t1 t2 ...)`, which stands as `either:t1:t2:...`.
pub fn parse_type_name(p: &mut Parser) -> (r: Result<Name, ParseError>)
    requires
        old(p).wf(),
    ensures
        ran(*old(p), *final(p)),
        moved(*old(p), *final(p), r),
        lift(r, final(p).pos) == sp_type_name(old(p).ts(), old(p).pos as int),
{
    if p.at_lparen() {
        p.expect_lparen()?;
        p.expect_symbol_eq("either")?;
        let types = parse_symbols(p)?;
        p.expect_rparen()?;
        let joined = join_with_colons(&types);
        Ok(concat2("either:", joined.as_str()))
    } else {
        p.expect_symbol()
    }
}

/// The type named by a symbol token written `-name`.
fn dash_type_of(tok: &Token) -> (r: Option<String>)
    ensures
        opt_view(r) == dash_type(tok.kind@),
{
    match &tok.kind {
        TokenKind::Symbol(s) => {
            let st = s.as_str();
            let n = st.unicode_len();
            if n > 0 && st.get_char(0) == '-' && st.as_bytes().len() > 1 {
                Some(String::from_str(st.substring_char(1, n)))
            } else {
                None
            }
        },
        _ => None,
    }
}

/// Parses a typed list of variables (`vars`) or names, up to the next `)`.
pub fn parse_typed_list(p: &mut Parser, vars: bool) -> (r: Result<TypedList<String>, ParseError>)
    requires
        old(p).wf(),
    ensures
        ran(*old(p), *final(p)),
        old(p).pos <= final(p).pos,
        lift_seq(r, final(p).pos) == sp_typed_list(old(p).ts(), old(p).pos as int, vars),
{
    let ghost ts = p.ts();
    let mut groups: Vec<TypedGroup<String>> = Vec::new();
    let mut pending: Vec<String> = Vec::new();
    assert(views(groups@) =~= seq![]);
    assert(views(pending@) =~= seq![]);
    while !p.at_rparen() && p.peek().is_some()
        invariant
            ran(*old(p), *p),
            ts == p.ts(),
            old(p).pos <= p.pos,
            sp_typed_list(ts, old(p).pos as int, vars) == sp_typed_from(
                ts,
                p.pos as int,
                vars,
                views(groups@),
                views(pending@),
            ),
        decreases ts.len() - p.pos,
    {
        let ghost gs = views(groups@);
        let ghost ps = views(pending@);
        if p.at_symbol("-") {
            p.advance()?;
            let ty = parse_type_name(p)?;
            let items = pending;
            pending = Vec::new();
            let g = TypedGroup { items, group_type: Some(ty) };
            assert(g@ == group(ps, Some(ty@)));
            groups.push(g);
            assert(views(groups@) =~= gs.push(group(ps, Some(ty@))));
            assert(views(pending@) =~= seq![]);
            continue;
        }
        let dt = match p.peek() {
            Some(tok) => dash_type_of(tok),
            None => None,
        };
        if dt.is_some() && pending.len() > 0 {
            p.advance()?;
            let items = pending;
            pending = Vec::new();
            let g = TypedGroup { items, group_type: dt };
            groups.push(g);
            assert(views(groups@) =~= gs.push(group(ps, opt_view(dt))));
            assert(views(pending@) =~= seq![]);
            continue;
        }
        let item = if vars {
            p.expect_variable()?
        } else {
            p.expect_symbol()?
        };
        let ghost iv = item@;
        pending.push(item);
        assert(views(pending@) =~= ps.push(iv));
    }
    if pending.len() > 0 {
        let ghost gs = views(groups@);
        let ghost ps = views(pending@);
        groups.push(TypedGroup { items: pending, group_type: None });
        assert(views(groups@) =~= gs.push(group(ps, None)));
    }
    Ok(groups)
}

/// Parses a typed list of names (as in `:objects`, `:constants`, `:types`).
pub fn parse_typed_list_names(p: &mut Parser) -> (r: Result<TypedList<Name>, ParseError>)
    requires
        old(p).wf(),
    ensures
        ran(*old(p), *final(p)),
        old(p).pos <= final(p).pos,
        lift_seq(r, final(p).pos) == sp_typed_list(old(p).ts(), old(p).pos as int, false),
{
    parse_typed_list(p, false)
}

/// Parses a typed list of variables (as in `:parameters`).
pub fn parse_typed_list_vars(p: &mut Parser) -> (r: Result<TypedList<Variable>, ParseError>)
    requires
        old(p).wf(),
    ensures
        ran(*old(p), *final(p)),
        old(p).pos <= final(p).pos,
        lift_seq(r, final(p).pos) == sp_typed_list(old(p).ts(), old(p).pos as int, true),
{
    parse_typed_list(p, true)
}

} // verus!
