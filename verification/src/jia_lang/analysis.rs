//! The symbol table of a Jia model.
//!
//! [`build_symbol_table`] maps each declared variable to its type, the span of
//! its declaration, the spans where it is referred to, and a summary of its
//! domain statements; editors use it for hover, go-to-definition and
//! completion.

use vstd::prelude::*;
use vstd::utf8::*;

use crate::ast::views;
use crate::error::Span;
use crate::jia_lang::ast::{
    Domain, DomainStmt, Expr, JiaModel, RealBound, SpecDomain, SpecDomainStmt, SpecExpr,
    SpecJiaModel, SpecRealBound, SpecVarDecl, VarType,
};
use crate::jia_lang::lexer::{tokens_view, SpecToken, SpecTokenKind, Token, TokenKind};
use crate::text::{
    concat2, concat3, decimal_display, decimal_display_text, i64_text, same_text, signed_decimal,
};

verus! {

broadcast use vstd::utf8::encode_utf8_decode_utf8;

// ---------------------------------------------------------------------------
// Symbols
// ---------------------------------------------------------------------------

/// What is known of one declared variable.
#[derive(Debug, Clone)]
pub struct SymbolInfo {
    /// The variable's declared type.
    pub var_type: VarType,
    /// The span of its first occurrence in a variables block (its declaration);
    /// the span of its first occurrence when no variables block names it.
    pub decl_span: Span,
    /// The spans of its name everywhere else (domains, constraints, objective).
    pub ref_spans: Vec<Span>,
    /// Its domain statements, described and joined with `, `.
    pub domain_summary: Option<String>,
}

/// The mathematical content of a [`SymbolInfo`].
pub struct SpecSymbolInfo {
    pub var_type: VarType,
    pub decl_span: Span,
    pub ref_spans: Seq<Span>,
    pub domain_summary: Option<Seq<char>>,
}

impl View for SymbolInfo {
    type V = SpecSymbolInfo;

    open spec fn view(&self) -> SpecSymbolInfo {
        SpecSymbolInfo {
            var_type: self.var_type,
            decl_span: self.decl_span,
            ref_spans: self.ref_spans@,
            domain_summary: match self.domain_summary {
                Some(s) => Some(s@),
                None => None,
            },
        }
    }
}

/// The entries of a symbol map: names with what is known of them, in the order
/// the names were first met.
pub type SymbolList = Seq<(Seq<char>, SpecSymbolInfo)>;

/// The index of the entry for `name`, or `-1`.
pub open spec fn index_of(syms: SymbolList, name: Seq<char>) -> int
    decreases syms.len(),
{
    if syms.len() == 0 {
        -1
    } else if syms.last().0 == name {
        syms.len() - 1
    } else {
        index_of(syms.drop_last(), name)
    }
}

/// No name has two entries.
pub open spec fn distinct_names(syms: SymbolList) -> bool {
    forall|i: int, j: int| 0 <= i < j < syms.len() ==> syms[i].0 != syms[j].0
}

/// What is known of `name`, if it has an entry.
pub open spec fn lookup(syms: SymbolList, name: Seq<char>) -> Option<SpecSymbolInfo> {
    if index_of(syms, name) >= 0 {
        Some(syms[index_of(syms, name)].1)
    } else {
        None
    }
}

/// `index_of` finds the entry with the name, and only such an entry.
pub proof fn lemma_index_of(syms: SymbolList, name: Seq<char>)
    ensures
        -1 <= index_of(syms, name) < syms.len(),
        index_of(syms, name) >= 0 ==> syms[index_of(syms, name)].0 == name,
        index_of(syms, name) == -1 ==> forall|i: int| 0 <= i < syms.len() ==> syms[i].0 != name,
    decreases syms.len(),
{
    if syms.len() > 0 && syms.last().0 != name {
        lemma_index_of(syms.drop_last(), name);
        assert forall|i: int| 0 <= i < syms.len() - 1 implies syms[i] == syms.drop_last()[i] by {}
    }
}

/// A map from variable names to what is known of them.
#[derive(Debug, Clone)]
pub struct SymbolMap {
    names: Vec<String>,
    infos: Vec<SymbolInfo>,
}

impl View for SymbolMap {
    type V = SymbolList;

    closed spec fn view(&self) -> SymbolList {
        Seq::new(self.names@.len(), |i: int| (self.names@[i]@, self.infos@[i]@))
    }
}

impl SymbolMap {
    /// The map is well formed: each name has one entry.
    pub closed spec fn wf(&self) -> bool {
        &&& self.names@.len() == self.infos@.len()
        &&& distinct_names(self@)
    }

    /// An empty map.
    pub fn new() -> (m: Self)
        ensures
            m.wf(),
            m@ == Seq::<(Seq<char>, SpecSymbolInfo)>::empty(),
    {
        let m = SymbolMap { names: Vec::new(), infos: Vec::new() };
        assert(m@ =~= Seq::<(Seq<char>, SpecSymbolInfo)>::empty());
        m
    }

    /// The number of entries.
    pub fn len(&self) -> (n: usize)
        requires
            self.wf(),
        ensures
            n == self@.len(),
    {
        self.names.len()
    }

    /// The index of the entry for `name`, if any.
    fn find(&self, name: &str) -> (r: Option<usize>)
        requires
            self.wf(),
        ensures
            match r {
                Some(i) => i == index_of(self@, name@) && i < self.names@.len(),
                None => index_of(self@, name@) == -1,
            },
    {
        proof {
            lemma_index_of(self@, name@);
        }
        let mut i: usize = 0;
        while i < self.names.len()
            invariant
                self.wf(),
                i <= self.names@.len(),
                forall|j: int| 0 <= j < i ==> self@[j].0 != name@,
            decreases self.names@.len() - i,
        {
            if same_text(self.names[i].as_str(), name) {
                proof {
                    lemma_index_of(self@, name@);
                    if index_of(self@, name@) != i {
                        let k = index_of(self@, name@);
                        assert(self@[i as int].0 == name@);
                    }
                }
                return Some(i);
            }
            i = i + 1;
        }
        None
    }

    /// What is known of `name`, if it is in the map.
    pub fn get(&self, name: &str) -> (r: Option<&SymbolInfo>)
        requires
            self.wf(),
        ensures
            match r {
                Some(info) => lookup(self@, name@) == Some(info@),
                None => lookup(self@, name@) is None,
            },
    {
        match self.find(name) {
            Some(i) => {
                assert(self@[i as int].1 == self.infos@[i as int]@);
                Some(&self.infos[i])
            },
            None => None,
        }
    }

    /// Whether `name` is in the map.
    pub fn contains_key(&self, name: &str) -> (b: bool)
        requires
            self.wf(),
        ensures
            b == (lookup(self@, name@) is Some),
    {
        self.find(name).is_some()
    }
}

impl SymbolMap {
    /// Adds an entry for a name that has none.
    fn push_entry(&mut self, name: String, info: SymbolInfo)
        requires
            old(self).wf(),
            index_of(old(self)@, name@) == -1,
        ensures
            final(self).wf(),
            final(self)@ == old(self)@.push((name@, info@)),
    {
        proof {
            lemma_index_of(self@, name@);
        }
        let ghost nv = name@;
        let ghost iv = info@;
        self.names.push(name);
        self.infos.push(info);
        assert(self@ =~= old(self)@.push((nv, iv)));
    }

    /// Replaces what is known of the entry at `i`.
    fn set_info(&mut self, i: usize, info: SymbolInfo)
        requires
            old(self).wf(),
            i < old(self)@.len(),
        ensures
            final(self).wf(),
            final(self)@ == old(self)@.update(i as int, (old(self)@[i as int].0, info@)),
    {
        let ghost iv = info@;
        self.infos.set(i, info);
        assert(self@ =~= old(self)@.update(i as int, (old(self)@[i as int].0, iv)));
    }

    /// A copy of what is known of the entry at `i`.
    fn info_at(&self, i: usize) -> (info: SymbolInfo)
        requires
            self.wf(),
            i < self@.len(),
        ensures
            info@ == self@[i as int].1,
    {
        let src = &self.infos[i];
        let mut refs: Vec<Span> = Vec::new();
        let mut k: usize = 0;
        while k < src.ref_spans.len()
            invariant
                k <= src.ref_spans@.len(),
                refs@ == src.ref_spans@.take(k as int),
            decreases src.ref_spans@.len() - k,
        {
            refs.push(src.ref_spans[k]);
            assert(src.ref_spans@.take(k + 1) =~= src.ref_spans@.take(k as int).push(
                src.ref_spans@[k as int],
            ));
            k = k + 1;
        }
        assert(src.ref_spans@.take(src.ref_spans@.len() as int) =~= src.ref_spans@);
        let summary = match &src.domain_summary {
            Some(t) => Some(t.clone()),
            None => None,
        };
        SymbolInfo {
            var_type: src.var_type,
            decl_span: src.decl_span,
            ref_spans: refs,
            domain_summary: summary,
        }
    }
}

// ---------------------------------------------------------------------------
// Domain summaries
// ---------------------------------------------------------------------------

/// Integers in decimal, joined with `, `.
pub open spec fn join_ints(vs: Seq<i64>) -> Seq<char>
    decreases vs.len(),
{
    if vs.len() == 0 {
        seq![]
    } else if vs.len() == 1 {
        signed_decimal(vs[0] as int)
    } else {
        join_ints(vs.drop_last()) + ", "@ + signed_decimal(vs.last() as int)
    }
}

/// Names joined with `, `.
pub open spec fn join_names(ns: Seq<Seq<char>>) -> Seq<char>
    decreases ns.len(),
{
    if ns.len() == 0 {
        seq![]
    } else if ns.len() == 1 {
        ns[0]
    } else {
        join_names(ns.drop_last()) + ", "@ + ns.last()
    }
}

/// How a real bound is shown: its value (`-` first when negative), or `inf` /
/// `-inf`.
pub open spec fn bound_text(b: SpecRealBound) -> Seq<char> {
    match b {
        SpecRealBound::Finite { negative, text } => if negative {
            "-"@ + decimal_display(text)
        } else {
            decimal_display(text)
        },
        SpecRealBound::Infinite { negative } => if negative {
            "-inf"@
        } else {
            "inf"@
        },
    }
}

/// How a domain is shown: `= v`, `in min..max`, or `in {v1, v2}`.
pub open spec fn domain_text(d: SpecDomain) -> Seq<char> {
    match d {
        SpecDomain::Fixed(v) => "= "@ + signed_decimal(v as int),
        SpecDomain::Range { min, max } => "in "@ + signed_decimal(min as int) + ".."@
            + signed_decimal(max as int),
        SpecDomain::Enumerated(vs) => "in {"@ + join_ints(vs) + "}"@,
        SpecDomain::RealFixed(t) => "= "@ + decimal_display(t),
        SpecDomain::RealRange { min, max } => "in "@ + bound_text(min) + ".."@ + bound_text(max),
    }
}

/// Adds `desc` to the summary of `name`, after `, ` when it has one; a name with
/// no entry is left alone.
pub open spec fn add_summary(syms: SymbolList, name: Seq<char>, desc: Seq<char>) -> SymbolList {
    let i = index_of(syms, name);
    if i < 0 {
        syms
    } else {
        let info = syms[i].1;
        syms.update(
            i,
            (
                syms[i].0,
                SpecSymbolInfo {
                    domain_summary: Some(
                        match info.domain_summary {
                            Some(s) => s + ", "@ + desc,
                            None => desc,
                        },
                    ),
                    ..info
                },
            ),
        )
    }
}

/// Adds `desc` to the summary of each of `names`, in order.
pub open spec fn add_summaries(syms: SymbolList, names: Seq<Seq<char>>, desc: Seq<char>) -> SymbolList
    decreases names.len(),
{
    if names.len() == 0 {
        syms
    } else {
        add_summary(add_summaries(syms, names.drop_last(), desc), names.last(), desc)
    }
}

/// What a domain statement adds to the summaries.
pub open spec fn stmt_summaries(syms: SymbolList, stmt: SpecDomainStmt) -> SymbolList {
    match stmt {
        SpecDomainStmt::IntervalDuration { intervals, domain } => add_summaries(
            syms,
            intervals,
            "duration "@ + domain_text(domain),
        ),
        SpecDomainStmt::IntervalStart { intervals, domain } => add_summaries(
            syms,
            intervals,
            "start "@ + domain_text(domain),
        ),
        SpecDomainStmt::IntervalEnd { intervals, domain } => add_summaries(
            syms,
            intervals,
            "end "@ + domain_text(domain),
        ),
        SpecDomainStmt::IntervalOptional { intervals } => add_summaries(
            syms,
            intervals,
            "optional"@,
        ),
        SpecDomainStmt::IntegerDomain { name, domain } => add_summary(
            syms,
            name,
            domain_text(domain),
        ),
        SpecDomainStmt::SetDomain { name, members } => add_summary(
            syms,
            name,
            "members: {"@ + join_names(members) + "}"@,
        ),
        SpecDomainStmt::RealDomain { name, domain } => add_summary(
            syms,
            name,
            "real "@ + domain_text(domain),
        ),
        SpecDomainStmt::Demand { interval, set, value } => add_summary(
            syms,
            interval,
            "demand("@ + set + ") = "@ + signed_decimal(value as int),
        ),
    }
}

/// What the domain statements add to the summaries, in order.
pub open spec fn all_summaries(syms: SymbolList, stmts: Seq<SpecDomainStmt>) -> SymbolList
    decreases stmts.len(),
{
    if stmts.len() == 0 {
        syms
    } else {
        stmt_summaries(all_summaries(syms, stmts.drop_last()), stmts.last())
    }
}

/// Renders integers in decimal joined with `, `.
fn join_int_text(vs: &Vec<i64>) -> (s: String)
    ensures
        s@ == join_ints(vs@),
{
    let mut out = String::new();
    let mut k: usize = 0;
    while k < vs.len()
        invariant
            k <= vs@.len(),
            out@ == join_ints(vs@.take(k as int)),
        decreases vs@.len() - k,
    {
        let t = i64_text(vs[k]);
        if k > 0 {
            out.append(", ");
        }
        out.append(t.as_str());
        proof {
            reveal_strlit(", ");
            let p = vs@.take(k + 1);
            assert(p.drop_last() =~= vs@.take(k as int));
            if k == 0 {
                assert(out@ =~= join_ints(p));
            } else {
                assert(out@ =~= join_ints(p));
            }
        }
        k = k + 1;
    }
    assert(vs@.take(vs@.len() as int) =~= vs@);
    out
}

/// Joins names with `, `.
fn join_name_text(ns: &Vec<String>) -> (s: String)
    ensures
        s@ == join_names(views(ns@)),
{
    let mut out = String::new();
    let mut k: usize = 0;
    while k < ns.len()
        invariant
            k <= ns@.len(),
            out@ == join_names(views(ns@).take(k as int)),
        decreases ns@.len() - k,
    {
        if k > 0 {
            out.append(", ");
        }
        out.append(ns[k].as_str());
        proof {
            reveal_strlit(", ");
            let p = views(ns@).take(k + 1);
            assert(p.drop_last() =~= views(ns@).take(k as int));
            assert(p.last() == ns@[k as int]@);
            assert(out@ =~= join_names(p));
        }
        k = k + 1;
    }
    assert(views(ns@).take(ns@.len() as int) =~= views(ns@));
    out
}

/// Renders a real bound, as in [`bound_text`].
fn bound_display(b: &RealBound) -> (s: String)
    ensures
        s@ == bound_text(b@),
{
    match b {
        RealBound::Finite { negative, text } => {
            let d = decimal_display_text(text.as_str());
            if *negative {
                concat2("-", d.as_str())
            } else {
                d
            }
        },
        RealBound::Infinite { negative } => if *negative {
            String::from_str("-inf")
        } else {
            String::from_str("inf")
        },
    }
}

/// Renders a domain, as in [`domain_text`].
pub fn format_domain(domain: &Domain) -> (s: String)
    ensures
        s@ == domain_text(domain@),
{
    match domain {
        Domain::Fixed(v) => {
            let t = i64_text(*v);
            concat2("= ", t.as_str())
        },
        Domain::Range { min, max } => {
            let a = i64_text(*min);
            let b = i64_text(*max);
            let s = concat3("in ", a.as_str(), "..");
            concat2(s.as_str(), b.as_str())
        },
        Domain::Enumerated(vs) => {
            let j = join_int_text(vs);
            concat3("in {", j.as_str(), "}")
        },
        Domain::RealFixed(t) => {
            let d = decimal_display_text(t.as_str());
            concat2("= ", d.as_str())
        },
        Domain::RealRange { min, max } => {
            let a = bound_display(min);
            let b = bound_display(max);
            let s = concat3("in ", a.as_str(), "..");
            concat2(s.as_str(), b.as_str())
        },
    }
}

/// Adds a domain description to the summary of `name`, after `, ` when it has
/// one; does nothing when `name` has no entry.
pub fn append_domain_summary(symbols: &mut SymbolMap, name: &str, desc: &str)
    requires
        old(symbols).wf(),
    ensures
        final(symbols).wf(),
        final(symbols)@ == add_summary(old(symbols)@, name@, desc@),
{
    match symbols.find(name) {
        Some(i) => {
            let mut info = symbols.info_at(i);
            let summary = match &info.domain_summary {
                Some(existing) => concat3(existing.as_str(), ", ", desc),
                None => String::from_str(desc),
            };
            info.domain_summary = Some(summary);
            symbols.set_info(i, info);
        },
        None => {},
    }
}

// ---------------------------------------------------------------------------
// The token scan
// ---------------------------------------------------------------------------

/// The type of the last declaration that lists `name`, if any.
pub open spec fn declared_type(vars: Seq<SpecVarDecl>, name: Seq<char>) -> Option<VarType>
    decreases vars.len(),
{
    if vars.len() == 0 {
        None
    } else if vars.last().names.contains(name) {
        Some(vars.last().var_type)
    } else {
        declared_type(vars.drop_last(), name)
    }
}

/// Where the scan of the tokens stands: inside the variables block or not, the
/// brace depth, the depth of the variables block's brace, the symbols, and the
/// names met so far inside a variables block.
pub struct ScanState {
    pub in_block: bool,
    pub depth: nat,
    pub block_depth: Option<nat>,
    pub syms: SymbolList,
    pub declared: Seq<Seq<char>>,
}

/// Notes an occurrence of a declared name: its entry is made at its first
/// occurrence; in the variables block its first occurrence there (`first`) is
/// the declaration and a later one there changes nothing; anywhere else an
/// occurrence is a reference.
pub open spec fn note_symbol(
    syms: SymbolList,
    name: Seq<char>,
    ty: VarType,
    span: Span,
    in_block: bool,
    first: bool,
) -> SymbolList {
    let syms1 = if index_of(syms, name) < 0 {
        syms.push(
            (
                name,
                SpecSymbolInfo {
                    var_type: ty,
                    decl_span: span,
                    ref_spans: seq![],
                    domain_summary: None,
                },
            ),
        )
    } else {
        syms
    };
    let i = index_of(syms1, name);
    let info = syms1[i].1;
    syms1.update(
        i,
        (
            name,
            if in_block {
                if first {
                    SpecSymbolInfo { decl_span: span, ..info }
                } else {
                    info
                }
            } else {
                SpecSymbolInfo { ref_spans: info.ref_spans.push(span), ..info }
            },
        ),
    )
}

/// One token of the scan.
pub open spec fn scan_step(st: ScanState, t: SpecToken, vars: Seq<SpecVarDecl>) -> ScanState {
    match t.kind {
        SpecTokenKind::Ident(name) => if name == "variables"@ {
            ScanState { in_block: true, ..st }
        } else {
            match declared_type(vars, name) {
                Some(ty) => ScanState {
                    syms: note_symbol(
                        st.syms,
                        name,
                        ty,
                        t.span,
                        st.in_block,
                        !st.declared.contains(name),
                    ),
                    declared: if st.in_block {
                        st.declared.push(name)
                    } else {
                        st.declared
                    },
                    ..st
                },
                None => st,
            }
        },
        SpecTokenKind::LBrace => ScanState {
            depth: st.depth + 1,
            block_depth: if st.in_block && st.block_depth is None {
                Some(st.depth + 1)
            } else {
                st.block_depth
            },
            ..st
        },
        SpecTokenKind::RBrace => {
            let closes = st.block_depth == Some(st.depth);
            ScanState {
                in_block: if closes {
                    false
                } else {
                    st.in_block
                },
                block_depth: if closes {
                    None
                } else {
                    st.block_depth
                },
                depth: if st.depth == 0 {
                    0
                } else {
                    (st.depth - 1) as nat
                },
                ..st
            }
        },
        _ => st,
    }
}

/// The scan of all the tokens, from outside any block with no symbols.
pub open spec fn scan(ts: Seq<SpecToken>, vars: Seq<SpecVarDecl>) -> ScanState
    decreases ts.len(),
{
    if ts.len() == 0 {
        ScanState { in_block: false, depth: 0, block_depth: None, syms: seq![], declared: seq![] }
    } else {
        scan_step(scan(ts.drop_last(), vars), ts.last(), vars)
    }
}

/// The symbol table of a model and its tokens: the scan's symbols with the
/// domain summaries added.
pub open spec fn symbol_table_of(model: SpecJiaModel, ts: Seq<SpecToken>) -> SymbolList {
    all_summaries(scan(ts, model.variables).syms, model.domains)
}

/// Maps variable names to what is known of them.
#[derive(Debug, Clone)]
pub struct SymbolTable {
    /// Variable name to symbol information.
    pub symbols: SymbolMap,
}

/// Notes an occurrence of a declared name, as in [`note_symbol`].
fn note_symbol_exec(
    symbols: &mut SymbolMap,
    name: &str,
    ty: VarType,
    span: Span,
    in_block: bool,
    first: bool,
)
    requires
        old(symbols).wf(),
    ensures
        final(symbols).wf(),
        final(symbols)@ == note_symbol(old(symbols)@, name@, ty, span, in_block, first),
{
    let i = match symbols.find(name) {
        Some(i) => i,
        None => {
            let info = SymbolInfo {
                var_type: ty,
                decl_span: span,
                ref_spans: Vec::new(),
                domain_summary: None,
            };
            assert(info@.ref_spans =~= seq![]);
            symbols.push_entry(String::from_str(name), info);
            proof {
                assert(symbols@.last().0 == name@);
            }
            let n = symbols.len();
            assert(index_of(symbols@, name@) == n - 1);
            n - 1
        },
    };
    proof {
        lemma_index_of(symbols@, name@);
    }
    let mut info = symbols.info_at(i);
    if in_block {
        if first {
            info.decl_span = span;
        }
    } else {
        info.ref_spans.push(span);
    }
    symbols.set_info(i, info);
}

/// Whether a list of names holds `name`.
fn names_contain(names: &Vec<String>, name: &str) -> (r: bool)
    ensures
        r == views(names@).contains(name@),
{
    let mut j: usize = 0;
    while j < names.len()
        invariant
            j <= names@.len(),
            forall|m: int| 0 <= m < j ==> names@[m]@ != name@,
        decreases names@.len() - j,
    {
        if same_text(names[j].as_str(), name) {
            assert(views(names@)[j as int] == name@);
            return true;
        }
        j = j + 1;
    }
    assert(!views(names@).contains(name@)) by {
        if views(names@).contains(name@) {
            let m = choose|m: int| 0 <= m < views(names@).len() && views(names@)[m] == name@;
            assert(names@[m]@ == name@);
        }
    }
    false
}

/// The type of the last declaration that lists `name`, as in
/// [`declared_type`].
fn declared_type_exec(vars: &Vec<crate::jia_lang::ast::VarDecl>, name: &str) -> (r: Option<
    VarType,
>)
    ensures
        r == declared_type(views(vars@), name@),
{
    let mut k = vars.len();
    assert(views(vars@).take(k as int) =~= views(vars@));
    while k > 0
        invariant
            k <= vars@.len(),
            declared_type(views(vars@), name@) == declared_type(views(vars@).take(k as int), name@),
        decreases k,
    {
        let d = &vars[k - 1];
        let ghost p = views(vars@).take(k as int);
        assert(p.drop_last() =~= views(vars@).take(k - 1));
        assert(p.last() == d@);
        if names_contain(&d.names, name) {
            return Some(d.var_type);
        }
        k = k - 1;
    }
    assert(views(vars@).take(0) =~= Seq::<SpecVarDecl>::empty());
    None
}

/// Builds the symbol table of a parsed model from its tokens: declarations and
/// references come from a scan of the tokens, summaries from the domain
/// statements.
pub fn build_symbol_table(model: &JiaModel, tokens: &[Token]) -> (table: SymbolTable)
    ensures
        table.symbols.wf(),
        table.symbols@ == symbol_table_of(model@, tokens_view(tokens@)),
{
    let ghost ts = tokens_view(tokens@);
    let ghost vars = model@.variables;
    let mut symbols = SymbolMap::new();
    let mut in_block = false;
    let mut depth: usize = 0;
    let mut block_depth: Option<usize> = None;
    let mut declared: Vec<String> = Vec::new();
    let mut i: usize = 0;
    assert(views(declared@) =~= Seq::<Seq<char>>::empty());
    assert(ts.take(0) =~= Seq::<SpecToken>::empty());
    while i < tokens.len()
        invariant
            i <= tokens@.len(),
            ts == tokens_view(tokens@),
            vars == model@.variables,
            symbols.wf(),
            depth <= i,
            block_depth matches Some(b) ==> b <= depth,
            scan(ts.take(i as int), vars) == (ScanState {
                in_block,
                depth: depth as nat,
                block_depth: match block_depth {
                    Some(b) => Some(b as nat),
                    None => None,
                },
                syms: symbols@,
                declared: views(declared@),
            }),
        decreases tokens@.len() - i,
    {
        let t = &tokens[i];
        proof {
            assert(ts.take(i + 1).drop_last() =~= ts.take(i as int));
            assert(ts.take(i + 1).last() == t@);
        }
        match &t.kind {
            TokenKind::Ident(name) => {
                if same_text(name.as_str(), "variables") {
                    in_block = true;
                } else {
                    match declared_type_exec(&model.variables, name.as_str()) {
                        Some(ty) => {
                            let first = !names_contain(&declared, name.as_str());
                            note_symbol_exec(
                                &mut symbols,
                                name.as_str(),
                                ty,
                                t.span,
                                in_block,
                                first,
                            );
                            if in_block {
                                let ghost before = declared@;
                                declared.push(name.clone());
                                assert(views(declared@) =~= views(before).push(name@));
                            }
                        },
                        None => {},
                    }
                }
            },
            TokenKind::LBrace => {
                depth = depth + 1;
                if in_block && block_depth.is_none() {
                    block_depth = Some(depth);
                }
            },
            TokenKind::RBrace => {
                match block_depth {
                    Some(b) => {
                        if b == depth {
                            in_block = false;
                            block_depth = None;
                        }
                    },
                    None => {},
                }
                if depth > 0 {
                    depth = depth - 1;
                }
            },
            _ => {},
        }
        i = i + 1;
    }
    assert(ts.take(tokens@.len() as int) =~= ts);
    let ghost scanned = symbols@;
    let mut k: usize = 0;
    assert(model@.domains.take(0) =~= Seq::<SpecDomainStmt>::empty());
    while k < model.domains.len()
        invariant
            k <= model.domains@.len(),
            symbols.wf(),
            symbols@ == all_summaries(scanned, views(model.domains@).take(k as int)),
        decreases model.domains@.len() - k,
    {
        let ghost before = symbols@;
        add_stmt_summaries(&mut symbols, &model.domains[k]);
        proof {
            let p = views(model.domains@).take(k + 1);
            assert(p.drop_last() =~= views(model.domains@).take(k as int));
            assert(p.last() == model.domains@[k as int]@);
        }
        k = k + 1;
    }
    assert(views(model.domains@).take(model.domains@.len() as int) =~= views(model.domains@));
    SymbolTable { symbols }
}

/// Adds `desc` to the summaries of each of `names`, as in [`add_summaries`].
fn add_summaries_exec(symbols: &mut SymbolMap, names: &Vec<String>, desc: &str)
    requires
        old(symbols).wf(),
    ensures
        final(symbols).wf(),
        final(symbols)@ == add_summaries(old(symbols)@, views(names@), desc@),
{
    let mut k: usize = 0;
    assert(views(names@).take(0) =~= Seq::<Seq<char>>::empty());
    while k < names.len()
        invariant
            k <= names@.len(),
            symbols.wf(),
            symbols@ == add_summaries(old(symbols)@, views(names@).take(k as int), desc@),
        decreases names@.len() - k,
    {
        append_domain_summary(symbols, names[k].as_str(), desc);
        proof {
            let p = views(names@).take(k + 1);
            assert(p.drop_last() =~= views(names@).take(k as int));
            assert(p.last() == names@[k as int]@);
        }
        k = k + 1;
    }
    assert(views(names@).take(names@.len() as int) =~= views(names@));
}

/// Adds what a domain statement says to the summaries, as in
/// [`stmt_summaries`].
fn add_stmt_summaries(symbols: &mut SymbolMap, stmt: &DomainStmt)
    requires
        old(symbols).wf(),
    ensures
        final(symbols).wf(),
        final(symbols)@ == stmt_summaries(old(symbols)@, stmt@),
{
    match stmt {
        DomainStmt::IntervalDuration { intervals, domain } => {
            let d = format_domain(domain);
            let desc = concat2("duration ", d.as_str());
            add_summaries_exec(symbols, intervals, desc.as_str());
        },
        DomainStmt::IntervalStart { intervals, domain } => {
            let d = format_domain(domain);
            let desc = concat2("start ", d.as_str());
            add_summaries_exec(symbols, intervals, desc.as_str());
        },
        DomainStmt::IntervalEnd { intervals, domain } => {
            let d = format_domain(domain);
            let desc = concat2("end ", d.as_str());
            add_summaries_exec(symbols, intervals, desc.as_str());
        },
        DomainStmt::IntervalOptional { intervals } => {
            add_summaries_exec(symbols, intervals, "optional");
        },
        DomainStmt::IntegerDomain { name, domain } => {
            let d = format_domain(domain);
            append_domain_summary(symbols, name.as_str(), d.as_str());
        },
        DomainStmt::SetDomain { name, members } => {
            let j = join_name_text(members);
            let desc = concat3("members: {", j.as_str(), "}");
            append_domain_summary(symbols, name.as_str(), desc.as_str());
        },
        DomainStmt::Demand { interval, set, value } => {
            let v = i64_text(*value);
            let a = concat3("demand(", set.as_str(), ") = ");
            let desc = concat2(a.as_str(), v.as_str());
            append_domain_summary(symbols, interval.as_str(), desc.as_str());
        },
        DomainStmt::RealDomain { name, domain } => {
            let d = format_domain(domain);
            let desc = concat2("real ", d.as_str());
            append_domain_summary(symbols, name.as_str(), desc.as_str());
        },
    }
}

// ---------------------------------------------------------------------------
// Token positions
// ---------------------------------------------------------------------------

/// The length in bytes of the text of a token: an identifier's UTF-8 bytes, an
/// integer's decimal digits (with its sign), a real's shortest decimal text, 1
/// or 2 for punctuation and operators.
pub open spec fn token_len(k: SpecTokenKind) -> nat {
    match k {
        SpecTokenKind::Ident(s) => encode_utf8(s).len(),
        SpecTokenKind::Number(n) => signed_decimal(n as int).len(),
        SpecTokenKind::Float(t) => decimal_display(t).len(),
        SpecTokenKind::DotDot | SpecTokenKind::Le | SpecTokenKind::Ge | SpecTokenKind::EqEq
        | SpecTokenKind::Ne => 2,
        _ => 1,
    }
}

/// The length in bytes of a token's text, as in [`token_len`].
pub fn token_text_len(token: &Token) -> (n: usize)
    ensures
        n == token_len(token.kind@),
{
    match &token.kind {
        TokenKind::Ident(s) => s.as_str().as_bytes().len(),
        TokenKind::Number(n) => {
            let t = i64_text(*n);
            t.as_str().unicode_len()
        },
        TokenKind::Float(f) => {
            let t = decimal_display_text(f.as_str());
            t.as_str().unicode_len()
        },
        TokenKind::DotDot | TokenKind::Le | TokenKind::Ge | TokenKind::EqEq | TokenKind::Ne => 2,
        _ => 1,
    }
}

/// Whether a token covers the 0-based `line` and `character`: it is on line
/// `line + 1` and its columns (from its span's column, as many as its text has
/// bytes) include `character + 1`.
pub open spec fn covers(t: SpecToken, line: int, character: int) -> bool {
    &&& t.span.line == line + 1
    &&& t.span.col <= character + 1 < t.span.col + token_len(t.kind)
}

/// Whether a token covers a position, as in [`covers`].
fn token_covers(t: &Token, line: u32, character: u32) -> (b: bool)
    ensures
        b == covers(t@, line as int, character as int),
{
    let target_line = line as u64 + 1;
    let target_col = character as u64 + 1;
    if t.span.line as u128 != target_line as u128 {
        return false;
    }
    let start = t.span.col as u128;
    let len = token_text_len(t) as u128;
    start <= target_col as u128 && (target_col as u128) < start + len
}

/// The first token that covers the 0-based `line` and `character` (see
/// [`covers`]), if any.
pub fn token_at_position(tokens: &[Token], line: u32, character: u32) -> (r: Option<&Token>)
    ensures
        (exists|i: int|
            0 <= i < tokens@.len() && (#[trigger] tokens@[i]).span.line == line + 1
                && tokens@[i].span.col <= character + 1 < tokens@[i].span.col + token_len(
                tokens@[i].kind@,
            )) ==> r is Some,
        r matches Some(t) ==> t.span.line == line + 1 && t.span.col <= character + 1 < t.span.col
            + token_len(t.kind@),
        match r {
            Some(t) => exists|i: int|
                0 <= i < tokens@.len() && tokens@[i] == *t && covers(t@, line as int, character as int)
                    && forall|j: int| 0 <= j < i ==> !covers(#[trigger] tokens@[j]@, line as int, character as int),
            None => forall|j: int|
                0 <= j < tokens@.len() ==> !covers(#[trigger] tokens@[j]@, line as int, character as int),
        },
{
    let mut i: usize = 0;
    while i < tokens.len()
        invariant
            i <= tokens@.len(),
            forall|j: int| 0 <= j < i ==> !covers(#[trigger] tokens@[j]@, line as int, character as int),
        decreases tokens@.len() - i,
    {
        if token_covers(&tokens[i], line, character) {
            proof {
                law_covers_whole_width(tokens@[i as int]@, line as int, character as int);
            }
            return Some(&tokens[i]);
        }
        i = i + 1;
    }
    proof {
        assert forall|j: int|
            0 <= j < tokens@.len() && (#[trigger] tokens@[j]).span.line == line + 1
                && tokens@[j].span.col <= character + 1 < tokens@[j].span.col + token_len(
                tokens@[j].kind@,
            ) implies false by {
            law_covers_whole_width(tokens@[j]@, line as int, character as int);
            assert(!covers(tokens@[j]@, line as int, character as int));
        }
    }
    None
}

/// A token covers exactly the positions of its text: the characters from its
/// column through the whole byte width of its text, on its line (lines and
/// characters counted from 0, spans from 1).
pub proof fn law_covers_whole_width(t: SpecToken, line: int, character: int)
    ensures
        covers(t, line, character) == (t.span.line == line + 1 && t.span.col <= character + 1
            < t.span.col + token_len(t.kind)),
{
}

// ---------------------------------------------------------------------------
// Names in expressions
// ---------------------------------------------------------------------------

/// The variable names an expression refers to, left to right.
pub open spec fn expr_names(e: SpecExpr) -> Seq<Seq<char>>
    decreases e,
{
    match e {
        SpecExpr::Var(n) => seq![n],
        SpecExpr::StartOf(n) => seq![n],
        SpecExpr::EndOf(n) => seq![n],
        SpecExpr::DurationOf(n) => seq![n],
        SpecExpr::PresentOf(n) => seq![n],
        SpecExpr::BinaryOp { left, right, .. } => expr_names(*left) + expr_names(*right),
        SpecExpr::Negate(inner) => expr_names(*inner),
        SpecExpr::Number(_) => seq![],
        SpecExpr::Float(_) => seq![],
    }
}

/// Appends the variable names an expression refers to, left to right.
pub fn _collect_expr_names(expr: &Expr, names: &mut Vec<String>)
    ensures
        views(final(names)@) == views(old(names)@) + expr_names(expr@),
    decreases expr,
{
    match expr {
        Expr::Var(name) | Expr::StartOf(name) | Expr::EndOf(name) | Expr::DurationOf(name)
        | Expr::PresentOf(name) => {
            let ghost before = views(names@);
            names.push(name.clone());
            assert(views(names@) =~= before + seq![name@]);
        },
        Expr::BinaryOp { left, right, .. } => {
            let ghost before = views(names@);
            _collect_expr_names(left, names);
            _collect_expr_names(right, names);
            assert(before + expr_names(left@) + expr_names(right@) =~= before + (expr_names(left@)
                + expr_names(right@)));
        },
        Expr::Negate(inner) => {
            _collect_expr_names(inner, names);
        },
        Expr::Number(_) | Expr::Float(_) => {
            assert(views(names@) + seq![] =~= views(names@));
        },
    }
}

// ---------------------------------------------------------------------------
// Laws
// ---------------------------------------------------------------------------

/// `name` occurs among the tokens as an identifier.
pub open spec fn occurs(ts: Seq<SpecToken>, name: Seq<char>) -> bool {
    exists|i: int| 0 <= i < ts.len() && (#[trigger] ts[i]).kind == SpecTokenKind::Ident(name)
}

/// Replacing what is known of an entry keeps where every name is.
proof fn lemma_index_of_update(syms: SymbolList, i: int, v: SpecSymbolInfo, name: Seq<char>)
    requires
        0 <= i < syms.len(),
    ensures
        index_of(syms.update(i, (syms[i].0, v)), name) == index_of(syms, name),
    decreases syms.len(),
{
    let u = syms.update(i, (syms[i].0, v));
    if i < syms.len() - 1 {
        assert(u.drop_last() =~= syms.drop_last().update(i, (syms[i].0, v)));
        lemma_index_of_update(syms.drop_last(), i, v, name);
    } else {
        assert(u.drop_last() =~= syms.drop_last());
    }
}

/// A new last entry is found for its name, and leaves the others where they are.
proof fn lemma_index_of_push(syms: SymbolList, x: (Seq<char>, SpecSymbolInfo), name: Seq<char>)
    ensures
        index_of(syms.push(x), name) == if x.0 == name {
            syms.len() as int
        } else {
            index_of(syms, name)
        },
{
    assert(syms.push(x).drop_last() =~= syms);
}

/// Adding to a summary keeps the entries and their types.
proof fn lemma_add_summary_keeps(syms: SymbolList, n: Seq<char>, desc: Seq<char>, name: Seq<char>)
    ensures
        index_of(add_summary(syms, n, desc), name) == index_of(syms, name),
        index_of(syms, name) >= 0 ==> add_summary(syms, n, desc)[index_of(syms, name)].1.var_type
            == syms[index_of(syms, name)].1.var_type,
        add_summary(syms, n, desc).len() == syms.len(),
{
    lemma_index_of(syms, n);
    lemma_index_of(syms, name);
    let i = index_of(syms, n);
    if i >= 0 {
        let info = syms[i].1;
        let v = SpecSymbolInfo {
            domain_summary: Some(
                match info.domain_summary {
                    Some(s) => s + ", "@ + desc,
                    None => desc,
                },
            ),
            ..info
        };
        lemma_index_of_update(syms, i, v, name);
    }
}

proof fn lemma_add_summaries_keep(
    syms: SymbolList,
    names: Seq<Seq<char>>,
    desc: Seq<char>,
    name: Seq<char>,
)
    ensures
        index_of(add_summaries(syms, names, desc), name) == index_of(syms, name),
        index_of(syms, name) >= 0 ==> add_summaries(syms, names, desc)[index_of(
            syms,
            name,
        )].1.var_type == syms[index_of(syms, name)].1.var_type,
        add_summaries(syms, names, desc).len() == syms.len(),
    decreases names.len(),
{
    if names.len() > 0 {
        lemma_add_summaries_keep(syms, names.drop_last(), desc, name);
        lemma_add_summary_keeps(
            add_summaries(syms, names.drop_last(), desc),
            names.last(),
            desc,
            name,
        );
    }
}

proof fn lemma_stmt_summaries_keep(syms: SymbolList, stmt: SpecDomainStmt, name: Seq<char>)
    ensures
        index_of(stmt_summaries(syms, stmt), name) == index_of(syms, name),
        index_of(syms, name) >= 0 ==> stmt_summaries(syms, stmt)[index_of(
            syms,
            name,
        )].1.var_type == syms[index_of(syms, name)].1.var_type,
        stmt_summaries(syms, stmt).len() == syms.len(),
{
    match stmt {
        SpecDomainStmt::IntervalDuration { intervals, domain } => lemma_add_summaries_keep(
            syms,
            intervals,
            "duration "@ + domain_text(domain),
            name,
        ),
        SpecDomainStmt::IntervalStart { intervals, domain } => lemma_add_summaries_keep(
            syms,
            intervals,
            "start "@ + domain_text(domain),
            name,
        ),
        SpecDomainStmt::IntervalEnd { intervals, domain } => lemma_add_summaries_keep(
            syms,
            intervals,
            "end "@ + domain_text(domain),
            name,
        ),
        SpecDomainStmt::IntervalOptional { intervals } => lemma_add_summaries_keep(
            syms,
            intervals,
            "optional"@,
            name,
        ),
        SpecDomainStmt::IntegerDomain { name: n, domain } => lemma_add_summary_keeps(
            syms,
            n,
            domain_text(domain),
            name,
        ),
        SpecDomainStmt::SetDomain { name: n, members } => lemma_add_summary_keeps(
            syms,
            n,
            "members: {"@ + join_names(members) + "}"@,
            name,
        ),
        SpecDomainStmt::RealDomain { name: n, domain } => lemma_add_summary_keeps(
            syms,
            n,
            "real "@ + domain_text(domain),
            name,
        ),
        SpecDomainStmt::Demand { interval, set, value } => lemma_add_summary_keeps(
            syms,
            interval,
            "demand("@ + set + ") = "@ + signed_decimal(value as int),
            name,
        ),
    }
}

proof fn lemma_all_summaries_keep(syms: SymbolList, stmts: Seq<SpecDomainStmt>, name: Seq<char>)
    ensures
        index_of(all_summaries(syms, stmts), name) == index_of(syms, name),
        index_of(syms, name) >= 0 ==> all_summaries(syms, stmts)[index_of(
            syms,
            name,
        )].1.var_type == syms[index_of(syms, name)].1.var_type,
    decreases stmts.len(),
{
    if stmts.len() > 0 {
        lemma_all_summaries_keep(syms, stmts.drop_last(), name);
        lemma_stmt_summaries_keep(all_summaries(syms, stmts.drop_last()), stmts.last(), name);
    }
}

/// Noting an occurrence of `n` gives `n` an entry, with the type it was given,
/// and keeps the other entries and their types.
proof fn lemma_note_symbol_keys(
    syms: SymbolList,
    n: Seq<char>,
    ty: VarType,
    span: Span,
    in_block: bool,
    first: bool,
    name: Seq<char>,
)
    requires
        index_of(syms, n) >= 0 ==> syms[index_of(syms, n)].1.var_type == ty,
    ensures
        (index_of(note_symbol(syms, n, ty, span, in_block, first), name) >= 0) == (name == n || index_of(
            syms,
            name,
        ) >= 0),
        index_of(note_symbol(syms, n, ty, span, in_block, first), name) >= 0 ==> note_symbol(
            syms,
            n,
            ty,
            span,
            in_block,
            first,
        )[index_of(note_symbol(syms, n, ty, span, in_block, first), name)].1.var_type == (if name == n {
            ty
        } else {
            syms[index_of(syms, name)].1.var_type
        }),
{
    lemma_index_of(syms, n);
    lemma_index_of(syms, name);
    let syms1 = if index_of(syms, n) < 0 {
        syms.push(
            (
                n,
                SpecSymbolInfo {
                    var_type: ty,
                    decl_span: span,
                    ref_spans: seq![],
                    domain_summary: None,
                },
            ),
        )
    } else {
        syms
    };
    if index_of(syms, n) < 0 {
        lemma_index_of_push(
            syms,
            (
                n,
                SpecSymbolInfo {
                    var_type: ty,
                    decl_span: span,
                    ref_spans: seq![],
                    domain_summary: None,
                },
            ),
            name,
        );
        lemma_index_of_push(
            syms,
            (
                n,
                SpecSymbolInfo {
                    var_type: ty,
                    decl_span: span,
                    ref_spans: seq![],
                    domain_summary: None,
                },
            ),
            n,
        );
    }
    lemma_index_of(syms1, n);
    lemma_index_of(syms1, name);
    let i = index_of(syms1, n);
    let info = syms1[i].1;
    let v = if in_block {
        if first {
            SpecSymbolInfo { decl_span: span, ..info }
        } else {
            info
        }
    } else {
        SpecSymbolInfo { ref_spans: info.ref_spans.push(span), ..info }
    };
    assert(syms1[i].0 == n);
    lemma_index_of_update(syms1, i, v, name);
}

/// What the scan of some tokens holds: an entry for each declared name that
/// occurs among them (but `variables`), with its declared type.
proof fn lemma_scan_keys(ts: Seq<SpecToken>, vars: Seq<SpecVarDecl>, name: Seq<char>)
    ensures
        (index_of(scan(ts, vars).syms, name) >= 0) == (name != "variables"@ && declared_type(
            vars,
            name,
        ) is Some && occurs(ts, name)),
        index_of(scan(ts, vars).syms, name) >= 0 ==> Some(
            scan(ts, vars).syms[index_of(scan(ts, vars).syms, name)].1.var_type,
        ) == declared_type(vars, name),
    decreases ts.len(),
{
    if ts.len() > 0 {
        let pre = ts.drop_last();
        let t = ts.last();
        lemma_scan_keys(pre, vars, name);
        let st = scan(pre, vars);
        assert(occurs(ts, name) == (occurs(pre, name) || t.kind == SpecTokenKind::Ident(name))) by {
            if occurs(ts, name) {
                let i = choose|i: int| 0 <= i < ts.len() && (#[trigger] ts[i]).kind
                    == SpecTokenKind::Ident(name);
                if i < ts.len() - 1 {
                    assert(pre[i] == ts[i]);
                }
            }
            if occurs(pre, name) {
                let i = choose|i: int| 0 <= i < pre.len() && (#[trigger] pre[i]).kind
                    == SpecTokenKind::Ident(name);
                assert(ts[i] == pre[i]);
            }
            if t.kind == SpecTokenKind::Ident(name) {
                assert(ts[ts.len() - 1] == t);
            }
        }
        match t.kind {
            SpecTokenKind::Ident(n) => {
                if n != "variables"@ {
                    match declared_type(vars, n) {
                        Some(ty) => {
                            lemma_scan_keys(pre, vars, n);
                            lemma_note_symbol_keys(
                                st.syms,
                                n,
                                ty,
                                t.span,
                                st.in_block,
                                !st.declared.contains(n),
                                name,
                            );
                        },
                        None => {},
                    }
                }
            },
            _ => {},
        }
    }
}

/// The symbol table holds an entry exactly for each declared name that occurs
/// among the tokens (other than as the word `variables`), and the entry's type
/// is that of the last declaration listing the name.
pub proof fn law_symbol_table_entries(model: SpecJiaModel, ts: Seq<SpecToken>, name: Seq<char>)
    ensures
        lookup(symbol_table_of(model, ts), name) is Some == (name != "variables"@ && declared_type(
            model.variables,
            name,
        ) is Some && occurs(ts, name)),
        lookup(symbol_table_of(model, ts), name) matches Some(info) ==> Some(info.var_type)
            == declared_type(model.variables, name),
{
    lemma_scan_keys(ts, model.variables, name);
    lemma_all_summaries_keep(scan(ts, model.variables).syms, model.domains, name);
}


// ---------------------------------------------------------------------------
// Summaries as joined lists
// ---------------------------------------------------------------------------

/// The description `desc` once for each time `names` lists `name`.
pub open spec fn mention_descs(names: Seq<Seq<char>>, name: Seq<char>, desc: Seq<char>) -> Seq<
    Seq<char>,
>
    decreases names.len(),
{
    if names.len() == 0 {
        seq![]
    } else {
        mention_descs(names.drop_last(), name, desc) + if names.last() == name {
            seq![desc]
        } else {
            seq![]
        }
    }
}

/// The descriptions that one domain statement gives `name`, in order.
pub open spec fn stmt_descs(stmt: SpecDomainStmt, name: Seq<char>) -> Seq<Seq<char>> {
    match stmt {
        SpecDomainStmt::IntervalDuration { intervals, domain } => mention_descs(
            intervals,
            name,
            "duration "@ + domain_text(domain),
        ),
        SpecDomainStmt::IntervalStart { intervals, domain } => mention_descs(
            intervals,
            name,
            "start "@ + domain_text(domain),
        ),
        SpecDomainStmt::IntervalEnd { intervals, domain } => mention_descs(
            intervals,
            name,
            "end "@ + domain_text(domain),
        ),
        SpecDomainStmt::IntervalOptional { intervals } => mention_descs(
            intervals,
            name,
            "optional"@,
        ),
        SpecDomainStmt::IntegerDomain { name: n, domain } => if n == name {
            seq![domain_text(domain)]
        } else {
            seq![]
        },
        SpecDomainStmt::SetDomain { name: n, members } => if n == name {
            seq!["members: {"@ + join_names(members) + "}"@]
        } else {
            seq![]
        },
        SpecDomainStmt::RealDomain { name: n, domain } => if n == name {
            seq!["real "@ + domain_text(domain)]
        } else {
            seq![]
        },
        SpecDomainStmt::Demand { interval, set, value } => if interval == name {
            seq!["demand("@ + set + ") = "@ + signed_decimal(value as int)]
        } else {
            seq![]
        },
    }
}

/// The descriptions that the domain statements give `name`, in statement order.
pub open spec fn domain_descs(stmts: Seq<SpecDomainStmt>, name: Seq<char>) -> Seq<Seq<char>>
    decreases stmts.len(),
{
    if stmts.len() == 0 {
        seq![]
    } else {
        domain_descs(stmts.drop_last(), name) + stmt_descs(stmts.last(), name)
    }
}

/// Texts joined with `, ` in between.
pub open spec fn join_descs(ds: Seq<Seq<char>>) -> Seq<char>
    decreases ds.len(),
{
    if ds.len() == 0 {
        seq![]
    } else if ds.len() == 1 {
        ds[0]
    } else {
        join_descs(ds.drop_last()) + ", "@ + ds.last()
    }
}

/// A summary with the descriptions `ds` added one by one.
pub open spec fn extend_summary(s: Option<Seq<char>>, ds: Seq<Seq<char>>) -> Option<Seq<char>>
    decreases ds.len(),
{
    if ds.len() == 0 {
        s
    } else {
        Some(
            match extend_summary(s, ds.drop_last()) {
                Some(t) => t + ", "@ + ds.last(),
                None => ds.last(),
            },
        )
    }
}

proof fn lemma_extend_concat(s: Option<Seq<char>>, a: Seq<Seq<char>>, b: Seq<Seq<char>>)
    ensures
        extend_summary(extend_summary(s, a), b) == extend_summary(s, a + b),
    decreases b.len(),
{
    if b.len() == 0 {
        assert(a + b =~= a);
    } else {
        lemma_extend_concat(s, a, b.drop_last());
        assert((a + b).drop_last() =~= a + b.drop_last());
        assert((a + b).last() == b.last());
    }
}

proof fn lemma_extend_none(ds: Seq<Seq<char>>)
    ensures
        extend_summary(None, ds) == if ds.len() == 0 {
            None
        } else {
            Some(join_descs(ds))
        },
    decreases ds.len(),
{
    if ds.len() > 0 {
        lemma_extend_none(ds.drop_last());
        if ds.len() == 1 {
            assert(ds.drop_last().len() == 0);
        }
    }
}

/// The summary of `name` after one added description.
proof fn lemma_add_summary_value(syms: SymbolList, n: Seq<char>, desc: Seq<char>, name: Seq<char>)
    requires
        index_of(syms, name) >= 0,
    ensures
        add_summary(syms, n, desc)[index_of(syms, name)].1.domain_summary == extend_summary(
            syms[index_of(syms, name)].1.domain_summary,
            if n == name {
                seq![desc]
            } else {
                seq![]
            },
        ),
{
    lemma_index_of(syms, n);
    lemma_index_of(syms, name);
    let old = syms[index_of(syms, name)].1.domain_summary;
    assert(seq![desc].drop_last() =~= Seq::<Seq<char>>::empty());
    assert(extend_summary(old, Seq::<Seq<char>>::empty()) == old);
    assert(extend_summary(old, seq![desc]) == Some(
        match old {
            Some(t) => t + ", "@ + desc,
            None => desc,
        },
    ));
    if n != name && index_of(syms, n) >= 0 {
        assert(index_of(syms, n) != index_of(syms, name));
    }
}

proof fn lemma_add_summaries_value(
    syms: SymbolList,
    names: Seq<Seq<char>>,
    desc: Seq<char>,
    name: Seq<char>,
)
    requires
        index_of(syms, name) >= 0,
    ensures
        add_summaries(syms, names, desc)[index_of(syms, name)].1.domain_summary == extend_summary(
            syms[index_of(syms, name)].1.domain_summary,
            mention_descs(names, name, desc),
        ),
    decreases names.len(),
{
    if names.len() > 0 {
        let pre = add_summaries(syms, names.drop_last(), desc);
        lemma_add_summaries_value(syms, names.drop_last(), desc, name);
        lemma_add_summaries_keep(syms, names.drop_last(), desc, name);
        lemma_add_summary_value(pre, names.last(), desc, name);
        lemma_extend_concat(
            syms[index_of(syms, name)].1.domain_summary,
            mention_descs(names.drop_last(), name, desc),
            if names.last() == name {
                seq![desc]
            } else {
                seq![]
            },
        );
    } else {
        assert(mention_descs(names, name, desc) =~= Seq::<Seq<char>>::empty());
    }
}

proof fn lemma_single_value(syms: SymbolList, n: Seq<char>, desc: Seq<char>, name: Seq<char>)
    requires
        index_of(syms, name) >= 0,
    ensures
        add_summary(syms, n, desc)[index_of(syms, name)].1.domain_summary == extend_summary(
            syms[index_of(syms, name)].1.domain_summary,
            if n == name {
                seq![desc]
            } else {
                seq![]
            },
        ),
{
    lemma_add_summary_value(syms, n, desc, name);
}

proof fn lemma_stmt_value(syms: SymbolList, stmt: SpecDomainStmt, name: Seq<char>)
    requires
        index_of(syms, name) >= 0,
    ensures
        stmt_summaries(syms, stmt)[index_of(syms, name)].1.domain_summary == extend_summary(
            syms[index_of(syms, name)].1.domain_summary,
            stmt_descs(stmt, name),
        ),
{
    match stmt {
        SpecDomainStmt::IntervalDuration { intervals, domain } => lemma_add_summaries_value(
            syms,
            intervals,
            "duration "@ + domain_text(domain),
            name,
        ),
        SpecDomainStmt::IntervalStart { intervals, domain } => lemma_add_summaries_value(
            syms,
            intervals,
            "start "@ + domain_text(domain),
            name,
        ),
        SpecDomainStmt::IntervalEnd { intervals, domain } => lemma_add_summaries_value(
            syms,
            intervals,
            "end "@ + domain_text(domain),
            name,
        ),
        SpecDomainStmt::IntervalOptional { intervals } => lemma_add_summaries_value(
            syms,
            intervals,
            "optional"@,
            name,
        ),
        SpecDomainStmt::IntegerDomain { name: n, domain } => lemma_single_value(
            syms,
            n,
            domain_text(domain),
            name,
        ),
        SpecDomainStmt::SetDomain { name: n, members } => lemma_single_value(
            syms,
            n,
            "members: {"@ + join_names(members) + "}"@,
            name,
        ),
        SpecDomainStmt::RealDomain { name: n, domain } => lemma_single_value(
            syms,
            n,
            "real "@ + domain_text(domain),
            name,
        ),
        SpecDomainStmt::Demand { interval, set, value } => lemma_single_value(
            syms,
            interval,
            "demand("@ + set + ") = "@ + signed_decimal(value as int),
            name,
        ),
    }
}

proof fn lemma_all_value(syms: SymbolList, stmts: Seq<SpecDomainStmt>, name: Seq<char>)
    requires
        index_of(syms, name) >= 0,
    ensures
        all_summaries(syms, stmts)[index_of(syms, name)].1.domain_summary == extend_summary(
            syms[index_of(syms, name)].1.domain_summary,
            domain_descs(stmts, name),
        ),
    decreases stmts.len(),
{
    if stmts.len() > 0 {
        let pre = all_summaries(syms, stmts.drop_last());
        lemma_all_value(syms, stmts.drop_last(), name);
        lemma_all_summaries_keep(syms, stmts.drop_last(), name);
        lemma_stmt_value(pre, stmts.last(), name);
        lemma_extend_concat(
            syms[index_of(syms, name)].1.domain_summary,
            domain_descs(stmts.drop_last(), name),
            stmt_descs(stmts.last(), name),
        );
    }
}

/// The scan leaves every summary empty.
proof fn lemma_scan_no_summaries(ts: Seq<SpecToken>, vars: Seq<SpecVarDecl>)
    ensures
        forall|i: int|
            0 <= i < scan(ts, vars).syms.len() ==> (#[trigger] scan(ts, vars).syms[i]).1.domain_summary
                is None,
    decreases ts.len(),
{
    if ts.len() > 0 {
        lemma_scan_no_summaries(ts.drop_last(), vars);
        let st = scan(ts.drop_last(), vars);
        match ts.last().kind {
            SpecTokenKind::Ident(n) => {
                if n != "variables"@ {
                    match declared_type(vars, n) {
                        Some(ty) => {
                            let first = !st.declared.contains(n);
                            let t = ts.last();
                            let syms1 = if index_of(st.syms, n) < 0 {
                                st.syms.push(
                                    (
                                        n,
                                        SpecSymbolInfo {
                                            var_type: ty,
                                            decl_span: t.span,
                                            ref_spans: seq![],
                                            domain_summary: None,
                                        },
                                    ),
                                )
                            } else {
                                st.syms
                            };
                            assert forall|i: int| 0 <= i < syms1.len() implies (
                            #[trigger] syms1[i]).1.domain_summary is None by {
                                if i < st.syms.len() {
                                    assert(syms1[i] == st.syms[i]);
                                }
                            }
                            lemma_index_of(syms1, n);
                        },
                        None => {},
                    }
                }
            },
            _ => {},
        }
    }
}

/// The summary of a name in the symbol table joins, with `, `, the
/// descriptions that the domain statements give it, in statement order (one
/// for each time a statement names it): `duration `, `start ` or `end ` and the
/// domain for interval attributes, `optional`, the domain for an integer
/// domain, `members: {..}` for a set, `real ` and the domain for a real domain,
/// and `demand(set) = v`; it is empty when they give it none.
pub proof fn law_domain_summary(model: SpecJiaModel, ts: Seq<SpecToken>, name: Seq<char>)
    ensures
        lookup(symbol_table_of(model, ts), name) matches Some(info) ==> info.domain_summary == if domain_descs(
            model.domains,
            name,
        ).len() == 0 {
            None
        } else {
            Some(join_descs(domain_descs(model.domains, name)))
        },
{
    let syms = scan(ts, model.variables).syms;
    lemma_all_summaries_keep(syms, model.domains, name);
    if index_of(syms, name) >= 0 {
        lemma_index_of(syms, name);
        lemma_scan_no_summaries(ts, model.variables);
        lemma_all_value(syms, model.domains, name);
        lemma_extend_none(domain_descs(model.domains, name));
    }
}


// ---------------------------------------------------------------------------
// Declarations and references
// ---------------------------------------------------------------------------

/// The spans of the tokens that are the identifier `n`, in order: those the
/// scan meets inside a variables block (`inside`), or those it meets outside
/// one. A variables block runs from the word `variables` through the `}` that
/// closes the first `{` after it.
pub open spec fn ident_spans(
    ts: Seq<SpecToken>,
    vars: Seq<SpecVarDecl>,
    n: Seq<char>,
    inside: bool,
) -> Seq<Span>
    decreases ts.len(),
{
    if ts.len() == 0 {
        seq![]
    } else {
        ident_spans(ts.drop_last(), vars, n, inside) + if ts.last().kind == SpecTokenKind::Ident(n)
            && scan(ts.drop_last(), vars).in_block == inside {
            seq![ts.last().span]
        } else {
            seq![]
        }
    }
}

/// The declaration span the docs give: the first occurrence inside a variables
/// block, or else the first occurrence.
pub open spec fn first_decl_span(ins: Seq<Span>, outs: Seq<Span>) -> Span {
    if ins.len() > 0 {
        ins[0]
    } else {
        outs[0]
    }
}

/// Noting a name other than `name` leaves the entry of `name` as it was.
proof fn lemma_note_other(
    syms: SymbolList,
    m: Seq<char>,
    ty: VarType,
    span: Span,
    in_block: bool,
    first: bool,
    name: Seq<char>,
)
    requires
        m != name,
    ensures
        index_of(note_symbol(syms, m, ty, span, in_block, first), name) == index_of(syms, name),
        index_of(syms, name) >= 0 ==> note_symbol(syms, m, ty, span, in_block, first)[index_of(
            syms,
            name,
        )] == syms[index_of(syms, name)],
{
    let fresh = (
        m,
        SpecSymbolInfo { var_type: ty, decl_span: span, ref_spans: seq![], domain_summary: None },
    );
    let syms1 = if index_of(syms, m) < 0 {
        syms.push(fresh)
    } else {
        syms
    };
    lemma_index_of_push(syms, fresh, name);
    lemma_index_of_push(syms, fresh, m);
    lemma_index_of(syms1, m);
    lemma_index_of(syms1, name);
    lemma_index_of(syms, name);
    let i = index_of(syms1, m);
    let info = syms1[i].1;
    let v = if in_block {
        if first {
            SpecSymbolInfo { decl_span: span, ..info }
        } else {
            info
        }
    } else {
        SpecSymbolInfo { ref_spans: info.ref_spans.push(span), ..info }
    };
    lemma_index_of_update(syms1, i, v, name);
}

/// Noting `n`: its entry after, from its entry before (or a fresh one).
proof fn lemma_note_self(
    syms: SymbolList,
    n: Seq<char>,
    ty: VarType,
    span: Span,
    in_block: bool,
    first: bool,
)
    ensures
        ({
            let r = note_symbol(syms, n, ty, span, in_block, first);
            let before = if index_of(syms, n) >= 0 {
                syms[index_of(syms, n)].1
            } else {
                SpecSymbolInfo {
                    var_type: ty,
                    decl_span: span,
                    ref_spans: seq![],
                    domain_summary: None,
                }
            };
            &&& index_of(r, n) >= 0
            &&& r[index_of(r, n)].1 == if in_block {
                if first {
                    SpecSymbolInfo { decl_span: span, ..before }
                } else {
                    before
                }
            } else {
                SpecSymbolInfo { ref_spans: before.ref_spans.push(span), ..before }
            }
        }),
{
    let fresh = (
        n,
        SpecSymbolInfo { var_type: ty, decl_span: span, ref_spans: seq![], domain_summary: None },
    );
    let syms1 = if index_of(syms, n) < 0 {
        syms.push(fresh)
    } else {
        syms
    };
    lemma_index_of_push(syms, fresh, n);
    lemma_index_of(syms1, n);
    let i = index_of(syms1, n);
    let info = syms1[i].1;
    let v = if in_block {
        if first {
            SpecSymbolInfo { decl_span: span, ..info }
        } else {
            info
        }
    } else {
        SpecSymbolInfo { ref_spans: info.ref_spans.push(span), ..info }
    };
    lemma_index_of_update(syms1, i, v, n);
}

/// What the scan holds for a declared name `n`: whether it met `n` inside a
/// variables block, and an entry exactly when it met `n`, whose references and
/// declaration are as the docs say.
proof fn lemma_scan_spans(ts: Seq<SpecToken>, vars: Seq<SpecVarDecl>, n: Seq<char>)
    requires
        n != "variables"@,
        declared_type(vars, n) is Some,
    ensures
        ({
            let st = scan(ts, vars);
            let ins = ident_spans(ts, vars, n, true);
            let outs = ident_spans(ts, vars, n, false);
            &&& st.declared.contains(n) == (ins.len() > 0)
            &&& (index_of(st.syms, n) >= 0) == (ins.len() + outs.len() > 0)
            &&& index_of(st.syms, n) >= 0 ==> st.syms[index_of(st.syms, n)].1.ref_spans == outs
                && st.syms[index_of(st.syms, n)].1.decl_span == first_decl_span(ins, outs)
        }),
    decreases ts.len(),
{
    if ts.len() == 0 {
        assert(scan(ts, vars).declared.len() == 0);
    } else {
        let pre = ts.drop_last();
        let t = ts.last();
        lemma_scan_spans(pre, vars, n);
        let st = scan(pre, vars);
        let ins0 = ident_spans(pre, vars, n, true);
        let outs0 = ident_spans(pre, vars, n, false);
        let ins = ident_spans(ts, vars, n, true);
        let outs = ident_spans(ts, vars, n, false);
        lemma_index_of(st.syms, n);
        match t.kind {
            SpecTokenKind::Ident(m) => {
                if m == "variables"@ {
                    assert(ins =~= ins0);
                    assert(outs =~= outs0);
                } else {
                    match declared_type(vars, m) {
                        Some(ty) => {
                            let first = !st.declared.contains(m);
                            if m == n {
                                lemma_note_self(st.syms, n, ty, t.span, st.in_block, first);
                                if st.in_block {
                                    assert(ins =~= ins0.push(t.span));
                                    assert(outs =~= outs0);
                                    assert(st.declared.push(n).contains(n)) by {
                                        assert(st.declared.push(n)[st.declared.len() as int] == n);
                                    }
                                    if ins0.len() > 0 {
                                        assert(ins[0] == ins0[0]);
                                    }
                                } else {
                                    assert(outs =~= outs0.push(t.span));
                                    assert(ins =~= ins0);
                                    if outs0.len() > 0 {
                                        assert(outs[0] == outs0[0]);
                                    }
                                }
                            } else {
                                lemma_note_other(st.syms, m, ty, t.span, st.in_block, first, n);
                                assert(ins =~= ins0);
                                assert(outs =~= outs0);
                                if st.in_block {
                                    assert(st.declared.push(m).contains(n) == st.declared.contains(
                                        n,
                                    )) by {
                                        if st.declared.push(m).contains(n) {
                                            let k = choose|k: int|
                                                0 <= k < st.declared.push(m).len()
                                                    && st.declared.push(m)[k] == n;
                                            assert(st.declared[k] == n);
                                        }
                                        if st.declared.contains(n) {
                                            let k = choose|k: int|
                                                0 <= k < st.declared.len() && st.declared[k] == n;
                                            assert(st.declared.push(m)[k] == n);
                                        }
                                    }
                                }
                            }
                        },
                        None => {
                            assert(m != n);
                            assert(ins =~= ins0);
                            assert(outs =~= outs0);
                        },
                    }
                }
            },
            _ => {
                assert(ins =~= ins0);
                assert(outs =~= outs0);
            },
        }
    }
}

/// Adding summaries keeps the spans of every entry.
proof fn lemma_add_summary_spans(syms: SymbolList, m: Seq<char>, desc: Seq<char>, name: Seq<char>)
    requires
        index_of(syms, name) >= 0,
    ensures
        add_summary(syms, m, desc)[index_of(syms, name)].1.decl_span == syms[index_of(
            syms,
            name,
        )].1.decl_span,
        add_summary(syms, m, desc)[index_of(syms, name)].1.ref_spans == syms[index_of(
            syms,
            name,
        )].1.ref_spans,
{
    lemma_index_of(syms, m);
    lemma_index_of(syms, name);
}

proof fn lemma_add_summaries_spans(
    syms: SymbolList,
    names: Seq<Seq<char>>,
    desc: Seq<char>,
    name: Seq<char>,
)
    requires
        index_of(syms, name) >= 0,
    ensures
        add_summaries(syms, names, desc)[index_of(syms, name)].1.decl_span == syms[index_of(
            syms,
            name,
        )].1.decl_span,
        add_summaries(syms, names, desc)[index_of(syms, name)].1.ref_spans == syms[index_of(
            syms,
            name,
        )].1.ref_spans,
    decreases names.len(),
{
    if names.len() > 0 {
        lemma_add_summaries_spans(syms, names.drop_last(), desc, name);
        lemma_add_summaries_keep(syms, names.drop_last(), desc, name);
        lemma_add_summary_spans(
            add_summaries(syms, names.drop_last(), desc),
            names.last(),
            desc,
            name,
        );
    }
}

proof fn lemma_stmt_spans(syms: SymbolList, stmt: SpecDomainStmt, name: Seq<char>)
    requires
        index_of(syms, name) >= 0,
    ensures
        stmt_summaries(syms, stmt)[index_of(syms, name)].1.decl_span == syms[index_of(
            syms,
            name,
        )].1.decl_span,
        stmt_summaries(syms, stmt)[index_of(syms, name)].1.ref_spans == syms[index_of(
            syms,
            name,
        )].1.ref_spans,
{
    match stmt {
        SpecDomainStmt::IntervalDuration { intervals, domain } => lemma_add_summaries_spans(
            syms,
            intervals,
            "duration "@ + domain_text(domain),
            name,
        ),
        SpecDomainStmt::IntervalStart { intervals, domain } => lemma_add_summaries_spans(
            syms,
            intervals,
            "start "@ + domain_text(domain),
            name,
        ),
        SpecDomainStmt::IntervalEnd { intervals, domain } => lemma_add_summaries_spans(
            syms,
            intervals,
            "end "@ + domain_text(domain),
            name,
        ),
        SpecDomainStmt::IntervalOptional { intervals } => lemma_add_summaries_spans(
            syms,
            intervals,
            "optional"@,
            name,
        ),
        SpecDomainStmt::IntegerDomain { name: m, domain } => lemma_add_summary_spans(
            syms,
            m,
            domain_text(domain),
            name,
        ),
        SpecDomainStmt::SetDomain { name: m, members } => lemma_add_summary_spans(
            syms,
            m,
            "members: {"@ + join_names(members) + "}"@,
            name,
        ),
        SpecDomainStmt::RealDomain { name: m, domain } => lemma_add_summary_spans(
            syms,
            m,
            "real "@ + domain_text(domain),
            name,
        ),
        SpecDomainStmt::Demand { interval, set, value } => lemma_add_summary_spans(
            syms,
            interval,
            "demand("@ + set + ") = "@ + signed_decimal(value as int),
            name,
        ),
    }
}

proof fn lemma_all_spans(syms: SymbolList, stmts: Seq<SpecDomainStmt>, name: Seq<char>)
    requires
        index_of(syms, name) >= 0,
    ensures
        all_summaries(syms, stmts)[index_of(syms, name)].1.decl_span == syms[index_of(
            syms,
            name,
        )].1.decl_span,
        all_summaries(syms, stmts)[index_of(syms, name)].1.ref_spans == syms[index_of(
            syms,
            name,
        )].1.ref_spans,
    decreases stmts.len(),
{
    if stmts.len() > 0 {
        lemma_all_spans(syms, stmts.drop_last(), name);
        lemma_all_summaries_keep(syms, stmts.drop_last(), name);
        lemma_stmt_spans(all_summaries(syms, stmts.drop_last()), stmts.last(), name);
    }
}

/// The references of a name in the symbol table are the spans of its
/// occurrences outside the variables blocks, in order; its declaration is its
/// first occurrence inside a variables block, or, when it has none there, its
/// first occurrence.
pub proof fn law_symbol_table_spans(model: SpecJiaModel, ts: Seq<SpecToken>, name: Seq<char>)
    ensures
        lookup(symbol_table_of(model, ts), name) matches Some(info) ==> {
            let ins = ident_spans(ts, model.variables, name, true);
            let outs = ident_spans(ts, model.variables, name, false);
            &&& info.ref_spans == outs
            &&& info.decl_span == first_decl_span(ins, outs)
        },
{
    let syms = scan(ts, model.variables).syms;
    lemma_scan_keys(ts, model.variables, name);
    lemma_all_summaries_keep(syms, model.domains, name);
    if index_of(syms, name) >= 0 {
        lemma_scan_spans(ts, model.variables, name);
        lemma_all_spans(syms, model.domains, name);
    }
}

} // verus!
