//! The deterministic order of parsed domains and problems: sort keys of the
//! declarations and init elements, and the sorts themselves.

use vstd::prelude::*;

use crate::ast::{
    views, AtomicFormula, BasicAction, DerivedPredicate, Domain, DurativeAction, FunctionDecl,
    FunctionTerm, InitElement, PredicateDecl, Problem, SpecBasicAction, SpecDomain, SpecProblem,
    SpecDerivedPredicate, SpecDurativeAction, SpecFunctionDecl, SpecInitElement, SpecPredicateDecl, SpecTerm, SpecTypedGroup, Term, TypedGroup,
};
use crate::sorting::{
    is_stable_sort, key_texts, law_sorted_is_own_sort, law_stable_sort_ordered,
    law_stable_sort_unique, lemma_tagged_text_order, sort_by_text_keys, stably_sorted, text_le,
    text_lt,
};
use crate::text::{decimal_parts, literal_frac_part, literal_int_part, string_from_chars};

verus! {

// ---------------------------------------------------------------------------
// Sort keys
// ---------------------------------------------------------------------------

/// The text of a term: its name, or its variable with the `?`.
pub open spec fn term_text(t: SpecTerm) -> Seq<char> {
    match t {
        SpecTerm::Name(n) => n,
        SpecTerm::Variable(v) => v,
    }
}

/// The texts of terms joined with `,`.
pub open spec fn joined_terms(ts: Seq<SpecTerm>) -> Seq<char>
    decreases ts.len(),
{
    if ts.len() == 0 {
        seq![]
    } else if ts.len() == 1 {
        term_text(ts[0])
    } else {
        joined_terms(ts.drop_last()) + seq![','] + term_text(ts.last())
    }
}

/// `name` alone when there are no arguments, else `name(arg,arg,...)`.
pub open spec fn call_text(name: Seq<char>, args: Seq<SpecTerm>) -> Seq<char> {
    if args.len() == 0 {
        name
    } else {
        name + seq!['('] + joined_terms(args) + seq![')']
    }
}

/// The digit after `c` (`9` for `9`).
pub open spec fn next_digit(c: char) -> char {
    if c == '0' {
        '1'
    } else if c == '1' {
        '2'
    } else if c == '2' {
        '3'
    } else if c == '3' {
        '4'
    } else if c == '4' {
        '5'
    } else if c == '5' {
        '6'
    } else if c == '6' {
        '7'
    } else if c == '7' {
        '8'
    } else {
        '9'
    }
}

/// A digit string plus one.
pub open spec fn increment(d: Seq<char>) -> Seq<char>
    decreases d.len(),
{
    if d.len() == 0 {
        seq!['1']
    } else if d.last() == '9' {
        increment(d.drop_last()).push('0')
    } else {
        d.drop_last().push(next_digit(d.last()))
    }
}

/// The first six fractional digits, padded with zeros.
pub open spec fn six_digits(f: Seq<char>) -> Seq<char> {
    Seq::new(6, |i: int| if i < f.len() { f[i] } else { '0' })
}

/// A decimal literal rendered with exactly six fractional digits, rounded half
/// up on the seventh (`2` gives `2.000000`, `0.1234567` gives `0.123457`).
pub open spec fn fixed_six(t: Seq<char>) -> Seq<char> {
    let f = literal_frac_part(t);
    let d = literal_int_part(t) + six_digits(f);
    let r = if f.len() > 6 && f[6] >= '5' {
        increment(d)
    } else {
        d
    };
    r.subrange(0, r.len() - 6) + seq!['.'] + r.subrange(r.len() - 6, r.len() as int)
}

/// The sort key of an init element: predicates first, then negated predicates,
/// numeric assignments and timed literals, each by its text (a timed literal by
/// its time and then its element's text).
pub open spec fn init_key(e: SpecInitElement) -> (u8, Seq<char>)
    decreases e,
{
    match e {
        SpecInitElement::Predicate(af) => (0, call_text(af.name, af.args)),
        SpecInitElement::NotPredicate(af) => (1, call_text(af.name, af.args)),
        SpecInitElement::NumericAssignment(f, _) => (2, call_text(f.name, f.args)),
        SpecInitElement::At(t, inner) => (3, fixed_six(t) + init_key(*inner).1),
    }
}

/// The digit character of a tag below ten.
pub open spec fn tag_char(tag: u8) -> char {
    if tag == 0 {
        '0'
    } else if tag == 1 {
        '1'
    } else if tag == 2 {
        '2'
    } else {
        '3'
    }
}

/// The sort key of an init element as one text: the tag's digit, then the text
/// (ordered as the pair is, see [`crate::sorting::lemma_tagged_text_order`]).
pub open spec fn init_key_text(e: SpecInitElement) -> Seq<char> {
    seq![tag_char(init_key(e).0)] + init_key(e).1
}

/// The text of a term.
pub fn term_name(t: &Term) -> (r: &str)
    ensures
        r@ == term_text(t@),
{
    match t {
        Term::Name(n) => n.as_str(),
        Term::Variable(v) => v.as_str(),
    }
}

/// `name` or `name(arg,...)` for a predicate or function applied to terms.
fn call_key(name: &String, args: &Vec<Term>) -> (s: String)
    ensures
        s@ == call_text(name@, views(args@)),
{
    if args.len() == 0 {
        return name.clone();
    }
    let mut out = name.clone();
    out.append("(");
    proof {
        reveal_strlit("(");
        reveal_strlit(",");
        reveal_strlit(")");
    }
    let ghost head = out@;
    let mut k: usize = 0;
    while k < args.len()
        invariant
            k <= args@.len(),
            args@.len() > 0,
            k > 0 ==> out@ == head + joined_terms(views(args@).take(k as int)),
            k == 0 ==> out@ == head,
        decreases args@.len() - k,
    {
        let ghost before = out@;
        if k > 0 {
            out.append(",");
        }
        out.append(term_name(&args[k]));
        proof {
            reveal_strlit(",");
            let ts = views(args@).take(k + 1);
            assert(ts.drop_last() =~= views(args@).take(k as int));
            assert(ts.last() == args@[k as int]@);
            if k == 0 {
                assert(ts.len() == 1);
                assert(out@ =~= head + joined_terms(ts));
            } else {
                assert(joined_terms(ts) == joined_terms(ts.drop_last()) + seq![','] + term_text(
                    ts.last(),
                ));
                assert(out@ =~= head + joined_terms(ts));
            }
        }
        k = k + 1;
    }
    assert(views(args@).take(args@.len() as int) =~= views(args@));
    out.append(")");
    proof {
        reveal_strlit(")");
    }
    assert(out@ =~= name@ + seq!['('] + joined_terms(views(args@)) + seq![')']);
    out
}

/// The sort text of an atomic formula: `name`, or `name(arg,...)`.
pub fn format_atomic_formula(af: &AtomicFormula) -> (s: String)
    ensures
        s@ == call_text(af@.name, af@.args),
{
    call_key(&af.name, &af.args)
}

/// The sort text of a function term: `name`, or `name(arg,...)`.
pub fn format_function_term(ft: &FunctionTerm) -> (s: String)
    ensures
        s@ == call_text(ft@.name, ft@.args),
{
    call_key(&ft.name, &ft.args)
}

/// Adds one to a digit string in place.
fn increment_digits(d: &mut Vec<char>)
    ensures
        final(d)@ == increment(old(d)@),
{
    let ghost d0 = d@;
    let mut i = d.len();
    assert(d@.subrange(0, i as int) =~= d0);
    assert(d@.subrange(i as int, i as int) =~= Seq::<char>::empty());
    assert(increment(d0) + Seq::<char>::empty() =~= increment(d0));
    while i > 0 && d[i - 1] == '9'
        invariant
            i <= d@.len() == d0.len(),
            d@.subrange(0, i as int) == d0.subrange(0, i as int),
            increment(d0) == increment(d@.subrange(0, i as int)) + d@.subrange(
                i as int,
                d@.len() as int,
            ),
        decreases i,
    {
        let ghost pre = d@.subrange(0, i as int);
        d.set(i - 1, '0');
        proof {
            assert(pre.drop_last() =~= d@.subrange(0, i - 1));
            assert(d@.subrange(i - 1, d@.len() as int) =~= seq!['0'] + d@.subrange(
                i as int,
                d@.len() as int,
            ));
            assert(increment(pre) == increment(pre.drop_last()).push('0'));
            assert(increment(pre.drop_last()).push('0') + d@.subrange(i as int, d@.len() as int)
                =~= increment(pre.drop_last()) + d@.subrange(i - 1, d@.len() as int));
            assert(d@.subrange(0, i - 1) =~= d0.subrange(0, i - 1));
        }
        i = i - 1;
    }
    if i == 0 {
        let ghost rest = d@;
        d.insert(0, '1');
        assert(d@.subrange(0, 0) =~= Seq::<char>::empty());
        assert(d@ =~= seq!['1'] + rest);
        assert(rest.subrange(0, rest.len() as int) =~= rest);
    } else {
        let ghost pre = d@.subrange(0, i as int);
        let ghost rest = d@.subrange(i as int, d@.len() as int);
        let c = d[i - 1];
        let n = if c == '0' {
            '1'
        } else if c == '1' {
            '2'
        } else if c == '2' {
            '3'
        } else if c == '3' {
            '4'
        } else if c == '4' {
            '5'
        } else if c == '5' {
            '6'
        } else if c == '6' {
            '7'
        } else if c == '7' {
            '8'
        } else {
            '9'
        };
        d.set(i - 1, n);
        assert(d@ =~= pre.drop_last().push(next_digit(pre.last())) + rest);
    }
}

/// Renders a decimal literal as in [`fixed_six`].
pub fn fixed_six_text(t: &str) -> (s: String)
    ensures
        s@ == fixed_six(t@),
{
    let (ip, f) = decimal_parts(t);
    let mut d = ip;
    let ghost ipv = d@;
    let mut k: usize = 0;
    while k < 6
        invariant
            k <= 6,
            d@ == ipv + six_digits(f@).take(k as int),
        decreases 6 - k,
    {
        if k < f.len() {
            d.push(f[k]);
        } else {
            d.push('0');
        }
        assert(six_digits(f@).take(k + 1) =~= six_digits(f@).take(k as int).push(
            six_digits(f@)[k as int],
        ));
        k = k + 1;
    }
    assert(six_digits(f@).take(6) =~= six_digits(f@));
    if f.len() > 6 && f[6] >= '5' {
        increment_digits(&mut d);
    }
    let ghost r = d@;
    let len = d.len();
    proof {
        lemma_increment_len(ipv + six_digits(f@));
    }
    let mut out: Vec<char> = Vec::new();
    let mut i: usize = 0;
    while i < len
        invariant
            len == r.len() == d@.len(),
            r == d@,
            len >= 6,
            i <= len,
            i <= len - 6 ==> out@ == r.subrange(0, i as int),
            i > len - 6 ==> out@ == r.subrange(0, len - 6) + seq!['.'] + r.subrange(
                len - 6,
                i as int,
            ),
        decreases len - i,
    {
        if i == len - 6 {
            out.push('.');
        }
        out.push(d[i]);
        proof {
            if i < len - 6 {
                assert(r.subrange(0, i + 1) =~= r.subrange(0, i as int).push(r[i as int]));
            } else {
                assert(r.subrange(len - 6, i + 1) =~= r.subrange(len - 6, i as int).push(
                    r[i as int],
                ));
            }
        }
        i = i + 1;
    }
    string_from_chars(&out)
}

/// Adding one to a digit string never shortens it.
proof fn lemma_increment_len(d: Seq<char>)
    ensures
        increment(d).len() >= d.len(),
    decreases d.len(),
{
    if d.len() > 0 {
        lemma_increment_len(d.drop_last());
    }
}

/// The sort key of an init element, as in [`init_key`].
pub fn init_sort_key(e: &InitElement) -> (r: (u8, String))
    ensures
        r.0 == init_key(e@).0,
        r.1@ == init_key(e@).1,
    decreases e,
{
    match e {
        InitElement::Predicate(af) => (0, format_atomic_formula(af)),
        InitElement::NotPredicate(af) => (1, format_atomic_formula(af)),
        InitElement::NumericAssignment(ft, _) => (2, format_function_term(ft)),
        InitElement::At(t, inner) => {
            let (_, s) = init_sort_key(inner);
            let mut key = fixed_six_text(t.as_str());
            key.append(s.as_str());
            (3, key)
        },
    }
}

// ---------------------------------------------------------------------------
// Sorting declarations and init elements
// ---------------------------------------------------------------------------

/// A value that lists are sorted by: the text of its key.
pub trait SortKey: View + Sized {
    /// The key of a value, by its view.
    spec fn key_of(v: Self::V) -> Seq<char>;

    /// The key of this value.
    fn key_text(&self) -> (r: String)
        ensures
            r@ == Self::key_of(self@),
    ;
}

impl SortKey for String {
    open spec fn key_of(v: Seq<char>) -> Seq<char> {
        v
    }

    fn key_text(&self) -> (r: String) {
        self.clone()
    }
}

impl SortKey for PredicateDecl {
    open spec fn key_of(v: SpecPredicateDecl) -> Seq<char> {
        v.name
    }

    fn key_text(&self) -> (r: String) {
        self.name.clone()
    }
}

impl SortKey for FunctionDecl {
    open spec fn key_of(v: SpecFunctionDecl) -> Seq<char> {
        v.name
    }

    fn key_text(&self) -> (r: String) {
        self.name.clone()
    }
}

impl SortKey for BasicAction {
    open spec fn key_of(v: SpecBasicAction) -> Seq<char> {
        v.name
    }

    fn key_text(&self) -> (r: String) {
        self.name.clone()
    }
}

impl SortKey for DurativeAction {
    open spec fn key_of(v: SpecDurativeAction) -> Seq<char> {
        v.name
    }

    fn key_text(&self) -> (r: String) {
        self.name.clone()
    }
}

impl SortKey for DerivedPredicate {
    open spec fn key_of(v: SpecDerivedPredicate) -> Seq<char> {
        v.predicate.name
    }

    fn key_text(&self) -> (r: String) {
        self.predicate.name.clone()
    }
}

impl SortKey for InitElement {
    open spec fn key_of(v: SpecInitElement) -> Seq<char> {
        init_key_text(v)
    }

    fn key_text(&self) -> (r: String) {
        let (tag, s) = init_sort_key(self);
        let c = if tag == 0 {
            '0'
        } else if tag == 1 {
            '1'
        } else if tag == 2 {
            '2'
        } else {
            '3'
        };
        let cs: Vec<char> = vec![c];
        let mut out = string_from_chars(&cs);
        out.append(s.as_str());
        out
    }
}

/// A rearrangement that sorts values sorts their views the same way.
proof fn lemma_stable_views<T: View>(
    before: Seq<T>,
    new: Seq<T>,
    keys: Seq<Seq<char>>,
    perm: Seq<int>,
)
    requires
        stably_sorted(before, new, keys, perm),
    ensures
        stably_sorted(views(before), views(new), keys, perm),
{
    assert forall|t: int| 0 <= t < new.len() implies #[trigger] views(new)[t] == views(before)[perm[t]] by {
        assert(new[t] == before[perm[t]]);
    }
}

/// Sorts a list stably by the keys of its values.
pub fn sort_by_key<T: SortKey>(v: &mut Vec<T>)
    ensures
        is_stable_sort(
            views(old(v)@),
            views(final(v)@),
            views(old(v)@).map_values(|x: T::V| T::key_of(x)),
        ),
{
    let ghost wanted = views(v@).map_values(|x: T::V| T::key_of(x));
    let mut keys: Vec<String> = Vec::new();
    let mut k: usize = 0;
    while k < v.len()
        invariant
            k <= v@.len(),
            wanted == views(v@).map_values(|x: T::V| T::key_of(x)),
            wanted.len() == v@.len(),
            keys@.len() == k,
            key_texts(keys@) == wanted.take(k as int),
        decreases v@.len() - k,
    {
        let key = v[k].key_text();
        assert(wanted[k as int] == T::key_of(v@[k as int]@));
        assert(key@ == wanted[k as int]);
        let ghost keys_before = keys@;
        keys.push(key);
        assert(keys@ == keys_before.push(key));
        assert forall|i: int| 0 <= i < k + 1 implies #[trigger] key_texts(keys@)[i] == wanted.take(
            k + 1,
        )[i] by {
            if i < k {
                assert(keys@[i] == keys_before[i]);
                assert(key_texts(keys_before)[i] == wanted.take(k as int)[i]);
            }
        }
        assert(key_texts(keys@) =~= wanted.take(k + 1));
        k = k + 1;
    }
    assert(wanted.take(v@.len() as int) =~= wanted);
    let ghost old_v = v@;
    let perm = sort_by_text_keys(v, keys);
    proof {
        lemma_stable_views(old_v, v@, wanted, perm@);
    }
}

/// Each group keeps its type and has its items sorted.
pub open spec fn groups_sorted(before: Seq<SpecTypedGroup>, new: Seq<SpecTypedGroup>) -> bool {
    &&& new.len() == before.len()
    &&& forall|i: int|
        0 <= i < before.len() ==> #[trigger] new[i].group_type == before[i].group_type
            && is_stable_sort(before[i].items, new[i].items, before[i].items)
}

/// Sorts the items within each group.
fn sort_group_items(groups: &mut Vec<TypedGroup<String>>)
    ensures
        groups_sorted(views(old(groups)@), views(final(groups)@)),
{
    let ghost g0 = views(groups@);
    let mut k: usize = 0;
    while k < groups.len()
        invariant
            k <= groups@.len() == g0.len(),
            forall|i: int| k <= i < g0.len() ==> #[trigger] views(groups@)[i] == g0[i],
            forall|i: int|
                0 <= i < k ==> #[trigger] views(groups@)[i].group_type == g0[i].group_type
                    && is_stable_sort(g0[i].items, views(groups@)[i].items, g0[i].items),
        decreases g0.len() - k,
    {
        let ghost before = groups@;
        let mut g = groups.remove(k);
        let ghost items0 = views(g.items@);
        sort_by_key(&mut g.items);
        assert(items0.map_values(|x: Seq<char>| <String as SortKey>::key_of(x)) =~= items0);
        let ghost gv = g@;
        groups.insert(k, g);
        assert(groups@ =~= before.update(k as int, g));
        proof {
            assert forall|i: int| k + 1 <= i < g0.len() implies #[trigger] views(groups@)[i]
                == g0[i] by {
                assert(groups@[i] == before[i]);
                assert(views(before)[i] == g0[i]);
            }
            assert forall|i: int| 0 <= i < k + 1 implies #[trigger] views(groups@)[i].group_type
                == g0[i].group_type && is_stable_sort(
                g0[i].items,
                views(groups@)[i].items,
                g0[i].items,
            ) by {
                if i < k {
                    assert(groups@[i] == before[i]);
                    assert(views(before)[i].group_type == g0[i].group_type);
                } else {
                    assert(views(groups@)[i] == gv);
                    assert(views(before)[i] == g0[i]);
                }
            }
        }
        k = k + 1;
    }
}

/// `s` is `d` with its declarations sorted by name (stably) and the items
/// within each group of types and of constants sorted; nothing else changes.
pub open spec fn sorted_domain(d: SpecDomain, s: SpecDomain) -> bool {
    &&& s.name == d.name
    &&& s.requirements == d.requirements
    &&& groups_sorted(d.types, s.types)
    &&& groups_sorted(d.constants, s.constants)
    &&& is_stable_sort(d.predicates, s.predicates, d.predicates.map_values(|x: SpecPredicateDecl| x.name))
    &&& is_stable_sort(d.functions, s.functions, d.functions.map_values(|x: SpecFunctionDecl| x.name))
    &&& is_stable_sort(d.actions, s.actions, d.actions.map_values(|x: SpecBasicAction| x.name))
    &&& is_stable_sort(
        d.durative_actions,
        s.durative_actions,
        d.durative_actions.map_values(|x: SpecDurativeAction| x.name),
    )
    &&& is_stable_sort(
        d.derived_predicates,
        s.derived_predicates,
        d.derived_predicates.map_values(|x: SpecDerivedPredicate| x.predicate.name),
    )
}

/// `s` is `p` with the items within each group of objects sorted and the init
/// elements sorted (stably) by their keys; nothing else changes.
pub open spec fn sorted_problem(p: SpecProblem, s: SpecProblem) -> bool {
    &&& s.name == p.name
    &&& s.domain_name == p.domain_name
    &&& s.requirements == p.requirements
    &&& s.goal == p.goal
    &&& s.metric == p.metric
    &&& s.constraints == p.constraints
    &&& groups_sorted(p.objects, s.objects)
    &&& is_stable_sort(p.init, s.init, p.init.map_values(|e: SpecInitElement| init_key_text(e)))
}

impl Domain {
    /// Sorts the declarations by name, and the items within each group of types
    /// and of constants, so that equal domains come out in one order.
    pub fn sort_alphabetically(&mut self)
        ensures
            sorted_domain(old(self)@, final(self)@),
    {
        let ghost o = self@;
        sort_group_items(&mut self.types);
        sort_group_items(&mut self.constants);
        sort_by_key(&mut self.predicates);
        sort_by_key(&mut self.functions);
        sort_by_key(&mut self.actions);
        sort_by_key(&mut self.durative_actions);
        sort_by_key(&mut self.derived_predicates);
        assert(o.predicates.map_values(|x: SpecPredicateDecl| PredicateDecl::key_of(x))
            =~= o.predicates.map_values(|d: SpecPredicateDecl| d.name));
        assert(o.functions.map_values(|x: SpecFunctionDecl| FunctionDecl::key_of(x))
            =~= o.functions.map_values(|d: SpecFunctionDecl| d.name));
        assert(o.actions.map_values(|x: SpecBasicAction| BasicAction::key_of(x))
            =~= o.actions.map_values(|a: SpecBasicAction| a.name));
        assert(o.durative_actions.map_values(|x: SpecDurativeAction| DurativeAction::key_of(x))
            =~= o.durative_actions.map_values(|a: SpecDurativeAction| a.name));
        assert(o.derived_predicates.map_values(
            |x: SpecDerivedPredicate| DerivedPredicate::key_of(x),
        ) =~= o.derived_predicates.map_values(|d: SpecDerivedPredicate| d.predicate.name));
    }
}

impl Problem {
    /// Sorts the items within each group of objects, and the init elements by
    /// their sort keys, so that equal problems come out in one order.
    pub fn sort_alphabetically(&mut self)
        ensures
            sorted_problem(old(self)@, final(self)@),
    {
        let ghost o = self@;
        sort_group_items(&mut self.objects);
        sort_by_key(&mut self.init);
        assert(o.init.map_values(|x: SpecInitElement| InitElement::key_of(x)) =~= o.init.map_values(
            |e: SpecInitElement| init_key_text(e),
        ));
    }
}

// ---------------------------------------------------------------------------
// Laws
// ---------------------------------------------------------------------------

/// The items of each group are in text order.
pub open spec fn groups_in_order(gs: Seq<SpecTypedGroup>) -> bool {
    forall|g: int, i: int, j: int|
        0 <= g < gs.len() && 0 <= i < j < gs[g].items.len() ==> text_le(
            #[trigger] gs[g].items[i],
            #[trigger] gs[g].items[j],
        )
}

/// Names in text order.
pub open spec fn names_in_order(ns: Seq<Seq<char>>) -> bool {
    forall|i: int, j: int| 0 <= i < j < ns.len() ==> text_le(#[trigger] ns[i], #[trigger] ns[j])
}

/// A stable sort by names leaves the names in order.
proof fn lemma_sorted_names<T>(before: Seq<T>, new: Seq<T>, name: spec_fn(T) -> Seq<char>)
    requires
        is_stable_sort(before, new, before.map_values(name)),
    ensures
        names_in_order(new.map_values(name)),
        is_stable_sort(new, new, new.map_values(name)),
{
    law_stable_sort_ordered(before, new, before.map_values(name), new.map_values(name));
    law_sorted_is_own_sort(new, new.map_values(name));
}

/// Sorted groups have their items in order, and are their own sort.
proof fn lemma_sorted_groups(before: Seq<SpecTypedGroup>, new: Seq<SpecTypedGroup>)
    requires
        groups_sorted(before, new),
    ensures
        groups_in_order(new),
        groups_sorted(new, new),
{
    assert forall|g: int, i: int, j: int|
        0 <= g < new.len() && 0 <= i < j < new[g].items.len() implies text_le(
        #[trigger] new[g].items[i],
        #[trigger] new[g].items[j],
    ) by {
        assert(new[g].group_type == before[g].group_type);
        assert(is_stable_sort(before[g].items, new[g].items, before[g].items));
        law_stable_sort_ordered(before[g].items, new[g].items, before[g].items, new[g].items);
    }
    assert forall|g: int| 0 <= g < new.len() implies #[trigger] is_stable_sort(
        new[g].items,
        new[g].items,
        new[g].items,
    ) by {
        assert(new[g].group_type == before[g].group_type);
        assert(is_stable_sort(before[g].items, new[g].items, before[g].items));
        law_stable_sort_ordered(before[g].items, new[g].items, before[g].items, new[g].items);
        law_sorted_is_own_sort(new[g].items, new[g].items);
    }
    assert(groups_sorted(new, new));
}

/// Sorting a group list that is already sorted changes nothing.
proof fn lemma_groups_settled(s: Seq<SpecTypedGroup>, t: Seq<SpecTypedGroup>)
    requires
        groups_sorted(s, s),
        groups_sorted(s, t),
    ensures
        t == s,
{
    assert forall|g: int| 0 <= g < s.len() implies #[trigger] t[g] == s[g] by {
        assert(t[g].group_type == s[g].group_type);
        assert(s[g].group_type == s[g].group_type);
        law_stable_sort_unique(s[g].items, t[g].items, s[g].items, s[g].items);
    }
    assert(t =~= s);
}

/// A sorted domain lists its declarations in name order, and the items of its
/// groups of types and of constants in text order.
pub proof fn law_sorted_domain_in_order(d: SpecDomain, s: SpecDomain)
    requires
        sorted_domain(d, s),
    ensures
        groups_in_order(s.types),
        groups_in_order(s.constants),
        names_in_order(s.predicates.map_values(|x: SpecPredicateDecl| x.name)),
        names_in_order(s.functions.map_values(|x: SpecFunctionDecl| x.name)),
        names_in_order(s.actions.map_values(|x: SpecBasicAction| x.name)),
        names_in_order(s.durative_actions.map_values(|x: SpecDurativeAction| x.name)),
        names_in_order(s.derived_predicates.map_values(|x: SpecDerivedPredicate| x.predicate.name)),
{
    lemma_sorted_groups(d.types, s.types);
    lemma_sorted_groups(d.constants, s.constants);
    lemma_sorted_names(d.predicates, s.predicates, |x: SpecPredicateDecl| x.name);
    lemma_sorted_names(d.functions, s.functions, |x: SpecFunctionDecl| x.name);
    lemma_sorted_names(d.actions, s.actions, |x: SpecBasicAction| x.name);
    lemma_sorted_names(d.durative_actions, s.durative_actions, |x: SpecDurativeAction| x.name);
    lemma_sorted_names(
        d.derived_predicates,
        s.derived_predicates,
        |x: SpecDerivedPredicate| x.predicate.name,
    );
}

/// Sorting a sorted domain again changes nothing: the order is settled by one
/// sort.
pub proof fn law_sorted_domain_settled(d: SpecDomain, s: SpecDomain, t: SpecDomain)
    requires
        sorted_domain(d, s),
        sorted_domain(s, t),
    ensures
        t == s,
{
    lemma_sorted_groups(d.types, s.types);
    lemma_sorted_groups(d.constants, s.constants);
    lemma_groups_settled(s.types, t.types);
    lemma_groups_settled(s.constants, t.constants);
    lemma_sorted_names(d.predicates, s.predicates, |x: SpecPredicateDecl| x.name);
    lemma_sorted_names(d.functions, s.functions, |x: SpecFunctionDecl| x.name);
    lemma_sorted_names(d.actions, s.actions, |x: SpecBasicAction| x.name);
    lemma_sorted_names(d.durative_actions, s.durative_actions, |x: SpecDurativeAction| x.name);
    lemma_sorted_names(
        d.derived_predicates,
        s.derived_predicates,
        |x: SpecDerivedPredicate| x.predicate.name,
    );
    law_stable_sort_unique(
        s.predicates,
        s.predicates,
        t.predicates,
        s.predicates.map_values(|x: SpecPredicateDecl| x.name),
    );
    law_stable_sort_unique(
        s.functions,
        s.functions,
        t.functions,
        s.functions.map_values(|x: SpecFunctionDecl| x.name),
    );
    law_stable_sort_unique(
        s.actions,
        s.actions,
        t.actions,
        s.actions.map_values(|x: SpecBasicAction| x.name),
    );
    law_stable_sort_unique(
        s.durative_actions,
        s.durative_actions,
        t.durative_actions,
        s.durative_actions.map_values(|x: SpecDurativeAction| x.name),
    );
    law_stable_sort_unique(
        s.derived_predicates,
        s.derived_predicates,
        t.derived_predicates,
        s.derived_predicates.map_values(|x: SpecDerivedPredicate| x.predicate.name),
    );
}

/// A sorted problem has the items of its object groups in text order and its
/// init elements in key order.
pub proof fn law_sorted_problem_in_order(p: SpecProblem, s: SpecProblem)
    requires
        sorted_problem(p, s),
    ensures
        groups_in_order(s.objects),
        names_in_order(s.init.map_values(|e: SpecInitElement| init_key_text(e))),
{
    lemma_sorted_groups(p.objects, s.objects);
    lemma_sorted_names(p.init, s.init, |e: SpecInitElement| init_key_text(e));
}

/// Sorting a sorted problem again changes nothing.
pub proof fn law_sorted_problem_settled(p: SpecProblem, s: SpecProblem, t: SpecProblem)
    requires
        sorted_problem(p, s),
        sorted_problem(s, t),
    ensures
        t == s,
{
    lemma_sorted_groups(p.objects, s.objects);
    lemma_groups_settled(s.objects, t.objects);
    lemma_sorted_names(p.init, s.init, |e: SpecInitElement| init_key_text(e));
    law_stable_sort_unique(
        s.init,
        s.init,
        t.init,
        s.init.map_values(|e: SpecInitElement| init_key_text(e)),
    );
}

/// Init elements are ordered by their tag first (predicates, negated
/// predicates, numeric assignments, timed literals), then by their text.
pub proof fn law_init_key_order(a: SpecInitElement, b: SpecInitElement)
    ensures
        text_lt(init_key_text(a), init_key_text(b)) == (init_key(a).0 < init_key(b).0 || (
        init_key(a).0 == init_key(b).0 && text_lt(init_key(a).1, init_key(b).1))),
{
    lemma_tagged_text_order(
        tag_char(init_key(a).0),
        init_key(a).1,
        tag_char(init_key(b).0),
        init_key(b).1,
    );
}

} // verus!
