//! Abstract syntax tree for PDDL domain and problem files.
//!
//! The AST is a direct structural representation of the PDDL syntax: no semantic
//! analysis or type checking happens here. Numeric literals are kept as the
//! shortest decimal text of their value (digits with at most one `.`, no
//! leading zeros before the integral digits, no trailing zeros after the
//! fractional ones), so that equal values are equal texts.
//!
//! Every type has a mathematical counterpart (prefixed `Spec`) that holds
//! sequences in place of vectors and character sequences in place of strings;
//! the parser's contracts are stated over those.

use vstd::prelude::*;

verus! {

/// A symbol name: predicate, action, object or type names.
pub type Name = String;

/// A variable reference, including the leading `?`.
pub type Variable = String;

/// PDDL requirement flags declared in a `:requirements` section.
#[derive(Debug, Clone, Copy, PartialEq, Eq, Hash, Structural)]
pub enum Requirement {
    Strips,
    Typing,
    NegativePreconditions,
    DisjunctivePreconditions,
    Equality,
    ExistentialPreconditions,
    UniversalPreconditions,
    QuantifiedPreconditions,
    ConditionalEffects,
    Fluents,
    NumericFluents,
    Adl,
    DurativeActions,
    DurationInequalities,
    TimedInitialLiterals,
    Preferences,
    Constraints,
    ActionCosts,
    GoalUtilities,
    DerivedPredicates,
    DomainAxioms,
}

/// A group of items sharing one PDDL type, e.g. `?x ?y - location`.
/// Untyped items have no type name.
#[derive(Debug, Clone, PartialEq)]
pub struct TypedGroup<T> {
    /// The items sharing this type.
    pub items: Vec<T>,
    /// The type name, or `None` for untyped items.
    pub group_type: Option<Name>,
}

/// A sequence of typed groups, e.g. `?x ?y - type1 ?z - type2`.
pub type TypedList<T> = Vec<TypedGroup<T>>;

/// Type declarations such as `driver truck - locatable`.
pub type TypeDeclarations = TypedList<Name>;

/// A predicate declaration from `:predicates`.
#[derive(Debug, Clone, PartialEq)]
pub struct PredicateDecl {
    pub name: Name,
    pub parameters: TypedList<Variable>,
}

/// A numeric function declaration from `:functions`, with an optional return type.
#[derive(Debug, Clone, PartialEq)]
pub struct FunctionDecl {
    pub name: Name,
    pub parameters: TypedList<Variable>,
    pub return_type: Option<Name>,
}

/// A numeric expression. N-ary operators such as `(+ a b c)` become nested binary
/// operations folded to the left: `(+ (+ a b) c)`.
#[derive(Debug, PartialEq)]
pub enum NumericExpr {
    /// A numeric literal, by the shortest text of its value.
    Number(String),
    /// A reference to a numeric fluent, e.g. `(distance ?x ?y)`.
    FunctionCall(FunctionTerm),
    /// A binary arithmetic operation.
    BinaryOp { op: BinaryOp, left: Box<NumericExpr>, right: Box<NumericExpr> },
    /// Unary negation `(- e)`.
    Negate(Box<NumericExpr>),
    /// The built-in `total-time`.
    TotalTime,
    /// The `?duration` variable.
    Duration,
}

/// Arithmetic operators.
#[derive(Debug, Clone, Copy, PartialEq, Eq, Structural)]
pub enum BinaryOp {
    Add,
    Sub,
    Mul,
    Div,
}

/// A numeric function applied to arguments, e.g. `(distance ?from ?to)`.
#[derive(Debug, Clone, PartialEq)]
pub struct FunctionTerm {
    pub name: Name,
    pub args: Vec<Term>,
}

/// An argument of a predicate or function.
#[derive(Debug, Clone, PartialEq)]
pub enum Term {
    /// A constant (object) name.
    Name(Name),
    /// A variable, including the leading `?`.
    Variable(Variable),
}

/// Numeric comparison operators.
#[derive(Debug, Clone, Copy, PartialEq, Eq, Structural)]
pub enum CompareOp {
    Lt,
    Lte,
    Gt,
    Gte,
    Eq,
}

/// A condition (goal description).
#[derive(Debug, PartialEq)]
pub enum Condition {
    And(Vec<Condition>),
    Or(Vec<Condition>),
    Not(Box<Condition>),
    Imply(Box<Condition>, Box<Condition>),
    Forall { variables: TypedList<Variable>, condition: Box<Condition> },
    Exists { variables: TypedList<Variable>, condition: Box<Condition> },
    Predicate(AtomicFormula),
    Equals(Term, Term),
    NumericComparison { op: CompareOp, left: NumericExpr, right: NumericExpr },
    Preference { name: Option<Name>, condition: Box<Condition> },
    AtStart(Box<Condition>),
    AtEnd(Box<Condition>),
    OverAll(Box<Condition>),
    Always(Box<Condition>),
    Sometime(Box<Condition>),
    AtMostOnce(Box<Condition>),
    /// `(within <deadline> <cond>)`; the deadline's text.
    Within(String, Box<Condition>),
    SometimeBefore(Box<Condition>, Box<Condition>),
    SometimeAfter(Box<Condition>, Box<Condition>),
    /// `(always-within <window> <cond1> <cond2>)`; the window's text.
    AlwaysWithin(String, Box<Condition>, Box<Condition>),
    /// `(hold-during <t1> <t2> <cond>)`; the times' texts.
    HoldDuring(String, String, Box<Condition>),
    /// `(hold-after <t> <cond>)`; the time's text.
    HoldAfter(String, Box<Condition>),
}

/// A predicate applied to arguments, e.g. `(at truck1 city-a)`.
#[derive(Debug, Clone, PartialEq)]
pub struct AtomicFormula {
    pub name: Name,
    pub args: Vec<Term>,
}

/// An action effect.
#[derive(Debug, PartialEq)]
pub enum Effect {
    And(Vec<Effect>),
    Predicate(AtomicFormula),
    NotPredicate(AtomicFormula),
    Forall { variables: TypedList<Variable>, effect: Box<Effect> },
    When { condition: Condition, effect: Box<Effect> },
    NumericAssign { op: AssignOp, function: FunctionTerm, expr: NumericExpr },
    AtStart(Box<Effect>),
    AtEnd(Box<Effect>),
}

/// Numeric assignment operators.
#[derive(Debug, Clone, Copy, PartialEq, Eq, Structural)]
pub enum AssignOp {
    Assign,
    ScaleUp,
    ScaleDown,
    Increase,
    Decrease,
}

/// A duration constraint on a durative action.
#[derive(Debug, PartialEq)]
pub enum DurationConstraint {
    And(Vec<DurationConstraint>),
    /// A comparison of `?duration` with an expression.
    Cmp { op: CompareOp, expr: NumericExpr },
}

/// An instantaneous action (`:action`).
#[derive(Debug, PartialEq)]
pub struct BasicAction {
    pub name: Name,
    pub parameters: TypedList<Variable>,
    pub precondition: Option<Condition>,
    pub effect: Option<Effect>,
}

/// A durative action (`:durative-action`).
#[derive(Debug, PartialEq)]
pub struct DurativeAction {
    pub name: Name,
    pub parameters: TypedList<Variable>,
    pub duration: DurationConstraint,
    pub condition: Option<Condition>,
    pub effect: Option<Effect>,
}

/// A derived predicate (`:derived`) with its axiom body.
#[derive(Debug, PartialEq)]
pub struct DerivedPredicate {
    pub predicate: AtomicFormula,
    pub condition: Condition,
}

/// An element of a problem's `:init` section.
#[derive(Debug, PartialEq)]
pub enum InitElement {
    Predicate(AtomicFormula),
    NotPredicate(AtomicFormula),
    /// `(= <function> <value>)`; the value's text.
    NumericAssignment(FunctionTerm, String),
    /// A timed initial literal `(at <time> <literal>)`; the time's text.
    At(String, Box<InitElement>),
}

/// Optimization direction of a metric.
#[derive(Debug, Clone, Copy, PartialEq, Eq, Structural)]
pub enum Optimization {
    Minimize,
    Maximize,
}

/// The `:metric` specification.
#[derive(Debug, PartialEq)]
pub struct MetricSpec {
    pub optimization: Optimization,
    pub expr: NumericExpr,
}

/// A parsed PDDL domain.
#[derive(Debug, PartialEq)]
pub struct Domain {
    pub name: Name,
    pub requirements: Vec<Requirement>,
    pub types: TypeDeclarations,
    pub constants: TypedList<Name>,
    pub predicates: Vec<PredicateDecl>,
    pub functions: Vec<FunctionDecl>,
    pub actions: Vec<BasicAction>,
    pub durative_actions: Vec<DurativeAction>,
    pub derived_predicates: Vec<DerivedPredicate>,
}

/// A parsed PDDL problem.
#[derive(Debug, PartialEq)]
pub struct Problem {
    pub name: Name,
    pub domain_name: Name,
    pub requirements: Vec<Requirement>,
    pub objects: TypedList<Name>,
    pub init: Vec<InitElement>,
    pub goal: Condition,
    pub metric: Option<MetricSpec>,
    pub constraints: Option<Condition>,
}

// ---------------------------------------------------------------------------
// Mathematical counterparts
// ---------------------------------------------------------------------------

pub struct SpecTypedGroup {
    pub items: Seq<Seq<char>>,
    pub group_type: Option<Seq<char>>,
}

pub struct SpecPredicateDecl {
    pub name: Seq<char>,
    pub parameters: Seq<SpecTypedGroup>,
}

pub struct SpecFunctionDecl {
    pub name: Seq<char>,
    pub parameters: Seq<SpecTypedGroup>,
    pub return_type: Option<Seq<char>>,
}

pub enum SpecTerm {
    Name(Seq<char>),
    Variable(Seq<char>),
}

pub struct SpecFunctionTerm {
    pub name: Seq<char>,
    pub args: Seq<SpecTerm>,
}

pub struct SpecAtomicFormula {
    pub name: Seq<char>,
    pub args: Seq<SpecTerm>,
}

pub enum SpecNumericExpr {
    Number(Seq<char>),
    FunctionCall(SpecFunctionTerm),
    BinaryOp { op: BinaryOp, left: Box<SpecNumericExpr>, right: Box<SpecNumericExpr> },
    Negate(Box<SpecNumericExpr>),
    TotalTime,
    Duration,
}

pub enum SpecCondition {
    And(Seq<SpecCondition>),
    Or(Seq<SpecCondition>),
    Not(Box<SpecCondition>),
    Imply(Box<SpecCondition>, Box<SpecCondition>),
    Forall { variables: Seq<SpecTypedGroup>, condition: Box<SpecCondition> },
    Exists { variables: Seq<SpecTypedGroup>, condition: Box<SpecCondition> },
    Predicate(SpecAtomicFormula),
    Equals(SpecTerm, SpecTerm),
    NumericComparison { op: CompareOp, left: SpecNumericExpr, right: SpecNumericExpr },
    Preference { name: Option<Seq<char>>, condition: Box<SpecCondition> },
    AtStart(Box<SpecCondition>),
    AtEnd(Box<SpecCondition>),
    OverAll(Box<SpecCondition>),
    Always(Box<SpecCondition>),
    Sometime(Box<SpecCondition>),
    AtMostOnce(Box<SpecCondition>),
    Within(Seq<char>, Box<SpecCondition>),
    SometimeBefore(Box<SpecCondition>, Box<SpecCondition>),
    SometimeAfter(Box<SpecCondition>, Box<SpecCondition>),
    AlwaysWithin(Seq<char>, Box<SpecCondition>, Box<SpecCondition>),
    HoldDuring(Seq<char>, Seq<char>, Box<SpecCondition>),
    HoldAfter(Seq<char>, Box<SpecCondition>),
}

pub enum SpecEffect {
    And(Seq<SpecEffect>),
    Predicate(SpecAtomicFormula),
    NotPredicate(SpecAtomicFormula),
    Forall { variables: Seq<SpecTypedGroup>, effect: Box<SpecEffect> },
    When { condition: SpecCondition, effect: Box<SpecEffect> },
    NumericAssign { op: AssignOp, function: SpecFunctionTerm, expr: SpecNumericExpr },
    AtStart(Box<SpecEffect>),
    AtEnd(Box<SpecEffect>),
}

pub enum SpecDurationConstraint {
    And(Seq<SpecDurationConstraint>),
    Cmp { op: CompareOp, expr: SpecNumericExpr },
}

pub struct SpecBasicAction {
    pub name: Seq<char>,
    pub parameters: Seq<SpecTypedGroup>,
    pub precondition: Option<SpecCondition>,
    pub effect: Option<SpecEffect>,
}

pub struct SpecDurativeAction {
    pub name: Seq<char>,
    pub parameters: Seq<SpecTypedGroup>,
    pub duration: SpecDurationConstraint,
    pub condition: Option<SpecCondition>,
    pub effect: Option<SpecEffect>,
}

pub struct SpecDerivedPredicate {
    pub predicate: SpecAtomicFormula,
    pub condition: SpecCondition,
}

pub enum SpecInitElement {
    Predicate(SpecAtomicFormula),
    NotPredicate(SpecAtomicFormula),
    NumericAssignment(SpecFunctionTerm, Seq<char>),
    At(Seq<char>, Box<SpecInitElement>),
}

pub struct SpecMetricSpec {
    pub optimization: Optimization,
    pub expr: SpecNumericExpr,
}

pub struct SpecDomain {
    pub name: Seq<char>,
    pub requirements: Seq<Requirement>,
    pub types: Seq<SpecTypedGroup>,
    pub constants: Seq<SpecTypedGroup>,
    pub predicates: Seq<SpecPredicateDecl>,
    pub functions: Seq<SpecFunctionDecl>,
    pub actions: Seq<SpecBasicAction>,
    pub durative_actions: Seq<SpecDurativeAction>,
    pub derived_predicates: Seq<SpecDerivedPredicate>,
}

pub struct SpecProblem {
    pub name: Seq<char>,
    pub domain_name: Seq<char>,
    pub requirements: Seq<Requirement>,
    pub objects: Seq<SpecTypedGroup>,
    pub init: Seq<SpecInitElement>,
    pub goal: SpecCondition,
    pub metric: Option<SpecMetricSpec>,
    pub constraints: Option<SpecCondition>,
}

// ---------------------------------------------------------------------------
// Views
// ---------------------------------------------------------------------------

/// The views of a sequence of values.
pub open spec fn views<T: View>(s: Seq<T>) -> Seq<T::V> {
    s.map_values(|x: T| x@)
}

/// The view of an optional value.
pub open spec fn opt_view<T: View>(o: Option<T>) -> Option<T::V> {
    match o {
        Some(x) => Some(x@),
        None => None,
    }
}

impl View for Requirement {
    type V = Requirement;

    open spec fn view(&self) -> Requirement {
        *self
    }
}

impl View for BinaryOp {
    type V = BinaryOp;

    open spec fn view(&self) -> BinaryOp {
        *self
    }
}

impl View for CompareOp {
    type V = CompareOp;

    open spec fn view(&self) -> CompareOp {
        *self
    }
}

impl View for AssignOp {
    type V = AssignOp;

    open spec fn view(&self) -> AssignOp {
        *self
    }
}

impl View for Optimization {
    type V = Optimization;

    open spec fn view(&self) -> Optimization {
        *self
    }
}

impl View for TypedGroup<String> {
    type V = SpecTypedGroup;

    open spec fn view(&self) -> SpecTypedGroup {
        SpecTypedGroup { items: views(self.items@), group_type: opt_view(self.group_type) }
    }
}

impl View for PredicateDecl {
    type V = SpecPredicateDecl;

    open spec fn view(&self) -> SpecPredicateDecl {
        SpecPredicateDecl { name: self.name@, parameters: views(self.parameters@) }
    }
}

impl View for FunctionDecl {
    type V = SpecFunctionDecl;

    open spec fn view(&self) -> SpecFunctionDecl {
        SpecFunctionDecl {
            name: self.name@,
            parameters: views(self.parameters@),
            return_type: opt_view(self.return_type),
        }
    }
}

impl View for Term {
    type V = SpecTerm;

    open spec fn view(&self) -> SpecTerm {
        match self {
            Term::Name(n) => SpecTerm::Name(n@),
            Term::Variable(v) => SpecTerm::Variable(v@),
        }
    }
}

impl View for FunctionTerm {
    type V = SpecFunctionTerm;

    open spec fn view(&self) -> SpecFunctionTerm {
        SpecFunctionTerm { name: self.name@, args: views(self.args@) }
    }
}

impl View for AtomicFormula {
    type V = SpecAtomicFormula;

    open spec fn view(&self) -> SpecAtomicFormula {
        SpecAtomicFormula { name: self.name@, args: views(self.args@) }
    }
}

pub open spec fn numeric_view(e: NumericExpr) -> SpecNumericExpr
    decreases e,
{
    match e {
        NumericExpr::Number(n) => SpecNumericExpr::Number(n@),
        NumericExpr::FunctionCall(f) => SpecNumericExpr::FunctionCall(f@),
        NumericExpr::BinaryOp { op, left, right } => SpecNumericExpr::BinaryOp {
            op,
            left: Box::new(numeric_view(*left)),
            right: Box::new(numeric_view(*right)),
        },
        NumericExpr::Negate(inner) => SpecNumericExpr::Negate(Box::new(numeric_view(*inner))),
        NumericExpr::TotalTime => SpecNumericExpr::TotalTime,
        NumericExpr::Duration => SpecNumericExpr::Duration,
    }
}

impl View for NumericExpr {
    type V = SpecNumericExpr;

    open spec fn view(&self) -> SpecNumericExpr {
        numeric_view(*self)
    }
}

pub open spec fn condition_view(c: Condition) -> SpecCondition
    decreases c,
{
    match c {
        Condition::And(v) => SpecCondition::And(conditions_view(v@)),
        Condition::Or(v) => SpecCondition::Or(conditions_view(v@)),
        Condition::Not(b) => SpecCondition::Not(Box::new(condition_view(*b))),
        Condition::Imply(a, b) => SpecCondition::Imply(
            Box::new(condition_view(*a)),
            Box::new(condition_view(*b)),
        ),
        Condition::Forall { variables, condition } => SpecCondition::Forall {
            variables: views(variables@),
            condition: Box::new(condition_view(*condition)),
        },
        Condition::Exists { variables, condition } => SpecCondition::Exists {
            variables: views(variables@),
            condition: Box::new(condition_view(*condition)),
        },
        Condition::Predicate(af) => SpecCondition::Predicate(af@),
        Condition::Equals(a, b) => SpecCondition::Equals(a@, b@),
        Condition::NumericComparison { op, left, right } => SpecCondition::NumericComparison {
            op,
            left: left@,
            right: right@,
        },
        Condition::Preference { name, condition } => SpecCondition::Preference {
            name: opt_view(name),
            condition: Box::new(condition_view(*condition)),
        },
        Condition::AtStart(b) => SpecCondition::AtStart(Box::new(condition_view(*b))),
        Condition::AtEnd(b) => SpecCondition::AtEnd(Box::new(condition_view(*b))),
        Condition::OverAll(b) => SpecCondition::OverAll(Box::new(condition_view(*b))),
        Condition::Always(b) => SpecCondition::Always(Box::new(condition_view(*b))),
        Condition::Sometime(b) => SpecCondition::Sometime(Box::new(condition_view(*b))),
        Condition::AtMostOnce(b) => SpecCondition::AtMostOnce(Box::new(condition_view(*b))),
        Condition::Within(t, b) => SpecCondition::Within(t@, Box::new(condition_view(*b))),
        Condition::SometimeBefore(a, b) => SpecCondition::SometimeBefore(
            Box::new(condition_view(*a)),
            Box::new(condition_view(*b)),
        ),
        Condition::SometimeAfter(a, b) => SpecCondition::SometimeAfter(
            Box::new(condition_view(*a)),
            Box::new(condition_view(*b)),
        ),
        Condition::AlwaysWithin(t, a, b) => SpecCondition::AlwaysWithin(
            t@,
            Box::new(condition_view(*a)),
            Box::new(condition_view(*b)),
        ),
        Condition::HoldDuring(t1, t2, b) => SpecCondition::HoldDuring(
            t1@,
            t2@,
            Box::new(condition_view(*b)),
        ),
        Condition::HoldAfter(t, b) => SpecCondition::HoldAfter(t@, Box::new(condition_view(*b))),
    }
}

pub open spec fn conditions_view(s: Seq<Condition>) -> Seq<SpecCondition>
    decreases s,
{
    Seq::new(
        s.len(),
        |i: int|
            if 0 <= i < s.len() {
                condition_view(s[i])
            } else {
                SpecCondition::And(seq![])
            },
    )
}

impl View for Condition {
    type V = SpecCondition;

    open spec fn view(&self) -> SpecCondition {
        condition_view(*self)
    }
}

pub open spec fn effect_view(e: Effect) -> SpecEffect
    decreases e,
{
    match e {
        Effect::And(v) => SpecEffect::And(effects_view(v@)),
        Effect::Predicate(af) => SpecEffect::Predicate(af@),
        Effect::NotPredicate(af) => SpecEffect::NotPredicate(af@),
        Effect::Forall { variables, effect } => SpecEffect::Forall {
            variables: views(variables@),
            effect: Box::new(effect_view(*effect)),
        },
        Effect::When { condition, effect } => SpecEffect::When {
            condition: condition@,
            effect: Box::new(effect_view(*effect)),
        },
        Effect::NumericAssign { op, function, expr } => SpecEffect::NumericAssign {
            op,
            function: function@,
            expr: expr@,
        },
        Effect::AtStart(b) => SpecEffect::AtStart(Box::new(effect_view(*b))),
        Effect::AtEnd(b) => SpecEffect::AtEnd(Box::new(effect_view(*b))),
    }
}

pub open spec fn effects_view(s: Seq<Effect>) -> Seq<SpecEffect>
    decreases s,
{
    Seq::new(
        s.len(),
        |i: int|
            if 0 <= i < s.len() {
                effect_view(s[i])
            } else {
                SpecEffect::And(seq![])
            },
    )
}

impl View for Effect {
    type V = SpecEffect;

    open spec fn view(&self) -> SpecEffect {
        effect_view(*self)
    }
}

pub open spec fn duration_view(d: DurationConstraint) -> SpecDurationConstraint
    decreases d,
{
    match d {
        DurationConstraint::And(v) => SpecDurationConstraint::And(durations_view(v@)),
        DurationConstraint::Cmp { op, expr } => SpecDurationConstraint::Cmp { op, expr: expr@ },
    }
}

pub open spec fn durations_view(s: Seq<DurationConstraint>) -> Seq<SpecDurationConstraint>
    decreases s,
{
    Seq::new(
        s.len(),
        |i: int|
            if 0 <= i < s.len() {
                duration_view(s[i])
            } else {
                SpecDurationConstraint::And(seq![])
            },
    )
}

impl View for DurationConstraint {
    type V = SpecDurationConstraint;

    open spec fn view(&self) -> SpecDurationConstraint {
        duration_view(*self)
    }
}

impl View for BasicAction {
    type V = SpecBasicAction;

    open spec fn view(&self) -> SpecBasicAction {
        SpecBasicAction {
            name: self.name@,
            parameters: views(self.parameters@),
            precondition: opt_view(self.precondition),
            effect: opt_view(self.effect),
        }
    }
}

impl View for DurativeAction {
    type V = SpecDurativeAction;

    open spec fn view(&self) -> SpecDurativeAction {
        SpecDurativeAction {
            name: self.name@,
            parameters: views(self.parameters@),
            duration: self.duration@,
            condition: opt_view(self.condition),
            effect: opt_view(self.effect),
        }
    }
}

impl View for DerivedPredicate {
    type V = SpecDerivedPredicate;

    open spec fn view(&self) -> SpecDerivedPredicate {
        SpecDerivedPredicate { predicate: self.predicate@, condition: self.condition@ }
    }
}

pub open spec fn init_view(e: InitElement) -> SpecInitElement
    decreases e,
{
    match e {
        InitElement::Predicate(af) => SpecInitElement::Predicate(af@),
        InitElement::NotPredicate(af) => SpecInitElement::NotPredicate(af@),
        InitElement::NumericAssignment(f, v) => SpecInitElement::NumericAssignment(f@, v@),
        InitElement::At(t, inner) => SpecInitElement::At(t@, Box::new(init_view(*inner))),
    }
}

impl View for InitElement {
    type V = SpecInitElement;

    open spec fn view(&self) -> SpecInitElement {
        init_view(*self)
    }
}

impl View for MetricSpec {
    type V = SpecMetricSpec;

    open spec fn view(&self) -> SpecMetricSpec {
        SpecMetricSpec { optimization: self.optimization, expr: self.expr@ }
    }
}

impl View for Domain {
    type V = SpecDomain;

    open spec fn view(&self) -> SpecDomain {
        SpecDomain {
            name: self.name@,
            requirements: self.requirements@,
            types: views(self.types@),
            constants: views(self.constants@),
            predicates: views(self.predicates@),
            functions: views(self.functions@),
            actions: views(self.actions@),
            durative_actions: views(self.durative_actions@),
            derived_predicates: views(self.derived_predicates@),
        }
    }
}

impl View for Problem {
    type V = SpecProblem;

    open spec fn view(&self) -> SpecProblem {
        SpecProblem {
            name: self.name@,
            domain_name: self.domain_name@,
            requirements: self.requirements@,
            objects: views(self.objects@),
            init: views(self.init@),
            goal: self.goal@,
            metric: opt_view(self.metric),
            constraints: opt_view(self.constraints),
        }
    }
}

} // verus!
