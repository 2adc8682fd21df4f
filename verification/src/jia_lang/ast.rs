//! Abstract syntax tree of the Jia modelling language.
//!
//! A model follows an **X, D, C** pattern:
//! - **Variables (X)**: names and types (Interval, Integer, Real, Set\[Interval\],
//!   Set\[Integer\])
//! - **Domains (D)**: bounds on variable attributes and set membership
//! - **Constraints (C)**: relationships between variables
//! - **Objective** (optional): an expression to minimize or maximize
//!
//! Real-valued literals are kept as the text they were written with (digits, a
//! `.`, digits); their value is that decimal.

use vstd::prelude::*;

use crate::ast::views;

verus! {

/// The declared model type (from the `@model` tag).
#[derive(Debug, Clone, Copy, PartialEq, Eq, Structural)]
pub enum ModelType {
    /// Constraint programming (`@model cp`).
    Cp,
    /// Linear programming (`@model lp`).
    Lp,
}

/// A complete Jia model.
#[derive(Debug, PartialEq)]
pub struct JiaModel {
    /// Model type (from the `@model` tag), if given.
    pub model_type: Option<ModelType>,
    /// Model name (from `model <name>`).
    pub name: String,
    /// Variable declarations.
    pub variables: Vec<VarDecl>,
    /// Domain statements.
    pub domains: Vec<DomainStmt>,
    /// Constraints.
    pub constraints: Vec<Constraint>,
    /// Optimization objective, if any.
    pub objective: Option<Objective>,
}

/// A variable declaration: `Type: name1, name2, ...`.
#[derive(Debug, Clone, PartialEq)]
pub struct VarDecl {
    /// The declared variable names.
    pub names: Vec<String>,
    /// The type of every variable in this declaration.
    pub var_type: VarType,
}

/// Variable types.
#[derive(Debug, Clone, Copy, PartialEq, Eq, Structural)]
pub enum VarType {
    /// An interval variable with start, end and duration.
    Interval,
    /// An integer decision variable.
    Integer,
    /// A continuous real-valued decision variable.
    Real,
    /// A set of interval variables.
    SetInterval,
    /// A set of integer variables.
    SetInteger,
}

/// A bound of a real range: a signed decimal, or an infinity.
#[derive(Debug, Clone, PartialEq)]
pub enum RealBound {
    /// A finite bound: its sign and the decimal text of its magnitude (the
    /// shortest text of the value).
    Finite { negative: bool, text: String },
    /// `inf` or `-inf`.
    Infinite { negative: bool },
}

/// A domain specification: fixed value, range, enumeration, or their real
/// counterparts.
#[derive(Debug, Clone, PartialEq)]
pub enum Domain {
    /// A single fixed integer value: `= 3`.
    Fixed(i64),
    /// An integer range (both bounds inclusive): `in 0..100`.
    Range { min: i64, max: i64 },
    /// An enumeration of integer values: `in {1, 3, 5}`.
    Enumerated(Vec<i64>),
    /// A single fixed real value, by the shortest text of its value: `= 3.25`.
    RealFixed(String),
    /// A real range: `in 0.5..inf`.
    RealRange { min: RealBound, max: RealBound },
}

/// A domain statement.
#[derive(Debug, Clone, PartialEq)]
pub enum DomainStmt {
    /// `duration(x, y) = 3`, `duration(x) in 2..5`, `duration(x) in {2, 5}`.
    IntervalDuration { intervals: Vec<String>, domain: Domain },
    /// `start(x, y) in 0..10`.
    IntervalStart { intervals: Vec<String>, domain: Domain },
    /// `end(x, y) in 0..20`.
    IntervalEnd { intervals: Vec<String>, domain: Domain },
    /// `optional(x, y, z)`.
    IntervalOptional { intervals: Vec<String> },
    /// `x in 0..100` or `x in {1, 3, 5}`.
    IntegerDomain { name: String, domain: Domain },
    /// `x = {a, b, c}`.
    SetDomain { name: String, members: Vec<String> },
    /// The domain of a real variable.
    RealDomain { name: String, domain: Domain },
    /// `demand(interval, set) = value`.
    Demand { interval: String, set: String, value: i64 },
}

/// A constraint.
#[derive(Debug, PartialEq)]
pub enum Constraint {
    /// `no_overlap(set_or_interval, ...)`.
    NoOverlap { intervals: Vec<String> },
    /// `cumulative(set, capacity)`.
    Cumulative { set: String, capacity: Expr },
    /// `span(parent, set)`.
    Span { parent: String, set: String },
    /// `alternative(parent, set)`.
    Alternative { parent: String, set: String },
    /// `<expr> <op> <expr>`.
    Comparison { left: Expr, op: CmpOp, right: Expr },
}

/// Comparison operators.
#[derive(Debug, Clone, Copy, PartialEq, Eq, Structural)]
pub enum CmpOp {
    /// `<`
    Lt,
    /// `<=`
    Le,
    /// `>`
    Gt,
    /// `>=`
    Ge,
    /// `==` (or `=`)
    Eq,
    /// `!=`
    Ne,
}

/// An expression.
#[derive(Debug, PartialEq)]
pub enum Expr {
    /// An integer literal.
    Number(i64),
    /// A real literal, by the shortest text of its value.
    Float(String),
    /// A variable reference.
    Var(String),
    /// `start_of(name)`.
    StartOf(String),
    /// `end_of(name)`.
    EndOf(String),
    /// `duration_of(name)`.
    DurationOf(String),
    /// `present_of(name)`: 0 if absent, 1 if present.
    PresentOf(String),
    /// A binary arithmetic operation.
    BinaryOp { op: ArithOp, left: Box<Expr>, right: Box<Expr> },
    /// Unary negation.
    Negate(Box<Expr>),
}

/// Arithmetic operators.
#[derive(Debug, Clone, Copy, PartialEq, Eq, Structural)]
pub enum ArithOp {
    /// `+`
    Add,
    /// `-`
    Sub,
    /// `*`
    Mul,
    /// `/`
    Div,
}

/// An optimization objective.
#[derive(Debug, PartialEq)]
pub struct Objective {
    /// Minimize or maximize.
    pub direction: OptDirection,
    /// The expression to optimize.
    pub expr: Expr,
}

/// Optimization direction.
#[derive(Debug, Clone, Copy, PartialEq, Eq, Structural)]
pub enum OptDirection {
    /// Minimize the objective.
    Minimize,
    /// Maximize the objective.
    Maximize,
}

// ---------------------------------------------------------------------------
// Mathematical counterparts
// ---------------------------------------------------------------------------

pub enum SpecRealBound {
    Finite { negative: bool, text: Seq<char> },
    Infinite { negative: bool },
}

pub enum SpecDomain {
    Fixed(i64),
    Range { min: i64, max: i64 },
    Enumerated(Seq<i64>),
    RealFixed(Seq<char>),
    RealRange { min: SpecRealBound, max: SpecRealBound },
}

pub enum SpecDomainStmt {
    IntervalDuration { intervals: Seq<Seq<char>>, domain: SpecDomain },
    IntervalStart { intervals: Seq<Seq<char>>, domain: SpecDomain },
    IntervalEnd { intervals: Seq<Seq<char>>, domain: SpecDomain },
    IntervalOptional { intervals: Seq<Seq<char>> },
    IntegerDomain { name: Seq<char>, domain: SpecDomain },
    SetDomain { name: Seq<char>, members: Seq<Seq<char>> },
    RealDomain { name: Seq<char>, domain: SpecDomain },
    Demand { interval: Seq<char>, set: Seq<char>, value: i64 },
}

pub enum SpecExpr {
    Number(i64),
    Float(Seq<char>),
    Var(Seq<char>),
    StartOf(Seq<char>),
    EndOf(Seq<char>),
    DurationOf(Seq<char>),
    PresentOf(Seq<char>),
    BinaryOp { op: ArithOp, left: Box<SpecExpr>, right: Box<SpecExpr> },
    Negate(Box<SpecExpr>),
}

pub enum SpecConstraint {
    NoOverlap { intervals: Seq<Seq<char>> },
    Cumulative { set: Seq<char>, capacity: SpecExpr },
    Span { parent: Seq<char>, set: Seq<char> },
    Alternative { parent: Seq<char>, set: Seq<char> },
    Comparison { left: SpecExpr, op: CmpOp, right: SpecExpr },
}

pub struct SpecObjective {
    pub direction: OptDirection,
    pub expr: SpecExpr,
}

pub struct SpecVarDecl {
    pub names: Seq<Seq<char>>,
    pub var_type: VarType,
}

pub struct SpecJiaModel {
    pub model_type: Option<ModelType>,
    pub name: Seq<char>,
    pub variables: Seq<SpecVarDecl>,
    pub domains: Seq<SpecDomainStmt>,
    pub constraints: Seq<SpecConstraint>,
    pub objective: Option<SpecObjective>,
}

// ---------------------------------------------------------------------------
// Views
// ---------------------------------------------------------------------------

impl View for ModelType {
    type V = ModelType;

    open spec fn view(&self) -> ModelType {
        *self
    }
}

impl View for VarType {
    type V = VarType;

    open spec fn view(&self) -> VarType {
        *self
    }
}

impl View for CmpOp {
    type V = CmpOp;

    open spec fn view(&self) -> CmpOp {
        *self
    }
}

impl View for ArithOp {
    type V = ArithOp;

    open spec fn view(&self) -> ArithOp {
        *self
    }
}

impl View for OptDirection {
    type V = OptDirection;

    open spec fn view(&self) -> OptDirection {
        *self
    }
}

impl View for RealBound {
    type V = SpecRealBound;

    open spec fn view(&self) -> SpecRealBound {
        match self {
            RealBound::Finite { negative, text } => SpecRealBound::Finite {
                negative: *negative,
                text: text@,
            },
            RealBound::Infinite { negative } => SpecRealBound::Infinite { negative: *negative },
        }
    }
}

impl View for Domain {
    type V = SpecDomain;

    open spec fn view(&self) -> SpecDomain {
        match self {
            Domain::Fixed(v) => SpecDomain::Fixed(*v),
            Domain::Range { min, max } => SpecDomain::Range { min: *min, max: *max },
            Domain::Enumerated(vs) => SpecDomain::Enumerated(vs@),
            Domain::RealFixed(t) => SpecDomain::RealFixed(t@),
            Domain::RealRange { min, max } => SpecDomain::RealRange { min: min@, max: max@ },
        }
    }
}

impl View for DomainStmt {
    type V = SpecDomainStmt;

    open spec fn view(&self) -> SpecDomainStmt {
        match self {
            DomainStmt::IntervalDuration { intervals, domain } => SpecDomainStmt::IntervalDuration {
                intervals: views(intervals@),
                domain: domain@,
            },
            DomainStmt::IntervalStart { intervals, domain } => SpecDomainStmt::IntervalStart {
                intervals: views(intervals@),
                domain: domain@,
            },
            DomainStmt::IntervalEnd { intervals, domain } => SpecDomainStmt::IntervalEnd {
                intervals: views(intervals@),
                domain: domain@,
            },
            DomainStmt::IntervalOptional { intervals } => SpecDomainStmt::IntervalOptional {
                intervals: views(intervals@),
            },
            DomainStmt::IntegerDomain { name, domain } => SpecDomainStmt::IntegerDomain {
                name: name@,
                domain: domain@,
            },
            DomainStmt::SetDomain { name, members } => SpecDomainStmt::SetDomain {
                name: name@,
                members: views(members@),
            },
            DomainStmt::RealDomain { name, domain } => SpecDomainStmt::RealDomain {
                name: name@,
                domain: domain@,
            },
            DomainStmt::Demand { interval, set, value } => SpecDomainStmt::Demand {
                interval: interval@,
                set: set@,
                value: *value,
            },
        }
    }
}

pub open spec fn expr_view(e: Expr) -> SpecExpr
    decreases e,
{
    match e {
        Expr::Number(n) => SpecExpr::Number(n),
        Expr::Float(t) => SpecExpr::Float(t@),
        Expr::Var(n) => SpecExpr::Var(n@),
        Expr::StartOf(n) => SpecExpr::StartOf(n@),
        Expr::EndOf(n) => SpecExpr::EndOf(n@),
        Expr::DurationOf(n) => SpecExpr::DurationOf(n@),
        Expr::PresentOf(n) => SpecExpr::PresentOf(n@),
        Expr::BinaryOp { op, left, right } => SpecExpr::BinaryOp {
            op,
            left: Box::new(expr_view(*left)),
            right: Box::new(expr_view(*right)),
        },
        Expr::Negate(inner) => SpecExpr::Negate(Box::new(expr_view(*inner))),
    }
}

impl View for Expr {
    type V = SpecExpr;

    open spec fn view(&self) -> SpecExpr {
        expr_view(*self)
    }
}

impl View for Constraint {
    type V = SpecConstraint;

    open spec fn view(&self) -> SpecConstraint {
        match self {
            Constraint::NoOverlap { intervals } => SpecConstraint::NoOverlap {
                intervals: views(intervals@),
            },
            Constraint::Cumulative { set, capacity } => SpecConstraint::Cumulative {
                set: set@,
                capacity: capacity@,
            },
            Constraint::Span { parent, set } => SpecConstraint::Span { parent: parent@, set: set@ },
            Constraint::Alternative { parent, set } => SpecConstraint::Alternative {
                parent: parent@,
                set: set@,
            },
            Constraint::Comparison { left, op, right } => SpecConstraint::Comparison {
                left: left@,
                op: *op,
                right: right@,
            },
        }
    }
}

impl View for Objective {
    type V = SpecObjective;

    open spec fn view(&self) -> SpecObjective {
        SpecObjective { direction: self.direction, expr: self.expr@ }
    }
}

impl View for VarDecl {
    type V = SpecVarDecl;

    open spec fn view(&self) -> SpecVarDecl {
        SpecVarDecl { names: views(self.names@), var_type: self.var_type }
    }
}

impl View for JiaModel {
    type V = SpecJiaModel;

    open spec fn view(&self) -> SpecJiaModel {
        SpecJiaModel {
            model_type: self.model_type,
            name: self.name@,
            variables: views(self.variables@),
            domains: views(self.domains@),
            constraints: views(self.constraints@),
            objective: match self.objective {
                Some(o) => Some(o@),
                None => None,
            },
        }
    }
}

// ---------------------------------------------------------------------------
// Written forms of the operators and types
// ---------------------------------------------------------------------------

/// How a comparison operator is written.
pub open spec fn comparison_text(op: CmpOp) -> Seq<char> {
    match op {
        CmpOp::Lt => "<"@,
        CmpOp::Le => "<="@,
        CmpOp::Gt => ">"@,
        CmpOp::Ge => ">="@,
        CmpOp::Eq => "=="@,
        CmpOp::Ne => "!="@,
    }
}

/// How an arithmetic operator is written.
pub open spec fn arith_op_text(op: ArithOp) -> Seq<char> {
    match op {
        ArithOp::Add => "+"@,
        ArithOp::Sub => "-"@,
        ArithOp::Mul => "*"@,
        ArithOp::Div => "/"@,
    }
}

/// How a variable type is written.
pub open spec fn var_type_text(t: VarType) -> Seq<char> {
    match t {
        VarType::Interval => "Interval"@,
        VarType::Integer => "Integer"@,
        VarType::Real => "Real"@,
        VarType::SetInterval => "Set[Interval]"@,
        VarType::SetInteger => "Set[Integer]"@,
    }
}

impl CmpOp {
    /// The operator as written, `==` for equality.
    pub fn to_string(&self) -> (s: String)
        ensures
            s@ == comparison_text(*self),
    {
        match self {
            CmpOp::Lt => String::from_str("<"),
            CmpOp::Le => String::from_str("<="),
            CmpOp::Gt => String::from_str(">"),
            CmpOp::Ge => String::from_str(">="),
            CmpOp::Eq => String::from_str("=="),
            CmpOp::Ne => String::from_str("!="),
        }
    }
}

impl ArithOp {
    /// The operator as written.
    pub fn to_string(&self) -> (s: String)
        ensures
            s@ == arith_op_text(*self),
    {
        match self {
            ArithOp::Add => String::from_str("+"),
            ArithOp::Sub => String::from_str("-"),
            ArithOp::Mul => String::from_str("*"),
            ArithOp::Div => String::from_str("/"),
        }
    }
}

impl VarType {
    /// The type as written in a declaration.
    pub fn to_string(&self) -> (s: String)
        ensures
            s@ == var_type_text(*self),
    {
        match self {
            VarType::Interval => String::from_str("Interval"),
            VarType::Integer => String::from_str("Integer"),
            VarType::Real => String::from_str("Real"),
            VarType::SetInterval => String::from_str("Set[Interval]"),
            VarType::SetInteger => String::from_str("Set[Integer]"),
        }
    }
}

} // verus!
