use jia_parse::ast::{
    AtomicFormula, BasicAction, CompareOp, Condition, DerivedPredicate, Domain, DurationConstraint,
    DurativeAction, FunctionDecl, FunctionTerm, InitElement, NumericExpr, PredicateDecl, Problem,
    Term, TypedGroup,
};
use jia_parse::normalize::{
    fixed_six_text, format_atomic_formula, format_function_term, init_sort_key, term_name,
};
use jia_parse::parser::{parse_domain_str, parse_problem_str};
use jia_parse::sorting::text_less;

#[test]
fn domain_sort_orders_all_named_declarations() {
    let mut domain = Domain {
        name: "d".to_string(),
        requirements: Vec::new(),
        types: vec![TypedGroup {
            items: vec!["z".to_string(), "a".to_string()],
            group_type: None,
        }],
        constants: vec![TypedGroup {
            items: vec!["c2".to_string(), "c1".to_string()],
            group_type: None,
        }],
        predicates: vec![
            PredicateDecl {
                name: "zpred".to_string(),
                parameters: Vec::new(),
            },
            PredicateDecl {
                name: "apred".to_string(),
                parameters: Vec::new(),
            },
        ],
        functions: vec![
            FunctionDecl {
                name: "zfunc".to_string(),
                parameters: Vec::new(),
                return_type: None,
            },
            FunctionDecl {
                name: "afunc".to_string(),
                parameters: Vec::new(),
                return_type: None,
            },
        ],
        actions: vec![
            BasicAction {
                name: "zact".to_string(),
                parameters: Vec::new(),
                precondition: None,
                effect: None,
            },
            BasicAction {
                name: "aact".to_string(),
                parameters: Vec::new(),
                precondition: None,
                effect: None,
            },
        ],
        durative_actions: vec![
            DurativeAction {
                name: "zdur".to_string(),
                parameters: Vec::new(),
                duration: DurationConstraint::Cmp {
                    op: CompareOp::Eq,
                    expr: NumericExpr::Number("1.0".to_string()),
                },
                condition: None,
                effect: None,
            },
            DurativeAction {
                name: "adur".to_string(),
                parameters: Vec::new(),
                duration: DurationConstraint::Cmp {
                    op: CompareOp::Eq,
                    expr: NumericExpr::Number("1.0".to_string()),
                },
                condition: None,
                effect: None,
            },
        ],
        derived_predicates: vec![
            DerivedPredicate {
                predicate: AtomicFormula {
                    name: "zderived".to_string(),
                    args: Vec::new(),
                },
                condition: Condition::And(Vec::new()),
            },
            DerivedPredicate {
                predicate: AtomicFormula {
                    name: "aderived".to_string(),
                    args: Vec::new(),
                },
                condition: Condition::And(Vec::new()),
            },
        ],
    };

    domain.sort_alphabetically();

    assert_eq!(domain.types[0].items, ["a", "z"]);
    assert_eq!(domain.constants[0].items, ["c1", "c2"]);
    assert_eq!(domain.predicates[0].name, "apred");
    assert_eq!(domain.functions[0].name, "afunc");
    assert_eq!(domain.actions[0].name, "aact");
    assert_eq!(domain.durative_actions[0].name, "adur");
    assert_eq!(domain.derived_predicates[0].predicate.name, "aderived");
}

#[test]
fn problem_sort_handles_zero_arity_predicates_and_variable_terms() {
    let mut problem = Problem {
        name: "p".to_string(),
        domain_name: "d".to_string(),
        requirements: Vec::new(),
        objects: Vec::new(),
        init: vec![
            InitElement::NumericAssignment(
                FunctionTerm {
                    name: "cost".to_string(),
                    args: vec![Term::Variable("?x".to_string())],
                },
                "1.0".to_string(),
            ),
            InitElement::Predicate(AtomicFormula {
                name: "ready".to_string(),
                args: Vec::new(),
            }),
        ],
        goal: Condition::And(Vec::new()),
        metric: None,
        constraints: None,
    };

    problem.sort_alphabetically();
    assert!(matches!(problem.init[0], InitElement::Predicate(_)));
    assert!(matches!(
        problem.init[1],
        InitElement::NumericAssignment(_, _)
    ));
}

#[test]
fn sort_keys_of_terms_formulas_and_init_elements() {
    let af = AtomicFormula {
        name: "on".to_string(),
        args: vec![Term::Name("a".to_string()), Term::Variable("?y".to_string())],
    };
    assert_eq!(format_atomic_formula(&af), "on(a,?y)");
    let bare = AtomicFormula { name: "ready".to_string(), args: Vec::new() };
    assert_eq!(format_atomic_formula(&bare), "ready");
    let ft = FunctionTerm { name: "cost".to_string(), args: vec![Term::Name("t".to_string())] };
    assert_eq!(format_function_term(&ft), "cost(t)");
    assert_eq!(term_name(&Term::Variable("?v".to_string())), "?v");

    let timed = InitElement::At(
        "2.5".to_string(),
        Box::new(InitElement::Predicate(af)),
    );
    assert_eq!(init_sort_key(&timed), (3, "2.500000on(a,?y)".to_string()));
    assert_eq!(
        init_sort_key(&InitElement::NotPredicate(bare)),
        (1, "ready".to_string())
    );
}

#[test]
fn six_decimal_rendering_rounds_half_up() {
    assert_eq!(fixed_six_text("2"), "2.000000");
    assert_eq!(fixed_six_text("0.1234567"), "0.123457");
    assert_eq!(fixed_six_text("9.9999995"), "10.000000");
    assert_eq!(fixed_six_text("007.25"), "7.250000");
    assert_eq!(fixed_six_text(".5"), "0.500000");
}

#[test]
fn text_order_is_code_point_order_with_prefixes_first() {
    assert!(text_less("a", "b"));
    assert!(text_less("ab", "abc"));
    assert!(!text_less("abc", "ab"));
    assert!(!text_less("same", "same"));
    assert!(text_less("Z", "a"));
    assert!(text_less("z", "é"));
}

#[test]
fn sorting_is_stable_and_settled() {
    let input = "(define (domain d) (:predicates (p ?a) (b) (p ?b ?c) (a)))";
    let d = parse_domain_str(input).unwrap();
    let names: Vec<&str> = d.predicates.iter().map(|p| p.name.as_str()).collect();
    assert_eq!(names, ["a", "b", "p", "p"]);
    // equal names keep their written order
    assert_eq!(d.predicates[2].parameters[0].items, ["?a"]);
    assert_eq!(d.predicates[3].parameters[0].items, ["?b", "?c"]);

    let mut again = parse_domain_str(input).unwrap();
    again.sort_alphabetically();
    assert_eq!(again, d);
}

#[test]
fn init_elements_sort_by_tag_then_text() {
    let p = parse_problem_str(
        "(define (problem p) (:init (at 10 (z)) (at 2 (z)) (= (f) 1) (not (y)) (x)) (:goal (and)))",
    )
    .unwrap();
    assert!(matches!(p.init[0], InitElement::Predicate(_)));
    assert!(matches!(p.init[1], InitElement::NotPredicate(_)));
    assert!(matches!(p.init[2], InitElement::NumericAssignment(_, _)));
    // "10.000000z" < "2.000000z" as text
    assert!(matches!(p.init[3], InitElement::At(ref t, _) if t == "10"));
    assert!(matches!(p.init[4], InitElement::At(ref t, _) if t == "2"));
}
