use jia_parse::ast::{
    AssignOp, BinaryOp, CompareOp, Condition, DurationConstraint, Effect, FunctionTerm, InitElement, NumericExpr,
    Optimization, Requirement, Term,
};
use jia_parse::lexer::tokenize;
use jia_parse::parser::condition::parse_condition;
use jia_parse::parser::cursor::Parser;
use jia_parse::parser::effect::{assign_op_from_symbol, parse_effect};
use jia_parse::parser::expr::{
    binary_op_from_symbol, is_numeric_start, parse_metric_expr, parse_numeric_expr,
};
use jia_parse::parser::terms::{
    parse_function_term, parse_term, parse_term_name_only, parse_typed_list_names,
    parse_typed_list_vars,
};
use jia_parse::parser::utils::{
    parse_compare_op, parse_compare_op_from_str, parse_number_literal, skip_sexp, skip_to_define,
};
use jia_parse::parser::{parse_domain_str, parse_problem_str};
use jia_parse::ParseError;

fn parse_cond(input: &str) -> Result<Condition, ParseError> {
    let tokens = tokenize(input)?;
    let mut parser = Parser::new(&tokens);
    parse_condition(&mut parser)
}

fn parse_eff(input: &str) -> Result<Effect, ParseError> {
    let tokens = tokenize(input)?;
    let mut parser = Parser::new(&tokens);
    parse_effect(&mut parser)
}

fn parse_numeric(input: &str) -> NumericExpr {
    let tokens = tokenize(input).unwrap();
    let mut parser = Parser::new(&tokens);
    parse_numeric_expr(&mut parser).unwrap()
}

fn parse_metric(input: &str) -> NumericExpr {
    let tokens = tokenize(input).unwrap();
    let mut parser = Parser::new(&tokens);
    parse_metric_expr(&mut parser).unwrap()
}

#[test]
fn parses_named_preference_and_temporal_conditions() {
    let condition =
        parse_cond("(and (preference prefer-ready (ready a)) (at end (done a)))").unwrap();

    let Condition::And(conditions) = condition else {
        return;
    };

    assert!(matches!(
        &conditions[0],
        Condition::Preference {
            name: Some(name),
            ..
        } if name == "prefer-ready"
    ));
    assert!(matches!(&conditions[1], Condition::AtEnd(_)));
}

#[test]
fn parses_all_numeric_comparison_operators() {
    for (input, expected) in [
        ("(< (cost) 5)", CompareOp::Lt),
        ("(<= (cost) 5)", CompareOp::Lte),
        ("(> (cost) 5)", CompareOp::Gt),
        ("(>= (cost) 5)", CompareOp::Gte),
    ] {
        let condition = parse_cond(input).unwrap();
        assert!(matches!(
            condition,
            Condition::NumericComparison { op, .. } if op == expected
        ));
    }
}

#[test]
fn parses_term_equality_with_variables() {
    let condition = parse_cond("(= ?x target)").unwrap();

    assert!(matches!(
        condition,
        Condition::Equals(Term::Variable(variable), Term::Name(name))
            if variable == "?x" && name == "target"
    ));
}

#[test]
fn reports_condition_edge_errors() {
    for input in [
        "(",
        "(and (ready a)",
        "(preference name)",
        "(at",
        "(over",
        "(<=)",
        "(ready 1)",
        "ready",
    ] {
        assert!(parse_cond(input).is_err(), "{input}");
    }
}

#[test]
fn parses_quantified_negated_and_temporal_effects() {
    let effect = parse_eff(
        "(and (forall (?x - obj) (not (ready ?x))) (at start (ready a)) (at end (done a)))",
    )
    .unwrap();

    let Effect::And(effects) = effect else {
        return;
    };

    assert!(matches!(&effects[0], Effect::Forall { .. }));
    assert!(matches!(&effects[1], Effect::AtStart(_)));
    assert!(matches!(&effects[2], Effect::AtEnd(_)));
}

#[test]
fn parses_all_numeric_assignment_ops() {
    for input in [
        "(assign (cost) 1)",
        "(increase (cost) 1)",
        "(decrease (cost) 1)",
        "(scale-up (cost) 1)",
        "(scale-down (cost) 1)",
    ] {
        assert!(matches!(
            parse_eff(input).unwrap(),
            Effect::NumericAssign { .. }
        ));
    }
}

#[test]
fn reports_effect_edge_errors() {
    for input in [
        "(",
        "(not)",
        "(forall (?x - obj))",
        "(when (ready a))",
        "(at",
        "(ready 1)",
        "ready",
    ] {
        assert!(parse_eff(input).is_err(), "{input}");
    }
}

#[test]
fn numeric_expr_variants() {
    assert_eq!(binary_op_from_symbol("%"), None);
    assert!(matches!(parse_numeric("(- 5)"), NumericExpr::Negate(_)));
    assert!(matches!(
        parse_numeric("(/ (* 8 2) (+ 1 3))"),
        NumericExpr::BinaryOp { .. }
    ));
    assert!(matches!(
        parse_numeric("(fuel truck1)"),
        NumericExpr::FunctionCall(FunctionTerm { .. })
    ));
    assert_eq!(parse_numeric("?duration"), NumericExpr::Duration);
    assert_eq!(parse_numeric("total-time"), NumericExpr::TotalTime);
    assert!(matches!(
        parse_numeric("fuel"),
        NumericExpr::FunctionCall(FunctionTerm { .. })
    ));
}

#[test]
fn numeric_expr_errors() {
    let tokens = tokenize("(42)").unwrap();
    let mut parser = Parser::new(&tokens);
    assert!(parse_numeric_expr(&mut parser).is_err());

    let tokens = tokenize("(").unwrap();
    let mut parser = Parser::new(&tokens);
    assert!(parse_numeric_expr(&mut parser).is_err());

    let tokens = tokenize("?x").unwrap();
    let mut parser = Parser::new(&tokens);
    assert!(parse_numeric_expr(&mut parser).is_err());

    let tokens = tokenize(")").unwrap();
    let mut parser = Parser::new(&tokens);
    assert!(parse_numeric_expr(&mut parser).is_err());

    let tokens = Vec::new();
    let mut parser = Parser::new(&tokens);
    assert!(parse_numeric_expr(&mut parser).is_err());
}

#[test]
fn metric_expr_variants_and_errors() {
    assert_eq!(parse_metric("(total-time)"), NumericExpr::TotalTime);
    assert_eq!(parse_metric("total-time"), NumericExpr::TotalTime);
    assert!(matches!(parse_metric("(- 5)"), NumericExpr::Negate(_)));
    assert_eq!(parse_metric("(+ 5)"), NumericExpr::Number("5".to_string()));
    assert_eq!(parse_metric("(* 5)"), NumericExpr::Number("5".to_string()));
    assert!(matches!(
        parse_metric("(+ total-time cost)"),
        NumericExpr::BinaryOp { .. }
    ));
    assert!(matches!(
        parse_metric("(distance a b)"),
        NumericExpr::FunctionCall(FunctionTerm { .. })
    ));
    assert!(matches!(
        parse_metric("cost"),
        NumericExpr::FunctionCall(FunctionTerm { .. })
    ));

    let tokens = tokenize(")").unwrap();
    let mut parser = Parser::new(&tokens);
    assert!(parse_metric_expr(&mut parser).is_err());

    let tokens = tokenize("(42)").unwrap();
    let mut parser = Parser::new(&tokens);
    assert!(parse_metric_expr(&mut parser).is_err());

    let tokens = tokenize("(").unwrap();
    let mut parser = Parser::new(&tokens);
    assert!(parse_metric_expr(&mut parser).is_err());

    let tokens = tokenize("?x").unwrap();
    let mut parser = Parser::new(&tokens);
    assert!(parse_metric_expr(&mut parser).is_err());

    let tokens = Vec::new();
    let mut parser = Parser::new(&tokens);
    assert!(parse_metric_expr(&mut parser).is_err());
}

#[test]
fn numeric_start_lookahead_variants() {
    for (input, expected) in [
        ("1", true),
        ("?duration", true),
        ("(+ 1 2)", true),
        ("(fuel truck1)", true),
        ("(and (ready))", false),
        ("(", false),
        ("ready", false),
    ] {
        let tokens = tokenize(input).unwrap();
        let parser = Parser::new(&tokens);
        assert_eq!(is_numeric_start(&parser), expected, "{input}");
    }

    let tokens = Vec::new();
    let parser = Parser::new(&tokens);
    assert!(!is_numeric_start(&parser));
}

#[test]
fn typed_lists_support_dash_prefixed_types_and_either() {
    let tokens = tokenize("a b -thing c - (either x y))").unwrap();
    let mut parser = Parser::new(&tokens);
    let groups = parse_typed_list_names(&mut parser).unwrap();

    assert_eq!(groups[0].group_type.as_deref(), Some("thing"));
    assert_eq!(groups[1].group_type.as_deref(), Some("either:x:y"));

    let tokens = tokenize("?a ?b ?c").unwrap();
    let mut parser = Parser::new(&tokens);
    let groups = parse_typed_list_vars(&mut parser).unwrap();
    assert_eq!(groups[0].items.len(), 3);
    assert!(groups[0].group_type.is_none());
}

#[test]
fn term_parsers_report_invalid_tokens() {
    let tokens = tokenize(")").unwrap();
    let mut parser = Parser::new(&tokens);
    assert!(parse_term(&mut parser).is_err());

    let tokens = tokenize("?x").unwrap();
    let mut parser = Parser::new(&tokens);
    assert!(parse_term_name_only(&mut parser).is_err());
}

#[test]
fn function_term_supports_bare_zero_arity_name() {
    let tokens = tokenize("total-cost").unwrap();
    let mut parser = Parser::new(&tokens);
    let function = parse_function_term(&mut parser).unwrap();

    assert_eq!(function.name, "total-cost");
    assert!(function.args.is_empty());
}

#[test]
fn skip_helpers_skip_balanced_forms() {
    let tokens = tokenize("(metadata (nested value)) (define (domain d))").unwrap();
    let mut parser = Parser::new(&tokens);
    skip_to_define(&mut parser).unwrap();
    assert!(parser.at_lparen());

    let tokens = tokenize("(unknown (nested value)) next").unwrap();
    let mut parser = Parser::new(&tokens);
    skip_sexp(&mut parser).unwrap();
    assert!(parser.at_symbol("next"));
}

#[test]
fn comparison_and_number_error_branches() {
    let tokens = tokenize("name").unwrap();
    let mut parser = Parser::new(&tokens);
    assert_eq!(parse_compare_op(&mut parser).unwrap(), CompareOp::Eq);

    let tokens = tokenize(":kw").unwrap();
    let mut parser = Parser::new(&tokens);
    assert!(parse_compare_op(&mut parser).is_err());

    let tokens = tokenize("name").unwrap();
    let mut parser = Parser::new(&tokens);
    assert!(parse_number_literal(&mut parser).is_err());
}

#[test]
fn test_parse_minimal_domain() {
    let input = r#"
(define (domain test)
  (:requirements :strips :typing)
  (:types block - object)
  (:predicates (on ?x - block ?y - block) (clear ?x - block))
)
"#;
    let domain = parse_domain_str(input).unwrap();
    assert_eq!(domain.name, "test");
    assert_eq!(domain.requirements.len(), 2);
    assert_eq!(domain.predicates.len(), 2);
    assert_eq!(domain.predicates[0].name, "clear");
    assert_eq!(domain.predicates[1].name, "on");
}

#[test]
fn test_parse_durative_action() {
    let input = r#"
(define (domain test)
  (:durative-action move
    :parameters (?x - obj)
    :duration (= ?duration 5)
    :condition (and
      (at start (clear ?x))
      (over all (safe ?x))
    )
    :effect (and
      (at start (not (clear ?x)))
      (at end (moved ?x))
    )
  )
)
"#;
    let domain = parse_domain_str(input).unwrap();
    assert_eq!(domain.durative_actions.len(), 1);
    let da = &domain.durative_actions[0];
    assert_eq!(da.name, "move");
}

#[test]
fn test_parse_minimal_problem() {
    let input = r#"
(define (problem test-prob)
  (:domain test)
  (:objects a b - block)
  (:init (on a b) (clear a) (= (cost) 0))
  (:goal (and (on b a)))
)
"#;
    let problem = parse_problem_str(input).unwrap();
    assert_eq!(problem.name, "test-prob");
    assert_eq!(problem.domain_name, "test");
    assert_eq!(problem.init.len(), 3);
}

#[test]
fn test_parse_metric() {
    let input = r#"
(define (problem test)
  (:domain d)
  (:init)
  (:goal (and))
  (:metric minimize (total-time))
)
"#;
    let problem = parse_problem_str(input).unwrap();
    assert!(problem.metric.is_some());
    let m = problem.metric.unwrap();
    assert_eq!(m.optimization, Optimization::Minimize);
}

#[test]
fn test_parse_numeric_precondition() {
    let input = r#"
(define (domain test)
  (:durative-action act
    :parameters (?d - driver)
    :duration (= ?duration 10)
    :condition (and
      (at start (>= (time_available ?d) 10))
    )
    :effect (and
      (at start (decrease (time_available ?d) 10))
    )
  )
)
"#;
    let domain = parse_domain_str(input).unwrap();
    let da = &domain.durative_actions[0];
    assert!(da.condition.is_some());
    assert!(da.effect.is_some());
}

#[test]
fn compare_op_from_text() {
    assert_eq!(parse_compare_op_from_str("<"), CompareOp::Lt);
    assert_eq!(parse_compare_op_from_str("<="), CompareOp::Lte);
    assert_eq!(parse_compare_op_from_str(">"), CompareOp::Gt);
    assert_eq!(parse_compare_op_from_str(">="), CompareOp::Gte);
    assert_eq!(parse_compare_op_from_str("="), CompareOp::Eq);
    assert_eq!(parse_compare_op_from_str("whatever"), CompareOp::Eq);
}

#[test]
fn assignment_and_binary_ops_from_text() {
    assert_eq!(assign_op_from_symbol("assign"), Some(AssignOp::Assign));
    assert_eq!(assign_op_from_symbol("scale-down"), Some(AssignOp::ScaleDown));
    assert_eq!(assign_op_from_symbol("and"), None);
    assert_eq!(binary_op_from_symbol("+"), Some(BinaryOp::Add));
    assert_eq!(binary_op_from_symbol("/"), Some(BinaryOp::Div));
}

#[test]
fn n_ary_sum_folds_to_the_left() {
    let e = parse_numeric("(+ 1 2 3)");
    match e {
        NumericExpr::BinaryOp { op: BinaryOp::Add, left, right } => {
            assert_eq!(*right, NumericExpr::Number("3".to_string()));
            assert!(matches!(*left, NumericExpr::BinaryOp { op: BinaryOp::Add, .. }));
        }
        _ => panic!("expected a sum"),
    }
}

#[test]
fn domain_sections_and_errors() {
    let input = r#"
; leading comment
(metadata ignored)
(define (domain full)
  (:requirements :adl :unknown-flag :durative-actions)
  (:constants c2 c1 - thing)
  (:functions (fuel ?t - truck) - number (total-cost))
  (:unknown-section whatever (x))
  (:action zz :parameters (?a) :vars (?b) :precondition (ready ?a) :effect (done ?b))
  (:action aa :parameters () :effect (and))
  (:durative-action drive
     :parameters (?t)
     :duration (and (>= ?duration 1) (<= ?duration 5))
     :condition (at start (ready ?t))
     :effect (at end (done ?t)))
  (:derived (reachable ?x) (or (ready ?x) (done ?x)))
)
"#;
    let d = parse_domain_str(input).unwrap();
    assert_eq!(d.name, "full");
    assert_eq!(
        d.requirements,
        vec![Requirement::Adl, Requirement::DurativeActions]
    );
    assert_eq!(d.constants[0].items, vec!["c1".to_string(), "c2".to_string()]);
    assert_eq!(d.functions[0].name, "fuel");
    assert_eq!(d.functions[0].return_type.as_deref(), Some("number"));
    assert_eq!(d.functions[1].name, "total-cost");
    assert_eq!(d.actions[0].name, "aa");
    assert_eq!(d.actions[1].name, "zz");
    assert_eq!(d.actions[1].parameters.len(), 2);
    assert!(matches!(d.durative_actions[0].duration, DurationConstraint::And(ref cs) if cs.len() == 2));
    assert_eq!(d.derived_predicates[0].predicate.name, "reachable");

    let err = parse_domain_str("(define (problem x))").unwrap_err();
    assert_eq!(err.message, "expected 'domain', got Symbol(\"problem\")");
    let err = parse_domain_str("(define (domain x)").unwrap_err();
    assert_eq!(err.message, "unexpected end of input");
}

#[test]
fn problem_sections_init_elements_and_metric_errors() {
    let input = r#"
(define (problem p)
  (:domain d)
  (:requirements :timed-initial-literals)
  (:objects b a - block)
  (:init (at 5 (ready a)) (at a b) (not (ready b)) (= (cost) 2) (ready a))
  (:goal (ready b))
  (:metric maximize (- (cost)))
  (:constraints (always (ready a)))
)
"#;
    let p = parse_problem_str(input).unwrap();
    assert_eq!(p.objects[0].items, vec!["a".to_string(), "b".to_string()]);
    assert_eq!(p.init.len(), 5);
    assert!(matches!(p.init[0], InitElement::Predicate(ref af) if af.name == "at"));
    assert!(matches!(p.init[1], InitElement::Predicate(ref af) if af.name == "ready"));
    assert!(matches!(p.init[2], InitElement::NotPredicate(_)));
    assert!(matches!(p.init[3], InitElement::NumericAssignment(_, ref v) if v == "2"));
    assert!(matches!(p.init[4], InitElement::At(ref t, _) if t == "5"));
    assert_eq!(p.metric.as_ref().unwrap().optimization, Optimization::Maximize);
    assert!(p.constraints.is_some());

    let err = parse_problem_str("(define (problem p) (:metric best (cost)))").unwrap_err();
    assert_eq!(err.message, "expected 'minimize' or 'maximize', got 'best'");
}

#[test]
fn condition_takes_exactly_one_balanced_expression() {
    let tokens = tokenize("(and (p ?x) (not (q))) (r)").unwrap();
    let mut parser = Parser::new(&tokens);
    assert!(parse_condition(&mut parser).is_ok());
    assert_eq!(parser.pos, 13);
    let mut depth = 0i32;
    for (k, t) in tokens[..parser.pos].iter().enumerate() {
        match t.kind {
            jia_parse::lexer::TokenKind::LParen => depth += 1,
            jia_parse::lexer::TokenKind::RParen => depth -= 1,
            _ => {}
        }
        if k + 1 < parser.pos {
            assert!(depth > 0);
        }
    }
    assert_eq!(depth, 0);
}
