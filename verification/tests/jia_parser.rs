use jia_parse::jia::ast::{
    ArithOp, CmpOp, Constraint, Domain, DomainStmt, Expr, ModelType, OptDirection, RealBound,
    VarDecl, VarType,
};
use jia_parse::jia::lexer::tokenize;
use jia_parse::jia::parse_model_str;
use jia_parse::jia::parser::{parse_expr_str, Parser};

fn parse_expr(input: &str) -> Expr {
    let tokens = tokenize(input).unwrap();
    let mut parser = Parser::new(&tokens);
    parser.parse_expr().unwrap()
}

fn parse_constraints(input: &str) -> Vec<Constraint> {
    let tokens = tokenize(input).unwrap();
    let mut parser = Parser::new(&tokens);
    parser.parse_constraints_block().unwrap()
}

fn parse_domains(input: &str) -> Vec<DomainStmt> {
    let tokens = tokenize(input).unwrap();
    let mut parser = Parser::new(&tokens);
    parser.parse_domains_block().unwrap()
}

fn var(name: &str) -> Expr {
    Expr::Var(name.to_string())
}

#[test]
fn test_number() {
    assert_eq!(parse_expr("42"), Expr::Number(42));
}

#[test]
fn test_variable() {
    assert_eq!(parse_expr("makespan"), Expr::Var("makespan".to_string()));
}

#[test]
fn test_start_of() {
    assert_eq!(
        parse_expr("start_of(task_a)"),
        Expr::StartOf("task_a".to_string())
    );
}

#[test]
fn test_end_of() {
    assert_eq!(parse_expr("end_of(task_b)"), Expr::EndOf("task_b".to_string()));
}

#[test]
fn test_duration_of() {
    assert_eq!(
        parse_expr("duration_of(task_a)"),
        Expr::DurationOf("task_a".to_string())
    );
}

#[test]
fn test_addition() {
    assert_eq!(
        parse_expr("end_of(a) + 5"),
        Expr::BinaryOp {
            op: ArithOp::Add,
            left: Box::new(Expr::EndOf("a".to_string())),
            right: Box::new(Expr::Number(5)),
        }
    );
}

#[test]
fn test_precedence_mul_before_add() {
    // 1 + 2 * 3 is 1 + (2 * 3)
    let expr = parse_expr("1 + 2 * 3");
    assert_eq!(
        expr,
        Expr::BinaryOp {
            op: ArithOp::Add,
            left: Box::new(Expr::Number(1)),
            right: Box::new(Expr::BinaryOp {
                op: ArithOp::Mul,
                left: Box::new(Expr::Number(2)),
                right: Box::new(Expr::Number(3)),
            }),
        }
    );
}

#[test]
fn test_parenthesized() {
    let expr = parse_expr("(1 + 2) * 3");
    assert_eq!(
        expr,
        Expr::BinaryOp {
            op: ArithOp::Mul,
            left: Box::new(Expr::BinaryOp {
                op: ArithOp::Add,
                left: Box::new(Expr::Number(1)),
                right: Box::new(Expr::Number(2)),
            }),
            right: Box::new(Expr::Number(3)),
        }
    );
}

#[test]
fn test_negation() {
    assert_eq!(parse_expr("-5"), Expr::Negate(Box::new(Expr::Number(5))));
}

#[test]
fn subtraction_groups_to_the_left() {
    assert_eq!(
        parse_expr("a - b - c"),
        Expr::BinaryOp {
            op: ArithOp::Sub,
            left: Box::new(Expr::BinaryOp {
                op: ArithOp::Sub,
                left: Box::new(var("a")),
                right: Box::new(var("b")),
            }),
            right: Box::new(var("c")),
        }
    );
    assert_eq!(
        parse_expr("present_of(t) / 2"),
        Expr::BinaryOp {
            op: ArithOp::Div,
            left: Box::new(Expr::PresentOf("t".to_string())),
            right: Box::new(Expr::Number(2)),
        }
    );
    let tokens = tokenize("* 2").unwrap();
    let mut parser = Parser::new(&tokens);
    let err = parser.parse_expr().unwrap_err();
    assert_eq!(err.message, "expected expression");
    let err = parse_expr_str("start_of 3").unwrap_err();
    assert_eq!(err.message, "expected LParen, got Number(3)");
    let err = parse_expr_str("(1 + 2").unwrap_err();
    assert_eq!(err.message, "expected RParen, got end of input");
}

#[test]
fn test_no_overlap() {
    let cs = parse_constraints("constraints { no_overlap(machine1) }");
    assert_eq!(
        cs[0],
        Constraint::NoOverlap {
            intervals: vec!["machine1".to_string()]
        }
    );
}

#[test]
fn test_no_overlap_multiple() {
    let cs = parse_constraints("constraints { no_overlap(a, b, c) }");
    assert_eq!(
        cs[0],
        Constraint::NoOverlap {
            intervals: vec!["a".to_string(), "b".to_string(), "c".to_string()]
        }
    );
}

#[test]
fn test_cumulative() {
    let cs = parse_constraints("constraints { cumulative(res1, 4) }");
    assert_eq!(
        cs[0],
        Constraint::Cumulative {
            set: "res1".to_string(),
            capacity: Expr::Number(4),
        }
    );
}

#[test]
fn test_span() {
    let cs = parse_constraints("constraints { span(project, phases) }");
    assert_eq!(
        cs[0],
        Constraint::Span {
            parent: "project".to_string(),
            set: "phases".to_string(),
        }
    );
}

#[test]
fn test_alternative() {
    let cs = parse_constraints("constraints { alternative(j1_o1, j1_o1_alts) }");
    assert_eq!(
        cs[0],
        Constraint::Alternative {
            parent: "j1_o1".to_string(),
            set: "j1_o1_alts".to_string(),
        }
    );
}

#[test]
fn test_comparison() {
    let cs = parse_constraints("constraints { end_of(a) <= start_of(b) }");
    assert_eq!(
        cs[0],
        Constraint::Comparison {
            left: Expr::EndOf("a".to_string()),
            op: CmpOp::Le,
            right: Expr::StartOf("b".to_string()),
        }
    );
}

#[test]
fn test_comparison_with_arithmetic() {
    let cs = parse_constraints("constraints { start_of(b) >= end_of(a) + gap }");
    assert!(matches!(
        &cs[0],
        Constraint::Comparison { op, .. } if *op == CmpOp::Ge
    ));
}

#[test]
fn test_lt_gt_ne_and_missing_comparator_errors() {
    for (input, expected) in [
        ("constraints { x < 1 }", CmpOp::Lt),
        ("constraints { x > 1 }", CmpOp::Gt),
        ("constraints { x != 1 }", CmpOp::Ne),
    ] {
        let cs = parse_constraints(input);
        assert!(matches!(
            &cs[0],
            Constraint::Comparison { op, .. } if *op == expected
        ));
    }

    let tokens = tokenize("constraints { x + 1 }").unwrap();
    let mut parser = Parser::new(&tokens);
    assert!(parser.parse_constraints_block().is_err());
}

#[test]
fn test_variables_block() {
    let input = "variables { Interval: a, b Integer: makespan Set[Interval]: m1, m2 }";
    let tokens = tokenize(input).unwrap();
    let mut parser = Parser::new(&tokens);
    let decls = parser.parse_variables_block().unwrap();
    assert_eq!(
        decls,
        vec![
            VarDecl {
                names: vec!["a".to_string(), "b".to_string()],
                var_type: VarType::Interval,
            },
            VarDecl {
                names: vec!["makespan".to_string()],
                var_type: VarType::Integer,
            },
            VarDecl {
                names: vec!["m1".to_string(), "m2".to_string()],
                var_type: VarType::SetInterval,
            },
        ]
    );
}

#[test]
fn test_set_integer_type() {
    let input = "variables { Set[Integer]: costs }";
    let tokens = tokenize(input).unwrap();
    let mut parser = Parser::new(&tokens);
    let decls = parser.parse_variables_block().unwrap();
    assert_eq!(decls[0].var_type, VarType::SetInteger);
}

#[test]
fn variable_type_errors() {
    let err = parse_model_str("model m variables { Set[Real]: x }").unwrap_err();
    assert_eq!(err.message, "expected 'Interval' or 'Integer' in Set[...], got 'Real'");
    let err = parse_model_str("model m variables { Bool: x }").unwrap_err();
    assert_eq!(err.message, "expected type (Interval, Integer, Real, Set[...]), got 'Bool'");
    let err = parse_model_str("model m variables { Integer x }").unwrap_err();
    assert_eq!(err.message, "expected Colon, got Ident(\"x\")");
}

#[test]
fn test_fixed_duration() {
    let stmts = parse_domains("domains { duration(a) = 3 }");
    assert_eq!(
        stmts[0],
        DomainStmt::IntervalDuration {
            intervals: vec!["a".to_string()],
            domain: Domain::Fixed(3),
        }
    );
}

#[test]
fn test_range_duration() {
    let stmts = parse_domains("domains { duration(a) in 1..4 }");
    assert_eq!(
        stmts[0],
        DomainStmt::IntervalDuration {
            intervals: vec!["a".to_string()],
            domain: Domain::Range { min: 1, max: 4 },
        }
    );
}

#[test]
fn test_enumerated_duration() {
    let stmts = parse_domains("domains { duration(a) in {1, 3, 5} }");
    assert_eq!(
        stmts[0],
        DomainStmt::IntervalDuration {
            intervals: vec!["a".to_string()],
            domain: Domain::Enumerated(vec![1, 3, 5]),
        }
    );
}

#[test]
fn test_multi_interval_attr() {
    let stmts = parse_domains("domains { start(a, b) in 0..20 }");
    assert_eq!(
        stmts[0],
        DomainStmt::IntervalStart {
            intervals: vec!["a".to_string(), "b".to_string()],
            domain: Domain::Range { min: 0, max: 20 },
        }
    );
}

#[test]
fn test_optional() {
    let stmts = parse_domains("domains { optional(x, y, z) }");
    assert_eq!(
        stmts[0],
        DomainStmt::IntervalOptional {
            intervals: vec!["x".to_string(), "y".to_string(), "z".to_string()],
        }
    );
}

#[test]
fn test_integer_domain() {
    let stmts = parse_domains("domains { makespan in 0..100 }");
    assert_eq!(
        stmts[0],
        DomainStmt::IntegerDomain {
            name: "makespan".to_string(),
            domain: Domain::Range { min: 0, max: 100 },
        }
    );
}

#[test]
fn test_set_domain() {
    let stmts = parse_domains("domains { machine1 = {a, b, c} }");
    assert_eq!(
        stmts[0],
        DomainStmt::SetDomain {
            name: "machine1".to_string(),
            members: vec!["a".to_string(), "b".to_string(), "c".to_string()],
        }
    );
}

#[test]
fn test_demand() {
    let stmts = parse_domains("domains { demand(a1, res1) = 2 }");
    assert_eq!(
        stmts[0],
        DomainStmt::Demand {
            interval: "a1".to_string(),
            set: "res1".to_string(),
            value: 2,
        }
    );
}

#[test]
fn test_domain_error_branches() {
    for input in [
        "domains { 1 }",
        "domains { x }",
        "domains { duration(a) }",
        "domains { duration(a) = x }",
        "domains { x in nope }",
        "domains { x in 0..nope }",
        "domains { x in 0.. }",
    ] {
        let tokens = tokenize(input).unwrap();
        let mut parser = Parser::new(&tokens);
        assert!(parser.parse_domains_block().is_err(), "{input}");
    }
}

#[test]
fn test_domain_spec_inf_range_start() {
    let stmts = parse_domains("domains { x in inf..10 }");
    assert!(matches!(
        &stmts[0],
        DomainStmt::IntegerDomain {
            domain: Domain::RealRange {
                min: RealBound::Infinite { negative: false },
                max: RealBound::Finite { negative: false, text },
            },
            ..
        } if text == "10"
    ));
}

#[test]
fn whole_bounds_make_integer_ranges() {
    let stmts = parse_domains(
        "domains { a in -5..2.000 b in 0.5..3 c in free d in -inf..inf f in -0..0 }",
    );
    assert_eq!(
        stmts[0],
        DomainStmt::IntegerDomain { name: "a".to_string(), domain: Domain::Range { min: -5, max: 2 } }
    );
    assert_eq!(
        stmts[1],
        DomainStmt::IntegerDomain {
            name: "b".to_string(),
            domain: Domain::RealRange {
                min: RealBound::Finite { negative: false, text: "0.5".to_string() },
                max: RealBound::Finite { negative: false, text: "3".to_string() },
            },
        }
    );
    assert_eq!(
        stmts[2],
        DomainStmt::IntegerDomain {
            name: "c".to_string(),
            domain: Domain::RealRange {
                min: RealBound::Infinite { negative: true },
                max: RealBound::Infinite { negative: false },
            },
        }
    );
    assert!(matches!(
        &stmts[3],
        DomainStmt::IntegerDomain { domain: Domain::RealRange { .. }, .. }
    ));
    assert_eq!(
        stmts[4],
        DomainStmt::IntegerDomain { name: "f".to_string(), domain: Domain::Range { min: 0, max: 0 } }
    );
}

#[test]
fn huge_whole_bounds_saturate() {
    let stmts = parse_domains("domains { x in -99999999999999999999.0..99999999999999999999.0 }");
    assert_eq!(
        stmts[0],
        DomainStmt::IntegerDomain {
            name: "x".to_string(),
            domain: Domain::Range { min: i64::MIN, max: i64::MAX },
        }
    );
}

#[test]
fn test_minimal_model() {
    let model = parse_model_str("model test").unwrap();
    assert_eq!(model.name, "test");
    assert!(model.variables.is_empty());
    assert!(model.domains.is_empty());
    assert!(model.constraints.is_empty());
    assert!(model.objective.is_none());
}

#[test]
fn test_model_with_objective() {
    let model = parse_model_str(
        "model test\nvariables { Integer: x }\ndomains { x in 0..10 }\nminimize x",
    )
    .unwrap();
    assert_eq!(model.name, "test");
    assert!(model.objective.is_some());
    let obj = model.objective.unwrap();
    assert_eq!(obj.direction, OptDirection::Minimize);
    assert_eq!(obj.expr, Expr::Var("x".to_string()));
}

#[test]
fn test_job_shop_model() {
    let input = r#"
model job_shop

variables {
  Interval: j1_op1, j1_op2
  Integer: makespan
  Set[Interval]: machine1
}

domains {
  duration(j1_op1) = 3
  duration(j1_op2) = 2
  makespan in 0..100
  machine1 = {j1_op1, j1_op2}
}

constraints {
  end_of(j1_op1) <= start_of(j1_op2)
  no_overlap(machine1)
  end_of(j1_op2) <= makespan
}

minimize makespan
"#;
    let model = parse_model_str(input).unwrap();
    assert_eq!(model.name, "job_shop");
    assert_eq!(model.variables.len(), 3);
    assert_eq!(model.constraints.len(), 3);
    assert!(model.objective.is_some());
}

#[test]
fn test_unknown_section() {
    let err = parse_model_str("model test\nfoobar { }").unwrap_err();
    assert!(err.message.contains("unexpected keyword"));
}

#[test]
fn test_model_tag_lp() {
    let model = parse_model_str("@model lp\nmodel test").unwrap();
    assert_eq!(model.model_type, Some(ModelType::Lp));
    assert_eq!(model.name, "test");
}

#[test]
fn test_model_tag_cp() {
    let model = parse_model_str("@model cp\nmodel test").unwrap();
    assert_eq!(model.model_type, Some(ModelType::Cp));
}

#[test]
fn test_model_no_tag() {
    let model = parse_model_str("model test").unwrap();
    assert_eq!(model.model_type, None);
}

#[test]
fn test_model_tag_unknown() {
    let err = parse_model_str("@model foo\nmodel test").unwrap_err();
    assert!(err.message.contains("unknown model type"));
}

#[test]
fn test_real_variables() {
    let model = parse_model_str("@model lp\nmodel test\nvariables { Real: x, y }").unwrap();
    assert_eq!(model.variables.len(), 1);
    assert_eq!(model.variables[0].var_type, VarType::Real);
    assert_eq!(model.variables[0].names, vec!["x", "y"]);
}

#[test]
fn test_float_in_expression() {
    let expr = parse_expr_str("3.25 + x").unwrap();
    match expr {
        Expr::BinaryOp {
            op: ArithOp::Add,
            left,
            right,
        } => {
            assert_eq!(*left, Expr::Float("3.25".to_string()));
            assert_eq!(*right, Expr::Var("x".to_string()));
        }
        _ => panic!("expected BinaryOp"),
    }
}

#[test]
fn test_division_in_expression() {
    let expr = parse_expr_str("x / 2").unwrap();
    match expr {
        Expr::BinaryOp {
            op: ArithOp::Div, ..
        } => {}
        _ => panic!("expected division"),
    }
}

#[test]
fn test_real_domain_with_inf() {
    let model = parse_model_str(
        "@model lp\nmodel test\nvariables { Real: x }\ndomains { x in 0..inf }",
    )
    .unwrap();
    assert_eq!(model.domains.len(), 1);
}

#[test]
fn test_full_lp_model() {
    let input = r#"
@model lp
model simple

variables {
  Real: x, y
}

domains {
  x in 0..inf
  y in 0..inf
}

constraints {
  x + y >= 10
  x <= 8
}

minimize 2 * x + 3 * y
"#;
    let model = parse_model_str(input).unwrap();
    assert_eq!(model.model_type, Some(ModelType::Lp));
    assert_eq!(model.name, "simple");
    assert_eq!(model.variables.len(), 1);
    assert_eq!(model.variables[0].var_type, VarType::Real);
    assert_eq!(model.constraints.len(), 2);
    assert!(model.objective.is_some());
}

#[test]
fn test_equality_with_single_eq() {
    // In constraints, `=` works as equality (alongside `==`)
    let model = parse_model_str(
        "model test\nvariables { Integer: x }\ndomains { x in 0..10 }\nconstraints { x = 5 }",
    )
    .unwrap();
    assert_eq!(model.constraints.len(), 1);
    match &model.constraints[0] {
        Constraint::Comparison { op, .. } => assert_eq!(*op, CmpOp::Eq),
        _ => panic!("expected comparison"),
    }
}

#[test]
fn model_errors_and_replaced_sections() {
    let err = parse_model_str("model").unwrap_err();
    assert_eq!(err.message, "expected identifier, got end of input");
    assert_eq!(err.span, jia_parse::Span::new(0, 1, 1));
    let err = parse_model_str("modal x").unwrap_err();
    assert_eq!(err.message, "expected 'model', got 'modal'");
    let err = parse_model_str("model x 5").unwrap_err();
    assert_eq!(err.message, "unexpected token Number(5)");
    let m = parse_model_str(
        "model x variables { Integer: a } variables { Real: b } maximize a minimize b",
    )
    .unwrap();
    assert_eq!(m.variables.len(), 1);
    assert_eq!(m.variables[0].var_type, VarType::Real);
    assert_eq!(m.objective.unwrap().direction, OptDirection::Minimize);
}

#[test]
fn lp_model_refuses_interval_variables() {
    let err = parse_model_str("@model lp\nmodel t\nvariables { Interval: a }").unwrap_err();
    assert_eq!(err.message, "CP construct 'Interval' is not allowed in an lp model");
    assert_eq!((err.span.line, err.span.col), (3, 1));
    let err = parse_model_str("@model lp\nmodel t\nvariables { Real: x Set[Interval]: m }")
        .unwrap_err();
    assert_eq!(err.message, "CP construct 'Set[Interval]' is not allowed in an lp model");
}

#[test]
fn lp_model_refuses_scheduling_constraints_and_accessors() {
    let err = parse_model_str("@model lp\nmodel t\nconstraints { x <= 3 no_overlap(m) }")
        .unwrap_err();
    assert_eq!(err.message, "CP construct 'no_overlap' is not allowed in an lp model");
    assert_eq!((err.span.line, err.span.col), (3, 1));
    let err = parse_model_str("@model lp\nmodel t\nconstraints { x + 2 * end_of(a) <= 3 }")
        .unwrap_err();
    assert_eq!(err.message, "CP construct 'end_of' is not allowed in an lp model");
    let err = parse_model_str("@model lp\nmodel t\nminimize -start_of(a)").unwrap_err();
    assert_eq!(err.message, "CP construct 'start_of' is not allowed in an lp model");
    assert_eq!((err.span.line, err.span.col), (3, 1));
}

#[test]
fn lp_model_refuses_interval_attributes_but_cp_and_untagged_accept_them() {
    let src = "model t\nvariables { Interval: a }\ndomains { duration(a) = 3 }\nconstraints { no_overlap(a) }";
    let err = parse_model_str(&format!("@model lp\n{src}")).unwrap_err();
    assert_eq!(err.message, "CP construct 'Interval' is not allowed in an lp model");
    let err = parse_model_str("@model lp\nmodel t\ndomains { duration(a) = 3 }").unwrap_err();
    assert_eq!(err.message, "CP construct 'duration' is not allowed in an lp model");
    assert!(parse_model_str(&format!("@model cp\n{src}")).is_ok());
    assert!(parse_model_str(src).is_ok());
    assert!(parse_model_str("@model lp\nmodel t\nvariables { Real: x }\nminimize 2 * x").is_ok());
}
