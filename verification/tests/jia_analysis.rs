use jia_parse::jia::analysis::{
    _collect_expr_names, append_domain_summary, build_symbol_table, format_domain,
    token_at_position, token_text_len, SymbolMap, SymbolTable,
};
use jia_parse::jia::ast::{
    ArithOp, CmpOp, Domain, DomainStmt, Expr, JiaModel, RealBound, VarDecl, VarType,
};
use jia_parse::jia::lexer::{tokenize, Token, TokenKind};
use jia_parse::jia::parser::parse_model;
use jia_parse::Span;

fn build_table(input: &str) -> (JiaModel, SymbolTable) {
    let tokens = tokenize(input).unwrap();
    let model = parse_model(&tokens).unwrap();
    let table = build_symbol_table(&model, &tokens);
    (model, table)
}

#[test]
fn test_basic_symbol_table() {
    let input = r#"
model test
variables {
  Interval: a, b
  Integer: x
}
domains {
  duration(a) = 3
  x in 0..10
}
constraints {
  end_of(a) <= start_of(b)
  end_of(b) <= x
}
"#;
    let (_model, table) = build_table(input);

    // Every variable is in the table.
    assert!(table.symbols.contains_key("a"));
    assert!(table.symbols.contains_key("b"));
    assert!(table.symbols.contains_key("x"));

    // Types.
    assert_eq!(table.symbols.get("a").unwrap().var_type, VarType::Interval);
    assert_eq!(table.symbols.get("b").unwrap().var_type, VarType::Interval);
    assert_eq!(table.symbols.get("x").unwrap().var_type, VarType::Integer);

    // 'a' is referred to in duration(a) and end_of(a)
    assert_eq!(table.symbols.get("a").unwrap().ref_spans.len(), 2);
    // 'b' is referred to in start_of(b) and end_of(b)
    assert_eq!(table.symbols.get("b").unwrap().ref_spans.len(), 2);
    // 'x' is referred to in x in 0..10 and end_of(b) <= x
    assert_eq!(table.symbols.get("x").unwrap().ref_spans.len(), 2);

    // Domain summaries.
    assert_eq!(
        table.symbols.get("a").unwrap().domain_summary.as_deref(),
        Some("duration = 3")
    );
    assert_eq!(
        table.symbols.get("x").unwrap().domain_summary.as_deref(),
        Some("in 0..10")
    );
    assert!(table.symbols.get("b").unwrap().domain_summary.is_none());
}

#[test]
fn test_decl_span_points_to_variables_block() {
    let input = "model t\nvariables { Interval: task }\nconstraints { end_of(task) <= 10 }";
    let (_model, table) = build_table(input);

    let info = table.symbols.get("task").unwrap();
    // 'task' is declared on line 2 (the variables line).
    assert_eq!(info.decl_span.line, 2);
    // Referred to once in constraints.
    assert_eq!(info.ref_spans.len(), 1);
    assert_eq!(info.ref_spans[0].line, 3);
}

#[test]
fn test_token_at_position() {
    let input = "model test";
    let tokens = tokenize(input).unwrap();
    // 'model' is at line 0, col 0 (both 0-based).
    let tok = token_at_position(&tokens, 0, 0).unwrap();
    assert_eq!(tok.kind, TokenKind::Ident("model".to_string()));

    // 'test' is at line 0, col 6.
    let tok = token_at_position(&tokens, 0, 6).unwrap();
    assert_eq!(tok.kind, TokenKind::Ident("test".to_string()));

    // Nothing at col 5 (a space).
    assert!(token_at_position(&tokens, 0, 5).is_none());
    assert!(token_at_position(&tokens, 1, 0).is_none());
}

#[test]
fn test_token_text_len() {
    let tokens = tokenize("model 42 <= ..").unwrap();
    assert_eq!(token_text_len(&tokens[0]), 5); // "model"
    assert_eq!(token_text_len(&tokens[1]), 2); // "42"
    assert_eq!(token_text_len(&tokens[2]), 2); // "<="
    assert_eq!(token_text_len(&tokens[3]), 2); // ".."

    assert_eq!(
        token_text_len(&Token {
            kind: TokenKind::Number(0),
            span: Span::new(0, 1, 1)
        }),
        1
    );
    assert_eq!(
        token_text_len(&Token {
            kind: TokenKind::Number(-123),
            span: Span::new(0, 1, 1)
        }),
        4
    );
    assert_eq!(
        token_text_len(&Token {
            kind: TokenKind::Float("12.5".to_string()),
            span: Span::new(0, 1, 1)
        }),
        4
    );
}

#[test]
fn test_domain_summary_multiple_entries() {
    let input = r#"
model test
variables { Interval: a }
domains {
  duration(a) = 5
  start(a) in 0..10
  optional(a)
}
"#;
    let (_model, table) = build_table(input);
    let summary = table.symbols.get("a").unwrap().domain_summary.as_deref().unwrap();
    assert!(summary.contains("duration = 5"));
    assert!(summary.contains("start in 0..10"));
    assert!(summary.contains("optional"));
}

#[test]
fn test_set_domain_summary() {
    let input = r#"
model test
variables {
  Interval: t1, t2
  Set[Interval]: machine
}
domains {
  machine = {t1, t2}
}
"#;
    let (_model, table) = build_table(input);
    let summary = table.symbols.get("machine").unwrap().domain_summary.as_deref().unwrap();
    assert_eq!(summary, "members: {t1, t2}");
}

#[test]
fn test_demand_summary() {
    let input = r#"
model test
variables {
  Interval: a
  Set[Interval]: res
}
domains {
  res = {a}
  demand(a, res) = 3
}
"#;
    let (_model, table) = build_table(input);
    let summary = table.symbols.get("a").unwrap().domain_summary.as_deref().unwrap();
    assert!(summary.contains("demand(res) = 3"));
}

#[test]
fn test_real_domain_summary_and_missing_append_target() {
    let mut symbols = SymbolMap::new();
    append_domain_summary(&mut symbols, "missing", "ignored");

    let input = r#"
model test
variables { Real: rate, slack }
domains {
  rate in 1.5..3.5
  slack in -inf..inf
}
"#;
    let (_model, table) = build_table(input);
    assert_eq!(
        table.symbols.get("rate").unwrap().domain_summary.as_deref(),
        Some("in 1.5..3.5")
    );
    assert_eq!(
        table.symbols.get("slack").unwrap().domain_summary.as_deref(),
        Some("in -inf..inf")
    );

    let tokens = tokenize("model manual\nvariables { Real: exact }").unwrap();
    let model = JiaModel {
        model_type: None,
        name: "manual".to_string(),
        variables: vec![VarDecl {
            names: vec!["exact".to_string()],
            var_type: VarType::Real,
        }],
        domains: vec![DomainStmt::RealDomain {
            name: "exact".to_string(),
            domain: Domain::RealFixed("2.25".to_string()),
        }],
        constraints: Vec::new(),
        objective: None,
    };
    let table = build_symbol_table(&model, &tokens);
    assert_eq!(
        table.symbols.get("exact").unwrap().domain_summary.as_deref(),
        Some("real = 2.25")
    );
}

#[test]
fn test_collect_expr_names() {
    let expr = Expr::BinaryOp {
        op: ArithOp::Add,
        left: Box::new(Expr::BinaryOp {
            op: ArithOp::Sub,
            left: Box::new(Expr::StartOf("a".to_string())),
            right: Box::new(Expr::Negate(Box::new(Expr::EndOf("b".to_string())))),
        }),
        right: Box::new(Expr::BinaryOp {
            op: ArithOp::Mul,
            left: Box::new(Expr::DurationOf("c".to_string())),
            right: Box::new(Expr::BinaryOp {
                op: ArithOp::Div,
                left: Box::new(Expr::PresentOf("d".to_string())),
                right: Box::new(Expr::Var("e".to_string())),
            }),
        }),
    };
    let mut names = Vec::new();
    _collect_expr_names(&expr, &mut names);
    assert_eq!(names, ["a", "b", "c", "d", "e"]);

    _collect_expr_names(&Expr::Number(1), &mut names);
    _collect_expr_names(&Expr::Float("1.5".to_string()), &mut names);
    assert_eq!(names, ["a", "b", "c", "d", "e"]);
}

#[test]
fn written_forms_of_types_and_operators() {
    assert_eq!(VarType::Interval.to_string(), "Interval");
    assert_eq!(VarType::Integer.to_string(), "Integer");
    assert_eq!(VarType::Real.to_string(), "Real");
    assert_eq!(VarType::SetInterval.to_string(), "Set[Interval]");
    assert_eq!(VarType::SetInteger.to_string(), "Set[Integer]");
    assert_eq!(CmpOp::Lt.to_string(), "<");
    assert_eq!(CmpOp::Le.to_string(), "<=");
    assert_eq!(CmpOp::Gt.to_string(), ">");
    assert_eq!(CmpOp::Ge.to_string(), ">=");
    assert_eq!(CmpOp::Eq.to_string(), "==");
    assert_eq!(CmpOp::Ne.to_string(), "!=");
    assert_eq!(ArithOp::Add.to_string(), "+");
    assert_eq!(ArithOp::Sub.to_string(), "-");
    assert_eq!(ArithOp::Mul.to_string(), "*");
    assert_eq!(ArithOp::Div.to_string(), "/");
}

#[test]
fn domain_descriptions() {
    assert_eq!(format_domain(&Domain::Fixed(-3)), "= -3");
    assert_eq!(format_domain(&Domain::Range { min: -1, max: 9 }), "in -1..9");
    assert_eq!(format_domain(&Domain::Enumerated(vec![1, 3, 5])), "in {1, 3, 5}");
    assert_eq!(format_domain(&Domain::RealFixed("2.50".to_string())), "= 2.5");
    assert_eq!(
        format_domain(&Domain::RealRange {
            min: RealBound::Finite { negative: true, text: "0.0".to_string() },
            max: RealBound::Infinite { negative: false },
        }),
        "in -0..inf"
    );
}

#[test]
fn entries_only_for_declared_names_that_occur() {
    let input = "model m variables { Integer: x, unused Real: x } constraints { x <= y }";
    let (_model, table) = build_table(input);
    assert_eq!(table.symbols.len(), 2);
    // the later declaration of x decides its type
    assert_eq!(table.symbols.get("x").unwrap().var_type, VarType::Real);
    // the first occurrence in the variables block is the declaration
    assert_eq!(table.symbols.get("x").unwrap().decl_span.offset, 29);
    assert!(table.symbols.contains_key("unused"));
    assert!(!table.symbols.contains_key("y"));
    assert!(!table.symbols.contains_key("m"));
}

#[test]
fn declaration_span_is_first_occurrence_in_the_variables_block() {
    let input = "model t\nvariables {\n Integer: x\n Real: x\n}\nconstraints { x <= 3 }";
    let (_model, table) = build_table(input);
    let info = table.symbols.get("x").unwrap();
    assert_eq!(info.decl_span.line, 3);
    assert_eq!(info.var_type, VarType::Real);
    assert_eq!(info.ref_spans.len(), 1);
    assert_eq!(info.ref_spans[0].line, 6);
}

#[test]
fn summary_joins_descriptions_in_statement_order() {
    let input = "model t\nvariables { Interval: a, b Set[Interval]: res }\ndomains {\n  duration(a, b, a) = 5\n  start(b) in 0..10\n  res = {a}\n  demand(a, res) = 3\n}";
    let (_model, table) = build_table(input);
    assert_eq!(
        table.symbols.get("a").unwrap().domain_summary.as_deref(),
        Some("duration = 5, duration = 5, demand(res) = 3")
    );
    assert_eq!(
        table.symbols.get("b").unwrap().domain_summary.as_deref(),
        Some("duration = 5, start in 0..10")
    );
    assert_eq!(table.symbols.get("res").unwrap().domain_summary.as_deref(), Some("members: {a}"));
}

#[test]
fn references_are_the_occurrences_outside_the_variables_block_in_order() {
    let input = "model t\nvariables { Integer: x }\nconstraints { x <= 3 x >= 1 }\nminimize x";
    let (_model, table) = build_table(input);
    let info = table.symbols.get("x").unwrap();
    assert_eq!((info.decl_span.line, info.decl_span.col), (2, 22));
    let refs: Vec<(usize, usize)> = info.ref_spans.iter().map(|s| (s.line, s.col)).collect();
    assert_eq!(refs, vec![(3, 15), (3, 22), (4, 10)]);
}
