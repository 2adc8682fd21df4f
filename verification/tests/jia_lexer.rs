use jia_parse::jia::lexer::{tokenize, TokenKind};
use jia_parse::Span;

#[test]
fn test_basic_tokens() {
    let tokens = tokenize("model foo").unwrap();
    assert_eq!(tokens.len(), 2);
    assert_eq!(tokens[0].kind, TokenKind::Ident("model".to_string()));
    assert_eq!(tokens[1].kind, TokenKind::Ident("foo".to_string()));
}

#[test]
fn test_operators() {
    let tokens = tokenize("<= >= == != < > = ..").unwrap();
    let kinds: Vec<_> = tokens.iter().map(|t| &t.kind).collect();
    assert_eq!(
        kinds,
        vec![
            &TokenKind::Le,
            &TokenKind::Ge,
            &TokenKind::EqEq,
            &TokenKind::Ne,
            &TokenKind::Lt,
            &TokenKind::Gt,
            &TokenKind::Eq,
            &TokenKind::DotDot,
        ]
    );
}

#[test]
fn test_punctuation() {
    let tokens = tokenize("( ) { } [ ] , :").unwrap();
    assert_eq!(tokens.len(), 8);
    assert_eq!(tokens[0].kind, TokenKind::LParen);
    assert_eq!(tokens[1].kind, TokenKind::RParen);
    assert_eq!(tokens[2].kind, TokenKind::LBrace);
    assert_eq!(tokens[3].kind, TokenKind::RBrace);
    assert_eq!(tokens[4].kind, TokenKind::LBracket);
    assert_eq!(tokens[5].kind, TokenKind::RBracket);
    assert_eq!(tokens[6].kind, TokenKind::Comma);
    assert_eq!(tokens[7].kind, TokenKind::Colon);
}

#[test]
fn test_numbers() {
    let tokens = tokenize("42 0 100").unwrap();
    assert_eq!(tokens[0].kind, TokenKind::Number(42));
    assert_eq!(tokens[1].kind, TokenKind::Number(0));
    assert_eq!(tokens[2].kind, TokenKind::Number(100));
}

#[test]
fn test_line_comment() {
    let tokens = tokenize("model foo // this is a comment\nvariables").unwrap();
    assert_eq!(tokens.len(), 3);
    assert_eq!(tokens[0].kind, TokenKind::Ident("model".to_string()));
    assert_eq!(tokens[1].kind, TokenKind::Ident("foo".to_string()));
    assert_eq!(tokens[2].kind, TokenKind::Ident("variables".to_string()));
}

#[test]
fn test_span_tracking() {
    let tokens = tokenize("a\nb").unwrap();
    assert_eq!(tokens[0].span, Span::new(0, 1, 1));
    assert_eq!(tokens[1].span, Span::new(2, 2, 1));
}

#[test]
fn test_arithmetic_operators() {
    let tokens = tokenize("+ - *").unwrap();
    assert_eq!(tokens[0].kind, TokenKind::Plus);
    assert_eq!(tokens[1].kind, TokenKind::Minus);
    assert_eq!(tokens[2].kind, TokenKind::Star);
}

#[test]
fn test_unexpected_char() {
    let err = tokenize("model #foo").unwrap_err();
    assert!(err.message.contains("unexpected character"));
}

#[test]
fn test_float_literals() {
    let tokens = tokenize("3.25 0.5 100.0").unwrap();
    assert_eq!(tokens[0].kind, TokenKind::Float("3.25".to_string()));
    assert_eq!(tokens[1].kind, TokenKind::Float("0.5".to_string()));
    assert_eq!(tokens[2].kind, TokenKind::Float("100".to_string()));
}

#[test]
fn test_integer_followed_by_dotdot_not_float() {
    // "0..10" is Number(0), DotDot, Number(10), not a real
    let tokens = tokenize("0..10").unwrap();
    assert_eq!(tokens[0].kind, TokenKind::Number(0));
    assert_eq!(tokens[1].kind, TokenKind::DotDot);
    assert_eq!(tokens[2].kind, TokenKind::Number(10));
}

#[test]
fn test_slash_operator() {
    let tokens = tokenize("x / 2").unwrap();
    assert_eq!(tokens[1].kind, TokenKind::Slash);
}

#[test]
fn test_slash_vs_comment() {
    // "/" alone is Slash; "//" is a comment
    let tokens = tokenize("x / y // comment").unwrap();
    assert_eq!(tokens.len(), 3);
    assert_eq!(tokens[1].kind, TokenKind::Slash);
}

#[test]
fn test_at_token() {
    let tokens = tokenize("@model lp").unwrap();
    assert_eq!(tokens[0].kind, TokenKind::At);
    assert_eq!(tokens[1].kind, TokenKind::Ident("model".to_string()));
    assert_eq!(tokens[2].kind, TokenKind::Ident("lp".to_string()));
}

#[test]
fn test_integer_overflow_reports_error() {
    let err = tokenize("999999999999999999999999999999999999").unwrap_err();
    assert!(err.message.contains("invalid number literal"));
}

#[test]
fn integer_limits_and_messages() {
    let tokens = tokenize("9223372036854775807").unwrap();
    assert_eq!(tokens[0].kind, TokenKind::Number(i64::MAX));
    let err = tokenize("9223372036854775808").unwrap_err();
    assert_eq!(err.message, "invalid number literal: 9223372036854775808");
    let err = tokenize("x ~").unwrap_err();
    assert_eq!(err.message, "unexpected character: '~'");
    assert_eq!(err.span, Span::new(2, 1, 3));
    let err = tokenize("x.").unwrap_err();
    assert_eq!(err.message, "unexpected character: '.'");
}

#[test]
fn comment_does_not_advance_the_column() {
    let tokens = tokenize("a // c\n  b").unwrap();
    assert_eq!(tokens[1].span, Span::new(9, 2, 3));
    assert_eq!(TokenKind::Float("2.50".to_string()).debug_text(), "Float(2.5)");
    assert_eq!(TokenKind::Number(-4).debug_text(), "Number(-4)");
    assert_eq!(TokenKind::Ident("x".to_string()).debug_text(), "Ident(\"x\")");
}

#[test]
fn spans_follow_the_lines_and_identifiers_keep_their_case() {
    let input = "model Ab\n  x1 // c\n <= 2.5";
    let tokens = tokenize(input).unwrap();
    let spans: Vec<(usize, usize, usize)> =
        tokens.iter().map(|t| (t.span.offset, t.span.line, t.span.col)).collect();
    assert_eq!(spans, vec![(0, 1, 1), (6, 1, 7), (11, 2, 3), (20, 3, 2), (23, 3, 5)]);
    assert_eq!(tokens[1].kind, TokenKind::Ident("Ab".to_string()));
    assert_eq!(&input[6..8], "Ab");
}
