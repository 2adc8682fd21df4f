use jia_parse::lexer::{tokenize, TokenKind};

#[test]
fn lexer_test_basic_tokens() {
    let tokens = tokenize("(define (domain test))").unwrap();
    assert_eq!(tokens.len(), 7);
    assert_eq!(tokens[0].kind, TokenKind::LParen);
    assert!(tokens[1].symbol_eq("define"));
    assert_eq!(tokens[2].kind, TokenKind::LParen);
    assert!(tokens[3].symbol_eq("domain"));
    assert!(tokens[4].symbol_eq("test"));
    assert_eq!(tokens[5].kind, TokenKind::RParen);
    assert_eq!(tokens[6].kind, TokenKind::RParen);
}

#[test]
fn test_keywords_and_variables() {
    let tokens = tokenize("(:requirements :typing) (?x - type1)").unwrap();
    assert!(tokens[1].keyword_eq("requirements"));
    assert!(tokens[2].keyword_eq("typing"));
    assert!(tokens[5].variable_eq("?x"));
}

#[test]
fn lexer_test_numbers() {
    // (  =  (  f  )  3.57  ) => 7 tokens
    let tokens = tokenize("(= (f) 3.57)").unwrap();
    assert_eq!(tokens.len(), 7);
    assert_eq!(tokens[5].kind, TokenKind::Number("3.57".to_string()));
}

#[test]
fn test_comments_skipped() {
    let tokens = tokenize("; comment\n(define)").unwrap();
    assert_eq!(tokens.len(), 3);
    assert_eq!(tokens[0].kind, TokenKind::LParen);
}

#[test]
fn test_negative_symbol() {
    let tokens = tokenize("(- 3 2)").unwrap();
    assert!(tokens[1].symbol_eq("-"));
    assert_eq!(tokens[2].kind, TokenKind::Number("3".to_string()));
}

#[test]
fn test_strings_with_newlines_symbols_hash_and_unexpected_char() {
    let tokens = tokenize("\"line one\nline two\" #tag").unwrap();
    assert_eq!(
        tokens[0].kind,
        TokenKind::Symbol("line one\nline two".to_string())
    );
    assert!(tokens[1].symbol_eq("#tag"));

    let err = tokenize("@").unwrap_err();
    assert!(err.message.contains("unexpected character"));
}

#[test]
fn keywords_variables_and_symbols_are_lowercased() {
    let tokens = tokenize("(:Requirements ?X Foo-Bar)").unwrap();
    assert_eq!(tokens[1].kind, TokenKind::Keyword("requirements".to_string()));
    assert_eq!(tokens[2].kind, TokenKind::Variable("?x".to_string()));
    assert_eq!(tokens[3].kind, TokenKind::Symbol("foo-bar".to_string()));
    assert!(tokens[3].symbol_eq("FOO-BAR"));
}

#[test]
fn quoted_text_is_lowercased() {
    let tokens = tokenize("\"Mixed Case\"").unwrap();
    assert_eq!(tokens[0].kind, TokenKind::Symbol("mixed case".to_string()));
}

#[test]
fn number_with_two_dots_is_rejected() {
    let err = tokenize("(= (f) 1.2.3)").unwrap_err();
    assert_eq!(err.message, "invalid number: 1.2.3");
    assert_eq!(err.span.col, 8);
}

#[test]
fn leading_dot_number_and_spans() {
    let tokens = tokenize("(a\n .5)").unwrap();
    assert_eq!(tokens[2].kind, TokenKind::Number("0.5".to_string()));
    assert_eq!(tokens[2].span.line, 2);
    assert_eq!(tokens[2].span.col, 2);
    assert_eq!(tokens[2].span.offset, 4);
}

#[test]
fn unexpected_character_message_and_debug_text() {
    let err = tokenize("(a ! b)").unwrap_err();
    assert_eq!(err.message, "unexpected character: '!'");
    assert_eq!(err.to_string(), "parse error at 1:4: unexpected character: '!'");
    assert_eq!(TokenKind::Number("3".to_string()).debug_text(), "Number(3.0)");
    assert_eq!(TokenKind::Symbol("and".to_string()).debug_text(), "Symbol(\"and\")");
    assert_eq!(TokenKind::LParen.debug_text(), "LParen");
}

#[test]
fn symbol_byte_classes() {
    assert!(jia_parse::lexer::is_symbol_start(b'a'));
    assert!(jia_parse::lexer::is_symbol_start(b'#'));
    assert!(!jia_parse::lexer::is_symbol_start(b'1'));
    assert!(jia_parse::lexer::is_symbol_char(b'1'));
    assert!(jia_parse::lexer::is_symbol_char(b'.'));
    assert!(!jia_parse::lexer::is_symbol_char(b'('));
}

#[test]
fn quoted_text_keeps_multibyte_characters() {
    let tokens = tokenize("\"Café ü\"").unwrap();
    assert_eq!(tokens[0].kind, TokenKind::Symbol("café ü".to_string()));
    assert_eq!(TokenKind::Symbol("a\"b".to_string()).debug_text(), "Symbol(\"a\\\"b\")");
}

#[test]
fn spans_follow_the_lines_of_the_input() {
    let input = "(a ;c\n  :K \"x\ny\" ?v)";
    let tokens = tokenize(input).unwrap();
    let spans: Vec<(usize, usize, usize)> =
        tokens.iter().map(|t| (t.span.offset, t.span.line, t.span.col)).collect();
    assert_eq!(spans, vec![(0, 1, 1), (1, 1, 2), (8, 2, 3), (11, 2, 6), (17, 3, 4), (19, 3, 6)]);
    for t in &tokens {
        let b = input.as_bytes()[t.span.offset];
        match t.kind {
            TokenKind::LParen => assert_eq!(b, b'('),
            TokenKind::RParen => assert_eq!(b, b')'),
            TokenKind::Keyword(_) => assert_eq!(b, b':'),
            TokenKind::Variable(_) => assert_eq!(b, b'?'),
            _ => {}
        }
    }
}

#[test]
fn equal_values_give_equal_number_tokens() {
    let a = tokenize("3 3.0 03.00 2.50").unwrap();
    assert_eq!(a[0].kind, TokenKind::Number("3".to_string()));
    assert_eq!(a[0].kind, a[1].kind);
    assert_eq!(a[1].kind, a[2].kind);
    assert_eq!(a[3].kind, TokenKind::Number("2.5".to_string()));
    assert_eq!(a[1].kind.debug_text(), "Number(3.0)");
}
