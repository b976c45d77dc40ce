use pascal_frontend::number::{holds_point, is_real, parse_integer};
use pascal_frontend::semantic_error::{SemanticError, SemanticErrorKind};
use pascal_frontend::text::{chars_of, contains_text, decimal, join3, text_of};
use pascal_frontend::token::{Token, TokenType};

#[test]
fn whole_numbers() {
    assert_eq!(parse_integer("0"), Some(0));
    assert_eq!(parse_integer("007"), Some(7));
    assert_eq!(parse_integer("1234567890"), Some(1234567890));
    assert_eq!(parse_integer("+15"), Some(15));
    assert_eq!(parse_integer("-15"), Some(-15));
    assert_eq!(parse_integer("9223372036854775807"), Some(i64::MAX));
    assert_eq!(parse_integer("-9223372036854775808"), Some(i64::MIN));
    assert_eq!(parse_integer("9223372036854775808"), None);
    assert_eq!(parse_integer("-9223372036854775809"), None);
    assert_eq!(parse_integer("99999999999999999999999999"), None);
    assert_eq!(parse_integer(""), None);
    assert_eq!(parse_integer("-"), None);
    assert_eq!(parse_integer("+"), None);
    assert_eq!(parse_integer("12a"), None);
    assert_eq!(parse_integer("1.5"), None);
    assert_eq!(parse_integer(" 1"), None);
    assert_eq!(parse_integer("--1"), None);
}

#[test]
fn whole_numbers_agree_with_the_standard_reading() {
    for text in ["0", "5", "+5", "-5", "0012", "9223372036854775807", "9223372036854775808", "x", ""] {
        assert_eq!(parse_integer(text), text.parse::<i64>().ok());
    }
}

#[test]
fn real_numbers() {
    for text in ["1.5", "0.0", "123.456", "1.", ".5", "+1.5", "-.5", "-7.", "1.5e3", "1.5E3", "1.e5", ".5e-2", "2.5E+10", "00.00"] {
        assert!(is_real(text), "{}", text);
    }
    for text in [".", "+.", "-.", "15", "1e5", "1.2.3", "1.a", "a.1", "", "1.5e", "1.5e+", "1.5e-", "1.5e3.", "1.5f", " 1.5", "1.5 ", "1..5", "e.5", "1.5e3x", "++1.5", "inf.", "1,5"] {
        assert!(!is_real(text), "{}", text);
    }
    assert!(holds_point("1.5"));
    assert!(holds_point("."));
    assert!(!holds_point("15"));
    assert!(!holds_point(""));
}

#[test]
fn real_numbers_agree_with_the_standard_reading() {
    let pieces = ["", "+", "-", "0", "7", "12", ".", "e", "E", "e+", "E-", "x", " ", "..", "e5", "1e", "inf", "nan"];
    let mut count: usize = 0;
    for a in pieces {
        for b in pieces {
            for c in pieces {
                for d in pieces {
                    let text = format!("{}{}{}{}", a, b, c, d);
                    if text.contains('.') {
                        assert_eq!(is_real(&text), text.parse::<f64>().is_ok(), "{:?}", text);
                        count += 1;
                    }
                }
            }
        }
    }
    assert!(count > 10000);
}

#[test]
fn numbers_in_decimal() {
    assert_eq!(decimal(0), "0");
    assert_eq!(decimal(9), "9");
    assert_eq!(decimal(10), "10");
    assert_eq!(decimal(1203), "1203");
    assert_eq!(decimal(usize::MAX), usize::MAX.to_string());
}

#[test]
fn texts() {
    assert_eq!(chars_of("héllo"), vec!['h', 'é', 'l', 'l', 'o']);
    assert!(chars_of("").is_empty());
    let chars = vec!['a', 'b', 'c', 'd'];
    assert_eq!(text_of(&chars, 1, 3), "bc");
    assert_eq!(text_of(&chars, 0, 4), "abcd");
    assert_eq!(text_of(&chars, 2, 2), "");
    assert_eq!(join3("a", "", "bc"), "abc");
    let list = vec!["satu".to_string(), "dua".to_string()];
    assert!(contains_text(&list, "dua"));
    assert!(!contains_text(&list, "du"));
    assert!(!contains_text(&list, "tiga"));
    assert!(!contains_text(&Vec::new(), ""));
}

#[test]
fn tokens_compare_by_kind_and_text() {
    let token = Token { token_type: TokenType::Keyword, value: "jika".to_string() };
    assert!(token.is(TokenType::Keyword, "jika"));
    assert!(!token.is(TokenType::Identifier, "jika"));
    assert!(!token.is(TokenType::Keyword, "jik"));
    let copy = token.clone();
    assert_eq!(copy.token_type, TokenType::Keyword);
    assert_eq!(copy.value, "jika");
}

#[test]
fn every_kind_of_diagnostic_has_its_sentence() {
    let name = || "x".to_string();
    let cases = vec![
        (SemanticErrorKind::UndeclaredIdentifier(name()), "Undeclared identifier 'x'"),
        (
            SemanticErrorKind::RedeclaredIdentifier(name()),
            "Identifier 'x' is already declared in this scope",
        ),
        (
            SemanticErrorKind::TypeMismatch { expected: "real".to_string(), found: "char".to_string() },
            "Type mismatch: expected real, found char",
        ),
        (
            SemanticErrorKind::InvalidOperation { op: "+".to_string(), types: "a and b".to_string() },
            "Invalid operation '+' for types a and b",
        ),
        (
            SemanticErrorKind::WrongParameterCount { expected: 2, found: 13 },
            "Wrong number of parameters: expected 2, found 13",
        ),
        (SemanticErrorKind::NotCallable(name()), "'x' is not a procedure or function"),
        (SemanticErrorKind::NotAssignable(name()), "Cannot assign to 'x'"),
        (
            SemanticErrorKind::InvalidArrayBounds,
            "Invalid array bounds: lower bound must be less than or equal to upper bound",
        ),
        (SemanticErrorKind::InvalidLoopVariable, "Loop variable must be of integer type"),
        (SemanticErrorKind::ConditionNotBoolean, "Condition must be of boolean type"),
    ];
    for (kind, sentence) in cases {
        let error = SemanticError::new(kind, None);
        assert_eq!(error.message, sentence);
        assert!(error.token.is_none());
    }
}

#[test]
fn the_short_ways_to_make_a_diagnostic() {
    let token = Token { token_type: TokenType::Identifier, value: "x".to_string() };
    let e = SemanticError::undeclared("x".to_string(), Some(token));
    assert!(matches!(&e.kind, SemanticErrorKind::UndeclaredIdentifier(n) if n == "x"));
    assert_eq!(e.message, "Undeclared identifier 'x'");
    assert_eq!(e.token.as_ref().unwrap().value, "x");
    let copy = e.clone();
    assert_eq!(copy.message, e.message);
    assert_eq!(copy.token.unwrap().token_type, TokenType::Identifier);
    let e = SemanticError::redeclared("y".to_string(), None);
    assert!(matches!(&e.kind, SemanticErrorKind::RedeclaredIdentifier(n) if n == "y"));
    assert_eq!(e.message, "Identifier 'y' is already declared in this scope");
    let e = SemanticError::type_mismatch("integer".to_string(), "real".to_string(), None);
    assert!(matches!(
        &e.kind,
        SemanticErrorKind::TypeMismatch { expected, found } if expected == "integer" && found == "real"
    ));
    assert_eq!(e.message, "Type mismatch: expected integer, found real");
    let e = SemanticError::invalid_operation("dan".to_string(), "integer and real".to_string(), None);
    assert!(matches!(
        &e.kind,
        SemanticErrorKind::InvalidOperation { op, types } if op == "dan" && types == "integer and real"
    ));
    assert_eq!(e.message, "Invalid operation 'dan' for types integer and real");
}
