use frontend::error::{ErrorKind, ParserError};
use frontend::text::{is_float_lexeme, line_of, parse_int, push_decimal, push_signed_decimal};
use frontend::token::{kind_name, Token, TokenType};

#[test]
fn decimal_numerals() {
    let mut out = String::from("n=");
    push_decimal(&mut out, 0);
    assert_eq!(out, "n=0");
    let mut out = String::new();
    push_decimal(&mut out, 18446744073709551615);
    assert_eq!(out, "18446744073709551615");
    let mut out = String::new();
    push_decimal(&mut out, 1000);
    push_signed_decimal(&mut out, -7);
    push_signed_decimal(&mut out, 42);
    assert_eq!(out, "1000-742");
    let mut out = String::new();
    push_signed_decimal(&mut out, i64::MIN);
    assert_eq!(out, "-9223372036854775808");
    let mut out = String::new();
    push_signed_decimal(&mut out, i64::MAX);
    assert_eq!(out, "9223372036854775807");
}

#[test]
fn integers_from_lexemes() {
    assert_eq!(parse_int("0"), Some(0));
    assert_eq!(parse_int("007"), Some(7));
    assert_eq!(parse_int("+15"), Some(15));
    assert_eq!(parse_int("-15"), Some(-15));
    assert_eq!(parse_int("-0"), Some(0));
    assert_eq!(parse_int("9223372036854775807"), Some(i64::MAX));
    assert_eq!(parse_int("9223372036854775808"), None);
    assert_eq!(parse_int("-9223372036854775808"), Some(i64::MIN));
    assert_eq!(parse_int("-9223372036854775809"), None);
    assert_eq!(parse_int("123456789012345678901234567890"), None);
    assert_eq!(parse_int(""), None);
    assert_eq!(parse_int("-"), None);
    assert_eq!(parse_int("+"), None);
    assert_eq!(parse_int("1 "), None);
    assert_eq!(parse_int(" 1"), None);
    assert_eq!(parse_int("1_000"), None);
    assert_eq!(parse_int("--1"), None);
    assert_eq!(parse_int("12a"), None);
    assert_eq!(parse_int("٣"), None);
    for text in ["0", "-1", "+9", "x", "", "99999999999999999999", "-9223372036854775808"] {
        assert_eq!(parse_int(text), text.parse::<i64>().ok());
    }
}

#[test]
fn floats_from_lexemes() {
    let valid = [
        "3.14", "-3.14", "2.5E10", "2.5e10", "2.5E-10", "5.", ".5", "0.5", "7", "007", "inf", "-inf",
        "+infinity", "NaN", "nan", "INF", "Infinity", "1e5", "1.e5", ".5e+3", "+.5", "1e0",
    ];
    for text in valid {
        assert!(is_float_lexeme(text), "{}", text);
        assert!(text.parse::<f64>().is_ok(), "{}", text);
    }
    let invalid = [
        "", ".", "+", "-", "e5", "1e", "1e+", "1.2.3", "1 ", " 1", "1f", "in", "infinit", "nanx",
        "1e5.0", "--1", "0x10", "1_0", ".e1", "+-1", "infinityy",
    ];
    for text in invalid {
        assert!(!is_float_lexeme(text), "{}", text);
        assert!(text.parse::<f64>().is_err(), "{}", text);
    }
}

#[test]
fn lines_of_a_source() {
    let source = "first\nsecond\n\nfourth";
    assert_eq!(line_of(source, 0), "first");
    assert_eq!(line_of(source, 1), "second");
    assert_eq!(line_of(source, 2), "");
    assert_eq!(line_of(source, 3), "fourth");
    assert_eq!(line_of(source, 4), "");
    assert_eq!(line_of("", 0), "");
    assert_eq!(line_of("a\n", 1), "");
    assert_eq!(line_of("é\nü", 1), "ü");
    for (n, line) in source.split("\n").enumerate() {
        assert_eq!(line_of(source, n), line);
    }
}

#[test]
fn error_headline() {
    let error = ParserError::new("expected ')'", 3, 14);
    assert_eq!(error.format("main.x"), "main.x:3:14 error: expected ')'");
    assert_eq!((error.line, error.col), (3, 14));
    let error = ParserError::new("", 0, 18446744073709551615);
    assert_eq!(error.format(""), ":0:18446744073709551615 error: ");
    assert_eq!(error.clone(), error);
}

#[test]
fn error_messages() {
    assert_eq!(ErrorKind::AssignmentAsValue.message(), "assignment value should not be assignment");
    assert_eq!(
        ErrorKind::InvalidObjectPattern.message(),
        "expected variable names or _ for object values"
    );
    assert_eq!(ErrorKind::InvalidListPattern.message(), "expected variable names or _ for elements");
    assert_eq!(ErrorKind::InvalidAssignmentTarget.message(), "invalid assignment target");
    assert_eq!(ErrorKind::ExpectedVariable.message(), "expected a variable");
    assert_eq!(ErrorKind::InvalidNumber.message(), "invalid number");
    assert_eq!(ErrorKind::ExpectedRParen.message(), "expected ')'");
    assert_eq!(ErrorKind::ExpectedRBracket.message(), "expected ']'");
    assert_eq!(
        ErrorKind::UnexpectedEndInBraces.message(),
        "unexpected end of input inside block or object"
    );
    assert_eq!(ErrorKind::ExpectedIdentifier.message(), "expected an identifier");
    assert_eq!(ErrorKind::ExpectedColon.message(), "expected ':'");
    assert_eq!(ErrorKind::ExpectedRBrace.message(), "expected '}'");
    assert_eq!(ErrorKind::ExpectedLBracket.message(), "expected '['");
    assert_eq!(ErrorKind::ExpectedLBrace.message(), "expected '{'");
    assert_eq!(ErrorKind::ExpectedArrow.message(), "expected '->'");
    assert_eq!(
        ErrorKind::MacroAlreadyDefined.message(),
        "macro with the same name is already defined"
    );
    assert_eq!(ErrorKind::MacroNotDefined.message(), "macro with the same name is not defined");
    assert_eq!(ErrorKind::MacroUndefined.message(), "macro undefined");
    assert_eq!(ErrorKind::UnexpectedToken.message(), "unexpected token");
    assert_eq!(ErrorKind::ExpectedFunc.message(), "expected 'func'");
    assert_eq!(ErrorKind::ExpectedFunctionName.message(), "expected function name");
    assert_eq!(ErrorKind::ExpectedLParen.message(), "expected '('");
    assert_eq!(
        ErrorKind::ParameterAfterRest.message(),
        "required parameter cannot follow rest parameter"
    );
}

#[test]
fn tokens_in_print() {
    assert_eq!(Token::new(TokenType::Id, "name".to_string(), 1, 1).print(), "name");
    assert_eq!(Token::new(TokenType::Plus, "+".to_string(), 1, 1).print(), "Plus");
    assert_eq!(Token::new(TokenType::Underscore, "_".to_string(), 1, 1).print(), "Underscore");
    assert_eq!(Token::new(TokenType::Str, "text".to_string(), 1, 1).print(), "Str");
    assert_eq!(kind_name(TokenType::EOF), "EOF");
    assert_eq!(kind_name(TokenType::MinusGT), "MinusGT");
    assert_eq!(format!("{:?}", TokenType::LTilde), kind_name(TokenType::LTilde));
    let token = Token::new(TokenType::Atom, "a".to_string(), 4, 5);
    assert_eq!(token.clone(), token);
    assert_eq!((token.kind, token.line, token.col), (TokenType::Atom, 4, 5));
}
