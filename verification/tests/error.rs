use c1_parser::error::{append_decimal, found_name};
use c1_parser::{C1Token, Expected, SyntaxError};

#[test]
fn decimal_numbers() {
    for (n, text) in [
        (0usize, "0"),
        (7, "7"),
        (9, "9"),
        (10, "10"),
        (42, "42"),
        (100, "100"),
        (1234567890, "1234567890"),
        (usize::MAX, "18446744073709551615"),
    ] {
        if usize::MAX as u128 != u64::MAX as u128 && n == usize::MAX {
            continue;
        }
        let mut out = String::from("line ");
        append_decimal(&mut out, n);
        assert_eq!(out, format!("line {}", text));
    }
}

#[test]
fn message_of_an_error() {
    let error = SyntaxError { expected: Expected::Semicolon, found: Some(C1Token::RightBrace), line: 3 };
    assert_eq!(error.message(), "expected ;, got }, line 3");
    let error = SyntaxError { expected: Expected::ClosingBracket, found: None, line: 120 };
    assert_eq!(error.message(), "expected closing bracket, got end of input, line 120");
}

#[test]
fn names_of_the_constructs() {
    assert_eq!(Expected::Type.describe(), "type");
    assert_eq!(Expected::FunctionName.describe(), "function name");
    assert_eq!(Expected::VariableName.describe(), "variable name");
    assert_eq!(Expected::LeftParenthesis.describe(), "(");
    assert_eq!(Expected::RightParenthesis.describe(), ")");
    assert_eq!(Expected::LeftBrace.describe(), "{");
    assert_eq!(Expected::RightBrace.describe(), "}");
    assert_eq!(Expected::Semicolon.describe(), ";");
    assert_eq!(Expected::Assign.describe(), "=");
    assert_eq!(Expected::If.describe(), "if");
    assert_eq!(Expected::Return.describe(), "return");
    assert_eq!(Expected::Printf.describe(), "printf");
    assert_eq!(Expected::ClosingBracket.describe(), "closing bracket");
    assert_eq!(Expected::Statement.describe(), "statement");
    assert_eq!(
        Expected::StatementStart.describe(),
        "if, return, printf, assignment or function call"
    );
    assert_eq!(Expected::AssignmentOrCall.describe(), "assignment or function call");
    assert_eq!(Expected::Factor.describe(), "factor");
}

#[test]
fn names_of_the_tokens() {
    let names = [
        (None, "end of input"),
        (Some(C1Token::Identifier), "identifier"),
        (Some(C1Token::ConstInt), "integer literal"),
        (Some(C1Token::ConstFloat), "float literal"),
        (Some(C1Token::ConstBoolean), "boolean literal"),
        (Some(C1Token::KwInt), "int"),
        (Some(C1Token::KwFloat), "float"),
        (Some(C1Token::KwVoid), "void"),
        (Some(C1Token::KwBoolean), "boolean"),
        (Some(C1Token::KwIf), "if"),
        (Some(C1Token::KwReturn), "return"),
        (Some(C1Token::KwPrintf), "printf"),
        (Some(C1Token::LeftParenthesis), "("),
        (Some(C1Token::RightParenthesis), ")"),
        (Some(C1Token::LeftBrace), "{"),
        (Some(C1Token::RightBrace), "}"),
        (Some(C1Token::Semicolon), ";"),
        (Some(C1Token::Assign), "="),
        (Some(C1Token::Plus), "+"),
        (Some(C1Token::Minus), "-"),
        (Some(C1Token::Asterisk), "*"),
        (Some(C1Token::Slash), "/"),
        (Some(C1Token::And), "&&"),
        (Some(C1Token::Or), "||"),
        (Some(C1Token::Equal), "=="),
        (Some(C1Token::NotEqual), "!="),
        (Some(C1Token::Less), "<"),
        (Some(C1Token::Greater), ">"),
        (Some(C1Token::LessEqual), "<="),
        (Some(C1Token::GreaterEqual), ">="),
        (Some(C1Token::Unknown), "unrecognized input"),
    ];
    for (found, name) in names {
        assert_eq!(found_name(found), name);
    }
}

#[test]
fn type_keywords() {
    for token in [C1Token::KwInt, C1Token::KwFloat, C1Token::KwVoid, C1Token::KwBoolean] {
        assert!(token.type_keyword());
    }
    for token in [C1Token::Identifier, C1Token::KwIf, C1Token::ConstBoolean, C1Token::Unknown] {
        assert!(!token.type_keyword());
    }
}
