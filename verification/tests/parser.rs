use c1_parser::{C1Lexer, C1Parser, C1Token, Expected, ParseResult, SyntaxError};

fn failure(text: &str) -> SyntaxError {
    match C1Parser::syntax_check(text) {
        Ok(()) => panic!("accepted: {}", text),
        Err(error) => error,
    }
}

fn message(text: &str) -> String {
    match C1Parser::parse(text) {
        Ok(()) => panic!("accepted: {}", text),
        Err(message) => message,
    }
}

#[test]
fn run_example() {
    let text = "// a small program\n\
                int limit() {\n\
                    return 10 * (2 + 3);\n\
                }\n\
                \n\
                /* prints what it\n   computes */\n\
                void main() {\n\
                    a = b = limit() - 1;\n\
                    if ((a >= 49.5e-1) && (b != 0) || false) {\n\
                        printf(a / 2);\n\
                        { done(); }\n\
                    }\n\
                    if (-a < b) return;\n\
                    return a == b;\n\
                }\n";
    let mut lexer = C1Lexer::new(text);
    let mut count = 0;
    while let Some(token) = lexer.current_token() {
        println!("{:?}", token);
        lexer.eat();
        count += 1;
    }
    assert_eq!(count, 76);
    let result = C1Parser::parse(text);
    assert!(result.is_ok(), "Parse result: {}", result.err().unwrap());
}

#[test]
fn accepts_minimal_main() {
    assert_eq!(C1Parser::parse("int main(){return 0;}"), Ok(()));
}

#[test]
fn accepts_if_with_block() {
    assert_eq!(C1Parser::parse("int f(){if(1>0){printf(1);}}"), Ok(()));
}

#[test]
fn accepts_chained_assignment() {
    assert_eq!(C1Parser::parse("int main(){a=b=1;}"), Ok(()));
    assert_eq!(C1Parser::parse("int main(){a=b=c=d+1;}"), Ok(()));
}

#[test]
fn missing_semicolon_is_reported_at_the_brace() {
    let error = failure("int main(){a=1}");
    assert_eq!(
        error,
        SyntaxError { expected: Expected::Semicolon, found: Some(C1Token::RightBrace), line: 1 }
    );
    assert_eq!(message("int main(){a=1}"), "expected ;, got }, line 1");
    let error = failure("int main(){\n  a=1\n}\n");
    assert_eq!(
        error,
        SyntaxError { expected: Expected::Semicolon, found: Some(C1Token::RightBrace), line: 3 }
    );
}

#[test]
fn missing_closing_bracket_is_reported_at_the_end() {
    let error = failure("int main(){");
    assert_eq!(error, SyntaxError { expected: Expected::ClosingBracket, found: None, line: 1 });
    assert_eq!(message("int main(){"), "expected closing bracket, got end of input, line 1");
}

#[test]
fn accepts_return_without_value() {
    assert_eq!(C1Parser::parse("boolean f(){return;}"), Ok(()));
}

#[test]
fn accepts_empty_input() {
    assert_eq!(C1Parser::parse(""), Ok(()));
    assert_eq!(C1Parser::syntax_check(""), Ok(()));
}

#[test]
fn accepts_input_without_tokens() {
    assert_eq!(C1Parser::parse(" \t\r\n// nothing here\n/* nor\n here */\n"), Ok(()));
}

#[test]
fn parse_is_deterministic() {
    let texts = ["int main(){return 0;}", "int main(){a=1}", "int main(){", "", "float 1"];
    for text in texts {
        let first: ParseResult = C1Parser::parse(text);
        let second: ParseResult = C1Parser::parse(text);
        assert_eq!(first, second);
        assert_eq!(C1Parser::syntax_check(text), C1Parser::syntax_check(text));
    }
}

#[test]
fn accepts_several_functions() {
    assert_eq!(C1Parser::parse("int f(){} float g(){} void h(){} boolean k(){}"), Ok(()));
}

#[test]
fn nested_empty_blocks() {
    assert_eq!(C1Parser::parse("void f(){ { { } } }"), Ok(()));
    assert_eq!(C1Parser::parse("void f(){ { } { } { { } { } } }"), Ok(()));
}

#[test]
fn statement_list_leaves_the_closing_brace() {
    // The inner list stops in front of the first `}`, the outer one in
    // front of the second; the third is missing.
    let error = failure("void f(){ { a = 1; }");
    assert_eq!(error, SyntaxError { expected: Expected::ClosingBracket, found: None, line: 1 });
    // One `}` too many: the list of functions goes on and wants a type.
    let error = failure("void f(){ { } } }");
    assert_eq!(
        error,
        SyntaxError { expected: Expected::Type, found: Some(C1Token::RightBrace), line: 1 }
    );
}

#[test]
fn reports_the_first_of_two_errors() {
    // `1 = 2` and the missing `)` both violate the grammar; the first wins.
    let error = failure("int f(){\n a = 1 = 2;\n printf(a;\n}");
    assert_eq!(
        error,
        SyntaxError { expected: Expected::Semicolon, found: Some(C1Token::Assign), line: 2 }
    );
    // What follows the offending token plays no part.
    let with_junk = failure("int f(){\n a = 1 = 2 ) ) } } int\n");
    assert_eq!(with_junk, error);
}

#[test]
fn error_line_is_that_of_the_offending_token() {
    let error = failure("int f()\n{\n  return 1\n\n\n  ;\n  x y;\n}");
    assert_eq!(
        error,
        SyntaxError {
            expected: Expected::AssignmentOrCall,
            found: Some(C1Token::Identifier),
            line: 7
        }
    );
}

#[test]
fn error_at_end_of_input_takes_the_line_of_the_last_token() {
    let error = failure("int f()\n{\n  return\n\n\n");
    assert_eq!(error, SyntaxError { expected: Expected::Factor, found: None, line: 3 });
}

#[test]
fn expected_type() {
    let error = failure("main(){}");
    assert_eq!(
        error,
        SyntaxError { expected: Expected::Type, found: Some(C1Token::Identifier), line: 1 }
    );
    assert_eq!(message("main(){}"), "expected type, got identifier, line 1");
}

#[test]
fn expected_function_name() {
    let error = failure("int (){}");
    assert_eq!(
        error,
        SyntaxError {
            expected: Expected::FunctionName,
            found: Some(C1Token::LeftParenthesis),
            line: 1
        }
    );
    assert_eq!(message("int (){}"), "expected function name, got (, line 1");
}

#[test]
fn expected_parentheses_and_brace_of_a_function() {
    assert_eq!(
        failure("int f{}"),
        SyntaxError {
            expected: Expected::LeftParenthesis,
            found: Some(C1Token::LeftBrace),
            line: 1
        }
    );
    assert_eq!(
        failure("int f(int x){}"),
        SyntaxError {
            expected: Expected::RightParenthesis,
            found: Some(C1Token::KwInt),
            line: 1
        }
    );
    assert_eq!(
        failure("int f();"),
        SyntaxError { expected: Expected::LeftBrace, found: Some(C1Token::Semicolon), line: 1 }
    );
    assert_eq!(message("int f{}"), "expected (, got {, line 1");
    assert_eq!(message("int f(int x){}"), "expected ), got int, line 1");
    assert_eq!(message("int f();"), "expected {, got ;, line 1");
}

#[test]
fn expected_statement_at_end_of_input() {
    let error = failure("int f(){ if (a)");
    assert_eq!(error, SyntaxError { expected: Expected::Statement, found: None, line: 1 });
    assert_eq!(message("int f(){ if (a)"), "expected statement, got end of input, line 1");
}

#[test]
fn expected_start_of_a_statement() {
    let error = failure("int f(){ 5; }");
    assert_eq!(
        error,
        SyntaxError { expected: Expected::StatementStart, found: Some(C1Token::ConstInt), line: 1 }
    );
    assert_eq!(
        message("int f(){ 5; }"),
        "expected if, return, printf, assignment or function call, got integer literal, line 1"
    );
    // There is no `else`: the word is an identifier, and `{` cannot follow it.
    let error = failure("int f(){ if (a) { } else { } }");
    assert_eq!(
        error,
        SyntaxError {
            expected: Expected::AssignmentOrCall,
            found: Some(C1Token::LeftBrace),
            line: 1
        }
    );
}

#[test]
fn expected_assignment_or_call_behind_an_identifier() {
    let error = failure("int f(){ a; }");
    assert_eq!(
        error,
        SyntaxError {
            expected: Expected::AssignmentOrCall,
            found: Some(C1Token::Semicolon),
            line: 1
        }
    );
    assert_eq!(message("int f(){ a; }"), "expected assignment or function call, got ;, line 1");
    let error = failure("int f(){ a");
    assert_eq!(error, SyntaxError { expected: Expected::AssignmentOrCall, found: None, line: 1 });
}

#[test]
fn expected_factor() {
    let error = failure("int f(){ a = ; }");
    assert_eq!(
        error,
        SyntaxError { expected: Expected::Factor, found: Some(C1Token::Semicolon), line: 1 }
    );
    assert_eq!(message("int f(){ a = ; }"), "expected factor, got ;, line 1");
    assert_eq!(message("int f(){ a = 1 + ; }"), "expected factor, got ;, line 1");
    assert_eq!(message("int f(){ a = 1 * }"), "expected factor, got }, line 1");
    assert_eq!(message("int f(){ a = 1 <= "), "expected factor, got end of input, line 1");
}

#[test]
fn expected_closing_parenthesis() {
    assert_eq!(message("int f(){ a = (1 + 2; }"), "expected ), got ;, line 1");
    assert_eq!(message("int f(){ a = g(1); }"), "expected ), got integer literal, line 1");
    assert_eq!(message("int f(){ g(; }"), "expected ), got ;, line 1");
    assert_eq!(message("int f(){ printf(1; }"), "expected ), got ;, line 1");
    assert_eq!(message("int f(){ if (1 return; }"), "expected ), got return, line 1");
}

#[test]
fn expected_opening_parenthesis() {
    assert_eq!(message("int f(){ printf 1; }"), "expected (, got integer literal, line 1");
    assert_eq!(message("int f(){ if a return; }"), "expected (, got identifier, line 1");
}

#[test]
fn unknown_input_is_an_error_where_it_stands() {
    let error = failure("int f(){ a = 1 $ 2; }");
    assert_eq!(
        error,
        SyntaxError { expected: Expected::Semicolon, found: Some(C1Token::Unknown), line: 1 }
    );
    assert_eq!(message("int f(){ a = 1 $ 2; }"), "expected ;, got unrecognized input, line 1");
    assert_eq!(message("#"), "expected type, got unrecognized input, line 1");
}

#[test]
fn unary_minus_only_in_front_of_the_first_term() {
    assert_eq!(C1Parser::parse("int f(){ a = -b; }"), Ok(()));
    assert_eq!(C1Parser::parse("int f(){ a = -b + c; }"), Ok(()));
    assert_eq!(C1Parser::parse("int f(){ a = b - c; }"), Ok(()));
    assert_eq!(C1Parser::parse("int f(){ a = b < -c; }"), Ok(()));
    assert_eq!(C1Parser::parse("int f(){ a = (-b) * (-c); }"), Ok(()));
    assert_eq!(C1Parser::parse("int f(){ a = b = -c; }"), Ok(()));
    assert_eq!(message("int f(){ a = --b; }"), "expected factor, got -, line 1");
    assert_eq!(message("int f(){ a = b * -c; }"), "expected factor, got -, line 1");
    assert_eq!(message("int f(){ a = b + -c; }"), "expected factor, got -, line 1");
}

#[test]
fn one_relational_operator_in_an_expression() {
    assert_eq!(C1Parser::parse("int f(){ a = b < c; }"), Ok(()));
    assert_eq!(C1Parser::parse("int f(){ a = (b < c) == (c >= d); }"), Ok(()));
    assert_eq!(message("int f(){ a = b < c < d; }"), "expected ;, got <, line 1");
    assert_eq!(message("int f(){ if (b == c != d) return; }"), "expected ), got !=, line 1");
}

#[test]
fn assignment_needs_an_identifier_on_the_left() {
    assert_eq!(message("int f(){ a = b + c = d; }"), "expected ;, got =, line 1");
    assert_eq!(message("int f(){ a = (b) = d; }"), "expected ;, got =, line 1");
    assert_eq!(C1Parser::parse("int f(){ a = (b = d) + 1; }"), Ok(()));
    assert_eq!(C1Parser::parse("int f(){ printf(a = b = 2); }"), Ok(()));
    assert_eq!(C1Parser::parse("int f(){ if (a = b) return a = 1; }"), Ok(()));
}

#[test]
fn function_calls() {
    assert_eq!(C1Parser::parse("int f(){ g(); }"), Ok(()));
    assert_eq!(C1Parser::parse("int f(){ a = g() * h() + 1; }"), Ok(()));
    assert_eq!(C1Parser::parse("int f(){ return g(); }"), Ok(()));
    assert_eq!(message("int f(){ g() }"), "expected ;, got }, line 1");
}

#[test]
fn if_statements() {
    assert_eq!(C1Parser::parse("int f(){ if (a) b = 1; }"), Ok(()));
    assert_eq!(C1Parser::parse("int f(){ if (a) if (b) if (c) return; }"), Ok(()));
    assert_eq!(C1Parser::parse("int f(){ if (a) { } }"), Ok(()));
    assert_eq!(C1Parser::parse("int f(){ if (a) { if (b) { c(); } d(); } }"), Ok(()));
    assert_eq!(
        message("int f(){ if (a) }"),
        "expected if, return, printf, assignment or function call, got }, line 1"
    );
}

#[test]
fn operators_of_every_kind() {
    assert_eq!(
        C1Parser::parse("int f(){ a = 1 + 2 - 3 || 4 * 5 / 6 && 7; }"),
        Ok(())
    );
    for op in ["==", "!=", "<", ">", "<=", ">="] {
        let text = format!("int f(){{ a = 1 {} 2.5; }}", op);
        assert_eq!(C1Parser::parse(&text), Ok(()), "{}", text);
    }
}

#[test]
fn a_function_takes_no_parameters_and_needs_a_body() {
    assert_eq!(message("int f(a){}"), "expected ), got identifier, line 1");
    assert_eq!(message("int f()"), "expected {, got end of input, line 1");
    assert_eq!(message("int"), "expected function name, got end of input, line 1");
    assert_eq!(message("int f"), "expected (, got end of input, line 1");
    assert_eq!(message("int f("), "expected ), got end of input, line 1");
}

#[test]
fn line_numbers_with_several_digits() {
    let mut text = String::from("int f(){");
    for _ in 0..1234 {
        text.push('\n');
    }
    text.push_str("a = ;}");
    let error = failure(&text);
    assert_eq!(
        error,
        SyntaxError { expected: Expected::Factor, found: Some(C1Token::Semicolon), line: 1235 }
    );
    assert_eq!(message(&text), "expected factor, got ;, line 1235");
}
