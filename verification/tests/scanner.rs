use c1_parser::scanner::scan;
use c1_parser::{C1Lexer, C1Token, Lexeme};

fn tokens(text: &str) -> Vec<C1Token> {
    scan(text.as_bytes()).iter().map(|lexeme| lexeme.token).collect()
}

fn lines(text: &str) -> Vec<usize> {
    scan(text.as_bytes()).iter().map(|lexeme| lexeme.line).collect()
}

#[test]
fn empty_text_has_no_lexemes() {
    assert_eq!(scan(b""), vec![]);
    assert_eq!(scan(b"  \n\t "), vec![]);
}

#[test]
fn keywords_and_identifiers() {
    assert_eq!(
        tokens("int float void boolean if return printf true false"),
        vec![
            C1Token::KwInt,
            C1Token::KwFloat,
            C1Token::KwVoid,
            C1Token::KwBoolean,
            C1Token::KwIf,
            C1Token::KwReturn,
            C1Token::KwPrintf,
            C1Token::ConstBoolean,
            C1Token::ConstBoolean,
        ]
    );
    assert_eq!(
        tokens("Int integer _x x1 iff bool else while returns True"),
        vec![C1Token::Identifier; 10]
    );
}

#[test]
fn a_word_is_taken_whole() {
    assert_eq!(tokens("intx"), vec![C1Token::Identifier]);
    assert_eq!(tokens("int1"), vec![C1Token::Identifier]);
    assert_eq!(tokens("if_"), vec![C1Token::Identifier]);
    assert_eq!(tokens("int x"), vec![C1Token::KwInt, C1Token::Identifier]);
    assert_eq!(tokens("int(x"), vec![C1Token::KwInt, C1Token::LeftParenthesis, C1Token::Identifier]);
}

#[test]
fn integer_literals() {
    assert_eq!(tokens("0"), vec![C1Token::ConstInt]);
    assert_eq!(tokens("0123456789"), vec![C1Token::ConstInt]);
    assert_eq!(tokens("12 34"), vec![C1Token::ConstInt, C1Token::ConstInt]);
    assert_eq!(tokens("12a"), vec![C1Token::ConstInt, C1Token::Identifier]);
}

#[test]
fn float_literals() {
    for text in ["1.5", "0.0", ".5", "1.", "1e5", "1E5", "1e+5", "1e-5", "1.5e10", ".5E-3", "2.e1"] {
        assert_eq!(tokens(text), vec![C1Token::ConstFloat], "{}", text);
    }
}

#[test]
fn an_exponent_needs_a_digit() {
    assert_eq!(tokens("1e"), vec![C1Token::ConstInt, C1Token::Identifier]);
    assert_eq!(tokens("1e+"), vec![C1Token::ConstInt, C1Token::Identifier, C1Token::Plus]);
    assert_eq!(tokens("1.5e-x"), vec![
        C1Token::ConstFloat,
        C1Token::Identifier,
        C1Token::Minus,
        C1Token::Identifier
    ]);
    assert_eq!(tokens("1else"), vec![C1Token::ConstInt, C1Token::Identifier]);
}

#[test]
fn a_point_alone_is_unknown() {
    assert_eq!(tokens("."), vec![C1Token::Unknown]);
    assert_eq!(tokens("a.b"), vec![C1Token::Identifier, C1Token::Unknown, C1Token::Identifier]);
    assert_eq!(tokens("1.2.3"), vec![C1Token::ConstFloat, C1Token::ConstFloat]);
}

#[test]
fn punctuation_and_operators() {
    assert_eq!(
        tokens("( ) { } ; = + - * / && || == != < > <= >="),
        vec![
            C1Token::LeftParenthesis,
            C1Token::RightParenthesis,
            C1Token::LeftBrace,
            C1Token::RightBrace,
            C1Token::Semicolon,
            C1Token::Assign,
            C1Token::Plus,
            C1Token::Minus,
            C1Token::Asterisk,
            C1Token::Slash,
            C1Token::And,
            C1Token::Or,
            C1Token::Equal,
            C1Token::NotEqual,
            C1Token::Less,
            C1Token::Greater,
            C1Token::LessEqual,
            C1Token::GreaterEqual,
        ]
    );
}

#[test]
fn the_longest_operator_is_taken() {
    assert_eq!(tokens("==="), vec![C1Token::Equal, C1Token::Assign]);
    assert_eq!(tokens("<=="), vec![C1Token::LessEqual, C1Token::Assign]);
    assert_eq!(tokens(">=<"), vec![C1Token::GreaterEqual, C1Token::Less]);
    assert_eq!(tokens("!=="), vec![C1Token::NotEqual, C1Token::Assign]);
    assert_eq!(tokens("a=-1"), vec![
        C1Token::Identifier,
        C1Token::Assign,
        C1Token::Minus,
        C1Token::ConstInt
    ]);
}

#[test]
fn half_operators_are_unknown() {
    assert_eq!(tokens("!"), vec![C1Token::Unknown]);
    assert_eq!(tokens("&"), vec![C1Token::Unknown]);
    assert_eq!(tokens("|"), vec![C1Token::Unknown]);
    assert_eq!(tokens("& &"), vec![C1Token::Unknown, C1Token::Unknown]);
    assert_eq!(tokens("!a"), vec![C1Token::Unknown, C1Token::Identifier]);
    assert_eq!(tokens("&&&"), vec![C1Token::And, C1Token::Unknown]);
}

#[test]
fn bytes_outside_the_vocabulary_are_unknown_one_by_one() {
    assert_eq!(tokens("@"), vec![C1Token::Unknown]);
    assert_eq!(tokens("a#b"), vec![C1Token::Identifier, C1Token::Unknown, C1Token::Identifier]);
    assert_eq!(tokens("\"x\""), vec![C1Token::Unknown, C1Token::Identifier, C1Token::Unknown]);
    // `ä` is two bytes in UTF-8.
    assert_eq!(tokens("ä"), vec![C1Token::Unknown, C1Token::Unknown]);
    assert_eq!(scan(&[0u8, 255u8]), vec![
        Lexeme { token: C1Token::Unknown, line: 1 },
        Lexeme { token: C1Token::Unknown, line: 1 }
    ]);
}

#[test]
fn line_comments() {
    assert_eq!(tokens("a // b c\nd"), vec![C1Token::Identifier, C1Token::Identifier]);
    assert_eq!(tokens("a // b c"), vec![C1Token::Identifier]);
    assert_eq!(tokens("//"), vec![]);
    assert_eq!(tokens("a / / b"), vec![
        C1Token::Identifier,
        C1Token::Slash,
        C1Token::Slash,
        C1Token::Identifier
    ]);
    assert_eq!(lines("a // b\nc"), vec![1, 2]);
}

#[test]
fn block_comments() {
    assert_eq!(tokens("a /* b c */ d"), vec![C1Token::Identifier, C1Token::Identifier]);
    assert_eq!(tokens("a/**/d"), vec![C1Token::Identifier, C1Token::Identifier]);
    assert_eq!(tokens("/* * / */ d"), vec![C1Token::Identifier]);
    assert_eq!(tokens("/* a */ b */"), vec![C1Token::Identifier, C1Token::Asterisk, C1Token::Slash]);
    assert_eq!(tokens("/*/ a"), vec![C1Token::Unknown]);
    assert_eq!(lines("a /* \n\n */ b\nc"), vec![1, 3, 4]);
}

#[test]
fn an_open_block_comment_is_one_unknown_token() {
    assert_eq!(scan(b"a\n/* b\nc"), vec![
        Lexeme { token: C1Token::Identifier, line: 1 },
        Lexeme { token: C1Token::Unknown, line: 2 }
    ]);
    assert_eq!(tokens("/*"), vec![C1Token::Unknown]);
    assert_eq!(tokens("/* *"), vec![C1Token::Unknown]);
}

#[test]
fn lines_are_counted_by_line_feeds() {
    assert_eq!(lines("a\nb\n\nc d\r\ne"), vec![1, 2, 4, 4, 5]);
    assert_eq!(lines("\n\n\na"), vec![4]);
    assert_eq!(lines("a\rb"), vec![1, 1]);
}

#[test]
fn all_white_space_separates() {
    assert_eq!(tokens("a\tb\nc\rd e\x0bf\x0cg"), vec![C1Token::Identifier; 7]);
}

#[test]
fn cursor_shows_current_and_next() {
    let mut lexer = C1Lexer::new("int x\n= 1;");
    assert_eq!(lexer.current_token(), Some(C1Token::KwInt));
    assert_eq!(lexer.peek_token(), Some(C1Token::Identifier));
    assert_eq!(lexer.current_line_number(), 1);
    lexer.eat();
    assert_eq!(lexer.current_token(), Some(C1Token::Identifier));
    assert_eq!(lexer.peek_token(), Some(C1Token::Assign));
    assert_eq!(lexer.current_line_number(), 1);
    lexer.eat();
    assert_eq!(lexer.current_token(), Some(C1Token::Assign));
    assert_eq!(lexer.current_line_number(), 2);
    lexer.eat();
    lexer.eat();
    assert_eq!(lexer.current_token(), Some(C1Token::Semicolon));
    assert_eq!(lexer.peek_token(), None);
    lexer.eat();
    assert_eq!(lexer.current_token(), None);
    assert_eq!(lexer.peek_token(), None);
    assert_eq!(lexer.current_line_number(), 2);
    lexer.eat();
    assert_eq!(lexer.current_token(), None);
    assert_eq!(lexer.current_line_number(), 2);
}

#[test]
fn cursor_over_an_empty_text() {
    let mut lexer = C1Lexer::new("");
    assert_eq!(lexer.current_token(), None);
    assert_eq!(lexer.peek_token(), None);
    assert_eq!(lexer.current_line_number(), 1);
    lexer.eat();
    assert_eq!(lexer.current_token(), None);
    assert_eq!(lexer.current_line_number(), 1);
}
