use c1_parser::{C1Parser, C1Token};

// The grammar once more, written as a search over all ways to divide a span.

fn at(s: &[C1Token], i: usize, t: C1Token) -> bool {
    i < s.len() && s[i] == t
}

fn functioncall(s: &[C1Token]) -> bool {
    s.len() == 3
        && s[0] == C1Token::Identifier
        && s[1] == C1Token::LeftParenthesis
        && s[2] == C1Token::RightParenthesis
}

fn factor(s: &[C1Token]) -> bool {
    let n = s.len();
    functioncall(s)
        || (n == 1
            && matches!(
                s[0],
                C1Token::Identifier
                    | C1Token::ConstInt
                    | C1Token::ConstFloat
                    | C1Token::ConstBoolean
            ))
        || (n >= 2
            && s[0] == C1Token::LeftParenthesis
            && s[n - 1] == C1Token::RightParenthesis
            && assignment(&s[1..n - 1]))
}

fn joined(
    s: &[C1Token],
    part: fn(&[C1Token]) -> bool,
    joins: fn(C1Token) -> bool,
) -> bool {
    // part { join part }
    if part(s) {
        return true;
    }
    for k in 1..s.len() {
        if joins(s[k]) && part(&s[..k]) && joined(&s[k + 1..], part, joins) {
            return true;
        }
    }
    false
}

fn mul_op(t: C1Token) -> bool {
    matches!(t, C1Token::Asterisk | C1Token::Slash | C1Token::And)
}

fn add_op(t: C1Token) -> bool {
    matches!(t, C1Token::Plus | C1Token::Minus | C1Token::Or)
}

fn rel_op(t: C1Token) -> bool {
    matches!(
        t,
        C1Token::Equal
            | C1Token::NotEqual
            | C1Token::Less
            | C1Token::Greater
            | C1Token::LessEqual
            | C1Token::GreaterEqual
    )
}

fn term(s: &[C1Token]) -> bool {
    joined(s, factor, mul_op)
}

fn simpexpr(s: &[C1Token]) -> bool {
    joined(s, term, add_op) || (at(s, 0, C1Token::Minus) && joined(&s[1..], term, add_op))
}

fn expr(s: &[C1Token]) -> bool {
    if simpexpr(s) {
        return true;
    }
    for k in 1..s.len() {
        if rel_op(s[k]) && simpexpr(&s[..k]) && simpexpr(&s[k + 1..]) {
            return true;
        }
    }
    false
}

fn assignment(s: &[C1Token]) -> bool {
    expr(s)
        || (s.len() >= 2
            && s[0] == C1Token::Identifier
            && s[1] == C1Token::Assign
            && assignment(&s[2..]))
}

fn statement(s: &[C1Token]) -> bool {
    let n = s.len();
    if n == 0 {
        return false;
    }
    if s[0] == C1Token::KwIf && at(s, 1, C1Token::LeftParenthesis) {
        for k in 2..n {
            if s[k] == C1Token::RightParenthesis && assignment(&s[2..k]) && block(&s[k + 1..]) {
                return true;
            }
        }
    }
    if s[n - 1] != C1Token::Semicolon {
        return false;
    }
    let body = &s[..n - 1];
    (at(body, 0, C1Token::KwReturn) && (body.len() == 1 || assignment(&body[1..])))
        || (body.len() >= 3
            && body[0] == C1Token::KwPrintf
            && body[1] == C1Token::LeftParenthesis
            && body[body.len() - 1] == C1Token::RightParenthesis
            && assignment(&body[2..body.len() - 1]))
        || (body.len() >= 2
            && body[0] == C1Token::Identifier
            && body[1] == C1Token::Assign
            && assignment(&body[2..]))
        || functioncall(body)
}

fn block(s: &[C1Token]) -> bool {
    let n = s.len();
    statement(s)
        || (n >= 2
            && s[0] == C1Token::LeftBrace
            && s[n - 1] == C1Token::RightBrace
            && statementlist(&s[1..n - 1]))
}

fn statementlist(s: &[C1Token]) -> bool {
    if s.is_empty() {
        return true;
    }
    for k in 1..=s.len() {
        if block(&s[..k]) && statementlist(&s[k..]) {
            return true;
        }
    }
    false
}

const SPELLINGS: [(C1Token, &str); 15] = [
    (C1Token::Identifier, "x"),
    (C1Token::KwIf, "if"),
    (C1Token::KwReturn, "return"),
    (C1Token::LeftParenthesis, "("),
    (C1Token::RightParenthesis, ")"),
    (C1Token::LeftBrace, "{"),
    (C1Token::RightBrace, "}"),
    (C1Token::Semicolon, ";"),
    (C1Token::ConstInt, "1"),
    (C1Token::KwPrintf, "printf"),
    (C1Token::Assign, "="),
    (C1Token::Minus, "-"),
    (C1Token::Asterisk, "*"),
    (C1Token::Less, "<"),
    (C1Token::KwInt, "int"),
];

fn check_all_bodies(length: usize, alphabet: usize) -> usize {
    let mut accepted = 0;
    let mut digits = vec![0usize; length];
    loop {
        let tokens: Vec<C1Token> = digits.iter().map(|&d| SPELLINGS[d].0).collect();
        let mut text = String::from("void f ( ) {");
        for &d in &digits {
            text.push(' ');
            text.push_str(SPELLINGS[d].1);
        }
        text.push_str(" }");
        let expected = statementlist(&tokens);
        assert_eq!(C1Parser::parse(&text).is_ok(), expected, "{}", text);
        if expected {
            accepted += 1;
        }
        let mut k = 0;
        while k < length && digits[k] + 1 == alphabet {
            digits[k] = 0;
            k += 1;
        }
        if k == length {
            return accepted;
        }
        digits[k] += 1;
    }
}

#[test]
fn function_bodies_of_up_to_three_tokens() {
    assert_eq!(check_all_bodies(0, 15), 1);
    // No statement has one token.
    assert_eq!(check_all_bodies(1, 15), 0);
    // `return ;` and `{ }`.
    assert_eq!(check_all_bodies(2, 15), 2);
    // `return x ;` and `return 1 ;`.
    assert_eq!(check_all_bodies(3, 15), 2);
}

#[test]
fn function_bodies_of_four_tokens() {
    let accepted = check_all_bodies(4, 15);
    // `x = F ;` (2), `x ( ) ;` (1), `return - F ;` (2),
    // two statements of two tokens each (4), `{ B }` around them (2).
    assert_eq!(accepted, 11);
}

#[test]
fn function_bodies_of_five_tokens_over_fewer_tokens() {
    // Identifier, `if`, `return`, `(`, `)`, `{`, `}`, `;`:
    // `return ( x ) ;`, `return x ( ) ;`, `{ return x ; }`,
    // and a statement of two tokens beside one of three (4).
    let accepted = check_all_bodies(5, 8);
    assert_eq!(accepted, 7);
}
