//! The syntax error: what the parser expected, what it found, and where.
use vstd::prelude::*;
use vstd::string::*;
use crate::token::C1Token;

verus! {

/// The construct that the parser was looking for when it gave up.
#[derive(Clone, Copy, Debug, PartialEq, Eq, Hash, Structural)]
pub enum Expected {
    /// The type keyword that opens a function definition.
    Type,
    /// The identifier that names a function.
    FunctionName,
    /// The identifier on the left of an assignment.
    VariableName,
    /// `(`
    LeftParenthesis,
    /// `)`
    RightParenthesis,
    /// `{`
    LeftBrace,
    /// `}`
    RightBrace,
    /// `;`
    Semicolon,
    /// `=`
    Assign,
    /// `if`
    If,
    /// `return`
    Return,
    /// `printf`
    Printf,
    /// The `}` that ends a statement list; the input ended before it.
    ClosingBracket,
    /// A statement; the input ended where one had to begin.
    Statement,
    /// A token that can begin a statement.
    StatementStart,
    /// `=` or `(` behind the identifier that begins a statement.
    AssignmentOrCall,
    /// A token that can begin a factor.
    Factor,
}

impl Expected {
    /// The words by which a message names the construct.
    pub open spec fn description(self) -> Seq<char> {
        match self {
            Expected::Type => "type"@,
            Expected::FunctionName => "function name"@,
            Expected::VariableName => "variable name"@,
            Expected::LeftParenthesis => "("@,
            Expected::RightParenthesis => ")"@,
            Expected::LeftBrace => "{"@,
            Expected::RightBrace => "}"@,
            Expected::Semicolon => ";"@,
            Expected::Assign => "="@,
            Expected::If => "if"@,
            Expected::Return => "return"@,
            Expected::Printf => "printf"@,
            Expected::ClosingBracket => "closing bracket"@,
            Expected::Statement => "statement"@,
            Expected::StatementStart => "if, return, printf, assignment or function call"@,
            Expected::AssignmentOrCall => "assignment or function call"@,
            Expected::Factor => "factor"@,
        }
    }

    /// The words by which a message names the construct.
    pub fn describe(self) -> (words: &'static str)
        ensures
            words@ == self.description(),
    {
        match self {
            Expected::Type => "type",
            Expected::FunctionName => "function name",
            Expected::VariableName => "variable name",
            Expected::LeftParenthesis => "(",
            Expected::RightParenthesis => ")",
            Expected::LeftBrace => "{",
            Expected::RightBrace => "}",
            Expected::Semicolon => ";",
            Expected::Assign => "=",
            Expected::If => "if",
            Expected::Return => "return",
            Expected::Printf => "printf",
            Expected::ClosingBracket => "closing bracket",
            Expected::Statement => "statement",
            Expected::StatementStart => "if, return, printf, assignment or function call",
            Expected::AssignmentOrCall => "assignment or function call",
            Expected::Factor => "factor",
        }
    }
}

/// How a message names what stood at the cursor: the token as it is written
/// in a source text, the kind of an identifier or literal, or the end of the
/// input.
pub open spec fn found_text(found: Option<C1Token>) -> Seq<char> {
    match found {
        None => "end of input"@,
        Some(C1Token::Identifier) => "identifier"@,
        Some(C1Token::ConstInt) => "integer literal"@,
        Some(C1Token::ConstFloat) => "float literal"@,
        Some(C1Token::ConstBoolean) => "boolean literal"@,
        Some(C1Token::KwInt) => "int"@,
        Some(C1Token::KwFloat) => "float"@,
        Some(C1Token::KwVoid) => "void"@,
        Some(C1Token::KwBoolean) => "boolean"@,
        Some(C1Token::KwIf) => "if"@,
        Some(C1Token::KwReturn) => "return"@,
        Some(C1Token::KwPrintf) => "printf"@,
        Some(C1Token::LeftParenthesis) => "("@,
        Some(C1Token::RightParenthesis) => ")"@,
        Some(C1Token::LeftBrace) => "{"@,
        Some(C1Token::RightBrace) => "}"@,
        Some(C1Token::Semicolon) => ";"@,
        Some(C1Token::Assign) => "="@,
        Some(C1Token::Plus) => "+"@,
        Some(C1Token::Minus) => "-"@,
        Some(C1Token::Asterisk) => "*"@,
        Some(C1Token::Slash) => "/"@,
        Some(C1Token::And) => "&&"@,
        Some(C1Token::Or) => "||"@,
        Some(C1Token::Equal) => "=="@,
        Some(C1Token::NotEqual) => "!="@,
        Some(C1Token::Less) => "<"@,
        Some(C1Token::Greater) => ">"@,
        Some(C1Token::LessEqual) => "<="@,
        Some(C1Token::GreaterEqual) => ">="@,
        Some(C1Token::Unknown) => "unrecognized input"@,
    }
}

/// The name of what stood at the cursor, as `found_text` gives it.
pub fn found_name(found: Option<C1Token>) -> (words: &'static str)
    ensures
        words@ == found_text(found),
{
    match found {
        None => "end of input",
        Some(C1Token::Identifier) => "identifier",
        Some(C1Token::ConstInt) => "integer literal",
        Some(C1Token::ConstFloat) => "float literal",
        Some(C1Token::ConstBoolean) => "boolean literal",
        Some(C1Token::KwInt) => "int",
        Some(C1Token::KwFloat) => "float",
        Some(C1Token::KwVoid) => "void",
        Some(C1Token::KwBoolean) => "boolean",
        Some(C1Token::KwIf) => "if",
        Some(C1Token::KwReturn) => "return",
        Some(C1Token::KwPrintf) => "printf",
        Some(C1Token::LeftParenthesis) => "(",
        Some(C1Token::RightParenthesis) => ")",
        Some(C1Token::LeftBrace) => "{",
        Some(C1Token::RightBrace) => "}",
        Some(C1Token::Semicolon) => ";",
        Some(C1Token::Assign) => "=",
        Some(C1Token::Plus) => "+",
        Some(C1Token::Minus) => "-",
        Some(C1Token::Asterisk) => "*",
        Some(C1Token::Slash) => "/",
        Some(C1Token::And) => "&&",
        Some(C1Token::Or) => "||",
        Some(C1Token::Equal) => "==",
        Some(C1Token::NotEqual) => "!=",
        Some(C1Token::Less) => "<",
        Some(C1Token::Greater) => ">",
        Some(C1Token::LessEqual) => "<=",
        Some(C1Token::GreaterEqual) => ">=",
        Some(C1Token::Unknown) => "unrecognized input",
    }
}

/// The decimal digit `d`, for `d` below ten.
pub open spec fn digit_text(d: nat) -> Seq<char> {
    if d == 0 {
        "0"@
    } else if d == 1 {
        "1"@
    } else if d == 2 {
        "2"@
    } else if d == 3 {
        "3"@
    } else if d == 4 {
        "4"@
    } else if d == 5 {
        "5"@
    } else if d == 6 {
        "6"@
    } else if d == 7 {
        "7"@
    } else if d == 8 {
        "8"@
    } else {
        "9"@
    }
}

/// The number `n` in decimal, most significant digit first, without
/// leading zeros.
pub open spec fn decimal_text(n: nat) -> Seq<char>
    decreases n,
{
    if n < 10 {
        digit_text(n)
    } else {
        decimal_text(n / 10) + digit_text(n % 10)
    }
}

fn digit_name(d: usize) -> (words: &'static str)
    requires
        d < 10,
    ensures
        words@ == digit_text(d as nat),
{
    if d == 0 {
        "0"
    } else if d == 1 {
        "1"
    } else if d == 2 {
        "2"
    } else if d == 3 {
        "3"
    } else if d == 4 {
        "4"
    } else if d == 5 {
        "5"
    } else if d == 6 {
        "6"
    } else if d == 7 {
        "7"
    } else if d == 8 {
        "8"
    } else {
        "9"
    }
}

/// Appends `n` in decimal to `out`.
pub fn append_decimal(out: &mut String, n: usize)
    ensures
        final(out)@ == old(out)@ + decimal_text(n as nat),
    decreases n,
{
    if n < 10 {
        out.append(digit_name(n));
    } else {
        append_decimal(out, n / 10);
        out.append(digit_name(n % 10));
        assert(out@ =~= old(out)@ + decimal_text(n as nat));
    }
}

/// A syntax error: the only error there is. It ends the parse.
#[derive(Clone, Copy, Debug, PartialEq, Eq, Hash, Structural)]
pub struct SyntaxError {
    /// What the parser was looking for.
    pub expected: Expected,
    /// The token it found instead, or `None` at the end of the input.
    pub found: Option<C1Token>,
    /// The line of that token, counted from 1; at the end of the input, the
    /// line of the last token (1 where there is no token).
    pub line: usize,
}

impl SyntaxError {
    /// The message: `expected <construct>, got <token>, line <number>`.
    pub open spec fn message_text(self) -> Seq<char> {
        "expected "@ + self.expected.description() + ", got "@ + found_text(self.found)
            + ", line "@ + decimal_text(self.line as nat)
    }

    /// The message for a reader.
    pub fn message(&self) -> (text: String)
        ensures
            text@ == self.message_text(),
    {
        let mut text = String::from_str("expected ");
        text.append(self.expected.describe());
        text.append(", got ");
        text.append(found_name(self.found));
        text.append(", line ");
        append_decimal(&mut text, self.line);
        text
    }
}

} // verus!
