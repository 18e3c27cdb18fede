//! The token vocabulary shared by the scanner and the parser.
use vstd::prelude::*;

verus! {

/// One lexical unit of a C1 source text. The parser reads only this tag;
/// the spelling of an identifier or the value of a literal plays no part in
/// checking syntax.
#[derive(Clone, Copy, Debug, PartialEq, Eq, Hash, Structural)]
pub enum C1Token {
    /// A name: a letter or underscore followed by letters, digits, underscores.
    Identifier,
    /// An integer literal.
    ConstInt,
    /// A floating-point literal.
    ConstFloat,
    /// `true` or `false`.
    ConstBoolean,
    /// `int`
    KwInt,
    /// `float`
    KwFloat,
    /// `void`
    KwVoid,
    /// `boolean`
    KwBoolean,
    /// `if`
    KwIf,
    /// `return`
    KwReturn,
    /// `printf`
    KwPrintf,
    /// `(`
    LeftParenthesis,
    /// `)`
    RightParenthesis,
    /// `{`
    LeftBrace,
    /// `}`
    RightBrace,
    /// `;`
    Semicolon,
    /// `=`
    Assign,
    /// `+`
    Plus,
    /// `-`
    Minus,
    /// `*`
    Asterisk,
    /// `/`
    Slash,
    /// `&&`
    And,
    /// `||`
    Or,
    /// `==`
    Equal,
    /// `!=`
    NotEqual,
    /// `<`
    Less,
    /// `>`
    Greater,
    /// `<=`
    LessEqual,
    /// `>=`
    GreaterEqual,
    /// Input that belongs to no lexical unit of the language. No grammar
    /// rule accepts it, so the parser reports it wherever it meets it.
    Unknown,
}

impl C1Token {
    /// One of the four type keywords.
    pub open spec fn is_type(self) -> bool {
        self == C1Token::KwInt || self == C1Token::KwFloat || self == C1Token::KwVoid || self
            == C1Token::KwBoolean
    }

    /// One of the six relational operators, which join two simple
    /// expressions.
    pub open spec fn is_rel_op(self) -> bool {
        self == C1Token::Equal || self == C1Token::NotEqual || self == C1Token::Less || self
            == C1Token::Greater || self == C1Token::LessEqual || self == C1Token::GreaterEqual
    }

    /// `+`, `-` or `||`, which join terms.
    pub open spec fn is_add_op(self) -> bool {
        self == C1Token::Plus || self == C1Token::Minus || self == C1Token::Or
    }

    /// `*`, `/` or `&&`, which join factors.
    pub open spec fn is_mul_op(self) -> bool {
        self == C1Token::Asterisk || self == C1Token::Slash || self == C1Token::And
    }

    /// A literal or an identifier: a factor of one token.
    pub open spec fn is_atom(self) -> bool {
        self == C1Token::Identifier || self == C1Token::ConstInt || self == C1Token::ConstFloat
            || self == C1Token::ConstBoolean
    }

    /// Whether the token is a type keyword.
    pub fn type_keyword(self) -> (b: bool)
        ensures
            b == self.is_type(),
    {
        match self {
            C1Token::KwInt | C1Token::KwFloat | C1Token::KwVoid | C1Token::KwBoolean => true,
            _ => false,
        }
    }
}

} // verus!
