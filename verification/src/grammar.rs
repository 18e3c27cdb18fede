//! The grammar of C1, stated over a sequence of tokens.
//!
//! Each nonterminal is a predicate on a span `[i, j)` of the sequence: it
//! holds when the tokens from `i` up to but not including `j` can be derived
//! from the nonterminal. The predicates follow the productions one to one and
//! say nothing about how a parser finds a derivation.
//!
//! ```text
//! program            = { functiondefinition } ;
//! functiondefinition = type identifier "(" ")" "{" statementlist "}" ;
//! type               = "int" | "float" | "void" | "boolean" ;
//! statementlist      = { block } ;
//! block              = "{" statementlist "}" | statement ;
//! statement          = ifstatement
//!                    | "return" [ assignment ] ";"
//!                    | "printf" "(" assignment ")" ";"
//!                    | statassignment ";"
//!                    | functioncall ";" ;
//! ifstatement        = "if" "(" assignment ")" block ;
//! statassignment     = identifier "=" assignment ;
//! functioncall       = identifier "(" ")" ;
//! assignment         = identifier "=" assignment | expr ;
//! expr               = simpexpr [ relop simpexpr ] ;
//! simpexpr           = [ "-" ] term { ( "+" | "-" | "||" ) term } ;
//! term               = factor { ( "*" | "/" | "&&" ) factor } ;
//! factor             = functioncall | identifier | literal
//!                    | "(" assignment ")" ;
//! ```
use vstd::prelude::*;
use crate::token::C1Token;

verus! {

/// The token at index `i`, or `None` where `i` lies outside the sequence.
pub open spec fn token_at(s: Seq<C1Token>, i: int) -> Option<C1Token> {
    if 0 <= i < s.len() {
        Some(s[i])
    } else {
        None
    }
}

/// Index `i` holds the token `t`.
pub open spec fn has_token(s: Seq<C1Token>, i: int, t: C1Token) -> bool {
    0 <= i < s.len() && s[i] == t
}

/// Index `i` holds a type keyword.
pub open spec fn has_type(s: Seq<C1Token>, i: int) -> bool {
    0 <= i < s.len() && s[i].is_type()
}

/// Index `i` holds a relational operator.
pub open spec fn has_rel_op(s: Seq<C1Token>, i: int) -> bool {
    0 <= i < s.len() && s[i].is_rel_op()
}

/// Index `i` holds `+`, `-` or `||`.
pub open spec fn has_add_op(s: Seq<C1Token>, i: int) -> bool {
    0 <= i < s.len() && s[i].is_add_op()
}

/// Index `i` holds `*`, `/` or `&&`.
pub open spec fn has_mul_op(s: Seq<C1Token>, i: int) -> bool {
    0 <= i < s.len() && s[i].is_mul_op()
}

/// Index `i` holds an identifier or a literal.
pub open spec fn has_atom(s: Seq<C1Token>, i: int) -> bool {
    0 <= i < s.len() && s[i].is_atom()
}

/// Names the index at which a production divides its span. It holds of
/// every index: stating it of the dividing index changes no meaning and
/// gives a proof the term by which to name that index.
pub open spec fn cut(k: int) -> bool {
    true
}

/// `functioncall = identifier "(" ")"`
pub open spec fn is_functioncall(s: Seq<C1Token>, i: int, j: int) -> bool {
    &&& j == i + 3
    &&& has_token(s, i, C1Token::Identifier)
    &&& has_token(s, i + 1, C1Token::LeftParenthesis)
    &&& has_token(s, i + 2, C1Token::RightParenthesis)
}

/// `factor = functioncall | identifier | literal | "(" assignment ")"`
pub open spec fn is_factor(s: Seq<C1Token>, i: int, j: int) -> bool
    decreases j - i, 0int,
{
    ||| is_functioncall(s, i, j)
    ||| (j == i + 1 && has_atom(s, i))
    ||| {
        &&& i + 2 <= j
        &&& has_token(s, i, C1Token::LeftParenthesis)
        &&& is_assignment(s, i + 1, j - 1)
        &&& has_token(s, j - 1, C1Token::RightParenthesis)
    }
}

/// `{ mulop factor }`: what may follow the first factor of a term.
pub open spec fn is_term_tail(s: Seq<C1Token>, i: int, j: int) -> bool
    decreases j - i, 1int,
{
    ||| i == j
    ||| (has_mul_op(s, i) && exists|k: int|
        {
            &&& #[trigger] cut(k)
            &&& i + 1 < k && k <= j
            &&& is_factor(s, i + 1, k)
            &&& is_term_tail(s, k, j)
        })
}

/// `term = factor { mulop factor }`
pub open spec fn is_term(s: Seq<C1Token>, i: int, j: int) -> bool
    decreases j - i, 2int,
{
    exists|k: int|
        {
            &&& #[trigger] cut(k)
            &&& i < k && k <= j
            &&& is_factor(s, i, k)
            &&& is_term_tail(s, k, j)
        }
}

/// `{ addop term }`: what may follow the first term of a simple expression.
pub open spec fn is_simpexpr_tail(s: Seq<C1Token>, i: int, j: int) -> bool
    decreases j - i, 3int,
{
    ||| i == j
    ||| (has_add_op(s, i) && exists|k: int|
        {
            &&& #[trigger] cut(k)
            &&& i + 1 < k && k <= j
            &&& is_term(s, i + 1, k)
            &&& is_simpexpr_tail(s, k, j)
        })
}

/// `term { addop term }`: a simple expression without its sign.
pub open spec fn is_term_list(s: Seq<C1Token>, i: int, j: int) -> bool
    decreases j - i, 4int,
{
    exists|k: int|
        {
            &&& #[trigger] cut(k)
            &&& i < k && k <= j
            &&& is_term(s, i, k)
            &&& is_simpexpr_tail(s, k, j)
        }
}

/// `simpexpr = [ "-" ] term { addop term }`
pub open spec fn is_simpexpr(s: Seq<C1Token>, i: int, j: int) -> bool
    decreases j - i, 5int,
{
    ||| is_term_list(s, i, j)
    ||| (i < j && has_token(s, i, C1Token::Minus) && is_term_list(s, i + 1, j))
}

/// `expr = simpexpr [ relop simpexpr ]`
pub open spec fn is_expr(s: Seq<C1Token>, i: int, j: int) -> bool
    decreases j - i, 6int,
{
    ||| is_simpexpr(s, i, j)
    ||| exists|k: int|
        {
            &&& #[trigger] cut(k)
            &&& i < k && k < j
            &&& is_simpexpr(s, i, k)
            &&& has_rel_op(s, k)
            &&& is_simpexpr(s, k + 1, j)
        }
}

/// `assignment = identifier "=" assignment | expr`
pub open spec fn is_assignment(s: Seq<C1Token>, i: int, j: int) -> bool
    decreases j - i, 7int,
{
    ||| is_expr(s, i, j)
    ||| {
        &&& i + 2 <= j
        &&& has_token(s, i, C1Token::Identifier)
        &&& has_token(s, i + 1, C1Token::Assign)
        &&& is_assignment(s, i + 2, j)
    }
}

/// `statassignment = identifier "=" assignment`
pub open spec fn is_statassignment(s: Seq<C1Token>, i: int, j: int) -> bool {
    &&& i + 2 <= j
    &&& has_token(s, i, C1Token::Identifier)
    &&& has_token(s, i + 1, C1Token::Assign)
    &&& is_assignment(s, i + 2, j)
}

/// `ifstatement = "if" "(" assignment ")" block`
pub open spec fn is_ifstatement(s: Seq<C1Token>, i: int, j: int) -> bool
    decreases j - i, 0int,
{
    &&& has_token(s, i, C1Token::KwIf)
    &&& has_token(s, i + 1, C1Token::LeftParenthesis)
    &&& exists|k: int|
        {
            &&& #[trigger] cut(k)
            &&& i + 2 <= k && k < j
            &&& is_assignment(s, i + 2, k)
            &&& has_token(s, k, C1Token::RightParenthesis)
            &&& is_block(s, k + 1, j)
        }
}

/// `"return" [ assignment ] ";"`
pub open spec fn is_returnstatement(s: Seq<C1Token>, i: int, j: int) -> bool {
    &&& i + 2 <= j
    &&& has_token(s, i, C1Token::KwReturn)
    &&& (j == i + 2 || is_assignment(s, i + 1, j - 1))
    &&& has_token(s, j - 1, C1Token::Semicolon)
}

/// `"printf" "(" assignment ")" ";"`
pub open spec fn is_printf(s: Seq<C1Token>, i: int, j: int) -> bool {
    &&& i + 4 <= j
    &&& has_token(s, i, C1Token::KwPrintf)
    &&& has_token(s, i + 1, C1Token::LeftParenthesis)
    &&& is_assignment(s, i + 2, j - 2)
    &&& has_token(s, j - 2, C1Token::RightParenthesis)
    &&& has_token(s, j - 1, C1Token::Semicolon)
}

/// `statement = ifstatement | "return" [ assignment ] ";"
///            | "printf" "(" assignment ")" ";" | statassignment ";"
///            | functioncall ";"`
pub open spec fn is_statement(s: Seq<C1Token>, i: int, j: int) -> bool
    decreases j - i, 1int,
{
    ||| is_ifstatement(s, i, j)
    ||| is_returnstatement(s, i, j)
    ||| is_printf(s, i, j)
    ||| (is_statassignment(s, i, j - 1) && has_token(s, j - 1, C1Token::Semicolon))
    ||| (is_functioncall(s, i, j - 1) && has_token(s, j - 1, C1Token::Semicolon))
}

/// `block = "{" statementlist "}" | statement`
pub open spec fn is_block(s: Seq<C1Token>, i: int, j: int) -> bool
    decreases j - i, 2int,
{
    ||| is_statement(s, i, j)
    ||| {
        &&& i + 2 <= j
        &&& has_token(s, i, C1Token::LeftBrace)
        &&& is_statementlist(s, i + 1, j - 1)
        &&& has_token(s, j - 1, C1Token::RightBrace)
    }
}

/// `statementlist = { block }`
pub open spec fn is_statementlist(s: Seq<C1Token>, i: int, j: int) -> bool
    decreases j - i, 3int,
{
    ||| i == j
    ||| exists|k: int|
        {
            &&& #[trigger] cut(k)
            &&& i < k && k <= j
            &&& is_block(s, i, k)
            &&& is_statementlist(s, k, j)
        }
}

/// `functiondefinition = type identifier "(" ")" "{" statementlist "}"`
pub open spec fn is_functiondefinition(s: Seq<C1Token>, i: int, j: int) -> bool {
    &&& i + 6 <= j
    &&& has_type(s, i)
    &&& has_token(s, i + 1, C1Token::Identifier)
    &&& has_token(s, i + 2, C1Token::LeftParenthesis)
    &&& has_token(s, i + 3, C1Token::RightParenthesis)
    &&& has_token(s, i + 4, C1Token::LeftBrace)
    &&& is_statementlist(s, i + 5, j - 1)
    &&& has_token(s, j - 1, C1Token::RightBrace)
}

/// `{ functiondefinition }` over the span `[i, j)`.
pub open spec fn is_function_list(s: Seq<C1Token>, i: int, j: int) -> bool
    decreases j - i,
{
    ||| i == j
    ||| exists|k: int|
        {
            &&& #[trigger] cut(k)
            &&& i < k && k <= j
            &&& is_functiondefinition(s, i, k)
            &&& is_function_list(s, k, j)
        }
}

/// `program = { functiondefinition }`: the whole sequence is a list of
/// function definitions. The empty sequence is a program.
pub open spec fn is_program(s: Seq<C1Token>) -> bool {
    is_function_list(s, 0, s.len() as int)
}

} // verus!
