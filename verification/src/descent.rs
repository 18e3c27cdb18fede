//! What each grammar procedure does, as a function of the tokens and the
//! index at which it starts.
//!
//! A procedure either consumes a number of tokens or fails at an index with
//! the construct it was looking for there. These functions fix both: they
//! say how far each procedure reads and, where it gives up, which error it
//! reports. That the procedures accept exactly the spans that the grammar
//! derives is proved from these definitions elsewhere.
use vstd::prelude::*;
use crate::error::Expected;
use crate::grammar::{has_add_op, has_mul_op, has_rel_op, has_token, has_type, token_at};
use crate::token::C1Token;

verus! {

/// Where a procedure gave up, and what it was looking for there.
pub struct Failure {
    /// The index of the offending token; the length of the sequence where
    /// the input ended too early.
    pub at: int,
    /// The construct that was expected at that index.
    pub expected: Expected,
}

/// The number of tokens consumed, or the failure.
pub type Step = Result<nat, Failure>;

/// The number of tokens from index `i` to the end.
pub open spec fn remaining(s: Seq<C1Token>, i: int) -> int {
    if i < s.len() {
        s.len() - i
    } else {
        0
    }
}

/// Consumes the token `t` at index `i`, or fails there expecting `what`.
pub open spec fn expect_at(s: Seq<C1Token>, i: int, t: C1Token, what: Expected) -> Step {
    if has_token(s, i, t) {
        Ok(1)
    } else {
        Err(Failure { at: i, expected: what })
    }
}

/// A step of `n` tokens followed by the step `rest`.
pub open spec fn extend(n: nat, rest: Step) -> Step {
    match rest {
        Ok(m) => Ok(n + m),
        Err(f) => Err(f),
    }
}

/// The step `first`, taken from index `i`, followed by the token `t`.
pub open spec fn and_token(
    first: Step,
    s: Seq<C1Token>,
    i: int,
    t: C1Token,
    what: Expected,
) -> Step {
    match first {
        Ok(n) => extend(n, expect_at(s, i + n, t, what)),
        Err(f) => Err(f),
    }
}

/// `type`
pub open spec fn type_at(s: Seq<C1Token>, i: int) -> Step {
    if has_type(s, i) {
        Ok(1)
    } else {
        Err(Failure { at: i, expected: Expected::Type })
    }
}

/// `functioncall`
pub open spec fn functioncall_at(s: Seq<C1Token>, i: int) -> Step {
    and_token(
        and_token(
            expect_at(s, i, C1Token::Identifier, Expected::FunctionName),
            s,
            i,
            C1Token::LeftParenthesis,
            Expected::LeftParenthesis,
        ),
        s,
        i,
        C1Token::RightParenthesis,
        Expected::RightParenthesis,
    )
}

/// `factor`. An identifier is a function call where `(` stands behind it.
pub open spec fn factor_at(s: Seq<C1Token>, i: int) -> Step
    decreases remaining(s, i), 0int,
{
    match token_at(s, i) {
        Some(C1Token::Identifier) => if has_token(s, i + 1, C1Token::LeftParenthesis) {
            functioncall_at(s, i)
        } else {
            Ok(1)
        },
        Some(C1Token::ConstInt) | Some(C1Token::ConstFloat) | Some(C1Token::ConstBoolean) => Ok(1),
        Some(C1Token::LeftParenthesis) => and_token(
            extend(1, assignment_at(s, i + 1)),
            s,
            i,
            C1Token::RightParenthesis,
            Expected::RightParenthesis,
        ),
        _ => Err(Failure { at: i, expected: Expected::Factor }),
    }
}

/// `{ mulop factor }`: goes on for as long as a `*`, `/` or `&&` follows.
pub open spec fn term_rest_at(s: Seq<C1Token>, i: int) -> Step
    decreases remaining(s, i), 1int,
{
    if has_mul_op(s, i) {
        match factor_at(s, i + 1) {
            Ok(n) => extend(1 + n, term_rest_at(s, i + 1 + n)),
            Err(f) => Err(f),
        }
    } else {
        Ok(0)
    }
}

/// `term`
pub open spec fn term_at(s: Seq<C1Token>, i: int) -> Step
    decreases remaining(s, i), 2int,
{
    match factor_at(s, i) {
        Ok(n) => extend(n, term_rest_at(s, i + n)),
        Err(f) => Err(f),
    }
}

/// `{ addop term }`: goes on for as long as a `+`, `-` or `||` follows.
pub open spec fn simpexpr_rest_at(s: Seq<C1Token>, i: int) -> Step
    decreases remaining(s, i), 3int,
{
    if has_add_op(s, i) {
        match term_at(s, i + 1) {
            Ok(n) => extend(1 + n, simpexpr_rest_at(s, i + 1 + n)),
            Err(f) => Err(f),
        }
    } else {
        Ok(0)
    }
}

/// `term { addop term }`
pub open spec fn term_list_at(s: Seq<C1Token>, i: int) -> Step
    decreases remaining(s, i), 4int,
{
    match term_at(s, i) {
        Ok(n) => extend(n, simpexpr_rest_at(s, i + n)),
        Err(f) => Err(f),
    }
}

/// `simpexpr`. A leading `-` is consumed where there is one.
pub open spec fn simpexpr_at(s: Seq<C1Token>, i: int) -> Step
    decreases remaining(s, i), 5int,
{
    if has_token(s, i, C1Token::Minus) {
        extend(1, term_list_at(s, i + 1))
    } else {
        term_list_at(s, i)
    }
}

/// `expr`. A relational operator behind the first simple expression asks
/// for a second one.
pub open spec fn expr_at(s: Seq<C1Token>, i: int) -> Step
    decreases remaining(s, i), 6int,
{
    match simpexpr_at(s, i) {
        Ok(n) => if has_rel_op(s, i + n) {
            extend(n + 1, simpexpr_at(s, i + n + 1))
        } else {
            Ok(n)
        },
        Err(f) => Err(f),
    }
}

/// `assignment`. An identifier with `=` behind it opens a chained
/// assignment; anything else is an expression.
pub open spec fn assignment_at(s: Seq<C1Token>, i: int) -> Step
    decreases remaining(s, i), 7int,
{
    if has_token(s, i, C1Token::Identifier) && has_token(s, i + 1, C1Token::Assign) {
        extend(2, assignment_at(s, i + 2))
    } else {
        expr_at(s, i)
    }
}

/// `statassignment`
pub open spec fn statassignment_at(s: Seq<C1Token>, i: int) -> Step {
    match and_token(
        expect_at(s, i, C1Token::Identifier, Expected::VariableName),
        s,
        i,
        C1Token::Assign,
        Expected::Assign,
    ) {
        Ok(n) => extend(n, assignment_at(s, i + n)),
        Err(f) => Err(f),
    }
}

/// `"return" [ assignment ]`, without the semicolon. The assignment is left
/// out where `;` follows the keyword.
pub open spec fn returnstatement_at(s: Seq<C1Token>, i: int) -> Step {
    match expect_at(s, i, C1Token::KwReturn, Expected::Return) {
        Ok(n) => if has_token(s, i + n, C1Token::Semicolon) {
            Ok(n)
        } else {
            extend(n, assignment_at(s, i + n))
        },
        Err(f) => Err(f),
    }
}

/// `"printf" "(" assignment ")"`, without the semicolon.
pub open spec fn printf_at(s: Seq<C1Token>, i: int) -> Step {
    match and_token(
        expect_at(s, i, C1Token::KwPrintf, Expected::Printf),
        s,
        i,
        C1Token::LeftParenthesis,
        Expected::LeftParenthesis,
    ) {
        Ok(n) => and_token(
            extend(n, assignment_at(s, i + n)),
            s,
            i,
            C1Token::RightParenthesis,
            Expected::RightParenthesis,
        ),
        Err(f) => Err(f),
    }
}

/// `ifstatement`
pub open spec fn ifstatement_at(s: Seq<C1Token>, i: int) -> Step
    decreases remaining(s, i), 0int,
{
    match and_token(
        expect_at(s, i, C1Token::KwIf, Expected::If),
        s,
        i,
        C1Token::LeftParenthesis,
        Expected::LeftParenthesis,
    ) {
        Ok(n) => match and_token(
            extend(n, assignment_at(s, i + n)),
            s,
            i,
            C1Token::RightParenthesis,
            Expected::RightParenthesis,
        ) {
            Ok(m) => extend(m, block_at(s, i + m)),
            Err(f) => Err(f),
        },
        Err(f) => Err(f),
    }
}

/// `statement`. The first token selects the alternative; behind an
/// identifier the token after it does. Where that token is neither `=` nor
/// `(`, it is the offending one.
pub open spec fn statement_at(s: Seq<C1Token>, i: int) -> Step
    decreases remaining(s, i), 1int,
{
    match token_at(s, i) {
        None => Err(Failure { at: i, expected: Expected::Statement }),
        Some(C1Token::KwIf) => ifstatement_at(s, i),
        Some(C1Token::KwReturn) => and_token(
            returnstatement_at(s, i),
            s,
            i,
            C1Token::Semicolon,
            Expected::Semicolon,
        ),
        Some(C1Token::KwPrintf) => and_token(
            printf_at(s, i),
            s,
            i,
            C1Token::Semicolon,
            Expected::Semicolon,
        ),
        Some(C1Token::Identifier) => if has_token(s, i + 1, C1Token::Assign) {
            and_token(statassignment_at(s, i), s, i, C1Token::Semicolon, Expected::Semicolon)
        } else if has_token(s, i + 1, C1Token::LeftParenthesis) {
            and_token(functioncall_at(s, i), s, i, C1Token::Semicolon, Expected::Semicolon)
        } else {
            Err(Failure { at: i + 1, expected: Expected::AssignmentOrCall })
        },
        Some(_) => Err(Failure { at: i, expected: Expected::StatementStart }),
    }
}

/// `block`. `{` selects the nested form.
pub open spec fn block_at(s: Seq<C1Token>, i: int) -> Step
    decreases remaining(s, i), 2int,
{
    if has_token(s, i, C1Token::LeftBrace) {
        and_token(
            extend(1, statementlist_at(s, i + 1)),
            s,
            i,
            C1Token::RightBrace,
            Expected::RightBrace,
        )
    } else {
        statement_at(s, i)
    }
}

/// A statement is never empty: where `statement` succeeds, it has consumed
/// at least one token.
pub proof fn lemma_statement_advances(s: Seq<C1Token>, i: int)
    ensures
        statement_at(s, i) matches Ok(n) ==> n > 0,
{
    if token_at(s, i) == Some(C1Token::KwIf) {
        assert(ifstatement_at(s, i) matches Ok(n) ==> n > 0);
    }
}

/// A block is never empty: where `block` succeeds, it has consumed at least
/// one token.
pub proof fn lemma_block_advances(s: Seq<C1Token>, i: int)
    ensures
        block_at(s, i) matches Ok(n) ==> n > 0,
{
    lemma_statement_advances(s, i);
}

/// `statementlist`. It stops in front of `}` and leaves that token to its
/// caller; the end of the input in its place is an error. A block consumes
/// at least one token (`lemma_block_advances`), so the test `n > 0` never
/// fails: it stands here to show that the list comes to an end.
pub open spec fn statementlist_at(s: Seq<C1Token>, i: int) -> Step
    decreases remaining(s, i), 3int,
{
    if has_token(s, i, C1Token::RightBrace) {
        Ok(0)
    } else if token_at(s, i) is None {
        Err(Failure { at: i, expected: Expected::ClosingBracket })
    } else {
        match block_at(s, i) {
            Ok(n) => if n > 0 {
                extend(n, statementlist_at(s, i + n))
            } else {
                Ok(0)
            },
            Err(f) => Err(f),
        }
    }
}

/// The five tokens that open a function definition, up to and including
/// `{`.
pub open spec fn function_head_at(s: Seq<C1Token>, i: int) -> Step {
    and_token(
        and_token(
            and_token(
                and_token(type_at(s, i), s, i, C1Token::Identifier, Expected::FunctionName),
                s,
                i,
                C1Token::LeftParenthesis,
                Expected::LeftParenthesis,
            ),
            s,
            i,
            C1Token::RightParenthesis,
            Expected::RightParenthesis,
        ),
        s,
        i,
        C1Token::LeftBrace,
        Expected::LeftBrace,
    )
}

/// `functiondefinition`
pub open spec fn functiondefinition_at(s: Seq<C1Token>, i: int) -> Step {
    match function_head_at(s, i) {
        Ok(n) => and_token(
            extend(n, statementlist_at(s, i + n)),
            s,
            i,
            C1Token::RightBrace,
            Expected::RightBrace,
        ),
        Err(f) => Err(f),
    }
}

/// `program` from index `i`: function definitions until the input ends.
pub open spec fn program_at(s: Seq<C1Token>, i: int) -> Step
    decreases remaining(s, i),
{
    if token_at(s, i) is None {
        Ok(0)
    } else {
        match functiondefinition_at(s, i) {
            Ok(n) => extend(n, program_at(s, i + n)),
            Err(f) => Err(f),
        }
    }
}

} // verus!
