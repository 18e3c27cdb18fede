//! How far a procedure reaches: never beyond the end of the input, and a
//! failure never lies in front of the index at which the procedure started.
use vstd::prelude::*;
use crate::descent::{
    assignment_at, block_at, expr_at, factor_at, functioncall_at, functiondefinition_at,
    ifstatement_at, printf_at, program_at, remaining, returnstatement_at, simpexpr_at,
    simpexpr_rest_at, statassignment_at, statement_at, statementlist_at, term_at, term_list_at,
    term_rest_at, Step,
};
use crate::grammar::{has_add_op, has_mul_op, has_rel_op, has_token, token_at};
use crate::token::C1Token;

verus! {

/// The step, taken from index `i`, stays within the sequence: what it
/// consumes ends at or in front of the end, and where it fails, it fails at
/// an index from `i` to the end.
pub open spec fn within(s: Seq<C1Token>, i: int, step: Step) -> bool {
    match step {
        Ok(n) => i + n <= s.len(),
        Err(f) => i <= f.at <= s.len(),
    }
}

/// The step, taken from an identifier at index `i`, does not fail at that
/// identifier.
pub open spec fn passes_identifier(s: Seq<C1Token>, i: int, step: Step) -> bool {
    has_token(s, i, C1Token::Identifier) ==> match step {
        Ok(n) => n >= 1,
        Err(f) => i < f.at,
    }
}

/// `functioncall` stays within the sequence.
pub proof fn lemma_functioncall_bounds(s: Seq<C1Token>, i: int)
    requires
        0 <= i <= s.len(),
    ensures
        within(s, i, functioncall_at(s, i)),
{
}

/// `factor` stays within the sequence.
pub proof fn lemma_factor_bounds(s: Seq<C1Token>, i: int)
    requires
        0 <= i <= s.len(),
    ensures
        within(s, i, factor_at(s, i)),
        passes_identifier(s, i, factor_at(s, i)),
    decreases remaining(s, i), 0int,
{
    if has_token(s, i, C1Token::LeftParenthesis) {
        lemma_assignment_bounds(s, i + 1);
    }
}

/// The repetition behind a factor stays within the sequence.
pub proof fn lemma_term_rest_bounds(s: Seq<C1Token>, i: int)
    requires
        0 <= i <= s.len(),
    ensures
        within(s, i, term_rest_at(s, i)),
    decreases remaining(s, i), 1int,
{
    if has_mul_op(s, i) {
        lemma_factor_bounds(s, i + 1);
        if let Ok(n) = factor_at(s, i + 1) {
            lemma_term_rest_bounds(s, i + 1 + n);
        }
    }
}

/// `term` stays within the sequence.
pub proof fn lemma_term_bounds(s: Seq<C1Token>, i: int)
    requires
        0 <= i <= s.len(),
    ensures
        within(s, i, term_at(s, i)),
        passes_identifier(s, i, term_at(s, i)),
    decreases remaining(s, i), 2int,
{
    lemma_factor_bounds(s, i);
    if let Ok(n) = factor_at(s, i) {
        lemma_term_rest_bounds(s, i + n);
    }
}

/// The repetition behind a term stays within the sequence.
pub proof fn lemma_simpexpr_rest_bounds(s: Seq<C1Token>, i: int)
    requires
        0 <= i <= s.len(),
    ensures
        within(s, i, simpexpr_rest_at(s, i)),
    decreases remaining(s, i), 3int,
{
    if has_add_op(s, i) {
        lemma_term_bounds(s, i + 1);
        if let Ok(n) = term_at(s, i + 1) {
            lemma_simpexpr_rest_bounds(s, i + 1 + n);
        }
    }
}

/// A list of terms stays within the sequence.
pub proof fn lemma_term_list_bounds(s: Seq<C1Token>, i: int)
    requires
        0 <= i <= s.len(),
    ensures
        within(s, i, term_list_at(s, i)),
        passes_identifier(s, i, term_list_at(s, i)),
    decreases remaining(s, i), 4int,
{
    lemma_term_bounds(s, i);
    if let Ok(n) = term_at(s, i) {
        lemma_simpexpr_rest_bounds(s, i + n);
    }
}

/// `simpexpr` stays within the sequence.
pub proof fn lemma_simpexpr_bounds(s: Seq<C1Token>, i: int)
    requires
        0 <= i <= s.len(),
    ensures
        within(s, i, simpexpr_at(s, i)),
        passes_identifier(s, i, simpexpr_at(s, i)),
    decreases remaining(s, i), 5int,
{
    if has_token(s, i, C1Token::Minus) {
        lemma_term_list_bounds(s, i + 1);
    } else {
        lemma_term_list_bounds(s, i);
    }
}

/// `expr` stays within the sequence.
pub proof fn lemma_expr_bounds(s: Seq<C1Token>, i: int)
    requires
        0 <= i <= s.len(),
    ensures
        within(s, i, expr_at(s, i)),
        passes_identifier(s, i, expr_at(s, i)),
    decreases remaining(s, i), 6int,
{
    lemma_simpexpr_bounds(s, i);
    if let Ok(n) = simpexpr_at(s, i) {
        if has_rel_op(s, i + n) {
            lemma_simpexpr_bounds(s, i + n + 1);
        }
    }
}

/// `assignment` stays within the sequence.
pub proof fn lemma_assignment_bounds(s: Seq<C1Token>, i: int)
    requires
        0 <= i <= s.len(),
    ensures
        within(s, i, assignment_at(s, i)),
        passes_identifier(s, i, assignment_at(s, i)),
    decreases remaining(s, i), 7int,
{
    if has_token(s, i, C1Token::Identifier) && has_token(s, i + 1, C1Token::Assign) {
        lemma_assignment_bounds(s, i + 2);
    } else {
        lemma_expr_bounds(s, i);
    }
}

/// `statassignment` stays within the sequence.
pub proof fn lemma_statassignment_bounds(s: Seq<C1Token>, i: int)
    requires
        0 <= i <= s.len(),
    ensures
        within(s, i, statassignment_at(s, i)),
{
    if has_token(s, i, C1Token::Identifier) && has_token(s, i + 1, C1Token::Assign) {
        lemma_assignment_bounds(s, i + 2);
    }
}

/// `return` with its value stays within the sequence.
pub proof fn lemma_returnstatement_bounds(s: Seq<C1Token>, i: int)
    requires
        0 <= i <= s.len(),
    ensures
        within(s, i, returnstatement_at(s, i)),
{
    if has_token(s, i, C1Token::KwReturn) {
        lemma_assignment_bounds(s, i + 1);
    }
}

/// `printf` with its argument stays within the sequence.
pub proof fn lemma_printf_bounds(s: Seq<C1Token>, i: int)
    requires
        0 <= i <= s.len(),
    ensures
        within(s, i, printf_at(s, i)),
{
    if has_token(s, i, C1Token::KwPrintf) && has_token(s, i + 1, C1Token::LeftParenthesis) {
        lemma_assignment_bounds(s, i + 2);
    }
}

/// `ifstatement` stays within the sequence.
pub proof fn lemma_ifstatement_bounds(s: Seq<C1Token>, i: int)
    requires
        0 <= i <= s.len(),
    ensures
        within(s, i, ifstatement_at(s, i)),
    decreases remaining(s, i), 0int,
{
    if has_token(s, i, C1Token::KwIf) && has_token(s, i + 1, C1Token::LeftParenthesis) {
        lemma_assignment_bounds(s, i + 2);
        if let Ok(a) = assignment_at(s, i + 2) {
            if has_token(s, i + 2 + a, C1Token::RightParenthesis) {
                lemma_block_bounds(s, i + 2 + a + 1);
            }
        }
    }
}

/// `statement` stays within the sequence.
pub proof fn lemma_statement_bounds(s: Seq<C1Token>, i: int)
    requires
        0 <= i <= s.len(),
    ensures
        within(s, i, statement_at(s, i)),
    decreases remaining(s, i), 1int,
{
    match token_at(s, i) {
        Some(C1Token::KwIf) => {
            lemma_ifstatement_bounds(s, i);
        },
        Some(C1Token::KwReturn) => {
            lemma_returnstatement_bounds(s, i);
        },
        Some(C1Token::KwPrintf) => {
            lemma_printf_bounds(s, i);
        },
        Some(C1Token::Identifier) => {
            lemma_statassignment_bounds(s, i);
            lemma_functioncall_bounds(s, i);
        },
        _ => {},
    }
}

/// `block` stays within the sequence.
pub proof fn lemma_block_bounds(s: Seq<C1Token>, i: int)
    requires
        0 <= i <= s.len(),
    ensures
        within(s, i, block_at(s, i)),
    decreases remaining(s, i), 2int,
{
    if has_token(s, i, C1Token::LeftBrace) {
        lemma_statementlist_bounds(s, i + 1);
    } else {
        lemma_statement_bounds(s, i);
    }
}

/// `statementlist` stays within the sequence.
pub proof fn lemma_statementlist_bounds(s: Seq<C1Token>, i: int)
    requires
        0 <= i <= s.len(),
    ensures
        within(s, i, statementlist_at(s, i)),
    decreases remaining(s, i), 3int,
{
    if !has_token(s, i, C1Token::RightBrace) && token_at(s, i) is Some {
        lemma_block_bounds(s, i);
        if let Ok(n) = block_at(s, i) {
            if n > 0 {
                lemma_statementlist_bounds(s, i + n);
            }
        }
    }
}

/// `functiondefinition` stays within the sequence.
pub proof fn lemma_functiondefinition_bounds(s: Seq<C1Token>, i: int)
    requires
        0 <= i <= s.len(),
    ensures
        within(s, i, functiondefinition_at(s, i)),
{
    if crate::descent::function_head_at(s, i) is Ok {
        lemma_statementlist_bounds(s, i + 5);
    }
}

/// `program` stays within the sequence.
pub proof fn lemma_program_bounds(s: Seq<C1Token>, i: int)
    requires
        0 <= i <= s.len(),
    ensures
        within(s, i, program_at(s, i)),
    decreases remaining(s, i),
{
    if token_at(s, i) is Some {
        lemma_functiondefinition_bounds(s, i);
        if let Ok(n) = functiondefinition_at(s, i) {
            lemma_program_bounds(s, i + n);
        }
    }
}

} // verus!
