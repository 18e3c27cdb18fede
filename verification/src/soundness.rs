//! Whatever a procedure consumes is derived by its nonterminal.
use vstd::prelude::*;
use crate::descent::{
    assignment_at, block_at, expr_at, factor_at, functioncall_at, functiondefinition_at,
    ifstatement_at, printf_at, program_at, returnstatement_at, simpexpr_at, simpexpr_rest_at,
    statassignment_at, statement_at, statementlist_at, term_at, term_list_at, term_rest_at,
};
use crate::grammar::{
    cut, has_token, is_assignment, is_block, is_expr, is_factor, is_function_list, is_functioncall,
    is_functiondefinition, is_ifstatement, is_printf, is_returnstatement, is_simpexpr,
    is_simpexpr_tail, is_statassignment, is_statement, is_statementlist, is_term, is_term_list,
    is_term_tail, token_at,
};
use crate::token::C1Token;

verus! {

/// Where `functioncall` succeeds, the tokens consumed are a function call.
pub proof fn lemma_functioncall_sound(s: Seq<C1Token>, i: int)
    ensures
        functioncall_at(s, i) matches Ok(n) ==> n == 3 && is_functioncall(s, i, i + n),
{
}

/// Where `factor` succeeds, the tokens consumed are a factor.
pub proof fn lemma_factor_sound(s: Seq<C1Token>, i: int)
    ensures
        factor_at(s, i) matches Ok(n) ==> n >= 1 && is_factor(s, i, i + n),
    decreases crate::descent::remaining(s, i), 0int,
{
    if has_token(s, i, C1Token::LeftParenthesis) {
        lemma_assignment_sound(s, i + 1);
    }
}

/// Where the repetition behind a factor succeeds, the tokens consumed are
/// the tail of a term.
pub proof fn lemma_term_rest_sound(s: Seq<C1Token>, i: int)
    ensures
        term_rest_at(s, i) matches Ok(n) ==> is_term_tail(s, i, i + n),
    decreases crate::descent::remaining(s, i), 1int,
{
    if let Ok(n) = factor_at(s, i + 1) {
        if crate::grammar::has_mul_op(s, i) {
            lemma_factor_sound(s, i + 1);
            lemma_term_rest_sound(s, i + 1 + n);
            assert(cut(i + 1 + n));
        }
    }
}

/// Where `term` succeeds, the tokens consumed are a term.
pub proof fn lemma_term_sound(s: Seq<C1Token>, i: int)
    ensures
        term_at(s, i) matches Ok(n) ==> n >= 1 && is_term(s, i, i + n),
    decreases crate::descent::remaining(s, i), 2int,
{
    if let Ok(n) = factor_at(s, i) {
        lemma_factor_sound(s, i);
        lemma_term_rest_sound(s, i + n);
        assert(cut(i + n));
    }
}

/// Where the repetition behind a term succeeds, the tokens consumed are the
/// tail of a simple expression.
pub proof fn lemma_simpexpr_rest_sound(s: Seq<C1Token>, i: int)
    ensures
        simpexpr_rest_at(s, i) matches Ok(n) ==> is_simpexpr_tail(s, i, i + n),
    decreases crate::descent::remaining(s, i), 3int,
{
    if let Ok(n) = term_at(s, i + 1) {
        if crate::grammar::has_add_op(s, i) {
            lemma_term_sound(s, i + 1);
            lemma_simpexpr_rest_sound(s, i + 1 + n);
            assert(cut(i + 1 + n));
        }
    }
}

/// Where a list of terms succeeds, the tokens consumed are such a list.
pub proof fn lemma_term_list_sound(s: Seq<C1Token>, i: int)
    ensures
        term_list_at(s, i) matches Ok(n) ==> n >= 1 && is_term_list(s, i, i + n),
    decreases crate::descent::remaining(s, i), 4int,
{
    if let Ok(n) = term_at(s, i) {
        lemma_term_sound(s, i);
        lemma_simpexpr_rest_sound(s, i + n);
        assert(cut(i + n));
    }
}

/// Where `simpexpr` succeeds, the tokens consumed are a simple expression.
pub proof fn lemma_simpexpr_sound(s: Seq<C1Token>, i: int)
    ensures
        simpexpr_at(s, i) matches Ok(n) ==> n >= 1 && is_simpexpr(s, i, i + n),
    decreases crate::descent::remaining(s, i), 5int,
{
    if has_token(s, i, C1Token::Minus) {
        lemma_term_list_sound(s, i + 1);
    } else {
        lemma_term_list_sound(s, i);
    }
}

/// Where `expr` succeeds, the tokens consumed are an expression.
pub proof fn lemma_expr_sound(s: Seq<C1Token>, i: int)
    ensures
        expr_at(s, i) matches Ok(n) ==> n >= 1 && is_expr(s, i, i + n),
    decreases crate::descent::remaining(s, i), 6int,
{
    if let Ok(n) = simpexpr_at(s, i) {
        lemma_simpexpr_sound(s, i);
        if crate::grammar::has_rel_op(s, i + n) {
            lemma_simpexpr_sound(s, i + n + 1);
            assert(cut(i + n));
        }
    }
}

/// Where `assignment` succeeds, the tokens consumed are an assignment.
pub proof fn lemma_assignment_sound(s: Seq<C1Token>, i: int)
    ensures
        assignment_at(s, i) matches Ok(n) ==> n >= 1 && is_assignment(s, i, i + n),
    decreases crate::descent::remaining(s, i), 7int,
{
    if has_token(s, i, C1Token::Identifier) && has_token(s, i + 1, C1Token::Assign) {
        lemma_assignment_sound(s, i + 2);
    } else {
        lemma_expr_sound(s, i);
    }
}

/// Where `statassignment` succeeds, the tokens consumed are one.
pub proof fn lemma_statassignment_sound(s: Seq<C1Token>, i: int)
    ensures
        statassignment_at(s, i) matches Ok(n) ==> n >= 3 && is_statassignment(s, i, i + n),
{
    lemma_assignment_sound(s, i + 2);
}

/// Where `return` with its value succeeds, a semicolon behind it makes the
/// tokens a return statement.
pub proof fn lemma_returnstatement_sound(s: Seq<C1Token>, i: int)
    ensures
        returnstatement_at(s, i) matches Ok(n) ==> n >= 1 && (has_token(
            s,
            i + n,
            C1Token::Semicolon,
        ) ==> is_returnstatement(s, i, i + n + 1)),
{
    lemma_assignment_sound(s, i + 1);
}

/// Where `printf` with its argument succeeds, a semicolon behind it makes
/// the tokens a print statement.
pub proof fn lemma_printf_sound(s: Seq<C1Token>, i: int)
    ensures
        printf_at(s, i) matches Ok(n) ==> n >= 4 && (has_token(s, i + n, C1Token::Semicolon)
            ==> is_printf(s, i, i + n + 1)),
{
    lemma_assignment_sound(s, i + 2);
}

/// Where `ifstatement` succeeds, the tokens consumed are an if statement.
pub proof fn lemma_ifstatement_sound(s: Seq<C1Token>, i: int)
    ensures
        ifstatement_at(s, i) matches Ok(n) ==> n >= 1 && is_ifstatement(s, i, i + n),
    decreases crate::descent::remaining(s, i), 0int,
{
    if has_token(s, i, C1Token::KwIf) {
        lemma_assignment_sound(s, i + 2);
        if let Ok(a) = assignment_at(s, i + 2) {
            lemma_block_sound(s, i + 2 + a + 1);
            assert(cut(i + 2 + a));
        }
    }
}

/// Where `statement` succeeds, the tokens consumed are a statement.
pub proof fn lemma_statement_sound(s: Seq<C1Token>, i: int)
    ensures
        statement_at(s, i) matches Ok(n) ==> n >= 1 && is_statement(s, i, i + n),
    decreases crate::descent::remaining(s, i), 1int,
{
    match token_at(s, i) {
        Some(C1Token::KwIf) => {
            lemma_ifstatement_sound(s, i);
        },
        Some(C1Token::KwReturn) => {
            lemma_returnstatement_sound(s, i);
        },
        Some(C1Token::KwPrintf) => {
            lemma_printf_sound(s, i);
        },
        Some(C1Token::Identifier) => {
            lemma_statassignment_sound(s, i);
            lemma_functioncall_sound(s, i);
        },
        _ => {},
    }
}

/// Where `block` succeeds, the tokens consumed are a block.
pub proof fn lemma_block_sound(s: Seq<C1Token>, i: int)
    ensures
        block_at(s, i) matches Ok(n) ==> n >= 1 && is_block(s, i, i + n),
    decreases crate::descent::remaining(s, i), 2int,
{
    if has_token(s, i, C1Token::LeftBrace) {
        lemma_statementlist_sound(s, i + 1);
    } else {
        lemma_statement_sound(s, i);
    }
}

/// Where `statementlist` succeeds, the tokens consumed are a statement
/// list, and the token behind them is the `}` that closes the enclosing
/// block: the list has left it to its caller.
pub proof fn lemma_statementlist_sound(s: Seq<C1Token>, i: int)
    ensures
        statementlist_at(s, i) matches Ok(n) ==> is_statementlist(s, i, i + n) && has_token(
            s,
            i + n,
            C1Token::RightBrace,
        ),
    decreases crate::descent::remaining(s, i), 3int,
{
    if !has_token(s, i, C1Token::RightBrace) && token_at(s, i) is Some {
        lemma_block_sound(s, i);
        if let Ok(n) = block_at(s, i) {
            lemma_statementlist_sound(s, i + n);
            assert(cut(i + n));
        }
    }
}

/// Where `functiondefinition` succeeds, the tokens consumed are a function
/// definition.
pub proof fn lemma_functiondefinition_sound(s: Seq<C1Token>, i: int)
    ensures
        functiondefinition_at(s, i) matches Ok(n) ==> n >= 6 && is_functiondefinition(
            s,
            i,
            i + n,
        ),
{
    lemma_statementlist_sound(s, i + 5);
}

/// Where `program` succeeds from an index within the sequence, it has
/// consumed all tokens from there to the end, and they are a list of
/// function definitions.
pub proof fn lemma_program_sound(s: Seq<C1Token>, i: int)
    requires
        0 <= i <= s.len(),
    ensures
        program_at(s, i) matches Ok(n) ==> i + n == s.len() && is_function_list(
            s,
            i,
            s.len() as int,
        ),
    decreases crate::descent::remaining(s, i),
{
    if token_at(s, i) is Some {
        lemma_functiondefinition_sound(s, i);
        if let Ok(n) = functiondefinition_at(s, i) {
            lemma_program_sound(s, i + n);
            assert(cut(i + n));
        }
    }
}

} // verus!
