//! Up to the index of a failure, the input is the beginning of a program.
//!
//! Where a procedure fails, the tokens in front of the failure can be
//! continued to a span that its nonterminal derives. The lemmas here build
//! such a continuation: they keep the tokens in front of the failure and
//! append what is missing.
use vstd::prelude::*;
use crate::bounds::{
    lemma_assignment_bounds, lemma_block_bounds, lemma_factor_bounds,
    lemma_functiondefinition_bounds, lemma_program_bounds, lemma_simpexpr_bounds,
    lemma_simpexpr_rest_bounds, lemma_statementlist_bounds, lemma_term_bounds,
    lemma_term_list_bounds, lemma_term_rest_bounds,
};
use crate::descent::{
    assignment_at, block_at, expr_at, factor_at, functiondefinition_at, ifstatement_at, program_at,
    remaining, simpexpr_at, simpexpr_rest_at, statement_at, statementlist_at, term_at, term_list_at,
    term_rest_at,
};
use crate::grammar::{
    cut, has_token, is_assignment, is_block, is_expr, is_factor, is_function_list, is_functioncall,
    is_functiondefinition, is_ifstatement, is_printf, is_returnstatement, is_simpexpr,
    is_simpexpr_tail, is_statassignment, is_statement, is_statementlist, is_term, is_term_list,
    is_term_tail, token_at,
};
use crate::soundness::{
    lemma_assignment_sound, lemma_block_sound, lemma_factor_sound, lemma_functiondefinition_sound,
    lemma_simpexpr_sound, lemma_statementlist_sound, lemma_term_sound,
};
use crate::token::C1Token;
use crate::transport::{
    lemma_assignment_carries, lemma_block_carries, lemma_factor_carries,
    lemma_functiondefinition_carries, lemma_simpexpr_carries, lemma_statementlist_carries,
    lemma_term_carries, same_prefix,
};

verus! {

/// A single identifier is an assignment.
pub proof fn lemma_identifier_is_assignment(t: Seq<C1Token>, i: int)
    requires
        has_token(t, i, C1Token::Identifier),
    ensures
        is_assignment(t, i, i + 1),
{
    assert(is_factor(t, i, i + 1));
    assert(is_term_tail(t, i + 1, i + 1));
    assert(cut(i + 1));
    assert(is_term(t, i, i + 1));
    assert(is_simpexpr_tail(t, i + 1, i + 1));
    assert(is_term_list(t, i, i + 1));
    assert(is_simpexpr(t, i, i + 1));
    assert(is_expr(t, i, i + 1));
}

/// Where `factor` fails, the tokens in front of the failure can be continued
/// to a factor.
pub proof fn lemma_factor_completion(s: Seq<C1Token>, i: int) -> (t: Seq<C1Token>)
    requires
        0 <= i <= s.len(),
        factor_at(s, i) is Err,
    ensures
        factor_at(s, i) matches Err(f) && same_prefix(s, t, f.at) && is_factor(
            t,
            i,
            t.len() as int,
        ),
    decreases remaining(s, i), 0int,
{
    if has_token(s, i, C1Token::Identifier) {
        let t = s.subrange(0, i + 2).push(C1Token::RightParenthesis);
        assert(is_functioncall(t, i, i + 3));
        t
    } else if has_token(s, i, C1Token::LeftParenthesis) {
        lemma_assignment_bounds(s, i + 1);
        match assignment_at(s, i + 1) {
            Ok(n) => {
                let t = s.subrange(0, i + 1 + n).push(C1Token::RightParenthesis);
                lemma_assignment_sound(s, i + 1);
                lemma_assignment_carries(s, t, i + 1, i + 1 + n, i + 1 + n);
                t
            },
            Err(_) => {
                let u = lemma_assignment_completion(s, i + 1);
                let t = u.push(C1Token::RightParenthesis);
                lemma_assignment_carries(u, t, i + 1, u.len() as int, u.len() as int);
                t
            },
        }
    } else {
        let t = s.subrange(0, i).push(C1Token::Identifier);
        assert(is_factor(t, i, i + 1));
        t
    }
}

/// Where the repetition behind a factor fails, the tokens in front of the failure can be continued
/// to the tail of a term.
pub proof fn lemma_term_rest_completion(s: Seq<C1Token>, i: int) -> (t: Seq<C1Token>)
    requires
        0 <= i <= s.len(),
        term_rest_at(s, i) is Err,
    ensures
        term_rest_at(s, i) matches Err(f) && same_prefix(s, t, f.at) && is_term_tail(
            t,
            i,
            t.len() as int,
        ),
    decreases remaining(s, i), 1int,
{
    lemma_factor_bounds(s, i + 1);
    match factor_at(s, i + 1) {
        Ok(n) => {
            lemma_term_rest_bounds(s, i + 1 + n);
            let t = lemma_term_rest_completion(s, i + 1 + n);
            lemma_factor_sound(s, i + 1);
            lemma_factor_carries(s, t, i + 1, i + 1 + n, i + 1 + n);
            assert(cut(i + 1 + n));
            t
        },
        Err(_) => {
            let t = lemma_factor_completion(s, i + 1);
            assert(cut(t.len() as int));
            assert(is_term_tail(t, t.len() as int, t.len() as int));
            t
        },
    }
}

/// Where `term` fails, the tokens in front of the failure can be continued
/// to a term.
pub proof fn lemma_term_completion(s: Seq<C1Token>, i: int) -> (t: Seq<C1Token>)
    requires
        0 <= i <= s.len(),
        term_at(s, i) is Err,
    ensures
        term_at(s, i) matches Err(f) && same_prefix(s, t, f.at) && is_term(t, i, t.len() as int),
    decreases remaining(s, i), 2int,
{
    lemma_factor_bounds(s, i);
    match factor_at(s, i) {
        Ok(n) => {
            lemma_term_rest_bounds(s, i + n);
            let t = lemma_term_rest_completion(s, i + n);
            lemma_factor_sound(s, i);
            lemma_factor_carries(s, t, i, i + n, i + n);
            assert(cut(i + n));
            t
        },
        Err(_) => {
            let t = lemma_factor_completion(s, i);
            assert(cut(t.len() as int));
            assert(is_term_tail(t, t.len() as int, t.len() as int));
            t
        },
    }
}

/// Where the repetition behind a term fails, the tokens in front of the failure can be continued
/// to the tail of a simple expression.
pub proof fn lemma_simpexpr_rest_completion(s: Seq<C1Token>, i: int) -> (t: Seq<C1Token>)
    requires
        0 <= i <= s.len(),
        simpexpr_rest_at(s, i) is Err,
    ensures
        simpexpr_rest_at(s, i) matches Err(f) && same_prefix(s, t, f.at) && is_simpexpr_tail(
            t,
            i,
            t.len() as int,
        ),
    decreases remaining(s, i), 3int,
{
    lemma_term_bounds(s, i + 1);
    match term_at(s, i + 1) {
        Ok(n) => {
            lemma_simpexpr_rest_bounds(s, i + 1 + n);
            let t = lemma_simpexpr_rest_completion(s, i + 1 + n);
            lemma_term_sound(s, i + 1);
            lemma_term_carries(s, t, i + 1, i + 1 + n, i + 1 + n);
            assert(cut(i + 1 + n));
            t
        },
        Err(_) => {
            let t = lemma_term_completion(s, i + 1);
            assert(cut(t.len() as int));
            assert(is_simpexpr_tail(t, t.len() as int, t.len() as int));
            t
        },
    }
}

/// Where a list of terms fails, the tokens in front of the failure can be continued
/// to a list of terms.
pub proof fn lemma_term_list_completion(s: Seq<C1Token>, i: int) -> (t: Seq<C1Token>)
    requires
        0 <= i <= s.len(),
        term_list_at(s, i) is Err,
    ensures
        term_list_at(s, i) matches Err(f) && same_prefix(s, t, f.at) && is_term_list(
            t,
            i,
            t.len() as int,
        ),
    decreases remaining(s, i), 4int,
{
    lemma_term_bounds(s, i);
    match term_at(s, i) {
        Ok(n) => {
            lemma_simpexpr_rest_bounds(s, i + n);
            let t = lemma_simpexpr_rest_completion(s, i + n);
            lemma_term_sound(s, i);
            lemma_term_carries(s, t, i, i + n, i + n);
            assert(cut(i + n));
            t
        },
        Err(_) => {
            let t = lemma_term_completion(s, i);
            assert(cut(t.len() as int));
            assert(is_simpexpr_tail(t, t.len() as int, t.len() as int));
            t
        },
    }
}

/// Where `simpexpr` fails, the tokens in front of the failure can be continued
/// to a simple expression.
pub proof fn lemma_simpexpr_completion(s: Seq<C1Token>, i: int) -> (t: Seq<C1Token>)
    requires
        0 <= i <= s.len(),
        simpexpr_at(s, i) is Err,
    ensures
        simpexpr_at(s, i) matches Err(f) && same_prefix(s, t, f.at) && is_simpexpr(
            t,
            i,
            t.len() as int,
        ),
    decreases remaining(s, i), 5int,
{
    if has_token(s, i, C1Token::Minus) {
        lemma_term_list_bounds(s, i + 1);
        let t = lemma_term_list_completion(s, i + 1);
        crate::completeness::lemma_term_list_first(t, i + 1, t.len() as int);
        t
    } else {
        lemma_term_list_completion(s, i)
    }
}

/// Where `expr` fails, the tokens in front of the failure can be continued
/// to an expression.
pub proof fn lemma_expr_completion(s: Seq<C1Token>, i: int) -> (t: Seq<C1Token>)
    requires
        0 <= i <= s.len(),
        expr_at(s, i) is Err,
    ensures
        expr_at(s, i) matches Err(f) && same_prefix(s, t, f.at) && is_expr(t, i, t.len() as int),
    decreases remaining(s, i), 6int,
{
    lemma_simpexpr_bounds(s, i);
    match simpexpr_at(s, i) {
        Ok(n) => {
            lemma_simpexpr_bounds(s, i + n + 1);
            let t = lemma_simpexpr_completion(s, i + n + 1);
            lemma_simpexpr_sound(s, i);
            lemma_simpexpr_carries(s, t, i, i + n, i + n);
            assert(cut(i + n));
            t
        },
        Err(_) => lemma_simpexpr_completion(s, i),
    }
}

/// Where `assignment` fails, the tokens in front of the failure can be continued
/// to an assignment.
pub proof fn lemma_assignment_completion(s: Seq<C1Token>, i: int) -> (t: Seq<C1Token>)
    requires
        0 <= i <= s.len(),
        assignment_at(s, i) is Err,
    ensures
        assignment_at(s, i) matches Err(f) && same_prefix(s, t, f.at) && is_assignment(
            t,
            i,
            t.len() as int,
        ),
    decreases remaining(s, i), 7int,
{
    if has_token(s, i, C1Token::Identifier) && has_token(s, i + 1, C1Token::Assign) {
        lemma_assignment_bounds(s, i + 2);
        let t = lemma_assignment_completion(s, i + 2);
        crate::completeness::lemma_assignment_first(t, i + 2, t.len() as int);
        t
    } else {
        lemma_expr_completion(s, i)
    }
}

/// Where `ifstatement` fails, the tokens in front of the failure can be continued
/// to an if statement.
#[verifier::rlimit(40)]
pub proof fn lemma_ifstatement_completion(s: Seq<C1Token>, i: int) -> (t: Seq<C1Token>)
    requires
        0 <= i <= s.len(),
        has_token(s, i, C1Token::KwIf),
        ifstatement_at(s, i) is Err,
    ensures
        ifstatement_at(s, i) matches Err(f) && same_prefix(s, t, f.at) && is_ifstatement(
            t,
            i,
            t.len() as int,
        ),
    decreases remaining(s, i), 0int,
{
    if !has_token(s, i + 1, C1Token::LeftParenthesis) {
        let t = s.subrange(0, i + 1).push(C1Token::LeftParenthesis).push(
            C1Token::Identifier,
        ).push(C1Token::RightParenthesis).push(C1Token::LeftBrace).push(C1Token::RightBrace);
        lemma_identifier_is_assignment(t, i + 2);
        assert(cut(i + 3));
        assert(is_statementlist(t, i + 5, i + 5));
        assert(is_block(t, i + 4, i + 6));
        t
    } else {
        lemma_assignment_bounds(s, i + 2);
        match assignment_at(s, i + 2) {
            Ok(n) => {
                lemma_assignment_sound(s, i + 2);
                if !has_token(s, i + 2 + n, C1Token::RightParenthesis) {
                    let t = s.subrange(0, i + 2 + n).push(C1Token::RightParenthesis).push(
                        C1Token::LeftBrace,
                    ).push(C1Token::RightBrace);
                    lemma_assignment_carries(s, t, i + 2, i + 2 + n, i + 2 + n);
                    assert(cut(i + 2 + n));
                    assert(is_statementlist(t, i + 4 + n, i + 4 + n));
                    assert(is_block(t, i + 3 + n, i + 5 + n));
                    t
                } else {
                    lemma_block_bounds(s, i + 3 + n);
                    let t = lemma_block_completion(s, i + 3 + n);
                    lemma_assignment_carries(s, t, i + 2, i + 2 + n, i + 2 + n);
                    crate::completeness::lemma_block_first(t, i + 3 + n, t.len() as int);
                    assert(cut(i + 2 + n));
                    t
                }
            },
            Err(_) => {
                let u = lemma_assignment_completion(s, i + 2);
                let k = u.len() as int;
                let t = u.push(C1Token::RightParenthesis).push(C1Token::LeftBrace).push(
                    C1Token::RightBrace,
                );
                lemma_assignment_carries(u, t, i + 2, k, k);
                assert(cut(k));
                assert(is_statementlist(t, k + 2, k + 2));
                assert(is_block(t, k + 1, k + 3));
                t
            },
        }
    }
}

/// Where a return statement fails, the tokens in front of the failure can
/// be continued to one.
pub proof fn lemma_return_completion(s: Seq<C1Token>, i: int) -> (t: Seq<C1Token>)
    requires
        0 <= i <= s.len(),
        has_token(s, i, C1Token::KwReturn),
        statement_at(s, i) is Err,
    ensures
        statement_at(s, i) matches Err(f) && same_prefix(s, t, f.at) && is_returnstatement(
            t,
            i,
            t.len() as int,
        ),
{
    lemma_assignment_bounds(s, i + 1);
    match assignment_at(s, i + 1) {
        Ok(n) => {
            lemma_assignment_sound(s, i + 1);
            let t = s.subrange(0, i + 1 + n).push(C1Token::Semicolon);
            lemma_assignment_carries(s, t, i + 1, i + 1 + n, i + 1 + n);
            t
        },
        Err(_) => {
            let u = lemma_assignment_completion(s, i + 1);
            let t = u.push(C1Token::Semicolon);
            lemma_assignment_carries(u, t, i + 1, u.len() as int, u.len() as int);
            t
        },
    }
}

/// Where a print statement fails, the tokens in front of the failure can be
/// continued to one.
pub proof fn lemma_printf_completion(s: Seq<C1Token>, i: int) -> (t: Seq<C1Token>)
    requires
        0 <= i <= s.len(),
        has_token(s, i, C1Token::KwPrintf),
        statement_at(s, i) is Err,
    ensures
        statement_at(s, i) matches Err(f) && same_prefix(s, t, f.at) && is_printf(
            t,
            i,
            t.len() as int,
        ),
{
    if !has_token(s, i + 1, C1Token::LeftParenthesis) {
        let t = s.subrange(0, i + 1).push(C1Token::LeftParenthesis).push(
            C1Token::Identifier,
        ).push(C1Token::RightParenthesis).push(C1Token::Semicolon);
        lemma_identifier_is_assignment(t, i + 2);
        t
    } else {
        lemma_assignment_bounds(s, i + 2);
        match assignment_at(s, i + 2) {
            Ok(n) => {
                lemma_assignment_sound(s, i + 2);
                if has_token(s, i + 2 + n, C1Token::RightParenthesis) {
                    let t = s.subrange(0, i + 3 + n).push(C1Token::Semicolon);
                    lemma_assignment_carries(s, t, i + 2, i + 2 + n, i + 2 + n);
                    t
                } else {
                    let t = s.subrange(0, i + 2 + n).push(C1Token::RightParenthesis).push(
                        C1Token::Semicolon,
                    );
                    lemma_assignment_carries(s, t, i + 2, i + 2 + n, i + 2 + n);
                    t
                }
            },
            Err(_) => {
                let u = lemma_assignment_completion(s, i + 2);
                let t = u.push(C1Token::RightParenthesis).push(C1Token::Semicolon);
                lemma_assignment_carries(u, t, i + 2, u.len() as int, u.len() as int);
                t
            },
        }
    }
}

/// Where a statement that begins with an identifier fails, the tokens in
/// front of the failure can be continued to an assignment statement or a
/// function call with its semicolon.
pub proof fn lemma_identifier_completion(s: Seq<C1Token>, i: int) -> (t: Seq<C1Token>)
    requires
        0 <= i <= s.len(),
        has_token(s, i, C1Token::Identifier),
        statement_at(s, i) is Err,
    ensures
        statement_at(s, i) matches Err(f) && same_prefix(s, t, f.at),
        has_token(t, t.len() - 1, C1Token::Semicolon),
        is_statassignment(t, i, t.len() - 1) || is_functioncall(t, i, t.len() - 1),
{
    if has_token(s, i + 1, C1Token::Assign) {
        lemma_assignment_bounds(s, i + 2);
        match assignment_at(s, i + 2) {
            Ok(n) => {
                lemma_assignment_sound(s, i + 2);
                let t = s.subrange(0, i + 2 + n).push(C1Token::Semicolon);
                lemma_assignment_carries(s, t, i + 2, i + 2 + n, i + 2 + n);
                t
            },
            Err(_) => {
                let u = lemma_assignment_completion(s, i + 2);
                let t = u.push(C1Token::Semicolon);
                lemma_assignment_carries(u, t, i + 2, u.len() as int, u.len() as int);
                t
            },
        }
    } else if has_token(s, i + 1, C1Token::LeftParenthesis) {
        if has_token(s, i + 2, C1Token::RightParenthesis) {
            s.subrange(0, i + 3).push(C1Token::Semicolon)
        } else {
            s.subrange(0, i + 2).push(C1Token::RightParenthesis).push(C1Token::Semicolon)
        }
    } else {
        s.subrange(0, i + 1).push(C1Token::LeftParenthesis).push(
            C1Token::RightParenthesis,
        ).push(C1Token::Semicolon)
    }
}

/// Where `statement` fails, the tokens in front of the failure can be
/// continued to a statement.
pub proof fn lemma_statement_completion(s: Seq<C1Token>, i: int) -> (t: Seq<C1Token>)
    requires
        0 <= i <= s.len(),
        statement_at(s, i) is Err,
    ensures
        statement_at(s, i) matches Err(f) && same_prefix(s, t, f.at) && is_statement(
            t,
            i,
            t.len() as int,
        ),
    decreases remaining(s, i), 1int,
{
    if has_token(s, i, C1Token::KwIf) {
        lemma_ifstatement_completion(s, i)
    } else if has_token(s, i, C1Token::KwReturn) {
        lemma_return_completion(s, i)
    } else if has_token(s, i, C1Token::KwPrintf) {
        lemma_printf_completion(s, i)
    } else if has_token(s, i, C1Token::Identifier) {
        lemma_identifier_completion(s, i)
    } else {
        let t = s.subrange(0, i).push(C1Token::KwReturn).push(C1Token::Semicolon);
        assert(is_returnstatement(t, i, i + 2));
        t
    }
}

/// Where `block` fails, the tokens in front of the failure can be continued
/// to a block.
pub proof fn lemma_block_completion(s: Seq<C1Token>, i: int) -> (t: Seq<C1Token>)
    requires
        0 <= i <= s.len(),
        block_at(s, i) is Err,
    ensures
        block_at(s, i) matches Err(f) && same_prefix(s, t, f.at) && is_block(
            t,
            i,
            t.len() as int,
        ),
    decreases remaining(s, i), 2int,
{
    if has_token(s, i, C1Token::LeftBrace) {
        lemma_statementlist_bounds(s, i + 1);
        lemma_statementlist_sound(s, i + 1);
        let u = lemma_statementlist_completion(s, i + 1);
        let t = u.push(C1Token::RightBrace);
        lemma_statementlist_carries(u, t, i + 1, u.len() as int, u.len() as int);
        t
    } else {
        lemma_statement_completion(s, i)
    }
}

/// Where `statementlist` fails, the tokens in front of the failure can be continued
/// to a statement list.
pub proof fn lemma_statementlist_completion(s: Seq<C1Token>, i: int) -> (t: Seq<C1Token>)
    requires
        0 <= i <= s.len(),
        statementlist_at(s, i) is Err,
    ensures
        statementlist_at(s, i) matches Err(f) && same_prefix(s, t, f.at) && is_statementlist(
            t,
            i,
            t.len() as int,
        ),
    decreases remaining(s, i), 3int,
{
    if token_at(s, i) is None {
        s
    } else {
        lemma_block_bounds(s, i);
        match block_at(s, i) {
            Ok(n) => {
                crate::descent::lemma_block_advances(s, i);
                lemma_statementlist_bounds(s, i + n);
                let t = lemma_statementlist_completion(s, i + n);
                lemma_block_sound(s, i);
                lemma_block_carries(s, t, i, i + n, i + n);
                assert(cut(i + n));
                t
            },
            Err(_) => {
                let t = lemma_block_completion(s, i);
                crate::completeness::lemma_block_first(t, i, t.len() as int);
                assert(cut(t.len() as int));
                assert(is_statementlist(t, t.len() as int, t.len() as int));
                t
            },
        }
    }
}

/// Where `functiondefinition` fails, the tokens in front of the failure can be continued
/// to a function definition.
pub proof fn lemma_functiondefinition_completion(s: Seq<C1Token>, i: int) -> (t: Seq<C1Token>)
    requires
        0 <= i <= s.len(),
        functiondefinition_at(s, i) is Err,
    ensures
        functiondefinition_at(s, i) matches Err(f) && same_prefix(s, t, f.at)
            && is_functiondefinition(t, i, t.len() as int),
{
    if !crate::grammar::has_type(s, i) {
        let t = s.subrange(0, i).push(C1Token::KwInt).push(C1Token::Identifier).push(
            C1Token::LeftParenthesis,
        ).push(C1Token::RightParenthesis).push(C1Token::LeftBrace).push(C1Token::RightBrace);
        assert(is_statementlist(t, i + 5, i + 5));
        t
    } else if !has_token(s, i + 1, C1Token::Identifier) {
        let t = s.subrange(0, i + 1).push(C1Token::Identifier).push(
            C1Token::LeftParenthesis,
        ).push(C1Token::RightParenthesis).push(C1Token::LeftBrace).push(C1Token::RightBrace);
        assert(is_statementlist(t, i + 5, i + 5));
        t
    } else if !has_token(s, i + 2, C1Token::LeftParenthesis) {
        let t = s.subrange(0, i + 2).push(C1Token::LeftParenthesis).push(
            C1Token::RightParenthesis,
        ).push(C1Token::LeftBrace).push(C1Token::RightBrace);
        assert(is_statementlist(t, i + 5, i + 5));
        t
    } else if !has_token(s, i + 3, C1Token::RightParenthesis) {
        let t = s.subrange(0, i + 3).push(C1Token::RightParenthesis).push(
            C1Token::LeftBrace,
        ).push(C1Token::RightBrace);
        assert(is_statementlist(t, i + 5, i + 5));
        t
    } else if !has_token(s, i + 4, C1Token::LeftBrace) {
        let t = s.subrange(0, i + 4).push(C1Token::LeftBrace).push(C1Token::RightBrace);
        assert(is_statementlist(t, i + 5, i + 5));
        t
    } else {
        lemma_statementlist_bounds(s, i + 5);
        lemma_statementlist_sound(s, i + 5);
        let u = lemma_statementlist_completion(s, i + 5);
        let t = u.push(C1Token::RightBrace);
        lemma_statementlist_carries(u, t, i + 5, u.len() as int, u.len() as int);
        t
    }
}

/// Where `program` fails, the tokens in front of the failure can be continued
/// to a program.
pub proof fn lemma_program_completion(s: Seq<C1Token>, i: int) -> (t: Seq<C1Token>)
    requires
        0 <= i <= s.len(),
        program_at(s, i) is Err,
    ensures
        program_at(s, i) matches Err(f) && same_prefix(s, t, f.at) && is_function_list(
            t,
            i,
            t.len() as int,
        ),
    decreases remaining(s, i),
{
    lemma_functiondefinition_bounds(s, i);
    match functiondefinition_at(s, i) {
        Ok(n) => {
            lemma_program_bounds(s, i + n);
            let t = lemma_program_completion(s, i + n);
            lemma_functiondefinition_sound(s, i);
            lemma_functiondefinition_carries(s, t, i, i + n, i + n);
            assert(cut(i + n));
            t
        },
        Err(_) => {
            let t = lemma_functiondefinition_completion(s, i);
            assert(cut(t.len() as int));
            assert(is_function_list(t, t.len() as int, t.len() as int));
            t
        },
    }
}

} // verus!
