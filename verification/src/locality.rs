//! A procedure depends on the tokens it has looked at and on no others.
//!
//! A step that consumes `n` tokens from index `i` has looked at the tokens
//! up to and including index `i + n`, the one it stopped in front of. A step
//! that fails at an index has looked at the tokens up to and including that
//! index. Two sequences that agree on those tokens give the same step.
use vstd::prelude::*;
use crate::bounds::{
    lemma_assignment_bounds, lemma_block_bounds, lemma_expr_bounds, lemma_factor_bounds,
    lemma_functiondefinition_bounds, lemma_simpexpr_bounds, lemma_statementlist_bounds,
    lemma_term_bounds, lemma_term_list_bounds,
};
use crate::descent::{
    assignment_at, block_at, expr_at, factor_at, function_head_at, functioncall_at,
    functiondefinition_at, ifstatement_at, printf_at, program_at, remaining, returnstatement_at,
    simpexpr_at, simpexpr_rest_at, statassignment_at, statement_at, statementlist_at, term_at,
    term_list_at, term_rest_at, Step,
};
use crate::grammar::{has_add_op, has_mul_op, has_rel_op, has_token, token_at};
use crate::token::C1Token;

verus! {

/// The sequences `s` and `t` show the same at every index below `n`: the
/// same token, or the end of the input.
pub open spec fn agree(s: Seq<C1Token>, t: Seq<C1Token>, n: int) -> bool {
    &&& s.len() == t.len() || (n <= s.len() && n <= t.len())
    &&& forall|k: int|
        #![trigger s[k]]
        #![trigger t[k]]
        0 <= k < n && k < s.len() && k < t.len() ==> s[k] == t[k]
}

/// The number of leading tokens of the input that a step from index `i`
/// has looked at.
pub open spec fn reach(i: int, step: Step) -> int {
    match step {
        Ok(n) => i + n + 1,
        Err(f) => f.at + 1,
    }
}

/// `functioncall` gives the same step on sequences that agree on the tokens it has
/// looked at.
pub proof fn lemma_functioncall_local(s: Seq<C1Token>, t: Seq<C1Token>, i: int, p: int)
    requires
        0 <= i <= s.len(),
        agree(s, t, p),
        reach(i, functioncall_at(s, i)) <= p,
    ensures
        functioncall_at(t, i) == functioncall_at(s, i),
{
}

/// `factor` gives the same step on sequences that agree on the tokens it has
/// looked at.
pub proof fn lemma_factor_local(s: Seq<C1Token>, t: Seq<C1Token>, i: int, p: int)
    requires
        0 <= i <= s.len(),
        agree(s, t, p),
        reach(i, factor_at(s, i)) <= p,
    ensures
        factor_at(t, i) == factor_at(s, i),
    decreases remaining(s, i), 0int,
{
    if has_token(s, i, C1Token::LeftParenthesis) {
        lemma_assignment_bounds(s, i + 1);
        lemma_assignment_local(s, t, i + 1, p);
    }
}

/// The repetition behind a factor gives the same step on sequences that agree on the tokens it has
/// looked at.
pub proof fn lemma_term_rest_local(s: Seq<C1Token>, t: Seq<C1Token>, i: int, p: int)
    requires
        0 <= i <= s.len(),
        agree(s, t, p),
        reach(i, term_rest_at(s, i)) <= p,
    ensures
        term_rest_at(t, i) == term_rest_at(s, i),
    decreases remaining(s, i), 1int,
{
    if has_mul_op(s, i) {
        lemma_factor_bounds(s, i + 1);
        if let Ok(n) = factor_at(s, i + 1) {
            crate::bounds::lemma_term_rest_bounds(s, i + 1 + n);
            lemma_factor_local(s, t, i + 1, p);
            lemma_term_rest_local(s, t, i + 1 + n, p);
        } else {
            lemma_factor_local(s, t, i + 1, p);
        }
    }
}

/// `term` gives the same step on sequences that agree on the tokens it has
/// looked at.
pub proof fn lemma_term_local(s: Seq<C1Token>, t: Seq<C1Token>, i: int, p: int)
    requires
        0 <= i <= s.len(),
        agree(s, t, p),
        reach(i, term_at(s, i)) <= p,
    ensures
        term_at(t, i) == term_at(s, i),
    decreases remaining(s, i), 2int,
{
    lemma_factor_bounds(s, i);
    if let Ok(n) = factor_at(s, i) {
        crate::bounds::lemma_term_rest_bounds(s, i + n);
        lemma_factor_local(s, t, i, p);
        lemma_term_rest_local(s, t, i + n, p);
    } else {
        lemma_factor_local(s, t, i, p);
    }
}

/// The repetition behind a term gives the same step on sequences that agree on the tokens it has
/// looked at.
pub proof fn lemma_simpexpr_rest_local(s: Seq<C1Token>, t: Seq<C1Token>, i: int, p: int)
    requires
        0 <= i <= s.len(),
        agree(s, t, p),
        reach(i, simpexpr_rest_at(s, i)) <= p,
    ensures
        simpexpr_rest_at(t, i) == simpexpr_rest_at(s, i),
    decreases remaining(s, i), 3int,
{
    if has_add_op(s, i) {
        lemma_term_bounds(s, i + 1);
        if let Ok(n) = term_at(s, i + 1) {
            crate::bounds::lemma_simpexpr_rest_bounds(s, i + 1 + n);
            lemma_term_local(s, t, i + 1, p);
            lemma_simpexpr_rest_local(s, t, i + 1 + n, p);
        } else {
            lemma_term_local(s, t, i + 1, p);
        }
    }
}

/// A list of terms gives the same step on sequences that agree on the tokens it has
/// looked at.
pub proof fn lemma_term_list_local(s: Seq<C1Token>, t: Seq<C1Token>, i: int, p: int)
    requires
        0 <= i <= s.len(),
        agree(s, t, p),
        reach(i, term_list_at(s, i)) <= p,
    ensures
        term_list_at(t, i) == term_list_at(s, i),
    decreases remaining(s, i), 4int,
{
    lemma_term_bounds(s, i);
    if let Ok(n) = term_at(s, i) {
        crate::bounds::lemma_simpexpr_rest_bounds(s, i + n);
        lemma_term_local(s, t, i, p);
        lemma_simpexpr_rest_local(s, t, i + n, p);
    } else {
        lemma_term_local(s, t, i, p);
    }
}

/// `simpexpr` gives the same step on sequences that agree on the tokens it has
/// looked at.
pub proof fn lemma_simpexpr_local(s: Seq<C1Token>, t: Seq<C1Token>, i: int, p: int)
    requires
        0 <= i <= s.len(),
        agree(s, t, p),
        reach(i, simpexpr_at(s, i)) <= p,
    ensures
        simpexpr_at(t, i) == simpexpr_at(s, i),
    decreases remaining(s, i), 5int,
{
    if has_token(s, i, C1Token::Minus) {
        lemma_term_list_bounds(s, i + 1);
        lemma_term_list_local(s, t, i + 1, p);
    } else {
        lemma_term_list_bounds(s, i);
        lemma_term_list_local(s, t, i, p);
    }
}

/// `expr` gives the same step on sequences that agree on the tokens it has
/// looked at.
pub proof fn lemma_expr_local(s: Seq<C1Token>, t: Seq<C1Token>, i: int, p: int)
    requires
        0 <= i <= s.len(),
        agree(s, t, p),
        reach(i, expr_at(s, i)) <= p,
    ensures
        expr_at(t, i) == expr_at(s, i),
    decreases remaining(s, i), 6int,
{
    lemma_simpexpr_bounds(s, i);
    if let Ok(n) = simpexpr_at(s, i) {
        if has_rel_op(s, i + n) {
            lemma_simpexpr_bounds(s, i + n + 1);
            lemma_simpexpr_local(s, t, i, p);
            lemma_simpexpr_local(s, t, i + n + 1, p);
        } else {
            lemma_simpexpr_local(s, t, i, p);
        }
    } else {
        lemma_simpexpr_local(s, t, i, p);
    }
}

/// `assignment` gives the same step on sequences that agree on the tokens it has
/// looked at.
pub proof fn lemma_assignment_local(s: Seq<C1Token>, t: Seq<C1Token>, i: int, p: int)
    requires
        0 <= i <= s.len(),
        agree(s, t, p),
        reach(i, assignment_at(s, i)) <= p,
    ensures
        assignment_at(t, i) == assignment_at(s, i),
    decreases remaining(s, i), 7int,
{
    lemma_assignment_bounds(s, i);
    if has_token(s, i, C1Token::Identifier) && has_token(s, i + 1, C1Token::Assign) {
        lemma_assignment_bounds(s, i + 2);
        lemma_assignment_local(s, t, i + 2, p);
    } else {
        lemma_expr_bounds(s, i);
        lemma_expr_local(s, t, i, p);
    }
}

/// `statassignment` gives the same step on sequences that agree on the tokens it has
/// looked at.
pub proof fn lemma_statassignment_local(s: Seq<C1Token>, t: Seq<C1Token>, i: int, p: int)
    requires
        0 <= i <= s.len(),
        agree(s, t, p),
        reach(i, statassignment_at(s, i)) <= p,
    ensures
        statassignment_at(t, i) == statassignment_at(s, i),
{
    if has_token(s, i, C1Token::Identifier) && has_token(s, i + 1, C1Token::Assign) {
        lemma_assignment_bounds(s, i + 2);
        lemma_assignment_local(s, t, i + 2, p);
    }
}

/// `return` with its value gives the same step on sequences that agree on the tokens it has
/// looked at.
pub proof fn lemma_returnstatement_local(s: Seq<C1Token>, t: Seq<C1Token>, i: int, p: int)
    requires
        0 <= i <= s.len(),
        agree(s, t, p),
        reach(i, returnstatement_at(s, i)) <= p,
    ensures
        returnstatement_at(t, i) == returnstatement_at(s, i),
{
    if has_token(s, i, C1Token::KwReturn) && !has_token(s, i + 1, C1Token::Semicolon) {
        lemma_assignment_bounds(s, i + 1);
        lemma_assignment_local(s, t, i + 1, p);
    }
}

/// `printf` with its argument gives the same step on sequences that agree on the tokens it has
/// looked at.
pub proof fn lemma_printf_local(s: Seq<C1Token>, t: Seq<C1Token>, i: int, p: int)
    requires
        0 <= i <= s.len(),
        agree(s, t, p),
        reach(i, printf_at(s, i)) <= p,
    ensures
        printf_at(t, i) == printf_at(s, i),
{
    if has_token(s, i, C1Token::KwPrintf) && has_token(s, i + 1, C1Token::LeftParenthesis) {
        lemma_assignment_bounds(s, i + 2);
        lemma_assignment_local(s, t, i + 2, p);
    }
}

/// `ifstatement` gives the same step on sequences that agree on the tokens it has
/// looked at.
pub proof fn lemma_ifstatement_local(s: Seq<C1Token>, t: Seq<C1Token>, i: int, p: int)
    requires
        0 <= i <= s.len(),
        agree(s, t, p),
        reach(i, ifstatement_at(s, i)) <= p,
    ensures
        ifstatement_at(t, i) == ifstatement_at(s, i),
    decreases remaining(s, i), 0int,
{
    if has_token(s, i, C1Token::KwIf) && has_token(s, i + 1, C1Token::LeftParenthesis) {
        lemma_assignment_bounds(s, i + 2);
        if let Ok(a) = assignment_at(s, i + 2) {
            if has_token(s, i + 2 + a, C1Token::RightParenthesis) {
                lemma_block_bounds(s, i + 2 + a + 1);
                lemma_assignment_local(s, t, i + 2, p);
                lemma_block_local(s, t, i + 2 + a + 1, p);
            } else {
                lemma_assignment_local(s, t, i + 2, p);
            }
        } else {
            lemma_assignment_local(s, t, i + 2, p);
        }
    }
}

/// `statement` gives the same step on sequences that agree on the tokens it has
/// looked at.
pub proof fn lemma_statement_local(s: Seq<C1Token>, t: Seq<C1Token>, i: int, p: int)
    requires
        0 <= i <= s.len(),
        agree(s, t, p),
        reach(i, statement_at(s, i)) <= p,
    ensures
        statement_at(t, i) == statement_at(s, i),
    decreases remaining(s, i), 1int,
{
    match token_at(s, i) {
        Some(C1Token::KwIf) => {
            lemma_ifstatement_local(s, t, i, p);
        },
        Some(C1Token::KwReturn) => {
            crate::bounds::lemma_returnstatement_bounds(s, i);
            lemma_returnstatement_local(s, t, i, p);
        },
        Some(C1Token::KwPrintf) => {
            crate::bounds::lemma_printf_bounds(s, i);
            lemma_printf_local(s, t, i, p);
        },
        Some(C1Token::Identifier) => {
            if has_token(s, i + 1, C1Token::Assign) {
                crate::bounds::lemma_statassignment_bounds(s, i);
                lemma_statassignment_local(s, t, i, p);
            } else if has_token(s, i + 1, C1Token::LeftParenthesis) {
                lemma_functioncall_local(s, t, i, p);
            }
        },
        _ => {},
    }
}

/// `block` gives the same step on sequences that agree on the tokens it has
/// looked at.
pub proof fn lemma_block_local(s: Seq<C1Token>, t: Seq<C1Token>, i: int, p: int)
    requires
        0 <= i <= s.len(),
        agree(s, t, p),
        reach(i, block_at(s, i)) <= p,
    ensures
        block_at(t, i) == block_at(s, i),
    decreases remaining(s, i), 2int,
{
    if has_token(s, i, C1Token::LeftBrace) {
        lemma_statementlist_bounds(s, i + 1);
        lemma_statementlist_local(s, t, i + 1, p);
    } else {
        lemma_statement_local(s, t, i, p);
    }
}

/// `statementlist` gives the same step on sequences that agree on the tokens it has
/// looked at.
pub proof fn lemma_statementlist_local(s: Seq<C1Token>, t: Seq<C1Token>, i: int, p: int)
    requires
        0 <= i <= s.len(),
        agree(s, t, p),
        reach(i, statementlist_at(s, i)) <= p,
    ensures
        statementlist_at(t, i) == statementlist_at(s, i),
    decreases remaining(s, i), 3int,
{
    if !has_token(s, i, C1Token::RightBrace) && token_at(s, i) is Some {
        lemma_block_bounds(s, i);
        if let Ok(n) = block_at(s, i) {
            if n > 0 {
                lemma_statementlist_bounds(s, i + n);
                lemma_block_local(s, t, i, p);
                lemma_statementlist_local(s, t, i + n, p);
            } else {
                lemma_block_local(s, t, i, p);
            }
        } else {
            lemma_block_local(s, t, i, p);
        }
    }
}

/// `functiondefinition` gives the same step on sequences that agree on the tokens it has
/// looked at.
pub proof fn lemma_functiondefinition_local(s: Seq<C1Token>, t: Seq<C1Token>, i: int, p: int)
    requires
        0 <= i <= s.len(),
        agree(s, t, p),
        reach(i, functiondefinition_at(s, i)) <= p,
    ensures
        functiondefinition_at(t, i) == functiondefinition_at(s, i),
{
    if function_head_at(s, i) is Ok {
        lemma_statementlist_bounds(s, i + 5);
        lemma_statementlist_local(s, t, i + 5, p);
    }
}

/// `program` gives the same step on sequences that agree on the tokens it has
/// looked at.
pub proof fn lemma_program_local(s: Seq<C1Token>, t: Seq<C1Token>, i: int, p: int)
    requires
        0 <= i <= s.len(),
        agree(s, t, p),
        reach(i, program_at(s, i)) <= p,
    ensures
        program_at(t, i) == program_at(s, i),
    decreases remaining(s, i),
{
    if token_at(s, i) is Some {
        lemma_functiondefinition_bounds(s, i);
        if let Ok(n) = functiondefinition_at(s, i) {
            crate::bounds::lemma_program_bounds(s, i + n);
            lemma_functiondefinition_local(s, t, i, p);
            lemma_program_local(s, t, i + n, p);
        } else {
            lemma_functiondefinition_local(s, t, i, p);
        }
    }
}

} // verus!
