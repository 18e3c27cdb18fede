//! A derivation depends on the tokens of its span and on no others: it
//! carries over to every sequence that holds the same tokens there.
use vstd::prelude::*;
use crate::grammar::{
    cut, has_rel_op, has_token, is_assignment, is_block, is_expr, is_factor, is_function_list,
    is_functiondefinition, is_ifstatement, is_printf, is_returnstatement, is_simpexpr,
    is_simpexpr_tail, is_statassignment, is_statement, is_statementlist, is_term, is_term_list,
    is_term_tail,
};
use crate::token::C1Token;

verus! {

/// The first `p` tokens of `s` are the first `p` tokens of `t`.
pub open spec fn same_prefix(s: Seq<C1Token>, t: Seq<C1Token>, p: int) -> bool {
    &&& 0 <= p <= s.len()
    &&& p <= t.len()
    &&& forall|k: int| #![trigger s[k]] #![trigger t[k]] 0 <= k < p ==> s[k] == t[k]
}

/// A derivation of a factor carries over to a sequence with the same tokens.
pub proof fn lemma_factor_carries(s: Seq<C1Token>, t: Seq<C1Token>, i: int, j: int, p: int)
    requires
        is_factor(s, i, j),
        0 <= i,
        j <= p,
        same_prefix(s, t, p),
    ensures
        is_factor(t, i, j),
    decreases j - i, 0int,
{
    if has_token(s, i, C1Token::LeftParenthesis) {
        lemma_assignment_carries(s, t, i + 1, j - 1, p);
    }
}

/// A derivation of the tail of a term carries over to a sequence with the same tokens.
pub proof fn lemma_term_tail_carries(s: Seq<C1Token>, t: Seq<C1Token>, i: int, j: int, p: int)
    requires
        is_term_tail(s, i, j),
        0 <= i,
        j <= p,
        same_prefix(s, t, p),
    ensures
        is_term_tail(t, i, j),
    decreases j - i, 1int,
{
    if i != j {
        let k = choose|k: int|
            #[trigger] cut(k) && i + 1 < k && k <= j && is_factor(s, i + 1, k) && is_term_tail(
                s,
                k,
                j,
            );
        lemma_factor_carries(s, t, i + 1, k, p);
        lemma_term_tail_carries(s, t, k, j, p);
    }
}

/// A derivation of a term carries over to a sequence with the same tokens.
pub proof fn lemma_term_carries(s: Seq<C1Token>, t: Seq<C1Token>, i: int, j: int, p: int)
    requires
        is_term(s, i, j),
        0 <= i,
        j <= p,
        same_prefix(s, t, p),
    ensures
        is_term(t, i, j),
    decreases j - i, 2int,
{
    let k = choose|k: int|
        #[trigger] cut(k) && i < k && k <= j && is_factor(s, i, k) && is_term_tail(s, k, j);
    lemma_factor_carries(s, t, i, k, p);
    lemma_term_tail_carries(s, t, k, j, p);
}

/// A derivation of the tail of a simple expression carries over to a sequence with the same tokens.
pub proof fn lemma_simpexpr_tail_carries(
    s: Seq<C1Token>,
    t: Seq<C1Token>,
    i: int,
    j: int,
    p: int,
)
    requires
        is_simpexpr_tail(s, i, j),
        0 <= i,
        j <= p,
        same_prefix(s, t, p),
    ensures
        is_simpexpr_tail(t, i, j),
    decreases j - i, 3int,
{
    if i != j {
        let k = choose|k: int|
            #[trigger] cut(k) && i + 1 < k && k <= j && is_term(s, i + 1, k) && is_simpexpr_tail(
                s,
                k,
                j,
            );
        lemma_term_carries(s, t, i + 1, k, p);
        lemma_simpexpr_tail_carries(s, t, k, j, p);
    }
}

/// A derivation of a list of terms carries over to a sequence with the same tokens.
pub proof fn lemma_term_list_carries(s: Seq<C1Token>, t: Seq<C1Token>, i: int, j: int, p: int)
    requires
        is_term_list(s, i, j),
        0 <= i,
        j <= p,
        same_prefix(s, t, p),
    ensures
        is_term_list(t, i, j),
    decreases j - i, 4int,
{
    let k = choose|k: int|
        #[trigger] cut(k) && i < k && k <= j && is_term(s, i, k) && is_simpexpr_tail(s, k, j);
    lemma_term_carries(s, t, i, k, p);
    lemma_simpexpr_tail_carries(s, t, k, j, p);
}

/// A derivation of a simple expression carries over to a sequence with the same tokens.
pub proof fn lemma_simpexpr_carries(s: Seq<C1Token>, t: Seq<C1Token>, i: int, j: int, p: int)
    requires
        is_simpexpr(s, i, j),
        0 <= i,
        j <= p,
        same_prefix(s, t, p),
    ensures
        is_simpexpr(t, i, j),
    decreases j - i, 5int,
{
    if is_term_list(s, i, j) {
        lemma_term_list_carries(s, t, i, j, p);
    } else {
        lemma_term_list_carries(s, t, i + 1, j, p);
    }
}

/// A derivation of an expression carries over to a sequence with the same tokens.
pub proof fn lemma_expr_carries(s: Seq<C1Token>, t: Seq<C1Token>, i: int, j: int, p: int)
    requires
        is_expr(s, i, j),
        0 <= i,
        j <= p,
        same_prefix(s, t, p),
    ensures
        is_expr(t, i, j),
    decreases j - i, 6int,
{
    if is_simpexpr(s, i, j) {
        lemma_simpexpr_carries(s, t, i, j, p);
    } else {
        let k = choose|k: int|
            #[trigger] cut(k) && i < k && k < j && is_simpexpr(s, i, k) && has_rel_op(s, k)
                && is_simpexpr(s, k + 1, j);
        lemma_simpexpr_carries(s, t, i, k, p);
        lemma_simpexpr_carries(s, t, k + 1, j, p);
    }
}

/// A derivation of an assignment carries over to a sequence with the same tokens.
pub proof fn lemma_assignment_carries(s: Seq<C1Token>, t: Seq<C1Token>, i: int, j: int, p: int)
    requires
        is_assignment(s, i, j),
        0 <= i,
        j <= p,
        same_prefix(s, t, p),
    ensures
        is_assignment(t, i, j),
    decreases j - i, 7int,
{
    if is_expr(s, i, j) {
        lemma_expr_carries(s, t, i, j, p);
    } else {
        lemma_assignment_carries(s, t, i + 2, j, p);
    }
}

/// A derivation of an if statement carries over to a sequence with the same tokens.
pub proof fn lemma_ifstatement_carries(s: Seq<C1Token>, t: Seq<C1Token>, i: int, j: int, p: int)
    requires
        is_ifstatement(s, i, j),
        0 <= i,
        j <= p,
        same_prefix(s, t, p),
    ensures
        is_ifstatement(t, i, j),
    decreases j - i, 0int,
{
    let k = choose|k: int|
        #[trigger] cut(k) && i + 2 <= k && k < j && is_assignment(s, i + 2, k) && has_token(
            s,
            k,
            C1Token::RightParenthesis,
        ) && is_block(s, k + 1, j);
    lemma_assignment_carries(s, t, i + 2, k, p);
    lemma_block_carries(s, t, k + 1, j, p);
}

/// A derivation of a statement carries over to a sequence with the same tokens.
pub proof fn lemma_statement_carries(s: Seq<C1Token>, t: Seq<C1Token>, i: int, j: int, p: int)
    requires
        is_statement(s, i, j),
        0 <= i,
        j <= p,
        same_prefix(s, t, p),
    ensures
        is_statement(t, i, j),
    decreases j - i, 1int,
{
    if is_ifstatement(s, i, j) {
        lemma_ifstatement_carries(s, t, i, j, p);
    } else if is_returnstatement(s, i, j) {
        if is_assignment(s, i + 1, j - 1) {
            lemma_assignment_carries(s, t, i + 1, j - 1, p);
        }
    } else if is_printf(s, i, j) {
        lemma_assignment_carries(s, t, i + 2, j - 2, p);
    } else if is_statassignment(s, i, j - 1) {
        lemma_assignment_carries(s, t, i + 2, j - 1, p);
    }
}

/// A derivation of a block carries over to a sequence with the same tokens.
pub proof fn lemma_block_carries(s: Seq<C1Token>, t: Seq<C1Token>, i: int, j: int, p: int)
    requires
        is_block(s, i, j),
        0 <= i,
        j <= p,
        same_prefix(s, t, p),
    ensures
        is_block(t, i, j),
    decreases j - i, 2int,
{
    if is_statement(s, i, j) {
        lemma_statement_carries(s, t, i, j, p);
    } else {
        lemma_statementlist_carries(s, t, i + 1, j - 1, p);
    }
}

/// A derivation of a statement list carries over to a sequence with the same tokens.
pub proof fn lemma_statementlist_carries(
    s: Seq<C1Token>,
    t: Seq<C1Token>,
    i: int,
    j: int,
    p: int,
)
    requires
        is_statementlist(s, i, j),
        0 <= i,
        j <= p,
        same_prefix(s, t, p),
    ensures
        is_statementlist(t, i, j),
    decreases j - i, 3int,
{
    if i != j {
        let k = choose|k: int|
            #[trigger] cut(k) && i < k && k <= j && is_block(s, i, k) && is_statementlist(
                s,
                k,
                j,
            );
        lemma_block_carries(s, t, i, k, p);
        lemma_statementlist_carries(s, t, k, j, p);
    }
}

/// A derivation of a function definition carries over to a sequence with the same tokens.
pub proof fn lemma_functiondefinition_carries(
    s: Seq<C1Token>,
    t: Seq<C1Token>,
    i: int,
    j: int,
    p: int,
)
    requires
        is_functiondefinition(s, i, j),
        0 <= i,
        j <= p,
        same_prefix(s, t, p),
    ensures
        is_functiondefinition(t, i, j),
{
    lemma_statementlist_carries(s, t, i + 5, j - 1, p);
}

/// A derivation of a list of function definitions carries over to a sequence with the same tokens.
pub proof fn lemma_function_list_carries(
    s: Seq<C1Token>,
    t: Seq<C1Token>,
    i: int,
    j: int,
    p: int,
)
    requires
        is_function_list(s, i, j),
        0 <= i,
        j <= p,
        same_prefix(s, t, p),
    ensures
        is_function_list(t, i, j),
    decreases j - i,
{
    if i != j {
        let k = choose|k: int|
            #[trigger] cut(k) && i < k && k <= j && is_functiondefinition(s, i, k)
                && is_function_list(s, k, j);
        lemma_functiondefinition_carries(s, t, i, k, p);
        lemma_function_list_carries(s, t, k, j, p);
    }
}

} // verus!
