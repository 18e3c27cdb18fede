//! Whatever the grammar derives, the procedures consume.
//!
//! The procedures are greedy: behind a factor they go on with `*`, behind a
//! term with `+`, and so on. A span that the grammar derives is therefore
//! consumed exactly where the token behind it cannot continue it. In a
//! program that token is always `)` or `;`, which continue nothing.
use vstd::prelude::*;
use crate::descent::{
    assignment_at, block_at, expr_at, factor_at, functiondefinition_at, ifstatement_at, program_at,
    simpexpr_at, simpexpr_rest_at, statement_at, statementlist_at, term_at, term_list_at,
    term_rest_at, Failure,
};
use crate::grammar::{
    cut, has_add_op, has_atom, has_mul_op, has_rel_op, has_token, is_assignment, is_block, is_expr,
    is_factor, is_function_list, is_functiondefinition, is_ifstatement, is_printf,
    is_returnstatement, is_simpexpr, is_simpexpr_tail, is_statassignment, is_statement,
    is_statementlist, is_term, is_term_list, is_term_tail,
};
use crate::token::C1Token;

verus! {

/// The token at index `j` does not turn an identifier in front of it into
/// a function call.
pub open spec fn ends_factor(s: Seq<C1Token>, j: int) -> bool {
    !has_token(s, j, C1Token::LeftParenthesis)
}

/// The token at index `j` continues no term that ends in front of it.
pub open spec fn ends_term(s: Seq<C1Token>, j: int) -> bool {
    ends_factor(s, j) && !has_mul_op(s, j)
}

/// The token at index `j` continues no simple expression that ends in
/// front of it.
pub open spec fn ends_simpexpr(s: Seq<C1Token>, j: int) -> bool {
    ends_term(s, j) && !has_add_op(s, j)
}

/// The token at index `j` continues no expression that ends in front of
/// it.
pub open spec fn ends_expr(s: Seq<C1Token>, j: int) -> bool {
    ends_simpexpr(s, j) && !has_rel_op(s, j)
}

/// The token at index `j` continues no assignment that ends in front of
/// it. The end of the input, `)` and `;` are such tokens.
pub open spec fn ends_assignment(s: Seq<C1Token>, j: int) -> bool {
    ends_expr(s, j) && !has_token(s, j, C1Token::Assign)
}

/// A list of terms begins with an identifier, a literal or `(`.
pub proof fn lemma_term_list_first(s: Seq<C1Token>, i: int, j: int)
    requires
        is_term_list(s, i, j),
    ensures
        i < j,
        has_atom(s, i) || has_token(s, i, C1Token::LeftParenthesis),
{
    let k = choose|k: int|
        #[trigger] cut(k) && i < k && k <= j && is_term(s, i, k) && is_simpexpr_tail(s, k, j);
    let m = choose|m: int|
        #[trigger] cut(m) && i < m && m <= k && is_factor(s, i, m) && is_term_tail(s, m, k);
}

/// An assignment is not empty and begins with an identifier, a literal,
/// `(` or `-`.
pub proof fn lemma_assignment_first(s: Seq<C1Token>, i: int, j: int)
    requires
        is_assignment(s, i, j),
    ensures
        i < j,
        has_atom(s, i) || has_token(s, i, C1Token::LeftParenthesis) || has_token(
            s,
            i,
            C1Token::Minus,
        ),
{
    if is_expr(s, i, j) {
        if is_simpexpr(s, i, j) {
            if is_term_list(s, i, j) {
                lemma_term_list_first(s, i, j);
            }
        } else {
            let k = choose|k: int|
                #[trigger] cut(k) && i < k && k < j && is_simpexpr(s, i, k) && has_rel_op(s, k)
                    && is_simpexpr(s, k + 1, j);
            if is_term_list(s, i, k) {
                lemma_term_list_first(s, i, k);
            }
        }
    }
}

/// In a list of terms that begins with an identifier, the identifier is
/// the whole list, or `(` or an operator that joins factors or terms
/// stands behind it.
pub proof fn lemma_term_list_second(s: Seq<C1Token>, i: int, j: int)
    requires
        is_term_list(s, i, j),
        has_token(s, i, C1Token::Identifier),
    ensures
        j == i + 1 || has_token(s, i + 1, C1Token::LeftParenthesis) || has_mul_op(s, i + 1)
            || has_add_op(s, i + 1),
{
    let k = choose|k: int|
        #[trigger] cut(k) && i < k && k <= j && is_term(s, i, k) && is_simpexpr_tail(s, k, j);
    let m = choose|m: int|
        #[trigger] cut(m) && i < m && m <= k && is_factor(s, i, m) && is_term_tail(s, m, k);
}

/// In an expression that begins with an identifier, the identifier is the
/// whole expression, or `(` or an operator stands behind it: never `=`.
pub proof fn lemma_expr_second(s: Seq<C1Token>, i: int, j: int)
    requires
        is_expr(s, i, j),
        has_token(s, i, C1Token::Identifier),
    ensures
        j == i + 1 || has_token(s, i + 1, C1Token::LeftParenthesis) || has_mul_op(s, i + 1)
            || has_add_op(s, i + 1) || has_rel_op(s, i + 1),
{
    if is_simpexpr(s, i, j) {
        lemma_term_list_second(s, i, j);
    } else {
        let k = choose|k: int|
            #[trigger] cut(k) && i < k && k < j && is_simpexpr(s, i, k) && has_rel_op(s, k)
                && is_simpexpr(s, k + 1, j);
        lemma_term_list_second(s, i, k);
    }
}

/// `factor` consumes a factor behind which no `(` stands.
pub proof fn lemma_factor_complete(s: Seq<C1Token>, i: int, j: int)
    requires
        is_factor(s, i, j),
        ends_factor(s, j),
    ensures
        factor_at(s, i) == Ok::<nat, Failure>((j - i) as nat),
    decreases j - i, 0int,
{
    if has_token(s, i, C1Token::LeftParenthesis) {
        lemma_assignment_complete(s, i + 1, j - 1);
    }
}

/// The repetition behind a factor consumes the tail of a term that no
/// further `*`, `/` or `&&` follows.
pub proof fn lemma_term_tail_complete(s: Seq<C1Token>, i: int, j: int)
    requires
        is_term_tail(s, i, j),
        ends_term(s, j),
    ensures
        term_rest_at(s, i) == Ok::<nat, Failure>((j - i) as nat),
    decreases j - i, 1int,
{
    if i != j {
        let k = choose|k: int|
            #[trigger] cut(k) && i + 1 < k && k <= j && is_factor(s, i + 1, k) && is_term_tail(
                s,
                k,
                j,
            );
        lemma_factor_complete(s, i + 1, k);
        lemma_term_tail_complete(s, k, j);
    }
}

/// `term` consumes a term that the token behind it does not continue.
pub proof fn lemma_term_complete(s: Seq<C1Token>, i: int, j: int)
    requires
        is_term(s, i, j),
        ends_term(s, j),
    ensures
        term_at(s, i) == Ok::<nat, Failure>((j - i) as nat),
    decreases j - i, 2int,
{
    let k = choose|k: int|
        #[trigger] cut(k) && i < k && k <= j && is_factor(s, i, k) && is_term_tail(s, k, j);
    lemma_factor_complete(s, i, k);
    lemma_term_tail_complete(s, k, j);
}

/// The repetition behind a term consumes the tail of a simple expression
/// that the token behind it does not continue.
#[verifier::rlimit(40)]
pub proof fn lemma_simpexpr_tail_complete(s: Seq<C1Token>, i: int, j: int)
    requires
        is_simpexpr_tail(s, i, j),
        ends_simpexpr(s, j),
    ensures
        simpexpr_rest_at(s, i) == Ok::<nat, Failure>((j - i) as nat),
    decreases j - i, 3int,
{
    if i != j {
        let k = choose|k: int|
            #[trigger] cut(k) && i + 1 < k && k <= j && is_term(s, i + 1, k) && is_simpexpr_tail(
                s,
                k,
                j,
            );
        lemma_term_complete(s, i + 1, k);
        lemma_simpexpr_tail_complete(s, k, j);
    }
}

/// A list of terms is consumed where the token behind it does not continue
/// it.
pub proof fn lemma_term_list_complete(s: Seq<C1Token>, i: int, j: int)
    requires
        is_term_list(s, i, j),
        ends_simpexpr(s, j),
    ensures
        term_list_at(s, i) == Ok::<nat, Failure>((j - i) as nat),
    decreases j - i, 4int,
{
    let k = choose|k: int|
        #[trigger] cut(k) && i < k && k <= j && is_term(s, i, k) && is_simpexpr_tail(s, k, j);
    lemma_term_complete(s, i, k);
    lemma_simpexpr_tail_complete(s, k, j);
}

/// `simpexpr` consumes a simple expression that the token behind it does
/// not continue.
pub proof fn lemma_simpexpr_complete(s: Seq<C1Token>, i: int, j: int)
    requires
        is_simpexpr(s, i, j),
        ends_simpexpr(s, j),
    ensures
        simpexpr_at(s, i) == Ok::<nat, Failure>((j - i) as nat),
    decreases j - i, 5int,
{
    if is_term_list(s, i, j) {
        lemma_term_list_first(s, i, j);
        lemma_term_list_complete(s, i, j);
    } else {
        lemma_term_list_complete(s, i + 1, j);
    }
}

/// `expr` consumes a simple expression that no relational operator
/// follows.
pub proof fn lemma_expr_complete_plain(s: Seq<C1Token>, i: int, j: int)
    requires
        is_simpexpr(s, i, j),
        ends_expr(s, j),
    ensures
        expr_at(s, i) == Ok::<nat, Failure>((j - i) as nat),
    decreases j - i, 6int,
{
    lemma_simpexpr_complete(s, i, j);
}

/// `expr` consumes two simple expressions with a relational operator
/// between them.
#[verifier::rlimit(40)]
pub proof fn lemma_expr_complete_pair(s: Seq<C1Token>, i: int, k: int, j: int)
    requires
        i < k < j,
        is_simpexpr(s, i, k),
        has_rel_op(s, k),
        is_simpexpr(s, k + 1, j),
        ends_expr(s, j),
    ensures
        expr_at(s, i) == Ok::<nat, Failure>((j - i) as nat),
    decreases j - i, 6int,
{
    lemma_simpexpr_complete(s, i, k);
    lemma_simpexpr_complete(s, k + 1, j);
}

/// `expr` consumes an expression that the token behind it does not
/// continue.
pub proof fn lemma_expr_complete(s: Seq<C1Token>, i: int, j: int)
    requires
        is_expr(s, i, j),
        ends_expr(s, j),
    ensures
        expr_at(s, i) == Ok::<nat, Failure>((j - i) as nat),
    decreases j - i, 7int,
{
    if is_simpexpr(s, i, j) {
        lemma_expr_complete_plain(s, i, j);
    } else {
        let k = choose|k: int|
            #[trigger] cut(k) && i < k && k < j && is_simpexpr(s, i, k) && has_rel_op(s, k)
                && is_simpexpr(s, k + 1, j);
        lemma_expr_complete_pair(s, i, k, j);
    }
}

/// `assignment` consumes an assignment that the token behind it does not
/// continue.
pub proof fn lemma_assignment_complete(s: Seq<C1Token>, i: int, j: int)
    requires
        is_assignment(s, i, j),
        ends_assignment(s, j),
    ensures
        assignment_at(s, i) == Ok::<nat, Failure>((j - i) as nat),
    decreases j - i, 8int,
{
    if has_token(s, i, C1Token::Identifier) && has_token(s, i + 1, C1Token::Assign) {
        if is_expr(s, i, j) {
            lemma_expr_second(s, i, j);
        }
        lemma_assignment_complete(s, i + 2, j);
    } else {
        lemma_expr_complete(s, i, j);
    }
}

/// `ifstatement` consumes an if statement.
pub proof fn lemma_ifstatement_complete(s: Seq<C1Token>, i: int, j: int)
    requires
        is_ifstatement(s, i, j),
    ensures
        ifstatement_at(s, i) == Ok::<nat, Failure>((j - i) as nat),
    decreases j - i, 0int,
{
    let k = choose|k: int|
        #[trigger] cut(k) && i + 2 <= k && k < j && is_assignment(s, i + 2, k) && has_token(
            s,
            k,
            C1Token::RightParenthesis,
        ) && is_block(s, k + 1, j);
    lemma_assignment_complete(s, i + 2, k);
    lemma_block_complete(s, k + 1, j);
}

/// `statement` consumes a statement.
pub proof fn lemma_statement_complete(s: Seq<C1Token>, i: int, j: int)
    requires
        is_statement(s, i, j),
    ensures
        statement_at(s, i) == Ok::<nat, Failure>((j - i) as nat),
    decreases j - i, 1int,
{
    if is_ifstatement(s, i, j) {
        lemma_ifstatement_complete(s, i, j);
    } else if is_returnstatement(s, i, j) {
        if is_assignment(s, i + 1, j - 1) {
            lemma_assignment_first(s, i + 1, j - 1);
            lemma_assignment_complete(s, i + 1, j - 1);
        }
    } else if is_printf(s, i, j) {
        lemma_assignment_complete(s, i + 2, j - 2);
    } else if is_statassignment(s, i, j - 1) {
        lemma_assignment_complete(s, i + 2, j - 1);
    }
}

/// A statement is not empty and begins with `if`, `return`, `printf` or an
/// identifier.
pub proof fn lemma_statement_first(s: Seq<C1Token>, i: int, j: int)
    requires
        is_statement(s, i, j),
    ensures
        i < j,
        has_token(s, i, C1Token::KwIf) || has_token(s, i, C1Token::KwReturn) || has_token(
            s,
            i,
            C1Token::KwPrintf,
        ) || has_token(s, i, C1Token::Identifier),
{
    if is_ifstatement(s, i, j) {
        let k = choose|k: int|
            #[trigger] cut(k) && i + 2 <= k && k < j && is_assignment(s, i + 2, k) && has_token(
                s,
                k,
                C1Token::RightParenthesis,
            ) && is_block(s, k + 1, j);
    }
}

/// A block begins with `{` or with a token that begins a statement; in
/// particular it is not empty and does not begin with `}`.
pub proof fn lemma_block_first(s: Seq<C1Token>, i: int, j: int)
    requires
        is_block(s, i, j),
    ensures
        i < j,
        has_token(s, i, C1Token::LeftBrace) || has_token(s, i, C1Token::KwIf) || has_token(
            s,
            i,
            C1Token::KwReturn,
        ) || has_token(s, i, C1Token::KwPrintf) || has_token(s, i, C1Token::Identifier),
{
    if is_statement(s, i, j) {
        lemma_statement_first(s, i, j);
    }
}

/// `block` consumes a block.
pub proof fn lemma_block_complete(s: Seq<C1Token>, i: int, j: int)
    requires
        is_block(s, i, j),
    ensures
        block_at(s, i) == Ok::<nat, Failure>((j - i) as nat),
    decreases j - i, 2int,
{
    if is_statement(s, i, j) {
        lemma_statement_first(s, i, j);
        lemma_statement_complete(s, i, j);
    } else {
        lemma_statementlist_complete(s, i + 1, j - 1);
    }
}

/// `statementlist` consumes a statement list behind which `}` stands.
pub proof fn lemma_statementlist_complete(s: Seq<C1Token>, i: int, j: int)
    requires
        is_statementlist(s, i, j),
        has_token(s, j, C1Token::RightBrace),
    ensures
        statementlist_at(s, i) == Ok::<nat, Failure>((j - i) as nat),
    decreases j - i, 3int,
{
    if i != j {
        let k = choose|k: int|
            #[trigger] cut(k) && i < k && k <= j && is_block(s, i, k) && is_statementlist(
                s,
                k,
                j,
            );
        lemma_block_first(s, i, k);
        lemma_block_complete(s, i, k);
        lemma_statementlist_complete(s, k, j);
    }
}

/// `functiondefinition` consumes a function definition.
pub proof fn lemma_functiondefinition_complete(s: Seq<C1Token>, i: int, j: int)
    requires
        is_functiondefinition(s, i, j),
    ensures
        functiondefinition_at(s, i) == Ok::<nat, Failure>((j - i) as nat),
{
    lemma_statementlist_complete(s, i + 5, j - 1);
}

/// `program` consumes a list of function definitions that reaches to the
/// end of the input.
pub proof fn lemma_program_complete(s: Seq<C1Token>, i: int)
    requires
        0 <= i,
        is_function_list(s, i, s.len() as int),
    ensures
        program_at(s, i) == Ok::<nat, Failure>((s.len() - i) as nat),
    decreases s.len() - i,
{
    if i != s.len() {
        let k = choose|k: int|
            #[trigger] cut(k) && i < k && k <= s.len() && is_functiondefinition(s, i, k)
                && is_function_list(s, k, s.len() as int);
        lemma_functiondefinition_complete(s, i, k);
        lemma_program_complete(s, k);
    }
}

} // verus!
