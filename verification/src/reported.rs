//! Which expectations a whole parse can report.
//!
//! Every procedure names what it expects of each token it consumes. Some of
//! these expectations never fail where the procedure is called from a
//! parse: `ifstatement` is entered only at `if`, a statement list ends only
//! in front of `}`, and so on. What is left is what a caller of the parser
//! can see.
use vstd::prelude::*;
use crate::descent::{
    assignment_at, block_at, expr_at, factor_at, functioncall_at, functiondefinition_at,
    ifstatement_at, printf_at, program_at, remaining, returnstatement_at, simpexpr_at,
    simpexpr_rest_at, statassignment_at, statement_at, statementlist_at, term_at, term_list_at,
    term_rest_at, Step,
};
use crate::error::Expected;
use crate::grammar::{has_add_op, has_mul_op, has_rel_op, has_token, token_at};
use crate::soundness::lemma_statementlist_sound;
use crate::token::C1Token;

verus! {

impl Expected {
    /// The expectation can fail in a parse of a whole text. The others
    /// (`if`, `return`, `printf`, a variable name, `=` and `}`) are met
    /// wherever the parser comes to them.
    pub open spec fn can_be_reported(self) -> bool {
        self == Expected::Type || self == Expected::FunctionName || self
            == Expected::LeftParenthesis || self == Expected::RightParenthesis || self
            == Expected::LeftBrace || self == Expected::Semicolon || self
            == Expected::ClosingBracket || self == Expected::Statement || self
            == Expected::StatementStart || self == Expected::AssignmentOrCall || self
            == Expected::Factor
    }
}

/// Where the step fails, it fails with an expectation that a parse can
/// report.
pub open spec fn reports(step: Step) -> bool {
    step matches Err(f) ==> f.expected.can_be_reported()
}

/// `factor` reports `factor` or `)`.
pub proof fn lemma_factor_reports(s: Seq<C1Token>, i: int)
    ensures
        reports(factor_at(s, i)),
    decreases remaining(s, i), 0int,
{
    if has_token(s, i, C1Token::LeftParenthesis) {
        lemma_assignment_reports(s, i + 1);
    }
}

/// The repetition behind a factor reports what `factor` reports.
pub proof fn lemma_term_rest_reports(s: Seq<C1Token>, i: int)
    ensures
        reports(term_rest_at(s, i)),
    decreases remaining(s, i), 1int,
{
    if has_mul_op(s, i) {
        lemma_factor_reports(s, i + 1);
        if let Ok(n) = factor_at(s, i + 1) {
            lemma_term_rest_reports(s, i + 1 + n);
        }
    }
}

/// `term` reports what `factor` reports.
pub proof fn lemma_term_reports(s: Seq<C1Token>, i: int)
    ensures
        reports(term_at(s, i)),
    decreases remaining(s, i), 2int,
{
    lemma_factor_reports(s, i);
    if let Ok(n) = factor_at(s, i) {
        lemma_term_rest_reports(s, i + n);
    }
}

/// The repetition behind a term reports what `factor` reports.
pub proof fn lemma_simpexpr_rest_reports(s: Seq<C1Token>, i: int)
    ensures
        reports(simpexpr_rest_at(s, i)),
    decreases remaining(s, i), 3int,
{
    if has_add_op(s, i) {
        lemma_term_reports(s, i + 1);
        if let Ok(n) = term_at(s, i + 1) {
            lemma_simpexpr_rest_reports(s, i + 1 + n);
        }
    }
}

/// A list of terms reports what `factor` reports.
pub proof fn lemma_term_list_reports(s: Seq<C1Token>, i: int)
    ensures
        reports(term_list_at(s, i)),
    decreases remaining(s, i), 4int,
{
    lemma_term_reports(s, i);
    if let Ok(n) = term_at(s, i) {
        lemma_simpexpr_rest_reports(s, i + n);
    }
}

/// `simpexpr` reports what `factor` reports.
pub proof fn lemma_simpexpr_reports(s: Seq<C1Token>, i: int)
    ensures
        reports(simpexpr_at(s, i)),
    decreases remaining(s, i), 5int,
{
    if has_token(s, i, C1Token::Minus) {
        lemma_term_list_reports(s, i + 1);
    } else {
        lemma_term_list_reports(s, i);
    }
}

/// `expr` reports what `factor` reports.
pub proof fn lemma_expr_reports(s: Seq<C1Token>, i: int)
    ensures
        reports(expr_at(s, i)),
    decreases remaining(s, i), 6int,
{
    lemma_simpexpr_reports(s, i);
    if let Ok(n) = simpexpr_at(s, i) {
        if has_rel_op(s, i + n) {
            lemma_simpexpr_reports(s, i + n + 1);
        }
    }
}

/// `assignment` reports what `factor` reports.
pub proof fn lemma_assignment_reports(s: Seq<C1Token>, i: int)
    ensures
        reports(assignment_at(s, i)),
    decreases remaining(s, i), 7int,
{
    if has_token(s, i, C1Token::Identifier) && has_token(s, i + 1, C1Token::Assign) {
        lemma_assignment_reports(s, i + 2);
    } else {
        lemma_expr_reports(s, i);
    }
}

/// `ifstatement`, entered at `if`, never reports that it expected `if`.
pub proof fn lemma_ifstatement_reports(s: Seq<C1Token>, i: int)
    requires
        has_token(s, i, C1Token::KwIf),
    ensures
        reports(ifstatement_at(s, i)),
    decreases remaining(s, i), 0int,
{
    lemma_assignment_reports(s, i + 2);
    if let Ok(a) = assignment_at(s, i + 2) {
        lemma_block_reports(s, i + 2 + a + 1);
    }
}

/// `statement` enters each alternative at the token that selects it, so
/// that no alternative reports its own first token.
pub proof fn lemma_statement_reports(s: Seq<C1Token>, i: int)
    ensures
        reports(statement_at(s, i)),
    decreases remaining(s, i), 1int,
{
    match token_at(s, i) {
        Some(C1Token::KwIf) => {
            lemma_ifstatement_reports(s, i);
        },
        Some(C1Token::KwReturn) => {
            lemma_assignment_reports(s, i + 1);
            assert(reports(returnstatement_at(s, i)));
        },
        Some(C1Token::KwPrintf) => {
            lemma_assignment_reports(s, i + 2);
            assert(reports(printf_at(s, i)));
        },
        Some(C1Token::Identifier) => {
            if has_token(s, i + 1, C1Token::Assign) {
                lemma_assignment_reports(s, i + 2);
                assert(reports(statassignment_at(s, i)));
            } else if has_token(s, i + 1, C1Token::LeftParenthesis) {
                assert(reports(functioncall_at(s, i)));
            }
        },
        _ => {},
    }
}

/// `block` never reports that it expected `}`: a statement list that
/// succeeds has stopped in front of one.
pub proof fn lemma_block_reports(s: Seq<C1Token>, i: int)
    ensures
        reports(block_at(s, i)),
    decreases remaining(s, i), 2int,
{
    if has_token(s, i, C1Token::LeftBrace) {
        lemma_statementlist_reports(s, i + 1);
        lemma_statementlist_sound(s, i + 1);
    } else {
        lemma_statement_reports(s, i);
    }
}

/// `statementlist` reports the missing closing bracket or what `block`
/// reports.
pub proof fn lemma_statementlist_reports(s: Seq<C1Token>, i: int)
    ensures
        reports(statementlist_at(s, i)),
    decreases remaining(s, i), 3int,
{
    if !has_token(s, i, C1Token::RightBrace) && token_at(s, i) is Some {
        lemma_block_reports(s, i);
        if let Ok(n) = block_at(s, i) {
            if n > 0 {
                lemma_statementlist_reports(s, i + n);
            }
        }
    }
}

/// `functiondefinition` never reports that it expected `}`.
pub proof fn lemma_functiondefinition_reports(s: Seq<C1Token>, i: int)
    ensures
        reports(functiondefinition_at(s, i)),
{
    lemma_statementlist_reports(s, i + 5);
    lemma_statementlist_sound(s, i + 5);
}

/// `program` reports only what can be reported.
pub proof fn lemma_program_reports(s: Seq<C1Token>, i: int)
    ensures
        reports(program_at(s, i)),
    decreases remaining(s, i),
{
    if token_at(s, i) is Some {
        lemma_functiondefinition_reports(s, i);
        if let Ok(n) = functiondefinition_at(s, i) {
            lemma_program_reports(s, i + n);
        }
    }
}

} // verus!
