//! What holds of the parser as a whole.
use vstd::prelude::*;
use vstd::string::StringSliceAdditionalSpecFns;
use crate::bounds::lemma_program_bounds;
use crate::completeness::lemma_program_complete;
use crate::completion::lemma_program_completion;
use crate::descent::{program_at, statementlist_at};
use crate::grammar::{has_token, is_program, is_statementlist, token_at};
use crate::locality::{agree, lemma_program_local};
use crate::parser::outcome_of;
use crate::reported::lemma_program_reports;
use crate::scanner::{line_at, text_lexemes, text_tokens, tokens_of, Lexeme};
use crate::soundness::{lemma_program_sound, lemma_statementlist_sound};
use crate::token::C1Token;

verus! {

/// The parser accepts a sequence of tokens if and only if the grammar
/// derives it from `program`.
pub proof fn theorem_accepts_exactly_the_programs(s: Seq<C1Token>)
    ensures
        program_at(s, 0) is Ok <==> is_program(s),
{
    lemma_program_sound(s, 0);
    if is_program(s) {
        lemma_program_complete(s, 0);
    }
}

/// A text is accepted if and only if its tokens are a program.
pub proof fn theorem_outcome(lexemes: Seq<Lexeme>)
    ensures
        outcome_of(lexemes) is Ok <==> is_program(tokens_of(lexemes)),
{
    theorem_accepts_exactly_the_programs(tokens_of(lexemes));
}

/// The empty text has no tokens, and no tokens are a program: one of zero
/// function definitions.
pub proof fn theorem_empty_text(text: &str)
    requires
        text@.len() == 0,
    ensures
        text_lexemes(text).len() == 0,
        is_program(text_tokens(text)),
        outcome_of(text_lexemes(text)) is Ok,
{
    assert(text.spec_bytes().len() == 0);
    theorem_outcome(text_lexemes(text));
}

/// A statement list never consumes the `}` that closes the block around
/// it: where the list succeeds, that token is the next one.
pub proof fn theorem_statementlist_leaves_closing_brace(s: Seq<C1Token>, i: int)
    ensures
        statementlist_at(s, i) matches Ok(n) ==> is_statementlist(s, i, i + n) && has_token(
            s,
            i + n,
            C1Token::RightBrace,
        ),
{
    lemma_statementlist_sound(s, i);
}

/// Two texts of the same characters have the same outcome: the outcome is
/// a function of the text and of nothing else.
pub proof fn theorem_same_text_same_outcome(a: &str, b: &str)
    requires
        a@ == b@,
    ensures
        outcome_of(text_lexemes(a)) == outcome_of(text_lexemes(b)),
{
}

/// The first `n` tokens of `s` begin a program: some program shows the
/// same as `s` at every index below `n`. For `n` beyond the length of `s`
/// this says that `s` itself is a program.
pub open spec fn begins_a_program(s: Seq<C1Token>, n: int) -> bool {
    exists|t: Seq<C1Token>| is_program(t) && #[trigger] agree(s, t, n)
}

/// Index `d` is where `s` first deviates from every program: the tokens in
/// front of `d` begin a program, and together with the token at `d` (or
/// with the end of the input there) they do not.
pub open spec fn deviates_at(s: Seq<C1Token>, d: int) -> bool {
    begins_a_program(s, d) && !begins_a_program(s, d + 1)
}

/// A beginning of a beginning of a program is one.
pub proof fn lemma_shorter_beginning(s: Seq<C1Token>, m: int, n: int)
    requires
        m <= n,
        begins_a_program(s, n),
    ensures
        begins_a_program(s, m),
{
    let t = choose|t: Seq<C1Token>| is_program(t) && #[trigger] agree(s, t, n);
    assert(agree(s, t, m));
}

/// The tokens behind the offending one play no part: a sequence that
/// agrees with `s` up to and including the index of the failure fails at
/// the same index, expecting the same, and is no program.
pub proof fn theorem_failure_is_final(s: Seq<C1Token>, t: Seq<C1Token>)
    requires
        program_at(s, 0) matches Err(f) && agree(s, t, f.at + 1),
    ensures
        program_at(t, 0) == program_at(s, 0),
        !is_program(t),
{
    if let Err(f) = program_at(s, 0) {
        lemma_program_local(s, t, 0, f.at + 1);
        theorem_accepts_exactly_the_programs(t);
    }
}

/// The parser fails at the first violation and not before: the tokens in
/// front of the failure begin a program, and with the offending token they
/// no longer do. The parser has not scanned past a violation, and what it
/// reports is one.
pub proof fn theorem_failure_is_the_first_violation(s: Seq<C1Token>)
    requires
        program_at(s, 0) is Err,
    ensures
        program_at(s, 0) matches Err(f) && 0 <= f.at <= s.len() && deviates_at(s, f.at),
{
    if let Err(f) = program_at(s, 0) {
        lemma_program_bounds(s, 0);
        let t = lemma_program_completion(s, 0);
        assert(agree(s, t, f.at));
        if begins_a_program(s, f.at + 1) {
            let u = choose|u: Seq<C1Token>| is_program(u) && #[trigger] agree(s, u, f.at + 1);
            theorem_failure_is_final(s, u);
        }
    }
}

/// A sequence that deviates from every program at index `d`, and not
/// before, is rejected with a failure at index `d`.
pub proof fn theorem_deviation_is_reported(s: Seq<C1Token>, d: int)
    requires
        deviates_at(s, d),
    ensures
        program_at(s, 0) matches Err(f) && f.at == d,
{
    theorem_accepts_exactly_the_programs(s);
    if is_program(s) {
        assert(agree(s, s, d + 1));
    }
    theorem_failure_is_the_first_violation(s);
    if let Err(f) = program_at(s, 0) {
        if f.at < d {
            lemma_shorter_beginning(s, f.at + 1, d);
        }
        if d < f.at {
            lemma_shorter_beginning(s, d + 1, f.at);
        }
    }
}

/// A text whose tokens deviate from every program at index `d`, and not
/// before, is rejected with an error that shows the token at index `d` and
/// its line; where the input ends at `d`, the error shows that.
pub proof fn theorem_error_at_the_deviation(lexemes: Seq<Lexeme>, d: int)
    requires
        deviates_at(tokens_of(lexemes), d),
    ensures
        outcome_of(lexemes) matches Err(error) && error.line == line_at(lexemes, d)
            && error.found == token_at(tokens_of(lexemes), d),
{
    theorem_deviation_is_reported(tokens_of(lexemes), d);
}

/// The error of a rejected text names one of the expectations that can be
/// reported.
pub proof fn theorem_reported_expectations(lexemes: Seq<Lexeme>)
    ensures
        outcome_of(lexemes) matches Err(error) ==> error.expected.can_be_reported(),
{
    lemma_program_reports(tokens_of(lexemes), 0);
}

} // verus!
