//! The recursive-descent parser: one procedure for each nonterminal.
use vstd::prelude::*;
use crate::descent::{
    assignment_at, block_at, expect_at, expr_at, extend, factor_at, functioncall_at,
    functiondefinition_at, ifstatement_at, lemma_block_advances, printf_at, program_at, remaining,
    returnstatement_at, simpexpr_at, simpexpr_rest_at, statassignment_at, statement_at,
    statementlist_at, term_at, term_list_at, term_rest_at, type_at, Failure, Step,
};
use crate::error::{Expected, SyntaxError};
use crate::grammar::{has_add_op, has_mul_op, has_rel_op, has_token, is_program, token_at};
use crate::laws::{
    deviates_at, theorem_accepts_exactly_the_programs, theorem_empty_text,
    theorem_failure_is_the_first_violation, theorem_reported_expectations,
};
use crate::scanner::{line_at, text_lexemes, text_tokens, tokens_of, C1Lexer, Lexeme};
use crate::token::C1Token;

verus! {

/// What a parse returns: nothing, or the message of the first syntax error.
pub type ParseResult = Result<(), String>;

/// The error that a failure stands for: the construct expected, the token
/// at the index of the failure, and the line of that index.
pub open spec fn syntax_error(lexemes: Seq<Lexeme>, failure: Failure) -> SyntaxError {
    SyntaxError {
        expected: failure.expected,
        found: token_at(tokens_of(lexemes), failure.at),
        line: line_at(lexemes, failure.at),
    }
}

/// The error shows what stands where the tokens first deviate from every
/// program: the token there and its line.
pub open spec fn at_first_deviation(lexemes: Seq<Lexeme>, error: SyntaxError) -> bool {
    exists|d: int|
        #[trigger] deviates_at(tokens_of(lexemes), d) && error.found == token_at(
            tokens_of(lexemes),
            d,
        ) && error.line == line_at(lexemes, d)
}

/// The outcome of parsing a sequence of lexemes from its start.
pub open spec fn outcome_of(lexemes: Seq<Lexeme>) -> Result<(), SyntaxError> {
    match program_at(tokens_of(lexemes), 0) {
        Ok(_) => Ok(()),
        Err(failure) => Err(syntax_error(lexemes, failure)),
    }
}

/// A parser for one source text. It owns the cursor over the tokens of the
/// text and holds nothing else.
pub struct C1Parser {
    lexer: C1Lexer,
}

impl C1Parser {
    /// The lexemes of the text.
    spec fn lexemes(&self) -> Seq<Lexeme> {
        self.lexer.lexemes()
    }

    /// The index of the token under the cursor.
    spec fn position(&self) -> int {
        self.lexer.position()
    }

    /// The tokens of the text.
    spec fn tokens(&self) -> Seq<C1Token> {
        tokens_of(self.lexemes())
    }

    /// The cursor lies within the text or at its end.
    spec fn wf(&self) -> bool {
        0 <= self.position() <= self.lexemes().len()
    }

    /// The number of tokens not yet consumed.
    spec fn budget(&self) -> int {
        remaining(self.tokens(), self.position())
    }

    /// The parser has taken `step` from where `before` stood: on success
    /// the cursor has moved over the tokens consumed; on failure it lies on
    /// the offending token and `result` holds the error for it.
    spec fn stepped(
        &self,
        before: C1Parser,
        step: Step,
        result: Result<(), SyntaxError>,
    ) -> bool {
        &&& self.wf()
        &&& self.lexemes() == before.lexemes()
        &&& match step {
            Ok(n) => result == Ok::<(), SyntaxError>(()) && self.position() == before.position()
                + n,
            Err(failure) => result == Err::<(), SyntaxError>(
                syntax_error(before.lexemes(), failure),
            ) && self.position() == failure.at,
        }
    }

    /// Checks the syntax of `text`. The text is accepted if and only if its
    /// tokens are a program; the empty text is one. Otherwise the result is
    /// the first syntax error: it shows the token at which the text first
    /// deviates from every program, the line of that token, and what the
    /// parser expected in its place.
    pub fn syntax_check(text: &str) -> (result: Result<(), SyntaxError>)
        ensures
            result == outcome_of(text_lexemes(text)),
            result is Ok <==> is_program(text_tokens(text)),
            text@.len() == 0 ==> result is Ok,
            result matches Err(error) ==> at_first_deviation(text_lexemes(text), error)
                && error.expected.can_be_reported(),
    {
        let mut parser = C1Parser { lexer: C1Lexer::new(text) };
        proof {
            let tokens = parser.tokens();
            theorem_accepts_exactly_the_programs(tokens);
            theorem_reported_expectations(parser.lexemes());
            if text@.len() == 0 {
                theorem_empty_text(text);
            }
            if let Err(failure) = program_at(tokens, 0) {
                theorem_failure_is_the_first_violation(tokens);
                assert(deviates_at(tokens, failure.at));
            }
        }
        parser.program()
    }

    /// Checks the syntax of `text` as `syntax_check` does, and returns the
    /// error as its message: `expected <construct>, got <token>, line
    /// <number>`.
    pub fn parse(text: &str) -> (result: ParseResult)
        ensures
            result is Ok <==> is_program(text_tokens(text)),
            text@.len() == 0 ==> result is Ok,
            match outcome_of(text_lexemes(text)) {
                Ok(_) => result is Ok,
                Err(error) => result matches Err(message) && message@ == error.message_text()
                    && at_first_deviation(text_lexemes(text), error),
            },
    {
        match C1Parser::syntax_check(text) {
            Ok(()) => Ok(()),
            Err(error) => Err(error.message()),
        }
    }

    /// The error for `what` at the cursor.
    fn fail(&self, what: Expected) -> (error: SyntaxError)
        ensures
            error == syntax_error(
                self.lexemes(),
                Failure { at: self.position(), expected: what },
            ),
    {
        SyntaxError {
            expected: what,
            found: self.lexer.current_token(),
            line: self.lexer.current_line_number(),
        }
    }

    /// Whether `token` lies under the cursor.
    fn at(&self, token: C1Token) -> (b: bool)
        ensures
            b == has_token(self.tokens(), self.position(), token),
    {
        match self.lexer.current_token() {
            Some(t) => t == token,
            None => false,
        }
    }

    /// Whether `token` lies behind the token under the cursor.
    fn next_is(&self, token: C1Token) -> (b: bool)
        ensures
            b == has_token(self.tokens(), self.position() + 1, token),
    {
        match self.lexer.peek_token() {
            Some(t) => t == token,
            None => false,
        }
    }

    /// Whether `*`, `/` or `&&` lies under the cursor.
    fn at_mul_op(&self) -> (b: bool)
        ensures
            b == has_mul_op(self.tokens(), self.position()),
    {
        match self.lexer.current_token() {
            Some(C1Token::Asterisk) | Some(C1Token::Slash) | Some(C1Token::And) => true,
            _ => false,
        }
    }

    /// Whether `+`, `-` or `||` lies under the cursor.
    fn at_add_op(&self) -> (b: bool)
        ensures
            b == has_add_op(self.tokens(), self.position()),
    {
        match self.lexer.current_token() {
            Some(C1Token::Plus) | Some(C1Token::Minus) | Some(C1Token::Or) => true,
            _ => false,
        }
    }

    /// Whether a relational operator lies under the cursor.
    fn at_rel_op(&self) -> (b: bool)
        ensures
            b == has_rel_op(self.tokens(), self.position()),
    {
        match self.lexer.current_token() {
            Some(C1Token::Equal)
            | Some(C1Token::NotEqual)
            | Some(C1Token::Less)
            | Some(C1Token::Greater)
            | Some(C1Token::LessEqual)
            | Some(C1Token::GreaterEqual) => true,
            _ => false,
        }
    }

    /// Moves over the token under the cursor.
    fn eat(&mut self)
        requires
            old(self).wf(),
        ensures
            final(self).wf(),
            final(self).lexemes() == old(self).lexemes(),
            final(self).position() == if old(self).position() < old(self).lexemes().len() {
                old(self).position() + 1
            } else {
                old(self).position()
            },
    {
        self.lexer.eat();
    }

    /// Moves over `token` where it lies under the cursor; fails there
    /// expecting `what` where it does not.
    fn expect(&mut self, token: C1Token, what: Expected) -> (result: Result<(), SyntaxError>)
        requires
            old(self).wf(),
        ensures
            final(self).stepped(
                *old(self),
                expect_at(old(self).tokens(), old(self).position(), token, what),
                result,
            ),
    {
        if self.at(token) {
            self.eat();
            Ok(())
        } else {
            Err(self.fail(what))
        }
    }

    /// `program = { functiondefinition }`
    fn program(&mut self) -> (result: Result<(), SyntaxError>)
        requires
            old(self).wf(),
        ensures
            final(self).stepped(
                *old(self),
                program_at(old(self).tokens(), old(self).position()),
                result,
            ),
    {
        let ghost s = self.tokens();
        let ghost start = self.position();
        let mut more = self.lexer.current_token().is_some();
        while more
            invariant
                self.wf(),
                self.lexemes() == old(self).lexemes(),
                s == self.tokens(),
                start == old(self).position(),
                start <= self.position(),
                more == (token_at(s, self.position()) is Some),
                program_at(s, start) == extend(
                    (self.position() - start) as nat,
                    program_at(s, self.position()),
                ),
            decreases self.budget(),
        {
            match self.functiondefinition() {
                Ok(()) => {},
                Err(error) => {
                    return Err(error);
                },
            }
            more = self.lexer.current_token().is_some();
        }
        Ok(())
    }

    /// `functiondefinition = type identifier "(" ")" "{" statementlist "}"`
    fn functiondefinition(&mut self) -> (result: Result<(), SyntaxError>)
        requires
            old(self).wf(),
        ensures
            final(self).stepped(
                *old(self),
                functiondefinition_at(old(self).tokens(), old(self).position()),
                result,
            ),
    {
        self.function_type()?;
        self.expect(C1Token::Identifier, Expected::FunctionName)?;
        self.expect(C1Token::LeftParenthesis, Expected::LeftParenthesis)?;
        self.expect(C1Token::RightParenthesis, Expected::RightParenthesis)?;
        self.expect(C1Token::LeftBrace, Expected::LeftBrace)?;
        self.statementlist()?;
        self.expect(C1Token::RightBrace, Expected::RightBrace)
    }

    /// `type = "int" | "float" | "void" | "boolean"`
    fn function_type(&mut self) -> (result: Result<(), SyntaxError>)
        requires
            old(self).wf(),
        ensures
            final(self).stepped(
                *old(self),
                type_at(old(self).tokens(), old(self).position()),
                result,
            ),
    {
        let is_type = match self.lexer.current_token() {
            Some(t) => t.type_keyword(),
            None => false,
        };
        if is_type {
            self.eat();
            Ok(())
        } else {
            Err(self.fail(Expected::Type))
        }
    }

    /// `functioncall = identifier "(" ")"`
    fn functioncall(&mut self) -> (result: Result<(), SyntaxError>)
        requires
            old(self).wf(),
        ensures
            final(self).stepped(
                *old(self),
                functioncall_at(old(self).tokens(), old(self).position()),
                result,
            ),
    {
        self.expect(C1Token::Identifier, Expected::FunctionName)?;
        self.expect(C1Token::LeftParenthesis, Expected::LeftParenthesis)?;
        self.expect(C1Token::RightParenthesis, Expected::RightParenthesis)
    }

    /// `statementlist = { block }`, up to the `}` that closes the list.
    fn statementlist(&mut self) -> (result: Result<(), SyntaxError>)
        requires
            old(self).wf(),
        ensures
            final(self).stepped(
                *old(self),
                statementlist_at(old(self).tokens(), old(self).position()),
                result,
            ),
        decreases old(self).budget(), 3int,
    {
        let ghost s = self.tokens();
        let ghost start = self.position();
        let mut more = !self.at(C1Token::RightBrace);
        while more
            invariant
                self.wf(),
                self.lexemes() == old(self).lexemes(),
                s == self.tokens(),
                start == old(self).position(),
                start <= self.position(),
                more == !has_token(s, self.position(), C1Token::RightBrace),
                statementlist_at(s, start) == extend(
                    (self.position() - start) as nat,
                    statementlist_at(s, self.position()),
                ),
            decreases self.budget(),
        {
            if self.lexer.current_token().is_none() {
                return Err(self.fail(Expected::ClosingBracket));
            }
            let ghost here = self.position();
            match self.block() {
                Ok(()) => {},
                Err(error) => {
                    return Err(error);
                },
            }
            proof {
                lemma_block_advances(s, here);
            }
            more = !self.at(C1Token::RightBrace);
        }
        Ok(())
    }

    /// `block = "{" statementlist "}" | statement`
    fn block(&mut self) -> (result: Result<(), SyntaxError>)
        requires
            old(self).wf(),
        ensures
            final(self).stepped(
                *old(self),
                block_at(old(self).tokens(), old(self).position()),
                result,
            ),
        decreases old(self).budget(), 2int,
    {
        if self.at(C1Token::LeftBrace) {
            self.eat();
            self.statementlist()?;
            self.expect(C1Token::RightBrace, Expected::RightBrace)
        } else {
            self.statement()
        }
    }

    /// `statement`: an if statement; or `return`, `printf`, an assignment
    /// or a function call, each with its semicolon.
    fn statement(&mut self) -> (result: Result<(), SyntaxError>)
        requires
            old(self).wf(),
        ensures
            final(self).stepped(
                *old(self),
                statement_at(old(self).tokens(), old(self).position()),
                result,
            ),
        decreases old(self).budget(), 1int,
    {
        match self.lexer.current_token() {
            None => Err(self.fail(Expected::Statement)),
            Some(C1Token::KwIf) => self.ifstatement(),
            Some(C1Token::KwReturn) => {
                self.returnstatement()?;
                self.expect(C1Token::Semicolon, Expected::Semicolon)
            },
            Some(C1Token::KwPrintf) => {
                self.printf()?;
                self.expect(C1Token::Semicolon, Expected::Semicolon)
            },
            Some(C1Token::Identifier) => {
                if self.next_is(C1Token::Assign) {
                    self.statassignment()?;
                    self.expect(C1Token::Semicolon, Expected::Semicolon)
                } else if self.next_is(C1Token::LeftParenthesis) {
                    self.functioncall()?;
                    self.expect(C1Token::Semicolon, Expected::Semicolon)
                } else {
                    self.eat();
                    Err(self.fail(Expected::AssignmentOrCall))
                }
            },
            Some(_) => Err(self.fail(Expected::StatementStart)),
        }
    }

    /// `"printf" "(" assignment ")"`
    fn printf(&mut self) -> (result: Result<(), SyntaxError>)
        requires
            old(self).wf(),
        ensures
            final(self).stepped(
                *old(self),
                printf_at(old(self).tokens(), old(self).position()),
                result,
            ),
    {
        self.expect(C1Token::KwPrintf, Expected::Printf)?;
        self.expect(C1Token::LeftParenthesis, Expected::LeftParenthesis)?;
        self.assignment()?;
        self.expect(C1Token::RightParenthesis, Expected::RightParenthesis)
    }

    /// `"return" [ assignment ]`
    fn returnstatement(&mut self) -> (result: Result<(), SyntaxError>)
        requires
            old(self).wf(),
        ensures
            final(self).stepped(
                *old(self),
                returnstatement_at(old(self).tokens(), old(self).position()),
                result,
            ),
    {
        self.expect(C1Token::KwReturn, Expected::Return)?;
        if self.at(C1Token::Semicolon) {
            Ok(())
        } else {
            self.assignment()
        }
    }

    /// `ifstatement = "if" "(" assignment ")" block`
    fn ifstatement(&mut self) -> (result: Result<(), SyntaxError>)
        requires
            old(self).wf(),
        ensures
            final(self).stepped(
                *old(self),
                ifstatement_at(old(self).tokens(), old(self).position()),
                result,
            ),
        decreases old(self).budget(), 0int,
    {
        self.expect(C1Token::KwIf, Expected::If)?;
        self.expect(C1Token::LeftParenthesis, Expected::LeftParenthesis)?;
        self.assignment()?;
        self.expect(C1Token::RightParenthesis, Expected::RightParenthesis)?;
        self.block()
    }

    /// `statassignment = identifier "=" assignment`
    fn statassignment(&mut self) -> (result: Result<(), SyntaxError>)
        requires
            old(self).wf(),
        ensures
            final(self).stepped(
                *old(self),
                statassignment_at(old(self).tokens(), old(self).position()),
                result,
            ),
    {
        self.expect(C1Token::Identifier, Expected::VariableName)?;
        self.expect(C1Token::Assign, Expected::Assign)?;
        self.assignment()
    }

    /// `assignment = identifier "=" assignment | expr`
    fn assignment(&mut self) -> (result: Result<(), SyntaxError>)
        requires
            old(self).wf(),
        ensures
            final(self).stepped(
                *old(self),
                assignment_at(old(self).tokens(), old(self).position()),
                result,
            ),
        decreases old(self).budget(), 4int,
    {
        if self.at(C1Token::Identifier) && self.next_is(C1Token::Assign) {
            self.eat();
            self.eat();
            self.assignment()
        } else {
            self.expr()
        }
    }

    /// `expr = simpexpr [ relop simpexpr ]`
    fn expr(&mut self) -> (result: Result<(), SyntaxError>)
        requires
            old(self).wf(),
        ensures
            final(self).stepped(
                *old(self),
                expr_at(old(self).tokens(), old(self).position()),
                result,
            ),
        decreases old(self).budget(), 3int,
    {
        self.simpexpr()?;
        if self.at_rel_op() {
            self.eat();
            self.simpexpr()
        } else {
            Ok(())
        }
    }

    /// `simpexpr = [ "-" ] term { addop term }`
    fn simpexpr(&mut self) -> (result: Result<(), SyntaxError>)
        requires
            old(self).wf(),
        ensures
            final(self).stepped(
                *old(self),
                simpexpr_at(old(self).tokens(), old(self).position()),
                result,
            ),
        decreases old(self).budget(), 2int,
    {
        let ghost s = self.tokens();
        let ghost start = self.position();
        if self.at(C1Token::Minus) {
            self.eat();
        }
        let ghost first = self.position();
        self.term()?;
        let mut more = self.at_add_op();
        while more
            invariant
                self.wf(),
                self.lexemes() == old(self).lexemes(),
                s == self.tokens(),
                start == old(self).position(),
                start <= first <= self.position(),
                more == has_add_op(s, self.position()),
                simpexpr_at(s, start) == extend((first - start) as nat, term_list_at(s, first)),
                term_list_at(s, first) == extend(
                    (self.position() - first) as nat,
                    simpexpr_rest_at(s, self.position()),
                ),
            decreases self.budget(),
        {
            let ghost here = self.position();
            self.eat();
            let step = self.term();
            assert(simpexpr_rest_at(s, here) == match term_at(s, here + 1) {
                Ok(n) => extend(1 + n, simpexpr_rest_at(s, here + 1 + n)),
                Err(f) => Err(f),
            });
            match step {
                Ok(()) => {},
                Err(error) => {
                    return Err(error);
                },
            }
            more = self.at_add_op();
        }
        Ok(())
    }

    /// `term = factor { mulop factor }`
    fn term(&mut self) -> (result: Result<(), SyntaxError>)
        requires
            old(self).wf(),
        ensures
            final(self).stepped(
                *old(self),
                term_at(old(self).tokens(), old(self).position()),
                result,
            ),
        decreases old(self).budget(), 1int,
    {
        let ghost s = self.tokens();
        let ghost start = self.position();
        self.factor()?;
        let mut more = self.at_mul_op();
        while more
            invariant
                self.wf(),
                self.lexemes() == old(self).lexemes(),
                s == self.tokens(),
                start == old(self).position(),
                start <= self.position(),
                more == has_mul_op(s, self.position()),
                term_at(s, start) == extend(
                    (self.position() - start) as nat,
                    term_rest_at(s, self.position()),
                ),
            decreases self.budget(),
        {
            let ghost here = self.position();
            self.eat();
            let step = self.factor();
            assert(term_rest_at(s, here) == match factor_at(s, here + 1) {
                Ok(n) => extend(1 + n, term_rest_at(s, here + 1 + n)),
                Err(f) => Err(f),
            });
            match step {
                Ok(()) => {},
                Err(error) => {
                    return Err(error);
                },
            }
            more = self.at_mul_op();
        }
        Ok(())
    }

    /// `factor = functioncall | identifier | literal | "(" assignment ")"`
    fn factor(&mut self) -> (result: Result<(), SyntaxError>)
        requires
            old(self).wf(),
        ensures
            final(self).stepped(
                *old(self),
                factor_at(old(self).tokens(), old(self).position()),
                result,
            ),
        decreases old(self).budget(), 0int,
    {
        match self.lexer.current_token() {
            Some(C1Token::Identifier) => {
                if self.next_is(C1Token::LeftParenthesis) {
                    self.functioncall()
                } else {
                    self.eat();
                    Ok(())
                }
            },
            Some(C1Token::ConstInt) | Some(C1Token::ConstFloat) | Some(C1Token::ConstBoolean) => {
                self.eat();
                Ok(())
            },
            Some(C1Token::LeftParenthesis) => {
                self.eat();
                self.assignment()?;
                self.expect(C1Token::RightParenthesis, Expected::RightParenthesis)
            },
            _ => Err(self.fail(Expected::Factor)),
        }
    }
}

} // verus!
