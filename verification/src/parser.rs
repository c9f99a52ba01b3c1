//! The parser: recursive descent over a token stream, one token of
//! lookahead, proved to compute what [`crate::grammar`] defines.

use vstd::prelude::*;
use crate::error::{ParserError, ParserErrorView};
use crate::expr::Expr;
use crate::grammar;
use crate::grammar::{Expectation, Level, Step};
use crate::stmt::{stmt_views, Stmt, StmtView};
use crate::token::{token_views, Token, TokenType, TokenView};

mod expressions;
mod statements;

verus! {

/// A parser over a token stream, with the position it has reached.
pub struct Parser {
    tokens: Vec<Token>,
    current: usize,
}

/// The view of a parser's answer.
pub open spec fn outcome<T: View>(result: Result<T, ParserError>) -> Result<T::V, ParserErrorView> {
    match result {
        Ok(value) => Ok(value@),
        Err(error) => Err(error@),
    }
}

/// The view of a parser's answer that is a list of statements.
pub open spec fn statements_outcome(result: Result<Vec<Stmt>, ParserError>) -> Result<
    Seq<StmtView>,
    ParserErrorView,
> {
    match result {
        Ok(stmts) => Ok(stmt_views(stmts@)),
        Err(error) => Err(error@),
    }
}

/// Whether `kind` is an operator of `level`.
fn is_operator(level: Level, kind: TokenType) -> (found: bool)
    ensures
        found == grammar::is_operator(level, kind),
{
    match level {
        Level::Or => kind == TokenType::Or,
        Level::And => kind == TokenType::And,
        Level::Equality => kind == TokenType::BangEqual || kind == TokenType::EqualEqual,
        Level::Comparison => kind == TokenType::Greater || kind == TokenType::GreaterEqual || kind
            == TokenType::Less || kind == TokenType::LessEqual,
        Level::Term => kind == TokenType::Minus || kind == TokenType::Plus,
        Level::Factor => kind == TokenType::FSlash || kind == TokenType::Asterisk,
    }
}

/// Joins two operands of a binary level.
fn join(level: Level, lhs: Expr, operator: Token, rhs: Expr) -> (expr: Expr)
    ensures
        expr@ == grammar::join(level, lhs@, operator@, rhs@),
{
    match level {
        Level::Or | Level::And => Expr::Logical { left: Box::new(lhs), operator, right: Box::new(rhs) },
        _ => Expr::Binary { left: Box::new(lhs), operator, right: Box::new(rhs) },
    }
}

impl Parser {
    /// The token stream that the parser reads.
    pub closed spec fn stream(&self) -> Seq<TokenView> {
        token_views(self.tokens@)
    }

    /// The index of the token at which the parser stands.
    pub closed spec fn position(&self) -> nat {
        self.current as nat
    }

    /// The parser stands inside a stream that ends with the end marker.
    pub open spec fn wf(&self) -> bool {
        &&& grammar::well_terminated(self.stream())
        &&& self.position() < self.stream().len()
    }

    /// The parser has taken `used` tokens of the same stream since `before`.
    pub open spec fn moved(&self, before: Parser, used: nat) -> bool {
        &&& self.wf()
        &&& self.stream() == before.stream()
        &&& self.position() == before.position() + used
    }

    /// The parser has gone on from `before` as `step` says, and `answer` is
    /// what `step` found.
    pub open spec fn follows<T>(&self, before: Parser, answer: Result<T, ParserErrorView>, step: Step<T>) -> bool {
        &&& self.moved(before, step.used)
        &&& answer == step.outcome
    }

    /// The tokens still ahead of the parser.
    pub open spec fn ahead(&self) -> nat {
        grammar::left(self.stream(), self.position())
    }

    /// Whether a parser can read `tokens`: they are not empty, and the last
    /// is the end marker.
    pub fn accepts(tokens: &Vec<Token>) -> (able: bool)
        ensures
            able == grammar::well_terminated(token_views(tokens@)),
    {
        tokens.len() > 0 && tokens[tokens.len() - 1].token_type == TokenType::Eof
    }

    /// A parser at the start of `tokens`.
    pub fn new(tokens: Vec<Token>) -> (parser: Parser)
        requires
            grammar::well_terminated(token_views(tokens@)),
        ensures
            parser.wf(),
            parser.stream() == token_views(tokens@),
            parser.position() == 0,
    {
        Parser { tokens, current: 0 }
    }

    /// Parses declarations up to the end marker. The first error ends the
    /// parse; the parser then stands where recovery left it.
    #[verifier::rlimit(100)]
    pub fn parse(&mut self) -> (result: Result<Vec<Stmt>, ParserError>)
        requires
            old(self).wf(),
        ensures
            final(self).follows(
                *old(self),
                statements_outcome(result),
                grammar::program(old(self).stream(), old(self).position(), Seq::empty()),
            ),
    {
        proof {
            reveal(grammar::program);
                reveal(grammar::declaration);
        }
        let ghost start = *self;
        let ghost ts = self.stream();
        let mut statements: Vec<Stmt> = Vec::new();
        assert(stmt_views(statements@) =~= Seq::empty());
        while !self.is_at_end()
            invariant
                self.moved(start, (self.position() - start.position()) as nat),
                start == *old(self),
                start.position() <= self.position(),
                ts == self.stream(),
                grammar::program(ts, start.position(), Seq::empty()) == grammar::program(
                    ts,
                    self.position(),
                    stmt_views(statements@),
                ).after((self.position() - start.position()) as nat),
            decreases self.ahead(),
        {
            proof {
                reveal(grammar::program);
                reveal(grammar::declaration);
            }
            let ghost sofar = stmt_views(statements@);
            match self.declaration() {
                Ok(stmt) => {
                    statements.push(stmt);
                    assert(stmt_views(statements@) =~= sofar.push(stmt@));
                },
                Err(e) => {
                    return Err(e);
                },
            }
        }
        Ok(statements)
    }

    /// Takes the token at which the parser stands if it is of `token_type`.
    fn match_token(&mut self, token_type: TokenType) -> (matched: bool)
        requires
            old(self).wf(),
        ensures
            matched == grammar::check(old(self).stream(), old(self).position(), token_type),
            final(self).moved(*old(self), if matched {
                1nat
            } else {
                0nat
            }),
    {
        if self.check(token_type) {
            self.advance();
            return true;
        }
        false
    }

    /// Takes the token at which the parser stands if it is of one of the
    /// two kinds.
    fn match_either(&mut self, first: TokenType, second: TokenType) -> (matched: bool)
        requires
            old(self).wf(),
        ensures
            matched == (grammar::check(old(self).stream(), old(self).position(), first) || grammar::check(
                old(self).stream(),
                old(self).position(),
                second,
            )),
            final(self).moved(*old(self), if matched {
                1nat
            } else {
                0nat
            }),
    {
        if self.check(first) || self.check(second) {
            self.advance();
            return true;
        }
        false
    }

    /// Takes the token at which the parser stands if it is an operator of
    /// `level`.
    fn match_operator(&mut self, level: Level) -> (matched: bool)
        requires
            old(self).wf(),
        ensures
            matched == grammar::operator_at(old(self).stream(), old(self).position(), level),
            final(self).moved(*old(self), if matched {
                1nat
            } else {
                0nat
            }),
    {
        if !self.is_at_end() && is_operator(level, self.peek().token_type) {
            self.advance();
            return true;
        }
        false
    }

    /// Whether the token at which the parser stands is of `token_type`.
    fn check(&self, token_type: TokenType) -> (found: bool)
        requires
            self.wf(),
        ensures
            found == grammar::check(self.stream(), self.position(), token_type),
    {
        if self.is_at_end() {
            return false;
        }
        self.peek().token_type == token_type
    }

    /// Steps over the token at which the parser stands, unless it is the end
    /// marker.
    fn advance(&mut self)
        requires
            old(self).wf(),
        ensures
            final(self).moved(*old(self), if grammar::at_end(old(self).stream(), old(self).position()) {
                0nat
            } else {
                1nat
            }),
    {
        if !self.is_at_end() {
            assert(self.stream().len() == self.tokens.len());
            self.current += 1;
        }
    }

    /// The token before the one at which the parser stands.
    fn previous(&self) -> (token: &Token)
        requires
            self.wf(),
            self.position() > 0,
        ensures
            self.position() <= self.stream().len(),
            token@ == self.stream()[self.position() - 1],
    {
        &self.tokens[self.current - 1]
    }

    /// The text of the token before the one at which the parser stands; at
    /// the start of the stream, the empty text.
    fn previous_lexeme(&self) -> (text: String)
        requires
            self.wf(),
        ensures
            text@ == grammar::lexeme_before(self.stream(), self.position()),
    {
        if self.current > 0 {
            self.tokens[self.current - 1].lexeme.clone()
        } else {
            String::new()
        }
    }

    /// The source line of the token before the one at which the parser
    /// stands; at the start of the stream, of the first token.
    fn previous_line(&self) -> (line: usize)
        requires
            self.wf(),
        ensures
            line == grammar::line_before(self.stream(), self.position()),
    {
        if self.current > 0 {
            self.tokens[self.current - 1].line
        } else {
            self.tokens[0].line
        }
    }

    /// The place at which the parser stands.
    fn place(&self) -> (at: usize)
        ensures
            at == self.position(),
    {
        self.current
    }

    /// The text of the token at `at`; past the stream, the empty text.
    fn lexeme_of(&self, at: usize) -> (text: String)
        ensures
            text@ == grammar::lexeme_at(self.stream(), at as nat),
    {
        if at < self.tokens.len() {
            self.tokens[at].lexeme.clone()
        } else {
            String::new()
        }
    }

    /// The source line of the token at `at`.
    fn line_of(&self, at: usize) -> (line: usize)
        ensures
            line == grammar::line_at(self.stream(), at as nat),
    {
        if at < self.tokens.len() {
            self.tokens[at].line
        } else {
            0
        }
    }

    /// The token at which the parser stands.
    fn peek(&self) -> (token: &Token)
        requires
            self.wf(),
        ensures
            self.position() < self.stream().len(),
            token@ == self.stream()[self.position() as int],
    {
        &self.tokens[self.current]
    }

    /// Whether the parser stands on the end marker.
    fn is_at_end(&self) -> (ended: bool)
        requires
            self.wf(),
        ensures
            ended == grammar::at_end(self.stream(), self.position()),
    {
        self.peek().token_type == TokenType::Eof
    }

    /// Drops tokens up to a place where a statement may start again: behind
    /// a semicolon, or in front of a keyword that opens a statement.
    #[verifier::rlimit(100)]
    fn synchronize(&mut self)
        requires
            old(self).wf(),
        ensures
            final(self).moved(*old(self), grammar::synchronized(old(self).stream(), old(self).position())),
    {
        proof {
            reveal(grammar::skipped);
        }
        let ghost start = *self;
        let ghost ts = self.stream();
        if self.is_at_end() {
            return ;
        }
        self.advance();
        while !self.is_at_end()
            invariant
                self.moved(start, (self.position() - start.position()) as nat),
                start == *old(self),
                ts == self.stream(),
                start.position() < self.position(),
                !grammar::at_end(ts, start.position()),
                grammar::skipped(ts, start.position() + 1) == (self.position() - start.position() - 1)
                    + grammar::skipped(ts, self.position()),
            decreases self.ahead(),
        {
            proof {
                reveal(grammar::skipped);
            }
            if self.previous().token_type == TokenType::Semicolon {
                return ;
            }
            let kind = self.peek().token_type;
            if kind == TokenType::Class || kind == TokenType::Def || kind == TokenType::Var || kind == TokenType::For
                || kind == TokenType::If || kind == TokenType::While || kind == TokenType::Print || kind
                == TokenType::Return {
                return ;
            }
            self.advance();
        }
    }

    /// Takes the token at which the parser stands if it is of `token_type`,
    /// and says what is missing otherwise.
    fn consume(&mut self, token_type: TokenType, what: Expectation) -> (result: Result<Token, ParserError>)
        requires
            old(self).wf(),
        ensures
            final(self).follows(
                *old(self),
                outcome(result),
                grammar::consume(old(self).stream(), old(self).position(), token_type, what),
            ),
    {
        if self.check(token_type) {
            let token = self.peek().clone();
            self.advance();
            return Ok(token);
        }
        Err(self.missing(what))
    }

    /// The error for a token that is needed where the parser stands.
    #[verifier::rlimit(100)]
    fn missing(&self, what: Expectation) -> (error: ParserError)
        requires
            self.wf(),
        ensures
            error@ == grammar::missing(self.stream(), self.position(), what),
    {
        match what {
            Expectation::VariableName => ParserError::ExpectedVariableName {
                lexeme: self.previous_lexeme(),
                line: self.previous_line(),
            },
            Expectation::SemicolonAfterVariableDeclaration => ParserError::ExpectedSemicolonAfterVariableDeclaration {
                lexeme: self.previous_lexeme(),
                line: self.previous_line(),
            },
            Expectation::SemicolonAfterPrintValue => ParserError::ExpectedSemicolonAfterPrintValue {
                value: self.previous_lexeme(),
                line: self.previous_line(),
            },
            Expectation::SemicolonAfterReturnValue => ParserError::ExpectedSemicolonAfterReturnValue {
                value: self.previous_lexeme(),
                line: self.previous_line(),
            },
            Expectation::SemicolonAfterExpression => ParserError::ExpectedSemicolonAfterExpression {
                value: self.previous_lexeme(),
                line: self.previous_line(),
            },
            Expectation::LParenAfterFor => ParserError::ExpectedLParenAfterFor { line: self.peek().line },
            Expectation::SemiColonAfterForCondition => ParserError::ExpectedSemiColonAfterForCondition {
                line: self.peek().line,
            },
            Expectation::RParenAfterForClauses => ParserError::ExpectedRParenAfterForClauses {
                line: self.peek().line,
            },
            Expectation::LParenAfterIf => ParserError::ExpectedLParenAfterIf { line: self.peek().line },
            Expectation::LParenAfterWhile => ParserError::ExpectedLParenAfterWhile { line: self.peek().line },
            Expectation::RParenAfterCondition => ParserError::ExpectedRParenAfterCondition {
                line: self.peek().line,
            },
            Expectation::RBraceAfterBlock => ParserError::ExpectedRBraceAfterBlock { line: self.peek().line },
            Expectation::RParenAfterArguments => ParserError::ExpectedRParenAfterArguments {
                line: self.peek().line,
            },
            Expectation::RParenAfterExpression => ParserError::ExpectedRParenAfterExpression {
                line: self.peek().line,
            },
            Expectation::FunctionName => ParserError::ExpectedFunctionName { line: self.peek().line },
            Expectation::LParenAfterFunctionName => ParserError::ExpectedLParenAfterFunctionName {
                line: self.peek().line,
            },
            Expectation::ParameterName => ParserError::ExpectedParameterName { line: self.peek().line },
            Expectation::RParenAfterParameters => ParserError::ExpectedRParenAfterParameters {
                line: self.peek().line,
            },
            Expectation::LBraceBeforeFunctionBody => ParserError::ExpectedLBraceBeforeFunctionBody {
                line: self.peek().line,
            },
            Expectation::RBrackAfterValues => ParserError::ExpectedRBrackAfterValues { line: self.peek().line },
            Expectation::RBrackAfterIndex => ParserError::ExpectedRBrackAfterIndex { line: self.peek().line },
        }
    }
}

} // verus!
