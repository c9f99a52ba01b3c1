//! The declaration and statement levels of the parser.

use vstd::prelude::*;
use crate::error::ParserError;
use crate::expr::Expr;
use crate::grammar;
use crate::grammar::{Expectation, MAX_ARITY};
use crate::parser::{outcome, statements_outcome, Parser};
use crate::stmt::{stmt_views, Stmt};
use crate::token::{token_views, Token, TokenType};
use crate::value::LiteralType;

verus! {

impl Parser {
    /// A function, a variable or a statement. An error in a function or a variable is followed by
    /// recovery.
    #[verifier::rlimit(100)]
    pub(super) fn declaration(&mut self) -> (result: Result<Stmt, ParserError>)
        requires
            old(self).wf(),
        ensures
            final(self).follows(
                *old(self),
                outcome(result),
                grammar::declaration(old(self).stream(), old(self).position()),
            ),
            result is Ok ==> final(self).position() > old(self).position(),
        decreases self.ahead(), 71int,
    {
        proof {
            reveal(grammar::declaration);
            reveal(grammar::function);
            reveal(grammar::var_declaration);
            reveal(grammar::statement);
        }
        if self.match_token(TokenType::Def) {
            match self.function() {
                Ok(stmt) => Ok(stmt),
                Err(e) => {
                    self.synchronize();
                    Err(e)
                },
            }
        } else if self.match_token(TokenType::Var) {
            match self.var_declaration() {
                Ok(stmt) => Ok(stmt),
                Err(e) => {
                    self.synchronize();
                    Err(e)
                },
            }
        } else {
            self.statement()
        }
    }

    /// A function declaration, from behind `def`.
    #[verifier::rlimit(100)]
    fn function(&mut self) -> (result: Result<Stmt, ParserError>)
        requires
            old(self).wf(),
        ensures
            final(self).follows(
                *old(self),
                outcome(result),
                grammar::function(old(self).stream(), old(self).position()),
            ),
        decreases self.ahead(), 73int,
    {
        proof {
            reveal(grammar::function);
            reveal(grammar::block);
        }
        let name = self.consume(TokenType::Identifier, Expectation::FunctionName)?;
        self.consume(TokenType::LParen, Expectation::LParenAfterFunctionName)?;
        let params = if !self.check(TokenType::RParen) {
            self.parameters(&name)?
        } else {
            Vec::new()
        };
        assert(token_views(Seq::<Token>::empty()) =~= Seq::empty());
        self.consume(TokenType::RParen, Expectation::RParenAfterParameters)?;
        self.consume(TokenType::LBrace, Expectation::LBraceBeforeFunctionBody)?;
        let body = self.block()?;
        Ok(Stmt::Function { name, params, body })
    }

    /// The parameter names of the function `owner`, which has at least one.
    #[verifier::rlimit(100)]
    fn parameters(&mut self, owner: &Token) -> (result: Result<Vec<Token>, ParserError>)
        requires
            old(self).wf(),
        ensures
            final(self).follows(
                *old(self),
                match result {
                    Ok(names) => Ok(token_views(names@)),
                    Err(e) => Err(e@),
                },
                grammar::parameters(old(self).stream(), old(self).position(), owner@, Seq::empty()),
            ),
    {
        proof {
            reveal(grammar::parameters);
        }
        let ghost start = *self;
        let ghost ts = self.stream();
        let mut params: Vec<Token> = Vec::new();
        assert(token_views(params@) =~= Seq::empty());
        loop
            invariant_except_break
                grammar::parameters(ts, start.position(), owner@, Seq::empty()) == grammar::parameters(
                    ts,
                    self.position(),
                    owner@,
                    token_views(params@),
                ).after((self.position() - start.position()) as nat),
            invariant
                self.moved(start, (self.position() - start.position()) as nat),
                start == *old(self),
                ts == self.stream(),
                start.position() <= self.position(),
            ensures
                grammar::parameters(ts, start.position(), owner@, Seq::empty()) == grammar::done(
                    token_views(params@),
                    (self.position() - start.position()) as nat,
                ),
            decreases self.ahead(),
        {
            proof {
                reveal(grammar::parameters);
            }
            if params.len() >= MAX_ARITY {
                let line = self.peek().line;
                return Err(ParserError::TooManyParameters { name: owner.lexeme.clone(), line });
            }
            let ghost sofar = token_views(params@);
            let parameter = self.consume(TokenType::Identifier, Expectation::ParameterName)?;
            params.push(parameter);
            assert(token_views(params@) =~= sofar.push(parameter@));
            if !self.match_token(TokenType::Comma) {
                break ;
            }
        }
        Ok(params)
    }

    /// A variable declaration, from behind `var`.
    #[verifier::rlimit(100)]
    fn var_declaration(&mut self) -> (result: Result<Stmt, ParserError>)
        requires
            old(self).wf(),
        ensures
            final(self).follows(
                *old(self),
                outcome(result),
                grammar::var_declaration(old(self).stream(), old(self).position()),
            ),
        decreases self.ahead(), 73int,
    {
        proof {
            reveal(grammar::var_declaration);
            reveal(grammar::expression);
        }
        let name = self.consume(TokenType::Identifier, Expectation::VariableName)?;
        let initializer = if self.match_token(TokenType::Equal) {
            let expr = self.expression()?;
            Some(expr)
        } else {
            None
        };
        self.consume(TokenType::Semicolon, Expectation::SemicolonAfterVariableDeclaration)?;
        Ok(Stmt::Var { name, initializer })
    }

    /// A statement of any kind.
    #[verifier::rlimit(100)]
    fn statement(&mut self) -> (result: Result<Stmt, ParserError>)
        requires
            old(self).wf(),
        ensures
            final(self).follows(
                *old(self),
                outcome(result),
                grammar::statement(old(self).stream(), old(self).position()),
            ),
            result is Ok ==> final(self).position() > old(self).position(),
        decreases self.ahead(), 70int,
    {
        proof {
            reveal(grammar::statement);
            reveal(grammar::for_statement);
            reveal(grammar::if_statement);
            reveal(grammar::print_statement);
            reveal(grammar::return_statement);
            reveal(grammar::while_statement);
            reveal(grammar::block);
            reveal(grammar::expression_statement);
        }
        if self.match_token(TokenType::For) {
            return self.for_statement();
        }
        if self.match_token(TokenType::If) {
            return self.if_statement();
        }
        if self.match_token(TokenType::Print) {
            return self.print_statement();
        }
        if self.match_token(TokenType::Return) {
            return self.return_statement();
        }
        if self.match_token(TokenType::While) {
            return self.while_statement();
        }
        if self.match_token(TokenType::LBrace) {
            let statements = self.block()?;
            return Ok(Stmt::Block { statements });
        }
        self.expression_statement()
    }

    /// A `for` loop, from behind `for`.
    #[verifier::rlimit(100)]
    fn for_statement(&mut self) -> (result: Result<Stmt, ParserError>)
        requires
            old(self).wf(),
        ensures
            final(self).follows(
                *old(self),
                outcome(result),
                grammar::for_statement(old(self).stream(), old(self).position()),
            ),
        decreases self.ahead(), 73int,
    {
        proof {
            reveal(grammar::for_statement);
            reveal(grammar::var_declaration);
            reveal(grammar::expression_statement);
            reveal(grammar::expression);
            reveal(grammar::for_clauses_end);
        }
        self.consume(TokenType::LParen, Expectation::LParenAfterFor)?;
        let initializer;
        if self.match_token(TokenType::Semicolon) {
            initializer = None;
        } else if self.match_token(TokenType::Var) {
            let var_declaration = self.var_declaration()?;
            initializer = Some(Box::new(var_declaration));
        } else {
            let expr_stmt = self.expression_statement()?;
            initializer = Some(Box::new(expr_stmt));
        }
        let condition = if !self.check(TokenType::Semicolon) {
            self.expression()?
        } else {
            Expr::Literal { value: LiteralType::True }
        };
        self.consume(TokenType::Semicolon, Expectation::SemiColonAfterForCondition)?;
        self.for_clauses_end(initializer, condition)
    }

    /// The part of a `for` behind the semicolon of its condition: the
    /// increment, the closing parenthesis and the body.
    #[verifier::rlimit(100)]
    fn for_clauses_end(&mut self, initializer: Option<Box<Stmt>>, condition: Expr) -> (result: Result<
        Stmt,
        ParserError,
    >)
        requires
            old(self).wf(),
        ensures
            final(self).follows(
                *old(self),
                outcome(result),
                grammar::for_clauses_end(
                    old(self).stream(),
                    old(self).position(),
                    match initializer {
                        Some(s) => Some(Box::new(s@)),
                        None => None,
                    },
                    condition@,
                ),
            ),
        decreases self.ahead(), 72int,
    {
        proof {
            reveal(grammar::for_clauses_end);
            reveal(grammar::expression);
            reveal(grammar::statement);
        }
        let mut increment = None;
        if !self.check(TokenType::RParen) {
            increment = Some(self.expression()?);
        }
        self.consume(TokenType::RParen, Expectation::RParenAfterForClauses)?;
        let body = self.statement()?;
        Ok(Stmt::For { initializer, condition, increment, body: Box::new(body) })
    }

    /// An `if`, from behind `if`.
    #[verifier::rlimit(100)]
    fn if_statement(&mut self) -> (result: Result<Stmt, ParserError>)
        requires
            old(self).wf(),
        ensures
            final(self).follows(
                *old(self),
                outcome(result),
                grammar::if_statement(old(self).stream(), old(self).position()),
            ),
        decreases self.ahead(), 73int,
    {
        proof {
            reveal(grammar::if_statement);
            reveal(grammar::expression);
            reveal(grammar::statement);
        }
        self.consume(TokenType::LParen, Expectation::LParenAfterIf)?;
        let condition = self.expression()?;
        self.consume(TokenType::RParen, Expectation::RParenAfterCondition)?;
        let then_branch = self.statement()?;
        let mut else_branch = None;
        if self.match_token(TokenType::Else) {
            let result = self.statement()?;
            else_branch = Some(Box::new(result));
        }
        Ok(Stmt::If { condition, then_branch: Box::new(then_branch), else_branch })
    }

    /// A `print`, from behind `print`.
    #[verifier::rlimit(100)]
    fn print_statement(&mut self) -> (result: Result<Stmt, ParserError>)
        requires
            old(self).wf(),
        ensures
            final(self).follows(
                *old(self),
                outcome(result),
                grammar::print_statement(old(self).stream(), old(self).position()),
            ),
        decreases self.ahead(), 73int,
    {
        proof {
            reveal(grammar::print_statement);
            reveal(grammar::expression);
        }
        let value = self.expression()?;
        self.consume(TokenType::Semicolon, Expectation::SemicolonAfterPrintValue)?;
        Ok(Stmt::Print { expression: value })
    }

    /// A `return`, from behind `return`: the keyword is the token just taken.
    #[verifier::rlimit(100)]
    fn return_statement(&mut self) -> (result: Result<Stmt, ParserError>)
        requires
            old(self).wf(),
            old(self).position() > 0,
        ensures
            final(self).follows(
                *old(self),
                outcome(result),
                grammar::return_statement(
                    old(self).stream(),
                    old(self).position(),
                    old(self).stream()[old(self).position() - 1],
                ),
            ),
        decreases self.ahead(), 73int,
    {
        proof {
            reveal(grammar::return_statement);
            reveal(grammar::expression);
        }
        let keyword = self.previous().clone();
        let mut value = None;
        if !self.check(TokenType::Semicolon) {
            value = Some(self.expression()?);
        }
        self.consume(TokenType::Semicolon, Expectation::SemicolonAfterReturnValue)?;
        Ok(Stmt::Return { keyword, value })
    }

    /// A `while` loop, from behind `while`.
    #[verifier::rlimit(100)]
    fn while_statement(&mut self) -> (result: Result<Stmt, ParserError>)
        requires
            old(self).wf(),
        ensures
            final(self).follows(
                *old(self),
                outcome(result),
                grammar::while_statement(old(self).stream(), old(self).position()),
            ),
        decreases self.ahead(), 73int,
    {
        proof {
            reveal(grammar::while_statement);
            reveal(grammar::expression);
            reveal(grammar::statement);
        }
        self.consume(TokenType::LParen, Expectation::LParenAfterWhile)?;
        let condition = self.expression()?;
        self.consume(TokenType::RParen, Expectation::RParenAfterCondition)?;
        let body = self.statement()?;
        Ok(Stmt::While { condition, body: Box::new(body) })
    }

    /// The declarations of a block and its closing brace, from behind `{`.
    #[verifier::rlimit(100)]
    fn block(&mut self) -> (result: Result<Vec<Stmt>, ParserError>)
        requires
            old(self).wf(),
        ensures
            final(self).follows(
                *old(self),
                statements_outcome(result),
                grammar::block(old(self).stream(), old(self).position(), Seq::empty()),
            ),
        decreases self.ahead(), 72int,
    {
        proof {
            reveal(grammar::block);
            reveal(grammar::declaration);
        }
        let ghost start = *self;
        let ghost ts = self.stream();
        let mut statements: Vec<Stmt> = Vec::new();
        assert(stmt_views(statements@) =~= Seq::empty());
        while !self.check(TokenType::RBrace) && !self.is_at_end()
            invariant
                self.moved(start, (self.position() - start.position()) as nat),
                start == *old(self),
                ts == self.stream(),
                start.position() <= self.position(),
                grammar::block(ts, start.position(), Seq::empty()) == grammar::block(
                    ts,
                    self.position(),
                    stmt_views(statements@),
                ).after((self.position() - start.position()) as nat),
            decreases self.ahead(),
        {
            proof {
                reveal(grammar::block);
                reveal(grammar::declaration);
            }
            let ghost sofar = stmt_views(statements@);
            let stmt = self.declaration()?;
            statements.push(stmt);
            assert(stmt_views(statements@) =~= sofar.push(stmt@));
        }
        self.consume(TokenType::RBrace, Expectation::RBraceAfterBlock)?;
        Ok(statements)
    }

    /// An expression with the semicolon that makes it a statement.
    #[verifier::rlimit(100)]
    fn expression_statement(&mut self) -> (result: Result<Stmt, ParserError>)
        requires
            old(self).wf(),
        ensures
            final(self).follows(
                *old(self),
                outcome(result),
                grammar::expression_statement(old(self).stream(), old(self).position()),
            ),
            result is Ok ==> final(self).position() > old(self).position(),
        decreases self.ahead(), 50int,
    {
        proof {
            reveal(grammar::expression_statement);
            reveal(grammar::expression);
        }
        let expr = self.expression()?;
        self.consume(TokenType::Semicolon, Expectation::SemicolonAfterExpression)?;
        Ok(Stmt::Expression { expression: expr })
    }
}

} // verus!
