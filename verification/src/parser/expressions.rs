//! The expression levels of the parser.

use vstd::prelude::*;
use crate::error::ParserError;
use crate::expr::{expr_views, Expr};
use crate::grammar;
use crate::grammar::{Expectation, Level, MAX_ARITY};
use crate::number::Number;
use crate::parser::{join, outcome, Parser};
use crate::token::{Token, TokenType};
use crate::value::LiteralType;

verus! {

impl Parser {
    /// An expression: an assignment or anything that binds tighter.
    #[verifier::rlimit(100)]
    pub(super) fn expression(&mut self) -> (result: Result<Expr, ParserError>)
        requires
            old(self).wf(),
        ensures
            final(self).follows(
                *old(self),
                outcome(result),
                grammar::expression(old(self).stream(), old(self).position()),
            ),
            result is Ok ==> final(self).position() > old(self).position(),
        decreases self.ahead(), 49int,
    {
        proof {
            reveal(grammar::expression);
            reveal(grammar::assignment);
        }
        self.assignment()
    }

    /// An assignment, an increment or a decrement of a variable, or an `or` expression.
    #[verifier::rlimit(100)]
    fn assignment(&mut self) -> (result: Result<Expr, ParserError>)
        requires
            old(self).wf(),
        ensures
            final(self).follows(
                *old(self),
                outcome(result),
                grammar::assignment(old(self).stream(), old(self).position()),
            ),
            result is Ok ==> final(self).position() > old(self).position(),
        decreases self.ahead(), 48int,
    {
        proof {
            reveal(grammar::assignment);
            reveal(grammar::binary);
        }
        let first = self.place();
        let expr = self.or()?;
        if self.match_either(TokenType::Incr, TokenType::Decr) {
            let kind = self.previous().token_type;
            match expr {
                Expr::Var { name } => {
                    return Ok(Expr::Alteration { name, alteration_type: kind });
                },
                _ => {
                    let target = self.lexeme_of(first);
                    let line = self.line_of(first);
                    return Err(ParserError::InvalidAlterationTarget { target, line });
                },
            }
        } else if self.match_token(TokenType::Equal) {
            let value = self.assignment()?;
            match expr {
                Expr::Var { name } => {
                    return Ok(Expr::Assign { name, value: Box::new(value) });
                },
                _ => {
                    let target = self.lexeme_of(first);
                    let line = self.line_of(first);
                    return Err(ParserError::InvalidAssignmentTarget { target, line });
                },
            }
        }
        Ok(expr)
    }

    /// Operands joined by `or`.
    #[verifier::rlimit(100)]
    fn or(&mut self) -> (result: Result<Expr, ParserError>)
        requires
            old(self).wf(),
        ensures
            final(self).follows(
                *old(self),
                outcome(result),
                grammar::binary(old(self).stream(), old(self).position(), Level::Or),
            ),
            result is Ok ==> final(self).position() > old(self).position(),
        decreases self.ahead(), 47int,
    {
        self.binary(Level::Or)
    }

    /// Operands joined by `and`.
    #[verifier::rlimit(100)]
    fn and(&mut self) -> (result: Result<Expr, ParserError>)
        requires
            old(self).wf(),
        ensures
            final(self).follows(
                *old(self),
                outcome(result),
                grammar::binary(old(self).stream(), old(self).position(), Level::And),
            ),
            result is Ok ==> final(self).position() > old(self).position(),
        decreases self.ahead(), 44int,
    {
        self.binary(Level::And)
    }

    /// Operands joined by the operators of equality.
    #[verifier::rlimit(100)]
    fn equality(&mut self) -> (result: Result<Expr, ParserError>)
        requires
            old(self).wf(),
        ensures
            final(self).follows(
                *old(self),
                outcome(result),
                grammar::binary(old(self).stream(), old(self).position(), Level::Equality),
            ),
            result is Ok ==> final(self).position() > old(self).position(),
        decreases self.ahead(), 41int,
    {
        self.binary(Level::Equality)
    }

    /// Operands joined by the operators of comparison.
    #[verifier::rlimit(100)]
    fn comparison(&mut self) -> (result: Result<Expr, ParserError>)
        requires
            old(self).wf(),
        ensures
            final(self).follows(
                *old(self),
                outcome(result),
                grammar::binary(old(self).stream(), old(self).position(), Level::Comparison),
            ),
            result is Ok ==> final(self).position() > old(self).position(),
        decreases self.ahead(), 38int,
    {
        self.binary(Level::Comparison)
    }

    /// Operands joined by `+` and `-`.
    #[verifier::rlimit(100)]
    fn term(&mut self) -> (result: Result<Expr, ParserError>)
        requires
            old(self).wf(),
        ensures
            final(self).follows(
                *old(self),
                outcome(result),
                grammar::binary(old(self).stream(), old(self).position(), Level::Term),
            ),
            result is Ok ==> final(self).position() > old(self).position(),
        decreases self.ahead(), 35int,
    {
        self.binary(Level::Term)
    }

    /// Operands joined by `*` and `/`.
    #[verifier::rlimit(100)]
    fn factor(&mut self) -> (result: Result<Expr, ParserError>)
        requires
            old(self).wf(),
        ensures
            final(self).follows(
                *old(self),
                outcome(result),
                grammar::binary(old(self).stream(), old(self).position(), Level::Factor),
            ),
            result is Ok ==> final(self).position() > old(self).position(),
        decreases self.ahead(), 32int,
    {
        self.binary(Level::Factor)
    }

    /// One binary level: its operands, joined to the left by its operators.
    #[verifier::rlimit(100)]
    fn binary(&mut self, level: Level) -> (result: Result<Expr, ParserError>)
        requires
            old(self).wf(),
        ensures
            final(self).follows(
                *old(self),
                outcome(result),
                grammar::binary(old(self).stream(), old(self).position(), level),
            ),
            result is Ok ==> final(self).position() > old(self).position(),
        decreases self.ahead(), 3 * grammar::looseness(level) + 1,
    {
        proof {
            reveal(grammar::binary);
            reveal(grammar::binary_tail);
            reveal(grammar::operand);
        }
        let ghost start = *self;
        let ghost ts = self.stream();
        let mut expr = self.operand(level)?;
        loop
            invariant_except_break
                grammar::binary(ts, start.position(), level) == grammar::binary_tail(
                    ts,
                    self.position(),
                    level,
                    expr@,
                ).after((self.position() - start.position()) as nat),
            invariant
                self.moved(start, (self.position() - start.position()) as nat),
                start == *old(self),
                ts == self.stream(),
                start.position() < self.position(),
            ensures
                grammar::binary(ts, start.position(), level) == grammar::done(
                    expr@,
                    (self.position() - start.position()) as nat,
                ),
            decreases self.ahead(),
        {
            proof {
                reveal(grammar::binary_tail);
                reveal(grammar::operand);
            }
            if !self.match_operator(level) {
                break ;
            }
            let operator = self.previous().clone();
            let right = self.operand(level)?;
            expr = join(level, expr, operator, right);
        }
        Ok(expr)
    }

    /// An operand of a binary level: an expression of the next tighter one.
    #[verifier::rlimit(100)]
    fn operand(&mut self, level: Level) -> (result: Result<Expr, ParserError>)
        requires
            old(self).wf(),
        ensures
            final(self).follows(
                *old(self),
                outcome(result),
                grammar::operand(old(self).stream(), old(self).position(), level),
            ),
            result is Ok ==> final(self).position() > old(self).position(),
        decreases self.ahead(), 3 * grammar::looseness(level),
    {
        proof {
            reveal(grammar::operand);
            reveal(grammar::binary);
            reveal(grammar::unary);
        }
        match level {
            Level::Or => self.and(),
            Level::And => self.equality(),
            Level::Equality => self.comparison(),
            Level::Comparison => self.term(),
            Level::Term => self.factor(),
            Level::Factor => self.unary(),
        }
    }

    /// An operand behind any number of `!` and `-`.
    #[verifier::rlimit(100)]
    fn unary(&mut self) -> (result: Result<Expr, ParserError>)
        requires
            old(self).wf(),
        ensures
            final(self).follows(*old(self), outcome(result), grammar::unary(old(self).stream(), old(self).position())),
            result is Ok ==> final(self).position() > old(self).position(),
        decreases self.ahead(), 19int,
    {
        proof {
            reveal(grammar::unary);
            reveal(grammar::call);
        }
        if self.match_either(TokenType::Bang, TokenType::Minus) {
            let operator = self.previous().clone();
            let right = self.unary()?;
            return Ok(Expr::Unary { operator, right: Box::new(right) });
        }
        self.call()
    }

    /// A primary expression with the argument lists and the method call behind it.
    #[verifier::rlimit(100)]
    fn call(&mut self) -> (result: Result<Expr, ParserError>)
        requires
            old(self).wf(),
        ensures
            final(self).follows(*old(self), outcome(result), grammar::call(old(self).stream(), old(self).position())),
            result is Ok ==> final(self).position() > old(self).position(),
        decreases self.ahead(), 18int,
    {
        proof {
            reveal(grammar::call);
            reveal(grammar::call_tail);
            reveal(grammar::primary);
        }
        let ghost start = *self;
        let ghost ts = self.stream();
        let first = self.place();
        let mut expr = self.primary()?;
        loop
            invariant_except_break
                grammar::call(ts, start.position()) == grammar::call_tail(
                    ts,
                    self.position(),
                    start.position(),
                    expr@,
                ).after((self.position() - start.position()) as nat),
            invariant
                first == start.position(),
                self.moved(start, (self.position() - start.position()) as nat),
                start == *old(self),
                ts == self.stream(),
                start.position() < self.position(),
            ensures
                grammar::call(ts, start.position()) == grammar::done(
                    expr@,
                    (self.position() - start.position()) as nat,
                ),
            decreases self.ahead(),
        {
            proof {
                reveal(grammar::call_tail);
                reveal(grammar::finish_call);
                reveal(grammar::call);
            }
            if self.match_token(TokenType::LParen) {
                expr = self.finish_call(expr)?;
            } else if self.match_token(TokenType::Dot) {
                let call = self.call()?;
                match expr {
                    Expr::Var { name } => {
                        return Ok(Expr::ListMethodCall { object: name, call: Box::new(call) });
                    },
                    _ => {
                        let value = self.lexeme_of(first);
                        let line = self.line_of(first);
                        return Err(ParserError::CanOnlyCallIdentifiers { value, line });
                    },
                }
            } else {
                break ;
            }
        }
        Ok(expr)
    }

    /// The arguments of a call and its closing parenthesis.
    #[verifier::rlimit(100)]
    fn finish_call(&mut self, callee: Expr) -> (result: Result<Expr, ParserError>)
        requires
            old(self).wf(),
        ensures
            final(self).follows(
                *old(self),
                outcome(result),
                grammar::finish_call(old(self).stream(), old(self).position(), callee@),
            ),
        decreases self.ahead(), 61int,
    {
        proof {
            reveal(grammar::finish_call);
            reveal(grammar::arguments);
        }
        let ghost start = *self;
        let ghost ts = self.stream();
        let mut arguments: Vec<Expr> = Vec::new();
        assert(expr_views(arguments@) =~= Seq::empty());
        if !self.check(TokenType::RParen) {
            loop
                invariant_except_break
                    grammar::arguments(ts, start.position(), callee@, Seq::empty()) == grammar::arguments(
                        ts,
                        self.position(),
                        callee@,
                        expr_views(arguments@),
                    ).after((self.position() - start.position()) as nat),
                invariant
                    self.moved(start, (self.position() - start.position()) as nat),
                    start == *old(self),
                    ts == self.stream(),
                    start.position() <= self.position(),
                    !grammar::check(ts, start.position(), TokenType::RParen),
                ensures
                    grammar::arguments(ts, start.position(), callee@, Seq::empty()) == grammar::done(
                        expr_views(arguments@),
                        (self.position() - start.position()) as nat,
                    ),
                decreases self.ahead(),
            {
                proof {
                    reveal(grammar::finish_call);
                    reveal(grammar::arguments);
                    reveal(grammar::expression);
                }
                if arguments.len() >= MAX_ARITY {
                    return Err(ParserError::TooManyArguments { callee });
                }
                let ghost sofar = expr_views(arguments@);
                let expr = self.expression()?;
                arguments.push(expr);
                assert(expr_views(arguments@) =~= sofar.push(expr@));
                if !self.match_token(TokenType::Comma) {
                    break ;
                }
            }
        }
        self.consume(TokenType::RParen, Expectation::RParenAfterArguments)?;
        Ok(Expr::Call { callee: Box::new(callee), arguments })
    }

    /// A literal, a name, a group or a list.
    #[verifier::rlimit(100)]
    fn primary(&mut self) -> (result: Result<Expr, ParserError>)
        requires
            old(self).wf(),
        ensures
            final(self).follows(
                *old(self),
                outcome(result),
                grammar::primary(old(self).stream(), old(self).position()),
            ),
            result is Ok ==> final(self).position() > old(self).position(),
        decreases self.ahead(), 17int,
    {
        proof {
            reveal(grammar::primary);
            reveal(grammar::named);
            reveal(grammar::grouping);
            reveal(grammar::list);
        }
        if self.match_token(TokenType::True) {
            return Ok(Expr::Literal { value: LiteralType::True });
        }
        if self.match_token(TokenType::False) {
            return Ok(Expr::Literal { value: LiteralType::False });
        }
        if self.match_token(TokenType::Null) {
            return Ok(Expr::Literal { value: LiteralType::Null });
        }
        if self.match_either(TokenType::Num, TokenType::String) {
            return literal(self.previous());
        }
        if self.match_token(TokenType::Identifier) {
            let name = self.previous().clone();
            return self.named(name);
        }
        if self.match_token(TokenType::LParen) {
            return self.grouping();
        }
        if self.match_token(TokenType::LBrack) {
            return self.list();
        }
        let prev = self.previous_lexeme();
        let line = self.peek().line;
        Err(ParserError::ExpectedExpression { prev, line })
    }

    /// What the name just taken stands for: an element or a slice of a list
    /// if a bracket follows, a variable otherwise.
    #[verifier::rlimit(100)]
    fn named(&mut self, name: Token) -> (result: Result<Expr, ParserError>)
        requires
            old(self).wf(),
        ensures
            final(self).follows(
                *old(self),
                outcome(result),
                grammar::named(old(self).stream(), old(self).position(), name@),
            ),
        decreases self.ahead(), 63int,
    {
        proof {
            reveal(grammar::named);
            reveal(grammar::index);
        }
        if self.match_token(TokenType::LBrack) {
            return self.index(name);
        }
        Ok(Expr::Var { name })
    }

    /// A parenthesised expression, from behind its opening parenthesis.
    #[verifier::rlimit(100)]
    fn grouping(&mut self) -> (result: Result<Expr, ParserError>)
        requires
            old(self).wf(),
        ensures
            final(self).follows(
                *old(self),
                outcome(result),
                grammar::grouping(old(self).stream(), old(self).position()),
            ),
        decreases self.ahead(), 63int,
    {
        proof {
            reveal(grammar::grouping);
            reveal(grammar::expression);
        }
        let expr = self.expression()?;
        self.consume(TokenType::RParen, Expectation::RParenAfterExpression)?;
        Ok(Expr::Grouping { expression: Box::new(expr) })
    }

    /// A list literal, from behind its opening bracket.
    #[verifier::rlimit(100)]
    fn list(&mut self) -> (result: Result<Expr, ParserError>)
        requires
            old(self).wf(),
        ensures
            final(self).follows(*old(self), outcome(result), grammar::list(old(self).stream(), old(self).position())),
        decreases self.ahead(), 63int,
    {
        proof {
            reveal(grammar::list);
            reveal(grammar::items);
        }
        if self.match_token(TokenType::RBrack) {
            let items: Vec<Expr> = Vec::new();
            assert(expr_views(items@) =~= Seq::empty());
            return Ok(Expr::List { items });
        }
        self.items()
    }

    /// What stands between the brackets behind the name of a list: one
    /// element's index, or the two ends of a slice.
    #[verifier::rlimit(100)]
    fn index(&mut self, list: Token) -> (result: Result<Expr, ParserError>)
        requires
            old(self).wf(),
        ensures
            final(self).follows(
                *old(self),
                outcome(result),
                grammar::index(old(self).stream(), old(self).position(), list@),
            ),
        decreases self.ahead(), 62int,
    {
        proof {
            reveal(grammar::index);
            reveal(grammar::index_end);
            reveal(grammar::expression);
        }
        let mut start: Option<Box<Expr>> = None;
        if self.peek().token_type != TokenType::Colon {
            start = Some(Box::new(self.expression()?));
        }
        self.index_end(list, start)
    }

    /// The part of an index behind its first expression: the end of a slice,
    /// if a colon follows, and the closing bracket.
    #[verifier::rlimit(100)]
    fn index_end(&mut self, list: Token, start: Option<Box<Expr>>) -> (result: Result<Expr, ParserError>)
        requires
            old(self).wf(),
        ensures
            final(self).follows(
                *old(self),
                outcome(result),
                grammar::index_end(
                    old(self).stream(),
                    old(self).position(),
                    list@,
                    match start {
                        Some(e) => Some(Box::new(e@)),
                        None => None,
                    },
                ),
            ),
        decreases self.ahead(), 61int,
    {
        proof {
            reveal(grammar::index_end);
            reveal(grammar::expression);
        }
        let mut end: Option<Box<Expr>> = None;
        let mut is_splice = false;
        if self.match_token(TokenType::Colon) {
            is_splice = true;
            if self.peek().token_type != TokenType::RBrack {
                end = Some(Box::new(self.expression()?));
            }
        }
        self.consume(TokenType::RBrack, Expectation::RBrackAfterIndex)?;
        Ok(Expr::Splice { list, is_splice, start, end })
    }

    /// The items of a list literal that is not empty, and its closing
    /// bracket. A comma may stand behind the last item.
    #[verifier::rlimit(100)]
    fn items(&mut self) -> (result: Result<Expr, ParserError>)
        requires
            old(self).wf(),
        ensures
            final(self).follows(
                *old(self),
                outcome(result),
                grammar::items(old(self).stream(), old(self).position(), Seq::empty()),
            ),
        decreases self.ahead(), 60int,
    {
        proof {
            reveal(grammar::items);
            reveal(grammar::expression);
        }
        let ghost start = *self;
        let ghost ts = self.stream();
        let mut items: Vec<Expr> = Vec::new();
        assert(expr_views(items@) =~= Seq::empty());
        loop
            invariant_except_break
                grammar::items(ts, start.position(), Seq::empty()) == grammar::items(
                    ts,
                    self.position(),
                    expr_views(items@),
                ).after((self.position() - start.position()) as nat),
            invariant
                self.moved(start, (self.position() - start.position()) as nat),
                start == *old(self),
                ts == self.stream(),
                start.position() <= self.position(),
            ensures
                grammar::items(ts, start.position(), Seq::empty()) == grammar::items_close(
                    ts,
                    self.position(),
                    expr_views(items@),
                ).after((self.position() - start.position()) as nat),
            decreases self.ahead(),
        {
            proof {
                reveal(grammar::items);
                reveal(grammar::expression);
            }
            if self.match_token(TokenType::RBrack) {
                return Ok(Expr::List { items });
            }
            let ghost sofar = expr_views(items@);
            let item = self.expression()?;
            items.push(item);
            assert(expr_views(items@) =~= sofar.push(item@));
            if !self.match_token(TokenType::Comma) {
                break ;
            }
        }
        self.consume(TokenType::RBrack, Expectation::RBrackAfterValues)?;
        Ok(Expr::List { items })
    }
}

/// The literal that a string or number token stands for.
fn literal(token: &Token) -> (result: Result<Expr, ParserError>)
    ensures
        outcome(result) == grammar::literal(token@).outcome,
{
    if token.token_type == TokenType::String {
        return Ok(Expr::Literal { value: LiteralType::Str(token.literal.clone()) });
    }
    match Number::parse(token.literal.as_str()) {
        Some(n) => Ok(Expr::Literal { value: LiteralType::Num(n) }),
        None => Err(ParserError::UnableToParseLiteralToFloat { value: token.lexeme.clone(), line: token.line }),
    }
}

} // verus!
