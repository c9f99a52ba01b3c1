//! The grammar, as functions from a token sequence and a position to the
//! tree that starts there.
//!
//! Every function answers with a [`Step`]: the tree or the error, and the
//! number of tokens it took. Counting the tokens taken, instead of naming the
//! position reached, is what makes the definitions well-founded: a count
//! cannot be negative, so what follows a sub-tree never starts before it.
//!
//! Precedence, lowest first: assignment, `or`, `and`, equality, comparison,
//! term, factor, unary, call, primary.

use vstd::prelude::*;
use crate::error::ParserErrorView;
use crate::expr::ExprView;
use crate::number::number_of_text;
use crate::stmt::StmtView;
use crate::token::{TokenType, TokenView};
use crate::value::LiteralView;

verus! {

/// The most parameters a function may declare, and the most arguments a call
/// may pass.
pub const MAX_ARITY: usize = 255;

/// What one grammar function found: its tree or its error, and how many
/// tokens it took on the way.
pub struct Step<T> {
    pub outcome: Result<T, ParserErrorView>,
    pub used: nat,
}

impl<T> Step<T> {
    /// The same finding, reached after `n` more tokens.
    pub open spec fn after(self, n: nat) -> Step<T> {
        Step { outcome: self.outcome, used: self.used + n }
    }
}

/// A tree, found with `used` tokens.
pub open spec fn done<T>(value: T, used: nat) -> Step<T> {
    Step { outcome: Ok(value), used }
}

/// An error, met after `used` tokens.
pub open spec fn failed<T>(error: ParserErrorView, used: nat) -> Step<T> {
    Step { outcome: Err(error), used }
}

/// What a missing token was needed for.
#[derive(Clone, Copy, Debug, PartialEq, Eq, Structural)]
pub enum Expectation {
    VariableName,
    SemicolonAfterVariableDeclaration,
    SemicolonAfterPrintValue,
    SemicolonAfterReturnValue,
    SemicolonAfterExpression,
    LParenAfterFor,
    SemiColonAfterForCondition,
    RParenAfterForClauses,
    LParenAfterIf,
    LParenAfterWhile,
    RParenAfterCondition,
    RBraceAfterBlock,
    RParenAfterArguments,
    RParenAfterExpression,
    FunctionName,
    LParenAfterFunctionName,
    ParameterName,
    RParenAfterParameters,
    LBraceBeforeFunctionBody,
    RBrackAfterValues,
    RBrackAfterIndex,
}

/// The binary levels of the grammar, loosest first.
#[derive(Clone, Copy, Debug, PartialEq, Eq, Structural)]
pub enum Level {
    Or,
    And,
    Equality,
    Comparison,
    Term,
    Factor,
}

// ---------------------------------------------------------------------------
// The token stream
// ---------------------------------------------------------------------------

/// A stream the parser can read: it is not empty and its last token is the
/// end marker.
pub open spec fn well_terminated(ts: Seq<TokenView>) -> bool {
    ts.len() > 0 && ts.last().token_type == TokenType::Eof
}

/// The number of tokens from `pos` to the end of the stream.
pub open spec fn left(ts: Seq<TokenView>, pos: nat) -> nat {
    if pos < ts.len() {
        (ts.len() - pos) as nat
    } else {
        0
    }
}

/// The kind of the token at `pos`; past the stream, the end marker.
pub open spec fn kind_at(ts: Seq<TokenView>, pos: nat) -> TokenType {
    if pos < ts.len() {
        ts[pos as int].token_type
    } else {
        TokenType::Eof
    }
}

/// The source line of the token at `pos`.
pub open spec fn line_at(ts: Seq<TokenView>, pos: nat) -> usize {
    if pos < ts.len() {
        ts[pos as int].line
    } else {
        0
    }
}

/// The text of the token at `pos`.
pub open spec fn lexeme_at(ts: Seq<TokenView>, pos: nat) -> Seq<char> {
    if pos < ts.len() {
        ts[pos as int].lexeme
    } else {
        Seq::empty()
    }
}

/// The text of the token before `pos`; at the start of the stream there is
/// none, and the text is empty.
pub open spec fn lexeme_before(ts: Seq<TokenView>, pos: nat) -> Seq<char> {
    if pos > 0 {
        lexeme_at(ts, (pos - 1) as nat)
    } else {
        Seq::empty()
    }
}

/// The source line of the token before `pos`; at the start of the stream, of
/// the first token.
pub open spec fn line_before(ts: Seq<TokenView>, pos: nat) -> usize {
    if pos > 0 {
        line_at(ts, (pos - 1) as nat)
    } else {
        line_at(ts, 0)
    }
}

/// Whether the parser at `pos` stands on the end marker.
pub open spec fn at_end(ts: Seq<TokenView>, pos: nat) -> bool {
    kind_at(ts, pos) == TokenType::Eof
}

/// Whether the token at `pos` is of `kind`. The end marker is never matched.
pub open spec fn check(ts: Seq<TokenView>, pos: nat, kind: TokenType) -> bool {
    !at_end(ts, pos) && kind_at(ts, pos) == kind
}

/// The error for a token that was needed at `pos` and is not there.
pub open spec fn missing(ts: Seq<TokenView>, pos: nat, what: Expectation) -> ParserErrorView {
    let line = line_at(ts, pos);
    let before = lexeme_before(ts, pos);
    let line_before = line_before(ts, pos);
    match what {
        Expectation::VariableName => ParserErrorView::ExpectedVariableName { lexeme: before, line: line_before },
        Expectation::SemicolonAfterVariableDeclaration => ParserErrorView::ExpectedSemicolonAfterVariableDeclaration {
            lexeme: before,
            line: line_before,
        },
        Expectation::SemicolonAfterPrintValue => ParserErrorView::ExpectedSemicolonAfterPrintValue {
            value: before,
            line: line_before,
        },
        Expectation::SemicolonAfterReturnValue => ParserErrorView::ExpectedSemicolonAfterReturnValue {
            value: before,
            line: line_before,
        },
        Expectation::SemicolonAfterExpression => ParserErrorView::ExpectedSemicolonAfterExpression {
            value: before,
            line: line_before,
        },
        Expectation::LParenAfterFor => ParserErrorView::ExpectedLParenAfterFor { line },
        Expectation::SemiColonAfterForCondition => ParserErrorView::ExpectedSemiColonAfterForCondition { line },
        Expectation::RParenAfterForClauses => ParserErrorView::ExpectedRParenAfterForClauses { line },
        Expectation::LParenAfterIf => ParserErrorView::ExpectedLParenAfterIf { line },
        Expectation::LParenAfterWhile => ParserErrorView::ExpectedLParenAfterWhile { line },
        Expectation::RParenAfterCondition => ParserErrorView::ExpectedRParenAfterCondition { line },
        Expectation::RBraceAfterBlock => ParserErrorView::ExpectedRBraceAfterBlock { line },
        Expectation::RParenAfterArguments => ParserErrorView::ExpectedRParenAfterArguments { line },
        Expectation::RParenAfterExpression => ParserErrorView::ExpectedRParenAfterExpression { line },
        Expectation::FunctionName => ParserErrorView::ExpectedFunctionName { line },
        Expectation::LParenAfterFunctionName => ParserErrorView::ExpectedLParenAfterFunctionName { line },
        Expectation::ParameterName => ParserErrorView::ExpectedParameterName { line },
        Expectation::RParenAfterParameters => ParserErrorView::ExpectedRParenAfterParameters { line },
        Expectation::LBraceBeforeFunctionBody => ParserErrorView::ExpectedLBraceBeforeFunctionBody { line },
        Expectation::RBrackAfterValues => ParserErrorView::ExpectedRBrackAfterValues { line },
        Expectation::RBrackAfterIndex => ParserErrorView::ExpectedRBrackAfterIndex { line },
    }
}

/// Takes the token at `pos` if it is of `kind`, and fails otherwise.
pub open spec fn consume(ts: Seq<TokenView>, pos: nat, kind: TokenType, what: Expectation) -> Step<TokenView> {
    if check(ts, pos, kind) {
        done(ts[pos as int], 1)
    } else {
        failed(missing(ts, pos, what), 0)
    }
}

// ---------------------------------------------------------------------------
// Expressions
// ---------------------------------------------------------------------------

/// Whether `kind` is an operator of `level`.
pub open spec fn is_operator(level: Level, kind: TokenType) -> bool {
    match level {
        Level::Or => kind == TokenType::Or,
        Level::And => kind == TokenType::And,
        Level::Equality => kind == TokenType::BangEqual || kind == TokenType::EqualEqual,
        Level::Comparison => kind == TokenType::Greater || kind == TokenType::GreaterEqual || kind
            == TokenType::Less || kind == TokenType::LessEqual,
        Level::Term => kind == TokenType::Minus || kind == TokenType::Plus,
        Level::Factor => kind == TokenType::FSlash || kind == TokenType::Asterisk,
    }
}

/// Whether the token at `pos` is an operator of `level`.
pub open spec fn operator_at(ts: Seq<TokenView>, pos: nat, level: Level) -> bool {
    !at_end(ts, pos) && is_operator(level, kind_at(ts, pos))
}

/// How tightly a level binds: the greater, the looser.
pub open spec fn looseness(level: Level) -> int {
    match level {
        Level::Factor => 10,
        Level::Term => 11,
        Level::Comparison => 12,
        Level::Equality => 13,
        Level::And => 14,
        Level::Or => 15,
    }
}

/// The node that joins two operands at `level`: a short-circuiting one for
/// `or` and `and`, an ordinary one for the others.
pub open spec fn join(level: Level, lhs: ExprView, operator: TokenView, rhs: ExprView) -> ExprView {
    match level {
        Level::Or | Level::And => ExprView::Logical { left: Box::new(lhs), operator, right: Box::new(rhs) },
        _ => ExprView::Binary { left: Box::new(lhs), operator, right: Box::new(rhs) },
    }
}

/// expression := assignment
#[verifier::opaque]
pub open spec fn expression(ts: Seq<TokenView>, pos: nat) -> Step<ExprView>
    decreases left(ts, pos), 33int,
{
    assignment(ts, pos)
}

/// assignment := or ( ("++" | "--") | "=" assignment )?
///
/// Both forms need a bare variable on their left. The error for another
/// target names the token with which the target starts.
#[verifier::opaque]
pub open spec fn assignment(ts: Seq<TokenView>, pos: nat) -> Step<ExprView>
    decreases left(ts, pos), 32int,
{
    let target = binary(ts, pos, Level::Or);
    match target.outcome {
        Err(e) => failed(e, target.used),
        Ok(expr) => {
            let p = pos + target.used;
            if check(ts, p, TokenType::Incr) || check(ts, p, TokenType::Decr) {
                match expr {
                    ExprView::Var { name } => done(
                        ExprView::Alteration { name, alteration_type: kind_at(ts, p) },
                        target.used + 1,
                    ),
                    _ => failed(
                        ParserErrorView::InvalidAlterationTarget { target: lexeme_at(ts, pos), line: line_at(ts, pos) },
                        target.used + 1,
                    ),
                }
            } else if check(ts, p, TokenType::Equal) {
                let rhs = assignment(ts, p + 1);
                let used = target.used + 1 + rhs.used;
                match rhs.outcome {
                    Err(e) => failed(e, used),
                    Ok(value) => match expr {
                        ExprView::Var { name } => done(ExprView::Assign { name, value: Box::new(value) }, used),
                        _ => failed(
                            ParserErrorView::InvalidAssignmentTarget {
                                target: lexeme_at(ts, pos),
                                line: line_at(ts, pos),
                            },
                            used,
                        ),
                    },
                }
            } else {
                done(expr, target.used)
            }
        },
    }
}

/// One binary level: an operand, then any number of `operator operand`
/// pairs, joined to the left.
#[verifier::opaque]
pub open spec fn binary(ts: Seq<TokenView>, pos: nat, level: Level) -> Step<ExprView>
    decreases left(ts, pos), 2 * looseness(level) + 1,
{
    let first = operand(ts, pos, level);
    match first.outcome {
        Err(e) => failed(e, first.used),
        Ok(expr) => binary_tail(ts, pos + first.used, level, expr).after(first.used),
    }
}

/// An operand of `level`: an expression of the next tighter level.
#[verifier::opaque]
pub open spec fn operand(ts: Seq<TokenView>, pos: nat, level: Level) -> Step<ExprView>
    decreases left(ts, pos), 2 * looseness(level),
{
    match level {
        Level::Or => binary(ts, pos, Level::And),
        Level::And => binary(ts, pos, Level::Equality),
        Level::Equality => binary(ts, pos, Level::Comparison),
        Level::Comparison => binary(ts, pos, Level::Term),
        Level::Term => binary(ts, pos, Level::Factor),
        Level::Factor => unary(ts, pos),
    }
}

/// The `operator operand` pairs of `level` that follow `lhs`.
#[verifier::opaque]
pub open spec fn binary_tail(ts: Seq<TokenView>, pos: nat, level: Level, lhs: ExprView) -> Step<ExprView>
    decreases left(ts, pos), 0int,
{
    if operator_at(ts, pos, level) {
        let rhs = operand(ts, pos + 1, level);
        match rhs.outcome {
            Err(e) => failed(e, 1 + rhs.used),
            Ok(expr) => binary_tail(ts, pos + 1 + rhs.used, level, join(level, lhs, ts[pos as int], expr)).after(
                1 + rhs.used,
            ),
        }
    } else {
        done(lhs, 0)
    }
}

/// unary := ("!" | "-") unary | call
#[verifier::opaque]
pub open spec fn unary(ts: Seq<TokenView>, pos: nat) -> Step<ExprView>
    decreases left(ts, pos), 19int,
{
    if check(ts, pos, TokenType::Bang) || check(ts, pos, TokenType::Minus) {
        let inner = unary(ts, pos + 1);
        match inner.outcome {
            Err(e) => failed(e, 1 + inner.used),
            Ok(right) => done(ExprView::Unary { operator: ts[pos as int], right: Box::new(right) }, 1 + inner.used),
        }
    } else {
        call(ts, pos)
    }
}

/// call := primary ( "(" arguments? ")" )* ( "." call )?
#[verifier::opaque]
pub open spec fn call(ts: Seq<TokenView>, pos: nat) -> Step<ExprView>
    decreases left(ts, pos), 18int,
{
    let head = primary(ts, pos);
    match head.outcome {
        Err(e) => failed(e, head.used),
        Ok(expr) => call_tail(ts, pos + head.used, pos, expr).after(head.used),
    }
}

/// What may follow a callee that starts at `start`: argument lists, and at
/// last a method call, which only a bare variable can receive. The error for
/// another receiver names the token with which the receiver starts.
#[verifier::opaque]
pub open spec fn call_tail(ts: Seq<TokenView>, pos: nat, start: nat, callee: ExprView) -> Step<ExprView>
    decreases left(ts, pos), 0int,
{
    if check(ts, pos, TokenType::LParen) {
        let applied = finish_call(ts, pos + 1, callee);
        match applied.outcome {
            Err(e) => failed(e, 1 + applied.used),
            Ok(expr) => call_tail(ts, pos + 1 + applied.used, start, expr).after(1 + applied.used),
        }
    } else if check(ts, pos, TokenType::Dot) {
        let method = call(ts, pos + 1);
        let used = 1 + method.used;
        match method.outcome {
            Err(e) => failed(e, used),
            Ok(inner) => match callee {
                ExprView::Var { name } => done(ExprView::ListMethodCall { object: name, call: Box::new(inner) }, used),
                _ => failed(
                    ParserErrorView::CanOnlyCallIdentifiers {
                        value: lexeme_at(ts, start),
                        line: line_at(ts, start),
                    },
                    used,
                ),
            },
        }
    } else {
        done(callee, 0)
    }
}

/// The rest of a call, from behind its opening parenthesis.
#[verifier::opaque]
pub open spec fn finish_call(ts: Seq<TokenView>, pos: nat, callee: ExprView) -> Step<ExprView>
    decreases left(ts, pos), 41int,
{
    let args = if check(ts, pos, TokenType::RParen) {
        done(Seq::empty(), 0)
    } else {
        arguments(ts, pos, callee, Seq::empty())
    };
    match args.outcome {
        Err(e) => failed(e, args.used),
        Ok(list) => match consume(ts, pos + args.used, TokenType::RParen, Expectation::RParenAfterArguments).outcome {
            Err(e) => failed(e, args.used),
            Ok(_) => done(ExprView::Call { callee: Box::new(callee), arguments: list }, args.used + 1),
        },
    }
}

/// arguments := expression ( "," expression )*, at most [`MAX_ARITY`] of them.
#[verifier::opaque]
pub open spec fn arguments(ts: Seq<TokenView>, pos: nat, callee: ExprView, sofar: Seq<ExprView>) -> Step<
    Seq<ExprView>,
>
    decreases left(ts, pos), 40int,
{
    if sofar.len() >= MAX_ARITY {
        failed(ParserErrorView::TooManyArguments { callee }, 0)
    } else {
        let arg = expression(ts, pos);
        match arg.outcome {
            Err(e) => failed(e, arg.used),
            Ok(expr) => if check(ts, pos + arg.used, TokenType::Comma) {
                arguments(ts, pos + arg.used + 1, callee, sofar.push(expr)).after(arg.used + 1)
            } else {
                done(sofar.push(expr), arg.used)
            },
        }
    }
}

/// primary := "true" | "false" | "null" | number | string
///          | name ( "[" index "]" )? | "(" expression ")" | "[" items "]"
#[verifier::opaque]
pub open spec fn primary(ts: Seq<TokenView>, pos: nat) -> Step<ExprView>
    decreases left(ts, pos), 17int,
{
    if check(ts, pos, TokenType::True) {
        done(ExprView::Literal { value: LiteralView::True }, 1)
    } else if check(ts, pos, TokenType::False) {
        done(ExprView::Literal { value: LiteralView::False }, 1)
    } else if check(ts, pos, TokenType::Null) {
        done(ExprView::Literal { value: LiteralView::Null }, 1)
    } else if check(ts, pos, TokenType::Num) || check(ts, pos, TokenType::String) {
        literal(ts[pos as int])
    } else if check(ts, pos, TokenType::Identifier) {
        named(ts, pos + 1, ts[pos as int]).after(1)
    } else if check(ts, pos, TokenType::LParen) {
        grouping(ts, pos + 1).after(1)
    } else if check(ts, pos, TokenType::LBrack) {
        list(ts, pos + 1).after(1)
    } else {
        failed(ParserErrorView::ExpectedExpression { prev: lexeme_before(ts, pos), line: line_at(ts, pos) }, 0)
    }
}

/// The literal that a string or number token stands for. A number whose
/// text cannot be read is an error.
pub open spec fn literal(token: TokenView) -> Step<ExprView> {
    if token.token_type == TokenType::String {
        done(ExprView::Literal { value: LiteralView::Str(token.literal) }, 1)
    } else {
        match number_of_text(token.literal) {
            Some(n) => done(ExprView::Literal { value: LiteralView::Num(n) }, 1),
            None => failed(
                ParserErrorView::UnableToParseLiteralToFloat { value: token.lexeme, line: token.line },
                1,
            ),
        }
    }
}

/// What a name stands for, from behind it: an element or a slice of a list
/// if a bracket follows, a variable otherwise.
#[verifier::opaque]
pub open spec fn named(ts: Seq<TokenView>, pos: nat, name: TokenView) -> Step<ExprView>
    decreases left(ts, pos), 43int,
{
    if check(ts, pos, TokenType::LBrack) {
        index(ts, pos + 1, name).after(1)
    } else {
        done(ExprView::Var { name }, 0)
    }
}

/// grouping := expression ")", from behind `(`.
#[verifier::opaque]
pub open spec fn grouping(ts: Seq<TokenView>, pos: nat) -> Step<ExprView>
    decreases left(ts, pos), 43int,
{
    let inner = expression(ts, pos);
    match inner.outcome {
        Err(e) => failed(e, inner.used),
        Ok(expr) => match consume(
            ts,
            pos + inner.used,
            TokenType::RParen,
            Expectation::RParenAfterExpression,
        ).outcome {
            Err(e) => failed(e, inner.used),
            Ok(_) => done(ExprView::Grouping { expression: Box::new(expr) }, 1 + inner.used),
        },
    }
}

/// list := "]" | items, from behind `[`.
#[verifier::opaque]
pub open spec fn list(ts: Seq<TokenView>, pos: nat) -> Step<ExprView>
    decreases left(ts, pos), 43int,
{
    if check(ts, pos, TokenType::RBrack) {
        done(ExprView::List { items: Seq::empty() }, 1)
    } else {
        items(ts, pos, Seq::empty())
    }
}

/// index := expression? ( ":" expression? )?, from behind `name [`.
#[verifier::opaque]
pub open spec fn index(ts: Seq<TokenView>, pos: nat, list: TokenView) -> Step<ExprView>
    decreases left(ts, pos), 42int,
{
    if kind_at(ts, pos) != TokenType::Colon {
        let first = expression(ts, pos);
        match first.outcome {
            Err(e) => failed(e, first.used),
            Ok(expr) => index_end(ts, pos + first.used, list, Some(Box::new(expr))).after(first.used),
        }
    } else {
        index_end(ts, pos, list, None)
    }
}

/// The part of an index behind its first expression.
#[verifier::opaque]
pub open spec fn index_end(ts: Seq<TokenView>, pos: nat, list: TokenView, start: Option<Box<ExprView>>) -> Step<
    ExprView,
>
    decreases left(ts, pos), 41int,
{
    if check(ts, pos, TokenType::Colon) {
        if kind_at(ts, pos + 1) != TokenType::RBrack {
            let last = expression(ts, pos + 1);
            match last.outcome {
                Err(e) => failed(e, 1 + last.used),
                Ok(expr) => index_close(ts, pos + 1 + last.used, list, true, start, Some(Box::new(expr))).after(
                    1 + last.used,
                ),
            }
        } else {
            index_close(ts, pos + 1, list, true, start, None).after(1)
        }
    } else {
        index_close(ts, pos, list, false, start, None)
    }
}

/// The closing bracket of an index.
pub open spec fn index_close(
    ts: Seq<TokenView>,
    pos: nat,
    list: TokenView,
    is_splice: bool,
    start: Option<Box<ExprView>>,
    end: Option<Box<ExprView>>,
) -> Step<ExprView> {
    match consume(ts, pos, TokenType::RBrack, Expectation::RBrackAfterIndex).outcome {
        Err(e) => failed(e, 0),
        Ok(_) => done(ExprView::Splice { list, is_splice, start, end }, 1),
    }
}

/// items := expression ( "," expression )* ","? "]", from behind `[`.
///
/// A closing bracket met where an item could start closes the list: a comma
/// may stand behind the last item.
#[verifier::opaque]
pub open spec fn items(ts: Seq<TokenView>, pos: nat, sofar: Seq<ExprView>) -> Step<ExprView>
    decreases left(ts, pos), 40int,
{
    if check(ts, pos, TokenType::RBrack) {
        done(ExprView::List { items: sofar }, 1)
    } else {
        let item = expression(ts, pos);
        match item.outcome {
            Err(e) => failed(e, item.used),
            Ok(expr) => if check(ts, pos + item.used, TokenType::Comma) {
                items(ts, pos + item.used + 1, sofar.push(expr)).after(item.used + 1)
            } else {
                items_close(ts, pos + item.used, sofar.push(expr)).after(item.used)
            },
        }
    }
}

/// The closing bracket of a list, behind an item that no comma follows.
pub open spec fn items_close(ts: Seq<TokenView>, pos: nat, items: Seq<ExprView>) -> Step<ExprView> {
    match consume(ts, pos, TokenType::RBrack, Expectation::RBrackAfterValues).outcome {
        Err(e) => failed(e, 0),
        Ok(_) => done(ExprView::List { items }, 1),
    }
}

// ---------------------------------------------------------------------------
// Statements
// ---------------------------------------------------------------------------

/// Whether a token of `kind` starts a declaration or a statement.
pub open spec fn starts_statement(kind: TokenType) -> bool {
    kind == TokenType::Class || kind == TokenType::Def || kind == TokenType::Var || kind == TokenType::For || kind
        == TokenType::If || kind == TokenType::While || kind == TokenType::Print || kind == TokenType::Return
}

/// The tokens that recovery skips from `pos` on: up to the end marker, to
/// behind a semicolon, or to a token that starts a statement.
#[verifier::opaque]
pub open spec fn skipped(ts: Seq<TokenView>, pos: nat) -> nat
    decreases left(ts, pos),
{
    if at_end(ts, pos) {
        0
    } else if pos > 0 && kind_at(ts, (pos - 1) as nat) == TokenType::Semicolon {
        0
    } else if starts_statement(kind_at(ts, pos)) {
        0
    } else {
        1 + skipped(ts, pos + 1)
    }
}

/// The tokens that recovery drops at `pos`: the one at `pos`, and those
/// skipped behind it.
pub open spec fn synchronized(ts: Seq<TokenView>, pos: nat) -> nat {
    if at_end(ts, pos) {
        0
    } else {
        1 + skipped(ts, pos + 1)
    }
}

/// A declaration's finding, with recovery behind its error if it has one.
pub open spec fn recovered(ts: Seq<TokenView>, pos: nat, step: Step<StmtView>) -> Step<StmtView> {
    match step.outcome {
        Ok(_) => step,
        Err(_) => step.after(synchronized(ts, pos + step.used)),
    }
}

/// program := declaration* end
///
/// The first error ends the program. A declaration that is read takes at
/// least one token (`recovery::declaration_takes_tokens`); that the
/// definition asks for it makes it well-founded.
#[verifier::opaque]
pub open spec fn program(ts: Seq<TokenView>, pos: nat, sofar: Seq<StmtView>) -> Step<Seq<StmtView>>
    decreases left(ts, pos), 54int,
{
    if at_end(ts, pos) {
        done(sofar, 0)
    } else {
        let first = declaration(ts, pos);
        match first.outcome {
            Err(e) => failed(e, first.used),
            Ok(stmt) => if first.used > 0 {
                program(ts, pos + first.used, sofar.push(stmt)).after(first.used)
            } else {
                done(sofar.push(stmt), 0)
            },
        }
    }
}

/// declaration := "def" function | "var" variable | statement
#[verifier::opaque]
pub open spec fn declaration(ts: Seq<TokenView>, pos: nat) -> Step<StmtView>
    decreases left(ts, pos), 51int,
{
    if check(ts, pos, TokenType::Def) {
        recovered(ts, pos + 1, function(ts, pos + 1)).after(1)
    } else if check(ts, pos, TokenType::Var) {
        recovered(ts, pos + 1, var_declaration(ts, pos + 1)).after(1)
    } else {
        statement(ts, pos)
    }
}

/// function := name "(" parameters? ")" "{" block
#[verifier::opaque]
pub open spec fn function(ts: Seq<TokenView>, pos: nat) -> Step<StmtView>
    decreases left(ts, pos), 53int,
{
    match consume(ts, pos, TokenType::Identifier, Expectation::FunctionName).outcome {
        Err(e) => failed(e, 0),
        Ok(name) => match consume(ts, pos + 1, TokenType::LParen, Expectation::LParenAfterFunctionName).outcome {
            Err(e) => failed(e, 1),
            Ok(_) => {
                let params = if check(ts, pos + 2, TokenType::RParen) {
                    done(Seq::empty(), 0)
                } else {
                    parameters(ts, pos + 2, name, Seq::empty())
                };
                let used = 2 + params.used;
                match params.outcome {
                    Err(e) => failed(e, used),
                    Ok(names) => match consume(
                        ts,
                        pos + used,
                        TokenType::RParen,
                        Expectation::RParenAfterParameters,
                    ).outcome {
                        Err(e) => failed(e, used),
                        Ok(_) => match consume(
                            ts,
                            pos + used + 1,
                            TokenType::LBrace,
                            Expectation::LBraceBeforeFunctionBody,
                        ).outcome {
                            Err(e) => failed(e, used + 1),
                            Ok(_) => {
                                let body = block(ts, pos + used + 2, Seq::empty());
                                match body.outcome {
                                    Err(e) => failed(e, used + 2 + body.used),
                                    Ok(stmts) => done(
                                        StmtView::Function { name, params: names, body: stmts },
                                        used + 2 + body.used,
                                    ),
                                }
                            },
                        },
                    },
                }
            },
        },
    }
}

/// parameters := name ( "," name )*, at most [`MAX_ARITY`] of them.
#[verifier::opaque]
pub open spec fn parameters(ts: Seq<TokenView>, pos: nat, owner: TokenView, sofar: Seq<TokenView>) -> Step<
    Seq<TokenView>,
>
    decreases left(ts, pos),
{
    if sofar.len() >= MAX_ARITY {
        failed(ParserErrorView::TooManyParameters { name: owner.lexeme, line: line_at(ts, pos) }, 0)
    } else {
        match consume(ts, pos, TokenType::Identifier, Expectation::ParameterName).outcome {
            Err(e) => failed(e, 0),
            Ok(name) => if check(ts, pos + 1, TokenType::Comma) {
                parameters(ts, pos + 2, owner, sofar.push(name)).after(2)
            } else {
                done(sofar.push(name), 1)
            },
        }
    }
}

/// variable := name ( "=" expression )? ";"
#[verifier::opaque]
pub open spec fn var_declaration(ts: Seq<TokenView>, pos: nat) -> Step<StmtView>
    decreases left(ts, pos), 53int,
{
    match consume(ts, pos, TokenType::Identifier, Expectation::VariableName).outcome {
        Err(e) => failed(e, 0),
        Ok(name) => {
            let init = if check(ts, pos + 1, TokenType::Equal) {
                optional(expression(ts, pos + 2)).after(1)
            } else {
                done(None, 0)
            };
            let used = 1 + init.used;
            match init.outcome {
                Err(e) => failed(e, used),
                Ok(initializer) => match consume(
                    ts,
                    pos + used,
                    TokenType::Semicolon,
                    Expectation::SemicolonAfterVariableDeclaration,
                ).outcome {
                    Err(e) => failed(e, used),
                    Ok(_) => done(StmtView::Var { name, initializer }, used + 1),
                },
            }
        },
    }
}

/// A finding that is there, as one that may be absent.
pub open spec fn optional<T>(step: Step<T>) -> Step<Option<T>> {
    match step.outcome {
        Ok(value) => done(Some(value), step.used),
        Err(e) => failed(e, step.used),
    }
}

/// statement := "for" for | "if" if | "print" print | "return" return
///            | "while" while | "{" block | expression ";"
#[verifier::opaque]
pub open spec fn statement(ts: Seq<TokenView>, pos: nat) -> Step<StmtView>
    decreases left(ts, pos), 50int,
{
    if check(ts, pos, TokenType::For) {
        for_statement(ts, pos + 1).after(1)
    } else if check(ts, pos, TokenType::If) {
        if_statement(ts, pos + 1).after(1)
    } else if check(ts, pos, TokenType::Print) {
        print_statement(ts, pos + 1).after(1)
    } else if check(ts, pos, TokenType::Return) {
        return_statement(ts, pos + 1, ts[pos as int]).after(1)
    } else if check(ts, pos, TokenType::While) {
        while_statement(ts, pos + 1).after(1)
    } else if check(ts, pos, TokenType::LBrace) {
        let body = block(ts, pos + 1, Seq::empty());
        match body.outcome {
            Err(e) => failed(e, 1 + body.used),
            Ok(statements) => done(StmtView::Block { statements }, 1 + body.used),
        }
    } else {
        expression_statement(ts, pos)
    }
}

/// for := "(" ( ";" | "var" variable | expression ";" ) expression? ";"
///        expression? ")" statement
///
/// A condition left out is the literal `true`.
#[verifier::opaque]
pub open spec fn for_statement(ts: Seq<TokenView>, pos: nat) -> Step<StmtView>
    decreases left(ts, pos), 53int,
{
    match consume(ts, pos, TokenType::LParen, Expectation::LParenAfterFor).outcome {
        Err(e) => failed(e, 0),
        Ok(_) => {
            let init = if check(ts, pos + 1, TokenType::Semicolon) {
                done(None, 1)
            } else if check(ts, pos + 1, TokenType::Var) {
                boxed(var_declaration(ts, pos + 2)).after(1)
            } else {
                boxed(expression_statement(ts, pos + 1))
            };
            let at_condition = 1 + init.used;
            match init.outcome {
                Err(e) => failed(e, at_condition),
                Ok(initializer) => {
                    let cond = if !check(ts, pos + at_condition, TokenType::Semicolon) {
                        expression(ts, pos + at_condition)
                    } else {
                        done(ExprView::Literal { value: LiteralView::True }, 0)
                    };
                    let at_semicolon = at_condition + cond.used;
                    match cond.outcome {
                        Err(e) => failed(e, at_semicolon),
                        Ok(condition) => match consume(
                            ts,
                            pos + at_semicolon,
                            TokenType::Semicolon,
                            Expectation::SemiColonAfterForCondition,
                        ).outcome {
                            Err(e) => failed(e, at_semicolon),
                            Ok(_) => for_clauses_end(ts, pos + at_semicolon + 1, initializer, condition).after(
                                at_semicolon + 1,
                            ),
                        },
                    }
                },
            }
        },
    }
}

/// The part of a `for` behind the semicolon of its condition.
#[verifier::opaque]
pub open spec fn for_clauses_end(
    ts: Seq<TokenView>,
    pos: nat,
    initializer: Option<Box<StmtView>>,
    condition: ExprView,
) -> Step<StmtView>
    decreases left(ts, pos), 52int,
{
    let incr = if !check(ts, pos, TokenType::RParen) {
        optional(expression(ts, pos))
    } else {
        done(None, 0)
    };
    match incr.outcome {
        Err(e) => failed(e, incr.used),
        Ok(increment) => match consume(
            ts,
            pos + incr.used,
            TokenType::RParen,
            Expectation::RParenAfterForClauses,
        ).outcome {
            Err(e) => failed(e, incr.used),
            Ok(_) => {
                let body = statement(ts, pos + incr.used + 1);
                match body.outcome {
                    Err(e) => failed(e, incr.used + 1 + body.used),
                    Ok(stmt) => done(
                        StmtView::For { initializer, condition, increment, body: Box::new(stmt) },
                        incr.used + 1 + body.used,
                    ),
                }
            },
        },
    }
}

/// A statement that is there, as a boxed one that may be absent.
pub open spec fn boxed(step: Step<StmtView>) -> Step<Option<Box<StmtView>>> {
    match step.outcome {
        Ok(stmt) => done(Some(Box::new(stmt)), step.used),
        Err(e) => failed(e, step.used),
    }
}

/// if := "(" expression ")" statement ( "else" statement )?
#[verifier::opaque]
pub open spec fn if_statement(ts: Seq<TokenView>, pos: nat) -> Step<StmtView>
    decreases left(ts, pos), 53int,
{
    match consume(ts, pos, TokenType::LParen, Expectation::LParenAfterIf).outcome {
        Err(e) => failed(e, 0),
        Ok(_) => {
            let cond = expression(ts, pos + 1);
            let at_close = 1 + cond.used;
            match cond.outcome {
                Err(e) => failed(e, at_close),
                Ok(condition) => match consume(
                    ts,
                    pos + at_close,
                    TokenType::RParen,
                    Expectation::RParenAfterCondition,
                ).outcome {
                    Err(e) => failed(e, at_close),
                    Ok(_) => {
                        let then = statement(ts, pos + at_close + 1);
                        let at_else = at_close + 1 + then.used;
                        match then.outcome {
                            Err(e) => failed(e, at_else),
                            Ok(then_branch) => if check(ts, pos + at_else, TokenType::Else) {
                                let other = statement(ts, pos + at_else + 1);
                                match other.outcome {
                                    Err(e) => failed(e, at_else + 1 + other.used),
                                    Ok(else_branch) => done(
                                        StmtView::If {
                                            condition,
                                            then_branch: Box::new(then_branch),
                                            else_branch: Some(Box::new(else_branch)),
                                        },
                                        at_else + 1 + other.used,
                                    ),
                                }
                            } else {
                                done(
                                    StmtView::If { condition, then_branch: Box::new(then_branch), else_branch: None },
                                    at_else,
                                )
                            },
                        }
                    },
                },
            }
        },
    }
}

/// print := expression ";"
#[verifier::opaque]
pub open spec fn print_statement(ts: Seq<TokenView>, pos: nat) -> Step<StmtView>
    decreases left(ts, pos), 53int,
{
    let value = expression(ts, pos);
    match value.outcome {
        Err(e) => failed(e, value.used),
        Ok(expression) => match consume(
            ts,
            pos + value.used,
            TokenType::Semicolon,
            Expectation::SemicolonAfterPrintValue,
        ).outcome {
            Err(e) => failed(e, value.used),
            Ok(_) => done(StmtView::Print { expression }, value.used + 1),
        },
    }
}

/// return := expression? ";"
#[verifier::opaque]
pub open spec fn return_statement(ts: Seq<TokenView>, pos: nat, keyword: TokenView) -> Step<StmtView>
    decreases left(ts, pos), 53int,
{
    let result = if !check(ts, pos, TokenType::Semicolon) {
        optional(expression(ts, pos))
    } else {
        done(None, 0)
    };
    match result.outcome {
        Err(e) => failed(e, result.used),
        Ok(value) => match consume(
            ts,
            pos + result.used,
            TokenType::Semicolon,
            Expectation::SemicolonAfterReturnValue,
        ).outcome {
            Err(e) => failed(e, result.used),
            Ok(_) => done(StmtView::Return { keyword, value }, result.used + 1),
        },
    }
}

/// while := "(" expression ")" statement
#[verifier::opaque]
pub open spec fn while_statement(ts: Seq<TokenView>, pos: nat) -> Step<StmtView>
    decreases left(ts, pos), 53int,
{
    match consume(ts, pos, TokenType::LParen, Expectation::LParenAfterWhile).outcome {
        Err(e) => failed(e, 0),
        Ok(_) => {
            let cond = expression(ts, pos + 1);
            let at_close = 1 + cond.used;
            match cond.outcome {
                Err(e) => failed(e, at_close),
                Ok(condition) => match consume(
                    ts,
                    pos + at_close,
                    TokenType::RParen,
                    Expectation::RParenAfterCondition,
                ).outcome {
                    Err(e) => failed(e, at_close),
                    Ok(_) => {
                        let body = statement(ts, pos + at_close + 1);
                        match body.outcome {
                            Err(e) => failed(e, at_close + 1 + body.used),
                            Ok(stmt) => done(
                                StmtView::While { condition, body: Box::new(stmt) },
                                at_close + 1 + body.used,
                            ),
                        }
                    },
                },
            }
        },
    }
}

/// block := declaration* "}", from behind `{`.
///
/// As in [`program`], a declaration that is read takes at least one token.
#[verifier::opaque]
pub open spec fn block(ts: Seq<TokenView>, pos: nat, sofar: Seq<StmtView>) -> Step<Seq<StmtView>>
    decreases left(ts, pos), 52int,
{
    if !check(ts, pos, TokenType::RBrace) && !at_end(ts, pos) {
        let first = declaration(ts, pos);
        match first.outcome {
            Err(e) => failed(e, first.used),
            Ok(stmt) => if first.used > 0 {
                block(ts, pos + first.used, sofar.push(stmt)).after(first.used)
            } else {
                done(sofar.push(stmt), 0)
            },
        }
    } else {
        match consume(ts, pos, TokenType::RBrace, Expectation::RBraceAfterBlock).outcome {
            Err(e) => failed(e, 0),
            Ok(_) => done(sofar, 1),
        }
    }
}

/// An expression used as a statement: expression ";"
#[verifier::opaque]
pub open spec fn expression_statement(ts: Seq<TokenView>, pos: nat) -> Step<StmtView>
    decreases left(ts, pos), 34int,
{
    let value = expression(ts, pos);
    match value.outcome {
        Err(e) => failed(e, value.used),
        Ok(expression) => match consume(
            ts,
            pos + value.used,
            TokenType::Semicolon,
            Expectation::SemicolonAfterExpression,
        ).outcome {
            Err(e) => failed(e, value.used),
            Ok(_) => done(StmtView::Expression { expression }, value.used + 1),
        },
    }
}

} // verus!
