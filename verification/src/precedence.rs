//! Precedence: the parser reads arithmetic as it is written.
//!
//! An [`Arith`] is an arithmetic expression as a writer means it: a tree of
//! numbers, of groups in parentheses and of operations with `+ - * /`. The
//! writer puts parentheses where precedence asks for them: around a sum that
//! is an operand of a product, and around the right operand of an operator
//! if it is an operation of the same rank. The theorem of this module says
//! that the parser gives back the tree that was meant, from the tokens that
//! were written: products bind tighter than sums, and operators of one rank
//! associate to the left.

use vstd::prelude::*;
use crate::expr::ExprView;
use crate::grammar::{
    assignment, binary, binary_tail, call, call_tail, check, done, expression, finish_call, grouping, index,
    index_end, is_operator, items, join, kind_at, left, list, looseness, named, operand, operator_at, primary,
    unary, Level,
};
use crate::number::{number_of_text, Comparison, Number};
use crate::semantics::{evaluate, value, Machine};
use crate::token::{TokenType, TokenView};
use crate::value::{number, LiteralView};

verus! {

/// An arithmetic expression, with the tokens it is written with.
pub enum Arith {
    /// A number literal.
    Number(TokenView),
    /// An expression between an opening and a closing parenthesis.
    Group(TokenView, Box<Arith>, TokenView),
    /// Two operands with an operator between them.
    Operation(Box<Arith>, TokenView, Box<Arith>),
}

/// How loosely a written expression binds: an atom stands for itself, a
/// product may be the operand of a sum, a sum needs parentheses to be an
/// operand of anything.
pub enum Rank {
    Atom,
    Product,
    Sum,
}

/// Whether a token kind is `+` or `-`.
pub open spec fn is_sum_sign(kind: TokenType) -> bool {
    kind == TokenType::Plus || kind == TokenType::Minus
}

/// Whether a token kind is `*` or `/`.
pub open spec fn is_product_sign(kind: TokenType) -> bool {
    kind == TokenType::Asterisk || kind == TokenType::FSlash
}

/// The tokens of an expression, in the order in which they are written.
pub open spec fn written(a: Arith) -> Seq<TokenView>
    decreases a,
{
    match a {
        Arith::Number(t) => seq![t],
        Arith::Group(open, inner, close) => seq![open] + written(*inner) + seq![close],
        Arith::Operation(lhs, operator, rhs) => written(*lhs) + seq![operator] + written(*rhs),
    }
}

/// The tree that an expression means.
pub open spec fn meant(a: Arith) -> ExprView
    decreases a,
{
    match a {
        Arith::Number(t) => ExprView::Literal { value: LiteralView::Num(number_of_text(t.literal).unwrap()) },
        Arith::Group(open, inner, close) => ExprView::Grouping { expression: Box::new(meant(*inner)) },
        Arith::Operation(lhs, operator, rhs) => ExprView::Binary {
            left: Box::new(meant(*lhs)),
            operator,
            right: Box::new(meant(*rhs)),
        },
    }
}

/// Whether an expression is written as precedence asks, where an
/// expression of the given rank can stand: its tokens are of the right
/// kinds, the left operand of an operator binds no looser than the operator,
/// and the right operand binds tighter.
pub open spec fn well_written(a: Arith, rank: Rank) -> bool
    decreases a,
{
    match a {
        Arith::Number(t) => t.token_type == TokenType::Num && number_of_text(t.literal) is Some,
        Arith::Group(open, inner, close) => open.token_type == TokenType::LParen && close.token_type
            == TokenType::RParen && well_written(*inner, Rank::Sum),
        Arith::Operation(lhs, operator, rhs) => if is_sum_sign(operator.token_type) {
            rank is Sum && well_written(*lhs, Rank::Sum) && well_written(*rhs, Rank::Product)
        } else if is_product_sign(operator.token_type) {
            !(rank is Atom) && well_written(*lhs, Rank::Product) && well_written(*rhs, Rank::Atom)
        } else {
            false
        },
    }
}

/// Whether the tokens of `a` stand in `ts` from `pos` on, with a token
/// behind them.
pub open spec fn stands_at(a: Arith, ts: Seq<TokenView>, pos: nat) -> bool {
    &&& pos + written(a).len() < ts.len()
    &&& forall|i: int| 0 <= i < written(a).len() ==> ts[pos as int + i] == #[trigger] written(a)[i]
}

/// Whether a token of this kind ends an expression: none of the tokens
/// that can follow an operand inside one.
pub open spec fn ends_expression(kind: TokenType) -> bool {
    kind == TokenType::Semicolon || kind == TokenType::RParen || kind == TokenType::Comma || kind
        == TokenType::RBrack || kind == TokenType::RBrace || kind == TokenType::Colon || kind == TokenType::Eof
}

/// Whether a token of this kind can follow a product: a token that ends an
/// expression, or the sign of a sum.
pub open spec fn ends_product(kind: TokenType) -> bool {
    ends_expression(kind) || is_sum_sign(kind)
}

/// Whether a token of this kind can follow an atom.
pub open spec fn ends_atom(kind: TokenType) -> bool {
    ends_product(kind) || is_product_sign(kind)
}

/// An expression has at least one token, and where it is well written its
/// first token is a number or an opening parenthesis.
pub proof fn starts_with_atom(a: Arith, rank: Rank)
    requires
        well_written(a, rank),
    ensures
        written(a).len() > 0,
        written(a)[0].token_type == TokenType::Num || written(a)[0].token_type == TokenType::LParen,
    decreases a,
{
    match a {
        Arith::Number(t) => {},
        Arith::Group(open, inner, close) => {},
        Arith::Operation(lhs, operator, rhs) => {
            if is_sum_sign(operator.token_type) {
                starts_with_atom(*lhs, Rank::Sum);
            } else {
                starts_with_atom(*lhs, Rank::Product);
            }
        },
    }
}

/// The parser reads a number as it is meant.
proof fn number_is_read(t: TokenView, ts: Seq<TokenView>, pos: nat)
    requires
        well_written(Arith::Number(t), Rank::Atom),
        stands_at(Arith::Number(t), ts, pos),
    ensures
        primary(ts, pos) == done(meant(Arith::Number(t)), 1),
{
    reveal(primary);
    let a = Arith::Number(t);
    assert(ts[pos as int + 0] == written(a)[0]);
    assert(kind_at(ts, pos) == TokenType::Num);
}

/// The parser reads a group as it is meant.
#[verifier::rlimit(100)]
proof fn group_is_read(open: TokenView, inner: Arith, close: TokenView, ts: Seq<TokenView>, pos: nat)
    requires
        well_written(Arith::Group(open, Box::new(inner), close), Rank::Atom),
        stands_at(Arith::Group(open, Box::new(inner), close), ts, pos),
    ensures
        primary(ts, pos) == done(
            meant(Arith::Group(open, Box::new(inner), close)),
            written(Arith::Group(open, Box::new(inner), close)).len(),
        ),
    decreases inner, 5nat,
{
    let a = Arith::Group(open, Box::new(inner), close);
    let p = pos as int;
    let m = written(inner).len() as int;
    assert(written(a)[0] == open);
    assert(ts[p + 0] == written(a)[0]);
    assert(kind_at(ts, pos) == TokenType::LParen);
    assert(written(a)[m + 1] == close);
    assert(ts[p + (m + 1)] == written(a)[m + 1]);
    assert forall|i: int| 0 <= i < m implies ts[(p + 1) + i] == #[trigger] written(inner)[i] by {
        assert(written(a)[i + 1] == written(inner)[i]);
        assert(ts[p + (i + 1)] == written(a)[i + 1]);
    }
    assert(kind_at(ts, (pos + 1 + m) as nat) == TokenType::RParen);
    sum_is_read(inner, ts, pos + 1);
    assert(grouping(ts, pos + 1) == done(meant(a), (1 + m) as nat)) by {
        reveal(grouping);
        reveal(expression);
    }
    assert(primary(ts, pos) == done(meant(a), (2 + m) as nat)) by {
        reveal(primary);
        reveal(grouping);
    }
}

/// What the parser reads as a primary expression, with a token behind it
/// that can follow an atom, it reads as a unary expression too.
proof fn primary_is_unary(e: ExprView, n: nat, first: TokenType, ts: Seq<TokenView>, pos: nat)
    requires
        primary(ts, pos) == done(e, n),
        kind_at(ts, pos) == first,
        first == TokenType::Num || first == TokenType::LParen,
        ends_atom(kind_at(ts, pos + n)),
    ensures
        unary(ts, pos) == done(e, n),
{
    reveal(unary);
    reveal(call);
    reveal(call_tail);
    reveal(primary);
    assert(call_tail(ts, pos + n, pos, e) == done(e, 0));
    assert(call(ts, pos) == done(e, n));
}

/// The parser reads an atom as it is meant.
proof fn atom_is_read(a: Arith, ts: Seq<TokenView>, pos: nat)
    requires
        well_written(a, Rank::Atom),
        stands_at(a, ts, pos),
        ends_atom(kind_at(ts, pos + written(a).len())),
    ensures
        unary(ts, pos) == done(meant(a), written(a).len()),
    decreases a, 0nat,
{
    starts_with_atom(a, Rank::Atom);
    assert(ts[pos as int + 0] == written(a)[0]);
    match a {
        Arith::Number(t) => {
            number_is_read(t, ts, pos);
        },
        Arith::Group(open, inner, close) => {
            group_is_read(open, *inner, close, ts, pos);
        },
        Arith::Operation(lhs, operator, rhs) => {},
    }
    primary_is_unary(meant(a), written(a).len(), kind_at(ts, pos), ts, pos);
}

/// The parser at the level of products has read a product when it has gone
/// through its tokens: the tree that was meant is its left operand for what
/// follows.
#[verifier::rlimit(100)]
proof fn product_is_gathered(a: Arith, ts: Seq<TokenView>, pos: nat)
    requires
        well_written(a, Rank::Product),
        stands_at(a, ts, pos),
        ends_atom(kind_at(ts, pos + written(a).len())),
    ensures
        binary(ts, pos, Level::Factor) == binary_tail(ts, pos + written(a).len(), Level::Factor, meant(a)).after(
            written(a).len(),
        ),
    decreases a, 1nat,
{
    reveal(binary);
    reveal(binary_tail);
    reveal(operand);
    reveal(unary);
    let n = written(a).len();
    match a {
        Arith::Operation(lhs, operator, rhs) => {
            let p = pos as int;
            let l = written(*lhs).len() as int;
            let r = written(*rhs).len() as int;
            assert(written(a)[l] == operator);
            assert(ts[p + l] == written(a)[l]);
            assert forall|i: int| 0 <= i < l implies ts[p + i] == #[trigger] written(*lhs)[i] by {
                assert(written(a)[i] == written(*lhs)[i]);
            }
            assert forall|i: int| 0 <= i < r implies ts[(p + l + 1) + i] == #[trigger] written(*rhs)[i] by {
                assert(written(a)[l + 1 + i] == written(*rhs)[i]);
                assert(ts[p + (l + 1 + i)] == written(a)[l + 1 + i]);
            }
            assert(kind_at(ts, (pos + l) as nat) == operator.token_type);
            product_is_gathered(*lhs, ts, pos);
            atom_is_read(*rhs, ts, (pos + l + 1) as nat);
            assert(operator_at(ts, (pos + l) as nat, Level::Factor));
            assert(operand(ts, (pos + l + 1) as nat, Level::Factor) == done(meant(*rhs), r as nat));
        },
        _ => {
            atom_is_read(a, ts, pos);
            assert(operand(ts, pos, Level::Factor) == done(meant(a), n));
        },
    }
}

/// The parser reads a product as it is meant.
proof fn product_is_read(a: Arith, ts: Seq<TokenView>, pos: nat)
    requires
        well_written(a, Rank::Product),
        stands_at(a, ts, pos),
        ends_product(kind_at(ts, pos + written(a).len())),
    ensures
        binary(ts, pos, Level::Factor) == done(meant(a), written(a).len()),
    decreases a, 2nat,
{
    reveal(binary_tail);
    product_is_gathered(a, ts, pos);
    assert(!operator_at(ts, pos + written(a).len(), Level::Factor));
}

/// The parser at the level of sums has read a sum when it has gone through
/// its tokens.
#[verifier::rlimit(100)]
proof fn sum_is_gathered(a: Arith, ts: Seq<TokenView>, pos: nat)
    requires
        well_written(a, Rank::Sum),
        stands_at(a, ts, pos),
        ends_product(kind_at(ts, pos + written(a).len())),
    ensures
        binary(ts, pos, Level::Term) == binary_tail(ts, pos + written(a).len(), Level::Term, meant(a)).after(
            written(a).len(),
        ),
    decreases a, 3nat,
{
    reveal(binary);
    reveal(binary_tail);
    reveal(operand);
    let n = written(a).len();
    let is_sum = a matches Arith::Operation(lhs, operator, rhs) && is_sum_sign(operator.token_type);
    if is_sum {
        match a {
            Arith::Operation(lhs, operator, rhs) => {
                let p = pos as int;
                let l = written(*lhs).len() as int;
                let r = written(*rhs).len() as int;
                assert(written(a)[l] == operator);
                assert(ts[p + l] == written(a)[l]);
                assert forall|i: int| 0 <= i < l implies ts[p + i] == #[trigger] written(*lhs)[i] by {
                    assert(written(a)[i] == written(*lhs)[i]);
                }
                assert forall|i: int| 0 <= i < r implies ts[(p + l + 1) + i] == #[trigger] written(*rhs)[i] by {
                    assert(written(a)[l + 1 + i] == written(*rhs)[i]);
                    assert(ts[p + (l + 1 + i)] == written(a)[l + 1 + i]);
                }
                assert(kind_at(ts, (pos + l) as nat) == operator.token_type);
                sum_is_gathered(*lhs, ts, pos);
                product_is_read(*rhs, ts, (pos + l + 1) as nat);
                assert(operator_at(ts, (pos + l) as nat, Level::Term));
                assert(operand(ts, (pos + l + 1) as nat, Level::Term) == done(meant(*rhs), r as nat));
            },
            _ => {},
        }
    } else {
        assert(well_written(a, Rank::Product));
        product_is_read(a, ts, pos);
        assert(operand(ts, pos, Level::Term) == done(meant(a), n));
    }
}

/// The parser reads arithmetic as it is written: from the tokens of a
/// well-written expression, with a token behind them that ends an
/// expression, it gives the tree that was meant, and takes just those
/// tokens.
#[verifier::rlimit(100)]
pub proof fn sum_is_read(a: Arith, ts: Seq<TokenView>, pos: nat)
    requires
        well_written(a, Rank::Sum),
        stands_at(a, ts, pos),
        ends_expression(kind_at(ts, pos + written(a).len())),
    ensures
        expression(ts, pos) == done(meant(a), written(a).len()),
    decreases a, 4nat,
{
    reveal(expression);
    reveal(assignment);
    reveal(binary);
    reveal(binary_tail);
    reveal(operand);
    let n = written(a).len();
    let e = meant(a);
    sum_is_gathered(a, ts, pos);
    assert(!operator_at(ts, pos + n, Level::Term));
    assert(binary(ts, pos, Level::Term) == done(e, n));
    assert(!operator_at(ts, pos + n, Level::Comparison));
    assert(binary(ts, pos, Level::Comparison) == done(e, n));
    assert(!operator_at(ts, pos + n, Level::Equality));
    assert(binary(ts, pos, Level::Equality) == done(e, n));
    assert(!operator_at(ts, pos + n, Level::And));
    assert(binary(ts, pos, Level::And) == done(e, n));
    assert(!operator_at(ts, pos + n, Level::Or));
    assert(binary(ts, pos, Level::Or) == done(e, n));
    assert(assignment(ts, pos) == done(e, n));
}

/// The number that an expression is worth by the rules of arithmetic: a
/// group is worth what stands in it, an operation what its operator makes
/// of the worth of its operands.
pub open spec fn worth(a: Arith) -> Number
    decreases a,
{
    match a {
        Arith::Number(t) => number_of_text(t.literal).unwrap(),
        Arith::Group(open, inner, close) => worth(*inner),
        Arith::Operation(lhs, operator, rhs) => {
            let x = worth(*lhs);
            let y = worth(*rhs);
            if operator.token_type == TokenType::Plus {
                x.spec_plus(y)
            } else if operator.token_type == TokenType::Minus {
                x.spec_minus(y)
            } else if operator.token_type == TokenType::Asterisk {
                x.spec_times(y)
            } else {
                x.spec_over(y)
            }
        },
    }
}

/// The number of levels of an expression.
pub open spec fn height(a: Arith) -> nat
    decreases a,
{
    match a {
        Arith::Number(t) => 1,
        Arith::Group(open, inner, close) => 1 + height(*inner),
        Arith::Operation(lhs, operator, rhs) => 1 + if height(*lhs) >= height(*rhs) {
            height(*lhs)
        } else {
            height(*rhs)
        },
    }
}

/// Whether no division of an expression is one by zero.
pub open spec fn divides_soundly(a: Arith) -> bool
    decreases a,
{
    match a {
        Arith::Number(t) => true,
        Arith::Group(open, inner, close) => divides_soundly(*inner),
        Arith::Operation(lhs, operator, rhs) => divides_soundly(*lhs) && divides_soundly(*rhs) && (
        operator.token_type == TokenType::FSlash ==> worth(*rhs).spec_compare(Number::spec_count(0))
            != Comparison::Equal),
    }
}

/// The tree that an expression means evaluates to the number that the
/// expression is worth, on any machine and without changing it, given a
/// step for each of its levels and no division by zero.
#[verifier::rlimit(100)]
pub proof fn meant_tree_has_worth(a: Arith, rank: Rank, m: Machine, fuel: nat)
    requires
        well_written(a, rank),
        divides_soundly(a),
        fuel >= height(a),
    ensures
        evaluate(meant(a), m, fuel) == value(number(worth(a)), m),
    decreases a,
{
    reveal(evaluate);
    match a {
        Arith::Number(t) => {},
        Arith::Group(open, inner, close) => {
            meant_tree_has_worth(*inner, Rank::Sum, m, (fuel - 1) as nat);
        },
        Arith::Operation(lhs, operator, rhs) => {
            if is_sum_sign(operator.token_type) {
                meant_tree_has_worth(*lhs, Rank::Sum, m, (fuel - 1) as nat);
                meant_tree_has_worth(*rhs, Rank::Product, m, (fuel - 1) as nat);
            } else {
                meant_tree_has_worth(*lhs, Rank::Product, m, (fuel - 1) as nat);
                meant_tree_has_worth(*rhs, Rank::Atom, m, (fuel - 1) as nat);
            }
        },
    }
}

// ---------------------------------------------------------------------------
// The shape of what is read
// ---------------------------------------------------------------------------

/// Whether an expression is an operation with two operands.
pub open spec fn is_operation(e: ExprView) -> bool {
    e is Binary || e is Logical
}

/// The level that binds next tighter than a binary level; none binds
/// tighter than the factor level.
pub open spec fn tighter(level: Level) -> Option<Level> {
    match level {
        Level::Or => Some(Level::And),
        Level::And => Some(Level::Equality),
        Level::Equality => Some(Level::Comparison),
        Level::Comparison => Some(Level::Term),
        Level::Term => Some(Level::Factor),
        Level::Factor => None,
    }
}

/// Whether an expression has the shape of what a level reads. It has the
/// shape of an operand of the level: of what the next tighter level reads,
/// or, at the factor level, of anything but an operation. Or it is an
/// operation with an operator of the level, whose right operand has the
/// shape of an operand of the level and whose left operand has the shape of
/// the level again.
///
/// So an operand of an operator is never an operation of a looser level,
/// and a right operand is never an operation of the same level: tighter
/// levels bind first, and operators of one level associate to the left.
pub open spec fn reads_as(level: Level, e: ExprView) -> bool
    decreases looseness(level), e, 1nat,
{
    ||| is_operand_of(level, e)
    ||| match e {
        ExprView::Binary { left, operator, right } => !(level is Or) && !(level is And) && is_operator(
            level,
            operator.token_type,
        ) && is_operand_of(level, *right) && reads_as(level, *left),
        ExprView::Logical { left, operator, right } => (level is Or || level is And) && is_operator(
            level,
            operator.token_type,
        ) && is_operand_of(level, *right) && reads_as(level, *left),
        _ => false,
    }
}

/// Whether an expression has the shape of an operand of a level.
pub open spec fn is_operand_of(level: Level, e: ExprView) -> bool
    decreases looseness(level), e, 0nat,
{
    match level {
        Level::Or => reads_as(Level::And, e),
        Level::And => reads_as(Level::Equality, e),
        Level::Equality => reads_as(Level::Comparison, e),
        Level::Comparison => reads_as(Level::Term, e),
        Level::Term => reads_as(Level::Factor, e),
        Level::Factor => !is_operation(e),
    }
}

/// The items of a list are read as a list.
proof fn items_are_a_list(ts: Seq<TokenView>, pos: nat, sofar: Seq<ExprView>)
    ensures
        items(ts, pos, sofar).outcome matches Ok(e) ==> e is List,
    decreases left(ts, pos),
{
    reveal(items);
    reveal(expression);
    if !check(ts, pos, TokenType::RBrack) {
        let item = expression(ts, pos);
        if item.outcome is Ok && check(ts, pos + item.used, TokenType::Comma) {
            items_are_a_list(ts, pos + item.used + 1, sofar.push(item.outcome->Ok_0));
        }
    }
}

/// What stands between the brackets behind a name is read as an element
/// or a slice of the list of that name.
proof fn index_is_a_splice(ts: Seq<TokenView>, pos: nat, name: TokenView)
    ensures
        index(ts, pos, name).outcome matches Ok(e) ==> e is Splice,
{
    reveal(index);
    reveal(index_end);
    reveal(expression);
    if kind_at(ts, pos) != TokenType::Colon {
        let first = expression(ts, pos);
        if first.outcome is Ok {
            let start = Some(Box::new(first.outcome->Ok_0));
            assert(index_end(ts, pos + first.used, name, start).outcome matches Ok(e) ==> e is Splice);
        }
    } else {
        assert(index_end(ts, pos, name, None).outcome matches Ok(e) ==> e is Splice);
    }
}

/// What a name stands for is no operation.
proof fn named_is_no_operation(ts: Seq<TokenView>, pos: nat, name: TokenView)
    ensures
        named(ts, pos, name).outcome matches Ok(e) ==> !is_operation(e),
{
    reveal(named);
    reveal(index);
    if check(ts, pos, TokenType::LBrack) {
        index_is_a_splice(ts, pos + 1, name);
    }
}

/// What stands in parentheses is read as a group.
proof fn grouping_is_a_group(ts: Seq<TokenView>, pos: nat)
    ensures
        grouping(ts, pos).outcome matches Ok(e) ==> e is Grouping,
{
    reveal(grouping);
    reveal(expression);
}

/// What stands in brackets is read as a list.
proof fn list_is_a_list(ts: Seq<TokenView>, pos: nat)
    ensures
        list(ts, pos).outcome matches Ok(e) ==> e is List,
{
    reveal(list);
    reveal(items);
    items_are_a_list(ts, pos, Seq::empty());
}

/// A primary expression is no operation.
proof fn primary_is_no_operation(ts: Seq<TokenView>, pos: nat)
    ensures
        primary(ts, pos).outcome matches Ok(e) ==> !is_operation(e),
{
    reveal(primary);
    reveal(named);
    reveal(grouping);
    reveal(list);
    if check(ts, pos, TokenType::Identifier) {
        named_is_no_operation(ts, pos + 1, ts[pos as int]);
    } else if check(ts, pos, TokenType::LParen) {
        grouping_is_a_group(ts, pos + 1);
    } else if check(ts, pos, TokenType::LBrack) {
        list_is_a_list(ts, pos + 1);
    }
}

/// What follows a callee that is no operation is no operation either.
proof fn call_tail_is_no_operation(ts: Seq<TokenView>, pos: nat, start: nat, callee: ExprView)
    requires
        !is_operation(callee),
    ensures
        call_tail(ts, pos, start, callee).outcome matches Ok(e) ==> !is_operation(e),
    decreases left(ts, pos),
{
    reveal(call_tail);
    reveal(finish_call);
    reveal(call);
    if check(ts, pos, TokenType::LParen) {
        let applied = finish_call(ts, pos + 1, callee);
        if applied.outcome is Ok {
            assert(applied.outcome->Ok_0 is Call);
            call_tail_is_no_operation(ts, pos + 1 + applied.used, start, applied.outcome->Ok_0);
        }
    }
}

/// A unary expression is no operation: what the levels of `!`, `-`, calls
/// and primary expressions read has no operator with two operands at its
/// top.
pub proof fn unary_is_no_operation(ts: Seq<TokenView>, pos: nat)
    ensures
        unary(ts, pos).outcome matches Ok(e) ==> !is_operation(e),
    decreases left(ts, pos),
{
    reveal(unary);
    reveal(call);
    reveal(primary);
    reveal(call_tail);
    if !(check(ts, pos, TokenType::Bang) || check(ts, pos, TokenType::Minus)) {
        let head = primary(ts, pos);
        primary_is_no_operation(ts, pos);
        if head.outcome is Ok {
            call_tail_is_no_operation(ts, pos + head.used, pos, head.outcome->Ok_0);
        }
        assert(call(ts, pos).outcome matches Ok(e) ==> !is_operation(e));
    }
}

/// An operand of a level has the shape of one.
proof fn operand_has_its_shape(ts: Seq<TokenView>, pos: nat, level: Level)
    ensures
        operand(ts, pos, level).outcome matches Ok(e) ==> is_operand_of(level, e),
    decreases looseness(level), 0nat, 0nat,
{
    reveal(operand);
    reveal(binary);
    reveal(unary);
    match level {
        Level::Or => level_reads_its_shape(ts, pos, Level::And),
        Level::And => level_reads_its_shape(ts, pos, Level::Equality),
        Level::Equality => level_reads_its_shape(ts, pos, Level::Comparison),
        Level::Comparison => level_reads_its_shape(ts, pos, Level::Term),
        Level::Term => level_reads_its_shape(ts, pos, Level::Factor),
        Level::Factor => unary_is_no_operation(ts, pos),
    }
}

/// The operators and operands of a level that follow an expression of the
/// shape of the level make an expression of that shape with it, and no
/// operator of the level is left behind them.
proof fn tail_keeps_the_shape(ts: Seq<TokenView>, pos: nat, level: Level, lhs: ExprView)
    requires
        reads_as(level, lhs),
    ensures
        binary_tail(ts, pos, level, lhs).outcome matches Ok(e) ==> reads_as(level, e) && !operator_at(
            ts,
            pos + binary_tail(ts, pos, level, lhs).used,
            level,
        ),
    decreases looseness(level), 1nat, left(ts, pos),
{
    reveal(binary_tail);
    reveal(operand);
    if operator_at(ts, pos, level) {
        let rhs = operand(ts, pos + 1, level);
        operand_has_its_shape(ts, pos + 1, level);
        if rhs.outcome is Ok {
            let joined = join(level, lhs, ts[pos as int], rhs.outcome->Ok_0);
            assert(reads_as(level, joined));
            tail_keeps_the_shape(ts, pos + 1 + rhs.used, level, joined);
        }
    }
}

/// What a level reads has the shape of the level, and where it ends no
/// operator of the level follows. At the factor level: no operand of a `*`
/// or `/` is a sum, and the right operand of a `*` or `/` is no product. At
/// the equality level: the operands of `==` and `!=` are comparisons or
/// tighter, so that `1 == 2 < 3` is read as `1 == (2 < 3)`.
pub proof fn level_reads_its_shape(ts: Seq<TokenView>, pos: nat, level: Level)
    ensures
        binary(ts, pos, level).outcome matches Ok(e) ==> reads_as(level, e) && !operator_at(
            ts,
            pos + binary(ts, pos, level).used,
            level,
        ),
    decreases looseness(level), 2nat, 0nat,
{
    reveal(binary);
    reveal(binary_tail);
    reveal(operand);
    let first = operand(ts, pos, level);
    operand_has_its_shape(ts, pos, level);
    if first.outcome is Ok {
        tail_keeps_the_shape(ts, pos + first.used, level, first.outcome->Ok_0);
    }
}

} // verus!
