//! Errors and recovery: which error a parse reports, and where the parser
//! stands afterwards.

use vstd::prelude::*;
use crate::error::ParserErrorView;
use crate::grammar::{
    at_end, declaration, expression_statement, kind_at, program, skipped, starts_statement, statement,
};
use crate::stmt::StmtView;
use crate::token::{TokenType, TokenView};

verus! {

/// A declaration that is read takes at least one token.
pub proof fn declaration_takes_tokens(ts: Seq<TokenView>, pos: nat)
    ensures
        declaration(ts, pos).outcome is Ok ==> declaration(ts, pos).used > 0,
{
    reveal(declaration);
    reveal(statement);
    reveal(expression_statement);
    assert(statement(ts, pos).outcome is Ok ==> statement(ts, pos).used > 0);
}

/// The first declaration that cannot be read ends the parse, and its error
/// is the one reported: what was read before it does not matter, and what
/// stands behind it is not looked at.
pub proof fn first_error_is_reported(ts: Seq<TokenView>, pos: nat, sofar: Seq<StmtView>)
    requires
        !at_end(ts, pos),
        declaration(ts, pos).outcome is Err,
    ensures
        program(ts, pos, sofar).outcome == Err::<Seq<StmtView>, ParserErrorView>(
            declaration(ts, pos).outcome->Err_0,
        ),
        program(ts, pos, sofar).used == declaration(ts, pos).used,
{
    reveal(program);
    reveal(declaration);
}

/// Behind a declaration that is read, the parse goes on with the next.
pub proof fn parse_goes_on(ts: Seq<TokenView>, pos: nat, sofar: Seq<StmtView>)
    requires
        !at_end(ts, pos),
        declaration(ts, pos).outcome is Ok,
    ensures
        program(ts, pos, sofar) == program(
            ts,
            pos + declaration(ts, pos).used,
            sofar.push(declaration(ts, pos).outcome->Ok_0),
        ).after(declaration(ts, pos).used),
{
    reveal(program);
    reveal(declaration);
    declaration_takes_tokens(ts, pos);
}

/// Recovery leaves the parser where a statement may start: on the end
/// marker, behind a semicolon, or in front of a keyword that starts a
/// declaration or a statement.
#[verifier::rlimit(100)]
pub proof fn recovery_stops_at_boundary(ts: Seq<TokenView>, pos: nat)
    ensures
        ({
            let stop = pos + skipped(ts, pos);
            ||| at_end(ts, stop)
            ||| (stop > 0 && kind_at(ts, (stop - 1) as nat) == TokenType::Semicolon)
            ||| starts_statement(kind_at(ts, stop))
        }),
    decreases crate::grammar::left(ts, pos),
{
    reveal(skipped);
    if !at_end(ts, pos) && !(pos > 0 && kind_at(ts, (pos - 1) as nat) == TokenType::Semicolon) && !starts_statement(
        kind_at(ts, pos),
    ) {
        recovery_stops_at_boundary(ts, pos + 1);
    }
}

} // verus!
