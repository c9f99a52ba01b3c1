//! The check of a program before it runs: what the grammar allows but no
//! run could make sense of.
//!
//! A `return` must stand inside a function, and a function must not name a
//! parameter twice. The statements are visited in the order in which they
//! are written; the first fault found is the one reported.

use vstd::prelude::*;
use crate::error::{SemanticError, SemanticErrorView};
use crate::stmt::{stmt_views, Stmt, StmtView};
use crate::token::{token_views, Token, TokenView};

verus! {

/// The first of the names from `from` on that stands among the names before
/// it.
pub open spec fn repeated_from(params: Seq<TokenView>, from: nat) -> Option<nat>
    decreases params.len() - from,
{
    if from >= params.len() {
        None
    } else if exists|i: int| 0 <= i < from && params[i].lexeme == params[from as int].lexeme {
        Some(from)
    } else {
        repeated_from(params, from + 1)
    }
}

/// The first parameter that repeats an earlier one.
pub open spec fn repeated(params: Seq<TokenView>) -> Option<nat> {
    repeated_from(params, 0)
}

/// The first fault of a statement; `inside` says whether it stands inside a
/// function.
pub open spec fn fault(stmt: StmtView, inside: bool) -> Option<SemanticErrorView>
    decreases stmt,
{
    match stmt {
        StmtView::Block { statements } => first_fault(statements, inside),
        StmtView::Expression { expression } => None,
        StmtView::Print { expression } => None,
        StmtView::Var { name, initializer } => None,
        StmtView::If { condition, then_branch, else_branch } => match fault(*then_branch, inside) {
            Some(e) => Some(e),
            None => match else_branch {
                Some(other) => fault(*other, inside),
                None => None,
            },
        },
        StmtView::While { condition, body } => fault(*body, inside),
        StmtView::For { initializer, condition, increment, body } => {
            let first = match initializer {
                Some(init) => fault(*init, inside),
                None => None,
            };
            match first {
                Some(e) => Some(e),
                None => fault(*body, inside),
            }
        },
        StmtView::Function { name, params, body } => match repeated(params) {
            Some(at) => Some(
                SemanticErrorView::DuplicateParameter { name: params[at as int].lexeme, line: params[at as int].line },
            ),
            None => first_fault(body, true),
        },
        StmtView::Return { keyword, value } => if inside {
            None
        } else {
            Some(SemanticErrorView::ReturnOutsideFunction { line: keyword.line })
        },
    }
}

/// The first fault of statements in a row.
pub open spec fn first_fault(stmts: Seq<StmtView>, inside: bool) -> Option<SemanticErrorView>
    decreases stmts,
{
    if stmts.len() == 0 {
        None
    } else {
        match fault(stmts[0], inside) {
            Some(e) => Some(e),
            None => first_fault(stmts.drop_first(), inside),
        }
    }
}

/// The analyser of one program.
pub struct SemanticAnalyser<'a> {
    ast: &'a Vec<Stmt>,
}

/// The first parameter that repeats an earlier one.
#[verifier::rlimit(100)]
fn repeated_parameter(params: &Vec<Token>) -> (at: Option<usize>)
    ensures
        match at {
            Some(i) => repeated(token_views(params@)) == Some(i as nat) && i < params.len(),
            None => repeated(token_views(params@)) is None,
        },
{
    let ghost names = token_views(params@);
    let mut j: usize = 0;
    while j < params.len()
        invariant
            j <= params.len(),
            names == token_views(params@),
            repeated(names) == repeated_from(names, j as nat),
        decreases params.len() - j,
    {
        let mut i: usize = 0;
        while i < j
            invariant
                i <= j < params.len(),
                names == token_views(params@),
                repeated(names) == repeated_from(names, j as nat),
                forall|k: int| 0 <= k < i ==> names[k].lexeme != names[j as int].lexeme,
            decreases j - i,
        {
            if params[i].lexeme == params[j].lexeme {
                assert(names[i as int].lexeme == names[j as int].lexeme);
                return Some(j);
            }
            i += 1;
        }
        j += 1;
    }
    None
}

impl<'a> SemanticAnalyser<'a> {
    /// The program that the analyser checks.
    pub closed spec fn program(&self) -> Seq<StmtView> {
        stmt_views(self.ast@)
    }

    /// An analyser of `ast`.
    pub fn new(ast: &'a Vec<Stmt>) -> (analyser: SemanticAnalyser<'a>)
        ensures
            analyser.program() == stmt_views(ast@),
    {
        SemanticAnalyser { ast }
    }

    /// Checks the program: the first fault in the order of the text is an
    /// error, and a program without fault passes.
    pub fn run(&self) -> (result: Result<(), SemanticError>)
        ensures
            match first_fault(self.program(), false) {
                Some(e) => result matches Err(found) && found@ == e,
                None => result is Ok,
            },
    {
        check_all(self.ast, false)
    }
}

/// Checks a statement; `inside` says whether it stands inside a function.
#[verifier::rlimit(100)]
fn check(stmt: &Stmt, inside: bool) -> (result: Result<(), SemanticError>)
    ensures
        match fault(stmt@, inside) {
            Some(e) => result matches Err(found) && found@ == e,
            None => result is Ok,
        },
    decreases stmt,
{
    match stmt {
        Stmt::Block { statements } => check_all(statements, inside),
        Stmt::Expression { expression: _ } => Ok(()),
        Stmt::Print { expression: _ } => Ok(()),
        Stmt::Var { name: _, initializer: _ } => Ok(()),
        Stmt::If { condition: _, then_branch, else_branch } => {
            check(then_branch, inside)?;
            match else_branch {
                Some(other) => check(other, inside),
                None => Ok(()),
            }
        },
        Stmt::While { condition: _, body } => check(body, inside),
        Stmt::For { initializer, condition: _, increment: _, body } => {
            match initializer {
                Some(init) => {
                    check(init, inside)?;
                },
                None => {},
            }
            check(body, inside)
        },
        Stmt::Function { name: _, params, body } => match repeated_parameter(params) {
            Some(at) => Err(
                SemanticError::DuplicateParameter { name: params[at].lexeme.clone(), line: params[at].line },
            ),
            None => check_all(body, true),
        },
        Stmt::Return { keyword, value: _ } => if inside {
            Ok(())
        } else {
            Err(SemanticError::ReturnOutsideFunction { line: keyword.line })
        },
    }
}

/// Checks statements in a row.
#[verifier::rlimit(100)]
fn check_all(stmts: &Vec<Stmt>, inside: bool) -> (result: Result<(), SemanticError>)
    ensures
        match first_fault(stmt_views(stmts@), inside) {
            Some(e) => result matches Err(found) && found@ == e,
            None => result is Ok,
        },
    decreases stmts,
{
    let ghost all = stmt_views(stmts@);
    let mut i: usize = 0;
    assert(all.subrange(0, all.len() as int) =~= all);
    while i < stmts.len()
        invariant
            i <= stmts.len(),
            all == stmt_views(stmts@),
            first_fault(all, inside) == first_fault(all.subrange(i as int, all.len() as int), inside),
        decreases stmts.len() - i,
    {
        let ghost rest = all.subrange(i as int, all.len() as int);
        assert(rest[0] == stmts[i as int]@);
        assert(rest.drop_first() =~= all.subrange(i + 1, all.len() as int));
        check(&stmts[i], inside)?;
        i += 1;
    }
    Ok(())
}

} // verus!
