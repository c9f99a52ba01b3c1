//! Statement trees.

use vstd::prelude::*;
use crate::expr::{Expr, ExprView};
use crate::token::{token_views, Token, TokenView};

verus! {

/// A statement.
#[derive(Debug)]
#[allow(inconsistent_fields)]
pub enum Stmt {
    Block { statements: Vec<Stmt> },
    Expression { expression: Expr },
    For { initializer: Option<Box<Stmt>>, condition: Expr, increment: Option<Expr>, body: Box<Stmt> },
    Function { name: Token, params: Vec<Token>, body: Vec<Stmt> },
    If { condition: Expr, then_branch: Box<Stmt>, else_branch: Option<Box<Stmt>> },
    Print { expression: Expr },
    Return { keyword: Token, value: Option<Expr> },
    Var { name: Token, initializer: Option<Expr> },
    While { condition: Expr, body: Box<Stmt> },
}

/// The mathematical value of a [`Stmt`].
#[allow(inconsistent_fields)]
pub enum StmtView {
    Block { statements: Seq<StmtView> },
    Expression { expression: ExprView },
    For { initializer: Option<Box<StmtView>>, condition: ExprView, increment: Option<ExprView>, body: Box<StmtView> },
    Function { name: TokenView, params: Seq<TokenView>, body: Seq<StmtView> },
    If { condition: ExprView, then_branch: Box<StmtView>, else_branch: Option<Box<StmtView>> },
    Print { expression: ExprView },
    Return { keyword: TokenView, value: Option<ExprView> },
    Var { name: TokenView, initializer: Option<ExprView> },
    While { condition: ExprView, body: Box<StmtView> },
}

/// The view of an expression that may be absent.
pub open spec fn optional_expr_view(expr: Option<Expr>) -> Option<ExprView> {
    match expr {
        Some(e) => Some(e@),
        None => None,
    }
}

/// The views of a sequence of statements, in order.
pub open spec fn stmt_views(stmts: Seq<Stmt>) -> Seq<StmtView>
    decreases stmts,
{
    Seq::new(stmts.len(), |i: int| if 0 <= i < stmts.len() { stmt_view(stmts[i]) } else { arbitrary() })
}

/// The view of one statement.
pub open spec fn stmt_view(stmt: Stmt) -> StmtView
    decreases stmt,
{
    match stmt {
        Stmt::Block { statements } => StmtView::Block { statements: stmt_views(statements@) },
        Stmt::Expression { expression } => StmtView::Expression { expression: expression@ },
        Stmt::For { initializer, condition, increment, body } => StmtView::For {
            initializer: match initializer {
                Some(s) => Some(Box::new(stmt_view(*s))),
                None => None,
            },
            condition: condition@,
            increment: optional_expr_view(increment),
            body: Box::new(stmt_view(*body)),
        },
        Stmt::Function { name, params, body } => StmtView::Function {
            name: name@,
            params: token_views(params@),
            body: stmt_views(body@),
        },
        Stmt::If { condition, then_branch, else_branch } => StmtView::If {
            condition: condition@,
            then_branch: Box::new(stmt_view(*then_branch)),
            else_branch: match else_branch {
                Some(s) => Some(Box::new(stmt_view(*s))),
                None => None,
            },
        },
        Stmt::Print { expression } => StmtView::Print { expression: expression@ },
        Stmt::Return { keyword, value } => StmtView::Return { keyword: keyword@, value: optional_expr_view(value) },
        Stmt::Var { name, initializer } => StmtView::Var {
            name: name@,
            initializer: optional_expr_view(initializer),
        },
        Stmt::While { condition, body } => StmtView::While { condition: condition@, body: Box::new(stmt_view(*body)) },
    }
}

impl View for Stmt {
    type V = StmtView;

    open spec fn view(&self) -> StmtView {
        stmt_view(*self)
    }
}

} // verus!
