//! Expression trees.

use vstd::prelude::*;
use crate::token::{Token, TokenType, TokenView};
use crate::value::{LiteralType, LiteralView};

verus! {

/// An expression.
#[derive(Debug)]
#[allow(inconsistent_fields)]
pub enum Expr {
    Literal { value: LiteralType },
    Grouping { expression: Box<Expr> },
    Unary { operator: Token, right: Box<Expr> },
    Binary { left: Box<Expr>, operator: Token, right: Box<Expr> },
    Logical { left: Box<Expr>, operator: Token, right: Box<Expr> },
    Var { name: Token },
    Assign { name: Token, value: Box<Expr> },
    Alteration { name: Token, alteration_type: TokenType },
    Call { callee: Box<Expr>, arguments: Vec<Expr> },
    List { items: Vec<Expr> },
    Splice { list: Token, is_splice: bool, start: Option<Box<Expr>>, end: Option<Box<Expr>> },
    ListMethodCall { object: Token, call: Box<Expr> },
}

/// The mathematical value of an [`Expr`].
#[allow(inconsistent_fields)]
pub enum ExprView {
    Literal { value: LiteralView },
    Grouping { expression: Box<ExprView> },
    Unary { operator: TokenView, right: Box<ExprView> },
    Binary { left: Box<ExprView>, operator: TokenView, right: Box<ExprView> },
    Logical { left: Box<ExprView>, operator: TokenView, right: Box<ExprView> },
    Var { name: TokenView },
    Assign { name: TokenView, value: Box<ExprView> },
    Alteration { name: TokenView, alteration_type: TokenType },
    Call { callee: Box<ExprView>, arguments: Seq<ExprView> },
    List { items: Seq<ExprView> },
    Splice { list: TokenView, is_splice: bool, start: Option<Box<ExprView>>, end: Option<Box<ExprView>> },
    ListMethodCall { object: TokenView, call: Box<ExprView> },
}

/// The views of a sequence of expressions, in order.
pub open spec fn expr_views(exprs: Seq<Expr>) -> Seq<ExprView>
    decreases exprs,
{
    Seq::new(exprs.len(), |i: int| if 0 <= i < exprs.len() { expr_view(exprs[i]) } else { arbitrary() })
}

/// The view of one expression.
pub open spec fn expr_view(expr: Expr) -> ExprView
    decreases expr,
{
        match expr {
            Expr::Literal { value } => ExprView::Literal { value: value@ },
            Expr::Grouping { expression } => ExprView::Grouping { expression: Box::new(expr_view(*expression)) },
            Expr::Unary { operator, right } => ExprView::Unary { operator: operator@, right: Box::new(expr_view(*right)) },
            Expr::Binary { left, operator, right } => ExprView::Binary {
                left: Box::new(expr_view(*left)),
                operator: operator@,
                right: Box::new(expr_view(*right)),
            },
            Expr::Logical { left, operator, right } => ExprView::Logical {
                left: Box::new(expr_view(*left)),
                operator: operator@,
                right: Box::new(expr_view(*right)),
            },
            Expr::Var { name } => ExprView::Var { name: name@ },
            Expr::Assign { name, value } => ExprView::Assign { name: name@, value: Box::new(expr_view(*value)) },
            Expr::Alteration { name, alteration_type } => ExprView::Alteration {
                name: name@,
                alteration_type,
            },
            Expr::Call { callee, arguments } => ExprView::Call {
                callee: Box::new(expr_view(*callee)),
                arguments: expr_views(arguments@),
            },
            Expr::List { items } => ExprView::List { items: expr_views(items@) },
            Expr::Splice { list, is_splice, start, end } => ExprView::Splice {
                list: list@,
                is_splice,
                start: match start {
                    Some(e) => Some(Box::new(expr_view(*e))),
                    None => None,
                },
                end: match end {
                    Some(e) => Some(Box::new(expr_view(*e))),
                    None => None,
                },
            },
            Expr::ListMethodCall { object, call } => ExprView::ListMethodCall {
                object: object@,
                call: Box::new(expr_view(*call)),
            },
        }
}

impl View for Expr {
    type V = ExprView;

    open spec fn view(&self) -> ExprView {
        expr_view(*self)
    }
}

} // verus!
