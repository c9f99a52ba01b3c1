//! Trees as text, for messages and for looking at what the parser made.

use vstd::prelude::*;
use vstd::string::*;
use crate::expr::{expr_views, Expr, ExprView};
use crate::stmt::{stmt_views, Stmt, StmtView};
use crate::token::{token_views, Token, TokenType, TokenView};
use crate::value::{LiteralType, LiteralView};

verus! {

/// The text of a literal: a text between quotes, anything else as it is
/// printed.
pub open spec fn literal_text(l: LiteralView) -> Seq<char> {
    match l {
        LiteralView::Num(n) => n.spec_text(),
        LiteralView::Str(s) => "\""@ + s + "\""@,
        LiteralView::True => "true"@,
        LiteralView::False => "false"@,
        LiteralView::Null => "null"@,
    }
}

/// The text of an expression that may be absent.
pub open spec fn optional_text(e: Option<Box<ExprView>>) -> Seq<char>
    decreases e,
{
    match e {
        Some(expr) => expr_text(*expr),
        None => Seq::empty(),
    }
}

/// The text of an expression.
pub open spec fn expr_text(e: ExprView) -> Seq<char>
    decreases e,
{
    match e {
        ExprView::Literal { value } => literal_text(value),
        ExprView::Grouping { expression } => "("@ + expr_text(*expression) + ")"@,
        ExprView::Unary { operator, right } => operator.lexeme + expr_text(*right),
        ExprView::Binary { left, operator, right } => expr_text(*left) + " "@ + operator.lexeme + " "@ + expr_text(
            *right,
        ),
        ExprView::Logical { left, operator, right } => expr_text(*left) + " "@ + operator.lexeme + " "@ + expr_text(
            *right,
        ),
        ExprView::Var { name } => name.lexeme,
        ExprView::Assign { name, value } => name.lexeme + " = "@ + expr_text(*value),
        ExprView::Alteration { name, alteration_type } => name.lexeme + if alteration_type == TokenType::Incr {
            "++"@
        } else {
            "--"@
        },
        ExprView::Call { callee, arguments } => expr_text(*callee) + "("@ + exprs_text(arguments, 0) + ")"@,
        ExprView::List { items } => "["@ + exprs_text(items, 0) + "]"@,
        ExprView::Splice { list, is_splice, start, end } => list.lexeme + "["@ + optional_text(start) + if is_splice {
            ":"@
        } else {
            Seq::empty()
        } + optional_text(end) + "]"@,
        ExprView::ListMethodCall { object, call } => object.lexeme + "."@ + expr_text(*call),
    }
}

/// The texts of the expressions from `from` on, each but the first of the
/// list behind a comma.
pub open spec fn exprs_text(es: Seq<ExprView>, from: nat) -> Seq<char>
    decreases es, es.len() - from,
{
    if from >= es.len() {
        Seq::empty()
    } else {
        (if from == 0 {
            Seq::empty()
        } else {
            ", "@
        }) + expr_text(es[from as int]) + exprs_text(es, from + 1)
    }
}

/// The names from `from` on, each but the first behind a blank.
pub open spec fn names_text(names: Seq<TokenView>, from: nat) -> Seq<char>
    decreases names.len() - from,
{
    if from >= names.len() {
        Seq::empty()
    } else {
        (if from == 0 {
            Seq::empty()
        } else {
            " "@
        }) + names[from as int].lexeme + names_text(names, from + 1)
    }
}

/// The text of a statement: the kind of the statement, and its parts in
/// parentheses. A part that is left out is written `none`.
pub open spec fn stmt_text(s: StmtView) -> Seq<char>
    decreases s,
{
    match s {
        StmtView::Block { statements } => "Block("@ + stmts_text(statements, 0) + ")"@,
        StmtView::Expression { expression } => "Expression("@ + expr_text(expression) + ")"@,
        StmtView::For { initializer, condition, increment, body } => "For("@ + (match initializer {
            Some(init) => stmt_text(*init),
            None => "none"@,
        }) + " "@ + expr_text(condition) + " "@ + (match increment {
            Some(step) => expr_text(step),
            None => "none"@,
        }) + " "@ + stmt_text(*body) + ")"@,
        StmtView::Function { name, params, body } => "Function("@ + name.lexeme + " ("@ + names_text(params, 0)
            + ") "@ + stmts_text(body, 0) + ")"@,
        StmtView::If { condition, then_branch, else_branch } => "If("@ + expr_text(condition) + " "@ + stmt_text(
            *then_branch,
        ) + (match else_branch {
            Some(other) => " "@ + stmt_text(*other),
            None => Seq::empty(),
        }) + ")"@,
        StmtView::Print { expression } => "Print("@ + expr_text(expression) + ")"@,
        StmtView::Return { keyword, value } => "Return("@ + (match value {
            Some(expr) => expr_text(expr),
            None => "none"@,
        }) + ")"@,
        StmtView::Var { name, initializer } => "Var("@ + name.lexeme + (match initializer {
            Some(expr) => " "@ + expr_text(expr),
            None => Seq::empty(),
        }) + ")"@,
        StmtView::While { condition, body } => "While("@ + expr_text(condition) + " "@ + stmt_text(*body) + ")"@,
    }
}

/// The texts of the statements from `from` on, each but the first behind a
/// blank.
pub open spec fn stmts_text(ss: Seq<StmtView>, from: nat) -> Seq<char>
    decreases ss, ss.len() - from,
{
    if from >= ss.len() {
        Seq::empty()
    } else {
        (if from == 0 {
            Seq::empty()
        } else {
            " "@
        }) + stmt_text(ss[from as int]) + stmts_text(ss, from + 1)
    }
}

/// Writes the text of a literal behind `out`.
#[verifier::rlimit(100)]
fn write_literal(l: &LiteralType, out: &mut String)
    ensures
        final(out)@ == old(out)@ + literal_text(l@),
{
    let ghost start = out@;
    match l {
        LiteralType::Num(n) => {
            let text = n.text();
            out.append(text.as_str());
        },
        LiteralType::Str(s) => {
            out.append("\"");
            out.append(s.as_str());
            out.append("\"");
            assert(out@ =~= start + ("\""@ + s@ + "\""@));
        },
        LiteralType::True => {
            out.append("true");
        },
        LiteralType::False => {
            out.append("false");
        },
        LiteralType::Null => {
            out.append("null");
        },
    }
}

/// Writes the text of an expression that may be absent behind `out`.
#[verifier::rlimit(100)]
fn write_optional(e: &Option<Box<Expr>>, out: &mut String)
    ensures
        final(out)@ == old(out)@ + optional_text(
            match e {
                Some(expr) => Some(Box::new(expr@)),
                None => None,
            },
        ),
    decreases e, 1nat,
{
    match e {
        Some(expr) => {
            write_expr(expr, out);
        },
        None => {
            assert(out@ =~= old(out)@ + Seq::<char>::empty());
        },
    }
}

/// Writes the text of an expression behind `out`.
#[verifier::rlimit(100)]
fn write_expr(e: &Expr, out: &mut String)
    ensures
        final(out)@ == old(out)@ + expr_text(e@),
    decreases e, 0nat,
{
    let ghost start = out@;
    match e {
        Expr::Literal { value } => {
            write_literal(value, out);
        },
        Expr::Grouping { expression } => {
            out.append("(");
            write_expr(expression, out);
            out.append(")");
            assert(out@ =~= start + ("("@ + expr_text(expression@) + ")"@));
        },
        Expr::Unary { operator, right } => {
            out.append(operator.lexeme.as_str());
            write_expr(right, out);
            assert(out@ =~= start + (operator@.lexeme + expr_text(right@)));
        },
        Expr::Binary { left, operator, right } => {
            write_expr(left, out);
            out.append(" ");
            out.append(operator.lexeme.as_str());
            out.append(" ");
            write_expr(right, out);
            assert(out@ =~= start + (expr_text(left@) + " "@ + operator@.lexeme + " "@ + expr_text(right@)));
        },
        Expr::Logical { left, operator, right } => {
            write_expr(left, out);
            out.append(" ");
            out.append(operator.lexeme.as_str());
            out.append(" ");
            write_expr(right, out);
            assert(out@ =~= start + (expr_text(left@) + " "@ + operator@.lexeme + " "@ + expr_text(right@)));
        },
        Expr::Var { name } => {
            out.append(name.lexeme.as_str());
        },
        Expr::Assign { name, value } => {
            out.append(name.lexeme.as_str());
            out.append(" = ");
            write_expr(value, out);
            assert(out@ =~= start + (name@.lexeme + " = "@ + expr_text(value@)));
        },
        Expr::Alteration { name, alteration_type } => {
            out.append(name.lexeme.as_str());
            if *alteration_type == TokenType::Incr {
                out.append("++");
                assert(out@ =~= start + (name@.lexeme + "++"@));
            } else {
                out.append("--");
                assert(out@ =~= start + (name@.lexeme + "--"@));
            }
        },
        Expr::Call { callee, arguments } => {
            write_expr(callee, out);
            out.append("(");
            write_exprs(arguments, out);
            out.append(")");
            assert(out@ =~= start + (expr_text(callee@) + "("@ + exprs_text(expr_views(arguments@), 0) + ")"@));
        },
        Expr::List { items } => {
            out.append("[");
            write_exprs(items, out);
            out.append("]");
            assert(out@ =~= start + ("["@ + exprs_text(expr_views(items@), 0) + "]"@));
        },
        Expr::Splice { list, is_splice, start: from, end } => {
            let ghost first = optional_text(
                match from {
                    Some(expr) => Some(Box::new(expr@)),
                    None => None,
                },
            );
            let ghost last = optional_text(
                match end {
                    Some(expr) => Some(Box::new(expr@)),
                    None => None,
                },
            );
            out.append(list.lexeme.as_str());
            out.append("[");
            write_optional(from, out);
            if *is_splice {
                out.append(":");
            }
            write_optional(end, out);
            out.append("]");
            assert(out@ =~= start + (list@.lexeme + "["@ + first + if *is_splice {
                ":"@
            } else {
                Seq::empty()
            } + last + "]"@));
        },
        Expr::ListMethodCall { object, call } => {
            out.append(object.lexeme.as_str());
            out.append(".");
            write_expr(call, out);
            assert(out@ =~= start + (object@.lexeme + "."@ + expr_text(call@)));
        },
    }
}

/// Writes the texts of expressions behind `out`, with commas between them.
#[verifier::rlimit(100)]
fn write_exprs(es: &Vec<Expr>, out: &mut String)
    ensures
        final(out)@ == old(out)@ + exprs_text(expr_views(es@), 0),
    decreases es, 0nat,
{
    let ghost start = out@;
    let ghost all = expr_views(es@);
    let mut i: usize = 0;
    while i < es.len()
        invariant
            i <= es.len(),
            all == expr_views(es@),
            out@ + exprs_text(all, i as nat) == start + exprs_text(all, 0),
        decreases es.len() - i,
    {
        let ghost before = out@;
        if i > 0 {
            out.append(", ");
        }
        write_expr(&es[i], out);
        proof {
            let item = expr_text(all[i as int]);
            let rest = exprs_text(all, (i + 1) as nat);
            if i == 0 {
                assert(out@ + rest =~= before + ((Seq::<char>::empty() + item) + rest));
            } else {
                assert(out@ + rest =~= before + ((", "@ + item) + rest));
            }
        }
        i += 1;
    }
    assert(out@ + exprs_text(all, i as nat) =~= out@);
}

/// Writes names behind `out`, with blanks between them.
#[verifier::rlimit(100)]
fn write_names(names: &Vec<Token>, out: &mut String)
    ensures
        final(out)@ == old(out)@ + names_text(token_views(names@), 0),
{
    let ghost start = out@;
    let ghost all = token_views(names@);
    let mut i: usize = 0;
    while i < names.len()
        invariant
            i <= names.len(),
            all == token_views(names@),
            out@ + names_text(all, i as nat) == start + names_text(all, 0),
        decreases names.len() - i,
    {
        let ghost before = out@;
        if i > 0 {
            out.append(" ");
        }
        out.append(names[i].lexeme.as_str());
        proof {
            let item = all[i as int].lexeme;
            let rest = names_text(all, (i + 1) as nat);
            if i == 0 {
                assert(out@ + rest =~= before + ((Seq::<char>::empty() + item) + rest));
            } else {
                assert(out@ + rest =~= before + ((" "@ + item) + rest));
            }
        }
        i += 1;
    }
    assert(out@ + names_text(all, i as nat) =~= out@);
}

/// Writes the text of a statement behind `out`.
#[verifier::rlimit(100)]
fn write_stmt(s: &Stmt, out: &mut String)
    ensures
        final(out)@ == old(out)@ + stmt_text(s@),
    decreases s, 0nat,
{
    let ghost start = out@;
    match s {
        Stmt::Block { statements } => {
            out.append("Block(");
            write_stmts(statements, out);
            out.append(")");
            assert(out@ =~= start + ("Block("@ + stmts_text(stmt_views(statements@), 0) + ")"@));
        },
        Stmt::Expression { expression } => {
            out.append("Expression(");
            write_expr(expression, out);
            out.append(")");
            assert(out@ =~= start + ("Expression("@ + expr_text(expression@) + ")"@));
        },
        Stmt::For { initializer, condition, increment, body } => {
            out.append("For(");
            let ghost first: Seq<char>;
            match initializer {
                Some(init) => {
                    write_stmt(init, out);
                    proof {
                        first = stmt_text(init@);
                    }
                },
                None => {
                    out.append("none");
                    proof {
                        first = "none"@;
                    }
                },
            }
            out.append(" ");
            write_expr(condition, out);
            out.append(" ");
            let ghost third: Seq<char>;
            match increment {
                Some(step) => {
                    write_expr(step, out);
                    proof {
                        third = expr_text(step@);
                    }
                },
                None => {
                    out.append("none");
                    proof {
                        third = "none"@;
                    }
                },
            }
            out.append(" ");
            write_stmt(body, out);
            out.append(")");
            assert(out@ =~= start + ("For("@ + first + " "@ + expr_text(condition@) + " "@ + third + " "@
                + stmt_text(body@) + ")"@));
        },
        Stmt::Function { name, params, body } => {
            out.append("Function(");
            out.append(name.lexeme.as_str());
            out.append(" (");
            write_names(params, out);
            out.append(") ");
            write_stmts(body, out);
            out.append(")");
            assert(out@ =~= start + ("Function("@ + name@.lexeme + " ("@ + names_text(token_views(params@), 0)
                + ") "@ + stmts_text(stmt_views(body@), 0) + ")"@));
        },
        Stmt::If { condition, then_branch, else_branch } => {
            out.append("If(");
            write_expr(condition, out);
            out.append(" ");
            write_stmt(then_branch, out);
            let ghost last: Seq<char>;
            match else_branch {
                Some(other) => {
                    out.append(" ");
                    write_stmt(other, out);
                    proof {
                        last = " "@ + stmt_text(other@);
                    }
                },
                None => {
                    proof {
                        last = Seq::empty();
                    }
                },
            }
            out.append(")");
            assert(out@ =~= start + ("If("@ + expr_text(condition@) + " "@ + stmt_text(then_branch@) + last + ")"@));
        },
        Stmt::Print { expression } => {
            out.append("Print(");
            write_expr(expression, out);
            out.append(")");
            assert(out@ =~= start + ("Print("@ + expr_text(expression@) + ")"@));
        },
        Stmt::Return { keyword: _, value } => {
            out.append("Return(");
            let ghost inner: Seq<char>;
            match value {
                Some(expr) => {
                    write_expr(expr, out);
                    proof {
                        inner = expr_text(expr@);
                    }
                },
                None => {
                    out.append("none");
                    proof {
                        inner = "none"@;
                    }
                },
            }
            out.append(")");
            assert(out@ =~= start + ("Return("@ + inner + ")"@));
        },
        Stmt::Var { name, initializer } => {
            out.append("Var(");
            out.append(name.lexeme.as_str());
            let ghost last: Seq<char>;
            match initializer {
                Some(expr) => {
                    out.append(" ");
                    write_expr(expr, out);
                    proof {
                        last = " "@ + expr_text(expr@);
                    }
                },
                None => {
                    proof {
                        last = Seq::empty();
                    }
                },
            }
            out.append(")");
            assert(out@ =~= start + ("Var("@ + name@.lexeme + last + ")"@));
        },
        Stmt::While { condition, body } => {
            out.append("While(");
            write_expr(condition, out);
            out.append(" ");
            write_stmt(body, out);
            out.append(")");
            assert(out@ =~= start + ("While("@ + expr_text(condition@) + " "@ + stmt_text(body@) + ")"@));
        },
    }
}

/// Writes the texts of statements behind `out`, with blanks between them.
#[verifier::rlimit(100)]
fn write_stmts(ss: &Vec<Stmt>, out: &mut String)
    ensures
        final(out)@ == old(out)@ + stmts_text(stmt_views(ss@), 0),
    decreases ss, 0nat,
{
    let ghost start = out@;
    let ghost all = stmt_views(ss@);
    let mut i: usize = 0;
    while i < ss.len()
        invariant
            i <= ss.len(),
            all == stmt_views(ss@),
            out@ + stmts_text(all, i as nat) == start + stmts_text(all, 0),
        decreases ss.len() - i,
    {
        let ghost before = out@;
        if i > 0 {
            out.append(" ");
        }
        write_stmt(&ss[i], out);
        proof {
            let item = stmt_text(all[i as int]);
            let rest = stmts_text(all, (i + 1) as nat);
            if i == 0 {
                assert(out@ + rest =~= before + ((Seq::<char>::empty() + item) + rest));
            } else {
                assert(out@ + rest =~= before + ((" "@ + item) + rest));
            }
        }
        i += 1;
    }
    assert(out@ + stmts_text(all, i as nat) =~= out@);
}

impl Expr {
    /// The text of the expression.
    pub fn to_text(&self) -> (text: String)
        ensures
            text@ == expr_text(self@),
    {
        let mut text = String::new();
        write_expr(self, &mut text);
        assert(text@ =~= expr_text(self@));
        text
    }
}

impl Stmt {
    /// The text of the statement.
    pub fn to_text(&self) -> (text: String)
        ensures
            text@ == stmt_text(self@),
    {
        let mut text = String::new();
        write_stmt(self, &mut text);
        assert(text@ =~= stmt_text(self@));
        text
    }
}

} // verus!
