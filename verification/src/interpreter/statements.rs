//! The execution of statements.

use vstd::prelude::*;
use crate::error::InterpreterError;
use crate::expr::Expr;
use crate::interpreter::{execution, Interpreter, Outcome};
use crate::semantics;
use crate::stmt::{optional_expr_view, stmt_views, Stmt};
use crate::value::Value;

verus! {

impl<'a> Interpreter<'a> {
    /// Executes a statement within `fuel` steps.
    #[verifier::rlimit(100)]
    pub fn execute(&mut self, stmt: &'a Stmt, fuel: usize) -> (outcome: Outcome)
        requires
            old(self).wf(),
        ensures
            final(self).stands_at(*old(self), semantics::execute(stmt@, old(self)@, fuel as nat).machine),
            execution(outcome, final(self)@) == semantics::execute(stmt@, old(self)@, fuel as nat),
        decreases fuel, 3nat,
    {
        proof {
            reveal(semantics::execute);
            reveal(semantics::evaluate);
            reveal(semantics::execute_all);
            reveal(semantics::repeat);
        }
        if fuel == 0 {
            return Outcome::Failed(InterpreterError::StepLimitExceeded);
        }
        let f = fuel - 1;
        match stmt {
            Stmt::Expression { expression } => match self.evaluate(expression, f) {
                Ok(_) => Outcome::Completed,
                Err(e) => Outcome::Failed(e),
            },
            Stmt::Print { expression } => match self.evaluate(expression, f) {
                Ok(v) => {
                    self.print(&v);
                    Outcome::Completed
                },
                Err(e) => Outcome::Failed(e),
            },
            Stmt::Var { name, initializer } => match initializer {
                None => self.declare(name, Value::nil()),
                Some(init) => match self.evaluate(init, f) {
                    Ok(v) => self.declare(name, v),
                    Err(e) => Outcome::Failed(e),
                },
            },
            Stmt::Block { statements } => {
                if !self.can_nest() {
                    return Outcome::Failed(InterpreterError::UnknownScope);
                }
                let ghost entry = self@;
                let scopes = self.scope_count();
                let callables = self.callable_count();
                let around = self.enter_block();
                let outcome = self.execute_all(statements, f);
                self.leave(Ghost(entry), around, scopes, callables);
                outcome
            },
            Stmt::If { condition, then_branch, else_branch } => match self.evaluate(condition, f) {
                Err(e) => Outcome::Failed(e),
                Ok(v) => if v.is_truthy() {
                    self.execute(then_branch, f)
                } else {
                    match else_branch {
                        Some(other) => self.execute(other, f),
                        None => Outcome::Completed,
                    }
                },
            },
            Stmt::While { condition, body } => self.repeat(condition, &None, body, f),
            Stmt::For { initializer, condition, increment, body } => match initializer {
                None => self.repeat(condition, increment, body, f),
                Some(init) => match self.execute(init, f) {
                    Outcome::Completed => self.repeat(condition, increment, body, f),
                    other => other,
                },
            },
            Stmt::Function { name: _, params: _, body: _ } => self.declare_function(stmt),
            Stmt::Return { keyword: _, value } => match value {
                None => Outcome::Returned(Value::nil()),
                Some(expr) => match self.evaluate(expr, f) {
                    Ok(v) => Outcome::Returned(v),
                    Err(e) => Outcome::Failed(e),
                },
            },
        }
    }

    /// Executes statements in a row, in the active scope. The first that
    /// does not run to its end ends the row.
    #[verifier::rlimit(100)]
    pub fn execute_all(&mut self, stmts: &'a Vec<Stmt>, fuel: usize) -> (outcome: Outcome)
        requires
            old(self).wf(),
        ensures
            final(self).stands_at(
                *old(self),
                semantics::execute_all(stmt_views(stmts@), old(self)@, fuel as nat).machine,
            ),
            execution(outcome, final(self)@) == semantics::execute_all(stmt_views(stmts@), old(self)@, fuel as nat),
        decreases fuel, 4 + stmts.len(),
    {
        let ghost all = stmt_views(stmts@);
        let mut i: usize = 0;
        assert(all.subrange(0, all.len() as int) =~= all);
        while i < stmts.len()
            invariant
                i <= stmts.len(),
                all == stmt_views(stmts@),
                self.wf(),
                self.limit() == old(self).limit(),
                semantics::execute_all(all, old(self)@, fuel as nat) == semantics::execute_all(
                    all.subrange(i as int, all.len() as int),
                    self@,
                    fuel as nat,
                ),
            decreases stmts.len() - i,
        {
            proof {
                reveal(semantics::execute_all);
                reveal(semantics::execute);
            }
            let ghost rest = all.subrange(i as int, all.len() as int);
            assert(rest[0] == stmts[i as int]@);
            assert(rest.drop_first() =~= all.subrange(i + 1, all.len() as int));
            match self.execute(&stmts[i], fuel) {
                Outcome::Completed => {},
                other => {
                    return other;
                },
            }
            i += 1;
        }
        proof {
            reveal(semantics::execute_all);
        }
        Outcome::Completed
    }

    /// Executes a loop: while the condition holds, the body and then the
    /// increment, if there is one.
    #[verifier::rlimit(100)]
    fn repeat(&mut self, condition: &Expr, increment: &Option<Expr>, body: &'a Stmt, fuel: usize) -> (outcome:
        Outcome)
        requires
            old(self).wf(),
        ensures
            final(self).stands_at(
                *old(self),
                semantics::repeat(
                    condition@,
                    optional_expr_view(*increment),
                    body@,
                    old(self)@,
                    fuel as nat,
                ).machine,
            ),
            execution(outcome, final(self)@) == semantics::repeat(
                condition@,
                optional_expr_view(*increment),
                body@,
                old(self)@,
                fuel as nat,
            ),
        decreases fuel, 0nat,
    {
        let mut remaining = fuel;
        loop
            invariant
                remaining <= fuel,
                self.wf(),
                self.limit() == old(self).limit(),
                semantics::repeat(condition@, optional_expr_view(*increment), body@, old(self)@, fuel as nat)
                    == semantics::repeat(
                    condition@,
                    optional_expr_view(*increment),
                    body@,
                    self@,
                    remaining as nat,
                ),
            decreases remaining,
        {
            proof {
                reveal(semantics::repeat);
                reveal(semantics::evaluate);
                reveal(semantics::execute);
            }
            if remaining == 0 {
                return Outcome::Failed(InterpreterError::StepLimitExceeded);
            }
            let f = remaining - 1;
            match self.evaluate(condition, f) {
                Err(e) => {
                    return Outcome::Failed(e);
                },
                Ok(v) => {
                    if !v.is_truthy() {
                        return Outcome::Completed;
                    }
                },
            }
            match self.execute(body, f) {
                Outcome::Completed => {},
                other => {
                    return other;
                },
            }
            match increment {
                None => {},
                Some(step) => match self.evaluate(step, f) {
                    Ok(_) => {},
                    Err(e) => {
                        return Outcome::Failed(e);
                    },
                },
            }
            remaining = f;
        }
    }
}

} // verus!
