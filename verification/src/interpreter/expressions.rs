//! The evaluation of expressions and calls.

use vstd::prelude::*;
use crate::error::InterpreterError;
use crate::expr::{expr_views, Expr};
use crate::interpreter::{binary_result, decides, evaluation, evaluations, unary_result, Interpreter, Outcome, Target};
use crate::semantics;
use crate::stmt::Stmt;
use crate::value::{value_views, Value};

verus! {

impl<'a> Interpreter<'a> {
    /// Evaluates an expression within `fuel` steps.
    #[verifier::rlimit(100)]
    pub fn evaluate(&mut self, expr: &Expr, fuel: usize) -> (result: Result<Value, InterpreterError>)
        requires
            old(self).wf(),
        ensures
            final(self).stands_at(*old(self), semantics::evaluate(expr@, old(self)@, fuel as nat).machine),
            evaluation(result, final(self)@) == semantics::evaluate(expr@, old(self)@, fuel as nat),
        decreases fuel, 3nat,
    {
        proof {
            reveal(semantics::evaluate);
            reveal(semantics::evaluate_all);
            reveal(semantics::evaluate_optional);
            reveal(semantics::apply);
        }
        if fuel == 0 {
            return Err(InterpreterError::StepLimitExceeded);
        }
        let f = fuel - 1;
        match expr {
            Expr::Literal { value } => Ok(Value::Literal(value.clone())),
            Expr::Grouping { expression } => self.evaluate(expression, f),
            Expr::Unary { operator, right } => {
                let v = self.evaluate(right, f)?;
                unary_result(operator, &v)
            },
            Expr::Binary { left, operator, right } => {
                let a = self.evaluate(left, f)?;
                let b = self.evaluate(right, f)?;
                binary_result(operator, &a, &b)
            },
            Expr::Logical { left, operator, right } => {
                let a = self.evaluate(left, f)?;
                if decides(operator, &a)? {
                    Ok(a)
                } else {
                    self.evaluate(right, f)
                }
            },
            Expr::Var { name } => self.variable(name),
            Expr::Assign { name, value } => {
                let v = self.evaluate(value, f)?;
                self.assign(name, v)
            },
            Expr::Alteration { name, alteration_type } => self.alter(name, *alteration_type),
            Expr::Call { callee, arguments } => {
                let target = self.evaluate(callee, f)?;
                let values = self.evaluate_all(arguments, f)?;
                self.apply(&target, values, f)
            },
            Expr::List { items } => {
                let values = self.evaluate_all(items, f)?;
                Ok(self.new_list(values))
            },
            Expr::Splice { list, is_splice, start, end } => {
                self.list_of(list)?;
                let first = self.evaluate_optional(start, f)?;
                let last = self.evaluate_optional(end, f)?;
                if *is_splice {
                    self.slice(list, &first, &last)
                } else {
                    self.element(list, &first)
                }
            },
            Expr::ListMethodCall { object, call } => {
                assert(call@ == crate::expr::expr_view(**call));
                match &**call {
                    Expr::Call { callee, arguments } => {
                        assert(callee@ == crate::expr::expr_view(**callee));
                        match &**callee {
                            Expr::Var { name } => {
                                self.list_of(object)?;
                                let values = self.evaluate_all(arguments, f)?;
                                self.list_method(object, name, values)
                            },
                            _ => Err(InterpreterError::InvalidMethodCall { line: object.line }),
                        }
                    },
                    _ => Err(InterpreterError::InvalidMethodCall { line: object.line }),
                }
            },
        }
    }

    /// Evaluates an expression that may be absent.
    #[verifier::rlimit(100)]
    fn evaluate_optional(&mut self, expr: &Option<Box<Expr>>, fuel: usize) -> (result: Result<
        Option<Value>,
        InterpreterError,
    >)
        requires
            old(self).wf(),
        ensures
            final(self).stands_at(
                *old(self),
                semantics::evaluate_optional(
                    match expr {
                        Some(e) => Some(Box::new(e@)),
                        None => None,
                    },
                    old(self)@,
                    fuel as nat,
                ).machine,
            ),
            (match result {
                Ok(Some(v)) => Ok(Some(v@)),
                Ok(None) => Ok(None),
                Err(e) => Err(e@),
            }) == semantics::evaluate_optional(
                match expr {
                    Some(e) => Some(Box::new(e@)),
                    None => None,
                },
                old(self)@,
                fuel as nat,
            ).result,
        decreases fuel, 4nat,
    {
        proof {
            reveal(semantics::evaluate_optional);
            reveal(semantics::evaluate);
        }
        match expr {
            None => Ok(None),
            Some(e) => {
                let v = self.evaluate(e, fuel)?;
                Ok(Some(v))
            },
        }
    }

    /// Evaluates expressions in a row. The first error ends the row.
    #[verifier::rlimit(100)]
    fn evaluate_all(&mut self, exprs: &Vec<Expr>, fuel: usize) -> (result: Result<Vec<Value>, InterpreterError>)
        requires
            old(self).wf(),
        ensures
            final(self).stands_at(
                *old(self),
                semantics::evaluate_all(expr_views(exprs@), old(self)@, fuel as nat, Seq::empty()).machine,
            ),
            evaluations(result, final(self)@) == semantics::evaluate_all(
                expr_views(exprs@),
                old(self)@,
                fuel as nat,
                Seq::empty(),
            ),
        decreases fuel, 4 + exprs.len(),
    {
        let ghost all = expr_views(exprs@);
        let mut values: Vec<Value> = Vec::new();
        let mut i: usize = 0;
        assert(all.subrange(0, all.len() as int) =~= all);
        assert(value_views(values@) =~= Seq::empty());
        while i < exprs.len()
            invariant
                i <= exprs.len(),
                all == expr_views(exprs@),
                self.wf(),
                self.limit() == old(self).limit(),
                semantics::evaluate_all(all, old(self)@, fuel as nat, Seq::empty()) == semantics::evaluate_all(
                    all.subrange(i as int, all.len() as int),
                    self@,
                    fuel as nat,
                    value_views(values@),
                ),
            decreases exprs.len() - i,
        {
            proof {
                reveal(semantics::evaluate_all);
                reveal(semantics::evaluate);
            }
            let ghost rest = all.subrange(i as int, all.len() as int);
            let ghost sofar = value_views(values@);
            assert(rest[0] == exprs[i as int]@);
            assert(rest.drop_first() =~= all.subrange(i + 1, all.len() as int));
            let v = self.evaluate(&exprs[i], fuel)?;
            values.push(v);
            assert(value_views(values@) =~= sofar.push(v@));
            i += 1;
        }
        proof {
            reveal(semantics::evaluate_all);
        }
        Ok(values)
    }

    /// Applies a value to arguments: the value must name a callable that
    /// takes as many as there are.
    #[verifier::rlimit(100)]
    pub fn apply(&mut self, callee: &Value, arguments: Vec<Value>, fuel: usize) -> (result: Result<
        Value,
        InterpreterError,
    >)
        requires
            old(self).wf(),
        ensures
            final(self).stands_at(
                *old(self),
                semantics::apply(callee@, value_views(arguments@), old(self)@, fuel as nat).machine,
            ),
            evaluation(result, final(self)@) == semantics::apply(
                callee@,
                value_views(arguments@),
                old(self)@,
                fuel as nat,
            ),
        decreases fuel, 2nat,
    {
        proof {
            reveal(semantics::apply);
            reveal(semantics::call);
            reveal(semantics::call_function);
        }
        let (arity, target) = self.target(callee)?;
        if arity != arguments.len() {
            return Err(InterpreterError::ArityMismatch { expected: arity, found: arguments.len() });
        }
        match target {
            Target::Func { func: _, declaration, closure } => self.call_function(
                declaration,
                closure,
                arguments,
                fuel,
            ),
            Target::Native { native: _, fun } => self.call_native(fun, &arguments),
        }
    }

    /// Calls a function of the program: its body runs in a new scope inside
    /// the scope of its definition.
    #[verifier::rlimit(100)]
    pub fn call_function(&mut self, declaration: &'a Stmt, closure: usize, arguments: Vec<Value>, fuel: usize) -> (result:
        Result<Value, InterpreterError>)
        requires
            old(self).wf(),
        ensures
            final(self).stands_at(
                *old(self),
                semantics::call_function(
                    declaration@,
                    closure,
                    value_views(arguments@),
                    old(self)@,
                    fuel as nat,
                ).machine,
            ),
            evaluation(result, final(self)@) == semantics::call_function(
                declaration@,
                closure,
                value_views(arguments@),
                old(self)@,
                fuel as nat,
            ),
        decreases fuel, 0nat,
    {
        proof {
            reveal(semantics::call_function);
            reveal(semantics::execute_all);
        }
        if fuel == 0 {
            return Err(InterpreterError::StepLimitExceeded);
        }
        match declaration {
            Stmt::Function { name: _, params, body } => {
                if closure >= self.scope_count() || self.scope_count() >= usize::MAX {
                    return Err(InterpreterError::UnknownScope);
                }
                let ghost entry = self@;
                let scopes = self.scope_count();
                let callables = self.callable_count();
                let caller = self.active();
                self.enter_function(closure, params, arguments);
                let outcome = self.execute_all(body, fuel - 1);
                self.leave(Ghost(entry), caller, scopes, callables);
                match outcome {
                    Outcome::Completed => Ok(Value::nil()),
                    Outcome::Returned(v) => Ok(v),
                    Outcome::Failed(e) => Err(e),
                }
            },
            _ => Err(InterpreterError::ExpectedDeclarationToBeAFunction),
        }
    }
}

} // verus!
