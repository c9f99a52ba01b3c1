//! The interpreter: a tree walk over the program, proved to compute what
//! [`crate::semantics`] defines.

use vstd::prelude::*;
use vstd::string::*;
use crate::callable::{Func, Function, NativeFunc};
use crate::environment::{text_views, well_formed, Environment};
use crate::error::{InterpreterError, InterpreterErrorView};
use crate::number::{Comparison, Number};
use crate::semantics;
use crate::semantics::{
    CallableView, Evaluation, Evaluations, Execution, FuncView, Machine, Native, NativeFuncView, OutcomeView,
};
use crate::stmt::{stmt_views, Stmt};
use crate::token::{Token, TokenType};
use crate::value::{value_views, LiteralType, Value, ValueView};

mod expressions;
mod statements;

verus! {

/// How a statement ended.
#[derive(Debug)]
pub enum Outcome {
    /// The statement ran to its end.
    Completed,
    /// A `return` was met: the enclosing call ends with this value.
    Returned(Value),
    /// The run is over.
    Failed(InterpreterError),
}

impl View for Outcome {
    type V = OutcomeView;

    open spec fn view(&self) -> OutcomeView {
        match self {
            Outcome::Completed => OutcomeView::Completed,
            Outcome::Returned(v) => OutcomeView::Returned(v@),
            Outcome::Failed(e) => OutcomeView::Failed(e@),
        }
    }
}

/// The interpreter: the machine's state, and the step limit of a run.
pub struct Interpreter<'a> {
    environment: Environment,
    current: usize,
    lists: Vec<Vec<Value>>,
    callables: Vec<Function<'a>>,
    output: Vec<String>,
    limit: usize,
}

/// What a call has to do: run the body of a declaration in a scope inside
/// the scope of its definition, or ask the host.
pub enum Target<'a> {
    Func { func: Ghost<FuncView>, declaration: &'a Stmt, closure: usize },
    Native { native: Ghost<NativeFuncView>, fun: Native },
}

impl<'a> View for Target<'a> {
    type V = CallableView;

    open spec fn view(&self) -> CallableView {
        match self {
            Target::Func { func, declaration, closure } => CallableView::Func(func@),
            Target::Native { native, fun } => CallableView::Native(native@),
        }
    }
}

impl<'a> Target<'a> {
    /// The parts of the target are those of the callable it shows.
    pub open spec fn wf(&self) -> bool {
        match self {
            Target::Func { func, declaration, closure } => declaration@ == func@.declaration && *closure
                == func@.closure,
            Target::Native { native, fun } => *fun == native@.fun,
        }
    }
}

/// The view of an answer.
pub open spec fn answer(result: Result<Value, InterpreterError>) -> Result<ValueView, InterpreterErrorView> {
    match result {
        Ok(v) => Ok(v@),
        Err(e) => Err(e@),
    }
}

/// An answer and the machine behind it, as an evaluation.
pub open spec fn evaluation(result: Result<Value, InterpreterError>, m: Machine) -> Evaluation {
    Evaluation { result: answer(result), machine: m }
}

/// Answers and the machine behind them, as evaluations.
pub open spec fn evaluations(result: Result<Vec<Value>, InterpreterError>, m: Machine) -> Evaluations {
    Evaluations {
        result: match result {
            Ok(values) => Ok(value_views(values@)),
            Err(e) => Err(e@),
        },
        machine: m,
    }
}

/// An outcome and the machine behind it, as an execution.
pub open spec fn execution(outcome: Outcome, m: Machine) -> Execution {
    Execution { outcome: outcome@, machine: m }
}

/// The views of the lists of a store, in order.
pub open spec fn list_views(lists: Seq<Vec<Value>>) -> Seq<Seq<ValueView>> {
    lists.map_values(|l: Vec<Value>| value_views(l@))
}

/// The views of the callables of a store, in order.
pub open spec fn callable_views<'a>(callables: Seq<Function<'a>>) -> Seq<CallableView> {
    callables.map_values(|c: Function<'a>| c@)
}

/// The text `s`.
fn literal(s: &str) -> (owned: String)
    ensures
        owned@ == s@,
{
    String::from_str(s)
}

/// The text of a value that stands in a list.
fn item_text(value: &Value) -> (shown: String)
    ensures
        shown@ == semantics::item_text(value@),
{
    match value {
        Value::Literal(LiteralType::Num(n)) => n.text(),
        Value::Literal(LiteralType::Str(s)) => s.clone(),
        Value::Literal(LiteralType::True) => literal("true"),
        Value::Literal(LiteralType::False) => literal("false"),
        Value::Literal(LiteralType::Null) => literal("null"),
        Value::List(_) => literal("[...]"),
        Value::Callable(_) => literal("<fn>"),
    }
}

/// The text of the items of a list, between brackets.
#[verifier::rlimit(100)]
fn list_text(items: &Vec<Value>) -> (shown: String)
    ensures
        shown@ == "["@ + semantics::items_text(value_views(items@), 0) + "]"@,
{
    let mut shown = literal("[");
    let mut i: usize = 0;
    while i < items.len()
        invariant
            i <= items.len(),
            shown@ + semantics::items_text(value_views(items@), i as nat) == "["@ + semantics::items_text(
                value_views(items@),
                0,
            ),
        decreases items.len() - i,
    {
        let ghost before = shown@;
        let ghost all = value_views(items@);
        let item = item_text(&items[i]);
        if i > 0 {
            shown.append(", ");
        }
        shown.append(item.as_str());
        proof {
            if i == 0 {
                assert(shown@ + semantics::items_text(all, 1) =~= before + (item@ + semantics::items_text(all, 1)));
            } else {
                assert(shown@ + semantics::items_text(all, (i + 1) as nat) =~= before + (", "@ + item@
                    + semantics::items_text(all, (i + 1) as nat)));
            }
        }
        i += 1;
    }
    assert(shown@ + semantics::items_text(value_views(items@), i as nat) =~= shown@);
    shown.append("]");
    shown
}

/// Whether two values are equal.
#[verifier::rlimit(100)]
fn equal(a: &Value, b: &Value) -> (same: bool)
    ensures
        same == semantics::equal(a@, b@),
{
    match (a, b) {
        (Value::Literal(LiteralType::Num(x)), Value::Literal(LiteralType::Num(y))) => match x.compare(*y) {
            Comparison::Equal => true,
            _ => false,
        },
        (Value::Literal(LiteralType::Str(x)), Value::Literal(LiteralType::Str(y))) => *x == *y,
        (Value::Literal(LiteralType::True), Value::Literal(LiteralType::True)) => true,
        (Value::Literal(LiteralType::False), Value::Literal(LiteralType::False)) => true,
        (Value::Literal(LiteralType::Null), Value::Literal(LiteralType::Null)) => true,
        (Value::List(x), Value::List(y)) => *x == *y,
        (Value::Callable(x), Value::Callable(y)) => *x == *y,
        _ => false,
    }
}

/// The result of an operator on two numbers.
#[verifier::rlimit(100)]
fn arithmetic(operator: &Token, a: Number, b: Number) -> (result: Result<Value, InterpreterError>)
    ensures
        answer(result) == semantics::arithmetic(operator@, a, b),
{
    match operator.token_type {
        TokenType::Plus => Ok(Value::number(a.plus(b))),
        TokenType::Minus => Ok(Value::number(a.minus(b))),
        TokenType::Asterisk => Ok(Value::number(a.times(b))),
        TokenType::FSlash => match b.compare(Number::count(0)) {
            Comparison::Equal => Err(InterpreterError::DivisionByZero { line: operator.line }),
            _ => Ok(Value::number(a.over(b))),
        },
        TokenType::Greater => Ok(
            Value::truth(
                match a.compare(b) {
                    Comparison::Greater => true,
                    _ => false,
                },
            ),
        ),
        TokenType::GreaterEqual => Ok(
            Value::truth(
                match a.compare(b) {
                    Comparison::Greater => true,
                    Comparison::Equal => true,
                    _ => false,
                },
            ),
        ),
        TokenType::Less => Ok(
            Value::truth(
                match a.compare(b) {
                    Comparison::Less => true,
                    _ => false,
                },
            ),
        ),
        TokenType::LessEqual => Ok(
            Value::truth(
                match a.compare(b) {
                    Comparison::Less => true,
                    Comparison::Equal => true,
                    _ => false,
                },
            ),
        ),
        _ => Err(InterpreterError::InvalidOperator { operator: operator.token_type, line: operator.line }),
    }
}

/// Whether a token kind is an operator on two numbers.
fn is_arithmetic(kind: TokenType) -> (found: bool)
    ensures
        found == semantics::is_arithmetic(kind),
{
    kind == TokenType::Plus || kind == TokenType::Minus || kind == TokenType::Asterisk || kind == TokenType::FSlash
        || kind == TokenType::Greater || kind == TokenType::GreaterEqual || kind == TokenType::Less || kind
        == TokenType::LessEqual
}

/// The result of a unary operator.
pub fn unary_result(operator: &Token, value: &Value) -> (result: Result<Value, InterpreterError>)
    ensures
        answer(result) == semantics::unary_result(operator@, value@),
{
    match operator.token_type {
        TokenType::Bang => Ok(Value::truth(!value.is_truthy())),
        TokenType::Minus => match value {
            Value::Literal(LiteralType::Num(n)) => Ok(Value::number(n.negated())),
            _ => Err(InterpreterError::InvalidOperand { operator: operator.token_type, line: operator.line }),
        },
        _ => Err(InterpreterError::InvalidOperator { operator: operator.token_type, line: operator.line }),
    }
}

/// The result of a binary operator.
#[verifier::rlimit(100)]
pub fn binary_result(operator: &Token, a: &Value, b: &Value) -> (result: Result<Value, InterpreterError>)
    ensures
        answer(result) == semantics::binary_result(operator@, a@, b@),
{
    let kind = operator.token_type;
    if kind == TokenType::EqualEqual {
        return Ok(Value::truth(equal(a, b)));
    }
    if kind == TokenType::BangEqual {
        return Ok(Value::truth(!equal(a, b)));
    }
    if !is_arithmetic(kind) {
        return Err(InterpreterError::InvalidOperator { operator: kind, line: operator.line });
    }
    match (a, b) {
        (Value::Literal(LiteralType::Num(x)), Value::Literal(LiteralType::Num(y))) => arithmetic(operator, *x, *y),
        (Value::Literal(LiteralType::Str(x)), Value::Literal(LiteralType::Str(y))) => {
            if kind == TokenType::Plus {
                Ok(Value::text(x.clone().concat(y.as_str())))
            } else {
                Err(InterpreterError::InvalidOperands { operator: kind, line: operator.line })
            }
        },
        _ => Err(InterpreterError::InvalidOperands { operator: kind, line: operator.line }),
    }
}

/// Whether the left operand decides a short-circuiting operator.
pub fn decides(operator: &Token, lhs: &Value) -> (result: Result<bool, InterpreterError>)
    ensures
        match result {
            Ok(b) => semantics::decides(operator@, lhs@) == Ok::<bool, InterpreterErrorView>(b),
            Err(e) => semantics::decides(operator@, lhs@) == Err::<bool, InterpreterErrorView>(e@),
        },
{
    match operator.token_type {
        TokenType::Or => Ok(lhs.is_truthy()),
        TokenType::And => Ok(!lhs.is_truthy()),
        _ => Err(InterpreterError::InvalidOperator { operator: operator.token_type, line: operator.line }),
    }
}

/// The number of arguments that a list method takes, if it is one.
fn method_arity(method: &String) -> (arity: Option<usize>)
    ensures
        arity == semantics::method_arity(method@),
{
    if *method == literal("push") {
        Some(1)
    } else if *method == literal("pop") || *method == literal("length") {
        Some(0)
    } else {
        None
    }
}

/// The place that a value names in a list.
#[verifier::rlimit(100)]
fn slice_end(at: &Option<Value>, default: usize, line: usize) -> (result: Result<usize, InterpreterError>)
    ensures
        match result {
            Ok(i) => semantics::slice_end(
                match at {
                    Some(v) => Some(v@),
                    None => None,
                },
                default,
                line,
            ) == Ok::<usize, InterpreterErrorView>(i),
            Err(e) => semantics::slice_end(
                match at {
                    Some(v) => Some(v@),
                    None => None,
                },
                default,
                line,
            ) == Err::<usize, InterpreterErrorView>(e@),
        },
{
    match at {
        None => Ok(default),
        Some(Value::Literal(LiteralType::Num(n))) => match n.index() {
            Some(i) => Ok(i),
            None => Err(InterpreterError::IndexOutOfBounds { line }),
        },
        Some(_) => Err(InterpreterError::InvalidIndex { line }),
    }
}

/// The items of `items` from `start` up to `end`.
#[verifier::rlimit(100)]
fn copy_range(items: &Vec<Value>, start: usize, end: usize) -> (copy: Vec<Value>)
    requires
        start <= end <= items.len(),
    ensures
        value_views(copy@) == value_views(items@).subrange(start as int, end as int),
{
    let mut copy: Vec<Value> = Vec::new();
    let mut i = start;
    while i < end
        invariant
            start <= i <= end <= items.len(),
            value_views(copy@) =~= value_views(items@).subrange(start as int, i as int),
        decreases end - i,
    {
        let ghost sofar = value_views(copy@);
        let item = items[i].clone();
        copy.push(item);
        assert(value_views(copy@) =~= sofar.push(item@));
        i += 1;
    }
    copy
}

impl<'a> View for Interpreter<'a> {
    type V = Machine;

    closed spec fn view(&self) -> Machine {
        Machine {
            scopes: self.environment@,
            current: self.current,
            lists: list_views(self.lists@),
            callables: callable_views(self.callables@),
            output: text_views(self.output@),
        }
    }
}

impl<'a> Interpreter<'a> {
    /// The scopes of the machine are well formed.
    pub open spec fn wf(&self) -> bool {
        well_formed(self@.scopes)
    }

    /// The step limit of a run.
    pub closed spec fn limit(&self) -> usize {
        self.limit
    }

    /// The interpreter has the machine `m` behind it, and is as sound and
    /// as limited as `before`.
    pub open spec fn stands_at(&self, before: Interpreter<'a>, m: Machine) -> bool {
        &&& self.wf()
        &&& self.limit() == before.limit()
        &&& self@ == m
    }

    /// An interpreter on the machine that a program starts on, with the
    /// greatest step limit there is.
    #[verifier::rlimit(100)]
    pub fn new() -> (interpreter: Interpreter<'a>)
        ensures
            interpreter.wf(),
            interpreter@ == semantics::start(),
            interpreter.limit() == usize::MAX,
    {
        let mut environment = Environment::new();
        environment.define(0, literal("len"), Value::Callable(0));
        environment.define(0, literal("str"), Value::Callable(1));
        let mut callables: Vec<Function<'a>> = Vec::new();
        callables.push(Function::Native(NativeFunc::new(literal("len"), 1, Native::Len)));
        callables.push(Function::Native(NativeFunc::new(literal("str"), 1, Native::Str)));
        let interpreter = Interpreter {
            environment,
            current: 0,
            lists: Vec::new(),
            callables,
            output: Vec::new(),
            limit: usize::MAX,
        };
        proof {
            reveal_strlit("len");
            reveal_strlit("str");
            reveal_with_fuel(crate::environment::find_from, 3);
            assert("len"@[0] != "str"@[0]);
            let m = interpreter@;
            let s = semantics::start();
            assert(m.lists =~= s.lists);
            assert(m.output =~= s.output);
            assert(m.callables =~= s.callables);
            assert(m.scopes[0].names =~= s.scopes[0].names);
            assert(m.scopes[0].values =~= s.scopes[0].values);
            assert(m.scopes =~= s.scopes);
        }
        interpreter
    }

    /// The same interpreter with another step limit.
    pub fn with_limit(self, limit: usize) -> (interpreter: Interpreter<'a>)
        ensures
            interpreter@ == self@,
            interpreter.wf() == self.wf(),
            interpreter.limit() == limit,
    {
        Interpreter { limit, ..self }
    }

    /// The step limit of a run.
    pub fn step_limit(&self) -> (limit: usize)
        ensures
            limit == self.limit(),
    {
        self.limit
    }

    /// The lines printed so far.
    pub fn output(&self) -> (lines: &Vec<String>)
        ensures
            text_views(lines@) == self@.output,
    {
        &self.output
    }

    /// The items of the list that `value` names, if it names one.
    #[verifier::rlimit(100)]
    pub fn items(&self, value: &Value) -> (items: Option<&Vec<Value>>)
        ensures
            match value@ {
                ValueView::List(h) if h < self@.lists.len() => items matches Some(list) && value_views(list@)
                    == self@.lists[h as int],
                _ => items is None,
            },
    {
        match value {
            Value::List(h) => if *h < self.lists.len() {
                Some(&self.lists[*h])
            } else {
                None
            },
            _ => None,
        }
    }

    /// The text of a value, as `print` writes it.
    pub fn value_text(&self, value: &Value) -> (shown: String)
        ensures
            shown@ == semantics::value_text(value@, self@),
    {
        match value {
            Value::List(h) => if *h < self.lists.len() {
                list_text(&self.lists[*h])
            } else {
                literal("[...]")
            },
            _ => item_text(value),
        }
    }

    /// The value of a variable, seen from the active scope.
    pub fn variable(&self, name: &Token) -> (result: Result<Value, InterpreterError>)
        requires
            self.wf(),
        ensures
            evaluation(result, self@) == semantics::variable(name@, self@),
    {
        self.environment.get(self.current, name)
    }

    /// Assigns `value` to the variable `name`, seen from the active scope.
    pub fn assign(&mut self, name: &Token, value: Value) -> (result: Result<Value, InterpreterError>)
        requires
            old(self).wf(),
        ensures
            final(self).stands_at(*old(self), semantics::assign(name@, value@, old(self)@).machine),
            evaluation(result, final(self)@) == semantics::assign(name@, value@, old(self)@),
    {
        let kept = value.clone();
        match self.environment.assign(self.current, name, value) {
            Ok(()) => Ok(kept),
            Err(e) => Err(e),
        }
    }

    /// `name++` or `name--`.
    #[verifier::rlimit(100)]
    pub fn alter(&mut self, name: &Token, kind: TokenType) -> (result: Result<Value, InterpreterError>)
        requires
            old(self).wf(),
        ensures
            final(self).stands_at(*old(self), semantics::alter(name@, kind, old(self)@).machine),
            evaluation(result, final(self)@) == semantics::alter(name@, kind, old(self)@),
    {
        match self.environment.get(self.current, name) {
            Err(e) => Err(e),
            Ok(Value::Literal(LiteralType::Num(n))) => {
                let altered = if kind == TokenType::Incr {
                    n.plus(Number::one())
                } else if kind == TokenType::Decr {
                    n.minus(Number::one())
                } else {
                    return Err(InterpreterError::InvalidOperator { operator: kind, line: name.line });
                };
                let _ = self.environment.assign(self.current, name, Value::number(altered));
                Ok(Value::number(n))
            },
            Ok(_) => Err(InterpreterError::InvalidOperand { operator: kind, line: name.line }),
        }
    }

    /// Defines `name` in the active scope.
    pub fn declare(&mut self, name: &Token, value: Value) -> (outcome: Outcome)
        requires
            old(self).wf(),
        ensures
            final(self).stands_at(*old(self), semantics::declare(name@.lexeme, value@, old(self)@).machine),
            execution(outcome, final(self)@) == semantics::declare(name@.lexeme, value@, old(self)@),
    {
        if self.current < self.environment.len() {
            self.environment.define(self.current, name.lexeme.clone(), value);
            Outcome::Completed
        } else {
            Outcome::Failed(InterpreterError::UnknownScope)
        }
    }

    /// Makes a new list of `items`.
    pub fn new_list(&mut self, items: Vec<Value>) -> (list: Value)
        requires
            old(self).wf(),
        ensures
            final(self).stands_at(*old(self), semantics::new_list(value_views(items@), old(self)@).machine),
            evaluation(Ok(list), final(self)@) == semantics::new_list(value_views(items@), old(self)@),
    {
        let list = Value::List(self.lists.len());
        self.lists.push(items);
        assert(self@.lists =~= old(self)@.lists.push(value_views(items@)));
        list
    }

    /// The list that a variable names.
    #[verifier::rlimit(100)]
    fn list_of(&self, name: &Token) -> (result: Result<usize, InterpreterError>)
        requires
            self.wf(),
        ensures
            match result {
                Ok(h) => semantics::list_of(name@, self@) == Ok::<usize, InterpreterErrorView>(h) && h
                    < self.lists.len(),
                Err(e) => semantics::list_of(name@, self@) == Err::<usize, InterpreterErrorView>(e@),
            },
    {
        match self.environment.get(self.current, name) {
            Err(e) => Err(e),
            Ok(Value::List(h)) => if h < self.lists.len() {
                Ok(h)
            } else {
                Err(InterpreterError::UnknownList)
            },
            Ok(_) => Err(InterpreterError::NotAList { name: name.lexeme.clone(), line: name.line }),
        }
    }

    /// The item of the list `name` at the place that `at` names.
    #[verifier::rlimit(100)]
    pub fn element(&self, name: &Token, at: &Option<Value>) -> (result: Result<Value, InterpreterError>)
        requires
            self.wf(),
        ensures
            evaluation(result, self@) == semantics::element(
                name@,
                match at {
                    Some(v) => Some(v@),
                    None => None,
                },
                self@,
            ),
    {
        let h = self.list_of(name)?;
        match at {
            None => Err(InterpreterError::InvalidIndex { line: name.line }),
            Some(Value::Literal(LiteralType::Num(n))) => match n.index() {
                Some(i) => if i < self.lists[h].len() {
                    Ok(self.lists[h][i].clone())
                } else {
                    Err(InterpreterError::IndexOutOfBounds { line: name.line })
                },
                None => Err(InterpreterError::IndexOutOfBounds { line: name.line }),
            },
            Some(_) => Err(InterpreterError::InvalidIndex { line: name.line }),
        }
    }

    /// A new list with the items of the list `name` from `from` up to, not
    /// including, `to`.
    #[verifier::rlimit(100)]
    pub fn slice(&mut self, name: &Token, from: &Option<Value>, to: &Option<Value>) -> (result: Result<
        Value,
        InterpreterError,
    >)
        requires
            old(self).wf(),
        ensures
            final(self).stands_at(
                *old(self),
                semantics::slice(
                    name@,
                    match from {
                        Some(v) => Some(v@),
                        None => None,
                    },
                    match to {
                        Some(v) => Some(v@),
                        None => None,
                    },
                    old(self)@,
                ).machine,
            ),
            evaluation(result, final(self)@) == semantics::slice(
                name@,
                match from {
                    Some(v) => Some(v@),
                    None => None,
                },
                match to {
                    Some(v) => Some(v@),
                    None => None,
                },
                old(self)@,
            ),
    {
        let h = self.list_of(name)?;
        let start = slice_end(from, 0, name.line)?;
        let end = slice_end(to, self.lists[h].len(), name.line)?;
        if start <= end && end <= self.lists[h].len() {
            let items = copy_range(&self.lists[h], start, end);
            Ok(self.new_list(items))
        } else {
            Err(InterpreterError::IndexOutOfBounds { line: name.line })
        }
    }

    /// A method of the list `object`.
    #[verifier::rlimit(100)]
    pub fn list_method(&mut self, object: &Token, method: &Token, arguments: Vec<Value>) -> (result: Result<
        Value,
        InterpreterError,
    >)
        requires
            old(self).wf(),
        ensures
            final(self).stands_at(
                *old(self),
                semantics::list_method(object@, method@, value_views(arguments@), old(self)@).machine,
            ),
            evaluation(result, final(self)@) == semantics::list_method(
                object@,
                method@,
                value_views(arguments@),
                old(self)@,
            ),
    {
        let h = self.list_of(object)?;
        let arity = match method_arity(&method.lexeme) {
            Some(arity) => arity,
            None => {
                return Err(InterpreterError::UnknownListMethod { name: method.lexeme.clone(), line: method.line });
            },
        };
        if arguments.len() != arity {
            return Err(InterpreterError::ArityMismatch { expected: arity, found: arguments.len() });
        }
        let ghost before = self@.lists;
        let ghost items = self@.lists[h as int];
        if method.lexeme == literal("push") {
            let item = arguments[0].clone();
            self.lists[h].push(item);
            assert(value_views(self.lists[h as int]@) =~= items.push(item@));
            assert(self@.lists =~= before.update(h as int, items.push(item@)));
            Ok(Value::nil())
        } else if method.lexeme == literal("pop") {
            match self.lists[h].pop() {
                None => {
                    assert(value_views(self.lists[h as int]@) =~= items);
                    assert(self@.lists =~= before);
                    Err(InterpreterError::EmptyList { line: method.line })
                },
                Some(last) => {
                    assert(value_views(self.lists[h as int]@) =~= items.drop_last());
                    assert(self@.lists =~= before.update(h as int, items.drop_last()));
                    Ok(last)
                },
            }
        } else {
            Ok(Value::number(Number::count(self.lists[h].len())))
        }
    }

    /// Calls a function of the host.
    #[verifier::rlimit(100)]
    pub fn call_native(&self, fun: Native, arguments: &Vec<Value>) -> (result: Result<Value, InterpreterError>)
        ensures
            answer(result) == semantics::native_call(fun, value_views(arguments@), self@),
    {
        if arguments.len() == 0 {
            return Err(InterpreterError::InvalidArgument);
        }
        let arg = &arguments[0];
        match fun {
            Native::Len => match arg {
                Value::List(h) => if *h < self.lists.len() {
                    Ok(Value::number(Number::count(self.lists[*h].len())))
                } else {
                    Err(InterpreterError::UnknownList)
                },
                Value::Literal(LiteralType::Str(s)) => Ok(Value::number(Number::count(s.as_str().unicode_len()))),
                _ => Err(InterpreterError::InvalidArgument),
            },
            Native::Str => Ok(Value::text(self.value_text(arg))),
        }
    }

    /// Prints a value: its text is one more line of the output.
    pub fn print(&mut self, value: &Value)
        requires
            old(self).wf(),
        ensures
            final(self).stands_at(*old(self), semantics::printed(value@, old(self)@)),
    {
        let line = self.value_text(value);
        self.output.push(line);
        assert(self@.output =~= old(self)@.output.push(line@));
    }

    /// Opens a scope inside the active one and makes it the active scope.
    /// Gives the scope that was active.
    fn enter_block(&mut self) -> (around: usize)
        requires
            old(self).wf(),
            old(self)@.current < old(self)@.scopes.len(),
        ensures
            final(self).stands_at(*old(self), semantics::nested(old(self)@)),
            around == old(self)@.current,
    {
        let around = self.current;
        self.current = self.environment.open_scope(around);
        around
    }

    /// Leaves a block or a call that was entered on the machine `entry`.
    fn leave(&mut self, Ghost(entry): Ghost<Machine>, current: usize, scopes: usize, callables: usize)
        requires
            old(self).wf(),
            current == entry.current,
            scopes == entry.scopes.len(),
            callables == entry.callables.len(),
        ensures
            final(self).stands_at(*old(self), semantics::released(entry, old(self)@)),
    {
        if self.callables.len() == callables && scopes <= self.environment.len() {
            self.environment.truncate(scopes);
        }
        self.current = current;
    }

    /// The number of callables.
    fn callable_count(&self) -> (n: usize)
        ensures
            n == self@.callables.len(),
    {
        self.callables.len()
    }

    /// The scope that is active.
    fn active(&self) -> (scope: usize)
        ensures
            scope == self@.current,
    {
        self.current
    }

    /// The number of scopes in the store.
    pub fn scope_count(&self) -> (n: usize)
        ensures
            n == self@.scopes.len(),
    {
        self.environment.len()
    }

    /// What a value names that can be called: its arity, and what a call
    /// has to do.
    #[verifier::rlimit(100)]
    fn target(&self, callee: &Value) -> (result: Result<(usize, Target<'a>), InterpreterError>)
        ensures
            match callee@ {
                ValueView::Callable(h) => if h < self@.callables.len() {
                    &&& result matches Ok((arity, target))
                    &&& arity == semantics::arity(self@.callables[h as int])
                    &&& target@ == self@.callables[h as int]
                    &&& target.wf()
                } else {
                    result matches Err(e) && e@ == InterpreterErrorView::UnknownCallable
                },
                _ => result matches Err(e) && e@ == InterpreterErrorView::NotCallable,
            },
    {
        match callee {
            Value::Callable(h) => if *h < self.callables.len() {
                match &self.callables[*h] {
                    Function::Func(func) => Ok(
                        (
                            func.arity(),
                            Target::Func { func: Ghost(func@), declaration: func.declaration(), closure: func.closure() },
                        ),
                    ),
                    Function::Native(native) => Ok(
                        (native.arity(), Target::Native { native: Ghost(native@), fun: native.fun() }),
                    ),
                }
            } else {
                Err(InterpreterError::UnknownCallable)
            },
            _ => Err(InterpreterError::NotCallable),
        }
    }

    /// Whether a scope can be opened inside the active one.
    fn can_nest(&self) -> (able: bool)
        ensures
            able == !(self@.current >= self@.scopes.len() || self@.scopes.len() >= usize::MAX),
    {
        self.current < self.environment.len() && self.environment.len() < usize::MAX
    }

    /// Declares a function: the active scope binds its name to a new
    /// callable, which keeps the active scope as the scope of its
    /// definition.
    #[verifier::rlimit(100)]
    fn declare_function(&mut self, declaration: &'a Stmt) -> (outcome: Outcome)
        requires
            old(self).wf(),
            declaration is Function,
        ensures
            final(self).wf(),
            final(self).limit() == old(self).limit(),
            declaration@ matches crate::stmt::StmtView::Function { name, params, body } && execution(
                outcome,
                final(self)@,
            ) == (if old(self)@.current >= old(self)@.scopes.len() || old(self)@.callables.len() >= usize::MAX {
                semantics::aborted(InterpreterErrorView::UnknownScope, old(self)@)
            } else {
                semantics::completed(semantics::declared(declaration@, name, params, old(self)@))
            }),
    {
        if self.current >= self.environment.len() || self.callables.len() >= usize::MAX {
            return Outcome::Failed(InterpreterError::UnknownScope);
        }
        match declaration {
            Stmt::Function { name, params, body: _ } => {
                match Func::new(declaration, self.current) {
                    Ok(func) => {
                        let handle = self.callables.len();
                        self.callables.push(Function::Func(func));
                        self.environment.define(self.current, name.lexeme.clone(), Value::Callable(handle));
                        assert(self@.callables =~= old(self)@.callables.push(CallableView::Func(func@)));
                        Outcome::Completed
                    },
                    Err(e) => Outcome::Failed(e),
                }
            },
            _ => Outcome::Failed(InterpreterError::ExpectedFunctionStatementForDeclaration),
        }
    }

    /// Opens the scope of a call inside the scope `closure`, binds the
    /// parameters to the arguments in it and makes it the active scope.
    #[verifier::rlimit(100)]
    fn enter_function(&mut self, closure: usize, params: &Vec<Token>, arguments: Vec<Value>)
        requires
            old(self).wf(),
            closure < old(self)@.scopes.len(),
            old(self)@.scopes.len() < usize::MAX,
        ensures
            final(self).stands_at(
                *old(self),
                semantics::entered(
                    closure,
                    crate::token::token_views(params@),
                    value_views(arguments@),
                    old(self)@,
                ),
            ),
    {
        let scope = self.environment.open_scope(closure);
        let ghost opened = self.environment@;
        let ghost names = crate::token::token_views(params@);
        let ghost values = value_views(arguments@);
        let mut i: usize = 0;
        while i < params.len() && i < arguments.len()
            invariant
                self.environment.wf(),
                scope < self.environment@.len(),
                names == crate::token::token_views(params@),
                values == value_views(arguments@),
                semantics::bind(opened, scope as nat, names, values, 0) == semantics::bind(
                    self.environment@,
                    scope as nat,
                    names,
                    values,
                    i as nat,
                ),
                self.limit == old(self).limit,
                self.current == old(self).current,
                self.lists == old(self).lists,
                self.callables == old(self).callables,
                self.output == old(self).output,
            decreases params.len() - i,
        {
            self.environment.define(scope, params[i].lexeme.clone(), arguments[i].clone());
            i += 1;
        }
        self.current = scope;
    }

    /// Runs a program: its statements in a row, in the global scope, within
    /// the step limit.
    pub fn interpret(&mut self, program: &'a Vec<Stmt>) -> (result: Result<(), InterpreterError>)
        requires
            old(self).wf(),
        ensures
            final(self).stands_at(
                *old(self),
                semantics::run(stmt_views(program@), old(self)@, old(self).limit() as nat).machine,
            ),
            match semantics::run(stmt_views(program@), old(self)@, old(self).limit() as nat).outcome {
                OutcomeView::Failed(e) => result matches Err(error) && error@ == e,
                _ => result is Ok,
            },
    {
        let fuel = self.limit;
        match self.execute_all(program, fuel) {
            Outcome::Completed => Ok(()),
            Outcome::Returned(_) => Err(InterpreterError::ReturnOutsideFunction),
            Outcome::Failed(e) => Err(e),
        }
    }
}

} // verus!
