//! What a program means: the value of every expression and the effect of
//! every statement, as functions on the state of an abstract machine.
//!
//! Evaluation is bounded by a step limit. Each descent into a nested
//! expression or statement, each turn of a loop and each call takes one step;
//! where none is left, evaluation ends with `StepLimitExceeded`.
//!
//! A block and a call open a scope, and let it go when they end, however
//! they end, unless a function was declared in the meantime: the function
//! keeps the scope of its definition, and the scopes around it.

use vstd::prelude::*;
use crate::environment::{assigned, defined, extended, lookup, undefined, ScopeView};
use crate::error::InterpreterErrorView;
use crate::expr::ExprView;
use crate::number::{Comparison, Number};
use crate::stmt::StmtView;
use crate::token::{TokenType, TokenView};
use crate::value::{nil, number, text, truth, truthy, LiteralView, ValueView};

verus! {

/// The operations that the host provides. The set is closed: a function of
/// the host is one of these, known under a name and with an arity, and an
/// embedding program cannot add an operation of its own.
#[derive(Clone, Copy, Debug, PartialEq, Eq, Structural)]
pub enum Native {
    /// The number of items of a list, or of characters of a text.
    Len,
    /// The text of a value.
    Str,
}

/// The mathematical value of a function of the program: its declaration,
/// and the scope in which the declaration was executed.
pub struct FuncView {
    pub name: Seq<char>,
    pub declaration: StmtView,
    pub arity: usize,
    pub closure: usize,
}

/// The mathematical value of a function of the host.
pub struct NativeFuncView {
    pub name: Seq<char>,
    pub arity: usize,
    pub fun: Native,
}

/// The mathematical value of something that can be called.
pub enum CallableView {
    Func(FuncView),
    Native(NativeFuncView),
}

/// The state of the machine: the scopes and the one that is active, the
/// lists and the callables that values name, and the lines printed so far.
pub struct Machine {
    pub scopes: Seq<ScopeView>,
    pub current: usize,
    pub lists: Seq<Seq<ValueView>>,
    pub callables: Seq<CallableView>,
    pub output: Seq<Seq<char>>,
}

/// What evaluating an expression gives: its value or an error, and the
/// machine afterwards.
pub struct Evaluation {
    pub result: Result<ValueView, InterpreterErrorView>,
    pub machine: Machine,
}

/// How a statement ended.
pub enum OutcomeView {
    /// The statement ran to its end.
    Completed,
    /// A `return` was met: the enclosing call ends with this value.
    Returned(ValueView),
    /// The run is over.
    Failed(InterpreterErrorView),
}

/// What executing a statement gives: how it ended, and the machine
/// afterwards.
pub struct Execution {
    pub outcome: OutcomeView,
    pub machine: Machine,
}

/// What evaluating a list of expressions gives.
pub struct Evaluations {
    pub result: Result<Seq<ValueView>, InterpreterErrorView>,
    pub machine: Machine,
}

/// A value, with the machine as it is.
pub open spec fn value(v: ValueView, m: Machine) -> Evaluation {
    Evaluation { result: Ok(v), machine: m }
}

/// An error, with the machine as it is.
pub open spec fn error(e: InterpreterErrorView, m: Machine) -> Evaluation {
    Evaluation { result: Err(e), machine: m }
}

/// The end of a statement that ran through.
pub open spec fn completed(m: Machine) -> Execution {
    Execution { outcome: OutcomeView::Completed, machine: m }
}

/// The end of a statement that failed.
pub open spec fn aborted(e: InterpreterErrorView, m: Machine) -> Execution {
    Execution { outcome: OutcomeView::Failed(e), machine: m }
}

/// The machine a program starts on: the global scope, which binds the names
/// of the host's functions.
pub open spec fn start() -> Machine {
    let len = ValueView::Callable(0);
    let str = ValueView::Callable(1);
    Machine {
        scopes: seq![ScopeView { parent: None, names: seq!["len"@, "str"@], values: seq![len, str] }],
        current: 0,
        lists: Seq::empty(),
        callables: seq![
            CallableView::Native(NativeFuncView { name: "len"@, arity: 1, fun: Native::Len }),
            CallableView::Native(NativeFuncView { name: "str"@, arity: 1, fun: Native::Str }),
        ],
        output: Seq::empty(),
    }
}

// ---------------------------------------------------------------------------
// Values
// ---------------------------------------------------------------------------

/// Whether two values are equal: two numbers if they compare equal, any
/// other two if they are the same literal, the same list or the same
/// callable.
pub open spec fn equal(a: ValueView, b: ValueView) -> bool {
    match (a, b) {
        (ValueView::Literal(LiteralView::Num(x)), ValueView::Literal(LiteralView::Num(y))) => x.spec_compare(y)
            == Comparison::Equal,
        _ => a == b,
    }
}

/// The text of a value that stands in a list.
pub open spec fn item_text(v: ValueView) -> Seq<char> {
    match v {
        ValueView::Literal(LiteralView::Num(n)) => n.spec_text(),
        ValueView::Literal(LiteralView::Str(s)) => s,
        ValueView::Literal(LiteralView::True) => "true"@,
        ValueView::Literal(LiteralView::False) => "false"@,
        ValueView::Literal(LiteralView::Null) => "null"@,
        ValueView::List(_) => "[...]"@,
        ValueView::Callable(_) => "<fn>"@,
    }
}

/// The texts of the items from `from` on, each but the first of the list
/// behind a comma.
pub open spec fn items_text(items: Seq<ValueView>, from: nat) -> Seq<char>
    decreases items.len() - from,
{
    if from >= items.len() {
        Seq::empty()
    } else if from == 0 {
        item_text(items[0]) + items_text(items, 1)
    } else {
        ", "@ + item_text(items[from as int]) + items_text(items, from + 1)
    }
}

/// The text of a value, as `print` writes it. A list shows its items; a
/// list inside it is abridged.
pub open spec fn value_text(v: ValueView, m: Machine) -> Seq<char> {
    match v {
        ValueView::List(h) => if h < m.lists.len() {
            "["@ + items_text(m.lists[h as int], 0) + "]"@
        } else {
            "[...]"@
        },
        _ => item_text(v),
    }
}

// ---------------------------------------------------------------------------
// Operators
// ---------------------------------------------------------------------------

/// The result of a unary operator.
pub open spec fn unary_result(operator: TokenView, v: ValueView) -> Result<ValueView, InterpreterErrorView> {
    match operator.token_type {
        TokenType::Bang => Ok(truth(!truthy(v))),
        TokenType::Minus => match v {
            ValueView::Literal(LiteralView::Num(n)) => Ok(number(n.spec_negated())),
            _ => Err(InterpreterErrorView::InvalidOperand { operator: operator.token_type, line: operator.line }),
        },
        _ => Err(InterpreterErrorView::InvalidOperator { operator: operator.token_type, line: operator.line }),
    }
}

/// The result of an operator on two numbers. Division by zero is an error.
pub open spec fn arithmetic(operator: TokenView, a: Number, b: Number) -> Result<ValueView, InterpreterErrorView> {
    let order = a.spec_compare(b);
    match operator.token_type {
        TokenType::Plus => Ok(number(a.spec_plus(b))),
        TokenType::Minus => Ok(number(a.spec_minus(b))),
        TokenType::Asterisk => Ok(number(a.spec_times(b))),
        TokenType::FSlash => if b.spec_compare(Number::spec_count(0)) == Comparison::Equal {
            Err(InterpreterErrorView::DivisionByZero { line: operator.line })
        } else {
            Ok(number(a.spec_over(b)))
        },
        TokenType::Greater => Ok(truth(order == Comparison::Greater)),
        TokenType::GreaterEqual => Ok(truth(order == Comparison::Greater || order == Comparison::Equal)),
        TokenType::Less => Ok(truth(order == Comparison::Less)),
        TokenType::LessEqual => Ok(truth(order == Comparison::Less || order == Comparison::Equal)),
        _ => Err(InterpreterErrorView::InvalidOperator { operator: operator.token_type, line: operator.line }),
    }
}

/// Whether a token kind is an operator on two numbers.
pub open spec fn is_arithmetic(kind: TokenType) -> bool {
    kind == TokenType::Plus || kind == TokenType::Minus || kind == TokenType::Asterisk || kind == TokenType::FSlash
        || kind == TokenType::Greater || kind == TokenType::GreaterEqual || kind == TokenType::Less || kind
        == TokenType::LessEqual
}

/// The result of a binary operator: equality on any two values, `+` on
/// two numbers or two texts, the other operators on two numbers.
pub open spec fn binary_result(operator: TokenView, a: ValueView, b: ValueView) -> Result<
    ValueView,
    InterpreterErrorView,
> {
    let kind = operator.token_type;
    if kind == TokenType::EqualEqual {
        Ok(truth(equal(a, b)))
    } else if kind == TokenType::BangEqual {
        Ok(truth(!equal(a, b)))
    } else if !is_arithmetic(kind) {
        Err(InterpreterErrorView::InvalidOperator { operator: kind, line: operator.line })
    } else {
        match (a, b) {
            (ValueView::Literal(LiteralView::Num(x)), ValueView::Literal(LiteralView::Num(y))) => arithmetic(
                operator,
                x,
                y,
            ),
            (ValueView::Literal(LiteralView::Str(x)), ValueView::Literal(LiteralView::Str(y))) => if kind
                == TokenType::Plus {
                Ok(text(x + y))
            } else {
                Err(InterpreterErrorView::InvalidOperands { operator: kind, line: operator.line })
            },
            _ => Err(InterpreterErrorView::InvalidOperands { operator: kind, line: operator.line }),
        }
    }
}

/// Whether the left operand decides a short-circuiting operator: a true
/// one decides `or`, a false one decides `and`. No other token is such an
/// operator.
pub open spec fn decides(operator: TokenView, lhs: ValueView) -> Result<bool, InterpreterErrorView> {
    match operator.token_type {
        TokenType::Or => Ok(truthy(lhs)),
        TokenType::And => Ok(!truthy(lhs)),
        _ => Err(InterpreterErrorView::InvalidOperator { operator: operator.token_type, line: operator.line }),
    }
}

// ---------------------------------------------------------------------------
// Variables
// ---------------------------------------------------------------------------

/// The value of a variable, seen from the active scope.
pub open spec fn variable(name: TokenView, m: Machine) -> Evaluation {
    match lookup(m.scopes, m.current as nat, name.lexeme) {
        Some(v) => value(v, m),
        None => error(undefined(name), m),
    }
}

/// Assignment: the nearest scope that binds the name gets the value, which
/// is also the value of the assignment. A name bound nowhere is an error,
/// and no scope changes.
pub open spec fn assign(name: TokenView, v: ValueView, m: Machine) -> Evaluation {
    match assigned(m.scopes, m.current as nat, name.lexeme, v) {
        Some(scopes) => value(v, Machine { scopes, ..m }),
        None => error(undefined(name), m),
    }
}

/// `name++` and `name--`: the variable, which must hold a number, gets that
/// number plus or minus one; the value of the expression is the number it
/// held before.
pub open spec fn alter(name: TokenView, kind: TokenType, m: Machine) -> Evaluation {
    match lookup(m.scopes, m.current as nat, name.lexeme) {
        None => error(undefined(name), m),
        Some(ValueView::Literal(LiteralView::Num(n))) => if kind == TokenType::Incr {
            Evaluation { result: Ok(number(n)), machine: assign(name, number(n.spec_plus(Number::spec_one())), m).machine }
        } else if kind == TokenType::Decr {
            Evaluation {
                result: Ok(number(n)),
                machine: assign(name, number(n.spec_minus(Number::spec_one())), m).machine,
            }
        } else {
            error(InterpreterErrorView::InvalidOperator { operator: kind, line: name.line }, m)
        },
        Some(_) => error(InterpreterErrorView::InvalidOperand { operator: kind, line: name.line }, m),
    }
}

/// The effect of a declaration: `name` is defined in the active scope.
pub open spec fn declare(name: Seq<char>, v: ValueView, m: Machine) -> Execution {
    if m.current < m.scopes.len() {
        completed(define(name, v, m))
    } else {
        aborted(InterpreterErrorView::UnknownScope, m)
    }
}

/// The machine with `name` defined in the active scope.
pub open spec fn define(name: Seq<char>, v: ValueView, m: Machine) -> Machine {
    Machine { scopes: defined(m.scopes, m.current as nat, name, v), ..m }
}

// ---------------------------------------------------------------------------
// Lists
// ---------------------------------------------------------------------------

/// A new list with the given items.
pub open spec fn new_list(items: Seq<ValueView>, m: Machine) -> Evaluation {
    value(ValueView::List(m.lists.len() as usize), Machine { lists: m.lists.push(items), ..m })
}

/// The list that a variable names.
pub open spec fn list_of(name: TokenView, m: Machine) -> Result<usize, InterpreterErrorView> {
    match lookup(m.scopes, m.current as nat, name.lexeme) {
        None => Err(undefined(name)),
        Some(ValueView::List(h)) => if h < m.lists.len() {
            Ok(h)
        } else {
            Err(InterpreterErrorView::UnknownList)
        },
        Some(_) => Err(InterpreterErrorView::NotAList { name: name.lexeme, line: name.line }),
    }
}

/// The place that a value names in a list, if it is a number that names
/// one.
pub open spec fn place(v: ValueView) -> Option<usize> {
    match v {
        ValueView::Literal(LiteralView::Num(n)) => n.spec_index(),
        _ => None,
    }
}

/// The item of the list `name` at the place that `at` names. A place
/// outside the list is an error.
pub open spec fn element(name: TokenView, at: Option<ValueView>, m: Machine) -> Evaluation {
    match list_of(name, m) {
        Err(e) => error(e, m),
        Ok(h) => match at {
            None => error(InterpreterErrorView::InvalidIndex { line: name.line }, m),
            Some(ValueView::Literal(LiteralView::Num(n))) => match n.spec_index() {
                Some(i) => if i < m.lists[h as int].len() {
                    value(m.lists[h as int][i as int], m)
                } else {
                    error(InterpreterErrorView::IndexOutOfBounds { line: name.line }, m)
                },
                None => error(InterpreterErrorView::IndexOutOfBounds { line: name.line }, m),
            },
            Some(_) => error(InterpreterErrorView::InvalidIndex { line: name.line }, m),
        },
    }
}

/// One end of a slice: the place that the value names, or `default` where
/// there is no value.
pub open spec fn slice_end(at: Option<ValueView>, default: usize, line: usize) -> Result<
    usize,
    InterpreterErrorView,
> {
    match at {
        None => Ok(default),
        Some(ValueView::Literal(LiteralView::Num(n))) => match n.spec_index() {
            Some(i) => Ok(i),
            None => Err(InterpreterErrorView::IndexOutOfBounds { line }),
        },
        Some(_) => Err(InterpreterErrorView::InvalidIndex { line }),
    }
}

/// A new list with the items of the list `name` from `from` up to, not
/// including, `to`. Where `from` is left out the slice starts with the
/// first item, where `to` is left out it ends with the last.
pub open spec fn slice(name: TokenView, from: Option<ValueView>, to: Option<ValueView>, m: Machine) -> Evaluation {
    match list_of(name, m) {
        Err(e) => error(e, m),
        Ok(h) => {
            let items = m.lists[h as int];
            match slice_end(from, 0, name.line) {
                Err(e) => error(e, m),
                Ok(start) => match slice_end(to, items.len() as usize, name.line) {
                    Err(e) => error(e, m),
                    Ok(end) => if start <= end && end <= items.len() {
                        new_list(items.subrange(start as int, end as int), m)
                    } else {
                        error(InterpreterErrorView::IndexOutOfBounds { line: name.line }, m)
                    },
                },
            }
        },
    }
}

/// The number of arguments that a list method takes, if it is one.
pub open spec fn method_arity(method: Seq<char>) -> Option<usize> {
    if method == "push"@ {
        Some(1usize)
    } else if method == "pop"@ || method == "length"@ {
        Some(0usize)
    } else {
        None
    }
}

/// A method of the list `object`: `push` adds an item at the end, `pop`
/// takes the last item away and gives it, `length` counts the items.
pub open spec fn list_method(object: TokenView, method: TokenView, args: Seq<ValueView>, m: Machine) -> Evaluation {
    match list_of(object, m) {
        Err(e) => error(e, m),
        Ok(h) => {
            let items = m.lists[h as int];
            match method_arity(method.lexeme) {
                None => error(
                    InterpreterErrorView::UnknownListMethod { name: method.lexeme, line: method.line },
                    m,
                ),
                Some(arity) => if args.len() != arity {
                    error(
                        InterpreterErrorView::ArityMismatch { expected: arity, found: args.len() as usize },
                        m,
                    )
                } else if method.lexeme == "push"@ {
                    value(nil(), Machine { lists: m.lists.update(h as int, items.push(args[0])), ..m })
                } else if method.lexeme == "pop"@ {
                    if items.len() == 0 {
                        error(InterpreterErrorView::EmptyList { line: method.line }, m)
                    } else {
                        value(items.last(), Machine { lists: m.lists.update(h as int, items.drop_last()), ..m })
                    }
                } else {
                    value(number(Number::spec_count(items.len() as usize)), m)
                },
            }
        },
    }
}

// ---------------------------------------------------------------------------
// Calls
// ---------------------------------------------------------------------------

/// What a function of the host gives for its arguments: each function of
/// the host works on the first.
pub open spec fn native_call(fun: Native, args: Seq<ValueView>, m: Machine) -> Result<
    ValueView,
    InterpreterErrorView,
> {
    if args.len() == 0 {
        Err(InterpreterErrorView::InvalidArgument)
    } else {
        native_result(fun, args[0], m)
    }
}

/// What a function of the host gives for its one argument.
pub open spec fn native_result(fun: Native, arg: ValueView, m: Machine) -> Result<ValueView, InterpreterErrorView> {
    match fun {
        Native::Len => match arg {
            ValueView::List(h) => if h < m.lists.len() {
                Ok(number(Number::spec_count(m.lists[h as int].len() as usize)))
            } else {
                Err(InterpreterErrorView::UnknownList)
            },
            ValueView::Literal(LiteralView::Str(s)) => Ok(number(Number::spec_count(s.len() as usize))),
            _ => Err(InterpreterErrorView::InvalidArgument),
        },
        Native::Str => Ok(text(value_text(arg, m))),
    }
}

/// The arity of a callable.
pub open spec fn arity(callable: CallableView) -> usize {
    match callable {
        CallableView::Func(f) => f.arity,
        CallableView::Native(n) => n.arity,
    }
}

/// The scopes after the parameters have been bound to the arguments in
/// `scope`, one after the other, as far as both reach.
pub open spec fn bind(scopes: Seq<ScopeView>, scope: nat, params: Seq<TokenView>, args: Seq<ValueView>, from: nat)
    -> Seq<ScopeView>
    decreases params.len() - from,
{
    if from >= params.len() || from >= args.len() {
        scopes
    } else {
        bind(defined(scopes, scope, params[from as int].lexeme, args[from as int]), scope, params, args, from + 1)
    }
}

/// The machine in which the body of a function starts: a new scope inside
/// the scope of the function's definition is active, and binds the
/// parameters to the arguments.
pub open spec fn entered(closure: usize, params: Seq<TokenView>, args: Seq<ValueView>, m: Machine) -> Machine {
    Machine {
        scopes: bind(extended(m.scopes, closure as nat), m.scopes.len(), params, args, 0),
        current: m.scopes.len() as usize,
        ..m
    }
}

/// The machine that is left when a block or a call ends that was entered
/// on the machine `entry`: the scope that was active at the entry is active
/// again, and the scopes that were opened since then are let go, unless a
/// function was declared in the meantime, which may hold on to them.
pub open spec fn released(entry: Machine, inside: Machine) -> Machine {
    Machine {
        scopes: if inside.callables.len() == entry.callables.len() && entry.scopes.len() <= inside.scopes.len() {
            inside.scopes.take(entry.scopes.len() as int)
        } else {
            inside.scopes
        },
        current: entry.current,
        ..inside
    }
}

/// The value of a call, from how the body ended: the returned value, or
/// `null` if the body ran to its end. The caller's scope is active again.
pub open spec fn returned(body: Execution, entry: Machine) -> Evaluation {
    Evaluation {
        result: match body.outcome {
            OutcomeView::Completed => Ok(nil()),
            OutcomeView::Returned(v) => Ok(v),
            OutcomeView::Failed(e) => Err(e),
        },
        machine: released(entry, body.machine),
    }
}

/// Calls a function of the program: its body runs in a new scope inside the
/// scope of its definition.
#[verifier::opaque]
pub open spec fn call_function(declaration: StmtView, closure: usize, args: Seq<ValueView>, m: Machine, fuel: nat)
    -> Evaluation
    decreases fuel, 0nat,
{
    if fuel == 0 {
        error(InterpreterErrorView::StepLimitExceeded, m)
    } else {
        match declaration {
            StmtView::Function { name, params, body } => if closure >= m.scopes.len() || m.scopes.len()
                >= usize::MAX {
                error(InterpreterErrorView::UnknownScope, m)
            } else {
                returned(execute_all(body, entered(closure, params, args, m), (fuel - 1) as nat), m)
            },
            _ => error(InterpreterErrorView::ExpectedDeclarationToBeAFunction, m),
        }
    }
}

/// Calls a callable with arguments: it must take as many as there are.
#[verifier::opaque]
pub open spec fn call(callable: CallableView, args: Seq<ValueView>, m: Machine, fuel: nat) -> Evaluation
    decreases fuel, 1nat,
{
    if arity(callable) != args.len() {
        error(
            InterpreterErrorView::ArityMismatch { expected: arity(callable), found: args.len() as usize },
            m,
        )
    } else {
        match callable {
            CallableView::Func(f) => call_function(f.declaration, f.closure, args, m, fuel),
            CallableView::Native(n) => Evaluation { result: native_call(n.fun, args, m), machine: m },
        }
    }
}

/// Applies a value to arguments: the value must name a callable.
#[verifier::opaque]
pub open spec fn apply(callee: ValueView, args: Seq<ValueView>, m: Machine, fuel: nat) -> Evaluation
    decreases fuel, 2nat,
{
    match callee {
        ValueView::Callable(h) => if h < m.callables.len() {
            call(m.callables[h as int], args, m, fuel)
        } else {
            error(InterpreterErrorView::UnknownCallable, m)
        },
        _ => error(InterpreterErrorView::NotCallable, m),
    }
}

// ---------------------------------------------------------------------------
// Expressions
// ---------------------------------------------------------------------------

/// The value of an expression.
#[verifier::opaque]
pub open spec fn evaluate(e: ExprView, m: Machine, fuel: nat) -> Evaluation
    decreases fuel, 3nat,
{
    if fuel == 0 {
        error(InterpreterErrorView::StepLimitExceeded, m)
    } else {
        let f = (fuel - 1) as nat;
        match e {
            ExprView::Literal { value: v } => value(ValueView::Literal(v), m),
            ExprView::Grouping { expression } => evaluate(*expression, m, f),
            ExprView::Unary { operator, right } => {
                let r = evaluate(*right, m, f);
                match r.result {
                    Err(_) => r,
                    Ok(v) => Evaluation { result: unary_result(operator, v), machine: r.machine },
                }
            },
            ExprView::Binary { left, operator, right } => {
                let l = evaluate(*left, m, f);
                match l.result {
                    Err(_) => l,
                    Ok(a) => {
                        let r = evaluate(*right, l.machine, f);
                        match r.result {
                            Err(_) => r,
                            Ok(b) => Evaluation { result: binary_result(operator, a, b), machine: r.machine },
                        }
                    },
                }
            },
            ExprView::Logical { left, operator, right } => {
                let l = evaluate(*left, m, f);
                match l.result {
                    Err(_) => l,
                    Ok(a) => match decides(operator, a) {
                        Err(e) => error(e, l.machine),
                        Ok(decided) => if decided {
                            l
                        } else {
                            evaluate(*right, l.machine, f)
                        },
                    },
                }
            },
            ExprView::Var { name } => variable(name, m),
            ExprView::Assign { name, value: rhs } => {
                let r = evaluate(*rhs, m, f);
                match r.result {
                    Err(_) => r,
                    Ok(v) => assign(name, v, r.machine),
                }
            },
            ExprView::Alteration { name, alteration_type } => alter(name, alteration_type, m),
            ExprView::Call { callee, arguments } => {
                let c = evaluate(*callee, m, f);
                match c.result {
                    Err(_) => c,
                    Ok(target) => {
                        let args = evaluate_all(arguments, c.machine, f, Seq::empty());
                        match args.result {
                            Err(e) => error(e, args.machine),
                            Ok(values) => apply(target, values, args.machine, f),
                        }
                    },
                }
            },
            ExprView::List { items } => {
                let all = evaluate_all(items, m, f, Seq::empty());
                match all.result {
                    Err(e) => error(e, all.machine),
                    Ok(values) => new_list(values, all.machine),
                }
            },
            ExprView::Splice { list, is_splice, start, end } => match list_of(list, m) {
                Err(e) => error(e, m),
                Ok(_) => {
                    let from = evaluate_optional(start, m, f);
                    match from.result {
                        Err(e) => error(e, from.machine),
                        Ok(first) => {
                            let to = evaluate_optional(end, from.machine, f);
                            match to.result {
                                Err(e) => error(e, to.machine),
                                Ok(last) => if is_splice {
                                    slice(list, first, last, to.machine)
                                } else {
                                    element(list, first, to.machine)
                                },
                            }
                        },
                    }
                },
            },
            ExprView::ListMethodCall { object, call } => match *call {
                ExprView::Call { callee, arguments } => match *callee {
                    ExprView::Var { name: method } => match list_of(object, m) {
                        Err(e) => error(e, m),
                        Ok(_) => {
                            let args = evaluate_all(arguments, m, f, Seq::empty());
                            match args.result {
                                Err(e) => error(e, args.machine),
                                Ok(values) => list_method(object, method, values, args.machine),
                            }
                        },
                    },
                    _ => error(InterpreterErrorView::InvalidMethodCall { line: object.line }, m),
                },
                _ => error(InterpreterErrorView::InvalidMethodCall { line: object.line }, m),
            },
        }
    }
}

/// What evaluating an expression that may be absent gives.
pub struct OptionalEvaluation {
    pub result: Result<Option<ValueView>, InterpreterErrorView>,
    pub machine: Machine,
}

/// The value of an expression that may be absent.
#[verifier::opaque]
pub open spec fn evaluate_optional(e: Option<Box<ExprView>>, m: Machine, fuel: nat) -> OptionalEvaluation
    decreases fuel, 4nat,
{
    match e {
        None => OptionalEvaluation { result: Ok(None), machine: m },
        Some(expr) => {
            let r = evaluate(*expr, m, fuel);
            OptionalEvaluation {
                result: match r.result {
                    Ok(v) => Ok(Some(v)),
                    Err(e) => Err(e),
                },
                machine: r.machine,
            }
        },
    }
}

/// The values of the expressions from the first on, behind those found so
/// far. The first error ends the evaluation.
#[verifier::opaque]
pub open spec fn evaluate_all(es: Seq<ExprView>, m: Machine, fuel: nat, sofar: Seq<ValueView>) -> Evaluations
    decreases fuel, 4 + es.len(),
{
    if es.len() == 0 {
        Evaluations { result: Ok(sofar), machine: m }
    } else {
        let first = evaluate(es[0], m, fuel);
        match first.result {
            Err(e) => Evaluations { result: Err(e), machine: first.machine },
            Ok(v) => evaluate_all(es.drop_first(), first.machine, fuel, sofar.push(v)),
        }
    }
}

// ---------------------------------------------------------------------------
// Statements
// ---------------------------------------------------------------------------

/// The machine with a new scope inside the active one, which becomes the
/// active scope.
pub open spec fn nested(m: Machine) -> Machine {
    Machine { scopes: extended(m.scopes, m.current as nat), current: m.scopes.len() as usize, ..m }
}

/// The end of a block: as its statements ended, with the scope around the
/// block active again and the scope of the block let go.
pub open spec fn ended_block(body: Execution, entry: Machine) -> Execution {
    Execution { outcome: body.outcome, machine: released(entry, body.machine) }
}

/// The machine after a function has been declared: the active scope binds
/// its name to a new callable, which keeps the active scope as the scope of
/// its definition.
pub open spec fn declared(declaration: StmtView, name: TokenView, params: Seq<TokenView>, m: Machine) -> Machine {
    let f = FuncView {
        name: name.lexeme,
        declaration,
        arity: params.len() as usize,
        closure: m.current,
    };
    define(
        name.lexeme,
        ValueView::Callable(m.callables.len() as usize),
        Machine { callables: m.callables.push(CallableView::Func(f)), ..m },
    )
}

/// The machine after a value has been printed.
pub open spec fn printed(v: ValueView, m: Machine) -> Machine {
    Machine { output: m.output.push(value_text(v, m)), ..m }
}

/// The effect of a statement.
#[verifier::opaque]
pub open spec fn execute(s: StmtView, m: Machine, fuel: nat) -> Execution
    decreases fuel, 3nat,
{
    if fuel == 0 {
        aborted(InterpreterErrorView::StepLimitExceeded, m)
    } else {
        let f = (fuel - 1) as nat;
        match s {
            StmtView::Expression { expression } => {
                let r = evaluate(expression, m, f);
                match r.result {
                    Err(e) => aborted(e, r.machine),
                    Ok(_) => completed(r.machine),
                }
            },
            StmtView::Print { expression } => {
                let r = evaluate(expression, m, f);
                match r.result {
                    Err(e) => aborted(e, r.machine),
                    Ok(v) => completed(printed(v, r.machine)),
                }
            },
            StmtView::Var { name, initializer } => match initializer {
                None => declare(name.lexeme, nil(), m),
                Some(init) => {
                    let r = evaluate(init, m, f);
                    match r.result {
                        Err(e) => aborted(e, r.machine),
                        Ok(v) => declare(name.lexeme, v, r.machine),
                    }
                },
            },
            StmtView::Block { statements } => if m.current >= m.scopes.len() || m.scopes.len() >= usize::MAX {
                aborted(InterpreterErrorView::UnknownScope, m)
            } else {
                ended_block(execute_all(statements, nested(m), f), m)
            },
            StmtView::If { condition, then_branch, else_branch } => {
                let c = evaluate(condition, m, f);
                match c.result {
                    Err(e) => aborted(e, c.machine),
                    Ok(v) => if truthy(v) {
                        execute(*then_branch, c.machine, f)
                    } else {
                        match else_branch {
                            Some(other) => execute(*other, c.machine, f),
                            None => completed(c.machine),
                        }
                    },
                }
            },
            StmtView::While { condition, body } => repeat(condition, None, *body, m, f),
            StmtView::For { initializer, condition, increment, body } => match initializer {
                None => repeat(condition, increment, *body, m, f),
                Some(init) => {
                    let first = execute(*init, m, f);
                    match first.outcome {
                        OutcomeView::Completed => repeat(condition, increment, *body, first.machine, f),
                        _ => first,
                    }
                },
            },
            StmtView::Function { name, params, body } => if m.current >= m.scopes.len() || m.callables.len()
                >= usize::MAX {
                aborted(InterpreterErrorView::UnknownScope, m)
            } else {
                completed(declared(s, name, params, m))
            },
            StmtView::Return { keyword, value: result } => match result {
                None => Execution { outcome: OutcomeView::Returned(nil()), machine: m },
                Some(expr) => {
                    let r = evaluate(expr, m, f);
                    match r.result {
                        Err(e) => aborted(e, r.machine),
                        Ok(v) => Execution { outcome: OutcomeView::Returned(v), machine: r.machine },
                    }
                },
            },
        }
    }
}

/// The effect of statements in a row. The first that does not run to its
/// end ends the row: the statements behind it are not executed.
#[verifier::opaque]
pub open spec fn execute_all(stmts: Seq<StmtView>, m: Machine, fuel: nat) -> Execution
    decreases fuel, 4 + stmts.len(),
{
    if stmts.len() == 0 {
        completed(m)
    } else {
        let first = execute(stmts[0], m, fuel);
        match first.outcome {
            OutcomeView::Completed => execute_all(stmts.drop_first(), first.machine, fuel),
            _ => first,
        }
    }
}

/// The effect of a loop: while the condition holds, the body and then the
/// increment, if there is one. A `return` or an error in the body ends the
/// loop.
#[verifier::opaque]
pub open spec fn repeat(condition: ExprView, increment: Option<ExprView>, body: StmtView, m: Machine, fuel: nat)
    -> Execution
    decreases fuel, 0nat,
{
    if fuel == 0 {
        aborted(InterpreterErrorView::StepLimitExceeded, m)
    } else {
        let f = (fuel - 1) as nat;
        let c = evaluate(condition, m, f);
        match c.result {
            Err(e) => aborted(e, c.machine),
            Ok(v) => if !truthy(v) {
                completed(c.machine)
            } else {
                let turn = execute(body, c.machine, f);
                match turn.outcome {
                    OutcomeView::Completed => match increment {
                        None => repeat(condition, increment, body, turn.machine, f),
                        Some(step) => {
                            let stepped = evaluate(step, turn.machine, f);
                            match stepped.result {
                                Err(e) => aborted(e, stepped.machine),
                                Ok(_) => repeat(condition, increment, body, stepped.machine, f),
                            }
                        },
                    },
                    _ => turn,
                }
            },
        }
    }
}

/// The effect of a program: its statements in a row, in the global scope.
/// A `return` outside any function is an error.
pub open spec fn run(program: Seq<StmtView>, m: Machine, fuel: nat) -> Execution {
    let end = execute_all(program, m, fuel);
    match end.outcome {
        OutcomeView::Returned(_) => aborted(InterpreterErrorView::ReturnOutsideFunction, end.machine),
        _ => end,
    }
}

} // verus!
