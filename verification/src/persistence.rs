//! Scopes and callables last. Whatever a program does, the machine keeps
//! the scopes, the bindings and the callables that it had before, and the
//! scope in which a function was defined is in the store for as long as the
//! function is. A function therefore finds the scope of its definition, with
//! all its variables, whenever it is called, however long ago the call that
//! made the scope has returned.

use vstd::prelude::*;
use crate::environment::{bound, defined, extended, find, holder, ScopeView};
use crate::expr::ExprView;
use crate::guarantees::holder_is_in_range;
use crate::semantics::{
    alter, apply, arity, assign, bind, call, call_function, declare, declared, entered, evaluate, evaluate_all,
    evaluate_optional, execute, execute_all, list_method, list_of, nested, new_list, printed, released, repeat,
    run, slice,
    CallableView, FuncView, Machine,
};
use crate::stmt::StmtView;
use crate::token::{TokenType, TokenView};
use crate::value::{nil, truthy, ValueView};

verus! {

/// The scope `new` is the scope `old`, grown: it has the same parent, and
/// binds every name that `old` binds, at the same place.
pub open spec fn grown(old: ScopeView, new: ScopeView) -> bool {
    &&& new.parent == old.parent
    &&& old.names.len() <= new.names.len()
    &&& new.names.subrange(0, old.names.len() as int) == old.names
}

/// The machine `new` keeps what the machine `old` has: every scope, grown
/// perhaps, and every callable.
pub open spec fn keeps(old: Machine, new: Machine) -> bool {
    &&& old.scopes.len() <= new.scopes.len()
    &&& old.callables.len() <= new.callables.len()
    &&& forall|i: int| 0 <= i < old.scopes.len() ==> grown(old.scopes[i], #[trigger] new.scopes[i])
    &&& forall|h: int| 0 <= h < old.callables.len() ==> #[trigger] new.callables[h] == old.callables[h]
}

/// A machine keeps what it has.
pub proof fn keeps_itself(m: Machine)
    ensures
        keeps(m, m),
{
    assert forall|i: int| 0 <= i < m.scopes.len() implies grown(m.scopes[i], #[trigger] m.scopes[i]) by {
        assert(m.scopes[i].names.subrange(0, m.scopes[i].names.len() as int) =~= m.scopes[i].names);
    }
}

/// What is kept over one step and over the next is kept over both.
pub proof fn keeps_on(a: Machine, b: Machine, c: Machine)
    requires
        keeps(a, b),
        keeps(b, c),
    ensures
        keeps(a, c),
{
    assert forall|i: int| 0 <= i < a.scopes.len() implies grown(a.scopes[i], #[trigger] c.scopes[i]) by {
        assert(grown(a.scopes[i], b.scopes[i]));
        assert(grown(b.scopes[i], c.scopes[i]));
        let x = a.scopes[i].names;
        let y = b.scopes[i].names;
        let z = c.scopes[i].names;
        assert(z.subrange(0, x.len() as int) =~= z.subrange(0, y.len() as int).subrange(0, x.len() as int));
    }
    assert forall|h: int| 0 <= h < a.callables.len() implies #[trigger] c.callables[h] == a.callables[h] by {
        assert(b.callables[h] == a.callables[h]);
    }
}

/// Binding a name in a scope grows the scope.
proof fn binding_grows(scope: ScopeView, name: Seq<char>, value: ValueView)
    ensures
        grown(scope, bound(scope, name, value)),
{
    let after = bound(scope, name, value);
    match find(scope.names, name) {
        Some(at) => {
            assert(after.names.subrange(0, scope.names.len() as int) =~= scope.names);
        },
        None => {
            assert(after.names.subrange(0, scope.names.len() as int) =~= scope.names);
        },
    }
}

/// Defining a name keeps the machine.
proof fn defining_keeps(m: Machine, scope: nat, name: Seq<char>, value: ValueView)
    requires
        scope < m.scopes.len(),
    ensures
        keeps(m, Machine { scopes: defined(m.scopes, scope, name, value), ..m }),
{
    let after = Machine { scopes: defined(m.scopes, scope, name, value), ..m };
    keeps_itself(m);
    binding_grows(m.scopes[scope as int], name, value);
    assert forall|i: int| 0 <= i < m.scopes.len() implies grown(m.scopes[i], #[trigger] after.scopes[i]) by {
        if i != scope {
            assert(after.scopes[i] == m.scopes[i]);
            assert(grown(m.scopes[i], m.scopes[i]));
        }
    }
}

/// Assignment keeps the machine.
proof fn assigning_keeps(name: TokenView, v: ValueView, m: Machine)
    ensures
        keeps(m, assign(name, v, m).machine),
{
    keeps_itself(m);
    holder_is_in_range(m.scopes, m.current as nat, name.lexeme);
    match holder(m.scopes, m.current as nat, name.lexeme) {
        Some(h) => {
            defining_keeps(m, h, name.lexeme, v);
        },
        None => {},
    }
}

/// `++` and `--` keep the machine.
proof fn altering_keeps(name: TokenView, kind: TokenType, m: Machine)
    ensures
        keeps(m, alter(name, kind, m).machine),
{
    keeps_itself(m);
    let end = alter(name, kind, m).machine;
    if end != m {
        // The variable was given a new value.
        assert(exists|v: ValueView| end == assign(name, v, m).machine);
        let v = choose|v: ValueView| end == assign(name, v, m).machine;
        assigning_keeps(name, v, m);
    }
}

/// The operations on lists keep the machine: they touch no scope and no
/// callable.
proof fn lists_keep(m: Machine, lists: Seq<Seq<ValueView>>)
    ensures
        keeps(m, Machine { lists, ..m }),
{
    keeps_itself(m);
    let after = Machine { lists, ..m };
    assert forall|i: int| 0 <= i < m.scopes.len() implies grown(m.scopes[i], #[trigger] after.scopes[i]) by {
        assert(grown(m.scopes[i], m.scopes[i]));
    }
}

/// Slicing keeps the machine.
proof fn slicing_keeps(name: TokenView, from: Option<ValueView>, to: Option<ValueView>, m: Machine)
    ensures
        keeps(m, slice(name, from, to, m).machine),
{
    keeps_itself(m);
    lists_keep(m, slice(name, from, to, m).machine.lists);
}

/// A list method keeps the machine.
proof fn method_keeps(object: TokenView, method: TokenView, args: Seq<ValueView>, m: Machine)
    ensures
        keeps(m, list_method(object, method, args, m).machine),
{
    keeps_itself(m);
    lists_keep(m, list_method(object, method, args, m).machine.lists);
}

/// Opening a scope keeps the machine.
proof fn opening_keeps(m: Machine, parent: nat, current: usize)
    ensures
        keeps(
            m,
            Machine { scopes: extended(m.scopes, parent), current, ..m },
        ),
{
    keeps_itself(m);
    let after = Machine { scopes: extended(m.scopes, parent), current, ..m };
    assert forall|i: int| 0 <= i < m.scopes.len() implies grown(m.scopes[i], #[trigger] after.scopes[i]) by {
        assert(after.scopes[i] == m.scopes[i]);
        assert(grown(m.scopes[i], m.scopes[i]));
    }
}

/// Binding parameters keeps the store of scopes.
proof fn parameters_keep(m: Machine, scope: nat, params: Seq<TokenView>, args: Seq<ValueView>, from: nat)
    requires
        scope < m.scopes.len(),
    ensures
        keeps(m, Machine { scopes: bind(m.scopes, scope, params, args, from), ..m }),
    decreases params.len() - from,
{
    if from < params.len() && from < args.len() {
        let next = Machine {
            scopes: defined(m.scopes, scope, params[from as int].lexeme, args[from as int]),
            ..m
        };
        defining_keeps(m, scope, params[from as int].lexeme, args[from as int]);
        parameters_keep(next, scope, params, args, from + 1);
        keeps_on(m, next, Machine { scopes: bind(next.scopes, scope, params, args, from + 1), ..next });
    } else {
        keeps_itself(m);
    }
}

/// Entering a function keeps the machine.
proof fn entering_keeps(closure: usize, params: Seq<TokenView>, args: Seq<ValueView>, m: Machine)
    ensures
        keeps(m, entered(closure, params, args, m)),
{
    let opened = Machine {
        scopes: extended(m.scopes, closure as nat),
        current: m.scopes.len() as usize,
        ..m
    };
    opening_keeps(m, closure as nat, m.scopes.len() as usize);
    parameters_keep(opened, m.scopes.len(), params, args, 0);
    keeps_on(m, opened, entered(closure, params, args, m));
}

/// Leaving a block or a call keeps what the machine had at the entry.
proof fn releasing_keeps(entry: Machine, inside: Machine)
    requires
        keeps(entry, inside),
    ensures
        keeps(entry, released(entry, inside)),
{
    let after = released(entry, inside);
    assert forall|i: int| 0 <= i < entry.scopes.len() implies grown(entry.scopes[i], #[trigger] after.scopes[i]) by {
        assert(grown(entry.scopes[i], inside.scopes[i]));
        assert(after.scopes[i] == inside.scopes[i]);
    }
}

/// Declaring a function keeps the machine.
#[verifier::rlimit(100)]
proof fn declaring_keeps(declaration: StmtView, name: TokenView, params: Seq<TokenView>, m: Machine)
    requires
        m.current < m.scopes.len(),
    ensures
        keeps(m, declared(declaration, name, params, m)),
{
    let f = FuncView {
        name: name.lexeme,
        declaration,
        arity: params.len() as usize,
        closure: m.current,
    };
    let stored = Machine { callables: m.callables.push(CallableView::Func(f)), ..m };
    keeps_itself(m);
    assert forall|i: int| 0 <= i < m.scopes.len() implies grown(m.scopes[i], #[trigger] stored.scopes[i]) by {
        assert(grown(m.scopes[i], m.scopes[i]));
    }
    assert(keeps(m, stored));
    defining_keeps(stored, m.current as nat, name.lexeme, ValueView::Callable(m.callables.len() as usize));
    keeps_on(m, stored, declared(declaration, name, params, m));
}

/// Printing keeps the machine.
proof fn printing_keeps(v: ValueView, m: Machine)
    ensures
        keeps(m, printed(v, m)),
{
    keeps_itself(m);
    let after = printed(v, m);
    assert forall|i: int| 0 <= i < m.scopes.len() implies grown(m.scopes[i], #[trigger] after.scopes[i]) by {
        assert(grown(m.scopes[i], m.scopes[i]));
    }
}

/// A declaration keeps the machine.
proof fn declaration_keeps(name: Seq<char>, v: ValueView, m: Machine)
    ensures
        keeps(m, declare(name, v, m).machine),
{
    keeps_itself(m);
    if m.current < m.scopes.len() {
        defining_keeps(m, m.current as nat, name, v);
    }
}

/// Evaluating an expression keeps the machine: every scope, every binding
/// and every callable that was there is there afterwards.
#[verifier::rlimit(100)]
pub proof fn evaluation_keeps(e: ExprView, m: Machine, fuel: nat)
    ensures
        keeps(m, evaluate(e, m, fuel).machine),
    decreases fuel, 3nat,
{
    reveal(evaluate);
    reveal(evaluate_all);
    reveal(evaluate_optional);
    reveal(apply);
    keeps_itself(m);
    if fuel > 0 {
        let f = (fuel - 1) as nat;
        match e {
            ExprView::Literal { value } => {},
            ExprView::Grouping { expression } => {
                evaluation_keeps(*expression, m, f);
            },
            ExprView::Unary { operator, right } => {
                evaluation_keeps(*right, m, f);
            },
            ExprView::Binary { left, operator, right } => {
                let l = evaluate(*left, m, f);
                evaluation_keeps(*left, m, f);
                evaluation_keeps(*right, l.machine, f);
                keeps_on(m, l.machine, evaluate(*right, l.machine, f).machine);
            },
            ExprView::Logical { left, operator, right } => {
                let l = evaluate(*left, m, f);
                evaluation_keeps(*left, m, f);
                evaluation_keeps(*right, l.machine, f);
                keeps_on(m, l.machine, evaluate(*right, l.machine, f).machine);
            },
            ExprView::Var { name } => {},
            ExprView::Assign { name, value } => {
                let r = evaluate(*value, m, f);
                evaluation_keeps(*value, m, f);
                if r.result is Ok {
                    assigning_keeps(name, r.result->Ok_0, r.machine);
                    keeps_on(m, r.machine, assign(name, r.result->Ok_0, r.machine).machine);
                }
            },
            ExprView::Alteration { name, alteration_type } => {
                altering_keeps(name, alteration_type, m);
            },
            ExprView::Call { callee, arguments } => {
                let c = evaluate(*callee, m, f);
                evaluation_keeps(*callee, m, f);
                let args = evaluate_all(arguments, c.machine, f, Seq::empty());
                evaluations_keep(arguments, c.machine, f, Seq::empty());
                keeps_on(m, c.machine, args.machine);
                if c.result is Ok && args.result is Ok {
                    application_keeps(c.result->Ok_0, args.result->Ok_0, args.machine, f);
                    keeps_on(m, args.machine, apply(c.result->Ok_0, args.result->Ok_0, args.machine, f).machine);
                }
            },
            ExprView::List { items } => {
                let all = evaluate_all(items, m, f, Seq::empty());
                evaluations_keep(items, m, f, Seq::empty());
                if all.result is Ok {
                    lists_keep(all.machine, new_list(all.result->Ok_0, all.machine).machine.lists);
                    keeps_on(m, all.machine, new_list(all.result->Ok_0, all.machine).machine);
                }
            },
            ExprView::Splice { list, is_splice, start, end } => if list_of(list, m) is Ok {
                let from = evaluate_optional(start, m, f);
                optional_evaluation_keeps(start, m, f);
                let to = evaluate_optional(end, from.machine, f);
                optional_evaluation_keeps(end, from.machine, f);
                keeps_on(m, from.machine, to.machine);
                if from.result is Ok && to.result is Ok {
                    slicing_keeps(list, from.result->Ok_0, to.result->Ok_0, to.machine);
                    keeps_on(m, to.machine, slice(list, from.result->Ok_0, to.result->Ok_0, to.machine).machine);
                }
            },
            ExprView::ListMethodCall { object, call } => {
                match *call {
                    ExprView::Call { callee, arguments } => match *callee {
                        ExprView::Var { name: method } => if list_of(object, m) is Ok {
                            let args = evaluate_all(arguments, m, f, Seq::empty());
                            evaluations_keep(arguments, m, f, Seq::empty());
                            if args.result is Ok {
                                method_keeps(object, method, args.result->Ok_0, args.machine);
                                keeps_on(
                                    m,
                                    args.machine,
                                    list_method(object, method, args.result->Ok_0, args.machine).machine,
                                );
                            }
                        },
                        _ => {},
                    },
                    _ => {},
                }
            },
        }
    }
}

/// Evaluating an expression that may be absent keeps the machine.
pub proof fn optional_evaluation_keeps(e: Option<Box<ExprView>>, m: Machine, fuel: nat)
    ensures
        keeps(m, evaluate_optional(e, m, fuel).machine),
    decreases fuel, 4nat,
{
    reveal(evaluate_optional);
    reveal(evaluate);
    keeps_itself(m);
    match e {
        Some(expr) => {
            evaluation_keeps(*expr, m, fuel);
        },
        None => {},
    }
}

/// Evaluating expressions in a row keeps the machine.
#[verifier::rlimit(100)]
pub proof fn evaluations_keep(es: Seq<ExprView>, m: Machine, fuel: nat, sofar: Seq<ValueView>)
    ensures
        keeps(m, evaluate_all(es, m, fuel, sofar).machine),
    decreases fuel, 4 + es.len(),
{
    reveal(evaluate_all);
    reveal(evaluate);
    keeps_itself(m);
    if es.len() > 0 {
        let first = evaluate(es[0], m, fuel);
        evaluation_keeps(es[0], m, fuel);
        if first.result is Ok {
            evaluations_keep(es.drop_first(), first.machine, fuel, sofar.push(first.result->Ok_0));
            keeps_on(
                m,
                first.machine,
                evaluate_all(es.drop_first(), first.machine, fuel, sofar.push(first.result->Ok_0)).machine,
            );
        }
    }
}

/// Applying a value to arguments keeps the machine.
pub proof fn application_keeps(callee: ValueView, args: Seq<ValueView>, m: Machine, fuel: nat)
    ensures
        keeps(m, apply(callee, args, m, fuel).machine),
    decreases fuel, 2nat,
{
    reveal(apply);
    reveal(call);
    reveal(call_function);
    keeps_itself(m);
    match callee {
        ValueView::Callable(h) => {
            if h < m.callables.len() {
                call_keeps(m.callables[h as int], args, m, fuel);
            }
        },
        _ => {},
    }
}

/// Calling a callable keeps the machine.
pub proof fn call_keeps(callable: CallableView, args: Seq<ValueView>, m: Machine, fuel: nat)
    ensures
        keeps(m, call(callable, args, m, fuel).machine),
    decreases fuel, 1nat,
{
    reveal(call);
    reveal(call_function);
    keeps_itself(m);
    match callable {
        CallableView::Func(f) => {
            function_call_keeps(f.declaration, f.closure, args, m, fuel);
        },
        CallableView::Native(n) => {},
    }
}

/// Calling a function of the program keeps the machine: the scope of the
/// call, too, stays when the call has returned.
#[verifier::rlimit(100)]
pub proof fn function_call_keeps(declaration: StmtView, closure: usize, args: Seq<ValueView>, m: Machine, fuel: nat)
    ensures
        keeps(m, call_function(declaration, closure, args, m, fuel).machine),
    decreases fuel, 0nat,
{
    reveal(call_function);
    reveal(execute_all);
    keeps_itself(m);
    if fuel > 0 {
        match declaration {
            StmtView::Function { name, params, body } => {
                if !(closure >= m.scopes.len() || m.scopes.len() >= usize::MAX) {
                    let inside = entered(closure, params, args, m);
                    entering_keeps(closure, params, args, m);
                    let ended = execute_all(body, inside, (fuel - 1) as nat);
                    executions_keep(body, inside, (fuel - 1) as nat);
                    keeps_on(m, inside, ended.machine);
                    releasing_keeps(m, ended.machine);
                }
            },
            _ => {},
        }
    }
}

/// Executing a statement keeps the machine.
#[verifier::rlimit(100)]
pub proof fn execution_keeps(s: StmtView, m: Machine, fuel: nat)
    ensures
        keeps(m, execute(s, m, fuel).machine),
    decreases fuel, 3nat,
{
    reveal(execute);
    reveal(evaluate);
    reveal(execute_all);
    reveal(repeat);
    keeps_itself(m);
    if fuel > 0 {
        let f = (fuel - 1) as nat;
        match s {
            StmtView::Expression { expression } => {
                evaluation_keeps(expression, m, f);
            },
            StmtView::Print { expression } => {
                let r = evaluate(expression, m, f);
                evaluation_keeps(expression, m, f);
                if r.result is Ok {
                    printing_keeps(r.result->Ok_0, r.machine);
                    keeps_on(m, r.machine, printed(r.result->Ok_0, r.machine));
                }
            },
            StmtView::Var { name, initializer } => match initializer {
                None => {
                    declaration_keeps(name.lexeme, nil(), m);
                },
                Some(init) => {
                    let r = evaluate(init, m, f);
                    evaluation_keeps(init, m, f);
                    if r.result is Ok {
                        declaration_keeps(name.lexeme, r.result->Ok_0, r.machine);
                        keeps_on(m, r.machine, declare(name.lexeme, r.result->Ok_0, r.machine).machine);
                    }
                },
            },
            StmtView::Block { statements } => {
                if !(m.current >= m.scopes.len() || m.scopes.len() >= usize::MAX) {
                    opening_keeps(m, m.current as nat, m.scopes.len() as usize);
                    let ended = execute_all(statements, nested(m), f);
                    executions_keep(statements, nested(m), f);
                    keeps_on(m, nested(m), ended.machine);
                    releasing_keeps(m, ended.machine);
                }
            },
            StmtView::If { condition, then_branch, else_branch } => {
                let c = evaluate(condition, m, f);
                evaluation_keeps(condition, m, f);
                if c.result is Ok {
                    if truthy(c.result->Ok_0) {
                        execution_keeps(*then_branch, c.machine, f);
                        keeps_on(m, c.machine, execute(*then_branch, c.machine, f).machine);
                    } else {
                        match else_branch {
                            Some(other) => {
                                execution_keeps(*other, c.machine, f);
                                keeps_on(m, c.machine, execute(*other, c.machine, f).machine);
                            },
                            None => {},
                        }
                    }
                }
            },
            StmtView::While { condition, body } => {
                loop_keeps(condition, None, *body, m, f);
            },
            StmtView::For { initializer, condition, increment, body } => match initializer {
                None => {
                    loop_keeps(condition, increment, *body, m, f);
                },
                Some(init) => {
                    let first = execute(*init, m, f);
                    execution_keeps(*init, m, f);
                    if first.outcome is Completed {
                        loop_keeps(condition, increment, *body, first.machine, f);
                        keeps_on(m, first.machine, repeat(condition, increment, *body, first.machine, f).machine);
                    }
                },
            },
            StmtView::Function { name, params, body } => {
                if !(m.current >= m.scopes.len() || m.callables.len() >= usize::MAX) {
                    declaring_keeps(s, name, params, m);
                }
            },
            StmtView::Return { keyword, value } => match value {
                None => {},
                Some(expr) => {
                    evaluation_keeps(expr, m, f);
                },
            },
        }
    }
}

/// Executing statements in a row keeps the machine.
pub proof fn executions_keep(stmts: Seq<StmtView>, m: Machine, fuel: nat)
    ensures
        keeps(m, execute_all(stmts, m, fuel).machine),
    decreases fuel, 4 + stmts.len(),
{
    reveal(execute_all);
    reveal(execute);
    keeps_itself(m);
    if stmts.len() > 0 {
        let first = execute(stmts[0], m, fuel);
        execution_keeps(stmts[0], m, fuel);
        if first.outcome is Completed {
            executions_keep(stmts.drop_first(), first.machine, fuel);
            keeps_on(m, first.machine, execute_all(stmts.drop_first(), first.machine, fuel).machine);
        }
    }
}

/// Executing a loop keeps the machine.
#[verifier::rlimit(100)]
pub proof fn loop_keeps(condition: ExprView, increment: Option<ExprView>, body: StmtView, m: Machine, fuel: nat)
    ensures
        keeps(m, repeat(condition, increment, body, m, fuel).machine),
    decreases fuel, 0nat,
{
    reveal(repeat);
    reveal(evaluate);
    reveal(execute);
    keeps_itself(m);
    if fuel > 0 {
        let f = (fuel - 1) as nat;
        let c = evaluate(condition, m, f);
        evaluation_keeps(condition, m, f);
        if c.result is Ok && truthy(c.result->Ok_0) {
            let turn = execute(body, c.machine, f);
            execution_keeps(body, c.machine, f);
            keeps_on(m, c.machine, turn.machine);
            if turn.outcome is Completed {
                match increment {
                    None => {
                        loop_keeps(condition, increment, body, turn.machine, f);
                        keeps_on(m, turn.machine, repeat(condition, increment, body, turn.machine, f).machine);
                    },
                    Some(step) => {
                        let stepped = evaluate(step, turn.machine, f);
                        evaluation_keeps(step, turn.machine, f);
                        keeps_on(m, turn.machine, stepped.machine);
                        if stepped.result is Ok {
                            loop_keeps(condition, increment, body, stepped.machine, f);
                            keeps_on(
                                m,
                                stepped.machine,
                                repeat(condition, increment, body, stepped.machine, f).machine,
                            );
                        }
                    },
                }
            }
        }
    }
}

// ---------------------------------------------------------------------------
// The scopes of functions
// ---------------------------------------------------------------------------

/// Every function of the machine has the scope of its definition in the
/// store.
pub open spec fn sound(m: Machine) -> bool {
    forall|h: int|
        0 <= h < m.callables.len() ==> (#[trigger] m.callables[h] matches CallableView::Func(f) ==> f.closure
            < m.scopes.len())
}

/// The machine that a program starts on is sound: it has no function of the
/// program yet.
pub proof fn start_is_sound()
    ensures
        sound(crate::semantics::start()),
{
}

/// A machine that keeps a sound one and has no callable more is sound.
proof fn stays_sound(m: Machine, after: Machine)
    requires
        sound(m),
        keeps(m, after),
        after.callables.len() == m.callables.len(),
    ensures
        sound(after),
{
    assert forall|h: int| 0 <= h < after.callables.len() implies (#[trigger] after.callables[h] matches CallableView::Func(
        f,
    ) ==> f.closure < after.scopes.len()) by {
        assert(after.callables[h] == m.callables[h]);
    }
}

/// Leaving a block or a call of a sound machine leaves a sound machine: the
/// scopes that are let go are those of no function.
proof fn release_is_sound(entry: Machine, inside: Machine)
    requires
        sound(entry),
        sound(inside),
        keeps(entry, inside),
    ensures
        sound(released(entry, inside)),
{
    let after = released(entry, inside);
    assert forall|h: int| 0 <= h < after.callables.len() implies (#[trigger] after.callables[h] matches CallableView::Func(
        f,
    ) ==> f.closure < after.scopes.len()) by {
        if inside.callables.len() == entry.callables.len() {
            assert(inside.callables[h] == entry.callables[h]);
        }
    }
}

/// Declaring a function in a sound machine leaves a sound machine: the new
/// function keeps the active scope, which is in the store.
proof fn declaration_is_sound(declaration: StmtView, name: TokenView, params: Seq<TokenView>, m: Machine)
    requires
        sound(m),
        m.current < m.scopes.len(),
    ensures
        sound(declared(declaration, name, params, m)),
{
    let after = declared(declaration, name, params, m);
    assert(after.scopes.len() == m.scopes.len());
    assert forall|h: int| 0 <= h < after.callables.len() implies (#[trigger] after.callables[h] matches CallableView::Func(
        f,
    ) ==> f.closure < after.scopes.len()) by {
        if h < m.callables.len() {
            assert(after.callables[h] == m.callables[h]);
        }
    }
}

/// Evaluating an expression on a sound machine leaves a sound machine.
#[verifier::rlimit(100)]
pub proof fn evaluation_is_sound(e: ExprView, m: Machine, fuel: nat)
    requires
        sound(m),
    ensures
        sound(evaluate(e, m, fuel).machine),
    decreases fuel, 3nat,
{
    reveal(evaluate);
    reveal(evaluate_all);
    reveal(evaluate_optional);
    reveal(apply);
    if fuel > 0 {
        let f = (fuel - 1) as nat;
        match e {
            ExprView::Literal { value } => {},
            ExprView::Grouping { expression } => {
                evaluation_is_sound(*expression, m, f);
            },
            ExprView::Unary { operator, right } => {
                evaluation_is_sound(*right, m, f);
            },
            ExprView::Binary { left, operator, right } => {
                evaluation_is_sound(*left, m, f);
                evaluation_is_sound(*right, evaluate(*left, m, f).machine, f);
            },
            ExprView::Logical { left, operator, right } => {
                evaluation_is_sound(*left, m, f);
                evaluation_is_sound(*right, evaluate(*left, m, f).machine, f);
            },
            ExprView::Var { name } => {},
            ExprView::Assign { name, value } => {
                let r = evaluate(*value, m, f);
                evaluation_is_sound(*value, m, f);
                if r.result is Ok {
                    assigning_keeps(name, r.result->Ok_0, r.machine);
                    stays_sound(r.machine, assign(name, r.result->Ok_0, r.machine).machine);
                }
            },
            ExprView::Alteration { name, alteration_type } => {
                altering_keeps(name, alteration_type, m);
                stays_sound(m, alter(name, alteration_type, m).machine);
            },
            ExprView::Call { callee, arguments } => {
                let c = evaluate(*callee, m, f);
                evaluation_is_sound(*callee, m, f);
                let args = evaluate_all(arguments, c.machine, f, Seq::empty());
                evaluations_are_sound(arguments, c.machine, f, Seq::empty());
                if c.result is Ok && args.result is Ok {
                    application_is_sound(c.result->Ok_0, args.result->Ok_0, args.machine, f);
                }
            },
            ExprView::List { items } => {
                let all = evaluate_all(items, m, f, Seq::empty());
                evaluations_are_sound(items, m, f, Seq::empty());
                if all.result is Ok {
                    lists_keep(all.machine, new_list(all.result->Ok_0, all.machine).machine.lists);
                    stays_sound(all.machine, new_list(all.result->Ok_0, all.machine).machine);
                }
            },
            ExprView::Splice { list, is_splice, start, end } => if list_of(list, m) is Ok {
                let from = evaluate_optional(start, m, f);
                optional_evaluation_is_sound(start, m, f);
                let to = evaluate_optional(end, from.machine, f);
                optional_evaluation_is_sound(end, from.machine, f);
                if from.result is Ok && to.result is Ok {
                    slicing_keeps(list, from.result->Ok_0, to.result->Ok_0, to.machine);
                    stays_sound(to.machine, slice(list, from.result->Ok_0, to.result->Ok_0, to.machine).machine);
                }
            },
            ExprView::ListMethodCall { object, call } => {
                match *call {
                    ExprView::Call { callee, arguments } => match *callee {
                        ExprView::Var { name: method } => if list_of(object, m) is Ok {
                            let args = evaluate_all(arguments, m, f, Seq::empty());
                            evaluations_are_sound(arguments, m, f, Seq::empty());
                            if args.result is Ok {
                                method_keeps(object, method, args.result->Ok_0, args.machine);
                                stays_sound(
                                    args.machine,
                                    list_method(object, method, args.result->Ok_0, args.machine).machine,
                                );
                            }
                        },
                        _ => {},
                    },
                    _ => {},
                }
            },
        }
    }
}

/// Evaluating an expression that may be absent on a sound machine leaves a
/// sound machine.
pub proof fn optional_evaluation_is_sound(e: Option<Box<ExprView>>, m: Machine, fuel: nat)
    requires
        sound(m),
    ensures
        sound(evaluate_optional(e, m, fuel).machine),
    decreases fuel, 4nat,
{
    reveal(evaluate_optional);
    reveal(evaluate);
    match e {
        Some(expr) => {
            evaluation_is_sound(*expr, m, fuel);
        },
        None => {},
    }
}

/// Evaluating expressions in a row on a sound machine leaves a sound
/// machine.
pub proof fn evaluations_are_sound(es: Seq<ExprView>, m: Machine, fuel: nat, sofar: Seq<ValueView>)
    requires
        sound(m),
    ensures
        sound(evaluate_all(es, m, fuel, sofar).machine),
    decreases fuel, 4 + es.len(),
{
    reveal(evaluate_all);
    reveal(evaluate);
    if es.len() > 0 {
        let first = evaluate(es[0], m, fuel);
        evaluation_is_sound(es[0], m, fuel);
        if first.result is Ok {
            evaluations_are_sound(es.drop_first(), first.machine, fuel, sofar.push(first.result->Ok_0));
        }
    }
}

/// Applying a value to arguments on a sound machine leaves a sound machine.
#[verifier::rlimit(100)]
pub proof fn application_is_sound(callee: ValueView, args: Seq<ValueView>, m: Machine, fuel: nat)
    requires
        sound(m),
    ensures
        sound(apply(callee, args, m, fuel).machine),
    decreases fuel, 2nat,
{
    reveal(apply);
    reveal(call);
    reveal(call_function);
    match callee {
        ValueView::Callable(h) => {
            if h < m.callables.len() {
                match m.callables[h as int] {
                    CallableView::Func(f) => {
                        if arity(m.callables[h as int]) == args.len() {
                            function_call_is_sound(f.declaration, f.closure, args, m, fuel);
                        }
                    },
                    CallableView::Native(n) => {},
                }
            }
        },
        _ => {},
    }
}

/// Calling a function of the program on a sound machine leaves a sound
/// machine: the scope of the call stays if a function was declared in it.
#[verifier::rlimit(100)]
pub proof fn function_call_is_sound(
    declaration: StmtView,
    closure: usize,
    args: Seq<ValueView>,
    m: Machine,
    fuel: nat,
)
    requires
        sound(m),
    ensures
        sound(call_function(declaration, closure, args, m, fuel).machine),
    decreases fuel, 0nat,
{
    reveal(call_function);
    reveal(execute_all);
    if fuel > 0 {
        match declaration {
            StmtView::Function { name, params, body } => {
                if !(closure >= m.scopes.len() || m.scopes.len() >= usize::MAX) {
                    let inside = entered(closure, params, args, m);
                    entering_keeps(closure, params, args, m);
                    stays_sound(m, inside);
                    let ended = execute_all(body, inside, (fuel - 1) as nat);
                    executions_keep(body, inside, (fuel - 1) as nat);
                    executions_are_sound(body, inside, (fuel - 1) as nat);
                    keeps_on(m, inside, ended.machine);
                    release_is_sound(m, ended.machine);
                }
            },
            _ => {},
        }
    }
}

/// Executing a statement on a sound machine leaves a sound machine.
#[verifier::rlimit(100)]
pub proof fn execution_is_sound(s: StmtView, m: Machine, fuel: nat)
    requires
        sound(m),
    ensures
        sound(execute(s, m, fuel).machine),
    decreases fuel, 3nat,
{
    reveal(execute);
    reveal(evaluate);
    reveal(execute_all);
    reveal(repeat);
    if fuel > 0 {
        let f = (fuel - 1) as nat;
        match s {
            StmtView::Expression { expression } => {
                evaluation_is_sound(expression, m, f);
            },
            StmtView::Print { expression } => {
                let r = evaluate(expression, m, f);
                evaluation_is_sound(expression, m, f);
                if r.result is Ok {
                    printing_keeps(r.result->Ok_0, r.machine);
                    stays_sound(r.machine, printed(r.result->Ok_0, r.machine));
                }
            },
            StmtView::Var { name, initializer } => match initializer {
                None => {
                    declaration_keeps(name.lexeme, nil(), m);
                    stays_sound(m, declare(name.lexeme, nil(), m).machine);
                },
                Some(init) => {
                    let r = evaluate(init, m, f);
                    evaluation_is_sound(init, m, f);
                    if r.result is Ok {
                        declaration_keeps(name.lexeme, r.result->Ok_0, r.machine);
                        stays_sound(r.machine, declare(name.lexeme, r.result->Ok_0, r.machine).machine);
                    }
                },
            },
            StmtView::Block { statements } => {
                if !(m.current >= m.scopes.len() || m.scopes.len() >= usize::MAX) {
                    opening_keeps(m, m.current as nat, m.scopes.len() as usize);
                    stays_sound(m, nested(m));
                    let ended = execute_all(statements, nested(m), f);
                    executions_keep(statements, nested(m), f);
                    executions_are_sound(statements, nested(m), f);
                    keeps_on(m, nested(m), ended.machine);
                    release_is_sound(m, ended.machine);
                }
            },
            StmtView::If { condition, then_branch, else_branch } => {
                let c = evaluate(condition, m, f);
                evaluation_is_sound(condition, m, f);
                if c.result is Ok {
                    if truthy(c.result->Ok_0) {
                        execution_is_sound(*then_branch, c.machine, f);
                    } else {
                        match else_branch {
                            Some(other) => {
                                execution_is_sound(*other, c.machine, f);
                            },
                            None => {},
                        }
                    }
                }
            },
            StmtView::While { condition, body } => {
                loop_is_sound(condition, None, *body, m, f);
            },
            StmtView::For { initializer, condition, increment, body } => match initializer {
                None => {
                    loop_is_sound(condition, increment, *body, m, f);
                },
                Some(init) => {
                    let first = execute(*init, m, f);
                    execution_is_sound(*init, m, f);
                    if first.outcome is Completed {
                        loop_is_sound(condition, increment, *body, first.machine, f);
                    }
                },
            },
            StmtView::Function { name, params, body } => {
                if !(m.current >= m.scopes.len() || m.callables.len() >= usize::MAX) {
                    declaration_is_sound(s, name, params, m);
                }
            },
            StmtView::Return { keyword, value } => match value {
                None => {},
                Some(expr) => {
                    evaluation_is_sound(expr, m, f);
                },
            },
        }
    }
}

/// Executing statements in a row on a sound machine leaves a sound machine.
pub proof fn executions_are_sound(stmts: Seq<StmtView>, m: Machine, fuel: nat)
    requires
        sound(m),
    ensures
        sound(execute_all(stmts, m, fuel).machine),
    decreases fuel, 4 + stmts.len(),
{
    reveal(execute_all);
    reveal(execute);
    if stmts.len() > 0 {
        let first = execute(stmts[0], m, fuel);
        execution_is_sound(stmts[0], m, fuel);
        if first.outcome is Completed {
            executions_are_sound(stmts.drop_first(), first.machine, fuel);
        }
    }
}

/// Executing a loop on a sound machine leaves a sound machine.
#[verifier::rlimit(100)]
pub proof fn loop_is_sound(condition: ExprView, increment: Option<ExprView>, body: StmtView, m: Machine, fuel: nat)
    requires
        sound(m),
    ensures
        sound(repeat(condition, increment, body, m, fuel).machine),
    decreases fuel, 0nat,
{
    reveal(repeat);
    reveal(evaluate);
    reveal(execute);
    if fuel > 0 {
        let f = (fuel - 1) as nat;
        let c = evaluate(condition, m, f);
        evaluation_is_sound(condition, m, f);
        if c.result is Ok && truthy(c.result->Ok_0) {
            let turn = execute(body, c.machine, f);
            execution_is_sound(body, c.machine, f);
            if turn.outcome is Completed {
                match increment {
                    None => {
                        loop_is_sound(condition, increment, body, turn.machine, f);
                    },
                    Some(step) => {
                        let stepped = evaluate(step, turn.machine, f);
                        evaluation_is_sound(step, turn.machine, f);
                        if stepped.result is Ok {
                            loop_is_sound(condition, increment, body, stepped.machine, f);
                        }
                    },
                }
            }
        }
    }
}

/// Running a program on a sound machine leaves a sound machine that keeps
/// what the machine had.
pub proof fn run_is_sound(program: Seq<StmtView>, m: Machine, fuel: nat)
    requires
        sound(m),
    ensures
        sound(run(program, m, fuel).machine),
        keeps(m, run(program, m, fuel).machine),
{
    executions_are_sound(program, m, fuel);
    executions_keep(program, m, fuel);
}

} // verus!
