//! What holds of every program: theorems about [`crate::semantics`] and
//! [`crate::environment`].

use vstd::prelude::*;
use crate::analyser::{fault, first_fault};
use crate::environment::{
    bound, defined, extended, find, find_from, holder, lookup, undefined, well_formed, ScopeView,
};
use crate::error::InterpreterErrorView;
use crate::expr::ExprView;
use crate::persistence::{execution_is_sound, execution_keeps, grown, sound};
use crate::semantics::{
    apply, arity, bind, call, call_function, entered, error, evaluate, execute, execute_all, nested, repeat,
    run, CallableView, FuncView, Machine, OutcomeView,
};
use crate::stmt::StmtView;
use crate::token::TokenView;
use crate::value::{nil, truthy, ValueView};

verus! {

// ---------------------------------------------------------------------------
// Scopes
// ---------------------------------------------------------------------------

/// A name that has just been defined in a scope is found there, with the
/// value it was given.
#[verifier::rlimit(100)]
pub proof fn defined_name_is_found(scopes: Seq<ScopeView>, scope: nat, name: Seq<char>, value: ValueView)
    requires
        well_formed(scopes),
        scope < scopes.len(),
    ensures
        lookup(defined(scopes, scope, name, value), scope, name) == Some(value),
        find(defined(scopes, scope, name, value)[scope as int].names, name) is Some,
        well_formed(defined(scopes, scope, name, value)),
{
    let after = defined(scopes, scope, name, value);
    let old_scope = scopes[scope as int];
    let new_scope = after[scope as int];
    assert(new_scope == bound(old_scope, name, value));
    match find(old_scope.names, name) {
        Some(at) => {
            found_is_in_range(old_scope.names, name, 0);
            assert(new_scope.names == old_scope.names);
        },
        None => {
            pushed_name_is_found(old_scope.names, name, 0);
        },
    }
    assert(find(new_scope.names, name) is Some);
    found_is_in_range(new_scope.names, name, 0);
}

/// Where a name is found, it stands.
pub proof fn found_is_in_range(names: Seq<Seq<char>>, name: Seq<char>, from: nat)
    ensures
        find_from(names, name, from) matches Some(at) ==> from <= at < names.len() && names[at as int] == name,
    decreases names.len() - from,
{
    if from < names.len() && names[from as int] != name {
        found_is_in_range(names, name, from + 1);
    }
}

/// A name that is not among some names is found at their end once it has
/// been added there, and a name that is among them is found where it was.
pub proof fn pushed_name_is_found(names: Seq<Seq<char>>, name: Seq<char>, from: nat)
    requires
        from <= names.len(),
        find_from(names, name, from) is None,
    ensures
        find_from(names.push(name), name, from) == Some(names.len()),
    decreases names.len() - from,
{
    if from < names.len() {
        assert(names.push(name)[from as int] == names[from as int]);
        pushed_name_is_found(names, name, from + 1);
    }
}

/// Defining a name in a scope changes nothing for the scopes that were made
/// before it: the scopes that enclose it among them. A variable of an inner
/// scope never overwrites the variable of the same name outside.
#[verifier::rlimit(100)]
pub proof fn define_is_local(
    scopes: Seq<ScopeView>,
    scope: nat,
    name: Seq<char>,
    value: ValueView,
    outer: nat,
    other: Seq<char>,
)
    requires
        well_formed(scopes),
        scope < scopes.len(),
        outer < scope,
    ensures
        holder(defined(scopes, scope, name, value), outer, other) == holder(scopes, outer, other),
        lookup(defined(scopes, scope, name, value), outer, other) == lookup(scopes, outer, other),
    decreases outer,
{
    let after = defined(scopes, scope, name, value);
    assert(after[outer as int] == scopes[outer as int]);
    if find(scopes[outer as int].names, other) is None {
        match scopes[outer as int].parent {
            Some(p) => {
                if p < outer {
                    define_is_local(scopes, scope, name, value, p as nat, other);
                }
            },
            None => {},
        }
    }
    holder_is_in_range(scopes, outer, other);
}

/// The scope that holds a name for a scope is that scope or one made before
/// it.
pub proof fn holder_is_in_range(scopes: Seq<ScopeView>, scope: nat, name: Seq<char>)
    ensures
        holder(scopes, scope, name) matches Some(h) ==> h <= scope && h < scopes.len() && find(
            scopes[h as int].names,
            name,
        ) is Some,
    decreases scope,
{
    if scope < scopes.len() && find(scopes[scope as int].names, name) is None {
        match scopes[scope as int].parent {
            Some(p) => {
                if p < scope {
                    holder_is_in_range(scopes, p as nat, name);
                }
            },
            None => {},
        }
    }
}

// ---------------------------------------------------------------------------
// Assignment
// ---------------------------------------------------------------------------

/// Assigning to a name that no scope of the active chain binds fails with
/// `UndefinedVariable`, and defines nothing: the machine is as the
/// evaluation of the right-hand side left it.
pub proof fn assignment_to_unbound_name_fails(name: TokenView, rhs: ExprView, m: Machine, fuel: nat)
    requires
        fuel > 0,
        evaluate(rhs, m, (fuel - 1) as nat).result is Ok,
        lookup(
            evaluate(rhs, m, (fuel - 1) as nat).machine.scopes,
            evaluate(rhs, m, (fuel - 1) as nat).machine.current as nat,
            name.lexeme,
        ) is None,
    ensures
        evaluate(ExprView::Assign { name, value: Box::new(rhs) }, m, fuel) == error(
            undefined(name),
            evaluate(rhs, m, (fuel - 1) as nat).machine,
        ),
{
    reveal(evaluate);
}

// ---------------------------------------------------------------------------
// Calls
// ---------------------------------------------------------------------------

/// A call with a number of arguments that differs from the arity of the
/// callable fails with `ArityMismatch`, whatever the callable and whatever
/// the two numbers, and leaves the machine as it was.
pub proof fn arity_is_enforced(callee: ValueView, args: Seq<ValueView>, m: Machine, fuel: nat)
    requires
        callee matches ValueView::Callable(h) && h < m.callables.len() && arity(m.callables[h as int])
            != args.len(),
    ensures
        callee matches ValueView::Callable(h) && apply(callee, args, m, fuel) == error(
            InterpreterErrorView::ArityMismatch {
                expected: arity(m.callables[h as int]),
                found: args.len() as usize,
            },
            m,
        ),
{
    reveal(apply);
    reveal(call);
}

/// The body of a function runs in a new scope whose parent is the scope in
/// which the function was defined, not the scope of the caller: a name that
/// is no parameter has in the body the value it has in the defining scope.
pub proof fn body_sees_defining_scope(
    closure: usize,
    params: Seq<TokenView>,
    args: Seq<ValueView>,
    m: Machine,
    name: Seq<char>,
)
    requires
        well_formed(m.scopes),
        closure < m.scopes.len(),
        m.scopes.len() < usize::MAX,
        forall|i: int| 0 <= i < params.len() ==> (#[trigger] params[i]).lexeme != name,
    ensures
        entered(closure, params, args, m).current == m.scopes.len(),
        lookup(entered(closure, params, args, m).scopes, m.scopes.len(), name) == lookup(
            m.scopes,
            closure as nat,
            name,
        ),
{
    let opened = extended(m.scopes, closure as nat);
    let scope = m.scopes.len();
    binding_keeps_other_names(opened, scope, params, args, 0, name);
    let after = entered(closure, params, args, m).scopes;
    assert(find(opened[scope as int].names, name) is None);
    assert(opened[scope as int].parent == Some(closure));
    same_below(m.scopes, opened, closure as nat, name);
    // The scopes below the new one are those of the machine before the call.
    binding_is_local(opened, scope, params, args, 0);
    same_below(opened, after, closure as nat, name);
}

/// Binding parameters in a scope gives no value to a name that is none of
/// them, and keeps the scope's parent.
proof fn binding_keeps_other_names(
    scopes: Seq<ScopeView>,
    scope: nat,
    params: Seq<TokenView>,
    args: Seq<ValueView>,
    from: nat,
    name: Seq<char>,
)
    requires
        scope < scopes.len(),
        find(scopes[scope as int].names, name) is None,
        forall|i: int| 0 <= i < params.len() ==> (#[trigger] params[i]).lexeme != name,
    ensures
        bind(scopes, scope, params, args, from).len() == scopes.len(),
        find(bind(scopes, scope, params, args, from)[scope as int].names, name) is None,
        bind(scopes, scope, params, args, from)[scope as int].parent == scopes[scope as int].parent,
    decreases params.len() - from,
{
    if from < params.len() && from < args.len() {
        let param = params[from as int].lexeme;
        let next = defined(scopes, scope, param, args[from as int]);
        let old_scope = scopes[scope as int];
        match find(old_scope.names, param) {
            Some(at) => {},
            None => {
                other_name_stays_unfound(old_scope.names, param, name, 0);
            },
        }
        binding_keeps_other_names(next, scope, params, args, from + 1, name);
    }
}

/// Adding a name to some names does not make another name found.
proof fn other_name_stays_unfound(names: Seq<Seq<char>>, added: Seq<char>, name: Seq<char>, from: nat)
    requires
        added != name,
        find_from(names, name, from) is None,
    ensures
        find_from(names.push(added), name, from) is None,
    decreases names.len() + 1 - from,
{
    if from < names.len() {
        assert(names.push(added)[from as int] == names[from as int]);
        other_name_stays_unfound(names, added, name, from + 1);
    } else if from == names.len() {
        assert(names.push(added)[from as int] == added);
        assert(find_from(names.push(added), name, from + 1) is None);
    }
}

/// Binding parameters in a scope changes no other scope.
proof fn binding_is_local(scopes: Seq<ScopeView>, scope: nat, params: Seq<TokenView>, args: Seq<ValueView>, from: nat)
    requires
        scope < scopes.len(),
    ensures
        bind(scopes, scope, params, args, from).len() == scopes.len(),
        forall|i: int|
            0 <= i < scopes.len() && i != scope ==> #[trigger] bind(scopes, scope, params, args, from)[i]
                == scopes[i],
    decreases params.len() - from,
{
    if from < params.len() && from < args.len() {
        let next = defined(scopes, scope, params[from as int].lexeme, args[from as int]);
        binding_is_local(next, scope, params, args, from + 1);
    }
}

/// Two stores that agree on the scopes up to `scope` give a name the same
/// holder and the same value there.
proof fn same_below(a: Seq<ScopeView>, b: Seq<ScopeView>, scope: nat, name: Seq<char>)
    requires
        scope < a.len(),
        scope < b.len(),
        forall|i: int| 0 <= i <= scope ==> #[trigger] a[i] == b[i],
    ensures
        holder(a, scope, name) == holder(b, scope, name),
        lookup(a, scope, name) == lookup(b, scope, name),
    decreases scope,
{
    assert(a[scope as int] == b[scope as int]);
    if find(a[scope as int].names, name) is None {
        match a[scope as int].parent {
            Some(p) => {
                if p < scope {
                    same_below(a, b, p as nat, name);
                }
            },
            None => {},
        }
    }
    holder_is_in_range(a, scope, name);
}

/// A name that is found among some names is found at the same place when
/// another name has been added behind them.
proof fn found_name_stays_found(names: Seq<Seq<char>>, added: Seq<char>, name: Seq<char>, from: nat)
    requires
        find_from(names, name, from) is Some,
    ensures
        find_from(names.push(added), name, from) == find_from(names, name, from),
    decreases names.len() - from,
{
    if from < names.len() {
        assert(names.push(added)[from as int] == names[from as int]);
        if names[from as int] != name {
            found_name_stays_found(names, added, name, from + 1);
        }
    }
}

/// Defining one name in a scope leaves the value that the scope has for
/// another.
proof fn define_keeps_other_name(
    scopes: Seq<ScopeView>,
    scope: nat,
    defined_name: Seq<char>,
    value: ValueView,
    name: Seq<char>,
)
    requires
        well_formed(scopes),
        scope < scopes.len(),
        defined_name != name,
        find(scopes[scope as int].names, name) is Some,
    ensures
        well_formed(defined(scopes, scope, defined_name, value)),
        find(defined(scopes, scope, defined_name, value)[scope as int].names, name) is Some,
        lookup(defined(scopes, scope, defined_name, value), scope, name) == lookup(scopes, scope, name),
{
    let old_scope = scopes[scope as int];
    let after = defined(scopes, scope, defined_name, value);
    found_is_in_range(old_scope.names, name, 0);
    found_is_in_range(old_scope.names, defined_name, 0);
    defined_name_is_found(scopes, scope, defined_name, value);
    match find(old_scope.names, defined_name) {
        Some(at) => {},
        None => {
            found_name_stays_found(old_scope.names, defined_name, name, 0);
        },
    }
}

/// Binding parameters in a scope leaves the value that the scope has for a
/// name that is none of them.
proof fn binding_keeps_bound_name(
    scopes: Seq<ScopeView>,
    scope: nat,
    params: Seq<TokenView>,
    args: Seq<ValueView>,
    from: nat,
    name: Seq<char>,
)
    requires
        well_formed(scopes),
        scope < scopes.len(),
        find(scopes[scope as int].names, name) is Some,
        forall|j: int| from <= j < params.len() ==> (#[trigger] params[j]).lexeme != name,
    ensures
        lookup(bind(scopes, scope, params, args, from), scope, name) == lookup(scopes, scope, name),
    decreases params.len() - from,
{
    if from < params.len() && from < args.len() {
        let param = params[from as int].lexeme;
        define_keeps_other_name(scopes, scope, param, args[from as int], name);
        binding_keeps_bound_name(defined(scopes, scope, param, args[from as int]), scope, params, args, from + 1, name);
    }
}

/// Binding parameters in a scope gives each parameter its argument, where
/// no later parameter has the same name.
proof fn binding_binds(
    scopes: Seq<ScopeView>,
    scope: nat,
    params: Seq<TokenView>,
    args: Seq<ValueView>,
    from: nat,
    i: nat,
)
    requires
        well_formed(scopes),
        scope < scopes.len(),
        from <= i < params.len(),
        i < args.len(),
        forall|j: int| i < j < params.len() ==> (#[trigger] params[j]).lexeme != params[i as int].lexeme,
    ensures
        lookup(bind(scopes, scope, params, args, from), scope, params[i as int].lexeme) == Some(args[i as int]),
    decreases params.len() - from,
{
    let param = params[from as int].lexeme;
    let next = defined(scopes, scope, param, args[from as int]);
    defined_name_is_found(scopes, scope, param, args[from as int]);
    if from == i {
        holder_is_in_range(next, scope, param);
        found_is_in_range(next[scope as int].names, param, 0);
        binding_keeps_bound_name(next, scope, params, args, from + 1, param);
    } else {
        binding_binds(next, scope, params, args, from + 1, i);
    }
}

/// In the body of a function each parameter reads as its argument, and the
/// parameters are bound in the scope of the call alone: every scope that was
/// there before the call is as it was. So a parameter shadows a variable of
/// the same name outside for this call, and never overwrites it.
pub proof fn parameters_are_bound_in_call_scope(
    closure: usize,
    params: Seq<TokenView>,
    args: Seq<ValueView>,
    m: Machine,
    i: nat,
)
    requires
        well_formed(m.scopes),
        closure < m.scopes.len(),
        m.scopes.len() < usize::MAX,
        i < params.len(),
        params.len() == args.len(),
        forall|j: int| i < j < params.len() ==> (#[trigger] params[j]).lexeme != params[i as int].lexeme,
    ensures
        lookup(entered(closure, params, args, m).scopes, m.scopes.len(), params[i as int].lexeme) == Some(
            args[i as int],
        ),
        entered(closure, params, args, m).scopes.len() == m.scopes.len() + 1,
        forall|k: int| 0 <= k < m.scopes.len() ==> #[trigger] entered(closure, params, args, m).scopes[k] == m.scopes[k],
{
    let opened = extended(m.scopes, closure as nat);
    let scope = m.scopes.len();
    assert(well_formed(opened));
    binding_binds(opened, scope, params, args, 0, i);
    binding_is_local(opened, scope, params, args, 0);
    assert forall|k: int| 0 <= k < m.scopes.len() implies #[trigger] entered(closure, params, args, m).scopes[k]
        == m.scopes[k] by {
        assert(bind(opened, scope, params, args, 0)[k] == opened[k]);
    }
}

// ---------------------------------------------------------------------------
// Return
// ---------------------------------------------------------------------------

/// A statement that does not run to its end ends the row it stands in: the
/// statements behind it are not executed, and the row ends as the statement
/// did. So a `return` ends every row of statements around it.
#[verifier::rlimit(100)]
pub proof fn unfinished_statement_ends_row(stmts: Seq<StmtView>, at: nat, m: Machine, fuel: nat)
    requires
        at < stmts.len(),
        execute_all(stmts.subrange(0, at as int), m, fuel).outcome is Completed,
        !(execute(stmts[at as int], execute_all(stmts.subrange(0, at as int), m, fuel).machine, fuel).outcome
            is Completed),
    ensures
        execute_all(stmts, m, fuel) == execute(
            stmts[at as int],
            execute_all(stmts.subrange(0, at as int), m, fuel).machine,
            fuel,
        ),
    decreases at,
{
    reveal(execute_all);
    reveal(execute);
    if at == 0 {
        assert(stmts.subrange(0, 0).len() == 0);
    } else {
        let first = execute(stmts[0], m, fuel);
        let front = stmts.subrange(0, at as int);
        assert(front[0] == stmts[0]);
        assert(front.drop_first() =~= stmts.drop_first().subrange(0, at - 1));
        assert(first.outcome is Completed);
        assert(stmts.drop_first()[at - 1] == stmts[at as int]);
        unfinished_statement_ends_row(stmts.drop_first(), (at - 1) as nat, first.machine, fuel);
    }
}

/// A `return` inside a block ends the block with the value returned, and
/// the scope that was active around the block is active again.
pub proof fn return_leaves_block(statements: Seq<StmtView>, m: Machine, fuel: nat, v: ValueView)
    requires
        fuel > 0,
        m.current < m.scopes.len(),
        m.scopes.len() < usize::MAX,
        execute_all(statements, nested(m), (fuel - 1) as nat).outcome == OutcomeView::Returned(v),
    ensures
        execute(StmtView::Block { statements }, m, fuel).outcome == OutcomeView::Returned(v),
        execute(StmtView::Block { statements }, m, fuel).machine.current == m.current,
{
    reveal(execute);
    reveal(execute_all);
}

/// A `return` inside a branch of an `if` ends the `if` with the value
/// returned.
#[verifier::rlimit(100)]
pub proof fn return_leaves_if(
    condition: ExprView,
    then_branch: StmtView,
    else_branch: Option<Box<StmtView>>,
    m: Machine,
    fuel: nat,
    v: ValueView,
)
    requires
        fuel > 0,
        evaluate(condition, m, (fuel - 1) as nat).result matches Ok(c) && (if truthy(c) {
            execute(then_branch, evaluate(condition, m, (fuel - 1) as nat).machine, (fuel - 1) as nat).outcome
                == OutcomeView::Returned(v)
        } else {
            else_branch matches Some(other) && execute(
                *other,
                evaluate(condition, m, (fuel - 1) as nat).machine,
                (fuel - 1) as nat,
            ).outcome == OutcomeView::Returned(v)
        }),
    ensures
        execute(StmtView::If { condition, then_branch: Box::new(then_branch), else_branch }, m, fuel).outcome
            == OutcomeView::Returned(v),
{
    reveal(execute);
    reveal(evaluate);
}

/// A `return` inside the body of a loop ends the loop with the value
/// returned: the condition is not asked again.
pub proof fn return_leaves_loop(
    condition: ExprView,
    increment: Option<ExprView>,
    body: StmtView,
    m: Machine,
    fuel: nat,
    v: ValueView,
)
    requires
        fuel > 0,
        evaluate(condition, m, (fuel - 1) as nat).result matches Ok(c) && truthy(c),
        execute(body, evaluate(condition, m, (fuel - 1) as nat).machine, (fuel - 1) as nat).outcome
            == OutcomeView::Returned(v),
    ensures
        repeat(condition, increment, body, m, fuel) == execute(
            body,
            evaluate(condition, m, (fuel - 1) as nat).machine,
            (fuel - 1) as nat,
        ),
{
    reveal(repeat);
    reveal(evaluate);
    reveal(execute);
}

/// A `return` ends the call of the function around it, and no more: the
/// call has the value returned, and the caller goes on in its own scope.
/// A body that runs to its end gives `null`.
#[verifier::rlimit(100)]
pub proof fn return_ends_call(
    name: TokenView,
    params: Seq<TokenView>,
    body: Seq<StmtView>,
    closure: usize,
    args: Seq<ValueView>,
    m: Machine,
    fuel: nat,
)
    requires
        fuel > 0,
        closure < m.scopes.len(),
        m.scopes.len() < usize::MAX,
    ensures
        ({
            let ended = execute_all(body, entered(closure, params, args, m), (fuel - 1) as nat);
            let end = call_function(StmtView::Function { name, params, body }, closure, args, m, fuel);
            &&& end.machine.current == m.current
            &&& ended.outcome matches OutcomeView::Returned(v) ==> end.result == Ok::<
                ValueView,
                InterpreterErrorView,
            >(v)
            &&& ended.outcome is Completed ==> end.result == Ok::<ValueView, InterpreterErrorView>(nil())
            &&& ended.outcome matches OutcomeView::Failed(e) ==> end.result == Err::<
                ValueView,
                InterpreterErrorView,
            >(e)
        }),
{
    reveal(call_function);
    reveal(execute_all);
}

/// A call of a function of the program ends as its body does, and in no
/// other way: with the value returned, with `null` if the body ran to its
/// end, and with an error exactly if the body failed, then with that error.
/// A `return` is never an error and never passes the call. This holds where
/// the arguments are as many as the arity says, the scope of the definition
/// is in the store, the store can take one scope more and a step is left.
pub proof fn call_ends_as_its_body(
    f: FuncView,
    name: TokenView,
    params: Seq<TokenView>,
    body: Seq<StmtView>,
    args: Seq<ValueView>,
    m: Machine,
    fuel: nat,
)
    requires
        f.declaration == (StmtView::Function { name, params, body }),
        f.arity == args.len(),
        f.closure < m.scopes.len(),
        m.scopes.len() < usize::MAX,
        fuel > 0,
    ensures
        ({
            let ended = execute_all(body, entered(f.closure, params, args, m), (fuel - 1) as nat);
            let end = call(CallableView::Func(f), args, m, fuel);
            &&& end.machine.current == m.current
            &&& end.result == match ended.outcome {
                OutcomeView::Completed => Ok::<ValueView, InterpreterErrorView>(nil()),
                OutcomeView::Returned(v) => Ok(v),
                OutcomeView::Failed(e) => Err(e),
            }
            &&& end.result is Err <==> ended.outcome is Failed
        }),
{
    reveal(call);
    reveal(call_function);
    return_ends_call(name, params, body, f.closure, args, m, fuel);
}

/// A `return` that no function is around does not end a program quietly:
/// the run fails.
pub proof fn return_outside_function_fails(program: Seq<StmtView>, m: Machine, fuel: nat)
    ensures
        !(run(program, m, fuel).outcome is Returned),
{
}

// ---------------------------------------------------------------------------
// Checked programs
// ---------------------------------------------------------------------------

/// A statement without fault outside any function does not end with a
/// `return`: whatever it calls, no call lets a `return` out.
#[verifier::rlimit(100)]
pub proof fn checked_statement_does_not_return(s: StmtView, m: Machine, fuel: nat)
    requires
        fault(s, false) is None,
    ensures
        !(execute(s, m, fuel).outcome is Returned),
    decreases fuel, 3nat,
{
    reveal(execute);
    reveal(execute_all);
    reveal(repeat);
    reveal(evaluate);
    if fuel > 0 {
        let f = (fuel - 1) as nat;
        match s {
            StmtView::Block { statements } => {
                checked_statements_do_not_return(statements, nested(m), f);
            },
            StmtView::If { condition, then_branch, else_branch } => {
                let c = evaluate(condition, m, f);
                checked_statement_does_not_return(*then_branch, c.machine, f);
                match else_branch {
                    Some(other) => {
                        checked_statement_does_not_return(*other, c.machine, f);
                    },
                    None => {},
                }
            },
            StmtView::While { condition, body } => {
                checked_loop_does_not_return(condition, None, *body, m, f);
            },
            StmtView::For { initializer, condition, increment, body } => match initializer {
                None => {
                    checked_loop_does_not_return(condition, increment, *body, m, f);
                },
                Some(init) => {
                    checked_statement_does_not_return(*init, m, f);
                    checked_loop_does_not_return(condition, increment, *body, execute(*init, m, f).machine, f);
                },
            },
            _ => {},
        }
    }
}

/// Statements without fault outside any function do not end with a
/// `return`.
pub proof fn checked_statements_do_not_return(stmts: Seq<StmtView>, m: Machine, fuel: nat)
    requires
        first_fault(stmts, false) is None,
    ensures
        !(execute_all(stmts, m, fuel).outcome is Returned),
    decreases fuel, 4 + stmts.len(),
{
    reveal(execute_all);
    reveal(execute);
    if stmts.len() > 0 {
        checked_statement_does_not_return(stmts[0], m, fuel);
        checked_statements_do_not_return(stmts.drop_first(), execute(stmts[0], m, fuel).machine, fuel);
    }
}

/// A loop whose body has no fault outside any function does not end with a
/// `return`.
#[verifier::rlimit(100)]
pub proof fn checked_loop_does_not_return(
    condition: ExprView,
    increment: Option<ExprView>,
    body: StmtView,
    m: Machine,
    fuel: nat,
)
    requires
        fault(body, false) is None,
    ensures
        !(repeat(condition, increment, body, m, fuel).outcome is Returned),
    decreases fuel, 0nat,
{
    reveal(repeat);
    reveal(execute);
    reveal(evaluate);
    if fuel > 0 {
        let f = (fuel - 1) as nat;
        let c = evaluate(condition, m, f);
        checked_statement_does_not_return(body, c.machine, f);
        let turn = execute(body, c.machine, f);
        match increment {
            None => {
                checked_loop_does_not_return(condition, increment, body, turn.machine, f);
            },
            Some(step) => {
                checked_loop_does_not_return(condition, increment, body, evaluate(step, turn.machine, f).machine, f);
            },
        }
    }
}

/// A program that the analyser passes never fails with
/// `ReturnOutsideFunction`: the check before the run rules out what the run
/// would refuse.
pub proof fn checked_program_returns_nowhere(program: Seq<StmtView>, m: Machine, fuel: nat)
    requires
        first_fault(program, false) is None,
    ensures
        run(program, m, fuel) == execute_all(program, m, fuel),
{
    checked_statements_do_not_return(program, m, fuel);
}

/// A function outlives the call that defined it. Whatever statement a
/// machine executes on which every function has the scope of its definition
/// in the store, this is so afterwards too, for the functions that were there
/// and for those that the statement declared; and the functions that were
/// there are there still, each with the scope of its definition, which has
/// kept every variable it had. So the scope that a call has made stays for
/// as long as a function that was defined in it, however deep the call was
/// nested and however long ago it has returned.
pub proof fn function_keeps_its_scope(s: StmtView, m: Machine, fuel: nat, h: nat)
    requires
        sound(m),
        h < m.callables.len(),
    ensures
        sound(execute(s, m, fuel).machine),
        execute(s, m, fuel).machine.callables[h as int] == m.callables[h as int],
        m.callables[h as int] matches CallableView::Func(f) ==> f.closure < execute(
            s,
            m,
            fuel,
        ).machine.scopes.len() && grown(
            m.scopes[f.closure as int],
            execute(s, m, fuel).machine.scopes[f.closure as int],
        ),
{
    execution_keeps(s, m, fuel);
    execution_is_sound(s, m, fuel);
}

} // verus!
