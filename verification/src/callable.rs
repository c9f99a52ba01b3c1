//! What can be called: the functions that a program declares, and the
//! functions that the host provides.

use vstd::prelude::*;
use vstd::string::*;
use crate::error::{InterpreterError, InterpreterErrorView};
use crate::interpreter::{evaluation, Interpreter};
use crate::semantics;
use crate::semantics::{CallableView, FuncView, Native, NativeFuncView};
use crate::stmt::{Stmt, StmtView};
use crate::value::{value_views, Value};

verus! {

/// A function of the program: its declaration, and the scope in which the
/// declaration was executed.
pub struct Func<'a> {
    name: String,
    declaration: &'a Stmt,
    arity: usize,
    closure: usize,
}

/// A function of the host, of a fixed arity. What it does is one of the
/// operations of [`Native`]: the host chooses among them, and the meaning of
/// each is fixed by [`semantics::native_call`].
pub struct NativeFunc {
    name: String,
    arity: usize,
    fun: Native,
}

/// Either kind of callable, as the interpreter stores it.
pub enum Function<'a> {
    Func(Func<'a>),
    Native(NativeFunc),
}

impl<'a> View for Func<'a> {
    type V = FuncView;

    closed spec fn view(&self) -> FuncView {
        FuncView { name: self.name@, declaration: self.declaration@, arity: self.arity, closure: self.closure }
    }
}

impl View for NativeFunc {
    type V = NativeFuncView;

    closed spec fn view(&self) -> NativeFuncView {
        NativeFuncView { name: self.name@, arity: self.arity, fun: self.fun }
    }
}

impl<'a> View for Function<'a> {
    type V = CallableView;

    open spec fn view(&self) -> CallableView {
        match self {
            Function::Func(f) => CallableView::Func(f@),
            Function::Native(n) => CallableView::Native(n@),
        }
    }
}

/// How a callable shows itself.
pub open spec fn description(callable: CallableView) -> Seq<char> {
    match callable {
        CallableView::Func(f) => "<fn "@ + f.name + ">"@,
        CallableView::Native(_) => "<native fn>"@,
    }
}

/// What a program can call.
pub trait Callable<'a> {
    /// The mathematical value of the callable.
    spec fn callable(&self) -> CallableView;

    /// Calls the callable with `arguments`, within the interpreter's step
    /// limit. As many arguments are needed as the callable's arity says.
    fn call(&self, interpreter: &mut Interpreter<'a>, arguments: Vec<Value>) -> (result: Result<
        Value,
        InterpreterError,
    >)
        requires
            old(interpreter).wf(),
        ensures
            final(interpreter).wf(),
            final(interpreter).limit() == old(interpreter).limit(),
            evaluation(result, final(interpreter)@) == semantics::call(
                self.callable(),
                value_views(arguments@),
                old(interpreter)@,
                old(interpreter).limit() as nat,
            ),
    ;

    /// How the callable shows itself.
    fn _fn_to_string(&self) -> (shown: String)
        ensures
            shown@ == description(self.callable()),
    ;
}

impl<'a> Func<'a> {
    /// The function that `declaration` declares, defined in the scope
    /// `closure`. A statement that is no function declaration is an error.
    #[verifier::rlimit(100)]
    pub fn new(declaration: &'a Stmt, closure: usize) -> (result: Result<Func<'a>, InterpreterError>)
        ensures
            match declaration@ {
                StmtView::Function { name, params, body } => result matches Ok(f) && f@ == (FuncView {
                    name: name.lexeme,
                    declaration: declaration@,
                    arity: params.len() as usize,
                    closure,
                }),
                _ => result matches Err(e) && e@ == InterpreterErrorView::ExpectedFunctionStatementForDeclaration,
            },
    {
        match declaration {
            Stmt::Function { name, params, body: _ } => Ok(
                Func { name: name.lexeme.clone(), arity: params.len(), declaration, closure },
            ),
            _ => Err(InterpreterError::ExpectedFunctionStatementForDeclaration),
        }
    }

    /// The number of arguments that the function takes.
    pub fn arity(&self) -> (arity: usize)
        ensures
            arity == self@.arity,
    {
        self.arity
    }

    /// The declaration of the function.
    pub fn declaration(&self) -> (declaration: &'a Stmt)
        ensures
            declaration@ == self@.declaration,
    {
        self.declaration
    }

    /// The scope in which the function was defined.
    pub fn closure(&self) -> (closure: usize)
        ensures
            closure == self@.closure,
    {
        self.closure
    }
}

impl<'a> Callable<'a> for Func<'a> {
    open spec fn callable(&self) -> CallableView {
        CallableView::Func(self@)
    }

    fn call(&self, interpreter: &mut Interpreter<'a>, arguments: Vec<Value>) -> (result: Result<
        Value,
        InterpreterError,
    >) {
        proof {
            reveal(semantics::call);
        }
        if self.arity != arguments.len() {
            return Err(InterpreterError::ArityMismatch { expected: self.arity, found: arguments.len() });
        }
        let fuel = interpreter.step_limit();
        interpreter.call_function(self.declaration, self.closure, arguments, fuel)
    }

    fn _fn_to_string(&self) -> (shown: String) {
        let mut shown = String::from_str("<fn ");
        shown.append(self.name.as_str());
        shown.append(">");
        shown
    }
}

impl NativeFunc {
    /// The function of the host that is known as `name`, takes `arity`
    /// arguments and does `fun`.
    pub fn new(name: String, arity: usize, fun: Native) -> (native: NativeFunc)
        ensures
            native@ == (NativeFuncView { name: name@, arity, fun }),
    {
        NativeFunc { name, arity, fun }
    }

    /// The number of arguments that the function takes.
    pub fn arity(&self) -> (arity: usize)
        ensures
            arity == self@.arity,
    {
        self.arity
    }

    /// What the function does.
    pub fn fun(&self) -> (fun: Native)
        ensures
            fun == self@.fun,
    {
        self.fun
    }
}

impl<'a> Callable<'a> for NativeFunc {
    open spec fn callable(&self) -> CallableView {
        CallableView::Native(self@)
    }

    fn call(&self, interpreter: &mut Interpreter<'a>, arguments: Vec<Value>) -> (result: Result<
        Value,
        InterpreterError,
    >) {
        proof {
            reveal(semantics::call);
        }
        if self.arity != arguments.len() {
            return Err(InterpreterError::ArityMismatch { expected: self.arity, found: arguments.len() });
        }
        interpreter.call_native(self.fun, &arguments)
    }

    fn _fn_to_string(&self) -> (shown: String) {
        String::from_str("<native fn>")
    }
}

} // verus!
