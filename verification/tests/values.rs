use treewalk::callable::{Callable, Func, NativeFunc};
use treewalk::environment::Environment;
use treewalk::error::InterpreterError;
use treewalk::interpreter::{binary_result, decides, unary_result, Interpreter, Outcome};
use treewalk::lexer::Lexer;
use treewalk::number::Number;
use treewalk::parser::Parser;
use treewalk::semantics::Native;
use treewalk::stmt::Stmt;
use treewalk::token::{Token, TokenType};
use treewalk::value::{LiteralType, Value};

fn parse(source: &str) -> Vec<Stmt> {
    Parser::new(Lexer::new(source.to_string()).run().unwrap()).parse().unwrap()
}

fn name(text: &str) -> Token {
    Token::new(TokenType::Identifier, text.to_string(), text.to_string(), 1, 0)
}

fn operator(kind: TokenType) -> Token {
    Token::new(kind, String::new(), String::new(), 3, 0)
}

fn num(x: f64) -> Value {
    Value::number(Number { bits: x.to_bits() })
}

fn float(value: &Value) -> f64 {
    match value {
        Value::Literal(LiteralType::Num(n)) => f64::from_bits(n.bits),
        other => panic!("{:?}", other),
    }
}

#[test]
fn only_false_and_null_count_as_false() {
    assert!(!Value::truth(false).is_truthy());
    assert!(!Value::nil().is_truthy());
    assert!(Value::truth(true).is_truthy());
    assert!(num(0.0).is_truthy());
    assert!(Value::text(String::new()).is_truthy());
    assert!(Value::List(0).is_truthy());
}

#[test]
fn scope_lookup_walks_outwards() {
    let mut env = Environment::new();
    env.define(0, "x".to_string(), num(1.0));
    let inner = env.open_scope(0);
    assert_eq!(inner, 1);
    assert_eq!(float(&env.get(inner, &name("x")).unwrap()), 1.0);
    env.define(inner, "x".to_string(), num(2.0));
    assert_eq!(float(&env.get(inner, &name("x")).unwrap()), 2.0);
    assert_eq!(float(&env.get(0, &name("x")).unwrap()), 1.0);
    assert_eq!(env.len(), 2);
}

#[test]
fn define_overwrites_in_the_same_scope() {
    let mut env = Environment::new();
    env.define(0, "x".to_string(), num(1.0));
    env.define(0, "x".to_string(), num(5.0));
    assert_eq!(float(&env.get(0, &name("x")).unwrap()), 5.0);
}

#[test]
fn assign_changes_the_nearest_binding() {
    let mut env = Environment::new();
    env.define(0, "x".to_string(), num(1.0));
    let inner = env.open_scope(0);
    env.assign(inner, &name("x"), num(9.0)).unwrap();
    assert_eq!(float(&env.get(0, &name("x")).unwrap()), 9.0);
}

#[test]
fn assign_to_unbound_name_is_an_error() {
    let mut env = Environment::new();
    match env.assign(0, &name("ghost"), num(1.0)) {
        Err(InterpreterError::UndefinedVariable { name, line }) => {
            assert_eq!(name, "ghost");
            assert_eq!(line, 1);
        }
        other => panic!("{:?}", other),
    }
    assert!(matches!(env.get(0, &name("ghost")), Err(InterpreterError::UndefinedVariable { .. })));
}

#[test]
fn sibling_scopes_do_not_see_each_other() {
    let mut env = Environment::new();
    let a = env.open_scope(0);
    let b = env.open_scope(0);
    env.define(a, "x".to_string(), num(1.0));
    assert!(env.get(b, &name("x")).is_err());
}

#[test]
fn unary_operators() {
    assert_eq!(float(&unary_result(&operator(TokenType::Minus), &num(2.0)).unwrap()), -2.0);
    assert!(matches!(
        unary_result(&operator(TokenType::Bang), &num(2.0)),
        Ok(Value::Literal(LiteralType::False))
    ));
    assert!(matches!(
        unary_result(&operator(TokenType::Plus), &num(2.0)),
        Err(InterpreterError::InvalidOperator { operator: TokenType::Plus, line: 3 })
    ));
}

#[test]
fn binary_operators() {
    assert_eq!(float(&binary_result(&operator(TokenType::Plus), &num(2.0), &num(3.0)).unwrap()), 5.0);
    assert_eq!(float(&binary_result(&operator(TokenType::Minus), &num(2.0), &num(3.0)).unwrap()), -1.0);
    assert_eq!(float(&binary_result(&operator(TokenType::Asterisk), &num(2.0), &num(3.0)).unwrap()), 6.0);
    assert_eq!(float(&binary_result(&operator(TokenType::FSlash), &num(3.0), &num(2.0)).unwrap()), 1.5);
    assert!(matches!(
        binary_result(&operator(TokenType::Bang), &num(2.0), &num(3.0)),
        Err(InterpreterError::InvalidOperator { operator: TokenType::Bang, line: 3 })
    ));
    assert!(matches!(
        binary_result(&operator(TokenType::Minus), &Value::text("a".to_string()), &Value::text("b".to_string())),
        Err(InterpreterError::InvalidOperands { operator: TokenType::Minus, line: 3 })
    ));
}

#[test]
fn not_a_number_is_unequal_to_itself() {
    assert!(matches!(
        binary_result(&operator(TokenType::EqualEqual), &num(f64::NAN), &num(f64::NAN)),
        Ok(Value::Literal(LiteralType::False))
    ));
}

#[test]
fn short_circuit_decisions() {
    assert!(decides(&operator(TokenType::Or), &Value::truth(true)).unwrap());
    assert!(!decides(&operator(TokenType::Or), &Value::nil()).unwrap());
    assert!(decides(&operator(TokenType::And), &Value::nil()).unwrap());
    assert!(decides(&operator(TokenType::Plus), &Value::nil()).is_err());
}

#[test]
fn func_is_made_of_a_function_declaration_only() {
    let program = parse("def f(a, b) { return a; } print 1;");
    let func = Func::new(&program[0], 0).unwrap();
    assert_eq!(func.arity(), 2);
    assert_eq!(func.closure(), 0);
    assert_eq!(func._fn_to_string(), "<fn f>");
    assert!(matches!(
        Func::new(&program[1], 0),
        Err(InterpreterError::ExpectedFunctionStatementForDeclaration)
    ));
}

#[test]
fn func_is_called_through_the_callable_interface() {
    let program = parse("def twice(a) { return a + a; }");
    let func = Func::new(&program[0], 0).unwrap();
    let mut interpreter = Interpreter::new();
    let result = func.call(&mut interpreter, vec![num(4.0)]).unwrap();
    assert_eq!(float(&result), 8.0);
    assert!(matches!(
        func.call(&mut interpreter, vec![]),
        Err(InterpreterError::ArityMismatch { expected: 1, found: 0 })
    ));
}

#[test]
fn native_func_is_called_through_the_callable_interface() {
    let native = NativeFunc::new("str".to_string(), 1, Native::Str);
    assert_eq!(native.arity(), 1);
    assert_eq!(native._fn_to_string(), "<native fn>");
    let mut interpreter = Interpreter::new();
    match native.call(&mut interpreter, vec![num(1.5)]).unwrap() {
        Value::Literal(LiteralType::Str(s)) => assert_eq!(s, "1.5"),
        other => panic!("{:?}", other),
    }
    assert!(matches!(
        native.call(&mut interpreter, vec![num(1.0), num(2.0)]),
        Err(InterpreterError::ArityMismatch { expected: 1, found: 2 })
    ));
}

#[test]
fn body_that_is_no_function_cannot_be_called() {
    let program = parse("print 1;");
    let mut interpreter = Interpreter::new();
    assert!(matches!(
        interpreter.call_function(&program[0], 0, vec![], 10),
        Err(InterpreterError::ExpectedDeclarationToBeAFunction)
    ));
}

#[test]
fn call_into_unknown_scope_fails() {
    let program = parse("def f() { }");
    let mut interpreter = Interpreter::new();
    assert!(matches!(interpreter.call_function(&program[0], 7, vec![], 10), Err(InterpreterError::UnknownScope)));
}

#[test]
fn values_that_name_nothing_are_caught() {
    let mut interpreter = Interpreter::new();
    assert!(matches!(interpreter.apply(&Value::Callable(99), vec![], 10), Err(InterpreterError::UnknownCallable)));
    assert!(interpreter.items(&Value::List(5)).is_none());
    assert_eq!(interpreter.value_text(&Value::List(5)), "[...]");
}

#[test]
fn evaluation_needs_steps() {
    let program = parse("1 + 2;");
    let mut interpreter = Interpreter::new();
    match &program[0] {
        Stmt::Expression { expression } => {
            assert!(matches!(interpreter.evaluate(expression, 0), Err(InterpreterError::StepLimitExceeded)));
            assert!(matches!(interpreter.evaluate(expression, 1), Err(InterpreterError::StepLimitExceeded)));
            assert_eq!(float(&interpreter.evaluate(expression, 2).unwrap()), 3.0);
        }
        other => panic!("{:?}", other),
    }
}

#[test]
fn statement_outcomes_are_told_apart() {
    let program = parse("def f() { return 3; print 4; } var x = 1;");
    let mut interpreter = Interpreter::new();
    assert!(matches!(interpreter.execute(&program[1], 100), Outcome::Completed));
    match &program[0] {
        Stmt::Function { body, .. } => match interpreter.execute_all(body, 100) {
            Outcome::Returned(v) => assert_eq!(float(&v), 3.0),
            other => panic!("{:?}", other),
        },
        other => panic!("{:?}", other),
    }
    assert!(interpreter.output().is_empty());
    assert!(matches!(
        interpreter.execute(&program[1], 0),
        Outcome::Failed(InterpreterError::StepLimitExceeded)
    ));
}

#[test]
fn new_lists_get_the_next_place() {
    let mut interpreter = Interpreter::new();
    let first = interpreter.new_list(vec![num(1.0)]);
    let second = interpreter.new_list(vec![]);
    assert!(matches!(first, Value::List(0)));
    assert!(matches!(second, Value::List(1)));
    assert_eq!(interpreter.items(&first).unwrap().len(), 1);
    assert_eq!(interpreter.value_text(&first), "[1]");
}

#[test]
fn step_limit_is_kept() {
    assert_eq!(Interpreter::new().step_limit(), usize::MAX);
    assert_eq!(Interpreter::new().with_limit(5).step_limit(), 5);
}

#[test]
fn method_access_without_a_call_fails() {
    let program = parse("var a = []; a.b;");
    let mut interpreter = Interpreter::new();
    assert!(matches!(
        interpreter.interpret(&program),
        Err(InterpreterError::InvalidMethodCall { line: 1 })
    ));
}

#[test]
fn value_that_names_no_list_is_caught() {
    let program = parse("x[0];");
    let mut interpreter = Interpreter::new();
    assert!(matches!(interpreter.declare(&name("x"), Value::List(99)), Outcome::Completed));
    assert!(matches!(interpreter.interpret(&program), Err(InterpreterError::UnknownList)));
    assert!(matches!(
        interpreter.call_native(Native::Len, &vec![Value::List(99)]),
        Err(InterpreterError::UnknownList)
    ));
    assert!(matches!(interpreter.call_native(Native::Len, &vec![]), Err(InterpreterError::InvalidArgument)));
}

#[test]
fn variables_are_read_and_changed_through_the_interpreter() {
    let mut interpreter = Interpreter::new();
    assert!(matches!(interpreter.declare(&name("x"), num(1.0)), Outcome::Completed));
    assert_eq!(float(&interpreter.variable(&name("x")).unwrap()), 1.0);
    assert_eq!(float(&interpreter.assign(&name("x"), num(2.0)).unwrap()), 2.0);
    assert_eq!(float(&interpreter.alter(&name("x"), TokenType::Incr).unwrap()), 2.0);
    assert_eq!(float(&interpreter.variable(&name("x")).unwrap()), 3.0);
    assert!(matches!(
        interpreter.alter(&name("x"), TokenType::Plus),
        Err(InterpreterError::InvalidOperator { operator: TokenType::Plus, line: 1 })
    ));
    assert!(interpreter.assign(&name("y"), num(2.0)).is_err());
}

#[test]
fn lists_are_read_and_sliced_through_the_interpreter() {
    let mut interpreter = Interpreter::new();
    let list = interpreter.new_list(vec![num(10.0), num(20.0), num(30.0), num(40.0)]);
    assert!(matches!(interpreter.declare(&name("list"), list), Outcome::Completed));
    assert_eq!(float(&interpreter.element(&name("list"), &Some(num(1.0))).unwrap()), 20.0);
    assert!(matches!(
        interpreter.element(&name("list"), &None),
        Err(InterpreterError::InvalidIndex { line: 1 })
    ));
    let slice = interpreter.slice(&name("list"), &Some(num(1.0)), &Some(num(3.0))).unwrap();
    let items: Vec<f64> = interpreter.items(&slice).unwrap().iter().map(float).collect();
    assert_eq!(items, vec![20.0, 30.0]);
    let whole = interpreter.slice(&name("list"), &None, &None).unwrap();
    assert_eq!(interpreter.items(&whole).unwrap().len(), 4);
    assert!(matches!(
        interpreter.slice(&name("list"), &None, &Some(num(5.0))),
        Err(InterpreterError::IndexOutOfBounds { line: 1 })
    ));
    let length = interpreter.list_method(&name("list"), &name("length"), vec![]).unwrap();
    assert_eq!(float(&length), 4.0);
}

#[test]
fn print_adds_a_line_to_the_output() {
    let mut interpreter = Interpreter::new();
    interpreter.print(&Value::text("hello".to_string()));
    interpreter.print(&Value::truth(true));
    interpreter.print(&Value::Callable(0));
    assert_eq!(interpreter.output().clone(), vec!["hello", "true", "<fn>"]);
}

fn function_in(stmt: &Stmt, at: usize) -> &Stmt {
    match stmt {
        Stmt::Function { body, .. } => &body[at],
        other => panic!("{:?}", other),
    }
}

#[test]
fn parameter_shadows_outer_variable_for_the_call_only() {
    let program = parse("var n = \"outer\"; def f(n) { print n; n = \"changed\"; print n; }");
    let mut interpreter = Interpreter::new();
    interpreter.interpret(&program).unwrap();
    let func = Func::new(&program[1], 0).unwrap();
    let result = func.call(&mut interpreter, vec![Value::text("argument".to_string())]).unwrap();
    assert!(matches!(result, Value::Literal(LiteralType::Null)));
    assert_eq!(interpreter.output().clone(), vec!["argument", "changed"]);
    match interpreter.variable(&name("n")).unwrap() {
        Value::Literal(LiteralType::Str(s)) => assert_eq!(s, "outer"),
        other => panic!("{:?}", other),
    }
    assert_eq!(interpreter.scope_count(), 1);
}

#[test]
fn function_reads_its_defining_scope_after_the_defining_call_returned() {
    let program = parse(
        "def make() { var v = 7; def read() { return v; } return read; }
         var r = make();
         def caller(v) { return r(); }",
    );
    let mut interpreter = Interpreter::new();
    interpreter.interpret(&program).unwrap();
    // The scope of the finished call to `make` stands behind the global one.
    let read = Func::new(function_in(&program[0], 1), 1).unwrap();
    assert_eq!(float(&read.call(&mut interpreter, vec![]).unwrap()), 7.0);
    // Called from a scope that binds `v` itself, it still reads the `v` of its definition.
    let caller = Func::new(&program[2], 0).unwrap();
    assert_eq!(float(&caller.call(&mut interpreter, vec![num(99.0)]).unwrap()), 7.0);
}

#[test]
fn counter_counts_on_from_call_to_call() {
    let program = parse(
        "def make() { var c = 0; def inc() { c = c + 1; return c; } return inc; }
         var f = make();
         var g = make();",
    );
    let mut interpreter = Interpreter::new();
    interpreter.interpret(&program).unwrap();
    let first = Func::new(function_in(&program[0], 1), 1).unwrap();
    let second = Func::new(function_in(&program[0], 1), 2).unwrap();
    for k in 0..5 {
        assert_eq!(float(&first.call(&mut interpreter, vec![]).unwrap()), (k + 1) as f64);
    }
    assert_eq!(float(&second.call(&mut interpreter, vec![]).unwrap()), 1.0);
    assert_eq!(float(&first.call(&mut interpreter, vec![]).unwrap()), 6.0);
}

#[test]
fn assignment_to_unbound_name_in_a_body_fails_and_defines_nothing() {
    let program = parse("var kept = 1; def f() { x = 1; }");
    let mut interpreter = Interpreter::new();
    interpreter.interpret(&program).unwrap();
    let func = Func::new(&program[1], 0).unwrap();
    match func.call(&mut interpreter, vec![]) {
        Err(InterpreterError::UndefinedVariable { name, line }) => {
            assert_eq!(name, "x");
            assert_eq!(line, 1);
        }
        other => panic!("{:?}", other),
    }
    assert!(matches!(interpreter.variable(&name("x")), Err(InterpreterError::UndefinedVariable { .. })));
    assert_eq!(float(&interpreter.variable(&name("kept")).unwrap()), 1.0);
    assert_eq!(interpreter.scope_count(), 1);
}

#[test]
fn return_ends_the_call_through_loop_if_and_block() {
    let program = parse("def f() { while (true) { if (true) { { return 1; } } } print 2; }");
    let mut interpreter = Interpreter::new();
    interpreter.interpret(&program).unwrap();
    let func = Func::new(&program[0], 0).unwrap();
    assert_eq!(float(&func.call(&mut interpreter, vec![]).unwrap()), 1.0);
    assert!(interpreter.output().is_empty());
    assert_eq!(interpreter.scope_count(), 1);
    assert!(interpreter.variable(&name("f")).is_ok());
}
