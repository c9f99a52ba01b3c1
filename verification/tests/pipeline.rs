use treewalk::analyser::SemanticAnalyser;
use treewalk::error::{InterpreterError, ParserError, SemanticError};
use treewalk::interpreter::Interpreter;
use treewalk::lexer::{Lexer, LexerError};
use treewalk::parser::Parser;
use treewalk::stmt::Stmt;

#[derive(Debug)]
enum Failure {
    Lexer(LexerError),
    Parser(ParserError),
    Semantic(SemanticError),
    Interpreter(InterpreterError),
}

fn parse(source: &str) -> Result<Vec<Stmt>, Failure> {
    let tokens = Lexer::new(source.to_string()).run().map_err(Failure::Lexer)?;
    assert!(Parser::accepts(&tokens));
    Parser::new(tokens).parse().map_err(Failure::Parser)
}

fn run_with_limit(source: &str, limit: usize) -> Result<Vec<String>, Failure> {
    let program = parse(source)?;
    SemanticAnalyser::new(&program).run().map_err(Failure::Semantic)?;
    let mut interpreter = Interpreter::new().with_limit(limit);
    interpreter.interpret(&program).map_err(Failure::Interpreter)?;
    Ok(interpreter.output().clone())
}

fn run(source: &str) -> Result<Vec<String>, Failure> {
    run_with_limit(source, usize::MAX)
}

fn lines(source: &str) -> Vec<String> {
    run(source).unwrap()
}

#[test]
fn multiplication_binds_tighter_than_addition() {
    assert_eq!(lines("print 1 + 2 * 3;"), vec!["7"]);
}

#[test]
fn parentheses_override_precedence() {
    assert_eq!(lines("print (1 + 2) * 3;"), vec!["9"]);
}

#[test]
fn subtraction_and_division_associate_to_the_left() {
    assert_eq!(lines("print 10 - 4 - 3; print 24 / 4 / 2;"), vec!["3", "3"]);
}

#[test]
fn inner_variable_shadows_outer_one() {
    assert_eq!(lines("var x = 1; { var x = 2; print x; } print x;"), vec!["2", "1"]);
}

#[test]
fn closure_reads_and_changes_its_defining_scope() {
    let source = "
        def counter() {
            var count = 0;
            def next() {
                count = count + 1;
                return count;
            }
            return next;
        }
        var a = counter();
        var b = counter();
        print a();
        print a();
        print b();
        print a();
    ";
    assert_eq!(lines(source), vec!["1", "2", "1", "3"]);
}

#[test]
fn closure_sees_definition_scope_not_caller_scope() {
    let source = "
        var x = 1;
        def show() { print x; }
        def caller() { var x = 2; show(); }
        caller();
    ";
    assert_eq!(lines(source), vec!["1"]);
}

#[test]
fn assignment_to_unbound_name_fails() {
    match run("y = 1;") {
        Err(Failure::Interpreter(InterpreterError::UndefinedVariable { name, line })) => {
            assert_eq!(name, "y");
            assert_eq!(line, 1);
        }
        other => panic!("{:?}", other),
    }
}

#[test]
fn failed_assignment_defines_nothing() {
    let program = parse("y = 1;").unwrap();
    let mut interpreter = Interpreter::new();
    assert!(interpreter.interpret(&program).is_err());
    let again = parse("print y;").unwrap();
    assert!(matches!(
        interpreter.interpret(&again),
        Err(InterpreterError::UndefinedVariable { .. })
    ));
}

#[test]
fn reading_unbound_name_fails() {
    assert!(matches!(
        run("print nothing;"),
        Err(Failure::Interpreter(InterpreterError::UndefinedVariable { .. }))
    ));
}

#[test]
fn call_with_too_few_arguments_fails() {
    match run("def f(a, b) { return a; } f(1);") {
        Err(Failure::Interpreter(InterpreterError::ArityMismatch { expected, found })) => {
            assert_eq!(expected, 2);
            assert_eq!(found, 1);
        }
        other => panic!("{:?}", other),
    }
}

#[test]
fn call_with_too_many_arguments_fails() {
    match run("def f() { return 1; } f(1, 2, 3);") {
        Err(Failure::Interpreter(InterpreterError::ArityMismatch { expected, found })) => {
            assert_eq!(expected, 0);
            assert_eq!(found, 3);
        }
        other => panic!("{:?}", other),
    }
}

#[test]
fn native_call_with_wrong_argument_count_fails() {
    assert!(matches!(
        run("len();"),
        Err(Failure::Interpreter(InterpreterError::ArityMismatch { expected: 1, found: 0 }))
    ));
}

#[test]
fn list_element_is_found_by_index() {
    assert_eq!(lines("var list = [10, 20, 30, 40]; print list[1];"), vec!["20"]);
}

#[test]
fn list_slices_are_half_open() {
    let source = "var list = [10, 20, 30, 40]; print list[1:3]; print list[:2]; print list[2:];";
    assert_eq!(lines(source), vec!["[20, 30]", "[10, 20]", "[30, 40]"]);
}

#[test]
fn list_index_past_the_end_fails() {
    assert!(matches!(
        run("var list = [10, 20, 30, 40]; print list[4];"),
        Err(Failure::Interpreter(InterpreterError::IndexOutOfBounds { line: 1 }))
    ));
}

#[test]
fn negative_list_index_fails() {
    assert!(matches!(
        run("var list = [10, 20, 30, 40]; print list[-1];"),
        Err(Failure::Interpreter(InterpreterError::IndexOutOfBounds { line: 1 }))
    ));
}

#[test]
fn slice_with_ends_out_of_order_fails() {
    assert!(matches!(
        run("var list = [10, 20, 30, 40]; print list[3:1];"),
        Err(Failure::Interpreter(InterpreterError::IndexOutOfBounds { .. }))
    ));
}

#[test]
fn index_that_is_no_number_fails() {
    assert!(matches!(
        run("var list = [1]; print list[\"a\"];"),
        Err(Failure::Interpreter(InterpreterError::InvalidIndex { .. }))
    ));
}

#[test]
fn indexing_something_that_is_no_list_fails() {
    match run("var n = 1; print n[0];") {
        Err(Failure::Interpreter(InterpreterError::NotAList { name, line })) => {
            assert_eq!(name, "n");
            assert_eq!(line, 1);
        }
        other => panic!("{:?}", other),
    }
}

#[test]
fn return_unwinds_through_nested_statements() {
    let source = "
        def find() {
            var i = 0;
            while (true) {
                if (i == 3) {
                    {
                        return i * 10;
                    }
                }
                i = i + 1;
            }
            print \"never\";
        }
        print find();
        print \"after\";
    ";
    assert_eq!(lines(source), vec!["30", "after"]);
}

#[test]
fn return_unwinds_through_for_loop() {
    let source = "
        def first_big(limit) {
            for (var i = 0; i < 100; i++) {
                if (i * i > limit) { return i; }
            }
            return null;
        }
        print first_big(50);
    ";
    assert_eq!(lines(source), vec!["8"]);
}

#[test]
fn function_without_return_gives_null() {
    assert_eq!(lines("def f() { var a = 1; } print f();"), vec!["null"]);
}

#[test]
fn return_restores_the_scope_of_the_caller() {
    let source = "
        var x = \"outer\";
        def f() { var x = \"inner\"; { { return x; } } }
        print f();
        print x;
    ";
    assert_eq!(lines(source), vec!["inner", "outer"]);
}

#[test]
fn first_malformed_declaration_is_reported() {
    let source = "var = 1;\nvar ok = 2;\nvar broken 3;";
    match run(source) {
        Err(Failure::Parser(ParserError::ExpectedVariableName { lexeme, line })) => {
            assert_eq!(lexeme, "var");
            assert_eq!(line, 1);
        }
        other => panic!("{:?}", other),
    }
}

#[test]
fn parser_resumes_behind_the_malformed_declaration() {
    let source = "var = 1;\nvar ok = 2;\nvar broken 3;";
    let tokens = Lexer::new(source.to_string()).run().unwrap();
    let mut parser = Parser::new(tokens);
    assert!(matches!(parser.parse(), Err(ParserError::ExpectedVariableName { line: 1, .. })));
    match parser.parse() {
        Err(ParserError::ExpectedSemicolonAfterVariableDeclaration { lexeme, line }) => {
            assert_eq!(lexeme, "broken");
            assert_eq!(line, 3);
        }
        other => panic!("{:?}", other),
    }
    assert!(parser.parse().unwrap().is_empty());
}

#[test]
fn postfix_increment_gives_the_value_before() {
    assert_eq!(lines("var x = 1; print x++; print x; print x--; print x;"), vec!["1", "2", "2", "1"]);
}

#[test]
fn increment_of_a_text_fails() {
    assert!(matches!(
        run("var s = \"a\"; s++;"),
        Err(Failure::Interpreter(InterpreterError::InvalidOperand { .. }))
    ));
}

#[test]
fn texts_are_joined_by_plus() {
    assert_eq!(lines("print \"foo\" + \"bar\";"), vec!["foobar"]);
}

#[test]
fn number_plus_text_fails() {
    assert!(matches!(
        run("print 1 + \"a\";"),
        Err(Failure::Interpreter(InterpreterError::InvalidOperands { line: 1, .. }))
    ));
}

#[test]
fn minus_of_a_text_fails() {
    assert!(matches!(
        run("print -\"a\";"),
        Err(Failure::Interpreter(InterpreterError::InvalidOperand { .. }))
    ));
}

#[test]
fn comparisons_give_truth_values() {
    assert_eq!(
        lines("print 1 < 2; print 2 <= 2; print 3 > 4; print 4 >= 5; print 1 == 1; print 1 != 1;"),
        vec!["true", "true", "false", "false", "true", "false"]
    );
}

#[test]
fn equality_works_across_kinds() {
    assert_eq!(
        lines("print 1 == \"1\"; print null == null; print \"a\" == \"a\"; print true != false;"),
        vec!["false", "true", "true", "true"]
    );
}

#[test]
fn or_and_and_short_circuit() {
    let source = "
        def loud() { print \"called\"; return true; }
        print true or loud();
        print false and loud();
        print false or loud();
    ";
    assert_eq!(lines(source), vec!["true", "false", "called", "true"]);
}

#[test]
fn bang_negates_truthiness() {
    assert_eq!(lines("print !true; print !null; print !0;"), vec!["false", "true", "false"]);
}

#[test]
fn calling_something_that_is_no_callable_fails() {
    assert!(matches!(run("var x = 1; x();"), Err(Failure::Interpreter(InterpreterError::NotCallable))));
}

#[test]
fn if_takes_the_branch_of_its_condition() {
    assert_eq!(
        lines("if (1 < 2) print \"yes\"; else print \"no\"; if (null) print \"yes\"; else print \"no\";"),
        vec!["yes", "no"]
    );
}

#[test]
fn while_loop_runs_until_condition_fails() {
    assert_eq!(lines("var i = 0; while (i < 3) { print i; i = i + 1; }"), vec!["0", "1", "2"]);
}

#[test]
fn for_loop_runs_initializer_once_and_increment_each_turn() {
    assert_eq!(lines("for (var i = 0; i < 3; i++) print i;"), vec!["0", "1", "2"]);
}

#[test]
fn for_loop_without_clauses_needs_a_return() {
    assert_eq!(lines("def f() { var n = 0; for (;;) { n++; if (n == 5) return n; } } print f();"), vec!["5"]);
}

#[test]
fn list_methods_push_pop_and_length() {
    let source = "
        var list = [1];
        list.push(2);
        print list;
        print list.length();
        print list.pop();
        print list;
    ";
    assert_eq!(lines(source), vec!["[1, 2]", "2", "2", "[1]"]);
}

#[test]
fn lists_are_shared_between_their_holders() {
    assert_eq!(lines("var a = [1]; var b = a; b.push(2); print a;"), vec!["[1, 2]"]);
}

#[test]
fn pop_of_an_empty_list_fails() {
    assert!(matches!(
        run("var list = []; list.pop();"),
        Err(Failure::Interpreter(InterpreterError::EmptyList { .. }))
    ));
}

#[test]
fn unknown_list_method_fails() {
    match run("var list = []; list.shuffle();") {
        Err(Failure::Interpreter(InterpreterError::UnknownListMethod { name, .. })) => assert_eq!(name, "shuffle"),
        other => panic!("{:?}", other),
    }
}

#[test]
fn list_method_with_wrong_argument_count_fails() {
    assert!(matches!(
        run("var list = []; list.push();"),
        Err(Failure::Interpreter(InterpreterError::ArityMismatch { expected: 1, found: 0 }))
    ));
}

#[test]
fn native_functions_are_bound_in_the_global_scope() {
    assert_eq!(lines("print len([1, 2, 3]); print len(\"abcd\"); print str(12) + \"!\";"), vec!["3", "4", "12!"]);
}

#[test]
fn native_len_of_a_number_fails() {
    assert!(matches!(run("len(1);"), Err(Failure::Interpreter(InterpreterError::InvalidArgument))));
}

#[test]
fn nested_lists_are_abridged_in_print() {
    assert_eq!(lines("var inner = [1]; print [inner, 2];"), vec!["[[...], 2]"]);
}

#[test]
fn endless_loop_stops_at_the_step_limit() {
    assert!(matches!(
        run_with_limit("while (true) { }", 1000),
        Err(Failure::Interpreter(InterpreterError::StepLimitExceeded))
    ));
}

#[test]
fn endless_recursion_stops_at_the_step_limit() {
    assert!(matches!(
        run_with_limit("def f() { return f(); } f();", 200),
        Err(Failure::Interpreter(InterpreterError::StepLimitExceeded))
    ));
}

#[test]
fn return_outside_function_is_refused_before_running() {
    match run("print 1;\nreturn 2;") {
        Err(Failure::Semantic(SemanticError::ReturnOutsideFunction { line })) => assert_eq!(line, 2),
        other => panic!("{:?}", other),
    }
}

#[test]
fn return_inside_function_passes_the_analyser() {
    assert_eq!(lines("def f() { if (true) { return 1; } } print f();"), vec!["1"]);
}

#[test]
fn duplicate_parameter_is_refused() {
    match run("def f(a, b, a) { }") {
        Err(Failure::Semantic(SemanticError::DuplicateParameter { name, line })) => {
            assert_eq!(name, "a");
            assert_eq!(line, 1);
        }
        other => panic!("{:?}", other),
    }
}

#[test]
fn first_fault_in_text_order_is_reported() {
    assert!(matches!(
        run("def f(a, a) { }\nreturn 1;"),
        Err(Failure::Semantic(SemanticError::DuplicateParameter { .. }))
    ));
}

#[test]
fn interpreter_refuses_return_outside_function_too() {
    let program = parse("return 1;").unwrap();
    let mut interpreter = Interpreter::new();
    assert!(matches!(interpreter.interpret(&program), Err(InterpreterError::ReturnOutsideFunction)));
}

#[test]
fn unexpected_character_is_a_lexer_error() {
    assert!(matches!(
        run("var x = 1;\nvar y = #;"),
        Err(Failure::Lexer(LexerError::UnexpectedCharacter { character: '#', line: 2 }))
    ));
}

#[test]
fn unterminated_string_is_a_lexer_error() {
    assert!(matches!(run("print \"abc;"), Err(Failure::Lexer(LexerError::UnterminatedString { line: 1 }))));
}

#[test]
fn comments_are_skipped() {
    assert_eq!(lines("// nothing here\nprint 1; // nor here\n"), vec!["1"]);
}

#[test]
fn division_by_zero_fails() {
    assert!(matches!(
        run("print 1;\nprint 1 / 0;"),
        Err(Failure::Interpreter(InterpreterError::DivisionByZero { line: 2 }))
    ));
    assert!(matches!(
        run("print 1 / (0 - 0);"),
        Err(Failure::Interpreter(InterpreterError::DivisionByZero { .. }))
    ));
}

#[test]
fn division_gives_fractions() {
    assert_eq!(lines("print 1 / 4; print 7 / 2;"), vec!["0.25", "3.5"]);
}

#[test]
fn receiver_is_resolved_before_the_arguments() {
    let program = parse("def loud() { print \"called\"; return 1; } ghost.push(loud());").unwrap();
    let mut interpreter = Interpreter::new();
    assert!(matches!(
        interpreter.interpret(&program),
        Err(InterpreterError::UndefinedVariable { .. })
    ));
    assert!(interpreter.output().is_empty());
}

#[test]
fn list_is_resolved_before_its_index() {
    let program = parse("def loud() { print \"called\"; return 1; } var n = 1; n[loud()];").unwrap();
    let mut interpreter = Interpreter::new();
    assert!(matches!(interpreter.interpret(&program), Err(InterpreterError::NotAList { .. })));
    assert!(interpreter.output().is_empty());
}

#[test]
fn output_before_an_error_is_kept() {
    let program = parse("print 1; print nothing; print 2;").unwrap();
    let mut interpreter = Interpreter::new();
    assert!(interpreter.interpret(&program).is_err());
    assert_eq!(interpreter.output().clone(), vec!["1"]);
}

#[test]
fn scopes_of_blocks_and_calls_are_let_go() {
    let program = parse(
        "def square(n) { var result = n * n; return result; }
         var i = 0;
         while (i < 100) { var x = square(i); { var y = x; } i = i + 1; }",
    )
    .unwrap();
    let mut interpreter = Interpreter::new();
    interpreter.interpret(&program).unwrap();
    assert_eq!(interpreter.scope_count(), 1);
}

#[test]
fn scope_of_a_call_stays_while_a_function_holds_it() {
    let program = parse(
        "def counter() { var count = 0; def next() { count = count + 1; return count; } return next; }
         var a = counter();
         var b = counter();
         print a(); print b(); print a();",
    )
    .unwrap();
    let mut interpreter = Interpreter::new();
    interpreter.interpret(&program).unwrap();
    assert_eq!(interpreter.output().clone(), vec!["1", "1", "2"]);
    assert_eq!(interpreter.scope_count(), 3);
}

#[test]
fn scopes_are_let_go_when_an_error_unwinds() {
    let program = parse("def f() { { { print nothing; } } } f();").unwrap();
    let mut interpreter = Interpreter::new();
    assert!(interpreter.interpret(&program).is_err());
    assert_eq!(interpreter.scope_count(), 1);
}

#[test]
fn numbers_are_printed_with_the_fewest_digits() {
    assert_eq!(lines("print 0.1; print 10000; print 0.1 + 0.2; print 100 * 100;"), vec![
        "0.1",
        "10000",
        "0.30000000000000004",
        "10000",
    ]);
}

#[test]
fn equality_is_looser_than_comparison_when_evaluated() {
    assert_eq!(lines("print true == 1 < 2; print 1 < 2 == true; print 1 != 2 == true;"), vec![
        "true", "true", "true",
    ]);
}
