use treewalk::error::ParserError;
use treewalk::expr::Expr;
use treewalk::lexer::Lexer;
use treewalk::parser::Parser;
use treewalk::stmt::Stmt;
use treewalk::token::{Token, TokenType};
use treewalk::value::LiteralType;

fn parse(source: &str) -> Result<Vec<Stmt>, ParserError> {
    let tokens = Lexer::new(source.to_string()).run().unwrap();
    Parser::new(tokens).parse()
}

fn expression(source: &str) -> Expr {
    match parse(source).unwrap().pop().unwrap() {
        Stmt::Expression { expression } => expression,
        other => panic!("{:?}", other),
    }
}

fn number(expr: &Expr) -> f64 {
    match expr {
        Expr::Literal { value: LiteralType::Num(n) } => f64::from_bits(n.bits),
        other => panic!("{:?}", other),
    }
}

#[test]
fn empty_program_parses_to_nothing() {
    assert!(parse("").unwrap().is_empty());
}

#[test]
fn stream_without_end_marker_is_not_accepted() {
    assert!(!Parser::accepts(&vec![]));
    let semicolon = Token::new(TokenType::Semicolon, ";".to_string(), ";".to_string(), 1, 0);
    assert!(!Parser::accepts(&vec![semicolon]));
    let end = Token::new(TokenType::Eof, String::new(), String::new(), 1, 0);
    assert!(Parser::accepts(&vec![end]));
}

#[test]
fn product_is_the_right_operand_of_sum() {
    match expression("1 + 2 * 3;") {
        Expr::Binary { left, operator, right } => {
            assert_eq!(operator.token_type, TokenType::Plus);
            assert_eq!(number(&left), 1.0);
            match *right {
                Expr::Binary { left, operator, right } => {
                    assert_eq!(operator.token_type, TokenType::Asterisk);
                    assert_eq!(number(&left), 2.0);
                    assert_eq!(number(&right), 3.0);
                }
                other => panic!("{:?}", other),
            }
        }
        other => panic!("{:?}", other),
    }
}

#[test]
fn grouping_is_the_left_operand_of_product() {
    match expression("(1 + 2) * 3;") {
        Expr::Binary { left, operator, right } => {
            assert_eq!(operator.token_type, TokenType::Asterisk);
            assert!(matches!(*left, Expr::Grouping { .. }));
            assert_eq!(number(&right), 3.0);
        }
        other => panic!("{:?}", other),
    }
}

#[test]
fn difference_associates_to_the_left() {
    match expression("1 - 2 - 3;") {
        Expr::Binary { left, operator: _, right } => {
            assert!(matches!(*left, Expr::Binary { .. }));
            assert_eq!(number(&right), 3.0);
        }
        other => panic!("{:?}", other),
    }
}

#[test]
fn assignment_associates_to_the_right() {
    match expression("a = b = 1;") {
        Expr::Assign { name, value } => {
            assert_eq!(name.lexeme, "a");
            assert!(matches!(*value, Expr::Assign { .. }));
        }
        other => panic!("{:?}", other),
    }
}

#[test]
fn number_literals_are_read_as_doubles() {
    assert_eq!(number(&expression("12.5;")), 12.5);
    assert_eq!(number(&expression("0;")), 0.0);
}

#[test]
fn number_literal_may_be_surrounded_by_blanks() {
    let tokens = vec![
        Token::new(TokenType::Num, "7".to_string(), "  7 \n".to_string(), 1, 0),
        Token::new(TokenType::Semicolon, ";".to_string(), ";".to_string(), 1, 1),
        Token::new(TokenType::Eof, String::new(), String::new(), 1, 2),
    ];
    match Parser::new(tokens).parse().unwrap().pop().unwrap() {
        Stmt::Expression { expression } => assert_eq!(number(&expression), 7.0),
        other => panic!("{:?}", other),
    }
}

#[test]
fn unreadable_number_literal_is_an_error() {
    let tokens = vec![
        Token::new(TokenType::Num, "1.2.3".to_string(), "1.2.3".to_string(), 4, 0),
        Token::new(TokenType::Semicolon, ";".to_string(), ";".to_string(), 4, 1),
        Token::new(TokenType::Eof, String::new(), String::new(), 4, 2),
    ];
    match Parser::new(tokens).parse() {
        Err(ParserError::UnableToParseLiteralToFloat { value, line }) => {
            assert_eq!(value, "1.2.3");
            assert_eq!(line, 4);
        }
        other => panic!("{:?}", other),
    }
}

#[test]
fn string_literal_keeps_its_content() {
    match expression("\"hello\";") {
        Expr::Literal { value: LiteralType::Str(s) } => assert_eq!(s, "hello"),
        other => panic!("{:?}", other),
    }
}

#[test]
fn list_literals_hold_their_items_in_order() {
    match expression("[1, 2, 3];") {
        Expr::List { items } => {
            assert_eq!(items.len(), 3);
            assert_eq!(number(&items[2]), 3.0);
        }
        other => panic!("{:?}", other),
    }
    assert!(matches!(expression("[];"), Expr::List { items } if items.is_empty()));
}

#[test]
fn index_and_slices_are_told_apart() {
    assert!(matches!(
        expression("a[1];"),
        Expr::Splice { is_splice: false, start: Some(_), end: None, .. }
    ));
    assert!(matches!(
        expression("a[1:2];"),
        Expr::Splice { is_splice: true, start: Some(_), end: Some(_), .. }
    ));
    assert!(matches!(expression("a[:2];"), Expr::Splice { is_splice: true, start: None, end: Some(_), .. }));
    assert!(matches!(expression("a[1:];"), Expr::Splice { is_splice: true, start: Some(_), end: None, .. }));
    assert!(matches!(expression("a[:];"), Expr::Splice { is_splice: true, start: None, end: None, .. }));
}

#[test]
fn method_call_keeps_receiver_and_call() {
    match expression("list.push(1);") {
        Expr::ListMethodCall { object, call } => {
            assert_eq!(object.lexeme, "list");
            assert!(matches!(*call, Expr::Call { .. }));
        }
        other => panic!("{:?}", other),
    }
}

#[test]
fn for_without_condition_loops_on_true() {
    match parse("for (;;) print 1;").unwrap().pop().unwrap() {
        Stmt::For { initializer, condition, increment, body } => {
            assert!(initializer.is_none());
            assert!(matches!(condition, Expr::Literal { value: LiteralType::True }));
            assert!(increment.is_none());
            assert!(matches!(*body, Stmt::Print { .. }));
        }
        other => panic!("{:?}", other),
    }
}

#[test]
fn function_declaration_keeps_name_parameters_and_body() {
    match parse("def add(a, b) { return a + b; }").unwrap().pop().unwrap() {
        Stmt::Function { name, params, body } => {
            assert_eq!(name.lexeme, "add");
            assert_eq!(params.len(), 2);
            assert_eq!(params[1].lexeme, "b");
            assert_eq!(body.len(), 1);
        }
        other => panic!("{:?}", other),
    }
}

#[test]
fn increment_needs_a_variable() {
    match parse("\n(x)\n++;") {
        Err(ParserError::InvalidAlterationTarget { target, line }) => {
            assert_eq!(target, "(");
            assert_eq!(line, 2);
        }
        other => panic!("{:?}", other),
    }
}

#[test]
fn assignment_needs_a_variable() {
    match parse("1;\nabc + b\n= 3;") {
        Err(ParserError::InvalidAssignmentTarget { target, line }) => {
            assert_eq!(target, "abc");
            assert_eq!(line, 2);
        }
        other => panic!("{:?}", other),
    }
}

#[test]
fn method_call_needs_a_name_as_receiver() {
    match parse("x;\nfun(1)\n.g();") {
        Err(ParserError::CanOnlyCallIdentifiers { value, line }) => {
            assert_eq!(value, "fun");
            assert_eq!(line, 2);
        }
        other => panic!("{:?}", other),
    }
    assert!(matches!(parse("(a).push(1);"), Err(ParserError::CanOnlyCallIdentifiers { .. })));
}

#[test]
fn missing_expression_names_the_token_before() {
    match parse("print ;") {
        Err(ParserError::ExpectedExpression { prev, line }) => {
            assert_eq!(prev, "print");
            assert_eq!(line, 1);
        }
        other => panic!("{:?}", other),
    }
}

#[test]
fn missing_expression_at_the_start_has_no_token_before() {
    match parse(")") {
        Err(ParserError::ExpectedExpression { prev, line }) => {
            assert_eq!(prev, "");
            assert_eq!(line, 1);
        }
        other => panic!("{:?}", other),
    }
}

#[test]
fn expression_statement_needs_its_semicolon() {
    match parse("1 +\n2") {
        Err(ParserError::ExpectedSemicolonAfterExpression { value, line }) => {
            assert_eq!(value, "2");
            assert_eq!(line, 2);
        }
        other => panic!("{:?}", other),
    }
}

#[test]
fn variable_declaration_needs_its_semicolon() {
    assert!(matches!(parse("var x = 1"), Err(ParserError::ExpectedSemicolonAfterVariableDeclaration { .. })));
}

#[test]
fn print_needs_its_semicolon() {
    match parse("print 1") {
        Err(ParserError::ExpectedSemicolonAfterPrintValue { value, line }) => {
            assert_eq!(value, "1");
            assert_eq!(line, 1);
        }
        other => panic!("{:?}", other),
    }
}

#[test]
fn return_needs_its_semicolon() {
    assert!(matches!(
        parse("def f() { return 1 }"),
        Err(ParserError::ExpectedSemicolonAfterReturnValue { .. })
    ));
}

#[test]
fn for_needs_its_punctuation() {
    assert!(matches!(parse("for x"), Err(ParserError::ExpectedLParenAfterFor { line: 1 })));
    assert!(matches!(parse("for (;1 print"), Err(ParserError::ExpectedSemiColonAfterForCondition { line: 1 })));
    assert!(matches!(parse("for (;;1 print"), Err(ParserError::ExpectedRParenAfterForClauses { line: 1 })));
}

#[test]
fn if_and_while_need_their_parentheses() {
    assert!(matches!(parse("if x"), Err(ParserError::ExpectedLParenAfterIf { line: 1 })));
    assert!(matches!(parse("if (x print"), Err(ParserError::ExpectedRParenAfterCondition { line: 1 })));
    assert!(matches!(parse("while x"), Err(ParserError::ExpectedLParenAfterWhile { line: 1 })));
    assert!(matches!(parse("while (x print"), Err(ParserError::ExpectedRParenAfterCondition { line: 1 })));
}

#[test]
fn block_needs_its_closing_brace() {
    assert!(matches!(parse("{ print 1;"), Err(ParserError::ExpectedRBraceAfterBlock { line: 1 })));
}

#[test]
fn call_and_grouping_need_their_closing_parenthesis() {
    assert!(matches!(parse("f(1;"), Err(ParserError::ExpectedRParenAfterArguments { line: 1 })));
    assert!(matches!(parse("(1;"), Err(ParserError::ExpectedRParenAfterExpression { line: 1 })));
}

#[test]
fn list_and_index_need_their_closing_bracket() {
    assert!(matches!(parse("[1, 2;"), Err(ParserError::ExpectedRBrackAfterValues { line: 1 })));
    assert!(matches!(parse("a[1;"), Err(ParserError::ExpectedRBrackAfterIndex { line: 1 })));
}

#[test]
fn function_declaration_needs_its_parts() {
    assert!(matches!(parse("def (a) { }"), Err(ParserError::ExpectedFunctionName { line: 1 })));
    assert!(matches!(parse("def f a) { }"), Err(ParserError::ExpectedLParenAfterFunctionName { line: 1 })));
    assert!(matches!(parse("def f(1) { }"), Err(ParserError::ExpectedParameterName { line: 1 })));
    assert!(matches!(parse("def f(a { }"), Err(ParserError::ExpectedRParenAfterParameters { line: 1 })));
    assert!(matches!(parse("def f(a) print"), Err(ParserError::ExpectedLBraceBeforeFunctionBody { line: 1 })));
}

fn many(item: &str, count: usize) -> String {
    vec![item; count].join(", ")
}

#[test]
fn function_may_have_255_parameters_and_no_more() {
    let names: Vec<String> = (0..256).map(|i| format!("p{}", i)).collect();
    let accepted = format!("def f({}) {{ }}", names[..255].join(", "));
    assert!(parse(&accepted).is_ok());
    let refused = format!("def f({}) {{ }}", names.join(", "));
    match parse(&refused) {
        Err(ParserError::TooManyParameters { name, line }) => {
            assert_eq!(name, "f");
            assert_eq!(line, 1);
        }
        other => panic!("{:?}", other),
    }
}

#[test]
fn call_may_have_255_arguments_and_no_more() {
    assert!(parse(&format!("f({});", many("1", 255))).is_ok());
    match parse(&format!("f({});", many("1", 256))) {
        Err(ParserError::TooManyArguments { callee }) => assert!(matches!(callee, Expr::Var { .. })),
        other => panic!("{:?}", other),
    }
}

#[test]
fn recovery_stops_behind_a_semicolon() {
    let tokens = Lexer::new("var 1 2 3; print 4;".to_string()).run().unwrap();
    let mut parser = Parser::new(tokens);
    assert!(parser.parse().is_err());
    let rest = parser.parse().unwrap();
    assert_eq!(rest.len(), 1);
    assert!(matches!(rest[0], Stmt::Print { .. }));
}

#[test]
fn recovery_stops_in_front_of_a_statement_keyword() {
    let tokens = Lexer::new("var 1 2 3 print 4;".to_string()).run().unwrap();
    let mut parser = Parser::new(tokens);
    assert!(parser.parse().is_err());
    let rest = parser.parse().unwrap();
    assert_eq!(rest.len(), 1);
    assert!(matches!(rest[0], Stmt::Print { .. }));
}

#[test]
fn expressions_are_shown_as_text() {
    assert_eq!(expression("1 + 2 * (3 - x);").to_text(), "1 + 2 * (3 - x)");
    assert_eq!(expression("f(1, \"a\", [true, null]);").to_text(), "f(1, \"a\", [true, null])");
    assert_eq!(expression("a = b[1:] ;").to_text(), "a = b[1:]");
    assert_eq!(expression("c[:2];").to_text(), "c[:2]");
    assert_eq!(expression("c[0];").to_text(), "c[0]");
    assert_eq!(expression("i++;").to_text(), "i++");
    assert_eq!(expression("i--;").to_text(), "i--");
    assert_eq!(expression("list.push(-1);").to_text(), "list.push(-1)");
    assert_eq!(expression("a or !b and c;").to_text(), "a or !b and c");
}

#[test]
fn statements_are_shown_as_text() {
    let program = parse(
        "var x; var y = 1; print y; { x = 2; } if (x) print 1; else print 2; if (x) print 1; while (x) x--; \
         for (var i = 0; i < 2; i++) print i; for (;;) return; def f(a, b) { return a; print b; }",
    )
    .unwrap();
    let shown: Vec<String> = program.iter().map(|s| s.to_text()).collect();
    assert_eq!(
        shown,
        vec![
            "Var(x)",
            "Var(y 1)",
            "Print(y)",
            "Block(Expression(x = 2))",
            "If(x Print(1) Print(2))",
            "If(x Print(1))",
            "While(x Expression(x--))",
            "For(Var(i 0) i < 2 i++ Print(i))",
            "For(none true none Return(none))",
            "Function(f (a b) Return(a) Print(b))",
        ]
    );
}

fn sign_of(expr: &Expr) -> TokenType {
    match expr {
        Expr::Binary { operator, .. } => operator.token_type,
        Expr::Logical { operator, .. } => operator.token_type,
        other => panic!("{:?}", other),
    }
}

#[test]
fn comparison_binds_tighter_than_equality() {
    match expression("1 == 2 < 3;") {
        Expr::Binary { left, operator, right } => {
            assert_eq!(operator.token_type, TokenType::EqualEqual);
            assert_eq!(number(&left), 1.0);
            match *right {
                Expr::Binary { left, operator, right } => {
                    assert_eq!(operator.token_type, TokenType::Less);
                    assert_eq!(number(&left), 2.0);
                    assert_eq!(number(&right), 3.0);
                }
                other => panic!("{:?}", other),
            }
        }
        other => panic!("{:?}", other),
    }
    match expression("1 < 2 != 3 >= 4;") {
        Expr::Binary { left, operator, right } => {
            assert_eq!(operator.token_type, TokenType::BangEqual);
            assert_eq!(sign_of(&left), TokenType::Less);
            assert_eq!(sign_of(&right), TokenType::GreaterEqual);
        }
        other => panic!("{:?}", other),
    }
}

#[test]
fn equality_associates_to_the_left() {
    match expression("1 == 2 != 3;") {
        Expr::Binary { left, operator, right } => {
            assert_eq!(operator.token_type, TokenType::BangEqual);
            assert_eq!(sign_of(&left), TokenType::EqualEqual);
            assert_eq!(number(&right), 3.0);
        }
        other => panic!("{:?}", other),
    }
}

#[test]
fn levels_nest_from_or_down_to_factor() {
    // a or b and c == d < e + f * g
    let tree = expression("a or b and c == d < e + f * g;");
    assert_eq!(sign_of(&tree), TokenType::Or);
    let and = match tree {
        Expr::Logical { right, .. } => *right,
        other => panic!("{:?}", other),
    };
    assert_eq!(sign_of(&and), TokenType::And);
    let equality = match and {
        Expr::Logical { right, .. } => *right,
        other => panic!("{:?}", other),
    };
    assert_eq!(sign_of(&equality), TokenType::EqualEqual);
    let comparison = match equality {
        Expr::Binary { right, .. } => *right,
        other => panic!("{:?}", other),
    };
    assert_eq!(sign_of(&comparison), TokenType::Less);
    let term = match comparison {
        Expr::Binary { right, .. } => *right,
        other => panic!("{:?}", other),
    };
    assert_eq!(sign_of(&term), TokenType::Plus);
    let factor = match term {
        Expr::Binary { right, .. } => *right,
        other => panic!("{:?}", other),
    };
    assert_eq!(sign_of(&factor), TokenType::Asterisk);
}

#[test]
fn bang_is_no_binary_operator() {
    assert!(matches!(parse("a ! b;"), Err(ParserError::ExpectedSemicolonAfterExpression { .. })));
}

#[test]
fn comma_may_stand_behind_the_last_item_of_a_list() {
    match expression("[1, 2,];") {
        Expr::List { items } => {
            assert_eq!(items.len(), 2);
            assert_eq!(number(&items[1]), 2.0);
        }
        other => panic!("{:?}", other),
    }
    assert!(matches!(expression("[1,];"), Expr::List { items } if items.len() == 1));
}

#[test]
fn list_is_closed_by_one_bracket() {
    assert!(matches!(parse("[1,]];"), Err(ParserError::ExpectedSemicolonAfterExpression { .. })));
    assert!(matches!(parse("[1]];"), Err(ParserError::ExpectedSemicolonAfterExpression { .. })));
    assert!(matches!(parse("[,];"), Err(ParserError::ExpectedExpression { .. })));
    assert!(matches!(parse("[1,,];"), Err(ParserError::ExpectedExpression { .. })));
    assert!(matches!(parse("[1 2];"), Err(ParserError::ExpectedRBrackAfterValues { line: 1 })));
}
