//! Errors of the three stages.

use vstd::prelude::*;
use crate::expr::{Expr, ExprView};
use crate::token::TokenType;

verus! {

/// Why a token stream is not a program. `line` is the source line at which
/// the parser stood.
#[derive(Debug)]
pub enum ParserError {
    TooManyParameters { name: String, line: usize },
    TooManyArguments { callee: Expr },
    InvalidAlterationTarget { target: String, line: usize },
    InvalidAssignmentTarget { target: String, line: usize },
    CanOnlyCallIdentifiers { value: String, line: usize },
    UnableToParseLiteralToFloat { value: String, line: usize },
    ExpectedExpression { prev: String, line: usize },
    ExpectedVariableName { lexeme: String, line: usize },
    ExpectedSemicolonAfterVariableDeclaration { lexeme: String, line: usize },
    ExpectedSemicolonAfterPrintValue { value: String, line: usize },
    ExpectedSemicolonAfterReturnValue { value: String, line: usize },
    ExpectedSemicolonAfterExpression { value: String, line: usize },
    ExpectedLParenAfterFor { line: usize },
    ExpectedSemiColonAfterForCondition { line: usize },
    ExpectedRParenAfterForClauses { line: usize },
    ExpectedLParenAfterIf { line: usize },
    ExpectedRParenAfterCondition { line: usize },
    ExpectedLParenAfterWhile { line: usize },
    ExpectedRBraceAfterBlock { line: usize },
    ExpectedRParenAfterArguments { line: usize },
    ExpectedRParenAfterExpression { line: usize },
    ExpectedFunctionName { line: usize },
    ExpectedLParenAfterFunctionName { line: usize },
    ExpectedParameterName { line: usize },
    ExpectedRParenAfterParameters { line: usize },
    ExpectedLBraceBeforeFunctionBody { line: usize },
    ExpectedRBrackAfterValues { line: usize },
    ExpectedRBrackAfterIndex { line: usize },
}

/// The mathematical value of a [`ParserError`].
pub enum ParserErrorView {
    TooManyParameters { name: Seq<char>, line: usize },
    TooManyArguments { callee: ExprView },
    InvalidAlterationTarget { target: Seq<char>, line: usize },
    InvalidAssignmentTarget { target: Seq<char>, line: usize },
    CanOnlyCallIdentifiers { value: Seq<char>, line: usize },
    UnableToParseLiteralToFloat { value: Seq<char>, line: usize },
    ExpectedExpression { prev: Seq<char>, line: usize },
    ExpectedVariableName { lexeme: Seq<char>, line: usize },
    ExpectedSemicolonAfterVariableDeclaration { lexeme: Seq<char>, line: usize },
    ExpectedSemicolonAfterPrintValue { value: Seq<char>, line: usize },
    ExpectedSemicolonAfterReturnValue { value: Seq<char>, line: usize },
    ExpectedSemicolonAfterExpression { value: Seq<char>, line: usize },
    ExpectedLParenAfterFor { line: usize },
    ExpectedSemiColonAfterForCondition { line: usize },
    ExpectedRParenAfterForClauses { line: usize },
    ExpectedLParenAfterIf { line: usize },
    ExpectedRParenAfterCondition { line: usize },
    ExpectedLParenAfterWhile { line: usize },
    ExpectedRBraceAfterBlock { line: usize },
    ExpectedRParenAfterArguments { line: usize },
    ExpectedRParenAfterExpression { line: usize },
    ExpectedFunctionName { line: usize },
    ExpectedLParenAfterFunctionName { line: usize },
    ExpectedParameterName { line: usize },
    ExpectedRParenAfterParameters { line: usize },
    ExpectedLBraceBeforeFunctionBody { line: usize },
    ExpectedRBrackAfterValues { line: usize },
    ExpectedRBrackAfterIndex { line: usize },
}

impl View for ParserError {
    type V = ParserErrorView;

    open spec fn view(&self) -> ParserErrorView {
        match self {
            ParserError::TooManyParameters { name, line } => ParserErrorView::TooManyParameters {
                name: name@,
                line: *line,
            },
            ParserError::TooManyArguments { callee } => ParserErrorView::TooManyArguments { callee: callee@ },
            ParserError::InvalidAlterationTarget { target, line } => ParserErrorView::InvalidAlterationTarget {
                target: target@,
                line: *line,
            },
            ParserError::InvalidAssignmentTarget { target, line } => ParserErrorView::InvalidAssignmentTarget {
                target: target@,
                line: *line,
            },
            ParserError::CanOnlyCallIdentifiers { value, line } => ParserErrorView::CanOnlyCallIdentifiers {
                value: value@,
                line: *line,
            },
            ParserError::UnableToParseLiteralToFloat { value, line } => ParserErrorView::UnableToParseLiteralToFloat {
                value: value@,
                line: *line,
            },
            ParserError::ExpectedExpression { prev, line } => ParserErrorView::ExpectedExpression {
                prev: prev@,
                line: *line,
            },
            ParserError::ExpectedVariableName { lexeme, line } => ParserErrorView::ExpectedVariableName {
                lexeme: lexeme@,
                line: *line,
            },
            ParserError::ExpectedSemicolonAfterVariableDeclaration { lexeme, line } => {
                ParserErrorView::ExpectedSemicolonAfterVariableDeclaration { lexeme: lexeme@, line: *line }
            },
            ParserError::ExpectedSemicolonAfterPrintValue { value, line } => {
                ParserErrorView::ExpectedSemicolonAfterPrintValue { value: value@, line: *line }
            },
            ParserError::ExpectedSemicolonAfterReturnValue { value, line } => {
                ParserErrorView::ExpectedSemicolonAfterReturnValue { value: value@, line: *line }
            },
            ParserError::ExpectedSemicolonAfterExpression { value, line } => {
                ParserErrorView::ExpectedSemicolonAfterExpression { value: value@, line: *line }
            },
            ParserError::ExpectedLParenAfterFor { line } => ParserErrorView::ExpectedLParenAfterFor { line: *line },
            ParserError::ExpectedSemiColonAfterForCondition { line } => {
                ParserErrorView::ExpectedSemiColonAfterForCondition { line: *line }
            },
            ParserError::ExpectedRParenAfterForClauses { line } => ParserErrorView::ExpectedRParenAfterForClauses {
                line: *line,
            },
            ParserError::ExpectedLParenAfterIf { line } => ParserErrorView::ExpectedLParenAfterIf { line: *line },
            ParserError::ExpectedRParenAfterCondition { line } => ParserErrorView::ExpectedRParenAfterCondition {
                line: *line,
            },
            ParserError::ExpectedLParenAfterWhile { line } => ParserErrorView::ExpectedLParenAfterWhile { line: *line },
            ParserError::ExpectedRBraceAfterBlock { line } => ParserErrorView::ExpectedRBraceAfterBlock { line: *line },
            ParserError::ExpectedRParenAfterArguments { line } => ParserErrorView::ExpectedRParenAfterArguments {
                line: *line,
            },
            ParserError::ExpectedRParenAfterExpression { line } => ParserErrorView::ExpectedRParenAfterExpression {
                line: *line,
            },
            ParserError::ExpectedFunctionName { line } => ParserErrorView::ExpectedFunctionName { line: *line },
            ParserError::ExpectedLParenAfterFunctionName { line } => ParserErrorView::ExpectedLParenAfterFunctionName {
                line: *line,
            },
            ParserError::ExpectedParameterName { line } => ParserErrorView::ExpectedParameterName { line: *line },
            ParserError::ExpectedRParenAfterParameters { line } => ParserErrorView::ExpectedRParenAfterParameters {
                line: *line,
            },
            ParserError::ExpectedLBraceBeforeFunctionBody { line } => {
                ParserErrorView::ExpectedLBraceBeforeFunctionBody { line: *line }
            },
            ParserError::ExpectedRBrackAfterValues { line } => ParserErrorView::ExpectedRBrackAfterValues {
                line: *line,
            },
            ParserError::ExpectedRBrackAfterIndex { line } => ParserErrorView::ExpectedRBrackAfterIndex { line: *line },
        }
    }
}

/// Why a program was refused before it ran.
#[derive(Debug)]
pub enum SemanticError {
    ReturnOutsideFunction { line: usize },
    DuplicateParameter { name: String, line: usize },
}

/// The mathematical value of a [`SemanticError`].
pub enum SemanticErrorView {
    ReturnOutsideFunction { line: usize },
    DuplicateParameter { name: Seq<char>, line: usize },
}

impl View for SemanticError {
    type V = SemanticErrorView;

    open spec fn view(&self) -> SemanticErrorView {
        match self {
            SemanticError::ReturnOutsideFunction { line } => SemanticErrorView::ReturnOutsideFunction { line: *line },
            SemanticError::DuplicateParameter { name, line } => SemanticErrorView::DuplicateParameter {
                name: name@,
                line: *line,
            },
        }
    }
}

/// Why a program stopped while it ran. `line` is the source line of the
/// token at which it stopped.
#[derive(Debug)]
pub enum InterpreterError {
    UndefinedVariable { name: String, line: usize },
    ArityMismatch { expected: usize, found: usize },
    NotCallable,
    InvalidArgument,
    InvalidOperand { operator: TokenType, line: usize },
    InvalidOperands { operator: TokenType, line: usize },
    InvalidOperator { operator: TokenType, line: usize },
    DivisionByZero { line: usize },
    NotAList { name: String, line: usize },
    InvalidIndex { line: usize },
    IndexOutOfBounds { line: usize },
    InvalidMethodCall { line: usize },
    UnknownListMethod { name: String, line: usize },
    EmptyList { line: usize },
    ReturnOutsideFunction,
    ExpectedFunctionStatementForDeclaration,
    ExpectedDeclarationToBeAFunction,
    StepLimitExceeded,
    UnknownScope,
    UnknownList,
    UnknownCallable,
}

/// The mathematical value of an [`InterpreterError`].
pub enum InterpreterErrorView {
    UndefinedVariable { name: Seq<char>, line: usize },
    ArityMismatch { expected: usize, found: usize },
    NotCallable,
    InvalidArgument,
    InvalidOperand { operator: TokenType, line: usize },
    InvalidOperands { operator: TokenType, line: usize },
    InvalidOperator { operator: TokenType, line: usize },
    DivisionByZero { line: usize },
    NotAList { name: Seq<char>, line: usize },
    InvalidIndex { line: usize },
    IndexOutOfBounds { line: usize },
    InvalidMethodCall { line: usize },
    UnknownListMethod { name: Seq<char>, line: usize },
    EmptyList { line: usize },
    ReturnOutsideFunction,
    ExpectedFunctionStatementForDeclaration,
    ExpectedDeclarationToBeAFunction,
    StepLimitExceeded,
    UnknownScope,
    UnknownList,
    UnknownCallable,
}

impl View for InterpreterError {
    type V = InterpreterErrorView;

    open spec fn view(&self) -> InterpreterErrorView {
        match self {
            InterpreterError::UndefinedVariable { name, line } => InterpreterErrorView::UndefinedVariable {
                name: name@,
                line: *line,
            },
            InterpreterError::ArityMismatch { expected, found } => InterpreterErrorView::ArityMismatch {
                expected: *expected,
                found: *found,
            },
            InterpreterError::NotCallable => InterpreterErrorView::NotCallable,
            InterpreterError::InvalidArgument => InterpreterErrorView::InvalidArgument,
            InterpreterError::InvalidOperand { operator, line } => InterpreterErrorView::InvalidOperand {
                operator: *operator,
                line: *line,
            },
            InterpreterError::InvalidOperands { operator, line } => InterpreterErrorView::InvalidOperands {
                operator: *operator,
                line: *line,
            },
            InterpreterError::InvalidOperator { operator, line } => InterpreterErrorView::InvalidOperator {
                operator: *operator,
                line: *line,
            },
            InterpreterError::DivisionByZero { line } => InterpreterErrorView::DivisionByZero { line: *line },
            InterpreterError::NotAList { name, line } => InterpreterErrorView::NotAList { name: name@, line: *line },
            InterpreterError::InvalidIndex { line } => InterpreterErrorView::InvalidIndex { line: *line },
            InterpreterError::IndexOutOfBounds { line } => InterpreterErrorView::IndexOutOfBounds { line: *line },
            InterpreterError::InvalidMethodCall { line } => InterpreterErrorView::InvalidMethodCall { line: *line },
            InterpreterError::UnknownListMethod { name, line } => InterpreterErrorView::UnknownListMethod {
                name: name@,
                line: *line,
            },
            InterpreterError::EmptyList { line } => InterpreterErrorView::EmptyList { line: *line },
            InterpreterError::ReturnOutsideFunction => InterpreterErrorView::ReturnOutsideFunction,
            InterpreterError::ExpectedFunctionStatementForDeclaration => {
                InterpreterErrorView::ExpectedFunctionStatementForDeclaration
            },
            InterpreterError::ExpectedDeclarationToBeAFunction => {
                InterpreterErrorView::ExpectedDeclarationToBeAFunction
            },
            InterpreterError::StepLimitExceeded => InterpreterErrorView::StepLimitExceeded,
            InterpreterError::UnknownScope => InterpreterErrorView::UnknownScope,
            InterpreterError::UnknownList => InterpreterErrorView::UnknownList,
            InterpreterError::UnknownCallable => InterpreterErrorView::UnknownCallable,
        }
    }
}

} // verus!
