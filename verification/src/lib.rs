pub mod analyser;
pub mod callable;
pub mod display;
pub mod environment;
pub mod error;
pub mod expr;
pub mod grammar;
pub mod guarantees;
pub mod interpreter;
pub mod lexer;
pub mod number;
pub mod ordering;
pub mod parser;
pub mod persistence;
pub mod precedence;
pub mod recovery;
pub mod semantics;
pub mod stmt;
pub mod token;
pub mod value;
