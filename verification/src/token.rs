//! Tokens: the units a scanner hands to the parser.

use vstd::prelude::*;

verus! {

/// The kind of a token.
#[derive(Clone, Copy, Debug, PartialEq, Eq, Structural)]
pub enum TokenType {
    LParen,
    RParen,
    LBrace,
    RBrace,
    LBrack,
    RBrack,
    Comma,
    Dot,
    Colon,
    Semicolon,
    Minus,
    Plus,
    FSlash,
    Asterisk,
    Incr,
    Decr,
    Bang,
    BangEqual,
    Equal,
    EqualEqual,
    Greater,
    GreaterEqual,
    Less,
    LessEqual,
    Identifier,
    String,
    Num,
    And,
    Class,
    Def,
    Else,
    False,
    For,
    If,
    Null,
    Or,
    Print,
    Return,
    True,
    Var,
    While,
    Eof,
}

/// One token of source text. `line` is the 1-based source line, `start` the
/// offset at which the token begins.
#[derive(Debug)]
pub struct Token {
    pub token_type: TokenType,
    pub lexeme: String,
    pub literal: String,
    pub line: usize,
    pub start: usize,
}

/// The mathematical value of a [`Token`]: its texts as character sequences.
pub struct TokenView {
    pub token_type: TokenType,
    pub lexeme: Seq<char>,
    pub literal: Seq<char>,
    pub line: usize,
    pub start: usize,
}

impl View for Token {
    type V = TokenView;

    open spec fn view(&self) -> TokenView {
        TokenView {
            token_type: self.token_type,
            lexeme: self.lexeme@,
            literal: self.literal@,
            line: self.line,
            start: self.start,
        }
    }
}

impl Clone for Token {
    fn clone(&self) -> (copy: Token)
        ensures
            copy == *self,
    {
        Token {
            token_type: self.token_type,
            lexeme: self.lexeme.clone(),
            literal: self.literal.clone(),
            line: self.line,
            start: self.start,
        }
    }
}

impl Token {
    /// Builds a token from its parts.
    pub fn new(token_type: TokenType, lexeme: String, literal: String, line: usize, start: usize) -> (token: Token)
        ensures
            token@ == (TokenView {
                token_type,
                lexeme: lexeme@,
                literal: literal@,
                line,
                start,
            }),
    {
        Token { token_type, lexeme, literal, line, start }
    }
}

/// The views of a sequence of tokens, in order.
pub open spec fn token_views(tokens: Seq<Token>) -> Seq<TokenView> {
    tokens.map_values(|t: Token| t@)
}

} // verus!
