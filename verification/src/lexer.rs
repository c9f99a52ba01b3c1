//! The scanner: from source text to tokens.

use vstd::prelude::*;
use vstd::string::*;
use crate::token::{token_views, Token, TokenType, TokenView};

verus! {

/// Why a text is no sequence of tokens.
#[derive(Clone, Copy, Debug, PartialEq, Eq, Structural)]
pub enum LexerError {
    UnexpectedCharacter { character: char, line: usize },
    UnterminatedString { line: usize },
}

/// Whether `c` is a decimal digit.
pub open spec fn is_digit(c: char) -> bool {
    '0' <= c <= '9'
}

/// Whether `c` can start a name.
pub open spec fn is_letter(c: char) -> bool {
    ('a' <= c <= 'z') || ('A' <= c <= 'Z') || c == '_'
}

/// Whether `c` separates tokens without being one.
pub open spec fn is_blank(c: char) -> bool {
    c == ' ' || c == '\t' || c == '\r' || c == '\n'
}

/// The end of the digits that start at `pos`.
pub open spec fn digits_end(s: Seq<char>, pos: nat) -> nat
    decreases s.len() - pos,
{
    if pos < s.len() && is_digit(s[pos as int]) {
        digits_end(s, pos + 1)
    } else {
        pos
    }
}

/// The end of the letters and digits that start at `pos`.
pub open spec fn word_end(s: Seq<char>, pos: nat) -> nat
    decreases s.len() - pos,
{
    if pos < s.len() && (is_letter(s[pos as int]) || is_digit(s[pos as int])) {
        word_end(s, pos + 1)
    } else {
        pos
    }
}

/// The end of the line in which `pos` stands: the place of its line break,
/// or the end of the text.
pub open spec fn line_end(s: Seq<char>, pos: nat) -> nat
    decreases s.len() - pos,
{
    if pos < s.len() && s[pos as int] != '\n' {
        line_end(s, pos + 1)
    } else {
        pos
    }
}

/// The end of the content of a string that starts at `pos`: the place of
/// the next quote or line break, or the end of the text.
pub open spec fn quote_at(s: Seq<char>, pos: nat) -> nat
    decreases s.len() - pos,
{
    if pos < s.len() && s[pos as int] != '"' && s[pos as int] != '\n' {
        quote_at(s, pos + 1)
    } else {
        pos
    }
}

/// The end of a number that starts at `pos`: its digits, and behind a dot
/// that digits follow, those digits too.
pub open spec fn number_end(s: Seq<char>, pos: nat) -> nat {
    let whole = digits_end(s, pos);
    if whole + 1 < s.len() && s[whole as int] == '.' && is_digit(s[(whole + 1) as int]) {
        digits_end(s, whole + 1)
    } else {
        whole
    }
}

/// The kind of the token that a word is: a keyword's, or that of a name.
pub open spec fn word_kind(word: Seq<char>) -> TokenType {
    if word == "and"@ {
        TokenType::And
    } else if word == "class"@ {
        TokenType::Class
    } else if word == "def"@ {
        TokenType::Def
    } else if word == "else"@ {
        TokenType::Else
    } else if word == "false"@ {
        TokenType::False
    } else if word == "for"@ {
        TokenType::For
    } else if word == "if"@ {
        TokenType::If
    } else if word == "null"@ {
        TokenType::Null
    } else if word == "or"@ {
        TokenType::Or
    } else if word == "print"@ {
        TokenType::Print
    } else if word == "return"@ {
        TokenType::Return
    } else if word == "true"@ {
        TokenType::True
    } else if word == "var"@ {
        TokenType::Var
    } else if word == "while"@ {
        TokenType::While
    } else {
        TokenType::Identifier
    }
}

/// The kind of the token that the sign `c` is where `next` follows it, and
/// whether the token takes `next` in.
pub open spec fn sign(c: char, next: Option<char>) -> Option<(TokenType, bool)> {
    if c == '(' {
        Some((TokenType::LParen, false))
    } else if c == ')' {
        Some((TokenType::RParen, false))
    } else if c == '{' {
        Some((TokenType::LBrace, false))
    } else if c == '}' {
        Some((TokenType::RBrace, false))
    } else if c == '[' {
        Some((TokenType::LBrack, false))
    } else if c == ']' {
        Some((TokenType::RBrack, false))
    } else if c == ',' {
        Some((TokenType::Comma, false))
    } else if c == '.' {
        Some((TokenType::Dot, false))
    } else if c == ':' {
        Some((TokenType::Colon, false))
    } else if c == ';' {
        Some((TokenType::Semicolon, false))
    } else if c == '*' {
        Some((TokenType::Asterisk, false))
    } else if c == '/' {
        Some((TokenType::FSlash, false))
    } else if c == '+' {
        if next == Some('+') {
            Some((TokenType::Incr, true))
        } else {
            Some((TokenType::Plus, false))
        }
    } else if c == '-' {
        if next == Some('-') {
            Some((TokenType::Decr, true))
        } else {
            Some((TokenType::Minus, false))
        }
    } else if c == '!' {
        if next == Some('=') {
            Some((TokenType::BangEqual, true))
        } else {
            Some((TokenType::Bang, false))
        }
    } else if c == '=' {
        if next == Some('=') {
            Some((TokenType::EqualEqual, true))
        } else {
            Some((TokenType::Equal, false))
        }
    } else if c == '>' {
        if next == Some('=') {
            Some((TokenType::GreaterEqual, true))
        } else {
            Some((TokenType::Greater, false))
        }
    } else if c == '<' {
        if next == Some('=') {
            Some((TokenType::LessEqual, true))
        } else {
            Some((TokenType::Less, false))
        }
    } else {
        None
    }
}

/// The character behind `pos`, if there is one.
pub open spec fn following(s: Seq<char>, pos: nat) -> Option<char> {
    if pos + 1 < s.len() {
        Some(s[(pos + 1) as int])
    } else {
        None
    }
}

/// The token of kind `kind` that the text from `from` to `to` is.
pub open spec fn token(s: Seq<char>, kind: TokenType, from: nat, to: nat, line: usize) -> TokenView {
    TokenView {
        token_type: kind,
        lexeme: s.subrange(from as int, to as int),
        literal: if kind == TokenType::String {
            s.subrange((from + 1) as int, (to - 1) as int)
        } else {
            s.subrange(from as int, to as int)
        },
        line,
        start: from as usize,
    }
}

/// What one step of scanning found at a place.
pub enum Found {
    /// Nothing to keep, up to the place given.
    Skip(nat),
    /// A token, up to the place given.
    Token(TokenView, nat),
    /// An error.
    Failed(LexerError),
}

/// What stands at `pos`, which is inside the text. A string ends in the
/// line in which it starts.
pub open spec fn found(s: Seq<char>, pos: nat, line: usize) -> Found {
    let c = s[pos as int];
    if is_blank(c) {
        Found::Skip(pos + 1)
    } else if c == '/' && following(s, pos) == Some('/') {
        Found::Skip(line_end(s, pos))
    } else if c == '"' {
        let close = quote_at(s, pos + 1);
        if close < s.len() && s[close as int] == '"' {
            Found::Token(token(s, TokenType::String, pos, close + 1, line), close + 1)
        } else {
            Found::Failed(LexerError::UnterminatedString { line })
        }
    } else if is_digit(c) {
        Found::Token(token(s, TokenType::Num, pos, number_end(s, pos), line), number_end(s, pos))
    } else if is_letter(c) {
        let end = word_end(s, pos);
        Found::Token(token(s, word_kind(s.subrange(pos as int, end as int)), pos, end, line), end)
    } else {
        match sign(c, following(s, pos)) {
            Some((kind, two)) => {
                let end = if two {
                    pos + 2
                } else {
                    pos + 1
                };
                Found::Token(token(s, kind, pos, end, line), end)
            },
            None => Found::Failed(LexerError::UnexpectedCharacter { character: c, line }),
        }
    }
}

/// The line behind the character at `pos`, which stands in `line`.
pub open spec fn line_behind(s: Seq<char>, pos: nat, line: usize) -> usize {
    if s[pos as int] == '\n' && line < usize::MAX {
        (line + 1) as usize
    } else {
        line
    }
}

/// The end marker of a text that ends in `line`.
pub open spec fn end_marker(s: Seq<char>, line: usize) -> TokenView {
    TokenView {
        token_type: TokenType::Eof,
        lexeme: Seq::empty(),
        literal: Seq::empty(),
        line,
        start: s.len() as usize,
    }
}

/// The tokens of the text from `pos` on, behind those found so far, with
/// the end marker as the last; or the first error. Lines count from the one
/// given. What is found ends behind the place where it starts
/// ([`found_goes_on`]); that the definition asks for it makes it
/// well-founded.
pub open spec fn scan_from(s: Seq<char>, pos: nat, line: usize, sofar: Seq<TokenView>) -> Result<
    Seq<TokenView>,
    LexerError,
>
    decreases s.len() - pos,
{
    if pos >= s.len() {
        Ok(sofar.push(end_marker(s, line)))
    } else {
        match found(s, pos, line) {
            Found::Skip(next) => if pos < next <= s.len() {
                scan_from(s, next, line_behind(s, pos, line), sofar)
            } else {
                Ok(sofar)
            },
            Found::Token(t, next) => if pos < next <= s.len() {
                scan_from(s, next, line, sofar.push(t))
            } else {
                Ok(sofar)
            },
            Found::Failed(e) => Err(e),
        }
    }
}

/// The tokens of a text: lines count from 1.
pub open spec fn scan(s: Seq<char>) -> Result<Seq<TokenView>, LexerError> {
    scan_from(s, 0, 1, Seq::empty())
}

/// Every run of characters ends inside the text, at or behind its start.
pub proof fn runs_end_in_text(s: Seq<char>, pos: nat)
    requires
        pos <= s.len(),
    ensures
        pos <= digits_end(s, pos) <= s.len(),
        pos <= word_end(s, pos) <= s.len(),
        pos <= line_end(s, pos) <= s.len(),
        pos <= quote_at(s, pos) <= s.len(),
    decreases s.len() - pos,
{
    if pos < s.len() {
        runs_end_in_text(s, pos + 1);
    }
}

/// Whatever stands at a place inside the text ends behind that place and
/// inside the text.
#[verifier::rlimit(100)]
pub proof fn found_goes_on(s: Seq<char>, pos: nat, line: usize)
    requires
        pos < s.len(),
    ensures
        found(s, pos, line) matches Found::Skip(next) ==> pos < next <= s.len(),
        found(s, pos, line) matches Found::Token(t, next) ==> pos < next <= s.len(),
{
    runs_end_in_text(s, pos);
    runs_end_in_text(s, pos + 1);
    let c = s[pos as int];
    if c == '/' && following(s, pos) == Some('/') {
        assert(line_end(s, pos) == line_end(s, pos + 1));
    } else if is_digit(c) {
        let whole = digits_end(s, pos);
        assert(whole == digits_end(s, pos + 1));
        if whole + 1 <= s.len() {
            runs_end_in_text(s, whole + 1);
        }
    } else if is_letter(c) {
        assert(word_end(s, pos) == word_end(s, pos + 1));
    }
}

/// The tokens of a text end with the end marker, and the parser can read
/// them.
pub proof fn scanned_tokens_end_with_marker(s: Seq<char>, pos: nat, line: usize, sofar: Seq<TokenView>)
    requires
        pos <= s.len(),
    ensures
        scan_from(s, pos, line, sofar) matches Ok(tokens) ==> crate::grammar::well_terminated(tokens),
    decreases s.len() - pos,
{
    if pos < s.len() {
        found_goes_on(s, pos, line);
        match found(s, pos, line) {
            Found::Skip(next) => {
                scanned_tokens_end_with_marker(s, next, line_behind(s, pos, line), sofar);
            },
            Found::Token(t, next) => {
                scanned_tokens_end_with_marker(s, next, line, sofar.push(t));
            },
            Found::Failed(e) => {},
        }
    }
}

/// Whether `c` is a decimal digit.
fn digit(c: char) -> (b: bool)
    ensures
        b == is_digit(c),
{
    '0' <= c && c <= '9'
}

/// Whether `c` can start a name.
fn letter(c: char) -> (b: bool)
    ensures
        b == is_letter(c),
{
    ('a' <= c && c <= 'z') || ('A' <= c && c <= 'Z') || c == '_'
}

/// The kind of the token that a word is.
#[verifier::rlimit(100)]
fn kind_of_word(word: &str) -> (kind: TokenType)
    ensures
        kind == word_kind(word@),
{
    let owned = String::from_str(word);
    if owned == String::from_str("and") {
        TokenType::And
    } else if owned == String::from_str("class") {
        TokenType::Class
    } else if owned == String::from_str("def") {
        TokenType::Def
    } else if owned == String::from_str("else") {
        TokenType::Else
    } else if owned == String::from_str("false") {
        TokenType::False
    } else if owned == String::from_str("for") {
        TokenType::For
    } else if owned == String::from_str("if") {
        TokenType::If
    } else if owned == String::from_str("null") {
        TokenType::Null
    } else if owned == String::from_str("or") {
        TokenType::Or
    } else if owned == String::from_str("print") {
        TokenType::Print
    } else if owned == String::from_str("return") {
        TokenType::Return
    } else if owned == String::from_str("true") {
        TokenType::True
    } else if owned == String::from_str("var") {
        TokenType::Var
    } else if owned == String::from_str("while") {
        TokenType::While
    } else {
        TokenType::Identifier
    }
}

/// The kind of the token that a sign is, and whether it takes in the
/// character behind it.
#[verifier::rlimit(100)]
fn kind_of_sign(c: char, next: Option<char>) -> (kind: Option<(TokenType, bool)>)
    ensures
        kind == sign(c, next),
{
    let doubled = match next {
        Some(n) => n == c,
        None => false,
    };
    let equals = match next {
        Some(n) => n == '=',
        None => false,
    };
    if c == '(' {
        Some((TokenType::LParen, false))
    } else if c == ')' {
        Some((TokenType::RParen, false))
    } else if c == '{' {
        Some((TokenType::LBrace, false))
    } else if c == '}' {
        Some((TokenType::RBrace, false))
    } else if c == '[' {
        Some((TokenType::LBrack, false))
    } else if c == ']' {
        Some((TokenType::RBrack, false))
    } else if c == ',' {
        Some((TokenType::Comma, false))
    } else if c == '.' {
        Some((TokenType::Dot, false))
    } else if c == ':' {
        Some((TokenType::Colon, false))
    } else if c == ';' {
        Some((TokenType::Semicolon, false))
    } else if c == '*' {
        Some((TokenType::Asterisk, false))
    } else if c == '/' {
        Some((TokenType::FSlash, false))
    } else if c == '+' {
        if doubled {
            Some((TokenType::Incr, true))
        } else {
            Some((TokenType::Plus, false))
        }
    } else if c == '-' {
        if doubled {
            Some((TokenType::Decr, true))
        } else {
            Some((TokenType::Minus, false))
        }
    } else if c == '!' {
        if equals {
            Some((TokenType::BangEqual, true))
        } else {
            Some((TokenType::Bang, false))
        }
    } else if c == '=' {
        if equals {
            Some((TokenType::EqualEqual, true))
        } else {
            Some((TokenType::Equal, false))
        }
    } else if c == '>' {
        if equals {
            Some((TokenType::GreaterEqual, true))
        } else {
            Some((TokenType::Greater, false))
        }
    } else if c == '<' {
        if equals {
            Some((TokenType::LessEqual, true))
        } else {
            Some((TokenType::Less, false))
        }
    } else {
        None
    }
}

/// The scanner of one source text.
pub struct Lexer {
    source: String,
}

impl Lexer {
    /// The text that the scanner reads.
    pub closed spec fn text(&self) -> Seq<char> {
        self.source@
    }

    /// A scanner of `source`.
    pub fn new(source: String) -> (lexer: Lexer)
        ensures
            lexer.text() == source@,
    {
        Lexer { source }
    }

    /// The end of the digits that start at `pos`.
    fn digits_end(&self, pos: usize, len: usize) -> (end: usize)
        requires
            pos <= len == self.text().len(),
        ensures
            end == digits_end(self.text(), pos as nat),
            pos <= end <= len,
    {
        let mut i = pos;
        while i < len && digit(self.source.as_str().get_char(i))
            invariant
                pos <= i <= len == self.text().len(),
                digits_end(self.text(), pos as nat) == digits_end(self.text(), i as nat),
            decreases len - i,
        {
            i += 1;
        }
        i
    }

    /// The end of the letters and digits that start at `pos`.
    fn word_end(&self, pos: usize, len: usize) -> (end: usize)
        requires
            pos <= len == self.text().len(),
        ensures
            end == word_end(self.text(), pos as nat),
            pos <= end <= len,
    {
        let mut i = pos;
        while i < len && (letter(self.source.as_str().get_char(i)) || digit(self.source.as_str().get_char(i)))
            invariant
                pos <= i <= len == self.text().len(),
                word_end(self.text(), pos as nat) == word_end(self.text(), i as nat),
            decreases len - i,
        {
            i += 1;
        }
        i
    }

    /// The end of the line in which `pos` stands.
    fn line_end(&self, pos: usize, len: usize) -> (end: usize)
        requires
            pos <= len == self.text().len(),
        ensures
            end == line_end(self.text(), pos as nat),
            pos <= end <= len,
    {
        let mut i = pos;
        while i < len && self.source.as_str().get_char(i) != '\n'
            invariant
                pos <= i <= len == self.text().len(),
                line_end(self.text(), pos as nat) == line_end(self.text(), i as nat),
            decreases len - i,
        {
            i += 1;
        }
        i
    }

    /// The end of the content of a string that starts at `pos`.
    fn quote_at(&self, pos: usize, len: usize) -> (end: usize)
        requires
            pos <= len == self.text().len(),
        ensures
            end == quote_at(self.text(), pos as nat),
            pos <= end <= len,
    {
        let mut i = pos;
        while i < len && self.source.as_str().get_char(i) != '"' && self.source.as_str().get_char(i) != '\n'
            invariant
                pos <= i <= len == self.text().len(),
                quote_at(self.text(), pos as nat) == quote_at(self.text(), i as nat),
            decreases len - i,
        {
            i += 1;
        }
        i
    }

    /// The end of a number that starts at `pos`.
    fn number_end(&self, pos: usize, len: usize) -> (end: usize)
        requires
            pos <= len == self.text().len(),
        ensures
            end == number_end(self.text(), pos as nat),
            pos <= end <= len,
    {
        let whole = self.digits_end(pos, len);
        if whole < len && len - whole > 1 && self.source.as_str().get_char(whole) == '.' && digit(
            self.source.as_str().get_char(whole + 1),
        ) {
            self.digits_end(whole + 1, len)
        } else {
            whole
        }
    }

    /// The token of kind `kind` that the text from `from` to `to` is.
    fn token(&self, kind: TokenType, from: usize, to: usize, line: usize) -> (made: Token)
        requires
            from < to <= self.text().len(),
            kind == TokenType::String ==> from + 2 <= to,
        ensures
            made@ == token(self.text(), kind, from as nat, to as nat, line),
    {
        let lexeme = String::from_str(self.source.as_str().substring_char(from, to));
        let literal = if kind == TokenType::String {
            String::from_str(self.source.as_str().substring_char(from + 1, to - 1))
        } else {
            String::from_str(self.source.as_str().substring_char(from, to))
        };
        Token::new(kind, lexeme, literal, line, from)
    }

    /// Scans the text: its tokens, with the end marker as the last, or the
    /// first error.
    #[verifier::rlimit(100)]
    pub fn run(&self) -> (result: Result<Vec<Token>, LexerError>)
        ensures
            match scan(self.text()) {
                Ok(tokens) => result matches Ok(found) && token_views(found@) == tokens,
                Err(e) => result == Err::<Vec<Token>, LexerError>(e),
            },
            result matches Ok(found) ==> crate::grammar::well_terminated(token_views(found@)),
    {
        proof {
            scanned_tokens_end_with_marker(self.text(), 0, 1, Seq::empty());
        }
        let len = self.source.as_str().unicode_len();
        let ghost s = self.text();
        let mut tokens: Vec<Token> = Vec::new();
        let mut pos: usize = 0;
        let mut line: usize = 1;
        assert(token_views(tokens@) =~= Seq::empty());
        while pos < len
            invariant
                pos <= len == s.len(),
                s == self.text(),
                scan(s) == scan_from(s, pos as nat, line, token_views(tokens@)),
            decreases len - pos,
        {
            let ghost sofar = token_views(tokens@);
            proof {
                runs_end_in_text(s, pos as nat);
                runs_end_in_text(s, (pos + 1) as nat);
            }
            let c = self.source.as_str().get_char(pos);
            let next = if len - pos > 1 {
                Some(self.source.as_str().get_char(pos + 1))
            } else {
                None
            };
            if c == ' ' || c == '\t' || c == '\r' || c == '\n' {
                if c == '\n' && line < usize::MAX {
                    line += 1;
                }
                pos += 1;
                assert(scan(s) == scan_from(s, pos as nat, line, token_views(tokens@)));
            } else if c == '/' && next == Some('/') {
                let end = self.line_end(pos, len);
                proof {
                    assert(line_end(s, pos as nat) == line_end(s, (pos + 1) as nat));
                }
                pos = end;
                assert(scan(s) == scan_from(s, pos as nat, line, token_views(tokens@)));
            } else if c == '"' {
                let close = self.quote_at(pos + 1, len);
                if close < len && self.source.as_str().get_char(close) == '"' {
                    let made = self.token(TokenType::String, pos, close + 1, line);
                    tokens.push(made);
                    assert(token_views(tokens@) =~= sofar.push(made@));
                    pos = close + 1;
                    assert(scan(s) == scan_from(s, pos as nat, line, token_views(tokens@)));
                } else {
                    return Err(LexerError::UnterminatedString { line });
                }
            } else if digit(c) {
                let end = self.number_end(pos, len);
                proof {
                    let whole = digits_end(s, pos as nat);
                    assert(whole == digits_end(s, (pos + 1) as nat));
                    if whole + 1 <= s.len() {
                        runs_end_in_text(s, whole + 1);
                    }
                    assert(end > pos);
                }
                let made = self.token(TokenType::Num, pos, end, line);
                tokens.push(made);
                assert(token_views(tokens@) =~= sofar.push(made@));
                pos = end;
                assert(scan(s) == scan_from(s, pos as nat, line, token_views(tokens@)));
            } else if letter(c) {
                let end = self.word_end(pos, len);
                proof {
                    assert(word_end(s, pos as nat) == word_end(s, (pos + 1) as nat));
                }
                let kind = kind_of_word(self.source.as_str().substring_char(pos, end));
                let made = self.token(kind, pos, end, line);
                tokens.push(made);
                assert(token_views(tokens@) =~= sofar.push(made@));
                pos = end;
                assert(scan(s) == scan_from(s, pos as nat, line, token_views(tokens@)));
            } else {
                match kind_of_sign(c, next) {
                    Some((kind, two)) => {
                        let end = if two {
                            pos + 2
                        } else {
                            pos + 1
                        };
                        let made = self.token(kind, pos, end, line);
                        tokens.push(made);
                        assert(token_views(tokens@) =~= sofar.push(made@));
                        pos = end;
                    },
                    None => {
                        return Err(LexerError::UnexpectedCharacter { character: c, line });
                    },
                }
            }
        }
        let ghost sofar = token_views(tokens@);
        let last = Token::new(TokenType::Eof, String::new(), String::new(), line, len);
        tokens.push(last);
        assert(token_views(tokens@) =~= sofar.push(last@));
        Ok(tokens)
    }
}

} // verus!
