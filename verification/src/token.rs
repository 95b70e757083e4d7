use vstd::prelude::*;

verus! {

/// Lexical categories: punctuation, operators, literals, keywords, the two
/// lexer-error kinds and end-of-input.
#[derive(Clone, Copy, Debug, PartialEq, Eq, Structural)]
pub enum TType {
    // single token
    LeftParen,
    RightParen,
    LeftBrace,
    RightBrace,
    Comma,
    Dot,
    Minus,
    Plus,
    SemiColon,
    Slash,
    Star,
    // double token
    Bang,
    BangEqual,
    Equal,
    EqualEqual,
    Greater,
    Less,
    GreaterEqual,
    LessEqual,
    // literals
    Identifer,
    String,
    Number,
    // keywords
    And,
    Class,
    Else,
    False,
    True,
    For,
    Fun,
    If,
    Nil,
    Or,
    Print,
    Return,
    Super,
    This,
    Var,
    While,
    // extra
    Eof,
    UnexpectedCharacterError,
    UnterminatedStringError,
}

impl TType {
    /// The report a lexer-error kind carries; `None` for every real token.
    pub fn error_message(&self) -> (m: Option<&'static str>)
        ensures
            m is Some <==> (self is UnexpectedCharacterError || self is UnterminatedStringError),
            self is UnexpectedCharacterError ==> m->0@ == "Unexpected character."@,
            self is UnterminatedStringError ==> m->0@ == "Unterminated string."@,
    {
        match self {
            Self::UnexpectedCharacterError => Some("Unexpected character."),
            Self::UnterminatedStringError => Some("Unterminated string."),
            _ => None,
        }
    }
}

/// An immutable token: its kind, a borrow of the source text it was read
/// from (absent for end-of-input), and the line it ends on.
#[derive(Clone, Copy, Debug)]
pub struct Token<'a> {
    pub ttype: TType,
    pub lexeme: Option<&'a str>,
    pub line: usize,
}

impl<'a> Token<'a> {
    pub fn new(ttype: TType, lexeme: Option<&'a str>, line: usize) -> (t: Token<'a>)
        ensures
            t.ttype == ttype,
            t.lexeme == lexeme,
            t.line == line,
    {
        Token { ttype, lexeme, line }
    }
}

} // verus!
