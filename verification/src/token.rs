use vstd::prelude::*;

verus! {

/// The kind of a lexical token. Literal-carrying kinds (`Identifier`,
/// `StringLit`, `Number`) keep their payload in the token's lexeme: an
/// identifier's name, a string literal's contents (the text between the
/// quotes), and a number's digit text are exactly the lexeme.
#[derive(Clone, Copy, Debug, PartialEq, Eq, Structural)]
pub enum TokenValue {
    LeftParen,
    RightParen,
    LeftBrace,
    RightBrace,
    Comma,
    Dot,
    Minus,
    Plus,
    Semicolon,
    Slash,
    Star,
    Bang,
    BangEqual,
    Equal,
    EqualEqual,
    Greater,
    GreaterEqual,
    Less,
    LessEqual,
    Identifier,
    StringLit,
    Number,
    And,
    Class,
    Else,
    False,
    Fun,
    For,
    If,
    Nil,
    Or,
    Print,
    Return,
    Super,
    This,
    True,
    Var,
    While,
    Eof,
}

/// One lexical unit: a kind, the source substring it was scanned from
/// (empty for `Eof`; for a string literal, the text between the quotes),
/// and the 1-based line of its first character.
#[derive(Debug)]
pub struct Token {
    pub value: TokenValue,
    pub lexeme: String,
    pub line: usize,
}

/// The mathematical model of a `Token`: the same data with the lexeme as a
/// sequence of characters.
pub struct SpecToken {
    pub value: TokenValue,
    pub lexeme: Seq<char>,
    pub line: nat,
}

impl View for Token {
    type V = SpecToken;

    open spec fn view(&self) -> SpecToken {
        SpecToken { value: self.value, lexeme: self.lexeme@, line: self.line as nat }
    }
}

/// The model of a sequence of tokens.
pub open spec fn tokens_view(ts: Seq<Token>) -> Seq<SpecToken> {
    ts.map_values(|t: Token| t@)
}

impl Token {
    pub fn new(value: TokenValue, lexeme: String, line: usize) -> (r: Self)
        ensures
            r@ == (SpecToken { value, lexeme: lexeme@, line: line as nat }),
    {
        Self { value, lexeme, line }
    }
}

impl Clone for Token {
    fn clone(&self) -> (r: Self)
        ensures
            r == *self,
    {
        Token { value: self.value, lexeme: self.lexeme.clone(), line: self.line }
    }
}

} // verus!
