use crate::span::Spanned;
use vstd::prelude::*;

verus! {

/// The kinds of token the lexer produces.
#[derive(Debug, Clone, Copy, PartialEq, Eq, Structural)]
pub enum TokenType {
    // Literals
    String,
    Integer,
    Float,
    Bool,
    // Identifier
    Identifier,
    // Keywords
    Def,
    Let,
    Loop,
    While,
    If,
    Else,
    Break,
    Continue,
    // Operators and punctuation
    Bang,
    Plus,
    Minus,
    Star,
    StarStar,
    Slash,
    Colon,
    Semicolon,
    Comma,
    Dot,
    LeftParen,
    RightParen,
    LeftCurly,
    RightCurly,
    Equal,
    EqualEqual,
    NotEqual,
    GreaterEqual,
    Greater,
    LessEqual,
    Less,
}

/// A token: its kind and the span of source text it covers.
pub type Token = Spanned<TokenType>;

/// How a token kind is written in messages.
pub open spec fn token_name(t: TokenType) -> Seq<char> {
    match t {
        TokenType::String => "<string>"@,
        TokenType::Integer => "<int>"@,
        TokenType::Float => "<float>"@,
        TokenType::Bool => "<bool>"@,
        TokenType::Identifier => "<identifier>"@,
        TokenType::Def => "def"@,
        TokenType::Let => "let"@,
        TokenType::Loop => "loop"@,
        TokenType::While => "while"@,
        TokenType::If => "if"@,
        TokenType::Else => "else"@,
        TokenType::Break => "break"@,
        TokenType::Continue => "continue"@,
        TokenType::Bang => "!"@,
        TokenType::Plus => "+"@,
        TokenType::Minus => "-"@,
        TokenType::Star => "*"@,
        TokenType::StarStar => "**"@,
        TokenType::Slash => "/"@,
        TokenType::Colon => ":"@,
        TokenType::Semicolon => ";"@,
        TokenType::Comma => ","@,
        TokenType::Dot => "."@,
        TokenType::LeftParen => "("@,
        TokenType::RightParen => ")"@,
        TokenType::LeftCurly => "{"@,
        TokenType::RightCurly => "}"@,
        TokenType::Equal => "="@,
        TokenType::EqualEqual => "=="@,
        TokenType::NotEqual => "!="@,
        TokenType::GreaterEqual => ">="@,
        TokenType::Greater => ">"@,
        TokenType::LessEqual => "<="@,
        TokenType::Less => "<"@,
    }
}

impl TokenType {
    /// How this token kind is written in messages: the text of an operator
    /// or keyword, or a placeholder such as `<int>` for a literal.
    pub fn name(&self) -> (r: &'static str)
        ensures
            r@ == token_name(*self),
    {
        match self {
            TokenType::String => "<string>",
            TokenType::Integer => "<int>",
            TokenType::Float => "<float>",
            TokenType::Bool => "<bool>",
            TokenType::Identifier => "<identifier>",
            TokenType::Def => "def",
            TokenType::Let => "let",
            TokenType::Loop => "loop",
            TokenType::While => "while",
            TokenType::If => "if",
            TokenType::Else => "else",
            TokenType::Break => "break",
            TokenType::Continue => "continue",
            TokenType::Bang => "!",
            TokenType::Plus => "+",
            TokenType::Minus => "-",
            TokenType::Star => "*",
            TokenType::StarStar => "**",
            TokenType::Slash => "/",
            TokenType::Colon => ":",
            TokenType::Semicolon => ";",
            TokenType::Comma => ",",
            TokenType::Dot => ".",
            TokenType::LeftParen => "(",
            TokenType::RightParen => ")",
            TokenType::LeftCurly => "{",
            TokenType::RightCurly => "}",
            TokenType::Equal => "=",
            TokenType::EqualEqual => "==",
            TokenType::NotEqual => "!=",
            TokenType::GreaterEqual => ">=",
            TokenType::Greater => ">",
            TokenType::LessEqual => "<=",
            TokenType::Less => "<",
        }
    }
}

} // verus!
