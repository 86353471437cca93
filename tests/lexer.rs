use tre::{tokenize, LexError, Lexer, Span, Token, TokenType};

fn lex_input(input: &str) -> Vec<Token> {
    let mut stream = Lexer::new(input).into_iter();
    let mut tokens = Vec::new();
    while let Some(item) = stream.next() {
        tokens.push(item.expect("unexpected lexical error"));
    }
    tokens
}

fn token(ty: TokenType, s: &str, r: &str) -> Token {
    let idx = s.find(r).expect("couldn't find pattern in str");
    Span::new(idx, idx + r.len()).span(ty)
}

#[test]
fn test_identifier() {
    let s = "_ABC_DEF some_thing\nmore_IdeNt true false";
    let tokens = lex_input(s);
    let expected = vec![
        token(TokenType::Identifier, s, "_ABC_DEF"),
        token(TokenType::Identifier, s, "some_thing"),
        token(TokenType::Identifier, s, "more_IdeNt"),
        token(TokenType::Bool, s, "true"),
        token(TokenType::Bool, s, "false"),
    ];
    assert_eq!(expected, tokens);
}

#[test]
fn test_integer() {
    let s = "1337 1234_5678\n12321";
    let tokens = lex_input(s);
    let expected = vec![
        token(TokenType::Integer, s, "1337"),
        token(TokenType::Integer, s, "1234_5678"),
        token(TokenType::Integer, s, "12321"),
    ];
    assert_eq!(expected, tokens);
}

#[test]
fn test_float() {
    let s = "13.10 12.34 0.9999 78.";
    let tokens = lex_input(s);
    let expected = vec![
        token(TokenType::Float, s, "13.10"),
        token(TokenType::Float, s, "12.34"),
        token(TokenType::Float, s, "0.9999"),
        token(TokenType::Float, s, "78."),
    ];
    assert_eq!(expected, tokens);
}

#[test]
fn test_paren() {
    let s = "(){}";
    let tokens = lex_input(s);
    let expected = vec![
        token(TokenType::LeftParen, s, "("),
        token(TokenType::RightParen, s, ")"),
        token(TokenType::LeftCurly, s, "{"),
        token(TokenType::RightCurly, s, "}"),
    ];
    assert_eq!(expected, tokens);
}

#[test]
fn test_some_tokens() {
    let s = "!! ++ = != ** * * :: ., == != < <= >= > / - - # - / != ===";
    let tokens: Vec<_> = lex_input(s).into_iter().map(|t| t.into_inner()).collect();
    let expected = vec![
        TokenType::Bang,
        TokenType::Bang,
        TokenType::Plus,
        TokenType::Plus,
        TokenType::Equal,
        TokenType::NotEqual,
        TokenType::StarStar,
        TokenType::Star,
        TokenType::Star,
        TokenType::Colon,
        TokenType::Colon,
        TokenType::Dot,
        TokenType::Comma,
        TokenType::EqualEqual,
        TokenType::NotEqual,
        TokenType::Less,
        TokenType::LessEqual,
        TokenType::GreaterEqual,
        TokenType::Greater,
        TokenType::Slash,
        TokenType::Minus,
        TokenType::Minus,
    ];
    assert_eq!(expected, tokens);
}

#[test]
fn test_strings() {
    let s = r#" "Hello, world" "Does this work?" "I hope so" "Escaping: \"" "#;
    let tokens: Vec<_> = lex_input(s)
        .into_iter()
        .map(|t| (t.0, t.span().index(s)))
        .collect();
    let expected = vec![
        (TokenType::String, r#"Hello, world"#),
        (TokenType::String, r#"Does this work?"#),
        (TokenType::String, r#"I hope so"#),
        (TokenType::String, r#"Escaping: \""#),
    ];
    assert_eq!(expected, tokens);
}

#[test]
fn lexes_mixed_input_with_spans() {
    let s = " 123 abc_1 \"hi\" true !=";
    let tokens = tokenize(s).unwrap();
    let kinds: Vec<TokenType> = tokens.iter().map(|t| t.0).collect();
    // Identifiers are runs of letters and `_`, so `abc_1` is two tokens.
    assert_eq!(
        kinds,
        vec![
            TokenType::Integer,
            TokenType::Identifier,
            TokenType::Integer,
            TokenType::String,
            TokenType::Bool,
            TokenType::NotEqual
        ]
    );
    let texts: Vec<&str> = tokens.iter().map(|t| t.span().index(s)).collect();
    assert_eq!(texts, vec!["123", "abc_", "1", "hi", "true", "!="]);
}

#[test]
fn identifier_digits_split() {
    // Digits do not continue an identifier.
    let s = "abc_1";
    let kinds: Vec<TokenType> = tokenize(s).unwrap().iter().map(|t| t.0).collect();
    assert_eq!(kinds, vec![TokenType::Identifier, TokenType::Integer]);
    let kinds: Vec<TokenType> = tokenize("123 abc \"hi\" true !=").unwrap().iter().map(|t| t.0).collect();
    assert_eq!(
        kinds,
        vec![
            TokenType::Integer,
            TokenType::Identifier,
            TokenType::String,
            TokenType::Bool,
            TokenType::NotEqual
        ]
    );
}

#[test]
fn unterminated_string_is_an_error() {
    let s = "\"abc";
    assert_eq!(
        tokenize(s),
        Err(LexError::UnterminatedString { span: Span::new(4, 4) })
    );
    let mut lexer = Lexer::new(s);
    assert_eq!(
        lexer.next_token(),
        Some(Err(LexError::UnterminatedString { span: Span::new(4, 4) }))
    );
    assert_eq!(lexer.next_token(), None);
}

#[test]
fn unknown_character_is_an_error() {
    assert_eq!(
        tokenize("1 $ 2"),
        Err(LexError::UnknownCharacter { span: Span::new(2, 3) })
    );
    // A multi-byte character is covered whole.
    assert_eq!(
        tokenize("é"),
        Err(LexError::UnknownCharacter { span: Span::new(0, 2) })
    );
}

#[test]
fn comments_and_whitespace_are_skipped() {
    let s = "let # a comment ;\n  x\t;";
    let kinds: Vec<TokenType> = tokenize(s).unwrap().iter().map(|t| t.0).collect();
    assert_eq!(kinds, vec![TokenType::Let, TokenType::Identifier, TokenType::Semicolon]);
    assert_eq!(tokenize("").unwrap(), vec![]);
    assert_eq!(tokenize("  # only a comment").unwrap(), vec![]);
}

#[test]
fn keywords_are_recognised() {
    let s = "def let loop while if else break continue define";
    let kinds: Vec<TokenType> = tokenize(s).unwrap().iter().map(|t| t.0).collect();
    assert_eq!(
        kinds,
        vec![
            TokenType::Def,
            TokenType::Let,
            TokenType::Loop,
            TokenType::While,
            TokenType::If,
            TokenType::Else,
            TokenType::Break,
            TokenType::Continue,
            TokenType::Identifier
        ]
    );
}

#[test]
fn two_character_operators_fall_back_at_end_of_input() {
    let kinds: Vec<TokenType> = tokenize("a !").unwrap().iter().map(|t| t.0).collect();
    assert_eq!(kinds, vec![TokenType::Identifier, TokenType::Bang]);
    let kinds: Vec<TokenType> = tokenize("<").unwrap().iter().map(|t| t.0).collect();
    assert_eq!(kinds, vec![TokenType::Less]);
}

#[test]
fn token_names() {
    assert_eq!(TokenType::RightParen.name(), ")");
    assert_eq!(TokenType::Integer.name(), "<int>");
    assert_eq!(TokenType::NotEqual.name(), "!=");
}

#[test]
fn unicode_whitespace_is_skipped() {
    let s = "1\u{0B}+\u{0C}2\u{A0}*\u{85}3\u{3000}-\u{2009}4\u{2029}";
    let kinds: Vec<TokenType> = tokenize(s).unwrap().iter().map(|t| t.0).collect();
    assert_eq!(
        kinds,
        vec![
            TokenType::Integer,
            TokenType::Plus,
            TokenType::Integer,
            TokenType::Star,
            TokenType::Integer,
            TokenType::Minus,
            TokenType::Integer
        ]
    );
    let spans: Vec<&str> = tokenize(s).unwrap().iter().map(|t| t.span().index(s)).collect();
    assert_eq!(spans, vec!["1", "+", "2", "*", "3", "-", "4"]);
}
