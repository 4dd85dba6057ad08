use ankara::lexer::Peekable;
use ankara::token::Token;

#[test]
fn test_peekable() {
    let mut peekable = Peekable::new(
        "\
    let x = 1;\
    return x;\
    ",
    );
    assert_eq!(peekable.peek(), Some(Token::Let));
    assert_eq!(peekable.peek(), Some(Token::Let));
    assert_eq!(peekable.next(), Some(Token::Let));
    assert_eq!(peekable.peek(), Some(Token::Identifier));
    assert_eq!(peekable.next(), Some(Token::Identifier));
    assert_eq!(peekable.next(), Some(Token::Assign));
    assert_eq!(peekable.peek(), Some(Token::Number));
    assert_eq!(peekable.next(), Some(Token::Number));
    assert_eq!(peekable.peek(), Some(Token::Semicolon));
    assert_eq!(peekable.next(), Some(Token::Semicolon));
    assert_eq!(peekable.peek(), Some(Token::Return));
    assert_eq!(peekable.next(), Some(Token::Return));
    assert_eq!(peekable.peek(), Some(Token::Identifier));
    assert_eq!(peekable.next(), Some(Token::Identifier));
    assert_eq!(peekable.peek(), Some(Token::Semicolon));
    assert_eq!(peekable.next(), Some(Token::Semicolon));
    assert_eq!(peekable.peek(), None);
    assert_eq!(peekable.next(), None);
}

fn all_tokens(source: &str) -> Vec<(Token, String)> {
    let mut lexer = Peekable::new(source);
    let mut out = Vec::new();
    while let Some(t) = lexer.next() {
        out.push((t, lexer.current_slice.clone().unwrap()));
    }
    out
}

#[test]
fn lexer_prefers_two_character_operators() {
    let kinds: Vec<Token> = all_tokens("== != <= >= && || = ! < >").into_iter().map(|t| t.0).collect();
    assert_eq!(
        kinds,
        vec![
            Token::Equal,
            Token::NotEqual,
            Token::LessThanOrEqual,
            Token::GreaterThanOrEqual,
            Token::And,
            Token::Or,
            Token::Assign,
            Token::Bang,
            Token::LessThan,
            Token::GreaterThan,
        ]
    );
}

#[test]
fn lexer_keywords_shadow_identifiers() {
    let tokens = all_tokens("let letter fn watch watcher x1");
    let kinds: Vec<Token> = tokens.iter().map(|t| t.0).collect();
    assert_eq!(
        kinds,
        vec![Token::Let, Token::Identifier, Token::Function, Token::Watch, Token::Identifier, Token::Identifier]
    );
    assert_eq!(tokens[1].1, "letter");
    assert_eq!(tokens[5].1, "x1");
}

#[test]
fn lexer_skips_comments_and_sets_newline_flag() {
    let mut lexer = Peekable::new("// a comment \"with a quote\n  42");
    assert!(!lexer.is_newline);
    assert_eq!(lexer.next(), Some(Token::Number));
    assert_eq!(lexer.current_slice.clone().unwrap(), "42");
    assert!(lexer.is_newline);
    assert_eq!(lexer.next(), None);
}

#[test]
fn lexer_string_token_keeps_quotes_in_slice() {
    let tokens = all_tokens("\"hello world\";");
    assert_eq!(tokens[0], (Token::String, "\"hello world\"".to_string()));
    assert_eq!(tokens[1].0, Token::Semicolon);
}

#[test]
fn lexer_stops_at_unknown_character() {
    let mut lexer = Peekable::new("1 @ 2");
    assert_eq!(lexer.next(), Some(Token::Number));
    assert_eq!(lexer.peek(), None);
    assert_eq!(lexer.peek(), None);
    assert_eq!(lexer.next(), None);
}

#[test]
fn lexer_empty_input() {
    let mut lexer = Peekable::new("   \t\n ");
    assert_eq!(lexer.peek(), None);
    assert!(lexer.is_newline);
}
