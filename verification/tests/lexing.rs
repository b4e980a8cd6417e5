use dusk::lexer::{tokenize, tokenize_bytes};
use dusk::span::{Span, SpannedToken};
use dusk::token::{Category, Token};

fn kinds(source: &str) -> Vec<Token> {
    tokenize(source).iter().map(|token| token.kind()).collect()
}

#[test]
fn test_lexer() {
    let tokens = tokenize("source");
    assert_eq!(
        tokens,
        vec![SpannedToken(Span { start: 0, end: 6 }, Token::Identifier)]
    );
}

#[test]
fn lexer_reads_a_function() {
    assert_eq!(
        kinds("fn foo(a: int) -> int { a + 1 } // done"),
        vec![
            Token::Function,
            Token::Identifier,
            Token::OpeningParen,
            Token::Identifier,
            Token::Colon,
            Token::Identifier,
            Token::ClosingParen,
            Token::Arrow,
            Token::Identifier,
            Token::OpeningBrace,
            Token::Identifier,
            Token::Plus,
            Token::Integer,
            Token::ClosingBrace,
        ]
    );
}

#[test]
fn lexer_takes_the_longest_symbol() {
    assert_eq!(
        kinds(":: : -> - => = == != ! <= < >= > += -= *= /= /"),
        vec![
            Token::ColonColon,
            Token::Colon,
            Token::Arrow,
            Token::Minus,
            Token::FatArrow,
            Token::Equals,
            Token::EqualsEquals,
            Token::NotEqual,
            Token::Exclamation,
            Token::LesserEqual,
            Token::Lesser,
            Token::GreaterEqual,
            Token::Greater,
            Token::PlusEquals,
            Token::MinusEquals,
            Token::AsteriskEquals,
            Token::SlashEquals,
            Token::Slash,
        ]
    );
}

#[test]
fn lexer_tells_keywords_from_identifiers() {
    assert_eq!(
        kinds("and andy or not struct fn let module true false _x x1"),
        vec![
            Token::And,
            Token::Identifier,
            Token::Or,
            Token::Not,
            Token::Struct,
            Token::Function,
            Token::Let,
            Token::Module,
            Token::True,
            Token::False,
            Token::Identifier,
            Token::Identifier,
        ]
    );
}

#[test]
fn lexer_reads_numbers() {
    assert_eq!(
        tokenize("12 1.5 1_000 3.x _1"),
        vec![
            SpannedToken(Span { start: 0, end: 2 }, Token::Integer),
            SpannedToken(Span { start: 3, end: 6 }, Token::Float),
            SpannedToken(Span { start: 7, end: 12 }, Token::Integer),
            SpannedToken(Span { start: 13, end: 14 }, Token::Integer),
            SpannedToken(Span { start: 14, end: 15 }, Token::Dot),
            SpannedToken(Span { start: 15, end: 16 }, Token::Identifier),
            SpannedToken(Span { start: 17, end: 19 }, Token::Identifier),
        ]
    );
}

#[test]
fn lexer_reads_strings_with_escapes() {
    assert_eq!(
        tokenize("\"a\\\"b\" x"),
        vec![
            SpannedToken(Span { start: 0, end: 6 }, Token::String),
            SpannedToken(Span { start: 7, end: 8 }, Token::Identifier),
        ]
    );
}

#[test]
fn lexer_makes_one_error_token_of_an_unknown_run() {
    assert_eq!(
        tokenize("@$ x"),
        vec![
            SpannedToken(Span { start: 0, end: 2 }, Token::Error),
            SpannedToken(Span { start: 3, end: 4 }, Token::Identifier),
        ]
    );
    assert_eq!(
        tokenize_bytes("é".as_bytes()),
        vec![SpannedToken(Span { start: 0, end: 2 }, Token::Error)]
    );
}

#[test]
fn lexer_makes_an_error_token_of_an_open_string() {
    assert_eq!(
        tokenize("\"ab"),
        vec![
            SpannedToken(Span { start: 0, end: 1 }, Token::Error),
            SpannedToken(Span { start: 1, end: 3 }, Token::Identifier),
        ]
    );
}

#[test]
fn lexer_skips_spaces_and_comments() {
    assert_eq!(tokenize("  \t\n // nothing here\n"), vec![]);
    assert_eq!(tokenize(""), vec![]);
    assert_eq!(kinds("1 // one\n2"), vec![Token::Integer, Token::Integer]);
}

#[test]
fn categories_hold_their_tokens() {
    assert!(Token::Plus.is_in(Category::UnaryOperator));
    assert!(Token::Plus.is_in(Category::BinaryOperator));
    assert!(Token::Plus.is_in(Category::SumOperator));
    assert!(!Token::Asterisk.is_in(Category::UnaryOperator));
    assert!(Token::ClosingParen.is_in(Category::ClosingBracket));
    assert!(!Token::OpeningParen.is_in(Category::ClosingBracket));
    assert!(Token::Identifier.is_in(Category::FirstTokenOfExpression));
    assert!(!Token::Comma.is_in(Category::FirstTokenOfExpression));
    for token in Category::ComparisonOperator.tokens() {
        assert!(token.is_in(Category::ComparisonOperator));
        assert!(token.is_in(Category::BinaryOperator));
    }
    assert_eq!(
        Category::ProductOperator.tokens(),
        vec![Token::Asterisk, Token::Slash]
    );
}

#[test]
fn tokens_are_named_for_messages() {
    assert_eq!(Token::OpeningBrace.describe(), "`{`");
    assert_eq!(Token::And.describe(), "the keyword `and`");
    assert_eq!(Token::Identifier.describe(), "an identifier");
    assert_eq!(Token::Float.describe(), "a float literal");
    assert_eq!(Token::Error.describe(), "<error>");
}
