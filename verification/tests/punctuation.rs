use lox_core::punctuation::PunctuationTokens;
use lox_core::source::Location;
use lox_core::tokenizing::{Token, TokenizeError, TokenizeErrorCode};

#[test]
fn punctuation_characters_are_tokens_and_end_with_end_of_file() {
    let items = PunctuationTokens::new("(){},.;").collect();
    assert_eq!(
        items,
        vec![
            Ok(Token::LeftParen),
            Ok(Token::RightParen),
            Ok(Token::LeftBrace),
            Ok(Token::RightBrace),
            Ok(Token::Comma),
            Ok(Token::Dot),
            Ok(Token::Semicolon),
            Ok(Token::EndOfFile),
        ]
    );
}

#[test]
fn empty_source_gives_only_end_of_file_then_nothing() {
    let mut tokens = PunctuationTokens::new("");
    assert_eq!(tokens.next(), Some(Ok(Token::EndOfFile)));
    assert_eq!(tokens.next(), None);
    assert_eq!(tokens.next(), None);
}

#[test]
fn other_characters_are_unexpected_at_their_position_on_the_line() {
    let items = PunctuationTokens::new("( x\n;").collect();
    let unexpected = |c: char, char: usize| {
        Err(TokenizeError { code: TokenizeErrorCode::UnexpectedCharacter(c), location: Location { line: 1, char } })
    };
    assert_eq!(
        items,
        vec![
            Ok(Token::LeftParen),
            unexpected(' ', 2),
            unexpected('x', 3),
            unexpected('\n', 4),
            Ok(Token::Semicolon),
            Ok(Token::EndOfFile),
        ]
    );
}
