use lox_core::chars::offsets_fit;
use lox_core::lexing_laws::tokenize_all;
use lox_core::span::Span;
use lox_core::token::{Literal, TokenKind};
use lox_core::tokenize::LexingErrorCode;

#[test]
fn every_source_fits_its_offsets() {
    assert!(offsets_fit(""));
    assert!(offsets_fit("var é = \"ü\";"));
}

#[test]
fn the_empty_source_gives_only_the_end_of_file() {
    let items = tokenize_all("");
    assert_eq!(items.len(), 1);
    let eof = items[0].as_ref().unwrap();
    assert_eq!(eof.kind, TokenKind::EndOfFile);
    assert_eq!(eof.lexeme, "");
    assert_eq!(eof.location, Span::new(0, 0));
}

#[test]
fn lexing_laws_hold_on_a_source_with_errors_and_strings() {
    let source = "var s = \"héllo\"; # @ print s;";
    let items = tokenize_all(source);
    let last = items.last().unwrap().as_ref().unwrap();
    assert_eq!(last.kind, TokenKind::EndOfFile);
    assert_eq!(last.location, Span::new(source.len(), 0));
    let mut previous: Option<usize> = None;
    let mut errors = 0;
    for (k, item) in items.iter().enumerate() {
        let location = match item {
            Ok(token) => {
                if k + 1 < items.len() {
                    assert_ne!(token.kind, TokenKind::EndOfFile);
                }
                assert_eq!(&source[token.location.offset()..token.location.offset() + token.location.len()], token.lexeme);
                if token.kind == TokenKind::StringLiteral {
                    assert_eq!(token.literal, Some(Literal::String("héllo".to_string())));
                }
                token.location
            },
            Err(error) => {
                errors += 1;
                if let LexingErrorCode::UnexpectedCharacter(c) = error.code {
                    assert_eq!(&source[error.location.offset()..error.location.offset() + error.location.len()], c.to_string());
                }
                error.location
            },
        };
        if let Some(p) = previous {
            assert!(p < location.offset());
        }
        previous = Some(location.offset());
    }
    assert_eq!(errors, 2);
}
