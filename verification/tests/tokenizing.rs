use lox_core::source::Location;
use lox_core::tokenizing::{Token, TokenizeError, TokenizeErrorCode, Tokenize, Tokens};
use std::io;

#[test]
fn tests_can_tokenize_str() {
    let source_code = "()";

    let tokens = source_code.tokenize().collect();

    assert_eq!(tokens, vec![
        Ok(Token::LeftParen),
        Ok(Token::RightParen),
        Ok(Token::EndOfFile),
    ]);
}

#[test]
fn tests_tokenize_empty_source() {
    let source_code = "";

    let tokens = source_code.tokenize().collect();

    assert_eq!(tokens, vec![Ok(Token::EndOfFile)]);
}

#[test]
fn tests_tokenize_punctuations() {
    let source_code = "(){},.;";

    let tokens = source_code.tokenize().collect();

    assert_eq!(tokens, vec![
        Ok(Token::LeftParen),
        Ok(Token::RightParen),
        Ok(Token::LeftBrace),
        Ok(Token::RightBrace),
        Ok(Token::Comma),
        Ok(Token::Dot),
        Ok(Token::Semicolon),
        Ok(Token::EndOfFile),
    ]);
}

#[test]
fn tests_tokenize_ignores_whitespace() {
    let source_code = " ( \t\n\r\u{000C} ) { \t\n\r\u{000C} } ";

    let tokens = source_code.tokenize().collect();

    assert_eq!(tokens, vec![
        Ok(Token::LeftParen),
        Ok(Token::RightParen),
        Ok(Token::LeftBrace),
        Ok(Token::RightBrace),
        Ok(Token::EndOfFile),
    ]);
}

#[test]
fn tests_tokenize_single_character_operators() {
    let source_code = "- + * / ! = < >";

    let tokens = source_code.tokenize().collect();

    assert_eq!(tokens, vec![
        Ok(Token::Minus),
        Ok(Token::Plus),
        Ok(Token::Star),
        Ok(Token::Slash),
        Ok(Token::Bang),
        Ok(Token::Equal),
        Ok(Token::Less),
        Ok(Token::Greater),
        Ok(Token::EndOfFile),
    ]);
}

#[test]
fn tests_tokenize_two_character_operators() {
    let source_code = "== != <= >=";

    let tokens = source_code.tokenize().collect();

    assert_eq!(tokens, vec![
        Ok(Token::EqualEqual),
        Ok(Token::BangEqual),
        Ok(Token::LessEqual),
        Ok(Token::GreaterEqual),
        Ok(Token::EndOfFile),
    ]);
}

#[test]
fn tests_tokenize_line_comment_not_on_last_line() {
    let source_code = "() // (some comment).\n{}";

    let tokens = source_code.tokenize().collect();

    assert_eq!(tokens, vec![
        Ok(Token::LeftParen),
        Ok(Token::RightParen),
        Ok(Token::LeftBrace),
        Ok(Token::RightBrace),
        Ok(Token::EndOfFile),
    ]);
}

#[test]
fn tests_tokenize_line_comment_at_end_of_file() {
    let source_code = "() // (some comment).";

    let tokens = source_code.tokenize().collect();

    assert_eq!(tokens, vec![
        Ok(Token::LeftParen),
        Ok(Token::RightParen),
        Ok(Token::EndOfFile),
    ]);
}

#[test]
fn tests_tokenize_line_comments_on_two_subsequent_lines() {
    let source_code = "() \n// (first line of comment).\n// (second line of comment).\n{}";

    let tokens = source_code.tokenize().collect();

    assert_eq!(tokens, vec![
        Ok(Token::LeftParen),
        Ok(Token::RightParen),
        Ok(Token::LeftBrace),
        Ok(Token::RightBrace),
        Ok(Token::EndOfFile),
    ]);
}

#[test]
fn tests_tokenize_unexpected_character_at_line_1_char_4() {
    let source_code = "(){§},.;";

    let tokens = source_code.tokenize().collect();

    assert_eq!(tokens, vec![
        Ok(Token::LeftParen),
        Ok(Token::RightParen),
        Ok(Token::LeftBrace),
        Err(TokenizeError {
            code: TokenizeErrorCode::UnexpectedCharacter('§'),
            location: Location { line: 1, char: 4 },
        }),
        Ok(Token::RightBrace),
        Ok(Token::Comma),
        Ok(Token::Dot),
        Ok(Token::Semicolon),
        Ok(Token::EndOfFile),
    ]);
}

#[test]
fn tests_tokenize_unexpected_character_at_line_3_char_1() {
    let source_code = "{\n;\n§}\n";

    let tokens = source_code.tokenize().collect();

    assert_eq!(tokens, vec![
        Ok(Token::LeftBrace),
        Ok(Token::Semicolon),
        Err(TokenizeError {
            code: TokenizeErrorCode::UnexpectedCharacter('§'),
            location: Location { line: 3, char: 1 },
        }),
        Ok(Token::RightBrace),
        Ok(Token::EndOfFile),
    ]);
}


    #[test]
    fn tests_can_be_converted_from_io_error() {
        let code = TokenizeErrorCode::from_io_error_message(io::Error::from(io::ErrorKind::UnexpectedEof).to_string());

        assert_eq!(code, TokenizeErrorCode::IoError(
            "unexpected end of file".to_string(),
        ));
    }


    #[test]
    fn tests_display_format_io_error() {
        let error = TokenizeError {
            code: TokenizeErrorCode::IoError("I/O error".to_string()),
            location: Location { line: 1, char: 0 },
        };

        assert_eq!(error.message(), "I/O error at 1:0");
    }

    #[test]
    fn tests_display_format_unexpected_character() {
        let error = TokenizeError {
            code: TokenizeErrorCode::UnexpectedCharacter('§'),
            location: Location { line: 74, char: 23 },
        };

        assert_eq!(error.message(), "unexpected character '§' at 74:23");
    }


    #[test]
    fn tests_debug_format_end_of_file() {
        let token = Token::EndOfFile;

        let debug_string = token.description();

        assert_eq!(debug_string, "EOF  null");
    }

    #[test]
    fn tests_debug_format_comma() {
        let token = Token::Comma;

        let debug_string = token.description();

        assert_eq!(debug_string, "COMMA , null");
    }

    #[test]
    fn tests_debug_format_left_paren() {
        let token = Token::LeftParen;

        let debug_string = token.description();

        assert_eq!(debug_string, "LEFT_PAREN ( null");
    }

    #[test]
    fn tests_debug_format_right_paren() {
        let token = Token::RightParen;

        let debug_string = token.description();

        assert_eq!(debug_string, "RIGHT_PAREN ) null");
    }

    #[test]
    fn tests_debug_format_left_brace() {
        let token = Token::LeftBrace;

        let debug_string = token.description();

        assert_eq!(debug_string, "LEFT_BRACE { null");
    }

    #[test]
    fn tests_debug_format_right_brace() {
        let token = Token::RightBrace;

        let debug_string = token.description();

        assert_eq!(debug_string, "RIGHT_BRACE } null");
    }

    #[test]
    fn tests_debug_format_dot() {
        let token = Token::Dot;

        let debug_string = token.description();

        assert_eq!(debug_string, "DOT . null");
    }

    #[test]
    fn tests_debug_format_semicolon() {
        let token = Token::Semicolon;

        let debug_string = token.description();

        assert_eq!(debug_string, "SEMICOLON ; null");
    }

#[test]
fn tokenizing_numbers_strings_and_words() {
    let source_code = "var x = 12.5 + \"hi\"; nil";

    let tokens = source_code.tokenize().collect();

    assert_eq!(
        tokens,
        vec![
            Ok(Token::Var),
            Ok(Token::Identifier("x".to_string())),
            Ok(Token::Equal),
            Ok(Token::NumberLiteral("12.5".to_string())),
            Ok(Token::Plus),
            Ok(Token::StringLiteral("hi".to_string())),
            Ok(Token::Semicolon),
            Ok(Token::Identifier("nil".to_string())),
            Ok(Token::EndOfFile),
        ]
    );
}

#[test]
fn a_word_followed_by_a_character_is_checked_for_keywords() {
    let source_code = "nil;";

    let tokens = source_code.tokenize().collect();

    assert_eq!(tokens, vec![Ok(Token::Nil), Ok(Token::Semicolon), Ok(Token::EndOfFile)]);
}

#[test]
fn a_decimal_point_before_a_letter_is_read_again() {
    let source_code = "1.a";

    let tokens = source_code.tokenize().collect();

    assert_eq!(
        tokens,
        vec![
            Ok(Token::NumberLiteral("1".to_string())),
            Ok(Token::Dot),
            Ok(Token::Identifier("a".to_string())),
            Ok(Token::EndOfFile),
        ]
    );
}

#[test]
fn a_decimal_point_before_another_character_is_dropped() {
    let source_code = "1.;";

    let tokens = source_code.tokenize().collect();

    assert_eq!(
        tokens,
        vec![Ok(Token::NumberLiteral("1".to_string())), Ok(Token::Semicolon), Ok(Token::EndOfFile)]
    );
}

#[test]
fn an_unterminated_string_is_reported_where_the_input_ends() {
    let source_code = "\"abc";

    let tokens = source_code.tokenize().collect();

    assert_eq!(
        tokens,
        vec![
            Err(TokenizeError {
                code: TokenizeErrorCode::UnterminatedStringLiteral("abc".to_string()),
                location: Location { line: 1, char: 4 },
            }),
            Ok(Token::EndOfFile),
        ]
    );
}

#[test]
fn a_character_read_again_counts_again_in_the_location() {
    let source_code = "!a§";

    let tokens = source_code.tokenize().collect();

    assert_eq!(
        tokens,
        vec![
            Ok(Token::Bang),
            Ok(Token::Identifier("a".to_string())),
            Err(TokenizeError {
                code: TokenizeErrorCode::UnexpectedCharacter('§'),
                location: Location { line: 1, char: 5 },
            }),
            Ok(Token::EndOfFile),
        ]
    );
}

#[test]
fn input_errors_are_reported_at_the_current_location() {
    let tokens = lox_core::tokenizing::Tokens::new(vec![
        Ok('('),
        Err("broken pipe".to_string()),
        Ok(')'),
    ])
    .collect();

    assert_eq!(
        tokens,
        vec![
            Ok(Token::LeftParen),
            Err(TokenizeError {
                code: TokenizeErrorCode::IoError("broken pipe".to_string()),
                location: Location { line: 1, char: 1 },
            }),
            Ok(Token::RightParen),
            Ok(Token::EndOfFile),
        ]
    );
}

#[test]
fn unterminated_string_message() {
    let error = TokenizeError {
        code: TokenizeErrorCode::UnterminatedStringLiteral("abc".to_string()),
        location: Location { line: 2, char: 7 },
    };

    assert_eq!(error.message(), "unterminated string literal \"abc at 2:7");
}

#[test]
fn reading_characters_moves_the_location_and_reports_input_errors_where_it_stands() {
    let mut tokens = Tokens::new(vec![Ok('a'), Ok('\n'), Err("boom".to_string()), Ok('b'), Err("bang".to_string())]);
    assert_eq!(tokens.advance_to_next_char(), Some(Ok('a')));
    assert_eq!(tokens.advance_to_next_char(), Some(Ok('\n')));
    assert_eq!(
        tokens.advance_to_next_char(),
        Some(Err(TokenizeError { code: TokenizeErrorCode::IoError("boom".to_string()), location: Location { line: 2, char: 0 } }))
    );
    assert_eq!(tokens.advance_to_next_char(), Some(Ok('b')));
    assert_eq!(
        tokens.advance_to_next_char(),
        Some(Err(TokenizeError { code: TokenizeErrorCode::IoError("bang".to_string()), location: Location { line: 2, char: 1 } }))
    );
    assert_eq!(tokens.advance_to_next_char(), None);
}
