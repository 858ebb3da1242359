use lox_core::span::Span;
use lox_core::token::{Literal, Token, TokenKind};
use lox_core::tokenize::{LexingError, LexingErrorCode, Tokenize};
use std::io;

trait LiteralValue {
    fn literal(self, lexeme: &str) -> (TokenKind, Literal);
}

impl LiteralValue for f64 {
    fn literal(self, lexeme: &str) -> (TokenKind, Literal) {
        assert_eq!(lexeme.parse::<f64>().unwrap(), self);
        (TokenKind::NumberLiteral, Literal::Number(lexeme.to_string()))
    }
}

impl LiteralValue for &str {
    fn literal(self, _lexeme: &str) -> (TokenKind, Literal) {
        (TokenKind::StringLiteral, Literal::String(self.to_string()))
    }
}

fn nonliteral(kind: TokenKind, lexeme: &str, (offset, length): (usize, usize)) -> Token {
    Token::new(kind, None, lexeme.to_string(), Span::new(offset, length))
}

fn identifier(lexeme: &str, location: (usize, usize)) -> Token {
    nonliteral(TokenKind::Identifier, lexeme, location)
}

fn literal(value: impl LiteralValue, lexeme: &str, (offset, length): (usize, usize)) -> Token {
    let (kind, literal) = value.literal(lexeme);
    Token::new(kind, Some(literal), lexeme.to_string(), Span::new(offset, length))
}

fn literals(items: &[Result<Token, LexingError>]) -> Vec<Option<Literal>> {
    items
        .iter()
        .map(|item| item.as_ref().ok().and_then(|token| token.literal.clone()))
        .collect()
}

fn check(actual: Vec<Result<Token, LexingError>>, expected: Vec<Result<Token, LexingError>>) {
    assert_eq!(actual, expected);
    assert_eq!(literals(&actual), literals(&expected));
}



    #[test]
    fn can_be_converted_from_io_error() {
        let code = LexingErrorCode::from_io_error_message(io::Error::from(io::ErrorKind::UnexpectedEof).to_string());

        assert_eq!(code, LexingErrorCode::IoError(
            "unexpected end of file".to_string(),
        ));
    }


    #[test]
    fn display_format_io_error() {
        let error = LexingError {
            code: LexingErrorCode::IoError("I/O error".to_string()),
            location: Span::new(1, 0),
        };

        assert_eq!(error.message(), "I/O error");
    }

    #[test]
    fn display_format_unexpected_character() {
        let error = LexingError {
            code: LexingErrorCode::UnexpectedCharacter('§'),
            location: Span::new(74, 23),
        };

        assert_eq!(error.message(), "unexpected character '§'");
    }

#[test]
fn can_tokenize_str() {
    let source_code = "()";

    let tokens: Vec<Result<Token, LexingError>> = source_code.tokenize().collect();

    check(tokens, vec![
        Ok(nonliteral(TokenKind::LeftParen, "(", (0, 1))),
        Ok(nonliteral(TokenKind::RightParen, ")", (1, 1))),
        Ok(nonliteral(TokenKind::EndOfFile, "", (2, 0))),
    ]);
}

#[test]
fn tokenize_empty_source() {
    let source_code = "";

    let tokens: Vec<Result<Token, LexingError>> = source_code.tokenize().collect();

    check(tokens, vec![Ok(nonliteral(
        TokenKind::EndOfFile,
        "",
        (0, 0),
    ))]);
}

#[test]
fn tokenize_punctuations() {
    let source_code = "(){},.;";

    let tokens: Vec<Result<Token, LexingError>> = source_code.tokenize().collect();

    check(tokens, vec![
        Ok(nonliteral(TokenKind::LeftParen, "(", (0, 1))),
        Ok(nonliteral(TokenKind::RightParen, ")", (1, 1))),
        Ok(nonliteral(TokenKind::LeftBrace, "{", (2, 1))),
        Ok(nonliteral(TokenKind::RightBrace, "}", (3, 1))),
        Ok(nonliteral(TokenKind::Comma, ",", (4, 1))),
        Ok(nonliteral(TokenKind::Dot, ".", (5, 1))),
        Ok(nonliteral(TokenKind::Semicolon, ";", (6, 1))),
        Ok(nonliteral(TokenKind::EndOfFile, "", (7, 0))),
    ]);
}

#[test]
fn tokenize_ignores_whitespace() {
    let source_code = " ( \t\n\r\u{000C} ) { \t\n\r\u{000C} } ";

    let tokens: Vec<Result<Token, LexingError>> = source_code.tokenize().collect();

    check(tokens, vec![
        Ok(nonliteral(TokenKind::LeftParen, "(", (1, 1))),
        Ok(nonliteral(TokenKind::RightParen, ")", (8, 1))),
        Ok(nonliteral(TokenKind::LeftBrace, "{", (10, 1))),
        Ok(nonliteral(TokenKind::RightBrace, "}", (17, 1))),
        Ok(nonliteral(TokenKind::EndOfFile, "", (19, 0))),
    ]);
}

#[test]
fn tokenize_single_character_operators() {
    let source_code = "- + * / ! = < >";

    let tokens: Vec<Result<Token, LexingError>> = source_code.tokenize().collect();

    check(tokens, vec![
        Ok(nonliteral(TokenKind::Minus, "-", (0, 1))),
        Ok(nonliteral(TokenKind::Plus, "+", (2, 1))),
        Ok(nonliteral(TokenKind::Star, "*", (4, 1))),
        Ok(nonliteral(TokenKind::Slash, "/", (6, 1))),
        Ok(nonliteral(TokenKind::Bang, "!", (8, 1))),
        Ok(nonliteral(TokenKind::Equal, "=", (10, 1))),
        Ok(nonliteral(TokenKind::Less, "<", (12, 1))),
        Ok(nonliteral(TokenKind::Greater, ">", (14, 1))),
        Ok(nonliteral(TokenKind::EndOfFile, "", (15, 0))),
    ]);
}

#[test]
fn tokenize_two_character_operators() {
    let source_code = "== != <= >=";

    let tokens: Vec<Result<Token, LexingError>> = source_code.tokenize().collect();

    check(tokens, vec![
        Ok(nonliteral(TokenKind::EqualEqual, "==", (0, 2))),
        Ok(nonliteral(TokenKind::BangEqual, "!=", (3, 2))),
        Ok(nonliteral(TokenKind::LessEqual, "<=", (6, 2))),
        Ok(nonliteral(TokenKind::GreaterEqual, ">=", (9, 2))),
        Ok(nonliteral(TokenKind::EndOfFile, "", (11, 0))),
    ]);
}

#[test]
fn tokenize_line_comment_not_on_last_line() {
    let source_code = "() // (some comment).\n{}";

    let tokens: Vec<Result<Token, LexingError>> = source_code.tokenize().collect();

    check(tokens, vec![
        Ok(nonliteral(TokenKind::LeftParen, "(", (0, 1))),
        Ok(nonliteral(TokenKind::RightParen, ")", (1, 1))),
        Ok(nonliteral(TokenKind::LeftBrace, "{", (22, 1))),
        Ok(nonliteral(TokenKind::RightBrace, "}", (23, 1))),
        Ok(nonliteral(TokenKind::EndOfFile, "", (24, 0))),
    ]);
}

#[test]
fn tokenize_line_comment_at_end_of_file() {
    let source_code = "() // (some comment).";

    let tokens: Vec<Result<Token, LexingError>> = source_code.tokenize().collect();

    check(tokens, vec![
        Ok(nonliteral(TokenKind::LeftParen, "(", (0, 1))),
        Ok(nonliteral(TokenKind::RightParen, ")", (1, 1))),
        Ok(nonliteral(TokenKind::EndOfFile, "", (21, 0))),
    ]);
}

#[test]
fn tokenize_line_comments_on_two_subsequent_lines() {
    let source_code = "() \n// (first line of comment).\n// (second line of comment).\n{}";

    let tokens: Vec<Result<Token, LexingError>> = source_code.tokenize().collect();

    check(tokens, vec![
        Ok(nonliteral(TokenKind::LeftParen, "(", (0, 1))),
        Ok(nonliteral(TokenKind::RightParen, ")", (1, 1))),
        Ok(nonliteral(TokenKind::LeftBrace, "{", (61, 1))),
        Ok(nonliteral(TokenKind::RightBrace, "}", (62, 1))),
        Ok(nonliteral(TokenKind::EndOfFile, "", (63, 0))),
    ]);
}

#[test]
fn tokenize_unexpected_character_at_line_1_char_4() {
    let source_code = "(){§},.;";

    let tokens: Vec<Result<Token, LexingError>> = source_code.tokenize().collect();

    check(tokens, vec![
        Ok(nonliteral(TokenKind::LeftParen, "(", (0, 1))),
        Ok(nonliteral(TokenKind::RightParen, ")", (1, 1))),
        Ok(nonliteral(TokenKind::LeftBrace, "{", (2, 1))),
        Err(LexingError {
            code: LexingErrorCode::UnexpectedCharacter('§'),
            location: Span::new(3, 2),
        }),
        Ok(nonliteral(TokenKind::RightBrace, "}", (5, 1))),
        Ok(nonliteral(TokenKind::Comma, ",", (6, 1))),
        Ok(nonliteral(TokenKind::Dot, ".", (7, 1))),
        Ok(nonliteral(TokenKind::Semicolon, ";", (8, 1))),
        Ok(nonliteral(TokenKind::EndOfFile, "", (9, 0))),
    ]);
}

#[test]
fn tokenize_unexpected_character_at_line_3_char_1() {
    let source_code = "{\n;\n§}\n";

    let tokens: Vec<Result<Token, LexingError>> = source_code.tokenize().collect();

    check(tokens, vec![
        Ok(nonliteral(TokenKind::LeftBrace, "{", (0, 1))),
        Ok(nonliteral(TokenKind::Semicolon, ";", (2, 1))),
        Err(LexingError {
            code: LexingErrorCode::UnexpectedCharacter('§'),
            location: Span::new(4, 2),
        }),
        Ok(nonliteral(TokenKind::RightBrace, "}", (6, 1))),
        Ok(nonliteral(TokenKind::EndOfFile, "", (8, 0))),
    ]);
}

#[test]
fn tokenize_string_literal_empty_string() {
    let source_code = r#""""#;

    let tokens: Vec<Result<Token, LexingError>> = source_code.tokenize().collect();

    check(tokens, vec![
        Ok(literal("", "\"\"", (0, 2))),
        Ok(nonliteral(TokenKind::EndOfFile, "", (2, 0))),
    ]);
}

#[test]
fn tokenize_string_literal_with_some_characters() {
    let source_code = r#""some text""#;

    let tokens: Vec<Result<Token, LexingError>> = source_code.tokenize().collect();

    check(tokens, vec![
        Ok(literal("some text", "\"some text\"", (0, 11))),
        Ok(nonliteral(TokenKind::EndOfFile, "", (11, 0))),
    ]);
}

#[test]
fn tokenize_string_literal_with_line_breaks() {
    let source_code = "\"first line\nsecond line\r\nthird line\"";

    let tokens: Vec<Result<Token, LexingError>> = source_code.tokenize().collect();

    check(tokens, vec![
        Ok(literal(
            "first line\nsecond line\r\nthird line",
            "\"first line\nsecond line\r\nthird line\"",
            (0, 36),
        )),
        Ok(nonliteral(TokenKind::EndOfFile, "", (36, 0))),
    ]);
}

#[test]
fn tokenize_string_literal_which_is_unterminated() {
    let source_code = r#""some text"#;

    let tokens: Vec<Result<Token, LexingError>> = source_code.tokenize().collect();

    check(tokens, vec![
        Err(LexingError {
            code: LexingErrorCode::UnterminatedStringLiteral("\"some text".to_string()),
            location: Span::new(0, 10),
        }),
        Ok(nonliteral(TokenKind::EndOfFile, "", (10, 0))),
    ]);
}

#[test]
fn tokenize_number_literal_integer_0() {
    let source_code = "0";

    let tokens: Vec<Result<Token, LexingError>> = source_code.tokenize().collect();

    check(tokens, vec![
        Ok(literal(0., "0", (0, 1))),
        Ok(nonliteral(TokenKind::EndOfFile, "", (1, 0))),
    ]);
}

#[test]
fn tokenize_number_literal_integer_256() {
    let source_code = "256";

    let tokens: Vec<Result<Token, LexingError>> = source_code.tokenize().collect();

    check(tokens, vec![
        Ok(literal(256., "256", (0, 3))),
        Ok(nonliteral(TokenKind::EndOfFile, "", (3, 0))),
    ]);
}

#[test]
fn tokenize_number_literal_float_1_98() {
    let source_code = "1.98";

    let tokens: Vec<Result<Token, LexingError>> = source_code.tokenize().collect();

    check(tokens, vec![
        Ok(literal(1.98, "1.98", (0, 4))),
        Ok(nonliteral(TokenKind::EndOfFile, "", (4, 0))),
    ]);
}

#[test]
fn tokenize_list_of_number_literal_float_1_98() {
    let source_code = "811.2344, 5.0, 0.67";

    let tokens: Vec<Result<Token, LexingError>> = source_code.tokenize().collect();

    check(tokens, vec![
        Ok(literal(811.2344, "811.2344", (0, 8))),
        Ok(nonliteral(TokenKind::Comma, ",", (8, 1))),
        Ok(literal(5.0, "5.0", (10, 3))),
        Ok(nonliteral(TokenKind::Comma, ",", (13, 1))),
        Ok(literal(0.67, "0.67", (15, 4))),
        Ok(nonliteral(TokenKind::EndOfFile, "", (19, 0))),
    ]);
}

#[test]
fn tokenize_number_literal_with_trailing_dot() {
    let source_code = "400,\n4.,\n655";

    let tokens: Vec<Result<Token, LexingError>> = source_code.tokenize().collect();

    check(tokens, vec![
        Ok(literal(400., "400", (0, 3))),
        Ok(nonliteral(TokenKind::Comma, ",", (3, 1))),
        Ok(literal(4., "4.", (5, 2))),
        Ok(nonliteral(TokenKind::Comma, ",", (7, 1))),
        Ok(literal(655., "655", (9, 3))),
        Ok(nonliteral(TokenKind::EndOfFile, "", (12, 0))),
    ]);
}

#[test]
fn tokenize_number_literal_with_leading_dot() {
    let source_code = "400 .655";

    let tokens: Vec<Result<Token, LexingError>> = source_code.tokenize().collect();

    check(tokens, vec![
        Ok(literal(400., "400", (0, 3))),
        Ok(nonliteral(TokenKind::Dot, ".", (4, 1))),
        Ok(literal(655., "655", (5, 3))),
        Ok(nonliteral(TokenKind::EndOfFile, "", (8, 0))),
    ]);
}

#[test]
fn tokenize_number_literal_with_two_dots() {
    let source_code = "123.456.789";

    let tokens: Vec<Result<Token, LexingError>> = source_code.tokenize().collect();

    check(tokens, vec![
        Ok(literal(123.456, "123.456", (0, 7))),
        Ok(nonliteral(TokenKind::Dot, ".", (7, 1))),
        Ok(literal(789., "789", (8, 3))),
        Ok(nonliteral(TokenKind::EndOfFile, "", (11, 0))),
    ]);
}

#[test]
fn tokenize_number_literal_with_trailing_dot_at_end_of_file() {
    let source_code = " 777.";

    let tokens: Vec<Result<Token, LexingError>> = source_code.tokenize().collect();

    check(tokens, vec![
        Ok(literal(777., "777.", (1, 4))),
        Ok(nonliteral(TokenKind::EndOfFile, "", (5, 0))),
    ]);
}

#[test]
fn tokenize_identifier_letters_only() {
    let source_code = "someIdentifier";

    let tokens: Vec<Result<Token, LexingError>> = source_code.tokenize().collect();

    check(tokens, vec![
        Ok(identifier("someIdentifier", (0, 14))),
        Ok(nonliteral(TokenKind::EndOfFile, "", (14, 0))),
    ]);
}

#[test]
fn tokenize_identifier_alphanumeric() {
    let source_code = "club42";

    let tokens: Vec<Result<Token, LexingError>> = source_code.tokenize().collect();

    check(tokens, vec![
        Ok(identifier("club42", (0, 6))),
        Ok(nonliteral(TokenKind::EndOfFile, "", (6, 0))),
    ]);
}

#[test]
fn tokenize_identifier_starting_with_underscore() {
    let source_code = "_identifierWithUnderscore";

    let tokens: Vec<Result<Token, LexingError>> = source_code.tokenize().collect();

    check(tokens, vec![
        Ok(identifier("_identifierWithUnderscore", (0, 25))),
        Ok(nonliteral(TokenKind::EndOfFile, "", (25, 0))),
    ]);
}

#[test]
fn tokenize_identifier_and_semicolon() {
    let source_code = "number2add;";

    let tokens: Vec<Result<Token, LexingError>> = source_code.tokenize().collect();

    check(tokens, vec![
        Ok(identifier("number2add", (0, 10))),
        Ok(nonliteral(TokenKind::Semicolon, ";", (10, 1))),
        Ok(nonliteral(TokenKind::EndOfFile, "", (11, 0))),
    ]);
}

#[test]
fn tokenize_boolean_true() {
    let source_code = " true ";

    let tokens: Vec<Result<Token, LexingError>> = source_code.tokenize().collect();

    check(tokens, vec![
        Ok(nonliteral(TokenKind::True, "true", (1, 4))),
        Ok(nonliteral(TokenKind::EndOfFile, "", (6, 0))),
    ]);
}

#[test]
fn tokenize_boolean_false() {
    let source_code = " false; ";

    let tokens: Vec<Result<Token, LexingError>> = source_code.tokenize().collect();

    check(tokens, vec![
        Ok(nonliteral(TokenKind::False, "false", (1, 5))),
        Ok(nonliteral(TokenKind::Semicolon, ";", (6, 1))),
        Ok(nonliteral(TokenKind::EndOfFile, "", (8, 0))),
    ]);
}

#[test]
fn tokenize_keyword_and() {
    let source_code = " and ";

    let tokens: Vec<Result<Token, LexingError>> = source_code.tokenize().collect();

    check(tokens, vec![
        Ok(nonliteral(TokenKind::And, "and", (1, 3))),
        Ok(nonliteral(TokenKind::EndOfFile, "", (5, 0))),
    ]);
}

#[test]
fn tokenize_keyword_or() {
    let source_code = " or ";

    let tokens: Vec<Result<Token, LexingError>> = source_code.tokenize().collect();

    check(tokens, vec![
        Ok(nonliteral(TokenKind::Or, "or", (1, 2))),
        Ok(nonliteral(TokenKind::EndOfFile, "", (4, 0))),
    ]);
}

#[test]
fn tokenize_keyword_class() {
    let source_code = " class Foo {} ";

    let tokens: Vec<Result<Token, LexingError>> = source_code.tokenize().collect();

    check(tokens, vec![
        Ok(nonliteral(TokenKind::Class, "class", (1, 5))),
        Ok(identifier("Foo", (7, 3))),
        Ok(nonliteral(TokenKind::LeftBrace, "{", (11, 1))),
        Ok(nonliteral(TokenKind::RightBrace, "}", (12, 1))),
        Ok(nonliteral(TokenKind::EndOfFile, "", (14, 0))),
    ]);
}

#[test]
fn tokenize_keyword_fun() {
    let source_code = " fun foo() {} ";

    let tokens: Vec<Result<Token, LexingError>> = source_code.tokenize().collect();

    check(tokens, vec![
        Ok(nonliteral(TokenKind::Fun, "fun", (1, 3))),
        Ok(identifier("foo", (5, 3))),
        Ok(nonliteral(TokenKind::LeftParen, "(", (8, 1))),
        Ok(nonliteral(TokenKind::RightParen, ")", (9, 1))),
        Ok(nonliteral(TokenKind::LeftBrace, "{", (11, 1))),
        Ok(nonliteral(TokenKind::RightBrace, "}", (12, 1))),
        Ok(nonliteral(TokenKind::EndOfFile, "", (14, 0))),
    ]);
}

#[test]
fn tokenize_keyword_super() {
    let source_code = " super.method(); ";

    let tokens: Vec<Result<Token, LexingError>> = source_code.tokenize().collect();

    check(tokens, vec![
        Ok(nonliteral(TokenKind::Super, "super", (1, 5))),
        Ok(nonliteral(TokenKind::Dot, ".", (6, 1))),
        Ok(identifier("method", (7, 6))),
        Ok(nonliteral(TokenKind::LeftParen, "(", (13, 1))),
        Ok(nonliteral(TokenKind::RightParen, ")", (14, 1))),
        Ok(nonliteral(TokenKind::Semicolon, ";", (15, 1))),
        Ok(nonliteral(TokenKind::EndOfFile, "", (17, 0))),
    ]);
}

#[test]
fn tokenize_keyword_this() {
    let source_code = " this.name = \"John\"; ";

    let tokens: Vec<Result<Token, LexingError>> = source_code.tokenize().collect();

    check(tokens, vec![
        Ok(nonliteral(TokenKind::This, "this", (1, 4))),
        Ok(nonliteral(TokenKind::Dot, ".", (5, 1))),
        Ok(identifier("name", (6, 4))),
        Ok(nonliteral(TokenKind::Equal, "=", (11, 1))),
        Ok(literal("John", "\"John\"", (13, 6))),
        Ok(nonliteral(TokenKind::Semicolon, ";", (19, 1))),
        Ok(nonliteral(TokenKind::EndOfFile, "", (21, 0))),
    ]);
}

#[test]
fn tokenize_keyword_var() {
    let source_code = " var x = 10; ";

    let tokens: Vec<Result<Token, LexingError>> = source_code.tokenize().collect();

    check(tokens, vec![
        Ok(nonliteral(TokenKind::Var, "var", (1, 3))),
        Ok(identifier("x", (5, 1))),
        Ok(nonliteral(TokenKind::Equal, "=", (7, 1))),
        Ok(literal(10., "10", (9, 2))),
        Ok(nonliteral(TokenKind::Semicolon, ";", (11, 1))),
        Ok(nonliteral(TokenKind::EndOfFile, "", (13, 0))),
    ]);
}

#[test]
fn tokenize_keyword_nil() {
    let source_code = " nil ";

    let tokens: Vec<Result<Token, LexingError>> = source_code.tokenize().collect();

    check(tokens, vec![
        Ok(nonliteral(TokenKind::Nil, "nil", (1, 3))),
        Ok(nonliteral(TokenKind::EndOfFile, "", (5, 0))),
    ]);
}

#[test]
fn tokenize_keyword_return() {
    let source_code = " return 42; ";

    let tokens: Vec<Result<Token, LexingError>> = source_code.tokenize().collect();

    check(tokens, vec![
        Ok(nonliteral(TokenKind::Return, "return", (1, 6))),
        Ok(literal(42., "42", (8, 2))),
        Ok(nonliteral(TokenKind::Semicolon, ";", (10, 1))),
        Ok(nonliteral(TokenKind::EndOfFile, "", (12, 0))),
    ]);
}

#[test]
fn tokenize_keywords_if_else() {
    let source_code = " if (x == 99) { } else { } ";

    let tokens: Vec<Result<Token, LexingError>> = source_code.tokenize().collect();

    check(tokens, vec![
        Ok(nonliteral(TokenKind::If, "if", (1, 2))),
        Ok(nonliteral(TokenKind::LeftParen, "(", (4, 1))),
        Ok(identifier("x", (5, 1))),
        Ok(nonliteral(TokenKind::EqualEqual, "==", (7, 2))),
        Ok(literal(99., "99", (10, 2))),
        Ok(nonliteral(TokenKind::RightParen, ")", (12, 1))),
        Ok(nonliteral(TokenKind::LeftBrace, "{", (14, 1))),
        Ok(nonliteral(TokenKind::RightBrace, "}", (16, 1))),
        Ok(nonliteral(TokenKind::Else, "else", (18, 4))),
        Ok(nonliteral(TokenKind::LeftBrace, "{", (23, 1))),
        Ok(nonliteral(TokenKind::RightBrace, "}", (25, 1))),
        Ok(nonliteral(TokenKind::EndOfFile, "", (27, 0))),
    ]);
}

#[test]
fn tokenize_keyword_for() {
    let source_code = " for (;;) { } ";

    let tokens: Vec<Result<Token, LexingError>> = source_code.tokenize().collect();

    check(tokens, vec![
        Ok(nonliteral(TokenKind::For, "for", (1, 3))),
        Ok(nonliteral(TokenKind::LeftParen, "(", (5, 1))),
        Ok(nonliteral(TokenKind::Semicolon, ";", (6, 1))),
        Ok(nonliteral(TokenKind::Semicolon, ";", (7, 1))),
        Ok(nonliteral(TokenKind::RightParen, ")", (8, 1))),
        Ok(nonliteral(TokenKind::LeftBrace, "{", (10, 1))),
        Ok(nonliteral(TokenKind::RightBrace, "}", (12, 1))),
        Ok(nonliteral(TokenKind::EndOfFile, "", (14, 0))),
    ]);
}

#[test]
fn tokenize_keyword_while() {
    let source_code = " while (x > 0) { } ";

    let tokens: Vec<Result<Token, LexingError>> = source_code.tokenize().collect();

    check(tokens, vec![
        Ok(nonliteral(TokenKind::While, "while", (1, 5))),
        Ok(nonliteral(TokenKind::LeftParen, "(", (7, 1))),
        Ok(identifier("x", (8, 1))),
        Ok(nonliteral(TokenKind::Greater, ">", (10, 1))),
        Ok(literal(0., "0", (12, 1))),
        Ok(nonliteral(TokenKind::RightParen, ")", (13, 1))),
        Ok(nonliteral(TokenKind::LeftBrace, "{", (15, 1))),
        Ok(nonliteral(TokenKind::RightBrace, "}", (17, 1))),
        Ok(nonliteral(TokenKind::EndOfFile, "", (19, 0))),
    ]);
}

#[test]
fn tokenize_keyword_print() {
    let source_code = " print(\"Hello, world!\"); ";

    let tokens: Vec<Result<Token, LexingError>> = source_code.tokenize().collect();

    check(tokens, vec![
        Ok(nonliteral(TokenKind::Print, "print", (1, 5))),
        Ok(nonliteral(TokenKind::LeftParen, "(", (6, 1))),
        Ok(literal(
            "Hello, world!",
            "\"Hello, world!\"",
            (7, 15),
        )),
        Ok(nonliteral(TokenKind::RightParen, ")", (22, 1))),
        Ok(nonliteral(TokenKind::Semicolon, ";", (23, 1))),
        Ok(nonliteral(TokenKind::EndOfFile, "", (25, 0))),
    ]);
}

#[test]
fn tokenize_bang_identifier() {
    let source_code = "!a";

    let tokens: Vec<Result<Token, LexingError>> = source_code.tokenize().collect();

    check(tokens, vec![
        Ok(nonliteral(TokenKind::Bang, "!", (0, 1))),
        Ok(identifier("a", (1, 1))),
        Ok(nonliteral(TokenKind::EndOfFile, "", (2, 0))),
    ]);
}

#[test]
fn tokenize_equal_string_literal() {
    let source_code = "a=\"Jane\";";

    let tokens: Vec<Result<Token, LexingError>> = source_code.tokenize().collect();

    check(tokens, vec![
        Ok(identifier("a", (0, 1))),
        Ok(nonliteral(TokenKind::Equal, "=", (1, 1))),
        Ok(literal("Jane", "\"Jane\"", (2, 6))),
        Ok(nonliteral(TokenKind::Semicolon, ";", (8, 1))),
        Ok(nonliteral(TokenKind::EndOfFile, "", (9, 0))),
    ]);
}

#[test]
fn tokenize_greater_number_literal() {
    let source_code = "a>0.5";

    let tokens: Vec<Result<Token, LexingError>> = source_code.tokenize().collect();

    check(tokens, vec![
        Ok(identifier("a", (0, 1))),
        Ok(nonliteral(TokenKind::Greater, ">", (1, 1))),
        Ok(literal(0.5, "0.5", (2, 3))),
        Ok(nonliteral(TokenKind::EndOfFile, "", (5, 0))),
    ]);
}

#[test]
fn tokenize_less_number_literal() {
    let source_code = "a<18";

    let tokens: Vec<Result<Token, LexingError>> = source_code.tokenize().collect();

    check(tokens, vec![
        Ok(identifier("a", (0, 1))),
        Ok(nonliteral(TokenKind::Less, "<", (1, 1))),
        Ok(literal(18., "18", (2, 2))),
        Ok(nonliteral(TokenKind::EndOfFile, "", (4, 0))),
    ]);
}

#[test]
fn tokenize_slash_number_literal() {
    let source_code = "a/2.5";

    let tokens: Vec<Result<Token, LexingError>> = source_code.tokenize().collect();

    check(tokens, vec![
        Ok(identifier("a", (0, 1))),
        Ok(nonliteral(TokenKind::Slash, "/", (1, 1))),
        Ok(literal(2.5, "2.5", (2, 3))),
        Ok(nonliteral(TokenKind::EndOfFile, "", (5, 0))),
    ]);
}

#[test]
fn tokenize_dot_after_integer_literal() {
    let source_code = "1.neg()";

    let tokens: Vec<Result<Token, LexingError>> = source_code.tokenize().collect();

    check(tokens, vec![
        Ok(literal(1., "1", (0, 1))),
        Ok(nonliteral(TokenKind::Dot, ".", (1, 1))),
        Ok(identifier("neg", (2, 3))),
        Ok(nonliteral(TokenKind::LeftParen, "(", (5, 1))),
        Ok(nonliteral(TokenKind::RightParen, ")", (6, 1))),
        Ok(nonliteral(TokenKind::EndOfFile, "", (7, 0))),
    ]);
}

#[test]
fn every_token_text_is_the_source_at_its_location() {
    let source_code = "var café = \"crème\"; // comment\nprint café + 12.5 >= ñ;";
    let mut tokens = source_code.tokenize();
    let mut count = 0;
    while let Some(item) = tokens.next() {
        if let Ok(token) = item {
            let location = token.location();
            assert_eq!(&source_code[location.offset()..location.offset() + location.len()], token.lexeme().as_str());
            count += 1;
        }
    }
    assert!(count > 10);
}
