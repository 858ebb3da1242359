//! A lexer for Lox driven by a state machine over a stream of characters;
//! it tells where an error stands by line and character.
use crate::chars::{
    digit, identifier_char, identifier_start, is_digit, is_identifier_char, is_identifier_start,
    is_white_space, white_space,
};
use crate::source::{spec_location_text, Location};
use crate::text::push_char;
use crate::token::{keyword_kind, spec_keyword_kind, spec_kind_name, spec_kind_text, TokenKind};
use vstd::prelude::*;

verus! {

/// What went wrong while lexing.
#[derive(Debug, Clone, PartialEq)]
pub enum TokenizeErrorCode {
    IoError(String),
    CharacterAfterEndOfFile(char),
    InvalidNumberLiteral(String),
    UnexpectedCharacter(char),
    UnterminatedStringLiteral(String),
}

/// The mathematical view of a [`TokenizeErrorCode`].
pub enum TokenizeErrorCodeView {
    IoError(Seq<char>),
    CharacterAfterEndOfFile(char),
    InvalidNumberLiteral(Seq<char>),
    UnexpectedCharacter(char),
    UnterminatedStringLiteral(Seq<char>),
}

impl View for TokenizeErrorCode {
    type V = TokenizeErrorCodeView;

    open spec fn view(&self) -> TokenizeErrorCodeView {
        match self {
            TokenizeErrorCode::IoError(m) => TokenizeErrorCodeView::IoError(m@),
            TokenizeErrorCode::CharacterAfterEndOfFile(c) => TokenizeErrorCodeView::CharacterAfterEndOfFile(*c),
            TokenizeErrorCode::InvalidNumberLiteral(t) => TokenizeErrorCodeView::InvalidNumberLiteral(t@),
            TokenizeErrorCode::UnexpectedCharacter(c) => TokenizeErrorCodeView::UnexpectedCharacter(*c),
            TokenizeErrorCode::UnterminatedStringLiteral(t) => TokenizeErrorCodeView::UnterminatedStringLiteral(t@),
        }
    }
}

/// The message of an error code.
pub open spec fn spec_tokenize_code_message(code: TokenizeErrorCodeView) -> Seq<char> {
    match code {
        TokenizeErrorCodeView::IoError(m) => m,
        TokenizeErrorCodeView::CharacterAfterEndOfFile(c) => "character '"@ + seq![c] + "' after end of file"@,
        TokenizeErrorCodeView::InvalidNumberLiteral(t) => "invalid number literal "@ + t,
        TokenizeErrorCodeView::UnexpectedCharacter(c) => "unexpected character '"@ + seq![c] + "'"@,
        TokenizeErrorCodeView::UnterminatedStringLiteral(t) => "unterminated string literal \""@ + t,
    }
}

impl TokenizeErrorCode {
    /// The message that describes this error.
    pub fn message(&self) -> (message: String)
        ensures
            message@ == spec_tokenize_code_message(self@),
    {
        match self {
            TokenizeErrorCode::IoError(m) => m.clone(),
            TokenizeErrorCode::CharacterAfterEndOfFile(c) => {
                let mut s = String::from_str("character '");
                push_char(&mut s, *c);
                s.append("' after end of file");
                s
            },
            TokenizeErrorCode::InvalidNumberLiteral(t) => {
                let mut s = String::from_str("invalid number literal ");
                s.append(t.as_str());
                s
            },
            TokenizeErrorCode::UnexpectedCharacter(c) => {
                let mut s = String::from_str("unexpected character '");
                push_char(&mut s, *c);
                s.append("'");
                s
            },
            TokenizeErrorCode::UnterminatedStringLiteral(t) => {
                let mut s = String::from_str("unterminated string literal \"");
                s.append(t.as_str());
                s
            },
        }
    }

    /// The code of an input error, from the message of that error.
    pub fn from_io_error_message(message: String) -> (code: TokenizeErrorCode)
        ensures
            code@ == TokenizeErrorCodeView::IoError(message@),
    {
        TokenizeErrorCode::IoError(message)
    }
}

/// A lexing error: what went wrong and where.
#[derive(Debug, Clone, PartialEq)]
pub struct TokenizeError {
    pub code: TokenizeErrorCode,
    pub location: Location,
}

/// The mathematical view of a [`TokenizeError`].
pub struct TokenizeErrorView {
    pub code: TokenizeErrorCodeView,
    pub location: Location,
}

impl View for TokenizeError {
    type V = TokenizeErrorView;

    open spec fn view(&self) -> TokenizeErrorView {
        TokenizeErrorView { code: self.code@, location: self.location }
    }
}

/// The message of an error: the message of its code, `at` and its location.
pub open spec fn spec_tokenize_error_message(error: TokenizeErrorView) -> Seq<char> {
    spec_tokenize_code_message(error.code) + " at "@ + spec_location_text(error.location)
}

impl TokenizeError {
    pub fn new(code: TokenizeErrorCode, location: Location) -> (error: TokenizeError)
        ensures
            error.code == code,
            error.location == location,
    {
        TokenizeError { code, location }
    }

    pub fn code(&self) -> (code: &TokenizeErrorCode)
        ensures
            code == &self.code,
    {
        &self.code
    }

    pub fn location(&self) -> (location: Location)
        ensures
            location == self.location,
    {
        self.location
    }

    /// The message of this error: `<code message> at <line>:<char>`.
    pub fn message(&self) -> (message: String)
        ensures
            message@ == spec_tokenize_error_message(self@),
    {
        let mut message = self.code.message();
        message.append(" at ");
        let location = self.location.text();
        message.append(location.as_str());
        message
    }
}

/// The mathematical view of a token: its kind and, for string and number
/// literals and identifiers, its text (empty for the other kinds).
pub struct TokenValue {
    pub kind: TokenKind,
    pub text: Seq<char>,
}

/// Whether tokens of a kind carry a text.
pub open spec fn has_text(kind: TokenKind) -> bool {
    kind == TokenKind::StringLiteral || kind == TokenKind::NumberLiteral || kind == TokenKind::Identifier
}

/// The token of a kind, with its text when the kind carries one.
pub open spec fn value_of(kind: TokenKind, text: Seq<char>) -> TokenValue {
    TokenValue { kind, text: if has_text(kind) { text } else { Seq::empty() } }
}

/// The tokens of Lox; string and number literals and identifiers carry their text.
#[derive(Debug, Clone, PartialEq, Eq)]
pub enum Token {
    EndOfFile,
    LeftParen,
    RightParen,
    LeftBrace,
    RightBrace,
    Comma,
    Dot,
    Semicolon,
    Minus,
    Plus,
    Star,
    Slash,
    Bang,
    Equal,
    Greater,
    Less,
    BangEqual,
    EqualEqual,
    GreaterEqual,
    LessEqual,
    StringLiteral(String),
    NumberLiteral(String),
    Identifier(String),
    And,
    Class,
    Else,
    False,
    Fun,
    For,
    If,
    Nil,
    Or,
    Print,
    Return,
    Super,
    This,
    True,
    Var,
    While,
}

impl View for Token {
    type V = TokenValue;

    open spec fn view(&self) -> TokenValue {
        match self {
            Token::EndOfFile => TokenValue { kind: TokenKind::EndOfFile, text: Seq::empty() },
            Token::LeftParen => TokenValue { kind: TokenKind::LeftParen, text: Seq::empty() },
            Token::RightParen => TokenValue { kind: TokenKind::RightParen, text: Seq::empty() },
            Token::LeftBrace => TokenValue { kind: TokenKind::LeftBrace, text: Seq::empty() },
            Token::RightBrace => TokenValue { kind: TokenKind::RightBrace, text: Seq::empty() },
            Token::Comma => TokenValue { kind: TokenKind::Comma, text: Seq::empty() },
            Token::Dot => TokenValue { kind: TokenKind::Dot, text: Seq::empty() },
            Token::Semicolon => TokenValue { kind: TokenKind::Semicolon, text: Seq::empty() },
            Token::Minus => TokenValue { kind: TokenKind::Minus, text: Seq::empty() },
            Token::Plus => TokenValue { kind: TokenKind::Plus, text: Seq::empty() },
            Token::Star => TokenValue { kind: TokenKind::Star, text: Seq::empty() },
            Token::Slash => TokenValue { kind: TokenKind::Slash, text: Seq::empty() },
            Token::Bang => TokenValue { kind: TokenKind::Bang, text: Seq::empty() },
            Token::Equal => TokenValue { kind: TokenKind::Equal, text: Seq::empty() },
            Token::Greater => TokenValue { kind: TokenKind::Greater, text: Seq::empty() },
            Token::Less => TokenValue { kind: TokenKind::Less, text: Seq::empty() },
            Token::BangEqual => TokenValue { kind: TokenKind::BangEqual, text: Seq::empty() },
            Token::EqualEqual => TokenValue { kind: TokenKind::EqualEqual, text: Seq::empty() },
            Token::GreaterEqual => TokenValue { kind: TokenKind::GreaterEqual, text: Seq::empty() },
            Token::LessEqual => TokenValue { kind: TokenKind::LessEqual, text: Seq::empty() },
            Token::StringLiteral(text) => TokenValue { kind: TokenKind::StringLiteral, text: text@ },
            Token::NumberLiteral(text) => TokenValue { kind: TokenKind::NumberLiteral, text: text@ },
            Token::Identifier(text) => TokenValue { kind: TokenKind::Identifier, text: text@ },
            Token::And => TokenValue { kind: TokenKind::And, text: Seq::empty() },
            Token::Class => TokenValue { kind: TokenKind::Class, text: Seq::empty() },
            Token::Else => TokenValue { kind: TokenKind::Else, text: Seq::empty() },
            Token::False => TokenValue { kind: TokenKind::False, text: Seq::empty() },
            Token::Fun => TokenValue { kind: TokenKind::Fun, text: Seq::empty() },
            Token::For => TokenValue { kind: TokenKind::For, text: Seq::empty() },
            Token::If => TokenValue { kind: TokenKind::If, text: Seq::empty() },
            Token::Nil => TokenValue { kind: TokenKind::Nil, text: Seq::empty() },
            Token::Or => TokenValue { kind: TokenKind::Or, text: Seq::empty() },
            Token::Print => TokenValue { kind: TokenKind::Print, text: Seq::empty() },
            Token::Return => TokenValue { kind: TokenKind::Return, text: Seq::empty() },
            Token::Super => TokenValue { kind: TokenKind::Super, text: Seq::empty() },
            Token::This => TokenValue { kind: TokenKind::This, text: Seq::empty() },
            Token::True => TokenValue { kind: TokenKind::True, text: Seq::empty() },
            Token::Var => TokenValue { kind: TokenKind::Var, text: Seq::empty() },
            Token::While => TokenValue { kind: TokenKind::While, text: Seq::empty() },
        }
    }
}

/// The token of a kind, with its text when the kind carries one.
fn token_of(kind: TokenKind, text: String) -> (token: Token)
    ensures
        token@ == value_of(kind, text@),
{
    match kind {
        TokenKind::EndOfFile => Token::EndOfFile,
        TokenKind::LeftParen => Token::LeftParen,
        TokenKind::RightParen => Token::RightParen,
        TokenKind::LeftBrace => Token::LeftBrace,
        TokenKind::RightBrace => Token::RightBrace,
        TokenKind::Comma => Token::Comma,
        TokenKind::Dot => Token::Dot,
        TokenKind::Semicolon => Token::Semicolon,
        TokenKind::Minus => Token::Minus,
        TokenKind::Plus => Token::Plus,
        TokenKind::Star => Token::Star,
        TokenKind::Slash => Token::Slash,
        TokenKind::Bang => Token::Bang,
        TokenKind::Equal => Token::Equal,
        TokenKind::Greater => Token::Greater,
        TokenKind::Less => Token::Less,
        TokenKind::BangEqual => Token::BangEqual,
        TokenKind::EqualEqual => Token::EqualEqual,
        TokenKind::GreaterEqual => Token::GreaterEqual,
        TokenKind::LessEqual => Token::LessEqual,
        TokenKind::StringLiteral => Token::StringLiteral(text),
        TokenKind::NumberLiteral => Token::NumberLiteral(text),
        TokenKind::Identifier => Token::Identifier(text),
        TokenKind::And => Token::And,
        TokenKind::Class => Token::Class,
        TokenKind::Else => Token::Else,
        TokenKind::False => Token::False,
        TokenKind::Fun => Token::Fun,
        TokenKind::For => Token::For,
        TokenKind::If => Token::If,
        TokenKind::Nil => Token::Nil,
        TokenKind::Or => Token::Or,
        TokenKind::Print => Token::Print,
        TokenKind::Return => Token::Return,
        TokenKind::Super => Token::Super,
        TokenKind::This => Token::This,
        TokenKind::True => Token::True,
        TokenKind::Var => Token::Var,
        TokenKind::While => Token::While,
    }
}

/// The description of a token: its kind, its text and its value, as the
/// token listing shows them.
pub open spec fn spec_token_description(t: TokenValue) -> Seq<char> {
    if t.kind == TokenKind::StringLiteral {
        "STRING_LITERAL \""@ + t.text + "\" \""@ + t.text + "\""@
    } else if t.kind == TokenKind::NumberLiteral {
        "NUMBER_LITERAL "@ + t.text + " "@ + t.text
    } else if t.kind == TokenKind::Identifier {
        "IDENTIFIER "@ + t.text + " "@ + t.text
    } else if t.kind == TokenKind::EndOfFile {
        "EOF  null"@
    } else {
        spec_kind_name(t.kind) + " "@ + spec_kind_text(t.kind) + " null"@
    }
}

impl Token {
    /// The description of this token, as the token listing shows it.
    pub fn description(&self) -> (text: String)
        ensures
            text@ == spec_token_description(self@),
    {
        let mut s = String::new();
        match self {
            Token::StringLiteral(t) => {
                s.append("STRING_LITERAL \"");
                s.append(t.as_str());
                s.append("\" \"");
                s.append(t.as_str());
                s.append("\"");
            },
            Token::NumberLiteral(t) => {
                s.append("NUMBER_LITERAL ");
                s.append(t.as_str());
                s.append(" ");
                s.append(t.as_str());
            },
            Token::Identifier(t) => {
                s.append("IDENTIFIER ");
                s.append(t.as_str());
                s.append(" ");
                s.append(t.as_str());
            },
            Token::EndOfFile => {
                s.append("EOF  null");
            },
            _ => {
                let kind = self.kind();
                s.append(kind.name());
                s.append(" ");
                s.append(kind.text());
                s.append(" null");
            },
        }
        s
    }

    /// The kind of this token.
    pub fn kind(&self) -> (kind: TokenKind)
        ensures
            kind == self@.kind,
    {
        match self {
            Token::EndOfFile => TokenKind::EndOfFile,
            Token::LeftParen => TokenKind::LeftParen,
            Token::RightParen => TokenKind::RightParen,
            Token::LeftBrace => TokenKind::LeftBrace,
            Token::RightBrace => TokenKind::RightBrace,
            Token::Comma => TokenKind::Comma,
            Token::Dot => TokenKind::Dot,
            Token::Semicolon => TokenKind::Semicolon,
            Token::Minus => TokenKind::Minus,
            Token::Plus => TokenKind::Plus,
            Token::Star => TokenKind::Star,
            Token::Slash => TokenKind::Slash,
            Token::Bang => TokenKind::Bang,
            Token::Equal => TokenKind::Equal,
            Token::Greater => TokenKind::Greater,
            Token::Less => TokenKind::Less,
            Token::BangEqual => TokenKind::BangEqual,
            Token::EqualEqual => TokenKind::EqualEqual,
            Token::GreaterEqual => TokenKind::GreaterEqual,
            Token::LessEqual => TokenKind::LessEqual,
            Token::StringLiteral(_) => TokenKind::StringLiteral,
            Token::NumberLiteral(_) => TokenKind::NumberLiteral,
            Token::Identifier(_) => TokenKind::Identifier,
            Token::And => TokenKind::And,
            Token::Class => TokenKind::Class,
            Token::Else => TokenKind::Else,
            Token::False => TokenKind::False,
            Token::Fun => TokenKind::Fun,
            Token::For => TokenKind::For,
            Token::If => TokenKind::If,
            Token::Nil => TokenKind::Nil,
            Token::Or => TokenKind::Or,
            Token::Print => TokenKind::Print,
            Token::Return => TokenKind::Return,
            Token::Super => TokenKind::Super,
            Token::This => TokenKind::This,
            Token::True => TokenKind::True,
            Token::Var => TokenKind::Var,
            Token::While => TokenKind::While,
        }
    }
}

// ---------------------------------------------------------------------------
// The state machine
// ---------------------------------------------------------------------------

/// The states of the lexer between two characters.
#[derive(Debug, Clone, Copy, PartialEq, Eq, Structural)]
pub enum LexingState {
    Initial,
    MaybeBangEqual,
    MaybeEqualEqual,
    MaybeGreaterEqual,
    MaybeLessEqual,
    MaybeLineComment,
    LineComment,
    StringLiteral,
    NumberLiteral,
    MaybeDecimalPoint,
    Identifier,
    EndOfFile,
}

/// The mathematical view of the lexer: the input not read yet (characters,
/// or the messages of input errors), the characters put back to be read
/// again first, the location of the last character read, the state and the
/// text of the lexeme read so far.
pub struct ScanView {
    pub input: Seq<Result<char, Seq<char>>>,
    pub pending: Seq<char>,
    pub location: Location,
    pub state: LexingState,
    pub lexeme: Seq<char>,
}

/// The location after reading a character: a line break starts a new line.
pub open spec fn advanced(l: Location, c: char) -> Location {
    if c == '\n' {
        Location { line: (l.line + 1) as usize, char: 0 }
    } else {
        Location { line: l.line, char: (l.char + 1) as usize }
    }
}

/// Reading the next character: a character put back first, else the next
/// input item; an input error is reported at the current location.
pub open spec fn fetch(s: ScanView) -> (ScanView, Option<Result<char, TokenizeErrorView>>) {
    if s.pending.len() > 0 {
        let c = s.pending[0];
        (ScanView { input: s.input, pending: s.pending.drop_first(), location: advanced(s.location, c), state: s.state, lexeme: s.lexeme }, Some(Ok(c)))
    } else if s.input.len() == 0 {
        (s, None)
    } else {
        match s.input[0] {
            Ok(c) => (ScanView { input: s.input.drop_first(), pending: s.pending, location: advanced(s.location, c), state: s.state, lexeme: s.lexeme }, Some(Ok(c))),
            Err(m) => (ScanView { input: s.input.drop_first(), pending: s.pending, location: s.location, state: s.state, lexeme: s.lexeme },
                Some(Err(TokenizeErrorView { code: TokenizeErrorCodeView::IoError(m), location: s.location }))),
        }
    }
}

/// The token of a character that is a token by itself.
pub open spec fn single_char_token(c: char) -> Option<TokenKind> {
    if c == ',' {
        Some(TokenKind::Comma)
    } else if c == '(' {
        Some(TokenKind::LeftParen)
    } else if c == ')' {
        Some(TokenKind::RightParen)
    } else if c == '{' {
        Some(TokenKind::LeftBrace)
    } else if c == '}' {
        Some(TokenKind::RightBrace)
    } else if c == '.' {
        Some(TokenKind::Dot)
    } else if c == ';' {
        Some(TokenKind::Semicolon)
    } else if c == '-' {
        Some(TokenKind::Minus)
    } else if c == '+' {
        Some(TokenKind::Plus)
    } else if c == '*' {
        Some(TokenKind::Star)
    } else {
        None
    }
}

/// The state that a character starts in the initial state, for `/`, the
/// operators that `=` may follow and `"`.
pub open spec fn opening_state(c: char) -> Option<LexingState> {
    if c == '/' {
        Some(LexingState::MaybeLineComment)
    } else if c == '!' {
        Some(LexingState::MaybeBangEqual)
    } else if c == '=' {
        Some(LexingState::MaybeEqualEqual)
    } else if c == '<' {
        Some(LexingState::MaybeLessEqual)
    } else if c == '>' {
        Some(LexingState::MaybeGreaterEqual)
    } else if c == '"' {
        Some(LexingState::StringLiteral)
    } else {
        None
    }
}

/// The lexer with another state, lexeme and characters put back.
pub open spec fn with(s: ScanView, state: LexingState, lexeme: Seq<char>, pending: Seq<char>) -> ScanView {
    ScanView { input: s.input, pending, location: s.location, state, lexeme }
}

/// An item given out: a token of a kind, with a text when the kind carries one.
pub open spec fn emitted(kind: TokenKind, text: Seq<char>) -> Option<Option<Result<TokenValue, TokenizeErrorView>>> {
    Some(Some(Ok(value_of(kind, text))))
}

/// An item given out: an error at a location.
pub open spec fn failed(code: TokenizeErrorCodeView, location: Location) -> Option<Option<Result<TokenValue, TokenizeErrorView>>> {
    Some(Some(Err(TokenizeErrorView { code, location })))
}

/// The token of a word: its keyword, or an identifier.
pub open spec fn word_value(word: Seq<char>) -> TokenValue {
    value_of(spec_keyword_kind(word), word)
}

/// After `!`, `=`, `<` or `>`: the operator followed by `=`, or the operator
/// alone, the character after it put back.
pub open spec fn after_operator(s: ScanView, c: Option<char>, single: TokenKind, double: TokenKind) -> (ScanView, Option<Option<Result<TokenValue, TokenizeErrorView>>>) {
    match c {
        None => (with(s, LexingState::Initial, s.lexeme, s.pending), emitted(single, Seq::empty())),
        Some(ch) => if ch == '=' {
            (with(s, LexingState::Initial, s.lexeme, s.pending), emitted(double, Seq::empty()))
        } else {
            (with(s, LexingState::Initial, s.lexeme, s.pending.push(ch)), emitted(single, Seq::empty()))
        },
    }
}

/// One move of the state machine on the character read (nothing at the end
/// of the input): the next state and what it gives out, if anything; an
/// inner nothing ends the items.
pub open spec fn transition(s: ScanView, c: Option<char>) -> (ScanView, Option<Option<Result<TokenValue, TokenizeErrorView>>>) {
    match s.state {
        LexingState::Initial => match c {
            None => (with(s, LexingState::EndOfFile, s.lexeme, s.pending), emitted(TokenKind::EndOfFile, Seq::empty())),
            Some(ch) => if single_char_token(ch) is Some {
                (s, emitted(single_char_token(ch)->Some_0, Seq::empty()))
            } else if opening_state(ch) is Some {
                (with(s, opening_state(ch)->Some_0, s.lexeme, s.pending), None)
            } else if is_digit(ch) {
                (with(s, LexingState::NumberLiteral, s.lexeme.push(ch), s.pending), None)
            } else if is_identifier_start(ch) {
                (with(s, LexingState::Identifier, s.lexeme.push(ch), s.pending), None)
            } else if is_white_space(ch) {
                (s, None)
            } else {
                (s, failed(TokenizeErrorCodeView::UnexpectedCharacter(ch), s.location))
            },
        },
        LexingState::MaybeBangEqual => after_operator(s, c, TokenKind::Bang, TokenKind::BangEqual),
        LexingState::MaybeEqualEqual => after_operator(s, c, TokenKind::Equal, TokenKind::EqualEqual),
        LexingState::MaybeGreaterEqual => after_operator(s, c, TokenKind::Greater, TokenKind::GreaterEqual),
        LexingState::MaybeLessEqual => after_operator(s, c, TokenKind::Less, TokenKind::LessEqual),
        LexingState::MaybeLineComment => match c {
            None => (with(s, LexingState::Initial, s.lexeme, s.pending), emitted(TokenKind::Slash, Seq::empty())),
            Some(ch) => if ch == '/' {
                (with(s, LexingState::LineComment, s.lexeme, s.pending), None)
            } else {
                (with(s, LexingState::Initial, s.lexeme, s.pending.push(ch)), emitted(TokenKind::Slash, Seq::empty()))
            },
        },
        LexingState::LineComment => match c {
            None => (with(s, LexingState::EndOfFile, s.lexeme, s.pending), emitted(TokenKind::EndOfFile, Seq::empty())),
            Some(ch) => if ch == '\n' {
                (with(s, LexingState::Initial, s.lexeme, s.pending), None)
            } else {
                (s, None)
            },
        },
        LexingState::StringLiteral => match c {
            None => (with(s, LexingState::Initial, Seq::empty(), s.pending),
                failed(TokenizeErrorCodeView::UnterminatedStringLiteral(s.lexeme), s.location)),
            Some(ch) => if ch == '"' {
                (with(s, LexingState::Initial, Seq::empty(), s.pending), emitted(TokenKind::StringLiteral, s.lexeme))
            } else {
                (with(s, LexingState::StringLiteral, s.lexeme.push(ch), s.pending), None)
            },
        },
        LexingState::NumberLiteral => match c {
            None => (with(s, LexingState::Initial, Seq::empty(), s.pending), emitted(TokenKind::NumberLiteral, s.lexeme)),
            Some(ch) => if ch == '.' {
                (with(s, LexingState::MaybeDecimalPoint, s.lexeme, s.pending), None)
            } else if is_digit(ch) {
                (with(s, LexingState::NumberLiteral, s.lexeme.push(ch), s.pending), None)
            } else {
                (with(s, LexingState::Initial, Seq::empty(), s.pending.push(ch)), emitted(TokenKind::NumberLiteral, s.lexeme))
            },
        },
        LexingState::MaybeDecimalPoint => match c {
            None => (with(s, LexingState::Initial, Seq::empty(), s.pending), emitted(TokenKind::NumberLiteral, s.lexeme)),
            Some(ch) => if is_digit(ch) {
                (with(s, LexingState::NumberLiteral, s.lexeme.push('.').push(ch), s.pending), None)
            } else if is_identifier_start(ch) {
                (with(s, LexingState::Initial, Seq::empty(), s.pending.push('.').push(ch)), emitted(TokenKind::NumberLiteral, s.lexeme))
            } else {
                (with(s, LexingState::Initial, Seq::empty(), s.pending.push(ch)), emitted(TokenKind::NumberLiteral, s.lexeme))
            },
        },
        LexingState::Identifier => match c {
            None => (with(s, LexingState::Initial, Seq::empty(), s.pending), emitted(TokenKind::Identifier, s.lexeme)),
            Some(ch) => if is_identifier_char(ch) {
                (with(s, LexingState::Identifier, s.lexeme.push(ch), s.pending), None)
            } else {
                (with(s, LexingState::Initial, Seq::empty(), s.pending.push(ch)), Some(Some(Ok(word_value(s.lexeme)))))
            },
        },
        LexingState::EndOfFile => match c {
            None => (s, Some(None)),
            Some(ch) => (s, failed(TokenizeErrorCodeView::CharacterAfterEndOfFile(ch), s.location)),
        },
    }
}

/// Reading one character and moving on it; an input error is given out at
/// once, whatever the state.
pub open spec fn spec_step(s: ScanView) -> (ScanView, Option<Option<Result<TokenValue, TokenizeErrorView>>>) {
    let (s1, f) = fetch(s);
    match f {
        Some(Err(e)) => (s1, Some(Some(Err(e)))),
        Some(Ok(ch)) => transition(s1, Some(ch)),
        None => transition(s1, None),
    }
}

/// What remains to be read: each input item counts twice, each character put
/// back once, and a decimal point read but not yet settled once.
pub open spec fn potential(s: ScanView) -> nat {
    2 * s.input.len() + s.pending.len() + if s.state == LexingState::MaybeDecimalPoint { 1nat } else { 0nat }
}

/// A measure of the work left that each item given out lowers.
pub open spec fn progress(s: ScanView) -> nat {
    3 * potential(s) + match s.state {
        LexingState::EndOfFile => 0nat,
        LexingState::Initial => 1nat,
        _ => 2nat,
    }
}

/// The next item: the state machine moves until it gives something out.
pub open spec fn scan(s: ScanView) -> (ScanView, Option<Result<TokenValue, TokenizeErrorView>>)
    decreases potential(s),
{
    let (s1, out) = spec_step(s);
    match out {
        Some(r) => (s1, r),
        None => if potential(s1) < potential(s) {
            scan(s1)
        } else {
            (s1, None)
        },
    }
}

/// All the items that the lexer gives from a state.
pub open spec fn scan_all(s: ScanView) -> Seq<Result<TokenValue, TokenizeErrorView>>
    decreases progress(s),
{
    let (s1, r) = scan(s);
    match r {
        None => Seq::empty(),
        Some(item) => if progress(s1) < progress(s) {
            seq![item] + scan_all(s1)
        } else {
            seq![item]
        },
    }
}

/// The lexer at the start of an input.
pub open spec fn start_scan(input: Seq<Result<char, Seq<char>>>) -> ScanView {
    ScanView { input, pending: Seq::empty(), location: Location { line: 1, char: 0 }, state: LexingState::Initial, lexeme: Seq::empty() }
}

/// All the items of lexing an input.
pub open spec fn spec_tokenize_input(input: Seq<Result<char, Seq<char>>>) -> Seq<Result<TokenValue, TokenizeErrorView>> {
    scan_all(start_scan(input))
}

// ---------------------------------------------------------------------------
// The lexer
// ---------------------------------------------------------------------------

/// The view of input items.
pub open spec fn input_view(input: Seq<Result<char, String>>) -> Seq<Result<char, Seq<char>>> {
    input.map_values(|r: Result<char, String>| match r {
        Ok(c) => Ok(c),
        Err(m) => Err(m@),
    })
}

/// The view of an item of the lexer.
pub open spec fn item_view(item: Result<Token, TokenizeError>) -> Result<TokenValue, TokenizeErrorView> {
    match item {
        Ok(t) => Ok(t@),
        Err(e) => Err(e@),
    }
}

/// The view of what a move of the state machine gives out.
pub open spec fn out_view(out: Option<Option<Result<Token, TokenizeError>>>) -> Option<Option<Result<TokenValue, TokenizeErrorView>>> {
    match out {
        None => None,
        Some(None) => Some(None),
        Some(Some(item)) => Some(Some(item_view(item))),
    }
}

/// The view of a character read.
pub open spec fn read_view(r: Option<Result<char, TokenizeError>>) -> Option<Result<char, TokenizeErrorView>> {
    match r {
        None => None,
        Some(Ok(c)) => Some(Ok(c)),
        Some(Err(e)) => Some(Err(e@)),
    }
}

/// The characters put back are few: at most a decimal point and the
/// character after it, and only in the initial state.
pub open spec fn shaped(s: ScanView) -> bool {
    &&& s.pending.len() <= 2
    &&& s.pending.len() > 0 ==> s.state == LexingState::Initial
    &&& s.pending.len() == 2 ==> s.pending[0] == '.'
}

/// A lexer for Lox over characters and input errors.
pub struct Tokens {
    input: Vec<Result<char, String>>,
    position: usize,
    pending: Vec<char>,
    location: Location,
    state: LexingState,
    lexeme: Vec<char>,
}

impl View for Tokens {
    type V = ScanView;

    closed spec fn view(&self) -> ScanView {
        ScanView {
            input: input_view(self.input@).subrange(self.position as int, self.input@.len() as int),
            pending: self.pending@,
            location: self.location,
            state: self.state,
            lexeme: self.lexeme@,
        }
    }
}

fn emit(kind: TokenKind, text: String) -> (out: Option<Option<Result<Token, TokenizeError>>>)
    ensures
        out_view(out) == emitted(kind, text@),
{
    Some(Some(Ok(token_of(kind, text))))
}

fn fail(code: TokenizeErrorCode, location: Location) -> (out: Option<Option<Result<Token, TokenizeError>>>)
    ensures
        out_view(out) == failed(code@, location),
{
    Some(Some(Err(TokenizeError::new(code, location))))
}

impl Tokens {
    /// The bound on the number of characters read, from the size of the input.
    pub closed spec fn budget(&self) -> nat {
        1 + 2 * self.input@.len()
    }

    pub closed spec fn wf(&self) -> bool {
        &&& self.position <= self.input@.len()
        &&& 2 * self.input@.len() + 2 < usize::MAX
        &&& shaped(self@)
        &&& self.location.line + self.location.char + potential(self@) <= self.budget()
    }

    /// A lexer at the start of an input of characters and input errors.
    pub fn new(input: Vec<Result<char, String>>) -> (tokens: Tokens)
        requires
            2 * input@.len() + 2 < usize::MAX,
        ensures
            tokens.wf(),
            tokens@ == start_scan(input_view(input@)),
    {
        let tokens = Tokens {
            input,
            position: 0,
            pending: Vec::new(),
            location: Location::default(),
            state: LexingState::Initial,
            lexeme: Vec::new(),
        };
        assert(tokens@.input =~= input_view(tokens.input@));
        tokens
    }

    fn advance_location(&mut self, c: char)
        requires
            old(self).location.line < usize::MAX,
            old(self).location.char < usize::MAX,
        ensures
            final(self).location == advanced(old(self).location, c),
            final(self).input == old(self).input,
            final(self).position == old(self).position,
            final(self).pending == old(self).pending,
            final(self).state == old(self).state,
            final(self).lexeme == old(self).lexeme,
    {
        if c == '\n' {
            self.location.advance_line();
        } else {
            self.location.advance_char();
        }
    }

    /// Reads the next character: one put back first, else the next input item.
    fn fetch(&mut self) -> (r: Option<Result<char, TokenizeError>>)
        requires
            old(self).wf(),
        ensures
            fetch(old(self)@) === (final(self)@, read_view(r)),
            final(self).input == old(self).input,
            final(self).position <= final(self).input@.len(),
            shaped(final(self)@),
            final(self).location.line + final(self).location.char + potential(final(self)@) <= old(self).budget(),
            ((r matches Some(Ok(_))) && old(self)@.pending.len() == 0) ==> final(self).location.line
                + final(self).location.char + potential(final(self)@) + 1 <= old(self).budget(),
            r is None ==> final(self)@ == old(self)@,
            r matches Some(Err(_)) ==> potential(final(self)@) + 2 == potential(old(self)@),
            r is Some ==> potential(final(self)@) < potential(old(self)@),
            ((r matches Some(Ok(_))) && old(self)@.pending.len() == 0) ==> potential(final(self)@) + 2 == potential(old(self)@),
            ((r matches Some(Ok(_))) && old(self)@.pending.len() > 0) ==> potential(final(self)@) + 1 == potential(old(self)@),
    {
        if self.pending.len() > 0 {
            let c = self.pending.remove(0);
            self.advance_location(c);
            proof {
                assert(self@.pending =~= old(self)@.pending.drop_first());
            }
            Some(Ok(c))
        } else if self.position < self.input.len() {
            proof {
                assert(input_view(self.input@)[self.position as int] == old(self)@.input[0]);
                assert(input_view(self.input@).subrange(self.position + 1, self.input@.len() as int)
                    =~= old(self)@.input.drop_first());
            }
            match &self.input[self.position] {
                Ok(c) => {
                    let c = *c;
                    self.position = self.position + 1;
                    self.advance_location(c);
                    Some(Ok(c))
                },
                Err(m) => {
                    let m = m.clone();
                    self.position = self.position + 1;
                    Some(Err(TokenizeError::new(TokenizeErrorCode::IoError(m), self.location)))
                },
            }
        } else {
            proof {
                assert(old(self)@.input =~= Seq::<Result<char, Seq<char>>>::empty());
            }
            None
        }
    }

    /// The lexeme read so far, as a text; the lexeme starts anew.
    fn take_text(&mut self) -> (text: String)
        ensures
            text@ == old(self).lexeme@,
            final(self).lexeme@ == Seq::<char>::empty(),
            final(self).input == old(self).input,
            final(self).position == old(self).position,
            final(self).pending == old(self).pending,
            final(self).state == old(self).state,
            final(self).location == old(self).location,
    {
        let mut lexeme: Vec<char> = Vec::new();
        std::mem::swap(&mut lexeme, &mut self.lexeme);
        let n = lexeme.len();
        let text = crate::chars::string_from(&lexeme, 0, n);
        assert(lexeme@.subrange(0, n as int) =~= lexeme@);
        text
    }

    /// The word read so far, as its keyword or an identifier; the lexeme
    /// starts anew.
    fn take_word(&mut self) -> (token: Token)
        ensures
            token@ == word_value(old(self).lexeme@),
            final(self).lexeme@ == Seq::<char>::empty(),
            final(self).input == old(self).input,
            final(self).position == old(self).position,
            final(self).pending == old(self).pending,
            final(self).state == old(self).state,
            final(self).location == old(self).location,
    {
        let n = self.lexeme.len();
        let kind = keyword_kind(&self.lexeme, 0, n);
        assert(self.lexeme@.subrange(0, n as int) =~= self.lexeme@);
        let text = self.take_text();
        token_of(kind, text)
    }

    /// After `!`, `=`, `<` or `>`.
    fn after_operator(&mut self, c: Option<char>, single: TokenKind, double: TokenKind) -> (out: Option<Option<Result<Token, TokenizeError>>>)
        ensures
            after_operator(old(self)@, c, single, double) === (final(self)@, out_view(out)),
            final(self).input == old(self).input,
            final(self).position == old(self).position,
            final(self).location == old(self).location,
    {
        self.state = LexingState::Initial;
        match c {
            None => emit(single, String::new()),
            Some(ch) => if ch == '=' {
                emit(double, String::new())
            } else {
                self.pending.push(ch);
                emit(single, String::new())
            },
        }
    }

    /// One move of the state machine on the character read.
    #[verifier::rlimit(40)]
    fn transition(&mut self, c: Option<char>) -> (out: Option<Option<Result<Token, TokenizeError>>>)
        ensures
            transition(old(self)@, c) === (final(self)@, out_view(out)),
            final(self).input == old(self).input,
            final(self).position == old(self).position,
            final(self).location == old(self).location,
    {
        match self.state {
            LexingState::Initial => match c {
                None => {
                    self.state = LexingState::EndOfFile;
                    emit(TokenKind::EndOfFile, String::new())
                },
                Some(ch) => {
                    if let Some(kind) = single_char_kind(ch) {
                        emit(kind, String::new())
                    } else if let Some(state) = opening(ch) {
                        self.state = state;
                        None
                    } else if digit(ch) {
                        self.state = LexingState::NumberLiteral;
                        self.lexeme.push(ch);
                        None
                    } else if identifier_start(ch) {
                        self.state = LexingState::Identifier;
                        self.lexeme.push(ch);
                        None
                    } else if white_space(ch) {
                        None
                    } else {
                        fail(TokenizeErrorCode::UnexpectedCharacter(ch), self.location)
                    }
                },
            },
            LexingState::MaybeBangEqual => self.after_operator(c, TokenKind::Bang, TokenKind::BangEqual),
            LexingState::MaybeEqualEqual => self.after_operator(c, TokenKind::Equal, TokenKind::EqualEqual),
            LexingState::MaybeGreaterEqual => self.after_operator(c, TokenKind::Greater, TokenKind::GreaterEqual),
            LexingState::MaybeLessEqual => self.after_operator(c, TokenKind::Less, TokenKind::LessEqual),
            LexingState::MaybeLineComment => match c {
                None => {
                    self.state = LexingState::Initial;
                    emit(TokenKind::Slash, String::new())
                },
                Some(ch) => if ch == '/' {
                    self.state = LexingState::LineComment;
                    None
                } else {
                    self.state = LexingState::Initial;
                    self.pending.push(ch);
                    emit(TokenKind::Slash, String::new())
                },
            },
            LexingState::LineComment => match c {
                None => {
                    self.state = LexingState::EndOfFile;
                    emit(TokenKind::EndOfFile, String::new())
                },
                Some(ch) => {
                    if ch == '\n' {
                        self.state = LexingState::Initial;
                    }
                    None
                },
            },
            LexingState::StringLiteral => match c {
                None => {
                    self.state = LexingState::Initial;
                    let text = self.take_text();
                    fail(TokenizeErrorCode::UnterminatedStringLiteral(text), self.location)
                },
                Some(ch) => if ch == '"' {
                    self.state = LexingState::Initial;
                    let text = self.take_text();
                    emit(TokenKind::StringLiteral, text)
                } else {
                    self.lexeme.push(ch);
                    None
                },
            },
            LexingState::NumberLiteral => match c {
                None => {
                    self.state = LexingState::Initial;
                    let text = self.take_text();
                    emit(TokenKind::NumberLiteral, text)
                },
                Some(ch) => if ch == '.' {
                    self.state = LexingState::MaybeDecimalPoint;
                    None
                } else if digit(ch) {
                    self.lexeme.push(ch);
                    None
                } else {
                    self.state = LexingState::Initial;
                    self.pending.push(ch);
                    let text = self.take_text();
                    emit(TokenKind::NumberLiteral, text)
                },
            },
            LexingState::MaybeDecimalPoint => match c {
                None => {
                    self.state = LexingState::Initial;
                    let text = self.take_text();
                    emit(TokenKind::NumberLiteral, text)
                },
                Some(ch) => if digit(ch) {
                    self.state = LexingState::NumberLiteral;
                    self.lexeme.push('.');
                    self.lexeme.push(ch);
                    None
                } else {
                    self.state = LexingState::Initial;
                    if identifier_start(ch) {
                        self.pending.push('.');
                    }
                    self.pending.push(ch);
                    let text = self.take_text();
                    emit(TokenKind::NumberLiteral, text)
                },
            },
            LexingState::Identifier => match c {
                None => {
                    self.state = LexingState::Initial;
                    let text = self.take_text();
                    emit(TokenKind::Identifier, text)
                },
                Some(ch) => if identifier_char(ch) {
                    self.lexeme.push(ch);
                    None
                } else {
                    self.state = LexingState::Initial;
                    self.pending.push(ch);
                    let token = self.take_word();
                    Some(Some(Ok(token)))
                },
            },
            LexingState::EndOfFile => match c {
                None => Some(None),
                Some(ch) => fail(TokenizeErrorCode::CharacterAfterEndOfFile(ch), self.location),
            },
        }
    }
}

/// The token of a character that is a token by itself.
fn single_char_kind(c: char) -> (kind: Option<TokenKind>)
    ensures
        kind == single_char_token(c),
{
    if c == ',' {
        Some(TokenKind::Comma)
    } else if c == '(' {
        Some(TokenKind::LeftParen)
    } else if c == ')' {
        Some(TokenKind::RightParen)
    } else if c == '{' {
        Some(TokenKind::LeftBrace)
    } else if c == '}' {
        Some(TokenKind::RightBrace)
    } else if c == '.' {
        Some(TokenKind::Dot)
    } else if c == ';' {
        Some(TokenKind::Semicolon)
    } else if c == '-' {
        Some(TokenKind::Minus)
    } else if c == '+' {
        Some(TokenKind::Plus)
    } else if c == '*' {
        Some(TokenKind::Star)
    } else {
        None
    }
}

/// The state that a character starts in the initial state.
fn opening(c: char) -> (state: Option<LexingState>)
    ensures
        state == opening_state(c),
{
    if c == '/' {
        Some(LexingState::MaybeLineComment)
    } else if c == '!' {
        Some(LexingState::MaybeBangEqual)
    } else if c == '=' {
        Some(LexingState::MaybeEqualEqual)
    } else if c == '<' {
        Some(LexingState::MaybeLessEqual)
    } else if c == '>' {
        Some(LexingState::MaybeGreaterEqual)
    } else if c == '"' {
        Some(LexingState::StringLiteral)
    } else {
        None
    }
}

/// The rank of a state in the measure of the work left.
pub open spec fn state_rank(state: LexingState) -> nat {
    match state {
        LexingState::EndOfFile => 0nat,
        LexingState::Initial => 1nat,
        _ => 2nat,
    }
}

proof fn lemma_progress(s: ScanView)
    ensures
        progress(s) == 3 * potential(s) + state_rank(s.state),
{
}

/// What a move of the state machine keeps and how it changes the measure.
proof fn lemma_transition(s: ScanView, c: Option<char>)
    requires
        shaped(s),
        s.pending.len() > 0 ==> c == Some('.') && s.state == LexingState::Initial,
    ensures
        ({
            let (s2, out) = transition(s, c);
            &&& s2.input == s.input
            &&& s2.location == s.location
            &&& shaped(s2)
            &&& out is None ==> c is Some && (potential(s2) <= potential(s)
                || (potential(s2) == potential(s) + 1 && s.state != LexingState::Initial))
            &&& ((out matches Some(Some(_))) && c is None) ==> potential(s2) <= potential(s)
                && state_rank(s2.state) < state_rank(s.state)
            &&& ((out matches Some(Some(_))) && c is Some) ==> potential(s2) <= potential(s)
                + if s.state != LexingState::Initial { 1nat } else { 0nat }
            &&& (out matches Some(None)) ==> s2 == s && c is None && s.state == LexingState::EndOfFile
        }),
{
}

impl Tokens {
    /// Reads one character and moves on it.
    fn step(&mut self) -> (out: Option<Option<Result<Token, TokenizeError>>>)
        requires
            old(self).wf(),
        ensures
            final(self).wf(),
            final(self).input == old(self).input,
            spec_step(old(self)@) === (final(self)@, out_view(out)),
            out is None ==> potential(final(self)@) < potential(old(self)@)
                && progress(final(self)@) < progress(old(self)@),
            (out matches Some(Some(_))) ==> progress(final(self)@) < progress(old(self)@),
            (out matches Some(None)) ==> final(self)@ == old(self)@,
    {
        let ghost s0 = self@;
        let f = self.fetch();
        let ghost s1 = self@;
        match f {
            Some(Err(e)) => {
                proof {
                    lemma_progress(s0);
                    lemma_progress(s1);
                }
                Some(Some(Err(e)))
            },
            Some(Ok(c)) => {
                proof {
                    lemma_transition(s1, Some(c));
                    lemma_progress(s0);
                }
                let out = self.transition(Some(c));
                proof {
                    lemma_progress(self@);
                }
                out
            },
            None => {
                proof {
                    lemma_transition(s1, None);
                    lemma_progress(s0);
                }
                let out = self.transition(None);
                proof {
                    lemma_progress(self@);
                }
                out
            },
        }
    }

    /// The next item: the token or the error that the next lexeme gives;
    /// nothing once the end-of-file token has been given.
    pub fn next(&mut self) -> (item: Option<Result<Token, TokenizeError>>)
        requires
            old(self).wf(),
        ensures
            final(self).wf(),
            scan(old(self)@) === (final(self)@, match item {
                Some(r) => Some(item_view(r)),
                None => None,
            }),
            item is Some ==> progress(final(self)@) < progress(old(self)@),
    {
        let ghost s0 = self@;
        loop
            invariant
                self.wf(),
                scan(s0) === scan(self@),
                progress(self@) <= progress(s0),
                s0 == old(self)@,
            decreases potential(self@),
        {
            let ghost s = self@;
            match self.step() {
                Some(r) => {
                    return match r {
                        Some(item) => Some(item),
                        None => None,
                    };
                },
                None => {},
            }
        }
    }

    /// All the remaining items, up to the end-of-file token.
    pub fn collect(self) -> (items: Vec<Result<Token, TokenizeError>>)
        requires
            self.wf(),
        ensures
            items@.map_values(|r: Result<Token, TokenizeError>| item_view(r)) == scan_all(self@),
    {
        let ghost s0 = self@;
        let mut tokens = self;
        let mut items: Vec<Result<Token, TokenizeError>> = Vec::new();
        loop
            invariant_except_break
                tokens.wf(),
                scan_all(s0) == items@.map_values(|r: Result<Token, TokenizeError>| item_view(r)) + scan_all(tokens@),
            ensures
                scan_all(s0) == items@.map_values(|r: Result<Token, TokenizeError>| item_view(r)),
            decreases progress(tokens@),
        {
            let ghost s = tokens@;
            match tokens.next() {
                None => {
                    assert(scan_all(s) =~= Seq::<Result<TokenValue, TokenizeErrorView>>::empty());
                    assert(items@.map_values(|r: Result<Token, TokenizeError>| item_view(r))
                        + Seq::<Result<TokenValue, TokenizeErrorView>>::empty()
                        =~= items@.map_values(|r: Result<Token, TokenizeError>| item_view(r)));
                    break;
                },
                Some(r) => {
                    proof {
                        assert(items@.push(r).map_values(|r: Result<Token, TokenizeError>| item_view(r))
                            =~= items@.map_values(|r: Result<Token, TokenizeError>| item_view(r)).push(item_view(r)));
                        assert(scan_all(s) == seq![item_view(r)] + scan_all(tokens@));
                        assert(items@.map_values(|r: Result<Token, TokenizeError>| item_view(r)) + (seq![item_view(r)] + scan_all(tokens@))
                            =~= items@.map_values(|r: Result<Token, TokenizeError>| item_view(r)).push(item_view(r)) + scan_all(tokens@));
                    }
                    items.push(r);
                },
            }
        }
        items
    }
}

/// Source code that the lexer can read: characters, and the messages of the
/// errors met while reading them.
pub trait SourceCode {
    /// The characters and error messages of this source code, in order.
    spec fn source_items(&self) -> Seq<Result<char, Seq<char>>>;

    /// Reads the characters of this source code.
    fn read_chars(&self) -> (items: Vec<Result<char, String>>)
        ensures
            input_view(items@) == self.source_items(),
    ;
}

impl SourceCode for str {
    open spec fn source_items(&self) -> Seq<Result<char, Seq<char>>> {
        self@.map_values(|c: char| Ok::<char, Seq<char>>(c))
    }

    fn read_chars(&self) -> (items: Vec<Result<char, String>>) {
        let chars = crate::text::chars_of(self);
        let mut items: Vec<Result<char, String>> = Vec::new();
        for i in 0..chars.len()
            invariant
                chars@ == self@,
                input_view(items@) == self@.take(i as int).map_values(|c: char| Ok::<char, Seq<char>>(c)),
        {
            proof {
                let item: Result<char, String> = Ok(chars@[i as int]);
                assert(input_view(items@.push(item)) =~= input_view(items@).push(Ok(chars@[i as int])));
                assert(self@.take(i + 1) =~= self@.take(i as int).push(self@[i as int]));
                assert(self@.take(i + 1).map_values(|c: char| Ok::<char, Seq<char>>(c))
                    =~= self@.take(i as int).map_values(|c: char| Ok::<char, Seq<char>>(c)).push(Ok(self@[i as int])));
            }
            items.push(Ok(chars[i]));
        }
        assert(self@.take(chars@.len() as int) =~= self@);
        items
    }
}

/// Lexing of source code.
pub trait Tokenize {
    /// Whether the source code is short enough to count what is read of it.
    spec fn fits(&self) -> bool;

    /// The items that lexing gives.
    spec fn items(&self) -> Seq<Result<TokenValue, TokenizeErrorView>>;

    /// A lexer at the start of this source code.
    fn tokenize(&self) -> (tokens: Tokens)
        requires
            self.fits(),
        ensures
            tokens.wf(),
            scan_all(tokens@) == self.items(),
    ;
}

impl Tokenize for str {
    open spec fn fits(&self) -> bool {
        2 * self@.len() + 2 < usize::MAX
    }

    open spec fn items(&self) -> Seq<Result<TokenValue, TokenizeErrorView>> {
        spec_tokenize_input(self.source_items())
    }

    fn tokenize(&self) -> (tokens: Tokens) {
        let input = self.read_chars();
        proof {
            assert(input_view(input@).len() == self@.len());
        }
        Tokens::new(input)
    }
}

/// The tokens among a sequence of items, in order.
pub open spec fn tokens_of(items: Seq<Result<Token, TokenizeError>>) -> Seq<Token> {
    items.filter_map(|item: Result<Token, TokenizeError>| match item {
        Ok(t) => Some(t),
        Err(_) => None,
    })
}

/// The errors among a sequence of items, in order.
pub open spec fn errors_of(items: Seq<Result<Token, TokenizeError>>) -> Seq<TokenizeError> {
    items.filter_map(|item: Result<Token, TokenizeError>| match item {
        Ok(_) => None,
        Err(e) => Some(e),
    })
}

/// The items of a lexer, split into the tokens and the errors.
pub struct TokenizeResult {
    tokens: Vec<Token>,
    errors: Vec<TokenizeError>,
}

impl TokenizeResult {
    pub closed spec fn spec_tokens(&self) -> Seq<Token> {
        self.tokens@
    }

    pub closed spec fn spec_errors(&self) -> Seq<TokenizeError> {
        self.errors@
    }

    pub fn new(tokens: Vec<Token>, errors: Vec<TokenizeError>) -> (result: TokenizeResult)
        ensures
            result.spec_tokens() == tokens@,
            result.spec_errors() == errors@,
    {
        TokenizeResult { tokens, errors }
    }

    pub fn tokens(&self) -> (tokens: &[Token])
        ensures
            tokens@ == self.spec_tokens(),
    {
        self.tokens.as_slice()
    }

    pub fn errors(&self) -> (errors: &[TokenizeError])
        ensures
            errors@ == self.spec_errors(),
    {
        self.errors.as_slice()
    }

    /// The tokens when there is no error, else the errors.
    pub fn into_result(self) -> (result: Result<Vec<Token>, Vec<TokenizeError>>)
        ensures
            self.spec_errors().len() == 0 ==> (result matches Ok(tokens) && tokens@ == self.spec_tokens()),
            self.spec_errors().len() != 0 ==> (result matches Err(errors) && errors@ == self.spec_errors()),
    {
        if self.errors.len() == 0 {
            Ok(self.tokens)
        } else {
            Err(self.errors)
        }
    }

    /// Splits items into the tokens and the errors, each in their order.
    pub fn from_items(items: Vec<Result<Token, TokenizeError>>) -> (result: TokenizeResult)
        ensures
            result.spec_tokens() == tokens_of(items@),
            result.spec_errors() == errors_of(items@),
    {
        let ghost all = items@;
        let mut tokens: Vec<Token> = Vec::new();
        let mut errors: Vec<TokenizeError> = Vec::new();
        for item in it: items.into_iter()
            invariant
                it.seq() == all,
                tokens@ == tokens_of(all.take(it.index() as int)),
                errors@ == errors_of(all.take(it.index() as int)),
        {
            let ghost k = it.index() as int;
            assert(all.take(k + 1).drop_last() =~= all.take(k));
            match item {
                Ok(token) => tokens.push(token),
                Err(error) => errors.push(error),
            }
        }
        assert(all.take(all.len() as int) =~= all);
        TokenizeResult { tokens, errors }
    }
}

impl Tokens {
    /// Reads the next character: one put back first, else the next input
    /// item. A line break moves the location to the start of the next line,
    /// another character one character on; an input error is reported at
    /// the location, which stays as it was (see `law_reading_a_character`).
    pub fn advance_to_next_char(&mut self) -> (r: Option<Result<char, TokenizeError>>)
        requires
            old(self).wf(),
        ensures
            final(self).wf(),
            fetch(old(self)@) === (final(self)@, read_view(r)),
    {
        self.fetch()
    }
}

/// Reading the next character when none was put back: nothing at the end of
/// the input, with the location unchanged; a line break moves the location
/// to the start of the next line; any other character moves it one
/// character on; an input error is reported as an `IoError` with its
/// message at the current location, which stays as it was.
pub proof fn law_reading_a_character(s: ScanView)
    requires
        s.pending.len() == 0,
    ensures
        s.input.len() == 0 ==> fetch(s).1 is None && fetch(s).0.location == s.location,
        s.input.len() > 0 && s.input[0] == Ok::<char, Seq<char>>('\n') ==> {
            &&& fetch(s).1 == Some(Ok::<char, TokenizeErrorView>('\n'))
            &&& fetch(s).0.location == (Location { line: (s.location.line + 1) as usize, char: 0 })
        },
        forall|c: char| s.input.len() > 0 && s.input[0] == Ok::<char, Seq<char>>(c) && c != '\n' ==> {
            &&& #[trigger] fetch(s).1 == Some(Ok::<char, TokenizeErrorView>(c))
            &&& fetch(s).0.location == (Location { line: s.location.line, char: (s.location.char + 1) as usize })
        },
        forall|m: Seq<char>| s.input.len() > 0 && s.input[0] == Err::<char, Seq<char>>(m) ==> {
            &&& #[trigger] fetch(s).1 == Some(Err::<char, TokenizeErrorView>(TokenizeErrorView {
                code: TokenizeErrorCodeView::IoError(m),
                location: s.location,
            }))
            &&& fetch(s).0.location == s.location
        },
{
}

/// The characters of the first `k` items of an input of characters.
pub open spec fn input_chars(input: Seq<Result<char, Seq<char>>>, k: int) -> Seq<char> {
    Seq::new(k as nat, |i: int| input[i]->Ok_0)
}

/// An identifier takes the whole run of identifier characters (letters,
/// digits and `_`) that follows what it has read: lexing from the middle of
/// an identifier whose next `k` input characters are identifier characters,
/// followed by a character that is none or by the end of the input, gives
/// one word made of all of them; the character that ends the word is put
/// back to be read again. So `x1` is the one identifier `x1`.
pub proof fn law_identifier_takes_the_whole_run(s: ScanView, k: nat)
    requires
        s.state == LexingState::Identifier,
        s.pending.len() == 0,
        k <= s.input.len(),
        forall|i: int| 0 <= i < k ==> (#[trigger] s.input[i]) is Ok && is_identifier_char(s.input[i]->Ok_0),
        k < s.input.len() ==> s.input[k as int] is Ok && !is_identifier_char(s.input[k as int]->Ok_0),
    ensures
        scan(s).1 == Some(Ok::<TokenValue, TokenizeErrorView>(if k < s.input.len() {
            word_value(s.lexeme + input_chars(s.input, k as int))
        } else {
            value_of(TokenKind::Identifier, s.lexeme + input_chars(s.input, k as int))
        })),
        k < s.input.len() ==> {
            &&& scan(s).0.state == LexingState::Initial
            &&& scan(s).0.pending == seq![s.input[k as int]->Ok_0]
            &&& scan(s).0.input == s.input.skip(k as int + 1)
        },
    decreases k,
{
    if k == 0 {
        assert(s.lexeme + input_chars(s.input, 0) =~= s.lexeme);
        if s.input.len() > 0 {
            assert(s.input.drop_first() =~= s.input.skip(1));
        }
    } else {
        let c = s.input[0]->Ok_0;
        let s1 = ScanView {
            input: s.input.drop_first(),
            pending: s.pending,
            location: advanced(s.location, c),
            state: s.state,
            lexeme: s.lexeme,
        };
        assert(fetch(s) == (s1, Some(Ok::<char, TokenizeErrorView>(c))));
        let s2 = with(s1, LexingState::Identifier, s1.lexeme.push(c), s1.pending);
        assert(spec_step(s) == (s2, None::<Option<Result<TokenValue, TokenizeErrorView>>>));
        assert(potential(s2) < potential(s));
        assert(scan(s) == scan(s2));
        assert forall|i: int| 0 <= i < k - 1 implies (#[trigger] s2.input[i]) is Ok
            && is_identifier_char(s2.input[i]->Ok_0) by {
            assert(s2.input[i] == s.input[i + 1]);
        }
        if k < s.input.len() {
            assert(s2.input[k - 1] == s.input[k as int]);
        }
        law_identifier_takes_the_whole_run(s2, (k - 1) as nat);
        assert(s2.lexeme + input_chars(s2.input, k - 1) =~= s.lexeme + input_chars(s.input, k as int));
        if k < s.input.len() {
            assert(s2.input.skip(k as int) =~= s.input.skip(k as int + 1));
        }
    }
}

/// A word starts at a letter or `_` and takes the whole run of identifier
/// characters after it: lexing, between tokens, an input that starts with a
/// letter or `_` followed by `k` identifier characters and then a character
/// that is none, or the end, gives as its next item the one word made of all
/// of them.
pub proof fn law_word_takes_the_whole_run(s: ScanView, k: nat)
    requires
        s.state == LexingState::Initial,
        s.pending.len() == 0,
        s.lexeme.len() == 0,
        k + 1 <= s.input.len(),
        s.input[0] is Ok && is_identifier_start(s.input[0]->Ok_0),
        forall|i: int| 1 <= i < k + 1 ==> (#[trigger] s.input[i]) is Ok && is_identifier_char(s.input[i]->Ok_0),
        k + 1 < s.input.len() ==> s.input[k as int + 1] is Ok && !is_identifier_char(s.input[k as int + 1]->Ok_0),
    ensures
        scan(s).1 == Some(Ok::<TokenValue, TokenizeErrorView>(if k + 1 < s.input.len() {
            word_value(input_chars(s.input, k as int + 1))
        } else {
            value_of(TokenKind::Identifier, input_chars(s.input, k as int + 1))
        })),
{
    let c = s.input[0]->Ok_0;
    let s1 = ScanView {
        input: s.input.drop_first(),
        pending: s.pending,
        location: advanced(s.location, c),
        state: s.state,
        lexeme: s.lexeme,
    };
    assert(fetch(s) == (s1, Some(Ok::<char, TokenizeErrorView>(c))));
    assert(single_char_token(c) is None);
    assert(opening_state(c) is None);
    assert(!is_digit(c));
    let s2 = with(s1, LexingState::Identifier, s1.lexeme.push(c), s1.pending);
    assert(spec_step(s) == (s2, None::<Option<Result<TokenValue, TokenizeErrorView>>>));
    assert(potential(s2) < potential(s));
    assert(scan(s) == scan(s2));
    assert forall|i: int| 0 <= i < k implies (#[trigger] s2.input[i]) is Ok && is_identifier_char(s2.input[i]->Ok_0) by {
        assert(s2.input[i] == s.input[i + 1]);
    }
    if k + 1 < s.input.len() {
        assert(s2.input[k as int] == s.input[k as int + 1]);
    }
    law_identifier_takes_the_whole_run(s2, k);
    assert(s2.lexeme + input_chars(s2.input, k as int) =~= input_chars(s.input, k as int + 1));
}

} // verus!
