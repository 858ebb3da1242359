//! The errors of the parser.
use crate::span::Span;
use crate::text::{push_char, push_decimal, spec_decimal};
use crate::token::{spec_kind_name, TokenKind};
use crate::tokenize::{LexingError, LexingErrorCode, LexingErrorCodeView, LexingErrorView};
use vstd::prelude::*;

verus! {

/// What went wrong while parsing.
#[derive(Debug, Clone, PartialEq, Eq)]
pub enum SyntaxErrorCode {
    CharacterAfterEndOfFile(char),
    InvalidAssignmentTarget,
    InvalidExpression(String),
    InvalidNumberLiteral(String),
    IoError(String),
    MissingForCondition,
    MissingForIncrement,
    MissingForInitializer,
    MissingToken(TokenKind),
    /// A call with more arguments than allowed: the number of arguments, then
    /// the largest number allowed.
    TooManyCallArguments(usize, usize),
    UnexpectedEndOfInput,
    UnexpectedCharacter(char),
    UnexpectedToken(TokenKind),
    UnterminatedStringLiteral(String),
}

/// The mathematical view of a [`SyntaxErrorCode`].
pub enum SyntaxErrorCodeView {
    CharacterAfterEndOfFile(char),
    InvalidAssignmentTarget,
    InvalidExpression(Seq<char>),
    InvalidNumberLiteral(Seq<char>),
    IoError(Seq<char>),
    MissingForCondition,
    MissingForIncrement,
    MissingForInitializer,
    MissingToken(TokenKind),
    TooManyCallArguments(nat, nat),
    UnexpectedEndOfInput,
    UnexpectedCharacter(char),
    UnexpectedToken(TokenKind),
    UnterminatedStringLiteral(Seq<char>),
}

impl View for SyntaxErrorCode {
    type V = SyntaxErrorCodeView;

    open spec fn view(&self) -> SyntaxErrorCodeView {
        match self {
            SyntaxErrorCode::CharacterAfterEndOfFile(c) => SyntaxErrorCodeView::CharacterAfterEndOfFile(*c),
            SyntaxErrorCode::InvalidAssignmentTarget => SyntaxErrorCodeView::InvalidAssignmentTarget,
            SyntaxErrorCode::InvalidExpression(t) => SyntaxErrorCodeView::InvalidExpression(t@),
            SyntaxErrorCode::InvalidNumberLiteral(t) => SyntaxErrorCodeView::InvalidNumberLiteral(t@),
            SyntaxErrorCode::IoError(t) => SyntaxErrorCodeView::IoError(t@),
            SyntaxErrorCode::MissingForCondition => SyntaxErrorCodeView::MissingForCondition,
            SyntaxErrorCode::MissingForIncrement => SyntaxErrorCodeView::MissingForIncrement,
            SyntaxErrorCode::MissingForInitializer => SyntaxErrorCodeView::MissingForInitializer,
            SyntaxErrorCode::MissingToken(k) => SyntaxErrorCodeView::MissingToken(*k),
            SyntaxErrorCode::TooManyCallArguments(n, m) => SyntaxErrorCodeView::TooManyCallArguments(*n as nat, *m as nat),
            SyntaxErrorCode::UnexpectedEndOfInput => SyntaxErrorCodeView::UnexpectedEndOfInput,
            SyntaxErrorCode::UnexpectedCharacter(c) => SyntaxErrorCodeView::UnexpectedCharacter(*c),
            SyntaxErrorCode::UnexpectedToken(k) => SyntaxErrorCodeView::UnexpectedToken(*k),
            SyntaxErrorCode::UnterminatedStringLiteral(t) => SyntaxErrorCodeView::UnterminatedStringLiteral(t@),
        }
    }
}

/// The syntax error code of a lexing error code: the same error.
pub open spec fn syntax_code_of(code: LexingErrorCodeView) -> SyntaxErrorCodeView {
    match code {
        LexingErrorCodeView::IoError(m) => SyntaxErrorCodeView::IoError(m),
        LexingErrorCodeView::CharacterAfterEndOfFile(c) => SyntaxErrorCodeView::CharacterAfterEndOfFile(c),
        LexingErrorCodeView::InvalidNumberLiteral(t) => SyntaxErrorCodeView::InvalidNumberLiteral(t),
        LexingErrorCodeView::UnexpectedCharacter(c) => SyntaxErrorCodeView::UnexpectedCharacter(c),
        LexingErrorCodeView::UnterminatedStringLiteral(t) => SyntaxErrorCodeView::UnterminatedStringLiteral(t),
    }
}

/// The message of a syntax error.
pub open spec fn spec_syntax_message(code: SyntaxErrorCodeView) -> Seq<char> {
    match code {
        SyntaxErrorCodeView::CharacterAfterEndOfFile(c) => "character '"@ + seq![c] + "' after end of file"@,
        SyntaxErrorCodeView::InvalidAssignmentTarget => "invalid assignment target"@,
        SyntaxErrorCodeView::InvalidExpression(t) => "not a valid expression at "@ + t,
        SyntaxErrorCodeView::InvalidNumberLiteral(t) => "invalid number literal at "@ + t,
        SyntaxErrorCodeView::IoError(m) => m,
        SyntaxErrorCodeView::MissingForCondition => "missing for condition or semicolon"@,
        SyntaxErrorCodeView::MissingForIncrement => "missing for increment or right paren"@,
        SyntaxErrorCodeView::MissingForInitializer => "missing for initializer or semicolon"@,
        SyntaxErrorCodeView::MissingToken(k) => "missing "@ + spec_kind_name(k),
        SyntaxErrorCodeView::TooManyCallArguments(n, m) =>
            "can't have more than "@ + spec_decimal(m) + " arguments in a call, found "@ + spec_decimal(n),
        SyntaxErrorCodeView::UnexpectedEndOfInput => "unexpected end of input"@,
        SyntaxErrorCodeView::UnexpectedCharacter(c) => "unexpected character '"@ + seq![c] + "'"@,
        SyntaxErrorCodeView::UnexpectedToken(k) => "unexpected token '"@ + spec_kind_name(k) + "'"@,
        SyntaxErrorCodeView::UnterminatedStringLiteral(t) => "unterminated string literal "@ + t,
    }
}

impl SyntaxErrorCode {
    /// The same error as a lexing error code.
    pub fn from_lexing(code: LexingErrorCode) -> (result: SyntaxErrorCode)
        ensures
            result@ == syntax_code_of(code@),
    {
        match code {
            LexingErrorCode::IoError(m) => SyntaxErrorCode::IoError(m),
            LexingErrorCode::CharacterAfterEndOfFile(c) => SyntaxErrorCode::CharacterAfterEndOfFile(c),
            LexingErrorCode::InvalidNumberLiteral(t) => SyntaxErrorCode::InvalidNumberLiteral(t),
            LexingErrorCode::UnexpectedCharacter(c) => SyntaxErrorCode::UnexpectedCharacter(c),
            LexingErrorCode::UnterminatedStringLiteral(t) => SyntaxErrorCode::UnterminatedStringLiteral(t),
        }
    }

    /// The message that describes this error.
    pub fn message(&self) -> (message: String)
        ensures
            message@ == spec_syntax_message(self@),
    {
        let mut s = String::new();
        match self {
            SyntaxErrorCode::CharacterAfterEndOfFile(c) => {
                s.append("character '");
                push_char(&mut s, *c);
                s.append("' after end of file");
            },
            SyntaxErrorCode::InvalidAssignmentTarget => s.append("invalid assignment target"),
            SyntaxErrorCode::InvalidExpression(t) => {
                s.append("not a valid expression at ");
                s.append(t.as_str());
            },
            SyntaxErrorCode::InvalidNumberLiteral(t) => {
                s.append("invalid number literal at ");
                s.append(t.as_str());
            },
            SyntaxErrorCode::IoError(m) => s.append(m.as_str()),
            SyntaxErrorCode::MissingForCondition => s.append("missing for condition or semicolon"),
            SyntaxErrorCode::MissingForIncrement => s.append("missing for increment or right paren"),
            SyntaxErrorCode::MissingForInitializer => s.append("missing for initializer or semicolon"),
            SyntaxErrorCode::MissingToken(k) => {
                s.append("missing ");
                s.append(k.name());
            },
            SyntaxErrorCode::TooManyCallArguments(n, m) => {
                s.append("can't have more than ");
                push_decimal(&mut s, *m);
                s.append(" arguments in a call, found ");
                push_decimal(&mut s, *n);
            },
            SyntaxErrorCode::UnexpectedEndOfInput => s.append("unexpected end of input"),
            SyntaxErrorCode::UnexpectedCharacter(c) => {
                s.append("unexpected character '");
                push_char(&mut s, *c);
                s.append("'");
            },
            SyntaxErrorCode::UnexpectedToken(k) => {
                s.append("unexpected token '");
                s.append(k.name());
                s.append("'");
            },
            SyntaxErrorCode::UnterminatedStringLiteral(t) => {
                s.append("unterminated string literal ");
                s.append(t.as_str());
            },
        }
        proof {
            reveal_strlit("character '");
            reveal_strlit("' after end of file");
        }
        assert(s@ =~= spec_syntax_message(self@));
        s
    }
}

/// A syntax error: what went wrong and where.
#[derive(Debug, Clone, PartialEq, Eq)]
pub struct SyntaxError {
    pub code: SyntaxErrorCode,
    pub location: Span,
}

/// The mathematical view of a [`SyntaxError`].
pub struct SyntaxErrorView {
    pub code: SyntaxErrorCodeView,
    pub location: Span,
}

impl View for SyntaxError {
    type V = SyntaxErrorView;

    open spec fn view(&self) -> SyntaxErrorView {
        SyntaxErrorView { code: self.code@, location: self.location }
    }
}

/// The syntax error of a lexing error: the same error at the same place.
pub open spec fn syntax_error_of(e: LexingErrorView) -> SyntaxErrorView {
    SyntaxErrorView { code: syntax_code_of(e.code), location: e.location }
}

impl SyntaxError {
    pub fn new(code: SyntaxErrorCode, location: Span) -> (error: SyntaxError)
        ensures
            error.code == code,
            error.location == location,
    {
        SyntaxError { code, location }
    }

    /// The syntax error of a lexing error: the same error at the same place.
    pub fn from_lexing(error: LexingError) -> (result: SyntaxError)
        ensures
            result@ == syntax_error_of(error@),
    {
        SyntaxError { code: SyntaxErrorCode::from_lexing(error.code), location: error.location }
    }

    pub fn code(&self) -> (code: &SyntaxErrorCode)
        ensures
            code == &self.code,
    {
        &self.code
    }

    pub fn location(&self) -> (location: Span)
        ensures
            location == self.location,
    {
        self.location
    }

    /// The message of this error.
    pub fn message(&self) -> (message: String)
        ensures
            message@ == spec_syntax_message(self.code@),
    {
        self.code.message()
    }
}

} // verus!
