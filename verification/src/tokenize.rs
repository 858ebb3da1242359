//! The lexer of Lox: turns source code into tokens.
use crate::chars::{
    byte_offset, char_len, digit, identifier_char, identifier_start, is_digit, is_identifier_char,
    is_identifier_start, is_white_space, lemma_byte_offset_monotonic, string_from, white_space,
    byte_len,
};
use crate::span::Span;
use crate::token::{
    keyword_kind, spec_keyword_kind, Literal, LiteralView, Token, TokenKind, TokenView,
};
use vstd::prelude::*;

verus! {

/// What went wrong while lexing.
#[derive(Debug, Clone, PartialEq, Eq)]
pub enum LexingErrorCode {
    IoError(String),
    CharacterAfterEndOfFile(char),
    InvalidNumberLiteral(String),
    UnexpectedCharacter(char),
    UnterminatedStringLiteral(String),
}

/// The mathematical view of a [`LexingErrorCode`].
pub enum LexingErrorCodeView {
    IoError(Seq<char>),
    CharacterAfterEndOfFile(char),
    InvalidNumberLiteral(Seq<char>),
    UnexpectedCharacter(char),
    UnterminatedStringLiteral(Seq<char>),
}

impl View for LexingErrorCode {
    type V = LexingErrorCodeView;

    open spec fn view(&self) -> LexingErrorCodeView {
        match self {
            LexingErrorCode::IoError(m) => LexingErrorCodeView::IoError(m@),
            LexingErrorCode::CharacterAfterEndOfFile(c) => LexingErrorCodeView::CharacterAfterEndOfFile(*c),
            LexingErrorCode::InvalidNumberLiteral(t) => LexingErrorCodeView::InvalidNumberLiteral(t@),
            LexingErrorCode::UnexpectedCharacter(c) => LexingErrorCodeView::UnexpectedCharacter(*c),
            LexingErrorCode::UnterminatedStringLiteral(t) => LexingErrorCodeView::UnterminatedStringLiteral(t@),
        }
    }
}

/// The message of a lexing error.
pub open spec fn spec_lexing_message(code: LexingErrorCodeView) -> Seq<char> {
    match code {
        LexingErrorCodeView::IoError(m) => m,
        LexingErrorCodeView::CharacterAfterEndOfFile(c) => "character '"@ + seq![c] + "' after end of file detected"@,
        LexingErrorCodeView::InvalidNumberLiteral(t) => "invalid number literal "@ + t,
        LexingErrorCodeView::UnexpectedCharacter(c) => "unexpected character '"@ + seq![c] + "'"@,
        LexingErrorCodeView::UnterminatedStringLiteral(t) => "unterminated string literal \""@ + t,
    }
}

impl LexingErrorCode {
    /// The message that describes this error.
    pub fn message(&self) -> (message: String)
        ensures
            message@ == spec_lexing_message(self@),
    {
        match self {
            LexingErrorCode::IoError(m) => m.clone(),
            LexingErrorCode::CharacterAfterEndOfFile(c) => {
                let mut s = String::from_str("character '");
                crate::text::push_char(&mut s, *c);
                s.append("' after end of file detected");
                s
            },
            LexingErrorCode::InvalidNumberLiteral(t) => {
                let mut s = String::from_str("invalid number literal ");
                s.append(t.as_str());
                s
            },
            LexingErrorCode::UnexpectedCharacter(c) => {
                let mut s = String::from_str("unexpected character '");
                crate::text::push_char(&mut s, *c);
                s.append("'");
                s
            },
            LexingErrorCode::UnterminatedStringLiteral(t) => {
                let mut s = String::from_str("unterminated string literal \"");
                s.append(t.as_str());
                s
            },
        }
    }

    /// The code of an input error, from the message of that error.
    pub fn from_io_error_message(message: String) -> (code: LexingErrorCode)
        ensures
            code@ == LexingErrorCodeView::IoError(message@),
    {
        LexingErrorCode::IoError(message)
    }
}

/// A lexing error: what went wrong and where.
#[derive(Debug, Clone, PartialEq, Eq)]
pub struct LexingError {
    pub code: LexingErrorCode,
    pub location: Span,
}

/// The mathematical view of a [`LexingError`].
pub struct LexingErrorView {
    pub code: LexingErrorCodeView,
    pub location: Span,
}

impl View for LexingError {
    type V = LexingErrorView;

    open spec fn view(&self) -> LexingErrorView {
        LexingErrorView { code: self.code@, location: self.location }
    }
}

impl LexingError {
    pub fn new(code: LexingErrorCode, location: Span) -> (error: LexingError)
        ensures
            error.code == code,
            error.location == location,
    {
        LexingError { code, location }
    }

    pub fn code(&self) -> (code: &LexingErrorCode)
        ensures
            code == &self.code,
    {
        &self.code
    }

    pub fn location(&self) -> (location: Span)
        ensures
            location == self.location,
    {
        self.location
    }

    /// The message of this error.
    pub fn message(&self) -> (message: String)
        ensures
            message@ == spec_lexing_message(self.code@),
    {
        self.code.message()
    }
}

/// The view of one item that the lexer yields.
pub open spec fn item_view(item: Result<Token, LexingError>) -> Result<TokenView, LexingErrorView> {
    match item {
        Ok(t) => Ok(t@),
        Err(e) => Err(e@),
    }
}

// ---------------------------------------------------------------------------
// The lexical grammar
// ---------------------------------------------------------------------------

/// The index where the white space and line comments that start at `i` end.
/// `in_comment` tells that `i` lies inside a line comment, which runs up to and
/// including the next line break.
pub open spec fn trivia_end(s: Seq<char>, i: int, in_comment: bool) -> int
    decreases s.len() - i,
{
    if i < 0 || i >= s.len() {
        i
    } else if in_comment {
        trivia_end(s, i + 1, s[i] != '\n')
    } else if is_white_space(s[i]) {
        trivia_end(s, i + 1, false)
    } else if s[i] == '/' && i + 1 < s.len() && s[i + 1] == '/' {
        trivia_end(s, i + 2, true)
    } else {
        i
    }
}

/// The end of the run of digits that starts at `i`.
pub open spec fn digits_end(s: Seq<char>, i: int) -> int
    decreases s.len() - i,
{
    if i < 0 || i >= s.len() || !is_digit(s[i]) {
        i
    } else {
        digits_end(s, i + 1)
    }
}

/// The end of the run of identifier characters that starts at `i`.
pub open spec fn word_end(s: Seq<char>, i: int) -> int
    decreases s.len() - i,
{
    if i < 0 || i >= s.len() || !is_identifier_char(s[i]) {
        i
    } else {
        word_end(s, i + 1)
    }
}

/// The index of the first `"` at or after `i`, or the end of `s` when there
/// is none.
pub open spec fn quote_index(s: Seq<char>, i: int) -> int
    decreases s.len() - i,
{
    if i < 0 || i >= s.len() || s[i] == '"' {
        i
    } else {
        quote_index(s, i + 1)
    }
}

/// The end of the number literal that starts with the digit at `j`: its
/// digits, then a `.` with the digits that follow it. A `.` that no digit
/// follows belongs to the number, unless a letter or `_` follows it.
pub open spec fn number_end(s: Seq<char>, j: int) -> int {
    let d = digits_end(s, j + 1);
    if d < s.len() && s[d] == '.' {
        if d + 1 < s.len() && is_digit(s[d + 1]) {
            digits_end(s, d + 2)
        } else if d + 1 < s.len() && is_identifier_start(s[d + 1]) {
            d
        } else {
            d + 1
        }
    } else {
        d
    }
}

/// The location of `s[start..end]` in bytes.
pub open spec fn span_of(s: Seq<char>, start: int, end: int) -> Span {
    Span {
        offset: byte_offset(s, start) as usize,
        length: (byte_offset(s, end) - byte_offset(s, start)) as usize,
    }
}

/// The token of kind `kind` that spans `s[start..end]`.
pub open spec fn token_at(s: Seq<char>, kind: TokenKind, literal: Option<LiteralView>, start: int, end: int) -> TokenView {
    TokenView { kind, literal, lexeme: s.subrange(start, end), location: span_of(s, start, end) }
}

/// The kind of a token of one character, or `EndOfFile` for a character that
/// is no such token.
pub open spec fn single_char_kind(c: char) -> TokenKind {
    if c == ',' {
        TokenKind::Comma
    } else if c == '(' {
        TokenKind::LeftParen
    } else if c == ')' {
        TokenKind::RightParen
    } else if c == '{' {
        TokenKind::LeftBrace
    } else if c == '}' {
        TokenKind::RightBrace
    } else if c == '.' {
        TokenKind::Dot
    } else if c == ';' {
        TokenKind::Semicolon
    } else if c == '-' {
        TokenKind::Minus
    } else if c == '+' {
        TokenKind::Plus
    } else if c == '*' {
        TokenKind::Star
    } else if c == '/' {
        TokenKind::Slash
    } else {
        TokenKind::EndOfFile
    }
}

/// For `!`, `=`, `<` and `>`: the kind of the operator alone and the kind of
/// the operator followed by `=`.
pub open spec fn operator_kinds(c: char) -> (TokenKind, TokenKind) {
    if c == '!' {
        (TokenKind::Bang, TokenKind::BangEqual)
    } else if c == '=' {
        (TokenKind::Equal, TokenKind::EqualEqual)
    } else if c == '<' {
        (TokenKind::Less, TokenKind::LessEqual)
    } else {
        (TokenKind::Greater, TokenKind::GreaterEqual)
    }
}

pub open spec fn is_operator_char(c: char) -> bool {
    c == '!' || c == '=' || c == '<' || c == '>'
}

/// The item that the lexeme starting at `j` gives, and where the lexeme ends.
/// `j` is a position where no white space or comment starts.
pub open spec fn lex_at(s: Seq<char>, j: int) -> (Result<TokenView, LexingErrorView>, int) {
    let c = s[j];
    if single_char_kind(c) != TokenKind::EndOfFile {
        (Ok(token_at(s, single_char_kind(c), None, j, j + 1)), j + 1)
    } else if is_operator_char(c) {
        if j + 1 < s.len() && s[j + 1] == '=' {
            (Ok(token_at(s, operator_kinds(c).1, None, j, j + 2)), j + 2)
        } else {
            (Ok(token_at(s, operator_kinds(c).0, None, j, j + 1)), j + 1)
        }
    } else if c == '"' {
        let q = quote_index(s, j + 1);
        if q < s.len() {
            (Ok(token_at(s, TokenKind::StringLiteral, Some(LiteralView::String(s.subrange(j + 1, q))), j, q + 1)), q + 1)
        } else {
            (Err(LexingErrorView {
                code: LexingErrorCodeView::UnterminatedStringLiteral(s.subrange(j, q)),
                location: span_of(s, j, q),
            }), q)
        }
    } else if is_digit(c) {
        let e = number_end(s, j);
        (Ok(token_at(s, TokenKind::NumberLiteral, Some(LiteralView::Number(s.subrange(j, e))), j, e)), e)
    } else if is_identifier_start(c) {
        let e = word_end(s, j);
        (Ok(token_at(s, spec_keyword_kind(s.subrange(j, e)), None, j, e)), e)
    } else {
        (Err(LexingErrorView {
            code: LexingErrorCodeView::UnexpectedCharacter(c),
            location: span_of(s, j, j + 1),
        }), j + 1)
    }
}

/// The next item that the lexer yields from position `i` of `s`, and the
/// position after it: the token or error of the next lexeme after white space
/// and comments, or the end-of-file token at the end of the source.
pub open spec fn next_item(s: Seq<char>, i: int) -> (Result<TokenView, LexingErrorView>, int) {
    let j = trivia_end(s, i, false);
    if j >= s.len() {
        (Ok(token_at(s, TokenKind::EndOfFile, None, s.len() as int, s.len() as int)), s.len() as int)
    } else {
        lex_at(s, j)
    }
}

/// Whether lexing from position `i` reaches the end of the source.
pub open spec fn at_end(s: Seq<char>, i: int) -> bool {
    trivia_end(s, i, false) >= s.len()
}


pub proof fn lemma_trivia_end_bounds(s: Seq<char>, i: int, in_comment: bool)
    requires
        0 <= i <= s.len(),
    ensures
        i <= trivia_end(s, i, in_comment) <= s.len(),
    decreases s.len() - i,
{
    if i < s.len() {
        if in_comment {
            lemma_trivia_end_bounds(s, i + 1, s[i] != '\n');
        } else if is_white_space(s[i]) {
            lemma_trivia_end_bounds(s, i + 1, false);
        } else if s[i] == '/' && i + 1 < s.len() && s[i + 1] == '/' {
            lemma_trivia_end_bounds(s, i + 2, true);
        }
    }
}

pub proof fn lemma_digits_end_bounds(s: Seq<char>, i: int)
    requires
        0 <= i <= s.len(),
    ensures
        i <= digits_end(s, i) <= s.len(),
    decreases s.len() - i,
{
    if i < s.len() && is_digit(s[i]) {
        lemma_digits_end_bounds(s, i + 1);
    }
}

pub proof fn lemma_word_end_bounds(s: Seq<char>, i: int)
    requires
        0 <= i <= s.len(),
    ensures
        i <= word_end(s, i) <= s.len(),
    decreases s.len() - i,
{
    if i < s.len() && is_identifier_char(s[i]) {
        lemma_word_end_bounds(s, i + 1);
    }
}

pub proof fn lemma_quote_index_bounds(s: Seq<char>, i: int)
    requires
        0 <= i <= s.len(),
    ensures
        i <= quote_index(s, i) <= s.len(),
        quote_index(s, i) < s.len() ==> s[quote_index(s, i)] == '"',
    decreases s.len() - i,
{
    if i < s.len() && s[i] != '"' {
        lemma_quote_index_bounds(s, i + 1);
    }
}

/// A lexeme is never empty and never runs past the end of the source.
pub proof fn lemma_lex_at_end(s: Seq<char>, j: int)
    requires
        0 <= j < s.len(),
    ensures
        j < lex_at(s, j).1 <= s.len(),
{
    let c = s[j];
    if c == '"' {
        lemma_quote_index_bounds(s, j + 1);
    } else if is_digit(c) {
        lemma_digits_end_bounds(s, j + 1);
        let d = digits_end(s, j + 1);
        if d + 1 < s.len() {
            lemma_digits_end_bounds(s, d + 2);
        }
    } else if is_identifier_start(c) {
        lemma_word_end_bounds(s, j + 1);
    }
}

/// The position after the next item lies after the position before it,
/// unless the source is at its end; it never lies past the end.
pub proof fn lemma_next_item_advances(s: Seq<char>, i: int)
    requires
        0 <= i <= s.len(),
    ensures
        i <= next_item(s, i).1 <= s.len(),
        !at_end(s, i) ==> i < next_item(s, i).1,
        at_end(s, i) ==> next_item(s, i).1 == s.len(),
{
    lemma_trivia_end_bounds(s, i, false);
    if !at_end(s, i) {
        lemma_lex_at_end(s, trivia_end(s, i, false));
    }
}

/// All items that the lexer yields from position `i` of `s`: up to and
/// including the end-of-file token.
pub open spec fn items_from(s: Seq<char>, i: int) -> Seq<Result<TokenView, LexingErrorView>>
    decreases s.len() - i,
{
    if i < 0 || i > s.len() {
        Seq::empty()
    } else if at_end(s, i) {
        seq![next_item(s, i).0]
    } else {
        proof {
            lemma_next_item_advances(s, i);
        }
        seq![next_item(s, i).0] + items_from(s, next_item(s, i).1)
    }
}

/// All items that lexing `s` gives.
pub open spec fn spec_tokenize(s: Seq<char>) -> Seq<Result<TokenView, LexingErrorView>> {
    items_from(s, 0)
}

/// The views of a sequence of items.
pub open spec fn items_view(items: Seq<Result<Token, LexingError>>) -> Seq<Result<TokenView, LexingErrorView>> {
    items.map_values(|item: Result<Token, LexingError>| item_view(item))
}

// ---------------------------------------------------------------------------
// The lexer
// ---------------------------------------------------------------------------

fn scan_trivia(chars: &Vec<char>, i: usize) -> (j: usize)
    requires
        i <= chars@.len(),
    ensures
        j == trivia_end(chars@, i as int, false),
{
    let n = chars.len();
    let mut k = i;
    let mut in_comment = false;
    while k < n
        invariant
            n == chars@.len(),
            i <= k <= n,
            trivia_end(chars@, k as int, in_comment) == trivia_end(chars@, i as int, false),
        decreases n - k,
    {
        let c = chars[k];
        if in_comment {
            in_comment = c != '\n';
            k = k + 1;
        } else if white_space(c) {
            k = k + 1;
        } else if c == '/' && k + 1 < n && chars[k + 1] == '/' {
            in_comment = true;
            k = k + 2;
        } else {
            return k;
        }
    }
    k
}

fn scan_digits(chars: &Vec<char>, i: usize) -> (j: usize)
    requires
        i <= chars@.len(),
    ensures
        j == digits_end(chars@, i as int),
{
    let n = chars.len();
    let mut k = i;
    while k < n && digit(chars[k])
        invariant
            n == chars@.len(),
            i <= k <= n,
            digits_end(chars@, k as int) == digits_end(chars@, i as int),
        decreases n - k,
    {
        k = k + 1;
    }
    k
}

fn scan_word(chars: &Vec<char>, i: usize) -> (j: usize)
    requires
        i <= chars@.len(),
    ensures
        j == word_end(chars@, i as int),
{
    let n = chars.len();
    let mut k = i;
    while k < n && identifier_char(chars[k])
        invariant
            n == chars@.len(),
            i <= k <= n,
            word_end(chars@, k as int) == word_end(chars@, i as int),
        decreases n - k,
    {
        k = k + 1;
    }
    k
}

fn scan_quote(chars: &Vec<char>, i: usize) -> (j: usize)
    requires
        i <= chars@.len(),
    ensures
        j == quote_index(chars@, i as int),
{
    let n = chars.len();
    let mut k = i;
    while k < n && chars[k] != '"'
        invariant
            n == chars@.len(),
            i <= k <= n,
            quote_index(chars@, k as int) == quote_index(chars@, i as int),
        decreases n - k,
    {
        k = k + 1;
    }
    k
}

fn scan_number(chars: &Vec<char>, j: usize) -> (e: usize)
    requires
        j < chars@.len(),
    ensures
        e == number_end(chars@, j as int),
{
    let n = chars.len();
    let d = scan_digits(chars, j + 1);
    proof {
        lemma_digits_end_bounds(chars@, j + 1);
    }
    if d < n && chars[d] == '.' {
        if d + 1 < n && digit(chars[d + 1]) {
            scan_digits(chars, d + 2)
        } else if d + 1 < n && identifier_start(chars[d + 1]) {
            d
        } else {
            d + 1
        }
    } else {
        d
    }
}

/// The byte offset of index `to`, from the byte offset of index `from`.
fn offset_at(chars: &Vec<char>, from: usize, from_offset: usize, to: usize) -> (offset: usize)
    requires
        from <= to <= chars@.len(),
        from_offset == byte_offset(chars@, from as int),
        byte_len(chars@) <= usize::MAX,
    ensures
        offset == byte_offset(chars@, to as int),
{
    let mut k = from;
    let mut offset = from_offset;
    while k < to
        invariant
            from <= k <= to <= chars@.len(),
            offset == byte_offset(chars@, k as int),
            byte_len(chars@) <= usize::MAX,
        decreases to - k,
    {
        proof {
            lemma_byte_offset_monotonic(chars@, k + 1, chars@.len() as int);
        }
        offset = offset + char_len(chars[k]);
        k = k + 1;
    }
    offset
}

fn single_kind(c: char) -> (kind: TokenKind)
    ensures
        kind == single_char_kind(c),
{
    if c == ',' {
        TokenKind::Comma
    } else if c == '(' {
        TokenKind::LeftParen
    } else if c == ')' {
        TokenKind::RightParen
    } else if c == '{' {
        TokenKind::LeftBrace
    } else if c == '}' {
        TokenKind::RightBrace
    } else if c == '.' {
        TokenKind::Dot
    } else if c == ';' {
        TokenKind::Semicolon
    } else if c == '-' {
        TokenKind::Minus
    } else if c == '+' {
        TokenKind::Plus
    } else if c == '*' {
        TokenKind::Star
    } else if c == '/' {
        TokenKind::Slash
    } else {
        TokenKind::EndOfFile
    }
}

fn operator_kind_pair(c: char) -> (kinds: (TokenKind, TokenKind))
    ensures
        kinds == operator_kinds(c),
{
    if c == '!' {
        (TokenKind::Bang, TokenKind::BangEqual)
    } else if c == '=' {
        (TokenKind::Equal, TokenKind::EqualEqual)
    } else if c == '<' {
        (TokenKind::Less, TokenKind::LessEqual)
    } else {
        (TokenKind::Greater, TokenKind::GreaterEqual)
    }
}

/// The location of `chars[start..end]`, from the byte offset of `start`; also
/// the byte offset of `end`.
fn locate(chars: &Vec<char>, start: usize, start_offset: usize, end: usize) -> (r: (Span, usize))
    requires
        start <= end <= chars@.len(),
        start_offset == byte_offset(chars@, start as int),
        byte_len(chars@) <= usize::MAX,
    ensures
        r.0 == span_of(chars@, start as int, end as int),
        r.1 == byte_offset(chars@, end as int),
{
    let end_offset = offset_at(chars, start, start_offset, end);
    proof {
        lemma_byte_offset_monotonic(chars@, start as int, end as int);
    }
    (Span::new(start_offset, end_offset - start_offset), end_offset)
}

/// The item of the lexeme that starts at `j`, where the lexeme ends, and the
/// byte offset of that end.
fn lex(chars: &Vec<char>, j: usize, j_offset: usize) -> (r: (Result<Token, LexingError>, usize, usize))
    requires
        j < chars@.len(),
        j_offset == byte_offset(chars@, j as int),
        byte_len(chars@) <= usize::MAX,
    ensures
        item_view(r.0) == lex_at(chars@, j as int).0,
        r.1 == lex_at(chars@, j as int).1,
        r.2 == byte_offset(chars@, r.1 as int),
        j < r.1 <= chars@.len(),
{
    proof {
        lemma_lex_at_end(chars@, j as int);
    }
    let n = chars.len();
    let c = chars[j];
    let single = single_kind(c);
    if single != TokenKind::EndOfFile {
        let (span, end_offset) = locate(chars, j, j_offset, j + 1);
        let token = Token::new(single, None, string_from(chars, j, j + 1), span);
        (Ok(token), j + 1, end_offset)
    } else if c == '!' || c == '=' || c == '<' || c == '>' {
        let kinds = operator_kind_pair(c);
        if j + 1 < n && chars[j + 1] == '=' {
            let (span, end_offset) = locate(chars, j, j_offset, j + 2);
            (Ok(Token::new(kinds.1, None, string_from(chars, j, j + 2), span)), j + 2, end_offset)
        } else {
            let (span, end_offset) = locate(chars, j, j_offset, j + 1);
            (Ok(Token::new(kinds.0, None, string_from(chars, j, j + 1), span)), j + 1, end_offset)
        }
    } else if c == '"' {
        let q = scan_quote(chars, j + 1);
        proof {
            lemma_quote_index_bounds(chars@, j + 1);
        }
        if q < n {
            let (span, end_offset) = locate(chars, j, j_offset, q + 1);
            let value = string_from(chars, j + 1, q);
            let token = Token::new(
                TokenKind::StringLiteral,
                Some(Literal::String(value)),
                string_from(chars, j, q + 1),
                span,
            );
            (Ok(token), q + 1, end_offset)
        } else {
            let (span, end_offset) = locate(chars, j, j_offset, q);
            let code = LexingErrorCode::UnterminatedStringLiteral(string_from(chars, j, q));
            (Err(LexingError::new(code, span)), q, end_offset)
        }
    } else if digit(c) {
        let e = scan_number(chars, j);
        let (span, end_offset) = locate(chars, j, j_offset, e);
        let token = Token::new(
            TokenKind::NumberLiteral,
            Some(Literal::Number(string_from(chars, j, e))),
            string_from(chars, j, e),
            span,
        );
        (Ok(token), e, end_offset)
    } else if identifier_start(c) {
        let e = scan_word(chars, j);
        let (span, end_offset) = locate(chars, j, j_offset, e);
        let kind = keyword_kind(chars, j, e);
        (Ok(Token::new(kind, None, string_from(chars, j, e), span)), e, end_offset)
    } else {
        let (span, end_offset) = locate(chars, j, j_offset, j + 1);
        (Err(LexingError::new(LexingErrorCode::UnexpectedCharacter(c), span)), j + 1, end_offset)
    }
}

/// A lexer for Lox.
///
/// Each call of [`Tokens::next`] yields the next token of the source code or
/// the error of the next lexeme that is no token. The last item is the
/// end-of-file token; after it, the lexer yields nothing.
pub struct Tokens {
    chars: Vec<char>,
    /// Index of the next character.
    position: usize,
    /// Byte offset of the next character.
    offset: usize,
    /// Whether the end-of-file token has been yielded.
    finished: bool,
}

impl Tokens {
    /// The source code, as characters.
    pub closed spec fn source(&self) -> Seq<char> {
        self.chars@
    }

    /// The index of the next character to lex.
    pub closed spec fn position(&self) -> int {
        self.position as int
    }

    /// Whether the end-of-file token has been yielded.
    pub closed spec fn finished(&self) -> bool {
        self.finished
    }

    pub closed spec fn wf(&self) -> bool {
        &&& self.position <= self.chars@.len()
        &&& self.offset == byte_offset(self.chars@, self.position as int)
        &&& byte_len(self.chars@) <= usize::MAX
        &&& self.finished ==> self.position == self.chars@.len()
    }

    /// A lexer at the start of `source`.
    pub fn new(source: &str) -> (tokens: Tokens)
        requires
            byte_len(source@) <= usize::MAX,
        ensures
            tokens.wf(),
            tokens.source() == source@,
            tokens.position() == 0,
            !tokens.finished(),
    {
        Tokens { chars: crate::text::chars_of(source), position: 0, offset: 0, finished: false }
    }

    /// The next token, or the error of the next lexeme that is no token; the
    /// end-of-file token at the end of the source, then nothing.
    pub fn next(&mut self) -> (item: Option<Result<Token, LexingError>>)
        requires
            old(self).wf(),
        ensures
            final(self).wf(),
            final(self).source() == old(self).source(),
            old(self).finished() ==> item is None && final(self).position() == old(self).position()
                && final(self).finished(),
            !old(self).finished() ==> {
                &&& item matches Some(r)
                &&& item_view(r) == next_item(old(self).source(), old(self).position()).0
                &&& final(self).position() == next_item(old(self).source(), old(self).position()).1
                &&& final(self).finished() == at_end(old(self).source(), old(self).position())
            },
    {
        if self.finished {
            return None;
        }
        let n = self.chars.len();
        let j = scan_trivia(&self.chars, self.position);
        proof {
            lemma_trivia_end_bounds(self.chars@, self.position as int, false);
        }
        let j_offset = offset_at(&self.chars, self.position, self.offset, j);
        if j >= n {
            self.position = n;
            self.offset = j_offset;
            self.finished = true;
            let token = Token::new(TokenKind::EndOfFile, None, String::new(), Span::new(j_offset, 0));
            assert(self.chars@.subrange(n as int, n as int) =~= Seq::<char>::empty());
            return Some(Ok(token));
        }
        let (item, end, end_offset) = lex(&self.chars, j, j_offset);
        self.position = end;
        self.offset = end_offset;
        Some(item)
    }
}


impl Tokens {
    /// All remaining items: the tokens and errors up to and including the
    /// end-of-file token.
    pub fn collect(self) -> (items: Vec<Result<Token, LexingError>>)
        requires
            self.wf(),
        ensures
            items_view(items@) == if self.finished() {
                Seq::empty()
            } else {
                items_from(self.source(), self.position())
            },
    {
        let mut tokens = self;
        let mut items: Vec<Result<Token, LexingError>> = Vec::new();
        let ghost s = tokens.source();
        let ghost start = tokens.position();
        let ghost start_finished = tokens.finished();
        while !tokens.finished
            invariant
                tokens.wf(),
                tokens.source() == s,
                0 <= tokens.position() <= s.len(),
                start_finished ==> tokens.finished() && items@.len() == 0,
                !start_finished ==> items_from(s, start) == items_view(items@) + if tokens.finished() {
                    Seq::empty()
                } else {
                    items_from(s, tokens.position())
                },
            decreases s.len() - tokens.position() + if tokens.finished() { 0int } else { 1int },
        {
            let ghost before = tokens.position();
            proof {
                lemma_next_item_advances(s, before);
            }
            let item = tokens.next();
            match item {
                Some(r) => {
                    proof {
                        assert(items_view(items@.push(r)) =~= items_view(items@).push(item_view(r)));
                        if at_end(s, before) {
                            assert(items_from(s, before) == seq![next_item(s, before).0]);
                        } else {
                            assert(items_from(s, before) == seq![next_item(s, before).0] + items_from(s, next_item(s, before).1));
                        }
                    }
                    items.push(r);
                },
                None => {},
            }
        }
        proof {
            assert(items_view(items@) =~= items_view(items@) + Seq::<Result<TokenView, LexingErrorView>>::empty());
        }
        items
    }
}

/// Lexing of source code.
pub trait Tokenize {
    /// Whether the byte offsets into this source code fit in `usize`.
    spec fn offsets_fit(&self) -> bool;

    /// A lexer at the start of this source code.
    fn tokenize(&self) -> Tokens
        requires
            self.offsets_fit(),
    ;
}

impl Tokenize for str {
    open spec fn offsets_fit(&self) -> bool {
        byte_len(self@) <= usize::MAX
    }

    fn tokenize(&self) -> (tokens: Tokens)
        ensures
            tokens.wf(),
            tokens.source() == self@,
            tokens.position() == 0,
            !tokens.finished(),
    {
        Tokens::new(self)
    }
}


/// The tokens among a sequence of items, in order.
pub open spec fn tokens_of(items: Seq<Result<Token, LexingError>>) -> Seq<Token> {
    items.filter_map(|item: Result<Token, LexingError>| match item {
        Ok(t) => Some(t),
        Err(_) => None,
    })
}

/// The errors among a sequence of items, in order.
pub open spec fn errors_of(items: Seq<Result<Token, LexingError>>) -> Seq<LexingError> {
    items.filter_map(|item: Result<Token, LexingError>| match item {
        Ok(_) => None,
        Err(e) => Some(e),
    })
}

/// The items of a lexer, split into the tokens and the errors.
pub struct LexingResult {
    tokens: Vec<Token>,
    errors: Vec<LexingError>,
}

impl LexingResult {
    pub closed spec fn spec_tokens(&self) -> Seq<Token> {
        self.tokens@
    }

    pub closed spec fn spec_errors(&self) -> Seq<LexingError> {
        self.errors@
    }

    pub fn new(tokens: Vec<Token>, errors: Vec<LexingError>) -> (result: LexingResult)
        ensures
            result.spec_tokens() == tokens@,
            result.spec_errors() == errors@,
    {
        LexingResult { tokens, errors }
    }

    pub fn tokens(&self) -> (tokens: &[Token])
        ensures
            tokens@ == self.spec_tokens(),
    {
        self.tokens.as_slice()
    }

    pub fn errors(&self) -> (errors: &[LexingError])
        ensures
            errors@ == self.spec_errors(),
    {
        self.errors.as_slice()
    }

    /// The tokens when there is no error, else the errors.
    pub fn into_result(self) -> (result: Result<Vec<Token>, Vec<LexingError>>)
        ensures
            self.spec_errors().len() == 0 ==> (result matches Ok(tokens) && tokens@ == self.spec_tokens()),
            self.spec_errors().len() != 0 ==> (result matches Err(errors) && errors@ == self.spec_errors()),
    {
        if self.errors.len() == 0 {
            Ok(self.tokens)
        } else {
            Err(self.errors)
        }
    }

    /// Splits items into the tokens and the errors, each in their order.
    pub fn from_items(items: Vec<Result<Token, LexingError>>) -> (result: LexingResult)
        ensures
            result.spec_tokens() == tokens_of(items@),
            result.spec_errors() == errors_of(items@),
    {
        let ghost all = items@;
        let mut tokens: Vec<Token> = Vec::new();
        let mut errors: Vec<LexingError> = Vec::new();
        for item in it: items.into_iter()
            invariant
                it.seq() == all,
                tokens@ == tokens_of(all.take(it.index() as int)),
                errors@ == errors_of(all.take(it.index() as int)),
        {
            let ghost k = it.index() as int;
            assert(all.take(k + 1).drop_last() =~= all.take(k));
            match item {
                Ok(token) => tokens.push(token),
                Err(error) => errors.push(error),
            }
        }
        assert(all.take(all.len() as int) =~= all);
        LexingResult { tokens, errors }
    }
}

} // verus!
