use crate::span::Span;
use vstd::prelude::*;

verus! {

/// The kinds of tokens of Lox.
#[derive(Debug, Clone, Copy, PartialEq, Eq, Hash, Structural)]
pub enum TokenKind {
    EndOfFile,
    LeftParen,
    RightParen,
    LeftBrace,
    RightBrace,
    Comma,
    Dot,
    Semicolon,
    Minus,
    Plus,
    Star,
    Slash,
    Bang,
    Equal,
    Greater,
    Less,
    BangEqual,
    EqualEqual,
    GreaterEqual,
    LessEqual,
    StringLiteral,
    NumberLiteral,
    Identifier,
    And,
    Class,
    Else,
    False,
    Fun,
    For,
    If,
    Nil,
    Or,
    Print,
    Return,
    Super,
    This,
    True,
    Var,
    While,
}

/// The upper-case name of a token kind, as the token listing of the command line shows it.
pub open spec fn spec_kind_name(kind: TokenKind) -> Seq<char> {
    match kind {
        TokenKind::EndOfFile => "EOF"@,
        TokenKind::LeftParen => "LEFT_PAREN"@,
        TokenKind::RightParen => "RIGHT_PAREN"@,
        TokenKind::LeftBrace => "LEFT_BRACE"@,
        TokenKind::RightBrace => "RIGHT_BRACE"@,
        TokenKind::Comma => "COMMA"@,
        TokenKind::Dot => "DOT"@,
        TokenKind::Semicolon => "SEMICOLON"@,
        TokenKind::Minus => "MINUS"@,
        TokenKind::Plus => "PLUS"@,
        TokenKind::Star => "STAR"@,
        TokenKind::Slash => "SLASH"@,
        TokenKind::Bang => "BANG"@,
        TokenKind::Equal => "EQUAL"@,
        TokenKind::Greater => "GREATER"@,
        TokenKind::Less => "LESS"@,
        TokenKind::BangEqual => "BANG_EQUAL"@,
        TokenKind::EqualEqual => "EQUAL_EQUAL"@,
        TokenKind::GreaterEqual => "GREATER_EQUAL"@,
        TokenKind::LessEqual => "LESS_EQUAL"@,
        TokenKind::StringLiteral => "STRING"@,
        TokenKind::NumberLiteral => "NUMBER"@,
        TokenKind::Identifier => "IDENTIFIER"@,
        TokenKind::And => "AND"@,
        TokenKind::Class => "CLASS"@,
        TokenKind::Else => "ELSE"@,
        TokenKind::False => "FALSE"@,
        TokenKind::Fun => "FUN"@,
        TokenKind::For => "FOR"@,
        TokenKind::If => "IF"@,
        TokenKind::Nil => "NIL"@,
        TokenKind::Or => "OR"@,
        TokenKind::Print => "PRINT"@,
        TokenKind::Return => "RETURN"@,
        TokenKind::Super => "SUPER"@,
        TokenKind::This => "THIS"@,
        TokenKind::True => "TRUE"@,
        TokenKind::Var => "VAR"@,
        TokenKind::While => "WHILE"@,
    }
}

/// The text of a token kind as error messages show it: the token itself for
/// punctuation, operators and keywords, a description for the other kinds.
pub open spec fn spec_kind_text(kind: TokenKind) -> Seq<char> {
    match kind {
        TokenKind::EndOfFile => "EOF"@,
        TokenKind::LeftParen => "("@,
        TokenKind::RightParen => ")"@,
        TokenKind::LeftBrace => "{"@,
        TokenKind::RightBrace => "}"@,
        TokenKind::Comma => ","@,
        TokenKind::Dot => "."@,
        TokenKind::Semicolon => ";"@,
        TokenKind::Minus => "-"@,
        TokenKind::Plus => "+"@,
        TokenKind::Star => "*"@,
        TokenKind::Slash => "/"@,
        TokenKind::Bang => "!"@,
        TokenKind::Equal => "="@,
        TokenKind::Greater => ">"@,
        TokenKind::Less => "<"@,
        TokenKind::BangEqual => "!="@,
        TokenKind::EqualEqual => "=="@,
        TokenKind::GreaterEqual => ">="@,
        TokenKind::LessEqual => "<="@,
        TokenKind::StringLiteral => "string literal"@,
        TokenKind::NumberLiteral => "number literal"@,
        TokenKind::Identifier => "identifier"@,
        TokenKind::And => "and"@,
        TokenKind::Class => "class"@,
        TokenKind::Else => "else"@,
        TokenKind::False => "false"@,
        TokenKind::Fun => "fun"@,
        TokenKind::For => "for"@,
        TokenKind::If => "if"@,
        TokenKind::Nil => "nil"@,
        TokenKind::Or => "or"@,
        TokenKind::Print => "print"@,
        TokenKind::Return => "return"@,
        TokenKind::Super => "super"@,
        TokenKind::This => "this"@,
        TokenKind::True => "true"@,
        TokenKind::Var => "var"@,
        TokenKind::While => "while"@,
    }
}

impl TokenKind {
    /// The upper-case name of this kind (`LEFT_PAREN` for `(`).
    pub fn name(&self) -> (text: &'static str)
        ensures
            text@ == spec_kind_name(*self),
    {
        match self {
            TokenKind::EndOfFile => "EOF",
            TokenKind::LeftParen => "LEFT_PAREN",
            TokenKind::RightParen => "RIGHT_PAREN",
            TokenKind::LeftBrace => "LEFT_BRACE",
            TokenKind::RightBrace => "RIGHT_BRACE",
            TokenKind::Comma => "COMMA",
            TokenKind::Dot => "DOT",
            TokenKind::Semicolon => "SEMICOLON",
            TokenKind::Minus => "MINUS",
            TokenKind::Plus => "PLUS",
            TokenKind::Star => "STAR",
            TokenKind::Slash => "SLASH",
            TokenKind::Bang => "BANG",
            TokenKind::Equal => "EQUAL",
            TokenKind::Greater => "GREATER",
            TokenKind::Less => "LESS",
            TokenKind::BangEqual => "BANG_EQUAL",
            TokenKind::EqualEqual => "EQUAL_EQUAL",
            TokenKind::GreaterEqual => "GREATER_EQUAL",
            TokenKind::LessEqual => "LESS_EQUAL",
            TokenKind::StringLiteral => "STRING",
            TokenKind::NumberLiteral => "NUMBER",
            TokenKind::Identifier => "IDENTIFIER",
            TokenKind::And => "AND",
            TokenKind::Class => "CLASS",
            TokenKind::Else => "ELSE",
            TokenKind::False => "FALSE",
            TokenKind::Fun => "FUN",
            TokenKind::For => "FOR",
            TokenKind::If => "IF",
            TokenKind::Nil => "NIL",
            TokenKind::Or => "OR",
            TokenKind::Print => "PRINT",
            TokenKind::Return => "RETURN",
            TokenKind::Super => "SUPER",
            TokenKind::This => "THIS",
            TokenKind::True => "TRUE",
            TokenKind::Var => "VAR",
            TokenKind::While => "WHILE",
        }
    }

    /// The text of this kind in messages (`(` for a left parenthesis).
    pub fn text(&self) -> (text: &'static str)
        ensures
            text@ == spec_kind_text(*self),
    {
        match self {
            TokenKind::EndOfFile => "EOF",
            TokenKind::LeftParen => "(",
            TokenKind::RightParen => ")",
            TokenKind::LeftBrace => "{",
            TokenKind::RightBrace => "}",
            TokenKind::Comma => ",",
            TokenKind::Dot => ".",
            TokenKind::Semicolon => ";",
            TokenKind::Minus => "-",
            TokenKind::Plus => "+",
            TokenKind::Star => "*",
            TokenKind::Slash => "/",
            TokenKind::Bang => "!",
            TokenKind::Equal => "=",
            TokenKind::Greater => ">",
            TokenKind::Less => "<",
            TokenKind::BangEqual => "!=",
            TokenKind::EqualEqual => "==",
            TokenKind::GreaterEqual => ">=",
            TokenKind::LessEqual => "<=",
            TokenKind::StringLiteral => "string literal",
            TokenKind::NumberLiteral => "number literal",
            TokenKind::Identifier => "identifier",
            TokenKind::And => "and",
            TokenKind::Class => "class",
            TokenKind::Else => "else",
            TokenKind::False => "false",
            TokenKind::Fun => "fun",
            TokenKind::For => "for",
            TokenKind::If => "if",
            TokenKind::Nil => "nil",
            TokenKind::Or => "or",
            TokenKind::Print => "print",
            TokenKind::Return => "return",
            TokenKind::Super => "super",
            TokenKind::This => "this",
            TokenKind::True => "true",
            TokenKind::Var => "var",
            TokenKind::While => "while",
        }
    }

}

/// The kind of a word: the keyword it spells, or `Identifier` for any other word.
pub open spec fn spec_keyword_kind(word: Seq<char>) -> TokenKind {
    if word == "and"@ {
        TokenKind::And
    } else if word == "class"@ {
        TokenKind::Class
    } else if word == "else"@ {
        TokenKind::Else
    } else if word == "false"@ {
        TokenKind::False
    } else if word == "for"@ {
        TokenKind::For
    } else if word == "fun"@ {
        TokenKind::Fun
    } else if word == "if"@ {
        TokenKind::If
    } else if word == "nil"@ {
        TokenKind::Nil
    } else if word == "or"@ {
        TokenKind::Or
    } else if word == "print"@ {
        TokenKind::Print
    } else if word == "return"@ {
        TokenKind::Return
    } else if word == "super"@ {
        TokenKind::Super
    } else if word == "this"@ {
        TokenKind::This
    } else if word == "true"@ {
        TokenKind::True
    } else if word == "var"@ {
        TokenKind::Var
    } else if word == "while"@ {
        TokenKind::While
    } else {
        TokenKind::Identifier
    }
}

/// Whether `chars[start..end]` spells `word`.
pub fn spells(chars: &Vec<char>, start: usize, end: usize, word: &str) -> (b: bool)
    requires
        start <= end <= chars@.len(),
    ensures
        b == (chars@.subrange(start as int, end as int) == word@),
{
    let n = word.unicode_len();
    if end - start != n {
        return false;
    }
    let mut k: usize = 0;
    while k < n
        invariant
            n == word@.len(),
            end - start == n,
            start <= end <= chars@.len(),
            k <= n,
            forall|m: int| 0 <= m < k ==> chars@[start + m] == word@[m],
        decreases n - k,
    {
        if chars[start + k] != word.get_char(k) {
            assert(chars@.subrange(start as int, end as int)[k as int] != word@[k as int]);
            return false;
        }
        k = k + 1;
    }
    assert(chars@.subrange(start as int, end as int) =~= word@);
    true
}

/// The kind of the word `chars[start..end]`: the keyword it spells, or
/// `Identifier`.
pub fn keyword_kind(chars: &Vec<char>, start: usize, end: usize) -> (kind: TokenKind)
    requires
        start <= end <= chars@.len(),
    ensures
        kind == spec_keyword_kind(chars@.subrange(start as int, end as int)),
{
    if spells(chars, start, end, "and") {
        TokenKind::And
    } else if spells(chars, start, end, "class") {
        TokenKind::Class
    } else if spells(chars, start, end, "else") {
        TokenKind::Else
    } else if spells(chars, start, end, "false") {
        TokenKind::False
    } else if spells(chars, start, end, "for") {
        TokenKind::For
    } else if spells(chars, start, end, "fun") {
        TokenKind::Fun
    } else if spells(chars, start, end, "if") {
        TokenKind::If
    } else if spells(chars, start, end, "nil") {
        TokenKind::Nil
    } else if spells(chars, start, end, "or") {
        TokenKind::Or
    } else if spells(chars, start, end, "print") {
        TokenKind::Print
    } else if spells(chars, start, end, "return") {
        TokenKind::Return
    } else if spells(chars, start, end, "super") {
        TokenKind::Super
    } else if spells(chars, start, end, "this") {
        TokenKind::This
    } else if spells(chars, start, end, "true") {
        TokenKind::True
    } else if spells(chars, start, end, "var") {
        TokenKind::Var
    } else if spells(chars, start, end, "while") {
        TokenKind::While
    } else {
        TokenKind::Identifier
    }
}

/// The value of a literal token.
///
/// A number is kept as the decimal text that denotes it (`"4."`, `"1.98"`);
/// the number is the value of that decimal numeral.
#[derive(Debug, Clone, PartialEq)]
pub enum Literal {
    Number(String),
    String(String),
}

/// The mathematical view of a [`Literal`].
pub enum LiteralView {
    Number(Seq<char>),
    String(Seq<char>),
}

impl View for Literal {
    type V = LiteralView;

    open spec fn view(&self) -> LiteralView {
        match self {
            Literal::Number(text) => LiteralView::Number(text@),
            Literal::String(text) => LiteralView::String(text@),
        }
    }
}

impl Literal {
    /// A copy of this literal.
    pub fn duplicate(&self) -> (copy: Literal)
        ensures
            copy@ == self@,
    {
        match self {
            Literal::Number(text) => Literal::Number(text.clone()),
            Literal::String(text) => Literal::String(text.clone()),
        }
    }
}

/// The view of an optional literal.
pub open spec fn literal_view(literal: Option<Literal>) -> Option<LiteralView> {
    match literal {
        Some(l) => Some(l@),
        None => None,
    }
}

/// A token of Lox source code: its kind, its literal value for string and
/// number literals, its text and where it stands in the source.
#[derive(Debug, Clone)]
pub struct Token {
    pub kind: TokenKind,
    pub literal: Option<Literal>,
    pub lexeme: String,
    pub location: Span,
}

/// The mathematical view of a [`Token`].
pub struct TokenView {
    pub kind: TokenKind,
    pub literal: Option<LiteralView>,
    pub lexeme: Seq<char>,
    pub location: Span,
}

impl View for Token {
    type V = TokenView;

    open spec fn view(&self) -> TokenView {
        TokenView {
            kind: self.kind,
            literal: literal_view(self.literal),
            lexeme: self.lexeme@,
            location: self.location,
        }
    }
}

/// Two tokens are equal when they have the same kind, text and location; the
/// literal value follows from the text.
pub open spec fn same_token(a: TokenView, b: TokenView) -> bool {
    a.lexeme == b.lexeme && a.location == b.location && a.kind == b.kind
}

impl PartialEq for Token {
    fn eq(&self, other: &Self) -> (equal: bool) {
        self.lexeme == other.lexeme && self.location == other.location && self.kind == other.kind
    }
}

impl vstd::std_specs::cmp::PartialEqSpecImpl for Token {
    open spec fn obeys_eq_spec() -> bool {
        true
    }

    open spec fn eq_spec(&self, other: &Self) -> bool {
        same_token(self@, other@)
    }
}

impl Eq for Token {}

/// Lox has no escape sequences: a string literal is its text between two `"`.
pub open spec fn spec_escape(value: Seq<char>) -> Seq<char> {
    seq!['"'] + value + seq!['"']
}

/// The text between the quotes of a quoted text, or the text itself when it
/// is not enclosed in quotes.
pub open spec fn spec_unescape(lexeme: Seq<char>) -> Seq<char> {
    if lexeme.len() >= 2 && lexeme[0] == '"' && lexeme[lexeme.len() - 1] == '"' {
        lexeme.subrange(1, lexeme.len() - 1)
    } else {
        lexeme
    }
}

impl Token {
    pub fn new(kind: TokenKind, literal: Option<Literal>, lexeme: String, location: Span) -> (token: Token)
        ensures
            token.kind == kind,
            token.literal == literal,
            token.lexeme == lexeme,
            token.location == location,
    {
        Token { kind, literal, lexeme, location }
    }

    /// A copy of this token.
    pub fn duplicate(&self) -> (copy: Token)
        ensures
            copy@ == self@,
    {
        let literal = match &self.literal {
            Some(l) => Some(l.duplicate()),
            None => None,
        };
        Token { kind: self.kind, literal, lexeme: self.lexeme.clone(), location: self.location }
    }

    /// Escapes a string literal in Lox.
    ///
    /// Lox has no escaping, so it just adds `"` around the string.
    pub fn escape(value: &str) -> (escaped: String)
        ensures
            escaped@ == spec_escape(value@),
    {
        let mut escaped = String::new();
        crate::text::push_char(&mut escaped, '"');
        escaped.append(value);
        crate::text::push_char(&mut escaped, '"');
        escaped
    }

    /// Unescapes the lexeme for a string literal in Lox.
    ///
    /// Lox has no escaping, so it just removes the `"` around the string.
    pub fn unescape(lexeme: &str) -> (value: &str)
        ensures
            value@ == spec_unescape(lexeme@),
    {
        let n = lexeme.unicode_len();
        if n >= 2 && lexeme.get_char(0) == '"' && lexeme.get_char(n - 1) == '"' {
            lexeme.substring_char(1, n - 1)
        } else {
            lexeme
        }
    }

    pub fn kind(&self) -> (kind: TokenKind)
        ensures
            kind == self.kind,
    {
        self.kind
    }

    pub fn literal(&self) -> (literal: Option<&Literal>)
        ensures
            literal == match self.literal {
                Some(l) => Some(&l),
                None => None::<&Literal>,
            },
    {
        match &self.literal {
            Some(l) => Some(l),
            None => None,
        }
    }

    pub fn lexeme(&self) -> (lexeme: &String)
        ensures
            lexeme == &self.lexeme,
    {
        &self.lexeme
    }

    pub fn location(&self) -> (location: Span)
        ensures
            location == self.location,
    {
        self.location
    }
}

/// Unescaping an escaped string gives the string back: escaping only puts
/// quotes around it, and unescaping only takes them off.
pub proof fn law_unescape_undoes_escape(value: Seq<char>)
    ensures
        spec_unescape(spec_escape(value)) == value,
{
    let e = spec_escape(value);
    assert(e.len() == value.len() + 2);
    assert(e[0] == '"');
    assert(e[e.len() - 1] == '"');
    assert(e.subrange(1, e.len() - 1) =~= value);
}

/// Whether a token kind is one of the sixteen keywords of Lox.
pub open spec fn is_keyword_kind(kind: TokenKind) -> bool {
    match kind {
        TokenKind::And | TokenKind::Class | TokenKind::Else | TokenKind::False | TokenKind::For
        | TokenKind::Fun | TokenKind::If | TokenKind::Nil | TokenKind::Or | TokenKind::Print
        | TokenKind::Return | TokenKind::Super | TokenKind::This | TokenKind::True
        | TokenKind::Var | TokenKind::While => true,
        _ => false,
    }
}

/// The spelling of a keyword is read back as that keyword, and a word that
/// spells no keyword is read as an identifier.
pub proof fn law_keyword_round_trip(kind: TokenKind, word: Seq<char>)
    ensures
        is_keyword_kind(kind) ==> spec_keyword_kind(spec_kind_text(kind)) == kind,
        (forall|k: TokenKind| is_keyword_kind(k) ==> word != #[trigger] spec_kind_text(k))
            ==> spec_keyword_kind(word) == TokenKind::Identifier,
{
    reveal_strlit("and");
    reveal_strlit("class");
    reveal_strlit("else");
    reveal_strlit("false");
    reveal_strlit("for");
    reveal_strlit("fun");
    reveal_strlit("if");
    reveal_strlit("nil");
    reveal_strlit("or");
    reveal_strlit("print");
    reveal_strlit("return");
    reveal_strlit("super");
    reveal_strlit("this");
    reveal_strlit("true");
    reveal_strlit("var");
    reveal_strlit("while");
    match kind {
        TokenKind::And => {
            assert(spec_keyword_kind(spec_kind_text(TokenKind::And)) == TokenKind::And);
        },
        TokenKind::Class => {
            assert("class"@.len() != "and"@.len()); assert("class"@ != "and"@);
            assert(spec_keyword_kind(spec_kind_text(TokenKind::Class)) == TokenKind::Class);
        },
        TokenKind::Else => {
            assert("else"@.len() != "and"@.len()); assert("else"@ != "and"@);
            assert("else"@.len() != "class"@.len()); assert("else"@ != "class"@);
            assert(spec_keyword_kind(spec_kind_text(TokenKind::Else)) == TokenKind::Else);
        },
        TokenKind::False => {
            assert("false"@.len() != "and"@.len()); assert("false"@ != "and"@);
            assert("false"@[0] != "class"@[0]); assert("false"@ != "class"@);
            assert("false"@.len() != "else"@.len()); assert("false"@ != "else"@);
            assert(spec_keyword_kind(spec_kind_text(TokenKind::False)) == TokenKind::False);
        },
        TokenKind::For => {
            assert("for"@[0] != "and"@[0]); assert("for"@ != "and"@);
            assert("for"@.len() != "class"@.len()); assert("for"@ != "class"@);
            assert("for"@.len() != "else"@.len()); assert("for"@ != "else"@);
            assert("for"@.len() != "false"@.len()); assert("for"@ != "false"@);
            assert(spec_keyword_kind(spec_kind_text(TokenKind::For)) == TokenKind::For);
        },
        TokenKind::Fun => {
            assert("fun"@[0] != "and"@[0]); assert("fun"@ != "and"@);
            assert("fun"@.len() != "class"@.len()); assert("fun"@ != "class"@);
            assert("fun"@.len() != "else"@.len()); assert("fun"@ != "else"@);
            assert("fun"@.len() != "false"@.len()); assert("fun"@ != "false"@);
            assert("fun"@[1] != "for"@[1]); assert("fun"@ != "for"@);
            assert(spec_keyword_kind(spec_kind_text(TokenKind::Fun)) == TokenKind::Fun);
        },
        TokenKind::If => {
            assert("if"@.len() != "and"@.len()); assert("if"@ != "and"@);
            assert("if"@.len() != "class"@.len()); assert("if"@ != "class"@);
            assert("if"@.len() != "else"@.len()); assert("if"@ != "else"@);
            assert("if"@.len() != "false"@.len()); assert("if"@ != "false"@);
            assert("if"@.len() != "for"@.len()); assert("if"@ != "for"@);
            assert("if"@.len() != "fun"@.len()); assert("if"@ != "fun"@);
            assert(spec_keyword_kind(spec_kind_text(TokenKind::If)) == TokenKind::If);
        },
        TokenKind::Nil => {
            assert("nil"@[0] != "and"@[0]); assert("nil"@ != "and"@);
            assert("nil"@.len() != "class"@.len()); assert("nil"@ != "class"@);
            assert("nil"@.len() != "else"@.len()); assert("nil"@ != "else"@);
            assert("nil"@.len() != "false"@.len()); assert("nil"@ != "false"@);
            assert("nil"@[0] != "for"@[0]); assert("nil"@ != "for"@);
            assert("nil"@[0] != "fun"@[0]); assert("nil"@ != "fun"@);
            assert("nil"@.len() != "if"@.len()); assert("nil"@ != "if"@);
            assert(spec_keyword_kind(spec_kind_text(TokenKind::Nil)) == TokenKind::Nil);
        },
        TokenKind::Or => {
            assert("or"@.len() != "and"@.len()); assert("or"@ != "and"@);
            assert("or"@.len() != "class"@.len()); assert("or"@ != "class"@);
            assert("or"@.len() != "else"@.len()); assert("or"@ != "else"@);
            assert("or"@.len() != "false"@.len()); assert("or"@ != "false"@);
            assert("or"@.len() != "for"@.len()); assert("or"@ != "for"@);
            assert("or"@.len() != "fun"@.len()); assert("or"@ != "fun"@);
            assert("or"@[0] != "if"@[0]); assert("or"@ != "if"@);
            assert("or"@.len() != "nil"@.len()); assert("or"@ != "nil"@);
            assert(spec_keyword_kind(spec_kind_text(TokenKind::Or)) == TokenKind::Or);
        },
        TokenKind::Print => {
            assert("print"@.len() != "and"@.len()); assert("print"@ != "and"@);
            assert("print"@[0] != "class"@[0]); assert("print"@ != "class"@);
            assert("print"@.len() != "else"@.len()); assert("print"@ != "else"@);
            assert("print"@[0] != "false"@[0]); assert("print"@ != "false"@);
            assert("print"@.len() != "for"@.len()); assert("print"@ != "for"@);
            assert("print"@.len() != "fun"@.len()); assert("print"@ != "fun"@);
            assert("print"@.len() != "if"@.len()); assert("print"@ != "if"@);
            assert("print"@.len() != "nil"@.len()); assert("print"@ != "nil"@);
            assert("print"@.len() != "or"@.len()); assert("print"@ != "or"@);
            assert(spec_keyword_kind(spec_kind_text(TokenKind::Print)) == TokenKind::Print);
        },
        TokenKind::Return => {
            assert("return"@.len() != "and"@.len()); assert("return"@ != "and"@);
            assert("return"@.len() != "class"@.len()); assert("return"@ != "class"@);
            assert("return"@.len() != "else"@.len()); assert("return"@ != "else"@);
            assert("return"@.len() != "false"@.len()); assert("return"@ != "false"@);
            assert("return"@.len() != "for"@.len()); assert("return"@ != "for"@);
            assert("return"@.len() != "fun"@.len()); assert("return"@ != "fun"@);
            assert("return"@.len() != "if"@.len()); assert("return"@ != "if"@);
            assert("return"@.len() != "nil"@.len()); assert("return"@ != "nil"@);
            assert("return"@.len() != "or"@.len()); assert("return"@ != "or"@);
            assert("return"@.len() != "print"@.len()); assert("return"@ != "print"@);
            assert(spec_keyword_kind(spec_kind_text(TokenKind::Return)) == TokenKind::Return);
        },
        TokenKind::Super => {
            assert("super"@.len() != "and"@.len()); assert("super"@ != "and"@);
            assert("super"@[0] != "class"@[0]); assert("super"@ != "class"@);
            assert("super"@.len() != "else"@.len()); assert("super"@ != "else"@);
            assert("super"@[0] != "false"@[0]); assert("super"@ != "false"@);
            assert("super"@.len() != "for"@.len()); assert("super"@ != "for"@);
            assert("super"@.len() != "fun"@.len()); assert("super"@ != "fun"@);
            assert("super"@.len() != "if"@.len()); assert("super"@ != "if"@);
            assert("super"@.len() != "nil"@.len()); assert("super"@ != "nil"@);
            assert("super"@.len() != "or"@.len()); assert("super"@ != "or"@);
            assert("super"@[0] != "print"@[0]); assert("super"@ != "print"@);
            assert("super"@.len() != "return"@.len()); assert("super"@ != "return"@);
            assert(spec_keyword_kind(spec_kind_text(TokenKind::Super)) == TokenKind::Super);
        },
        TokenKind::This => {
            assert("this"@.len() != "and"@.len()); assert("this"@ != "and"@);
            assert("this"@.len() != "class"@.len()); assert("this"@ != "class"@);
            assert("this"@[0] != "else"@[0]); assert("this"@ != "else"@);
            assert("this"@.len() != "false"@.len()); assert("this"@ != "false"@);
            assert("this"@.len() != "for"@.len()); assert("this"@ != "for"@);
            assert("this"@.len() != "fun"@.len()); assert("this"@ != "fun"@);
            assert("this"@.len() != "if"@.len()); assert("this"@ != "if"@);
            assert("this"@.len() != "nil"@.len()); assert("this"@ != "nil"@);
            assert("this"@.len() != "or"@.len()); assert("this"@ != "or"@);
            assert("this"@.len() != "print"@.len()); assert("this"@ != "print"@);
            assert("this"@.len() != "return"@.len()); assert("this"@ != "return"@);
            assert("this"@.len() != "super"@.len()); assert("this"@ != "super"@);
            assert(spec_keyword_kind(spec_kind_text(TokenKind::This)) == TokenKind::This);
        },
        TokenKind::True => {
            assert("true"@.len() != "and"@.len()); assert("true"@ != "and"@);
            assert("true"@.len() != "class"@.len()); assert("true"@ != "class"@);
            assert("true"@[0] != "else"@[0]); assert("true"@ != "else"@);
            assert("true"@.len() != "false"@.len()); assert("true"@ != "false"@);
            assert("true"@.len() != "for"@.len()); assert("true"@ != "for"@);
            assert("true"@.len() != "fun"@.len()); assert("true"@ != "fun"@);
            assert("true"@.len() != "if"@.len()); assert("true"@ != "if"@);
            assert("true"@.len() != "nil"@.len()); assert("true"@ != "nil"@);
            assert("true"@.len() != "or"@.len()); assert("true"@ != "or"@);
            assert("true"@.len() != "print"@.len()); assert("true"@ != "print"@);
            assert("true"@.len() != "return"@.len()); assert("true"@ != "return"@);
            assert("true"@.len() != "super"@.len()); assert("true"@ != "super"@);
            assert("true"@[1] != "this"@[1]); assert("true"@ != "this"@);
            assert(spec_keyword_kind(spec_kind_text(TokenKind::True)) == TokenKind::True);
        },
        TokenKind::Var => {
            assert("var"@[0] != "and"@[0]); assert("var"@ != "and"@);
            assert("var"@.len() != "class"@.len()); assert("var"@ != "class"@);
            assert("var"@.len() != "else"@.len()); assert("var"@ != "else"@);
            assert("var"@.len() != "false"@.len()); assert("var"@ != "false"@);
            assert("var"@[0] != "for"@[0]); assert("var"@ != "for"@);
            assert("var"@[0] != "fun"@[0]); assert("var"@ != "fun"@);
            assert("var"@.len() != "if"@.len()); assert("var"@ != "if"@);
            assert("var"@[0] != "nil"@[0]); assert("var"@ != "nil"@);
            assert("var"@.len() != "or"@.len()); assert("var"@ != "or"@);
            assert("var"@.len() != "print"@.len()); assert("var"@ != "print"@);
            assert("var"@.len() != "return"@.len()); assert("var"@ != "return"@);
            assert("var"@.len() != "super"@.len()); assert("var"@ != "super"@);
            assert("var"@.len() != "this"@.len()); assert("var"@ != "this"@);
            assert("var"@.len() != "true"@.len()); assert("var"@ != "true"@);
            assert(spec_keyword_kind(spec_kind_text(TokenKind::Var)) == TokenKind::Var);
        },
        TokenKind::While => {
            assert("while"@.len() != "and"@.len()); assert("while"@ != "and"@);
            assert("while"@[0] != "class"@[0]); assert("while"@ != "class"@);
            assert("while"@.len() != "else"@.len()); assert("while"@ != "else"@);
            assert("while"@[0] != "false"@[0]); assert("while"@ != "false"@);
            assert("while"@.len() != "for"@.len()); assert("while"@ != "for"@);
            assert("while"@.len() != "fun"@.len()); assert("while"@ != "fun"@);
            assert("while"@.len() != "if"@.len()); assert("while"@ != "if"@);
            assert("while"@.len() != "nil"@.len()); assert("while"@ != "nil"@);
            assert("while"@.len() != "or"@.len()); assert("while"@ != "or"@);
            assert("while"@[0] != "print"@[0]); assert("while"@ != "print"@);
            assert("while"@.len() != "return"@.len()); assert("while"@ != "return"@);
            assert("while"@[0] != "super"@[0]); assert("while"@ != "super"@);
            assert("while"@.len() != "this"@.len()); assert("while"@ != "this"@);
            assert("while"@.len() != "true"@.len()); assert("while"@ != "true"@);
            assert("while"@.len() != "var"@.len()); assert("while"@ != "var"@);
            assert(spec_keyword_kind(spec_kind_text(TokenKind::While)) == TokenKind::While);
        },
        _ => {},
    }
    if (forall|k: TokenKind| is_keyword_kind(k) ==> word != #[trigger] spec_kind_text(k)) {
        assert(word != spec_kind_text(TokenKind::And));
        assert(word != spec_kind_text(TokenKind::Class));
        assert(word != spec_kind_text(TokenKind::Else));
        assert(word != spec_kind_text(TokenKind::False));
        assert(word != spec_kind_text(TokenKind::For));
        assert(word != spec_kind_text(TokenKind::Fun));
        assert(word != spec_kind_text(TokenKind::If));
        assert(word != spec_kind_text(TokenKind::Nil));
        assert(word != spec_kind_text(TokenKind::Or));
        assert(word != spec_kind_text(TokenKind::Print));
        assert(word != spec_kind_text(TokenKind::Return));
        assert(word != spec_kind_text(TokenKind::Super));
        assert(word != spec_kind_text(TokenKind::This));
        assert(word != spec_kind_text(TokenKind::True));
        assert(word != spec_kind_text(TokenKind::Var));
        assert(word != spec_kind_text(TokenKind::While));
    }
}

} // verus!
