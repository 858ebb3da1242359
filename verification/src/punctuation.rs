//! A lexer for the punctuation of Lox alone: commas, dots, semicolons,
//! parentheses and braces. Every other character, white space included, is
//! an unexpected character, reported at its position on the line.
use crate::source::Location;
use crate::token::TokenKind;
use crate::tokenizing::{
    item_view, Token, TokenValue, TokenizeError, TokenizeErrorCode, TokenizeErrorCodeView, TokenizeErrorView,
};
use vstd::prelude::*;

verus! {

/// The kind of the punctuation token that a character is, if it is one.
pub open spec fn punctuation_kind(c: char) -> Option<TokenKind> {
    if c == ',' {
        Some(TokenKind::Comma)
    } else if c == '(' {
        Some(TokenKind::LeftParen)
    } else if c == ')' {
        Some(TokenKind::RightParen)
    } else if c == '{' {
        Some(TokenKind::LeftBrace)
    } else if c == '}' {
        Some(TokenKind::RightBrace)
    } else if c == '.' {
        Some(TokenKind::Dot)
    } else if c == ';' {
        Some(TokenKind::Semicolon)
    } else {
        None
    }
}

/// The item of the `k`-th character of `s`: its token, or the error of an
/// unexpected character at the position just after it on the first line.
pub open spec fn punctuation_item(s: Seq<char>, k: int) -> Result<TokenValue, TokenizeErrorView> {
    match punctuation_kind(s[k]) {
        Some(kind) => Ok(TokenValue { kind, text: Seq::empty() }),
        None => Err(TokenizeErrorView {
            code: TokenizeErrorCodeView::UnexpectedCharacter(s[k]),
            location: Location { line: 1, char: (k + 1) as usize },
        }),
    }
}

/// All items of `s`: one for each character, then the end of file.
pub open spec fn spec_punctuation_items(s: Seq<char>) -> Seq<Result<TokenValue, TokenizeErrorView>> {
    Seq::new(s.len(), |k: int| punctuation_item(s, k)).push(
        Ok(TokenValue { kind: TokenKind::EndOfFile, text: Seq::empty() }),
    )
}

/// A lexer of punctuation over the characters of a source code.
pub struct PunctuationTokens {
    chars: Vec<char>,
    position: usize,
    location: Location,
    end_of_file: bool,
}

impl PunctuationTokens {
    pub closed spec fn wf(&self) -> bool {
        &&& self.position <= self.chars@.len()
        &&& self.location == (Location { line: 1, char: self.position })
        &&& self.end_of_file ==> self.position == self.chars@.len()
    }

    /// The items this lexer has yet to give.
    pub closed spec fn remaining(&self) -> Seq<Result<TokenValue, TokenizeErrorView>> {
        if self.end_of_file {
            Seq::empty()
        } else {
            spec_punctuation_items(self.chars@).skip(self.position as int)
        }
    }

    /// A lexer at the start of `source`.
    pub fn new(source: &str) -> (tokens: PunctuationTokens)
        ensures
            tokens.wf(),
            tokens.remaining() == spec_punctuation_items(source@),
    {
        let tokens = PunctuationTokens {
            chars: crate::text::chars_of(source),
            position: 0,
            location: Location::default(),
            end_of_file: false,
        };
        assert(spec_punctuation_items(source@).skip(0) =~= spec_punctuation_items(source@));
        tokens
    }

    /// The next item: the token or error of the next character, the end of
    /// file after the last one, then nothing.
    pub fn next(&mut self) -> (item: Option<Result<Token, TokenizeError>>)
        requires
            old(self).wf(),
        ensures
            final(self).wf(),
            old(self).remaining().len() == 0 ==> item is None && final(self).remaining().len() == 0,
            old(self).remaining().len() > 0 ==> {
                &&& item matches Some(r)
                &&& item_view(r) == old(self).remaining()[0]
                &&& final(self).remaining() == old(self).remaining().drop_first()
            },
    {
        let ghost items = spec_punctuation_items(self.chars@);
        if self.position >= self.chars.len() {
            if self.end_of_file {
                return None;
            }
            self.end_of_file = true;
            assert(old(self).remaining() =~= seq![items.last()]);
            assert(old(self).remaining().drop_first() =~= Seq::<Result<TokenValue, TokenizeErrorView>>::empty());
            return Some(Ok(Token::EndOfFile));
        }
        let c = self.chars[self.position];
        let k = self.position;
        self.location.advance_char();
        self.position = self.position + 1;
        assert(old(self).remaining()[0] == punctuation_item(self.chars@, k as int));
        assert(old(self).remaining().drop_first() =~= self.remaining());
        let item = match c {
            ',' => Ok(Token::Comma),
            '(' => Ok(Token::LeftParen),
            ')' => Ok(Token::RightParen),
            '{' => Ok(Token::LeftBrace),
            '}' => Ok(Token::RightBrace),
            '.' => Ok(Token::Dot),
            ';' => Ok(Token::Semicolon),
            _ => Err(TokenizeError::new(TokenizeErrorCode::UnexpectedCharacter(c), self.location)),
        };
        Some(item)
    }

    /// All items that this lexer has yet to give, in order.
    pub fn collect(self) -> (items: Vec<Result<Token, TokenizeError>>)
        requires
            self.wf(),
        ensures
            items@.map_values(|r: Result<Token, TokenizeError>| item_view(r)) == self.remaining(),
    {
        let mut tokens = self;
        let mut items: Vec<Result<Token, TokenizeError>> = Vec::new();
        loop
            invariant
                tokens.wf(),
                items@.map_values(|r: Result<Token, TokenizeError>| item_view(r)) + tokens.remaining() == self.remaining(),
            ensures
                items@.map_values(|r: Result<Token, TokenizeError>| item_view(r)) == self.remaining(),
            decreases tokens.remaining().len(),
        {
            let ghost before = tokens.remaining();
            match tokens.next() {
                None => {
                    assert(before.len() == 0);
                    assert(items@.map_values(|r: Result<Token, TokenizeError>| item_view(r)) + tokens.remaining()
                        =~= items@.map_values(|r: Result<Token, TokenizeError>| item_view(r)));
                    assert(items@.map_values(|r: Result<Token, TokenizeError>| item_view(r)) + before
                        =~= items@.map_values(|r: Result<Token, TokenizeError>| item_view(r)));
                    break;
                },
                Some(r) => {
                    proof {
                        assert(items@.push(r).map_values(|r: Result<Token, TokenizeError>| item_view(r))
                            =~= items@.map_values(|r: Result<Token, TokenizeError>| item_view(r)).push(item_view(r)));
                        assert(before =~= seq![item_view(r)] + tokens.remaining());
                        assert(items@.map_values(|r: Result<Token, TokenizeError>| item_view(r)) + before
                            =~= items@.map_values(|r: Result<Token, TokenizeError>| item_view(r)).push(item_view(r))
                                + tokens.remaining());
                    }
                    items.push(r);
                },
            }
        }
        items
    }
}

} // verus!
