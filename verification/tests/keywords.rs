use lox_core::token::{keyword_kind, TokenKind};

const KEYWORDS: [TokenKind; 16] = [
    TokenKind::And,
    TokenKind::Class,
    TokenKind::Else,
    TokenKind::False,
    TokenKind::For,
    TokenKind::Fun,
    TokenKind::If,
    TokenKind::Nil,
    TokenKind::Or,
    TokenKind::Print,
    TokenKind::Return,
    TokenKind::Super,
    TokenKind::This,
    TokenKind::True,
    TokenKind::Var,
    TokenKind::While,
];

fn kind_of(word: &str) -> TokenKind {
    let chars: Vec<char> = word.chars().collect();
    keyword_kind(&chars, 0, chars.len())
}

#[test]
fn the_spelling_of_every_keyword_reads_back_as_that_keyword() {
    for kind in KEYWORDS {
        assert_eq!(kind_of(kind.text()), kind);
    }
}

#[test]
fn other_words_read_as_identifiers() {
    for word in ["andy", "Class", "fo", "whiles", "x", "_nil", "printer"] {
        assert_eq!(kind_of(word), TokenKind::Identifier);
    }
}
