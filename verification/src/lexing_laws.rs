//! Laws of the lexer, over the items it yields.
use crate::chars::{byte_len, byte_offset, lemma_byte_offset_monotonic};
use crate::span::Span;
use crate::token::TokenKind;
use crate::tokenize::{
    at_end, items_from, items_view, lemma_lex_at_end, lemma_next_item_advances, lemma_quote_index_bounds,
    lemma_trivia_end_bounds, lex_at, next_item, quote_index, span_of, spec_tokenize, token_at, trivia_end, word_end,
    LexingError, LexingErrorCodeView, LexingErrorView, Tokenize,
};
use crate::token::{is_keyword_kind, spec_unescape, LiteralView, Token, TokenView};
use crate::chars::{is_identifier_char, is_identifier_start};
use vstd::prelude::*;

verus! {

/// Where an item of the lexer stands in the source.
pub open spec fn item_location(item: Result<TokenView, LexingErrorView>) -> Span {
    match item {
        Ok(t) => t.location,
        Err(e) => e.location,
    }
}

/// Whether an item is the end-of-file token.
pub open spec fn is_end_of_file(item: Result<TokenView, LexingErrorView>) -> bool {
    item matches Ok(t) && t.kind == TokenKind::EndOfFile
}

proof fn lemma_next_item_span(s: Seq<char>, i: int)
    requires
        0 <= i <= s.len(),
        byte_len(s) <= usize::MAX,
    ensures
        item_location(next_item(s, i).0).offset >= byte_offset(s, i),
        item_location(next_item(s, i).0).offset + item_location(next_item(s, i).0).length
            == byte_offset(s, next_item(s, i).1),
        !at_end(s, i) ==> !is_end_of_file(next_item(s, i).0),
{
    let j = trivia_end(s, i, false);
    lemma_trivia_end_bounds(s, i, false);
    lemma_next_item_advances(s, i);
    let e = next_item(s, i).1;
    if !at_end(s, i) {
        lemma_lex_at_end(s, j);
    }
    lemma_byte_offset_monotonic(s, 0, i);
    lemma_byte_offset_monotonic(s, i, j);
    lemma_byte_offset_monotonic(s, j, e);
    lemma_byte_offset_monotonic(s, e, s.len() as int);
    let bj = byte_offset(s, j);
    let be = byte_offset(s, e);
    assert(bj as usize as int == bj);
    assert((be - bj) as usize as int == be - bj);
}

/// The items of the lexer stand in source order and do not overlap: each
/// item ends at or before the start of every later item, and all lie within
/// the source.
pub proof fn law_items_in_source_order(s: Seq<char>, i: int)
    requires
        0 <= i <= s.len(),
        byte_len(s) <= usize::MAX,
    ensures
        forall|k: int, m: int|
            0 <= k < m < items_from(s, i).len() ==> item_location(#[trigger] items_from(s, i)[k]).offset
                + item_location(items_from(s, i)[k]).length <= item_location(
                #[trigger] items_from(s, i)[m],
            ).offset,
        forall|k: int|
            0 <= k < items_from(s, i).len() ==> byte_offset(s, i) <= item_location(
                #[trigger] items_from(s, i)[k],
            ).offset && item_location(items_from(s, i)[k]).offset + item_location(
                items_from(s, i)[k],
            ).length <= byte_len(s),
    decreases s.len() - i,
{
    let items = items_from(s, i);
    lemma_next_item_span(s, i);
    lemma_next_item_advances(s, i);
    let e = next_item(s, i).1;
    lemma_byte_offset_monotonic(s, e, s.len() as int);
    if !at_end(s, i) {
        law_items_in_source_order(s, e);
        let rest = items_from(s, e);
        assert(items == seq![next_item(s, i).0] + rest);
        lemma_byte_offset_monotonic(s, i, e);
        assert forall|k: int, m: int| 0 <= k < m < items.len() implies item_location(
            #[trigger] items[k],
        ).offset + item_location(items[k]).length <= item_location(#[trigger] items[m]).offset by {
            if k == 0 {
                assert(items[m] == rest[m - 1]);
            } else {
                assert(items[k] == rest[k - 1]);
                assert(items[m] == rest[m - 1]);
            }
        }
        assert forall|k: int| 0 <= k < items.len() implies byte_offset(s, i) <= item_location(
            #[trigger] items[k],
        ).offset && item_location(items[k]).offset + item_location(items[k]).length
            <= byte_len(s) by {
            if k > 0 {
                assert(items[k] == rest[k - 1]);
            }
        }
    }
}

/// Lexing ends with exactly one end-of-file token: the last item is the
/// end-of-file token, with an empty text, at the end of the source; no
/// earlier item is one.
pub proof fn law_single_end_of_file_at_end(s: Seq<char>, i: int)
    requires
        0 <= i <= s.len(),
    ensures
        items_from(s, i).len() >= 1,
        items_from(s, i).last() == Ok::<TokenView, LexingErrorView>(
            token_at(s, TokenKind::EndOfFile, None, s.len() as int, s.len() as int),
        ),
        forall|k: int|
            0 <= k < items_from(s, i).len() - 1 ==> !is_end_of_file(#[trigger] items_from(s, i)[k]),
    decreases s.len() - i,
{
    let items = items_from(s, i);
    lemma_next_item_advances(s, i);
    lemma_trivia_end_bounds(s, i, false);
    if !at_end(s, i) {
        let e = next_item(s, i).1;
        law_single_end_of_file_at_end(s, e);
        let rest = items_from(s, e);
        assert(items == seq![next_item(s, i).0] + rest);
        let j = trivia_end(s, i, false);
        assert(!is_end_of_file(lex_at(s, j).0));
        assert forall|k: int| 0 <= k < items.len() - 1 implies !is_end_of_file(#[trigger] items[k]) by {
            if k > 0 {
                assert(items[k] == rest[k - 1]);
            }
        }
    }
}

/// The whole of lexing a source: its items stand in source order and it ends
/// with the one end-of-file token.
pub proof fn law_tokenize(s: Seq<char>)
    requires
        byte_len(s) <= usize::MAX,
    ensures
        spec_tokenize(s).len() >= 1,
        is_end_of_file(spec_tokenize(s).last()),
        forall|k: int| 0 <= k < spec_tokenize(s).len() - 1 ==> !is_end_of_file(#[trigger] spec_tokenize(s)[k]),
        forall|k: int, m: int|
            0 <= k < m < spec_tokenize(s).len() ==> item_location(#[trigger] spec_tokenize(s)[k]).offset
                + item_location(spec_tokenize(s)[k]).length <= item_location(
                #[trigger] spec_tokenize(s)[m],
            ).offset,
{
    law_items_in_source_order(s, 0);
    law_single_end_of_file_at_end(s, 0);
}

/// Every number or string literal token that the lexer yields carries its
/// value.
pub proof fn law_literal_tokens_carry_values(s: Seq<char>, i: int)
    ensures
        crate::parse::items_have_literals(items_from(s, i)),
    decreases s.len() - i,
{
    if 0 <= i <= s.len() {
        let item = next_item(s, i).0;
        assert(item is Ok ==> crate::parse::has_literal(item->Ok_0));
        if at_end(s, i) {
            assert(items_from(s, i) == seq![item]);
        } else {
            lemma_next_item_advances(s, i);
            let rest = items_from(s, next_item(s, i).1);
            law_literal_tokens_carry_values(s, next_item(s, i).1);
            assert(items_from(s, i) == seq![item] + rest);
            assert forall|k: int| 0 <= k < items_from(s, i).len() && (#[trigger] items_from(s, i)[k]) is Ok
                implies crate::parse::has_literal(items_from(s, i)[k]->Ok_0) by {
                if k > 0 {
                    assert(items_from(s, i)[k] == rest[k - 1]);
                }
            }
        }
    }
}

/// Whether a token is the text of the source between two positions, and its
/// location is where that text stands.
pub open spec fn covers(s: Seq<char>, t: TokenView) -> bool {
    exists|j: int, e: int| 0 <= j <= e <= s.len() && t.lexeme == s.subrange(j, e) && t.location == span_of(s, j, e)
}

proof fn lemma_next_item_covers(s: Seq<char>, i: int)
    requires
        0 <= i <= s.len(),
    ensures
        next_item(s, i).0 matches Ok(t) ==> covers(s, t),
{
    let j = trivia_end(s, i, false);
    lemma_trivia_end_bounds(s, i, false);
    if j >= s.len() {
        let n = s.len() as int;
        let t = token_at(s, TokenKind::EndOfFile, None, n, n);
        assert(t.lexeme == s.subrange(n, n) && t.location == span_of(s, n, n));
    } else {
        lemma_lex_at_end(s, j);
        let e = lex_at(s, j).1;
        if let Ok(t) = lex_at(s, j).0 {
            assert(t.lexeme == s.subrange(j, e) && t.location == span_of(s, j, e));
        }
    }
}

/// The text of every token that the lexer yields is the source text at the
/// token's location: a location leads back to the text it was read from.
pub proof fn law_token_text_is_source_at_location(s: Seq<char>, i: int)
    ensures
        forall|k: int| 0 <= k < items_from(s, i).len() && (#[trigger] items_from(s, i)[k]) is Ok
            ==> covers(s, items_from(s, i)[k]->Ok_0),
    decreases s.len() - i,
{
    if 0 <= i <= s.len() {
        let item = next_item(s, i).0;
        lemma_next_item_covers(s, i);
        if at_end(s, i) {
            assert(items_from(s, i) == seq![item]);
        } else {
            lemma_next_item_advances(s, i);
            let rest = items_from(s, next_item(s, i).1);
            law_token_text_is_source_at_location(s, next_item(s, i).1);
            assert(items_from(s, i) == seq![item] + rest);
            assert forall|k: int| 0 <= k < items_from(s, i).len() && (#[trigger] items_from(s, i)[k]) is Ok
                implies covers(s, items_from(s, i)[k]->Ok_0) by {
                if k > 0 {
                    assert(items_from(s, i)[k] == rest[k - 1]);
                }
            }
        }
    }
}

/// Whether an error item is an unexpected character that stands in the
/// source at the error's location.
pub open spec fn unexpected_at_location(s: Seq<char>, e: LexingErrorView) -> bool {
    e.code matches LexingErrorCodeView::UnexpectedCharacter(c) ==> exists|j: int|
        0 <= j < s.len() && s[j] == c && e.location == span_of(s, j, j + 1)
}

/// Whether a string literal token carries its text without the quotes.
pub open spec fn string_literal_unquoted(t: TokenView) -> bool {
    t.kind == TokenKind::StringLiteral ==> t.literal == Some(LiteralView::String(spec_unescape(t.lexeme)))
}

proof fn lemma_next_item_facts(s: Seq<char>, i: int)
    requires
        0 <= i <= s.len(),
        byte_len(s) <= usize::MAX,
    ensures
        !at_end(s, i) ==> item_location(next_item(s, i).0).offset < item_location(next_item(s, i).0).offset
            + item_location(next_item(s, i).0).length,
        next_item(s, i).0 matches Err(e) ==> unexpected_at_location(s, e),
        next_item(s, i).0 matches Ok(t) ==> string_literal_unquoted(t),
{
    let j = trivia_end(s, i, false);
    lemma_trivia_end_bounds(s, i, false);
    lemma_next_item_span(s, i);
    if !at_end(s, i) {
        lemma_lex_at_end(s, j);
        let e = lex_at(s, j).1;
        lemma_byte_offset_monotonic(s, j, e);
        lemma_byte_offset_monotonic(s, e, s.len() as int);
        let c = s[j];
        if c == '"' {
            lemma_quote_index_bounds(s, j + 1);
            let q = quote_index(s, j + 1);
            if q < s.len() {
                let lexeme = s.subrange(j, q + 1);
                assert(lexeme[0] == '"');
                assert(lexeme[lexeme.len() - 1] == '"');
                assert(lexeme.subrange(1, lexeme.len() - 1) =~= s.subrange(j + 1, q));
            }
        }
        lemma_byte_offset_monotonic(s, j, s.len() as int);
        lemma_byte_offset_monotonic(s, 0, j);
        assert(next_item(s, i) == lex_at(s, j));
        assert(byte_offset(s, j) as usize as int == byte_offset(s, j));
        assert(item_location(lex_at(s, j).0).offset == byte_offset(s, j) as usize);
        assert(item_location(lex_at(s, j).0).offset < byte_offset(s, e));
        if let Err(err) = lex_at(s, j).0 {
            if let LexingErrorCodeView::UnexpectedCharacter(ch) = err.code {
                assert(0 <= j < s.len() && s[j] == ch && err.location == span_of(s, j, j + 1));
            }
        }
    }
}

/// The items from position `i` on: an unexpected character stands at its
/// error's location, string literals carry their unquoted text, and the
/// offsets of the items strictly increase.
proof fn lemma_items_facts(s: Seq<char>, i: int)
    requires
        0 <= i <= s.len(),
        byte_len(s) <= usize::MAX,
    ensures
        forall|k: int| 0 <= k < items_from(s, i).len() && (#[trigger] items_from(s, i)[k]) is Err
            ==> unexpected_at_location(s, items_from(s, i)[k]->Err_0),
        forall|k: int| 0 <= k < items_from(s, i).len() && (#[trigger] items_from(s, i)[k]) is Ok
            ==> string_literal_unquoted(items_from(s, i)[k]->Ok_0),
        forall|k: int, m: int| 0 <= k < m < items_from(s, i).len() ==> item_location(#[trigger] items_from(s, i)[k]).offset
            < item_location(#[trigger] items_from(s, i)[m]).offset,
    decreases s.len() - i,
{
    let item = next_item(s, i).0;
    lemma_next_item_facts(s, i);
    law_items_in_source_order(s, i);
    if at_end(s, i) {
        assert(items_from(s, i) == seq![item]);
    } else {
        lemma_next_item_advances(s, i);
        let rest = items_from(s, next_item(s, i).1);
        lemma_items_facts(s, next_item(s, i).1);
        let items = items_from(s, i);
        assert(items == seq![item] + rest);
        assert forall|k: int| 0 <= k < items.len() && (#[trigger] items[k]) is Err
            implies unexpected_at_location(s, items[k]->Err_0) by {
            if k > 0 {
                assert(items[k] == rest[k - 1]);
            }
        }
        assert forall|k: int| 0 <= k < items.len() && (#[trigger] items[k]) is Ok
            implies string_literal_unquoted(items[k]->Ok_0) by {
            if k > 0 {
                assert(items[k] == rest[k - 1]);
            }
        }
        assert forall|k: int, m: int| 0 <= k < m < items.len() implies item_location(#[trigger] items[k]).offset
            < item_location(#[trigger] items[m]).offset by {
            if k == 0 {
                assert(items[m] == rest[m - 1]);
                assert(item_location(items[0]).offset + item_location(items[0]).length <= item_location(items[m]).offset);
            } else {
                assert(items[k] == rest[k - 1]);
                assert(items[m] == rest[m - 1]);
            }
        }
    }
}

/// Whether a token of a word (an identifier or a keyword) is the whole run
/// of identifier characters that starts with its first letter: all its
/// characters are letters, digits or `_`, and no such character follows it
/// in the source.
pub open spec fn word_is_maximal(s: Seq<char>, t: TokenView) -> bool {
    (t.kind == TokenKind::Identifier || is_keyword_kind(t.kind)) ==> exists|j: int, e: int| {
        &&& 0 <= j < e <= s.len()
        &&& t.lexeme == s.subrange(j, e)
        &&& t.location == span_of(s, j, e)
        &&& is_identifier_start(s[j])
        &&& (forall|k: int| j <= k < e ==> is_identifier_char(#[trigger] s[k]))
        &&& (e == s.len() || !is_identifier_char(s[e]))
    }
}

proof fn lemma_word_end(s: Seq<char>, i: int)
    requires
        0 <= i <= s.len(),
    ensures
        i <= word_end(s, i) <= s.len(),
        forall|k: int| i <= k < word_end(s, i) ==> is_identifier_char(#[trigger] s[k]),
        word_end(s, i) == s.len() || !is_identifier_char(s[word_end(s, i)]),
    decreases s.len() - i,
{
    if i < s.len() && is_identifier_char(s[i]) {
        lemma_word_end(s, i + 1);
    }
}

proof fn lemma_next_word_is_maximal(s: Seq<char>, i: int)
    requires
        0 <= i <= s.len(),
    ensures
        next_item(s, i).0 matches Ok(t) ==> word_is_maximal(s, t),
{
    let j = trivia_end(s, i, false);
    lemma_trivia_end_bounds(s, i, false);
    if j < s.len() {
        let c = s[j];
        if is_identifier_start(c) {
            lemma_word_end(s, j);
            let e = word_end(s, j);
            assert(is_identifier_char(s[j]));
            assert(j < e);
        }
    }
}

/// Every token of a word that the lexer gives is the whole run of identifier
/// characters that starts with its first letter: `first_name` and `x1` are
/// one identifier each.
pub proof fn law_words_are_maximal(s: Seq<char>, i: int)
    ensures
        forall|k: int| 0 <= k < items_from(s, i).len() && (#[trigger] items_from(s, i)[k]) is Ok
            ==> word_is_maximal(s, items_from(s, i)[k]->Ok_0),
    decreases s.len() - i,
{
    if 0 <= i <= s.len() {
        let item = next_item(s, i).0;
        lemma_next_word_is_maximal(s, i);
        if at_end(s, i) {
            assert(items_from(s, i) == seq![item]);
        } else {
            lemma_next_item_advances(s, i);
            let rest = items_from(s, next_item(s, i).1);
            law_words_are_maximal(s, next_item(s, i).1);
            assert(items_from(s, i) == seq![item] + rest);
            assert forall|k: int| 0 <= k < items_from(s, i).len() && (#[trigger] items_from(s, i)[k]) is Ok
                implies word_is_maximal(s, items_from(s, i)[k]->Ok_0) by {
                if k > 0 {
                    assert(items_from(s, i)[k] == rest[k - 1]);
                }
            }
        }
    }
}

/// The laws of a lexing of `s` into `items`: it ends with the one
/// end-of-file token, with no text, at the end of the source; every token's
/// text is the source at its location; an unexpected character stands at
/// its error's location; a string literal carries its text without the
/// quotes; a word is the whole run of identifier characters from its first
/// letter; and the items stand in source order, without overlap and with
/// strictly increasing offsets.
pub open spec fn lexer_laws(s: Seq<char>, items: Seq<Result<TokenView, LexingErrorView>>) -> bool {
    &&& items.len() >= 1
    &&& items.last() == Ok::<TokenView, LexingErrorView>(
        token_at(s, TokenKind::EndOfFile, None, s.len() as int, s.len() as int),
    )
    &&& forall|k: int| 0 <= k < items.len() - 1 ==> !is_end_of_file(#[trigger] items[k])
    &&& forall|k: int| 0 <= k < items.len() && (#[trigger] items[k]) is Ok ==> covers(s, items[k]->Ok_0)
    &&& forall|k: int| 0 <= k < items.len() && (#[trigger] items[k]) is Err
        ==> unexpected_at_location(s, items[k]->Err_0)
    &&& forall|k: int| 0 <= k < items.len() && (#[trigger] items[k]) is Ok ==> string_literal_unquoted(items[k]->Ok_0)
    &&& forall|k: int| 0 <= k < items.len() && (#[trigger] items[k]) is Ok ==> word_is_maximal(s, items[k]->Ok_0)
    &&& forall|k: int, m: int|
        0 <= k < m < items.len() ==> item_location(#[trigger] items[k]).offset + item_location(items[k]).length
            <= item_location(#[trigger] items[m]).offset
    &&& forall|k: int, m: int|
        0 <= k < m < items.len() ==> item_location(#[trigger] items[k]).offset < item_location(#[trigger] items[m]).offset
}

/// Lexing a source obeys the laws of lexing.
pub proof fn law_lexing(s: Seq<char>)
    requires
        byte_len(s) <= usize::MAX,
    ensures
        lexer_laws(s, spec_tokenize(s)),
{
    law_items_in_source_order(s, 0);
    law_single_end_of_file_at_end(s, 0);
    law_token_text_is_source_at_location(s, 0);
    lemma_items_facts(s, 0);
    law_words_are_maximal(s, 0);
}

/// All items of lexing `source`, as the repeated calls of `Tokens::next`
/// from a fresh lexer give them until it gives nothing; they obey the laws
/// of lexing.
pub fn tokenize_all(source: &str) -> (items: Vec<Result<Token, LexingError>>)
    requires
        byte_len(source@) <= usize::MAX,
    ensures
        items_view(items@) == spec_tokenize(source@),
        lexer_laws(source@, items_view(items@)),
{
    proof {
        law_lexing(source@);
    }
    source.tokenize().collect()
}

} // verus!
