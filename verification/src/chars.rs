use vstd::prelude::*;

verus! {

/// The number of bytes of the UTF-8 encoding of a character.
pub open spec fn utf8_len(c: char) -> int {
    if (c as u32) < 0x80 {
        1
    } else if (c as u32) < 0x800 {
        2
    } else if (c as u32) < 0x10000 {
        3
    } else {
        4
    }
}

/// The byte offset of the character at index `i` of `s` in its UTF-8
/// encoding: the number of bytes of `s[0..i]`.
pub open spec fn byte_offset(s: Seq<char>, i: int) -> int
    decreases i,
{
    if i <= 0 {
        0
    } else {
        byte_offset(s, i - 1) + utf8_len(s[i - 1])
    }
}

/// The byte length of the UTF-8 encoding of `s`.
pub open spec fn byte_len(s: Seq<char>) -> int {
    byte_offset(s, s.len() as int)
}

/// Byte offsets grow with the character index.
pub proof fn lemma_byte_offset_monotonic(s: Seq<char>, i: int, j: int)
    requires
        0 <= i <= j,
    ensures
        byte_offset(s, i) <= byte_offset(s, j),
        i < j ==> byte_offset(s, i) < byte_offset(s, j),
    decreases j - i,
{
    if i < j {
        lemma_byte_offset_monotonic(s, i, j - 1);
    }
}

/// A text has at least as many bytes as characters.
pub proof fn lemma_chars_within_bytes(s: Seq<char>, i: int)
    requires
        0 <= i <= s.len(),
    ensures
        i <= byte_offset(s, i),
    decreases i,
{
    if i > 0 {
        lemma_chars_within_bytes(s, i - 1);
    }
}

/// The byte length of a character, as `char::len_utf8` computes it.
pub fn char_len(c: char) -> (n: usize)
    ensures
        n == utf8_len(c),
{
    let code = c as u32;
    if code < 0x80 {
        1
    } else if code < 0x800 {
        2
    } else if code < 0x10000 {
        3
    } else {
        4
    }
}

/// Whether the byte length of `source` fits in `usize`, so that the byte
/// offsets into it can be counted; a verified caller tests it before lexing.
pub fn offsets_fit(source: &str) -> (fits: bool)
    ensures
        fits == (byte_len(source@) <= usize::MAX),
{
    let chars = crate::text::chars_of(source);
    let mut total: usize = 0;
    let mut k: usize = 0;
    while k < chars.len()
        invariant
            chars@ == source@,
            k <= chars@.len(),
            total == byte_offset(chars@, k as int),
        decreases chars.len() - k,
    {
        let n = char_len(chars[k]);
        match total.checked_add(n) {
            Some(t) => {
                total = t;
                k = k + 1;
            },
            None => {
                proof {
                    lemma_byte_offset_monotonic(chars@, k + 1, chars@.len() as int);
                }
                return false;
            },
        }
    }
    true
}

/// An ASCII decimal digit.
pub open spec fn is_digit(c: char) -> bool {
    0x30 <= (c as u32) <= 0x39
}

/// An ASCII letter.
pub open spec fn is_alphabetic(c: char) -> bool {
    (0x41 <= (c as u32) <= 0x5A) || (0x61 <= (c as u32) <= 0x7A)
}

/// A character that may start an identifier: a letter or `_`.
pub open spec fn is_identifier_start(c: char) -> bool {
    is_alphabetic(c) || c == '_'
}

/// A character that may continue an identifier: a letter, a digit or `_`.
pub open spec fn is_identifier_char(c: char) -> bool {
    is_identifier_start(c) || is_digit(c)
}

/// A white space character: one with the Unicode property `White_Space`, as
/// `char::is_whitespace` decides it.
pub open spec fn is_white_space(c: char) -> bool {
    let code = c as u32;
    (0x09 <= code <= 0x0D) || code == 0x20 || code == 0x85 || code == 0xA0 || code == 0x1680
        || (0x2000 <= code <= 0x200A) || code == 0x2028 || code == 0x2029 || code == 0x202F
        || code == 0x205F || code == 0x3000
}

pub fn digit(c: char) -> (b: bool)
    ensures
        b == is_digit(c),
{
    let code = c as u32;
    0x30 <= code && code <= 0x39
}

pub fn alphabetic(c: char) -> (b: bool)
    ensures
        b == is_alphabetic(c),
{
    let code = c as u32;
    (0x41 <= code && code <= 0x5A) || (0x61 <= code && code <= 0x7A)
}

pub fn identifier_start(c: char) -> (b: bool)
    ensures
        b == is_identifier_start(c),
{
    alphabetic(c) || c == '_'
}

pub fn identifier_char(c: char) -> (b: bool)
    ensures
        b == is_identifier_char(c),
{
    identifier_start(c) || digit(c)
}

pub fn white_space(c: char) -> (b: bool)
    ensures
        b == is_white_space(c),
{
    let code = c as u32;
    (0x09 <= code && code <= 0x0D) || code == 0x20 || code == 0x85 || code == 0xA0 || code
        == 0x1680 || (0x2000 <= code && code <= 0x200A) || code == 0x2028 || code == 0x2029
        || code == 0x202F || code == 0x205F || code == 0x3000
}

/// The string made of `chars[start..end]`.
pub fn string_from(chars: &Vec<char>, start: usize, end: usize) -> (s: String)
    requires
        start <= end <= chars@.len(),
    ensures
        s@ == chars@.subrange(start as int, end as int),
{
    let mut s = String::new();
    let mut k = start;
    while k < end
        invariant
            start <= k <= end <= chars@.len(),
            s@ == chars@.subrange(start as int, k as int),
        decreases end - k,
    {
        crate::text::push_char(&mut s, chars[k]);
        assert(chars@.subrange(start as int, k + 1) =~= chars@.subrange(start as int, k as int).push(chars@[k as int]));
        k = k + 1;
    }
    s
}

} // verus!
