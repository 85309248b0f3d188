use vstd::prelude::*;

use crate::text::{is_digit, is_ascii_letter};

verus! {

/// Whether `char::is_alphabetic` holds of `c` (the Unicode Alphabetic property).
pub uninterp spec fn char_is_alphabetic(c: char) -> bool;

/// Whether `char::is_whitespace` holds of `c` (the Unicode White_Space property).
pub uninterp spec fn char_is_whitespace(c: char) -> bool;

/// Whether `char::is_numeric` holds of `c` (the Unicode Numeric property).
pub uninterp spec fn char_is_numeric(c: char) -> bool;

/// `char::is_numeric`. Trusted: the result is the named property of `c`;
/// the standard library documents that the ASCII digits have it.
#[verifier::external_body]
pub fn is_numeric(c: char) -> (b: bool)
    ensures
        b == char_is_numeric(c),
        is_digit(c) ==> b,
{
    c.is_numeric()
}

/// `char::is_alphabetic`. Trusted: the result is the named property of `c`;
/// the standard library documents that ASCII letters have it.
#[verifier::external_body]
pub fn is_alphabetic(c: char) -> (b: bool)
    ensures
        b == char_is_alphabetic(c),
        is_ascii_letter(c) ==> b,
{
    c.is_alphabetic()
}

/// `char::is_whitespace`. Trusted: the result is the named property of `c`;
/// the standard library documents that space and tab are white space.
#[verifier::external_body]
pub fn is_whitespace(c: char) -> (b: bool)
    ensures
        b == char_is_whitespace(c),
        c == ' ' || c == '\t' ==> b,
{
    c.is_whitespace()
}

/// The classes of characters that the lexer reads runs of.
#[derive(Clone, Copy, Debug, PartialEq, Eq, Structural)]
pub enum CharClass {
    /// ASCII digits.
    Digit,
    /// Characters of a word: alphabetic characters, '_' and ASCII digits.
    Word,
    /// White space and tabs.
    Space,
    /// Anything but '"'.
    NotQuote,
    /// Anything but a newline.
    NotNewline,
}

pub open spec fn in_class(c: char, k: CharClass) -> bool {
    match k {
        CharClass::Digit => is_digit(c),
        CharClass::Word => is_ascii_letter(c) || char_is_alphabetic(c) || c == '_' || is_digit(c),
        CharClass::Space => c == ' ' || char_is_whitespace(c) || c == '\t',
        CharClass::NotQuote => c != '"',
        CharClass::NotNewline => c != '\n',
    }
}

pub fn exec_in_class(c: char, k: CharClass) -> (b: bool)
    ensures
        b == in_class(c, k),
{
    match k {
        CharClass::Digit => '0' <= c && c <= '9',
        CharClass::Word => is_alphabetic(c) || c == '_' || ('0' <= c && c <= '9'),
        CharClass::Space => is_whitespace(c) || c == '\t',
        CharClass::NotQuote => c != '"',
        CharClass::NotNewline => c != '\n',
    }
}

/// The length of the longest prefix of `s` made of characters of class `k`.
pub open spec fn span(s: Seq<char>, k: CharClass) -> nat
    decreases s.len(),
{
    if s.len() > 0 && in_class(s[0], k) {
        1 + span(s.drop_first(), k)
    } else {
        0
    }
}

/// A run of class-`k` characters that ends at `m` (at the end, or before a character out of the class) is the span.
pub proof fn lemma_span_is(s: Seq<char>, k: CharClass, m: int)
    requires
        0 <= m <= s.len(),
        forall|j: int| 0 <= j < m ==> in_class(#[trigger] s[j], k),
        m == s.len() || !in_class(s[m], k),
    ensures
        span(s, k) == m,
    decreases m,
{
    if m > 0 {
        assert(in_class(s[0], k));
        lemma_span_is(s.drop_first(), k, m - 1);
    }
}

pub proof fn lemma_span_props(s: Seq<char>, k: CharClass)
    ensures
        span(s, k) <= s.len(),
        forall|j: int| 0 <= j < span(s, k) ==> in_class(#[trigger] s[j], k),
        span(s, k) < s.len() ==> !in_class(s[span(s, k) as int], k),
    decreases s.len(),
{
    if s.len() > 0 && in_class(s[0], k) {
        lemma_span_props(s.drop_first(), k);
        assert forall|j: int| 0 <= j < span(s, k) implies in_class(#[trigger] s[j], k) by {
            if j > 0 {
                assert(s[j] == s.drop_first()[j - 1]);
            }
        }
    }
}

/// The number of bytes of the UTF-8 encoding of `c`.
pub open spec fn utf8_width(c: char) -> nat {
    if (c as u32) < 0x80 {
        1
    } else if (c as u32) < 0x800 {
        2
    } else if (c as u32) < 0x10000 {
        3
    } else {
        4
    }
}

/// The number of bytes of the UTF-8 encoding of `s`.
pub open spec fn utf8_len(s: Seq<char>) -> nat
    decreases s.len(),
{
    if s.len() == 0 {
        0
    } else {
        utf8_len(s.drop_last()) + utf8_width(s.last())
    }
}

pub proof fn lemma_utf8_len_bound(s: Seq<char>)
    ensures
        utf8_len(s) <= 4 * s.len(),
    decreases s.len(),
{
    if s.len() > 0 {
        lemma_utf8_len_bound(s.drop_last());
    }
}

pub fn char_width(c: char) -> (w: usize)
    ensures
        w == utf8_width(c),
        1 <= w <= 4,
{
    let code = c as u32;
    if code < 0x80 {
        1
    } else if code < 0x800 {
        2
    } else if code < 0x10000 {
        3
    } else {
        4
    }
}

} // verus!
