use vstd::prelude::*;
use std::hash::{Hash, Hasher};

verus! {

/// The characters of a string, in order.
///
/// Trusted: calls `str::chars` and collects the characters; the standard
/// library documents that `chars` yields the string's characters in order.
#[verifier::external_body]
pub fn collect_chars(s: &str) -> (v: Vec<char>)
    ensures
        v@ == s@,
{
    s.chars().collect()
}

/// The string made of the given characters, in order.
///
/// Trusted: collects the characters into a `String` with `Iterator::collect`,
/// which the standard library documents as appending each character in turn.
#[verifier::external_body]
pub fn chars_to_string(v: &[char]) -> (s: String)
    ensures
        s@ == v@,
{
    v.iter().collect()
}

/// A copy of a string slice as an owned string.
pub fn str_to_string(s: &str) -> (r: String)
    ensures
        r@ == s@,
{
    let v = collect_chars(s);
    chars_to_string(v.as_slice())
}

/// Whether `c` is an ASCII decimal digit.
pub open spec fn is_digit(c: char) -> bool {
    '0' <= c <= '9'
}

/// Whether `c` is an ASCII letter.
pub open spec fn is_ascii_letter(c: char) -> bool {
    ('a' <= c <= 'z') || ('A' <= c <= 'Z')
}

pub fn exec_is_digit(c: char) -> (b: bool)
    ensures
        b == is_digit(c),
{
    '0' <= c && c <= '9'
}

pub fn exec_is_ascii_letter(c: char) -> (b: bool)
    ensures
        b == is_ascii_letter(c),
{
    ('a' <= c && c <= 'z') || ('A' <= c && c <= 'Z')
}

/// The value of a decimal digit.
pub open spec fn digit_value(c: char) -> nat {
    ((c as int) - ('0' as int)) as nat
}

/// The number that a sequence of decimal digits denotes.
pub open spec fn decimal_value(s: Seq<char>) -> nat
    decreases s.len(),
{
    if s.len() == 0 {
        0
    } else {
        decimal_value(s.drop_last()) * 10 + digit_value(s.last())
    }
}

/// The decimal text of a natural number, without leading zeros ("0" for zero).
pub open spec fn decimal_text(n: nat) -> Seq<char>
    decreases n,
{
    if n < 10 {
        seq![digit_char(n)]
    } else {
        decimal_text(n / 10).push(digit_char(n % 10))
    }
}

/// The character of a digit value below ten.
pub open spec fn digit_char(d: nat) -> char {
    (('0' as nat) + d) as char
}

proof fn lemma_digit_char(d: nat)
    requires
        d < 10,
    ensures
        is_digit(digit_char(d)),
        digit_value(digit_char(d)) == d,
{
}

/// The decimal text of a number is made of digits and denotes that number.
pub proof fn lemma_decimal_text(n: nat)
    ensures
        decimal_value(decimal_text(n)) == n,
        decimal_text(n).len() >= 1,
        forall|i: int| 0 <= i < decimal_text(n).len() ==> is_digit(#[trigger] decimal_text(n)[i]),
    decreases n,
{
    if n < 10 {
        lemma_digit_char(n);
        assert(decimal_text(n).drop_last() =~= Seq::<char>::empty());
        assert(decimal_value(Seq::<char>::empty()) == 0);
        assert(decimal_value(decimal_text(n)) == decimal_value(Seq::<char>::empty()) * 10 + n);
    } else {
        lemma_decimal_text(n / 10);
        lemma_digit_char(n % 10);
        let t = decimal_text(n);
        assert(t.drop_last() =~= decimal_text(n / 10));
        assert(forall|i: int| 0 <= i < t.len() - 1 ==> t[i] == decimal_text(n / 10)[i]);
        assert((n / 10) * 10 + n % 10 == n) by (nonlinear_arith);
        assert(t.last() == digit_char(n % 10));
        assert(decimal_value(t) == decimal_value(t.drop_last()) * 10 + digit_value(t.last()));
    }
}

/// Renders a natural number in decimal.
pub fn u64_to_decimal(n: u64) -> (s: Vec<char>)
    ensures
        s@ == decimal_text(n as nat),
    decreases n,
{
    if n < 10 {
        let c = (('0' as u8) + (n as u8)) as char;
        let mut v = Vec::new();
        v.push(c);
        assert(v@ =~= decimal_text(n as nat));
        v
    } else {
        let mut v = u64_to_decimal(n / 10);
        let d = n % 10;
        let c = (('0' as u8) + (d as u8)) as char;
        v.push(c);
        assert(v@ =~= decimal_text(n as nat));
        v
    }
}

/// The decimal text of an integer, with a leading '-' when it is negative.
pub open spec fn signed_decimal_text(v: int) -> Seq<char> {
    if v < 0 {
        seq!['-'] + decimal_text((-v) as nat)
    } else {
        decimal_text(v as nat)
    }
}

/// Renders an integer in decimal.
pub fn i64_to_decimal(v: i64) -> (s: Vec<char>)
    ensures
        s@ == signed_decimal_text(v as int),
{
    if v < 0 {
        let magnitude: u64 = if v == i64::MIN {
            9223372036854775808u64
        } else {
            (-v) as u64
        };
        let digits = u64_to_decimal(magnitude);
        let mut s = Vec::new();
        s.push('-');
        let mut i: usize = 0;
        while i < digits.len()
            invariant
                0 <= i <= digits.len(),
                s@ =~= seq!['-'] + digits@.take(i as int),
            decreases digits.len() - i,
        {
            s.push(digits[i]);
            i = i + 1;
            assert(digits@.take(i as int) =~= digits@.take(i - 1).push(digits@[i - 1]));
        }
        assert(digits@.take(digits.len() as int) =~= digits@);
        s
    } else {
        u64_to_decimal(v as u64)
    }
}

/// Appends all of `extra` to `v`.
pub fn push_all(v: &mut Vec<char>, extra: &[char])
    ensures
        final(v)@ == old(v)@ + extra@,
{
    let mut i: usize = 0;
    while i < extra.len()
        invariant
            0 <= i <= extra.len(),
            v@ =~= old(v)@ + extra@.take(i as int),
        decreases extra.len() - i,
    {
        v.push(extra[i]);
        i = i + 1;
        assert(extra@.take(i as int) =~= extra@.take(i - 1).push(extra@[i - 1]));
    }
    assert(extra@.take(extra.len() as int) =~= extra@);
}

/// Appends the characters of `s` to `v`.
pub fn push_str(v: &mut Vec<char>, s: &str)
    ensures
        final(v)@ == old(v)@ + s@,
{
    let cs = collect_chars(s);
    push_all(v, cs.as_slice());
}

/// The hash that `DefaultHasher` gives a string.
pub uninterp spec fn str_hash(s: Seq<char>) -> u64;

/// The hash of a string's contents under `DefaultHasher`.
///
/// Trusted: hashes the string with `std::collections::hash_map::DefaultHasher::new()`
/// (whose keys are fixed, not drawn per process); the result is named `str_hash`.
#[verifier::external_body]
pub(crate) fn string_hash(s: &String) -> (h: u64)
    ensures
        h == str_hash(s@),
{
    let mut hasher = std::collections::hash_map::DefaultHasher::new();
    s.hash(&mut hasher);
    hasher.finish()
}

} // verus!
