//! Character-level building blocks shared by the codec: conversion between
//! strings and character vectors, decimal numerals, and case-insensitive
//! keyword matching.

use vstd::prelude::*;

verus! {

/// The characters of `s`, in order.
pub fn chars_of(s: &str) -> (v: Vec<char>)
    ensures
        v@ == s@,
{
    let mut v: Vec<char> = Vec::new();
    for c in it: s.chars()
        invariant
            it.seq() == s@,
            v@ == it.seq().take(it.index() as int),
    {
        v.push(c);
    }
    v
}

/// Appends the characters of `s` to `out`.
pub fn push_str(out: &mut Vec<char>, s: &str)
    ensures
        final(out)@ == old(out)@ + s@,
{
    let ghost before = out@;
    for c in it: s.chars()
        invariant
            it.seq() == s@,
            out@ == before + it.seq().take(it.index() as int),
    {
        out.push(c);
    }
}

/// The texts of the strings of `lines`, in order.
pub open spec fn texts(lines: Seq<String>) -> Seq<Seq<char>> {
    Seq::new(lines.len(), |i: int| lines[i]@)
}

/// Builds the string made of the characters of `v`.
///
/// Trusted: `String::from_iter` on a vector of characters yields the string
/// that holds exactly those characters, in order.
#[verifier::external_body]
pub(crate) fn string_from_chars(v: Vec<char>) -> (s: String)
    ensures
        s@ == v@,
{
    String::from_iter(v)
}

/// A copy of the characters of `src` from position `from` up to, and without,
/// position `to`.
pub fn copy_range(src: &Vec<char>, from: usize, to: usize) -> (v: Vec<char>)
    requires
        from <= to <= src.len(),
    ensures
        v@ == src@.subrange(from as int, to as int),
{
    let mut v: Vec<char> = Vec::new();
    let mut i: usize = from;
    while i < to
        invariant
            from <= i <= to <= src.len(),
            v@ == src@.subrange(from as int, i as int),
        decreases to - i,
    {
        v.push(src[i]);
        i += 1;
    }
    v
}

/// The number of characters at the start of `s` that all satisfy `p`.
pub open spec fn run(s: Seq<char>, p: spec_fn(char) -> bool) -> nat
    decreases s.len(),
{
    if s.len() > 0 && p(s[0]) {
        1 + run(s.skip(1), p)
    } else {
        0
    }
}

/// A run lies within the text, every character in it satisfies `p`, and the
/// character that follows it, if there is one, does not.
pub proof fn lemma_run(s: Seq<char>, p: spec_fn(char) -> bool)
    ensures
        run(s, p) <= s.len(),
        forall|i: int| 0 <= i < run(s, p) ==> p(#[trigger] s[i]),
        run(s, p) < s.len() ==> !p(s[run(s, p) as int]),
    decreases s.len(),
{
    if s.len() > 0 && p(s[0]) {
        let t = s.skip(1);
        lemma_run(t, p);
        assert forall|i: int| 0 <= i < run(s, p) implies p(#[trigger] s[i]) by {
            if i > 0 {
                assert(s[i] == t[i - 1]);
            }
        }
    }
}

/// The run is the only prefix of characters satisfying `p` that is followed
/// by the end of the text or by a character that does not satisfy `p`.
pub proof fn lemma_run_is(s: Seq<char>, p: spec_fn(char) -> bool, n: int)
    requires
        0 <= n <= s.len(),
        forall|i: int| 0 <= i < n ==> p(#[trigger] s[i]),
        n == s.len() || !p(s[n]),
    ensures
        run(s, p) == n,
    decreases s.len(),
{
    if n > 0 {
        let t = s.skip(1);
        lemma_run_is(t, p, n - 1);
    }
}

/// Whether `x` is a Unicode scalar value, that is, the code of some `char`.
pub open spec fn is_scalar_value(x: int) -> bool {
    0 <= x < 0xD800 || 0xE000 <= x <= 0x10FFFF
}

/// The character with code `x`, if there is one.
///
/// Trusted: `char::from_u32` returns the character whose code is `x` when
/// `x` is a Unicode scalar value, and `None` for a surrogate or a value above
/// `0x10FFFF`.
#[verifier::external_body]
pub(crate) fn char_from_code(x: u32) -> (r: Option<char>)
    ensures
        r == (if is_scalar_value(x as int) {
            Some(x as char)
        } else {
            None::<char>
        }),
{
    char::from_u32(x)
}

/// Whether `c` is one of `0` to `9`.
pub open spec fn is_digit(c: char) -> bool {
    '0' <= c && c <= '9'
}

/// The number that the digit `c` stands for; `0` for any other character.
pub open spec fn digit_value(c: char) -> nat {
    if is_digit(c) {
        (c as u32 - '0' as u32) as nat
    } else {
        0
    }
}

/// The character for the digit `d`.
pub open spec fn digit_char(d: nat) -> char
    recommends
        d < 10,
{
    (('0' as u8) + d) as char
}

/// The decimal numeral of `n`, without sign or leading zeros.
pub open spec fn decimal(n: nat) -> Seq<char>
    decreases n,
{
    if n < 10 {
        seq![digit_char(n)]
    } else {
        decimal(n / 10).push(digit_char(n % 10))
    }
}

/// Whether every character of `s` is a digit.
pub open spec fn all_digits(s: Seq<char>) -> bool {
    forall|i: int| 0 <= i < s.len() ==> is_digit(#[trigger] s[i])
}

/// Whether `s` is a non-empty run of digits.
pub open spec fn is_numeral(s: Seq<char>) -> bool {
    s.len() > 0 && all_digits(s)
}

/// The number that the digits of `s` denote in base ten.
pub open spec fn numeral_value(s: Seq<char>) -> nat
    decreases s.len(),
{
    if s.len() == 0 {
        0
    } else {
        10 * numeral_value(s.drop_last()) + digit_value(s.last())
    }
}

/// The number written by `s` as an unsigned 32-bit integer: one or more
/// digits and nothing else, with a value of at most `u32::MAX`.
pub open spec fn unsigned_value(s: Seq<char>) -> Option<u32> {
    if is_numeral(s) && numeral_value(s) <= u32::MAX {
        Some(numeral_value(s) as u32)
    } else {
        None
    }
}

/// The number written by `s` as a signed 32-bit integer: an optional `+` or
/// `-`, then one or more digits, with a value between `i32::MIN` and
/// `i32::MAX`.
pub open spec fn signed_value(s: Seq<char>) -> Option<i32> {
    if s.len() > 0 && s[0] == '-' {
        let digits = s.skip(1);
        if is_numeral(digits) && numeral_value(digits) <= 0x8000_0000 {
            Some((-(numeral_value(digits) as int)) as i32)
        } else {
            None
        }
    } else {
        let digits = if s.len() > 0 && s[0] == '+' {
            s.skip(1)
        } else {
            s
        };
        if is_numeral(digits) && numeral_value(digits) <= i32::MAX {
            Some(numeral_value(digits) as i32)
        } else {
            None
        }
    }
}

/// A numeral is worth at least as much as any of its prefixes.
pub proof fn lemma_value_of_prefix(s: Seq<char>, k: int)
    requires
        0 <= k <= s.len(),
    ensures
        numeral_value(s.take(k)) <= numeral_value(s),
    decreases s.len(),
{
    if k == s.len() {
        assert(s.take(k) =~= s);
    } else {
        assert(s.drop_last().take(k) =~= s.take(k));
        lemma_value_of_prefix(s.drop_last(), k);
    }
}

/// The decimal numeral of a number is a non-empty run of digits that denotes
/// that number, and it starts with `0` only for zero itself.
pub proof fn lemma_decimal_value(n: nat)
    ensures
        is_numeral(decimal(n)),
        numeral_value(decimal(n)) == n,
        n > 0 ==> decimal(n)[0] != '0',
        n < 10 <==> decimal(n).len() == 1,
        n < 100 ==> decimal(n).len() <= 2,
    decreases n,
{
    if n < 10 {
        let s = decimal(n);
        assert(numeral_value(s.drop_last()) == 0);
    } else {
        lemma_decimal_value(n / 10);
        let s = decimal(n);
        let p = decimal(n / 10);
        assert(s.drop_last() =~= p);
    }
}

/// Appends the decimal numeral of `n` to `out`.
pub fn push_decimal(out: &mut Vec<char>, n: u32)
    ensures
        final(out)@ == old(out)@ + decimal(n as nat),
    decreases n,
{
    if n >= 10 {
        push_decimal(out, n / 10);
    }
    let d: u8 = (n % 10) as u8;
    out.push(('0' as u8 + d) as char);
}

/// Reads the digits of `s` from position `start` to the end as a number of
/// at most `limit`.
fn parse_digits(s: &Vec<char>, start: usize, limit: u64) -> (r: Option<u64>)
    requires
        start <= s.len(),
        limit <= 0xFFFF_FFFF,
    ensures
        r == (if is_numeral(s@.skip(start as int)) && numeral_value(s@.skip(start as int))
            <= limit {
            Some(numeral_value(s@.skip(start as int)) as u64)
        } else {
            None::<u64>
        }),
{
    let ghost digits = s@.skip(start as int);
    let mut acc: u64 = 0;
    let mut i: usize = start;
    while i < s.len()
        invariant
            start <= i <= s.len(),
            limit <= 0xFFFF_FFFF,
            digits == s@.skip(start as int),
            acc <= limit,
            acc == numeral_value(digits.take(i - start)),
            all_digits(digits.take(i - start)),
        decreases s.len() - i,
    {
        let c = s[i];
        let ghost next = digits.take(i - start + 1);
        proof {
            assert(digits[i - start] == c);
            assert(next.drop_last() =~= digits.take(i - start));
        }
        if !('0' <= c && c <= '9') {
            return None;
        }
        let d: u64 = (c as u32 - '0' as u32) as u64;
        let value: u64 = acc * 10 + d;
        proof {
            lemma_value_of_prefix(digits, i - start + 1);
        }
        if value > limit {
            return None;
        }
        acc = value;
        i += 1;
    }
    proof {
        assert(digits.take(i - start) =~= digits);
    }
    if i == start {
        None
    } else {
        Some(acc)
    }
}

/// Reads `s` as an unsigned 32-bit decimal number, written without a
/// sign.
pub fn parse_unsigned(s: &Vec<char>) -> (r: Option<u32>)
    ensures
        r == unsigned_value(s@),
{
    proof {
        assert(s@.skip(0) =~= s@);
    }
    match parse_digits(s, 0, 0xFFFF_FFFF) {
        Some(v) => Some(v as u32),
        None => None,
    }
}

/// Reads the characters of `s` from position `start` on as a signed 32-bit
/// decimal number.
pub fn parse_signed(s: &Vec<char>, start: usize) -> (r: Option<i32>)
    requires
        start <= s.len(),
    ensures
        r == signed_value(s@.skip(start as int)),
{
    let ghost t = s@.skip(start as int);
    proof {
        if t.len() > 0 {
            assert(t.skip(1) =~= s@.skip(start + 1));
        }
    }
    if start < s.len() && s[start] == '-' {
        match parse_digits(s, start + 1, 0x8000_0000) {
            Some(v) => if v == 0x8000_0000 {
                Some(i32::MIN)
            } else {
                Some(-(v as i32))
            },
            None => None,
        }
    } else {
        let from: usize = if start < s.len() && s[start] == '+' {
            start + 1
        } else {
            start
        };
        match parse_digits(s, from, 0x7FFF_FFFF) {
            Some(v) => Some(v as i32),
            None => None,
        }
    }
}

/// The lower-case form of an ASCII capital letter; any other character is
/// left as it is.
pub open spec fn fold_case(c: char) -> char {
    if 'A' <= c && c <= 'Z' {
        ((c as u8) + 32) as char
    } else {
        c
    }
}

/// Whether `s` spells `word` when the case of ASCII letters is ignored.
pub open spec fn spells(s: Seq<char>, word: Seq<char>) -> bool {
    &&& s.len() == word.len()
    &&& forall|i: int| 0 <= i < s.len() ==> fold_case(#[trigger] s[i]) == fold_case(word[i])
}

/// Tells whether `s` spells `word`, ignoring the case of ASCII letters.
pub fn spells_word(s: &Vec<char>, word: &str) -> (b: bool)
    ensures
        b == spells(s@, word@),
{
    let mut n: usize = 0;
    for c in it: word.chars()
        invariant
            it.seq() == word@,
            n == it.index(),
            n <= s.len(),
            forall|i: int| 0 <= i < n ==> fold_case(#[trigger] s[i]) == fold_case(word@[i]),
    {
        if n >= s.len() {
            return false;
        }
        if fold(s[n]) != fold(c) {
            return false;
        }
        n += 1;
    }
    n == s.len()
}

/// The lower-case form of `c` where it is an ASCII capital letter.
pub fn fold(c: char) -> (r: char)
    ensures
        r == fold_case(c),
{
    if 'A' <= c && c <= 'Z' {
        ((c as u8) + 32) as char
    } else {
        c
    }
}

} // verus!
