//! Strings as sequences of characters: the operations that the rest of the crate needs, each
//! stated over the characters of its arguments.

use vstd::prelude::*;

use crate::chars::{
    ascii_digit, ascii_letter, ascii_lower, is_ascii_digit, is_ascii_letter,
    to_ascii_lower, whitespace_char,
};

verus! {

/// `String::push` puts one character at the end of the string.
pub assume_specification[ String::push ](s: &mut String, ch: char)
    ensures
        final(s)@ == old(s)@.push(ch),
;

/// `String::pop` takes the last character off the string and returns it; it returns `None`
/// and leaves the string as it is where there is none.
pub assume_specification[ String::pop ](s: &mut String) -> (r: Option<char>)
    ensures
        old(s)@.len() == 0 ==> r is None && final(s)@ == old(s)@,
        old(s)@.len() > 0 ==> r == Some(old(s)@.last()) && final(s)@ == old(s)@.drop_last(),
;

/// Every ASCII capital of `s` turned into its small letter.
pub open spec fn lower(s: Seq<char>) -> Seq<char> {
    s.map_values(|ch: char| ascii_lower(ch))
}

/// The ASCII letters of `s`, in order and in lower case.
pub open spec fn letters(s: Seq<char>) -> Seq<char> {
    lower(s.filter(|ch: char| ascii_letter(ch)))
}

/// Some character of `s` is an ASCII letter.
pub open spec fn has_letter(s: Seq<char>) -> bool {
    exists|i: int| 0 <= i < s.len() && ascii_letter(#[trigger] s[i])
}

/// `s` begins with `prefix`.
pub open spec fn begins_with(s: Seq<char>, prefix: Seq<char>) -> bool {
    prefix.len() <= s.len() && s.take(prefix.len() as int) == prefix
}

/// `s` ends with `suffix`.
pub open spec fn finishes_with(s: Seq<char>, suffix: Seq<char>) -> bool {
    suffix.len() <= s.len() && s.skip(s.len() - suffix.len()) == suffix
}

/// `s` without the white space at its end.
pub open spec fn trim_end(s: Seq<char>) -> Seq<char>
    decreases s.len(),
{
    if s.len() > 0 && whitespace_char(s.last()) {
        trim_end(s.drop_last())
    } else {
        s
    }
}

/// `s` without the white space at its start.
pub open spec fn trim_start(s: Seq<char>) -> Seq<char>
    decreases s.len(),
{
    if s.len() > 0 && whitespace_char(s[0]) {
        trim_start(s.drop_first())
    } else {
        s
    }
}

/// The characters of `s`.
pub fn to_chars(s: &str) -> (r: Vec<char>)
    ensures
        r@ == s@,
{
    let mut out: Vec<char> = Vec::new();
    for ch in it: s.chars()
        invariant
            it.seq() == s@,
            out@ == s@.take(it.index() as int),
    {
        proof {
            assert(s@.take(it.index() + 1) =~= s@.take(it.index() as int).push(ch));
        }
        out.push(ch);
    }
    proof {
        assert(s@.take(s@.len() as int) =~= s@);
    }
    out
}

/// The string made of the single character `ch`.
pub fn from_char(ch: char) -> (r: String)
    ensures
        r@ == seq![ch],
{
    let mut out = String::new();
    out.push(ch);
    out
}

/// `first` followed by `second`.
pub fn join(first: &str, second: &str) -> (r: String)
    ensures
        r@ == first@ + second@,
{
    let mut out = first.to_owned();
    out.append(second);
    out
}

/// The number of characters of `s`.
pub fn char_count(s: &str) -> (r: usize)
    ensures
        r == s@.len(),
{
    s.unicode_len()
}

/// Do two strings hold the same characters?
pub fn same(a: &str, b: &str) -> (r: bool)
    ensures
        r == (a@ == b@),
{
    same_chars(&to_chars(a), &to_chars(b))
}

/// Do two slices hold the same characters?
pub fn same_chars(a: &[char], b: &[char]) -> (r: bool)
    ensures
        r == (a@ == b@),
{
    if a.len() != b.len() {
        return false;
    }
    let mut i: usize = 0;
    while i < a.len()
        invariant
            i <= a.len(),
            a.len() == b.len(),
            forall|j: int| 0 <= j < i ==> a@[j] == b@[j],
        decreases a.len() - i,
    {
        if a[i] != b[i] {
            assert(a@[i as int] != b@[i as int]);
            return false;
        }
        i += 1;
    }
    assert(a@ =~= b@);
    true
}

/// Does `s` hold the character `ch`?
pub fn contains_char(s: &str, ch: char) -> (r: bool)
    ensures
        r == s@.contains(ch),
{
    let chars = to_chars(s);
    let mut i: usize = 0;
    while i < chars.len()
        invariant
            i <= chars.len(),
            chars@ == s@,
            forall|j: int| 0 <= j < i ==> chars@[j] != ch,
        decreases chars.len() - i,
    {
        if chars[i] == ch {
            assert(chars@[i as int] == ch);
            return true;
        }
        i += 1;
    }
    false
}

/// The characters of `s` from position `from` up to, not including, position `to`.
pub fn slice(s: &str, from: usize, to: usize) -> (r: String)
    requires
        from <= to <= s@.len(),
    ensures
        r@ == s@.subrange(from as int, to as int),
{
    s.substring_char(from, to).to_owned()
}

/// Does `s` begin with `prefix`?
pub fn starts_with(s: &str, prefix: &str) -> (r: bool)
    ensures
        r == begins_with(s@, prefix@),
{
    let n = char_count(prefix);
    n <= char_count(s) && same(s.substring_char(0, n), prefix)
}

/// Does `s` end with `suffix`?
pub fn ends_with(s: &str, suffix: &str) -> (r: bool)
    ensures
        r == finishes_with(s@, suffix@),
{
    let n = char_count(s);
    let m = char_count(suffix);
    m <= n && same(s.substring_char(n - m, n), suffix)
}

/// Does some character of `s` belong to the ASCII letters?
pub fn any_letter(s: &str) -> (r: bool)
    ensures
        r == has_letter(s@),
{
    let chars = to_chars(s);
    let mut i: usize = 0;
    while i < chars.len()
        invariant
            i <= chars.len(),
            chars@ == s@,
            forall|j: int| 0 <= j < i ==> !ascii_letter(#[trigger] chars@[j]),
        decreases chars.len() - i,
    {
        if is_ascii_letter(chars[i]) {
            assert(ascii_letter(chars@[i as int]));
            return true;
        }
        i += 1;
    }
    false
}

/// Filtering one more character of `s`.
pub proof fn lemma_filter_take(s: Seq<char>, i: int, keep: spec_fn(char) -> bool)
    requires
        0 <= i < s.len(),
    ensures
        s.take(i + 1).filter(keep) == if keep(s[i]) {
            s.take(i).filter(keep).push(s[i])
        } else {
            s.take(i).filter(keep)
        },
{
    reveal(Seq::filter);
    assert(s.take(i + 1).drop_last() =~= s.take(i));
}

/// The ASCII letters of `s`, in order and in lower case.
pub fn letters_of(s: &str) -> (r: Vec<char>)
    ensures
        r@ == letters(s@),
{
    let ghost keep = |ch: char| ascii_letter(ch);
    let chars = to_chars(s);
    let mut out: Vec<char> = Vec::new();
    let mut i: usize = 0;
    proof {
        reveal(Seq::filter);
        assert(lower(chars@.take(0).filter(keep)) =~= Seq::<char>::empty());
    }
    while i < chars.len()
        invariant
            i <= chars.len(),
            keep == (|ch: char| ascii_letter(ch)),
            out@ == lower(chars@.take(i as int).filter(keep)),
        decreases chars.len() - i,
    {
        proof {
            lemma_filter_take(chars@, i as int, keep);
            let before = chars@.take(i as int).filter(keep);
            assert(lower(before.push(chars@[i as int])) =~= lower(before).push(
                ascii_lower(chars@[i as int]),
            ));
        }
        if is_ascii_letter(chars[i]) {
            out.push(to_ascii_lower(chars[i]));
        }
        i += 1;
    }
    assert(chars@.take(chars@.len() as int) =~= chars@);
    out
}

/// How `{:?}` shows a character.
pub uninterp spec fn char_debug(ch: char) -> Seq<char>;

/// How `{:?}` shows a string.
pub uninterp spec fn str_debug(s: Seq<char>) -> Seq<char>;

/// `format!("{:?}")` of a character, as `char`'s `Debug` writes it. Nothing more is claimed
/// of it than that it depends on the character alone.
#[verifier::external_body]
pub(crate) fn debug_char(ch: char) -> (r: String)
    ensures
        r@ == char_debug(ch),
{
    format!("{:?}", ch)
}

/// `format!("{:?}")` of a string, as `str`'s `Debug` writes it. Nothing more is claimed of
/// it than that it depends on the characters alone.
#[verifier::external_body]
pub(crate) fn debug_str(s: &str) -> (r: String)
    ensures
        r@ == str_debug(s@),
{
    format!("{:?}", s)
}

/// The digit that stands for `n`, which is less than ten.
pub open spec fn digit(n: nat) -> char {
    ('0' as u32 + n) as char
}

/// The decimal digits of `n`.
pub open spec fn decimal(n: nat) -> Seq<char>
    decreases n,
{
    if n < 10 {
        seq![digit(n)]
    } else {
        decimal(n / 10).push(digit(n % 10))
    }
}

/// The decimal digits of `n`.
pub fn decimal_of(n: usize) -> (r: String)
    ensures
        r@ == decimal(n as nat),
    decreases n,
{
    if n < 10 {
        from_char((48u8 + n as u8) as char)
    } else {
        let mut out = decimal_of(n / 10);
        out.push((48u8 + (n % 10) as u8) as char);
        out
    }
}

/// The digits of `n`, with a minus before them where it is negative.
pub open spec fn signed_decimal(n: int) -> Seq<char> {
    if n < 0 {
        "-"@ + decimal((-n) as nat)
    } else {
        decimal(n as nat)
    }
}

/// The digits of `n`, with a minus before them where it is negative.
pub fn signed_decimal_of(n: i32) -> (r: String)
    ensures
        r@ == signed_decimal(n as int),
{
    if n < 0 {
        join("-", &decimal_of((-(n as i64)) as usize))
    } else {
        decimal_of(n as usize)
    }
}

/// Every character of `s` is an ASCII digit, and there is at least one.
pub open spec fn all_digits(s: Seq<char>) -> bool {
    s.len() > 0 && forall|i: int| 0 <= i < s.len() ==> ascii_digit(#[trigger] s[i])
}

/// The number that a sequence of digits stands for.
pub open spec fn digits_value(s: Seq<char>) -> nat
    decreases s.len(),
{
    if s.len() == 0 {
        0
    } else {
        digits_value(s.drop_last()) * 10 + (s.last() as nat - '0' as nat) as nat
    }
}

/// The value of `s` as an integer: digits, with one `+` before them or none.
pub open spec fn unsigned_value(s: Seq<char>) -> Option<int> {
    let digits = if s.len() > 0 && s[0] == '+' {
        s.drop_first()
    } else {
        s
    };
    if all_digits(digits) {
        Some(digits_value(digits) as int)
    } else {
        None
    }
}

/// The value of `s` as an integer: digits, with one `+` or one `-` before them or none.
pub open spec fn signed_value(s: Seq<char>) -> Option<int> {
    if s.len() > 0 && s[0] == '-' {
        if all_digits(s.drop_first()) {
            Some(-(digits_value(s.drop_first()) as int))
        } else {
            None
        }
    } else {
        unsigned_value(s)
    }
}

/// The number that `chars` from `start` on stands for, if it is made of digits and at most
/// `limit`.
fn parse_digits(chars: &[char], start: usize, limit: u64) -> (r: Option<u64>)
    requires
        start <= chars@.len(),
    ensures
        r is Some <==> all_digits(chars@.skip(start as int)) && digits_value(
            chars@.skip(start as int),
        ) <= limit,
        r is Some ==> r->0 == digits_value(chars@.skip(start as int)),
{
    let ghost digits = chars@.skip(start as int);
    if start == chars.len() {
        return None;
    }
    let mut value: u64 = 0;
    let mut within = true;
    let mut i: usize = start;
    while i < chars.len()
        invariant
            start <= i <= chars.len(),
            digits == chars@.skip(start as int),
            forall|j: int| 0 <= j < i - start ==> ascii_digit(#[trigger] digits[j]),
            within ==> value == digits_value(digits.take(i - start)) && value <= limit,
            !within ==> digits_value(digits.take(i - start)) > limit,
        decreases chars.len() - i,
    {
        let ch = chars[i];
        proof {
            assert(digits[i - start] == ch);
            assert(digits.take(i - start + 1).drop_last() =~= digits.take(i - start));
        }
        if !is_ascii_digit(ch) {
            return None;
        }
        let digit: u64 = (ch as u8 - 48u8) as u64;
        if within {
            if value <= limit / 10 && value * 10 <= limit && digit <= limit - value * 10 {
                value = value * 10 + digit;
            } else {
                within = false;
            }
        }
        i += 1;
    }
    proof {
        assert(digits.take(digits.len() as int) =~= digits);
    }
    if within {
        Some(value)
    } else {
        None
    }
}

/// Reads `value` as a `usize`, as `str::parse` does: digits, with a `+` before them or not.
pub fn read_usize(value: &str) -> (r: Option<usize>)
    ensures
        r is Some <==> unsigned_value(value@) is Some && unsigned_value(value@)->0 <= usize::MAX,
        r is Some ==> r->0 == unsigned_value(value@)->0,
{
    let chars = to_chars(value);
    let start: usize = if chars.len() > 0 && chars[0] == '+' {
        1
    } else {
        0
    };
    proof {
        assert(chars@.skip(0) =~= chars@);
        assert(chars.len() > 0 ==> chars@.skip(1) =~= chars@.drop_first());
    }
    match parse_digits(&chars, start, usize::MAX as u64) {
        Some(n) => Some(n as usize),
        None => None,
    }
}

/// Reads `value` as an `i32`, as `str::parse` does: digits, with a sign before them or not.
pub fn read_i32(value: &str) -> (r: Option<i32>)
    ensures
        r is Some <==> signed_value(value@) is Some && i32::MIN <= signed_value(value@)->0
            <= i32::MAX,
        r is Some ==> r->0 == signed_value(value@)->0,
{
    let chars = to_chars(value);
    proof {
        assert(chars@.skip(0) =~= chars@);
        assert(chars.len() > 0 ==> chars@.skip(1) =~= chars@.drop_first());
    }
    if chars.len() > 0 && chars[0] == '-' {
        match parse_digits(&chars, 1, 0x8000_0000) {
            Some(n) => Some((-(n as i64)) as i32),
            None => None,
        }
    } else {
        let start: usize = if chars.len() > 0 && chars[0] == '+' {
            1
        } else {
            0
        };
        match parse_digits(&chars, start, 0x7fff_ffff) {
            Some(n) => Some(n as i32),
            None => None,
        }
    }
}

} // verus!
