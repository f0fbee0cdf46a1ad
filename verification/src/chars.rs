//! Character classes.

use vstd::prelude::*;

verus! {

/// `ch` is one of `a` to `z` or `A` to `Z`.
pub open spec fn ascii_letter(ch: char) -> bool {
    'a' <= ch <= 'z' || 'A' <= ch <= 'Z'
}

/// `ch` is one of `0` to `9`.
pub open spec fn ascii_digit(ch: char) -> bool {
    '0' <= ch <= '9'
}

/// The characters that pinyin is written with: ASCII letters and the apostrophe that
/// separates syllables.
pub open spec fn pinyin_char(ch: char) -> bool {
    ascii_letter(ch) || ch == '\''
}

/// `ch` with an ASCII capital letter turned into its small letter.
pub open spec fn ascii_lower(ch: char) -> char {
    if 'A' <= ch <= 'Z' {
        (ch as u32 + 32) as char
    } else {
        ch
    }
}

/// The Unicode control characters (general category `Cc`).
pub open spec fn control_char(ch: char) -> bool {
    ch <= '\u{1f}' || '\u{7f}' <= ch <= '\u{9f}'
}

/// The Unicode white space characters (property `White_Space`).
pub open spec fn whitespace_char(ch: char) -> bool {
    ||| '\u{9}' <= ch <= '\u{d}'
    ||| ch == ' '
    ||| ch == '\u{85}'
    ||| ch == '\u{a0}'
    ||| ch == '\u{1680}'
    ||| '\u{2000}' <= ch <= '\u{200a}'
    ||| ch == '\u{2028}'
    ||| ch == '\u{2029}'
    ||| ch == '\u{202f}'
    ||| ch == '\u{205f}'
    ||| ch == '\u{3000}'
}

/// Punctuation that separates pinyin runs and therefore cannot be part of a trigger: comma,
/// period, question mark, exclamation mark, minus, plus, tilde, ellipsis and double quote,
/// with their Chinese and full-width forms.
pub open spec fn reserved_separator(ch: char) -> bool {
    ||| ch == ',' || ch == '，'
    ||| ch == '.' || ch == '。'
    ||| ch == '?' || ch == '？'
    ||| ch == '!' || ch == '！'
    ||| ch == '-' || ch == '－'
    ||| ch == '+' || ch == '＋'
    ||| ch == '~' || ch == '～' || ch == '〜'
    ||| ch == '…'
    ||| ch == '"' || ch == '“' || ch == '”' || ch == '＂'
}

/// Is `ch` an ASCII letter?
pub fn is_ascii_letter(ch: char) -> (r: bool)
    ensures
        r == ascii_letter(ch),
{
    ('a' <= ch && ch <= 'z') || ('A' <= ch && ch <= 'Z')
}

/// Is `ch` an ASCII digit?
pub fn is_ascii_digit(ch: char) -> (r: bool)
    ensures
        r == ascii_digit(ch),
{
    '0' <= ch && ch <= '9'
}

/// Can `ch` be part of pinyin?
pub fn is_pinyin_char(ch: char) -> (r: bool)
    ensures
        r == pinyin_char(ch),
{
    is_ascii_letter(ch) || ch == '\''
}

/// The small letter of an ASCII capital, any other character unchanged.
pub fn to_ascii_lower(ch: char) -> (r: char)
    ensures
        r == ascii_lower(ch),
{
    if 'A' <= ch && ch <= 'Z' {
        (ch as u8 + 32) as char
    } else {
        ch
    }
}

/// Is `ch` a control character?
pub fn is_control(ch: char) -> (r: bool)
    ensures
        r == control_char(ch),
{
    ch <= '\u{1f}' || ('\u{7f}' <= ch && ch <= '\u{9f}')
}

/// Is `ch` white space?
pub fn is_whitespace(ch: char) -> (r: bool)
    ensures
        r == whitespace_char(ch),
{
    matches!(
        ch,
        '\u{9}'..='\u{d}'
            | ' '
            | '\u{85}'
            | '\u{a0}'
            | '\u{1680}'
            | '\u{2000}'..='\u{200a}'
            | '\u{2028}'
            | '\u{2029}'
            | '\u{202f}'
            | '\u{205f}'
            | '\u{3000}'
    )
}

/// Is `ch` reserved for separating pinyin runs?
pub fn is_reserved_separator(ch: char) -> (r: bool)
    ensures
        r == reserved_separator(ch),
{
    matches!(
        ch,
        ',' | '.'
            | '?'
            | '!'
            | '-'
            | '+'
            | '~'
            | '"'
            | '，'
            | '。'
            | '？'
            | '！'
            | '－'
            | '＋'
            | '～'
            | '〜'
            | '…'
            | '“'
            | '”'
            | '＂'
    )
}

/// Lower-casing keeps the classes: a letter stays a letter, and a pinyin character a pinyin
/// character, and nothing else becomes one.
pub proof fn lemma_ascii_lower(ch: char)
    ensures
        ascii_letter(ascii_lower(ch)) == ascii_letter(ch),
        pinyin_char(ascii_lower(ch)) == pinyin_char(ch),
        ascii_lower(ascii_lower(ch)) == ascii_lower(ch),
{
}

} // verus!
