//! Character classes, numbers and bytes.

use rime_poc::bytes::{check_nul, tail_from_byte, text_in, width_of, NulError};
use rime_poc::chars::{
    is_ascii_digit, is_ascii_letter, is_control, is_pinyin_char, is_reserved_separator,
    is_whitespace, to_ascii_lower,
};
use rime_poc::text::{
    any_letter, char_count, contains_char, decimal_of, ends_with, from_char, join, letters_of,
    read_i32, read_usize, same, signed_decimal_of, slice, starts_with, to_chars,
};

#[test]
fn every_character_is_classified_as_std_does() {
    for ch in '\0'..=char::MAX {
        assert_eq!(is_control(ch), ch.is_control(), "control {ch:?}");
        assert_eq!(is_whitespace(ch), ch.is_whitespace(), "white space {ch:?}");
        assert_eq!(is_ascii_letter(ch), ch.is_ascii_alphabetic(), "letter {ch:?}");
        assert_eq!(is_ascii_digit(ch), ch.is_ascii_digit(), "digit {ch:?}");
        assert_eq!(to_ascii_lower(ch), ch.to_ascii_lowercase(), "lower {ch:?}");
        assert_eq!(is_pinyin_char(ch), ch.is_ascii_alphabetic() || ch == '\'', "pinyin {ch:?}");
        assert_eq!(width_of(ch), ch.len_utf8(), "width {ch:?}");
    }
}

#[test]
fn reserved_separators_are_punctuation() {
    let reserved = ",.?!-+~\"，。？！－＋～〜…“”＂";
    for ch in reserved.chars() {
        assert!(is_reserved_separator(ch), "{ch:?}");
    }
    for ch in ";:' a1[]".chars() {
        assert!(!is_reserved_separator(ch), "{ch:?}");
    }
}

#[test]
fn numbers_are_read_as_std_reads_them() {
    let samples = [
        "", "0", "7", "007", "+7", "-7", "+", "-", "--7", "+-7", " 7", "7 ", "1_000", "٣", "2147483647",
        "2147483648", "-2147483648", "-2147483649", "+2147483647", "18446744073709551615",
        "18446744073709551616", "99999999999999999999999", "-0", "12a",
    ];
    for sample in samples {
        assert_eq!(read_usize(sample), sample.parse::<usize>().ok(), "{sample:?}");
        assert_eq!(read_i32(sample), sample.parse::<i32>().ok(), "{sample:?}");
    }
}

#[test]
fn numbers_are_written_as_std_writes_them() {
    for n in [0, 9, 10, 42, 99, 100, 4096, usize::MAX] {
        assert_eq!(decimal_of(n), n.to_string());
    }
    for n in [0, 7, -7, i32::MAX, i32::MIN] {
        assert_eq!(signed_decimal_of(n), n.to_string());
    }
}

#[test]
fn strings_are_taken_apart_by_characters() {
    assert_eq!(to_chars("我a是"), vec!['我', 'a', '是']);
    assert_eq!(from_char('是'), "是");
    assert_eq!(join("我", "是"), "我是");
    assert_eq!(char_count("我a是"), 3);
    assert_eq!(slice("我a是", 1, 3), "a是");
    assert!(same("我是", "我是"));
    assert!(!same("我是", "我"));
    assert!(contains_char("a;b", ';'));
    assert!(!contains_char("ab", ';'));
    assert!(starts_with("[[wo", "[["));
    assert!(!starts_with("[", "[["));
    assert!(ends_with("wo]]", "]]"));
    assert!(!ends_with("]", "]]"));
    assert!(any_letter("，'x"));
    assert!(!any_letter("，'"));
    assert_eq!(letters_of("xI 'an1"), vec!['x', 'i', 'a', 'n']);
}

#[test]
fn text_is_read_from_the_filled_part_of_a_buffer() {
    let mut buffer = [0u8; 64];
    buffer[..6].copy_from_slice("我是".as_bytes());
    buffer[6] = b'x';
    assert_eq!(text_in(&buffer, 6), "我是");
    assert_eq!(text_in(&buffer, 0), "");
    assert_eq!(text_in(&[b'a', b'b'], 9), "ab");
}

#[test]
fn bytes_that_are_no_text_are_replaced() {
    assert_eq!(text_in(&[b'a', 0xff, b'b'], 3), "a\u{fffd}b");
    assert_eq!(text_in("我".as_bytes(), 2), "\u{fffd}");
}

#[test]
fn a_nul_is_found_at_its_byte() {
    assert_eq!(check_nul("我是"), Ok(()));
    assert_eq!(check_nul(""), Ok(()));
    assert_eq!(check_nul("我\0"), Err(NulError { position: 3 }));
    assert_eq!(check_nul("aß\0\0"), Err(NulError { position: 3 }));
    for text in ["", "abc", "我\0是", "\0", "ab\0c\0"] {
        let expected = text.bytes().position(|byte| byte == 0);
        assert_eq!(check_nul(text).err().map(|error| error.position), expected);
    }
}

#[test]
fn the_end_of_a_text_is_taken_from_a_byte_on() {
    let text = "我是zhong guo";
    for boundary in 0..=text.len() + 2 {
        assert_eq!(
            tail_from_byte(text, boundary),
            text.get(boundary..).map(str::to_owned),
            "{boundary}"
        );
    }
}
