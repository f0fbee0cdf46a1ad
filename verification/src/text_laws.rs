//! What the operations on text are for, in terms of the texts alone.

use vstd::prelude::*;

use crate::bytes::{filled, host_takes, nul_position, tail_at_byte, utf8_width, NulError};
use crate::chars::{
    ascii_digit, ascii_letter, ascii_lower, pinyin_char, reserved_separator, whitespace_char,
};
use crate::mac::lines;
use crate::options::trim;
use crate::sources::{fields, source_field, system_source};
use crate::config::{lemma_position, position};
use crate::text::{
    begins_with, decimal, digit, digits_value, finishes_with, has_letter, letters, lower,
    signed_decimal, signed_value, trim_end, trim_start, unsigned_value,
};
use crate::tokens::normalized;

verus! {

/// All characters of `s` are white space.
pub open spec fn all_white(s: Seq<char>) -> bool {
    forall|i: int| 0 <= i < s.len() ==> whitespace_char(#[trigger] s[i])
}

/// White space at the end is taken off, all of it and nothing else.
pub proof fn law_trim_end_takes_off_white_space(kept: Seq<char>, white: Seq<char>)
    requires
        all_white(white),
        kept.len() > 0 ==> !whitespace_char(kept.last()),
    ensures
        trim_end(kept + white) == kept,
    decreases white.len(),
{
    if white.len() == 0 {
        assert(kept + white =~= kept);
    } else {
        let rest = white.drop_last();
        assert((kept + white).drop_last() =~= kept + rest);
        assert((kept + white).last() == white[white.len() - 1]);
        assert forall|i: int| 0 <= i < rest.len() implies whitespace_char(#[trigger] rest[i]) by {
            assert(rest[i] == white[i]);
        }
        law_trim_end_takes_off_white_space(kept, rest);
    }
}

/// White space at the beginning is taken off, all of it and nothing else.
pub proof fn law_trim_start_takes_off_white_space(white: Seq<char>, kept: Seq<char>)
    requires
        all_white(white),
        kept.len() > 0 ==> !whitespace_char(kept[0]),
    ensures
        trim_start(white + kept) == kept,
    decreases white.len(),
{
    if white.len() == 0 {
        assert(white + kept =~= kept);
    } else {
        let rest = white.drop_first();
        assert((white + kept).drop_first() =~= rest + kept);
        assert((white + kept)[0] == white[0]);
        assert forall|i: int| 0 <= i < rest.len() implies whitespace_char(#[trigger] rest[i]) by {
            assert(rest[i] == white[i + 1]);
        }
        law_trim_start_takes_off_white_space(rest, kept);
    }
}

/// White space at both ends is taken off, and nothing between.
pub proof fn law_trim_takes_off_white_space(
    before: Seq<char>,
    kept: Seq<char>,
    after: Seq<char>,
)
    requires
        all_white(before),
        all_white(after),
        kept.len() > 0,
        !whitespace_char(kept[0]),
        !whitespace_char(kept.last()),
    ensures
        trim(before + kept + after) == kept,
{
    assert(before + kept + after =~= before + (kept + after));
    assert((kept + after)[0] == kept[0]);
    law_trim_start_takes_off_white_space(before, kept + after);
    law_trim_end_takes_off_white_space(kept, after);
}

/// Text without anything but white space is trimmed to nothing.
pub proof fn law_white_space_is_trimmed_to_nothing(white: Seq<char>)
    requires
        all_white(white),
    ensures
        trim(white) == Seq::<char>::empty(),
{
    law_trim_start_takes_off_white_space(white, seq![]);
    assert(white + Seq::<char>::empty() =~= white);
}

/// Text begins with what it was put together from first, and ends with what came last.
pub proof fn law_text_begins_and_ends_with_its_parts(first: Seq<char>, second: Seq<char>)
    ensures
        begins_with(first + second, first),
        finishes_with(first + second, second),
{
    assert((first + second).take(first.len() as int) =~= first);
    assert((first + second).skip((first + second).len() - second.len()) =~= second);
}

/// Text that begins with a prefix is the prefix and something after it.
pub proof fn law_prefix_is_a_first_part(s: Seq<char>, prefix: Seq<char>)
    requires
        begins_with(s, prefix),
    ensures
        exists|rest: Seq<char>| s == #[trigger] (prefix + rest),
{
    let rest = s.skip(prefix.len() as int);
    assert(s =~= prefix + rest) by {
        assert(s.take(prefix.len() as int) + rest =~= s);
    }
}

/// Text that ends with a suffix is something and the suffix after it.
pub proof fn law_suffix_is_a_last_part(s: Seq<char>, suffix: Seq<char>)
    requires
        finishes_with(s, suffix),
    ensures
        exists|front: Seq<char>| s == #[trigger] (front + suffix),
{
    let front = s.take(s.len() - suffix.len());
    assert(s =~= front + suffix) by {
        assert(front + s.skip(s.len() - suffix.len()) =~= s);
    }
}

/// Lower-casing and picking the letters go character by character.
pub proof fn law_letters_go_character_by_character(first: Seq<char>, second: Seq<char>, ch: char)
    ensures
        lower(first + second) == lower(first) + lower(second),
        lower(seq![ch]) == seq![ascii_lower(ch)],
        letters(first + second) == letters(first) + letters(second),
        letters(seq![ch]) == if 'a' <= ch <= 'z' || 'A' <= ch <= 'Z' {
            seq![ascii_lower(ch)]
        } else {
            seq![]
        },
        normalized(first + second) == normalized(first) + normalized(second),
        normalized(seq![ch]) == if 'a' <= ch <= 'z' || 'A' <= ch <= 'Z' || ch == '\'' {
            seq![ascii_lower(ch)]
        } else {
            seq![]
        },
        has_letter(first + second) == (has_letter(first) || has_letter(second)),
        has_letter(seq![ch]) == ('a' <= ch <= 'z' || 'A' <= ch <= 'Z'),
{
    let letter = |ch: char| ascii_letter(ch);
    let pinyin = |ch: char| pinyin_char(ch);
    lemma_filter_concat(first, second, letter);
    lemma_filter_concat(first, second, pinyin);
    lemma_filter_one(ch, letter);
    lemma_filter_one(ch, pinyin);
    assert(lower(first + second) =~= lower(first) + lower(second));
    assert(lower(seq![ch]) =~= seq![ascii_lower(ch)]);
    assert(lower(Seq::<char>::empty()) =~= Seq::<char>::empty());
    assert(letters(first + second) =~= letters(first) + letters(second));
    assert(normalized(first + second) =~= normalized(first) + normalized(second));
    if has_letter(first) {
        let i = choose|i: int| 0 <= i < first.len() && ascii_letter(#[trigger] first[i]);
        assert((first + second)[i] == first[i]);
    }
    if has_letter(second) {
        let i = choose|i: int| 0 <= i < second.len() && ascii_letter(#[trigger] second[i]);
        assert((first + second)[i + first.len()] == second[i]);
    }
    assert(seq![ch][0] == ch);
}

proof fn lemma_filter_concat(first: Seq<char>, second: Seq<char>, keep: spec_fn(char) -> bool)
    ensures
        (first + second).filter(keep) == first.filter(keep) + second.filter(keep),
    decreases second.len(),
{
    reveal(Seq::filter);
    if second.len() == 0 {
        assert(first + second =~= first);
        assert(first.filter(keep) + Seq::<char>::empty() =~= first.filter(keep));
    } else {
        assert((first + second).drop_last() =~= first + second.drop_last());
        assert((first + second).last() == second.last());
        lemma_filter_concat(first, second.drop_last(), keep);
        let a = first.filter(keep);
        let b = second.drop_last().filter(keep);
        assert((a + b).push(second.last()) =~= a + b.push(second.last()));
    }
}

proof fn lemma_filter_one(ch: char, keep: spec_fn(char) -> bool)
    ensures
        seq![ch].filter(keep) == if keep(ch) {
            seq![ch]
        } else {
            seq![]
        },
{
    reveal(Seq::filter);
    let one = seq![ch];
    assert(one.drop_last() =~= Seq::<char>::empty());
    assert(one.drop_last().filter(keep) =~= Seq::<char>::empty());
    assert(one.filter(keep) =~= if keep(ch) {
        seq![ch]
    } else {
        seq![]
    });
}

/// A number that is written down is read back, and is written without leading zeros.
pub proof fn law_numbers_read_back(n: nat)
    ensures
        unsigned_value(decimal(n)) == Some(n as int),
        n > 0 ==> decimal(n)[0] != '0',
        signed_value(signed_decimal(n as int)) == Some(n as int),
        signed_value(signed_decimal(-n)) == Some(-n),
        forall|i: int| 0 <= i < decimal(n).len() ==> '0' <= #[trigger] decimal(n)[i] <= '9',
{
    lemma_decimal(n);
    let s = decimal(n);
    assert(s[0] != '+' && s[0] != '-') by {
        assert(ascii_digit(s[0]));
    }
    reveal_strlit("-");
    if n > 0 {
        let t = signed_decimal(-n);
        assert(t =~= "-"@ + s);
        assert(t[0] == '-');
        assert(t.drop_first() =~= s);
    }
}

proof fn lemma_decimal(n: nat)
    ensures
        decimal(n).len() > 0,
        digits_value(decimal(n)) == n,
        n > 0 ==> decimal(n)[0] != '0',
        forall|i: int| 0 <= i < decimal(n).len() ==> ascii_digit(#[trigger] decimal(n)[i]),
    decreases n,
{
    let d = n % 10;
    assert(digit(d as nat) as nat == '0' as nat + d);
    assert(ascii_digit(digit(d)));
    if n < 10 {
        let s = seq![digit(n)];
        assert(s.drop_last() =~= Seq::<char>::empty());
        assert(digits_value(s.drop_last()) == 0);
        assert(digits_value(s) == n);
    } else {
        lemma_decimal(n / 10);
        let front = decimal(n / 10);
        assert(front.push(digit(d)).drop_last() =~= front);
        assert(n == (n / 10) * 10 + d);
    }
}

/// The number of bytes of a text.
pub open spec fn byte_len(s: Seq<char>) -> nat
    decreases s.len(),
{
    if s.len() == 0 {
        0
    } else {
        utf8_width(s[0]) + byte_len(s.drop_first())
    }
}

/// The text is some text of `boundary` bytes and `tail` after it.
pub open spec fn ends_from(s: Seq<char>, boundary: nat, tail: Seq<char>) -> bool {
    exists|front: Seq<char>| s == #[trigger] (front + tail) && byte_len(front) == boundary
}

/// A text is cut at the byte at which its second part begins, and nowhere within a character.
pub proof fn law_text_is_cut_between_characters(s: Seq<char>, boundary: nat)
    ensures
        tail_at_byte(s, boundary) matches Some(tail) ==> ends_from(s, boundary, tail),
        forall|front: Seq<char>, tail: Seq<char>|
            s == #[trigger] (front + tail) && byte_len(front) == boundary ==> tail_at_byte(
                s,
                boundary,
            ) == Some(tail),
    decreases s.len(),
{
    if boundary == 0 {
        let empty = Seq::<char>::empty();
        assert(s =~= empty + s);
        assert(byte_len(empty) == 0);
        assert(ends_from(s, boundary, s));
        assert forall|front: Seq<char>, tail: Seq<char>|
            s == #[trigger] (front + tail) && byte_len(front) == boundary implies tail_at_byte(
            s,
            boundary,
        ) == Some(tail) by {
            assert(front.len() == 0);
            assert(s =~= tail);
        }
    } else {
        if s.len() > 0 && boundary >= utf8_width(s[0]) {
            let rest = s.drop_first();
            let left = (boundary - utf8_width(s[0])) as nat;
            law_text_is_cut_between_characters(rest, left);
            if let Some(tail) = tail_at_byte(rest, left) {
                let front = choose|front: Seq<char>|
                    rest == #[trigger] (front + tail) && byte_len(front) == left;
                let whole = seq![s[0]] + front;
                assert(whole.drop_first() =~= front);
                assert(s =~= seq![s[0]] + rest);
                assert(whole + tail =~= seq![s[0]] + (front + tail));
                assert(whole[0] == s[0]);
                assert(byte_len(whole) == boundary);
                assert(s == whole + tail);
                assert(ends_from(s, boundary, tail));
            }
        }
        assert forall|front: Seq<char>, tail: Seq<char>|
            s == #[trigger] (front + tail) && byte_len(front) == boundary implies tail_at_byte(
            s,
            boundary,
        ) == Some(tail) by {
            assert(front.len() > 0);
            assert(front[0] == s[0]);
            assert(s.drop_first() =~= front.drop_first() + tail);
        }
    }
}

/// Where a text is refused, it is for its first NUL, which is named by its byte.
pub proof fn law_first_nul_is_named(front: Seq<char>, rest: Seq<char>)
    requires
        !front.contains('\0'),
        byte_len(front) <= usize::MAX,
    ensures
        host_takes(front + seq!['\0'] + rest) == Err::<(), NulError>(
            NulError { position: byte_len(front) as usize },
        ),
{
    lemma_first_nul(front, rest);
}

proof fn lemma_first_nul(front: Seq<char>, rest: Seq<char>)
    requires
        !front.contains('\0'),
    ensures
        nul_position(front + seq!['\0'] + rest) == Some(byte_len(front)),
    decreases front.len(),
{
    let s = front + seq!['\0'] + rest;
    if front.len() == 0 {
        assert(s[0] == '\0');
    } else {
        assert(front.contains(front[0]));
        assert(s[0] == front[0]);
        assert(s.drop_first() =~= front.drop_first() + seq!['\0'] + rest);
        assert(!front.drop_first().contains('\0')) by {
            if front.drop_first().contains('\0') {
                let i = choose|i: int|
                    0 <= i < front.drop_first().len() && front.drop_first()[i] == '\0';
                assert(front[i + 1] == '\0');
            }
        }
        lemma_first_nul(front.drop_first(), rest);
    }
}

/// Of a buffer only the part that is filled counts.
pub proof fn law_only_the_filled_part_counts(used: Seq<u8>, unused: Seq<u8>)
    requires
        used.len() + unused.len() <= usize::MAX,
    ensures
        filled(used + unused, used.len() as usize) == used,
{
    assert((used + unused).take(used.len() as int) =~= used);
}

/// Lines are put together in order, each on a line of its own.
pub proof fn law_lines_are_put_together_in_order(list: Seq<Seq<char>>, last: Seq<char>)
    ensures
        lines(seq![]) == Seq::<char>::empty(),
        lines(seq![last]) == last,
        list.len() > 0 ==> lines(list.push(last)) == lines(list) + seq!['\n'] + last,
{
    assert(list.push(last).drop_last() =~= list);
    if list.len() > 0 {
        assert(lines(list).push('\n') + last =~= lines(list) + seq!['\n'] + last);
    }
}

/// These are the separators that no trigger may hold.
pub proof fn law_reserved_separators(ch: char)
    ensures
        reserved_separator(ch) <==> seq![
            ',', '.', '?', '!', '-', '+', '~', '"', '，', '。', '？', '！', '－', '＋', '～', '〜', '…',
            '“', '”', '＂',
        ].contains(ch),
{
    let all = seq![
        ',', '.', '?', '!', '-', '+', '~', '"', '，', '。', '？', '！', '－', '＋', '～', '〜', '…',
        '“', '”', '＂',
    ];
    assert(all[0] == ',' && all[1] == '.' && all[2] == '?' && all[3] == '!' && all[4] == '-');
    assert(all[5] == '+' && all[6] == '~' && all[7] == '"' && all[8] == '，' && all[9] == '。');
    assert(all[10] == '？' && all[11] == '！' && all[12] == '－' && all[13] == '＋' && all[14] == '～');
    assert(all[15] == '〜' && all[16] == '…' && all[17] == '“' && all[18] == '”' && all[19] == '＂');
    if all.contains(ch) {
        let i = choose|i: int| 0 <= i < all.len() && all[i] == ch;
        assert(0 <= i < 20);
    }
}

/// There is no bar in the text.
pub open spec fn barless(s: Seq<char>) -> bool {
    !s.contains('|')
}

/// A fingerprint is of a system source exactly if the first of its fields that names a source
/// names one of Apple's; fields are separated by bars.
pub proof fn law_system_sources_are_those_of_apple(field: Seq<char>, rest: Seq<char>)
    requires
        barless(field),
    ensures
        fields(field) == seq![field],
        fields(field + seq!['|'] + rest) == seq![field] + fields(rest),
        begins_with(field, "source="@) ==> {
            &&& system_source(field) == begins_with(field, "source=com.apple."@)
            &&& system_source(field + seq!['|'] + rest) == begins_with(
                field,
                "source=com.apple."@,
            )
        },
        !begins_with(field, "source="@) ==> {
            &&& !system_source(field)
            &&& system_source(field + seq!['|'] + rest) == system_source(rest)
        },
{
    let whole = field + seq!['|'] + rest;
    lemma_position(field, '|');
    lemma_position(whole, '|');
    assert(position(field, '|') == field.len()) by {
        if position(field, '|') < field.len() {
            assert(field.contains(field[position(field, '|') as int]));
        }
    }
    assert(position(whole, '|') == field.len()) by {
        assert(whole[field.len() as int] == '|');
        let p = position(whole, '|') as int;
        if p < field.len() {
            assert(field[p] == whole[p]);
            assert(field.contains(field[p]));
        }
    }
    assert(whole.take(field.len() as int) =~= field);
    assert(whole.skip((field.len() + 1) as int) =~= rest);
    let one = seq![field];
    let more = one + fields(rest);
    assert(more.drop_first() =~= fields(rest));
    assert(one.drop_first() =~= Seq::<Seq<char>>::empty());
    assert(source_field(Seq::<Seq<char>>::empty()) is None);
    reveal_strlit("source=");
    reveal_strlit("com.apple.");
    reveal_strlit("source=com.apple.");
    if begins_with(field, "source="@) {
        let source = field.skip("source="@.len() as int);
        assert("source=com.apple."@ =~= "source="@ + "com.apple."@);
        if begins_with(source, "com.apple."@) {
            assert(field.take(17) =~= field.take(7) + source.take(10));
        }
        if begins_with(field, "source=com.apple."@) {
            assert(source.take(10) =~= field.take(17).skip(7));
            assert("source=com.apple."@.skip(7) =~= "com.apple."@);
        }
    }
}

} // verus!
