//! Text that the host hands over as bytes, and text that the host takes as bytes.

use vstd::prelude::*;
use vstd::utf8::{decode_utf8, valid_utf8};

use crate::actions::text_option;
use crate::text::{char_count, slice, to_chars};

verus! {

/// The text that bytes stand for, with what is no UTF-8 replaced.
pub uninterp spec fn utf8_lossy(bytes: Seq<u8>) -> Seq<char>;

/// `String::from_utf8_lossy` of `bytes`. It depends on the bytes alone, and bytes that are
/// valid UTF-8 give the text that they encode. Nothing is claimed of how it replaces what is
/// not valid.
#[verifier::external_body]
pub(crate) fn text_from_utf8_lossy(bytes: &[u8]) -> (r: String)
    ensures
        r@ == utf8_lossy(bytes@),
        valid_utf8(bytes@) ==> r@ == decode_utf8(bytes@),
{
    String::from_utf8_lossy(bytes).into_owned()
}

/// The first `len` bytes of a buffer, or all of them where it holds no more.
pub open spec fn filled(buffer: Seq<u8>, len: usize) -> Seq<u8> {
    if len < buffer.len() {
        buffer.take(len as int)
    } else {
        buffer
    }
}

/// The text in the first `len` bytes of a buffer.
pub fn text_in(buffer: &[u8], len: usize) -> (r: String)
    ensures
        r@ == utf8_lossy(filled(buffer@, len)),
        valid_utf8(filled(buffer@, len)) ==> r@ == decode_utf8(filled(buffer@, len)),
{
    let end: usize = if len < buffer.len() {
        len
    } else {
        buffer.len()
    };
    let mut bytes: Vec<u8> = Vec::new();
    let mut i: usize = 0;
    while i < end
        invariant
            i <= end <= buffer@.len(),
            bytes@ == buffer@.take(i as int),
        decreases end - i,
    {
        bytes.push(buffer[i]);
        i = i + 1;
    }
    assert(bytes@ =~= filled(buffer@, len));
    text_from_utf8_lossy(&bytes)
}

/// The number of bytes of a character in UTF-8.
pub open spec fn utf8_width(ch: char) -> nat {
    if (ch as u32) < 0x80 {
        1
    } else if (ch as u32) < 0x800 {
        2
    } else if (ch as u32) < 0x10000 {
        3
    } else {
        4
    }
}

/// The number of bytes of a character in UTF-8.
pub fn width_of(ch: char) -> (r: usize)
    ensures
        r == utf8_width(ch),
{
    let code = ch as u32;
    if code < 0x80 {
        1
    } else if code < 0x800 {
        2
    } else if code < 0x10000 {
        3
    } else {
        4
    }
}

/// The end of `s` from byte `boundary` of its UTF-8 form on; nothing where no character begins
/// there.
pub open spec fn tail_at_byte(s: Seq<char>, boundary: nat) -> Option<Seq<char>>
    decreases s.len(),
{
    if boundary == 0 {
        Some(s)
    } else if s.len() == 0 || boundary < utf8_width(s[0]) {
        None
    } else {
        tail_at_byte(s.drop_first(), (boundary - utf8_width(s[0])) as nat)
    }
}

/// The end of `s` from byte `boundary` of its UTF-8 form on.
pub fn tail_from_byte(s: &str, boundary: usize) -> (r: Option<String>)
    ensures
        text_option(r) == tail_at_byte(s@, boundary as nat),
{
    let chars = to_chars(s);
    let count = char_count(s);
    let mut i: usize = 0;
    let mut left: usize = boundary;
    assert(s@.skip(0) =~= s@);
    while left > 0
        invariant
            i <= chars@.len(),
            chars@ == s@,
            count == s@.len(),
            tail_at_byte(s@, boundary as nat) == tail_at_byte(s@.skip(i as int), left as nat),
        decreases left,
    {
        if i >= chars.len() {
            return None;
        }
        let width = width_of(chars[i]);
        assert(s@.skip(i as int)[0] == chars@[i as int]);
        assert(s@.skip(i as int).drop_first() =~= s@.skip(i + 1));
        if left < width {
            return None;
        }
        left = left - width;
        i = i + 1;
    }
    assert(s@.subrange(i as int, count as int) =~= s@.skip(i as int));
    Some(slice(s, i, count))
}

/// The byte at which the first NUL of a text stands, in its UTF-8 form.
pub open spec fn nul_position(s: Seq<char>) -> Option<nat>
    decreases s.len(),
{
    if s.len() == 0 {
        None
    } else if s[0] == '\0' {
        Some(0)
    } else {
        match nul_position(s.drop_first()) {
            Some(n) => Some(utf8_width(s[0]) + n),
            None => None,
        }
    }
}

/// A text cannot be handed to the host because of a NUL at byte `position`.
#[derive(Debug, Clone, Copy, PartialEq, Eq, Structural)]
pub struct NulError {
    pub position: usize,
}

/// Whether the host can take a text: it cannot where there is a NUL in it.
pub open spec fn host_takes(s: Seq<char>) -> Result<(), NulError> {
    match nul_position(s) {
        None => Ok(()),
        Some(n) => Err(
            NulError {
                position: if n <= usize::MAX {
                    n as usize
                } else {
                    usize::MAX
                },
            },
        ),
    }
}

/// The position of the first NUL of `s`, where `passed` bytes come before `s`.
spec fn position_after(passed: nat, s: Seq<char>) -> Option<nat> {
    match nul_position(s) {
        Some(n) => Some(passed + n),
        None => None,
    }
}

/// Checks that the host can take a text.
pub fn check_nul(s: &str) -> (r: Result<(), NulError>)
    ensures
        r == host_takes(s@),
{
    let chars = to_chars(s);
    let mut i: usize = 0;
    let mut position: usize = 0;
    let ghost mut passed: nat = 0;
    assert(s@.skip(0) =~= s@);
    while i < chars.len()
        invariant
            i <= chars@.len(),
            chars@ == s@,
            position == if passed <= usize::MAX {
                passed as usize
            } else {
                usize::MAX
            },
            nul_position(s@) == position_after(passed, s@.skip(i as int)),
        decreases chars.len() - i,
    {
        assert(s@.skip(i as int)[0] == chars@[i as int]);
        assert(s@.skip(i as int).drop_first() =~= s@.skip(i + 1));
        if chars[i] == '\0' {
            return Err(NulError { position });
        }
        position = position.saturating_add(width_of(chars[i]));
        proof {
            passed = passed + utf8_width(chars@[i as int]);
        }
        i = i + 1;
    }
    assert(s@.skip(i as int) =~= Seq::<char>::empty());
    Ok(())
}

/// The host takes exactly the texts without a NUL.
pub proof fn law_host_takes_text_without_nul(s: Seq<char>)
    ensures
        host_takes(s) is Ok <==> !s.contains('\0'),
    decreases s.len(),
{
    if s.len() > 0 {
        law_host_takes_text_without_nul(s.drop_first());
        if s.contains('\0') {
            let i = choose|i: int| 0 <= i < s.len() && s[i] == '\0';
            if i > 0 {
                assert(s.drop_first()[i - 1] == '\0');
            }
        }
        if s.drop_first().contains('\0') {
            let i = choose|i: int| 0 <= i < s.drop_first().len() && s.drop_first()[i] == '\0';
            assert(s[i + 1] == '\0');
        }
        if s[0] == '\0' {
            assert(s.contains(s[0]));
        }
    }
}

} // verus!
