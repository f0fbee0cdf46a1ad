//! Which keyboard input source a key press comes from.

use vstd::prelude::*;

use crate::config::{lemma_position, position};
use crate::text::{begins_with, slice, starts_with, to_chars};

verus! {

/// The fields of a fingerprint, which are separated by `|`.
pub open spec fn fields(s: Seq<char>) -> Seq<Seq<char>>
    decreases s.len(),
{
    let end = position(s, '|') as int;
    if end < s.len() {
        seq![s.take(end)] + fields(s.skip(end + 1))
    } else {
        seq![s]
    }
}

/// What the first field that begins with `source=` says after that.
pub open spec fn source_field(fields: Seq<Seq<char>>) -> Option<Seq<char>>
    decreases fields.len(),
{
    if fields.len() == 0 {
        None
    } else if begins_with(fields[0], "source="@) {
        Some(fields[0].skip("source="@.len() as int))
    } else {
        source_field(fields.drop_first())
    }
}

/// The input source belongs to the system.
pub open spec fn system_source(fingerprint: Seq<char>) -> bool {
    source_field(fields(fingerprint)) matches Some(source) && begins_with(source, "com.apple."@)
}

/// Does the input source belong to the system?
pub fn input_source_is_system(input_source: &str) -> (r: bool)
    ensures
        r == system_source(input_source@),
{
    let chars = to_chars(input_source);
    let mut start: usize = 0;
    assert(chars@.skip(0) =~= chars@);
    loop
        invariant
            start <= chars.len(),
            chars@ == input_source@,
            source_field(fields(input_source@)) == source_field(
                fields(chars@.skip(start as int)),
            ),
        decreases chars.len() - start,
    {
        let ghost rest = chars@.skip(start as int);
        let end = find_bar(&chars, start);
        let field = slice(input_source, start, end);
        proof {
            lemma_position(rest, '|');
            assert(field@ =~= rest.take(end - start));
            assert(rest.take(rest.len() as int) =~= rest);
            if end < chars.len() {
                assert((seq![rest.take(end - start)] + fields(
                    rest.skip(end - start + 1),
                )).drop_first() =~= fields(rest.skip(end - start + 1)));
                assert(rest.skip(end - start + 1) =~= chars@.skip(end + 1));
            } else {
                assert(seq![rest].drop_first() =~= Seq::<Seq<char>>::empty());
                assert(source_field(Seq::<Seq<char>>::empty()) is None);
            }
        }
        if starts_with(&field, "source=") {
            let field_chars = to_chars(&field);
            let skipped = "source=";
            let from: usize = skipped.unicode_len();
            let source = slice(&field, from, field_chars.len());
            assert(source@ =~= field@.skip(from as int));
            return starts_with(&source, "com.apple.");
        }
        if end == chars.len() {
            return false;
        }
        start = end + 1;
    }
}

/// The first place from `start` on at which `chars` holds a bar, or its length.
fn find_bar(chars: &[char], start: usize) -> (r: usize)
    requires
        start <= chars@.len(),
    ensures
        r == start + position(chars@.skip(start as int), '|'),
        start <= r <= chars@.len(),
{
    let mut end: usize = start;
    while end < chars.len() && chars[end] != '|'
        invariant
            start <= end <= chars.len(),
            position(chars@.skip(start as int), '|') == end - start + position(
                chars@.skip(end as int),
                '|',
            ),
        decreases chars.len() - end,
    {
        assert(chars@.skip(end as int).drop_first() =~= chars@.skip(end + 1));
        end += 1;
    }
    end
}

/// The fingerprint of an event's input source, or a stand-in where it has none.
pub open spec fn fingerprint_or_unknown(fingerprint: Seq<char>) -> Seq<char> {
    if fingerprint.len() == 0 {
        "<unknown>"@
    } else {
        fingerprint
    }
}

/// The fingerprint `fingerprint`, or a stand-in where it is empty.
pub fn known_fingerprint(fingerprint: String) -> (r: String)
    ensures
        r@ == fingerprint_or_unknown(fingerprint@),
{
    if fingerprint.as_str().is_empty() {
        "<unknown>".to_owned()
    } else {
        fingerprint
    }
}

} // verus!
