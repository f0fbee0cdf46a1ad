//! What a key press does to the capture state, in terms of what was typed.
//!
//! The laws speak of the buffer and of texts that it is put together from. A character count is
//! the length of a filtered sequence of flags, and a trigger is completed where the buffer is
//! some text and the trigger after it.

use vstd::prelude::*;

use crate::actions::{
    ActionView, ConversionView, DeletePreviousWordDisposition, PendingCandidateView,
    PendingCommitView, RestoreView, SelectionView,
};
use crate::capture::{
    all_pinyin, all_visible, chars_shown, count_visible, without_last_run, CaptureMode, CaptureView,
    ReversibleView,
};
use crate::chars::{ascii_letter, control_char, pinyin_char, whitespace_char};
use crate::separators::QuoteState;
use crate::text::{finishes_with, has_letter, trim_end};
use crate::text_laws::{
    all_white, law_suffix_is_a_last_part, law_text_begins_and_ends_with_its_parts,
    law_trim_end_takes_off_white_space,
};

verus! {

/// How many of the flags are set.
pub open spec fn flags_set(flags: Seq<bool>) -> nat {
    flags.filter(|flag: bool| flag).len()
}

/// The text is some text with `end` after it.
pub open spec fn completes(text: Seq<char>, end: Seq<char>) -> bool {
    exists|front: Seq<char>| text == #[trigger] (front + end)
}

/// There is a letter in the text.
pub open spec fn lettered(text: Seq<char>) -> bool {
    exists|i: int|
        0 <= i < text.len() && ('a' <= #[trigger] text[i] <= 'z' || 'A' <= text[i] <= 'Z')
}

pub proof fn lemma_flags_set(flags: Seq<bool>)
    ensures
        count_visible(flags) == flags_set(flags),
        flags_set(flags) <= flags.len(),
    decreases flags.len(),
{
    reveal(Seq::filter);
    if flags.len() > 0 {
        lemma_flags_set(flags.drop_last());
    }
}

pub proof fn lemma_completes(text: Seq<char>, end: Seq<char>)
    ensures
        completes(text, end) == finishes_with(text, end),
{
    if completes(text, end) {
        let front = choose|front: Seq<char>| text == #[trigger] (front + end);
        law_text_begins_and_ends_with_its_parts(front, end);
    }
    if finishes_with(text, end) {
        law_suffix_is_a_last_part(text, end);
    }
}

pub proof fn lemma_lettered(text: Seq<char>)
    ensures
        lettered(text) == has_letter(text),
{
    if has_letter(text) {
        let i = choose|i: int| 0 <= i < text.len() && ascii_letter(#[trigger] text[i]);
        assert('a' <= text[i] <= 'z' || 'A' <= text[i] <= 'Z');
    }
    if lettered(text) {
        let i = choose|i: int|
            0 <= i < text.len() && ('a' <= #[trigger] text[i] <= 'z' || 'A' <= text[i] <= 'Z');
        assert(ascii_letter(text[i]));
    }
}

/// All characters are letters or apostrophes.
pub open spec fn pinyin_only(text: Seq<char>) -> bool {
    forall|i: int|
        0 <= i < text.len() ==> ('a' <= #[trigger] text[i] <= 'z' || 'A' <= text[i] <= 'Z'
            || text[i] == '\'')
}

proof fn lemma_pinyin_only(text: Seq<char>)
    ensures
        pinyin_only(text) == all_pinyin(text),
{
    if pinyin_only(text) {
        assert forall|i: int| 0 <= i < text.len() implies pinyin_char(#[trigger] text[i]) by {}
    }
    if all_pinyin(text) {
        assert forall|i: int| 0 <= i < text.len() implies ('a' <= #[trigger] text[i] <= 'z' || 'A'
            <= text[i] <= 'Z' || text[i] == '\'') by {
            assert(pinyin_char(text[i]));
        }
    }
}

/// Which text is shown goes character by character: each stands in the shown part exactly if
/// its flag is set, and in the hidden part otherwise, and the order is kept.
pub proof fn law_flags_say_what_is_shown(
    text: Seq<char>,
    flags: Seq<bool>,
    ch: char,
    flag: bool,
    shown: bool,
)
    requires
        text.len() == flags.len(),
    ensures
        chars_shown(seq![], seq![], shown) == Seq::<char>::empty(),
        chars_shown(text.push(ch), flags.push(flag), shown) == if flag == shown {
            chars_shown(text, flags, shown).push(ch)
        } else {
            chars_shown(text, flags, shown)
        },
        flags_set(flags) == chars_shown(text, flags, true).len(),
    decreases text.len(),
{
    assert(text.push(ch).drop_last() =~= text);
    assert(flags.push(flag).drop_last() =~= flags);
    lemma_flags_set(flags);
    lemma_shown_count(text, flags);
}

proof fn lemma_shown_count(text: Seq<char>, flags: Seq<bool>)
    requires
        text.len() == flags.len(),
    ensures
        count_visible(flags) == chars_shown(text, flags, true).len(),
    decreases text.len(),
{
    if text.len() > 0 {
        lemma_shown_count(text.drop_last(), flags.drop_last());
    }
}

/// The character separates: it is neither pinyin nor part of a trigger.
pub open spec fn separates(c: CaptureView, ch: char) -> bool {
    &&& !pinyin_only(seq![ch])
    &&& forall|i: int|
        0 <= i < c.config.trigger_prefix.len() ==> #[trigger] c.config.trigger_prefix[i] != ch
    &&& forall|i: int|
        0 <= i < c.config.trigger_suffix.len() ==> #[trigger] c.config.trigger_suffix[i] != ch
}

/// A character separates exactly if it is neither pinyin nor part of a trigger.
pub proof fn law_separators_are_the_other_characters(c: CaptureView, ch: char)
    ensures
        c.commit_separator(ch) == separates(c, ch),
{
    assert(seq![ch][0] == ch);
    let prefix = c.config.trigger_prefix;
    let suffix = c.config.trigger_suffix;
    if separates(c, ch) {
        assert(!prefix.contains(ch));
        assert(!suffix.contains(ch));
    }
    if c.commit_separator(ch) {
        assert forall|i: int| 0 <= i < prefix.len() implies #[trigger] prefix[i] != ch by {
            assert(prefix.contains(prefix[i]));
        }
        assert forall|i: int| 0 <= i < suffix.len() implies #[trigger] suffix[i] != ch by {
            assert(suffix.contains(suffix[i]));
        }
    }
}

/// A separator after text with a letter calls for the conversion of that text, separator and
/// all; only white space at the end is left out of what is converted. Undoing the conversion
/// brings that text back, everything typed that the host shows is deleted, and the session goes
/// on with an empty buffer.
pub proof fn law_separator_converts_what_was_typed(
    c: CaptureView,
    ch: char,
    visible: bool,
    body: Seq<char>,
    white: Seq<char>,
)
    requires
        c.wf(),
        c.mode == CaptureMode::Active,
        c.buffer.len() < c.max_buffer_chars,
        separates(c, ch),
        !completes(c.buffer.push(ch), c.config.trigger_suffix),
        c.buffer.push(ch) == body + white,
        all_white(white),
        body.len() > 0 ==> !whitespace_char(body.last()),
        lettered(body),
    ensures
        c.typed(ch, visible).1 == Some(
            ActionView::Convert(
                ConversionView {
                    typed_text: c.buffer.push(ch),
                    body,
                    restore_text: body,
                    delete_chars: flags_set(c.visible.push(visible)) as usize,
                    stay_active: true,
                },
            ),
        ),
        c.typed(ch, visible).0 == (CaptureView {
            buffer: seq![],
            visible: seq![],
            candidate_page: 0,
            last_conversion: None,
            ..c
        }),
{
    law_separators_are_the_other_characters(c, ch);
    lemma_completes(c.buffer.push(ch), c.config.trigger_suffix);
    law_trim_end_takes_off_white_space(body, white);
    lemma_lettered(body);
    lemma_flags_set(c.visible.push(visible));
}

/// In particular: pinyin and a separator that is not white space are converted together, so
/// that the separator is neither lost from the host nor when the conversion is undone; and of
/// pinyin and white space the pinyin is converted.
pub proof fn law_separator_stays_with_its_pinyin(c: CaptureView, ch: char, visible: bool)
    requires
        c.wf(),
        c.mode == CaptureMode::Active,
        c.buffer.len() < c.max_buffer_chars,
        pinyin_only(c.buffer),
        lettered(c.buffer),
        separates(c, ch),
        !completes(c.buffer.push(ch), c.config.trigger_suffix),
    ensures
        c.typed(ch, visible).1 matches Some(ActionView::Convert(conversion)) && {
            let body = if whitespace_char(ch) {
                c.buffer
            } else {
                c.buffer.push(ch)
            };
            conversion.body == body && conversion.restore_text == body && conversion.stay_active
        },
{
    let i = choose|i: int|
        0 <= i < c.buffer.len() && ('a' <= #[trigger] c.buffer[i] <= 'z' || 'A' <= c.buffer[i]
            <= 'Z');
    if whitespace_char(ch) {
        assert(c.buffer.push(ch) =~= c.buffer + seq![ch]);
        assert(!whitespace_char(c.buffer[c.buffer.len() - 1]));
        law_separator_converts_what_was_typed(c, ch, visible, c.buffer, seq![ch]);
    } else {
        let body = c.buffer.push(ch);
        assert(body =~= body + Seq::<char>::empty());
        assert(body[i] == c.buffer[i]);
        law_separator_converts_what_was_typed(c, ch, visible, body, seq![]);
    }
}

/// A separator after text without a letter calls for no conversion: the text stays as it is,
/// counts as produced, and is no longer in the buffer. What of it the host does not show is
/// inserted.
pub proof fn law_separator_without_letters_is_literal(c: CaptureView, ch: char, visible: bool)
    requires
        c.wf(),
        c.mode == CaptureMode::Active,
        c.buffer.len() < c.max_buffer_chars,
        separates(c, ch),
        !completes(c.buffer.push(ch), c.config.trigger_suffix),
        !lettered(c.buffer),
    ensures
        ({
            let (next, action) = c.typed(ch, visible);
            let text = c.buffer.push(ch);
            let flags = c.visible.push(visible);
            let hidden = chars_shown(text, flags, false);
            &&& flags_set(flags) == text.len() ==> action is None
            &&& flags_set(flags) < text.len() ==> action == Some(
                ActionView::InsertLiteral { text: hidden },
            )
            &&& c.committed_output_chars + text.len() <= usize::MAX ==> next == (CaptureView {
                buffer: seq![],
                visible: seq![],
                committed_output_chars: (c.committed_output_chars + text.len()) as usize,
                candidate_page: 0,
                last_conversion: None,
                ..c
            })
        }),
{
    let text = c.buffer.push(ch);
    let flags = c.visible.push(visible);
    law_separators_are_the_other_characters(c, ch);
    lemma_completes(text, c.config.trigger_suffix);
    lemma_lettered(c.buffer);
    lemma_lettered(trim_end(text));
    assert(seq![ch][0] == ch);
    if lettered(trim_end(text)) {
        let t = trim_end(text);
        let i = choose|i: int|
            0 <= i < t.len() && ('a' <= #[trigger] t[i] <= 'z' || 'A' <= t[i] <= 'Z');
        crate::capture::lemma_before_last_word(text);
        assert(text[i] == t[i]);
        if i < c.buffer.len() {
            assert(c.buffer[i] == t[i]);
        }
        assert(false);
    }
    lemma_flags_set(flags);
    crate::host::lemma_shown_counts(text, flags);
}

/// Any other character within a session is collected, and calls for nothing.
pub proof fn law_pinyin_is_collected(c: CaptureView, ch: char, visible: bool)
    requires
        c.wf(),
        c.mode == CaptureMode::Active,
        c.buffer.len() < c.max_buffer_chars,
        !separates(c, ch),
        !completes(c.buffer.push(ch), c.config.trigger_suffix),
    ensures
        c.typed(ch, visible) == (
            CaptureView {
                buffer: c.buffer.push(ch),
                visible: c.visible.push(visible),
                candidate_page: 0,
                last_conversion: None,
                ..c
            },
            None::<ActionView>,
        ),
{
    law_separators_are_the_other_characters(c, ch);
    lemma_completes(c.buffer.push(ch), c.config.trigger_suffix);
}

/// The closing trigger ends the session. What was typed before it is converted where it has a
/// letter, and stays as it is otherwise; everything typed that the host shows is deleted.
pub proof fn law_closing_trigger_ends_the_session(
    c: CaptureView,
    ch: char,
    visible: bool,
    body: Seq<char>,
)
    requires
        c.wf(),
        c.mode == CaptureMode::Active,
        c.buffer.len() < c.max_buffer_chars,
        c.buffer.push(ch) == body + c.config.trigger_suffix,
    ensures
        ({
            let (next, action) = c.typed(ch, visible);
            let delete_chars = flags_set(c.visible.push(visible)) as usize;
            &&& next == (CaptureView {
                buffer: seq![],
                visible: seq![],
                mode: CaptureMode::Idle,
                committed_output_chars: 0,
                hidden_prefix_backspaces_remaining: 0,
                candidate_page: 0,
                last_conversion: None,
                ..c
            })
            &&& lettered(body) ==> action == Some(
                ActionView::Convert(
                    ConversionView {
                        typed_text: c.buffer.push(ch),
                        body,
                        restore_text: body,
                        delete_chars,
                        stay_active: false,
                    },
                ),
            )
            &&& !lettered(body) ==> action == Some(
                ActionView::EndSession {
                    typed_text: c.buffer.push(ch),
                    replacement_text: body,
                    delete_chars,
                },
            )
        }),
{
    let text = c.buffer.push(ch);
    law_text_begins_and_ends_with_its_parts(body, c.config.trigger_suffix);
    lemma_lettered(body);
    lemma_flags_set(c.visible.push(visible));
    assert(text.take(text.len() - c.config.trigger_suffix.len()) =~= body);
}

/// Without a session text is collected until it ends with the opening trigger.
pub proof fn law_text_is_collected_before_the_trigger(c: CaptureView, ch: char, visible: bool)
    requires
        c.wf(),
        c.mode == CaptureMode::Idle,
        c.buffer.len() < c.max_buffer_chars,
        !completes(c.buffer.push(ch), c.config.trigger_prefix),
    ensures
        c.typed(ch, visible) == (
            CaptureView {
                buffer: c.buffer.push(ch),
                visible: c.visible.push(visible),
                last_conversion: None,
                ..c
            },
            None::<ActionView>,
        ),
{
    lemma_completes(c.buffer.push(ch), c.config.trigger_prefix);
}

/// The opening trigger opens a session, whatever was typed before it. Of the text only the
/// trigger is deleted, as far as the host shows it, and the session takes as many Backspaces to
/// leave as the trigger has characters.
pub proof fn law_opening_trigger_opens_a_session(
    c: CaptureView,
    ch: char,
    visible: bool,
    front: Seq<char>,
)
    requires
        c.wf(),
        c.mode == CaptureMode::Idle,
        c.buffer.len() < c.max_buffer_chars,
        0 < c.config.trigger_prefix.len() <= usize::MAX,
        c.buffer.push(ch) == front + c.config.trigger_prefix,
    ensures
        c.typed(ch, visible) == (
            CaptureView {
                buffer: seq![],
                visible: seq![],
                mode: CaptureMode::Active,
                committed_output_chars: 0,
                hidden_prefix_backspaces_remaining: c.config.trigger_prefix.len() as usize,
                candidate_page: 0,
                last_conversion: None,
                ..c
            },
            Some(
                ActionView::StartSession {
                    trigger_text: c.config.trigger_prefix,
                    delete_chars: flags_set(
                        c.visible.push(visible).skip(front.len() as int),
                    ) as usize,
                },
            ),
        ),
{
    law_text_begins_and_ends_with_its_parts(front, c.config.trigger_prefix);
    lemma_flags_set(c.visible.push(visible).skip(front.len() as int));
}

/// A full buffer loses its first characters, as many as are too many, and keeps the last ones.
pub proof fn law_full_buffer_keeps_the_last_characters(
    c: CaptureView,
    ch: char,
    visible: bool,
    kept: int,
)
    requires
        c.wf(),
        c.max_buffer_chars > 0,
        kept == c.max_buffer_chars - 1,
        c.buffer.len() > kept,
    ensures
        c.typed(ch, visible) == (CaptureView {
            buffer: c.buffer.skip(c.buffer.len() - kept),
            visible: c.visible.skip(c.buffer.len() - kept),
            ..c
        }).typed(ch, visible),
{
    let extra = c.buffer.len() - kept;
    let less = CaptureView { buffer: c.buffer.skip(extra), visible: c.visible.skip(extra), ..c };
    assert(c.buffer.push(ch).skip(extra) =~= less.buffer.push(ch));
    assert(c.visible.push(visible).skip(extra) =~= less.visible.push(visible));
    assert(CaptureView { last_conversion: None, ..c }.appended(ch, visible) == CaptureView {
        last_conversion: None,
        ..less
    }.appended(ch, visible));
}

/// Text of one printable character is typed as that character, and no text changes nothing.
pub proof fn law_text_of_one_character_is_typed(c: CaptureView, ch: char, visible: bool)
    ensures
        c.typed_text(seq![], visible) == (c, None::<ActionView>),
        !control_char(ch) ==> c.typed_text(seq![ch], visible) == c.typed(ch, visible),
        control_char(ch) ==> c.typed_text(seq![ch], visible) == (c, None::<ActionView>),
{
    assert(seq![ch].drop_last() =~= Seq::<char>::empty());
    assert(c.typed_text(seq![ch].drop_last(), visible) == (c, None::<ActionView>));
}

/// Text that is collected after a failure is in the buffer, after what was there, and nothing
/// else changes but that the page and the last conversion are forgotten.
pub proof fn law_collected_text_is_in_the_buffer(c: CaptureView, text: Seq<char>, visible: bool)
    requires
        c.wf(),
        c.buffer.len() + text.len() <= c.max_buffer_chars,
        forall|i: int| 0 <= i < text.len() ==> !control_char(#[trigger] text[i]),
    ensures
        c.collected(text, visible) == (CaptureView {
            buffer: c.buffer + text,
            visible: c.visible + Seq::new(text.len(), |i: int| visible),
            candidate_page: 0,
            last_conversion: None,
            ..c
        }),
    decreases text.len(),
{
    let flags = Seq::new(text.len(), |i: int| visible);
    if text.len() == 0 {
        assert(c.buffer + text =~= c.buffer);
        assert(c.visible + flags =~= c.visible);
    } else {
        let first = text.drop_last();
        let first_flags = Seq::new(first.len(), |i: int| visible);
        assert forall|i: int| 0 <= i < first.len() implies !control_char(#[trigger] first[i]) by {
            assert(first[i] == text[i]);
        }
        assert(text[text.len() - 1] == text.last());
        law_collected_text_is_in_the_buffer(c, first, visible);
        assert((c.buffer + first).push(text.last()) =~= c.buffer + text);
        assert((c.visible + first_flags).push(visible) =~= c.visible + flags);
    }
}

/// Backspace takes away the last character that was typed; where nothing is typed, the last one
/// that was produced; and where nothing is produced either, one of those that lead out of the
/// session. It forgets the page and the last conversion, and changes nothing else.
pub proof fn law_backspace_takes_away_the_last(c: CaptureView)
    requires
        c.wf(),
        c.mode == CaptureMode::Active,
    ensures
        ({
            let next = c.backspaced();
            let typed = c.buffer.len() as int;
            let forgot = CaptureView { candidate_page: 0, last_conversion: None, ..c };
            &&& typed > 0 ==> next == (CaptureView {
                buffer: c.buffer.take(typed - 1),
                visible: c.visible.take(typed - 1),
                ..forgot
            })
            &&& typed == 0 && c.committed_output_chars > 0 ==> next == (CaptureView {
                committed_output_chars: (c.committed_output_chars - 1) as usize,
                ..forgot
            })
            &&& typed == 0 && c.committed_output_chars == 0
                && c.hidden_prefix_backspaces_remaining > 1 ==> next == (CaptureView {
                hidden_prefix_backspaces_remaining: (c.hidden_prefix_backspaces_remaining
                    - 1) as usize,
                ..forgot
            })
            &&& typed == 0 && c.committed_output_chars == 0
                && c.hidden_prefix_backspaces_remaining == 1 ==> next == (CaptureView {
                hidden_prefix_backspaces_remaining: 0,
                mode: CaptureMode::Idle,
                ..forgot
            })
        }),
{
    assert(c.buffer.len() > 0 ==> c.buffer.drop_last() =~= c.buffer.take(c.buffer.len() - 1));
    assert(c.buffer.len() > 0 ==> c.visible.drop_last() =~= c.visible.take(c.buffer.len() - 1));
}

/// Backspace is kept from the host exactly where it takes away something that the host does not
/// show: a hidden character, an output without characters, or a part of the hidden trigger.
/// Outside a session it never is.
pub proof fn law_backspace_is_kept_for_what_is_hidden(c: CaptureView)
    requires
        c.wf(),
    ensures
        c.mode == CaptureMode::Idle ==> !c.consumes_backspace() && !c.backspace_reaches_host(),
        c.mode == CaptureMode::Active && c.last_conversion is Some ==> c.consumes_backspace() == (
        c.last_conversion->0.inserted_text.len() == 0) && !c.backspace_reaches_host(),
        c.mode == CaptureMode::Active && c.last_conversion is None && c.buffer.len() > 0
            ==> c.consumes_backspace() == !c.visible[c.visible.len() - 1]
            && c.backspace_reaches_host() == c.visible[c.visible.len() - 1],
        c.mode == CaptureMode::Active && c.last_conversion is None && c.buffer.len() == 0
            ==> c.consumes_backspace() == (c.committed_output_chars == 0
            && c.hidden_prefix_backspaces_remaining > 0) && c.backspace_reaches_host() == (
        c.committed_output_chars > 0),
{
}

/// Control-W takes away the last pinyin word and the white space after it, and nothing before;
/// it says how many characters that were, and how many of them the host shows.
pub proof fn law_word_deletion_takes_the_last_word(
    c: CaptureView,
    kept: Seq<char>,
    word: Seq<char>,
    white: Seq<char>,
)
    requires
        c.wf(),
        c.buffer.len() <= usize::MAX,
        c.buffer == kept + word + white,
        all_white(white),
        pinyin_only(word),
        word.len() > 0 || kept.len() == 0 || !whitespace_char(kept.last()),
        kept.len() > 0 ==> !pinyin_only(seq![kept.last()]),
    ensures
        c.word_deleted() == (CaptureView {
            buffer: kept,
            visible: c.visible.take(kept.len() as int),
            candidate_page: 0,
            last_conversion: None,
            ..c
        }),
        c.word_outcome().removed_chars == word.len() + white.len(),
        c.word_outcome().removed_visible_chars == flags_set(c.visible.skip(kept.len() as int)),
{
    let text = kept + word;
    lemma_pinyin_only(word);
    if word.len() > 0 {
        assert(text.last() == word[word.len() - 1]);
        assert(!whitespace_char(word[word.len() - 1]));
    } else {
        assert(text =~= kept);
    }
    law_trim_end_takes_off_white_space(text, white);
    lemma_without_last_run(kept, word);
    lemma_flags_set(c.visible.skip(kept.len() as int));
}

proof fn lemma_without_last_run(kept: Seq<char>, word: Seq<char>)
    requires
        all_pinyin(word),
        kept.len() > 0 ==> !pinyin_only(seq![kept.last()]),
    ensures
        without_last_run(kept + word) == kept,
    decreases word.len(),
{
    if word.len() == 0 {
        assert(kept + word =~= kept);
        if kept.len() > 0 {
            assert(seq![kept.last()][0] == kept.last());
        }
    } else {
        let first = word.drop_last();
        assert((kept + word).drop_last() =~= kept + first);
        assert((kept + word).last() == word[word.len() - 1]);
        assert forall|i: int| 0 <= i < first.len() implies pinyin_char(#[trigger] first[i]) by {
            assert(first[i] == word[i]);
        }
        lemma_without_last_run(kept, first);
    }
}

/// A word deletion is kept from the host where the host shows nothing of the word, passed on
/// where it shows all of it, and given up where it shows a part or there was no word.
pub proof fn law_word_deletion_goes_by_what_is_shown(c: CaptureView)
    ensures
        ({
            let outcome = c.word_outcome();
            let removed = outcome.removed_chars;
            let shown = outcome.removed_visible_chars;
            &&& removed > 0 && shown == 0 ==> outcome.disposed()
                == DeletePreviousWordDisposition::Consume
            &&& removed > 0 && shown >= removed ==> outcome.disposed()
                == DeletePreviousWordDisposition::PassThrough
            &&& removed == 0 || 0 < shown < removed ==> outcome.disposed()
                == DeletePreviousWordDisposition::ClearAndPassThrough
        }),
{
}

/// A conversion that is noted counts its output as produced and can be undone to the original,
/// unless nothing changed; text that is produced for good counts too and cannot be undone.
/// Nothing else changes.
pub proof fn law_output_is_counted(
    c: CaptureView,
    original: Seq<char>,
    inserted: Seq<char>,
    quote: QuoteState,
)
    ensures
        ({
            let counted = CaptureView {
                committed_output_chars: if c.committed_output_chars + inserted.len() <= usize::MAX {
                    (c.committed_output_chars + inserted.len()) as usize
                } else {
                    usize::MAX
                },
                ..c
            };
            &&& c.produced(inserted) == (CaptureView { last_conversion: None, ..counted })
            &&& original != inserted ==> c.converted(original, inserted, quote) == (CaptureView {
                last_conversion: Some(
                    ReversibleView {
                        original_text: original,
                        inserted_text: inserted,
                        quote_state_before: quote,
                    },
                ),
                ..counted
            })
            &&& original == inserted ==> c.converted(original, inserted, quote) == (CaptureView {
                last_conversion: None,
                ..counted
            })
        }),
{
}

/// Undoing a conversion deletes its output, less the character that the host has deleted
/// already, and puts the original in its place and in the buffer, as text that the host shows.
pub proof fn law_undoing_puts_the_original_back(c: CaptureView, host_backspace_applied: bool)
    requires
        c.last_conversion is Some,
        c.last_conversion->0.inserted_text.len() <= usize::MAX,
    ensures
        ({
            let conversion = c.last_conversion->0;
            let output = conversion.inserted_text.len();
            let restored = c.restored();
            &&& c.restore_action(host_backspace_applied) == Some(
                RestoreView {
                    original_text: conversion.original_text,
                    replacement_text: conversion.original_text,
                    delete_remaining_chars: if host_backspace_applied && output > 0 {
                        (output - 1) as usize
                    } else {
                        output as usize
                    },
                    quote_state_before: conversion.quote_state_before,
                },
            )
            &&& restored == (CaptureView {
                buffer: conversion.original_text,
                visible: Seq::new(conversion.original_text.len(), |i: int| true),
                mode: CaptureMode::Active,
                committed_output_chars: restored.committed_output_chars,
                candidate_page: 0,
                last_conversion: None,
                ..c
            })
            &&& output <= c.committed_output_chars ==> restored.committed_output_chars
                == c.committed_output_chars - output
            &&& output > c.committed_output_chars ==> restored.committed_output_chars == 0
        }),
{
    let conversion = c.last_conversion->0;
    assert(c.restored().visible =~= Seq::new(conversion.original_text.len(), |i: int| true));
}

/// Without a conversion there is nothing to undo.
pub proof fn law_nothing_is_undone_without_a_conversion(c: CaptureView, applied: bool)
    requires
        c.last_conversion is None,
    ensures
        c.restore_action(applied) is None,
        c.restored() == c,
{
}

/// Pinyin is pending exactly where a session is open and its buffer holds letters and
/// apostrophes only, with at least one letter; and it is the whole buffer.
pub proof fn law_pending_pinyin_is_the_buffer(c: CaptureView)
    ensures
        c.mode == CaptureMode::Active && pinyin_only(c.buffer) && lettered(c.buffer)
            ==> c.pending() == Some(c.buffer),
        c.mode == CaptureMode::Idle || !pinyin_only(c.buffer) || !lettered(c.buffer)
            ==> c.pending() is None,
        c.preview_body() == if c.mode == CaptureMode::Active {
            c.buffer
        } else {
            Seq::<char>::empty()
        },
{
    lemma_lettered(c.buffer);
    lemma_pinyin_only(c.buffer);
}

/// Committing the pending pinyin deletes it as far as the host shows it, puts the replacement in
/// its place, and empties the buffer; the session goes on. Where nothing is pending nothing
/// happens.
pub proof fn law_pending_pinyin_is_replaced(c: CaptureView, replacement: Seq<char>)
    ensures
        c.pending() is Some ==> {
            &&& c.pending_commit(replacement) == Some(
                PendingCommitView {
                    original_text: c.buffer,
                    replacement_text: replacement,
                    delete_chars: flags_set(c.visible) as usize,
                },
            )
            &&& c.pending_taken() == (CaptureView {
                buffer: seq![],
                visible: seq![],
                candidate_page: 0,
                last_conversion: None,
                ..c
            })
        },
        c.pending() is None ==> c.pending_commit(replacement) is None && c.pending_taken() == c,
{
    lemma_flags_set(c.visible);
}

/// A candidate for all of the pending pinyin takes its place; it must have a character.
pub proof fn law_complete_candidate_takes_the_pinyins_place(c: CaptureView, text: Seq<char>)
    ensures
        ({
            let selection = SelectionView::Complete { text };
            &&& c.pending() is Some && text.len() > 0 ==> {
                &&& c.candidate_action(selection) == Some(
                    PendingCandidateView {
                        original_text: c.buffer,
                        selected_text: text,
                        remaining_pinyin: None,
                        replacement_text: text,
                        delete_chars: flags_set(c.visible) as usize,
                    },
                )
                &&& c.candidate_taken(selection) == (CaptureView {
                    buffer: seq![],
                    visible: seq![],
                    candidate_page: 0,
                    last_conversion: None,
                    ..c
                })
            }
            &&& c.pending() is None || text.len() == 0 ==> c.candidate_action(selection) is None
                && c.candidate_taken(selection) == c
        }),
{
    lemma_flags_set(c.visible);
    assert(all_visible(0) =~= Seq::<bool>::empty());
}

/// A candidate for a first part of the pending pinyin takes that part's place: the host shows
/// the candidate and the rest of the pinyin, and the rest is what stays pending. The rest must
/// be a proper end of the pinyin with a letter in it.
pub proof fn law_partial_candidate_leaves_the_rest(
    c: CaptureView,
    selected: Seq<char>,
    part: Seq<char>,
    rest: Seq<char>,
)
    requires
        c.pending() is Some,
        c.buffer == part + rest,
        part.len() > 0,
        lettered(rest),
        selected.len() > 0,
    ensures
        ({
            let selection = SelectionView::Partial {
                selected_text: selected,
                remaining_pinyin: rest,
            };
            &&& c.candidate_action(selection) == Some(
                PendingCandidateView {
                    original_text: part + rest,
                    selected_text: selected,
                    remaining_pinyin: Some(rest),
                    replacement_text: selected + rest,
                    delete_chars: flags_set(c.visible) as usize,
                },
            )
            &&& c.candidate_taken(selection) == (CaptureView {
                buffer: rest,
                visible: Seq::new(rest.len(), |i: int| true),
                candidate_page: 0,
                last_conversion: None,
                ..c
            })
        }),
{
    lemma_flags_set(c.visible);
    lemma_lettered(rest);
    law_text_begins_and_ends_with_its_parts(part, rest);
    assert forall|i: int| 0 <= i < rest.len() implies pinyin_char(#[trigger] rest[i]) by {
        assert(rest[i] == c.buffer[i + part.len()]);
    }
    assert(all_visible(rest.len()) =~= Seq::new(rest.len(), |i: int| true));
}

/// A candidate is refused where the rest is no proper end of the pending pinyin, where the rest
/// has no letter, or where the candidate is empty; then nothing changes.
pub proof fn law_candidate_for_other_pinyin_is_refused(
    c: CaptureView,
    selected: Seq<char>,
    rest: Seq<char>,
)
    requires
        c.pending() is None || selected.len() == 0 || !lettered(rest) || !completes(c.buffer, rest)
            || rest.len() >= c.buffer.len(),
    ensures
        ({
            let selection = SelectionView::Partial {
                selected_text: selected,
                remaining_pinyin: rest,
            };
            &&& c.candidate_action(selection) is None
            &&& c.candidate_taken(selection) == c
        }),
{
    lemma_lettered(rest);
    lemma_completes(c.buffer, rest);
}

/// Outside a session Backspace takes away the last character that was collected, if there is
/// one, and opens none.
pub proof fn law_backspace_outside_a_session(c: CaptureView)
    requires
        c.wf(),
        c.mode == CaptureMode::Idle,
        c.committed_output_chars == 0,
        c.hidden_prefix_backspaces_remaining == 0,
    ensures
        ({
            let typed = c.buffer.len() as int;
            let forgot = CaptureView { candidate_page: 0, last_conversion: None, ..c };
            &&& typed > 0 ==> c.backspaced() == (CaptureView {
                buffer: c.buffer.take(typed - 1),
                visible: c.visible.take(typed - 1),
                ..forgot
            })
            &&& typed == 0 ==> c.backspaced() == forgot
        }),
{
    assert(c.buffer.len() > 0 ==> c.buffer.drop_last() =~= c.buffer.take(c.buffer.len() - 1));
    assert(c.buffer.len() > 0 ==> c.visible.drop_last() =~= c.visible.take(c.buffer.len() - 1));
}

/// Of the last characters of the buffer those count as shown whose flag is set.
pub proof fn law_shown_characters_are_counted_from_the_end(
    c: CaptureView,
    front: Seq<bool>,
    back: Seq<bool>,
    more: nat,
)
    requires
        c.visible == front + back,
        front.len() == 0 || more == 0,
    ensures
        c.visible_tail(back.len() + more) == flags_set(back),
{
    lemma_flags_set(back);
    assert(c.visible.skip(front.len() as int) =~= back);
    assert(c.visible.skip(0) =~= c.visible);
    if front.len() == 0 {
        assert(c.visible =~= back);
    }
}

} // verus!
