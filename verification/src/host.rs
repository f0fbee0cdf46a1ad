//! The host application's text and the capture state stay in step.
//!
//! The text before the host's caret is a sequence of characters. A key press that the host
//! gets adds a character to it; a rewrite deletes characters from its end and inserts text.
//! The laws of this module say that the deletions and insertions that the capture state asks
//! for keep the two in step: the host always ends with the part of the buffer that it is
//! supposed to show, so that no rewrite deletes anything else.

use vstd::prelude::*;

use crate::actions::{ActionView, DeletePreviousWordDisposition, SelectionView};
use crate::capture::{all_visible, chars_shown, count_visible, lemma_before_last_word, CaptureView};
use crate::chars::control_char;
use crate::separators::QuoteState;
use crate::session::{law_steps_keep_the_state_sound, Step};
use crate::text::{finishes_with, trim_end};

verus! {

/// The host's text after the last `delete` characters were deleted and `text` was inserted.
pub open spec fn rewritten(host: Seq<char>, delete: int, text: Seq<char>) -> Seq<char> {
    host.take(host.len() - delete) + text
}

/// The host's text after a key press of which it shows the character or not.
pub open spec fn after_key(host: Seq<char>, ch: char, visible: bool) -> Seq<char> {
    if visible {
        host.push(ch)
    } else {
        host
    }
}

impl CaptureView {
    /// The part of the buffer that the host shows.
    pub open spec fn shown(self) -> Seq<char> {
        chars_shown(self.buffer, self.visible, true)
    }

    /// The host ends with what the capture state takes it to end with: the shown part of the
    /// buffer, or the output of a conversion that can still be undone; and before the shown
    /// part of the buffer it holds at least as many characters as the session has produced.
    pub open spec fn in_step(self, host: Seq<char>) -> bool {
        &&& match self.last_conversion {
            Some(c) => self.buffer.len() == 0 && finishes_with(host, c.inserted_text),
            None => finishes_with(host, self.shown()),
        }
        &&& host.len() >= self.committed_output_chars + self.shown().len()
    }
}

/// As many characters are shown as there are flags set, and the others are hidden.
pub proof fn lemma_shown_counts(buffer: Seq<char>, visible: Seq<bool>)
    requires
        buffer.len() == visible.len(),
    ensures
        chars_shown(buffer, visible, true).len() == count_visible(visible),
        chars_shown(buffer, visible, true).len() + chars_shown(buffer, visible, false).len()
            == buffer.len(),
    decreases buffer.len(),
{
    if buffer.len() > 0 {
        lemma_shown_counts(buffer.drop_last(), visible.drop_last());
    }
}

/// What a buffer shows is what its first part shows, followed by what the rest shows.
proof fn lemma_shown_splits(buffer: Seq<char>, visible: Seq<bool>, k: int, shown: bool)
    requires
        buffer.len() == visible.len(),
        0 <= k <= buffer.len(),
    ensures
        chars_shown(buffer, visible, shown) == chars_shown(buffer.take(k), visible.take(k), shown)
            + chars_shown(buffer.skip(k), visible.skip(k), shown),
    decreases buffer.len(),
{
    if k == buffer.len() {
        assert(buffer.take(k) =~= buffer);
        assert(visible.take(k) =~= visible);
        assert(chars_shown(buffer, visible, shown) + Seq::<char>::empty() =~= chars_shown(
            buffer,
            visible,
            shown,
        ));
    } else {
        let b = buffer.drop_last();
        let v = visible.drop_last();
        lemma_shown_splits(b, v, k, shown);
        assert(b.take(k) =~= buffer.take(k));
        assert(v.take(k) =~= visible.take(k));
        assert(buffer.skip(k).drop_last() =~= b.skip(k));
        assert(visible.skip(k).drop_last() =~= v.skip(k));
        assert(buffer.skip(k).last() == buffer.last());
        assert(visible.skip(k).last() == visible.last());
        let left = chars_shown(buffer.take(k), visible.take(k), shown);
        let right = chars_shown(b.skip(k), v.skip(k), shown);
        if visible.last() == shown {
            assert((left + right).push(buffer.last()) =~= left + right.push(buffer.last()));
        }
    }
}

/// A buffer that is shown as a whole.
pub proof fn lemma_all_shown(buffer: Seq<char>)
    ensures
        chars_shown(buffer, all_visible(buffer.len()), true) == buffer,
    decreases buffer.len(),
{
    if buffer.len() > 0 {
        lemma_all_shown(buffer.drop_last());
        assert(all_visible(buffer.len()).drop_last() =~= all_visible(buffer.drop_last().len()));
        assert(buffer.drop_last().push(buffer.last()) =~= buffer);
    }
}

/// An end of an end is an end.
proof fn lemma_finishes_transitive(a: Seq<char>, b: Seq<char>, c: Seq<char>)
    requires
        finishes_with(a, b),
        finishes_with(b, c),
    ensures
        finishes_with(a, c),
{
    assert(a.skip(a.len() - c.len()) =~= b.skip(b.len() - c.len()));
}

/// Text that ends a concatenation.
pub proof fn lemma_finishes_concat(a: Seq<char>, b: Seq<char>)
    ensures
        finishes_with(a + b, b),
{
    assert((a + b).skip((a + b).len() - b.len()) =~= b);
}

/// Typing a character, before anything is done about it: the host still ends with what is
/// shown.
pub proof fn lemma_appended_in_step(host: Seq<char>, c: CaptureView, ch: char, visible: bool)
    requires
        c.wf(),
        c.in_step(host),
    ensures
        ({
            let next = CaptureView { last_conversion: None, ..c }.appended(ch, visible);
            &&& next.wf()
            &&& next.in_step(after_key(host, ch, visible))
            &&& next.buffer.len() <= usize::MAX
        }),
{
    let whole = CaptureView {
        buffer: c.buffer.push(ch),
        visible: c.visible.push(visible),
        last_conversion: None,
        ..c
    };
    let typed_host = after_key(host, ch, visible);
    assert(c.buffer.push(ch).drop_last() =~= c.buffer);
    assert(c.visible.push(visible).drop_last() =~= c.visible);
    if c.last_conversion is Some {
        assert(c.shown() =~= Seq::<char>::empty());
        assert(finishes_with(host, c.shown())) by {
            assert(host.skip(host.len() as int) =~= Seq::<char>::empty());
        }
    }
    assert(finishes_with(typed_host, whole.shown())) by {
        if visible {
            assert(typed_host.skip(typed_host.len() - whole.shown().len()) =~= host.skip(
                host.len() - c.shown().len(),
            ).push(ch));
        }
    }
    let next = whole.trimmed();
    if whole.buffer.len() > c.max_buffer_chars {
        let extra = whole.buffer.len() - c.max_buffer_chars;
        lemma_shown_splits(whole.buffer, whole.visible, extra, true);
        lemma_finishes_concat(
            chars_shown(whole.buffer.take(extra), whole.visible.take(extra), true),
            next.shown(),
        );
        lemma_finishes_transitive(typed_host, whole.shown(), next.shown());
    }
}

/// Typing a character and performing what it calls for keeps the host in step. Where a
/// conversion is called for, this holds for any output, once the output is noted.
pub proof fn law_typing_keeps_the_host_in_step(
    host: Seq<char>,
    c: CaptureView,
    ch: char,
    visible: bool,
    output: Seq<char>,
    quote: QuoteState,
)
    requires
        c.sound(),
        c.in_step(host),
    ensures
        ({
            let typed_host = after_key(host, ch, visible);
            let (next, action) = c.typed(ch, visible);
            match action {
                None => next.in_step(typed_host),
                Some(ActionView::StartSession { delete_chars, .. }) => {
                    &&& delete_chars <= typed_host.len()
                    &&& next.in_step(rewritten(typed_host, delete_chars as int, seq![]))
                },
                Some(ActionView::InsertLiteral { text }) => next.in_step(
                    rewritten(typed_host, 0, text),
                ),
                Some(ActionView::EndSession { replacement_text, delete_chars, .. }) => {
                    &&& delete_chars <= typed_host.len()
                    &&& next.in_step(
                        rewritten(typed_host, delete_chars as int, replacement_text),
                    )
                },
                Some(ActionView::Convert(conversion)) => {
                    &&& conversion.delete_chars <= typed_host.len()
                    &&& (if conversion.stay_active {
                        next.converted(conversion.restore_text, output, quote)
                    } else {
                        next
                    }).in_step(rewritten(typed_host, conversion.delete_chars as int, output))
                },
            }
        }),
{
    let typed_host = after_key(host, ch, visible);
    let collected = CaptureView { last_conversion: None, ..c }.appended(ch, visible);
    lemma_appended_in_step(host, c, ch, visible);
    lemma_shown_counts(collected.buffer, collected.visible);
    let (next, action) = c.typed(ch, visible);
    let base = typed_host.take(typed_host.len() - collected.shown().len());
    match action {
        None => {
            if next.buffer.len() == 0 && collected.buffer.len() > 0 {
                assert(next.shown() =~= Seq::<char>::empty());
                assert(typed_host.skip(typed_host.len() as int) =~= Seq::<char>::empty());
            }
        },
        Some(ActionView::StartSession { delete_chars, .. }) => {
            let n = collected.config.trigger_prefix.len();
            let k = collected.buffer.len() - n;
            lemma_shown_splits(collected.buffer, collected.visible, k, true);
            lemma_shown_counts(collected.buffer.skip(k), collected.visible.skip(k));
            let after = rewritten(typed_host, delete_chars as int, seq![]);
            assert(after.skip(after.len() as int) =~= Seq::<char>::empty());
            assert(next.shown() =~= Seq::<char>::empty());
        },
        Some(ActionView::InsertLiteral { text }) => {
            let after = rewritten(typed_host, 0, text);
            assert(after.skip(after.len() as int) =~= Seq::<char>::empty());
            assert(next.shown() =~= Seq::<char>::empty());
        },
        Some(ActionView::EndSession { replacement_text, delete_chars, .. }) => {
            let after = rewritten(typed_host, delete_chars as int, replacement_text);
            assert(after.skip(after.len() as int) =~= Seq::<char>::empty());
            assert(next.shown() =~= Seq::<char>::empty());
        },
        Some(ActionView::Convert(conversion)) => {
            let after = rewritten(typed_host, conversion.delete_chars as int, output);
            assert(after == base + output);
            lemma_finishes_concat(base, output);
            assert(after.skip(after.len() as int) =~= Seq::<char>::empty());
            assert(next.shown() =~= Seq::<char>::empty());
        },
    }
}

/// A conversion deletes what the host shows of the text it converts, and nothing else: the
/// host keeps what is before that text, and the output follows.
pub proof fn law_conversion_replaces_only_what_was_typed(
    host: Seq<char>,
    c: CaptureView,
    ch: char,
    visible: bool,
    output: Seq<char>,
)
    requires
        c.sound(),
        c.in_step(host),
        c.typed(ch, visible).1 matches Some(ActionView::Convert(_)),
    ensures
        ({
            let typed_host = after_key(host, ch, visible);
            let collected = CaptureView { last_conversion: None, ..c }.appended(ch, visible);
            let conversion = c.typed(ch, visible).1->0->Convert_0;
            let before = typed_host.take(typed_host.len() - collected.shown().len());
            &&& conversion.typed_text == collected.buffer
            &&& typed_host == before + collected.shown()
            &&& rewritten(typed_host, conversion.delete_chars as int, output) == before + output
        }),
{
    let typed_host = after_key(host, ch, visible);
    let collected = CaptureView { last_conversion: None, ..c }.appended(ch, visible);
    lemma_appended_in_step(host, c, ch, visible);
    lemma_shown_counts(collected.buffer, collected.visible);
    let n = typed_host.len() - collected.shown().len();
    assert(typed_host =~= typed_host.take(n) + typed_host.skip(n));
}

/// The trigger that opens a session is deleted from the host as far as it shows it, and
/// nothing else is.
pub proof fn law_opening_deletes_only_the_trigger(
    host: Seq<char>,
    c: CaptureView,
    ch: char,
    visible: bool,
)
    requires
        c.sound(),
        c.in_step(host),
        c.typed(ch, visible).1 matches Some(ActionView::StartSession { .. }),
    ensures
        ({
            let typed_host = after_key(host, ch, visible);
            let collected = CaptureView { last_conversion: None, ..c }.appended(ch, visible);
            let prefix = c.config.trigger_prefix;
            let delete = c.typed(ch, visible).1->0->StartSession_delete_chars;
            let flags = collected.visible.skip(collected.visible.len() - prefix.len());
            &&& delete <= typed_host.len()
            &&& typed_host.skip(typed_host.len() - delete) == chars_shown(prefix, flags, true)
        }),
{
    let typed_host = after_key(host, ch, visible);
    let collected = CaptureView { last_conversion: None, ..c }.appended(ch, visible);
    let prefix = c.config.trigger_prefix;
    lemma_appended_in_step(host, c, ch, visible);
    let k = collected.buffer.len() - prefix.len();
    lemma_shown_splits(collected.buffer, collected.visible, k, true);
    lemma_shown_counts(collected.buffer.skip(k), collected.visible.skip(k));
    let tail = chars_shown(collected.buffer.skip(k), collected.visible.skip(k), true);
    lemma_finishes_concat(
        chars_shown(collected.buffer.take(k), collected.visible.take(k), true),
        tail,
    );
    lemma_finishes_transitive(typed_host, collected.shown(), tail);
}

/// Within a session a Backspace either is kept from the host or takes a character that the
/// host shows, and not both; either way the host stays in step.
pub proof fn law_backspace_keeps_the_host_in_step(host: Seq<char>, c: CaptureView)
    requires
        c.sound(),
        c.active(),
        c.last_conversion is None,
        c.in_step(host),
    ensures
        c.consumes_backspace() != c.backspace_reaches_host(),
        c.consumes_backspace() ==> c.backspaced().in_step(host),
        c.backspace_reaches_host() ==> host.len() > 0 && c.backspaced().in_step(host.drop_last()),
{
    lemma_shown_counts(c.buffer, c.visible);
    let next = c.backspaced();
    if c.buffer.len() > 0 {
        if c.visible.last() {
            assert(host.drop_last().skip(host.drop_last().len() - next.shown().len()) =~= host.skip(
                host.len() - c.shown().len(),
            ).drop_last());
            assert(c.shown().drop_last() =~= next.shown());
        }
    } else {
        assert(c.shown() =~= Seq::<char>::empty());
        assert(host.skip(host.len() as int) =~= Seq::<char>::empty());
        if host.len() > 0 {
            assert(host.drop_last().skip(host.drop_last().len() as int) =~= Seq::<char>::empty());
        }
    }
}

/// Undoing a conversion keeps the host in step, whether or not the host's own Backspace has
/// already taken the last character of the output.
pub proof fn law_restore_keeps_the_host_in_step(
    host: Seq<char>,
    c: CaptureView,
    host_backspace_applied: bool,
)
    requires
        c.sound(),
        c.in_step(host),
        c.last_conversion is Some,
        c.last_conversion->0.inserted_text.len() <= usize::MAX,
        host_backspace_applied ==> !c.consumes_backspace(),
    ensures
        ({
            let left = if host_backspace_applied {
                host.drop_last()
            } else {
                host
            };
            let action = c.restore_action(host_backspace_applied)->0;
            &&& action.delete_remaining_chars <= left.len()
            &&& c.restored().in_step(
                rewritten(left, action.delete_remaining_chars as int, action.replacement_text),
            )
        }),
{
    let conversion = c.last_conversion->0;
    let left = if host_backspace_applied {
        host.drop_last()
    } else {
        host
    };
    let action = c.restore_action(host_backspace_applied)->0;
    lemma_all_shown(conversion.original_text);
    lemma_finishes_concat(
        left.take(left.len() - action.delete_remaining_chars),
        conversion.original_text,
    );
}

/// Replacing the pending pinyin keeps the host in step, whether the replacement is noted as a
/// conversion or as text produced for good.
pub proof fn law_pending_commit_keeps_the_host_in_step(
    host: Seq<char>,
    c: CaptureView,
    replacement: Seq<char>,
    quote: QuoteState,
)
    requires
        c.sound(),
        c.in_step(host),
        c.pending() is Some,
        c.buffer.len() <= usize::MAX,
    ensures
        ({
            let action = c.pending_commit(replacement)->0;
            let after = rewritten(host, action.delete_chars as int, replacement);
            &&& action.delete_chars <= host.len()
            &&& c.pending_taken().converted(action.original_text, replacement, quote).in_step(after)
            &&& c.pending_taken().produced(replacement).in_step(after)
        }),
{
    lemma_shown_counts(c.buffer, c.visible);
    let action = c.pending_commit(replacement)->0;
    let after = rewritten(host, action.delete_chars as int, replacement);
    lemma_finishes_concat(host.take(host.len() - action.delete_chars), replacement);
    assert(c.pending_taken().shown() =~= Seq::<char>::empty());
    assert(after.skip(after.len() as int) =~= Seq::<char>::empty());
}

/// Taking a candidate keeps the host in step: a complete one once it is noted as a
/// conversion, a partial one once the candidate is noted as produced.
pub proof fn law_candidate_keeps_the_host_in_step(
    host: Seq<char>,
    c: CaptureView,
    selection: SelectionView,
    quote: QuoteState,
)
    requires
        c.sound(),
        c.in_step(host),
        c.accepts(selection),
        c.buffer.len() <= usize::MAX,
    ensures
        ({
            let action = c.candidate_action(selection)->0;
            let after = rewritten(host, action.delete_chars as int, action.replacement_text);
            &&& action.delete_chars <= host.len()
            &&& (if action.remaining_pinyin is Some {
                c.candidate_taken(selection).produced(action.selected_text)
            } else {
                c.candidate_taken(selection).converted(
                    action.original_text,
                    action.replacement_text,
                    quote,
                )
            }).in_step(after)
        }),
{
    lemma_shown_counts(c.buffer, c.visible);
    let action = c.candidate_action(selection)->0;
    let after = rewritten(host, action.delete_chars as int, action.replacement_text);
    let base = host.take(host.len() - action.delete_chars);
    lemma_finishes_concat(base, action.replacement_text);
    assert(after.skip(after.len() as int) =~= Seq::<char>::empty());
    match selection {
        SelectionView::Complete { .. } => {
            assert(c.candidate_taken(selection).shown() =~= Seq::<char>::empty());
        },
        SelectionView::Partial { selected_text, remaining_pinyin } => {
            lemma_all_shown(remaining_pinyin);
            lemma_finishes_concat(base + selected_text, remaining_pinyin);
            assert(after =~= base + selected_text + remaining_pinyin);
        },
    }
}

/// Deleting the last word keeps the host in step where the key press is not a reason to give
/// the capture state up: a press that is kept took nothing that the host shows, and one that
/// is passed on took characters that the host shows, all of them, from its end.
pub proof fn law_word_deletion_keeps_the_host_in_step(host: Seq<char>, c: CaptureView)
    requires
        c.sound(),
        c.in_step(host),
        c.last_conversion is None,
        c.buffer.len() <= usize::MAX,
    ensures
        ({
            let outcome = c.word_outcome();
            &&& outcome.disposed() == DeletePreviousWordDisposition::Consume
                ==> c.word_deleted().in_step(host)
            &&& outcome.disposed() == DeletePreviousWordDisposition::PassThrough ==> {
                &&& outcome.removed_chars <= host.len()
                &&& host.skip(host.len() - outcome.removed_chars) == c.buffer.skip(
                    c.before_last_word().len() as int,
                )
                &&& c.word_deleted().in_step(host.take(host.len() - outcome.removed_chars))
            }
        }),
{
    let kept = c.before_last_word();
    let k = kept.len() as int;
    lemma_before_last_word(c.buffer);
    lemma_before_last_word(trim_end(c.buffer));
    assert(kept =~= c.buffer.take(k));
    lemma_shown_splits(c.buffer, c.visible, k, true);
    let tail = chars_shown(c.buffer.skip(k), c.visible.skip(k), true);
    lemma_shown_counts(c.buffer.skip(k), c.visible.skip(k));
    lemma_shown_counts(c.buffer, c.visible);
    let next = c.word_deleted();
    let outcome = c.word_outcome();
    if outcome.disposed() == DeletePreviousWordDisposition::Consume {
        assert(tail =~= Seq::<char>::empty());
        assert(c.shown() =~= next.shown());
    }
    if outcome.disposed() == DeletePreviousWordDisposition::PassThrough {
        lemma_full_count(c.buffer.skip(k), c.visible.skip(k));
        let n = host.len() - outcome.removed_chars;
        assert(c.shown() =~= next.shown() + c.buffer.skip(k));
        assert(host.skip(host.len() - c.shown().len()) =~= c.shown());
        assert(host.skip(n) =~= c.shown().skip(next.shown().len() as int));
        assert(c.shown().skip(next.shown().len() as int) =~= c.buffer.skip(k));
        assert(host.take(n).skip(n - next.shown().len()) =~= c.shown().take(
            next.shown().len() as int,
        ));
        assert(c.shown().take(next.shown().len() as int) =~= next.shown());
    }
}

/// Where as many characters are shown as there are, all of them are.
proof fn lemma_full_count(buffer: Seq<char>, visible: Seq<bool>)
    requires
        buffer.len() == visible.len(),
        count_visible(visible) >= visible.len(),
    ensures
        chars_shown(buffer, visible, true) == buffer,
        count_visible(visible) == visible.len(),
    decreases buffer.len(),
{
    lemma_shown_counts(buffer, visible);
    if buffer.len() > 0 {
        lemma_shown_counts(buffer.drop_last(), visible.drop_last());
        lemma_full_count(buffer.drop_last(), visible.drop_last());
        assert(buffer.drop_last().push(buffer.last()) =~= buffer);
    }
}

/// The host's text after a text was typed of which it shows the characters or not.
pub open spec fn after_text(host: Seq<char>, text: Seq<char>, visible: bool) -> Seq<char> {
    if visible {
        host + text
    } else {
        host
    }
}

/// There are no control characters in the text.
pub open spec fn printable(text: Seq<char>) -> bool {
    forall|i: int| 0 <= i < text.len() ==> !control_char(#[trigger] text[i])
}

impl CaptureView {
    /// Typing the text calls for nothing before its last character.
    pub open spec fn acts_only_at_the_end(self, text: Seq<char>, visible: bool) -> bool {
        forall|k: int|
            0 <= k < text.len() ==> #[trigger] self.typed_text(text.take(k), visible).1 is None
    }
}

/// Text that calls for nothing keeps the host in step.
proof fn lemma_quiet_text_in_step(host: Seq<char>, c: CaptureView, text: Seq<char>, visible: bool)
    requires
        c.sound(),
        c.in_step(host),
        c.config.trigger_prefix.len() <= usize::MAX,
        printable(text),
        c.acts_only_at_the_end(text, visible),
        c.typed_text(text, visible).1 is None,
    ensures
        c.typed_text(text, visible).0.in_step(after_text(host, text, visible)),
    decreases text.len(),
{
    if text.len() == 0 {
        assert(host + text =~= host);
    } else {
        let first = text.drop_last();
        let before = c.typed_text(first, visible).0;
        lemma_first_part(c, text, visible);
        lemma_quiet_text_in_step(host, c, first, visible);
        law_steps_keep_the_state_sound(c, Step::Type { text: first, visible });
        let first_host = after_text(host, first, visible);
        law_typing_keeps_the_host_in_step(
            first_host,
            before,
            text.last(),
            visible,
            seq![],
            QuoteState { next_is_open: false },
        );
        assert(after_key(first_host, text.last(), visible) =~= after_text(host, text, visible));
    }
}

/// What holds of a text that acts only at its end holds of its first part.
proof fn lemma_first_part(c: CaptureView, text: Seq<char>, visible: bool)
    requires
        text.len() > 0,
        printable(text),
        c.acts_only_at_the_end(text, visible),
    ensures
        printable(text.drop_last()),
        c.acts_only_at_the_end(text.drop_last(), visible),
        c.typed_text(text.drop_last(), visible).1 is None,
        c.typed_text(text, visible) == c.typed_text(text.drop_last(), visible).0.typed(
            text.last(),
            visible,
        ),
{
    let first = text.drop_last();
    assert(first =~= text.take(text.len() - 1));
    assert forall|i: int| 0 <= i < first.len() implies !control_char(#[trigger] first[i]) by {
        assert(first[i] == text[i]);
    }
    assert forall|k: int| 0 <= k < first.len() implies #[trigger] c.typed_text(
        first.take(k),
        visible,
    ).1 is None by {
        assert(first.take(k) =~= text.take(k));
    }
    assert(text[text.len() - 1] == text.last());
}

/// Typing a text and performing what it calls for keeps the host in step, where nothing is
/// called for before its last character: of several actions only the last is performed.
pub proof fn law_typing_text_keeps_the_host_in_step(
    host: Seq<char>,
    c: CaptureView,
    text: Seq<char>,
    visible: bool,
    output: Seq<char>,
    quote: QuoteState,
)
    requires
        c.sound(),
        c.in_step(host),
        c.config.trigger_prefix.len() <= usize::MAX,
        printable(text),
        c.acts_only_at_the_end(text, visible),
    ensures
        ({
            let typed_host = after_text(host, text, visible);
            let (next, action) = c.typed_text(text, visible);
            match action {
                None => next.in_step(typed_host),
                Some(ActionView::StartSession { delete_chars, .. }) => {
                    &&& delete_chars <= typed_host.len()
                    &&& next.in_step(rewritten(typed_host, delete_chars as int, seq![]))
                },
                Some(ActionView::InsertLiteral { text }) => next.in_step(
                    rewritten(typed_host, 0, text),
                ),
                Some(ActionView::EndSession { replacement_text, delete_chars, .. }) => {
                    &&& delete_chars <= typed_host.len()
                    &&& next.in_step(
                        rewritten(typed_host, delete_chars as int, replacement_text),
                    )
                },
                Some(ActionView::Convert(conversion)) => {
                    &&& conversion.delete_chars <= typed_host.len()
                    &&& (if conversion.stay_active {
                        next.converted(conversion.restore_text, output, quote)
                    } else {
                        next
                    }).in_step(rewritten(typed_host, conversion.delete_chars as int, output))
                },
            }
        }),
{
    if text.len() == 0 {
        assert(host + text =~= host);
    } else {
        let first = text.drop_last();
        lemma_first_part(c, text, visible);
        lemma_quiet_text_in_step(host, c, first, visible);
        law_steps_keep_the_state_sound(c, Step::Type { text: first, visible });
        let first_host = after_text(host, first, visible);
        law_typing_keeps_the_host_in_step(
            first_host,
            c.typed_text(first, visible).0,
            text.last(),
            visible,
            output,
            quote,
        );
        assert(after_key(first_host, text.last(), visible) =~= after_text(host, text, visible));
    }
}

/// Text that is collected without calling for anything keeps the host in step.
pub proof fn lemma_collected_in_step(
    host: Seq<char>,
    c: CaptureView,
    text: Seq<char>,
    visible: bool,
)
    requires
        c.wf(),
        c.in_step(host),
        c.last_conversion is None,
        printable(text),
    ensures
        ({
            let next = c.appended_text(text, visible);
            &&& next.wf()
            &&& next.in_step(after_text(host, text, visible))
            &&& next.last_conversion is None
        }),
    decreases text.len(),
{
    if text.len() == 0 {
        assert(host + text =~= host);
    } else {
        let first = text.drop_last();
        assert forall|i: int| 0 <= i < first.len() implies !control_char(#[trigger] first[i]) by {
            assert(first[i] == text[i]);
        }
        assert(text[text.len() - 1] == text.last());
        lemma_collected_in_step(host, c, first, visible);
        let before = c.appended_text(first, visible);
        let first_host = after_text(host, first, visible);
        lemma_appended_in_step(first_host, before, text.last(), visible);
        assert(CaptureView { last_conversion: None, ..before } == before);
        assert(after_key(first_host, text.last(), visible) =~= after_text(host, text, visible));
    }
}

} // verus!
