//! What holds of a capture session as a whole: which states it can be in, how it ends, and
//! what each step keeps.

use vstd::prelude::*;

use crate::actions::{ActionView, ConversionView, SelectionView};
use crate::capture::{
    all_pinyin, all_visible, count_visible, lemma_before_last_word, saturating_sum, CaptureView,
};
use crate::chars::{ascii_letter, control_char};
use crate::separators::QuoteState;
use crate::text::{finishes_with, has_letter, trim_end};

verus! {

/// A step of the capture state.
pub enum Step {
    /// Text is typed; the host shows it or not.
    Type { text: Seq<char>, visible: bool },
    /// Text is collected after a rewrite that failed.
    Collect { text: Seq<char>, visible: bool },
    Backspace,
    DeleteWord,
    Clear,
    /// A conversion is noted.
    Convert { original: Seq<char>, inserted: Seq<char>, quote_state_before: QuoteState },
    /// Text produced for good is noted.
    Produce { text: Seq<char> },
    /// The last conversion is undone.
    Restore,
    /// The pending pinyin is taken out.
    TakePending,
    /// A candidate is taken.
    TakeCandidate { selection: SelectionView },
    /// Another page of candidates is shown.
    ShowPage { page: usize },
}

impl CaptureView {
    /// The state after a step.
    pub open spec fn after(self, step: Step) -> CaptureView {
        match step {
            Step::Type { text, visible } => self.typed_text(text, visible).0,
            Step::Collect { text, visible } => self.collected(text, visible),
            Step::Backspace => self.backspaced(),
            Step::DeleteWord => self.word_deleted(),
            Step::Clear => self.cleared(),
            Step::Convert { original, inserted, quote_state_before } => self.converted(
                original,
                inserted,
                quote_state_before,
            ),
            Step::Produce { text } => self.produced(text),
            Step::Restore => self.restored(),
            Step::TakePending => self.pending_taken(),
            Step::TakeCandidate { selection } => self.candidate_taken(selection),
            Step::ShowPage { page } => CaptureView { candidate_page: page, ..self },
        }
    }

    /// The step is taken only in a session: output is noted there, and candidates are shown
    /// there.
    pub open spec fn allows(self, step: Step) -> bool {
        match step {
            Step::Convert { .. } => self.active(),
            Step::Produce { .. } => self.active(),
            Step::ShowPage { .. } => self.active(),
            _ => true,
        }
    }

    /// What holds between steps: each character has a flag; without a session nothing is
    /// remembered of one; and a session always takes at least one more Backspace to leave.
    pub open spec fn sound(self) -> bool {
        &&& self.wf()
        &&& !self.active() ==> {
            &&& self.committed_output_chars == 0
            &&& self.hidden_prefix_backspaces_remaining == 0
            &&& self.candidate_page == 0
            &&& self.last_conversion is None
        }
        &&& self.active() ==> self.hidden_prefix_backspaces_remaining > 0
    }
}

/// Typing one character keeps the state sound, as long as a trigger has no more characters
/// than can be counted.
proof fn lemma_typed_sound(c: CaptureView, ch: char, visible: bool)
    requires
        c.sound(),
        c.config.trigger_prefix.len() <= usize::MAX,
    ensures
        c.typed(ch, visible).0.sound(),
        c.typed(ch, visible).0.config == c.config,
{
}

proof fn lemma_typed_text_sound(c: CaptureView, text: Seq<char>, visible: bool)
    requires
        c.sound(),
        c.config.trigger_prefix.len() <= usize::MAX,
    ensures
        c.typed_text(text, visible).0.sound(),
        c.typed_text(text, visible).0.config == c.config,
    decreases text.len(),
{
    if text.len() > 0 {
        lemma_typed_text_sound(c, text.drop_last(), visible);
        let before = c.typed_text(text.drop_last(), visible).0;
        lemma_typed_sound(before, text.last(), visible);
    }
}

/// Collecting text changes the buffer and nothing else.
pub proof fn lemma_appended_text(c: CaptureView, text: Seq<char>, visible: bool)
    requires
        c.wf(),
    ensures
        ({
            let next = c.appended_text(text, visible);
            &&& next.wf()
            &&& next == CaptureView { buffer: next.buffer, visible: next.visible, ..c }
        }),
    decreases text.len(),
{
    if text.len() > 0 {
        lemma_appended_text(c, text.drop_last(), visible);
    }
}

/// Every step keeps the state sound.
pub proof fn law_steps_keep_the_state_sound(c: CaptureView, step: Step)
    requires
        c.sound(),
        c.allows(step),
        c.config.trigger_prefix.len() <= usize::MAX,
    ensures
        c.after(step).sound(),
        c.after(step).config == c.config,
{
    match step {
        Step::Type { text, visible } => {
            lemma_typed_text_sound(c, text, visible);
        },
        Step::Collect { text, visible } => {
            lemma_appended_text(
                CaptureView { last_conversion: None, candidate_page: 0, ..c },
                text,
                visible,
            );
        },
        Step::DeleteWord => {
            lemma_before_last_word(c.buffer);
            lemma_before_last_word(trim_end(c.buffer));
        },
        _ => {},
    }
}

proof fn lemma_typed_text_page(c: CaptureView, text: Seq<char>, visible: bool)
    requires
        c.sound(),
        c.config.trigger_prefix.len() <= usize::MAX,
    ensures
        c.typed_text(text, visible).0.pending() != c.pending() ==> c.typed_text(
            text,
            visible,
        ).0.candidate_page == 0,
    decreases text.len(),
{
    if text.len() > 0 {
        lemma_typed_text_page(c, text.drop_last(), visible);
        lemma_typed_text_sound(c, text.drop_last(), visible);
        let before = c.typed_text(text.drop_last(), visible).0;
        lemma_typed_sound(before, text.last(), visible);
    }
}

/// The first page of candidates is shown whenever the pending pinyin has changed.
pub proof fn law_page_resets_with_the_pinyin(c: CaptureView, step: Step)
    requires
        c.sound(),
        c.allows(step),
        c.config.trigger_prefix.len() <= usize::MAX,
    ensures
        c.after(step).pending() != c.pending() ==> c.after(step).candidate_page == 0,
{
    match step {
        Step::Type { text, visible } => {
            lemma_typed_text_page(c, text, visible);
        },
        Step::Collect { text, visible } => {
            lemma_appended_text(
                CaptureView { last_conversion: None, candidate_page: 0, ..c },
                text,
                visible,
            );
        },
        _ => {},
    }
}

/// The state after `n` Backspaces.
pub open spec fn backspaced_times(c: CaptureView, n: nat) -> CaptureView
    decreases n,
{
    if n == 0 {
        c
    } else {
        backspaced_times(c, (n - 1) as nat).backspaced()
    }
}

/// Backspaces take a session apart in the order of the document: first the buffer, then what
/// the session has produced, then the deleted trigger. The budget for the trigger is not
/// touched before the rest is gone, and the session is left with its last Backspace and not
/// before.
pub proof fn law_backspaces_end_the_session(c: CaptureView, n: nat)
    requires
        c.sound(),
        c.active(),
        n <= c.buffer.len() + c.committed_output_chars + c.hidden_prefix_backspaces_remaining,
    ensures
        ({
            let typed = c.buffer.len();
            let produced = c.committed_output_chars as nat;
            let budget = c.hidden_prefix_backspaces_remaining as nat;
            let s = backspaced_times(c, n);
            &&& s.active() == (n < typed + produced + budget)
            &&& s.buffer.len() == if n <= typed {
                typed - n
            } else {
                0
            }
            &&& s.committed_output_chars == if n <= typed {
                produced as int
            } else if n <= typed + produced {
                typed + produced - n
            } else {
                0
            }
            &&& s.hidden_prefix_backspaces_remaining == if n <= typed + produced {
                budget as int
            } else {
                typed + produced + budget - n
            }
        }),
    decreases n,
{
    if n > 0 {
        law_backspaces_end_the_session(c, (n - 1) as nat);
    }
}

/// Typing within a session does not give back any of the Backspaces that leave it.
pub proof fn law_typing_keeps_the_exit_budget(c: CaptureView, ch: char, visible: bool)
    requires
        c.active(),
        c.typed(ch, visible).0.active(),
    ensures
        c.typed(ch, visible).0.hidden_prefix_backspaces_remaining
            == c.hidden_prefix_backspaces_remaining,
        c.typed(ch, visible).0.committed_output_chars >= c.committed_output_chars,
{
}

/// Undoing a conversion that has just been noted brings back the original, as text that the
/// host shows, and takes its output off the count; the quotation state from before it comes
/// back too. (A count that has reached the largest `usize` is not exact any more.)
pub proof fn law_restore_undoes_conversion(
    c: CaptureView,
    original: Seq<char>,
    inserted: Seq<char>,
    quote: QuoteState,
)
    requires
        c.active(),
        original != inserted,
        c.committed_output_chars + inserted.len() <= usize::MAX,
    ensures
        ({
            let noted = c.converted(original, inserted, quote);
            &&& noted.restored().buffer == original
            &&& noted.restored().visible == all_visible(original.len())
            &&& noted.restored().committed_output_chars == c.committed_output_chars
            &&& noted.restored().active()
            &&& noted.restored().last_conversion is None
            &&& noted.restore_action(false) is Some
            &&& noted.restore_action(false)->0.replacement_text == original
            &&& noted.restore_action(false)->0.delete_remaining_chars == inserted.len()
            &&& noted.restore_action(false)->0.quote_state_before == quote
        }),
{
}

/// A conversion that changed nothing leaves nothing to undo.
pub proof fn law_identity_leaves_nothing_to_restore(
    c: CaptureView,
    text: Seq<char>,
    quote: QuoteState,
)
    ensures
        c.converted(text, text, quote).last_conversion is None,
        c.converted(text, text, quote).restore_action(true) is None,
        c.converted(text, text, quote).restore_action(false) is None,
{
}

/// A partial candidate makes progress: the pending pinyin after it is what it left over, a
/// shorter end of what was pending before; only the candidate counts as produced, and the
/// session goes on with it on the first page.
pub proof fn law_partial_candidate_makes_progress(
    c: CaptureView,
    selected: Seq<char>,
    remaining: Seq<char>,
)
    requires
        c.wf(),
        c.accepts(
            SelectionView::Partial { selected_text: selected, remaining_pinyin: remaining },
        ),
    ensures
        ({
            let selection = SelectionView::Partial {
                selected_text: selected,
                remaining_pinyin: remaining,
            };
            let next = c.candidate_taken(selection).produced(selected);
            &&& c.pending() == Some(c.buffer)
            &&& next.pending() == Some(remaining)
            &&& remaining.len() < c.buffer.len()
            &&& c.buffer == c.buffer.take(c.buffer.len() - remaining.len()) + remaining
            &&& next.candidate_page == 0
            &&& next.active()
            &&& next.committed_output_chars == saturating_sum(
                c.committed_output_chars,
                selected.len(),
            )
            &&& next.last_conversion is None
            &&& c.candidate_action(selection)->0.replacement_text == selected + remaining
        }),
{
    assert(c.buffer =~= c.buffer.take(c.buffer.len() - remaining.len()) + c.buffer.skip(
        c.buffer.len() - remaining.len(),
    ));
}

/// A character that is neither pinyin nor part of a trigger does not stay in the buffer of a
/// session where no pinyin is pending.
pub proof fn law_literals_stay_out_of_an_empty_buffer(c: CaptureView, ch: char, visible: bool)
    requires
        c.wf(),
        c.active(),
        c.buffer.len() == 0,
        c.commit_separator(ch),
        c.config.trigger_suffix.len() > 0,
    ensures
        c.typed(ch, visible).0.buffer.len() == 0,
        c.typed(ch, visible).0.active(),
        visible ==> c.typed(ch, visible).1 is None,
{
    let next = CaptureView { last_conversion: None, ..c }.appended(ch, visible);
    let suffix = c.config.trigger_suffix;
    if finishes_with(next.buffer, suffix) {
        assert(next.buffer.len() == 1 && suffix.len() == 1);
        assert(next.buffer.skip(0)[0] == ch);
        assert(suffix[0] == ch);
    }
    assert(!has_letter(trim_end(next.buffer))) by {
        if has_letter(trim_end(next.buffer)) {
            lemma_before_last_word(next.buffer);
            let i = choose|i: int|
                0 <= i < trim_end(next.buffer).len() && ascii_letter(
                    #[trigger] trim_end(next.buffer)[i],
                );
            assert(trim_end(next.buffer)[i] == next.buffer[i]);
            assert(next.buffer[i] == ch);
        }
    }
    if visible {
        reveal_with_fuel(crate::capture::chars_shown, 3);
    }
}

/// `word` stands in `s` only at its end.
pub open spec fn only_at_end(s: Seq<char>, word: Seq<char>) -> bool {
    finishes_with(s, word) && forall|k: int|
        0 <= k < s.len() ==> !finishes_with(#[trigger] s.take(k), word)
}

/// Typing the first characters of the trigger into an empty buffer collects them.
proof fn lemma_typing_prefix(c: CaptureView, n: nat, visible: bool)
    requires
        c.sound(),
        !c.active(),
        c.buffer.len() == 0,
        n < c.config.trigger_prefix.len() <= c.max_buffer_chars,
        forall|i: int|
            0 <= i < c.config.trigger_prefix.len() ==> !control_char(
                #[trigger] c.config.trigger_prefix[i],
            ),
    ensures
        ({
            let prefix = c.config.trigger_prefix;
            let (next, action) = c.typed_text(prefix.take(n as int), visible);
            &&& action is None
            &&& next.buffer == prefix.take(n as int)
            &&& next.visible.len() == n
            &&& forall|i: int| 0 <= i < n ==> next.visible[i] == visible
            &&& next == CaptureView { buffer: next.buffer, visible: next.visible, ..c }
        }),
    decreases n,
{
    let prefix = c.config.trigger_prefix;
    if n == 0 {
        assert(c.buffer =~= prefix.take(0));
    } else {
        lemma_typing_prefix(c, (n - 1) as nat, visible);
        assert(prefix.take(n as int).drop_last() =~= prefix.take(n - 1));
        assert(prefix.take(n as int).last() == prefix[n - 1]);
        let before = c.typed_text(prefix.take(n - 1), visible).0;
        assert(before.buffer.push(prefix[n - 1]) =~= prefix.take(n as int));
    }
}

/// Flags that are all alike are counted as one would expect.
proof fn lemma_count_uniform(flags: Seq<bool>, visible: bool)
    requires
        forall|i: int| 0 <= i < flags.len() ==> flags[i] == visible,
    ensures
        count_visible(flags) == if visible {
            flags.len()
        } else {
            0
        },
    decreases flags.len(),
{
    if flags.len() > 0 {
        lemma_count_uniform(flags.drop_last(), visible);
    }
}

/// Typing the trigger into an empty buffer opens a session; as many characters are deleted
/// from the host as it shows of the trigger.
pub proof fn law_trigger_opens_a_session(c: CaptureView, visible: bool)
    requires
        c.sound(),
        !c.active(),
        c.buffer.len() == 0,
        0 < c.config.trigger_prefix.len() <= c.max_buffer_chars,
        forall|i: int|
            0 <= i < c.config.trigger_prefix.len() ==> !control_char(
                #[trigger] c.config.trigger_prefix[i],
            ),
    ensures
        c.typed_text(c.config.trigger_prefix, visible).0 == c.opened(),
        c.typed_text(c.config.trigger_prefix, visible).1 == Some(
            ActionView::StartSession {
                trigger_text: c.config.trigger_prefix,
                delete_chars: if visible {
                    c.config.trigger_prefix.len() as usize
                } else {
                    0
                },
            },
        ),
{
    let prefix = c.config.trigger_prefix;
    let n = prefix.len();
    lemma_typing_prefix(c, (n - 1) as nat, visible);
    assert(prefix.drop_last() =~= prefix.take(n - 1));
    let before = c.typed_text(prefix.take(n - 1), visible).0;
    let next = CaptureView { last_conversion: None, ..before }.appended(prefix.last(), visible);
    assert(next.buffer =~= prefix);
    assert(prefix.skip(0) =~= prefix);
    assert(next.visible.skip(0) =~= next.visible);
    lemma_count_uniform(next.visible, visible);
    assert(next.opened() =~= c.opened());
}

/// Typing a body and the closing trigger, up to but not including the last character,
/// collects them.
proof fn lemma_typing_body(c: CaptureView, text: Seq<char>, n: nat, visible: bool)
    requires
        c.sound(),
        c.active(),
        c.buffer.len() == 0,
        n < text.len() <= c.max_buffer_chars,
        only_at_end(text, c.config.trigger_suffix),
        forall|i: int|
            0 <= i < text.len() ==> !control_char(#[trigger] text[i]) && !c.commit_separator(
                text[i],
            ),
    ensures
        ({
            let (next, action) = c.typed_text(text.take(n as int), visible);
            &&& action is None
            &&& next.buffer == text.take(n as int)
            &&& next.visible.len() == n
            &&& forall|i: int| 0 <= i < n ==> next.visible[i] == visible
            &&& next.mode == c.mode
            &&& next.config == c.config
            &&& next.max_buffer_chars == c.max_buffer_chars
        }),
    decreases n,
{
    if n == 0 {
        assert(c.buffer =~= text.take(0));
    } else {
        lemma_typing_body(c, text, (n - 1) as nat, visible);
        assert(text.take(n as int).drop_last() =~= text.take(n - 1));
        assert(text.take(n as int).last() == text[n - 1]);
        let before = c.typed_text(text.take(n - 1), visible).0;
        assert(before.buffer.push(text[n - 1]) =~= text.take(n as int));
        assert(before.visible.push(visible).len() == n);
    }
}

/// A body of pinyin, typed into a session and followed by the closing trigger, ends the
/// session, and the body is what is converted. The body and the trigger are deleted from the
/// host as far as it shows them.
pub proof fn law_closing_trigger_converts_the_body(
    c: CaptureView,
    body: Seq<char>,
    visible: bool,
)
    requires
        c.sound(),
        c.active(),
        c.buffer.len() == 0,
        all_pinyin(body),
        has_letter(body),
        c.config.trigger_suffix.len() > 0,
        body.len() + c.config.trigger_suffix.len() <= c.max_buffer_chars,
        only_at_end(body + c.config.trigger_suffix, c.config.trigger_suffix),
        forall|i: int|
            0 <= i < c.config.trigger_suffix.len() ==> !control_char(
                #[trigger] c.config.trigger_suffix[i],
            ),
    ensures
        ({
            let typed = body + c.config.trigger_suffix;
            &&& c.typed_text(typed, visible).0 == c.cleared()
            &&& c.typed_text(typed, visible).1 == Some(
                ActionView::Convert(
                    ConversionView {
                        typed_text: typed,
                        body,
                        restore_text: body,
                        delete_chars: if visible {
                            typed.len() as usize
                        } else {
                            0
                        },
                        stay_active: false,
                    },
                ),
            )
        }),
{
    let suffix = c.config.trigger_suffix;
    let typed = body + suffix;
    let n = typed.len();
    assert forall|i: int| 0 <= i < typed.len() implies !control_char(#[trigger] typed[i])
        && !c.commit_separator(typed[i]) by {
        if i < body.len() {
            assert(typed[i] == body[i]);
        } else {
            assert(typed[i] == suffix[i - body.len()]);
        }
    }
    lemma_typing_body(c, typed, (n - 1) as nat, visible);
    assert(typed.drop_last() =~= typed.take(n - 1));
    let before = c.typed_text(typed.take(n - 1), visible).0;
    let next = CaptureView { last_conversion: None, ..before }.appended(typed.last(), visible);
    assert(next.buffer =~= typed);
    lemma_count_uniform(next.visible, visible);
    assert(typed.take(n - suffix.len()) =~= body);
    assert(next.cleared() =~= c.cleared());
}

/// It makes no difference whether text is typed at once or in two parts: the state is the same,
/// and of what the parts call for the last stands.
pub proof fn law_text_is_typed_part_by_part(
    c: CaptureView,
    first: Seq<char>,
    second: Seq<char>,
    visible: bool,
)
    ensures
        ({
            let (between, first_action) = c.typed_text(first, visible);
            let (next, second_action) = between.typed_text(second, visible);
            c.typed_text(first + second, visible) == (
                next,
                if second_action is Some {
                    second_action
                } else {
                    first_action
                },
            )
        }),
    decreases second.len(),
{
    if second.len() == 0 {
        assert(first + second =~= first);
    } else {
        assert((first + second).drop_last() =~= first + second.drop_last());
        assert((first + second).last() == second.last());
        law_text_is_typed_part_by_part(c, first, second.drop_last(), visible);
    }
}

/// The text without its control characters.
pub open spec fn without_controls(text: Seq<char>) -> Seq<char> {
    text.filter(|ch: char| !control_char(ch))
}

/// Control characters change nothing: text is typed as it would be without them, and text of
/// nothing else leaves the state as it is and calls for nothing.
pub proof fn law_control_characters_change_nothing(c: CaptureView, text: Seq<char>, visible: bool)
    ensures
        c.typed_text(text, visible) == c.typed_text(without_controls(text), visible),
        (forall|i: int| 0 <= i < text.len() ==> control_char(#[trigger] text[i])) ==> c.typed_text(
            text,
            visible,
        ) == (c, None::<ActionView>),
    decreases text.len(),
{
    reveal(Seq::filter);
    if text.len() > 0 {
        let first = text.drop_last();
        law_control_characters_change_nothing(c, first, visible);
        if control_char(text.last()) {
            assert(without_controls(text) == without_controls(first));
        } else {
            let kept = without_controls(text);
            assert(kept == without_controls(first).push(text.last()));
            assert(kept.drop_last() =~= without_controls(first));
            assert(kept.last() == text.last());
        }
        if forall|i: int| 0 <= i < text.len() ==> control_char(#[trigger] text[i]) {
            assert(control_char(text[text.len() - 1]));
            assert forall|i: int| 0 <= i < first.len() implies control_char(#[trigger] first[i]) by {
                assert(first[i] == text[i]);
            }
        }
    }
}

} // verus!
