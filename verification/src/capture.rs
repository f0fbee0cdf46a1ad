//! The capture state: what has been typed since the last boundary, what the host shows of it,
//! and whether a session is open.

use vstd::prelude::*;

use crate::actions::{
    action_option, candidate_option, commit_option, restore_option, text_option, ActionView,
    CandidateSelection, CaptureAction, ConversionAction, ConversionView, DeletePreviousWordOutcome,
    EndSessionAction, InsertLiteralAction, PendingCandidateAction, PendingCandidateView,
    PendingCommitAction, PendingCommitView, RestoreAction, RestoreView, SelectionView,
    StartSessionAction,
};
use crate::chars::{
    control_char, is_control, is_pinyin_char, is_whitespace, pinyin_char, whitespace_char,
};
use crate::config::{AppConfig, ConfigView};
use crate::separators::QuoteState;
use crate::text::{
    any_letter, char_count, contains_char, ends_with, finishes_with, has_letter, join, same, slice,
    to_chars, trim_end,
};
use crate::tokens::body_has_pinyin;

verus! {

/// Whether a session is open.
#[derive(Debug, Clone, Copy, PartialEq, Eq, Structural)]
pub enum CaptureMode {
    Idle,
    Active,
}

/// A conversion that the next Backspace undoes.
#[derive(Debug, PartialEq, Eq)]
pub struct ReversibleConversion {
    pub original_text: String,
    pub inserted_text: String,
    pub quote_state_before: QuoteState,
}

/// What a [`ReversibleConversion`] holds.
#[verifier::ext_equal]
pub struct ReversibleView {
    pub original_text: Seq<char>,
    pub inserted_text: Seq<char>,
    pub quote_state_before: QuoteState,
}

impl View for ReversibleConversion {
    type V = ReversibleView;

    open spec fn view(&self) -> ReversibleView {
        ReversibleView {
            original_text: self.original_text@,
            inserted_text: self.inserted_text@,
            quote_state_before: self.quote_state_before,
        }
    }
}

impl Clone for ReversibleConversion {
    fn clone(&self) -> (r: Self)
        ensures
            r@ == self@,
    {
        ReversibleConversion {
            original_text: self.original_text.clone(),
            inserted_text: self.inserted_text.clone(),
            quote_state_before: self.quote_state_before,
        }
    }
}

/// What an optional conversion holds.
pub open spec fn reversible_option(o: Option<ReversibleConversion>) -> Option<ReversibleView> {
    match o {
        Some(c) => Some(c@),
        None => None,
    }
}

/// The capture state.
#[derive(Debug)]
pub struct CaptureState {
    /// The raw text since the last boundary.
    pub buffer: String,
    /// For each character of the buffer, whether the host shows it.
    pub buffer_visible: Vec<bool>,
    pub config: AppConfig,
    /// How many characters the buffer keeps of what is typed.
    pub max_buffer_chars: usize,
    pub mode: CaptureMode,
    /// How many characters of the host the session has produced.
    pub committed_output_chars: usize,
    /// How many Backspaces stand for the trigger that was deleted.
    pub hidden_prefix_backspaces_remaining: usize,
    /// The page of candidates that is shown.
    pub candidate_page: usize,
    /// The conversion that the next Backspace undoes.
    pub last_conversion: Option<ReversibleConversion>,
}

/// What a [`CaptureState`] holds.
#[verifier::ext_equal]
pub struct CaptureView {
    pub buffer: Seq<char>,
    pub visible: Seq<bool>,
    pub config: ConfigView,
    pub max_buffer_chars: usize,
    pub mode: CaptureMode,
    pub committed_output_chars: usize,
    pub hidden_prefix_backspaces_remaining: usize,
    pub candidate_page: usize,
    pub last_conversion: Option<ReversibleView>,
}

impl View for CaptureState {
    type V = CaptureView;

    open spec fn view(&self) -> CaptureView {
        CaptureView {
            buffer: self.buffer@,
            visible: self.buffer_visible@,
            config: self.config@,
            max_buffer_chars: self.max_buffer_chars,
            mode: self.mode,
            committed_output_chars: self.committed_output_chars,
            hidden_prefix_backspaces_remaining: self.hidden_prefix_backspaces_remaining,
            candidate_page: self.candidate_page,
            last_conversion: reversible_option(self.last_conversion),
        }
    }
}

impl Clone for CaptureState {
    fn clone(&self) -> (r: Self)
        ensures
            r@ == self@,
    {
        CaptureState {
            buffer: self.buffer.clone(),
            buffer_visible: self.buffer_visible.clone(),
            config: self.config.clone(),
            max_buffer_chars: self.max_buffer_chars,
            mode: self.mode,
            committed_output_chars: self.committed_output_chars,
            hidden_prefix_backspaces_remaining: self.hidden_prefix_backspaces_remaining,
            candidate_page: self.candidate_page,
            last_conversion: match &self.last_conversion {
                Some(c) => Some(c.clone()),
                None => None,
            },
        }
    }
}

/// How many of the flags are set.
pub open spec fn count_visible(visible: Seq<bool>) -> nat
    decreases visible.len(),
{
    if visible.len() == 0 {
        0
    } else {
        count_visible(visible.drop_last()) + if visible.last() {
            1nat
        } else {
            0nat
        }
    }
}

/// The characters of `buffer` whose flag is `shown`.
pub open spec fn chars_shown(buffer: Seq<char>, visible: Seq<bool>, shown: bool) -> Seq<char>
    decreases buffer.len(),
{
    if buffer.len() == 0 {
        seq![]
    } else {
        let before = chars_shown(buffer.drop_last(), visible.drop_last(), shown);
        if visible.last() == shown {
            before.push(buffer.last())
        } else {
            before
        }
    }
}

/// `a + b`, or the largest `usize` where that is too large.
pub open spec fn saturating_sum(a: usize, b: nat) -> usize {
    if a + b <= usize::MAX {
        (a + b) as usize
    } else {
        usize::MAX
    }
}

/// `a - b`, or zero where that is negative.
pub open spec fn saturating_difference(a: usize, b: nat) -> usize {
    if a >= b {
        (a - b) as usize
    } else {
        0
    }
}

/// `s` without the pinyin characters at its end.
pub open spec fn without_last_run(s: Seq<char>) -> Seq<char>
    decreases s.len(),
{
    if s.len() > 0 && pinyin_char(s.last()) {
        without_last_run(s.drop_last())
    } else {
        s
    }
}

/// All characters of `s` are pinyin characters.
pub open spec fn all_pinyin(s: Seq<char>) -> bool {
    forall|i: int| 0 <= i < s.len() ==> pinyin_char(#[trigger] s[i])
}

/// `n` flags that are all set.
pub open spec fn all_visible(n: nat) -> Seq<bool> {
    Seq::new(n, |i: int| true)
}

impl CaptureView {
    /// Each character of the buffer has a flag.
    pub open spec fn wf(self) -> bool {
        self.buffer.len() == self.visible.len()
    }

    /// A session is open.
    pub open spec fn active(self) -> bool {
        self.mode == CaptureMode::Active
    }

    /// The state with nothing in the buffer.
    pub open spec fn emptied(self) -> CaptureView {
        CaptureView { buffer: seq![], visible: seq![], ..self }
    }

    /// The state with only the last characters in the buffer, as many as it keeps.
    pub open spec fn trimmed(self) -> CaptureView {
        if self.buffer.len() > self.max_buffer_chars {
            let extra = self.buffer.len() - self.max_buffer_chars;
            CaptureView {
                buffer: self.buffer.skip(extra),
                visible: self.visible.skip(extra),
                ..self
            }
        } else {
            self
        }
    }

    /// The state with one more character in the buffer.
    pub open spec fn appended(self, ch: char, visible: bool) -> CaptureView {
        CaptureView {
            buffer: self.buffer.push(ch),
            visible: self.visible.push(visible),
            ..self
        }.trimmed()
    }

    /// How many Backspaces leave a session in which nothing has been typed.
    pub open spec fn exit_backspaces(self) -> nat {
        if self.config.trigger_prefix.len() > 0 {
            self.config.trigger_prefix.len()
        } else {
            1
        }
    }

    /// How many of the last `n` characters of the buffer the host shows.
    pub open spec fn visible_tail(self, n: nat) -> nat {
        count_visible(
            self.visible.skip(
                if n <= self.visible.len() {
                    self.visible.len() - n
                } else {
                    0
                },
            ),
        )
    }

    /// `ch` ends a pinyin run: it is neither pinyin nor part of a trigger.
    pub open spec fn commit_separator(self, ch: char) -> bool {
        &&& !pinyin_char(ch)
        &&& !self.config.trigger_prefix.contains(ch)
        &&& !self.config.trigger_suffix.contains(ch)
    }

    /// The state in which a session has just been opened.
    pub open spec fn opened(self) -> CaptureView {
        CaptureView {
            mode: CaptureMode::Active,
            committed_output_chars: 0,
            hidden_prefix_backspaces_remaining: self.exit_backspaces() as usize,
            candidate_page: 0,
            last_conversion: None,
            ..self.emptied()
        }
    }

    /// The state with no session and nothing remembered.
    pub open spec fn cleared(self) -> CaptureView {
        CaptureView {
            mode: CaptureMode::Idle,
            committed_output_chars: 0,
            hidden_prefix_backspaces_remaining: 0,
            candidate_page: 0,
            last_conversion: None,
            ..self.emptied()
        }
    }

    /// What is asked for when the buffer ends with the trigger that closes a session: what is
    /// before the trigger is converted, or put back where there is nothing to convert.
    pub open spec fn end_action(self) -> ActionView {
        let body = self.buffer.take(self.buffer.len() - self.config.trigger_suffix.len());
        if has_letter(body) {
            ActionView::Convert(
                ConversionView {
                    typed_text: self.buffer,
                    body,
                    restore_text: body,
                    delete_chars: count_visible(self.visible) as usize,
                    stay_active: false,
                },
            )
        } else {
            ActionView::EndSession {
                typed_text: self.buffer,
                replacement_text: body,
                delete_chars: count_visible(self.visible) as usize,
            }
        }
    }

    /// What comes of a separator: the pinyin before it is converted, with the separator but
    /// without white space at the end. Where there is no pinyin, the text counts as produced,
    /// and what the host does not show of it is inserted.
    pub open spec fn separated(self) -> (CaptureView, Option<ActionView>) {
        let body = trim_end(self.buffer);
        if has_letter(body) {
            (
                CaptureView {
                    mode: CaptureMode::Active,
                    candidate_page: 0,
                    last_conversion: None,
                    ..self.emptied()
                },
                Some(
                    ActionView::Convert(
                        ConversionView {
                            typed_text: self.buffer,
                            body,
                            restore_text: body,
                            delete_chars: count_visible(self.visible) as usize,
                            stay_active: true,
                        },
                    ),
                ),
            )
        } else {
            let hidden = chars_shown(self.buffer, self.visible, false);
            (
                CaptureView {
                    committed_output_chars: saturating_sum(
                        self.committed_output_chars,
                        self.buffer.len(),
                    ),
                    candidate_page: 0,
                    ..self.emptied()
                },
                if hidden.len() > 0 {
                    Some(ActionView::InsertLiteral { text: hidden })
                } else {
                    None
                },
            )
        }
    }

    /// What comes of typing `ch`, which the host shows or not. Without a session, the trigger
    /// opens one. In a session, the closing trigger ends it, a separator converts what is
    /// before it, and anything else is collected.
    pub open spec fn typed(self, ch: char, visible: bool) -> (CaptureView, Option<ActionView>) {
        let next = CaptureView { last_conversion: None, ..self }.appended(ch, visible);
        if !next.active() {
            if finishes_with(next.buffer, next.config.trigger_prefix) {
                (
                    next.opened(),
                    Some(
                        ActionView::StartSession {
                            trigger_text: next.config.trigger_prefix,
                            delete_chars: next.visible_tail(
                                next.config.trigger_prefix.len(),
                            ) as usize,
                        },
                    ),
                )
            } else {
                (next, None)
            }
        } else if finishes_with(next.buffer, next.config.trigger_suffix) {
            (next.cleared(), Some(next.end_action()))
        } else if next.commit_separator(ch) {
            next.separated()
        } else {
            (CaptureView { candidate_page: 0, ..next }, None)
        }
    }

    /// What comes of typing `text`, control characters left out: the characters are typed one
    /// by one, and the last action stands.
    pub open spec fn typed_text(self, text: Seq<char>, visible: bool) -> (
        CaptureView,
        Option<ActionView>,
    )
        decreases text.len(),
    {
        if text.len() == 0 {
            (self, None)
        } else {
            let (before, action) = self.typed_text(text.drop_last(), visible);
            if control_char(text.last()) {
                (before, action)
            } else {
                let (next, next_action) = before.typed(text.last(), visible);
                (
                    next,
                    if next_action is Some {
                        next_action
                    } else {
                        action
                    },
                )
            }
        }
    }

    /// The state with `text` in the buffer, control characters left out.
    pub open spec fn appended_text(self, text: Seq<char>, visible: bool) -> CaptureView
        decreases text.len(),
    {
        if text.len() == 0 {
            self
        } else {
            let before = self.appended_text(text.drop_last(), visible);
            if control_char(text.last()) {
                before
            } else {
                before.appended(text.last(), visible)
            }
        }
    }

    /// The state after text was collected without calling for anything.
    pub open spec fn collected(self, text: Seq<char>, visible: bool) -> CaptureView {
        CaptureView { last_conversion: None, candidate_page: 0, ..self }.appended_text(
            text,
            visible,
        )
    }

    /// Backspace is kept from the host: it undoes a conversion that inserted nothing, or takes
    /// away a character that the host does not show, or counts for the deleted trigger.
    pub open spec fn consumes_backspace(self) -> bool {
        &&& self.active()
        &&& match self.last_conversion {
            Some(c) => c.inserted_text.len() == 0,
            None => if self.buffer.len() > 0 {
                self.visible.len() > 0 && !self.visible.last()
            } else {
                self.committed_output_chars == 0 && self.hidden_prefix_backspaces_remaining > 0
            },
        }
    }

    /// Backspace takes away a character that the host shows.
    pub open spec fn backspace_reaches_host(self) -> bool {
        &&& self.active()
        &&& self.last_conversion is None
        &&& if self.buffer.len() > 0 {
            self.visible.len() > 0 && self.visible.last()
        } else {
            self.committed_output_chars > 0
        }
    }

    /// The state after a Backspace: it takes a character of the buffer, or else one that the
    /// session has produced, or else one of the deleted trigger; with the last of those the
    /// session ends.
    pub open spec fn backspaced(self) -> CaptureView {
        let next = CaptureView { last_conversion: None, candidate_page: 0, ..self };
        if self.buffer.len() > 0 {
            CaptureView {
                buffer: self.buffer.drop_last(),
                visible: self.visible.drop_last(),
                ..next
            }
        } else if self.committed_output_chars > 0 {
            CaptureView {
                committed_output_chars: (self.committed_output_chars - 1) as usize,
                mode: CaptureMode::Active,
                ..next
            }
        } else if self.hidden_prefix_backspaces_remaining > 0 {
            CaptureView {
                hidden_prefix_backspaces_remaining: (self.hidden_prefix_backspaces_remaining
                    - 1) as usize,
                mode: if self.hidden_prefix_backspaces_remaining > 1 {
                    CaptureMode::Active
                } else {
                    CaptureMode::Idle
                },
                ..next
            }
        } else {
            CaptureView { mode: CaptureMode::Idle, ..next }
        }
    }

    /// What is left of the buffer when its last word is deleted: the white space at the end
    /// goes, and then the pinyin characters at the end.
    pub open spec fn before_last_word(self) -> Seq<char> {
        without_last_run(trim_end(self.buffer))
    }

    /// The state after the last word was deleted.
    pub open spec fn word_deleted(self) -> CaptureView {
        CaptureView {
            buffer: self.before_last_word(),
            visible: self.visible.take(self.before_last_word().len() as int),
            last_conversion: None,
            candidate_page: 0,
            ..self
        }
    }

    /// What deleting the last word takes away.
    pub open spec fn word_outcome(self) -> DeletePreviousWordOutcome {
        let kept = self.before_last_word().len();
        DeletePreviousWordOutcome {
            removed_chars: (self.buffer.len() - kept) as usize,
            removed_visible_chars: count_visible(self.visible.skip(kept as int)) as usize,
        }
    }

    /// The state after a conversion of `original` to `inserted`; it can be undone, unless it
    /// changed nothing.
    pub open spec fn converted(
        self,
        original: Seq<char>,
        inserted: Seq<char>,
        quote_state_before: QuoteState,
    ) -> CaptureView {
        CaptureView {
            committed_output_chars: saturating_sum(self.committed_output_chars, inserted.len()),
            last_conversion: if original == inserted {
                None
            } else {
                Some(
                    ReversibleView {
                        original_text: original,
                        inserted_text: inserted,
                        quote_state_before,
                    },
                )
            },
            ..self
        }
    }

    /// The state after `text` was produced for good.
    pub open spec fn produced(self, text: Seq<char>) -> CaptureView {
        CaptureView {
            committed_output_chars: saturating_sum(self.committed_output_chars, text.len()),
            last_conversion: None,
            ..self
        }
    }

    /// The state after the last conversion was undone.
    pub open spec fn restored(self) -> CaptureView {
        match self.last_conversion {
            Some(c) => CaptureView {
                buffer: c.original_text,
                visible: all_visible(c.original_text.len()),
                mode: CaptureMode::Active,
                committed_output_chars: saturating_difference(
                    self.committed_output_chars,
                    c.inserted_text.len(),
                ),
                candidate_page: 0,
                last_conversion: None,
                ..self
            },
            None => self,
        }
    }

    /// What is asked for when the last conversion is undone: its output is deleted, but for
    /// the character that the host's own Backspace has taken, and the original comes back.
    pub open spec fn restore_action(self, host_backspace_applied: bool) -> Option<RestoreView> {
        match self.last_conversion {
            Some(c) => Some(
                RestoreView {
                    original_text: c.original_text,
                    replacement_text: c.original_text,
                    delete_remaining_chars: if host_backspace_applied && c.inserted_text.len() > 0 {
                        (c.inserted_text.len() - 1) as usize
                    } else {
                        c.inserted_text.len() as usize
                    },
                    quote_state_before: c.quote_state_before,
                },
            ),
            None => None,
        }
    }

    /// The pinyin for which candidates are offered: the buffer of a session, where it holds
    /// pinyin characters only and at least one letter.
    pub open spec fn pending(self) -> Option<Seq<char>> {
        if self.active() && all_pinyin(self.buffer) && has_letter(self.buffer) {
            Some(self.buffer)
        } else {
            None
        }
    }

    /// The text of a session from which the candidates that are shown come.
    pub open spec fn preview_body(self) -> Seq<char> {
        if self.active() {
            self.buffer
        } else {
            seq![]
        }
    }

    /// The state after the pending pinyin was taken out.
    pub open spec fn pending_taken(self) -> CaptureView {
        if self.pending() is Some {
            CaptureView { candidate_page: 0, last_conversion: None, ..self.emptied() }
        } else {
            self
        }
    }

    /// What is asked for when the pending pinyin is replaced.
    pub open spec fn pending_commit(self, replacement: Seq<char>) -> Option<PendingCommitView> {
        match self.pending() {
            Some(pinyin) => Some(
                PendingCommitView {
                    original_text: pinyin,
                    replacement_text: replacement,
                    delete_chars: count_visible(self.visible) as usize,
                },
            ),
            None => None,
        }
    }

    /// A candidate can be taken: it is not empty, and a partial one leaves a shorter end of
    /// the pending pinyin, which holds a letter.
    pub open spec fn accepts(self, selection: SelectionView) -> bool {
        match self.pending() {
            None => false,
            Some(pinyin) => match selection {
                SelectionView::Complete { text } => text.len() > 0,
                SelectionView::Partial { selected_text, remaining_pinyin } => {
                    &&& selected_text.len() > 0
                    &&& 0 < remaining_pinyin.len() < pinyin.len()
                    &&& finishes_with(pinyin, remaining_pinyin)
                    &&& all_pinyin(remaining_pinyin)
                    &&& has_letter(remaining_pinyin)
                },
            },
        }
    }

    /// The state after a candidate was taken: what it left of the pinyin is pending.
    pub open spec fn candidate_taken(self, selection: SelectionView) -> CaptureView {
        if !self.accepts(selection) {
            self
        } else {
            let remaining = match selection {
                SelectionView::Complete { .. } => Seq::<char>::empty(),
                SelectionView::Partial { remaining_pinyin, .. } => remaining_pinyin,
            };
            CaptureView {
                buffer: remaining,
                visible: all_visible(remaining.len()),
                candidate_page: 0,
                last_conversion: None,
                ..self
            }
        }
    }

    /// What is asked for when a candidate is taken.
    pub open spec fn candidate_action(self, selection: SelectionView) -> Option<
        PendingCandidateView,
    > {
        if !self.accepts(selection) {
            None
        } else {
            Some(
                PendingCandidateView {
                    original_text: self.buffer,
                    selected_text: match selection {
                        SelectionView::Complete { text } => text,
                        SelectionView::Partial { selected_text, .. } => selected_text,
                    },
                    remaining_pinyin: match selection {
                        SelectionView::Complete { .. } => None,
                        SelectionView::Partial { remaining_pinyin, .. } => Some(remaining_pinyin),
                    },
                    replacement_text: match selection {
                        SelectionView::Complete { text } => text,
                        SelectionView::Partial { selected_text, remaining_pinyin } => selected_text
                            + remaining_pinyin,
                    },
                    delete_chars: count_visible(self.visible) as usize,
                },
            )
        }
    }
}

/// `value` without the white space at its end.
pub fn trim_commit_only_whitespace(value: &str) -> (r: &str)
    ensures
        r@ == trim_end(value@),
{
    let chars = to_chars(value);
    let mut end: usize = chars.len();
    assert(chars@.take(end as int) =~= chars@);
    while end > 0 && is_whitespace(chars[end - 1])
        invariant
            end <= chars.len(),
            chars@ == value@,
            trim_end(value@) == trim_end(chars@.take(end as int)),
        decreases end,
    {
        assert(chars@.take(end as int).drop_last() =~= chars@.take(end - 1));
        end -= 1;
    }
    value.substring_char(0, end)
}

/// Are all characters of `s` pinyin characters?
fn is_all_pinyin(s: &str) -> (r: bool)
    ensures
        r == all_pinyin(s@),
{
    let chars = to_chars(s);
    let mut i: usize = 0;
    while i < chars.len()
        invariant
            i <= chars.len(),
            chars@ == s@,
            forall|j: int| 0 <= j < i ==> pinyin_char(#[trigger] chars@[j]),
        decreases chars.len() - i,
    {
        if !is_pinyin_char(chars[i]) {
            assert(!pinyin_char(chars@[i as int]));
            return false;
        }
        i += 1;
    }
    true
}

/// `n` flags that are all set.
fn visible_flags(n: usize) -> (r: Vec<bool>)
    ensures
        r@ == all_visible(n as nat),
{
    let mut out: Vec<bool> = Vec::new();
    let mut i: usize = 0;
    while i < n
        invariant
            i <= n,
            out@ == all_visible(i as nat),
        decreases n - i,
    {
        out.push(true);
        i += 1;
        assert(out@ =~= all_visible(i as nat));
    }
    out
}

/// How many of the flags from `start` on are set.
fn count_flags(flags: &[bool], start: usize) -> (r: usize)
    requires
        start <= flags@.len(),
    ensures
        r == count_visible(flags@.skip(start as int)),
{
    let ghost tail = flags@.skip(start as int);
    let mut count: usize = 0;
    let mut i: usize = start;
    assert(tail.take(0) =~= Seq::<bool>::empty());
    while i < flags.len()
        invariant
            start <= i <= flags.len(),
            tail == flags@.skip(start as int),
            count <= i - start,
            count == count_visible(tail.take(i - start)),
        decreases flags.len() - i,
    {
        proof {
            assert(tail.take(i - start + 1).drop_last() =~= tail.take(i - start));
            assert(tail.take(i - start + 1).last() == flags@[i as int]);
        }
        if flags[i] {
            count += 1;
        }
        i += 1;
    }
    assert(tail.take(flags.len() - start) =~= tail);
    count
}

/// The characters of `buffer` that the host does not show.
fn hidden_text(buffer: &str, visible: &[bool]) -> (r: String)
    requires
        buffer@.len() == visible@.len(),
    ensures
        r@ == chars_shown(buffer@, visible@, false),
{
    let chars = to_chars(buffer);
    let mut out = String::new();
    let mut i: usize = 0;
    while i < chars.len()
        invariant
            i <= chars.len(),
            chars@ == buffer@,
            chars.len() == visible.len(),
            out@ == chars_shown(chars@.take(i as int), visible@.take(i as int), false),
        decreases chars.len() - i,
    {
        proof {
            assert(chars@.take(i + 1).drop_last() =~= chars@.take(i as int));
            assert(visible@.take(i + 1).drop_last() =~= visible@.take(i as int));
        }
        if !visible[i] {
            out.push(chars[i]);
        }
        i += 1;
    }
    assert(chars@.take(chars.len() as int) =~= chars@);
    assert(visible@.take(visible.len() as int) =~= visible@);
    out
}

/// What is left when the end is cut off is a first part of the text.
pub proof fn lemma_before_last_word(s: Seq<char>)
    ensures
        trim_end(s).len() <= s.len(),
        trim_end(s) == s.take(trim_end(s).len() as int),
        without_last_run(s).len() <= s.len(),
        without_last_run(s) == s.take(without_last_run(s).len() as int),
    decreases s.len(),
{
    if s.len() > 0 {
        lemma_before_last_word(s.drop_last());
        if whitespace_char(s.last()) {
            assert(trim_end(s) =~= s.take(trim_end(s).len() as int));
        }
        if pinyin_char(s.last()) {
            assert(without_last_run(s) =~= s.take(without_last_run(s).len() as int));
        }
    }
    assert(s.take(s.len() as int) =~= s);
}

impl CaptureState {
    /// A state with no session and nothing typed.
    pub fn new(config: AppConfig, max_buffer_chars: usize) -> (r: Self)
        ensures
            r@ == (CaptureView {
                buffer: seq![],
                visible: seq![],
                config: config@,
                max_buffer_chars,
                mode: CaptureMode::Idle,
                committed_output_chars: 0,
                hidden_prefix_backspaces_remaining: 0,
                candidate_page: 0,
                last_conversion: None,
            }),
            r@.wf(),
    {
        CaptureState {
            buffer: String::new(),
            buffer_visible: Vec::new(),
            config,
            max_buffer_chars,
            mode: CaptureMode::Idle,
            committed_output_chars: 0,
            hidden_prefix_backspaces_remaining: 0,
            candidate_page: 0,
            last_conversion: None,
        }
    }

    /// Takes in text that the host shows.
    pub fn push_text(&mut self, text: &str) -> (r: Option<CaptureAction>)
        requires
            old(self)@.wf(),
        ensures
            final(self)@ == old(self)@.typed_text(text@, true).0,
            action_option(r) == old(self)@.typed_text(text@, true).1,
            final(self)@.wf(),
    {
        self.push_text_with_visibility(text, true)
    }

    /// Takes in text that the host shows or not. Control characters are left out; the last
    /// action that a character calls for is returned.
    pub fn push_text_with_visibility(&mut self, text: &str, visible: bool) -> (r: Option<
        CaptureAction,
    >)
        requires
            old(self)@.wf(),
        ensures
            final(self)@ == old(self)@.typed_text(text@, visible).0,
            action_option(r) == old(self)@.typed_text(text@, visible).1,
            final(self)@.wf(),
    {
        let ghost before = self@;
        let chars = to_chars(text);
        let mut action: Option<CaptureAction> = None;
        let mut i: usize = 0;
        while i < chars.len()
            invariant
                i <= chars.len(),
                chars@ == text@,
                self@.wf(),
                self@ == before.typed_text(chars@.take(i as int), visible).0,
                action_option(action) == before.typed_text(chars@.take(i as int), visible).1,
            decreases chars.len() - i,
        {
            let ch = chars[i];
            proof {
                assert(chars@.take(i + 1).drop_last() =~= chars@.take(i as int));
                assert(chars@.take(i + 1).last() == ch);
            }
            i += 1;
            if !is_control(ch) {
                if let Some(next_action) = self.push_char(ch, visible) {
                    action = Some(next_action);
                }
            }
        }
        assert(chars@.take(chars.len() as int) =~= chars@);
        action
    }

    /// Collects text without calling for anything.
    pub fn append_text_without_actions(&mut self, text: &str, visible: bool)
        requires
            old(self)@.wf(),
        ensures
            final(self)@ == old(self)@.collected(text@, visible),
            final(self)@.wf(),
    {
        self.last_conversion = None;
        self.candidate_page = 0;
        let ghost before = self@;
        let chars = to_chars(text);
        let mut i: usize = 0;
        while i < chars.len()
            invariant
                i <= chars.len(),
                chars@ == text@,
                self@.wf(),
                self@ == before.appended_text(chars@.take(i as int), visible),
            decreases chars.len() - i,
        {
            let ch = chars[i];
            proof {
                assert(chars@.take(i + 1).drop_last() =~= chars@.take(i as int));
                assert(chars@.take(i + 1).last() == ch);
            }
            i += 1;
            if !is_control(ch) {
                self.buffer.push(ch);
                self.buffer_visible.push(visible);
                self.trim_buffer();
            }
        }
        assert(chars@.take(chars.len() as int) =~= chars@);
    }

    /// Goes back to the state before a rewrite that failed, with the text that asked for it
    /// in the buffer.
    pub fn restore_after_failed_rewrite(
        &mut self,
        previous: CaptureState,
        text: &str,
        visible: bool,
    )
        requires
            previous@.wf(),
        ensures
            final(self)@ == previous@.collected(text@, visible),
            final(self)@.wf(),
    {
        *self = previous;
        self.append_text_without_actions(text, visible);
    }

    /// Will this text call for a rewrite of the host?
    pub fn will_rewrite_after_text(&self, text: &str, visible: bool) -> (r: bool)
        requires
            self@.wf(),
        ensures
            r == (self@.typed_text(text@, visible).1 is Some),
    {
        let mut next = self.clone();
        next.push_text_with_visibility(text, visible).is_some()
    }

    /// Is a session open?
    pub fn is_active(&self) -> (r: bool)
        ensures
            r == self@.active(),
    {
        self.mode == CaptureMode::Active
    }

    /// How many Backspaces leave a session in which nothing has been typed.
    pub fn active_exit_backspace_count(&self) -> (r: usize)
        ensures
            r == self@.exit_backspaces(),
    {
        let n = char_count(&self.config.trigger_prefix);
        if n > 0 {
            n
        } else {
            1
        }
    }

    /// Is a Backspace kept from the host?
    pub fn should_consume_backspace(&self) -> (r: bool)
        requires
            self@.wf(),
        ensures
            r == self@.consumes_backspace(),
    {
        if !self.is_active() {
            return false;
        }
        if let Some(conversion) = &self.last_conversion {
            return conversion.inserted_text.as_str().is_empty();
        }
        let n = self.buffer_visible.len();
        if n > 0 {
            return !self.buffer_visible[n - 1];
        }
        self.committed_output_chars == 0 && self.hidden_prefix_backspaces_remaining > 0
    }

    /// Does a Backspace take away a character that the host shows?
    pub fn backspace_affects_visible_host(&self) -> (r: bool)
        requires
            self@.wf(),
        ensures
            r == self@.backspace_reaches_host(),
    {
        if !self.is_active() || self.last_conversion.is_some() {
            return false;
        }
        let n = self.buffer_visible.len();
        if n > 0 {
            return self.buffer_visible[n - 1];
        }
        self.committed_output_chars > 0
    }

    /// Takes in one character.
    pub fn push_char(&mut self, ch: char, visible: bool) -> (r: Option<CaptureAction>)
        requires
            old(self)@.wf(),
        ensures
            final(self)@ == old(self)@.typed(ch, visible).0,
            action_option(r) == old(self)@.typed(ch, visible).1,
            final(self)@.wf(),
    {
        self.last_conversion = None;
        self.buffer.push(ch);
        self.buffer_visible.push(visible);
        self.trim_buffer();

        match self.mode {
            CaptureMode::Idle => {
                if ends_with(&self.buffer, &self.config.trigger_prefix) {
                    let trigger_text = self.config.trigger_prefix.clone();
                    let delete_chars = self.visible_tail_chars(char_count(&trigger_text));
                    self.buffer = String::new();
                    self.buffer_visible.clear();
                    self.mode = CaptureMode::Active;
                    self.committed_output_chars = 0;
                    self.hidden_prefix_backspaces_remaining = self.active_exit_backspace_count();
                    self.candidate_page = 0;
                    self.last_conversion = None;
                    return Some(
                        CaptureAction::StartSession(
                            StartSessionAction { trigger_text, delete_chars },
                        ),
                    );
                }
                None
            },
            CaptureMode::Active => {
                if let Some(action) = self.try_end_session() {
                    return Some(action);
                }
                if self.is_commit_separator(ch) {
                    return self.try_incremental_conversion();
                }
                self.candidate_page = 0;
                None
            },
        }
    }

    /// Takes one step back.
    pub fn backspace(&mut self)
        requires
            old(self)@.wf(),
        ensures
            final(self)@ == old(self)@.backspaced(),
            final(self)@.wf(),
    {
        self.last_conversion = None;
        self.candidate_page = 0;
        if self.buffer.pop().is_some() {
            self.buffer_visible.pop();
            return;
        }
        if self.committed_output_chars > 0 {
            self.committed_output_chars -= 1;
            self.mode = CaptureMode::Active;
            return;
        }
        if self.hidden_prefix_backspaces_remaining > 0 {
            self.hidden_prefix_backspaces_remaining -= 1;
            self.mode = if self.hidden_prefix_backspaces_remaining > 0 {
                CaptureMode::Active
            } else {
                CaptureMode::Idle
            };
            return;
        }
        self.mode = CaptureMode::Idle;
    }

    /// Deletes the last word of the buffer.
    pub fn delete_previous_word(&mut self) -> (r: DeletePreviousWordOutcome)
        requires
            old(self)@.wf(),
        ensures
            final(self)@ == old(self)@.word_deleted(),
            r == old(self)@.word_outcome(),
            final(self)@.wf(),
    {
        self.last_conversion = None;
        self.candidate_page = 0;
        let chars = to_chars(&self.buffer);
        let mut end: usize = chars.len();
        assert(chars@.take(end as int) =~= chars@);
        while end > 0 && is_whitespace(chars[end - 1])
            invariant
                end <= chars.len(),
                trim_end(chars@) == trim_end(chars@.take(end as int)),
            decreases end,
        {
            assert(chars@.take(end as int).drop_last() =~= chars@.take(end - 1));
            end -= 1;
        }
        let ghost trimmed = chars@.take(end as int);
        while end > 0 && is_pinyin_char(chars[end - 1])
            invariant
                end <= chars.len(),
                without_last_run(trimmed) == without_last_run(chars@.take(end as int)),
            decreases end,
        {
            assert(chars@.take(end as int).drop_last() =~= chars@.take(end - 1));
            end -= 1;
        }
        assert(chars@.take(end as int) == self@.before_last_word());
        let removed_visible_chars = count_flags(&self.buffer_visible, end);
        self.buffer = slice(&self.buffer, 0, end);
        self.buffer_visible.truncate(end);
        DeletePreviousWordOutcome { removed_chars: chars.len() - end, removed_visible_chars }
    }

    /// Ends the session and forgets everything typed.
    pub fn clear(&mut self)
        ensures
            final(self)@ == old(self)@.cleared(),
            final(self)@.wf(),
    {
        self.buffer = String::new();
        self.buffer_visible.clear();
        self.mode = CaptureMode::Idle;
        self.committed_output_chars = 0;
        self.hidden_prefix_backspaces_remaining = 0;
        self.candidate_page = 0;
        self.last_conversion = None;
    }

    /// Notes that `original_text` was converted to `inserted_text`.
    pub fn record_conversion(
        &mut self,
        original_text: String,
        inserted_text: String,
        quote_state_before: QuoteState,
    )
        ensures
            final(self)@ == old(self)@.converted(
                original_text@,
                inserted_text@,
                quote_state_before,
            ),
            old(self)@.wf() ==> final(self)@.wf(),
    {
        self.committed_output_chars = self.committed_output_chars.saturating_add(
            char_count(&inserted_text),
        );
        self.last_conversion = if same(&original_text, &inserted_text) {
            None
        } else {
            Some(ReversibleConversion { original_text, inserted_text, quote_state_before })
        };
    }

    /// Notes that `text` was produced as it is.
    pub fn record_committed_literal(&mut self, text: &str)
        ensures
            final(self)@ == old(self)@.produced(text@),
            old(self)@.wf() ==> final(self)@.wf(),
    {
        self.committed_output_chars = self.committed_output_chars.saturating_add(char_count(text));
        self.last_conversion = None;
    }

    /// Undoes the last conversion, if there is one to undo.
    pub fn restore_last_conversion(&mut self, host_backspace_applied: bool) -> (r: Option<
        RestoreAction,
    >)
        requires
            old(self)@.wf(),
        ensures
            final(self)@ == old(self)@.restored(),
            restore_option(r) == old(self)@.restore_action(host_backspace_applied),
            final(self)@.wf(),
    {
        let conversion = match self.last_conversion.take() {
            Some(conversion) => conversion,
            None => {
                return None;
            },
        };
        let inserted_chars = char_count(&conversion.inserted_text);
        let delete_remaining_chars = if host_backspace_applied {
            inserted_chars.saturating_sub(1)
        } else {
            inserted_chars
        };
        self.committed_output_chars = self.committed_output_chars.saturating_sub(inserted_chars);
        self.buffer = conversion.original_text.clone();
        self.buffer_visible = visible_flags(char_count(&conversion.original_text));
        self.mode = CaptureMode::Active;
        self.candidate_page = 0;
        let replacement_text = conversion.original_text.clone();
        Some(
            RestoreAction {
                original_text: conversion.original_text,
                replacement_text,
                delete_remaining_chars,
                quote_state_before: conversion.quote_state_before,
            },
        )
    }

    /// Keeps the last characters of the buffer, as many as it may hold.
    pub fn trim_buffer(&mut self)
        requires
            old(self)@.wf(),
        ensures
            final(self)@ == old(self)@.trimmed(),
            final(self)@.wf(),
    {
        let n = char_count(&self.buffer);
        if n > self.max_buffer_chars {
            let extra: usize = n - self.max_buffer_chars;
            self.buffer = slice(&self.buffer, extra, n);
            let kept = self.buffer_visible.split_off(extra);
            self.buffer_visible = kept;
        }
    }

    /// Ends the session if the buffer ends with the closing trigger.
    pub fn try_end_session(&mut self) -> (r: Option<CaptureAction>)
        requires
            old(self)@.wf(),
        ensures
            finishes_with(old(self)@.buffer, old(self)@.config.trigger_suffix) ==> final(self)@
                == old(self)@.cleared() && action_option(r) == Some(old(self)@.end_action()),
            !finishes_with(old(self)@.buffer, old(self)@.config.trigger_suffix) ==> final(self)@
                == old(self)@ && r is None,
            final(self)@.wf(),
    {
        if !ends_with(&self.buffer, &self.config.trigger_suffix) {
            return None;
        }
        let suffix_start = char_count(&self.buffer) - char_count(&self.config.trigger_suffix);
        let typed_text = self.buffer.clone();
        let body = self.active_body_from(&slice(&self.buffer, 0, suffix_start));
        let delete_chars = self.current_segment_delete_chars();
        self.clear();
        if body_has_pinyin(&body) {
            Some(
                CaptureAction::Convert(
                    ConversionAction {
                        typed_text,
                        restore_text: body.clone(),
                        delete_chars,
                        body,
                        stay_active: false,
                    },
                ),
            )
        } else {
            Some(
                CaptureAction::EndSession(
                    EndSessionAction { typed_text, replacement_text: body, delete_chars },
                ),
            )
        }
    }

    /// Converts what is in the buffer, or lets it stand where it holds no pinyin.
    pub fn try_incremental_conversion(&mut self) -> (r: Option<CaptureAction>)
        requires
            old(self)@.wf(),
        ensures
            final(self)@ == old(self)@.separated().0,
            action_option(r) == old(self)@.separated().1,
            final(self)@.wf(),
    {
        let typed_text = self.buffer.clone();
        let body = self.active_body_from(&typed_text);
        let body = trim_commit_only_whitespace(&body).to_owned();
        if !body_has_pinyin(&body) {
            let invisible_text = hidden_text(&self.buffer, &self.buffer_visible);
            self.committed_output_chars = self.committed_output_chars.saturating_add(
                char_count(&self.buffer),
            );
            self.buffer = String::new();
            self.buffer_visible.clear();
            self.candidate_page = 0;
            if invisible_text.as_str().is_empty() {
                return None;
            }
            return Some(CaptureAction::InsertLiteral(InsertLiteralAction { text: invisible_text }));
        }
        let delete_chars = self.current_segment_delete_chars();
        self.buffer = String::new();
        self.buffer_visible.clear();
        self.mode = CaptureMode::Active;
        self.candidate_page = 0;
        self.last_conversion = None;
        Some(
            CaptureAction::Convert(
                ConversionAction {
                    typed_text,
                    restore_text: body.clone(),
                    delete_chars,
                    body,
                    stay_active: true,
                },
            ),
        )
    }

    /// The body that the text of a session stands for: the text itself.
    pub fn active_body_from(&self, value: &str) -> (r: String)
        ensures
            r@ == value@,
    {
        value.to_owned()
    }

    /// The text of the session from which the candidates that are shown come.
    pub fn active_preview_body(&self) -> (r: String)
        ensures
            r@ == self@.preview_body(),
    {
        if self.is_active() {
            self.active_body_from(&self.buffer)
        } else {
            String::new()
        }
    }

    /// The pinyin for which candidates are offered.
    pub fn pending_pinyin(&self) -> (r: Option<String>)
        ensures
            text_option(r) == self@.pending(),
    {
        if !self.is_active() || !is_all_pinyin(&self.buffer) || !any_letter(&self.buffer) {
            return None;
        }
        Some(self.buffer.clone())
    }

    /// Takes the pending pinyin out, to be replaced by `replacement_text`.
    pub fn take_pending_commit(&mut self, replacement_text: String) -> (r: Option<
        PendingCommitAction,
    >)
        requires
            old(self)@.wf(),
        ensures
            final(self)@ == old(self)@.pending_taken(),
            commit_option(r) == old(self)@.pending_commit(replacement_text@),
            final(self)@.wf(),
    {
        let original_text = match self.pending_pinyin() {
            Some(text) => text,
            None => {
                return None;
            },
        };
        let delete_chars = self.current_segment_delete_chars();
        self.buffer = String::new();
        self.buffer_visible.clear();
        self.candidate_page = 0;
        self.last_conversion = None;
        Some(PendingCommitAction { original_text, replacement_text, delete_chars })
    }

    /// Takes a candidate for the pending pinyin, or for a first part of it.
    pub fn take_candidate_selection(&mut self, selection: CandidateSelection) -> (r: Option<
        PendingCandidateAction,
    >)
        requires
            old(self)@.wf(),
        ensures
            final(self)@ == old(self)@.candidate_taken(selection@),
            candidate_option(r) == old(self)@.candidate_action(selection@),
            final(self)@.wf(),
    {
        let original_text = match self.pending_pinyin() {
            Some(text) => text,
            None => {
                return None;
            },
        };
        let delete_chars = self.current_segment_delete_chars();
        match selection {
            CandidateSelection::Complete { text } => {
                if text.as_str().is_empty() {
                    return None;
                }
                self.buffer = String::new();
                self.buffer_visible.clear();
                self.candidate_page = 0;
                self.last_conversion = None;
                assert(self@.visible =~= all_visible(0));
                Some(
                    PendingCandidateAction {
                        original_text,
                        selected_text: text.clone(),
                        remaining_pinyin: None,
                        replacement_text: text,
                        delete_chars,
                    },
                )
            },
            CandidateSelection::Partial { selected_text, remaining_pinyin } => {
                let original_chars = char_count(&original_text);
                let remaining_chars = char_count(&remaining_pinyin);
                if selected_text.as_str().is_empty() || remaining_pinyin.as_str().is_empty()
                    || remaining_chars >= original_chars || !ends_with(
                    &original_text,
                    &remaining_pinyin,
                ) || !is_all_pinyin(&remaining_pinyin) || !any_letter(&remaining_pinyin) {
                    return None;
                }
                let replacement_text = join(&selected_text, &remaining_pinyin);
                self.buffer = remaining_pinyin.clone();
                self.buffer_visible = visible_flags(remaining_chars);
                self.candidate_page = 0;
                self.last_conversion = None;
                Some(
                    PendingCandidateAction {
                        original_text,
                        selected_text,
                        remaining_pinyin: Some(remaining_pinyin),
                        replacement_text,
                        delete_chars,
                    },
                )
            },
        }
    }

    /// Notes that a candidate for a part of the pinyin was produced.
    pub fn record_partial_candidate(&mut self, selected_text: &str)
        ensures
            final(self)@ == old(self)@.produced(selected_text@),
            old(self)@.wf() ==> final(self)@.wf(),
    {
        self.committed_output_chars = self.committed_output_chars.saturating_add(
            char_count(selected_text),
        );
        self.last_conversion = None;
    }

    /// Notes which page of candidates is shown.
    pub fn set_candidate_page(&mut self, page_no: usize)
        ensures
            final(self)@ == (CaptureView { candidate_page: page_no, ..old(self)@ }),
            old(self)@.wf() ==> final(self)@.wf(),
    {
        self.candidate_page = page_no;
    }

    /// Does `ch` end a pinyin run?
    pub fn is_commit_separator(&self, ch: char) -> (r: bool)
        ensures
            r == self@.commit_separator(ch),
    {
        !is_pinyin_char(ch) && !contains_char(&self.config.trigger_prefix, ch) && !contains_char(
            &self.config.trigger_suffix,
            ch,
        )
    }

    /// Notes that the host shows all of the buffer.
    pub fn show_all(&mut self)
        ensures
            final(self)@ == (CaptureView {
                visible: all_visible(old(self)@.buffer.len()),
                ..old(self)@
            }),
            final(self)@.wf(),
    {
        self.buffer_visible = visible_flags(char_count(&self.buffer));
    }

    /// How many characters of the buffer the host shows.
    pub fn visible_buffer_chars(&self) -> (r: usize)
        ensures
            r == count_visible(self@.visible),
    {
        assert(self.buffer_visible@.skip(0) =~= self.buffer_visible@);
        count_flags(&self.buffer_visible, 0)
    }

    /// How many of the last characters of the buffer the host shows.
    pub fn visible_tail_chars(&self, tail_chars: usize) -> (r: usize)
        ensures
            r == self@.visible_tail(tail_chars as nat),
    {
        count_flags(&self.buffer_visible, self.buffer_visible.len().saturating_sub(tail_chars))
    }

    /// How many characters to delete from the host to take the buffer away.
    pub fn current_segment_delete_chars(&self) -> (r: usize)
        ensures
            r == count_visible(self@.visible),
    {
        self.visible_buffer_chars()
    }
}

} // verus!
