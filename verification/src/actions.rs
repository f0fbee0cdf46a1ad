//! What the capture state asks for: deletions and insertions in the host application, and
//! conversions by the engine.

use vstd::prelude::*;

use crate::separators::QuoteState;

verus! {

/// What typed text calls for.
#[derive(Debug, PartialEq, Eq)]
pub enum CaptureAction {
    StartSession(StartSessionAction),
    Convert(ConversionAction),
    InsertLiteral(InsertLiteralAction),
    EndSession(EndSessionAction),
}

/// A session opens: the trigger is deleted from the host.
#[derive(Debug, PartialEq, Eq)]
pub struct StartSessionAction {
    pub trigger_text: String,
    pub delete_chars: usize,
}

/// A body is converted and takes the place of what was typed.
#[derive(Debug, PartialEq, Eq)]
pub struct ConversionAction {
    /// The text as typed.
    pub typed_text: String,
    /// The text to convert.
    pub body: String,
    /// The text that comes back when the conversion is undone.
    pub restore_text: String,
    /// How many characters to delete from the host.
    pub delete_chars: usize,
    /// Whether the session goes on.
    pub stay_active: bool,
}

/// Text that the host has not seen is inserted.
#[derive(Debug, PartialEq, Eq)]
pub struct InsertLiteralAction {
    pub text: String,
}

/// A session ends with nothing to convert.
#[derive(Debug, PartialEq, Eq)]
pub struct EndSessionAction {
    pub typed_text: String,
    pub replacement_text: String,
    pub delete_chars: usize,
}

/// The pending pinyin is replaced.
#[derive(Debug, PartialEq, Eq)]
pub struct PendingCommitAction {
    pub original_text: String,
    pub replacement_text: String,
    pub delete_chars: usize,
}

/// The pending pinyin, or a part of it, is replaced by a candidate.
#[derive(Debug, PartialEq, Eq)]
pub struct PendingCandidateAction {
    pub original_text: String,
    pub selected_text: String,
    pub remaining_pinyin: Option<String>,
    pub replacement_text: String,
    pub delete_chars: usize,
}

/// A conversion is undone.
#[derive(Debug, PartialEq, Eq)]
pub struct RestoreAction {
    pub original_text: String,
    pub replacement_text: String,
    pub delete_remaining_chars: usize,
    pub quote_state_before: QuoteState,
}

/// What the engine made of a selected candidate.
#[derive(Debug, PartialEq, Eq)]
pub enum CandidateSelection {
    /// The candidate stands for all of the pinyin.
    Complete { text: String },
    /// The candidate stands for a first part of the pinyin.
    Partial { selected_text: String, remaining_pinyin: String },
}

/// What a [`CaptureAction`] holds.
#[verifier::ext_equal]
pub enum ActionView {
    StartSession { trigger_text: Seq<char>, delete_chars: usize },
    Convert(ConversionView),
    InsertLiteral { text: Seq<char> },
    EndSession { typed_text: Seq<char>, replacement_text: Seq<char>, delete_chars: usize },
}

/// What a [`ConversionAction`] holds.
#[verifier::ext_equal]
pub struct ConversionView {
    pub typed_text: Seq<char>,
    pub body: Seq<char>,
    pub restore_text: Seq<char>,
    pub delete_chars: usize,
    pub stay_active: bool,
}

/// What a [`PendingCommitAction`] holds.
#[verifier::ext_equal]
pub struct PendingCommitView {
    pub original_text: Seq<char>,
    pub replacement_text: Seq<char>,
    pub delete_chars: usize,
}

/// What a [`PendingCandidateAction`] holds.
#[verifier::ext_equal]
pub struct PendingCandidateView {
    pub original_text: Seq<char>,
    pub selected_text: Seq<char>,
    pub remaining_pinyin: Option<Seq<char>>,
    pub replacement_text: Seq<char>,
    pub delete_chars: usize,
}

/// What a [`RestoreAction`] holds.
#[verifier::ext_equal]
pub struct RestoreView {
    pub original_text: Seq<char>,
    pub replacement_text: Seq<char>,
    pub delete_remaining_chars: usize,
    pub quote_state_before: QuoteState,
}

/// What a [`CandidateSelection`] holds.
#[verifier::ext_equal]
pub enum SelectionView {
    Complete { text: Seq<char> },
    Partial { selected_text: Seq<char>, remaining_pinyin: Seq<char> },
}

/// The characters of an optional string.
pub open spec fn text_option(o: Option<String>) -> Option<Seq<char>> {
    match o {
        Some(s) => Some(s@),
        None => None,
    }
}

impl View for ConversionAction {
    type V = ConversionView;

    open spec fn view(&self) -> ConversionView {
        ConversionView {
            typed_text: self.typed_text@,
            body: self.body@,
            restore_text: self.restore_text@,
            delete_chars: self.delete_chars,
            stay_active: self.stay_active,
        }
    }
}

impl View for CaptureAction {
    type V = ActionView;

    open spec fn view(&self) -> ActionView {
        match *self {
            CaptureAction::StartSession(a) => ActionView::StartSession {
                trigger_text: a.trigger_text@,
                delete_chars: a.delete_chars,
            },
            CaptureAction::Convert(a) => ActionView::Convert(a@),
            CaptureAction::InsertLiteral(a) => ActionView::InsertLiteral { text: a.text@ },
            CaptureAction::EndSession(a) => ActionView::EndSession {
                typed_text: a.typed_text@,
                replacement_text: a.replacement_text@,
                delete_chars: a.delete_chars,
            },
        }
    }
}

impl View for PendingCommitAction {
    type V = PendingCommitView;

    open spec fn view(&self) -> PendingCommitView {
        PendingCommitView {
            original_text: self.original_text@,
            replacement_text: self.replacement_text@,
            delete_chars: self.delete_chars,
        }
    }
}

impl View for PendingCandidateAction {
    type V = PendingCandidateView;

    open spec fn view(&self) -> PendingCandidateView {
        PendingCandidateView {
            original_text: self.original_text@,
            selected_text: self.selected_text@,
            remaining_pinyin: text_option(self.remaining_pinyin),
            replacement_text: self.replacement_text@,
            delete_chars: self.delete_chars,
        }
    }
}

impl View for RestoreAction {
    type V = RestoreView;

    open spec fn view(&self) -> RestoreView {
        RestoreView {
            original_text: self.original_text@,
            replacement_text: self.replacement_text@,
            delete_remaining_chars: self.delete_remaining_chars,
            quote_state_before: self.quote_state_before,
        }
    }
}

impl View for CandidateSelection {
    type V = SelectionView;

    open spec fn view(&self) -> SelectionView {
        match *self {
            CandidateSelection::Complete { text } => SelectionView::Complete { text: text@ },
            CandidateSelection::Partial { selected_text, remaining_pinyin } =>
            SelectionView::Partial {
                selected_text: selected_text@,
                remaining_pinyin: remaining_pinyin@,
            },
        }
    }
}

impl Clone for CandidateSelection {
    fn clone(&self) -> (r: Self)
        ensures
            r@ == self@,
    {
        match self {
            CandidateSelection::Complete { text } => CandidateSelection::Complete {
                text: text.clone(),
            },
            CandidateSelection::Partial { selected_text, remaining_pinyin } =>
            CandidateSelection::Partial {
                selected_text: selected_text.clone(),
                remaining_pinyin: remaining_pinyin.clone(),
            },
        }
    }
}

/// What an optional action holds.
pub open spec fn action_option(o: Option<CaptureAction>) -> Option<ActionView> {
    match o {
        Some(a) => Some(a@),
        None => None,
    }
}

/// What an optional pending commit holds.
pub open spec fn commit_option(o: Option<PendingCommitAction>) -> Option<PendingCommitView> {
    match o {
        Some(a) => Some(a@),
        None => None,
    }
}

/// What an optional candidate commit holds.
pub open spec fn candidate_option(o: Option<PendingCandidateAction>) -> Option<
    PendingCandidateView,
> {
    match o {
        Some(a) => Some(a@),
        None => None,
    }
}

/// What an optional restore holds.
pub open spec fn restore_option(o: Option<RestoreAction>) -> Option<RestoreView> {
    match o {
        Some(a) => Some(a@),
        None => None,
    }
}

/// What came of deleting the previous word.
#[derive(Debug, Clone, Copy, PartialEq, Eq, Structural)]
pub struct DeletePreviousWordOutcome {
    pub removed_chars: usize,
    pub removed_visible_chars: usize,
}

/// What to do with the key press that asked for the deletion.
#[derive(Debug, Clone, Copy, PartialEq, Eq, Structural)]
pub enum DeletePreviousWordDisposition {
    /// Keep it from the host: nothing that was deleted is there.
    Consume,
    /// Let the host delete the same word.
    PassThrough,
    /// The host and the capture state cannot be kept in step: forget the capture state.
    ClearAndPassThrough,
}

impl DeletePreviousWordOutcome {
    /// What to do with the key press: keep it where characters were deleted and the host had
    /// none of them, pass it on where the host had them all, and give up the capture state
    /// where nothing was deleted or the host had only some of the characters.
    pub open spec fn disposed(self) -> DeletePreviousWordDisposition {
        if self.removed_chars == 0 || 0 < self.removed_visible_chars < self.removed_chars {
            DeletePreviousWordDisposition::ClearAndPassThrough
        } else if self.removed_visible_chars == 0 {
            DeletePreviousWordDisposition::Consume
        } else {
            DeletePreviousWordDisposition::PassThrough
        }
    }

    /// What to do with the key press that asked for the deletion.
    pub fn disposition(self) -> (r: DeletePreviousWordDisposition)
        ensures
            r == self.disposed(),
    {
        if self.removed_chars == 0 || (self.removed_visible_chars > 0 && self.removed_visible_chars
            < self.removed_chars) {
            DeletePreviousWordDisposition::ClearAndPassThrough
        } else if self.removed_visible_chars == 0 {
            DeletePreviousWordDisposition::Consume
        } else {
            DeletePreviousWordDisposition::PassThrough
        }
    }
}

} // verus!
