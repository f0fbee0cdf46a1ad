//! What can go wrong while the listener handles an event, and what the user is told of it.

use vstd::prelude::*;

use crate::bytes::NulError;
use crate::engine::{EngineError, EngineErrorView};
use crate::text::{decimal, decimal_of, join};

verus! {

/// Why an event could not be handled.
#[derive(Debug, PartialEq, Eq)]
pub enum ListenerFailure {
    /// A text cannot be injected.
    Injection(NulError),
    /// Candidates cannot be shown.
    Panel(NulError),
    Engine(EngineError),
    /// A body to convert holds no pinyin.
    NoPinyin,
    /// A candidate was selected for other pinyin than is pending.
    StaleSelection,
}

/// What a [`ListenerFailure`] holds.
#[verifier::ext_equal]
pub enum FailureView {
    Injection(NulError),
    Panel(NulError),
    Engine(EngineErrorView),
    NoPinyin,
    StaleSelection,
}

impl View for ListenerFailure {
    type V = FailureView;

    open spec fn view(&self) -> FailureView {
        match *self {
            ListenerFailure::Injection(e) => FailureView::Injection(e),
            ListenerFailure::Panel(e) => FailureView::Panel(e),
            ListenerFailure::Engine(e) => FailureView::Engine(e@),
            ListenerFailure::NoPinyin => FailureView::NoPinyin,
            ListenerFailure::StaleSelection => FailureView::StaleSelection,
        }
    }
}

/// What the user is told of a NUL.
pub open spec fn nul_text(e: NulError) -> Seq<char> {
    "nul byte found in provided data at position: "@ + decimal(e.position as nat)
}

/// What the user is told of a text that cannot be injected.
pub open spec fn injection_text(e: NulError) -> Seq<char> {
    "replacement text contains an interior NUL byte and cannot be injected: "@ + nul_text(e)
}

impl FailureView {
    /// What the user is told of the failure.
    pub open spec fn text(self) -> Seq<char> {
        match self {
            FailureView::Injection(e) => injection_text(e),
            FailureView::Panel(e) => nul_text(e),
            FailureView::Engine(e) => e.text(),
            FailureView::NoPinyin => "input body has no pinyin runs"@,
            FailureView::StaleSelection =>
            "candidate selection no longer matches the pending pinyin"@,
        }
    }
}

/// What the user is told of a NUL.
fn nul_message(e: NulError) -> (r: String)
    ensures
        r@ == nul_text(e),
{
    join("nul byte found in provided data at position: ", &decimal_of(e.position))
}

/// What the user is told of a text that cannot be injected.
fn injection_message(e: NulError) -> (r: String)
    ensures
        r@ == injection_text(e),
{
    join(
        "replacement text contains an interior NUL byte and cannot be injected: ",
        &nul_message(e),
    )
}

impl ListenerFailure {
    /// What the user is told of the failure.
    pub fn message(&self) -> (r: String)
        ensures
            r@ == self@.text(),
    {
        match self {
            ListenerFailure::Injection(e) => injection_message(*e),
            ListenerFailure::Panel(e) => nul_message(*e),
            ListenerFailure::Engine(e) => e.message(),
            ListenerFailure::NoPinyin => "input body has no pinyin runs".to_owned(),
            ListenerFailure::StaleSelection =>
            "candidate selection no longer matches the pending pinyin".to_owned(),
        }
    }
}

/// How the handling of an event failed.
#[derive(Debug, PartialEq, Eq)]
pub enum ListenerError {
    Failed(ListenerFailure),
    /// After the failure, what was typed could not be brought back either.
    RecoveryFailed { failure: ListenerFailure, recovery: NulError },
}

/// What a [`ListenerError`] holds.
#[verifier::ext_equal]
pub enum ListenerErrorView {
    Failed(FailureView),
    RecoveryFailed { failure: FailureView, recovery: NulError },
}

impl View for ListenerError {
    type V = ListenerErrorView;

    open spec fn view(&self) -> ListenerErrorView {
        match *self {
            ListenerError::Failed(f) => ListenerErrorView::Failed(f@),
            ListenerError::RecoveryFailed { failure, recovery } =>
            ListenerErrorView::RecoveryFailed { failure: failure@, recovery },
        }
    }
}

impl ListenerErrorView {
    /// What the user is told of the error.
    pub open spec fn text(self) -> Seq<char> {
        match self {
            ListenerErrorView::Failed(f) => f.text(),
            ListenerErrorView::RecoveryFailed { failure, recovery } =>
            "raw rewrite recovery also failed: "@ + injection_text(recovery) + ": "@
                + failure.text(),
        }
    }
}

impl ListenerError {
    /// What the user is told of the error.
    pub fn message(&self) -> (r: String)
        ensures
            r@ == self@.text(),
    {
        match self {
            ListenerError::Failed(f) => f.message(),
            ListenerError::RecoveryFailed { failure, recovery } => {
                let mut out = join(
                    "raw rewrite recovery also failed: ",
                    &injection_message(*recovery),
                );
                out.append(": ");
                out.append(&failure.message());
                out
            },
        }
    }
}

/// What the result of an event holds: whether the event is kept from the host, or why it could
/// not be handled.
pub open spec fn event_result(r: Result<bool, ListenerError>) -> Result<bool, ListenerErrorView> {
    match r {
        Ok(consume) => Ok(consume),
        Err(e) => Err(e@),
    }
}

/// After what the candidates are shown.
#[derive(Debug, Clone, Copy, PartialEq, Eq, Structural)]
pub enum Occasion {
    SessionStart,
    /// Text that was held back was inserted.
    LiteralReplay,
    Conversion,
    /// A conversion was undone.
    Restore,
    /// What was typed was brought back after a failure.
    Recovery,
    Backspace,
    /// A word was taken away.
    WordDeletion,
    /// Pinyin was committed as it stands.
    English,
    /// Pinyin without candidates was committed together with a key.
    Literal,
    /// The candidate at `index` of a page was taken.
    Candidate { page_no: usize, index: usize },
}

impl Occasion {
    /// What the user reads of the occasion.
    pub open spec fn text(self) -> Seq<char> {
        match self {
            Occasion::SessionStart => "session start"@,
            Occasion::LiteralReplay => "buffered literal replay"@,
            Occasion::Conversion => "conversion"@,
            Occasion::Restore => "conversion restore"@,
            Occasion::Recovery => "failed rewrite recovery"@,
            Occasion::Backspace => "backspace"@,
            Occasion::WordDeletion => "control-w"@,
            Occasion::English => "english"@,
            Occasion::Literal => "no-candidate literal"@,
            Occasion::Candidate { page_no, index } => "candidate page="@ + decimal(
                page_no as nat,
            ) + " index="@ + decimal(index as nat),
        }
    }

    /// What the user reads of the occasion.
    pub fn message(&self) -> (r: String)
        ensures
            r@ == self.text(),
    {
        match self {
            Occasion::SessionStart => "session start".to_owned(),
            Occasion::LiteralReplay => "buffered literal replay".to_owned(),
            Occasion::Conversion => "conversion".to_owned(),
            Occasion::Restore => "conversion restore".to_owned(),
            Occasion::Recovery => "failed rewrite recovery".to_owned(),
            Occasion::Backspace => "backspace".to_owned(),
            Occasion::WordDeletion => "control-w".to_owned(),
            Occasion::English => "english".to_owned(),
            Occasion::Literal => "no-candidate literal".to_owned(),
            Occasion::Candidate { page_no, index } => {
                let mut out = join("candidate page=", &decimal_of(*page_no));
                out.append(" index=");
                out.append(&decimal_of(*index));
                out
            },
        }
    }
}

/// What a failure stood in the way of, where the event goes on without it.
#[derive(Debug, Clone, Copy, PartialEq, Eq, Structural)]
pub enum Trouble {
    /// Candidates could not be shown.
    Panel { after: Occasion },
    /// Pinyin could not be committed as it stands.
    EnglishCommit,
    /// The candidates that a key works on could not be looked up.
    Interaction,
    /// Pinyin without candidates could not be committed together with a key.
    LiteralCommit,
    /// A candidate could not be selected.
    Selection,
    /// A selected candidate could not be taken.
    CandidateCommit,
    /// The candidates could not be shown again at the first or the last page.
    Boundary,
    /// Another page of candidates could not be looked up.
    Page,
    /// Another page of candidates could not be shown.
    PagePreview,
}

impl Trouble {
    /// What the user is told of the trouble, before the failure.
    pub open spec fn text(self) -> Seq<char> {
        match self {
            Trouble::Panel { after } => "listener candidate panel error after "@ + after.text()
                + ": "@,
            Trouble::EnglishCommit =>
            "listener English commit error; falling back to literal key: "@,
            Trouble::Interaction => "listener candidate interaction preview error: "@,
            Trouble::LiteralCommit =>
            "listener no-candidate literal commit error; falling back to ordinary key: "@,
            Trouble::Selection =>
            "listener candidate selection error; falling back to literal key: "@,
            Trouble::CandidateCommit =>
            "listener candidate commit error; falling back to literal key: "@,
            Trouble::Boundary => "listener candidate boundary preview error: "@,
            Trouble::Page => "listener candidate page error; falling back to literal key: "@,
            Trouble::PagePreview => "listener candidate page preview error: "@,
        }
    }

    /// What the user is told of the trouble, before the failure.
    pub fn message(&self) -> (r: String)
        ensures
            r@ == self.text(),
    {
        match self {
            Trouble::Panel { after } => {
                let mut out = join("listener candidate panel error after ", &after.message());
                out.append(": ");
                out
            },
            Trouble::EnglishCommit =>
            "listener English commit error; falling back to literal key: ".to_owned(),
            Trouble::Interaction => "listener candidate interaction preview error: ".to_owned(),
            Trouble::LiteralCommit =>
            "listener no-candidate literal commit error; falling back to ordinary key: ".to_owned(),
            Trouble::Selection =>
            "listener candidate selection error; falling back to literal key: ".to_owned(),
            Trouble::CandidateCommit =>
            "listener candidate commit error; falling back to literal key: ".to_owned(),
            Trouble::Boundary => "listener candidate boundary preview error: ".to_owned(),
            Trouble::Page =>
            "listener candidate page error; falling back to literal key: ".to_owned(),
            Trouble::PagePreview => "listener candidate page preview error: ".to_owned(),
        }
    }
}

} // verus!
