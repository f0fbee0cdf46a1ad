//! The conversation with the engine: what is asked of it, what it answers, and what can go
//! wrong. The engine itself is outside; the conversations of this crate are state machines
//! that say what to ask next.

use vstd::prelude::*;

use crate::actions::text_option;
use crate::rime_table::TableError;
use crate::text::{debug_str, decimal, decimal_of, join, str_debug};

verus! {

/// What is asked of the engine.
#[derive(Debug, PartialEq, Eq)]
pub enum EngineRequest {
    /// Open a session with this schema.
    Open { schema: String },
    /// Feed a key, without modifiers.
    ProcessKey { code: u32 },
    /// Take the text that the engine has committed, if any.
    TakeCommit,
    /// Read what the session shows.
    ReadContext,
    /// Turn to the next page of candidates.
    NextPage,
    /// Select a candidate of the page that is shown.
    SelectOnPage { index: usize },
    /// Close the session.
    Close,
}

/// What an [`EngineRequest`] holds.
#[verifier::ext_equal]
pub enum RequestView {
    Open { schema: Seq<char> },
    ProcessKey { code: u32 },
    TakeCommit,
    ReadContext,
    NextPage,
    SelectOnPage { index: usize },
    Close,
}

impl View for EngineRequest {
    type V = RequestView;

    open spec fn view(&self) -> RequestView {
        match *self {
            EngineRequest::Open { schema } => RequestView::Open { schema: schema@ },
            EngineRequest::ProcessKey { code } => RequestView::ProcessKey { code },
            EngineRequest::TakeCommit => RequestView::TakeCommit,
            EngineRequest::ReadContext => RequestView::ReadContext,
            EngineRequest::NextPage => RequestView::NextPage,
            EngineRequest::SelectOnPage { index } => RequestView::SelectOnPage { index },
            EngineRequest::Close => RequestView::Close,
        }
    }
}

/// What a session shows.
#[derive(Debug, PartialEq, Eq)]
pub struct EngineContext {
    /// The text being composed.
    pub preedit: Option<String>,
    /// The byte of the composed text at which the part that is not yet selected begins.
    pub sel_start: usize,
    /// The candidates of the page.
    pub candidates: Vec<String>,
    pub page_no: usize,
    pub is_last_page: bool,
}

/// What an [`EngineContext`] holds.
#[verifier::ext_equal]
pub struct ContextView {
    pub preedit: Option<Seq<char>>,
    pub sel_start: usize,
    pub candidates: Seq<Seq<char>>,
    pub page_no: usize,
    pub is_last_page: bool,
}

/// The characters of each string of a list.
pub open spec fn texts(list: Seq<String>) -> Seq<Seq<char>> {
    list.map_values(|s: String| s@)
}

impl View for EngineContext {
    type V = ContextView;

    open spec fn view(&self) -> ContextView {
        ContextView {
            preedit: text_option(self.preedit),
            sel_start: self.sel_start,
            candidates: texts(self.candidates@),
            page_no: self.page_no,
            is_last_page: self.is_last_page,
        }
    }
}

/// Why a conversation with the engine fails.
#[derive(Debug, PartialEq, Eq)]
pub enum EngineError {
    CreateSession,
    SelectSchema { schema: String },
    CloseSession,
    /// A function of the engine's table cannot be called.
    Table(TableError),
    /// After a selection there is neither a commit nor a context.
    NoContext,
    /// After a partial selection there is no composed text.
    NoPreedit,
    /// The selected part does not end at a character.
    BadBoundary { boundary: usize, preedit: String },
    /// A partial selection left no proper end of the pinyin.
    NoProgress { raw: String, preedit: String, boundary: usize },
    /// A partial selection left no candidates.
    NoCandidatesLeft { remaining: String },
}

/// What an [`EngineError`] holds.
#[verifier::ext_equal]
pub enum EngineErrorView {
    CreateSession,
    SelectSchema { schema: Seq<char> },
    CloseSession,
    Table(TableError),
    NoContext,
    NoPreedit,
    BadBoundary { boundary: usize, preedit: Seq<char> },
    NoProgress { raw: Seq<char>, preedit: Seq<char>, boundary: usize },
    NoCandidatesLeft { remaining: Seq<char> },
}

impl View for EngineError {
    type V = EngineErrorView;

    open spec fn view(&self) -> EngineErrorView {
        match *self {
            EngineError::CreateSession => EngineErrorView::CreateSession,
            EngineError::SelectSchema { schema } => EngineErrorView::SelectSchema {
                schema: schema@,
            },
            EngineError::CloseSession => EngineErrorView::CloseSession,
            EngineError::Table(e) => EngineErrorView::Table(e),
            EngineError::NoContext => EngineErrorView::NoContext,
            EngineError::NoPreedit => EngineErrorView::NoPreedit,
            EngineError::BadBoundary { boundary, preedit } => EngineErrorView::BadBoundary {
                boundary,
                preedit: preedit@,
            },
            EngineError::NoProgress { raw, preedit, boundary } => EngineErrorView::NoProgress {
                raw: raw@,
                preedit: preedit@,
                boundary,
            },
            EngineError::NoCandidatesLeft { remaining } => EngineErrorView::NoCandidatesLeft {
                remaining: remaining@,
            },
        }
    }
}

impl EngineErrorView {
    /// What the user is told of the error.
    pub open spec fn text(self) -> Seq<char> {
        match self {
            EngineErrorView::CreateSession => "failed to create Rime session"@,
            EngineErrorView::SelectSchema { schema } => "failed to select Rime schema: "@ + schema,
            EngineErrorView::CloseSession => "failed to close Rime session"@,
            EngineErrorView::Table(e) => e.text(),
            EngineErrorView::NoContext =>
            "Rime returned neither a commit nor a post-selection context"@,
            EngineErrorView::NoPreedit => "Rime partial selection has no preedit"@,
            EngineErrorView::BadBoundary { boundary, preedit } =>
            "Rime partial selection boundary "@ + decimal(boundary as nat)
                + " is invalid for preedit "@ + str_debug(preedit),
            EngineErrorView::NoProgress { raw, preedit, boundary } =>
            "Rime partial selection made no valid progress: raw="@ + str_debug(raw) + " preedit="@
                + str_debug(preedit) + " boundary="@ + decimal(boundary as nat),
            EngineErrorView::NoCandidatesLeft { remaining } =>
            "Rime partial selection left no candidates for "@ + str_debug(remaining),
        }
    }
}

impl EngineError {
    /// What the user is told of the error.
    pub fn message(&self) -> (r: String)
        ensures
            r@ == self@.text(),
    {
        match self {
            EngineError::CreateSession => "failed to create Rime session".to_owned(),
            EngineError::SelectSchema { schema } => join("failed to select Rime schema: ", schema),
            EngineError::CloseSession => "failed to close Rime session".to_owned(),
            EngineError::Table(e) => e.message(),
            EngineError::NoContext =>
            "Rime returned neither a commit nor a post-selection context".to_owned(),
            EngineError::NoPreedit => "Rime partial selection has no preedit".to_owned(),
            EngineError::BadBoundary { boundary, preedit } => {
                let mut out = join("Rime partial selection boundary ", &decimal_of(*boundary));
                out.append(" is invalid for preedit ");
                out.append(&debug_str(preedit));
                out
            },
            EngineError::NoProgress { raw, preedit, boundary } => {
                let mut out = join(
                    "Rime partial selection made no valid progress: raw=",
                    &debug_str(raw),
                );
                out.append(" preedit=");
                out.append(&debug_str(preedit));
                out.append(" boundary=");
                out.append(&decimal_of(*boundary));
                out
            },
            EngineError::NoCandidatesLeft { remaining } => join(
                "Rime partial selection left no candidates for ",
                &debug_str(remaining),
            ),
        }
    }
}

/// What the engine answers.
#[derive(Debug, PartialEq, Eq)]
pub enum EngineReply {
    Opened(Result<(), EngineError>),
    /// Whether the key was accepted; otherwise it was passed over.
    Key { accepted: bool },
    Commit(Option<String>),
    Context(Option<EngineContext>),
    /// Whether the page was turned.
    Page(Result<bool, EngineError>),
    /// Whether the candidate was selected.
    Selected(Result<bool, EngineError>),
    /// Whether the session was closed.
    Closed { ok: bool },
}

/// What an [`EngineReply`] holds.
#[verifier::ext_equal]
pub enum ReplyView {
    Opened(Result<(), EngineErrorView>),
    Key { accepted: bool },
    Commit(Option<Seq<char>>),
    Context(Option<ContextView>),
    Page(Result<bool, EngineErrorView>),
    Selected(Result<bool, EngineErrorView>),
    Closed { ok: bool },
}

/// What a result of engine work holds, for a value that is its own view.
pub open spec fn plain_result<T>(r: Result<T, EngineError>) -> Result<T, EngineErrorView> {
    match r {
        Ok(v) => Ok(v),
        Err(e) => Err(e@),
    }
}

impl View for EngineReply {
    type V = ReplyView;

    open spec fn view(&self) -> ReplyView {
        match *self {
            EngineReply::Opened(r) => ReplyView::Opened(plain_result(r)),
            EngineReply::Key { accepted } => ReplyView::Key { accepted },
            EngineReply::Commit(c) => ReplyView::Commit(text_option(c)),
            EngineReply::Context(c) => ReplyView::Context(
                match c {
                    Some(c) => Some(c@),
                    None => None,
                },
            ),
            EngineReply::Page(r) => ReplyView::Page(plain_result(r)),
            EngineReply::Selected(r) => ReplyView::Selected(plain_result(r)),
            EngineReply::Closed { ok } => ReplyView::Closed { ok },
        }
    }
}

impl RequestView {
    /// `reply` is an answer of the kind that was asked for.
    pub open spec fn answered_by(self, reply: ReplyView) -> bool {
        match self {
            RequestView::Open { .. } => reply is Opened,
            RequestView::ProcessKey { .. } => reply is Key,
            RequestView::TakeCommit => reply is Commit,
            RequestView::ReadContext => reply is Context,
            RequestView::NextPage => reply is Page,
            RequestView::SelectOnPage { .. } => reply is Selected,
            RequestView::Close => reply is Closed,
        }
    }
}

impl RequestView {
    /// A session is open once `reply` has answered. After it was asked to close, it is not.
    pub open spec fn leaves_open(self, reply: ReplyView) -> bool {
        match self {
            RequestView::Open { .. } => reply matches ReplyView::Opened(Ok(_)),
            RequestView::Close => false,
            _ => true,
        }
    }
}

/// How a conversation stands after an answer.
#[derive(Debug, PartialEq, Eq)]
pub enum Progress<M, T> {
    /// It goes on: the engine is to be asked what `M` asks.
    Going(M),
    /// It is over.
    Done(Result<T, EngineError>),
}

/// What a [`Progress`] holds.
#[verifier::ext_equal]
pub enum ProgressView<M, T> {
    Going(M),
    Done(Result<T, EngineErrorView>),
}

impl<M: View, T: View> View for Progress<M, T> {
    type V = ProgressView<M::V, T::V>;

    open spec fn view(&self) -> ProgressView<M::V, T::V> {
        match *self {
            Progress::Going(m) => ProgressView::Going(m@),
            Progress::Done(Ok(v)) => ProgressView::Done(Ok(v@)),
            Progress::Done(Err(e)) => ProgressView::Done(Err(e@)),
        }
    }
}

} // verus!
