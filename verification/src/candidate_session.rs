//! The conversations with the engine that look up candidates and select one.

use vstd::prelude::*;

use crate::actions::{text_option, CandidateSelection, SelectionView};
use crate::candidates::{
    empty_preview, idle_preview, outcome_result, partial_outcome, partial_selection, preview_from,
    preview_of, CandidatePreview, OutcomeView, PreviewView, SelectOutcome,
};
use crate::engine::{
    ContextView, EngineContext, EngineError, EngineErrorView, EngineReply, EngineRequest, Progress,
    ProgressView, ReplyView, RequestView,
};
use crate::text::{any_letter, char_count, has_letter};
use crate::tokens::{
    last_lettered_run, normalize_pinyin_run, normalized, pending_pinyin_for_preview, tokens_of,
};

verus! {

/// What opening a session for a page of candidates came to.
#[derive(Debug, PartialEq, Eq)]
pub enum CandidateSession {
    /// There is nothing to offer candidates for, and no session is open.
    Absent,
    /// A session is open, with candidates for the pinyin `raw`.
    Open { raw: String },
}

/// What a [`CandidateSession`] holds.
#[verifier::ext_equal]
pub enum SessionView {
    Absent,
    Open { raw: Seq<char> },
}

impl View for CandidateSession {
    type V = SessionView;

    open spec fn view(&self) -> SessionView {
        match *self {
            CandidateSession::Absent => SessionView::Absent,
            CandidateSession::Open { raw } => SessionView::Open { raw: raw@ },
        }
    }
}

/// How far the opening of a session for a page of candidates has come.
#[derive(Debug, Clone, Copy, PartialEq, Eq, Structural)]
pub enum OpeningPhase {
    /// The session is being opened.
    Opening,
    /// The character at `fed` is being fed.
    Feeding { fed: usize },
    /// A character was passed over, or a page could not be turned, and the session is being
    /// closed.
    Abandoning,
    /// A page is being turned, and `left` pages are still to be turned with it.
    Paging { left: usize },
}

/// The opening of a session for a page of candidates.
#[derive(Debug, PartialEq, Eq)]
pub struct CandidateOpening {
    pub schema: String,
    /// The pinyin for which there are to be candidates.
    pub raw: String,
    /// What the engine is fed of it.
    pub normalized: String,
    pub requested_page: usize,
    pub phase: OpeningPhase,
    /// Why a page could not be turned.
    pub failure: Option<EngineError>,
}

/// What a [`CandidateOpening`] holds.
#[verifier::ext_equal]
pub struct OpeningView {
    pub schema: Seq<char>,
    pub raw: Seq<char>,
    pub normalized: Seq<char>,
    pub requested_page: usize,
    pub phase: OpeningPhase,
    pub failure: Option<EngineErrorView>,
}

impl View for CandidateOpening {
    type V = OpeningView;

    open spec fn view(&self) -> OpeningView {
        OpeningView {
            schema: self.schema@,
            raw: self.raw@,
            normalized: self.normalized@,
            requested_page: self.requested_page,
            phase: self.phase,
            failure: match self.failure {
                Some(e) => Some(e@),
                None => None,
            },
        }
    }
}

impl OpeningView {
    /// How the opening of a session for `body` starts: candidates are offered for its last
    /// pinyin run with a letter, and where there is none no session is needed.
    pub open spec fn started(schema: Seq<char>, body: Seq<char>, requested_page: usize) -> ProgressView<
        OpeningView,
        SessionView,
    > {
        let raw = last_lettered_run(tokens_of(body));
        if raw.len() == 0 || !has_letter(normalized(raw)) {
            ProgressView::Done(Ok(SessionView::Absent))
        } else {
            ProgressView::Going(
                OpeningView {
                    schema,
                    raw,
                    normalized: normalized(raw),
                    requested_page,
                    phase: OpeningPhase::Opening,
                    failure: None,
                },
            )
        }
    }

    /// A character that is being fed is one of the pinyin's, and a page that is being turned
    /// is still to be turned.
    pub open spec fn wf(self) -> bool {
        match self.phase {
            OpeningPhase::Feeding { fed } => fed < self.normalized.len(),
            OpeningPhase::Paging { left } => left > 0,
            _ => true,
        }
    }

    /// What the engine is to be asked.
    pub open spec fn asked(self) -> RequestView {
        match self.phase {
            OpeningPhase::Opening => RequestView::Open { schema: self.schema },
            OpeningPhase::Feeding { fed } => RequestView::ProcessKey {
                code: self.normalized[fed as int] as u32,
            },
            OpeningPhase::Abandoning => RequestView::Close,
            OpeningPhase::Paging { .. } => RequestView::NextPage,
        }
    }

    /// How the opening stands when `left` pages are still to be turned.
    pub open spec fn paged(self, left: int) -> ProgressView<OpeningView, SessionView> {
        if left > 0 {
            ProgressView::Going(
                OpeningView { phase: OpeningPhase::Paging { left: left as usize }, ..self },
            )
        } else {
            ProgressView::Done(Ok(SessionView::Open { raw: self.raw }))
        }
    }

    /// How the opening stands once `fed` characters are accepted.
    pub open spec fn fed_to(self, fed: int) -> ProgressView<OpeningView, SessionView> {
        if fed < self.normalized.len() {
            ProgressView::Going(
                OpeningView { phase: OpeningPhase::Feeding { fed: fed as usize }, ..self },
            )
        } else {
            self.paged(self.requested_page as int)
        }
    }

    /// How the opening stands after `reply`, an answer to what was asked. A character that the
    /// engine passes over ends it; pages are turned as long as there are more. Where a page
    /// cannot be turned the session is closed, and then the opening fails with that.
    pub open spec fn after(self, reply: ReplyView) -> ProgressView<OpeningView, SessionView> {
        match self.phase {
            OpeningPhase::Opening => match reply {
                ReplyView::Opened(Err(e)) => ProgressView::Done(Err(e)),
                _ => self.fed_to(0),
            },
            OpeningPhase::Feeding { fed } => if reply == (ReplyView::Key { accepted: true }) {
                self.fed_to(fed + 1)
            } else {
                ProgressView::Going(OpeningView { phase: OpeningPhase::Abandoning, ..self })
            },
            OpeningPhase::Abandoning => ProgressView::Done(
                match self.failure {
                    Some(e) => Err(e),
                    None => if reply == (ReplyView::Closed { ok: true }) {
                        Ok(SessionView::Absent)
                    } else {
                        Err(EngineErrorView::CloseSession)
                    },
                },
            ),
            OpeningPhase::Paging { left } => match reply {
                ReplyView::Page(Err(e)) => ProgressView::Going(
                    OpeningView { phase: OpeningPhase::Abandoning, failure: Some(e), ..self },
                ),
                ReplyView::Page(Ok(true)) => self.paged(left - 1),
                _ => self.paged(0),
            },
        }
    }
}

/// Starts to open a session for page `requested_page` of the candidates for `body`.
pub fn open_candidate_session(schema: &str, body: &str, requested_page: usize) -> (r: Progress<
    CandidateOpening,
    CandidateSession,
>)
    ensures
        r@ == OpeningView::started(schema@, body@, requested_page),
        r matches Progress::Going(m) ==> m@.wf(),
{
    let raw = pending_pinyin_for_preview(body);
    if raw.as_str().is_empty() {
        return Progress::Done(Ok(CandidateSession::Absent));
    }
    let fed = normalize_pinyin_run(&raw);
    if !any_letter(&fed) {
        return Progress::Done(Ok(CandidateSession::Absent));
    }
    Progress::Going(
        CandidateOpening {
            schema: schema.to_owned(),
            raw,
            normalized: fed,
            requested_page,
            phase: OpeningPhase::Opening,
            failure: None,
        },
    )
}

impl CandidateOpening {
    /// What the engine is to be asked.
    pub fn request(&self) -> (r: EngineRequest)
        requires
            self@.wf(),
        ensures
            r@ == self@.asked(),
    {
        match self.phase {
            OpeningPhase::Opening => EngineRequest::Open { schema: self.schema.clone() },
            OpeningPhase::Feeding { fed } => EngineRequest::ProcessKey {
                code: self.normalized.as_str().get_char(fed) as u32,
            },
            OpeningPhase::Abandoning => EngineRequest::Close,
            OpeningPhase::Paging { .. } => EngineRequest::NextPage,
        }
    }

    /// Goes on to turn `left` pages.
    fn page(self, left: usize) -> (r: Progress<CandidateOpening, CandidateSession>)
        ensures
            r@ == self@.paged(left as int),
            r matches Progress::Going(m) ==> m@.wf(),
    {
        if left > 0 {
            let mut next = self;
            next.phase = OpeningPhase::Paging { left };
            Progress::Going(next)
        } else {
            Progress::Done(Ok(CandidateSession::Open { raw: self.raw }))
        }
    }

    /// Goes on to the character at `fed`, or to the pages where all have been fed.
    fn feed(self, fed: usize) -> (r: Progress<CandidateOpening, CandidateSession>)
        requires
            fed <= self@.normalized.len(),
        ensures
            r@ == self@.fed_to(fed as int),
            r matches Progress::Going(m) ==> m@.wf(),
    {
        if fed < char_count(&self.normalized) {
            let mut next = self;
            next.phase = OpeningPhase::Feeding { fed };
            Progress::Going(next)
        } else {
            let requested_page = self.requested_page;
            self.page(requested_page)
        }
    }

    /// Takes the engine's answer.
    pub fn advance(self, reply: EngineReply) -> (r: Progress<CandidateOpening, CandidateSession>)
        requires
            self@.wf(),
            self@.asked().answered_by(reply@),
        ensures
            r@ == self@.after(reply@),
            r matches Progress::Going(m) ==> m@.wf(),
    {
        match self.phase {
            OpeningPhase::Opening => match reply {
                EngineReply::Opened(Err(error)) => Progress::Done(Err(error)),
                _ => self.feed(0),
            },
            OpeningPhase::Feeding { fed } => match reply {
                EngineReply::Key { accepted: true } => {
                    let count = char_count(&self.normalized);
                    assert(fed < count);
                    self.feed(fed + 1)
                },
                _ => {
                    let mut next = self;
                    next.phase = OpeningPhase::Abandoning;
                    Progress::Going(next)
                },
            },
            OpeningPhase::Abandoning => match self.failure {
                Some(error) => Progress::Done(Err(error)),
                None => match reply {
                    EngineReply::Closed { ok: true } => Progress::Done(
                        Ok(CandidateSession::Absent),
                    ),
                    _ => Progress::Done(Err(EngineError::CloseSession)),
                },
            },
            OpeningPhase::Paging { left } => match reply {
                EngineReply::Page(Err(error)) => {
                    let mut next = self;
                    next.phase = OpeningPhase::Abandoning;
                    next.failure = Some(error);
                    Progress::Going(next)
                },
                EngineReply::Page(Ok(true)) => self.page(left - 1),
                _ => self.page(0),
            },
        }
    }
}

/// The look-up of a page of candidates.
#[derive(Debug, PartialEq, Eq)]
pub enum PreviewLookup {
    /// The session is being opened.
    Opening { opening: CandidateOpening, candidate_count: usize },
    /// The context is being read.
    Reading { raw: String, candidate_count: usize },
    /// The session is being closed; the preview is known.
    Closing { preview: CandidatePreview },
}

/// What a [`PreviewLookup`] holds.
#[verifier::ext_equal]
pub enum LookupView {
    Opening { opening: OpeningView, candidate_count: usize },
    Reading { raw: Seq<char>, candidate_count: usize },
    Closing { preview: PreviewView },
}

impl View for PreviewLookup {
    type V = LookupView;

    open spec fn view(&self) -> LookupView {
        match *self {
            PreviewLookup::Opening { opening, candidate_count } => LookupView::Opening {
                opening: opening@,
                candidate_count,
            },
            PreviewLookup::Reading { raw, candidate_count } => LookupView::Reading {
                raw: raw@,
                candidate_count,
            },
            PreviewLookup::Closing { preview } => LookupView::Closing { preview: preview@ },
        }
    }
}

impl LookupView {
    /// The look-up can go on.
    pub open spec fn wf(self) -> bool {
        self matches LookupView::Opening { opening, .. } ==> opening.wf()
    }

    /// What the engine is to be asked.
    pub open spec fn asked(self) -> RequestView {
        match self {
            LookupView::Opening { opening, .. } => opening.asked(),
            LookupView::Reading { .. } => RequestView::ReadContext,
            LookupView::Closing { .. } => RequestView::Close,
        }
    }

    /// How the look-up stands as its session stands.
    pub open spec fn opened(
        opening: ProgressView<OpeningView, SessionView>,
        candidate_count: usize,
    ) -> ProgressView<LookupView, PreviewView> {
        match opening {
            ProgressView::Going(opening) => ProgressView::Going(
                LookupView::Opening { opening, candidate_count },
            ),
            ProgressView::Done(Ok(SessionView::Open { raw })) => ProgressView::Going(
                LookupView::Reading { raw, candidate_count },
            ),
            ProgressView::Done(Ok(SessionView::Absent)) => ProgressView::Done(Ok(idle_preview())),
            ProgressView::Done(Err(e)) => ProgressView::Done(Err(e)),
        }
    }

    /// How the look-up of the candidates for `body` starts.
    pub open spec fn started(
        schema: Seq<char>,
        body: Seq<char>,
        candidate_count: usize,
        requested_page: usize,
    ) -> ProgressView<LookupView, PreviewView> {
        LookupView::opened(OpeningView::started(schema, body, requested_page), candidate_count)
    }

    /// How the look-up stands after `reply`, an answer to what was asked.
    pub open spec fn after(self, reply: ReplyView) -> ProgressView<LookupView, PreviewView> {
        match self {
            LookupView::Opening { opening, candidate_count } => LookupView::opened(
                opening.after(reply),
                candidate_count,
            ),
            LookupView::Reading { raw, candidate_count } => ProgressView::Going(
                LookupView::Closing {
                    preview: preview_of(raw, reply->Context_0, candidate_count),
                },
            ),
            LookupView::Closing { preview } => ProgressView::Done(
                if reply == (ReplyView::Closed { ok: true }) {
                    Ok(preview)
                } else {
                    Err(EngineErrorView::CloseSession)
                },
            ),
        }
    }
}

/// Goes on with a look-up as its session stands.
fn look_up(opening: Progress<CandidateOpening, CandidateSession>, candidate_count: usize) -> (r:
    Progress<PreviewLookup, CandidatePreview>)
    requires
        opening matches Progress::Going(m) ==> m@.wf(),
    ensures
        r@ == LookupView::opened(opening@, candidate_count),
        r matches Progress::Going(m) ==> m@.wf(),
{
    match opening {
        Progress::Going(opening) => Progress::Going(
            PreviewLookup::Opening { opening, candidate_count },
        ),
        Progress::Done(Ok(CandidateSession::Open { raw })) => Progress::Going(
            PreviewLookup::Reading { raw, candidate_count },
        ),
        Progress::Done(Ok(CandidateSession::Absent)) => Progress::Done(Ok(empty_preview())),
        Progress::Done(Err(error)) => Progress::Done(Err(error)),
    }
}

/// Starts to look up page `requested_page` of the candidates for `body`, and at most
/// `candidate_count` of them.
pub fn preview_candidates(
    schema: &str,
    body: &str,
    candidate_count: usize,
    requested_page: usize,
) -> (r: Progress<PreviewLookup, CandidatePreview>)
    ensures
        r@ == LookupView::started(schema@, body@, candidate_count, requested_page),
        r matches Progress::Going(m) ==> m@.wf(),
{
    look_up(open_candidate_session(schema, body, requested_page), candidate_count)
}

impl PreviewLookup {
    /// What the engine is to be asked.
    pub fn request(&self) -> (r: EngineRequest)
        requires
            self@.wf(),
        ensures
            r@ == self@.asked(),
    {
        match self {
            PreviewLookup::Opening { opening, .. } => opening.request(),
            PreviewLookup::Reading { .. } => EngineRequest::ReadContext,
            PreviewLookup::Closing { .. } => EngineRequest::Close,
        }
    }

    /// Takes the engine's answer.
    pub fn advance(self, reply: EngineReply) -> (r: Progress<PreviewLookup, CandidatePreview>)
        requires
            self@.wf(),
            self@.asked().answered_by(reply@),
        ensures
            r@ == self@.after(reply@),
            r matches Progress::Going(m) ==> m@.wf(),
    {
        match self {
            PreviewLookup::Opening { opening, candidate_count } => look_up(
                opening.advance(reply),
                candidate_count,
            ),
            PreviewLookup::Reading { raw, candidate_count } => {
                let context = match reply {
                    EngineReply::Context(context) => context,
                    _ => None,
                };
                let preview = preview_from(raw, context, candidate_count);
                Progress::Going(PreviewLookup::Closing { preview })
            },
            PreviewLookup::Closing { preview } => match reply {
                EngineReply::Closed { ok: true } => Progress::Done(Ok(preview)),
                _ => Progress::Done(Err(EngineError::CloseSession)),
            },
        }
    }
}

/// The selection of a candidate.
#[derive(Debug, PartialEq, Eq)]
pub enum CandidateChoice {
    /// The session is being opened.
    Opening { opening: CandidateOpening, index: usize },
    /// The context with the candidate is being read.
    Finding { raw: String, index: usize },
    /// The candidate is being selected.
    Selecting { raw: String, index: usize, selected: String },
    /// What the engine committed is being taken.
    Committing { raw: String, selected: String },
    /// The context after the selection is being read.
    Remaining { raw: String, selected: String },
    /// The session is being closed; the outcome is known.
    Closing { outcome: Result<SelectOutcome, EngineError> },
}

/// What a [`CandidateChoice`] holds.
#[verifier::ext_equal]
pub enum ChoiceView {
    Opening { opening: OpeningView, index: usize },
    Finding { raw: Seq<char>, index: usize },
    Selecting { raw: Seq<char>, index: usize, selected: Seq<char> },
    Committing { raw: Seq<char>, selected: Seq<char> },
    Remaining { raw: Seq<char>, selected: Seq<char> },
    Closing { outcome: Result<OutcomeView, EngineErrorView> },
}

impl View for CandidateChoice {
    type V = ChoiceView;

    open spec fn view(&self) -> ChoiceView {
        match *self {
            CandidateChoice::Opening { opening, index } => ChoiceView::Opening {
                opening: opening@,
                index,
            },
            CandidateChoice::Finding { raw, index } => ChoiceView::Finding { raw: raw@, index },
            CandidateChoice::Selecting { raw, index, selected } => ChoiceView::Selecting {
                raw: raw@,
                index,
                selected: selected@,
            },
            CandidateChoice::Committing { raw, selected } => ChoiceView::Committing {
                raw: raw@,
                selected: selected@,
            },
            CandidateChoice::Remaining { raw, selected } => ChoiceView::Remaining {
                raw: raw@,
                selected: selected@,
            },
            CandidateChoice::Closing { outcome } => ChoiceView::Closing {
                outcome: outcome_result(outcome),
            },
        }
    }
}

/// The candidate at `index` of what the engine shows.
pub open spec fn candidate_at(context: Option<ContextView>, index: usize) -> Option<Seq<char>> {
    match context {
        Some(c) if index < c.candidates.len() => Some(c.candidates[index as int]),
        _ => None,
    }
}

impl ChoiceView {
    /// The selection can go on.
    pub open spec fn wf(self) -> bool {
        self matches ChoiceView::Opening { opening, .. } ==> opening.wf()
    }

    /// What the engine is to be asked.
    pub open spec fn asked(self) -> RequestView {
        match self {
            ChoiceView::Opening { opening, .. } => opening.asked(),
            ChoiceView::Finding { .. } => RequestView::ReadContext,
            ChoiceView::Selecting { index, .. } => RequestView::SelectOnPage { index },
            ChoiceView::Committing { .. } => RequestView::TakeCommit,
            ChoiceView::Remaining { .. } => RequestView::ReadContext,
            ChoiceView::Closing { .. } => RequestView::Close,
        }
    }

    /// How the selection stands as its session stands.
    pub open spec fn opened(opening: ProgressView<OpeningView, SessionView>, index: usize) -> ProgressView<
        ChoiceView,
        OutcomeView,
    > {
        match opening {
            ProgressView::Going(opening) => ProgressView::Going(
                ChoiceView::Opening { opening, index },
            ),
            ProgressView::Done(Ok(SessionView::Open { raw })) => ProgressView::Going(
                ChoiceView::Finding { raw, index },
            ),
            ProgressView::Done(Ok(SessionView::Absent)) => ProgressView::Done(
                Ok(OutcomeView::Nothing),
            ),
            ProgressView::Done(Err(e)) => ProgressView::Done(Err(e)),
        }
    }

    /// How the selection of a candidate for `body` starts.
    pub open spec fn started(schema: Seq<char>, body: Seq<char>, page_no: usize, index: usize) -> ProgressView<
        ChoiceView,
        OutcomeView,
    > {
        ChoiceView::opened(OpeningView::started(schema, body, page_no), index)
    }

    /// How the selection stands after `reply`, an answer to what was asked. Whatever came of
    /// it, the session is closed; an error of the selection comes before one of the closing.
    pub open spec fn after(self, reply: ReplyView) -> ProgressView<ChoiceView, OutcomeView> {
        match self {
            ChoiceView::Opening { opening, index } => ChoiceView::opened(
                opening.after(reply),
                index,
            ),
            ChoiceView::Finding { raw, index } => ProgressView::Going(
                match candidate_at(reply->Context_0, index) {
                    Some(selected) => ChoiceView::Selecting { raw, index, selected },
                    None => ChoiceView::Closing { outcome: Ok(OutcomeView::Nothing) },
                },
            ),
            ChoiceView::Selecting { raw, selected, .. } => ProgressView::Going(
                match reply {
                    ReplyView::Selected(Err(e)) => ChoiceView::Closing { outcome: Err(e) },
                    ReplyView::Selected(Ok(true)) => ChoiceView::Committing { raw, selected },
                    _ => ChoiceView::Closing { outcome: Ok(OutcomeView::Nothing) },
                },
            ),
            ChoiceView::Committing { raw, selected } => ProgressView::Going(
                match reply->Commit_0 {
                    Some(text) => ChoiceView::Closing {
                        outcome: Ok(OutcomeView::Selected(SelectionView::Complete { text })),
                    },
                    None => ChoiceView::Remaining { raw, selected },
                },
            ),
            ChoiceView::Remaining { raw, selected } => ProgressView::Going(
                ChoiceView::Closing { outcome: partial_outcome(raw, selected, reply->Context_0) },
            ),
            ChoiceView::Closing { outcome } => ProgressView::Done(
                match outcome {
                    Err(e) => Err(e),
                    Ok(selection) => if reply == (ReplyView::Closed { ok: true }) {
                        Ok(selection)
                    } else {
                        Err(EngineErrorView::CloseSession)
                    },
                },
            ),
        }
    }
}

/// Goes on with a selection as its session stands.
fn choose_in(opening: Progress<CandidateOpening, CandidateSession>, index: usize) -> (r: Progress<
    CandidateChoice,
    SelectOutcome,
>)
    requires
        opening matches Progress::Going(m) ==> m@.wf(),
    ensures
        r@ == ChoiceView::opened(opening@, index),
        r matches Progress::Going(m) ==> m@.wf(),
{
    match opening {
        Progress::Going(opening) => Progress::Going(CandidateChoice::Opening { opening, index }),
        Progress::Done(Ok(CandidateSession::Open { raw })) => Progress::Going(
            CandidateChoice::Finding { raw, index },
        ),
        Progress::Done(Ok(CandidateSession::Absent)) => Progress::Done(Ok(SelectOutcome::Nothing)),
        Progress::Done(Err(error)) => Progress::Done(Err(error)),
    }
}

/// Starts to select the candidate at `index` of page `page_no` of the candidates for `body`.
pub fn select_candidate(schema: &str, body: &str, page_no: usize, index: usize) -> (r: Progress<
    CandidateChoice,
    SelectOutcome,
>)
    ensures
        r@ == ChoiceView::started(schema@, body@, page_no, index),
        r matches Progress::Going(m) ==> m@.wf(),
{
    choose_in(open_candidate_session(schema, body, page_no), index)
}

/// The candidate at `index` of what the engine shows.
fn candidate_in(context: Option<EngineContext>, index: usize) -> (r: Option<String>)
    ensures
        text_option(r) == candidate_at(
            match context {
                Some(c) => Some(c@),
                None => None,
            },
            index,
        ),
{
    match context {
        Some(context) => {
            if index < context.candidates.len() {
                Some(context.candidates[index].clone())
            } else {
                None
            }
        },
        None => None,
    }
}

impl CandidateChoice {
    /// What the engine is to be asked.
    pub fn request(&self) -> (r: EngineRequest)
        requires
            self@.wf(),
        ensures
            r@ == self@.asked(),
    {
        match self {
            CandidateChoice::Opening { opening, .. } => opening.request(),
            CandidateChoice::Finding { .. } => EngineRequest::ReadContext,
            CandidateChoice::Selecting { index, .. } => EngineRequest::SelectOnPage {
                index: *index,
            },
            CandidateChoice::Committing { .. } => EngineRequest::TakeCommit,
            CandidateChoice::Remaining { .. } => EngineRequest::ReadContext,
            CandidateChoice::Closing { .. } => EngineRequest::Close,
        }
    }

    /// Takes the engine's answer.
    pub fn advance(self, reply: EngineReply) -> (r: Progress<CandidateChoice, SelectOutcome>)
        requires
            self@.wf(),
            self@.asked().answered_by(reply@),
        ensures
            r@ == self@.after(reply@),
            r matches Progress::Going(m) ==> m@.wf(),
    {
        match self {
            CandidateChoice::Opening { opening, index } => choose_in(
                opening.advance(reply),
                index,
            ),
            CandidateChoice::Finding { raw, index } => {
                let context = match reply {
                    EngineReply::Context(context) => context,
                    _ => None,
                };
                Progress::Going(
                    match candidate_in(context, index) {
                        Some(selected) => CandidateChoice::Selecting { raw, index, selected },
                        None => CandidateChoice::Closing { outcome: Ok(SelectOutcome::Nothing) },
                    },
                )
            },
            CandidateChoice::Selecting { raw, selected, .. } => Progress::Going(
                match reply {
                    EngineReply::Selected(Err(error)) => CandidateChoice::Closing {
                        outcome: Err(error),
                    },
                    EngineReply::Selected(Ok(true)) => CandidateChoice::Committing {
                        raw,
                        selected,
                    },
                    _ => CandidateChoice::Closing { outcome: Ok(SelectOutcome::Nothing) },
                },
            ),
            CandidateChoice::Committing { raw, selected } => Progress::Going(
                match reply {
                    EngineReply::Commit(Some(text)) => CandidateChoice::Closing {
                        outcome: Ok(
                            SelectOutcome::Selected(CandidateSelection::Complete { text }),
                        ),
                    },
                    _ => CandidateChoice::Remaining { raw, selected },
                },
            ),
            CandidateChoice::Remaining { raw, selected } => {
                let context = match reply {
                    EngineReply::Context(context) => context,
                    _ => None,
                };
                let outcome = partial_selection(raw, selected, context);
                Progress::Going(CandidateChoice::Closing { outcome })
            },
            CandidateChoice::Closing { outcome } => match outcome {
                Err(error) => Progress::Done(Err(error)),
                Ok(selection) => match reply {
                    EngineReply::Closed { ok: true } => Progress::Done(Ok(selection)),
                    _ => Progress::Done(Err(EngineError::CloseSession)),
                },
            },
        }
    }
}

impl OpeningView {
    /// How many more answers the opening takes at most.
    pub open spec fn steps_left(self) -> int {
        match self.phase {
            OpeningPhase::Opening => self.normalized.len() + self.requested_page + 3,
            OpeningPhase::Feeding { fed } => self.normalized.len() - fed + self.requested_page + 2,
            OpeningPhase::Abandoning => 1,
            OpeningPhase::Paging { left } => left + 1,
        }
    }
}

impl LookupView {
    /// How many more answers the look-up takes at most.
    pub open spec fn steps_left(self) -> int {
        match self {
            LookupView::Opening { opening, .. } => opening.steps_left() + 2,
            LookupView::Reading { .. } => 2,
            LookupView::Closing { .. } => 1,
        }
    }
}

impl ChoiceView {
    /// How many more answers the selection takes at most.
    pub open spec fn steps_left(self) -> int {
        match self {
            ChoiceView::Opening { opening, .. } => opening.steps_left() + 5,
            ChoiceView::Finding { .. } => 5,
            ChoiceView::Selecting { .. } => 4,
            ChoiceView::Committing { .. } => 3,
            ChoiceView::Remaining { .. } => 2,
            ChoiceView::Closing { .. } => 1,
        }
    }
}

/// The look-up of candidates comes to an end, whatever the engine answers.
pub proof fn law_lookup_ends(lookup: LookupView, reply: ReplyView)
    requires
        lookup.wf(),
        lookup matches LookupView::Opening { opening, .. } ==> opening.normalized.len()
            <= usize::MAX,
    ensures
        lookup.steps_left() > 0,
        lookup.after(reply) matches ProgressView::Going(next) ==> next.steps_left()
            < lookup.steps_left(),
{
}

/// The selection of a candidate comes to an end, whatever the engine answers.
pub proof fn law_choice_ends(choice: ChoiceView, reply: ReplyView)
    requires
        choice.wf(),
        choice matches ChoiceView::Opening { opening, .. } ==> opening.normalized.len()
            <= usize::MAX,
    ensures
        choice.steps_left() > 0,
        choice.after(reply) matches ProgressView::Going(next) ==> next.steps_left()
            < choice.steps_left(),
{
}

/// No more pages are turned than were requested.
pub proof fn law_no_more_pages_than_requested(opening: OpeningView, reply: ReplyView)
    requires
        opening.wf(),
        opening.phase matches OpeningPhase::Paging { left } ==> left <= opening.requested_page,
    ensures
        opening.after(reply) matches ProgressView::Going(next) ==> {
            &&& next.requested_page == opening.requested_page
            &&& next.phase matches OpeningPhase::Paging { left } ==> left <= next.requested_page
                && (opening.phase matches OpeningPhase::Paging { left: before } ==> left + 1
                == before)
        },
{
}

/// A look-up ends well only once its session has been closed. Where it fails no session is left
/// open either, and while it goes on there is the one session.
pub proof fn law_lookup_ends_with_a_closed_session(lookup: LookupView, reply: ReplyView)
    requires
        lookup.asked().answered_by(reply),
    ensures
        lookup.after(reply) matches ProgressView::Done(Ok(_)) ==> lookup.asked()
            == RequestView::Close && reply == (ReplyView::Closed { ok: true }),
        lookup.after(reply) is Done ==> !lookup.asked().leaves_open(reply),
        lookup.after(reply) matches ProgressView::Going(next) ==> lookup.asked().leaves_open(reply)
            && next.asked() !is Open,
{
}

/// A selection ends well only once its session has been closed. Where it fails no session is
/// left open either, and while it goes on there is the one session.
pub proof fn law_choice_ends_with_a_closed_session(choice: ChoiceView, reply: ReplyView)
    requires
        choice.asked().answered_by(reply),
    ensures
        choice.after(reply) matches ProgressView::Done(Ok(_)) ==> choice.asked()
            == RequestView::Close && reply == (ReplyView::Closed { ok: true }),
        choice.after(reply) is Done ==> !choice.asked().leaves_open(reply),
        choice.after(reply) matches ProgressView::Going(next) ==> choice.asked().leaves_open(reply)
            && next.asked() !is Open,
{
}

} // verus!
