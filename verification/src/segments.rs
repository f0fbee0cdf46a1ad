//! Converting one pinyin run: the conversation with the engine that finds its first candidate.

use vstd::prelude::*;

use crate::engine::{
    ContextView, EngineContext, EngineError, EngineErrorView, EngineReply, EngineRequest, Progress,
    ProgressView, ReplyView, RequestView,
};
use crate::text::char_count;

verus! {

/// A pinyin run and what it was converted to.
#[derive(Debug, PartialEq, Eq)]
pub struct ConvertedSegment {
    /// The run as it stood in the body.
    pub raw: String,
    /// What the engine was fed.
    pub normalized: String,
    /// What the engine showed as being composed.
    pub preedit: String,
    /// The text that takes the run's place.
    pub first: String,
}

/// What a [`ConvertedSegment`] holds.
#[verifier::ext_equal]
pub struct SegmentView {
    pub raw: Seq<char>,
    pub normalized: Seq<char>,
    pub preedit: Seq<char>,
    pub first: Seq<char>,
}

impl View for ConvertedSegment {
    type V = SegmentView;

    open spec fn view(&self) -> SegmentView {
        SegmentView {
            raw: self.raw@,
            normalized: self.normalized@,
            preedit: self.preedit@,
            first: self.first@,
        }
    }
}

/// What each segment of a list holds.
pub open spec fn segment_views(segments: Seq<ConvertedSegment>) -> Seq<SegmentView> {
    segments.map_values(|s: ConvertedSegment| s@)
}

/// The segment of a run that stays as it is.
pub open spec fn fallback_segment(
    raw: Seq<char>,
    normalized: Seq<char>,
    preedit: Seq<char>,
) -> SegmentView {
    SegmentView { raw, normalized, preedit, first: raw }
}

/// The segment of a run for which the engine shows `context`: the first candidate takes the
/// run's place, and where there is none the run stays as it is.
pub open spec fn segment_for(
    raw: Seq<char>,
    normalized: Seq<char>,
    context: Option<ContextView>,
) -> SegmentView {
    match context {
        None => fallback_segment(raw, normalized, raw),
        Some(c) => {
            let preedit = match c.preedit {
                Some(p) => p,
                None => raw,
            };
            if c.candidates.len() > 0 {
                SegmentView { raw, normalized, preedit, first: c.candidates[0] }
            } else {
                fallback_segment(raw, normalized, preedit)
            }
        },
    }
}

/// The segment of a run that stays as it is.
pub fn raw_fallback_segment(raw: &str, normalized: &str, preedit: &str) -> (r: ConvertedSegment)
    ensures
        r@ == fallback_segment(raw@, normalized@, preedit@),
{
    ConvertedSegment {
        raw: raw.to_owned(),
        normalized: normalized.to_owned(),
        preedit: preedit.to_owned(),
        first: raw.to_owned(),
    }
}

/// The segment of a run for which the engine shows `context`.
pub fn segment_from(raw: &str, normalized: &str, context: Option<EngineContext>) -> (r:
    ConvertedSegment)
    ensures
        r@ == segment_for(
            raw@,
            normalized@,
            match context {
                Some(c) => Some(c@),
                None => None,
            },
        ),
{
    match context {
        Some(context) => {
            let preedit = match context.preedit {
                Some(preedit) => preedit,
                None => raw.to_owned(),
            };
            if context.candidates.len() > 0 {
                ConvertedSegment {
                    raw: raw.to_owned(),
                    normalized: normalized.to_owned(),
                    preedit,
                    first: context.candidates[0].clone(),
                }
            } else {
                raw_fallback_segment(raw, normalized, &preedit)
            }
        },
        None => raw_fallback_segment(raw, normalized, raw),
    }
}

/// How far the conversion of a run has come.
#[derive(Debug, PartialEq, Eq)]
pub enum RunPhase {
    /// A session is being opened.
    Opening,
    /// The character at `fed` is being fed.
    Feeding { fed: usize },
    /// The context is being read.
    Reading,
    /// The session is being closed; the segment is known.
    Closing { segment: ConvertedSegment },
}

/// What a [`RunPhase`] holds.
#[verifier::ext_equal]
pub enum RunPhaseView {
    Opening,
    Feeding { fed: usize },
    Reading,
    Closing { segment: SegmentView },
}

/// The conversion of one pinyin run. The engine is fed the run character by character and its
/// first candidate is taken. Where it passes a character over, the run stays as it is.
#[derive(Debug, PartialEq, Eq)]
pub struct RunConversion {
    pub schema: String,
    pub raw: String,
    pub normalized: String,
    pub phase: RunPhase,
}

/// What a [`RunConversion`] holds.
#[verifier::ext_equal]
pub struct RunView {
    pub schema: Seq<char>,
    pub raw: Seq<char>,
    pub normalized: Seq<char>,
    pub phase: RunPhaseView,
}

impl View for RunConversion {
    type V = RunView;

    open spec fn view(&self) -> RunView {
        RunView {
            schema: self.schema@,
            raw: self.raw@,
            normalized: self.normalized@,
            phase: match self.phase {
                RunPhase::Opening => RunPhaseView::Opening,
                RunPhase::Feeding { fed } => RunPhaseView::Feeding { fed },
                RunPhase::Reading => RunPhaseView::Reading,
                RunPhase::Closing { segment } => RunPhaseView::Closing { segment: segment@ },
            },
        }
    }
}

impl RunView {
    /// The conversion before the engine has been asked anything.
    pub open spec fn begun(schema: Seq<char>, raw: Seq<char>, normalized: Seq<char>) -> RunView {
        RunView { schema, raw, normalized, phase: RunPhaseView::Opening }
    }

    /// A character that is being fed is one of the run's, and a segment is that of the run.
    pub open spec fn wf(self) -> bool {
        match self.phase {
            RunPhaseView::Feeding { fed } => fed < self.normalized.len(),
            RunPhaseView::Closing { segment } => segment.raw == self.raw && segment.normalized
                == self.normalized,
            _ => true,
        }
    }

    /// What the engine is to be asked.
    pub open spec fn asked(self) -> RequestView {
        match self.phase {
            RunPhaseView::Opening => RequestView::Open { schema: self.schema },
            RunPhaseView::Feeding { fed } => RequestView::ProcessKey {
                code: self.normalized[fed as int] as u32,
            },
            RunPhaseView::Reading => RequestView::ReadContext,
            RunPhaseView::Closing { .. } => RequestView::Close,
        }
    }

    /// The conversion once `fed` characters are accepted: the next one is fed, and after the
    /// last one the context is read.
    pub open spec fn fed_to(self, fed: int) -> RunView {
        RunView {
            phase: if fed < self.normalized.len() {
                RunPhaseView::Feeding { fed: fed as usize }
            } else {
                RunPhaseView::Reading
            },
            ..self
        }
    }

    /// The conversion once the segment is known.
    pub open spec fn closing(self, segment: SegmentView) -> RunView {
        RunView { phase: RunPhaseView::Closing { segment }, ..self }
    }

    /// How the conversion stands after `reply`, an answer to what was asked.
    pub open spec fn after(self, reply: ReplyView) -> ProgressView<RunView, SegmentView> {
        match self.phase {
            RunPhaseView::Opening => match reply {
                ReplyView::Opened(Err(e)) => ProgressView::Done(Err(e)),
                _ => ProgressView::Going(self.fed_to(0)),
            },
            RunPhaseView::Feeding { fed } => ProgressView::Going(
                if reply == (ReplyView::Key { accepted: true }) {
                    self.fed_to(fed + 1)
                } else {
                    self.closing(fallback_segment(self.raw, self.normalized, self.raw))
                },
            ),
            RunPhaseView::Reading => ProgressView::Going(
                self.closing(segment_for(self.raw, self.normalized, reply->Context_0)),
            ),
            RunPhaseView::Closing { segment } => ProgressView::Done(
                if reply == (ReplyView::Closed { ok: true }) {
                    Ok(segment)
                } else {
                    Err(EngineErrorView::CloseSession)
                },
            ),
        }
    }

    /// How the conversion stands after several replies; those that come after its end change
    /// nothing.
    pub open spec fn after_all(self, replies: Seq<ReplyView>) -> ProgressView<RunView, SegmentView>
        decreases replies.len(),
    {
        if replies.len() == 0 {
            ProgressView::Going(self)
        } else {
            match self.after_all(replies.drop_last()) {
                ProgressView::Going(run) => run.after(replies.last()),
                done => done,
            }
        }
    }
}

/// Starts to convert the run `raw`, of which the engine is fed `normalized`.
pub fn convert_pinyin_run(schema: &str, raw: &str, normalized: &str) -> (r: RunConversion)
    ensures
        r@ == RunView::begun(schema@, raw@, normalized@),
        r@.wf(),
{
    RunConversion {
        schema: schema.to_owned(),
        raw: raw.to_owned(),
        normalized: normalized.to_owned(),
        phase: RunPhase::Opening,
    }
}

impl RunConversion {
    /// What the engine is to be asked.
    pub fn request(&self) -> (r: EngineRequest)
        requires
            self@.wf(),
        ensures
            r@ == self@.asked(),
    {
        match &self.phase {
            RunPhase::Opening => EngineRequest::Open { schema: self.schema.clone() },
            RunPhase::Feeding { fed } => EngineRequest::ProcessKey {
                code: self.normalized.as_str().get_char(*fed) as u32,
            },
            RunPhase::Reading => EngineRequest::ReadContext,
            RunPhase::Closing { .. } => EngineRequest::Close,
        }
    }

    /// Goes on to the character at `fed`, or to the context where all have been fed.
    fn feed(self, fed: usize) -> (r: Self)
        requires
            fed <= self@.normalized.len(),
        ensures
            r@ == self@.fed_to(fed as int),
            r@.wf(),
    {
        let mut run = self;
        run.phase = if fed < char_count(&run.normalized) {
            RunPhase::Feeding { fed }
        } else {
            RunPhase::Reading
        };
        run
    }

    /// Goes on to close the session.
    fn close(self, segment: ConvertedSegment) -> (r: Self)
        requires
            segment@.raw == self@.raw,
            segment@.normalized == self@.normalized,
        ensures
            r@ == self@.closing(segment@),
            r@.wf(),
    {
        let mut run = self;
        run.phase = RunPhase::Closing { segment };
        run
    }

    /// Takes the engine's answer.
    pub fn advance(self, reply: EngineReply) -> (r: Progress<RunConversion, ConvertedSegment>)
        requires
            self@.wf(),
            self@.asked().answered_by(reply@),
        ensures
            r@ == self@.after(reply@),
            r matches Progress::Going(run) ==> run@.wf(),
            r matches Progress::Going(run) ==> run@.raw == self@.raw && run@.normalized
                == self@.normalized,
            r matches Progress::Done(Ok(segment)) ==> segment@.raw == self@.raw
                && segment@.normalized == self@.normalized,
    {
        match self.phase {
            RunPhase::Opening => match reply {
                EngineReply::Opened(Err(error)) => Progress::Done(Err(error)),
                _ => Progress::Going(self.feed(0)),
            },
            RunPhase::Feeding { fed } => match reply {
                EngineReply::Key { accepted: true } => {
                    let count = char_count(&self.normalized);
                    assert(fed < count);
                    Progress::Going(self.feed(fed + 1))
                },
                _ => {
                    let segment = raw_fallback_segment(&self.raw, &self.normalized, &self.raw);
                    Progress::Going(self.close(segment))
                },
            },
            RunPhase::Reading => {
                let context = match reply {
                    EngineReply::Context(context) => context,
                    _ => None,
                };
                let segment = segment_from(&self.raw, &self.normalized, context);
                Progress::Going(self.close(segment))
            },
            RunPhase::Closing { segment } => match reply {
                EngineReply::Closed { ok: true } => Progress::Done(Ok(segment)),
                _ => Progress::Done(Err(EngineError::CloseSession)),
            },
        }
    }
}

/// The engine's answers up to the point where it has accepted `fed` characters of a run.
pub open spec fn accepting(fed: nat) -> Seq<ReplyView> {
    seq![ReplyView::Opened(Ok(()))] + Seq::new(fed, |i: int| ReplyView::Key { accepted: true })
}

/// While the engine accepts what it is fed, the run is fed to it character by character.
pub proof fn lemma_accepted_run_is_fed(run: RunView, fed: nat)
    requires
        run.phase is Opening,
        fed <= run.normalized.len() <= usize::MAX,
    ensures
        run.after_all(accepting(fed)) == ProgressView::<_, SegmentView>::Going(
            run.fed_to(fed as int),
        ),
    decreases fed,
{
    let replies = accepting(fed);
    if fed == 0 {
        assert(replies.drop_last() =~= Seq::<ReplyView>::empty());
        assert(run.after_all(replies.drop_last()) == ProgressView::<_, SegmentView>::Going(run));
        assert(replies.last() == ReplyView::Opened(Ok(())));
    } else {
        lemma_accepted_run_is_fed(run, (fed - 1) as nat);
        assert(replies.drop_last() =~= accepting((fed - 1) as nat));
    }
}

/// A run that the engine accepts is replaced by the first candidate that it shows, and stays
/// as it is where there is none.
pub proof fn law_accepted_run_becomes_its_first_candidate(
    schema: Seq<char>,
    raw: Seq<char>,
    normalized: Seq<char>,
    context: Option<ContextView>,
)
    requires
        normalized.len() <= usize::MAX,
    ensures
        ({
            let run = RunView::begun(schema, raw, normalized);
            let replies = accepting(normalized.len()) + seq![
                ReplyView::Context(context),
                ReplyView::Closed { ok: true },
            ];
            run.after_all(replies) == ProgressView::<RunView, _>::Done(
                Ok(segment_for(raw, normalized, context)),
            )
        }),
{
    let run = RunView::begun(schema, raw, normalized);
    let read = accepting(normalized.len()).push(ReplyView::Context(context));
    let replies = accepting(normalized.len()) + seq![
        ReplyView::Context(context),
        ReplyView::Closed { ok: true },
    ];
    lemma_accepted_run_is_fed(run, normalized.len());
    assert(read.drop_last() =~= accepting(normalized.len()));
    assert(run.after_all(read) == ProgressView::<_, SegmentView>::Going(
        run.closing(segment_for(raw, normalized, context)),
    ));
    assert(replies.drop_last() =~= read);
}

/// A run of which the engine passes a character over stays as it is.
pub proof fn law_passed_run_stays_as_it_is(
    schema: Seq<char>,
    raw: Seq<char>,
    normalized: Seq<char>,
    fed: nat,
)
    requires
        fed < normalized.len() <= usize::MAX,
    ensures
        ({
            let run = RunView::begun(schema, raw, normalized);
            let replies = accepting(fed) + seq![
                ReplyView::Key { accepted: false },
                ReplyView::Closed { ok: true },
            ];
            run.after_all(replies) == ProgressView::<RunView, _>::Done(
                Ok(fallback_segment(raw, normalized, raw)),
            )
        }),
{
    let run = RunView::begun(schema, raw, normalized);
    let passed = accepting(fed).push(ReplyView::Key { accepted: false });
    let replies = accepting(fed) + seq![
        ReplyView::Key { accepted: false },
        ReplyView::Closed { ok: true },
    ];
    lemma_accepted_run_is_fed(run, fed);
    assert(passed.drop_last() =~= accepting(fed));
    assert(run.after_all(passed) == ProgressView::<_, SegmentView>::Going(
        run.closing(fallback_segment(raw, normalized, raw)),
    ));
    assert(replies.drop_last() =~= passed);
}

/// A run is converted only once its session has been closed: where the conversion ends well,
/// the last answer was that the session is closed. Where it fails no session is left open
/// either, and while it goes on its session stays open.
pub proof fn law_run_is_converted_after_its_session_is_closed(run: RunView, reply: ReplyView)
    requires
        run.asked().answered_by(reply),
    ensures
        run.after(reply) matches ProgressView::Done(Ok(_)) ==> run.asked() == RequestView::Close
            && reply == (ReplyView::Closed { ok: true }),
        run.after(reply) is Done ==> !run.asked().leaves_open(reply),
        run.after(reply) matches ProgressView::Going(next) ==> run.asked().leaves_open(reply)
            && next.asked() !is Open,
{
}

impl RunView {
    /// How many more answers the conversion takes at most.
    pub open spec fn steps_left(self) -> int {
        match self.phase {
            RunPhaseView::Opening => self.normalized.len() as int + 4,
            RunPhaseView::Feeding { fed } => self.normalized.len() - fed + 3,
            RunPhaseView::Reading => 2,
            RunPhaseView::Closing { .. } => 1,
        }
    }
}

/// The conversion of a run comes to an end, whatever the engine answers.
pub proof fn law_run_conversion_ends(run: RunView, reply: ReplyView)
    requires
        run.wf(),
        run.normalized.len() <= usize::MAX,
    ensures
        run.steps_left() > 0,
        run.after(reply) matches ProgressView::Going(next) ==> next.steps_left()
            < run.steps_left(),
{
}

} // verus!
