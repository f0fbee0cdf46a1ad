//! Converting a body as a whole: the engine is fed every character and segments by itself.

use vstd::prelude::*;

use crate::config::ConversionMode;
use crate::conversion::{
    convert_body_with_quote_state, law_body_conversion_closes_its_sessions,
    law_body_conversion_ends, BodyConversion, BodyView, Conversion, ConversionOutput,
    ConvertedView, OutputView, PartView,
};
use crate::engine::{
    ContextView, EngineContext, EngineError, EngineErrorView, EngineReply, EngineRequest, Progress,
    ProgressView, ReplyView, RequestView,
};
use crate::segments::{segment_views, ConvertedSegment, SegmentView};
use crate::separators::{no_quote, QuoteState};
use crate::text::char_count;
use crate::tokens::{token_views, Token, TokenView};

verus! {

/// What stands for the composed text where the engine shows none.
pub const NO_PREEDIT: &'static str = "<none>";

/// How far the conversion of a body as a whole has come.
#[derive(Debug, Clone, Copy, PartialEq, Eq, Structural)]
pub enum AutoPhase {
    /// A session is being opened.
    Opening,
    /// The character at `fed` is being fed.
    Feeding { fed: usize },
    /// The character at `fed` has been fed, and what the engine committed is being taken.
    Committing { fed: usize },
    /// The context is being read.
    Reading,
    /// The session is being closed.
    Closing,
}

/// The conversion of a body as a whole. What the engine commits goes to the output, as does a
/// character that it passes over, after those that were pending.
#[derive(Debug, PartialEq, Eq)]
pub struct AutoConversion {
    pub schema: String,
    pub body: String,
    pub output: String,
    /// What the engine has accepted since it last committed something.
    pub pending: String,
    pub preedit: String,
    pub phase: AutoPhase,
}

/// What an [`AutoConversion`] holds.
#[verifier::ext_equal]
pub struct AutoView {
    pub schema: Seq<char>,
    pub body: Seq<char>,
    pub output: Seq<char>,
    pub pending: Seq<char>,
    pub preedit: Seq<char>,
    pub phase: AutoPhase,
}

impl View for AutoConversion {
    type V = AutoView;

    open spec fn view(&self) -> AutoView {
        AutoView {
            schema: self.schema@,
            body: self.body@,
            output: self.output@,
            pending: self.pending@,
            preedit: self.preedit@,
            phase: self.phase,
        }
    }
}

impl AutoView {
    /// The conversion before the engine has been asked anything.
    pub open spec fn begun(schema: Seq<char>, body: Seq<char>) -> AutoView {
        AutoView {
            schema,
            body,
            output: seq![],
            pending: seq![],
            preedit: NO_PREEDIT@,
            phase: AutoPhase::Opening,
        }
    }

    /// A character that is being fed is one of the body's.
    pub open spec fn wf(self) -> bool {
        match self.phase {
            AutoPhase::Feeding { fed } => fed < self.body.len(),
            AutoPhase::Committing { fed } => fed < self.body.len(),
            _ => true,
        }
    }

    /// What the engine is to be asked.
    pub open spec fn asked(self) -> RequestView {
        match self.phase {
            AutoPhase::Opening => RequestView::Open { schema: self.schema },
            AutoPhase::Feeding { fed } => RequestView::ProcessKey {
                code: self.body[fed as int] as u32,
            },
            AutoPhase::Committing { .. } => RequestView::TakeCommit,
            AutoPhase::Reading => RequestView::ReadContext,
            AutoPhase::Closing => RequestView::Close,
        }
    }

    /// The conversion once `fed` characters are done with: the next one is fed, and after the
    /// last one the context is read.
    pub open spec fn fed_to(self, fed: int) -> AutoView {
        AutoView {
            phase: if fed < self.body.len() {
                AutoPhase::Feeding { fed: fed as usize }
            } else {
                AutoPhase::Reading
            },
            ..self
        }
    }

    /// The conversion once the engine has accepted the character at `fed`, or passed it over.
    pub open spec fn keyed(self, fed: usize, accepted: bool) -> AutoView {
        let ch = self.body[fed as int];
        let phase = AutoPhase::Committing { fed };
        if accepted {
            AutoView { pending: self.pending.push(ch), phase, ..self }
        } else {
            AutoView {
                output: (self.output + self.pending).push(ch),
                pending: seq![],
                phase,
                ..self
            }
        }
    }

    /// The conversion once the engine's commit, if any, is taken.
    pub open spec fn committed(self, commit: Option<Seq<char>>) -> AutoView {
        match commit {
            Some(text) => AutoView { output: self.output + text, pending: seq![], ..self },
            None => self,
        }
    }

    /// The conversion once the context is read: the first candidate ends the output, or what
    /// is pending where there is none.
    pub open spec fn read(self, context: Option<ContextView>) -> AutoView {
        AutoView {
            output: self.output + match context {
                Some(c) if c.candidates.len() > 0 => c.candidates[0],
                _ => self.pending,
            },
            pending: seq![],
            preedit: match context {
                Some(c) => match c.preedit {
                    Some(p) => p,
                    None => NO_PREEDIT@,
                },
                None => NO_PREEDIT@,
            },
            phase: AutoPhase::Closing,
            ..self
        }
    }

    /// The converted body: one token and one segment.
    pub open spec fn result(self) -> OutputView {
        OutputView {
            body: self.body,
            output: self.output,
            tokens: seq![TokenView::RimeAuto(self.body)],
            segments: seq![
                SegmentView {
                    raw: self.body,
                    normalized: self.body,
                    preedit: self.preedit,
                    first: self.output,
                },
            ],
        }
    }

    /// How the conversion stands after `reply`, an answer to what was asked.
    pub open spec fn after(self, reply: ReplyView) -> ProgressView<AutoView, OutputView> {
        match self.phase {
            AutoPhase::Opening => match reply {
                ReplyView::Opened(Err(e)) => ProgressView::Done(Err(e)),
                _ => ProgressView::Going(self.fed_to(0)),
            },
            AutoPhase::Feeding { fed } => ProgressView::Going(
                self.keyed(fed, reply == (ReplyView::Key { accepted: true })),
            ),
            AutoPhase::Committing { fed } => ProgressView::Going(
                self.committed(reply->Commit_0).fed_to(fed + 1),
            ),
            AutoPhase::Reading => ProgressView::Going(self.read(reply->Context_0)),
            AutoPhase::Closing => ProgressView::Done(
                if reply == (ReplyView::Closed { ok: true }) {
                    Ok(self.result())
                } else {
                    Err(EngineErrorView::CloseSession)
                },
            ),
        }
    }

    /// How the conversion stands after several replies; those that come after its end change
    /// nothing.
    pub open spec fn after_all(self, replies: Seq<ReplyView>) -> ProgressView<AutoView, OutputView>
        decreases replies.len(),
    {
        if replies.len() == 0 {
            ProgressView::Going(self)
        } else {
            match self.after_all(replies.drop_last()) {
                ProgressView::Going(m) => m.after(replies.last()),
                done => done,
            }
        }
    }
}

/// Starts to convert a body as a whole.
pub fn convert_body_rime_auto(schema: &str, body: String) -> (r: AutoConversion)
    ensures
        r@ == AutoView::begun(schema@, body@),
        r@.wf(),
{
    AutoConversion {
        schema: schema.to_owned(),
        body,
        output: String::new(),
        pending: String::new(),
        preedit: NO_PREEDIT.to_owned(),
        phase: AutoPhase::Opening,
    }
}

impl AutoConversion {
    /// What the engine is to be asked.
    pub fn request(&self) -> (r: EngineRequest)
        requires
            self@.wf(),
        ensures
            r@ == self@.asked(),
    {
        match self.phase {
            AutoPhase::Opening => EngineRequest::Open { schema: self.schema.clone() },
            AutoPhase::Feeding { fed } => EngineRequest::ProcessKey {
                code: self.body.as_str().get_char(fed) as u32,
            },
            AutoPhase::Committing { .. } => EngineRequest::TakeCommit,
            AutoPhase::Reading => EngineRequest::ReadContext,
            AutoPhase::Closing => EngineRequest::Close,
        }
    }

    /// Goes on to the character at `fed`, or to the context where all have been fed.
    fn feed(self, fed: usize) -> (r: Self)
        requires
            fed <= self@.body.len(),
        ensures
            r@ == self@.fed_to(fed as int),
            r@.wf(),
    {
        let mut conversion = self;
        conversion.phase = if fed < char_count(&conversion.body) {
            AutoPhase::Feeding { fed }
        } else {
            AutoPhase::Reading
        };
        conversion
    }

    /// Takes over what the context shows.
    fn finish(self, context: Option<EngineContext>) -> (r: Self)
        ensures
            r@ == self@.read(
                match context {
                    Some(c) => Some(c@),
                    None => None,
                },
            ),
            r@.wf(),
    {
        let mut conversion = self;
        conversion.preedit = NO_PREEDIT.to_owned();
        conversion.phase = AutoPhase::Closing;
        let mut pending = String::new();
        std::mem::swap(&mut pending, &mut conversion.pending);
        match context {
            Some(context) => {
                if let Some(preedit) = context.preedit {
                    conversion.preedit = preedit;
                }
                if context.candidates.len() > 0 {
                    conversion.output.append(&context.candidates[0]);
                } else {
                    conversion.output.append(&pending);
                }
            },
            None => {
                conversion.output.append(&pending);
            },
        }
        conversion
    }

    /// The converted body.
    fn into_output(self) -> (r: ConversionOutput)
        ensures
            r@ == self@.result(),
    {
        let segment = ConvertedSegment {
            raw: self.body.clone(),
            normalized: self.body.clone(),
            preedit: self.preedit,
            first: self.output.clone(),
        };
        let mut tokens: Vec<Token> = Vec::new();
        tokens.push(Token::RimeAuto(self.body.clone()));
        let mut segments: Vec<ConvertedSegment> = Vec::new();
        segments.push(segment);
        assert(token_views(tokens@) =~= seq![TokenView::RimeAuto(self.body@)]);
        assert(segment_views(segments@) =~= seq![segment@]);
        ConversionOutput { body: self.body, output: self.output, tokens, segments }
    }

    /// Takes the engine's answer.
    pub fn advance(self, reply: EngineReply) -> (r: Progress<AutoConversion, ConversionOutput>)
        requires
            self@.wf(),
            self@.asked().answered_by(reply@),
        ensures
            r@ == self@.after(reply@),
            r matches Progress::Going(m) ==> m@.wf(),
    {
        match self.phase {
            AutoPhase::Opening => match reply {
                EngineReply::Opened(Err(error)) => Progress::Done(Err(error)),
                _ => Progress::Going(self.feed(0)),
            },
            AutoPhase::Feeding { fed } => {
                let mut next = self;
                let ch = next.body.as_str().get_char(fed);
                next.phase = AutoPhase::Committing { fed };
                match reply {
                    EngineReply::Key { accepted: true } => {
                        next.pending.push(ch);
                    },
                    _ => {
                        let mut pending = String::new();
                        std::mem::swap(&mut pending, &mut next.pending);
                        next.output.append(&pending);
                        next.output.push(ch);
                    },
                }
                assert(next@ =~= self@.keyed(fed, reply@ == (ReplyView::Key { accepted: true })));
                Progress::Going(next)
            },
            AutoPhase::Committing { fed } => {
                let mut next = self;
                if let EngineReply::Commit(Some(text)) = reply {
                    next.output.append(&text);
                    next.pending = String::new();
                }
                assert(next@ =~= self@.committed(reply@->Commit_0));
                let count = char_count(&next.body);
                assert(fed < count);
                Progress::Going(next.feed(fed + 1))
            },
            AutoPhase::Reading => {
                let context = match reply {
                    EngineReply::Context(context) => context,
                    _ => None,
                };
                Progress::Going(self.finish(context))
            },
            AutoPhase::Closing => match reply {
                EngineReply::Closed { ok: true } => Progress::Done(Ok(self.into_output())),
                _ => Progress::Done(Err(EngineError::CloseSession)),
            },
        }
    }
}

/// The engine's answers while it commits nothing of the first `fed` characters, where
/// `accepted` says which of them it accepts.
pub open spec fn committing_nothing(accepted: Seq<bool>, fed: nat) -> Seq<ReplyView>
    decreases fed,
{
    if fed == 0 {
        seq![ReplyView::Opened(Ok(()))]
    } else {
        committing_nothing(accepted, (fed - 1) as nat).push(
            ReplyView::Key { accepted: accepted[fed - 1] },
        ).push(ReplyView::Commit(None))
    }
}

/// While the engine commits nothing, the output and what is pending make up the text so far.
proof fn lemma_nothing_is_lost(schema: Seq<char>, body: Seq<char>, accepted: Seq<bool>, fed: nat)
    requires
        fed <= body.len() <= usize::MAX,
    ensures
        ({
            let start = AutoView::begun(schema, body);
            let at = start.after_all(committing_nothing(accepted, fed));
            &&& at matches ProgressView::Going(m)
            &&& m == (AutoView { output: m.output, pending: m.pending, ..start.fed_to(fed as int) })
            &&& m.output + m.pending == body.take(fed as int)
        }),
    decreases fed,
{
    let start = AutoView::begun(schema, body);
    let replies = committing_nothing(accepted, fed);
    if fed == 0 {
        assert(replies.drop_last() =~= Seq::<ReplyView>::empty());
        assert(start.after_all(replies.drop_last()) == ProgressView::<_, OutputView>::Going(start));
        assert(start.output + start.pending =~= body.take(0));
    } else {
        let before = committing_nothing(accepted, (fed - 1) as nat);
        let keyed = before.push(ReplyView::Key { accepted: accepted[fed - 1] });
        lemma_nothing_is_lost(schema, body, accepted, (fed - 1) as nat);
        let m = start.after_all(before)->Going_0;
        let k = m.keyed((fed - 1) as usize, accepted[fed - 1]);
        assert(keyed.drop_last() =~= before);
        assert(start.after_all(keyed) == ProgressView::<_, OutputView>::Going(k));
        assert(replies.drop_last() =~= keyed);
        assert(k.output + k.pending =~= (m.output + m.pending).push(body[fed - 1]));
        assert(body.take(fed as int) =~= body.take(fed - 1).push(body[fed - 1]));
    }
}

/// Nothing that was typed is lost: where the engine commits nothing and offers no candidate,
/// the output is the body, whichever of its characters the engine accepted. The body is one
/// token and one segment, with the composed text that the engine shows.
pub proof fn law_unconverted_body_is_kept(
    schema: Seq<char>,
    body: Seq<char>,
    accepted: Seq<bool>,
    context: Option<ContextView>,
)
    requires
        body.len() <= usize::MAX,
        context matches Some(c) ==> c.candidates.len() == 0,
    ensures
        ({
            let replies = committing_nothing(accepted, body.len()) + seq![
                ReplyView::Context(context),
                ReplyView::Closed { ok: true },
            ];
            let preedit = match context {
                Some(c) => match c.preedit {
                    Some(p) => p,
                    None => NO_PREEDIT@,
                },
                None => NO_PREEDIT@,
            };
            AutoView::begun(schema, body).after_all(replies) == ProgressView::<AutoView, _>::Done(
                Ok(
                    OutputView {
                        body,
                        output: body,
                        tokens: seq![TokenView::RimeAuto(body)],
                        segments: seq![
                            SegmentView { raw: body, normalized: body, preedit, first: body },
                        ],
                    },
                ),
            )
        }),
{
    let start = AutoView::begun(schema, body);
    let before = committing_nothing(accepted, body.len());
    let read = before.push(ReplyView::Context(context));
    let replies = before + seq![ReplyView::Context(context), ReplyView::Closed { ok: true }];
    lemma_nothing_is_lost(schema, body, accepted, body.len());
    let m = start.after_all(before)->Going_0;
    assert(read.drop_last() =~= before);
    assert(start.after_all(read) == ProgressView::<_, OutputView>::Going(m.read(context)));
    assert(replies.drop_last() =~= read);
    assert(body.take(body.len() as int) =~= body);
}

/// The conversion of a body in either mode, while the engine is being asked.
#[derive(Debug, PartialEq, Eq)]
pub enum Converter {
    Segmented(BodyConversion),
    /// As a whole, which neither opens nor ends a quotation.
    RimeAuto { conversion: AutoConversion, quote_state: QuoteState },
}

/// What a [`Converter`] holds.
#[verifier::ext_equal]
pub enum ConverterView {
    Segmented(BodyView),
    RimeAuto { conversion: AutoView, quote_state: QuoteState },
}

impl View for Converter {
    type V = ConverterView;

    open spec fn view(&self) -> ConverterView {
        match *self {
            Converter::Segmented(m) => ConverterView::Segmented(m@),
            Converter::RimeAuto { conversion, quote_state } => ConverterView::RimeAuto {
                conversion: conversion@,
                quote_state,
            },
        }
    }
}

/// How a conversion run by run stands.
pub open spec fn segmented_progress(progress: ProgressView<BodyView, ConvertedView>) -> ProgressView<
    ConverterView,
    ConvertedView,
> {
    match progress {
        ProgressView::Going(m) => ProgressView::Going(ConverterView::Segmented(m)),
        ProgressView::Done(r) => ProgressView::Done(r),
    }
}

/// How a conversion as a whole stands: a quotation is open after it where one was open before.
pub open spec fn auto_progress(
    progress: ProgressView<AutoView, OutputView>,
    quote_state: QuoteState,
) -> ProgressView<ConverterView, ConvertedView> {
    match progress {
        ProgressView::Going(conversion) => ProgressView::Going(
            ConverterView::RimeAuto { conversion, quote_state },
        ),
        ProgressView::Done(Ok(output)) => ProgressView::Done(
            Ok(ConvertedView { output, quote_state }),
        ),
        ProgressView::Done(Err(e)) => ProgressView::Done(Err(e)),
    }
}

impl ConverterView {
    /// The conversion can go on.
    pub open spec fn wf(self) -> bool {
        match self {
            ConverterView::Segmented(m) => m.wf(),
            ConverterView::RimeAuto { conversion, .. } => conversion.wf(),
        }
    }

    /// What the engine is to be asked.
    pub open spec fn asked(self) -> RequestView {
        match self {
            ConverterView::Segmented(m) => m.asked(),
            ConverterView::RimeAuto { conversion, .. } => conversion.asked(),
        }
    }

    /// How the conversion of `body` starts, where `quote_state` says whether a quotation is
    /// open before it.
    pub open spec fn started(
        mode: ConversionMode,
        schema: Seq<char>,
        body: Seq<char>,
        quote_state: QuoteState,
    ) -> ProgressView<ConverterView, ConvertedView> {
        match mode {
            ConversionMode::Segmented => segmented_progress(
                PartView::of(schema, body, quote_state).continued(),
            ),
            ConversionMode::RimeAuto => ProgressView::Going(
                ConverterView::RimeAuto { conversion: AutoView::begun(schema, body), quote_state },
            ),
        }
    }

    /// How the conversion stands after `reply`, an answer to what was asked.
    pub open spec fn after(self, reply: ReplyView) -> ProgressView<ConverterView, ConvertedView> {
        match self {
            ConverterView::Segmented(m) => segmented_progress(m.after(reply)),
            ConverterView::RimeAuto { conversion, quote_state } => auto_progress(
                conversion.after(reply),
                quote_state,
            ),
        }
    }
}

/// Goes on with a conversion run by run.
fn segmented(progress: Progress<BodyConversion, Conversion>) -> (r: Progress<Converter, Conversion>)
    requires
        progress matches Progress::Going(m) ==> m@.wf(),
    ensures
        r@ == segmented_progress(progress@),
        r matches Progress::Going(m) ==> m@.wf(),
{
    match progress {
        Progress::Going(m) => Progress::Going(Converter::Segmented(m)),
        Progress::Done(result) => Progress::Done(result),
    }
}

/// Starts to convert a body run by run, outside a quotation.
pub fn convert_body_segmented(schema: &str, body: String) -> (r: Progress<Converter, Conversion>)
    ensures
        r@ == segmented_progress(PartView::of(schema@, body@, no_quote()).continued()),
        r matches Progress::Going(m) ==> m@.wf(),
{
    segmented(convert_body_with_quote_state(schema, body, QuoteState::default()))
}

/// Starts to convert a body as the mode says, where `quote_state` says whether a quotation is
/// open before it.
pub fn convert_body_in_mode(
    mode: ConversionMode,
    schema: &str,
    body: String,
    quote_state: QuoteState,
) -> (r: Progress<Converter, Conversion>)
    ensures
        r@ == ConverterView::started(mode, schema@, body@, quote_state),
        r matches Progress::Going(m) ==> m@.wf(),
{
    match mode {
        ConversionMode::Segmented => segmented(
            convert_body_with_quote_state(schema, body, quote_state),
        ),
        ConversionMode::RimeAuto => Progress::Going(
            Converter::RimeAuto { conversion: convert_body_rime_auto(schema, body), quote_state },
        ),
    }
}

/// Starts to convert a body as the mode says, outside a quotation.
pub fn convert_body(mode: ConversionMode, schema: &str, body: String) -> (r: Progress<
    Converter,
    Conversion,
>)
    ensures
        r@ == ConverterView::started(mode, schema@, body@, no_quote()),
        r matches Progress::Going(m) ==> m@.wf(),
{
    match mode {
        ConversionMode::Segmented => convert_body_segmented(schema, body),
        ConversionMode::RimeAuto => convert_body_in_mode(mode, schema, body, QuoteState::default()),
    }
}

impl Converter {
    /// What the engine is to be asked.
    pub fn request(&self) -> (r: EngineRequest)
        requires
            self@.wf(),
        ensures
            r@ == self@.asked(),
    {
        match self {
            Converter::Segmented(m) => m.request(),
            Converter::RimeAuto { conversion, .. } => conversion.request(),
        }
    }

    /// Takes the engine's answer.
    pub fn advance(self, reply: EngineReply) -> (r: Progress<Converter, Conversion>)
        requires
            self@.wf(),
            self@.asked().answered_by(reply@),
        ensures
            r@ == self@.after(reply@),
            r matches Progress::Going(m) ==> m@.wf(),
    {
        match self {
            Converter::Segmented(m) => segmented(m.advance(reply)),
            Converter::RimeAuto { conversion, quote_state } => match conversion.advance(reply) {
                Progress::Going(conversion) => Progress::Going(
                    Converter::RimeAuto { conversion, quote_state },
                ),
                Progress::Done(Ok(output)) => Progress::Done(Ok(Conversion { output, quote_state })),
                Progress::Done(Err(error)) => Progress::Done(Err(error)),
            },
        }
    }
}

impl AutoView {
    /// How many more answers the conversion takes at most.
    pub open spec fn steps_left(self) -> int {
        match self.phase {
            AutoPhase::Opening => 2 * self.body.len() as int + 4,
            AutoPhase::Feeding { fed } => 2 * (self.body.len() - fed) + 3,
            AutoPhase::Committing { fed } => 2 * (self.body.len() - fed) + 2,
            AutoPhase::Reading => 2,
            AutoPhase::Closing => 1,
        }
    }
}

/// The conversion of a body as a whole comes to an end, whatever the engine answers.
pub proof fn law_auto_conversion_ends(conversion: AutoView, reply: ReplyView)
    requires
        conversion.wf(),
        conversion.body.len() <= usize::MAX,
    ensures
        conversion.steps_left() > 0,
        conversion.after(reply) matches ProgressView::Going(next) ==> next.steps_left()
            < conversion.steps_left(),
{
}

/// A body is converted as a whole only once its session has been closed. Where that fails no
/// session is left open either, and while it goes on there is the one session.
pub proof fn law_auto_conversion_ends_with_a_closed_session(conversion: AutoView, reply: ReplyView)
    requires
        conversion.asked().answered_by(reply),
    ensures
        conversion.after(reply) matches ProgressView::Done(Ok(_)) ==> conversion.asked()
            == RequestView::Close && reply == (ReplyView::Closed { ok: true }),
        conversion.after(reply) is Done ==> !conversion.asked().leaves_open(reply),
        conversion.after(reply) matches ProgressView::Going(next) ==> conversion.asked(
        ).leaves_open(reply) && next.asked() !is Open,
{
}

impl ConverterView {
    /// The conversion is closer to its end than `from` is: it has come to a later token, or its
    /// conversation with the engine has gone on.
    pub open spec fn is_closer_than(self, from: ConverterView) -> bool {
        match (from, self) {
            (ConverterView::Segmented(a), ConverterView::Segmented(b)) => {
                &&& b.part.tokens == a.part.tokens
                &&& b.part.done < b.part.tokens.len()
                &&& b.part.done > a.part.done || (b.part == a.part && b.run.steps_left()
                    < a.run.steps_left())
            },
            (
                ConverterView::RimeAuto { conversion: a, .. },
                ConverterView::RimeAuto { conversion: b, .. },
            ) => 0 < b.steps_left() < a.steps_left(),
            _ => false,
        }
    }

    /// What the engine is fed is no longer than can be counted.
    pub open spec fn countable(self) -> bool {
        match self {
            ConverterView::Segmented(m) => m.run.normalized.len() <= usize::MAX,
            ConverterView::RimeAuto { conversion, .. } => conversion.body.len() <= usize::MAX,
        }
    }
}

/// The conversion of a body comes to an end in either mode, whatever the engine answers.
pub proof fn law_conversion_ends_in_either_mode(conversion: ConverterView, reply: ReplyView)
    requires
        conversion.wf(),
        conversion.countable(),
    ensures
        conversion.after(reply) matches ProgressView::Going(next) ==> next.is_closer_than(
            conversion,
        ),
{
    match conversion {
        ConverterView::Segmented(m) => law_body_conversion_ends(m, reply),
        ConverterView::RimeAuto { conversion: m, .. } => law_auto_conversion_ends(m, reply),
    }
}

/// In either mode a session is opened only where none is open, and none is left open at the end
/// of the conversion, whether it ends well or fails.
pub proof fn law_conversion_closes_its_sessions(conversion: ConverterView, reply: ReplyView)
    requires
        conversion.wf(),
        conversion.asked().answered_by(reply),
    ensures
        conversion.after(reply) is Done ==> !conversion.asked().leaves_open(reply),
        conversion.after(reply) matches ProgressView::Going(next) ==> (conversion.asked(
        ).leaves_open(reply) <==> next.asked() !is Open),
{
    match conversion {
        ConverterView::Segmented(m) => law_body_conversion_closes_its_sessions(m, reply),
        ConverterView::RimeAuto { conversion: m, .. } => {
            law_auto_conversion_ends_with_a_closed_session(m, reply);
        },
    }
}

} // verus!
