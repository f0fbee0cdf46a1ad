//! Converting a body run by run: pinyin runs go to the engine and separators become Chinese
//! punctuation.

use vstd::prelude::*;

use crate::engine::{EngineReply, EngineRequest, Progress, ProgressView, ReplyView, RequestView};
use crate::segments::{
    convert_pinyin_run, law_run_conversion_ends, law_run_is_converted_after_its_session_is_closed,
    segment_views, ConvertedSegment, RunConversion, RunView, SegmentView,
};
use crate::separators::{chinese_separator, map_separator, quote_after, QuoteState};
use crate::tokens::{
    law_run_is_normalized, law_tokens_alternate, normalize_pinyin_run, normalized, token_views,
    tokenize_body, tokens_of, well_formed_token, Token, TokenView,
};

verus! {

/// A converted body.
#[derive(Debug, PartialEq, Eq)]
pub struct ConversionOutput {
    pub body: String,
    /// The text that takes the body's place.
    pub output: String,
    pub tokens: Vec<Token>,
    /// The converted pinyin runs.
    pub segments: Vec<ConvertedSegment>,
}

/// What a [`ConversionOutput`] holds.
#[verifier::ext_equal]
pub struct OutputView {
    pub body: Seq<char>,
    pub output: Seq<char>,
    pub tokens: Seq<TokenView>,
    pub segments: Seq<SegmentView>,
}

impl View for ConversionOutput {
    type V = OutputView;

    open spec fn view(&self) -> OutputView {
        OutputView {
            body: self.body@,
            output: self.output@,
            tokens: token_views(self.tokens@),
            segments: segment_views(self.segments@),
        }
    }
}

/// A converted body, and whether a quotation is open after it.
#[derive(Debug, PartialEq, Eq)]
pub struct Conversion {
    pub output: ConversionOutput,
    pub quote_state: QuoteState,
}

/// What a [`Conversion`] holds.
#[verifier::ext_equal]
pub struct ConvertedView {
    pub output: OutputView,
    pub quote_state: QuoteState,
}

impl View for Conversion {
    type V = ConvertedView;

    open spec fn view(&self) -> ConvertedView {
        ConvertedView { output: self.output@, quote_state: self.quote_state }
    }
}

/// The part of a body that is converted so far.
#[derive(Debug, PartialEq, Eq)]
pub struct ConvertedPart {
    pub schema: String,
    pub body: String,
    pub tokens: Vec<Token>,
    /// How many of the tokens are converted.
    pub done: usize,
    pub output: String,
    pub segments: Vec<ConvertedSegment>,
    pub quote_state: QuoteState,
}

/// What a [`ConvertedPart`] holds.
#[verifier::ext_equal]
pub struct PartView {
    pub schema: Seq<char>,
    pub body: Seq<char>,
    pub tokens: Seq<TokenView>,
    pub done: int,
    pub output: Seq<char>,
    pub segments: Seq<SegmentView>,
    pub quote_state: QuoteState,
}

impl View for ConvertedPart {
    type V = PartView;

    open spec fn view(&self) -> PartView {
        PartView {
            schema: self.schema@,
            body: self.body@,
            tokens: token_views(self.tokens@),
            done: self.done as int,
            output: self.output@,
            segments: segment_views(self.segments@),
            quote_state: self.quote_state,
        }
    }
}

/// The conversion of a body, run by run, while one of its runs is with the engine.
#[derive(Debug, PartialEq, Eq)]
pub struct BodyConversion {
    pub part: ConvertedPart,
    pub run: RunConversion,
}

/// What a [`BodyConversion`] holds.
#[verifier::ext_equal]
pub struct BodyView {
    pub part: PartView,
    pub run: RunView,
}

impl View for BodyConversion {
    type V = BodyView;

    open spec fn view(&self) -> BodyView {
        BodyView { part: self.part@, run: self.run@ }
    }
}

impl PartView {
    /// A body of which nothing is converted.
    pub open spec fn of(schema: Seq<char>, body: Seq<char>, quote_state: QuoteState) -> PartView {
        PartView {
            schema,
            body,
            tokens: tokens_of(body),
            done: 0,
            output: seq![],
            segments: seq![],
            quote_state,
        }
    }

    /// The tokens are those of the body, and no more of them are converted than there are.
    pub open spec fn wf(self) -> bool {
        self.tokens == tokens_of(self.body) && 0 <= self.done <= self.tokens.len()
    }

    /// The part with the next token, a separator, converted.
    pub open spec fn with_separator(self, value: Seq<char>) -> PartView {
        PartView {
            done: self.done + 1,
            output: self.output + chinese_separator(value, self.quote_state),
            quote_state: quote_after(value, self.quote_state),
            ..self
        }
    }

    /// The part with the next token, a pinyin run, converted.
    pub open spec fn with_segment(self, segment: SegmentView) -> PartView {
        PartView {
            done: self.done + 1,
            output: self.output + segment.first,
            segments: self.segments.push(segment),
            ..self
        }
    }

    /// How the conversion goes on: separators are mapped up to the next pinyin run, which goes
    /// to the engine. After the last token the body is converted.
    pub open spec fn continued(self) -> ProgressView<BodyView, ConvertedView>
        decreases self.tokens.len() - self.done,
    {
        if self.done < 0 || self.done >= self.tokens.len() {
            ProgressView::Done(
                Ok(
                    ConvertedView {
                        output: OutputView {
                            body: self.body,
                            output: self.output,
                            tokens: self.tokens,
                            segments: self.segments,
                        },
                        quote_state: self.quote_state,
                    },
                ),
            )
        } else {
            match self.tokens[self.done] {
                TokenView::Separator(value) => self.with_separator(value).continued(),
                TokenView::Pinyin(raw) if normalized(raw).len() > 0 => ProgressView::Going(
                    BodyView {
                        part: self,
                        run: RunView::begun(self.schema, raw, normalized(raw)),
                    },
                ),
                _ => PartView { done: self.done + 1, ..self }.continued(),
            }
        }
    }
}

impl BodyView {
    /// The run that is with the engine is the next token.
    pub open spec fn wf(self) -> bool {
        &&& self.part.wf()
        &&& self.run.wf()
        &&& self.part.done < self.part.tokens.len()
        &&& self.part.tokens[self.part.done] == TokenView::Pinyin(self.run.raw)
        &&& self.run.normalized == normalized(self.run.raw)
    }

    /// What the engine is to be asked.
    pub open spec fn asked(self) -> RequestView {
        self.run.asked()
    }

    /// How the conversion stands after `reply`, an answer to what was asked.
    pub open spec fn after(self, reply: ReplyView) -> ProgressView<BodyView, ConvertedView> {
        match self.run.after(reply) {
            ProgressView::Going(run) => ProgressView::Going(BodyView { run, ..self }),
            ProgressView::Done(Ok(segment)) => self.part.with_segment(segment).continued(),
            ProgressView::Done(Err(e)) => ProgressView::Done(Err(e)),
        }
    }
}

impl ConvertedPart {
    /// Goes on to the next pinyin run, or to the end.
    fn go_on(self) -> (r: Progress<BodyConversion, Conversion>)
        requires
            self@.wf(),
        ensures
            r@ == self@.continued(),
            r matches Progress::Going(m) ==> m@.wf(),
    {
        let mut part = self;
        while part.done < part.tokens.len()
            invariant
                part@.wf(),
                self@.continued() == part@.continued(),
            decreases part.tokens.len() - part.done,
        {
            let ghost before = part@;
            assert(before.tokens[before.done] == part.tokens@[part.done as int]@);
            let step = match &part.tokens[part.done] {
                Token::Pinyin(raw) => {
                    let fed = normalize_pinyin_run(raw);
                    if !fed.as_str().is_empty() {
                        assert(normalized(raw@).len() > 0);
                        Some(convert_pinyin_run(&part.schema, raw, &fed))
                    } else {
                        assert(normalized(raw@).len() == 0);
                        None
                    }
                },
                Token::Separator(value) => {
                    let mapped = map_separator(value, &mut part.quote_state);
                    part.output.append(&mapped);
                    None
                },
                Token::RimeAuto(_) => None,
            };
            match step {
                Some(run) => {
                    assert(part@ == before);
                    return Progress::Going(BodyConversion { part, run });
                },
                None => {
                    part.done = part.done + 1;
                },
            }
        }
        Progress::Done(
            Ok(
                Conversion {
                    output: ConversionOutput {
                        body: part.body,
                        output: part.output,
                        tokens: part.tokens,
                        segments: part.segments,
                    },
                    quote_state: part.quote_state,
                },
            ),
        )
    }
}

/// Starts to convert a body run by run, where `quote_state` says whether a quotation is open
/// before it.
pub fn convert_body_with_quote_state(schema: &str, body: String, quote_state: QuoteState) -> (r:
    Progress<BodyConversion, Conversion>)
    ensures
        r@ == PartView::of(schema@, body@, quote_state).continued(),
        r matches Progress::Going(m) ==> m@.wf(),
{
    let tokens = tokenize_body(&body);
    let part = ConvertedPart {
        schema: schema.to_owned(),
        body,
        tokens,
        done: 0,
        output: String::new(),
        segments: Vec::new(),
        quote_state,
    };
    assert(part@ =~= PartView::of(schema@, body@, quote_state));
    part.go_on()
}

impl BodyConversion {
    /// What the engine is to be asked.
    pub fn request(&self) -> (r: EngineRequest)
        requires
            self@.wf(),
        ensures
            r@ == self@.asked(),
    {
        self.run.request()
    }

    /// Takes the engine's answer.
    pub fn advance(self, reply: EngineReply) -> (r: Progress<BodyConversion, Conversion>)
        requires
            self@.wf(),
            self@.asked().answered_by(reply@),
        ensures
            r@ == self@.after(reply@),
            r matches Progress::Going(m) ==> m@.wf(),
    {
        match self.run.advance(reply) {
            Progress::Going(run) => Progress::Going(BodyConversion { part: self.part, run }),
            Progress::Done(Err(error)) => Progress::Done(Err(error)),
            Progress::Done(Ok(segment)) => {
                let mut part = self.part;
                let count = part.tokens.len();
                assert(part.done < count);
                part.output.append(&segment.first);
                part.done = part.done + 1;
                part.segments.push(segment);
                assert(part@ =~= self@.part.with_segment(segment@));
                part.go_on()
            },
        }
    }
}

/// The pinyin runs among the tokens, in order.
pub open spec fn runs(tokens: Seq<TokenView>) -> Seq<Seq<char>>
    decreases tokens.len(),
{
    if tokens.len() == 0 {
        seq![]
    } else if tokens.last() is Pinyin {
        runs(tokens.drop_last()).push(tokens.last().text())
    } else {
        runs(tokens.drop_last())
    }
}

/// Whether a quotation is open after the tokens, where `quote_state` says whether one is open
/// before them.
pub open spec fn quote_through(tokens: Seq<TokenView>, quote_state: QuoteState) -> QuoteState
    decreases tokens.len(),
{
    if tokens.len() == 0 {
        quote_state
    } else if tokens.last() is Separator {
        quote_after(tokens.last().text(), quote_through(tokens.drop_last(), quote_state))
    } else {
        quote_through(tokens.drop_last(), quote_state)
    }
}

/// The text that takes the place of the tokens: each pinyin run gives way to the text of its
/// segment, and each separator to its Chinese form.
pub open spec fn rendered(
    tokens: Seq<TokenView>,
    segments: Seq<SegmentView>,
    quote_state: QuoteState,
) -> Seq<char>
    decreases tokens.len(),
{
    if tokens.len() == 0 {
        seq![]
    } else if tokens.last() is Pinyin {
        rendered(tokens.drop_last(), segments.drop_last(), quote_state) + segments.last().first
    } else {
        rendered(tokens.drop_last(), segments, quote_state) + chinese_separator(
            tokens.last().text(),
            quote_through(tokens.drop_last(), quote_state),
        )
    }
}

/// The segments are those of these runs: they hold the runs as they stood, and what the engine
/// was fed of them.
pub open spec fn segments_match(segments: Seq<SegmentView>, runs: Seq<Seq<char>>) -> bool {
    &&& segments.len() == runs.len()
    &&& forall|i: int|
        0 <= i < runs.len() ==> (#[trigger] segments[i]).raw == runs[i] && segments[i].normalized
            == normalized(runs[i])
}

impl PartView {
    /// Of the tokens so far every pinyin run has its segment and everything is rendered.
    pub open spec fn faithful(self, quote_before: QuoteState) -> bool {
        let tokens = self.tokens.take(self.done);
        &&& self.wf()
        &&& segments_match(self.segments, runs(tokens))
        &&& self.output == rendered(tokens, self.segments, quote_before)
        &&& self.quote_state == quote_through(tokens, quote_before)
    }
}

impl ConvertedView {
    /// Every pinyin run of the body has its segment and the whole body is rendered.
    pub open spec fn faithful(self, body: Seq<char>, quote_before: QuoteState) -> bool {
        &&& self.output.body == body
        &&& self.output.tokens == tokens_of(body)
        &&& segments_match(self.output.segments, runs(tokens_of(body)))
        &&& self.output.output == rendered(tokens_of(body), self.output.segments, quote_before)
        &&& self.quote_state == quote_through(tokens_of(body), quote_before)
    }
}

/// How the conversion of `body` stands is faithful to it.
pub open spec fn faithful_progress(
    progress: ProgressView<BodyView, ConvertedView>,
    body: Seq<char>,
    quote_before: QuoteState,
) -> bool {
    match progress {
        ProgressView::Going(m) => m.wf() && m.part.body == body && m.part.faithful(quote_before),
        ProgressView::Done(Ok(converted)) => converted.faithful(body, quote_before),
        ProgressView::Done(Err(_)) => true,
    }
}

/// Going on keeps the conversion faithful.
proof fn lemma_continued_is_faithful(part: PartView, quote_before: QuoteState)
    requires
        part.faithful(quote_before),
    ensures
        faithful_progress(part.continued(), part.body, quote_before),
        part.continued() !is Done || part.continued()->Done_0 is Ok,
    decreases part.tokens.len() - part.done,
{
    if part.done >= part.tokens.len() {
        assert(part.tokens.take(part.done) =~= part.tokens);
    } else {
        let token = part.tokens[part.done];
        let before = part.tokens.take(part.done);
        let tokens = part.tokens.take(part.done + 1);
        assert(tokens.drop_last() =~= before);
        assert(tokens.last() == token);
        law_tokens_alternate(part.body);
        assert(well_formed_token(token));
        match token {
            TokenView::Separator(value) => {
                lemma_continued_is_faithful(part.with_separator(value), quote_before);
            },
            TokenView::Pinyin(raw) => {
                law_run_is_normalized(raw);
            },
            TokenView::RimeAuto(_) => {},
        }
    }
}

/// A conversion starts out faithful to the body: what is rendered from the first token on, up
/// to the first pinyin run, is what the tokens give.
pub proof fn law_conversion_starts_faithful(
    schema: Seq<char>,
    body: Seq<char>,
    quote_before: QuoteState,
)
    ensures
        faithful_progress(
            PartView::of(schema, body, quote_before).continued(),
            body,
            quote_before,
        ),
{
    let part = PartView::of(schema, body, quote_before);
    assert(part.tokens.take(0) =~= Seq::<TokenView>::empty());
    assert(runs(part.tokens.take(0)) =~= Seq::<Seq<char>>::empty());
    lemma_continued_is_faithful(part, quote_before);
}

/// Whatever the engine answers, the conversion stays faithful to the body. So, where it ends
/// well, every pinyin run of the body has its segment, and the output is the body with each
/// run replaced by its segment's text and each separator by its Chinese form.
pub proof fn law_conversion_stays_faithful(
    conversion: BodyView,
    reply: ReplyView,
    quote_before: QuoteState,
)
    requires
        conversion.wf(),
        conversion.part.faithful(quote_before),
        conversion.asked().answered_by(reply),
    ensures
        faithful_progress(conversion.after(reply), conversion.part.body, quote_before),
{
    match conversion.run.after(reply) {
        ProgressView::Done(Ok(segment)) => {
            let part = conversion.part;
            let next = part.with_segment(segment);
            let tokens = part.tokens.take(next.done);
            assert(tokens.drop_last() =~= part.tokens.take(part.done));
            assert(tokens.last() == part.tokens[part.done]);
            assert(next.segments.drop_last() =~= part.segments);
            assert(next.faithful(quote_before));
            lemma_continued_is_faithful(next, quote_before);
        },
        _ => {},
    }
}

/// A body without pinyin runs needs no engine: it is converted at once.
pub proof fn law_body_without_runs_needs_no_engine(
    schema: Seq<char>,
    body: Seq<char>,
    quote_before: QuoteState,
)
    requires
        forall|i: int| 0 <= i < tokens_of(body).len() ==> #[trigger] tokens_of(body)[i] !is Pinyin,
    ensures
        PartView::of(schema, body, quote_before).continued() matches ProgressView::Done(Ok(c))
            && c.output.segments.len() == 0,
{
    lemma_no_runs(PartView::of(schema, body, quote_before));
}

/// Without pinyin runs ahead the conversion goes on to its end.
proof fn lemma_no_runs(part: PartView)
    requires
        0 <= part.done <= part.tokens.len(),
        forall|i: int|
            part.done <= i < part.tokens.len() ==> #[trigger] part.tokens[i] !is Pinyin,
    ensures
        part.continued() matches ProgressView::Done(Ok(c)) && c.output.segments == part.segments,
    decreases part.tokens.len() - part.done,
{
    if part.done < part.tokens.len() {
        match part.tokens[part.done] {
            TokenView::Separator(value) => lemma_no_runs(part.with_separator(value)),
            _ => lemma_no_runs(PartView { done: part.done + 1, ..part }),
        }
    }
}

/// Going on does not go back.
proof fn lemma_continued_goes_forward(part: PartView)
    requires
        0 <= part.done <= part.tokens.len(),
    ensures
        part.continued() matches ProgressView::Going(m) ==> part.done <= m.part.done
            < m.part.tokens.len() && m.part.tokens == part.tokens,
    decreases part.tokens.len() - part.done,
{
    if part.done < part.tokens.len() {
        match part.tokens[part.done] {
            TokenView::Separator(value) => {
                lemma_continued_goes_forward(part.with_separator(value));
            },
            TokenView::Pinyin(raw) if normalized(raw).len() > 0 => {},
            _ => {
                lemma_continued_goes_forward(PartView { done: part.done + 1, ..part });
            },
        }
    }
}

/// The conversion of a body comes to an end, whatever the engine answers: each answer brings
/// it on to a later one of the finitely many tokens, or the run that is with the engine closer
/// to its end.
pub proof fn law_body_conversion_ends(conversion: BodyView, reply: ReplyView)
    requires
        conversion.wf(),
        conversion.run.normalized.len() <= usize::MAX,
    ensures
        conversion.after(reply) matches ProgressView::Going(next) ==> {
            &&& next.part.tokens == conversion.part.tokens
            &&& next.part.done < next.part.tokens.len()
            &&& next.part.done > conversion.part.done || (next.part == conversion.part
                && 0 < next.run.steps_left() < conversion.run.steps_left())
        },
{
    law_run_conversion_ends(conversion.run, reply);
    if let ProgressView::Done(Ok(segment)) = conversion.run.after(reply) {
        lemma_continued_goes_forward(conversion.part.with_segment(segment));
    }
}

/// A conversion that goes on to another run opens a session for it.
proof fn lemma_continued_opens_a_session(part: PartView)
    ensures
        part.continued() matches ProgressView::Going(m) ==> m.asked() is Open,
    decreases part.tokens.len() - part.done,
{
    if 0 <= part.done < part.tokens.len() {
        match part.tokens[part.done] {
            TokenView::Separator(value) => {
                lemma_continued_opens_a_session(part.with_separator(value));
            },
            TokenView::Pinyin(raw) if normalized(raw).len() > 0 => {},
            _ => {
                lemma_continued_opens_a_session(PartView { done: part.done + 1, ..part });
            },
        }
    }
}

/// The conversion of a body starts without a session: where it needs the engine, it asks to
/// open one first.
pub proof fn law_body_conversion_starts_with_a_session(
    schema: Seq<char>,
    body: Seq<char>,
    quote_before: QuoteState,
)
    ensures
        PartView::of(schema, body, quote_before).continued() matches ProgressView::Going(m)
            ==> m.asked() is Open,
{
    lemma_continued_opens_a_session(PartView::of(schema, body, quote_before));
}

/// A session is opened for a run only where none is open, and none is left open at the end of
/// the conversion, whether it ends well or fails.
pub proof fn law_body_conversion_closes_its_sessions(conversion: BodyView, reply: ReplyView)
    requires
        conversion.asked().answered_by(reply),
    ensures
        conversion.after(reply) is Done ==> !conversion.asked().leaves_open(reply),
        conversion.after(reply) matches ProgressView::Going(next) ==> (conversion.asked(
        ).leaves_open(reply) <==> next.asked() !is Open),
{
    law_run_is_converted_after_its_session_is_closed(conversion.run, reply);
    if let ProgressView::Done(Ok(segment)) = conversion.run.after(reply) {
        lemma_continued_opens_a_session(conversion.part.with_segment(segment));
    }
}

} // verus!
