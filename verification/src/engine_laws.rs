//! What a conversation with the engine comes to, in terms of what the engine is asked and what
//! it answers.

use vstd::prelude::*;

use crate::actions::SelectionView;
use crate::bytes::tail_at_byte;
use crate::candidate_session::{
    ChoiceView, LookupView, OpeningPhase, OpeningView, SessionView,
};
use crate::candidates::{
    after_apostrophes, first_end_with, partial_outcome, preview_of, remaining_pinyin, OutcomeView,
    PreviewView,
};
use crate::capture_laws::pinyin_only;
use crate::config::ConversionMode;
use crate::conversion::{
    quote_through, rendered, BodyView, ConvertedView, OutputView, PartView,
};
use crate::engine::{ContextView, EngineErrorView, ProgressView, ReplyView, RequestView};
use crate::rime_auto::{AutoPhase, AutoView, ConverterView, NO_PREEDIT};
use crate::segments::{
    accepting, law_accepted_run_becomes_its_first_candidate, law_passed_run_stays_as_it_is,
    lemma_accepted_run_is_fed, RunPhaseView, RunView, SegmentView,
};
use crate::separators::{chinese_separator, quote_after, QuoteState};
use crate::text::{has_letter, letters, lower};
use crate::text_laws::law_letters_go_character_by_character;
use crate::tokens::{last_lettered_run, normalized, run_length, tokens_of, TokenView};

verus! {

// The conversion of a run.

/// A run that the engine accepts becomes the first of the candidates that the engine shows, of
/// however many; where it shows none the run stays as it is.
pub proof fn law_run_becomes_the_first_of_its_candidates(
    schema: Seq<char>,
    raw: Seq<char>,
    normalized: Seq<char>,
    context: Option<ContextView>,
)
    requires
        normalized.len() <= usize::MAX,
    ensures
        ({
            let keys = Seq::new(normalized.len(), |i: int| ReplyView::Key { accepted: true });
            let replies = seq![ReplyView::Opened(Ok(()))] + keys + seq![
                ReplyView::Context(context),
                ReplyView::Closed { ok: true },
            ];
            let progress = RunView::begun(schema, raw, normalized).after_all(replies);
            &&& progress matches ProgressView::Done(Ok(segment))
            &&& segment.raw == raw
            &&& segment.normalized == normalized
            &&& context is Some && context->0.candidates.len() > 0 ==> segment.first
                == context->0.candidates[0]
            &&& context is None || context->0.candidates.len() == 0 ==> segment.first == raw
            &&& context is Some && context->0.preedit is Some ==> segment.preedit
                == context->0.preedit->0
            &&& context is None || context->0.preedit is None ==> segment.preedit == raw
        }),
{
    law_accepted_run_becomes_its_first_candidate(schema, raw, normalized, context);
    let keys = Seq::new(normalized.len(), |i: int| ReplyView::Key { accepted: true });
    assert(keys =~= Seq::new(normalized.len(), |i: int| ReplyView::Key { accepted: true }));
    assert(accepting(normalized.len()) =~= seq![ReplyView::Opened(Ok(()))] + keys);
}

/// The same of the answer itself: whatever the number of candidates, the first one is taken,
/// and the run, its normal form and the engine's preedit are kept beside it.
pub proof fn law_context_gives_the_first_candidate(run: RunView, context: ContextView)
    requires
        run.phase is Reading,
        context.candidates.len() > 0,
    ensures
        run.after(ReplyView::Context(Some(context))) matches ProgressView::Going(next)
            && next.phase matches RunPhaseView::Closing { segment } && segment.first
            == context.candidates[0] && segment.raw == run.raw && segment.normalized
            == run.normalized && segment.preedit == (match context.preedit {
            Some(preedit) => preedit,
            None => run.raw,
        }),
{
}

/// A run of which a character is passed over stays as it is.
pub proof fn law_passed_run_is_its_own_output(
    schema: Seq<char>,
    raw: Seq<char>,
    normalized: Seq<char>,
    fed: nat,
)
    requires
        fed < normalized.len() <= usize::MAX,
    ensures
        ({
            let replies = accepting(fed) + seq![
                ReplyView::Key { accepted: false },
                ReplyView::Closed { ok: true },
            ];
            RunView::begun(schema, raw, normalized).after_all(replies) == ProgressView::<
                RunView,
                _,
            >::Done(Ok(SegmentView { raw, normalized, preedit: raw, first: raw }))
        }),
{
    law_passed_run_stays_as_it_is(schema, raw, normalized, fed);
}

/// The engine gets the characters of the normal form one by one and in order, each by its code,
/// in a session with the schema.
pub proof fn law_run_is_fed_in_order(
    schema: Seq<char>,
    raw: Seq<char>,
    normalized: Seq<char>,
    fed: nat,
)
    requires
        fed <= normalized.len() <= usize::MAX,
    ensures
        RunView::begun(schema, raw, normalized).asked() == (RequestView::Open { schema }),
        RunView::begun(schema, raw, normalized).after_all(accepting(fed)) matches
            ProgressView::Going(run) && {
            &&& fed < normalized.len() ==> run.asked() == (RequestView::ProcessKey {
                code: normalized[fed as int] as u32,
            })
            &&& fed == normalized.len() ==> run.asked() == RequestView::ReadContext
        },
{
    lemma_accepted_run_is_fed(RunView::begun(schema, raw, normalized), fed);
}

// The conversion of a body as a whole.

/// What the engine answers while it accepts the first `fed` characters of a body: after each of
/// them it has something to commit, or nothing.
pub open spec fn accepting_with(commits: Seq<Option<Seq<char>>>, fed: nat) -> Seq<ReplyView>
    decreases fed,
{
    if fed == 0 {
        seq![ReplyView::Opened(Ok(()))]
    } else {
        accepting_with(commits, (fed - 1) as nat) + seq![
            ReplyView::Key { accepted: true },
            ReplyView::Commit(commits[fed - 1]),
        ]
    }
}

/// What was committed, put together in order.
pub open spec fn put_together(commits: Seq<Option<Seq<char>>>) -> Seq<char>
    decreases commits.len(),
{
    if commits.len() == 0 {
        seq![]
    } else {
        put_together(commits.drop_last()) + match commits.last() {
            Some(text) => text,
            None => seq![],
        }
    }
}

/// The last commit is the one after `since` characters: there is none later, and where `since`
/// is not 0 there is that one.
pub open spec fn last_commit_after(commits: Seq<Option<Seq<char>>>, since: int) -> bool {
    &&& 0 <= since <= commits.len()
    &&& since > 0 ==> commits[since - 1] is Some
    &&& forall|i: int| since <= i < commits.len() ==> (#[trigger] commits[i]) is None
}

proof fn lemma_accepted_body_is_fed(
    schema: Seq<char>,
    body: Seq<char>,
    commits: Seq<Option<Seq<char>>>,
    fed: nat,
    since: int,
)
    requires
        body.len() <= usize::MAX,
        fed <= body.len() == commits.len(),
        last_commit_after(commits.take(fed as int), since),
    ensures
        AutoView::begun(schema, body).after_all(accepting_with(commits, fed)) matches
            ProgressView::Going(next) && next == (AutoView {
            output: put_together(commits.take(fed as int)),
            pending: body.take(fed as int).skip(since),
            ..AutoView::begun(schema, body).fed_to(fed as int)
        }),
    decreases fed,
{
    let begun = AutoView::begun(schema, body);
    let replies = accepting_with(commits, fed);
    let so_far = commits.take(fed as int);
    if fed == 0 {
        assert(replies.drop_last() =~= Seq::<ReplyView>::empty());
        assert(begun.after_all(replies.drop_last()) == ProgressView::<_, OutputView>::Going(begun));
        assert(body.take(0).skip(since) =~= Seq::<char>::empty());
    } else {
        let before = (fed - 1) as nat;
        let earlier = commits.take(before as int);
        let keyed = accepting_with(commits, before).push(ReplyView::Key { accepted: true });
        assert(replies.drop_last() =~= keyed);
        assert(keyed.drop_last() =~= accepting_with(commits, before));
        assert(so_far.drop_last() =~= earlier);
        assert(so_far.last() == commits[before as int]);
        // Where the last commit was before this character.
        let start = if commits[before as int] is Some {
            lemma_some_last_commit(earlier)
        } else {
            since
        };
        if commits[before as int] is None {
            assert(since <= before) by {
                if since == fed {
                    assert(so_far[since - 1] == commits[before as int]);
                }
            }
            assert(since > 0 ==> earlier[since - 1] == so_far[since - 1]);
            assert forall|i: int| since <= i < earlier.len() implies (
            #[trigger] earlier[i]) is None by {
                assert(so_far[i] is None);
            }
        } else {
            assert(since == fed) by {
                if since < fed {
                    assert(so_far[before as int] is None);
                }
            }
        }
        lemma_accepted_body_is_fed(schema, body, commits, before, start);
        assert(body.take(before as int).skip(start).push(body[before as int]) =~= body.take(
            fed as int,
        ).skip(start));
        assert(body.take(fed as int).skip(fed as int) =~= Seq::<char>::empty());
        assert(begun.after_all(keyed) matches ProgressView::Going(_));
        assert(put_together(so_far) =~= put_together(earlier) + match commits[before as int] {
            Some(text) => text,
            None => seq![],
        });
    }
}

proof fn lemma_some_last_commit(commits: Seq<Option<Seq<char>>>) -> (since: int)
    ensures
        last_commit_after(commits, since),
    decreases commits.len(),
{
    if commits.len() == 0 {
        0
    } else if commits.last() is Some {
        commits.len() as int
    } else {
        let since = lemma_some_last_commit(commits.drop_last());
        assert(since > 0 ==> commits[since - 1] == commits.drop_last()[since - 1]);
        assert forall|i: int| since <= i < commits.len() implies (#[trigger] commits[i]) is None by {
            if i < commits.len() - 1 {
                assert(commits.drop_last()[i] is None);
            }
        }
        since
    }
}

/// The output of a body that the engine accepts is everything that the engine committed, put
/// together in order, and after it the first candidate that the engine shows in the end; where
/// it shows none, what was typed since the last commit.
pub proof fn law_output_is_what_the_engine_committed(
    schema: Seq<char>,
    body: Seq<char>,
    commits: Seq<Option<Seq<char>>>,
    since: int,
    context: Option<ContextView>,
)
    requires
        body.len() == commits.len(),
        body.len() <= usize::MAX,
        last_commit_after(commits, since),
    ensures
        ({
            let replies = accepting_with(commits, body.len()) + seq![
                ReplyView::Context(context),
                ReplyView::Closed { ok: true },
            ];
            let progress = AutoView::begun(schema, body).after_all(replies);
            &&& progress matches ProgressView::Done(Ok(out))
            &&& context is Some && context->0.candidates.len() > 0 ==> out.output == put_together(
                commits,
            ) + context->0.candidates[0]
            &&& context is None || context->0.candidates.len() == 0 ==> out.output
                == put_together(commits) + body.skip(since)
            &&& out.body == body
            &&& out.tokens == seq![TokenView::RimeAuto(body)]
            &&& out.segments == seq![
                SegmentView {
                    raw: body,
                    normalized: body,
                    preedit: match context {
                        Some(ContextView { preedit: Some(preedit), .. }) => preedit,
                        _ => NO_PREEDIT@,
                    },
                    first: out.output,
                },
            ]
        }),
{
    let begun = AutoView::begun(schema, body);
    let fed = accepting_with(commits, body.len());
    let read = fed.push(ReplyView::Context(context));
    let replies = fed + seq![ReplyView::Context(context), ReplyView::Closed { ok: true }];
    assert(commits.take(body.len() as int) =~= commits);
    assert(body.take(body.len() as int) =~= body);
    lemma_accepted_body_is_fed(schema, body, commits, body.len(), since);
    assert(read.drop_last() =~= fed);
    assert(replies.drop_last() =~= read);
    assert(begun.after_all(read) matches ProgressView::Going(_));
}

/// Whatever the engine answers, the output only grows: what has been put out stays where it is.
pub proof fn law_output_only_grows(auto: AutoView, reply: ReplyView)
    ensures
        auto.after(reply) matches ProgressView::Going(next) ==> exists|more: Seq<char>|
            next.output == #[trigger] (auto.output + more),
        auto.after(reply) matches ProgressView::Done(Ok(out)) ==> out.output == auto.output,
{
    let output = auto.output;
    let nothing = Seq::<char>::empty();
    assert(output + nothing =~= output);
    if let ProgressView::Going(next) = auto.after(reply) {
        match auto.phase {
            AutoPhase::Feeding { fed } => {
                let more = auto.pending.push(auto.body[fed as int]);
                assert((output + auto.pending).push(auto.body[fed as int]) =~= output + more);
                assert(next.output == output + more || next.output == output + nothing);
            },
            AutoPhase::Committing { .. } => {
                match reply->Commit_0 {
                    Some(text) => {
                        assert(next.output == output + text);
                    },
                    None => {
                        assert(next.output == output + nothing);
                    },
                }
            },
            AutoPhase::Reading => {
                let more = match reply->Context_0 {
                    Some(c) if c.candidates.len() > 0 => c.candidates[0],
                    _ => auto.pending,
                };
                assert(next.output == output + more);
            },
            _ => {
                assert(next.output == output + nothing);
            },
        }
    }
}

/// Each answer adds to the output what it says: a commit adds its text, and what was typed for
/// it is no longer pending; a character that is passed over is put out after what is pending;
/// one that is accepted becomes pending.
pub proof fn law_answers_add_to_the_output(auto: AutoView, text: Seq<char>)
    requires
        auto.wf(),
    ensures
        auto.phase matches AutoPhase::Committing { .. } ==> {
            &&& auto.after(ReplyView::Commit(Some(text))) matches ProgressView::Going(next)
                && next.output == auto.output + text && next.pending.len() == 0
            &&& auto.after(ReplyView::Commit(None)) matches ProgressView::Going(next)
                && next.output == auto.output && next.pending == auto.pending
        },
        auto.phase matches AutoPhase::Feeding { fed } ==> {
            &&& auto.after(ReplyView::Key { accepted: true }) matches ProgressView::Going(next)
                && next.output == auto.output && next.pending == auto.pending.push(
                auto.body[fed as int],
            ) && next.asked() == RequestView::TakeCommit
            &&& auto.after(ReplyView::Key { accepted: false }) matches ProgressView::Going(next)
                && next.output == auto.output + auto.pending + seq![auto.body[fed as int]]
                && next.pending.len() == 0 && next.asked() == RequestView::TakeCommit
        },
{
    if let AutoPhase::Feeding { fed } = auto.phase {
        let ch = auto.body[fed as int];
        assert((auto.output + auto.pending).push(ch) =~= auto.output + auto.pending + seq![ch]);
    }
}

/// The engine gets the characters of the body one by one and in order, each by its code.
pub proof fn law_body_is_fed_in_order(
    schema: Seq<char>,
    body: Seq<char>,
    commits: Seq<Option<Seq<char>>>,
    fed: nat,
)
    requires
        body.len() == commits.len(),
        fed <= body.len() <= usize::MAX,
    ensures
        AutoView::begun(schema, body).asked() == (RequestView::Open { schema }),
        AutoView::begun(schema, body).after_all(accepting_with(commits, fed)) matches
            ProgressView::Going(auto) && {
            &&& fed < body.len() ==> auto.asked() == (RequestView::ProcessKey {
                code: body[fed as int] as u32,
            })
            &&& fed == body.len() ==> auto.asked() == RequestView::ReadContext
        },
{
    let since = lemma_some_last_commit(commits.take(fed as int));
    lemma_accepted_body_is_fed(schema, body, commits, fed, since);
}

/// A body that is converted as a whole leaves the quotes as they are.
pub proof fn law_whole_body_keeps_the_quotes(
    auto: AutoView,
    quote_state: QuoteState,
    reply: ReplyView,
)
    ensures
        (ConverterView::RimeAuto { conversion: auto, quote_state }).after(reply) matches
            ProgressView::Done(Ok(converted)) ==> converted.quote_state == quote_state
            && converted.output.output == auto.output && converted.output.body == auto.body,
{
}

// The conversion of a body part by part.

/// The output goes token by token: a run adds the first candidate of its segment, and a
/// separator adds what it is in Chinese.
pub proof fn law_output_goes_token_by_token(
    tokens: Seq<TokenView>,
    segments: Seq<SegmentView>,
    raw: Seq<char>,
    segment: SegmentView,
    value: Seq<char>,
    quote: QuoteState,
)
    ensures
        rendered(seq![], seq![], quote) == Seq::<char>::empty(),
        rendered(tokens.push(TokenView::Pinyin(raw)), segments.push(segment), quote) == rendered(
            tokens,
            segments,
            quote,
        ) + segment.first,
        rendered(tokens.push(TokenView::Separator(value)), segments, quote) == rendered(
            tokens,
            segments,
            quote,
        ) + chinese_separator(value, quote_through(tokens, quote)),
        quote_through(seq![], quote) == quote,
        quote_through(tokens.push(TokenView::Pinyin(raw)), quote) == quote_through(tokens, quote),
        quote_through(tokens.push(TokenView::Separator(value)), quote) == if value == seq!['"'] {
            QuoteState { next_is_open: !quote_through(tokens, quote).next_is_open }
        } else {
            quote_through(tokens, quote)
        },
{
    reveal_strlit("\"");
    assert("\""@ =~= seq!['"']);
    assert(tokens.push(TokenView::Pinyin(raw)).drop_last() =~= tokens);
    assert(segments.push(segment).drop_last() =~= segments);
    assert(tokens.push(TokenView::Separator(value)).drop_last() =~= tokens);
}

/// The segment of a run is put out and kept, after what was put out before, and the separators
/// after it follow.
pub proof fn law_segment_is_put_out(part: PartView, segment: SegmentView)
    ensures
        part.with_segment(segment).output == part.output + segment.first,
        part.with_segment(segment).segments == part.segments + seq![segment],
        part.with_segment(segment).quote_state == part.quote_state,
        part.with_segment(segment).done == part.done + 1,
        part.with_segment(segment).body == part.body,
        part.with_segment(segment).tokens == part.tokens,
{
    assert(part.segments.push(segment) =~= part.segments + seq![segment]);
}

/// Separators other than those that have a Chinese form stay as they are, and those that have
/// one have it in every state but the quotation mark, which is opened and closed in turn.
pub proof fn law_other_separators_stay(value: Seq<char>, quote: QuoteState)
    requires
        value.len() == 1 ==> !seq![',', '.', '?', '!', ':', ';', '-', '+', '~', '"', '…'].contains(
            value[0],
        ),
        value != seq!['.', '.', '.'],
        value != seq!['…', '…'],
    ensures
        chinese_separator(value, quote) == value,
        quote_after(value, quote) == quote,
{
    reveal_strlit(",");
    reveal_strlit(".");
    reveal_strlit("?");
    reveal_strlit("!");
    reveal_strlit(":");
    reveal_strlit(";");
    reveal_strlit("-");
    reveal_strlit("+");
    reveal_strlit("~");
    reveal_strlit("\"");
    reveal_strlit("…");
    reveal_strlit("...");
    reveal_strlit("……");
    assert("..."@ =~= seq!['.', '.', '.']);
    assert("……"@ =~= seq!['…', '…']);
    if value.len() == 1 {
        let known = seq![',', '.', '?', '!', ':', ';', '-', '+', '~', '"', '…'];
        assert(known[0] == ',' && known[1] == '.' && known[2] == '?' && known[3] == '!' && known[4]
            == ':' && known[5] == ';' && known[6] == '-' && known[7] == '+' && known[8] == '~'
            && known[9] == '"' && known[10] == '…');
    }
}

/// Separators that have a Chinese form have it whatever the quotes are.
pub proof fn law_separators_have_their_chinese_form(quote: QuoteState)
    ensures
        chinese_separator(seq![','], quote) == seq!['，'],
        chinese_separator(seq!['.'], quote) == seq!['。'],
        chinese_separator(seq!['?'], quote) == seq!['？'],
        chinese_separator(seq!['!'], quote) == seq!['！'],
        chinese_separator(seq![':'], quote) == seq!['：'],
        chinese_separator(seq![';'], quote) == seq!['；'],
        chinese_separator(seq!['-'], quote) == seq!['－'],
        chinese_separator(seq!['+'], quote) == seq!['＋'],
        chinese_separator(seq!['~'], quote) == seq!['～'],
        chinese_separator(seq!['…'], quote) == seq!['…', '…'],
        chinese_separator(seq!['.', '.', '.'], quote) == seq!['…', '…'],
        chinese_separator(seq!['…', '…'], quote) == seq!['…', '…'],
        chinese_separator(seq!['"'], quote) == if quote.next_is_open {
            seq!['”']
        } else {
            seq!['“']
        },
{
    reveal_strlit(",");
    reveal_strlit(".");
    reveal_strlit("?");
    reveal_strlit("!");
    reveal_strlit(":");
    reveal_strlit(";");
    reveal_strlit("-");
    reveal_strlit("+");
    reveal_strlit("~");
    reveal_strlit("\"");
    reveal_strlit("…");
    reveal_strlit("...");
    reveal_strlit("……");
    reveal_strlit("，");
    reveal_strlit("。");
    reveal_strlit("？");
    reveal_strlit("！");
    reveal_strlit("：");
    reveal_strlit("；");
    reveal_strlit("－");
    reveal_strlit("＋");
    reveal_strlit("～");
    reveal_strlit("”");
    reveal_strlit("“");
    assert(","@ =~= seq![',']);
    assert("."@ =~= seq!['.']);
    assert("?"@ =~= seq!['?']);
    assert("!"@ =~= seq!['!']);
    assert(":"@ =~= seq![':']);
    assert(";"@ =~= seq![';']);
    assert("-"@ =~= seq!['-']);
    assert("+"@ =~= seq!['+']);
    assert("~"@ =~= seq!['~']);
    assert("\""@ =~= seq!['"']);
    assert("…"@ =~= seq!['…']);
    assert("..."@ =~= seq!['.', '.', '.']);
    assert("……"@ =~= seq!['…', '…']);
    assert(seq![','][0] == ',' && seq!['.'][0] == '.' && seq!['?'][0] == '?' && seq!['!'][0] == '!'
        && seq![':'][0] == ':' && seq![';'][0] == ';' && seq!['-'][0] == '-' && seq!['+'][0] == '+'
        && seq!['~'][0] == '~' && seq!['"'][0] == '"' && seq!['…'][0] == '…');
}

// The tokens of a body.

/// A run of pinyin is one token, in lower case, up to where it ends.
pub proof fn law_run_is_one_token(run: Seq<char>, rest: Seq<char>)
    requires
        run.len() > 0,
        pinyin_only(run),
        rest.len() > 0 ==> !pinyin_only(seq![rest[0]]),
    ensures
        tokens_of(run + rest) == seq![TokenView::Pinyin(lower(run))] + tokens_of(rest),
{
    let s = run + rest;
    lemma_run_ends(run.drop_first(), rest);
    assert(s.drop_first() =~= run.drop_first() + rest);
    assert(s[0] == run[0]);
    assert(s.take(run.len() as int) =~= run);
    assert(s.skip(run.len() as int) =~= rest);
}

proof fn lemma_run_ends(run: Seq<char>, rest: Seq<char>)
    requires
        pinyin_only(run),
        rest.len() > 0 ==> !pinyin_only(seq![rest[0]]),
    ensures
        run_length(run + rest) == run.len(),
    decreases run.len(),
{
    if run.len() == 0 {
        assert(run + rest =~= rest);
        if rest.len() > 0 {
            assert(seq![rest[0]][0] == rest[0]);
        }
    } else {
        assert((run + rest).drop_first() =~= run.drop_first() + rest);
        assert((run + rest)[0] == run[0]);
        assert(pinyin_only(run.drop_first())) by {
            assert forall|i: int| 0 <= i < run.drop_first().len() implies ('a'
                <= #[trigger] run.drop_first()[i] <= 'z' || 'A' <= run.drop_first()[i] <= 'Z'
                || run.drop_first()[i] == '\'') by {
                assert(run.drop_first()[i] == run[i + 1]);
            }
        }
        lemma_run_ends(run.drop_first(), rest);
    }
}

/// Any other character is a token by itself, but for the two ellipses, which are whole.
pub proof fn law_other_characters_are_tokens(ch: char, rest: Seq<char>)
    requires
        !pinyin_only(seq![ch]),
    ensures
        tokens_of(seq![]) == Seq::<TokenView>::empty(),
        ch == '.' && rest.len() >= 2 && rest[0] == '.' && rest[1] == '.' ==> tokens_of(
            seq![ch] + rest,
        ) == seq![TokenView::Separator(seq!['.', '.', '.'])] + tokens_of(rest.skip(2)),
        ch == '…' && rest.len() >= 1 && rest[0] == '…' ==> tokens_of(seq![ch] + rest) == seq![
            TokenView::Separator(seq!['…', '…']),
        ] + tokens_of(rest.skip(1)),
        !(ch == '.' && rest.len() >= 2 && rest[0] == '.' && rest[1] == '.') && !(ch == '…'
            && rest.len() >= 1 && rest[0] == '…') ==> tokens_of(seq![ch] + rest) == seq![
            TokenView::Separator(seq![ch]),
        ] + tokens_of(rest),
{
    let s = seq![ch] + rest;
    reveal_strlit("...");
    reveal_strlit("……");
    assert("..."@ =~= seq!['.', '.', '.']);
    assert("……"@ =~= seq!['…', '…']);
    assert(s[0] == ch);
    assert(rest.len() > 0 ==> s[1] == rest[0]);
    assert(rest.len() > 1 ==> s[2] == rest[1]);
    assert(s.drop_first() =~= rest);
    assert(rest.len() >= 2 ==> s.skip(3) =~= rest.skip(2));
    assert(rest.len() >= 1 ==> s.skip(2) =~= rest.skip(1));
    assert(seq![ch][0] == ch);
}

/// The pinyin that candidates are looked up for is the last run with a letter.
pub proof fn law_last_run_is_looked_up(
    before: Seq<TokenView>,
    raw: Seq<char>,
    after: Seq<TokenView>,
)
    requires
        has_letter(raw),
        forall|i: int|
            0 <= i < after.len() ==> !((#[trigger] after[i]) matches TokenView::Pinyin(s)
                && has_letter(s)),
    ensures
        last_lettered_run(before + seq![TokenView::Pinyin(raw)] + after) == raw,
    decreases after.len(),
{
    let tokens = before + seq![TokenView::Pinyin(raw)] + after;
    if after.len() == 0 {
        assert(tokens.last() == TokenView::Pinyin(raw));
    } else {
        let fewer = after.drop_last();
        assert(tokens.drop_last() =~= before + seq![TokenView::Pinyin(raw)] + fewer);
        assert(tokens.last() == after[after.len() - 1]);
        assert forall|i: int| 0 <= i < fewer.len() implies !((#[trigger] fewer[i]) matches
            TokenView::Pinyin(s) && has_letter(s)) by {
            assert(fewer[i] == after[i]);
        }
        law_last_run_is_looked_up(before, raw, fewer);
    }
}

/// Without such a run there is nothing to look up.
pub proof fn law_nothing_is_looked_up_without_a_run(tokens: Seq<TokenView>)
    requires
        forall|i: int|
            0 <= i < tokens.len() ==> !((#[trigger] tokens[i]) matches TokenView::Pinyin(s)
                && has_letter(s)),
    ensures
        last_lettered_run(tokens).len() == 0,
    decreases tokens.len(),
{
    if tokens.len() > 0 {
        let fewer = tokens.drop_last();
        assert(tokens.last() == tokens[tokens.len() - 1]);
        assert forall|i: int| 0 <= i < fewer.len() implies !((#[trigger] fewer[i]) matches
            TokenView::Pinyin(s) && has_letter(s)) by {
            assert(fewer[i] == tokens[i]);
        }
        law_nothing_is_looked_up_without_a_run(fewer);
    }
}

// The candidates for pinyin.

/// A look-up opens a session with the schema, gives the engine the run in its normal form, and
/// turns to the page that was asked for. A choice does the same.
pub proof fn law_session_is_opened_for_the_run_and_the_page(
    schema: Seq<char>,
    body: Seq<char>,
    page: usize,
    count: usize,
    index: usize,
)
    ensures
        ({
            let raw = last_lettered_run(tokens_of(body));
            let opening = OpeningView {
                schema,
                raw,
                normalized: normalized(raw),
                requested_page: page,
                phase: OpeningPhase::Opening,
                failure: None,
            };
            &&& has_letter(raw) && has_letter(normalized(raw)) ==> {
                &&& LookupView::started(schema, body, count, page) == ProgressView::<
                    _,
                    PreviewView,
                >::Going(LookupView::Opening { opening, candidate_count: count })
                &&& ChoiceView::started(schema, body, page, index) == ProgressView::<
                    _,
                    OutcomeView,
                >::Going(ChoiceView::Opening { opening, index })
                &&& opening.asked() == (RequestView::Open { schema })
            }
            &&& raw.len() == 0 ==> {
                &&& LookupView::started(schema, body, count, page) matches ProgressView::Done(
                    Ok(preview),
                ) && preview.candidates.len() == 0 && preview.page_no == 0 && preview.is_last_page
                &&& ChoiceView::started(schema, body, page, index) matches ProgressView::Done(
                    Ok(outcome),
                ) && outcome is Nothing
            }
        }),
{
}

/// The characters are given in order; after the last one the pages are turned, as many as were
/// asked for, or until there is no further page. Then the session is there.
pub proof fn law_opening_feeds_and_turns(opening: OpeningView, fed: int)
    requires
        opening.normalized.len() <= usize::MAX,
        0 <= fed <= opening.normalized.len(),
        fed > 0 ==> opening.phase == (OpeningPhase::Feeding { fed: (fed - 1) as usize }),
        fed == 0 ==> opening.phase is Opening,
    ensures
        ({
            let reply = if fed == 0 {
                ReplyView::Opened(Ok(()))
            } else {
                ReplyView::Key { accepted: true }
            };
            let progress = opening.after(reply);
            &&& fed < opening.normalized.len() ==> (progress matches ProgressView::Going(next)
                && next.asked() == (RequestView::ProcessKey {
                code: opening.normalized[fed] as u32,
            }) && next == (OpeningView {
                phase: OpeningPhase::Feeding { fed: fed as usize },
                ..opening
            }))
            &&& fed == opening.normalized.len() && opening.requested_page > 0 ==> (progress matches
                ProgressView::Going(next) && next.asked() == RequestView::NextPage && next == (
            OpeningView { phase: OpeningPhase::Paging { left: opening.requested_page }, ..opening }))
            &&& fed == opening.normalized.len() && opening.requested_page == 0 ==> progress
                == ProgressView::<OpeningView, _>::Done(
                Ok(SessionView::Open { raw: opening.raw }),
            )
        }),
{
}

/// A page that is turned leaves one page less to turn; where there is no further page, or none
/// is left to turn, the session is there. A character that is passed over, or a failure, closes
/// the session.
pub proof fn law_pages_are_turned_one_by_one(opening: OpeningView, left: usize)
    requires
        opening.phase == (OpeningPhase::Paging { left }),
        left > 0,
    ensures
        ({
            let there = ProgressView::<OpeningView, _>::Done(
                Ok(SessionView::Open { raw: opening.raw }),
            );
            &&& left > 1 ==> opening.after(ReplyView::Page(Ok(true))) == ProgressView::<
                _,
                SessionView,
            >::Going(
                OpeningView { phase: OpeningPhase::Paging { left: (left - 1) as usize }, ..opening },
            )
            &&& left == 1 ==> opening.after(ReplyView::Page(Ok(true))) == there
            &&& opening.after(ReplyView::Page(Ok(false))) == there
        }),
{
}

/// A preview shows the first candidates of the page that the engine shows, as many as are to be
/// shown, in their order, and says which page it is and whether it is the last.
pub proof fn law_preview_shows_the_first_candidates(
    raw: Seq<char>,
    context: ContextView,
    count: usize,
)
    ensures
        ({
            let lookup = LookupView::Reading { raw, candidate_count: count };
            let progress = lookup.after(ReplyView::Context(Some(context)));
            &&& lookup.asked() == RequestView::ReadContext
            &&& progress matches ProgressView::Going(LookupView::Closing { preview })
            &&& preview.candidates.len() <= count
            &&& preview.candidates.len() <= context.candidates.len()
            &&& preview.candidates.len() == count || preview.candidates.len()
                == context.candidates.len()
            &&& forall|i: int|
                0 <= i < preview.candidates.len() ==> #[trigger] preview.candidates[i]
                    == context.candidates[i]
            &&& preview.page_no == context.page_no
            &&& preview.is_last_page == context.is_last_page
            &&& context.preedit matches Some(preedit) ==> preview.preedit == preedit
            &&& context.preedit is None ==> preview.preedit == raw
            &&& (LookupView::Closing { preview }).after(ReplyView::Closed { ok: true })
                == ProgressView::<LookupView, _>::Done(Ok(preview))
        }),
{
}

/// Without a context there is nothing to show but the pinyin.
pub proof fn law_preview_without_context_shows_the_pinyin(raw: Seq<char>, count: usize)
    ensures
        preview_of(raw, None, count).preedit == raw,
        preview_of(raw, None, count).candidates.len() == 0,
        preview_of(raw, None, count).page_no == 0,
        preview_of(raw, None, count).is_last_page,
{
}

// The choice of a candidate.

/// How a choice stands after some answers.
pub open spec fn chosen_after(
    progress: ProgressView<ChoiceView, OutcomeView>,
    replies: Seq<ReplyView>,
) -> ProgressView<ChoiceView, OutcomeView>
    decreases replies.len(),
{
    if replies.len() == 0 {
        progress
    } else {
        match chosen_after(progress, replies.drop_last()) {
            ProgressView::Going(choice) => choice.after(replies.last()),
            done => done,
        }
    }
}

/// The choice is still for the page and the index that it was made for.
pub open spec fn is_for(choice: ChoiceView, page: usize, index: usize) -> bool {
    match choice {
        ChoiceView::Opening { opening, index: i } => opening.requested_page == page && i == index,
        ChoiceView::Finding { index: i, .. } => i == index,
        ChoiceView::Selecting { index: i, .. } => i == index,
        _ => true,
    }
}

/// A choice that is made for an index asks the engine for no other: whatever the engine answers,
/// the one selection that is asked for is that of the index, and it is asked for exactly where
/// the context just read has a candidate there. That candidate is the one that is noted as
/// selected.
pub proof fn law_selection_is_asked_for_by_its_index(
    schema: Seq<char>,
    body: Seq<char>,
    page: usize,
    index: usize,
    replies: Seq<ReplyView>,
)
    ensures
        chosen_after(ChoiceView::started(schema, body, page, index), replies) matches
            ProgressView::Going(choice) ==> {
            &&& is_for(choice, page, index)
            &&& choice.asked() matches RequestView::SelectOnPage { index: asked } ==> {
                &&& asked == index
                &&& choice matches ChoiceView::Selecting { selected, index: i, .. }
                &&& i == index
                &&& replies.len() > 0
                &&& replies.last() matches ReplyView::Context(Some(context)) ==> index
                    < context.candidates.len() && selected == context.candidates[index as int]
                &&& replies.last() != ReplyView::Context(None)
            }
            &&& choice is Finding ==> forall|context: ContextView|
                index < context.candidates.len() <==> (#[trigger] choice.after(
                    ReplyView::Context(Some(context)),
                ) matches ProgressView::Going(next) && next.asked() == (
                RequestView::SelectOnPage { index }))
        },
    decreases replies.len(),
{
    let started = ChoiceView::started(schema, body, page, index);
    if replies.len() > 0 {
        law_selection_is_asked_for_by_its_index(schema, body, page, index, replies.drop_last());
        if let ProgressView::Going(before) = chosen_after(started, replies.drop_last()) {
            lemma_choice_stays_for_its_index(before, page, index, replies.last());
        }
    } else {
        assert(chosen_after(started, replies) == started);
    }
}

proof fn lemma_choice_stays_for_its_index(
    choice: ChoiceView,
    page: usize,
    index: usize,
    reply: ReplyView,
)
    requires
        is_for(choice, page, index),
    ensures
        choice.after(reply) matches ProgressView::Going(next) ==> {
            &&& is_for(next, page, index)
            &&& next is Selecting ==> choice is Finding
        },
{
    if let ChoiceView::Opening { opening, .. } = choice {
        if let ProgressView::Going(next) = opening.after(reply) {
            assert(next.requested_page == opening.requested_page);
        }
    }
}

/// What a selection comes to: a commit is the candidate's text, for all of the pinyin. Without a
/// commit the candidate stands for a first part of the pinyin, and the context tells what is left.
/// Where the engine does not select, nothing was selected.
pub proof fn law_selection_comes_to_what_the_engine_says(
    raw: Seq<char>,
    index: usize,
    selected: Seq<char>,
    text: Seq<char>,
)
    ensures
        ({
            let selecting = ChoiceView::Selecting { raw, index, selected };
            let committing = ChoiceView::Committing { raw, selected };
            let complete = OutcomeView::Selected(SelectionView::Complete { text });
            &&& selecting.after(ReplyView::Selected(Ok(true))) == ProgressView::<
                _,
                OutcomeView,
            >::Going(committing)
            &&& selecting.after(ReplyView::Selected(Ok(false))) == ProgressView::<
                _,
                OutcomeView,
            >::Going(ChoiceView::Closing { outcome: Ok(OutcomeView::Nothing) })
            &&& committing.asked() == RequestView::TakeCommit
            &&& committing.after(ReplyView::Commit(Some(text))) == ProgressView::<
                _,
                OutcomeView,
            >::Going(ChoiceView::Closing { outcome: Ok(complete) })
            &&& committing.after(ReplyView::Commit(None)) == ProgressView::<
                _,
                OutcomeView,
            >::Going(ChoiceView::Remaining { raw, selected })
            &&& (ChoiceView::Remaining { raw, selected }).asked() == RequestView::ReadContext
            &&& (ChoiceView::Closing { outcome: Ok(complete) }).after(
                ReplyView::Closed { ok: true },
            ) == ProgressView::<ChoiceView, _>::Done(Ok(complete))
        }),
{
}

/// A failure of the engine to select is the choice's failure, whether or not the session can be
/// closed then.
pub proof fn law_failed_selection_fails(
    raw: Seq<char>,
    index: usize,
    selected: Seq<char>,
    error: EngineErrorView,
    ok: bool,
)
    ensures
        (ChoiceView::Selecting { raw, index, selected }).after(ReplyView::Selected(Err(error)))
            matches ProgressView::Going(closing) && closing.asked() == RequestView::Close
            && closing.after(ReplyView::Closed { ok }) == ProgressView::<
            ChoiceView,
            OutcomeView,
        >::Done(Err(error)),
{
}

/// The pinyin that is left is the end of the pinyin that has the letters of the engine's
/// remaining preedit, from its first letter on, where some letter stands before it.
pub proof fn law_rest_has_the_letters_of_the_preedit(
    part: Seq<char>,
    rest: Seq<char>,
    remaining_preedit: Seq<char>,
)
    requires
        pinyin_only(part),
        pinyin_only(rest),
        letters(part).len() > 0,
        rest.len() > 0,
        rest[0] != '\'',
        letters(rest) == letters(remaining_preedit),
    ensures
        remaining_pinyin(part + rest, remaining_preedit) == Some(rest),
{
    law_letters_go_character_by_character(part, rest, 'a');
    law_letters_go_character_by_character(seq![rest[0]], rest.drop_first(), rest[0]);
    assert(seq![rest[0]] + rest.drop_first() =~= rest);
    lemma_first_end_is(part, rest, 0);
}

proof fn lemma_apostrophes(white: Seq<char>, rest: Seq<char>)
    requires
        forall|i: int| 0 <= i < white.len() ==> #[trigger] white[i] == '\'',
        rest.len() > 0 ==> rest[0] != '\'',
    ensures
        after_apostrophes(white + rest) == rest,
    decreases white.len(),
{
    if white.len() == 0 {
        assert(white + rest =~= rest);
    } else {
        let fewer = white.drop_first();
        assert((white + rest).drop_first() =~= fewer + rest);
        assert((white + rest)[0] == white[0]);
        assert forall|i: int| 0 <= i < fewer.len() implies #[trigger] fewer[i] == '\'' by {
            assert(fewer[i] == white[i + 1]);
        }
        lemma_apostrophes(fewer, rest);
    }
}

proof fn lemma_no_letters_are_apostrophes(s: Seq<char>)
    requires
        pinyin_only(s),
        letters(s).len() == 0,
    ensures
        forall|i: int| 0 <= i < s.len() ==> #[trigger] s[i] == '\'',
{
    assert forall|i: int| 0 <= i < s.len() implies #[trigger] s[i] == '\'' by {
        let front = s.take(i);
        let back = s.skip(i + 1);
        law_letters_go_character_by_character(front, seq![s[i]], s[i]);
        law_letters_go_character_by_character(front + seq![s[i]], back, s[i]);
        assert(front + seq![s[i]] + back =~= s);
    }
}

proof fn lemma_leading_apostrophes_have_no_letters(s: Seq<char>)
    ensures
        letters(after_apostrophes(s)) == letters(s),
    decreases s.len(),
{
    if s.len() > 0 && s[0] == '\'' {
        law_letters_go_character_by_character(seq![s[0]], s.drop_first(), s[0]);
        assert(seq![s[0]] + s.drop_first() =~= s);
        lemma_leading_apostrophes_have_no_letters(s.drop_first());
        assert(letters(s) =~= letters(s.drop_first()));
    }
}

proof fn lemma_first_end_is(part: Seq<char>, rest: Seq<char>, i: int)
    requires
        pinyin_only(part),
        0 <= i <= part.len(),
        rest.len() > 0,
        rest[0] != '\'',
    ensures
        first_end_with(part + rest, i, letters(rest)) == Some(rest),
    decreases part.len() - i,
{
    let s = part + rest;
    let end = part.skip(i);
    assert(s.skip(i) =~= end + rest);
    lemma_leading_apostrophes_have_no_letters(s.skip(i));
    law_letters_go_character_by_character(end, rest, 'a');
    if i == part.len() {
        assert(end + rest =~= rest);
    } else {
        if letters(after_apostrophes(s.skip(i))) == letters(rest) {
            assert(letters(end).len() == 0);
            assert(pinyin_only(end)) by {
                assert forall|j: int| 0 <= j < end.len() implies ('a' <= #[trigger] end[j] <= 'z'
                    || 'A' <= end[j] <= 'Z' || end[j] == '\'') by {
                    assert(end[j] == part[i + j]);
                }
            }
            lemma_no_letters_are_apostrophes(end);
            lemma_apostrophes(end, rest);
        } else {
            lemma_first_end_is(part, rest, i + 1);
        }
    }
}

/// A candidate for a first part of the pinyin is taken where the engine's preedit, from its
/// boundary on, has the letters of the rest, and there are candidates for the rest.
pub proof fn law_partial_selection_names_the_rest(
    part: Seq<char>,
    rest: Seq<char>,
    selected: Seq<char>,
    context: ContextView,
    remaining_preedit: Seq<char>,
)
    requires
        pinyin_only(part),
        pinyin_only(rest),
        letters(part).len() > 0,
        rest.len() > 0,
        rest[0] != '\'',
        context.preedit is Some,
        tail_at_byte(context.preedit->0, context.sel_start as nat) == Some(remaining_preedit),
        letters(rest) == letters(remaining_preedit),
    ensures
        ({
            let outcome = partial_outcome(part + rest, selected, Some(context));
            &&& context.candidates.len() > 0 ==> outcome == Ok::<_, EngineErrorView>(
                OutcomeView::Selected(
                    SelectionView::Partial { selected_text: selected, remaining_pinyin: rest },
                ),
            )
            &&& context.candidates.len() == 0 ==> outcome == Err::<OutcomeView, _>(
                EngineErrorView::NoCandidatesLeft { remaining: rest },
            )
            &&& (ChoiceView::Remaining { raw: part + rest, selected }).after(
                ReplyView::Context(Some(context)),
            ) == ProgressView::<_, OutcomeView>::Going(ChoiceView::Closing { outcome })
        }),
{
    law_rest_has_the_letters_of_the_preedit(part, rest, remaining_preedit);
}

/// Everything else is a failure: no context, no preedit, a boundary within a character, or a
/// preedit whose rest is no proper end of the pinyin.
pub proof fn law_partial_selection_without_a_rest_fails(
    raw: Seq<char>,
    selected: Seq<char>,
    context: ContextView,
)
    ensures
        partial_outcome(raw, selected, None) == Err::<OutcomeView, _>(EngineErrorView::NoContext),
        context.preedit is None ==> partial_outcome(raw, selected, Some(context)) == Err::<
            OutcomeView,
            _,
        >(EngineErrorView::NoPreedit),
        context.preedit is Some && tail_at_byte(
            context.preedit->0,
            context.sel_start as nat,
        ) is None ==> partial_outcome(raw, selected, Some(context)) == Err::<OutcomeView, _>(
            EngineErrorView::BadBoundary {
                boundary: context.sel_start,
                preedit: context.preedit->0,
            },
        ),
        context.preedit is Some && (tail_at_byte(context.preedit->0, context.sel_start as nat)
            matches Some(tail) && (letters(tail).len() == 0 || letters(tail) == letters(raw)))
            ==> partial_outcome(raw, selected, Some(context)) == Err::<OutcomeView, _>(
            EngineErrorView::NoProgress {
                raw,
                preedit: context.preedit->0,
                boundary: context.sel_start,
            },
        ),
{
}

// Parts and failures.

/// A body is converted token by token: a run waits for its session, a separator is put out in its
/// Chinese form and carries the quotes on, and after the last token the body is converted. A run
/// of which nothing is left in its normal form is left out.
pub proof fn law_body_goes_on_with_the_next_token(part: PartView)
    requires
        0 <= part.done <= part.tokens.len(),
    ensures
        part.done < part.tokens.len() ==> match part.tokens[part.done] {
            TokenView::Pinyin(raw) => part.continued() == (if normalized(raw).len() > 0 {
                ProgressView::Going(
                    BodyView {
                        part,
                        run: RunView {
                            schema: part.schema,
                            raw,
                            normalized: normalized(raw),
                            phase: RunPhaseView::Opening,
                        },
                    },
                )
            } else {
                (PartView { done: part.done + 1, ..part }).continued()
            }),
            TokenView::Separator(value) => part.continued() == (PartView {
                done: part.done + 1,
                output: part.output + chinese_separator(value, part.quote_state),
                quote_state: quote_after(value, part.quote_state),
                ..part
            }).continued(),
            TokenView::RimeAuto(_) => part.continued() == (PartView {
                done: part.done + 1,
                ..part
            }).continued(),
        },
        part.done == part.tokens.len() ==> part.continued() == ProgressView::<BodyView, _>::Done(
            Ok(
                ConvertedView {
                    output: OutputView {
                        body: part.body,
                        output: part.output,
                        tokens: part.tokens,
                        segments: part.segments,
                    },
                    quote_state: part.quote_state,
                },
            ),
        ),
{
}

/// A body starts with its tokens, nothing put out, and the quotes as they are; a run that is
/// converted is put out and the body goes on after it.
pub proof fn law_body_takes_up_its_runs(
    schema: Seq<char>,
    body: Seq<char>,
    quote: QuoteState,
    waiting: BodyView,
    reply: ReplyView,
)
    ensures
        PartView::of(schema, body, quote) == (PartView {
            schema,
            body,
            tokens: tokens_of(body),
            done: 0,
            output: seq![],
            segments: seq![],
            quote_state: quote,
        }),
        ConverterView::started(ConversionMode::RimeAuto, schema, body, quote) == ProgressView::<
            _,
            ConvertedView,
        >::Going(ConverterView::RimeAuto { conversion: AutoView::begun(schema, body), quote_state: quote }),
        ConverterView::started(ConversionMode::Segmented, schema, body, quote) == (match PartView::of(
            schema,
            body,
            quote,
        ).continued() {
            ProgressView::Going(m) => ProgressView::Going(ConverterView::Segmented(m)),
            ProgressView::Done(r) => ProgressView::Done(r),
        }),
        match waiting.run.after(reply) {
            ProgressView::Going(run) => waiting.after(reply) == ProgressView::<
                _,
                ConvertedView,
            >::Going(BodyView { part: waiting.part, run }),
            ProgressView::Done(Ok(segment)) => waiting.after(reply) == (PartView {
                done: waiting.part.done + 1,
                output: waiting.part.output + segment.first,
                segments: waiting.part.segments.push(segment),
                ..waiting.part
            }).continued(),
            ProgressView::Done(Err(e)) => waiting.after(reply) == ProgressView::<
                BodyView,
                ConvertedView,
            >::Done(Err(e)),
        },
        waiting.asked() == waiting.run.asked(),
{
}

/// Where no session can be opened, that is the failure; and where a session cannot be closed at
/// the end of a run, of a body or of a look-up, that is.
pub proof fn law_failures_to_open_and_close_are_told(
    run: RunView,
    auto: AutoView,
    opening: OpeningView,
    preview: PreviewView,
    outcome: OutcomeView,
    error: EngineErrorView,
)
    requires
        run.phase is Opening || run.phase is Closing,
        auto.phase is Opening || auto.phase is Closing,
        opening.phase is Opening || opening.phase is Abandoning,
        opening.failure is None,
    ensures
        ({
            let refused = ReplyView::Opened(Err(error));
            let open = ReplyView::Closed { ok: false };
            let close = EngineErrorView::CloseSession;
            &&& run.phase is Opening ==> run.after(refused) == ProgressView::<
                RunView,
                SegmentView,
            >::Done(Err(error))
            &&& run.phase is Closing ==> run.after(open) == ProgressView::<
                RunView,
                SegmentView,
            >::Done(Err(close))
            &&& auto.phase is Opening ==> auto.after(refused) == ProgressView::<
                AutoView,
                OutputView,
            >::Done(Err(error))
            &&& auto.phase is Closing ==> auto.after(open) == ProgressView::<
                AutoView,
                OutputView,
            >::Done(Err(close))
            &&& opening.phase is Opening ==> opening.after(refused) == ProgressView::<
                OpeningView,
                SessionView,
            >::Done(Err(error))
            &&& opening.phase is Abandoning ==> opening.after(open) == ProgressView::<
                OpeningView,
                SessionView,
            >::Done(Err(close))
            &&& opening.phase is Abandoning ==> opening.after(ReplyView::Closed { ok: true })
                == ProgressView::<OpeningView, _>::Done(Ok(SessionView::Absent))
            &&& (LookupView::Closing { preview }).after(open) == ProgressView::<
                LookupView,
                PreviewView,
            >::Done(Err(close))
            &&& (ChoiceView::Closing { outcome: Ok(outcome) }).after(open) == ProgressView::<
                ChoiceView,
                OutcomeView,
            >::Done(Err(close))
        }),
{
}

/// A session in which a character is passed over, or a page cannot be turned, is closed; the
/// first leaves no session, and the second fails with what the engine said.
pub proof fn law_session_that_goes_wrong_is_closed(
    opening: OpeningView,
    error: EngineErrorView,
    ok: bool,
)
    requires
        opening.failure is None,
    ensures
        opening.phase is Feeding ==> (opening.after(ReplyView::Key { accepted: false }) matches
            ProgressView::Going(next) && next.asked() == RequestView::Close && next.after(
            ReplyView::Closed { ok: true },
        ) == ProgressView::<OpeningView, _>::Done(Ok(SessionView::Absent))),
        opening.phase is Paging ==> (opening.after(ReplyView::Page(Err(error))) matches
            ProgressView::Going(next) && next.asked() == RequestView::Close && next.after(
            ReplyView::Closed { ok },
        ) == ProgressView::<OpeningView, SessionView>::Done(Err(error))),
{
}

/// A session that is there is read, by a look-up and by a choice; where there is none nothing is
/// shown and nothing is chosen; and a failure to open it is theirs.
pub proof fn law_opened_session_is_read(
    opening: OpeningView,
    reply: ReplyView,
    count: usize,
    index: usize,
)
    ensures
        ({
            let lookup = (LookupView::Opening { opening, candidate_count: count }).after(reply);
            let choice = (ChoiceView::Opening { opening, index }).after(reply);
            match opening.after(reply) {
                ProgressView::Going(next) => {
                    &&& lookup == ProgressView::<_, PreviewView>::Going(
                        LookupView::Opening { opening: next, candidate_count: count },
                    )
                    &&& choice == ProgressView::<_, OutcomeView>::Going(
                        ChoiceView::Opening { opening: next, index },
                    )
                },
                ProgressView::Done(Ok(SessionView::Open { raw })) => {
                    &&& lookup == ProgressView::<_, PreviewView>::Going(
                        LookupView::Reading { raw, candidate_count: count },
                    )
                    &&& choice == ProgressView::<_, OutcomeView>::Going(
                        ChoiceView::Finding { raw, index },
                    )
                },
                ProgressView::Done(Ok(SessionView::Absent)) => {
                    &&& lookup == ProgressView::<LookupView, _>::Done(
                        Ok(
                            PreviewView {
                                preedit: "Rime active"@,
                                candidates: seq![],
                                page_no: 0,
                                is_last_page: true,
                            },
                        ),
                    )
                    &&& choice == ProgressView::<ChoiceView, _>::Done(Ok(OutcomeView::Nothing))
                },
                ProgressView::Done(Err(e)) => {
                    &&& lookup == ProgressView::<LookupView, PreviewView>::Done(Err(e))
                    &&& choice == ProgressView::<ChoiceView, OutcomeView>::Done(Err(e))
                },
            }
        }),
{
}

} // verus!
