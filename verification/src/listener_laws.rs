//! What the listener does with an event, in terms of what the host is told and of what the
//! listener keeps.

use vstd::prelude::*;

use crate::actions::{ActionView, ConversionView, SelectionView};
use crate::bytes::{host_takes, law_host_takes_text_without_nul};
use crate::candidate_session::{ChoiceView, LookupView, OpeningPhase, OpeningView};
use crate::candidates::{OutcomeView, PreviewView};
use crate::capture::{CaptureMode, CaptureView, ReversibleView};
use crate::capture_laws::{
    flags_set, law_collected_text_is_in_the_buffer, law_complete_candidate_takes_the_pinyins_place,
    law_output_is_counted, law_partial_candidate_leaves_the_rest, law_pending_pinyin_is_replaced,
    lettered, pinyin_only,
};
use crate::chars::control_char;
use crate::config::{
    lemma_position, CandidateInteractionKey, CandidateLayout, ConfigView,
};
use crate::conversion::ConvertedView;
use crate::engine::{EngineErrorView, ProgressView, ReplyView};
use crate::engine_laws::{law_last_run_is_looked_up, law_run_is_one_token};
use crate::failures::{FailureView, ListenerErrorView, Occasion, Trouble};
use crate::listener::{interaction_for, labels, preview_shown, RuntimeView};
use crate::mac::{lines, CommandView, InputEvent, KEY_SPACE};
use crate::reactions::{
    EndingView, EventStateView, InputView, InteractionView, PendingConversionView, ReactionView,
    RecoveryView, WaitingView,
};
use crate::rewrite::rewrite_commands;
use crate::separators::QuoteState;
use crate::text::{has_letter, lower};
use crate::tokens::{
    law_run_is_normalized, lemma_lower_keeps_letters, normalized, tokens_of, well_formed_token,
    TokenView,
};

verus! {

/// The commands that put `text` in the place of the last `delete_chars` characters.
pub open spec fn replacing(delete_chars: usize, text: Seq<char>, delay_ms: i32) -> Seq<
    CommandView,
> {
    seq![
        CommandView::BeginRewrite,
        CommandView::CommitRewrite { delete_chars: delete_chars as u32, text, delay_ms },
    ]
}

/// A rewrite tells the host how many characters to delete, which text to put there and how long
/// to wait between keys. A text that the host cannot take is not put there, and the rewrite is
/// given up.
pub proof fn law_rewrite_deletes_and_inserts(delete_chars: usize, text: Seq<char>, delay_ms: i32)
    ensures
        !text.contains('\0') ==> rewrite_commands(delete_chars, text, delay_ms) == replacing(
            delete_chars,
            text,
            delay_ms,
        ),
        text.contains('\0') ==> rewrite_commands(delete_chars, text, delay_ms) == seq![
            CommandView::BeginRewrite,
            CommandView::AbortRewrite,
        ],
{
    law_host_takes_text_without_nul(text);
}

// The candidate panel.

/// Each candidate that is shown stands after its key, a full stop and a space, in the order of
/// the candidates, and as many are shown as have a key.
pub proof fn law_candidates_stand_after_their_keys(keys: Seq<char>, candidates: Seq<Seq<char>>)
    ensures
        labels(keys, candidates).len() <= keys.len(),
        labels(keys, candidates).len() <= candidates.len(),
        labels(keys, candidates).len() == keys.len() || labels(keys, candidates).len()
            == candidates.len(),
        forall|i: int|
            0 <= i < labels(keys, candidates).len() ==> #[trigger] labels(keys, candidates)[i]
                == seq![keys[i], '.', ' '] + candidates[i],
{
    reveal_strlit(". ");
    let shown = labels(keys, candidates);
    assert forall|i: int| 0 <= i < shown.len() implies #[trigger] shown[i] == seq![
        keys[i],
        '.',
        ' ',
    ] + candidates[i] by {
        assert(seq![keys[i]] + ". "@ =~= seq![keys[i], '.', ' ']);
    }
}

/// The panel shows the preedit and the labelled candidates, laid out as the configuration says.
pub proof fn law_panel_shows_the_preview(config: ConfigView, preview: PreviewView)
    ensures
        ({
            let shown = lines(labels(config.candidate_select_keys, preview.candidates));
            &&& !preview.preedit.contains('\0') && !shown.contains('\0') ==> preview_shown(
                config,
                preview,
            ) == Ok::<_, crate::bytes::NulError>(
                CommandView::UpdatePanel {
                    preedit: preview.preedit,
                    candidates: shown,
                    layout: if config.candidate_layout == CandidateLayout::Vertical {
                        1
                    } else {
                        0
                    },
                },
            )
            &&& preview.preedit.contains('\0') || shown.contains('\0') ==> preview_shown(
                config,
                preview,
            ) is Err
        }),
{
    let shown = lines(labels(config.candidate_select_keys, preview.candidates));
    law_host_takes_text_without_nul(preview.preedit);
    law_host_takes_text_without_nul(shown);
}

/// The session that is opened to look up `pinyin`, turned to `page`.
pub open spec fn opening_for(schema: Seq<char>, pinyin: Seq<char>, page: usize) -> OpeningView {
    OpeningView {
        schema,
        raw: lower(pinyin),
        normalized: lower(pinyin),
        requested_page: page,
        phase: OpeningPhase::Opening,
        failure: None,
    }
}

proof fn lemma_pinyin_is_looked_up(
    schema: Seq<char>,
    pinyin: Seq<char>,
    count: usize,
    page: usize,
    index: usize,
)
    requires
        pinyin_only(pinyin),
        lettered(pinyin),
    ensures
        LookupView::started(schema, pinyin, count, page) == ProgressView::<_, PreviewView>::Going(
            LookupView::Opening {
                opening: opening_for(schema, pinyin, page),
                candidate_count: count,
            },
        ),
        ChoiceView::started(schema, pinyin, page, index) == ProgressView::<_, OutcomeView>::Going(
            ChoiceView::Opening { opening: opening_for(schema, pinyin, page), index },
        ),
{
    let run = lower(pinyin);
    let i = choose|i: int|
        0 <= i < pinyin.len() && ('a' <= #[trigger] pinyin[i] <= 'z' || 'A' <= pinyin[i] <= 'Z');
    assert(has_letter(pinyin)) by {
        assert(crate::chars::ascii_letter(pinyin[i]));
    }
    lemma_lower_keeps_letters(pinyin);
    law_run_is_one_token(pinyin, seq![]);
    assert(pinyin + Seq::<char>::empty() =~= pinyin);
    assert(tokens_of(pinyin) =~= Seq::<TokenView>::empty() + seq![TokenView::Pinyin(run)]
        + Seq::<TokenView>::empty());
    law_last_run_is_looked_up(seq![], run, seq![]);
    assert(well_formed_token(TokenView::Pinyin(run))) by {
        assert forall|j: int| 0 <= j < run.len() implies crate::chars::pinyin_char(
            #[trigger] run[j],
        ) by {
            crate::chars::lemma_ascii_lower(pinyin[j]);
        }
        assert(lower(run) =~= run) by {
            assert forall|j: int| 0 <= j < run.len() implies lower(run)[j] == run[j] by {
                crate::chars::lemma_ascii_lower(pinyin[j]);
                crate::chars::lemma_ascii_lower(run[j]);
            }
        }
    }
    law_run_is_normalized(run);
}

/// In a session the candidates for the pinyin in the buffer are looked up, on the page that the
/// session is at, and as many of them as are to be shown. Outside a session the panel is hidden.
/// What came before is told to the host first.
pub proof fn law_refresh_looks_up_the_buffer(
    rt: RuntimeView,
    commands: Seq<CommandView>,
    ending: EndingView,
)
    ensures
        rt.capture.mode == CaptureMode::Active && pinyin_only(rt.capture.buffer) && lettered(
            rt.capture.buffer,
        ) ==> rt.refreshes(commands, ending) == (ReactionView {
            commands,
            state: EventStateView::Waiting(
                WaitingView::Refresh {
                    lookup: LookupView::Opening {
                        opening: opening_for(
                            rt.schema,
                            rt.capture.buffer,
                            rt.capture.candidate_page,
                        ),
                        candidate_count: rt.config.candidate_count,
                    },
                    ending,
                },
            ),
        }),
        rt.capture.mode == CaptureMode::Idle ==> rt.refreshes(commands, ending) == (ReactionView {
            commands: if ending.abort {
                commands + seq![CommandView::HidePanel, CommandView::AbortRewrite]
            } else {
                commands + seq![CommandView::HidePanel]
            },
            state: EventStateView::Done(ending.result),
        }),
{
    let c = rt.capture;
    if c.mode == CaptureMode::Active && pinyin_only(c.buffer) && lettered(c.buffer) {
        lemma_pinyin_is_looked_up(
            rt.schema,
            c.buffer,
            rt.config.candidate_count,
            c.candidate_page,
            0,
        );
    }
    assert(commands.push(CommandView::HidePanel) =~= commands + seq![CommandView::HidePanel]);
    assert(commands.push(CommandView::HidePanel).push(CommandView::AbortRewrite) =~= commands
        + seq![CommandView::HidePanel, CommandView::AbortRewrite]);
}

/// The preview that was looked up is shown, after what came before, and the event ends with its
/// own result. A preview that cannot be shown is told of and changes the result only where the
/// event has no occasion of its own.
pub proof fn law_preview_is_shown_at_the_end(
    rt: RuntimeView,
    commands: Seq<CommandView>,
    preview: PreviewView,
    error: EngineErrorView,
    after: Occasion,
    result: Result<bool, ListenerErrorView>,
    command: CommandView,
)
    requires
        preview_shown(rt.config, preview) == Ok::<_, crate::bytes::NulError>(command),
    ensures
        ({
            let ending = EndingView { occasion: Some(after), result, abort: false };
            let silent = EndingView { occasion: None, result, abort: false };
            let aborting = EndingView { abort: true, ..ending };
            let failure = FailureView::Engine(error);
            &&& rt.refreshed(commands, Ok(preview), ending) == (ReactionView {
                commands: commands + seq![command],
                state: EventStateView::Done(result),
            })
            &&& rt.refreshed(commands, Ok(preview), silent) == rt.refreshed(
                commands,
                Ok(preview),
                ending,
            )
            &&& rt.refreshed(commands, Ok(preview), aborting) == (ReactionView {
                commands: commands + seq![command, CommandView::AbortRewrite],
                state: EventStateView::Done(result),
            })
            &&& rt.refreshed(commands, Err(error), ending) == (ReactionView {
                commands: commands + seq![
                    CommandView::Report { trouble: Trouble::Panel { after }, failure },
                ],
                state: EventStateView::Done(result),
            })
            &&& rt.refreshed(commands, Err(error), silent) == (ReactionView {
                commands,
                state: EventStateView::Done(Err(ListenerErrorView::Failed(failure))),
            })
        }),
{
    let failure = FailureView::Engine(error);
    let report = CommandView::Report { trouble: Trouble::Panel { after }, failure };
    assert(commands.push(command) =~= commands + seq![command]);
    assert(commands.push(command).push(CommandView::AbortRewrite) =~= commands + seq![
        command,
        CommandView::AbortRewrite,
    ]);
    assert(commands.push(report) =~= commands + seq![report]);
}

// Keys that work on the candidates.

/// The previous-page key looks the pinyin up on the page before the one that is shown, and the
/// next-page key on the page after it, as far as pages are counted.
pub proof fn law_page_keys_turn_to_the_neighbouring_page(
    rt: RuntimeView,
    commands: Seq<CommandView>,
    current: PreviewView,
    interaction: InteractionView,
)
    requires
        current.candidates.len() > 0,
        pinyin_only(interaction.pending),
        lettered(interaction.pending),
    ensures
        ({
            let (next, reaction) = rt.interacts(commands, Ok(current), interaction);
            let page = current.page_no;
            &&& interaction.kind is PreviousPage && page > 0 ==> {
                &&& next == rt
                &&& reaction == (ReactionView {
                    commands,
                    state: EventStateView::Waiting(
                        WaitingView::Page {
                            lookup: LookupView::Opening {
                                opening: opening_for(
                                    rt.schema,
                                    interaction.pending,
                                    (page - 1) as usize,
                                ),
                                candidate_count: rt.config.candidate_count,
                            },
                            input: interaction.input,
                        },
                    ),
                })
            }
            &&& interaction.kind is NextPage && !current.is_last_page ==> {
                &&& next == rt
                &&& reaction == (ReactionView {
                    commands,
                    state: EventStateView::Waiting(
                        WaitingView::Page {
                            lookup: LookupView::Opening {
                                opening: opening_for(
                                    rt.schema,
                                    interaction.pending,
                                    if page < usize::MAX {
                                        (page + 1) as usize
                                    } else {
                                        page
                                    },
                                ),
                                candidate_count: rt.config.candidate_count,
                            },
                            input: interaction.input,
                        },
                    ),
                })
            }
        }),
{
    let page = current.page_no;
    let pending = interaction.pending;
    let count = rt.config.candidate_count;
    if page > 0 {
        lemma_pinyin_is_looked_up(rt.schema, pending, count, (page - 1) as usize, 0);
    }
    if page < usize::MAX {
        lemma_pinyin_is_looked_up(rt.schema, pending, count, (page + 1) as usize, 0);
    } else {
        lemma_pinyin_is_looked_up(rt.schema, pending, count, page, 0);
    }
}

/// On the first page the previous-page key, and on the last page the next-page key, shows the
/// same page again, and is kept from the host.
pub proof fn law_page_keys_stop_at_the_ends(
    rt: RuntimeView,
    commands: Seq<CommandView>,
    current: PreviewView,
    interaction: InteractionView,
    command: CommandView,
)
    requires
        current.candidates.len() > 0,
        preview_shown(rt.config, current) == Ok::<_, crate::bytes::NulError>(command),
        (interaction.kind is PreviousPage && current.page_no == 0) || (interaction.kind is NextPage
            && current.is_last_page),
    ensures
        rt.interacts(commands, Ok(current), interaction) == (
            rt,
            ReactionView {
                commands: commands + seq![command],
                state: EventStateView::Done(Ok(true)),
            },
        ),
{
    assert(commands.push(command) =~= commands + seq![command]);
}

/// The page that the engine is at then is the one that the session is at, and it is shown.
pub proof fn law_turned_page_is_kept_and_shown(
    rt: RuntimeView,
    commands: Seq<CommandView>,
    page: PreviewView,
    input: InputView,
    command: CommandView,
)
    requires
        preview_shown(rt.config, page) == Ok::<_, crate::bytes::NulError>(command),
    ensures
        rt.turned(commands, Ok(page), input) == (
            RuntimeView {
                capture: CaptureView { candidate_page: page.page_no, ..rt.capture },
                ..rt
            },
            ReactionView {
                commands: commands + seq![command],
                state: EventStateView::Done(Ok(true)),
            },
        ),
{
    assert(commands.push(command) =~= commands + seq![command]);
}

/// A select key chooses the candidate of its index on the page that is shown; where no candidate
/// has that index the key is typed.
pub proof fn law_select_keys_choose_on_the_page_shown(
    rt: RuntimeView,
    commands: Seq<CommandView>,
    current: PreviewView,
    interaction: InteractionView,
    index: usize,
)
    requires
        current.candidates.len() > 0,
        pinyin_only(interaction.pending),
        lettered(interaction.pending),
        interaction.kind == CandidateInteractionKey::Select(index),
    ensures
        index < current.candidates.len() ==> rt.interacts(commands, Ok(current), interaction) == (
            rt,
            ReactionView {
                commands,
                state: EventStateView::Waiting(
                    WaitingView::Choice {
                        choice: ChoiceView::Opening {
                            opening: opening_for(rt.schema, interaction.pending, current.page_no),
                            index,
                        },
                        occasion: Occasion::Candidate { page_no: current.page_no, index },
                        input: interaction.input,
                    },
                ),
            },
        ),
        index >= current.candidates.len() ==> rt.interacts(commands, Ok(current), interaction)
            == rt.types(commands, interaction.input),
{
    lemma_pinyin_is_looked_up(
        rt.schema,
        interaction.pending,
        rt.config.candidate_count,
        current.page_no,
        index,
    );
}

/// A key with a role first looks up the candidates for the pending pinyin, on the page that the
/// session is at. The key that commits the pinyin needs no candidates.
pub proof fn law_keys_with_a_role_look_up_the_pending_pinyin(
    rt: RuntimeView,
    input: InputView,
    kind: CandidateInteractionKey,
)
    requires
        rt.capture.mode == CaptureMode::Active,
        pinyin_only(rt.capture.buffer),
        lettered(rt.capture.buffer),
        input.text.len() == 1,
        interaction_for(rt.config, input.key_code, input.text[0]) == Some(kind),
    ensures
        kind !is EnglishCommit ==> rt.keyed(input) == (
            rt,
            ReactionView {
                commands: seq![],
                state: EventStateView::Waiting(
                    WaitingView::Preview {
                        lookup: LookupView::Opening {
                            opening: opening_for(
                                rt.schema,
                                rt.capture.buffer,
                                rt.capture.candidate_page,
                            ),
                            candidate_count: rt.config.candidate_count,
                        },
                        interaction: InteractionView {
                            pending: rt.capture.buffer,
                            key: input.text[0],
                            kind,
                            input,
                        },
                    },
                ),
            },
        ),
        kind is EnglishCommit ==> rt.keyed(input) == rt.commits_pending(
            seq![],
            rt.capture.buffer,
            true,
            input,
        ),
{
    crate::capture_laws::law_pending_pinyin_is_the_buffer(rt.capture);
    lemma_pinyin_is_looked_up(
        rt.schema,
        rt.capture.buffer,
        rt.config.candidate_count,
        rt.capture.candidate_page,
        0,
    );
}

/// Keys without a role, text of several characters, and any text while no pinyin is pending are
/// typed.
pub proof fn law_other_keys_are_typed(rt: RuntimeView, input: InputView)
    requires
        rt.capture.mode == CaptureMode::Idle || !pinyin_only(rt.capture.buffer) || !lettered(
            rt.capture.buffer,
        ) || input.text.len() != 1 || interaction_for(
            rt.config,
            input.key_code,
            input.text[0],
        ) is None,
    ensures
        rt.keyed(input) == rt.types(seq![], input),
{
    crate::capture_laws::law_pending_pinyin_is_the_buffer(rt.capture);
}

/// Without candidates a key with a role is inserted after the pinyin, and both stay as they are;
/// the space bar is typed, which converts the pinyin.
pub proof fn law_keys_without_candidates_are_inserted(
    rt: RuntimeView,
    commands: Seq<CommandView>,
    current: PreviewView,
    interaction: InteractionView,
    error: EngineErrorView,
)
    requires
        current.candidates.len() == 0,
    ensures
        interaction.input.key_code == KEY_SPACE && interaction.key == ' ' ==> rt.interacts(
            commands,
            Ok(current),
            interaction,
        ) == rt.types(commands, interaction.input),
        interaction.input.key_code != KEY_SPACE || interaction.key != ' ' ==> rt.interacts(
            commands,
            Ok(current),
            interaction,
        ) == rt.commits_pending(
            commands,
            interaction.pending + seq![interaction.key],
            false,
            interaction.input,
        ),
        rt.interacts(commands, Err(error), interaction) == rt.types(
            commands + seq![
                CommandView::Report {
                    trouble: Trouble::Interaction,
                    failure: FailureView::Engine(error),
                },
            ],
            interaction.input,
        ),
{
    let report = CommandView::Report {
        trouble: Trouble::Interaction,
        failure: FailureView::Engine(error),
    };
    assert(interaction.pending.push(interaction.key) =~= interaction.pending + seq![
        interaction.key,
    ]);
    assert(commands.push(report) =~= commands + seq![report]);
}

// Which key has which role.

/// The space bar selects the first candidate. The select keys select by their place, the page
/// keys turn pages and the English key commits the pinyin; of keys that coincide the English key
/// comes first, and a select key before the page keys.
pub proof fn law_keys_have_their_roles(config: ConfigView, key_code: u32, key: char, index: int)
    requires
        key_code != KEY_SPACE || key != ' ',
        config.candidate_select_keys.len() <= usize::MAX,
    ensures
        ({
            let keys = config.candidate_select_keys;
            let english = config.english_commit_key.len() > 0 && config.english_commit_key[0]
                == key;
            let next = config.candidate_page_next_key.len() > 0
                && config.candidate_page_next_key[0] == key;
            let previous = config.candidate_page_previous_key.len() > 0
                && config.candidate_page_previous_key[0] == key;
            let role = interaction_for(config, key_code, key);
            &&& english ==> role == Some(CandidateInteractionKey::EnglishCommit)
            &&& !english && 0 <= index < keys.len() && keys[index] == key && (forall|i: int|
                0 <= i < index ==> #[trigger] keys[i] != key) ==> role == Some(
                CandidateInteractionKey::Select(index as usize),
            )
            &&& !english && !keys.contains(key) && next ==> role == Some(
                CandidateInteractionKey::NextPage,
            )
            &&& !english && !keys.contains(key) && !next && previous ==> role == Some(
                CandidateInteractionKey::PreviousPage,
            )
            &&& !english && !keys.contains(key) && !next && !previous ==> role is None
        }),
        interaction_for(config, 49, ' ') == Some(CandidateInteractionKey::Select(0)),
        KEY_SPACE == 49,
{
    let keys = config.candidate_select_keys;
    if 0 <= index < keys.len() && keys[index] == key {
        assert(keys.contains(keys[index]));
        lemma_position(keys, key);
        let found = crate::config::position(keys, key) as int;
        if found < index {
            assert(keys[found] == key);
        }
        if (forall|i: int| 0 <= i < index ==> #[trigger] keys[i] != key) {
            assert(found == index) by {
                if index < found {
                    lemma_position_is_first(keys, key, index);
                }
            }
        }
    }
}

proof fn lemma_position_is_first(keys: Seq<char>, key: char, index: int)
    requires
        0 <= index < keys.len(),
        keys[index] == key,
    ensures
        crate::config::position(keys, key) <= index,
    decreases keys.len(),
{
    if index > 0 && keys[0] != key {
        assert(keys.drop_first()[index - 1] == key);
        lemma_position_is_first(keys.drop_first(), key, index - 1);
    }
}

// Rewrites.

/// A conversion within a session puts the output in the place of what was typed. The output
/// counts as produced, and can be undone to the typed text and to the quotes before it.
pub proof fn law_conversion_puts_the_output_in_place(
    rt: RuntimeView,
    commands: Seq<CommandView>,
    converted: ConvertedView,
    pending: PendingConversionView,
)
    requires
        pending.stay_active,
        !converted.output.output.contains('\0'),
        converted.output.output != pending.restore_text,
        rt.capture.committed_output_chars + converted.output.output.len() <= usize::MAX,
    ensures
        ({
            let output = converted.output.output;
            let (next, reaction) = rt.converts(commands, Ok(converted), pending);
            &&& next == (RuntimeView {
                capture: CaptureView {
                    committed_output_chars: (rt.capture.committed_output_chars
                        + output.len()) as usize,
                    last_conversion: Some(
                        ReversibleView {
                            original_text: pending.restore_text,
                            inserted_text: output,
                            quote_state_before: rt.quote_state,
                        },
                    ),
                    ..rt.capture
                },
                quote_state: converted.quote_state,
                ..rt
            })
            &&& reaction == next.refreshes(
                commands + replacing(pending.delete_chars, output, rt.inject_delay_ms),
                EndingView {
                    occasion: Some(Occasion::Conversion),
                    result: Ok(pending.consume),
                    abort: false,
                },
            )
        }),
{
    let output = converted.output.output;
    law_rewrite_deletes_and_inserts(pending.delete_chars, output, rt.inject_delay_ms);
    law_host_takes_text_without_nul(output);
    law_output_is_counted(rt.capture, pending.restore_text, output, rt.quote_state);
}

/// A conversion that ends the session puts the output in place, hides the panel and forgets the
/// quotes and the input source.
pub proof fn law_closing_conversion_puts_the_output_in_place(
    rt: RuntimeView,
    commands: Seq<CommandView>,
    converted: ConvertedView,
    pending: PendingConversionView,
)
    requires
        !pending.stay_active,
        !converted.output.output.contains('\0'),
    ensures
        rt.converts(commands, Ok(converted), pending) == (
            RuntimeView {
                quote_state: QuoteState { next_is_open: false },
                session_input_source: None,
                ..rt
            },
            ReactionView {
                commands: commands + replacing(
                    pending.delete_chars,
                    converted.output.output,
                    rt.inject_delay_ms,
                ) + seq![CommandView::HidePanel],
                state: EventStateView::Done(Ok(pending.consume)),
            },
        ),
{
    let output = converted.output.output;
    law_rewrite_deletes_and_inserts(pending.delete_chars, output, rt.inject_delay_ms);
    law_host_takes_text_without_nul(output);
    let rewritten = commands + replacing(pending.delete_chars, output, rt.inject_delay_ms);
    assert(rewritten.push(CommandView::HidePanel) =~= rewritten + seq![CommandView::HidePanel]);
}

/// A conversion that fails, or whose output the host cannot take, goes back to what was typed.
pub proof fn law_failed_conversion_goes_back(
    rt: RuntimeView,
    commands: Seq<CommandView>,
    converted: ConvertedView,
    error: EngineErrorView,
    pending: PendingConversionView,
)
    requires
        converted.output.output.contains('\0'),
    ensures
        rt.converts(commands, Err(error), pending) == rt.recovers(
            commands,
            FailureView::Engine(error),
            pending.recovery,
        ),
        host_takes(converted.output.output) matches Err(e) && rt.converts(
            commands,
            Ok(converted),
            pending,
        ) == rt.recovers(
            commands + seq![CommandView::BeginRewrite, CommandView::AbortRewrite],
            FailureView::Injection(e),
            pending.recovery,
        ),
{
    let output = converted.output.output;
    law_rewrite_deletes_and_inserts(pending.delete_chars, output, rt.inject_delay_ms);
    law_host_takes_text_without_nul(output);
}

/// Going back puts the buffer of before and the typed text after it into the host, in the place
/// of what of them the host shows; then the host shows all of it. The quotes and the input source
/// are those of before, and the event fails with what went wrong.
pub proof fn law_recovery_puts_the_typed_text_back(
    rt: RuntimeView,
    commands: Seq<CommandView>,
    failure: FailureView,
    recovery: RecoveryView,
)
    requires
        recovery.capture.wf(),
        recovery.text.len() > 0,
        recovery.capture.buffer.len() + recovery.text.len() <= recovery.capture.max_buffer_chars,
        forall|i: int| 0 <= i < recovery.text.len() ==> !control_char(#[trigger] recovery.text[i]),
        !(recovery.capture.buffer + recovery.text).contains('\0'),
    ensures
        ({
            let before = recovery.capture;
            let text = before.buffer + recovery.text;
            let flags = before.visible + Seq::new(
                recovery.text.len(),
                |i: int| recovery.visible,
            );
            let (next, reaction) = rt.recovers(commands, failure, recovery);
            &&& next == (RuntimeView {
                capture: CaptureView {
                    buffer: text,
                    visible: Seq::new(text.len(), |i: int| true),
                    candidate_page: 0,
                    last_conversion: None,
                    ..before
                },
                quote_state: recovery.quote_state,
                session_input_source: recovery.session_input_source,
                ..rt
            })
            &&& reaction == next.refreshes(
                commands + replacing(flags_set(flags) as usize, text, rt.inject_delay_ms),
                EndingView {
                    occasion: Some(Occasion::Recovery),
                    result: Err(ListenerErrorView::Failed(failure)),
                    abort: false,
                },
            )
        }),
{
    let before = recovery.capture;
    let text = before.buffer + recovery.text;
    let flags = before.visible + Seq::new(recovery.text.len(), |i: int| recovery.visible);
    law_collected_text_is_in_the_buffer(before, recovery.text, recovery.visible);
    crate::capture_laws::lemma_flags_set(flags);
    law_rewrite_deletes_and_inserts(flags_set(flags) as usize, text, rt.inject_delay_ms);
    law_host_takes_text_without_nul(text);
    assert(before.collected(recovery.text, recovery.visible).visible == flags);
    assert(crate::capture::all_visible(text.len()) =~= Seq::new(text.len(), |i: int| true));
}

/// A conversion is made of the body, with the quotes as they are, and in the configured way; it
/// waits with what it is undone to, what to delete and what to go back to.
pub proof fn law_conversion_waits_with_what_it_needs(
    rt: RuntimeView,
    commands: Seq<CommandView>,
    action: ConversionView,
    consume: bool,
    recovery: RecoveryView,
)
    ensures
        lettered(action.body) ==> ({
            let (next, reaction) = rt.starts_conversion(commands, action, consume, recovery);
            let pending = PendingConversionView {
                restore_text: action.restore_text,
                delete_chars: action.delete_chars,
                stay_active: action.stay_active,
                consume,
                recovery,
            };
            match crate::rime_auto::ConverterView::started(
                rt.config.conversion_mode,
                rt.schema,
                action.body,
                rt.quote_state,
            ) {
                ProgressView::Going(conversion) => next == rt && reaction == (ReactionView {
                    commands,
                    state: EventStateView::Waiting(WaitingView::Conversion { conversion, pending }),
                }),
                ProgressView::Done(converted) => (next, reaction) == rt.converts(
                    commands,
                    converted,
                    pending,
                ),
            }
        }),
        !lettered(action.body) ==> rt.starts_conversion(commands, action, consume, recovery)
            == rt.recovers(commands, FailureView::NoPinyin, recovery),
{
    crate::capture_laws::lemma_lettered(action.body);
}

/// Opening a session deletes the trigger; a literal is inserted and deletes nothing; and the end
/// of a session puts the replacement in the place of what was typed and hides the panel.
pub proof fn law_actions_rewrite_the_host(
    rt: RuntimeView,
    commands: Seq<CommandView>,
    text: Seq<char>,
    delete_chars: usize,
    typed: Seq<char>,
    consume: bool,
    recovery: RecoveryView,
)
    requires
        !text.contains('\0'),
    ensures
        ({
            let delay = rt.inject_delay_ms;
            let nothing = Seq::<char>::empty();
            &&& rt.acts(
                commands,
                ActionView::StartSession { trigger_text: typed, delete_chars },
                consume,
                recovery,
            ) == (
                rt,
                rt.refreshes(
                    commands + replacing(delete_chars, nothing, delay),
                    EndingView {
                        occasion: Some(Occasion::SessionStart),
                        result: Ok(consume),
                        abort: false,
                    },
                ),
            )
            &&& rt.acts(commands, ActionView::InsertLiteral { text }, consume, recovery) == (
                rt,
                rt.refreshes(
                    commands + replacing(0, text, delay),
                    EndingView {
                        occasion: Some(Occasion::LiteralReplay),
                        result: Ok(consume),
                        abort: false,
                    },
                ),
            )
            &&& rt.acts(
                commands,
                ActionView::EndSession { typed_text: typed, replacement_text: text, delete_chars },
                consume,
                recovery,
            ) == (
                RuntimeView {
                    quote_state: QuoteState { next_is_open: false },
                    session_input_source: None,
                    ..rt
                },
                ReactionView {
                    commands: commands + replacing(delete_chars, text, delay) + seq![
                        CommandView::HidePanel,
                    ],
                    state: EventStateView::Done(Ok(consume)),
                },
            )
        }),
{
    let delay = rt.inject_delay_ms;
    let nothing = Seq::<char>::empty();
    law_rewrite_deletes_and_inserts(delete_chars, nothing, delay);
    law_rewrite_deletes_and_inserts(delete_chars, text, delay);
    law_rewrite_deletes_and_inserts(0, text, delay);
    law_host_takes_text_without_nul(text);
    let rewritten = commands + replacing(delete_chars, text, delay);
    assert(rewritten.push(CommandView::HidePanel) =~= rewritten + seq![CommandView::HidePanel]);
}

/// Typed text goes into the capture state as text that the host shows, unless it was held back.
/// Where nothing is to be done then, it reaches the host. A session that it opens belongs to the
/// input source of the key.
pub proof fn law_typed_text_is_captured(rt: RuntimeView, commands: Seq<CommandView>, input: InputView)
    requires
        !(input.key_code == KEY_SPACE && input.text == seq![' '] && rt.capture.mode
            == CaptureMode::Active && pinyin_only(rt.capture.buffer) && lettered(
            rt.capture.buffer,
        )),
    ensures
        ({
            let (capture, action) = rt.capture.typed_text(input.text, !input.replayed);
            let opened = rt.capture.mode == CaptureMode::Idle && capture.mode
                == CaptureMode::Active;
            let next = RuntimeView {
                capture,
                session_input_source: if opened {
                    Some(input.input_source)
                } else {
                    rt.session_input_source
                },
                ..rt
            };
            &&& action is None ==> rt.types(commands, input).0 == next
            &&& action is None && capture.mode == CaptureMode::Idle ==> rt.types(commands, input).1
                == (ReactionView { commands, state: EventStateView::Done(Ok(false)) })
            &&& action is None && capture.mode == CaptureMode::Active ==> rt.types(
                commands,
                input,
            ).1 == next.refreshes(
                commands,
                EndingView { occasion: None, result: Ok(false), abort: false },
            )
            &&& action matches Some(a) ==> rt.types(commands, input) == next.acts(
                commands + seq![CommandView::BeginRewrite],
                a,
                false,
                RecoveryView {
                    capture: rt.capture,
                    quote_state: rt.quote_state,
                    session_input_source: rt.session_input_source,
                    text: input.text,
                    visible: !input.replayed,
                },
            )
        }),
{
    reveal_strlit(" ");
    assert(" "@ =~= seq![' ']);
    crate::capture_laws::law_pending_pinyin_is_the_buffer(rt.capture);
    assert(commands.push(CommandView::BeginRewrite) =~= commands + seq![
        CommandView::BeginRewrite,
    ]);
}

/// The space bar after pinyin is kept from the host: it is captured as text that the host does
/// not show. What it calls for is done, and the key is brought back where that fails.
pub proof fn law_space_after_pinyin_is_kept(
    rt: RuntimeView,
    commands: Seq<CommandView>,
    input: InputView,
)
    requires
        input.key_code == KEY_SPACE,
        input.text == seq![' '],
        rt.capture.mode == CaptureMode::Active,
        pinyin_only(rt.capture.buffer),
        lettered(rt.capture.buffer),
    ensures
        ({
            let (capture, action) = rt.capture.typed_text(input.text, false);
            action matches Some(a) ==> rt.types(commands, input) == (RuntimeView {
                capture,
                ..rt
            }).acts(
                commands + seq![CommandView::BeginRewrite],
                a,
                true,
                RecoveryView {
                    capture: rt.capture,
                    quote_state: rt.quote_state,
                    session_input_source: rt.session_input_source,
                    text: input.text,
                    visible: true,
                },
            )
        }),
{
    reveal_strlit(" ");
    assert(" "@ =~= seq![' ']);
    crate::capture_laws::law_pending_pinyin_is_the_buffer(rt.capture);
    assert(commands.push(CommandView::BeginRewrite) =~= commands + seq![
        CommandView::BeginRewrite,
    ]);
}

/// Pending pinyin is committed by putting the replacement in its place, and the key is kept from
/// the host. It leaves the buffer and counts as produced; where the commit can be undone and
/// changes the text, it is undone to the pinyin.
pub proof fn law_pending_pinyin_is_committed(
    rt: RuntimeView,
    commands: Seq<CommandView>,
    replacement: Seq<char>,
    reversible: bool,
    input: InputView,
)
    requires
        rt.capture.mode == CaptureMode::Active,
        pinyin_only(rt.capture.buffer),
        lettered(rt.capture.buffer),
        !replacement.contains('\0'),
        rt.capture.committed_output_chars + replacement.len() <= usize::MAX,
    ensures
        ({
            let c = rt.capture;
            let (next, reaction) = rt.commits_pending(commands, replacement, reversible, input);
            &&& next == (RuntimeView {
                capture: CaptureView {
                    buffer: seq![],
                    visible: seq![],
                    candidate_page: 0,
                    committed_output_chars: (c.committed_output_chars
                        + replacement.len()) as usize,
                    last_conversion: if reversible && replacement != c.buffer {
                        Some(
                            ReversibleView {
                                original_text: c.buffer,
                                inserted_text: replacement,
                                quote_state_before: rt.quote_state,
                            },
                        )
                    } else {
                        None
                    },
                    ..c
                },
                ..rt
            })
            &&& reaction == next.refreshes(
                commands + replacing(
                    flags_set(c.visible) as usize,
                    replacement,
                    rt.inject_delay_ms,
                ),
                EndingView {
                    occasion: Some(
                        if reversible {
                            Occasion::English
                        } else {
                            Occasion::Literal
                        },
                    ),
                    result: Ok(true),
                    abort: false,
                },
            )
        }),
{
    let c = rt.capture;
    crate::capture_laws::law_pending_pinyin_is_the_buffer(c);
    law_pending_pinyin_is_replaced(c, replacement);
    law_rewrite_deletes_and_inserts(flags_set(c.visible) as usize, replacement, rt.inject_delay_ms);
    law_host_takes_text_without_nul(replacement);
    law_output_is_counted(c.pending_taken(), c.buffer, replacement, rt.quote_state);
}

/// A candidate for all of the pending pinyin is put in its place, counts as produced, and is
/// undone to the pinyin.
pub proof fn law_complete_candidate_is_committed(
    rt: RuntimeView,
    commands: Seq<CommandView>,
    text: Seq<char>,
    occasion: Occasion,
    input: InputView,
)
    requires
        rt.capture.mode == CaptureMode::Active,
        pinyin_only(rt.capture.buffer),
        lettered(rt.capture.buffer),
        text.len() > 0,
        text != rt.capture.buffer,
        !text.contains('\0'),
        rt.capture.committed_output_chars + text.len() <= usize::MAX,
    ensures
        ({
            let c = rt.capture;
            let outcome = OutcomeView::Selected(SelectionView::Complete { text });
            let (next, reaction) = rt.chosen(commands, Ok(outcome), occasion, input);
            &&& next == (RuntimeView {
                capture: CaptureView {
                    buffer: seq![],
                    visible: seq![],
                    candidate_page: 0,
                    committed_output_chars: (c.committed_output_chars + text.len()) as usize,
                    last_conversion: Some(
                        ReversibleView {
                            original_text: c.buffer,
                            inserted_text: text,
                            quote_state_before: rt.quote_state,
                        },
                    ),
                    ..c
                },
                ..rt
            })
            &&& reaction == next.refreshes(
                commands + replacing(flags_set(c.visible) as usize, text, rt.inject_delay_ms),
                EndingView { occasion: Some(occasion), result: Ok(true), abort: false },
            )
        }),
{
    let c = rt.capture;
    crate::capture_laws::law_pending_pinyin_is_the_buffer(c);
    law_complete_candidate_takes_the_pinyins_place(c, text);
    law_rewrite_deletes_and_inserts(flags_set(c.visible) as usize, text, rt.inject_delay_ms);
    law_host_takes_text_without_nul(text);
    let taken = c.candidate_taken(SelectionView::Complete { text });
    law_output_is_counted(taken, c.buffer, text, rt.quote_state);
}

/// A candidate for a first part of the pending pinyin is put in its place before the rest, which
/// stays pending and shown. Only the candidate counts as produced, and there is nothing to undo.
pub proof fn law_partial_candidate_is_committed(
    rt: RuntimeView,
    commands: Seq<CommandView>,
    selected: Seq<char>,
    part: Seq<char>,
    rest: Seq<char>,
    occasion: Occasion,
    input: InputView,
)
    requires
        rt.capture.mode == CaptureMode::Active,
        pinyin_only(rt.capture.buffer),
        lettered(rt.capture.buffer),
        rt.capture.buffer == part + rest,
        part.len() > 0,
        lettered(rest),
        selected.len() > 0,
        !(selected + rest).contains('\0'),
        rt.capture.committed_output_chars + selected.len() <= usize::MAX,
    ensures
        ({
            let c = rt.capture;
            let outcome = OutcomeView::Selected(
                SelectionView::Partial { selected_text: selected, remaining_pinyin: rest },
            );
            let (next, reaction) = rt.chosen(commands, Ok(outcome), occasion, input);
            &&& next == (RuntimeView {
                capture: CaptureView {
                    buffer: rest,
                    visible: Seq::new(rest.len(), |i: int| true),
                    candidate_page: 0,
                    committed_output_chars: (c.committed_output_chars + selected.len()) as usize,
                    last_conversion: None,
                    ..c
                },
                ..rt
            })
            &&& reaction == next.refreshes(
                commands + replacing(
                    flags_set(c.visible) as usize,
                    selected + rest,
                    rt.inject_delay_ms,
                ),
                EndingView { occasion: Some(occasion), result: Ok(true), abort: false },
            )
        }),
{
    let c = rt.capture;
    let selection = SelectionView::Partial { selected_text: selected, remaining_pinyin: rest };
    crate::capture_laws::law_pending_pinyin_is_the_buffer(c);
    law_partial_candidate_leaves_the_rest(c, selected, part, rest);
    law_rewrite_deletes_and_inserts(
        flags_set(c.visible) as usize,
        selected + rest,
        rt.inject_delay_ms,
    );
    law_host_takes_text_without_nul(selected + rest);
    let taken = c.candidate_taken(selection);
    law_output_is_counted(taken, c.buffer, selected, rt.quote_state);
    assert(rt.chosen(commands, Ok(OutcomeView::Selected(selection)), occasion, input)
        == rt.commits_candidate(commands, selection, occasion, input));
}

/// Where nothing was selected, or the selection failed, the key is typed.
pub proof fn law_key_without_selection_is_typed(
    rt: RuntimeView,
    commands: Seq<CommandView>,
    error: EngineErrorView,
    occasion: Occasion,
    input: InputView,
)
    ensures
        rt.chosen(commands, Ok(OutcomeView::Nothing), occasion, input) == rt.types(commands, input),
        rt.chosen(commands, Err(error), occasion, input) == rt.types(
            commands + seq![
                CommandView::Report {
                    trouble: Trouble::Selection,
                    failure: FailureView::Engine(error),
                },
            ],
            input,
        ),
        rt.turned(commands, Err(error), input) == rt.types(
            commands + seq![
                CommandView::Report {
                    trouble: Trouble::Page,
                    failure: FailureView::Engine(error),
                },
            ],
            input,
        ),
{
    let failure = FailureView::Engine(error);
    let selection = CommandView::Report { trouble: Trouble::Selection, failure };
    let page = CommandView::Report { trouble: Trouble::Page, failure };
    assert(commands.push(selection) =~= commands + seq![selection]);
    assert(commands.push(page) =~= commands + seq![page]);
}

// Backspace and the other keys.

/// Backspace after a conversion undoes it: what the host still shows of the output is replaced
/// by the original, and the quotes are those of before.
pub proof fn law_backspace_undoes_the_conversion(rt: RuntimeView, replayed: bool)
    requires
        rt.capture.mode == CaptureMode::Active,
        rt.capture.wf(),
        rt.capture.last_conversion is Some,
        !rt.capture.last_conversion->0.original_text.contains('\0'),
        rt.capture.last_conversion->0.inserted_text.len() <= usize::MAX,
    ensures
        ({
            let undone = rt.capture.last_conversion->0;
            let output = undone.inserted_text.len();
            let (next, reaction) = rt.backspaces(replayed);
            &&& next == (RuntimeView {
                capture: rt.capture.restored(),
                quote_state: undone.quote_state_before,
                ..rt
            })
            &&& next.capture.buffer == undone.original_text
            &&& reaction == next.refreshes(
                replacing(
                    if output > 0 && !replayed {
                        (output - 1) as usize
                    } else {
                        output as usize
                    },
                    undone.original_text,
                    rt.inject_delay_ms,
                ),
                EndingView {
                    occasion: Some(Occasion::Restore),
                    result: Ok(output == 0),
                    abort: false,
                },
            )
        }),
{
    let undone = rt.capture.last_conversion->0;
    let output = undone.inserted_text.len();
    crate::capture_laws::law_backspace_is_kept_for_what_is_hidden(rt.capture);
    crate::capture_laws::law_undoing_puts_the_original_back(rt.capture, output > 0 && !replayed);
    law_host_takes_text_without_nul(undone.original_text);
    law_rewrite_deletes_and_inserts(
        if output > 0 && !replayed {
            (output - 1) as usize
        } else {
            output as usize
        },
        undone.original_text,
        rt.inject_delay_ms,
    );
}

/// Any other Backspace takes away one character; it is kept from the host where the host does
/// not show it, and passed on by a rewrite where it was held back. Leaving the session hides the
/// panel and forgets the quotes and the input source.
pub proof fn law_backspace_takes_one_character(rt: RuntimeView, replayed: bool)
    requires
        rt.capture.last_conversion is None,
    ensures
        ({
            let kept = rt.capture.consumes_backspace();
            let capture = rt.capture.backspaced();
            let left = rt.capture.mode == CaptureMode::Active && capture.mode == CaptureMode::Idle;
            let (next, reaction) = rt.backspaces(replayed);
            let commands = if replayed && rt.capture.backspace_reaches_host() {
                replacing(1, seq![], rt.inject_delay_ms)
            } else {
                seq![]
            };
            &&& next == (RuntimeView {
                capture,
                quote_state: if left {
                    QuoteState { next_is_open: false }
                } else {
                    rt.quote_state
                },
                session_input_source: if left {
                    None
                } else {
                    rt.session_input_source
                },
                ..rt
            })
            &&& capture.mode == CaptureMode::Idle ==> reaction == (ReactionView {
                commands: commands + seq![CommandView::HidePanel],
                state: EventStateView::Done(Ok(kept)),
            })
            &&& capture.mode == CaptureMode::Active ==> reaction == next.refreshes(
                commands,
                EndingView {
                    occasion: Some(Occasion::Backspace),
                    result: Ok(kept),
                    abort: false,
                },
            )
        }),
{
    law_rewrite_deletes_and_inserts(1, seq![], rt.inject_delay_ms);
    let commands = if replayed && rt.capture.backspace_reaches_host() {
        replacing(1, seq![], rt.inject_delay_ms)
    } else {
        seq![]
    };
    assert(commands.push(CommandView::HidePanel) =~= commands + seq![CommandView::HidePanel]);
    assert(Seq::<CommandView>::empty().push(CommandView::HidePanel) =~= Seq::<CommandView>::empty()
        + seq![CommandView::HidePanel]);
}

/// Everything that was collected is forgotten, with the session, its quotes and its input
/// source; the panel is hidden and the event reaches the host.
pub open spec fn forgets(rt: RuntimeView, to: (RuntimeView, ReactionView)) -> bool {
    to == (
        RuntimeView {
            capture: CaptureView {
                buffer: seq![],
                visible: seq![],
                mode: CaptureMode::Idle,
                committed_output_chars: 0,
                hidden_prefix_backspaces_remaining: 0,
                candidate_page: 0,
                last_conversion: None,
                ..rt.capture
            },
            quote_state: QuoteState { next_is_open: false },
            session_input_source: None,
            ..rt
        },
        ReactionView {
            commands: seq![CommandView::HidePanel],
            state: EventStateView::Done(Ok(false)),
        },
    )
}

/// The event reaches the host and changes nothing.
pub open spec fn passes(rt: RuntimeView, to: (RuntimeView, ReactionView)) -> bool {
    to == (rt, ReactionView { commands: seq![], state: EventStateView::Done(Ok(false)) })
}

/// Keys that move the cursor, send the line or leave the field end the session, and so do the
/// shortcuts that change or replace the text.
pub proof fn law_keys_that_leave_the_text_end_the_session(
    rt: RuntimeView,
    event: InputEvent,
    source: Seq<char>,
)
    ensures
        !event.command() && !event.control() && !event.option() && seq![
            36u32,
            76,
            53,
            123,
            124,
            125,
            126,
        ].contains(event.key_code) ==> forgets(rt, rt.pressed(event, source)),
        event.command() && (event.key_code == 48 || event.key_code == 50) ==> forgets(
            rt,
            rt.pressed(event, source),
        ),
        event.command() && (event.key_code == 0 || event.key_code == 8 || event.key_code == 9
            || event.key_code == 7 || event.key_code == 6) && !(event.control() && event.key_code
            == 13) ==> forgets(rt, rt.pressed(event, source)),
        event.control() && (event.key_code == 4 || event.key_code == 8) ==> forgets(
            rt,
            rt.pressed(event, source),
        ),
        (event.command() || event.control() || event.option()) && event.key_code == 51 ==> forgets(
            rt,
            rt.pressed(event, source),
        ),
        event.control() && event.key_code == 13 && rt.capture.buffer.len() == 0 ==> forgets(
            rt,
            rt.pressed(event, source),
        ),
{
    let keys = seq![36u32, 76, 53, 123, 124, 125, 126];
    assert(keys[0] == 36 && keys[1] == 76 && keys[2] == 53 && keys[3] == 123 && keys[4] == 124
        && keys[5] == 125 && keys[6] == 126);
}

/// Other keys with a modifier reach the host and change nothing, and so does a key without text.
pub proof fn law_other_modified_keys_pass(rt: RuntimeView, event: InputEvent, source: Seq<char>)
    ensures
        (event.command() || event.control() || event.option()) && event.key_code != 51 && !(
        event.control() && (event.key_code == 13 || event.key_code == 4 || event.key_code == 8))
            && !(event.command() && (event.key_code == 48 || event.key_code == 50 || event.key_code
            == 0 || event.key_code == 8 || event.key_code == 9 || event.key_code == 7
            || event.key_code == 6)) ==> passes(rt, rt.pressed(event, source)),
        !event.command() && !event.control() && !event.option() && event.typed().len() == 0
            && event.key_code != 51 && !seq![36u32, 76, 53, 123, 124, 125, 126].contains(
            event.key_code,
        ) ==> passes(rt, rt.pressed(event, source)),
{
    let keys = seq![36u32, 76, 53, 123, 124, 125, 126];
    assert(keys[0] == 36 && keys[1] == 76 && keys[2] == 53 && keys[3] == 123 && keys[4] == 124
        && keys[5] == 125 && keys[6] == 126);
}

/// Backspace alone goes to the capture state, and any other key with text is taken with its
/// text, its code, its source and whether it was held back.
pub proof fn law_plain_keys_are_taken(rt: RuntimeView, event: InputEvent, source: Seq<char>)
    requires
        !event.command() && !event.control() && !event.option(),
    ensures
        event.key_code == 51 ==> rt.pressed(event, source) == rt.backspaces(event.replayed()),
        event.key_code != 51 && event.typed().len() > 0 && !seq![
            36u32,
            76,
            53,
            123,
            124,
            125,
            126,
        ].contains(event.key_code) ==> rt.pressed(event, source) == rt.keyed(
            InputView {
                text: event.typed(),
                key_code: event.key_code,
                replayed: event.replayed(),
                input_source: source,
            },
        ),
{
    let keys = seq![36u32, 76, 53, 123, 124, 125, 126];
    assert(keys[0] == 36 && keys[1] == 76 && keys[2] == 53 && keys[3] == 123 && keys[4] == 124
        && keys[5] == 125 && keys[6] == 126);
}

/// Control-W takes away the last word of a buffer that has one: the event is kept from the host
/// where the host shows nothing of the word, passed on where it shows all of it, and where it
/// shows a part everything is forgotten.
pub proof fn law_control_w_takes_the_last_word(rt: RuntimeView, event: InputEvent, source: Seq<char>)
    requires
        event.control(),
        event.key_code == 13,
        rt.capture.buffer.len() > 0,
    ensures
        ({
            let to = rt.pressed(event, source);
            let capture = rt.capture.word_deleted();
            let removed = rt.capture.word_outcome().removed_chars;
            let shown = rt.capture.word_outcome().removed_visible_chars;
            let kept = shown == 0;
            &&& removed == 0 || 0 < shown < removed ==> forgets(RuntimeView { capture, ..rt }, to)
            &&& removed > 0 && (shown == 0 || shown >= removed) ==> to.0 == (RuntimeView {
                capture,
                ..rt
            })
            &&& removed > 0 && (shown == 0 || shown >= removed) && capture.mode
                == CaptureMode::Idle ==> to.1 == (ReactionView {
                commands: seq![],
                state: EventStateView::Done(Ok(kept)),
            })
            &&& removed > 0 && (shown == 0 || shown >= removed) && capture.mode
                == CaptureMode::Active ==> to.1 == to.0.refreshes(
                seq![],
                EndingView {
                    occasion: Some(Occasion::WordDeletion),
                    result: Ok(kept),
                    abort: false,
                },
            )
        }),
{
}

// Events.

/// The modifiers of an event are bits of its flags, each of its own.
pub proof fn law_modifiers_are_bits(event: InputEvent)
    ensures
        event.command() == (event.modifier_flags & 1 != 0),
        event.control() == (event.modifier_flags & 2 != 0),
        event.option() == (event.modifier_flags & 4 != 0),
        event.replayed() == (event.modifier_flags & 16 != 0),
        event.rewriting() == (event.modifier_flags & 32 != 0),
{
}

/// Only key presses, clicks and changes of context matter. A click or a change of context ends
/// the session unless a rewrite is under way, which causes such events itself.
pub proof fn law_events_matter_by_their_kind(rt: RuntimeView, event: InputEvent)
    ensures
        event.status != 1 ==> passes(rt, rt.reacts(event)),
        event.event_type != 1 && event.event_type != 2 && event.event_type != 3 ==> passes(
            rt,
            rt.reacts(event),
        ),
        event.status == 1 && (event.event_type == 2 || event.event_type == 3) ==> {
            &&& event.rewriting() ==> passes(rt, rt.reacts(event))
            &&& !event.rewriting() ==> forgets(rt, rt.reacts(event))
        },
        event.status == 1 && event.event_type == 1 && event.source().len() > 0 ==> rt.reacts(event)
            == rt.key_event(event, event.source()),
{
}

/// Keys belong to the session of their input source: those of the system's sources are taken
/// where no session is open or theirs is; any other key ends the session.
pub proof fn law_keys_belong_to_their_source(rt: RuntimeView, event: InputEvent, source: Seq<char>)
    ensures
        ({
            let active = rt.capture.mode == CaptureMode::Active;
            let ours = crate::sources::system_source(source);
            let to = rt.key_event(event, source);
            &&& ours && !active ==> to == rt.pressed(event, source)
            &&& ours && active && rt.session_input_source == Some(source) ==> to == rt.pressed(
                event,
                source,
            )
            &&& ours && active && rt.session_input_source is None ==> to == (RuntimeView {
                session_input_source: Some(source),
                ..rt
            }).pressed(event, source)
            &&& active && !ours ==> forgets(rt, to)
            &&& active && rt.session_input_source is Some && rt.session_input_source->0 != source
                ==> forgets(rt, to)
        }),
{
}

/// An answer of the engine goes to the conversation that waits for it. While the conversation
/// goes on nothing else happens, and its end leads to what the event waited for.
pub proof fn law_answers_go_to_the_conversation(rt: RuntimeView, waiting: WaitingView, reply: ReplyView)
    ensures
        ({
            let to = rt.resumes(waiting, reply);
            let none = Seq::<CommandView>::empty();
            match waiting {
                WaitingView::Refresh { lookup, ending } => match lookup.after(reply) {
                    ProgressView::Going(lookup) => to == (
                        rt,
                        ReactionView {
                            commands: none,
                            state: EventStateView::Waiting(WaitingView::Refresh { lookup, ending }),
                        },
                    ),
                    ProgressView::Done(preview) => to == (rt, rt.refreshed(none, preview, ending)),
                },
                WaitingView::Preview { lookup, interaction } => match lookup.after(reply) {
                    ProgressView::Going(lookup) => to == (
                        rt,
                        ReactionView {
                            commands: none,
                            state: EventStateView::Waiting(
                                WaitingView::Preview { lookup, interaction },
                            ),
                        },
                    ),
                    ProgressView::Done(preview) => to == rt.interacts(none, preview, interaction),
                },
                WaitingView::Page { lookup, input } => match lookup.after(reply) {
                    ProgressView::Going(lookup) => to == (
                        rt,
                        ReactionView {
                            commands: none,
                            state: EventStateView::Waiting(WaitingView::Page { lookup, input }),
                        },
                    ),
                    ProgressView::Done(page) => to == rt.turned(none, page, input),
                },
                WaitingView::Choice { choice, occasion, input } => match choice.after(reply) {
                    ProgressView::Going(choice) => to == (
                        rt,
                        ReactionView {
                            commands: none,
                            state: EventStateView::Waiting(
                                WaitingView::Choice { choice, occasion, input },
                            ),
                        },
                    ),
                    ProgressView::Done(outcome) => to == rt.chosen(none, outcome, occasion, input),
                },
                WaitingView::Conversion { conversion, pending } => match conversion.after(reply) {
                    ProgressView::Going(conversion) => to == (
                        rt,
                        ReactionView {
                            commands: none,
                            state: EventStateView::Waiting(
                                WaitingView::Conversion { conversion, pending },
                            ),
                        },
                    ),
                    ProgressView::Done(converted) => to == rt.converts(none, converted, pending),
                },
            }
        }),
{
}

// Text that the host cannot take.

/// A replacement that the host cannot take is not put there: the user is told, and the key is
/// typed. So is a key whose candidate no longer fits the pinyin.
pub proof fn law_refused_commits_type_the_key(
    rt: RuntimeView,
    commands: Seq<CommandView>,
    replacement: Seq<char>,
    reversible: bool,
    selection: SelectionView,
    occasion: Occasion,
    input: InputView,
)
    ensures
        rt.capture.pending() is Some && replacement.contains('\0') ==> (host_takes(
            replacement,
        ) matches Err(e) && rt.commits_pending(commands, replacement, reversible, input)
            == rt.types(
            commands + seq![
                CommandView::BeginRewrite,
                CommandView::AbortRewrite,
                CommandView::Report {
                    trouble: if reversible {
                        Trouble::EnglishCommit
                    } else {
                        Trouble::LiteralCommit
                    },
                    failure: FailureView::Injection(e),
                },
            ],
            input,
        )),
        rt.capture.pending() is None ==> rt.commits_pending(commands, replacement, reversible, input)
            == (rt, ReactionView { commands, state: EventStateView::Done(Ok(true)) }),
        rt.capture.candidate_action(selection) is None ==> rt.commits_candidate(
            commands,
            selection,
            occasion,
            input,
        ) == rt.types(
            commands + seq![
                CommandView::Report {
                    trouble: Trouble::CandidateCommit,
                    failure: FailureView::StaleSelection,
                },
            ],
            input,
        ),
        rt.capture.candidate_action(selection) is Some && rt.capture.candidate_action(
            selection,
        )->0.replacement_text.contains('\0') ==> (host_takes(
            rt.capture.candidate_action(selection)->0.replacement_text,
        ) matches Err(e) && rt.commits_candidate(commands, selection, occasion, input) == rt.types(
            commands + seq![
                CommandView::BeginRewrite,
                CommandView::AbortRewrite,
                CommandView::Report {
                    trouble: Trouble::CandidateCommit,
                    failure: FailureView::Injection(e),
                },
            ],
            input,
        )),
{
    law_host_takes_text_without_nul(replacement);
    law_pending_pinyin_is_replaced(rt.capture, replacement);
    law_rewrite_deletes_and_inserts(
        flags_set(rt.capture.visible) as usize,
        replacement,
        rt.inject_delay_ms,
    );
    if let Err(e) = host_takes(replacement) {
        let report = CommandView::Report {
            trouble: if reversible {
                Trouble::EnglishCommit
            } else {
                Trouble::LiteralCommit
            },
            failure: FailureView::Injection(e),
        };
        let given_up = seq![CommandView::BeginRewrite, CommandView::AbortRewrite];
        assert((commands + given_up).push(report) =~= commands + seq![
            CommandView::BeginRewrite,
            CommandView::AbortRewrite,
            report,
        ]);
    }
    let stale = CommandView::Report {
        trouble: Trouble::CandidateCommit,
        failure: FailureView::StaleSelection,
    };
    assert(commands.push(stale) =~= commands + seq![stale]);
    if let Some(action) = rt.capture.candidate_action(selection) {
        law_host_takes_text_without_nul(action.replacement_text);
        law_rewrite_deletes_and_inserts(
            action.delete_chars,
            action.replacement_text,
            rt.inject_delay_ms,
        );
        if let Err(e) = host_takes(action.replacement_text) {
            let report = CommandView::Report {
                trouble: Trouble::CandidateCommit,
                failure: FailureView::Injection(e),
            };
            let given_up = seq![CommandView::BeginRewrite, CommandView::AbortRewrite];
            assert((commands + given_up).push(report) =~= commands + seq![
                CommandView::BeginRewrite,
                CommandView::AbortRewrite,
                report,
            ]);
        }
    }
}

/// A literal or a replacement that the host cannot take goes back to what was typed.
pub proof fn law_refused_actions_go_back(
    rt: RuntimeView,
    commands: Seq<CommandView>,
    text: Seq<char>,
    delete_chars: usize,
    typed: Seq<char>,
    consume: bool,
    recovery: RecoveryView,
)
    requires
        text.contains('\0'),
    ensures
        host_takes(text) matches Err(e) && rt.acts(
            commands,
            ActionView::InsertLiteral { text },
            consume,
            recovery,
        ) == rt.recovers(
            commands + seq![CommandView::BeginRewrite, CommandView::AbortRewrite],
            FailureView::Injection(e),
            recovery,
        ) && rt.acts(
            commands,
            ActionView::EndSession { typed_text: typed, replacement_text: text, delete_chars },
            consume,
            recovery,
        ) == (RuntimeView {
            quote_state: QuoteState { next_is_open: false },
            session_input_source: None,
            ..rt
        }).recovers(
            commands + seq![CommandView::BeginRewrite, CommandView::AbortRewrite],
            FailureView::Injection(e),
            recovery,
        ),
{
    law_host_takes_text_without_nul(text);
    law_rewrite_deletes_and_inserts(0, text, rt.inject_delay_ms);
    law_rewrite_deletes_and_inserts(delete_chars, text, rt.inject_delay_ms);
}

/// Going back to text that the host cannot take fails twice, and both failures are told. The
/// state is still the one that was gone back to.
pub proof fn law_recovery_of_refused_text_fails(
    rt: RuntimeView,
    commands: Seq<CommandView>,
    failure: FailureView,
    recovery: RecoveryView,
)
    requires
        recovery.capture.collected(recovery.text, recovery.visible).buffer.contains('\0'),
    ensures
        ({
            let capture = recovery.capture.collected(recovery.text, recovery.visible);
            &&& host_takes(capture.buffer) matches Err(e)
            &&& rt.recovers(commands, failure, recovery) == (
                RuntimeView {
                    capture,
                    quote_state: recovery.quote_state,
                    session_input_source: recovery.session_input_source,
                    ..rt
                },
                ReactionView {
                    commands: commands + seq![
                        CommandView::BeginRewrite,
                        CommandView::AbortRewrite,
                        CommandView::AbortRewrite,
                    ],
                    state: EventStateView::Done(
                        Err(ListenerErrorView::RecoveryFailed { failure, recovery: e }),
                    ),
                },
            )
        }),
{
    let capture = recovery.capture.collected(recovery.text, recovery.visible);
    law_host_takes_text_without_nul(capture.buffer);
    crate::capture_laws::lemma_flags_set(capture.visible);
    law_rewrite_deletes_and_inserts(
        flags_set(capture.visible) as usize,
        capture.buffer,
        rt.inject_delay_ms,
    );
    let given_up = seq![CommandView::BeginRewrite, CommandView::AbortRewrite];
    assert((commands + given_up).push(CommandView::AbortRewrite) =~= commands + seq![
        CommandView::BeginRewrite,
        CommandView::AbortRewrite,
        CommandView::AbortRewrite,
    ]);
}

/// Where there is nothing to put back, the rewrite that has begun is given up, and the event
/// fails with what went wrong.
pub proof fn law_recovery_of_nothing_gives_up(
    rt: RuntimeView,
    commands: Seq<CommandView>,
    failure: FailureView,
    recovery: RecoveryView,
)
    requires
        recovery.capture.wf(),
        recovery.capture.buffer.len() == 0,
        recovery.text.len() == 0,
    ensures
        ({
            let back = RuntimeView {
                capture: CaptureView {
                    candidate_page: 0,
                    last_conversion: None,
                    ..recovery.capture
                },
                quote_state: recovery.quote_state,
                session_input_source: recovery.session_input_source,
                ..rt
            };
            rt.recovers(commands, failure, recovery) == (
                back,
                back.refreshes(
                    commands,
                    EndingView {
                        occasion: Some(Occasion::Recovery),
                        result: Err(ListenerErrorView::Failed(failure)),
                        abort: true,
                    },
                ),
            )
        }),
{
    let capture = recovery.capture.collected(recovery.text, recovery.visible);
    crate::capture_laws::lemma_flags_set(capture.visible);
}

/// Pages that the panel cannot show are told of; the page is turned all the same.
pub proof fn law_pages_that_cannot_be_shown_are_told_of(
    rt: RuntimeView,
    commands: Seq<CommandView>,
    page: PreviewView,
    interaction: InteractionView,
    error: crate::bytes::NulError,
    ending: EndingView,
    after: Occasion,
)
    requires
        preview_shown(rt.config, page) == Err::<CommandView, _>(error),
        ending == (EndingView { occasion: Some(after), result: ending.result, abort: false }),
    ensures
        rt.turned(commands, Ok(page), interaction.input) == (
            RuntimeView {
                capture: CaptureView { candidate_page: page.page_no, ..rt.capture },
                ..rt
            },
            ReactionView {
                commands: commands + seq![
                    CommandView::Report {
                        trouble: Trouble::PagePreview,
                        failure: FailureView::Panel(error),
                    },
                ],
                state: EventStateView::Done(Ok(true)),
            },
        ),
        page.candidates.len() > 0 && interaction.kind is NextPage && page.is_last_page
            ==> rt.interacts(commands, Ok(page), interaction) == (
            rt,
            ReactionView {
                commands: commands + seq![
                    CommandView::Report {
                        trouble: Trouble::Boundary,
                        failure: FailureView::Panel(error),
                    },
                ],
                state: EventStateView::Done(Ok(true)),
            },
        ),
        rt.refreshed(commands, Ok(page), ending) == (ReactionView {
            commands: commands + seq![
                CommandView::Report {
                    trouble: Trouble::Panel { after },
                    failure: FailureView::Panel(error),
                },
            ],
            state: EventStateView::Done(ending.result),
        }),
{
    let failure = FailureView::Panel(error);
    let shown = CommandView::Report { trouble: Trouble::PagePreview, failure };
    let boundary = CommandView::Report { trouble: Trouble::Boundary, failure };
    let panel = CommandView::Report { trouble: Trouble::Panel { after }, failure };
    assert(commands.push(shown) =~= commands + seq![shown]);
    assert(commands.push(boundary) =~= commands + seq![boundary]);
    assert(commands.push(panel) =~= commands + seq![panel]);
}

/// An original that the host cannot take is not put back, and the event fails.
pub proof fn law_refused_original_fails(rt: RuntimeView, replayed: bool)
    requires
        rt.capture.wf(),
        rt.capture.mode == CaptureMode::Active,
        rt.capture.last_conversion is Some,
        rt.capture.last_conversion->0.original_text.contains('\0'),
    ensures
        host_takes(rt.capture.last_conversion->0.original_text) matches Err(e) && rt.backspaces(
            replayed,
        ).1 == (ReactionView {
            commands: seq![CommandView::BeginRewrite, CommandView::AbortRewrite],
            state: EventStateView::Done(
                Err(ListenerErrorView::Failed(FailureView::Injection(e))),
            ),
        }),
{
    let original = rt.capture.last_conversion->0.original_text;
    law_host_takes_text_without_nul(original);
    let action = rt.capture.restore_action(!rt.capture.consumes_backspace() && !replayed)->0;
    law_rewrite_deletes_and_inserts(action.delete_remaining_chars, original, rt.inject_delay_ms);
}

} // verus!
