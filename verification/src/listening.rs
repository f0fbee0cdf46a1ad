//! What holds of the listener as a whole: rewrites are always settled, sessions with the engine
//! are always closed, failures are told, and keys are kept from the host only where they work on
//! pinyin.

use vstd::prelude::*;

use crate::actions::{ActionView, ConversionView, DeletePreviousWordDisposition};
use crate::bytes::host_takes;
use crate::candidate_session::{
    law_choice_ends, law_choice_ends_with_a_closed_session, law_lookup_ends,
    law_lookup_ends_with_a_closed_session, ChoiceView, LookupView,
};
use crate::candidates::{OutcomeView, PreviewView};
use crate::capture::{all_visible, count_visible, CaptureView};
use crate::chars::control_char;
use crate::config::{CandidateInteractionKey, ConfigView, ConversionMode};
use crate::conversion::{law_body_conversion_starts_with_a_session, ConvertedView};
use crate::engine::{EngineErrorView, ProgressView, ReplyView};
use crate::failures::{FailureView, ListenerErrorView, Occasion, Trouble};
use crate::listener::{
    best_effort, commit_occasion, commit_space, interaction_for, panel_shown, preview_shown, told,
    RuntimeView,
};
use crate::mac::{CommandView, InputEvent, EVENT_KEYBOARD, KEY_SPACE, KEY_W, STATUS_PRESSED};
use crate::reactions::{
    EndingView, EventStateView, InputView, InteractionView, PendingConversionView, ReactionView,
    RecoveryView, WaitingView,
};
use crate::rewrite::rewrite_commands;
use crate::rime_auto::{
    law_conversion_closes_its_sessions, law_conversion_ends_in_either_mode, AutoView, ConverterView,
};
use crate::separators::{no_quote, QuoteState};
use crate::sources::{fingerprint_or_unknown, system_source};
use crate::text::has_letter;

verus! {

/// Whether a rewrite has begun and is not settled after the commands, where `before` says
/// whether one had begun before them.
pub open spec fn unsettled(before: bool, commands: Seq<CommandView>) -> bool
    decreases commands.len(),
{
    if commands.len() == 0 {
        before
    } else {
        match commands.last() {
            CommandView::BeginRewrite => true,
            CommandView::CommitRewrite { .. } => false,
            CommandView::AbortRewrite => false,
            _ => unsettled(before, commands.drop_last()),
        }
    }
}

impl WaitingView {
    /// The event settles a rewrite when it goes on.
    pub open spec fn will_settle(self) -> bool {
        match self {
            WaitingView::Conversion { .. } => true,
            WaitingView::Refresh { ending, .. } => ending.abort,
            _ => false,
        }
    }
}

impl ReactionView {
    /// At the end of the event no rewrite is unsettled, and one that is unsettled while the
    /// event waits will be settled.
    pub open spec fn settles(self, before: bool) -> bool {
        match self.state {
            EventStateView::Done(_) => !unsettled(before, self.commands),
            EventStateView::Waiting(w) => unsettled(before, self.commands) ==> w.will_settle(),
        }
    }
}

/// A command that is no rewrite settles nothing and begins nothing.
proof fn lemma_unsettled_push(before: bool, commands: Seq<CommandView>, command: CommandView)
    ensures
        unsettled(before, commands.push(command)) == match command {
            CommandView::BeginRewrite => true,
            CommandView::CommitRewrite { .. } => false,
            CommandView::AbortRewrite => false,
            _ => unsettled(before, commands),
        },
{
    assert(commands.push(command).drop_last() =~= commands);
}

/// Telling the user of a failure settles nothing and begins nothing.
proof fn lemma_told_settles(
    before: bool,
    commands: Seq<CommandView>,
    trouble: Trouble,
    failure: FailureView,
)
    ensures
        unsettled(before, told(commands, trouble, failure)) == unsettled(before, commands),
{
    lemma_unsettled_push(before, commands, CommandView::Report { trouble, failure });
}

/// A rewrite is settled at its end.
proof fn lemma_rewrite_is_settled(
    before: bool,
    commands: Seq<CommandView>,
    delete_chars: usize,
    text: Seq<char>,
    delay_ms: i32,
)
    ensures
        !unsettled(before, commands + rewrite_commands(delete_chars, text, delay_ms)),
{
    let all = commands + rewrite_commands(delete_chars, text, delay_ms);
    assert(all.last() == rewrite_commands(delete_chars, text, delay_ms)[1]);
}

proof fn lemma_refreshed_settles(
    rt: RuntimeView,
    before: bool,
    commands: Seq<CommandView>,
    preview: Result<PreviewView, EngineErrorView>,
    ending: EndingView,
)
    requires
        unsettled(before, commands) ==> ending.abort,
    ensures
        rt.refreshed(commands, preview, ending).settles(before),
{
    if let Ok(p) = preview {
        if let Ok(command) = preview_shown(rt.config, p) {
            lemma_unsettled_push(before, commands, command);
            lemma_unsettled_push(before, commands.push(command), CommandView::AbortRewrite);
        }
    }
    assert forall|trouble: Trouble, failure: FailureView|
        {
            let said = #[trigger] told(commands, trouble, failure);
            &&& unsettled(before, said) == unsettled(before, commands)
            &&& !unsettled(before, said.push(CommandView::AbortRewrite))
        } by {
        let said = told(commands, trouble, failure);
        lemma_told_settles(before, commands, trouble, failure);
        lemma_unsettled_push(before, said, CommandView::AbortRewrite);
    }
    lemma_unsettled_push(before, commands, CommandView::AbortRewrite);
}

proof fn lemma_refreshes_settles(
    rt: RuntimeView,
    before: bool,
    commands: Seq<CommandView>,
    ending: EndingView,
)
    requires
        unsettled(before, commands) ==> ending.abort,
    ensures
        rt.refreshes(commands, ending).settles(before),
{
    let hidden = commands.push(CommandView::HidePanel);
    lemma_unsettled_push(before, commands, CommandView::HidePanel);
    lemma_unsettled_push(before, hidden, CommandView::AbortRewrite);
    match LookupView::started(
        rt.schema,
        rt.capture.preview_body(),
        rt.config.candidate_count,
        rt.capture.candidate_page,
    ) {
        ProgressView::Done(preview) => lemma_refreshed_settles(
            rt,
            before,
            commands,
            preview,
            ending,
        ),
        _ => {},
    }
}

proof fn lemma_recovers_settles(
    rt: RuntimeView,
    before: bool,
    commands: Seq<CommandView>,
    failure: FailureView,
    recovery: RecoveryView,
)
    ensures
        rt.recovers(commands, failure, recovery).1.settles(before),
{
    let capture = recovery.capture.collected(recovery.text, recovery.visible);
    let delete_chars = count_visible(capture.visible) as usize;
    let back = RuntimeView {
        capture,
        quote_state: recovery.quote_state,
        session_input_source: recovery.session_input_source,
        ..rt
    };
    let shown = RuntimeView {
        capture: CaptureView { visible: all_visible(capture.buffer.len()), ..capture },
        ..back
    };
    let error = Err(ListenerErrorView::Failed(failure));
    let rewritten = commands + rewrite_commands(delete_chars, capture.buffer, rt.inject_delay_ms);
    lemma_rewrite_is_settled(before, commands, delete_chars, capture.buffer, rt.inject_delay_ms);
    lemma_unsettled_push(before, rewritten, CommandView::AbortRewrite);
    lemma_refreshes_settles(shown, before, rewritten, best_effort(Occasion::Recovery, error));
    lemma_refreshes_settles(
        back,
        before,
        commands,
        EndingView { occasion: Some(Occasion::Recovery), result: error, abort: true },
    );
}

proof fn lemma_converts_settles(
    rt: RuntimeView,
    before: bool,
    commands: Seq<CommandView>,
    converted: Result<ConvertedView, EngineErrorView>,
    pending: PendingConversionView,
)
    ensures
        rt.converts(commands, converted, pending).1.settles(before),
{
    match converted {
        Err(e) => lemma_recovers_settles(
            rt,
            before,
            commands,
            FailureView::Engine(e),
            pending.recovery,
        ),
        Ok(c) => {
            let output = c.output.output;
            let rewritten = commands + rewrite_commands(
                pending.delete_chars,
                output,
                rt.inject_delay_ms,
            );
            lemma_rewrite_is_settled(
                before,
                commands,
                pending.delete_chars,
                output,
                rt.inject_delay_ms,
            );
            lemma_unsettled_push(before, rewritten, CommandView::HidePanel);
            let next = RuntimeView {
                capture: rt.capture.converted(pending.restore_text, output, rt.quote_state),
                quote_state: c.quote_state,
                ..rt
            };
            let ending = best_effort(Occasion::Conversion, Ok(pending.consume));
            lemma_refreshes_settles(next, before, rewritten, ending);
            if let Err(e) = host_takes(output) {
                lemma_recovers_settles(
                    rt,
                    before,
                    rewritten,
                    FailureView::Injection(e),
                    pending.recovery,
                );
            }
        },
    }
}

proof fn lemma_acts_settles(
    rt: RuntimeView,
    before: bool,
    commands: Seq<CommandView>,
    action: ActionView,
    consume: bool,
    recovery: RecoveryView,
)
    ensures
        rt.acts(commands, action, consume, recovery).1.settles(before),
{
    let delay = rt.inject_delay_ms;
    match action {
        ActionView::StartSession { delete_chars, .. } => {
            lemma_rewrite_is_settled(before, commands, delete_chars, seq![], delay);
            lemma_refreshes_settles(
                rt,
                before,
                commands + rewrite_commands(delete_chars, seq![], delay),
                best_effort(Occasion::SessionStart, Ok(consume)),
            );
        },
        ActionView::Convert(a) => {
            lemma_recovers_settles(rt, before, commands, FailureView::NoPinyin, recovery);
            let pending = PendingConversionView {
                restore_text: a.restore_text,
                delete_chars: a.delete_chars,
                stay_active: a.stay_active,
                consume,
                recovery,
            };
            if let ProgressView::Done(converted) = ConverterView::started(
                rt.config.conversion_mode,
                rt.schema,
                a.body,
                rt.quote_state,
            ) {
                lemma_converts_settles(rt, before, commands, converted, pending);
            }
        },
        ActionView::InsertLiteral { text } => {
            let rewritten = commands + rewrite_commands(0, text, delay);
            lemma_rewrite_is_settled(before, commands, 0, text, delay);
            let ending = best_effort(Occasion::LiteralReplay, Ok(consume));
            lemma_refreshes_settles(rt, before, rewritten, ending);
            if let Err(e) = host_takes(text) {
                lemma_recovers_settles(rt, before, rewritten, FailureView::Injection(e), recovery);
            }
        },
        ActionView::EndSession { replacement_text, delete_chars, .. } => {
            let next = RuntimeView { quote_state: no_quote(), session_input_source: None, ..rt };
            let rewritten = commands + rewrite_commands(delete_chars, replacement_text, delay);
            lemma_rewrite_is_settled(before, commands, delete_chars, replacement_text, delay);
            lemma_unsettled_push(before, rewritten, CommandView::HidePanel);
            if let Err(e) = host_takes(replacement_text) {
                lemma_recovers_settles(
                    next,
                    before,
                    rewritten,
                    FailureView::Injection(e),
                    recovery,
                );
            }
        },
    }
}

proof fn lemma_types_settles(
    rt: RuntimeView,
    before: bool,
    commands: Seq<CommandView>,
    input: InputView,
)
    requires
        !unsettled(before, commands),
    ensures
        rt.types(commands, input).1.settles(before),
{
    let consume = commit_space(rt.capture, input.key_code, input.text);
    let visible = !input.replayed && !consume;
    let (capture, action) = rt.capture.typed_text(input.text, visible);
    let next = RuntimeView {
        capture,
        session_input_source: if !rt.capture.active() && capture.active() {
            Some(input.input_source)
        } else {
            rt.session_input_source
        },
        ..rt
    };
    match action {
        Some(action) => lemma_acts_settles(
            next,
            before,
            commands.push(CommandView::BeginRewrite),
            action,
            consume,
            RecoveryView {
                capture: rt.capture,
                quote_state: rt.quote_state,
                session_input_source: rt.session_input_source,
                text: input.text,
                visible: visible || consume,
            },
        ),
        None => lemma_refreshes_settles(
            next,
            before,
            commands,
            EndingView { occasion: None, result: Ok(false), abort: false },
        ),
    }
}

proof fn lemma_told_types_settles(
    rt: RuntimeView,
    before: bool,
    commands: Seq<CommandView>,
    input: InputView,
)
    requires
        !unsettled(before, commands),
    ensures
        forall|trouble: Trouble, failure: FailureView|
            rt.types(#[trigger] told(commands, trouble, failure), input).1.settles(before),
{
    assert forall|trouble: Trouble, failure: FailureView|
        rt.types(#[trigger] told(commands, trouble, failure), input).1.settles(before) by {
        lemma_told_settles(before, commands, trouble, failure);
        lemma_types_settles(rt, before, told(commands, trouble, failure), input);
    }
}

proof fn lemma_commits_pending_settles(
    rt: RuntimeView,
    before: bool,
    commands: Seq<CommandView>,
    replacement: Seq<char>,
    reversible: bool,
    input: InputView,
)
    requires
        !unsettled(before, commands),
    ensures
        rt.commits_pending(commands, replacement, reversible, input).1.settles(before),
{
    if let Some(action) = rt.capture.pending_commit(replacement) {
        let rewritten = commands + rewrite_commands(
            action.delete_chars,
            replacement,
            rt.inject_delay_ms,
        );
        lemma_rewrite_is_settled(
            before,
            commands,
            action.delete_chars,
            replacement,
            rt.inject_delay_ms,
        );
        lemma_told_types_settles(rt, before, rewritten, input);
        let next = rt.commits_pending(commands, replacement, reversible, input).0;
        let ending = best_effort(commit_occasion(reversible), Ok(true));
        lemma_refreshes_settles(next, before, rewritten, ending);
    }
}

proof fn lemma_chosen_settles(
    rt: RuntimeView,
    before: bool,
    commands: Seq<CommandView>,
    outcome: Result<OutcomeView, EngineErrorView>,
    occasion: Occasion,
    input: InputView,
)
    requires
        !unsettled(before, commands),
    ensures
        rt.chosen(commands, outcome, occasion, input).1.settles(before),
{
    lemma_types_settles(rt, before, commands, input);
    lemma_told_types_settles(rt, before, commands, input);
    if let Ok(OutcomeView::Selected(selection)) = outcome {
        if let Some(action) = rt.capture.candidate_action(selection) {
            let rewritten = commands + rewrite_commands(
                action.delete_chars,
                action.replacement_text,
                rt.inject_delay_ms,
            );
            lemma_rewrite_is_settled(
                before,
                commands,
                action.delete_chars,
                action.replacement_text,
                rt.inject_delay_ms,
            );
            lemma_told_types_settles(rt, before, rewritten, input);
            let next = rt.commits_candidate(commands, selection, occasion, input).0;
            lemma_refreshes_settles(next, before, rewritten, best_effort(occasion, Ok(true)));
        }
    }
}

proof fn lemma_shows_settles(
    rt: RuntimeView,
    before: bool,
    commands: Seq<CommandView>,
    preview: PreviewView,
    trouble: Trouble,
)
    ensures
        unsettled(before, rt.shows(commands, preview, trouble)) == unsettled(before, commands),
{
    match preview_shown(rt.config, preview) {
        Ok(command) => lemma_unsettled_push(before, commands, command),
        Err(e) => lemma_told_settles(before, commands, trouble, FailureView::Panel(e)),
    }
}

proof fn lemma_turned_settles(
    rt: RuntimeView,
    before: bool,
    commands: Seq<CommandView>,
    page: Result<PreviewView, EngineErrorView>,
    input: InputView,
)
    requires
        !unsettled(before, commands),
    ensures
        rt.turned(commands, page, input).1.settles(before),
{
    match page {
        Ok(p) => lemma_shows_settles(rt, before, commands, p, Trouble::PagePreview),
        Err(_) => lemma_told_types_settles(rt, before, commands, input),
    }
}

proof fn lemma_interacts_settles(
    rt: RuntimeView,
    before: bool,
    commands: Seq<CommandView>,
    preview: Result<PreviewView, EngineErrorView>,
    interaction: InteractionView,
)
    requires
        !unsettled(before, commands),
    ensures
        rt.interacts(commands, preview, interaction).1.settles(before),
{
    let input = interaction.input;
    let pending = interaction.pending;
    lemma_types_settles(rt, before, commands, input);
    lemma_told_types_settles(rt, before, commands, input);
    lemma_commits_pending_settles(
        rt,
        before,
        commands,
        pending.push(interaction.key),
        false,
        input,
    );
    if let Ok(current) = preview {
        lemma_shows_settles(rt, before, commands, current, Trouble::Boundary);
        match interaction.kind {
            CandidateInteractionKey::Select(index) => {
                if let ProgressView::Done(outcome) = ChoiceView::started(
                    rt.schema,
                    pending,
                    current.page_no,
                    index,
                ) {
                    let occasion = Occasion::Candidate { page_no: current.page_no, index };
                    lemma_chosen_settles(rt, before, commands, outcome, occasion, input);
                }
            },
            _ => {
                let next: usize = if current.page_no < usize::MAX {
                    (current.page_no + 1) as usize
                } else {
                    usize::MAX
                };
                let previous: usize = if current.page_no > 0 {
                    (current.page_no - 1) as usize
                } else {
                    0
                };
                let count = rt.config.candidate_count;
                if let ProgressView::Done(page) = LookupView::started(
                    rt.schema,
                    pending,
                    count,
                    next,
                ) {
                    lemma_turned_settles(rt, before, commands, page, input);
                }
                if let ProgressView::Done(page) = LookupView::started(
                    rt.schema,
                    pending,
                    count,
                    previous,
                ) {
                    lemma_turned_settles(rt, before, commands, page, input);
                }
            },
        }
    }
}

proof fn lemma_keyed_settles(rt: RuntimeView, input: InputView)
    ensures
        rt.keyed(input).1.settles(false),
{
    let none = Seq::<CommandView>::empty();
    lemma_types_settles(rt, false, none, input);
    if input.text.len() == 1 && rt.capture.pending() is Some {
        let pending = rt.capture.pending()->0;
        lemma_commits_pending_settles(rt, false, none, pending, true, input);
        if let Some(kind) = interaction_for(rt.config, input.key_code, input.text[0]) {
            let interaction = InteractionView { pending, key: input.text[0], kind, input };
            if let ProgressView::Done(preview) = LookupView::started(
                rt.schema,
                pending,
                rt.config.candidate_count,
                rt.capture.candidate_page,
            ) {
                lemma_interacts_settles(rt, false, none, preview, interaction);
            }
        }
    }
}

proof fn lemma_backspaces_settles(rt: RuntimeView, replayed: bool)
    ensures
        rt.backspaces(replayed).1.settles(false),
{
    let none = Seq::<CommandView>::empty();
    let delay = rt.inject_delay_ms;
    let consume = rt.capture.consumes_backspace();
    let next = rt.backspaces(replayed).0;
    match rt.capture.restore_action(!consume && !replayed) {
        Some(action) => {
            let rewritten = rewrite_commands(
                action.delete_remaining_chars,
                action.replacement_text,
                delay,
            );
            lemma_rewrite_is_settled(
                false,
                none,
                action.delete_remaining_chars,
                action.replacement_text,
                delay,
            );
            assert(none + rewritten =~= rewritten);
            let ending = best_effort(Occasion::Restore, Ok(consume));
            lemma_refreshes_settles(next, false, rewritten, ending);
        },
        None => {
            let deleted = rewrite_commands(1, seq![], delay);
            lemma_rewrite_is_settled(false, none, 1, seq![], delay);
            assert(none + deleted =~= deleted);
            lemma_unsettled_push(false, none, CommandView::HidePanel);
            lemma_unsettled_push(false, deleted, CommandView::HidePanel);
            let ending = best_effort(Occasion::Backspace, Ok(consume));
            lemma_refreshes_settles(next, false, deleted, ending);
            lemma_refreshes_settles(next, false, none, ending);
        },
    }
}

/// Every rewrite that an event begins is committed or given up by the end of the event.
pub proof fn law_events_settle_their_rewrites(rt: RuntimeView, event: InputEvent)
    ensures
        rt.reacts(event).1.settles(false),
{
    let none = Seq::<CommandView>::empty();
    let source = fingerprint_or_unknown(event.source());
    lemma_unsettled_push(false, none, CommandView::HidePanel);
    assert(none.push(CommandView::HidePanel) =~= seq![CommandView::HidePanel]);
    let known = RuntimeView { session_input_source: Some(source), ..rt };
    let input = InputView {
        text: event.typed(),
        key_code: event.key_code,
        replayed: event.replayed(),
        input_source: source,
    };
    lemma_keyed_settles(rt, input);
    lemma_keyed_settles(known, input);
    lemma_backspaces_settles(rt, event.replayed());
    lemma_backspaces_settles(known, event.replayed());
    let deleted = RuntimeView { capture: rt.capture.word_deleted(), ..rt };
    let known_deleted = RuntimeView { capture: rt.capture.word_deleted(), ..known };
    let result = Ok(
        rt.capture.word_outcome().disposed()
            == DeletePreviousWordDisposition::Consume,
    );
    let ending = best_effort(Occasion::WordDeletion, result);
    lemma_refreshes_settles(deleted, false, none, ending);
    lemma_refreshes_settles(known_deleted, false, none, ending);
}

/// An event that goes on after an answer of the engine settles the rewrites that it has begun.
pub proof fn law_answers_settle_rewrites(
    rt: RuntimeView,
    waiting: WaitingView,
    reply: ReplyView,
    before: bool,
)
    requires
        before ==> waiting.will_settle(),
    ensures
        rt.resumes(waiting, reply).1.settles(before),
{
    let none = Seq::<CommandView>::empty();
    match waiting {
        WaitingView::Refresh { lookup, ending } => {
            if let ProgressView::Done(preview) = lookup.after(reply) {
                lemma_refreshed_settles(rt, before, none, preview, ending);
            }
        },
        WaitingView::Preview { lookup, interaction } => {
            if let ProgressView::Done(preview) = lookup.after(reply) {
                lemma_interacts_settles(rt, before, none, preview, interaction);
            }
        },
        WaitingView::Page { lookup, input } => {
            if let ProgressView::Done(page) = lookup.after(reply) {
                lemma_turned_settles(rt, before, none, page, input);
            }
        },
        WaitingView::Choice { choice, occasion, input } => {
            if let ProgressView::Done(outcome) = choice.after(reply) {
                lemma_chosen_settles(rt, before, none, outcome, occasion, input);
            }
        },
        WaitingView::Conversion { conversion, pending } => {
            if let ProgressView::Done(converted) = conversion.after(reply) {
                lemma_converts_settles(rt, before, none, converted, pending);
            }
        },
    }
}

impl WaitingView {
    /// The event may be kept from the host in the end.
    pub open spec fn may_keep(self) -> bool {
        match self {
            WaitingView::Refresh { ending, .. } => ending.result == Ok::<bool, ListenerErrorView>(
                true,
            ),
            WaitingView::Conversion { pending, .. } => pending.consume,
            _ => true,
        }
    }
}

impl ReactionView {
    /// The event is kept from the host, or may be in the end.
    pub open spec fn may_keep(self) -> bool {
        match self.state {
            EventStateView::Done(result) => result == Ok::<bool, ListenerErrorView>(true),
            EventStateView::Waiting(w) => w.may_keep(),
        }
    }
}

/// What is typed is kept from the host only where it is a space that commits pinyin.
proof fn lemma_types_keeps_only_commit_space(
    rt: RuntimeView,
    commands: Seq<CommandView>,
    input: InputView,
)
    requires
        !commit_space(rt.capture, input.key_code, input.text),
    ensures
        !rt.types(commands, input).1.may_keep(),
{
}

/// A key that types text reaches the host where no pinyin is pending: keys that work on
/// candidates are ordinary keys then.
pub proof fn law_keys_pass_without_pending_pinyin(rt: RuntimeView, input: InputView)
    requires
        rt.capture.pending() is None,
    ensures
        rt.keyed(input) == rt.types(seq![], input),
        !rt.keyed(input).1.may_keep(),
{
    lemma_types_keeps_only_commit_space(rt, seq![], input);
}

/// Outside a session every key reaches the host, but for Control-W, which may take back what
/// was held back from the host.
pub proof fn law_keys_pass_outside_a_session(rt: RuntimeView, event: InputEvent)
    requires
        !rt.capture.active(),
        !(event.control() && event.key_code == KEY_W),
    ensures
        !rt.reacts(event).1.may_keep(),
{
    let source = fingerprint_or_unknown(event.source());
    let input = InputView {
        text: event.typed(),
        key_code: event.key_code,
        replayed: event.replayed(),
        input_source: source,
    };
    law_keys_pass_without_pending_pinyin(rt, input);
    let replayed = event.replayed();
    assert(!rt.capture.consumes_backspace());
    assert(!rt.backspaces(replayed).1.may_keep());
}

/// An event that the host gets while it waits, gets through in the end too.
pub proof fn law_answers_keep_nothing_more(rt: RuntimeView, waiting: WaitingView, reply: ReplyView)
    requires
        !waiting.may_keep(),
    ensures
        !rt.resumes(waiting, reply).1.may_keep(),
{
}

/// A key that works on the candidates is typed as it is, from the state as it was, where the
/// candidates, the page or the selection cannot be had, and the user is told why.
pub proof fn law_failed_lookup_types_the_key(rt: RuntimeView, waiting: WaitingView, reply: ReplyView)
    ensures
        waiting matches WaitingView::Preview { lookup, interaction } ==> (lookup.after(
            reply,
        ) matches ProgressView::Done(Err(e)) ==> rt.resumes(waiting, reply) == rt.types(
            told(seq![], Trouble::Interaction, FailureView::Engine(e)),
            interaction.input,
        )),
        waiting matches WaitingView::Page { lookup, input } ==> (lookup.after(
            reply,
        ) matches ProgressView::Done(Err(e)) ==> rt.resumes(waiting, reply) == rt.types(
            told(seq![], Trouble::Page, FailureView::Engine(e)),
            input,
        )),
        waiting matches WaitingView::Choice { choice, input, .. } ==> (choice.after(
            reply,
        ) matches ProgressView::Done(Err(e)) ==> rt.resumes(waiting, reply) == rt.types(
            told(seq![], Trouble::Selection, FailureView::Engine(e)),
            input,
        )),
{
}

/// The user learns of every failure to show the candidates: it is the event's error, or the
/// user is told of it and the event ends as it would without it.
pub proof fn law_failure_to_show_candidates_is_told(
    rt: RuntimeView,
    commands: Seq<CommandView>,
    preview: Result<PreviewView, EngineErrorView>,
    ending: EndingView,
)
    requires
        panel_shown(rt.config, preview) is Err,
    ensures
        ({
            let failure = panel_shown(rt.config, preview)->Err_0;
            let reaction = rt.refreshed(commands, preview, ending);
            match ending.occasion {
                None => reaction.state == EventStateView::Done(
                    Err(ListenerErrorView::Failed(failure)),
                ),
                Some(after) => {
                    &&& told(
                        commands,
                        Trouble::Panel { after },
                        failure,
                    ).is_prefix_of(reaction.commands)
                    &&& reaction.state == EventStateView::Done(ending.result)
                },
            }
        }),
{
}

/// The space bar selects the first candidate of the page, whatever the configuration, and the
/// configured keys keep their meaning.
pub proof fn law_space_selects_the_first_candidate(config: ConfigView, key_code: u32, key: char)
    ensures
        interaction_for(config, KEY_SPACE, ' ') == Some(CandidateInteractionKey::Select(0)),
        key_code != KEY_SPACE || key != ' ' ==> interaction_for(config, key_code, key)
            == config.interaction_key(key),
{
}

/// Keys of an input source that is not the system's reach the host, and the listener forgets
/// what it has collected.
pub proof fn law_foreign_keys_pass(rt: RuntimeView, event: InputEvent)
    requires
        event.status == STATUS_PRESSED,
        event.event_type == EVENT_KEYBOARD,
        !system_source(fingerprint_or_unknown(event.source())),
    ensures
        rt.reacts(event).0 == rt.cleared(),
        rt.reacts(event).1.state == EventStateView::Done(Ok(false)),
{
}

/// A session does not outlast a change of the input source.
pub proof fn law_source_change_ends_the_session(rt: RuntimeView, event: InputEvent)
    requires
        event.status == STATUS_PRESSED,
        event.event_type == EVENT_KEYBOARD,
        rt.capture.active(),
        rt.session_input_source is Some,
        rt.session_input_source != Some(fingerprint_or_unknown(event.source())),
    ensures
        rt.reacts(event) == rt.clears(),
        !rt.reacts(event).0.capture.active(),
{
}

/// Events other than pressed keys always reach the host and rewrite nothing; while the
/// listener is rewriting they change nothing at all.
pub proof fn law_other_events_pass(rt: RuntimeView, event: InputEvent)
    requires
        event.status != STATUS_PRESSED || event.event_type != EVENT_KEYBOARD,
    ensures
        rt.reacts(event).1.state == EventStateView::Done(Ok(false)),
        rt.reacts(event).0 == rt || rt.reacts(event).0 == rt.cleared(),
        event.rewriting() ==> rt.reacts(event).0 == rt && rt.reacts(event).1.commands.len() == 0,
{
}

/// Pinyin without candidates is committed together with the key that asked for them, as it
/// stands; only the space bar converts it instead.
pub proof fn law_pinyin_without_candidates_is_committed_with_the_key(
    rt: RuntimeView,
    preview: PreviewView,
    interaction: InteractionView,
)
    requires
        preview.candidates.len() == 0,
        rt.capture.pending() == Some(interaction.pending),
        interaction.input.key_code != KEY_SPACE,
        host_takes(interaction.pending.push(interaction.key)) is Ok,
    ensures
        ({
            let text = interaction.pending.push(interaction.key);
            let (next, reaction) = rt.interacts(seq![], Ok(preview), interaction);
            &&& next.capture == rt.capture.pending_taken().produced(text)
            &&& next.capture.buffer.len() == 0
            &&& next.capture.last_conversion is None
            &&& rewrite_commands(
                count_visible(rt.capture.visible) as usize,
                text,
                rt.inject_delay_ms,
            ).is_prefix_of(reaction.commands)
        }),
{
    let text = interaction.pending.push(interaction.key);
    let commands = rewrite_commands(
        count_visible(rt.capture.visible) as usize,
        text,
        rt.inject_delay_ms,
    );
    let (next, reaction) = rt.interacts(seq![], Ok(preview), interaction);
    assert(Seq::<CommandView>::empty() + commands =~= commands);
    let ending = best_effort(Occasion::Literal, Ok(true));
    assert(reaction == next.refreshes(commands, ending));
    lemma_refreshes_extends(next, commands, ending);
}

/// Showing the candidates adds to the commands.
proof fn lemma_refreshes_extends(rt: RuntimeView, commands: Seq<CommandView>, ending: EndingView)
    ensures
        commands.is_prefix_of(rt.refreshes(commands, ending).commands),
{
}

/// A key that selects a candidate which the page does not have is typed as it is.
pub proof fn law_key_without_its_candidate_is_typed(
    rt: RuntimeView,
    preview: PreviewView,
    interaction: InteractionView,
)
    requires
        preview.candidates.len() > 0,
        interaction.kind matches CandidateInteractionKey::Select(index) && index
            >= preview.candidates.len(),
    ensures
        rt.interacts(seq![], Ok(preview), interaction) == rt.types(seq![], interaction.input),
{
}

/// A key that turns the page is kept, and the page that is remembered is the one that the
/// engine shows, whichever was asked for; before the first page and after the last nothing
/// changes.
pub proof fn law_pages_are_those_of_the_engine(
    rt: RuntimeView,
    current: PreviewView,
    page: PreviewView,
    target: usize,
    pending: Seq<char>,
    input: InputView,
)
    ensures
        ({
            let (next, reaction) = rt.turned(seq![], Ok(page), input);
            &&& next.capture == CaptureView { candidate_page: page.page_no, ..rt.capture }
            &&& reaction.state == EventStateView::Done(Ok(true))
        }),
        rt.turns(seq![], current, true, target, pending, input).0 == rt,
        rt.turns(seq![], current, true, target, pending, input).1.state == EventStateView::Done(
            Ok(true),
        ),
{
}

/// A rewrite that fails loses nothing that was typed: the character is collected after what
/// was there before, as far as the buffer keeps it, and the session, the quotation and the
/// input source are as they were.
pub proof fn law_failed_rewrite_keeps_what_was_typed(
    rt: RuntimeView,
    commands: Seq<CommandView>,
    failure: FailureView,
    recovery: RecoveryView,
    ch: char,
)
    requires
        recovery.capture.wf(),
        recovery.text == seq![ch],
        !control_char(ch),
        recovery.capture.buffer.len() < recovery.capture.max_buffer_chars,
    ensures
        ({
            let (next, reaction) = rt.recovers(commands, failure, recovery);
            &&& next.capture.buffer == recovery.capture.buffer.push(ch)
            &&& next.capture.active() == recovery.capture.active()
            &&& next.quote_state == recovery.quote_state
            &&& next.session_input_source == recovery.session_input_source
            &&& !reaction.may_keep()
        }),
{
    let before = CaptureView { last_conversion: None, candidate_page: 0, ..recovery.capture };
    assert(recovery.text.drop_last() =~= Seq::<char>::empty());
    assert(before.appended_text(recovery.text.drop_last(), recovery.visible) == before);
}

/// A body is converted in the configured mode: as a whole, the engine is fed all of it, within
/// one session, and run by run otherwise.
pub proof fn law_bodies_are_converted_in_the_configured_mode(
    rt: RuntimeView,
    commands: Seq<CommandView>,
    action: ConversionView,
    consume: bool,
    recovery: RecoveryView,
)
    requires
        has_letter(action.body),
    ensures
        ({
            let (next, reaction) = rt.starts_conversion(commands, action, consume, recovery);
            match rt.config.conversion_mode {
                ConversionMode::RimeAuto => {
                    &&& next == rt
                    &&& reaction.commands == commands
                    &&& reaction.state matches EventStateView::Waiting(
                        WaitingView::Conversion { conversion, pending },
                    )
                    &&& conversion == ConverterView::RimeAuto {
                        conversion: AutoView::begun(rt.schema, action.body),
                        quote_state: rt.quote_state,
                    }
                    &&& pending == PendingConversionView {
                        restore_text: action.restore_text,
                        delete_chars: action.delete_chars,
                        stay_active: action.stay_active,
                        consume,
                        recovery,
                    }
                },
                ConversionMode::Segmented => reaction.state matches EventStateView::Waiting(
                    WaitingView::Conversion { conversion, .. },
                ) ==> conversion is Segmented,
            }
        }),
{
}

/// A body that was converted as a whole gives way to what that came to, and whether a quotation
/// is open stays as it was.
pub proof fn law_body_converted_as_a_whole_is_inserted(
    rt: RuntimeView,
    conversion: AutoView,
    quote_state: QuoteState,
    pending: PendingConversionView,
    reply: ReplyView,
)
    requires
        conversion.after(reply) matches ProgressView::Done(Ok(converted)) && host_takes(
            converted.output,
        ) is Ok,
    ensures
        ({
            let output = conversion.after(reply)->Done_0->Ok_0.output;
            let waiting = WaitingView::Conversion {
                conversion: ConverterView::RimeAuto { conversion, quote_state },
                pending,
            };
            let (next, reaction) = rt.resumes(waiting, reply);
            &&& rewrite_commands(
                pending.delete_chars,
                output,
                rt.inject_delay_ms,
            ).is_prefix_of(reaction.commands)
            &&& pending.stay_active ==> next.quote_state == quote_state && next.capture
                == rt.capture.converted(pending.restore_text, output, rt.quote_state)
            &&& !pending.stay_active ==> next.capture == rt.capture && reaction.state
                == EventStateView::Done(Ok(pending.consume))
        }),
{
    let output = conversion.after(reply)->Done_0->Ok_0.output;
    let commands = rewrite_commands(pending.delete_chars, output, rt.inject_delay_ms);
    let waiting = WaitingView::Conversion {
        conversion: ConverterView::RimeAuto { conversion, quote_state },
        pending,
    };
    let next = rt.resumes(waiting, reply).0;
    assert(Seq::<CommandView>::empty() + commands =~= commands);
    let ending = best_effort(Occasion::Conversion, Ok(pending.consume));
    lemma_refreshes_extends(next, commands, ending);
}

impl WaitingView {
    /// What an event waits for, in the order in which it can come to it, the last first.
    pub open spec fn stage(self) -> int {
        match self {
            WaitingView::Preview { .. } => 4,
            WaitingView::Page { .. } => 3,
            WaitingView::Choice { .. } => 3,
            WaitingView::Conversion { .. } => 2,
            WaitingView::Refresh { .. } => 1,
        }
    }

    /// The event waits for something later than `from`, or its conversation with the engine is
    /// closer to its end.
    pub open spec fn is_closer_than(self, from: WaitingView) -> bool {
        ||| self.stage() < from.stage()
        ||| match (from, self) {
            (
                WaitingView::Refresh { lookup: a, .. },
                WaitingView::Refresh { lookup: b, .. },
            ) => b.steps_left() < a.steps_left(),
            (
                WaitingView::Preview { lookup: a, .. },
                WaitingView::Preview { lookup: b, .. },
            ) => b.steps_left() < a.steps_left(),
            (WaitingView::Page { lookup: a, .. }, WaitingView::Page { lookup: b, .. }) =>
            b.steps_left() < a.steps_left(),
            (
                WaitingView::Choice { choice: a, .. },
                WaitingView::Choice { choice: b, .. },
            ) => b.steps_left() < a.steps_left(),
            (
                WaitingView::Conversion { conversion: a, .. },
                WaitingView::Conversion { conversion: b, .. },
            ) => b.is_closer_than(a),
            _ => false,
        }
    }

    /// What the engine is fed is no longer than can be counted.
    pub open spec fn countable(self) -> bool {
        match self {
            WaitingView::Refresh { lookup, .. } => lookup.countable(),
            WaitingView::Preview { lookup, .. } => lookup.countable(),
            WaitingView::Page { lookup, .. } => lookup.countable(),
            WaitingView::Choice { choice, .. } => choice matches ChoiceView::Opening {
                opening,
                ..
            } ==> opening.normalized.len() <= usize::MAX,
            WaitingView::Conversion { conversion, .. } => conversion.countable(),
        }
    }
}

impl LookupView {
    /// What the engine is fed is no longer than can be counted.
    pub open spec fn countable(self) -> bool {
        self matches LookupView::Opening { opening, .. } ==> opening.normalized.len()
            <= usize::MAX
    }
}

impl ReactionView {
    /// Where the event waits, it waits for nothing earlier than `stage`.
    pub open spec fn waits_from(self, stage: int) -> bool {
        self.state matches EventStateView::Waiting(w) ==> w.stage() <= stage
    }
}

proof fn lemma_converts_stage(
    rt: RuntimeView,
    commands: Seq<CommandView>,
    converted: Result<ConvertedView, EngineErrorView>,
    pending: PendingConversionView,
)
    ensures
        rt.converts(commands, converted, pending).1.waits_from(1),
{
}

proof fn lemma_types_stage(rt: RuntimeView, commands: Seq<CommandView>, input: InputView)
    ensures
        rt.types(commands, input).1.waits_from(2),
{
}

proof fn lemma_told_types_stage(rt: RuntimeView, commands: Seq<CommandView>, input: InputView)
    ensures
        forall|trouble: Trouble, failure: FailureView|
            rt.types(#[trigger] told(commands, trouble, failure), input).1.waits_from(2),
{
    assert forall|trouble: Trouble, failure: FailureView|
        rt.types(#[trigger] told(commands, trouble, failure), input).1.waits_from(2) by {
        lemma_types_stage(rt, told(commands, trouble, failure), input);
    }
}

proof fn lemma_chosen_stage(
    rt: RuntimeView,
    commands: Seq<CommandView>,
    outcome: Result<OutcomeView, EngineErrorView>,
    occasion: Occasion,
    input: InputView,
)
    ensures
        rt.chosen(commands, outcome, occasion, input).1.waits_from(2),
{
    lemma_types_stage(rt, commands, input);
    lemma_told_types_stage(rt, commands, input);
    if let Ok(OutcomeView::Selected(selection)) = outcome {
        if let Some(action) = rt.capture.candidate_action(selection) {
            let rewritten = commands + rewrite_commands(
                action.delete_chars,
                action.replacement_text,
                rt.inject_delay_ms,
            );
            lemma_told_types_stage(rt, rewritten, input);
        }
    }
}

proof fn lemma_turned_stage(
    rt: RuntimeView,
    commands: Seq<CommandView>,
    page: Result<PreviewView, EngineErrorView>,
    input: InputView,
)
    ensures
        rt.turned(commands, page, input).1.waits_from(2),
{
    lemma_told_types_stage(rt, commands, input);
}

proof fn lemma_commits_pending_stage(
    rt: RuntimeView,
    commands: Seq<CommandView>,
    replacement: Seq<char>,
    reversible: bool,
    input: InputView,
)
    ensures
        rt.commits_pending(commands, replacement, reversible, input).1.waits_from(2),
{
}

proof fn lemma_interacts_stage(
    rt: RuntimeView,
    commands: Seq<CommandView>,
    preview: Result<PreviewView, EngineErrorView>,
    interaction: InteractionView,
)
    ensures
        rt.interacts(commands, preview, interaction).1.waits_from(3),
{
    let input = interaction.input;
    let pending = interaction.pending;
    lemma_types_stage(rt, commands, input);
    lemma_told_types_stage(rt, commands, input);
    lemma_commits_pending_stage(rt, commands, pending.push(interaction.key), false, input);
    if let Ok(current) = preview {
        match interaction.kind {
            CandidateInteractionKey::Select(index) => {
                if let ProgressView::Done(outcome) = ChoiceView::started(
                    rt.schema,
                    pending,
                    current.page_no,
                    index,
                ) {
                    let occasion = Occasion::Candidate { page_no: current.page_no, index };
                    lemma_chosen_stage(rt, commands, outcome, occasion, input);
                }
            },
            _ => {
                assert forall|page: Result<PreviewView, EngineErrorView>| #[trigger]
                    rt.turned(commands, page, input).1.waits_from(2) by {
                    lemma_turned_stage(rt, commands, page, input);
                }
            },
        }
    }
}

/// Every event comes to an end, whatever the engine answers: each answer ends the event, or
/// brings it on to something later, or its conversation with the engine closer to its end.
pub proof fn law_events_come_to_an_end(rt: RuntimeView, waiting: WaitingView, reply: ReplyView)
    requires
        waiting.wf(),
        waiting.countable(),
    ensures
        rt.resumes(waiting, reply).1.state matches EventStateView::Waiting(next)
            ==> next.is_closer_than(waiting),
{
    match waiting {
        WaitingView::Refresh { lookup, .. } => {
            law_lookup_ends(lookup, reply);
        },
        WaitingView::Preview { lookup, interaction } => {
            law_lookup_ends(lookup, reply);
            if let ProgressView::Done(preview) = lookup.after(reply) {
                lemma_interacts_stage(rt, seq![], preview, interaction);
            }
        },
        WaitingView::Page { lookup, input } => {
            law_lookup_ends(lookup, reply);
            if let ProgressView::Done(page) = lookup.after(reply) {
                lemma_turned_stage(rt, seq![], page, input);
            }
        },
        WaitingView::Choice { choice, occasion, input } => {
            law_choice_ends(choice, reply);
            if let ProgressView::Done(outcome) = choice.after(reply) {
                lemma_chosen_stage(rt, seq![], outcome, occasion, input);
            }
        },
        WaitingView::Conversion { conversion, pending } => {
            law_conversion_ends_in_either_mode(conversion, reply);
            if let ProgressView::Done(converted) = conversion.after(reply) {
                lemma_converts_stage(rt, seq![], converted, pending);
            }
        },
    }
}

impl ReactionView {
    /// No session is open at the end of the event. Where the event waits, it asks to open a
    /// session where none is open, and for something else where one is.
    pub open spec fn minds_session(self, open: bool) -> bool {
        match self.state {
            EventStateView::Done(_) => !open,
            EventStateView::Waiting(w) => open <==> w.asked() !is Open,
        }
    }
}

proof fn lemma_converts_minds_session(
    rt: RuntimeView,
    commands: Seq<CommandView>,
    converted: Result<ConvertedView, EngineErrorView>,
    pending: PendingConversionView,
)
    ensures
        rt.converts(commands, converted, pending).1.minds_session(false),
{
}

proof fn lemma_types_minds_session(rt: RuntimeView, commands: Seq<CommandView>, input: InputView)
    ensures
        rt.types(commands, input).1.minds_session(false),
{
    assert forall|body: Seq<char>, quote_state: QuoteState|
        (#[trigger] ConverterView::started(
            rt.config.conversion_mode,
            rt.schema,
            body,
            quote_state,
        )) matches ProgressView::Going(m) ==> m.asked() is Open by {
        law_body_conversion_starts_with_a_session(rt.schema, body, quote_state);
    }
    assert forall|commands: Seq<CommandView>,
        converted: Result<ConvertedView, EngineErrorView>,
        pending: PendingConversionView,
        next: RuntimeView,
    | (#[trigger] next.converts(commands, converted, pending)).1.minds_session(false) by {
        lemma_converts_minds_session(next, commands, converted, pending);
    }
}

proof fn lemma_told_types_minds_session(
    rt: RuntimeView,
    commands: Seq<CommandView>,
    input: InputView,
)
    ensures
        forall|trouble: Trouble, failure: FailureView|
            rt.types(#[trigger] told(commands, trouble, failure), input).1.minds_session(false),
{
    assert forall|trouble: Trouble, failure: FailureView|
        rt.types(#[trigger] told(commands, trouble, failure), input).1.minds_session(false) by {
        lemma_types_minds_session(rt, told(commands, trouble, failure), input);
    }
}

proof fn lemma_commits_pending_minds_session(
    rt: RuntimeView,
    commands: Seq<CommandView>,
    replacement: Seq<char>,
    reversible: bool,
    input: InputView,
)
    ensures
        rt.commits_pending(commands, replacement, reversible, input).1.minds_session(false),
{
    if let Some(action) = rt.capture.pending_commit(replacement) {
        let rewritten = commands + rewrite_commands(
            action.delete_chars,
            replacement,
            rt.inject_delay_ms,
        );
        lemma_told_types_minds_session(rt, rewritten, input);
    }
}

proof fn lemma_chosen_minds_session(
    rt: RuntimeView,
    commands: Seq<CommandView>,
    outcome: Result<OutcomeView, EngineErrorView>,
    occasion: Occasion,
    input: InputView,
)
    ensures
        rt.chosen(commands, outcome, occasion, input).1.minds_session(false),
{
    lemma_types_minds_session(rt, commands, input);
    lemma_told_types_minds_session(rt, commands, input);
    if let Ok(OutcomeView::Selected(selection)) = outcome {
        if let Some(action) = rt.capture.candidate_action(selection) {
            let rewritten = commands + rewrite_commands(
                action.delete_chars,
                action.replacement_text,
                rt.inject_delay_ms,
            );
            lemma_told_types_minds_session(rt, rewritten, input);
        }
    }
}

proof fn lemma_turned_minds_session(
    rt: RuntimeView,
    commands: Seq<CommandView>,
    page: Result<PreviewView, EngineErrorView>,
    input: InputView,
)
    ensures
        rt.turned(commands, page, input).1.minds_session(false),
{
    lemma_told_types_minds_session(rt, commands, input);
}

proof fn lemma_interacts_minds_session(
    rt: RuntimeView,
    commands: Seq<CommandView>,
    preview: Result<PreviewView, EngineErrorView>,
    interaction: InteractionView,
)
    ensures
        rt.interacts(commands, preview, interaction).1.minds_session(false),
{
    let input = interaction.input;
    let pending = interaction.pending;
    lemma_types_minds_session(rt, commands, input);
    lemma_told_types_minds_session(rt, commands, input);
    lemma_commits_pending_minds_session(rt, commands, pending.push(interaction.key), false, input);
    if let Ok(current) = preview {
        match interaction.kind {
            CandidateInteractionKey::Select(index) => {
                if let ProgressView::Done(outcome) = ChoiceView::started(
                    rt.schema,
                    pending,
                    current.page_no,
                    index,
                ) {
                    let occasion = Occasion::Candidate { page_no: current.page_no, index };
                    lemma_chosen_minds_session(rt, commands, outcome, occasion, input);
                }
            },
            _ => {
                assert forall|page: Result<PreviewView, EngineErrorView>| #[trigger]
                    rt.turned(commands, page, input).1.minds_session(false) by {
                    lemma_turned_minds_session(rt, commands, page, input);
                }
            },
        }
    }
}

proof fn lemma_keyed_minds_session(rt: RuntimeView, input: InputView)
    ensures
        rt.keyed(input).1.minds_session(false),
{
    let none = Seq::<CommandView>::empty();
    lemma_types_minds_session(rt, none, input);
    if input.text.len() == 1 && rt.capture.pending() is Some {
        let pending = rt.capture.pending()->0;
        lemma_commits_pending_minds_session(rt, none, pending, true, input);
        if let Some(kind) = interaction_for(rt.config, input.key_code, input.text[0]) {
            let interaction = InteractionView { pending, key: input.text[0], kind, input };
            if let ProgressView::Done(preview) = LookupView::started(
                rt.schema,
                pending,
                rt.config.candidate_count,
                rt.capture.candidate_page,
            ) {
                lemma_interacts_minds_session(rt, none, preview, interaction);
            }
        }
    }
}

/// An event that needs the engine asks to open a session first.
pub proof fn law_events_start_with_a_session(rt: RuntimeView, event: InputEvent)
    ensures
        rt.reacts(event).1.minds_session(false),
{
    let source = fingerprint_or_unknown(event.source());
    let known = RuntimeView { session_input_source: Some(source), ..rt };
    let input = InputView {
        text: event.typed(),
        key_code: event.key_code,
        replayed: event.replayed(),
        input_source: source,
    };
    lemma_keyed_minds_session(rt, input);
    lemma_keyed_minds_session(known, input);
    assert(rt.backspaces(event.replayed()).1.minds_session(false));
    assert(known.backspaces(event.replayed()).1.minds_session(false));
    assert(rt.modified(event).1.minds_session(false));
    assert(known.modified(event).1.minds_session(false));
}

/// Every session is asked to close before the event ends or opens another one, whatever the
/// engine answers and however the event ends.
pub proof fn law_every_session_is_closed(rt: RuntimeView, waiting: WaitingView, reply: ReplyView)
    requires
        waiting.wf(),
        waiting.asked().answered_by(reply),
    ensures
        rt.resumes(waiting, reply).1.minds_session(waiting.asked().leaves_open(reply)),
{
    let none = Seq::<CommandView>::empty();
    match waiting {
        WaitingView::Refresh { lookup, .. } => {
            law_lookup_ends_with_a_closed_session(lookup, reply);
        },
        WaitingView::Preview { lookup, interaction } => {
            law_lookup_ends_with_a_closed_session(lookup, reply);
            if let ProgressView::Done(preview) = lookup.after(reply) {
                lemma_interacts_minds_session(rt, none, preview, interaction);
            }
        },
        WaitingView::Page { lookup, input } => {
            law_lookup_ends_with_a_closed_session(lookup, reply);
            if let ProgressView::Done(page) = lookup.after(reply) {
                lemma_turned_minds_session(rt, none, page, input);
            }
        },
        WaitingView::Choice { choice, occasion, input } => {
            law_choice_ends_with_a_closed_session(choice, reply);
            if let ProgressView::Done(outcome) = choice.after(reply) {
                lemma_chosen_minds_session(rt, none, outcome, occasion, input);
            }
        },
        WaitingView::Conversion { conversion, pending } => {
            law_conversion_closes_its_sessions(conversion, reply);
            if let ProgressView::Done(converted) = conversion.after(reply) {
                lemma_converts_minds_session(rt, none, converted, pending);
            }
        },
    }
}

} // verus!
