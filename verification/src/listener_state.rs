//! Which states the listener can be in between events, and while an event waits.

use vstd::prelude::*;

use crate::actions::ActionView;
use crate::bytes::host_takes;
use crate::candidate_session::{ChoiceView, LookupView};
use crate::candidates::{OutcomeView, PreviewView};
use crate::capture::CaptureView;
use crate::chars::control_char;
use crate::config::CandidateInteractionKey;
use crate::conversion::ConvertedView;
use crate::engine::{EngineErrorView, ProgressView, ReplyView};
use crate::failures::{FailureView, Occasion, Trouble};
use crate::listener::{commit_space, interaction_for, told, RuntimeView};
use crate::mac::{CommandView, InputEvent};
use crate::reactions::{
    EndingView, EventStateView, InputView, InteractionView, PendingConversionView, ReactionView,
    RecoveryView, WaitingView,
};
use crate::rewrite::rewrite_commands;
use crate::rime_auto::ConverterView;
use crate::separators::no_quote;
use crate::session::{law_steps_keep_the_state_sound, lemma_appended_text, Step};
use crate::sources::fingerprint_or_unknown;

verus! {

impl ActionView {
    /// A session is open once this is asked for.
    pub open spec fn in_session(self) -> bool {
        match self {
            ActionView::StartSession { .. } => true,
            ActionView::Convert(c) => c.stay_active,
            ActionView::InsertLiteral { .. } => true,
            ActionView::EndSession { .. } => false,
        }
    }
}

impl RuntimeView {
    /// The capture state is sound and has the listener's configuration.
    pub open spec fn sound_capture(self) -> bool {
        &&& self.capture.sound()
        &&& self.capture.config == self.config
        &&& self.config.trigger_prefix.len() <= usize::MAX
    }

    /// What holds between events: the capture state is sound, the input source is known of a
    /// session and of nothing else, and no quotation is open without a session.
    pub open spec fn sound(self) -> bool {
        &&& self.sound_capture()
        &&& self.capture.active() <==> self.session_input_source is Some
        &&& !self.capture.active() ==> self.quote_state == no_quote()
    }

    /// The listener in the state that a recovery goes back to.
    pub open spec fn back_to(self, recovery: RecoveryView) -> RuntimeView {
        RuntimeView {
            capture: recovery.capture,
            quote_state: recovery.quote_state,
            session_input_source: recovery.session_input_source,
            ..self
        }
    }

    /// What holds while an event waits: a key that works on candidates has pinyin to work on,
    /// and a conversion can be taken back.
    pub open spec fn fits(self, waiting: WaitingView) -> bool {
        match waiting {
            WaitingView::Refresh { .. } => self.sound(),
            WaitingView::Preview { interaction, .. } => self.sound() && self.capture.pending()
                == Some(interaction.pending),
            WaitingView::Page { .. } => self.sound() && self.capture.pending() is Some,
            WaitingView::Choice { .. } => self.sound() && self.capture.pending() is Some,
            WaitingView::Conversion { pending, .. } => {
                &&& self.sound_capture()
                &&& self.back_to(pending.recovery).sound()
                &&& self.capture.active() == pending.stay_active
                &&& pending.stay_active ==> self.sound()
            },
        }
    }

    /// The listener has the same settings as `other`.
    pub open spec fn same_settings(self, other: RuntimeView) -> bool {
        &&& self.schema == other.schema
        &&& self.config == other.config
        &&& self.inject_delay_ms == other.inject_delay_ms
    }

    /// A reaction that leads from `self` to a state in which the listener may be.
    pub open spec fn leads_well(self, to: (RuntimeView, ReactionView)) -> bool {
        &&& to.0.same_settings(self)
        &&& match to.1.state {
            EventStateView::Done(_) => to.0.sound(),
            EventStateView::Waiting(w) => to.0.fits(w),
        }
    }
}

/// Whether a session is open after a character follows from what it calls for.
proof fn lemma_typed_session(c: CaptureView, ch: char, visible: bool)
    ensures
        c.typed(ch, visible).1 matches Some(action) ==> c.typed(ch, visible).0.active()
            == action.in_session(),
        c.typed(ch, visible).1 is None ==> c.typed(ch, visible).0.mode == c.mode,
{
}

/// Whether a session is open after a text follows from what the text calls for.
proof fn lemma_typed_text_session(c: CaptureView, text: Seq<char>, visible: bool)
    ensures
        c.typed_text(text, visible).1 matches Some(action) ==> c.typed_text(
            text,
            visible,
        ).0.active() == action.in_session(),
        c.typed_text(text, visible).1 is None ==> c.typed_text(text, visible).0.mode == c.mode,
    decreases text.len(),
{
    if text.len() > 0 {
        lemma_typed_text_session(c, text.drop_last(), visible);
        let before = c.typed_text(text.drop_last(), visible).0;
        if !control_char(text.last()) {
            lemma_typed_session(before, text.last(), visible);
        }
    }
}

proof fn lemma_refreshes(rt: RuntimeView, commands: Seq<CommandView>, ending: EndingView)
    requires
        rt.sound(),
    ensures
        rt.leads_well((rt, rt.refreshes(commands, ending))),
{
}

proof fn lemma_recovers(
    rt: RuntimeView,
    commands: Seq<CommandView>,
    failure: FailureView,
    recovery: RecoveryView,
)
    requires
        rt.back_to(recovery).sound(),
    ensures
        rt.leads_well(rt.recovers(commands, failure, recovery)),
{
    let step = Step::Collect { text: recovery.text, visible: recovery.visible };
    law_steps_keep_the_state_sound(recovery.capture, step);
    lemma_appended_text(
        CaptureView { last_conversion: None, candidate_page: 0, ..recovery.capture },
        recovery.text,
        recovery.visible,
    );
    let next = rt.recovers(commands, failure, recovery).0;
    assert(next.sound());
}

proof fn lemma_converts(
    rt: RuntimeView,
    commands: Seq<CommandView>,
    converted: Result<ConvertedView, EngineErrorView>,
    pending: PendingConversionView,
)
    requires
        rt.sound_capture(),
        rt.back_to(pending.recovery).sound(),
        rt.capture.active() == pending.stay_active,
        pending.stay_active ==> rt.sound(),
    ensures
        rt.leads_well(rt.converts(commands, converted, pending)),
{
    match converted {
        Err(e) => lemma_recovers(rt, commands, FailureView::Engine(e), pending.recovery),
        Ok(c) => {
            let output = c.output.output;
            let rewritten = commands + rewrite_commands(
                pending.delete_chars,
                output,
                rt.inject_delay_ms,
            );
            if let Err(e) = host_takes(output) {
                lemma_recovers(rt, rewritten, FailureView::Injection(e), pending.recovery);
            } else if pending.stay_active {
                law_steps_keep_the_state_sound(
                    rt.capture,
                    Step::Convert {
                        original: pending.restore_text,
                        inserted: output,
                        quote_state_before: rt.quote_state,
                    },
                );
            }
        },
    }
}

proof fn lemma_acts(
    rt: RuntimeView,
    commands: Seq<CommandView>,
    action: ActionView,
    consume: bool,
    recovery: RecoveryView,
)
    requires
        rt.sound_capture(),
        rt.back_to(recovery).sound(),
        rt.capture.active() == action.in_session(),
        action.in_session() ==> rt.sound(),
    ensures
        rt.leads_well(rt.acts(commands, action, consume, recovery)),
{
    let delay = rt.inject_delay_ms;
    match action {
        ActionView::StartSession { .. } => {},
        ActionView::Convert(a) => {
            lemma_recovers(rt, commands, FailureView::NoPinyin, recovery);
            let pending = PendingConversionView {
                restore_text: a.restore_text,
                delete_chars: a.delete_chars,
                stay_active: a.stay_active,
                consume,
                recovery,
            };
            if let ProgressView::Done(converted) = ConverterView::started(
                rt.config.conversion_mode,
                rt.schema,
                a.body,
                rt.quote_state,
            ) {
                lemma_converts(rt, commands, converted, pending);
            }
        },
        ActionView::InsertLiteral { text } => {
            let rewritten = commands + rewrite_commands(0, text, delay);
            if let Err(e) = host_takes(text) {
                lemma_recovers(rt, rewritten, FailureView::Injection(e), recovery);
            }
        },
        ActionView::EndSession { replacement_text, delete_chars, .. } => {
            let next = RuntimeView { quote_state: no_quote(), session_input_source: None, ..rt };
            assert(next.back_to(recovery) == rt.back_to(recovery));
            let rewritten = commands + rewrite_commands(
                delete_chars,
                replacement_text,
                delay,
            );
            if let Err(e) = host_takes(replacement_text) {
                lemma_recovers(next, rewritten, FailureView::Injection(e), recovery);
            }
        },
    }
}

proof fn lemma_types(rt: RuntimeView, commands: Seq<CommandView>, input: InputView)
    requires
        rt.sound(),
    ensures
        rt.leads_well(rt.types(commands, input)),
{
    let consume = commit_space(rt.capture, input.key_code, input.text);
    let visible = !input.replayed && !consume;
    let (capture, action) = rt.capture.typed_text(input.text, visible);
    law_steps_keep_the_state_sound(rt.capture, Step::Type { text: input.text, visible });
    lemma_typed_text_session(rt.capture, input.text, visible);
    let next = RuntimeView {
        capture,
        session_input_source: if !rt.capture.active() && capture.active() {
            Some(input.input_source)
        } else {
            rt.session_input_source
        },
        ..rt
    };
    let recovery = RecoveryView {
        capture: rt.capture,
        quote_state: rt.quote_state,
        session_input_source: rt.session_input_source,
        text: input.text,
        visible: visible || consume,
    };
    assert(next.back_to(recovery) == rt);
    if let Some(action) = action {
        lemma_acts(
            next,
            commands.push(CommandView::BeginRewrite),
            action,
            consume,
            recovery,
        );
    }
}

proof fn lemma_told_types(rt: RuntimeView, commands: Seq<CommandView>, input: InputView)
    requires
        rt.sound(),
    ensures
        forall|trouble: Trouble, failure: FailureView|
            rt.leads_well(rt.types(#[trigger] told(commands, trouble, failure), input)),
{
    assert forall|trouble: Trouble, failure: FailureView|
        rt.leads_well(rt.types(#[trigger] told(commands, trouble, failure), input)) by {
        lemma_types(rt, told(commands, trouble, failure), input);
    }
}

proof fn lemma_commits_pending(
    rt: RuntimeView,
    commands: Seq<CommandView>,
    replacement: Seq<char>,
    reversible: bool,
    input: InputView,
)
    requires
        rt.sound(),
    ensures
        rt.leads_well(rt.commits_pending(commands, replacement, reversible, input)),
{
    if let Some(action) = rt.capture.pending_commit(replacement) {
        let rewritten = commands + rewrite_commands(
            action.delete_chars,
            replacement,
            rt.inject_delay_ms,
        );
        lemma_told_types(rt, rewritten, input);
        law_steps_keep_the_state_sound(rt.capture, Step::TakePending);
        let taken = rt.capture.pending_taken();
        law_steps_keep_the_state_sound(
            taken,
            Step::Convert {
                original: action.original_text,
                inserted: replacement,
                quote_state_before: rt.quote_state,
            },
        );
        law_steps_keep_the_state_sound(taken, Step::Produce { text: replacement });
    }
}

proof fn lemma_chosen(
    rt: RuntimeView,
    commands: Seq<CommandView>,
    outcome: Result<OutcomeView, EngineErrorView>,
    occasion: Occasion,
    input: InputView,
)
    requires
        rt.sound(),
    ensures
        rt.leads_well(rt.chosen(commands, outcome, occasion, input)),
{
    lemma_types(rt, commands, input);
    lemma_told_types(rt, commands, input);
    if let Ok(OutcomeView::Selected(selection)) = outcome {
        if let Some(action) = rt.capture.candidate_action(selection) {
            let rewritten = commands + rewrite_commands(
                action.delete_chars,
                action.replacement_text,
                rt.inject_delay_ms,
            );
            lemma_told_types(rt, rewritten, input);
            law_steps_keep_the_state_sound(rt.capture, Step::TakeCandidate { selection });
            let taken = rt.capture.candidate_taken(selection);
            law_steps_keep_the_state_sound(
                taken,
                Step::Convert {
                    original: action.original_text,
                    inserted: action.replacement_text,
                    quote_state_before: rt.quote_state,
                },
            );
            law_steps_keep_the_state_sound(taken, Step::Produce { text: action.selected_text });
        }
    }
}

proof fn lemma_turned(
    rt: RuntimeView,
    commands: Seq<CommandView>,
    page: Result<PreviewView, EngineErrorView>,
    input: InputView,
)
    requires
        rt.sound(),
        rt.capture.pending() is Some,
    ensures
        rt.leads_well(rt.turned(commands, page, input)),
{
    match page {
        Ok(p) => law_steps_keep_the_state_sound(rt.capture, Step::ShowPage { page: p.page_no }),
        Err(_) => lemma_told_types(rt, commands, input),
    }
}

proof fn lemma_interacts(
    rt: RuntimeView,
    commands: Seq<CommandView>,
    preview: Result<PreviewView, EngineErrorView>,
    interaction: InteractionView,
)
    requires
        rt.sound(),
        rt.capture.pending() == Some(interaction.pending),
    ensures
        rt.leads_well(rt.interacts(commands, preview, interaction)),
{
    let input = interaction.input;
    let pending = interaction.pending;
    lemma_types(rt, commands, input);
    lemma_told_types(rt, commands, input);
    lemma_commits_pending(rt, commands, pending.push(interaction.key), false, input);
    if let Ok(current) = preview {
        match interaction.kind {
            CandidateInteractionKey::Select(index) => {
                if let ProgressView::Done(outcome) = ChoiceView::started(
                    rt.schema,
                    pending,
                    current.page_no,
                    index,
                ) {
                    let occasion = Occasion::Candidate { page_no: current.page_no, index };
                    lemma_chosen(rt, commands, outcome, occasion, input);
                }
            },
            _ => {
                let next: usize = if current.page_no < usize::MAX {
                    (current.page_no + 1) as usize
                } else {
                    usize::MAX
                };
                let previous: usize = if current.page_no > 0 {
                    (current.page_no - 1) as usize
                } else {
                    0
                };
                let count = rt.config.candidate_count;
                if let ProgressView::Done(page) = LookupView::started(
                    rt.schema,
                    pending,
                    count,
                    next,
                ) {
                    lemma_turned(rt, commands, page, input);
                }
                if let ProgressView::Done(page) = LookupView::started(
                    rt.schema,
                    pending,
                    count,
                    previous,
                ) {
                    lemma_turned(rt, commands, page, input);
                }
            },
        }
    }
}

proof fn lemma_keyed(rt: RuntimeView, input: InputView)
    requires
        rt.sound(),
    ensures
        rt.leads_well(rt.keyed(input)),
{
    let none = Seq::<CommandView>::empty();
    lemma_types(rt, none, input);
    if input.text.len() == 1 && rt.capture.pending() is Some {
        let pending = rt.capture.pending()->0;
        lemma_commits_pending(rt, none, pending, true, input);
        if let Some(kind) = interaction_for(rt.config, input.key_code, input.text[0]) {
            let interaction = InteractionView { pending, key: input.text[0], kind, input };
            if let ProgressView::Done(preview) = LookupView::started(
                rt.schema,
                pending,
                rt.config.candidate_count,
                rt.capture.candidate_page,
            ) {
                lemma_interacts(rt, none, preview, interaction);
            }
        }
    }
}

/// The listener starts out in a state that is sound, where its trigger has no more characters
/// than can be counted.
pub proof fn law_new_listener_is_sound(rt: RuntimeView)
    requires
        rt == rt.cleared(),
        rt.capture.sound(),
        rt.capture.config == rt.config,
        rt.config.trigger_prefix.len() <= usize::MAX,
    ensures
        rt.sound(),
{
}

/// Every event leaves the listener in a sound state, or waiting in one from which it can go
/// on, and leaves its settings as they are.
pub proof fn law_events_keep_the_listener_sound(rt: RuntimeView, event: InputEvent)
    requires
        rt.sound(),
    ensures
        rt.leads_well(rt.reacts(event)),
{
    let source = fingerprint_or_unknown(event.source());
    let input = InputView {
        text: event.typed(),
        key_code: event.key_code,
        replayed: event.replayed(),
        input_source: source,
    };
    lemma_keyed(rt, input);
    law_steps_keep_the_state_sound(rt.capture, Step::Clear);
    law_steps_keep_the_state_sound(rt.capture, Step::Backspace);
    law_steps_keep_the_state_sound(rt.capture, Step::Restore);
    law_steps_keep_the_state_sound(rt.capture, Step::DeleteWord);
    law_steps_keep_the_state_sound(rt.capture.word_deleted(), Step::Clear);
    assert(rt.leads_well(rt.clears()));
    assert(rt.leads_well(rt.modified(event)));
    assert(rt.leads_well(rt.backspaces(event.replayed())));
}

/// Every answer of the engine leaves the listener in a sound state, or waiting in one from
/// which it can go on, and leaves its settings as they are.
pub proof fn law_answers_keep_the_listener_sound(
    rt: RuntimeView,
    waiting: WaitingView,
    reply: ReplyView,
)
    requires
        rt.fits(waiting),
    ensures
        rt.leads_well(rt.resumes(waiting, reply)),
{
    let none = Seq::<CommandView>::empty();
    match waiting {
        WaitingView::Refresh { .. } => {},
        WaitingView::Preview { lookup, interaction } => {
            if let ProgressView::Done(preview) = lookup.after(reply) {
                lemma_interacts(rt, none, preview, interaction);
            }
        },
        WaitingView::Page { lookup, input } => {
            if let ProgressView::Done(page) = lookup.after(reply) {
                lemma_turned(rt, none, page, input);
            }
        },
        WaitingView::Choice { choice, occasion, input } => {
            if let ProgressView::Done(outcome) = choice.after(reply) {
                lemma_chosen(rt, none, outcome, occasion, input);
            }
        },
        WaitingView::Conversion { conversion, pending } => {
            if let ProgressView::Done(converted) = conversion.after(reply) {
                lemma_converts(rt, none, converted, pending);
            }
        },
    }
}

} // verus!
