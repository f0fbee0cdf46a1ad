//! The listener: how it reacts to the events of the host.

use vstd::prelude::*;

use crate::actions::{
    text_option, ActionView, CandidateSelection, CaptureAction, ConversionAction, ConversionView,
    DeletePreviousWordDisposition, EndSessionAction, InsertLiteralAction, RestoreAction,
    RestoreView, SelectionView, StartSessionAction,
};
use crate::bytes::{host_takes, NulError};
use crate::candidate_session::{preview_candidates, select_candidate, ChoiceView, LookupView};
use crate::candidates::{outcome_result, CandidatePreview, OutcomeView, PreviewView, SelectOutcome};
use crate::capture::{all_visible, count_visible, CaptureState, CaptureView};
use crate::config::{AppConfig, CandidateInteractionKey, ConfigView};
use crate::conversion::{Conversion, ConvertedView};
use crate::engine::{
    texts, EngineError, EngineErrorView, EngineReply, Progress, ProgressView, ReplyView,
};
use crate::failures::{
    event_result, FailureView, ListenerError, ListenerErrorView, ListenerFailure, Occasion,
    Trouble,
};
use crate::mac::{
    command_result, command_views, event_input_source_fingerprint, hide_candidate_panel,
    panel_update, update_candidate_panel, CommandView, InputEvent, NativeCommand, EVENT_CONTEXT,
    EVENT_KEYBOARD, EVENT_MOUSE, KEY_A, KEY_ARROW_DOWN, KEY_ARROW_LEFT, KEY_ARROW_RIGHT,
    KEY_ARROW_UP, KEY_BACKSPACE, KEY_C, KEY_ENTER, KEY_ESCAPE, KEY_GRAVE, KEY_H, KEY_RETURN,
    KEY_SPACE, KEY_TAB, KEY_V, KEY_W, KEY_X, KEY_Z, STATUS_PRESSED,
};
use crate::reactions::{
    Ending, EndingView, EventState, InputView, Interaction, InteractionView, PendingConversion,
    PendingConversionView, Reaction, ReactionView, Recovery, RecoveryView, TextInput, Waiting,
    WaitingView,
};
use crate::rewrite::{add_command, no_commands, rewrite_commands, perform_rewrite};
use crate::rime_auto::{convert_body_in_mode, ConverterView};
use crate::separators::{no_quote, QuoteState};
use crate::sources::{fingerprint_or_unknown, input_source_is_system, system_source};
use crate::text::{char_count, from_char, has_letter, same};
use crate::tokens::ensure_body_has_pinyin;

verus! {

/// The state of the listener.
#[derive(Debug)]
pub struct ListenerRuntime {
    pub schema: String,
    pub config: AppConfig,
    pub inject_delay_ms: i32,
    pub capture: CaptureState,
    pub quote_state: QuoteState,
    /// The input source with which the session was opened.
    pub session_input_source: Option<String>,
}

/// What a [`ListenerRuntime`] holds.
#[verifier::ext_equal]
pub struct RuntimeView {
    pub schema: Seq<char>,
    pub config: ConfigView,
    pub inject_delay_ms: i32,
    pub capture: CaptureView,
    pub quote_state: QuoteState,
    pub session_input_source: Option<Seq<char>>,
}

impl View for ListenerRuntime {
    type V = RuntimeView;

    open spec fn view(&self) -> RuntimeView {
        RuntimeView {
            schema: self.schema@,
            config: self.config@,
            inject_delay_ms: self.inject_delay_ms,
            capture: self.capture@,
            quote_state: self.quote_state,
            session_input_source: text_option(self.session_input_source),
        }
    }
}

/// The label of a candidate: the key that selects it, and its text.
pub open spec fn label(key: char, candidate: Seq<char>) -> Seq<char> {
    seq![key] + ". "@ + candidate
}

/// The labels of the candidates for which there is a key.
pub open spec fn labels(keys: Seq<char>, candidates: Seq<Seq<char>>) -> Seq<Seq<char>> {
    Seq::new(
        if keys.len() < candidates.len() {
            keys.len()
        } else {
            candidates.len()
        },
        |i: int| label(keys[i], candidates[i]),
    )
}

/// The command that shows a preview.
pub open spec fn preview_shown(config: ConfigView, preview: PreviewView) -> Result<
    CommandView,
    NulError,
> {
    panel_update(
        preview.preedit,
        labels(config.candidate_select_keys, preview.candidates),
        config.candidate_layout,
    )
}

/// The command that shows the candidates that were looked up, or why they cannot be shown.
pub open spec fn panel_shown(
    config: ConfigView,
    preview: Result<PreviewView, EngineErrorView>,
) -> Result<CommandView, FailureView> {
    match preview {
        Ok(preview) => match preview_shown(config, preview) {
            Ok(command) => Ok(command),
            Err(e) => Err(FailureView::Panel(e)),
        },
        Err(e) => Err(FailureView::Engine(e)),
    }
}

/// What a key does to the candidates; the space bar selects the first one.
pub open spec fn interaction_for(config: ConfigView, key_code: u32, key: char) -> Option<
    CandidateInteractionKey,
> {
    if key_code == KEY_SPACE && key == ' ' {
        Some(CandidateInteractionKey::Select(0))
    } else {
        config.interaction_key(key)
    }
}

/// What a key does to the candidates.
pub fn candidate_interaction_for_event(config: &AppConfig, key_code: u32, key: char) -> (r: Option<
    CandidateInteractionKey,
>)
    ensures
        r == interaction_for(config@, key_code, key),
{
    if key_code == KEY_SPACE && key == ' ' {
        Some(CandidateInteractionKey::Select(0))
    } else {
        config.candidate_interaction_key(key)
    }
}

/// The key is a space that commits pending pinyin.
pub open spec fn commit_space(capture: CaptureView, key_code: u32, text: Seq<char>) -> bool {
    key_code == KEY_SPACE && text == " "@ && capture.pending() is Some
}

/// Is the key a space that commits pending pinyin?
pub fn is_pending_pinyin_commit_space(capture: &CaptureState, key_code: u32, text: &str) -> (r:
    bool)
    ensures
        r == commit_space(capture@, key_code, text@),
{
    key_code == KEY_SPACE && same(text, " ") && capture.pending_pinyin().is_some()
}

/// How an event ends where the candidates are shown as well as possible.
pub open spec fn best_effort(
    occasion: Occasion,
    result: Result<bool, ListenerErrorView>,
) -> EndingView {
    EndingView { occasion: Some(occasion), result, abort: false }
}

/// The commands, and after them the user is told of a failure.
pub open spec fn told(
    commands: Seq<CommandView>,
    trouble: Trouble,
    failure: FailureView,
) -> Seq<CommandView> {
    commands.push(CommandView::Report { trouble, failure })
}

/// The commands with which an event ends.
pub open spec fn ended(commands: Seq<CommandView>, abort: bool) -> Seq<CommandView> {
    if abort {
        commands.push(CommandView::AbortRewrite)
    } else {
        commands
    }
}

/// After what the candidates are shown where pending pinyin was committed; a commit that can be
/// undone is one of the pinyin as it stands.
pub open spec fn commit_occasion(reversible: bool) -> Occasion {
    if reversible {
        Occasion::English
    } else {
        Occasion::Literal
    }
}

/// What a failure stood in the way of where pending pinyin could not be committed.
pub open spec fn commit_trouble(reversible: bool) -> Trouble {
    if reversible {
        Trouble::EnglishCommit
    } else {
        Trouble::LiteralCommit
    }
}

impl RuntimeView {
    /// Nothing is collected, no session is open and no quotation.
    pub open spec fn cleared(self) -> RuntimeView {
        RuntimeView {
            capture: self.capture.cleared(),
            quote_state: no_quote(),
            session_input_source: None,
            ..self
        }
    }

    /// The reaction that forgets everything and lets the event through.
    pub open spec fn clears(self) -> (RuntimeView, ReactionView) {
        (self.cleared(), ReactionView::done(seq![CommandView::HidePanel], Ok(false)))
    }

    /// The reaction that does nothing and lets the event through.
    pub open spec fn ignores(self) -> (RuntimeView, ReactionView) {
        (self, ReactionView::done(seq![], Ok(false)))
    }

    /// The reaction once the candidates to show are known.
    pub open spec fn refreshed(
        self,
        commands: Seq<CommandView>,
        preview: Result<PreviewView, EngineErrorView>,
        ending: EndingView,
    ) -> ReactionView {
        match panel_shown(self.config, preview) {
            Ok(command) => ReactionView::done(
                ended(commands.push(command), ending.abort),
                ending.result,
            ),
            Err(failure) => match ending.occasion {
                None => ReactionView::done(
                    ended(commands, ending.abort),
                    Err(ListenerErrorView::Failed(failure)),
                ),
                Some(after) => ReactionView::done(
                    ended(told(commands, Trouble::Panel { after }, failure), ending.abort),
                    ending.result,
                ),
            },
        }
    }

    /// The reaction that shows the candidates of the session, and hides them where there is no
    /// session.
    pub open spec fn refreshes(self, commands: Seq<CommandView>, ending: EndingView) -> ReactionView {
        if !self.capture.active() {
            ReactionView::done(
                ended(commands.push(CommandView::HidePanel), ending.abort),
                ending.result,
            )
        } else {
            match LookupView::started(
                self.schema,
                self.capture.preview_body(),
                self.config.candidate_count,
                self.capture.candidate_page,
            ) {
                ProgressView::Going(lookup) => ReactionView::waits(
                    commands,
                    WaitingView::Refresh { lookup, ending },
                ),
                ProgressView::Done(preview) => self.refreshed(commands, preview, ending),
            }
        }
    }

    /// The reaction to a failed rewrite: what was typed is collected as it is, and the host is
    /// made to show it.
    pub open spec fn recovers(
        self,
        commands: Seq<CommandView>,
        failure: FailureView,
        recovery: RecoveryView,
    ) -> (RuntimeView, ReactionView) {
        let capture = recovery.capture.collected(recovery.text, recovery.visible);
        let back = RuntimeView {
            capture,
            quote_state: recovery.quote_state,
            session_input_source: recovery.session_input_source,
            ..self
        };
        let error = Err(ListenerErrorView::Failed(failure));
        let delete_chars = count_visible(capture.visible) as usize;
        if delete_chars == 0 && capture.buffer.len() == 0 {
            (
                back,
                back.refreshes(
                    commands,
                    EndingView {
                        occasion: Some(Occasion::Recovery),
                        result: error,
                        abort: true,
                    },
                ),
            )
        } else {
            let rewritten = commands + rewrite_commands(
                delete_chars,
                capture.buffer,
                self.inject_delay_ms,
            );
            match host_takes(capture.buffer) {
                Err(e) => (
                    back,
                    ReactionView::done(
                        rewritten.push(CommandView::AbortRewrite),
                        Err(ListenerErrorView::RecoveryFailed { failure, recovery: e }),
                    ),
                ),
                Ok(_) => {
                    let shown = RuntimeView {
                        capture: CaptureView {
                            visible: all_visible(capture.buffer.len()),
                            ..capture
                        },
                        ..back
                    };
                    (shown, shown.refreshes(rewritten, best_effort(Occasion::Recovery, error)))
                },
            }
        }
    }

    /// The reaction once a body is converted: its text is replaced by the output, and the
    /// session goes on or ends.
    pub open spec fn converts(
        self,
        commands: Seq<CommandView>,
        converted: Result<ConvertedView, EngineErrorView>,
        pending: PendingConversionView,
    ) -> (RuntimeView, ReactionView) {
        match converted {
            Err(e) => self.recovers(commands, FailureView::Engine(e), pending.recovery),
            Ok(converted) => {
                let output = converted.output.output;
                let rewritten = commands + rewrite_commands(
                    pending.delete_chars,
                    output,
                    self.inject_delay_ms,
                );
                match host_takes(output) {
                    Err(e) => self.recovers(
                        rewritten,
                        FailureView::Injection(e),
                        pending.recovery,
                    ),
                    Ok(_) => if pending.stay_active {
                        let next = RuntimeView {
                            capture: self.capture.converted(
                                pending.restore_text,
                                output,
                                self.quote_state,
                            ),
                            quote_state: converted.quote_state,
                            ..self
                        };
                        (
                            next,
                            next.refreshes(
                                rewritten,
                                best_effort(Occasion::Conversion, Ok(pending.consume)),
                            ),
                        )
                    } else {
                        let next = RuntimeView {
                            quote_state: no_quote(),
                            session_input_source: None,
                            ..self
                        };
                        (
                            next,
                            ReactionView::done(
                                rewritten.push(CommandView::HidePanel),
                                Ok(pending.consume),
                            ),
                        )
                    },
                }
            },
        }
    }

    /// The reaction that converts a body, as the conversion mode says.
    pub open spec fn starts_conversion(
        self,
        commands: Seq<CommandView>,
        action: ConversionView,
        consume: bool,
        recovery: RecoveryView,
    ) -> (RuntimeView, ReactionView) {
        if !has_letter(action.body) {
            self.recovers(commands, FailureView::NoPinyin, recovery)
        } else {
            let pending = PendingConversionView {
                restore_text: action.restore_text,
                delete_chars: action.delete_chars,
                stay_active: action.stay_active,
                consume,
                recovery,
            };
            match ConverterView::started(
                self.config.conversion_mode,
                self.schema,
                action.body,
                self.quote_state,
            ) {
                ProgressView::Going(conversion) => (
                    self,
                    ReactionView::waits(
                        commands,
                        WaitingView::Conversion { conversion, pending },
                    ),
                ),
                ProgressView::Done(converted) => self.converts(commands, converted, pending),
            }
        }
    }

    /// The reaction to what the capture state asks for after text was typed.
    pub open spec fn acts(
        self,
        commands: Seq<CommandView>,
        action: ActionView,
        consume: bool,
        recovery: RecoveryView,
    ) -> (RuntimeView, ReactionView) {
        match action {
            ActionView::StartSession { delete_chars, .. } => (
                self,
                self.refreshes(
                    commands + rewrite_commands(delete_chars, seq![], self.inject_delay_ms),
                    best_effort(Occasion::SessionStart, Ok(consume)),
                ),
            ),
            ActionView::Convert(action) => self.starts_conversion(
                commands,
                action,
                consume,
                recovery,
            ),
            ActionView::InsertLiteral { text } => {
                let rewritten = commands + rewrite_commands(0, text, self.inject_delay_ms);
                match host_takes(text) {
                    Ok(_) => (
                        self,
                        self.refreshes(
                            rewritten,
                            best_effort(Occasion::LiteralReplay, Ok(consume)),
                        ),
                    ),
                    Err(e) => self.recovers(rewritten, FailureView::Injection(e), recovery),
                }
            },
            ActionView::EndSession { replacement_text, delete_chars, .. } => {
                let next = RuntimeView {
                    quote_state: no_quote(),
                    session_input_source: None,
                    ..self
                };
                let rewritten = commands + rewrite_commands(
                    delete_chars,
                    replacement_text,
                    self.inject_delay_ms,
                );
                match host_takes(replacement_text) {
                    Ok(_) => (
                        next,
                        ReactionView::done(
                            rewritten.push(CommandView::HidePanel),
                            Ok(consume),
                        ),
                    ),
                    Err(e) => next.recovers(rewritten, FailureView::Injection(e), recovery),
                }
            },
        }
    }

    /// The reaction to text that is typed. A rewrite begins before the text is collected,
    /// where one follows from it.
    pub open spec fn types(self, commands: Seq<CommandView>, input: InputView) -> (
        RuntimeView,
        ReactionView,
    ) {
        let consume = commit_space(self.capture, input.key_code, input.text);
        let visible = !input.replayed && !consume;
        let (capture, action) = self.capture.typed_text(input.text, visible);
        let next = RuntimeView {
            capture,
            session_input_source: if !self.capture.active() && capture.active() {
                Some(input.input_source)
            } else {
                self.session_input_source
            },
            ..self
        };
        match action {
            Some(action) => next.acts(
                commands.push(CommandView::BeginRewrite),
                action,
                consume,
                RecoveryView {
                    capture: self.capture,
                    quote_state: self.quote_state,
                    session_input_source: self.session_input_source,
                    text: input.text,
                    visible: visible || consume,
                },
            ),
            None => if capture.active() {
                (
                    next,
                    next.refreshes(
                        commands,
                        EndingView { occasion: None, result: Ok(false), abort: false },
                    ),
                )
            } else {
                (next, ReactionView::done(commands, Ok(false)))
            },
        }
    }

    /// The reaction that commits the pending pinyin as `replacement`; the commit can be undone
    /// where `reversible` says so. Where the host does not take it, the key types its text.
    pub open spec fn commits_pending(
        self,
        commands: Seq<CommandView>,
        replacement: Seq<char>,
        reversible: bool,
        input: InputView,
    ) -> (RuntimeView, ReactionView) {
        match self.capture.pending_commit(replacement) {
            None => (self, ReactionView::done(commands, Ok(true))),
            Some(action) => {
                let rewritten = commands + rewrite_commands(
                    action.delete_chars,
                    replacement,
                    self.inject_delay_ms,
                );
                match host_takes(replacement) {
                    Err(e) => self.types(
                        told(rewritten, commit_trouble(reversible), FailureView::Injection(e)),
                        input,
                    ),
                    Ok(_) => {
                        let taken = self.capture.pending_taken();
                        let next = RuntimeView {
                            capture: if reversible {
                                taken.converted(
                                    action.original_text,
                                    replacement,
                                    self.quote_state,
                                )
                            } else {
                                taken.produced(replacement)
                            },
                            ..self
                        };
                        (
                            next,
                            next.refreshes(
                                rewritten,
                                best_effort(commit_occasion(reversible), Ok(true)),
                            ),
                        )
                    },
                }
            },
        }
    }

    /// The reaction that takes a selected candidate. Where it does not go with the pending
    /// pinyin, or the host does not take it, the key types its text.
    pub open spec fn commits_candidate(
        self,
        commands: Seq<CommandView>,
        selection: SelectionView,
        occasion: Occasion,
        input: InputView,
    ) -> (RuntimeView, ReactionView) {
        match self.capture.candidate_action(selection) {
            None => self.types(
                told(commands, Trouble::CandidateCommit, FailureView::StaleSelection),
                input,
            ),
            Some(action) => {
                let rewritten = commands + rewrite_commands(
                    action.delete_chars,
                    action.replacement_text,
                    self.inject_delay_ms,
                );
                match host_takes(action.replacement_text) {
                    Err(e) => self.types(
                        told(rewritten, Trouble::CandidateCommit, FailureView::Injection(e)),
                        input,
                    ),
                    Ok(_) => {
                        let taken = self.capture.candidate_taken(selection);
                        let next = RuntimeView {
                            capture: if action.remaining_pinyin is Some {
                                taken.produced(action.selected_text)
                            } else {
                                taken.converted(
                                    action.original_text,
                                    action.replacement_text,
                                    self.quote_state,
                                )
                            },
                            ..self
                        };
                        (next, next.refreshes(rewritten, best_effort(occasion, Ok(true))))
                    },
                }
            },
        }
    }

    /// The reaction once it is known what selecting a candidate came to.
    pub open spec fn chosen(
        self,
        commands: Seq<CommandView>,
        outcome: Result<OutcomeView, EngineErrorView>,
        occasion: Occasion,
        input: InputView,
    ) -> (RuntimeView, ReactionView) {
        match outcome {
            Ok(OutcomeView::Selected(selection)) => self.commits_candidate(
                commands,
                selection,
                occasion,
                input,
            ),
            Ok(OutcomeView::Nothing) => self.types(commands, input),
            Err(e) => self.types(
                told(commands, Trouble::Selection, FailureView::Engine(e)),
                input,
            ),
        }
    }

    /// The commands that show a preview; where it cannot be shown, the user is told so.
    pub open spec fn shows(
        self,
        commands: Seq<CommandView>,
        preview: PreviewView,
        trouble: Trouble,
    ) -> Seq<CommandView> {
        match preview_shown(self.config, preview) {
            Ok(command) => commands.push(command),
            Err(e) => told(commands, trouble, FailureView::Panel(e)),
        }
    }

    /// The reaction once another page of candidates is known.
    pub open spec fn turned(
        self,
        commands: Seq<CommandView>,
        page: Result<PreviewView, EngineErrorView>,
        input: InputView,
    ) -> (RuntimeView, ReactionView) {
        match page {
            Err(e) => self.types(told(commands, Trouble::Page, FailureView::Engine(e)), input),
            Ok(page) => (
                RuntimeView {
                    capture: CaptureView { candidate_page: page.page_no, ..self.capture },
                    ..self
                },
                ReactionView::done(
                    self.shows(commands, page, Trouble::PagePreview),
                    Ok(true),
                ),
            ),
        }
    }

    /// The reaction that turns from the page `current` to `target`; at the first and the last
    /// page the page stays.
    pub open spec fn turns(
        self,
        commands: Seq<CommandView>,
        current: PreviewView,
        at_end: bool,
        target: usize,
        pending: Seq<char>,
        input: InputView,
    ) -> (RuntimeView, ReactionView) {
        if at_end {
            (
                self,
                ReactionView::done(self.shows(commands, current, Trouble::Boundary), Ok(true)),
            )
        } else {
            match LookupView::started(self.schema, pending, self.config.candidate_count, target) {
                ProgressView::Going(lookup) => (
                    self,
                    ReactionView::waits(commands, WaitingView::Page { lookup, input }),
                ),
                ProgressView::Done(page) => self.turned(commands, page, input),
            }
        }
    }

    /// The reaction once the candidates that a key works on are known.
    pub open spec fn interacts(
        self,
        commands: Seq<CommandView>,
        preview: Result<PreviewView, EngineErrorView>,
        interaction: InteractionView,
    ) -> (RuntimeView, ReactionView) {
        let input = interaction.input;
        let pending = interaction.pending;
        match preview {
            Err(e) => self.types(
                told(commands, Trouble::Interaction, FailureView::Engine(e)),
                input,
            ),
            Ok(current) => if current.candidates.len() == 0 {
                if input.key_code == KEY_SPACE && interaction.key == ' ' {
                    self.types(commands, input)
                } else {
                    self.commits_pending(commands, pending.push(interaction.key), false, input)
                }
            } else {
                match interaction.kind {
                    CandidateInteractionKey::Select(index) => if index
                        >= current.candidates.len() {
                        self.types(commands, input)
                    } else {
                        let occasion = Occasion::Candidate { page_no: current.page_no, index };
                        match ChoiceView::started(
                            self.schema,
                            pending,
                            current.page_no,
                            index,
                        ) {
                            ProgressView::Going(choice) => (
                                self,
                                ReactionView::waits(
                                    commands,
                                    WaitingView::Choice { choice, occasion, input },
                                ),
                            ),
                            ProgressView::Done(outcome) => self.chosen(
                                commands,
                                outcome,
                                occasion,
                                input,
                            ),
                        }
                    },
                    CandidateInteractionKey::NextPage => self.turns(
                        commands,
                        current,
                        current.is_last_page,
                        if current.page_no < usize::MAX {
                            (current.page_no + 1) as usize
                        } else {
                            usize::MAX
                        },
                        pending,
                        input,
                    ),
                    _ => self.turns(
                        commands,
                        current,
                        current.page_no == 0,
                        if current.page_no > 0 {
                            (current.page_no - 1) as usize
                        } else {
                            0
                        },
                        pending,
                        input,
                    ),
                }
            },
        }
    }

    /// The reaction to a key that types text: it works on the candidates where it is a single
    /// character that does so and pinyin is pending, and is typed otherwise.
    pub open spec fn keyed(self, input: InputView) -> (RuntimeView, ReactionView) {
        if input.text.len() != 1 || self.capture.pending() is None {
            self.types(seq![], input)
        } else {
            let pending = self.capture.pending()->0;
            match interaction_for(self.config, input.key_code, input.text[0]) {
                None => self.types(seq![], input),
                Some(CandidateInteractionKey::EnglishCommit) => self.commits_pending(
                    seq![],
                    pending,
                    true,
                    input,
                ),
                Some(kind) => {
                    let interaction = InteractionView { pending, key: input.text[0], kind, input };
                    match LookupView::started(
                        self.schema,
                        pending,
                        self.config.candidate_count,
                        self.capture.candidate_page,
                    ) {
                        ProgressView::Going(lookup) => (
                            self,
                            ReactionView::waits(
                                seq![],
                                WaitingView::Preview { lookup, interaction },
                            ),
                        ),
                        ProgressView::Done(preview) => self.interacts(
                            seq![],
                            preview,
                            interaction,
                        ),
                    }
                },
            }
        }
    }

    /// The reaction that brings back the text of a conversion that was undone.
    pub open spec fn rewrites_back(self, action: RestoreView, consume: bool) -> (
        RuntimeView,
        ReactionView,
    ) {
        let rewritten = rewrite_commands(
            action.delete_remaining_chars,
            action.replacement_text,
            self.inject_delay_ms,
        );
        match host_takes(action.replacement_text) {
            Ok(_) => (
                self,
                self.refreshes(rewritten, best_effort(Occasion::Restore, Ok(consume))),
            ),
            Err(e) => (
                self,
                ReactionView::done(
                    rewritten,
                    Err(ListenerErrorView::Failed(FailureView::Injection(e))),
                ),
            ),
        }
    }

    /// The reaction to Backspace: the last conversion is undone, or else a character is taken
    /// away. The host is made to delete what it shows where it does not get the key itself.
    pub open spec fn backspaces(self, replayed: bool) -> (RuntimeView, ReactionView) {
        let consume = self.capture.consumes_backspace();
        match self.capture.restore_action(!consume && !replayed) {
            Some(action) => RuntimeView {
                capture: self.capture.restored(),
                quote_state: action.quote_state_before,
                ..self
            }.rewrites_back(action, consume),
            None => {
                let capture = self.capture.backspaced();
                let next = if self.capture.active() && !capture.active() {
                    RuntimeView {
                        capture,
                        quote_state: no_quote(),
                        session_input_source: None,
                        ..self
                    }
                } else {
                    RuntimeView { capture, ..self }
                };
                let commands = if replayed && self.capture.backspace_reaches_host() {
                    rewrite_commands(1, seq![], self.inject_delay_ms)
                } else {
                    seq![]
                };
                if capture.active() {
                    (
                        next,
                        next.refreshes(commands, best_effort(Occasion::Backspace, Ok(consume))),
                    )
                } else {
                    (
                        next,
                        ReactionView::done(commands.push(CommandView::HidePanel), Ok(consume)),
                    )
                }
            },
        }
    }

    /// The reaction to a key with a modifier. Control-W takes away the word before the cursor;
    /// other keys that delete, or that change the text or the cursor, make the listener forget
    /// what it has collected.
    pub open spec fn modified(self, event: InputEvent) -> (RuntimeView, ReactionView) {
        if event.control() && event.key_code == KEY_W {
            if self.capture.buffer.len() == 0 {
                self.clears()
            } else {
                let next = RuntimeView { capture: self.capture.word_deleted(), ..self };
                let disposition = self.capture.word_outcome().disposed();
                let result = Ok(disposition == DeletePreviousWordDisposition::Consume);
                if disposition == DeletePreviousWordDisposition::ClearAndPassThrough {
                    next.clears()
                } else if next.capture.active() {
                    (
                        next,
                        next.refreshes(seq![], best_effort(Occasion::WordDeletion, result)),
                    )
                } else {
                    (next, ReactionView::done(seq![], result))
                }
            }
        } else if event.key_code == KEY_BACKSPACE || (event.control() && event.key_code == KEY_H)
            || (event.control() && event.key_code == KEY_C) || (event.command() && (event.key_code
            == KEY_A || event.key_code == KEY_C || event.key_code == KEY_V || event.key_code
            == KEY_X || event.key_code == KEY_Z)) {
            self.clears()
        } else {
            self.ignores()
        }
    }

    /// The reaction to a pressed key, where `source` is the input source in use.
    pub open spec fn pressed(self, event: InputEvent, source: Seq<char>) -> (
        RuntimeView,
        ReactionView,
    ) {
        if event.command() && (event.key_code == KEY_TAB || event.key_code == KEY_GRAVE) {
            self.clears()
        } else if event.command() || event.control() || event.option() {
            self.modified(event)
        } else if event.key_code == KEY_BACKSPACE {
            self.backspaces(event.replayed())
        } else if event.key_code == KEY_ENTER || event.key_code == KEY_RETURN || event.key_code
            == KEY_ESCAPE || event.key_code == KEY_ARROW_LEFT || event.key_code == KEY_ARROW_RIGHT
            || event.key_code == KEY_ARROW_DOWN || event.key_code == KEY_ARROW_UP {
            self.clears()
        } else if event.typed().len() == 0 {
            self.ignores()
        } else {
            self.keyed(
                InputView {
                    text: event.typed(),
                    key_code: event.key_code,
                    replayed: event.replayed(),
                    input_source: source,
                },
            )
        }
    }

    /// The reaction to a key event, where `source` is the input source in use. Keys of other
    /// sources than the system's are let through, and a session does not outlast a change of
    /// the source.
    pub open spec fn key_event(self, event: InputEvent, source: Seq<char>) -> (
        RuntimeView,
        ReactionView,
    ) {
        if !system_source(source) {
            if self.capture.active() {
                self.clears()
            } else {
                (self.cleared(), ReactionView::done(seq![], Ok(false)))
            }
        } else if !self.capture.active() {
            self.pressed(event, source)
        } else {
            match self.session_input_source {
                None => RuntimeView { session_input_source: Some(source), ..self }.pressed(
                    event,
                    source,
                ),
                Some(previous) => if previous == source {
                    self.pressed(event, source)
                } else {
                    self.clears()
                },
            }
        }
    }

    /// The reaction to an event. A click, or another change of where the cursor is, makes the
    /// listener forget what it has collected, unless it is rewriting itself.
    pub open spec fn reacts(self, event: InputEvent) -> (RuntimeView, ReactionView) {
        if event.status != STATUS_PRESSED {
            self.ignores()
        } else if event.event_type == EVENT_MOUSE || event.event_type == EVENT_CONTEXT {
            if event.rewriting() {
                self.ignores()
            } else {
                self.clears()
            }
        } else if event.event_type != EVENT_KEYBOARD {
            self.ignores()
        } else {
            self.key_event(event, fingerprint_or_unknown(event.source()))
        }
    }

    /// The reaction to an answer of the engine, for an event that waits for it.
    pub open spec fn resumes(self, waiting: WaitingView, reply: ReplyView) -> (
        RuntimeView,
        ReactionView,
    ) {
        match waiting {
            WaitingView::Refresh { lookup, ending } => match lookup.after(reply) {
                ProgressView::Going(lookup) => (
                    self,
                    ReactionView::waits(seq![], WaitingView::Refresh { lookup, ending }),
                ),
                ProgressView::Done(preview) => (self, self.refreshed(seq![], preview, ending)),
            },
            WaitingView::Preview { lookup, interaction } => match lookup.after(reply) {
                ProgressView::Going(lookup) => (
                    self,
                    ReactionView::waits(seq![], WaitingView::Preview { lookup, interaction }),
                ),
                ProgressView::Done(preview) => self.interacts(seq![], preview, interaction),
            },
            WaitingView::Page { lookup, input } => match lookup.after(reply) {
                ProgressView::Going(lookup) => (
                    self,
                    ReactionView::waits(seq![], WaitingView::Page { lookup, input }),
                ),
                ProgressView::Done(page) => self.turned(seq![], page, input),
            },
            WaitingView::Choice { choice, occasion, input } => match choice.after(reply) {
                ProgressView::Going(choice) => (
                    self,
                    ReactionView::waits(seq![], WaitingView::Choice { choice, occasion, input }),
                ),
                ProgressView::Done(outcome) => self.chosen(seq![], outcome, occasion, input),
            },
            WaitingView::Conversion { conversion, pending } => match conversion.after(reply) {
                ProgressView::Going(conversion) => (
                    self,
                    ReactionView::waits(
                        seq![],
                        WaitingView::Conversion { conversion, pending },
                    ),
                ),
                ProgressView::Done(converted) => self.converts(seq![], converted, pending),
            },
        }
    }
}

/// The commands of a reaction that ends the event.
fn finish(
    commands: Vec<NativeCommand>,
    abort: bool,
    result: Result<bool, ListenerError>,
) -> (r: Reaction)
    ensures
        r@ == ReactionView::done(ended(command_views(commands@), abort), event_result(result)),
{
    let mut commands = commands;
    if abort {
        add_command(&mut commands, NativeCommand::AbortRewrite);
    }
    Reaction { commands, state: EventState::Done(result) }
}

/// How an event ends where the candidates are shown as well as possible.
fn at_best(occasion: Occasion, result: Result<bool, ListenerError>) -> (r: Ending)
    ensures
        r@ == best_effort(occasion, event_result(result)),
{
    Ending { occasion: Some(occasion), result, abort: false }
}

/// Adds the command that tells the user of a failure.
fn tell(commands: &mut Vec<NativeCommand>, trouble: Trouble, failure: ListenerFailure)
    ensures
        command_views(final(commands)@) == told(command_views(old(commands)@), trouble, failure@),
{
    add_command(commands, NativeCommand::Report { trouble, failure });
}

/// A copy of an optional string.
fn clone_text(text: &Option<String>) -> (r: Option<String>)
    ensures
        text_option(r) == text_option(*text),
{
    match text {
        Some(text) => Some(text.clone()),
        None => None,
    }
}

/// The labels of the candidates for which there is a key.
fn label_candidates(keys: &str, candidates: &[String]) -> (r: Vec<String>)
    ensures
        texts(r@) == labels(keys@, texts(candidates@)),
{
    let count = char_count(keys);
    let mut out: Vec<String> = Vec::new();
    let mut i: usize = 0;
    let ghost all = labels(keys@, texts(candidates@));
    assert(texts(out@) =~= all.take(0));
    while i < count && i < candidates.len()
        invariant
            i <= count,
            i <= candidates@.len(),
            count == keys@.len(),
            all == labels(keys@, texts(candidates@)),
            texts(out@) == all.take(i as int),
        decreases count - i,
    {
        let ghost before = out@;
        let mut text = from_char(keys.get_char(i));
        text.append(". ");
        text.append(&candidates[i]);
        assert(text@ =~= all[i as int]);
        out.push(text);
        assert(texts(out@) =~= texts(before).push(text@));
        assert(all.take(i + 1) =~= all.take(i as int).push(all[i as int]));
        i = i + 1;
    }
    assert(all.take(i as int) =~= all);
    out
}

/// The command that shows a preview.
pub fn show_candidate_preview(config: &AppConfig, preview: &CandidatePreview) -> (r: Result<
    NativeCommand,
    NulError,
>)
    ensures
        command_result(r) == preview_shown(config@, preview@),
{
    let labels = label_candidates(&config.candidate_select_keys, &preview.candidates);
    update_candidate_panel(&preview.preedit, &labels, config.candidate_layout)
}

/// What the result of looking up candidates holds.
pub open spec fn preview_result(r: Result<CandidatePreview, EngineError>) -> Result<
    PreviewView,
    EngineErrorView,
> {
    match r {
        Ok(v) => Ok(v@),
        Err(e) => Err(e@),
    }
}

/// What the result of a conversion holds.
pub open spec fn conversion_result(r: Result<Conversion, EngineError>) -> Result<
    ConvertedView,
    EngineErrorView,
> {
    match r {
        Ok(v) => Ok(v@),
        Err(e) => Err(e@),
    }
}

impl ListenerRuntime {
    /// A listener that has seen no event.
    pub fn new(schema: String, config: AppConfig, max_buffer_chars: usize, inject_delay_ms: i32) -> (r:
        Self)
        ensures
            r@.schema == schema@,
            r@.config == config@,
            r@.inject_delay_ms == inject_delay_ms,
            r@.capture.config == config@,
            r@.capture.max_buffer_chars == max_buffer_chars,
            r@.capture.wf(),
            r@ == r@.cleared(),
            r@.capture.sound(),
    {
        let capture = CaptureState::new(config.clone(), max_buffer_chars);
        ListenerRuntime {
            schema,
            config,
            inject_delay_ms,
            capture,
            quote_state: QuoteState::default(),
            session_input_source: None,
        }
    }

    /// Forgets what was collected, the session and the quotation.
    pub fn clear(&mut self)
        ensures
            final(self)@ == old(self)@.cleared(),
            final(self)@.capture.wf(),
    {
        self.capture.clear();
        self.quote_state = QuoteState::default();
        self.session_input_source = None;
    }

    /// Forgets everything, hides the candidates and lets the event through.
    pub fn clear_capture_context(&mut self) -> (r: Reaction)
        ensures
            (final(self)@, r@) == old(self)@.clears(),
            final(self)@.capture.wf(),
    {
        self.clear();
        let mut commands = no_commands();
        add_command(&mut commands, hide_candidate_panel());
        Reaction { commands, state: EventState::Done(Ok(false)) }
    }

    /// Goes on once the candidates to show are known.
    fn end_refresh(
        &self,
        commands: Vec<NativeCommand>,
        preview: Result<CandidatePreview, EngineError>,
        ending: Ending,
    ) -> (r: Reaction)
        ensures
            r@ == self@.refreshed(command_views(commands@), preview_result(preview), ending@),
    {
        let shown = match preview {
            Ok(preview) => match show_candidate_preview(&self.config, &preview) {
                Ok(command) => Ok(command),
                Err(error) => Err(ListenerFailure::Panel(error)),
            },
            Err(error) => Err(ListenerFailure::Engine(error)),
        };
        match shown {
            Ok(command) => {
                let mut commands = commands;
                add_command(&mut commands, command);
                finish(commands, ending.abort, ending.result)
            },
            Err(failure) => match ending.occasion {
                None => finish(commands, ending.abort, Err(ListenerError::Failed(failure))),
                Some(after) => {
                    let mut commands = commands;
                    tell(&mut commands, Trouble::Panel { after }, failure);
                    finish(commands, ending.abort, ending.result)
                },
            },
        }
    }

    /// Shows the candidates of the session, and hides them where there is no session.
    pub fn refresh_candidate_panel(&self, commands: Vec<NativeCommand>, ending: Ending) -> (r:
        Reaction)
        ensures
            r@ == self@.refreshes(command_views(commands@), ending@),
            r@.wf(),
    {
        let mut commands = commands;
        if !self.capture.is_active() {
            add_command(&mut commands, hide_candidate_panel());
            return finish(commands, ending.abort, ending.result);
        }
        let body = self.capture.active_preview_body();
        match preview_candidates(
            &self.schema,
            &body,
            self.config.candidate_count,
            self.capture.candidate_page,
        ) {
            Progress::Going(lookup) => Reaction {
                commands,
                state: EventState::Waiting(Waiting::Refresh { lookup, ending }),
            },
            Progress::Done(preview) => self.end_refresh(commands, preview, ending),
        }
    }

    /// Goes back to what was typed after a failed rewrite.
    fn recover(
        &mut self,
        commands: Vec<NativeCommand>,
        failure: ListenerFailure,
        recovery: Recovery,
    ) -> (r: Reaction)
        requires
            recovery@.capture.wf(),
        ensures
            (final(self)@, r@) == old(self)@.recovers(
                command_views(commands@),
                failure@,
                recovery@,
            ),
            final(self)@.capture.wf(),
            r@.wf(),
    {
        let mut commands = commands;
        self.capture.restore_after_failed_rewrite(
            recovery.capture,
            &recovery.text,
            recovery.visible,
        );
        self.quote_state = recovery.quote_state;
        self.session_input_source = recovery.session_input_source;
        let delete_chars = self.capture.visible_buffer_chars();
        let replacement_text = self.capture.buffer.clone();
        if delete_chars > 0 || !replacement_text.as_str().is_empty() {
            match perform_rewrite(
                &mut commands,
                delete_chars,
                &replacement_text,
                self.inject_delay_ms,
            ) {
                Err(error) => {
                    let result = Err(ListenerError::RecoveryFailed { failure, recovery: error });
                    finish(commands, true, result)
                },
                Ok(_) => {
                    self.capture.show_all();
                    let ending = at_best(
                        Occasion::Recovery,
                        Err(ListenerError::Failed(failure)),
                    );
                    self.refresh_candidate_panel(commands, ending)
                },
            }
        } else {
            let ending = Ending {
                occasion: Some(Occasion::Recovery),
                result: Err(ListenerError::Failed(failure)),
                abort: true,
            };
            self.refresh_candidate_panel(commands, ending)
        }
    }

    /// Goes on once a body is converted.
    fn end_conversion(
        &mut self,
        commands: Vec<NativeCommand>,
        converted: Result<Conversion, EngineError>,
        pending: PendingConversion,
    ) -> (r: Reaction)
        requires
            old(self)@.capture.wf(),
            pending@.recovery.capture.wf(),
        ensures
            (final(self)@, r@) == old(self)@.converts(
                command_views(commands@),
                conversion_result(converted),
                pending@,
            ),
            final(self)@.capture.wf(),
            r@.wf(),
    {
        let converted = match converted {
            Ok(converted) => converted,
            Err(error) => {
                return self.recover(commands, ListenerFailure::Engine(error), pending.recovery);
            },
        };
        let mut commands = commands;
        let output = converted.output.output;
        if let Err(error) = perform_rewrite(
            &mut commands,
            pending.delete_chars,
            &output,
            self.inject_delay_ms,
        ) {
            return self.recover(commands, ListenerFailure::Injection(error), pending.recovery);
        }
        if pending.stay_active {
            self.capture.record_conversion(pending.restore_text, output, self.quote_state);
            self.quote_state = converted.quote_state;
            let ending = at_best(Occasion::Conversion, Ok(pending.consume));
            self.refresh_candidate_panel(commands, ending)
        } else {
            self.session_input_source = None;
            self.quote_state = QuoteState::default();
            add_command(&mut commands, hide_candidate_panel());
            finish(commands, false, Ok(pending.consume))
        }
    }

    /// Converts a body, as the conversion mode says.
    pub fn handle_conversion(
        &mut self,
        commands: Vec<NativeCommand>,
        action: ConversionAction,
        consume: bool,
        recovery: Recovery,
    ) -> (r: Reaction)
        requires
            old(self)@.capture.wf(),
            recovery@.capture.wf(),
        ensures
            (final(self)@, r@) == old(self)@.starts_conversion(
                command_views(commands@),
                action@,
                consume,
                recovery@,
            ),
            final(self)@.capture.wf(),
            r@.wf(),
    {
        if ensure_body_has_pinyin(&action.body).is_err() {
            return self.recover(commands, ListenerFailure::NoPinyin, recovery);
        }
        let pending = PendingConversion {
            restore_text: action.restore_text,
            delete_chars: action.delete_chars,
            stay_active: action.stay_active,
            consume,
            recovery,
        };
        match convert_body_in_mode(
            self.config.conversion_mode,
            &self.schema,
            action.body,
            self.quote_state,
        ) {
            Progress::Going(conversion) => Reaction {
                commands,
                state: EventState::Waiting(Waiting::Conversion { conversion, pending }),
            },
            Progress::Done(converted) => self.end_conversion(commands, converted, pending),
        }
    }

    /// Hides the trigger that opened a session.
    pub fn handle_start_session(
        &mut self,
        commands: Vec<NativeCommand>,
        action: StartSessionAction,
        consume: bool,
    ) -> (r: Reaction)
        ensures
            final(self)@ == old(self)@,
            r@ == old(self)@.refreshes(
                command_views(commands@) + rewrite_commands(
                    action.delete_chars,
                    seq![],
                    old(self)@.inject_delay_ms,
                ),
                best_effort(Occasion::SessionStart, Ok(consume)),
            ),
            r@.wf(),
    {
        let mut commands = commands;
        proof {
            reveal_strlit("");
            assert(""@ =~= Seq::<char>::empty());
        }
        let _ = perform_rewrite(&mut commands, action.delete_chars, "", self.inject_delay_ms);
        self.refresh_candidate_panel(commands, at_best(Occasion::SessionStart, Ok(consume)))
    }

    /// Inserts text that the host does not show.
    pub fn handle_literal_insertion(
        &mut self,
        commands: Vec<NativeCommand>,
        action: InsertLiteralAction,
        consume: bool,
        recovery: Recovery,
    ) -> (r: Reaction)
        requires
            old(self)@.capture.wf(),
            recovery@.capture.wf(),
        ensures
            (final(self)@, r@) == old(self)@.acts(
                command_views(commands@),
                CaptureAction::InsertLiteral(action)@,
                consume,
                recovery@,
            ),
            final(self)@.capture.wf(),
            r@.wf(),
    {
        let mut commands = commands;
        match perform_rewrite(&mut commands, 0, &action.text, self.inject_delay_ms) {
            Ok(_) => self.refresh_candidate_panel(
                commands,
                at_best(Occasion::LiteralReplay, Ok(consume)),
            ),
            Err(error) => self.recover(commands, ListenerFailure::Injection(error), recovery),
        }
    }

    /// Ends a session.
    fn handle_end_session(
        &mut self,
        commands: Vec<NativeCommand>,
        action: EndSessionAction,
        consume: bool,
        recovery: Recovery,
    ) -> (r: Reaction)
        requires
            old(self)@.capture.wf(),
            recovery@.capture.wf(),
        ensures
            (final(self)@, r@) == old(self)@.acts(
                command_views(commands@),
                CaptureAction::EndSession(action)@,
                consume,
                recovery@,
            ),
            final(self)@.capture.wf(),
            r@.wf(),
    {
        let mut commands = commands;
        self.quote_state = QuoteState::default();
        self.session_input_source = None;
        match perform_rewrite(
            &mut commands,
            action.delete_chars,
            &action.replacement_text,
            self.inject_delay_ms,
        ) {
            Ok(_) => {
                add_command(&mut commands, hide_candidate_panel());
                finish(commands, false, Ok(consume))
            },
            Err(error) => self.recover(commands, ListenerFailure::Injection(error), recovery),
        }
    }

    /// Does what the capture state asks for after text was typed.
    pub fn handle_action(
        &mut self,
        commands: Vec<NativeCommand>,
        action: CaptureAction,
        consume: bool,
        recovery: Recovery,
    ) -> (r: Reaction)
        requires
            old(self)@.capture.wf(),
            recovery@.capture.wf(),
        ensures
            (final(self)@, r@) == old(self)@.acts(
                command_views(commands@),
                action@,
                consume,
                recovery@,
            ),
            final(self)@.capture.wf(),
            r@.wf(),
    {
        match action {
            CaptureAction::StartSession(action) => self.handle_start_session(
                commands,
                action,
                consume,
            ),
            CaptureAction::Convert(action) => self.handle_conversion(
                commands,
                action,
                consume,
                recovery,
            ),
            CaptureAction::InsertLiteral(action) => self.handle_literal_insertion(
                commands,
                action,
                consume,
                recovery,
            ),
            CaptureAction::EndSession(action) => self.handle_end_session(
                commands,
                action,
                consume,
                recovery,
            ),
        }
    }

    /// Notes the input source with which a session was opened.
    pub fn record_session_input_source_if_opened(&mut self, was_active: bool, input_source: &str)
        ensures
            final(self)@ == (RuntimeView {
                session_input_source: if !was_active && old(self)@.capture.active() {
                    Some(input_source@)
                } else {
                    old(self)@.session_input_source
                },
                ..old(self)@
            }),
            old(self)@.capture.wf() ==> final(self)@.capture.wf(),
    {
        if was_active || !self.capture.is_active() {
            return ;
        }
        self.session_input_source = Some(input_source.to_owned());
    }

    /// Types text.
    pub fn type_text(&mut self, commands: Vec<NativeCommand>, input: TextInput) -> (r: Reaction)
        requires
            old(self)@.capture.wf(),
        ensures
            (final(self)@, r@) == old(self)@.types(command_views(commands@), input@),
            final(self)@.capture.wf(),
            r@.wf(),
    {
        let mut commands = commands;
        let was_active = self.capture.is_active();
        let consume = is_pending_pinyin_commit_space(&self.capture, input.key_code, &input.text);
        let visible = !input.replayed && !consume;
        let recovery_visible = visible || consume;
        let recovery = Recovery {
            capture: self.capture.clone(),
            quote_state: self.quote_state,
            session_input_source: clone_text(&self.session_input_source),
            text: input.text.clone(),
            visible: recovery_visible,
        };
        let action = self.capture.push_text_with_visibility(&input.text, visible);
        self.record_session_input_source_if_opened(was_active, &input.input_source);
        match action {
            Some(action) => {
                add_command(&mut commands, NativeCommand::BeginRewrite);
                self.handle_action(commands, action, consume, recovery)
            },
            None => {
                if self.capture.is_active() {
                    let ending = Ending { occasion: None, result: Ok(false), abort: false };
                    self.refresh_candidate_panel(commands, ending)
                } else {
                    finish(commands, false, Ok(false))
                }
            },
        }
    }

    /// Commits the pending pinyin as `replacement_text`.
    fn commit_pending(
        &mut self,
        commands: Vec<NativeCommand>,
        replacement_text: String,
        reversible: bool,
        input: TextInput,
    ) -> (r: Reaction)
        requires
            old(self)@.capture.wf(),
        ensures
            (final(self)@, r@) == old(self)@.commits_pending(
                command_views(commands@),
                replacement_text@,
                reversible,
                input@,
            ),
            final(self)@.capture.wf(),
            r@.wf(),
    {
        let mut commands = commands;
        let previous = self.capture.clone();
        let action = match self.capture.take_pending_commit(replacement_text) {
            Some(action) => action,
            None => {
                return finish(commands, false, Ok(true));
            },
        };
        if let Err(error) = perform_rewrite(
            &mut commands,
            action.delete_chars,
            &action.replacement_text,
            self.inject_delay_ms,
        ) {
            let trouble = if reversible {
                Trouble::EnglishCommit
            } else {
                Trouble::LiteralCommit
            };
            tell(&mut commands, trouble, ListenerFailure::Injection(error));
            self.capture = previous;
            return self.type_text(commands, input);
        }
        if reversible {
            self.capture.record_conversion(
                action.original_text,
                action.replacement_text,
                self.quote_state,
            );
        } else {
            self.capture.record_committed_literal(&action.replacement_text);
        }
        let occasion = if reversible {
            Occasion::English
        } else {
            Occasion::Literal
        };
        self.refresh_candidate_panel(commands, at_best(occasion, Ok(true)))
    }

    /// Commits the pending pinyin as `replacement_text`, so that it can be undone.
    pub fn commit_pending_text(
        &mut self,
        commands: Vec<NativeCommand>,
        replacement_text: String,
        input: TextInput,
    ) -> (r: Reaction)
        requires
            old(self)@.capture.wf(),
        ensures
            (final(self)@, r@) == old(self)@.commits_pending(
                command_views(commands@),
                replacement_text@,
                true,
                input@,
            ),
            final(self)@.capture.wf(),
            r@.wf(),
    {
        self.commit_pending(commands, replacement_text, true, input)
    }

    /// Commits the pending pinyin as `replacement_text` for good.
    pub fn commit_pending_literal_text(
        &mut self,
        commands: Vec<NativeCommand>,
        replacement_text: String,
        input: TextInput,
    ) -> (r: Reaction)
        requires
            old(self)@.capture.wf(),
        ensures
            (final(self)@, r@) == old(self)@.commits_pending(
                command_views(commands@),
                replacement_text@,
                false,
                input@,
            ),
            final(self)@.capture.wf(),
            r@.wf(),
    {
        self.commit_pending(commands, replacement_text, false, input)
    }

    /// Takes a selected candidate.
    pub fn commit_candidate_selection(
        &mut self,
        commands: Vec<NativeCommand>,
        selection: CandidateSelection,
        occasion: Occasion,
        input: TextInput,
    ) -> (r: Reaction)
        requires
            old(self)@.capture.wf(),
        ensures
            (final(self)@, r@) == old(self)@.commits_candidate(
                command_views(commands@),
                selection@,
                occasion,
                input@,
            ),
            final(self)@.capture.wf(),
            r@.wf(),
    {
        let mut commands = commands;
        let previous = self.capture.clone();
        let action = match self.capture.take_candidate_selection(selection) {
            Some(action) => action,
            None => {
                tell(
                    &mut commands,
                    Trouble::CandidateCommit,
                    ListenerFailure::StaleSelection,
                );
                return self.type_text(commands, input);
            },
        };
        if let Err(error) = perform_rewrite(
            &mut commands,
            action.delete_chars,
            &action.replacement_text,
            self.inject_delay_ms,
        ) {
            tell(&mut commands, Trouble::CandidateCommit, ListenerFailure::Injection(error));
            self.capture = previous;
            return self.type_text(commands, input);
        }
        if action.remaining_pinyin.is_some() {
            self.capture.record_partial_candidate(&action.selected_text);
        } else {
            self.capture.record_conversion(
                action.original_text,
                action.replacement_text,
                self.quote_state,
            );
        }
        self.refresh_candidate_panel(commands, at_best(occasion, Ok(true)))
    }

    /// Goes on once it is known what selecting a candidate came to.
    fn end_choice(
        &mut self,
        commands: Vec<NativeCommand>,
        outcome: Result<SelectOutcome, EngineError>,
        occasion: Occasion,
        input: TextInput,
    ) -> (r: Reaction)
        requires
            old(self)@.capture.wf(),
        ensures
            (final(self)@, r@) == old(self)@.chosen(
                command_views(commands@),
                outcome_result(outcome),
                occasion,
                input@,
            ),
            final(self)@.capture.wf(),
            r@.wf(),
    {
        match outcome {
            Ok(SelectOutcome::Selected(selection)) => self.commit_candidate_selection(
                commands,
                selection,
                occasion,
                input,
            ),
            Ok(SelectOutcome::Nothing) => self.type_text(commands, input),
            Err(error) => {
                let mut commands = commands;
                tell(&mut commands, Trouble::Selection, ListenerFailure::Engine(error));
                self.type_text(commands, input)
            },
        }
    }

    /// Adds the command that shows a preview, or tells the user that it cannot be shown.
    fn show(
        &self,
        commands: &mut Vec<NativeCommand>,
        preview: &CandidatePreview,
        trouble: Trouble,
    )
        ensures
            command_views(final(commands)@) == self@.shows(
                command_views(old(commands)@),
                preview@,
                trouble,
            ),
    {
        match show_candidate_preview(&self.config, preview) {
            Ok(command) => add_command(commands, command),
            Err(error) => tell(commands, trouble, ListenerFailure::Panel(error)),
        }
    }

    /// Goes on once another page of candidates is known.
    fn end_page(
        &mut self,
        commands: Vec<NativeCommand>,
        page: Result<CandidatePreview, EngineError>,
        input: TextInput,
    ) -> (r: Reaction)
        requires
            old(self)@.capture.wf(),
        ensures
            (final(self)@, r@) == old(self)@.turned(
                command_views(commands@),
                preview_result(page),
                input@,
            ),
            final(self)@.capture.wf(),
            r@.wf(),
    {
        match page {
            Err(error) => {
                let mut commands = commands;
                tell(&mut commands, Trouble::Page, ListenerFailure::Engine(error));
                self.type_text(commands, input)
            },
            Ok(page) => {
                let mut commands = commands;
                self.capture.set_candidate_page(page.page_no);
                self.show(&mut commands, &page, Trouble::PagePreview);
                finish(commands, false, Ok(true))
            },
        }
    }

    /// Turns to another page of candidates.
    fn turn_page(
        &mut self,
        commands: Vec<NativeCommand>,
        current: CandidatePreview,
        at_end: bool,
        target: usize,
        pending: &str,
        input: TextInput,
    ) -> (r: Reaction)
        requires
            old(self)@.capture.wf(),
        ensures
            (final(self)@, r@) == old(self)@.turns(
                command_views(commands@),
                current@,
                at_end,
                target,
                pending@,
                input@,
            ),
            final(self)@.capture.wf(),
            r@.wf(),
    {
        let mut commands = commands;
        if at_end {
            self.show(&mut commands, &current, Trouble::Boundary);
            return finish(commands, false, Ok(true));
        }
        match preview_candidates(&self.schema, pending, self.config.candidate_count, target) {
            Progress::Going(lookup) => Reaction {
                commands,
                state: EventState::Waiting(Waiting::Page { lookup, input }),
            },
            Progress::Done(page) => self.end_page(commands, page, input),
        }
    }

    /// Goes on once the candidates that a key works on are known.
    fn interact(
        &mut self,
        commands: Vec<NativeCommand>,
        preview: Result<CandidatePreview, EngineError>,
        interaction: Interaction,
    ) -> (r: Reaction)
        requires
            old(self)@.capture.wf(),
            interaction.kind !is EnglishCommit,
        ensures
            (final(self)@, r@) == old(self)@.interacts(
                command_views(commands@),
                preview_result(preview),
                interaction@,
            ),
            final(self)@.capture.wf(),
            r@.wf(),
    {
        let input = interaction.input;
        let current = match preview {
            Ok(current) => current,
            Err(error) => {
                let mut commands = commands;
                tell(&mut commands, Trouble::Interaction, ListenerFailure::Engine(error));
                return self.type_text(commands, input);
            },
        };
        if current.candidates.len() == 0 {
            if input.key_code == KEY_SPACE && interaction.key == ' ' {
                return self.type_text(commands, input);
            }
            let mut replacement = interaction.pending;
            replacement.push(interaction.key);
            return self.commit_pending_literal_text(commands, replacement, input);
        }
        match interaction.kind {
            CandidateInteractionKey::Select(index) => {
                if index >= current.candidates.len() {
                    return self.type_text(commands, input);
                }
                let occasion = Occasion::Candidate { page_no: current.page_no, index };
                match select_candidate(
                    &self.schema,
                    &interaction.pending,
                    current.page_no,
                    index,
                ) {
                    Progress::Going(choice) => Reaction {
                        commands,
                        state: EventState::Waiting(Waiting::Choice { choice, occasion, input }),
                    },
                    Progress::Done(outcome) => self.end_choice(
                        commands,
                        outcome,
                        occasion,
                        input,
                    ),
                }
            },
            CandidateInteractionKey::NextPage => {
                let at_end = current.is_last_page;
                let target = current.page_no.saturating_add(1);
                self.turn_page(commands, current, at_end, target, &interaction.pending, input)
            },
            _ => {
                let at_end = current.page_no == 0;
                let target = current.page_no.saturating_sub(1);
                self.turn_page(commands, current, at_end, target, &interaction.pending, input)
            },
        }
    }

    /// Handles a key that types text: it works on the candidates, or is typed.
    pub fn handle_candidate_interaction(&mut self, input: TextInput) -> (r: Reaction)
        requires
            old(self)@.capture.wf(),
        ensures
            (final(self)@, r@) == old(self)@.keyed(input@),
            final(self)@.capture.wf(),
            r@.wf(),
    {
        let commands = no_commands();
        if char_count(&input.text) != 1 {
            return self.type_text(commands, input);
        }
        let key = input.text.as_str().get_char(0);
        let pending = match self.capture.pending_pinyin() {
            Some(pending) => pending,
            None => {
                return self.type_text(commands, input);
            },
        };
        let kind = match candidate_interaction_for_event(&self.config, input.key_code, key) {
            Some(kind) => kind,
            None => {
                return self.type_text(commands, input);
            },
        };
        if let CandidateInteractionKey::EnglishCommit = kind {
            return self.commit_pending_text(commands, pending, input);
        }
        let started = preview_candidates(
            &self.schema,
            &pending,
            self.config.candidate_count,
            self.capture.candidate_page,
        );
        let interaction = Interaction { pending, key, kind, input };
        match started {
            Progress::Going(lookup) => Reaction {
                commands,
                state: EventState::Waiting(Waiting::Preview { lookup, interaction }),
            },
            Progress::Done(preview) => self.interact(commands, preview, interaction),
        }
    }

    /// Undoes the last conversion.
    fn handle_restore(&mut self, action: RestoreAction, consume: bool) -> (r: Reaction)
        requires
            old(self)@.capture.wf(),
        ensures
            (final(self)@, r@) == (RuntimeView {
                quote_state: action@.quote_state_before,
                ..old(self)@
            }).rewrites_back(action@, consume),
            final(self)@.capture.wf(),
            r@.wf(),
    {
        let mut commands = no_commands();
        self.quote_state = action.quote_state_before;
        match perform_rewrite(
            &mut commands,
            action.delete_remaining_chars,
            &action.replacement_text,
            self.inject_delay_ms,
        ) {
            Ok(_) => self.refresh_candidate_panel(
                commands,
                at_best(Occasion::Restore, Ok(consume)),
            ),
            Err(error) => {
                let result = Err(ListenerError::Failed(ListenerFailure::Injection(error)));
                finish(commands, false, result)
            },
        }
    }

    /// Handles Backspace.
    pub fn handle_backspace(&mut self, replayed: bool) -> (r: Reaction)
        requires
            old(self)@.capture.wf(),
        ensures
            (final(self)@, r@) == old(self)@.backspaces(replayed),
            final(self)@.capture.wf(),
            r@.wf(),
    {
        let consume = self.capture.should_consume_backspace();
        let host_backspace_applied = !consume && !replayed;
        let replay_needs_host_delete = replayed && self.capture.backspace_affects_visible_host();
        if let Some(action) = self.capture.restore_last_conversion(host_backspace_applied) {
            return self.handle_restore(action, consume);
        }
        let was_active = self.capture.is_active();
        self.capture.backspace();
        let mut commands = no_commands();
        if replay_needs_host_delete {
            proof {
                reveal_strlit("");
                assert(""@ =~= Seq::<char>::empty());
            }
            let _ = perform_rewrite(&mut commands, 1, "", self.inject_delay_ms);
        }
        if was_active && !self.capture.is_active() {
            self.quote_state = QuoteState::default();
            self.session_input_source = None;
        }
        if self.capture.is_active() {
            self.refresh_candidate_panel(commands, at_best(Occasion::Backspace, Ok(consume)))
        } else {
            add_command(&mut commands, hide_candidate_panel());
            finish(commands, false, Ok(consume))
        }
    }

    /// Lets an event through.
    fn ignore(&self) -> (r: Reaction)
        ensures
            r@ == self@.ignores().1,
    {
        Reaction { commands: no_commands(), state: EventState::Done(Ok(false)) }
    }

    /// Handles a key with a modifier.
    pub fn handle_modified_key(&mut self, event: &InputEvent) -> (r: Reaction)
        requires
            old(self)@.capture.wf(),
        ensures
            (final(self)@, r@) == old(self)@.modified(*event),
            final(self)@.capture.wf(),
            r@.wf(),
    {
        if event.has_control_modifier() && event.key_code == KEY_W {
            if self.capture.buffer.as_str().is_empty() {
                return self.clear_capture_context();
            }
            let disposition = self.capture.delete_previous_word().disposition();
            let consume = match disposition {
                DeletePreviousWordDisposition::ClearAndPassThrough => {
                    return self.clear_capture_context();
                },
                DeletePreviousWordDisposition::Consume => true,
                DeletePreviousWordDisposition::PassThrough => false,
            };
            let commands = no_commands();
            if self.capture.is_active() {
                let ending = at_best(Occasion::WordDeletion, Ok(consume));
                return self.refresh_candidate_panel(commands, ending);
            }
            return finish(commands, false, Ok(consume));
        }
        if event.key_code == KEY_BACKSPACE || (event.has_control_modifier() && event.key_code
            == KEY_H) {
            return self.clear_capture_context();
        }
        if event.has_control_modifier() && event.key_code == KEY_C {
            return self.clear_capture_context();
        }
        if event.has_command_modifier() && matches!(
            event.key_code,
            KEY_A | KEY_C | KEY_V | KEY_X | KEY_Z
        ) {
            return self.clear_capture_context();
        }
        self.ignore()
    }

    /// Handles a pressed key.
    fn handle_key(&mut self, event: &InputEvent, input_source: String) -> (r: Reaction)
        requires
            old(self)@.capture.wf(),
        ensures
            (final(self)@, r@) == old(self)@.pressed(*event, input_source@),
            final(self)@.capture.wf(),
            r@.wf(),
    {
        if event.has_command_modifier() && matches!(event.key_code, KEY_TAB | KEY_GRAVE) {
            return self.clear_capture_context();
        }
        if event.has_text_modifier() {
            return self.handle_modified_key(event);
        }
        match event.key_code {
            KEY_BACKSPACE => {
                return self.handle_backspace(event.is_buffered_replay());
            },
            KEY_ENTER
            | KEY_RETURN
            | KEY_ESCAPE
            | KEY_ARROW_LEFT
            | KEY_ARROW_RIGHT
            | KEY_ARROW_DOWN
            | KEY_ARROW_UP => {
                return self.clear_capture_context();
            },
            _ => {},
        }
        let text = event.text();
        if text.as_str().is_empty() {
            return self.ignore();
        }
        let input = TextInput {
            text,
            key_code: event.key_code,
            replayed: event.is_buffered_replay(),
            input_source,
        };
        self.handle_candidate_interaction(input)
    }

    /// Lets keys of other input sources than the system's through.
    pub fn skip_if_input_source_is_not_system(&mut self, input_source: &str) -> (r: Option<Reaction>)
        requires
            old(self)@.capture.wf(),
        ensures
            r is Some <==> !system_source(input_source@),
            r is None ==> final(self)@ == old(self)@,
            r matches Some(reaction) ==> final(self)@ == old(self)@.cleared() && reaction@
                == ReactionView::done(
                if old(self)@.capture.active() {
                    seq![CommandView::HidePanel]
                } else {
                    seq![]
                },
                Ok(false),
            ),
            final(self)@.capture.wf(),
    {
        if input_source_is_system(input_source) {
            return None;
        }
        if self.capture.is_active() {
            Some(self.clear_capture_context())
        } else {
            self.clear();
            Some(self.ignore())
        }
    }

    /// Ends a session when the input source has changed.
    pub fn clear_if_session_input_source_changed(&mut self, current_input_source: &str) -> (r:
        Option<Reaction>)
        requires
            old(self)@.capture.wf(),
        ensures
            r is Some <==> old(self)@.capture.active() && old(self)@.session_input_source is Some
                && old(self)@.session_input_source != Some(current_input_source@),
            r matches Some(reaction) ==> (final(self)@, reaction@) == old(self)@.clears(),
            r is None ==> final(self)@ == (RuntimeView {
                session_input_source: if old(self)@.capture.active() {
                    Some(current_input_source@)
                } else {
                    old(self)@.session_input_source
                },
                ..old(self)@
            }),
            final(self)@.capture.wf(),
    {
        if !self.capture.is_active() {
            return None;
        }
        let unchanged = match &self.session_input_source {
            Some(previous) => same(previous, current_input_source),
            None => {
                self.session_input_source = Some(current_input_source.to_owned());
                return None;
            },
        };
        if unchanged {
            return None;
        }
        Some(self.clear_capture_context())
    }

    /// Reacts to an event of the host.
    pub fn handle_event(&mut self, event: &InputEvent) -> (r: Reaction)
        requires
            old(self)@.capture.wf(),
        ensures
            (final(self)@, r@) == old(self)@.reacts(*event),
            final(self)@.capture.wf(),
            r@.wf(),
    {
        if event.status != STATUS_PRESSED {
            return self.ignore();
        }
        if event.event_type == EVENT_MOUSE || event.event_type == EVENT_CONTEXT {
            if event.is_rewrite_active() {
                return self.ignore();
            }
            return self.clear_capture_context();
        }
        if event.event_type != EVENT_KEYBOARD {
            return self.ignore();
        }
        let input_source = event_input_source_fingerprint(event);
        if let Some(reaction) = self.skip_if_input_source_is_not_system(&input_source) {
            return reaction;
        }
        if let Some(reaction) = self.clear_if_session_input_source_changed(&input_source) {
            return reaction;
        }
        self.handle_key(event, input_source)
    }

    /// Reacts to an answer of the engine, for an event that waits for it.
    pub fn resume(&mut self, waiting: Waiting, reply: EngineReply) -> (r: Reaction)
        requires
            old(self)@.capture.wf(),
            waiting@.wf(),
            waiting@.asked().answered_by(reply@),
        ensures
            (final(self)@, r@) == old(self)@.resumes(waiting@, reply@),
            final(self)@.capture.wf(),
            r@.wf(),
    {
        let commands = no_commands();
        match waiting {
            Waiting::Refresh { lookup, ending } => match lookup.advance(reply) {
                Progress::Going(lookup) => Reaction {
                    commands,
                    state: EventState::Waiting(Waiting::Refresh { lookup, ending }),
                },
                Progress::Done(preview) => self.end_refresh(commands, preview, ending),
            },
            Waiting::Preview { lookup, interaction } => match lookup.advance(reply) {
                Progress::Going(lookup) => Reaction {
                    commands,
                    state: EventState::Waiting(Waiting::Preview { lookup, interaction }),
                },
                Progress::Done(preview) => self.interact(commands, preview, interaction),
            },
            Waiting::Page { lookup, input } => match lookup.advance(reply) {
                Progress::Going(lookup) => Reaction {
                    commands,
                    state: EventState::Waiting(Waiting::Page { lookup, input }),
                },
                Progress::Done(page) => self.end_page(commands, page, input),
            },
            Waiting::Choice { choice, occasion, input } => match choice.advance(reply) {
                Progress::Going(choice) => Reaction {
                    commands,
                    state: EventState::Waiting(Waiting::Choice { choice, occasion, input }),
                },
                Progress::Done(outcome) => self.end_choice(commands, outcome, occasion, input),
            },
            Waiting::Conversion { conversion, pending } => match conversion.advance(reply) {
                Progress::Going(conversion) => Reaction {
                    commands,
                    state: EventState::Waiting(Waiting::Conversion { conversion, pending }),
                },
                Progress::Done(converted) => self.end_conversion(commands, converted, pending),
            },
        }
    }
}

} // verus!
