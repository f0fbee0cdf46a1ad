//! What the reaction to an event consists of.
//!
//! A reaction is a list of commands, and either the end of the event or a question to the
//! engine. The answer to a question leads to the next reaction.

use vstd::prelude::*;

use crate::actions::text_option;
use crate::candidate_session::{CandidateChoice, ChoiceView, LookupView, PreviewLookup};
use crate::capture::{CaptureState, CaptureView};
use crate::config::CandidateInteractionKey;
use crate::engine::{EngineRequest, RequestView};
use crate::failures::{event_result, ListenerError, ListenerErrorView, Occasion};
use crate::mac::{command_views, CommandView, NativeCommand};
use crate::rime_auto::{Converter, ConverterView};
use crate::separators::QuoteState;

verus! {

/// A key that types text.
#[derive(Debug, PartialEq, Eq)]
pub struct TextInput {
    pub text: String,
    pub key_code: u32,
    /// The key was held back during a rewrite, so that the host does not show it.
    pub replayed: bool,
    pub input_source: String,
}

/// What a [`TextInput`] holds.
#[verifier::ext_equal]
pub struct InputView {
    pub text: Seq<char>,
    pub key_code: u32,
    pub replayed: bool,
    pub input_source: Seq<char>,
}

impl View for TextInput {
    type V = InputView;

    open spec fn view(&self) -> InputView {
        InputView {
            text: self.text@,
            key_code: self.key_code,
            replayed: self.replayed,
            input_source: self.input_source@,
        }
    }
}

/// How an event ends once the candidates are shown.
#[derive(Debug, PartialEq, Eq)]
pub struct Ending {
    /// After what the candidates are shown. Where they cannot be shown the user is told so; on
    /// no occasion at all, that is the event's error.
    pub occasion: Option<Occasion>,
    pub result: Result<bool, ListenerError>,
    /// A rewrite that has begun is given up.
    pub abort: bool,
}

/// What an [`Ending`] holds.
#[verifier::ext_equal]
pub struct EndingView {
    pub occasion: Option<Occasion>,
    pub result: Result<bool, ListenerErrorView>,
    pub abort: bool,
}

impl View for Ending {
    type V = EndingView;

    open spec fn view(&self) -> EndingView {
        EndingView {
            occasion: self.occasion,
            result: event_result(self.result),
            abort: self.abort,
        }
    }
}

/// A key that works on the candidates, while it waits for them.
#[derive(Debug, PartialEq, Eq)]
pub struct Interaction {
    /// The pinyin for which there are candidates.
    pub pending: String,
    pub key: char,
    pub kind: CandidateInteractionKey,
    pub input: TextInput,
}

/// What an [`Interaction`] holds.
#[verifier::ext_equal]
pub struct InteractionView {
    pub pending: Seq<char>,
    pub key: char,
    pub kind: CandidateInteractionKey,
    pub input: InputView,
}

impl View for Interaction {
    type V = InteractionView;

    open spec fn view(&self) -> InteractionView {
        InteractionView {
            pending: self.pending@,
            key: self.key,
            kind: self.kind,
            input: self.input@,
        }
    }
}

/// What to go back to where a rewrite fails: the state before a text was typed, and the text.
#[derive(Debug)]
pub struct Recovery {
    pub capture: CaptureState,
    pub quote_state: QuoteState,
    pub session_input_source: Option<String>,
    pub text: String,
    /// The host shows the text once it is brought back.
    pub visible: bool,
}

/// What a [`Recovery`] holds.
#[verifier::ext_equal]
pub struct RecoveryView {
    pub capture: CaptureView,
    pub quote_state: QuoteState,
    pub session_input_source: Option<Seq<char>>,
    pub text: Seq<char>,
    pub visible: bool,
}

impl View for Recovery {
    type V = RecoveryView;

    open spec fn view(&self) -> RecoveryView {
        RecoveryView {
            capture: self.capture@,
            quote_state: self.quote_state,
            session_input_source: text_option(self.session_input_source),
            text: self.text@,
            visible: self.visible,
        }
    }
}

/// A conversion, while it waits for its output.
#[derive(Debug)]
pub struct PendingConversion {
    /// What the conversion is undone to.
    pub restore_text: String,
    pub delete_chars: usize,
    pub stay_active: bool,
    /// The key that called for the conversion is kept from the host.
    pub consume: bool,
    pub recovery: Recovery,
}

/// What a [`PendingConversion`] holds.
#[verifier::ext_equal]
pub struct PendingConversionView {
    pub restore_text: Seq<char>,
    pub delete_chars: usize,
    pub stay_active: bool,
    pub consume: bool,
    pub recovery: RecoveryView,
}

impl View for PendingConversion {
    type V = PendingConversionView;

    open spec fn view(&self) -> PendingConversionView {
        PendingConversionView {
            restore_text: self.restore_text@,
            delete_chars: self.delete_chars,
            stay_active: self.stay_active,
            consume: self.consume,
            recovery: self.recovery@,
        }
    }
}

/// An event that waits for the engine.
#[derive(Debug)]
pub enum Waiting {
    /// For candidates to show.
    Refresh { lookup: PreviewLookup, ending: Ending },
    /// For the candidates that a key works on.
    Preview { lookup: PreviewLookup, interaction: Interaction },
    /// For another page of candidates.
    Page { lookup: PreviewLookup, input: TextInput },
    /// For a candidate to be selected.
    Choice { choice: CandidateChoice, occasion: Occasion, input: TextInput },
    /// For a body to be converted.
    Conversion { conversion: Converter, pending: PendingConversion },
}

/// What a [`Waiting`] holds.
#[verifier::ext_equal]
pub enum WaitingView {
    Refresh { lookup: LookupView, ending: EndingView },
    Preview { lookup: LookupView, interaction: InteractionView },
    Page { lookup: LookupView, input: InputView },
    Choice { choice: ChoiceView, occasion: Occasion, input: InputView },
    Conversion { conversion: ConverterView, pending: PendingConversionView },
}

impl View for Waiting {
    type V = WaitingView;

    open spec fn view(&self) -> WaitingView {
        match *self {
            Waiting::Refresh { lookup, ending } => WaitingView::Refresh {
                lookup: lookup@,
                ending: ending@,
            },
            Waiting::Preview { lookup, interaction } => WaitingView::Preview {
                lookup: lookup@,
                interaction: interaction@,
            },
            Waiting::Page { lookup, input } => WaitingView::Page { lookup: lookup@, input: input@ },
            Waiting::Choice { choice, occasion, input } => WaitingView::Choice {
                choice: choice@,
                occasion,
                input: input@,
            },
            Waiting::Conversion { conversion, pending } => WaitingView::Conversion {
                conversion: conversion@,
                pending: pending@,
            },
        }
    }
}

impl WaitingView {
    /// The conversation with the engine can go on, and so can the event after it.
    pub open spec fn wf(self) -> bool {
        match self {
            WaitingView::Refresh { lookup, .. } => lookup.wf(),
            WaitingView::Preview { lookup, interaction } => lookup.wf()
                && interaction.kind !is EnglishCommit,
            WaitingView::Page { lookup, .. } => lookup.wf(),
            WaitingView::Choice { choice, .. } => choice.wf(),
            WaitingView::Conversion { conversion, pending } => conversion.wf()
                && pending.recovery.capture.wf(),
        }
    }

    /// What the engine is to be asked.
    pub open spec fn asked(self) -> RequestView {
        match self {
            WaitingView::Refresh { lookup, .. } => lookup.asked(),
            WaitingView::Preview { lookup, .. } => lookup.asked(),
            WaitingView::Page { lookup, .. } => lookup.asked(),
            WaitingView::Choice { choice, .. } => choice.asked(),
            WaitingView::Conversion { conversion, .. } => conversion.asked(),
        }
    }
}

impl Waiting {
    /// What the engine is to be asked.
    pub fn request(&self) -> (r: EngineRequest)
        requires
            self@.wf(),
        ensures
            r@ == self@.asked(),
    {
        match self {
            Waiting::Refresh { lookup, .. } => lookup.request(),
            Waiting::Preview { lookup, .. } => lookup.request(),
            Waiting::Page { lookup, .. } => lookup.request(),
            Waiting::Choice { choice, .. } => choice.request(),
            Waiting::Conversion { conversion, .. } => conversion.request(),
        }
    }
}

/// How an event stands.
#[derive(Debug)]
pub enum EventState {
    /// It is over; the result says whether it is kept from the host.
    Done(Result<bool, ListenerError>),
    /// It waits for the engine.
    Waiting(Waiting),
}

/// What an [`EventState`] holds.
#[verifier::ext_equal]
pub enum EventStateView {
    Done(Result<bool, ListenerErrorView>),
    Waiting(WaitingView),
}

impl View for EventState {
    type V = EventStateView;

    open spec fn view(&self) -> EventStateView {
        match *self {
            EventState::Done(r) => EventStateView::Done(event_result(r)),
            EventState::Waiting(w) => EventStateView::Waiting(w@),
        }
    }
}

/// What is asked for, and how the event stands then.
#[derive(Debug)]
pub struct Reaction {
    pub commands: Vec<NativeCommand>,
    pub state: EventState,
}

/// What a [`Reaction`] holds.
#[verifier::ext_equal]
pub struct ReactionView {
    pub commands: Seq<CommandView>,
    pub state: EventStateView,
}

impl View for Reaction {
    type V = ReactionView;

    open spec fn view(&self) -> ReactionView {
        ReactionView { commands: command_views(self.commands@), state: self.state@ }
    }
}

impl ReactionView {
    /// A reaction that ends the event.
    pub open spec fn done(commands: Seq<CommandView>, result: Result<bool, ListenerErrorView>) -> ReactionView {
        ReactionView { commands, state: EventStateView::Done(result) }
    }

    /// A reaction that waits for the engine.
    pub open spec fn waits(commands: Seq<CommandView>, waiting: WaitingView) -> ReactionView {
        ReactionView { commands, state: EventStateView::Waiting(waiting) }
    }

    /// The event can go on.
    pub open spec fn wf(self) -> bool {
        self.state matches EventStateView::Waiting(w) ==> w.wf()
    }
}

} // verus!
