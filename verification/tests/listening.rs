//! The listener: events, commands and answers of the engine.

use rime_poc::actions::DeletePreviousWordDisposition;
use rime_poc::bytes::NulError;
use rime_poc::candidates::CandidatePreview;
use rime_poc::capture::CaptureMode;
use rime_poc::config::{AppConfig, CandidateLayout, ConversionMode};
use rime_poc::engine::{EngineContext, EngineError, EngineReply, EngineRequest};
use rime_poc::failures::{ListenerError, ListenerFailure, Occasion, Trouble};
use rime_poc::listener::{show_candidate_preview, ListenerRuntime};
use rime_poc::mac::{
    event_input_source_fingerprint, update_candidate_panel, InputEvent, NativeCommand,
    EVENT_CONTEXT, EVENT_KEYBOARD, EVENT_MOUSE, KEY_ARROW_LEFT, KEY_BACKSPACE, KEY_C, KEY_ENTER,
    KEY_ESCAPE, KEY_GRAVE, KEY_H, KEY_SPACE, KEY_TAB, KEY_V, KEY_W, MODIFIER_BUFFERED_REPLAY,
    MODIFIER_COMMAND, MODIFIER_CONTROL, MODIFIER_OPTION, MODIFIER_REWRITE_ACTIVE, STATUS_PRESSED,
};
use rime_poc::platform;
use rime_poc::reactions::{EventState, Reaction};
use rime_poc::separators::QuoteState;
use rime_poc::win;

const ABC: &str = "source=com.apple.keylayout.ABC|mode=|type=TISTypeKeyboardLayout|ascii=1";

fn event(key_code: u32, text: &str, modifier_flags: u32) -> InputEvent {
    let mut buffer = [0u8; 64];
    buffer[..text.len()].copy_from_slice(text.as_bytes());
    let mut source_buffer = [0u8; 256];
    source_buffer[..ABC.len()].copy_from_slice(ABC.as_bytes());
    InputEvent {
        event_type: EVENT_KEYBOARD,
        status: STATUS_PRESSED,
        key_code,
        modifier_flags,
        buffer,
        buffer_len: text.len(),
        source_buffer,
        source_buffer_len: ABC.len(),
    }
}

fn from_source(mut event: InputEvent, source: &str) -> InputEvent {
    event.source_buffer[..source.len()].copy_from_slice(source.as_bytes());
    event.source_buffer_len = source.len();
    event
}

fn listener() -> ListenerRuntime {
    ListenerRuntime::new("luna".to_owned(), AppConfig::default(), 128, 1)
}

/// A listener with its host and an engine. Every pinyin has these candidates, two to a page,
/// and the second one of the first page stands for "wo" only.
struct Desk {
    runtime: ListenerRuntime,
    host: String,
    panel: Option<String>,
    open_rewrite: bool,
    engine_fails: bool,
    no_candidates: bool,
    typed: String,
    page: usize,
    selected: Option<usize>,
    session_open: bool,
    told: Vec<String>,
}

const CANDIDATES: [&str; 3] = ["我们", "我", "喔"];

fn desk() -> Desk {
    Desk {
        runtime: listener(),
        host: "x".to_owned(),
        panel: None,
        open_rewrite: false,
        engine_fails: false,
        no_candidates: false,
        typed: String::new(),
        page: 0,
        selected: None,
        session_open: false,
        told: Vec::new(),
    }
}

impl Desk {
    fn perform(&mut self, commands: Vec<NativeCommand>) {
        for command in commands {
            match command {
                NativeCommand::BeginRewrite => self.open_rewrite = true,
                NativeCommand::AbortRewrite => self.open_rewrite = false,
                NativeCommand::CommitRewrite { delete_chars, text, .. } => {
                    for _ in 0..delete_chars {
                        self.host.pop().expect("no more is deleted than there is");
                    }
                    self.host.push_str(&text);
                    self.open_rewrite = false;
                }
                NativeCommand::UpdatePanel { preedit, candidates, .. } => {
                    self.panel = Some(format!("{preedit}\n{candidates}"));
                }
                NativeCommand::HidePanel => self.panel = None,
                NativeCommand::Report { trouble, failure } => {
                    self.told.push(trouble.message() + &failure.message());
                }
            }
        }
    }

    fn answer(&mut self, request: EngineRequest) -> EngineReply {
        match request {
            EngineRequest::Open { .. } => {
                assert!(!self.session_open, "one session at a time");
                if self.engine_fails {
                    return EngineReply::Opened(Err(EngineError::CreateSession));
                }
                self.session_open = true;
                self.typed.clear();
                self.page = 0;
                self.selected = None;
                EngineReply::Opened(Ok(()))
            }
            EngineRequest::ProcessKey { code } => {
                self.typed.push(char::from_u32(code).unwrap());
                EngineReply::Key { accepted: true }
            }
            EngineRequest::TakeCommit => EngineReply::Commit(match self.selected {
                Some(1) => None,
                Some(index) => Some(CANDIDATES[index].to_owned()),
                None => None,
            }),
            EngineRequest::ReadContext => {
                let all = if self.no_candidates { &CANDIDATES[..0] } else { &CANDIDATES[..] };
                let page = all.iter().skip(self.page * 2).take(2);
                EngineReply::Context(Some(EngineContext {
                    preedit: Some(match self.selected {
                        Some(index) => format!("{}{}", CANDIDATES[index], &self.typed[2..]),
                        None => self.typed.clone(),
                    }),
                    sel_start: self.selected.map_or(0, |index| CANDIDATES[index].len()),
                    candidates: page.map(|text| text.to_string()).collect(),
                    page_no: self.page,
                    is_last_page: self.page == 1 || self.no_candidates,
                }))
            }
            EngineRequest::NextPage => {
                let more = self.page == 0 && !self.no_candidates;
                self.page += usize::from(more);
                EngineReply::Page(Ok(more))
            }
            EngineRequest::SelectOnPage { index } => {
                self.selected = Some(self.page * 2 + index);
                EngineReply::Selected(Ok(true))
            }
            EngineRequest::Close => {
                self.session_open = false;
                EngineReply::Closed { ok: true }
            }
        }
    }

    fn send(&mut self, event: InputEvent) -> Result<bool, ListenerError> {
        let mut reaction = self.runtime.handle_event(&event);
        loop {
            let Reaction { commands, state } = reaction;
            let (done, waiting) = match state {
                EventState::Done(result) => (Some(result), None),
                EventState::Waiting(waiting) => (None, Some(waiting)),
            };
            // The host gets the key before it is rewritten, unless the key is kept.
            if let Some(result) = done {
                let kept = matches!(result, Ok(true));
                self.deliver(&event, kept);
                self.perform(commands);
                assert!(!self.open_rewrite, "every rewrite is settled");
                assert!(!self.session_open, "every session is closed");
                return result;
            }
            let waiting = waiting.unwrap();
            let rewrites = commands
                .iter()
                .any(|command| matches!(command, NativeCommand::CommitRewrite { .. }));
            if rewrites {
                let kept = self.will_keep(&waiting);
                self.deliver(&event, kept);
                self.perform(commands);
                return self.finish(waiting);
            }
            self.perform(commands);
            let reply = self.answer(waiting.request());
            reaction = self.runtime.resume(waiting, reply);
        }
    }

    fn will_keep(&self, waiting: &rime_poc::reactions::Waiting) -> bool {
        match waiting {
            rime_poc::reactions::Waiting::Refresh { ending, .. } => matches!(ending.result, Ok(true)),
            other => panic!("only candidates are shown after a rewrite: {other:?}"),
        }
    }

    fn finish(&mut self, waiting: rime_poc::reactions::Waiting) -> Result<bool, ListenerError> {
        let mut waiting = waiting;
        loop {
            let reply = self.answer(waiting.request());
            let Reaction { commands, state } = self.runtime.resume(waiting, reply);
            self.perform(commands);
            match state {
                EventState::Done(result) => {
                    assert!(!self.open_rewrite, "every rewrite is settled");
                    assert!(!self.session_open, "every session is closed");
                    return result;
                }
                EventState::Waiting(next) => waiting = next,
            }
        }
    }

    fn deliver(&mut self, event: &InputEvent, kept: bool) {
        let passes = !kept && event.modifier_flags == 0;
        if passes && event.key_code == KEY_BACKSPACE {
            self.host.pop();
        } else if passes {
            self.host.push_str(&event.text());
        }
    }

    fn type_text(&mut self, text: &str) {
        for ch in text.chars() {
            let key_code = if ch == ' ' { KEY_SPACE } else { 200 };
            self.send(event(key_code, &ch.to_string(), 0)).unwrap();
        }
    }
}

#[test]
fn a_trigger_opens_a_session_and_is_hidden() {
    let mut desk = desk();
    desk.type_text(";");
    assert_eq!(desk.host, "x;");
    desk.type_text(";");
    assert_eq!(desk.host, "x");
    assert!(desk.runtime.capture.is_active());
    assert_eq!(desk.runtime.session_input_source.as_deref(), Some(ABC));
    assert_eq!(desk.panel.as_deref(), Some("Rime active\n"));
}

#[test]
fn a_number_selects_a_candidate() {
    let mut desk = desk();
    desk.type_text(";;women");
    assert_eq!(desk.panel.as_deref(), Some("women\n1. 我们\n2. 我"));
    assert_eq!(desk.send(event(18, "1", 0)), Ok(true));
    assert_eq!(desk.host, "x我们");
    assert_eq!(desk.runtime.capture.committed_output_chars, 2);
}

#[test]
fn a_partial_candidate_keeps_the_rest_pending() {
    let mut desk = desk();
    desk.type_text(";;women");
    assert_eq!(desk.send(event(19, "2", 0)), Ok(true));
    assert_eq!(desk.host, "x我men");
    assert_eq!(desk.runtime.capture.buffer, "men");
    assert_eq!(desk.panel.as_deref(), Some("men\n1. 我们\n2. 我"));
    assert_eq!(desk.send(event(18, "1", 0)), Ok(true));
    assert_eq!(desk.host, "x我我们");
    assert_eq!(desk.runtime.capture.committed_output_chars, 3);
}

#[test]
fn pages_are_turned_and_space_selects_on_the_page() {
    let mut desk = desk();
    desk.type_text(";;wo");
    assert_eq!(desk.send(event(24, "=", 0)), Ok(true));
    assert_eq!(desk.runtime.capture.candidate_page, 1);
    assert_eq!(desk.panel.as_deref(), Some("wo\n1. 喔"));
    assert_eq!(desk.send(event(24, "=", 0)), Ok(true));
    assert_eq!(desk.runtime.capture.candidate_page, 1);
    assert_eq!(desk.host, "xwo");
    assert_eq!(desk.send(event(KEY_SPACE, " ", 0)), Ok(true));
    assert_eq!(desk.host, "x喔");
    assert_eq!(desk.runtime.capture.candidate_page, 0);

    desk.type_text("wo");
    assert_eq!(desk.send(event(27, "-", 0)), Ok(true));
    assert_eq!(desk.runtime.capture.candidate_page, 0);
    assert_eq!(desk.host, "x喔wo");
    desk.send(event(24, "=", 0)).unwrap();
    assert_eq!(desk.send(event(27, "-", 0)), Ok(true));
    assert_eq!(desk.runtime.capture.candidate_page, 0);
}

#[test]
fn the_english_key_keeps_the_pinyin() {
    let mut desk = desk();
    desk.type_text(";;hello");
    assert_eq!(desk.send(event(50, "`", 0)), Ok(true));
    assert_eq!(desk.host, "xhello");
    assert!(desk.runtime.capture.buffer.is_empty());
    assert_eq!(desk.runtime.capture.committed_output_chars, 5);
    assert!(desk.runtime.capture.last_conversion.is_none());
    assert_eq!(desk.send(event(50, "`", 0)), Ok(false));
    assert_eq!(desk.host, "xhello`");
}

#[test]
fn without_candidates_a_control_key_is_committed_as_it_is() {
    let mut desk = desk();
    desk.no_candidates = true;
    desk.type_text(";;vke");
    assert_eq!(desk.send(event(27, "-", 0)), Ok(true));
    assert_eq!(desk.host, "xvke-");
    assert_eq!(desk.runtime.capture.committed_output_chars, 4);
    assert!(desk.runtime.capture.last_conversion.is_none());

    desk.type_text("vke");
    assert_eq!(desk.send(event(KEY_SPACE, " ", 0)), Ok(true));
    assert_eq!(desk.host, "xvke-vke");
}

#[test]
fn a_selection_key_without_a_candidate_is_typed() {
    let mut desk = desk();
    desk.type_text(";;wo");
    assert_eq!(desk.send(event(20, "3", 0)), Ok(false));
    assert_eq!(desk.host, "x我们3");
    assert!(desk.runtime.capture.buffer.is_empty());
}

#[test]
fn keys_are_ordinary_without_pending_pinyin() {
    let mut desk = desk();
    desk.type_text(";;");
    for key in ["1", "=", "-", "`"] {
        assert_eq!(desk.send(event(200, key, 0)), Ok(false));
    }
    assert_eq!(desk.host, "x1=-`");
    assert!(desk.runtime.capture.buffer.is_empty());
}

#[test]
fn punctuation_converts_what_is_pending() {
    let mut desk = desk();
    desk.type_text(";;wo,\"");
    assert_eq!(desk.host, "x我们，\"");
    desk.type_text("wo\"");
    assert_eq!(desk.host, "x我们，\"我们“");
    assert_eq!(desk.runtime.quote_state, QuoteState { next_is_open: true });
}

#[test]
fn a_key_may_type_several_characters() {
    let mut desk = desk();
    assert_eq!(desk.send(event(200, "a;;", 0)), Ok(false));
    assert_eq!(desk.host, "xa");
    assert!(desk.runtime.capture.is_active());
    assert_eq!(desk.send(event(200, "women", 0)), Ok(false));
    assert_eq!(desk.host, "xawomen");
    assert_eq!(desk.send(event(200, "wo,", 0)), Ok(false));
    assert_eq!(desk.host, "xa我们，");
}

#[test]
fn the_closing_trigger_converts_and_ends_the_session() {
    let mut desk = desk();
    desk.type_text(";;wo;;");
    assert_eq!(desk.host, "x我们");
    assert_eq!(desk.runtime.capture.mode, CaptureMode::Idle);
    assert_eq!(desk.runtime.session_input_source, None);
    assert_eq!(desk.panel, None);

    desk.type_text(";;wo ;;");
    assert_eq!(desk.host, "x我们我们");
    assert!(!desk.runtime.capture.is_active());
}

#[test]
fn backspace_undoes_a_conversion() {
    let mut desk = desk();
    desk.type_text(";;wo,");
    assert_eq!(desk.host, "x我们，");
    assert_eq!(desk.send(event(KEY_BACKSPACE, "", 0)), Ok(false));
    assert_eq!(desk.host, "xwo,");
    assert_eq!(desk.runtime.capture.buffer, "wo,");
}

#[test]
fn backspaces_end_the_session_after_the_hidden_trigger() {
    let mut desk = desk();
    desk.type_text(";;n");
    assert_eq!(desk.send(event(KEY_BACKSPACE, "", 0)), Ok(false));
    assert_eq!(desk.host, "x");
    assert_eq!(desk.send(event(KEY_BACKSPACE, "", 0)), Ok(true));
    assert_eq!(desk.send(event(KEY_BACKSPACE, "", 0)), Ok(true));
    assert_eq!(desk.host, "x");
    assert!(!desk.runtime.capture.is_active());
    assert_eq!(desk.runtime.session_input_source, None);
    assert_eq!(desk.panel, None);
}

#[test]
fn a_replayed_backspace_deletes_in_the_host() {
    let mut desk = desk();
    desk.type_text(";;ni");
    assert_eq!(desk.send(event(KEY_BACKSPACE, "", MODIFIER_BUFFERED_REPLAY)), Ok(false));
    assert_eq!(desk.host, "xn");
    assert_eq!(desk.runtime.capture.buffer, "n");
}

#[test]
fn replayed_text_is_inserted_with_the_conversion() {
    let mut desk = desk();
    desk.type_text(";;");
    for ch in ["w", "o"] {
        desk.send(event(200, ch, MODIFIER_BUFFERED_REPLAY)).unwrap();
    }
    assert_eq!(desk.host, "x");
    assert_eq!(desk.send(event(200, ",", MODIFIER_BUFFERED_REPLAY)), Ok(false));
    assert_eq!(desk.host, "x我们，");
    assert_eq!(desk.send(event(200, "1", MODIFIER_BUFFERED_REPLAY)), Ok(false));
    assert_eq!(desk.host, "x我们，1");
}

#[test]
fn a_failed_conversion_brings_back_what_was_typed() {
    let mut desk = desk();
    desk.type_text(";;wo");
    desk.engine_fails = true;
    let error = desk.send(event(200, ",", 0)).unwrap_err();
    assert_eq!(
        error,
        ListenerError::Failed(ListenerFailure::Engine(EngineError::CreateSession))
    );
    assert_eq!(error.message(), "failed to create Rime session");
    assert_eq!(
        desk.told,
        [
            "listener candidate panel error after failed rewrite recovery: failed to create Rime \
             session"
        ]
    );
    assert_eq!(desk.host, "xwo,");
    assert_eq!(desk.runtime.capture.buffer, "wo,");
    assert!(desk.runtime.capture.is_active());

    desk.engine_fails = false;
    desk.send(event(KEY_BACKSPACE, "", 0)).unwrap();
    desk.type_text("!");
    assert_eq!(desk.host, "x我们！");
}

#[test]
fn candidates_that_cannot_be_shown_are_an_error_of_the_key() {
    let mut desk = desk();
    desk.type_text(";;");
    desk.engine_fails = true;
    let error = desk.send(event(200, "w", 0)).unwrap_err();
    assert_eq!(error.message(), "failed to create Rime session");
    assert_eq!(desk.host, "xw");
    assert_eq!(desk.runtime.capture.buffer, "w");
}

#[test]
fn a_failed_lookup_types_the_key() {
    let mut desk = desk();
    desk.type_text(";;wo");
    desk.engine_fails = true;
    for key in ["1", "="] {
        let error = desk.send(event(200, key, 0)).unwrap_err();
        assert_eq!(error.message(), "failed to create Rime session");
    }
    assert_eq!(
        desk.told,
        [
            "listener candidate interaction preview error: failed to create Rime session",
            "listener candidate panel error after failed rewrite recovery: failed to create Rime \
             session",
            "listener candidate panel error after failed rewrite recovery: failed to create Rime \
             session",
        ]
    );
    assert_eq!(desk.host, "xwo1=");
    assert_eq!(desk.runtime.capture.buffer, "wo1=");
    assert!(desk.runtime.capture.is_active());

    desk.engine_fails = false;
    desk.type_text("!");
    assert_eq!(desk.host, "x我们1=！");
}

#[test]
fn a_nul_is_not_injected() {
    let mut runtime = listener();
    for ch in [";", ";", "a"] {
        let _ = runtime.handle_event(&event(200, ch, 0));
    }
    runtime.capture.buffer = "a\0".to_owned();
    runtime.capture.buffer_visible = vec![true, true];
    let reaction = runtime.handle_event(&event(200, "1", 0));
    let EventState::Waiting(mut waiting) = reaction.state else {
        panic!("the body is converted first");
    };
    assert_eq!(reaction.commands, vec![NativeCommand::BeginRewrite]);
    let error = loop {
        let reply = match waiting.request() {
            EngineRequest::Open { .. } => EngineReply::Opened(Ok(())),
            EngineRequest::ProcessKey { .. } => EngineReply::Key { accepted: true },
            EngineRequest::ReadContext => EngineReply::Context(None),
            EngineRequest::Close => EngineReply::Closed { ok: true },
            other => panic!("{other:?}"),
        };
        let reaction = runtime.resume(waiting, reply);
        match reaction.state {
            EventState::Waiting(next) => waiting = next,
            EventState::Done(result) => {
                assert_eq!(
                    reaction.commands,
                    vec![
                        NativeCommand::BeginRewrite,
                        NativeCommand::AbortRewrite,
                        NativeCommand::BeginRewrite,
                        NativeCommand::AbortRewrite,
                        NativeCommand::AbortRewrite,
                    ]
                );
                break result.unwrap_err();
            }
        }
    };
    assert_eq!(
        error,
        ListenerError::RecoveryFailed {
            failure: ListenerFailure::Injection(NulError { position: 1 }),
            recovery: NulError { position: 1 },
        }
    );
    assert_eq!(
        error.message(),
        "raw rewrite recovery also failed: replacement text contains an interior NUL byte and \
         cannot be injected: nul byte found in provided data at position: 1: replacement text \
         contains an interior NUL byte and cannot be injected: nul byte found in provided data \
         at position: 1"
    );
}

#[test]
fn failures_have_their_messages() {
    assert_eq!(
        ListenerFailure::Panel(NulError { position: 4 }).message(),
        "nul byte found in provided data at position: 4"
    );
    assert_eq!(ListenerFailure::NoPinyin.message(), "input body has no pinyin runs");
    assert_eq!(
        ListenerFailure::StaleSelection.message(),
        "candidate selection no longer matches the pending pinyin"
    );
}

#[test]
fn troubles_have_their_messages() {
    let panel = |after| Trouble::Panel { after }.message();
    assert_eq!(
        panel(Occasion::Candidate { page_no: 2, index: 0 }),
        "listener candidate panel error after candidate page=2 index=0: "
    );
    for (occasion, name) in [
        (Occasion::SessionStart, "session start"),
        (Occasion::LiteralReplay, "buffered literal replay"),
        (Occasion::Conversion, "conversion"),
        (Occasion::Restore, "conversion restore"),
        (Occasion::Recovery, "failed rewrite recovery"),
        (Occasion::Backspace, "backspace"),
        (Occasion::WordDeletion, "control-w"),
        (Occasion::English, "english"),
        (Occasion::Literal, "no-candidate literal"),
    ] {
        assert_eq!(panel(occasion), format!("listener candidate panel error after {name}: "));
    }
    for (trouble, message) in [
        (
            Trouble::EnglishCommit,
            "listener English commit error; falling back to literal key: ",
        ),
        (Trouble::Interaction, "listener candidate interaction preview error: "),
        (
            Trouble::LiteralCommit,
            "listener no-candidate literal commit error; falling back to ordinary key: ",
        ),
        (
            Trouble::Selection,
            "listener candidate selection error; falling back to literal key: ",
        ),
        (
            Trouble::CandidateCommit,
            "listener candidate commit error; falling back to literal key: ",
        ),
        (Trouble::Boundary, "listener candidate boundary preview error: "),
        (
            Trouble::Page,
            "listener candidate page error; falling back to literal key: ",
        ),
        (Trouble::PagePreview, "listener candidate page preview error: "),
    ] {
        assert_eq!(trouble.message(), message);
    }
}

#[test]
fn the_user_is_told_where_candidates_cannot_be_shown() {
    let mut desk = desk();
    desk.type_text(";;wo");
    desk.engine_fails = true;
    assert_eq!(desk.send(event(KEY_BACKSPACE, "", 0)), Ok(false));
    assert_eq!(
        desk.told,
        ["listener candidate panel error after backspace: failed to create Rime session"]
    );
    assert_eq!(desk.host, "xw");
}

#[test]
fn bodies_are_converted_as_a_whole_in_rime_auto_mode() {
    let auto = || {
        let config = AppConfig {
            conversion_mode: ConversionMode::RimeAuto,
            ..AppConfig::default()
        };
        Desk {
            runtime: ListenerRuntime::new("luna".to_owned(), config, 128, 1),
            ..desk()
        }
    };

    let mut desk = auto();
    desk.type_text(";;wo,");
    assert_eq!(desk.typed, "wo,");
    assert_eq!(desk.host, "x我们");
    desk.type_text("wo\"");
    assert_eq!(desk.typed, "wo\"");
    assert_eq!(desk.host, "x我们我们");
    assert_eq!(desk.runtime.quote_state, QuoteState::default());
    desk.type_text("wo;;");
    assert_eq!(desk.host, "x我们我们我们");
    assert!(!desk.runtime.capture.is_active());

    let mut desk = auto();
    desk.no_candidates = true;
    desk.type_text(";;a,");
    assert_eq!(desk.host, "xa,");

    let mut desk = auto();
    desk.type_text(";;wo");
    desk.engine_fails = true;
    assert_eq!(
        desk.send(event(200, ",", 0)),
        Err(ListenerError::Failed(ListenerFailure::Engine(EngineError::CreateSession)))
    );
    assert_eq!(desk.host, "xwo,");
}

#[test]
fn clicks_and_context_changes_end_the_session() {
    for event_type in [EVENT_MOUSE, EVENT_CONTEXT] {
        let mut desk = desk();
        desk.type_text(";;wo");
        let mut rewriting = event(0, "", MODIFIER_REWRITE_ACTIVE);
        rewriting.event_type = event_type;
        assert_eq!(desk.send(rewriting), Ok(false));
        assert!(desk.runtime.capture.is_active());

        let mut plain = event(0, "", 0);
        plain.event_type = event_type;
        assert_eq!(desk.send(plain), Ok(false));
        assert!(!desk.runtime.capture.is_active());
        assert!(desk.runtime.capture.buffer.is_empty());
        assert_eq!(desk.panel, None);
    }
}

#[test]
fn other_events_are_ignored() {
    let mut desk = desk();
    desk.type_text(";;wo");
    let mut released = event(200, "x", 0);
    released.status = 2;
    let reaction = desk.runtime.handle_event(&released);
    assert!(reaction.commands.is_empty());
    let mut unknown = event(200, "x", 0);
    unknown.event_type = 9;
    let reaction = desk.runtime.handle_event(&unknown);
    assert!(matches!(reaction.state, EventState::Done(Ok(false))));
    let reaction = desk.runtime.handle_event(&event(200, "", 0));
    assert!(matches!(reaction.state, EventState::Done(Ok(false))));
    assert_eq!(desk.runtime.capture.buffer, "wo");
}

#[test]
fn boundary_keys_and_shortcuts_end_the_session() {
    let keys = [
        (KEY_ENTER, 0),
        (KEY_ESCAPE, 0),
        (KEY_ARROW_LEFT, 0),
        (KEY_TAB, MODIFIER_COMMAND),
        (KEY_GRAVE, MODIFIER_COMMAND),
        (KEY_BACKSPACE, MODIFIER_OPTION),
        (KEY_H, MODIFIER_CONTROL),
        (KEY_C, MODIFIER_CONTROL),
        (KEY_V, MODIFIER_COMMAND),
    ];
    for (key_code, modifiers) in keys {
        let mut desk = desk();
        desk.type_text(";;wo");
        assert_eq!(desk.send(event(key_code, "", modifiers)), Ok(false));
        assert!(!desk.runtime.capture.is_active(), "key {key_code}");
    }
    let mut desk = desk();
    desk.type_text(";;wo");
    assert_eq!(desk.send(event(KEY_TAB, "", MODIFIER_OPTION)), Ok(false));
    assert!(desk.runtime.capture.is_active());
}

#[test]
fn control_w_takes_the_last_word() {
    let mut desk = desk();
    desk.type_text(";;wo");
    assert_eq!(desk.send(event(KEY_W, "", MODIFIER_CONTROL)), Ok(false));
    assert!(desk.runtime.capture.is_active());
    assert!(desk.runtime.capture.buffer.is_empty());
    assert_eq!(desk.send(event(KEY_W, "", MODIFIER_CONTROL)), Ok(false));
    assert!(!desk.runtime.capture.is_active());

    let mut hidden = desk_with_hidden_word();
    assert_eq!(hidden.send(event(KEY_W, "", MODIFIER_CONTROL)), Ok(true));
    assert!(hidden.runtime.capture.buffer.is_empty());
    assert_eq!(
        rime_poc::actions::DeletePreviousWordOutcome { removed_chars: 2, removed_visible_chars: 0 }
            .disposition(),
        DeletePreviousWordDisposition::Consume
    );
}

fn desk_with_hidden_word() -> Desk {
    let mut desk = desk();
    desk.type_text(";;");
    for ch in ["w", "o"] {
        desk.send(event(200, ch, MODIFIER_BUFFERED_REPLAY)).unwrap();
    }
    desk
}

#[test]
fn a_mixed_word_is_not_guessed_at() {
    let mut desk = desk_with_hidden_word();
    desk.type_text("n");
    assert_eq!(desk.send(event(KEY_W, "", MODIFIER_CONTROL)), Ok(false));
    assert!(!desk.runtime.capture.is_active());
}

#[test]
fn a_word_deletion_leaves_the_host_in_step() {
    let mut desk = desk();
    desk.type_text(";;ni hao");
    assert_eq!(desk.host, "x我们hao");
    assert_eq!(desk.send(event(KEY_W, "", MODIFIER_CONTROL)), Ok(false));
    desk.host.truncate("x我们".len());
    assert_eq!(desk.runtime.capture.buffer, "");
    desk.type_text("wo,");
    assert_eq!(desk.host, "x我们我们，");

    let mut desk = desk_with_hidden_word();
    assert_eq!(desk.send(event(KEY_W, "", MODIFIER_CONTROL)), Ok(true));
    assert_eq!(desk.host, "x");
    assert_eq!(desk.runtime.capture.buffer, "");
}

#[test]
fn there_is_a_reason_for_forgetting() {
    let mut desk = desk();
    desk.type_text(";;wo");
    let reason = |desk: &Desk, event: InputEvent| desk.runtime.clear_reason(&event);
    let told = |text: &str| Some(text.to_owned());
    let mut mouse = event(0, "", 0);
    mouse.event_type = EVENT_MOUSE;
    assert_eq!(reason(&desk, mouse), told("mouse event"));
    let mut context = event(0, "app", 0);
    context.event_type = EVENT_CONTEXT;
    assert_eq!(reason(&desk, context), told("context changed: app"));
    context.buffer_len = 0;
    assert_eq!(reason(&desk, context), told("context changed"));
    context.modifier_flags = MODIFIER_REWRITE_ACTIVE;
    assert_eq!(reason(&desk, context), None);
    context.event_type = 9;
    assert_eq!(reason(&desk, context), None);
    context.status = 0;
    assert_eq!(reason(&desk, context), None);

    let foreign = from_source(event(200, "n", 0), "source=x");
    assert_eq!(reason(&desk, foreign), told("non-system input source: \"source=x\""));
    let other = from_source(event(200, "n", 0), "source=com.apple.x");
    let change = format!("input source changed: {ABC:?} -> \"source=com.apple.x\"");
    assert_eq!(reason(&desk, other), Some(change));

    for (key, flags, text) in [
        (KEY_TAB, MODIFIER_COMMAND, "window switch shortcut"),
        (KEY_BACKSPACE, MODIFIER_OPTION, "unmodeled modified deletion"),
        (KEY_H, MODIFIER_CONTROL, "unmodeled modified deletion"),
        (KEY_C, MODIFIER_CONTROL, "control-c shortcut"),
        (KEY_V, MODIFIER_COMMAND, "command shortcut key 9"),
        (KEY_ESCAPE, 0, "key 53"),
    ] {
        assert_eq!(reason(&desk, event(key, "", flags)), told(text));
    }
    for (key, text, flags) in [
        (KEY_W, "", MODIFIER_CONTROL),
        (KEY_BACKSPACE, "", 0),
        (200, "n", 0),
        (200, "n", MODIFIER_COMMAND),
    ] {
        assert_eq!(reason(&desk, event(key, text, flags)), None);
    }
    desk.send(event(200, "n", MODIFIER_BUFFERED_REPLAY)).unwrap();
    let word = event(KEY_W, "", MODIFIER_CONTROL);
    let mixed = "control-w had mixed or unmapped pending raw text";
    assert_eq!(reason(&desk, word), told(mixed));
    desk.runtime.clear();
    assert_eq!(reason(&desk, word), told("control-w with no pending raw text"));
}

#[test]
fn keys_of_other_input_sources_pass() {
    let mut desk = desk();
    desk.type_text(";;wo");
    let foreign = from_source(event(200, "n", 0), "source=com.bytedance.pinyin|ascii=0");
    assert_eq!(desk.send(foreign), Ok(false));
    assert!(!desk.runtime.capture.is_active());
    assert_eq!(desk.panel, None);

    let unknown = from_source(event(200, "n", 0), "");
    assert_eq!(event_input_source_fingerprint(&unknown), "<unknown>");
    let reaction = desk.runtime.handle_event(&unknown);
    assert!(reaction.commands.is_empty());
}

#[test]
fn a_session_ends_when_the_input_source_changes() {
    let mut desk = desk();
    desk.type_text(";;wo");
    let other = from_source(event(200, "n", 0), "source=com.apple.keylayout.German");
    assert_eq!(desk.send(other), Ok(false));
    assert!(!desk.runtime.capture.is_active());
    assert_eq!(desk.runtime.session_input_source, None);
}

#[test]
fn modifiers_are_read_from_their_bits() {
    let plain = event(0, "", 8);
    assert!(!plain.has_command_modifier());
    assert!(!plain.has_control_modifier());
    assert!(!plain.has_text_modifier());
    assert!(!plain.is_buffered_replay());
    assert!(!plain.is_rewrite_active());
    assert!(event(0, "", MODIFIER_COMMAND).has_command_modifier());
    assert!(event(0, "", MODIFIER_CONTROL).has_control_modifier());
    assert!(event(0, "", MODIFIER_OPTION).has_text_modifier());
    assert!(event(0, "", MODIFIER_BUFFERED_REPLAY).is_buffered_replay());
    assert!(event(0, "", MODIFIER_REWRITE_ACTIVE).is_rewrite_active());
    let all = event(0, "", u32::MAX);
    assert!(all.has_command_modifier() && all.has_control_modifier() && all.has_text_modifier());
}

#[test]
fn events_hold_their_text() {
    assert_eq!(event(0, "ñ我", 0).text(), "ñ我");
    assert_eq!(event(0, "", 0).input_source_fingerprint(), ABC);
    let mut invalid = event(0, "ab", 0);
    invalid.buffer[1] = 0xff;
    assert_eq!(invalid.text(), "a\u{fffd}");
    invalid.buffer_len = 1000;
    assert_eq!(invalid.text().chars().count(), 64);

    let mut buffer = [0u8; 64];
    buffer[0] = b'q';
    let event = platform::InputEvent {
        event_type: platform::EVENT_KEYBOARD,
        status: platform::STATUS_PRESSED,
        key_code: 12,
        buffer,
        buffer_len: 1,
    };
    assert_eq!(event.text(), "q");
}

#[test]
fn candidates_are_labelled_with_their_keys() {
    let preview = CandidatePreview {
        preedit: "ni".to_owned(),
        candidates: vec!["你".to_owned(), "呢".to_owned(), "泥".to_owned()],
        page_no: 0,
        is_last_page: true,
    };
    let config = AppConfig {
        candidate_select_keys: "98".to_owned(),
        candidate_layout: CandidateLayout::Vertical,
        ..AppConfig::default()
    };
    assert_eq!(
        show_candidate_preview(&config, &preview),
        Ok(NativeCommand::UpdatePanel {
            preedit: "ni".to_owned(),
            candidates: "9. 你\n8. 呢".to_owned(),
            layout: 1,
        })
    );
    assert_eq!(
        update_candidate_panel("a\0", &[], CandidateLayout::Horizontal),
        Err(NulError { position: 1 })
    );
    assert_eq!(
        update_candidate_panel("a", &["b".to_owned(), "\0".to_owned()], CandidateLayout::Horizontal),
        Err(NulError { position: 2 })
    );
    assert_eq!(
        update_candidate_panel("a", &[], CandidateLayout::Horizontal),
        Ok(NativeCommand::UpdatePanel {
            preedit: "a".to_owned(),
            candidates: String::new(),
            layout: 0,
        })
    );
}

#[test]
fn windows_keys_and_injections() {
    assert!(win::is_backspace_key(0x08));
    assert!(!win::is_backspace_key(0x0D));
    for key in [0x0D, 0x1B, 0x25, 0x26, 0x27, 0x28] {
        assert!(win::is_buffer_boundary_key(key));
    }
    assert!(!win::is_buffer_boundary_key(0x08));
    assert_eq!(
        win::inject_backspaces(3, 1),
        win::Injection::Backspaces { count: 3, delay_ms: 1 }
    );
    assert_eq!(
        win::inject_string("好", 2),
        Ok(win::Injection::Text { text: "好".to_owned(), delay_ms: 2 })
    );
    assert_eq!(win::inject_string("\0", 2), Err(NulError { position: 0 }));
}
