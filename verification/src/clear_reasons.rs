//! Why the listener forgets what it has collected, as the user reads it.

use vstd::prelude::*;

use crate::actions::{text_option, DeletePreviousWordDisposition};
use crate::listener::{ListenerRuntime, RuntimeView};
use crate::mac::{
    event_input_source_fingerprint, InputEvent, EVENT_CONTEXT, EVENT_KEYBOARD, EVENT_MOUSE, KEY_A,
    KEY_ARROW_DOWN, KEY_ARROW_LEFT, KEY_ARROW_RIGHT, KEY_ARROW_UP, KEY_BACKSPACE, KEY_C, KEY_ENTER,
    KEY_ESCAPE, KEY_GRAVE, KEY_H, KEY_RETURN, KEY_TAB, KEY_V, KEY_W, KEY_X, KEY_Z, STATUS_PRESSED,
};
use crate::reactions::{EventStateView, InputView};
use crate::sources::{fingerprint_or_unknown, input_source_is_system, system_source};
use crate::text::{debug_str, decimal, decimal_of, join, same, str_debug};

verus! {

impl RuntimeView {
    /// Why a key with a modifier makes the listener forget, where it does.
    pub open spec fn modified_reason(self, event: InputEvent) -> Option<Seq<char>> {
        if event.control() && event.key_code == KEY_W {
            if self.capture.buffer.len() == 0 {
                Some("control-w with no pending raw text"@)
            } else if self.capture.word_outcome().disposed()
                == DeletePreviousWordDisposition::ClearAndPassThrough {
                Some("control-w had mixed or unmapped pending raw text"@)
            } else {
                None
            }
        } else if event.key_code == KEY_BACKSPACE || (event.control() && event.key_code == KEY_H) {
            Some("unmodeled modified deletion"@)
        } else if event.control() && event.key_code == KEY_C {
            Some("control-c shortcut"@)
        } else if event.command() && (event.key_code == KEY_A || event.key_code == KEY_C
            || event.key_code == KEY_V || event.key_code == KEY_X || event.key_code == KEY_Z) {
            Some("command shortcut key "@ + decimal(event.key_code as nat))
        } else {
            None
        }
    }

    /// Why a pressed key makes the listener forget, where it does, with `source` as the input
    /// source in use.
    pub open spec fn key_reason(self, event: InputEvent, source: Seq<char>) -> Option<Seq<char>> {
        if !system_source(source) {
            Some("non-system input source: "@ + str_debug(source))
        } else if self.capture.active() && self.session_input_source is Some
            && self.session_input_source != Some(source) {
            Some(
                "input source changed: "@ + str_debug(self.session_input_source->0) + " -> "@
                    + str_debug(source),
            )
        } else if event.command() && (event.key_code == KEY_TAB || event.key_code == KEY_GRAVE) {
            Some("window switch shortcut"@)
        } else if event.command() || event.control() || event.option() {
            self.modified_reason(event)
        } else if event.key_code == KEY_ENTER || event.key_code == KEY_RETURN || event.key_code
            == KEY_ESCAPE || event.key_code == KEY_ARROW_LEFT || event.key_code == KEY_ARROW_RIGHT
            || event.key_code == KEY_ARROW_DOWN || event.key_code == KEY_ARROW_UP {
            Some("key "@ + decimal(event.key_code as nat))
        } else {
            None
        }
    }

    /// Why an event makes the listener forget what it has collected, where it does.
    pub open spec fn clear_reason(self, event: InputEvent) -> Option<Seq<char>> {
        if event.status != STATUS_PRESSED {
            None
        } else if event.event_type == EVENT_MOUSE || event.event_type == EVENT_CONTEXT {
            if event.rewriting() {
                None
            } else if event.event_type == EVENT_MOUSE {
                Some("mouse event"@)
            } else if event.typed().len() == 0 {
                Some("context changed"@)
            } else {
                Some("context changed: "@ + event.typed())
            }
        } else if event.event_type != EVENT_KEYBOARD {
            None
        } else {
            self.key_reason(event, fingerprint_or_unknown(event.source()))
        }
    }
}

/// What is said of a key.
fn of_key(said: &str, key_code: u32) -> (r: String)
    ensures
        r@ == said@ + decimal(key_code as nat),
{
    join(said, &decimal_of(key_code as usize))
}

impl ListenerRuntime {
    /// Why a key with a modifier makes the listener forget, where it does.
    fn modified_key_reason(&self, event: &InputEvent) -> (r: Option<String>)
        requires
            self@.capture.wf(),
        ensures
            text_option(r) == self@.modified_reason(*event),
    {
        if event.has_control_modifier() && event.key_code == KEY_W {
            if self.capture.buffer.as_str().is_empty() {
                return Some("control-w with no pending raw text".to_owned());
            }
            let mut capture = self.capture.clone();
            return match capture.delete_previous_word().disposition() {
                DeletePreviousWordDisposition::ClearAndPassThrough => Some(
                    "control-w had mixed or unmapped pending raw text".to_owned(),
                ),
                _ => None,
            };
        }
        if event.key_code == KEY_BACKSPACE || (event.has_control_modifier() && event.key_code
            == KEY_H) {
            return Some("unmodeled modified deletion".to_owned());
        }
        if event.has_control_modifier() && event.key_code == KEY_C {
            return Some("control-c shortcut".to_owned());
        }
        if event.has_command_modifier() && matches!(
            event.key_code,
            KEY_A | KEY_C | KEY_V | KEY_X | KEY_Z
        ) {
            return Some(of_key("command shortcut key ", event.key_code));
        }
        None
    }

    /// Why an event makes the listener forget what it has collected, where it does.
    pub fn clear_reason(&self, event: &InputEvent) -> (r: Option<String>)
        requires
            self@.capture.wf(),
        ensures
            text_option(r) == self@.clear_reason(*event),
    {
        if event.status != STATUS_PRESSED {
            return None;
        }
        if event.event_type == EVENT_MOUSE || event.event_type == EVENT_CONTEXT {
            if event.is_rewrite_active() {
                return None;
            }
            if event.event_type == EVENT_MOUSE {
                return Some("mouse event".to_owned());
            }
            let text = event.text();
            return if text.as_str().is_empty() {
                Some("context changed".to_owned())
            } else {
                Some(join("context changed: ", &text))
            };
        }
        if event.event_type != EVENT_KEYBOARD {
            return None;
        }
        let source = event_input_source_fingerprint(event);
        if !input_source_is_system(&source) {
            return Some(join("non-system input source: ", &debug_str(&source)));
        }
        if self.capture.is_active() {
            if let Some(previous) = &self.session_input_source {
                if !same(previous, &source) {
                    let mut reason = join("input source changed: ", &debug_str(previous));
                    reason.append(" -> ");
                    reason.append(&debug_str(&source));
                    return Some(reason);
                }
            }
        }
        if event.has_command_modifier() && matches!(event.key_code, KEY_TAB | KEY_GRAVE) {
            return Some("window switch shortcut".to_owned());
        }
        if event.has_text_modifier() {
            return self.modified_key_reason(event);
        }
        match event.key_code {
            KEY_ENTER
            | KEY_RETURN
            | KEY_ESCAPE
            | KEY_ARROW_LEFT
            | KEY_ARROW_RIGHT
            | KEY_ARROW_DOWN
            | KEY_ARROW_UP => Some(of_key("key ", event.key_code)),
            _ => None,
        }
    }
}

impl RuntimeView {
    /// The listener with the input source of its session known.
    pub open spec fn with_source(self, source: Seq<char>) -> RuntimeView {
        if self.capture.active() {
            RuntimeView { session_input_source: Some(source), ..self }
        } else {
            self
        }
    }
}

impl InputEvent {
    /// The text that a key types.
    pub open spec fn input(self) -> InputView {
        InputView {
            text: self.typed(),
            key_code: self.key_code,
            replayed: self.replayed(),
            input_source: fingerprint_or_unknown(self.source()),
        }
    }
}

/// Where there is a reason, the listener forgets everything and the event reaches the host.
/// Where there is none, the listener does not forget at once: it ignores the event, or takes it
/// for Backspace, for the deletion of a word or for text.
pub proof fn law_clear_reasons_are_true(rt: RuntimeView, event: InputEvent)
    ensures
        rt.clear_reason(event) is Some ==> rt.reacts(event).0 == rt.cleared() && rt.reacts(
            event,
        ).1.state == EventStateView::Done(Ok(false)),
        rt.clear_reason(event) is None ==> {
            let known = rt.with_source(fingerprint_or_unknown(event.source()));
            ||| rt.reacts(event) == rt.ignores()
            ||| rt.reacts(event) == known.ignores()
            ||| rt.reacts(event) == known.backspaces(event.replayed()) && event.key_code
                == KEY_BACKSPACE
            ||| rt.reacts(event).0 == (RuntimeView {
                capture: rt.capture.word_deleted(),
                ..known
            }) && event.control() && event.key_code == KEY_W
            ||| rt.reacts(event) == known.keyed(event.input()) && event.typed().len() > 0
        },
{
    let source = fingerprint_or_unknown(event.source());
    let known = rt.with_source(source);
    assert(known.cleared() == rt.cleared());
    if event.status == STATUS_PRESSED && event.event_type == EVENT_KEYBOARD && system_source(
        source,
    ) && !(rt.capture.active() && rt.session_input_source is Some && rt.session_input_source
        != Some(source)) {
        if rt.session_input_source == Some(source) {
            assert(known == rt);
        }
        assert(rt.reacts(event) == known.pressed(event, source));
        let deleted = RuntimeView { capture: rt.capture.word_deleted(), ..known };
        assert(deleted.cleared() == rt.cleared());
    }
}

} // verus!
