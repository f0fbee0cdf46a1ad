//! Input events on macOS, and what is asked for in answer to them.

use vstd::prelude::*;

use crate::bytes::{check_nul, filled, host_takes, text_in, utf8_lossy, NulError};
use crate::config::CandidateLayout;
use crate::engine::texts;
use crate::failures::{FailureView, ListenerFailure, Trouble};
use crate::sources::{fingerprint_or_unknown, known_fingerprint};

verus! {

pub const PLATFORM_NAME: &'static str = "macOS";

pub const EVENT_KEYBOARD: i32 = 1;
pub const EVENT_MOUSE: i32 = 2;
pub const EVENT_CONTEXT: i32 = 3;
pub const STATUS_PRESSED: i32 = 1;

pub const MODIFIER_COMMAND: u32 = 1;
pub const MODIFIER_CONTROL: u32 = 2;
pub const MODIFIER_OPTION: u32 = 4;
pub const MODIFIER_BUFFERED_REPLAY: u32 = 16;
pub const MODIFIER_REWRITE_ACTIVE: u32 = 32;

pub const KEY_BACKSPACE: u32 = 51;
pub const KEY_ENTER: u32 = 36;
pub const KEY_RETURN: u32 = 76;
pub const KEY_ESCAPE: u32 = 53;
pub const KEY_A: u32 = 0;
pub const KEY_C: u32 = 8;
pub const KEY_H: u32 = 4;
pub const KEY_V: u32 = 9;
pub const KEY_W: u32 = 13;
pub const KEY_X: u32 = 7;
pub const KEY_Z: u32 = 6;
pub const KEY_TAB: u32 = 48;
pub const KEY_SPACE: u32 = 49;
pub const KEY_GRAVE: u32 = 50;
pub const KEY_ARROW_LEFT: u32 = 123;
pub const KEY_ARROW_RIGHT: u32 = 124;
pub const KEY_ARROW_DOWN: u32 = 125;
pub const KEY_ARROW_UP: u32 = 126;

/// An event of the host. The first `buffer_len` bytes of `buffer` hold the text of a key, or
/// why the context changed; those of `source_buffer` say which input source is in use.
#[derive(Debug, Clone, Copy, PartialEq, Eq)]
pub struct InputEvent {
    pub event_type: i32,
    pub status: i32,
    pub key_code: u32,
    pub modifier_flags: u32,
    pub buffer: [u8; 64],
    pub buffer_len: usize,
    pub source_buffer: [u8; 256],
    pub source_buffer_len: usize,
}

impl InputEvent {
    /// The text of the key.
    pub open spec fn typed(self) -> Seq<char> {
        utf8_lossy(filled(self.buffer@, self.buffer_len))
    }

    /// The input source in use.
    pub open spec fn source(self) -> Seq<char> {
        utf8_lossy(filled(self.source_buffer@, self.source_buffer_len))
    }

    /// The text of the key.
    pub fn text(&self) -> (r: String)
        ensures
            r@ == self.typed(),
            vstd::utf8::valid_utf8(filled(self.buffer@, self.buffer_len)) ==> r@
                == vstd::utf8::decode_utf8(filled(self.buffer@, self.buffer_len)),
    {
        text_in(&self.buffer, self.buffer_len)
    }

    /// The input source in use.
    pub fn input_source_fingerprint(&self) -> (r: String)
        ensures
            r@ == self.source(),
            vstd::utf8::valid_utf8(filled(self.source_buffer@, self.source_buffer_len)) ==> r@
                == vstd::utf8::decode_utf8(filled(self.source_buffer@, self.source_buffer_len)),
    {
        text_in(&self.source_buffer, self.source_buffer_len)
    }

    /// The command key is held.
    pub open spec fn command(self) -> bool {
        self.modifier_flags & MODIFIER_COMMAND != 0
    }

    /// The control key is held.
    pub open spec fn control(self) -> bool {
        self.modifier_flags & MODIFIER_CONTROL != 0
    }

    /// The option key is held.
    pub open spec fn option(self) -> bool {
        self.modifier_flags & MODIFIER_OPTION != 0
    }

    /// The event was held back during a rewrite and comes again.
    pub open spec fn replayed(self) -> bool {
        self.modifier_flags & MODIFIER_BUFFERED_REPLAY != 0
    }

    /// A rewrite is going on.
    pub open spec fn rewriting(self) -> bool {
        self.modifier_flags & MODIFIER_REWRITE_ACTIVE != 0
    }

    /// Is the command key held?
    pub fn has_command_modifier(&self) -> (r: bool)
        ensures
            r == self.command(),
    {
        self.modifier_flags & MODIFIER_COMMAND != 0
    }

    /// Is the control key held?
    pub fn has_control_modifier(&self) -> (r: bool)
        ensures
            r == self.control(),
    {
        self.modifier_flags & MODIFIER_CONTROL != 0
    }

    /// Is a modifier held with which a key types no text?
    pub fn has_text_modifier(&self) -> (r: bool)
        ensures
            r == (self.command() || self.control() || self.option()),
    {
        let flags = self.modifier_flags;
        assert(flags & (1u32 | 2u32 | 4u32) != 0 <==> (flags & 1 != 0 || flags & 2 != 0 || flags & 4
            != 0)) by (bit_vector);
        flags & (MODIFIER_COMMAND | MODIFIER_CONTROL | MODIFIER_OPTION) != 0
    }

    /// Was the event held back during a rewrite?
    pub fn is_buffered_replay(&self) -> (r: bool)
        ensures
            r == self.replayed(),
    {
        self.modifier_flags & MODIFIER_BUFFERED_REPLAY != 0
    }

    /// Is a rewrite going on?
    pub fn is_rewrite_active(&self) -> (r: bool)
        ensures
            r == self.rewriting(),
    {
        self.modifier_flags & MODIFIER_REWRITE_ACTIVE != 0
    }
}

/// The input source of an event, and what stands for one that is not known.
pub fn event_input_source_fingerprint(event: &InputEvent) -> (r: String)
    ensures
        r@ == fingerprint_or_unknown(event.source()),
{
    known_fingerprint(event.input_source_fingerprint())
}

/// What is asked for: the host is to do something, or the user is to be told something. None of
/// it is answered.
#[derive(Debug, PartialEq, Eq)]
pub enum NativeCommand {
    /// Hold back input from here on.
    BeginRewrite,
    /// Let held back input through again without a rewrite.
    AbortRewrite,
    /// Delete characters before the cursor, insert the text, and let held back input through
    /// again.
    CommitRewrite { delete_chars: u32, text: String, delay_ms: i32 },
    /// Show the candidates, one to a line; `layout` is 0 for a row and 1 for a column.
    UpdatePanel { preedit: String, candidates: String, layout: i32 },
    HidePanel,
    /// Tell the user of a failure without which the event goes on.
    Report { trouble: Trouble, failure: ListenerFailure },
}

/// What a [`NativeCommand`] holds.
#[verifier::ext_equal]
pub enum CommandView {
    BeginRewrite,
    AbortRewrite,
    CommitRewrite { delete_chars: u32, text: Seq<char>, delay_ms: i32 },
    UpdatePanel { preedit: Seq<char>, candidates: Seq<char>, layout: i32 },
    HidePanel,
    Report { trouble: Trouble, failure: FailureView },
}

impl View for NativeCommand {
    type V = CommandView;

    open spec fn view(&self) -> CommandView {
        match *self {
            NativeCommand::BeginRewrite => CommandView::BeginRewrite,
            NativeCommand::AbortRewrite => CommandView::AbortRewrite,
            NativeCommand::CommitRewrite { delete_chars, text, delay_ms } =>
            CommandView::CommitRewrite { delete_chars, text: text@, delay_ms },
            NativeCommand::UpdatePanel { preedit, candidates, layout } =>
            CommandView::UpdatePanel { preedit: preedit@, candidates: candidates@, layout },
            NativeCommand::HidePanel => CommandView::HidePanel,
            NativeCommand::Report { trouble, failure } => CommandView::Report {
                trouble,
                failure: failure@,
            },
        }
    }
}

/// What each command of a list holds.
pub open spec fn command_views(commands: Seq<NativeCommand>) -> Seq<CommandView> {
    commands.map_values(|c: NativeCommand| c@)
}

/// What a command, or the reason why there is none, holds.
pub open spec fn command_result(r: Result<NativeCommand, NulError>) -> Result<
    CommandView,
    NulError,
> {
    match r {
        Ok(c) => Ok(c@),
        Err(e) => Err(e),
    }
}

/// The texts, with a line break between each two.
pub open spec fn lines(list: Seq<Seq<char>>) -> Seq<char>
    decreases list.len(),
{
    if list.len() == 0 {
        seq![]
    } else if list.len() == 1 {
        list[0]
    } else {
        lines(list.drop_last()).push('\n') + list.last()
    }
}

/// Puts the strings together, with a line break between each two.
pub fn join_lines(list: &[String]) -> (r: String)
    ensures
        r@ == lines(texts(list@)),
{
    let mut out = String::new();
    let mut i: usize = 0;
    let ghost all = texts(list@);
    assert(out@ =~= lines(all.take(0)));
    while i < list.len()
        invariant
            i <= list@.len(),
            all == texts(list@),
            out@ == lines(all.take(i as int)),
        decreases list.len() - i,
    {
        let ghost before = all.take(i as int);
        let ghost after = all.take(i + 1);
        assert(after.drop_last() =~= before);
        assert(after.last() == list@[i as int]@);
        if i > 0 {
            out.push('\n');
        }
        out.append(&list[i]);
        assert(out@ =~= lines(after));
        i = i + 1;
    }
    assert(all.take(i as int) =~= all);
    out
}

/// The number by which the host knows a layout.
pub open spec fn layout_number(layout: CandidateLayout) -> i32 {
    match layout {
        CandidateLayout::Horizontal => 0,
        CandidateLayout::Vertical => 1,
    }
}

/// The command that shows candidates, or the NUL because of which they cannot be shown: the
/// first of the composed text, else the first of the candidates.
pub open spec fn panel_update(
    preedit: Seq<char>,
    candidates: Seq<Seq<char>>,
    layout: CandidateLayout,
) -> Result<CommandView, NulError> {
    match host_takes(preedit) {
        Err(e) => Err(e),
        Ok(_) => match host_takes(lines(candidates)) {
            Err(e) => Err(e),
            Ok(_) => Ok(
                CommandView::UpdatePanel {
                    preedit,
                    candidates: lines(candidates),
                    layout: layout_number(layout),
                },
            ),
        },
    }
}

/// The command that shows candidates.
pub fn update_candidate_panel(preedit: &str, candidates: &[String], layout: CandidateLayout) -> (r:
    Result<NativeCommand, NulError>)
    ensures
        command_result(r) == panel_update(preedit@, texts(candidates@), layout),
{
    check_nul(preedit)?;
    let candidates = join_lines(candidates);
    check_nul(&candidates)?;
    let layout: i32 = match layout {
        CandidateLayout::Horizontal => 0,
        CandidateLayout::Vertical => 1,
    };
    Ok(NativeCommand::UpdatePanel { preedit: preedit.to_owned(), candidates, layout })
}

/// The command that hides the candidates.
pub fn hide_candidate_panel() -> (r: NativeCommand)
    ensures
        r@ == CommandView::HidePanel,
{
    NativeCommand::HidePanel
}

/// The command with which a rewrite begins.
pub fn begin_rewrite_transaction() -> (r: NativeCommand)
    ensures
        r@ == CommandView::BeginRewrite,
{
    NativeCommand::BeginRewrite
}

/// The command with which a rewrite is given up.
pub fn cancel_rewrite_transaction() -> (r: NativeCommand)
    ensures
        r@ == CommandView::AbortRewrite,
{
    NativeCommand::AbortRewrite
}

/// The command that ends a rewrite, or the NUL because of which the text cannot be injected.
/// The host counts what it deletes in 32 bits.
pub open spec fn rewrite_commit(delete_chars: usize, text: Seq<char>, delay_ms: i32) -> Result<
    CommandView,
    NulError,
> {
    match host_takes(text) {
        Err(e) => Err(e),
        Ok(_) => Ok(
            CommandView::CommitRewrite { delete_chars: delete_chars as u32, text, delay_ms },
        ),
    }
}

/// The command that ends a rewrite.
pub fn commit_rewrite_transaction(delete_chars: usize, replacement_text: &str, delay_ms: i32) -> (r:
    Result<NativeCommand, NulError>)
    ensures
        command_result(r) == rewrite_commit(delete_chars, replacement_text@, delay_ms),
{
    check_nul(replacement_text)?;
    Ok(
        NativeCommand::CommitRewrite {
            delete_chars: #[verifier::truncate] (delete_chars as u32),
            text: replacement_text.to_owned(),
            delay_ms,
        },
    )
}

} // verus!
