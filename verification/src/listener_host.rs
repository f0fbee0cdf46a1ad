//! The listener and the text of its host: what the listener takes the host to show is what the
//! host shows once it has done as it was asked.

use vstd::prelude::*;

use crate::actions::{ActionView, DeletePreviousWordDisposition};
use crate::bytes::host_takes;
use crate::candidate_session::{ChoiceView, LookupView};
use crate::candidates::{OutcomeView, PreviewView};
use crate::capture::{chars_shown, count_visible, CaptureView};
use crate::config::CandidateInteractionKey;
use crate::conversion::ConvertedView;
use crate::engine::{EngineErrorView, ProgressView, ReplyView};
use crate::host::{
    after_text, law_backspace_keeps_the_host_in_step, law_candidate_keeps_the_host_in_step,
    law_pending_commit_keeps_the_host_in_step, law_restore_keeps_the_host_in_step,
    law_typing_text_keeps_the_host_in_step, law_word_deletion_keeps_the_host_in_step,
    lemma_all_shown, lemma_collected_in_step, lemma_finishes_concat, lemma_shown_counts, printable,
    rewritten,
};
use crate::failures::{FailureView, ListenerErrorView, Occasion, Trouble};
use crate::listener::{
    best_effort, commit_occasion, commit_space, interaction_for, preview_shown, told, RuntimeView,
};
use crate::mac::{CommandView, InputEvent, KEY_W};
use crate::reactions::{
    EndingView, EventStateView, InputView, InteractionView, PendingConversionView, ReactionView,
    RecoveryView, WaitingView,
};
use crate::rewrite::rewrite_commands;
use crate::rime_auto::ConverterView;
use crate::separators::no_quote;

verus! {

/// The host's text after the commands.
pub open spec fn performed(host: Seq<char>, commands: Seq<CommandView>) -> Seq<char>
    decreases commands.len(),
{
    if commands.len() == 0 {
        host
    } else {
        let before = performed(host, commands.drop_last());
        match commands.last() {
            CommandView::CommitRewrite { delete_chars, text, .. } => rewritten(
                before,
                delete_chars as int,
                text,
            ),
            _ => before,
        }
    }
}

/// The commands do not rewrite anything.
pub open spec fn inert(commands: Seq<CommandView>) -> bool {
    forall|i: int| 0 <= i < commands.len() ==> #[trigger] commands[i] !is CommitRewrite
}

/// A key that types `text`, before the host has got it: the host's text, and whether the key
/// was held back, so that the host does not get it at all.
pub struct Press {
    pub host: Seq<char>,
    pub text: Seq<char>,
    pub replayed: bool,
}

impl Press {
    /// The host's text once the key is dealt with: a key that is kept from the host changes
    /// nothing there.
    pub open spec fn host_after(self, kept: bool) -> Seq<char> {
        after_text(self.host, self.text, !self.replayed && !kept)
    }

    /// The key is the one of `input`.
    pub open spec fn of(self, input: InputView) -> bool {
        input.text == self.text && input.replayed == self.replayed
    }

    /// The host has room for the text, which has no control characters in it.
    pub open spec fn fits(self) -> bool {
        &&& printable(self.text)
        &&& self.host.len() + self.text.len() < u32::MAX
    }

    /// The recovery goes back to before the key was pressed.
    pub open spec fn before(self, recovery: RecoveryView) -> bool {
        &&& recovery.text == self.text
        &&& recovery.capture.in_step(self.host)
        &&& recovery.visible == !self.replayed
    }
}

/// The listener, in a state that a key press has led to, takes the host to show what the host
/// shows once the commands are performed and the event has ended with `result`.
pub open spec fn shows_the_same(
    rt: RuntimeView,
    commands: Seq<CommandView>,
    result: Result<bool, ListenerErrorView>,
    press: Press,
) -> bool {
    rt.capture.in_step(performed(press.host_after(result == Ok::<bool, ListenerErrorView>(true)), commands))
}

/// While a conversion waits for its output, the listener is in the state that the key press has
/// led to, and goes back to the state before it where the conversion fails.
pub open spec fn conversion_fits(
    rt: RuntimeView,
    commands: Seq<CommandView>,
    pending: PendingConversionView,
    press: Press,
) -> bool {
    let before = pending.recovery.capture;
    let visible = !press.replayed && !pending.consume;
    let typed = before.typed_text(press.text, visible);
    &&& inert(commands)
    &&& before.acts_only_at_the_end(press.text, visible)
    &&& rt.back_to(pending.recovery).sound()
    &&& press.before(pending.recovery)
    &&& rt.capture == typed.0
    &&& typed.1 matches Some(ActionView::Convert(a)) && a.restore_text == pending.restore_text
        && a.delete_chars == pending.delete_chars && a.stay_active == pending.stay_active
}

/// Where a key press has led to, the listener and the host agree, or will agree once the event
/// goes on.
pub open spec fn agrees(to: (RuntimeView, ReactionView), press: Press) -> bool {
    match to.1.state {
        EventStateView::Done(result) => shows_the_same(to.0, to.1.commands, result, press),
        EventStateView::Waiting(WaitingView::Refresh { ending, .. }) => shows_the_same(
            to.0,
            to.1.commands,
            ending.result,
            press,
        ),
        EventStateView::Waiting(WaitingView::Conversion { pending, .. }) => conversion_fits(
            to.0,
            to.1.commands,
            pending,
            press,
        ),
        EventStateView::Waiting(WaitingView::Preview { interaction, .. }) => to.0.capture.in_step(
            press.host,
        ) && inert(to.1.commands) && press.of(interaction.input),
        EventStateView::Waiting(WaitingView::Page { input, .. }) => to.0.capture.in_step(
            press.host,
        ) && inert(to.1.commands) && press.of(input),
        EventStateView::Waiting(WaitingView::Choice { input, .. }) => to.0.capture.in_step(
            press.host,
        ) && inert(to.1.commands) && press.of(input),
    }
}

/// Commands that rewrite nothing leave the host's text as it is.
proof fn lemma_inert(host: Seq<char>, commands: Seq<CommandView>)
    requires
        inert(commands),
    ensures
        performed(host, commands) == host,
    decreases commands.len(),
{
    if commands.len() > 0 {
        assert(commands[commands.len() - 1] == commands.last());
        assert forall|i: int| 0 <= i < commands.drop_last().len() implies #[trigger] commands.drop_last()[i]
            !is CommitRewrite by {
            assert(commands.drop_last()[i] == commands[i]);
        }
        lemma_inert(host, commands.drop_last());
    }
}

/// A further command that rewrites nothing changes nothing.
proof fn lemma_performed_push(host: Seq<char>, commands: Seq<CommandView>, command: CommandView)
    requires
        command !is CommitRewrite,
    ensures
        performed(host, commands.push(command)) == performed(host, commands),
        inert(commands) ==> inert(commands.push(command)),
{
    assert(commands.push(command).drop_last() =~= commands);
}

/// Telling the user of a failure changes nothing about the host's text.
proof fn lemma_told(
    host: Seq<char>,
    commands: Seq<CommandView>,
    trouble: Trouble,
    failure: FailureView,
)
    ensures
        performed(host, told(commands, trouble, failure)) == performed(host, commands),
        inert(commands) ==> inert(told(commands, trouble, failure)),
{
    lemma_performed_push(host, commands, CommandView::Report { trouble, failure });
}

/// A rewrite that the host takes, after commands that rewrite nothing.
proof fn lemma_performed_rewrite(
    host: Seq<char>,
    commands: Seq<CommandView>,
    delete_chars: usize,
    text: Seq<char>,
    delay_ms: i32,
)
    requires
        inert(commands),
    ensures
        host_takes(text) is Ok && delete_chars <= u32::MAX ==> performed(
            host,
            commands + rewrite_commands(delete_chars, text, delay_ms),
        ) == rewritten(host, delete_chars as int, text),
        host_takes(text) is Err ==> inert(
            commands + rewrite_commands(delete_chars, text, delay_ms),
        ),
{
    let rewrite = rewrite_commands(delete_chars, text, delay_ms);
    let all = commands + rewrite;
    lemma_inert(host, commands);
    lemma_performed_push(host, commands, CommandView::BeginRewrite);
    assert(all.drop_last() =~= commands.push(CommandView::BeginRewrite));
    assert(all.last() == rewrite[1]);
    if host_takes(text) is Err {
        assert forall|i: int| 0 <= i < all.len() implies #[trigger] all[i] !is CommitRewrite by {
            if i < commands.len() {
                assert(all[i] == commands[i]);
            } else {
                assert(all[i] == rewrite[i - commands.len()]);
            }
        }
    }
}

/// Showing the candidates changes nothing about the host's text.
proof fn lemma_refreshed(
    rt: RuntimeView,
    commands: Seq<CommandView>,
    preview: Result<PreviewView, EngineErrorView>,
    ending: EndingView,
    press: Press,
)
    requires
        shows_the_same(rt, commands, ending.result, press),
        ending.occasion is None ==> ending.result == Ok::<bool, ListenerErrorView>(false),
    ensures
        agrees((rt, rt.refreshed(commands, preview, ending)), press),
{
    let kept = press.host_after(true);
    let passed = press.host_after(false);
    assert forall|trouble: Trouble, failure: FailureView|
        {
            let said = #[trigger] told(commands, trouble, failure);
            let ended = said.push(CommandView::AbortRewrite);
            &&& performed(kept, said) == performed(kept, commands)
            &&& performed(passed, said) == performed(passed, commands)
            &&& performed(kept, ended) == performed(kept, commands)
            &&& performed(passed, ended) == performed(passed, commands)
        } by {
        let said = told(commands, trouble, failure);
        lemma_told(kept, commands, trouble, failure);
        lemma_told(passed, commands, trouble, failure);
        lemma_performed_push(kept, said, CommandView::AbortRewrite);
        lemma_performed_push(passed, said, CommandView::AbortRewrite);
    }
    if let Ok(p) = preview {
        if let Ok(command) = preview_shown(rt.config, p) {
            let shown = commands.push(command);
            lemma_performed_push(kept, commands, command);
            lemma_performed_push(passed, commands, command);
            lemma_performed_push(kept, shown, CommandView::AbortRewrite);
            lemma_performed_push(passed, shown, CommandView::AbortRewrite);
        }
    }
    lemma_performed_push(kept, commands, CommandView::AbortRewrite);
    lemma_performed_push(passed, commands, CommandView::AbortRewrite);
}

proof fn lemma_refreshes(
    rt: RuntimeView,
    commands: Seq<CommandView>,
    ending: EndingView,
    press: Press,
)
    requires
        shows_the_same(rt, commands, ending.result, press),
        ending.occasion is None ==> ending.result == Ok::<bool, ListenerErrorView>(false),
    ensures
        agrees((rt, rt.refreshes(commands, ending)), press),
{
    let kept = press.host_after(true);
    let passed = press.host_after(false);
    let hidden = commands.push(CommandView::HidePanel);
    lemma_performed_push(kept, commands, CommandView::HidePanel);
    lemma_performed_push(passed, commands, CommandView::HidePanel);
    lemma_performed_push(kept, hidden, CommandView::AbortRewrite);
    lemma_performed_push(passed, hidden, CommandView::AbortRewrite);
    if let ProgressView::Done(preview) = LookupView::started(
        rt.schema,
        rt.capture.preview_body(),
        rt.config.candidate_count,
        rt.capture.candidate_page,
    ) {
        lemma_refreshed(rt, commands, preview, ending, press);
    }
}

/// After a failed rewrite the host is made to show what the listener has collected.
proof fn lemma_recovers(
    rt: RuntimeView,
    commands: Seq<CommandView>,
    failure: FailureView,
    recovery: RecoveryView,
    press: Press,
)
    requires
        rt.back_to(recovery).sound(),
        press.before(recovery),
        press.fits(),
        inert(commands),
    ensures
        agrees(rt.recovers(commands, failure, recovery), press),
{
    let before = CaptureView { last_conversion: None, candidate_page: 0, ..recovery.capture };
    let capture = recovery.capture.collected(recovery.text, recovery.visible);
    let host = press.host_after(false);
    assert(before.in_step(press.host)) by {
        if recovery.capture.last_conversion is Some {
            assert(before.shown() =~= Seq::<char>::empty());
            assert(press.host.skip(press.host.len() as int) =~= Seq::<char>::empty());
        }
    }
    lemma_collected_in_step(press.host, before, press.text, recovery.visible);
    lemma_shown_counts(capture.buffer, capture.visible);
    let delete_chars = count_visible(capture.visible) as usize;
    let next = rt.recovers(commands, failure, recovery).0;
    let error = Err::<bool, ListenerErrorView>(ListenerErrorView::Failed(failure));
    lemma_inert(host, commands);
    if delete_chars == 0 && capture.buffer.len() == 0 {
        lemma_refreshes(
            next,
            commands,
            EndingView { occasion: Some(Occasion::Recovery), result: error, abort: true },
            press,
        );
    } else {
        let all = commands + rewrite_commands(delete_chars, capture.buffer, rt.inject_delay_ms);
        lemma_performed_rewrite(host, commands, delete_chars, capture.buffer, rt.inject_delay_ms);
        if host_takes(capture.buffer) is Ok {
            let after = rewritten(host, delete_chars as int, capture.buffer);
            lemma_all_shown(capture.buffer);
            lemma_finishes_concat(host.take(host.len() - delete_chars), capture.buffer);
            assert(next.capture.in_step(after));
            lemma_refreshes(next, all, best_effort(Occasion::Recovery, error), press);
        } else {
            lemma_inert(host, all);
            lemma_performed_push(host, all, CommandView::AbortRewrite);
        }
    }
}

/// Once a body is converted, the host shows the output where the listener takes it to.
proof fn lemma_converts(
    rt: RuntimeView,
    commands: Seq<CommandView>,
    converted: Result<ConvertedView, EngineErrorView>,
    pending: PendingConversionView,
    press: Press,
)
    requires
        conversion_fits(rt, commands, pending, press),
        press.fits(),
    ensures
        agrees(rt.converts(commands, converted, pending), press),
{
    match converted {
        Err(e) => lemma_recovers(rt, commands, FailureView::Engine(e), pending.recovery, press),
        Ok(c) => {
            let output = c.output.output;
            let delay = rt.inject_delay_ms;
            let all = commands + rewrite_commands(pending.delete_chars, output, delay);
            let visible = !press.replayed && !pending.consume;
            let host = press.host_after(pending.consume);
            law_typing_text_keeps_the_host_in_step(
                press.host,
                pending.recovery.capture,
                press.text,
                visible,
                output,
                rt.quote_state,
            );
            lemma_performed_rewrite(host, commands, pending.delete_chars, output, delay);
            if let Err(e) = host_takes(output) {
                lemma_recovers(rt, all, FailureView::Injection(e), pending.recovery, press);
            } else {
                let next = rt.converts(commands, converted, pending).0;
                assert(next.capture.in_step(performed(host, all)));
                if pending.stay_active {
                    let ending = best_effort(Occasion::Conversion, Ok(pending.consume));
                    lemma_refreshes(next, all, ending, press);
                } else {
                    lemma_performed_push(host, all, CommandView::HidePanel);
                }
            }
        },
    }
}

proof fn lemma_acts(
    rt: RuntimeView,
    commands: Seq<CommandView>,
    action: ActionView,
    consume: bool,
    recovery: RecoveryView,
    press: Press,
)
    requires
        inert(commands),
        rt.back_to(recovery).sound(),
        press.before(recovery),
        press.fits(),
        recovery.capture.acts_only_at_the_end(press.text, !press.replayed && !consume),
        recovery.capture.typed_text(press.text, !press.replayed && !consume) == (
            rt.capture,
            Some(action),
        ),
    ensures
        agrees(rt.acts(commands, action, consume, recovery), press),
{
    let delay = rt.inject_delay_ms;
    let visible = !press.replayed && !consume;
    let host = press.host_after(consume);
    law_typing_text_keeps_the_host_in_step(
        press.host,
        recovery.capture,
        press.text,
        visible,
        seq![],
        rt.quote_state,
    );
    match action {
        ActionView::StartSession { delete_chars, .. } => {
            let all = commands + rewrite_commands(delete_chars, seq![], delay);
            assert(host_takes(Seq::<char>::empty()) is Ok);
            lemma_performed_rewrite(host, commands, delete_chars, seq![], delay);
            lemma_refreshes(rt, all, best_effort(Occasion::SessionStart, Ok(consume)), press);
        },
        ActionView::Convert(a) => {
            lemma_recovers(rt, commands, FailureView::NoPinyin, recovery, press);
            let pending = PendingConversionView {
                restore_text: a.restore_text,
                delete_chars: a.delete_chars,
                stay_active: a.stay_active,
                consume,
                recovery,
            };
            if let ProgressView::Done(converted) = ConverterView::started(
                rt.config.conversion_mode,
                rt.schema,
                a.body,
                rt.quote_state,
            ) {
                lemma_converts(rt, commands, converted, pending, press);
            }
        },
        ActionView::InsertLiteral { text } => {
            let all = commands + rewrite_commands(0, text, delay);
            lemma_performed_rewrite(host, commands, 0, text, delay);
            if let Err(e) = host_takes(text) {
                lemma_recovers(rt, all, FailureView::Injection(e), recovery, press);
            } else {
                let ending = best_effort(Occasion::LiteralReplay, Ok(consume));
                lemma_refreshes(rt, all, ending, press);
            }
        },
        ActionView::EndSession { replacement_text, delete_chars, .. } => {
            let next = RuntimeView { quote_state: no_quote(), session_input_source: None, ..rt };
            assert(next.back_to(recovery) == rt.back_to(recovery));
            let all = commands + rewrite_commands(delete_chars, replacement_text, delay);
            lemma_performed_rewrite(host, commands, delete_chars, replacement_text, delay);
            if let Err(e) = host_takes(replacement_text) {
                lemma_recovers(next, all, FailureView::Injection(e), recovery, press);
            } else {
                lemma_performed_push(host, all, CommandView::HidePanel);
            }
        },
    }
}

/// The text calls for nothing before its last character. Where it is the space that commits
/// what is pending, no trigger has a space in it, and the key was not held back.
pub open spec fn plain(rt: RuntimeView, press: Press, input: InputView) -> bool {
    let space = commit_space(rt.capture, input.key_code, input.text);
    &&& rt.capture.acts_only_at_the_end(press.text, !press.replayed && !space)
    &&& space ==> {
        &&& !rt.config.trigger_prefix.contains(' ')
        &&& !rt.config.trigger_suffix.contains(' ')
        &&& !press.replayed
    }
}

/// A space that the host does not show always calls for something, where no trigger has a
/// space in it.
proof fn lemma_space_acts(c: CaptureView)
    requires
        c.sound(),
        c.active(),
        !c.config.trigger_prefix.contains(' '),
        !c.config.trigger_suffix.contains(' '),
    ensures
        c.max_buffer_chars > 0 ==> c.typed(' ', false).1 is Some,
{
    let next = CaptureView { last_conversion: None, ..c }.appended(' ', false);
    if c.max_buffer_chars > 0 {
        assert(next.buffer.len() > 0 && next.buffer.last() == ' ' && !next.visible.last());
        assert(chars_shown(next.buffer, next.visible, false).len() > 0);
    }
}

proof fn lemma_types(
    rt: RuntimeView,
    commands: Seq<CommandView>,
    input: InputView,
    press: Press,
)
    requires
        rt.sound(),
        rt.capture.in_step(press.host),
        rt.capture.max_buffer_chars > 0,
        press.of(input),
        plain(rt, press, input),
        press.fits(),
        inert(commands),
    ensures
        agrees(rt.types(commands, input), press),
{
    let consume = commit_space(rt.capture, input.key_code, input.text);
    let visible = !input.replayed && !consume;
    let (capture, action) = rt.capture.typed_text(input.text, visible);
    let next = RuntimeView {
        capture,
        session_input_source: if !rt.capture.active() && capture.active() {
            Some(input.input_source)
        } else {
            rt.session_input_source
        },
        ..rt
    };
    let recovery = RecoveryView {
        capture: rt.capture,
        quote_state: rt.quote_state,
        session_input_source: rt.session_input_source,
        text: input.text,
        visible: visible || consume,
    };
    assert(next.back_to(recovery) == rt);
    if consume {
        reveal_strlit(" ");
        assert(input.text.last() == " "@[0]);
        assert(input.text.drop_last() =~= Seq::<char>::empty());
        assert(rt.capture.typed_text(input.text.drop_last(), visible) == (
            rt.capture,
            None::<ActionView>,
        ));
        lemma_space_acts(rt.capture);
    }
    law_typing_text_keeps_the_host_in_step(
        press.host,
        rt.capture,
        input.text,
        visible,
        seq![],
        rt.quote_state,
    );
    match action {
        Some(action) => {
            let begun = commands.push(CommandView::BeginRewrite);
            lemma_performed_push(press.host, commands, CommandView::BeginRewrite);
            lemma_acts(next, begun, action, consume, recovery, press);
        },
        None => {
            lemma_inert(press.host_after(false), commands);
            if capture.active() {
                lemma_refreshes(
                    next,
                    commands,
                    EndingView { occasion: None, result: Ok(false), abort: false },
                    press,
                );
            }
        },
    }
}

proof fn lemma_told_types(
    rt: RuntimeView,
    commands: Seq<CommandView>,
    input: InputView,
    press: Press,
)
    requires
        rt.sound(),
        rt.capture.in_step(press.host),
        rt.capture.max_buffer_chars > 0,
        press.of(input),
        plain(rt, press, input),
        press.fits(),
        inert(commands),
    ensures
        forall|trouble: Trouble, failure: FailureView|
            agrees(rt.types(#[trigger] told(commands, trouble, failure), input), press),
{
    assert forall|trouble: Trouble, failure: FailureView|
        agrees(rt.types(#[trigger] told(commands, trouble, failure), input), press) by {
        lemma_told(press.host, commands, trouble, failure);
        lemma_types(rt, told(commands, trouble, failure), input, press);
    }
}

proof fn lemma_commits_pending(
    rt: RuntimeView,
    commands: Seq<CommandView>,
    replacement: Seq<char>,
    reversible: bool,
    input: InputView,
    press: Press,
)
    requires
        rt.sound(),
        rt.capture.in_step(press.host),
        rt.capture.max_buffer_chars > 0,
        rt.capture.buffer.len() <= usize::MAX,
        press.of(input),
        plain(rt, press, input),
        press.fits(),
        inert(commands),
    ensures
        agrees(rt.commits_pending(commands, replacement, reversible, input), press),
{
    lemma_inert(press.host, commands);
    if let Some(action) = rt.capture.pending_commit(replacement) {
        let all = commands + rewrite_commands(
            action.delete_chars,
            replacement,
            rt.inject_delay_ms,
        );
        law_pending_commit_keeps_the_host_in_step(
            press.host,
            rt.capture,
            replacement,
            rt.quote_state,
        );
        lemma_performed_rewrite(
            press.host,
            commands,
            action.delete_chars,
            replacement,
            rt.inject_delay_ms,
        );
        if host_takes(replacement) is Err {
            lemma_told_types(rt, all, input, press);
        } else {
            let next = rt.commits_pending(commands, replacement, reversible, input).0;
            let ending = best_effort(commit_occasion(reversible), Ok(true));
            lemma_refreshes(next, all, ending, press);
        }
    }
}

proof fn lemma_chosen(
    rt: RuntimeView,
    commands: Seq<CommandView>,
    outcome: Result<OutcomeView, EngineErrorView>,
    occasion: Occasion,
    input: InputView,
    press: Press,
)
    requires
        rt.sound(),
        rt.capture.in_step(press.host),
        rt.capture.max_buffer_chars > 0,
        rt.capture.buffer.len() <= usize::MAX,
        press.of(input),
        plain(rt, press, input),
        press.fits(),
        inert(commands),
    ensures
        agrees(rt.chosen(commands, outcome, occasion, input), press),
{
    lemma_types(rt, commands, input, press);
    lemma_told_types(rt, commands, input, press);
    if let Ok(OutcomeView::Selected(selection)) = outcome {
        if let Some(action) = rt.capture.candidate_action(selection) {
            let all = commands + rewrite_commands(
                action.delete_chars,
                action.replacement_text,
                rt.inject_delay_ms,
            );
            law_candidate_keeps_the_host_in_step(
                press.host,
                rt.capture,
                selection,
                rt.quote_state,
            );
            lemma_performed_rewrite(
                press.host,
                commands,
                action.delete_chars,
                action.replacement_text,
                rt.inject_delay_ms,
            );
            if host_takes(action.replacement_text) is Err {
                lemma_told_types(rt, all, input, press);
            } else {
                let next = rt.commits_candidate(commands, selection, occasion, input).0;
                lemma_refreshes(next, all, best_effort(occasion, Ok(true)), press);
            }
        }
    }
}

proof fn lemma_shows(
    rt: RuntimeView,
    commands: Seq<CommandView>,
    preview: PreviewView,
    trouble: Trouble,
    host: Seq<char>,
)
    requires
        inert(commands),
    ensures
        performed(host, rt.shows(commands, preview, trouble)) == host,
{
    lemma_inert(host, commands);
    match preview_shown(rt.config, preview) {
        Ok(command) => lemma_performed_push(host, commands, command),
        Err(e) => lemma_told(host, commands, trouble, FailureView::Panel(e)),
    }
}

proof fn lemma_turned(
    rt: RuntimeView,
    commands: Seq<CommandView>,
    page: Result<PreviewView, EngineErrorView>,
    input: InputView,
    press: Press,
)
    requires
        rt.sound(),
        rt.capture.in_step(press.host),
        rt.capture.max_buffer_chars > 0,
        press.of(input),
        plain(rt, press, input),
        press.fits(),
        inert(commands),
    ensures
        agrees(rt.turned(commands, page, input), press),
{
    match page {
        Ok(p) => lemma_shows(rt, commands, p, Trouble::PagePreview, press.host),
        Err(_) => lemma_told_types(rt, commands, input, press),
    }
}

proof fn lemma_interacts(
    rt: RuntimeView,
    commands: Seq<CommandView>,
    preview: Result<PreviewView, EngineErrorView>,
    interaction: InteractionView,
    press: Press,
)
    requires
        rt.sound(),
        rt.capture.in_step(press.host),
        rt.capture.max_buffer_chars > 0,
        rt.capture.buffer.len() <= usize::MAX,
        press.of(interaction.input),
        plain(rt, press, interaction.input),
        press.fits(),
        inert(commands),
    ensures
        agrees(rt.interacts(commands, preview, interaction), press),
{
    let input = interaction.input;
    let pending = interaction.pending;
    lemma_types(rt, commands, input, press);
    lemma_told_types(rt, commands, input, press);
    lemma_commits_pending(rt, commands, pending.push(interaction.key), false, input, press);
    if let Ok(current) = preview {
        lemma_shows(rt, commands, current, Trouble::Boundary, press.host);
        match interaction.kind {
            CandidateInteractionKey::Select(index) => {
                if let ProgressView::Done(outcome) = ChoiceView::started(
                    rt.schema,
                    pending,
                    current.page_no,
                    index,
                ) {
                    let occasion = Occasion::Candidate { page_no: current.page_no, index };
                    lemma_chosen(rt, commands, outcome, occasion, input, press);
                }
            },
            _ => {
                let next: usize = if current.page_no < usize::MAX {
                    (current.page_no + 1) as usize
                } else {
                    usize::MAX
                };
                let previous: usize = if current.page_no > 0 {
                    (current.page_no - 1) as usize
                } else {
                    0
                };
                let count = rt.config.candidate_count;
                if let ProgressView::Done(page) = LookupView::started(
                    rt.schema,
                    pending,
                    count,
                    next,
                ) {
                    lemma_turned(rt, commands, page, input, press);
                }
                if let ProgressView::Done(page) = LookupView::started(
                    rt.schema,
                    pending,
                    count,
                    previous,
                ) {
                    lemma_turned(rt, commands, page, input, press);
                }
            },
        }
    }
}

/// A key that types text keeps the listener and the host in agreement: where the event
/// ends, the listener takes the host to show what it shows, once the commands are performed
/// and the host has got the key where it is not kept. This also holds where a rewrite fails.
pub proof fn law_text_keys_keep_the_host_in_step(rt: RuntimeView, input: InputView, press: Press)
    requires
        rt.sound(),
        rt.capture.in_step(press.host),
        rt.capture.max_buffer_chars > 0,
        rt.capture.buffer.len() <= usize::MAX,
        press.of(input),
        plain(rt, press, input),
        press.fits(),
    ensures
        agrees(rt.keyed(input), press),
{
    let none = Seq::<CommandView>::empty();
    lemma_types(rt, none, input, press);
    if rt.capture.pending() is Some {
        let pending = rt.capture.pending()->0;
        lemma_commits_pending(rt, none, pending, true, input, press);
        if let Some(kind) = interaction_for(rt.config, input.key_code, input.text[0]) {
            let interaction = InteractionView { pending, key: input.text[0], kind, input };
            if let ProgressView::Done(preview) = LookupView::started(
                rt.schema,
                pending,
                rt.config.candidate_count,
                rt.capture.candidate_page,
            ) {
                lemma_interacts(rt, none, preview, interaction, press);
            }
        }
    }
}

/// A key that works on the candidates, or calls for a conversion, keeps the listener and the
/// host in agreement when it goes on after an answer of the engine, whatever the answer is.
pub proof fn law_answers_keep_the_host_in_step(
    rt: RuntimeView,
    waiting: WaitingView,
    reply: ReplyView,
    press: Press,
)
    requires
        rt.fits(waiting),
        waiting !is Refresh,
        agrees((rt, ReactionView::waits(seq![], waiting)), press),
        rt.capture.max_buffer_chars > 0,
        rt.capture.buffer.len() <= usize::MAX,
        waiting matches WaitingView::Preview { interaction, .. } ==> plain(
            rt,
            press,
            interaction.input,
        ),
        waiting matches WaitingView::Page { input, .. } ==> plain(rt, press, input),
        waiting matches WaitingView::Choice { input, .. } ==> plain(rt, press, input),
        press.fits(),
    ensures
        agrees(rt.resumes(waiting, reply), press),
{
    let none = Seq::<CommandView>::empty();
    match waiting {
        WaitingView::Refresh { .. } => {},
        WaitingView::Preview { lookup, interaction } => {
            if let ProgressView::Done(preview) = lookup.after(reply) {
                lemma_interacts(rt, none, preview, interaction, press);
            }
        },
        WaitingView::Page { lookup, input } => {
            if let ProgressView::Done(page) = lookup.after(reply) {
                lemma_turned(rt, none, page, input, press);
            }
        },
        WaitingView::Choice { choice, occasion, input } => {
            if let ProgressView::Done(outcome) = choice.after(reply) {
                lemma_chosen(rt, none, outcome, occasion, input, press);
            }
        },
        WaitingView::Conversion { conversion, pending } => {
            if let ProgressView::Done(converted) = conversion.after(reply) {
                lemma_converts(rt, none, converted, pending, press);
            }
        },
    }
}

/// Showing candidates changes neither the listener nor the host's text.
pub proof fn law_showing_candidates_changes_nothing(
    rt: RuntimeView,
    lookup: LookupView,
    ending: EndingView,
    reply: ReplyView,
)
    ensures
        ({
            let (next, reaction) = rt.resumes(WaitingView::Refresh { lookup, ending }, reply);
            next == rt && inert(reaction.commands)
        }),
{
}

/// The host's text after Backspace, where the key was kept from it or not, or was held back.
pub open spec fn host_backspaced(host: Seq<char>, kept: bool, replayed: bool) -> Seq<char> {
    if kept || replayed {
        host
    } else {
        host.drop_last()
    }
}

/// Backspace in a session keeps the listener and the host in agreement, unless a conversion is
/// undone whose text the host does not take.
pub proof fn law_backspace_keeps_the_listener_in_step(
    rt: RuntimeView,
    host: Seq<char>,
    replayed: bool,
)
    requires
        rt.sound(),
        rt.capture.active(),
        rt.capture.in_step(host),
        rt.capture.last_conversion matches Some(c) ==> c.inserted_text.len() <= usize::MAX
            && host_takes(c.original_text) is Ok,
        host.len() < u32::MAX,
    ensures
        ({
            let (next, reaction) = rt.backspaces(replayed);
            let kept = rt.capture.consumes_backspace();
            let after = host_backspaced(host, kept, replayed);
            &&& next.capture.in_step(performed(after, reaction.commands))
            &&& match reaction.state {
                EventStateView::Done(result) => result == Ok::<bool, ListenerErrorView>(kept),
                EventStateView::Waiting(WaitingView::Refresh { ending, .. }) => ending.result
                    == Ok::<bool, ListenerErrorView>(kept),
                _ => false,
            }
        }),
{
    let c = rt.capture;
    let kept = c.consumes_backspace();
    let after = host_backspaced(host, kept, replayed);
    let none = Seq::<CommandView>::empty();
    let delay = rt.inject_delay_ms;
    let next = rt.backspaces(replayed).0;
    // A key that the host has got already, seen from the text that it has left.
    let press = Press { host: after, text: seq![], replayed: true };
    if c.last_conversion is Some {
        let applied = !kept && !replayed;
        let action = c.restore_action(applied)->0;
        law_restore_keeps_the_host_in_step(host, c, applied);
        let all = rewrite_commands(action.delete_remaining_chars, action.replacement_text, delay);
        lemma_performed_rewrite(
            after,
            none,
            action.delete_remaining_chars,
            action.replacement_text,
            delay,
        );
        assert(none + all =~= all);
        let ending = best_effort(Occasion::Restore, Ok(kept));
        lemma_refreshes(next, all, ending, press);
        lemma_refresh_waits(next, all, ending);
    } else {
        law_backspace_keeps_the_host_in_step(host, c);
        let ending = best_effort(Occasion::Backspace, Ok(kept));
        let deleted = rewrite_commands(1, seq![], delay);
        assert(host_takes(Seq::<char>::empty()) is Ok);
        lemma_performed_rewrite(after, none, 1, seq![], delay);
        assert(none + deleted =~= deleted);
        assert(performed(after, none) == after);
        if replayed && c.backspace_reaches_host() {
            assert(rewritten(after, 1, seq![]) =~= host.drop_last());
            lemma_performed_push(after, deleted, CommandView::HidePanel);
            lemma_refreshes(next, deleted, ending, press);
            lemma_refresh_waits(next, deleted, ending);
        } else {
            lemma_performed_push(after, none, CommandView::HidePanel);
            lemma_refreshes(next, none, ending, press);
            lemma_refresh_waits(next, none, ending);
        }
    }
}

impl RuntimeView {
    /// A key with a modifier asks to delete the last word, and there is something to delete it
    /// from.
    pub open spec fn deletes_word(self, event: InputEvent) -> bool {
        event.control() && event.key_code == KEY_W && self.capture.buffer.len() > 0
    }

    /// The key is kept from the host: it takes away a word of which the host shows nothing.
    pub open spec fn keeps_modified(self, event: InputEvent) -> bool {
        self.deletes_word(event) && self.capture.word_outcome().disposed()
            == DeletePreviousWordDisposition::Consume
    }

    /// The key is passed on to the host, which is to take away the word that it shows.
    pub open spec fn passes_word_deletion(self, event: InputEvent) -> bool {
        self.deletes_word(event) && self.capture.word_outcome().disposed()
            == DeletePreviousWordDisposition::PassThrough
    }

    /// `after` is the host's text once it has dealt with the key: a key that is kept from it
    /// changes nothing, a word deletion that is passed on takes away the word that the listener
    /// has taken away, and a key that means nothing to the listener changes nothing before the
    /// cursor. Where the listener forgets what it has collected, the host may do as it likes.
    pub open spec fn host_follows(
        self,
        event: InputEvent,
        host: Seq<char>,
        after: Seq<char>,
    ) -> bool {
        if self.passes_word_deletion(event) {
            after == host.take(host.len() - self.capture.word_outcome().removed_chars)
        } else if self.keeps_modified(event) || self.modified(event) == self.ignores() {
            after == host
        } else {
            true
        }
    }
}

/// A key with a modifier keeps the listener and the host in agreement, whether it is kept or
/// passed on. It is kept only where it takes away a word of which the host shows nothing; and
/// where the host is to take away the word itself, that word is what its text ends with.
pub proof fn law_modified_keys_keep_the_host_in_step(
    rt: RuntimeView,
    event: InputEvent,
    host: Seq<char>,
    after: Seq<char>,
)
    requires
        rt.sound(),
        rt.capture.in_step(host),
        rt.capture.buffer.len() <= usize::MAX,
        rt.host_follows(event, host, after),
    ensures
        ({
            let (next, reaction) = rt.modified(event);
            let removed = rt.capture.word_outcome().removed_chars;
            let kept = rt.keeps_modified(event);
            &&& next.capture.in_step(performed(after, reaction.commands))
            &&& match reaction.state {
                EventStateView::Done(result) => result == Ok::<bool, ListenerErrorView>(kept),
                EventStateView::Waiting(WaitingView::Refresh { ending, .. }) => ending.result
                    == Ok::<bool, ListenerErrorView>(kept),
                _ => false,
            }
            &&& rt.passes_word_deletion(event) ==> {
                &&& removed <= host.len()
                &&& host.skip(host.len() - removed) == rt.capture.buffer.skip(
                    rt.capture.before_last_word().len() as int,
                )
            }
        }),
{
    let none = Seq::<CommandView>::empty();
    let kept = rt.keeps_modified(event);
    let (next, reaction) = rt.modified(event);
    let hidden = seq![CommandView::HidePanel];
    lemma_performed_push(after, none, CommandView::HidePanel);
    assert(none.push(CommandView::HidePanel) =~= hidden);
    assert(performed(after, none) == after);
    assert(rt.cleared().capture.in_step(after)) by {
        assert(rt.cleared().capture.shown() =~= Seq::<char>::empty());
        assert(after.skip(after.len() as int) =~= Seq::<char>::empty());
    }
    if kept || rt.passes_word_deletion(event) {
        law_word_deletion_keeps_the_host_in_step(host, rt.capture);
        // A key that the host has dealt with already, seen from the text that it has left.
        let press = Press { host: after, text: seq![], replayed: true };
        let ending = best_effort(Occasion::WordDeletion, Ok(kept));
        lemma_refreshes(next, none, ending, press);
        lemma_refresh_waits(next, none, ending);
    } else if rt.deletes_word(event) {
        let deleted = RuntimeView { capture: rt.capture.word_deleted(), ..rt };
        assert(deleted.cleared() == rt.cleared());
        assert(reaction == deleted.clears().1);
    }
}

/// Where candidates are shown as well as possible, the event ends as it would without them.
proof fn lemma_refresh_waits(rt: RuntimeView, commands: Seq<CommandView>, ending: EndingView)
    requires
        ending.occasion is Some,
    ensures
        match rt.refreshes(commands, ending).state {
            EventStateView::Done(result) => result == ending.result,
            EventStateView::Waiting(WaitingView::Refresh { ending: e, .. }) => e == ending,
            _ => false,
        },
{
}

} // verus!
