//! Rewrites of the host's text: each one is begun, and then committed or given up.

use vstd::prelude::*;

use crate::bytes::{host_takes, NulError};
use crate::mac::{
    begin_rewrite_transaction, cancel_rewrite_transaction, command_views,
    commit_rewrite_transaction, rewrite_commit, CommandView, NativeCommand,
};

verus! {

/// A list without commands.
pub fn no_commands() -> (r: Vec<NativeCommand>)
    ensures
        command_views(r@) == Seq::<CommandView>::empty(),
{
    let r: Vec<NativeCommand> = Vec::new();
    assert(command_views(r@) =~= Seq::<CommandView>::empty());
    r
}

/// Adds a command to a list.
pub fn add_command(commands: &mut Vec<NativeCommand>, command: NativeCommand)
    ensures
        command_views(final(commands)@) == command_views(old(commands)@).push(command@),
{
    let ghost before = commands@;
    commands.push(command);
    assert(command_views(commands@) =~= command_views(before).push(command@));
}

/// A rewrite that has begun. It is given up at its end, unless it was committed.
#[derive(Debug, PartialEq, Eq)]
pub struct RewriteTransactionGuard {
    /// The rewrite is given up at its end.
    pub armed: bool,
}

impl RewriteTransactionGuard {
    /// A rewrite that is not committed.
    pub fn new() -> (r: Self)
        ensures
            r.armed,
    {
        RewriteTransactionGuard { armed: true }
    }

    /// Begins a rewrite.
    pub fn begin(commands: &mut Vec<NativeCommand>) -> (r: Self)
        ensures
            r.armed,
            command_views(final(commands)@) == command_views(old(commands)@).push(
                CommandView::BeginRewrite,
            ),
    {
        add_command(commands, begin_rewrite_transaction());
        RewriteTransactionGuard::new()
    }

    /// Notes that the rewrite was committed.
    pub fn mark_committed(&mut self)
        ensures
            !final(self).armed,
    {
        self.armed = false;
    }

    /// Ends the rewrite: gives it up where it was not committed.
    pub fn finish(self, commands: &mut Vec<NativeCommand>)
        ensures
            command_views(final(commands)@) == if self.armed {
                command_views(old(commands)@).push(CommandView::AbortRewrite)
            } else {
                command_views(old(commands)@)
            },
    {
        if self.armed {
            add_command(commands, cancel_rewrite_transaction());
        }
    }
}

/// The commands of a rewrite.
pub open spec fn rewrite_commands(delete_chars: usize, text: Seq<char>, delay_ms: i32) -> Seq<
    CommandView,
> {
    match rewrite_commit(delete_chars, text, delay_ms) {
        Ok(commit) => seq![CommandView::BeginRewrite, commit],
        Err(_) => seq![CommandView::BeginRewrite, CommandView::AbortRewrite],
    }
}

/// Rewrites the host's text: `delete_chars` characters before the cursor are deleted and the
/// text is inserted. A text with a NUL is refused, and the rewrite is given up.
pub fn perform_rewrite(
    commands: &mut Vec<NativeCommand>,
    delete_chars: usize,
    replacement_text: &str,
    delay_ms: i32,
) -> (r: Result<(), NulError>)
    ensures
        r == host_takes(replacement_text@),
        command_views(final(commands)@) == command_views(old(commands)@) + rewrite_commands(
            delete_chars,
            replacement_text@,
            delay_ms,
        ),
{
    let ghost before = command_views(commands@);
    let mut transaction = RewriteTransactionGuard::begin(commands);
    let result = match commit_rewrite_transaction(delete_chars, replacement_text, delay_ms) {
        Ok(commit) => {
            add_command(commands, commit);
            transaction.mark_committed();
            Ok(())
        },
        Err(error) => Err(error),
    };
    transaction.finish(commands);
    assert(command_views(commands@) =~= before + rewrite_commands(
        delete_chars,
        replacement_text@,
        delay_ms,
    ));
    result
}

} // verus!
