//! The life of an issued command.
//!
//! The process itself belongs to whoever spawned it. What is kept here is
//! what the rest of the program decides by: whether the command still
//! runs, what it has printed so far, and whether its end has been noticed.
//! At most one command is alive at a time: while one runs, no other is
//! issued, and the one that runs is left alone. A command that takes over
//! the terminal is waited for, so it never runs beside another: when it is
//! recorded it has ended.

use crate::text::append_bytes;
use vstd::prelude::*;

verus! {

/// How a command is run.
#[derive(Clone, Copy, Debug, PartialEq, Eq, Structural)]
pub enum CommandMode {
    /// In the background, its output caught.
    Captured,
    /// In the foreground, with the terminal handed over to it.
    Subscreen,
}

/// An issued command.
#[derive(Clone, Debug, PartialEq, Eq)]
pub struct IssuedCommand {
    mode: CommandMode,
    output: Vec<u8>,
    exited: bool,
    finish_acked: bool,
}

/// The mathematical value of an [`IssuedCommand`].
pub struct IssuedCommandView {
    pub mode: CommandMode,
    pub output: Seq<u8>,
    /// Whether the process is known to have ended.
    pub exited: bool,
    /// Whether the end has been reported.
    pub finish_acked: bool,
}

impl IssuedCommandView {
    /// Whether the command still runs.
    pub open spec fn running(self) -> bool {
        !self.exited
    }
}

impl View for IssuedCommand {
    type V = IssuedCommandView;

    closed spec fn view(&self) -> IssuedCommandView {
        IssuedCommandView {
            mode: self.mode,
            output: self.output@,
            exited: self.exited,
            finish_acked: self.finish_acked,
        }
    }
}

/// The value of the slot that holds the command, if there is one.
pub open spec fn slot_view(slot: Option<IssuedCommand>) -> Option<IssuedCommandView> {
    match slot {
        Some(c) => Some(c@),
        None => None,
    }
}

/// Whether the slot holds a command that still runs.
pub open spec fn slot_busy(slot: Option<IssuedCommandView>) -> bool {
    match slot {
        Some(c) => c.running(),
        None => false,
    }
}

/// A command that runs and has printed nothing yet.
pub open spec fn fresh(mode: CommandMode) -> IssuedCommandView {
    IssuedCommandView { mode, output: Seq::empty(), exited: false, finish_acked: false }
}

/// The command as it is recorded once it was spawned. A command in the
/// background runs. A command that had the terminal handed over has
/// ended by the time it is recorded, since the hand-over waits for its
/// end; its end counts as reported, because whoever handed the terminal
/// over knows of it already.
pub open spec fn recorded(mode: CommandMode) -> IssuedCommandView {
    match mode {
        CommandMode::Captured => fresh(mode),
        CommandMode::Subscreen => IssuedCommandView {
            exited: true,
            finish_acked: true,
            ..fresh(mode)
        },
    }
}

impl IssuedCommand {
    /// The record of a command that was spawned. It has printed nothing
    /// yet. In the background it runs; after a hand-over of the terminal
    /// it has ended, and its end counts as reported.
    pub fn spawned(mode: CommandMode) -> (cmd: IssuedCommand)
        ensures
            cmd@ == recorded(mode),
    {
        let over = match mode {
            CommandMode::Captured => false,
            CommandMode::Subscreen => true,
        };
        IssuedCommand { mode, output: Vec::new(), exited: over, finish_acked: over }
    }

    /// How the command is run.
    pub fn mode(&self) -> (mode: CommandMode)
        ensures
            mode == self@.mode,
    {
        self.mode
    }

    /// What the command has printed so far.
    pub fn output(&self) -> (output: &Vec<u8>)
        ensures
            output@ == self@.output,
    {
        &self.output
    }

    /// Whether the command still runs, as far as is known.
    pub fn is_running(&self) -> (running: bool)
        ensures
            running == self@.running(),
    {
        !self.exited
    }

    /// Adds what was drained from the pipes of the command to its output.
    pub fn read_command_output_to_buffer(&mut self, drained: &[u8])
        ensures
            final(self)@ == (IssuedCommandView {
                output: old(self)@.output + drained@,
                ..old(self)@
            }),
    {
        append_bytes(&mut self.output, drained);
    }

    /// Takes note of whether the process has ended. A command that has
    /// ended stays so.
    pub fn poll(&mut self, exited: bool)
        ensures
            final(self)@ == (IssuedCommandView {
                exited: old(self)@.exited || exited,
                ..old(self)@
            }),
    {
        if exited {
            self.exited = true;
        }
    }

    /// Whether the command has ended and this is the first time that it is
    /// asked. True once for each command, at most.
    pub fn just_finished(&mut self) -> (finished: bool)
        ensures
            finished == (old(self)@.exited && !old(self)@.finish_acked),
            final(self)@ == (IssuedCommandView {
                finish_acked: old(self)@.finish_acked || old(self)@.exited,
                ..old(self)@
            }),
    {
        if self.finish_acked || !self.exited {
            return false;
        }
        self.finish_acked = true;
        true
    }
}

/// Whether a command may be issued: none while one still runs.
pub fn may_issue(slot: &Option<IssuedCommand>) -> (free: bool)
    ensures
        free == !slot_busy(slot_view(*slot)),
{
    match slot {
        Some(cmd) => !cmd.is_running(),
        None => true,
    }
}

/// The slot after a command is issued: the new command, unless one still
/// runs; then the slot as it was.
pub open spec fn issued(slot: Option<IssuedCommandView>, mode: CommandMode) -> Option<
    IssuedCommandView,
> {
    if slot_busy(slot) {
        slot
    } else {
        Some(recorded(mode))
    }
}

/// A hand-over of the terminal never leaves a command running: the slot is
/// free right after it is recorded, and no later turn of the loop reports
/// its end.
pub proof fn lemma_hand_over_is_over(
    slot: Option<IssuedCommandView>,
    drained: Seq<u8>,
    exited: bool,
)
    requires
        !slot_busy(slot),
    ensures
        !slot_busy(issued(slot, CommandMode::Subscreen)),
        !finishes_now(issued(slot, CommandMode::Subscreen), exited),
        !slot_busy(progressed(issued(slot, CommandMode::Subscreen), drained, exited)),
{
}

/// While a command runs, issuing another leaves the one that runs as it is,
/// however often and in whatever mode it is tried.
pub proof fn lemma_second_issue_is_ignored(
    slot: Option<IssuedCommandView>,
    mode: CommandMode,
    again: CommandMode,
)
    requires
        slot_busy(slot),
    ensures
        issued(slot, mode) == slot,
        issued(issued(slot, mode), again) == slot,
{
}

/// Records that a command was spawned, unless one still runs: then the
/// slot stays as it is, and the answer is no.
pub fn issue(slot: &mut Option<IssuedCommand>, mode: CommandMode) -> (accepted: bool)
    ensures
        accepted == !slot_busy(slot_view(*old(slot))),
        slot_view(*final(slot)) == issued(slot_view(*old(slot)), mode),
{
    if may_issue(slot) {
        *slot = Some(IssuedCommand::spawned(mode));
        true
    } else {
        false
    }
}

/// Forgets the command where it has ended.
pub fn clear_finished(slot: &mut Option<IssuedCommand>)
    ensures
        slot_view(*final(slot)) == if slot_busy(slot_view(*old(slot))) {
            slot_view(*old(slot))
        } else {
            None
        },
{
    if may_issue(slot) {
        *slot = None;
    }
}

/// The slot after one turn of the loop with the given news of the command:
/// what it printed is kept, its end is noted and reported.
pub open spec fn progressed(
    slot: Option<IssuedCommandView>,
    drained: Seq<u8>,
    exited: bool,
) -> Option<IssuedCommandView> {
    match slot {
        Some(c) => Some(
            IssuedCommandView {
                mode: c.mode,
                output: c.output + drained,
                exited: c.exited || exited,
                finish_acked: c.finish_acked || c.exited || exited,
            },
        ),
        None => None,
    }
}

/// Whether the news of the command amounts to its end being seen for the
/// first time.
pub open spec fn finishes_now(slot: Option<IssuedCommandView>, exited: bool) -> bool {
    match slot {
        Some(c) => (c.exited || exited) && !c.finish_acked,
        None => false,
    }
}

/// One turn of the loop for the command, if there is one: keeps what it
/// printed, and says whether it has just ended.
pub fn handle_progress(slot: &mut Option<IssuedCommand>, drained: &[u8], exited: bool) -> (finished:
    bool)
    ensures
        finished == finishes_now(slot_view(*old(slot)), exited),
        slot_view(*final(slot)) == progressed(slot_view(*old(slot)), drained@, exited),
{
    match slot {
        Some(cmd) => {
            cmd.read_command_output_to_buffer(drained);
            cmd.poll(exited);
            cmd.just_finished()
        },
        None => false,
    }
}

/// The end of a command is reported once: after a turn of the loop that
/// reported it, no later turn reports it again.
pub proof fn lemma_finish_reported_once(
    slot: Option<IssuedCommandView>,
    drained: Seq<u8>,
    exited: bool,
    later_drained: Seq<u8>,
    later_exited: bool,
)
    requires
        finishes_now(slot, exited),
    ensures
        !finishes_now(progressed(slot, drained, exited), later_exited),
        !finishes_now(
            progressed(progressed(slot, drained, exited), later_drained, later_exited),
            later_exited,
        ),
{
}

} // verus!
