//! The state of the program and the decisions of its loop.
//!
//! The loop itself lives outside: it reads events, runs processes and
//! draws. Each decision is made here, as a step from the state and an
//! event to the next state and an action that the loop is to carry out.
//! After an action that asks for it, the loop runs the queries of the
//! active screen and hands their output back. After an attempt to run a
//! command or to remove a file it says how the attempt went, and is told
//! what follows: a failure is reported and changes nothing.

use crate::command::{
    clear_finished, finishes_now, fresh, handle_progress, issue, issued, progressed, slot_busy,
    slot_view, CommandMode, IssuedCommand, IssuedCommandView,
};
use crate::dispatch::{
    action_for, closure_by_target_op, editor_args, editor_cmd, TargetAction, TargetActionView,
};
use crate::git::{
    commit_amend_cmd, commit_cmd, fetch_all_cmd, git, pull_cmd, push_cmd, rebase_abort_cmd,
    rebase_continue_cmd, CommandSpec, CommandSpecView,
};
use crate::items::{TargetData, TargetView};
use crate::keys::{op_of, op_of_key_event, Key, Keybind, Op, TargetOp, TransientOp};
use crate::screen::{blank_screen, Screen, ScreenKind, ScreenView};
use crate::text::{bytes_eq, copy_bytes, lit, rows};
use vstd::prelude::*;

verus! {

/// What the program was started for.
#[derive(Clone, Debug, PartialEq, Eq)]
pub enum Commands {
    Show { git_show_args: Vec<Vec<u8>> },
    Log { git_log_args: Vec<Vec<u8>> },
    Diff { git_diff_args: Vec<Vec<u8>> },
}

/// What the loop received.
#[derive(Clone, Copy, Debug, PartialEq, Eq, Structural)]
pub enum Event {
    /// The terminal has a new size, columns first.
    Resize(u16, u16),
    /// A key went down.
    KeyPress(Key),
    /// A key came up or repeats, or something else happened.
    Other,
}

/// What the loop is to do next.
#[derive(Clone, Debug, PartialEq, Eq)]
pub enum Action {
    Nothing,
    /// Leave the loop.
    Quit,
    /// Run the queries of the active screen and hand their output back.
    Refresh,
    /// Try to spawn the command, in the background or with the terminal
    /// handed over until it ends, and tell the state how that went: what
    /// follows is the answer of `command_outcome`.
    Run { mode: CommandMode, command: CommandSpec, input: Vec<u8>, refresh: bool },
    /// Try to delete the file, and tell the state how that went: what
    /// follows is the answer of `removal_outcome`.
    RemoveFile { path: Vec<u8> },
    /// Tell the user.
    Report(Vec<u8>),
}

/// The mathematical value of an [`Action`].
pub enum ActionView {
    Nothing,
    Quit,
    Refresh,
    Run { mode: CommandMode, command: CommandSpecView, input: Seq<u8>, refresh: bool },
    RemoveFile { path: Seq<u8> },
    Report(Seq<u8>),
}

impl View for Action {
    type V = ActionView;

    open spec fn view(&self) -> ActionView {
        match self {
            Action::Nothing => ActionView::Nothing,
            Action::Quit => ActionView::Quit,
            Action::Refresh => ActionView::Refresh,
            Action::Run { mode, command, input, refresh } => ActionView::Run {
                mode: *mode,
                command: command@,
                input: input@,
                refresh: *refresh,
            },
            Action::RemoveFile { path } => ActionView::RemoveFile { path: path@ },
            Action::Report(text) => ActionView::Report(text@),
        }
    }
}

/// The state of the program.
#[derive(Debug)]
pub struct State {
    quit: bool,
    screens: Vec<Screen>,
    pending_transient_op: TransientOp,
    command: Option<IssuedCommand>,
    editor: Option<Vec<u8>>,
}

/// The mathematical value of a [`State`].
pub struct StateView {
    pub quit: bool,
    /// The screens, the active one last.
    pub screens: Seq<ScreenView>,
    pub pending: TransientOp,
    pub command: Option<IssuedCommandView>,
    /// The program that edits files, where one is set.
    pub editor: Option<Seq<u8>>,
}

/// The values of a sequence of screens.
pub open spec fn screen_views(screens: Seq<Screen>) -> Seq<ScreenView> {
    screens.map_values(|s: Screen| s@)
}

/// The bytes that an optional byte string holds.
pub open spec fn editor_view(editor: Option<Vec<u8>>) -> Option<Seq<u8>> {
    match editor {
        Some(e) => Some(e@),
        None => None,
    }
}

impl View for State {
    type V = StateView;

    closed spec fn view(&self) -> StateView {
        StateView {
            quit: self.quit,
            screens: screen_views(self.screens@),
            pending: self.pending_transient_op,
            command: slot_view(self.command),
            editor: editor_view(self.editor),
        }
    }
}

impl StateView {
    /// Whether the loop goes on with a screen to act on, and the selection
    /// of every screen names a row.
    pub open spec fn wf(self) -> bool {
        &&& self.quit || self.screens.len() > 0
        &&& forall|i: int| 0 <= i < self.screens.len() ==> (#[trigger] self.screens[i]).wf()
    }

    /// The active screen.
    pub open spec fn top(self) -> ScreenView {
        self.screens.last()
    }

    /// The state with the active screen replaced.
    pub open spec fn with_top(self, screen: ScreenView) -> StateView {
        StateView { screens: self.screens.update(self.screens.len() - 1, screen), ..self }
    }

    /// The state with a screen put on top of the others.
    pub open spec fn pushed(self, screen: ScreenView) -> StateView {
        StateView { screens: self.screens.push(screen), ..self }
    }

    /// The state with a screen put on top of the first screen alone.
    pub open spec fn gone_to(self, screen: ScreenView) -> StateView {
        StateView { screens: self.screens.take(1).push(screen), ..self }
    }

    /// A screen of the given kind that shows nothing yet, of the size of
    /// the active screen.
    pub open spec fn blank(self, kind: ScreenKind, args: Seq<Seq<u8>>) -> ScreenView {
        blank_screen(kind, args, self.top().cols, self.top().rows)
    }

    /// What the loop is told when a command is to run: to run it, unless
    /// one still runs; then only to refresh, where that was asked for.
    pub open spec fn run(
        self,
        mode: CommandMode,
        command: CommandSpecView,
        input: Seq<u8>,
        refresh: bool,
    ) -> ActionView {
        if slot_busy(self.command) {
            if refresh {
                ActionView::Refresh
            } else {
                ActionView::Nothing
            }
        } else {
            ActionView::Run { mode, command, input, refresh }
        }
    }

    /// The state and the action after the operation on what is selected.
    /// An operation that does not apply is passed over; the discard of a
    /// renamed file, which is not supported, is answered with a message.
    pub open spec fn after_target_op(self, op: TargetOp) -> (StateView, ActionView) {
        match self.top().selected_row().target {
            None => (self, ActionView::Nothing),
            Some(target) => match action_for(op, target) {
                None => if discards_rename(op, target) {
                    (self, ActionView::Report(lit("Discard of a renamed file is not supported")))
                } else {
                    (self, ActionView::Nothing)
                },
                Some(TargetActionView::ShowRef(name)) => (
                    self.pushed(self.blank(ScreenKind::Show, seq![name])),
                    ActionView::Refresh,
                ),
                Some(TargetActionView::Edit { file, line }) => match self.editor {
                    Some(editor) => (
                        self,
                        self.run(
                            CommandMode::Subscreen,
                            CommandSpecView {
                                program: editor,
                                args: editor_args(editor, file, line),
                            },
                            Seq::empty(),
                            true,
                        ),
                    ),
                    None => (self, ActionView::Report(lit("EDITOR not set"))),
                },
                Some(TargetActionView::Captured { command, input }) => (
                    self,
                    self.run(CommandMode::Captured, command, input, true),
                ),
                Some(TargetActionView::Subscreen { command }) => (
                    self,
                    self.run(CommandMode::Subscreen, command, Seq::empty(), true),
                ),
                Some(TargetActionView::RemoveFile(path)) => (self, ActionView::RemoveFile { path }),
            },
        }
    }

    /// The state and the action after leaving the active screen: the screen
    /// below is refreshed, and without one the loop ends.
    pub open spec fn after_quit(self) -> (StateView, ActionView) {
        if self.screens.len() > 1 {
            (StateView { screens: self.screens.drop_last(), ..self }, ActionView::Refresh)
        } else {
            (StateView { screens: Seq::empty(), quit: true, ..self }, ActionView::Quit)
        }
    }

    /// The state and the action after an operation. `was_transient` says
    /// whether a group of keys was open when the key came.
    pub open spec fn after_op(self, op: Op, was_transient: bool) -> (StateView, ActionView) {
        match op {
            Op::Quit => if was_transient {
                (self, ActionView::Nothing)
            } else {
                self.after_quit()
            },
            Op::Refresh => (self, ActionView::Refresh),
            Op::ToggleSection => (self.with_top(self.top().toggled()), ActionView::Nothing),
            Op::SelectPrevious => (self.with_top(self.top().previous()), ActionView::Nothing),
            Op::SelectNext => (self.with_top(self.top().next()), ActionView::Nothing),
            Op::HalfPageUp => (self.with_top(self.top().half_page_up()), ActionView::Nothing),
            Op::HalfPageDown => (self.with_top(self.top().half_page_down()), ActionView::Nothing),
            Op::Commit => (
                self,
                self.run(CommandMode::Subscreen, git(seq![lit("commit")]), Seq::empty(), true),
            ),
            Op::CommitAmend => (
                self,
                self.run(
                    CommandMode::Subscreen,
                    git(seq![lit("commit"), lit("--amend")]),
                    Seq::empty(),
                    true,
                ),
            ),
            Op::Transient(group) => (StateView { pending: group, ..self }, ActionView::Nothing),
            Op::LogCurrent => (
                self.gone_to(self.blank(ScreenKind::Log, Seq::empty())),
                ActionView::Refresh,
            ),
            Op::FetchAll => (
                self,
                self.run(
                    CommandMode::Captured,
                    git(seq![lit("fetch"), lit("--all")]),
                    Seq::empty(),
                    true,
                ),
            ),
            Op::PullRemote => (
                self,
                self.run(CommandMode::Captured, git(seq![lit("pull")]), Seq::empty(), false),
            ),
            Op::PushRemote => (
                self,
                self.run(CommandMode::Captured, git(seq![lit("push")]), Seq::empty(), false),
            ),
            Op::Target(target_op) => self.after_target_op(target_op),
            Op::RebaseAbort => (
                self,
                self.run(
                    CommandMode::Captured,
                    git(seq![lit("rebase"), lit("--abort")]),
                    Seq::empty(),
                    true,
                ),
            ),
            Op::RebaseContinue => (
                self,
                self.run(
                    CommandMode::Captured,
                    git(seq![lit("rebase"), lit("--continue")]),
                    Seq::empty(),
                    true,
                ),
            ),
            Op::ShowRefs => (
                self.gone_to(self.blank(ScreenKind::Refs, Seq::empty())),
                ActionView::Refresh,
            ),
        }
    }

    /// The group in which a key is looked up: the open group, or the base
    /// table while the help is shown or no group is open.
    pub open spec fn lookup_group(self) -> TransientOp {
        if self.pending == TransientOp::Help {
            TransientOp::Idle
        } else {
            self.pending
        }
    }

    /// The state and the action after a key. A key that the table does not
    /// know in the open group is passed over and leaves the group open; the
    /// help alone closes on every key.
    pub open spec fn after_key(self, bindings: Seq<Keybind>, key: Key) -> (StateView, ActionView) {
        match op_of(bindings, self.lookup_group(), key, 0) {
            Some(op) => (StateView { pending: TransientOp::Idle, ..self }).after_op(
                op,
                self.pending != TransientOp::Idle,
            ),
            None => if self.pending == TransientOp::Help {
                (StateView { pending: TransientOp::Idle, ..self }, ActionView::Nothing)
            } else {
                (self, ActionView::Nothing)
            },
        }
    }

    /// The state and the action after an attempt to run a command. A
    /// failure is told to the user and changes nothing. After a success the
    /// command is recorded, unless one still runs, and the active screen is
    /// refreshed where that was asked for.
    pub open spec fn after_run(
        self,
        mode: CommandMode,
        refresh: bool,
        failure: Option<Seq<u8>>,
    ) -> (StateView, ActionView) {
        match failure {
            Some(message) => (self, ActionView::Report(message)),
            None => (
                StateView { command: issued(self.command, mode), ..self },
                if refresh {
                    ActionView::Refresh
                } else {
                    ActionView::Nothing
                },
            ),
        }
    }

    /// Whether the event acts on a screen: a new size does, and so does a
    /// key that the table knows in the open group.
    pub open spec fn needs_screen(self, bindings: Seq<Keybind>, event: Event) -> bool {
        match event {
            Event::Resize(_, _) => true,
            Event::KeyPress(key) => op_of(bindings, self.lookup_group(), key, 0) is Some,
            Event::Other => false,
        }
    }

    /// The state with the selection of the active screen, if there is one,
    /// brought back among its rows.
    pub open spec fn settled(self) -> StateView {
        if self.screens.len() > 0 {
            self.with_top(self.top().clamp())
        } else {
            self
        }
    }

    /// The state with the command forgotten where it has ended.
    pub open spec fn cleared(self) -> StateView {
        if slot_busy(self.command) {
            self
        } else {
            StateView { command: None, ..self }
        }
    }

    /// The state and the action after an event.
    pub open spec fn after_event(self, bindings: Seq<Keybind>, event: Event) -> (
        StateView,
        ActionView,
    ) {
        match event {
            Event::Resize(cols, rows) => (
                self.with_top(self.top().resized(cols as nat, rows as nat)),
                ActionView::Nothing,
            ),
            Event::KeyPress(key) => {
                let (next, action) = self.cleared().after_key(bindings, key);
                (next.settled(), action)
            },
            Event::Other => (self.settled(), ActionView::Nothing),
        }
    }
}

/// Changing the last of the screens changes the last of their values, and
/// no other.
proof fn lemma_top_changed(before: Seq<Screen>, after: Seq<Screen>, top: ScreenView)
    requires
        before.len() > 0,
        after =~= before.update(before.len() - 1, after.last()),
        after.last()@ == top,
    ensures
        screen_views(after) == screen_views(before).update(before.len() - 1, top),
{
    assert(screen_views(after) =~= screen_views(before).update(before.len() - 1, top));
}

/// The bytes of an optional message.
pub open spec fn failure_view(failure: Option<&[u8]>) -> Option<Seq<u8>> {
    match failure {
        Some(message) => Some(message@),
        None => None,
    }
}

/// What follows an attempt to remove a file: a failure is told to the
/// user, a success is followed by a refresh.
pub open spec fn after_removal(failure: Option<Seq<u8>>) -> ActionView {
    match failure {
        Some(message) => ActionView::Report(message),
        None => ActionView::Refresh,
    }
}

/// Whether the operation is the discard of the delta of a renamed file.
pub open spec fn discards_rename(op: TargetOp, target: TargetView) -> bool {
    op == TargetOp::Discard && (match target {
        TargetView::Delta(d) => d.old_file != d.new_file,
        _ => false,
    })
}

/// The screen that the program starts with.
pub open spec fn first_screen(command: Option<Commands>, cols: nat, rows: nat) -> ScreenView {
    match command {
        Some(Commands::Show { git_show_args }) => blank_screen(
            ScreenKind::Show,
            crate::text::rows(git_show_args@),
            cols,
            rows,
        ),
        Some(Commands::Log { git_log_args }) => blank_screen(
            ScreenKind::Log,
            crate::text::rows(git_log_args@),
            cols,
            rows,
        ),
        Some(Commands::Diff { git_diff_args }) => blank_screen(
            ScreenKind::Diff,
            crate::text::rows(git_diff_args@),
            cols,
            rows,
        ),
        None => blank_screen(ScreenKind::Status, Seq::empty(), cols, rows),
    }
}

impl State {
    /// The state at the start: the one screen that the program was started
    /// for, not yet filled, no group of keys open, no command issued.
    pub fn create(
        command: Option<Commands>,
        editor: Option<Vec<u8>>,
        cols: u16,
        rows: u16,
    ) -> (state: State)
        ensures
            state@ == (StateView {
                quit: false,
                screens: seq![first_screen(command, cols as nat, rows as nat)],
                pending: TransientOp::Idle,
                command: None,
                editor: editor_view(editor),
            }),
            state@.wf(),
    {
        let ghost first = first_screen(command, cols as nat, rows as nat);
        let screen = match command {
            Some(Commands::Show { git_show_args }) => Screen::open(
                ScreenKind::Show,
                git_show_args,
                cols,
                rows,
            ),
            Some(Commands::Log { git_log_args }) => Screen::open(
                ScreenKind::Log,
                git_log_args,
                cols,
                rows,
            ),
            Some(Commands::Diff { git_diff_args }) => Screen::open(
                ScreenKind::Diff,
                git_diff_args,
                cols,
                rows,
            ),
            None => {
                let none: Vec<Vec<u8>> = Vec::new();
                assert(crate::text::rows(none@) =~= Seq::<Seq<u8>>::empty());
                Screen::open(ScreenKind::Status, none, cols, rows)
            },
        };
        assert(screen@ == first);
        let mut screens: Vec<Screen> = Vec::new();
        screens.push(screen);
        assert(screen_views(screens@) =~= seq![first]);
        State {
            quit: false,
            screens,
            pending_transient_op: TransientOp::Idle,
            command: None,
            editor,
        }
    }

    /// Whether the loop is to end.
    pub fn quit(&self) -> (quit: bool)
        ensures
            quit == self@.quit,
    {
        self.quit
    }

    /// The group of keys that is open.
    pub fn pending_transient_op(&self) -> (pending: TransientOp)
        ensures
            pending == self@.pending,
    {
        self.pending_transient_op
    }

    /// The command that was issued last, unless it was forgotten.
    pub fn command(&self) -> (command: &Option<IssuedCommand>)
        ensures
            slot_view(*command) == self@.command,
    {
        &self.command
    }

    /// The number of screens.
    pub fn screen_count(&self) -> (count: usize)
        ensures
            count == self@.screens.len(),
    {
        proof {
            assert(screen_views(self.screens@).len() == self.screens@.len());
        }
        self.screens.len()
    }

    /// The active screen.
    pub fn screen(&self) -> (screen: &Screen)
        requires
            self@.screens.len() > 0,
        ensures
            screen@ == self@.top(),
    {
        &self.screens[self.screens.len() - 1]
    }

    /// Records that a command was spawned in the background, unless one
    /// still runs: then nothing changes, and the answer is no.
    pub fn issue_command(&mut self) -> (accepted: bool)
        ensures
            accepted == !slot_busy(old(self)@.command),
            final(self)@ == (StateView {
                command: issued(old(self)@.command, CommandMode::Captured),
                ..old(self)@
            }),
    {
        issue(&mut self.command, CommandMode::Captured)
    }

    /// Records a command that had the terminal handed over to it, unless
    /// one still runs: then nothing changes, and the answer is no. The
    /// hand-over waits for the end of the command, so the command that is
    /// recorded has ended, and its end counts as reported: no turn of the
    /// loop reports it again, and the next command can be issued at once.
    pub fn issue_subscreen_command(&mut self) -> (accepted: bool)
        ensures
            accepted == !slot_busy(old(self)@.command),
            final(self)@ == (StateView {
                command: if slot_busy(old(self)@.command) {
                    old(self)@.command
                } else {
                    Some(
                        IssuedCommandView {
                            exited: true,
                            finish_acked: true,
                            ..fresh(CommandMode::Subscreen)
                        },
                    )
                },
                ..old(self)@
            }),
            accepted ==> !slot_busy(final(self)@.command),
    {
        issue(&mut self.command, CommandMode::Subscreen)
    }

    /// Forgets the command where it has ended.
    pub fn clear_finished_command(&mut self)
        ensures
            final(self)@ == old(self)@.cleared(),
    {
        clear_finished(&mut self.command);
    }

    /// Takes in what the command printed and whether it has ended. Says
    /// whether it has just ended: then the active screen is to be
    /// refreshed.
    pub fn handle_command_output(&mut self, drained: &[u8], exited: bool) -> (finished: bool)
        ensures
            finished == finishes_now(old(self)@.command, exited),
            final(self)@ == (StateView {
                command: progressed(old(self)@.command, drained@, exited),
                ..old(self)@
            }),
    {
        handle_progress(&mut self.command, drained, exited)
    }

    /// What follows an attempt to run the command of an action, with the
    /// message of the failure where the command could not be spawned.
    pub fn command_outcome(
        &mut self,
        mode: CommandMode,
        refresh: bool,
        failure: Option<&[u8]>,
    ) -> (action: Action)
        ensures
            (final(self)@, action@) == old(self)@.after_run(mode, refresh, failure_view(failure)),
            old(self)@.wf() ==> final(self)@.wf(),
    {
        match failure {
            Some(message) => Action::Report(copy_bytes(message)),
            None => {
                issue(&mut self.command, mode);
                if refresh {
                    Action::Refresh
                } else {
                    Action::Nothing
                }
            },
        }
    }

    /// What follows an attempt to remove a file, with the message of the
    /// failure where it could not be removed.
    pub fn removal_outcome(&self, failure: Option<&[u8]>) -> (action: Action)
        ensures
            action@ == after_removal(failure_view(failure)),
    {
        match failure {
            Some(message) => Action::Report(copy_bytes(message)),
            None => Action::Refresh,
        }
    }

    /// Fills the active screen from the output of its queries.
    pub fn refresh_screen(&mut self, outputs: &Vec<Vec<u8>>)
        requires
            old(self)@.screens.len() > 0,
        ensures
            final(self)@ == old(self)@.with_top(old(self)@.top().refreshed(rows(outputs@))),
            old(self)@.wf() ==> final(self)@.wf(),
    {
        let n = self.screens.len();
        let screen = &mut self.screens[n - 1];
        screen.refresh(outputs);
        proof {
            lemma_top_changed(
                old(self).screens@,
                self.screens@,
                old(self)@.top().refreshed(rows(outputs@)),
            );
        }
    }

    /// Puts a screen that shows nothing yet on top of the first screen
    /// alone.
    fn goto_screen(&mut self, kind: ScreenKind)
        requires
            old(self)@.screens.len() > 0,
            old(self)@.wf(),
        ensures
            final(self)@ == old(self)@.gone_to(old(self)@.blank(kind, Seq::empty())),
            final(self)@.wf(),
    {
        let (cols, rows) = self.screen().size();
        self.screens.truncate(1);
        let none: Vec<Vec<u8>> = Vec::new();
        assert(crate::text::rows(none@) =~= Seq::<Seq<u8>>::empty());
        let screen = Screen::open(kind, none, cols, rows);
        proof {
            let before = screen_views(old(self).screens@);
            assert(screen_views(self.screens@) =~= before.take(1));
            assert(screen_views(self.screens@.push(screen)) =~= before.take(1).push(screen@));
        }
        self.screens.push(screen);
    }

    /// Puts the screen of the history on top of the first screen alone.
    pub fn goto_log_screen(&mut self)
        requires
            old(self)@.screens.len() > 0,
            old(self)@.wf(),
        ensures
            final(self)@ == old(self)@.gone_to(old(self)@.blank(ScreenKind::Log, Seq::empty())),
            final(self)@.wf(),
    {
        self.goto_screen(ScreenKind::Log);
    }

    /// Puts the screen of the references on top of the first screen alone.
    pub fn goto_refs_screen(&mut self)
        requires
            old(self)@.screens.len() > 0,
            old(self)@.wf(),
        ensures
            final(self)@ == old(self)@.gone_to(old(self)@.blank(ScreenKind::Refs, Seq::empty())),
            final(self)@.wf(),
    {
        self.goto_screen(ScreenKind::Refs);
    }

    /// Puts the screen that shows what a reference names on top of the
    /// others.
    pub fn goto_show_screen(&mut self, name: &[u8])
        requires
            old(self)@.screens.len() > 0,
            old(self)@.wf(),
        ensures
            final(self)@ == old(self)@.pushed(old(self)@.blank(ScreenKind::Show, seq![name@])),
            final(self)@.wf(),
    {
        let (cols, rows) = self.screen().size();
        let mut args: Vec<Vec<u8>> = Vec::new();
        args.push(copy_bytes(name));
        assert(crate::text::rows(args@) =~= seq![name@]);
        let screen = Screen::open(ScreenKind::Show, args, cols, rows);
        proof {
            let before = screen_views(self.screens@);
            assert(screen_views(self.screens@.push(screen)) =~= before.push(screen@));
        }
        self.screens.push(screen);
    }

    /// What the loop is told when a command is to run.
    fn run(
        &self,
        mode: CommandMode,
        command: CommandSpec,
        input: Vec<u8>,
        refresh: bool,
    ) -> (action: Action)
        ensures
            action@ == self@.run(mode, command@, input@, refresh),
    {
        let busy = match &self.command {
            Some(cmd) => cmd.is_running(),
            None => false,
        };
        if busy {
            if refresh {
                Action::Refresh
            } else {
                Action::Nothing
            }
        } else {
            Action::Run { mode, command, input, refresh }
        }
    }

    /// Carries out an operation on what is selected.
    fn handle_target_op(&mut self, target_op: TargetOp) -> (action: Action)
        requires
            old(self)@.screens.len() > 0,
            old(self)@.wf(),
        ensures
            (final(self)@, action@) == old(self)@.after_target_op(target_op),
            final(self)@.wf(),
            final(self)@.screens.len() > 0,
    {
        let item = self.screen().get_selected_item();
        let target = match item.target_data {
            Some(target) => target,
            None => {
                return Action::Nothing;
            },
        };
        match closure_by_target_op(&target, target_op) {
            None => {
                let renamed = match &target {
                    TargetData::Delta(d) => !bytes_eq(
                        d.old_file.as_slice(),
                        d.new_file.as_slice(),
                    ),
                    _ => false,
                };
                if target_op == TargetOp::Discard && renamed {
                    Action::Report(
                        copy_bytes("Discard of a renamed file is not supported".as_bytes()),
                    )
                } else {
                    Action::Nothing
                }
            },
            Some(TargetAction::ShowRef(name)) => {
                self.goto_show_screen(name.as_slice());
                Action::Refresh
            },
            Some(TargetAction::Edit { file, line }) => {
                match &self.editor {
                    Some(editor) => {
                        let command = editor_cmd(editor.as_slice(), file.as_slice(), line);
                        self.run(CommandMode::Subscreen, command, Vec::new(), true)
                    },
                    None => Action::Report(copy_bytes("EDITOR not set".as_bytes())),
                }
            },
            Some(TargetAction::Captured { command, input }) => self.run(
                CommandMode::Captured,
                command,
                input,
                true,
            ),
            Some(TargetAction::Subscreen { command }) => self.run(
                CommandMode::Subscreen,
                command,
                Vec::new(),
                true,
            ),
            Some(TargetAction::RemoveFile(path)) => Action::RemoveFile { path },
        }
    }

    /// Carries out an operation. `was_transient` says whether a group of
    /// keys was open when the key came.
    #[verifier::rlimit(40)]
    pub fn perform(&mut self, op: Op, was_transient: bool) -> (action: Action)
        requires
            old(self)@.screens.len() > 0,
            old(self)@.wf(),
        ensures
            (final(self)@, action@) == old(self)@.after_op(op, was_transient),
            final(self)@.wf(),
    {
        let n = self.screens.len();
        proof {
            assert(screen_views(self.screens@).len() == n);
        }
        match op {
            Op::Quit => {
                if was_transient {
                    Action::Nothing
                } else {
                    self.screens.pop();
                    proof {
                        assert(screen_views(self.screens@) =~= screen_views(
                            old(self).screens@,
                        ).drop_last());
                    }
                    if self.screens.len() > 0 {
                        Action::Refresh
                    } else {
                        self.quit = true;
                        proof {
                            assert(screen_views(self.screens@) =~= Seq::<ScreenView>::empty());
                        }
                        Action::Quit
                    }
                }
            },
            Op::Refresh => Action::Refresh,
            Op::ToggleSection => {
                let screen = &mut self.screens[n - 1];
                screen.toggle_section();
                proof {
                    lemma_top_changed(
                        old(self).screens@,
                        self.screens@,
                        old(self)@.top().toggled(),
                    );
                }
                Action::Nothing
            },
            Op::SelectPrevious => {
                let screen = &mut self.screens[n - 1];
                screen.select_previous();
                proof {
                    lemma_top_changed(
                        old(self).screens@,
                        self.screens@,
                        old(self)@.top().previous(),
                    );
                }
                Action::Nothing
            },
            Op::SelectNext => {
                let screen = &mut self.screens[n - 1];
                screen.select_next();
                proof {
                    lemma_top_changed(old(self).screens@, self.screens@, old(self)@.top().next());
                }
                Action::Nothing
            },
            Op::HalfPageUp => {
                let screen = &mut self.screens[n - 1];
                screen.scroll_half_page_up();
                proof {
                    lemma_top_changed(
                        old(self).screens@,
                        self.screens@,
                        old(self)@.top().half_page_up(),
                    );
                }
                Action::Nothing
            },
            Op::HalfPageDown => {
                let screen = &mut self.screens[n - 1];
                screen.scroll_half_page_down();
                proof {
                    lemma_top_changed(
                        old(self).screens@,
                        self.screens@,
                        old(self)@.top().half_page_down(),
                    );
                }
                Action::Nothing
            },
            Op::Commit => self.run(CommandMode::Subscreen, commit_cmd(), Vec::new(), true),
            Op::CommitAmend => self.run(
                CommandMode::Subscreen,
                commit_amend_cmd(),
                Vec::new(),
                true,
            ),
            Op::Transient(group) => {
                self.pending_transient_op = group;
                Action::Nothing
            },
            Op::LogCurrent => {
                self.goto_log_screen();
                Action::Refresh
            },
            Op::FetchAll => self.run(CommandMode::Captured, fetch_all_cmd(), Vec::new(), true),
            Op::PullRemote => self.run(CommandMode::Captured, pull_cmd(), Vec::new(), false),
            Op::PushRemote => self.run(CommandMode::Captured, push_cmd(), Vec::new(), false),
            Op::Target(target_op) => self.handle_target_op(target_op),
            Op::RebaseAbort => self.run(
                CommandMode::Captured,
                rebase_abort_cmd(),
                Vec::new(),
                true,
            ),
            Op::RebaseContinue => self.run(
                CommandMode::Captured,
                rebase_continue_cmd(),
                Vec::new(),
                true,
            ),
            Op::ShowRefs => {
                self.goto_refs_screen();
                Action::Refresh
            },
        }
    }

    /// Looks a key up in the open group and carries out what it means.
    pub fn handle_op(&mut self, bindings: &[Keybind], key: Key) -> (action: Action)
        requires
            old(self)@.wf(),
            op_of(bindings@, old(self)@.lookup_group(), key, 0) is Some ==> old(self)@.screens.len()
                > 0,
        ensures
            (final(self)@, action@) == old(self)@.after_key(bindings@, key),
            final(self)@.wf(),
    {
        let pending = if self.pending_transient_op == TransientOp::Help {
            TransientOp::Idle
        } else {
            self.pending_transient_op
        };
        match op_of_key_event(bindings, pending, key) {
            Some(op) => {
                let was_transient = self.pending_transient_op != TransientOp::Idle;
                self.pending_transient_op = TransientOp::Idle;
                self.perform(op, was_transient)
            },
            None => {
                if self.pending_transient_op == TransientOp::Help {
                    self.pending_transient_op = TransientOp::Idle;
                }
                Action::Nothing
            },
        }
    }

    /// Takes in an event and says what the loop is to do.
    pub fn update(&mut self, bindings: &[Keybind], event: Event) -> (action: Action)
        requires
            old(self)@.wf(),
            old(self)@.needs_screen(bindings@, event) ==> old(self)@.screens.len() > 0,
        ensures
            (final(self)@, action@) == old(self)@.after_event(bindings@, event),
            final(self)@.wf(),
    {
        let action = match event {
            Event::Resize(cols, rows) => {
                let n = self.screens.len();
                let screen = &mut self.screens[n - 1];
                screen.resize(cols, rows);
                proof {
                    lemma_top_changed(
                        old(self).screens@,
                        self.screens@,
                        old(self)@.top().resized(cols as nat, rows as nat),
                    );
                }
                return Action::Nothing;
            },
            Event::KeyPress(key) => {
                self.clear_finished_command();
                self.handle_op(bindings, key)
            },
            Event::Other => Action::Nothing,
        };
        let ghost before = self@;
        let ghost held = self.screens@;
        let n = self.screens.len();
        proof {
            assert(screen_views(self.screens@).len() == n);
        }
        if n > 0 {
            let screen = &mut self.screens[n - 1];
            screen.clamp_cursor();
            proof {
                lemma_top_changed(held, self.screens@, before.top().clamp());
            }
        }
        action
    }
}

/// While a command runs, no operation asks for another to be spawned, and
/// the command that runs stays as it is.
pub proof fn lemma_one_command_at_a_time(st: StateView, op: Op, was_transient: bool)
    requires
        slot_busy(st.command),
    ensures
        !(st.after_op(op, was_transient).1 is Run),
        st.after_op(op, was_transient).0.command == st.command,
{
}

/// An attempt that failed changes nothing and is told to the user.
pub proof fn lemma_failure_changes_nothing(
    st: StateView,
    mode: CommandMode,
    refresh: bool,
    message: Seq<u8>,
)
    ensures
        st.after_run(mode, refresh, Some(message)) == (st, ActionView::Report(message)),
        after_removal(Some(message)) == ActionView::Report(message),
{
}

/// After the terminal was handed over, no command runs: the next command
/// can be issued at once.
pub proof fn lemma_no_command_runs_after_hand_over(st: StateView, refresh: bool)
    requires
        !slot_busy(st.command),
    ensures
        !slot_busy(st.after_run(CommandMode::Subscreen, refresh, None).0.command),
{
}

/// A key that the table does not know leaves every group but the help
/// open, and asks for nothing; the help closes on every key. This holds of
/// every state, with or without a screen.
pub proof fn lemma_unknown_key(st: StateView, bindings: Seq<Keybind>, key: Key)
    requires
        op_of(bindings, st.lookup_group(), key, 0) is None,
    ensures
        st.after_key(bindings, key).1 == ActionView::Nothing,
        st.pending != TransientOp::Help ==> st.after_key(bindings, key).0 == st,
        st.pending == TransientOp::Help ==> st.after_key(bindings, key).0 == (StateView {
            pending: TransientOp::Idle,
            ..st
        }),
{
}

} // verus!
