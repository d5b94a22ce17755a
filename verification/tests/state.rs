use gitu::command::{clear_finished, handle_progress, issue, may_issue, CommandMode, IssuedCommand};
use gitu::dispatch::{closure_by_target_op, editor_cmd, list_target_ops, TargetAction};
use gitu::diff::parse_diff;
use gitu::git::{
    checkout_file_cmd, commit_cmd, diff_cmd, fetch_all_cmd, reset_hard, reset_mixed, reset_soft,
    CommandSpec, ResetKind,
};
use gitu::items::TargetData;
use gitu::keys::{
    list_all_target_ops, op_of_key_event, plain_key, Key, KeyCode, Keybind, Op, TargetOp,
    TransientOp,
};
use gitu::screen::ScreenKind;
use gitu::state::{Action, Commands, Event, State};

fn args(words: &[&str]) -> Vec<Vec<u8>> {
    words.iter().map(|w| w.as_bytes().to_vec()).collect()
}

fn git(words: &[&str]) -> CommandSpec {
    CommandSpec { program: b"git".to_vec(), args: args(words) }
}

fn key(c: char) -> Key {
    plain_key(KeyCode::Char(c))
}

fn bind(transient: TransientOp, c: char, op: Op) -> Keybind {
    Keybind { transient, key: key(c), op }
}

fn table() -> Vec<Keybind> {
    vec![
        bind(TransientOp::Idle, 'q', Op::Quit),
        bind(TransientOp::Idle, 'g', Op::Refresh),
        bind(TransientOp::Idle, 'j', Op::SelectNext),
        bind(TransientOp::Idle, 'k', Op::SelectPrevious),
        Keybind { transient: TransientOp::Idle, key: plain_key(KeyCode::Tab), op: Op::ToggleSection },
        Keybind {
            transient: TransientOp::Idle,
            key: Key { code: KeyCode::Char('d'), ctrl: true, alt: false, shift: false },
            op: Op::HalfPageDown,
        },
        bind(TransientOp::Idle, 's', Op::Target(TargetOp::Stage)),
        bind(TransientOp::Idle, 'u', Op::Target(TargetOp::Unstage)),
        bind(TransientOp::Idle, 'K', Op::Target(TargetOp::Discard)),
        Keybind { transient: TransientOp::Idle, key: plain_key(KeyCode::Enter), op: Op::Target(TargetOp::Show) },
        bind(TransientOp::Idle, 'y', Op::ShowRefs),
        bind(TransientOp::Idle, 'h', Op::Transient(TransientOp::Help)),
        bind(TransientOp::Help, 'q', Op::Quit),
        bind(TransientOp::Idle, 'b', Op::Transient(TransientOp::Branch)),
        bind(TransientOp::Branch, 'b', Op::Target(TargetOp::Checkout)),
        bind(TransientOp::Branch, 'q', Op::Quit),
        bind(TransientOp::Idle, 'c', Op::Transient(TransientOp::Commit)),
        bind(TransientOp::Commit, 'c', Op::Commit),
        bind(TransientOp::Commit, 'a', Op::CommitAmend),
        bind(TransientOp::Idle, 'f', Op::Transient(TransientOp::Fetch)),
        bind(TransientOp::Fetch, 'a', Op::FetchAll),
        bind(TransientOp::Idle, 'l', Op::Transient(TransientOp::Log)),
        bind(TransientOp::Log, 'l', Op::LogCurrent),
        bind(TransientOp::Idle, 'P', Op::Transient(TransientOp::Push)),
        bind(TransientOp::Push, 'p', Op::PushRemote),
        bind(TransientOp::Idle, 'q', Op::Refresh),
    ]
}

fn status_state() -> State {
    let mut state = State::create(None, Some(b"vim".to_vec()), 40, 5);
    state.refresh_screen(&vec![
        b"?? new-file\n".to_vec(),
        b"diff --git a/f b/f\n--- a/f\n+++ b/f\n@@ -1,2 +1,2 @@\n a\n-b\n+c\n".to_vec(),
        b"".to_vec(),
    ]);
    state
}

fn press(state: &mut State, c: char) -> Action {
    state.update(&table(), Event::KeyPress(key(c)))
}

fn hunk() -> gitu::patch::Hunk {
    parse_diff(b"--- a/f\n+++ b/f\n@@ -1,2 +1,2 @@\n a\n-b\n+c\n")[0].hunks[0].duplicate()
}

#[test]
fn the_first_binding_that_fits_gives_the_operation() {
    let table = table();
    assert_eq!(op_of_key_event(&table, TransientOp::Idle, key('q')), Some(Op::Quit));
    assert_eq!(op_of_key_event(&table, TransientOp::Branch, key('b')), Some(Op::Target(TargetOp::Checkout)));
    assert_eq!(op_of_key_event(&table, TransientOp::Idle, key('b')), Some(Op::Transient(TransientOp::Branch)));
    assert_eq!(op_of_key_event(&table, TransientOp::Branch, key('z')), None);
    assert_eq!(op_of_key_event(&table, TransientOp::Idle, key('d')), None);
    assert_eq!(
        op_of_key_event(
            &table,
            TransientOp::Idle,
            Key { code: KeyCode::Char('d'), ctrl: true, alt: false, shift: false }
        ),
        Some(Op::HalfPageDown)
    );
    assert_eq!(op_of_key_event(&[], TransientOp::Idle, key('q')), None);
}

#[test]
fn the_state_starts_with_the_screen_it_was_started_for() {
    let state = State::create(None, None, 40, 5);
    assert!(!state.quit());
    assert_eq!(state.screen_count(), 1);
    assert_eq!(state.screen().kind(), ScreenKind::Status);
    assert_eq!(state.screen().size(), (40, 5));
    assert_eq!(state.pending_transient_op(), TransientOp::Idle);
    assert_eq!(state.command(), &None);
    let show = State::create(Some(Commands::Show { git_show_args: args(&["abc"]) }), None, 1, 1);
    assert_eq!(show.screen().kind(), ScreenKind::Show);
    assert_eq!(show.screen().args(), &args(&["abc"]));
    let log = State::create(Some(Commands::Log { git_log_args: args(&["-n", "2"]) }), None, 1, 1);
    assert_eq!(log.screen().kind(), ScreenKind::Log);
    assert_eq!(log.screen().queries(), vec![git(&["log", "--oneline", "-n", "2"])]);
    let diff = State::create(Some(Commands::Diff { git_diff_args: args(&["--stat"]) }), None, 1, 1);
    assert_eq!(diff.screen().kind(), ScreenKind::Diff);
    assert_eq!(diff.screen().queries(), vec![diff_cmd(&args(&["--stat"]))]);
}

#[test]
fn no_repo() {
    let mut state = State::create(None, None, 40, 5);
    state.refresh_screen(&vec![b"".to_vec(), b"".to_vec(), b"".to_vec()]);
    let shown: Vec<Vec<u8>> = state.screen().lines().iter().map(|i| i.display.clone()).collect();
    assert_eq!(
        shown,
        vec![b"Untracked files".to_vec(), b"Unstaged changes".to_vec(), b"Staged changes".to_vec()]
    );
}

#[test]
fn fresh_init() {
    let mut state = State::create(None, None, 40, 5);
    assert_eq!(press(&mut state, 'g'), Action::Refresh);
    state.refresh_screen(&vec![b"## No commits yet on master\n".to_vec(), b"".to_vec(), b"".to_vec()]);
    assert_eq!(state.screen().lines().len(), 3);
    assert!(state.screen().roots()[0].children.is_empty());
}

#[test]
fn new_file() {
    let mut state = State::create(None, None, 40, 5);
    assert_eq!(press(&mut state, 'g'), Action::Refresh);
    state.refresh_screen(&vec![
        b"## No commits yet on master\n?? new-file\n".to_vec(),
        b"".to_vec(),
        b"".to_vec(),
    ]);
    let roots = state.screen().roots();
    assert_eq!(roots[0].display, b"Untracked files".to_vec());
    assert_eq!(roots[0].children.len(), 1);
    assert_eq!(roots[0].children[0].display, b"new-file".to_vec());
}

#[test]
fn discard_of_an_untracked_file_deletes_it_and_empties_the_section() {
    let mut state = status_state();
    assert_eq!(press(&mut state, 'j'), Action::Nothing);
    assert_eq!(state.screen().get_selected_item().target_data, Some(TargetData::File(b"new-file".to_vec())));
    assert_eq!(press(&mut state, 'K'), Action::RemoveFile { path: b"new-file".to_vec() });
    state.refresh_screen(&vec![b"".to_vec(), b"".to_vec(), b"".to_vec()]);
    let roots = state.screen().roots();
    assert_eq!(roots[0].display, b"Untracked files".to_vec());
    assert!(roots[0].children.is_empty());
    assert_eq!(state.screen().selected(), 1);
}

#[test]
fn a_key_that_the_help_does_not_know_closes_the_help() {
    let mut state = status_state();
    assert_eq!(press(&mut state, 'h'), Action::Nothing);
    assert_eq!(state.pending_transient_op(), TransientOp::Help);
    assert_eq!(press(&mut state, 'z'), Action::Nothing);
    assert_eq!(state.pending_transient_op(), TransientOp::Idle);
    assert_eq!(state.screen_count(), 1);
    assert!(!state.quit());
}

#[test]
fn a_key_that_a_group_does_not_know_leaves_the_group_open() {
    let mut state = status_state();
    assert_eq!(press(&mut state, 'b'), Action::Nothing);
    assert_eq!(state.pending_transient_op(), TransientOp::Branch);
    assert_eq!(press(&mut state, 'z'), Action::Nothing);
    assert_eq!(state.pending_transient_op(), TransientOp::Branch);
    assert_eq!(state.screen().selected(), 0);
}

#[test]
fn quit_inside_a_group_only_closes_the_group() {
    let mut state = status_state();
    press(&mut state, 'b');
    assert_eq!(press(&mut state, 'q'), Action::Nothing);
    assert_eq!(state.pending_transient_op(), TransientOp::Idle);
    assert!(!state.quit());
    press(&mut state, 'h');
    assert_eq!(press(&mut state, 'q'), Action::Nothing);
    assert_eq!(state.pending_transient_op(), TransientOp::Idle);
    assert_eq!(state.screen_count(), 1);
}

#[test]
fn the_help_looks_keys_up_in_the_base_table() {
    let mut state = status_state();
    press(&mut state, 'h');
    assert_eq!(press(&mut state, 'j'), Action::Nothing);
    assert_eq!(state.pending_transient_op(), TransientOp::Idle);
    assert_eq!(state.screen().selected(), 1);
}

#[test]
fn quit_on_the_last_screen_ends_the_loop() {
    let mut state = status_state();
    assert_eq!(press(&mut state, 'q'), Action::Quit);
    assert!(state.quit());
    assert_eq!(state.screen_count(), 0);
}

#[test]
fn quit_on_a_second_screen_goes_back_and_refreshes() {
    let mut state = status_state();
    assert_eq!(press(&mut state, 'y'), Action::Refresh);
    assert_eq!(state.screen_count(), 2);
    assert_eq!(state.screen().kind(), ScreenKind::Refs);
    assert_eq!(state.screen().size(), (40, 5));
    assert_eq!(press(&mut state, 'q'), Action::Refresh);
    assert_eq!(state.screen_count(), 1);
    assert_eq!(state.screen().kind(), ScreenKind::Status);
    assert!(!state.quit());
}

#[test]
fn the_log_screen_replaces_all_but_the_first_screen() {
    let mut state = status_state();
    press(&mut state, 'y');
    state.refresh_screen(&vec![b"main\n".to_vec()]);
    assert_eq!(press(&mut state, '\n'), Action::Nothing);
    assert_eq!(state.update(&table(), Event::KeyPress(plain_key(KeyCode::Enter))), Action::Refresh);
    assert_eq!(state.screen_count(), 3);
    assert_eq!(state.screen().kind(), ScreenKind::Show);
    assert_eq!(state.screen().args(), &args(&["main"]));
    press(&mut state, 'l');
    assert_eq!(press(&mut state, 'l'), Action::Refresh);
    assert_eq!(state.screen_count(), 2);
    assert_eq!(state.screen().kind(), ScreenKind::Log);
    state.goto_refs_screen();
    assert_eq!(state.screen_count(), 2);
    assert_eq!(state.screen().kind(), ScreenKind::Refs);
    state.goto_log_screen();
    assert_eq!(state.screen().kind(), ScreenKind::Log);
    state.goto_show_screen(b"v1");
    assert_eq!(state.screen_count(), 3);
}

#[test]
fn stage_of_a_hunk_feeds_its_patch_to_the_tool() {
    let mut state = status_state();
    for _ in 0..4 {
        press(&mut state, 'j');
    }
    assert_eq!(state.screen().get_selected_item().display, b"@@ -1,2 +1,2 @@".to_vec());
    assert_eq!(
        press(&mut state, 's'),
        Action::Run {
            mode: CommandMode::Captured,
            command: git(&["apply", "--cached"]),
            input: b"--- a/f\n+++ b/f\n@@ -1,2 +1,2 @@\n a\n-b\n+c\n".to_vec(),
            refresh: true,
        }
    );
}

#[test]
fn an_operation_without_meaning_for_the_target_is_passed_over() {
    let mut state = status_state();
    assert_eq!(press(&mut state, 's'), Action::Nothing);
    press(&mut state, 'j');
    assert_eq!(press(&mut state, 'u'), Action::Nothing);
    press(&mut state, 'b');
    assert_eq!(press(&mut state, 'b'), Action::Nothing);
    assert_eq!(state.pending_transient_op(), TransientOp::Idle);
}

#[test]
fn a_second_command_is_not_spawned_while_one_runs() {
    let mut state = status_state();
    press(&mut state, 'f');
    assert_eq!(
        press(&mut state, 'a'),
        Action::Run {
            mode: CommandMode::Captured,
            command: fetch_all_cmd(),
            input: Vec::new(),
            refresh: true,
        }
    );
    assert!(state.issue_command());
    assert!(!state.handle_command_output(b"Fetching", false));
    let running = state.command().clone();
    press(&mut state, 'f');
    assert_eq!(press(&mut state, 'a'), Action::Refresh);
    press(&mut state, 'P');
    assert_eq!(press(&mut state, 'p'), Action::Nothing);
    press(&mut state, 'c');
    assert_eq!(press(&mut state, 'c'), Action::Refresh);
    assert!(!state.issue_command());
    assert!(!state.issue_subscreen_command());
    assert_eq!(state.command(), &running);
    assert_eq!(state.command().as_ref().unwrap().output(), &b"Fetching".to_vec());
    assert!(state.handle_command_output(b" origin\n", true));
    assert!(!state.handle_command_output(b"", true));
    assert_eq!(state.command().as_ref().unwrap().output(), &b"Fetching origin\n".to_vec());
    press(&mut state, 'c');
    assert_eq!(state.command(), &None);
    assert_eq!(
        press(&mut state, 'c'),
        Action::Run { mode: CommandMode::Subscreen, command: commit_cmd(), input: Vec::new(), refresh: true }
    );
    assert!(state.issue_subscreen_command());
    assert_eq!(state.command().as_ref().unwrap().mode(), CommandMode::Subscreen);
}

#[test]
fn a_command_that_ended_is_forgotten_on_the_next_key() {
    let mut state = status_state();
    assert!(state.issue_command());
    state.clear_finished_command();
    assert!(state.command().is_some());
    assert!(state.handle_command_output(b"", true));
    press(&mut state, 'j');
    assert_eq!(state.command(), &None);
}

#[test]
fn the_editor_opens_a_hunk_at_its_first_change() {
    let mut state = status_state();
    for _ in 0..4 {
        press(&mut state, 'j');
    }
    assert_eq!(
        state.update(&table(), Event::KeyPress(plain_key(KeyCode::Enter))),
        Action::Run {
            mode: CommandMode::Subscreen,
            command: CommandSpec { program: b"vim".to_vec(), args: args(&["+2", "f"]) },
            input: Vec::new(),
            refresh: true,
        }
    );
    let mut other = State::create(None, None, 40, 5);
    other.refresh_screen(&vec![b"?? x\n".to_vec()]);
    press(&mut other, 'j');
    assert_eq!(
        other.update(&table(), Event::KeyPress(plain_key(KeyCode::Enter))),
        Action::Report(b"EDITOR not set".to_vec())
    );
}

#[test]
fn editors_take_the_line_in_their_own_way() {
    for editor in ["vi", "vim", "nvim", "nano"] {
        assert_eq!(
            editor_cmd(editor.as_bytes(), b"src/x.rs", Some(12)),
            CommandSpec { program: editor.as_bytes().to_vec(), args: args(&["+12", "src/x.rs"]) }
        );
    }
    assert_eq!(
        editor_cmd(b"code", b"src/x.rs", Some(0)),
        CommandSpec { program: b"code".to_vec(), args: args(&["src/x.rs:0"]) }
    );
    assert_eq!(
        editor_cmd(b"vim", b"src/x.rs", None),
        CommandSpec { program: b"vim".to_vec(), args: args(&["src/x.rs"]) }
    );
    assert_eq!(
        editor_cmd(b"emacs", b"f", None),
        CommandSpec { program: b"emacs".to_vec(), args: args(&["f"]) }
    );
}

#[test]
fn resize_and_other_events_bring_the_selection_among_the_rows() {
    let mut state = status_state();
    assert_eq!(state.update(&table(), Event::Resize(100, 30)), Action::Nothing);
    assert_eq!(state.screen().size(), (100, 30));
    assert_eq!(state.update(&table(), Event::Other), Action::Nothing);
    assert_eq!(state.screen().selected(), 0);
    assert_eq!(press(&mut state, '\t'), Action::Nothing);
    assert_eq!(state.update(&table(), Event::KeyPress(plain_key(KeyCode::Tab))), Action::Nothing);
    assert_eq!(state.screen().lines().len(), 8);
    assert!(state.screen().roots()[0].collapsed);
}

#[test]
fn every_pair_of_operation_and_target_has_its_action_or_none() {
    let r = TargetData::Ref(b"main".to_vec());
    let f = TargetData::File(b"new".to_vec());
    let deltas = parse_diff(b"diff --git a/f b/f\n--- a/f\n+++ b/f\n@@ -1,2 +1,2 @@\n a\n-b\n+c\n");
    let d = TargetData::Delta(deltas[0].duplicate());
    let h = TargetData::Hunk(hunk());
    let patch = b"--- a/f\n+++ b/f\n@@ -1,2 +1,2 @@\n a\n-b\n+c\n".to_vec();
    let run = |words: &[&str]| Some(TargetAction::Captured { command: git(words), input: Vec::new() });
    let feed = |words: &[&str]| Some(TargetAction::Captured { command: git(words), input: patch.clone() });
    let hand = |words: &[&str]| Some(TargetAction::Subscreen { command: git(words) });
    let edit = |line| Some(TargetAction::Edit { file: b"f".to_vec(), line });

    assert_eq!(closure_by_target_op(&r, TargetOp::Show), Some(TargetAction::ShowRef(b"main".to_vec())));
    assert_eq!(closure_by_target_op(&f, TargetOp::Show), Some(TargetAction::Edit { file: b"new".to_vec(), line: None }));
    assert_eq!(closure_by_target_op(&d, TargetOp::Show), edit(None));
    assert_eq!(closure_by_target_op(&h, TargetOp::Show), edit(Some(2)));
    assert_eq!(closure_by_target_op(&r, TargetOp::Stage), None);
    assert_eq!(closure_by_target_op(&f, TargetOp::Stage), run(&["add", "new"]));
    assert_eq!(closure_by_target_op(&d, TargetOp::Stage), run(&["add", "f"]));
    assert_eq!(closure_by_target_op(&h, TargetOp::Stage), feed(&["apply", "--cached"]));
    assert_eq!(closure_by_target_op(&r, TargetOp::Unstage), None);
    assert_eq!(closure_by_target_op(&f, TargetOp::Unstage), None);
    assert_eq!(closure_by_target_op(&d, TargetOp::Unstage), run(&["restore", "--staged", "f"]));
    assert_eq!(closure_by_target_op(&h, TargetOp::Unstage), feed(&["apply", "--cached", "--reverse"]));
    assert_eq!(closure_by_target_op(&r, TargetOp::RebaseInteractive), hand(&["rebase", "-i", "--autostash", "main"]));
    assert_eq!(closure_by_target_op(&r, TargetOp::CommitFixup), hand(&["commit", "--fixup", "main"]));
    assert_eq!(
        closure_by_target_op(&r, TargetOp::RebaseAutosquash),
        hand(&["rebase", "-i", "--autosquash", "--keep-empty", "--autostash", "main"])
    );
    assert_eq!(closure_by_target_op(&r, TargetOp::Checkout), run(&["checkout", "main"]));
    for t in [&f, &d, &h] {
        assert_eq!(closure_by_target_op(t, TargetOp::RebaseInteractive), None);
        assert_eq!(closure_by_target_op(t, TargetOp::CommitFixup), None);
        assert_eq!(closure_by_target_op(t, TargetOp::RebaseAutosquash), None);
        assert_eq!(closure_by_target_op(t, TargetOp::Checkout), None);
    }
    assert_eq!(closure_by_target_op(&r, TargetOp::Discard), None);
    assert_eq!(closure_by_target_op(&f, TargetOp::Discard), Some(TargetAction::RemoveFile(b"new".to_vec())));
    assert_eq!(
        closure_by_target_op(&d, TargetOp::Discard),
        Some(TargetAction::Captured { command: checkout_file_cmd(b"f"), input: Vec::new() })
    );
    assert_eq!(closure_by_target_op(&d, TargetOp::Discard), run(&["checkout", "HEAD", "--", "f"]));
    assert_eq!(closure_by_target_op(&h, TargetOp::Discard), feed(&["apply", "--reverse"]));
}

#[test]
fn discard_of_a_renamed_file_does_nothing() {
    let deltas = parse_diff(b"diff --git a/x b/y\nrename from x\nrename to y\n");
    let d = TargetData::Delta(deltas[0].duplicate());
    assert_eq!(closure_by_target_op(&d, TargetOp::Discard), None);
}

#[test]
fn the_operations_of_a_target_are_those_with_an_action() {
    assert_eq!(
        list_all_target_ops(),
        vec![
            TargetOp::Checkout,
            TargetOp::CommitFixup,
            TargetOp::Discard,
            TargetOp::RebaseAutosquash,
            TargetOp::RebaseInteractive,
            TargetOp::Show,
            TargetOp::Stage,
            TargetOp::Unstage,
        ]
    );
    assert_eq!(
        list_target_ops(&TargetData::Ref(b"main".to_vec())),
        vec![
            TargetOp::Checkout,
            TargetOp::CommitFixup,
            TargetOp::RebaseAutosquash,
            TargetOp::RebaseInteractive,
            TargetOp::Show,
        ]
    );
    assert_eq!(
        list_target_ops(&TargetData::File(b"f".to_vec())),
        vec![TargetOp::Discard, TargetOp::Show, TargetOp::Stage]
    );
    assert_eq!(
        list_target_ops(&TargetData::Hunk(hunk())),
        vec![TargetOp::Discard, TargetOp::Show, TargetOp::Stage, TargetOp::Unstage]
    );
}

#[test]
fn resets_name_their_kind_then_the_arguments_then_the_revision() {
    assert_eq!(reset_soft(&args(&["-q"]), b"HEAD~1"), git(&["reset", "--soft", "-q", "HEAD~1"]));
    assert_eq!(reset_mixed(&Vec::new(), b"abc"), git(&["reset", "--mixed", "abc"]));
    assert_eq!(reset_hard(&args(&["-q", "--no-refresh"]), b"x"), git(&["reset", "--hard", "-q", "--no-refresh", "x"]));
    assert_eq!(ResetKind::Soft.label(), b"Reset soft".to_vec());
    assert_eq!(ResetKind::Mixed.label(), b"Reset mixed".to_vec());
    assert_eq!(ResetKind::Hard.label(), b"Reset hard".to_vec());
    assert_eq!(ResetKind::Soft.prompt(), b"Soft reset to".to_vec());
    assert_eq!(ResetKind::Mixed.prompt(), b"Mixed reset to".to_vec());
    assert_eq!(ResetKind::Hard.prompt(), b"Hard reset to".to_vec());
    assert_eq!(ResetKind::Hard.command(&Vec::new(), b"r"), reset_hard(&Vec::new(), b"r"));
}

#[test]
fn the_life_of_a_command() {
    let mut slot: Option<IssuedCommand> = None;
    assert!(may_issue(&slot));
    assert!(!handle_progress(&mut slot, b"lost", true));
    assert_eq!(slot, None);
    assert!(issue(&mut slot, CommandMode::Captured));
    assert!(!may_issue(&slot));
    assert!(slot.as_ref().unwrap().is_running());
    assert!(!issue(&mut slot, CommandMode::Subscreen));
    assert_eq!(slot.as_ref().unwrap().mode(), CommandMode::Captured);
    clear_finished(&mut slot);
    assert!(slot.is_some());
    assert!(!handle_progress(&mut slot, b"ab", false));
    assert!(handle_progress(&mut slot, b"cd", true));
    assert!(!handle_progress(&mut slot, b"", false));
    let cmd = slot.as_mut().unwrap();
    assert!(!cmd.is_running());
    assert!(!cmd.just_finished());
    assert_eq!(cmd.output(), &b"abcd".to_vec());
    cmd.poll(false);
    assert!(!cmd.is_running());
    assert!(may_issue(&slot));
    clear_finished(&mut slot);
    assert_eq!(slot, None);
    let mut cmd = IssuedCommand::spawned(CommandMode::Captured);
    assert!(cmd.is_running());
    assert!(!cmd.just_finished());
    cmd.read_command_output_to_buffer(b"x");
    cmd.poll(true);
    assert!(cmd.just_finished());
    assert!(!cmd.just_finished());
}

#[test]
fn a_command_that_had_the_terminal_has_ended_when_it_is_recorded() {
    let mut cmd = IssuedCommand::spawned(CommandMode::Subscreen);
    assert!(!cmd.is_running());
    assert!(!cmd.just_finished());
    cmd.poll(true);
    assert!(!cmd.just_finished());
    let mut slot: Option<IssuedCommand> = None;
    assert!(issue(&mut slot, CommandMode::Subscreen));
    assert!(may_issue(&slot));
    assert!(!handle_progress(&mut slot, b"", true));
    assert!(issue(&mut slot, CommandMode::Captured));
    assert!(!may_issue(&slot));
    assert_eq!(slot.as_ref().unwrap().mode(), CommandMode::Captured);
}

#[test]
fn after_a_hand_over_the_next_command_is_issued_at_once() {
    let mut state = status_state();
    assert!(state.issue_subscreen_command());
    assert!(!state.command().as_ref().unwrap().is_running());
    assert!(!state.handle_command_output(b"", true));
    assert!(state.issue_command());
    assert!(state.command().as_ref().unwrap().is_running());
    assert!(!state.issue_subscreen_command());
    assert_eq!(state.command().as_ref().unwrap().mode(), CommandMode::Captured);
}

#[test]
fn the_outcome_of_a_command_says_what_follows() {
    let mut state = status_state();
    assert_eq!(
        state.command_outcome(CommandMode::Captured, true, Some(&b"No such file"[..])),
        Action::Report(b"No such file".to_vec())
    );
    assert_eq!(state.command(), &None);
    assert_eq!(state.command_outcome(CommandMode::Captured, false, None), Action::Nothing);
    assert!(state.command().as_ref().unwrap().is_running());
    assert_eq!(state.command_outcome(CommandMode::Subscreen, true, None), Action::Refresh);
    assert_eq!(state.command().as_ref().unwrap().mode(), CommandMode::Captured);
    assert!(state.handle_command_output(b"", true));
    assert_eq!(state.command_outcome(CommandMode::Subscreen, true, None), Action::Refresh);
    assert_eq!(state.command().as_ref().unwrap().mode(), CommandMode::Subscreen);
    assert!(!state.command().as_ref().unwrap().is_running());
    assert_eq!(
        state.command_outcome(CommandMode::Subscreen, true, Some(&b"denied"[..])),
        Action::Report(b"denied".to_vec())
    );
}

#[test]
fn the_outcome_of_a_removal_says_what_follows() {
    let state = status_state();
    assert_eq!(state.removal_outcome(None), Action::Refresh);
    assert_eq!(
        state.removal_outcome(Some(&b"Error removing file: gone"[..])),
        Action::Report(b"Error removing file: gone".to_vec())
    );
    assert_eq!(state.screen().selected(), 0);
}

#[test]
fn a_key_that_is_not_known_is_passed_over_without_a_screen() {
    let mut state = status_state();
    press(&mut state, 'b');
    state.update(&[], Event::Other);
    let mut ended = State::create(None, None, 40, 5);
    assert_eq!(ended.perform(Op::Quit, false), Action::Quit);
    assert_eq!(ended.screen_count(), 0);
    assert_eq!(ended.handle_op(&table(), key('z')), Action::Nothing);
    assert_eq!(ended.update(&table(), Event::KeyPress(key('z'))), Action::Nothing);
    assert_eq!(ended.update(&table(), Event::Other), Action::Nothing);
    assert!(ended.quit());
    assert_eq!(ended.pending_transient_op(), TransientOp::Idle);
}

#[test]
fn discard_of_a_renamed_file_is_answered_with_a_message() {
    let mut state = State::create(Some(Commands::Diff { git_diff_args: Vec::new() }), None, 40, 5);
    state.refresh_screen(&vec![b"diff --git a/x b/y\nrename from x\nrename to y\n".to_vec()]);
    assert_eq!(state.screen().get_selected_item().display, b"x -> y".to_vec());
    assert_eq!(
        press(&mut state, 'K'),
        Action::Report(b"Discard of a renamed file is not supported".to_vec())
    );
    assert_eq!(press(&mut state, 's'), Action::Run {
        mode: CommandMode::Captured,
        command: git(&["add", "y"]),
        input: Vec::new(),
        refresh: true,
    });
}
