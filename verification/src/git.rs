//! The commands of the version-control tool, as values.
//!
//! Nothing here runs a process. A command is a program and its arguments;
//! whoever runs it hands the output back as bytes.

use crate::text::{copy_bytes, lit, rows};
use vstd::prelude::*;

verus! {

/// A program and its arguments.
#[derive(Clone, Debug, PartialEq, Eq)]
pub struct CommandSpec {
    pub program: Vec<u8>,
    pub args: Vec<Vec<u8>>,
}

/// The mathematical value of a [`CommandSpec`].
pub struct CommandSpecView {
    pub program: Seq<u8>,
    pub args: Seq<Seq<u8>>,
}

impl View for CommandSpec {
    type V = CommandSpecView;

    open spec fn view(&self) -> CommandSpecView {
        CommandSpecView { program: self.program@, args: rows(self.args@) }
    }
}

/// The values of a sequence of commands.
pub open spec fn command_views(commands: Seq<CommandSpec>) -> Seq<CommandSpecView> {
    commands.map_values(|c: CommandSpec| c@)
}

/// The tool called with the given arguments.
pub open spec fn git(args: Seq<Seq<u8>>) -> CommandSpecView {
    CommandSpecView { program: lit("git"), args }
}

/// How far a reset reaches.
#[derive(Clone, Copy, Debug, PartialEq, Eq, Structural)]
pub enum ResetKind {
    Soft,
    Mixed,
    Hard,
}

/// The flag that selects a kind of reset.
pub open spec fn reset_flag(kind: ResetKind) -> Seq<u8> {
    match kind {
        ResetKind::Soft => lit("--soft"),
        ResetKind::Mixed => lit("--mixed"),
        ResetKind::Hard => lit("--hard"),
    }
}

/// The name of a kind of reset.
pub open spec fn reset_label(kind: ResetKind) -> Seq<u8> {
    match kind {
        ResetKind::Soft => lit("Reset soft"),
        ResetKind::Mixed => lit("Reset mixed"),
        ResetKind::Hard => lit("Reset hard"),
    }
}

/// The words that ask for the revision of a kind of reset.
pub open spec fn reset_prompt(kind: ResetKind) -> Seq<u8> {
    match kind {
        ResetKind::Soft => lit("Soft reset to"),
        ResetKind::Mixed => lit("Mixed reset to"),
        ResetKind::Hard => lit("Hard reset to"),
    }
}

impl ResetKind {
    /// The name of the operation.
    pub fn label(self) -> (text: Vec<u8>)
        ensures
            text@ == reset_label(self),
    {
        match self {
            ResetKind::Soft => copy_bytes("Reset soft".as_bytes()),
            ResetKind::Mixed => copy_bytes("Reset mixed".as_bytes()),
            ResetKind::Hard => copy_bytes("Reset hard".as_bytes()),
        }
    }

    /// The words that ask for the revision to reset to.
    pub fn prompt(self) -> (text: Vec<u8>)
        ensures
            text@ == reset_prompt(self),
    {
        match self {
            ResetKind::Soft => copy_bytes("Soft reset to".as_bytes()),
            ResetKind::Mixed => copy_bytes("Mixed reset to".as_bytes()),
            ResetKind::Hard => copy_bytes("Hard reset to".as_bytes()),
        }
    }

    /// The command that resets to `revision`: `reset`, the flag of the
    /// kind, the given arguments, then the revision.
    pub fn command(self, args: &Vec<Vec<u8>>, revision: &[u8]) -> (cmd: CommandSpec)
        ensures
            cmd@ == git(seq![lit("reset"), reset_flag(self)] + rows(args@) + seq![revision@]),
    {
        let mut cmd = CommandSpec::tool();
        cmd.arg("reset".as_bytes());
        match self {
            ResetKind::Soft => cmd.arg("--soft".as_bytes()),
            ResetKind::Mixed => cmd.arg("--mixed".as_bytes()),
            ResetKind::Hard => cmd.arg("--hard".as_bytes()),
        }
        cmd.args_from(args);
        cmd.arg(revision);
        assert(cmd@.args =~= seq![lit("reset"), reset_flag(self)] + rows(args@) + seq![
            revision@,
        ]);
        cmd
    }
}

/// The command of a soft reset to `revision`.
pub fn reset_soft(args: &Vec<Vec<u8>>, revision: &[u8]) -> (cmd: CommandSpec)
    ensures
        cmd@ == git(seq![lit("reset"), lit("--soft")] + rows(args@) + seq![revision@]),
{
    ResetKind::Soft.command(args, revision)
}

/// The command of a mixed reset to `revision`.
pub fn reset_mixed(args: &Vec<Vec<u8>>, revision: &[u8]) -> (cmd: CommandSpec)
    ensures
        cmd@ == git(seq![lit("reset"), lit("--mixed")] + rows(args@) + seq![revision@]),
{
    ResetKind::Mixed.command(args, revision)
}

/// The command of a hard reset to `revision`.
pub fn reset_hard(args: &Vec<Vec<u8>>, revision: &[u8]) -> (cmd: CommandSpec)
    ensures
        cmd@ == git(seq![lit("reset"), lit("--hard")] + rows(args@) + seq![revision@]),
{
    ResetKind::Hard.command(args, revision)
}

impl CommandSpec {
    /// A program without arguments.
    pub fn new(program: &[u8]) -> (cmd: CommandSpec)
        ensures
            cmd@ == (CommandSpecView { program: program@, args: Seq::empty() }),
    {
        let cmd = CommandSpec { program: copy_bytes(program), args: Vec::new() };
        assert(cmd@.args =~= Seq::<Seq<u8>>::empty());
        cmd
    }

    /// The tool without arguments.
    pub fn tool() -> (cmd: CommandSpec)
        ensures
            cmd@ == git(Seq::empty()),
    {
        CommandSpec::new("git".as_bytes())
    }

    /// Adds one argument.
    pub fn arg(&mut self, arg: &[u8])
        ensures
            final(self)@ == (CommandSpecView {
                args: old(self)@.args.push(arg@),
                ..old(self)@
            }),
    {
        let owned = copy_bytes(arg);
        assert(rows(self.args@.push(owned)) =~= rows(self.args@).push(arg@));
        self.args.push(owned);
    }

    /// Adds the given arguments, in order.
    pub fn args_from(&mut self, args: &Vec<Vec<u8>>)
        ensures
            final(self)@ == (CommandSpecView {
                args: old(self)@.args + rows(args@),
                ..old(self)@
            }),
    {
        let mut i: usize = 0;
        assert(old(self)@.args + rows(args@).take(0) =~= old(self)@.args);
        while i < args.len()
            invariant
                i <= args.len(),
                self@.program == old(self)@.program,
                self@.args == old(self)@.args + rows(args@).take(i as int),
            decreases args.len() - i,
        {
            self.arg(args[i].as_slice());
            assert(old(self)@.args + rows(args@).take(i + 1) =~= (old(self)@.args + rows(
                args@,
            ).take(i as int)).push(args@[i as int]@));
            i += 1;
        }
        assert(rows(args@).take(i as int) =~= rows(args@));
    }
}

/// The tool with one word.
fn tool1(a: &str) -> (cmd: CommandSpec)
    ensures
        cmd@ == git(seq![lit(a)]),
{
    let mut cmd = CommandSpec::tool();
    cmd.arg(a.as_bytes());
    assert(cmd@.args =~= seq![lit(a)]);
    cmd
}

/// The tool with two words.
fn tool2(a: &str, b: &str) -> (cmd: CommandSpec)
    ensures
        cmd@ == git(seq![lit(a), lit(b)]),
{
    let mut cmd = CommandSpec::tool();
    cmd.arg(a.as_bytes());
    cmd.arg(b.as_bytes());
    assert(cmd@.args =~= seq![lit(a), lit(b)]);
    cmd
}

/// The tool with three words.
fn tool3(a: &str, b: &str, c: &str) -> (cmd: CommandSpec)
    ensures
        cmd@ == git(seq![lit(a), lit(b), lit(c)]),
{
    let mut cmd = CommandSpec::tool();
    cmd.arg(a.as_bytes());
    cmd.arg(b.as_bytes());
    cmd.arg(c.as_bytes());
    assert(cmd@.args =~= seq![lit(a), lit(b), lit(c)]);
    cmd
}

/// The listing of the state of the working tree.
pub fn status_cmd() -> (cmd: CommandSpec)
    ensures
        cmd@ == git(seq![lit("status"), lit("--porcelain"), lit("--branch")]),
{
    tool3("status", "--porcelain", "--branch")
}

/// The changes that are not staged, with the given arguments.
pub fn diff_cmd(args: &Vec<Vec<u8>>) -> (cmd: CommandSpec)
    ensures
        cmd@ == git(seq![lit("diff")] + rows(args@)),
{
    let mut cmd = tool1("diff");
    cmd.args_from(args);
    cmd
}

/// The changes that are staged.
pub fn diff_staged_cmd() -> (cmd: CommandSpec)
    ensures
        cmd@ == git(seq![lit("diff"), lit("--staged")]),
{
    tool2("diff", "--staged")
}

/// The history, one line for each commit, with the given arguments.
pub fn log_cmd(args: &Vec<Vec<u8>>) -> (cmd: CommandSpec)
    ensures
        cmd@ == git(seq![lit("log"), lit("--oneline")] + rows(args@)),
{
    let mut cmd = tool2("log", "--oneline");
    cmd.args_from(args);
    cmd
}

/// What the given arguments name, as a patch.
pub fn show_cmd(args: &Vec<Vec<u8>>) -> (cmd: CommandSpec)
    ensures
        cmd@ == git(seq![lit("show")] + rows(args@)),
{
    let mut cmd = tool1("show");
    cmd.args_from(args);
    cmd
}

/// The names of the branches and tags, one on each line.
pub fn show_refs_cmd() -> (cmd: CommandSpec)
    ensures
        cmd@ == git(
            seq![
                lit("for-each-ref"),
                lit("--format=%(refname:short)"),
                lit("refs/heads"),
                lit("refs/tags"),
            ],
        ),
{
    let mut cmd = tool3("for-each-ref", "--format=%(refname:short)", "refs/heads");
    cmd.arg("refs/tags".as_bytes());
    assert(cmd@.args =~= seq![
        lit("for-each-ref"),
        lit("--format=%(refname:short)"),
        lit("refs/heads"),
        lit("refs/tags"),
    ]);
    cmd
}

/// Stages a file.
pub fn stage_file_cmd(path: &[u8]) -> (cmd: CommandSpec)
    ensures
        cmd@ == git(seq![lit("add"), path@]),
{
    let mut cmd = tool1("add");
    cmd.arg(path);
    assert(cmd@.args =~= seq![lit("add"), path@]);
    cmd
}

/// Stages the patch that is fed to the command.
pub fn stage_patch_cmd() -> (cmd: CommandSpec)
    ensures
        cmd@ == git(seq![lit("apply"), lit("--cached")]),
{
    tool2("apply", "--cached")
}

/// Takes a file out of the index.
pub fn unstage_file_cmd(path: &[u8]) -> (cmd: CommandSpec)
    ensures
        cmd@ == git(seq![lit("restore"), lit("--staged"), path@]),
{
    let mut cmd = tool2("restore", "--staged");
    cmd.arg(path);
    assert(cmd@.args =~= seq![lit("restore"), lit("--staged"), path@]);
    cmd
}

/// Takes the patch that is fed to the command out of the index.
pub fn unstage_patch_cmd() -> (cmd: CommandSpec)
    ensures
        cmd@ == git(seq![lit("apply"), lit("--cached"), lit("--reverse")]),
{
    tool3("apply", "--cached", "--reverse")
}

/// Undoes, in the working tree, the patch that is fed to the command.
pub fn discard_unstaged_patch_cmd() -> (cmd: CommandSpec)
    ensures
        cmd@ == git(seq![lit("apply"), lit("--reverse")]),
{
    tool2("apply", "--reverse")
}

/// Brings a file back to its committed state.
pub fn checkout_file_cmd(path: &[u8]) -> (cmd: CommandSpec)
    ensures
        cmd@ == git(seq![lit("checkout"), lit("HEAD"), lit("--"), path@]),
{
    let mut cmd = tool3("checkout", "HEAD", "--");
    cmd.arg(path);
    assert(cmd@.args =~= seq![lit("checkout"), lit("HEAD"), lit("--"), path@]);
    cmd
}

/// Switches to a reference.
pub fn checkout_ref_cmd(name: &[u8]) -> (cmd: CommandSpec)
    ensures
        cmd@ == git(seq![lit("checkout"), name@]),
{
    let mut cmd = tool1("checkout");
    cmd.arg(name);
    assert(cmd@.args =~= seq![lit("checkout"), name@]);
    cmd
}

/// Commits what is staged.
pub fn commit_cmd() -> (cmd: CommandSpec)
    ensures
        cmd@ == git(seq![lit("commit")]),
{
    tool1("commit")
}

/// Amends the last commit.
pub fn commit_amend_cmd() -> (cmd: CommandSpec)
    ensures
        cmd@ == git(seq![lit("commit"), lit("--amend")]),
{
    tool2("commit", "--amend")
}

/// Commits what is staged as a fix of the given commit.
pub fn commit_fixup_cmd(name: &[u8]) -> (cmd: CommandSpec)
    ensures
        cmd@ == git(seq![lit("commit"), lit("--fixup"), name@]),
{
    let mut cmd = tool2("commit", "--fixup");
    cmd.arg(name);
    assert(cmd@.args =~= seq![lit("commit"), lit("--fixup"), name@]);
    cmd
}

/// Fetches from all remotes.
pub fn fetch_all_cmd() -> (cmd: CommandSpec)
    ensures
        cmd@ == git(seq![lit("fetch"), lit("--all")]),
{
    tool2("fetch", "--all")
}

/// Pulls from the remote.
pub fn pull_cmd() -> (cmd: CommandSpec)
    ensures
        cmd@ == git(seq![lit("pull")]),
{
    tool1("pull")
}

/// Pushes to the remote.
pub fn push_cmd() -> (cmd: CommandSpec)
    ensures
        cmd@ == git(seq![lit("push")]),
{
    tool1("push")
}

/// Rebases onto a reference, step by step.
pub fn rebase_interactive_cmd(name: &[u8]) -> (cmd: CommandSpec)
    ensures
        cmd@ == git(seq![lit("rebase"), lit("-i"), lit("--autostash"), name@]),
{
    let mut cmd = tool3("rebase", "-i", "--autostash");
    cmd.arg(name);
    assert(cmd@.args =~= seq![lit("rebase"), lit("-i"), lit("--autostash"), name@]);
    cmd
}

/// Rebases onto a reference and folds the fixes into their commits.
pub fn rebase_autosquash_cmd(name: &[u8]) -> (cmd: CommandSpec)
    ensures
        cmd@ == git(
            seq![
                lit("rebase"),
                lit("-i"),
                lit("--autosquash"),
                lit("--keep-empty"),
                lit("--autostash"),
                name@,
            ],
        ),
{
    let mut cmd = tool3("rebase", "-i", "--autosquash");
    cmd.arg("--keep-empty".as_bytes());
    cmd.arg("--autostash".as_bytes());
    cmd.arg(name);
    assert(cmd@.args =~= seq![
        lit("rebase"),
        lit("-i"),
        lit("--autosquash"),
        lit("--keep-empty"),
        lit("--autostash"),
        name@,
    ]);
    cmd
}

/// Gives up the rebase that is under way.
pub fn rebase_abort_cmd() -> (cmd: CommandSpec)
    ensures
        cmd@ == git(seq![lit("rebase"), lit("--abort")]),
{
    tool2("rebase", "--abort")
}

/// Goes on with the rebase that is under way.
pub fn rebase_continue_cmd() -> (cmd: CommandSpec)
    ensures
        cmd@ == git(seq![lit("rebase"), lit("--continue")]),
{
    tool2("rebase", "--continue")
}

} // verus!
