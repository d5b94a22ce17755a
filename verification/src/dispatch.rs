//! What an operation does to a target.
//!
//! Every pair of an operation and a kind of target either has an action or
//! has none; a pair without one is passed over in silence. The action is a
//! value that says what to run; running it is left to the caller.

use crate::git::{
    checkout_file_cmd, checkout_ref_cmd, commit_fixup_cmd, discard_unstaged_patch_cmd, git,
    rebase_autosquash_cmd, rebase_interactive_cmd, stage_file_cmd, stage_patch_cmd,
    unstage_file_cmd, unstage_patch_cmd, CommandSpec, CommandSpecView,
};
use crate::items::{TargetData, TargetView};
use crate::keys::{all_target_ops, list_all_target_ops, TargetOp};
use crate::patch::{first_change_line, patch_text};
use crate::text::{bytes_eq, copy_bytes, decimal, lit, push_decimal, COLON, PLUS};
use vstd::prelude::*;

verus! {

/// What is to be done for an operation on a target.
#[derive(Clone, Debug, PartialEq, Eq)]
pub enum TargetAction {
    /// Show what a reference names, on a screen of its own.
    ShowRef(Vec<u8>),
    /// Open a file in the editor, at a line where one is given.
    Edit { file: Vec<u8>, line: Option<u32> },
    /// Run a command in the background and feed it the input.
    Captured { command: CommandSpec, input: Vec<u8> },
    /// Run a command with the terminal handed over to it.
    Subscreen { command: CommandSpec },
    /// Delete a file.
    RemoveFile(Vec<u8>),
}

/// The mathematical value of a [`TargetAction`].
pub enum TargetActionView {
    ShowRef(Seq<u8>),
    Edit { file: Seq<u8>, line: Option<u32> },
    Captured { command: CommandSpecView, input: Seq<u8> },
    Subscreen { command: CommandSpecView },
    RemoveFile(Seq<u8>),
}

impl View for TargetAction {
    type V = TargetActionView;

    open spec fn view(&self) -> TargetActionView {
        match self {
            TargetAction::ShowRef(name) => TargetActionView::ShowRef(name@),
            TargetAction::Edit { file, line } => TargetActionView::Edit {
                file: file@,
                line: *line,
            },
            TargetAction::Captured { command, input } => TargetActionView::Captured {
                command: command@,
                input: input@,
            },
            TargetAction::Subscreen { command } => TargetActionView::Subscreen {
                command: command@,
            },
            TargetAction::RemoveFile(path) => TargetActionView::RemoveFile(path@),
        }
    }
}

/// The value of an optional action.
pub open spec fn action_view(action: Option<TargetAction>) -> Option<TargetActionView> {
    match action {
        Some(a) => Some(a@),
        None => None,
    }
}

/// A command that runs in the background without input.
pub open spec fn plain(command: CommandSpecView) -> Option<TargetActionView> {
    Some(TargetActionView::Captured { command, input: Seq::empty() })
}

/// A command that runs in the background and is fed a patch.
pub open spec fn fed(command: CommandSpecView, input: Seq<u8>) -> Option<TargetActionView> {
    Some(TargetActionView::Captured { command, input })
}

/// A command that takes over the terminal.
pub open spec fn handed(command: CommandSpecView) -> Option<TargetActionView> {
    Some(TargetActionView::Subscreen { command })
}

/// The action of an operation on a target, or none where the operation
/// does not apply to such a target.
pub open spec fn action_for(op: TargetOp, target: TargetView) -> Option<TargetActionView> {
    match (op, target) {
        (TargetOp::Show, TargetView::Ref(r)) => Some(TargetActionView::ShowRef(r)),
        (TargetOp::Show, TargetView::File(f)) => Some(
            TargetActionView::Edit { file: f, line: None },
        ),
        (TargetOp::Show, TargetView::Delta(d)) => Some(
            TargetActionView::Edit { file: d.new_file, line: None },
        ),
        (TargetOp::Show, TargetView::Hunk(h)) => Some(
            TargetActionView::Edit { file: h.new_file, line: Some(first_change_line(h)) },
        ),
        (TargetOp::Stage, TargetView::Ref(_)) => None,
        (TargetOp::Stage, TargetView::File(f)) => plain(git(seq![lit("add"), f])),
        (TargetOp::Stage, TargetView::Delta(d)) => plain(git(seq![lit("add"), d.new_file])),
        (TargetOp::Stage, TargetView::Hunk(h)) => fed(
            git(seq![lit("apply"), lit("--cached")]),
            patch_text(h),
        ),
        (TargetOp::Unstage, TargetView::Ref(_)) => None,
        (TargetOp::Unstage, TargetView::File(_)) => None,
        (TargetOp::Unstage, TargetView::Delta(d)) => plain(
            git(seq![lit("restore"), lit("--staged"), d.new_file]),
        ),
        (TargetOp::Unstage, TargetView::Hunk(h)) => fed(
            git(seq![lit("apply"), lit("--cached"), lit("--reverse")]),
            patch_text(h),
        ),
        (TargetOp::RebaseInteractive, TargetView::Ref(r)) => handed(
            git(seq![lit("rebase"), lit("-i"), lit("--autostash"), r]),
        ),
        (TargetOp::RebaseInteractive, _) => None,
        (TargetOp::CommitFixup, TargetView::Ref(r)) => handed(
            git(seq![lit("commit"), lit("--fixup"), r]),
        ),
        (TargetOp::CommitFixup, _) => None,
        (TargetOp::RebaseAutosquash, TargetView::Ref(r)) => handed(
            git(
                seq![
                    lit("rebase"),
                    lit("-i"),
                    lit("--autosquash"),
                    lit("--keep-empty"),
                    lit("--autostash"),
                    r,
                ],
            ),
        ),
        (TargetOp::RebaseAutosquash, _) => None,
        (TargetOp::Discard, TargetView::Ref(_)) => None,
        (TargetOp::Discard, TargetView::File(f)) => Some(TargetActionView::RemoveFile(f)),
        (TargetOp::Discard, TargetView::Delta(d)) => if d.old_file == d.new_file {
            plain(git(seq![lit("checkout"), lit("HEAD"), lit("--"), d.old_file]))
        } else {
            None
        },
        (TargetOp::Discard, TargetView::Hunk(h)) => fed(
            git(seq![lit("apply"), lit("--reverse")]),
            patch_text(h),
        ),
        (TargetOp::Checkout, TargetView::Ref(r)) => plain(git(seq![lit("checkout"), r])),
        (TargetOp::Checkout, _) => None,
    }
}

/// Every target can be shown, whatever it is.
pub proof fn lemma_show_always_applies(target: TargetView)
    ensures
        action_for(TargetOp::Show, target) is Some,
{
}

/// A command that runs in the background without input.
fn cmd_arg(command: CommandSpec) -> (action: Option<TargetAction>)
    ensures
        action_view(action) == plain(command@),
{
    Some(TargetAction::Captured { command, input: Vec::new() })
}

/// A command that runs in the background and is fed the input.
fn cmd(input: Vec<u8>, command: CommandSpec) -> (action: Option<TargetAction>)
    ensures
        action_view(action) == fed(command@, input@),
{
    Some(TargetAction::Captured { command, input })
}

/// A command that takes over the terminal.
fn subscreen_arg(command: CommandSpec) -> (action: Option<TargetAction>)
    ensures
        action_view(action) == handed(command@),
{
    Some(TargetAction::Subscreen { command })
}

/// Opens a file in the editor.
fn editor(file: &[u8], line: Option<u32>) -> (action: Option<TargetAction>)
    ensures
        action_view(action) == Some(TargetActionView::Edit { file: file@, line }),
{
    Some(TargetAction::Edit { file: copy_bytes(file), line })
}

/// Shows what a reference names.
fn goto_show_screen(name: &[u8]) -> (action: Option<TargetAction>)
    ensures
        action_view(action) == Some(TargetActionView::ShowRef(name@)),
{
    Some(TargetAction::ShowRef(copy_bytes(name)))
}

/// The action of an operation on a target, if it has one.
pub fn closure_by_target_op(target: &TargetData, target_op: TargetOp) -> (action: Option<
    TargetAction,
>)
    ensures
        action_view(action) == action_for(target_op, target@),
{
    match (target_op, target) {
        (TargetOp::Show, TargetData::Ref(r)) => goto_show_screen(r.as_slice()),
        (TargetOp::Show, TargetData::File(u)) => editor(u.as_slice(), None),
        (TargetOp::Show, TargetData::Delta(d)) => editor(d.new_file.as_slice(), None),
        (TargetOp::Show, TargetData::Hunk(h)) => editor(
            h.new_file.as_slice(),
            Some(h.first_diff_line()),
        ),
        (TargetOp::Stage, TargetData::Ref(_)) => None,
        (TargetOp::Stage, TargetData::File(u)) => cmd_arg(stage_file_cmd(u.as_slice())),
        (TargetOp::Stage, TargetData::Delta(d)) => cmd_arg(stage_file_cmd(d.new_file.as_slice())),
        (TargetOp::Stage, TargetData::Hunk(h)) => cmd(h.format_patch(None), stage_patch_cmd()),
        (TargetOp::Unstage, TargetData::Ref(_)) => None,
        (TargetOp::Unstage, TargetData::File(_)) => None,
        (TargetOp::Unstage, TargetData::Delta(d)) => cmd_arg(
            unstage_file_cmd(d.new_file.as_slice()),
        ),
        (TargetOp::Unstage, TargetData::Hunk(h)) => cmd(h.format_patch(None), unstage_patch_cmd()),
        (TargetOp::RebaseInteractive, TargetData::Ref(r)) => subscreen_arg(
            rebase_interactive_cmd(r.as_slice()),
        ),
        (TargetOp::RebaseInteractive, _) => None,
        (TargetOp::CommitFixup, TargetData::Ref(r)) => subscreen_arg(
            commit_fixup_cmd(r.as_slice()),
        ),
        (TargetOp::CommitFixup, _) => None,
        (TargetOp::RebaseAutosquash, TargetData::Ref(r)) => subscreen_arg(
            rebase_autosquash_cmd(r.as_slice()),
        ),
        (TargetOp::RebaseAutosquash, _) => None,
        (TargetOp::Discard, TargetData::Ref(_)) => None,
        (TargetOp::Discard, TargetData::File(f)) => Some(
            TargetAction::RemoveFile(copy_bytes(f.as_slice())),
        ),
        (TargetOp::Discard, TargetData::Delta(d)) => {
            if bytes_eq(d.old_file.as_slice(), d.new_file.as_slice()) {
                cmd_arg(checkout_file_cmd(d.old_file.as_slice()))
            } else {
                None
            }
        },
        (TargetOp::Discard, TargetData::Hunk(h)) => cmd(
            h.format_patch(None),
            discard_unstaged_patch_cmd(),
        ),
        (TargetOp::Checkout, TargetData::Ref(r)) => cmd_arg(checkout_ref_cmd(r.as_slice())),
        (TargetOp::Checkout, _) => None,
    }
}

/// Those of the operations from `from` on that apply to the target.
pub open spec fn applicable(ops: Seq<TargetOp>, target: TargetView, from: int) -> Seq<TargetOp>
    decreases ops.len() - from,
{
    if from < 0 || from >= ops.len() {
        Seq::empty()
    } else if action_for(ops[from], target).is_some() {
        seq![ops[from]] + applicable(ops, target, from + 1)
    } else {
        applicable(ops, target, from + 1)
    }
}

/// The operations that apply to a target, in the order in which all
/// operations are listed.
pub fn list_target_ops(target: &TargetData) -> (ops: Vec<TargetOp>)
    ensures
        ops@ == applicable(all_target_ops(), target@, 0),
{
    let all = list_all_target_ops();
    let mut ops: Vec<TargetOp> = Vec::new();
    let mut i: usize = 0;
    assert(ops@ + applicable(all@, target@, 0) =~= applicable(all@, target@, 0));
    while i < all.len()
        invariant
            i <= all.len(),
            all@ == all_target_ops(),
            ops@ + applicable(all@, target@, i as int) == applicable(all@, target@, 0),
        decreases all.len() - i,
    {
        let op = all[i];
        let ghost before = ops@;
        let ghost tail = applicable(all@, target@, i + 1);
        if closure_by_target_op(target, op).is_some() {
            ops.push(op);
            assert(before.push(op) + tail =~= before + (seq![op] + tail));
        }
        i += 1;
    }
    assert(ops@ + Seq::<TargetOp>::empty() =~= ops@);
    ops
}

/// Whether an editor takes the line as an argument of its own, `+n`, before
/// the file.
pub open spec fn takes_plus_line(editor: Seq<u8>) -> bool {
    editor == lit("vi") || editor == lit("vim") || editor == lit("nvim") || editor == lit("nano")
}

/// The arguments with which an editor opens a file, at a line where one is
/// given: `+n` and the file for the editors that know it, `file:n` else.
pub open spec fn editor_args(editor: Seq<u8>, file: Seq<u8>, line: Option<u32>) -> Seq<Seq<u8>> {
    match line {
        Some(n) => if takes_plus_line(editor) {
            seq![seq![PLUS] + decimal(n as nat), file]
        } else {
            seq![file + seq![COLON] + decimal(n as nat)]
        },
        None => seq![file],
    }
}

/// The command that opens a file in an editor.
pub fn editor_cmd(editor: &[u8], file: &[u8], line: Option<u32>) -> (cmd: CommandSpec)
    ensures
        cmd@ == (CommandSpecView { program: editor@, args: editor_args(editor@, file@, line) }),
{
    let mut cmd = CommandSpec::new(editor);
    match line {
        Some(n) => {
            if bytes_eq(editor, "vi".as_bytes()) || bytes_eq(editor, "vim".as_bytes()) || bytes_eq(
                editor,
                "nvim".as_bytes(),
            ) || bytes_eq(editor, "nano".as_bytes()) {
                let mut at: Vec<u8> = Vec::new();
                at.push(PLUS);
                push_decimal(&mut at, n);
                assert(at@ =~= seq![PLUS] + decimal(n as nat));
                cmd.arg(at.as_slice());
                cmd.arg(file);
            } else {
                let mut at = copy_bytes(file);
                at.push(COLON);
                push_decimal(&mut at, n);
                assert(at@ =~= file@ + seq![COLON] + decimal(n as nat));
                cmd.arg(at.as_slice());
            }
        },
        None => {
            cmd.arg(file);
        },
    }
    assert(cmd@.args =~= editor_args(editor@, file@, line));
    cmd
}

} // verus!
