//! Keys, operations, and the table that binds one to the other.
//!
//! The table is data: a list of bindings, each for one key inside one group
//! of keys. Looking a key up gives the operation of the first binding that
//! fits.

use vstd::prelude::*;

verus! {

/// What a key press names.
#[derive(Clone, Copy, Debug, PartialEq, Eq, Structural)]
pub enum KeyCode {
    Char(char),
    Esc,
    Enter,
    Tab,
    Up,
    Down,
    Left,
    Right,
    /// A key that no binding speaks of.
    Other,
}

/// A key press: the key and the modifiers held with it.
#[derive(Clone, Copy, Debug, PartialEq, Eq, Structural)]
pub struct Key {
    pub code: KeyCode,
    pub ctrl: bool,
    pub alt: bool,
    pub shift: bool,
}

/// A group of keys that a first key opens.
#[derive(Clone, Copy, Debug, PartialEq, Eq, Structural)]
pub enum TransientOp {
    /// No group: the base table.
    Idle,
    Branch,
    Commit,
    Fetch,
    Help,
    Log,
    Pull,
    Push,
    Rebase,
}

/// An operation on what is selected.
#[derive(Clone, Copy, Debug, PartialEq, Eq, Structural)]
pub enum TargetOp {
    Checkout,
    CommitFixup,
    Discard,
    RebaseAutosquash,
    RebaseInteractive,
    Show,
    Stage,
    Unstage,
}

/// An operation.
#[derive(Clone, Copy, Debug, PartialEq, Eq, Structural)]
pub enum Op {
    Quit,
    Refresh,
    ToggleSection,
    SelectPrevious,
    SelectNext,
    HalfPageUp,
    HalfPageDown,
    Commit,
    CommitAmend,
    Transient(TransientOp),
    LogCurrent,
    FetchAll,
    PullRemote,
    PushRemote,
    Target(TargetOp),
    RebaseAbort,
    RebaseContinue,
    ShowRefs,
}

/// One line of the table: in `transient`, `key` means `op`.
#[derive(Clone, Copy, Debug, PartialEq, Eq, Structural)]
pub struct Keybind {
    pub transient: TransientOp,
    pub key: Key,
    pub op: Op,
}

/// Whether a binding is for the given key in the given group.
pub open spec fn binds(b: Keybind, group: TransientOp, key: Key) -> bool {
    b.transient == group && b.key == key
}

/// The operation of the first binding at or after `from` that is for the
/// given key in the given group.
pub open spec fn op_of(bindings: Seq<Keybind>, group: TransientOp, key: Key, from: int) -> Option<
    Op,
>
    decreases bindings.len() - from,
{
    if from < 0 || from >= bindings.len() {
        None
    } else if binds(bindings[from], group, key) {
        Some(bindings[from].op)
    } else {
        op_of(bindings, group, key, from + 1)
    }
}

/// A key without modifiers.
pub fn plain_key(code: KeyCode) -> (key: Key)
    ensures
        key == (Key { code, ctrl: false, alt: false, shift: false }),
{
    Key { code, ctrl: false, alt: false, shift: false }
}

/// The operation that the table gives a key in a group, if any.
pub fn op_of_key_event(bindings: &[Keybind], group: TransientOp, key: Key) -> (op: Option<Op>)
    ensures
        op == op_of(bindings@, group, key, 0),
{
    let mut i: usize = 0;
    while i < bindings.len()
        invariant
            i <= bindings.len(),
            op_of(bindings@, group, key, 0) == op_of(bindings@, group, key, i as int),
        decreases bindings.len() - i,
    {
        let b = bindings[i];
        if b.transient == group && b.key == key {
            return Some(b.op);
        }
        i += 1;
    }
    None
}

/// All operations on what is selected, in the order in which they are
/// listed.
pub fn list_all_target_ops() -> (ops: Vec<TargetOp>)
    ensures
        ops@ == all_target_ops(),
{
    let mut ops: Vec<TargetOp> = Vec::new();
    ops.push(TargetOp::Checkout);
    ops.push(TargetOp::CommitFixup);
    ops.push(TargetOp::Discard);
    ops.push(TargetOp::RebaseAutosquash);
    ops.push(TargetOp::RebaseInteractive);
    ops.push(TargetOp::Show);
    ops.push(TargetOp::Stage);
    ops.push(TargetOp::Unstage);
    assert(ops@ =~= all_target_ops());
    ops
}

/// All operations on what is selected.
pub open spec fn all_target_ops() -> Seq<TargetOp> {
    seq![
        TargetOp::Checkout,
        TargetOp::CommitFixup,
        TargetOp::Discard,
        TargetOp::RebaseAutosquash,
        TargetOp::RebaseInteractive,
        TargetOp::Show,
        TargetOp::Stage,
        TargetOp::Unstage,
    ]
}

} // verus!
