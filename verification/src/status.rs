//! Reading the short status listing.
//!
//! A line of the status listing holds two status bytes, a blank and a path.
//! A line that starts with `## ` tells of the branch and names no file.
//! Lines of any other form are passed over.

use crate::text::{
    copy_bytes, has_prefix, lines_of, lit, rows, split_lines, starts_with, SPACE,
};
use vstd::prelude::*;
use vstd::slice::*;

verus! {

/// `?`, the status byte of a file that is not tracked.
pub const UNTRACKED: u8 = 63;

/// One file of the status listing.
#[derive(Clone, Debug, PartialEq, Eq)]
pub struct StatusEntry {
    /// The state of the file in the index.
    pub index: u8,
    /// The state of the file in the working tree.
    pub worktree: u8,
    pub path: Vec<u8>,
}

/// The mathematical value of a [`StatusEntry`].
pub struct StatusEntryView {
    pub index: u8,
    pub worktree: u8,
    pub path: Seq<u8>,
}

impl View for StatusEntry {
    type V = StatusEntryView;

    open spec fn view(&self) -> StatusEntryView {
        StatusEntryView { index: self.index, worktree: self.worktree, path: self.path@ }
    }
}

/// The values of a sequence of entries.
pub open spec fn entry_views(entries: Seq<StatusEntry>) -> Seq<StatusEntryView> {
    entries.map_values(|e: StatusEntry| e@)
}

/// Whether a line of the status listing names a file.
pub open spec fn names_file(line: Seq<u8>) -> bool {
    line.len() >= 4 && line[2] == SPACE && !has_prefix(line, lit("## "))
}

/// The entry that a line which names a file stands for.
pub open spec fn entry_of(line: Seq<u8>) -> StatusEntryView {
    StatusEntryView { index: line[0], worktree: line[1], path: line.skip(3) }
}

/// The entries of the given lines, in order.
pub open spec fn entries_of(lines: Seq<Seq<u8>>) -> Seq<StatusEntryView>
    decreases lines.len(),
{
    if lines.len() == 0 {
        Seq::empty()
    } else if names_file(lines[0]) {
        seq![entry_of(lines[0])] + entries_of(lines.drop_first())
    } else {
        entries_of(lines.drop_first())
    }
}

/// The entries of a status listing.
pub open spec fn status_of(text: Seq<u8>) -> Seq<StatusEntryView> {
    entries_of(lines_of(text))
}

/// Whether the entry is a file that is not tracked.
pub open spec fn is_untracked(e: StatusEntryView) -> bool {
    e.index == UNTRACKED && e.worktree == UNTRACKED
}

/// The paths of the entries that are not tracked, in order.
pub open spec fn untracked_of(entries: Seq<StatusEntryView>) -> Seq<Seq<u8>>
    decreases entries.len(),
{
    if entries.len() == 0 {
        Seq::empty()
    } else if is_untracked(entries[0]) {
        seq![entries[0].path] + untracked_of(entries.drop_first())
    } else {
        untracked_of(entries.drop_first())
    }
}

/// Reads a status listing into its entries.
pub fn parse_status(text: &[u8]) -> (entries: Vec<StatusEntry>)
    ensures
        entry_views(entries@) == status_of(text@),
{
    let lines = split_lines(text);
    let ghost all = rows(lines@);
    let mut entries: Vec<StatusEntry> = Vec::new();
    let mut i: usize = 0;
    proof {
        assert(all.skip(0) =~= all);
        assert(entry_views(entries@) =~= Seq::<StatusEntryView>::empty());
        assert(Seq::<StatusEntryView>::empty() + entries_of(all) =~= entries_of(all));
    }
    while i < lines.len()
        invariant
            i <= lines.len(),
            all == rows(lines@),
            entry_views(entries@) + entries_of(all.skip(i as int)) == entries_of(all),
        decreases lines.len() - i,
    {
        let line = lines[i].as_slice();
        proof {
            let remaining = all.skip(i as int);
            assert(remaining[0] == line@);
            assert(remaining.drop_first() =~= all.skip(i + 1));
        }
        if line.len() >= 4 && line[2] == SPACE && !starts_with(line, "## ".as_bytes()) {
            let entry = StatusEntry {
                index: line[0],
                worktree: line[1],
                path: slice_to_vec(slice_subrange(line, 3, line.len())),
            };
            proof {
                let before = entry_views(entries@);
                let tail = entries_of(all.skip(i + 1));
                assert(entry_views(entries@.push(entry)) =~= before.push(entry@));
                assert(before.push(entry@) + tail =~= before + (seq![entry@] + tail));
            }
            entries.push(entry);
        }
        i += 1;
    }
    proof {
        assert(entry_views(entries@) + Seq::<StatusEntryView>::empty() =~= entry_views(entries@));
    }
    entries
}

/// The paths of the files that are not tracked, in order.
pub fn untracked_files(entries: &Vec<StatusEntry>) -> (paths: Vec<Vec<u8>>)
    ensures
        rows(paths@) == untracked_of(entry_views(entries@)),
{
    let ghost all = entry_views(entries@);
    let mut paths: Vec<Vec<u8>> = Vec::new();
    let mut i: usize = 0;
    proof {
        assert(all.skip(0) =~= all);
        assert(rows(paths@) =~= Seq::<Seq<u8>>::empty());
        assert(Seq::<Seq<u8>>::empty() + untracked_of(all) =~= untracked_of(all));
    }
    while i < entries.len()
        invariant
            i <= entries.len(),
            all == entry_views(entries@),
            rows(paths@) + untracked_of(all.skip(i as int)) == untracked_of(all),
        decreases entries.len() - i,
    {
        let entry = &entries[i];
        proof {
            let remaining = all.skip(i as int);
            assert(remaining[0] == entry@);
            assert(remaining.drop_first() =~= all.skip(i + 1));
        }
        if entry.index == UNTRACKED && entry.worktree == UNTRACKED {
            let path = copy_bytes(entry.path.as_slice());
            proof {
                let before = rows(paths@);
                let tail = untracked_of(all.skip(i + 1));
                assert(rows(paths@.push(path)) =~= before.push(path@));
                assert(before.push(path@) + tail =~= before + (seq![path@] + tail));
            }
            paths.push(path);
        }
        i += 1;
    }
    proof {
        assert(rows(paths@) + Seq::<Seq<u8>>::empty() =~= rows(paths@));
    }
    paths
}

} // verus!
