//! A screen: one item tree with a selection, a scroll offset and a size.
//!
//! The selection is an index into the flattened sequence of the tree. After
//! every operation it names a row of that sequence, or is zero where the
//! sequence is empty.

use crate::diff::{parse_diff, parsed};
use crate::git::{
    command_views, diff_cmd, diff_staged_cmd, git, log_cmd, show_cmd, show_refs_cmd, status_cmd,
    CommandSpec, CommandSpecView,
};
use crate::items::{
    carried_all, carry_folds, empty_item, flatten, flatten_all, item_views, row_views, toggle_at,
    toggle_fold_at, Item, ItemView, TargetData, TargetView,
};
use crate::status::{parse_status, status_of, untracked_files, untracked_of};
use crate::text::{bytes_eq, copy_bytes, lines_of, lit, rows};
use crate::tree::{
    build, delta_items, delta_rows, file_items, file_rows, ref_items, ref_rows_of, section,
    section_row,
};
use vstd::prelude::*;

verus! {

/// What a screen shows, and with it which queries fill it.
#[derive(Clone, Copy, Debug, PartialEq, Eq, Structural)]
pub enum ScreenKind {
    Status,
    Diff,
    Log,
    Show,
    Refs,
}

/// A screen.
#[derive(Debug)]
pub struct Screen {
    title: Vec<u8>,
    kind: ScreenKind,
    args: Vec<Vec<u8>>,
    roots: Vec<Item>,
    selected: usize,
    scroll: usize,
    cols: u16,
    rows: u16,
}

/// The mathematical value of a [`Screen`].
pub struct ScreenView {
    pub title: Seq<u8>,
    pub kind: ScreenKind,
    /// The arguments of the query that fills the screen.
    pub args: Seq<Seq<u8>>,
    pub roots: Seq<ItemView>,
    pub selected: nat,
    pub scroll: nat,
    pub cols: nat,
    pub rows: nat,
}

impl ScreenView {
    /// The rows that the screen can show.
    pub open spec fn lines(self) -> Seq<ItemView> {
        flatten_all(self.roots)
    }

    /// Whether the selection names a row, or is zero on an empty screen.
    pub open spec fn wf(self) -> bool {
        self.selected == clamped(self.selected as int, self.lines().len())
    }

    /// The selected row, or the empty item on an empty screen.
    pub open spec fn selected_row(self) -> ItemView {
        if self.lines().len() == 0 {
            empty_item()
        } else {
            self.lines()[self.selected as int]
        }
    }

    /// The index of the first row that is drawn: the scroll offset as far
    /// as the rows reach, moved no further than it takes to have the
    /// selected row among the rows that fit the view.
    pub open spec fn window_start(self) -> nat {
        let start = clamped(self.scroll as int, self.lines().len());
        if self.selected < start {
            self.selected
        } else if self.rows > 0 && self.selected >= start + self.rows {
            (self.selected + 1 - self.rows) as nat
        } else {
            start
        }
    }

    /// The screen with the selection brought back among the rows.
    pub open spec fn clamp(self) -> ScreenView {
        ScreenView { selected: clamped(self.selected as int, self.lines().len()), ..self }
    }

    /// The screen with a new size, and the selection among the rows.
    pub open spec fn resized(self, cols: nat, rows: nat) -> ScreenView {
        ScreenView { cols, rows, ..self.clamp() }
    }

    /// The screen with the row below selected, if there is one.
    pub open spec fn next(self) -> ScreenView {
        ScreenView { selected: clamped((self.selected + 1) as int, self.lines().len()), ..self }
    }

    /// The screen with the row above selected, if there is one.
    pub open spec fn previous(self) -> ScreenView {
        ScreenView { selected: clamped((self.selected - 1) as int, self.lines().len()), ..self }
    }

    /// The screen with the view moved up by half its rows.
    pub open spec fn half_page_up(self) -> ScreenView {
        ScreenView {
            scroll: clamped((self.scroll - self.rows / 2) as int, self.lines().len()),
            ..self
        }
    }

    /// The screen with the view moved down by half its rows.
    pub open spec fn half_page_down(self) -> ScreenView {
        ScreenView {
            scroll: clamped((self.scroll + self.rows / 2) as int, self.lines().len()),
            ..self
        }
    }

    /// The screen with the fold state of the selected item turned over, and
    /// the selection among the rows that are left.
    pub open spec fn toggled(self) -> ScreenView {
        (ScreenView { roots: toggle_at(self.roots, self.selected as int), ..self }).clamp()
    }

    /// The screen with its items replaced. The new items take the fold
    /// states of the old items that show the same text, and what was
    /// selected is selected again where it is still in view.
    pub open spec fn updated(self, roots: Seq<ItemView>) -> ScreenView {
        ScreenView {
            roots: carried_all(self.roots, roots),
            selected: reselected(
                self.lines(),
                self.selected,
                flatten_all(carried_all(self.roots, roots)),
            ),
            ..self
        }
    }

    /// The screen filled from the output of its queries.
    pub open spec fn refreshed(self, outputs: Seq<Seq<u8>>) -> ScreenView {
        self.updated(rows_for(self.kind, outputs))
    }
}

/// The title of a screen of the given kind.
pub open spec fn title_of(kind: ScreenKind) -> Seq<u8> {
    match kind {
        ScreenKind::Status => lit("Status"),
        ScreenKind::Diff => lit("Diff"),
        ScreenKind::Log => lit("Log"),
        ScreenKind::Show => lit("Show"),
        ScreenKind::Refs => lit("Refs"),
    }
}

/// A screen of the given kind that shows nothing yet.
pub open spec fn blank_screen(
    kind: ScreenKind,
    args: Seq<Seq<u8>>,
    cols: nat,
    rows: nat,
) -> ScreenView {
    ScreenView {
        title: title_of(kind),
        kind,
        args,
        roots: Seq::empty(),
        selected: 0,
        scroll: 0,
        cols,
        rows,
    }
}

/// The queries whose output fills a screen of the given kind, in the order
/// in which their output is handed back.
pub open spec fn queries_for(kind: ScreenKind, args: Seq<Seq<u8>>) -> Seq<CommandSpecView> {
    match kind {
        ScreenKind::Status => seq![
            git(seq![lit("status"), lit("--porcelain"), lit("--branch")]),
            git(seq![lit("diff")]),
            git(seq![lit("diff"), lit("--staged")]),
        ],
        ScreenKind::Diff => seq![git(seq![lit("diff")] + args)],
        ScreenKind::Log => seq![git(seq![lit("log"), lit("--oneline")] + args)],
        ScreenKind::Show => seq![git(seq![lit("show")] + args)],
        ScreenKind::Refs => seq![
            git(
                seq![
                    lit("for-each-ref"),
                    lit("--format=%(refname:short)"),
                    lit("refs/heads"),
                    lit("refs/tags"),
                ],
            ),
        ],
    }
}

/// The output with the given number, or no text where it is missing.
pub open spec fn output_at(outputs: Seq<Seq<u8>>, index: int) -> Seq<u8> {
    if 0 <= index < outputs.len() {
        outputs[index]
    } else {
        Seq::empty()
    }
}

/// The items of the status screen: the files that are not tracked, the
/// changes that are not staged, and the changes that are staged, each
/// under its own section.
pub open spec fn status_rows(status: Seq<u8>, unstaged: Seq<u8>, staged: Seq<u8>) -> Seq<ItemView> {
    seq![
        section_row(lit("Untracked files"), file_rows(untracked_of(status_of(status)), 1)),
        section_row(lit("Unstaged changes"), delta_rows(parsed(unstaged), 1)),
        section_row(lit("Staged changes"), delta_rows(parsed(staged), 1)),
    ]
}

/// The items of a screen of the given kind, from the output of its queries.
pub open spec fn rows_for(kind: ScreenKind, outputs: Seq<Seq<u8>>) -> Seq<ItemView> {
    match kind {
        ScreenKind::Status => status_rows(
            output_at(outputs, 0),
            output_at(outputs, 1),
            output_at(outputs, 2),
        ),
        ScreenKind::Diff => delta_rows(parsed(output_at(outputs, 0)), 0),
        ScreenKind::Show => delta_rows(parsed(output_at(outputs, 0)), 0),
        ScreenKind::Log => ref_rows_of(lines_of(output_at(outputs, 0))),
        ScreenKind::Refs => ref_rows_of(lines_of(output_at(outputs, 0))),
    }
}

/// What is clamped lies among the rows: it is zero where there is no row,
/// and less than the number of rows else.
pub proof fn lemma_clamped_in_range(index: int, len: nat)
    ensures
        len == 0 ==> clamped(index, len) == 0,
        len > 0 ==> clamped(index, len) < len,
        0 <= index < len ==> clamped(index, len) == index,
        clamped(clamped(index, len) as int, len) == clamped(index, len),
{
}

/// Moving the selection never takes it away from the rows: after a step
/// down or up the selection names a row, or is zero on an empty screen. At
/// the last row a step down stays there, at the first row a step up stays.
pub proof fn lemma_selection_stays_in_range(v: ScreenView)
    ensures
        v.next().wf(),
        v.previous().wf(),
        v.lines().len() > 0 ==> v.next().selected < v.lines().len() && v.previous().selected
            < v.lines().len(),
        v.lines().len() > 0 && v.selected == v.lines().len() - 1 ==> v.next().selected
            == v.selected,
        v.selected == 0 ==> v.previous().selected == 0,
{
}

/// The selected row of a screen with rows is drawn wherever the view has
/// room for a row at all, and the first row that is drawn is a row.
pub proof fn lemma_selected_in_window(v: ScreenView)
    requires
        v.wf(),
        v.lines().len() > 0,
    ensures
        v.window_start() <= v.selected,
        v.window_start() < v.lines().len(),
        v.rows > 0 ==> v.selected < v.window_start() + v.rows,
{
}

/// On a screen without rows the selection is brought to zero.
pub proof fn lemma_clamp_empty(v: ScreenView)
    requires
        v.lines().len() == 0,
    ensures
        v.clamp().selected == 0,
        v.clamp().wf(),
{
}

/// The text of the given output, or no text where it is missing.
fn output_of(outputs: &Vec<Vec<u8>>, index: usize) -> (text: &[u8])
    ensures
        text@ == output_at(rows(outputs@), index as int),
{
    if index < outputs.len() {
        outputs[index].as_slice()
    } else {
        let none: &[u8] = &[];
        assert(none@ =~= Seq::<u8>::empty());
        none
    }
}

/// The items of the status screen.
pub fn status_items(status: &[u8], unstaged: &[u8], staged: &[u8]) -> (items: Vec<Item>)
    ensures
        item_views(items@) == status_rows(status@, unstaged@, staged@),
{
    let entries = parse_status(status);
    let files = untracked_files(&entries);
    let mut items: Vec<Item> = Vec::new();
    items.push(section("Untracked files".as_bytes(), file_items(&files, 1)));
    items.push(build(&parse_diff(unstaged), "Unstaged changes".as_bytes()));
    items.push(build(&parse_diff(staged), "Staged changes".as_bytes()));
    assert(item_views(items@) =~= status_rows(status@, unstaged@, staged@));
    items
}

/// The items of a screen of the given kind, from the output of its queries.
pub fn items_for(kind: ScreenKind, outputs: &Vec<Vec<u8>>) -> (items: Vec<Item>)
    ensures
        item_views(items@) == rows_for(kind, rows(outputs@)),
{
    match kind {
        ScreenKind::Status => status_items(
            output_of(outputs, 0),
            output_of(outputs, 1),
            output_of(outputs, 2),
        ),
        ScreenKind::Diff => delta_items(&parse_diff(output_of(outputs, 0)), 0),
        ScreenKind::Show => delta_items(&parse_diff(output_of(outputs, 0)), 0),
        ScreenKind::Log => ref_items(output_of(outputs, 0)),
        ScreenKind::Refs => ref_items(output_of(outputs, 0)),
    }
}

/// The index nearest to `index` among the `len` rows; zero where there is
/// no row.
pub open spec fn clamped(index: int, len: nat) -> nat {
    if len == 0 || index < 0 {
        0
    } else if index < len {
        index as nat
    } else {
        (len - 1) as nat
    }
}

/// Whether two targets stand for the same thing: the same reference, the
/// same file, the delta of the same paths, or the hunk of the same paths
/// at the same place.
pub open spec fn same_target(a: TargetView, b: TargetView) -> bool {
    match (a, b) {
        (TargetView::Ref(x), TargetView::Ref(y)) => x == y,
        (TargetView::File(x), TargetView::File(y)) => x == y,
        (TargetView::Delta(x), TargetView::Delta(y)) => x.old_file == y.old_file && x.new_file
            == y.new_file,
        (TargetView::Hunk(x), TargetView::Hunk(y)) => x.old_file == y.old_file && x.new_file
            == y.new_file && x.header == y.header,
        _ => false,
    }
}

/// Whether a row stands for the given target.
pub open spec fn row_matches(row: ItemView, target: TargetView) -> bool {
    match row.target {
        Some(t) => same_target(t, target),
        None => false,
    }
}

/// The index of the first row at or after `from` that stands for the
/// target, or the number of rows where there is none.
pub open spec fn find_target(rows: Seq<ItemView>, target: TargetView, from: int) -> int
    decreases rows.len() - from,
{
    if from < 0 || from >= rows.len() {
        rows.len() as int
    } else if row_matches(rows[from], target) {
        from
    } else {
        find_target(rows, target, from + 1)
    }
}

/// The selection after the rows of a screen are replaced: the first new row
/// that stands for what was selected, or else the old index, clamped.
pub open spec fn reselected(
    old_rows: Seq<ItemView>,
    selected: nat,
    new_rows: Seq<ItemView>,
) -> nat {
    if selected < old_rows.len() && old_rows[selected as int].target.is_some() && find_target(
        new_rows,
        old_rows[selected as int].target.unwrap(),
        0,
    ) < new_rows.len() {
        find_target(new_rows, old_rows[selected as int].target.unwrap(), 0) as nat
    } else {
        clamped(selected as int, new_rows.len())
    }
}

/// What is found lies among the rows, or is their number.
pub proof fn lemma_find_target(rows: Seq<ItemView>, target: TargetView, from: int)
    requires
        0 <= from,
    ensures
        from <= find_target(rows, target, from) || find_target(rows, target, from) == rows.len(),
        0 <= find_target(rows, target, from) <= rows.len(),
        find_target(rows, target, from) < rows.len() ==> row_matches(
            rows[find_target(rows, target, from)],
            target,
        ),
    decreases rows.len() - from,
{
    if from < rows.len() && !row_matches(rows[from], target) {
        lemma_find_target(rows, target, from + 1);
    }
}

/// Whether two targets stand for the same thing.
pub fn is_same_target(a: &TargetData, b: &TargetData) -> (same: bool)
    ensures
        same == same_target(a@, b@),
{
    match (a, b) {
        (TargetData::Ref(x), TargetData::Ref(y)) => bytes_eq(x.as_slice(), y.as_slice()),
        (TargetData::File(x), TargetData::File(y)) => bytes_eq(x.as_slice(), y.as_slice()),
        (TargetData::Delta(x), TargetData::Delta(y)) => bytes_eq(
            x.old_file.as_slice(),
            y.old_file.as_slice(),
        ) && bytes_eq(x.new_file.as_slice(), y.new_file.as_slice()),
        (TargetData::Hunk(x), TargetData::Hunk(y)) => bytes_eq(
            x.old_file.as_slice(),
            y.old_file.as_slice(),
        ) && bytes_eq(x.new_file.as_slice(), y.new_file.as_slice()) && x.header == y.header,
        _ => false,
    }
}

/// The index nearest to `index` among `len` rows.
fn clamp_index(index: usize, len: usize) -> (out: usize)
    ensures
        out == clamped(index as int, len as nat),
{
    if len == 0 {
        0
    } else if index < len {
        index
    } else {
        len - 1
    }
}

/// The selection after the rows are replaced.
fn reselect(old_rows: &Vec<&Item>, selected: usize, new_rows: &Vec<&Item>) -> (out: usize)
    ensures
        out == reselected(row_views(old_rows@), selected as nat, row_views(new_rows@)),
{
    let ghost rows = row_views(new_rows@);
    if selected < old_rows.len() {
        if let Some(target) = &old_rows[selected].target_data {
            assert(row_views(old_rows@)[selected as int].target == Some(target@));
            let mut i: usize = 0;
            while i < new_rows.len()
                invariant
                    i <= new_rows.len(),
                    selected < old_rows.len(),
                    row_views(old_rows@)[selected as int].target == Some(target@),
                    rows == row_views(new_rows@),
                    find_target(rows, target@, 0) == find_target(rows, target@, i as int),
                decreases new_rows.len() - i,
            {
                let found = match &new_rows[i].target_data {
                    Some(t) => is_same_target(t, target),
                    None => false,
                };
                assert(found == row_matches(rows[i as int], target@));
                if found {
                    assert(find_target(rows, target@, i as int) == i);
                    return i;
                }
                i += 1;
            }
        }
    }
    clamp_index(selected, new_rows.len())
}

impl View for Screen {
    type V = ScreenView;

    closed spec fn view(&self) -> ScreenView {
        ScreenView {
            title: self.title@,
            kind: self.kind,
            args: rows(self.args@),
            roots: item_views(self.roots@),
            selected: self.selected as nat,
            scroll: self.scroll as nat,
            cols: self.cols as nat,
            rows: self.rows as nat,
        }
    }
}

impl Screen {
    /// A screen of the given kind that shows nothing yet.
    pub fn open(kind: ScreenKind, args: Vec<Vec<u8>>, cols: u16, rows: u16) -> (screen: Screen)
        ensures
            screen@ == blank_screen(kind, crate::text::rows(args@), cols as nat, rows as nat),
            screen@.wf(),
    {
        let title = match kind {
            ScreenKind::Status => copy_bytes("Status".as_bytes()),
            ScreenKind::Diff => copy_bytes("Diff".as_bytes()),
            ScreenKind::Log => copy_bytes("Log".as_bytes()),
            ScreenKind::Show => copy_bytes("Show".as_bytes()),
            ScreenKind::Refs => copy_bytes("Refs".as_bytes()),
        };
        let roots: Vec<Item> = Vec::new();
        assert(item_views(roots@) =~= Seq::<ItemView>::empty());
        Screen { title, kind, args, roots, selected: 0, scroll: 0, cols, rows }
    }

    /// A screen of the given kind that shows the given items, with the
    /// first row selected.
    pub fn new(
        kind: ScreenKind,
        args: Vec<Vec<u8>>,
        roots: Vec<Item>,
        cols: u16,
        rows: u16,
    ) -> (screen: Screen)
        ensures
            screen@ == (ScreenView {
                roots: item_views(roots@),
                ..blank_screen(kind, crate::text::rows(args@), cols as nat, rows as nat)
            }),
            screen@.wf(),
    {
        let mut screen = Screen::open(kind, args, cols, rows);
        screen.roots = roots;
        screen
    }

    /// The title of the screen.
    pub fn title(&self) -> (title: &Vec<u8>)
        ensures
            title@ == self@.title,
    {
        &self.title
    }

    /// What the screen shows.
    pub fn kind(&self) -> (kind: ScreenKind)
        ensures
            kind == self@.kind,
    {
        self.kind
    }

    /// The arguments of the query that fills the screen.
    pub fn args(&self) -> (args: &Vec<Vec<u8>>)
        ensures
            rows(args@) == self@.args,
    {
        &self.args
    }

    /// The roots of the item tree.
    pub fn roots(&self) -> (roots: &Vec<Item>)
        ensures
            item_views(roots@) == self@.roots,
    {
        &self.roots
    }

    /// The rows that the screen can show, in order.
    pub fn lines(&self) -> (rows: Vec<&Item>)
        ensures
            row_views(rows@) == self@.lines(),
    {
        flatten(&self.roots)
    }

    /// The index of the selected row.
    pub fn selected(&self) -> (index: usize)
        ensures
            index == self@.selected,
    {
        self.selected
    }

    /// The index of the first row in view.
    pub fn scroll(&self) -> (index: usize)
        ensures
            index == self@.scroll,
    {
        self.scroll
    }

    /// The size of the view, columns first.
    pub fn size(&self) -> (size: (u16, u16))
        ensures
            size.0 == self@.cols,
            size.1 == self@.rows,
    {
        (self.cols, self.rows)
    }

    /// The index of the first row to draw, so that the selected row is in
    /// view. Neither the scroll offset nor the selection changes.
    pub fn window_start(&self) -> (start: usize)
        ensures
            start == self@.window_start(),
    {
        let rows = flatten(&self.roots);
        let first = clamp_index(self.scroll, rows.len());
        let height: usize = self.rows as usize;
        if self.selected < first {
            self.selected
        } else if height > 0 && self.selected - first >= height {
            self.selected - height + 1
        } else {
            first
        }
    }

    /// The queries whose output fills the screen, in the order in which
    /// their output is handed to `refresh`.
    pub fn queries(&self) -> (commands: Vec<CommandSpec>)
        ensures
            command_views(commands@) == queries_for(self@.kind, self@.args),
    {
        let mut commands: Vec<CommandSpec> = Vec::new();
        match self.kind {
            ScreenKind::Status => {
                commands.push(status_cmd());
                let none: Vec<Vec<u8>> = Vec::new();
                let unstaged = diff_cmd(&none);
                assert(unstaged@.args =~= seq![lit("diff")]);
                commands.push(unstaged);
                commands.push(diff_staged_cmd());
            },
            ScreenKind::Diff => {
                commands.push(diff_cmd(&self.args));
            },
            ScreenKind::Log => {
                commands.push(log_cmd(&self.args));
            },
            ScreenKind::Show => {
                commands.push(show_cmd(&self.args));
            },
            ScreenKind::Refs => {
                commands.push(show_refs_cmd());
            },
        }
        assert(command_views(commands@) =~= queries_for(self@.kind, self@.args));
        commands
    }

    /// Brings the selection back among the rows: to the last row where it
    /// lies behind it, to zero where there is no row.
    pub fn clamp_cursor(&mut self)
        ensures
            final(self)@ == old(self)@.clamp(),
            final(self)@.wf(),
    {
        let rows = flatten(&self.roots);
        let len = rows.len();
        self.selected = clamp_index(self.selected, len);
    }

    /// Gives the view a new size and brings the selection back among the
    /// rows.
    pub fn resize(&mut self, cols: u16, rows: u16)
        ensures
            final(self)@ == old(self)@.resized(cols as nat, rows as nat),
            final(self)@.wf(),
    {
        self.cols = cols;
        self.rows = rows;
        self.clamp_cursor();
    }

    /// Selects the row below, if there is one.
    pub fn select_next(&mut self)
        ensures
            final(self)@ == old(self)@.next(),
            final(self)@.wf(),
    {
        let rows = flatten(&self.roots);
        let len = rows.len();
        self.selected = if self.selected < len {
            clamp_index(self.selected + 1, len)
        } else {
            clamp_index(self.selected, len)
        };
    }

    /// Selects the row above, if there is one.
    pub fn select_previous(&mut self)
        ensures
            final(self)@ == old(self)@.previous(),
            final(self)@.wf(),
    {
        let rows = flatten(&self.roots);
        let len = rows.len();
        self.selected = if self.selected > 0 {
            clamp_index(self.selected - 1, len)
        } else {
            0
        };
    }

    /// Moves the view up by half its rows, at most to the first row. The
    /// selection stays.
    pub fn scroll_half_page_up(&mut self)
        ensures
            final(self)@ == old(self)@.half_page_up(),
    {
        let rows = flatten(&self.roots);
        let len = rows.len();
        let half: usize = (self.rows / 2) as usize;
        self.scroll = if self.scroll >= half {
            clamp_index(self.scroll - half, len)
        } else {
            0
        };
    }

    /// Moves the view down by half its rows, at most so far that the last
    /// row is still in view. The selection stays.
    pub fn scroll_half_page_down(&mut self)
        ensures
            final(self)@ == old(self)@.half_page_down(),
    {
        let rows = flatten(&self.roots);
        let len = rows.len();
        let half: usize = (self.rows / 2) as usize;
        self.scroll = if self.scroll < len && half < len - self.scroll {
            self.scroll + half
        } else {
            clamp_index(len, len)
        };
    }

    /// Turns over the fold state of the selected item and brings the
    /// selection back among the rows.
    pub fn toggle_section(&mut self)
        ensures
            final(self)@ == old(self)@.toggled(),
            final(self)@.wf(),
    {
        toggle_fold_at(&mut self.roots, self.selected);
        self.clamp_cursor();
    }

    /// Replaces the items of the screen. The new items take the fold
    /// states of the old items that show the same text. The row that
    /// stands for what was selected is selected again; where there is
    /// none, the selection keeps its index as far as the new rows reach.
    pub fn update(&mut self, roots: Vec<Item>)
        ensures
            final(self)@ == old(self)@.updated(item_views(roots@)),
            final(self)@.wf(),
    {
        let mut roots = roots;
        carry_folds(&self.roots, &mut roots);
        let old_rows = flatten(&self.roots);
        let new_rows = flatten(&roots);
        let selected = reselect(&old_rows, self.selected, &new_rows);
        proof {
            let t = row_views(old_rows@);
            if self.selected < t.len() && t[self.selected as int].target.is_some() {
                lemma_find_target(row_views(new_rows@), t[self.selected as int].target.unwrap(), 0);
            }
        }
        self.selected = selected;
        self.roots = roots;
    }

    /// Fills the screen from the output of its queries, given in the order
    /// of `queries`. An output that is missing counts as empty.
    pub fn refresh(&mut self, outputs: &Vec<Vec<u8>>)
        ensures
            final(self)@ == old(self)@.refreshed(rows(outputs@)),
            final(self)@.wf(),
    {
        let items = items_for(self.kind, outputs);
        self.update(items);
    }

    /// The selected item, or the empty item on an empty screen.
    pub fn get_selected_item(&self) -> (item: Item)
        requires
            self@.wf(),
        ensures
            item@ == self@.selected_row(),
    {
        let rows = flatten(&self.roots);
        if rows.len() == 0 {
            Item::empty()
        } else {
            assert(row_views(rows@)[self.selected as int] == (*rows@[self.selected as int])@);
            rows[self.selected].duplicate()
        }
    }
}

} // verus!
