//! Building the item tree from deltas, files and references.
//!
//! A delta becomes an item whose children are its hunks, and the children
//! of a hunk are its lines. A delta that could not be read becomes one line
//! of plain text. Deltas and files are grouped under named sections.

use crate::items::{
    item_views, lemma_children_views, Item, ItemView, Style, TargetData, TargetView,
};
use crate::patch::{
    header_text, push_header, Delta, DeltaView, Hunk, HunkView, Line, LineKind, LineView,
};
use crate::text::{
    append_bytes, bytes_eq, copy_bytes, copy_first_word, first_word, lines_of, lit, rows,
    split_lines,
};
use vstd::prelude::*;

verus! {

/// The style in which a line of a hunk is drawn.
pub open spec fn line_style(kind: LineKind) -> Style {
    match kind {
        LineKind::Context => Style::Plain,
        LineKind::Addition => Style::Added,
        LineKind::Removal => Style::Removed,
    }
}

/// An item without target and children.
pub open spec fn text_row(text: Seq<u8>, style: Style, depth: nat) -> ItemView {
    ItemView { display: text, style, depth, collapsed: false, target: None, children: Seq::empty() }
}

/// The item of a line of a hunk.
pub open spec fn line_row(l: LineView, depth: nat) -> ItemView {
    text_row(l.content, line_style(l.kind), depth)
}

/// The item of a hunk: its header line, with its lines below.
pub open spec fn hunk_row(h: HunkView, depth: nat) -> ItemView {
    ItemView {
        display: header_text(h.header, h.suffix),
        style: Style::HunkHeader,
        depth,
        collapsed: false,
        target: Some(TargetView::Hunk(h)),
        children: h.lines.map_values(|l: LineView| line_row(l, depth + 1)),
    }
}

/// The title of a delta: its path, or both paths where they differ.
pub open spec fn delta_title(d: DeltaView) -> Seq<u8> {
    if d.old_file == d.new_file {
        d.new_file
    } else {
        d.old_file + lit(" -> ") + d.new_file
    }
}

/// The item of a delta: its title, with its hunks below; or, for a delta
/// that could not be read, the line that stands for it.
pub open spec fn delta_row(d: DeltaView, depth: nat) -> ItemView {
    match d.opaque {
        Some(text) => text_row(text, Style::Plain, depth),
        None => ItemView {
            display: delta_title(d),
            style: Style::File,
            depth,
            collapsed: false,
            target: Some(TargetView::Delta(d)),
            children: d.hunks.map_values(|h: HunkView| hunk_row(h, depth + 1)),
        },
    }
}

/// The items of a list of deltas.
pub open spec fn delta_rows(deltas: Seq<DeltaView>, depth: nat) -> Seq<ItemView> {
    deltas.map_values(|d: DeltaView| delta_row(d, depth))
}

/// The item of a file that no delta speaks of.
pub open spec fn file_row(path: Seq<u8>, depth: nat) -> ItemView {
    ItemView {
        display: path,
        style: Style::File,
        depth,
        collapsed: false,
        target: Some(TargetView::File(path)),
        children: Seq::empty(),
    }
}

/// The items of a list of files.
pub open spec fn file_rows(paths: Seq<Seq<u8>>, depth: nat) -> Seq<ItemView> {
    paths.map_values(|p: Seq<u8>| file_row(p, depth))
}

/// The item of a section: its title at the top level, with its members
/// below.
pub open spec fn section_row(title: Seq<u8>, members: Seq<ItemView>) -> ItemView {
    ItemView {
        display: title,
        style: Style::Section,
        depth: 0,
        collapsed: false,
        target: None,
        children: members,
    }
}

/// The item of a line that names a reference by its first word.
pub open spec fn ref_row(line: Seq<u8>) -> ItemView {
    ItemView {
        display: line,
        style: Style::Reference,
        depth: 0,
        collapsed: false,
        target: Some(TargetView::Ref(first_word(line))),
        children: Seq::empty(),
    }
}

/// The items of the lines that name a reference: one for each line that is
/// not empty.
pub open spec fn ref_rows_of(lines: Seq<Seq<u8>>) -> Seq<ItemView>
    decreases lines.len(),
{
    if lines.len() == 0 {
        Seq::empty()
    } else if lines[0].len() > 0 {
        seq![ref_row(lines[0])] + ref_rows_of(lines.drop_first())
    } else {
        ref_rows_of(lines.drop_first())
    }
}

/// An item without target and children.
pub fn text_item(text: &[u8], style: Style, depth: usize) -> (item: Item)
    ensures
        item@ == text_row(text@, style, depth as nat),
{
    let item = Item {
        display: copy_bytes(text),
        style,
        depth,
        collapsed: false,
        target_data: None,
        children: Vec::new(),
    };
    proof {
        lemma_children_views(item);
        assert(item_views(item.children@) =~= Seq::<ItemView>::empty());
    }
    item
}

/// The item of a line of a hunk.
pub fn line_item(line: &Line, depth: usize) -> (item: Item)
    ensures
        item@ == line_row(line@, depth as nat),
{
    let style = match line.kind {
        LineKind::Context => Style::Plain,
        LineKind::Addition => Style::Added,
        LineKind::Removal => Style::Removed,
    };
    text_item(line.content.as_slice(), style, depth)
}

/// The item of a hunk.
pub fn hunk_item(hunk: &Hunk, depth: usize) -> (item: Item)
    requires
        depth < usize::MAX,
    ensures
        item@ == hunk_row(hunk@, depth as nat),
{
    let mut children: Vec<Item> = Vec::new();
    let mut i: usize = 0;
    while i < hunk.lines.len()
        invariant
            i <= hunk.lines.len(),
            depth < usize::MAX,
            children.len() == i,
            forall|k: int|
                0 <= k < i ==> children@[k]@ == line_row(hunk.lines@[k]@, (depth + 1) as nat),
        decreases hunk.lines.len() - i,
    {
        children.push(line_item(&hunk.lines[i], depth + 1));
        i += 1;
    }
    let mut display: Vec<u8> = Vec::new();
    push_header(&mut display, &hunk.header, hunk.suffix.as_slice());
    assert(display@ =~= header_text(hunk.header, hunk.suffix@));
    let item = Item {
        display,
        style: Style::HunkHeader,
        depth,
        collapsed: false,
        target_data: Some(TargetData::Hunk(hunk.duplicate())),
        children,
    };
    proof {
        lemma_children_views(item);
        assert(item_views(item.children@) =~= hunk_row(hunk@, depth as nat).children);
    }
    item
}

/// The title of a delta.
pub fn title_of(delta: &Delta) -> (title: Vec<u8>)
    ensures
        title@ == delta_title(delta@),
{
    if bytes_eq(delta.old_file.as_slice(), delta.new_file.as_slice()) {
        copy_bytes(delta.new_file.as_slice())
    } else {
        let mut title = copy_bytes(delta.old_file.as_slice());
        append_bytes(&mut title, " -> ".as_bytes());
        append_bytes(&mut title, delta.new_file.as_slice());
        title
    }
}

/// The item of a delta.
pub fn delta_item(delta: &Delta, depth: usize) -> (item: Item)
    requires
        depth < usize::MAX - 1,
    ensures
        item@ == delta_row(delta@, depth as nat),
{
    if let Some(text) = &delta.opaque {
        return text_item(text.as_slice(), Style::Plain, depth);
    }
    let mut children: Vec<Item> = Vec::new();
    let mut i: usize = 0;
    while i < delta.hunks.len()
        invariant
            i <= delta.hunks.len(),
            depth < usize::MAX - 1,
            children.len() == i,
            forall|k: int|
                0 <= k < i ==> children@[k]@ == hunk_row(delta.hunks@[k]@, (depth + 1) as nat),
        decreases delta.hunks.len() - i,
    {
        children.push(hunk_item(&delta.hunks[i], depth + 1));
        i += 1;
    }
    let item = Item {
        display: title_of(delta),
        style: Style::File,
        depth,
        collapsed: false,
        target_data: Some(TargetData::Delta(delta.duplicate())),
        children,
    };
    proof {
        lemma_children_views(item);
        assert(item_views(item.children@) =~= delta_row(delta@, depth as nat).children);
    }
    item
}

/// The items of a list of deltas, in order.
pub fn delta_items(deltas: &Vec<Delta>, depth: usize) -> (items: Vec<Item>)
    requires
        depth < usize::MAX - 1,
    ensures
        item_views(items@) == delta_rows(crate::patch::delta_views(deltas@), depth as nat),
{
    let mut items: Vec<Item> = Vec::new();
    let mut i: usize = 0;
    while i < deltas.len()
        invariant
            i <= deltas.len(),
            depth < usize::MAX - 1,
            items.len() == i,
            forall|k: int| 0 <= k < i ==> items@[k]@ == delta_row(deltas@[k]@, depth as nat),
        decreases deltas.len() - i,
    {
        items.push(delta_item(&deltas[i], depth));
        i += 1;
    }
    assert(item_views(items@) =~= delta_rows(crate::patch::delta_views(deltas@), depth as nat));
    items
}

/// The item of a file that no delta speaks of.
pub fn file_item(path: &[u8], depth: usize) -> (item: Item)
    ensures
        item@ == file_row(path@, depth as nat),
{
    let item = Item {
        display: copy_bytes(path),
        style: Style::File,
        depth,
        collapsed: false,
        target_data: Some(TargetData::File(copy_bytes(path))),
        children: Vec::new(),
    };
    proof {
        lemma_children_views(item);
        assert(item_views(item.children@) =~= Seq::<ItemView>::empty());
    }
    item
}

/// The items of a list of files, in order.
pub fn file_items(paths: &Vec<Vec<u8>>, depth: usize) -> (items: Vec<Item>)
    ensures
        item_views(items@) == file_rows(rows(paths@), depth as nat),
{
    let mut items: Vec<Item> = Vec::new();
    let mut i: usize = 0;
    while i < paths.len()
        invariant
            i <= paths.len(),
            items.len() == i,
            forall|k: int| 0 <= k < i ==> items@[k]@ == file_row(paths@[k]@, depth as nat),
        decreases paths.len() - i,
    {
        items.push(file_item(paths[i].as_slice(), depth));
        i += 1;
    }
    assert(item_views(items@) =~= file_rows(rows(paths@), depth as nat));
    items
}

/// A section with the given title and members.
pub fn section(title: &[u8], members: Vec<Item>) -> (item: Item)
    ensures
        item@ == section_row(title@, item_views(members@)),
{
    let item = Item {
        display: copy_bytes(title),
        style: Style::Section,
        depth: 0,
        collapsed: false,
        target_data: None,
        children: members,
    };
    proof {
        lemma_children_views(item);
    }
    item
}

/// The section that groups the given deltas under a title.
pub fn build(deltas: &Vec<Delta>, title: &[u8]) -> (item: Item)
    ensures
        item@ == section_row(title@, delta_rows(crate::patch::delta_views(deltas@), 1)),
{
    section(title, delta_items(deltas, 1))
}

/// The items of a text that names one reference on each line.
pub fn ref_items(text: &[u8]) -> (items: Vec<Item>)
    ensures
        item_views(items@) == ref_rows_of(lines_of(text@)),
{
    let lines = split_lines(text);
    let ghost all = rows(lines@);
    let mut items: Vec<Item> = Vec::new();
    let mut i: usize = 0;
    proof {
        assert(all.skip(0) =~= all);
        assert(item_views(items@) =~= Seq::<ItemView>::empty());
        assert(Seq::<ItemView>::empty() + ref_rows_of(all) =~= ref_rows_of(all));
    }
    while i < lines.len()
        invariant
            i <= lines.len(),
            all == rows(lines@),
            item_views(items@) + ref_rows_of(all.skip(i as int)) == ref_rows_of(all),
        decreases lines.len() - i,
    {
        let line = lines[i].as_slice();
        proof {
            let remaining = all.skip(i as int);
            assert(remaining[0] == line@);
            assert(remaining.drop_first() =~= all.skip(i + 1));
        }
        if line.len() > 0 {
            let item = Item {
                display: copy_bytes(line),
                style: Style::Reference,
                depth: 0,
                collapsed: false,
                target_data: Some(TargetData::Ref(copy_first_word(line))),
                children: Vec::new(),
            };
            proof {
                lemma_children_views(item);
                assert(item_views(item.children@) =~= Seq::<ItemView>::empty());
                assert(item@ == ref_row(line@));
                let before = item_views(items@);
                let tail = ref_rows_of(all.skip(i + 1));
                assert(item_views(items@.push(item)) =~= before.push(item@));
                assert(before.push(item@) + tail =~= before + (seq![item@] + tail));
            }
            items.push(item);
        }
        i += 1;
    }
    proof {
        assert(item_views(items@) + Seq::<ItemView>::empty() =~= item_views(items@));
    }
    items
}

} // verus!
