//! The item tree: what a screen shows, as nodes that can be folded.
//!
//! A screen never shows the tree itself but its flattened sequence: the
//! nodes in pre-order, without the descendants of a collapsed node.
//! Selection and scrolling speak of indices into that sequence only.

use crate::patch::{Delta, DeltaView, Hunk, HunkView};
use crate::text::{bytes_eq, copy_bytes};
use vstd::prelude::*;

verus! {

/// What an item stands for, and what an operation on it acts on.
#[derive(Clone, Debug, PartialEq, Eq)]
pub enum TargetData {
    Ref(Vec<u8>),
    File(Vec<u8>),
    Delta(Delta),
    Hunk(Hunk),
}

/// The mathematical value of a [`TargetData`].
pub enum TargetView {
    Ref(Seq<u8>),
    File(Seq<u8>),
    Delta(DeltaView),
    Hunk(HunkView),
}

impl View for TargetData {
    type V = TargetView;

    open spec fn view(&self) -> TargetView {
        match self {
            TargetData::Ref(name) => TargetView::Ref(name@),
            TargetData::File(path) => TargetView::File(path@),
            TargetData::Delta(delta) => TargetView::Delta(delta@),
            TargetData::Hunk(hunk) => TargetView::Hunk(hunk@),
        }
    }
}

/// The value of an optional target.
pub open spec fn target_view(target: Option<TargetData>) -> Option<TargetView> {
    match target {
        Some(t) => Some(t@),
        None => None,
    }
}

/// How an item is drawn.
#[derive(Clone, Copy, Debug, PartialEq, Eq, Structural)]
pub enum Style {
    Plain,
    Section,
    File,
    HunkHeader,
    Added,
    Removed,
    Reference,
}

/// One node of the tree.
#[derive(Debug, PartialEq, Eq)]
pub struct Item {
    pub display: Vec<u8>,
    pub style: Style,
    pub depth: usize,
    /// Whether the children are hidden. Without children it says nothing.
    pub collapsed: bool,
    pub target_data: Option<TargetData>,
    pub children: Vec<Item>,
}

/// The mathematical value of an [`Item`].
pub struct ItemView {
    pub display: Seq<u8>,
    pub style: Style,
    pub depth: nat,
    pub collapsed: bool,
    pub target: Option<TargetView>,
    pub children: Seq<ItemView>,
}

/// The value of an item: its own attributes, and the values of its
/// children.
pub open spec fn item_view(item: Item) -> ItemView
    decreases item,
{
    ItemView {
        display: item.display@,
        style: item.style,
        depth: item.depth as nat,
        collapsed: item.collapsed,
        target: target_view(item.target_data),
        children: Seq::new(
            item.children@.len(),
            |i: int|
                if 0 <= i < item.children@.len() {
                    item_view(item.children@[i])
                } else {
                    arbitrary()
                },
        ),
    }
}

impl View for Item {
    type V = ItemView;

    open spec fn view(&self) -> ItemView {
        item_view(*self)
    }
}

/// The values of a sequence of items.
pub open spec fn item_views(items: Seq<Item>) -> Seq<ItemView> {
    Seq::new(items.len(), |i: int| items[i]@)
}

/// The values that a sequence of borrowed items stands for.
pub open spec fn row_views(rows: Seq<&Item>) -> Seq<ItemView> {
    Seq::new(rows.len(), |i: int| (*rows[i])@)
}

/// The children of an item are the values of the items it holds.
pub proof fn lemma_children_views(item: Item)
    ensures
        item@.children == item_views(item.children@),
{
    reveal_with_fuel(item_view, 2);
    assert(item@.children =~= item_views(item.children@));
}

/// The visible rows of one item: itself, then those of its children unless
/// it is collapsed.
pub open spec fn flat(item: ItemView) -> Seq<ItemView>
    decreases item, 1int,
{
    if item.collapsed {
        seq![item]
    } else {
        seq![item] + flatten_all(item.children)
    }
}

/// The flattened sequence of a list of items: the visible rows of each, in
/// order.
pub open spec fn flatten_all(items: Seq<ItemView>) -> Seq<ItemView>
    decreases items, 0int,
{
    if items.len() == 0 {
        Seq::empty()
    } else {
        flat(items[0]) + flatten_all(items.drop_first())
    }
}

/// The item with its fold state turned over where it has children; itself
/// where it has none.
pub open spec fn toggled(item: ItemView) -> ItemView {
    if item.children.len() > 0 {
        ItemView { collapsed: !item.collapsed, ..item }
    } else {
        item
    }
}

/// The item after the fold state of its visible row `index` is turned over.
pub open spec fn toggle_within(item: ItemView, index: int) -> ItemView
    decreases item, 1int,
{
    if index == 0 {
        toggled(item)
    } else if item.collapsed {
        item
    } else {
        ItemView { children: toggle_at(item.children, index - 1), ..item }
    }
}

/// The items after the fold state of row `index` of their flattened
/// sequence is turned over. An index that names no row changes nothing.
pub open spec fn toggle_at(items: Seq<ItemView>, index: int) -> Seq<ItemView>
    decreases items, 0int,
{
    if items.len() == 0 || index < 0 {
        items
    } else if index < flat(items[0]).len() {
        seq![toggle_within(items[0], index)] + items.drop_first()
    } else {
        seq![items[0]] + toggle_at(items.drop_first(), index - flat(items[0]).len())
    }
}

/// An item shows at least itself.
pub proof fn lemma_flat_nonempty(item: ItemView)
    ensures
        flat(item).len() >= 1,
        flat(item)[0] == item,
        item.collapsed ==> flat(item).len() == 1,
        !item.collapsed ==> flat(item).len() == 1 + flatten_all(item.children).len(),
{
}

/// Turning over the fold state of a row whose item has no children changes
/// nothing: neither the tree nor, with it, the flattened sequence.
pub proof fn lemma_toggle_leaf_unchanged(items: Seq<ItemView>, index: int)
    requires
        0 <= index < flatten_all(items).len(),
        flatten_all(items)[index].children.len() == 0,
    ensures
        toggle_at(items, index) == items,
        flatten_all(toggle_at(items, index)) == flatten_all(items),
    decreases items, 0int,
{
    let first = items[0];
    let rest = items.drop_first();
    lemma_flat_nonempty(first);
    if index < flat(first).len() {
        assert(flatten_all(items)[index] == flat(first)[index]);
        lemma_toggle_leaf_within(first, index);
        assert(seq![first] + rest =~= items);
    } else {
        assert(flatten_all(items)[index] == flatten_all(rest)[index - flat(first).len()]);
        lemma_toggle_leaf_unchanged(rest, index - flat(first).len());
        assert(seq![first] + rest =~= items);
    }
}

/// The same, inside one item.
pub proof fn lemma_toggle_leaf_within(item: ItemView, index: int)
    requires
        0 <= index < flat(item).len(),
        flat(item)[index].children.len() == 0,
    ensures
        toggle_within(item, index) == item,
    decreases item, 1int,
{
    if index != 0 && !item.collapsed {
        assert(flat(item)[index] == flatten_all(item.children)[index - 1]);
        lemma_toggle_leaf_unchanged(item.children, index - 1);
    }
}

impl Item {
    /// An item that holds nothing: what an empty screen has selected.
    pub fn empty() -> (item: Item)
        ensures
            item@ == empty_item(),
    {
        let item = Item {
            display: Vec::new(),
            style: Style::Plain,
            depth: 0,
            collapsed: false,
            target_data: None,
            children: Vec::new(),
        };
        assert(item@.children =~= Seq::<ItemView>::empty());
        item
    }

    /// Turns the fold state over where the item has children; does nothing
    /// where it has none.
    pub fn toggle_fold(&mut self)
        ensures
            final(self)@ == toggled(old(self)@),
    {
        proof {
            lemma_children_views(*self);
        }
        if self.children.len() > 0 {
            self.collapsed = !self.collapsed;
        }
        proof {
            lemma_children_views(*self);
            lemma_children_views(*old(self));
        }
        assert(self@.children == old(self)@.children);
        assert(self@ == toggled(old(self)@));
    }
}

impl TargetData {
    /// A copy of the target.
    pub fn duplicate(&self) -> (out: TargetData)
        ensures
            out@ == self@,
    {
        match self {
            TargetData::Ref(name) => TargetData::Ref(copy_bytes(name.as_slice())),
            TargetData::File(path) => TargetData::File(copy_bytes(path.as_slice())),
            TargetData::Delta(delta) => TargetData::Delta(delta.duplicate()),
            TargetData::Hunk(hunk) => TargetData::Hunk(hunk.duplicate()),
        }
    }
}

/// A copy of an optional target.
pub fn duplicate_target(target: &Option<TargetData>) -> (out: Option<TargetData>)
    ensures
        target_view(out) == target_view(*target),
{
    match target {
        Some(t) => Some(t.duplicate()),
        None => None,
    }
}

impl Item {
    /// A copy of the item and of all that it holds.
    pub fn duplicate(&self) -> (out: Item)
        ensures
            out@ == self@,
        decreases self,
    {
        let mut children: Vec<Item> = Vec::new();
        let mut i: usize = 0;
        while i < self.children.len()
            invariant
                i <= self.children.len(),
                children.len() == i,
                forall|k: int| 0 <= k < i ==> children@[k]@ == self.children@[k]@,
            decreases self.children.len() - i,
        {
            children.push(self.children[i].duplicate());
            i += 1;
        }
        let out = Item {
            display: copy_bytes(self.display.as_slice()),
            style: self.style,
            depth: self.depth,
            collapsed: self.collapsed,
            target_data: duplicate_target(&self.target_data),
            children,
        };
        proof {
            lemma_children_views(out);
            lemma_children_views(*self);
            assert(item_views(out.children@) =~= item_views(self.children@));
        }
        out
    }
}

/// The value of the item that holds nothing.
pub open spec fn empty_item() -> ItemView {
    ItemView {
        display: Seq::empty(),
        style: Style::Plain,
        depth: 0,
        collapsed: false,
        target: None,
        children: Seq::empty(),
    }
}

/// Appends the visible rows of `item` to `out`.
fn flatten_into<'a>(item: &'a Item, out: &mut Vec<&'a Item>)
    ensures
        row_views(final(out)@) == row_views(old(out)@) + flat(item@),
    decreases item,
{
    out.push(item);
    assert(row_views(out@) =~= row_views(old(out)@) + seq![item@]);
    if !item.collapsed {
        proof {
            lemma_children_views(*item);
        }
        flatten_list_into(&item.children, out);
    }
}

/// Appends the flattened sequence of `items` to `out`.
fn flatten_list_into<'a>(items: &'a Vec<Item>, out: &mut Vec<&'a Item>)
    ensures
        row_views(final(out)@) == row_views(old(out)@) + flatten_all(item_views(items@)),
    decreases items,
{
    let ghost all = item_views(items@);
    let mut i: usize = 0;
    assert(all.skip(0) =~= all);
    while i < items.len()
        invariant
            i <= items.len(),
            all == item_views(items@),
            row_views(out@) + flatten_all(all.skip(i as int)) == row_views(old(out)@)
                + flatten_all(all),
        decreases items.len() - i,
    {
        let ghost before = row_views(out@);
        proof {
            let remaining = all.skip(i as int);
            assert(remaining[0] == items@[i as int]@);
            assert(remaining.drop_first() =~= all.skip(i + 1));
        }
        flatten_into(&items[i], out);
        proof {
            let one = flat(items@[i as int]@);
            let tail = flatten_all(all.skip(i + 1));
            assert((before + one) + tail =~= before + (one + tail));
        }
        i += 1;
    }
    assert(row_views(out@) + Seq::<ItemView>::empty() =~= row_views(out@));
}

/// The flattened sequence of a list of items.
pub fn flatten<'a>(roots: &'a Vec<Item>) -> (rows: Vec<&'a Item>)
    ensures
        row_views(rows@) == flatten_all(item_views(roots@)),
{
    let mut rows: Vec<&'a Item> = Vec::new();
    assert(row_views(rows@) =~= Seq::<ItemView>::empty());
    flatten_list_into(roots, &mut rows);
    assert(Seq::<ItemView>::empty() + flatten_all(item_views(roots@)) =~= flatten_all(
        item_views(roots@),
    ));
    rows
}

/// Turns over the fold state of row `index` of the flattened sequence of
/// `items`, where there is such a row. Else gives back how far `index`
/// lies behind the last row.
#[verifier::rlimit(40)]
fn toggle_in(items: &mut Vec<Item>, index: usize) -> (rest: Option<usize>)
    ensures
        match rest {
            None => index < flatten_all(item_views(old(items)@)).len() && item_views(
                final(items)@,
            ) == toggle_at(item_views(old(items)@), index as int),
            Some(r) => r == index - flatten_all(item_views(old(items)@)).len() && item_views(
                final(items)@,
            ) == item_views(old(items)@),
        },
    decreases *old(items),
{
    let ghost all = item_views(items@);
    let mut idx: usize = index;
    let mut i: usize = 0;
    proof {
        assert(all.skip(0) =~= all);
        assert(all.take(0) + toggle_at(all, index as int) =~= toggle_at(all, index as int));
    }
    while i < items.len()
        invariant
            i <= items.len(),
            idx <= index,
            items.len() == old(items).len(),
            forall|k: int| i <= k < items.len() ==> items@[k] == old(items)@[k],
            all == item_views(items@),
            all == item_views(old(items)@),
            flatten_all(all).len() == (index - idx) + flatten_all(all.skip(i as int)).len(),
            toggle_at(all, index as int) == all.take(i as int) + toggle_at(
                all.skip(i as int),
                idx as int,
            ),
        decreases items.len() - i,
    {
        let ghost first = all[i as int];
        let ghost tail = all.skip(i + 1);
        proof {
            let remaining = all.skip(i as int);
            assert(remaining[0] == first);
            assert(remaining.drop_first() =~= tail);
            lemma_flat_nonempty(first);
            lemma_children_views(items@[i as int]);
        }
        if idx == 0 {
            let item = &mut items[i];
            item.toggle_fold();
            proof {
                assert(item_views(items@) =~= all.update(i as int, toggled(first)));
                assert(all.take(i as int) + (seq![toggled(first)] + tail) =~= all.update(
                    i as int,
                    toggled(first),
                ));
            }
            return None;
        }
        if items[i].collapsed {
            idx = idx - 1;
        } else {
            let item = &mut items[i];
            let ghost before = *item;
            match toggle_in(&mut item.children, idx - 1) {
                None => {
                    proof {
                        lemma_children_views(*item);
                        let changed = toggle_within(first, idx as int);
                        assert(item@ == changed);
                        assert(item_views(items@) =~= all.update(i as int, changed));
                        assert(all.take(i as int) + (seq![changed] + tail) =~= all.update(
                            i as int,
                            changed,
                        ));
                    }
                    return None;
                },
                Some(r) => {
                    proof {
                        lemma_children_views(*item);
                        assert(item@ == first);
                        assert(item_views(items@) =~= all);
                    }
                    idx = r;
                },
            }
        }
        proof {
            assert(all.take(i as int) + (seq![first] + toggle_at(tail, idx as int)) =~= all.take(
                i + 1,
            ) + toggle_at(tail, idx as int));
        }
        i += 1;
    }
    proof {
        assert(all.take(i as int) =~= all);
        assert(all + toggle_at(all.skip(i as int), idx as int) =~= all);
    }
    Some(idx)
}

/// Turns over the fold state of the item at row `index` of the flattened
/// sequence of `roots`. Says whether there is such a row; without one the
/// tree stays as it is.
pub fn toggle_fold_at(roots: &mut Vec<Item>, index: usize) -> (found: bool)
    ensures
        found == (index < flatten_all(item_views(old(roots)@)).len()),
        item_views(final(roots)@) == toggle_at(item_views(old(roots)@), index as int),
{
    match toggle_in(roots, index) {
        None => true,
        Some(_) => {
            proof {
                lemma_toggle_beyond(item_views(old(roots)@), index as int);
            }
            false
        },
    }
}

/// An index behind the last row changes nothing.
pub proof fn lemma_toggle_beyond(items: Seq<ItemView>, index: int)
    requires
        index >= flatten_all(items).len(),
    ensures
        toggle_at(items, index) == items,
    decreases items.len(),
{
    if items.len() > 0 {
        lemma_toggle_beyond(items.drop_first(), index - flat(items[0]).len());
        assert(seq![items[0]] + items.drop_first() =~= items);
    }
}

/// The index of the first item at or after `from` that shows the given
/// text, or the number of items where there is none.
pub open spec fn find_shown(items: Seq<ItemView>, display: Seq<u8>, from: int) -> int
    decreases items.len() - from,
{
    if from < 0 || from >= items.len() {
        items.len() as int
    } else if items[from].display == display {
        from
    } else {
        find_shown(items, display, from + 1)
    }
}

/// A new item with the fold state of the old item that shows the same text
/// among `old`, and its children with the fold states of the children of
/// that old item. Without such an old item the new item stays as it is.
pub open spec fn carried(old: Seq<ItemView>, item: ItemView) -> ItemView
    decreases item, 1int,
{
    let k = find_shown(old, item.display, 0);
    if 0 <= k < old.len() {
        ItemView {
            collapsed: old[k].collapsed,
            children: carried_all(old[k].children, item.children),
            ..item
        }
    } else {
        item
    }
}

/// New items with the fold states of the old items that show the same
/// text, level by level.
pub open spec fn carried_all(old: Seq<ItemView>, items: Seq<ItemView>) -> Seq<ItemView>
    decreases items, 0int,
{
    Seq::new(
        items.len(),
        |i: int|
            if 0 <= i < items.len() {
                carried(old, items[i])
            } else {
                arbitrary()
            },
    )
}

/// The index of the first of the items that shows the given text.
fn find_item(items: &Vec<Item>, display: &[u8]) -> (found: Option<usize>)
    ensures
        match found {
            Some(k) => k < items.len() && k == find_shown(item_views(items@), display@, 0),
            None => find_shown(item_views(items@), display@, 0) == items.len(),
        },
{
    let ghost all = item_views(items@);
    let mut k: usize = 0;
    while k < items.len()
        invariant
            k <= items.len(),
            all == item_views(items@),
            find_shown(all, display@, 0) == find_shown(all, display@, k as int),
        decreases items.len() - k,
    {
        assert(all[k as int].display == items@[k as int].display@);
        if bytes_eq(items[k].display.as_slice(), display) {
            return Some(k);
        }
        k += 1;
    }
    None
}

/// Gives new items the fold states of the old items that show the same
/// text, level by level.
pub fn carry_folds(old_items: &Vec<Item>, items: &mut Vec<Item>)
    ensures
        item_views(final(items)@) == carried_all(item_views(old_items@), item_views(old(items)@)),
    decreases *old(items),
{
    let ghost before = item_views(old_items@);
    let ghost fresh = item_views(items@);
    let mut i: usize = 0;
    while i < items.len()
        invariant
            i <= items.len(),
            items.len() == old(items).len(),
            before == item_views(old_items@),
            fresh == item_views(old(items)@),
            forall|k: int| i <= k < items.len() ==> items@[k] == old(items)@[k],
            forall|k: int| 0 <= k < i ==> (#[trigger] items@[k])@ == carried(before, fresh[k]),
        decreases items.len() - i,
    {
        let ghost new_item = fresh[i as int];
        proof {
            assert(new_item == items@[i as int]@);
            lemma_children_views(items@[i as int]);
        }
        match find_item(old_items, items[i].display.as_slice()) {
            Some(k) => {
                proof {
                    lemma_children_views(old_items@[k as int]);
                }
                let item = &mut items[i];
                item.collapsed = old_items[k].collapsed;
                carry_folds(&old_items[k].children, &mut item.children);
                proof {
                    lemma_children_views(*item);
                    assert(item@ == carried(before, new_item));
                }
            },
            None => {},
        }
        i += 1;
    }
    assert(item_views(items@) =~= carried_all(before, fresh));
}

} // verus!
