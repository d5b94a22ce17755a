//! The patch model: lines, hunks and deltas, and the header of a hunk.
//!
//! A hunk header has the form `@@ -a,b +c,d @@` followed by free text. A
//! count that is left out stands for one line. The four numbers fit in
//! 32 bits each, or the header is not accepted.
//!
//! A hunk can be written back as a patch of its own: the two file header
//! lines, the hunk header, and the lines. Where only some of its lines are
//! chosen, an addition that is not chosen is left out, a removal that is
//! not chosen becomes context, and the counts of the header are those of
//! the lines that are written.

use crate::text::{
    append_bytes, copy_bytes, decimal, digits_end, digits_value, has_prefix, is_digit,
    join_lines, lemma_decimal, lemma_digits_end, lemma_digits_end_of_run, lemma_join_push, lit,
    push_decimal, read_digits, starts_with, starts_with_at, BACKSLASH, COMMA, DIGIT_ZERO, MINUS,
    NEWLINE, PLUS, SPACE,
};
use vstd::prelude::*;
use vstd::slice::*;

verus! {

/// What a line of a hunk does to the file.
#[derive(Clone, Copy, Debug, PartialEq, Eq, Structural)]
pub enum LineKind {
    /// The line stands in both files.
    Context,
    /// The line stands in the new file only.
    Addition,
    /// The line stands in the old file only.
    Removal,
}

/// One line of a hunk: its text, marker included and line end excluded.
#[derive(Clone, Debug, PartialEq, Eq)]
pub struct Line {
    pub kind: LineKind,
    pub content: Vec<u8>,
}

/// The mathematical value of a [`Line`].
pub struct LineView {
    pub kind: LineKind,
    pub content: Seq<u8>,
}

impl View for Line {
    type V = LineView;

    open spec fn view(&self) -> LineView {
        LineView { kind: self.kind, content: self.content@ }
    }
}

/// The position of a hunk in the old and in the new file.
#[derive(Clone, Copy, Debug, PartialEq, Eq, Structural)]
pub struct HunkHeader {
    pub old_start: u32,
    pub old_lines: u32,
    pub new_start: u32,
    pub new_lines: u32,
}

/// A block of changed lines, with the paths of the file it belongs to.
#[derive(Clone, Debug, PartialEq, Eq)]
pub struct Hunk {
    pub old_file: Vec<u8>,
    pub new_file: Vec<u8>,
    pub header: HunkHeader,
    /// What follows the closing `@@` of the header line.
    pub suffix: Vec<u8>,
    pub lines: Vec<Line>,
}

/// The mathematical value of a [`Hunk`].
pub struct HunkView {
    pub old_file: Seq<u8>,
    pub new_file: Seq<u8>,
    pub header: HunkHeader,
    pub suffix: Seq<u8>,
    pub lines: Seq<LineView>,
}

/// The values of a sequence of lines.
pub open spec fn line_views(lines: Seq<Line>) -> Seq<LineView> {
    lines.map_values(|l: Line| l@)
}

impl View for Hunk {
    type V = HunkView;

    open spec fn view(&self) -> HunkView {
        HunkView {
            old_file: self.old_file@,
            new_file: self.new_file@,
            header: self.header,
            suffix: self.suffix@,
            lines: line_views(self.lines@),
        }
    }
}

/// How a file changed.
#[derive(Clone, Copy, Debug, PartialEq, Eq, Structural)]
pub enum DeltaStatus {
    Added,
    Modified,
    Deleted,
    Renamed,
    Copied,
}

/// The change of one file.
#[derive(Clone, Debug, PartialEq, Eq)]
pub struct Delta {
    pub old_file: Vec<u8>,
    pub new_file: Vec<u8>,
    pub status: DeltaStatus,
    pub hunks: Vec<Hunk>,
    /// The header line that could not be read, where there was one. The
    /// delta then holds no hunks and is shown as that line alone.
    pub opaque: Option<Vec<u8>>,
}

/// The mathematical value of a [`Delta`].
pub struct DeltaView {
    pub old_file: Seq<u8>,
    pub new_file: Seq<u8>,
    pub status: DeltaStatus,
    pub hunks: Seq<HunkView>,
    pub opaque: Option<Seq<u8>>,
}

/// The values of a sequence of hunks.
pub open spec fn hunk_views(hunks: Seq<Hunk>) -> Seq<HunkView> {
    hunks.map_values(|h: Hunk| h@)
}

/// The values of a sequence of deltas.
pub open spec fn delta_views(deltas: Seq<Delta>) -> Seq<DeltaView> {
    deltas.map_values(|d: Delta| d@)
}

/// The bytes that an optional byte string holds.
pub open spec fn option_bytes(o: Option<Vec<u8>>) -> Option<Seq<u8>> {
    match o {
        Some(v) => Some(v@),
        None => None,
    }
}

impl View for Delta {
    type V = DeltaView;

    open spec fn view(&self) -> DeltaView {
        DeltaView {
            old_file: self.old_file@,
            new_file: self.new_file@,
            status: self.status,
            hunks: hunk_views(self.hunks@),
            opaque: option_bytes(self.opaque),
        }
    }
}

/// The kind that the first byte of a line gives it. A line that starts
/// with neither `+` nor `-` is context, whatever it holds.
pub open spec fn classify(line: Seq<u8>) -> LineKind {
    if line.len() > 0 && line[0] == PLUS {
        LineKind::Addition
    } else if line.len() > 0 && line[0] == MINUS {
        LineKind::Removal
    } else {
        LineKind::Context
    }
}

/// The kind of a line, read from its first byte.
pub fn classify_line(line: &[u8]) -> (kind: LineKind)
    ensures
        kind == classify(line@),
{
    if line.len() > 0 && line[0] == PLUS {
        LineKind::Addition
    } else if line.len() > 0 && line[0] == MINUS {
        LineKind::Removal
    } else {
        LineKind::Context
    }
}

/// A range of a hunk header as read from a line: its two numbers, and the
/// index behind it.
pub struct RangeView {
    pub start: nat,
    pub count: nat,
    pub end: int,
}

/// The range `start` or `start,count` that stands in `s` at `at`. `None`
/// where no digit stands there, where a comma is followed by no digit, or
/// where a number does not fit in 32 bits.
pub open spec fn range_at(s: Seq<u8>, at: int) -> Option<RangeView> {
    let e1 = digits_end(s, at);
    let start = digits_value(s.subrange(at, e1));
    if e1 == at || start > u32::MAX {
        None
    } else if e1 < s.len() && s[e1] == COMMA {
        let e2 = digits_end(s, e1 + 1);
        let count = digits_value(s.subrange(e1 + 1, e2));
        if e2 == e1 + 1 || count > u32::MAX {
            None
        } else {
            Some(RangeView { start, count, end: e2 })
        }
    } else {
        Some(RangeView { start, count: 1, end: e1 })
    }
}

/// What a hunk header line says: the four numbers, and the text behind the
/// closing `@@`. `None` where the line is no hunk header.
#[verifier::opaque]
pub open spec fn header_of(line: Seq<u8>) -> Option<(HunkHeader, Seq<u8>)> {
    if !has_prefix(line, lit("@@ -")) {
        None
    } else {
        match range_at(line, 4) {
            None => None,
            Some(old) => if !has_prefix(line.skip(old.end), lit(" +")) {
                None
            } else {
                match range_at(line, old.end + 2) {
                    None => None,
                    Some(new) => if !has_prefix(line.skip(new.end), lit(" @@")) {
                        None
                    } else {
                        Some(
                            (
                                HunkHeader {
                                    old_start: old.start as u32,
                                    old_lines: old.count as u32,
                                    new_start: new.start as u32,
                                    new_lines: new.count as u32,
                                },
                                line.skip(new.end + 3),
                            ),
                        )
                    },
                }
            },
        }
    }
}

/// The header line of a hunk, written with both counts.
pub open spec fn header_text(h: HunkHeader, suffix: Seq<u8>) -> Seq<u8> {
    lit("@@ -") + decimal(h.old_start as nat) + seq![COMMA] + decimal(h.old_lines as nat) + lit(
        " +",
    ) + decimal(h.new_start as nat) + seq![COMMA] + decimal(h.new_lines as nat) + lit(" @@")
        + suffix
}

/// The bytes of the markers of a hunk header.
pub proof fn lemma_header_marks()
    ensures
        lit("@@ -") == seq![64u8, 64u8, 32u8, 45u8],
        lit(" +") == seq![32u8, 43u8],
        lit(" @@") == seq![32u8, 64u8, 64u8],
{
    reveal_strlit("@@ -");
    reveal_strlit(" +");
    reveal_strlit(" @@");
    assert(vstd::string::is_ascii("@@ -"));
    assert(vstd::string::is_ascii(" +"));
    assert(vstd::string::is_ascii(" @@"));
    assert(lit("@@ -") =~= seq![64u8, 64u8, 32u8, 45u8]);
    assert(lit(" +") =~= seq![32u8, 43u8]);
    assert(lit(" @@") =~= seq![32u8, 64u8, 64u8]);
}

/// The index behind the run of digits that starts at `at`.
fn scan_digits(s: &[u8], at: usize) -> (end: usize)
    requires
        at <= s.len(),
    ensures
        end == digits_end(s@, at as int),
        at <= end <= s.len(),
{
    let mut end: usize = at;
    while end < s.len() && s[end] >= DIGIT_ZERO && s[end] <= DIGIT_ZERO + 9
        invariant
            at <= end <= s.len(),
            digits_end(s@, end as int) == digits_end(s@, at as int),
        decreases s.len() - end,
    {
        end += 1;
    }
    end
}

/// Reads the range that stands in `s` at `at`: its start, its count and the
/// index behind it.
fn read_range(s: &[u8], at: usize) -> (range: Option<(u32, u32, usize)>)
    requires
        at <= s.len(),
    ensures
        match range {
            Some((start, count, end)) => range_at(s@, at as int) == Some(
                RangeView { start: start as nat, count: count as nat, end: end as int },
            ) && at < end <= s.len(),
            None => range_at(s@, at as int).is_none(),
        },
{
    let e1 = scan_digits(s, at);
    if e1 == at {
        return None;
    }
    proof {
        lemma_digits_end(s@, at as int);
    }
    let start = match read_digits(s, at, e1) {
        Some(v) => v,
        None => {
            return None;
        },
    };
    if e1 < s.len() && s[e1] == COMMA {
        let e2 = scan_digits(s, e1 + 1);
        if e2 == e1 + 1 {
            return None;
        }
        proof {
            lemma_digits_end(s@, e1 + 1);
        }
        match read_digits(s, e1 + 1, e2) {
            Some(count) => Some((start, count, e2)),
            None => None,
        }
    } else {
        Some((start, 1, e1))
    }
}

/// Reads a hunk header line.
pub fn parse_hunk_header(line: &[u8]) -> (parsed: Option<(HunkHeader, Vec<u8>)>)
    ensures
        match parsed {
            Some((header, suffix)) => header_of(line@) == Some((header, suffix@)),
            None => header_of(line@).is_none(),
        },
{
    proof {
        reveal(header_of);
    }
    if !starts_with(line, "@@ -".as_bytes()) {
        return None;
    }
    proof {
        lemma_header_marks();
    }
    let (old_start, old_lines, e1) = match read_range(line, 4) {
        Some(r) => r,
        None => {
            return None;
        },
    };
    if !starts_with_at(line, e1, " +".as_bytes()) {
        return None;
    }
    let (new_start, new_lines, e2) = match read_range(line, e1 + 2) {
        Some(r) => r,
        None => {
            return None;
        },
    };
    if !starts_with_at(line, e2, " @@".as_bytes()) {
        return None;
    }
    let suffix = slice_to_vec(slice_subrange(line, e2 + 3, line.len()));
    Some((HunkHeader { old_start, old_lines, new_start, new_lines }, suffix))
}

/// Appends the header line of a hunk, without a line end.
pub fn push_header(out: &mut Vec<u8>, header: &HunkHeader, suffix: &[u8])
    ensures
        final(out)@ == old(out)@ + header_text(*header, suffix@),
{
    append_bytes(out, "@@ -".as_bytes());
    push_decimal(out, header.old_start);
    out.push(COMMA);
    push_decimal(out, header.old_lines);
    append_bytes(out, " +".as_bytes());
    push_decimal(out, header.new_start);
    out.push(COMMA);
    push_decimal(out, header.new_lines);
    append_bytes(out, " @@".as_bytes());
    append_bytes(out, suffix);
    assert(out@ =~= old(out)@ + header_text(*header, suffix@));
}

/// In a text where `a,b` in decimal stands at `at` and a byte that is no
/// digit follows, `range_at` reads the two numbers and ends behind them.
pub proof fn lemma_range_at_written(s: Seq<u8>, at: int, a: u32, b: u32)
    requires
        0 <= at,
        at + decimal(a as nat).len() + 1 + decimal(b as nat).len() < s.len(),
        s.subrange(at, at + decimal(a as nat).len()) == decimal(a as nat),
        s[at + decimal(a as nat).len()] == COMMA,
        s.subrange(
            at + decimal(a as nat).len() + 1,
            at + decimal(a as nat).len() + 1 + decimal(b as nat).len(),
        ) == decimal(b as nat),
        !is_digit(s[at + decimal(a as nat).len() + 1 + decimal(b as nat).len()]),
    ensures
        range_at(s, at) == Some(
            RangeView {
                start: a as nat,
                count: b as nat,
                end: at + decimal(a as nat).len() + 1 + decimal(b as nat).len(),
            },
        ),
{
    let da = decimal(a as nat);
    let db = decimal(b as nat);
    lemma_decimal(a as nat);
    lemma_decimal(b as nat);
    lemma_digits_end_of_run(s, at, da);
    lemma_digits_end_of_run(s, at + da.len() + 1, db);
}

/// The same, for a text given in its parts.
pub proof fn lemma_range_in_context(pre: Seq<u8>, a: u32, b: u32, post: Seq<u8>)
    requires
        post.len() > 0,
        !is_digit(post[0]),
    ensures
        range_at(
            pre + decimal(a as nat) + seq![COMMA] + decimal(b as nat) + post,
            pre.len() as int,
        ) == Some(
            RangeView {
                start: a as nat,
                count: b as nat,
                end: (pre.len() + decimal(a as nat).len() + 1 + decimal(b as nat).len()) as int,
            },
        ),
{
    let da = decimal(a as nat);
    let db = decimal(b as nat);
    let s = pre + da + seq![COMMA] + db + post;
    let at = pre.len() as int;
    assert(s.subrange(at, at + da.len()) =~= da);
    assert(s[at + da.len()] == COMMA);
    assert(s.subrange(at + da.len() + 1, at + da.len() + 1 + db.len()) =~= db);
    assert(s[at + da.len() + 1 + db.len()] == post[0]);
    lemma_range_at_written(s, at, a, b);
}

/// Reading the header line that was written for a header and a suffix gives
/// both back.
#[verifier::rlimit(40)]
pub proof fn lemma_header_round_trip(h: HunkHeader, suffix: Seq<u8>)
    ensures
        header_of(header_text(h, suffix)) == Some((h, suffix)),
{
    reveal(header_of);
    lemma_header_marks();
    let a = decimal(h.old_start as nat);
    let b = decimal(h.old_lines as nat);
    let c = decimal(h.new_start as nat);
    let d = decimal(h.new_lines as nat);
    let line = header_text(h, suffix);
    let e1: int = 4int + a.len() + 1 + b.len();
    let e2: int = e1 + 2 + c.len() + 1 + d.len();
    let old = RangeView { start: h.old_start as nat, count: h.old_lines as nat, end: e1 };
    let new = RangeView { start: h.new_start as nat, count: h.new_lines as nat, end: e2 };
    assert(has_prefix(line, lit("@@ -"))) by {
        assert(line.take(4) =~= lit("@@ -"));
    }
    assert(range_at(line, 4) == Some(old)) by {
        let tail = lit(" +") + c + seq![COMMA] + d + lit(" @@") + suffix;
        assert(line =~= lit("@@ -") + a + seq![COMMA] + b + tail);
        lemma_range_in_context(lit("@@ -"), h.old_start, h.old_lines, tail);
    }
    assert(has_prefix(line.skip(e1), lit(" +"))) by {
        assert(line.skip(e1).take(2) =~= lit(" +"));
    }
    assert(range_at(line, e1 + 2) == Some(new)) by {
        let head = lit("@@ -") + a + seq![COMMA] + b + lit(" +");
        let tail = lit(" @@") + suffix;
        assert(line =~= head + c + seq![COMMA] + d + tail);
        lemma_range_in_context(head, h.new_start, h.new_lines, tail);
    }
    assert(has_prefix(line.skip(e2), lit(" @@"))) by {
        assert(line.skip(e2).take(3) =~= lit(" @@"));
    }
    assert(line.skip(e2 + 3) =~= suffix);
}

/// The header line of a hunk starts with `@@`.
pub proof fn lemma_header_starts(h: HunkHeader, suffix: Seq<u8>)
    ensures
        header_text(h, suffix).len() >= 2,
        header_text(h, suffix)[0] == 64,
        header_text(h, suffix)[1] == 64,
{
    lemma_header_marks();
}

/// Whether a line is a note on the line before it, such as
/// `\ No newline at end of file`. A note stands in neither file.
pub open spec fn is_note(l: LineView) -> bool {
    l.kind == LineKind::Context && l.content.len() > 0 && l.content[0] == BACKSLASH
}

/// Whether a line stands in the old file.
pub open spec fn in_old(l: LineView) -> bool {
    l.kind == LineKind::Removal || (l.kind == LineKind::Context && !is_note(l))
}

/// Whether a line stands in the new file.
pub open spec fn in_new(l: LineView) -> bool {
    l.kind == LineKind::Addition || (l.kind == LineKind::Context && !is_note(l))
}

/// How many of the lines stand in the old file.
pub open spec fn count_old(lines: Seq<LineView>) -> nat
    decreases lines.len(),
{
    if lines.len() == 0 {
        0
    } else {
        count_old(lines.drop_last()) + if in_old(lines.last()) {
            1nat
        } else {
            0nat
        }
    }
}

/// How many of the lines stand in the new file.
pub open spec fn count_new(lines: Seq<LineView>) -> nat
    decreases lines.len(),
{
    if lines.len() == 0 {
        0
    } else {
        count_new(lines.drop_last()) + if in_new(lines.last()) {
            1nat
        } else {
            0nat
        }
    }
}

/// The indices that a selection names.
pub open spec fn picks(selection: Seq<usize>) -> Set<int> {
    Set::new(|k: int| exists|i: int| 0 <= i < selection.len() && selection[i] == k)
}

/// Whether line `k` is written when only the lines in `chosen` are
/// selected: an addition where it is chosen, a note where the line before
/// it is written, any other line always.
pub open spec fn kept(lines: Seq<LineView>, chosen: Set<int>, k: int) -> bool
    decreases k,
{
    if k < 0 || k >= lines.len() {
        false
    } else if is_note(lines[k]) {
        k == 0 || kept(lines, chosen, k - 1)
    } else {
        lines[k].kind != LineKind::Addition || chosen.contains(k)
    }
}

/// A removed line as the context line it is when the removal is not chosen.
pub open spec fn as_context(l: LineView) -> LineView {
    LineView {
        kind: LineKind::Context,
        content: if l.content.len() > 0 {
            l.content.update(0, SPACE)
        } else {
            l.content
        },
    }
}

/// The line as it is written: a removal that is not chosen becomes context.
pub open spec fn written_line(l: LineView, chosen: bool) -> LineView {
    if l.kind == LineKind::Removal && !chosen {
        as_context(l)
    } else {
        l
    }
}

/// What is written of the first `n` lines when only the lines in `chosen`
/// are selected.
pub open spec fn restricted(lines: Seq<LineView>, chosen: Set<int>, n: int) -> Seq<LineView>
    decreases n,
{
    if n <= 0 {
        Seq::empty()
    } else if kept(lines, chosen, n - 1) {
        restricted(lines, chosen, n - 1).push(written_line(lines[n - 1], chosen.contains(n - 1)))
    } else {
        restricted(lines, chosen, n - 1)
    }
}

/// A count as a header holds it: at most the largest 32-bit number.
pub open spec fn capped(n: nat) -> u32 {
    if n > u32::MAX {
        u32::MAX
    } else {
        n as u32
    }
}

/// The hunk that holds only the chosen changes of `h`, with the counts of
/// its header set to what its lines say.
pub open spec fn restricted_hunk(h: HunkView, chosen: Set<int>) -> HunkView {
    let lines = restricted(h.lines, chosen, h.lines.len() as int);
    HunkView {
        header: HunkHeader {
            old_lines: capped(count_old(lines)),
            new_lines: capped(count_new(lines)),
            ..h.header
        },
        lines,
        ..h
    }
}

/// The texts of the lines.
pub open spec fn contents(lines: Seq<LineView>) -> Seq<Seq<u8>> {
    lines.map_values(|l: LineView| l.content)
}

/// The three lines that stand before the lines of a hunk in its patch.
pub open spec fn patch_head(h: HunkView) -> Seq<Seq<u8>> {
    seq![lit("--- a/") + h.old_file, lit("+++ b/") + h.new_file, header_text(h.header, h.suffix)]
}

/// The lines of the patch of a hunk.
pub open spec fn patch_lines(h: HunkView) -> Seq<Seq<u8>> {
    patch_head(h) + contents(h.lines)
}

/// The patch of a hunk: its lines, each with a line end.
pub open spec fn patch_text(h: HunkView) -> Seq<u8> {
    join_lines(patch_lines(h))
}

/// Whether `i` is the index of the first line that is no context.
pub open spec fn is_first_change(lines: Seq<LineView>, i: int) -> bool {
    &&& 0 <= i < lines.len()
    &&& lines[i].kind != LineKind::Context
    &&& forall|j: int| 0 <= j < i ==> (#[trigger] lines[j]).kind == LineKind::Context
}

/// Whether every line is context.
pub open spec fn no_change(lines: Seq<LineView>) -> bool {
    forall|j: int| 0 <= j < lines.len() ==> (#[trigger] lines[j]).kind == LineKind::Context
}

/// The line of the new file at which the first change of a hunk stands:
/// the start of the hunk in the new file plus the index of the first line
/// that is no context, or the start alone where every line is context. At
/// most the largest 32-bit number.
pub open spec fn first_change_line(h: HunkView) -> u32 {
    if no_change(h.lines) {
        h.header.new_start
    } else {
        capped((h.header.new_start + choose|i: int| is_first_change(h.lines, i)) as nat)
    }
}

/// Whether `k` is one of the indices in `selection`.
fn is_picked(selection: &[usize], k: usize) -> (found: bool)
    ensures
        found == picks(selection@).contains(k as int),
{
    let mut i: usize = 0;
    while i < selection.len()
        invariant
            i <= selection.len(),
            forall|j: int| 0 <= j < i ==> selection@[j] != k,
        decreases selection.len() - i,
    {
        if selection[i] == k {
            return true;
        }
        i += 1;
    }
    false
}

impl Line {
    /// Whether the line is a note on the line before it.
    pub fn is_note(&self) -> (note: bool)
        ensures
            note == is_note(self@),
    {
        self.kind == LineKind::Context && self.content.len() > 0 && self.content[0] == BACKSLASH
    }

    /// The line as it is written in a patch where it is chosen or not.
    fn written(&self, chosen: bool) -> (out: Line)
        ensures
            out@ == written_line(self@, chosen),
    {
        let mut content = copy_bytes(self.content.as_slice());
        if self.kind == LineKind::Removal && !chosen {
            if content.len() > 0 {
                content[0] = SPACE;
            }
            Line { kind: LineKind::Context, content }
        } else {
            Line { kind: self.kind, content }
        }
    }
}

impl Hunk {
    /// The hunk that holds only the changes that `selection` names by the
    /// index of their line. Indices that name no line are without effect.
    pub fn restrict(&self, selection: &[usize]) -> (out: Hunk)
        ensures
            out@ == restricted_hunk(self@, picks(selection@)),
    {
        let ghost chosen = picks(selection@);
        let ghost all = self@.lines;
        let mut lines: Vec<Line> = Vec::new();
        let mut old_lines: u32 = 0;
        let mut new_lines: u32 = 0;
        let mut previous_kept: bool = true;
        let mut i: usize = 0;
        assert(line_views(lines@) =~= restricted(all, chosen, 0));
        while i < self.lines.len()
            invariant
                i <= self.lines.len(),
                all == self@.lines,
                chosen == picks(selection@),
                line_views(lines@) == restricted(all, chosen, i as int),
                old_lines == capped(count_old(line_views(lines@))),
                new_lines == capped(count_new(line_views(lines@))),
                previous_kept == (i == 0 || kept(all, chosen, i - 1)),
            decreases self.lines.len() - i,
        {
            let line = &self.lines[i];
            assert(line@ == all[i as int]);
            let picked = is_picked(selection, i);
            let keep = if line.is_note() {
                previous_kept
            } else {
                line.kind != LineKind::Addition || picked
            };
            if keep {
                let written = line.written(picked);
                proof {
                    let next = line_views(lines@).push(written@);
                    assert(line_views(lines@.push(written)) =~= next);
                    assert(next.drop_last() =~= line_views(lines@));
                }
                if old_lines < u32::MAX && (written.kind == LineKind::Removal || (written.kind
                    == LineKind::Context && !written.is_note())) {
                    old_lines += 1;
                }
                if new_lines < u32::MAX && (written.kind == LineKind::Addition || (written.kind
                    == LineKind::Context && !written.is_note())) {
                    new_lines += 1;
                }
                lines.push(written);
            }
            previous_kept = keep;
            i += 1;
        }
        Hunk {
            old_file: copy_bytes(self.old_file.as_slice()),
            new_file: copy_bytes(self.new_file.as_slice()),
            header: HunkHeader {
                old_start: self.header.old_start,
                old_lines,
                new_start: self.header.new_start,
                new_lines,
            },
            suffix: copy_bytes(self.suffix.as_slice()),
            lines,
        }
    }

    /// The whole hunk as a patch of its own. The header line holds the four
    /// numbers of the hunk as they are, and always both counts: a header
    /// that was read as `@@ -1 +1 @@` is written as `@@ -1,1 +1,1 @@`.
    pub fn write_patch(&self) -> (out: Vec<u8>)
        ensures
            out@ == patch_text(self@),
    {
        let ghost head = patch_head(self@);
        let mut out: Vec<u8> = Vec::new();
        append_bytes(&mut out, "--- a/".as_bytes());
        append_bytes(&mut out, self.old_file.as_slice());
        out.push(NEWLINE);
        append_bytes(&mut out, "+++ b/".as_bytes());
        append_bytes(&mut out, self.new_file.as_slice());
        out.push(NEWLINE);
        push_header(&mut out, &self.header, self.suffix.as_slice());
        out.push(NEWLINE);
        proof {
            let none = Seq::<Seq<u8>>::empty();
            lemma_join_push(none, head[0]);
            lemma_join_push(none.push(head[0]), head[1]);
            lemma_join_push(none.push(head[0]).push(head[1]), head[2]);
            assert(none.push(head[0]).push(head[1]).push(head[2]) =~= head);
            assert(out@ =~= join_lines(head));
            assert(contents(self@.lines.take(0)) =~= Seq::<Seq<u8>>::empty());
            assert(head + contents(self@.lines.take(0)) =~= head);
        }
        let mut i: usize = 0;
        while i < self.lines.len()
            invariant
                i <= self.lines.len(),
                head == patch_head(self@),
                out@ == join_lines(head + contents(self@.lines.take(i as int))),
            decreases self.lines.len() - i,
        {
            proof {
                let before = head + contents(self@.lines.take(i as int));
                let content = self.lines@[i as int].content@;
                lemma_join_push(before, content);
                assert(before.push(content) =~= head + contents(self@.lines.take(i + 1)));
            }
            append_bytes(&mut out, self.lines[i].content.as_slice());
            out.push(NEWLINE);
            i += 1;
        }
        assert(self@.lines.take(i as int) =~= self@.lines);
        out
    }

    /// The hunk as a patch of its own. Without a selection the whole hunk
    /// is written, with the four numbers of its header as they are; with
    /// one, only the changes that it names by the index of their line, and
    /// the counts of the header are those of the lines that are written.
    /// The header line always holds both counts: what was read as
    /// `@@ -1 +1 @@` is written as `@@ -1,1 +1,1 @@`.
    pub fn format_patch(&self, selection: Option<&[usize]>) -> (out: Vec<u8>)
        ensures
            out@ == match selection {
                None => patch_text(self@),
                Some(s) => patch_text(restricted_hunk(self@, picks(s@))),
            },
    {
        match selection {
            None => self.write_patch(),
            Some(s) => self.restrict(s).write_patch(),
        }
    }

    /// The line of the new file at which the first change of the hunk
    /// stands.
    pub fn first_diff_line(&self) -> (line: u32)
        ensures
            line == first_change_line(self@),
            no_change(self@.lines) ==> line == self.header.new_start,
            forall|i: int|
                is_first_change(self@.lines, i) ==> line == capped(
                    (self.header.new_start + i) as nat,
                ),
    {
        let mut i: usize = 0;
        while i < self.lines.len()
            invariant
                i <= self.lines.len(),
                forall|j: int| 0 <= j < i ==> (#[trigger] self@.lines[j]).kind == LineKind::Context,
            decreases self.lines.len() - i,
        {
            if self.lines[i].kind != LineKind::Context {
                assert(self@.lines[i as int].kind != LineKind::Context);
                assert(is_first_change(self@.lines, i as int));
                assert forall|k: int| is_first_change(self@.lines, k) implies k == i by {
                    if k < i {
                        assert(self@.lines[k].kind == LineKind::Context);
                    } else if k > i {
                        assert(self@.lines[i as int].kind == LineKind::Context);
                    }
                }
                assert(!no_change(self@.lines));
                assert((choose|k: int| is_first_change(self@.lines, k)) == i);
                let room = u32::MAX - self.header.new_start;
                return if i > room as usize {
                    u32::MAX
                } else {
                    self.header.new_start + i as u32
                };
            }
            i += 1;
        }
        assert forall|k: int| !is_first_change(self@.lines, k) by {
            if 0 <= k < self@.lines.len() {
                assert(self@.lines[k].kind == LineKind::Context);
            }
        }
        assert(no_change(self@.lines));
        self.header.new_start
    }
}

impl Line {
    /// A copy of the line.
    pub fn duplicate(&self) -> (out: Line)
        ensures
            out@ == self@,
    {
        Line { kind: self.kind, content: copy_bytes(self.content.as_slice()) }
    }
}

impl Hunk {
    /// A copy of the hunk.
    pub fn duplicate(&self) -> (out: Hunk)
        ensures
            out@ == self@,
    {
        let mut lines: Vec<Line> = Vec::new();
        let mut i: usize = 0;
        while i < self.lines.len()
            invariant
                i <= self.lines.len(),
                lines.len() == i,
                forall|k: int| 0 <= k < i ==> lines@[k]@ == self.lines@[k]@,
            decreases self.lines.len() - i,
        {
            lines.push(self.lines[i].duplicate());
            i += 1;
        }
        assert(line_views(lines@) =~= line_views(self.lines@));
        Hunk {
            old_file: copy_bytes(self.old_file.as_slice()),
            new_file: copy_bytes(self.new_file.as_slice()),
            header: self.header,
            suffix: copy_bytes(self.suffix.as_slice()),
            lines,
        }
    }
}

impl Delta {
    /// A copy of the delta.
    pub fn duplicate(&self) -> (out: Delta)
        ensures
            out@ == self@,
    {
        let mut hunks: Vec<Hunk> = Vec::new();
        let mut i: usize = 0;
        while i < self.hunks.len()
            invariant
                i <= self.hunks.len(),
                hunks.len() == i,
                forall|k: int| 0 <= k < i ==> hunks@[k]@ == self.hunks@[k]@,
            decreases self.hunks.len() - i,
        {
            hunks.push(self.hunks[i].duplicate());
            i += 1;
        }
        assert(hunk_views(hunks@) =~= hunk_views(self.hunks@));
        let opaque = match &self.opaque {
            Some(text) => Some(copy_bytes(text.as_slice())),
            None => None,
        };
        Delta {
            old_file: copy_bytes(self.old_file.as_slice()),
            new_file: copy_bytes(self.new_file.as_slice()),
            status: self.status,
            hunks,
            opaque,
        }
    }
}

} // verus!
