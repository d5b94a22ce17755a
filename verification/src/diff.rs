//! Reading unified-diff text into deltas.
//!
//! The text is read line by line. A line `diff --git ...` opens the block of
//! a file wherever it stands; a line `--- ...` opens one where no block is
//! open. Inside a block the lines before the first hunk header name the
//! paths and the kind of change. A line that starts with `@@` is a hunk
//! header; every line behind it, up to the next header or block, is a line
//! of that hunk. Reading never fails: a line that is not understood is
//! kept as context or passed over, and a block with a header that cannot be
//! read is kept as that header line alone.

use crate::patch::{
    classify, classify_line, contents, delta_views, header_of, header_text, hunk_views,
    lemma_header_marks, lemma_header_round_trip, lemma_header_starts, line_views,
    parse_hunk_header, patch_head, patch_lines, patch_text, range_at, Delta, DeltaStatus,
    DeltaView, Hunk, HunkHeader, HunkView, Line, LineView,
};
use crate::text::{
    bytes_eq, copy_bytes, decimal, digits_end, has_prefix, is_digit, lemma_decimal,
    lemma_digits_end, lemma_lines_from_join, lemma_lines_single, lines_of, lit, rows,
    single_line, split_lines, starts_with, starts_with_at, COMMA, NEWLINE,
};
use vstd::prelude::*;
use vstd::slice::*;

verus! {

/// Where the reader stands in the text.
#[derive(Clone, Copy, Debug, PartialEq, Eq, Structural)]
pub enum Mode {
    /// No block is open.
    Outside,
    /// In the header lines of a block, before its first hunk.
    Header,
    /// In the lines of a hunk.
    Body,
    /// In a block that is passed over.
    Skipped,
}

/// The state of the reader between two lines.
pub struct ReaderView {
    /// The deltas of the blocks that are closed.
    pub done: Seq<DeltaView>,
    /// The delta of the open block, with the hunks that are closed.
    pub delta: DeltaView,
    /// The open hunk.
    pub hunk: HunkView,
    pub mode: Mode,
}

/// A header of zeros.
pub open spec fn blank_header() -> HunkHeader {
    HunkHeader { old_start: 0, old_lines: 0, new_start: 0, new_lines: 0 }
}

/// A hunk that holds nothing.
pub open spec fn blank_hunk() -> HunkView {
    HunkView {
        old_file: Seq::empty(),
        new_file: Seq::empty(),
        header: blank_header(),
        suffix: Seq::empty(),
        lines: Seq::empty(),
    }
}

/// A delta that holds nothing.
pub open spec fn blank_delta() -> DeltaView {
    DeltaView {
        old_file: Seq::empty(),
        new_file: Seq::empty(),
        status: DeltaStatus::Modified,
        hunks: Seq::empty(),
        opaque: None,
    }
}

/// The state before the first line.
pub open spec fn start() -> ReaderView {
    ReaderView { done: Seq::empty(), delta: blank_delta(), hunk: blank_hunk(), mode: Mode::Outside }
}

/// What stands in `line` behind a prefix of the length of `prefix`.
pub open spec fn after(line: Seq<u8>, prefix: Seq<u8>) -> Seq<u8> {
    line.skip(prefix.len() as int)
}

/// `s` without `prefix` where it begins with it, else `s`.
pub open spec fn without_prefix(s: Seq<u8>, prefix: Seq<u8>) -> Seq<u8> {
    if has_prefix(s, prefix) {
        after(s, prefix)
    } else {
        s
    }
}

/// The path `P` of a line `diff --git a/P b/P`. Empty where the line names
/// two different paths or has another form: the lines that follow then
/// name the paths.
pub open spec fn git_line_path(line: Seq<u8>) -> Seq<u8> {
    let rest = after(line, lit("diff --git a/"));
    let mark = lit(" b/");
    let n = (rest.len() - mark.len()) / 2;
    if has_prefix(line, lit("diff --git a/")) && rest.len() >= mark.len() && rest.len() == 2 * n
        + mark.len() && has_prefix(rest.skip(n), mark) && rest.take(n) == rest.skip(
        n + mark.len(),
    ) {
        rest.take(n)
    } else {
        Seq::empty()
    }
}

/// The delta after a header line of its block.
pub open spec fn header_line(d: DeltaView, line: Seq<u8>) -> DeltaView {
    if has_prefix(line, lit("--- ")) {
        if after(line, lit("--- ")) == lit("/dev/null") {
            DeltaView { status: DeltaStatus::Added, ..d }
        } else {
            DeltaView { old_file: without_prefix(after(line, lit("--- ")), lit("a/")), ..d }
        }
    } else if has_prefix(line, lit("+++ ")) {
        if after(line, lit("+++ ")) == lit("/dev/null") {
            DeltaView { status: DeltaStatus::Deleted, ..d }
        } else {
            DeltaView { new_file: without_prefix(after(line, lit("+++ ")), lit("b/")), ..d }
        }
    } else if has_prefix(line, lit("rename from ")) {
        DeltaView { old_file: after(line, lit("rename from ")), status: DeltaStatus::Renamed, ..d }
    } else if has_prefix(line, lit("rename to ")) {
        DeltaView { new_file: after(line, lit("rename to ")), status: DeltaStatus::Renamed, ..d }
    } else if has_prefix(line, lit("copy from ")) {
        DeltaView { old_file: after(line, lit("copy from ")), status: DeltaStatus::Copied, ..d }
    } else if has_prefix(line, lit("copy to ")) {
        DeltaView { new_file: after(line, lit("copy to ")), status: DeltaStatus::Copied, ..d }
    } else if has_prefix(line, lit("new file mode")) {
        DeltaView { status: DeltaStatus::Added, ..d }
    } else if has_prefix(line, lit("deleted file mode")) {
        DeltaView { status: DeltaStatus::Deleted, ..d }
    } else {
        d
    }
}

/// The delta as it leaves the reader: one whose paths differ and that no
/// line called anything else is a rename.
pub open spec fn sealed(d: DeltaView) -> DeltaView {
    if d.status == DeltaStatus::Modified && d.old_file != d.new_file {
        DeltaView { status: DeltaStatus::Renamed, ..d }
    } else {
        d
    }
}

/// The hunks of the open block, the open hunk included.
pub open spec fn hunks_so_far(st: ReaderView) -> Seq<HunkView> {
    if st.mode == Mode::Body {
        st.delta.hunks.push(st.hunk)
    } else {
        st.delta.hunks
    }
}

/// The deltas that the reader holds, the open block included.
pub open spec fn finished(st: ReaderView) -> Seq<DeltaView> {
    if st.mode == Mode::Outside {
        st.done
    } else {
        st.done.push(sealed(DeltaView { hunks: hunks_so_far(st), ..st.delta }))
    }
}

/// The state after a line that starts with `@@`, inside a block.
pub open spec fn hunk_line(st: ReaderView, line: Seq<u8>) -> ReaderView {
    match header_of(line) {
        Some((header, suffix)) => ReaderView {
            done: st.done,
            delta: DeltaView { hunks: hunks_so_far(st), ..st.delta },
            hunk: HunkView {
                old_file: st.delta.old_file,
                new_file: st.delta.new_file,
                header,
                suffix,
                lines: Seq::empty(),
            },
            mode: Mode::Body,
        },
        None => ReaderView {
            done: st.done,
            delta: DeltaView { hunks: Seq::empty(), opaque: Some(line), ..st.delta },
            hunk: blank_hunk(),
            mode: Mode::Skipped,
        },
    }
}

/// The state after one more line.
#[verifier::opaque]
pub open spec fn step(st: ReaderView, line: Seq<u8>) -> ReaderView {
    if has_prefix(line, lit("diff --git ")) {
        ReaderView {
            done: finished(st),
            delta: DeltaView {
                old_file: git_line_path(line),
                new_file: git_line_path(line),
                ..blank_delta()
            },
            hunk: blank_hunk(),
            mode: Mode::Header,
        }
    } else {
        match st.mode {
            Mode::Outside => if has_prefix(line, lit("--- ")) {
                ReaderView { delta: header_line(blank_delta(), line), mode: Mode::Header, ..st }
            } else {
                st
            },
            Mode::Header => if has_prefix(line, lit("@@")) {
                hunk_line(st, line)
            } else {
                ReaderView { delta: header_line(st.delta, line), ..st }
            },
            Mode::Body => if has_prefix(line, lit("@@")) {
                hunk_line(st, line)
            } else {
                ReaderView {
                    hunk: HunkView {
                        lines: st.hunk.lines.push(
                            LineView { kind: classify(line), content: line },
                        ),
                        ..st.hunk
                    },
                    ..st
                }
            },
            Mode::Skipped => st,
        }
    }
}

/// The state after the given lines.
pub open spec fn feed_all(st: ReaderView, lines: Seq<Seq<u8>>) -> ReaderView
    decreases lines.len(),
{
    if lines.len() == 0 {
        st
    } else {
        feed_all(step(st, lines[0]), lines.drop_first())
    }
}

/// The deltas that a diff text holds.
pub open spec fn parsed(text: Seq<u8>) -> Seq<DeltaView> {
    finished(feed_all(start(), lines_of(text)))
}

/// The reader between two lines.
struct Reader {
    done: Vec<Delta>,
    delta: Delta,
    hunk: Hunk,
    mode: Mode,
}

impl View for Reader {
    type V = ReaderView;

    closed spec fn view(&self) -> ReaderView {
        ReaderView {
            done: delta_views(self.done@),
            delta: self.delta@,
            hunk: self.hunk@,
            mode: self.mode,
        }
    }
}

fn new_hunk() -> (h: Hunk)
    ensures
        h@ == blank_hunk(),
{
    let h = Hunk {
        old_file: Vec::new(),
        new_file: Vec::new(),
        header: HunkHeader { old_start: 0, old_lines: 0, new_start: 0, new_lines: 0 },
        suffix: Vec::new(),
        lines: Vec::new(),
    };
    assert(h@.lines =~= Seq::<LineView>::empty());
    h
}

fn new_delta() -> (d: Delta)
    ensures
        d@ == blank_delta(),
{
    let d = Delta {
        old_file: Vec::new(),
        new_file: Vec::new(),
        status: DeltaStatus::Modified,
        hunks: Vec::new(),
        opaque: None,
    };
    assert(d@.hunks =~= Seq::<HunkView>::empty());
    d
}

/// The part of `line` behind `prefix`, where `line` begins with it.
fn rest_after<'a>(line: &'a [u8], prefix: &[u8]) -> (rest: Option<&'a [u8]>)
    ensures
        rest.is_some() == has_prefix(line@, prefix@),
        rest.is_some() ==> rest.unwrap()@ == after(line@, prefix@),
{
    if starts_with(line, prefix) {
        Some(slice_subrange(line, prefix.len(), line.len()))
    } else {
        None
    }
}

/// An owned copy of `s` without `prefix`.
fn copy_without_prefix(s: &[u8], prefix: &[u8]) -> (out: Vec<u8>)
    ensures
        out@ == without_prefix(s@, prefix@),
{
    match rest_after(s, prefix) {
        Some(rest) => copy_bytes(rest),
        None => copy_bytes(s),
    }
}

/// Reads the path of a `diff --git` line.
fn read_git_line_path(line: &[u8]) -> (path: Vec<u8>)
    ensures
        path@ == git_line_path(line@),
{
    let mark = " b/".as_bytes();
    let rest = match rest_after(line, "diff --git a/".as_bytes()) {
        Some(rest) => rest,
        None => {
            return Vec::new();
        },
    };
    if rest.len() < mark.len() {
        return Vec::new();
    }
    let n = (rest.len() - mark.len()) / 2;
    if rest.len() - mark.len() != 2 * n {
        return Vec::new();
    }
    if !starts_with_at(rest, n, mark) {
        return Vec::new();
    }
    let first = slice_subrange(rest, 0, n);
    let second = slice_subrange(rest, n + mark.len(), rest.len());
    if bytes_eq(first, second) {
        copy_bytes(first)
    } else {
        Vec::new()
    }
}

/// Reads one header line of a block into its delta.
fn read_header_line(delta: Delta, line: &[u8]) -> (out: Delta)
    ensures
        out@ == header_line(delta@, line@),
{
    let mut delta = delta;
    if let Some(path) = rest_after(line, "--- ".as_bytes()) {
        if bytes_eq(path, "/dev/null".as_bytes()) {
            delta.status = DeltaStatus::Added;
        } else {
            delta.old_file = copy_without_prefix(path, "a/".as_bytes());
        }
    } else if let Some(path) = rest_after(line, "+++ ".as_bytes()) {
        if bytes_eq(path, "/dev/null".as_bytes()) {
            delta.status = DeltaStatus::Deleted;
        } else {
            delta.new_file = copy_without_prefix(path, "b/".as_bytes());
        }
    } else if let Some(path) = rest_after(line, "rename from ".as_bytes()) {
        delta.old_file = copy_bytes(path);
        delta.status = DeltaStatus::Renamed;
    } else if let Some(path) = rest_after(line, "rename to ".as_bytes()) {
        delta.new_file = copy_bytes(path);
        delta.status = DeltaStatus::Renamed;
    } else if let Some(path) = rest_after(line, "copy from ".as_bytes()) {
        delta.old_file = copy_bytes(path);
        delta.status = DeltaStatus::Copied;
    } else if let Some(path) = rest_after(line, "copy to ".as_bytes()) {
        delta.new_file = copy_bytes(path);
        delta.status = DeltaStatus::Copied;
    } else if starts_with(line, "new file mode".as_bytes()) {
        delta.status = DeltaStatus::Added;
    } else if starts_with(line, "deleted file mode".as_bytes()) {
        delta.status = DeltaStatus::Deleted;
    }
    delta
}

/// Closes the open hunk, where there is one, into the delta.
fn take_hunks(delta: Delta, hunk: Hunk, mode: Mode) -> (out: Delta)
    ensures
        out@ == (DeltaView {
            hunks: hunks_so_far(
                ReaderView { done: Seq::empty(), delta: delta@, hunk: hunk@, mode },
            ),
            ..delta@
        }),
{
    let mut delta = delta;
    if mode == Mode::Body {
        proof {
            assert(hunk_views(delta.hunks@.push(hunk)) =~= hunk_views(delta.hunks@).push(hunk@));
        }
        delta.hunks.push(hunk);
    }
    delta
}

/// Gives a delta the status it leaves the reader with.
fn seal(delta: Delta) -> (out: Delta)
    ensures
        out@ == sealed(delta@),
{
    let mut delta = delta;
    if delta.status == DeltaStatus::Modified && !bytes_eq(
        delta.old_file.as_slice(),
        delta.new_file.as_slice(),
    ) {
        delta.status = DeltaStatus::Renamed;
    }
    delta
}

/// The deltas that the reader holds, the open block included.
fn finish(reader: Reader) -> (deltas: Vec<Delta>)
    ensures
        delta_views(deltas@) == finished(reader@),
{
    let Reader { done, delta, hunk, mode } = reader;
    let mut done = done;
    if mode != Mode::Outside {
        let delta = seal(take_hunks(delta, hunk, mode));
        proof {
            assert(delta_views(done@.push(delta)) =~= delta_views(done@).push(delta@));
        }
        done.push(delta);
    }
    done
}

/// Reads a line that starts with `@@` inside a block.
fn read_hunk_line(reader: Reader, line: &[u8]) -> (out: Reader)
    requires
        reader.mode == Mode::Header || reader.mode == Mode::Body,
    ensures
        out@ == hunk_line(reader@, line@),
{
    let Reader { done, delta, hunk, mode } = reader;
    match parse_hunk_header(line) {
        Some((header, suffix)) => {
            let delta = take_hunks(delta, hunk, mode);
            let hunk = Hunk {
                old_file: copy_bytes(delta.old_file.as_slice()),
                new_file: copy_bytes(delta.new_file.as_slice()),
                header,
                suffix,
                lines: Vec::new(),
            };
            assert(hunk@.lines =~= Seq::<LineView>::empty());
            Reader { done, delta, hunk, mode: Mode::Body }
        },
        None => {
            let mut delta = delta;
            delta.hunks = Vec::new();
            delta.opaque = Some(copy_bytes(line));
            assert(delta@.hunks =~= Seq::<HunkView>::empty());
            Reader { done, delta, hunk: new_hunk(), mode: Mode::Skipped }
        },
    }
}

/// Reads one more line.
fn feed(reader: Reader, line: &[u8]) -> (out: Reader)
    ensures
        out@ == step(reader@, line@),
{
    proof {
        reveal(step);
    }
    if starts_with(line, "diff --git ".as_bytes()) {
        let done = finish(reader);
        let mut delta = new_delta();
        delta.old_file = read_git_line_path(line);
        delta.new_file = read_git_line_path(line);
        return Reader { done, delta, hunk: new_hunk(), mode: Mode::Header };
    }
    match reader.mode {
        Mode::Outside => {
            if starts_with(line, "--- ".as_bytes()) {
                let Reader { done, delta, hunk, mode } = reader;
                Reader {
                    done,
                    delta: read_header_line(new_delta(), line),
                    hunk,
                    mode: Mode::Header,
                }
            } else {
                reader
            }
        },
        Mode::Header => {
            if starts_with(line, "@@".as_bytes()) {
                read_hunk_line(reader, line)
            } else {
                let Reader { done, delta, hunk, mode } = reader;
                Reader { done, delta: read_header_line(delta, line), hunk, mode }
            }
        },
        Mode::Body => {
            if starts_with(line, "@@".as_bytes()) {
                read_hunk_line(reader, line)
            } else {
                let Reader { done, delta, hunk, mode } = reader;
                let mut hunk = hunk;
                let entry = Line { kind: classify_line(line), content: copy_bytes(line) };
                proof {
                    assert(line_views(hunk.lines@.push(entry)) =~= line_views(hunk.lines@).push(
                        entry@,
                    ));
                }
                hunk.lines.push(entry);
                Reader { done, delta, hunk, mode }
            }
        },
        Mode::Skipped => reader,
    }
}

/// Reads a diff text into the deltas it holds, in their order.
pub fn parse_diff(text: &[u8]) -> (deltas: Vec<Delta>)
    ensures
        delta_views(deltas@) == parsed(text@),
{
    let lines = split_lines(text);
    let done: Vec<Delta> = Vec::new();
    assert(delta_views(done@) =~= Seq::<DeltaView>::empty());
    let mut reader = Reader { done, delta: new_delta(), hunk: new_hunk(), mode: Mode::Outside };
    let mut i: usize = 0;
    assert(rows(lines@).skip(0) =~= rows(lines@));
    while i < lines.len()
        invariant
            i <= lines.len(),
            rows(lines@) == lines_of(text@),
            feed_all(start(), lines_of(text@)) == feed_all(reader@, rows(lines@).skip(i as int)),
        decreases lines.len() - i,
    {
        proof {
            let remaining = rows(lines@).skip(i as int);
            assert(remaining[0] == lines@[i as int]@);
            assert(remaining.drop_first() =~= rows(lines@).skip(i + 1));
        }
        reader = feed(reader, lines[i].as_slice());
        i += 1;
    }
    finish(reader)
}

/// Whether a line can stand in a hunk and be read back as it is: it holds
/// no line end, its kind is the one its first byte gives it, and it does
/// not look like a hunk header or the first line of a block.
pub open spec fn line_reads_back(l: LineView) -> bool {
    &&& single_line(l.content)
    &&& l.kind == classify(l.content)
    &&& !has_prefix(l.content, lit("@@"))
    &&& !has_prefix(l.content, lit("diff --git "))
}

/// Whether a hunk can be written and read back as it is: its paths and the
/// text behind its header hold no line end, and each line reads back.
pub open spec fn hunk_reads_back(h: HunkView) -> bool {
    &&& single_line(h.old_file)
    &&& single_line(h.new_file)
    &&& single_line(h.suffix)
    &&& forall|i: int| 0 <= i < h.lines.len() ==> line_reads_back(#[trigger] h.lines[i])
}

/// The delta that the patch of a hunk reads as.
pub open spec fn delta_of_hunk(h: HunkView) -> DeltaView {
    DeltaView {
        old_file: h.old_file,
        new_file: h.new_file,
        status: if h.old_file == h.new_file {
            DeltaStatus::Modified
        } else {
            DeltaStatus::Renamed
        },
        hunks: seq![h],
        opaque: None,
    }
}

/// The bytes of the words that the reader looks for.
proof fn lemma_words()
    ensures
        lit("diff --git ").len() == 11,
        lit("diff --git ")[0] == 100,
        lit("--- ") == seq![45u8, 45u8, 45u8, 32u8],
        lit("+++ ") == seq![43u8, 43u8, 43u8, 32u8],
        lit("--- a/") == seq![45u8, 45u8, 45u8, 32u8, 97u8, 47u8],
        lit("+++ b/") == seq![43u8, 43u8, 43u8, 32u8, 98u8, 47u8],
        lit("a/") == seq![97u8, 47u8],
        lit("b/") == seq![98u8, 47u8],
        lit("@@") == seq![64u8, 64u8],
        lit("/dev/null").len() == 9,
        lit("/dev/null")[0] == 47,
{
    reveal_strlit("diff --git ");
    reveal_strlit("--- ");
    reveal_strlit("+++ ");
    reveal_strlit("--- a/");
    reveal_strlit("+++ b/");
    reveal_strlit("a/");
    reveal_strlit("b/");
    reveal_strlit("@@");
    reveal_strlit("/dev/null");
    assert(vstd::string::is_ascii("diff --git "));
    assert(vstd::string::is_ascii("--- "));
    assert(vstd::string::is_ascii("+++ "));
    assert(vstd::string::is_ascii("--- a/"));
    assert(vstd::string::is_ascii("+++ b/"));
    assert(vstd::string::is_ascii("a/"));
    assert(vstd::string::is_ascii("b/"));
    assert(vstd::string::is_ascii("@@"));
    assert(vstd::string::is_ascii("/dev/null"));
    assert(lit("--- ") =~= seq![45u8, 45u8, 45u8, 32u8]);
    assert(lit("+++ ") =~= seq![43u8, 43u8, 43u8, 32u8]);
    assert(lit("--- a/") =~= seq![45u8, 45u8, 45u8, 32u8, 97u8, 47u8]);
    assert(lit("+++ b/") =~= seq![43u8, 43u8, 43u8, 32u8, 98u8, 47u8]);
    assert(lit("a/") =~= seq![97u8, 47u8]);
    assert(lit("b/") =~= seq![98u8, 47u8]);
    assert(lit("@@") =~= seq![64u8, 64u8]);
}

/// The header line of a hunk holds no line end where the text behind the
/// header holds none.
proof fn lemma_header_single_line(h: HunkHeader, suffix: Seq<u8>)
    requires
        single_line(suffix),
    ensures
        single_line(header_text(h, suffix)),
{
    lemma_header_marks();
    lemma_decimal(h.old_start as nat);
    lemma_decimal(h.old_lines as nat);
    lemma_decimal(h.new_start as nat);
    lemma_decimal(h.new_lines as nat);
    let a = decimal(h.old_start as nat);
    let b = decimal(h.old_lines as nat);
    let c = decimal(h.new_start as nat);
    let d = decimal(h.new_lines as nat);
    assert(single_line(a)) by {
        assert forall|i: int| 0 <= i < a.len() implies a[i] != NEWLINE by {
            assert(is_digit(a[i]));
        }
    }
    assert(single_line(b)) by {
        assert forall|i: int| 0 <= i < b.len() implies b[i] != NEWLINE by {
            assert(is_digit(b[i]));
        }
    }
    assert(single_line(c)) by {
        assert forall|i: int| 0 <= i < c.len() implies c[i] != NEWLINE by {
            assert(is_digit(c[i]));
        }
    }
    assert(single_line(d)) by {
        assert forall|i: int| 0 <= i < d.len() implies d[i] != NEWLINE by {
            assert(is_digit(d[i]));
        }
    }
    let upto_a = lit("@@ -") + a;
    assert(single_line(upto_a));
    let upto_b = upto_a + seq![COMMA] + b;
    assert(single_line(upto_b));
    let upto_c = upto_b + lit(" +") + c;
    assert(single_line(upto_c));
    let upto_d = upto_c + seq![COMMA] + d;
    assert(single_line(upto_d));
    let whole = upto_d + lit(" @@") + suffix;
    assert(single_line(whole));
    assert(whole =~= header_text(h, suffix));
}

/// A line that starts with none of `d` is not the first line of a block.
proof fn lemma_not_git_line(line: Seq<u8>)
    requires
        line.len() > 0,
        line[0] != 100,
    ensures
        !has_prefix(line, lit("diff --git ")),
{
    lemma_words();
    if has_prefix(line, lit("diff --git ")) {
        assert(line.take(11)[0] == lit("diff --git ")[0]);
    }
}

/// The first line of a patch opens a block and names the old path.
proof fn lemma_feed_old_path(path: Seq<u8>)
    ensures
        step(start(), lit("--- a/") + path) == (ReaderView {
            delta: DeltaView { old_file: path, ..blank_delta() },
            mode: Mode::Header,
            ..start()
        }),
{
    reveal(step);
    lemma_words();
    let line = lit("--- a/") + path;
    assert(line[0] == 45);
    lemma_not_git_line(line);
    assert(line.take(4) =~= lit("--- "));
    let p = lit("a/") + path;
    assert(after(line, lit("--- ")) =~= p);
    assert(p[0] == 97);
    assert(p != lit("/dev/null"));
    assert(p.take(2) =~= lit("a/"));
    assert(p.skip(2) =~= path);
    assert(header_line(blank_delta(), line) == (DeltaView { old_file: path, ..blank_delta() }));
}

/// The second line of a patch names the new path.
proof fn lemma_feed_new_path(st: ReaderView, path: Seq<u8>)
    requires
        st.mode == Mode::Header,
    ensures
        step(st, lit("+++ b/") + path) == (ReaderView {
            delta: DeltaView { new_file: path, ..st.delta },
            ..st
        }),
{
    reveal(step);
    lemma_words();
    let line = lit("+++ b/") + path;
    assert(line[0] == 43);
    lemma_not_git_line(line);
    assert(!has_prefix(line, lit("@@"))) by {
        if has_prefix(line, lit("@@")) {
            assert(line.take(2)[0] == lit("@@")[0]);
        }
    }
    assert(!has_prefix(line, lit("--- "))) by {
        if has_prefix(line, lit("--- ")) {
            assert(line.take(4)[0] == lit("--- ")[0]);
        }
    }
    assert(line.take(4) =~= lit("+++ "));
    let p = lit("b/") + path;
    assert(after(line, lit("+++ ")) =~= p);
    assert(p[0] == 98);
    assert(p != lit("/dev/null"));
    assert(p.take(2) =~= lit("b/"));
    assert(p.skip(2) =~= path);
}

/// The header line of a hunk opens the hunk.
proof fn lemma_feed_header(st: ReaderView, h: HunkHeader, suffix: Seq<u8>)
    requires
        st.mode == Mode::Header,
    ensures
        step(st, header_text(h, suffix)) == (ReaderView {
            done: st.done,
            delta: st.delta,
            hunk: HunkView {
                old_file: st.delta.old_file,
                new_file: st.delta.new_file,
                header: h,
                suffix,
                lines: Seq::empty(),
            },
            mode: Mode::Body,
        }),
{
    let line = header_text(h, suffix);
    lemma_header_starts(h, suffix);
    lemma_header_round_trip(h, suffix);
    lemma_not_git_line(line);
    assert(has_prefix(line, lit("@@"))) by {
        lemma_words();
        assert(line.take(2) =~= lit("@@"));
    }
    assert(step(st, line) == hunk_line(st, line)) by {
        reveal(step);
    }
}

/// The state after the three lines that stand before the lines of a hunk
/// in its patch: the hunk is open, and holds no line yet.
#[verifier::rlimit(40)]
proof fn lemma_feed_head(h: HunkView)
    ensures
        feed_all(start(), patch_head(h)) == (ReaderView {
            done: Seq::empty(),
            delta: DeltaView { old_file: h.old_file, new_file: h.new_file, ..blank_delta() },
            hunk: HunkView { lines: Seq::empty(), ..h },
            mode: Mode::Body,
        }),
{
    let head = patch_head(h);
    let l1 = lit("--- a/") + h.old_file;
    let l2 = lit("+++ b/") + h.new_file;
    let l3 = header_text(h.header, h.suffix);
    let s0 = start();
    let d1 = DeltaView { old_file: h.old_file, ..blank_delta() };
    let s1 = ReaderView { delta: d1, mode: Mode::Header, ..s0 };
    let d2 = DeltaView { new_file: h.new_file, ..d1 };
    let s2 = ReaderView { delta: d2, ..s1 };
    let s3 = ReaderView {
        done: Seq::empty(),
        delta: d2,
        hunk: HunkView { lines: Seq::empty(), ..h },
        mode: Mode::Body,
    };
    assert(step(s0, l1) == s1) by {
        lemma_feed_old_path(h.old_file);
    }
    assert(step(s1, l2) == s2) by {
        lemma_feed_new_path(s1, h.new_file);
    }
    assert(step(s2, l3) == s3) by {
        lemma_feed_header(s2, h.header, h.suffix);
    }
    let t1 = head.drop_first();
    let t2 = t1.drop_first();
    let t3 = t2.drop_first();
    assert(head[0] == l1 && t1[0] == l2 && t2[0] == l3);
    assert(t3.len() == 0);
    assert(feed_all(s3, t3) == s3);
    assert(feed_all(s2, t2) == s3);
    assert(feed_all(s1, t1) == s3);
    assert(feed_all(s0, head) == s3);
}

/// Inside a hunk, lines that read back are added to the hunk as they are.
proof fn lemma_feed_body(st: ReaderView, lines: Seq<LineView>)
    requires
        st.mode == Mode::Body,
        forall|i: int| 0 <= i < lines.len() ==> line_reads_back(#[trigger] lines[i]),
    ensures
        feed_all(st, contents(lines)) == (ReaderView {
            hunk: HunkView { lines: st.hunk.lines + lines, ..st.hunk },
            ..st
        }),
    decreases lines.len(),
{
    if lines.len() == 0 {
        assert(st.hunk.lines + lines =~= st.hunk.lines);
    } else {
        reveal(step);
        let first = lines[0];
        let rest = lines.drop_first();
        assert(line_reads_back(first));
        let next = step(st, first.content);
        assert(contents(lines)[0] == first.content);
        assert(contents(lines).drop_first() =~= contents(rest));
        assert forall|i: int| 0 <= i < rest.len() implies line_reads_back(#[trigger] rest[i]) by {
            assert(rest[i] == lines[i + 1]);
        }
        lemma_feed_body(next, rest);
        assert(next.hunk.lines == st.hunk.lines.push(first));
        assert(st.hunk.lines.push(first) + rest =~= st.hunk.lines + lines);
    }
}

/// Feeding a text in two parts is feeding the whole.
proof fn lemma_feed_concat(st: ReaderView, a: Seq<Seq<u8>>, b: Seq<Seq<u8>>)
    ensures
        feed_all(st, a + b) == feed_all(feed_all(st, a), b),
    decreases a.len(),
{
    if a.len() == 0 {
        assert(a + b =~= b);
    } else {
        assert((a + b)[0] == a[0]);
        assert((a + b).drop_first() =~= a.drop_first() + b);
        lemma_feed_concat(step(st, a[0]), a.drop_first(), b);
    }
}

/// Reading the patch that was written for a whole hunk gives one delta
/// that holds this hunk alone, with the same paths, header and lines.
pub proof fn lemma_patch_round_trip(h: HunkView)
    requires
        hunk_reads_back(h),
    ensures
        parsed(patch_text(h)) == seq![delta_of_hunk(h)],
{
    lemma_words();
    let all = patch_lines(h);
    assert forall|i: int| 0 <= i < all.len() implies single_line(#[trigger] all[i]) by {
        if i == 0 {
            assert(single_line(lit("--- a/") + h.old_file));
        } else if i == 1 {
            assert(single_line(lit("+++ b/") + h.new_file));
        } else if i == 2 {
            lemma_header_single_line(h.header, h.suffix);
        } else {
            assert(all[i] == h.lines[i - 3].content);
            assert(line_reads_back(h.lines[i - 3]));
        }
    }
    lemma_lines_from_join(Seq::empty(), all);
    assert(Seq::<u8>::empty() + patch_text(h) =~= patch_text(h));
    assert(lines_of(patch_text(h)) == all);
    lemma_feed_head(h);
    let opened = feed_all(start(), patch_head(h));
    lemma_feed_concat(start(), patch_head(h), contents(h.lines));
    lemma_feed_body(opened, h.lines);
    let last = feed_all(start(), all);
    assert(last.hunk.lines =~= h.lines);
    assert(last.hunk == h);
    assert(last.delta.hunks.push(last.hunk) =~= seq![h]);
    assert(finished(last) =~= seq![delta_of_hunk(h)]);
}

/// Whether a delta is as the reader leaves one: an ordinary modification
/// has one path, a delta that could not be read holds no hunks, and every
/// hunk can be written and read back as it is.
pub open spec fn delta_settled(d: DeltaView) -> bool {
    &&& d.status == DeltaStatus::Modified ==> d.old_file == d.new_file
    &&& d.opaque is Some ==> d.hunks.len() == 0
    &&& forall|i: int| 0 <= i < d.hunks.len() ==> hunk_reads_back(#[trigger] d.hunks[i])
}

/// What holds of the reader between any two lines.
spec fn reader_settled(st: ReaderView) -> bool {
    &&& forall|i: int| 0 <= i < st.done.len() ==> delta_settled(#[trigger] st.done[i])
    &&& single_line(st.delta.old_file)
    &&& single_line(st.delta.new_file)
    &&& forall|i: int|
        0 <= i < st.delta.hunks.len() ==> hunk_reads_back(#[trigger] st.delta.hunks[i])
    &&& st.mode == Mode::Body ==> hunk_reads_back(st.hunk)
    &&& st.mode == Mode::Skipped ==> st.delta.hunks.len() == 0
    &&& st.mode != Mode::Skipped ==> st.delta.opaque is None
}

/// The deltas that a settled reader holds are settled.
proof fn lemma_finished_settled(st: ReaderView)
    requires
        reader_settled(st),
    ensures
        forall|i: int| 0 <= i < finished(st).len() ==> delta_settled(#[trigger] finished(st)[i]),
{
    if st.mode != Mode::Outside {
        let hunks = hunks_so_far(st);
        assert forall|i: int| 0 <= i < hunks.len() implies hunk_reads_back(#[trigger] hunks[i]) by {
            if i < st.delta.hunks.len() {
                assert(hunk_reads_back(st.delta.hunks[i]));
            }
        }
        let last = sealed(DeltaView { hunks, ..st.delta });
        assert(delta_settled(last));
        assert forall|i: int| 0 <= i < finished(st).len() implies delta_settled(
            #[trigger] finished(st)[i],
        ) by {
            if i < st.done.len() {
                assert(delta_settled(st.done[i]));
            }
        }
    }
}

/// What stands behind the start of a line without line end has none.
proof fn lemma_part_single(line: Seq<u8>, from: int, to: int)
    requires
        single_line(line),
        0 <= from <= to <= line.len(),
    ensures
        single_line(line.subrange(from, to)),
{
}

/// The paths that a header line names hold no line end.
proof fn lemma_header_line_settled(d: DeltaView, line: Seq<u8>)
    requires
        single_line(line),
        single_line(d.old_file),
        single_line(d.new_file),
    ensures
        single_line(header_line(d, line).old_file),
        single_line(header_line(d, line).new_file),
        header_line(d, line).hunks == d.hunks,
        header_line(d, line).opaque == d.opaque,
{
    assert forall|prefix: Seq<u8>| has_prefix(line, prefix) implies single_line(
        #[trigger] after(line, prefix),
    ) && single_line(without_prefix(after(line, prefix), lit("a/"))) && single_line(
        without_prefix(after(line, prefix), lit("b/")),
    ) by {
        let rest = after(line, prefix);
        lemma_part_single(line, prefix.len() as int, line.len() as int);
        if has_prefix(rest, lit("a/")) {
            lemma_part_single(rest, lit("a/").len() as int, rest.len() as int);
        }
        if has_prefix(rest, lit("b/")) {
            lemma_part_single(rest, lit("b/").len() as int, rest.len() as int);
        }
    }
}

/// One more line leaves a settled reader settled.
#[verifier::rlimit(40)]
proof fn lemma_step_settled(st: ReaderView, line: Seq<u8>)
    requires
        reader_settled(st),
        single_line(line),
    ensures
        reader_settled(step(st, line)),
{
    reveal(step);
    reveal(header_of);
    let next = step(st, line);
    if has_prefix(line, lit("diff --git ")) {
        lemma_finished_settled(st);
        let path = git_line_path(line);
        assert(single_line(path)) by {
            if has_prefix(line, lit("diff --git a/")) {
                let rest = after(line, lit("diff --git a/"));
                lemma_part_single(line, lit("diff --git a/").len() as int, line.len() as int);
                let n = (rest.len() - lit(" b/").len()) / 2;
                if 0 <= n <= rest.len() {
                    lemma_part_single(rest, 0, n);
                }
            }
        }
    } else {
        match st.mode {
            Mode::Outside => {
                if has_prefix(line, lit("--- ")) {
                    lemma_header_line_settled(blank_delta(), line);
                }
            },
            Mode::Header => {
                if has_prefix(line, lit("@@")) {
                    lemma_hunk_line_settled(st, line);
                } else {
                    lemma_header_line_settled(st.delta, line);
                }
            },
            Mode::Body => {
                if has_prefix(line, lit("@@")) {
                    lemma_hunk_line_settled(st, line);
                } else {
                    let added = LineView { kind: classify(line), content: line };
                    assert(line_reads_back(added));
                    assert forall|i: int| 0 <= i < next.hunk.lines.len() implies line_reads_back(
                        #[trigger] next.hunk.lines[i],
                    ) by {
                        if i < st.hunk.lines.len() {
                            assert(line_reads_back(st.hunk.lines[i]));
                        }
                    }
                }
            },
            Mode::Skipped => {},
        }
    }
}

/// A line that starts with `@@` leaves a settled reader settled.
proof fn lemma_hunk_line_settled(st: ReaderView, line: Seq<u8>)
    requires
        reader_settled(st),
        single_line(line),
        st.mode == Mode::Header || st.mode == Mode::Body,
    ensures
        reader_settled(hunk_line(st, line)),
{
    reveal(header_of);
    let next = hunk_line(st, line);
    match header_of(line) {
        Some((header, suffix)) => {
            assert(single_line(suffix)) by {
                assert(exists|k: int| 0 <= k <= line.len() && suffix == line.subrange(
                    k,
                    line.len() as int,
                )) by {
                    lemma_header_marks();
                    assert(line.len() >= 4);
                    let old = range_at(line, 4).unwrap();
                    lemma_digits_end(line, 4);
                    let e1 = digits_end(line, 4);
                    if e1 < line.len() {
                        lemma_digits_end(line, e1 + 1);
                    }
                    assert(4 <= old.end <= line.len());
                    assert(line.skip(old.end).len() == line.len() - old.end);
                    assert(old.end + 2 <= line.len());
                    let new = range_at(line, old.end + 2).unwrap();
                    lemma_digits_end(line, old.end + 2);
                    let e2 = digits_end(line, old.end + 2);
                    if e2 < line.len() {
                        lemma_digits_end(line, e2 + 1);
                    }
                    assert(old.end + 2 <= new.end <= line.len());
                    assert(line.skip(new.end).len() == line.len() - new.end);
                    assert(new.end + 3 <= line.len());
                    assert(suffix == line.subrange(new.end + 3, line.len() as int));
                }
            }
            let hunks = hunks_so_far(st);
            assert forall|i: int| 0 <= i < hunks.len() implies hunk_reads_back(
                #[trigger] hunks[i],
            ) by {
                if i < st.delta.hunks.len() {
                    assert(hunk_reads_back(st.delta.hunks[i]));
                }
            }
        },
        None => {},
    }
}

/// All the lines leave a settled reader settled.
proof fn lemma_feed_settled(st: ReaderView, lines: Seq<Seq<u8>>)
    requires
        reader_settled(st),
        forall|i: int| 0 <= i < lines.len() ==> single_line(#[trigger] lines[i]),
    ensures
        reader_settled(feed_all(st, lines)),
    decreases lines.len(),
{
    if lines.len() > 0 {
        assert(single_line(lines[0]));
        lemma_step_settled(st, lines[0]);
        let rest = lines.drop_first();
        assert forall|i: int| 0 <= i < rest.len() implies single_line(#[trigger] rest[i]) by {
            assert(rest[i] == lines[i + 1]);
        }
        lemma_feed_settled(step(st, lines[0]), rest);
    }
}

/// Every delta that is read from a text is settled: an ordinary
/// modification has one path, a delta that could not be read holds no
/// hunks, and the patch of every hunk reads back as that hunk.
pub proof fn lemma_parsed_settled(text: Seq<u8>)
    ensures
        forall|i: int| 0 <= i < parsed(text).len() ==> delta_settled(#[trigger] parsed(text)[i]),
{
    lemma_lines_single(text, 0);
    lemma_feed_settled(start(), lines_of(text));
    lemma_finished_settled(feed_all(start(), lines_of(text)));
}

/// The patch of any hunk that was read from a text reads back as that
/// hunk alone.
pub proof fn lemma_parsed_hunk_round_trip(text: Seq<u8>, delta: int, hunk: int)
    requires
        0 <= delta < parsed(text).len(),
        0 <= hunk < parsed(text)[delta].hunks.len(),
    ensures
        parsed(patch_text(parsed(text)[delta].hunks[hunk])) == seq![
            delta_of_hunk(parsed(text)[delta].hunks[hunk]),
        ],
{
    lemma_parsed_settled(text);
    assert(delta_settled(parsed(text)[delta]));
    lemma_patch_round_trip(parsed(text)[delta].hunks[hunk]);
}

} // verus!
