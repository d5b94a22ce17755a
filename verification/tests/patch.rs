use gitu::diff::parse_diff;
use gitu::patch::{
    classify_line, parse_hunk_header, push_header, Delta, DeltaStatus, Hunk, HunkHeader, Line,
    LineKind,
};

fn line(text: &[u8]) -> Line {
    Line { kind: classify_line(text), content: text.to_vec() }
}

fn header(old_start: u32, old_lines: u32, new_start: u32, new_lines: u32) -> HunkHeader {
    HunkHeader { old_start, old_lines, new_start, new_lines }
}

fn added_file() -> &'static [u8] {
    b"diff --git a/foo.txt b/foo.txt\nnew file mode 100644\nindex 0000000..1234567\n--- /dev/null\n+++ b/foo.txt\n@@ -0,0 +1,3 @@\n+a\n+b\n+c\n"
}

#[test]
fn lines_are_told_apart_by_their_first_byte() {
    assert_eq!(classify_line(b"+x"), LineKind::Addition);
    assert_eq!(classify_line(b"-x"), LineKind::Removal);
    assert_eq!(classify_line(b" x"), LineKind::Context);
    assert_eq!(classify_line(b""), LineKind::Context);
    assert_eq!(classify_line(b"\\ No newline at end of file"), LineKind::Context);
    assert_eq!(classify_line(b"odd"), LineKind::Context);
}

#[test]
fn hunk_header_with_both_counts() {
    let parsed = parse_hunk_header(b"@@ -12,3 +14,5 @@ fn main() {");
    assert_eq!(parsed, Some((header(12, 3, 14, 5), b" fn main() {".to_vec())));
}

#[test]
fn hunk_header_without_counts_means_one_line() {
    assert_eq!(parse_hunk_header(b"@@ -1 +1 @@"), Some((header(1, 1, 1, 1), b"".to_vec())));
    assert_eq!(parse_hunk_header(b"@@ -0,0 +1 @@"), Some((header(0, 0, 1, 1), b"".to_vec())));
}

#[test]
fn hunk_header_that_is_none() {
    assert_eq!(parse_hunk_header(b"@@ -x,3 +14,5 @@"), None);
    assert_eq!(parse_hunk_header(b"@@ -1,3 14,5 @@"), None);
    assert_eq!(parse_hunk_header(b"@@ -1,3 +14,5"), None);
    assert_eq!(parse_hunk_header(b"@@ -1, +14,5 @@"), None);
    assert_eq!(parse_hunk_header(b"@@@ -1,3 -1,3 +14,5 @@@"), None);
    assert_eq!(parse_hunk_header(b"@@ -4294967296,1 +1,1 @@"), None);
    assert_eq!(parse_hunk_header(b"+@@ -1 +1 @@"), None);
    assert_eq!(parse_hunk_header(b""), None);
}

#[test]
fn hunk_header_is_written_with_both_counts() {
    let mut out = Vec::new();
    push_header(&mut out, &header(1, 1, 7, 0), b" tail");
    assert_eq!(out, b"@@ -1,1 +7,0 @@ tail".to_vec());
}

#[test]
fn parse_an_added_file() {
    let deltas = parse_diff(added_file());
    assert_eq!(deltas.len(), 1);
    let delta = &deltas[0];
    assert_eq!(delta.old_file, b"foo.txt".to_vec());
    assert_eq!(delta.new_file, b"foo.txt".to_vec());
    assert_eq!(delta.status, DeltaStatus::Added);
    assert_eq!(delta.opaque, None);
    assert_eq!(delta.hunks.len(), 1);
    let hunk = &delta.hunks[0];
    assert_eq!(hunk.header, header(0, 0, 1, 3));
    assert_eq!(hunk.suffix, b"".to_vec());
    assert_eq!(hunk.old_file, b"foo.txt".to_vec());
    assert_eq!(hunk.new_file, b"foo.txt".to_vec());
    assert_eq!(hunk.lines, vec![line(b"+a"), line(b"+b"), line(b"+c")]);
}

#[test]
fn format_patch_of_a_three_line_addition() {
    let deltas = parse_diff(added_file());
    let text = deltas[0].hunks[0].format_patch(None);
    assert_eq!(text, b"--- a/foo.txt\n+++ b/foo.txt\n@@ -0,0 +1,3 @@\n+a\n+b\n+c\n".to_vec());
}

#[test]
fn patch_of_a_hunk_reads_back_as_the_hunk() {
    let text = b"diff --git a/src/lib.rs b/src/lib.rs\nindex 1..2 100644\n--- a/src/lib.rs\n+++ b/src/lib.rs\n@@ -3,4 +3,5 @@ mod x;\n ctx\n-old\n+new\n+more\n\n tail\n\\ No newline at end of file\n";
    let deltas = parse_diff(text);
    let hunk = &deltas[0].hunks[0];
    let again = parse_diff(&hunk.format_patch(None));
    assert_eq!(again.len(), 1);
    assert_eq!(again[0].hunks, vec![hunk.duplicate()]);
    assert_eq!(again[0].hunks[0].lines, hunk.lines);
    assert_eq!(again[0].hunks[0].header, header(3, 4, 3, 5));
    assert_eq!(again[0].status, DeltaStatus::Modified);
    assert_eq!(again[0].old_file, b"src/lib.rs".to_vec());
}

#[test]
fn patch_of_a_hunk_of_a_renamed_file_reads_back_as_a_rename() {
    let hunk = Hunk {
        old_file: b"a.txt".to_vec(),
        new_file: b"b.txt".to_vec(),
        header: header(1, 1, 1, 1),
        suffix: Vec::new(),
        lines: vec![line(b"-x"), line(b"+y")],
    };
    let again = parse_diff(&hunk.format_patch(None));
    assert_eq!(
        again,
        vec![Delta {
            old_file: b"a.txt".to_vec(),
            new_file: b"b.txt".to_vec(),
            status: DeltaStatus::Renamed,
            hunks: vec![hunk],
            opaque: None,
        }]
    );
}

#[test]
fn parse_two_files_and_two_hunks() {
    let text = b"diff --git a/one b/one\n--- a/one\n+++ b/one\n@@ -1 +1 @@\n-a\n+b\n@@ -9,2 +9,1 @@ ctx\n x\n-y\ndiff --git a/two b/two\ndeleted file mode 100644\n--- a/two\n+++ /dev/null\n@@ -1,1 +0,0 @@\n-gone";
    let deltas = parse_diff(text);
    assert_eq!(deltas.len(), 2);
    assert_eq!(deltas[0].status, DeltaStatus::Modified);
    assert_eq!(deltas[0].hunks.len(), 2);
    assert_eq!(deltas[0].hunks[0].header, header(1, 1, 1, 1));
    assert_eq!(deltas[0].hunks[0].lines, vec![line(b"-a"), line(b"+b")]);
    assert_eq!(deltas[0].hunks[1].header, header(9, 2, 9, 1));
    assert_eq!(deltas[0].hunks[1].suffix, b" ctx".to_vec());
    assert_eq!(deltas[0].hunks[1].lines, vec![line(b" x"), line(b"-y")]);
    assert_eq!(deltas[1].status, DeltaStatus::Deleted);
    assert_eq!(deltas[1].old_file, b"two".to_vec());
    assert_eq!(deltas[1].new_file, b"two".to_vec());
    assert_eq!(deltas[1].hunks[0].lines, vec![line(b"-gone")]);
}

#[test]
fn parse_a_rename_and_a_copy() {
    let text = b"diff --git a/old name b/new name\nsimilarity index 100%\nrename from old name\nrename to new name\ndiff --git a/x b/y\ncopy from x\ncopy to y\n";
    let deltas = parse_diff(text);
    assert_eq!(deltas.len(), 2);
    assert_eq!(deltas[0].status, DeltaStatus::Renamed);
    assert_eq!(deltas[0].old_file, b"old name".to_vec());
    assert_eq!(deltas[0].new_file, b"new name".to_vec());
    assert!(deltas[0].hunks.is_empty());
    assert_eq!(deltas[1].status, DeltaStatus::Copied);
    assert_eq!(deltas[1].old_file, b"x".to_vec());
    assert_eq!(deltas[1].new_file, b"y".to_vec());
}

#[test]
fn paths_with_blanks_are_read_from_the_first_line() {
    let deltas = parse_diff(b"diff --git a/my file b/my file\nold mode 100644\nnew mode 100755\n");
    assert_eq!(deltas.len(), 1);
    assert_eq!(deltas[0].old_file, b"my file".to_vec());
    assert_eq!(deltas[0].new_file, b"my file".to_vec());
    assert_eq!(deltas[0].status, DeltaStatus::Modified);
}

#[test]
fn odd_lines_are_kept_as_context() {
    let deltas = parse_diff(b"--- a/f\n+++ b/f\n@@ -1,2 +1,2 @@\nodd line\n\n+x\n");
    assert_eq!(deltas[0].hunks[0].lines, vec![line(b"odd line"), line(b""), line(b"+x")]);
    assert_eq!(deltas[0].hunks[0].lines[0].kind, LineKind::Context);
}

#[test]
fn a_header_that_cannot_be_read_makes_the_block_opaque() {
    let text = b"diff --git a/f b/f\n--- a/f\n+++ b/f\n@@ -1,2 +1,2 @@\n-a\n+b\n@@ broken @@\n+lost\ndiff --git a/g b/g\n--- a/g\n+++ b/g\n@@ -1 +1 @@\n-c\n+d\n";
    let deltas = parse_diff(text);
    assert_eq!(deltas.len(), 2);
    assert_eq!(deltas[0].opaque, Some(b"@@ broken @@".to_vec()));
    assert!(deltas[0].hunks.is_empty());
    assert_eq!(deltas[0].new_file, b"f".to_vec());
    assert_eq!(deltas[1].opaque, None);
    assert_eq!(deltas[1].hunks.len(), 1);
}

#[test]
fn text_before_the_first_block_is_passed_over() {
    let deltas = parse_diff(b"commit abc\nAuthor: me\n\n    message\n\n@@ -1 +1 @@\n+++ stray\n");
    assert!(deltas.is_empty());
    assert!(parse_diff(b"").is_empty());
}

#[test]
fn first_diff_line_is_counted_from_the_start_in_the_new_file() {
    let mut hunk = Hunk {
        old_file: b"f".to_vec(),
        new_file: b"f".to_vec(),
        header: header(10, 3, 20, 3),
        suffix: Vec::new(),
        lines: vec![line(b" a"), line(b" b"), line(b"-c"), line(b"+d")],
    };
    assert_eq!(hunk.first_diff_line(), 22);
    hunk.lines = vec![line(b" a"), line(b" b")];
    assert_eq!(hunk.first_diff_line(), 20);
    hunk.lines = vec![line(b"+a")];
    assert_eq!(hunk.first_diff_line(), 20);
    hunk.header.new_start = u32::MAX;
    hunk.lines = vec![line(b" a"), line(b"+b")];
    assert_eq!(hunk.first_diff_line(), u32::MAX);
}

#[test]
fn a_selection_drops_additions_and_keeps_removals_as_context() {
    let hunk = Hunk {
        old_file: b"f".to_vec(),
        new_file: b"f".to_vec(),
        header: header(1, 3, 1, 3),
        suffix: b" fn".to_vec(),
        lines: vec![line(b" a"), line(b"-b"), line(b"+B"), line(b"-c"), line(b"+C")],
    };
    let part = hunk.restrict(&[1, 2]);
    assert_eq!(part.lines, vec![line(b" a"), line(b"-b"), line(b"+B"), line(b" c")]);
    assert_eq!(part.header, header(1, 3, 1, 3));
    let text = hunk.format_patch(Some(&[4]));
    assert_eq!(text, b"--- a/f\n+++ b/f\n@@ -1,3 +1,4 @@ fn\n a\n b\n c\n+C\n".to_vec());
    let none = hunk.format_patch(Some(&[]));
    assert_eq!(none, b"--- a/f\n+++ b/f\n@@ -1,3 +1,3 @@ fn\n a\n b\n c\n".to_vec());
}

#[test]
fn a_full_selection_writes_every_line() {
    let hunk = Hunk {
        old_file: b"f".to_vec(),
        new_file: b"f".to_vec(),
        header: header(1, 2, 1, 2),
        suffix: Vec::new(),
        lines: vec![line(b" a"), line(b"-b"), line(b"+B")],
    };
    assert_eq!(hunk.format_patch(Some(&[0, 1, 2, 9])), hunk.format_patch(None));
}

#[test]
fn a_note_goes_with_the_line_before_it() {
    let hunk = Hunk {
        old_file: b"f".to_vec(),
        new_file: b"f".to_vec(),
        header: header(1, 1, 1, 1),
        suffix: Vec::new(),
        lines: vec![
            line(b"-a"),
            line(b"\\ No newline at end of file"),
            line(b"+b"),
            line(b"\\ No newline at end of file"),
        ],
    };
    assert!(hunk.lines[1].is_note());
    assert!(!hunk.lines[0].is_note());
    let part = hunk.restrict(&[0]);
    assert_eq!(part.lines, vec![line(b"-a"), line(b"\\ No newline at end of file")]);
    assert_eq!(part.header, header(1, 1, 1, 0));
    let other = hunk.restrict(&[2]);
    assert_eq!(
        other.lines,
        vec![
            line(b" a"),
            line(b"\\ No newline at end of file"),
            line(b"+b"),
            line(b"\\ No newline at end of file"),
        ]
    );
    assert_eq!(other.header, header(1, 1, 1, 2));
}

#[test]
fn copies_are_equal_to_what_they_copy() {
    let deltas = parse_diff(added_file());
    assert_eq!(deltas[0].duplicate(), deltas[0]);
    assert_eq!(deltas[0].hunks[0].duplicate(), deltas[0].hunks[0]);
    assert_eq!(deltas[0].hunks[0].lines[0].duplicate(), deltas[0].hunks[0].lines[0]);
}
