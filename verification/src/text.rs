//! Byte-level text helpers: literals, prefixes, lines and decimal numbers.
//!
//! All text in this crate is a sequence of bytes: the output of the
//! version-control tool is not guaranteed to be valid UTF-8, and the patch
//! that goes back to the tool has to reproduce it byte for byte.

use vstd::prelude::*;
use vstd::slice::*;
use vstd::string::*;

verus! {

/// The byte that ends a line.
pub const NEWLINE: u8 = 10;

/// A blank, the marker of a context line.
pub const SPACE: u8 = 32;

/// `+`, the marker of an added line.
pub const PLUS: u8 = 43;

/// `,`, between the start and the count of a range.
pub const COMMA: u8 = 44;

/// `-`, the marker of a removed line.
pub const MINUS: u8 = 45;

/// `:`, between a file and a line number.
pub const COLON: u8 = 58;

/// The digit `0`.
pub const DIGIT_ZERO: u8 = 48;

/// `\`, the marker of a "no newline at end of file" note.
pub const BACKSLASH: u8 = 92;

/// The bytes of a string literal.
pub open spec fn lit(s: &str) -> Seq<u8> {
    s.spec_bytes()
}

/// The bytes of `s`, owned.
pub fn bytes_of(s: &str) -> (out: Vec<u8>)
    ensures
        out@ == lit(s),
{
    s.as_bytes_vec()
}

/// An owned copy of `s`.
pub fn copy_bytes(s: &[u8]) -> (out: Vec<u8>)
    ensures
        out@ == s@,
{
    slice_to_vec(s)
}

/// Appends `s` to `out`.
pub fn append_bytes(out: &mut Vec<u8>, s: &[u8])
    ensures
        final(out)@ == old(out)@ + s@,
{
    let mut i: usize = 0;
    while i < s.len()
        invariant
            i <= s.len(),
            out@ == old(out)@ + s@.take(i as int),
        decreases s.len() - i,
    {
        out.push(s[i]);
        assert(s@.take(i + 1) =~= s@.take(i as int).push(s@[i as int]));
        i += 1;
    }
    assert(s@.take(i as int) =~= s@);
}

/// Whether two byte strings hold the same bytes.
pub fn bytes_eq(a: &[u8], b: &[u8]) -> (same: bool)
    ensures
        same == (a@ == b@),
{
    if a.len() != b.len() {
        return false;
    }
    let mut i: usize = 0;
    while i < a.len()
        invariant
            a.len() == b.len(),
            i <= a.len(),
            forall|j: int| 0 <= j < i ==> a@[j] == b@[j],
        decreases a.len() - i,
    {
        if a[i] != b[i] {
            return false;
        }
        i += 1;
    }
    assert(a@ =~= b@);
    true
}

/// Whether `s` begins with `prefix`.
pub open spec fn has_prefix(s: Seq<u8>, prefix: Seq<u8>) -> bool {
    prefix.len() <= s.len() && s.take(prefix.len() as int) == prefix
}

/// Whether `s` begins with `prefix`.
pub fn starts_with(s: &[u8], prefix: &[u8]) -> (found: bool)
    ensures
        found == has_prefix(s@, prefix@),
{
    assert(s@.skip(0) =~= s@);
    starts_with_at(s, 0, prefix)
}

/// Whether the bytes of `s` from `at` on begin with `prefix`.
pub fn starts_with_at(s: &[u8], at: usize, prefix: &[u8]) -> (found: bool)
    requires
        at <= s.len(),
    ensures
        found == has_prefix(s@.skip(at as int), prefix@),
{
    if prefix.len() > s.len() - at {
        return false;
    }
    let mut i: usize = 0;
    while i < prefix.len()
        invariant
            at <= s.len(),
            prefix.len() <= s.len() - at,
            i <= prefix.len(),
            forall|j: int| 0 <= j < i ==> s@[at + j] == prefix@[j],
        decreases prefix.len() - i,
    {
        if s[at + i] != prefix[i] {
            assert(s@.skip(at as int).take(prefix@.len() as int)[i as int] != prefix@[i as int]);
            return false;
        }
        i += 1;
    }
    assert(s@.skip(at as int).take(prefix@.len() as int) =~= prefix@);
    true
}

/// The index of the first line end in `s` at or after `at`, or the length
/// of `s` where there is none.
pub open spec fn line_end(s: Seq<u8>, at: int) -> int
    decreases s.len() - at,
{
    if at >= s.len() {
        s.len() as int
    } else if s[at] == NEWLINE {
        at
    } else {
        line_end(s, at + 1)
    }
}

/// The line end found from `at` lies between `at` and the end of the text,
/// and no byte before it ends a line.
pub proof fn lemma_line_end(s: Seq<u8>, at: int)
    requires
        0 <= at <= s.len(),
    ensures
        at <= line_end(s, at) <= s.len(),
        line_end(s, at) < s.len() ==> s[line_end(s, at)] == NEWLINE,
        forall|k: int| at <= k < line_end(s, at) ==> s[k] != NEWLINE,
    decreases s.len() - at,
{
    if at < s.len() && s[at] != NEWLINE {
        lemma_line_end(s, at + 1);
    }
}

/// The lines of `s` from `at` on. Each line end closes a line; what follows
/// the last line end is a line too unless it is empty.
pub open spec fn lines_from(s: Seq<u8>, at: int) -> Seq<Seq<u8>>
    decreases s.len() + 1 - at,
{
    if at < 0 || at >= s.len() {
        Seq::empty()
    } else {
        proof {
            lemma_line_end(s, at);
        }
        seq![s.subrange(at, line_end(s, at))] + lines_from(s, line_end(s, at) + 1)
    }
}

/// The lines of a text, without their line ends.
pub open spec fn lines_of(s: Seq<u8>) -> Seq<Seq<u8>> {
    lines_from(s, 0)
}

/// The byte strings that a vector of lines holds.
pub open spec fn rows(lines: Seq<Vec<u8>>) -> Seq<Seq<u8>> {
    lines.map_values(|l: Vec<u8>| l@)
}

/// Splits a text into its lines.
pub fn split_lines(text: &[u8]) -> (lines: Vec<Vec<u8>>)
    ensures
        rows(lines@) == lines_of(text@),
{
    let mut lines: Vec<Vec<u8>> = Vec::new();
    let mut at: usize = 0;
    while at < text.len()
        invariant
            at <= text.len(),
            lines_of(text@) == rows(lines@) + lines_from(text@, at as int),
        decreases text.len() - at,
    {
        let mut end: usize = at;
        while end < text.len() && text[end] != NEWLINE
            invariant
                at <= end <= text.len(),
                line_end(text@, end as int) == line_end(text@, at as int),
            decreases text.len() - end,
        {
            end += 1;
        }
        let line = slice_to_vec(slice_subrange(text, at, end));
        proof {
            assert(rows(lines@.push(line)) =~= rows(lines@).push(line@));
            if end == text.len() {
                assert(lines_from(text@, end + 1) =~= lines_from(text@, end as int));
            }
        }
        lines.push(line);
        at = if end < text.len() {
            end + 1
        } else {
            end
        };
    }
    lines
}

/// The index of the first blank in `s` at or after `at`, or the length of
/// `s` where there is none.
pub open spec fn word_end(s: Seq<u8>, at: int) -> int
    decreases s.len() - at,
{
    if at >= s.len() {
        s.len() as int
    } else if s[at] == SPACE {
        at
    } else {
        word_end(s, at + 1)
    }
}

/// The first word of `s`: what stands before its first blank.
pub open spec fn first_word(s: Seq<u8>) -> Seq<u8> {
    s.take(word_end(s, 0))
}

/// An owned copy of the first word of `s`.
pub fn copy_first_word(s: &[u8]) -> (word: Vec<u8>)
    ensures
        word@ == first_word(s@),
{
    let mut end: usize = 0;
    while end < s.len() && s[end] != SPACE
        invariant
            end <= s.len(),
            word_end(s@, end as int) == word_end(s@, 0),
        decreases s.len() - end,
    {
        end += 1;
    }
    slice_to_vec(slice_subrange(s, 0, end))
}

/// The text made of the given lines, each followed by a line end.
pub open spec fn join_lines(lines: Seq<Seq<u8>>) -> Seq<u8>
    decreases lines.len(),
{
    if lines.len() == 0 {
        Seq::empty()
    } else {
        lines[0] + seq![NEWLINE] + join_lines(lines.drop_first())
    }
}

/// Whether no byte of `s` ends a line.
pub open spec fn single_line(s: Seq<u8>) -> bool {
    forall|i: int| 0 <= i < s.len() ==> s[i] != NEWLINE
}

/// No line of a text holds a line end.
pub proof fn lemma_lines_single(s: Seq<u8>, at: int)
    requires
        0 <= at,
    ensures
        forall|i: int|
            0 <= i < lines_from(s, at).len() ==> single_line(#[trigger] lines_from(s, at)[i]),
    decreases s.len() + 1 - at,
{
    if at < s.len() {
        lemma_line_end(s, at);
        let end = line_end(s, at);
        lemma_lines_single(s, end + 1);
        let first = s.subrange(at, end);
        let rest = lines_from(s, end + 1);
        assert(single_line(first));
        assert forall|i: int| 0 <= i < lines_from(s, at).len() implies single_line(
            #[trigger] lines_from(s, at)[i],
        ) by {
            if i > 0 {
                assert(lines_from(s, at)[i] == rest[i - 1]);
            }
        }
    }
}

/// Joining one more line appends it and its line end.
pub proof fn lemma_join_push(lines: Seq<Seq<u8>>, line: Seq<u8>)
    ensures
        join_lines(lines.push(line)) == join_lines(lines) + line + seq![NEWLINE],
    decreases lines.len(),
{
    if lines.len() == 0 {
        let one = lines.push(line);
        assert(one.drop_first() =~= Seq::<Seq<u8>>::empty());
        assert(one[0] == line);
        assert(join_lines(one.drop_first()) =~= Seq::<u8>::empty());
        assert(join_lines(one) =~= line + seq![NEWLINE]);
    } else {
        assert(lines.push(line).drop_first() =~= lines.drop_first().push(line));
        lemma_join_push(lines.drop_first(), line);
        assert(join_lines(lines.push(line)) =~= join_lines(lines) + line + seq![NEWLINE]);
    }
}

/// Splitting what `join_lines` made of lines that hold no line end gives
/// the lines back, whatever text stood before them.
pub proof fn lemma_lines_from_join(before: Seq<u8>, lines: Seq<Seq<u8>>)
    requires
        forall|i: int| 0 <= i < lines.len() ==> single_line(#[trigger] lines[i]),
    ensures
        lines_from(before + join_lines(lines), before.len() as int) == lines,
    decreases lines.len(),
{
    let text = before + join_lines(lines);
    let at = before.len() as int;
    if lines.len() == 0 {
        assert(text =~= before);
    } else {
        let first = lines[0];
        let rest = lines.drop_first();
        assert(single_line(first));
        assert(text.len() == at + first.len() + 1 + join_lines(rest).len());
        lemma_line_end(text, at);
        let e = line_end(text, at);
        assert(text[at + first.len()] == NEWLINE);
        assert forall|k: int| at <= k < at + first.len() implies text[k] != NEWLINE by {
            assert(text[k] == first[k - at]);
        }
        assert(e == at + first.len());
        assert(text.subrange(at, e) =~= first);
        let before2 = before + first + seq![NEWLINE];
        assert(text =~= before2 + join_lines(rest));
        assert forall|i: int| 0 <= i < rest.len() implies single_line(#[trigger] rest[i]) by {
            assert(rest[i] == lines[i + 1]);
        }
        lemma_lines_from_join(before2, rest);
        assert(lines_from(text, e + 1) == rest);
        assert(seq![first] + rest =~= lines);
    }
}

/// Whether `b` is a decimal digit.
pub open spec fn is_digit(b: u8) -> bool {
    DIGIT_ZERO <= b <= DIGIT_ZERO + 9
}

/// Whether every byte of `s` is a decimal digit.
pub open spec fn all_digits(s: Seq<u8>) -> bool {
    forall|i: int| 0 <= i < s.len() ==> is_digit(#[trigger] s[i])
}

/// The number that the decimal digits `s` write; zero for no digits.
pub open spec fn digits_value(s: Seq<u8>) -> nat
    decreases s.len(),
{
    if s.len() == 0 {
        0
    } else {
        (digits_value(s.drop_last()) * 10 + (s.last() - DIGIT_ZERO)) as nat
    }
}

/// The shortest decimal writing of `n`.
pub open spec fn decimal(n: nat) -> Seq<u8>
    decreases n,
{
    if n < 10 {
        seq![(DIGIT_ZERO + n) as u8]
    } else {
        decimal(n / 10).push((DIGIT_ZERO + n % 10) as u8)
    }
}

/// The decimal writing of a number is made of digits, at least one, and
/// reads back as the number.
pub proof fn lemma_decimal(n: nat)
    ensures
        decimal(n).len() >= 1,
        all_digits(decimal(n)),
        digits_value(decimal(n)) == n,
    decreases n,
{
    if n < 10 {
        let d = decimal(n);
        assert(d.drop_last() =~= Seq::<u8>::empty());
        assert(digits_value(d.drop_last()) == 0);
    } else {
        lemma_decimal(n / 10);
        let d = decimal(n);
        assert(d.drop_last() =~= decimal(n / 10));
        assert(d.last() == (DIGIT_ZERO + n % 10) as u8);
    }
}

/// The index of the first byte of `s` at or after `at` that is no digit, or
/// the length of `s` where every byte from `at` on is a digit.
pub open spec fn digits_end(s: Seq<u8>, at: int) -> int
    decreases s.len() - at,
{
    if at < 0 || at >= s.len() {
        if at < 0 { at } else { s.len() as int }
    } else if is_digit(s[at]) {
        digits_end(s, at + 1)
    } else {
        at
    }
}

/// The run of digits found from `at` ends between `at` and the end of the
/// text, holds only digits, and is followed by none.
pub proof fn lemma_digits_end(s: Seq<u8>, at: int)
    requires
        0 <= at <= s.len(),
    ensures
        at <= digits_end(s, at) <= s.len(),
        all_digits(s.subrange(at, digits_end(s, at))),
        digits_end(s, at) < s.len() ==> !is_digit(s[digits_end(s, at)]),
    decreases s.len() - at,
{
    if at < s.len() && is_digit(s[at]) {
        lemma_digits_end(s, at + 1);
        let e = digits_end(s, at);
        assert forall|i: int| 0 <= i < e - at implies is_digit(#[trigger] s.subrange(at, e)[i]) by {
            if i > 0 {
                assert(s.subrange(at, e)[i] == s.subrange(at + 1, e)[i - 1]);
            }
        }
    }
}

/// A run of digits that stands at `at` and is followed by no digit is the
/// run that `digits_end` finds.
pub proof fn lemma_digits_end_of_run(s: Seq<u8>, at: int, run: Seq<u8>)
    requires
        0 <= at,
        at + run.len() <= s.len(),
        s.subrange(at, at + run.len()) == run,
        all_digits(run),
        at + run.len() < s.len() ==> !is_digit(s[at + run.len()]),
    ensures
        digits_end(s, at) == at + run.len(),
    decreases run.len(),
{
    if run.len() > 0 {
        assert(s[at] == run[0]);
        assert(is_digit(run[0]));
        let rest = run.drop_first();
        assert(s.subrange(at + 1, at + 1 + rest.len()) =~= rest);
        assert forall|i: int| 0 <= i < rest.len() implies is_digit(#[trigger] rest[i]) by {
            assert(rest[i] == run[i + 1]);
        }
        lemma_digits_end_of_run(s, at + 1, rest);
    }
}

/// Appends the decimal writing of `n` to `out`.
pub fn push_decimal(out: &mut Vec<u8>, n: u32)
    ensures
        final(out)@ == old(out)@ + decimal(n as nat),
    decreases n,
{
    if n >= 10 {
        push_decimal(out, n / 10);
    }
    let digit: u8 = DIGIT_ZERO + (n % 10) as u8;
    out.push(digit);
    assert(out@ =~= old(out)@ + decimal(n as nat));
}

/// Reads the digits of `s` between `from` and `to` as a number. `None`
/// where the number does not fit.
pub fn read_digits(s: &[u8], from: usize, to: usize) -> (value: Option<u32>)
    requires
        from <= to <= s.len(),
        all_digits(s@.subrange(from as int, to as int)),
    ensures
        value == if digits_value(s@.subrange(from as int, to as int)) <= u32::MAX {
            Some(digits_value(s@.subrange(from as int, to as int)) as u32)
        } else {
            None
        },
{
    let ghost run = s@.subrange(from as int, to as int);
    let mut value: u32 = 0;
    let mut i: usize = from;
    while i < to
        invariant
            from <= i <= to <= s.len(),
            run == s@.subrange(from as int, to as int),
            all_digits(run),
            value == digits_value(run.take(i - from)),
        decreases to - i,
    {
        let b = s[i];
        assert(b == run[i - from]);
        assert(is_digit(run[i - from]));
        let digit: u32 = (b - DIGIT_ZERO) as u32;
        proof {
            let next = run.take(i + 1 - from);
            assert(next.drop_last() =~= run.take(i - from));
            assert(next.last() == b);
            assert(digits_value(next) == value * 10 + digit);
            lemma_digits_value_grows(run, i + 1 - from);
        }
        if value > (u32::MAX - digit) / 10 {
            return None;
        }
        value = value * 10 + digit;
        i += 1;
    }
    assert(run.take(i - from) =~= run);
    Some(value)
}

/// The value of a prefix of a run of digits is at most the value of the run.
pub proof fn lemma_digits_value_grows(s: Seq<u8>, k: int)
    requires
        0 <= k <= s.len(),
        all_digits(s),
    ensures
        digits_value(s.take(k)) <= digits_value(s),
    decreases s.len() - k,
{
    if k < s.len() {
        let next = s.take(k + 1);
        assert(next.drop_last() =~= s.take(k));
        assert(is_digit(s[k]));
        assert(next.last() == s[k]);
        lemma_digits_value_grows(s, k + 1);
    } else {
        assert(s.take(k) =~= s);
    }
}

} // verus!
