//! The layout of an error message that quotes the source lines of a range.

use crate::annotation::gutter::{decimal_digits, Gutter};
use crate::annotation::{get_line_containing, line_end, line_end_index, line_start, newlines_before, substr};
use crate::text::{decimal, push_decimal, push_right_aligned, push_tabs_as_spaces, repeat, repeated, right_aligned, tabs_as_spaces};
use core::ops::Range;
use vstd::prelude::*;
use vstd::string::{StrSliceExecFns, StringExecFns, StringSliceAdditionalSpecFns};
use vstd::utf8::decode_utf8;

verus! {

broadcast use vstd::utf8::encode_utf8_valid_utf8;

/// The source lines that hold a range, and where they are.
#[derive(Debug)]
pub struct ErrorDisplay<'s> {
    /// The range of the source that the error is about.
    pub range: Range<usize>,
    /// The lines that hold the range, without the line break after them.
    pub lines_text: &'s str,
    /// Where the first of those lines starts in the source.
    pub line_start: usize,
    /// The number of the first of those lines, counted from 1.
    pub first_line_number: usize,
    /// The number of the last of those lines.
    pub last_line_number: usize,
    /// Where the line that holds the end of the range starts in the source.
    pub last_line_start: usize,
    /// The gutter, as wide as the last line number.
    pub gutter: Gutter,
}

/// Lays out an error about bytes `range` of `source`: the whole lines that hold it and their
/// numbers.
pub fn display_error<'s>(range: Range<usize>, source: &'s str) -> (r: ErrorDisplay<'s>)
    requires
        range.start <= range.end <= source.spec_bytes().len() < usize::MAX,
    ensures
        ({
            let b = source.spec_bytes();
            let ls = line_start(b, range.start as int);
            let le = line_end(b, range.end as int);
            &&& r.range == range
            &&& r.line_start == ls
            &&& r.lines_text.spec_bytes() == b.subrange(ls, le)
            &&& r.first_line_number == newlines_before(b, ls) + 1
            &&& r.last_line_number == newlines_before(b, le) + 1
            &&& r.last_line_start == line_start(b, range.end as int)
            &&& r.gutter.width() == decimal_digits(r.last_line_number as nat)
        }),
{
    let (_, line_start_index) = get_line_containing(range.start, source);
    let line_end_index = line_end_index(source, range.end);
    let lines_text = substr(source, line_start_index, line_end_index);
    let (first_line_number, _) = get_line_containing(line_start_index, source);
    let (last_line_number, _) = get_line_containing(line_end_index, source);
    let (_, last_line_start) = get_line_containing(range.end, source);
    ErrorDisplay {
        range,
        lines_text,
        line_start: line_start_index,
        first_line_number,
        last_line_number,
        last_line_start,
        gutter: Gutter::new(last_line_number),
    }
}

/// The position of the first line break at or after character `i` of `s`, or the end of `s`.
pub open spec fn next_line_break(s: Seq<char>, i: int) -> int
    decreases s.len() - i,
{
    if i >= s.len() {
        s.len() as int
    } else if s[i] == '\n' {
        i
    } else {
        next_line_break(s, i + 1)
    }
}

/// The next line break is not before `i`, and is within `s`.
pub proof fn lemma_next_line_break(s: Seq<char>, i: int)
    requires
        0 <= i <= s.len(),
    ensures
        i <= next_line_break(s, i) <= s.len(),
        next_line_break(s, i) < s.len() ==> s[next_line_break(s, i)] == '\n',
        forall|j: int| i <= j < next_line_break(s, i) ==> s[j] != '\n',
    decreases s.len() - i,
{
    if i < s.len() && s[i] != '\n' {
        lemma_next_line_break(s, i + 1);
    }
}

/// A space, then `width` spaces: the gutter of a line without a number.
pub open spec fn blank_gutter(width: nat) -> Seq<char> {
    seq![' '] + repeated(seq![' '], width)
}

/// The row for characters `i..e` of `text`, line `k` of the report, numbered `first + k`: the
/// number right-aligned in the gutter, a bar `|` from the second line on, and the line; after the
/// first line, a row that leads `_` from the gutter to the start of the range.
pub open spec fn report_row(text: Seq<char>, i: int, e: int, k: nat, first: nat, width: nat, start_pad: nat) -> Seq<char> {
    seq![' '] + right_aligned(first + k, width) + seq![' ', '|', ' '] + (if k == 0 {
        seq![' ']
    } else {
        seq!['|']
    }) + seq![' '] + tabs_as_spaces(text.subrange(i, e)) + seq!['\n'] + (if k == 0 {
        blank_gutter(width) + seq![' ', '|', ' ', ' '] + repeated(seq!['_'], start_pad + 1) + seq!['^', '\n']
    } else {
        Seq::empty()
    })
}

/// The rows for the lines of `text` from character `i` on, the first of them line `k` of the
/// report: each line after its number, right-aligned in the gutter, and a bar `|` from the second
/// line on; after the first line, a row that leads `_` from the gutter to the start of the range.
pub open spec fn report_rows(text: Seq<char>, i: int, k: nat, first: nat, width: nat, start_pad: nat) -> Seq<char>
    decreases text.len() - i,
{
    if 0 <= i <= text.len() {
        let e = next_line_break(text, i);
        let row = report_row(text, i, e, k, first, width, start_pad);
        proof {
            lemma_next_line_break(text, i);
        }
        if e < text.len() {
            row + report_rows(text, e + 1, k + 1, first, width, start_pad)
        } else {
            row
        }
    } else {
        Seq::empty()
    }
}

/// The text of an error report over the characters `text` of the lines that hold `range`, which
/// start at byte `line_start` and are numbered `first` to `last`; the line that holds the end of
/// the range starts at byte `last_line_start`.
///
/// A range on one line gives that line under an empty gutter row, and a row of `^` under the range
/// (one `^` for an empty range). A range over several lines gives each line with its number, a
/// row leading `_` to the start of the range after the first line, and a last row leading `_` to
/// its end. Tabs are shown as spaces. No line break follows the last row.
pub open spec fn report_text(
    text: Seq<char>,
    range: Range<usize>,
    line_start: nat,
    first: nat,
    last: nat,
    last_line_start: nat,
) -> Seq<char> {
    let width = crate::annotation::gutter::decimal_digits(last);
    let head = blank_gutter(width) + seq![' ', '|', '\n'];
    if first == last {
        let underline: nat = if range.end > range.start {
            (range.end - range.start) as nat
        } else {
            1
        };
        head + seq![' '] + decimal(first) + seq![' ', '|', ' '] + tabs_as_spaces(text) + seq!['\n'] + blank_gutter(width)
            + seq![' ', '|', ' '] + repeated(seq![' '], (range.start - line_start) as nat) + repeated(seq!['^'], underline)
    } else {
        head + report_rows(text, 0, 0, first, width, (range.start - line_start) as nat) + blank_gutter(width) + seq![
            ' ',
            '|',
            ' ',
            '|',
        ] + repeated(seq!['_'], (range.end - last_line_start) as nat) + seq!['^']
    }
}

/// The report of an error about bytes `range` of the source `b`: the whole lines that hold the
/// range, numbered, with the range marked.
pub open spec fn error_report_text(b: Seq<u8>, range: Range<usize>) -> Seq<char> {
    let ls = line_start(b, range.start as int);
    let le = line_end(b, range.end as int);
    report_text(
        decode_utf8(b.subrange(ls, le)),
        range,
        ls as nat,
        newlines_before(b, ls) + 1,
        newlines_before(b, le) + 1,
        line_start(b, range.end as int) as nat,
    )
}

impl<'s> ErrorDisplay<'s> {
    /// Writes the report: the lines, numbered, with the range marked, as [`report_text`] states.
    pub fn render(&self) -> (s: String)
        requires
            self.line_start <= self.range.start <= self.range.end < usize::MAX,
            self.last_line_start <= self.range.end,
            self.first_line_number <= self.last_line_number,
            self.last_line_number + self.lines_text@.len() < usize::MAX,
            self.gutter.width() == crate::annotation::gutter::decimal_digits(self.last_line_number as nat),
        ensures
            s@ == report_text(
                self.lines_text@,
                self.range,
                self.line_start as nat,
                self.first_line_number as nat,
                self.last_line_number as nat,
                self.last_line_start as nat,
            ),
    {
        proof {
            reveal_strlit(" ");
            reveal_strlit(" |\n");
            reveal_strlit(" | ");
            reveal_strlit("\n");
            reveal_strlit("^");
            reveal_strlit(" | |");
            reveal_strlit("_");
        }
        let text = self.lines_text;
        let n = text.unicode_len();
        let width = self.gutter.number_width();
        let ghost w = width as nat;
        let ghost start_pad = (self.range.start - self.line_start) as nat;
        let mut s = String::new();
        s.append(" ");
        s.append(repeat(width, " ").as_str());
        s.append(" |\n");
        proof {
            assert(" "@ =~= seq![' ']);
            assert(" |\n"@ =~= seq![' ', '|', '\n']);
            assert(s@ =~= blank_gutter(w) + seq![' ', '|', '\n']);
        }
        if self.first_line_number == self.last_line_number {
            s.append(" ");
            push_decimal(&mut s, self.first_line_number);
            s.append(" | ");
            push_tabs_as_spaces(&mut s, text, 0, n);
            s.append("\n");
            s.append(" ");
            s.append(repeat(width, " ").as_str());
            s.append(" | ");
            s.append(repeat(self.range.start - self.line_start, " ").as_str());
            let underline = if self.range.end > self.range.start {
                self.range.end - self.range.start
            } else {
                1
            };
            s.append(repeat(underline, "^").as_str());
            proof {
                assert(" | "@ =~= seq![' ', '|', ' ']);
                assert("\n"@ =~= seq!['\n']);
                assert("^"@ =~= seq!['^']);
                assert(text@.subrange(0, n as int) =~= text@);
                assert(s@ =~= report_text(
                    self.lines_text@,
                    self.range,
                    self.line_start as nat,
                    self.first_line_number as nat,
                    self.last_line_number as nat,
                    self.last_line_start as nat,
                ));
            }
            return s;
        }
        let ghost head = s@;
        let mut i: usize = 0;
        let mut k: usize = 0;
        loop
            invariant_except_break
                s@ + report_rows(text@, i as int, k as nat, self.first_line_number as nat, w, start_pad) == head
                    + report_rows(text@, 0, 0, self.first_line_number as nat, w, start_pad),
            invariant
                self.first_line_number <= self.last_line_number,
                n == text@.len(),
                i <= n,
                k <= i,
                width == w,
                self.last_line_number + n < usize::MAX,
                self.line_start <= self.range.start < usize::MAX,
                start_pad == self.range.start - self.line_start,
            ensures
                s@ == head + report_rows(text@, 0, 0, self.first_line_number as nat, w, start_pad),
            decreases n - i,
        {
            proof {
                reveal_strlit(" ");
                reveal_strlit(" | ");
                reveal_strlit("\n");
                reveal_strlit("|");
                reveal_strlit(" |  ");
                reveal_strlit("^\n");
                reveal_strlit("_");
                assert(" "@ =~= seq![' ']);
                assert(" | "@ =~= seq![' ', '|', ' ']);
                assert("\n"@ =~= seq!['\n']);
                assert("|"@ =~= seq!['|']);
                assert(" |  "@ =~= seq![' ', '|', ' ', ' ']);
                assert("^\n"@ =~= seq!['^', '\n']);
                assert("_"@ =~= seq!['_']);
                lemma_next_line_break(text@, i as int);
            }
            let mut e = i;
            while e < n && text.get_char(e) != '\n'
                invariant
                    i <= e <= n,
                    n == text@.len(),
                    forall|j: int| i <= j < e ==> text@[j] != '\n',
                decreases n - e,
            {
                e = e + 1;
            }
            proof {
                lemma_next_line_break(text@, i as int);
                let nb = next_line_break(text@, i as int);
                if e < nb {
                    assert(text@[e as int] != '\n');
                }
                if nb < e {
                    assert(text@[nb] != '\n');
                }
                assert(e == nb);
            }
            let ghost before = s@;
            push_row(&mut s, text, i, e, k, self.first_line_number, width, self.range.start - self.line_start);
            let ghost row = report_row(text@, i as int, e as int, k as nat, self.first_line_number as nat, w, start_pad);
            proof {
                let first = self.first_line_number as nat;
                if e < n {
                    assert(report_rows(text@, i as int, k as nat, first, w, start_pad) == row + report_rows(
                        text@,
                        e + 1,
                        (k + 1) as nat,
                        first,
                        w,
                        start_pad,
                    ));
                } else {
                    assert(report_rows(text@, i as int, k as nat, first, w, start_pad) == row);
                }
            }
            if e >= n {
                break;
            }
            i = e + 1;
            k = k + 1;
        }
        s.append(" ");
        s.append(repeat(width, " ").as_str());
        s.append(" | |");
        s.append(repeat(self.range.end - self.last_line_start, "_").as_str());
        s.append("^");
        proof {
            assert(" "@ =~= seq![' ']);
            assert(" | |"@ =~= seq![' ', '|', ' ', '|']);
            assert("_"@ =~= seq!['_']);
            assert("^"@ =~= seq!['^']);
            assert(s@ =~= report_text(
                self.lines_text@,
                self.range,
                self.line_start as nat,
                self.first_line_number as nat,
                self.last_line_number as nat,
                self.last_line_start as nat,
            ));
        }
        s
    }
}

/// Appends the row for characters `i..e` of `text`, line `k` of a report, as [`report_row`]
/// states.
fn push_row(s: &mut String, text: &str, i: usize, e: usize, k: usize, first: usize, width: usize, start_pad: usize)
    requires
        i <= e <= text@.len(),
        first + k < usize::MAX,
        start_pad < usize::MAX,
    ensures
        final(s)@ == old(s)@ + report_row(text@, i as int, e as int, k as nat, first as nat, width as nat, start_pad as nat),
{
    proof {
        reveal_strlit(" ");
        reveal_strlit(" | ");
        reveal_strlit("\n");
        reveal_strlit("|");
        reveal_strlit(" |  ");
        reveal_strlit("^\n");
        reveal_strlit("_");
        assert(" "@ =~= seq![' ']);
        assert(" | "@ =~= seq![' ', '|', ' ']);
        assert("\n"@ =~= seq!['\n']);
        assert("|"@ =~= seq!['|']);
        assert(" |  "@ =~= seq![' ', '|', ' ', ' ']);
        assert("^\n"@ =~= seq!['^', '\n']);
        assert("_"@ =~= seq!['_']);
    }
    s.append(" ");
    push_right_aligned(s, first + k, width);
    s.append(" | ");
    if k == 0 {
        s.append(" ");
    } else {
        s.append("|");
    }
    s.append(" ");
    push_tabs_as_spaces(s, text, i, e);
    s.append("\n");
    if k == 0 {
        s.append(" ");
        s.append(repeat(width, " ").as_str());
        s.append(" |  ");
        s.append(repeat(start_pad + 1, "_").as_str());
        s.append("^\n");
    }
    proof {
        assert(s@ =~= old(s)@ + report_row(
            text@,
            i as int,
            e as int,
            k as nat,
            first as nat,
            width as nat,
            start_pad as nat,
        ));
    }
}

/// Writes the report of an error about bytes `range` of `source`: the whole lines that hold it,
/// numbered, with the range marked.
pub fn render_error(range: Range<usize>, source: &str) -> (s: String)
    requires
        range.start <= range.end <= source.spec_bytes().len() < usize::MAX / 2,
    ensures
        s@ == error_report_text(source.spec_bytes(), range),
{
    let d = display_error(range, source);
    proof {
        let b = source.spec_bytes();
        let ls = line_start(b, range.start as int);
        let le = line_end(b, range.end as int);
        vstd::utf8::encode_utf8_decode_utf8(d.lines_text@);
        lemma_start_within(b, range.start as int);
        lemma_start_within(b, range.end as int);
        lemma_end_within(b, range.end as int);
        lemma_newlines_monotone(b, ls, le);
        lemma_newlines_at_most(b, le);
        lemma_chars_at_most_bytes(d.lines_text@);
    }
    d.render()
}

/// A line starts at or before any of its bytes, and not before the start.
proof fn lemma_start_within(b: Seq<u8>, i: int)
    requires
        0 <= i,
    ensures
        0 <= line_start(b, i) <= i,
    decreases i,
{
    if i > 0 && b[i - 1] != 10u8 {
        lemma_start_within(b, i - 1);
    }
}

/// A line ends at or after any of its bytes, and not after the end.
proof fn lemma_end_within(b: Seq<u8>, i: int)
    requires
        0 <= i <= b.len(),
    ensures
        i <= line_end(b, i) <= b.len(),
    decreases b.len() - i,
{
    if i < b.len() && b[i] != 10u8 {
        lemma_end_within(b, i + 1);
    }
}

/// There are no fewer line breaks before a later byte.
proof fn lemma_newlines_monotone(b: Seq<u8>, i: int, j: int)
    requires
        0 <= i <= j,
    ensures
        newlines_before(b, i) <= newlines_before(b, j),
    decreases j - i,
{
    if i < j {
        lemma_newlines_monotone(b, i, j - 1);
    }
}

/// There are no more line breaks before byte `i` than bytes.
proof fn lemma_newlines_at_most(b: Seq<u8>, i: int)
    requires
        0 <= i,
    ensures
        newlines_before(b, i) <= i,
    decreases i,
{
    if i > 0 {
        lemma_newlines_at_most(b, i - 1);
    }
}

/// Text has no more characters than bytes in UTF-8.
proof fn lemma_chars_at_most_bytes(cs: Seq<char>)
    ensures
        cs.len() <= vstd::utf8::encode_utf8(cs).len(),
    decreases cs.len(),
{
    if cs.len() > 0 {
        lemma_chars_at_most_bytes(cs.drop_first());
    }
}

} // verus!
