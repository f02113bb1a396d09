//! Pretty-printing of source code annotations, warnings and errors: where each annotation's
//! lines are, how wide the gutter is, and what each printed line holds.


pub mod formats;
pub mod gutter;
pub mod line_printer;

pub mod mode;

pub use self::gutter::Gutter;
pub use self::mode::Mode;

use crate::lexer::parse_str::{find_byte, lemma_after_ascii, lemma_splittable_boundary, splittable};
use core::ops::{Range, RangeInclusive};
use vstd::prelude::*;
use vstd::string::StringSliceAdditionalSpecFns;

verus! {

broadcast use vstd::utf8::encode_utf8_valid_utf8;

/// An annotation of a range of source text.
#[derive(Debug, Clone)]
pub struct Annotation {
    /// The kind of annotation.
    pub mode: Mode,
    /// The text shown after the highlight.
    pub text: String,
    /// A note shown under the annotation, if not empty.
    pub note: String,
    /// The bytes of the source to highlight.
    pub highlight: Range<usize>,
    /// The bytes of the source that must be shown.
    pub visible: Range<usize>,
}

/// The number of line breaks among the first `i` bytes of `b`.
pub open spec fn newlines_before(b: Seq<u8>, i: int) -> nat
    decreases i,
{
    if i <= 0 {
        0
    } else {
        newlines_before(b, i - 1) + if b[i - 1] == 10u8 {
            1nat
        } else {
            0nat
        }
    }
}

/// Where the line that holds byte `i` of `b` starts: after the last line break before `i`.
pub open spec fn line_start(b: Seq<u8>, i: int) -> int
    decreases i,
{
    if i <= 0 {
        0
    } else if b[i - 1] == 10u8 {
        i
    } else {
        line_start(b, i - 1)
    }
}

/// Where the line that holds byte `i` of `b` ends: at the first line break at or after `i`, or
/// at the end.
pub open spec fn line_end(b: Seq<u8>, i: int) -> int
    decreases b.len() - i,
{
    if i >= b.len() {
        b.len() as int
    } else if b[i] == 10u8 {
        i
    } else {
        line_end(b, i + 1)
    }
}

/// Whether bytes `s` to `e` of `b` hold a line break.
pub open spec fn has_newline(b: Seq<u8>, s: int, e: int) -> bool {
    exists|k: int| s <= k < e && b[k] == 10u8
}

/// `index` saturating-minus one.
pub open spec fn before(index: int) -> int {
    if index > 0 {
        index - 1
    } else {
        0
    }
}

/// The line number of the line that holds byte `i`, counted from 1.
pub open spec fn line_number_at(b: Seq<u8>, i: int) -> int {
    newlines_before(b, i) as int + 1
}

/// `data` is how the annotation of bytes `highlight` of `b` is laid out, with bytes `visible`
/// shown if it spans lines.
pub open spec fn lays_out(data: FormatData, b: Seq<u8>, highlight: Range<usize>, visible: Range<usize>) -> bool {
    let hs = highlight.start as int;
    let he = highlight.end as int;
    match data {
        FormatData::SingleLine { line, line_number, line_highlight } => {
            let ls = line_start(b, hs);
            &&& !has_newline(b, hs, he)
            &&& line_number == line_number_at(b, hs)
            &&& line.spec_bytes() == b.subrange(ls, line_end(b, ls))
            &&& line_highlight.start == hs - ls
            &&& line_highlight.end == he - ls
        },
        FormatData::MultiLine {
            lines,
            line_numbers,
            must_be_visible_line_numbers,
            first_line_highlight,
            last_line_highlight,
        } => {
            let fs = line_start(b, hs);
            let ls = line_start(b, before(he));
            &&& has_newline(b, hs, he)
            &&& lines.spec_bytes() == b.subrange(fs, line_end(b, ls))
            &&& line_numbers == (line_number_at(b, hs) as usize, line_number_at(b, before(he)) as usize)
            &&& must_be_visible_line_numbers == (
                line_number_at(b, visible.start as int) as usize,
                line_number_at(b, before(visible.end as int)) as usize,
            )
            &&& first_line_highlight == hs - fs
            &&& last_line_highlight == before(he) - ls
        },
    }
}

/// Lays out the annotation of bytes `highlight` of `text`, which holds no line break: the line
/// that holds it and where it is on that line.
pub fn single_line_format<'s>(text: &'s str, highlight: Range<usize>) -> (r: FormatData<'s>)
    requires
        highlight.start <= highlight.end <= text.spec_bytes().len() < usize::MAX,
        !has_newline(text.spec_bytes(), highlight.start as int, highlight.end as int),
    ensures
        lays_out(r, text.spec_bytes(), highlight, Range { start: 0, end: 0 }),
{
    FormatData::new_single_line(text, highlight.start, highlight.end)
}

/// Lays out the annotation of bytes `highlight` of `text`, which holds a line break: the lines it
/// spans, of which those of bytes `visible` must be shown.
pub fn multi_line_format<'s>(text: &'s str, highlight: Range<usize>, visible: Range<usize>) -> (r: FormatData<'s>)
    requires
        highlight.start <= highlight.end <= text.spec_bytes().len() < usize::MAX,
        has_newline(text.spec_bytes(), highlight.start as int, highlight.end as int),
        visible.start <= text.spec_bytes().len(),
        before(visible.end as int) <= text.spec_bytes().len(),
    ensures
        lays_out(r, text.spec_bytes(), highlight, visible),
{
    FormatData::new_multi_line(text, highlight.start, highlight.end, visible.start, visible.end)
}

/// Where an annotation is in the source: a part of one line, or a range of lines.
#[derive(Debug)]
pub enum FormatData<'s> {
    SingleLine { line: &'s str, line_number: usize, line_highlight: Range<usize> },
    MultiLine {
        lines: &'s str,
        line_numbers: (usize, usize),
        must_be_visible_line_numbers: (usize, usize),
        first_line_highlight: usize,
        last_line_highlight: usize,
    },
}

impl<'s> FormatData<'s> {
    /// Lays out the annotation of bytes `highlight` of `text`: a part of one line if the
    /// highlight holds no line break, else the lines it spans, of which those of `visible` must
    /// be shown.
    pub fn new(text: &'s str, highlight: Range<usize>, visible: Range<usize>) -> (r: Self)
        requires
            highlight.start <= highlight.end <= text.spec_bytes().len() < usize::MAX,
            visible.start <= text.spec_bytes().len(),
            before(visible.end as int) <= text.spec_bytes().len(),
        ensures
            lays_out(r, text.spec_bytes(), highlight, visible),
    {
        let b = text.as_bytes();
        let hs = highlight.start;
        let he = highlight.end;
        let has_newline = match find_byte(b, hs, 10u8) {
            Some(k) => k < he,
            None => false,
        };
        if has_newline {
            Self::new_multi_line(text, hs, he, visible.start, visible.end)
        } else {
            Self::new_single_line(text, hs, he)
        }
    }

    /// The line numbers of the first and last lines of the annotation.
    pub fn line_numbers(&self) -> (r: RangeInclusive<usize>)
        ensures
            match self {
                FormatData::SingleLine { line_number, .. } => r@.start == line_number && r@.end == line_number,
                FormatData::MultiLine { line_numbers, .. } => r@.start == line_numbers.0 && r@.end == line_numbers.1,
            },
            !r@.exhausted,
    {
        match self {
            FormatData::SingleLine { line_number, .. } => RangeInclusive::new(*line_number, *line_number),
            FormatData::MultiLine { line_numbers, .. } => RangeInclusive::new(line_numbers.0, line_numbers.1),
        }
    }

    /// The line number of the last line of the annotation.
    pub fn last_line_number(&self) -> (n: usize)
        ensures
            match self {
                FormatData::SingleLine { line_number, .. } => n == line_number,
                FormatData::MultiLine { line_numbers, .. } => n == line_numbers.1,
            },
    {
        match self {
            FormatData::SingleLine { line_number, .. } => *line_number,
            FormatData::MultiLine { line_numbers, .. } => line_numbers.1,
        }
    }

    /// The column where the highlight starts on its first line, counted from 0.
    pub fn first_line_highlight(&self) -> (c: usize)
        ensures
            match self {
                FormatData::SingleLine { line_highlight, .. } => c == line_highlight.start,
                FormatData::MultiLine { first_line_highlight, .. } => c == first_line_highlight,
            },
    {
        match self {
            FormatData::SingleLine { line_highlight, .. } => line_highlight.start,
            FormatData::MultiLine { first_line_highlight, .. } => *first_line_highlight,
        }
    }

    /// The layout of a highlight within one line.
    fn new_single_line(text: &'s str, hs: usize, he: usize) -> (r: Self)
        requires
            hs <= he <= text.spec_bytes().len() < usize::MAX,
            !has_newline(text.spec_bytes(), hs as int, he as int),
        ensures
            lays_out(r, text.spec_bytes(), Range { start: hs, end: he }, Range { start: 0, end: 0 }),
    {
        let b = text.as_bytes();
        let (line_number, line_start_index) = get_line_containing(hs, text);
        let end_index = line_end_index(text, line_start_index);
        let line = substr(text, line_start_index, end_index);
        FormatData::SingleLine {
            line,
            line_number,
            line_highlight: Range { start: hs - line_start_index, end: he - line_start_index },
        }
    }

    /// The layout of a highlight over several lines.
    fn new_multi_line(text: &'s str, hs: usize, he: usize, vs: usize, ve: usize) -> (r: Self)
        requires
            hs <= he <= text.spec_bytes().len() < usize::MAX,
            has_newline(text.spec_bytes(), hs as int, he as int),
            vs <= text.spec_bytes().len(),
            before(ve as int) <= text.spec_bytes().len(),
        ensures
            lays_out(r, text.spec_bytes(), Range { start: hs, end: he }, Range { start: vs, end: ve }),
    {
        let he1 = if he > 0 {
            he - 1
        } else {
            0
        };
        let ve1 = if ve > 0 {
            ve - 1
        } else {
            0
        };
        let (first_line_number, first_start_index) = get_line_containing(hs, text);
        let (last_line_number, last_start_index) = get_line_containing(he1, text);
        let (first_visible, _) = get_line_containing(vs, text);
        let (last_visible, _) = get_line_containing(ve1, text);
        let last_end_index = line_end_index(text, last_start_index);
        proof {
            lemma_line_start_monotone(text.spec_bytes(), hs as int, he1 as int);
        }
        let lines = substr(text, first_start_index, last_end_index);
        FormatData::MultiLine {
            lines,
            line_numbers: (first_line_number, last_line_number),
            must_be_visible_line_numbers: (first_visible, last_visible),
            first_line_highlight: hs - first_start_index,
            last_line_highlight: he1 - last_start_index,
        }
    }
}

/// The line number of the last line of an annotation's layout.
pub open spec fn last_line_of(data: FormatData) -> nat {
    match data {
        FormatData::SingleLine { line_number, .. } => line_number as nat,
        FormatData::MultiLine { line_numbers, .. } => line_numbers.1 as nat,
    }
}

/// The largest last line number among the layouts, or 0 if there are none.
pub open spec fn max_last_line(data: Seq<FormatData>) -> nat
    decreases data.len(),
{
    if data.len() == 0 {
        0
    } else {
        let rest = max_last_line(data.drop_last());
        let last = last_line_of(data.last());
        if last > rest {
            last
        } else {
            rest
        }
    }
}

/// The ranges of an annotation lie in a source of `len` bytes.
pub open spec fn annotation_fits(a: Annotation, len: nat) -> bool {
    &&& a.highlight.start <= a.highlight.end <= len
    &&& a.visible.start <= len
    &&& before(a.visible.end as int) <= len
}

/// What it takes to print annotations of a source: the file name, the annotations, a gutter for
/// the largest line number shown and the layout of each annotation.
#[derive(Debug)]
pub struct AnnotationsDisplay<'s> {
    pub file_name: Option<&'s str>,
    pub annotations: &'s [Annotation],
    pub gutter: Gutter,
    pub format_data: Vec<FormatData<'s>>,
}

/// Lays out annotations of `source` for printing: each annotation's lines, and a gutter as wide
/// as the largest line number shown.
pub fn display_annotations<'s>(file_name: Option<&'s str>, source: &'s str, annotations: &'s [Annotation]) -> (r:
    AnnotationsDisplay<'s>)
    requires
        source.spec_bytes().len() < usize::MAX,
        forall|i: int| 0 <= i < annotations@.len() ==> annotation_fits(#[trigger] annotations@[i], source.spec_bytes().len()),
    ensures
        r.file_name == file_name,
        r.annotations == annotations,
        r.format_data@.len() == annotations@.len(),
        forall|i: int|
            0 <= i < annotations@.len() ==> lays_out(
                #[trigger] r.format_data@[i],
                source.spec_bytes(),
                annotations@[i].highlight,
                annotations@[i].visible,
            ),
        r.gutter.width() == gutter::decimal_digits(max_last_line(r.format_data@)),
{
    let mut format_data: Vec<FormatData<'s>> = Vec::new();
    let mut max_line_number: usize = 0;
    let mut i: usize = 0;
    while i < annotations.len()
        invariant
            i <= annotations@.len(),
            source.spec_bytes().len() < usize::MAX,
            forall|k: int| 0 <= k < annotations@.len() ==> annotation_fits(#[trigger] annotations@[k], source.spec_bytes().len()),
            format_data@.len() == i,
            forall|k: int|
                0 <= k < i ==> lays_out(
                    #[trigger] format_data@[k],
                    source.spec_bytes(),
                    annotations@[k].highlight,
                    annotations@[k].visible,
                ),
            max_line_number == max_last_line(format_data@),
        decreases annotations@.len() - i,
    {
        let annotation = &annotations[i];
        assert(annotation_fits(annotations@[i as int], source.spec_bytes().len()));
        let data = FormatData::new(
            source,
            Range { start: annotation.highlight.start, end: annotation.highlight.end },
            Range { start: annotation.visible.start, end: annotation.visible.end },
        );
        let last = data.last_line_number();
        let ghost before_data = format_data@;
        format_data.push(data);
        proof {
            assert(format_data@.drop_last() =~= before_data);
        }
        if last > max_line_number {
            max_line_number = last;
        }
        i = i + 1;
    }
    let gutter = Gutter::new(max_line_number);
    AnnotationsDisplay { file_name, annotations, gutter, format_data }
}

/// The line number of the line that holds byte `index` of `val`, counted from 1, and the index
/// where that line starts.
pub fn get_line_containing(index: usize, val: &str) -> (r: (usize, usize))
    requires
        index <= val.spec_bytes().len(),
        index < usize::MAX,
    ensures
        r.0 == line_number_at(val.spec_bytes(), index as int),
        r.1 == line_start(val.spec_bytes(), index as int),
        r.1 <= index,
        r.1 == 0 || val.spec_bytes()[r.1 - 1] == 10u8,
{
    let b = val.as_bytes();
    let mut i: usize = 0;
    let mut count: usize = 0;
    let mut start: usize = 0;
    while i < index
        invariant
            i <= index <= b@.len(),
            index < usize::MAX,
            b@ == val.spec_bytes(),
            count == newlines_before(b@, i as int),
            count <= i,
            start == line_start(b@, i as int),
            start <= i,
            start == 0 || b@[start - 1] == 10u8,
        decreases index - i,
    {
        if b[i] == 10u8 {
            count = count + 1;
            start = i + 1;
        }
        i = i + 1;
    }
    (count + 1, start)
}

/// Where the line that starts at `start` ends: at its line break, or at the end of `val`.
pub(crate) fn line_end_index(val: &str, start: usize) -> (e: usize)
    requires
        start <= val.spec_bytes().len(),
    ensures
        e == line_end(val.spec_bytes(), start as int),
        start <= e <= val.spec_bytes().len(),
        e == val.spec_bytes().len() || val.spec_bytes()[e as int] == 10u8,
{
    let b = val.as_bytes();
    let r = find_byte(b, start, 10u8);
    proof {
        lemma_line_end(b@, start as int, r);
    }
    match r {
        Some(k) => k,
        None => b.len(),
    }
}

/// Bytes `start` to `end` of `text`, where both are the start of a line or a line break.
pub(crate) fn substr<'s>(text: &'s str, start: usize, end: usize) -> (r: &'s str)
    requires
        start <= end <= text.spec_bytes().len(),
        start == 0 || text.spec_bytes()[start - 1] == 10u8,
        end == text.spec_bytes().len() || text.spec_bytes()[end as int] == 10u8,
    ensures
        r.spec_bytes() == text.spec_bytes().subrange(start as int, end as int),
{
    let ghost b = text.spec_bytes();
    proof {
        if start > 0 {
            lemma_after_ascii(b, start - 1);
        }
        assert(splittable(b, start as int));
        lemma_splittable_boundary(b, start as int);
    }
    let (_, rest) = text.split_at(start);
    proof {
        let rb = rest.spec_bytes();
        assert(rb =~= b.subrange(start as int, b.len() as int));
        assert(splittable(rb, end - start));
        lemma_splittable_boundary(rb, end - start);
    }
    let (mid, _) = rest.split_at(end - start);
    proof {
        assert(mid.spec_bytes() =~= b.subrange(start as int, end as int));
    }
    mid
}

/// The first line break at or after `from` is where the line ends.
proof fn lemma_line_end(b: Seq<u8>, from: int, r: Option<usize>)
    requires
        0 <= from <= b.len(),
        match r {
            Some(k) => from <= k < b.len() && b[k as int] == 10u8 && forall|j: int| from <= j < k ==> b[j] != 10u8,
            None => forall|j: int| from <= j < b.len() ==> b[j] != 10u8,
        },
    ensures
        line_end(b, from) == match r {
            Some(k) => k as int,
            None => b.len() as int,
        },
    decreases b.len() - from,
{
    if from < b.len() && b[from] != 10u8 {
        lemma_line_end(b, from + 1, r);
    }
}

/// A later byte is on the same line or a later one.
proof fn lemma_line_start_monotone(b: Seq<u8>, i: int, j: int)
    requires
        0 <= i <= j <= b.len(),
    ensures
        line_start(b, i) <= line_start(b, j),
        line_start(b, j) <= j,
    decreases j - i,
{
    if i < j {
        lemma_line_start_monotone(b, i, j - 1);
    }
    lemma_line_start_at_most(b, j);
}

/// A line starts at or before any of its bytes.
proof fn lemma_line_start_at_most(b: Seq<u8>, i: int)
    ensures
        line_start(b, i) <= i || i < 0,
        i >= 0 ==> line_start(b, i) >= 0,
    decreases i,
{
    if i > 0 {
        lemma_line_start_at_most(b, i - 1);
    }
}

} // verus!
