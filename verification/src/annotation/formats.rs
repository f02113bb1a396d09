use crate::annotation::gutter::Gutter;
use crate::annotation::mode::Mode;
use core::ops::Range;
use vstd::prelude::*;
use vstd::string::StringSliceAdditionalSpecFns;

verus! {

/// The longest part of a line that is shown.
pub const MAX_LINE_WIDTH: usize = 120;

/// An annotation within one line.
#[derive(Debug)]
pub struct SingleLineFormatDisplay<'s> {
    pub mode: Mode,
    pub gutter: Gutter,
    pub line: &'s str,
    pub line_number: usize,
    pub line_highlight: Range<usize>,
}

/// The part of a long line that is shown: bytes `elided_start` to `elided_end`, after `... ` if
/// `is_start_elided` and before ` ...` if `is_end_elided`, and the range to underline within the
/// window that starts at `display_start`.
#[derive(Debug, Clone, Copy)]
pub struct LineWindow {
    pub display_start: usize,
    pub display_end: usize,
    pub is_start_elided: bool,
    pub is_end_elided: bool,
    pub elided_start: usize,
    pub elided_end: usize,
    pub underline_start: usize,
    pub underline_end: usize,
}

/// `a` saturating-minus `b`.
pub open spec fn sub_or_zero(a: int, b: int) -> int {
    if a > b {
        a - b
    } else {
        0
    }
}

/// The window of a line of `len` bytes, longer than [`MAX_LINE_WIDTH`], centered on the highlight
/// `hs` to `he` as far as the line allows.
pub open spec fn line_window(len: int, hs: int, he: int) -> LineWindow {
    let center = (hs + he) / 2;
    let a = sub_or_zero(center, MAX_LINE_WIDTH as int / 2);
    let b = sub_or_zero(len, MAX_LINE_WIDTH as int);
    let ds = if a < b {
        a
    } else {
        b
    };
    let de = ds + MAX_LINE_WIDTH;
    let is_start_elided = ds > 4;
    let is_end_elided = de < len - 4;
    LineWindow {
        display_start: ds as usize,
        display_end: de as usize,
        is_start_elided,
        is_end_elided,
        elided_start: (if is_start_elided {
            ds + 4
        } else {
            ds
        }) as usize,
        elided_end: (if is_end_elided {
            de - 4
        } else {
            de
        }) as usize,
        underline_start: ((if hs > ds {
            hs
        } else {
            ds
        }) - ds) as usize,
        underline_end: ((if he < de {
            he
        } else {
            de
        }) - ds) as usize,
    }
}

impl<'s> SingleLineFormatDisplay<'s> {
    /// Whether the line is too long to be shown whole.
    pub fn is_long(&self) -> (b: bool)
        ensures
            b == (self.line.spec_bytes().len() > MAX_LINE_WIDTH),
    {
        self.line.as_bytes().len() > MAX_LINE_WIDTH
    }

    /// The part of a long line to show: [`MAX_LINE_WIDTH`] bytes centered on the highlight as far
    /// as the line allows, with four bytes at an end replaced by `...` where the line goes on.
    pub fn window(&self) -> (w: LineWindow)
        requires
            self.line.spec_bytes().len() > MAX_LINE_WIDTH,
            self.line_highlight.start <= self.line_highlight.end <= self.line.spec_bytes().len(),
            self.line_highlight.start + self.line_highlight.end <= usize::MAX,
        ensures
            w == line_window(
                self.line.spec_bytes().len() as int,
                self.line_highlight.start as int,
                self.line_highlight.end as int,
            ),
            w.elided_start <= w.elided_end <= self.line.spec_bytes().len(),
    {
        let len = self.line.as_bytes().len();
        let hs = self.line_highlight.start;
        let he = self.line_highlight.end;
        let center = (hs + he) / 2;
        let a = if center > MAX_LINE_WIDTH / 2 {
            center - MAX_LINE_WIDTH / 2
        } else {
            0
        };
        let b = if len > MAX_LINE_WIDTH {
            len - MAX_LINE_WIDTH
        } else {
            0
        };
        let display_start = if a < b {
            a
        } else {
            b
        };
        let display_end = display_start + MAX_LINE_WIDTH;
        let is_start_elided = display_start > 4;
        let is_end_elided = display_end < len - 4;
        let elided_start = if is_start_elided {
            display_start + 4
        } else {
            display_start
        };
        let elided_end = if is_end_elided {
            display_end - 4
        } else {
            display_end
        };
        let from = if hs > display_start {
            hs
        } else {
            display_start
        };
        let to = if he < display_end {
            he
        } else {
            display_end
        };
        LineWindow {
            display_start,
            display_end,
            is_start_elided,
            is_end_elided,
            elided_start,
            elided_end,
            underline_start: from - display_start,
            underline_end: to - display_start,
        }
    }
}

/// An annotation over several lines.
#[derive(Debug)]
pub struct MultiLineFormatDisplay<'s> {
    pub mode: Mode,
    pub gutter: Gutter,
    pub lines: &'s str,
    pub line_numbers: (usize, usize),
    pub must_be_visible_line_numbers: (usize, usize),
    pub first_line_highlight: usize,
    pub last_line_highlight: usize,
}

/// The ranges of line numbers shown after the first line of a highlight over several lines: the
/// lines after the first, then possibly the lines that must be visible, then possibly the last
/// two lines, with lines skipped between them.
#[derive(Debug, Clone, Copy)]
pub struct LineRanges {
    pub first: (usize, usize),
    pub second: Option<(usize, usize)>,
    pub third: Option<(usize, usize)>,
}

impl<'s> MultiLineFormatDisplay<'s> {
    /// The ranges of lines to show after the first line: the line after it, the lines that must
    /// be visible and the last two lines, where ranges less than two lines apart are merged.
    pub fn ranges(&self) -> (r: LineRanges)
        requires
            self.line_numbers.1 >= 1,
            self.line_numbers.0 + 3 <= usize::MAX,
            self.must_be_visible_line_numbers.1 + 2 <= usize::MAX,
        ensures
            ({
                let (start, end) = self.line_numbers;
                let (visible_start, visible_end) = self.must_be_visible_line_numbers;
                // The last two lines stand apart where more than one line lies between them and
                // the visible lines; else the visible lines reach the end.
                let last_apart = visible_end + 2 < end - 1;
                let middle_end = if last_apart { visible_end as int } else { end as int };
                &&& r.first.0 == start + 1
                &&& r.third == (if last_apart { Some(((end - 1) as usize, end)) } else { None })
                &&& if start + 3 < visible_start {
                    r.first.1 == start + 1 && r.second == Some((visible_start, middle_end as usize))
                } else {
                    r.first.1 == middle_end && r.second is None
                }
            }),
    {
        let lines = self.line_numbers;
        let visible = self.must_be_visible_line_numbers;
        let third = (lines.1 - 1, lines.1);
        let (second, third) = if visible.1 + 2 < third.0 {
            (visible, Some(third))
        } else {
            ((visible.0, third.1), None)
        };
        if lines.0 + 3 < second.0 {
            LineRanges { first: (lines.0 + 1, lines.0 + 1), second: Some(second), third }
        } else {
            LineRanges { first: (lines.0 + 1, second.1), second: None, third }
        }
    }
}

} // verus!
