use crate::annotation::gutter::Gutter;
use crate::annotation::mode::Mode;
use core::ops::Range;
use vstd::prelude::*;

verus! {

/// The bars to the left of the lines of a highlight that spans lines: one per open highlight, out
/// of at most `max_depth`.
#[derive(Debug, Clone, Copy)]
pub struct Bars {
    pub mode: Mode,
    pub max_depth: usize,
    pub current_depth: usize,
}

/// A source line to print: its number in the gutter, the bars and its text.
#[derive(Debug)]
pub struct LineDisplay<'s> {
    pub gutter: Gutter,
    pub line_number: usize,
    pub bars: Bars,
    pub line_text: &'s str,
}

/// A marker for skipped lines.
#[derive(Debug)]
pub struct SkipDisplay {
    pub gutter: Gutter,
    pub bars: Bars,
}

/// An underline of `highlight` under the line before.
#[derive(Debug)]
pub struct AnnotateDisplay {
    pub mode: Mode,
    pub gutter: Gutter,
    pub bars: Bars,
    pub highlight: Range<usize>,
}

/// The line that opens or closes a highlight that spans lines, pointing at `highlight`.
#[derive(Debug)]
pub struct OpenCloseDisplay {
    pub mode: Mode,
    pub gutter: Gutter,
    pub bars: Bars,
    pub highlight: Range<usize>,
}

/// Prints annotated lines one after the other, numbering them and keeping track of the
/// highlights that span lines.
#[derive(Debug)]
pub struct LinePrinter {
    mode: Mode,
    gutter: Gutter,
    next_line_number: usize,
    bars: Bars,
}

impl LinePrinter {
    /// The kind of annotation printed.
    pub closed spec fn spec_mode(self) -> Mode {
        self.mode
    }

    /// The gutter of the printed lines.
    pub closed spec fn spec_gutter(self) -> Gutter {
        self.gutter
    }

    /// The number of the next line printed.
    pub closed spec fn next_line(self) -> nat {
        self.next_line_number as nat
    }

    /// The bars of the highlights open now.
    pub closed spec fn spec_bars(self) -> Bars {
        self.bars
    }

    /// No more highlights are open than there is room for, and the bars are of the printer's
    /// kind.
    pub open spec fn inv(self) -> bool {
        &&& self.spec_bars().current_depth <= self.spec_bars().max_depth
        &&& self.spec_bars().mode == self.spec_mode()
    }

    /// A printer whose first line is numbered `first_line_number`, with room for `max_depth`
    /// highlights open at once.
    pub fn new(mode: Mode, gutter: Gutter, first_line_number: usize, max_depth: usize) -> (r: LinePrinter)
        ensures
            r.inv(),
            r.spec_mode() == mode,
            r.spec_gutter() == gutter,
            r.next_line() == first_line_number,
            r.spec_bars() == (Bars { mode, max_depth, current_depth: 0 }),
    {
        LinePrinter {
            mode,
            gutter,
            next_line_number: first_line_number,
            bars: Bars { mode, max_depth, current_depth: 0 },
        }
    }

    /// The next line, with its number; the following line gets the next number.
    pub fn line<'s>(&mut self, line_text: &'s str) -> (d: LineDisplay<'s>)
        requires
            old(self).next_line() < usize::MAX,
        ensures
            d.gutter == old(self).spec_gutter(),
            d.line_number == old(self).next_line(),
            d.bars == old(self).spec_bars(),
            d.line_text == line_text,
            final(self).next_line() == old(self).next_line() + 1,
            final(self).spec_bars() == old(self).spec_bars(),
            final(self).spec_mode() == old(self).spec_mode(),
            final(self).spec_gutter() == old(self).spec_gutter(),
    {
        let display = LineDisplay {
            gutter: self.gutter,
            line_number: self.next_line_number,
            bars: self.bars,
            line_text,
        };
        self.next_line_number = self.next_line_number + 1;
        display
    }

    /// A marker for `lines` skipped lines, whose numbers are passed over.
    pub fn skip_lines(&mut self, lines: usize) -> (d: SkipDisplay)
        requires
            old(self).next_line() + lines <= usize::MAX,
        ensures
            d.gutter == old(self).spec_gutter(),
            d.bars == old(self).spec_bars(),
            final(self).next_line() == old(self).next_line() + lines,
            final(self).spec_bars() == old(self).spec_bars(),
            final(self).spec_mode() == old(self).spec_mode(),
            final(self).spec_gutter() == old(self).spec_gutter(),
    {
        self.next_line_number = self.next_line_number + lines;
        SkipDisplay { gutter: self.gutter, bars: self.bars }
    }

    /// An underline of `highlight` under the last line.
    pub fn annotate(&self, highlight: Range<usize>) -> (d: AnnotateDisplay)
        ensures
            d.mode == self.spec_mode(),
            d.gutter == self.spec_gutter(),
            d.bars == self.spec_bars(),
            d.highlight == highlight,
    {
        AnnotateDisplay { mode: self.mode, gutter: self.gutter, bars: self.bars, highlight }
    }

    /// Opens a highlight that spans lines at `highlight`; the lines after it get one more bar.
    pub fn open(&mut self, highlight: Range<usize>) -> (d: OpenCloseDisplay)
        requires
            old(self).spec_bars().current_depth < old(self).spec_bars().max_depth,
        ensures
            d.mode == old(self).spec_mode(),
            d.gutter == old(self).spec_gutter(),
            d.bars == old(self).spec_bars(),
            d.highlight == highlight,
            final(self).spec_bars() == (Bars {
                current_depth: (old(self).spec_bars().current_depth + 1) as usize,
                ..old(self).spec_bars()
            }),
            final(self).next_line() == old(self).next_line(),
            final(self).spec_mode() == old(self).spec_mode(),
            final(self).spec_gutter() == old(self).spec_gutter(),
    {
        let display = OpenCloseDisplay { mode: self.mode, gutter: self.gutter, bars: self.bars, highlight };
        self.bars.current_depth = self.bars.current_depth + 1;
        display
    }

    /// Closes a highlight that spans lines at `highlight`; the lines after it get one bar less.
    pub fn close(&mut self, highlight: Range<usize>) -> (d: OpenCloseDisplay)
        requires
            old(self).spec_bars().current_depth > 0,
        ensures
            d.mode == old(self).spec_mode(),
            d.gutter == old(self).spec_gutter(),
            d.bars == old(self).spec_bars(),
            d.highlight == highlight,
            final(self).spec_bars() == (Bars {
                current_depth: (old(self).spec_bars().current_depth - 1) as usize,
                ..old(self).spec_bars()
            }),
            final(self).next_line() == old(self).next_line(),
            final(self).spec_mode() == old(self).spec_mode(),
            final(self).spec_gutter() == old(self).spec_gutter(),
    {
        let display = OpenCloseDisplay { mode: self.mode, gutter: self.gutter, bars: self.bars, highlight };
        self.bars.current_depth = self.bars.current_depth - 1;
        display
    }
}

} // verus!
