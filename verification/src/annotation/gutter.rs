use crate::text::{push_right_aligned, repeat, repeated, right_aligned};
use vstd::prelude::*;
use vstd::string::StringExecFns;

verus! {

/// The number of decimal digits of `n`.
pub open spec fn decimal_digits(n: nat) -> nat
    decreases n,
{
    if n < 10 {
        1
    } else {
        1 + decimal_digits(n / 10)
    }
}

/// The margin to the left of annotated source lines, as wide as the largest line number shown.
#[derive(Debug, Clone, Copy)]
pub struct Gutter {
    number_width: usize,
}

impl Gutter {
    /// The width of the line numbers in the gutter.
    pub closed spec fn width(self) -> nat {
        self.number_width as nat
    }

    /// A gutter for line numbers up to `max_line_number`: as wide as its decimal digits.
    pub fn new(max_line_number: usize) -> (g: Gutter)
        ensures
            g.width() == decimal_digits(max_line_number as nat),
    {
        let mut n = max_line_number;
        let mut width: usize = 1;
        while n >= 10
            invariant
                width + decimal_digits(n as nat) == 1 + decimal_digits(max_line_number as nat),
                n <= max_line_number,
            decreases n,
        {
            proof {
                lemma_digits_at_most(max_line_number as nat);
                assert(decimal_digits(n as nat) == 1 + decimal_digits((n / 10) as nat));
            }
            n = n / 10;
            width = width + 1;
        }
        Gutter { number_width: width }
    }

    /// The gutter before a file name: spaces as wide as the numbers, then `-->`.
    pub fn file(self) -> (s: String)
        ensures
            s@ == repeated(seq![' '], self.width()) + seq!['-', '-', '>'],
    {
        proof {
            reveal_strlit(" ");
            reveal_strlit("-->");
            assert(" "@ =~= seq![' ']);
            assert("-->"@ =~= seq!['-', '-', '>']);
        }
        self.padded(" ", "-->")
    }

    /// The gutter of a row without a line number: spaces as wide as the numbers, then ` |`.
    pub fn empty(self) -> (s: String)
        ensures
            s@ == repeated(seq![' '], self.width()) + seq![' ', '|'],
    {
        proof {
            reveal_strlit(" ");
            reveal_strlit(" |");
            assert(" "@ =~= seq![' ']);
            assert(" |"@ =~= seq![' ', '|']);
        }
        self.padded(" ", " |")
    }

    /// The gutter of a row after the lines: spaces as wide as the numbers, then ` =`.
    pub fn separator(self) -> (s: String)
        ensures
            s@ == repeated(seq![' '], self.width()) + seq![' ', '='],
    {
        proof {
            reveal_strlit(" ");
            reveal_strlit(" =");
            assert(" "@ =~= seq![' ']);
            assert(" ="@ =~= seq![' ', '=']);
        }
        self.padded(" ", " =")
    }

    /// The gutter of a row that stands for skipped lines: dots as wide as the numbers, then two
    /// spaces.
    pub fn ellipsis(self) -> (s: String)
        ensures
            s@ == repeated(seq!['.'], self.width()) + seq![' ', ' '],
    {
        proof {
            reveal_strlit(".");
            reveal_strlit("  ");
            assert("."@ =~= seq!['.']);
            assert("  "@ =~= seq![' ', ' ']);
        }
        self.padded(".", "  ")
    }

    /// The gutter of line `number`: the number right-aligned to the width, then ` |`.
    pub fn number(self, number: usize) -> (s: String)
        ensures
            s@ == right_aligned(number as nat, self.width()) + seq![' ', '|'],
    {
        let mut s = String::new();
        push_right_aligned(&mut s, number, self.number_width);
        proof {
            reveal_strlit(" |");
        }
        s.append(" |");
        proof {
            assert(" |"@ =~= seq![' ', '|']);
            assert(s@ =~= right_aligned(number as nat, self.width()) + seq![' ', '|']);
        }
        s
    }

    /// `fill` as many times as the width of the numbers, then `tail`.
    fn padded(self, fill: &str, tail: &str) -> (s: String)
        ensures
            s@ == repeated(fill@, self.width()) + tail@,
    {
        let mut s = repeat(self.number_width, fill);
        s.append(tail);
        s
    }

    /// The width of the line numbers in the gutter.
    pub fn number_width(self) -> (w: usize)
        ensures
            w == self.width(),
    {
        self.number_width
    }
}

/// A positive number has no more digits than its value.
proof fn lemma_digits_at_most(n: nat)
    requires
        n >= 1,
    ensures
        decimal_digits(n) <= n,
    decreases n,
{
    if n >= 10 {
        lemma_digits_at_most(n / 10);
    }
}

} // verus!
