//! Plain text built for messages: repeated text, decimal numbers and lines with tabs shown as
//! spaces.

use vstd::prelude::*;
use vstd::string::{StrSliceExecFns, StringExecFns};

verus! {

/// `item` written `n` times.
pub open spec fn repeated(item: Seq<char>, n: nat) -> Seq<char>
    decreases n,
{
    if n == 0 {
        Seq::empty()
    } else {
        repeated(item, (n - 1) as nat) + item
    }
}

/// Writes `item` `times` times, one after another.
pub fn repeat(times: usize, item: &str) -> (s: String)
    ensures
        s@ == repeated(item@, times as nat),
{
    let mut s = String::new();
    let mut i: usize = 0;
    while i < times
        invariant
            i <= times,
            s@ == repeated(item@, i as nat),
        decreases times - i,
    {
        s.append(item);
        i = i + 1;
    }
    s
}

/// The character of the decimal digit `d`.
pub open spec fn digit_char(d: nat) -> char {
    (('0' as nat) + d) as char
}

/// The decimal digits of `n`, most significant first, without leading zeros.
pub open spec fn decimal(n: nat) -> Seq<char>
    decreases n,
{
    if n < 10 {
        seq![digit_char(n)]
    } else {
        decimal(n / 10).push(digit_char(n % 10))
    }
}

/// The decimal representation of `n` has one character for each of its digits.
pub proof fn lemma_decimal_len(n: nat)
    ensures
        decimal(n).len() == crate::annotation::gutter::decimal_digits(n),
    decreases n,
{
    if n >= 10 {
        lemma_decimal_len(n / 10);
    }
}

/// The text of the digit `d`.
fn digit_text(d: usize) -> (s: &'static str)
    requires
        d < 10,
    ensures
        s@ == seq![digit_char(d as nat)],
{
    proof {
        reveal_strlit("0");
        reveal_strlit("1");
        reveal_strlit("2");
        reveal_strlit("3");
        reveal_strlit("4");
        reveal_strlit("5");
        reveal_strlit("6");
        reveal_strlit("7");
        reveal_strlit("8");
        reveal_strlit("9");
    }
    match d {
        0 => "0",
        1 => "1",
        2 => "2",
        3 => "3",
        4 => "4",
        5 => "5",
        6 => "6",
        7 => "7",
        8 => "8",
        _ => "9",
    }
}

/// Appends the decimal digits of `n` to `s`.
pub fn push_decimal(s: &mut String, n: usize)
    ensures
        final(s)@ == old(s)@ + decimal(n as nat),
    decreases n,
{
    if n >= 10 {
        push_decimal(s, n / 10);
    }
    s.append(digit_text(n % 10));
    proof {
        if n >= 10 {
            assert(decimal(n as nat) == decimal((n / 10) as nat).push(digit_char((n % 10) as nat)));
        }
    }
}

/// `n` in decimal, right-aligned with spaces to at least `width` characters.
pub open spec fn right_aligned(n: nat, width: nat) -> Seq<char> {
    let digits = decimal(n);
    let pad: nat = if digits.len() < width {
        (width - digits.len()) as nat
    } else {
        0
    };
    repeated(seq![' '], pad) + digits
}

/// Appends `n` in decimal to `s`, right-aligned with spaces to at least `width` characters.
pub fn push_right_aligned(s: &mut String, n: usize, width: usize)
    ensures
        final(s)@ == old(s)@ + right_aligned(n as nat, width as nat),
{
    let digits = crate::annotation::gutter::Gutter::new(n).number_width();
    proof {
        lemma_decimal_len(n as nat);
    }
    let pad = if digits < width {
        width - digits
    } else {
        0
    };
    let spaces = repeat(pad, " ");
    s.append(spaces.as_str());
    push_decimal(s, n);
    proof {
        reveal_strlit(" ");
        assert(" "@ =~= seq![' ']);
        assert(s@ =~= old(s)@ + (repeated(seq![' '], pad as nat) + decimal(n as nat)));
    }
}

/// `line` with each tab shown as a space.
pub open spec fn tabs_as_spaces(line: Seq<char>) -> Seq<char> {
    line.map_values(|c: char| if c == '\t' { ' ' } else { c })
}

/// Appends the characters `from..to` of `text` to `s`, each tab as a space.
pub fn push_tabs_as_spaces(s: &mut String, text: &str, from: usize, to: usize)
    requires
        from <= to <= text@.len(),
    ensures
        final(s)@ == old(s)@ + tabs_as_spaces(text@.subrange(from as int, to as int)),
{
    let mut i = from;
    proof {
        reveal_strlit(" ");
    }
    while i < to
        invariant
            from <= i <= to <= text@.len(),
            s@ == old(s)@ + tabs_as_spaces(text@.subrange(from as int, i as int)),
        decreases to - i,
    {
        let c = text.get_char(i);
        proof {
            reveal_strlit(" ");
            assert(" "@ =~= seq![' ']);
            assert(text@.subrange(i as int, i + 1) =~= seq![c]);
        }
        if c == '\t' {
            s.append(" ");
        } else {
            s.append(text.substring_char(i, i + 1));
        }
        assert(text@.subrange(from as int, i + 1) =~= text@.subrange(from as int, i as int).push(c));
        assert(tabs_as_spaces(text@.subrange(from as int, i + 1)) =~= tabs_as_spaces(
            text@.subrange(from as int, i as int),
        ).push(if c == '\t' { ' ' } else { c }));
        i = i + 1;
    }
}

} // verus!
