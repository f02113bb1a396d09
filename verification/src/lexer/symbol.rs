use crate::flavor::Flavor;
use crate::lexer::parse_str::{lemma_prefix_boundary, starts_with_at, ParseStr};
use crate::token::{symbol_order, terminal_chars, terminal_supported, TerminalToken, SYMBOL_COUNT};
use vstd::prelude::*;
use vstd::string::StringSliceAdditionalSpecFns;
use vstd::utf8::*;

verus! {

broadcast use vstd::utf8::encode_utf8_valid_utf8;

/// The UTF-8 bytes of a terminal token's text.
pub open spec fn terminal_bytes(t: TerminalToken) -> Seq<u8> {
    encode_utf8(terminal_chars(t))
}

/// Whether `b` starts with the text of `t`.
pub open spec fn starts_with_terminal(b: Seq<u8>, t: TerminalToken) -> bool {
    b.len() >= terminal_bytes(t).len() && b.take(terminal_bytes(t).len() as int) == terminal_bytes(
        t,
    )
}

/// The first symbol from position `i` of the symbol order that `b` starts with and that the
/// flavor supports.
pub open spec fn first_symbol(b: Seq<u8>, flavor: Flavor, i: int) -> Option<TerminalToken>
    decreases symbol_order().len() - i,
{
    if i < 0 || i >= symbol_order().len() {
        None
    } else if terminal_supported(symbol_order()[i], flavor) && starts_with_terminal(
        b,
        symbol_order()[i],
    ) {
        Some(symbol_order()[i])
    } else {
        first_symbol(b, flavor, i + 1)
    }
}

/// The symbol that `first_symbol` finds is one that `b` starts with.
pub proof fn lemma_first_symbol(b: Seq<u8>, flavor: Flavor, i: int)
    ensures
        first_symbol(b, flavor, i) matches Some(t) ==> starts_with_terminal(b, t)
            && terminal_supported(t, flavor),
    decreases symbol_order().len() - i,
{
    if i < 0 || i >= symbol_order().len() {
    } else if terminal_supported(symbol_order()[i], flavor) && starts_with_terminal(
        b,
        symbol_order()[i],
    ) {
    } else {
        lemma_first_symbol(b, flavor, i + 1);
    }
}

/// Encoding characters below 0x80 gives one byte per character.
proof fn lemma_ascii_encode_len(cs: Seq<char>)
    requires
        forall|k: int| 0 <= k < cs.len() ==> (cs[k] as u32) < 0x80,
    ensures
        encode_utf8(cs).len() == cs.len(),
    decreases cs.len(),
{
    if cs.len() > 0 {
        lemma_ascii_encode_len(cs.drop_first());
    }
}

/// The length in bytes of the symbol at position `k` of the symbol order: three for the first two,
/// two for the next sixteen, one for the rest.
spec fn symbol_group_len(k: int) -> int {
    if k < 2 {
        3
    } else if k < 18 {
        2
    } else {
        1
    }
}

/// Symbols are tried longest first: no symbol in the order is longer than one before it, so no
/// symbol that extends another comes after it.
pub proof fn lemma_symbol_order_longest_first()
    ensures
        forall|i: int, j: int|
            0 <= i <= j < symbol_order().len() ==> terminal_bytes(#[trigger] symbol_order()[j]).len() <= terminal_bytes(
                #[trigger] symbol_order()[i],
            ).len(),
{
    assert forall|k: int| 0 <= k < symbol_order().len() implies terminal_bytes(#[trigger] symbol_order()[k]).len()
        == symbol_group_len(k) by {
            if k == 0 {
                lemma_ascii_encode_len(terminal_chars(symbol_order()[0]));
            } else if k == 1 {
                lemma_ascii_encode_len(terminal_chars(symbol_order()[1]));
            } else if k == 2 {
                lemma_ascii_encode_len(terminal_chars(symbol_order()[2]));
            } else if k == 3 {
                lemma_ascii_encode_len(terminal_chars(symbol_order()[3]));
            } else if k == 4 {
                lemma_ascii_encode_len(terminal_chars(symbol_order()[4]));
            } else if k == 5 {
                lemma_ascii_encode_len(terminal_chars(symbol_order()[5]));
            } else if k == 6 {
                lemma_ascii_encode_len(terminal_chars(symbol_order()[6]));
            } else if k == 7 {
                lemma_ascii_encode_len(terminal_chars(symbol_order()[7]));
            } else if k == 8 {
                lemma_ascii_encode_len(terminal_chars(symbol_order()[8]));
            } else if k == 9 {
                lemma_ascii_encode_len(terminal_chars(symbol_order()[9]));
            } else if k == 10 {
                lemma_ascii_encode_len(terminal_chars(symbol_order()[10]));
            } else if k == 11 {
                lemma_ascii_encode_len(terminal_chars(symbol_order()[11]));
            } else if k == 12 {
                lemma_ascii_encode_len(terminal_chars(symbol_order()[12]));
            } else if k == 13 {
                lemma_ascii_encode_len(terminal_chars(symbol_order()[13]));
            } else if k == 14 {
                lemma_ascii_encode_len(terminal_chars(symbol_order()[14]));
            } else if k == 15 {
                lemma_ascii_encode_len(terminal_chars(symbol_order()[15]));
            } else if k == 16 {
                lemma_ascii_encode_len(terminal_chars(symbol_order()[16]));
            } else if k == 17 {
                lemma_ascii_encode_len(terminal_chars(symbol_order()[17]));
            } else if k == 18 {
                lemma_ascii_encode_len(terminal_chars(symbol_order()[18]));
            } else if k == 19 {
                lemma_ascii_encode_len(terminal_chars(symbol_order()[19]));
            } else if k == 20 {
                lemma_ascii_encode_len(terminal_chars(symbol_order()[20]));
            } else if k == 21 {
                lemma_ascii_encode_len(terminal_chars(symbol_order()[21]));
            } else if k == 22 {
                lemma_ascii_encode_len(terminal_chars(symbol_order()[22]));
            } else if k == 23 {
                lemma_ascii_encode_len(terminal_chars(symbol_order()[23]));
            } else if k == 24 {
                lemma_ascii_encode_len(terminal_chars(symbol_order()[24]));
            } else if k == 25 {
                lemma_ascii_encode_len(terminal_chars(symbol_order()[25]));
            } else if k == 26 {
                lemma_ascii_encode_len(terminal_chars(symbol_order()[26]));
            } else if k == 27 {
                lemma_ascii_encode_len(terminal_chars(symbol_order()[27]));
            } else if k == 28 {
                lemma_ascii_encode_len(terminal_chars(symbol_order()[28]));
            } else if k == 29 {
                lemma_ascii_encode_len(terminal_chars(symbol_order()[29]));
            } else if k == 30 {
                lemma_ascii_encode_len(terminal_chars(symbol_order()[30]));
            } else if k == 31 {
                lemma_ascii_encode_len(terminal_chars(symbol_order()[31]));
            } else if k == 32 {
                lemma_ascii_encode_len(terminal_chars(symbol_order()[32]));
            } else if k == 33 {
                lemma_ascii_encode_len(terminal_chars(symbol_order()[33]));
            } else if k == 34 {
                lemma_ascii_encode_len(terminal_chars(symbol_order()[34]));
            } else if k == 35 {
                lemma_ascii_encode_len(terminal_chars(symbol_order()[35]));
            } else if k == 36 {
                lemma_ascii_encode_len(terminal_chars(symbol_order()[36]));
            } else if k == 37 {
                lemma_ascii_encode_len(terminal_chars(symbol_order()[37]));
            } else if k == 38 {
                lemma_ascii_encode_len(terminal_chars(symbol_order()[38]));
            } else if k == 39 {
                lemma_ascii_encode_len(terminal_chars(symbol_order()[39]));
            } else if k == 40 {
                lemma_ascii_encode_len(terminal_chars(symbol_order()[40]));
            } else if k == 41 {
                lemma_ascii_encode_len(terminal_chars(symbol_order()[41]));
            }
    }
}

/// Where `first_symbol` finds a symbol from position `i` of the order, it is the one at some
/// position `k` from `i` on, and no symbol between `i` and `k` is supported and starts `b`; where
/// it finds none, no symbol from `i` on is.
#[verifier::rlimit(50)]
proof fn lemma_first_symbol_position(b: Seq<u8>, flavor: Flavor, i: int)
    requires
        0 <= i <= symbol_order().len(),
    ensures
        match first_symbol(b, flavor, i) {
            Some(t) => exists|k: int|
                i <= k < symbol_order().len() && #[trigger] symbol_order()[k] == t && forall|j: int|
                    i <= j < k ==> !(terminal_supported(#[trigger] symbol_order()[j], flavor) && starts_with_terminal(
                        b,
                        symbol_order()[j],
                    )),
            None => forall|j: int|
                i <= j < symbol_order().len() ==> !(terminal_supported(#[trigger] symbol_order()[j], flavor)
                    && starts_with_terminal(b, symbol_order()[j])),
        },
    decreases symbol_order().len() - i,
{
    let order = symbol_order();
    if i < order.len() {
        lemma_first_symbol_position(b, flavor, i + 1);
        let hit = terminal_supported(order[i], flavor) && starts_with_terminal(b, order[i]);
        if hit {
            assert(first_symbol(b, flavor, i) == Some(order[i]));
        } else {
            assert(first_symbol(b, flavor, i) == first_symbol(b, flavor, i + 1));
            match first_symbol(b, flavor, i + 1) {
                Some(t) => {
                    let k = choose|k: int|
                        i + 1 <= k < order.len() && #[trigger] order[k] == t && forall|j: int|
                            i + 1 <= j < k ==> !(terminal_supported(#[trigger] order[j], flavor)
                                && starts_with_terminal(b, order[j]));
                    assert(i <= k < order.len() && order[k] == t);
                },
                None => {},
            }
        }
    }
}

/// The symbol read at the start of `b` is the longest one there: no symbol that the flavor
/// supports and that `b` starts with is longer. So `==` is read as one token, never as two `=`.
pub proof fn lemma_symbol_longest_match(b: Seq<u8>, flavor: Flavor)
    ensures
        first_symbol(b, flavor, 0) matches Some(t) ==> forall|u: TerminalToken|
            symbol_order().contains(u) && terminal_supported(u, flavor) && #[trigger] starts_with_terminal(b, u)
                ==> terminal_bytes(u).len() <= terminal_bytes(t).len(),
{
    lemma_first_symbol_position(b, flavor, 0);
    lemma_symbol_order_longest_first();
    if let Some(t) = first_symbol(b, flavor, 0) {
        let k = choose|k: int|
            0 <= k < symbol_order().len() && #[trigger] symbol_order()[k] == t && forall|j: int|
                0 <= j < k ==> !(terminal_supported(#[trigger] symbol_order()[j], flavor) && starts_with_terminal(
                    b,
                    symbol_order()[j],
                ));
        assert forall|u: TerminalToken|
            symbol_order().contains(u) && terminal_supported(u, flavor) && #[trigger] starts_with_terminal(b, u)
                implies terminal_bytes(u).len() <= terminal_bytes(t).len() by {
            let j = choose|j: int| 0 <= j < symbol_order().len() && symbol_order()[j] == u;
            if j < k {
                assert(!(terminal_supported(symbol_order()[j], flavor) && starts_with_terminal(b, symbol_order()[j])));
            }
            assert(terminal_bytes(symbol_order()[j]).len() <= terminal_bytes(symbol_order()[k]).len());
        }
    }
}

/// Whether `b` starts with the text of `t`, where `t` is a terminal token.
pub fn starts_with_token(b: &[u8], t: TerminalToken) -> (r: bool)
    ensures
        r == starts_with_terminal(b@, t),
{
    let p = t.as_str().as_bytes();
    let r = starts_with_at(b, 0, p);
    assert(b@.skip(0) =~= b@);
    r
}

/// Tries to read a symbol at the start of `val`: the first in the symbol order that the input
/// starts with and the flavor supports.
pub fn try_symbol<'s>(val: ParseStr<'s>, flavor: Flavor) -> (r: Option<(TerminalToken, ParseStr<'s>)>)
    requires
        val.wf(),
    ensures
        match r {
            Some((t, rest)) => {
                &&& first_symbol(val.bytes(), flavor, 0) == Some(t)
                &&& rest.wf()
                &&& rest.bytes() == val.bytes().skip(terminal_bytes(t).len() as int)
                &&& rest.offset() == val.offset() + terminal_bytes(t).len()
            },
            None => first_symbol(val.bytes(), flavor, 0) is None,
        },
        r matches Some((t, _)) ==> forall|u: TerminalToken|
            symbol_order().contains(u) && terminal_supported(u, flavor) && #[trigger] starts_with_terminal(
                val.bytes(),
                u,
            ) ==> terminal_bytes(u).len() <= terminal_bytes(t).len(),
{
    proof {
        lemma_symbol_longest_match(val.bytes(), flavor);
    }
    let b = val.as_str().as_bytes();
    let mut i: usize = 0;
    assert(symbol_order().len() == SYMBOL_COUNT);
    while i < SYMBOL_COUNT
        invariant
            i <= SYMBOL_COUNT,
            symbol_order().len() == SYMBOL_COUNT,
            b@ == val.bytes(),
            val.wf(),
            first_symbol(b@, flavor, 0) == first_symbol(b@, flavor, i as int),
        decreases SYMBOL_COUNT - i,
    {
        let t = TerminalToken::symbol_at(i);
        if t.is_supported(flavor) && starts_with_token(b, t) {
            let p = t.as_str().as_bytes();
            proof {
                val.lemma_valid();
                lemma_prefix_boundary(b@, p@);
                lemma_symbol_longest_match(val.bytes(), flavor);
            }
            return Some((t, val.from(p.len())));
        }
        i = i + 1;
    }
    None
}

} // verus!
