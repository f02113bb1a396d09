use crate::flavor::Flavor;
use crate::lexer::parse_str::{lemma_after_ascii, ParseStr};
use crate::lexer::symbol::terminal_bytes;
use crate::token::{keyword_order, terminal_supported, TerminalToken, TokenType, KEYWORD_COUNT};
use vstd::prelude::*;
use vstd::string::StringSliceAdditionalSpecFns;

verus! {

/// A byte that may start an identifier: `_` or an ASCII letter.
pub open spec fn is_identifier_start(c: u8) -> bool {
    c == 0x5fu8 || (0x41u8 <= c && c <= 0x5au8) || (0x61u8 <= c && c <= 0x7au8)
}

/// A byte that may continue an identifier: `_` or an ASCII letter or digit.
pub open spec fn is_identifier_byte(c: u8) -> bool {
    is_identifier_start(c) || (0x30u8 <= c && c <= 0x39u8)
}

/// The keyword from position `i` of the keyword order whose text is `b`, if the flavor supports
/// it.
pub open spec fn keyword_from(b: Seq<u8>, flavor: Flavor, i: int) -> Option<TerminalToken>
    decreases keyword_order().len() - i,
{
    if i < 0 || i >= keyword_order().len() {
        None
    } else if b == terminal_bytes(keyword_order()[i]) {
        if terminal_supported(keyword_order()[i], flavor) {
            Some(keyword_order()[i])
        } else {
            None
        }
    } else {
        keyword_from(b, flavor, i + 1)
    }
}

/// The length of the identifier at the start of `b`, where `b` starts with an identifier byte.
pub open spec fn identifier_len(b: Seq<u8>, k: int) -> bool {
    &&& 1 <= k <= b.len()
    &&& forall|j: int| 0 <= j < k ==> is_identifier_byte(#[trigger] b[j])
    &&& (k == b.len() || !is_identifier_byte(b[k]))
}

fn is_identifier_char(c: u8) -> (r: bool)
    ensures
        r == is_identifier_byte(c),
{
    c == 0x5f || (0x41 <= c && c <= 0x5a) || (0x61 <= c && c <= 0x7a) || (0x30 <= c && c <= 0x39)
}

/// Reads an identifier at the start of `val`, if there is one.
fn try_identifier_str<'s>(val: ParseStr<'s>) -> (r: Option<(&'s str, ParseStr<'s>)>)
    requires
        val.wf(),
    ensures
        match r {
            Some((s, rest)) => {
                &&& is_identifier_start(val.bytes()[0])
                &&& identifier_len(val.bytes(), s.spec_bytes().len() as int)
                &&& s.spec_bytes() == val.bytes().take(s.spec_bytes().len() as int)
                &&& rest.wf()
                &&& rest.bytes() == val.bytes().skip(s.spec_bytes().len() as int)
                &&& rest.offset() == val.offset() + s.spec_bytes().len()
            },
            None => val.bytes().len() == 0 || !is_identifier_start(val.bytes()[0]),
        },
{
    let b = val.as_str().as_bytes();
    let n = b.len();
    if n == 0 {
        return None;
    }
    let first = b[0];
    if !(first == 0x5f || (0x41 <= first && first <= 0x5a) || (0x61 <= first && first <= 0x7a)) {
        return None;
    }
    let mut k: usize = 1;
    while k < n && is_identifier_char(b[k])
        invariant
            n == b@.len(),
            1 <= k <= n,
            forall|j: int| 0 <= j < k ==> is_identifier_byte(#[trigger] b@[j]),
        decreases n - k,
    {
        k = k + 1;
    }
    proof {
        val.lemma_valid();
        lemma_after_ascii(b@, k - 1);
    }
    let (s, rest) = val.split_at(Some(k));
    Some((s, rest))
}

/// The keyword whose text is `identifier`, if the flavor supports it.
fn identifier_as_token(identifier: &str, flavor: Flavor) -> (r: Option<TerminalToken>)
    ensures
        r == keyword_from(identifier.spec_bytes(), flavor, 0),
{
    let b = identifier.as_bytes();
    let mut i: usize = 0;
    assert(keyword_order().len() == KEYWORD_COUNT);
    while i < KEYWORD_COUNT
        invariant
            i <= KEYWORD_COUNT,
            keyword_order().len() == KEYWORD_COUNT,
            b@ == identifier.spec_bytes(),
            keyword_from(b@, flavor, 0) == keyword_from(b@, flavor, i as int),
        decreases KEYWORD_COUNT - i,
    {
        let t = TerminalToken::keyword_at(i);
        let p = t.as_str().as_bytes();
        if bytes_equal(b, p) {
            if t.is_supported(flavor) {
                return Some(t);
            } else {
                return None;
            }
        }
        i = i + 1;
    }
    None
}

/// Whether two byte slices hold the same bytes.
pub fn bytes_equal(a: &[u8], b: &[u8]) -> (r: bool)
    ensures
        r == (a@ == b@),
{
    if a.len() != b.len() {
        return false;
    }
    let n = a.len();
    let mut i: usize = 0;
    while i < n
        invariant
            n == a@.len(),
            n == b@.len(),
            i <= n,
            forall|j: int| 0 <= j < i ==> a@[j] == b@[j],
        decreases n - i,
    {
        if a[i] != b[i] {
            return false;
        }
        i = i + 1;
    }
    assert(a@ =~= b@);
    true
}

/// `ty` and `rest` are what reading an identifier or keyword at the start of `val` gives: the
/// longest run of identifier bytes, as the keyword of that text if the flavor has one, else as an
/// identifier.
pub open spec fn identifier_result<'s>(val: ParseStr<'s>, flavor: Flavor, ty: TokenType<'s>, rest: ParseStr<'s>) -> bool {
    exists|k: int|
        {
            &&& is_identifier_start(val.bytes()[0])
            &&& #[trigger] identifier_len(val.bytes(), k)
            &&& rest.wf()
            &&& rest.bytes() == val.bytes().skip(k)
            &&& rest.offset() == val.offset() + k
            &&& match keyword_from(val.bytes().take(k), flavor, 0) {
                Some(t) => ty == TokenType::<'s>::Terminal(t),
                None => ty matches TokenType::Identifier(s) && s.spec_bytes() == val.bytes().take(k),
            }
        }
}

/// Tries to read an identifier or keyword at the start of `val`.
pub fn try_identifier<'s>(val: ParseStr<'s>, flavor: Flavor) -> (r: Option<(TokenType<'s>, ParseStr<'s>)>)
    requires
        val.wf(),
    ensures
        match r {
            Some((ty, rest)) => identifier_result(val, flavor, ty, rest),
            None => val.bytes().len() == 0 || !is_identifier_start(val.bytes()[0]),
        },
{
    let (identifier_str, remaining) = match try_identifier_str(val) {
        Some(x) => x,
        None => return None,
    };
    let ghost k = identifier_str.spec_bytes().len() as int;
    let token_ty = match identifier_as_token(identifier_str, flavor) {
        Some(terminal) => TokenType::Terminal(terminal),
        None => TokenType::Identifier(identifier_str),
    };
    assert(identifier_len(val.bytes(), k));
    Some((token_ty, remaining))
}

} // verus!
