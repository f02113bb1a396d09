use crate::flavor::Flavor;
use crate::lexer::error::LexerError;
use crate::lexer::identifier::identifier_result;
use crate::lexer::token_iter::{read_after, read_fails, stuck_after, stuck_at, token_lexed, token_result, trivia_between, trivia_step};
use crate::lexer::parse_str::ParseStr;
use crate::token::{TerminalToken, Token, TokenType};
use vstd::prelude::*;
use vstd::string::StringSliceAdditionalSpecFns;

verus! {

/// The terminal that a token type is, if it is one.
pub open spec fn terminal_of(ty: TokenType) -> Option<TerminalToken> {
    match ty {
        TokenType::Terminal(t) => Some(t),
        _ => None,
    }
}

/// Where whitespace, line breaks and comments read from `p` reach past `k`, and also reach `k`,
/// another step of them starts at `k`.
pub proof fn lemma_trivia_passes(b: Seq<u8>, p: int, j: int, k: int)
    requires
        trivia_between(b, p, j),
        trivia_between(b, p, k),
        k < j,
    ensures
        trivia_step(b, k) is Some,
    decreases k - p,
{
    if p < k {
        let m = trivia_step(b, p)->0;
        lemma_trivia_passes(b, m, j, k);
    }
}

/// Whitespace, line breaks and comments read from `p` stop at one place only.
pub proof fn lemma_trivia_stops_once(b: Seq<u8>, p: int, j: int, k: int)
    requires
        trivia_between(b, p, j),
        trivia_between(b, p, k),
        trivia_step(b, j) is None,
        trivia_step(b, k) is None,
    ensures
        j == k,
{
    if k < j {
        lemma_trivia_passes(b, p, j, k);
    } else if j < k {
        lemma_trivia_passes(b, p, k, j);
    }
}

/// The identifier at the start of `b` has one length.
proof fn lemma_identifier_len_unique(b: Seq<u8>, k1: int, k2: int)
    requires
        crate::lexer::identifier::identifier_len(b, k1),
        crate::lexer::identifier::identifier_len(b, k2),
    ensures
        k1 == k2,
{
    if k1 < k2 {
        assert(crate::lexer::identifier::is_identifier_byte(b[k1]));
    } else if k2 < k1 {
        assert(crate::lexer::identifier::is_identifier_byte(b[k2]));
    }
}

/// Reading a token at the start of two positions with the same bytes and offset gives tokens that
/// end at the same offset and are the same terminal, if either is one.
proof fn lemma_token_result_unique<'s>(
    v1: ParseStr<'s>,
    v2: ParseStr<'s>,
    flavor: Flavor,
    ty1: TokenType<'s>,
    ty2: TokenType<'s>,
    r1: ParseStr<'s>,
    r2: ParseStr<'s>,
)
    requires
        v1.bytes() == v2.bytes(),
        v1.offset() == v2.offset(),
        token_result(v1, flavor, ty1, r1),
        token_result(v2, flavor, ty2, r2),
    ensures
        r1.offset() == r2.offset(),
        terminal_of(ty1) == terminal_of(ty2),
{
    if !(ty1 is Literal) && !(ty2 is Literal) {
        if crate::lexer::symbol::first_symbol(v1.bytes(), flavor, 0) is None {
            assert(identifier_result(v1, flavor, ty1, r1));
            assert(identifier_result(v2, flavor, ty2, r2));
            let k1 = choose|k: int|
                {
                    &&& crate::lexer::identifier::is_identifier_start(v1.bytes()[0])
                    &&& #[trigger] crate::lexer::identifier::identifier_len(v1.bytes(), k)
                    &&& r1.wf()
                    &&& r1.bytes() == v1.bytes().skip(k)
                    &&& r1.offset() == v1.offset() + k
                    &&& match crate::lexer::identifier::keyword_from(v1.bytes().take(k), flavor, 0) {
                        Some(t) => ty1 == TokenType::<'s>::Terminal(t),
                        None => ty1 matches TokenType::Identifier(s) && s.spec_bytes() == v1.bytes().take(k),
                    }
                };
            let k2 = choose|k: int|
                {
                    &&& crate::lexer::identifier::is_identifier_start(v2.bytes()[0])
                    &&& #[trigger] crate::lexer::identifier::identifier_len(v2.bytes(), k)
                    &&& r2.wf()
                    &&& r2.bytes() == v2.bytes().skip(k)
                    &&& r2.offset() == v2.offset() + k
                    &&& match crate::lexer::identifier::keyword_from(v2.bytes().take(k), flavor, 0) {
                        Some(t) => ty2 == TokenType::<'s>::Terminal(t),
                        None => ty2 matches TokenType::Identifier(s) && s.spec_bytes() == v2.bytes().take(k),
                    }
                };
            lemma_identifier_len_unique(v1.bytes(), k1, k2);
        }
    }
}

/// Two tokens read at the same byte of `b` end at the same byte and are the same terminal, if
/// either is one.
pub proof fn lemma_token_lexed_unique<'s>(b: Seq<u8>, flavor: Flavor, t1: Token<'s>, t2: Token<'s>)
    requires
        token_lexed(b, flavor, t1),
        token_lexed(b, flavor, t2),
        t1.range.start == t2.range.start,
    ensures
        t1.range.end == t2.range.end,
        terminal_of(t1.ty) == terminal_of(t2.ty),
{
    let (v1, r1) = choose|val: ParseStr<'s>, rest: ParseStr<'s>|
        {
            &&& val.bytes() == b.skip(t1.range.start as int)
            &&& val.offset() == t1.range.start
            &&& #[trigger] token_result(val, flavor, t1.ty, rest)
            &&& rest.offset() == t1.range.end
        };
    let (v2, r2) = choose|val: ParseStr<'s>, rest: ParseStr<'s>|
        {
            &&& val.bytes() == b.skip(t2.range.start as int)
            &&& val.offset() == t2.range.start
            &&& #[trigger] token_result(val, flavor, t2.ty, rest)
            &&& rest.offset() == t2.range.end
        };
    lemma_token_result_unique(v1, v2, flavor, t1.ty, t2.ty, r1, r2);
}

/// Reading a token at a byte of `b` either gives a token or fails, not both.
pub proof fn lemma_lexed_not_failed<'s>(b: Seq<u8>, flavor: Flavor, t: Token<'s>, e: LexerError<'s>)
    requires
        token_lexed(b, flavor, t),
    ensures
        !read_fails(b, flavor, t.range.start as int, e),
{
    if !read_fails(b, flavor, t.range.start as int, e) {
        return;
    }
    let (v1, r1) = choose|val: ParseStr<'s>, rest: ParseStr<'s>|
        {
            &&& val.bytes() == b.skip(t.range.start as int)
            &&& val.offset() == t.range.start
            &&& #[trigger] token_result(val, flavor, t.ty, rest)
            &&& rest.offset() == t.range.end
        };
    let v2 = choose|val: ParseStr<'s>|
        {
            &&& val.bytes() == b.skip(t.range.start as int)
            &&& val.offset() == t.range.start
            &&& (crate::lexer::literal::literal_result(val, Err(e)) || (
            crate::lexer::token_iter::no_token(val, flavor) && e.ty is InvalidInput && e.range.start
                == t.range.start && e.range.end == t.range.start))
        };
    if !(t.ty is Literal) && crate::lexer::symbol::first_symbol(v1.bytes(), flavor, 0) is None {
        assert(identifier_result(v1, flavor, t.ty, r1));
    }
}

/// Reading from `p` on in `b` has one outcome: two tokens read after `p` start and end at the
/// same bytes, are both the empty token at the end or neither is, and are the same terminal, if
/// either is one.
pub proof fn lemma_read_after_unique<'s>(b: Seq<u8>, flavor: Flavor, p: int, t1: Token<'s>, t2: Token<'s>)
    requires
        read_after(b, flavor, p, t1),
        read_after(b, flavor, p, t2),
    ensures
        t1.range.start == t2.range.start,
        t1.range.end == t2.range.end,
        (t1.ty is Empty) == (t2.ty is Empty),
        terminal_of(t1.ty) == terminal_of(t2.ty),
{
    lemma_read_after_not_end(b, flavor, p, t1);
    lemma_read_after_not_end(b, flavor, p, t2);
    if !(t1.ty is Empty) && !(t2.ty is Empty) {
        lemma_trivia_stops_once(b, p, t1.range.start as int, t2.range.start as int);
        lemma_token_lexed_unique(b, flavor, t1, t2);
    } else if !(t1.ty is Empty) {
        lemma_trivia_passes(b, p, b.len() as int, t1.range.start as int);
    } else if !(t2.ty is Empty) {
        lemma_trivia_passes(b, p, b.len() as int, t2.range.start as int);
    }
}

/// A token read at its start ends after it, within the input.
proof fn lemma_read_after_not_end<'s>(b: Seq<u8>, flavor: Flavor, p: int, t: Token<'s>)
    requires
        read_after(b, flavor, p, t),
    ensures
        !(t.ty is Empty) ==> t.range.start < t.range.end <= b.len(),
{
    if !(t.ty is Empty) {
        let (v, r) = choose|val: ParseStr<'s>, rest: ParseStr<'s>|
            {
                &&& val.bytes() == b.skip(t.range.start as int)
                &&& val.offset() == t.range.start
                &&& #[trigger] token_result(val, flavor, t.ty, rest)
                &&& rest.offset() == t.range.end
            };
    }
}

/// Where the input ends in whitespace, line breaks and comments after `p`, only the empty token
/// at the end is read after `p`.
pub proof fn lemma_end_not_read<'s>(b: Seq<u8>, flavor: Flavor, p: int, t: Token<'s>)
    requires
        trivia_between(b, p, b.len() as int),
        read_after(b, flavor, p, t),
    ensures
        t.ty is Empty,
{
    lemma_read_after_not_end(b, flavor, p, t);
    if !(t.ty is Empty) {
        lemma_trivia_passes(b, p, b.len() as int, t.range.start as int);
    }
}

/// Where reading from `p` fails, the input does not end in whitespace, line breaks and comments
/// after `p`.
pub proof fn lemma_stuck_not_end<'s>(b: Seq<u8>, flavor: Flavor, p: int, e: LexerError<'s>)
    requires
        stuck_at(b, flavor, p, e),
    ensures
        !trivia_between(b, p, b.len() as int),
{
    let k = choose|k: int|
        {
            &&& trivia_between(b, p, k)
            &&& k < b.len()
            &&& trivia_step(b, k) is None
            &&& #[trigger] read_fails(b, flavor, k, e)
        };
    if trivia_between(b, p, b.len() as int) {
        lemma_trivia_passes(b, p, b.len() as int, k);
    }
}

/// Where reading from `p` fails, no token is read after `p`.
pub proof fn lemma_stuck_not_read<'s>(b: Seq<u8>, flavor: Flavor, p: int, e: LexerError<'s>, t: Token<'s>)
    requires
        stuck_at(b, flavor, p, e),
    ensures
        !read_after(b, flavor, p, t),
{
    let k = choose|k: int|
        {
            &&& trivia_between(b, p, k)
            &&& k < b.len()
            &&& trivia_step(b, k) is None
            &&& #[trigger] read_fails(b, flavor, k, e)
        };
    if read_after(b, flavor, p, t) {
        if t.ty is Empty {
            lemma_trivia_passes(b, p, b.len() as int, k);
        } else {
            lemma_trivia_stops_once(b, p, k, t.range.start as int);
            lemma_lexed_not_failed(b, flavor, t, e);
        }
    }
}

} // verus!
