use crate::ast::tokens::{list1_tokens, seq_tokens, trailing1_tokens};
use crate::ast::{SeparatedList1, SeparatedListTrailing0, SeparatedListTrailing1};
use crate::parser::combinator::opt;
use crate::parser::token_list::TokenList;
use crate::parser::error::ParseError;
use crate::parser::{parsed, ParseResult};
use crate::token::Token;
use vstd::prelude::*;

verus! {

broadcast use crate::parser::token_list::group_tokens_to;

/// `f` may be called on every list that `tokens` reaches, and every call parses from the list it
/// was given, moving on by at least one token if `strict`.
pub open spec fn parser_from<'s, T, F: Fn(TokenList<'s>) -> ParseResult<'s, T>>(
    f: F,
    tokens: TokenList<'s>,
    strict: bool,
) -> bool {
    &&& forall|t: TokenList<'s>| tokens.reaches(t) ==> #[trigger] f.requires((t,))
    &&& forall|t: TokenList<'s>, r: ParseResult<'s, T>| #[trigger] f.ensures((t,), r) ==> parsed(t, r, strict)
}

/// `f` failed without a fatal error on `t`.
pub open spec fn stopped_at<'s, T, F: Fn(TokenList<'s>) -> ParseResult<'s, T>>(f: F, t: TokenList<'s>) -> bool {
    exists|e: ParseError| !e.is_fatal && #[trigger] f.ensures((t,), Err::<(TokenList<'s>, T), ParseError>(e))
}

/// Every value that `p` parses holds, as `f` gives them, exactly the tokens it moved past.
pub open spec fn keeps_tokens<'s, T, F: Fn(TokenList<'s>) -> ParseResult<'s, T>>(
    p: F,
    f: spec_fn(T) -> Seq<Token<'s>>,
) -> bool {
    forall|t: TokenList<'s>, r: ParseResult<'s, T>| #[trigger] p.ensures((t,), r) ==> (r matches Ok((rest, v))
        ==> f(v) == t.tokens_to(rest))
}

/// Every separator that `p` parses is exactly the token it moved past.
pub open spec fn keeps_separator<'s, F: Fn(TokenList<'s>) -> ParseResult<'s, &'s Token<'s>>>(p: F) -> bool {
    forall|t: TokenList<'s>, r: ParseResult<'s, &'s Token<'s>>| #[trigger] p.ensures((t,), r) ==> (r matches Ok(
        (rest, v),
    ) ==> seq![*v] == t.tokens_to(rest))
}

/// `vals` are the values of successive successful calls of `p`: call `i` starts at `ps[i]` and
/// stops at `ps[i + 1]`.
pub open spec fn successive<'s, T, F: Fn(TokenList<'s>) -> ParseResult<'s, T>>(
    p: F,
    ps: Seq<TokenList<'s>>,
    vals: Seq<T>,
) -> bool {
    &&& ps.len() == vals.len() + 1
    &&& forall|i: int|
        0 <= i < vals.len() ==> p.ensures((ps[i],), Ok::<_, ParseError>((ps[i + 1], #[trigger] vals[i])))
}

/// `vals` are the values of successive successful calls of `p` from `tokens` to `rest`.
pub open spec fn called<'s, T, F: Fn(TokenList<'s>) -> ParseResult<'s, T>>(
    p: F,
    tokens: TokenList<'s>,
    rest: TokenList<'s>,
    vals: Seq<T>,
) -> bool {
    exists|ps: Seq<TokenList<'s>>| #[trigger] successive(p, ps, vals) && ps[0] == tokens && ps.last() == rest
}

/// Every result that `p` may give at `t` is a non-fatal error.
pub open spec fn fails_softly<'s, T, F: Fn(TokenList<'s>) -> ParseResult<'s, T>>(p: F, t: TokenList<'s>) -> bool {
    forall|res: ParseResult<'s, T>| #[trigger] p.ensures((t,), res) ==> (res matches Err(e) && !e.is_fatal)
}

/// After successive calls of `p` from `tokens`, the next call fails with `e`.
pub open spec fn failed_after_calls<'s, T, F: Fn(TokenList<'s>) -> ParseResult<'s, T>>(
    p: F,
    tokens: TokenList<'s>,
    e: ParseError,
) -> bool {
    exists|ps: Seq<TokenList<'s>>, vals: Seq<T>|
        #[trigger] successive(p, ps, vals) && ps[0] == tokens && p.ensures(
            (ps.last(),),
            Err::<(TokenList<'s>, T), ParseError>(e),
        )
}

/// After successive calls of `p` from `tokens`, the next call, before the end, fails with `e`.
pub open spec fn failed_after<'s, T, F: Fn(TokenList<'s>) -> ParseResult<'s, T>>(
    p: F,
    tokens: TokenList<'s>,
    e: ParseError,
) -> bool {
    exists|ps: Seq<TokenList<'s>>, vals: Seq<T>|
        #[trigger] successive(p, ps, vals) && ps[0] == tokens && ps.last().pos() < ps.last().items().len()
            && p.ensures((ps.last(),), Err::<(TokenList<'s>, T), ParseError>(e))
}

/// `e` is an error that `p` returns at a list that `tokens` reaches.
pub open spec fn error_of<'s, T, F: Fn(TokenList<'s>) -> ParseResult<'s, T>>(
    p: F,
    tokens: TokenList<'s>,
    e: ParseError,
) -> bool {
    exists|t: TokenList<'s>| tokens.reaches(t) && #[trigger] p.ensures((t,), Err::<(TokenList<'s>, T), ParseError>(e))
}

/// `e` is an error that `p` returns at a list that `tokens` reaches, before its end.
pub open spec fn error_before_end<'s, T, F: Fn(TokenList<'s>) -> ParseResult<'s, T>>(
    p: F,
    tokens: TokenList<'s>,
    e: ParseError,
) -> bool {
    exists|t: TokenList<'s>|
        tokens.reaches(t) && t.pos() < t.items().len() && #[trigger] p.ensures(
            (t,),
            Err::<(TokenList<'s>, T), ParseError>(e),
        )
}

/// The items and last item of a separated list are the values of successive calls: item `i` is
/// read from `a[i]` to `b[i]`, its separator from `b[i]` to `a[i + 1]`, and the last item from the
/// last of `a` to the last of `b`.
pub open spec fn separated_calls<'s, T, FI, FS>(
    pi: FI,
    ps: FS,
    a: Seq<TokenList<'s>>,
    b: Seq<TokenList<'s>>,
    items: Seq<(T, &'s Token<'s>)>,
    last: T,
) -> bool where
    FI: Fn(TokenList<'s>) -> ParseResult<'s, T>,
    FS: Fn(TokenList<'s>) -> ParseResult<'s, &'s Token<'s>>,
 {
    &&& a.len() == items.len() + 1
    &&& b.len() == items.len() + 1
    &&& forall|i: int|
        0 <= i < items.len() ==> pi.ensures((a[i],), Ok::<_, ParseError>((b[i], (#[trigger] items[i]).0)))
            && ps.ensures((b[i],), Ok::<_, ParseError>((a[i + 1], items[i].1)))
    &&& pi.ensures((a[items.len() as int],), Ok::<_, ParseError>((b[items.len() as int], last)))
}

/// The items and last item of a separated list are the values of successive calls from `tokens`,
/// the last item ending at `end`.
pub open spec fn separated_called<'s, T, FI, FS>(
    pi: FI,
    ps: FS,
    tokens: TokenList<'s>,
    end: TokenList<'s>,
    items: Seq<(T, &'s Token<'s>)>,
    last: T,
) -> bool where
    FI: Fn(TokenList<'s>) -> ParseResult<'s, T>,
    FS: Fn(TokenList<'s>) -> ParseResult<'s, &'s Token<'s>>,
 {
    exists|a: Seq<TokenList<'s>>, b: Seq<TokenList<'s>>|
        #[trigger] separated_calls(pi, ps, a, b, items, last) && a[0] == tokens && b.last() == end
}

/// After an item that ends at `end`, the list fails with `e`: the separator parser fails fatally
/// there, or it reads a separator and the item parser then fails.
pub open spec fn after_item_fails<'s, T, FI, FS>(pi: FI, ps: FS, end: TokenList<'s>, e: ParseError) -> bool where
    FI: Fn(TokenList<'s>) -> ParseResult<'s, T>,
    FS: Fn(TokenList<'s>) -> ParseResult<'s, &'s Token<'s>>,
 {
    ||| e.is_fatal && ps.ensures((end,), Err::<(TokenList<'s>, &'s Token<'s>), ParseError>(e))
    ||| exists|sep_end: TokenList<'s>, sep: &'s Token<'s>|
        #[trigger] ps.ensures((end,), Ok::<_, ParseError>((sep_end, sep)))
            && pi.ensures((sep_end,), Err::<(TokenList<'s>, T), ParseError>(e))
}

/// A separated list from `tokens` fails with `e`: its first item fails, or after successive
/// items and separators the next separator or item fails as [`after_item_fails`] says.
pub open spec fn separated_failed<'s, T, FI, FS>(pi: FI, ps: FS, tokens: TokenList<'s>, e: ParseError) -> bool where
    FI: Fn(TokenList<'s>) -> ParseResult<'s, T>,
    FS: Fn(TokenList<'s>) -> ParseResult<'s, &'s Token<'s>>,
 {
    ||| pi.ensures((tokens,), Err::<(TokenList<'s>, T), ParseError>(e))
    ||| exists|a: Seq<TokenList<'s>>, b: Seq<TokenList<'s>>, items: Seq<(T, &'s Token<'s>)>, last: T|
        #[trigger] separated_calls(pi, ps, a, b, items, last) && a[0] == tokens
            && after_item_fails::<T, FI, FS>(pi, ps, b.last(), e)
}

/// Adding a separator and an item read after the last item extends the successive calls.
pub proof fn lemma_separated_calls_push<'s, T, FI, FS>(
    pi: FI,
    ps: FS,
    a: Seq<TokenList<'s>>,
    b: Seq<TokenList<'s>>,
    items: Seq<(T, &'s Token<'s>)>,
    last: T,
    sep: &'s Token<'s>,
    sep_end: TokenList<'s>,
    item_end: TokenList<'s>,
    item: T,
) where
    FI: Fn(TokenList<'s>) -> ParseResult<'s, T>,
    FS: Fn(TokenList<'s>) -> ParseResult<'s, &'s Token<'s>>,

    requires
        separated_calls(pi, ps, a, b, items, last),
        ps.ensures((b.last(),), Ok::<_, ParseError>((sep_end, sep))),
        pi.ensures((sep_end,), Ok::<_, ParseError>((item_end, item))),
    ensures
        separated_calls(pi, ps, a.push(sep_end), b.push(item_end), items.push((last, sep)), item),
{
    let a2 = a.push(sep_end);
    let b2 = b.push(item_end);
    let items2 = items.push((last, sep));
    assert forall|i: int| 0 <= i < items2.len() implies pi.ensures(
        (a2[i],),
        Ok::<_, ParseError>((b2[i], (#[trigger] items2[i]).0)),
    ) && ps.ensures((b2[i],), Ok::<_, ParseError>((a2[i + 1], items2[i].1))) by {
        if i < items.len() {
            assert(items2[i] == items[i]);
        }
    }
}

/// The items of a separated list with an optional trailing separator are the values of
/// successive calls from `tokens` to `rest`: the list ends at `rest` after its last item, or,
/// with a trailing separator, the separator is read from the end of the last item to `rest`.
pub open spec fn trailing_called<'s, T, FI, FS>(
    pi: FI,
    ps: FS,
    tokens: TokenList<'s>,
    rest: TokenList<'s>,
    l: SeparatedListTrailing1<'s, T>,
) -> bool where
    FI: Fn(TokenList<'s>) -> ParseResult<'s, T>,
    FS: Fn(TokenList<'s>) -> ParseResult<'s, &'s Token<'s>>,
 {
    exists|a: Seq<TokenList<'s>>, b: Seq<TokenList<'s>>|
        {
            &&& #[trigger] separated_calls(pi, ps, a, b, l.items@, *l.last_item)
            &&& a[0] == tokens
            &&& match l.trailing {
                None => b.last() == rest,
                Some(s) => ps.ensures((b.last(),), Ok::<_, ParseError>((rest, s))),
            }
        }
}

/// Parses as many items as possible, until the item parser fails with a non-fatal error.
///
/// A fatal error of the item parser is returned.
pub fn many<'s, T, F>(tokens: TokenList<'s>, parse_item: F, Ghost(f): Ghost<spec_fn(T) -> Seq<Token<'s>>>) -> (r:
    ParseResult<'s, Vec<T>>) where
    F: Fn(TokenList<'s>) -> ParseResult<'s, T>,

    requires
        tokens.wf(),
        parser_from(parse_item, tokens, true),
    ensures
        keeps_tokens(parse_item, f) ==> (r matches Ok((rest, v)) ==> seq_tokens(v@, f) == tokens.tokens_to(rest)),
        parsed(tokens, r, false),
        match r {
            Ok((rest, v)) => stopped_at(parse_item, rest) && called(parse_item, tokens, rest, v@),
            Err(e) => e.is_fatal && error_of(parse_item, tokens, e),
        },
        r matches Err(e) ==> failed_after_calls(parse_item, tokens, e),
        fails_softly(parse_item, tokens) ==> (r matches Ok((rest, v)) && rest == tokens && v@.len() == 0),
{
    let mut cur = tokens;
    let mut values: Vec<T> = Vec::new();
    let ghost mut ps: Seq<TokenList<'s>> = seq![tokens];
    loop
        invariant
            fails_softly(parse_item, tokens) ==> cur == tokens && values@.len() == 0,
            tokens.reaches(cur),
            parser_from(parse_item, tokens, true),
                keeps_tokens(parse_item, f) ==> seq_tokens(values@, f) == tokens.tokens_to(cur),
            successive(parse_item, ps, values@),
            ps[0] == tokens,
            ps.last() == cur,
        decreases cur.remaining(),
    {
        let res = parse_item(cur);
        match res {
            Ok((next, value)) => {
                let ghost prev = values@;
                let ghost prev_ps = ps;
                values.push(value);
                assert(values@.subrange(0, values@.len() - 1) =~= prev);
                proof {
                    ps = ps.push(next);
                    assert forall|i: int| 0 <= i < values@.len() implies parse_item.ensures(
                        (ps[i],),
                        Ok::<_, ParseError>((ps[i + 1], #[trigger] values@[i])),
                    ) by {
                        if i < prev.len() {
                            assert(values@[i] == prev[i]);
                            assert(ps[i] == prev_ps[i] && ps[i + 1] == prev_ps[i + 1]);
                        }
                    }
                }
                cur = next;
            },
            Err(err) => {
                assert(parse_item.ensures((cur,), Err::<(TokenList<'s>, T), ParseError>(err)));
                if err.is_fatal {
                    assert(error_of(parse_item, tokens, err));
                    assert(successive(parse_item, ps, values@));
                    return Err(err);
                }
                assert(successive(parse_item, ps, values@) && ps[0] == tokens && ps.last() == cur);
                return Ok((cur, values));
            },
        }
    }
}

/// Parses items until `until` holds at the position; an error of the item parser is returned.
pub fn many_until<'s, T, U, F>(
    tokens: TokenList<'s>,
    until: U,
    parse_item: F,
    Ghost(f): Ghost<spec_fn(T) -> Seq<Token<'s>>>,
) -> (r: ParseResult<'s, Vec<T>>) where
    U: Fn(TokenList<'s>) -> bool,
    F: Fn(TokenList<'s>) -> ParseResult<'s, T>,

    requires
        tokens.wf(),
        forall|t: TokenList<'s>| tokens.reaches(t) ==> #[trigger] until.requires((t,)),
        parser_from(parse_item, tokens, true),
    ensures
        keeps_tokens(parse_item, f) ==> (r matches Ok((rest, v)) ==> seq_tokens(v@, f) == tokens.tokens_to(rest)),
        parsed(tokens, r, false),
        r matches Ok((rest, _)) ==> until.ensures((rest,), true),
        match r {
            Ok((rest, v)) => called(parse_item, tokens, rest, v@),
            Err(e) => error_of(parse_item, tokens, e),
        },
{
    let mut cur = tokens;
    let mut values: Vec<T> = Vec::new();
    let ghost mut ps: Seq<TokenList<'s>> = seq![tokens];
    loop
        invariant
            tokens.reaches(cur),
            forall|t: TokenList<'s>| tokens.reaches(t) ==> #[trigger] until.requires((t,)),
            parser_from(parse_item, tokens, true),
                keeps_tokens(parse_item, f) ==> seq_tokens(values@, f) == tokens.tokens_to(cur),
            successive(parse_item, ps, values@),
            ps[0] == tokens,
            ps.last() == cur,
        decreases cur.remaining(),
    {
        if until(cur) {
            assert(successive(parse_item, ps, values@) && ps[0] == tokens && ps.last() == cur);
            return Ok((cur, values));
        }
        let (next, value) = match parse_item(cur) {
            Ok(x) => x,
            Err(err) => {
                assert(parse_item.ensures((cur,), Err::<(TokenList<'s>, T), ParseError>(err)));
                assert(error_of(parse_item, tokens, err));
                return Err(err);
            },
        };
        let ghost prev = values@;
        let ghost prev_ps = ps;
        values.push(value);
        assert(values@.subrange(0, values@.len() - 1) =~= prev);
        proof {
            ps = ps.push(next);
            assert forall|i: int| 0 <= i < values@.len() implies parse_item.ensures(
                (ps[i],),
                Ok::<_, ParseError>((ps[i + 1], #[trigger] values@[i])),
            ) by {
                if i < prev.len() {
                    assert(values@[i] == prev[i]);
                    assert(ps[i] == prev_ps[i] && ps[i + 1] == prev_ps[i + 1]);
                }
            }
        }
        cur = next;
    }
}

/// Parses items until the list is ended; an error of the item parser is returned.
#[verifier::rlimit(40)]
pub fn many_until_ended<'s, T, F>(
    tokens: TokenList<'s>,
    parse_item: F,
    Ghost(f): Ghost<spec_fn(T) -> Seq<Token<'s>>>,
) -> (r: ParseResult<'s, Vec<T>>) where
    F: Fn(TokenList<'s>) -> ParseResult<'s, T>,

    requires
        tokens.wf(),
        parser_from(parse_item, tokens, true),
    ensures
        keeps_tokens(parse_item, f) ==> (r matches Ok((rest, v)) ==> seq_tokens(v@, f) == tokens.tokens_to(rest)),
        parsed(tokens, r, false),
        r matches Ok((rest, _)) ==> rest.pos() == rest.items().len(),
        tokens.pos() == tokens.items().len() ==> (r matches Ok((rest, values)) && rest.pos() == tokens.pos()
            && values@.len() == 0),
        match r {
            Ok((rest, v)) => called(parse_item, tokens, rest, v@),
            Err(e) => error_before_end(parse_item, tokens, e),
        },
        r matches Err(e) ==> failed_after(parse_item, tokens, e),
{
    let mut cur = tokens;
    let mut values: Vec<T> = Vec::new();
    let ghost mut ps: Seq<TokenList<'s>> = seq![tokens];
    loop
        invariant
            tokens.reaches(cur),
            parser_from(parse_item, tokens, true),
            cur.pos() == tokens.pos() ==> values@.len() == 0,
                keeps_tokens(parse_item, f) ==> seq_tokens(values@, f) == tokens.tokens_to(cur),
            successive(parse_item, ps, values@),
            ps[0] == tokens,
            ps.last() == cur,
        decreases cur.remaining(),
    {
        if cur.is_ended() {
            assert(successive(parse_item, ps, values@) && ps[0] == tokens && ps.last() == cur);
            return Ok((cur, values));
        }
        let (next, value) = match parse_item(cur) {
            Ok(x) => x,
            Err(err) => {
                assert(parse_item.ensures((cur,), Err::<(TokenList<'s>, T), ParseError>(err)));
                assert(error_before_end(parse_item, tokens, err));
                assert(successive(parse_item, ps, values@));
                return Err(err);
            },
        };
        let ghost prev = values@;
        let ghost prev_ps = ps;
        values.push(value);
        assert(values@.subrange(0, values@.len() - 1) =~= prev);
        proof {
            ps = ps.push(next);
            assert forall|i: int| 0 <= i < values@.len() implies parse_item.ensures(
                (ps[i],),
                Ok::<_, ParseError>((ps[i + 1], #[trigger] values@[i])),
            ) by {
                if i < prev.len() {
                    assert(values@[i] == prev[i]);
                    assert(ps[i] == prev_ps[i] && ps[i + 1] == prev_ps[i + 1]);
                }
            }
        }
        cur = next;
    }
}

/// Parses a list of at least one item with separators between them.
///
/// An error of the first item, or of an item after a separator, is returned; the list ends
/// where the separator parser fails with a non-fatal error.
#[verifier::rlimit(40)]
pub fn separated_list1<'s, T, FI, FS>(
    tokens: TokenList<'s>,
    parse_item: FI,
    parse_separator: FS,
    Ghost(f): Ghost<spec_fn(T) -> Seq<Token<'s>>>,
) -> (r: ParseResult<'s, SeparatedList1<'s, T>>) where
    FI: Fn(TokenList<'s>) -> ParseResult<'s, T>,
    FS: Fn(TokenList<'s>) -> ParseResult<'s, &'s Token<'s>>,

    requires
        tokens.wf(),
        parser_from(parse_item, tokens, false),
        parser_from(parse_separator, tokens, true),
    ensures
        keeps_tokens(parse_item, f) && keeps_separator(parse_separator) ==> (r matches Ok((rest, v)) ==> list1_tokens(v, f) == tokens.tokens_to(rest)),
        parsed(tokens, r, false),
        r matches Ok((rest, _)) ==> stopped_at(parse_separator, rest),
        match r {
            Ok((rest, l)) => separated_called(parse_item, parse_separator, tokens, rest, l.items@, *l.last_item),
            Err(e) => error_of(parse_item, tokens, e) || (e.is_fatal && error_of(parse_separator, tokens, e)),
        },
        r matches Err(e) ==> separated_failed(parse_item, parse_separator, tokens, e),
{
    let (first_tokens, first_item) = match parse_item(tokens) {
        Ok(x) => x,
        Err(err) => {
            assert(parse_item.ensures((tokens,), Err::<(TokenList<'s>, T), ParseError>(err)));
            return Err(err);
        },
    };
    let mut cur = first_tokens;
    let mut list = SeparatedList1 { items: Vec::new(), last_item: Box::new(first_item) };
    let ghost mut a: Seq<TokenList<'s>> = seq![tokens];
    let ghost mut b: Seq<TokenList<'s>> = seq![first_tokens];
    loop
        invariant
            separated_calls(parse_item, parse_separator, a, b, list.items@, *list.last_item),
            a[0] == tokens,
            b.last() == cur,
            tokens.reaches(cur),
            parser_from(parse_item, tokens, false),
            parser_from(parse_separator, tokens, true),
            keeps_tokens(parse_item, f) && keeps_separator(parse_separator) ==> list1_tokens(list, f) == tokens.tokens_to(cur),
        decreases cur.remaining(),
    {
        let sep = parse_separator(cur);
        let (next_tokens, separator) = match sep {
            Ok(vals) => vals,
            Err(err) => {
                assert(parse_separator.ensures((cur,), Err::<(TokenList<'s>, &'s Token<'s>), ParseError>(err)));
                if err.is_fatal {
                    assert(after_item_fails::<T, FI, FS>(parse_item, parse_separator, b.last(), err));
                    assert(separated_calls(parse_item, parse_separator, a, b, list.items@, *list.last_item));
                    return Err(err);
                }
                assert(separated_calls(parse_item, parse_separator, a, b, list.items@, *list.last_item));
                return Ok((cur, list));
            },
        };
        let sep_end = next_tokens;
        let (next_tokens, next_item) = match parse_item(sep_end) {
            Ok(x) => x,
            Err(err) => {
                assert(parse_item.ensures((sep_end,), Err::<(TokenList<'s>, T), ParseError>(err)));
                assert(parse_separator.ensures((cur,), Ok::<_, ParseError>((sep_end, separator))));
                assert(after_item_fails::<T, FI, FS>(parse_item, parse_separator, b.last(), err));
                assert(separated_calls(parse_item, parse_separator, a, b, list.items@, *list.last_item));
                return Err(err);
            },
        };
        let ghost prev = list;
        list.push(separator, next_item);
        assert(list.items@.subrange(0, list.items@.len() - 1) =~= prev.items@);
        proof {
            lemma_separated_calls_push(parse_item, parse_separator, a, b, prev.items@, *prev.last_item, separator, sep_end, next_tokens, next_item);
            a = a.push(sep_end);
            b = b.push(next_tokens);
            assert(list.items@ =~= prev.items@.push((*prev.last_item, separator)));
        }
        cur = next_tokens;
    }
}

/// Parses a list of at least one item with separators between them and possibly one after the
/// last item.
///
/// An error of the first item is returned; after a separator, a non-fatal error of the item
/// parser makes that separator the trailing one.
pub fn separated_list_trailing1<'s, T, FI, FS>(
    tokens: TokenList<'s>,
    parse_item: FI,
    parse_separator: FS,
    Ghost(f): Ghost<spec_fn(T) -> Seq<Token<'s>>>,
) -> (r: ParseResult<'s, SeparatedListTrailing1<'s, T>>) where
    FI: Fn(TokenList<'s>) -> ParseResult<'s, T>,
    FS: Fn(TokenList<'s>) -> ParseResult<'s, &'s Token<'s>>,

    requires
        tokens.wf(),
        parser_from(parse_item, tokens, false),
        parser_from(parse_separator, tokens, true),
    ensures
        keeps_tokens(parse_item, f) && keeps_separator(parse_separator) ==> (r matches Ok((rest, v)) ==> trailing1_tokens(v, f) == tokens.tokens_to(rest)),
        parsed(tokens, r, false),
        r matches Ok((rest, list)) ==> (list.trailing is None ==> stopped_at(parse_separator, rest)),
        r matches Ok((rest, list)) ==> (list.trailing is Some ==> stopped_at(parse_item, rest)),
        match r {
            Ok((rest, l)) => trailing_called(parse_item, parse_separator, tokens, rest, l),
            Err(e) => parse_item.ensures((tokens,), Err::<(TokenList<'s>, T), ParseError>(e)) || (e.is_fatal && (
            error_of(parse_item, tokens, e) || error_of(parse_separator, tokens, e))),
        },
        fails_softly(parse_item, tokens) ==> (r matches Err(e) && !e.is_fatal),
{
    let (first_tokens, first_item) = match parse_item(tokens) {
        Ok(x) => x,
        Err(err) => {
            assert(parse_item.ensures((tokens,), Err::<(TokenList<'s>, T), ParseError>(err)));
            return Err(err);
        },
    };
    proof {
        if fails_softly(parse_item, tokens) {
            assert(parse_item.ensures((tokens,), Ok::<_, ParseError>((first_tokens, first_item))));
        }
    }
    let mut cur = first_tokens;
    let mut list = SeparatedList1 { items: Vec::new(), last_item: Box::new(first_item) };
    let ghost mut a: Seq<TokenList<'s>> = seq![tokens];
    let ghost mut b: Seq<TokenList<'s>> = seq![first_tokens];
    loop
        invariant
            !fails_softly(parse_item, tokens),
            separated_calls(parse_item, parse_separator, a, b, list.items@, *list.last_item),
            a[0] == tokens,
            b.last() == cur,
            tokens.reaches(cur),
            parser_from(parse_item, tokens, false),
            parser_from(parse_separator, tokens, true),
            keeps_tokens(parse_item, f) && keeps_separator(parse_separator) ==> list1_tokens(list, f) == tokens.tokens_to(cur),
        decreases cur.remaining(),
    {
        let sep = parse_separator(cur);
        let (next_tokens, separator) = match sep {
            Ok(vals) => vals,
            Err(err) => {
                assert(parse_separator.ensures((cur,), Err::<(TokenList<'s>, &'s Token<'s>), ParseError>(err)));
                if err.is_fatal {
                    return Err(err);
                }
                let r = list.into_trailing(None);
                assert(separated_calls(parse_item, parse_separator, a, b, r.items@, *r.last_item));
                return Ok((cur, r));
            },
        };
        let sep_end = next_tokens;
        let item = parse_item(sep_end);
        let (next_tokens, next_item) = match item {
            Ok(vals) => vals,
            Err(err) => {
                assert(parse_item.ensures((sep_end,), Err::<(TokenList<'s>, T), ParseError>(err)));
                if err.is_fatal {
                    return Err(err);
                }
                let r = list.into_trailing(Some(separator));
                assert(separated_calls(parse_item, parse_separator, a, b, r.items@, *r.last_item));
                return Ok((sep_end, r));
            },
        };
        let ghost prev = list;
        list.push(separator, next_item);
        assert(list.items@.subrange(0, list.items@.len() - 1) =~= prev.items@);
        proof {
            lemma_separated_calls_push(parse_item, parse_separator, a, b, prev.items@, *prev.last_item, separator, sep_end, next_tokens, next_item);
            a = a.push(sep_end);
            b = b.push(next_tokens);
            assert(list.items@ =~= prev.items@.push((*prev.last_item, separator)));
        }
        cur = next_tokens;
    }
}

/// Parses a possibly empty list of items with separators between them and possibly one after the
/// last item: `None` where the first item fails with a non-fatal error.
pub fn separated_list_trailing0<'s, T, FI, FS>(
    tokens: TokenList<'s>,
    parse_item: FI,
    parse_separator: FS,
    Ghost(f): Ghost<spec_fn(T) -> Seq<Token<'s>>>,
) -> (r: ParseResult<'s, SeparatedListTrailing0<'s, T>>) where
    FI: Fn(TokenList<'s>) -> ParseResult<'s, T>,
    FS: Fn(TokenList<'s>) -> ParseResult<'s, &'s Token<'s>>,

    requires
        tokens.wf(),
        parser_from(parse_item, tokens, false),
        parser_from(parse_separator, tokens, true),
    ensures
        keeps_tokens(parse_item, f) && keeps_separator(parse_separator) ==> (r matches Ok((rest, v)) ==> (match v {
            Some(l) => trailing1_tokens(l, f),
            None => Seq::empty(),
        }) == tokens.tokens_to(rest)),
        parsed(tokens, r, false),
        r matches Ok((rest, None)) ==> rest == tokens && stopped_at(parse_item, tokens),
        match r {
            Ok((rest, Some(l))) => trailing_called(parse_item, parse_separator, tokens, rest, l),
            Ok((_, None)) => true,
            Err(e) => e.is_fatal && (error_of(parse_item, tokens, e) || error_of(parse_separator, tokens, e)),
        },
        fails_softly(parse_item, tokens) ==> (r matches Ok((rest, None)) && rest == tokens),
{
    opt(tokens, separated_list_trailing1(tokens, parse_item, parse_separator, Ghost(f)))
}

} // verus!
