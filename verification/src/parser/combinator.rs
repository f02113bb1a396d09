use crate::parser::context::ContextType;
use crate::parser::error::{replaced_context, InternalErrorType, ParseError, ParseErrorType};
use crate::parser::token::{error_at, terminal, terminal_at, terminal_item};
use crate::parser::token_list::TokenList;
use crate::parser::token_list::{closed_before, span_ok_at, spans_from};
use crate::parser::{is_span_error, parsed, parsed_in, ParseResult};
use crate::lexer::{closer_of, TokenItem};
use crate::token::{TerminalToken, Token, TokenType};
use core::ops::Range;
use vstd::prelude::*;

verus! {

/// `inner` is the list of the tokens inside a delimited span whose opening delimiter is just
/// before `after`: it starts at the position of `after` and stops at the closing delimiter.
pub open spec fn span_inner<'s>(after: TokenList<'s>, inner: TokenList<'s>) -> bool {
    &&& inner.wf()
    &&& inner.pos() == after.pos()
    &&& inner.items().len() < after.items().len()
    &&& inner.items() == after.items().take(inner.items().len() as int)
    &&& inner.spec_flavor() == after.spec_flavor()
}

/// `inner` is the list of the tokens inside a delimited span whose opening delimiter is at the
/// position of `tokens`.
pub open spec fn span_inner_at<'s>(tokens: TokenList<'s>, inner: TokenList<'s>) -> bool {
    &&& inner.wf()
    &&& inner.pos() == tokens.pos() + 1
    &&& inner.items().len() < tokens.items().len()
    &&& inner.items() == tokens.items().take(inner.items().len() as int)
    &&& inner.spec_flavor() == tokens.spec_flavor()
}

/// Keeps a success as `Some` and turns a non-fatal error into `None` at `tokens`.
pub fn opt<'s, T>(tokens: TokenList<'s>, res: ParseResult<'s, T>) -> (r: ParseResult<'s, Option<T>>)
    ensures
        match res {
            Ok((rest, v)) => r == Ok::<_, ParseError>((rest, Some(v))),
            Err(e) => if e.is_fatal {
                r == Err::<(TokenList<'s>, Option<T>), _>(e)
            } else {
                r == Ok::<_, ParseError>((tokens, None::<T>))
            },
        },
{
    match res {
        Ok((tokens, val)) => Ok((tokens, Some(val))),
        Err(err) => if err.is_fatal {
            Err(err)
        } else {
            Ok((tokens, None))
        },
    }
}

/// Maps the value of a success.
pub fn map<'s, A, B, F: FnOnce(A) -> B>(res: ParseResult<'s, A>, mapper: F) -> (r: ParseResult<'s, B>)
    requires
        res matches Ok((_, a)) ==> mapper.requires((a,)),
    ensures
        match res {
            Ok((rest, a)) => r matches Ok((rest2, b)) && rest2 == rest && mapper.ensures((a,), b),
            Err(e) => r == Err::<(TokenList<'s>, B), _>(e),
        },
{
    match res {
        Ok((tokens, a)) => Ok((tokens, mapper(a))),
        Err(e) => Err(e),
    }
}

/// A success or a fatal error as `Some`, and a non-fatal error as `None`, so that another
/// alternative can be tried.
pub fn alt<'s, T>(res: ParseResult<'s, T>) -> (r: Option<ParseResult<'s, T>>)
    ensures
        match res {
            Ok(x) => r == Some(Ok::<_, ParseError>(x)),
            Err(e) => if e.is_fatal {
                r == Some(Err::<(TokenList<'s>, T), _>(e))
            } else {
                r is None
            },
        },
{
    match res {
        Ok((tokens, a)) => Some(Ok((tokens, a))),
        Err(err) => if err.is_fatal {
            Some(Err(err))
        } else {
            None
        },
    }
}

/// [`alt`] of the mapped result.
pub fn alt_map<'s, A, B, F: FnOnce(A) -> B>(res: ParseResult<'s, A>, mapper: F) -> (r: Option<ParseResult<'s, B>>)
    requires
        res matches Ok((_, a)) ==> mapper.requires((a,)),
    ensures
        match res {
            Ok((rest, a)) => r matches Some(Ok((rest2, b))) && rest2 == rest && mapper.ensures((a,), b),
            Err(e) => if e.is_fatal {
                r == Some(Err::<(TokenList<'s>, B), _>(e))
            } else {
                r is None
            },
        },
{
    alt(map(res, mapper))
}

/// Fails with [`ParseErrorType::IllegalLineBreak`] where a parse that moved past some tokens
/// ends a line.
pub fn prevent_ending_line<'s, T>(tokens: TokenList<'s>, res: ParseResult<'s, T>) -> (r: ParseResult<'s, T>)
    ensures
        match res {
            Ok((rest, v)) => if tokens.pos() != rest.pos() && 0 < rest.pos() <= rest.items().len()
                && rest.items()[rest.pos() - 1].token.new_line is Some {
                r == Err::<(TokenList<'s>, T), _>(
                    ParseError {
                        ty: ParseErrorType::IllegalLineBreak,
                        token_index: (rest.pos() - 1) as usize,
                        context: None,
                        is_fatal: false,
                    },
                )
            } else {
                r == Ok::<_, ParseError>((rest, v))
            },
            Err(e) => r == Err::<(TokenList<'s>, T), _>(e),
        },
{
    let (new_tokens, val) = res?;
    if tokens.start_index() != new_tokens.start_index() && new_tokens.is_newline() {
        Err(ParseError::new(ParseErrorType::IllegalLineBreak, new_tokens.start_index() - 1))
    } else {
        Ok((new_tokens, val))
    }
}

/// Parses a determinant, after which the input is known to be of one kind: an error of the
/// remaining parser is then fatal, with `context` from `tokens` through the error's token.
pub fn definitely<'s, D, T, FD, FR>(tokens: TokenList<'s>, context: ContextType, determinant: FD, remaining: FR) -> (r:
    ParseResult<'s, T>) where
    FD: FnOnce(TokenList<'s>) -> ParseResult<'s, D>,
    FR: FnOnce(TokenList<'s>, D) -> ParseResult<'s, T>,

    requires
        tokens.wf(),
        determinant.requires((tokens,)),
        forall|r: ParseResult<'s, D>| #[trigger] determinant.ensures((tokens,), r) ==> parsed(tokens, r, false),
        forall|t: TokenList<'s>, d: D| tokens.reaches(t) ==> #[trigger] remaining.requires((t, d)),
        forall|t: TokenList<'s>, d: D, r: ParseResult<'s, T>| #[trigger] remaining.ensures((t, d), r) ==> parsed(t, r, false),
    ensures
        parsed(tokens, r, false),
        r matches Err(e) ==> (e.is_fatal || (exists|d: ParseResult<'s, D>| #[trigger] determinant.ensures((tokens,), d) && d == Err::<(TokenList<'s>, D), _>(e))),
{
    let start_index = tokens.start_index();
    let (rem_tokens, d) = determinant(tokens)?;
    match remaining(rem_tokens, d) {
        Ok(x) => Ok(x),
        Err(err) => {
            let index = err.token_index + 1;
            Err(err.with_context(Range { start: start_index, end: index }, context).into_fatal())
        },
    }
}

/// Splits the span whose opening delimiter is just before `after`: the list inside it, the list at
/// its closing delimiter, and the index of that delimiter.
///
/// A delimiter that names no closing token, or one that is not a later token of the list, is an
/// internal error, which stops parsing.
pub fn split_span<'s>(after: TokenList<'s>) -> (r: Result<(TokenList<'s>, TokenList<'s>, usize), ParseError>)
    requires
        after.wf(),
        0 < after.pos(),
    ensures
        match r {
            Ok((inner, outer, close_index)) => {
                &&& span_inner(after, inner)
                &&& inner.items().len() == close_index
                &&& after.reaches(outer)
                &&& outer.pos() == close_index
                &&& Some(close_index) == after.items()[after.pos() - 1].close_index
                &&& spans_from(after.items(), after.pos() - 1) ==> inner.spans_ok()
            },
            Err(e) => {
                &&& e.is_fatal
                &&& e.context is None
                &&& e.token_index == after.pos() - 1
                &&& is_span_error(e.ty)
                &&& !(spans_from(after.items(), after.pos() - 1) && closer_of(
                    after.items()[after.pos() - 1].token.ty,
                ) is Some)
            },
        },
{
    let index = after.start_index() - 1;
    proof {
        if spans_from(after.items(), after.pos() - 1) {
            assert(span_ok_at(after.items(), after.pos() - 1));
        }
    }
    let open_item = match after.previous() {
        Some(item) => item,
        None => return Err(ParseError::new(ParseErrorType::Internal(InternalErrorType::TokenIsNotSpan), index).into_fatal()),
    };
    let close_index = match open_item.close_index {
        Some(i) => i,
        None => return Err(ParseError::new(ParseErrorType::Internal(InternalErrorType::TokenIsNotSpan), index).into_fatal()),
    };
    if close_index < after.start_index() || close_index >= after.len() {
        return Err(ParseError::new(ParseErrorType::Internal(InternalErrorType::SpanEndPastEof), index).into_fatal());
    }
    let (inner, outer) = after.split_at(close_index);
    proof {
        let items = after.items();
        let o = after.pos() - 1;
        if spans_from(items, o) {
            assert(span_ok_at(items, o));
            assert forall|i: int| inner.pos() <= i < inner.items().len() implies #[trigger] span_ok_at(
                inner.items(),
                i,
            ) by {
                assert(span_ok_at(items, i));
                assert(closed_before(items, i, close_index as int));
                match items[i].close_index {
                    Some(d) => {
                        assert forall|j: int| i < j < d implies #[trigger] closed_before(
                            inner.items(),
                            j,
                            d as int,
                        ) by {
                            assert(closed_before(items, j, d as int));
                        }
                    },
                    None => {},
                }
            }
        }
    }
    Ok((inner, outer, close_index))
}

/// The error for tokens left in a span after its contents were parsed: the first of them that is
/// not the closing terminal, or the end of the span.
pub fn unclosed_error<'s>(rest: TokenList<'s>, close: TerminalToken) -> (e: ParseError)
    requires
        rest.wf(),
    ensures
        e.ty == ParseErrorType::ExpectedTerminal(close),
        rest.pos() <= e.token_index <= rest.items().len(),
        e.context is None,
        !e.is_fatal,
{
    let mut cur = rest;
    loop
        invariant
            rest.reaches(cur),
        decreases cur.remaining(),
    {
        match terminal(cur, close) {
            Ok((next, _)) => {
                cur = next;
            },
            Err(e) => {
                return e;
            },
        }
    }
}

/// `v` is what `inner` gave on exactly the tokens inside the span opened at the position of
/// `tokens`, given the two delimiters, having read all of them; the span is closed by
/// `close_terminal`, and `rest` is the list after it.
pub open spec fn span_called<'s, T, F: FnOnce(TokenList<'s>, &'s Token<'s>, &'s Token<'s>) -> ParseResult<'s, T>>(
    inner: F,
    tokens: TokenList<'s>,
    close_terminal: TerminalToken,
    rest: TokenList<'s>,
    v: T,
) -> bool {
    exists|t: TokenList<'s>, end: TokenList<'s>, o: &'s Token<'s>, c: &'s Token<'s>|
        {
            &&& span_inner_at(tokens, t)
            &&& *o == tokens.items()[tokens.pos()].token
            &&& terminal_at(tokens, t.items().len() as int, close_terminal)
            &&& *c == tokens.items()[t.items().len() as int].token
            &&& #[trigger] inner.ensures((t, o, c), Ok::<_, ParseError>((end, v)))
            &&& end.pos() == t.items().len()
            &&& tokens.reaches(rest)
            &&& rest.pos() == t.items().len() + 1
        }
}

/// The error of a span opened at the position of `tokens`, whose closing delimiter is at `c`:
/// fatal, of the given type and index, with `context` over the span's tokens put in place of an
/// unnamed context of `from`.
pub open spec fn span_error_is(tokens: TokenList, c: int, context: ContextType, ty: ParseErrorType, index: int, from: Option<crate::parser::error::ParseErrorContext>, e: ParseError) -> bool {
    e == ParseError {
        ty,
        token_index: index as usize,
        context: replaced_context(
            from,
            ContextType::Span,
            Range { start: tokens.pos() as usize, end: (c + 1) as usize },
            context,
        ),
        is_fatal: true,
    }
}

/// `e` is the error of a span opened at the position of `tokens`: where the closing delimiter is
/// not `close_terminal`, an expected `close_terminal` there; else the error of `inner` on the
/// tokens inside, or, where `inner` left tokens, an expected `close_terminal` at the first of
/// them; fatal, with `context` over the span's tokens.
pub open spec fn span_failed<'s, T, F: FnOnce(TokenList<'s>, &'s Token<'s>, &'s Token<'s>) -> ParseResult<'s, T>>(
    inner: F,
    tokens: TokenList<'s>,
    context: ContextType,
    close_terminal: TerminalToken,
    e: ParseError,
) -> bool {
    let i = tokens.pos();
    let c = tokens.items()[i].close_index.unwrap() as int;
    let closer = ParseErrorType::ExpectedTerminal(close_terminal);
    &&& tokens.items()[i].close_index is Some
    &&& if !terminal_at(tokens, c, close_terminal) {
        span_error_is(tokens, c, context, closer, c, None, e)
    } else {
        exists|t: TokenList<'s>, o: &'s Token<'s>, k: &'s Token<'s>, res: ParseResult<'s, T>|
            {
                &&& span_inner_at(tokens, t)
                &&& t.items().len() == c
                &&& *o == tokens.items()[i].token
                &&& *k == tokens.items()[c].token
                &&& #[trigger] inner.ensures((t, o, k), res)
                &&& match res {
                    Err(e0) => span_error_is(tokens, c, context, e0.ty, e0.token_index as int, e0.context, e),
                    Ok((end, _)) => end.pos() < end.items().len() && span_error_is(
                        tokens,
                        c,
                        context,
                        closer,
                        end.pos(),
                        None,
                        e,
                    ),
                }
            }
    }
}

/// Parses a span delimited by `open_terminal` and `close_terminal`, with `inner` parsing the
/// tokens inside: all of them, or the error is an expected closing terminal. An error after the
/// opening delimiter is fatal, with `context` over the span.
pub fn span<'s, T, F>(
    tokens: TokenList<'s>,
    context: ContextType,
    open_terminal: TerminalToken,
    close_terminal: TerminalToken,
    inner: F,
) -> (r: ParseResult<'s, T>) where
    F: FnOnce(TokenList<'s>, &'s Token<'s>, &'s Token<'s>) -> ParseResult<'s, T>,

    requires
        tokens.wf(),
        forall|t: TokenList<'s>, o: &'s Token<'s>, c: &'s Token<'s>|
            span_inner_at(tokens, t) ==> #[trigger] inner.requires((t, o, c)),
        forall|t: TokenList<'s>, o: &'s Token<'s>, c: &'s Token<'s>, r: ParseResult<'s, T>|
            #[trigger] inner.ensures((t, o, c), r) ==> parsed(t, r, false),
    ensures
        parsed_in(tokens, r, true),
        tokens.spans_ok() && closer_of(TokenType::Terminal(open_terminal)) is Some ==> !(r matches Err(e)
            && is_span_error(e.ty)),
        r is Ok ==> terminal_at(tokens, tokens.pos(), open_terminal),
        !terminal_at(tokens, tokens.pos(), open_terminal) ==> (r matches Err(e) && !e.is_fatal && e.ty
            == ParseErrorType::ExpectedTerminal(open_terminal) && e.token_index == tokens.pos()),
        r matches Err(e) ==> (e.is_fatal || !terminal_at(tokens, tokens.pos(), open_terminal)),
        r matches Err(e) ==> (terminal_at(tokens, tokens.pos(), open_terminal) && !(e.ty is Internal)
            ==> e.context is Some),
        r matches Ok((rest, v)) ==> span_called(inner, tokens, close_terminal, rest, v),
        r matches Err(e) ==> (terminal_at(tokens, tokens.pos(), open_terminal) && !is_span_error(e.ty) ==> span_failed(
            inner,
            tokens,
            context,
            close_terminal,
            e,
        )),
{
    let start_index = tokens.start_index();
    let (next_tokens, open_item) = terminal_item(tokens, open_terminal)?;
    let (inner_tokens, outer_tokens, close_index) = match split_span(next_tokens) {
        Ok(x) => x,
        Err(e) => return Err(ParseError { token_index: start_index, ..e }),
    };
    let range = Range { start: start_index, end: close_index + 1 };
    let (outer_tokens, close_token) = match terminal(outer_tokens, close_terminal) {
        Ok(x) => x,
        Err(err) => return Err(err.with_context(range, context).into_fatal()),
    };
    let inner_start = inner_tokens;
    let (inner_tokens, value) = match inner(inner_start, &open_item.token, close_token) {
        Ok(x) => x,
        Err(err) => {
            assert(inner.ensures(
                (inner_start, &open_item.token, close_token),
                Err::<(TokenList<'s>, T), ParseError>(err),
            ));
            return Err(err.with_context(range, context).into_fatal());
        },
    };
    proof {
        assert(inner.ensures((inner_start, &open_item.token, close_token), Ok::<_, ParseError>((inner_tokens, value))));
        assert(span_inner_at(tokens, inner_start));
        assert(terminal_at(tokens, inner_start.items().len() as int, close_terminal));
    }
    if !inner_tokens.is_ended() {
        return Err(
            ParseError::new(ParseErrorType::ExpectedTerminal(close_terminal), inner_tokens.start_index())
                .with_context(range, context)
                .into_fatal(),
        );
    }
    Ok((outer_tokens, value))
}

/// Parses the delimiters of a span opened by `open` at the position of `tokens` and closed by
/// `close`: the list inside, the list after the closing delimiter, the two delimiters, and the
/// range of the span's tokens. An error at the closing delimiter carries `context` over the span
/// and is fatal if `fatal`.
pub fn span_open<'s>(tokens: TokenList<'s>, context: ContextType, open: TerminalToken, close: TerminalToken, fatal: bool) -> (r:
    Result<(TokenList<'s>, TokenList<'s>, &'s Token<'s>, &'s Token<'s>, usize, usize), ParseError>)
    requires
        tokens.wf(),
        closer_of(TokenType::Terminal(open)) is Some,
    ensures
        match r {
            Ok((inner, outer, o, c, start, end)) => {
                &&& span_inner_at(tokens, inner)
                &&& terminal_at(tokens, tokens.pos(), open)
                &&& *o == tokens.items()[tokens.pos()].token
                &&& tokens.reaches(outer)
                &&& outer.pos() == end
                &&& inner.items().len() + 1 == end
                &&& start == tokens.pos()
                &&& tokens.spans_ok() ==> inner.spans_ok()
                &&& *c == tokens.items()[end - 1].token
                &&& forall|x: TokenList<'s>|
                    inner.reaches(x) && x.pos() == x.items().len() ==> tokens.tokens_to(outer) == seq![*o]
                        + #[trigger] inner.tokens_to(x) + seq![*c]
            },
            Err(e) => {
                &&& e.token_index <= tokens.items().len()
                &&& tokens.spans_ok() ==> !is_span_error(e.ty)
                &&& (!terminal_at(tokens, tokens.pos(), open) ==> e == error_at(
                    ParseErrorType::ExpectedTerminal(open),
                    tokens.pos(),
                ))
                &&& (terminal_at(tokens, tokens.pos(), open) ==> (e.is_fatal == fatal || (is_span_error(e.ty) && e.is_fatal)))
            },
        },
        tokens.spans_ok() && terminal_at(tokens, tokens.pos(), open) && (tokens.items()[tokens.pos()].close_index matches Some(
            c,
        ) && terminal_at(tokens, c as int, close)) ==> (r matches Ok((inner, outer, _, _, _, end)) && end
            == tokens.items()[tokens.pos()].close_index.unwrap() + 1),
{
    let start = tokens.start_index();
    let (after, open_item) = terminal_item(tokens, open)?;
    let (inner, outer, close_index) = match split_span(after) {
        Ok(x) => x,
        Err(e) => return Err(e),
    };
    let end = close_index + 1;
    match terminal(outer, close) {
        Ok((outer2, close_token)) => {
            proof {
                assert forall|x: TokenList<'s>| inner.reaches(x) && x.pos() == x.items().len() implies tokens.tokens_to(
                    outer2,
                ) == seq![open_item.token] + #[trigger] inner.tokens_to(x) + seq![*close_token] by {
                    assert(inner.tokens_to(x) =~= tokens.items().subrange(tokens.pos() + 1, close_index as int).map_values(
                        |it: TokenItem<'s>| it.token,
                    ));
                    assert(tokens.tokens_to(outer2) =~= seq![open_item.token] + inner.tokens_to(x) + seq![*close_token]);
                }
            }
            Ok((inner, outer2, &open_item.token, close_token, start, end))
        },
        Err(err) => {
            let err = err.with_context(Range { start, end }, context);
            if fatal {
                Err(err.into_fatal())
            } else {
                Err(err)
            }
        },
    }
}

/// An error inside a span gets `context` over the span's range, and is made fatal if `fatal`.
pub fn in_span<'s, T>(res: ParseResult<'s, T>, start: usize, end: usize, context: ContextType, fatal: bool) -> (r:
    ParseResult<'s, T>)
    ensures
        match res {
            Ok(x) => r == Ok::<_, ParseError>(x),
            Err(e) => r matches Err(e2) && e2.token_index == e.token_index && e2.ty == e.ty && (e2.is_fatal
                == (fatal || e.is_fatal)) && e2.context == replaced_context(
                e.context,
                ContextType::Span,
                Range { start, end },
                context,
            ),
        },
{
    match res {
        Ok(x) => Ok(x),
        Err(err) => {
            let err = err.with_context(Range { start, end }, context);
            if fatal {
                Err(err.into_fatal())
            } else {
                Err(err)
            }
        },
    }
}

/// The contents of a span must take all of its tokens: otherwise the error is an expected
/// closing terminal at the first token left, with `context` over the span, fatal.
pub fn span_end<'s>(rest: TokenList<'s>, close: TerminalToken, start: usize, end: usize, context: ContextType) -> (r:
    Result<(), ParseError>)
    requires
        rest.wf(),
    ensures
        match r {
            Ok(()) => rest.pos() == rest.items().len(),
            Err(e) => rest.pos() < rest.items().len() && e.token_index == rest.pos() && e.is_fatal
                && e.ty == ParseErrorType::ExpectedTerminal(close),
        },
{
    if !rest.is_ended() {
        return Err(
            ParseError::new(ParseErrorType::ExpectedTerminal(close), rest.start_index()).with_context(
                Range { start, end },
                context,
            ).into_fatal(),
        );
    }
    Ok(())
}

/// The contents of a span opened with [`span_open`] must take all of its tokens: otherwise the
/// error is the first token left that is not the closing terminal, or the end of the span, with
/// `context` over the span, fatal if `fatal`.
pub fn opens_end<'s>(rest: TokenList<'s>, close: TerminalToken, start: usize, end: usize, context: ContextType, fatal: bool) -> (r:
    Result<(), ParseError>)
    requires
        rest.wf(),
    ensures
        match r {
            Ok(()) => rest.pos() == rest.items().len(),
            Err(e) => rest.pos() < rest.items().len() && rest.pos() <= e.token_index <= rest.items().len()
                && e.is_fatal == fatal && e.ty == ParseErrorType::ExpectedTerminal(close),
        },
{
    if !rest.is_ended() {
        let err = unclosed_error(rest, close).with_context(Range { start, end }, context);
        if fatal {
            return Err(err.into_fatal());
        }
        return Err(err);
    }
    Ok(())
}

/// Attaches `context` from `start` through the error's token to an error, and makes it fatal: the
/// error of a parse after a determinant.
pub fn definitely_after<'s, T>(start: TokenList<'s>, context: ContextType, res: ParseResult<'s, T>) -> (r:
    ParseResult<'s, T>)
    requires
        res matches Err(e) ==> e.token_index < usize::MAX,
    ensures
        match res {
            Ok(x) => r == Ok::<_, ParseError>(x),
            Err(e) => r matches Err(e2) && e2.token_index == e.token_index && e2.ty == e.ty && e2.is_fatal
                && e2.context == replaced_context(
                e.context,
                ContextType::Span,
                Range { start: start.pos() as usize, end: (e.token_index + 1) as usize },
                context,
            ),
        },
{
    match res {
        Ok(x) => Ok(x),
        Err(err) => {
            let end = err.token_index + 1;
            Err(err.with_context(Range { start: start.start_index(), end }, context).into_fatal())
        },
    }
}

} // verus!
