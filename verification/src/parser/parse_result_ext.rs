use crate::parser::context::ContextType;
use crate::parser::error::{replaced_context, ParseError, ParseErrorType};
use crate::parser::token_list::TokenList;
use crate::parser::ParseResult;
use core::ops::Range;
use vstd::prelude::*;

verus! {

/// Operations on parse results: optional parses, fatality of errors, line break checks and
/// error context.
pub trait ParseResultExt<'s, T>: Sized {
    /// The parse result itself.
    fn into_parse_result(self) -> ParseResult<'s, T>;

    /// Turns a non-fatal error into `None` at `tokens`.
    fn maybe(self, tokens: TokenList<'s>) -> ParseResult<'s, Option<T>>;

    /// Makes an error non-fatal.
    fn not_definite(self) -> ParseResult<'s, T>;

    /// Makes an error fatal.
    fn definite(self) -> ParseResult<'s, T>;

    /// Fails if a line break follows the parsed tokens.
    fn not_line_ending(self) -> ParseResult<'s, T>;

    /// Attaches a context to an error, replacing a [`ContextType::Span`] context.
    fn with_context(self, ty: ContextType, range: Range<usize>) -> ParseResult<'s, T>;

    /// Attaches a context from the position of `tokens` to the error's token.
    fn with_context_from(self, ty: ContextType, tokens: TokenList<'s>) -> ParseResult<'s, T>;

    /// Replaces a context of type `from_ty`, or none, on an error.
    fn replace_context(self, from_ty: ContextType, to_ty: ContextType, range: Range<usize>) -> ParseResult<'s, T>;

    /// Replaces a context of type `from_ty`, or none, on an error with one from the position of
    /// `tokens` to the error's token.
    fn replace_context_from(self, from_ty: ContextType, to_ty: ContextType, tokens: TokenList<'s>) -> ParseResult<'s, T>;
}

/// The error `e` with the context of type `to_ty` over `range` in place of one of type
/// `from_ty`, or none.
pub open spec fn error_in_context(e: ParseError, from_ty: ContextType, to_ty: ContextType, range: Range<usize>) -> ParseError {
    ParseError { context: replaced_context(e.context, from_ty, range, to_ty), ..e }
}

impl<'s, T> ParseResultExt<'s, T> for ParseResult<'s, T> {
    fn into_parse_result(self) -> (r: ParseResult<'s, T>)
        ensures
            r == self,
    {
        self
    }

    fn maybe(self, tokens: TokenList<'s>) -> (r: ParseResult<'s, Option<T>>)
        ensures
            match self {
                Ok((rest, v)) => r == Ok::<_, ParseError>((rest, Some(v))),
                Err(e) => if e.is_fatal {
                    r == Err::<(TokenList<'s>, Option<T>), _>(e)
                } else {
                    r == Ok::<_, ParseError>((tokens, None::<T>))
                },
            },
    {
        match self {
            Ok((tokens, val)) => Ok((tokens, Some(val))),
            Err(err) => if err.is_fatal {
                Err(err)
            } else {
                Ok((tokens, None))
            },
        }
    }

    fn not_definite(self) -> (r: ParseResult<'s, T>)
        ensures
            match self {
                Ok(x) => r == Ok::<_, ParseError>(x),
                Err(e) => r == Err::<(TokenList<'s>, T), _>(ParseError { is_fatal: false, ..e }),
            },
    {
        match self {
            Ok(x) => Ok(x),
            Err(err) => Err(err.into_non_fatal()),
        }
    }

    fn definite(self) -> (r: ParseResult<'s, T>)
        ensures
            match self {
                Ok(x) => r == Ok::<_, ParseError>(x),
                Err(e) => r == Err::<(TokenList<'s>, T), _>(ParseError { is_fatal: true, ..e }),
            },
    {
        match self {
            Ok(x) => Ok(x),
            Err(err) => Err(err.into_fatal()),
        }
    }

    fn not_line_ending(self) -> (r: ParseResult<'s, T>)
        ensures
            match self {
                Ok((rest, v)) => if 0 < rest.pos() <= rest.items().len() && rest.items()[rest.pos()
                    - 1].token.new_line is Some {
                    r == Err::<(TokenList<'s>, T), _>(
                        ParseError {
                            ty: ParseErrorType::IllegalLineBreak,
                            token_index: rest.pos() as usize,
                            context: None,
                            is_fatal: false,
                        },
                    )
                } else {
                    r == Ok::<_, ParseError>((rest, v))
                },
                Err(e) => r == Err::<(TokenList<'s>, T), _>(e),
            },
    {
        match self {
            Ok((tokens, val)) => if tokens.is_newline() {
                Err(ParseError::new(ParseErrorType::IllegalLineBreak, tokens.start_index()))
            } else {
                Ok((tokens, val))
            },
            Err(e) => Err(e),
        }
    }

    fn with_context(self, ty: ContextType, range: Range<usize>) -> (r: ParseResult<'s, T>)
        ensures
            match self {
                Ok(x) => r == Ok::<_, ParseError>(x),
                Err(e) => r == Err::<(TokenList<'s>, T), _>(
                    error_in_context(e, ContextType::Span, ty, range),
                ),
            },
    {
        self.replace_context(ContextType::Span, ty, range)
    }

    fn with_context_from(self, ty: ContextType, tokens: TokenList<'s>) -> (r: ParseResult<'s, T>)
        ensures
            match self {
                Ok(x) => r == Ok::<_, ParseError>(x),
                Err(e) => r == Err::<(TokenList<'s>, T), _>(
                    error_in_context(
                        e,
                        ContextType::Span,
                        ty,
                        Range { start: tokens.pos() as usize, end: e.token_index },
                    ),
                ),
            },
    {
        self.replace_context_from(ContextType::Span, ty, tokens)
    }

    fn replace_context(self, from_ty: ContextType, to_ty: ContextType, range: Range<usize>) -> (r: ParseResult<'s, T>)
        ensures
            match self {
                Ok(x) => r == Ok::<_, ParseError>(x),
                Err(e) => r == Err::<(TokenList<'s>, T), _>(error_in_context(e, from_ty, to_ty, range)),
            },
    {
        match self {
            Ok(x) => Ok(x),
            Err(err) => Err(err.replace_context(from_ty, to_ty, range)),
        }
    }

    fn replace_context_from(self, from_ty: ContextType, to_ty: ContextType, tokens: TokenList<'s>) -> (r: ParseResult<'s, T>)
        ensures
            match self {
                Ok(x) => r == Ok::<_, ParseError>(x),
                Err(e) => r == Err::<(TokenList<'s>, T), _>(
                    error_in_context(
                        e,
                        from_ty,
                        to_ty,
                        Range { start: tokens.pos() as usize, end: e.token_index },
                    ),
                ),
            },
    {
        let start_index = tokens.start_index();
        match self {
            Ok(x) => Ok(x),
            Err(err) => {
                let end = err.token_index;
                Err(err.replace_context(from_ty, to_ty, Range { start: start_index, end }))
            },
        }
    }
}

} // verus!
