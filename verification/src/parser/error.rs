use crate::lexer::TokenItem;
use crate::parser::context::ContextType;
use vstd::string::StringExecFns;
use crate::error_display::{error_report_text, render_error};
use crate::token::{terminal_chars, TerminalToken};
use core::ops::Range;
use vstd::prelude::*;
use vstd::string::StringSliceAdditionalSpecFns;

verus! {

/// Type of [`ParseError`].
#[derive(Debug, Clone, Copy, PartialEq, Eq, Structural)]
pub enum ParseErrorType {
    /// An internal unexpected error occurred. This is a bug.
    Internal(InternalErrorType),
    /// Expected a specific terminal token but got something else.
    ExpectedTerminal(TerminalToken),
    /// Expected a specific compound terminal but got something else.
    ExpectedCompound2(TerminalToken, TerminalToken),
    /// Expected a specific compound terminal but got something else.
    ExpectedCompound3(TerminalToken, TerminalToken, TerminalToken),
    /// Expected an identifier but got something else.
    ExpectedIdentifier,
    /// Expected a literal but got something else.
    ExpectedLiteral,
    /// Expected a token that starts an expression but got something else.
    ExpectedExpression,
    /// Expected an operator but got something else.
    ExpectedOperator,
    /// Expected a prefix operator but got something else.
    ExpectedPrefixOperator,
    /// Expected a postfix operator but got something else.
    ExpectedPostfixOperator,
    /// Expected a binary operator but got something else.
    ExpectedBinaryOperator,
    /// Expected a type but got something else.
    ExpectedType,
    /// Expected a type modifier but got something else.
    ExpectedTypeModifier,
    /// Expected a token that starts a table slot but got something else.
    ExpectedTableSlot,
    /// Expected a token that starts a class member but got something else.
    ExpectedClassMember,
    /// Expected a token that starts a statement but got something else.
    ExpectedStatement,
    /// Expected a token that starts a global declaration but got something else.
    ExpectedGlobalDeclaration,
    /// Found a linebreak in a place where one is not allowed.
    IllegalLineBreak,
}

/// An internal unexpected error occurred. If you get one of these, it's a bug.
#[derive(Debug, Clone, Copy, PartialEq, Eq, Structural)]
pub enum InternalErrorType {
    /// A delimiter token does not name a closing token.
    TokenIsNotSpan,
    /// A delimiter token names a closing token past the end of the tokens.
    SpanEndPastEof,
    /// An operator does not bind tightly enough to be parsed at this precedence.
    PrecedenceMismatch,
    /// The token is not an empty token.
    Empty,
}

impl InternalErrorType {
    /// The name of the error, as its variant is named.
    pub open spec fn name_text(self) -> Seq<char> {
        match self {
            InternalErrorType::TokenIsNotSpan => "TokenIsNotSpan"@,
            InternalErrorType::SpanEndPastEof => "SpanEndPastEof"@,
            InternalErrorType::PrecedenceMismatch => "PrecedenceMismatch"@,
            InternalErrorType::Empty => "Empty"@,
        }
    }

    /// The name of the error, as its variant is named.
    pub fn name(self) -> (r: &'static str)
        ensures
            r@ == self.name_text(),
    {
        match self {
            InternalErrorType::TokenIsNotSpan => "TokenIsNotSpan",
            InternalErrorType::SpanEndPastEof => "SpanEndPastEof",
            InternalErrorType::PrecedenceMismatch => "PrecedenceMismatch",
            InternalErrorType::Empty => "Empty",
        }
    }
}

impl ParseErrorType {
    /// The message that describes the error.
    pub open spec fn message_text(self) -> Seq<char> {
        match self {
            ParseErrorType::Internal(val) => "internal error "@ + val.name_text()
                + " - this should not be shown. Please report a bug at https://github.com/cpdt/sqfmt/issues with sample code."@,
            ParseErrorType::ExpectedTerminal(t) => "expected `"@ + terminal_chars(t) + "`"@,
            ParseErrorType::ExpectedCompound2(a, b) => "expected `"@ + terminal_chars(a) + terminal_chars(b) + "`"@,
            ParseErrorType::ExpectedCompound3(a, b, c) => "expected `"@ + terminal_chars(a) + terminal_chars(b)
                + terminal_chars(c) + "`"@,
            ParseErrorType::ExpectedIdentifier => "expected an identifier"@,
            ParseErrorType::ExpectedLiteral => "expected a literal"@,
            ParseErrorType::ExpectedExpression => "expected an expression"@,
            ParseErrorType::ExpectedOperator => "expected an operator"@,
            ParseErrorType::ExpectedPrefixOperator => "expected a prefix operator"@,
            ParseErrorType::ExpectedPostfixOperator => "expected a postfix operator"@,
            ParseErrorType::ExpectedBinaryOperator => "expected a binary operator"@,
            ParseErrorType::ExpectedType => "expected a type"@,
            ParseErrorType::ExpectedTypeModifier => "expected a type modifier"@,
            ParseErrorType::ExpectedTableSlot => "expected a table slot"@,
            ParseErrorType::ExpectedClassMember => "expected a class member"@,
            ParseErrorType::ExpectedStatement => "expected a statement"@,
            ParseErrorType::ExpectedGlobalDeclaration => "expected `function`, `const`, `enum`, `class`, `struct`, `typedef`, or a type"@,
            ParseErrorType::IllegalLineBreak => "expected anything but `\n`; got it anyway"@,
        }
    }

    /// The message that describes the error.
    pub fn message(self) -> (r: String)
        ensures
            r@ == self.message_text(),
    {
        let mut r = String::new();
        match self {
            ParseErrorType::Internal(val) => {
                r.append("internal error ");
                r.append(val.name());
                r.append(
                    " - this should not be shown. Please report a bug at https://github.com/cpdt/sqfmt/issues with sample code.",
                );
            },
            ParseErrorType::ExpectedTerminal(t) => {
                r.append("expected `");
                r.append(t.as_str());
                r.append("`");
            },
            ParseErrorType::ExpectedCompound2(a, b) => {
                r.append("expected `");
                r.append(a.as_str());
                r.append(b.as_str());
                r.append("`");
            },
            ParseErrorType::ExpectedCompound3(a, b, c) => {
                r.append("expected `");
                r.append(a.as_str());
                r.append(b.as_str());
                r.append(c.as_str());
                r.append("`");
            },
            ParseErrorType::ExpectedIdentifier => r.append("expected an identifier"),
            ParseErrorType::ExpectedLiteral => r.append("expected a literal"),
            ParseErrorType::ExpectedExpression => r.append("expected an expression"),
            ParseErrorType::ExpectedOperator => r.append("expected an operator"),
            ParseErrorType::ExpectedPrefixOperator => r.append("expected a prefix operator"),
            ParseErrorType::ExpectedPostfixOperator => r.append("expected a postfix operator"),
            ParseErrorType::ExpectedBinaryOperator => r.append("expected a binary operator"),
            ParseErrorType::ExpectedType => r.append("expected a type"),
            ParseErrorType::ExpectedTypeModifier => r.append("expected a type modifier"),
            ParseErrorType::ExpectedTableSlot => r.append("expected a table slot"),
            ParseErrorType::ExpectedClassMember => r.append("expected a class member"),
            ParseErrorType::ExpectedStatement => r.append("expected a statement"),
            ParseErrorType::ExpectedGlobalDeclaration => r.append(
                "expected `function`, `const`, `enum`, `class`, `struct`, `typedef`, or a type",
            ),
            ParseErrorType::IllegalLineBreak => r.append("expected anything but `\n`; got it anyway"),
        }
        r
    }
}

/// An error emitted while trying to parse a token list.
///
/// Each error has a type with more information, the token where the error occurred, and possibly
/// some contextual information.
#[derive(Debug, Clone)]
pub struct ParseError {
    /// The type of error.
    pub ty: ParseErrorType,
    /// The index of the token where the error occurred.
    pub token_index: usize,
    /// Contextual information if available.
    pub context: Option<ParseErrorContext>,
    /// Whether the error stops parsing, rather than letting the parser try another alternative.
    pub is_fatal: bool,
}

/// Context attached to a [`ParseError`]: the range of tokens of the construct that the parser
/// knows it was parsing, and the kind of construct.
#[derive(Debug, Clone)]
pub struct ParseErrorContext {
    /// The range of tokens that this context applies to.
    pub token_range: Range<usize>,
    /// The type of context.
    pub ty: ContextType,
}

/// The context after attaching `ty` over `token_range` to an error with context `context`, where
/// only a context of type `from_ty`, or none, is replaced: a replaced context's range grows to
/// cover the new range.
pub open spec fn replaced_context(
    context: Option<ParseErrorContext>,
    from_ty: ContextType,
    token_range: Range<usize>,
    ty: ContextType,
) -> Option<ParseErrorContext> {
    match context {
        None => Some(ParseErrorContext { token_range, ty }),
        Some(c) => if c.ty == from_ty {
            Some(
                ParseErrorContext {
                    token_range: Range {
                        start: if c.token_range.start <= token_range.start {
                            c.token_range.start
                        } else {
                            token_range.start
                        },
                        end: if c.token_range.end >= token_range.end {
                            c.token_range.end
                        } else {
                            token_range.end
                        },
                    },
                    ty,
                },
            )
        } else {
            Some(c)
        },
    }
}

/// The byte range in the source of token `token_index`, or the empty range at the end of the
/// source for an index past the last token.
pub fn token_src_range(token_index: usize, tokens: &[TokenItem], src: &str) -> (r: Range<usize>)
    ensures
        if token_index < tokens@.len() {
            r == tokens@[token_index as int].token.range
        } else {
            r == (Range { start: src.spec_bytes().len() as usize, end: src.spec_bytes().len() as usize })
        },
{
    if token_index < tokens.len() {
        let range = &tokens[token_index].token.range;
        Range { start: range.start, end: range.end }
    } else {
        let n = src.as_bytes().len();
        Range { start: n, end: n }
    }
}

/// The bytes of the source that token `index` covers, or the empty range at the end of the source
/// if there is no such token.
pub open spec fn token_source_range(items: Seq<TokenItem>, source_len: nat, index: int) -> Range<usize> {
    if 0 <= index < items.len() {
        Range { start: items[index].token.range.start, end: items[index].token.range.end }
    } else {
        Range { start: source_len as usize, end: source_len as usize }
    }
}

/// Every token covers bytes of a source of `source_len` bytes, in order.
pub open spec fn tokens_within(items: Seq<TokenItem>, source_len: nat) -> bool {
    forall|i: int|
        0 <= i < items.len() ==> #[trigger] items[i].token.range.start <= items[i].token.range.end <= source_len
}

/// The text of a parse error: the report of the source of the token where it occurred, followed by
/// its message; then, if the construct it occurred in is known, an empty line and the report of
/// the construct's source followed by `in this` and the construct's description.
pub open spec fn parse_error_text(e: ParseError, b: Seq<u8>, items: Seq<TokenItem>) -> Seq<char> {
    let main = error_report_text(b, token_source_range(items, b.len(), e.token_index as int)) + seq![' ']
        + e.ty.message_text();
    match e.context {
        Some(c) => {
            let start = token_source_range(items, b.len(), c.token_range.start as int);
            let end = token_source_range(items, b.len(), c.token_range.end - 1);
            main + seq!['\n', '\n'] + error_report_text(b, Range { start: start.start, end: end.end }) + seq![
                ' ',
                'i',
                'n',
                ' ',
                't',
                'h',
                'i',
                's',
                ' ',
            ] + c.ty.description_text()
        },
        None => main,
    }
}

impl ParseError {
    /// Writes the error with the source of the token where it occurred, and of the construct it
    /// occurred in if known, as [`parse_error_text`] states.
    pub fn display_text(&self, source: &str, tokens: &[TokenItem]) -> (s: String)
        requires
            source.spec_bytes().len() < usize::MAX / 2,
            tokens_within(tokens@, source.spec_bytes().len()),
            self.context matches Some(c) ==> c.token_range.end >= 1 && token_source_range(
                tokens@,
                source.spec_bytes().len(),
                c.token_range.start as int,
            ).start <= token_source_range(tokens@, source.spec_bytes().len(), c.token_range.end - 1).end,
        ensures
            s@ == parse_error_text(*self, source.spec_bytes(), tokens@),
    {
        proof {
            reveal_strlit(" ");
            reveal_strlit("\n\n");
            reveal_strlit(" in this ");
        }
        let range = token_src_range(self.token_index, tokens, source);
        let mut s = render_error(range, source);
        s.append(" ");
        s.append(self.ty.message().as_str());
        if let Some(context) = &self.context {
            let start = token_src_range(context.token_range.start, tokens, source);
            let end = token_src_range(context.token_range.end - 1, tokens, source);
            s.append("\n\n");
            s.append(render_error(start.start..end.end, source).as_str());
            s.append(" in this ");
            s.append(context.ty.description());
        }
        proof {
            assert(" "@ =~= seq![' ']);
            assert("\n\n"@ =~= seq!['\n', '\n']);
            assert(" in this "@ =~= seq![' ', 'i', 'n', ' ', 't', 'h', 'i', 's', ' ']);
            assert(s@ =~= parse_error_text(*self, source.spec_bytes(), tokens@));
        }
        s
    }

    /// Creates a new `ParseError`.
    pub fn new(ty: ParseErrorType, token_index: usize) -> (e: Self)
        ensures
            e.ty == ty,
            e.token_index == token_index,
            e.context is None,
            !e.is_fatal,
    {
        ParseError { ty, token_index, context: None, is_fatal: false }
    }

    /// Attaches some context to the error.
    ///
    /// If the error already has context attached, it is only replaced if the new context is more
    /// useful, that is if the old one is a [`ContextType::Span`]; the replaced range grows to
    /// cover the new one.
    pub fn with_context(self, token_range: Range<usize>, ty: ContextType) -> (e: Self)
        ensures
            e.ty == self.ty,
            e.token_index == self.token_index,
            e.is_fatal == self.is_fatal,
            e.context == replaced_context(self.context, ContextType::Span, token_range, ty),
    {
        self.replace_context(ContextType::Span, ty, token_range)
    }

    /// Replaces a context of type `from_ty`, or none, with one of type `to_ty` over
    /// `token_range`; a replaced range grows to cover the new one.
    pub fn replace_context(self, from_ty: ContextType, to_ty: ContextType, token_range: Range<usize>) -> (e: Self)
        ensures
            e.ty == self.ty,
            e.token_index == self.token_index,
            e.is_fatal == self.is_fatal,
            e.context == replaced_context(self.context, from_ty, token_range, to_ty),
    {
        let context = match self.context {
            None => Some(ParseErrorContext { token_range, ty: to_ty }),
            Some(c) => if c.ty == from_ty {
                let start = if c.token_range.start <= token_range.start {
                    c.token_range.start
                } else {
                    token_range.start
                };
                let end = if c.token_range.end >= token_range.end {
                    c.token_range.end
                } else {
                    token_range.end
                };
                Some(ParseErrorContext { token_range: Range { start, end }, ty: to_ty })
            } else {
                Some(c)
            },
        };
        ParseError { ty: self.ty, token_index: self.token_index, context, is_fatal: self.is_fatal }
    }

    /// Whether the error stops parsing.
    pub fn is_fatal(&self) -> (b: bool)
        ensures
            b == self.is_fatal,
    {
        self.is_fatal
    }

    /// Marks the error as one that stops parsing.
    pub(crate) fn into_fatal(self) -> (e: Self)
        ensures
            e.ty == self.ty,
            e.token_index == self.token_index,
            e.context == self.context,
            e.is_fatal,
    {
        ParseError { is_fatal: true, ..self }
    }

    /// Marks the error as one that lets the parser try another alternative.
    pub(crate) fn into_non_fatal(self) -> (e: Self)
        ensures
            e.ty == self.ty,
            e.token_index == self.token_index,
            e.context == self.context,
            !e.is_fatal,
    {
        ParseError { is_fatal: false, ..self }
    }
}

} // verus!
