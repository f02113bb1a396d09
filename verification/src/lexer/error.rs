use vstd::string::StringExecFns;
use crate::token::TokenType;
use core::ops::Range;
use vstd::prelude::*;

verus! {

/// Type of [`LexerError`].
#[derive(Debug, Clone, Copy)]
pub enum LexerErrorType<'s> {
    /// The input string ended in the middle of a string.
    EndOfInputInsideString,
    /// The line ended in the middle of a non-verbatim string.
    EndOfLineInsideString,
    /// Something in the input was not recognized as a valid token.
    InvalidInput,
    /// An opener token was not matched by a closing token.
    UnmatchedOpener { open: TokenType<'s>, close: TokenType<'s> },
}

/// An error emitted while trying to tokenize an input string.
///
/// Each error has a type with more information, and a range indicating where in the source string
/// the error occurred.
#[derive(Debug, Clone)]
pub struct LexerError<'s> {
    /// The type of error.
    pub ty: LexerErrorType<'s>,
    /// The byte range of where the error occurred.
    pub range: Range<usize>,
}

/// The start of the message of an unmatched opener.
pub open spec fn unclosed_prefix() -> Seq<char> {
    "unclosed delimiter "@
}

/// The start of the hint under an unmatched opener.
pub open spec fn closing_hint_prefix() -> Seq<char> {
    "help: add a closing "@
}

/// `text` is `prefix` followed by a text that names `ty` in messages.
pub open spec fn prefix_then_token(text: Seq<char>, prefix: Seq<char>, ty: TokenType) -> bool {
    &&& text.len() >= prefix.len()
    &&& text.take(prefix.len() as int) == prefix
    &&& ty.describes(text.skip(prefix.len() as int))
}

impl<'s> LexerErrorType<'s> {
    /// Whether `text` is the message of the error.
    pub open spec fn message_is(self, text: Seq<char>) -> bool {
        match self {
            LexerErrorType::EndOfInputInsideString => text == "input ended in the middle of a string"@,
            LexerErrorType::EndOfLineInsideString => text == "strings cannot span multiple lines"@,
            LexerErrorType::InvalidInput => text == "unrecognized token"@,
            LexerErrorType::UnmatchedOpener { open, .. } => prefix_then_token(text, unclosed_prefix(), open),
        }
    }

    /// Whether `text` is the hint shown under the source of the error.
    pub open spec fn inline_is(self, text: Seq<char>) -> bool {
        match self {
            LexerErrorType::EndOfInputInsideString | LexerErrorType::EndOfLineInsideString => text
                == "help: add a `\"`"@,
            LexerErrorType::UnmatchedOpener { close, .. } => prefix_then_token(text, closing_hint_prefix(), close),
            LexerErrorType::InvalidInput => text == "not sure what this is"@,
        }
    }

    /// The message of the error.
    pub fn message(self) -> (r: String)
        ensures
            self.message_is(r@),
    {
        let mut r = String::new();
        match self {
            LexerErrorType::EndOfInputInsideString => r.append("input ended in the middle of a string"),
            LexerErrorType::EndOfLineInsideString => r.append("strings cannot span multiple lines"),
            LexerErrorType::InvalidInput => r.append("unrecognized token"),
            LexerErrorType::UnmatchedOpener { open, .. } => {
                r.append("unclosed delimiter ");
                let ghost prefix = r@;
                let name = open.message();
                r.append(name.as_str());
                assert(r@.take(prefix.len() as int) =~= prefix);
                assert(r@.skip(prefix.len() as int) =~= name@);
            },
        }
        r
    }

    /// The hint shown under the source of the error.
    pub fn inline_display(self) -> (r: String)
        ensures
            self.inline_is(r@),
    {
        let mut r = String::new();
        match self {
            LexerErrorType::EndOfInputInsideString | LexerErrorType::EndOfLineInsideString => r.append(
                "help: add a `\"`",
            ),
            LexerErrorType::UnmatchedOpener { close, .. } => {
                r.append("help: add a closing ");
                let ghost prefix = r@;
                let name = close.message();
                r.append(name.as_str());
                assert(r@.take(prefix.len() as int) =~= prefix);
                assert(r@.skip(prefix.len() as int) =~= name@);
            },
            LexerErrorType::InvalidInput => r.append("not sure what this is"),
        }
        r
    }
}

impl<'s> LexerError<'s> {
    /// Creates a new `LexerError`.
    pub fn new(ty: LexerErrorType<'s>, range: Range<usize>) -> (e: Self)
        ensures
            e.ty == ty,
            e.range == range,
    {
        LexerError { ty, range }
    }
}

} // verus!
