use crate::lexer::TokenItem;
use crate::parser::error::{ParseError, ParseErrorType};
use crate::parser::token_list::TokenList;
use crate::parser::ParseResult;
use crate::token::{TerminalToken, Token, TokenType};
use vstd::prelude::*;

verus! {

broadcast use crate::parser::token_list::group_tokens_to;

/// The token at index `i` of the list is the terminal `t`.
pub open spec fn terminal_at<'s>(tokens: TokenList<'s>, i: int, t: TerminalToken) -> bool {
    0 <= i < tokens.items().len() && tokens.items()[i].token.ty == TokenType::<'s>::Terminal(t)
}

/// Where the token at the position of `tokens` is `t`, the parser does not leave the input to
/// another alternative: it succeeds or fails with a fatal error.
pub open spec fn commits_at<'s, T>(tokens: TokenList<'s>, r: ParseResult<'s, T>, t: TerminalToken) -> bool {
    terminal_at(tokens, tokens.pos(), t) ==> (r matches Err(e) ==> e.is_fatal)
}

/// A non-fatal error without context.
pub open spec fn error_at(ty: ParseErrorType, index: int) -> ParseError {
    ParseError { ty, token_index: index as usize, context: None, is_fatal: false }
}

/// `rest` is `tokens` moved past one token.
pub open spec fn moved_one<'s>(tokens: TokenList<'s>, rest: TokenList<'s>) -> bool {
    tokens.reaches(rest) && rest.pos() == tokens.pos() + 1
}

/// Parses the terminal `expected`, giving its whole token item.
pub fn terminal_item<'s>(tokens: TokenList<'s>, expected: TerminalToken) -> (r: ParseResult<'s, &'s TokenItem<'s>>)
    requires
        tokens.wf(),
    ensures
        match r {
            Ok((rest, item)) => {
                &&& terminal_at(tokens, tokens.pos(), expected)
                &&& *item == tokens.items()[tokens.pos()]
                &&& moved_one(tokens, rest)
            },
            Err(e) => {
                &&& !terminal_at(tokens, tokens.pos(), expected)
                &&& e == error_at(ParseErrorType::ExpectedTerminal(expected), tokens.pos())
            },
        },
{
    if let Some((rest, item)) = tokens.split_first() {
        if item.token.ty.is_terminal(expected) {
            return Ok((rest, item));
        }
    }
    Err(ParseError::new(ParseErrorType::ExpectedTerminal(expected), tokens.start_index()))
}

/// Parses the terminal `expected`.
pub fn terminal<'s>(tokens: TokenList<'s>, expected: TerminalToken) -> (r: ParseResult<'s, &'s Token<'s>>)
    requires
        tokens.wf(),
    ensures
        r matches Ok((rest, v)) ==> seq![*v] == tokens.tokens_to(rest),
        match r {
            Ok((rest, token)) => {
                &&& terminal_at(tokens, tokens.pos(), expected)
                &&& *token == tokens.items()[tokens.pos()].token
                &&& moved_one(tokens, rest)
            },
            Err(e) => {
                &&& !terminal_at(tokens, tokens.pos(), expected)
                &&& e == error_at(ParseErrorType::ExpectedTerminal(expected), tokens.pos())
            },
        },
{
    let (rest, item) = terminal_item(tokens, expected)?;
    Ok((rest, &item.token))
}

/// The tokens at `i` and `i + 1` are adjacent in the source, with nothing between them.
pub open spec fn adjacent<'s>(tokens: TokenList<'s>, i: int) -> bool {
    tokens.items()[i].token.range.end == tokens.items()[i + 1].token.range.start
}

/// Parses two terminals written with nothing between them, such as `<-`.
pub fn terminal2<'s>(tokens: TokenList<'s>, terminal_a: TerminalToken, terminal_b: TerminalToken) -> (r:
    ParseResult<'s, (&'s Token<'s>, &'s Token<'s>)>)
    requires
        tokens.wf(),
    ensures
        match r {
            Ok((rest, (a, b))) => {
                &&& terminal_at(tokens, tokens.pos(), terminal_a)
                &&& terminal_at(tokens, tokens.pos() + 1, terminal_b)
                &&& adjacent(tokens, tokens.pos())
                &&& *a == tokens.items()[tokens.pos()].token
                &&& *b == tokens.items()[tokens.pos() + 1].token
                &&& tokens.reaches(rest)
                &&& rest.pos() == tokens.pos() + 2
            },
            Err(e) => if !terminal_at(tokens, tokens.pos(), terminal_a) {
                e == error_at(ParseErrorType::ExpectedTerminal(terminal_a), tokens.pos())
            } else if !terminal_at(tokens, tokens.pos() + 1, terminal_b) {
                e == error_at(ParseErrorType::ExpectedTerminal(terminal_b), tokens.pos() + 1)
            } else {
                &&& !adjacent(tokens, tokens.pos())
                &&& e == error_at(ParseErrorType::ExpectedCompound2(terminal_a, terminal_b), tokens.pos())
            },
        },
{
    let index = tokens.start_index();
    let (tokens, token_a) = terminal(tokens, terminal_a)?;
    let (tokens, token_b) = terminal(tokens, terminal_b)?;
    if token_a.range.end == token_b.range.start {
        return Ok((tokens, (token_a, token_b)));
    }
    Err(ParseError::new(ParseErrorType::ExpectedCompound2(terminal_a, terminal_b), index))
}

/// Parses three terminals written with nothing between them, such as `>>>`.
pub fn terminal3<'s>(
    tokens: TokenList<'s>,
    terminal_a: TerminalToken,
    terminal_b: TerminalToken,
    terminal_c: TerminalToken,
) -> (r: ParseResult<'s, (&'s Token<'s>, &'s Token<'s>, &'s Token<'s>)>)
    requires
        tokens.wf(),
    ensures
        match r {
            Ok((rest, (a, b, c))) => {
                &&& terminal_at(tokens, tokens.pos(), terminal_a)
                &&& terminal_at(tokens, tokens.pos() + 1, terminal_b)
                &&& terminal_at(tokens, tokens.pos() + 2, terminal_c)
                &&& adjacent(tokens, tokens.pos())
                &&& adjacent(tokens, tokens.pos() + 1)
                &&& *a == tokens.items()[tokens.pos()].token
                &&& *b == tokens.items()[tokens.pos() + 1].token
                &&& *c == tokens.items()[tokens.pos() + 2].token
                &&& tokens.reaches(rest)
                &&& rest.pos() == tokens.pos() + 3
            },
            Err(e) => if !terminal_at(tokens, tokens.pos(), terminal_a) {
                e == error_at(ParseErrorType::ExpectedTerminal(terminal_a), tokens.pos())
            } else if !terminal_at(tokens, tokens.pos() + 1, terminal_b) {
                e == error_at(ParseErrorType::ExpectedTerminal(terminal_b), tokens.pos() + 1)
            } else if !terminal_at(tokens, tokens.pos() + 2, terminal_c) {
                e == error_at(ParseErrorType::ExpectedTerminal(terminal_c), tokens.pos() + 2)
            } else {
                &&& !(adjacent(tokens, tokens.pos()) && adjacent(tokens, tokens.pos() + 1))
                &&& e == error_at(
                    ParseErrorType::ExpectedCompound3(terminal_a, terminal_b, terminal_c),
                    tokens.pos(),
                )
            },
        },
{
    let index = tokens.start_index();
    let (tokens, token_a) = terminal(tokens, terminal_a)?;
    let (tokens, token_b) = terminal(tokens, terminal_b)?;
    let (tokens, token_c) = terminal(tokens, terminal_c)?;
    if token_a.range.end == token_b.range.start && token_b.range.end == token_c.range.start {
        return Ok((tokens, (token_a, token_b, token_c)));
    }
    Err(ParseError::new(ParseErrorType::ExpectedCompound3(terminal_a, terminal_b, terminal_c), index))
}

} // verus!
