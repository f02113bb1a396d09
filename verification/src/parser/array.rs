use crate::ast::{ArrayValue, Precedence};
use crate::parser::expression::expression;
use crate::parser::parse_result_ext::ParseResultExt;
use crate::parser::token::terminal;
use crate::parser::token_list::TokenList;
use crate::parser::{parsed, ParseResult};
use crate::token::TerminalToken;
use vstd::prelude::*;

verus! {

broadcast use crate::parser::token_list::group_tokens_to;

/// Parses a value of an array literal and an optional `,` after it.
pub fn array_value<'s>(tokens: TokenList<'s>) -> (r: ParseResult<'s, ArrayValue<'s>>)
    requires
        tokens.wf(),
    ensures
        r matches Ok((rest, v)) ==> v.tokens() == tokens.tokens_to(rest),
        parsed(tokens, r, true),
    decreases tokens.remaining(), 9nat,
{
    let (t, value) = expression(tokens, Precedence::Comma)?;
    let (t, separator) = terminal(t, TerminalToken::Comma).maybe(t)?;
    Ok((t, ArrayValue { value, separator }))
}

} // verus!
