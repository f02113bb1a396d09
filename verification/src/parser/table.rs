use crate::ast::{Precedence, TableSlot, TableSlotType};
use crate::parser::context::ContextType;
use crate::parser::error::ParseErrorType;
use crate::parser::expression::expression;
use crate::parser::parse_result_ext::ParseResultExt;
use crate::parser::slot::slot;
use crate::parser::token::{error_at, moved_one, terminal};
use crate::parser::token_list::TokenList;
use crate::parser::{parsed, ParseResult};
use crate::token::{LiteralToken, StringToken, TerminalToken, Token, TokenType};
use vstd::prelude::*;

verus! {

broadcast use crate::parser::token_list::group_tokens_to;

/// Parses a slot of a table and an optional `,` after it.
pub fn table_slot<'s>(tokens: TokenList<'s>) -> (r: ParseResult<'s, TableSlot<'s>>)
    requires
        tokens.wf(),
    ensures
        r matches Ok((rest, v)) ==> v.tokens() == tokens.tokens_to(rest),
        parsed(tokens, r, true),
    decreases tokens.remaining(), 9nat,
{
    let (t, ty) = table_slot_type(tokens)?;
    let (t, comma) = terminal(t, TerminalToken::Comma).maybe(t)?;
    Ok((t, TableSlot { ty, comma }))
}

/// Parses a JSON-style property or a slot.
fn table_slot_type<'s>(tokens: TokenList<'s>) -> (r: ParseResult<'s, TableSlotType<'s>>)
    requires
        tokens.wf(),
    ensures
        r matches Ok((rest, v)) ==> v.tokens() == tokens.tokens_to(rest),
        parsed(tokens, r, true),
    decreases tokens.remaining(), 8nat,
{
    match json_property_slot(tokens) {
        Ok(x) => return Ok(x),
        Err(e) => if e.is_fatal {
            return Err(e);
        },
    }
    match slot(tokens) {
        Ok((t, s)) => Ok((t, TableSlotType::Slot(s))),
        Err(e) => if e.is_fatal {
            Err(e)
        } else {
            Err(tokens.error(ParseErrorType::ExpectedTableSlot))
        },
    }
}

/// Parses a JSON-style property: a string literal, `:` and a value.
fn json_property_slot<'s>(tokens: TokenList<'s>) -> (r: ParseResult<'s, TableSlotType<'s>>)
    requires
        tokens.wf(),
    ensures
        r matches Ok((rest, v)) ==> v.tokens() == tokens.tokens_to(rest),
        parsed(tokens, r, true),
    decreases tokens.remaining(), 0nat,
{
    let res = match string_literal(tokens) {
        Ok((t, (name, name_token))) => json_property_value(t, name, name_token).definite(),
        Err(e) => Err(e),
    };
    res.with_context_from(ContextType::Property, tokens)
}

/// The `:` and value of a JSON-style property, after its name.
fn json_property_value<'s>(tokens: TokenList<'s>, name: &'s str, name_token: &'s Token<'s>) -> (r: ParseResult<
    's,
    TableSlotType<'s>,
>)
    requires
        tokens.wf(),
    ensures
        r matches Ok((rest, v)) ==> v.tokens() == seq![*name_token] + tokens.tokens_to(rest),
        parsed(tokens, r, true),
    decreases tokens.remaining(), 0nat,
{
    let (t, colon) = terminal(tokens, TerminalToken::Colon)?;
    let (t, value) = expression(t, Precedence::Comma)?;
    Ok((t, TableSlotType::JsonProperty { name, name_token, colon, value }))
}

/// Parses a plain string literal, giving its text and token.
fn string_literal<'s>(tokens: TokenList<'s>) -> (r: ParseResult<'s, (&'s str, &'s Token<'s>)>)
    requires
        tokens.wf(),
    ensures
        match r {
            Ok((rest, (name, token))) => {
                &&& tokens.pos() < tokens.items().len()
                &&& tokens.items()[tokens.pos()].token.ty == TokenType::<'s>::Literal(
                    LiteralToken::String(StringToken::Literal(name)),
                )
                &&& *token == tokens.items()[tokens.pos()].token
                &&& moved_one(tokens, rest)
            },
            Err(e) => e == error_at(ParseErrorType::ExpectedLiteral, tokens.pos()),
        },
{
    if let Some((rest, item)) = tokens.split_first() {
        if let TokenType::Literal(LiteralToken::String(StringToken::Literal(name))) = item.token.ty {
            return Ok((rest, (name, &item.token)));
        }
    }
    Err(tokens.error(ParseErrorType::ExpectedLiteral))
}

} // verus!
