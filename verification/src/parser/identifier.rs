use crate::ast::{Identifier, MethodIdentifier};
use crate::parser::error::ParseErrorType;
use crate::parser::token::{error_at, moved_one, terminal, terminal_at};
use crate::parser::token_list::TokenList;
use crate::parser::ParseResult;
use crate::token::{TerminalToken, TokenType};
use vstd::prelude::*;

verus! {

broadcast use crate::parser::token_list::group_tokens_to;

/// The token at the position of `tokens` is an identifier.
pub open spec fn identifier_at<'s>(tokens: TokenList<'s>) -> bool {
    tokens.pos() < tokens.items().len() && tokens.items()[tokens.pos()].token.ty is Identifier
}

/// `id` is the identifier token at the position of `tokens`.
pub open spec fn is_identifier_at<'s>(tokens: TokenList<'s>, id: Identifier<'s>) -> bool {
    &&& identifier_at(tokens)
    &&& tokens.items()[tokens.pos()].token.ty == TokenType::<'s>::Identifier(id.value)
    &&& *id.token == tokens.items()[tokens.pos()].token
}

/// Parses an identifier.
pub fn identifier<'s>(tokens: TokenList<'s>) -> (r: ParseResult<'s, Identifier<'s>>)
    requires
        tokens.wf(),
    ensures
        r matches Ok((rest, v)) ==> v.tokens() == tokens.tokens_to(rest),
        match r {
            Ok((rest, id)) => is_identifier_at(tokens, id) && moved_one(tokens, rest),
            Err(e) => !identifier_at(tokens) && e == error_at(ParseErrorType::ExpectedIdentifier, tokens.pos()),
        },
{
    if let Some((rest, item)) = tokens.split_first() {
        if let TokenType::Identifier(value) = item.token.ty {
            return Ok((rest, Identifier { value, token: &item.token }));
        }
    }
    Err(tokens.error(ParseErrorType::ExpectedIdentifier))
}

/// Parses a method name: `constructor` or an identifier.
pub fn method_identifier<'s>(tokens: TokenList<'s>) -> (r: ParseResult<'s, MethodIdentifier<'s>>)
    requires
        tokens.wf(),
    ensures
        r matches Ok((rest, v)) ==> v.tokens() == tokens.tokens_to(rest),
        match r {
            Ok((rest, MethodIdentifier::Constructor(token))) => {
                &&& terminal_at(tokens, tokens.pos(), TerminalToken::Constructor)
                &&& *token == tokens.items()[tokens.pos()].token
                &&& moved_one(tokens, rest)
            },
            Ok((rest, MethodIdentifier::Identifier(id))) => is_identifier_at(tokens, id) && moved_one(tokens, rest),
            Err(e) => {
                &&& !terminal_at(tokens, tokens.pos(), TerminalToken::Constructor)
                &&& !identifier_at(tokens)
                &&& e == error_at(ParseErrorType::ExpectedIdentifier, tokens.pos())
            },
        },
{
    match terminal(tokens, TerminalToken::Constructor) {
        Ok((rest, token)) => Ok((rest, MethodIdentifier::Constructor(token))),
        Err(_) => match identifier(tokens) {
            Ok((rest, id)) => Ok((rest, MethodIdentifier::Identifier(id))),
            Err(e) => Err(e),
        },
    }
}

} // verus!
