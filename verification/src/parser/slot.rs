use crate::ast::{Precedence, Slot};
use crate::parser::combinator::{in_span, opens_end, span_open};
use crate::parser::context::ContextType;
use crate::parser::error::{ParseError, ParseErrorType};
use crate::parser::expression::expression;
use crate::parser::function::function_definition;
use crate::parser::identifier::{identifier, identifier_at};
use crate::parser::parse_result_ext::ParseResultExt;
use crate::parser::token::{error_at, terminal, terminal_at};
use crate::parser::token_list::TokenList;
use crate::parser::type_::{type_, type_start_at};
use crate::parser::variable::var_initializer;
use crate::parser::{parsed, ParseResult};
use crate::token::TerminalToken;
use vstd::prelude::*;

verus! {

broadcast use crate::parser::token_list::group_tokens_to;

/// Parses a slot of a class or table: a constructor, a method, a property or a computed property.
///
/// A constructor is tried before a method so that `function constructor(..)` is a constructor,
/// and a method before anything that can start with a type so that its return type is read.
#[verifier::rlimit(40)]
pub fn slot<'s>(tokens: TokenList<'s>) -> (r: ParseResult<'s, Slot<'s>>)
    requires
        tokens.wf(),
    ensures
        r matches Ok((rest, v)) ==> v.tokens() == tokens.tokens_to(rest),
        parsed(tokens, r, true),
        !slot_start(tokens) ==> r == Err::<(TokenList<'s>, Slot<'s>), ParseError>(
            error_at(ParseErrorType::ExpectedTableSlot, tokens.pos() as int),
        ),
    decreases tokens.remaining(), 7nat,
{
    match constructor_slot(tokens) {
        Ok(x) => return Ok(x),
        Err(e) => if e.is_fatal {
            return Err(e);
        },
    }
    match function_slot(tokens) {
        Ok(x) => return Ok(x),
        Err(e) => if e.is_fatal {
            return Err(e);
        },
    }
    match property_slot(tokens) {
        Ok(x) => return Ok(x),
        Err(e) => if e.is_fatal {
            return Err(e);
        },
    }
    match computed_property_slot(tokens) {
        Ok(x) => return Ok(x),
        Err(e) => if e.is_fatal {
            return Err(e);
        },
    }
    Err(tokens.error(ParseErrorType::ExpectedTableSlot))
}

/// The token at the position of `tokens` can start a slot: `function`, `constructor`, `[`, or a
/// type (a name among them).
pub open spec fn slot_start<'s>(tokens: TokenList<'s>) -> bool {
    ||| terminal_at(tokens, tokens.pos(), TerminalToken::Function)
    ||| terminal_at(tokens, tokens.pos(), TerminalToken::Constructor)
    ||| terminal_at(tokens, tokens.pos(), TerminalToken::OpenSquare)
    ||| type_start_at(tokens)
}

/// Parses a property: a name and an initializer.
fn property_slot<'s>(tokens: TokenList<'s>) -> (r: ParseResult<'s, Slot<'s>>)
    requires
        tokens.wf(),
    ensures
        r matches Ok((rest, v)) ==> v.tokens() == tokens.tokens_to(rest),
        parsed(tokens, r, true),
        !identifier_at(tokens) ==> (r matches Err(e) && !e.is_fatal),
    decreases tokens.remaining(), 0nat,
{
    let res = match identifier(tokens) {
        Ok((t, name)) => match var_initializer(t).definite() {
            Ok((t2, initializer)) => Ok((t2, Slot::Property { name, initializer })),
            Err(e) => Err(e),
        },
        Err(e) => Err(e),
    };
    res.with_context_from(ContextType::Property, tokens)
}

/// Parses a computed property: a name expression in square brackets and an initializer.
fn computed_property_slot<'s>(tokens: TokenList<'s>) -> (r: ParseResult<'s, Slot<'s>>)
    requires
        tokens.wf(),
    ensures
        r matches Ok((rest, v)) ==> v.tokens() == tokens.tokens_to(rest),
        parsed(tokens, r, true),
        !terminal_at(tokens, tokens.pos(), TerminalToken::OpenSquare) ==> (r matches Err(e) && !e.is_fatal),
    decreases tokens.remaining(), 1nat,
{
    computed_property_parts(tokens).with_context_from(ContextType::Property, tokens)
}

/// A computed property, without the context of its errors.
fn computed_property_parts<'s>(tokens: TokenList<'s>) -> (r: ParseResult<'s, Slot<'s>>)
    requires
        tokens.wf(),
    ensures
        r matches Ok((rest, v)) ==> v.tokens() == tokens.tokens_to(rest),
        parsed(tokens, r, true),
        !terminal_at(tokens, tokens.pos(), TerminalToken::OpenSquare) ==> (r matches Err(e) && !e.is_fatal),
    decreases tokens.remaining(), 0nat,
{
    let (inner, outer, open, close, start, end) = span_open(
        tokens,
        ContextType::Span,
        TerminalToken::OpenSquare,
        TerminalToken::CloseSquare,
        false,
    )?;
    let (rest, name) = in_span(expression(inner, Precedence::Lowest), start, end, ContextType::Span, false).not_definite()?;
    opens_end(rest, TerminalToken::CloseSquare, start, end, ContextType::Span, false)?;
    let (t, initializer) = var_initializer(outer).definite()?;
    Ok((t, Slot::ComputedProperty { open, name, close, initializer }))
}

/// Parses a constructor: an optional `function`, `constructor` and a function definition.
fn constructor_slot<'s>(tokens: TokenList<'s>) -> (r: ParseResult<'s, Slot<'s>>)
    requires
        tokens.wf(),
    ensures
        r matches Ok((rest, v)) ==> v.tokens() == tokens.tokens_to(rest),
        parsed(tokens, r, true),
        !terminal_at(tokens, tokens.pos(), TerminalToken::Function) && !terminal_at(
            tokens,
            tokens.pos(),
            TerminalToken::Constructor,
        ) ==> (r matches Err(e) && !e.is_fatal),
    decreases tokens.remaining(), 1nat,
{
    constructor_parts(tokens).with_context_from(ContextType::Constructor, tokens)
}

/// A constructor, without the context of its errors.
fn constructor_parts<'s>(tokens: TokenList<'s>) -> (r: ParseResult<'s, Slot<'s>>)
    requires
        tokens.wf(),
    ensures
        r matches Ok((rest, v)) ==> v.tokens() == tokens.tokens_to(rest),
        parsed(tokens, r, true),
        !terminal_at(tokens, tokens.pos(), TerminalToken::Function) && !terminal_at(
            tokens,
            tokens.pos(),
            TerminalToken::Constructor,
        ) ==> (r matches Err(e) && !e.is_fatal),
    decreases tokens.remaining(), 0nat,
{
    let (t, function) = terminal(tokens, TerminalToken::Function).maybe(tokens)?;
    let (t, constructor) = terminal(t, TerminalToken::Constructor)?;
    let (t, definition) = function_definition(t).definite()?;
    Ok((t, Slot::Constructor { function, constructor, definition: Box::new(definition) }))
}

/// Parses a method: an optional return type on the same line, `function`, a name and a function
/// definition.
fn function_slot<'s>(tokens: TokenList<'s>) -> (r: ParseResult<'s, Slot<'s>>)
    requires
        tokens.wf(),
    ensures
        r matches Ok((rest, v)) ==> v.tokens() == tokens.tokens_to(rest),
        parsed(tokens, r, true),
        !type_start_at(tokens) && !terminal_at(tokens, tokens.pos(), TerminalToken::Function) ==> (r matches Err(e)
            && !e.is_fatal),
    decreases tokens.remaining(), 5nat,
{
    let determinant = match type_(tokens).not_line_ending().not_definite().maybe(tokens) {
        Ok((t, return_type)) => match terminal(t, TerminalToken::Function) {
            Ok((t2, function)) => Ok((t2, (return_type, function))),
            Err(e) => Err(e),
        },
        Err(e) => Err(e),
    };
    let (t, (return_type, function)) = determinant.not_definite()?;
    let (t, name) = identifier(t).definite()?;
    let (t, definition) = function_definition(t).definite()?;
    Ok((t, Slot::Function { return_type, function, name, definition: Box::new(definition) }))
}

} // verus!
