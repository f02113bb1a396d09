use crate::ast::tokens::lemma_statement_seq_tokens;
use crate::ast::{
    ForDefinition, ForeachIndex, Identifier, IfStatementType, Precedence, Statement, SwitchCase, SwitchCaseCondition, Type,
};
use crate::parser::context::ContextType;
use crate::parser::expression::{chain_stop, expression, value_start};
use crate::parser::identifier::{identifier, identifier_at};
use crate::parser::list::many;
use crate::parser::parse_result_ext::ParseResultExt;
use crate::parser::statement::{simple_statement, statement, statement_type, typed_var_definition_statement};
use crate::parser::token::{terminal, terminal_at};
use crate::parser::token_list::TokenList;
use crate::parser::type_::type_;
use crate::parser::{parsed, ParseResult};
use crate::token::{TerminalToken, Token};
use vstd::prelude::*;

verus! {

broadcast use crate::parser::token_list::group_tokens_to;

/// An `else` follows the body of an `if` statement that ends at `e`, after the `;` there if one
/// stands there.
pub open spec fn else_after<'s>(tokens: TokenList<'s>, e: int) -> bool {
    let n = if terminal_at(tokens, e, TerminalToken::Semicolon) {
        e + 1
    } else {
        e
    };
    terminal_at(tokens, n, TerminalToken::Else)
}

/// Parses the body of an `if` statement and an optional `else` with its body.
///
/// A `;` after the body is taken only if `else` follows it.
pub fn if_statement_type<'s>(tokens: TokenList<'s>) -> (r: ParseResult<'s, IfStatementType<'s>>)
    requires
        tokens.wf(),
    ensures
        r matches Ok((rest, v)) ==> v.tokens() == tokens.tokens_to(rest),
        parsed(tokens, r, true),
        simple_statement(tokens) && !else_after(tokens, chain_stop(tokens, tokens.pos() + 1, Precedence::Lowest)) ==> (
        r matches Ok((rest, v)) && v is NoElse && rest.pos() == chain_stop(tokens, tokens.pos() + 1, Precedence::Lowest)),
    decreases tokens.remaining(), 11nat,
{
    let (t, body) = statement_type(tokens)?;
    let (next, semicolon) = terminal(t, TerminalToken::Semicolon).maybe(t)?;
    match terminal(next, TerminalToken::Else) {
        Err(_) => Ok((t, IfStatementType::NoElse { body: Box::new(body) })),
        Ok((t2, else_)) => {
            let (t3, else_body) = statement_type(t2).definite()?;
            Ok(
                (
                    t3,
                    IfStatementType::Else {
                        body: Box::new(Statement { ty: body, semicolon }),
                        else_,
                        else_body: Box::new(else_body),
                    },
                ),
            )
        },
    }
}

/// Parses a case of a `switch` statement: its condition, `:` and statements.
pub fn switch_case<'s>(tokens: TokenList<'s>) -> (r: ParseResult<'s, SwitchCase<'s>>)
    requires
        tokens.wf(),
    ensures
        r matches Ok((rest, v)) ==> v.tokens() == tokens.tokens_to(rest),
        parsed(tokens, r, true),
        !terminal_at(tokens, tokens.pos(), TerminalToken::Default) && !terminal_at(
            tokens,
            tokens.pos(),
            TerminalToken::Case,
        ) ==> (r matches Err(e) && !e.is_fatal),
    decreases tokens.remaining(), 2nat,
{
    let (t, condition) = switch_case_condition(tokens).not_definite()?;
    switch_case_rest(t, condition).definite()
}

/// The `:` and statements of a case, after its condition.
fn switch_case_rest<'s>(tokens: TokenList<'s>, condition: SwitchCaseCondition<'s>) -> (r: ParseResult<'s, SwitchCase<'s>>)
    requires
        tokens.wf(),
    ensures
        r matches Ok((rest, v)) ==> v.tokens() == condition.tokens() + tokens.tokens_to(rest),
        parsed(tokens, r, true),
    decreases tokens.remaining(), 0nat,
{
    let (t, colon) = terminal(tokens, TerminalToken::Colon)?;
    let parse_statement = |x: TokenList<'s>| -> (r: ParseResult<'s, Statement<'s>>)
        requires
            t.reaches(x),
        ensures
            r matches Ok((rest, v)) ==> v.tokens() == x.tokens_to(rest),
            parsed(x, r, true),
        {
            statement(x)
        };
    let ghost f = |v: Statement<'s>| v.tokens();
    let (t, body) = many(t, parse_statement, Ghost(f))?;
    proof {
        lemma_statement_seq_tokens(body@, f);
    }
    Ok((t, SwitchCase { condition, colon, body }))
}

/// Parses the condition of a case: `default`, or `case` and a value.
pub fn switch_case_condition<'s>(tokens: TokenList<'s>) -> (r: ParseResult<'s, SwitchCaseCondition<'s>>)
    requires
        tokens.wf(),
    ensures
        r matches Ok((rest, v)) ==> v.tokens() == tokens.tokens_to(rest),
        parsed(tokens, r, true),
        !terminal_at(tokens, tokens.pos(), TerminalToken::Default) && !terminal_at(
            tokens,
            tokens.pos(),
            TerminalToken::Case,
        ) ==> r is Err,
    decreases tokens.remaining(), 1nat,
{
    if let Ok((t, default)) = terminal(tokens, TerminalToken::Default) {
        return Ok((t, SwitchCaseCondition::Default { default }));
    }
    case_switch_case_condition(tokens)
}

/// Parses `case` and a value.
fn case_switch_case_condition<'s>(tokens: TokenList<'s>) -> (r: ParseResult<'s, SwitchCaseCondition<'s>>)
    requires
        tokens.wf(),
    ensures
        r matches Ok((rest, v)) ==> v.tokens() == tokens.tokens_to(rest),
        parsed(tokens, r, true),
        !terminal_at(tokens, tokens.pos(), TerminalToken::Case) ==> r is Err,
    decreases tokens.remaining(), 0nat,
{
    let (t, case) = terminal(tokens, TerminalToken::Case)?;
    let (t, value) = expression(t, Precedence::Lowest).definite()?;
    Ok((t, SwitchCaseCondition::Case { case, value }))
}

/// Parses the initializer of a `for` statement: variables with a type, or an expression.
pub fn for_definition<'s>(tokens: TokenList<'s>) -> (r: ParseResult<'s, ForDefinition<'s>>)
    requires
        tokens.wf(),
    ensures
        r matches Ok((rest, v)) ==> v.tokens() == tokens.tokens_to(rest),
        parsed(tokens, r, true),
        !value_start(tokens) ==> (r matches Err(e) && !e.is_fatal),
    decreases tokens.remaining(), 10nat,
{
    match var_for_definition(tokens) {
        Ok(x) => Ok(x),
        Err(e) => if e.is_fatal {
            Err(e)
        } else {
            expression_for_definition(tokens)
        },
    }
}

/// Parses variables with a type as the initializer of a `for` statement.
fn var_for_definition<'s>(tokens: TokenList<'s>) -> (r: ParseResult<'s, ForDefinition<'s>>)
    requires
        tokens.wf(),
    ensures
        r matches Ok((rest, v)) ==> v.tokens() == tokens.tokens_to(rest),
        parsed(tokens, r, true),
        !value_start(tokens) ==> (r matches Err(e) && !e.is_fatal),
    decreases tokens.remaining(), 5nat,
{
    let res = match type_(tokens).not_definite() {
        Ok((t, ty)) => typed_var_definition_statement(t, ty),
        Err(e) => Err(e),
    };
    match res.with_context_from(ContextType::VarDefinition, tokens) {
        Ok((t, definition)) => Ok((t, ForDefinition::Definition(definition))),
        Err(e) => Err(e),
    }
}

/// Parses an expression as the initializer of a `for` statement.
fn expression_for_definition<'s>(tokens: TokenList<'s>) -> (r: ParseResult<'s, ForDefinition<'s>>)
    requires
        tokens.wf(),
    ensures
        r matches Ok((rest, v)) ==> v.tokens() == tokens.tokens_to(rest),
        parsed(tokens, r, true),
        !value_start(tokens) ==> (r matches Err(e) && !e.is_fatal),
    decreases tokens.remaining(), 9nat,
{
    match expression(tokens, Precedence::Lowest).with_context_from(ContextType::Expression, tokens) {
        Ok((t, value)) => Ok((t, ForDefinition::Expression(value))),
        Err(e) => Err(e),
    }
}

/// Parses the index of a `foreach` statement: an optional type, a name and `,`.
pub fn foreach_index<'s>(tokens: TokenList<'s>) -> (r: ParseResult<'s, ForeachIndex<'s>>)
    requires
        tokens.wf(),
    ensures
        r matches Ok((rest, v)) ==> v.tokens() == tokens.tokens_to(rest),
        parsed(tokens, r, true),
        identifier_at(tokens) && terminal_at(tokens, tokens.pos() + 1, TerminalToken::In) ==> (r matches Err(e)
            && !e.is_fatal),
    decreases tokens.remaining(), 6nat,
{
    if let Ok((t, name)) = identifier(tokens) {
        if let Ok((t2, comma)) = terminal(t, TerminalToken::Comma) {
            return Ok((t2, ForeachIndex { type_: None, name, comma }));
        }
    }
    typed_foreach_index(tokens)
}

/// Parses an index with a type.
fn typed_foreach_index<'s>(tokens: TokenList<'s>) -> (r: ParseResult<'s, ForeachIndex<'s>>)
    requires
        tokens.wf(),
    ensures
        r matches Ok((rest, v)) ==> v.tokens() == tokens.tokens_to(rest),
        parsed(tokens, r, true),
        identifier_at(tokens) && terminal_at(tokens, tokens.pos() + 1, TerminalToken::In) ==> (r matches Err(e)
            && !e.is_fatal),
    decreases tokens.remaining(), 5nat,
{
    proof {
        if identifier_at(tokens) {
            tokens.lemma_at(tokens.pos() + 1);
        }
    }
    let (t, ty) = type_(tokens)?;
    let (t, name) = identifier(t)?;
    let (t, comma) = terminal(t, TerminalToken::Comma)?;
    Ok((t, ForeachIndex { type_: Some(ty), name, comma }))
}

/// Parses the value of a `foreach` statement: an optional type, a name and `in`.
pub fn foreach_value<'s>(tokens: TokenList<'s>) -> (r: ParseResult<'s, (Option<Type<'s>>, Identifier<'s>, &'s Token<'s>)>)
    requires
        tokens.wf(),
    ensures
        r matches Ok((rest, (value_type, value_name, in_))) ==> (match value_type {
            Some(x) => x.tokens(),
            None => Seq::empty(),
        }) + value_name.tokens() + seq![*in_] == tokens.tokens_to(rest),
        parsed(tokens, r, true),
        identifier_at(tokens) && terminal_at(tokens, tokens.pos() + 1, TerminalToken::In) ==> (r matches Ok((rest, _))
            && rest.pos() == tokens.pos() + 2),
    decreases tokens.remaining(), 6nat,
{
    if let Ok((t, name)) = identifier(tokens) {
        if let Ok((t2, in_)) = terminal(t, TerminalToken::In) {
            return Ok((t2, (None, name, in_)));
        }
    }
    typed_foreach_value(tokens)
}

/// Parses a value with a type: once the type and name are read, a missing `in` is fatal.
fn typed_foreach_value<'s>(tokens: TokenList<'s>) -> (r: ParseResult<'s, (Option<Type<'s>>, Identifier<'s>, &'s Token<'s>)>)
    requires
        tokens.wf(),
    ensures
        r matches Ok((rest, (value_type, value_name, in_))) ==> (match value_type {
            Some(x) => x.tokens(),
            None => Seq::empty(),
        }) + value_name.tokens() + seq![*in_] == tokens.tokens_to(rest),
        parsed(tokens, r, true),
    decreases tokens.remaining(), 5nat,
{
    let determinant = match type_(tokens) {
        Ok((t, ty)) => match identifier(t) {
            Ok((t2, name)) => Ok((t2, (ty, name))),
            Err(e) => Err(e),
        },
        Err(e) => Err(e),
    };
    let (t, (ty, name)) = determinant.not_definite()?;
    let (t, in_) = terminal(t, TerminalToken::In).definite()?;
    Ok((t, (Some(ty), name, in_)))
}

} // verus!
