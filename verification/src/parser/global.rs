use crate::ast::GlobalDefinition;
use crate::parser::error::{ParseError, ParseErrorType};
use crate::parser::identifier::{identifier, identifier_at};
use crate::parser::parse_result_ext::ParseResultExt;
use crate::parser::statement::{
    class_declaration_statement, const_statement, enum_statement, struct_declaration_statement, typed_var_definition_statement,
    typedef_statement,
};
use crate::parser::token::{error_at, terminal, terminal_at};
use crate::parser::token_list::TokenList;
use crate::parser::type_::{type_, type_start_at};
use crate::parser::variable::var_initializer;
use crate::parser::{parsed, ParseResult};
use crate::token::TerminalToken;
use vstd::prelude::*;

verus! {

broadcast use crate::parser::token_list::group_tokens_to;

/// Parses what follows `global`: a function name, or a constant, enum, class, struct, type or
/// variable definition.
#[verifier::rlimit(40)]
pub fn global_definition<'s>(tokens: TokenList<'s>) -> (r: ParseResult<'s, GlobalDefinition<'s>>)
    requires
        tokens.wf(),
    ensures
        r matches Ok((rest, v)) ==> v.tokens() == tokens.tokens_to(rest),
        parsed(tokens, r, true),
        terminal_at(tokens, tokens.pos(), TerminalToken::Function) ==> function_global_read(tokens, r),
        !global_start(tokens) ==> r == Err::<(TokenList<'s>, GlobalDefinition<'s>), ParseError>(
            error_at(ParseErrorType::ExpectedGlobalDeclaration, tokens.pos() as int),
        ),
    decreases tokens.remaining(), 6nat,
{
    match function_global(tokens) {
        Ok(x) => return Ok(x),
        Err(e) => if e.is_fatal {
            return Err(e);
        },
    }
    match const_statement(tokens) {
        Ok((t, v)) => return Ok((t, GlobalDefinition::Const(v))),
        Err(e) => if e.is_fatal {
            return Err(e);
        },
    }
    match enum_statement(tokens) {
        Ok((t, v)) => return Ok((t, GlobalDefinition::Enum(v))),
        Err(e) => if e.is_fatal {
            return Err(e);
        },
    }
    match class_declaration_statement(tokens) {
        Ok((t, v)) => return Ok((t, GlobalDefinition::Class(v))),
        Err(e) => if e.is_fatal {
            return Err(e);
        },
    }
    match struct_declaration_statement(tokens) {
        Ok((t, v)) => return Ok((t, GlobalDefinition::Struct(v))),
        Err(e) => if e.is_fatal {
            return Err(e);
        },
    }
    match typedef_statement(tokens) {
        Ok((t, v)) => return Ok((t, GlobalDefinition::Type(v))),
        Err(e) => if e.is_fatal {
            return Err(e);
        },
    }
    match untyped_var_global(tokens) {
        Ok(x) => return Ok(x),
        Err(e) => if e.is_fatal {
            return Err(e);
        },
    }
    match typed_var_global(tokens) {
        Ok(x) => return Ok(x),
        Err(e) => if e.is_fatal {
            return Err(e);
        },
    }
    Err(tokens.error(ParseErrorType::ExpectedGlobalDeclaration))
}

/// The token at the position of `tokens` can start what follows `global`: `function`, `const`,
/// `enum`, `class`, `typedef`, or a type (a name or `struct` among them).
pub open spec fn global_start<'s>(tokens: TokenList<'s>) -> bool {
    let i = tokens.pos();
    ||| terminal_at(tokens, i, TerminalToken::Function)
    ||| terminal_at(tokens, i, TerminalToken::Const)
    ||| terminal_at(tokens, i, TerminalToken::Enum)
    ||| terminal_at(tokens, i, TerminalToken::Class)
    ||| terminal_at(tokens, i, TerminalToken::Typedef)
    ||| type_start_at(tokens)
}

/// After `function` at the position of `tokens`, `r` reads the name that follows it as the
/// function made global, or fails for good where no name follows.
pub open spec fn function_global_read<'s>(tokens: TokenList<'s>, r: ParseResult<'s, GlobalDefinition<'s>>) -> bool {
    if identifier_at(tokens.at(tokens.pos() + 1)) {
        r matches Ok((rest, v)) && v is Function && rest.pos() == tokens.pos() + 2
    } else {
        r matches Err(e) && e.is_fatal && e.ty == ParseErrorType::ExpectedIdentifier && e.token_index == tokens.pos()
            + 1
    }
}

/// Parses `function` and the name of a function made global.
fn function_global<'s>(tokens: TokenList<'s>) -> (r: ParseResult<'s, GlobalDefinition<'s>>)
    requires
        tokens.wf(),
    ensures
        r matches Ok((rest, v)) ==> v.tokens() == tokens.tokens_to(rest),
        parsed(tokens, r, true),
        !terminal_at(tokens, tokens.pos(), TerminalToken::Function) ==> (r matches Err(e) && !e.is_fatal),
        terminal_at(tokens, tokens.pos(), TerminalToken::Function) ==> function_global_read(tokens, r),
{
    let (t, function) = terminal(tokens, TerminalToken::Function)?;
    proof {
        tokens.lemma_at(tokens.pos() + 1);
    }
    let (t, name) = identifier(t).definite()?;
    Ok((t, GlobalDefinition::Function { function, name }))
}

/// Parses a variable without a type: a name and an initializer.
fn untyped_var_global<'s>(tokens: TokenList<'s>) -> (r: ParseResult<'s, GlobalDefinition<'s>>)
    requires
        tokens.wf(),
    ensures
        r matches Ok((rest, v)) ==> v.tokens() == tokens.tokens_to(rest),
        parsed(tokens, r, true),
        !identifier_at(tokens) ==> (r matches Err(e) && !e.is_fatal),
    decreases tokens.remaining(), 0nat,
{
    let (t, name) = identifier(tokens)?;
    let (t, initializer) = var_initializer(t)?;
    Ok((t, GlobalDefinition::UntypedVar { name, initializer }))
}

/// Parses variables with a type on the same line.
fn typed_var_global<'s>(tokens: TokenList<'s>) -> (r: ParseResult<'s, GlobalDefinition<'s>>)
    requires
        tokens.wf(),
    ensures
        r matches Ok((rest, v)) ==> v.tokens() == tokens.tokens_to(rest),
        parsed(tokens, r, true),
        !type_start_at(tokens) ==> (r matches Err(e) && !e.is_fatal),
    decreases tokens.remaining(), 5nat,
{
    let (t, ty) = type_(tokens).not_line_ending().not_definite()?;
    let (t, definition) = typed_var_definition_statement(t, ty)?;
    Ok((t, GlobalDefinition::TypedVar(definition)))
}

} // verus!
