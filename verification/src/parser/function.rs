use crate::ast::tokens::{identifier_trailing_list_tokens, lemma_function_param_pairs_tokens, lemma_identifier_pairs_tokens};
use crate::ast::{
    FunctionCaptures, FunctionDefinition, FunctionEnvironment, FunctionParam, FunctionParams, FunctionRefParam,
    Identifier, Precedence, SeparatedList1, SeparatedListTrailing0,
};
use crate::parser::combinator::{in_span, opens_end, span_open};
use crate::parser::context::ContextType;
use crate::parser::expression::{chain_stop, expression, lemma_chain_same};
use crate::parser::identifier::identifier;
use crate::parser::list::separated_list_trailing0;
use crate::parser::parse_result_ext::ParseResultExt;
use crate::parser::statement::{lemma_simple_statement_same, simple_statement, statement_type};
use crate::parser::token::{error_at, terminal, terminal_at};
use crate::parser::error::{ParseError, ParseErrorType};
use crate::parser::token_list::TokenList;
use crate::parser::type_::type_;
use crate::parser::variable::var_initializer;
use crate::parser::{parsed, ParseResult};
use crate::token::{TerminalToken, Token};
use vstd::prelude::*;

verus! {

broadcast use crate::parser::token_list::group_tokens_to;

/// At the position of `tokens` stand `(` and the `)` that closes it, with the spans from there on
/// well formed, then a simple expression statement that does not start with `:`: a function
/// definition with no environment, parameters or captures, and a simple body.
pub open spec fn simple_function_at<'s>(tokens: TokenList<'s>) -> bool {
    let i = tokens.pos();
    &&& tokens.spans_ok()
    &&& terminal_at(tokens, i, TerminalToken::OpenBracket)
    &&& tokens.items()[i].close_index == Some((i + 1) as usize)
    &&& terminal_at(tokens, i + 1, TerminalToken::CloseBracket)
    &&& simple_statement(tokens.at(i + 2))
}

/// Whether a simple function definition follows depends only on the tokens, the flavor and the
/// position.
pub proof fn lemma_simple_function_same<'s>(t1: TokenList<'s>, t2: TokenList<'s>)
    requires
        t1.items() == t2.items(),
        t1.pos() == t2.pos(),
        t1.spec_flavor() == t2.spec_flavor(),
        t1.items().len() < usize::MAX,
        0 <= t1.pos() <= t1.items().len(),
    ensures
        simple_function_at(t1) == simple_function_at(t2),
{
    if t1.pos() + 2 <= t1.items().len() {
        t1.lemma_at(t1.pos() + 2);
        t2.lemma_at(t2.pos() + 2);
        lemma_simple_statement_same(t1.at(t1.pos() + 2), t2.at(t2.pos() + 2));
    }
}

/// Parses a function definition: an optional environment, parameters in parentheses, optional
/// captures and the body.
#[verifier::rlimit(80)]
pub fn function_definition<'s>(tokens: TokenList<'s>) -> (r: ParseResult<'s, FunctionDefinition<'s>>)
    requires
        tokens.wf(),
    ensures
        r matches Ok((rest, v)) ==> v.tokens() == tokens.tokens_to(rest),
        parsed(tokens, r, true),
        !terminal_at(tokens, tokens.pos(), TerminalToken::OpenSquare) && !terminal_at(
            tokens,
            tokens.pos(),
            TerminalToken::OpenBracket,
        ) ==> r == Err::<(TokenList<'s>, FunctionDefinition<'s>), ParseError>(
            error_at(ParseErrorType::ExpectedTerminal(TerminalToken::OpenBracket), tokens.pos() as int),
        ),
        simple_function_at(tokens) ==> (r matches Ok((rest, _)) && rest.pos() == chain_stop(
            tokens,
            tokens.pos() + 3,
            Precedence::Lowest,
        )),
    decreases tokens.remaining(), 1nat,
{
    let (t, environment) = function_environment(tokens).maybe(tokens)?;
    let (inner, outer, open, close, start, end) = span_open(
        t,
        ContextType::FunctionParamList,
        TerminalToken::OpenBracket,
        TerminalToken::CloseBracket,
        false,
    )?;
    let (rest, params) = in_span(function_params(inner), start, end, ContextType::FunctionParamList, false)?;
    opens_end(rest, TerminalToken::CloseBracket, start, end, ContextType::FunctionParamList, false)?;
    proof {
        if simple_function_at(tokens) {
            tokens.lemma_at(tokens.pos() + 2);
        }
    }
    let (t, captures) = function_captures(outer).maybe(outer)?;
    proof {
        if simple_function_at(tokens) {
            lemma_simple_statement_same(t, tokens.at(tokens.pos() + 2));
            lemma_chain_same(t, tokens, tokens.pos() + 3, Precedence::Lowest);
        }
    }
    let (t, body) = statement_type(t).replace_context_from(ContextType::BlockStatement, ContextType::Span, t)?;
    Ok((t, FunctionDefinition { environment, open, params, close, captures, body: Box::new(body) }))
}

/// Parses a function environment: `[` [Expression] `]`.
pub fn function_environment<'s>(tokens: TokenList<'s>) -> (r: ParseResult<'s, FunctionEnvironment<'s>>)
    requires
        tokens.wf(),
    ensures
        r matches Ok((rest, v)) ==> v.tokens() == tokens.tokens_to(rest),
        parsed(tokens, r, true),
        r is Ok ==> terminal_at(tokens, tokens.pos(), TerminalToken::OpenSquare),
        !terminal_at(tokens, tokens.pos(), TerminalToken::OpenSquare) ==> (r matches Err(e) && !e.is_fatal && e.ty
            == ParseErrorType::ExpectedTerminal(TerminalToken::OpenSquare) && e.token_index == tokens.pos()),
    decreases tokens.remaining(), 0nat,
{
    let (inner, outer, open, close, start, end) = span_open(
        tokens,
        ContextType::FunctionEnvironment,
        TerminalToken::OpenSquare,
        TerminalToken::CloseSquare,
        false,
    )?;
    let (rest, value) = in_span(
        expression(inner, Precedence::Lowest),
        start,
        end,
        ContextType::FunctionEnvironment,
        false,
    )?;
    opens_end(rest, TerminalToken::CloseSquare, start, end, ContextType::FunctionEnvironment, false)?;
    Ok((outer, FunctionEnvironment { open, value, close }))
}

/// Parses the parameters of a function, separated by commas, possibly ending with `...`.
pub fn function_params<'s>(tokens: TokenList<'s>) -> (r: ParseResult<'s, FunctionParams<'s>>)
    requires
        tokens.wf(),
    ensures
        r matches Ok((rest, v)) ==> v.tokens() == tokens.tokens_to(rest),
        parsed(tokens, r, false),
        tokens.pos() == tokens.items().len() ==> (r matches Ok((rest, _)) && rest == tokens),
    decreases tokens.remaining(), 7nat,
{
    let parse_param = |x: TokenList<'s>| -> (r: ParseResult<'s, FunctionParam<'s>>)
        requires
            tokens.reaches(x),
        ensures
            r matches Ok((rest, v)) ==> v.tokens() == x.tokens_to(rest),
            parsed(x, r, true),
            x.pos() == x.items().len() ==> (r matches Err(e) && !e.is_fatal),
        {
            function_param(x)
        };
    proof {
        if tokens.pos() == tokens.items().len() {
            assert forall|res: ParseResult<'s, FunctionParam<'s>>| #[trigger] parse_param.ensures((tokens,), res) implies (
            res matches Err(e) && !e.is_fatal) by {}
        }
    }
    let separator = |x: TokenList<'s>| -> (r: ParseResult<'s, &'s Token<'s>>)
        requires
            tokens.reaches(x),
        ensures
            r matches Ok((rest, v)) ==> seq![*v] == x.tokens_to(rest),
            parsed(x, r, true),
        {
            terminal(x, TerminalToken::Comma)
        };
    let ghost f = |v: FunctionParam<'s>| v.tokens();
    let (t, maybe_list) = separated_list_trailing0(tokens, parse_param, separator, Ghost(f))?;
    proof {
        if let Some(l) = &maybe_list {
            lemma_function_param_pairs_tokens(l.items@, f);
        }
    }
    match maybe_list {
        // There are no parameters: the function can still be variadic.
        None => match terminal(t, TerminalToken::Ellipsis) {
            Ok((t2, vararg)) => Ok((t2, FunctionParams::EmptyVariable { vararg })),
            Err(_) => Ok((t, FunctionParams::NonVariable { params: None })),
        },
        Some(list) => {
            // A list with a trailing comma can also be variadic.
            if let Some(comma) = list.trailing {
                if let Ok((t2, vararg)) = terminal(t, TerminalToken::Ellipsis) {
                    return Ok(
                        (
                            t2,
                            FunctionParams::NonEmptyVariable {
                                params: SeparatedList1 { items: list.items, last_item: list.last_item },
                                comma,
                                vararg,
                            },
                        ),
                    );
                }
            }
            Ok((t, FunctionParams::NonVariable { params: Some(list) }))
        },
    }
}

/// Parses a function parameter, with or without a type.
pub fn function_param<'s>(tokens: TokenList<'s>) -> (r: ParseResult<'s, FunctionParam<'s>>)
    requires
        tokens.wf(),
    ensures
        r matches Ok((rest, v)) ==> v.tokens() == tokens.tokens_to(rest),
        parsed(tokens, r, true),
        tokens.pos() == tokens.items().len() ==> (r matches Err(e) && !e.is_fatal),
    decreases tokens.remaining(), 6nat,
{
    match typed_function_param(tokens) {
        Ok(x) => Ok(x),
        Err(e) => if e.is_fatal {
            Err(e)
        } else {
            untyped_function_param(tokens)
        },
    }
}

/// Parses a parameter with a type: once the type and name are read, an error is fatal.
fn typed_function_param<'s>(tokens: TokenList<'s>) -> (r: ParseResult<'s, FunctionParam<'s>>)
    requires
        tokens.wf(),
    ensures
        r matches Ok((rest, v)) ==> v.tokens() == tokens.tokens_to(rest),
        parsed(tokens, r, true),
        tokens.pos() == tokens.items().len() ==> (r matches Err(e) && !e.is_fatal),
    decreases tokens.remaining(), 5nat,
{
    let determinant = match type_(tokens) {
        Ok((t, ty)) => match identifier(t) {
            Ok((t2, name)) => Ok((t2, (ty, name))),
            Err(e) => Err(e),
        },
        Err(e) => Err(e),
    };
    let (t, (ty, name)) = determinant.not_definite()?;
    let (t, initializer) = var_initializer(t).maybe(t).definite()?;
    Ok((t, FunctionParam { type_: Some(ty), name, initializer }))
}

/// Parses a parameter without a type.
fn untyped_function_param<'s>(tokens: TokenList<'s>) -> (r: ParseResult<'s, FunctionParam<'s>>)
    requires
        tokens.wf(),
    ensures
        r matches Ok((rest, v)) ==> v.tokens() == tokens.tokens_to(rest),
        parsed(tokens, r, true),
        tokens.pos() == tokens.items().len() ==> (r matches Err(e) && !e.is_fatal),
    decreases tokens.remaining(), 0nat,
{
    let (t, name) = identifier(tokens)?;
    let (t, initializer) = var_initializer(t).maybe(t).definite()?;
    Ok((t, FunctionParam { type_: None, name, initializer }))
}

/// Parses the captures of a function: `:` and names in parentheses.
pub fn function_captures<'s>(tokens: TokenList<'s>) -> (r: ParseResult<'s, FunctionCaptures<'s>>)
    requires
        tokens.wf(),
    ensures
        r matches Ok((rest, v)) ==> v.tokens() == tokens.tokens_to(rest),
        parsed(tokens, r, true),
        r is Ok ==> terminal_at(tokens, tokens.pos(), TerminalToken::Colon),
        !terminal_at(tokens, tokens.pos(), TerminalToken::Colon) ==> (r matches Err(e) && !e.is_fatal && e.ty
            == ParseErrorType::ExpectedTerminal(TerminalToken::Colon) && e.token_index == tokens.pos()),
{
    let (t, colon) = terminal(tokens, TerminalToken::Colon)?;
    let (inner, outer, open, close, start, end) = match span_open(
        t,
        ContextType::FunctionCaptureList,
        TerminalToken::OpenBracket,
        TerminalToken::CloseBracket,
        true,
    ) {
        Ok(x) => x,
        Err(e) => return Err(e.into_fatal()),
    };
    let (rest, names) = in_span(capture_names(inner), start, end, ContextType::FunctionCaptureList, true)?;
    opens_end(rest, TerminalToken::CloseBracket, start, end, ContextType::FunctionCaptureList, true)?;
    Ok((outer, FunctionCaptures { colon, open, names, close }))
}

/// The names captured by a function, separated by commas.
fn capture_names<'s>(tokens: TokenList<'s>) -> (r: ParseResult<'s, SeparatedListTrailing0<'s, Identifier<'s>>>)
    requires
        tokens.wf(),
    ensures
        r matches Ok((rest, v)) ==> (match v {
            Some(l) => identifier_trailing_list_tokens(l),
            None => Seq::empty(),
        }) == tokens.tokens_to(rest),
        parsed(tokens, r, false),
{
    let parse_name = |x: TokenList<'s>| -> (r: ParseResult<'s, Identifier<'s>>)
        requires
            tokens.reaches(x),
        ensures
            r matches Ok((rest, v)) ==> v.tokens() == x.tokens_to(rest),
            parsed(x, r, true),
        {
            identifier(x)
        };
    let separator = |x: TokenList<'s>| -> (r: ParseResult<'s, &'s Token<'s>>)
        requires
            tokens.reaches(x),
        ensures
            r matches Ok((rest, v)) ==> seq![*v] == x.tokens_to(rest),
            parsed(x, r, true),
        {
            terminal(x, TerminalToken::Comma)
        };
    let ghost f = |v: Identifier<'s>| v.tokens();
    let r = separated_list_trailing0(tokens, parse_name, separator, Ghost(f));
    proof {
        if let Ok((_, Some(l))) = &r {
            lemma_identifier_pairs_tokens(l.items@, f);
        }
    }
    r
}

/// Parses a parameter of a function reference type: a type, then an optional name and
/// initializer.
pub fn function_ref_param<'s>(tokens: TokenList<'s>) -> (r: ParseResult<'s, FunctionRefParam<'s>>)
    requires
        tokens.wf(),
    ensures
        r matches Ok((rest, v)) ==> v.tokens() == tokens.tokens_to(rest),
        parsed(tokens, r, true),
    decreases tokens.remaining(), 5nat,
{
    let (t, ty) = type_(tokens)?;
    let (t, name) = identifier(t).maybe(t)?;
    let (t, initializer) = var_initializer(t).maybe(t)?;
    Ok((t, FunctionRefParam { type_: ty, name, initializer }))
}

} // verus!
