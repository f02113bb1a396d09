use crate::ast::{
    ArrayType, Expression, FunctionRefParam, FunctionRefType, GenericType, LocalType, NullableType, PlainType,
    Precedence, ReferenceType, SeparatedListTrailing0, SeparatedListTrailing1, StructType, Type, VarType,
};
use crate::ast::tokens::{function_ref_param_trailing_list_tokens, lemma_function_ref_param_pairs_tokens, lemma_type_pairs_tokens, type_trailing_list_tokens};
use crate::parser::combinator::{definitely_after, in_span, span_end, span_open};
use crate::parser::context::ContextType;
use crate::parser::error::{ParseError, ParseErrorType};
use crate::parser::expression::expression;
use crate::parser::function::function_ref_param;
use crate::parser::identifier::{identifier, identifier_at};
use crate::parser::list::{separated_list_trailing0, separated_list_trailing1};
use crate::parser::struct_::struct_definition;
use crate::parser::token::{error_at, moved_one, terminal, terminal_at};
use crate::parser::token_list::TokenList;
use crate::parser::{parsed, ParseResult};
use crate::token::{TerminalToken, Token};
use vstd::prelude::*;

verus! {

broadcast use crate::parser::token_list::group_tokens_to;

/// The token at the position of `tokens` can start a type: `local`, `var`, an identifier,
/// `functionref` or `struct`.
pub open spec fn type_start_at<'s>(tokens: TokenList<'s>) -> bool {
    ||| terminal_at(tokens, tokens.pos(), TerminalToken::Local)
    ||| terminal_at(tokens, tokens.pos(), TerminalToken::Var)
    ||| identifier_at(tokens)
    ||| terminal_at(tokens, tokens.pos(), TerminalToken::FunctionRef)
    ||| terminal_at(tokens, tokens.pos(), TerminalToken::Struct)
}

/// A type modifier starts at the position of `tokens`: `[`, `<`, `functionref`, `&` or `ornull`.
pub open spec fn modifier_start<'s>(tokens: TokenList<'s>) -> bool {
    ||| terminal_at(tokens, tokens.pos(), TerminalToken::OpenSquare)
    ||| terminal_at(tokens, tokens.pos(), TerminalToken::Less)
    ||| terminal_at(tokens, tokens.pos(), TerminalToken::FunctionRef)
    ||| terminal_at(tokens, tokens.pos(), TerminalToken::BitwiseAnd)
    ||| terminal_at(tokens, tokens.pos(), TerminalToken::OrNull)
}

/// Parses a type: a base type followed by any number of modifiers, which apply from left to
/// right.
pub fn type_<'s>(tokens: TokenList<'s>) -> (r: ParseResult<'s, Type<'s>>)
    requires
        tokens.wf(),
    ensures
        r matches Ok((rest, v)) ==> v.tokens() == tokens.tokens_to(rest),
        parsed(tokens, r, true),
        r is Ok ==> type_start_at(tokens),
        !type_start_at(tokens) ==> r == Err::<(TokenList<'s>, Type<'s>), ParseError>(
            error_at(ParseErrorType::ExpectedType, tokens.pos() as int),
        ),
        identifier_at(tokens) && !modifier_start(tokens.at(tokens.pos() + 1)) ==> (r matches Ok((rest, v))
            && v is Plain && rest.pos() == tokens.pos() + 1),
    decreases tokens.remaining(), 4nat,
{
    let (first, base) = base_type(tokens)?;
    let ghost plain = identifier_at(tokens) && !modifier_start(tokens.at(tokens.pos() + 1));
    proof {
        if plain {
            tokens.lemma_at(tokens.pos() + 1);
        }
    }
    let mut cur = first;
    let mut ty = base;
    loop
        invariant
            plain == (identifier_at(tokens) && !modifier_start(tokens.at(tokens.pos() + 1))),
            plain ==> cur == first && ty is Plain && moved_one(tokens, first) && !modifier_start(
                tokens.at(tokens.pos() + 1),
            ) && tokens.at(tokens.pos() + 1).items() == tokens.items() && tokens.at(tokens.pos() + 1).pos()
                == tokens.pos() + 1,
            tokens.wf(),
            tokens.reaches(cur),
            tokens.pos() < cur.pos(),
            type_start_at(tokens),
            ty.tokens() == tokens.tokens_to(cur),
        decreases cur.remaining(),
    {
        match type_modifier(cur) {
            Ok((next, modifier)) => {
                cur = next;
                ty = apply_type_modifier(ty, modifier);
            },
            Err(err) => {
                if err.is_fatal {
                    return Err(err);
                }
                return Ok((cur, ty));
            },
        }
    }
}

/// Parses a type without modifiers: `local`, `var`, a name, a function reference or a struct.
fn base_type<'s>(tokens: TokenList<'s>) -> (r: ParseResult<'s, Type<'s>>)
    requires
        tokens.wf(),
    ensures
        r matches Ok((rest, v)) ==> v.tokens() == tokens.tokens_to(rest),
        parsed(tokens, r, true),
        r is Ok ==> type_start_at(tokens),
        !type_start_at(tokens) ==> r == Err::<(TokenList<'s>, Type<'s>), ParseError>(
            error_at(ParseErrorType::ExpectedType, tokens.pos() as int),
        ),
        identifier_at(tokens) ==> (r matches Ok((rest, v)) && v is Plain && moved_one(tokens, rest)),
    decreases tokens.remaining(), 3nat,
{
    if let Ok((t, v)) = local_type(tokens) {
        return Ok((t, Type::Local(v)));
    }
    if let Ok((t, v)) = var_type(tokens) {
        return Ok((t, Type::Var(v)));
    }
    if let Ok((t, v)) = plain_type(tokens) {
        return Ok((t, Type::Plain(v)));
    }
    match void_function_ref_type(tokens) {
        Ok((t, v)) => return Ok((t, Type::FunctionRef(v))),
        Err(e) => if e.is_fatal {
            return Err(e);
        },
    }
    match struct_type(tokens) {
        Ok((t, v)) => return Ok((t, Type::Struct(v))),
        Err(e) => if e.is_fatal {
            return Err(e);
        },
    }
    Err(ParseError::new(ParseErrorType::ExpectedType, tokens.start_index()))
}

/// Parses the `local` type.
pub fn local_type<'s>(tokens: TokenList<'s>) -> (r: ParseResult<'s, LocalType<'s>>)
    requires
        tokens.wf(),
    ensures
        r matches Ok((rest, v)) ==> v.tokens() == tokens.tokens_to(rest),
        match r {
            Ok((rest, v)) => {
                &&& terminal_at(tokens, tokens.pos(), TerminalToken::Local)
                &&& *v.local == tokens.items()[tokens.pos()].token
                &&& moved_one(tokens, rest)
            },
            Err(e) => !terminal_at(tokens, tokens.pos(), TerminalToken::Local) && e == error_at(
                ParseErrorType::ExpectedTerminal(TerminalToken::Local),
                tokens.pos(),
            ),
        },
{
    let (tokens, local) = terminal(tokens, TerminalToken::Local)?;
    Ok((tokens, LocalType { local }))
}

/// Parses the `var` type.
pub fn var_type<'s>(tokens: TokenList<'s>) -> (r: ParseResult<'s, VarType<'s>>)
    requires
        tokens.wf(),
    ensures
        r matches Ok((rest, v)) ==> v.tokens() == tokens.tokens_to(rest),
        match r {
            Ok((rest, v)) => {
                &&& terminal_at(tokens, tokens.pos(), TerminalToken::Var)
                &&& *v.var == tokens.items()[tokens.pos()].token
                &&& moved_one(tokens, rest)
            },
            Err(e) => !terminal_at(tokens, tokens.pos(), TerminalToken::Var) && e == error_at(
                ParseErrorType::ExpectedTerminal(TerminalToken::Var),
                tokens.pos(),
            ),
        },
{
    let (tokens, var) = terminal(tokens, TerminalToken::Var)?;
    Ok((tokens, VarType { var }))
}

/// Parses a type named by an identifier.
pub fn plain_type<'s>(tokens: TokenList<'s>) -> (r: ParseResult<'s, PlainType<'s>>)
    requires
        tokens.wf(),
    ensures
        r matches Ok((rest, v)) ==> v.tokens() == tokens.tokens_to(rest),
        match r {
            Ok((rest, v)) => crate::parser::identifier::is_identifier_at(tokens, v.name) && moved_one(tokens, rest),
            Err(e) => !identifier_at(tokens) && e == error_at(ParseErrorType::ExpectedIdentifier, tokens.pos()),
        },
{
    let (tokens, name) = identifier(tokens)?;
    Ok((tokens, PlainType { name }))
}

/// Parses a function reference type without a return type: `functionref(..)`.
pub fn void_function_ref_type<'s>(tokens: TokenList<'s>) -> (r: ParseResult<'s, FunctionRefType<'s>>)
    requires
        tokens.wf(),
    ensures
        r matches Ok((rest, v)) ==> v.tokens() == tokens.tokens_to(rest),
        parsed(tokens, r, true),
        r is Ok ==> terminal_at(tokens, tokens.pos(), TerminalToken::FunctionRef),
        !terminal_at(tokens, tokens.pos(), TerminalToken::FunctionRef) ==> (r matches Err(e) && !e.is_fatal && e.ty
            == ParseErrorType::ExpectedTerminal(TerminalToken::FunctionRef) && e.token_index == tokens.pos()),
        r matches Ok((_, v)) ==> v.return_type is None,
    decreases tokens.remaining(), 2nat,
{
    let (tokens, (functionref, open, args, close)) = function_ref_parts(tokens)?;
    Ok((tokens, FunctionRefType { return_type: None, functionref, open, args, close }))
}

/// Parses an anonymous struct type: `struct { .. }`.
pub fn struct_type<'s>(tokens: TokenList<'s>) -> (r: ParseResult<'s, StructType<'s>>)
    requires
        tokens.wf(),
    ensures
        r matches Ok((rest, v)) ==> v.tokens() == tokens.tokens_to(rest),
        parsed(tokens, r, true),
        r is Ok ==> terminal_at(tokens, tokens.pos(), TerminalToken::Struct),
        !terminal_at(tokens, tokens.pos(), TerminalToken::Struct) ==> (r matches Err(e) && !e.is_fatal && e.ty
            == ParseErrorType::ExpectedTerminal(TerminalToken::Struct) && e.token_index == tokens.pos()),
    decreases tokens.remaining(), 1nat,
{
    let (t, struct_) = terminal(tokens, TerminalToken::Struct)?;
    let (t, declaration) = definitely_after(tokens, ContextType::StructDefinition, struct_definition(t))?;
    Ok((t, StructType { struct_, declaration }))
}

/// What a type modifier adds to the type before it.
enum TypeModifier<'s> {
    Array(&'s Token<'s>, Box<Expression<'s>>, &'s Token<'s>),
    Generic(&'s Token<'s>, SeparatedListTrailing1<'s, Type<'s>>, &'s Token<'s>),
    FunctionRef(&'s Token<'s>, &'s Token<'s>, SeparatedListTrailing0<'s, FunctionRefParam<'s>>, &'s Token<'s>),
    Reference(&'s Token<'s>),
    Nullable(&'s Token<'s>),
}

impl<'s> TypeModifier<'s> {
    /// The tokens of the modifier, in source order.
    spec fn tokens(self) -> Seq<Token<'s>> {
        match self {
            TypeModifier::Array(open, len, close) => seq![*open] + (*len).tokens() + seq![*close],
            TypeModifier::Generic(open, params, close) => seq![*open] + type_trailing_list_tokens(params) + seq![
                *close
            ],
            TypeModifier::FunctionRef(functionref, open, args, close) => seq![*functionref, *open] + (match args {
                Some(l) => function_ref_param_trailing_list_tokens(l),
                None => Seq::empty(),
            }) + seq![*close],
            TypeModifier::Reference(reference) => seq![*reference],
            TypeModifier::Nullable(ornull) => seq![*ornull],
        }
    }
}

/// The type `base` with the modifier applied.
fn apply_type_modifier<'s>(base: Type<'s>, modifier: TypeModifier<'s>) -> (r: Type<'s>)
    ensures
        r.tokens() == base.tokens() + modifier.tokens(),
{
    match modifier {
        TypeModifier::Array(open, len, close) => Type::Array(ArrayType { base: Box::new(base), open, len, close }),
        TypeModifier::Generic(open, params, close) => Type::Generic(
            GenericType { base: Box::new(base), open, params, close },
        ),
        TypeModifier::FunctionRef(functionref, open, args, close) => Type::FunctionRef(
            FunctionRefType { return_type: Some(Box::new(base)), functionref, open, args, close },
        ),
        TypeModifier::Reference(reference) => Type::Reference(ReferenceType { base: Box::new(base), reference }),
        TypeModifier::Nullable(ornull) => Type::Nullable(NullableType { base: Box::new(base), ornull }),
    }
}

/// Parses a type modifier: an array length, generic parameters, a function reference whose return
/// type is the type before, `&` or `ornull`.
fn type_modifier<'s>(tokens: TokenList<'s>) -> (r: ParseResult<'s, TypeModifier<'s>>)
    requires
        tokens.wf(),
    ensures
        r matches Ok((rest, v)) ==> v.tokens() == tokens.tokens_to(rest),
        parsed(tokens, r, true),
        !modifier_start(tokens) ==> (r matches Err(e) && !e.is_fatal),
    decreases tokens.remaining(), 2nat,
{
    match array_modifier(tokens) {
        Ok(x) => return Ok(x),
        Err(e) => if e.is_fatal {
            return Err(e);
        },
    }
    match generic_modifier(tokens) {
        Ok(x) => return Ok(x),
        Err(e) => if e.is_fatal {
            return Err(e);
        },
    }
    match function_ref_parts(tokens) {
        Ok((t, (functionref, open, args, close))) => return Ok((t, TypeModifier::FunctionRef(functionref, open, args, close))),
        Err(e) => if e.is_fatal {
            return Err(e);
        },
    }
    if let Ok((t, reference)) = terminal(tokens, TerminalToken::BitwiseAnd) {
        return Ok((t, TypeModifier::Reference(reference)));
    }
    if let Ok((t, ornull)) = terminal(tokens, TerminalToken::OrNull) {
        return Ok((t, TypeModifier::Nullable(ornull)));
    }
    Err(ParseError::new(ParseErrorType::ExpectedTypeModifier, tokens.start_index()))
}

/// Parses an array length: `[` [Expression] `]`.
fn array_modifier<'s>(tokens: TokenList<'s>) -> (r: ParseResult<'s, TypeModifier<'s>>)
    requires
        tokens.wf(),
    ensures
        r matches Ok((rest, v)) ==> v.tokens() == tokens.tokens_to(rest),
        parsed(tokens, r, true),
        !terminal_at(tokens, tokens.pos(), TerminalToken::OpenSquare) ==> (r matches Err(e) && !e.is_fatal),
    decreases tokens.remaining(), 0nat,
{
    let (inner, outer, open, close, start, end) = span_open(
        tokens,
        ContextType::Type,
        TerminalToken::OpenSquare,
        TerminalToken::CloseSquare,
        true,
    )?;
    let (rest, len) = in_span(expression(inner, Precedence::Lowest), start, end, ContextType::Type, true)?;
    span_end(rest, TerminalToken::CloseSquare, start, end, ContextType::Type)?;
    Ok((outer, TypeModifier::Array(open, len, close)))
}

/// Parses generic parameters: `<` types separated by commas `>`.
fn generic_modifier<'s>(tokens: TokenList<'s>) -> (r: ParseResult<'s, TypeModifier<'s>>)
    requires
        tokens.wf(),
    ensures
        r matches Ok((rest, v)) ==> v.tokens() == tokens.tokens_to(rest),
        parsed(tokens, r, true),
        !terminal_at(tokens, tokens.pos(), TerminalToken::Less) ==> (r matches Err(e) && !e.is_fatal),
    decreases tokens.remaining(), 0nat,
{
    let (t, open) = terminal(tokens, TerminalToken::Less)?;
    definitely_after(tokens, ContextType::GenericArgumentList, generic_params(t, open))
}

/// The parameters and closing `>` of a generic type, after the `<`.
fn generic_params<'s>(tokens: TokenList<'s>, open: &'s Token<'s>) -> (r: ParseResult<'s, TypeModifier<'s>>)
    requires
        tokens.wf(),
    ensures
        r matches Ok((rest, v)) ==> v.tokens() == seq![*open] + tokens.tokens_to(rest),
        parsed(tokens, r, true),
    decreases tokens.remaining(), 5nat,
{
    let parse_type = |x: TokenList<'s>| -> (r: ParseResult<'s, Type<'s>>)
        requires
            tokens.reaches(x),
        ensures
            r matches Ok((rest, v)) ==> v.tokens() == x.tokens_to(rest),
            parsed(x, r, false),
        {
            type_(x)
        };
    let separator = |x: TokenList<'s>| -> (r: ParseResult<'s, &'s Token<'s>>)
        requires
            tokens.reaches(x),
        ensures
            r matches Ok((rest, v)) ==> seq![*v] == x.tokens_to(rest),
            parsed(x, r, true),
        {
            terminal(x, TerminalToken::Comma)
        };
    let ghost f = |v: Type<'s>| v.tokens();
    let (t, params) = separated_list_trailing1(tokens, parse_type, separator, Ghost(f))?;
    proof {
        lemma_type_pairs_tokens(params.items@, f);
    }
    let (t, close) = terminal(t, TerminalToken::Greater)?;
    Ok((t, TypeModifier::Generic(open, params, close)))
}

/// The tokens of the parameters of a function reference type, in order.
spec fn ref_params_tokens<'s>(args: SeparatedListTrailing0<'s, FunctionRefParam<'s>>) -> Seq<Token<'s>> {
    match args {
        Some(l) => function_ref_param_trailing_list_tokens(l),
        None => Seq::empty(),
    }
}

/// Parses `functionref` and its parameter list.
fn function_ref_parts<'s>(tokens: TokenList<'s>) -> (r: ParseResult<
    's,
    (&'s Token<'s>, &'s Token<'s>, SeparatedListTrailing0<'s, FunctionRefParam<'s>>, &'s Token<'s>),
>)
    requires
        tokens.wf(),
    ensures
        r matches Ok((rest, (functionref, open, args, close))) ==> seq![*functionref, *open] + ref_params_tokens(args)
            + seq![*close] == tokens.tokens_to(rest),
        parsed(tokens, r, true),
        r is Ok ==> terminal_at(tokens, tokens.pos(), TerminalToken::FunctionRef),
        !terminal_at(tokens, tokens.pos(), TerminalToken::FunctionRef) ==> (r matches Err(e) && !e.is_fatal && e.ty
            == ParseErrorType::ExpectedTerminal(TerminalToken::FunctionRef) && e.token_index == tokens.pos()),
    decreases tokens.remaining(), 1nat,
{
    let (t, functionref) = terminal(tokens, TerminalToken::FunctionRef)?;
    let (t, (open, args, close)) = definitely_after(tokens, ContextType::Type, function_ref_params(t))?;
    Ok((t, (functionref, open, args, close)))
}

/// Parses the parameter list of a function reference type.
fn function_ref_params<'s>(tokens: TokenList<'s>) -> (r: ParseResult<
    's,
    (&'s Token<'s>, SeparatedListTrailing0<'s, FunctionRefParam<'s>>, &'s Token<'s>),
>)
    requires
        tokens.wf(),
    ensures
        r matches Ok((rest, (open, args, close))) ==> seq![*open] + ref_params_tokens(args) + seq![*close]
            == tokens.tokens_to(rest),
        parsed(tokens, r, true),
    decreases tokens.remaining(), 0nat,
{
    let (inner, outer, open, close, start, end) = span_open(
        tokens,
        ContextType::Type,
        TerminalToken::OpenBracket,
        TerminalToken::CloseBracket,
        true,
    )?;
    let parse_param = |x: TokenList<'s>| -> (r: ParseResult<'s, FunctionRefParam<'s>>)
        requires
            inner.reaches(x),
        ensures
            r matches Ok((rest, v)) ==> v.tokens() == x.tokens_to(rest),
            parsed(x, r, true),
        {
            function_ref_param(x)
        };
    let separator = |x: TokenList<'s>| -> (r: ParseResult<'s, &'s Token<'s>>)
        requires
            inner.reaches(x),
        ensures
            r matches Ok((rest, v)) ==> seq![*v] == x.tokens_to(rest),
            parsed(x, r, true),
        {
            terminal(x, TerminalToken::Comma)
        };
    let ghost f = |v: FunctionRefParam<'s>| v.tokens();
    let (rest, args) = in_span(
        separated_list_trailing0(inner, parse_param, separator, Ghost(f)),
        start,
        end,
        ContextType::Type,
        true,
    )?;
    span_end(rest, TerminalToken::CloseBracket, start, end, ContextType::Type)?;
    proof {
        if let Some(l) = &args {
            lemma_function_ref_param_pairs_tokens(l.items@, f);
        }
    }
    Ok((outer, (open, args, close)))
}

} // verus!
