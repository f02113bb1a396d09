use crate::ast::tokens::lemma_struct_property_seq_tokens;
use crate::ast::{StructDeclaration, StructProperty, Type};
use crate::parser::combinator::{in_span, opens_end, span_open};
use crate::parser::context::ContextType;
use crate::parser::identifier::identifier;
use crate::parser::list::many;
use crate::parser::parse_result_ext::ParseResultExt;
use crate::parser::token::{terminal, terminal_at};
use crate::parser::error::ParseErrorType;
use crate::parser::token_list::TokenList;
use crate::parser::type_::type_;
use crate::parser::variable::var_initializer;
use crate::parser::{parsed, ParseResult};
use crate::token::TerminalToken;
use crate::parser::statement::empty_block_at;
use vstd::prelude::*;

verus! {

broadcast use crate::parser::token_list::group_tokens_to;

/// Parses the body of a struct: properties in braces.
pub fn struct_definition<'s>(tokens: TokenList<'s>) -> (r: ParseResult<'s, StructDeclaration<'s>>)
    requires
        tokens.wf(),
    ensures
        r matches Ok((rest, v)) ==> v.tokens() == tokens.tokens_to(rest),
        parsed(tokens, r, true),
        r is Ok ==> terminal_at(tokens, tokens.pos(), TerminalToken::OpenBrace),
        !terminal_at(tokens, tokens.pos(), TerminalToken::OpenBrace) ==> (r matches Err(e) && !e.is_fatal && e.ty
            == ParseErrorType::ExpectedTerminal(TerminalToken::OpenBrace) && e.token_index == tokens.pos()),
        empty_block_at(tokens) ==> (r matches Ok((rest, _)) && rest.pos() == tokens.pos() + 2),
    decreases tokens.remaining(), 0nat,
{
    let (inner, outer, open, close, start, end) = span_open(
        tokens,
        ContextType::Span,
        TerminalToken::OpenBrace,
        TerminalToken::CloseBrace,
        false,
    )?;
    let parse_property = |x: TokenList<'s>| -> (r: ParseResult<'s, StructProperty<'s>>)
        requires
            inner.reaches(x),
        ensures
            r matches Ok((rest, v)) ==> v.tokens() == x.tokens_to(rest),
            parsed(x, r, true),
            x.pos() == x.items().len() ==> (r matches Err(e) && !e.is_fatal),
        {
            struct_property(x)
        };
    let ghost f = |v: StructProperty<'s>| v.tokens();
    proof {
        if inner.pos() == inner.items().len() {
            assert forall|res: ParseResult<'s, StructProperty<'s>>| #[trigger] parse_property.ensures((inner,), res)
                implies (res matches Err(e) && !e.is_fatal) by {}
        }
    }
    let (rest, properties) = in_span(
        many(inner, parse_property, Ghost(f)),
        start,
        end,
        ContextType::Span,
        false,
    )?;
    opens_end(rest, TerminalToken::CloseBrace, start, end, ContextType::Span, false)?;
    proof {
        lemma_struct_property_seq_tokens(properties@, f);
    }
    Ok((outer, StructDeclaration { open, properties, close }))
}

/// Parses a struct property: a type, a name, an optional initializer and an optional `,`.
pub fn struct_property<'s>(tokens: TokenList<'s>) -> (r: ParseResult<'s, StructProperty<'s>>)
    requires
        tokens.wf(),
    ensures
        r matches Ok((rest, v)) ==> v.tokens() == tokens.tokens_to(rest),
        parsed(tokens, r, true),
        tokens.pos() == tokens.items().len() ==> (r matches Err(e) && !e.is_fatal),
    decreases tokens.remaining(), 5nat,
{
    let res = match type_(tokens).not_definite() {
        Ok((t, ty)) => struct_property_rest(t, ty).definite(),
        Err(e) => Err(e),
    };
    res.with_context_from(ContextType::Property, tokens)
}

/// The name, initializer and `,` of a struct property, after its type.
fn struct_property_rest<'s>(tokens: TokenList<'s>, ty: Type<'s>) -> (r: ParseResult<'s, StructProperty<'s>>)
    requires
        tokens.wf(),
    ensures
        r matches Ok((rest, v)) ==> v.tokens() == ty.tokens() + tokens.tokens_to(rest),
        parsed(tokens, r, true),
    decreases tokens.remaining(), 0nat,
{
    let (t, name) = identifier(tokens)?;
    let (t, initializer) = var_initializer(t).maybe(t)?;
    let (t, comma) = terminal(t, TerminalToken::Comma).maybe(t)?;
    Ok((t, StructProperty { ty, name, initializer, comma }))
}

} // verus!
