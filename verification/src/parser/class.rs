use crate::ast::tokens::lemma_class_member_seq_tokens;
use crate::ast::{ClassDefinition, ClassExtends, ClassMember, Precedence};
use crate::parser::combinator::{in_span, opens_end, span_open};
use crate::parser::context::ContextType;
use crate::parser::error::{ParseError, ParseErrorType};
use crate::parser::expression::{expression, table_delimited};
use crate::parser::list::many;
use crate::parser::parse_result_ext::ParseResultExt;
use crate::parser::slot::{slot, slot_start};
use crate::parser::statement::empty_block_at;
use crate::parser::token::{error_at, terminal, terminal_at};
use crate::parser::token_list::TokenList;
use crate::parser::{parsed, ParseResult};
use crate::token::TerminalToken;
use vstd::prelude::*;

verus! {

broadcast use crate::parser::token_list::group_tokens_to;

/// Parses a class definition: an optional `extends` clause and members in braces.
pub fn class_definition<'s>(tokens: TokenList<'s>) -> (r: ParseResult<'s, ClassDefinition<'s>>)
    requires
        tokens.wf(),
    ensures
        r matches Ok((rest, v)) ==> v.tokens() == tokens.tokens_to(rest),
        parsed(tokens, r, true),
        empty_block_at(tokens) ==> (r matches Ok((rest, _)) && rest.pos() == tokens.pos() + 2),
    decreases tokens.remaining(), 1nat,
{
    let (t, extends) = class_extends(tokens).maybe(tokens)?;
    let (inner, outer, open, close, start, end) = span_open(
        t,
        ContextType::Span,
        TerminalToken::OpenBrace,
        TerminalToken::CloseBrace,
        false,
    )?;
    let member = |x: TokenList<'s>| -> (r: ParseResult<'s, ClassMember<'s>>)
        requires
            inner.reaches(x),
        ensures
            r matches Ok((rest, v)) ==> v.tokens() == x.tokens_to(rest),
            parsed(x, r, true),
            x.pos() == x.items().len() ==> (r matches Err(e) && !e.is_fatal),
        {
            class_member(x)
        };
    let ghost f = |v: ClassMember<'s>| v.tokens();
    proof {
        if inner.pos() == inner.items().len() {
            assert forall|res: ParseResult<'s, ClassMember<'s>>| #[trigger] member.ensures((inner,), res) implies (
            res matches Err(e) && !e.is_fatal) by {}
        }
    }
    let (rest, members) = in_span(
        many(inner, member, Ghost(f)),
        start,
        end,
        ContextType::Span,
        false,
    )?;
    opens_end(rest, TerminalToken::CloseBrace, start, end, ContextType::Span, false)?;
    proof {
        lemma_class_member_seq_tokens(members@, f);
    }
    Ok((outer, ClassDefinition { extends, open, members, close }))
}

/// Parses an `extends` clause: `extends` [Expression].
pub fn class_extends<'s>(tokens: TokenList<'s>) -> (r: ParseResult<'s, ClassExtends<'s>>)
    requires
        tokens.wf(),
    ensures
        r matches Ok((rest, v)) ==> v.tokens() == tokens.tokens_to(rest),
        parsed(tokens, r, true),
        r is Ok ==> terminal_at(tokens, tokens.pos(), TerminalToken::Extends),
        !terminal_at(tokens, tokens.pos(), TerminalToken::Extends) ==> (r matches Err(e) && !e.is_fatal && e.ty
            == ParseErrorType::ExpectedTerminal(TerminalToken::Extends) && e.token_index == tokens.pos()),
    decreases tokens.remaining(), 0nat,
{
    let (t, extends) = terminal(tokens, TerminalToken::Extends)?;
    let (t, name) = expression(t, Precedence::Lowest)?;
    Ok((t, ClassExtends { extends, name }))
}

/// Parses a class member: optional attributes and `static`, a slot and an optional `;`.
#[verifier::rlimit(40)]
pub fn class_member<'s>(tokens: TokenList<'s>) -> (r: ParseResult<'s, ClassMember<'s>>)
    requires
        tokens.wf(),
    ensures
        r matches Ok((rest, v)) ==> v.tokens() == tokens.tokens_to(rest),
        parsed(tokens, r, true),
        !terminal_at(tokens, tokens.pos(), TerminalToken::OpenAttributes) && !terminal_at(
            tokens,
            tokens.pos(),
            TerminalToken::Static,
        ) && !slot_start(tokens) ==> r == Err::<(TokenList<'s>, ClassMember<'s>), ParseError>(
            error_at(ParseErrorType::ExpectedClassMember, tokens.pos() as int),
        ),
    decreases tokens.remaining(), 8nat,
{
    let (t, attributes) = table_delimited(tokens, TerminalToken::OpenAttributes, TerminalToken::CloseAttributes).maybe(
        tokens,
    )?;
    let (t, static_) = terminal(t, TerminalToken::Static).maybe(t)?;
    let (t, slot) = match slot(t) {
        Ok(x) => x,
        Err(e) => if e.is_fatal {
            return Err(e);
        } else {
            return Err(t.error(ParseErrorType::ExpectedClassMember));
        },
    };
    let (t, semicolon) = terminal(t, TerminalToken::Semicolon).maybe(t)?;
    Ok((t, ClassMember { attributes, static_, slot, semicolon }))
}

} // verus!
