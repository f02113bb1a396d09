use crate::ast::EnumEntry;
use crate::parser::identifier::identifier;
use crate::parser::parse_result_ext::ParseResultExt;
use crate::parser::token::terminal;
use crate::parser::token_list::TokenList;
use crate::parser::variable::var_initializer;
use crate::parser::{parsed, ParseResult};
use crate::token::TerminalToken;
use vstd::prelude::*;

verus! {

broadcast use crate::parser::token_list::group_tokens_to;

/// Parses an entry of an enum: a name, an optional initializer and an optional `,`.
pub fn enum_entry<'s>(tokens: TokenList<'s>) -> (r: ParseResult<'s, EnumEntry<'s>>)
    requires
        tokens.wf(),
    ensures
        r matches Ok((rest, v)) ==> v.tokens() == tokens.tokens_to(rest),
        parsed(tokens, r, true),
        r matches Err(e) && !e.is_fatal ==> !crate::parser::identifier::identifier_at(tokens),
        !crate::parser::identifier::identifier_at(tokens) ==> (r matches Err(e) && !e.is_fatal),
    decreases tokens.remaining(), 0nat,
{
    let (t, name) = identifier(tokens)?;
    let (t, initializer) = var_initializer(t).maybe(t).definite()?;
    let (t, comma) = terminal(t, TerminalToken::Comma).maybe(t).definite()?;
    Ok((t, EnumEntry { name, initializer, comma }))
}

} // verus!
