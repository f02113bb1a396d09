use crate::ast::{Precedence, VarDeclaration, VarInitializer};
use crate::parser::expression::{chain_stop, expression, lemma_chain_same, lemma_simple_chain_same, simple_chain, value_start};
use crate::parser::identifier::identifier;
use crate::parser::parse_result_ext::ParseResultExt;
use crate::parser::token::{error_at, terminal, terminal_at};
use crate::parser::error::{ParseError, ParseErrorType};
use crate::parser::token_list::TokenList;
use crate::parser::{parsed, ParseResult};
use crate::token::TerminalToken;
use vstd::prelude::*;

verus! {

broadcast use crate::parser::token_list::group_tokens_to;

/// Parses a variable: a name and an optional initializer.
pub fn var_definition<'s>(tokens: TokenList<'s>) -> (r: ParseResult<'s, VarDeclaration<'s>>)
    requires
        tokens.wf(),
    ensures
        r matches Ok((rest, v)) ==> v.tokens() == tokens.tokens_to(rest),
        parsed(tokens, r, true),
        !crate::parser::identifier::identifier_at(tokens) ==> (r matches Err(e) && !e.is_fatal),
        crate::parser::identifier::identifier_at(tokens) && terminal_at(tokens, tokens.pos() + 1, TerminalToken::Assign)
            && !value_start(tokens.at(tokens.pos() + 2)) ==> r == Err::<(TokenList<'s>, VarDeclaration<'s>), ParseError>(
            ParseError { is_fatal: true, ..error_at(ParseErrorType::ExpectedExpression, tokens.pos() + 2) },
        ),
        crate::parser::identifier::identifier_at(tokens) && !terminal_at(tokens, tokens.pos() + 1, TerminalToken::Assign)
            ==> (r matches Ok((rest, v)) && rest.pos() == tokens.pos() + 1 && v.initializer is None),
        crate::parser::identifier::identifier_at(tokens) && terminal_at(tokens, tokens.pos() + 1, TerminalToken::Assign)
            && simple_chain(tokens.at(tokens.pos() + 2), Precedence::Comma) ==> (r matches Ok((rest, v)) && rest.pos()
            == chain_stop(tokens, tokens.pos() + 3, Precedence::Comma) && v.initializer is Some),
    decreases tokens.remaining(), 0nat,
{
    let (t, name) = identifier(tokens)?;
    proof {
        if terminal_at(tokens, tokens.pos() + 1, TerminalToken::Assign) {
            tokens.lemma_at(tokens.pos() + 2);
            t.lemma_at(t.pos() + 1);
            if tokens.pos() + 2 < tokens.items().len() {
                lemma_simple_chain_same(t.at(t.pos() + 1), tokens.at(tokens.pos() + 2), Precedence::Comma);
            }
            lemma_chain_same(t, tokens, tokens.pos() + 3, Precedence::Comma);
        }
    }
    let (t, initializer) = var_initializer(t).maybe(t)?;
    Ok((t, VarDeclaration { name, initializer }))
}

/// Parses an initializer: `=` and a value.
pub fn var_initializer<'s>(tokens: TokenList<'s>) -> (r: ParseResult<'s, VarInitializer<'s>>)
    requires
        tokens.wf(),
    ensures
        r matches Ok((rest, v)) ==> v.tokens() == tokens.tokens_to(rest),
        parsed(tokens, r, true),
        r is Ok ==> terminal_at(tokens, tokens.pos(), TerminalToken::Assign),
        !terminal_at(tokens, tokens.pos(), TerminalToken::Assign) ==> (r matches Err(e) && !e.is_fatal && e.ty
            == ParseErrorType::ExpectedTerminal(TerminalToken::Assign) && e.token_index == tokens.pos()),
        r matches Err(e) && !e.is_fatal ==> !terminal_at(tokens, tokens.pos(), TerminalToken::Assign),
        terminal_at(tokens, tokens.pos(), TerminalToken::Assign) && !value_start(tokens.at(tokens.pos() + 1)) ==> r
            == Err::<(TokenList<'s>, VarInitializer<'s>), ParseError>(
            ParseError { is_fatal: true, ..error_at(ParseErrorType::ExpectedExpression, tokens.pos() + 1) },
        ),
        terminal_at(tokens, tokens.pos(), TerminalToken::Assign) && simple_chain(tokens.at(tokens.pos() + 1), Precedence::Comma)
            ==> (r matches Ok((rest, _)) && rest.pos() == chain_stop(tokens, tokens.pos() + 2, Precedence::Comma)),
    decreases tokens.remaining(), 0nat,
{
    proof {
        if terminal_at(tokens, tokens.pos(), TerminalToken::Assign) {
            tokens.lemma_at(tokens.pos() + 1);
        }
    }
    let (t, assign) = terminal(tokens, TerminalToken::Assign)?;
    proof {
        if t.pos() < t.items().len() {
            lemma_simple_chain_same(t, tokens.at(tokens.pos() + 1), Precedence::Comma);
            lemma_chain_same(tokens.at(tokens.pos() + 1), tokens, tokens.pos() + 2, Precedence::Comma);
        }
    }
    let (t, value) = expression(t, Precedence::Comma).definite()?;
    Ok((t, VarInitializer { assign, value }))
}

} // verus!
