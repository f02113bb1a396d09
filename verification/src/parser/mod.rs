pub mod array;
pub mod class;
pub mod combinator;
pub mod context;
pub mod control;
pub mod enum_;
pub mod error;
pub mod expression;
pub mod function;
pub mod global;
pub mod identifier;
pub mod list;
pub mod operator;
pub mod parse_result_ext;
pub mod slot;
pub mod statement;
pub mod struct_;
pub mod table;
pub mod token;
pub mod token_list;
pub mod type_;
pub mod variable;

pub use self::context::ContextType;
pub use self::error::{InternalErrorType, ParseError, ParseErrorContext, ParseErrorType};
pub use self::token_list::TokenList;

use crate::ast::tokens::lemma_statement_seq_tokens;
use crate::ast::{Program, Statement};
use crate::flavor::Flavor;
use crate::lexer::{closes_at, nested_in, spans_matched, spans_nested, TokenItem};
use crate::parser::token_list::{closed_before, span_ok_at, spans_from};
use crate::parser::list::{many_until_ended, successive};
use crate::parser::statement::{statement, statement_read, statement_start, statements_read};
use crate::parser::token::{error_at, terminal_at};
use crate::token::TerminalToken;
use vstd::prelude::*;

verus! {

/// The result of a parser: the rest of the token list and the parsed value, or an error.
pub type ParseResult<'s, T> = Result<(TokenList<'s>, T), ParseError>;

/// An internal error about a delimiter that does not name a closing delimiter within the list.
pub open spec fn is_span_error(ty: ParseErrorType) -> bool {
    ty == ParseErrorType::Internal(InternalErrorType::TokenIsNotSpan) || ty
        == ParseErrorType::Internal(InternalErrorType::SpanEndPastEof)
}

/// A parser that started at `tokens` returned `r`: on success the rest is the same list at the
/// same position or later (strictly later if `strict`), and an error is at a token index within
/// the list; where the spans of the list are well formed, the error is not about a span.
pub open spec fn parsed<'s, T>(tokens: TokenList<'s>, r: ParseResult<'s, T>, strict: bool) -> bool {
    &&& parsed_in(tokens, r, strict)
    &&& tokens.spans_ok() ==> !(r matches Err(e) && is_span_error(e.ty))
}

/// A parser that started at `tokens` returned `r`: on success the rest is the same list at the
/// same position or later (strictly later if `strict`), and an error is at a token index within
/// the list.
pub open spec fn parsed_in<'s, T>(tokens: TokenList<'s>, r: ParseResult<'s, T>, strict: bool) -> bool {
    match r {
        Ok((rest, _)) => tokens.reaches(rest) && (strict ==> tokens.pos() < rest.pos()),
        Err(e) => e.token_index <= tokens.items().len(),
    }
}

/// The spans of tokens that [`tokenize`](crate::tokenize) gives are closed and nest, from the first
/// token on.
pub proof fn lemma_tokenized_spans_ok(items: Seq<TokenItem>)
    requires
        spans_matched(items),
        spans_nested(items),
    ensures
        spans_from(items, 0),
{
    assert forall|i: int| 0 <= i < items.len() implies #[trigger] span_ok_at(items, i) by {
        match items[i].close_index {
            Some(c) => {
                assert(closes_at(items, i, c as int));
                assert forall|j: int| i < j < c implies #[trigger] closed_before(items, j, c as int) by {
                    assert(nested_in(items, j, c as int));
                }
            },
            None => {},
        }
    }
}

/// `vals` are the statements read one after another from the start of `items` to their end.
pub open spec fn statements_of<'s>(items: Seq<TokenItem<'s>>, flavor: Flavor, vals: Seq<Statement<'s>>) -> bool {
    exists|ps: Seq<TokenList<'s>>|
        #[trigger] statements_read(ps, vals) && ps[0].items() == items && ps[0].pos() == 0 && ps[0].spec_flavor()
            == flavor && ps.last().pos() == items.len()
}

/// Statements are read one after another from the start of `items`, and reading the next one,
/// before the end, fails with `e`.
pub open spec fn statements_then_error<'s>(items: Seq<TokenItem<'s>>, flavor: Flavor, e: ParseError) -> bool {
    exists|ps: Seq<TokenList<'s>>, vals: Seq<Statement<'s>>|
        #[trigger] statements_read(ps, vals) && ps[0].items() == items && ps[0].pos() == 0 && ps[0].spec_flavor()
            == flavor && ps.last().pos() < ps.last().items().len() && statement_read(ps.last(), Err(e))
}

/// Parses a list of tokens of the given flavor, as [`tokenize`](crate::tokenize) gives them,
/// into a syntax tree: statements until the end of the tokens. The tree keeps the source: it holds
/// every token of the list, in order, and nothing else.
#[verifier::rlimit(40)]
pub fn parse<'s>(items: &'s [TokenItem<'s>], flavor: Flavor) -> (r: Result<Program<'s>, ParseError>)
    requires
        items.len() < usize::MAX,
    ensures
        r matches Err(e) ==> e.token_index <= items.len(),
        spans_matched(items@) && spans_nested(items@) ==> !(r matches Err(e) && is_span_error(e.ty)),
        items@.len() == 0 ==> (r matches Ok(program) && program.statements@.len() == 0),
        r matches Ok(program) ==> program.tokens() == items@.map_values(|item: TokenItem<'s>| item.token),
        r matches Ok(program) ==> statements_of(items@, flavor, program.statements@),
        r matches Err(e) ==> statements_then_error(items@, flavor, e),
        items@.len() > 0 && !statement_start(TokenList::first(flavor, items)) && !terminal_at(
            TokenList::first(flavor, items),
            0,
            TerminalToken::Semicolon,
        ) ==> r == Err::<Program<'s>, ParseError>(error_at(ParseErrorType::ExpectedStatement, 0)),
{
    let tokens = TokenList::new(flavor, items);
    proof {
        if spans_matched(items@) && spans_nested(items@) {
            lemma_tokenized_spans_ok(items@);
        }
    }
    let parse_statement = |x: TokenList<'s>| -> (r: ParseResult<'s, crate::ast::Statement<'s>>)
        requires
            tokens.reaches(x),
        ensures
            r matches Ok((rest, v)) ==> v.tokens() == x.tokens_to(rest),
            parsed(x, r, true),
            statement_read(x, r),
            !statement_start(x) && !terminal_at(x, x.pos(), TerminalToken::Semicolon) ==> r == Err::<
                (TokenList<'s>, Statement<'s>),
                ParseError,
            >(error_at(ParseErrorType::ExpectedStatement, x.pos() as int)),
        {
            statement(x)
        };
    let ghost f = |v: crate::ast::Statement<'s>| v.tokens();
    let (rest, statements) = match many_until_ended(tokens, parse_statement, Ghost(f)) {
        Ok(x) => x,
        Err(e) => {
            proof {
                let (ps, vals) = choose|ps: Seq<TokenList<'s>>, vals: Seq<Statement<'s>>|
                    #[trigger] successive(parse_statement, ps, vals) && ps[0] == tokens && ps.last().pos()
                        < ps.last().items().len() && parse_statement.ensures(
                        (ps.last(),),
                        Err::<(TokenList<'s>, Statement<'s>), ParseError>(e),
                    );
                assert forall|i: int| 0 <= i < vals.len() implies statement_read(
                    ps[i],
                    Ok::<_, ParseError>((ps[i + 1], #[trigger] vals[i])),
                ) by {
                    assert(parse_statement.ensures((ps[i],), Ok::<_, ParseError>((ps[i + 1], vals[i]))));
                }
                assert(statements_read(ps, vals));
                assert(statement_read(ps.last(), Err(e)));
                assert(statements_then_error(items@, flavor, e));
                if items@.len() > 0 && !statement_start(tokens) && !terminal_at(tokens, 0, TerminalToken::Semicolon) {
                    if vals.len() > 0 {
                        assert(parse_statement.ensures((ps[0],), Ok::<_, ParseError>((ps[1], vals[0]))));
                        assert(false);
                    }
                }
            }
            return Err(e);
        },
    };
    let ghost ps = choose|ps: Seq<TokenList<'s>>|
        #[trigger] successive(parse_statement, ps, statements@) && ps[0] == tokens && ps.last() == rest;
    proof {
        if items@.len() > 0 && !statement_start(tokens) && !terminal_at(tokens, 0, TerminalToken::Semicolon) {
            assert(statements@.len() > 0);
            assert(parse_statement.ensures((ps[0],), Ok::<_, ParseError>((ps[1], statements@[0]))));
            assert(false);
        }
        assert forall|i: int| 0 <= i < statements@.len() implies statement_read(
            ps[i],
            Ok::<_, ParseError>((ps[i + 1], #[trigger] statements@[i])),
        ) by {
            assert(parse_statement.ensures((ps[i],), Ok::<_, ParseError>((ps[i + 1], statements@[i]))));
        }
        assert(statements_read(ps, statements@));
        assert(rest.pos() == rest.items().len() && tokens.reaches(rest));
        assert(ps[0].items() == items@ && ps[0].pos() == 0 && ps[0].spec_flavor() == flavor && ps.last().pos()
            == items@.len());
    }
    proof {
        lemma_statement_seq_tokens(statements@, f);
        assert(tokens.tokens_to(rest) =~= items@.map_values(|item: TokenItem<'s>| item.token));
    }
    let program = Program { statements };
    assert(statements_read(ps, program.statements@));
    assert(ps[0].items() == items@ && ps[0].pos() == 0 && ps[0].spec_flavor() == flavor && ps.last().pos()
        == items@.len());
    assert(statements_of(items@, flavor, program.statements@));
    Ok(program)
}

} // verus!
