use crate::ast::tokens::{identifier_pairs_tokens, lemma_statement_seq_tokens, lemma_switch_case_seq_tokens, lemma_enum_entry_seq_tokens, lemma_identifier_pairs_tokens, lemma_var_declaration_pairs_prepend, lemma_var_declaration_pairs_tokens, var_declaration_trailing_list_tokens};
use crate::ast::{
    BlockStatement, BreakStatement, ClassDefinitionStatement, ConstDefinitionStatement, ConstructorDefinitionStatement,
    ContinueStatement, DelayThreadStatement, DoWhileStatement, EmptyStatement, EnumDefinitionStatement, EnumEntry,
    ExpressionStatement, ForStatement, ForeachStatement, FunctionDefinitionStatement, GlobalStatement,
    GlobalizeAllFunctionsStatement, Identifier, IfStatement, Precedence, ReturnStatement, SeparatedListTrailing0, SeparatedListTrailing1,
    Statement, StatementType, StructDefinitionStatement, SwitchCase, SwitchStatement, ThreadStatement, ThrowStatement,
    TryCatchStatement, Type, TypeDefinitionStatement, UntypedStatement, VarDeclaration, VarDefinitionStatement,
    WaitStatement, WaitThreadStatement, WhileStatement, YieldStatement,
};
use crate::parser::class::class_definition;
use crate::parser::combinator::{definitely_after, in_span, opt, prevent_ending_line, span_end, span_open};
use crate::parser::context::ContextType;
use crate::parser::control::{else_after, for_definition, foreach_index, foreach_value, if_statement_type, switch_case};
use crate::parser::enum_::enum_entry;
use crate::parser::error::{InternalErrorType, ParseError, ParseErrorType};
use crate::parser::expression::{chain_stop, expression, lemma_chain_same, lemma_no_operator_at_brace, lemma_no_operator_at_end, lemma_simple_chain_same, simple_chain, value_start};
use crate::parser::function::{function_definition, lemma_simple_function_same, simple_function_at};
use crate::parser::global::global_definition;
use crate::parser::identifier::{identifier, identifier_at};
use crate::parser::list::{after_item_fails, many, separated_calls, successive, separated_list1, separated_list_trailing0};
use crate::parser::parse_result_ext::ParseResultExt;
use crate::parser::struct_::struct_definition;
use crate::parser::token::{commits_at, error_at, moved_one, terminal, terminal_at};
use crate::parser::token_list::{spans_from, TokenList};
use crate::parser::type_::{modifier_start, type_, type_start_at};
use crate::parser::variable::{var_definition, var_initializer};
use crate::parser::{parsed, ParseResult};
use crate::token::{TerminalToken, Token, TokenType};
use vstd::prelude::*;

verus! {

broadcast use crate::parser::token_list::group_tokens_to;

/// The first token of each kind of statement that its first token alone decides: `{` for a block,
/// `if` for an `if` statement, and so on.
pub open spec fn statement_keyword(ty: StatementType) -> Option<TerminalToken> {
    match ty {
        StatementType::Block(_) => Some(TerminalToken::OpenBrace),
        StatementType::If(_) => Some(TerminalToken::If),
        StatementType::While(_) => Some(TerminalToken::While),
        StatementType::DoWhile(_) => Some(TerminalToken::Do),
        StatementType::Switch(_) => Some(TerminalToken::Switch),
        StatementType::For(_) => Some(TerminalToken::For),
        StatementType::Foreach(_) => Some(TerminalToken::Foreach),
        StatementType::Break(_) => Some(TerminalToken::Break),
        StatementType::Continue(_) => Some(TerminalToken::Continue),
        StatementType::Return(_) => Some(TerminalToken::Return),
        StatementType::Yield(_) => Some(TerminalToken::Yield),
        StatementType::ClassDefinition(_) => Some(TerminalToken::Class),
        StatementType::TryCatch(_) => Some(TerminalToken::Try),
        StatementType::Throw(_) => Some(TerminalToken::Throw),
        StatementType::Const(_) => Some(TerminalToken::Const),
        StatementType::EnumDefinition(_) => Some(TerminalToken::Enum),
        StatementType::Thread(_) => Some(TerminalToken::Thread),
        StatementType::DelayThread(_) => Some(TerminalToken::DelayThread),
        StatementType::WaitThread(_) => Some(TerminalToken::WaitThread),
        StatementType::Wait(_) => Some(TerminalToken::Wait),
        StatementType::TypeDefinition(_) => Some(TerminalToken::Typedef),
        StatementType::Global(_) => Some(TerminalToken::Global),
        StatementType::GlobalizeAllFunctions(_) => Some(TerminalToken::GlobalizeAllFunctions),
        StatementType::Untyped(_) => Some(TerminalToken::Untyped),
        _ => None,
    }
}

/// Whether `t` is the first token of a kind of statement that its first token alone decides.
pub open spec fn is_statement_keyword(t: TerminalToken) -> bool {
    ||| t == TerminalToken::OpenBrace
    ||| t == TerminalToken::If
    ||| t == TerminalToken::While
    ||| t == TerminalToken::Do
    ||| t == TerminalToken::Switch
    ||| t == TerminalToken::For
    ||| t == TerminalToken::Foreach
    ||| t == TerminalToken::Break
    ||| t == TerminalToken::Continue
    ||| t == TerminalToken::Return
    ||| t == TerminalToken::Yield
    ||| t == TerminalToken::Class
    ||| t == TerminalToken::Try
    ||| t == TerminalToken::Throw
    ||| t == TerminalToken::Const
    ||| t == TerminalToken::Enum
    ||| t == TerminalToken::Thread
    ||| t == TerminalToken::DelayThread
    ||| t == TerminalToken::WaitThread
    ||| t == TerminalToken::Wait
    ||| t == TerminalToken::Typedef
    ||| t == TerminalToken::Global
    ||| t == TerminalToken::GlobalizeAllFunctions
    ||| t == TerminalToken::Untyped
}

/// A statement parser that started at `tokens` returned the kind `r`: where the first token is
/// a statement keyword, the statement is of that keyword's kind, or parsing failed for good.
pub open spec fn decided_by_keyword<'s>(tokens: TokenList<'s>, r: ParseResult<'s, StatementType<'s>>) -> bool {
    &&& r matches Ok((_, v)) ==> (statement_keyword(v) matches Some(k) ==> terminal_at(tokens, tokens.pos(), k))
    &&& forall|k: TerminalToken|
        is_statement_keyword(k) && #[trigger] terminal_at(tokens, tokens.pos(), k) ==> match r {
            Ok((_, v)) => statement_keyword(v) == Some(k),
            Err(e) => e.is_fatal,
        }
}

/// The same for a parser of a whole statement, with its `;`.
pub open spec fn statement_decided_by_keyword<'s>(tokens: TokenList<'s>, r: ParseResult<'s, Statement<'s>>) -> bool {
    &&& r matches Ok((_, v)) ==> (statement_keyword(v.ty) matches Some(k) ==> terminal_at(tokens, tokens.pos(), k))
    &&& forall|k: TerminalToken|
        is_statement_keyword(k) && #[trigger] terminal_at(tokens, tokens.pos(), k) ==> match r {
            Ok((_, v)) => statement_keyword(v.ty) == Some(k),
            Err(e) => e.is_fatal,
        }
}

/// At the position of `tokens` stand `global`, `function` and a name: a statement that makes a
/// function global.
pub open spec fn global_function_at<'s>(tokens: TokenList<'s>) -> bool {
    &&& terminal_at(tokens, tokens.pos(), TerminalToken::Global)
    &&& terminal_at(tokens, tokens.pos() + 1, TerminalToken::Function)
    &&& identifier_at(tokens.at(tokens.pos() + 2))
}

/// Parses a statement: a statement type and an optional `;`, or a lone `;`.
#[verifier::rlimit(40)]
pub fn statement<'s>(tokens: TokenList<'s>) -> (r: ParseResult<'s, Statement<'s>>)
    requires
        tokens.wf(),
    ensures
        statement_read(tokens, r),
    decreases tokens.remaining(), 11nat,
{
    if let Ok((t, end)) = terminal(tokens, TerminalToken::Semicolon) {
        return Ok((t, Statement { ty: StatementType::Empty(EmptyStatement { empty: None }), semicolon: Some(end) }));
    }
    let (t, ty) = statement_type(tokens)?;
    let (t, semicolon) = opt(t, terminal(t, TerminalToken::Semicolon))?;
    Ok((t, Statement { ty, semicolon }))
}

/// `r` is what reading a statement at `x` gives, as [`statement`] states it: it holds the tokens
/// it read and moves forward; it keeps to the kind of statement that the first token decides;
/// it reads a lone `;` as an empty statement, a simple expression statement to the end of its
/// chain, a compound statement with simple parts to the end that [`compound_end`] gives, and
/// `global function` and a name to the end of the name, each with the `;` after it if one
/// follows; and it fails with
/// [`ParseErrorType::ExpectedStatement`] where no statement starts.
pub open spec fn statement_read<'s>(x: TokenList<'s>, r: ParseResult<'s, Statement<'s>>) -> bool {
    &&& r matches Ok((rest, v)) ==> v.tokens() == x.tokens_to(rest)
    &&& parsed(x, r, true)
    &&& statement_decided_by_keyword(x, r)
    &&& terminal_at(x, x.pos(), TerminalToken::Semicolon) ==> (r matches Ok((rest, v)) && moved_one(x, rest) && (
    v.ty matches StatementType::Empty(empty) && empty.empty is None) && (v.semicolon matches Some(semicolon)
        && *semicolon == x.items()[x.pos()].token))
    &&& simple_statement(x) ==> simple_statement_read(x, r)
    &&& !statement_start(x) && !terminal_at(x, x.pos(), TerminalToken::Semicolon) ==> r == Err::<
        (TokenList<'s>, Statement<'s>),
        ParseError,
    >(error_at(ParseErrorType::ExpectedStatement, x.pos() as int))
    &&& compound_end(x) matches Some(end) ==> (r matches Ok((rest, _)) && rest.pos() == if terminal_at(
        x,
        end,
        TerminalToken::Semicolon,
    ) {
        end + 1
    } else {
        end
    })
    &&& global_function_at(x) ==> (r matches Ok((rest, v)) && v.ty is Global && rest.pos() == if terminal_at(
        x,
        x.pos() + 3,
        TerminalToken::Semicolon,
    ) {
        x.pos() + 4
    } else {
        x.pos() + 3
    })
}

/// `r` reads an expression statement that ends where the simple chain at `tokens` ends, with the
/// `;` after it if one follows.
pub open spec fn simple_statement_read<'s>(tokens: TokenList<'s>, r: ParseResult<'s, Statement<'s>>) -> bool {
    let end = chain_stop(tokens, tokens.pos() + 1, Precedence::Lowest);
    r matches Ok((rest, v)) && v.ty is Expression && if terminal_at(tokens, end, TerminalToken::Semicolon) {
        v.semicolon is Some && rest.pos() == end + 1
    } else {
        v.semicolon is None && rest.pos() == end
    }
}

/// `vals` are statements read one after another, statement `i` from `ps[i]` to `ps[i + 1]`.
pub open spec fn statements_read<'s>(ps: Seq<TokenList<'s>>, vals: Seq<Statement<'s>>) -> bool {
    &&& ps.len() == vals.len() + 1
    &&& forall|i: int|
        0 <= i < vals.len() ==> statement_read(ps[i], Ok::<_, ParseError>((ps[i + 1], #[trigger] vals[i])))
}

/// The tokens at the position of `tokens` start an expression statement made of literals and names
/// joined by property accesses and binary operators written as one token: no keyword starts it,
/// and a name at its start is not followed by another name, which would make it a variable.
pub open spec fn simple_statement<'s>(tokens: TokenList<'s>) -> bool {
    &&& simple_chain(tokens, Precedence::Lowest)
    &&& identifier_at(tokens) ==> !identifier_at(tokens.at(tokens.pos() + 1))
}

/// The token at the position of `tokens` can start a statement: it can start a value (a type
/// and `function` among them), it is a statement keyword, or it is the empty token.
pub open spec fn statement_start<'s>(tokens: TokenList<'s>) -> bool {
    ||| value_start(tokens)
    ||| keyword_at(tokens)
    ||| (tokens.pos() < tokens.items().len() && tokens.items()[tokens.pos()].token.ty == TokenType::<'s>::Empty)
}

/// The token at the position of `tokens` is a statement keyword.
pub open spec fn keyword_at<'s>(tokens: TokenList<'s>) -> bool {
    &&& tokens.pos() < tokens.items().len()
    &&& tokens.items()[tokens.pos()].token.ty matches TokenType::Terminal(t)
    &&& is_statement_keyword(t)
}

/// Where the statement at `tokens` ends, before any `;`, if its parts are simple: one of the
/// statements that [`compound_read`] lists; a `do` statement with a simple body and condition; a
/// `switch` with a single value as condition and no cases; an `enum` or a `class` with no entries
/// or members; a constant
/// without a type whose value is a simple chain; `throw`, `thread`, `waitthread` or `wait` with a
/// simple chain; a `foreach` over a single value and a `try` statement whose parts are simple
/// ([`simple_foreach_at`], [`try_tail_at`]); or a `typedef` of a plain name.
pub open spec fn compound_end<'s>(tokens: TokenList<'s>) -> Option<int> {
    let i = tokens.pos();
    let body_end = chain_stop(tokens, i + 5, Precedence::Lowest);
    if empty_block_at(tokens) {
        Some(i + 2)
    } else if terminal_at(tokens, i, TerminalToken::For) && empty_for_clauses_at(tokens.at(i + 1)) {
        Some(chain_stop(tokens, i + 6, Precedence::Lowest))
    } else if terminal_at(tokens, i, TerminalToken::While) && simple_condition_at(tokens.at(i + 1))
        && simple_statement(tokens.at(i + 4)) {
        Some(body_end)
    } else if terminal_at(tokens, i, TerminalToken::If) && simple_condition_at(tokens.at(i + 1)) && simple_statement(
        tokens.at(i + 4),
    ) && !else_after(tokens, body_end) {
        Some(body_end)
    } else if simple_var_declaration(tokens) {
        Some(simple_var_end(tokens))
    } else if terminal_at(tokens, i, TerminalToken::Do) && do_tail_at(tokens.at(i + 1)) {
        Some(do_while_at(tokens.at(i + 1)) + 4)
    } else if terminal_at(tokens, i, TerminalToken::Switch) && simple_condition_at(tokens.at(i + 1)) && empty_block_at(
        tokens.at(i + 4),
    ) {
        Some(i + 6)
    } else if terminal_at(tokens, i, TerminalToken::Enum) && identifier_at(tokens.at(i + 1)) && empty_block_at(
        tokens.at(i + 2),
    ) {
        Some(i + 4)
    } else if terminal_at(tokens, i, TerminalToken::Const) && simple_const_at(tokens.at(i + 1)) {
        Some(chain_stop(tokens, i + 4, Precedence::Comma))
    } else if keyword_value_at(tokens) {
        Some(chain_stop(tokens, i + 2, Precedence::Lowest))
    } else if terminal_at(tokens, i, TerminalToken::Class) && identifier_at(tokens.at(i + 1)) && empty_block_at(
        tokens.at(i + 2),
    ) {
        Some(i + 4)
    } else if terminal_at(tokens, i, TerminalToken::Foreach) && simple_foreach_at(tokens.at(i + 1)) {
        Some(chain_stop(tokens, i + 7, Precedence::Lowest))
    } else if terminal_at(tokens, i, TerminalToken::Try) && try_tail_at(tokens.at(i + 1)) {
        Some(chain_stop(tokens, do_while_at(tokens.at(i + 1)) + 5, Precedence::Lowest))
    } else if terminal_at(tokens, i, TerminalToken::Typedef) && identifier_at(tokens.at(i + 1)) && identifier_at(
        tokens.at(i + 2),
    ) && !modifier_start(tokens.at(i + 3)) {
        Some(i + 3)
    } else {
        None
    }
}

/// At the position of `tokens` stands `throw`, `thread`, `waitthread` or `wait`, followed by a
/// value that is a simple chain.
pub open spec fn keyword_value_at<'s>(tokens: TokenList<'s>) -> bool {
    let i = tokens.pos();
    &&& (terminal_at(tokens, i, TerminalToken::Throw) || terminal_at(tokens, i, TerminalToken::Thread) || terminal_at(
        tokens,
        i,
        TerminalToken::WaitThread,
    ) || terminal_at(tokens, i, TerminalToken::Wait))
    &&& simple_chain(tokens.at(i + 1), Precedence::Lowest)
}

/// What reading a statement type at `tokens` gives for the compound statements whose parts are
/// simple: an empty block, a `for` with empty clauses, a `while` and an `if` without `else` whose
/// condition is a single value, each with a simple expression statement as body, and a variable
/// statement with one simple variable.
pub open spec fn compound_read<'s>(tokens: TokenList<'s>, r: ParseResult<'s, StatementType<'s>>) -> bool {
    let i = tokens.pos();
    let body_end = chain_stop(tokens, i + 5, Precedence::Lowest);
    &&& empty_block_at(tokens) ==> (r matches Ok((rest, v)) && v is Block && rest.pos() == i + 2)
    &&& terminal_at(tokens, i, TerminalToken::For) && empty_for_clauses_at(tokens.at(i + 1)) ==> (r matches Ok(
        (rest, v),
    ) && v is For && rest.pos() == chain_stop(tokens, i + 6, Precedence::Lowest))
    &&& terminal_at(tokens, i, TerminalToken::While) && simple_condition_at(tokens.at(i + 1)) && simple_statement(
        tokens.at(i + 4),
    ) ==> (r matches Ok((rest, v)) && v is While && rest.pos() == body_end)
    &&& terminal_at(tokens, i, TerminalToken::If) && simple_condition_at(tokens.at(i + 1)) && simple_statement(
        tokens.at(i + 4),
    ) && !else_after(tokens, body_end) ==> (r matches Ok((rest, v)) && v is If && rest.pos() == body_end)
    &&& simple_var_declaration(tokens) ==> (r matches Ok((rest, v)) && v is VarDeclaration && rest.pos()
        == simple_var_end(tokens))
}

/// Parses a statement without its `;`, trying each kind of statement in turn.
///
/// A constructor is tried before a function so that it is not read as one, and functions and
/// variables before the kinds that cannot start with a type, so that their type is read. An
/// expression is tried last.
#[verifier::rlimit(60)]
pub fn statement_type<'s>(tokens: TokenList<'s>) -> (r: ParseResult<'s, StatementType<'s>>)
    requires
        tokens.wf(),
    ensures
        r matches Ok((rest, v)) ==> v.tokens() == tokens.tokens_to(rest),
        parsed(tokens, r, true),
        decided_by_keyword(tokens, r),
        r matches Err(e) ==> (e.is_fatal || e == error_at(ParseErrorType::ExpectedStatement, tokens.pos() as int)),
        simple_statement(tokens) ==> (r matches Ok((rest, v)) && v is Expression && rest.pos() == chain_stop(
            tokens,
            tokens.pos() + 1,
            Precedence::Lowest,
        )),
        !statement_start(tokens) ==> r == Err::<(TokenList<'s>, StatementType<'s>), ParseError>(
            error_at(ParseErrorType::ExpectedStatement, tokens.pos() as int),
        ),
        global_function_at(tokens) ==> (r matches Ok((rest, v)) && v is Global && rest.pos() == tokens.pos() + 3),
        compound_read(tokens, r),
        compound_end(tokens) matches Some(end) ==> (r matches Ok((rest, _)) && rest.pos() == end),
    decreases tokens.remaining(), 10nat,
{
    proof {
        if simple_var_declaration(tokens) {
            tokens.lemma_at(tokens.pos() + 1);
        }
    }
    if let Ok((t, v)) = empty_statement(tokens) {
        return Ok((t, StatementType::Empty(v)));
    }
    match constructor_declaration_statement(tokens) {
        Ok((t, v)) => return Ok((t, StatementType::ConstructorDefinition(v))),
        Err(e) => if e.is_fatal {
            return Err(e);
        },
    }
    match function_declaration_statement(tokens) {
        Ok((t, v)) => return Ok((t, StatementType::FunctionDefinition(v))),
        Err(e) => if e.is_fatal {
            return Err(e);
        },
    }
    match var_declaration_statement(tokens) {
        Ok((t, v)) => return Ok((t, StatementType::VarDeclaration(v))),
        Err(e) => if e.is_fatal {
            return Err(e);
        },
    }
    match block_statement(tokens) {
        Ok((t, v)) => return Ok((t, StatementType::Block(v))),
        Err(e) => if e.is_fatal {
            return Err(e);
        },
    }
    match if_statement(tokens) {
        Ok((t, v)) => return Ok((t, StatementType::If(v))),
        Err(e) => if e.is_fatal {
            return Err(e);
        },
    }
    match while_statement(tokens) {
        Ok((t, v)) => return Ok((t, StatementType::While(v))),
        Err(e) => if e.is_fatal {
            return Err(e);
        },
    }
    match do_while_statement(tokens) {
        Ok((t, v)) => return Ok((t, StatementType::DoWhile(v))),
        Err(e) => if e.is_fatal {
            return Err(e);
        },
    }
    match switch_statement(tokens) {
        Ok((t, v)) => return Ok((t, StatementType::Switch(v))),
        Err(e) => if e.is_fatal {
            return Err(e);
        },
    }
    match for_statement(tokens) {
        Ok((t, v)) => return Ok((t, StatementType::For(v))),
        Err(e) => if e.is_fatal {
            return Err(e);
        },
    }
    match foreach_statement(tokens) {
        Ok((t, v)) => return Ok((t, StatementType::Foreach(v))),
        Err(e) => if e.is_fatal {
            return Err(e);
        },
    }
    if let Ok((t, v)) = break_statement(tokens) {
        return Ok((t, StatementType::Break(v)));
    }
    if let Ok((t, v)) = continue_statement(tokens) {
        return Ok((t, StatementType::Continue(v)));
    }
    match return_statement(tokens) {
        Ok((t, v)) => return Ok((t, StatementType::Return(v))),
        Err(e) => if e.is_fatal {
            return Err(e);
        },
    }
    match yield_statement(tokens) {
        Ok((t, v)) => return Ok((t, StatementType::Yield(v))),
        Err(e) => if e.is_fatal {
            return Err(e);
        },
    }
    match class_declaration_statement(tokens) {
        Ok((t, v)) => return Ok((t, StatementType::ClassDefinition(v))),
        Err(e) => if e.is_fatal {
            return Err(e);
        },
    }
    match try_catch_statement(tokens) {
        Ok((t, v)) => return Ok((t, StatementType::TryCatch(v))),
        Err(e) => if e.is_fatal {
            return Err(e);
        },
    }
    match throw_statement(tokens) {
        Ok((t, v)) => return Ok((t, StatementType::Throw(v))),
        Err(e) => if e.is_fatal {
            return Err(e);
        },
    }
    match const_statement(tokens) {
        Ok((t, v)) => return Ok((t, StatementType::Const(v))),
        Err(e) => if e.is_fatal {
            return Err(e);
        },
    }
    match enum_statement(tokens) {
        Ok((t, v)) => return Ok((t, StatementType::EnumDefinition(v))),
        Err(e) => if e.is_fatal {
            return Err(e);
        },
    }
    match thread_statement(tokens) {
        Ok((t, v)) => return Ok((t, StatementType::Thread(v))),
        Err(e) => if e.is_fatal {
            return Err(e);
        },
    }
    match delay_thread_statement(tokens) {
        Ok((t, v)) => return Ok((t, StatementType::DelayThread(v))),
        Err(e) => if e.is_fatal {
            return Err(e);
        },
    }
    match wait_thread_statement(tokens) {
        Ok((t, v)) => return Ok((t, StatementType::WaitThread(v))),
        Err(e) => if e.is_fatal {
            return Err(e);
        },
    }
    match wait_statement(tokens) {
        Ok((t, v)) => return Ok((t, StatementType::Wait(v))),
        Err(e) => if e.is_fatal {
            return Err(e);
        },
    }
    match struct_declaration_statement(tokens) {
        Ok((t, v)) => return Ok((t, StatementType::StructDeclaration(v))),
        Err(e) => if e.is_fatal {
            return Err(e);
        },
    }
    match typedef_statement(tokens) {
        Ok((t, v)) => return Ok((t, StatementType::TypeDefinition(v))),
        Err(e) => if e.is_fatal {
            return Err(e);
        },
    }
    match global_statement(tokens) {
        Ok((t, v)) => return Ok((t, StatementType::Global(v))),
        Err(e) => if e.is_fatal {
            return Err(e);
        },
    }
    if let Ok((t, v)) = globalize_all_functions_statement(tokens) {
        return Ok((t, StatementType::GlobalizeAllFunctions(v)));
    }
    if let Ok((t, v)) = untyped_statement(tokens) {
        return Ok((t, StatementType::Untyped(v)));
    }
    match expression_statement(tokens) {
        Ok((t, v)) => return Ok((t, StatementType::Expression(v))),
        Err(e) => if e.is_fatal {
            return Err(e);
        },
    }
    Err(tokens.error(ParseErrorType::ExpectedStatement))
}

/// Parses the empty token that holds the comments at the end of the input.
pub fn empty_statement<'s>(tokens: TokenList<'s>) -> (r: ParseResult<'s, EmptyStatement<'s>>)
    requires
        tokens.wf(),
    ensures
        r matches Ok((rest, v)) ==> v.tokens() == tokens.tokens_to(rest),
        match r {
            Ok((rest, v)) => {
                &&& tokens.pos() < tokens.items().len()
                &&& tokens.items()[tokens.pos()].token.ty == TokenType::<'s>::Empty
                &&& v.empty matches Some(token) && *token == tokens.items()[tokens.pos()].token
                &&& moved_one(tokens, rest)
            },
            Err(e) => {
                &&& !(tokens.pos() < tokens.items().len() && tokens.items()[tokens.pos()].token.ty == TokenType::<'s>::Empty)
                &&& e == error_at(ParseErrorType::Internal(InternalErrorType::Empty), tokens.pos())
            },
        },
{
    if let Some((t, item)) = tokens.split_first() {
        if item.token.ty.is_empty() {
            return Ok((t, EmptyStatement { empty: Some(&item.token) }));
        }
    }
    Err(tokens.error(ParseErrorType::Internal(InternalErrorType::Empty)))
}

/// At the position of `tokens` stand `{` and the `}` that closes it, with the spans from there on
/// well formed: an empty block.
pub open spec fn empty_block_at<'s>(tokens: TokenList<'s>) -> bool {
    let i = tokens.pos();
    &&& tokens.spans_ok()
    &&& terminal_at(tokens, i, TerminalToken::OpenBrace)
    &&& tokens.items()[i].close_index == Some((i + 1) as usize)
    &&& terminal_at(tokens, i + 1, TerminalToken::CloseBrace)
}

/// Parses a block: statements in braces.
pub fn block_statement<'s>(tokens: TokenList<'s>) -> (r: ParseResult<'s, BlockStatement<'s>>)
    requires
        tokens.wf(),
    ensures
        r matches Ok((rest, v)) ==> v.tokens() == tokens.tokens_to(rest),
        commits_at(tokens, r, TerminalToken::OpenBrace),
        parsed(tokens, r, true),
        r is Ok ==> terminal_at(tokens, tokens.pos(), TerminalToken::OpenBrace),
        !terminal_at(tokens, tokens.pos(), TerminalToken::OpenBrace) ==> (r matches Err(e) && !e.is_fatal && e.ty
            == ParseErrorType::ExpectedTerminal(TerminalToken::OpenBrace) && e.token_index == tokens.pos()),
        empty_block_at(tokens) ==> (r matches Ok((rest, v)) && rest.pos() == tokens.pos() + 2 && v.statements@.len()
            == 0),
    decreases tokens.remaining(), 0nat,
{
    let (inner, outer, open, close, start, end) = span_open(
        tokens,
        ContextType::BlockStatement,
        TerminalToken::OpenBrace,
        TerminalToken::CloseBrace,
        true,
    )?;
    let parse_statement = |x: TokenList<'s>| -> (r: ParseResult<'s, Statement<'s>>)
        requires
            inner.reaches(x),
        ensures
            r matches Ok((rest, v)) ==> v.tokens() == x.tokens_to(rest),
            parsed(x, r, true),
            statement_read(x, r),
        {
            statement(x)
        };
    let ghost f = |v: Statement<'s>| v.tokens();
    let listed = many(inner, parse_statement, Ghost(f));
    proof {
        if empty_block_at(tokens) {
            assert(inner.pos() == inner.items().len());
            match &listed {
                Ok((rest, v)) => {
                    let ps = choose|ps: Seq<TokenList<'s>>|
                        #[trigger] successive(parse_statement, ps, v@) && ps[0] == inner && ps.last() == *rest;
                    if v@.len() > 0 {
                        assert(parse_statement.ensures((ps[0],), Ok::<_, ParseError>((ps[1], v@[0]))));
                        assert(false);
                    }
                },
                Err(e) => {
                    let t = choose|t: TokenList<'s>|
                        inner.reaches(t) && #[trigger] parse_statement.ensures(
                            (t,),
                            Err::<(TokenList<'s>, Statement<'s>), ParseError>(*e),
                        );
                    assert(t.pos() == t.items().len());
                    assert(false);
                },
            }
        }
    }
    let (rest, statements) = in_span(listed, start, end, ContextType::BlockStatement, true)?;
    span_end(rest, TerminalToken::CloseBrace, start, end, ContextType::BlockStatement)?;
    proof {
        lemma_statement_seq_tokens(statements@, f);
    }
    Ok((outer, BlockStatement { open, statements, close }))
}

/// At the position of `tokens` stand `(`, a literal or a name, and the `)` that closes the `(`,
/// with the spans from there on well formed: a condition in parentheses that is a single value.
pub open spec fn simple_condition_at<'s>(tokens: TokenList<'s>) -> bool {
    let i = tokens.pos();
    &&& tokens.spans_ok()
    &&& terminal_at(tokens, i, TerminalToken::OpenBracket)
    &&& tokens.items()[i].close_index == Some((i + 2) as usize)
    &&& terminal_at(tokens, i + 2, TerminalToken::CloseBracket)
    &&& (tokens.items()[i + 1].token.ty is Literal || tokens.items()[i + 1].token.ty is Identifier)
}

/// Parses an expression in parentheses, the condition of a control statement.
fn condition<'s>(tokens: TokenList<'s>, context: ContextType) -> (r: ParseResult<
    's,
    (&'s Token<'s>, Box<crate::ast::Expression<'s>>, &'s Token<'s>),
>)
    requires
        tokens.wf(),
    ensures
        r matches Ok((rest, (open, value, close))) ==> seq![*open] + value.tokens() + seq![*close]
            == tokens.tokens_to(rest),
        parsed(tokens, r, true),
        simple_condition_at(tokens) ==> (r matches Ok((rest, _)) && rest.pos() == tokens.pos() + 3),
    decreases tokens.remaining(), 0nat,
{
    let (inner, outer, open, close, start, end) = span_open(
        tokens,
        context,
        TerminalToken::OpenBracket,
        TerminalToken::CloseBracket,
        true,
    )?;
    proof {
        if simple_condition_at(tokens) {
            inner.lemma_at(inner.pos() + 1);
            lemma_no_operator_at_end(inner.at(inner.pos() + 1), Precedence::Lowest);
        }
    }
    let (rest, value) = in_span(expression(inner, Precedence::Lowest), start, end, context, true)?;
    span_end(rest, TerminalToken::CloseBracket, start, end, context)?;
    Ok((outer, (open, value, close)))
}

/// Parses an `if` statement: `if`, a condition in parentheses and an [`IfStatementType`](crate::ast::IfStatementType).
pub fn if_statement<'s>(tokens: TokenList<'s>) -> (r: ParseResult<'s, IfStatement<'s>>)
    requires
        tokens.wf(),
    ensures
        r matches Ok((rest, v)) ==> v.tokens() == tokens.tokens_to(rest),
        commits_at(tokens, r, TerminalToken::If),
        parsed(tokens, r, true),
        r is Ok ==> terminal_at(tokens, tokens.pos(), TerminalToken::If),
        !terminal_at(tokens, tokens.pos(), TerminalToken::If) ==> (r matches Err(e) && !e.is_fatal && e.ty
            == ParseErrorType::ExpectedTerminal(TerminalToken::If) && e.token_index == tokens.pos()),
        terminal_at(tokens, tokens.pos(), TerminalToken::If) && simple_condition_at(tokens.at(tokens.pos() + 1))
            && simple_statement(tokens.at(tokens.pos() + 4)) && !else_after(
            tokens,
            chain_stop(tokens, tokens.pos() + 5, Precedence::Lowest),
        ) ==> (r matches Ok((rest, _)) && rest.pos() == chain_stop(tokens, tokens.pos() + 5, Precedence::Lowest)),
    decreases tokens.remaining(), 0nat,
{
    proof {
        if terminal_at(tokens, tokens.pos(), TerminalToken::If) {
            tokens.lemma_at(tokens.pos() + 1);
        }
    }
    let (t, keyword) = terminal(tokens, TerminalToken::If)?;
    proof {
        if simple_condition_at(tokens.at(tokens.pos() + 1)) {
            tokens.lemma_at(tokens.pos() + 4);
            t.lemma_at(t.pos() + 3);
            lemma_simple_statement_same(t.at(t.pos() + 3), tokens.at(tokens.pos() + 4));
            lemma_chain_same(t, tokens, tokens.pos() + 5, Precedence::Lowest);
        }
    }
    definitely_after(tokens, ContextType::IfStatement, if_statement_rest(t, keyword))
}

/// The condition and body of an `if` statement, after `if`.
fn if_statement_rest<'s>(tokens: TokenList<'s>, keyword: &'s Token<'s>) -> (r: ParseResult<'s, IfStatement<'s>>)
    requires
        tokens.wf(),
    ensures
        r matches Ok((rest, v)) ==> v.tokens() == seq![*keyword] + tokens.tokens_to(rest),
        parsed(tokens, r, false),
        simple_condition_at(tokens) && simple_statement(tokens.at(tokens.pos() + 3)) && !else_after(
            tokens,
            chain_stop(tokens, tokens.pos() + 4, Precedence::Lowest),
        ) ==> (r matches Ok((rest, _)) && rest.pos() == chain_stop(tokens, tokens.pos() + 4, Precedence::Lowest)),
    decreases tokens.remaining(), 1nat,
{
    let (t, (open, condition, close)) = condition(tokens, ContextType::IfStatementCondition)?;
    proof {
        if simple_condition_at(tokens) {
            tokens.lemma_at(tokens.pos() + 3);
            lemma_simple_statement_same(t, tokens.at(tokens.pos() + 3));
            lemma_chain_same(t, tokens, tokens.pos() + 4, Precedence::Lowest);
        }
    }
    let (t, ty) = if_statement_type(t)?;
    Ok((t, IfStatement { if_: keyword, open, condition, close, ty }))
}

/// Parses a `while` statement: `while`, a condition in parentheses and a body.
pub fn while_statement<'s>(tokens: TokenList<'s>) -> (r: ParseResult<'s, WhileStatement<'s>>)
    requires
        tokens.wf(),
    ensures
        r matches Ok((rest, v)) ==> v.tokens() == tokens.tokens_to(rest),
        commits_at(tokens, r, TerminalToken::While),
        parsed(tokens, r, true),
        r is Ok ==> terminal_at(tokens, tokens.pos(), TerminalToken::While),
        !terminal_at(tokens, tokens.pos(), TerminalToken::While) ==> (r matches Err(e) && !e.is_fatal && e.ty
            == ParseErrorType::ExpectedTerminal(TerminalToken::While) && e.token_index == tokens.pos()),
        terminal_at(tokens, tokens.pos(), TerminalToken::While) && simple_condition_at(tokens.at(tokens.pos() + 1))
            && simple_statement(tokens.at(tokens.pos() + 4)) ==> (r matches Ok((rest, _)) && rest.pos() == chain_stop(
            tokens,
            tokens.pos() + 5,
            Precedence::Lowest,
        )),
    decreases tokens.remaining(), 0nat,
{
    proof {
        if terminal_at(tokens, tokens.pos(), TerminalToken::While) {
            tokens.lemma_at(tokens.pos() + 1);
        }
    }
    let (t, keyword) = terminal(tokens, TerminalToken::While)?;
    proof {
        if simple_condition_at(tokens.at(tokens.pos() + 1)) {
            tokens.lemma_at(tokens.pos() + 4);
            t.lemma_at(t.pos() + 3);
            lemma_simple_statement_same(t.at(t.pos() + 3), tokens.at(tokens.pos() + 4));
            lemma_chain_same(t, tokens, tokens.pos() + 5, Precedence::Lowest);
        }
    }
    definitely_after(tokens, ContextType::WhileStatement, while_statement_rest(t, keyword))
}

/// The condition and body of a `while` statement, after `while`.
fn while_statement_rest<'s>(tokens: TokenList<'s>, keyword: &'s Token<'s>) -> (r: ParseResult<'s, WhileStatement<'s>>)
    requires
        tokens.wf(),
    ensures
        r matches Ok((rest, v)) ==> v.tokens() == seq![*keyword] + tokens.tokens_to(rest),
        parsed(tokens, r, false),
        simple_condition_at(tokens) && simple_statement(tokens.at(tokens.pos() + 3)) ==> (r matches Ok((rest, _))
            && rest.pos() == chain_stop(tokens, tokens.pos() + 4, Precedence::Lowest)),
    decreases tokens.remaining(), 1nat,
{
    let (t, (open, condition, close)) = condition(tokens, ContextType::WhileStatementCondition)?;
    proof {
        if simple_condition_at(tokens) {
            tokens.lemma_at(tokens.pos() + 3);
            lemma_simple_statement_same(t, tokens.at(tokens.pos() + 3));
            lemma_chain_same(t, tokens, tokens.pos() + 4, Precedence::Lowest);
        }
    }
    let (t, body) = statement_type(t)?;
    Ok((t, WhileStatement { while_: keyword, open, condition, close, body: Box::new(body) }))
}

/// Parses a `do`-`while` statement: `do`, a body, `while` and a condition in parentheses.
pub fn do_while_statement<'s>(tokens: TokenList<'s>) -> (r: ParseResult<'s, DoWhileStatement<'s>>)
    requires
        tokens.wf(),
    ensures
        r matches Ok((rest, v)) ==> v.tokens() == tokens.tokens_to(rest),
        commits_at(tokens, r, TerminalToken::Do),
        parsed(tokens, r, true),
        r is Ok ==> terminal_at(tokens, tokens.pos(), TerminalToken::Do),
        !terminal_at(tokens, tokens.pos(), TerminalToken::Do) ==> (r matches Err(e) && !e.is_fatal && e.ty
            == ParseErrorType::ExpectedTerminal(TerminalToken::Do) && e.token_index == tokens.pos()),
        terminal_at(tokens, tokens.pos(), TerminalToken::Do) && do_tail_at(tokens.at(tokens.pos() + 1)) ==> (r matches Ok(
            (rest, _),
        ) && rest.pos() == do_while_at(tokens.at(tokens.pos() + 1)) + 4),
    decreases tokens.remaining(), 0nat,
{
    proof {
        if terminal_at(tokens, tokens.pos(), TerminalToken::Do) {
            tokens.lemma_at(tokens.pos() + 1);
        }
    }
    let (t, keyword) = terminal(tokens, TerminalToken::Do)?;
    proof {
        lemma_do_tail_same(t, tokens.at(tokens.pos() + 1));
    }
    definitely_after(tokens, ContextType::DoWhileStatement, do_while_statement_rest(t, keyword))
}

/// Where the `while` of a `do` statement whose body is the simple expression statement at
/// `tokens` stands: after the body and the `;` that may follow it.
pub open spec fn do_while_at<'s>(tokens: TokenList<'s>) -> int {
    let e = chain_stop(tokens, tokens.pos() + 1, Precedence::Lowest);
    if terminal_at(tokens, e, TerminalToken::Semicolon) {
        e + 1
    } else {
        e
    }
}

/// At the position of `tokens` stand a simple expression statement, `while` and a condition in
/// parentheses that is a single value: the body and condition of a `do` statement.
pub open spec fn do_tail_at<'s>(tokens: TokenList<'s>) -> bool {
    &&& simple_statement(tokens)
    &&& terminal_at(tokens, do_while_at(tokens), TerminalToken::While)
    &&& simple_condition_at(tokens.at(do_while_at(tokens) + 1))
}

/// Whether the body and condition of a `do` statement are simple, and where they end, depends
/// only on the tokens, the flavor and the position.
proof fn lemma_do_tail_same<'s>(t1: TokenList<'s>, t2: TokenList<'s>)
    requires
        t1.items() == t2.items(),
        t1.pos() == t2.pos(),
        t1.spec_flavor() == t2.spec_flavor(),
        t1.items().len() < usize::MAX,
        0 <= t1.pos() <= t1.items().len(),
    ensures
        do_tail_at(t1) == do_tail_at(t2),
        do_while_at(t1) == do_while_at(t2),
{
    lemma_simple_statement_same(t1, t2);
    let w = do_while_at(t1);
    if 0 <= w + 1 <= t1.items().len() {
        t1.lemma_at(w + 1);
        t2.lemma_at(w + 1);
    }
}

/// The body and condition of a `do`-`while` statement, after `do`.
#[verifier::rlimit(80)]
fn do_while_statement_rest<'s>(tokens: TokenList<'s>, keyword: &'s Token<'s>) -> (r: ParseResult<'s, DoWhileStatement<'s>>)
    requires
        tokens.wf(),
    ensures
        r matches Ok((rest, v)) ==> v.tokens() == seq![*keyword] + tokens.tokens_to(rest),
        parsed(tokens, r, false),
        do_tail_at(tokens) ==> (r matches Ok((rest, _)) && rest.pos() == do_while_at(tokens) + 4),
    decreases tokens.remaining(), 12nat,
{
    let (t, body) = statement(tokens)?;
    proof {
        if do_tail_at(tokens) {
            tokens.lemma_at(do_while_at(tokens) + 1);
        }
    }
    let (t, while_) = terminal(t, TerminalToken::While)?;
    let (t, (open, condition, close)) = condition(t, ContextType::DoWhileStatementCondition)?;
    Ok((t, DoWhileStatement { do_: keyword, body: Box::new(body), while_, open, condition, close }))
}

/// Parses a `switch` statement: `switch`, a condition in parentheses and cases in braces.
pub fn switch_statement<'s>(tokens: TokenList<'s>) -> (r: ParseResult<'s, SwitchStatement<'s>>)
    requires
        tokens.wf(),
    ensures
        r matches Ok((rest, v)) ==> v.tokens() == tokens.tokens_to(rest),
        commits_at(tokens, r, TerminalToken::Switch),
        parsed(tokens, r, true),
        r is Ok ==> terminal_at(tokens, tokens.pos(), TerminalToken::Switch),
        !terminal_at(tokens, tokens.pos(), TerminalToken::Switch) ==> (r matches Err(e) && !e.is_fatal && e.ty
            == ParseErrorType::ExpectedTerminal(TerminalToken::Switch) && e.token_index == tokens.pos()),
        terminal_at(tokens, tokens.pos(), TerminalToken::Switch) && simple_condition_at(tokens.at(tokens.pos() + 1)) && empty_block_at(tokens.at(tokens.pos() + 4)) ==> (r matches Ok((rest, _))
            && rest.pos() == tokens.pos() + 6),
    decreases tokens.remaining(), 0nat,
{
    proof {
        if terminal_at(tokens, tokens.pos(), TerminalToken::Switch) {
            tokens.lemma_at(tokens.pos() + 1);
            if tokens.pos() + 4 <= tokens.items().len() {
                tokens.lemma_at(tokens.pos() + 4);
            }
        }
    }
    let (t, keyword) = terminal(tokens, TerminalToken::Switch)?;
    proof {
        if t.pos() + 3 <= t.items().len() {
            t.lemma_at(t.pos());
            t.lemma_at(t.pos() + 3);
        }
    }
    definitely_after(tokens, ContextType::SwitchStatement, switch_statement_rest(t, keyword))
}

/// The condition and cases of a `switch` statement, after `switch`.
#[verifier::rlimit(60)]
fn switch_statement_rest<'s>(tokens: TokenList<'s>, keyword: &'s Token<'s>) -> (r: ParseResult<'s, SwitchStatement<'s>>)
    requires
        tokens.wf(),
    ensures
        r matches Ok((rest, v)) ==> v.tokens() == seq![*keyword] + tokens.tokens_to(rest),
        parsed(tokens, r, false),
        simple_condition_at(tokens) && empty_block_at(tokens.at(tokens.pos() + 3)) ==> (r matches Ok((rest, _))
            && rest.pos() == tokens.pos() + 5),
    decreases tokens.remaining(), 1nat,
{
    let (t, (open_condition, condition, close_condition)) = condition(tokens, ContextType::SwitchStatementCondition)?;
    proof {
        if simple_condition_at(tokens) {
            tokens.lemma_at(tokens.pos() + 3);
        }
    }
    let (inner, outer, open_cases, close_cases, start, end) = span_open(
        t,
        ContextType::SwitchStatement,
        TerminalToken::OpenBrace,
        TerminalToken::CloseBrace,
        true,
    )?;
    let parse_case = |x: TokenList<'s>| -> (r: ParseResult<'s, SwitchCase<'s>>)
        requires
            inner.reaches(x),
        ensures
            r matches Ok((rest, v)) ==> v.tokens() == x.tokens_to(rest),
            parsed(x, r, true),
            !terminal_at(x, x.pos(), TerminalToken::Default) && !terminal_at(x, x.pos(), TerminalToken::Case) ==> (
            r matches Err(e) && !e.is_fatal),
        {
            switch_case(x)
        };
    let ghost f = |v: SwitchCase<'s>| v.tokens();
    proof {
        if inner.pos() == inner.items().len() {
            assert forall|res: ParseResult<'s, SwitchCase<'s>>| #[trigger] parse_case.ensures((inner,), res) implies (
            res matches Err(e) && !e.is_fatal) by {}
        }
    }
    let (rest, cases) = in_span(
        many(inner, parse_case, Ghost(f)),
        start,
        end,
        ContextType::SwitchStatement,
        true,
    )?;
    span_end(rest, TerminalToken::CloseBrace, start, end, ContextType::SwitchStatement)?;
    proof {
        lemma_switch_case_seq_tokens(cases@, f);
    }
    Ok(
        (
            outer,
            SwitchStatement { switch: keyword, open_condition, condition, close_condition, open_cases, cases, close_cases },
        ),
    )
}

/// Parses a `for` statement: `for`, its clauses in parentheses and a body.
pub fn for_statement<'s>(tokens: TokenList<'s>) -> (r: ParseResult<'s, ForStatement<'s>>)
    requires
        tokens.wf(),
    ensures
        r matches Ok((rest, v)) ==> v.tokens() == tokens.tokens_to(rest),
        commits_at(tokens, r, TerminalToken::For),
        parsed(tokens, r, true),
        r is Ok ==> terminal_at(tokens, tokens.pos(), TerminalToken::For),
        !terminal_at(tokens, tokens.pos(), TerminalToken::For) ==> (r matches Err(e) && !e.is_fatal && e.ty
            == ParseErrorType::ExpectedTerminal(TerminalToken::For) && e.token_index == tokens.pos()),
        terminal_at(tokens, tokens.pos(), TerminalToken::For) && !terminal_at(
            tokens,
            tokens.pos() + 1,
            TerminalToken::OpenBracket,
        ) ==> (r matches Err(e) && e.is_fatal && e.ty == ParseErrorType::ExpectedTerminal(TerminalToken::OpenBracket)
            && e.token_index == tokens.pos() + 1),
        terminal_at(tokens, tokens.pos(), TerminalToken::For) && empty_for_clauses_at(tokens.at(tokens.pos() + 1)) ==> (
        r matches Ok((rest, _)) && rest.pos() == chain_stop(tokens, tokens.pos() + 6, Precedence::Lowest)),
    decreases tokens.remaining(), 0nat,
{
    proof {
        if terminal_at(tokens, tokens.pos(), TerminalToken::For) {
            tokens.lemma_at(tokens.pos() + 1);
        }
    }
    let (t, keyword) = terminal(tokens, TerminalToken::For)?;
    proof {
        if terminal_at(tokens, tokens.pos(), TerminalToken::For) && empty_for_clauses_at(tokens.at(tokens.pos() + 1)) {
            lemma_empty_for_same(t, tokens.at(tokens.pos() + 1));
            lemma_chain_same(t, tokens, tokens.pos() + 6, Precedence::Lowest);
        }
    }
    definitely_after(tokens, ContextType::ForStatement, for_statement_rest(t, keyword))
}

/// The clauses and body of a `for` statement, after `for`.
#[verifier::rlimit(80)]
fn for_statement_rest<'s>(tokens: TokenList<'s>, keyword: &'s Token<'s>) -> (r: ParseResult<'s, ForStatement<'s>>)
    requires
        tokens.wf(),
    ensures
        r matches Ok((rest, v)) ==> v.tokens() == seq![*keyword] + tokens.tokens_to(rest),
        parsed(tokens, r, false),
        !terminal_at(tokens, tokens.pos(), TerminalToken::OpenBracket) ==> r == Err::<
            (TokenList<'s>, ForStatement<'s>),
            ParseError,
        >(error_at(ParseErrorType::ExpectedTerminal(TerminalToken::OpenBracket), tokens.pos() as int)),
        empty_for_clauses_at(tokens) ==> (r matches Ok((rest, _)) && rest.pos() == chain_stop(
            tokens,
            tokens.pos() + 5,
            Precedence::Lowest,
        )),
    decreases tokens.remaining(), 0nat,
{
    proof {
        if empty_for_clauses_at(tokens) {
            tokens.lemma_at(tokens.pos() + 4);
        }
    }
    let (inner, outer, open, close, start, end) = span_open(
        tokens,
        ContextType::ForStatementCondition,
        TerminalToken::OpenBracket,
        TerminalToken::CloseBracket,
        true,
    )?;
    let (rest, (initializer, semicolon_1, condition, semicolon_2, increment)) = in_span(
        for_clauses(inner),
        start,
        end,
        ContextType::ForStatementCondition,
        true,
    )?;
    span_end(rest, TerminalToken::CloseBracket, start, end, ContextType::ForStatementCondition)?;
    proof {
        if empty_for_clauses_at(tokens) {
            lemma_simple_statement_same(outer, tokens.at(tokens.pos() + 4));
            lemma_chain_same(outer, tokens, tokens.pos() + 5, Precedence::Lowest);
        }
    }
    let (t, body) = statement_type(outer)?;
    Ok(
        (
            t,
            ForStatement {
                for_: keyword,
                open,
                initializer,
                semicolon_1,
                condition,
                semicolon_2,
                increment,
                close,
                body: Box::new(body),
            },
        ),
    )
}

/// The clauses of a `for` statement: an optional initializer, `;`, an optional condition, `;` and
/// an optional increment.
fn for_clauses<'s>(tokens: TokenList<'s>) -> (r: ParseResult<
    's,
    (
        Option<crate::ast::ForDefinition<'s>>,
        &'s Token<'s>,
        Option<Box<crate::ast::Expression<'s>>>,
        &'s Token<'s>,
        Option<Box<crate::ast::Expression<'s>>>,
    ),
>)
    requires
        tokens.wf(),
    ensures
        r matches Ok((rest, (initializer, semicolon_1, condition, semicolon_2, increment))) ==> (match initializer {
            Some(x) => x.tokens(),
            None => Seq::empty(),
        }) + seq![*semicolon_1] + (match condition {
            Some(x) => x.tokens(),
            None => Seq::empty(),
        }) + seq![*semicolon_2] + (match increment {
            Some(x) => x.tokens(),
            None => Seq::empty(),
        }) == tokens.tokens_to(rest),
        parsed(tokens, r, false),
        terminal_at(tokens, tokens.pos(), TerminalToken::Semicolon) && terminal_at(
            tokens,
            tokens.pos() + 1,
            TerminalToken::Semicolon,
        ) && tokens.pos() + 2 == tokens.items().len() ==> (r matches Ok((rest, _)) && rest.pos()
            == tokens.items().len()),
    decreases tokens.remaining(), 11nat,
{
    let (t, initializer) = opt(tokens, for_definition(tokens))?;
    let (t, semicolon_1) = terminal(t, TerminalToken::Semicolon)?;
    let (t, condition) = opt(t, expression(t, Precedence::Lowest))?;
    let (t, semicolon_2) = terminal(t, TerminalToken::Semicolon)?;
    let (t, increment) = opt(t, expression(t, Precedence::Lowest))?;
    Ok((t, (initializer, semicolon_1, condition, semicolon_2, increment)))
}

/// At the position of `tokens` stand `(`, `;`, `;` and `)`, the `(` closed by that `)` and the
/// spans after it well formed, then a simple expression statement: the clauses and body of a
/// `for` statement with no initializer, condition or increment.
pub open spec fn empty_for_clauses_at<'s>(tokens: TokenList<'s>) -> bool {
    let i = tokens.pos();
    &&& tokens.spans_ok()
    &&& terminal_at(tokens, i, TerminalToken::OpenBracket)
    &&& tokens.items()[i].close_index == Some((i + 3) as usize)
    &&& terminal_at(tokens, i + 1, TerminalToken::Semicolon)
    &&& terminal_at(tokens, i + 2, TerminalToken::Semicolon)
    &&& terminal_at(tokens, i + 3, TerminalToken::CloseBracket)
    &&& simple_statement(tokens.at(i + 4))
}

/// Whether a simple expression statement starts depends only on the tokens, the flavor and the
/// position.
pub proof fn lemma_simple_statement_same<'s>(t1: TokenList<'s>, t2: TokenList<'s>)
    requires
        t1.items() == t2.items(),
        t1.pos() == t2.pos(),
        t1.spec_flavor() == t2.spec_flavor(),
        t1.items().len() < usize::MAX,
        0 <= t1.pos() <= t1.items().len(),
    ensures
        simple_statement(t1) == simple_statement(t2),
        chain_stop(t1, t1.pos() + 1, Precedence::Lowest) == chain_stop(t2, t2.pos() + 1, Precedence::Lowest),
{
    lemma_chain_same(t1, t2, t1.pos() + 1, Precedence::Lowest);
    if t1.pos() < t1.items().len() {
        lemma_simple_chain_same(t1, t2, Precedence::Lowest);
        t1.lemma_at(t1.pos() + 1);
        t2.lemma_at(t2.pos() + 1);
    }
}

/// Whether the clauses of a `for` statement are empty, and its body simple, depends only on the
/// tokens, the flavor and the position.
proof fn lemma_empty_for_same<'s>(t1: TokenList<'s>, t2: TokenList<'s>)
    requires
        t1.items() == t2.items(),
        t1.pos() == t2.pos(),
        t1.spec_flavor() == t2.spec_flavor(),
        t1.items().len() < usize::MAX,
        0 <= t1.pos() <= t1.items().len(),
    ensures
        empty_for_clauses_at(t1) == empty_for_clauses_at(t2),
{
    if t1.pos() + 4 <= t1.items().len() {
        t1.lemma_at(t1.pos() + 4);
        t2.lemma_at(t2.pos() + 4);
        lemma_simple_statement_same(t1.at(t1.pos() + 4), t2.at(t2.pos() + 4));
    }
}

/// At the position of `tokens` stand `(`, a name, `in`, a literal or a name, and the `)` that
/// closes the `(`, with the spans from there on well formed, then a simple expression statement:
/// the clauses and body of a `foreach` statement over a single value.
pub open spec fn simple_foreach_at<'s>(tokens: TokenList<'s>) -> bool {
    let i = tokens.pos();
    &&& tokens.spans_ok()
    &&& terminal_at(tokens, i, TerminalToken::OpenBracket)
    &&& tokens.items()[i].close_index == Some((i + 4) as usize)
    &&& tokens.items()[i + 1].token.ty is Identifier
    &&& terminal_at(tokens, i + 2, TerminalToken::In)
    &&& (tokens.items()[i + 3].token.ty is Literal || tokens.items()[i + 3].token.ty is Identifier)
    &&& terminal_at(tokens, i + 4, TerminalToken::CloseBracket)
    &&& simple_statement(tokens.at(i + 5))
}

/// Whether a simple `foreach` follows depends only on the tokens, the flavor and the position.
proof fn lemma_simple_foreach_same<'s>(t1: TokenList<'s>, t2: TokenList<'s>)
    requires
        t1.items() == t2.items(),
        t1.pos() == t2.pos(),
        t1.spec_flavor() == t2.spec_flavor(),
        t1.items().len() < usize::MAX,
        0 <= t1.pos() <= t1.items().len(),
    ensures
        simple_foreach_at(t1) == simple_foreach_at(t2),
{
    if t1.pos() + 5 <= t1.items().len() {
        t1.lemma_at(t1.pos() + 5);
        t2.lemma_at(t2.pos() + 5);
        lemma_simple_statement_same(t1.at(t1.pos() + 5), t2.at(t2.pos() + 5));
    }
}

/// Parses a `foreach` statement: `foreach`, its clauses in parentheses and a body.
pub fn foreach_statement<'s>(tokens: TokenList<'s>) -> (r: ParseResult<'s, ForeachStatement<'s>>)
    requires
        tokens.wf(),
    ensures
        r matches Ok((rest, v)) ==> v.tokens() == tokens.tokens_to(rest),
        commits_at(tokens, r, TerminalToken::Foreach),
        parsed(tokens, r, true),
        r is Ok ==> terminal_at(tokens, tokens.pos(), TerminalToken::Foreach),
        !terminal_at(tokens, tokens.pos(), TerminalToken::Foreach) ==> (r matches Err(e) && !e.is_fatal && e.ty
            == ParseErrorType::ExpectedTerminal(TerminalToken::Foreach) && e.token_index == tokens.pos()),
        terminal_at(tokens, tokens.pos(), TerminalToken::Foreach) && simple_foreach_at(tokens.at(tokens.pos() + 1)) ==> (
        r matches Ok((rest, _)) && rest.pos() == chain_stop(tokens, tokens.pos() + 7, Precedence::Lowest)),
    decreases tokens.remaining(), 0nat,
{
    proof {
        if terminal_at(tokens, tokens.pos(), TerminalToken::Foreach) {
            tokens.lemma_at(tokens.pos() + 1);
        }
    }
    let (t, keyword) = terminal(tokens, TerminalToken::Foreach)?;
    proof {
        if simple_foreach_at(tokens.at(tokens.pos() + 1)) {
            lemma_simple_foreach_same(t, tokens.at(tokens.pos() + 1));
            lemma_chain_same(t, tokens, tokens.pos() + 7, Precedence::Lowest);
        }
    }
    definitely_after(tokens, ContextType::ForeachStatement, foreach_statement_rest(t, keyword))
}

/// The clauses and body of a `foreach` statement, after `foreach`.
#[verifier::rlimit(60)]
fn foreach_statement_rest<'s>(tokens: TokenList<'s>, keyword: &'s Token<'s>) -> (r: ParseResult<'s, ForeachStatement<'s>>)
    requires
        tokens.wf(),
    ensures
        r matches Ok((rest, v)) ==> v.tokens() == seq![*keyword] + tokens.tokens_to(rest),
        parsed(tokens, r, false),
        simple_foreach_at(tokens) ==> (r matches Ok((rest, _)) && rest.pos() == chain_stop(
            tokens,
            tokens.pos() + 6,
            Precedence::Lowest,
        )),
    decreases tokens.remaining(), 0nat,
{
    proof {
        if simple_foreach_at(tokens) {
            tokens.lemma_at(tokens.pos() + 5);
        }
    }
    let (inner, outer, open, close, start, end) = span_open(
        tokens,
        ContextType::ForeachStatementCondition,
        TerminalToken::OpenBracket,
        TerminalToken::CloseBracket,
        true,
    )?;
    let (rest, (index, (value_type, value_name, in_), array)) = in_span(
        foreach_clauses(inner),
        start,
        end,
        ContextType::ForeachStatementCondition,
        true,
    )?;
    span_end(rest, TerminalToken::CloseBracket, start, end, ContextType::ForeachStatementCondition)?;
    proof {
        if simple_foreach_at(tokens) {
            lemma_simple_statement_same(outer, tokens.at(tokens.pos() + 5));
            lemma_chain_same(outer, tokens, tokens.pos() + 6, Precedence::Lowest);
        }
    }
    let (t, body) = statement_type(outer)?;
    Ok(
        (
            t,
            ForeachStatement {
                foreach: keyword,
                open,
                index,
                value_type,
                value_name,
                in_,
                array,
                close,
                body: Box::new(body),
            },
        ),
    )
}

/// The clauses of a `foreach` statement: an optional index, the value, `in` and the collection.
fn foreach_clauses<'s>(tokens: TokenList<'s>) -> (r: ParseResult<
    's,
    (
        Option<crate::ast::ForeachIndex<'s>>,
        (Option<Type<'s>>, Identifier<'s>, &'s Token<'s>),
        Box<crate::ast::Expression<'s>>,
    ),
>)
    requires
        tokens.wf(),
    ensures
        r matches Ok((rest, (index, (value_type, value_name, in_), array))) ==> (match index {
            Some(x) => x.tokens(),
            None => Seq::empty(),
        }) + (match value_type {
            Some(x) => x.tokens(),
            None => Seq::empty(),
        }) + value_name.tokens() + seq![*in_] + array.tokens() == tokens.tokens_to(rest),
        parsed(tokens, r, true),
        identifier_at(tokens) && terminal_at(tokens, tokens.pos() + 1, TerminalToken::In) && tokens.pos() + 3
            == tokens.items().len() && (tokens.items()[tokens.pos() + 2].token.ty is Literal || tokens.items()[tokens.pos()
            + 2].token.ty is Identifier) ==> (r matches Ok((rest, _)) && rest.pos() == tokens.items().len()),
    decreases tokens.remaining(), 7nat,
{
    let (t, index) = opt(tokens, foreach_index(tokens))?;
    let (t, value) = foreach_value(t)?;
    proof {
        if t.pos() < t.items().len() {
            t.lemma_at(t.pos() + 1);
            if t.pos() + 1 == t.items().len() {
                lemma_no_operator_at_end(t.at(t.pos() + 1), Precedence::Lowest);
            }
        }
    }
    let (t, array) = expression(t, Precedence::Lowest)?;
    Ok((t, (index, value, array)))
}

/// Parses `break`.
pub fn break_statement<'s>(tokens: TokenList<'s>) -> (r: ParseResult<'s, BreakStatement<'s>>)
    requires
        tokens.wf(),
    ensures
        r matches Ok((rest, v)) ==> v.tokens() == tokens.tokens_to(rest),
        commits_at(tokens, r, TerminalToken::Break),
        match r {
            Ok((rest, v)) => {
                &&& terminal_at(tokens, tokens.pos(), TerminalToken::Break)
                &&& *v.break_ == tokens.items()[tokens.pos()].token
                &&& moved_one(tokens, rest)
            },
            Err(e) => !terminal_at(tokens, tokens.pos(), TerminalToken::Break) && e == error_at(
                ParseErrorType::ExpectedTerminal(TerminalToken::Break),
                tokens.pos(),
            ),
        },
{
    let (t, break_) = terminal(tokens, TerminalToken::Break)?;
    Ok((t, BreakStatement { break_ }))
}

/// Parses `continue`.
pub fn continue_statement<'s>(tokens: TokenList<'s>) -> (r: ParseResult<'s, ContinueStatement<'s>>)
    requires
        tokens.wf(),
    ensures
        r matches Ok((rest, v)) ==> v.tokens() == tokens.tokens_to(rest),
        commits_at(tokens, r, TerminalToken::Continue),
        match r {
            Ok((rest, v)) => {
                &&& terminal_at(tokens, tokens.pos(), TerminalToken::Continue)
                &&& *v.continue_ == tokens.items()[tokens.pos()].token
                &&& moved_one(tokens, rest)
            },
            Err(e) => !terminal_at(tokens, tokens.pos(), TerminalToken::Continue) && e == error_at(
                ParseErrorType::ExpectedTerminal(TerminalToken::Continue),
                tokens.pos(),
            ),
        },
{
    let (t, continue_) = terminal(tokens, TerminalToken::Continue)?;
    Ok((t, ContinueStatement { continue_ }))
}

/// Parses a `return` statement: `return` and a value, unless a line break follows `return`.
#[verifier::rlimit(40)]
pub fn return_statement<'s>(tokens: TokenList<'s>) -> (r: ParseResult<'s, ReturnStatement<'s>>)
    requires
        tokens.wf(),
    ensures
        r matches Ok((rest, v)) ==> v.tokens() == tokens.tokens_to(rest),
        commits_at(tokens, r, TerminalToken::Return),
        parsed(tokens, r, true),
        r is Ok ==> terminal_at(tokens, tokens.pos(), TerminalToken::Return),
        !terminal_at(tokens, tokens.pos(), TerminalToken::Return) ==> (r matches Err(e) && !e.is_fatal && e.ty
            == ParseErrorType::ExpectedTerminal(TerminalToken::Return) && e.token_index == tokens.pos()),
        terminal_at(tokens, tokens.pos(), TerminalToken::Return) && tokens.items()[tokens.pos()].token.new_line is Some
            ==> (r matches Ok((rest, v)) && moved_one(tokens, rest) && v.value is None),
        terminal_at(tokens, tokens.pos(), TerminalToken::Return) && tokens.items()[tokens.pos()].token.new_line is None
            && !value_start(tokens.at(tokens.pos() + 1)) ==> (r matches Ok((rest, v)) && moved_one(tokens, rest)
            && v.value is None),
        terminal_at(tokens, tokens.pos(), TerminalToken::Return) && tokens.items()[tokens.pos()].token.new_line is None
            && simple_chain(tokens.at(tokens.pos() + 1), Precedence::Lowest) ==> (r matches Ok((rest, v))
            && v.value is Some && rest.pos() == chain_stop(
            tokens.at(tokens.pos() + 1),
            tokens.pos() + 2,
            Precedence::Lowest,
        )),
    decreases tokens.remaining(), 0nat,
{
    let (t, keyword) = terminal(tokens, TerminalToken::Return)?;
    proof {
        tokens.lemma_at(tokens.pos() + 1);
        if t.pos() < t.items().len() {
            lemma_simple_chain_same(t, tokens.at(tokens.pos() + 1), Precedence::Lowest);
        }
    }
    definitely_after(tokens, ContextType::ReturnStatement, return_statement_rest(t, keyword))
}

/// The value of a `return` statement, after `return`.
fn return_statement_rest<'s>(tokens: TokenList<'s>, keyword: &'s Token<'s>) -> (r: ParseResult<'s, ReturnStatement<'s>>)
    requires
        tokens.wf(),
    ensures
        r matches Ok((rest, v)) ==> v.tokens() == seq![*keyword] + tokens.tokens_to(rest),
        parsed(tokens, r, false),
        0 < tokens.pos() <= tokens.items().len() && tokens.items()[tokens.pos() - 1].token.new_line is Some ==> (r matches Ok(
            (rest, v),
        ) && rest == tokens && v.value is None),
        0 < tokens.pos() <= tokens.items().len() && tokens.items()[tokens.pos() - 1].token.new_line is None
            && !value_start(tokens) ==> (r matches Ok((rest, v)) && rest == tokens && v.value is None),
        0 < tokens.pos() <= tokens.items().len() && tokens.items()[tokens.pos() - 1].token.new_line is None
            && simple_chain(tokens, Precedence::Lowest) ==> (r matches Ok((rest, v)) && v.value is Some && rest.pos()
            == chain_stop(tokens, tokens.pos() + 1, Precedence::Lowest)),
    decreases tokens.remaining(), 9nat,
{
    if tokens.is_newline() {
        return Ok((tokens, ReturnStatement { return_: keyword, value: None }));
    }
    let (t, value) = opt(tokens, expression(tokens, Precedence::Lowest))?;
    Ok((t, ReturnStatement { return_: keyword, value }))
}

/// Parses a `yield` statement: `yield` and a value, unless a line break follows `yield`.
pub fn yield_statement<'s>(tokens: TokenList<'s>) -> (r: ParseResult<'s, YieldStatement<'s>>)
    requires
        tokens.wf(),
    ensures
        r matches Ok((rest, v)) ==> v.tokens() == tokens.tokens_to(rest),
        commits_at(tokens, r, TerminalToken::Yield),
        parsed(tokens, r, true),
        r is Ok ==> terminal_at(tokens, tokens.pos(), TerminalToken::Yield),
        !terminal_at(tokens, tokens.pos(), TerminalToken::Yield) ==> (r matches Err(e) && !e.is_fatal && e.ty
            == ParseErrorType::ExpectedTerminal(TerminalToken::Yield) && e.token_index == tokens.pos()),
    decreases tokens.remaining(), 0nat,
{
    let (t, keyword) = terminal(tokens, TerminalToken::Yield)?;
    definitely_after(tokens, ContextType::YieldStatement, yield_statement_rest(t, keyword))
}

/// The value of a `yield` statement, after `yield`.
fn yield_statement_rest<'s>(tokens: TokenList<'s>, keyword: &'s Token<'s>) -> (r: ParseResult<'s, YieldStatement<'s>>)
    requires
        tokens.wf(),
    ensures
        r matches Ok((rest, v)) ==> v.tokens() == seq![*keyword] + tokens.tokens_to(rest),
        parsed(tokens, r, false),
        0 < tokens.pos() <= tokens.items().len() && tokens.items()[tokens.pos() - 1].token.new_line is Some ==> (r matches Ok(
            (rest, v),
        ) && rest == tokens && v.value is None),
    decreases tokens.remaining(), 9nat,
{
    if tokens.is_newline() {
        return Ok((tokens, YieldStatement { yield_: keyword, value: None }));
    }
    let (t, value) = opt(tokens, expression(tokens, Precedence::Lowest))?;
    Ok((t, YieldStatement { yield_: keyword, value }))
}

/// Parses a class statement: `class`, a name and a class definition.
pub fn class_declaration_statement<'s>(tokens: TokenList<'s>) -> (r: ParseResult<'s, ClassDefinitionStatement<'s>>)
    requires
        tokens.wf(),
    ensures
        r matches Ok((rest, v)) ==> v.tokens() == tokens.tokens_to(rest),
        commits_at(tokens, r, TerminalToken::Class),
        parsed(tokens, r, true),
        r is Ok ==> terminal_at(tokens, tokens.pos(), TerminalToken::Class),
        !terminal_at(tokens, tokens.pos(), TerminalToken::Class) ==> (r matches Err(e) && !e.is_fatal && e.ty
            == ParseErrorType::ExpectedTerminal(TerminalToken::Class) && e.token_index == tokens.pos()),
        terminal_at(tokens, tokens.pos(), TerminalToken::Class) && identifier_at(tokens.at(tokens.pos() + 1))
            && empty_block_at(tokens.at(tokens.pos() + 2)) ==> (r matches Ok((rest, _)) && rest.pos() == tokens.pos() + 4),
    decreases tokens.remaining(), 0nat,
{
    proof {
        if terminal_at(tokens, tokens.pos(), TerminalToken::Class) {
            tokens.lemma_at(tokens.pos() + 1);
            if tokens.pos() + 2 <= tokens.items().len() {
                tokens.lemma_at(tokens.pos() + 2);
            }
        }
    }
    let (t, keyword) = terminal(tokens, TerminalToken::Class)?;
    proof {
        if t.pos() + 1 <= t.items().len() {
            t.lemma_at(t.pos());
            t.lemma_at(t.pos() + 1);
        }
    }
    definitely_after(tokens, ContextType::ClassDefinition, class_declaration_statement_rest(t, keyword))
}

/// The name and definition of a class statement, after `class`.
fn class_declaration_statement_rest<'s>(tokens: TokenList<'s>, keyword: &'s Token<'s>) -> (r: ParseResult<'s, ClassDefinitionStatement<'s>>)
    requires
        tokens.wf(),
    ensures
        r matches Ok((rest, v)) ==> v.tokens() == seq![*keyword] + tokens.tokens_to(rest),
        parsed(tokens, r, false),
        identifier_at(tokens) && empty_block_at(tokens.at(tokens.pos() + 1)) ==> (r matches Ok((rest, _))
            && rest.pos() == tokens.pos() + 3),
    decreases tokens.remaining(), 9nat,
{
    proof {
        if identifier_at(tokens) {
            tokens.lemma_at(tokens.pos() + 1);
            if empty_block_at(tokens.at(tokens.pos() + 1)) {
                lemma_no_operator_at_brace(tokens.at(tokens.pos() + 1), Precedence::Lowest);
            }
        }
    }
    let (t, name) = expression(tokens, Precedence::Lowest)?;
    let (t, definition) = class_definition(t)?;
    Ok((t, ClassDefinitionStatement { class: keyword, name, definition }))
}

/// Parses a `try`-`catch` statement: `try`, a body, `catch`, a name in parentheses and a body.
pub fn try_catch_statement<'s>(tokens: TokenList<'s>) -> (r: ParseResult<'s, TryCatchStatement<'s>>)
    requires
        tokens.wf(),
    ensures
        r matches Ok((rest, v)) ==> v.tokens() == tokens.tokens_to(rest),
        commits_at(tokens, r, TerminalToken::Try),
        parsed(tokens, r, true),
        r is Ok ==> terminal_at(tokens, tokens.pos(), TerminalToken::Try),
        !terminal_at(tokens, tokens.pos(), TerminalToken::Try) ==> (r matches Err(e) && !e.is_fatal && e.ty
            == ParseErrorType::ExpectedTerminal(TerminalToken::Try) && e.token_index == tokens.pos()),
        terminal_at(tokens, tokens.pos(), TerminalToken::Try) && try_tail_at(tokens.at(tokens.pos() + 1)) ==> (r matches Ok(
            (rest, _),
        ) && rest.pos() == chain_stop(tokens, do_while_at(tokens.at(tokens.pos() + 1)) + 5, Precedence::Lowest)),
    decreases tokens.remaining(), 0nat,
{
    proof {
        if terminal_at(tokens, tokens.pos(), TerminalToken::Try) {
            tokens.lemma_at(tokens.pos() + 1);
        }
    }
    let (t, keyword) = terminal(tokens, TerminalToken::Try)?;
    proof {
        lemma_try_tail_same(t, tokens.at(tokens.pos() + 1));
        if try_tail_at(t) {
            lemma_chain_same(t, tokens, do_while_at(t) + 5, Precedence::Lowest);
        }
    }
    definitely_after(tokens, ContextType::TryCatchStatement, try_catch_statement_rest(t, keyword))
}

/// At the position of `tokens` stand a simple expression statement, with the `;` that may follow
/// it, then `catch`, `(`, a name and the `)` that closes the `(`, with the spans from there on
/// well formed, and a simple expression statement: the parts of a `try` statement. The `catch`
/// stands where [`do_while_at`] places the token after the first body.
pub open spec fn try_tail_at<'s>(tokens: TokenList<'s>) -> bool {
    let w = do_while_at(tokens);
    &&& simple_statement(tokens)
    &&& terminal_at(tokens, w, TerminalToken::Catch)
    &&& spans_from(tokens.items(), w + 1)
    &&& terminal_at(tokens, w + 1, TerminalToken::OpenBracket)
    &&& tokens.items()[w + 1].close_index == Some((w + 3) as usize)
    &&& tokens.items()[w + 2].token.ty is Identifier
    &&& terminal_at(tokens, w + 3, TerminalToken::CloseBracket)
    &&& simple_statement(tokens.at(w + 4))
}

/// Whether the parts of a `try` statement are simple depends only on the tokens, the flavor and
/// the position.
proof fn lemma_try_tail_same<'s>(t1: TokenList<'s>, t2: TokenList<'s>)
    requires
        t1.items() == t2.items(),
        t1.pos() == t2.pos(),
        t1.spec_flavor() == t2.spec_flavor(),
        t1.items().len() < usize::MAX,
        0 <= t1.pos() <= t1.items().len(),
    ensures
        try_tail_at(t1) == try_tail_at(t2),
        do_while_at(t1) == do_while_at(t2),
{
    lemma_do_tail_same(t1, t2);
    lemma_simple_statement_same(t1, t2);
    let w = do_while_at(t1);
    if 0 <= w + 4 <= t1.items().len() {
        t1.lemma_at(w + 4);
        t2.lemma_at(w + 4);
        lemma_simple_statement_same(t1.at(w + 4), t2.at(w + 4));
    }
}

/// The bodies and name of a `try`-`catch` statement, after `try`.
fn try_catch_statement_rest<'s>(tokens: TokenList<'s>, keyword: &'s Token<'s>) -> (r: ParseResult<'s, TryCatchStatement<'s>>)
    requires
        tokens.wf(),
    ensures
        r matches Ok((rest, v)) ==> v.tokens() == seq![*keyword] + tokens.tokens_to(rest),
        parsed(tokens, r, false),
        try_tail_at(tokens) ==> (r matches Ok((rest, _)) && rest.pos() == chain_stop(
            tokens,
            do_while_at(tokens) + 5,
            Precedence::Lowest,
        )),
    decreases tokens.remaining(), 12nat,
{
    let (t, body) = statement(tokens)?;
    proof {
        if try_tail_at(tokens) {
            let w = do_while_at(tokens);
            tokens.lemma_at(w + 4);
            t.lemma_at(w + 4);
        }
    }
    let (t, catch) = terminal(t, TerminalToken::Catch)?;
    let (inner, outer, open, close, start, end) = span_open(
        t,
        ContextType::TryCatchStatementCatchName,
        TerminalToken::OpenBracket,
        TerminalToken::CloseBracket,
        true,
    )?;
    let (rest, catch_name) = in_span(identifier(inner), start, end, ContextType::TryCatchStatementCatchName, true)?;
    span_end(rest, TerminalToken::CloseBracket, start, end, ContextType::TryCatchStatementCatchName)?;
    proof {
        if try_tail_at(tokens) {
            let w = do_while_at(tokens);
            lemma_simple_statement_same(outer, tokens.at(w + 4));
            lemma_chain_same(outer, tokens, w + 5, Precedence::Lowest);
        }
    }
    let (t, catch_body) = statement_type(outer)?;
    Ok(
        (
            t,
            TryCatchStatement {
                try_: keyword,
                body: Box::new(body),
                catch,
                open,
                catch_name,
                close,
                catch_body: Box::new(catch_body),
            },
        ),
    )
}

/// Parses a `throw` statement: `throw` and a value.
pub fn throw_statement<'s>(tokens: TokenList<'s>) -> (r: ParseResult<'s, ThrowStatement<'s>>)
    requires
        tokens.wf(),
    ensures
        r matches Ok((rest, v)) ==> v.tokens() == tokens.tokens_to(rest),
        commits_at(tokens, r, TerminalToken::Throw),
        parsed(tokens, r, true),
        r is Ok ==> terminal_at(tokens, tokens.pos(), TerminalToken::Throw),
        !terminal_at(tokens, tokens.pos(), TerminalToken::Throw) ==> (r matches Err(e) && !e.is_fatal && e.ty
            == ParseErrorType::ExpectedTerminal(TerminalToken::Throw) && e.token_index == tokens.pos()),
        terminal_at(tokens, tokens.pos(), TerminalToken::Throw) && simple_chain(tokens.at(tokens.pos() + 1), Precedence::Lowest)
            ==> (r matches Ok((rest, _)) && rest.pos() == chain_stop(tokens, tokens.pos() + 2, Precedence::Lowest)),
    decreases tokens.remaining(), 0nat,
{
    proof {
        if terminal_at(tokens, tokens.pos(), TerminalToken::Throw) {
            tokens.lemma_at(tokens.pos() + 1);
        }
    }
    let (t, keyword) = terminal(tokens, TerminalToken::Throw)?;
    proof {
        if t.pos() < t.items().len() {
            lemma_simple_chain_same(t, tokens.at(tokens.pos() + 1), Precedence::Lowest);
            lemma_chain_same(tokens.at(tokens.pos() + 1), tokens, tokens.pos() + 2, Precedence::Lowest);
        }
    }
    definitely_after(tokens, ContextType::ThrowStatement, throw_statement_rest(t, keyword))
}

/// The value of a `throw` statement, after `throw`.
fn throw_statement_rest<'s>(tokens: TokenList<'s>, keyword: &'s Token<'s>) -> (r: ParseResult<'s, ThrowStatement<'s>>)
    requires
        tokens.wf(),
    ensures
        r matches Ok((rest, v)) ==> v.tokens() == seq![*keyword] + tokens.tokens_to(rest),
        parsed(tokens, r, false),
        simple_chain(tokens, Precedence::Lowest) ==> (r matches Ok((rest, _)) && rest.pos() == chain_stop(
            tokens,
            tokens.pos() + 1,
            Precedence::Lowest,
        )),
    decreases tokens.remaining(), 9nat,
{
    let (t, value) = expression(tokens, Precedence::Lowest)?;
    Ok((t, ThrowStatement { throw: keyword, value }))
}

/// Parses a `const` statement: `const`, an optional type on the same line, a name and an initializer.
pub fn const_statement<'s>(tokens: TokenList<'s>) -> (r: ParseResult<'s, ConstDefinitionStatement<'s>>)
    requires
        tokens.wf(),
    ensures
        r matches Ok((rest, v)) ==> v.tokens() == tokens.tokens_to(rest),
        commits_at(tokens, r, TerminalToken::Const),
        parsed(tokens, r, true),
        r is Ok ==> terminal_at(tokens, tokens.pos(), TerminalToken::Const),
        !terminal_at(tokens, tokens.pos(), TerminalToken::Const) ==> (r matches Err(e) && !e.is_fatal && e.ty
            == ParseErrorType::ExpectedTerminal(TerminalToken::Const) && e.token_index == tokens.pos()),
        terminal_at(tokens, tokens.pos(), TerminalToken::Const) && simple_const_at(tokens.at(tokens.pos() + 1)) ==> (r matches Ok(
            (rest, _),
        ) && rest.pos() == chain_stop(tokens, tokens.pos() + 4, Precedence::Comma)),
    decreases tokens.remaining(), 0nat,
{
    proof {
        if terminal_at(tokens, tokens.pos(), TerminalToken::Const) {
            tokens.lemma_at(tokens.pos() + 1);
        }
    }
    let (t, keyword) = terminal(tokens, TerminalToken::Const)?;
    proof {
        if simple_const_at(tokens.at(tokens.pos() + 1)) {
            lemma_simple_const_same(t, tokens.at(tokens.pos() + 1));
            lemma_chain_same(t, tokens, tokens.pos() + 4, Precedence::Comma);
        }
    }
    definitely_after(tokens, ContextType::ConstDefinition, const_statement_rest(t, keyword))
}

/// The type, name and initializer of a `const` statement, after `const`.
fn const_statement_rest<'s>(tokens: TokenList<'s>, keyword: &'s Token<'s>) -> (r: ParseResult<'s, ConstDefinitionStatement<'s>>)
    requires
        tokens.wf(),
    ensures
        r matches Ok((rest, v)) ==> v.tokens() == seq![*keyword] + tokens.tokens_to(rest),
        parsed(tokens, r, false),
        simple_const_at(tokens) ==> (r matches Ok((rest, _)) && rest.pos() == chain_stop(
            tokens,
            tokens.pos() + 3,
            Precedence::Comma,
        )),
    decreases tokens.remaining(), 6nat,
{
    match typed_const_statement(tokens, keyword) {
        Ok(x) => Ok(x),
        Err(e) => if e.is_fatal {
            Err(e)
        } else {
            untyped_const_statement(tokens, keyword)
        },
    }
}

/// A constant with a type.
fn typed_const_statement<'s>(tokens: TokenList<'s>, const_: &'s Token<'s>) -> (r: ParseResult<'s, ConstDefinitionStatement<'s>>)
    requires
        tokens.wf(),
    ensures
        r matches Ok((rest, v)) ==> v.tokens() == seq![*const_] + tokens.tokens_to(rest),
        parsed(tokens, r, true),
        identifier_at(tokens) && terminal_at(tokens, tokens.pos() + 1, TerminalToken::Assign) ==> (r matches Err(e)
            && !e.is_fatal),
    decreases tokens.remaining(), 5nat,
{
    proof {
        if identifier_at(tokens) {
            tokens.lemma_at(tokens.pos() + 1);
        }
    }
    let (t, const_type) = prevent_ending_line(tokens, type_(tokens))?;
    let (t, name) = identifier(t)?;
    let (t, initializer) = var_initializer(t)?;
    Ok((t, ConstDefinitionStatement { const_, const_type: Some(const_type), name, initializer }))
}

/// A constant without a type.
fn untyped_const_statement<'s>(tokens: TokenList<'s>, const_: &'s Token<'s>) -> (r: ParseResult<'s, ConstDefinitionStatement<'s>>)
    requires
        tokens.wf(),
    ensures
        r matches Ok((rest, v)) ==> v.tokens() == seq![*const_] + tokens.tokens_to(rest),
        parsed(tokens, r, true),
        simple_const_at(tokens) ==> (r matches Ok((rest, _)) && rest.pos() == chain_stop(
            tokens,
            tokens.pos() + 3,
            Precedence::Comma,
        )),
    decreases tokens.remaining(), 0nat,
{
    let (t, name) = identifier(tokens)?;
    proof {
        if simple_const_at(tokens) {
            tokens.lemma_at(tokens.pos() + 2);
            t.lemma_at(t.pos() + 1);
            lemma_simple_chain_same(t.at(t.pos() + 1), tokens.at(tokens.pos() + 2), Precedence::Comma);
            lemma_chain_same(t, tokens, tokens.pos() + 3, Precedence::Comma);
        }
    }
    let (t, initializer) = var_initializer(t)?;
    Ok((t, ConstDefinitionStatement { const_, const_type: None, name, initializer }))
}

/// At the position of `tokens` stand a name, `=` and a value that is a simple chain: a constant
/// without a type.
pub open spec fn simple_const_at<'s>(tokens: TokenList<'s>) -> bool {
    &&& identifier_at(tokens)
    &&& terminal_at(tokens, tokens.pos() + 1, TerminalToken::Assign)
    &&& simple_chain(tokens.at(tokens.pos() + 2), Precedence::Comma)
}

/// Whether a simple constant follows depends only on the tokens, the flavor and the position.
proof fn lemma_simple_const_same<'s>(t1: TokenList<'s>, t2: TokenList<'s>)
    requires
        t1.items() == t2.items(),
        t1.pos() == t2.pos(),
        t1.spec_flavor() == t2.spec_flavor(),
        t1.items().len() < usize::MAX,
        0 <= t1.pos() <= t1.items().len(),
    ensures
        simple_const_at(t1) == simple_const_at(t2),
{
    if t1.pos() + 2 < t1.items().len() {
        t1.lemma_at(t1.pos() + 2);
        t2.lemma_at(t2.pos() + 2);
        lemma_simple_chain_same(t1.at(t1.pos() + 2), t2.at(t2.pos() + 2), Precedence::Comma);
    } else if t1.pos() + 2 == t1.items().len() {
        t1.lemma_at(t1.pos() + 2);
        t2.lemma_at(t2.pos() + 2);
    }
}

/// Parses an `enum` statement: `enum`, a name and entries in braces.
pub fn enum_statement<'s>(tokens: TokenList<'s>) -> (r: ParseResult<'s, EnumDefinitionStatement<'s>>)
    requires
        tokens.wf(),
    ensures
        r matches Ok((rest, v)) ==> v.tokens() == tokens.tokens_to(rest),
        commits_at(tokens, r, TerminalToken::Enum),
        parsed(tokens, r, true),
        r is Ok ==> terminal_at(tokens, tokens.pos(), TerminalToken::Enum),
        !terminal_at(tokens, tokens.pos(), TerminalToken::Enum) ==> (r matches Err(e) && !e.is_fatal && e.ty
            == ParseErrorType::ExpectedTerminal(TerminalToken::Enum) && e.token_index == tokens.pos()),
        terminal_at(tokens, tokens.pos(), TerminalToken::Enum) && identifier_at(tokens.at(tokens.pos() + 1)) && empty_block_at(tokens.at(tokens.pos() + 2)) ==> (r matches Ok((rest, _))
            && rest.pos() == tokens.pos() + 4),
    decreases tokens.remaining(), 0nat,
{
    proof {
        if terminal_at(tokens, tokens.pos(), TerminalToken::Enum) {
            tokens.lemma_at(tokens.pos() + 1);
            if tokens.pos() + 2 <= tokens.items().len() {
                tokens.lemma_at(tokens.pos() + 2);
            }
        }
    }
    let (t, keyword) = terminal(tokens, TerminalToken::Enum)?;
    proof {
        if t.pos() + 1 <= t.items().len() {
            t.lemma_at(t.pos());
            t.lemma_at(t.pos() + 1);
        }
    }
    definitely_after(tokens, ContextType::EnumDefinition, enum_statement_rest(t, keyword))
}

/// The name and entries of an `enum` statement, after `enum`.
#[verifier::rlimit(80)]
fn enum_statement_rest<'s>(tokens: TokenList<'s>, keyword: &'s Token<'s>) -> (r: ParseResult<'s, EnumDefinitionStatement<'s>>)
    requires
        tokens.wf(),
    ensures
        r matches Ok((rest, v)) ==> v.tokens() == seq![*keyword] + tokens.tokens_to(rest),
        parsed(tokens, r, false),
        identifier_at(tokens) && empty_block_at(tokens.at(tokens.pos() + 1)) ==> (r matches Ok((rest, _))
            && rest.pos() == tokens.pos() + 3),
    decreases tokens.remaining(), 0nat,
{
    let (t, name) = identifier(tokens)?;
    proof {
        tokens.lemma_at(tokens.pos() + 1);
    }
    let (inner, outer, open, close, start, end) = span_open(
        t,
        ContextType::EnumDefinition,
        TerminalToken::OpenBrace,
        TerminalToken::CloseBrace,
        true,
    )?;
    let parse_entry = |x: TokenList<'s>| -> (r: ParseResult<'s, EnumEntry<'s>>)
        requires
            inner.reaches(x),
        ensures
            r matches Ok((rest, v)) ==> v.tokens() == x.tokens_to(rest),
            parsed(x, r, true),
            !identifier_at(x) ==> (r matches Err(e) && !e.is_fatal),
        {
            enum_entry(x)
        };
    let ghost f = |v: EnumEntry<'s>| v.tokens();
    proof {
        if inner.pos() == inner.items().len() {
            assert forall|res: ParseResult<'s, EnumEntry<'s>>| #[trigger] parse_entry.ensures((inner,), res) implies (
            res matches Err(e) && !e.is_fatal) by {}
        }
    }
    let (rest, entries) = in_span(
        many(inner, parse_entry, Ghost(f)),
        start,
        end,
        ContextType::EnumDefinition,
        true,
    )?;
    span_end(rest, TerminalToken::CloseBrace, start, end, ContextType::EnumDefinition)?;
    proof {
        lemma_enum_entry_seq_tokens(entries@, f);
    }
    Ok((outer, EnumDefinitionStatement { enum_: keyword, name, open, entries, close }))
}

/// Parses an expression as a statement.
pub fn expression_statement<'s>(tokens: TokenList<'s>) -> (r: ParseResult<'s, ExpressionStatement<'s>>)
    requires
        tokens.wf(),
    ensures
        r matches Ok((rest, v)) ==> v.tokens() == tokens.tokens_to(rest),
        parsed(tokens, r, true),
        simple_chain(tokens, Precedence::Lowest) ==> (r matches Ok((rest, _)) && rest.pos() == chain_stop(
            tokens,
            tokens.pos() + 1,
            Precedence::Lowest,
        )),
        !value_start(tokens) ==> (r matches Err(e) && !e.is_fatal),
    decreases tokens.remaining(), 9nat,
{
    let (t, value) = expression(tokens, Precedence::Lowest)?;
    Ok((t, ExpressionStatement { value }))
}

/// The parts of a constructor definition before its function definition: `function`, namespaces
/// each followed by `::`, and `constructor`.
fn constructor_name<'s>(tokens: TokenList<'s>) -> (r: ParseResult<
    's,
    (&'s Token<'s>, Vec<(Identifier<'s>, &'s Token<'s>)>, Identifier<'s>, &'s Token<'s>, &'s Token<'s>),
>)
    requires
        tokens.wf(),
    ensures
        r matches Ok((rest, (function, namespaces, last_name, last_namespace, constructor))) ==> seq![*function]
            + identifier_pairs_tokens(namespaces@) + last_name.tokens() + seq![*last_namespace, *constructor]
            == tokens.tokens_to(rest),
        parsed(tokens, r, true),
        r is Ok ==> terminal_at(tokens, tokens.pos(), TerminalToken::Function),
        !terminal_at(tokens, tokens.pos(), TerminalToken::Function) ==> (r matches Err(e) && !e.is_fatal && e.ty
            == ParseErrorType::ExpectedTerminal(TerminalToken::Function) && e.token_index == tokens.pos()),
{
    let (t, function) = terminal(tokens, TerminalToken::Function)?;
    let (t, first_name) = identifier(t)?;
    let (t, first_namespace) = terminal(t, TerminalToken::Namespace)?;
    let mut cur = t;
    let mut last_name = first_name;
    let mut last_namespace = first_namespace;
    let mut namespaces: Vec<(Identifier<'s>, &'s Token<'s>)> = Vec::new();
    loop
        invariant
            tokens.wf(),
            tokens.reaches(cur),
            tokens.pos() < cur.pos(),
            terminal_at(tokens, tokens.pos(), TerminalToken::Function),
            seq![*function] + identifier_pairs_tokens(namespaces@) + last_name.tokens() + seq![*last_namespace]
                == tokens.tokens_to(cur),
        decreases cur.remaining(),
    {
        match identifier(cur) {
            Ok((next, next_name)) => {
                let (next, next_namespace) = terminal(next, TerminalToken::Namespace)?;
                let ghost prev = namespaces@;
                namespaces.push((last_name, last_namespace));
                assert(namespaces@.subrange(0, namespaces@.len() - 1) =~= prev);
                last_name = next_name;
                last_namespace = next_namespace;
                cur = next;
            },
            Err(_) => {
                let (t, constructor) = terminal(cur, TerminalToken::Constructor)?;
                return Ok((t, (function, namespaces, last_name, last_namespace, constructor)));
            },
        }
    }
}

/// Parses a constructor defined outside its class: `function`, the class's namespaces and name
/// each followed by `::`, `constructor` and a function definition.
pub fn constructor_declaration_statement<'s>(tokens: TokenList<'s>) -> (r: ParseResult<'s, ConstructorDefinitionStatement<'s>>)
    requires
        tokens.wf(),
    ensures
        r matches Ok((rest, v)) ==> v.tokens() == tokens.tokens_to(rest),
        parsed(tokens, r, true),
        r is Ok ==> terminal_at(tokens, tokens.pos(), TerminalToken::Function),
        !terminal_at(tokens, tokens.pos(), TerminalToken::Function) ==> (r matches Err(e) && !e.is_fatal && e.ty
            == ParseErrorType::ExpectedTerminal(TerminalToken::Function) && e.token_index == tokens.pos()),
    decreases tokens.remaining(), 0nat,
{
    let (t, (function, namespaces, last_name, last_namespace, constructor)) = constructor_name(tokens)?;
    let (t, definition) = definitely_after(tokens, ContextType::FunctionDefinition, function_definition(t))?;
    Ok((t, ConstructorDefinitionStatement { function, namespaces, last_name, last_namespace, constructor, definition }))
}

/// Parses a function statement: an optional return type on the same line, `function`, a name of
/// identifiers separated by `::` and a function definition.
#[verifier::rlimit(40)]
pub fn function_declaration_statement<'s>(tokens: TokenList<'s>) -> (r: ParseResult<'s, FunctionDefinitionStatement<'s>>)
    requires
        tokens.wf(),
    ensures
        r matches Ok((rest, v)) ==> v.tokens() == tokens.tokens_to(rest),
        parsed(tokens, r, true),
        r is Ok ==> type_start_at(tokens) || terminal_at(tokens, tokens.pos(), TerminalToken::Function),
        !type_start_at(tokens) && !terminal_at(tokens, tokens.pos(), TerminalToken::Function) ==> (r matches Err(e)
            && !e.is_fatal),
        identifier_at(tokens) && !modifier_start(tokens.at(tokens.pos() + 1)) && !terminal_at(
            tokens,
            tokens.pos() + 1,
            TerminalToken::Function,
        ) ==> (r matches Err(e) && !e.is_fatal),
        terminal_at(tokens, tokens.pos(), TerminalToken::Function) && name_without_definition(tokens.pos() + 1, tokens)
            ==> (r matches Err(e) && e.is_fatal && e.ty == ParseErrorType::ExpectedTerminal(TerminalToken::OpenBracket)
            && e.token_index == tokens.pos() + 2),
        terminal_at(tokens, tokens.pos(), TerminalToken::Function) && identifier_at(tokens.at(tokens.pos() + 1))
            && !terminal_at(tokens, tokens.pos() + 2, TerminalToken::Namespace) && simple_function_at(
            tokens.at(tokens.pos() + 2),
        ) ==> (r matches Ok((rest, _)) && rest.pos() == chain_stop(tokens, tokens.pos() + 5, Precedence::Lowest)),
    decreases tokens.remaining(), 5nat,
{
    proof {
        if identifier_at(tokens) && !modifier_start(tokens.at(tokens.pos() + 1)) {
            tokens.lemma_at(tokens.pos() + 1);
        }
    }
    let (t, return_type) = prevent_ending_line(tokens, opt(tokens, type_(tokens).not_definite()))?;
    let (t, function) = terminal(t, TerminalToken::Function)?;
    proof {
        if terminal_at(tokens, tokens.pos(), TerminalToken::Function) {
            tokens.lemma_at(tokens.pos() + 1);
            t.lemma_at(t.pos());
            if t.pos() + 1 <= t.items().len() {
                tokens.lemma_at(tokens.pos() + 2);
                t.lemma_at(t.pos() + 1);
                lemma_simple_function_same(t.at(t.pos() + 1), tokens.at(tokens.pos() + 2));
            }
            lemma_chain_same(t, tokens, tokens.pos() + 5, Precedence::Lowest);
        }
    }
    definitely_after(tokens, ContextType::FunctionDefinition, function_declaration_rest(t, return_type, function))
}

/// The name and definition of a function statement, after `function`.
#[verifier::rlimit(40)]
fn function_declaration_rest<'s>(tokens: TokenList<'s>, return_type: Option<Type<'s>>, function: &'s Token<'s>) -> (r:
    ParseResult<'s, FunctionDefinitionStatement<'s>>)
    requires
        tokens.wf(),
    ensures
        r matches Ok((rest, v)) ==> v.tokens() == (match return_type {
            Some(t) => t.tokens(),
            None => Seq::empty(),
        }) + seq![*function] + tokens.tokens_to(rest),
        parsed(tokens, r, true),
        identifier_at(tokens.at(tokens.pos())) && !terminal_at(tokens, tokens.pos() + 1, TerminalToken::Namespace)
            && simple_function_at(tokens.at(tokens.pos() + 1)) ==> (r matches Ok((rest, _)) && rest.pos() == chain_stop(
            tokens,
            tokens.pos() + 4,
            Precedence::Lowest,
        )),
        name_without_definition(tokens.pos(), tokens) ==> r == Err::<(TokenList<'s>, FunctionDefinitionStatement<'s>), ParseError>(
            error_at(ParseErrorType::ExpectedTerminal(TerminalToken::OpenBracket), tokens.pos() + 1),
        ),
    decreases tokens.remaining(), 2nat,
{
    let parse_name = |x: TokenList<'s>| -> (r: ParseResult<'s, Identifier<'s>>)
        requires
            tokens.reaches(x),
        ensures
            r matches Ok((rest, v)) ==> v.tokens() == x.tokens_to(rest),
            parsed(x, r, true),
            r matches Ok((rest, _)) ==> moved_one(x, rest),
            r is Err ==> !identifier_at(x),
        {
            identifier(x)
        };
    let separator = |x: TokenList<'s>| -> (r: ParseResult<'s, &'s Token<'s>>)
        requires
            tokens.reaches(x),
        ensures
            r matches Ok((rest, v)) ==> seq![*v] == x.tokens_to(rest),
            parsed(x, r, true),
            r is Ok ==> terminal_at(x, x.pos(), TerminalToken::Namespace),
            r matches Err(e) ==> !e.is_fatal,
        {
            terminal(x, TerminalToken::Namespace)
        };
    let ghost f = |v: Identifier<'s>| v.tokens();
    proof {
        tokens.lemma_at(tokens.pos());
    }
    let (t, name) = match separated_list1(tokens, parse_name, separator, Ghost(f)) {
        Ok(x) => x,
        Err(e) => {
            proof {
                if (identifier_at(tokens.at(tokens.pos())) && !terminal_at(tokens, tokens.pos() + 1, TerminalToken::Namespace)) && !parse_name.ensures(
                    (tokens,),
                    Err::<(TokenList<'s>, Identifier<'s>), ParseError>(e),
                ) {
                    let (a, b, items, last) = choose|
                        a: Seq<TokenList<'s>>,
                        b: Seq<TokenList<'s>>,
                        items: Seq<(Identifier<'s>, &'s Token<'s>)>,
                        last: Identifier<'s>,
                    |
                        #[trigger] separated_calls(parse_name, separator, a, b, items, last) && a[0] == tokens
                            && after_item_fails::<Identifier<'s>, _, _>(parse_name, separator, b.last(), e);
                    if items.len() > 0 {
                        assert(parse_name.ensures((a[0],), Ok::<_, ParseError>((b[0], items[0].0))));
                        assert(separator.ensures((b[0],), Ok::<_, ParseError>((a[1], items[0].1))));
                        assert(false);
                    }
                    assert(parse_name.ensures((a[0],), Ok::<_, ParseError>((b[0], last))));
                    if !(e.is_fatal && separator.ensures(
                        (b[0],),
                        Err::<(TokenList<'s>, &'s Token<'s>), ParseError>(e),
                    )) {
                        let (se, sp) = choose|se: TokenList<'s>, sp: &'s Token<'s>|
                            #[trigger] separator.ensures((b[0],), Ok::<_, ParseError>((se, sp)))
                                && parse_name.ensures((se,), Err::<(TokenList<'s>, Identifier<'s>), ParseError>(e));
                        assert(false);
                    }
                }
            }
            return Err(e);
        },
    };
    proof {
        lemma_identifier_pairs_tokens(name.items@, f);
        if (identifier_at(tokens.at(tokens.pos())) && !terminal_at(tokens, tokens.pos() + 1, TerminalToken::Namespace)) {
            let (a, b) = choose|a: Seq<TokenList<'s>>, b: Seq<TokenList<'s>>|
                #[trigger] separated_calls(parse_name, separator, a, b, name.items@, *name.last_item) && a[0]
                    == tokens && b.last() == t;
            if name.items@.len() > 0 {
                assert(parse_name.ensures((a[0],), Ok::<_, ParseError>((b[0], name.items@[0].0))));
                assert(separator.ensures((b[0],), Ok::<_, ParseError>((a[1], name.items@[0].1))));
                assert(false);
            }
            assert(parse_name.ensures((a[0],), Ok::<_, ParseError>((b[0], *name.last_item))));
        }
    }
    proof {
        if identifier_at(tokens.at(tokens.pos())) && !terminal_at(tokens, tokens.pos() + 1, TerminalToken::Namespace)
            && t.pos() <= t.items().len() {
            tokens.lemma_at(tokens.pos() + 1);
            lemma_simple_function_same(t, tokens.at(tokens.pos() + 1));
            lemma_chain_same(t, tokens, tokens.pos() + 4, Precedence::Lowest);
        }
    }
    let (t, definition) = function_definition(t)?;
    Ok((t, FunctionDefinitionStatement { return_type, function, name, definition }))
}

/// At `i` stands a name, not followed by `::`, and after it neither `[` nor `(`: a function
/// statement with that name has no definition.
pub open spec fn name_without_definition<'s>(i: int, tokens: TokenList<'s>) -> bool {
    &&& identifier_at(tokens.at(i))
    &&& !terminal_at(tokens, i + 1, TerminalToken::Namespace)
    &&& !terminal_at(tokens, i + 1, TerminalToken::OpenSquare)
    &&& !terminal_at(tokens, i + 1, TerminalToken::OpenBracket)
}

/// Where a variable statement with one simple variable ends: after the name, or after the value
/// of its `=`.
pub open spec fn simple_var_end<'s>(tokens: TokenList<'s>) -> int {
    let i = tokens.pos();
    if terminal_at(tokens, i + 2, TerminalToken::Assign) {
        chain_stop(tokens, i + 4, Precedence::Comma)
    } else {
        i + 2
    }
}

/// At the position of `tokens` stand a name as the type and the name of one variable, with no
/// `=` after it or a value after its `=` that is a simple chain; no `,` follows.
pub open spec fn simple_var_declaration<'s>(tokens: TokenList<'s>) -> bool {
    let i = tokens.pos();
    &&& identifier_at(tokens)
    &&& !modifier_start(tokens.at(i + 1))
    &&& identifier_at(tokens.at(i + 1))
    &&& terminal_at(tokens, i + 2, TerminalToken::Assign) ==> simple_chain(tokens.at(i + 3), Precedence::Comma)
    &&& !terminal_at(tokens, simple_var_end(tokens), TerminalToken::Comma)
}

/// Parses a variable statement: a type and variables separated by commas.
///
/// Once a type and a name are read, the input is known to be a variable statement, and an error
/// after that is fatal.
#[verifier::rlimit(40)]
pub fn var_declaration_statement<'s>(tokens: TokenList<'s>) -> (r: ParseResult<'s, VarDefinitionStatement<'s>>)
    requires
        tokens.wf(),
    ensures
        r matches Ok((rest, v)) ==> v.tokens() == tokens.tokens_to(rest),
        parsed(tokens, r, true),
        r is Ok ==> type_start_at(tokens),
        !type_start_at(tokens) ==> (r matches Err(e) && !e.is_fatal),
        identifier_at(tokens) && !modifier_start(tokens.at(tokens.pos() + 1)) && !identifier_at(
            tokens.at(tokens.pos() + 1),
        ) ==> (r matches Err(e) && !e.is_fatal),
        identifier_at(tokens) && !modifier_start(tokens.at(tokens.pos() + 1)) && identifier_at(
            tokens.at(tokens.pos() + 1),
        ) && terminal_at(tokens, tokens.pos() + 2, TerminalToken::Assign) && !value_start(tokens.at(tokens.pos() + 3))
            ==> (r matches Err(e) && e.is_fatal && e.ty == ParseErrorType::ExpectedExpression && e.token_index
            == tokens.pos() + 3),
        simple_var_declaration(tokens) ==> (r matches Ok((rest, _)) && rest.pos() == simple_var_end(tokens)),
    decreases tokens.remaining(), 5nat,
{
    proof {
        if identifier_at(tokens) && !modifier_start(tokens.at(tokens.pos() + 1)) {
            tokens.lemma_at(tokens.pos() + 1);
        }
    }
    let (t, ty) = type_(tokens).not_definite()?;
    proof {
        if identifier_at(tokens) && !modifier_start(tokens.at(tokens.pos() + 1)) && terminal_at(
            tokens,
            tokens.pos() + 2,
            TerminalToken::Assign,
        ) {
            tokens.lemma_at(tokens.pos() + 3);
            t.lemma_at(t.pos() + 2);
        }
        if simple_var_declaration(tokens) {
            tokens.lemma_at(tokens.pos() + 1);
            t.lemma_at(t.pos());
            if terminal_at(tokens, tokens.pos() + 2, TerminalToken::Assign) {
                lemma_simple_chain_same(t.at(t.pos() + 2), tokens.at(tokens.pos() + 3), Precedence::Comma);
                lemma_chain_same(t, tokens, tokens.pos() + 4, Precedence::Comma);
            }
        }
    }
    let (t, first) = var_definition(t)?;
    definitely_after(tokens, ContextType::VarDefinition, var_definitions_rest(t, ty, first))
}

/// Parses the variables of a variable statement whose type was read already.
pub fn typed_var_definition_statement<'s>(tokens: TokenList<'s>, ty: Type<'s>) -> (r: ParseResult<'s, VarDefinitionStatement<'s>>)
    requires
        tokens.wf(),
    ensures
        r matches Ok((rest, v)) ==> v.tokens() == ty.tokens() + tokens.tokens_to(rest),
        parsed(tokens, r, true),
    decreases tokens.remaining(), 1nat,
{
    let (t, first) = var_definition(tokens)?;
    definitely_after(tokens, ContextType::VarDefinition, var_definitions_rest(t, ty, first))
}

/// The variables after the first `,` of a variable statement, separated by commas.
fn var_definition_list<'s>(t: TokenList<'s>) -> (r: ParseResult<'s, SeparatedListTrailing0<'s, VarDeclaration<'s>>>)
    requires
        t.wf(),
    ensures
        parsed(t, r, false),
        r matches Ok((rest, v)) ==> (match v {
            Some(l) => var_declaration_trailing_list_tokens(l),
            None => Seq::empty(),
        }) == t.tokens_to(rest),
    decreases t.remaining(), 1nat,
{
    let ghost f = |v: VarDeclaration<'s>| v.tokens();
    let parse_definition = |x: TokenList<'s>| -> (r: ParseResult<'s, VarDeclaration<'s>>)
        requires
            t.reaches(x),
        ensures
            parsed(x, r, true),
            r matches Ok((rest, v)) ==> v.tokens() == x.tokens_to(rest),
        {
            var_definition(x)
        };
    let separator = |x: TokenList<'s>| -> (r: ParseResult<'s, &'s Token<'s>>)
        requires
            t.reaches(x),
        ensures
            parsed(x, r, true),
            r matches Ok((rest, v)) ==> seq![*v] == x.tokens_to(rest),
        {
            terminal(x, TerminalToken::Comma)
        };
    let r = separated_list_trailing0(
        t,
        parse_definition,
        separator,
        Ghost(f),
    );
    proof {
        if let Ok((_, Some(l))) = &r {
            lemma_var_declaration_pairs_tokens(l.items@, f);
        }
    }
    r
}

/// Puts a definition and the `,` after it in front of a list of definitions.
fn prepend_definition<'s>(
    first: VarDeclaration<'s>,
    comma: &'s Token<'s>,
    list: SeparatedListTrailing1<'s, VarDeclaration<'s>>,
) -> (r: SeparatedListTrailing1<'s, VarDeclaration<'s>>)
    ensures
        var_declaration_trailing_list_tokens(r) == first.tokens() + seq![*comma] + var_declaration_trailing_list_tokens(list),
{
    let mut list = list;
    let ghost old_items = list.items@;
    proof {
        lemma_var_declaration_pairs_prepend(list.items@, first, comma);
    }
    list.items.insert(0, (first, comma));
    assert(list.items@ =~= seq![(first, comma)] + old_items);
    list
}

/// The variables after the first of a variable statement, each after a `,`.
#[verifier::rlimit(40)]
fn var_definitions_rest<'s>(tokens: TokenList<'s>, ty: Type<'s>, first: VarDeclaration<'s>) -> (r: ParseResult<
    's,
    VarDefinitionStatement<'s>,
>)
    requires
        tokens.wf(),
    ensures
        parsed(tokens, r, false),
        r matches Ok((rest, v)) ==> v.tokens() == ty.tokens() + first.tokens() + tokens.tokens_to(rest),
        !terminal_at(tokens, tokens.pos(), TerminalToken::Comma) ==> (r matches Ok((rest, _)) && rest == tokens),
    decreases tokens.remaining(), 0nat,
{
    let (t, first_comma) = opt(tokens, terminal(tokens, TerminalToken::Comma))?;
    match first_comma {
        Some(first_comma) => {
            let (t, rest) = var_definition_list(t)?;
            let definitions = match rest {
                Some(list) => prepend_definition(first, first_comma, list),
                None => SeparatedListTrailing1 { items: Vec::new(), last_item: Box::new(first), trailing: Some(first_comma) },
            };
            Ok((t, VarDefinitionStatement { type_: ty, definitions }))
        },
        None => Ok(
            (
                t,
                VarDefinitionStatement {
                    type_: ty,
                    definitions: SeparatedListTrailing1 { items: Vec::new(), last_item: Box::new(first), trailing: None },
                },
            ),
        ),
    }
}

/// Parses a `thread` statement: `thread` and a call.
pub fn thread_statement<'s>(tokens: TokenList<'s>) -> (r: ParseResult<'s, ThreadStatement<'s>>)
    requires
        tokens.wf(),
    ensures
        r matches Ok((rest, v)) ==> v.tokens() == tokens.tokens_to(rest),
        commits_at(tokens, r, TerminalToken::Thread),
        parsed(tokens, r, true),
        r is Ok ==> terminal_at(tokens, tokens.pos(), TerminalToken::Thread),
        !terminal_at(tokens, tokens.pos(), TerminalToken::Thread) ==> (r matches Err(e) && !e.is_fatal && e.ty
            == ParseErrorType::ExpectedTerminal(TerminalToken::Thread) && e.token_index == tokens.pos()),
        terminal_at(tokens, tokens.pos(), TerminalToken::Thread) && simple_chain(tokens.at(tokens.pos() + 1), Precedence::Lowest)
            ==> (r matches Ok((rest, _)) && rest.pos() == chain_stop(tokens, tokens.pos() + 2, Precedence::Lowest)),
    decreases tokens.remaining(), 0nat,
{
    proof {
        if terminal_at(tokens, tokens.pos(), TerminalToken::Thread) {
            tokens.lemma_at(tokens.pos() + 1);
        }
    }
    let (t, keyword) = terminal(tokens, TerminalToken::Thread)?;
    proof {
        if t.pos() < t.items().len() {
            lemma_simple_chain_same(t, tokens.at(tokens.pos() + 1), Precedence::Lowest);
            lemma_chain_same(tokens.at(tokens.pos() + 1), tokens, tokens.pos() + 2, Precedence::Lowest);
        }
    }
    definitely_after(tokens, ContextType::ThreadStatement, thread_statement_rest(t, keyword))
}

/// The value of a `thread` statement, after `thread`.
fn thread_statement_rest<'s>(tokens: TokenList<'s>, keyword: &'s Token<'s>) -> (r: ParseResult<'s, ThreadStatement<'s>>)
    requires
        tokens.wf(),
    ensures
        r matches Ok((rest, v)) ==> v.tokens() == seq![*keyword] + tokens.tokens_to(rest),
        parsed(tokens, r, false),
        simple_chain(tokens, Precedence::Lowest) ==> (r matches Ok((rest, _)) && rest.pos() == chain_stop(
            tokens,
            tokens.pos() + 1,
            Precedence::Lowest,
        )),
    decreases tokens.remaining(), 9nat,
{
    let (t, value) = expression(tokens, Precedence::Lowest)?;
    Ok((t, ThreadStatement { thread: keyword, value }))
}

/// Parses a `delaythread` statement: `delaythread`, a duration in parentheses and a call.
pub fn delay_thread_statement<'s>(tokens: TokenList<'s>) -> (r: ParseResult<'s, DelayThreadStatement<'s>>)
    requires
        tokens.wf(),
    ensures
        r matches Ok((rest, v)) ==> v.tokens() == tokens.tokens_to(rest),
        commits_at(tokens, r, TerminalToken::DelayThread),
        parsed(tokens, r, true),
        r is Ok ==> terminal_at(tokens, tokens.pos(), TerminalToken::DelayThread),
        !terminal_at(tokens, tokens.pos(), TerminalToken::DelayThread) ==> (r matches Err(e) && !e.is_fatal && e.ty
            == ParseErrorType::ExpectedTerminal(TerminalToken::DelayThread) && e.token_index == tokens.pos()),
    decreases tokens.remaining(), 0nat,
{
    let (t, keyword) = terminal(tokens, TerminalToken::DelayThread)?;
    definitely_after(tokens, ContextType::DelayThreadStatement, delay_thread_statement_rest(t, keyword))
}

/// The duration and value of a `delaythread` statement, after `delaythread`.
fn delay_thread_statement_rest<'s>(tokens: TokenList<'s>, keyword: &'s Token<'s>) -> (r: ParseResult<'s, DelayThreadStatement<'s>>)
    requires
        tokens.wf(),
    ensures
        r matches Ok((rest, v)) ==> v.tokens() == seq![*keyword] + tokens.tokens_to(rest),
        parsed(tokens, r, false),
    decreases tokens.remaining(), 1nat,
{
    let (t, (open, duration, close)) = condition(tokens, ContextType::DelayThreadStatement)?;
    let (t, value) = expression(t, Precedence::Lowest)?;
    Ok((t, DelayThreadStatement { delay_thread: keyword, open, duration, close, value }))
}

/// Parses a `waitthread` statement: `waitthread` and a call.
pub fn wait_thread_statement<'s>(tokens: TokenList<'s>) -> (r: ParseResult<'s, WaitThreadStatement<'s>>)
    requires
        tokens.wf(),
    ensures
        r matches Ok((rest, v)) ==> v.tokens() == tokens.tokens_to(rest),
        commits_at(tokens, r, TerminalToken::WaitThread),
        parsed(tokens, r, true),
        r is Ok ==> terminal_at(tokens, tokens.pos(), TerminalToken::WaitThread),
        !terminal_at(tokens, tokens.pos(), TerminalToken::WaitThread) ==> (r matches Err(e) && !e.is_fatal && e.ty
            == ParseErrorType::ExpectedTerminal(TerminalToken::WaitThread) && e.token_index == tokens.pos()),
        terminal_at(tokens, tokens.pos(), TerminalToken::WaitThread) && simple_chain(tokens.at(tokens.pos() + 1), Precedence::Lowest)
            ==> (r matches Ok((rest, _)) && rest.pos() == chain_stop(tokens, tokens.pos() + 2, Precedence::Lowest)),
    decreases tokens.remaining(), 0nat,
{
    proof {
        if terminal_at(tokens, tokens.pos(), TerminalToken::WaitThread) {
            tokens.lemma_at(tokens.pos() + 1);
        }
    }
    let (t, keyword) = terminal(tokens, TerminalToken::WaitThread)?;
    proof {
        if t.pos() < t.items().len() {
            lemma_simple_chain_same(t, tokens.at(tokens.pos() + 1), Precedence::Lowest);
            lemma_chain_same(tokens.at(tokens.pos() + 1), tokens, tokens.pos() + 2, Precedence::Lowest);
        }
    }
    definitely_after(tokens, ContextType::WaitThreadStatement, wait_thread_statement_rest(t, keyword))
}

/// The value of a `waitthread` statement, after `waitthread`.
fn wait_thread_statement_rest<'s>(tokens: TokenList<'s>, keyword: &'s Token<'s>) -> (r: ParseResult<'s, WaitThreadStatement<'s>>)
    requires
        tokens.wf(),
    ensures
        r matches Ok((rest, v)) ==> v.tokens() == seq![*keyword] + tokens.tokens_to(rest),
        parsed(tokens, r, false),
        simple_chain(tokens, Precedence::Lowest) ==> (r matches Ok((rest, _)) && rest.pos() == chain_stop(
            tokens,
            tokens.pos() + 1,
            Precedence::Lowest,
        )),
    decreases tokens.remaining(), 9nat,
{
    let (t, value) = expression(tokens, Precedence::Lowest)?;
    Ok((t, WaitThreadStatement { wait_thread: keyword, value }))
}

/// Parses a `wait` statement: `wait` and a duration.
pub fn wait_statement<'s>(tokens: TokenList<'s>) -> (r: ParseResult<'s, WaitStatement<'s>>)
    requires
        tokens.wf(),
    ensures
        r matches Ok((rest, v)) ==> v.tokens() == tokens.tokens_to(rest),
        commits_at(tokens, r, TerminalToken::Wait),
        parsed(tokens, r, true),
        r is Ok ==> terminal_at(tokens, tokens.pos(), TerminalToken::Wait),
        !terminal_at(tokens, tokens.pos(), TerminalToken::Wait) ==> (r matches Err(e) && !e.is_fatal && e.ty
            == ParseErrorType::ExpectedTerminal(TerminalToken::Wait) && e.token_index == tokens.pos()),
        terminal_at(tokens, tokens.pos(), TerminalToken::Wait) && simple_chain(tokens.at(tokens.pos() + 1), Precedence::Lowest)
            ==> (r matches Ok((rest, _)) && rest.pos() == chain_stop(tokens, tokens.pos() + 2, Precedence::Lowest)),
    decreases tokens.remaining(), 0nat,
{
    proof {
        if terminal_at(tokens, tokens.pos(), TerminalToken::Wait) {
            tokens.lemma_at(tokens.pos() + 1);
        }
    }
    let (t, keyword) = terminal(tokens, TerminalToken::Wait)?;
    proof {
        if t.pos() < t.items().len() {
            lemma_simple_chain_same(t, tokens.at(tokens.pos() + 1), Precedence::Lowest);
            lemma_chain_same(tokens.at(tokens.pos() + 1), tokens, tokens.pos() + 2, Precedence::Lowest);
        }
    }
    definitely_after(tokens, ContextType::WaitStatement, wait_statement_rest(t, keyword))
}

/// The duration of a `wait` statement, after `wait`.
fn wait_statement_rest<'s>(tokens: TokenList<'s>, keyword: &'s Token<'s>) -> (r: ParseResult<'s, WaitStatement<'s>>)
    requires
        tokens.wf(),
    ensures
        r matches Ok((rest, v)) ==> v.tokens() == seq![*keyword] + tokens.tokens_to(rest),
        parsed(tokens, r, false),
        simple_chain(tokens, Precedence::Lowest) ==> (r matches Ok((rest, _)) && rest.pos() == chain_stop(
            tokens,
            tokens.pos() + 1,
            Precedence::Lowest,
        )),
    decreases tokens.remaining(), 9nat,
{
    let (t, value) = expression(tokens, Precedence::Lowest)?;
    Ok((t, WaitStatement { wait: keyword, value }))
}

/// Parses a `struct` statement: `struct`, a name and the struct's body.
pub fn struct_declaration_statement<'s>(tokens: TokenList<'s>) -> (r: ParseResult<'s, StructDefinitionStatement<'s>>)
    requires
        tokens.wf(),
    ensures
        r matches Ok((rest, v)) ==> v.tokens() == tokens.tokens_to(rest),
        parsed(tokens, r, true),
        r is Ok ==> terminal_at(tokens, tokens.pos(), TerminalToken::Struct),
        !terminal_at(tokens, tokens.pos(), TerminalToken::Struct) ==> (r matches Err(e) && !e.is_fatal && e.ty
            == ParseErrorType::ExpectedTerminal(TerminalToken::Struct) && e.token_index == tokens.pos()),
        terminal_at(tokens, tokens.pos(), TerminalToken::Struct) && identifier_at(tokens.at(tokens.pos() + 1))
            && empty_block_at(tokens.at(tokens.pos() + 2)) ==> (r matches Ok((rest, _)) && rest.pos() == tokens.pos() + 4),
    decreases tokens.remaining(), 0nat,
{
    proof {
        if terminal_at(tokens, tokens.pos(), TerminalToken::Struct) {
            tokens.lemma_at(tokens.pos() + 1);
            if tokens.pos() + 2 <= tokens.items().len() {
                tokens.lemma_at(tokens.pos() + 2);
            }
        }
    }
    let (t, keyword) = terminal(tokens, TerminalToken::Struct)?;
    proof {
        if t.pos() + 1 <= t.items().len() {
            t.lemma_at(t.pos());
            t.lemma_at(t.pos() + 1);
        }
    }
    definitely_after(tokens, ContextType::StructDefinition, struct_declaration_statement_rest(t, keyword))
}

/// The name and body of a `struct` statement, after `struct`.
fn struct_declaration_statement_rest<'s>(tokens: TokenList<'s>, keyword: &'s Token<'s>) -> (r: ParseResult<'s, StructDefinitionStatement<'s>>)
    requires
        tokens.wf(),
    ensures
        r matches Ok((rest, v)) ==> v.tokens() == seq![*keyword] + tokens.tokens_to(rest),
        parsed(tokens, r, false),
        identifier_at(tokens) && empty_block_at(tokens.at(tokens.pos() + 1)) ==> (r matches Ok((rest, _))
            && rest.pos() == tokens.pos() + 3),
    decreases tokens.remaining(), 0nat,
{
    let (t, name) = identifier(tokens)?;
    proof {
        tokens.lemma_at(tokens.pos() + 1);
    }
    let (t, definition) = struct_definition(t)?;
    Ok((t, StructDefinitionStatement { struct_: keyword, name, definition }))
}

/// Parses a `typedef` statement: `typedef`, a name and a type.
#[verifier::rlimit(40)]
pub fn typedef_statement<'s>(tokens: TokenList<'s>) -> (r: ParseResult<'s, TypeDefinitionStatement<'s>>)
    requires
        tokens.wf(),
    ensures
        r matches Ok((rest, v)) ==> v.tokens() == tokens.tokens_to(rest),
        commits_at(tokens, r, TerminalToken::Typedef),
        parsed(tokens, r, true),
        r is Ok ==> terminal_at(tokens, tokens.pos(), TerminalToken::Typedef),
        !terminal_at(tokens, tokens.pos(), TerminalToken::Typedef) ==> (r matches Err(e) && !e.is_fatal && e.ty
            == ParseErrorType::ExpectedTerminal(TerminalToken::Typedef) && e.token_index == tokens.pos()),
        terminal_at(tokens, tokens.pos(), TerminalToken::Typedef) && !identifier_at(tokens.at(tokens.pos() + 1))
            ==> (r matches Err(e) && e.is_fatal && e.ty == ParseErrorType::ExpectedIdentifier && e.token_index
            == tokens.pos() + 1),
        terminal_at(tokens, tokens.pos(), TerminalToken::Typedef) && identifier_at(tokens.at(tokens.pos() + 1))
            && !type_start_at(tokens.at(tokens.pos() + 2)) ==> (r matches Err(e) && e.is_fatal && e.ty
            == ParseErrorType::ExpectedType && e.token_index == tokens.pos() + 2),
        terminal_at(tokens, tokens.pos(), TerminalToken::Typedef) && identifier_at(tokens.at(tokens.pos() + 1))
            && identifier_at(tokens.at(tokens.pos() + 2)) && !modifier_start(tokens.at(tokens.pos() + 3)) ==> (r matches Ok(
            (rest, _),
        ) && rest.pos() == tokens.pos() + 3),
    decreases tokens.remaining(), 0nat,
{
    let (t, keyword) = terminal(tokens, TerminalToken::Typedef)?;
    proof {
        tokens.lemma_at(tokens.pos() + 1);
        if identifier_at(t) {
            tokens.lemma_at(tokens.pos() + 2);
            t.lemma_at(t.pos() + 1);
            if identifier_at(tokens.at(tokens.pos() + 2)) {
                tokens.lemma_at(tokens.pos() + 3);
                t.lemma_at(t.pos() + 2);
            }
        }
    }
    definitely_after(tokens, ContextType::TypeDefinition, typedef_statement_rest(t, keyword))
}

/// The name and type of a `typedef` statement, after `typedef`.
fn typedef_statement_rest<'s>(tokens: TokenList<'s>, keyword: &'s Token<'s>) -> (r: ParseResult<'s, TypeDefinitionStatement<'s>>)
    requires
        tokens.wf(),
    ensures
        r matches Ok((rest, v)) ==> v.tokens() == seq![*keyword] + tokens.tokens_to(rest),
        parsed(tokens, r, false),
        !identifier_at(tokens) ==> r == Err::<(TokenList<'s>, TypeDefinitionStatement<'s>), ParseError>(
            error_at(ParseErrorType::ExpectedIdentifier, tokens.pos() as int),
        ),
        identifier_at(tokens) && !type_start_at(tokens.at(tokens.pos() + 1)) ==> r == Err::<
            (TokenList<'s>, TypeDefinitionStatement<'s>),
            ParseError,
        >(error_at(ParseErrorType::ExpectedType, tokens.pos() + 1)),
        identifier_at(tokens) && identifier_at(tokens.at(tokens.pos() + 1)) && !modifier_start(
            tokens.at(tokens.pos() + 2),
        ) ==> (r matches Ok((rest, _)) && rest.pos() == tokens.pos() + 2),
    decreases tokens.remaining(), 0nat,
{
    let (t, name) = identifier(tokens)?;
    proof {
        tokens.lemma_at(tokens.pos() + 1);
        if identifier_at(tokens.at(tokens.pos() + 1)) {
            tokens.lemma_at(tokens.pos() + 2);
            t.lemma_at(t.pos() + 1);
        }
    }
    let (t, type_) = type_(t)?;
    Ok((t, TypeDefinitionStatement { typedef: keyword, name, type_ }))
}

/// Parses a `global` statement: `global` and a global definition.
pub fn global_statement<'s>(tokens: TokenList<'s>) -> (r: ParseResult<'s, GlobalStatement<'s>>)
    requires
        tokens.wf(),
    ensures
        r matches Ok((rest, v)) ==> v.tokens() == tokens.tokens_to(rest),
        commits_at(tokens, r, TerminalToken::Global),
        parsed(tokens, r, true),
        r is Ok ==> terminal_at(tokens, tokens.pos(), TerminalToken::Global),
        !terminal_at(tokens, tokens.pos(), TerminalToken::Global) ==> (r matches Err(e) && !e.is_fatal && e.ty
            == ParseErrorType::ExpectedTerminal(TerminalToken::Global) && e.token_index == tokens.pos()),
        global_function_at(tokens) ==> (r matches Ok((rest, _)) && rest.pos() == tokens.pos() + 3),
    decreases tokens.remaining(), 0nat,
{
    let (t, keyword) = terminal(tokens, TerminalToken::Global)?;
    proof {
        if global_function_at(tokens) {
            tokens.lemma_at(tokens.pos() + 2);
            t.lemma_at(t.pos() + 1);
        }
    }
    definitely_after(tokens, ContextType::GlobalStatement, global_statement_rest(t, keyword))
}

/// The definition of a `global` statement, after `global`.
fn global_statement_rest<'s>(tokens: TokenList<'s>, keyword: &'s Token<'s>) -> (r: ParseResult<'s, GlobalStatement<'s>>)
    requires
        tokens.wf(),
    ensures
        r matches Ok((rest, v)) ==> v.tokens() == seq![*keyword] + tokens.tokens_to(rest),
        parsed(tokens, r, false),
        terminal_at(tokens, tokens.pos(), TerminalToken::Function) && identifier_at(tokens.at(tokens.pos() + 1)) ==> (
        r matches Ok((rest, _)) && rest.pos() == tokens.pos() + 2),
    decreases tokens.remaining(), 7nat,
{
    let (t, definition) = global_definition(tokens)?;
    Ok((t, GlobalStatement { global: keyword, definition }))
}

/// Parses `globalize_all_functions`.
pub fn globalize_all_functions_statement<'s>(tokens: TokenList<'s>) -> (r: ParseResult<'s, GlobalizeAllFunctionsStatement<'s>>)
    requires
        tokens.wf(),
    ensures
        r matches Ok((rest, v)) ==> v.tokens() == tokens.tokens_to(rest),
        commits_at(tokens, r, TerminalToken::GlobalizeAllFunctions),
        match r {
            Ok((rest, v)) => {
                &&& terminal_at(tokens, tokens.pos(), TerminalToken::GlobalizeAllFunctions)
                &&& *v.globalize_all_functions == tokens.items()[tokens.pos()].token
                &&& moved_one(tokens, rest)
            },
            Err(e) => !terminal_at(tokens, tokens.pos(), TerminalToken::GlobalizeAllFunctions) && e == error_at(
                ParseErrorType::ExpectedTerminal(TerminalToken::GlobalizeAllFunctions),
                tokens.pos(),
            ),
        },
{
    let (t, globalize_all_functions) = terminal(tokens, TerminalToken::GlobalizeAllFunctions)?;
    Ok((t, GlobalizeAllFunctionsStatement { globalize_all_functions }))
}

/// Parses `untyped`.
pub fn untyped_statement<'s>(tokens: TokenList<'s>) -> (r: ParseResult<'s, UntypedStatement<'s>>)
    requires
        tokens.wf(),
    ensures
        r matches Ok((rest, v)) ==> v.tokens() == tokens.tokens_to(rest),
        commits_at(tokens, r, TerminalToken::Untyped),
        match r {
            Ok((rest, v)) => {
                &&& terminal_at(tokens, tokens.pos(), TerminalToken::Untyped)
                &&& *v.untyped == tokens.items()[tokens.pos()].token
                &&& moved_one(tokens, rest)
            },
            Err(e) => !terminal_at(tokens, tokens.pos(), TerminalToken::Untyped) && e == error_at(
                ParseErrorType::ExpectedTerminal(TerminalToken::Untyped),
                tokens.pos(),
            ),
        },
{
    let (t, untyped) = terminal(tokens, TerminalToken::Untyped)?;
    Ok((t, UntypedStatement { untyped }))
}

} // verus!
