use crate::ast::{BinaryOperator, PostfixOperator, PrefixOperator};
use crate::parser::error::ParseErrorType;
use crate::parser::token::{adjacent, error_at, moved_one, terminal, terminal2, terminal3, terminal_at};
use crate::parser::token_list::TokenList;
use crate::parser::ParseResult;
use crate::token::{TerminalToken, Token, TokenType};
use vstd::prelude::*;

verus! {

broadcast use crate::parser::token_list::group_tokens_to;

/// The terminal of a prefix operator.
pub open spec fn prefix_operator_terminal(op: PrefixOperator) -> TerminalToken {
    match op {
        PrefixOperator::Negate(_) => TerminalToken::Subtract,
        PrefixOperator::LogicalNot(_) => TerminalToken::Not,
        PrefixOperator::BitwiseNot(_) => TerminalToken::BitwiseNot,
        PrefixOperator::Typeof(_) => TerminalToken::Typeof,
        PrefixOperator::Clone(_) => TerminalToken::Clone,
        PrefixOperator::Delete(_) => TerminalToken::Delete,
        PrefixOperator::Increment(_) => TerminalToken::Increment,
        PrefixOperator::Decrement(_) => TerminalToken::Decrement,
    }
}

/// The token of a prefix operator.
pub open spec fn prefix_operator_token<'s>(op: PrefixOperator<'s>) -> Token<'s> {
    match op {
        PrefixOperator::Negate(t) => *t,
        PrefixOperator::LogicalNot(t) => *t,
        PrefixOperator::BitwiseNot(t) => *t,
        PrefixOperator::Typeof(t) => *t,
        PrefixOperator::Clone(t) => *t,
        PrefixOperator::Delete(t) => *t,
        PrefixOperator::Increment(t) => *t,
        PrefixOperator::Decrement(t) => *t,
    }
}

/// Whether `t` is the terminal of a prefix operator.
pub open spec fn is_prefix_terminal(t: TerminalToken) -> bool {
    t == TerminalToken::Subtract
        || t == TerminalToken::Not
        || t == TerminalToken::BitwiseNot
        || t == TerminalToken::Typeof
        || t == TerminalToken::Clone
        || t == TerminalToken::Delete
        || t == TerminalToken::Increment
        || t == TerminalToken::Decrement
}

/// Parses a prefix operator: `-`, `!`, `~`, `typeof`, `clone`, `delete`, `++` or `--`.
pub fn prefix_operator<'s>(tokens: TokenList<'s>) -> (r: ParseResult<'s, PrefixOperator<'s>>)
    requires
        tokens.wf(),
    ensures
        r matches Ok((rest, v)) ==> v.tokens() == tokens.tokens_to(rest),
        match r {
            Ok((rest, op)) => {
                &&& terminal_at(tokens, tokens.pos(), prefix_operator_terminal(op))
                &&& prefix_operator_token(op) == tokens.items()[tokens.pos()].token
                &&& moved_one(tokens, rest)
            },
            Err(e) => {
                &&& forall|t: TerminalToken| is_prefix_terminal(t) ==> !terminal_at(tokens, tokens.pos(), t)
                &&& e == error_at(ParseErrorType::ExpectedPrefixOperator, tokens.pos())
            },
        },
{
    if let Ok((rest, token)) = terminal(tokens, TerminalToken::Subtract) {
        return Ok((rest, PrefixOperator::Negate(token)));
    }
    if let Ok((rest, token)) = terminal(tokens, TerminalToken::Not) {
        return Ok((rest, PrefixOperator::LogicalNot(token)));
    }
    if let Ok((rest, token)) = terminal(tokens, TerminalToken::BitwiseNot) {
        return Ok((rest, PrefixOperator::BitwiseNot(token)));
    }
    if let Ok((rest, token)) = terminal(tokens, TerminalToken::Typeof) {
        return Ok((rest, PrefixOperator::Typeof(token)));
    }
    if let Ok((rest, token)) = terminal(tokens, TerminalToken::Clone) {
        return Ok((rest, PrefixOperator::Clone(token)));
    }
    if let Ok((rest, token)) = terminal(tokens, TerminalToken::Delete) {
        return Ok((rest, PrefixOperator::Delete(token)));
    }
    if let Ok((rest, token)) = terminal(tokens, TerminalToken::Increment) {
        return Ok((rest, PrefixOperator::Increment(token)));
    }
    if let Ok((rest, token)) = terminal(tokens, TerminalToken::Decrement) {
        return Ok((rest, PrefixOperator::Decrement(token)));
    }
    Err(tokens.error(ParseErrorType::ExpectedPrefixOperator))
}

/// The terminal of a postfix operator.
pub open spec fn postfix_operator_terminal(op: PostfixOperator) -> TerminalToken {
    match op {
        PostfixOperator::Increment(_) => TerminalToken::Increment,
        PostfixOperator::Decrement(_) => TerminalToken::Decrement,
    }
}

/// The token of a postfix operator.
pub open spec fn postfix_operator_token<'s>(op: PostfixOperator<'s>) -> Token<'s> {
    match op {
        PostfixOperator::Increment(t) => *t,
        PostfixOperator::Decrement(t) => *t,
    }
}

/// Whether `t` is the terminal of a postfix operator.
pub open spec fn is_postfix_terminal(t: TerminalToken) -> bool {
    t == TerminalToken::Increment
        || t == TerminalToken::Decrement
}

/// Parses a postfix operator: `++` or `--`.
pub fn postfix_operator<'s>(tokens: TokenList<'s>) -> (r: ParseResult<'s, PostfixOperator<'s>>)
    requires
        tokens.wf(),
    ensures
        r matches Ok((rest, v)) ==> v.tokens() == tokens.tokens_to(rest),
        match r {
            Ok((rest, op)) => {
                &&& terminal_at(tokens, tokens.pos(), postfix_operator_terminal(op))
                &&& postfix_operator_token(op) == tokens.items()[tokens.pos()].token
                &&& moved_one(tokens, rest)
            },
            Err(e) => {
                &&& forall|t: TerminalToken| is_postfix_terminal(t) ==> !terminal_at(tokens, tokens.pos(), t)
                &&& e == error_at(ParseErrorType::ExpectedPostfixOperator, tokens.pos())
            },
        },
{
    if let Ok((rest, token)) = terminal(tokens, TerminalToken::Increment) {
        return Ok((rest, PostfixOperator::Increment(token)));
    }
    if let Ok((rest, token)) = terminal(tokens, TerminalToken::Decrement) {
        return Ok((rest, PostfixOperator::Decrement(token)));
    }
    Err(tokens.error(ParseErrorType::ExpectedPostfixOperator))
}

/// The terminals at `i` and `i + 1` are `a` and `b`, written with nothing between them.
pub open spec fn compound2_at<'s>(tokens: TokenList<'s>, i: int, a: TerminalToken, b: TerminalToken) -> bool {
    terminal_at(tokens, i, a) && terminal_at(tokens, i + 1, b) && adjacent(tokens, i)
}

/// The terminals at `i`, `i + 1` and `i + 2` are `a`, `b` and `c`, written with nothing between them.
pub open spec fn compound3_at<'s>(tokens: TokenList<'s>, i: int, a: TerminalToken, b: TerminalToken, c: TerminalToken) -> bool {
    compound2_at(tokens, i, a, b) && terminal_at(tokens, i + 2, c) && adjacent(tokens, i + 1)
}

/// Whether `t` is the terminal of a binary operator written as a single token.
pub open spec fn is_binary_terminal(t: TerminalToken) -> bool {
    t == TerminalToken::Assign
        || t == TerminalToken::AddEqual
        || t == TerminalToken::SubtractEqual
        || t == TerminalToken::MultiplyEqual
        || t == TerminalToken::DivideEqual
        || t == TerminalToken::ModuloEqual
        || t == TerminalToken::Add
        || t == TerminalToken::Subtract
        || t == TerminalToken::Multiply
        || t == TerminalToken::Divide
        || t == TerminalToken::Modulo
        || t == TerminalToken::Equal
        || t == TerminalToken::NotEqual
        || t == TerminalToken::Less
        || t == TerminalToken::LessEqual
        || t == TerminalToken::Greater
        || t == TerminalToken::GreaterEqual
        || t == TerminalToken::ThreeWay
        || t == TerminalToken::LogicalAnd
        || t == TerminalToken::LogicalOr
        || t == TerminalToken::BitwiseAnd
        || t == TerminalToken::BitwiseOr
        || t == TerminalToken::BitwiseXor
        || t == TerminalToken::In
        || t == TerminalToken::Instanceof
}

/// The binary operator `op` is written at the position of `tokens`, and `rest` follows it.
pub open spec fn binary_operator_at<'s>(tokens: TokenList<'s>, op: BinaryOperator<'s>, rest: TokenList<'s>) -> bool {
    let i = tokens.pos();
    let items = tokens.items();
    &&& tokens.reaches(rest)
    &&& match op {
        BinaryOperator::AssignNewSlot(a, b) => {
            &&& compound2_at(tokens, i, TerminalToken::Less, TerminalToken::Subtract)
            &&& *a == items[i].token && *b == items[i + 1].token
            &&& rest.pos() == i + 2
        },
        BinaryOperator::ShiftLeft(a, b) => {
            &&& compound2_at(tokens, i, TerminalToken::Less, TerminalToken::Less)
            &&& *a == items[i].token && *b == items[i + 1].token
            &&& rest.pos() == i + 2
        },
        BinaryOperator::UnsignedShiftRight(a, b, c) => {
            &&& compound3_at(tokens, i, TerminalToken::Greater, TerminalToken::Greater, TerminalToken::Greater)
            &&& *a == items[i].token && *b == items[i + 1].token && *c == items[i + 2].token
            &&& rest.pos() == i + 3
        },
        BinaryOperator::ShiftRight(a, b) => {
            &&& compound2_at(tokens, i, TerminalToken::Greater, TerminalToken::Greater)
            &&& !compound3_at(tokens, i, TerminalToken::Greater, TerminalToken::Greater, TerminalToken::Greater)
            &&& *a == items[i].token && *b == items[i + 1].token
            &&& rest.pos() == i + 2
        },
        BinaryOperator::Less(a) => {
            &&& terminal_at(tokens, i, TerminalToken::Less)
            &&& !compound2_at(tokens, i, TerminalToken::Less, TerminalToken::Subtract)
            &&& !compound2_at(tokens, i, TerminalToken::Less, TerminalToken::Less)
            &&& *a == items[i].token
            &&& rest.pos() == i + 1
        },
        BinaryOperator::Greater(a) => {
            &&& terminal_at(tokens, i, TerminalToken::Greater)
            &&& !compound2_at(tokens, i, TerminalToken::Greater, TerminalToken::Greater)
            &&& *a == items[i].token
            &&& rest.pos() == i + 1
        },
        BinaryOperator::Assign(a) => terminal_at(tokens, i, TerminalToken::Assign) && *a == items[i].token && rest.pos() == i + 1,
        BinaryOperator::AssignAdd(a) => terminal_at(tokens, i, TerminalToken::AddEqual) && *a == items[i].token && rest.pos() == i + 1,
        BinaryOperator::AssignSubtract(a) => terminal_at(tokens, i, TerminalToken::SubtractEqual) && *a == items[i].token && rest.pos() == i + 1,
        BinaryOperator::AssignMultiply(a) => terminal_at(tokens, i, TerminalToken::MultiplyEqual) && *a == items[i].token && rest.pos() == i + 1,
        BinaryOperator::AssignDivide(a) => terminal_at(tokens, i, TerminalToken::DivideEqual) && *a == items[i].token && rest.pos() == i + 1,
        BinaryOperator::AssignModulo(a) => terminal_at(tokens, i, TerminalToken::ModuloEqual) && *a == items[i].token && rest.pos() == i + 1,
        BinaryOperator::Add(a) => terminal_at(tokens, i, TerminalToken::Add) && *a == items[i].token && rest.pos() == i + 1,
        BinaryOperator::Subtract(a) => terminal_at(tokens, i, TerminalToken::Subtract) && *a == items[i].token && rest.pos() == i + 1,
        BinaryOperator::Multiply(a) => terminal_at(tokens, i, TerminalToken::Multiply) && *a == items[i].token && rest.pos() == i + 1,
        BinaryOperator::Divide(a) => terminal_at(tokens, i, TerminalToken::Divide) && *a == items[i].token && rest.pos() == i + 1,
        BinaryOperator::Modulo(a) => terminal_at(tokens, i, TerminalToken::Modulo) && *a == items[i].token && rest.pos() == i + 1,
        BinaryOperator::Equal(a) => terminal_at(tokens, i, TerminalToken::Equal) && *a == items[i].token && rest.pos() == i + 1,
        BinaryOperator::NotEqual(a) => terminal_at(tokens, i, TerminalToken::NotEqual) && *a == items[i].token && rest.pos() == i + 1,
        BinaryOperator::LessEqual(a) => terminal_at(tokens, i, TerminalToken::LessEqual) && *a == items[i].token && rest.pos() == i + 1,
        BinaryOperator::GreaterEqual(a) => terminal_at(tokens, i, TerminalToken::GreaterEqual) && *a == items[i].token && rest.pos() == i + 1,
        BinaryOperator::ThreeWay(a) => terminal_at(tokens, i, TerminalToken::ThreeWay) && *a == items[i].token && rest.pos() == i + 1,
        BinaryOperator::LogicalAnd(a) => terminal_at(tokens, i, TerminalToken::LogicalAnd) && *a == items[i].token && rest.pos() == i + 1,
        BinaryOperator::LogicalOr(a) => terminal_at(tokens, i, TerminalToken::LogicalOr) && *a == items[i].token && rest.pos() == i + 1,
        BinaryOperator::BitwiseAnd(a) => terminal_at(tokens, i, TerminalToken::BitwiseAnd) && *a == items[i].token && rest.pos() == i + 1,
        BinaryOperator::BitwiseOr(a) => terminal_at(tokens, i, TerminalToken::BitwiseOr) && *a == items[i].token && rest.pos() == i + 1,
        BinaryOperator::BitwiseXor(a) => terminal_at(tokens, i, TerminalToken::BitwiseXor) && *a == items[i].token && rest.pos() == i + 1,
        BinaryOperator::In(a) => terminal_at(tokens, i, TerminalToken::In) && *a == items[i].token && rest.pos() == i + 1,
        BinaryOperator::Instanceof(a) => terminal_at(tokens, i, TerminalToken::Instanceof) && *a == items[i].token && rest.pos() == i + 1,
    }
}

/// Parses a binary operator, trying the operators written as two or three tokens before those
/// written as one.
pub fn binary_operator<'s>(tokens: TokenList<'s>) -> (r: ParseResult<'s, BinaryOperator<'s>>)
    requires
        tokens.wf(),
    ensures
        r matches Ok((rest, v)) ==> v.tokens() == tokens.tokens_to(rest),
        match r {
            Ok((rest, op)) => binary_operator_at(tokens, op, rest),
            Err(e) => {
                &&& forall|t: TerminalToken| is_binary_terminal(t) ==> !terminal_at(tokens, tokens.pos(), t)
                &&& e == error_at(ParseErrorType::ExpectedBinaryOperator, tokens.pos())
            },
        },
{
    if let Ok((rest, (a, b))) = terminal2(tokens, TerminalToken::Less, TerminalToken::Subtract) {
        return Ok((rest, BinaryOperator::AssignNewSlot(a, b)));
    }
    if let Ok((rest, (a, b))) = terminal2(tokens, TerminalToken::Less, TerminalToken::Less) {
        return Ok((rest, BinaryOperator::ShiftLeft(a, b)));
    }
    if let Ok((rest, (a, b, c))) = terminal3(tokens, TerminalToken::Greater, TerminalToken::Greater, TerminalToken::Greater) {
        return Ok((rest, BinaryOperator::UnsignedShiftRight(a, b, c)));
    }
    if let Ok((rest, (a, b))) = terminal2(tokens, TerminalToken::Greater, TerminalToken::Greater) {
        return Ok((rest, BinaryOperator::ShiftRight(a, b)));
    }
    if let Ok((rest, token)) = terminal(tokens, TerminalToken::Assign) {
        return Ok((rest, BinaryOperator::Assign(token)));
    }
    if let Ok((rest, token)) = terminal(tokens, TerminalToken::AddEqual) {
        return Ok((rest, BinaryOperator::AssignAdd(token)));
    }
    if let Ok((rest, token)) = terminal(tokens, TerminalToken::SubtractEqual) {
        return Ok((rest, BinaryOperator::AssignSubtract(token)));
    }
    if let Ok((rest, token)) = terminal(tokens, TerminalToken::MultiplyEqual) {
        return Ok((rest, BinaryOperator::AssignMultiply(token)));
    }
    if let Ok((rest, token)) = terminal(tokens, TerminalToken::DivideEqual) {
        return Ok((rest, BinaryOperator::AssignDivide(token)));
    }
    if let Ok((rest, token)) = terminal(tokens, TerminalToken::ModuloEqual) {
        return Ok((rest, BinaryOperator::AssignModulo(token)));
    }
    if let Ok((rest, token)) = terminal(tokens, TerminalToken::Add) {
        return Ok((rest, BinaryOperator::Add(token)));
    }
    if let Ok((rest, token)) = terminal(tokens, TerminalToken::Subtract) {
        return Ok((rest, BinaryOperator::Subtract(token)));
    }
    if let Ok((rest, token)) = terminal(tokens, TerminalToken::Multiply) {
        return Ok((rest, BinaryOperator::Multiply(token)));
    }
    if let Ok((rest, token)) = terminal(tokens, TerminalToken::Divide) {
        return Ok((rest, BinaryOperator::Divide(token)));
    }
    if let Ok((rest, token)) = terminal(tokens, TerminalToken::Modulo) {
        return Ok((rest, BinaryOperator::Modulo(token)));
    }
    if let Ok((rest, token)) = terminal(tokens, TerminalToken::Equal) {
        return Ok((rest, BinaryOperator::Equal(token)));
    }
    if let Ok((rest, token)) = terminal(tokens, TerminalToken::NotEqual) {
        return Ok((rest, BinaryOperator::NotEqual(token)));
    }
    if let Ok((rest, token)) = terminal(tokens, TerminalToken::Less) {
        return Ok((rest, BinaryOperator::Less(token)));
    }
    if let Ok((rest, token)) = terminal(tokens, TerminalToken::LessEqual) {
        return Ok((rest, BinaryOperator::LessEqual(token)));
    }
    if let Ok((rest, token)) = terminal(tokens, TerminalToken::Greater) {
        return Ok((rest, BinaryOperator::Greater(token)));
    }
    if let Ok((rest, token)) = terminal(tokens, TerminalToken::GreaterEqual) {
        return Ok((rest, BinaryOperator::GreaterEqual(token)));
    }
    if let Ok((rest, token)) = terminal(tokens, TerminalToken::ThreeWay) {
        return Ok((rest, BinaryOperator::ThreeWay(token)));
    }
    if let Ok((rest, token)) = terminal(tokens, TerminalToken::LogicalAnd) {
        return Ok((rest, BinaryOperator::LogicalAnd(token)));
    }
    if let Ok((rest, token)) = terminal(tokens, TerminalToken::LogicalOr) {
        return Ok((rest, BinaryOperator::LogicalOr(token)));
    }
    if let Ok((rest, token)) = terminal(tokens, TerminalToken::BitwiseAnd) {
        return Ok((rest, BinaryOperator::BitwiseAnd(token)));
    }
    if let Ok((rest, token)) = terminal(tokens, TerminalToken::BitwiseOr) {
        return Ok((rest, BinaryOperator::BitwiseOr(token)));
    }
    if let Ok((rest, token)) = terminal(tokens, TerminalToken::BitwiseXor) {
        return Ok((rest, BinaryOperator::BitwiseXor(token)));
    }
    if let Ok((rest, token)) = terminal(tokens, TerminalToken::In) {
        return Ok((rest, BinaryOperator::In(token)));
    }
    if let Ok((rest, token)) = terminal(tokens, TerminalToken::Instanceof) {
        return Ok((rest, BinaryOperator::Instanceof(token)));
    }
    Err(tokens.error(ParseErrorType::ExpectedBinaryOperator))
}

/// A binary operator read at a position starts with the terminal of a binary operator, and any two
/// binary operators read at the same position have the same precedence.
#[verifier::rlimit(100)]
pub proof fn lemma_binary_operator_at_unique<'s>(
    tokens: TokenList<'s>,
    op1: BinaryOperator<'s>,
    rest1: TokenList<'s>,
    op2: BinaryOperator<'s>,
    rest2: TokenList<'s>,
)
    requires
        binary_operator_at(tokens, op1, rest1),
        binary_operator_at(tokens, op2, rest2),
    ensures
        op1.spec_precedence() == op2.spec_precedence(),
        rest1.pos() == rest2.pos(),
        exists|t: TerminalToken| is_binary_terminal(t) && #[trigger] terminal_at(tokens, tokens.pos(), t),
{
    let i = tokens.pos();
    let first = tokens.items()[i].token.ty;
    assert(first matches TokenType::Terminal(t) && is_binary_terminal(t) && terminal_at(tokens, i, t));
    let t = first->Terminal_0;
    assert(terminal_at(tokens, tokens.pos(), t));
}

/// A binary operator starts with none of `.`, `?`, `[`, `(`, `++`, `--` and `,`, and binds less
/// tightly than a prefix operator.
#[verifier::rlimit(100)]
pub proof fn lemma_binary_not_other<'s>(tokens: TokenList<'s>, op: BinaryOperator<'s>, rest: TokenList<'s>)
    requires
        binary_operator_at(tokens, op, rest),
    ensures
        !terminal_at(tokens, tokens.pos(), TerminalToken::Dot),
        !terminal_at(tokens, tokens.pos(), TerminalToken::Question),
        !terminal_at(tokens, tokens.pos(), TerminalToken::OpenSquare),
        !terminal_at(tokens, tokens.pos(), TerminalToken::OpenBracket),
        !terminal_at(tokens, tokens.pos(), TerminalToken::Increment),
        !terminal_at(tokens, tokens.pos(), TerminalToken::Decrement),
        !terminal_at(tokens, tokens.pos(), TerminalToken::Comma),
        op.spec_precedence().spec_level() < crate::ast::Precedence::Prefix.spec_level(),
        tokens.reaches(rest),
{
}

} // verus!
