use crate::ast::{
    ArrayExpression, ArrayValue, BinaryExpression, BinaryOperator, CallExpression, ClassExpression, CommaExpression,
    DelegateExpression, ExpectExpression, Expression, FunctionExpression, IndexExpression, LiteralExpression,
    MethodIdentifier, ParensExpression, PostfixExpression, PostfixOperator, Precedence, PrefixExpression, PrefixOperator,
    PropertyExpression, RootVarExpression, SeparatedList1, SeparatedListTrailing0, TableExpression, TableSlot,
    TernaryExpression, VarExpression, VectorExpression,
};
use crate::lexer::closer_of;
use crate::ast::tokens::{array_value_seq_tokens, opt_token, table_slot_seq_tokens, expression_list_tokens, expression_trailing_list_tokens, lemma_array_value_seq_tokens, lemma_expression_pairs_prepend, lemma_expression_pairs_tokens, lemma_table_slot_seq_tokens};
use crate::parser::array::array_value;
use crate::parser::class::class_definition;
use crate::parser::combinator::{in_span, opens_end, span_open};
use crate::parser::context::ContextType;
use crate::parser::error::{InternalErrorType, ParseError, ParseErrorType};
use crate::parser::function::function_definition;
use crate::parser::identifier::{identifier, identifier_at, method_identifier};
use crate::parser::list::{many_until, separated_list1, separated_list_trailing0};
use crate::parser::operator::{binary_operator, binary_operator_at, is_postfix_terminal, is_prefix_terminal, lemma_binary_not_other, lemma_binary_operator_at_unique, postfix_operator, postfix_operator_terminal, postfix_operator_token, prefix_operator, prefix_operator_terminal, prefix_operator_token};
use crate::parser::parse_result_ext::ParseResultExt;
use crate::parser::table::table_slot;
use crate::parser::token::{error_at, moved_one, terminal, terminal_at};
use crate::parser::token_list::TokenList;
use crate::parser::type_::{modifier_start, type_, type_start_at};
use crate::parser::{parsed, ParseResult};
use crate::token::{TerminalToken, Token, TokenType};
use vstd::prelude::*;

verus! {

broadcast use crate::parser::token_list::group_tokens_to;

/// The operator at the top of `e`, if any, binds more tightly than `precedence`: an expression
/// parsed at a precedence holds no looser operator outside parentheses at its top.
pub open spec fn binds_within(e: Expression, precedence: Precedence) -> bool {
    match e {
        Expression::Binary(b) => precedence.spec_level() < b.operator.spec_precedence().spec_level(),
        Expression::Ternary(_) => precedence.spec_level() <= Precedence::Ternary.spec_level(),
        Expression::Comma(_) => precedence.spec_level() < Precedence::Comma.spec_level(),
        Expression::Index(_) | Expression::Postfix(_) | Expression::Call(_) => precedence.spec_level()
            < Precedence::Postfix.spec_level(),
        Expression::Property(_) => precedence.spec_level() < Precedence::Property.spec_level(),
        _ => true,
    }
}

/// `e` is a value: an expression that does not start with another expression.
pub open spec fn is_value(e: Expression) -> bool {
    !(e is Binary || e is Ternary || e is Comma || e is Index || e is Postfix || e is Call || e is Property)
}

/// The value at the position of `tokens` is a literal, or a name that no type modifier and no
/// `function` follows, so that it is read as a literal or a variable.
pub open spec fn simple_operand<'s>(tokens: TokenList<'s>) -> bool {
    ||| tokens.pos() < tokens.items().len() && tokens.items()[tokens.pos()].token.ty is Literal
    ||| identifier_at(tokens) && !modifier_start(tokens.at(tokens.pos() + 1)) && !terminal_at(
        tokens,
        tokens.pos() + 1,
        TerminalToken::Function,
    )
}

/// The precedence of the binary or ternary operator at the top of `e`, whose right operand was
/// parsed at that precedence.
pub open spec fn infix_precedence(e: Expression) -> Option<Precedence> {
    match e {
        Expression::Binary(b) => Some(b.operator.spec_precedence()),
        Expression::Ternary(_) => Some(Precedence::Ternary),
        _ => None,
    }
}

/// An operator of the given level may take `left` as its left operand: where `left` is a binary
/// or ternary operation, its operator binds at least as tightly.
pub open spec fn operand_fits(left: Expression, level: int) -> bool {
    infix_precedence(left) matches Some(q) ==> level <= q.spec_level()
}

/// The operators in `e`, from its top down its left operands and through the operands of its
/// binary and ternary operators, are nested by precedence: a binary operator's right operand binds
/// more tightly than it, and its left operand at least as tightly (operators of a level group to
/// the left); the ternary operator's last value binds at least as tightly as it and its condition
/// more tightly (it groups to the right); and a property access, index, call or postfix operator
/// is not applied to a looser binary or ternary operation, nor to a prefix operation, which binds
/// less tightly than they do; and a prefix operator's operand holds no looser operator at its top.
pub open spec fn precedence_shaped(e: Expression) -> bool
    decreases e,
{
    match e {
        Expression::Binary(b) => {
            &&& precedence_shaped(*b.left)
            &&& precedence_shaped(*b.right)
            &&& binds_within(*b.right, b.operator.spec_precedence())
            &&& operand_fits(*b.left, b.operator.spec_precedence().spec_level())
        },
        Expression::Ternary(t) => {
            &&& precedence_shaped(*t.condition)
            &&& precedence_shaped(*t.true_value)
            &&& precedence_shaped(*t.false_value)
            &&& binds_within(*t.false_value, Precedence::Ternary)
            &&& operand_fits(*t.condition, Precedence::Ternary.spec_level() + 1)
        },
        Expression::Property(x) => precedence_shaped(*x.base) && operand_fits(*x.base, Precedence::Property.spec_level())
            && !(*x.base is Prefix),
        Expression::Index(x) => precedence_shaped(*x.base) && operand_fits(*x.base, Precedence::Postfix.spec_level())
            && !(*x.base is Prefix),
        Expression::Postfix(x) => precedence_shaped(*x.value) && operand_fits(*x.value, Precedence::Postfix.spec_level())
            && !(*x.value is Prefix),
        Expression::Prefix(x) => precedence_shaped(*x.value) && binds_within(*x.value, Precedence::Prefix),
        Expression::Call(x) => precedence_shaped(*x.function) && operand_fits(
            *x.function,
            Precedence::Postfix.spec_level(),
        ) && !(*x.function is Prefix),
        _ => true,
    }
}

/// The kind of the binary operator `op` agrees with its tokens: `+` for an addition, `<` and `-`
/// for a new slot, and so on.
pub open spec fn binary_kind_ok(op: BinaryOperator) -> bool {
    match op {
        BinaryOperator::AssignNewSlot(a, b) => a.ty == TokenType::Terminal(TerminalToken::Less) && b.ty == TokenType::Terminal(TerminalToken::Subtract),
        BinaryOperator::ShiftLeft(a, b) => a.ty == TokenType::Terminal(TerminalToken::Less) && b.ty == TokenType::Terminal(TerminalToken::Less),
        BinaryOperator::UnsignedShiftRight(a, b, c) => a.ty == TokenType::Terminal(TerminalToken::Greater) && b.ty == TokenType::Terminal(TerminalToken::Greater) && c.ty == TokenType::Terminal(TerminalToken::Greater),
        BinaryOperator::ShiftRight(a, b) => a.ty == TokenType::Terminal(TerminalToken::Greater) && b.ty == TokenType::Terminal(TerminalToken::Greater),
        BinaryOperator::Less(a) => a.ty == TokenType::Terminal(TerminalToken::Less),
        BinaryOperator::Greater(a) => a.ty == TokenType::Terminal(TerminalToken::Greater),
        BinaryOperator::Assign(a) => a.ty == TokenType::Terminal(TerminalToken::Assign),
        BinaryOperator::AssignAdd(a) => a.ty == TokenType::Terminal(TerminalToken::AddEqual),
        BinaryOperator::AssignSubtract(a) => a.ty == TokenType::Terminal(TerminalToken::SubtractEqual),
        BinaryOperator::AssignMultiply(a) => a.ty == TokenType::Terminal(TerminalToken::MultiplyEqual),
        BinaryOperator::AssignDivide(a) => a.ty == TokenType::Terminal(TerminalToken::DivideEqual),
        BinaryOperator::AssignModulo(a) => a.ty == TokenType::Terminal(TerminalToken::ModuloEqual),
        BinaryOperator::Add(a) => a.ty == TokenType::Terminal(TerminalToken::Add),
        BinaryOperator::Subtract(a) => a.ty == TokenType::Terminal(TerminalToken::Subtract),
        BinaryOperator::Multiply(a) => a.ty == TokenType::Terminal(TerminalToken::Multiply),
        BinaryOperator::Divide(a) => a.ty == TokenType::Terminal(TerminalToken::Divide),
        BinaryOperator::Modulo(a) => a.ty == TokenType::Terminal(TerminalToken::Modulo),
        BinaryOperator::Equal(a) => a.ty == TokenType::Terminal(TerminalToken::Equal),
        BinaryOperator::NotEqual(a) => a.ty == TokenType::Terminal(TerminalToken::NotEqual),
        BinaryOperator::LessEqual(a) => a.ty == TokenType::Terminal(TerminalToken::LessEqual),
        BinaryOperator::GreaterEqual(a) => a.ty == TokenType::Terminal(TerminalToken::GreaterEqual),
        BinaryOperator::ThreeWay(a) => a.ty == TokenType::Terminal(TerminalToken::ThreeWay),
        BinaryOperator::LogicalAnd(a) => a.ty == TokenType::Terminal(TerminalToken::LogicalAnd),
        BinaryOperator::LogicalOr(a) => a.ty == TokenType::Terminal(TerminalToken::LogicalOr),
        BinaryOperator::BitwiseAnd(a) => a.ty == TokenType::Terminal(TerminalToken::BitwiseAnd),
        BinaryOperator::BitwiseOr(a) => a.ty == TokenType::Terminal(TerminalToken::BitwiseOr),
        BinaryOperator::BitwiseXor(a) => a.ty == TokenType::Terminal(TerminalToken::BitwiseXor),
        BinaryOperator::In(a) => a.ty == TokenType::Terminal(TerminalToken::In),
        BinaryOperator::Instanceof(a) => a.ty == TokenType::Terminal(TerminalToken::Instanceof),
    }
}

/// The kind of a prefix operator agrees with its token.
pub open spec fn prefix_kind_ok(op: PrefixOperator) -> bool {
    prefix_operator_token(op).ty == TokenType::Terminal(prefix_operator_terminal(op))
}

/// The kind of a postfix operator agrees with its token.
pub open spec fn postfix_kind_ok(op: PostfixOperator) -> bool {
    postfix_operator_token(op).ty == TokenType::Terminal(postfix_operator_terminal(op))
}

/// Every binary, prefix and postfix operator in `e` is of the kind that its tokens spell, through
/// the operands of operators, the bases of property accesses, indexes and calls, the values in
/// parentheses and the values of vectors.
pub open spec fn operators_kept(e: Expression) -> bool
    decreases e,
{
    match e {
        Expression::Binary(b) => binary_kind_ok(b.operator) && operators_kept(*b.left) && operators_kept(*b.right),
        Expression::Prefix(p) => prefix_kind_ok(p.operator) && operators_kept(*p.value),
        Expression::Postfix(p) => postfix_kind_ok(p.operator) && operators_kept(*p.value),
        Expression::Ternary(t) => operators_kept(*t.condition) && operators_kept(*t.true_value) && operators_kept(
            *t.false_value,
        ),
        Expression::Property(x) => operators_kept(*x.base),
        Expression::Index(x) => operators_kept(*x.base) && operators_kept(*x.index),
        Expression::Call(x) => operators_kept(*x.function),
        Expression::Parens(x) => operators_kept(*x.value),
        Expression::Vector(v) => operators_kept(*v.x) && operators_kept(*v.y) && operators_kept(*v.z),
        _ => true,
    }
}

/// In an expression nested by precedence, as [`expression`] returns it, a call, an index, a
/// property access or a postfix operator never applies to a prefix operation outside parentheses:
/// `!f(x)` is read as `!(f(x))` and `-a.b` as `-(a.b)`, since a prefix operator reads its operand
/// with everything that binds more tightly; and the operand of a prefix operator is no binary,
/// ternary or comma operation outside parentheses: `-a + b` is read as `(-a) + b`.
pub proof fn lemma_prefix_takes_postfix_operand(e: Expression)
    requires
        precedence_shaped(e),
    ensures
        match e {
            Expression::Call(x) => !(*x.function is Prefix),
            Expression::Index(x) => !(*x.base is Prefix),
            Expression::Property(x) => !(*x.base is Prefix),
            Expression::Postfix(x) => !(*x.value is Prefix),
            Expression::Prefix(x) => !(*x.value is Binary) && !(*x.value is Ternary) && !(*x.value is Comma),
            _ => true,
        },
{
}

/// `e` is an `||` operation.
pub open spec fn is_logical_or(e: Expression) -> bool {
    e matches Expression::Binary(b) && b.operator is LogicalOr
}

/// In an expression nested by precedence, as [`expression`] returns it, an `&&` operation never
/// has an `||` operation outside parentheses as an operand: `a || b && c` is read as
/// `a || (b && c)`, and `a && b || c` as `(a && b) || c`.
pub proof fn lemma_or_not_under_and(e: Expression)
    requires
        precedence_shaped(e),
    ensures
        match e {
            Expression::Binary(b) => b.operator is LogicalAnd ==> !is_logical_or(*b.left) && !is_logical_or(*b.right),
            _ => true,
        },
{
    if let Expression::Binary(b) = e {
        crate::ast::operator::lemma_binary_precedence_table(b.operator);
        if let Expression::Binary(l) = *b.left {
            crate::ast::operator::lemma_binary_precedence_table(l.operator);
        }
        if let Expression::Binary(r) = *b.right {
            crate::ast::operator::lemma_binary_precedence_table(r.operator);
        }
    }
}

/// A `.` at the position of `tokens` starts a property access that binds more tightly than
/// `precedence`.
pub open spec fn dot_binds(tokens: TokenList, precedence: Precedence) -> bool {
    terminal_at(tokens, tokens.pos(), TerminalToken::Dot) && precedence.spec_level() < Precedence::Property.spec_level()
}

/// A `?` at the position of `tokens` starts a ternary operator that binds at least as tightly as
/// `precedence`.
pub open spec fn question_binds(tokens: TokenList, precedence: Precedence) -> bool {
    terminal_at(tokens, tokens.pos(), TerminalToken::Question) && precedence.spec_level() <= Precedence::Ternary.spec_level()
}

/// A binary operator at the position of `tokens` binds more tightly than `precedence`.
pub open spec fn binary_binds<'s>(tokens: TokenList<'s>, precedence: Precedence) -> bool {
    exists|op: BinaryOperator<'s>, rest: TokenList<'s>|
        #[trigger] binary_operator_at(tokens, op, rest) && precedence.spec_level() < op.spec_precedence().spec_level()
}

/// A `[`, `(`, or `++` or `--` not after a line break, at the position of `tokens` starts an
/// index, call or postfix operator that binds more tightly than `precedence`.
pub open spec fn postfix_binds(tokens: TokenList, precedence: Precedence) -> bool {
    &&& precedence.spec_level() < Precedence::Postfix.spec_level()
    &&& {
        ||| terminal_at(tokens, tokens.pos(), TerminalToken::OpenSquare)
        ||| terminal_at(tokens, tokens.pos(), TerminalToken::OpenBracket)
        ||| (!(0 < tokens.pos() && tokens.items()[tokens.pos() - 1].token.new_line is Some) && (terminal_at(
            tokens,
            tokens.pos(),
            TerminalToken::Increment,
        ) || terminal_at(tokens, tokens.pos(), TerminalToken::Decrement)))
    }
}

/// A `,` at the position of `tokens` binds more tightly than `precedence`.
pub open spec fn comma_binds(tokens: TokenList, precedence: Precedence) -> bool {
    terminal_at(tokens, tokens.pos(), TerminalToken::Comma) && precedence.spec_level() < Precedence::Comma.spec_level()
}

/// An operator that binds more tightly than `precedence` starts at the position of `tokens`, so
/// that an expression parsed at that precedence does not end there.
pub open spec fn starts_operator(tokens: TokenList, precedence: Precedence) -> bool {
    ||| dot_binds(tokens, precedence)
    ||| question_binds(tokens, precedence)
    ||| binary_binds(tokens, precedence)
    ||| postfix_binds(tokens, precedence)
    ||| comma_binds(tokens, precedence)
}

/// A binary operator written as one token at position `k` of `tokens` binds more tightly than
/// `precedence`.
pub open spec fn one_token_binary<'s>(tokens: TokenList<'s>, k: int, precedence: Precedence) -> bool {
    exists|op: BinaryOperator<'s>, rest: TokenList<'s>|
        #[trigger] binary_operator_at(tokens.at(k), op, rest) && rest.pos() == k + 1 && precedence.spec_level()
            < op.spec_precedence().spec_level()
}

/// Where an expression parsed at `precedence` ends, when an operand of it ends at position `k`
/// of `tokens`: it goes on over `.` and a name, and over a binary operator written as one token
/// that binds more tightly than `precedence` followed by an operand that is a literal or a name;
/// it ends at anything else.
pub open spec fn chain_stop<'s>(tokens: TokenList<'s>, k: int, precedence: Precedence) -> int
    decreases tokens.items().len() - k,
{
    if 0 <= k && k + 1 < tokens.items().len() {
        if terminal_at(tokens, k, TerminalToken::Dot) && tokens.items()[k + 1].token.ty is Identifier {
            chain_stop(tokens, k + 2, precedence)
        } else if one_token_binary(tokens, k, precedence) && simple_operand(tokens.at(k + 1)) {
            chain_stop(tokens, k + 2, precedence)
        } else {
            k
        }
    } else {
        k
    }
}

/// The tokens from the position of `tokens` on start with an expression made of literals and names
/// joined by property accesses and binary operators written as one token, which ends, at
/// `precedence`, where no operator that binds more tightly starts.
pub open spec fn simple_chain<'s>(tokens: TokenList<'s>, precedence: Precedence) -> bool {
    &&& simple_operand(tokens)
    &&& precedence.spec_level() < Precedence::Prefix.spec_level()
    &&& !starts_operator(tokens.at(chain_stop(tokens, tokens.pos() + 1, precedence)), precedence)
}

/// An operator that binds more tightly than a precedence binds more tightly than any looser one.
proof fn lemma_starts_operator_weaker<'s>(tokens: TokenList<'s>, p: Precedence, q: Precedence)
    requires
        p.spec_level() <= q.spec_level(),
        !starts_operator(tokens, p),
    ensures
        !starts_operator(tokens, q),
{
    if binary_binds(tokens, q) {
        let (op, rest) = choose|op: BinaryOperator<'s>, rest: TokenList<'s>|
            #[trigger] binary_operator_at(tokens, op, rest) && q.spec_level() < op.spec_precedence().spec_level();
        assert(binary_operator_at(tokens, op, rest) && p.spec_level() < op.spec_precedence().spec_level());
    }
}

/// The end of a chain is not before the position it starts at.
proof fn lemma_chain_stop_after<'s>(tokens: TokenList<'s>, k: int, p: Precedence)
    requires
        0 <= k,
    ensures
        k <= chain_stop(tokens, k, p),
        k <= tokens.items().len() ==> chain_stop(tokens, k, p) <= tokens.items().len(),
    decreases tokens.items().len() - k,
{
    if 0 <= k && k + 1 < tokens.items().len() {
        lemma_chain_stop_after(tokens, k + 2, p);
    }
}

/// A chain at a tighter precedence ends no later; where it ends sooner, a binary operator that
/// binds between the two precedences stands there, and the looser chain goes on from there.
proof fn lemma_chain_nest<'s>(tokens: TokenList<'s>, k: int, p: Precedence, q: Precedence)
    requires
        0 <= k,
        p.spec_level() <= q.spec_level(),
        tokens.items().len() < usize::MAX,
    ensures
        k <= chain_stop(tokens, k, q) <= chain_stop(tokens, k, p),
        chain_stop(tokens, chain_stop(tokens, k, q), p) == chain_stop(tokens, k, p),
        chain_stop(tokens, k, q) < chain_stop(tokens, k, p) ==> {
            let m = chain_stop(tokens, k, q);
            &&& one_token_binary(tokens, m, p)
            &&& !one_token_binary(tokens, m, q)
            &&& simple_operand(tokens.at(m + 1))
            &&& m + 1 < tokens.items().len()
        },
    decreases tokens.items().len() - k,
{
    lemma_chain_stop_after(tokens, k, q);
    lemma_chain_stop_after(tokens, k, p);
    if 0 <= k && k + 1 < tokens.items().len() {
        if terminal_at(tokens, k, TerminalToken::Dot) && tokens.items()[k + 1].token.ty is Identifier {
            lemma_chain_nest(tokens, k + 2, p, q);
        } else if one_token_binary(tokens, k, q) && simple_operand(tokens.at(k + 1)) {
            let (op, rest) = choose|op: BinaryOperator<'s>, rest: TokenList<'s>|
                #[trigger] binary_operator_at(tokens.at(k), op, rest) && rest.pos() == k + 1 && q.spec_level()
                    < op.spec_precedence().spec_level();
            assert(binary_operator_at(tokens.at(k), op, rest) && rest.pos() == k + 1 && p.spec_level()
                < op.spec_precedence().spec_level());
            assert(one_token_binary(tokens, k, p));
            lemma_chain_nest(tokens, k + 2, p, q);
        } else if one_token_binary(tokens, k, p) && simple_operand(tokens.at(k + 1)) {
            lemma_chain_stop_after(tokens, k + 2, p);
        }
    }
}

/// The end of a chain depends only on the tokens, the flavor and the position.
pub proof fn lemma_chain_same<'s>(t1: TokenList<'s>, t2: TokenList<'s>, k: int, p: Precedence)
    requires
        t1.items() == t2.items(),
        t1.spec_flavor() == t2.spec_flavor(),
        t1.items().len() < usize::MAX,
        0 <= k,
    ensures
        chain_stop(t1, k, p) == chain_stop(t2, k, p),
    decreases t1.items().len() - k,
{
    if 0 <= k && k + 1 < t1.items().len() {
        lemma_one_token_binary_same(t1, t2, k, p);
        t1.lemma_at(k + 1);
        t2.lemma_at(k + 1);
        lemma_simple_operand_same(t1.at(k + 1), t2.at(k + 1));
        lemma_chain_same(t1, t2, k + 2, p);
    }
}

/// Whether a binary operator written as one token stands at a position depends only on the tokens,
/// the flavor and the position.
proof fn lemma_one_token_binary_same<'s>(t1: TokenList<'s>, t2: TokenList<'s>, k: int, p: Precedence)
    requires
        t1.items() == t2.items(),
        t1.spec_flavor() == t2.spec_flavor(),
        t1.items().len() < usize::MAX,
        0 <= k < t1.items().len(),
    ensures
        one_token_binary(t1, k, p) == one_token_binary(t2, k, p),
{
    t1.lemma_at(k);
    t2.lemma_at(k);
    if one_token_binary(t1, k, p) {
        let (op, rest) = choose|op: BinaryOperator<'s>, rest: TokenList<'s>|
            #[trigger] binary_operator_at(t1.at(k), op, rest) && rest.pos() == k + 1 && p.spec_level()
                < op.spec_precedence().spec_level();
        assert(binary_operator_at(t2.at(k), op, rest));
    }
    if one_token_binary(t2, k, p) {
        let (op, rest) = choose|op: BinaryOperator<'s>, rest: TokenList<'s>|
            #[trigger] binary_operator_at(t2.at(k), op, rest) && rest.pos() == k + 1 && p.spec_level()
                < op.spec_precedence().spec_level();
        assert(binary_operator_at(t1.at(k), op, rest));
    }
}

/// Whether an operand is a literal or a name depends only on the tokens and the position.
proof fn lemma_simple_operand_same<'s>(t1: TokenList<'s>, t2: TokenList<'s>)
    requires
        t1.items() == t2.items(),
        t1.pos() == t2.pos(),
        t1.items().len() < usize::MAX,
        0 <= t1.pos() < t1.items().len(),
    ensures
        simple_operand(t1) == simple_operand(t2),
{
    t1.lemma_at(t1.pos() + 1);
    t2.lemma_at(t2.pos() + 1);
}

/// No operator starts at a `{`.
pub proof fn lemma_no_operator_at_brace<'s>(tokens: TokenList<'s>, p: Precedence)
    requires
        terminal_at(tokens, tokens.pos(), TerminalToken::OpenBrace),
    ensures
        !starts_operator(tokens, p),
{
    assert forall|op: BinaryOperator<'s>, rest: TokenList<'s>| !binary_operator_at(tokens, op, rest) by {}
}

/// No operator starts at the end of a list of tokens.
pub proof fn lemma_no_operator_at_end<'s>(tokens: TokenList<'s>, p: Precedence)
    requires
        tokens.pos() == tokens.items().len(),
    ensures
        !starts_operator(tokens, p),
{
    assert forall|op: BinaryOperator<'s>, rest: TokenList<'s>| !binary_operator_at(tokens, op, rest) by {}
}

/// Whether the tokens start a simple chain depends only on the tokens, the flavor and the
/// position.
pub proof fn lemma_simple_chain_same<'s>(t1: TokenList<'s>, t2: TokenList<'s>, p: Precedence)
    requires
        t1.items() == t2.items(),
        t1.pos() == t2.pos(),
        t1.spec_flavor() == t2.spec_flavor(),
        t1.items().len() < usize::MAX,
        0 <= t1.pos() < t1.items().len(),
    ensures
        simple_chain(t1, p) == simple_chain(t2, p),
        chain_stop(t1, t1.pos() + 1, p) == chain_stop(t2, t2.pos() + 1, p),
{
    lemma_simple_operand_same(t1, t2);
    lemma_chain_same(t1, t2, t1.pos() + 1, p);
    let s = chain_stop(t1, t1.pos() + 1, p);
    lemma_chain_stop_after(t1, t1.pos() + 1, p);
    if s <= t1.items().len() {
        t1.lemma_at(s);
        t2.lemma_at(s);
        lemma_starts_operator_same(t1.at(s), t2.at(s), p);
    }
}

/// Whether an operator starts depends only on the tokens and the position.
proof fn lemma_starts_operator_same<'s>(t1: TokenList<'s>, t2: TokenList<'s>, precedence: Precedence)
    requires
        t1.items() == t2.items(),
        t1.pos() == t2.pos(),
        t1.spec_flavor() == t2.spec_flavor(),
    ensures
        starts_operator(t1, precedence) == starts_operator(t2, precedence),
{
    if binary_binds(t1, precedence) {
        let (op, rest) = choose|op: BinaryOperator<'s>, rest: TokenList<'s>|
            #[trigger] binary_operator_at(t1, op, rest) && precedence.spec_level() < op.spec_precedence().spec_level();
        assert(binary_operator_at(t2, op, rest));
    }
    if binary_binds(t2, precedence) {
        let (op, rest) = choose|op: BinaryOperator<'s>, rest: TokenList<'s>|
            #[trigger] binary_operator_at(t2, op, rest) && precedence.spec_level() < op.spec_precedence().spec_level();
        assert(binary_operator_at(t1, op, rest));
    }
}

/// Parses an expression: a value followed by operators that bind more tightly than
/// `precedence`.
#[verifier::rlimit(40)]
pub fn expression<'s>(tokens: TokenList<'s>, precedence: Precedence) -> (r: ParseResult<'s, Box<Expression<'s>>>)
    requires
        tokens.wf(),
    ensures
        r matches Ok((rest, v)) ==> v.tokens() == tokens.tokens_to(rest),
        parsed(tokens, r, true),
        r matches Ok((_, e)) ==> binds_within(*e, precedence),
        r matches Ok((_, e)) ==> precedence_shaped(*e),
        r matches Ok((_, e)) ==> operators_kept(*e),
        r matches Ok((rest, _)) ==> !starts_operator(rest, precedence),
        simple_chain(tokens, precedence) ==> (r matches Ok((rest, _)) && rest.pos() == chain_stop(
            tokens,
            tokens.pos() + 1,
            precedence,
        )),
        !value_start(tokens) ==> r == Err::<(TokenList<'s>, Box<Expression<'s>>), ParseError>(
            error_at(ParseErrorType::ExpectedExpression, tokens.pos() as int),
        ),
        simple_operand(tokens) && !starts_operator(tokens.at(tokens.pos() + 1), precedence) ==> (r matches Ok(
            (rest, e),
        ) && (*e is Literal || *e is Var) && moved_one(tokens, rest)),
    decreases tokens.remaining(), 8nat,
{
    let (first, base) = value(tokens)?;
    let ghost sc = simple_chain(tokens, precedence);
    let ghost s = chain_stop(tokens, tokens.pos() + 1, precedence);
    let ghost single = simple_operand(tokens) && !starts_operator(tokens.at(tokens.pos() + 1), precedence);
    proof {
        if sc {
            lemma_chain_stop_after(tokens, tokens.pos() + 1, precedence);
        }
        if single {
            tokens.lemma_at(tokens.pos() + 1);
            lemma_starts_operator_same(first, tokens.at(tokens.pos() + 1), precedence);
        }
    }
    let mut cur = first;
    let mut value = base;
    loop
        invariant
            single == (simple_operand(tokens) && !starts_operator(tokens.at(tokens.pos() + 1), precedence)),
            single ==> cur == first && !starts_operator(cur, precedence) && (*value is Literal || *value is Var)
                && moved_one(tokens, cur),
            sc == simple_chain(tokens, precedence),
            s == chain_stop(tokens, tokens.pos() + 1, precedence),
            value_start(tokens),
            sc ==> chain_stop(tokens, cur.pos(), precedence) == s && cur.pos() <= s <= tokens.items().len(),
            tokens.wf(),
            tokens.reaches(cur),
            tokens.pos() < cur.pos(),
            binds_within(*value, precedence),
            (*value).tokens() == tokens.tokens_to(cur),
            precedence_shaped(*value),
            operators_kept(*value),
            *value is Prefix ==> !starts_operator(cur, Precedence::Prefix),
            infix_precedence(*value) matches Some(q) ==> !starts_operator(cur, q),
        decreases cur.remaining(),
    {
        proof {
            if sc {
                expression_step(tokens, cur, precedence, s);
            }
        }
        let (next, tail) = operator(cur, precedence).with_context_from(ContextType::Expression, tokens).maybe(cur)?;
        match tail {
            Some(tail) => {
                proof {
                    if let Some(q) = infix_precedence(*value) {
                        if tail_binds(tail, q) {
                            assert(starts_operator(cur, q));
                        }
                    }
                    if tail_binds(tail, Precedence::Prefix) {
                        assert(starts_operator(cur, Precedence::Prefix));
                    }
                    if sc {
                        lemma_chain_same(next, tokens, next.pos(), precedence);
                    }
                }
                cur = next;
                value = apply_operator(value, tail);
            },
            None => return Ok((next, value)),
        }
    }
}

/// What reading an operator at `cur`, inside a simple chain that ends at `s`, gives: where `cur`
/// is at the end, no operator starts there; else a property access or a binary operator with its
/// operand is read, which ends within the chain.
proof fn expression_step<'s>(tokens: TokenList<'s>, cur: TokenList<'s>, p: Precedence, s: int)
    requires
        simple_chain(tokens, p),
        s == chain_stop(tokens, tokens.pos() + 1, p),
        chain_stop(tokens, cur.pos(), p) == s,
        cur.pos() <= s <= tokens.items().len(),
        tokens.wf(),
        tokens.reaches(cur),
        tokens.pos() < cur.pos(),
    ensures
        cur.pos() == s ==> !starts_operator(cur, p),
        cur.pos() < s ==> operator_reads(cur, p, s, tokens),
{
    let k = cur.pos();
    tokens.lemma_at(k);
    if k == s {
        tokens.lemma_at(s);
        lemma_starts_operator_same(cur, tokens.at(s), p);
    } else {
        if terminal_at(tokens, k, TerminalToken::Dot) && tokens.items()[k + 1].token.ty is Identifier {
            assert(dot_binds(cur, p));
            lemma_chain_stop_after(tokens, k + 2, p);
        } else {
            let (op, rest) = choose|op: BinaryOperator<'s>, rest: TokenList<'s>|
                #[trigger] binary_operator_at(tokens.at(k), op, rest) && rest.pos() == k + 1 && p.spec_level()
                    < op.spec_precedence().spec_level();
            assert(binary_operator_at(cur, op, rest));
            lemma_binary_not_other(cur, op, rest);
            let q = op.spec_precedence();
            tokens.lemma_at(k + 1);
            lemma_simple_operand_same(rest, tokens.at(k + 1));
            lemma_chain_same(rest, tokens, k + 2, q);
            lemma_chain_nest(tokens, k + 2, p, q);
            let m = chain_stop(tokens, k + 2, q);
            lemma_chain_stop_after(tokens, k + 2, q);
            rest.lemma_at(m);
            tokens.lemma_at(m);
            lemma_starts_operator_same(rest.at(m), tokens.at(m), q);
            if m == s {
                lemma_starts_operator_weaker(tokens.at(s), p, q);
            } else {
                lemma_stop_not_start(tokens, m, p, q);
            }
            assert(simple_chain(rest, q));
            lemma_chain_same(cur, tokens, k + 2, q);
            assert(binary_succeeds(cur, p, op, rest, m));
        }
    }
}

/// A binary operator that binds more tightly than `p` but not than `q` stands at `m`, so no
/// operator that binds more tightly than `q` starts there.
proof fn lemma_stop_not_start<'s>(tokens: TokenList<'s>, m: int, p: Precedence, q: Precedence)
    requires
        one_token_binary(tokens, m, p),
        !one_token_binary(tokens, m, q),
        0 <= m < tokens.items().len() < usize::MAX,
    ensures
        !starts_operator(tokens.at(m), q),
{
    tokens.lemma_at(m);
    let (op, rest) = choose|op: BinaryOperator<'s>, rest: TokenList<'s>|
        #[trigger] binary_operator_at(tokens.at(m), op, rest) && rest.pos() == m + 1 && p.spec_level()
            < op.spec_precedence().spec_level();
    lemma_binary_not_other(tokens.at(m), op, rest);
    assert(!(q.spec_level() < op.spec_precedence().spec_level()));
    if binary_binds(tokens.at(m), q) {
        let (op2, rest2) = choose|op2: BinaryOperator<'s>, rest2: TokenList<'s>|
            #[trigger] binary_operator_at(tokens.at(m), op2, rest2) && q.spec_level()
                < op2.spec_precedence().spec_level();
        lemma_binary_operator_at_unique(tokens.at(m), op, rest, op2, rest2);
    }
}

/// The binary operator `op` at `cur`, followed at `rest` by a simple chain at its precedence that
/// ends at `m`, binds more tightly than `p`.
spec fn binary_succeeds<'s>(cur: TokenList<'s>, p: Precedence, op: BinaryOperator<'s>, rest: TokenList<'s>, m: int) -> bool {
    &&& binary_operator_at(cur, op, rest)
    &&& rest.pos() == cur.pos() + 1
    &&& p.spec_level() < op.spec_precedence().spec_level()
    &&& simple_chain(rest, op.spec_precedence())
    &&& chain_stop(cur, cur.pos() + 2, op.spec_precedence()) == m
}

/// At `cur`, inside a simple chain of `tokens` that ends at `s`, an operator is read that ends
/// within the chain: `.` and a name, or a binary operator and its operand.
spec fn operator_reads<'s>(cur: TokenList<'s>, p: Precedence, s: int, tokens: TokenList<'s>) -> bool {
    ||| dot_binds(cur, p) && cur.pos() + 1 < cur.items().len() && cur.items()[cur.pos() + 1].token.ty is Identifier
        && chain_stop(tokens, cur.pos() + 2, p) == s && cur.pos() + 2 <= s
    ||| exists|op: BinaryOperator<'s>, rest: TokenList<'s>, m: int|
        #[trigger] binary_succeeds(cur, p, op, rest, m) && chain_stop(tokens, m, p) == s && cur.pos() + 2 <= m <= s
}

/// The token at the position of `tokens` is a prefix operator.
pub open spec fn prefix_at<'s>(tokens: TokenList<'s>) -> bool {
    &&& tokens.pos() < tokens.items().len()
    &&& tokens.items()[tokens.pos()].token.ty matches TokenType::Terminal(t)
    &&& is_prefix_terminal(t)
}

/// The token at the position of `tokens` can start a value: a type or `function` (a closure), `(`,
/// a literal, a name, `::`, `{`, `class`, `[`, `<`, a prefix operator, `delegate` or `expect`.
pub open spec fn value_start<'s>(tokens: TokenList<'s>) -> bool {
    let i = tokens.pos();
    ||| type_start_at(tokens)
    ||| terminal_at(tokens, i, TerminalToken::Function)
    ||| terminal_at(tokens, i, TerminalToken::OpenBracket)
    ||| (i < tokens.items().len() && tokens.items()[i].token.ty is Literal)
    ||| terminal_at(tokens, i, TerminalToken::Namespace)
    ||| terminal_at(tokens, i, TerminalToken::OpenBrace)
    ||| terminal_at(tokens, i, TerminalToken::Class)
    ||| terminal_at(tokens, i, TerminalToken::OpenSquare)
    ||| terminal_at(tokens, i, TerminalToken::Less)
    ||| prefix_at(tokens)
    ||| terminal_at(tokens, i, TerminalToken::Delegate)
    ||| terminal_at(tokens, i, TerminalToken::Expect)
}

/// Parses a value: an expression that does not start with another expression.
#[verifier::rlimit(40)]
fn value<'s>(tokens: TokenList<'s>) -> (r: ParseResult<'s, Box<Expression<'s>>>)
    requires
        tokens.wf(),
    ensures
        r matches Ok((rest, v)) ==> v.tokens() == tokens.tokens_to(rest),
        parsed(tokens, r, true),
        r matches Ok((_, e)) ==> is_value(*e),
        r matches Ok((_, e)) ==> operators_kept(*e),
        r matches Ok((rest, e)) ==> (*e is Prefix ==> !starts_operator(rest, Precedence::Prefix)),
        r matches Ok((_, e)) ==> precedence_shaped(*e),
        simple_operand(tokens) ==> (r matches Ok((rest, e)) && (*e is Literal || *e is Var) && moved_one(
            tokens,
            rest,
        )),
        !value_start(tokens) ==> r == Err::<(TokenList<'s>, Box<Expression<'s>>), ParseError>(
            error_at(ParseErrorType::ExpectedExpression, tokens.pos() as int),
        ),
    decreases tokens.remaining(), 7nat,
{
    match function(tokens) {
        Ok((t, v)) => return Ok((t, Box::new(Expression::Function(v)))),
        Err(e) => if e.is_fatal {
            return Err(e);
        },
    }
    match parens(tokens) {
        Ok((t, v)) => return Ok((t, Box::new(Expression::Parens(v)))),
        Err(e) => if e.is_fatal {
            return Err(e);
        },
    }
    if let Ok((t, v)) = literal(tokens) {
        return Ok((t, Box::new(Expression::Literal(v))));
    }
    if let Ok((t, v)) = var(tokens) {
        return Ok((t, Box::new(Expression::Var(v))));
    }
    match root_var(tokens) {
        Ok((t, v)) => return Ok((t, Box::new(Expression::RootVar(v)))),
        Err(e) => if e.is_fatal {
            return Err(e);
        },
    }
    match table(tokens) {
        Ok((t, v)) => return Ok((t, Box::new(Expression::Table(v)))),
        Err(e) => if e.is_fatal {
            return Err(e);
        },
    }
    match class(tokens) {
        Ok((t, v)) => return Ok((t, Box::new(Expression::Class(v)))),
        Err(e) => if e.is_fatal {
            return Err(e);
        },
    }
    match array(tokens) {
        Ok((t, v)) => return Ok((t, Box::new(Expression::Array(v)))),
        Err(e) => if e.is_fatal {
            return Err(e);
        },
    }
    match vector(tokens) {
        Ok((t, v)) => return Ok((t, Box::new(Expression::Vector(v)))),
        Err(e) => if e.is_fatal {
            return Err(e);
        },
    }
    match prefix(tokens) {
        Ok((t, v)) => return Ok((t, Box::new(Expression::Prefix(v)))),
        Err(e) => if e.is_fatal {
            return Err(e);
        },
    }
    match delegate(tokens) {
        Ok((t, v)) => return Ok((t, Box::new(Expression::Delegate(v)))),
        Err(e) => if e.is_fatal {
            return Err(e);
        },
    }
    match expect(tokens) {
        Ok((t, v)) => return Ok((t, Box::new(Expression::Expect(v)))),
        Err(e) => if e.is_fatal {
            return Err(e);
        },
    }
    Err(tokens.error(ParseErrorType::ExpectedExpression))
}

/// Parses a function literal: an optional return type on the same line, `function` and a
/// function definition.
pub fn function<'s>(tokens: TokenList<'s>) -> (r: ParseResult<'s, FunctionExpression<'s>>)
    requires
        tokens.wf(),
    ensures
        r matches Ok((rest, v)) ==> v.tokens() == tokens.tokens_to(rest),
        parsed(tokens, r, true),
        r is Ok ==> type_start_at(tokens) || terminal_at(tokens, tokens.pos(), TerminalToken::Function),
        !type_start_at(tokens) && !terminal_at(tokens, tokens.pos(), TerminalToken::Function) ==> (r matches Err(e)
            && !e.is_fatal),
        identifier_at(tokens) && !modifier_start(tokens.at(tokens.pos() + 1)) && !terminal_at(
            tokens,
            tokens.pos() + 1,
            TerminalToken::Function,
        ) ==> (r matches Err(e) && !e.is_fatal),
    decreases tokens.remaining(), 6nat,
{
    function_parts(tokens).with_context_from(ContextType::FunctionLiteral, tokens)
}

/// A function literal, without the context of its errors.
fn function_parts<'s>(tokens: TokenList<'s>) -> (r: ParseResult<'s, FunctionExpression<'s>>)
    requires
        tokens.wf(),
    ensures
        r matches Ok((rest, v)) ==> v.tokens() == tokens.tokens_to(rest),
        parsed(tokens, r, true),
        r is Ok ==> type_start_at(tokens) || terminal_at(tokens, tokens.pos(), TerminalToken::Function),
        !type_start_at(tokens) && !terminal_at(tokens, tokens.pos(), TerminalToken::Function) ==> (r matches Err(e)
            && !e.is_fatal),
        identifier_at(tokens) && !modifier_start(tokens.at(tokens.pos() + 1)) && !terminal_at(
            tokens,
            tokens.pos() + 1,
            TerminalToken::Function,
        ) ==> (r matches Err(e) && !e.is_fatal),
    decreases tokens.remaining(), 5nat,
{
    let determinant = match type_(tokens).not_line_ending().maybe(tokens) {
        Ok((t, return_type)) => match terminal(t, TerminalToken::Function) {
            Ok((t2, function)) => Ok((t2, (return_type, function))),
            Err(e) => Err(e),
        },
        Err(e) => Err(e),
    };
    let (t, (return_type, function)) = determinant.not_definite()?;
    let (t, definition) = function_definition(t).definite()?;
    Ok((t, FunctionExpression { return_type, function, definition }))
}

/// Parses an expression in parentheses.
pub fn parens<'s>(tokens: TokenList<'s>) -> (r: ParseResult<'s, ParensExpression<'s>>)
    requires
        tokens.wf(),
    ensures
        r matches Ok((rest, v)) ==> v.tokens() == tokens.tokens_to(rest),
        parsed(tokens, r, true),
        r is Ok ==> terminal_at(tokens, tokens.pos(), TerminalToken::OpenBracket),
        !terminal_at(tokens, tokens.pos(), TerminalToken::OpenBracket) ==> (r matches Err(e) && !e.is_fatal && e.ty
            == ParseErrorType::ExpectedTerminal(TerminalToken::OpenBracket) && e.token_index == tokens.pos()),
        r matches Ok((_, v)) ==> operators_kept(*v.value),
    decreases tokens.remaining(), 0nat,
{
    let (inner, outer, open, close, start, end) = span_open(
        tokens,
        ContextType::Expression,
        TerminalToken::OpenBracket,
        TerminalToken::CloseBracket,
        true,
    )?;
    let (rest, value) = in_span(expression(inner, Precedence::Lowest), start, end, ContextType::Expression, true)?;
    opens_end(rest, TerminalToken::CloseBracket, start, end, ContextType::Expression, true)?;
    Ok((outer, ParensExpression { open, value, close }))
}

/// Parses a literal.
pub fn literal<'s>(tokens: TokenList<'s>) -> (r: ParseResult<'s, LiteralExpression<'s>>)
    requires
        tokens.wf(),
    ensures
        r matches Ok((rest, v)) ==> v.tokens() == tokens.tokens_to(rest),
        match r {
            Ok((rest, v)) => {
                &&& tokens.pos() < tokens.items().len()
                &&& tokens.items()[tokens.pos()].token.ty == TokenType::<'s>::Literal(v.literal)
                &&& *v.token == tokens.items()[tokens.pos()].token
                &&& moved_one(tokens, rest)
            },
            Err(e) => {
                &&& !(tokens.pos() < tokens.items().len() && tokens.items()[tokens.pos()].token.ty is Literal)
                &&& e == error_at(ParseErrorType::ExpectedLiteral, tokens.pos())
            },
        },
{
    if let Some((rest, item)) = tokens.split_first() {
        if let TokenType::Literal(literal) = item.token.ty {
            return Ok((rest, LiteralExpression { literal, token: &item.token }));
        }
    }
    Err(tokens.error(ParseErrorType::ExpectedLiteral))
}

/// Parses a variable reference: an identifier.
pub fn var<'s>(tokens: TokenList<'s>) -> (r: ParseResult<'s, VarExpression<'s>>)
    requires
        tokens.wf(),
    ensures
        r matches Ok((rest, v)) ==> v.tokens() == tokens.tokens_to(rest),
        match r {
            Ok((rest, v)) => crate::parser::identifier::is_identifier_at(tokens, v.name) && moved_one(tokens, rest),
            Err(e) => !crate::parser::identifier::identifier_at(tokens) && e == error_at(
                ParseErrorType::ExpectedIdentifier,
                tokens.pos(),
            ),
        },
{
    let (tokens, name) = identifier(tokens)?;
    Ok((tokens, VarExpression { name }))
}

/// Parses a reference to a root variable: `::` and an identifier.
pub fn root_var<'s>(tokens: TokenList<'s>) -> (r: ParseResult<'s, RootVarExpression<'s>>)
    requires
        tokens.wf(),
    ensures
        r matches Ok((rest, v)) ==> v.tokens() == tokens.tokens_to(rest),
        parsed(tokens, r, true),
        match r {
            Ok((rest, v)) => {
                &&& terminal_at(tokens, tokens.pos(), TerminalToken::Namespace)
                &&& *v.root == tokens.items()[tokens.pos()].token
                &&& rest.pos() == tokens.pos() + 2
            },
            Err(e) => if !terminal_at(tokens, tokens.pos(), TerminalToken::Namespace) {
                e == error_at(ParseErrorType::ExpectedTerminal(TerminalToken::Namespace), tokens.pos())
            } else {
                e.is_fatal && e.ty == ParseErrorType::ExpectedIdentifier && e.token_index == tokens.pos() + 1
            },
        },
{
    let (t, root) = terminal(tokens, TerminalToken::Namespace)?;
    let (t, name) = identifier(t).definite()?;
    Ok((t, RootVarExpression { root, name }))
}

/// Parses a table literal in braces.
pub fn table<'s>(tokens: TokenList<'s>) -> (r: ParseResult<'s, TableExpression<'s>>)
    requires
        tokens.wf(),
    ensures
        r matches Ok((rest, v)) ==> v.tokens() == tokens.tokens_to(rest),
        parsed(tokens, r, true),
        r is Ok ==> terminal_at(tokens, tokens.pos(), TerminalToken::OpenBrace),
        !terminal_at(tokens, tokens.pos(), TerminalToken::OpenBrace) ==> (r matches Err(e) && !e.is_fatal && e.ty
            == ParseErrorType::ExpectedTerminal(TerminalToken::OpenBrace) && e.token_index == tokens.pos()),
    decreases tokens.remaining(), 1nat,
{
    table_delimited(tokens, TerminalToken::OpenBrace, TerminalToken::CloseBrace)
}

/// Parses a table delimited by `open_terminal` and `close_terminal`: slots, then an optional
/// `...`.
pub fn table_delimited<'s>(tokens: TokenList<'s>, open_terminal: TerminalToken, close_terminal: TerminalToken) -> (r:
    ParseResult<'s, TableExpression<'s>>)
    requires
        tokens.wf(),
        closer_of(TokenType::Terminal(open_terminal)) is Some,
    ensures
        r matches Ok((rest, v)) ==> v.tokens() == tokens.tokens_to(rest),
        parsed(tokens, r, true),
        r is Ok ==> terminal_at(tokens, tokens.pos(), open_terminal),
        !terminal_at(tokens, tokens.pos(), open_terminal) ==> (r matches Err(e) && !e.is_fatal && e.ty
            == ParseErrorType::ExpectedTerminal(open_terminal) && e.token_index == tokens.pos()),
    decreases tokens.remaining(), 0nat,
{
    let (inner, outer, open, close, start, end) = span_open(
        tokens,
        ContextType::TableLiteral,
        open_terminal,
        close_terminal,
        true,
    )?;
    let (rest, (slots, spread)) = in_span(table_contents(inner), start, end, ContextType::TableLiteral, true)?;
    opens_end(rest, close_terminal, start, end, ContextType::TableLiteral, true)?;
    Ok((outer, TableExpression { open, slots, spread, close }))
}

/// Whether the list is ended or at `...`.
fn at_end_or_spread<'s>(tokens: TokenList<'s>) -> (b: bool)
    requires
        tokens.wf(),
    ensures
        b == (tokens.pos() == tokens.items().len() || terminal_at(tokens, tokens.pos(), TerminalToken::Ellipsis)),
{
    tokens.is_ended() || terminal(tokens, TerminalToken::Ellipsis).is_ok()
}

/// The slots of a table and its optional `...`.
fn table_contents<'s>(tokens: TokenList<'s>) -> (r: ParseResult<'s, (Vec<TableSlot<'s>>, Option<&'s Token<'s>>)>)
    requires
        tokens.wf(),
    ensures
        r matches Ok((rest, (slots, spread))) ==> table_slot_seq_tokens(slots@) + opt_token(spread) == tokens.tokens_to(
            rest,
        ),
        parsed(tokens, r, false),
    decreases tokens.remaining(), 10nat,
{
    let stop = |x: TokenList<'s>| -> (b: bool)
        requires
            tokens.reaches(x),
        {
            at_end_or_spread(x)
        };
    let parse_slot = |x: TokenList<'s>| -> (r: ParseResult<'s, TableSlot<'s>>)
        requires
            tokens.reaches(x),
        ensures
            r matches Ok((rest, v)) ==> v.tokens() == x.tokens_to(rest),
            parsed(x, r, true),
        {
            table_slot(x)
        };
    let ghost f = |v: TableSlot<'s>| v.tokens();
    let (t, slots) = many_until(tokens, stop, parse_slot, Ghost(f))?;
    proof {
        lemma_table_slot_seq_tokens(slots@, f);
    }
    let (t, spread) = terminal(t, TerminalToken::Ellipsis).maybe(t)?;
    Ok((t, (slots, spread)))
}

/// Parses a class literal: `class` and a class definition.
pub fn class<'s>(tokens: TokenList<'s>) -> (r: ParseResult<'s, ClassExpression<'s>>)
    requires
        tokens.wf(),
    ensures
        r matches Ok((rest, v)) ==> v.tokens() == tokens.tokens_to(rest),
        parsed(tokens, r, true),
        r is Ok ==> terminal_at(tokens, tokens.pos(), TerminalToken::Class),
        !terminal_at(tokens, tokens.pos(), TerminalToken::Class) ==> (r matches Err(e) && !e.is_fatal && e.ty
            == ParseErrorType::ExpectedTerminal(TerminalToken::Class) && e.token_index == tokens.pos()),
    decreases tokens.remaining(), 1nat,
{
    class_parts(tokens).with_context_from(ContextType::ClassLiteral, tokens)
}

/// A class literal, without the context of its errors.
fn class_parts<'s>(tokens: TokenList<'s>) -> (r: ParseResult<'s, ClassExpression<'s>>)
    requires
        tokens.wf(),
    ensures
        r matches Ok((rest, v)) ==> v.tokens() == tokens.tokens_to(rest),
        parsed(tokens, r, true),
        r is Ok ==> terminal_at(tokens, tokens.pos(), TerminalToken::Class),
        !terminal_at(tokens, tokens.pos(), TerminalToken::Class) ==> (r matches Err(e) && !e.is_fatal && e.ty
            == ParseErrorType::ExpectedTerminal(TerminalToken::Class) && e.token_index == tokens.pos()),
    decreases tokens.remaining(), 0nat,
{
    let (t, class) = terminal(tokens, TerminalToken::Class)?;
    let (t, definition) = class_definition(t).definite()?;
    Ok((t, ClassExpression { class, definition }))
}

/// Parses an array literal: values in square brackets, then an optional `...`.
pub fn array<'s>(tokens: TokenList<'s>) -> (r: ParseResult<'s, ArrayExpression<'s>>)
    requires
        tokens.wf(),
    ensures
        r matches Ok((rest, v)) ==> v.tokens() == tokens.tokens_to(rest),
        parsed(tokens, r, true),
        r is Ok ==> terminal_at(tokens, tokens.pos(), TerminalToken::OpenSquare),
        !terminal_at(tokens, tokens.pos(), TerminalToken::OpenSquare) ==> (r matches Err(e) && !e.is_fatal && e.ty
            == ParseErrorType::ExpectedTerminal(TerminalToken::OpenSquare) && e.token_index == tokens.pos()),
    decreases tokens.remaining(), 0nat,
{
    let (inner, outer, open, close, start, end) = span_open(
        tokens,
        ContextType::ArrayLiteral,
        TerminalToken::OpenSquare,
        TerminalToken::CloseSquare,
        true,
    )?;
    let (rest, (values, spread)) = in_span(array_contents(inner), start, end, ContextType::ArrayLiteral, true)?;
    opens_end(rest, TerminalToken::CloseSquare, start, end, ContextType::ArrayLiteral, true)?;
    Ok((outer, ArrayExpression { open, values, spread, close }))
}

/// The values of an array and its optional `...`.
fn array_contents<'s>(tokens: TokenList<'s>) -> (r: ParseResult<'s, (Vec<ArrayValue<'s>>, Option<&'s Token<'s>>)>)
    requires
        tokens.wf(),
    ensures
        r matches Ok((rest, (values, spread))) ==> array_value_seq_tokens(values@) + opt_token(spread)
            == tokens.tokens_to(rest),
        parsed(tokens, r, false),
    decreases tokens.remaining(), 10nat,
{
    let stop = |x: TokenList<'s>| -> (b: bool)
        requires
            tokens.reaches(x),
        {
            at_end_or_spread(x)
        };
    let parse_value = |x: TokenList<'s>| -> (r: ParseResult<'s, ArrayValue<'s>>)
        requires
            tokens.reaches(x),
        ensures
            r matches Ok((rest, v)) ==> v.tokens() == x.tokens_to(rest),
            parsed(x, r, true),
        {
            array_value(x)
        };
    let ghost f = |v: ArrayValue<'s>| v.tokens();
    let (t, values) = many_until(tokens, stop, parse_value, Ghost(f))?;
    proof {
        lemma_array_value_seq_tokens(values@, f);
    }
    let (t, spread) = terminal(t, TerminalToken::Ellipsis).maybe(t)?;
    Ok((t, (values, spread)))
}

/// Parses a vector literal: `<` three values separated by commas `>`.
#[verifier::rlimit(40)]
pub fn vector<'s>(tokens: TokenList<'s>) -> (r: ParseResult<'s, VectorExpression<'s>>)
    requires
        tokens.wf(),
    ensures
        parsed(tokens, r, true),
        r matches Ok((rest, v)) ==> v.tokens() == tokens.tokens_to(rest),
        r is Ok ==> terminal_at(tokens, tokens.pos(), TerminalToken::Less),
        !terminal_at(tokens, tokens.pos(), TerminalToken::Less) ==> (r matches Err(e) && !e.is_fatal && e.ty
            == ParseErrorType::ExpectedTerminal(TerminalToken::Less) && e.token_index == tokens.pos()),
        terminal_at(tokens, tokens.pos(), TerminalToken::Less) && simple_vector_rest(tokens.at(tokens.pos() + 1))
            ==> vector_read(tokens.at(tokens.pos() + 1), r) && (r matches Ok((_, v)) && *v.open
            == tokens.items()[tokens.pos()].token),
        r matches Ok((_, v)) ==> operators_kept(*v.x) && operators_kept(*v.y) && operators_kept(*v.z),
    decreases tokens.remaining(), 0nat,
{
    proof {
        if terminal_at(tokens, tokens.pos(), TerminalToken::Less) {
            tokens.lemma_at(tokens.pos() + 1);
        }
    }
    let res = match terminal(tokens, TerminalToken::Less) {
        Ok((t, open)) => {
            proof {
                if t.pos() < t.items().len() {
                    lemma_vector_same(t, tokens.at(tokens.pos() + 1));
                }
            }
            vector_rest(t, open).definite()
        },
        Err(e) => Err(e),
    };
    res.with_context_from(ContextType::VectorLiteral, tokens)
}

/// Where the values of a vector that are simple chains end, from the position of `tokens`: the
/// positions of the first `,`, of the second `,` and of `>`.
pub open spec fn vector_marks<'s>(tokens: TokenList<'s>) -> (int, int, int) {
    let a = chain_stop(tokens, tokens.pos() + 1, Precedence::Comma);
    let b = chain_stop(tokens, a + 2, Precedence::Comma);
    let c = chain_stop(tokens, b + 2, Precedence::Bitshift);
    (a, b, c)
}

/// From the position of `tokens` stand three values that are simple chains, the first two each
/// followed by `,` and the last by `>`.
pub open spec fn simple_vector_rest<'s>(tokens: TokenList<'s>) -> bool {
    let (a, b, c) = vector_marks(tokens);
    &&& simple_chain(tokens, Precedence::Comma)
    &&& terminal_at(tokens, a, TerminalToken::Comma)
    &&& simple_chain(tokens.at(a + 1), Precedence::Comma)
    &&& terminal_at(tokens, b, TerminalToken::Comma)
    &&& simple_chain(tokens.at(b + 1), Precedence::Bitshift)
    &&& terminal_at(tokens, c, TerminalToken::Greater)
}

/// Whether simple values of a vector follow, and where they end, depends only on the tokens, the
/// flavor and the position.
proof fn lemma_vector_same<'s>(t1: TokenList<'s>, t2: TokenList<'s>)
    requires
        t1.items() == t2.items(),
        t1.pos() == t2.pos(),
        t1.spec_flavor() == t2.spec_flavor(),
        t1.items().len() < usize::MAX,
        0 <= t1.pos() < t1.items().len(),
    ensures
        simple_vector_rest(t1) == simple_vector_rest(t2),
        vector_marks(t1) == vector_marks(t2),
{
    lemma_simple_chain_same(t1, t2, Precedence::Comma);
    let a = chain_stop(t1, t1.pos() + 1, Precedence::Comma);
    lemma_chain_stop_after(t1, t1.pos() + 1, Precedence::Comma);
    lemma_chain_same(t1, t2, a + 2, Precedence::Comma);
    let b = chain_stop(t1, a + 2, Precedence::Comma);
    lemma_chain_stop_after(t1, a + 2, Precedence::Comma);
    lemma_chain_same(t1, t2, b + 2, Precedence::Bitshift);
    if a + 1 <= t1.items().len() {
        t1.lemma_at(a + 1);
        t2.lemma_at(a + 1);
        if a + 1 < t1.items().len() {
            lemma_simple_chain_same(t1.at(a + 1), t2.at(a + 1), Precedence::Comma);
        }
    }
    if b + 1 <= t1.items().len() {
        t1.lemma_at(b + 1);
        t2.lemma_at(b + 1);
        if b + 1 < t1.items().len() {
            lemma_simple_chain_same(t1.at(b + 1), t2.at(b + 1), Precedence::Bitshift);
        }
    }
}

/// The values and closing `>` of a vector literal, after the `<`.
#[verifier::rlimit(80)]
fn vector_rest<'s>(tokens: TokenList<'s>, open: &'s Token<'s>) -> (r: ParseResult<'s, VectorExpression<'s>>)
    requires
        tokens.wf(),
    ensures
        parsed(tokens, r, true),
        r matches Ok((rest, v)) ==> v.tokens() == seq![*open] + tokens.tokens_to(rest),
        simple_vector_rest(tokens) ==> vector_read(tokens, r),
        r matches Ok((_, v)) ==> v.open == open,
        r matches Ok((_, v)) ==> operators_kept(*v.x) && operators_kept(*v.y) && operators_kept(*v.z),
    decreases tokens.remaining(), 9nat,
{
    let ghost sv = simple_vector_rest(tokens);
    let ghost (a, b, c) = vector_marks(tokens);
    let (t, x) = expression(tokens, Precedence::Comma)?;
    let (t, comma_1) = terminal(t, TerminalToken::Comma)?;
    proof {
        if sv {
            tokens.lemma_at(a + 1);
            lemma_simple_chain_same(t, tokens.at(a + 1), Precedence::Comma);
            lemma_chain_same(tokens.at(a + 1), tokens, a + 2, Precedence::Comma);
        }
    }
    let (t, y) = expression(t, Precedence::Comma)?;
    let (t, comma_2) = terminal(t, TerminalToken::Comma)?;
    proof {
        if sv {
            tokens.lemma_at(b + 1);
            lemma_simple_chain_same(t, tokens.at(b + 1), Precedence::Bitshift);
            lemma_chain_same(tokens.at(b + 1), tokens, b + 2, Precedence::Bitshift);
        }
    }
    let (t, z) = expression(t, Precedence::Bitshift)?;
    let (t, close) = terminal(t, TerminalToken::Greater)?;
    Ok((t, VectorExpression { open, x, comma_1, y, comma_2, z, close }))
}

/// `r` reads a vector whose values are simple chains: its commas and `>` are the tokens at the
/// positions [`vector_marks`] gives, and it ends after the `>`.
pub open spec fn vector_read<'s>(tokens: TokenList<'s>, r: ParseResult<'s, VectorExpression<'s>>) -> bool {
    let (a, b, c) = vector_marks(tokens);
    &&& r matches Ok((rest, v))
    &&& rest.pos() == c + 1
    &&& *v.comma_1 == tokens.items()[a].token
    &&& *v.comma_2 == tokens.items()[b].token
    &&& *v.close == tokens.items()[c].token
}

/// Parses a prefix operator and its operand.
#[verifier::rlimit(40)]
pub fn prefix<'s>(tokens: TokenList<'s>) -> (r: ParseResult<'s, PrefixExpression<'s>>)
    requires
        tokens.wf(),
    ensures
        r matches Ok((rest, v)) ==> v.tokens() == tokens.tokens_to(rest),
        parsed(tokens, r, true),
        !prefix_at(tokens) ==> (r matches Err(e) && !e.is_fatal),
        prefix_at(tokens) && simple_operand(tokens.at(tokens.pos() + 1)) && !starts_operator(
            tokens.at(tokens.pos() + 2),
            Precedence::Prefix,
        ) ==> (r matches Ok((rest, v)) && rest.pos() == tokens.pos() + 2 && (*v.value is Literal || *v.value is Var)),
        r matches Ok((_, v)) ==> terminal_at(tokens, tokens.pos(), prefix_operator_terminal(v.operator))
            && prefix_operator_token(v.operator) == tokens.items()[tokens.pos()].token,
        r matches Ok((_, v)) ==> prefix_kind_ok(v.operator) && operators_kept(*v.value),
        r matches Ok((rest, _)) ==> !starts_operator(rest, Precedence::Prefix),
        r matches Ok((_, v)) ==> binds_within(*v.value, Precedence::Prefix) && precedence_shaped(*v.value),
    decreases tokens.remaining(), 0nat,
{
    proof {
        if prefix_at(tokens) {
            let t = tokens.items()[tokens.pos()].token.ty->Terminal_0;
            assert(is_prefix_terminal(t) && terminal_at(tokens, tokens.pos(), t));
        }
    }
    let (t, operator) = prefix_operator(tokens)?;
    proof {
        if prefix_at(tokens) {
            tokens.lemma_at(tokens.pos() + 1);
        }
        if prefix_at(tokens) && t.pos() < t.items().len() {
            tokens.lemma_at(tokens.pos() + 2);
            t.lemma_at(t.pos() + 1);
            lemma_simple_operand_same(t, tokens.at(tokens.pos() + 1));
            lemma_starts_operator_same(t.at(t.pos() + 1), tokens.at(tokens.pos() + 2), Precedence::Prefix);
        }
    }
    let (t, value) = expression(t, Precedence::Prefix).definite()?;
    Ok((t, PrefixExpression { operator, value }))
}

/// Parses a delegate expression: `delegate` [Expression] `:` [Expression].
pub fn delegate<'s>(tokens: TokenList<'s>) -> (r: ParseResult<'s, DelegateExpression<'s>>)
    requires
        tokens.wf(),
    ensures
        r matches Ok((rest, v)) ==> v.tokens() == tokens.tokens_to(rest),
        parsed(tokens, r, true),
        r is Ok ==> terminal_at(tokens, tokens.pos(), TerminalToken::Delegate),
        !terminal_at(tokens, tokens.pos(), TerminalToken::Delegate) ==> (r matches Err(e) && !e.is_fatal && e.ty
            == ParseErrorType::ExpectedTerminal(TerminalToken::Delegate) && e.token_index == tokens.pos()),
    decreases tokens.remaining(), 0nat,
{
    let (t, delegate) = terminal(tokens, TerminalToken::Delegate)?;
    delegate_rest(t, delegate).definite()
}

/// The parent, `:` and value of a delegate expression, after `delegate`.
fn delegate_rest<'s>(tokens: TokenList<'s>, delegate: &'s Token<'s>) -> (r: ParseResult<'s, DelegateExpression<'s>>)
    requires
        tokens.wf(),
    ensures
        r matches Ok((rest, v)) ==> v.tokens() == seq![*delegate] + tokens.tokens_to(rest),
        parsed(tokens, r, true),
    decreases tokens.remaining(), 9nat,
{
    let (t, parent) = expression(tokens, Precedence::Lowest)?;
    let (t, colon) = terminal(t, TerminalToken::Colon)?;
    let (t, value) = expression(t, Precedence::Comma)?;
    Ok((t, DelegateExpression { delegate, parent, colon, value }))
}

/// Parses an `expect` expression: `expect` [Type] `(` [Expression] `)`.
pub fn expect<'s>(tokens: TokenList<'s>) -> (r: ParseResult<'s, ExpectExpression<'s>>)
    requires
        tokens.wf(),
    ensures
        r matches Ok((rest, v)) ==> v.tokens() == tokens.tokens_to(rest),
        parsed(tokens, r, true),
        r is Ok ==> terminal_at(tokens, tokens.pos(), TerminalToken::Expect),
        !terminal_at(tokens, tokens.pos(), TerminalToken::Expect) ==> (r matches Err(e) && !e.is_fatal && e.ty
            == ParseErrorType::ExpectedTerminal(TerminalToken::Expect) && e.token_index == tokens.pos()),
    decreases tokens.remaining(), 0nat,
{
    let (t, expect) = terminal(tokens, TerminalToken::Expect)?;
    expect_rest(t, expect).definite()
}

/// The type and parenthesized value of an `expect` expression, after `expect`.
fn expect_rest<'s>(tokens: TokenList<'s>, expect: &'s Token<'s>) -> (r: ParseResult<'s, ExpectExpression<'s>>)
    requires
        tokens.wf(),
    ensures
        r matches Ok((rest, v)) ==> v.tokens() == seq![*expect] + tokens.tokens_to(rest),
        parsed(tokens, r, true),
    decreases tokens.remaining(), 5nat,
{
    let (t, ty) = type_(tokens)?;
    let (inner, outer, open, close, start, end) = span_open(
        t,
        ContextType::Expression,
        TerminalToken::OpenBracket,
        TerminalToken::CloseBracket,
        false,
    )?;
    let (rest, value) = in_span(expression(inner, Precedence::Lowest), start, end, ContextType::Expression, false)?;
    opens_end(rest, TerminalToken::CloseBracket, start, end, ContextType::Expression, false)?;
    Ok((outer, ExpectExpression { expect, ty, open, value, close }))
}

/// What an operator adds to the expression before it.
enum OperatorTail<'s> {
    Property(&'s Token<'s>, MethodIdentifier<'s>),
    Ternary(&'s Token<'s>, Box<Expression<'s>>, &'s Token<'s>, Box<Expression<'s>>),
    Binary(BinaryOperator<'s>, Box<Expression<'s>>),
    Index(&'s Token<'s>, Box<Expression<'s>>, &'s Token<'s>),
    Postfix(PostfixOperator<'s>),
    Call(&'s Token<'s>, SeparatedListTrailing0<'s, Expression<'s>>, &'s Token<'s>, Option<TableExpression<'s>>),
    Comma(&'s Token<'s>, SeparatedList1<'s, Expression<'s>>),
}

impl<'s> OperatorTail<'s> {
    /// The tokens of the operator and its operands, in source order.
    spec fn tokens(self) -> Seq<Token<'s>> {
        match self {
            OperatorTail::Property(dot, property) => seq![*dot] + property.tokens(),
            OperatorTail::Ternary(question, t, separator, f) => seq![*question] + (*t).tokens() + seq![*separator]
                + (*f).tokens(),
            OperatorTail::Binary(op, right) => op.tokens() + (*right).tokens(),
            OperatorTail::Index(open, index, close) => seq![*open] + (*index).tokens() + seq![*close],
            OperatorTail::Postfix(op) => op.tokens(),
            OperatorTail::Call(open, arguments, close, post) => seq![*open] + (match arguments {
                Some(l) => expression_trailing_list_tokens(l),
                None => Seq::empty(),
            }) + seq![*close] + (match post {
                Some(x) => x.tokens(),
                None => Seq::empty(),
            }),
            OperatorTail::Comma(comma, values) => seq![*comma] + expression_list_tokens(values),
        }
    }
}

/// An operator binds more tightly than `precedence`, so that it may follow an expression parsed
/// at that precedence.
spec fn tail_binds(tail: OperatorTail, precedence: Precedence) -> bool {
    match tail {
        OperatorTail::Property(..) => precedence.spec_level() < Precedence::Property.spec_level(),
        OperatorTail::Ternary(..) => precedence.spec_level() <= Precedence::Ternary.spec_level(),
        OperatorTail::Binary(op, _) => precedence.spec_level() < op.spec_precedence().spec_level(),
        OperatorTail::Index(..) | OperatorTail::Postfix(..) | OperatorTail::Call(..) => precedence.spec_level()
            < Precedence::Postfix.spec_level(),
        OperatorTail::Comma(..) => precedence.spec_level() < Precedence::Comma.spec_level(),
    }
}

/// The right operands of a binary or ternary operator are nested by precedence, and the last binds
/// at least as tightly as the operator.
spec fn tail_fits(tail: OperatorTail) -> bool {
    match tail {
        OperatorTail::Binary(op, right) => precedence_shaped(*right) && binds_within(*right, op.spec_precedence()),
        OperatorTail::Ternary(_, t, _, f) => precedence_shaped(*t) && precedence_shaped(*f) && binds_within(
            *f,
            Precedence::Ternary,
        ),
        _ => true,
    }
}

/// The operators of a tail, and those in its operands, are of the kinds that their tokens spell.
spec fn tail_kept(tail: OperatorTail) -> bool {
    match tail {
        OperatorTail::Binary(op, right) => binary_kind_ok(op) && operators_kept(*right),
        OperatorTail::Ternary(_, t, _, f) => operators_kept(*t) && operators_kept(*f),
        OperatorTail::Index(_, index, _) => operators_kept(*index),
        OperatorTail::Postfix(op) => postfix_kind_ok(op),
        _ => true,
    }
}

/// The precedence of a binary or ternary operator.
spec fn tail_precedence(tail: OperatorTail) -> Option<Precedence> {
    match tail {
        OperatorTail::Binary(op, _) => Some(op.spec_precedence()),
        OperatorTail::Ternary(..) => Some(Precedence::Ternary),
        _ => None,
    }
}

/// `tail` was read at the position of `tokens`, up to `rest`: at each precedence that it binds
/// more tightly than, an operator starts there; its operands are nested by precedence; and an
/// operator that would bind more tightly than a binary or ternary operator does not follow its
/// last operand.
spec fn tail_read<'s>(tokens: TokenList<'s>, tail: OperatorTail<'s>, rest: TokenList<'s>) -> bool {
    &&& tail_kept(tail)
    &&& forall|q: Precedence| #[trigger] tail_binds(tail, q) ==> starts_operator(tokens, q)
    &&& tail_fits(tail)
    &&& tail_precedence(tail) matches Some(q) ==> !starts_operator(rest, q)
}

/// The expression `left` with an operator applied.
fn apply_operator<'s>(left: Box<Expression<'s>>, tail: OperatorTail<'s>) -> (r: Box<Expression<'s>>)
    ensures
        forall|p: Precedence| tail_binds(tail, p) ==> #[trigger] binds_within(*r, p),
        (*r).tokens() == (*left).tokens() + tail.tokens(),
        infix_precedence(*r) == tail_precedence(tail),
        precedence_shaped(*left) && tail_fits(tail) && (infix_precedence(*left) matches Some(q) ==> !tail_binds(tail, q))
            && (*left is Prefix ==> !tail_binds(tail, Precedence::Prefix)) ==> precedence_shaped(*r),
        !(*r is Prefix),
        operators_kept(*left) && tail_kept(tail) ==> operators_kept(*r),
{
    match tail {
        OperatorTail::Property(dot, property) => Box::new(
            Expression::Property(PropertyExpression { base: left, dot, property }),
        ),
        OperatorTail::Ternary(question, true_value, separator, false_value) => Box::new(
            Expression::Ternary(TernaryExpression { condition: left, question, true_value, separator, false_value }),
        ),
        OperatorTail::Binary(operator, right) => Box::new(
            Expression::Binary(BinaryExpression { left, operator, right }),
        ),
        OperatorTail::Index(open, index, close) => Box::new(
            Expression::Index(IndexExpression { base: left, open, index, close }),
        ),
        OperatorTail::Postfix(operator) => Box::new(Expression::Postfix(PostfixExpression { value: left, operator })),
        OperatorTail::Call(open, arguments, close, post_initializer) => Box::new(
            Expression::Call(CallExpression { function: left, open, arguments, close, post_initializer }),
        ),
        OperatorTail::Comma(first_comma, values) => {
            let mut values = values;
            let ghost old_values = values;
            let ghost old_items = values.items@;
            proof {
                lemma_expression_pairs_prepend(values.items@, *left, first_comma);
            }
            values.items.insert(0, (*left, first_comma));
            assert(values.items@ =~= seq![(*left, first_comma)] + old_items);
            assert(expression_list_tokens(values) =~= (*left).tokens() + (seq![*first_comma] + expression_list_tokens(
                old_values,
            )));
            Box::new(Expression::Comma(CommaExpression { values }))
        },
    }
}

/// The error for an operator that binds too loosely to be parsed at the current precedence.
fn precedence_error<'s>(tokens: TokenList<'s>) -> (e: ParseError)
    ensures
        e == error_at(ParseErrorType::Internal(InternalErrorType::PrecedenceMismatch), tokens.pos()),
{
    tokens.error(ParseErrorType::Internal(InternalErrorType::PrecedenceMismatch))
}

/// Parses an operator that follows an expression and binds more tightly than `precedence`.
fn operator<'s>(tokens: TokenList<'s>, precedence: Precedence) -> (r: ParseResult<'s, OperatorTail<'s>>)
    requires
        tokens.wf(),
    ensures
        r matches Ok((rest, v)) ==> v.tokens() == tokens.tokens_to(rest),
        parsed(tokens, r, true),
        r matches Ok((_, tail)) ==> tail_binds(tail, precedence),
        r matches Ok((rest, tail)) ==> tail_read(tokens, tail, rest),
        starts_operator(tokens, precedence) ==> (r matches Err(e) ==> e.is_fatal),
        !starts_operator(tokens, precedence) ==> (r matches Err(e) && !e.is_fatal),
        dot_binds(tokens, precedence) && tokens.pos() + 1 < tokens.items().len() && tokens.items()[tokens.pos()
            + 1].token.ty is Identifier ==> (r matches Ok((rest, _)) && rest.pos() == tokens.pos() + 2),
        forall|op: BinaryOperator<'s>, rest: TokenList<'s>, m: int|
            #[trigger] binary_succeeds(tokens, precedence, op, rest, m) ==> (r matches Ok((r2, _)) && r2.pos() == m),
    decreases tokens.remaining(), 1nat,
{
    proof {
        assert forall|op: BinaryOperator<'s>, rest: TokenList<'s>, m: int|
            #[trigger] binary_succeeds(tokens, precedence, op, rest, m) implies !dot_binds(tokens, precedence)
                && !question_binds(tokens, precedence) by {
            lemma_binary_not_other(tokens, op, rest);
        }
    }
    match property(tokens, precedence) {
        Ok(x) => return Ok(x),
        Err(e) => if e.is_fatal {
            return Err(e);
        },
    }
    match ternary(tokens, precedence) {
        Ok(x) => return Ok(x),
        Err(e) => if e.is_fatal {
            return Err(e);
        },
    }
    match binary(tokens, precedence) {
        Ok(x) => return Ok(x),
        Err(e) => if e.is_fatal {
            return Err(e);
        },
    }
    match index(tokens, precedence) {
        Ok(x) => return Ok(x),
        Err(e) => if e.is_fatal {
            return Err(e);
        },
    }
    match postfix(tokens, precedence) {
        Ok(x) => return Ok(x),
        Err(e) => if e.is_fatal {
            return Err(e);
        },
    }
    match call(tokens, precedence) {
        Ok(x) => return Ok(x),
        Err(e) => if e.is_fatal {
            return Err(e);
        },
    }
    match comma(tokens, precedence) {
        Ok(x) => return Ok(x),
        Err(e) => if e.is_fatal {
            return Err(e);
        },
    }
    Err(tokens.error(ParseErrorType::ExpectedOperator))
}

/// Parses a property access: `.` and a method identifier.
fn property<'s>(tokens: TokenList<'s>, precedence: Precedence) -> (r: ParseResult<'s, OperatorTail<'s>>)
    requires
        tokens.wf(),
    ensures
        r matches Ok((rest, v)) ==> v.tokens() == tokens.tokens_to(rest),
        parsed(tokens, r, true),
        r matches Ok((_, tail)) ==> tail_binds(tail, precedence),
        r matches Ok((rest, tail)) ==> tail_read(tokens, tail, rest),
        dot_binds(tokens, precedence) ==> (r matches Err(e) ==> e.is_fatal),
        !dot_binds(tokens, precedence) ==> (r matches Err(e) && !e.is_fatal),
        dot_binds(tokens, precedence) && tokens.pos() + 1 < tokens.items().len() && tokens.items()[tokens.pos()
            + 1].token.ty is Identifier ==> (r matches Ok((rest, _)) && rest.pos() == tokens.pos() + 2),
{
    // left associative
    if precedence.level() >= Precedence::Property.level() {
        return Err(precedence_error(tokens));
    }
    let (t, dot) = terminal(tokens, TerminalToken::Dot)?;
    let (t, property) = method_identifier(t).definite()?;
    Ok((t, OperatorTail::Property(dot, property)))
}

/// Parses a ternary operator: `?` [Expression] `:` [Expression].
fn ternary<'s>(tokens: TokenList<'s>, precedence: Precedence) -> (r: ParseResult<'s, OperatorTail<'s>>)
    requires
        tokens.wf(),
    ensures
        r matches Ok((rest, v)) ==> v.tokens() == tokens.tokens_to(rest),
        parsed(tokens, r, true),
        r matches Ok((_, tail)) ==> tail_binds(tail, precedence),
        r matches Ok((rest, tail)) ==> tail_read(tokens, tail, rest),
        question_binds(tokens, precedence) ==> (r matches Err(e) ==> e.is_fatal),
        !question_binds(tokens, precedence) ==> (r matches Err(e) && !e.is_fatal),
    decreases tokens.remaining(), 0nat,
{
    // right associative
    if precedence.level() > Precedence::Ternary.level() {
        return Err(precedence_error(tokens));
    }
    let (t, question) = terminal(tokens, TerminalToken::Question)?;
    ternary_rest(t, question).definite()
}

/// The values of a ternary operator, after the `?`.
fn ternary_rest<'s>(tokens: TokenList<'s>, question: &'s Token<'s>) -> (r: ParseResult<'s, OperatorTail<'s>>)
    requires
        tokens.wf(),
    ensures
        r matches Ok((rest, v)) ==> v.tokens() == seq![*question] + tokens.tokens_to(rest),
        parsed(tokens, r, true),
        r matches Ok((_, tail)) ==> tail is Ternary,
        r matches Ok((rest, tail)) ==> tail_fits(tail) && !starts_operator(rest, Precedence::Ternary),
        r matches Ok((_, tail)) ==> tail_kept(tail),
    decreases tokens.remaining(), 9nat,
{
    let (t, true_value) = expression(tokens, Precedence::Lowest)?;
    let (t, separator) = terminal(t, TerminalToken::Colon)?;
    let (t, false_value) = expression(t, Precedence::Ternary)?;
    Ok((t, OperatorTail::Ternary(question, true_value, separator, false_value)))
}

/// Parses a binary operator that binds more tightly than `precedence`, and its right operand.
fn binary<'s>(tokens: TokenList<'s>, precedence: Precedence) -> (r: ParseResult<'s, OperatorTail<'s>>)
    requires
        tokens.wf(),
    ensures
        r matches Ok((rest, v)) ==> v.tokens() == tokens.tokens_to(rest),
        parsed(tokens, r, true),
        r matches Ok((_, tail)) ==> tail_binds(tail, precedence),
        r matches Ok((rest, tail)) ==> tail_read(tokens, tail, rest),
        binary_binds(tokens, precedence) ==> (r matches Err(e) ==> e.is_fatal),
        !binary_binds(tokens, precedence) ==> (r matches Err(e) && !e.is_fatal),
        forall|op: BinaryOperator<'s>, rest: TokenList<'s>, m: int|
            #[trigger] binary_succeeds(tokens, precedence, op, rest, m) ==> (r matches Ok((r2, _)) && r2.pos() == m),
    decreases tokens.remaining(), 0nat,
{
    let (t, operator) = match binary_operator(tokens) {
        Ok(x) => x,
        Err(e) => {
            proof {
                if binary_binds(tokens, precedence) {
                    let (op2, rest2) = choose|op2: BinaryOperator<'s>, rest2: TokenList<'s>|
                        #[trigger] binary_operator_at(tokens, op2, rest2) && precedence.spec_level()
                            < op2.spec_precedence().spec_level();
                    lemma_binary_operator_at_unique(tokens, op2, rest2, op2, rest2);
                }
                assert forall|op: BinaryOperator<'s>, rest: TokenList<'s>, m: int|
                    #[trigger] binary_succeeds(tokens, precedence, op, rest, m) implies false by {
                    lemma_binary_operator_at_unique(tokens, op, rest, op, rest);
                }
            }
            return Err(e);
        },
    };
    proof {
        assert forall|op2: BinaryOperator<'s>, rest2: TokenList<'s>|
            #[trigger] binary_operator_at(tokens, op2, rest2) implies op2.spec_precedence() == operator.spec_precedence() by {
            lemma_binary_operator_at_unique(tokens, op2, rest2, operator, t);
        }
    }
    // left associative
    if precedence.level() >= operator.precedence().level() {
        return Err(precedence_error(t));
    }
    proof {
        assert forall|op: BinaryOperator<'s>, rest: TokenList<'s>, m: int|
            #[trigger] binary_succeeds(tokens, precedence, op, rest, m) implies simple_chain(t, operator.spec_precedence())
                && chain_stop(t, t.pos() + 1, operator.spec_precedence()) == m by {
            lemma_binary_operator_at_unique(tokens, op, rest, operator, t);
            lemma_simple_chain_same(t, rest, operator.spec_precedence());
            lemma_chain_same(t, tokens, t.pos() + 1, operator.spec_precedence());
        }
    }
    let (t, right) = expression(t, operator.precedence()).definite()?;
    Ok((t, OperatorTail::Binary(operator, right)))
}

/// Parses an index: `[` [Expression] `]`.
fn index<'s>(tokens: TokenList<'s>, precedence: Precedence) -> (r: ParseResult<'s, OperatorTail<'s>>)
    requires
        tokens.wf(),
    ensures
        r matches Ok((rest, v)) ==> v.tokens() == tokens.tokens_to(rest),
        parsed(tokens, r, true),
        r matches Ok((_, tail)) ==> tail_binds(tail, precedence),
        r matches Ok((rest, tail)) ==> tail_read(tokens, tail, rest),
        terminal_at(tokens, tokens.pos(), TerminalToken::OpenSquare) && precedence.spec_level() < Precedence::Postfix.spec_level()
            ==> (r matches Err(e) ==> e.is_fatal),
        !(terminal_at(tokens, tokens.pos(), TerminalToken::OpenSquare) && precedence.spec_level() < Precedence::Postfix.spec_level())
            ==> (r matches Err(e) && !e.is_fatal),
    decreases tokens.remaining(), 0nat,
{
    // left associative
    if precedence.level() >= Precedence::Postfix.level() {
        return Err(precedence_error(tokens));
    }
    let (inner, outer, open, close, start, end) = span_open(
        tokens,
        ContextType::Expression,
        TerminalToken::OpenSquare,
        TerminalToken::CloseSquare,
        true,
    )?;
    let (rest, value) = in_span(expression(inner, Precedence::Lowest), start, end, ContextType::Expression, true)?;
    opens_end(rest, TerminalToken::CloseSquare, start, end, ContextType::Expression, true)?;
    Ok((outer, OperatorTail::Index(open, value, close)))
}

/// Parses a postfix operator, which may not follow a line break.
fn postfix<'s>(tokens: TokenList<'s>, precedence: Precedence) -> (r: ParseResult<'s, OperatorTail<'s>>)
    requires
        tokens.wf(),
    ensures
        r matches Ok((rest, v)) ==> v.tokens() == tokens.tokens_to(rest),
        parsed(tokens, r, true),
        r matches Ok((_, tail)) ==> tail_binds(tail, precedence),
        r matches Ok((rest, tail)) ==> tail_read(tokens, tail, rest),
        precedence.spec_level() < Precedence::Postfix.spec_level() && !(0 < tokens.pos() && tokens.items()[tokens.pos()
            - 1].token.new_line is Some) && (terminal_at(tokens, tokens.pos(), TerminalToken::Increment) || terminal_at(
            tokens,
            tokens.pos(),
            TerminalToken::Decrement,
        )) ==> r is Ok,
        !(precedence.spec_level() < Precedence::Postfix.spec_level() && !(0 < tokens.pos() && tokens.items()[
            tokens.pos() - 1].token.new_line is Some) && (terminal_at(tokens, tokens.pos(), TerminalToken::Increment)
            || terminal_at(tokens, tokens.pos(), TerminalToken::Decrement))) ==> (r matches Err(e) && !e.is_fatal),
        r is Ok ==> !(0 < tokens.pos() && tokens.items()[tokens.pos() - 1].token.new_line is Some),
{
    // left associative
    if precedence.level() >= Precedence::Postfix.level() {
        return Err(precedence_error(tokens));
    }
    // A line break before a postfix operator ends the expression, so that `a` followed by `++b`
    // on the next line is not read as `(a++) b`.
    if tokens.is_newline() {
        return Err(tokens.error(ParseErrorType::IllegalLineBreak));
    }
    let res = postfix_operator(tokens);
    proof {
        if res is Err {
            assert(is_postfix_terminal(TerminalToken::Increment));
            assert(is_postfix_terminal(TerminalToken::Decrement));
            assert(!terminal_at(tokens, tokens.pos(), TerminalToken::Increment));
            assert(!terminal_at(tokens, tokens.pos(), TerminalToken::Decrement));
        }
    }
    let (t, operator) = res.not_definite()?;
    Ok((t, OperatorTail::Postfix(operator)))
}

/// Parses a call: arguments in parentheses, then a table on the same line as a post-initializer.
fn call<'s>(tokens: TokenList<'s>, precedence: Precedence) -> (r: ParseResult<'s, OperatorTail<'s>>)
    requires
        tokens.wf(),
    ensures
        r matches Ok((rest, v)) ==> v.tokens() == tokens.tokens_to(rest),
        parsed(tokens, r, true),
        r matches Ok((_, tail)) ==> tail_binds(tail, precedence),
        r matches Ok((rest, tail)) ==> tail_read(tokens, tail, rest),
        terminal_at(tokens, tokens.pos(), TerminalToken::OpenBracket) && precedence.spec_level() < Precedence::Postfix.spec_level()
            ==> (r matches Err(e) ==> e.is_fatal),
        !(terminal_at(tokens, tokens.pos(), TerminalToken::OpenBracket) && precedence.spec_level() < Precedence::Postfix.spec_level())
            ==> (r matches Err(e) && !e.is_fatal),
    decreases tokens.remaining(), 0nat,
{
    // left associative
    if precedence.level() >= Precedence::Postfix.level() {
        return Err(precedence_error(tokens));
    }
    let (inner, outer, open, close, start, end) = span_open(
        tokens,
        ContextType::CallArgumentList,
        TerminalToken::OpenBracket,
        TerminalToken::CloseBracket,
        true,
    )?;
    let (rest, arguments) = in_span(call_arguments(inner), start, end, ContextType::CallArgumentList, true)?;
    opens_end(rest, TerminalToken::CloseBracket, start, end, ContextType::CallArgumentList, true)?;
    // A post-initializer may follow a call on the same line.
    let (t, post_initializer) = if outer.is_newline() {
        (outer, None)
    } else {
        table(outer).maybe(outer)?
    };
    Ok((t, OperatorTail::Call(open, arguments, close, post_initializer)))
}

/// The arguments of a call, separated by commas: an argument's error is fatal unless it is at the
/// end of the arguments.
fn call_arguments<'s>(tokens: TokenList<'s>) -> (r: ParseResult<'s, SeparatedListTrailing0<'s, Expression<'s>>>)
    requires
        tokens.wf(),
    ensures
        r matches Ok((rest, v)) ==> (match v {
            Some(l) => expression_trailing_list_tokens(l),
            None => Seq::empty(),
        }) == tokens.tokens_to(rest),
        parsed(tokens, r, false),
    decreases tokens.remaining(), 10nat,
{
    let parse_argument = |x: TokenList<'s>| -> (r: ParseResult<'s, Expression<'s>>)
        requires
            tokens.reaches(x),
        ensures
            r matches Ok((rest, v)) ==> v.tokens() == x.tokens_to(rest),
            parsed(x, r, true),
        {
            call_argument(x)
        };
    let separator = |x: TokenList<'s>| -> (r: ParseResult<'s, &'s Token<'s>>)
        requires
            tokens.reaches(x),
        ensures
            r matches Ok((rest, v)) ==> seq![*v] == x.tokens_to(rest),
            parsed(x, r, true),
        {
            terminal(x, TerminalToken::Comma)
        };
    let ghost f = |v: Expression<'s>| v.tokens();
    let r = separated_list_trailing0(tokens, parse_argument, separator, Ghost(f));
    proof {
        if let Ok((_, Some(l))) = &r {
            lemma_expression_pairs_tokens(l.items@, f);
        }
    }
    r
}

/// One argument of a call.
fn call_argument<'s>(tokens: TokenList<'s>) -> (r: ParseResult<'s, Expression<'s>>)
    requires
        tokens.wf(),
    ensures
        r matches Ok((rest, v)) ==> v.tokens() == tokens.tokens_to(rest),
        parsed(tokens, r, true),
    decreases tokens.remaining(), 9nat,
{
    let res = match expression(tokens, Precedence::Comma) {
        Ok((t, expr)) => Ok((t, *expr)),
        Err(e) => Err(e),
    };
    if tokens.is_ended() {
        res
    } else {
        res.definite()
    }
}

/// Parses a comma operator: `,` and expressions separated by commas.
fn comma<'s>(tokens: TokenList<'s>, precedence: Precedence) -> (r: ParseResult<'s, OperatorTail<'s>>)
    requires
        tokens.wf(),
    ensures
        r matches Ok((rest, v)) ==> v.tokens() == tokens.tokens_to(rest),
        parsed(tokens, r, true),
        r matches Ok((_, tail)) ==> tail_binds(tail, precedence),
        r matches Ok((rest, tail)) ==> tail_read(tokens, tail, rest),
        comma_binds(tokens, precedence) ==> (r matches Err(e) ==> e.is_fatal),
        !comma_binds(tokens, precedence) ==> (r matches Err(e) && !e.is_fatal),
    decreases tokens.remaining(), 0nat,
{
    // left associative
    if precedence.level() >= Precedence::Comma.level() {
        return Err(precedence_error(tokens));
    }
    let (t, first_comma) = terminal(tokens, TerminalToken::Comma)?;
    let parse_value = |x: TokenList<'s>| -> (r: ParseResult<'s, Expression<'s>>)
        requires
            t.reaches(x),
        ensures
            r matches Ok((rest, v)) ==> v.tokens() == x.tokens_to(rest),
            parsed(x, r, true),
        {
            match expression(x, Precedence::Comma) {
                Ok((y, expr)) => Ok((y, *expr)),
                Err(e) => Err(e),
            }
        };
    let separator = |x: TokenList<'s>| -> (r: ParseResult<'s, &'s Token<'s>>)
        requires
            t.reaches(x),
        ensures
            r matches Ok((rest, v)) ==> seq![*v] == x.tokens_to(rest),
            parsed(x, r, true),
        {
            terminal(x, TerminalToken::Comma)
        };
    let ghost f = |v: Expression<'s>| v.tokens();
    let (t, values) = separated_list1(t, parse_value, separator, Ghost(f)).definite()?;
    proof {
        lemma_expression_pairs_tokens(values.items@, f);
    }
    Ok((t, OperatorTail::Comma(first_comma, values)))
}

} // verus!
