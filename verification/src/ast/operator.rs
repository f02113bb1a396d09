use crate::ast::expression::{BinaryExpression, PostfixExpression, PrefixExpression};
use crate::ast::precedence::{Precedence};
use crate::token::Token;
use vstd::prelude::*;

verus! {

/// A binary operator in a [`BinaryExpression`].
///
/// There are six categories of binary operator:
///  - Assignment - includes `=`, `<-`, `+=`, etc.
///  - Math - includes `+`, `-`, `*`, `/` and `%`.
///  - Comparison - includes `==`, `!=`, `<`, `<=`, etc.
///  - Logical - includes `&&` and `||`.
///  - Bitwise - includes `&`, `|`, `^`, `<<`, `>>` and `>>>`.
///  - Test - includes `in` and `instanceof`.
///
/// Each operator has a [precedence] which defines how it is parsed as part of a longer expression.
///
/// [`BinaryExpression`]: crate::ast::BinaryExpression
/// [precedence]: BinaryOperator::precedence
#[derive(Debug, Clone, Copy)]
pub enum BinaryOperator<'s> {
    /// Grammar: `=`
    Assign(&'s Token<'s>),
    /// Grammar: `<` `-`
    AssignNewSlot(&'s Token<'s>, &'s Token<'s>),
    /// Grammar: `+=`
    AssignAdd(&'s Token<'s>),
    /// Grammar: `-=`
    AssignSubtract(&'s Token<'s>),
    /// Grammar: `*=`
    AssignMultiply(&'s Token<'s>),
    /// Grammar: `/=`
    AssignDivide(&'s Token<'s>),
    /// Grammar: `%=`
    AssignModulo(&'s Token<'s>),

    /// Grammar: `+`
    Add(&'s Token<'s>),
    /// Grammar: `-`
    Subtract(&'s Token<'s>),
    /// Grammar: `*`
    Multiply(&'s Token<'s>),
    /// Grammar: `/`
    Divide(&'s Token<'s>),
    /// Grammar: `%`
    Modulo(&'s Token<'s>),

    /// Grammar: `==`
    Equal(&'s Token<'s>),
    /// Grammar: `!=`
    NotEqual(&'s Token<'s>),
    /// Grammar: `<`
    Less(&'s Token<'s>),
    /// Grammar: `<=`
    LessEqual(&'s Token<'s>),
    /// Grammar: `>`
    Greater(&'s Token<'s>),
    /// Grammar: `>=`
    GreaterEqual(&'s Token<'s>),
    /// Grammar: `<=>`
    ThreeWay(&'s Token<'s>),

    /// Grammar: `&&`
    LogicalAnd(&'s Token<'s>),
    /// Grammar: `||`
    LogicalOr(&'s Token<'s>),

    /// Grammar: `&`
    BitwiseAnd(&'s Token<'s>),
    /// Grammar: `|`
    BitwiseOr(&'s Token<'s>),
    /// Grammar: `^`
    BitwiseXor(&'s Token<'s>),
    /// Grammar: `<` `<`
    ShiftLeft(&'s Token<'s>, &'s Token<'s>),
    /// Grammar: `>` `>`
    ShiftRight(&'s Token<'s>, &'s Token<'s>),
    /// Grammar: `>` `>` `>`
    UnsignedShiftRight(&'s Token<'s>, &'s Token<'s>, &'s Token<'s>),

    /// Grammar: `in`
    In(&'s Token<'s>),
    /// Grammar: `instanceof`
    Instanceof(&'s Token<'s>),
}

/// A prefix operator in a [`PrefixExpression`].
///
/// All prefix operators share the [`Prefix`] precedence.
///
/// [`PrefixExpression`]: crate::ast::PrefixExpression
/// [`Prefix`]: Precedence::Prefix
#[derive(Debug, Clone, Copy)]
pub enum PrefixOperator<'s> {
    /// Grammar: `-`
    Negate(&'s Token<'s>),
    /// Grammar: `!`
    LogicalNot(&'s Token<'s>),
    /// Grammar: `~`
    BitwiseNot(&'s Token<'s>),
    /// Grammar: `typeof`
    Typeof(&'s Token<'s>),
    /// Grammar: `clone`
    Clone(&'s Token<'s>),
    /// Grammar: `delete`
    Delete(&'s Token<'s>),
    /// Grammar: `++`
    Increment(&'s Token<'s>),
    /// Grammar: `--`
    Decrement(&'s Token<'s>),
}

/// A postfix operator in a [`PostfixExpression`].
///
/// All postfix operators share the [`Postfix`] precedence.
///
/// [`PostfixExpression`]: crate::ast::PostfixExpression
/// [`Postfix`]: Precedence::Postfix
#[derive(Debug, Clone, Copy)]
pub enum PostfixOperator<'s> {
    /// Grammar: `++`
    Increment(&'s Token<'s>),
    /// Grammar: `--`
    Decrement(&'s Token<'s>),
}

impl<'s> BinaryOperator<'s> {
    /// The [`Precedence`] of the operator.
    pub open spec fn spec_precedence(self) -> Precedence {
        match self {
            BinaryOperator::Assign(_)
            | BinaryOperator::AssignNewSlot(_, _)
            | BinaryOperator::AssignAdd(_)
            | BinaryOperator::AssignSubtract(_)
            | BinaryOperator::AssignMultiply(_)
            | BinaryOperator::AssignDivide(_)
            | BinaryOperator::AssignModulo(_) => Precedence::Assignment,

            BinaryOperator::LogicalOr(_) => Precedence::LogicalOr,

            BinaryOperator::LogicalAnd(_)
            | BinaryOperator::In(_)
            | BinaryOperator::Instanceof(_) => Precedence::TestOrLogicalAnd,

            BinaryOperator::BitwiseOr(_) => Precedence::BitwiseOr,
            BinaryOperator::BitwiseXor(_) => Precedence::BitwiseXor,
            BinaryOperator::BitwiseAnd(_) => Precedence::BitwiseAnd,

            BinaryOperator::Equal(_) | BinaryOperator::NotEqual(_) => Precedence::Equality,

            BinaryOperator::Less(_)
            | BinaryOperator::LessEqual(_)
            | BinaryOperator::Greater(_)
            | BinaryOperator::GreaterEqual(_)
            | BinaryOperator::ThreeWay(_) => Precedence::Comparison,

            BinaryOperator::ShiftLeft(_, _)
            | BinaryOperator::ShiftRight(_, _)
            | BinaryOperator::UnsignedShiftRight(_, _, _) => Precedence::Bitshift,

            BinaryOperator::Add(_) | BinaryOperator::Subtract(_) => Precedence::AddSubtract,

            BinaryOperator::Multiply(_) | BinaryOperator::Divide(_) | BinaryOperator::Modulo(_) => {
                Precedence::MultiplyDivideModulo
            }
        }
    }

    /// Returns the [`Precedence`] of the operator.
    pub fn precedence(self) -> (r: Precedence)
        ensures
            r == self.spec_precedence(),
    {
        match self {
            BinaryOperator::Assign(_)
            | BinaryOperator::AssignNewSlot(_, _)
            | BinaryOperator::AssignAdd(_)
            | BinaryOperator::AssignSubtract(_)
            | BinaryOperator::AssignMultiply(_)
            | BinaryOperator::AssignDivide(_)
            | BinaryOperator::AssignModulo(_) => Precedence::Assignment,

            BinaryOperator::LogicalOr(_) => Precedence::LogicalOr,

            BinaryOperator::LogicalAnd(_)
            | BinaryOperator::In(_)
            | BinaryOperator::Instanceof(_) => Precedence::TestOrLogicalAnd,

            BinaryOperator::BitwiseOr(_) => Precedence::BitwiseOr,
            BinaryOperator::BitwiseXor(_) => Precedence::BitwiseXor,
            BinaryOperator::BitwiseAnd(_) => Precedence::BitwiseAnd,

            BinaryOperator::Equal(_) | BinaryOperator::NotEqual(_) => Precedence::Equality,

            BinaryOperator::Less(_)
            | BinaryOperator::LessEqual(_)
            | BinaryOperator::Greater(_)
            | BinaryOperator::GreaterEqual(_)
            | BinaryOperator::ThreeWay(_) => Precedence::Comparison,

            BinaryOperator::ShiftLeft(_, _)
            | BinaryOperator::ShiftRight(_, _)
            | BinaryOperator::UnsignedShiftRight(_, _, _) => Precedence::Bitshift,

            BinaryOperator::Add(_) | BinaryOperator::Subtract(_) => Precedence::AddSubtract,

            BinaryOperator::Multiply(_) | BinaryOperator::Divide(_) | BinaryOperator::Modulo(_) => {
                Precedence::MultiplyDivideModulo
            }
        }
    }
}

impl<'s> BinaryOperator<'s> {
    /// The tokens of the node, in source order.
    pub open spec fn tokens(self) -> Seq<Token<'s>>
        decreases self,
    {
        match self {
            BinaryOperator::Assign(t0) => seq![*t0],
            BinaryOperator::AssignNewSlot(t0, t1) => seq![*t0] + seq![*t1],
            BinaryOperator::AssignAdd(t0) => seq![*t0],
            BinaryOperator::AssignSubtract(t0) => seq![*t0],
            BinaryOperator::AssignMultiply(t0) => seq![*t0],
            BinaryOperator::AssignDivide(t0) => seq![*t0],
            BinaryOperator::AssignModulo(t0) => seq![*t0],
            BinaryOperator::Add(t0) => seq![*t0],
            BinaryOperator::Subtract(t0) => seq![*t0],
            BinaryOperator::Multiply(t0) => seq![*t0],
            BinaryOperator::Divide(t0) => seq![*t0],
            BinaryOperator::Modulo(t0) => seq![*t0],
            BinaryOperator::Equal(t0) => seq![*t0],
            BinaryOperator::NotEqual(t0) => seq![*t0],
            BinaryOperator::Less(t0) => seq![*t0],
            BinaryOperator::LessEqual(t0) => seq![*t0],
            BinaryOperator::Greater(t0) => seq![*t0],
            BinaryOperator::GreaterEqual(t0) => seq![*t0],
            BinaryOperator::ThreeWay(t0) => seq![*t0],
            BinaryOperator::LogicalAnd(t0) => seq![*t0],
            BinaryOperator::LogicalOr(t0) => seq![*t0],
            BinaryOperator::BitwiseAnd(t0) => seq![*t0],
            BinaryOperator::BitwiseOr(t0) => seq![*t0],
            BinaryOperator::BitwiseXor(t0) => seq![*t0],
            BinaryOperator::ShiftLeft(t0, t1) => seq![*t0] + seq![*t1],
            BinaryOperator::ShiftRight(t0, t1) => seq![*t0] + seq![*t1],
            BinaryOperator::UnsignedShiftRight(t0, t1, t2) => seq![*t0] + seq![*t1] + seq![*t2],
            BinaryOperator::In(t0) => seq![*t0],
            BinaryOperator::Instanceof(t0) => seq![*t0],
        }
    }
}

impl<'s> PrefixOperator<'s> {
    /// The tokens of the node, in source order.
    pub open spec fn tokens(self) -> Seq<Token<'s>>
        decreases self,
    {
        match self {
            PrefixOperator::Negate(t0) => seq![*t0],
            PrefixOperator::LogicalNot(t0) => seq![*t0],
            PrefixOperator::BitwiseNot(t0) => seq![*t0],
            PrefixOperator::Typeof(t0) => seq![*t0],
            PrefixOperator::Clone(t0) => seq![*t0],
            PrefixOperator::Delete(t0) => seq![*t0],
            PrefixOperator::Increment(t0) => seq![*t0],
            PrefixOperator::Decrement(t0) => seq![*t0],
        }
    }
}

impl<'s> PostfixOperator<'s> {
    /// The tokens of the node, in source order.
    pub open spec fn tokens(self) -> Seq<Token<'s>>
        decreases self,
    {
        match self {
            PostfixOperator::Increment(t0) => seq![*t0],
            PostfixOperator::Decrement(t0) => seq![*t0],
        }
    }
}

/// The binding strength of every binary operator, as the language's table of operators sets it
/// (the levels of [`Precedence`] run from 0 for the end of input, 1 for the comma operator and 3 for
/// the ternary operator up to 14 for prefix operators): assignments bind at 2, `||` at 4, `&&`,
/// `in` and `instanceof` at 5, `|` at 6, `^` at 7, `&` at 8, `==` and `!=` at 9, the comparisons at
/// 10, the shifts at 11, `+` and `-` at 12, and `*`, `/` and `%` at 13. So `&&` binds more tightly
/// than `||`, and `*` more tightly than `+`.
pub proof fn lemma_binary_precedence_table(op: BinaryOperator)
    ensures
        op is Assign || op is AssignNewSlot || op is AssignAdd || op is AssignSubtract || op is AssignMultiply || op is AssignDivide || op is AssignModulo ==> op.spec_precedence().spec_level() == 2,
        op is LogicalOr ==> op.spec_precedence().spec_level() == 4,
        op is LogicalAnd || op is In || op is Instanceof ==> op.spec_precedence().spec_level() == 5,
        op is BitwiseOr ==> op.spec_precedence().spec_level() == 6,
        op is BitwiseXor ==> op.spec_precedence().spec_level() == 7,
        op is BitwiseAnd ==> op.spec_precedence().spec_level() == 8,
        op is Equal || op is NotEqual ==> op.spec_precedence().spec_level() == 9,
        op is Less || op is LessEqual || op is Greater || op is GreaterEqual || op is ThreeWay ==> op.spec_precedence().spec_level() == 10,
        op is ShiftLeft || op is ShiftRight || op is UnsignedShiftRight ==> op.spec_precedence().spec_level() == 11,
        op is Add || op is Subtract ==> op.spec_precedence().spec_level() == 12,
        op is Multiply || op is Divide || op is Modulo ==> op.spec_precedence().spec_level() == 13,
        Precedence::Lowest.spec_level() == 0 && Precedence::Comma.spec_level() == 1 && Precedence::Ternary.spec_level()
            == 3 && Precedence::Prefix.spec_level() == 14 && Precedence::Postfix.spec_level() == 15
            && Precedence::Property.spec_level() == 16,
{
}

} // verus!
