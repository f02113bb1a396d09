use vstd::prelude::*;

verus! {

/// Table of precedence values for different kinds of expression operators.
///
/// The higher the precedence, the closer that operator will "bind" its directly adjacent
/// expressions.
///
/// For example, the expression `A + B . C` is parsed as `A + (B . C)` because the [Property]
/// precedence is higher than [AddSubtract]. If it was not, the expression could parse as
/// `(A + B) . C`.
///
/// [Property]: Precedence::Property
/// [AddSubtract]: Precedence::AddSubtract
#[derive(Debug, Clone, Copy, PartialEq, Eq, Structural)]
pub enum Precedence {
    /// Reserved value for the precedence of the end of the input.
    Lowest,

    /// Comma operator, i.e `A, B, C`.
    Comma,

    /// Binary assignment operators like `A = B`, `A += B`, etc.
    Assignment,

    /// Expressions in a ternary operator, i.e `A ? B : C`.
    Ternary,

    /// `A || B`.
    LogicalOr,

    /// `A && B`, `A in B`, `A instanceof B`.
    TestOrLogicalAnd,

    /// `A | B`
    BitwiseOr,

    /// `A ^ B`
    BitwiseXor,

    /// `A & B`
    BitwiseAnd,

    /// Binary equality like `A == B` and `A != B`.
    Equality,

    /// Binary comparisons like `A < B`, `A <= B`, etc.
    Comparison,

    /// Bitshift operators like `<<`, `>>`, `>>>`.
    Bitshift,

    /// `A + B` and `A - B`
    AddSubtract,

    /// `A * B`, `A / B` and `A % B`
    MultiplyDivideModulo,

    /// Prefix operators like `-`, `~`, `!`, `typeof`, `++`, `--`, `delegate A : B`.
    Prefix,

    /// `A++`, `A--`, `A(...)`, `A[...]`.
    Postfix,

    /// `A.B`
    Property,
}

impl Precedence {
    /// The binding strength of the precedence, from 0 for [`Precedence::Lowest`] to 16 for
    /// [`Precedence::Property`].
    pub open spec fn spec_level(self) -> int {
        match self {
            Precedence::Lowest => 0,
            Precedence::Comma => 1,
            Precedence::Assignment => 2,
            Precedence::Ternary => 3,
            Precedence::LogicalOr => 4,
            Precedence::TestOrLogicalAnd => 5,
            Precedence::BitwiseOr => 6,
            Precedence::BitwiseXor => 7,
            Precedence::BitwiseAnd => 8,
            Precedence::Equality => 9,
            Precedence::Comparison => 10,
            Precedence::Bitshift => 11,
            Precedence::AddSubtract => 12,
            Precedence::MultiplyDivideModulo => 13,
            Precedence::Prefix => 14,
            Precedence::Postfix => 15,
            Precedence::Property => 16,
        }
    }

    /// The binding strength of the precedence.
    pub fn level(self) -> (r: u8)
        ensures
            r == self.spec_level(),
    {
        match self {
            Precedence::Lowest => 0,
            Precedence::Comma => 1,
            Precedence::Assignment => 2,
            Precedence::Ternary => 3,
            Precedence::LogicalOr => 4,
            Precedence::TestOrLogicalAnd => 5,
            Precedence::BitwiseOr => 6,
            Precedence::BitwiseXor => 7,
            Precedence::BitwiseAnd => 8,
            Precedence::Equality => 9,
            Precedence::Comparison => 10,
            Precedence::Bitshift => 11,
            Precedence::AddSubtract => 12,
            Precedence::MultiplyDivideModulo => 13,
            Precedence::Prefix => 14,
            Precedence::Postfix => 15,
            Precedence::Property => 16,
        }
    }
}

} // verus!
