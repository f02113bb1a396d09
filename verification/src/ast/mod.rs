//! Abstract syntax tree definitions produced by the parser.
//!
//! The root node of a tree is a [`Program`], which holds [`Statement`]s. A statement may hold
//! [`Expression`]s and [`Type`]s.

pub mod array;
pub mod class;
pub mod control;
pub mod enum_;
pub mod expression;
pub mod function;
pub mod global;
pub mod identifier;
pub mod list;
pub mod operator;
pub mod precedence;
pub mod slot;
pub mod statement;
pub mod struct_;
pub mod table;
pub mod tokens;
pub mod type_;
pub mod variable;

pub use self::array::{ArrayValue};
pub use self::class::{ClassDefinition, ClassExtends, ClassMember};
pub use self::control::{IfStatementType, SwitchCase, SwitchCaseCondition, ForDefinition, ForeachIndex};
pub use self::enum_::{EnumEntry};
pub use self::expression::{Expression, ParensExpression, LiteralExpression, VarExpression, RootVarExpression, PrefixExpression, TableExpression, ClassExpression, ArrayExpression, FunctionExpression, DelegateExpression, VectorExpression, ExpectExpression, IndexExpression, PropertyExpression, TernaryExpression, BinaryExpression, PostfixExpression, CallExpression, CommaExpression};
pub use self::function::{FunctionDefinition, FunctionEnvironment, FunctionParams, FunctionParam, FunctionCaptures, FunctionRefParam, CallArgument};
pub use self::global::{GlobalDefinition};
pub use self::identifier::{Identifier, MethodIdentifier};
pub use self::list::{SeparatedList1, SeparatedList0, SeparatedListTrailing1, SeparatedListTrailing0};
pub use self::operator::{BinaryOperator, PrefixOperator, PostfixOperator};
pub use self::precedence::{Precedence};
pub use self::slot::{Slot};
pub use self::statement::{Statement, StatementType, EmptyStatement, BlockStatement, IfStatement, WhileStatement, DoWhileStatement, SwitchStatement, ForStatement, ForeachStatement, BreakStatement, ContinueStatement, ReturnStatement, YieldStatement, VarDefinitionStatement, ConstructorDefinitionStatement, FunctionDefinitionStatement, ClassDefinitionStatement, TryCatchStatement, ThrowStatement, ConstDefinitionStatement, EnumDefinitionStatement, ExpressionStatement, ThreadStatement, DelayThreadStatement, WaitThreadStatement, WaitStatement, StructDefinitionStatement, TypeDefinitionStatement, GlobalStatement, GlobalizeAllFunctionsStatement, UntypedStatement};
pub use self::struct_::{StructDeclaration, StructProperty};
pub use self::table::{TableSlot, TableSlotType};
pub use self::type_::{Type, LocalType, VarType, PlainType, StructType, ArrayType, GenericType, FunctionRefType, ReferenceType, NullableType};
pub use self::variable::{VarDeclaration, VarInitializer};

use crate::token::Token;
use crate::ast::tokens::statement_seq_tokens;
use vstd::prelude::*;

verus! {

/// Contains statements that form a program.
///
/// Grammar: [Statement]*
#[derive(Debug)]
pub struct Program<'s> {
    pub statements: Vec<Statement<'s>>,
}

impl<'s> Program<'s> {
    /// The tokens of the node, in source order.
    pub open spec fn tokens(self) -> Seq<Token<'s>>
        decreases self,
    {
        statement_seq_tokens(self.statements@)
    }
}

} // verus!
