use crate::ast::tokens::{array_value_seq_tokens, expression_list_tokens, expression_trailing_list_tokens, opt_token, table_slot_seq_tokens};
use crate::ast::array::{ArrayValue};
use crate::ast::class::{ClassDefinition};
use crate::ast::function::{FunctionDefinition};
use crate::ast::identifier::{Identifier, MethodIdentifier};
use crate::ast::list::{SeparatedList1, SeparatedListTrailing0};
use crate::ast::operator::{BinaryOperator, PostfixOperator, PrefixOperator};
use crate::ast::precedence::{Precedence};
use crate::ast::table::{TableSlot};
use crate::ast::type_::{Type};
use crate::token::Token;
use crate::token::LiteralToken;
use vstd::prelude::*;

verus! {

/// An expression.
///
/// Many types of expressions are recursive, containing other expressions. [Precedence] is used to
/// determine how to parse these expressions.
///
/// [Precedence]: crate::ast::Precedence
#[derive(Debug)]
pub enum Expression<'s> {
    Parens(ParensExpression<'s>),
    Literal(LiteralExpression<'s>),
    Var(VarExpression<'s>),
    RootVar(RootVarExpression<'s>),
    Index(IndexExpression<'s>),
    Property(PropertyExpression<'s>),
    Ternary(TernaryExpression<'s>),
    Binary(BinaryExpression<'s>),
    Prefix(PrefixExpression<'s>),
    Postfix(PostfixExpression<'s>),
    Comma(CommaExpression<'s>),
    Table(TableExpression<'s>),
    Class(ClassExpression<'s>),
    Array(ArrayExpression<'s>),
    Function(FunctionExpression<'s>),
    Call(CallExpression<'s>),
    Delegate(DelegateExpression<'s>),
    Vector(VectorExpression<'s>),
    Expect(ExpectExpression<'s>),
}

/// An expression enclosed in parentheses.
///
/// Grammar: `(` [Expression] `)`
#[derive(Debug)]
pub struct ParensExpression<'s> {
    pub open: &'s Token<'s>,
    pub value: Box<Expression<'s>>,
    pub close: &'s Token<'s>,
}

/// A single literal value.
///
/// Grammar: [LiteralToken]
#[derive(Debug)]
pub struct LiteralExpression<'s> {
    pub literal: LiteralToken<'s>,
    pub token: &'s Token<'s>,
}

/// A variable reference.
///
/// Grammar: [Identifier]
#[derive(Debug)]
pub struct VarExpression<'s> {
    pub name: Identifier<'s>,
}

/// A reference to a variable in the root table.
///
/// Grammar: `::` [Identifier]
#[derive(Debug)]
pub struct RootVarExpression<'s> {
    pub root: &'s Token<'s>,
    pub name: Identifier<'s>,
}

/// An expression with a prefixed operator.
///
/// Grammar: [PrefixOperator] [Expression]
#[derive(Debug)]
pub struct PrefixExpression<'s> {
    pub operator: PrefixOperator<'s>,
    pub value: Box<Expression<'s>>,
}

/// A table literal.
///
/// Grammar: `{` [TableSlot]* `...`? `}`
#[derive(Debug)]
pub struct TableExpression<'s> {
    pub open: &'s Token<'s>,
    pub slots: Vec<TableSlot<'s>>,
    pub spread: Option<&'s Token<'s>>,
    pub close: &'s Token<'s>,
}

/// A class literal.
///
/// Grammar: `class` [ClassDefinition]
#[derive(Debug)]
pub struct ClassExpression<'s> {
    pub class: &'s Token<'s>,
    pub definition: ClassDefinition<'s>,
}

/// An array literal.
///
/// Grammar: `[` [ArrayValue]* `...`? `]`
#[derive(Debug)]
pub struct ArrayExpression<'s> {
    pub open: &'s Token<'s>,
    pub values: Vec<ArrayValue<'s>>,
    pub spread: Option<&'s Token<'s>>,
    pub close: &'s Token<'s>,
}

/// A function literal.
///
/// Grammar: [Type]? `function` [FunctionDefinition]
#[derive(Debug)]
pub struct FunctionExpression<'s> {
    pub return_type: Option<Type<'s>>,
    pub function: &'s Token<'s>,
    pub definition: FunctionDefinition<'s>,
}

/// A delegate expression.
///
/// Grammar: `delegate` [Expression] `:` [Expression]
#[derive(Debug)]
pub struct DelegateExpression<'s> {
    pub delegate: &'s Token<'s>,
    pub parent: Box<Expression<'s>>,
    pub colon: &'s Token<'s>,
    pub value: Box<Expression<'s>>,
}

/// A vector literal.
///
/// Grammar: `<` [Expression] `,` [Expression] `,` [Expression] `>`
#[derive(Debug)]
pub struct VectorExpression<'s> {
    pub open: &'s Token<'s>,
    pub x: Box<Expression<'s>>,
    pub comma_1: &'s Token<'s>,
    pub y: Box<Expression<'s>>,
    pub comma_2: &'s Token<'s>,
    pub z: Box<Expression<'s>>,
    pub close: &'s Token<'s>,
}

/// An expect expression.
///
/// Grammar: `expect` [Type] `(` [Expression] `)`
#[derive(Debug)]
pub struct ExpectExpression<'s> {
    pub expect: &'s Token<'s>,
    pub ty: Type<'s>,
    pub open: &'s Token<'s>,
    pub value: Box<Expression<'s>>,
    pub close: &'s Token<'s>,
}

/// An index expression.
///
/// Grammar: [Expression] `[` [Expression] `]`
#[derive(Debug)]
pub struct IndexExpression<'s> {
    pub base: Box<Expression<'s>>,
    pub open: &'s Token<'s>,
    pub index: Box<Expression<'s>>,
    pub close: &'s Token<'s>,
}

/// A property access expression.
///
/// Grammar: [Expression] `.` [MethodIdentifier]
#[derive(Debug)]
pub struct PropertyExpression<'s> {
    pub base: Box<Expression<'s>>,
    pub dot: &'s Token<'s>,
    pub property: MethodIdentifier<'s>,
}

/// A ternary expression.
///
/// Grammar: [Expression] `?` [Expression] `:` [Expression]
#[derive(Debug)]
pub struct TernaryExpression<'s> {
    pub condition: Box<Expression<'s>>,
    pub question: &'s Token<'s>,
    pub true_value: Box<Expression<'s>>,
    pub separator: &'s Token<'s>,
    pub false_value: Box<Expression<'s>>,
}

/// A binary expression - assignment, comparison, test, or math.
///
/// Grammar: [Expression] [BinaryOperator] [Expression]
#[derive(Debug)]
pub struct BinaryExpression<'s> {
    pub left: Box<Expression<'s>>,
    pub operator: BinaryOperator<'s>,
    pub right: Box<Expression<'s>>,
}

/// An expression with a postfix operator.
///
/// Grammar: [Expression] [PostfixOperator]
#[derive(Debug)]
pub struct PostfixExpression<'s> {
    pub value: Box<Expression<'s>>,
    pub operator: PostfixOperator<'s>,
}

/// A function call expression.
///
/// Grammar: [Expression] `(` [SeparatedListTrailing0]<[Expression] `,`> `)` [TableExpression]?
#[derive(Debug)]
pub struct CallExpression<'s> {
    pub function: Box<Expression<'s>>,
    pub open: &'s Token<'s>,
    pub arguments: SeparatedListTrailing0<'s, Expression<'s>>,
    pub close: &'s Token<'s>,
    pub post_initializer: Option<TableExpression<'s>>,
}

/// A comma expression, with two or more sub-expressions.
///
/// Grammar: [SeparatedList1]<[Expression] `,`>
#[derive(Debug)]
pub struct CommaExpression<'s> {
    pub values: SeparatedList1<'s, Expression<'s>>,
}

impl<'s> Expression<'s> {
    /// The tokens of the node, in source order.
    pub open spec fn tokens(self) -> Seq<Token<'s>>
        decreases self,
    {
        match self {
            Expression::Parens(node) => node.tokens(),
            Expression::Literal(node) => node.tokens(),
            Expression::Var(node) => node.tokens(),
            Expression::RootVar(node) => node.tokens(),
            Expression::Index(node) => node.tokens(),
            Expression::Property(node) => node.tokens(),
            Expression::Ternary(node) => node.tokens(),
            Expression::Binary(node) => node.tokens(),
            Expression::Prefix(node) => node.tokens(),
            Expression::Postfix(node) => node.tokens(),
            Expression::Comma(node) => node.tokens(),
            Expression::Table(node) => node.tokens(),
            Expression::Class(node) => node.tokens(),
            Expression::Array(node) => node.tokens(),
            Expression::Function(node) => node.tokens(),
            Expression::Call(node) => node.tokens(),
            Expression::Delegate(node) => node.tokens(),
            Expression::Vector(node) => node.tokens(),
            Expression::Expect(node) => node.tokens(),
        }
    }
}

impl<'s> ParensExpression<'s> {
    /// The tokens of the node, in source order.
    pub open spec fn tokens(self) -> Seq<Token<'s>>
        decreases self,
    {
        seq![*self.open] + (*self.value).tokens() + seq![*self.close]
    }
}

impl<'s> LiteralExpression<'s> {
    /// The tokens of the node, in source order.
    pub open spec fn tokens(self) -> Seq<Token<'s>>
        decreases self,
    {
        seq![*self.token]
    }
}

impl<'s> VarExpression<'s> {
    /// The tokens of the node, in source order.
    pub open spec fn tokens(self) -> Seq<Token<'s>>
        decreases self,
    {
        self.name.tokens()
    }
}

impl<'s> RootVarExpression<'s> {
    /// The tokens of the node, in source order.
    pub open spec fn tokens(self) -> Seq<Token<'s>>
        decreases self,
    {
        seq![*self.root] + self.name.tokens()
    }
}

impl<'s> PrefixExpression<'s> {
    /// The tokens of the node, in source order.
    pub open spec fn tokens(self) -> Seq<Token<'s>>
        decreases self,
    {
        self.operator.tokens() + (*self.value).tokens()
    }
}

impl<'s> TableExpression<'s> {
    /// The tokens of the node, in source order.
    pub open spec fn tokens(self) -> Seq<Token<'s>>
        decreases self,
    {
        seq![*self.open] + table_slot_seq_tokens(self.slots@) + opt_token(self.spread) + seq![*self.close]
    }
}

impl<'s> ClassExpression<'s> {
    /// The tokens of the node, in source order.
    pub open spec fn tokens(self) -> Seq<Token<'s>>
        decreases self,
    {
        seq![*self.class] + self.definition.tokens()
    }
}

impl<'s> ArrayExpression<'s> {
    /// The tokens of the node, in source order.
    pub open spec fn tokens(self) -> Seq<Token<'s>>
        decreases self,
    {
        seq![*self.open] + array_value_seq_tokens(self.values@) + opt_token(self.spread) + seq![*self.close]
    }
}

impl<'s> FunctionExpression<'s> {
    /// The tokens of the node, in source order.
    pub open spec fn tokens(self) -> Seq<Token<'s>>
        decreases self,
    {
        (match self.return_type { Some(x) => x.tokens(), None => Seq::empty() }) + seq![*self.function] + self.definition.tokens()
    }
}

impl<'s> DelegateExpression<'s> {
    /// The tokens of the node, in source order.
    pub open spec fn tokens(self) -> Seq<Token<'s>>
        decreases self,
    {
        seq![*self.delegate] + (*self.parent).tokens() + seq![*self.colon] + (*self.value).tokens()
    }
}

impl<'s> VectorExpression<'s> {
    /// The tokens of the node, in source order.
    pub open spec fn tokens(self) -> Seq<Token<'s>>
        decreases self,
    {
        seq![*self.open] + (*self.x).tokens() + seq![*self.comma_1] + (*self.y).tokens() + seq![*self.comma_2] + (*self.z).tokens() + seq![*self.close]
    }
}

impl<'s> ExpectExpression<'s> {
    /// The tokens of the node, in source order.
    pub open spec fn tokens(self) -> Seq<Token<'s>>
        decreases self,
    {
        seq![*self.expect] + self.ty.tokens() + seq![*self.open] + (*self.value).tokens() + seq![*self.close]
    }
}

impl<'s> IndexExpression<'s> {
    /// The tokens of the node, in source order.
    pub open spec fn tokens(self) -> Seq<Token<'s>>
        decreases self,
    {
        (*self.base).tokens() + seq![*self.open] + (*self.index).tokens() + seq![*self.close]
    }
}

impl<'s> PropertyExpression<'s> {
    /// The tokens of the node, in source order.
    pub open spec fn tokens(self) -> Seq<Token<'s>>
        decreases self,
    {
        (*self.base).tokens() + seq![*self.dot] + self.property.tokens()
    }
}

impl<'s> TernaryExpression<'s> {
    /// The tokens of the node, in source order.
    pub open spec fn tokens(self) -> Seq<Token<'s>>
        decreases self,
    {
        (*self.condition).tokens() + seq![*self.question] + (*self.true_value).tokens() + seq![*self.separator] + (*self.false_value).tokens()
    }
}

impl<'s> BinaryExpression<'s> {
    /// The tokens of the node, in source order.
    pub open spec fn tokens(self) -> Seq<Token<'s>>
        decreases self,
    {
        (*self.left).tokens() + self.operator.tokens() + (*self.right).tokens()
    }
}

impl<'s> PostfixExpression<'s> {
    /// The tokens of the node, in source order.
    pub open spec fn tokens(self) -> Seq<Token<'s>>
        decreases self,
    {
        (*self.value).tokens() + self.operator.tokens()
    }
}

impl<'s> CallExpression<'s> {
    /// The tokens of the node, in source order.
    pub open spec fn tokens(self) -> Seq<Token<'s>>
        decreases self,
    {
        (*self.function).tokens() + seq![*self.open] + (match self.arguments { Some(l) => expression_trailing_list_tokens(l), None => Seq::empty() }) + seq![*self.close] + (match self.post_initializer { Some(x) => x.tokens(), None => Seq::empty() })
    }
}

impl<'s> CommaExpression<'s> {
    /// The tokens of the node, in source order.
    pub open spec fn tokens(self) -> Seq<Token<'s>>
        decreases self,
    {
        expression_list_tokens(self.values)
    }
}

} // verus!
