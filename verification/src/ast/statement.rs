use crate::ast::tokens::{enum_entry_seq_tokens, identifier_list_tokens, identifier_pairs_tokens, opt_token, statement_seq_tokens, switch_case_seq_tokens, var_declaration_trailing_list_tokens};
use crate::ast::class::{ClassDefinition};
use crate::ast::control::{ForDefinition, ForeachIndex, IfStatementType, SwitchCase};
use crate::ast::enum_::{EnumEntry};
use crate::ast::expression::{Expression};
use crate::ast::function::{FunctionDefinition};
use crate::ast::global::{GlobalDefinition};
use crate::ast::identifier::{Identifier};
use crate::ast::list::{SeparatedList1, SeparatedListTrailing1};
use crate::ast::struct_::{StructDeclaration};
use crate::ast::type_::{Type};
use crate::ast::variable::{VarDeclaration, VarInitializer};
use crate::token::Token;
use vstd::prelude::*;

verus! {

/// A statement.
///
/// A Squirrel program is made up of a list of statements. Statements are either separated by
/// semicolons (`;`) or newlines.
///
/// Grammar: [StatementType] `;`?
#[derive(Debug)]
pub struct Statement<'s> {
    pub ty: StatementType<'s>,
    pub semicolon: Option<&'s Token<'s>>,
}

/// A statement, excluding a trailing semicolon.
#[derive(Debug)]
pub enum StatementType<'s> {
    Empty(EmptyStatement<'s>),
    Block(BlockStatement<'s>),
    If(IfStatement<'s>),
    While(WhileStatement<'s>),
    DoWhile(DoWhileStatement<'s>),
    Switch(SwitchStatement<'s>),
    For(ForStatement<'s>),
    Foreach(ForeachStatement<'s>),
    Break(BreakStatement<'s>),
    Continue(ContinueStatement<'s>),
    Return(ReturnStatement<'s>),
    Yield(YieldStatement<'s>),
    VarDeclaration(VarDefinitionStatement<'s>),
    ConstructorDefinition(ConstructorDefinitionStatement<'s>),
    FunctionDefinition(FunctionDefinitionStatement<'s>),
    ClassDefinition(ClassDefinitionStatement<'s>),
    TryCatch(TryCatchStatement<'s>),
    Throw(ThrowStatement<'s>),
    Const(ConstDefinitionStatement<'s>),
    EnumDefinition(EnumDefinitionStatement<'s>),
    Expression(ExpressionStatement<'s>),

    // _re additions
    Thread(ThreadStatement<'s>),
    DelayThread(DelayThreadStatement<'s>),
    WaitThread(WaitThreadStatement<'s>),
    Wait(WaitStatement<'s>),
    StructDeclaration(StructDefinitionStatement<'s>),
    TypeDefinition(TypeDefinitionStatement<'s>),
    Global(GlobalStatement<'s>),
    GlobalizeAllFunctions(GlobalizeAllFunctionsStatement<'s>),
    Untyped(UntypedStatement<'s>),
}

/// An empty statement.
///
/// Grammar: &lt;empty>?
#[derive(Debug)]
pub struct EmptyStatement<'s> {
    pub empty: Option<&'s Token<'s>>,
}

/// A block statement.
///
/// Grammar: `{` [Statement]+ `}`
#[derive(Debug)]
pub struct BlockStatement<'s> {
    pub open: &'s Token<'s>,
    pub statements: Vec<Statement<'s>>,
    pub close: &'s Token<'s>,
}

/// An `if` statement, with an optional `else` block.
///
/// Grammar: `if` `(` [Expression] `)` [IfStatementType]
#[derive(Debug)]
pub struct IfStatement<'s> {
    pub if_: &'s Token<'s>,
    pub open: &'s Token<'s>,
    pub condition: Box<Expression<'s>>,
    pub close: &'s Token<'s>,
    pub ty: IfStatementType<'s>,
}

/// A `while` statement.
///
/// Grammar: `while` `(` [Expression] `)` [StatementType]
#[derive(Debug)]
pub struct WhileStatement<'s> {
    pub while_: &'s Token<'s>,
    pub open: &'s Token<'s>,
    pub condition: Box<Expression<'s>>,
    pub close: &'s Token<'s>,
    pub body: Box<StatementType<'s>>,
}

/// A `do-while` statement.
///
/// Grammar: `do` [Statement] `while` `(` [Expression] `)`
#[derive(Debug)]
pub struct DoWhileStatement<'s> {
    pub do_: &'s Token<'s>,
    pub body: Box<Statement<'s>>,
    pub while_: &'s Token<'s>,
    pub open: &'s Token<'s>,
    pub condition: Box<Expression<'s>>,
    pub close: &'s Token<'s>,
}

/// A `switch` statement.
///
/// Grammar: `switch` `(` [Expression] `)` `{` [SwitchCase]* `}`
#[derive(Debug)]
pub struct SwitchStatement<'s> {
    pub switch: &'s Token<'s>,
    pub open_condition: &'s Token<'s>,
    pub condition: Box<Expression<'s>>,
    pub close_condition: &'s Token<'s>,
    pub open_cases: &'s Token<'s>,
    pub cases: Vec<SwitchCase<'s>>,
    pub close_cases: &'s Token<'s>,
}

/// A `for` loop statement.
///
/// Grammar: `for` `(` [ForDefinition]? `;` [Expression]? `;` [Expression]? `)` [StatementType]
#[derive(Debug)]
pub struct ForStatement<'s> {
    pub for_: &'s Token<'s>,
    pub open: &'s Token<'s>,
    pub initializer: Option<ForDefinition<'s>>,
    pub semicolon_1: &'s Token<'s>,
    pub condition: Option<Box<Expression<'s>>>,
    pub semicolon_2: &'s Token<'s>,
    pub increment: Option<Box<Expression<'s>>>,
    pub close: &'s Token<'s>,
    pub body: Box<StatementType<'s>>,
}

/// A `foreach` loop statement.
///
/// Grammar: `foreach` `(` [ForeachIndex]? [Type]? [Identifier] `in` [Expression] `)` [StatementType]
#[derive(Debug)]
pub struct ForeachStatement<'s> {
    pub foreach: &'s Token<'s>,
    pub open: &'s Token<'s>,
    pub index: Option<ForeachIndex<'s>>,
    pub value_type: Option<Type<'s>>,
    pub value_name: Identifier<'s>,
    pub in_: &'s Token<'s>,
    pub array: Box<Expression<'s>>,
    pub close: &'s Token<'s>,
    pub body: Box<StatementType<'s>>,
}

/// A `break` statement.
///
/// Grammar: `break`
#[derive(Debug)]
pub struct BreakStatement<'s> {
    pub break_: &'s Token<'s>,
}

/// A `continue` statement.
///
/// Grammar: `continue`
#[derive(Debug)]
pub struct ContinueStatement<'s> {
    pub continue_: &'s Token<'s>,
}

/// A `return` statement.
///
/// Grammar: `return` [Expression]?
#[derive(Debug)]
pub struct ReturnStatement<'s> {
    pub return_: &'s Token<'s>,
    pub value: Option<Box<Expression<'s>>>,
}

/// A `yield` statement.
///
/// Grammar: `yield` [Expression]?
#[derive(Debug)]
pub struct YieldStatement<'s> {
    pub yield_: &'s Token<'s>,
    pub value: Option<Box<Expression<'s>>>,
}

/// A variable definition statement.
///
/// Grammar: [Type] [SeparatedListTrailing1]<[VarDeclaration] `,`>
#[derive(Debug)]
pub struct VarDefinitionStatement<'s> {
    pub type_: Type<'s>,
    pub definitions: SeparatedListTrailing1<'s, VarDeclaration<'s>>,
}

/// An out-of-band constructor definition statement.
///
/// Grammar: `function` ([Identifier] `::`)+ `constructor` [FunctionDefinition]
#[derive(Debug)]
pub struct ConstructorDefinitionStatement<'s> {
    pub function: &'s Token<'s>,
    pub namespaces: Vec<(Identifier<'s>, &'s Token<'s>)>,
    pub last_name: Identifier<'s>,
    pub last_namespace: &'s Token<'s>,
    pub constructor: &'s Token<'s>,
    pub definition: FunctionDefinition<'s>,
}

/// A function definition statement.
///
/// Grammar: [Type]? `function` [SeparatedList1]<[Identifier] `::`> [FunctionDefinition]
#[derive(Debug)]
pub struct FunctionDefinitionStatement<'s> {
    pub return_type: Option<Type<'s>>,
    pub function: &'s Token<'s>,
    pub name: SeparatedList1<'s, Identifier<'s>>,
    pub definition: FunctionDefinition<'s>,
}

/// A class definition statement.
///
/// Grammar: `class` [Expression] [ClassDefinition]
#[derive(Debug)]
pub struct ClassDefinitionStatement<'s> {
    pub class: &'s Token<'s>,
    pub name: Box<Expression<'s>>,
    pub definition: ClassDefinition<'s>,
}

/// A `try-catch` statement.
///
/// Grammar: `try` [Statement] `catch` `(` [Identifier] `)` [StatementType]
#[derive(Debug)]
pub struct TryCatchStatement<'s> {
    pub try_: &'s Token<'s>,
    pub body: Box<Statement<'s>>,
    pub catch: &'s Token<'s>,
    pub open: &'s Token<'s>,
    pub catch_name: Identifier<'s>,
    pub close: &'s Token<'s>,
    pub catch_body: Box<StatementType<'s>>,
}

/// A `throw` statement.
///
/// Grammar: `throw` [Expression]
#[derive(Debug)]
pub struct ThrowStatement<'s> {
    pub throw: &'s Token<'s>,
    pub value: Box<Expression<'s>>,
}

/// A `const` definition statement.
///
/// Grammar: `const` [Type]? [Identifier] [VarInitializer]
#[derive(Debug)]
pub struct ConstDefinitionStatement<'s> {
    pub const_: &'s Token<'s>,
    pub const_type: Option<Type<'s>>,
    pub name: Identifier<'s>,
    pub initializer: VarInitializer<'s>,
}

/// An `enum` definition statement.
///
/// Grammar: `enum` [Identifier] `{` [EnumEntry]* `}`
#[derive(Debug)]
pub struct EnumDefinitionStatement<'s> {
    pub enum_: &'s Token<'s>,
    pub name: Identifier<'s>,
    pub open: &'s Token<'s>,
    pub entries: Vec<EnumEntry<'s>>,
    pub close: &'s Token<'s>,
}

/// An expression statement.
///
/// Grammar: [Expression]
#[derive(Debug)]
pub struct ExpressionStatement<'s> {
    pub value: Box<Expression<'s>>,
}

/// A `thread` statement.
///
/// Grammar: `thread` [Expression]
#[derive(Debug)]
pub struct ThreadStatement<'s> {
    pub thread: &'s Token<'s>,
    pub value: Box<Expression<'s>>,
}

/// A `delaythread` statement.
///
/// Grammar: `delaythread` `(` [Expression] `)` [Expression]
#[derive(Debug)]
pub struct DelayThreadStatement<'s> {
    pub delay_thread: &'s Token<'s>,
    pub open: &'s Token<'s>,
    pub duration: Box<Expression<'s>>,
    pub close: &'s Token<'s>,
    pub value: Box<Expression<'s>>,
}

/// A `waitthread` statement.
///
/// Grammar: `waitthread` [Expression]
#[derive(Debug)]
pub struct WaitThreadStatement<'s> {
    pub wait_thread: &'s Token<'s>,
    pub value: Box<Expression<'s>>,
}

/// A `wait` statement.
///
/// Grammar: `wait` [Expression]
#[derive(Debug)]
pub struct WaitStatement<'s> {
    pub wait: &'s Token<'s>,
    pub value: Box<Expression<'s>>,
}

/// A struct definition statement.
///
/// Grammar: `struct` [Identifier] [StructDeclaration]
#[derive(Debug)]
pub struct StructDefinitionStatement<'s> {
    pub struct_: &'s Token<'s>,
    pub name: Identifier<'s>,
    pub definition: StructDeclaration<'s>,
}

/// A type definition statement.
///
/// Grammar: `typedef` [Identifier] [Type]
#[derive(Debug)]
pub struct TypeDefinitionStatement<'s> {
    pub typedef: &'s Token<'s>,
    pub name: Identifier<'s>,
    pub type_: Type<'s>,
}

/// A global definition statement.
///
/// Grammar: `global` [GlobalDefinition]
#[derive(Debug)]
pub struct GlobalStatement<'s> {
    pub global: &'s Token<'s>,
    pub definition: GlobalDefinition<'s>,
}

/// A `globalize_all_functions` statement.
///
/// Grammar: `globalize_all_functions`
#[derive(Debug)]
pub struct GlobalizeAllFunctionsStatement<'s> {
    pub globalize_all_functions: &'s Token<'s>,
}

/// An `untyped` statement.
///
/// Grammar: `untyped`
#[derive(Debug)]
pub struct UntypedStatement<'s> {
    pub untyped: &'s Token<'s>,
}

impl<'s> Statement<'s> {
    /// The tokens of the node, in source order.
    pub open spec fn tokens(self) -> Seq<Token<'s>>
        decreases self,
    {
        self.ty.tokens() + opt_token(self.semicolon)
    }
}

impl<'s> StatementType<'s> {
    /// The tokens of the node, in source order.
    pub open spec fn tokens(self) -> Seq<Token<'s>>
        decreases self,
    {
        match self {
            StatementType::Empty(node) => node.tokens(),
            StatementType::Block(node) => node.tokens(),
            StatementType::If(node) => node.tokens(),
            StatementType::While(node) => node.tokens(),
            StatementType::DoWhile(node) => node.tokens(),
            StatementType::Switch(node) => node.tokens(),
            StatementType::For(node) => node.tokens(),
            StatementType::Foreach(node) => node.tokens(),
            StatementType::Break(node) => node.tokens(),
            StatementType::Continue(node) => node.tokens(),
            StatementType::Return(node) => node.tokens(),
            StatementType::Yield(node) => node.tokens(),
            StatementType::VarDeclaration(node) => node.tokens(),
            StatementType::ConstructorDefinition(node) => node.tokens(),
            StatementType::FunctionDefinition(node) => node.tokens(),
            StatementType::ClassDefinition(node) => node.tokens(),
            StatementType::TryCatch(node) => node.tokens(),
            StatementType::Throw(node) => node.tokens(),
            StatementType::Const(node) => node.tokens(),
            StatementType::EnumDefinition(node) => node.tokens(),
            StatementType::Expression(node) => node.tokens(),
            StatementType::Thread(node) => node.tokens(),
            StatementType::DelayThread(node) => node.tokens(),
            StatementType::WaitThread(node) => node.tokens(),
            StatementType::Wait(node) => node.tokens(),
            StatementType::StructDeclaration(node) => node.tokens(),
            StatementType::TypeDefinition(node) => node.tokens(),
            StatementType::Global(node) => node.tokens(),
            StatementType::GlobalizeAllFunctions(node) => node.tokens(),
            StatementType::Untyped(node) => node.tokens(),
        }
    }
}

impl<'s> EmptyStatement<'s> {
    /// The tokens of the node, in source order.
    pub open spec fn tokens(self) -> Seq<Token<'s>>
        decreases self,
    {
        opt_token(self.empty)
    }
}

impl<'s> BlockStatement<'s> {
    /// The tokens of the node, in source order.
    pub open spec fn tokens(self) -> Seq<Token<'s>>
        decreases self,
    {
        seq![*self.open] + statement_seq_tokens(self.statements@) + seq![*self.close]
    }
}

impl<'s> IfStatement<'s> {
    /// The tokens of the node, in source order.
    pub open spec fn tokens(self) -> Seq<Token<'s>>
        decreases self,
    {
        seq![*self.if_] + seq![*self.open] + (*self.condition).tokens() + seq![*self.close] + self.ty.tokens()
    }
}

impl<'s> WhileStatement<'s> {
    /// The tokens of the node, in source order.
    pub open spec fn tokens(self) -> Seq<Token<'s>>
        decreases self,
    {
        seq![*self.while_] + seq![*self.open] + (*self.condition).tokens() + seq![*self.close] + (*self.body).tokens()
    }
}

impl<'s> DoWhileStatement<'s> {
    /// The tokens of the node, in source order.
    pub open spec fn tokens(self) -> Seq<Token<'s>>
        decreases self,
    {
        seq![*self.do_] + (*self.body).tokens() + seq![*self.while_] + seq![*self.open] + (*self.condition).tokens() + seq![*self.close]
    }
}

impl<'s> SwitchStatement<'s> {
    /// The tokens of the node, in source order.
    pub open spec fn tokens(self) -> Seq<Token<'s>>
        decreases self,
    {
        seq![*self.switch] + seq![*self.open_condition] + (*self.condition).tokens() + seq![*self.close_condition] + seq![*self.open_cases] + switch_case_seq_tokens(self.cases@) + seq![*self.close_cases]
    }
}

impl<'s> ForStatement<'s> {
    /// The tokens of the node, in source order.
    pub open spec fn tokens(self) -> Seq<Token<'s>>
        decreases self,
    {
        seq![*self.for_] + seq![*self.open] + (match self.initializer { Some(x) => x.tokens(), None => Seq::empty() }) + seq![*self.semicolon_1] + (match self.condition { Some(x) => (*x).tokens(), None => Seq::empty() }) + seq![*self.semicolon_2] + (match self.increment { Some(x) => (*x).tokens(), None => Seq::empty() }) + seq![*self.close] + (*self.body).tokens()
    }
}

impl<'s> ForeachStatement<'s> {
    /// The tokens of the node, in source order.
    pub open spec fn tokens(self) -> Seq<Token<'s>>
        decreases self,
    {
        seq![*self.foreach] + seq![*self.open] + (match self.index { Some(x) => x.tokens(), None => Seq::empty() }) + (match self.value_type { Some(x) => x.tokens(), None => Seq::empty() }) + self.value_name.tokens() + seq![*self.in_] + (*self.array).tokens() + seq![*self.close] + (*self.body).tokens()
    }
}

impl<'s> BreakStatement<'s> {
    /// The tokens of the node, in source order.
    pub open spec fn tokens(self) -> Seq<Token<'s>>
        decreases self,
    {
        seq![*self.break_]
    }
}

impl<'s> ContinueStatement<'s> {
    /// The tokens of the node, in source order.
    pub open spec fn tokens(self) -> Seq<Token<'s>>
        decreases self,
    {
        seq![*self.continue_]
    }
}

impl<'s> ReturnStatement<'s> {
    /// The tokens of the node, in source order.
    pub open spec fn tokens(self) -> Seq<Token<'s>>
        decreases self,
    {
        seq![*self.return_] + (match self.value { Some(x) => (*x).tokens(), None => Seq::empty() })
    }
}

impl<'s> YieldStatement<'s> {
    /// The tokens of the node, in source order.
    pub open spec fn tokens(self) -> Seq<Token<'s>>
        decreases self,
    {
        seq![*self.yield_] + (match self.value { Some(x) => (*x).tokens(), None => Seq::empty() })
    }
}

impl<'s> VarDefinitionStatement<'s> {
    /// The tokens of the node, in source order.
    pub open spec fn tokens(self) -> Seq<Token<'s>>
        decreases self,
    {
        self.type_.tokens() + var_declaration_trailing_list_tokens(self.definitions)
    }
}

impl<'s> ConstructorDefinitionStatement<'s> {
    /// The tokens of the node, in source order.
    pub open spec fn tokens(self) -> Seq<Token<'s>>
        decreases self,
    {
        seq![*self.function] + identifier_pairs_tokens(self.namespaces@) + self.last_name.tokens() + seq![*self.last_namespace] + seq![*self.constructor] + self.definition.tokens()
    }
}

impl<'s> FunctionDefinitionStatement<'s> {
    /// The tokens of the node, in source order.
    pub open spec fn tokens(self) -> Seq<Token<'s>>
        decreases self,
    {
        (match self.return_type { Some(x) => x.tokens(), None => Seq::empty() }) + seq![*self.function] + identifier_list_tokens(self.name) + self.definition.tokens()
    }
}

impl<'s> ClassDefinitionStatement<'s> {
    /// The tokens of the node, in source order.
    pub open spec fn tokens(self) -> Seq<Token<'s>>
        decreases self,
    {
        seq![*self.class] + (*self.name).tokens() + self.definition.tokens()
    }
}

impl<'s> TryCatchStatement<'s> {
    /// The tokens of the node, in source order.
    pub open spec fn tokens(self) -> Seq<Token<'s>>
        decreases self,
    {
        seq![*self.try_] + (*self.body).tokens() + seq![*self.catch] + seq![*self.open] + self.catch_name.tokens() + seq![*self.close] + (*self.catch_body).tokens()
    }
}

impl<'s> ThrowStatement<'s> {
    /// The tokens of the node, in source order.
    pub open spec fn tokens(self) -> Seq<Token<'s>>
        decreases self,
    {
        seq![*self.throw] + (*self.value).tokens()
    }
}

impl<'s> ConstDefinitionStatement<'s> {
    /// The tokens of the node, in source order.
    pub open spec fn tokens(self) -> Seq<Token<'s>>
        decreases self,
    {
        seq![*self.const_] + (match self.const_type { Some(x) => x.tokens(), None => Seq::empty() }) + self.name.tokens() + self.initializer.tokens()
    }
}

impl<'s> EnumDefinitionStatement<'s> {
    /// The tokens of the node, in source order.
    pub open spec fn tokens(self) -> Seq<Token<'s>>
        decreases self,
    {
        seq![*self.enum_] + self.name.tokens() + seq![*self.open] + enum_entry_seq_tokens(self.entries@) + seq![*self.close]
    }
}

impl<'s> ExpressionStatement<'s> {
    /// The tokens of the node, in source order.
    pub open spec fn tokens(self) -> Seq<Token<'s>>
        decreases self,
    {
        (*self.value).tokens()
    }
}

impl<'s> ThreadStatement<'s> {
    /// The tokens of the node, in source order.
    pub open spec fn tokens(self) -> Seq<Token<'s>>
        decreases self,
    {
        seq![*self.thread] + (*self.value).tokens()
    }
}

impl<'s> DelayThreadStatement<'s> {
    /// The tokens of the node, in source order.
    pub open spec fn tokens(self) -> Seq<Token<'s>>
        decreases self,
    {
        seq![*self.delay_thread] + seq![*self.open] + (*self.duration).tokens() + seq![*self.close] + (*self.value).tokens()
    }
}

impl<'s> WaitThreadStatement<'s> {
    /// The tokens of the node, in source order.
    pub open spec fn tokens(self) -> Seq<Token<'s>>
        decreases self,
    {
        seq![*self.wait_thread] + (*self.value).tokens()
    }
}

impl<'s> WaitStatement<'s> {
    /// The tokens of the node, in source order.
    pub open spec fn tokens(self) -> Seq<Token<'s>>
        decreases self,
    {
        seq![*self.wait] + (*self.value).tokens()
    }
}

impl<'s> StructDefinitionStatement<'s> {
    /// The tokens of the node, in source order.
    pub open spec fn tokens(self) -> Seq<Token<'s>>
        decreases self,
    {
        seq![*self.struct_] + self.name.tokens() + self.definition.tokens()
    }
}

impl<'s> TypeDefinitionStatement<'s> {
    /// The tokens of the node, in source order.
    pub open spec fn tokens(self) -> Seq<Token<'s>>
        decreases self,
    {
        seq![*self.typedef] + self.name.tokens() + self.type_.tokens()
    }
}

impl<'s> GlobalStatement<'s> {
    /// The tokens of the node, in source order.
    pub open spec fn tokens(self) -> Seq<Token<'s>>
        decreases self,
    {
        seq![*self.global] + self.definition.tokens()
    }
}

impl<'s> GlobalizeAllFunctionsStatement<'s> {
    /// The tokens of the node, in source order.
    pub open spec fn tokens(self) -> Seq<Token<'s>>
        decreases self,
    {
        seq![*self.globalize_all_functions]
    }
}

impl<'s> UntypedStatement<'s> {
    /// The tokens of the node, in source order.
    pub open spec fn tokens(self) -> Seq<Token<'s>>
        decreases self,
    {
        seq![*self.untyped]
    }
}

} // verus!
