use sqparse::ast::{
    BinaryOperator, Expression, FunctionParams, GlobalDefinition, IfStatementType, MethodIdentifier, Precedence,
    StatementType, Type,
};
use sqparse::parser::error::InternalErrorType;
use sqparse::token::{LiteralBase, LiteralToken};
use sqparse::{parse, tokenize, ContextType, Flavor, ParseErrorType};

const EXAMPLE: &str = r#"
global function MyFunction

struct {
    int a
} file

string function MyFunction( List<number> values ) {
    values.push(1 + 2)
}
"#;

fn statements_of(source: &str) -> usize {
    let tokens = tokenize(source, Flavor::SquirrelRespawn).unwrap();
    let program = parse(&tokens, Flavor::SquirrelRespawn).unwrap();
    program.statements.len()
}

#[test]
fn parse_example_gives_3_statements() {
    let tokens = tokenize(EXAMPLE, Flavor::SquirrelRespawn).unwrap();
    let program = parse(&tokens, Flavor::SquirrelRespawn).unwrap();
    assert_eq!(program.statements.len(), 3);
    assert!(matches!(
        program.statements[0].ty,
        StatementType::Global(ref g) if matches!(g.definition, GlobalDefinition::Function { .. })
    ));
    assert!(matches!(program.statements[1].ty, StatementType::VarDeclaration(_)));
    match &program.statements[2].ty {
        StatementType::FunctionDefinition(f) => {
            assert!(matches!(f.return_type, Some(Type::Plain(ref p)) if p.name.value == "string"));
            assert_eq!(f.name.last_item.value, "MyFunction");
            match &f.definition.params {
                FunctionParams::NonVariable { params: Some(list) } => {
                    assert_eq!(list.items.len(), 0);
                    assert_eq!(list.last_item.name.value, "values");
                    assert!(matches!(list.last_item.type_, Some(Type::Generic(_))));
                }
                other => panic!("unexpected params {:?}", other),
            }
        }
        other => panic!("unexpected statement {:?}", other),
    }
}

#[test]
fn empty_input_gives_no_statements() {
    assert_eq!(statements_of(""), 0);
}

#[test]
fn multiplication_binds_tighter_than_addition() {
    let tokens = tokenize("a = 1 + 2 * 3", Flavor::SquirrelRespawn).unwrap();
    let program = parse(&tokens, Flavor::SquirrelRespawn).unwrap();
    assert_eq!(program.statements.len(), 1);
    let StatementType::Expression(statement) = &program.statements[0].ty else {
        panic!("expected an expression statement");
    };
    let Expression::Binary(assign) = &*statement.value else { panic!("expected a binary expression") };
    assert!(matches!(assign.operator, BinaryOperator::Assign(_)));
    assert!(matches!(*assign.left, Expression::Var(ref v) if v.name.value == "a"));
    let Expression::Binary(add) = &*assign.right else { panic!("expected an addition") };
    assert!(matches!(add.operator, BinaryOperator::Add(_)));
    assert!(matches!(*add.left, Expression::Literal(ref l) if l.literal == LiteralToken::Int(1, LiteralBase::Decimal)));
    let Expression::Binary(mul) = &*add.right else { panic!("expected a multiplication") };
    assert!(matches!(mul.operator, BinaryOperator::Multiply(_)));
    assert_eq!(assign.operator.precedence(), Precedence::Assignment);
}

#[test]
fn subtraction_is_left_associative() {
    let tokens = tokenize("a - b - c", Flavor::SquirrelRespawn).unwrap();
    let program = parse(&tokens, Flavor::SquirrelRespawn).unwrap();
    let StatementType::Expression(statement) = &program.statements[0].ty else { panic!() };
    let Expression::Binary(outer) = &*statement.value else { panic!() };
    assert!(matches!(*outer.right, Expression::Var(ref v) if v.name.value == "c"));
    assert!(matches!(*outer.left, Expression::Binary(_)));
}

#[test]
fn compound_shift_operators() {
    let tokens = tokenize("a = b >>> 2", Flavor::SquirrelRespawn).unwrap();
    let program = parse(&tokens, Flavor::SquirrelRespawn).unwrap();
    let StatementType::Expression(statement) = &program.statements[0].ty else { panic!() };
    let Expression::Binary(assign) = &*statement.value else { panic!() };
    let Expression::Binary(shift) = &*assign.right else { panic!() };
    assert!(matches!(shift.operator, BinaryOperator::UnsignedShiftRight(_, _, _)));
}

#[test]
fn calls_properties_and_indexes() {
    let tokens = tokenize("values.push(list[0], 2,)", Flavor::SquirrelRespawn).unwrap();
    let program = parse(&tokens, Flavor::SquirrelRespawn).unwrap();
    let StatementType::Expression(statement) = &program.statements[0].ty else { panic!() };
    let Expression::Call(call) = &*statement.value else { panic!("expected a call") };
    let Expression::Property(property) = &*call.function else { panic!("expected a property") };
    assert!(matches!(property.property, MethodIdentifier::Identifier(ref id) if id.value == "push"));
    let arguments = call.arguments.as_ref().unwrap();
    assert_eq!(arguments.items.len(), 1);
    assert!(matches!(arguments.items[0].0, Expression::Index(_)));
    assert!(arguments.trailing.is_some());
}

#[test]
fn if_else_takes_semicolon_before_else() {
    let tokens = tokenize("if (a) b(); else c()", Flavor::SquirrelRespawn).unwrap();
    let program = parse(&tokens, Flavor::SquirrelRespawn).unwrap();
    assert_eq!(program.statements.len(), 1);
    let StatementType::If(statement) = &program.statements[0].ty else { panic!() };
    match &statement.ty {
        IfStatementType::Else { body, .. } => assert!(body.semicolon.is_some()),
        other => panic!("unexpected {:?}", other),
    }
}

#[test]
fn if_without_else_leaves_semicolon() {
    let tokens = tokenize("if (a) b(); c()", Flavor::SquirrelRespawn).unwrap();
    let program = parse(&tokens, Flavor::SquirrelRespawn).unwrap();
    assert_eq!(program.statements.len(), 2);
    assert!(program.statements[0].semicolon.is_some());
    assert!(matches!(program.statements[0].ty, StatementType::If(ref s) if matches!(s.ty, IfStatementType::NoElse { .. })));
}

#[test]
fn control_statements() {
    let source = r#"
while (i < 10) i++
do { i-- } while (i > 0)
for (local i = 0; i < 3; i++) {}
foreach (int k, v in table) print(v)
switch (x) { case 1: break; default: return }
try { f() } catch (e) { throw e }
"#;
    let tokens = tokenize(source, Flavor::SquirrelRespawn).unwrap();
    let program = parse(&tokens, Flavor::SquirrelRespawn).unwrap();
    assert_eq!(program.statements.len(), 6);
    assert!(matches!(program.statements[0].ty, StatementType::While(_)));
    assert!(matches!(program.statements[1].ty, StatementType::DoWhile(_)));
    assert!(matches!(program.statements[2].ty, StatementType::For(_)));
    assert!(matches!(program.statements[3].ty, StatementType::Foreach(_)));
    match &program.statements[4].ty {
        StatementType::Switch(s) => assert_eq!(s.cases.len(), 2),
        other => panic!("unexpected {:?}", other),
    }
    assert!(matches!(program.statements[5].ty, StatementType::TryCatch(_)));
}

#[test]
fn declarations() {
    let source = r#"
const int MAX = 3
enum Color { Red, Green = 2, Blue }
class Thing extends Base { value = 1; function get() { return value } }
typedef Callback void functionref( int, string s = "x" )
struct Point { float x, float y }
untyped
globalize_all_functions
table<string, int> counts = {}
"#;
    let tokens = tokenize(source, Flavor::SquirrelRespawn).unwrap();
    let program = parse(&tokens, Flavor::SquirrelRespawn).unwrap();
    assert_eq!(program.statements.len(), 8);
    assert!(matches!(program.statements[0].ty, StatementType::Const(ref c) if c.const_type.is_some()));
    match &program.statements[1].ty {
        StatementType::EnumDefinition(e) => assert_eq!(e.entries.len(), 3),
        other => panic!("unexpected {:?}", other),
    }
    match &program.statements[2].ty {
        StatementType::ClassDefinition(c) => {
            assert!(c.definition.extends.is_some());
            assert_eq!(c.definition.members.len(), 2);
        }
        other => panic!("unexpected {:?}", other),
    }
    assert!(matches!(program.statements[3].ty, StatementType::TypeDefinition(ref t) if matches!(t.type_, Type::FunctionRef(_))));
    assert!(matches!(program.statements[4].ty, StatementType::StructDeclaration(ref s) if s.definition.properties.len() == 2));
    assert!(matches!(program.statements[5].ty, StatementType::Untyped(_)));
    assert!(matches!(program.statements[6].ty, StatementType::GlobalizeAllFunctions(_)));
    assert!(matches!(program.statements[7].ty, StatementType::VarDeclaration(_)));
}

#[test]
fn literals_of_every_kind() {
    let source = r#"x = [1, 2.5, 'c', "s", @"v", $"a", { a = 1, "b": 2 }, <1, 2, 3>, function() {}, ::root, delegate d : f, expect int(y)]"#;
    let tokens = tokenize(source, Flavor::SquirrelRespawn).unwrap();
    let program = parse(&tokens, Flavor::SquirrelRespawn).unwrap();
    let StatementType::Expression(statement) = &program.statements[0].ty else { panic!() };
    let Expression::Binary(assign) = &*statement.value else { panic!() };
    let Expression::Array(array) = &*assign.right else { panic!("expected an array") };
    assert_eq!(array.values.len(), 12);
    assert!(matches!(*array.values[6].value, Expression::Table(ref t) if t.slots.len() == 2));
    assert!(matches!(*array.values[7].value, Expression::Vector(_)));
    assert!(matches!(*array.values[8].value, Expression::Function(_)));
    assert!(matches!(*array.values[9].value, Expression::RootVar(_)));
    assert!(matches!(*array.values[10].value, Expression::Delegate(_)));
    assert!(matches!(*array.values[11].value, Expression::Expect(_)));
}

#[test]
fn missing_operand_is_a_fatal_error_in_expression_context() {
    let tokens = tokenize("x +", Flavor::SquirrelRespawn).unwrap();
    assert_eq!(tokens.len(), 2);
    let err = parse(&tokens, Flavor::SquirrelRespawn).unwrap_err();
    assert_eq!(err.ty, ParseErrorType::ExpectedExpression);
    assert_eq!(err.token_index, 2);
    assert!(err.is_fatal);
    let context = err.context.unwrap();
    assert_eq!(context.ty, ContextType::Expression);
    assert_eq!(context.token_range, 0..2);
}

#[test]
fn stray_closer_is_an_expected_statement() {
    let tokens = tokenize("a() )", Flavor::SquirrelRespawn).unwrap();
    let err = parse(&tokens, Flavor::SquirrelRespawn).unwrap_err();
    assert_eq!(err.ty, ParseErrorType::ExpectedStatement);
    assert_eq!(err.token_index, 3);
    assert!(!err.is_fatal);
}

#[test]
fn leftover_tokens_in_parentheses_are_reported() {
    let tokens = tokenize("f(a b)", Flavor::SquirrelRespawn).unwrap();
    let err = parse(&tokens, Flavor::SquirrelRespawn).unwrap_err();
    assert!(err.is_fatal);
    assert_eq!(err.context.as_ref().unwrap().ty, ContextType::CallArgumentList);
}

#[test]
fn opener_without_closer_index_is_an_internal_error() {
    let mut tokens = tokenize("(a)", Flavor::SquirrelRespawn).unwrap();
    tokens[0].close_index = None;
    let err = parse(&tokens, Flavor::SquirrelRespawn).unwrap_err();
    assert_eq!(err.ty, ParseErrorType::Internal(InternalErrorType::TokenIsNotSpan));
}

#[test]
fn line_break_ends_return_value() {
    let tokens = tokenize("return\nx", Flavor::SquirrelRespawn).unwrap();
    let program = parse(&tokens, Flavor::SquirrelRespawn).unwrap();
    assert_eq!(program.statements.len(), 2);
    assert!(matches!(program.statements[0].ty, StatementType::Return(ref r) if r.value.is_none()));
}

#[test]
fn postfix_operator_cannot_follow_a_line_break() {
    let tokens = tokenize("a\n++b", Flavor::SquirrelRespawn).unwrap();
    let program = parse(&tokens, Flavor::SquirrelRespawn).unwrap();
    assert_eq!(program.statements.len(), 2);
}

fn first_statement_kind(source: &str) -> Result<String, (ParseErrorType, bool)> {
    let tokens = tokenize(source, Flavor::SquirrelRespawn).unwrap();
    match parse(&tokens, Flavor::SquirrelRespawn) {
        Ok(program) => {
            let kind = format!("{:?}", program.statements[0].ty);
            Ok(kind.split('(').next().unwrap().to_string())
        }
        Err(e) => Err((e.ty, e.is_fatal)),
    }
}

#[test]
fn statement_keywords_decide_the_statement_kind() {
    assert_eq!(first_statement_kind("for (;;) {}").unwrap(), "For");
    assert_eq!(first_statement_kind("foreach (a in b) {}").unwrap(), "Foreach");
    assert_eq!(first_statement_kind("if (a) b()").unwrap(), "If");
    assert_eq!(first_statement_kind("while (a) b()").unwrap(), "While");
    assert_eq!(first_statement_kind("return 1").unwrap(), "Return");
    assert_eq!(first_statement_kind("{ a() }").unwrap(), "Block");
    assert_eq!(first_statement_kind("const A = 1").unwrap(), "Const");
    assert_eq!(first_statement_kind("break").unwrap(), "Break");
    assert_eq!(first_statement_kind("untyped").unwrap(), "Untyped");
}

#[test]
fn broken_keyword_statement_fails_for_good() {
    let (ty, fatal) = first_statement_kind("while a b").unwrap_err();
    assert!(fatal);
    assert_eq!(ty, ParseErrorType::ExpectedTerminal(sqparse::token::TerminalToken::OpenBracket));
}

#[test]
fn syntax_tree_holds_every_token_in_order() {
    let tokens = tokenize("x = f(1, 2);", Flavor::SquirrelRespawn).unwrap();
    assert_eq!(tokens.len(), 9);
    let program = parse(&tokens, Flavor::SquirrelRespawn).unwrap();
    assert_eq!(program.statements.len(), 1);
    let at = |i: usize| &tokens[i].token;
    let statement = &program.statements[0];
    let StatementType::Expression(expr) = &statement.ty else { panic!("not an expression statement") };
    let Expression::Binary(binary) = &*expr.value else { panic!("not a binary expression") };
    let Expression::Var(x) = &*binary.left else { panic!("not a variable") };
    assert!(std::ptr::eq(x.name.token, at(0)));
    let BinaryOperator::Assign(assign) = binary.operator else { panic!("not an assignment") };
    assert!(std::ptr::eq(assign, at(1)));
    let Expression::Call(call) = &*binary.right else { panic!("not a call") };
    let Expression::Var(f) = &*call.function else { panic!("not a variable") };
    assert!(std::ptr::eq(f.name.token, at(2)));
    assert!(std::ptr::eq(call.open, at(3)));
    let args = call.arguments.as_ref().unwrap();
    assert_eq!(args.items.len(), 1);
    let Expression::Literal(one) = &args.items[0].0 else { panic!("not a literal") };
    assert!(std::ptr::eq(one.token, at(4)));
    assert!(std::ptr::eq(args.items[0].1, at(5)));
    let Expression::Literal(two) = &*args.last_item else { panic!("not a literal") };
    assert!(std::ptr::eq(two.token, at(6)));
    assert!(args.trailing.is_none());
    assert!(std::ptr::eq(call.close, at(7)));
    assert!(call.post_initializer.is_none());
    assert!(std::ptr::eq(statement.semicolon.unwrap(), at(8)));
}

#[test]
fn lone_semicolon_is_an_empty_statement() {
    let tokens = tokenize(";", Flavor::SquirrelRespawn).unwrap();
    let program = parse(&tokens, Flavor::SquirrelRespawn).unwrap();
    assert_eq!(program.statements.len(), 1);
    assert!(matches!(program.statements[0].ty, StatementType::Empty(ref e) if e.empty.is_none()));
    assert!(program.statements[0].semicolon.is_some());
}

#[test]
fn property_access_binds_tighter_than_addition() {
    let tokens = tokenize("a + b.c", Flavor::SquirrelRespawn).unwrap();
    let program = parse(&tokens, Flavor::SquirrelRespawn).unwrap();
    let StatementType::Expression(statement) = &program.statements[0].ty else { panic!() };
    let Expression::Binary(add) = &*statement.value else { panic!("expected an addition") };
    assert!(matches!(add.operator, BinaryOperator::Add(_)));
    assert!(matches!(*add.left, Expression::Var(ref v) if v.name.value == "a"));
    let Expression::Property(property) = &*add.right else { panic!("expected a property access") };
    assert!(matches!(*property.base, Expression::Var(ref v) if v.name.value == "b"));
}

#[test]
fn ternary_groups_to_the_right() {
    let tokens = tokenize("x = a ? b : c ? d : e", Flavor::SquirrelRespawn).unwrap();
    let program = parse(&tokens, Flavor::SquirrelRespawn).unwrap();
    let StatementType::Expression(statement) = &program.statements[0].ty else { panic!() };
    let Expression::Binary(assign) = &*statement.value else { panic!() };
    let Expression::Ternary(outer) = &*assign.right else { panic!("expected a ternary") };
    assert!(matches!(*outer.condition, Expression::Var(ref v) if v.name.value == "a"));
    assert!(matches!(*outer.false_value, Expression::Ternary(_)));
}
