use sqparse::ast::{BinaryOperator, Expression, MethodIdentifier, Precedence, PrefixOperator, StatementType, Type};
use sqparse::parser::expression::{expression, prefix, vector};
use sqparse::parser::statement::{
    function_declaration_statement, statement, statement_type, typedef_statement, var_declaration_statement,
};
use sqparse::parser::type_::type_;
use sqparse::parser::TokenList;
use sqparse::token::{LiteralBase, LiteralToken, TerminalToken};
use sqparse::{parse, tokenize, Flavor, ParseErrorType, TokenItem};

fn items(source: &str) -> Vec<TokenItem<'_>> {
    tokenize(source, Flavor::SquirrelRespawn).unwrap()
}

#[test]
fn property_binds_tighter_than_addition() {
    let items = items("a + b.c");
    let (rest, e) = expression(TokenList::new(Flavor::SquirrelRespawn, &items), Precedence::Lowest).unwrap();
    assert!(rest.is_ended());
    let Expression::Binary(add) = &*e else { panic!("expected a binary expression") };
    assert!(matches!(add.operator, BinaryOperator::Add(_)));
    assert!(matches!(*add.left, Expression::Var(ref v) if v.name.value == "a"));
    let Expression::Property(property) = &*add.right else { panic!("expected a property") };
    assert!(matches!(*property.base, Expression::Var(ref v) if v.name.value == "b"));
    assert!(matches!(property.property, MethodIdentifier::Identifier(ref id) if id.value == "c"));
}

#[test]
fn prefix_takes_only_its_operand() {
    let items = items("-a + b");
    let (rest, p) = prefix(TokenList::new(Flavor::SquirrelRespawn, &items)).unwrap();
    assert!(matches!(p.operator, PrefixOperator::Negate(t) if std::ptr::eq(t, &items[0].token)));
    assert!(matches!(*p.value, Expression::Var(ref v) if v.name.value == "a"));
    assert_eq!(rest.start_index(), 2);
}

#[test]
fn vector_reads_three_values_and_its_closer() {
    let items = items("<1, 2, 3>");
    assert_eq!(items.len(), 7);
    let (rest, v) = vector(TokenList::new(Flavor::SquirrelRespawn, &items)).unwrap();
    assert!(rest.is_ended());
    assert!(std::ptr::eq(v.open, &items[0].token));
    assert!(std::ptr::eq(v.comma_1, &items[2].token));
    assert!(std::ptr::eq(v.comma_2, &items[4].token));
    assert!(std::ptr::eq(v.close, &items[6].token));
    assert!(matches!(*v.z, Expression::Literal(ref l) if l.literal == LiteralToken::Int(3, LiteralBase::Decimal)));
}

#[test]
fn type_modifiers_apply_left_to_right() {
    let items = items("table<int>& ornull");
    let (rest, t) = type_(TokenList::new(Flavor::SquirrelRespawn, &items)).unwrap();
    assert!(rest.is_ended());
    let Type::Nullable(nullable) = t else { panic!("expected a nullable type") };
    let Type::Reference(reference) = *nullable.base else { panic!("expected a reference type") };
    let Type::Generic(generic) = *reference.base else { panic!("expected a generic type") };
    assert!(matches!(*generic.base, Type::Plain(ref p) if p.name.value == "table"));
    assert_eq!(generic.params.items.len(), 0);
    assert!(matches!(*generic.params.last_item, Type::Plain(ref p) if p.name.value == "int"));
}

#[test]
fn lone_semicolon_and_expression_statement() {
    let a = items(";");
    let (r, s) = statement(TokenList::new(Flavor::SquirrelRespawn, &a)).unwrap();
    assert!(r.is_ended());
    assert!(matches!(s.ty, StatementType::Empty(ref e) if e.empty.is_none()));
    assert!(matches!(s.semicolon, Some(t) if std::ptr::eq(t, &a[0].token)));
    let b = items("x;");
    let (r, s) = statement(TokenList::new(Flavor::SquirrelRespawn, &b)).unwrap();
    assert!(r.is_ended());
    assert!(matches!(s.ty, StatementType::Expression(_)));
    assert!(matches!(s.semicolon, Some(t) if std::ptr::eq(t, &b[1].token)));
}

#[test]
fn stray_operator_is_not_a_statement() {
    let items = items("> hey");
    let e = statement_type(TokenList::new(Flavor::SquirrelRespawn, &items)).unwrap_err();
    assert_eq!(e.ty, ParseErrorType::ExpectedStatement);
    assert_eq!(e.token_index, 0);
    assert!(!e.is_fatal);
    let e = parse(&items, Flavor::SquirrelRespawn).unwrap_err();
    assert_eq!(e.ty, ParseErrorType::ExpectedStatement);
    assert_eq!(e.token_index, 0);
}

#[test]
fn function_without_parameters_expects_open_bracket() {
    let items = items("function MyFunc { }");
    let e = function_declaration_statement(TokenList::new(Flavor::SquirrelRespawn, &items)).unwrap_err();
    assert_eq!(e.ty, ParseErrorType::ExpectedTerminal(TerminalToken::OpenBracket));
    assert_eq!(e.token_index, 2);
    assert!(e.is_fatal);
}

#[test]
fn typedef_of_a_number_expects_a_type() {
    let items = items("typedef Five 5");
    let e = typedef_statement(TokenList::new(Flavor::SquirrelRespawn, &items)).unwrap_err();
    assert_eq!(e.ty, ParseErrorType::ExpectedType);
    assert_eq!(e.token_index, 2);
    assert!(e.is_fatal);
}

#[test]
fn initializer_keyword_expects_an_expression() {
    let items = items("int What = globalize_all_functions");
    let e = var_declaration_statement(TokenList::new(Flavor::SquirrelRespawn, &items)).unwrap_err();
    assert_eq!(e.ty, ParseErrorType::ExpectedExpression);
    assert_eq!(e.token_index, 3);
    assert!(e.is_fatal);
}

#[test]
fn for_without_clauses_expects_open_bracket() {
    let items = items("for x");
    let e = sqparse::parser::statement::for_statement(TokenList::new(Flavor::SquirrelRespawn, &items)).unwrap_err();
    assert_eq!(e.ty, ParseErrorType::ExpectedTerminal(TerminalToken::OpenBracket));
    assert_eq!(e.token_index, 1);
    assert!(e.is_fatal);
}

#[test]
fn return_reads_its_value_chain() {
    let items = items("return a + b.c");
    let (rest, r) = sqparse::parser::statement::return_statement(TokenList::new(Flavor::SquirrelRespawn, &items)).unwrap();
    assert!(rest.is_ended());
    assert!(matches!(r.value.as_deref(), Some(Expression::Binary(_))));
    let items = items_of_return_before_closer();
    let (rest, r) = sqparse::parser::statement::return_statement(TokenList::new(Flavor::SquirrelRespawn, &items)).unwrap();
    assert_eq!(rest.start_index(), 1);
    assert!(r.value.is_none());
}

fn items_of_return_before_closer() -> Vec<TokenItem<'static>> {
    tokenize("return }", Flavor::SquirrelRespawn).unwrap()
}

#[test]
fn global_function_reads_its_name() {
    let items = items("function foo");
    let (rest, g) = sqparse::parser::global::global_definition(TokenList::new(Flavor::SquirrelRespawn, &items)).unwrap();
    assert!(rest.is_ended());
    assert!(matches!(g, sqparse::ast::GlobalDefinition::Function { ref name, .. } if name.value == "foo"));
    let items = tokenize("function 1", Flavor::SquirrelRespawn).unwrap();
    let e = sqparse::parser::global::global_definition(TokenList::new(Flavor::SquirrelRespawn, &items)).unwrap_err();
    assert_eq!(e.ty, ParseErrorType::ExpectedIdentifier);
    assert_eq!(e.token_index, 1);
    assert!(e.is_fatal);
}

#[test]
fn class_member_cannot_start_with_a_number() {
    let items = items("1");
    let e = sqparse::parser::class::class_member(TokenList::new(Flavor::SquirrelRespawn, &items)).unwrap_err();
    assert_eq!(e.ty, ParseErrorType::ExpectedClassMember);
    assert_eq!(e.token_index, 0);
    assert!(!e.is_fatal);
}

#[test]
fn for_with_empty_clauses_reads_its_body() {
    let items = items("for (;;) x");
    let (rest, _) = sqparse::parser::statement::for_statement(TokenList::new(Flavor::SquirrelRespawn, &items)).unwrap();
    assert!(rest.is_ended());
}

#[test]
fn variable_with_a_simple_value_is_read() {
    let items = items("int a = 5");
    let (rest, v) = var_declaration_statement(TokenList::new(Flavor::SquirrelRespawn, &items)).unwrap();
    assert!(rest.is_ended());
    assert!(v.definitions.items.is_empty());
    assert!(v.definitions.last_item.initializer.is_some());
    let items = tokenize("int a", Flavor::SquirrelRespawn).unwrap();
    let (rest, v) = var_declaration_statement(TokenList::new(Flavor::SquirrelRespawn, &items)).unwrap();
    assert!(rest.is_ended());
    assert!(v.definitions.last_item.initializer.is_none());
}

#[test]
fn global_function_is_a_statement() {
    let items = items("global function MyFunction");
    let (rest, s) = statement(TokenList::new(Flavor::SquirrelRespawn, &items)).unwrap();
    assert!(rest.is_ended());
    assert!(matches!(s.ty, StatementType::Global(_)));
    let program = parse(&items, Flavor::SquirrelRespawn).unwrap();
    assert_eq!(program.statements.len(), 1);
}

#[test]
fn prefix_and_binary_operators_keep_their_kind() {
    let items = items("!a * b");
    let (_, e) = expression(TokenList::new(Flavor::SquirrelRespawn, &items), Precedence::Lowest).unwrap();
    let Expression::Binary(b) = &*e else { panic!("expected a binary expression") };
    assert!(matches!(b.operator, BinaryOperator::Multiply(_)));
    let Expression::Prefix(p) = &*b.left else { panic!("expected a prefix expression") };
    assert!(matches!(p.operator, PrefixOperator::LogicalNot(_)));
}

#[test]
fn simple_compound_statements_are_read() {
    let items = items("while (x) y");
    let (rest, _) = sqparse::parser::statement::while_statement(TokenList::new(Flavor::SquirrelRespawn, &items)).unwrap();
    assert!(rest.is_ended());
    let items = tokenize("if (x) y = 1", Flavor::SquirrelRespawn).unwrap();
    let (rest, _) = sqparse::parser::statement::if_statement(TokenList::new(Flavor::SquirrelRespawn, &items)).unwrap();
    assert!(rest.is_ended());
    let items = tokenize("{}", Flavor::SquirrelRespawn).unwrap();
    let (rest, b) = sqparse::parser::statement::block_statement(TokenList::new(Flavor::SquirrelRespawn, &items)).unwrap();
    assert!(rest.is_ended());
    assert!(b.statements.is_empty());
    let items = tokenize("if (a) b; while (c) d; {} for (;;) e", Flavor::SquirrelRespawn).unwrap();
    let program = parse(&items, Flavor::SquirrelRespawn).unwrap();
    assert_eq!(program.statements.len(), 4);
}

#[test]
fn more_statements_with_simple_parts_are_read() {
    let source = "do x; while (y) switch (z) {} enum E {} const C = 1 throw e thread t() wait 1 typedef T int";
    let items = tokenize(source, Flavor::SquirrelRespawn).unwrap();
    let program = parse(&items, Flavor::SquirrelRespawn).unwrap();
    assert_eq!(program.statements.len(), 8);
}

#[test]
fn foreach_and_try_with_simple_parts_are_read() {
    let items = tokenize("foreach (v in a) b try x catch (e) y", Flavor::SquirrelRespawn).unwrap();
    let program = parse(&items, Flavor::SquirrelRespawn).unwrap();
    assert_eq!(program.statements.len(), 2);
    assert!(matches!(program.statements[0].ty, StatementType::Foreach(_)));
    assert!(matches!(program.statements[1].ty, StatementType::TryCatch(_)));
}

#[test]
fn function_with_no_parameters_is_read() {
    let items = items("function f() x");
    let (rest, _) = function_declaration_statement(TokenList::new(Flavor::SquirrelRespawn, &items)).unwrap();
    assert!(rest.is_ended());
}

#[test]
fn empty_class_and_struct_are_read() {
    let items = tokenize("class A {} struct B {}", Flavor::SquirrelRespawn).unwrap();
    let (rest, _) = sqparse::parser::statement::class_declaration_statement(TokenList::new(Flavor::SquirrelRespawn, &items)).unwrap();
    assert_eq!(rest.start_index(), 4);
    let (rest, _) = sqparse::parser::statement::struct_declaration_statement(rest).unwrap();
    assert!(rest.is_ended());
}
