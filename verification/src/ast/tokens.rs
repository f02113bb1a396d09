use crate::ast::{ArrayValue, ClassMember, EnumEntry, Expression, FunctionParam, FunctionRefParam, Identifier, SeparatedList1, SeparatedListTrailing1, Statement, StructProperty, SwitchCase, TableSlot, Type, VarDeclaration};
use crate::token::Token;
use vstd::prelude::*;

verus! {

/// The token in an optional token, if any.
pub open spec fn opt_token<'s>(t: Option<&'s Token<'s>>) -> Seq<Token<'s>> {
    match t {
        Some(t) => seq![*t],
        None => Seq::empty(),
    }
}

/// The tokens of a sequence of [`ClassMember`]s, in order.
pub open spec fn class_member_seq_tokens<'s>(s: Seq<ClassMember<'s>>) -> Seq<Token<'s>>
    decreases s,
{
    if s.len() == 0 {
        Seq::empty()
    } else {
        class_member_seq_tokens(s.subrange(0, s.len() - 1)) + s[s.len() - 1].tokens()
    }
}

/// The tokens of a sequence of [`Statement`]s, in order.
pub open spec fn statement_seq_tokens<'s>(s: Seq<Statement<'s>>) -> Seq<Token<'s>>
    decreases s,
{
    if s.len() == 0 {
        Seq::empty()
    } else {
        statement_seq_tokens(s.subrange(0, s.len() - 1)) + s[s.len() - 1].tokens()
    }
}

/// The tokens of a sequence of [`TableSlot`]s, in order.
pub open spec fn table_slot_seq_tokens<'s>(s: Seq<TableSlot<'s>>) -> Seq<Token<'s>>
    decreases s,
{
    if s.len() == 0 {
        Seq::empty()
    } else {
        table_slot_seq_tokens(s.subrange(0, s.len() - 1)) + s[s.len() - 1].tokens()
    }
}

/// The tokens of a sequence of [`ArrayValue`]s, in order.
pub open spec fn array_value_seq_tokens<'s>(s: Seq<ArrayValue<'s>>) -> Seq<Token<'s>>
    decreases s,
{
    if s.len() == 0 {
        Seq::empty()
    } else {
        array_value_seq_tokens(s.subrange(0, s.len() - 1)) + s[s.len() - 1].tokens()
    }
}

/// The tokens of a sequence of [`Expression`]s, each followed by a separator, in order.
pub open spec fn expression_pairs_tokens<'s>(s: Seq<(Expression<'s>, &'s Token<'s>)>) -> Seq<Token<'s>>
    decreases s,
{
    if s.len() == 0 {
        Seq::empty()
    } else {
        expression_pairs_tokens(s.subrange(0, s.len() - 1)) + s[s.len() - 1].0.tokens() + seq![*s[s.len() - 1].1]
    }
}

/// The tokens of a separated list of [`Expression`]s with an optional trailing separator, in order.
pub open spec fn expression_trailing_list_tokens<'s>(l: SeparatedListTrailing1<'s, Expression<'s>>) -> Seq<Token<'s>>
    decreases l,
{
    expression_pairs_tokens(l.items@) + (*l.last_item).tokens() + opt_token(l.trailing)
}

/// The tokens of a separated list of [`Expression`]s, in order.
pub open spec fn expression_list_tokens<'s>(l: SeparatedList1<'s, Expression<'s>>) -> Seq<Token<'s>>
    decreases l,
{
    expression_pairs_tokens(l.items@) + (*l.last_item).tokens()
}

/// The tokens of a sequence of [`FunctionParam`]s, each followed by a separator, in order.
pub open spec fn function_param_pairs_tokens<'s>(s: Seq<(FunctionParam<'s>, &'s Token<'s>)>) -> Seq<Token<'s>>
    decreases s,
{
    if s.len() == 0 {
        Seq::empty()
    } else {
        function_param_pairs_tokens(s.subrange(0, s.len() - 1)) + s[s.len() - 1].0.tokens() + seq![*s[s.len() - 1].1]
    }
}

/// The tokens of a separated list of [`FunctionParam`]s with an optional trailing separator, in order.
pub open spec fn function_param_trailing_list_tokens<'s>(l: SeparatedListTrailing1<'s, FunctionParam<'s>>) -> Seq<Token<'s>>
    decreases l,
{
    function_param_pairs_tokens(l.items@) + (*l.last_item).tokens() + opt_token(l.trailing)
}

/// The tokens of a separated list of [`FunctionParam`]s, in order.
pub open spec fn function_param_list_tokens<'s>(l: SeparatedList1<'s, FunctionParam<'s>>) -> Seq<Token<'s>>
    decreases l,
{
    function_param_pairs_tokens(l.items@) + (*l.last_item).tokens()
}

/// The tokens of a sequence of [`Identifier`]s, each followed by a separator, in order.
pub open spec fn identifier_pairs_tokens<'s>(s: Seq<(Identifier<'s>, &'s Token<'s>)>) -> Seq<Token<'s>>
    decreases s,
{
    if s.len() == 0 {
        Seq::empty()
    } else {
        identifier_pairs_tokens(s.subrange(0, s.len() - 1)) + s[s.len() - 1].0.tokens() + seq![*s[s.len() - 1].1]
    }
}

/// The tokens of a separated list of [`Identifier`]s with an optional trailing separator, in order.
pub open spec fn identifier_trailing_list_tokens<'s>(l: SeparatedListTrailing1<'s, Identifier<'s>>) -> Seq<Token<'s>>
    decreases l,
{
    identifier_pairs_tokens(l.items@) + (*l.last_item).tokens() + opt_token(l.trailing)
}

/// The tokens of a sequence of [`SwitchCase`]s, in order.
pub open spec fn switch_case_seq_tokens<'s>(s: Seq<SwitchCase<'s>>) -> Seq<Token<'s>>
    decreases s,
{
    if s.len() == 0 {
        Seq::empty()
    } else {
        switch_case_seq_tokens(s.subrange(0, s.len() - 1)) + s[s.len() - 1].tokens()
    }
}

/// The tokens of a sequence of [`VarDeclaration`]s, each followed by a separator, in order.
pub open spec fn var_declaration_pairs_tokens<'s>(s: Seq<(VarDeclaration<'s>, &'s Token<'s>)>) -> Seq<Token<'s>>
    decreases s,
{
    if s.len() == 0 {
        Seq::empty()
    } else {
        var_declaration_pairs_tokens(s.subrange(0, s.len() - 1)) + s[s.len() - 1].0.tokens() + seq![*s[s.len() - 1].1]
    }
}

/// The tokens of a separated list of [`VarDeclaration`]s with an optional trailing separator, in order.
pub open spec fn var_declaration_trailing_list_tokens<'s>(l: SeparatedListTrailing1<'s, VarDeclaration<'s>>) -> Seq<Token<'s>>
    decreases l,
{
    var_declaration_pairs_tokens(l.items@) + (*l.last_item).tokens() + opt_token(l.trailing)
}

/// The tokens of a separated list of [`Identifier`]s, in order.
pub open spec fn identifier_list_tokens<'s>(l: SeparatedList1<'s, Identifier<'s>>) -> Seq<Token<'s>>
    decreases l,
{
    identifier_pairs_tokens(l.items@) + (*l.last_item).tokens()
}

/// The tokens of a sequence of [`EnumEntry`]s, in order.
pub open spec fn enum_entry_seq_tokens<'s>(s: Seq<EnumEntry<'s>>) -> Seq<Token<'s>>
    decreases s,
{
    if s.len() == 0 {
        Seq::empty()
    } else {
        enum_entry_seq_tokens(s.subrange(0, s.len() - 1)) + s[s.len() - 1].tokens()
    }
}

/// The tokens of a sequence of [`StructProperty`]s, in order.
pub open spec fn struct_property_seq_tokens<'s>(s: Seq<StructProperty<'s>>) -> Seq<Token<'s>>
    decreases s,
{
    if s.len() == 0 {
        Seq::empty()
    } else {
        struct_property_seq_tokens(s.subrange(0, s.len() - 1)) + s[s.len() - 1].tokens()
    }
}

/// The tokens of a sequence of [`Type`]s, each followed by a separator, in order.
pub open spec fn type_pairs_tokens<'s>(s: Seq<(Type<'s>, &'s Token<'s>)>) -> Seq<Token<'s>>
    decreases s,
{
    if s.len() == 0 {
        Seq::empty()
    } else {
        type_pairs_tokens(s.subrange(0, s.len() - 1)) + s[s.len() - 1].0.tokens() + seq![*s[s.len() - 1].1]
    }
}

/// The tokens of a separated list of [`Type`]s with an optional trailing separator, in order.
pub open spec fn type_trailing_list_tokens<'s>(l: SeparatedListTrailing1<'s, Type<'s>>) -> Seq<Token<'s>>
    decreases l,
{
    type_pairs_tokens(l.items@) + (*l.last_item).tokens() + opt_token(l.trailing)
}

/// The tokens of a sequence of [`FunctionRefParam`]s, each followed by a separator, in order.
pub open spec fn function_ref_param_pairs_tokens<'s>(s: Seq<(FunctionRefParam<'s>, &'s Token<'s>)>) -> Seq<Token<'s>>
    decreases s,
{
    if s.len() == 0 {
        Seq::empty()
    } else {
        function_ref_param_pairs_tokens(s.subrange(0, s.len() - 1)) + s[s.len() - 1].0.tokens() + seq![*s[s.len() - 1].1]
    }
}

/// The tokens of a separated list of [`FunctionRefParam`]s with an optional trailing separator, in order.
pub open spec fn function_ref_param_trailing_list_tokens<'s>(l: SeparatedListTrailing1<'s, FunctionRefParam<'s>>) -> Seq<Token<'s>>
    decreases l,
{
    function_ref_param_pairs_tokens(l.items@) + (*l.last_item).tokens() + opt_token(l.trailing)
}

/// Putting an expression and a separator in front of a sequence of pairs puts their tokens in
/// front.
pub proof fn lemma_expression_pairs_prepend<'s>(s: Seq<(Expression<'s>, &'s Token<'s>)>, e: Expression<'s>, t: &'s Token<'s>)
    ensures
        expression_pairs_tokens(seq![(e, t)] + s) == e.tokens() + seq![*t] + expression_pairs_tokens(s),
    decreases s.len(),
{
    let full = seq![(e, t)] + s;
    if s.len() == 0 {
        assert(full.subrange(0, full.len() - 1) =~= Seq::<(Expression<'s>, &'s Token<'s>)>::empty());
        assert(expression_pairs_tokens(full.subrange(0, full.len() - 1)) == Seq::<Token<'s>>::empty());
        assert(expression_pairs_tokens(full) =~= e.tokens() + seq![*t] + expression_pairs_tokens(s));
    } else {
        let init = s.subrange(0, s.len() - 1);
        lemma_expression_pairs_prepend(init, e, t);
        assert(full.subrange(0, full.len() - 1) =~= seq![(e, t)] + init);
        assert(expression_pairs_tokens(full) =~= e.tokens() + seq![*t] + expression_pairs_tokens(s));
    }
}

/// Putting a declaration and a separator in front of a sequence of pairs puts their tokens in
/// front.
pub proof fn lemma_var_declaration_pairs_prepend<'s>(
    s: Seq<(VarDeclaration<'s>, &'s Token<'s>)>,
    e: VarDeclaration<'s>,
    t: &'s Token<'s>,
)
    ensures
        var_declaration_pairs_tokens(seq![(e, t)] + s) == e.tokens() + seq![*t] + var_declaration_pairs_tokens(s),
    decreases s.len(),
{
    let full = seq![(e, t)] + s;
    if s.len() == 0 {
        assert(full.subrange(0, full.len() - 1) =~= Seq::<(VarDeclaration<'s>, &'s Token<'s>)>::empty());
        assert(var_declaration_pairs_tokens(full.subrange(0, full.len() - 1)) == Seq::<Token<'s>>::empty());
        assert(var_declaration_pairs_tokens(full) =~= e.tokens() + seq![*t] + var_declaration_pairs_tokens(s));
    } else {
        let init = s.subrange(0, s.len() - 1);
        lemma_var_declaration_pairs_prepend(init, e, t);
        assert(full.subrange(0, full.len() - 1) =~= seq![(e, t)] + init);
        assert(var_declaration_pairs_tokens(full) =~= e.tokens() + seq![*t] + var_declaration_pairs_tokens(s));
    }
}

/// The tokens of a sequence of values, with `f` giving the tokens of each, in order.
pub open spec fn seq_tokens<'s, T>(s: Seq<T>, f: spec_fn(T) -> Seq<Token<'s>>) -> Seq<Token<'s>>
    decreases s.len(),
{
    if s.len() == 0 {
        Seq::empty()
    } else {
        seq_tokens(s.subrange(0, s.len() - 1), f) + f(s[s.len() - 1])
    }
}

/// The tokens of a sequence of values each followed by a separator, with `f` giving the tokens of
/// each value, in order.
pub open spec fn pairs_tokens<'s, T>(s: Seq<(T, &'s Token<'s>)>, f: spec_fn(T) -> Seq<Token<'s>>) -> Seq<Token<'s>>
    decreases s.len(),
{
    if s.len() == 0 {
        Seq::empty()
    } else {
        pairs_tokens(s.subrange(0, s.len() - 1), f) + f(s[s.len() - 1].0) + seq![*s[s.len() - 1].1]
    }
}

/// The tokens of a separated list, with `f` giving the tokens of each item, in order.
pub open spec fn list1_tokens<'s, T>(l: SeparatedList1<'s, T>, f: spec_fn(T) -> Seq<Token<'s>>) -> Seq<Token<'s>> {
    pairs_tokens(l.items@, f) + f(*l.last_item)
}

/// The tokens of a separated list with an optional trailing separator, with `f` giving the
/// tokens of each item, in order.
pub open spec fn trailing1_tokens<'s, T>(l: SeparatedListTrailing1<'s, T>, f: spec_fn(T) -> Seq<Token<'s>>) -> Seq<
    Token<'s>,
> {
    pairs_tokens(l.items@, f) + f(*l.last_item) + opt_token(l.trailing)
}

/// The tokens of a sequence of [`Statement`]s, as each gives them, are its tokens.
pub proof fn lemma_statement_seq_tokens<'s>(s: Seq<Statement<'s>>, f: spec_fn(Statement<'s>) -> Seq<Token<'s>>)
    requires
        forall|x: Statement<'s>| #[trigger] f(x) == x.tokens(),
    ensures
        seq_tokens(s, f) == statement_seq_tokens(s),
    decreases s.len(),
{
    if s.len() > 0 {
        lemma_statement_seq_tokens(s.subrange(0, s.len() - 1), f);
    }
}

/// The tokens of a sequence of [`ClassMember`]s, as each gives them, are its tokens.
pub proof fn lemma_class_member_seq_tokens<'s>(s: Seq<ClassMember<'s>>, f: spec_fn(ClassMember<'s>) -> Seq<Token<'s>>)
    requires
        forall|x: ClassMember<'s>| #[trigger] f(x) == x.tokens(),
    ensures
        seq_tokens(s, f) == class_member_seq_tokens(s),
    decreases s.len(),
{
    if s.len() > 0 {
        lemma_class_member_seq_tokens(s.subrange(0, s.len() - 1), f);
    }
}

/// The tokens of a sequence of [`StructProperty`]s, as each gives them, are its tokens.
pub proof fn lemma_struct_property_seq_tokens<'s>(s: Seq<StructProperty<'s>>, f: spec_fn(StructProperty<'s>) -> Seq<Token<'s>>)
    requires
        forall|x: StructProperty<'s>| #[trigger] f(x) == x.tokens(),
    ensures
        seq_tokens(s, f) == struct_property_seq_tokens(s),
    decreases s.len(),
{
    if s.len() > 0 {
        lemma_struct_property_seq_tokens(s.subrange(0, s.len() - 1), f);
    }
}

/// The tokens of a sequence of [`SwitchCase`]s, as each gives them, are its tokens.
pub proof fn lemma_switch_case_seq_tokens<'s>(s: Seq<SwitchCase<'s>>, f: spec_fn(SwitchCase<'s>) -> Seq<Token<'s>>)
    requires
        forall|x: SwitchCase<'s>| #[trigger] f(x) == x.tokens(),
    ensures
        seq_tokens(s, f) == switch_case_seq_tokens(s),
    decreases s.len(),
{
    if s.len() > 0 {
        lemma_switch_case_seq_tokens(s.subrange(0, s.len() - 1), f);
    }
}

/// The tokens of a sequence of [`TableSlot`]s, as each gives them, are its tokens.
pub proof fn lemma_table_slot_seq_tokens<'s>(s: Seq<TableSlot<'s>>, f: spec_fn(TableSlot<'s>) -> Seq<Token<'s>>)
    requires
        forall|x: TableSlot<'s>| #[trigger] f(x) == x.tokens(),
    ensures
        seq_tokens(s, f) == table_slot_seq_tokens(s),
    decreases s.len(),
{
    if s.len() > 0 {
        lemma_table_slot_seq_tokens(s.subrange(0, s.len() - 1), f);
    }
}

/// The tokens of a sequence of [`ArrayValue`]s, as each gives them, are its tokens.
pub proof fn lemma_array_value_seq_tokens<'s>(s: Seq<ArrayValue<'s>>, f: spec_fn(ArrayValue<'s>) -> Seq<Token<'s>>)
    requires
        forall|x: ArrayValue<'s>| #[trigger] f(x) == x.tokens(),
    ensures
        seq_tokens(s, f) == array_value_seq_tokens(s),
    decreases s.len(),
{
    if s.len() > 0 {
        lemma_array_value_seq_tokens(s.subrange(0, s.len() - 1), f);
    }
}

/// The tokens of a sequence of [`EnumEntry`]s, as each gives them, are its tokens.
pub proof fn lemma_enum_entry_seq_tokens<'s>(s: Seq<EnumEntry<'s>>, f: spec_fn(EnumEntry<'s>) -> Seq<Token<'s>>)
    requires
        forall|x: EnumEntry<'s>| #[trigger] f(x) == x.tokens(),
    ensures
        seq_tokens(s, f) == enum_entry_seq_tokens(s),
    decreases s.len(),
{
    if s.len() > 0 {
        lemma_enum_entry_seq_tokens(s.subrange(0, s.len() - 1), f);
    }
}

/// The tokens of a sequence of [`Expression`]s with separators, as each gives them, are its tokens.
pub proof fn lemma_expression_pairs_tokens<'s>(s: Seq<(Expression<'s>, &'s Token<'s>)>, f: spec_fn(Expression<'s>) -> Seq<Token<'s>>)
    requires
        forall|x: Expression<'s>| #[trigger] f(x) == x.tokens(),
    ensures
        pairs_tokens(s, f) == expression_pairs_tokens(s),
    decreases s.len(),
{
    if s.len() > 0 {
        lemma_expression_pairs_tokens(s.subrange(0, s.len() - 1), f);
    }
}

/// The tokens of a sequence of [`Identifier`]s with separators, as each gives them, are its tokens.
pub proof fn lemma_identifier_pairs_tokens<'s>(s: Seq<(Identifier<'s>, &'s Token<'s>)>, f: spec_fn(Identifier<'s>) -> Seq<Token<'s>>)
    requires
        forall|x: Identifier<'s>| #[trigger] f(x) == x.tokens(),
    ensures
        pairs_tokens(s, f) == identifier_pairs_tokens(s),
    decreases s.len(),
{
    if s.len() > 0 {
        lemma_identifier_pairs_tokens(s.subrange(0, s.len() - 1), f);
    }
}

/// The tokens of a sequence of [`FunctionParam`]s with separators, as each gives them, are its tokens.
pub proof fn lemma_function_param_pairs_tokens<'s>(s: Seq<(FunctionParam<'s>, &'s Token<'s>)>, f: spec_fn(FunctionParam<'s>) -> Seq<Token<'s>>)
    requires
        forall|x: FunctionParam<'s>| #[trigger] f(x) == x.tokens(),
    ensures
        pairs_tokens(s, f) == function_param_pairs_tokens(s),
    decreases s.len(),
{
    if s.len() > 0 {
        lemma_function_param_pairs_tokens(s.subrange(0, s.len() - 1), f);
    }
}

/// The tokens of a sequence of [`VarDeclaration`]s with separators, as each gives them, are its tokens.
pub proof fn lemma_var_declaration_pairs_tokens<'s>(s: Seq<(VarDeclaration<'s>, &'s Token<'s>)>, f: spec_fn(VarDeclaration<'s>) -> Seq<Token<'s>>)
    requires
        forall|x: VarDeclaration<'s>| #[trigger] f(x) == x.tokens(),
    ensures
        pairs_tokens(s, f) == var_declaration_pairs_tokens(s),
    decreases s.len(),
{
    if s.len() > 0 {
        lemma_var_declaration_pairs_tokens(s.subrange(0, s.len() - 1), f);
    }
}

/// The tokens of a sequence of [`Type`]s with separators, as each gives them, are its tokens.
pub proof fn lemma_type_pairs_tokens<'s>(s: Seq<(Type<'s>, &'s Token<'s>)>, f: spec_fn(Type<'s>) -> Seq<Token<'s>>)
    requires
        forall|x: Type<'s>| #[trigger] f(x) == x.tokens(),
    ensures
        pairs_tokens(s, f) == type_pairs_tokens(s),
    decreases s.len(),
{
    if s.len() > 0 {
        lemma_type_pairs_tokens(s.subrange(0, s.len() - 1), f);
    }
}

/// The tokens of a sequence of [`FunctionRefParam`]s with separators, as each gives them, are its tokens.
pub proof fn lemma_function_ref_param_pairs_tokens<'s>(s: Seq<(FunctionRefParam<'s>, &'s Token<'s>)>, f: spec_fn(FunctionRefParam<'s>) -> Seq<Token<'s>>)
    requires
        forall|x: FunctionRefParam<'s>| #[trigger] f(x) == x.tokens(),
    ensures
        pairs_tokens(s, f) == function_ref_param_pairs_tokens(s),
    decreases s.len(),
{
    if s.len() > 0 {
        lemma_function_ref_param_pairs_tokens(s.subrange(0, s.len() - 1), f);
    }
}

} // verus!
