use crate::token::Token;
use vstd::prelude::*;

verus! {

/// A list of at least one sub-grammar, separated by an individual token.
///
/// # Examples
///
/// [SeparatedList1]<`A` `,`> matches:
///  - `A`
///  - `A, A`
///  - `A, A, A`
///
/// Does not match:
///  - ` ` (empty input)
///  - `,`
///  - `, A`
///  - `A, A,`
#[derive(Debug, Clone)]
pub struct SeparatedList1<'s, T> {
    pub items: Vec<(T, &'s Token<'s>)>,
    pub last_item: Box<T>,
}

/// A list of zero or more sub-grammars, separated by an individual token.
///
/// # Examples
///
/// [SeparatedList0]<`A` `,`> matches:
///  - ` ` (empty input)
///  - `A`
///  - `A, A`
///
/// Does not match:
///  - `,`
///  - `, A`
///  - `A, A,`
pub type SeparatedList0<'s, T> = Option<SeparatedList1<'s, T>>;

/// A list of at least one sub-grammar, separated by an individual token, with an optional trailing
/// separator.
///
/// # Examples
///
/// [SeparatedListTrailing1]<`A` `,`> matches:
///  - `A`
///  - `A,`
///  - `A, A`
///  - `A, A,`
///
/// Does not match:
///  - ` ` (empty input)
///  - `,`
///  - `, A`
#[derive(Debug, Clone)]
pub struct SeparatedListTrailing1<'s, T> {
    pub items: Vec<(T, &'s Token<'s>)>,
    pub last_item: Box<T>,
    pub trailing: Option<&'s Token<'s>>,
}

/// A list of zero or more sub-grammars, separated by an individual token, with an optional trailing
/// separator if the list has at least one sub-grammar.
///
/// # Examples
///
/// [SeparatedListTrailing0]<`A` `,`> matches:
///  - ` ` (empty input)
///  - `A`
///  - `A,`
///  - `A, A`
///  - `A, A,`
///
/// Does not match:
///  - `,`
///  - `, A`
pub type SeparatedListTrailing0<'s, T> = Option<SeparatedListTrailing1<'s, T>>;

/// The items of a separated list in order, with the separator after each but the last.
pub open spec fn separated_items<'s, T>(items: Seq<(T, &'s Token<'s>)>, last: T) -> Seq<T> {
    items.map_values(|p: (T, &'s Token<'s>)| p.0).push(last)
}

impl<'s, T> SeparatedList1<'s, T> {
    /// The items of the list in order.
    pub open spec fn values(self) -> Seq<T> {
        separated_items(self.items@, *self.last_item)
    }

    /// Pushes an item to the list.
    pub fn push(&mut self, last_separator: &'s Token<'s>, item: T)
        ensures
            final(self).items@ == old(self).items@.push((*old(self).last_item, last_separator)),
            *final(self).last_item == item,
            final(self).values() == old(self).values().push(item),
    {
        let mut new_last = Box::new(item);
        core::mem::swap(&mut self.last_item, &mut new_last);
        self.items.push((*new_last, last_separator));
        assert(self.items@.map_values(|p: (T, &'s Token<'s>)| p.0) =~= old(self).items@.map_values(
            |p: (T, &'s Token<'s>)| p.0,
        ).push(*old(self).last_item));
    }

    /// Adds a trailing separator, converting the list to a [`SeparatedListTrailing1`].
    pub fn into_trailing(self, trailing: Option<&'s Token<'s>>) -> (r: SeparatedListTrailing1<'s, T>)
        ensures
            r.items == self.items,
            r.last_item == self.last_item,
            r.trailing == trailing,
    {
        SeparatedListTrailing1 { items: self.items, last_item: self.last_item, trailing }
    }
}

} // verus!
