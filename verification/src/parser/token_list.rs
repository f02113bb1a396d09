use crate::flavor::Flavor;
use crate::lexer::{closer_of, TokenItem};
use crate::parser::error::{ParseError, ParseErrorType};
use crate::token::Token;
use vstd::prelude::*;

verus! {

/// Item `j` of `items` is closed before `c` if it is an opening delimiter.
pub open spec fn closed_before(items: Seq<TokenItem>, j: int, c: int) -> bool {
    match items[j].close_index {
        Some(d) => d < c,
        None => closer_of(items[j].token.ty) is None,
    }
}

/// Item `i` of `items` names a later item as its closer, with the delimiters between them closed
/// before it, if and only if it is an opening delimiter.
pub open spec fn span_ok_at(items: Seq<TokenItem>, i: int) -> bool {
    match items[i].close_index {
        Some(c) => i < c < items.len() && forall|j: int| i < j < c ==> #[trigger] closed_before(items, j, c as int),
        None => closer_of(items[i].token.ty) is None,
    }
}

/// The spans of `items` from index `k` on are closed within `items` and nest.
pub open spec fn spans_from(items: Seq<TokenItem>, k: int) -> bool {
    forall|i: int| k <= i < items.len() ==> #[trigger] span_ok_at(items, i)
}

/// A position in a list of tokens, which the parser moves through.
#[derive(Debug, Clone, Copy)]
pub struct TokenList<'s> {
    flavor: Flavor,
    tokens: &'s [TokenItem<'s>],
    index: usize,
}

impl<'s> TokenList<'s> {
    /// The tokens of the list, including those before the position.
    pub closed spec fn items(self) -> Seq<TokenItem<'s>> {
        self.tokens@
    }

    /// The index of the next token.
    pub closed spec fn pos(self) -> int {
        self.index as int
    }

    /// The flavor of the source.
    pub closed spec fn spec_flavor(self) -> Flavor {
        self.flavor
    }

    /// The position is within the tokens, and an index one past the last token fits in `usize`.
    pub open spec fn wf(self) -> bool {
        0 <= self.pos() <= self.items().len() < usize::MAX
    }

    /// The spans from the position on are closed within the list and nest.
    pub open spec fn spans_ok(self) -> bool {
        spans_from(self.items(), self.pos())
    }

    /// The number of tokens left.
    pub open spec fn remaining(self) -> nat {
        (self.items().len() - self.pos()) as nat
    }

    /// Whether `rest` is this list at the same or a later position.
    pub open spec fn reaches(self, rest: TokenList<'s>) -> bool {
        &&& rest.wf()
        &&& rest.items() == self.items()
        &&& rest.spec_flavor() == self.spec_flavor()
        &&& self.pos() <= rest.pos()
    }

    /// The tokens `tokens` of the given flavor, at their first position.
    pub closed spec fn first(flavor: Flavor, tokens: &'s [TokenItem<'s>]) -> TokenList<'s> {
        TokenList { flavor, tokens, index: 0 }
    }

    /// The same tokens at position `k`.
    pub closed spec fn at(self, k: int) -> TokenList<'s> {
        TokenList { flavor: self.flavor, tokens: self.tokens, index: k as usize }
    }

    /// The same tokens at a position within them have the same items and flavor, at that position.
    pub proof fn lemma_at(self, k: int)
        requires
            0 <= k <= self.items().len() < usize::MAX,
        ensures
            self.at(k).items() == self.items(),
            self.at(k).pos() == k,
            self.at(k).spec_flavor() == self.spec_flavor(),
            self.at(k).wf(),
    {
    }

    /// The tokens from the position of this list up to the position of `rest`, in order.
    pub open spec fn tokens_to(self, rest: TokenList<'s>) -> Seq<Token<'s>> {
        self.items().subrange(self.pos(), rest.pos()).map_values(|it: TokenItem<'s>| it.token)
    }

    /// A list at the start of `tokens`.
    pub fn new(flavor: Flavor, tokens: &'s [TokenItem<'s>]) -> (r: Self)
        requires
            tokens.len() < usize::MAX,
        ensures
            r.wf(),
            r.items() == tokens@,
            r.pos() == 0,
            r.spec_flavor() == flavor,
            r == TokenList::first(flavor, tokens),
    {
        TokenList { flavor, tokens, index: 0 }
    }

    /// The flavor of the source.
    pub fn flavor(self) -> (f: Flavor)
        ensures
            f == self.spec_flavor(),
    {
        self.flavor
    }

    /// The token before the position.
    pub fn previous(self) -> (r: Option<&'s TokenItem<'s>>)
        ensures
            match r {
                Some(item) => 0 < self.pos() <= self.items().len() && *item == self.items()[self.pos() - 1],
                None => self.pos() == 0 || self.pos() > self.items().len(),
            },
    {
        if self.index > 0 && self.index - 1 < self.tokens.len() {
            Some(&self.tokens[self.index - 1])
        } else {
            None
        }
    }

    /// The token at the position.
    pub fn next(self) -> (r: Option<&'s TokenItem<'s>>)
        requires
            self.wf(),
        ensures
            match r {
                Some(item) => self.pos() < self.items().len() && *item == self.items()[self.pos()],
                None => self.pos() == self.items().len(),
            },
    {
        if self.index < self.tokens.len() {
            Some(&self.tokens[self.index])
        } else {
            None
        }
    }

    /// Whether there are no tokens left.
    pub fn is_ended(self) -> (b: bool)
        requires
            self.wf(),
        ensures
            b == (self.pos() == self.items().len()),
    {
        self.index == self.tokens.len()
    }

    /// The index of the next token.
    pub fn start_index(self) -> (i: usize)
        ensures
            i == self.pos(),
    {
        self.index
    }

    /// The number of tokens, including those before the position.
    pub fn len(self) -> (n: usize)
        ensures
            n == self.items().len(),
    {
        self.tokens.len()
    }

    /// A non-fatal error of type `ty` at the position.
    pub fn error(self, ty: ParseErrorType) -> (e: ParseError)
        ensures
            e == (ParseError { ty, token_index: self.pos() as usize, context: None, is_fatal: false }),
    {
        ParseError::new(ty, self.index)
    }

    /// Whether a line break follows the token before the position.
    pub fn is_newline(self) -> (b: bool)
        ensures
            b == (0 < self.pos() <= self.items().len() && self.items()[self.pos() - 1].token.new_line is Some),
    {
        match self.previous() {
            Some(item) => item.token.new_line.is_some(),
            None => false,
        }
    }

    /// Takes the token at the position, moving past it.
    pub fn split_first(self) -> (r: Option<(TokenList<'s>, &'s TokenItem<'s>)>)
        requires
            self.wf(),
        ensures
            match r {
                Some((rest, item)) => {
                    &&& self.pos() < self.items().len()
                    &&& *item == self.items()[self.pos()]
                    &&& self.reaches(rest)
                    &&& rest.pos() == self.pos() + 1
                },
                None => self.pos() == self.items().len(),
            },
    {
        if self.index < self.tokens.len() {
            let first = &self.tokens[self.index];
            Some((TokenList { flavor: self.flavor, tokens: self.tokens, index: self.index + 1 }, first))
        } else {
            None
        }
    }

    /// Splits the list at `index`: the tokens from the position up to `index`, and the list at
    /// `index`.
    pub fn split_at(self, index: usize) -> (r: (TokenList<'s>, TokenList<'s>))
        requires
            self.wf(),
            self.pos() <= index <= self.items().len(),
        ensures
            r.0.wf(),
            r.0.items() == self.items().take(index as int),
            r.0.pos() == self.pos(),
            r.0.spec_flavor() == self.spec_flavor(),
            self.reaches(r.1),
            r.1.pos() == index,
    {
        let (head, _) = self.tokens.split_at(index);
        (
            TokenList { flavor: self.flavor, tokens: head, index: self.index },
            TokenList { flavor: self.flavor, tokens: self.tokens, index },
        )
    }
}

/// The tokens up to a later list and from there on to a third list are the tokens up to the
/// third list.
pub broadcast proof fn lemma_tokens_to_concat<'s>(a: TokenList<'s>, b: TokenList<'s>, c: TokenList<'s>)
    requires
        a.reaches(b),
        b.reaches(c),
    ensures
        #[trigger] a.tokens_to(b) + #[trigger] b.tokens_to(c) == a.tokens_to(c),
{
    assert(a.tokens_to(b) + b.tokens_to(c) =~= a.tokens_to(c));
}

/// No tokens lie between a list and itself.
pub broadcast proof fn lemma_tokens_to_self<'s>(a: TokenList<'s>)
    requires
        a.wf(),
    ensures
        #[trigger] a.tokens_to(a) == Seq::<Token<'s>>::empty(),
{
    assert(a.tokens_to(a) =~= Seq::<Token<'s>>::empty());
}

/// The tokens up to a list one token later are that token.
pub broadcast proof fn lemma_tokens_to_one<'s>(a: TokenList<'s>, b: TokenList<'s>)
    requires
        a.reaches(b),
        b.pos() == a.pos() + 1,
    ensures
        #[trigger] a.tokens_to(b) == seq![a.items()[a.pos()].token],
{
    assert(a.tokens_to(b) =~= seq![a.items()[a.pos()].token]);
}

/// The lemmas on the tokens between lists.
pub broadcast group group_tokens_to {
    lemma_tokens_to_concat,
    lemma_tokens_to_self,
    lemma_tokens_to_one,
}

} // verus!
