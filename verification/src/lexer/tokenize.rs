use crate::flavor::Flavor;
use crate::lexer::error::{LexerError, LexerErrorType};
use crate::lexer::reading::{lemma_end_not_read, lemma_read_after_unique, lemma_stuck_not_end, lemma_stuck_not_read, terminal_of};
use crate::lexer::token_iter::{comments_placed, new_line_placed, nothing_trails, read_after, stuck_after, stuck_at, token_comments, trivia_between, trivia_comments, TokenIter};
use crate::token::{TerminalToken, Token, TokenType};
use vstd::prelude::*;
use vstd::string::StringSliceAdditionalSpecFns;

verus! {

/// A token with attached metadata.
#[derive(Debug, Clone, PartialEq)]
pub struct TokenItem<'s> {
    /// The actual token.
    pub token: Token<'s>,
    /// The index of the corresponding closing delimiter token, if this token is an opening
    /// delimiter.
    pub close_index: Option<usize>,
}

/// The closing delimiter of an opening delimiter token type.
pub open spec fn closer_of(ty: TokenType) -> Option<TerminalToken> {
    match ty {
        TokenType::Terminal(TerminalToken::OpenBrace) => Some(TerminalToken::CloseBrace),
        TokenType::Terminal(TerminalToken::OpenSquare) => Some(TerminalToken::CloseSquare),
        TokenType::Terminal(TerminalToken::OpenBracket) => Some(TerminalToken::CloseBracket),
        TokenType::Terminal(TerminalToken::OpenAttributes) => Some(TerminalToken::CloseAttributes),
        _ => None,
    }
}

/// Item `c` of `items` closes the opening delimiter at item `i`.
pub open spec fn closes_at(items: Seq<TokenItem>, i: int, c: int) -> bool {
    &&& 0 <= i < c < items.len()
    &&& closer_of(items[i].token.ty) is Some
    &&& items[c].token.ty == TokenType::Terminal(closer_of(items[i].token.ty)->0)
}

/// Every opening delimiter in `items` names a later item that is its closing delimiter, and no
/// other item names one.
pub open spec fn spans_matched(items: Seq<TokenItem>) -> bool {
    forall|i: int|
        0 <= i < items.len() ==> match #[trigger] items[i].close_index {
            Some(c) => closes_at(items, i, c as int),
            None => closer_of(items[i].token.ty) is None,
        }
}

/// Spans nest: every item between an opening delimiter and its closing delimiter that is itself an
/// opening delimiter is closed before that closing delimiter.
pub open spec fn spans_nested(items: Seq<TokenItem>) -> bool {
    forall|i: int, j: int|
        #![trigger items[i].close_index, items[j].close_index]
        0 <= i < j < items.len() && items[i].close_index is Some && j < items[i].close_index->0 ==> nested_in(
            items,
            j,
            items[i].close_index->0 as int,
        )
}

/// Item `j` is closed before `c` if it is an opening delimiter.
pub open spec fn nested_in(items: Seq<TokenItem>, j: int, c: int) -> bool {
    match items[j].close_index {
        Some(d) => d < c,
        None => closer_of(items[j].token.ty) is None,
    }
}

/// The tokens' byte ranges follow each other in order without overlapping, and lie within the
/// first `len` bytes.
pub open spec fn tokens_in_order(items: Seq<TokenItem>, len: int) -> bool {
    &&& forall|i: int|
        0 <= i < items.len() ==> #[trigger] items[i].token.range.start <= items[i].token.range.end
            <= len
    &&& forall|i: int, j: int|
        0 <= i < j < items.len() ==> #[trigger] items[i].token.range.end
            <= #[trigger] items[j].token.range.start
}

/// The end of the token before item `i` of `items`, or zero for the first item.
pub open spec fn gap_start(items: Seq<TokenItem>, i: int) -> int {
    if i == 0 {
        0
    } else {
        items[i - 1].token.range.end as int
    }
}

/// `items` are the tokens of the input `b` in the given flavor, in order: each is the token read at
/// its start after nothing but whitespace, line breaks and comments, or the empty token at the end
/// of the input, and nothing but whitespace, line breaks and comments follows the last.
pub open spec fn tokenization(b: Seq<u8>, flavor: Flavor, items: Seq<TokenItem>) -> bool {
    &&& forall|i: int|
        #![trigger read_after(b, flavor, gap_start(items, i), items[i].token)]
        0 <= i < items.len() ==> read_after(b, flavor, gap_start(items, i), items[i].token)
    &&& trivia_between(b, gap_start(items, items.len() as int), b.len() as int)
}

/// The tokens of the items, in order.
pub open spec fn item_tokens<'s>(items: Seq<TokenItem<'s>>) -> Seq<Token<'s>> {
    items.map_values(|item: TokenItem<'s>| item.token)
}

/// The comments attached to the tokens, in order.
pub open spec fn tokens_comments(ts: Seq<Token>) -> Seq<(int, Seq<u8>)>
    decreases ts.len(),
{
    if ts.len() == 0 {
        Seq::empty()
    } else {
        tokens_comments(ts.drop_last()) + token_comments(ts.last())
    }
}

/// The comments read in the input `b` before each of the tokens, after the one before it, in
/// order.
pub open spec fn gaps_comments(b: Seq<u8>, ts: Seq<Token>) -> Seq<(int, Seq<u8>)>
    decreases ts.len(),
{
    if ts.len() == 0 {
        Seq::empty()
    } else {
        let before = ts.drop_last();
        let start = if before.len() == 0 {
            0
        } else {
            before.last().range.end as int
        };
        gaps_comments(b, before) + trivia_comments(b, start, ts.last().range.start as int)
    }
}

/// Every comment of the input `b`, in order, is attached to one of `items`, in order, and no other
/// comment is.
pub open spec fn comments_kept(b: Seq<u8>, items: Seq<TokenItem>) -> bool {
    tokens_comments(item_tokens(items)) == gaps_comments(b, item_tokens(items)) + trivia_comments(
        b,
        gap_start(items, items.len() as int),
        b.len() as int,
    )
}

/// Adding a token after others adds its comments after theirs, and the comments read before it after
/// those read before them.
proof fn lemma_push_token<'s>(b: Seq<u8>, before: Seq<TokenItem<'s>>, after: Seq<TokenItem<'s>>, token: Token<'s>)
    requires
        after.len() == before.len() + 1,
        forall|i: int| 0 <= i < before.len() ==> (#[trigger] after[i]).token == before[i].token,
        after[before.len() as int].token == token,
    ensures
        tokens_comments(item_tokens(after)) == tokens_comments(item_tokens(before)) + token_comments(token),
        gaps_comments(b, item_tokens(after)) == gaps_comments(b, item_tokens(before)) + trivia_comments(
            b,
            gap_start(before, before.len() as int),
            token.range.start as int,
        ),
{
    let ts = item_tokens(after);
    assert(ts.drop_last() =~= item_tokens(before));
    assert(ts.last() == token);
    if before.len() > 0 {
        assert(after[before.len() - 1].token == before[before.len() - 1].token);
    }
}

/// The opening delimiters still open after the tokens, innermost last, each with its index and
/// its closing terminal: a token of the innermost one's closing type closes it, and then an
/// opening delimiter opens a new one.
pub open spec fn open_stack(ts: Seq<Token>) -> Seq<(int, TerminalToken)>
    decreases ts.len(),
{
    if ts.len() == 0 {
        Seq::empty()
    } else {
        let s = open_stack(ts.drop_last());
        let t = ts.last();
        let s1 = if s.len() > 0 && t.ty == TokenType::Terminal(s.last().1) {
            s.drop_last()
        } else {
            s
        };
        match closer_of(t.ty) {
            Some(c) => s1.push((ts.len() - 1, c)),
            None => s1,
        }
    }
}

/// Every item is the token read after the one before it, with only whitespace, line breaks and
/// comments between.
pub open spec fn read_prefix(b: Seq<u8>, flavor: Flavor, items: Seq<TokenItem>) -> bool {
    forall|i: int|
        #![trigger read_after(b, flavor, gap_start(items, i), items[i].token)]
        0 <= i < items.len() ==> read_after(b, flavor, gap_start(items, i), items[i].token)
}

/// `e` is the error for the innermost opening delimiter left open by all the tokens of `b`.
pub open spec fn unmatched_reported<'s>(b: Seq<u8>, flavor: Flavor, e: LexerError<'s>) -> bool {
    exists|items: Seq<TokenItem<'s>>|
        {
            &&& #[trigger] tokenization(b, flavor, items)
            &&& open_stack(item_tokens(items)).len() > 0
            &&& {
                let (i, c) = open_stack(item_tokens(items)).last();
                &&& 0 <= i < items.len()
                &&& e.ty == LexerErrorType::UnmatchedOpener { open: items[i].token.ty, close: TokenType::Terminal(c) }
                &&& e.range.start == items[i].token.range.start
                &&& e.range.end == items[i].token.range.end
            }
        }
}

/// `e` is the error of reading a token after some tokens read from the start of `b`.
pub open spec fn stuck_reported<'s>(b: Seq<u8>, flavor: Flavor, e: LexerError<'s>) -> bool {
    exists|items: Seq<TokenItem<'s>>|
        #[trigger] read_prefix(b, flavor, items) && stuck_after(b, flavor, gap_start(items, items.len() as int), e)
}

/// The layers of delimiters as indices and closing terminals.
spec fn stack_of(layers: Seq<Layer>) -> Seq<(int, TerminalToken)> {
    layers.map_values(|l: Layer| (l.open_index as int, l.close))
}

/// Returns the token that closes a tree, if the provided token is a valid opening token.
fn closing_token(opening: TokenType) -> (r: Option<TerminalToken>)
    ensures
        r == closer_of(opening),
{
    match opening {
        TokenType::Terminal(TerminalToken::OpenBrace) => Some(TerminalToken::CloseBrace),
        TokenType::Terminal(TerminalToken::OpenSquare) => Some(TerminalToken::CloseSquare),
        TokenType::Terminal(TerminalToken::OpenBracket) => Some(TerminalToken::CloseBracket),
        TokenType::Terminal(TerminalToken::OpenAttributes) => Some(TerminalToken::CloseAttributes),
        _ => None,
    }
}

struct Layer {
    open_index: usize,
    close: TerminalToken,
}

/// Where each of two sequences of items is read in order from the start of `b`, their first `i`
/// items start and end at the same bytes, are empty tokens at the same places and the same
/// terminals.
#[verifier::rlimit(100)]
proof fn lemma_prefix_agree<'s>(b: Seq<u8>, flavor: Flavor, items1: Seq<TokenItem<'s>>, items2: Seq<TokenItem<'s>>, i: int)
    requires
        read_prefix(b, flavor, items1),
        read_prefix(b, flavor, items2),
        0 <= i <= items1.len(),
        i <= items2.len(),
    ensures
        gap_start(items1, i) == gap_start(items2, i),
        forall|j: int|
            0 <= j < i ==> {
                &&& (#[trigger] items1[j]).token.range.start == items2[j].token.range.start
                &&& items1[j].token.range.end == items2[j].token.range.end
                &&& (items1[j].token.ty is Empty) == (items2[j].token.ty is Empty)
                &&& terminal_of(items1[j].token.ty) == terminal_of(items2[j].token.ty)
            },
    decreases i,
{
    if i > 0 {
        lemma_prefix_agree(b, flavor, items1, items2, i - 1);
        let p = gap_start(items1, i - 1);
        assert(read_after(b, flavor, p, items1[i - 1].token));
        assert(read_after(b, flavor, gap_start(items2, i - 1), items2[i - 1].token));
        lemma_read_after_unique(b, flavor, p, items1[i - 1].token, items2[i - 1].token);
    }
}

/// Where `items1` are the tokens of `b` and `items2` are read in order from the start of `b`, the
/// items of `items2` past the length of `items1` are empty tokens at the end of `b`.
#[verifier::rlimit(100)]
proof fn lemma_tail_empty<'s>(b: Seq<u8>, flavor: Flavor, items1: Seq<TokenItem<'s>>, items2: Seq<TokenItem<'s>>, j: int)
    requires
        tokenization(b, flavor, items1),
        read_prefix(b, flavor, items2),
        items1.len() <= j <= items2.len(),
    ensures
        forall|k: int| items1.len() <= k < j ==> (#[trigger] items2[k]).token.ty is Empty,
        j > items1.len() ==> gap_start(items2, j) == b.len(),
        j == items1.len() ==> gap_start(items2, j) == gap_start(items1, j),
    decreases j,
{
    let n = items1.len() as int;
    if j == n {
        lemma_prefix_agree(b, flavor, items1, items2, n);
    } else {
        lemma_tail_empty(b, flavor, items1, items2, j - 1);
        let p = gap_start(items2, j - 1);
        assert(read_after(b, flavor, p, items2[j - 1].token));
        if j - 1 > n {
            assert(trivia_between(b, b.len() as int, b.len() as int));
        }
        lemma_end_not_read(b, flavor, p, items2[j - 1].token);
    }
}

/// Empty tokens at the end change no delimiter.
proof fn lemma_open_stack_empty_tail(ts: Seq<Token>, n: int)
    requires
        0 <= n <= ts.len(),
        forall|k: int| n <= k < ts.len() ==> (#[trigger] ts[k]).ty is Empty,
    ensures
        open_stack(ts) == open_stack(ts.take(n)),
    decreases ts.len(),
{
    if ts.len() == n {
        assert(ts.take(n) =~= ts);
    } else {
        assert(ts.drop_last().take(n) =~= ts.take(n));
        lemma_open_stack_empty_tail(ts.drop_last(), n);
    }
}

/// Two token sequences with the same terminals in their first `n` places leave the same
/// delimiters open after them.
proof fn lemma_open_stack_agree(ts1: Seq<Token>, ts2: Seq<Token>, n: int)
    requires
        0 <= n <= ts1.len(),
        n <= ts2.len(),
        forall|k: int| 0 <= k < n ==> terminal_of((#[trigger] ts1[k]).ty) == terminal_of(ts2[k].ty),
    ensures
        open_stack(ts1.take(n)) == open_stack(ts2.take(n)),
    decreases n,
{
    if n > 0 {
        lemma_open_stack_agree(ts1, ts2, n - 1);
        assert(ts1.take(n).drop_last() =~= ts1.take(n - 1));
        assert(ts2.take(n).drop_last() =~= ts2.take(n - 1));
        assert(terminal_of(ts1[n - 1].ty) == terminal_of(ts2[n - 1].ty));
        assert(closer_of(ts1[n - 1].ty) == closer_of(ts2[n - 1].ty));
    }
}

/// The delimiters left open by the tokens of `b` do not depend on how they were found: two
/// sequences of items that are both the tokens of `b` leave the same delimiters open.
pub proof fn lemma_tokenizations_stack<'s>(b: Seq<u8>, flavor: Flavor, items1: Seq<TokenItem<'s>>, items2: Seq<TokenItem<'s>>)
    requires
        tokenization(b, flavor, items1),
        tokenization(b, flavor, items2),
    ensures
        open_stack(item_tokens(items1)) == open_stack(item_tokens(items2)),
{
    let ts1 = item_tokens(items1);
    let ts2 = item_tokens(items2);
    if items1.len() <= items2.len() {
        let n = items1.len() as int;
        lemma_prefix_agree(b, flavor, items1, items2, n);
        lemma_tail_empty(b, flavor, items1, items2, items2.len() as int);
        lemma_open_stack_empty_tail(ts2, n);
        lemma_open_stack_agree(ts1, ts2, n);
        assert(ts1.take(n) =~= ts1);
    } else {
        let n = items2.len() as int;
        lemma_prefix_agree(b, flavor, items1, items2, n);
        lemma_tail_empty(b, flavor, items2, items1, items1.len() as int);
        lemma_open_stack_empty_tail(ts1, n);
        lemma_open_stack_agree(ts1, ts2, n);
        assert(ts2.take(n) =~= ts2);
    }
}

/// Where `items1` are the tokens of `b`, reading never fails after items read in order from the
/// start of `b`.
#[verifier::rlimit(100)]
pub proof fn lemma_tokenization_not_stuck<'s>(
    b: Seq<u8>,
    flavor: Flavor,
    items1: Seq<TokenItem<'s>>,
    items2: Seq<TokenItem<'s>>,
    e: LexerError<'s>,
)
    requires
        tokenization(b, flavor, items1),
        read_prefix(b, flavor, items2),
    ensures
        !stuck_after(b, flavor, gap_start(items2, items2.len() as int), e),
{
    let n1 = items1.len() as int;
    let n2 = items2.len() as int;
    if n2 <= n1 {
        lemma_prefix_agree(b, flavor, items1, items2, n2);
        let g = gap_start(items1, n2);
        if n2 < n1 {
            let t = items1[n2].token;
            assert(read_after(b, flavor, g, t));
            if stuck_at(b, flavor, g, e) {
                lemma_stuck_not_read(b, flavor, g, e, t);
            }
            if exists|u: Token<'s>| #[trigger] read_after(b, flavor, g, u) && !(u.ty is Empty) && stuck_at(
                b,
                flavor,
                u.range.end as int,
                e,
            ) {
                let u = choose|u: Token<'s>| #[trigger] read_after(b, flavor, g, u) && !(u.ty is Empty) && stuck_at(
                    b,
                    flavor,
                    u.range.end as int,
                    e,
                );
                lemma_read_after_unique(b, flavor, g, u, t);
                let g1 = gap_start(items1, n2 + 1);
                assert(g1 == u.range.end);
                if n2 + 1 < n1 {
                    assert(read_after(b, flavor, g1, items1[n2 + 1].token));
                    lemma_stuck_not_read(b, flavor, g1, e, items1[n2 + 1].token);
                } else {
                    lemma_stuck_not_end(b, flavor, g1, e);
                }
            }
        } else {
            if stuck_at(b, flavor, g, e) {
                lemma_stuck_not_end(b, flavor, g, e);
            }
            if exists|u: Token<'s>| #[trigger] read_after(b, flavor, g, u) && !(u.ty is Empty) && stuck_at(
                b,
                flavor,
                u.range.end as int,
                e,
            ) {
                let u = choose|u: Token<'s>| #[trigger] read_after(b, flavor, g, u) && !(u.ty is Empty) && stuck_at(
                    b,
                    flavor,
                    u.range.end as int,
                    e,
                );
                lemma_end_not_read(b, flavor, g, u);
            }
        }
    } else {
        lemma_tail_empty(b, flavor, items1, items2, n2);
        let g = b.len() as int;
        assert(trivia_between(b, g, g));
        if stuck_at(b, flavor, g, e) {
            lemma_stuck_not_end(b, flavor, g, e);
        }
        if exists|u: Token<'s>| #[trigger] read_after(b, flavor, g, u) && !(u.ty is Empty) && stuck_at(
            b,
            flavor,
            u.range.end as int,
            e,
        ) {
            let u = choose|u: Token<'s>| #[trigger] read_after(b, flavor, g, u) && !(u.ty is Empty) && stuck_at(
                b,
                flavor,
                u.range.end as int,
                e,
            );
            lemma_end_not_read(b, flavor, g, u);
        }
    }
}

/// Item `i`'s comments and lines are attached as the input `b` places them: those before it, after
/// the token before it, in its `before_lines` and `comments`; a line break right after it in its
/// `new_line`; and an empty token only where lines or comments are left after the token before it.
pub open spec fn item_lines_attached(b: Seq<u8>, items: Seq<TokenItem>, i: int) -> bool {
    &&& comments_placed(b, gap_start(items, i), items[i].token)
    &&& new_line_placed(b, items[i].token)
    &&& items[i].token.ty is Empty ==> !nothing_trails(b, gap_start(items, i))
}

/// Every item's comments and lines are attached as `b` places them, and no line or comment is left
/// after the last item.
pub open spec fn lines_attached(b: Seq<u8>, items: Seq<TokenItem>) -> bool {
    &&& forall|i: int| 0 <= i < items.len() ==> #[trigger] item_lines_attached(b, items, i)
    &&& nothing_trails(b, gap_start(items, items.len() as int))
}

/// Where the token before token `i` of `ts` ends, or zero for the first.
spec fn tokens_gap(ts: Seq<Token>, i: int) -> int {
    if i == 0 {
        0
    } else {
        ts[i - 1].range.end as int
    }
}

/// Token `i` of `ts` has its comments and lines attached as `b` places them.
spec fn token_attached(b: Seq<u8>, ts: Seq<Token>, i: int) -> bool {
    &&& comments_placed(b, tokens_gap(ts, i), ts[i])
    &&& new_line_placed(b, ts[i])
    &&& ts[i].ty is Empty ==> !nothing_trails(b, tokens_gap(ts, i))
}

/// Every token of `ts` has its comments and lines attached as `b` places them.
#[verifier::opaque]
spec fn tokens_attached(b: Seq<u8>, ts: Seq<Token>) -> bool {
    forall|i: int| 0 <= i < ts.len() ==> #[trigger] token_attached(b, ts, i)
}

/// A token with its comments and lines attached after the others keeps them all attached.
proof fn lemma_tokens_attached_push(b: Seq<u8>, ts: Seq<Token>, t: Token)
    requires
        tokens_attached(b, ts),
        comments_placed(b, tokens_gap(ts, ts.len() as int), t),
        new_line_placed(b, t),
        t.ty is Empty ==> !nothing_trails(b, tokens_gap(ts, ts.len() as int)),
    ensures
        tokens_attached(b, ts.push(t)),
{
    reveal(tokens_attached);
    let ts2 = ts.push(t);
    assert forall|i: int| 0 <= i < ts2.len() implies #[trigger] token_attached(b, ts2, i) by {
        if i < ts.len() {
            assert(token_attached(b, ts, i));
            assert(ts2[i] == ts[i]);
            assert(tokens_gap(ts2, i) == tokens_gap(ts, i));
        } else {
            assert(tokens_gap(ts2, i) == tokens_gap(ts, ts.len() as int));
        }
    }
}

/// Items whose tokens have their comments and lines attached have them attached, each after the
/// item before it.
proof fn lemma_items_attached<'s>(b: Seq<u8>, items: Seq<TokenItem<'s>>)
    requires
        tokens_attached(b, item_tokens(items)),
        nothing_trails(b, gap_start(items, items.len() as int)),
    ensures
        lines_attached(b, items),
{
    reveal(tokens_attached);
    let ts = item_tokens(items);
    assert forall|i: int| 0 <= i < items.len() implies #[trigger] item_lines_attached(b, items, i) by {
        assert(token_attached(b, ts, i));
        assert(ts[i] == items[i].token);
        if i > 0 {
            assert(ts[i - 1] == items[i - 1].token);
        }
        assert(tokens_gap(ts, i) == gap_start(items, i));
    }
}

/// Parses an input string into a list of tokens.
///
/// The tokens are read in order from the start of the input, with nothing but whitespace, line
/// breaks and comments between them; comments are attached to the tokens around them.
///
/// Each opening delimiter (`{`, `[`, `(`, `</`) is matched with the first following closing
/// delimiter of its kind that is not taken by a later opener, and its `close_index` is set to the
/// closer's index. An opener without a closer is an error.
pub fn tokenize<'s>(val: &'s str, flavor: Flavor) -> (r: Result<Vec<TokenItem<'s>>, LexerError<'s>>)
    ensures
        r matches Ok(items) ==> spans_matched(items@) && spans_nested(items@) && tokens_in_order(
            items@,
            val.spec_bytes().len() as int,
        ),
        r matches Ok(items) ==> tokenization(val.spec_bytes(), flavor, items@),
        r matches Ok(items) ==> comments_kept(val.spec_bytes(), items@),
        r matches Err(e) ==> (e.ty matches LexerErrorType::UnmatchedOpener { open, close }
            ==> closer_of(open) is Some && close == TokenType::Terminal(closer_of(open)->0)),
        r matches Ok(items) ==> open_stack(item_tokens(items@)).len() == 0,
        r matches Ok(items) ==> forall|i: int| 0 <= i < items@.len() - 1 ==> !(#[trigger] items@[i].token.ty is Empty),
        r matches Ok(items) ==> lines_attached(val.spec_bytes(), items@),
        r matches Err(e) ==> if e.ty is UnmatchedOpener {
            unmatched_reported(val.spec_bytes(), flavor, e)
        } else {
            stuck_reported(val.spec_bytes(), flavor, e)
        },
        (exists|items: Seq<TokenItem<'s>>| #[trigger] tokenization(val.spec_bytes(), flavor, items) && open_stack(
            item_tokens(items),
        ).len() == 0) ==> r is Ok,
        (exists|items: Seq<TokenItem<'s>>| #[trigger] tokenization(val.spec_bytes(), flavor, items) && open_stack(
            item_tokens(items),
        ).len() > 0) ==> (r matches Err(e) && e.ty is UnmatchedOpener),
        !(exists|items: Seq<TokenItem<'s>>| #[trigger] tokenization(val.spec_bytes(), flavor, items)) ==> (r matches Err(
            e,
        ) && !(e.ty is UnmatchedOpener)),
{
    let r = tokenize_items(val, flavor);
    proof {
        let b = val.spec_bytes();
        if let Err(e) = &r {
            if e.ty is UnmatchedOpener {
                let items2 = choose|items: Seq<TokenItem<'s>>|
                    {
                        &&& #[trigger] tokenization(b, flavor, items)
                        &&& open_stack(item_tokens(items)).len() > 0
                        &&& {
                            let (i, c) = open_stack(item_tokens(items)).last();
                            &&& 0 <= i < items.len()
                            &&& e.ty == LexerErrorType::UnmatchedOpener {
                                open: items[i].token.ty,
                                close: TokenType::Terminal(c),
                            }
                            &&& e.range.start == items[i].token.range.start
                            &&& e.range.end == items[i].token.range.end
                        }
                    };
                assert forall|items: Seq<TokenItem<'s>>| #[trigger] tokenization(b, flavor, items) implies open_stack(
                    item_tokens(items),
                ).len() > 0 by {
                    lemma_tokenizations_stack(b, flavor, items, items2);
                }
            } else {
                let items2 = choose|items: Seq<TokenItem<'s>>|
                    #[trigger] read_prefix(b, flavor, items) && stuck_after(
                        b,
                        flavor,
                        gap_start(items, items.len() as int),
                        *e,
                    );
                assert forall|items: Seq<TokenItem<'s>>| !#[trigger] tokenization(b, flavor, items) by {
                    if tokenization(b, flavor, items) {
                        lemma_tokenization_not_stuck(b, flavor, items, items2, *e);
                    }
                }
            }
        }
        if let Ok(items2) = &r {
            assert forall|items: Seq<TokenItem<'s>>| #[trigger] tokenization(b, flavor, items) implies open_stack(
                item_tokens(items),
            ).len() == 0 by {
                lemma_tokenizations_stack(b, flavor, items, items2@);
            }
        }
    }
    r
}

/// Reads the tokens of an input string and matches their delimiters, as [`tokenize`] does.
#[verifier::rlimit(100)]
fn tokenize_items<'s>(val: &'s str, flavor: Flavor) -> (r: Result<Vec<TokenItem<'s>>, LexerError<'s>>)
    ensures
        r matches Ok(items) ==> spans_matched(items@) && spans_nested(items@) && tokens_in_order(
            items@,
            val.spec_bytes().len() as int,
        ),
        r matches Ok(items) ==> tokenization(val.spec_bytes(), flavor, items@),
        r matches Ok(items) ==> comments_kept(val.spec_bytes(), items@),
        r matches Err(e) ==> (e.ty matches LexerErrorType::UnmatchedOpener { open, close }
            ==> closer_of(open) is Some && close == TokenType::Terminal(closer_of(open)->0)),
        r matches Ok(items) ==> open_stack(item_tokens(items@)).len() == 0,
        r matches Ok(items) ==> forall|i: int| 0 <= i < items@.len() - 1 ==> !(#[trigger] items@[i].token.ty is Empty),
        r matches Ok(items) ==> lines_attached(val.spec_bytes(), items@),
        r matches Err(e) ==> if e.ty is UnmatchedOpener {
            unmatched_reported(val.spec_bytes(), flavor, e)
        } else {
            stuck_reported(val.spec_bytes(), flavor, e)
        },
{
    let mut items: Vec<TokenItem<'s>> = Vec::new();
    let mut layers: Vec<Layer> = Vec::new();
    let mut iter = TokenIter::new(val, flavor);
    proof {
        reveal(tokens_attached);
    }
    loop
        invariant
            iter.wf(),
            iter.input_len() == val.spec_bytes().len(),
            iter.bound() <= iter.input_len(),
            iter.input() == val.spec_bytes(),
            iter.spec_flavor() == flavor,
            iter.prev_end() == gap_start(items@, items@.len() as int),
            items@.len() > 0 && items@.last().token.ty is Empty ==> iter.measure() == 0,
            forall|i: int| 0 <= i < items@.len() - 1 ==> !(#[trigger] items@[i].token.ty is Empty),
            tokens_attached(val.spec_bytes(), item_tokens(items@)),
            iter.emitted() == tokens_comments(item_tokens(items@)),
            iter.done() == gaps_comments(val.spec_bytes(), item_tokens(items@)),
            stack_of(layers@) == open_stack(item_tokens(items@)),
            forall|i: int|
                0 <= i < items@.len() ==> read_after(
                    val.spec_bytes(),
                    flavor,
                    gap_start(items@, i),
                    #[trigger] items@[i].token,
                ),
            forall|k: int|
                0 <= k < layers@.len() ==> {
                    let o = #[trigger] layers@[k].open_index as int;
                    &&& 0 <= o < items@.len()
                    &&& items@[o].close_index is None
                    &&& closer_of(items@[o].token.ty) == Some(layers@[k].close)
                },
            forall|k1: int, k2: int|
                0 <= k1 < k2 < layers@.len() ==> #[trigger] layers@[k1].open_index
                    < #[trigger] layers@[k2].open_index,
            forall|i: int|
                0 <= i < items@.len() ==> match #[trigger] items@[i].close_index {
                    Some(c) => closes_at(items@, i, c as int),
                    None => closer_of(items@[i].token.ty) is Some ==> exists|k: int|
                        0 <= k < layers@.len() && #[trigger] layers@[k].open_index == i,
                },
            spans_nested(items@),
            forall|i: int|
                0 <= i < items@.len() ==> #[trigger] items@[i].token.range.start
                    <= items@[i].token.range.end <= iter.bound(),
            forall|i: int, j: int|
                0 <= i < j < items@.len() ==> #[trigger] items@[i].token.range.end
                    <= #[trigger] items@[j].token.range.start,
        ensures
            trivia_between(val.spec_bytes(), iter.prev_end(), val.spec_bytes().len() as int),
            nothing_trails(val.spec_bytes(), iter.prev_end()),
            iter.emitted() == iter.done() + trivia_comments(
                val.spec_bytes(),
                iter.prev_end(),
                val.spec_bytes().len() as int,
            ),
        decreases iter.measure(),
    {
        proof {
            iter.lemma_measure();
        }
        let ghost old_bound = iter.bound();
        let ghost old_measure = iter.measure();
        let token = match iter.next() {
            None => break,
            Some(Err(e)) => {
                assert(read_prefix(val.spec_bytes(), flavor, items@));
                return Err(e);
            },
            Some(Ok(token)) => token,
        };
        assert(iter.measure() < old_measure);
        let token_index = items.len();
        let ghost before = items@;
        let ghost s_before = layers@;
        let ghost mut closed_open: int = -1;
        // If this token matches the top layer's close token, pop the layer.
        let n = layers.len();
        if n > 0 {
            let top_close = layers[n - 1].close;
            let top_open = layers[n - 1].open_index;
            if token.ty.is_terminal(top_close) {
                items[top_open].close_index = Some(token_index);
                layers.pop();
                proof {
                    closed_open = top_open as int;
                }
            }
        }
        let ghost mid_layers = layers@;
        let ghost mid_items = items@;
        let close = closing_token(token.ty);
        // If this token is a valid opening token, push a new layer.
        if let Some(close_ty) = close {
            layers.push(Layer { open_index: token_index, close: close_ty });
        }
        let ghost before_push = items@;
        items.push(TokenItem { token, close_index: None });
        assert(forall|i: int| 0 <= i < items@.len() - 1 ==> items@[i] == before_push[i]);
        proof {
            iter.lemma_measure();
            assert(mid_layers.len() <= s_before.len());
            assert(forall|k: int| 0 <= k < mid_layers.len() ==> mid_layers[k] == s_before[k]);
            assert(forall|k: int| 0 <= k < mid_layers.len() ==> layers@[k] == mid_layers[k]);
            assert(closed_open >= 0 ==> n > 0 && closed_open == s_before[n - 1].open_index
                && mid_layers.len() == n - 1);
            assert(closed_open < 0 ==> mid_layers == s_before);
            assert forall|i: int| 0 <= i < token_index implies (#[trigger] items@[i]).token
                == before[i].token by {
                assert(items@[i].token == mid_items[i].token);
            }
            assert forall|i: int, j: int| 0 <= i < j < items@.len() implies #[trigger] items@[i].token.range.end
                <= #[trigger] items@[j].token.range.start by {
                assert(items@[i].token == before[i].token);
                if j < token_index {
                    assert(items@[j].token == before[j].token);
                } else {
                    assert(before[i].token.range.start <= before[i].token.range.end);
                    assert(before[i].token.range.end <= old_bound);
                }
            }
            assert forall|i: int| 0 <= i < token_index && i != closed_open implies #[trigger] items@[i]
                == before[i] by {
                assert(items@[i] == mid_items[i]);
            }
            assert forall|k: int| 0 <= k < mid_layers.len() implies (#[trigger] s_before[k]).open_index
                != closed_open by {
                if closed_open >= 0 {
                    assert(s_before[k].open_index < s_before[n - 1].open_index);
                }
            }
            assert forall|i: int, j: int|
                #![trigger items@[i].close_index, items@[j].close_index]
                0 <= i < j < items@.len() && items@[i].close_index is Some && j < items@[i].close_index->0 implies nested_in(
                    items@,
                    j,
                    items@[i].close_index->0 as int,
                ) by {
                if i == closed_open {
                    assert(items@[j] == before[j]);
                    match before[j].close_index {
                        Some(d) => {
                            assert(closes_at(before, j, d as int));
                        },
                        None => {
                            if closer_of(before[j].token.ty) is Some {
                                let k = choose|k: int|
                                    0 <= k < s_before.len() && #[trigger] s_before[k].open_index == j;
                                if k < n - 1 {
                                    assert(s_before[k].open_index < s_before[n - 1].open_index);
                                }
                            }
                        },
                    }
                } else {
                    assert(items@[i] == before[i]);
                    if j == closed_open {
                        assert(closer_of(before[j].token.ty) == Some(s_before[n - 1].close));
                    } else {
                        assert(items@[j] == before[j]);
                    }
                }
            }
            assert forall|i: int| 0 <= i < items@.len() implies match #[trigger] items@[i].close_index {
                Some(c) => closes_at(items@, i, c as int),
                None => closer_of(items@[i].token.ty) is Some ==> exists|k: int|
                    0 <= k < layers@.len() && #[trigger] layers@[k].open_index == i,
            } by {
                if i == token_index {
                    if closer_of(items@[i].token.ty) is Some {
                        assert(layers@[layers@.len() - 1].open_index == i);
                    }
                } else if i == closed_open {
                    assert(closer_of(before[i].token.ty) == Some(s_before[n - 1].close));
                } else {
                    assert(items@[i] == before[i]);
                    match before[i].close_index {
                        Some(c) => {
                            assert(items@[c as int] == before[c as int] || c == closed_open);
                            if c as int == closed_open {
                                assert(items@[c as int].token == before[c as int].token);
                            }
                        },
                        None => {
                            if closer_of(before[i].token.ty) is Some {
                                let k = choose|k: int|
                                    0 <= k < s_before.len() && #[trigger] s_before[k].open_index == i;
                                assert(k < mid_layers.len());
                                assert(layers@[k].open_index == i);
                            }
                        },
                    }
                }
            }
            assert(items@[token_index as int].token == token);
            lemma_push_token(val.spec_bytes(), before, items@, token);
            let ts = item_tokens(items@);
            assert(ts.drop_last() =~= item_tokens(before));
            let sb = stack_of(s_before);
            assert(stack_of(mid_layers) =~= if sb.len() > 0 && token.ty == TokenType::Terminal(sb.last().1) {
                sb.drop_last()
            } else {
                sb
            });
            assert(stack_of(layers@) =~= open_stack(ts));
            assert(ts =~= item_tokens(before).push(token));
            assert(tokens_gap(item_tokens(before), before.len() as int) == gap_start(before, before.len() as int));
            lemma_tokens_attached_push(val.spec_bytes(), item_tokens(before), token);
        }
    }
    // If there are remaining layers, there are one or more unmatched opening tokens. Otherwise
    // at this point tokenization is successful.
    let n = layers.len();
    proof {
        lemma_items_attached(val.spec_bytes(), items@);
    }
    if n == 0 {
        assert(stack_of(layers@) =~= Seq::<(int, TerminalToken)>::empty());
        Ok(items)
    } else {
        let open_index = layers[n - 1].open_index;
        let close = layers[n - 1].close;
        let open_token = &items[open_index].token;
        let e = LexerError::new(
            LexerErrorType::UnmatchedOpener { open: open_token.ty, close: TokenType::Terminal(close) },
            open_token.range.start..open_token.range.end,
        );
        proof {
            assert(stack_of(layers@)[n - 1] == (open_index as int, close));
            assert(tokenization(val.spec_bytes(), flavor, items@));
        }
        Err(e)
    }
}

} // verus!
