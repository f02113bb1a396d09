use crate::flavor::Flavor;
use crate::lexer::comment::{comment_at, comment_kind, comment_text, try_comment};
use crate::lexer::error::{LexerError, LexerErrorType};
use crate::lexer::identifier::{identifier_result, is_identifier_start, try_identifier};
use crate::lexer::literal::{literal_result, try_literal};
use crate::lexer::reading::{lemma_end_not_read, lemma_read_after_unique, lemma_stuck_not_end, lemma_stuck_not_read, terminal_of};
use crate::lexer::parse_str::{lemma_after_ascii, space_len, ParseStr};
use crate::lexer::symbol::{first_symbol, lemma_first_symbol, terminal_bytes, try_symbol};
use crate::token::{Comment, Token, TokenLine, TokenType};
use vstd::prelude::*;
use vstd::string::StringSliceAdditionalSpecFns;

verus! {

/// Produces the tokens of an input string one at a time, attaching comments and line breaks to
/// them.
pub struct TokenIter<'s> {
    val: ParseStr<'s>,
    flavor: Flavor,
    current_token: Option<Token<'s>>,
    before_lines: Vec<TokenLine<'s>>,
    current_line_comments: Vec<Comment<'s>>,
    input: Ghost<Seq<u8>>,
    prev_end: Ghost<int>,
    emitted: Ghost<Seq<(int, Seq<u8>)>>,
    done: Ghost<Seq<(int, Seq<u8>)>>,
}

/// Whether reading a token at the start of `val` moved forward to `rest`.
pub open spec fn advanced(val: ParseStr, rest: ParseStr) -> bool {
    &&& rest.wf()
    &&& rest.offset() > val.offset()
    &&& rest.offset() <= val.offset() + val.bytes().len()
    &&& rest.bytes() == val.bytes().skip(rest.offset() - val.offset())
}

/// The position after one step over whitespace, a line break or a comment at position `i` of
/// `b`, if one starts there.
pub open spec fn trivia_step(b: Seq<u8>, i: int) -> Option<int> {
    let rest = b.skip(i);
    if space_len(rest) > 0 {
        Some(i + space_len(rest))
    } else if rest.len() > 0 && rest[0] == 0x0au8 {
        Some(i + 1)
    } else {
        match comment_at(rest) {
            Some((_, _, _, len)) => Some(i + len),
            None => None,
        }
    }
}

/// The bytes of `b` from `i` to `j` are whitespace, line breaks and comments, read from `i` on.
pub open spec fn trivia_between(b: Seq<u8>, i: int, j: int) -> bool
    decreases j - i,
{
    if i == j {
        true
    } else if i < j {
        match trivia_step(b, i) {
            Some(k) => i < k <= j && trivia_between(b, k, j),
            None => false,
        }
    } else {
        false
    }
}

/// A step over whitespace, a line break or a comment at the end of such bytes gives more such
/// bytes.
pub proof fn lemma_trivia_extend(b: Seq<u8>, i: int, j: int, k: int)
    requires
        trivia_between(b, i, j),
        trivia_step(b, j) == Some(k),
        j < k,
    ensures
        trivia_between(b, i, k),
    decreases j - i,
{
    if i == j {
        assert(trivia_between(b, k, k));
    } else {
        let m = trivia_step(b, i)->0;
        lemma_trivia_extend(b, m, j, k);
    }
}

/// A comment as its kind number, as in [`comment_at`], and the bytes of its text.
pub open spec fn comment_view(c: Comment) -> (int, Seq<u8>) {
    (comment_kind(c), comment_text(c).spec_bytes())
}

/// The comments of a list, in order, as [`comment_view`] gives them.
pub open spec fn comments_view(cs: Seq<Comment>) -> Seq<(int, Seq<u8>)> {
    cs.map_values(|c: Comment| comment_view(c))
}

/// The comments of lines, in order.
pub open spec fn lines_comments(ls: Seq<TokenLine>) -> Seq<(int, Seq<u8>)>
    decreases ls.len(),
{
    if ls.len() == 0 {
        Seq::empty()
    } else {
        lines_comments(ls.drop_last()) + comments_view(ls.last().comments@)
    }
}

/// The comments attached to a token, in source order: those on the lines before it, those on its
/// line before it, and those after it on its line.
pub open spec fn token_comments(t: Token) -> Seq<(int, Seq<u8>)> {
    lines_comments(t.before_lines@) + comments_view(t.comments@) + match t.new_line {
        Some(l) => comments_view(l.comments@),
        None => Seq::empty(),
    }
}

/// The comment that a step over whitespace, a line break or a comment at position `i` of `b`
/// reads, if it reads one.
pub open spec fn trivia_comment_at(b: Seq<u8>, i: int) -> Seq<(int, Seq<u8>)> {
    let rest = b.skip(i);
    if space_len(rest) == 0 && !(rest.len() > 0 && rest[0] == 0x0au8) {
        match comment_at(rest) {
            Some((kind, start, end, _)) => seq![(kind, rest.subrange(start, end))],
            None => Seq::empty(),
        }
    } else {
        Seq::empty()
    }
}

/// The comments read by the steps over whitespace, line breaks and comments from `i` to `j` of
/// `b`, in order.
pub open spec fn trivia_comments(b: Seq<u8>, i: int, j: int) -> Seq<(int, Seq<u8>)>
    decreases j - i,
{
    if i < j {
        match trivia_step(b, i) {
            Some(k) => if i < k <= j {
                trivia_comment_at(b, i) + trivia_comments(b, k, j)
            } else {
                Seq::empty()
            },
            None => Seq::empty(),
        }
    } else {
        Seq::empty()
    }
}

/// Whether the step over whitespace, a line break or a comment at position `i` of `b` is a line
/// break.
pub open spec fn is_line_break_at(b: Seq<u8>, i: int) -> bool {
    let rest = b.skip(i);
    space_len(rest) == 0 && rest.len() > 0 && rest[0] == 0x0au8
}

/// The comments read by the steps over whitespace, line breaks and comments from `i` to `j` of
/// `b`, grouped into lines: a new group starts after each line break, so there is one group more
/// than there are line breaks.
pub open spec fn trivia_lines(b: Seq<u8>, i: int, j: int) -> Seq<Seq<(int, Seq<u8>)>>
    decreases j - i,
{
    if i < j {
        match trivia_step(b, i) {
            Some(k) => if i < k <= j {
                let rest = trivia_lines(b, k, j);
                if is_line_break_at(b, i) {
                    seq![Seq::empty()] + rest
                } else {
                    rest.update(0, trivia_comment_at(b, i) + rest[0])
                }
            } else {
                seq![Seq::empty()]
            },
            None => seq![Seq::empty()],
        }
    } else {
        seq![Seq::empty()]
    }
}

/// The comments after position `i` of `b` up to the first line break, if a line break follows
/// with only whitespace and comments before it.
pub open spec fn line_after(b: Seq<u8>, i: int) -> Option<Seq<(int, Seq<u8>)>>
    decreases b.len() - i,
{
    match trivia_step(b, i) {
        Some(k) => if i < k <= b.len() {
            if is_line_break_at(b, i) {
                Some(Seq::empty())
            } else {
                match line_after(b, k) {
                    Some(cs) => Some(trivia_comment_at(b, i) + cs),
                    None => None,
                }
            }
        } else {
            None
        },
        None => None,
    }
}

/// The comments of each of the lines, in order.
pub open spec fn lines_view(ls: Seq<TokenLine>) -> Seq<Seq<(int, Seq<u8>)>> {
    ls.map_values(|l: TokenLine| comments_view(l.comments@))
}

/// How many groups of comments at the start of the lines from `p` on belong to the token before
/// `p`: the first group, where a token ends at `p` (`p > 0`) and a line break follows it.
pub open spec fn lines_skipped(p: int, groups: Seq<Seq<(int, Seq<u8>)>>) -> int {
    if p > 0 && groups.len() >= 2 {
        1
    } else {
        0
    }
}

/// The comments and lines before token `t` read after position `p` of `b` are attached to it: each
/// line that ends between them, but the one that ends the line of a token before `p`, is one of
/// its `before_lines`, and the comments on its own line before it are its `comments`.
pub closed spec fn comments_placed(b: Seq<u8>, p: int, t: Token) -> bool {
    let groups = trivia_lines(b, p, t.range.start as int);
    &&& lines_view(t.before_lines@) == groups.subrange(lines_skipped(p, groups), groups.len() - 1)
    &&& comments_view(t.comments@) == groups.last()
}

/// Token `t`'s `new_line` is there exactly when a line break follows it with only whitespace and
/// comments between, and then holds those comments.
pub closed spec fn new_line_placed(b: Seq<u8>, t: Token) -> bool {
    match t.new_line {
        Some(l) => line_after(b, t.range.end as int) == Some(comments_view(l.comments@)),
        None => line_after(b, t.range.end as int) is None,
    }
}

/// After position `p`, where the last token ends, no line and no comment is left for an empty
/// token at the end of `b`.
pub closed spec fn nothing_trails(b: Seq<u8>, p: int) -> bool {
    let groups = trivia_lines(b, p, b.len() as int);
    &&& groups.len() - 1 - lines_skipped(p, groups) <= 0
    &&& groups.last().len() == 0
}

/// What [`comments_placed`], [`new_line_placed`] and [`nothing_trails`] state, for use outside
/// this module.
pub proof fn lemma_placement_def(b: Seq<u8>, p: int, t: Token)
    ensures
        comments_placed(b, p, t) == ({
            let groups = trivia_lines(b, p, t.range.start as int);
            &&& lines_view(t.before_lines@) == groups.subrange(lines_skipped(p, groups), groups.len() - 1)
            &&& comments_view(t.comments@) == groups.last()
        }),
        new_line_placed(b, t) == match t.new_line {
            Some(l) => line_after(b, t.range.end as int) == Some(comments_view(l.comments@)),
            None => line_after(b, t.range.end as int) is None,
        },
        nothing_trails(b, p) == ({
            let groups = trivia_lines(b, p, b.len() as int);
            &&& groups.len() - 1 - lines_skipped(p, groups) <= 0
            &&& groups.last().len() == 0
        }),
{
}

/// A step at the end of whitespace, line breaks and comments starts a new line after a line break,
/// and else adds the comment it reads, if any, to the last line.
pub proof fn lemma_trivia_lines_extend(b: Seq<u8>, i: int, j: int, k: int)
    requires
        trivia_between(b, i, j),
        trivia_step(b, j) == Some(k),
        j < k,
    ensures
        trivia_lines(b, i, k) == if is_line_break_at(b, j) {
            trivia_lines(b, i, j).push(Seq::empty())
        } else {
            let g = trivia_lines(b, i, j);
            g.update(g.len() - 1, g.last() + trivia_comment_at(b, j))
        },
        trivia_lines(b, i, j).len() >= 1,
    decreases j - i,
{
    if i == j {
        assert(trivia_lines(b, k, k) == seq![Seq::<(int, Seq<u8>)>::empty()]);
        if is_line_break_at(b, j) {
            assert(trivia_lines(b, i, k) =~= trivia_lines(b, i, j).push(Seq::empty()));
        } else {
            let g = trivia_lines(b, i, j);
            assert(trivia_lines(b, i, k) =~= g.update(g.len() - 1, g.last() + trivia_comment_at(b, j)));
        }
    } else {
        let m = trivia_step(b, i)->0;
        lemma_trivia_lines_extend(b, m, j, k);
        lemma_trivia_lines_nonempty(b, m, k);
        let g = trivia_lines(b, m, j);
        let ci = trivia_comment_at(b, i);
        let cj = trivia_comment_at(b, j);
        if is_line_break_at(b, j) {
            assert(trivia_lines(b, i, k) =~= trivia_lines(b, i, j).push(Seq::empty()));
        } else {
            let h = g.update(g.len() - 1, g.last() + cj);
            assert(trivia_lines(b, m, k) == h);
            if is_line_break_at(b, i) {
                assert(trivia_lines(b, i, k) =~= trivia_lines(b, i, j).update(
                    trivia_lines(b, i, j).len() - 1,
                    trivia_lines(b, i, j).last() + cj,
                ));
            } else if g.len() == 1 {
                assert(h[0] == g[0] + cj);
                assert(ci + (g[0] + cj) =~= (ci + g[0]) + cj);
                assert(trivia_lines(b, i, k) =~= trivia_lines(b, i, j).update(
                    trivia_lines(b, i, j).len() - 1,
                    trivia_lines(b, i, j).last() + cj,
                ));
            } else {
                assert(trivia_lines(b, i, k) =~= trivia_lines(b, i, j).update(
                    trivia_lines(b, i, j).len() - 1,
                    trivia_lines(b, i, j).last() + cj,
                ));
            }
        }
    }
}

/// There is always at least one group of comments.
pub proof fn lemma_trivia_lines_nonempty(b: Seq<u8>, i: int, j: int)
    ensures
        trivia_lines(b, i, j).len() >= 1,
    decreases j - i,
{
    if i < j {
        if let Some(k) = trivia_step(b, i) {
            if i < k <= j {
                lemma_trivia_lines_nonempty(b, k, j);
            }
        }
    }
}

/// Where the whitespace and comments from `i` to `j` hold no line break and a line break follows
/// at `j`, the line after `i` holds their comments; where nothing of them follows at `j`, no line
/// break follows `i`.
pub proof fn lemma_line_after(b: Seq<u8>, i: int, j: int)
    requires
        trivia_between(b, i, j),
        trivia_lines(b, i, j).len() == 1,
        j <= b.len(),
    ensures
        is_line_break_at(b, j) && trivia_step(b, j) == Some(j + 1) && j + 1 <= b.len() ==> line_after(b, i)
            == Some(trivia_lines(b, i, j)[0]),
        trivia_step(b, j) is None ==> line_after(b, i) is None,
    decreases j - i,
{
    if i < j {
        let k = trivia_step(b, i)->0;
        lemma_trivia_lines_nonempty(b, k, j);
        if is_line_break_at(b, i) {
            assert(trivia_lines(b, i, j).len() == 1 + trivia_lines(b, k, j).len());
        }
        lemma_line_after(b, k, j);
    }
}

/// A step at the end of whitespace, line breaks and comments adds the comment it reads, if any.
pub proof fn lemma_trivia_comments_extend(b: Seq<u8>, i: int, j: int, k: int)
    requires
        trivia_between(b, i, j),
        trivia_step(b, j) == Some(k),
        j < k,
    ensures
        trivia_comments(b, i, k) == trivia_comments(b, i, j) + trivia_comment_at(b, j),
    decreases j - i,
{
    if i == j {
        assert(trivia_comments(b, k, k) == Seq::<(int, Seq<u8>)>::empty());
        assert(trivia_comments(b, i, k) =~= trivia_comments(b, i, j) + trivia_comment_at(b, j));
    } else {
        let m = trivia_step(b, i)->0;
        lemma_trivia_comments_extend(b, m, j, k);
        assert(trivia_comments(b, i, k) =~= trivia_comments(b, i, j) + trivia_comment_at(b, j));
    }
}

/// A line pushed to a list of lines adds its comments at the end.
pub proof fn lemma_lines_comments_push(ls: Seq<TokenLine>, l: TokenLine)
    ensures
        lines_comments(ls.push(l)) == lines_comments(ls) + comments_view(l.comments@),
{
    assert(ls.push(l).drop_last() =~= ls);
}

/// A comment pushed to a list adds its view at the end.
pub proof fn lemma_comments_view_push(cs: Seq<Comment>, c: Comment)
    ensures
        comments_view(cs.push(c)) == comments_view(cs) + seq![comment_view(c)],
{
    assert(comments_view(cs.push(c)) =~= comments_view(cs) + seq![comment_view(c)]);
}

/// `t` is the token that reading a token at its start in `b` gives: its type, and its end.
pub open spec fn token_lexed<'s>(b: Seq<u8>, flavor: Flavor, t: Token<'s>) -> bool {
    exists|val: ParseStr<'s>, rest: ParseStr<'s>|
        {
            &&& val.bytes() == b.skip(t.range.start as int)
            &&& val.offset() == t.range.start
            &&& #[trigger] token_result(val, flavor, t.ty, rest)
            &&& rest.offset() == t.range.end
        }
}

/// `t` is the token read in `b` after position `p`: only whitespace, line breaks and comments lie
/// between them, none starts where `t` starts, and `t` is a token read at its start, or the empty
/// token at the end of `b`.
pub open spec fn read_after<'s>(b: Seq<u8>, flavor: Flavor, p: int, t: Token<'s>) -> bool {
    &&& trivia_between(b, p, t.range.start as int)
    &&& if t.ty is Empty {
        t.range.start == t.range.end == b.len()
    } else {
        token_lexed(b, flavor, t) && trivia_step(b, t.range.start as int) is None && t.range.end <= b.len()
    }
}

impl<'s> TokenIter<'s> {
    /// The byte length of the whole input.
    pub closed spec fn input_len(self) -> int {
        self.val.offset() + self.val.bytes().len()
    }

    /// The bytes of the whole input.
    pub closed spec fn input(self) -> Seq<u8> {
        self.input@
    }

    /// The end of the last token produced, or zero.
    pub closed spec fn prev_end(self) -> int {
        self.prev_end@
    }

    /// The comments of the tokens produced so far, in order.
    pub closed spec fn emitted(self) -> Seq<(int, Seq<u8>)> {
        self.emitted@
    }

    /// The comments read before each token produced so far, in order.
    pub closed spec fn done(self) -> Seq<(int, Seq<u8>)> {
        self.done@
    }

    /// The flavor of the input.
    pub closed spec fn spec_flavor(self) -> Flavor {
        self.flavor
    }

    /// The offset before which every token produced so far ends, and at or after which every
    /// token still to come starts.
    pub closed spec fn bound(self) -> int {
        match self.current_token {
            Some(t) => t.range.start as int,
            None => self.val.offset(),
        }
    }

    /// A measure of the work left, which every step that produces something decreases.
    pub closed spec fn measure(self) -> int {
        3 * self.val.bytes().len() + (if self.current_token is Some {
            1int
        } else {
            0
        }) + (if self.before_lines@.len() > 0 || self.current_line_comments@.len() > 0 {
            1int
        } else {
            0
        })
    }

    /// The internal state is consistent.
    pub closed spec fn wf(self) -> bool {
        &&& self.val.wf()
        &&& self.val.offset() + self.val.bytes().len() <= usize::MAX
        &&& self.val.offset() + self.val.bytes().len() == self.input@.len()
        &&& self.val.bytes() == self.input@.skip(self.val.offset())
        &&& 0 <= self.prev_end@
        &&& match self.current_token {
            Some(t) => {
                &&& t.range.start <= t.range.end <= self.val.offset()
                &&& !(t.ty is Empty)
                &&& token_lexed(self.input@, self.flavor, t)
                &&& trivia_step(self.input@, t.range.start as int) is None
                &&& self.prev_end@ <= t.range.start
                &&& trivia_between(self.input@, self.prev_end@, t.range.start as int)
                &&& trivia_between(self.input@, t.range.end as int, self.val.offset())
                &&& t.new_line is None
                &&& self.before_lines@.len() == 0
                &&& self.emitted@ + lines_comments(t.before_lines@) + comments_view(t.comments@) + comments_view(
                    self.current_line_comments@,
                ) == self.done@ + trivia_comments(self.input@, self.prev_end@, t.range.start as int)
                    + trivia_comments(self.input@, t.range.end as int, self.val.offset())
                &&& comments_placed(self.input@, self.prev_end@, t)
                &&& trivia_lines(self.input@, t.range.end as int, self.val.offset()) == seq![
                    comments_view(self.current_line_comments@),
                ]
            },
            None => {
                &&& self.prev_end@ <= self.val.offset()
                &&& trivia_between(self.input@, self.prev_end@, self.val.offset())
                &&& self.emitted@ + lines_comments(self.before_lines@) + comments_view(self.current_line_comments@)
                    == self.done@ + trivia_comments(self.input@, self.prev_end@, self.val.offset())
                &&& self.lines_pending()
            },
        }
    }

    /// The lines and comments read since the last token was produced are held as its next
    /// token's `before_lines` and `comments` will hold them.
    pub closed spec fn lines_pending(self) -> bool {
        let groups = trivia_lines(self.input@, self.prev_end@, self.val.offset());
        &&& lines_view(self.before_lines@) == groups.subrange(lines_skipped(self.prev_end@, groups), groups.len() - 1)
        &&& comments_view(self.current_line_comments@) == groups.last()
        &&& self.prev_end@ > 0 && self.val.bytes().len() > 0 ==> groups.len() >= 2
    }

    /// The measure is never negative.
    pub proof fn lemma_measure(self)
        ensures
            self.measure() >= 0,
    {
    }

    /// Starts reading `val` in the given flavor.
    pub fn new(val: &'s str, flavor: Flavor) -> (r: TokenIter<'s>)
        ensures
            r.wf(),
            r.bound() == 0,
            r.input_len() == val.spec_bytes().len(),
            r.input() == val.spec_bytes(),
            r.prev_end() == 0,
            r.spec_flavor() == flavor,
            r.emitted() == Seq::<(int, Seq<u8>)>::empty(),
            r.done() == Seq::<(int, Seq<u8>)>::empty(),
    {
        let v = ParseStr::new(val);
        proof {
            v.lemma_wf();
            assert(v.bytes() =~= val.spec_bytes().skip(0));
            assert(lines_comments(Seq::<TokenLine<'s>>::empty()) == Seq::<(int, Seq<u8>)>::empty());
            assert(comments_view(Seq::<Comment<'s>>::empty()) =~= Seq::<(int, Seq<u8>)>::empty());
            assert(trivia_comments(val.spec_bytes(), 0, 0) == Seq::<(int, Seq<u8>)>::empty());
            assert(lines_view(Seq::<TokenLine<'s>>::empty()) =~= seq![Seq::<(int, Seq<u8>)>::empty()].subrange(0, 0));
        }
        let r = TokenIter {
            val: v,
            flavor,
            current_token: None,
            before_lines: Vec::new(),
            current_line_comments: Vec::new(),
            input: Ghost(val.spec_bytes()),
            prev_end: Ghost(0),
            emitted: Ghost(Seq::empty()),
            done: Ghost(Seq::empty()),
        };
        proof {
            assert(trivia_lines(val.spec_bytes(), 0, 0) == seq![Seq::<(int, Seq<u8>)>::empty()]);
            assert(r.lines_pending());
        }
        r
    }

    /// Produces the next token, or an error, or `None` at the end of the input.
    ///
    /// Comments on the same line as a token are attached to it, and comment lines before a token
    /// go to its `before_lines`. A token is produced once the line break or the token after it
    /// is read. Comments after the last token are produced as a token of type
    /// [`TokenType::Empty`].
    pub fn next(&mut self) -> (r: Option<Result<Token<'s>, LexerError<'s>>>)
        requires
            old(self).wf(),
        ensures
            final(self).wf(),
            final(self).input_len() == old(self).input_len(),
            final(self).input() == old(self).input(),
            final(self).spec_flavor() == old(self).spec_flavor(),
            old(self).bound() <= final(self).bound() <= final(self).input_len(),
            r matches Some(Ok(_)) ==> final(self).measure() < old(self).measure(),
            r is None ==> final(self).measure() == 0,
            r matches Some(Ok(t)) && t.ty is Empty ==> final(self).measure() == 0,
            old(self).measure() == 0 ==> r is None,
            r matches Some(Ok(t)) ==> comments_placed(old(self).input(), old(self).prev_end(), t) && new_line_placed(
                old(self).input(),
                t,
            ),
            r is None ==> nothing_trails(old(self).input(), old(self).prev_end()),
            r matches Some(Ok(t)) && t.ty is Empty ==> !nothing_trails(old(self).input(), old(self).prev_end()),
            r matches Some(Ok(t)) ==> old(self).bound() <= t.range.start <= t.range.end
                <= final(self).bound(),
            r matches Some(Err(e)) ==> !(e.ty is UnmatchedOpener),
            r matches Some(Err(e)) ==> stuck_after(old(self).input(), old(self).spec_flavor(), old(self).prev_end(), e),
            r matches Some(Ok(t)) ==> read_after(old(self).input(), old(self).spec_flavor(), old(self).prev_end(), t)
                && final(self).prev_end() == t.range.end,
            r is None ==> trivia_between(old(self).input(), old(self).prev_end(), old(self).input_len())
                && final(self).prev_end() == old(self).prev_end(),
            r matches Some(Ok(t)) ==> final(self).emitted() == old(self).emitted() + token_comments(t)
                && final(self).done() == old(self).done() + trivia_comments(
                old(self).input(),
                old(self).prev_end(),
                t.range.start as int,
            ),
            r is None ==> old(self).emitted() == old(self).done() + trivia_comments(
                old(self).input(),
                old(self).prev_end(),
                old(self).input_len(),
            ) && final(self).emitted() == old(self).emitted() && final(self).done() == old(self).done(),
            (exists|e: LexerError<'s>| #[trigger] stuck_at(old(self).input(), old(self).spec_flavor(), old(self).prev_end(), e))
                ==> r matches Some(Err(_)),
            forall|t: Token<'s>|
                #[trigger] read_after(old(self).input(), old(self).spec_flavor(), old(self).prev_end(), t) && !(t.ty is Empty)
                    ==> match r {
                    Some(Ok(u)) => u.range.start == t.range.start && u.range.end == t.range.end && terminal_of(u.ty)
                        == terminal_of(t.ty),
                    Some(Err(e)) => stuck_at(old(self).input(), old(self).spec_flavor(), t.range.end as int, e),
                    None => false,
                },
            trivia_between(old(self).input(), old(self).prev_end(), old(self).input().len() as int) ==> (r is None
                || (r matches Some(Ok(u)) && u.ty is Empty)),
    {
        let r = self.next_item();
        proof {
            let b = old(self).input();
            let f = old(self).spec_flavor();
            let p = old(self).prev_end();
            if exists|e: LexerError<'s>| #[trigger] stuck_at(b, f, p, e) {
                let e = choose|e: LexerError<'s>| #[trigger] stuck_at(b, f, p, e);
                match &r {
                    Some(Ok(u)) => lemma_stuck_not_read(b, f, p, e, *u),
                    None => lemma_stuck_not_end(b, f, p, e),
                    Some(Err(_)) => {},
                }
            }
            assert forall|t: Token<'s>|
                #[trigger] read_after(b, f, p, t) && !(t.ty is Empty) implies match r {
                    Some(Ok(u)) => u.range.start == t.range.start && u.range.end == t.range.end && terminal_of(u.ty)
                        == terminal_of(t.ty),
                    Some(Err(e)) => stuck_at(b, f, t.range.end as int, e),
                    None => false,
                } by {
                match &r {
                    Some(Ok(u)) => lemma_read_after_unique(b, f, p, *u, t),
                    Some(Err(e)) => {
                        if stuck_at(b, f, p, *e) {
                            lemma_stuck_not_read(b, f, p, *e, t);
                        } else {
                            let u = choose|u: Token<'s>| #[trigger] read_after(b, f, p, u) && !(u.ty is Empty) && stuck_at(
                                b,
                                f,
                                u.range.end as int,
                                *e,
                            );
                            lemma_read_after_unique(b, f, p, u, t);
                        }
                    },
                    None => lemma_end_not_read(b, f, p, t),
                }
            }
            if trivia_between(b, p, b.len() as int) {
                match &r {
                    Some(Ok(u)) => lemma_end_not_read(b, f, p, *u),
                    Some(Err(e)) => {
                        if stuck_at(b, f, p, *e) {
                            lemma_stuck_not_end(b, f, p, *e);
                        } else {
                            let u = choose|u: Token<'s>| #[trigger] read_after(b, f, p, u) && !(u.ty is Empty) && stuck_at(
                                b,
                                f,
                                u.range.end as int,
                                *e,
                            );
                            lemma_end_not_read(b, f, p, u);
                        }
                    },
                    None => {},
                }
            }
        }
        r
    }

    /// Reads the next token as [`Self::next`] does.
    #[verifier::rlimit(100)]
    fn next_item(&mut self) -> (r: Option<Result<Token<'s>, LexerError<'s>>>)
        requires
            old(self).wf(),
        ensures
            final(self).wf(),
            final(self).input_len() == old(self).input_len(),
            final(self).input() == old(self).input(),
            final(self).spec_flavor() == old(self).spec_flavor(),
            old(self).bound() <= final(self).bound() <= final(self).input_len(),
            r matches Some(Ok(_)) ==> final(self).measure() < old(self).measure(),
            r is None ==> final(self).measure() == 0,
            r matches Some(Ok(t)) && t.ty is Empty ==> final(self).measure() == 0,
            old(self).measure() == 0 ==> r is None,
            r matches Some(Ok(t)) ==> comments_placed(old(self).input(), old(self).prev_end(), t) && new_line_placed(
                old(self).input(),
                t,
            ),
            r is None ==> nothing_trails(old(self).input(), old(self).prev_end()),
            r matches Some(Ok(t)) && t.ty is Empty ==> !nothing_trails(old(self).input(), old(self).prev_end()),
            r matches Some(Ok(t)) ==> old(self).bound() <= t.range.start <= t.range.end
                <= final(self).bound(),
            r matches Some(Err(e)) ==> !(e.ty is UnmatchedOpener),
            r matches Some(Err(e)) ==> stuck_after(old(self).input(), old(self).spec_flavor(), old(self).prev_end(), e),
            r matches Some(Ok(t)) ==> read_after(old(self).input(), old(self).spec_flavor(), old(self).prev_end(), t)
                && final(self).prev_end() == t.range.end,
            r is None ==> trivia_between(old(self).input(), old(self).prev_end(), old(self).input_len())
                && final(self).prev_end() == old(self).prev_end(),
            r matches Some(Ok(t)) ==> final(self).emitted() == old(self).emitted() + token_comments(t)
                && final(self).done() == old(self).done() + trivia_comments(
                old(self).input(),
                old(self).prev_end(),
                t.range.start as int,
            ),
            r is None ==> old(self).emitted() == old(self).done() + trivia_comments(
                old(self).input(),
                old(self).prev_end(),
                old(self).input_len(),
            ) && final(self).emitted() == old(self).emitted() && final(self).done() == old(self).done(),
    {
        proof {
            self.val.lemma_wf();
        }
        // Scan through any newlines and comments.
        while !self.val.is_ended()
            invariant_except_break
                self.wf(),
                self.input_len() == old(self).input_len(),
                self.input() == old(self).input(),
                self.spec_flavor() == old(self).spec_flavor(),
                self.prev_end() == old(self).prev_end(),
                self.emitted() == old(self).emitted(),
                self.done() == old(self).done(),
                old(self).bound() <= self.bound(),
                self.measure() <= old(self).measure(),
            ensures
                self.wf(),
                self.input_len() == old(self).input_len(),
                self.input() == old(self).input(),
                self.spec_flavor() == old(self).spec_flavor(),
                self.prev_end() == old(self).prev_end(),
                self.emitted() == old(self).emitted(),
                self.done() == old(self).done(),
                old(self).bound() <= self.bound(),
                self.measure() <= old(self).measure(),
                self.val.bytes().len() == 0,
            decreases self.val.bytes().len(),
        {
            // Note that trim_start does not trim newlines.
            let ghost before = self.val;
            let ghost lines0 = self.before_lines@;
            let ghost comments0 = self.current_line_comments@;
            proof {
                if self.current_token is Some {
                    let t = self.current_token->0;
                    assert(self.emitted@ + lines_comments(t.before_lines@) + comments_view(t.comments@) + comments_view(
                        comments0,
                    ) == self.done@ + trivia_comments(self.input@, self.prev_end@, t.range.start as int)
                        + trivia_comments(self.input@, t.range.end as int, before.offset()));
                } else {
                    assert(self.emitted@ + lines_comments(lines0) + comments_view(comments0) == self.done@
                        + trivia_comments(self.input@, self.prev_end@, before.offset()));
                }
            }
            let ghost gap_start: int = if self.current_token is Some {
                self.current_token->0.range.end as int
            } else {
                self.prev_end()
            };
            self.val = self.val.trim_start();
            proof {
                let input = self.input@;
                assert(self.val.bytes() =~= input.skip(self.val.offset()));
                if before.offset() < self.val.offset() {
                    assert(input.skip(before.offset()) =~= before.bytes());
                    lemma_trivia_extend(input, gap_start, before.offset(), self.val.offset());
                    lemma_trivia_comments_extend(input, gap_start, before.offset(), self.val.offset());
                    assert(trivia_comments(input, gap_start, self.val.offset()) =~= trivia_comments(
                        input,
                        gap_start,
                        before.offset(),
                    ));
                    lemma_trivia_lines_extend(input, gap_start, before.offset(), self.val.offset());
                    let g = trivia_lines(input, gap_start, before.offset());
                    assert(trivia_comment_at(input, before.offset()) =~= Seq::<(int, Seq<u8>)>::empty());
                    assert(g.last() + Seq::<(int, Seq<u8>)>::empty() =~= g.last());
                    assert(trivia_lines(input, gap_start, self.val.offset()) =~= g);
                } else {
                    assert(self.val.offset() == before.offset());
                }
            }
            if self.val.is_ended() {
                break;
            }
            let ghost trimmed = self.val;
            let bytes = self.val.as_str().as_bytes();
            if bytes[0] == 0x0a {
                proof {
                    trimmed.lemma_valid();
                    lemma_after_ascii(bytes@, 0);
                }
                let remaining = self.val.from(1);
                proof {
                    let input = self.input@;
                    assert(input.skip(trimmed.offset()) =~= trimmed.bytes());
                    assert(trivia_step(input, trimmed.offset()) == Some(trimmed.offset() + 1));
                    lemma_trivia_extend(input, gap_start, trimmed.offset(), trimmed.offset() + 1);
                    lemma_trivia_comments_extend(input, gap_start, trimmed.offset(), trimmed.offset() + 1);
                    assert(trivia_comments(input, gap_start, trimmed.offset() + 1) =~= trivia_comments(
                        input,
                        gap_start,
                        trimmed.offset(),
                    ));
                    assert(remaining.bytes() =~= input.skip(remaining.offset()));
                    assert(is_line_break_at(input, trimmed.offset()));
                    lemma_trivia_lines_extend(input, gap_start, trimmed.offset(), trimmed.offset() + 1);
                    if self.current_token is Some {
                        let t = self.current_token->0;
                        lemma_line_after(input, t.range.end as int, trimmed.offset());
                    }
                }
                let ghost old_lines = self.before_lines@;
                let ghost old_comments = self.current_line_comments@;
                self.val = remaining;
                let mut comments = Vec::new();
                core::mem::swap(&mut comments, &mut self.current_line_comments);
                let line = TokenLine { comments };
                proof {
                    assert(comments_view(self.current_line_comments@) =~= Seq::<(int, Seq<u8>)>::empty());
                }
                // If there is an existing token, a newline indicates no more comment
                // information can be added to it, so it can be yielded.
                if let Some(mut current_token) = self.current_token.take() {
                    current_token.new_line = Some(line);
                    proof {
                        let input = self.input@;
                        assert(lines_comments(self.before_lines@) == Seq::<(int, Seq<u8>)>::empty());
                        self.emitted@ = self.emitted@ + token_comments(current_token);
                        self.done@ = self.done@ + trivia_comments(input, self.prev_end@, current_token.range.start as int);
                        self.prev_end@ = current_token.range.end as int;
                        assert(self.emitted@ + lines_comments(self.before_lines@) + comments_view(
                            self.current_line_comments@,
                        ) =~= self.done@ + trivia_comments(input, self.prev_end@, self.val.offset()));
                        let g = trivia_lines(input, self.prev_end@, self.val.offset());
                        assert(g.len() == 2);
                        assert(lines_view(self.before_lines@) =~= g.subrange(1, 1));
                        assert(self.lines_pending());
                    }
                    return Some(Ok(current_token));
                }
                // Add the previous line of comments to the next token's `before_lines` list.
                self.before_lines.push(line);
                proof {
                    lemma_lines_comments_push(old_lines, line);
                    let input = self.input@;
                    assert(self.emitted@ + lines_comments(self.before_lines@) + comments_view(
                        self.current_line_comments@,
                    ) =~= self.done@ + trivia_comments(input, self.prev_end@, self.val.offset()));
                    let g0 = trivia_lines(input, self.prev_end@, trimmed.offset());
                    let g = trivia_lines(input, self.prev_end@, self.val.offset());
                    assert(g == g0.push(Seq::empty()));
                    let k = lines_skipped(self.prev_end@, g0);
                    assert(lines_skipped(self.prev_end@, g) == k);
                    assert(lines_view(self.before_lines@) =~= lines_view(old_lines).push(comments_view(old_comments)));
                    assert(g.subrange(k, g.len() - 1) =~= g0.subrange(k, g0.len() - 1).push(g0.last()));
                    assert(self.lines_pending());
                }
            } else {
                match try_comment(self.val) {
                    Err(err) => return Some(Err(err)),
                    Ok(Some((comment, remaining))) => {
                        proof {
                            let input = self.input@;
                            assert(input.skip(trimmed.offset()) =~= trimmed.bytes());
                            lemma_trivia_extend(input, gap_start, trimmed.offset(), remaining.offset());
                            lemma_trivia_comments_extend(input, gap_start, trimmed.offset(), remaining.offset());
                            assert(trivia_comment_at(input, trimmed.offset()) =~= seq![comment_view(comment)]);
                            assert(remaining.bytes() =~= input.skip(remaining.offset()));
                        }
                        let ghost old_comments = self.current_line_comments@;
                        self.val = remaining;
                        self.current_line_comments.push(comment);
                        proof {
                            lemma_comments_view_push(old_comments, comment);
                            let input = self.input@;
                            assert(comments_view(self.current_line_comments@) == comments_view(old_comments) + seq![
                                comment_view(comment),
                            ]);
                            assert(trivia_comments(input, gap_start, self.val.offset()) == trivia_comments(
                                input,
                                gap_start,
                                trimmed.offset(),
                            ) + seq![comment_view(comment)]);
                            assert(trivia_comments(input, gap_start, trimmed.offset()) == trivia_comments(
                                input,
                                gap_start,
                                before.offset(),
                            ));
                            let v = seq![comment_view(comment)];
                            assert(old_comments == comments0);
                            if self.current_token is Some {
                                let t = self.current_token->0;
                                assert(gap_start == t.range.end);
                                let a = self.emitted@ + lines_comments(t.before_lines@) + comments_view(t.comments@);
                                let d = self.done@ + trivia_comments(input, self.prev_end@, t.range.start as int);
                                assert(a + comments_view(comments0) == d + trivia_comments(
                                    input,
                                    gap_start,
                                    before.offset(),
                                ));
                                assert(a + comments_view(self.current_line_comments@) =~= (a + comments_view(comments0))
                                    + v);
                                assert(d + trivia_comments(input, gap_start, self.val.offset()) =~= (d + trivia_comments(
                                    input,
                                    gap_start,
                                    before.offset(),
                                )) + v);
                            } else {
                                let a = self.emitted@ + lines_comments(self.before_lines@);
                                assert(self.before_lines@ == lines0);
                                assert(a + comments_view(comments0) == self.done@ + trivia_comments(
                                    input,
                                    gap_start,
                                    before.offset(),
                                ));
                                assert(a + comments_view(self.current_line_comments@) =~= (a + comments_view(comments0))
                                    + v);
                                assert(self.done@ + trivia_comments(input, gap_start, self.val.offset()) =~= (self.done@
                                    + trivia_comments(input, gap_start, before.offset())) + v);
                            }
                            assert(input.skip(trimmed.offset()) =~= trimmed.bytes());
                            assert(!is_line_break_at(input, trimmed.offset()));
                            lemma_trivia_lines_extend(input, gap_start, trimmed.offset(), self.val.offset());
                            let g0 = trivia_lines(input, gap_start, trimmed.offset());
                            let g = trivia_lines(input, gap_start, self.val.offset());
                            assert(g == g0.update(g0.len() - 1, g0.last() + v));
                            if self.current_token is Some {
                                assert(g =~= seq![comments_view(self.current_line_comments@)]);
                            } else {
                                let k = lines_skipped(self.prev_end@, g0);
                                assert(lines_skipped(self.prev_end@, g) == k);
                                assert(g.subrange(k, g.len() - 1) =~= g0.subrange(k, g0.len() - 1));
                                assert(self.lines_pending());
                            }
                        }
                        continue;
                    },
                    Ok(None) => {},
                }
                match try_token_ty(self.val, self.flavor) {
                    Err(err) => {
                        proof {
                            let input = self.input@;
                            assert(input.skip(trimmed.offset()) =~= trimmed.bytes());
                            assert(trivia_step(input, trimmed.offset()) is None);
                            assert(read_fails(input, self.flavor, trimmed.offset(), err));
                            assert(stuck_at(input, self.flavor, gap_start, err));
                            if self.current_token is Some {
                                let t = self.current_token->0;
                                assert(read_after(input, self.flavor, self.prev_end@, t));
                            }
                        }
                        return Some(Err(err));
                    },
                    Ok(Some((token_ty, remaining))) => {
                        let ghost pre_lines = self.before_lines@;
                        let ghost pre_comments = self.current_line_comments@;
                        proof {
                            let input = self.input@;
                            assert(input.skip(trimmed.offset()) =~= trimmed.bytes());
                            assert(trivia_step(input, trimmed.offset()) is None);
                        }
                        let mut comments = Vec::new();
                        core::mem::swap(&mut comments, &mut self.current_line_comments);
                        let mut before_lines = Vec::new();
                        core::mem::swap(&mut before_lines, &mut self.before_lines);
                        let token = Token {
                            ty: token_ty,
                            range: self.val.start_offset()..remaining.start_offset(),
                            comments,
                            before_lines,
                            // May be filled later if a \n is encountered.
                            new_line: None,
                        };
                        proof {
                            let input = self.input@;
                            assert(token_result(trimmed, self.flavor, token.ty, remaining));
                            assert(token_lexed(input, self.flavor, token));
                            assert(remaining.bytes() =~= input.skip(remaining.offset()));
                        }
                        self.val = remaining;
                        // Store the new token, so continuing comments can be attached to it
                        // before either a newline or another token is encountered. If there is
                        // an existing token stored, it can now be yielded.
                        let existing_token = self.current_token.take();
                        self.current_token = Some(token);
                        proof {
                            let input = self.input@;
                            assert(trivia_comments(input, token.range.end as int, self.val.offset())
                                == Seq::<(int, Seq<u8>)>::empty());
                            assert(comments_view(self.current_line_comments@) =~= Seq::<(int, Seq<u8>)>::empty());
                            assert(lines_comments(self.before_lines@) == Seq::<(int, Seq<u8>)>::empty());
                            assert(trivia_lines(input, token.range.end as int, self.val.offset()) == seq![
                                Seq::<(int, Seq<u8>)>::empty(),
                            ]);
                            assert(token.before_lines@ == pre_lines && token.comments@ == pre_comments);
                        }
                        if let Some(t) = existing_token {
                            proof {
                                let input = self.input@;
                                assert(lines_comments(token.before_lines@) == Seq::<(int, Seq<u8>)>::empty());
                                self.emitted@ = self.emitted@ + token_comments(t);
                                self.done@ = self.done@ + trivia_comments(input, self.prev_end@, t.range.start as int);
                                self.prev_end@ = t.range.end as int;
                                assert(self.emitted@ + lines_comments(token.before_lines@) + comments_view(
                                    token.comments@,
                                ) + comments_view(self.current_line_comments@) =~= self.done@ + trivia_comments(
                                    input,
                                    self.prev_end@,
                                    token.range.start as int,
                                ) + trivia_comments(input, token.range.end as int, self.val.offset()));
                                lemma_line_after(input, t.range.end as int, token.range.start as int);
                                let g = trivia_lines(input, t.range.end as int, token.range.start as int);
                                assert(g.len() == 1);
                                assert(lines_view(token.before_lines@) =~= g.subrange(0, 0));
                                assert(comments_placed(input, self.prev_end@, token));
                            }
                            return Some(Ok(t));
                        }
                        proof {
                            let input = self.input@;
                            assert(self.emitted@ + lines_comments(token.before_lines@) + comments_view(token.comments@)
                                + comments_view(self.current_line_comments@) =~= self.done@ + trivia_comments(
                                input,
                                self.prev_end@,
                                token.range.start as int,
                            ) + trivia_comments(input, token.range.end as int, self.val.offset()));
                            assert(comments_placed(input, self.prev_end@, token));
                        }
                    },
                    Ok(None) => {
                        // Not a newline, not a comment, not a token.
                        let at = self.val.start_offset();
                        let err = LexerError::new(LexerErrorType::InvalidInput, at..at);
                        proof {
                            let input = self.input@;
                            assert(input.skip(trimmed.offset()) =~= trimmed.bytes());
                            assert(trivia_step(input, trimmed.offset()) is None);
                            assert(read_fails(input, self.flavor, trimmed.offset(), err));
                            assert(stuck_at(input, self.flavor, gap_start, err));
                            if self.current_token is Some {
                                let t = self.current_token->0;
                                assert(read_after(input, self.flavor, self.prev_end@, t));
                            }
                        }
                        return Some(Err(err));
                    },
                }
            }
        }
        // End of input.
        if let Some(token) = self.current_token.take() {
            proof {
                let input = self.input@;
                assert(lines_comments(self.before_lines@) == Seq::<(int, Seq<u8>)>::empty());
                self.emitted@ = self.emitted@ + token_comments(token);
                self.done@ = self.done@ + trivia_comments(input, self.prev_end@, token.range.start as int);
                self.prev_end@ = token.range.end as int;
                assert(self.emitted@ + lines_comments(self.before_lines@) + comments_view(self.current_line_comments@)
                    =~= self.done@ + trivia_comments(input, self.prev_end@, self.val.offset()));
                assert(input.skip(self.val.offset()) =~= Seq::<u8>::empty());
                assert(trivia_step(input, self.val.offset()) is None);
                lemma_line_after(input, token.range.end as int, self.val.offset());
                let g = trivia_lines(input, self.prev_end@, self.val.offset());
                assert(lines_view(self.before_lines@) =~= g.subrange(0, 0));
                assert(self.lines_pending());
            }
            return Some(Ok(token));
        }
        let ghost pre_groups = trivia_lines(self.input@, self.prev_end@, self.val.offset());
        if self.current_line_comments.len() > 0 || self.before_lines.len() > 0 {
            let end = self.val.end_offset();
            let mut comments = Vec::new();
            core::mem::swap(&mut comments, &mut self.current_line_comments);
            let mut before_lines = Vec::new();
            core::mem::swap(&mut before_lines, &mut self.before_lines);
            let token = Token { ty: TokenType::Empty, range: end..end, comments, before_lines, new_line: None };
            proof {
                let input = self.input@;
                assert(comments_view(self.current_line_comments@) =~= Seq::<(int, Seq<u8>)>::empty());
                assert(lines_comments(self.before_lines@) == Seq::<(int, Seq<u8>)>::empty());
                assert(trivia_comments(input, end as int, self.val.offset()) == Seq::<(int, Seq<u8>)>::empty());
                self.emitted@ = self.emitted@ + token_comments(token);
                self.done@ = self.done@ + trivia_comments(input, self.prev_end@, end as int);
                assert(input.skip(end as int) =~= Seq::<u8>::empty());
                assert(trivia_step(input, end as int) is None);
                assert(comments_placed(input, self.prev_end@, token));
                assert(lines_view(token.before_lines@).len() == token.before_lines@.len());
                assert(comments_view(token.comments@).len() == token.comments@.len());
                assert(pre_groups == trivia_lines(input, self.prev_end@, end as int));
                lemma_trivia_lines_nonempty(input, self.prev_end@, end as int);
                assert(token.before_lines@.len() > 0 || token.comments@.len() > 0);
                let k = lines_skipped(self.prev_end@, pre_groups);
                assert(pre_groups.subrange(k, pre_groups.len() - 1).len() == pre_groups.len() - 1 - k);
                assert(!nothing_trails(input, self.prev_end@));
                self.prev_end@ = end as int;
                assert(self.emitted@ + lines_comments(self.before_lines@) + comments_view(self.current_line_comments@)
                    =~= self.done@ + trivia_comments(input, self.prev_end@, self.val.offset()));
                assert(lines_view(self.before_lines@) =~= seq![Seq::<(int, Seq<u8>)>::empty()].subrange(0, 0));
                assert(self.lines_pending());
            }
            return Some(Ok(token));
        }
        proof {
            assert(comments_view(self.current_line_comments@) =~= Seq::<(int, Seq<u8>)>::empty());
            assert(lines_comments(self.before_lines@) == Seq::<(int, Seq<u8>)>::empty());
            assert(self.emitted@ =~= self.done@ + trivia_comments(self.input@, self.prev_end@, self.val.offset()));
            let g = trivia_lines(self.input@, self.prev_end@, self.val.offset());
            lemma_trivia_lines_nonempty(self.input@, self.prev_end@, self.val.offset());
            let k = lines_skipped(self.prev_end@, g);
            assert(lines_view(self.before_lines@).len() == 0);
            assert(g.subrange(k, g.len() - 1).len() == g.len() - 1 - k);
            assert(self.val.offset() == self.input@.len());
            assert(nothing_trails(self.input@, self.prev_end@));
        }
        None
    }
}

/// No token can be read at the start of `val`: it starts no literal, no symbol that the flavor
/// supports, and no identifier.
pub open spec fn no_token<'s>(val: ParseStr<'s>, flavor: Flavor) -> bool {
    &&& literal_result(val, Ok(None))
    &&& first_symbol(val.bytes(), flavor, 0) is None
    &&& (val.bytes().len() == 0 || !is_identifier_start(val.bytes()[0]))
}

/// Reading a token at byte `k` of `b` fails with `e`: a string or character literal there is not
/// closed, or no token starts there and `e` is an invalid input error at `k`.
pub open spec fn read_fails<'s>(b: Seq<u8>, flavor: Flavor, k: int, e: LexerError<'s>) -> bool {
    exists|val: ParseStr<'s>|
        #![trigger literal_result(val, Err(e))]
        #![trigger no_token(val, flavor)]
        {
            &&& val.bytes() == b.skip(k)
            &&& val.offset() == k
            &&& (literal_result(val, Err(e)) || (no_token(val, flavor) && e.ty is InvalidInput
                && e.range.start == k && e.range.end == k))
        }
}

/// After the whitespace, line breaks and comments from `p` on, at some byte `k` before the end of
/// `b`, reading a token fails with `e`.
pub open spec fn stuck_at<'s>(b: Seq<u8>, flavor: Flavor, p: int, e: LexerError<'s>) -> bool {
    exists|k: int|
        {
            &&& trivia_between(b, p, k)
            &&& k < b.len()
            &&& trivia_step(b, k) is None
            &&& #[trigger] read_fails(b, flavor, k, e)
        }
}

/// Reading from `p` on in `b` fails with `e`: either right away, or after one token.
pub open spec fn stuck_after<'s>(b: Seq<u8>, flavor: Flavor, p: int, e: LexerError<'s>) -> bool {
    ||| stuck_at(b, flavor, p, e)
    ||| exists|t: Token<'s>| #[trigger] read_after(b, flavor, p, t) && !(t.ty is Empty) && stuck_at(
        b,
        flavor,
        t.range.end as int,
        e,
    )
}

/// `ty` and `rest` are what reading a token at the start of `val` gives: a literal, else the
/// first symbol in the symbol order that the flavor supports, else an identifier or keyword.
pub open spec fn token_result<'s>(val: ParseStr<'s>, flavor: Flavor, ty: TokenType<'s>, rest: ParseStr<'s>) -> bool {
    &&& advanced(val, rest)
    &&& match ty {
        TokenType::Literal(l) => literal_result(val, Ok(Some((l, rest)))),
        _ => literal_result(val, Ok(None)) && match first_symbol(val.bytes(), flavor, 0) {
            Some(t) => {
                &&& ty == TokenType::<'s>::Terminal(t)
                &&& rest.bytes() == val.bytes().skip(terminal_bytes(t).len() as int)
                &&& rest.offset() == val.offset() + terminal_bytes(t).len()
            },
            None => identifier_result(val, flavor, ty, rest),
        },
    }
}

/// Tries to read a token at the start of `val`: a literal, then a symbol, then an identifier or
/// keyword.
pub fn try_token_ty<'s>(val: ParseStr<'s>, flavor: Flavor) -> (r: Result<
    Option<(TokenType<'s>, ParseStr<'s>)>,
    LexerError<'s>,
>)
    requires
        val.wf(),
    ensures
        match r {
            Ok(Some((ty, rest))) => token_result(val, flavor, ty, rest) && !(ty is Empty),
            Ok(None) => no_token(val, flavor),
            Err(e) => literal_result(val, Err(e)),
        },
        r matches Err(e) ==> e.ty is EndOfInputInsideString || e.ty is EndOfLineInsideString,
{
    match try_literal(val) {
        Err(e) => return Err(e),
        Ok(Some((literal, remaining))) => return Ok(Some((TokenType::Literal(literal), remaining))),
        Ok(None) => {},
    }
    if let Some((symbol, remaining)) = try_symbol(val, flavor) {
        proof {
            lemma_terminal_nonempty(symbol);
            lemma_first_symbol(val.bytes(), flavor, 0);
            val.lemma_wf();
        }
        return Ok(Some((TokenType::Terminal(symbol), remaining)));
    }
    match try_identifier(val, flavor) {
        Some((identifier, remaining)) => Ok(Some((identifier, remaining))),
        None => Ok(None),
    }
}

/// The text of every terminal token is at least one byte long.
pub proof fn lemma_terminal_nonempty(t: crate::token::TerminalToken)
    ensures
        terminal_bytes(t).len() > 0,
{
    assert(crate::token::terminal_chars(t).len() > 0);
    assert(terminal_bytes(t).len() > 0);
}

} // verus!
