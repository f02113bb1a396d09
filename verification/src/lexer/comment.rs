use crate::lexer::error::LexerError;
use crate::lexer::parse_str::{
    find_byte, find_pair, is_pair_at, lemma_after_ascii, ParseStr,
};
use crate::token::Comment;
use vstd::prelude::*;
use vstd::string::StringSliceAdditionalSpecFns;

verus! {

/// The text of a comment, between or after its delimiters.
pub open spec fn comment_text<'s>(c: Comment<'s>) -> &'s str {
    match c {
        Comment::MultiLine(t) => t,
        Comment::SingleLine(t) => t,
        Comment::ScriptStyle(t) => t,
    }
}

/// The position of the first line break in `b` at or after `from`, or the length of `b`.
#[verifier::opaque]
pub open spec fn line_end(b: Seq<u8>, from: int) -> int {
    if exists|k: int| from <= k < b.len() && #[trigger] b[k] == 0x0au8 {
        choose|k: int| from <= k < b.len() && #[trigger] b[k] == 0x0au8 && forall|j: int|
            from <= j < k ==> b[j] != 0x0au8
    } else {
        b.len() as int
    }
}

/// The position of the first `*/` in `b` at or after `from`, if there is one.
#[verifier::opaque]
pub open spec fn multi_line_end(b: Seq<u8>, from: int) -> Option<int> {
    if exists|k: int| from <= k && #[trigger] is_pair_at(b, k, 0x2au8, 0x2fu8) {
        Some(choose|k: int| from <= k && is_pair_at(b, k, 0x2au8, 0x2fu8) && forall|j: int|
            from <= j < k ==> !#[trigger] is_pair_at(b, j, 0x2au8, 0x2fu8))
    } else {
        None
    }
}

/// A comment at the start of `b`: its kind (0 for `/* */`, 1 for `//`, 2 for `#`), the range of
/// its text and the number of bytes it takes.
pub open spec fn comment_at(b: Seq<u8>) -> Option<(int, int, int, int)> {
    if b.len() >= 2 && b[0] == 0x2fu8 && b[1] == 0x2au8 {
        match multi_line_end(b, 2) {
            Some(e) => Some((0, 2, e, e + 2)),
            None => Some((0, 2, b.len() as int, b.len() as int)),
        }
    } else if b.len() >= 1 && b[0] == 0x23u8 {
        Some((2, 1, line_end(b, 1), line_end(b, 1)))
    } else if b.len() >= 2 && b[0] == 0x2fu8 && b[1] == 0x2fu8 {
        Some((1, 2, line_end(b, 2), line_end(b, 2)))
    } else {
        None
    }
}

/// The kind number of a comment, as in [`comment_at`].
pub open spec fn comment_kind(c: Comment) -> int {
    match c {
        Comment::MultiLine(_) => 0,
        Comment::SingleLine(_) => 1,
        Comment::ScriptStyle(_) => 2,
    }
}

proof fn lemma_line_end(b: Seq<u8>, from: int, k: Option<usize>)
    requires
        0 <= from <= b.len(),
        match k {
            Some(k) => from <= k < b.len() && b[k as int] == 0x0au8 && forall|j: int|
                from <= j < k ==> b[j] != 0x0au8,
            None => forall|j: int| from <= j < b.len() ==> b[j] != 0x0au8,
        },
    ensures
        line_end(b, from) == match k {
            Some(k) => k as int,
            None => b.len() as int,
        },
{
    reveal(line_end);
    if let Some(k) = k {
        assert(b[k as int] == 0x0au8);
        let c = choose|c: int| from <= c < b.len() && #[trigger] b[c] == 0x0au8 && forall|j: int|
            from <= j < c ==> b[j] != 0x0au8;
        if c < k {
            assert(b[c] != 0x0au8);
        }
        if k < c {
            assert(b[k as int] != 0x0au8);
        }
    }
}

proof fn lemma_multi_line_end(b: Seq<u8>, found: Option<usize>)
    requires
        match found {
            Some(k) => 2 <= k && is_pair_at(b, k as int, 0x2au8, 0x2fu8) && forall|j: int|
                2 <= j < k ==> !#[trigger] is_pair_at(b, j, 0x2au8, 0x2fu8),
            None => forall|j: int| 2 <= j ==> !#[trigger] is_pair_at(b, j, 0x2au8, 0x2fu8),
        },
    ensures
        multi_line_end(b, 2) == match found {
            Some(k) => Some(k as int),
            None => None::<int>,
        },
{
    reveal(multi_line_end);
    if let Some(k) = found {
        assert(is_pair_at(b, k as int, 0x2au8, 0x2fu8));
        let c = choose|c: int| 2 <= c && is_pair_at(b, c, 0x2au8, 0x2fu8) && forall|j: int|
            2 <= j < c ==> !#[trigger] is_pair_at(b, j, 0x2au8, 0x2fu8);
        if c < k {
            assert(!is_pair_at(b, c, 0x2au8, 0x2fu8));
        }
        if k < c {
            assert(!is_pair_at(b, k as int, 0x2au8, 0x2fu8));
        }
    }
}

/// Tries to read a comment at the start of `val`.
pub fn try_comment(val: ParseStr) -> (r: Result<Option<(Comment, ParseStr)>, LexerError>)
    requires
        val.wf(),
    ensures
        match r {
            Ok(Some((c, rest))) => {
                &&& rest.wf()
                &&& comment_at(val.bytes()) matches Some((kind, start, end, len))
                &&& 0 < len <= val.bytes().len()
                &&& comment_kind(c) == kind
                &&& comment_text(c).spec_bytes() == val.bytes().subrange(start, end)
                &&& rest.bytes() == val.bytes().skip(len)
                &&& rest.offset() == val.offset() + len
            },
            Ok(None) => comment_at(val.bytes()) is None,
            Err(_) => false,
        },
{
    let b = val.as_str().as_bytes();
    let n = b.len();
    proof {
        val.lemma_valid();
    }
    if n >= 2 && b[0] == 0x2f && b[1] == 0x2a {
        let (c, rest) = multi_line_comment(val);
        return Ok(Some((c, rest)));
    }
    if n >= 1 && b[0] == 0x23 {
        let (comment_val, remaining) = rest_of_line(val, 1);
        return Ok(Some((Comment::ScriptStyle(comment_val), remaining)));
    }
    if n >= 2 && b[0] == 0x2f && b[1] == 0x2f {
        let (comment_val, remaining) = rest_of_line(val, 2);
        return Ok(Some((Comment::SingleLine(comment_val), remaining)));
    }
    Ok(None)
}

/// Reads a `/* */` comment at the start of `val`, which starts with `/*`.
fn multi_line_comment<'s>(val: ParseStr<'s>) -> (r: (Comment<'s>, ParseStr<'s>))
    requires
        val.wf(),
        val.bytes().len() >= 2,
        val.bytes()[0] == 0x2fu8,
        val.bytes()[1] == 0x2au8,
    ensures
        r.1.wf(),
        comment_at(val.bytes()) matches Some((kind, start, end, len)) && 0 < len <= val.bytes().len()
            && comment_kind(r.0) == kind
            && comment_text(r.0).spec_bytes() == val.bytes().subrange(start, end) && r.1.bytes()
            == val.bytes().skip(len) && r.1.offset() == val.offset() + len,
{
    let b = val.as_str().as_bytes();
    proof {
        val.lemma_valid();
    }
    let n = b.len();
    let found = find_pair(b, 2, 0x2a, 0x2f);
    proof {
        lemma_multi_line_end(b@, found);
        lemma_after_ascii(b@, 1);
    }
    let inner = val.from(2);
    match found {
        Some(k) => {
            proof {
                lemma_after_ascii(b@, k + 1);
            }
            assert(inner.bytes()[k - 2] == b@[k as int]);
            let (text, _) = inner.split_at(Some(k - 2));
            assert(text.spec_bytes() =~= b@.subrange(2, k as int));
            let rest = val.from(k + 2);
            (Comment::MultiLine(text), rest)
        },
        None => {
            let rest = val.end();
            assert(inner.bytes() =~= b@.subrange(2, b@.len() as int));
            assert(rest.bytes() =~= b@.skip(b@.len() as int));
            (Comment::MultiLine(inner.as_str()), rest)
        },
    }
}

/// Splits off the text from byte `from` to the end of the first line of `val`, before the line
/// break, where the bytes before `from` are ASCII.
fn rest_of_line<'s>(val: ParseStr<'s>, from: usize) -> (r: (&'s str, ParseStr<'s>))
    requires
        val.wf(),
        1 <= from <= val.bytes().len(),
        forall|j: int| 0 <= j < from ==> val.bytes()[j] < 0x80u8,
    ensures
        r.1.wf(),
        from <= line_end(val.bytes(), from as int) <= val.bytes().len(),
        r.0.spec_bytes() == val.bytes().subrange(from as int, line_end(val.bytes(), from as int)),
        r.1.bytes() == val.bytes().skip(line_end(val.bytes(), from as int)),
        r.1.offset() == val.offset() + line_end(val.bytes(), from as int),
{
    let b = val.as_str().as_bytes();
    proof {
        val.lemma_valid();
        lemma_after_ascii(b@, from - 1);
    }
    let k = find_byte(b, from, 0x0a);
    proof {
        lemma_line_end(b@, from as int, k);
    }
    let rest = val.from(from);
    match k {
        Some(k) => {
            assert(rest.bytes()[k - from] == b@[k as int]);
            let (text, after) = rest.split_at(Some(k - from));
            assert(text.spec_bytes() =~= b@.subrange(from as int, k as int));
            assert(after.bytes() =~= b@.skip(k as int));
            (text, after)
        },
        None => {
            let (text, after) = rest.split_at(None);
            assert(text.spec_bytes() =~= b@.subrange(from as int, b@.len() as int));
            assert(after.bytes() =~= b@.skip(b@.len() as int));
            (text, after)
        },
    }
}

} // verus!
