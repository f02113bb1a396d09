use vstd::prelude::*;
use vstd::string::StringSliceAdditionalSpecFns;
use vstd::utf8::*;

verus! {

broadcast use vstd::utf8::encode_utf8_valid_utf8;

/// A byte of ASCII whitespace other than a line break.
pub open spec fn is_ascii_space_byte(b: u8) -> bool {
    b == 0x20 || b == 0x09 || b == 0x0b || b == 0x0c || b == 0x0d
}

/// The length of the UTF-8 encoding of a non-ASCII whitespace character at the start of `b`, or
/// zero if `b` does not start with one. These are the characters of Unicode's `White_Space`
/// property above U+007F: U+0085, U+00A0, U+1680, U+2000 to U+200A, U+2028, U+2029, U+202F,
/// U+205F and U+3000.
pub open spec fn multibyte_space_len(b: Seq<u8>) -> nat {
    if b.len() >= 2 && b[0] == 0xc2u8 && (b[1] == 0x85u8 || b[1] == 0xa0u8) {
        2
    } else if b.len() >= 3 && ((b[0] == 0xe1u8 && b[1] == 0x9au8 && b[2] == 0x80u8) || (b[0]
        == 0xe2u8 && b[1] == 0x80u8 && ((0x80u8 <= b[2] && b[2] <= 0x8au8) || b[2] == 0xa8u8
        || b[2] == 0xa9u8 || b[2] == 0xafu8)) || (b[0] == 0xe2u8 && b[1] == 0x81u8 && b[2]
        == 0x9fu8) || (b[0] == 0xe3u8 && b[1] == 0x80u8 && b[2] == 0x80u8)) {
        3
    } else {
        0
    }
}

/// The number of bytes of whitespace other than line breaks at the start of `b`.
pub open spec fn space_len(b: Seq<u8>) -> nat
    decreases b.len(),
{
    if b.len() == 0 {
        0
    } else if is_ascii_space_byte(b[0]) {
        1 + space_len(b.drop_first())
    } else if multibyte_space_len(b) > 0 {
        multibyte_space_len(b) + space_len(b.skip(multibyte_space_len(b) as int))
    } else {
        0
    }
}

/// The width of the UTF-8 encoding whose leading byte is `b`.
pub open spec fn leading_width(b: u8) -> int {
    if b < 0x80u8 {
        1
    } else if b < 0xe0u8 {
        2
    } else if b < 0xf0u8 {
        3
    } else {
        4
    }
}

/// Whether `i` is a position in `b` where a `str` may be split.
pub open spec fn splittable(b: Seq<u8>, i: int) -> bool {
    0 <= i <= b.len() && (i == b.len() || !is_continuation_byte(b[i]))
}

/// In valid UTF-8, the encoding that starts at a character boundary ends at another one.
pub proof fn lemma_boundary_step(b: Seq<u8>, i: int)
    requires
        valid_utf8(b),
        0 <= i < b.len(),
        !is_continuation_byte(b[i]),
    ensures
        i + leading_width(b[i]) <= b.len(),
        splittable(b, i + leading_width(b[i])),
    decreases b.len(),
{
    let l = length_of_first_scalar(b);
    let rest = pop_first_scalar(b);
    assert(rest.len() < b.len()) by {
        assert(valid_first_scalar(b));
    }
    assert(l == leading_width(b[0]));
    assert(valid_utf8(rest));
    if rest.len() > 0 {
        assert(valid_first_scalar(rest));
        assert(rest[0] == b[l]);
    }
    if i == 0 {
    } else {
        assert(i >= l) by {
            if i < l {
                assert(is_continuation_byte(b[i]));
            }
        }
        assert(rest[i - l] == b[i]);
        lemma_boundary_step(rest, i - l);
        if i + leading_width(b[i]) < b.len() {
            assert(rest[i - l + leading_width(b[i])] == b[i + leading_width(b[i])]);
        }
    }
}

/// The position after an ASCII byte in valid UTF-8 is one where a `str` may be split.
pub proof fn lemma_after_ascii(b: Seq<u8>, i: int)
    requires
        valid_utf8(b),
        0 <= i < b.len(),
        b[i] < 0x80u8,
    ensures
        splittable(b, i + 1),
{
    lemma_boundary_step(b, i);
}

/// A position where a `str` may be split is a character boundary.
pub proof fn lemma_splittable_boundary(b: Seq<u8>, i: int)
    requires
        valid_utf8(b),
        splittable(b, i),
    ensures
        is_char_boundary(b, i),
{
    if i == b.len() {
        is_char_boundary_start_end_of_seq(b);
    } else {
        is_char_boundary_iff_not_is_continuation_byte(b, i);
    }
}

/// A position in the input string, holding the rest of the input and its byte offset from the
/// start.
#[derive(Debug, Clone, Copy)]
pub struct ParseStr<'s> {
    val: &'s str,
    offset: usize,
}

impl<'s> ParseStr<'s> {
    /// The bytes of the rest of the input.
    pub closed spec fn bytes(self) -> Seq<u8> {
        self.val.spec_bytes()
    }

    /// The byte offset of the rest of the input from the start of the input.
    pub closed spec fn offset(self) -> int {
        self.offset as int
    }

    /// The offset of the end of the input fits in a `usize`.
    pub closed spec fn wf(self) -> bool {
        self.offset + self.val.spec_bytes().len() <= usize::MAX
    }

    /// The offset of the end of the input fits in a `usize`.
    pub proof fn lemma_wf(self)
        requires
            self.wf(),
        ensures
            self.offset() + self.bytes().len() <= usize::MAX,
            self.offset() >= 0,
    {
    }

    /// The bytes of the rest of the input are valid UTF-8.
    pub proof fn lemma_valid(self)
        ensures
            valid_utf8(self.bytes()),
    {
    }

    /// Starts at the beginning of `val`.
    pub fn new(val: &'s str) -> (r: ParseStr<'s>)
        ensures
            r.wf(),
            r.bytes() == val.spec_bytes(),
            r.offset() == 0,
            r.as_str_spec() == val,
    {
        let b = val.as_bytes();
        let n = b.len();
        assert(n == b@.len());
        ParseStr { val, offset: 0 }
    }

    /// The rest of the input as a string slice.
    pub closed spec fn as_str_spec(self) -> &'s str {
        self.val
    }

    /// The rest of the input as a string slice.
    pub fn as_str(self) -> (s: &'s str)
        ensures
            s.spec_bytes() == self.bytes(),
            s == self.as_str_spec(),
    {
        self.val
    }

    /// Moves forward by `idx` bytes.
    pub fn from(self, idx: usize) -> (r: ParseStr<'s>)
        requires
            self.wf(),
            splittable(self.bytes(), idx as int),
        ensures
            r.wf(),
            r.bytes() == self.bytes().skip(idx as int),
            r.offset() == self.offset() + idx,
    {
        proof {
            lemma_splittable_boundary(self.bytes(), idx as int);
        }
        let (_, rest) = self.val.split_at(idx);
        ParseStr { val: rest, offset: self.offset + idx }
    }

    /// The end of the input.
    pub fn end(self) -> (r: ParseStr<'static>)
        requires
            self.wf(),
        ensures
            r.wf(),
            r.bytes() == Seq::<u8>::empty(),
            r.offset() == self.offset() + self.bytes().len(),
    {
        let e = "";
        proof {
            reveal_strlit("");
        }
        let n = self.val.len();
        ParseStr { val: e, offset: self.offset + n }
    }

    /// The number of bytes left.
    pub fn len(self) -> (n: usize)
        requires
            self.wf(),
        ensures
            n == self.bytes().len(),
    {
        self.val.len()
    }

    /// Whether the input has ended.
    pub fn is_ended(self) -> (b: bool)
        ensures
            b == (self.bytes().len() == 0),
    {
        let n = self.val.as_bytes().len();
        n == 0
    }

    /// The byte offset of the rest of the input.
    pub fn start_offset(self) -> (n: usize)
        ensures
            n == self.offset(),
    {
        self.offset
    }

    /// The byte offset of the end of the input.
    pub fn end_offset(self) -> (n: usize)
        requires
            self.wf(),
        ensures
            n == self.offset() + self.bytes().len(),
    {
        self.offset + self.val.len()
    }

    /// Splits off the first `mid` bytes as a string slice, or all of the input if `mid` is
    /// `None`.
    pub fn split_at(self, mid: Option<usize>) -> (r: (&'s str, ParseStr<'s>))
        requires
            self.wf(),
            mid matches Some(m) ==> splittable(self.bytes(), m as int),
        ensures
            r.1.wf(),
            match mid {
                Some(m) => {
                    &&& r.0.spec_bytes() == self.bytes().take(m as int)
                    &&& r.1.bytes() == self.bytes().skip(m as int)
                    &&& r.1.offset() == self.offset() + m
                },
                None => {
                    &&& r.0.spec_bytes() == self.bytes()
                    &&& r.1.bytes() == Seq::<u8>::empty()
                    &&& r.1.offset() == self.offset() + self.bytes().len()
                },
            },
    {
        match mid {
            Some(m) => {
                proof {
                    lemma_splittable_boundary(self.bytes(), m as int);
                }
                let (head, rest) = self.val.split_at(m);
                (head, ParseStr { val: rest, offset: self.offset + m })
            },
            None => (self.val, self.end()),
        }
    }

    /// Skips whitespace other than line breaks.
    pub fn trim_start(self) -> (r: ParseStr<'s>)
        requires
            self.wf(),
        ensures
            r.wf(),
            space_len(self.bytes()) <= self.bytes().len(),
            r.bytes() == self.bytes().skip(space_len(self.bytes()) as int),
            r.offset() == self.offset() + space_len(self.bytes()),
            space_len(r.bytes()) == 0,
    {
        let b = self.val.as_bytes();
        let n = b.len();
        let mut i: usize = 0;
        assert(b@.skip(0) =~= b@);
        while i < n
            invariant
                n == b@.len(),
                b@ == self.bytes(),
                valid_utf8(b@),
                splittable(b@, i as int),
                space_len(b@) == i + space_len(b@.skip(i as int)),
            ensures
                splittable(b@, i as int),
                space_len(b@) == i + space_len(b@.skip(i as int)),
                space_len(b@.skip(i as int)) == 0,
            decreases n - i,
        {
            let c = b[i];
            let ghost rest = b@.skip(i as int);
            assert(rest[0] == c);
            proof {
                lemma_boundary_step(b@, i as int);
            }
            if c == 0x20 || c == 0x09 || c == 0x0b || c == 0x0c || c == 0x0d {
                assert(rest.drop_first() =~= b@.skip(i + 1));
                i = i + 1;
            } else {
                let w = multibyte_space_at(b, i);
                assert(w == multibyte_space_len(rest));
                if w == 0 {
                    break;
                }
                assert(rest.skip(w as int) =~= b@.skip(i + w));
                i = i + w;
            }
        }
        self.from(i)
    }

    /// Removes `prefix` from the start of the input, if the input starts with it.
    pub fn strip_prefix(self, prefix: &str) -> (r: Option<ParseStr<'s>>)
        requires
            self.wf(),
        ensures
            match r {
                Some(rest) => {
                    &&& rest.wf()
                    &&& self.bytes().len() >= prefix.spec_bytes().len()
                    &&& self.bytes().take(prefix.spec_bytes().len() as int) == prefix.spec_bytes()
                    &&& rest.bytes() == self.bytes().skip(prefix.spec_bytes().len() as int)
                    &&& rest.offset() == self.offset() + prefix.spec_bytes().len()
                },
                None => !(self.bytes().len() >= prefix.spec_bytes().len() && self.bytes().take(
                    prefix.spec_bytes().len() as int,
                ) == prefix.spec_bytes()),
            },
    {
        let b = self.val.as_bytes();
        let p = prefix.as_bytes();
        if starts_with_at(b, 0, p) {
            assert(b@.skip(0) =~= b@);
            proof {
                // The end of a complete encoding inside valid UTF-8 is a character boundary.
                let k = p@.len() as int;
                if k < b@.len() {
                    lemma_prefix_boundary(b@, p@);
                }
            }
            Some(self.from(p.len()))
        } else {
            assert(b@.skip(0) =~= b@);
            None
        }
    }
}

/// If valid UTF-8 starts with another valid UTF-8 sequence, the rest starts at a character
/// boundary.
pub proof fn lemma_prefix_boundary(b: Seq<u8>, p: Seq<u8>)
    requires
        valid_utf8(b),
        valid_utf8(p),
        p.len() <= b.len(),
        b.take(p.len() as int) == p,
    ensures
        splittable(b, p.len() as int),
    decreases p.len(),
{
    if p.len() == 0 {
        if b.len() > 0 {
            assert(valid_first_scalar(b));
        }
    } else {
        assert(valid_first_scalar(p));
        assert(valid_first_scalar(b));
        let l = length_of_first_scalar(p);
        assert(p[0] == b[0]);
        assert(length_of_first_scalar(b) == l);
        let pr = pop_first_scalar(p);
        let br = pop_first_scalar(b);
        assert(br.take(pr.len() as int) =~= pr) by {
            assert forall|j: int| 0 <= j < pr.len() implies br[j] == pr[j] by {
                assert(br[j] == b[j + l]);
                assert(pr[j] == p[j + l]);
                assert(b.take(p.len() as int)[j + l] == b[j + l]);
            }
        }
        lemma_prefix_boundary(br, pr);
        if p.len() < b.len() {
            assert(br[pr.len() as int] == b[p.len() as int]);
        }
    }
}

/// The length of a non-ASCII whitespace encoding at position `i` of `b`, or zero.
pub fn multibyte_space_at(b: &[u8], i: usize) -> (w: usize)
    requires
        i < b@.len(),
    ensures
        w == multibyte_space_len(b@.skip(i as int)),
{
    let ghost r = b@.skip(i as int);
    let n = b.len();
    if n - i >= 2 && b[i] == 0xc2 && (b[i + 1] == 0x85 || b[i + 1] == 0xa0) {
        assert(r[0] == b@[i as int] && r[1] == b@[i + 1]);
        return 2;
    }
    assert(n - i >= 2 ==> r[0] == b@[i as int] && r[1] == b@[i + 1]);
    if n - i >= 3 {
        assert(r[0] == b@[i as int] && r[1] == b@[i + 1] && r[2] == b@[i + 2]);
        let b0 = b[i];
        let b1 = b[i + 1];
        let b2 = b[i + 2];
        if (b0 == 0xe1 && b1 == 0x9a && b2 == 0x80) || (b0 == 0xe2 && b1 == 0x80 && ((0x80 <= b2
            && b2 <= 0x8a) || b2 == 0xa8 || b2 == 0xa9 || b2 == 0xaf)) || (b0 == 0xe2 && b1 == 0x81
            && b2 == 0x9f) || (b0 == 0xe3 && b1 == 0x80 && b2 == 0x80) {
            return 3;
        }
    }
    0
}

/// Whether `b` holds `p` starting at position `i`.
pub fn starts_with_at(b: &[u8], i: usize, p: &[u8]) -> (r: bool)
    requires
        i <= b@.len(),
    ensures
        r == (i + p@.len() <= b@.len() && b@.skip(i as int).take(p@.len() as int) == p@),
{
    let n = b.len();
    let m = p.len();
    if n - i < m {
        return false;
    }
    let mut j: usize = 0;
    while j < m
        invariant
            n == b@.len(),
            m == p@.len(),
            i + m <= n,
            j <= m,
            forall|k: int| 0 <= k < j ==> b@[i + k] == p@[k],
        decreases m - j,
    {
        if b[i + j] != p[j] {
            assert(b@.skip(i as int).take(m as int)[j as int] != p@[j as int]);
            return false;
        }
        j = j + 1;
    }
    assert(b@.skip(i as int).take(m as int) =~= p@);
    true
}

/// The position of the first `x` in `b` at or after `from`.
pub fn find_byte(b: &[u8], from: usize, x: u8) -> (r: Option<usize>)
    requires
        from <= b@.len(),
    ensures
        match r {
            Some(k) => from <= k < b@.len() && b@[k as int] == x && forall|j: int|
                from <= j < k ==> b@[j] != x,
            None => forall|j: int| from <= j < b@.len() ==> b@[j] != x,
        },
{
    let n = b.len();
    let mut i = from;
    while i < n
        invariant
            n == b@.len(),
            from <= i <= n,
            forall|j: int| from <= j < i ==> b@[j] != x,
        decreases n - i,
    {
        if b[i] == x {
            return Some(i);
        }
        i = i + 1;
    }
    None
}

/// Whether `b` holds `x` then `y` at position `j`.
pub open spec fn is_pair_at(b: Seq<u8>, j: int, x: u8, y: u8) -> bool {
    0 <= j && j + 1 < b.len() && b[j] == x && b[j + 1] == y
}

/// The position of the first `x` immediately followed by `y` in `b`, at or after `from`.
pub fn find_pair(b: &[u8], from: usize, x: u8, y: u8) -> (r: Option<usize>)
    requires
        from <= b@.len(),
    ensures
        match r {
            Some(k) => from <= k && is_pair_at(b@, k as int, x, y) && forall|j: int|
                from <= j < k ==> !#[trigger] is_pair_at(b@, j, x, y),
            None => forall|j: int| from <= j ==> !#[trigger] is_pair_at(b@, j, x, y),
        },
{
    let n = b.len();
    let mut i = from;
    while i < n && n - i > 1
        invariant
            n == b@.len(),
            from <= i <= n,
            forall|j: int| from <= j < i ==> !#[trigger] is_pair_at(b@, j, x, y),
        decreases n - i,
    {
        if b[i] == x && b[i + 1] == y {
            return Some(i);
        }
        i = i + 1;
    }
    None
}

} // verus!
