use crate::lexer::error::{LexerError, LexerErrorType};
use crate::lexer::parse_str::{lemma_after_ascii, ParseStr};
use crate::token::{LiteralBase, LiteralToken, StringToken};
use vstd::prelude::*;
use vstd::string::StringSliceAdditionalSpecFns;
use vstd::utf8::valid_utf8;

verus! {

/// The number format that `lexical` uses for decimal integers.
pub const DECIMAL_FORMAT: u128 = 13344405750530543522027615038608506892u128;

/// The number format that `lexical` uses for octal integers.
pub const OCTAL_FORMAT: u128 = 10675524600424434817622092030886805516u128;

/// The number format that `lexical` uses for hexadecimal integers.
pub const HEXADECIMAL_FORMAT: u128 = 21351049200848869635244184061773611020u128;

/// What `lexical::parse_partial_with_options::<i64, _, FORMAT>` returns for `bytes` with default
/// integer options: the value and the number of bytes it read, or `None` where it returns an
/// error.
pub uninterp spec fn lexical_partial_int(bytes: Seq<u8>, format: u128) -> Option<(i64, usize)>;

/// Calls `lexical::parse_partial_with_options::<i64, _, FORMAT>` with default integer options,
/// which reads an integer from the start of `bytes` in the base that `FORMAT` sets. The
/// contract claims that the result is a function of the bytes and the format, and that the bytes
/// it read are within the input and are ASCII: `lexical` reads only digits of the base and a sign.
#[verifier::external_body]
fn parse_partial_int<const FORMAT: u128>(bytes: &[u8]) -> (r: Option<(i64, usize)>)
    ensures
        r == lexical_partial_int(bytes@, FORMAT),
        r matches Some((_, n)) ==> n <= bytes@.len() && forall|j: int|
            0 <= j < n ==> #[trigger] bytes@[j] < 0x80u8,
{
    match lexical::parse_partial_with_options::<i64, _, FORMAT>(
        bytes,
        &lexical::ParseIntegerOptions::new(),
    ) {
        Ok(parsed) => Some(parsed),
        Err(_) => None,
    }
}

/// An ASCII digit.
pub open spec fn is_digit(c: u8) -> bool {
    0x30u8 <= c && c <= 0x39u8
}

/// The number of ASCII digits in `b` from position `from`.
pub open spec fn digit_run(b: Seq<u8>, from: int) -> int
    decreases b.len() - from,
{
    if from < 0 || from >= b.len() || !is_digit(b[from]) {
        0
    } else {
        1 + digit_run(b, from + 1)
    }
}

/// The number of bytes that are `.` or ASCII digits in `b` from position `from`.
pub open spec fn dot_digit_run(b: Seq<u8>, from: int) -> int
    decreases b.len() - from,
{
    if from < 0 || from >= b.len() || !(is_digit(b[from]) || b[from] == 0x2eu8) {
        0
    } else {
        1 + dot_digit_run(b, from + 1)
    }
}

/// The length of the floating point number at the start of `b`, as `lexical` reads it with its
/// standard format: digits, then optionally `.` and digits, with at least one digit in all, then
/// optionally `e` or `E`, an optional sign and at least one digit.
pub open spec fn float_len(b: Seq<u8>) -> Option<int> {
    let i = digit_run(b, 0);
    let frac = if i < b.len() && b[i] == 0x2eu8 {
        digit_run(b, i + 1)
    } else {
        0
    };
    let j = if i < b.len() && b[i] == 0x2eu8 {
        i + 1 + frac
    } else {
        i
    };
    if i + frac == 0 {
        None
    } else if j < b.len() && (b[j] == 0x65u8 || b[j] == 0x45u8) {
        let k = if j + 1 < b.len() && (b[j + 1] == 0x2bu8 || b[j + 1] == 0x2du8) {
            j + 2
        } else {
            j + 1
        };
        if digit_run(b, k) == 0 {
            None
        } else {
            Some(k + digit_run(b, k))
        }
    } else {
        Some(j)
    }
}

/// The base and prefix length of an integer at the start of `b`, which starts with a digit.
pub open spec fn int_base(b: Seq<u8>) -> (LiteralBase, int) {
    if b.len() >= 2 && b[0] == 0x30u8 && b[1] == 0x78u8 {
        (LiteralBase::Hexadecimal, 2)
    } else if b.len() >= 2 && b[0] == 0x30u8 && is_digit(b[1]) {
        (LiteralBase::Octal, 1)
    } else {
        (LiteralBase::Decimal, 0)
    }
}

/// The `lexical` number format for a base.
pub open spec fn base_format(base: LiteralBase) -> u128 {
    match base {
        LiteralBase::Decimal => DECIMAL_FORMAT,
        LiteralBase::Octal => OCTAL_FORMAT,
        LiteralBase::Hexadecimal => HEXADECIMAL_FORMAT,
    }
}

/// A number literal as the lexer reads it.
pub enum NumberSpec {
    /// An integer with its value and base.
    Int(i64, LiteralBase),
    /// A floating point number, whose text is the given number of bytes.
    Float(int),
}

/// The number literal at the start of `b` and the number of bytes it takes.
///
/// An integer is read by `lexical` after its base prefix; it stands unless a `.` follows it. If
/// `lexical` reads no integer there, there is no number. Otherwise a number that starts with a
/// digit or `.` is read as a floating point number, and any `.` and digits after it are skipped.
pub open spec fn number_at(b: Seq<u8>) -> Option<(NumberSpec, int)> {
    let starts_with_digit = b.len() > 0 && is_digit(b[0]);
    let starts_with_dot = b.len() > 0 && b[0] == 0x2eu8;
    let (base, p) = int_base(b);
    let int_res = lexical_partial_int(b.skip(p), base_format(base));
    let int_len: int = match int_res {
        Some((_, n)) => n as int,
        None => 0,
    };
    let int_val: i64 = match int_res {
        Some((v, _)) => v,
        None => 0,
    };
    if starts_with_digit && int_len == 0 {
        None
    } else if starts_with_digit && !(p + int_len < b.len() && b[p + int_len] == 0x2eu8) {
        Some((NumberSpec::Int(int_val, base), p + int_len))
    } else if !starts_with_digit && !starts_with_dot {
        None
    } else {
        match float_len(b) {
            None => None,
            Some(m) => if m == 1 && starts_with_dot {
                None
            } else {
                Some((NumberSpec::Float(m), m + dot_digit_run(b, m)))
            },
        }
    }
}

/// A `.` followed by a digit starts a floating point number, unless an exponent marker follows the
/// digits: its text is the `.` and the digits after it, two bytes or more. So `.5` is the number
/// one half, not `.` and `5`.
pub proof fn lemma_dot_digit_is_float(b: Seq<u8>)
    requires
        b.len() >= 2,
        b[0] == 0x2eu8,
        is_digit(b[1]),
        !(1 + digit_run(b, 1) < b.len() && (b[1 + digit_run(b, 1)] == 0x65u8 || b[1 + digit_run(b, 1)] == 0x45u8)),
    ensures
        number_at(b) matches Some((NumberSpec::Float(m), _)) && m == 1 + digit_run(b, 1) && m >= 2,
{
    assert(digit_run(b, 0) == 0);
    lemma_digit_run(b, 1);
    lemma_digit_run(b, 2);
    assert(digit_run(b, 1) == 1 + digit_run(b, 2));
}

/// How a string literal's body ends.
pub enum StringScan {
    /// At the closing delimiter at the given position.
    Closed(int),
    /// The input ends first.
    EndOfInput,
    /// A line break at the given position comes first, in a non-verbatim string.
    EndOfLine(int),
}

/// Scans the body of a string from position `i` of `b`, which follows the opening delimiter.
///
/// A non-verbatim string may not hold a line break, and a `\` in it escapes the next byte. A
/// verbatim string may hold line breaks, and a doubled delimiter in it stands for one delimiter.
pub open spec fn scan_string(b: Seq<u8>, i: int, delimiter: u8, is_verbatim: bool) -> StringScan
    decreases b.len() - i,
{
    if i < 0 || i >= b.len() {
        StringScan::EndOfInput
    } else if !is_verbatim && b[i] == 0x0au8 {
        StringScan::EndOfLine(i)
    } else if !is_verbatim && b[i] == 0x5cu8 {
        if i + 1 >= b.len() {
            StringScan::EndOfInput
        } else {
            scan_string(b, i + 2, delimiter, is_verbatim)
        }
    } else if is_verbatim && b[i] == delimiter && i + 1 < b.len() && b[i + 1] == delimiter {
        scan_string(b, i + 2, delimiter, is_verbatim)
    } else if b[i] == delimiter {
        StringScan::Closed(i)
    } else {
        scan_string(b, i + 1, delimiter, is_verbatim)
    }
}

/// The number of digits in `b` from `from`.
fn count_digits(b: &[u8], from: usize) -> (n: usize)
    requires
        from <= b@.len(),
    ensures
        n == digit_run(b@, from as int),
        from + n <= b@.len(),
{
    let len = b.len();
    let mut k = from;
    while k < len && 0x30 <= b[k] && b[k] <= 0x39
        invariant
            len == b@.len(),
            from <= k <= len,
            digit_run(b@, from as int) == (k - from) + digit_run(b@, k as int),
        decreases len - k,
    {
        k = k + 1;
    }
    k - from
}

/// The number of `.` and digits in `b` from `from`.
fn count_dots_and_digits(b: &[u8], from: usize) -> (n: usize)
    requires
        from <= b@.len(),
    ensures
        n == dot_digit_run(b@, from as int),
        from + n <= b@.len(),
{
    let len = b.len();
    let mut k = from;
    while k < len && ((0x30 <= b[k] && b[k] <= 0x39) || b[k] == 0x2e)
        invariant
            len == b@.len(),
            from <= k <= len,
            dot_digit_run(b@, from as int) == (k - from) + dot_digit_run(b@, k as int),
        decreases len - k,
    {
        k = k + 1;
    }
    k - from
}

/// The length of the floating point number at the start of `b`.
fn scan_float(b: &[u8]) -> (r: Option<usize>)
    ensures
        match r {
            Some(m) => float_len(b@) == Some(m as int) && m <= b@.len(),
            None => float_len(b@) is None,
        },
{
    let n = b.len();
    let i = count_digits(b, 0);
    let has_dot = i < n && b[i] == 0x2e;
    let frac = if has_dot {
        count_digits(b, i + 1)
    } else {
        0
    };
    let j = if has_dot {
        i + 1 + frac
    } else {
        i
    };
    if i + frac == 0 {
        return None;
    }
    if j < n && (b[j] == 0x65 || b[j] == 0x45) {
        let k = if j + 1 < n && (b[j + 1] == 0x2b || b[j + 1] == 0x2d) {
            j + 2
        } else {
            j + 1
        };
        let d = count_digits(b, k);
        if d == 0 {
            None
        } else {
            Some(k + d)
        }
    } else {
        Some(j)
    }
}

/// Reads the integer at the start of `b` in the given base.
fn parse_int_in_base(b: &[u8], base: LiteralBase) -> (r: Option<(i64, usize)>)
    ensures
        r == lexical_partial_int(b@, base_format(base)),
        r matches Some((_, n)) ==> n <= b@.len() && forall|j: int|
            0 <= j < n ==> #[trigger] b@[j] < 0x80u8,
{
    match base {
        LiteralBase::Decimal => parse_partial_int::<DECIMAL_FORMAT>(b),
        LiteralBase::Octal => parse_partial_int::<OCTAL_FORMAT>(b),
        LiteralBase::Hexadecimal => parse_partial_int::<HEXADECIMAL_FORMAT>(b),
    }
}

/// Tries to read a number literal at the start of `val`.
fn try_number<'s>(val: ParseStr<'s>) -> (r: Option<(LiteralToken<'s>, ParseStr<'s>)>)
    requires
        val.wf(),
    ensures
        match r {
            Some((lit, rest)) => {
                &&& number_at(val.bytes()) matches Some((num, len))
                &&& 0 < len <= val.bytes().len()
                &&& match num {
                    NumberSpec::Int(v, base) => lit == LiteralToken::<'s>::Int(v, base),
                    NumberSpec::Float(m) => lit matches LiteralToken::Float(text)
                        && text.spec_bytes() == val.bytes().take(m),
                }
                &&& rest.wf()
                &&& rest.bytes() == val.bytes().skip(len)
                &&& rest.offset() == val.offset() + len
            },
            None => number_at(val.bytes()) is None,
        },
{
    let b = val.as_str().as_bytes();
    let n = b.len();
    proof {
        val.lemma_valid();
    }
    let starts_with_digit = n > 0 && 0x30 <= b[0] && b[0] <= 0x39;
    let starts_with_dot = n > 0 && b[0] == 0x2e;
    if starts_with_digit {
        let (base, p): (LiteralBase, usize) = if n >= 2 && b[0] == 0x30 && b[1] == 0x78 {
            (LiteralBase::Hexadecimal, 2)
        } else if n >= 2 && b[0] == 0x30 && 0x30 <= b[1] && b[1] <= 0x39 {
            (LiteralBase::Octal, 1)
        } else {
            (LiteralBase::Decimal, 0)
        };
        proof {
            if p > 0 {
                lemma_after_ascii(b@, p - 1);
            }
        }
        let digits = val.from(p);
        let parsed = parse_int_in_base(digits.as_str().as_bytes(), base);
        let (int_val, len) = match parsed {
            None => return None,
            Some((v, len)) => {
                if len == 0 {
                    return None;
                }
                (v, len)
            },
        };
        let end = p + len;
        if !(end < n && b[end] == 0x2e) {
            proof {
                // The byte before the end is a digit.
                assert(digits.bytes()[len - 1] == b@[end - 1]);
                assert(digits.bytes()[len - 1] < 0x80u8);
                lemma_after_ascii(b@, end - 1);
            }
            return Some((LiteralToken::Int(int_val, base), val.from(end)));
        }
    }
    if !starts_with_digit && !starts_with_dot {
        return None;
    }
    let m = match scan_float(b) {
        None => return None,
        Some(m) => m,
    };
    if m == 1 && starts_with_dot {
        return None;
    }
    let skip = count_dots_and_digits(b, m);
    proof {
        lemma_float_ascii(b@, m as int);
        lemma_after_ascii(b@, m - 1);
        if skip > 0 {
            lemma_dot_digits(b@, m as int, skip as int);
            lemma_after_ascii(b@, m + skip - 1);
        }
    }
    let (text, _) = val.split_at(Some(m));
    Some((LiteralToken::Float(text), val.from(m + skip)))
}

proof fn lemma_float_ascii(b: Seq<u8>, m: int)
    requires
        float_len(b) == Some(m),
    ensures
        0 < m <= b.len(),
        b[m - 1] < 0x80u8,
{
    lemma_digit_run(b, 0);
    let i = digit_run(b, 0);
    if i < b.len() && b[i] == 0x2eu8 {
        lemma_digit_run(b, i + 1);
    }
    let frac = if i < b.len() && b[i] == 0x2eu8 {
        digit_run(b, i + 1)
    } else {
        0
    };
    let j = if i < b.len() && b[i] == 0x2eu8 {
        i + 1 + frac
    } else {
        i
    };
    if j < b.len() && (b[j] == 0x65u8 || b[j] == 0x45u8) {
        let k = if j + 1 < b.len() && (b[j + 1] == 0x2bu8 || b[j + 1] == 0x2du8) {
            j + 2
        } else {
            j + 1
        };
        lemma_digit_run(b, k);
    } else if frac > 0 {
    } else if i < b.len() && b[i] == 0x2eu8 {
    } else {
    }
}

proof fn lemma_digit_run(b: Seq<u8>, from: int)
    ensures
        0 <= digit_run(b, from),
        0 <= from ==> from + digit_run(b, from) <= b.len() || digit_run(b, from) == 0,
        forall|j: int| from <= j < from + digit_run(b, from) ==> is_digit(#[trigger] b[j]),
    decreases b.len() - from,
{
    if from < 0 || from >= b.len() || !is_digit(b[from]) {
    } else {
        lemma_digit_run(b, from + 1);
    }
}

proof fn lemma_dot_digits(b: Seq<u8>, from: int, n: int)
    requires
        n == dot_digit_run(b, from),
        n > 0,
    ensures
        from + n <= b.len(),
        0 <= from,
        forall|j: int| from <= j < from + n ==> (is_digit(#[trigger] b[j]) || b[j] == 0x2eu8),
    decreases b.len() - from,
{
    if dot_digit_run(b, from + 1) > 0 {
        lemma_dot_digits(b, from + 1, n - 1);
    }
}

/// Tries to read a string body delimited by `delimiter` at the start of `val`.
fn try_string_val<'s>(val: ParseStr<'s>, delimiter: u8, is_verbatim: bool) -> (r: Result<
    Option<(&'s str, ParseStr<'s>)>,
    LexerError<'s>,
>)
    requires
        val.wf(),
        delimiter == 0x22u8 || delimiter == 0x27u8,
    ensures
        match r {
            Ok(None) => val.bytes().len() == 0 || val.bytes()[0] != delimiter,
            Ok(Some((text, rest))) => {
                &&& val.bytes().len() > 0 && val.bytes()[0] == delimiter
                &&& scan_string(val.bytes(), 1, delimiter, is_verbatim) matches StringScan::Closed(
                    c,
                )
                &&& 1 <= c < val.bytes().len()
                &&& text.spec_bytes() == val.bytes().subrange(1, c)
                &&& rest.wf()
                &&& rest.bytes() == val.bytes().skip(c + 1)
                &&& rest.offset() == val.offset() + c + 1
            },
            Err(e) => {
                &&& val.bytes().len() > 0 && val.bytes()[0] == delimiter
                &&& match scan_string(val.bytes(), 1, delimiter, is_verbatim) {
                    StringScan::EndOfInput => e.ty is EndOfInputInsideString && e.range.start
                        == val.offset() + val.bytes().len() && e.range.end == e.range.start,
                    StringScan::EndOfLine(i) => e.ty is EndOfLineInsideString && e.range.start
                        == val.offset() + i && e.range.end == e.range.start,
                    StringScan::Closed(_) => false,
                }
            },
        },
{
    let b = val.as_str().as_bytes();
    let n = b.len();
    if n == 0 || b[0] != delimiter {
        return Ok(None);
    }
    proof {
        val.lemma_valid();
        val.lemma_wf();
    }
    let mut i: usize = 1;
    loop
        invariant
            n == b@.len(),
            b@ == val.bytes(),
            val.wf(),
            valid_utf8(b@),
            val.offset() + n <= usize::MAX,
            n > 0 && b@[0] == delimiter,
            delimiter == 0x22u8 || delimiter == 0x27u8,
            1 <= i,
            scan_string(b@, 1, delimiter, is_verbatim) == scan_string(b@, i as int, delimiter, is_verbatim),
        decreases n + 2 - i,
    {
        if i >= n {
            let end = val.end_offset();
            return Err(LexerError::new(LexerErrorType::EndOfInputInsideString, end..end));
        }
        let c = b[i];
        if !is_verbatim && c == 0x0a {
            let newline_offset = val.start_offset() + i;
            return Err(
                LexerError::new(LexerErrorType::EndOfLineInsideString, newline_offset..newline_offset),
            );
        }
        if !is_verbatim && c == 0x5c {
            if i + 1 >= n {
                let end = val.end_offset();
                return Err(LexerError::new(LexerErrorType::EndOfInputInsideString, end..end));
            }
            i = i + 2;
        } else if is_verbatim && c == delimiter && i + 1 < n && b[i + 1] == delimiter {
            i = i + 2;
        } else if c == delimiter {
            proof {
                lemma_after_ascii(b@, 0);
                lemma_after_ascii(b@, i as int);
            }
            let inner = val.from(1);
            assert(inner.bytes()[i - 1] == b@[i as int]);
            let (text, _) = inner.split_at(Some(i - 1));
            assert(text.spec_bytes() =~= b@.subrange(1, i as int));
            return Ok(Some((text, val.from(i + 1))));
        } else {
            i = i + 1;
        }
    }
}

/// Tries to read a string literal at the start of `val`: `@"..."` is verbatim, `$"..."` is an
/// asset, and `"..."` is a plain literal.
pub fn try_string<'s>(val: ParseStr<'s>) -> (r: Result<Option<(StringToken<'s>, ParseStr<'s>)>, LexerError<'s>>)
    requires
        val.wf(),
    ensures
        string_result(val, r),
{
    let b = val.as_str().as_bytes();
    let n = b.len();
    proof {
        val.lemma_valid();
    }
    if n > 0 && b[0] == 0x40 {
        proof {
            lemma_after_ascii(b@, 0);
        }
        let remaining = val.from(1);
        match try_string_val(remaining, 0x22, true) {
            Ok(Some((v, rest))) => {
                assert(v.spec_bytes() =~= b@.subrange(2int, 1 + choose_closed(remaining.bytes())));
                assert(rest.bytes() =~= b@.skip(1 + choose_closed(remaining.bytes()) + 1));
                Ok(Some((StringToken::Verbatim(v), rest)))
            },
            Ok(None) => Ok(None),
            Err(e) => Err(e),
        }
    } else if n > 0 && b[0] == 0x24 {
        proof {
            lemma_after_ascii(b@, 0);
        }
        let remaining = val.from(1);
        match try_string_val(remaining, 0x22, false) {
            Ok(Some((v, rest))) => {
                assert(v.spec_bytes() =~= b@.subrange(2int, 1 + choose_closed_plain(remaining.bytes())));
                assert(rest.bytes() =~= b@.skip(1 + choose_closed_plain(remaining.bytes()) + 1));
                Ok(Some((StringToken::Asset(v), rest)))
            },
            Ok(None) => Ok(None),
            Err(e) => Err(e),
        }
    } else {
        assert(b@.skip(0) =~= b@);
        match try_string_val(val, 0x22, false) {
            Ok(Some((v, rest))) => Ok(Some((StringToken::Literal(v), rest))),
            Ok(None) => Ok(None),
            Err(e) => Err(e),
        }
    }
}

/// The position of the closing delimiter of a verbatim string body in `b`.
pub open spec fn choose_closed(b: Seq<u8>) -> int {
    match scan_string(b, 1, 0x22u8, true) {
        StringScan::Closed(c) => c,
        _ => 0,
    }
}

/// The position of the closing delimiter of a non-verbatim string body in `b`.
pub open spec fn choose_closed_plain(b: Seq<u8>) -> int {
    match scan_string(b, 1, 0x22u8, false) {
        StringScan::Closed(c) => c,
        _ => 0,
    }
}

/// The text of a string token.
pub open spec fn string_text<'s>(s: StringToken<'s>) -> &'s str {
    match s {
        StringToken::Literal(t) => t,
        StringToken::Verbatim(t) => t,
        StringToken::Asset(t) => t,
    }
}

/// The prefix length and verbatim flag of a string literal at the start of `b`, and the string
/// kind (0 literal, 1 verbatim, 2 asset).
pub open spec fn string_prefix(b: Seq<u8>) -> (int, bool, int) {
    if b.len() > 0 && b[0] == 0x40u8 {
        (1, true, 1)
    } else if b.len() > 0 && b[0] == 0x24u8 {
        (1, false, 2)
    } else {
        (0, false, 0)
    }
}

/// The kind number of a string token, as in [`string_prefix`].
pub open spec fn string_kind(s: StringToken) -> int {
    match s {
        StringToken::Literal(_) => 0,
        StringToken::Verbatim(_) => 1,
        StringToken::Asset(_) => 2,
    }
}

/// What reading a string literal at the start of `val` gives: the body after the prefix and the
/// opening `"` as `scan_string` finds it, or the error it reports.
pub open spec fn string_result<'s>(
    val: ParseStr<'s>,
    r: Result<Option<(StringToken<'s>, ParseStr<'s>)>, LexerError<'s>>,
) -> bool {
    let b = val.bytes();
    let (p, verbatim, kind) = string_prefix(b);
    let starts = b.len() > p && b[p] == 0x22u8;
    match r {
        Ok(None) => !starts,
        Ok(Some((s, rest))) => {
            &&& starts
            &&& scan_string(b.skip(p), 1, 0x22u8, verbatim) matches StringScan::Closed(c)
            &&& 1 <= c && p + c < b.len()
            &&& string_kind(s) == kind
            &&& string_text(s).spec_bytes() == b.subrange(p + 1, p + c)
            &&& rest.wf()
            &&& rest.bytes() == b.skip(p + c + 1)
            &&& rest.offset() == val.offset() + p + c + 1
        },
        Err(e) => {
            &&& starts
            &&& match scan_string(b.skip(p), 1, 0x22u8, verbatim) {
                StringScan::EndOfInput => e.ty is EndOfInputInsideString && e.range.start
                    == val.offset() + b.len() && e.range.end == e.range.start,
                StringScan::EndOfLine(i) => e.ty is EndOfLineInsideString && e.range.start
                    == val.offset() + p + i && e.range.end == e.range.start,
                StringScan::Closed(_) => false,
            }
        },
    }
}

/// The literal token for a number as `number_at` reads it.
pub open spec fn number_token<'s>(lit: LiteralToken<'s>, num: NumberSpec, b: Seq<u8>) -> bool {
    match num {
        NumberSpec::Int(v, base) => lit == LiteralToken::<'s>::Int(v, base),
        NumberSpec::Float(m) => lit matches LiteralToken::Float(text) && text.spec_bytes() == b.take(
            m,
        ),
    }
}

/// What reading a literal at the start of `val` gives: a number if `number_at` finds one, else
/// a character literal if the input starts with `'`, else a string literal.
pub open spec fn literal_result<'s>(
    val: ParseStr<'s>,
    r: Result<Option<(LiteralToken<'s>, ParseStr<'s>)>, LexerError<'s>>,
) -> bool {
    let b = val.bytes();
    match number_at(b) {
        Some((num, len)) => r matches Ok(Some((lit, rest))) && number_token(lit, num, b)
            && rest.wf() && rest.bytes() == b.skip(len) && rest.offset() == val.offset() + len,
        None => if b.len() > 0 && b[0] == 0x27u8 {
            match r {
                Ok(None) => false,
                Ok(Some((lit, rest))) => {
                    &&& scan_string(b, 1, 0x27u8, false) matches StringScan::Closed(c)
                    &&& lit matches LiteralToken::Char(text) && text.spec_bytes() == b.subrange(
                        1,
                        c,
                    )
                    &&& rest.wf()
                    &&& rest.bytes() == b.skip(c + 1)
                    &&& rest.offset() == val.offset() + c + 1
                },
                Err(e) => match scan_string(b, 1, 0x27u8, false) {
                    StringScan::EndOfInput => e.ty is EndOfInputInsideString && e.range.start
                        == val.offset() + b.len() && e.range.end == e.range.start,
                    StringScan::EndOfLine(i) => e.ty is EndOfLineInsideString && e.range.start
                        == val.offset() + i && e.range.end == e.range.start,
                    StringScan::Closed(_) => false,
                },
            }
        } else {
            match r {
                Ok(Some((LiteralToken::String(s), rest))) => string_result(val, Ok(Some((s, rest)))),
                Ok(Some(_)) => false,
                Ok(None) => string_result(val, Ok(None)),
                Err(e) => string_result(val, Err(e)),
            }
        },
    }
}

/// Tries to read a literal at the start of `val`: a number, then a character literal, then a
/// string literal.
pub fn try_literal<'s>(val: ParseStr<'s>) -> (r: Result<Option<(LiteralToken<'s>, ParseStr<'s>)>, LexerError<'s>>)
    requires
        val.wf(),
    ensures
        literal_result(val, r),
        r matches Ok(Some((_, rest))) ==> rest.wf() && rest.offset() > val.offset()
            && rest.offset() <= val.offset() + val.bytes().len()
            && rest.bytes() == val.bytes().skip(rest.offset() - val.offset()),
{
    proof {
        val.lemma_wf();
    }
    if let Some((num_val, remaining)) = try_number(val) {
        return Ok(Some((num_val, remaining)));
    }
    match try_string_val(val, 0x27, false) {
        Ok(Some((char_val, remaining))) => return Ok(Some((LiteralToken::Char(char_val), remaining))),
        Ok(None) => {},
        Err(e) => return Err(e),
    }
    match try_string(val) {
        Ok(Some((str_val, remaining))) => Ok(Some((LiteralToken::String(str_val), remaining))),
        Ok(None) => Ok(None),
        Err(e) => Err(e),
    }
}

} // verus!
