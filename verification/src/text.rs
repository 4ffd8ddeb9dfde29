//! Text helpers shared by the fetcher, the decoder and the query layer:
//! decimal rendering of integers, whitespace trimming, integer parsing and
//! line counting, each with its meaning stated over `Seq<char>`.

use vstd::prelude::*;
use vstd::std_specs::iter::IteratorSpec;
use vstd::string::{StrSliceExecFns, StringExecFns};

verus! {

broadcast use vstd::string::group_string_axioms;

/// The character that writes the decimal digit `d`.
pub open spec fn digit_char(d: int) -> char {
    if d == 0 {
        '0'
    } else if d == 1 {
        '1'
    } else if d == 2 {
        '2'
    } else if d == 3 {
        '3'
    } else if d == 4 {
        '4'
    } else if d == 5 {
        '5'
    } else if d == 6 {
        '6'
    } else if d == 7 {
        '7'
    } else if d == 8 {
        '8'
    } else {
        '9'
    }
}

/// Whether `c` is one of the ten ASCII decimal digits.
pub open spec fn is_digit(c: char) -> bool {
    '0' <= c && c <= '9'
}

/// The value of the ASCII decimal digit `c`.
pub open spec fn digit_value(c: char) -> int {
    c as int - '0' as int
}

/// Decimal notation of `n`, most significant digit first, without padding.
pub open spec fn decimal_digits(n: nat) -> Seq<char>
    decreases n,
{
    if n < 10 {
        seq![digit_char(n as int)]
    } else {
        decimal_digits(n / 10).push(digit_char((n % 10) as int))
    }
}

/// Decimal notation of `n`, padded on the left with zeros to two places.
pub open spec fn two_digits(n: nat) -> Seq<char> {
    if n < 10 {
        seq!['0'] + decimal_digits(n)
    } else {
        decimal_digits(n)
    }
}

/// Decimal notation of `n`, padded on the left with zeros to four places.
pub open spec fn four_digits(n: nat) -> Seq<char> {
    if n < 10 {
        seq!['0', '0', '0'] + decimal_digits(n)
    } else if n < 100 {
        seq!['0', '0'] + decimal_digits(n)
    } else if n < 1000 {
        seq!['0'] + decimal_digits(n)
    } else {
        decimal_digits(n)
    }
}

/// Decimal notation of `v`, with a leading minus sign for negative values.
pub open spec fn signed_decimal(v: int) -> Seq<char> {
    if v < 0 {
        seq!['-'] + decimal_digits((-v) as nat)
    } else {
        decimal_digits(v as nat)
    }
}

/// Decimal notation of `v` in a field of two places that the sign shares:
/// non-negative values are zero-padded to two digits, negative values are a
/// minus sign followed by their digits.
pub open spec fn signed_two_places(v: int) -> Seq<char> {
    if v < 0 {
        seq!['-'] + decimal_digits((-v) as nat)
    } else {
        two_digits(v as nat)
    }
}

/// The one-character string that writes the digit `d`.
fn digit_str(d: u64) -> (s: &'static str)
    requires
        d < 10,
    ensures
        s@ == seq![digit_char(d as int)],
{
    proof {
        reveal_strlit("0");
        reveal_strlit("1");
        reveal_strlit("2");
        reveal_strlit("3");
        reveal_strlit("4");
        reveal_strlit("5");
        reveal_strlit("6");
        reveal_strlit("7");
        reveal_strlit("8");
        reveal_strlit("9");
    }
    let s = if d == 0 {
        "0"
    } else if d == 1 {
        "1"
    } else if d == 2 {
        "2"
    } else if d == 3 {
        "3"
    } else if d == 4 {
        "4"
    } else if d == 5 {
        "5"
    } else if d == 6 {
        "6"
    } else if d == 7 {
        "7"
    } else if d == 8 {
        "8"
    } else {
        "9"
    };
    assert(s@ =~= seq![digit_char(d as int)]);
    s
}

/// Appends the decimal notation of `n` to `out`.
pub fn push_decimal(out: &mut String, n: u64)
    ensures
        final(out)@ == old(out)@ + decimal_digits(n as nat),
    decreases n,
{
    if n >= 10 {
        push_decimal(out, n / 10);
    }
    out.append(digit_str(n % 10));
    assert(final(out)@ =~= old(out)@ + decimal_digits(n as nat));
}

/// Appends `n` to `out`, zero-padded to two places.
pub fn push_two_digits(out: &mut String, n: u64)
    ensures
        final(out)@ == old(out)@ + two_digits(n as nat),
{
    if n < 10 {
        proof {
            reveal_strlit("0");
        }
        out.append("0");
    }
    push_decimal(out, n);
    assert(final(out)@ =~= old(out)@ + two_digits(n as nat));
}

/// Appends `n` to `out`, zero-padded to four places.
pub fn push_four_digits(out: &mut String, n: u64)
    ensures
        final(out)@ == old(out)@ + four_digits(n as nat),
{
    proof {
        reveal_strlit("0");
        reveal_strlit("00");
        reveal_strlit("000");
    }
    if n < 10 {
        out.append("000");
    } else if n < 100 {
        out.append("00");
    } else if n < 1000 {
        out.append("0");
    }
    push_decimal(out, n);
    assert(final(out)@ =~= old(out)@ + four_digits(n as nat));
}

/// Appends `v` to `out` in decimal, with a minus sign when negative.
pub fn push_signed_decimal(out: &mut String, v: i32)
    ensures
        final(out)@ == old(out)@ + signed_decimal(v as int),
{
    if v < 0 {
        proof {
            reveal_strlit("-");
        }
        out.append("-");
        push_decimal(out, (0 - (v as i64)) as u64);
    } else {
        push_decimal(out, v as u64);
    }
    assert(final(out)@ =~= old(out)@ + signed_decimal(v as int));
}

/// Appends `v` to `out` in a field of two places that the sign shares.
pub fn push_signed_two_places(out: &mut String, v: i32)
    ensures
        final(out)@ == old(out)@ + signed_two_places(v as int),
{
    if v < 0 {
        proof {
            reveal_strlit("-");
        }
        out.append("-");
        push_decimal(out, (0 - (v as i64)) as u64);
    } else {
        push_two_digits(out, v as u64);
    }
    assert(final(out)@ =~= old(out)@ + signed_two_places(v as int));
}

/// Whether two string slices hold the same characters.
pub fn str_eq(a: &str, b: &str) -> (same: bool)
    ensures
        same == (a@ == b@),
{
    let left = String::from_str(a);
    let right = String::from_str(b);
    left == right
}

/// Whether `c` has the Unicode property `White_Space`.
pub open spec fn is_whitespace(c: char) -> bool {
    let u = c as u32;
    ||| 0x09 <= u <= 0x0D
    ||| u == 0x20
    ||| u == 0x85
    ||| u == 0xA0
    ||| u == 0x1680
    ||| 0x2000 <= u <= 0x200A
    ||| u == 0x2028
    ||| u == 0x2029
    ||| u == 0x202F
    ||| u == 0x205F
    ||| u == 0x3000
}

/// `s` without its leading whitespace.
pub open spec fn skip_leading_whitespace(s: Seq<char>) -> Seq<char>
    decreases s.len(),
{
    if s.len() > 0 && is_whitespace(s.first()) {
        skip_leading_whitespace(s.drop_first())
    } else {
        s
    }
}

/// `s` without its trailing whitespace.
pub open spec fn drop_trailing_whitespace(s: Seq<char>) -> Seq<char>
    decreases s.len(),
{
    if s.len() > 0 && is_whitespace(s.last()) {
        drop_trailing_whitespace(s.drop_last())
    } else {
        s
    }
}

/// `s` with leading and trailing whitespace removed.
pub open spec fn trimmed(s: Seq<char>) -> Seq<char> {
    drop_trailing_whitespace(skip_leading_whitespace(s))
}

/// Number of whitespace characters at the start of `s`.
pub open spec fn leading_whitespace(s: Seq<char>) -> int
    decreases s.len(),
{
    if s.len() > 0 && is_whitespace(s.first()) {
        1 + leading_whitespace(s.drop_first())
    } else {
        0
    }
}

/// Length of `s` without its trailing whitespace.
pub open spec fn trimmed_end(s: Seq<char>) -> int
    decreases s.len(),
{
    if s.len() > 0 && is_whitespace(s.last()) {
        trimmed_end(s.drop_last())
    } else {
        s.len() as int
    }
}

/// The leading whitespace of `s` ends at the first character that is none.
proof fn lemma_leading_whitespace(s: Seq<char>)
    ensures
        0 <= leading_whitespace(s) <= s.len(),
        forall|i: int| 0 <= i < leading_whitespace(s) ==> is_whitespace(#[trigger] s[i]),
        leading_whitespace(s) < s.len() ==> !is_whitespace(s[leading_whitespace(s)]),
        skip_leading_whitespace(s) == s.skip(leading_whitespace(s)),
    decreases s.len(),
{
    if s.len() > 0 && is_whitespace(s.first()) {
        let rest = s.drop_first();
        lemma_leading_whitespace(rest);
        assert forall|i: int| 0 <= i < leading_whitespace(s) implies is_whitespace(
            #[trigger] s[i],
        ) by {
            if i > 0 {
                assert(s[i] == rest[i - 1]);
            }
        }
        if leading_whitespace(s) < s.len() {
            assert(s[leading_whitespace(s)] == rest[leading_whitespace(rest)]);
        }
        assert(rest.skip(leading_whitespace(rest)) =~= s.skip(leading_whitespace(s)));
    } else {
        assert(s.skip(0) =~= s);
    }
}

/// The trailing whitespace of `s` starts after the last character that is none.
proof fn lemma_trimmed_end(s: Seq<char>)
    ensures
        0 <= trimmed_end(s) <= s.len(),
        forall|i: int| trimmed_end(s) <= i < s.len() ==> is_whitespace(#[trigger] s[i]),
        trimmed_end(s) > 0 ==> !is_whitespace(s[trimmed_end(s) - 1]),
        drop_trailing_whitespace(s) == s.take(trimmed_end(s)),
    decreases s.len(),
{
    if s.len() > 0 && is_whitespace(s.last()) {
        let front = s.drop_last();
        lemma_trimmed_end(front);
        assert forall|i: int| trimmed_end(s) <= i < s.len() implies is_whitespace(#[trigger] s[i]) by {
            if i < s.len() - 1 {
                assert(s[i] == front[i]);
            }
        }
        if trimmed_end(s) > 0 {
            assert(s[trimmed_end(s) - 1] == front[trimmed_end(front) - 1]);
        }
        assert(front.take(trimmed_end(front)) =~= s.take(trimmed_end(s)));
    } else {
        assert(s.take(s.len() as int) =~= s);
    }
}

/// The trimmed text is the stretch from the first to the last character
/// that is no whitespace, given by any two bounds with that meaning.
proof fn lemma_trimmed_is_subrange(s: Seq<char>, start: int, end: int)
    requires
        0 <= start <= end <= s.len(),
        forall|i: int| 0 <= i < start ==> is_whitespace(#[trigger] s[i]),
        forall|i: int| end <= i < s.len() ==> is_whitespace(#[trigger] s[i]),
        start < end ==> !is_whitespace(s[start]) && !is_whitespace(s[end - 1]),
        start == end ==> forall|i: int| 0 <= i < s.len() ==> is_whitespace(#[trigger] s[i]),
    ensures
        trimmed(s) == s.subrange(start, end),
{
    lemma_leading_whitespace(s);
    let k = leading_whitespace(s);
    let rest = s.skip(k);
    lemma_trimmed_end(rest);
    let e = trimmed_end(rest);
    if start < end {
        assert(k == start) by {
            if k < start {
                assert(is_whitespace(s[k]));
            }
            if start < k {
                assert(is_whitespace(s[start]));
            }
        }
        assert(e == end - k) by {
            if e < end - k {
                assert(rest[end - k - 1] == s[end - 1]);
                assert(is_whitespace(rest[end - k - 1]));
            }
            if e > end - k {
                assert(rest[e - 1] == s[e - 1 + k]);
                assert(is_whitespace(s[e - 1 + k]));
            }
        }
        assert(rest.take(e) =~= s.subrange(start, end));
    } else {
        assert(k == s.len()) by {
            if k < s.len() {
                assert(is_whitespace(s[k]));
            }
        }
        assert(rest.take(e) =~= s.subrange(start, end));
    }
}

/// Whether `c` has the Unicode property `White_Space`.
pub fn is_whitespace_char(c: char) -> (white: bool)
    ensures
        white == is_whitespace(c),
{
    let u: u32 = c as u32;
    (0x09 <= u && u <= 0x0D) || u == 0x20 || u == 0x85 || u == 0xA0 || u == 0x1680 || (0x2000 <= u
        && u <= 0x200A) || u == 0x2028 || u == 0x2029 || u == 0x202F || u == 0x205F || u
        == 0x3000
}

/// `s` with leading and trailing whitespace removed.
pub fn trim(s: &str) -> (t: &str)
    ensures
        t@ == trimmed(s@),
{
    let length: usize = s.unicode_len();
    let mut it = s.chars();
    let mut start: usize = 0;
    let mut end: usize = 0;
    let mut found: bool = false;
    let mut i: usize = 0;
    let ghost mut seen: Seq<char> = Seq::empty();
    loop
        invariant
            it.obeys_prophetic_iter_laws(),
            it.decrease() is Some,
            length == s@.len(),
            seen + it.remaining() == s@,
            seen.len() == i,
            i <= length,
            start <= end <= i,
            found == (start < end),
            !found ==> start == 0 && end == 0,
            !found ==> forall|j: int| 0 <= j < i ==> is_whitespace(#[trigger] s@[j]),
            found ==> forall|j: int| 0 <= j < start ==> is_whitespace(#[trigger] s@[j]),
            found ==> forall|j: int| end <= j < i ==> is_whitespace(#[trigger] s@[j]),
            found ==> !is_whitespace(s@[start as int]) && !is_whitespace(s@[end - 1]),
        decreases it.decrease()->0,
    {
        let ghost rest = it.remaining();
        match it.next() {
            Some(c) => {
                proof {
                    assert(seen.push(c) + rest.drop_first() =~= seen + rest);
                    assert(s@[i as int] == c);
                    seen = seen.push(c);
                }
                if !is_whitespace_char(c) {
                    if !found {
                        start = i;
                        found = true;
                    }
                    end = i + 1;
                }
                i = i + 1;
            },
            None => {
                proof {
                    assert(seen + rest =~= seen);
                    lemma_trimmed_is_subrange(s@, start as int, end as int);
                }
                return s.substring_char(start, end);
            },
        }
    }
}

/// Whether every character of `s` is an ASCII decimal digit.
pub open spec fn all_digits(s: Seq<char>) -> bool {
    forall|i: int| 0 <= i < s.len() ==> is_digit(#[trigger] s[i])
}

/// The number that the digit string `s` writes in base ten.
pub open spec fn digits_value(s: Seq<char>) -> nat
    decreases s.len(),
{
    if s.len() == 0 {
        0
    } else {
        (digits_value(s.drop_last()) * 10 + digit_value(s.last())) as nat
    }
}

/// The integer that `s` writes, if `s` is an optional sign (`+` or `-`)
/// followed by one or more decimal digits and the value lies within
/// `min ..= max`; `None` for every other text.
pub open spec fn parse_integer(s: Seq<char>, min: int, max: int) -> Option<int> {
    let signed = s.len() > 0 && (s[0] == '-' || s[0] == '+');
    let digits = if signed {
        s.skip(1)
    } else {
        s
    };
    let magnitude = digits_value(digits) as int;
    let value = if s.len() > 0 && s[0] == '-' {
        -magnitude
    } else {
        magnitude
    };
    if digits.len() > 0 && all_digits(digits) && min <= value <= max {
        Some(value)
    } else {
        None
    }
}

/// Appending a digit never lowers the value of a digit string.
proof fn lemma_digits_value_grows(s: Seq<char>, c: char)
    requires
        is_digit(c),
    ensures
        digits_value(s.push(c)) == digits_value(s) * 10 + digit_value(c),
        digits_value(s.push(c)) >= digits_value(s),
{
    assert(s.push(c).drop_last() =~= s);
}

/// The integer that `s` writes within `min ..= max`: an optional sign
/// (`+` or `-`) followed by one or more decimal digits. Empty text, any
/// other character and values outside the range give `None`.
pub fn parse_integer_within(s: &str, min: i64, max: i64) -> (parsed: Option<i64>)
    ensures
        match parsed {
            Some(v) => parse_integer(s@, min as int, max as int) == Some(v as int),
            None => parse_integer(s@, min as int, max as int) is None,
        },
{
    let mut it = s.chars();
    let mut negative: bool = false;
    let mut signed: bool = false;
    let mut first: bool = true;
    let mut count: bool = false;
    let mut overflow: bool = false;
    let mut magnitude: u64 = 0;
    let ghost mut seen: Seq<char> = Seq::empty();
    let ghost mut digits: Seq<char> = Seq::empty();
    loop
        invariant
            it.obeys_prophetic_iter_laws(),
            it.decrease() is Some,
            seen + it.remaining() == s@,
            first == (seen.len() == 0),
            signed == (seen.len() > 0 && (seen[0] == '-' || seen[0] == '+')),
            negative == (seen.len() > 0 && seen[0] == '-'),
            digits == if signed {
                seen.skip(1)
            } else {
                seen
            },
            all_digits(digits),
            count == (digits.len() > 0),
            magnitude <= 0x8000_0000_0000_0000,
            !overflow ==> magnitude == digits_value(digits),
            overflow ==> digits_value(digits) > 0x8000_0000_0000_0000,
        decreases it.decrease()->0,
    {
        let ghost rest = it.remaining();
        match it.next() {
            Some(c) => {
                proof {
                    assert(seen.push(c) + rest.drop_first() =~= seen + rest);
                    assert(s@[seen.len() as int] == c);
                }
                if first && (c == '-' || c == '+') {
                    negative = c == '-';
                    signed = true;
                    proof {
                        seen = seen.push(c);
                        digits = Seq::empty();
                        assert(seen.skip(1) =~= digits);
                    }
                } else if '0' <= c && c <= '9' {
                    let digit: u64 = (c as u32 - '0' as u32) as u64;
                    proof {
                        lemma_digits_value_grows(digits, c);
                    }
                    if !overflow {
                        let next: u128 = magnitude as u128 * 10 + digit as u128;
                        if next > 0x8000_0000_0000_0000 {
                            overflow = true;
                        } else {
                            magnitude = next as u64;
                        }
                    }
                    count = true;
                    proof {
                        let before = seen;
                        seen = seen.push(c);
                        if signed {
                            assert(seen.skip(1) =~= before.skip(1).push(c));
                        }
                        digits = digits.push(c);
                    }
                } else {
                    proof {
                        let at = seen.len() as int;
                        let all = if s@.len() > 0 && (s@[0] == '-' || s@[0] == '+') {
                            s@.skip(1)
                        } else {
                            s@
                        };
                        if first {
                            assert(all == s@);
                            assert(!is_digit(all[0]));
                        } else {
                            assert(s@[0] == seen[0]);
                            if signed {
                                assert(all[at - 1] == c);
                                assert(!is_digit(all[at - 1]));
                            } else {
                                assert(all[at] == c);
                                assert(!is_digit(all[at]));
                            }
                        }
                    }
                    return None;
                }
                first = false;
            },
            None => {
                proof {
                    assert(seen + rest =~= seen);
                }
                if !count || overflow {
                    return None;
                }
                let value: i128 = if negative {
                    0 - (magnitude as i128)
                } else {
                    magnitude as i128
                };
                if min as i128 <= value && value <= max as i128 {
                    return Some(value as i64);
                }
                return None;
            },
        }
    }
}

/// The integer that `s` writes, where it writes one that fits a signed
/// integer of 64 bits.
pub fn parse_i64(s: &str) -> (parsed: Option<i64>)
    ensures
        match parsed {
            Some(v) => parse_integer(s@, i64::MIN as int, i64::MAX as int) == Some(v as int),
            None => parse_integer(s@, i64::MIN as int, i64::MAX as int) is None,
        },
{
    parse_integer_within(s, i64::MIN, i64::MAX)
}

/// The integer that `s` writes, where it writes one that fits a signed
/// integer of 32 bits.
pub fn parse_i32(s: &str) -> (parsed: Option<i32>)
    ensures
        match parsed {
            Some(v) => parse_integer(s@, i32::MIN as int, i32::MAX as int) == Some(v as int),
            None => parse_integer(s@, i32::MIN as int, i32::MAX as int) is None,
        },
{
    match parse_integer_within(s, -0x8000_0000, 0x7fff_ffff) {
        Some(v) => Some(v as i32),
        None => None,
    }
}

/// Number of newline characters in `s`.
pub open spec fn newline_count(s: Seq<char>) -> nat
    decreases s.len(),
{
    if s.len() == 0 {
        0
    } else {
        newline_count(s.drop_last()) + if s.last() == '\n' {
            1nat
        } else {
            0nat
        }
    }
}

/// Number of lines of `s`: every newline ends a line, and text after the
/// last newline is one more line.
pub open spec fn line_count(s: Seq<char>) -> nat {
    newline_count(s) + if s.len() > 0 && s.last() != '\n' {
        1nat
    } else {
        0nat
    }
}

/// Whether `s` has more than one line.
pub fn has_multiple_lines(s: &str) -> (multiple: bool)
    ensures
        multiple == (line_count(s@) > 1),
{
    let mut it = s.chars();
    let mut newlines: u8 = 0;
    let mut open_line: bool = false;
    let ghost mut seen: Seq<char> = Seq::empty();
    loop
        invariant
            it.obeys_prophetic_iter_laws(),
            it.decrease() is Some,
            seen + it.remaining() == s@,
            newlines <= 2,
            newlines == if newline_count(seen) < 2 {
                newline_count(seen)
            } else {
                2
            },
            open_line == (seen.len() > 0 && seen.last() != '\n'),
        decreases it.decrease()->0,
    {
        let ghost rest = it.remaining();
        match it.next() {
            Some(c) => {
                proof {
                    assert(seen.push(c).drop_last() == seen);
                    assert(seen.push(c) + rest.drop_first() == seen + rest);
                    seen = seen.push(c);
                }
                if c == '\n' {
                    if newlines < 2 {
                        newlines = newlines + 1;
                    }
                    open_line = false;
                } else {
                    open_line = true;
                }
            },
            None => {
                proof {
                    assert(seen + rest == seen);
                }
                return newlines >= 2 || (newlines == 1 && open_line);
            },
        }
    }
}

} // verus!
