//! Tokenizing helpers for request lines and headers: ASCII case folding,
//! unsigned decimal numbers, white-space separated words, the last
//! occurrence of a character, and UTF-8 decoding of received bytes.

use vstd::prelude::*;
use vstd::utf8::{decode_utf8, valid_utf8};
use crate::text::{is_whitespace, spec_is_ascii_digit, spec_is_whitespace};

verus! {

/// A character with the ASCII upper-case letters folded to lower case.
pub open spec fn ascii_fold(c: char) -> u32 {
    if 'A' <= c && c <= 'Z' {
        (c as u32 + 32) as u32
    } else {
        c as u32
    }
}

pub fn ascii_fold_exec(c: char) -> (r: u32)
    ensures
        r == ascii_fold(c),
{
    let u = c as u32;
    if 'A' <= c && c <= 'Z' {
        u + 32
    } else {
        u
    }
}

/// `str::eq_ignore_ascii_case`: the same text once ASCII letters are
/// folded to one case.
pub open spec fn eq_ignore_ascii_case(a: Seq<char>, b: Seq<char>) -> bool {
    &&& a.len() == b.len()
    &&& forall|i: int| 0 <= i < a.len() ==> #[trigger] ascii_fold(a[i]) == ascii_fold(b[i])
}

pub fn eq_ignore_ascii_case_exec(a: &[char], b: &[char]) -> (r: bool)
    ensures
        r == eq_ignore_ascii_case(a@, b@),
{
    if a.len() != b.len() {
        return false;
    }
    let mut i: usize = 0;
    while i < a.len()
        invariant
            i <= a@.len(),
            a@.len() == b@.len(),
            forall|j: int| 0 <= j < i ==> #[trigger] ascii_fold(a@[j]) == ascii_fold(b@[j]),
        decreases a@.len() - i,
    {
        if ascii_fold_exec(a[i]) != ascii_fold_exec(b[i]) {
            return false;
        }
        i = i + 1;
    }
    true
}

/// Whether `s` equals the literal `lit` up to ASCII case.
pub fn is_text_ignore_case(s: &[char], lit: &str) -> (r: bool)
    ensures
        r == eq_ignore_ascii_case(s@, lit@),
{
    let l = crate::text::chars_of(lit);
    eq_ignore_ascii_case_exec(s, l.as_slice())
}

} // verus!

verus! {

/// The value of one ASCII digit.
pub open spec fn digit_value(c: char) -> nat {
    (c as int - 48) as nat
}

/// The value of a run of ASCII digits, most significant first.
pub open spec fn digits_value(s: Seq<char>) -> nat
    decreases s.len(),
{
    if s.len() == 0 {
        0
    } else {
        digits_value(s.drop_last()) * 10 + digit_value(s.last())
    }
}

pub open spec fn all_digits(s: Seq<char>) -> bool {
    forall|i: int| 0 <= i < s.len() ==> spec_is_ascii_digit(#[trigger] s[i])
}

/// What `str::parse` reads for an unsigned integer before its range check:
/// an optional `+`, then one or more ASCII digits and nothing else.
pub open spec fn spec_parse_unsigned(s: Seq<char>) -> Option<nat> {
    let digits = if s.len() > 0 && s[0] == '+' {
        s.drop_first()
    } else {
        s
    };
    if digits.len() > 0 && all_digits(digits) {
        Some(digits_value(digits))
    } else {
        None
    }
}

/// `str::parse::<u16>`.
pub open spec fn spec_parse_u16(s: Seq<char>) -> Option<u16> {
    match spec_parse_unsigned(s) {
        Some(n) => if n <= 65535 {
            Some(n as u16)
        } else {
            None
        },
        None => None,
    }
}

/// `str::parse::<u64>`.
pub open spec fn spec_parse_u64(s: Seq<char>) -> Option<u64> {
    match spec_parse_unsigned(s) {
        Some(n) => if n <= u64::MAX {
            Some(n as u64)
        } else {
            None
        },
        None => None,
    }
}

proof fn lemma_digits_value_prefix(s: Seq<char>, i: int)
    requires
        0 <= i <= s.len(),
        all_digits(s),
    ensures
        digits_value(s.take(i)) <= digits_value(s),
    decreases s.len(),
{
    if i < s.len() {
        assert(s.drop_last().take(i) =~= s.take(i));
        lemma_digits_value_prefix(s.drop_last(), i);
    } else {
        assert(s.take(i) =~= s);
    }
}

/// Parses an unsigned decimal number as `str::parse` does for an unsigned
/// type whose largest value is `max`.
pub fn parse_unsigned(s: &[char], max: u64) -> (r: Option<u64>)
    ensures
        r == match spec_parse_unsigned(s@) {
            Some(n) => if n <= max {
                Some(n as u64)
            } else {
                None
            },
            None => None,
        },
{
    let start: usize = if s.len() > 0 && s[0] == '+' {
        1
    } else {
        0
    };
    let ghost digits = if s@.len() > 0 && s@[0] == '+' {
        s@.drop_first()
    } else {
        s@
    };
    assert(digits =~= s@.skip(start as int));
    if start == s.len() {
        return None;
    }
    let mut acc: u64 = 0;
    let mut i: usize = start;
    while i < s.len()
        invariant
            start <= i <= s@.len(),
            start < s@.len(),
            digits =~= s@.skip(start as int),
            digits == (if s@.len() > 0 && s@[0] == '+' {
                s@.drop_first()
            } else {
                s@
            }),
            all_digits(s@.subrange(start as int, i as int)),
            acc as nat == digits_value(s@.subrange(start as int, i as int)),
            acc <= max,
        decreases s@.len() - i,
    {
        let c = s[i];
        if !('0' <= c && c <= '9') {
            proof {
                assert(digits[i - start] == c);
                assert(!spec_is_ascii_digit(digits[i - start]));
            }
            return None;
        }
        let d: u64 = (c as u32 - 48) as u64;
        let ghost next = s@.subrange(start as int, i + 1);
        proof {
            assert(next.drop_last() =~= s@.subrange(start as int, i as int));
            assert(next.last() == c);
            assert(all_digits(next));
            assert(digits_value(next) == digits_value(next.drop_last()) * 10 + digit_value(next.last()));
            assert(digits_value(next) == acc * 10 + d);
        }
        if d > max || acc > (max - d) / 10 {
            proof {
                assert(acc * 10 + d > max) by (nonlinear_arith)
                    requires
                        d > max || acc > (max - d) / 10,
                ;
                if all_digits(digits) {
                    assert(next =~= digits.take(i + 1 - start));
                    lemma_digits_value_prefix(digits, i + 1 - start);
                    assert(digits_value(digits) > max);
                }
            }
            return None;
        }
        proof {
            assert(acc * 10 + d <= max) by (nonlinear_arith)
                requires
                    d <= max,
                    acc <= (max - d) / 10,
            ;
        }
        acc = acc * 10 + d;
        i = i + 1;
    }
    proof {
        assert(s@.subrange(start as int, s@.len() as int) =~= digits);
    }
    Some(acc)
}

/// `str::parse::<u16>` on characters.
pub fn parse_u16(s: &[char]) -> (r: Option<u16>)
    ensures
        r == spec_parse_u16(s@),
{
    match parse_unsigned(s, 65535) {
        Some(n) => Some(n as u16),
        None => None,
    }
}

/// `str::parse::<u64>` on characters.
pub fn parse_u64(s: &[char]) -> (r: Option<u64>)
    ensures
        r == spec_parse_u64(s@),
{
    parse_unsigned(s, u64::MAX)
}

} // verus!

verus! {

/// The first position at or after `i` that is not white space (or the end).
pub open spec fn skip_ws_from(s: Seq<char>, i: int) -> int
    decreases s.len() - i,
{
    if 0 <= i < s.len() && spec_is_whitespace(s[i]) {
        skip_ws_from(s, i + 1)
    } else {
        i
    }
}

/// The first position at or after `i` that is white space (or the end).
pub open spec fn word_end_from(s: Seq<char>, i: int) -> int
    decreases s.len() - i,
{
    if 0 <= i < s.len() && !spec_is_whitespace(s[i]) {
        word_end_from(s, i + 1)
    } else {
        i
    }
}

/// The bounds of the first white-space separated word of `s` at or after
/// `from` (an empty range at the end when there is none), as
/// `str::split_whitespace` finds it.
pub fn next_word(s: &[char], from: usize) -> (r: (usize, usize))
    requires
        from <= s@.len(),
    ensures
        r.0 == skip_ws_from(s@, from as int),
        r.1 == word_end_from(s@, r.0 as int),
        from <= r.0 <= r.1 <= s@.len(),
{
    let mut b = from;
    while b < s.len() && is_whitespace(s[b])
        invariant
            from <= b <= s@.len(),
            skip_ws_from(s@, b as int) == skip_ws_from(s@, from as int),
        decreases s@.len() - b,
    {
        b = b + 1;
    }
    let mut e = b;
    while e < s.len() && !is_whitespace(s[e])
        invariant
            b <= e <= s@.len(),
            word_end_from(s@, e as int) == word_end_from(s@, b as int),
        decreases s@.len() - e,
    {
        e = e + 1;
    }
    (b, e)
}

/// The position of the last `c` in `s`, if any (`str::rsplit_once`).
pub open spec fn last_index_of(s: Seq<char>, c: char) -> Option<int>
    decreases s.len(),
{
    if s.len() == 0 {
        None
    } else if s.last() == c {
        Some(s.len() - 1)
    } else {
        last_index_of(s.drop_last(), c)
    }
}

pub fn last_index_of_exec(s: &[char], c: char) -> (r: Option<usize>)
    ensures
        r matches Some(k) ==> k < s@.len() && last_index_of(s@, c) == Some(k as int),
        r is None ==> last_index_of(s@, c) is None,
{
    let mut n = s.len();
    proof {
        assert(s@.take(n as int) =~= s@);
    }
    while n > 0
        invariant
            n <= s@.len(),
            last_index_of(s@, c) == last_index_of(s@.take(n as int), c),
        decreases n,
    {
        proof {
            assert(s@.take(n as int).drop_last() =~= s@.take(n - 1));
        }
        if s[n - 1] == c {
            return Some(n - 1);
        }
        n = n - 1;
    }
    None
}

} // verus!

verus! {

/// The first `n` bytes of `b`.
pub fn bytes_prefix(b: &[u8], n: usize) -> (r: Vec<u8>)
    requires
        n <= b@.len(),
    ensures
        r@ == b@.take(n as int),
{
    let mut r: Vec<u8> = Vec::new();
    let mut i: usize = 0;
    while i < n
        invariant
            i <= n <= b@.len(),
            r@ == b@.take(i as int),
        decreases n - i,
    {
        r.push(b[i]);
        i = i + 1;
        proof {
            assert(r@ =~= b@.take(i as int));
        }
    }
    r
}

/// What `String::from_utf8_lossy` returns for `bytes`: their UTF-8
/// decoding, with each invalid sequence replaced by U+FFFD.
pub uninterp spec fn utf8_lossy(bytes: Seq<u8>) -> Seq<char>;

/// Decodes received bytes as text.
///
/// Trusted: calls `String::from_utf8_lossy`. The contract names its result
/// and states what its documentation says of valid input: valid UTF-8 is
/// decoded unchanged.
#[verifier::external_body]
pub fn decode_utf8_lossy(bytes: &[u8]) -> (s: String)
    ensures
        s@ == utf8_lossy(bytes@),
        valid_utf8(bytes@) ==> s@ == decode_utf8(bytes@),
{
    String::from_utf8_lossy(bytes).into_owned()
}

} // verus!

verus! {

/// The decimal digits of `n`, without leading zeros (`0` for zero).
pub open spec fn nat_digits(n: nat) -> Seq<char>
    decreases n,
{
    if n < 10 {
        seq![(48 + n) as char]
    } else {
        nat_digits(n / 10).push((48 + n % 10) as char)
    }
}

/// How `Display` writes an integer: a `-` for a negative value, then its
/// magnitude's decimal digits.
pub open spec fn int_text(x: int) -> Seq<char> {
    if x < 0 {
        seq!['-'] + nat_digits((-x) as nat)
    } else {
        nat_digits(x as nat)
    }
}

/// Appends the decimal digits of `n`.
pub fn push_digits(n: u64, out: &mut Vec<char>)
    ensures
        final(out)@ == old(out)@ + nat_digits(n as nat),
    decreases n,
{
    if n >= 10 {
        push_digits(n / 10, out);
    }
    let d = (n % 10) as u32;
    let c = if d == 0 {
        '0'
    } else if d == 1 {
        '1'
    } else if d == 2 {
        '2'
    } else if d == 3 {
        '3'
    } else if d == 4 {
        '4'
    } else if d == 5 {
        '5'
    } else if d == 6 {
        '6'
    } else if d == 7 {
        '7'
    } else if d == 8 {
        '8'
    } else {
        '9'
    };
    proof {
        assert(c == (48 + n % 10) as char);
    }
    out.push(c);
    proof {
        if n >= 10 {
            assert(nat_digits(n as nat) == nat_digits((n / 10) as nat).push((48 + n % 10) as char));
        } else {
            assert(n % 10 == n);
        }
    }
}

/// Appends an `i64` as `Display` writes it.
pub fn push_i64(x: i64, out: &mut Vec<char>)
    ensures
        final(out)@ == old(out)@ + int_text(x as int),
{
    if x < 0 {
        out.push('-');
        let magnitude: u64 = ((-(x + 1)) as u64) + 1;
        push_digits(magnitude, out);
        proof {
            assert(magnitude as int == -(x as int));
        }
    } else {
        push_digits(x as u64, out);
    }
    proof {
        assert(out@ =~= old(out)@ + int_text(x as int));
    }
}

} // verus!
