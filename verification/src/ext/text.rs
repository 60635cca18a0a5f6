//! Characters, digits and the numbers they write.

use crate::ext::big::{natural_add, natural_from_u64, natural_mul, natural_value, Natural};
use vstd::arithmetic::power::{lemma_pow0, lemma_pow_increases, pow};
use vstd::prelude::*;
use vstd::utf8::{encode_scalar, encode_utf8, encode_utf8_decode_utf8};

verus! {

/// The characters of a string slice, in order.
pub fn chars_of(s: &str) -> (v: Vec<char>)
    ensures
        v@ == s@,
{
    let mut v: Vec<char> = Vec::new();
    for c in it: s.chars()
        invariant
            v@ == it.seq().take(it.index()),
            it.seq() == s@,
    {
        v.push(c);
    }
    v
}

/// `String::push`: the character is appended at the end.
#[verifier::external_body]
pub(crate) fn push_char(s: &mut String, c: char)
    ensures
        final(s)@ == old(s)@.push(c),
{
    s.push(c)
}

/// The string made of the characters from `from` up to `to`.
pub fn string_of(chars: &Vec<char>, from: usize, to: usize) -> (s: String)
    requires
        from <= to <= chars.len(),
    ensures
        s@ == chars@.subrange(from as int, to as int),
{
    let mut s = String::new();
    let mut i: usize = from;
    while i < to
        invariant
            from <= i <= to <= chars.len(),
            s@ == chars@.subrange(from as int, i as int),
        decreases to - i,
    {
        push_char(&mut s, chars[i]);
        i = i + 1;
        assert(chars@.subrange(from as int, i as int) == chars@.subrange(
            from as int,
            i - 1,
        ).push(chars@[i - 1]));
    }
    s
}

/// One of the ten ASCII digits.
pub open spec fn is_digit(c: char) -> bool {
    '0' <= c <= '9'
}

/// Only digits, and at least one.
pub open spec fn is_digits(s: Seq<char>) -> bool {
    s.len() > 0 && all_digits(s)
}

/// The number that a digit stands for.
pub open spec fn digit_value(c: char) -> nat {
    (c as nat - '0' as nat) as nat
}

/// The number that a run of digits writes in base 10.
pub open spec fn decimal_value(s: Seq<char>) -> nat
    decreases s.len(),
{
    if s.len() == 0 {
        0
    } else {
        decimal_value(s.drop_last()) * 10 + digit_value(s.last())
    }
}

/// Why a text is not a number that 64 bits hold.
#[derive(Debug, Clone, Copy, PartialEq, Eq, Structural)]
pub enum DecimalError {
    /// There is nothing to read.
    Empty,
    /// Something other than a digit occurs, or no digit at all.
    InvalidDigit,
    /// The number is above `u64::MAX`.
    Overflow,
}

/// The text without the plus sign that may stand in front of a number.
pub open spec fn unsigned(s: Seq<char>) -> Seq<char> {
    if s.len() > 0 && s[0] == '+' {
        s.drop_first()
    } else {
        s
    }
}

/// The number that the text writes, or why it writes none that 64
/// bits hold. A number is written with digits only, of which there is
/// at least one; a plus sign may stand in front of them.
pub open spec fn u64_literal(s: Seq<char>) -> Result<u64, DecimalError> {
    if s.len() == 0 {
        Err(DecimalError::Empty)
    } else if !is_digits(unsigned(s)) {
        Err(DecimalError::InvalidDigit)
    } else if decimal_value(unsigned(s)) > u64::MAX {
        Err(DecimalError::Overflow)
    } else {
        Ok(decimal_value(unsigned(s)) as u64)
    }
}

/// A longer run of digits writes a number that is at least as large.
pub proof fn lemma_decimal_value_prefix(s: Seq<char>, k: int)
    requires
        0 <= k <= s.len(),
    ensures
        decimal_value(s.take(k)) <= decimal_value(s),
    decreases s.len() - k,
{
    if k == s.len() {
        assert(s.take(k) == s);
    } else {
        lemma_decimal_value_prefix(s, k + 1);
        assert(s.take(k + 1).drop_last() == s.take(k));
    }
}

/// Whether the character is an ASCII digit.
pub fn digit_of(c: char) -> (r: Option<u8>)
    ensures
        is_digit(c) ==> r == Some(digit_value(c) as u8) && digit_value(c) <= 9,
        !is_digit(c) ==> r is None,
{
    if c >= '0' && c <= '9' {
        Some(((c as u32) - 48) as u8)
    } else {
        None
    }
}

/// Reads a number of at most 64 bits.
pub fn parse_u64(chars: &Vec<char>) -> (r: Result<u64, DecimalError>)
    ensures
        r == u64_literal(chars@),
{
    let n = chars.len();
    if n == 0 {
        return Err(DecimalError::Empty);
    }
    let start: usize = if chars[0] == '+' {
        1
    } else {
        0
    };
    let ghost digits = chars@.subrange(start as int, n as int);
    assert(digits == unsigned(chars@));
    if start == n || !digits_only(chars, start, n) {
        return Err(DecimalError::InvalidDigit);
    }
    let mut acc: u64 = 0;
    let mut i: usize = start;
    assert(digits.take(0).len() == 0);
    while i < n
        invariant
            start <= i <= n,
            n == chars.len(),
            digits == chars@.subrange(start as int, n as int),
            digits == unsigned(chars@),
            is_digits(digits),
            acc == decimal_value(digits.take(i - start)),
        decreases n - i,
    {
        assert(is_digit(digits[i - start]));
        let d = match digit_of(chars[i]) {
            Some(d) => d,
            None => 0,
        };
        proof {
            let next = digits.take(i + 1 - start);
            assert(next.drop_last() == digits.take(i - start));
            assert(next.last() == chars@[i as int]);
            assert(decimal_value(next) == acc * 10 + d);
            lemma_decimal_value_prefix(digits, i + 1 - start);
        }
        if acc > (u64::MAX - d as u64) / 10 {
            return Err(DecimalError::Overflow);
        }
        acc = acc * 10 + d as u64;
        i = i + 1;
    }
    assert(digits.take(n - start) == digits);
    Ok(acc)
}

/// Whether two texts are the same.
pub fn text_is(a: &str, b: &str) -> (r: bool)
    ensures
        r == (a@ == b@),
{
    let x = a.as_bytes();
    let y = b.as_bytes();
    proof {
        encode_utf8_decode_utf8(a@);
        encode_utf8_decode_utf8(b@);
    }
    assert(x@ == y@ ==> a@ == b@);
    if x.len() != y.len() {
        return false;
    }
    let mut i: usize = 0;
    while i < x.len()
        invariant
            i <= x.len(),
            x.len() == y.len(),
            x@.take(i as int) == y@.take(i as int),
            a@ == b@ ==> x@ == y@,
            x@ == y@ ==> a@ == b@,
        decreases x.len() - i,
    {
        if x[i] != y[i] {
            return false;
        }
        assert(x@.take(i + 1) == x@.take(i as int).push(x@[i as int]));
        assert(y@.take(i + 1) == y@.take(i as int).push(y@[i as int]));
        i = i + 1;
    }
    assert(x@.take(i as int) == x@);
    assert(y@.take(i as int) == y@);
    true
}

/// How many bytes the UTF-8 encoding of the text has.
pub open spec fn utf8_len(s: Seq<char>) -> nat {
    encode_utf8(s).len()
}

/// The encoding of two texts in a row is the encoding of the first
/// followed by that of the second.
pub proof fn lemma_encode_concat(a: Seq<char>, b: Seq<char>)
    ensures
        encode_utf8(a + b) == encode_utf8(a) + encode_utf8(b),
    decreases a.len(),
{
    if a.len() == 0 {
        assert(a + b == b);
        assert(encode_utf8(a) + encode_utf8(b) == encode_utf8(b));
    } else {
        assert((a + b).drop_first() == a.drop_first() + b);
        lemma_encode_concat(a.drop_first(), b);
        assert(encode_scalar(a[0] as u32) + (encode_utf8(a.drop_first()) + encode_utf8(b)) == (
        encode_scalar(a[0] as u32) + encode_utf8(a.drop_first())) + encode_utf8(b));
    }
}

/// A text up to position `i + 1` is longer, in bytes, than up to `i`
/// by the width of the character at `i`; and no prefix is longer than
/// the whole.
pub proof fn lemma_utf8_len_step(s: Seq<char>, i: int)
    requires
        0 <= i < s.len(),
    ensures
        utf8_len(s.take(i + 1)) == utf8_len(s.take(i)) + encode_scalar(s[i] as u32).len(),
        utf8_len(s.take(i + 1)) <= utf8_len(s),
{
    let one = seq![s[i]];
    assert(s.take(i + 1) == s.take(i) + one);
    lemma_encode_concat(s.take(i), one);
    assert(one.drop_first() == Seq::<char>::empty());
    assert(encode_utf8(one) == encode_scalar(s[i] as u32) + encode_utf8(Seq::<char>::empty()));
    assert(encode_utf8(one) == encode_scalar(s[i] as u32));
    assert(s == s.take(i + 1) + s.skip(i + 1));
    lemma_encode_concat(s.take(i + 1), s.skip(i + 1));
}

/// How many bytes the UTF-8 encoding of the character has.
pub fn char_width(c: char) -> (r: usize)
    ensures
        r == encode_scalar(c as u32).len(),
        1 <= r <= 4,
{
    let code = c as u32;
    if code < 0x80 {
        1
    } else if code < 0x800 {
        2
    } else if code < 0x10000 {
        3
    } else {
        4
    }
}

/// Only digits, be it none.
pub open spec fn all_digits(s: Seq<char>) -> bool {
    forall|i: int| 0 <= i < s.len() ==> is_digit(#[trigger] s[i])
}

/// A run of `n` digits writes a number below `10^n`.
pub proof fn lemma_decimal_bound(s: Seq<char>)
    requires
        all_digits(s),
    ensures
        decimal_value(s) < pow(10, s.len()),
    decreases s.len(),
{
    if s.len() == 0 {
        lemma_pow0(10);
    } else {
        lemma_decimal_bound(s.drop_last());
        assert(pow(10, s.len()) == 10 * pow(10, (s.len() - 1) as nat)) by {
            reveal(pow);
        }
        assert(is_digit(s.last()));
    }
}

/// A run of at most 14 digits writes a number that 14 digits can write.
pub proof fn lemma_decimal_fourteen(s: Seq<char>)
    requires
        all_digits(s),
        s.len() <= 14,
    ensures
        decimal_value(s) <= 99_999_999_999_999,
{
    lemma_decimal_bound(s);
    if s.len() < 14 {
        lemma_pow_increases(10, s.len(), 14);
    }
    assert(pow(10, 14) == 100_000_000_000_000int) by {
        reveal_with_fuel(pow, 15);
    }
}

/// Whether the characters from `from` up to `to` are digits, all of them.
pub fn digits_only(chars: &Vec<char>, from: usize, to: usize) -> (r: bool)
    requires
        from <= to <= chars.len(),
    ensures
        r == all_digits(chars@.subrange(from as int, to as int)),
{
    let mut k: usize = from;
    while k < to
        invariant
            from <= k <= to <= chars.len(),
            all_digits(chars@.subrange(from as int, k as int)),
        decreases to - k,
    {
        if digit_of(chars[k]).is_none() {
            assert(!is_digit(chars@.subrange(from as int, to as int)[k - from]));
            return false;
        }
        assert forall|i: int| 0 <= i < k + 1 - from implies is_digit(
            #[trigger] chars@.subrange(from as int, k + 1)[i],
        ) by {
            if i < k - from {
                assert(chars@.subrange(from as int, k as int)[i] == chars@[from + i]);
            }
        }
        k = k + 1;
    }
    true
}

/// The number that the digits from `from` up to `to` write, however
/// large it is.
pub fn natural_of_digits(chars: &Vec<char>, from: usize, to: usize) -> (r: Natural)
    requires
        from <= to <= chars.len(),
        all_digits(chars@.subrange(from as int, to as int)),
    ensures
        natural_value(r) == decimal_value(chars@.subrange(from as int, to as int)),
{
    let ten = natural_from_u64(10);
    let mut acc = natural_from_u64(0);
    let mut k: usize = from;
    assert(chars@.subrange(from as int, from as int).len() == 0);
    while k < to
        invariant
            from <= k <= to <= chars.len(),
            all_digits(chars@.subrange(from as int, to as int)),
            natural_value(ten) == 10,
            natural_value(acc) == decimal_value(chars@.subrange(from as int, k as int)),
        decreases to - k,
    {
        assert(is_digit(chars@.subrange(from as int, to as int)[k - from]));
        let digit = match digit_of(chars[k]) {
            Some(d) => d,
            None => 0,
        };
        let shifted = natural_mul(&acc, &ten);
        acc = natural_add(&shifted, &natural_from_u64(digit as u64));
        proof {
            let next = chars@.subrange(from as int, k + 1);
            assert(next.drop_last() == chars@.subrange(from as int, k as int));
            assert(next.last() == chars@[k as int]);
        }
        k = k + 1;
    }
    acc
}

} // verus!
