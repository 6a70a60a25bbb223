//! Reading unsigned decimal numbers from text.

use vstd::prelude::*;
use crate::scan::Span;

verus! {

/// Whether `c` is one of the digits `0` to `9`.
pub open spec fn is_digit(c: char) -> bool {
    0x30 <= c as u32 <= 0x39
}

/// The value of the digit `c`.
pub open spec fn digit_value(c: char) -> nat {
    (c as u32 - 0x30) as nat
}

/// Whether `s` holds digits only.
pub open spec fn all_digits(s: Seq<char>) -> bool {
    forall|k: int| 0 <= k < s.len() ==> is_digit(#[trigger] s[k])
}

/// The number that the digits `s` write in base ten.
pub open spec fn digits_value(s: Seq<char>) -> nat
    decreases s.len(),
{
    if s.len() == 0 {
        0
    } else {
        digits_value(s.drop_last()) * 10 + digit_value(s.last())
    }
}

/// The digits of a number text: the text without one leading plus sign.
pub open spec fn digits_of(s: Seq<char>) -> Seq<char> {
    if s.len() > 0 && s[0] == '+' {
        s.drop_first()
    } else {
        s
    }
}

/// The number that `s` writes, if `s` is an optional plus sign and then one
/// digit or more, and the number is at most `max`.
pub open spec fn parse_unsigned(s: Seq<char>, max: nat) -> Option<nat> {
    let d = digits_of(s);
    if d.len() > 0 && all_digits(d) && digits_value(d) <= max {
        Some(digits_value(d))
    } else {
        None
    }
}

/// The number that `s` writes, or 0 where it writes none that fits.
pub open spec fn parse_unsigned_or_zero(s: Seq<char>, max: nat) -> nat {
    match parse_unsigned(s, max) {
        Some(n) => n,
        None => 0,
    }
}

/// The 32-bit number that `s` writes, or 0 where it writes none.
pub open spec fn u32_or_zero(s: Seq<char>) -> u32 {
    parse_unsigned_or_zero(s, u32::MAX as nat) as u32
}

/// The 64-bit number that `s` writes, or 0 where it writes none.
pub open spec fn u64_or_zero(s: Seq<char>) -> u64 {
    parse_unsigned_or_zero(s, u64::MAX as nat) as u64
}

/// A prefix of digits writes no more than the whole.
pub proof fn lemma_digits_value_prefix(s: Seq<char>, k: int)
    requires
        0 <= k <= s.len(),
    ensures
        digits_value(s.take(k)) <= digits_value(s),
    decreases s.len(),
{
    if k == s.len() {
        assert(s.take(k) == s);
    } else {
        lemma_digits_value_prefix(s.drop_last(), k);
        assert(s.drop_last().take(k) == s.take(k));
    }
}

/// Reads `v[within]` as an unsigned number of at most 64 bits.
pub fn parse_u64(v: &Vec<char>, within: Span) -> (r: Option<u64>)
    requires
        within.fits(v@.len()),
    ensures
        r is Some <==> parse_unsigned(within.of(v@), u64::MAX as nat) is Some,
        r is Some ==> r->0 == parse_unsigned(within.of(v@), u64::MAX as nat)->0,
{
    let ghost s = within.of(v@);
    let mut i: usize = within.start;
    if i < within.end && v[i] == '+' {
        i += 1;
    }
    let ghost d = digits_of(s);
    let first = i;
    assert(d == v@.subrange(first as int, within.end as int));
    if i >= within.end {
        return None;
    }
    let mut n: u64 = 0;
    while i < within.end
        invariant
            first <= i <= within.end <= v.len(),
            d == v@.subrange(first as int, within.end as int),
            d == digits_of(within.of(v@)),
            all_digits(d.take(i - first)),
            n == digits_value(d.take(i - first)),
        decreases within.end - i,
    {
        let c: u32 = v[i] as u32;
        if c < 0x30 || c > 0x39 {
            assert(!is_digit(d[i - first]));
            return None;
        }
        let digit: u64 = (c - 0x30) as u64;
        proof {
            assert(d.take(i - first + 1).drop_last() == d.take(i - first));
            assert(d.take(i - first + 1).last() == v@[i as int]);
            lemma_digits_value_prefix(d, i - first + 1);
        }
        if n > (u64::MAX - digit) / 10 {
            return None;
        }
        n = n * 10 + digit;
        i += 1;
    }
    assert(d.take(within.end - first) == d);
    Some(n)
}

/// Reads `v[within]` as an unsigned number of at most 32 bits.
pub fn parse_u32(v: &Vec<char>, within: Span) -> (r: Option<u32>)
    requires
        within.fits(v@.len()),
    ensures
        r is Some <==> parse_unsigned(within.of(v@), u32::MAX as nat) is Some,
        r is Some ==> r->0 == parse_unsigned(within.of(v@), u32::MAX as nat)->0,
{
    match parse_u64(v, within) {
        Some(n) => {
            if n <= 0xFFFF_FFFF {
                Some(n as u32)
            } else {
                None
            }
        },
        None => {
            proof {
                let s = within.of(v@);
                let d = digits_of(s);
                if d.len() > 0 && all_digits(d) {
                    assert(digits_value(d) > u64::MAX);
                }
            }
            None
        },
    }
}

/// Reads `v[within]` as a 32-bit number, with 0 for what is none.
pub fn parse_u32_or_zero(v: &Vec<char>, within: Span) -> (r: u32)
    requires
        within.fits(v@.len()),
    ensures
        r == u32_or_zero(within.of(v@)),
{
    match parse_u32(v, within) {
        Some(n) => n,
        None => 0,
    }
}

/// Reads `v[within]` as a 64-bit number, with 0 for what is none.
pub fn parse_u64_or_zero(v: &Vec<char>, within: Span) -> (r: u64)
    requires
        within.fits(v@.len()),
    ensures
        r == u64_or_zero(within.of(v@)),
{
    match parse_u64(v, within) {
        Some(n) => n,
        None => 0,
    }
}

/// The character that writes the digit `d`.
pub open spec fn digit_char(d: nat) -> char {
    ((0x30 + d) as u8) as char
}

/// A number written in base ten, without leading zeros.
pub open spec fn decimal(n: nat) -> Seq<char>
    decreases n,
{
    if n < 10 {
        seq![digit_char(n)]
    } else {
        decimal(n / 10).push(digit_char(n % 10))
    }
}

/// What is written is read back as the same number.
pub proof fn law_decimal_reads_back(n: nat, max: nat)
    requires
        n <= max,
    ensures
        parse_unsigned(decimal(n), max) == Some(n),
        decimal(n).len() >= 1,
        all_digits(decimal(n)),
        digits_value(decimal(n)) == n,
    decreases n,
{
    let d = decimal(n);
    if n < 10 {
        assert(d.drop_last() == Seq::<char>::empty());
        assert(digits_value(d.drop_last()) == 0);
        assert(d.last() == digit_char(n));
        assert(digit_value(digit_char(n)) == n);
    } else {
        law_decimal_reads_back(n / 10, max);
        assert(d.drop_last() == decimal(n / 10));
        assert(d.last() == digit_char(n % 10));
        assert(digit_value(digit_char(n % 10)) == n % 10);
    }
    assert(d[0] != '+');
}

/// Appends `n`, written in base ten, to `out`.
pub fn push_decimal(out: &mut Vec<char>, n: u64)
    ensures
        final(out)@ == old(out)@ + decimal(n as nat),
    decreases n,
{
    if n >= 10 {
        push_decimal(out, n / 10);
    }
    let d: u8 = (n % 10) as u8;
    let c: char = (0x30u8 + d) as char;
    out.push(c);
    proof {
        if n < 10 {
            assert(final(out)@ == old(out)@ + seq![digit_char(n as nat)]);
        } else {
            assert(final(out)@ == old(out)@ + decimal((n / 10) as nat).push(
                digit_char((n % 10) as nat),
            ));
        }
    }
}

} // verus!
