//! Decimal and hexadecimal digits: the `FromStr` rules of Rust's unsigned
//! integers, and minimal decimal / fixed-width hex rendering.

use vstd::prelude::*;
use crate::text::{chars_of, push_char};

verus! {

pub open spec fn is_dec_digit(c: char) -> bool {
    '0' <= c && c <= '9'
}

pub open spec fn dec_digit_value(c: char) -> nat {
    (c as int - '0' as int) as nat
}

pub open spec fn all_dec_digits(s: Seq<char>) -> bool {
    forall|i: int| 0 <= i < s.len() ==> is_dec_digit(#[trigger] s[i])
}

/// The number that the decimal digits `s` denote (most significant first).
pub open spec fn dec_value(s: Seq<char>) -> nat
    decreases s.len(),
{
    if s.len() == 0 {
        0
    } else {
        dec_value(s.drop_last()) * 10 + dec_digit_value(s.last())
    }
}

/// The digits that an unsigned `from_str` reads: an optional `+` may stand
/// in front, but not alone.
pub open spec fn unsigned_body(s: Seq<char>) -> Option<Seq<char>> {
    if s.len() == 0 {
        None
    } else if s[0] == '+' {
        if s.len() == 1 {
            None
        } else {
            Some(s.drop_first())
        }
    } else {
        Some(s)
    }
}

/// What `<uN as FromStr>::from_str` gives for `s`, for a type whose largest
/// value is `max`.
pub open spec fn parse_unsigned_spec(s: Seq<char>, max: nat) -> Option<nat> {
    match unsigned_body(s) {
        Some(d) => if all_dec_digits(d) && dec_value(d) <= max {
            Some(dec_value(d))
        } else {
            None
        },
        None => None,
    }
}

pub open spec fn dec_char(d: nat) -> char
    recommends
        d < 10,
{
    ('0' as u32 + d) as char
}

/// The minimal decimal rendering of `n` (`"0"` for zero).
pub open spec fn dec_digits(n: nat) -> Seq<char>
    decreases n,
{
    if n < 10 {
        seq![dec_char(n)]
    } else {
        dec_digits(n / 10).push(dec_char(n % 10))
    }
}

pub proof fn lemma_dec_char_value(d: nat)
    requires
        d < 10,
    ensures
        is_dec_digit(dec_char(d)),
        dec_digit_value(dec_char(d)) == d,
        dec_char(d) != '+',
{
    assert(('0' as u32 + d) as char as int == '0' as int + d);
}

proof fn lemma_dec_value_take_step(s: Seq<char>, i: int)
    requires
        0 <= i < s.len(),
    ensures
        dec_value(s.take(i + 1)) == dec_value(s.take(i)) * 10 + dec_digit_value(s[i]),
{
    assert(s.take(i + 1).drop_last() =~= s.take(i));
}

pub proof fn lemma_dec_value_monotone(s: Seq<char>, i: int, j: int)
    requires
        0 <= i <= j <= s.len(),
    ensures
        dec_value(s.take(i)) <= dec_value(s.take(j)),
    decreases j - i,
{
    if i < j {
        lemma_dec_value_monotone(s, i, j - 1);
        lemma_dec_value_take_step(s, j - 1);
    }
}

pub proof fn lemma_dec_digits_correct(n: nat)
    ensures
        all_dec_digits(dec_digits(n)),
        dec_value(dec_digits(n)) == n,
        dec_digits(n).len() >= 1,
        dec_digits(n)[0] != '+',
        n < 10 ==> dec_digits(n).len() == 1,
        10 <= n < 100 ==> dec_digits(n).len() == 2,
        100 <= n < 1000 ==> dec_digits(n).len() == 3,
    decreases n,
{
    lemma_dec_char_value(n % 10);
    if n >= 10 {
        lemma_dec_digits_correct(n / 10);
        let d = dec_digits(n);
        assert(d.drop_last() =~= dec_digits(n / 10));
        assert(d.last() == dec_char(n % 10));
        assert((n / 10) * 10 + n % 10 == n);
        assert forall|i: int| 0 <= i < d.len() implies is_dec_digit(#[trigger] d[i]) by {
            if i < d.len() - 1 {
                assert(d[i] == dec_digits(n / 10)[i]);
            }
        }
        assert(d[0] == dec_digits(n / 10)[0]);
    } else {
        let d = dec_digits(n);
        assert(d.drop_last() =~= Seq::<char>::empty());
        assert(dec_value(d.drop_last()) == 0);
    }
}

pub proof fn lemma_parse_dec_digits(n: nat, max: nat)
    requires
        n <= max,
    ensures
        parse_unsigned_spec(dec_digits(n), max) == Some(n),
{
    lemma_dec_digits_correct(n);
}

/// `<u32 as FromStr>::from_str` restricted to results no larger than `max`;
/// with `max == u8::MAX as u32` this is `<u8 as FromStr>::from_str`.
pub fn parse_unsigned(s: &str, max: u32) -> (r: Option<u32>)
    ensures
        r matches Some(v) ==> parse_unsigned_spec(s@, max as nat) == Some(v as nat),
        r is None ==> parse_unsigned_spec(s@, max as nat) is None,
{
    let v = chars_of(s);
    if v.len() == 0 {
        return None;
    }
    let mut start: usize = 0;
    if v[0] == '+' {
        if v.len() == 1 {
            return None;
        }
        start = 1;
    }
    let ghost body = v@.subrange(start as int, v@.len() as int);
    assert(unsigned_body(s@) == Some(body)) by {
        if start == 1 {
            assert(body =~= s@.drop_first());
        } else {
            assert(body =~= s@);
        }
    }
    let mut acc: u64 = 0;
    let mut i: usize = start;
    while i < v.len()
        invariant
            v@ == s@,
            start <= i <= v.len(),
            body == v@.subrange(start as int, v@.len() as int),
            unsigned_body(s@) == Some(body),
            all_dec_digits(body.take(i - start)),
            acc == dec_value(body.take(i - start)),
            acc <= max,
        decreases v.len() - i,
    {
        let c = v[i];
        if !('0' <= c && c <= '9') {
            assert(body[i - start] == c);
            assert(!all_dec_digits(body));
            return None;
        }
        let d = (c as u32 - '0' as u32) as u64;
        proof {
            lemma_dec_value_take_step(body, i - start);
            assert(body[i - start] == c);
        }
        let next = acc * 10 + d;
        assert(next == dec_value(body.take(i - start + 1)));
        assert forall|j: int| 0 <= j < i - start + 1 implies is_dec_digit(
            #[trigger] body.take(i - start + 1)[j],
        ) by {
            if j < i - start {
                assert(body.take(i - start + 1)[j] == body.take(i - start)[j]);
            }
        }
        if next > max as u64 {
            proof {
                lemma_dec_value_monotone(body, i - start + 1, body.len() as int);
                assert(body.take(body.len() as int) =~= body);
            }
            return None;
        }
        acc = next;
        i = i + 1;
    }
    assert(body.take(i - start) =~= body);
    Some(acc as u32)
}

/// `<u8 as FromStr>::from_str`.
pub fn parse_u8(s: &str) -> (r: Option<u8>)
    ensures
        r matches Some(v) ==> parse_unsigned_spec(s@, 255) == Some(v as nat),
        r is None ==> parse_unsigned_spec(s@, 255) is None,
{
    match parse_unsigned(s, 255) {
        Some(v) => Some(v as u8),
        None => None,
    }
}

/// Appends the minimal decimal rendering of `n` to `out`
/// (what `format!("{}", n)` writes).
pub fn push_decimal(out: &mut String, n: u32)
    ensures
        final(out)@ == old(out)@ + dec_digits(n as nat),
    decreases n,
{
    if n >= 10 {
        push_decimal(out, n / 10);
    }
    let d = n % 10;
    let c = ('0' as u8 + d as u8) as char;
    assert(c == dec_char((n % 10) as nat));
    push_char(out, c);
    proof {
        if n >= 10 {
            assert(old(out)@ + dec_digits(n as nat) =~= (old(out)@ + dec_digits((n / 10) as nat)).push(c));
        } else {
            assert(old(out)@ + dec_digits(n as nat) =~= old(out)@.push(c));
        }
    }
}

/// `format!("{:02}", n)`: the decimal digits, with a leading `0` below 10.
pub open spec fn pad2_spec(n: nat) -> Seq<char> {
    if n < 10 {
        seq!['0'] + dec_digits(n)
    } else {
        dec_digits(n)
    }
}

/// Appends `n` zero-padded to at least two digits.
pub fn push_padded2(out: &mut String, n: u32)
    ensures
        final(out)@ == old(out)@ + pad2_spec(n as nat),
{
    if n < 10 {
        push_char(out, '0');
    }
    let ghost mid = out@;
    push_decimal(out, n);
    assert(final(out)@ =~= old(out)@ + pad2_spec(n as nat));
}

// ---------------------------------------------------------------------------
// Hexadecimal
// ---------------------------------------------------------------------------

/// Upper-case hex digit for `d < 16`.
pub open spec fn hex_upper(d: nat) -> char
    recommends
        d < 16,
{
    if d < 10 {
        ('0' as u32 + d) as char
    } else {
        ('A' as u32 + (d - 10)) as char
    }
}

/// A byte that `from_str_radix(_, 16)` accepts as a digit.
pub open spec fn is_hex_byte(b: u8) -> bool {
    (0x30 <= b <= 0x39) || (0x41 <= b <= 0x46) || (0x61 <= b <= 0x66)
}

pub open spec fn hex_byte_value(b: u8) -> nat {
    if 0x30 <= b <= 0x39 {
        (b - 0x30) as nat
    } else if 0x41 <= b <= 0x46 {
        (b - 0x41 + 10) as nat
    } else {
        (b - 0x61 + 10) as nat
    }
}

/// What `u8::from_str_radix(s, 16)` gives for a two-byte string `[b0, b1]`:
/// a `+` may stand in front of a single digit.
pub open spec fn hex_pair_spec(b0: u8, b1: u8) -> Option<u8> {
    if b0 == 0x2B {
        if is_hex_byte(b1) {
            Some(hex_byte_value(b1) as u8)
        } else {
            None
        }
    } else if is_hex_byte(b0) && is_hex_byte(b1) {
        Some((hex_byte_value(b0) * 16 + hex_byte_value(b1)) as u8)
    } else {
        None
    }
}

pub fn hex_byte_digit(b: u8) -> (r: Option<u8>)
    ensures
        r is Some <==> is_hex_byte(b),
        r matches Some(v) ==> v as nat == hex_byte_value(b) && v < 16,
{
    if 0x30 <= b && b <= 0x39 {
        Some(b - 0x30)
    } else if 0x41 <= b && b <= 0x46 {
        Some(b - 0x41 + 10)
    } else if 0x61 <= b && b <= 0x66 {
        Some(b - 0x61 + 10)
    } else {
        None
    }
}

pub fn parse_hex_pair(b0: u8, b1: u8) -> (r: Option<u8>)
    ensures
        r == hex_pair_spec(b0, b1),
{
    if b0 == 0x2B {
        match hex_byte_digit(b1) {
            Some(d) => Some(d),
            None => None,
        }
    } else {
        match (hex_byte_digit(b0), hex_byte_digit(b1)) {
            (Some(h), Some(l)) => Some(h * 16 + l),
            _ => None,
        }
    }
}

/// Appends `format!("{:02X}", b)`.
pub fn push_hex_byte(out: &mut String, b: u8)
    ensures
        final(out)@ == old(out)@ + seq![hex_upper((b / 16) as nat), hex_upper((b % 16) as nat)],
{
    let hi = b / 16;
    let lo = b % 16;
    let ch = if hi < 10 { ('0' as u8 + hi) as char } else { ('A' as u8 + (hi - 10)) as char };
    let cl = if lo < 10 { ('0' as u8 + lo) as char } else { ('A' as u8 + (lo - 10)) as char };
    push_char(out, ch);
    push_char(out, cl);
    assert(final(out)@ =~= old(out)@ + seq![hex_upper((b / 16) as nat), hex_upper((b % 16) as nat)]);
}

} // verus!
