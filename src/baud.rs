//! Reading a baud rate from decimal text.

use vstd::prelude::*;
use vstd::utf8::encode_utf8;

verus! {

/// The byte of an ASCII decimal digit.
pub open spec fn is_digit_byte(b: u8) -> bool {
    48 <= b <= 57
}

/// Every byte of `s` is an ASCII decimal digit.
pub open spec fn all_digits(s: Seq<u8>) -> bool {
    forall|i: int| 0 <= i < s.len() ==> is_digit_byte(#[trigger] s[i])
}

/// The number written by the decimal digits `s`, most significant first.
pub open spec fn digits_value(s: Seq<u8>) -> nat
    decreases s.len(),
{
    if s.len() == 0 {
        0
    } else {
        digits_value(s.drop_last()) * 10 + (s.last() - 48) as nat
    }
}

/// The digits of an unsigned number's text: one leading `+` is allowed.
pub open spec fn unsigned_digits(s: Seq<u8>) -> Seq<u8> {
    if s.len() > 0 && s[0] == 43 {
        s.drop_first()
    } else {
        s
    }
}

/// The `u32` that the bytes `s` spell in decimal, if they spell one: an
/// optional `+`, then at least one digit, and nothing else; the value must
/// fit in 32 bits.
pub open spec fn decimal_u32(s: Seq<u8>) -> Option<u32> {
    let d = unsigned_digits(s);
    if d.len() > 0 && all_digits(d) && digits_value(d) <= u32::MAX {
        Some(digits_value(d) as u32)
    } else {
        None
    }
}

/// Reads a baud rate from decimal text. `None` when the text is not an
/// unsigned decimal number that fits in 32 bits.
pub fn parse_baud_rate(text: &str) -> (r: Option<u32>)
    ensures
        r == decimal_u32(encode_utf8(text@)),
{
    let bytes = text.as_bytes();
    let ghost s = encode_utf8(text@);
    let n = bytes.len();
    let mut start: usize = 0;
    if n > 0 && bytes[0] == 43 {
        start = 1;
    }
    let ghost d = unsigned_digits(s);
    assert(d =~= s.subrange(start as int, n as int));
    if start == n {
        return None;
    }
    let mut value: u64 = 0;
    let mut overflow = false;
    let mut i: usize = start;
    while i < n
        invariant
            bytes@ == s,
            s == encode_utf8(text@),
            d == unsigned_digits(s),
            n == s.len(),
            start <= i <= n,
            d =~= s.subrange(start as int, n as int),
            all_digits(d.take(i - start)),
            !overflow ==> value == digits_value(d.take(i - start)) && value <= u32::MAX,
            overflow ==> digits_value(d.take(i - start)) > u32::MAX,
        decreases n - i,
    {
        let b = bytes[i];
        let ghost k = i - start;
        assert(d.take(k + 1).drop_last() =~= d.take(k));
        assert(d.take(k + 1).last() == b);
        if b < 48 || b > 57 {
            assert(d[k] == b);
            assert(!all_digits(d));
            return None;
        }
        assert(all_digits(d.take(k + 1))) by {
            assert forall|j: int| 0 <= j < k + 1 implies is_digit_byte(#[trigger] d.take(k + 1)[j]) by {
                if j < k {
                    assert(d.take(k + 1)[j] == d.take(k)[j]);
                }
            }
        }
        if !overflow {
            value = value * 10 + (b - 48) as u64;
            if value > 4294967295 {
                overflow = true;
            }
        }
        i = i + 1;
    }
    assert(d.take(n - start) =~= d);
    if overflow {
        None
    } else {
        Some(value as u32)
    }
}

} // verus!
