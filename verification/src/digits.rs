use crate::text::{lemma_trim_unchanged, trim, utf8_len};
use vstd::prelude::*;
use vstd::utf8::{is_ascii_chars, is_ascii_chars_encode_utf8};

verus! {

/// Whether `c` is one of the ten decimal digits `0` to `9`.
pub open spec fn is_digit(c: char) -> bool {
    '0' <= c <= '9'
}

/// The number that the digit `c` stands for; 0 for any other character.
pub open spec fn digit_of(c: char) -> nat {
    if is_digit(c) {
        (c as u32 - '0' as u32) as nat
    } else {
        0
    }
}

/// Whether `s` holds decimal digits only. The empty sequence does.
pub open spec fn all_digits(s: Seq<char>) -> bool {
    forall|i: int| 0 <= i < s.len() ==> is_digit(#[trigger] s[i])
}

/// The number that `s` writes in base ten, most significant digit first.
pub open spec fn digits_value(s: Seq<char>) -> nat
    decreases s.len(),
{
    if s.len() == 0 {
        0
    } else {
        10 * digits_value(s.drop_last()) + digit_of(s.last())
    }
}

/// What `s` reads as an unsigned 64-bit integer: the number it writes, where
/// `s` is one decimal digit or more, with no sign, and that number fits.
pub open spec fn as_u64(s: Seq<char>) -> Option<u64> {
    if s.len() > 0 && all_digits(s) && digits_value(s) <= u64::MAX {
        Some(digits_value(s) as u64)
    } else {
        None
    }
}

/// Ten to the power `n`.
pub open spec fn pow10(n: nat) -> nat
    decreases n,
{
    if n == 0 {
        1
    } else {
        10 * pow10((n - 1) as nat)
    }
}

/// No prefix of `s` writes a larger number than `s` does.
pub proof fn lemma_prefix_value(s: Seq<char>, k: int)
    requires
        0 <= k <= s.len(),
    ensures
        digits_value(s.take(k)) <= digits_value(s),
    decreases s.len(),
{
    if k == s.len() {
        assert(s.take(k) == s);
    } else {
        lemma_prefix_value(s.drop_last(), k);
        assert(s.drop_last().take(k) == s.take(k));
    }
}

/// A run of digits holds no `.`, no whitespace to trim, and one byte for each digit.
pub proof fn lemma_digits_are_plain(s: Seq<char>)
    requires
        all_digits(s),
    ensures
        !s.contains('.'),
        trim(s) == s,
        utf8_len(s) == s.len(),
{
    if s.len() > 0 {
        assert(is_digit(s.first()) && is_digit(s.last()));
    }
    lemma_trim_unchanged(s);
    assert(is_ascii_chars(s)) by {
        assert forall|i: int| 0 <= i < s.len() implies '\0' <= #[trigger] s[i] <= '\u{7f}' by {
            assert(is_digit(s[i]));
        }
    }
    is_ascii_chars_encode_utf8(s);
}

/// The digits of `a` followed by those of `b` write the number of `a`,
/// shifted by as many places as `b` has, plus the number of `b`.
pub proof fn lemma_value_concat(a: Seq<char>, b: Seq<char>)
    ensures
        digits_value(a + b) == digits_value(a) * pow10(b.len()) + digits_value(b),
    decreases b.len(),
{
    if b.len() == 0 {
        assert(a + b == a);
        assert(pow10(0) == 1);
    } else {
        let front = b.drop_last();
        lemma_value_concat(a, front);
        assert((a + b).drop_last() == a + front);
        assert((a + b).last() == b.last());
        let x = digits_value(a) as int;
        let p = pow10(front.len()) as int;
        assert(pow10(b.len()) == 10 * p);
        assert(10 * (x * p) == x * (10 * p)) by (nonlinear_arith);
    }
}

/// A run of `n` digits writes a number below ten to the power `n`.
pub proof fn lemma_value_bound(s: Seq<char>)
    requires
        all_digits(s),
    ensures
        digits_value(s) < pow10(s.len()),
    decreases s.len(),
{
    if s.len() > 0 {
        lemma_value_bound(s.drop_last());
        assert(is_digit(s.last()));
    }
}

/// Tells whether `c` is a decimal digit.
pub fn is_digit_char(c: char) -> (b: bool)
    ensures
        b == is_digit(c),
{
    let u: u32 = c as u32;
    0x30 <= u && u <= 0x39
}

/// Reads `v` as an unsigned 64-bit integer written in decimal digits.
/// A sign, an empty text, any other character, or a number above
/// `u64::MAX` gives `None`.
pub fn parse_u64(v: &[char]) -> (r: Option<u64>)
    ensures
        r == as_u64(v@),
{
    let n: usize = v.len();
    if n == 0 {
        return None;
    }
    let mut acc: u64 = 0;
    let mut i: usize = 0;
    while i < n
        invariant
            i <= n == v@.len(),
            all_digits(v@.take(i as int)),
            acc == digits_value(v@.take(i as int)),
        decreases n - i,
    {
        let c: char = v[i];
        if !is_digit_char(c) {
            assert(!is_digit(v@[i as int]));
            return None;
        }
        let d: u64 = (c as u32 - 0x30) as u64;
        proof {
            lemma_prefix_value(v@, i + 1);
            assert(v@.take(i + 1).drop_last() == v@.take(i as int));
        }
        let shifted: u64 = match acc.checked_mul(10) {
            Some(x) => x,
            None => { return None; },
        };
        acc = match shifted.checked_add(d) {
            Some(x) => x,
            None => { return None; },
        };
        i += 1;
    }
    assert(v@.take(n as int) == v@);
    Some(acc)
}

} // verus!
