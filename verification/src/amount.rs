use crate::digits::{
    all_digits, as_u64, digits_value, is_digit, lemma_digits_are_plain, lemma_value_bound,
    lemma_value_concat, parse_u64, pow10,
};
use crate::error::AmountError;
use crate::text::{
    after_dot, before_dot, chars_of, find_dot, lemma_first_dot, lemma_first_dot_at,
    lemma_trim_unchanged, longer_than, trim, trim_chars, utf8_len,
};
use vstd::prelude::*;
use vstd::slice::{slice_subrange, slice_to_vec};

verus! {

/// The number of sompi in one KAS.
pub const SOMPI_PER_KAS: u64 = 100_000_000;

/// The number of decimal places of a KAS amount.
pub const KAS_DECIMALS: usize = 8;

/// `s` with as many `0` appended as it takes to make it `width` long;
/// `s` itself where it is that long already.
pub open spec fn pad_zeros(s: Seq<char>, width: nat) -> Seq<char> {
    if s.len() < width {
        s + Seq::new((width - s.len()) as nat, |i: int| '0')
    } else {
        s
    }
}

/// The amount in sompi that the text `s` gives in KAS, or why it gives none.
///
/// Whitespace around the text is ignored; a text with nothing else is
/// `EmptyAmount`. With more than one `.` it is `TooManyDecimalPoints`. What
/// stands before the `.`, whitespace around it set aside, must read as an
/// unsigned 64-bit integer, else `InvalidWholePart`. What stands after it,
/// whitespace set aside again, may take eight bytes at most, else
/// `TooManyDecimals`; filled up with zeros to eight places it must read as an
/// integer, else `InvalidFractionalPart`. The whole part times
/// `SOMPI_PER_KAS` plus that fraction is the amount, `AmountOverflow` where it
/// does not fit in 64 bits.
pub open spec fn kas_to_sompi(s: Seq<char>) -> Result<u64, AmountError> {
    let raw = trim(s);
    let whole = trim(before_dot(raw));
    let fraction = trim(after_dot(raw));
    if raw.len() == 0 {
        Err(AmountError::EmptyAmount)
    } else if after_dot(raw).contains('.') {
        Err(AmountError::TooManyDecimalPoints)
    } else {
        match as_u64(whole) {
            None => Err(AmountError::InvalidWholePart),
            Some(kas) => if utf8_len(fraction) > KAS_DECIMALS {
                Err(AmountError::TooManyDecimals)
            } else {
                match as_u64(pad_zeros(fraction, KAS_DECIMALS as nat)) {
                    None => Err(AmountError::InvalidFractionalPart),
                    Some(sompi) => if kas * SOMPI_PER_KAS + sompi > u64::MAX {
                        Err(AmountError::AmountOverflow)
                    } else {
                        Ok((kas * SOMPI_PER_KAS + sompi) as u64)
                    },
                }
            },
        }
    }
}

/// A run of zeros writes the number zero.
proof fn lemma_zeros_value(n: nat)
    ensures
        all_digits(Seq::new(n, |i: int| '0')),
        digits_value(Seq::new(n, |i: int| '0')) == 0,
    decreases n,
{
    if n > 0 {
        lemma_zeros_value((n - 1) as nat);
        assert(Seq::new(n, |i: int| '0').drop_last() == Seq::new((n - 1) as nat, |i: int| '0'));
    }
}

/// A fraction of at most eight digits, filled up with zeros to eight places,
/// is eight digits that write the fraction in sompi: its own number times ten
/// for each place filled, and less than one KAS.
pub proof fn lemma_padded_fraction(fraction: Seq<char>)
    requires
        all_digits(fraction),
        fraction.len() <= KAS_DECIMALS,
    ensures
        all_digits(pad_zeros(fraction, KAS_DECIMALS as nat)),
        pad_zeros(fraction, KAS_DECIMALS as nat).len() == KAS_DECIMALS,
        digits_value(pad_zeros(fraction, KAS_DECIMALS as nat)) == digits_value(fraction) * pow10(
            (KAS_DECIMALS - fraction.len()) as nat,
        ),
        digits_value(pad_zeros(fraction, KAS_DECIMALS as nat)) < SOMPI_PER_KAS,
{
    let missing = (KAS_DECIMALS - fraction.len()) as nat;
    let zeros = Seq::new(missing, |i: int| '0');
    let padded = pad_zeros(fraction, KAS_DECIMALS as nat);
    lemma_zeros_value(missing);
    lemma_value_concat(fraction, zeros);
    assert(fraction + zeros == padded);
    assert(all_digits(padded)) by {
        assert forall|i: int| 0 <= i < padded.len() implies is_digit(#[trigger] padded[i]) by {
            if i < fraction.len() {
                assert(is_digit(fraction[i]));
            } else {
                assert(is_digit(zeros[i - fraction.len()]));
            }
        }
    }
    lemma_value_bound(padded);
    assert(pow10(8) == 100_000_000) by {
        reveal_with_fuel(pow10, 9);
    }
}

/// In a whole part of digits, a `.` and a fraction of digits there is nothing
/// to trim, the whole part stands before the first `.`, and the fraction after it.
pub proof fn lemma_segments(whole: Seq<char>, fraction: Seq<char>)
    requires
        whole.len() > 0,
        all_digits(whole),
        all_digits(fraction),
    ensures
        trim(whole + seq!['.'] + fraction) == whole + seq!['.'] + fraction,
        before_dot(whole + seq!['.'] + fraction) == whole,
        after_dot(whole + seq!['.'] + fraction) == fraction,
{
    let s = whole + seq!['.'] + fraction;
    assert(s.first() == whole.first() && is_digit(whole.first()));
    if fraction.len() > 0 {
        assert(s.last() == fraction.last() && is_digit(fraction.last()));
    } else {
        assert(s.last() == '.');
    }
    lemma_trim_unchanged(s);
    assert forall|i: int| 0 <= i < whole.len() implies s[i] != '.' by {
        assert(s[i] == whole[i] && is_digit(whole[i]));
    }
    assert(s[whole.len() as int] == '.');
    lemma_first_dot_at(s, whole.len() as int);
    assert(s.take(whole.len() as int) == whole);
    assert(s.skip(whole.len() as int + 1) == fraction);
}

/// Digits, a `.` and at most eight more digits give the number before the
/// `.` times `SOMPI_PER_KAS`, plus the number that the digits after it write
/// once filled up with zeros to eight places, wherever that sum fits in 64
/// bits. With no digit after the `.` the amount is that of the whole part alone.
pub proof fn lemma_decimal_amount(whole: Seq<char>, fraction: Seq<char>)
    requires
        whole.len() > 0,
        all_digits(whole),
        all_digits(fraction),
        fraction.len() <= KAS_DECIMALS,
        digits_value(whole) * SOMPI_PER_KAS + digits_value(pad_zeros(fraction, KAS_DECIMALS as nat))
            <= u64::MAX,
    ensures
        kas_to_sompi(whole + seq!['.'] + fraction) == Ok::<u64, AmountError>(
            (digits_value(whole) * SOMPI_PER_KAS + digits_value(
                pad_zeros(fraction, KAS_DECIMALS as nat),
            )) as u64,
        ),
{
    lemma_segments(whole, fraction);
    lemma_digits_are_plain(whole);
    lemma_digits_are_plain(fraction);
    lemma_padded_fraction(fraction);
}

/// Digits with no `.` give the number they write times `SOMPI_PER_KAS`,
/// wherever that fits in 64 bits.
pub proof fn lemma_whole_amount(whole: Seq<char>)
    requires
        whole.len() > 0,
        all_digits(whole),
        digits_value(whole) * SOMPI_PER_KAS <= u64::MAX,
    ensures
        kas_to_sompi(whole) == Ok::<u64, AmountError>((digits_value(whole) * SOMPI_PER_KAS) as u64),
{
    lemma_digits_are_plain(whole);
    lemma_first_dot(whole);
    assert(whole.take(whole.len() as int) == whole);
    let nothing = Seq::<char>::empty();
    lemma_digits_are_plain(nothing);
    lemma_padded_fraction(nothing);
    lemma_zeros_value(KAS_DECIMALS as nat);
    assert(pad_zeros(nothing, KAS_DECIMALS as nat) == Seq::new(KAS_DECIMALS as nat, |i: int| '0'));
}

/// Where the whole part fits in 64 bits and its amount in sompi does not,
/// the text is refused with `AmountOverflow`, with or without a fraction of
/// at most eight digits.
pub proof fn lemma_amount_overflow(whole: Seq<char>, fraction: Seq<char>)
    requires
        whole.len() > 0,
        all_digits(whole),
        all_digits(fraction),
        fraction.len() <= KAS_DECIMALS,
        digits_value(whole) <= u64::MAX,
        digits_value(whole) * SOMPI_PER_KAS > u64::MAX,
    ensures
        kas_to_sompi(whole + seq!['.'] + fraction) == Err::<u64, AmountError>(
            AmountError::AmountOverflow,
        ),
        kas_to_sompi(whole) == Err::<u64, AmountError>(AmountError::AmountOverflow),
{
    lemma_segments(whole, fraction);
    lemma_digits_are_plain(whole);
    lemma_digits_are_plain(fraction);
    lemma_padded_fraction(fraction);
    lemma_first_dot(whole);
    assert(whole.take(whole.len() as int) == whole);
    let nothing = Seq::<char>::empty();
    lemma_digits_are_plain(nothing);
    lemma_padded_fraction(nothing);
}

/// Returns `v` followed by as many `0` as it takes to make it `width` long.
pub fn pad_with_zeros(v: &[char], width: usize) -> (r: Vec<char>)
    ensures
        r@ == pad_zeros(v@, width as nat),
{
    let mut r: Vec<char> = slice_to_vec(v);
    while r.len() < width
        invariant
            r.len() >= v@.len(),
            r.len() <= width || r.len() == v@.len(),
            r@ == v@ + Seq::new((r.len() - v@.len()) as nat, |i: int| '0'),
        decreases width - r.len(),
    {
        r.push('0');
    }
    r
}

/// Converts the decimal KAS amount written in `v` into sompi.
pub fn parse_kas_chars(v: &[char]) -> (r: Result<u64, AmountError>)
    ensures
        r == kas_to_sompi(v@),
{
    let raw: &[char] = trim_chars(v);
    if raw.len() == 0 {
        return Err(AmountError::EmptyAmount);
    }
    let dot: usize = find_dot(raw);
    proof {
        lemma_first_dot(raw@);
    }
    let rest: &[char] = if dot < raw.len() {
        slice_subrange(raw, dot + 1, raw.len())
    } else {
        slice_subrange(raw, 0, 0)
    };
    assert(rest@ == after_dot(raw@));
    let second: usize = find_dot(rest);
    proof {
        lemma_first_dot(rest@);
    }
    if second < rest.len() {
        return Err(AmountError::TooManyDecimalPoints);
    }
    let whole: &[char] = trim_chars(slice_subrange(raw, 0, dot));
    let kas: u64 = match parse_u64(whole) {
        Some(n) => n,
        None => { return Err(AmountError::InvalidWholePart); },
    };
    let fraction: &[char] = trim_chars(rest);
    if longer_than(fraction, KAS_DECIMALS) {
        return Err(AmountError::TooManyDecimals);
    }
    let padded: Vec<char> = pad_with_zeros(fraction, KAS_DECIMALS);
    let sompi: u64 = match parse_u64(padded.as_slice()) {
        Some(n) => n,
        None => { return Err(AmountError::InvalidFractionalPart); },
    };
    let scaled: u64 = match kas.checked_mul(SOMPI_PER_KAS) {
        Some(n) => n,
        None => { return Err(AmountError::AmountOverflow); },
    };
    match scaled.checked_add(sompi) {
        Some(n) => Ok(n),
        None => Err(AmountError::AmountOverflow),
    }
}

/// Converts a decimal KAS amount, such as `"1.5"`, into sompi.
pub fn parse_kas_to_sompi(s: &str) -> (r: Result<u64, AmountError>)
    ensures
        r == kas_to_sompi(s@),
{
    let v: Vec<char> = chars_of(s);
    parse_kas_chars(v.as_slice())
}

} // verus!
