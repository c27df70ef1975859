use crate::amount::{
    kas_to_sompi, lemma_decimal_amount, lemma_segments, pad_zeros, parse_kas_chars, KAS_DECIMALS,
    SOMPI_PER_KAS,
};
use crate::digits::{all_digits, as_u64, digits_value, lemma_digits_are_plain, parse_u64};
use crate::error::AmountError;
use crate::text::{chars_of, find_dot, lemma_first_dot, trim, trim_chars};
use vstd::prelude::*;

verus! {

/// What the resolver reads of a floating-point KAS amount.
#[derive(Debug, Clone)]
pub struct FloatAmount {
    /// Whether the number is neither infinite nor NaN.
    pub finite: bool,
    /// Whether the number is less than zero.
    pub negative: bool,
    /// The number in decimal notation, rounded to eight decimal places.
    pub fixed: String,
}

/// An amount as a configuration may give it.
#[derive(Debug, Clone)]
pub enum AmountField {
    /// An integer: the amount in sompi.
    Sompi(u64),
    /// A floating-point number: the amount in KAS.
    KasFloat(FloatAmount),
    /// Text: the amount in KAS if it holds a `.`, else in sompi.
    KasString(String),
}

impl AmountField {
    /// The amount in sompi that the field stands for, or why it stands for none.
    ///
    /// An integer is the amount. A floating-point number must be finite and
    /// not negative, else `InvalidFloatAmount`; its decimal notation is then
    /// read as KAS. Text is read without the whitespace around it, and must
    /// not be empty, else `EmptyTextAmount`. Text with a `.` is read as KAS.
    /// Text without one is read as an integer and is the amount in sompi,
    /// with no scaling: `InvalidIntegerText` where it is no such integer.
    pub open spec fn resolved(self) -> Result<u64, AmountError> {
        match self {
            AmountField::Sompi(sompi) => Ok(sompi),
            AmountField::KasFloat(float) => if !float.finite || float.negative {
                Err(AmountError::InvalidFloatAmount)
            } else {
                kas_to_sompi(float.fixed@)
            },
            AmountField::KasString(text) => {
                let raw = trim(text@);
                if raw.len() == 0 {
                    Err(AmountError::EmptyTextAmount)
                } else if raw.contains('.') {
                    kas_to_sompi(raw)
                } else {
                    match as_u64(raw) {
                        Some(sompi) => Ok(sompi),
                        None => Err(AmountError::InvalidIntegerText),
                    }
                }
            },
        }
    }

    /// Resolves the field to an amount in sompi.
    pub fn resolve(&self) -> (r: Result<u64, AmountError>)
        ensures
            r == self.resolved(),
    {
        match self {
            AmountField::Sompi(sompi) => Ok(*sompi),
            AmountField::KasFloat(float) => {
                if !float.finite || float.negative {
                    return Err(AmountError::InvalidFloatAmount);
                }
                let v: Vec<char> = chars_of(float.fixed.as_str());
                parse_kas_chars(v.as_slice())
            },
            AmountField::KasString(text) => {
                let v: Vec<char> = chars_of(text.as_str());
                let raw: &[char] = trim_chars(v.as_slice());
                if raw.len() == 0 {
                    return Err(AmountError::EmptyTextAmount);
                }
                let dot: usize = find_dot(raw);
                proof {
                    lemma_first_dot(raw@);
                }
                if dot < raw.len() {
                    parse_kas_chars(raw)
                } else {
                    match parse_u64(raw) {
                        Some(sompi) => Ok(sompi),
                        None => Err(AmountError::InvalidIntegerText),
                    }
                }
            },
        }
    }
}

/// Text made of digits alone is the amount in sompi: the number it writes,
/// not scaled, wherever that fits in 64 bits.
pub proof fn lemma_bare_text_is_sompi(text: String)
    requires
        text@.len() > 0,
        all_digits(text@),
        digits_value(text@) <= u64::MAX,
    ensures
        AmountField::KasString(text).resolved() == Ok::<u64, AmountError>(
            digits_value(text@) as u64,
        ),
{
    lemma_digits_are_plain(text@);
}

/// Text made of digits, a `.` and at most eight more digits is an amount in
/// KAS: its whole part counts `SOMPI_PER_KAS` times, wherever the amount fits
/// in 64 bits. So the same digits resolve to another magnitude once a `.`
/// follows them.
pub proof fn lemma_dotted_text_is_kas(text: String, whole: Seq<char>, fraction: Seq<char>)
    requires
        text@ == whole + seq!['.'] + fraction,
        whole.len() > 0,
        all_digits(whole),
        all_digits(fraction),
        fraction.len() <= KAS_DECIMALS,
        digits_value(whole) * SOMPI_PER_KAS + digits_value(pad_zeros(fraction, KAS_DECIMALS as nat))
            <= u64::MAX,
    ensures
        AmountField::KasString(text).resolved() == Ok::<u64, AmountError>(
            (digits_value(whole) * SOMPI_PER_KAS + digits_value(
                pad_zeros(fraction, KAS_DECIMALS as nat),
            )) as u64,
        ),
{
    lemma_segments(whole, fraction);
    lemma_decimal_amount(whole, fraction);
    assert(text@[whole.len() as int] == '.');
}

} // verus!
