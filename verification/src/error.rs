use vstd::prelude::*;

verus! {

/// Why an amount was rejected.
#[derive(Debug, Clone, Copy, PartialEq, Eq, Structural)]
pub enum AmountError {
    /// Nothing but whitespace was given where a decimal amount was expected.
    EmptyAmount,
    /// The text holds more than one `.`.
    TooManyDecimalPoints,
    /// The part before the `.` is not a run of decimal digits that fits in 64 bits.
    InvalidWholePart,
    /// The part after the `.` is longer than eight bytes.
    TooManyDecimals,
    /// The part after the `.` holds something other than decimal digits.
    InvalidFractionalPart,
    /// The amount in sompi does not fit in 64 bits.
    AmountOverflow,
    /// The floating-point amount is negative, infinite or not a number.
    InvalidFloatAmount,
    /// The text amount holds nothing but whitespace.
    EmptyTextAmount,
    /// The text amount has no `.` and is not a run of decimal digits that fits in 64 bits.
    InvalidIntegerText,
}

impl AmountError {
    /// The sentence shown to whoever wrote the configuration.
    pub open spec fn description(self) -> Seq<char> {
        match self {
            AmountError::EmptyAmount => "amount is empty"@,
            AmountError::TooManyDecimalPoints => "invalid amount: too many decimal points"@,
            AmountError::InvalidWholePart => "invalid amount: whole part is not a number"@,
            AmountError::TooManyDecimals => "invalid amount: max 8 decimal places"@,
            AmountError::InvalidFractionalPart => "invalid amount: fractional part is not a number"@,
            AmountError::AmountOverflow => "amount overflows u64"@,
            AmountError::InvalidFloatAmount => "amount_per_claim must be a finite number >= 0"@,
            AmountError::EmptyTextAmount => "amount_per_claim is empty"@,
            AmountError::InvalidIntegerText => "amount_per_claim must be a u64 sompi integer or a KAS decimal string"@,
        }
    }

    /// Returns the description as an owned string.
    pub fn message(&self) -> (text: String)
        ensures
            text@ == self.description(),
    {
        let literal: &str = match self {
            AmountError::EmptyAmount => "amount is empty",
            AmountError::TooManyDecimalPoints => "invalid amount: too many decimal points",
            AmountError::InvalidWholePart => "invalid amount: whole part is not a number",
            AmountError::TooManyDecimals => "invalid amount: max 8 decimal places",
            AmountError::InvalidFractionalPart => "invalid amount: fractional part is not a number",
            AmountError::AmountOverflow => "amount overflows u64",
            AmountError::InvalidFloatAmount => "amount_per_claim must be a finite number >= 0",
            AmountError::EmptyTextAmount => "amount_per_claim is empty",
            AmountError::InvalidIntegerText => "amount_per_claim must be a u64 sompi integer or a KAS decimal string",
        };
        literal.to_owned()
    }
}

} // verus!
