use faucet_config::amount::{
    pad_with_zeros, parse_kas_chars, parse_kas_to_sompi, KAS_DECIMALS, SOMPI_PER_KAS,
};
use faucet_config::error::AmountError;

#[test]
fn one_and_a_half_kas() {
    assert_eq!(parse_kas_to_sompi("1.5"), Ok(150_000_000));
}

#[test]
fn one_sompi() {
    assert_eq!(parse_kas_to_sompi("0.00000001"), Ok(1));
}

#[test]
fn whole_number_without_point() {
    assert_eq!(parse_kas_to_sompi("100"), Ok(10_000_000_000));
}

#[test]
fn whole_number_with_trailing_point() {
    assert_eq!(parse_kas_to_sompi("100."), Ok(10_000_000_000));
    assert_eq!(parse_kas_to_sompi("100."), parse_kas_to_sompi("100"));
}

#[test]
fn whole_and_fraction_add_up() {
    assert_eq!(parse_kas_to_sompi("12.345"), Ok(12 * SOMPI_PER_KAS + 34_500_000));
    assert_eq!(parse_kas_to_sompi("12.345"), Ok(1_234_500_000));
    assert_eq!(parse_kas_to_sompi("0.12345678"), Ok(12_345_678));
    assert_eq!(parse_kas_to_sompi("7.00000000"), Ok(700_000_000));
    assert_eq!(parse_kas_to_sompi("007.1"), Ok(710_000_000));
    assert_eq!(parse_kas_to_sompi("0"), Ok(0));
    assert_eq!(parse_kas_to_sompi("0.0"), Ok(0));
}

#[test]
fn constants() {
    assert_eq!(SOMPI_PER_KAS, 100_000_000);
    assert_eq!(KAS_DECIMALS, 8);
}

#[test]
fn empty_text_is_refused() {
    assert_eq!(parse_kas_to_sompi(""), Err(AmountError::EmptyAmount));
}

#[test]
fn whitespace_alone_is_refused() {
    assert_eq!(parse_kas_to_sompi("   "), Err(AmountError::EmptyAmount));
    assert_eq!(parse_kas_to_sompi("\t\n\u{a0}\u{3000}"), Err(AmountError::EmptyAmount));
}

#[test]
fn two_points_are_refused() {
    assert_eq!(parse_kas_to_sompi("1.2.3"), Err(AmountError::TooManyDecimalPoints));
    assert_eq!(parse_kas_to_sompi("1.."), Err(AmountError::TooManyDecimalPoints));
    assert_eq!(parse_kas_to_sompi(".."), Err(AmountError::TooManyDecimalPoints));
}

#[test]
fn points_are_counted_before_the_parts_are_read() {
    assert_eq!(parse_kas_to_sompi("a.b.c"), Err(AmountError::TooManyDecimalPoints));
    assert_eq!(parse_kas_to_sompi("1.123456789.0"), Err(AmountError::TooManyDecimalPoints));
}

#[test]
fn nine_decimals_are_refused() {
    assert_eq!(parse_kas_to_sompi("1.123456789"), Err(AmountError::TooManyDecimals));
    assert_eq!(parse_kas_to_sompi("1.000000000"), Err(AmountError::TooManyDecimals));
}

#[test]
fn eight_decimals_are_taken() {
    assert_eq!(parse_kas_to_sompi("1.12345678"), Ok(112_345_678));
}

#[test]
fn decimals_are_counted_in_bytes() {
    // five letters of two bytes each
    assert_eq!(
        parse_kas_to_sompi("1.\u{e9}\u{e9}\u{e9}\u{e9}\u{e9}"),
        Err(AmountError::TooManyDecimals)
    );
    // four of them: eight bytes, and no digits
    assert_eq!(
        parse_kas_to_sompi("1.\u{e9}\u{e9}\u{e9}\u{e9}"),
        Err(AmountError::InvalidFractionalPart)
    );
    // three bytes, then four bytes, then two digits: nine bytes
    assert_eq!(parse_kas_to_sompi("1.\u{20ac}\u{1f600}12"), Err(AmountError::TooManyDecimals));
    assert_eq!(parse_kas_to_sompi("1.\u{20ac}\u{1f600}1"), Err(AmountError::InvalidFractionalPart));
}

#[test]
fn whole_part_must_be_digits() {
    assert_eq!(parse_kas_to_sompi("abc"), Err(AmountError::InvalidWholePart));
    assert_eq!(parse_kas_to_sompi("1a.5"), Err(AmountError::InvalidWholePart));
    assert_eq!(parse_kas_to_sompi("1 2.5"), Err(AmountError::InvalidWholePart));
    assert_eq!(parse_kas_to_sompi("1_000"), Err(AmountError::InvalidWholePart));
    assert_eq!(parse_kas_to_sompi("\u{661}"), Err(AmountError::InvalidWholePart));
}

#[test]
fn whole_part_must_not_be_missing() {
    assert_eq!(parse_kas_to_sompi(".5"), Err(AmountError::InvalidWholePart));
    assert_eq!(parse_kas_to_sompi("."), Err(AmountError::InvalidWholePart));
    assert_eq!(parse_kas_to_sompi(" . 5"), Err(AmountError::InvalidWholePart));
}

#[test]
fn signs_are_refused() {
    assert_eq!(parse_kas_to_sompi("-1"), Err(AmountError::InvalidWholePart));
    assert_eq!(parse_kas_to_sompi("-1.5"), Err(AmountError::InvalidWholePart));
    assert_eq!(parse_kas_to_sompi("+1"), Err(AmountError::InvalidWholePart));
    assert_eq!(parse_kas_to_sompi("-0.00000000"), Err(AmountError::InvalidWholePart));
    assert_eq!(parse_kas_to_sompi("1.-5"), Err(AmountError::InvalidFractionalPart));
    assert_eq!(parse_kas_to_sompi("1.+5"), Err(AmountError::InvalidFractionalPart));
}

#[test]
fn whole_part_must_fit_in_64_bits() {
    assert_eq!(parse_kas_to_sompi("18446744073709551616"), Err(AmountError::InvalidWholePart));
    assert_eq!(parse_kas_to_sompi("99999999999999999999.5"), Err(AmountError::InvalidWholePart));
}

#[test]
fn fraction_must_be_digits() {
    assert_eq!(parse_kas_to_sompi("1.5x"), Err(AmountError::InvalidFractionalPart));
    assert_eq!(parse_kas_to_sompi("1.x"), Err(AmountError::InvalidFractionalPart));
    assert_eq!(parse_kas_to_sompi("1.1 2"), Err(AmountError::InvalidFractionalPart));
    assert_eq!(parse_kas_to_sompi("1.1e3"), Err(AmountError::InvalidFractionalPart));
}

#[test]
fn whole_part_is_read_before_the_fraction() {
    assert_eq!(parse_kas_to_sompi("x.123456789"), Err(AmountError::InvalidWholePart));
    assert_eq!(parse_kas_to_sompi("x.y"), Err(AmountError::InvalidWholePart));
}

#[test]
fn fraction_is_read_before_the_amount_is_scaled() {
    assert_eq!(parse_kas_to_sompi("184467440738.123456789"), Err(AmountError::TooManyDecimals));
    assert_eq!(parse_kas_to_sompi("184467440738.x"), Err(AmountError::InvalidFractionalPart));
}

#[test]
fn scaled_whole_part_must_fit_in_64_bits() {
    assert_eq!(parse_kas_to_sompi("184467440738"), Err(AmountError::AmountOverflow));
    assert_eq!(parse_kas_to_sompi("184467440738.0"), Err(AmountError::AmountOverflow));
    assert_eq!(parse_kas_to_sompi("18446744073709551615"), Err(AmountError::AmountOverflow));
}

#[test]
fn sum_must_fit_in_64_bits() {
    assert_eq!(parse_kas_to_sompi("184467440737.09551616"), Err(AmountError::AmountOverflow));
    assert_eq!(parse_kas_to_sompi("184467440737.1"), Err(AmountError::AmountOverflow));
}

#[test]
fn largest_amount() {
    assert_eq!(parse_kas_to_sompi("184467440737.09551615"), Ok(u64::MAX));
    assert_eq!(parse_kas_to_sompi("184467440737"), Ok(18_446_744_073_700_000_000));
}

#[test]
fn whitespace_around_the_text_is_ignored() {
    assert_eq!(parse_kas_to_sompi("  1.5  "), Ok(150_000_000));
    assert_eq!(parse_kas_to_sompi("\t1.5\r\n"), Ok(150_000_000));
    assert_eq!(parse_kas_to_sompi("\u{3000}2\u{a0}"), Ok(200_000_000));
    assert_eq!(parse_kas_to_sompi("\u{2003}3.25\u{85}"), Ok(325_000_000));
}

#[test]
fn whitespace_around_the_point_is_ignored() {
    assert_eq!(parse_kas_to_sompi("1 . 5"), Ok(150_000_000));
    assert_eq!(parse_kas_to_sompi("1. 5 "), Ok(150_000_000));
    assert_eq!(parse_kas_to_sompi("1 ."), Ok(100_000_000));
    assert_eq!(parse_kas_to_sompi("1. "), Ok(100_000_000));
}

#[test]
fn zero_width_space_is_no_whitespace() {
    assert_eq!(parse_kas_to_sompi("\u{200b}1"), Err(AmountError::InvalidWholePart));
    assert_eq!(parse_kas_to_sompi("1.5\u{200b}"), Err(AmountError::InvalidFractionalPart));
}

#[test]
fn characters_are_read_like_text() {
    let text = " 3.14 ";
    let chars: Vec<char> = text.chars().collect();
    assert_eq!(parse_kas_chars(&chars), parse_kas_to_sompi(text));
    assert_eq!(parse_kas_chars(&chars), Ok(314_000_000));
    assert_eq!(parse_kas_chars(&[]), Err(AmountError::EmptyAmount));
}

#[test]
fn padding_fills_up_to_the_width() {
    assert_eq!(pad_with_zeros(&['5'], 8), vec!['5', '0', '0', '0', '0', '0', '0', '0']);
    assert_eq!(pad_with_zeros(&[], 3), vec!['0', '0', '0']);
    assert_eq!(pad_with_zeros(&['1', '2'], 2), vec!['1', '2']);
    assert_eq!(pad_with_zeros(&['1', '2', '3'], 2), vec!['1', '2', '3']);
    assert_eq!(pad_with_zeros(&['x'], 0), vec!['x']);
}

#[test]
fn padded_fraction_is_scaled_by_the_places_filled() {
    // 5 with seven places filled is 5 * 10^7
    assert_eq!(parse_kas_to_sompi("0.5"), Ok(50_000_000));
    assert_eq!(parse_kas_to_sompi("0.05"), Ok(5_000_000));
    assert_eq!(parse_kas_to_sompi("0.99999999"), Ok(SOMPI_PER_KAS - 1));
}
