//! Durations: kept exactly, in nanoseconds, and written in seconds with a
//! decimal fraction.

use crate::naming::{
    decimal, decimal_string, decimal_value, lemma_decimal_value, lemma_zero_padded_value,
    zero_padded, zero_padded_string,
};
use crate::settings::NANOSECONDS_PER_SECOND;
use vstd::prelude::*;
use vstd::string::*;

verus! {

/// The number of digits behind the decimal point that a nanosecond takes.
pub const FRACTION_WIDTH: usize = 9;

/// Ten to the power of `exponent`.
pub open spec fn pow10(exponent: nat) -> nat
    decreases exponent,
{
    if exponent == 0 {
        1
    } else {
        10 * pow10((exponent - 1) as nat)
    }
}

/// The digits behind the decimal point of a fraction given as a number of
/// units of which ten to the power of `width` make one: the number padded
/// with zeros to `width` digits, without the zeros at its end.
pub open spec fn fraction_digits(fraction: nat, width: nat) -> Seq<char>
    decreases width,
{
    if width > 0 && fraction % 10 == 0 {
        fraction_digits(fraction / 10, (width - 1) as nat)
    } else {
        zero_padded(fraction, width)
    }
}

/// A duration of so many nanoseconds, written in seconds: the whole seconds
/// in decimal and, unless the rest is zero, a point and the digits of the
/// rest. Six and a half seconds are `6.5`, six seconds are `6`.
pub open spec fn seconds_text(nanoseconds: nat) -> Seq<char> {
    let whole = nanoseconds / (NANOSECONDS_PER_SECOND as nat);
    let fraction = nanoseconds % (NANOSECONDS_PER_SECOND as nat);
    if fraction == 0 {
        decimal(whole)
    } else {
        decimal(whole) + "."@ + fraction_digits(fraction, FRACTION_WIDTH as nat)
    }
}

/// A nanosecond is the ninth decimal place of a second.
pub proof fn lemma_nanoseconds_per_second()
    ensures
        pow10(FRACTION_WIDTH as nat) == NANOSECONDS_PER_SECOND,
{
    reveal_with_fuel(pow10, 10);
}

/// A number below ten to the power of `width` has at most `width` digits.
pub proof fn lemma_decimal_len_bound(n: nat, width: nat)
    requires
        width >= 1,
        n < pow10(width),
    ensures
        decimal(n).len() <= width,
    decreases width,
{
    if n >= 10 {
        assert(width >= 2) by {
            reveal_with_fuel(pow10, 2);
        }
        lemma_decimal_len_bound(n / 10, (width - 1) as nat);
    }
}

/// The digits of a fraction lose nothing: they are at most `width` digits,
/// and the number they write, followed by as many zeros as were left off, is
/// the fraction. Their last digit is no zero.
pub proof fn lemma_fraction_digits_value(fraction: nat, width: nat)
    requires
        0 < fraction < pow10(width),
    ensures
        1 <= fraction_digits(fraction, width).len() <= width,
        decimal_value(fraction_digits(fraction, width)) * pow10(
            (width - fraction_digits(fraction, width).len()) as nat,
        ) == fraction,
        fraction_digits(fraction, width).last() != '0',
    decreases width,
{
    assert(width >= 1);
    if fraction % 10 == 0 {
        let rest = fraction / 10;
        lemma_fraction_digits_value(rest, (width - 1) as nat);
        let digits = fraction_digits(rest, (width - 1) as nat);
        let left_off = (width - 1 - digits.len()) as nat;
        assert(pow10((width - digits.len()) as nat) == 10 * pow10(left_off));
        assert(decimal_value(digits) * (10 * pow10(left_off)) == 10 * (decimal_value(digits)
            * pow10(left_off))) by (nonlinear_arith);
    } else {
        lemma_zero_padded_value(fraction, width);
        lemma_decimal_len_bound(fraction, width);
        lemma_decimal_value(fraction);
        let digits = zero_padded(fraction, width);
        assert(digits.len() == width);
        assert(digits.last() == decimal(fraction).last());
        lemma_last_digit(fraction);
        let one = pow10((width - digits.len()) as nat);
        assert(one == 1);
        assert(decimal_value(digits) * one == decimal_value(digits)) by (nonlinear_arith)
            requires
                one == 1,
        ;
    }
}

/// The last digit written for a number is a zero only if ten divides the
/// number.
pub proof fn lemma_last_digit(n: nat)
    ensures
        decimal(n).last() == '0' ==> n % 10 == 0,
{
}

/// A whole number of seconds is written without a fraction.
pub proof fn lemma_whole_seconds_text(seconds: nat)
    ensures
        seconds_text(seconds * (NANOSECONDS_PER_SECOND as nat)) == decimal(seconds),
{
    let nanoseconds = seconds * 1_000_000_000;
    assert(nanoseconds / 1_000_000_000 == seconds && nanoseconds % 1_000_000_000 == 0)
        by (nonlinear_arith)
        requires
            nanoseconds == seconds * 1_000_000_000,
    ;
}

/// Writes the digits of a fraction of `width` decimal places.
pub fn fraction_string(fraction: u64, width: usize) -> (s: String)
    ensures
        s@ == fraction_digits(fraction as nat, width as nat),
{
    let mut rest: u64 = fraction;
    let mut places: usize = width;
    while places > 0 && rest % 10 == 0
        invariant
            fraction_digits(rest as nat, places as nat) == fraction_digits(
                fraction as nat,
                width as nat,
            ),
        decreases places,
    {
        rest = rest / 10;
        places = places - 1;
    }
    zero_padded_string(rest, places)
}

/// Writes a duration of so many nanoseconds in seconds.
pub fn seconds_string(nanoseconds: u64) -> (s: String)
    ensures
        s@ == seconds_text(nanoseconds as nat),
{
    let whole: u64 = nanoseconds / NANOSECONDS_PER_SECOND;
    let fraction: u64 = nanoseconds % NANOSECONDS_PER_SECOND;
    let mut s = decimal_string(whole);
    if fraction != 0 {
        s.append(".");
        s.append(fraction_string(fraction, FRACTION_WIDTH).as_str());
    }
    s
}

} // verus!
