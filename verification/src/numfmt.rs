//! Decimal rendering of the integer fields that enter a digest payload,
//! specified over sequences and carried out by std's formatting.

use vstd::prelude::*;

verus! {

/// The decimal digit for a value below ten.
pub open spec fn dec_digit_char(v: int) -> char {
    if v == 0 { '0' }
    else if v == 1 { '1' }
    else if v == 2 { '2' }
    else if v == 3 { '3' }
    else if v == 4 { '4' }
    else if v == 5 { '5' }
    else if v == 6 { '6' }
    else if v == 7 { '7' }
    else if v == 8 { '8' }
    else if v == 9 { '9' }
    else { '0' }
}

/// The decimal rendering of a natural number, most significant digit first.
pub open spec fn dec_str_nat(n: nat) -> Seq<char>
    decreases n,
{
    if n < 10 {
        seq![dec_digit_char(n as int)]
    } else {
        dec_str_nat(n / 10) + seq![dec_digit_char((n % 10) as int)]
    }
}

/// The decimal rendering of a signed number: a minus sign before the
/// magnitude when negative.
pub open spec fn dec_str_int(n: int) -> Seq<char> {
    if n >= 0 {
        dec_str_nat(n as nat)
    } else {
        seq!['-'] + dec_str_nat((-n) as nat)
    }
}

/// Relies on `u64`'s `Display` implementation: the decimal digits of the
/// value, no sign, no padding.
#[verifier::external_body]
pub fn u64_to_dec(n: u64) -> (r: String)
    ensures
        r@ == dec_str_nat(n as nat),
{
    n.to_string()
}

/// Relies on `i64`'s `Display` implementation: the decimal digits of the
/// value, with a leading minus sign when negative.
#[verifier::external_body]
pub fn i64_to_dec(n: i64) -> (r: String)
    ensures
        r@ == dec_str_int(n as int),
{
    n.to_string()
}

} // verus!
