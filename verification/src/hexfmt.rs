//! Hex encoding and decoding of byte strings, as specifications over
//! sequences, with trusted wrappers around the `hex` crate.

use vstd::prelude::*;

verus! {

/// A hex digit character, in either case.
pub open spec fn is_hex_digit(c: char) -> bool {
    ('0' <= c && c <= '9') || ('a' <= c && c <= 'f') || ('A' <= c && c <= 'F')
}

/// The numeric value of a hex digit (0 for any other character).
pub open spec fn hex_digit_val(c: char) -> int {
    if '0' <= c && c <= '9' {
        c as int - '0' as int
    } else if 'a' <= c && c <= 'f' {
        10 + c as int - 'a' as int
    } else if 'A' <= c && c <= 'F' {
        10 + c as int - 'A' as int
    } else {
        0
    }
}

/// The lowercase hex digit for a value below sixteen.
pub open spec fn hex_digit_char(v: int) -> char {
    if v == 0 { '0' }
    else if v == 1 { '1' }
    else if v == 2 { '2' }
    else if v == 3 { '3' }
    else if v == 4 { '4' }
    else if v == 5 { '5' }
    else if v == 6 { '6' }
    else if v == 7 { '7' }
    else if v == 8 { '8' }
    else if v == 9 { '9' }
    else if v == 10 { 'a' }
    else if v == 11 { 'b' }
    else if v == 12 { 'c' }
    else if v == 13 { 'd' }
    else if v == 14 { 'e' }
    else if v == 15 { 'f' }
    else { '0' }
}

/// An even-length string of hex digits: exactly the strings that decode.
pub open spec fn is_hex_str(s: Seq<char>) -> bool {
    s.len() % 2 == 0 && forall|i: int| 0 <= i < s.len() ==> is_hex_digit(#[trigger] s[i])
}

/// The lowercase hex rendering of a byte string, two digits per byte.
pub open spec fn hex_of(b: Seq<u8>) -> Seq<char>
    decreases b.len(),
{
    if b.len() == 0 {
        Seq::empty()
    } else {
        seq![hex_digit_char(b.first() as int / 16), hex_digit_char(b.first() as int % 16)]
            + hex_of(b.drop_first())
    }
}

/// The bytes read from a string of hex digit pairs.
pub open spec fn decoded_hex(s: Seq<char>) -> Seq<u8>
    decreases s.len(),
{
    if s.len() < 2 {
        Seq::empty()
    } else {
        seq![(16 * hex_digit_val(s[0]) + hex_digit_val(s[1])) as u8] + decoded_hex(s.skip(2))
    }
}

pub proof fn lemma_hex_of_len(b: Seq<u8>)
    ensures
        hex_of(b).len() == 2 * b.len(),
    decreases b.len(),
{
    if b.len() > 0 {
        lemma_hex_of_len(b.drop_first());
    }
}

pub proof fn lemma_hex_of_is_hex_str(b: Seq<u8>)
    ensures
        is_hex_str(hex_of(b)),
    decreases b.len(),
{
    if b.len() > 0 {
        lemma_hex_of_is_hex_str(b.drop_first());
        lemma_hex_of_len(b.drop_first());
        assert forall|i: int| 0 <= i < hex_of(b).len() implies is_hex_digit(
            #[trigger] hex_of(b)[i],
        ) by {
            if i >= 2 {
                assert(hex_of(b)[i] == hex_of(b.drop_first())[i - 2]);
            }
        }
    }
}

/// Decoding inverts encoding: the round trip over bytes is the identity.
pub proof fn lemma_decoded_hex_of(b: Seq<u8>)
    ensures
        decoded_hex(hex_of(b)) == b,
    decreases b.len(),
{
    if b.len() == 0 {
        assert(decoded_hex(hex_of(b)) =~= b);
    } else {
        lemma_decoded_hex_of(b.drop_first());
        lemma_hex_of_len(b.drop_first());
        let s = hex_of(b);
        assert(s.skip(2) =~= hex_of(b.drop_first()));
        assert(16 * hex_digit_val(s[0]) + hex_digit_val(s[1]) == b.first());
        assert(decoded_hex(s) =~= b);
    }
}

pub proof fn lemma_decoded_hex_len(s: Seq<char>)
    requires
        s.len() % 2 == 0,
    ensures
        decoded_hex(s).len() == s.len() / 2,
    decreases s.len(),
{
    if s.len() >= 2 {
        lemma_decoded_hex_len(s.skip(2));
    }
}

/// Relies on `hex::encode`: two lowercase hex digits for each input byte,
/// in input order.
#[verifier::external_body]
pub fn hex_encode(bytes: &Vec<u8>) -> (r: String)
    ensures
        r@ == hex_of(bytes@),
{
    hex::encode(bytes)
}

/// Relies on `hex::decode`: it succeeds exactly on even-length strings of
/// hex digits, in either case, and reads each digit pair as one byte.
#[verifier::external_body]
pub fn hex_decode(s: &str) -> (r: Option<Vec<u8>>)
    ensures
        r is Some <==> is_hex_str(s@),
        r matches Some(b) ==> b@ == decoded_hex(s@),
{
    match hex::decode(s) {
        Ok(b) => Some(b),
        Err(_) => None,
    }
}

} // verus!
