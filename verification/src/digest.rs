//! The content digest behind every hash in the chain, named as an
//! uninterpreted function and computed by the `sha256` crate.

use vstd::prelude::*;
use crate::hexfmt::is_hex_str;

verus! {

/// What SHA-256, rendered as lowercase hex, returns for a given text:
/// a function of the input alone.
pub uninterp spec fn sha256_hex(data: Seq<char>) -> Seq<char>;

/// Relies on `sha256::digest`: the SHA-256 digest of the input's UTF-8
/// bytes, rendered as 64 lowercase hex digits.
#[verifier::external_body]
pub fn sha256_hex_digest(data: &str) -> (r: String)
    ensures
        r@ == sha256_hex(data@),
        r@.len() == 64,
        is_hex_str(r@),
{
    sha256::digest(data)
}

} // verus!
