//! Wallets: a secp256k1 key pair held as hex text, with the address
//! derived as the hex of the compressed public key point.

use vstd::prelude::*;

use crate::hexfmt::{
    decoded_hex, hex_decode, hex_encode, hex_of, is_hex_str, lemma_decoded_hex_of,
    lemma_hex_of_is_hex_str, lemma_hex_of_len,
};
use crate::keys::{generate_keypair, pubkey_of, valid_scalar};

verus! {

/// The abstract value of a wallet.
pub struct WalletView {
    pub private_key_hex: Seq<char>,
    pub address: Seq<char>,
}

/// A key pair held as hex text: the private scalar, and the address used
/// as account identity on the chain.
pub struct Wallet {
    pub private_key_hex: String,
    pub address: String,
}

impl View for Wallet {
    type V = WalletView;

    open spec fn view(&self) -> WalletView {
        WalletView { private_key_hex: self.private_key_hex@, address: self.address@ }
    }
}

/// A wallet is coherent when both fields are lowercase hex images of
/// their byte strings (so the key material round-trips through the
/// encoding), the private bytes read as a usable scalar, and the address
/// is exactly the hex of the compressed public key derived from it.
pub open spec fn wallet_wf(w: WalletView) -> bool {
    &&& is_hex_str(w.private_key_hex)
    &&& w.private_key_hex.len() == 64
    &&& w.private_key_hex == hex_of(decoded_hex(w.private_key_hex))
    &&& valid_scalar(decoded_hex(w.private_key_hex))
    &&& is_hex_str(w.address)
    &&& w.address.len() == 66
    &&& w.address == hex_of(decoded_hex(w.address))
    &&& w.address == hex_of(pubkey_of(decoded_hex(w.private_key_hex)))
}

impl Wallet {
    /// A fresh wallet over a newly generated key pair.
    pub fn new() -> (r: Wallet)
        ensures
            wallet_wf(r@),
    {
        let (sk, pk) = generate_keypair();
        let private_key_hex = hex_encode(&sk);
        let address = hex_encode(&pk);
        proof {
            lemma_hex_of_len(sk@);
            lemma_hex_of_is_hex_str(sk@);
            lemma_decoded_hex_of(sk@);
            lemma_hex_of_len(pk@);
            lemma_hex_of_is_hex_str(pk@);
            lemma_decoded_hex_of(pk@);
            assert(decoded_hex(address@) == pk@);
        }
        Wallet { private_key_hex, address }
    }

    /// The private key as hex text.
    pub fn get_private_key_hex(&self) -> (r: &str)
        ensures
            r@ == self@.private_key_hex,
    {
        self.private_key_hex.as_str()
    }

    /// The raw private scalar bytes read back from the stored hex;
    /// absent exactly when the stored text is not hex.
    pub fn to_signing_key(&self) -> (r: Option<Vec<u8>>)
        ensures
            r is Some <==> is_hex_str(self@.private_key_hex),
            r matches Some(b) ==> b@ == decoded_hex(self@.private_key_hex),
    {
        hex_decode(self.private_key_hex.as_str())
    }

    /// The raw public key bytes read back from the address; absent
    /// exactly when the address is not hex.
    pub fn to_verifying_key(&self) -> (r: Option<Vec<u8>>)
        ensures
            r is Some <==> is_hex_str(self@.address),
            r matches Some(b) ==> b@ == decoded_hex(self@.address),
    {
        hex_decode(self.address.as_str())
    }

    /// The wallet's address: the hex of the compressed public key.
    pub fn get_address(&self) -> (r: &str)
        ensures
            r@ == self@.address,
    {
        self.address.as_str()
    }
}

impl Clone for Wallet {
    /// The copy carries the same field values.
    fn clone(&self) -> (r: Self)
        ensures
            r@ == self@,
    {
        Wallet {
            private_key_hex: self.private_key_hex.clone(),
            address: self.address.clone(),
        }
    }
}

} // verus!
