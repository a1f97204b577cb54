//! Signed value-transfer records: the signing hash, the signing step and
//! the validity check, each pinned to a specification over the record's
//! view.

use vstd::prelude::*;
use vstd::string::{StrSliceExecFns, StringExecFns};

use crate::clock::now_timestamp;
use crate::digest::{sha256_hex, sha256_hex_digest};
use crate::hexfmt::{
    decoded_hex, hex_decode, hex_encode, is_hex_str, lemma_decoded_hex_len, lemma_decoded_hex_of,
    lemma_hex_of_is_hex_str, lemma_hex_of_len,
};
use crate::keys::{
    ecdsa_sig_of, ecdsa_sign_hash, ecdsa_verify_hash, ecdsa_verify_ok, pubkey_of, valid_scalar,
};
use crate::numfmt::{dec_str_int, dec_str_nat, i64_to_dec, u64_to_dec};
use crate::text::str_eq;

verus! {

/// The sender string that marks a mining-reward record.
pub open spec fn coinbase_sender() -> Seq<char> {
    "coinbase_reward"@
}

/// The signature string that marks a reward record as deliberately
/// unsigned.
pub open spec fn coinbase_signature() -> Seq<char> {
    "UNSIGNED_COINBASE_TX"@
}

/// The abstract value of a transaction: its strings as character
/// sequences.
pub struct TxView {
    pub sender: Seq<char>,
    pub recipient: Seq<char>,
    pub amount: u64,
    pub timestamp: i64,
    pub public_key: Seq<char>,
    pub signature: Seq<char>,
}

/// A value transfer: from `sender` to `recipient`, signed over the hash
/// of its four core fields. A reward record uses the coinbase sentinels
/// instead of a signature.
pub struct Transaction {
    pub sender: String,
    pub recipient: String,
    pub amount: u64,
    pub timestamp: i64,
    pub public_key: String,
    pub signature: String,
}

impl View for Transaction {
    type V = TxView;

    open spec fn view(&self) -> TxView {
        TxView {
            sender: self.sender@,
            recipient: self.recipient@,
            amount: self.amount,
            timestamp: self.timestamp,
            public_key: self.public_key@,
            signature: self.signature@,
        }
    }
}

impl DeepView for Transaction {
    type V = TxView;

    open spec fn deep_view(&self) -> TxView {
        self.view()
    }
}

/// The text whose digest is signed: the four core fields rendered and
/// concatenated without delimiters.
pub open spec fn signing_payload(t: TxView) -> Seq<char> {
    t.sender + t.recipient + dec_str_nat(t.amount as nat) + dec_str_int(t.timestamp as int)
}

/// The hex digest of the signing payload: the record's content identity
/// and the exact bytes that are signed.
pub open spec fn signing_hash(t: TxView) -> Seq<char> {
    sha256_hex(signing_payload(t))
}

/// When a transaction validates. A coinbase record needs the sentinel
/// signature, a recipient and a positive amount; any other record needs
/// non-empty fields, a sender equal to its public key, well-formed hex,
/// a 64-byte signature, and a signature that verifies over the signing
/// hash.
pub open spec fn tx_valid(t: TxView) -> bool {
    if t.sender == coinbase_sender() {
        t.signature == coinbase_signature() && t.recipient.len() > 0 && t.amount > 0
    } else {
        &&& t.public_key.len() > 0
        &&& t.signature.len() > 0
        &&& t.amount > 0
        &&& t.sender.len() > 0
        &&& t.recipient.len() > 0
        &&& t.sender == t.public_key
        &&& is_hex_str(t.public_key)
        &&& is_hex_str(t.signature)
        &&& decoded_hex(t.signature).len() == 64
        &&& ecdsa_verify_ok(
            decoded_hex(t.public_key),
            decoded_hex(signing_hash(t)),
            decoded_hex(t.signature),
        )
    }
}

impl Transaction {
    /// An unsigned transfer, stamped with the current time.
    pub fn new(sender: String, recipient: String, amount: u64) -> (r: Transaction)
        ensures
            r@.sender == sender@,
            r@.recipient == recipient@,
            r@.amount == amount,
            r@.public_key.len() == 0,
            r@.signature.len() == 0,
    {
        Transaction {
            sender,
            recipient,
            amount,
            timestamp: now_timestamp(),
            public_key: String::new(),
            signature: String::new(),
        }
    }

    /// The hex digest of the four core fields, in field order, with no
    /// delimiters.
    pub fn calculate_hash_for_signing(&self) -> (r: String)
        ensures
            r@ == signing_hash(self@),
            r@.len() == 64,
            is_hex_str(r@),
    {
        let mut data = String::new();
        data.append(self.sender.as_str());
        data.append(self.recipient.as_str());
        let amount_str = u64_to_dec(self.amount);
        data.append(amount_str.as_str());
        let ts_str = i64_to_dec(self.timestamp);
        data.append(ts_str.as_str());
        proof {
            assert(data@ =~= signing_payload(self@));
        }
        sha256_hex_digest(data.as_str())
    }

    /// Sign the record. A coinbase record takes the sentinel signature and
    /// the given public-key string without any cryptography. Any other
    /// record is signed over its signing hash with the given private
    /// scalar; this succeeds exactly when the scalar bytes are usable,
    /// and on failure the record is unchanged.
    ///
    /// The last clause is the correctness of the lifecycle: a transfer
    /// whose sender is the address of the signing key, with a recipient
    /// and a positive amount, validates once signed.
    pub fn sign(&mut self, signing_key: &Vec<u8>, public_key_hex: String) -> (ok: bool)
        ensures
            final(self)@.sender == old(self)@.sender,
            final(self)@.recipient == old(self)@.recipient,
            final(self)@.amount == old(self)@.amount,
            final(self)@.timestamp == old(self)@.timestamp,
            old(self)@.sender == coinbase_sender() ==> {
                &&& ok
                &&& final(self)@.public_key == public_key_hex@
                &&& final(self)@.signature == coinbase_signature()
            },
            old(self)@.sender != coinbase_sender() ==> {
                &&& (ok <==> valid_scalar(signing_key@))
                &&& ok ==> final(self)@.public_key == public_key_hex@
                    && final(self)@.signature == crate::hexfmt::hex_of(
                        ecdsa_sig_of(signing_key@, decoded_hex(signing_hash(old(self)@))),
                    )
                &&& !ok ==> final(self)@ == old(self)@
            },
            (ok && old(self)@.sender != coinbase_sender() && public_key_hex@ == crate::hexfmt::hex_of(
                pubkey_of(signing_key@),
            ) && old(self)@.sender == public_key_hex@ && old(self)@.sender.len() > 0
                && old(self)@.amount > 0 && old(self)@.recipient.len() > 0) ==> tx_valid(
                final(self)@,
            ),
    {
        if str_eq(self.sender.as_str(), "coinbase_reward") {
            self.public_key = public_key_hex;
            self.signature = String::from_str("UNSIGNED_COINBASE_TX");
            return true;
        }
        let hash_hex = self.calculate_hash_for_signing();
        let msg = match hex_decode(hash_hex.as_str()) {
            Some(m) => m,
            None => {
                return false;
            },
        };
        proof {
            lemma_decoded_hex_len(hash_hex@);
        }
        match ecdsa_sign_hash(signing_key, &msg) {
            Some(sig) => {
                let sig_hex = hex_encode(&sig);
                self.signature = sig_hex;
                self.public_key = public_key_hex;
                proof {
                    lemma_hex_of_len(sig@);
                    lemma_hex_of_is_hex_str(sig@);
                    lemma_decoded_hex_of(sig@);
                    lemma_hex_of_len(pubkey_of(signing_key@));
                    lemma_hex_of_is_hex_str(pubkey_of(signing_key@));
                    lemma_decoded_hex_of(pubkey_of(signing_key@));
                }
                true
            },
            None => false,
        }
    }

    /// Whether the record validates; exactly the predicate `tx_valid` on
    /// its view. Never panics and never reads account balances.
    pub fn is_valid(&self) -> (r: bool)
        ensures
            r == tx_valid(self@),
    {
        if str_eq(self.sender.as_str(), "coinbase_reward") {
            return str_eq(self.signature.as_str(), "UNSIGNED_COINBASE_TX")
                && !self.recipient.as_str().is_empty() && self.amount > 0;
        }
        if self.public_key.as_str().is_empty() || self.signature.as_str().is_empty() {
            return false;
        }
        if self.amount == 0 {
            return false;
        }
        if self.sender.as_str().is_empty() || self.recipient.as_str().is_empty() {
            return false;
        }
        if !str_eq(self.sender.as_str(), self.public_key.as_str()) {
            return false;
        }
        let pk = match hex_decode(self.public_key.as_str()) {
            Some(b) => b,
            None => {
                return false;
            },
        };
        let sig = match hex_decode(self.signature.as_str()) {
            Some(b) => b,
            None => {
                return false;
            },
        };
        if sig.len() != 64 {
            return false;
        }
        let hash_hex = self.calculate_hash_for_signing();
        let msg = match hex_decode(hash_hex.as_str()) {
            Some(b) => b,
            None => {
                return false;
            },
        };
        ecdsa_verify_hash(&pk, &msg, &sig)
    }
}

impl Clone for Transaction {
    /// The copy carries the same field values.
    fn clone(&self) -> (r: Self)
        ensures
            r@ == self@,
    {
        Transaction {
            sender: self.sender.clone(),
            recipient: self.recipient.clone(),
            amount: self.amount,
            timestamp: self.timestamp,
            public_key: self.public_key.clone(),
            signature: self.signature.clone(),
        }
    }
}

/// A non-coinbase record whose sender differs from its public key never
/// validates.
pub proof fn lemma_sender_mismatch_invalid(t: TxView)
    requires
        t.sender != coinbase_sender(),
        t.sender != t.public_key,
    ensures
        !tx_valid(t),
{
}

/// The signing hash is a function of the four core fields alone: records
/// that agree on them have the same hash.
pub proof fn lemma_signing_hash_deterministic(t1: TxView, t2: TxView)
    requires
        t1.sender == t2.sender,
        t1.recipient == t2.recipient,
        t1.amount == t2.amount,
        t1.timestamp == t2.timestamp,
    ensures
        signing_hash(t1) == signing_hash(t2),
{
}

} // verus!
