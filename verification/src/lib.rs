//! A minimal single-authority ledger: a chain of blocks of signed
//! value-transfer records, secured by a proof-of-work puzzle and
//! secp256k1 signatures.

pub mod block;
pub mod blockchain;
pub mod clock;
pub mod digest;
pub mod hexfmt;
pub mod keys;
pub mod numfmt;
pub mod protocol;
pub mod text;
pub mod transaction;
pub mod wallet;
