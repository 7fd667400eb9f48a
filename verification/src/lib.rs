//! Signing primitives for a decentralized exchange protocol: deterministic
//! canonical hashing of trading actions into a 32-byte connection id, EIP-712
//! domain, struct-hash and digest construction over fixed and caller-supplied
//! schemas, ECDSA signing over the resulting digest, and EIP-55 address
//! formatting. Every operation is a pure function of its arguments; the
//! byte-level encodings are stated in the contracts.

pub mod bytesfmt;
pub mod msgpack;
pub mod action;
pub mod api;
pub mod crypto;
pub mod checksum;
pub mod eip712;
pub mod hash;
pub mod multisig;
pub mod typed;
pub mod error;

pub use api::chain;

