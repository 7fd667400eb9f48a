use vstd::prelude::*;
use crate::error::Error;

verus! {

/// The Keccak-256 digest of a byte sequence.
pub uninterp spec fn keccak_of(input: Seq<u8>) -> Seq<u8>;

/// Whether 32 bytes form a valid secp256k1 secret key (a nonzero scalar
/// below the curve order), as accepted by the signer's constructor.
pub uninterp spec fn secret_key_valid(key: Seq<u8>) -> bool;

/// The deterministic ECDSA signature of a 32-byte digest under a key:
/// the 32 big-endian bytes of `r`, the 32 big-endian bytes of `s`, and the
/// recovery parity bit.
pub uninterp spec fn ecdsa_signature(key: Seq<u8>, digest: Seq<u8>) -> (Seq<u8>, Seq<u8>, u8);

/// Whether deterministic ECDSA signing of a 32-byte digest under a valid key
/// succeeds. RFC 6979 derives the nonce from the key and the digest alone, so
/// success too is a function of the two; it fails only in the negligible case
/// that the derived nonce maps to a zero `r` or `s`.
pub uninterp spec fn ecdsa_sign_ok(key: Seq<u8>, digest: Seq<u8>) -> bool;

/// The 20-byte account address derived from a secret key.
pub uninterp spec fn account_of_key(key: Seq<u8>) -> Seq<u8>;

/// The raw parts of a recoverable ECDSA signature: 32-byte big-endian `r`
/// and `s`, and the recovery parity bit (0 or 1).
pub struct RawSignature {
    pub r: Vec<u8>,
    pub s: Vec<u8>,
    pub parity: u8,
}

/// Relies on alloy's keccak256: the Keccak-256 digest of the input, 32 bytes
/// determined by the input alone.
#[verifier::external_body]
pub fn keccak256(input: &Vec<u8>) -> (r: Vec<u8>)
    ensures
        r@ == keccak_of(input@),
        r@.len() == 32,
{
    alloy::primitives::keccak256(input.as_slice()).to_vec()
}

/// Relies on alloy's PrivateKeySigner::from_slice, which accepts exactly the
/// 32-byte scalars that are valid secp256k1 secret keys, and on
/// SignerSync::sign_hash_sync: deterministic (RFC 6979) ECDSA over secp256k1,
/// a function of the key and the digest alone — whether it returns at all is
/// therefore a function of the two as well.
#[verifier::external_body]
pub fn ecdsa_sign(key: &Vec<u8>, digest: &Vec<u8>) -> (r: Result<RawSignature, Error>)
    requires
        key@.len() == 32,
        digest@.len() == 32,
    ensures
        r is Ok <==> (secret_key_valid(key@) && ecdsa_sign_ok(key@, digest@)),
        r matches Ok(sig) ==> (sig.r@, sig.s@, sig.parity) == ecdsa_signature(key@, digest@)
            && sig.r@.len() == 32 && sig.s@.len() == 32 && sig.parity <= 1,
        !secret_key_valid(key@) ==> r matches Err(Error::Wallet(_)),
        (secret_key_valid(key@) && !ecdsa_sign_ok(key@, digest@)) ==> r matches Err(
            Error::SignatureFailure(_),
        ),
{
    let signer = match alloy::signers::local::PrivateKeySigner::from_slice(key.as_slice()) {
        Ok(s) => s,
        Err(e) => return Err(Error::Wallet(e.to_string())),
    };
    let hash = alloy::primitives::B256::from_slice(digest.as_slice());
    match alloy::signers::SignerSync::sign_hash_sync(&signer, &hash) {
        Ok(sig) => Ok(RawSignature {
            r: sig.r().to_be_bytes::<32>().to_vec(),
            s: sig.s().to_be_bytes::<32>().to_vec(),
            parity: if sig.v() { 1 } else { 0 },
        }),
        Err(e) => Err(Error::SignatureFailure(e.to_string())),
    }
}

/// Relies on alloy's PrivateKeySigner::from_slice and its address(): the
/// 20-byte account address, a function of the secret key alone; the
/// constructor fails exactly on invalid scalars.
#[verifier::external_body]
pub fn ecdsa_address(key: &Vec<u8>) -> (r: Result<Vec<u8>, Error>)
    requires
        key@.len() == 32,
    ensures
        r is Ok <==> secret_key_valid(key@),
        r matches Ok(a) ==> a@ == account_of_key(key@) && a@.len() == 20,
        r matches Err(e) ==> e is Wallet,
{
    match alloy::signers::local::PrivateKeySigner::from_slice(key.as_slice()) {
        Ok(signer) => Ok(signer.address().as_slice().to_vec()),
        Err(e) => Err(Error::Wallet(e.to_string())),
    }
}

} // verus!
