use vstd::prelude::*;
use crate::action::{Actions, Address};
use crate::multisig::MsAction;
use crate::bytesfmt::{be8, push_be8, push_bytes};
use crate::crypto::{keccak_of, keccak256};
use crate::error::Error;
use crate::msgpack::{Value, enc_ok, encode_value, mp};

verus! {

/// The view of an optional vault address as optional raw bytes.
pub open spec fn vault_view(vault: Option<Address>) -> Option<Seq<u8>> {
    match vault {
        Option::Some(a) => Option::Some(a.bytes@),
        Option::None => Option::None,
    }
}

/// The byte sequence fed to the hash for an action hash: the canonical action
/// bytes, the nonce in 8 big-endian bytes, the vault marker (a 1 byte and the
/// 20 raw address bytes when present, a single 0 byte otherwise), and, only
/// when an expiry is present, a 0 marker byte followed by its 8 big-endian
/// bytes; an absent expiry appends nothing.
pub open spec fn hash_input_bytes(
    body: Seq<u8>,
    nonce: u64,
    vault: Option<Seq<u8>>,
    expires_after: Option<u64>,
) -> Seq<u8> {
    body + be8(nonce) + (match vault {
        Option::Some(a) => seq![1u8] + a,
        Option::None => seq![0u8],
    }) + (match expires_after {
        Option::Some(e) => seq![0u8] + be8(e),
        Option::None => Seq::<u8>::empty(),
    })
}

/// The action hash ("connection id") of a typed action.
pub open spec fn action_hash(
    a: Actions,
    nonce: u64,
    vault: Option<Seq<u8>>,
    expires_after: Option<u64>,
) -> Seq<u8> {
    keccak_of(hash_input_bytes(a.canon_bytes(), nonce, vault, expires_after))
}

/// The action hash of a generic value tree.
pub open spec fn value_hash(
    v: Value,
    nonce: u64,
    vault: Option<Seq<u8>>,
    expires_after: Option<u64>,
) -> Seq<u8> {
    keccak_of(hash_input_bytes(mp(v), nonce, vault, expires_after))
}

/// Appends the nonce, vault marker and expiry marker to an encoded body and
/// hashes the whole.
fn finish_hash(body: Vec<u8>, nonce: u64, vault_address: &Option<Address>, expires_after: Option<
    u64,
>) -> (r: Vec<u8>)
    ensures
        r@ == keccak_of(
            hash_input_bytes(
                body@,
                nonce,
                match *vault_address {
                    Option::Some(a) => Option::Some(a.bytes@),
                    Option::None => Option::None,
                },
                expires_after,
            ),
        ),
        r@.len() == 32,
{
    let mut buf = body;
    push_be8(&mut buf, nonce);
    match vault_address {
        Option::Some(a) => {
            buf.push(1);
            push_bytes(&mut buf, &a.bytes);
        }
        Option::None => {
            buf.push(0);
        }
    }
    match expires_after {
        Option::Some(e) => {
            buf.push(0);
            push_be8(&mut buf, e);
        }
        Option::None => {}
    }
    assert(buf@ =~= hash_input_bytes(
        body@,
        nonce,
        match *vault_address {
            Option::Some(a) => Option::Some(a.bytes@),
            Option::None => Option::None,
        },
        expires_after,
    ));
    keccak256(&buf)
}

/// Computes the action hash of a typed action: the Keccak-256 digest of the
/// canonical action bytes followed by the nonce, the vault marker and the
/// expiry marker. Fails with `RmpParse` exactly when the action cannot be
/// canonically serialized.
pub fn hash_action_with_exp(
    action: &Actions,
    timestamp: u64,
    vault_address: Option<Address>,
    expires_after: Option<u64>,
) -> (r: Result<Vec<u8>, Error>)
    ensures
        r is Ok <==> action.canon_ok(),
        r matches Ok(h) ==> h@ == action_hash(
            *action,
            timestamp,
            vault_view(vault_address),
            expires_after,
        ) && h@.len() == 32,
        r matches Err(e) ==> e is RmpParse,
{
    let mut body: Vec<u8> = Vec::new();
    if !action.push_canon(&mut body) {
        return Err(Error::RmpParse("action cannot be canonically serialized".to_owned()));
    }
    assert(body@ =~= action.canon_bytes());
    Ok(finish_hash(body, timestamp, &vault_address, expires_after))
}

/// The action hash without an expiry.
pub fn hash_action(action: &Actions, timestamp: u64, vault_address: Option<Address>) -> (r: Result<
    Vec<u8>,
    Error,
>)
    ensures
        r is Ok <==> action.canon_ok(),
        r matches Ok(h) ==> h@ == action_hash(
            *action,
            timestamp,
            vault_view(vault_address),
            Option::None,
        ) && h@.len() == 32,
        r matches Err(e) ==> e is RmpParse,
{
    hash_action_with_exp(action, timestamp, vault_address, None)
}

/// Computes the action hash of a generic value tree, the path taken by
/// forward-compatible and multi-sig bodies.
pub fn hash_json_value_with_exp(
    value: &Value,
    timestamp: u64,
    vault_address: Option<Address>,
    expires_after: Option<u64>,
) -> (r: Result<Vec<u8>, Error>)
    ensures
        r is Ok <==> enc_ok(*value),
        r matches Ok(h) ==> h@ == value_hash(
            *value,
            timestamp,
            vault_view(vault_address),
            expires_after,
        ) && h@.len() == 32,
        r matches Err(e) ==> e is RmpParse,
{
    let mut body: Vec<u8> = Vec::new();
    if !encode_value(value, &mut body) {
        return Err(Error::RmpParse("value cannot be canonically serialized".to_owned()));
    }
    assert(body@ =~= mp(*value));
    Ok(finish_hash(body, timestamp, &vault_address, expires_after))
}

/// The multi-sig action hash of a deterministic multi-sig record.
pub open spec fn ms_action_hash(
    a: MsAction,
    nonce: u64,
    vault: Option<Seq<u8>>,
    expires_after: Option<u64>,
) -> Seq<u8> {
    keccak_of(hash_input_bytes(a.canon_bytes(), nonce, vault, expires_after))
}

/// Computes the multi-sig action hash of a deterministic multi-sig record
/// through the same pipeline as a plain action.
pub fn hash_ms_action_with_exp(
    action: &MsAction,
    timestamp: u64,
    vault_address: Option<Address>,
    expires_after: Option<u64>,
) -> (r: Result<Vec<u8>, Error>)
    ensures
        r is Ok <==> action.canon_ok(),
        r matches Ok(h) ==> h@ == ms_action_hash(
            *action,
            timestamp,
            vault_view(vault_address),
            expires_after,
        ) && h@.len() == 32,
        r matches Err(e) ==> e is RmpParse,
{
    let mut body: Vec<u8> = Vec::new();
    if !action.push_canon(&mut body) {
        return Err(Error::RmpParse("action cannot be canonically serialized".to_owned()));
    }
    assert(body@ =~= action.canon_bytes());
    Ok(finish_hash(body, timestamp, &vault_address, expires_after))
}

// ===== Laws of the hash input =====

/// Determinism: the action hash is a function of exactly the action, the
/// nonce, the vault address and the expiry; two calls on equal inputs yield
/// the same 32 bytes.
pub proof fn lemma_action_hash_deterministic(
    a1: Actions,
    a2: Actions,
    nonce: u64,
    vault: Option<Seq<u8>>,
    expires_after: Option<u64>,
)
    requires
        a1 == a2,
    ensures
        action_hash(a1, nonce, vault, expires_after) == action_hash(a2, nonce, vault, expires_after),
{
}

/// Marker asymmetry: against the same body and nonce, a present vault address
/// contributes exactly 21 bytes (marker and 20 address bytes) where an absent
/// one contributes a single 0 byte, so the input grows by exactly 20 bytes;
/// a present expiry appends exactly 9 bytes where an absent one appends
/// nothing.
pub proof fn lemma_marker_asymmetry(body: Seq<u8>, nonce: u64, addr: Seq<u8>, exp: u64)
    requires
        addr.len() == 20,
    ensures
        hash_input_bytes(body, nonce, Option::Some(addr), Option::None).len() == hash_input_bytes(
            body,
            nonce,
            Option::None,
            Option::None,
        ).len() + 20,
        hash_input_bytes(body, nonce, Option::None, Option::None).len() < hash_input_bytes(
            body,
            nonce,
            Option::Some(addr),
            Option::None,
        ).len(),
        hash_input_bytes(body, nonce, Option::Some(addr), Option::Some(exp)).len()
            == hash_input_bytes(body, nonce, Option::Some(addr), Option::None).len() + 9,
        hash_input_bytes(body, nonce, Option::None, Option::Some(exp)).len() == hash_input_bytes(
            body,
            nonce,
            Option::None,
            Option::None,
        ).len() + 9,
{
}

} // verus!
