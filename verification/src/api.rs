use vstd::prelude::*;
use vstd::string::StrSliceExecFns;
use vstd::utf8::encode_utf8;
use crate::action::{Actions, Address};
use crate::bytesfmt::{
    all_hex, ascii_chars, ascii_string, hex_decoded, hex_lower, hex_val, is_hex, nibble_lower,
    push_hex_lower, dup_range,
};
use crate::checksum::{checksum_core, is_lower_hex};
use crate::crypto::{
    account_of_key, ecdsa_sign, ecdsa_sign_ok, ecdsa_signature, keccak_of, secret_key_valid,
    RawSignature,
};
use crate::eip712::{
    domain_sep, eip712_digest, str_hash_word, word_addr, word_u64, Agent, ApproveAgent,
    ApproveBuilderFee, SendMultiSig, SpotSend, UsdSend, Withdraw3,
};
use crate::crypto::ecdsa_address;
use crate::error::Error;
use crate::hash::{action_hash, hash_action, hash_action_with_exp, hash_json_value_with_exp, value_hash, vault_view};
use crate::msgpack::{Value, enc_ok};

verus! {

/// The fixed numeric chain id used for both network variants, paired with the
/// network name ("Mainnet" or "Testnet") that is carried inside the signed
/// payload instead of a distinct chain id.
pub fn chain(is_mainnet: bool) -> (r: (u64, String))
    ensures
        r.0 == 42161u64,
        r.1@ == (if is_mainnet { "Mainnet"@ } else { "Testnet"@ }),
{
    let chain_id: u64 = 42161;
    let name = if is_mainnet {
        "Mainnet".to_owned()
    } else {
        "Testnet".to_owned()
    };
    (chain_id, name)
}

// ===== Input parsing =====

/// A single leading "0x" or "0X" marker removed.
pub open spec fn strip_0x(s: Seq<u8>) -> Seq<u8> {
    if s.len() >= 2 && s[0] == 48 && (s[1] == 120 || s[1] == 88) {
        s.skip(2)
    } else {
        s
    }
}

/// A well-formed private key string: 64 hex digits after an optional marker.
pub open spec fn wallet_key_ok(s: Seq<char>) -> bool {
    strip_0x(encode_utf8(s)).len() == 64 && all_hex(strip_0x(encode_utf8(s)))
}

/// The 32 key bytes denoted by a well-formed private key string.
pub open spec fn wallet_key_bytes(s: Seq<char>) -> Seq<u8> {
    hex_decoded(strip_0x(encode_utf8(s)))
}

/// A well-formed address string: 40 hex digits after an optional marker.
pub open spec fn addr_str_ok(s: Seq<char>) -> bool {
    strip_0x(encode_utf8(s)).len() == 40 && all_hex(strip_0x(encode_utf8(s)))
}

/// The 20 address bytes denoted by a well-formed address string.
pub open spec fn addr_str_bytes(s: Seq<char>) -> Seq<u8> {
    hex_decoded(strip_0x(encode_utf8(s)))
}

/// A well-formed connection-id string: 64 hex digits after an optional marker.
pub open spec fn cid_str_ok(s: Seq<char>) -> bool {
    strip_0x(encode_utf8(s)).len() == 64 && all_hex(strip_0x(encode_utf8(s)))
}

pub open spec fn cid_str_bytes(s: Seq<char>) -> Seq<u8> {
    hex_decoded(strip_0x(encode_utf8(s)))
}

/// Strips one optional "0x"/"0X" marker and decodes the rest as hex of the
/// expected byte width.
fn decode_prefixed_hex(s: &str, want_bytes: usize) -> (r: Option<Vec<u8>>)
    requires
        want_bytes <= usize::MAX / 2,
    ensures
        r is Some <==> (strip_0x(encode_utf8(s@)).len() == 2 * want_bytes && all_hex(
            strip_0x(encode_utf8(s@)),
        )),
        r matches Some(b) ==> b@ == hex_decoded(strip_0x(encode_utf8(s@))) && b@.len()
            == want_bytes,
{
    let bytes = s.as_bytes_vec();
    let mut start: usize = 0;
    if bytes.len() >= 2 {
        let b0 = bytes[0];
        let b1 = bytes[1];
        if b0 == 48 && (b1 == 120 || b1 == 88) {
            start = 2;
        }
    }
    let body = dup_range(&bytes, start, bytes.len());
    proof {
        assert(body@ =~= strip_0x(encode_utf8(s@)));
    }
    if body.len() != 2 * want_bytes {
        return None;
    }
    match crate::bytesfmt::try_hex_decode(&body) {
        Option::Some(decoded) => {
            proof {
                assert(hex_decoded(body@).len() == want_bytes);
            }
            Some(decoded)
        }
        Option::None => None,
    }
}

/// Decodes a private key string into its 32 raw bytes: an optional "0x"/"0X"
/// marker followed by exactly 64 hex digits. Fails with `Wallet` otherwise.
pub fn parse_wallet(priv_key_hex: &str) -> (r: Result<Vec<u8>, Error>)
    ensures
        r is Ok <==> wallet_key_ok(priv_key_hex@),
        r matches Ok(k) ==> k@ == wallet_key_bytes(priv_key_hex@) && k@.len() == 32,
        r matches Err(e) ==> e is Wallet,
{
    match decode_prefixed_hex(priv_key_hex, 32) {
        Option::Some(k) => Ok(k),
        Option::None => Err(
            Error::Wallet("private key must be 32 bytes of hex (with or without 0x)".to_owned()),
        ),
    }
}

/// The view of an optional address string as the optional bytes it denotes.
pub open spec fn opt_addr_bytes(v: Option<String>) -> Option<Seq<u8>> {
    match v {
        Option::Some(s) => Option::Some(addr_str_bytes(s@)),
        Option::None => Option::None,
    }
}

pub open spec fn opt_addr_ok(v: Option<String>) -> bool {
    match v {
        Option::Some(s) => addr_str_ok(s@),
        Option::None => true,
    }
}

/// Decodes an optional address string into an optional 20-byte address; an
/// absent input stays absent. Fails with `GenericParse` on a malformed
/// address.
pub fn parse_optional_address(addr_opt: Option<String>) -> (r: Result<Option<Address>, Error>)
    ensures
        r is Ok <==> opt_addr_ok(addr_opt),
        r matches Ok(a) ==> vault_view(a) == opt_addr_bytes(addr_opt),
        r matches Err(e) ==> e is GenericParse,
{
    match addr_opt {
        Option::Some(s) => {
            match decode_prefixed_hex(s.as_str(), 20) {
                Option::Some(bytes) => Ok(Some(Address::new(bytes))),
                Option::None => Err(Error::GenericParse("invalid address".to_owned())),
            }
        }
        Option::None => Ok(None),
    }
}

// ===== The signature result =====

/// The outcome of a signing operation: the combined 65-byte signature as a
/// "0x"-prefixed hex string, `r` and `s` as zero-padded 64-digit hex strings,
/// `v` as the recovery id plus 27, and the connection id for L1-style
/// operations only.
pub struct SignatureResult {
    pub signature: String,
    pub r: String,
    pub s: String,
    pub v: u64,
    pub connection_id: Option<String>,
}

/// A "0x"-prefixed lowercase hex string of the given bytes, as characters.
pub open spec fn hex0x_chars(b: Seq<u8>) -> Seq<char> {
    ascii_chars(seq![48u8, 120u8] + hex_lower(b))
}

/// What a signature result must hold for a raw signature (r, s, parity) and
/// an optional connection id.
pub open spec fn sig_result_matches(
    out: SignatureResult,
    rsv: (Seq<u8>, Seq<u8>, u8),
    cid: Option<Seq<u8>>,
) -> bool {
    &&& out.r@ == hex0x_chars(rsv.0)
    &&& out.s@ == hex0x_chars(rsv.1)
    &&& out.v == 27 + rsv.2
    &&& out.signature@ == ascii_chars(
        seq![48u8, 120u8] + hex_lower(rsv.0) + hex_lower(rsv.1) + hex_lower(
            seq![(27 + rsv.2) as u8],
        ),
    )
    &&& match cid {
        Option::Some(c) => out.connection_id matches Some(s) && s@ == hex0x_chars(c),
        Option::None => out.connection_id is None,
    }
}

proof fn lemma_hex_lower_ascii(s: Seq<u8>)
    ensures
        forall|i: int| 0 <= i < hex_lower(s).len() ==> is_lower_hex(#[trigger] hex_lower(s)[i])
            && hex_lower(s)[i] < 128,
{
    assert forall|i: int| 0 <= i < hex_lower(s).len() implies is_lower_hex(
        #[trigger] hex_lower(s)[i],
    ) && hex_lower(s)[i] < 128 by {
        let b = s[i / 2];
        assert(b >> 4 < 16 && b & 0xf < 16) by (bit_vector);
    }
}

/// Builds a "0x"-prefixed lowercase hex string of the given bytes.
pub fn hex0x_string(b: &Vec<u8>) -> (r: String)
    ensures
        r@ == hex0x_chars(b@),
{
    let mut buf: Vec<u8> = Vec::new();
    buf.push(48);
    buf.push(120);
    push_hex_lower(&mut buf, b);
    proof {
        assert(buf@ =~= seq![48u8, 120u8] + hex_lower(b@));
        lemma_hex_lower_ascii(b@);
    }
    ascii_string(&buf)
}

/// Renders a raw signature (and an optional connection id) into the result
/// record: zero-padded hex for `r` and `s`, the 130-hex-character combined
/// signature, and `v` as parity plus 27.
pub fn signature_to_map(sig: RawSignature, connection_id: Option<Vec<u8>>) -> (out: SignatureResult)
    requires
        sig.parity <= 1,
    ensures
        sig_result_matches(
            out,
            (sig.r@, sig.s@, sig.parity),
            match connection_id {
                Option::Some(c) => Option::Some(c@),
                Option::None => Option::None,
            },
        ),
{
    let r_str = hex0x_string(&sig.r);
    let s_str = hex0x_string(&sig.s);
    let mut cb: Vec<u8> = Vec::new();
    cb.push(48);
    cb.push(120);
    push_hex_lower(&mut cb, &sig.r);
    push_hex_lower(&mut cb, &sig.s);
    let mut vb: Vec<u8> = Vec::new();
    vb.push(27 + sig.parity);
    push_hex_lower(&mut cb, &vb);
    proof {
        assert(cb@ =~= seq![48u8, 120u8] + hex_lower(sig.r@) + hex_lower(sig.s@) + hex_lower(
            seq![(27 + sig.parity) as u8],
        ));
        lemma_hex_lower_ascii(sig.r@);
        lemma_hex_lower_ascii(sig.s@);
        lemma_hex_lower_ascii(vb@);
    }
    let signature = ascii_string(&cb);
    let v: u64 = 27 + (sig.parity as u64);
    let connection_id_str = match connection_id {
        Option::Some(c) => Some(hex0x_string(&c)),
        Option::None => None,
    };
    SignatureResult { signature, r: r_str, s: s_str, v, connection_id: connection_id_str }
}

// ===== Signing =====

/// The EIP-712 digest signed for an L1 agent action: the fixed "Exchange"
/// domain with network id 1337, and the Agent struct whose source is "a" on
/// mainnet and "b" otherwise.
pub open spec fn agent_digest(cid: Seq<u8>, is_mainnet: bool) -> Seq<u8> {
    eip712_digest(
        domain_sep("Exchange"@, "1"@, 1337),
        keccak_of(
            str_hash_word("Agent(string source,bytes32 connectionId)"@) + str_hash_word(
                if is_mainnet {
                    "a"@
                } else {
                    "b"@
                },
            ) + cid,
        ),
    )
}

/// Signs a connection id as an L1 agent action.
pub fn sign_l1_agent_action(wallet: &Vec<u8>, connection_id: Vec<u8>, is_mainnet: bool) -> (r:
    Result<RawSignature, Error>)
    requires
        wallet@.len() == 32,
        connection_id@.len() == 32,
    ensures
        r is Ok <==> secret_key_valid(wallet@) && ecdsa_sign_ok(
            wallet@,
            agent_digest(connection_id@, is_mainnet),
        ),
        r matches Ok(sig) ==> (sig.r@, sig.s@, sig.parity) == ecdsa_signature(
            wallet@,
            agent_digest(connection_id@, is_mainnet),
        ) && sig.r@.len() == 32 && sig.s@.len() == 32 && sig.parity <= 1,
        !secret_key_valid(wallet@) ==> r matches Err(Error::Wallet(_)),
        secret_key_valid(wallet@) && r is Err ==> r matches Err(Error::SignatureFailure(_)),
{
    let source = if is_mainnet {
        "a".to_owned()
    } else {
        "b".to_owned()
    };
    let agent = Agent { source, connection_id };
    let digest = agent.eip712_signing_hash();
    proof {
        assert(digest@ == agent_digest(agent.connection_id@, is_mainnet));
    }
    ecdsa_sign(wallet, &digest)
}

/// Signs a caller-supplied connection id as an L1 action. The key must be 32
/// bytes of hex, the connection id 32 bytes of hex, each with an optional
/// marker; the result carries the connection id back.
pub fn sign_l1_action(private_key_hex: &String, connection_id: &String, is_mainnet: bool) -> (r:
    Result<SignatureResult, Error>)
    ensures
        r is Ok <==> wallet_key_ok(private_key_hex@) && cid_str_ok(connection_id@)
            && secret_key_valid(wallet_key_bytes(private_key_hex@)) && ecdsa_sign_ok(
            wallet_key_bytes(private_key_hex@),
            agent_digest(cid_str_bytes(connection_id@), is_mainnet),
        ),
        !wallet_key_ok(private_key_hex@) ==> r matches Err(Error::Wallet(_)),
        wallet_key_ok(private_key_hex@) && !cid_str_ok(connection_id@) ==> r matches Err(
            Error::GenericParse(_),
        ),
        wallet_key_ok(private_key_hex@) && cid_str_ok(connection_id@) && !secret_key_valid(
            wallet_key_bytes(private_key_hex@),
        ) ==> r matches Err(Error::Wallet(_)),
        wallet_key_ok(private_key_hex@) && cid_str_ok(connection_id@) && r is Err
            && secret_key_valid(wallet_key_bytes(private_key_hex@)) ==> r matches Err(
            Error::SignatureFailure(_),
        ),
        r matches Ok(out) ==> sig_result_matches(
            out,
            ecdsa_signature(
                wallet_key_bytes(private_key_hex@),
                agent_digest(cid_str_bytes(connection_id@), is_mainnet),
            ),
            Option::Some(cid_str_bytes(connection_id@)),
        ) && (out.connection_id matches Some(cs) && cs@.len() == 66),
{
    let wallet = match parse_wallet(private_key_hex.as_str()) {
        Ok(w) => w,
        Err(e) => {
            return Err(e);
        }
    };
    let cid = match decode_prefixed_hex(connection_id.as_str(), 32) {
        Option::Some(c) => c,
        Option::None => {
            return Err(Error::GenericParse("invalid connection_id".to_owned()));
        }
    };
    let cid_copy = crate::bytesfmt::dup_bytes(&cid);
    let sig = match sign_l1_agent_action(&wallet, cid, is_mainnet) {
        Ok(s) => s,
        Err(e) => {
            return Err(e);
        }
    };
    Ok(signature_to_map(sig, Some(cid_copy)))
}


// ===== Connection ids =====

/// Computes the connection id of a typed action and renders it as a
/// "0x"-prefixed 64-digit hex string.
pub fn compute_connection_id(action: &Actions, nonce: u64, vault_address: Option<String>) -> (r:
    Result<String, Error>)
    ensures
        !opt_addr_ok(vault_address) ==> r matches Err(Error::GenericParse(_)),
        opt_addr_ok(vault_address) && !action.canon_ok() ==> r matches Err(Error::RmpParse(_)),
        r is Ok <==> opt_addr_ok(vault_address) && action.canon_ok(),
        r matches Ok(s) ==> s@ == hex0x_chars(
            action_hash(*action, nonce, opt_addr_bytes(vault_address), Option::None),
        ) && s@.len() == 66,
{
    let vault = match parse_optional_address(vault_address) {
        Ok(v) => v,
        Err(e) => {
            return Err(e);
        }
    };
    let h = match hash_action(action, nonce, vault) {
        Ok(h) => h,
        Err(e) => {
            return Err(e);
        }
    };
    Ok(hex0x_string(&h))
}

/// Computes the connection id of a generic value tree, with an optional
/// expiry, and renders it as a "0x"-prefixed 64-digit hex string.
pub fn compute_connection_id_ex(
    value: &Value,
    nonce: u64,
    vault_address: Option<String>,
    expires_after: Option<u64>,
) -> (r: Result<String, Error>)
    ensures
        !opt_addr_ok(vault_address) ==> r matches Err(Error::GenericParse(_)),
        opt_addr_ok(vault_address) && !enc_ok(*value) ==> r matches Err(Error::RmpParse(_)),
        r is Ok <==> opt_addr_ok(vault_address) && enc_ok(*value),
        r matches Ok(s) ==> s@ == hex0x_chars(
            value_hash(*value, nonce, opt_addr_bytes(vault_address), expires_after),
        ) && s@.len() == 66,
{
    let vault = match parse_optional_address(vault_address) {
        Ok(v) => v,
        Err(e) => {
            return Err(e);
        }
    };
    let h = match hash_json_value_with_exp(value, nonce, vault, expires_after) {
        Ok(h) => h,
        Err(e) => {
            return Err(e);
        }
    };
    Ok(hex0x_string(&h))
}

// ===== Exchange action signing =====

/// Signs a typed action: its connection id is computed and signed as an L1
/// agent action; the result carries the connection id.
pub fn sign_exchange_action(
    private_key_hex: &String,
    action: &Actions,
    nonce: u64,
    is_mainnet: bool,
    vault_address: Option<String>,
) -> (r: Result<SignatureResult, Error>)
    ensures
        !wallet_key_ok(private_key_hex@) ==> r matches Err(Error::Wallet(_)),
        wallet_key_ok(private_key_hex@) && !opt_addr_ok(vault_address) ==> r matches Err(
            Error::GenericParse(_),
        ),
        wallet_key_ok(private_key_hex@) && opt_addr_ok(vault_address) && !action.canon_ok()
            ==> r matches Err(Error::RmpParse(_)),
        r is Ok <==> wallet_key_ok(private_key_hex@) && opt_addr_ok(vault_address)
            && action.canon_ok() && secret_key_valid(wallet_key_bytes(private_key_hex@))
            && ecdsa_sign_ok(
            wallet_key_bytes(private_key_hex@),
            agent_digest(
                action_hash(*action, nonce, opt_addr_bytes(vault_address), Option::None),
                is_mainnet,
            ),
        ),
        wallet_key_ok(private_key_hex@) && opt_addr_ok(vault_address) && action.canon_ok()
            && !secret_key_valid(wallet_key_bytes(private_key_hex@)) ==> r matches Err(
            Error::Wallet(_),
        ),
        wallet_key_ok(private_key_hex@) && opt_addr_ok(vault_address) && action.canon_ok()
            && secret_key_valid(wallet_key_bytes(private_key_hex@)) && r is Err ==> r matches Err(
            Error::SignatureFailure(_),
        ),
        r matches Ok(out) ==> sig_result_matches(
            out,
            ecdsa_signature(
                wallet_key_bytes(private_key_hex@),
                agent_digest(
                    action_hash(*action, nonce, opt_addr_bytes(vault_address), Option::None),
                    is_mainnet,
                ),
            ),
            Option::Some(action_hash(*action, nonce, opt_addr_bytes(vault_address), Option::None)),
        ) && (out.connection_id matches Some(cs) && cs@.len() == 66),
{
    sign_exchange_action_ex(private_key_hex, action, nonce, is_mainnet, vault_address, None)
}

/// Signs a typed action whose connection id binds an optional expiry.
pub fn sign_exchange_action_ex(
    private_key_hex: &String,
    action: &Actions,
    nonce: u64,
    is_mainnet: bool,
    vault_address: Option<String>,
    expires_after: Option<u64>,
) -> (r: Result<SignatureResult, Error>)
    ensures
        !wallet_key_ok(private_key_hex@) ==> r matches Err(Error::Wallet(_)),
        wallet_key_ok(private_key_hex@) && !opt_addr_ok(vault_address) ==> r matches Err(
            Error::GenericParse(_),
        ),
        wallet_key_ok(private_key_hex@) && opt_addr_ok(vault_address) && !action.canon_ok()
            ==> r matches Err(Error::RmpParse(_)),
        r is Ok <==> wallet_key_ok(private_key_hex@) && opt_addr_ok(vault_address)
            && action.canon_ok() && secret_key_valid(wallet_key_bytes(private_key_hex@))
            && ecdsa_sign_ok(
            wallet_key_bytes(private_key_hex@),
            agent_digest(
                action_hash(*action, nonce, opt_addr_bytes(vault_address), expires_after),
                is_mainnet,
            ),
        ),
        wallet_key_ok(private_key_hex@) && opt_addr_ok(vault_address) && action.canon_ok()
            && !secret_key_valid(wallet_key_bytes(private_key_hex@)) ==> r matches Err(
            Error::Wallet(_),
        ),
        wallet_key_ok(private_key_hex@) && opt_addr_ok(vault_address) && action.canon_ok()
            && secret_key_valid(wallet_key_bytes(private_key_hex@)) && r is Err ==> r matches Err(
            Error::SignatureFailure(_),
        ),
        r matches Ok(out) ==> sig_result_matches(
            out,
            ecdsa_signature(
                wallet_key_bytes(private_key_hex@),
                agent_digest(
                    action_hash(*action, nonce, opt_addr_bytes(vault_address), expires_after),
                    is_mainnet,
                ),
            ),
            Option::Some(
                action_hash(*action, nonce, opt_addr_bytes(vault_address), expires_after),
            ),
        ) && (out.connection_id matches Some(cs) && cs@.len() == 66),
{
    let wallet = match parse_wallet(private_key_hex.as_str()) {
        Ok(w) => w,
        Err(e) => {
            return Err(e);
        }
    };
    let vault = match parse_optional_address(vault_address) {
        Ok(v) => v,
        Err(e) => {
            return Err(e);
        }
    };
    let cid = match hash_action_with_exp(action, nonce, vault, expires_after) {
        Ok(h) => h,
        Err(e) => {
            return Err(e);
        }
    };
    let cid_copy = crate::bytesfmt::dup_bytes(&cid);
    let sig = match sign_l1_agent_action(&wallet, cid, is_mainnet) {
        Ok(s) => s,
        Err(e) => {
            return Err(e);
        }
    };
    Ok(signature_to_map(sig, Some(cid_copy)))
}

// ===== Fixed-schema signing =====

/// The digest signed by a USD-send operation.
pub open spec fn usd_send_digest(
    hl_chain: Seq<char>,
    destination: Seq<char>,
    amount: Seq<char>,
    time: u64,
) -> Seq<u8> {
    eip712_digest(
        domain_sep("HyperliquidSignTransaction"@, "1"@, 42161),
        keccak_of(
            str_hash_word(
                "HyperliquidTransaction:UsdSend(string hyperliquidChain,string destination,string amount,uint64 time)"@,
            ) + str_hash_word(hl_chain) + str_hash_word(destination) + str_hash_word(amount)
                + word_u64(time),
        ),
    )
}

/// The network name carried in a signed payload.
pub open spec fn chain_name(is_mainnet: bool) -> Seq<char> {
    if is_mainnet {
        "Mainnet"@
    } else {
        "Testnet"@
    }
}

/// Signs a USD send over the fixed schema.
pub fn sign_usd_send(
    private_key_hex: &String,
    destination: String,
    amount: String,
    time: u64,
    is_mainnet: bool,
) -> (r: Result<SignatureResult, Error>)
    ensures
        r is Ok <==> wallet_key_ok(private_key_hex@) && secret_key_valid(
            wallet_key_bytes(private_key_hex@),
        ) && ecdsa_sign_ok(
            wallet_key_bytes(private_key_hex@),
            usd_send_digest(chain_name(is_mainnet), destination@, amount@, time),
        ),
        !wallet_key_ok(private_key_hex@) || !secret_key_valid(wallet_key_bytes(private_key_hex@))
            <==> r matches Err(Error::Wallet(_)),
        wallet_key_ok(private_key_hex@) && secret_key_valid(wallet_key_bytes(private_key_hex@))
            && r is Err ==> r matches Err(Error::SignatureFailure(_)),
        r matches Ok(out) ==> sig_result_matches(
            out,
            ecdsa_signature(
                wallet_key_bytes(private_key_hex@),
                usd_send_digest(chain_name(is_mainnet), destination@, amount@, time),
            ),
            Option::None,
        ),
{
    let wallet = match parse_wallet(private_key_hex.as_str()) {
        Ok(w) => w,
        Err(e) => {
            return Err(e);
        }
    };
    let (signature_chain_id, hyperliquid_chain) = chain(is_mainnet);
    let payload = UsdSend { signature_chain_id, hyperliquid_chain, destination, amount, time };
    let digest = payload.eip712_signing_hash();
    proof {
        assert(digest@ == usd_send_digest(chain_name(is_mainnet), payload.destination@, payload.amount@, time));
    }
    let sig = match ecdsa_sign(&wallet, &digest) {
        Ok(s) => s,
        Err(e) => {
            return Err(e);
        }
    };
    Ok(signature_to_map(sig, None))
}

/// The digest signed by a withdraw operation.
pub open spec fn withdraw3_digest(
    hl_chain: Seq<char>,
    destination: Seq<char>,
    amount: Seq<char>,
    time: u64,
) -> Seq<u8> {
    eip712_digest(
        domain_sep("HyperliquidSignTransaction"@, "1"@, 42161),
        keccak_of(
            str_hash_word(
                "HyperliquidTransaction:Withdraw(string hyperliquidChain,string destination,string amount,uint64 time)"@,
            ) + str_hash_word(hl_chain) + str_hash_word(destination) + str_hash_word(amount)
                + word_u64(time),
        ),
    )
}

/// Signs a withdrawal over the fixed schema.
pub fn sign_withdraw3(
    private_key_hex: &String,
    destination: String,
    amount: String,
    time: u64,
    is_mainnet: bool,
) -> (r: Result<SignatureResult, Error>)
    ensures
        r is Ok <==> wallet_key_ok(private_key_hex@) && secret_key_valid(
            wallet_key_bytes(private_key_hex@),
        ) && ecdsa_sign_ok(
            wallet_key_bytes(private_key_hex@),
            withdraw3_digest(chain_name(is_mainnet), destination@, amount@, time),
        ),
        !wallet_key_ok(private_key_hex@) || !secret_key_valid(wallet_key_bytes(private_key_hex@))
            <==> r matches Err(Error::Wallet(_)),
        wallet_key_ok(private_key_hex@) && secret_key_valid(wallet_key_bytes(private_key_hex@))
            && r is Err ==> r matches Err(Error::SignatureFailure(_)),
        r matches Ok(out) ==> sig_result_matches(
            out,
            ecdsa_signature(
                wallet_key_bytes(private_key_hex@),
                withdraw3_digest(chain_name(is_mainnet), destination@, amount@, time),
            ),
            Option::None,
        ),
{
    let wallet = match parse_wallet(private_key_hex.as_str()) {
        Ok(w) => w,
        Err(e) => {
            return Err(e);
        }
    };
    let (signature_chain_id, hyperliquid_chain) = chain(is_mainnet);
    let payload = Withdraw3 { signature_chain_id, hyperliquid_chain, destination, amount, time };
    let digest = payload.eip712_signing_hash();
    proof {
        assert(digest@ == withdraw3_digest(chain_name(is_mainnet), payload.destination@, payload.amount@, time));
    }
    let sig = match ecdsa_sign(&wallet, &digest) {
        Ok(s) => s,
        Err(e) => {
            return Err(e);
        }
    };
    Ok(signature_to_map(sig, None))
}

/// The digest signed by a spot-send operation.
pub open spec fn spot_send_digest(
    hl_chain: Seq<char>,
    destination: Seq<char>,
    token: Seq<char>,
    amount: Seq<char>,
    time: u64,
) -> Seq<u8> {
    eip712_digest(
        domain_sep("HyperliquidSignTransaction"@, "1"@, 42161),
        keccak_of(
            str_hash_word(
                "HyperliquidTransaction:SpotSend(string hyperliquidChain,string destination,string token,string amount,uint64 time)"@,
            ) + str_hash_word(hl_chain) + str_hash_word(destination) + str_hash_word(token)
                + str_hash_word(amount) + word_u64(time),
        ),
    )
}

/// Signs a spot-token send over the fixed schema.
pub fn sign_spot_send(
    private_key_hex: &String,
    destination: String,
    token: String,
    amount: String,
    time: u64,
    is_mainnet: bool,
) -> (r: Result<SignatureResult, Error>)
    ensures
        r is Ok <==> wallet_key_ok(private_key_hex@) && secret_key_valid(
            wallet_key_bytes(private_key_hex@),
        ) && ecdsa_sign_ok(
            wallet_key_bytes(private_key_hex@),
            spot_send_digest(chain_name(is_mainnet), destination@, token@, amount@, time),
        ),
        !wallet_key_ok(private_key_hex@) || !secret_key_valid(wallet_key_bytes(private_key_hex@))
            <==> r matches Err(Error::Wallet(_)),
        wallet_key_ok(private_key_hex@) && secret_key_valid(wallet_key_bytes(private_key_hex@))
            && r is Err ==> r matches Err(Error::SignatureFailure(_)),
        r matches Ok(out) ==> sig_result_matches(
            out,
            ecdsa_signature(
                wallet_key_bytes(private_key_hex@),
                spot_send_digest(chain_name(is_mainnet), destination@, token@, amount@, time),
            ),
            Option::None,
        ),
{
    let wallet = match parse_wallet(private_key_hex.as_str()) {
        Ok(w) => w,
        Err(e) => {
            return Err(e);
        }
    };
    let (signature_chain_id, hyperliquid_chain) = chain(is_mainnet);
    let payload = SpotSend {
        signature_chain_id,
        hyperliquid_chain,
        destination,
        token,
        amount,
        time,
    };
    let digest = payload.eip712_signing_hash();
    proof {
        assert(digest@ == spot_send_digest(chain_name(is_mainnet), payload.destination@, payload.token@, payload.amount@, time));
    }
    let sig = match ecdsa_sign(&wallet, &digest) {
        Ok(s) => s,
        Err(e) => {
            return Err(e);
        }
    };
    Ok(signature_to_map(sig, None))
}

/// The digest signed by a builder-fee approval.
pub open spec fn approve_builder_fee_digest(
    hl_chain: Seq<char>,
    max_fee_rate: Seq<char>,
    builder: Seq<u8>,
    nonce: u64,
) -> Seq<u8> {
    eip712_digest(
        domain_sep("HyperliquidSignTransaction"@, "1"@, 42161),
        keccak_of(
            str_hash_word(
                "HyperliquidTransaction:ApproveBuilderFee(string hyperliquidChain,string maxFeeRate,address builder,uint64 nonce)"@,
            ) + str_hash_word(hl_chain) + str_hash_word(max_fee_rate) + word_addr(builder)
                + word_u64(nonce),
        ),
    )
}

/// Signs a builder-fee approval over the fixed schema; the builder address
/// must be 40 hex digits with an optional marker.
pub fn sign_approve_builder_fee(
    private_key_hex: &String,
    builder: String,
    max_fee_rate: String,
    nonce: u64,
    is_mainnet: bool,
) -> (r: Result<SignatureResult, Error>)
    ensures
        r is Ok <==> wallet_key_ok(private_key_hex@) && addr_str_ok(builder@) && secret_key_valid(
            wallet_key_bytes(private_key_hex@),
        ) && ecdsa_sign_ok(
            wallet_key_bytes(private_key_hex@),
            approve_builder_fee_digest(
                chain_name(is_mainnet),
                max_fee_rate@,
                addr_str_bytes(builder@),
                nonce,
            ),
        ),
        !wallet_key_ok(private_key_hex@) ==> r matches Err(Error::Wallet(_)),
        wallet_key_ok(private_key_hex@) && !addr_str_ok(builder@) ==> r matches Err(
            Error::GenericParse(_),
        ),
        wallet_key_ok(private_key_hex@) && addr_str_ok(builder@) && !secret_key_valid(
            wallet_key_bytes(private_key_hex@),
        ) ==> r matches Err(Error::Wallet(_)),
        wallet_key_ok(private_key_hex@) && addr_str_ok(builder@) && secret_key_valid(
            wallet_key_bytes(private_key_hex@),
        ) && r is Err ==> r matches Err(Error::SignatureFailure(_)),
        r matches Ok(out) ==> sig_result_matches(
            out,
            ecdsa_signature(
                wallet_key_bytes(private_key_hex@),
                approve_builder_fee_digest(
                    chain_name(is_mainnet),
                    max_fee_rate@,
                    addr_str_bytes(builder@),
                    nonce,
                ),
            ),
            Option::None,
        ),
{
    let wallet = match parse_wallet(private_key_hex.as_str()) {
        Ok(w) => w,
        Err(e) => {
            return Err(e);
        }
    };
    let builder_addr = match decode_prefixed_hex(builder.as_str(), 20) {
        Option::Some(b) => Address::new(b),
        Option::None => {
            return Err(Error::GenericParse("invalid address".to_owned()));
        }
    };
    let (signature_chain_id, hyperliquid_chain) = chain(is_mainnet);
    let payload = ApproveBuilderFee {
        signature_chain_id,
        hyperliquid_chain,
        builder: builder_addr,
        max_fee_rate,
        nonce,
    };
    let digest = payload.eip712_signing_hash();
    proof {
        assert(digest@ == approve_builder_fee_digest(chain_name(is_mainnet), payload.max_fee_rate@, payload.builder.bytes@, nonce));
    }
    let sig = match ecdsa_sign(&wallet, &digest) {
        Ok(s) => s,
        Err(e) => {
            return Err(e);
        }
    };
    Ok(signature_to_map(sig, None))
}

/// The digest signed by an agent approval; an absent agent name hashes as the
/// empty string.
pub open spec fn approve_agent_digest(
    hl_chain: Seq<char>,
    agent_address: Seq<u8>,
    agent_name: Option<Seq<char>>,
    nonce: u64,
) -> Seq<u8> {
    eip712_digest(
        domain_sep("HyperliquidSignTransaction"@, "1"@, 42161),
        keccak_of(
            str_hash_word(
                "HyperliquidTransaction:ApproveAgent(string hyperliquidChain,address agentAddress,string agentName,uint64 nonce)"@,
            ) + str_hash_word(hl_chain) + word_addr(agent_address) + (match agent_name {
                Option::Some(n) => str_hash_word(n),
                Option::None => str_hash_word(""@),
            }) + word_u64(nonce),
        ),
    )
}

/// Signs an agent approval over the fixed schema; the agent address must be
/// 40 hex digits with an optional marker.
pub fn sign_approve_agent(
    private_key_hex: &String,
    agent_address: String,
    agent_name: Option<String>,
    nonce: u64,
    is_mainnet: bool,
) -> (r: Result<SignatureResult, Error>)
    ensures
        r is Ok <==> wallet_key_ok(private_key_hex@) && addr_str_ok(agent_address@)
            && secret_key_valid(wallet_key_bytes(private_key_hex@)) && ecdsa_sign_ok(
            wallet_key_bytes(private_key_hex@),
            approve_agent_digest(
                chain_name(is_mainnet),
                addr_str_bytes(agent_address@),
                match agent_name {
                    Option::Some(n) => Option::Some(n@),
                    Option::None => Option::None,
                },
                nonce,
            ),
        ),
        !wallet_key_ok(private_key_hex@) ==> r matches Err(Error::Wallet(_)),
        wallet_key_ok(private_key_hex@) && !addr_str_ok(agent_address@) ==> r matches Err(
            Error::GenericParse(_),
        ),
        wallet_key_ok(private_key_hex@) && addr_str_ok(agent_address@) && !secret_key_valid(
            wallet_key_bytes(private_key_hex@),
        ) ==> r matches Err(Error::Wallet(_)),
        wallet_key_ok(private_key_hex@) && addr_str_ok(agent_address@) && secret_key_valid(
            wallet_key_bytes(private_key_hex@),
        ) && r is Err ==> r matches Err(Error::SignatureFailure(_)),
        r matches Ok(out) ==> sig_result_matches(
            out,
            ecdsa_signature(
                wallet_key_bytes(private_key_hex@),
                approve_agent_digest(
                    chain_name(is_mainnet),
                    addr_str_bytes(agent_address@),
                    match agent_name {
                        Option::Some(n) => Option::Some(n@),
                        Option::None => Option::None,
                    },
                    nonce,
                ),
            ),
            Option::None,
        ),
{
    let wallet = match parse_wallet(private_key_hex.as_str()) {
        Ok(w) => w,
        Err(e) => {
            return Err(e);
        }
    };
    let agent_addr = match decode_prefixed_hex(agent_address.as_str(), 20) {
        Option::Some(b) => Address::new(b),
        Option::None => {
            return Err(Error::GenericParse("invalid address".to_owned()));
        }
    };
    let (signature_chain_id, hyperliquid_chain) = chain(is_mainnet);
    let payload = ApproveAgent {
        signature_chain_id,
        hyperliquid_chain,
        agent_address: agent_addr,
        agent_name,
        nonce,
    };
    let digest = payload.eip712_signing_hash();
    let sig = match ecdsa_sign(&wallet, &digest) {
        Ok(s) => s,
        Err(e) => {
            return Err(e);
        }
    };
    Ok(signature_to_map(sig, None))
}


// ===== Multi-sig signing =====

/// Folds hex digits into a 64-bit value from the left; fails on a non-digit
/// or once the accumulator could no longer take another digit.
pub open spec fn hex_fold(s: Seq<u8>, acc: u64) -> Option<u64>
    decreases s.len(),
{
    if s.len() == 0 {
        Option::Some(acc)
    } else if !is_hex(s[0]) {
        Option::None
    } else if acc >= 0x1000000000000000 {
        Option::None
    } else {
        hex_fold(s.drop_first(), (16 * acc + hex_val(s[0])) as u64)
    }
}

/// The 64-bit value of a nonempty hex-digit string, when it fits.
pub open spec fn parse_hex_u64(s: Seq<u8>) -> Option<u64> {
    if s.len() == 0 {
        Option::None
    } else {
        hex_fold(s, 0)
    }
}

/// Parses a hex-digit byte string into a 64-bit value.
#[verifier::loop_isolation(false)]
fn parse_hex_u64_exec(s: &Vec<u8>) -> (r: Option<u64>)
    ensures
        r == parse_hex_u64(s@),
{
    if s.len() == 0 {
        return None;
    }
    let mut acc: u64 = 0;
    let mut i: usize = 0;
    proof {
        assert(s@.skip(0) =~= s@);
    }
    while i < s.len()
        invariant
            i <= s@.len(),
            hex_fold(s@.skip(i as int), acc) == parse_hex_u64(s@),
        decreases s@.len() - i,
    {
        let b = s[i];
        proof {
            assert(s@.skip(i as int)[0] == s@[i as int]);
            assert(s@.skip(i as int).drop_first() =~= s@.skip(i + 1));
        }
        let v: u8 = if 48 <= b && b <= 57 {
            (b - 48) as u8
        } else if 97 <= b && b <= 102 {
            (b - 87) as u8
        } else if 65 <= b && b <= 70 {
            (b - 55) as u8
        } else {
            return None;
        };
        if acc >= 0x1000000000000000 {
            return None;
        }
        acc = 16 * acc + (v as u64);
        i += 1;
    }
    proof {
        assert(s@.skip(s@.len() as int) =~= Seq::<u8>::empty());
    }
    Some(acc)
}

/// Looks a key up among an object's entries; the first match wins.
pub open spec fn obj_lookup(ps: Seq<(String, Value)>, key: Seq<char>) -> Option<Value>
    decreases ps.len(),
{
    if ps.len() == 0 {
        Option::None
    } else if ps[0].0@ == key {
        Option::Some(ps[0].1)
    } else {
        obj_lookup(ps.drop_first(), key)
    }
}

/// A "0x" or "0X" marker at the head of a byte string.
pub open spec fn starts_0x(s: Seq<u8>) -> bool {
    s.len() >= 2 && s[0] == 48 && (s[1] == 120 || s[1] == 88)
}

/// The chain id carried by a signature-chain-id field: a marker-prefixed hex
/// string, or a non-negative number; anything else is rejected.
pub open spec fn field_chain_id(f: Value) -> Option<u64> {
    match f {
        Value::Str(s) => if starts_0x(encode_utf8(s@)) {
            parse_hex_u64(encode_utf8(s@).skip(2))
        } else {
            Option::None
        },
        Value::UInt(n) => Option::Some(n),
        Value::Int(n) => if n >= 0 {
            Option::Some(n as u64)
        } else {
            Option::None
        },
        _ => Option::None,
    }
}

/// The chain id read from an action body's signatureChainId entry.
pub open spec fn chain_id_of_value(v: Value) -> Option<u64> {
    match v {
        Value::Obj(ps) => match obj_lookup(ps@, "signatureChainId"@) {
            Option::Some(f) => field_chain_id(f),
            Option::None => Option::None,
        },
        _ => Option::None,
    }
}

fn read_chain_id_field(f: &Value) -> (r: Result<u64, Error>)
    ensures
        r is Ok <==> field_chain_id(*f) is Some,
        r matches Ok(id) ==> field_chain_id(*f) == Option::Some(id),
        r matches Err(e) ==> e is JsonParse,
{
    match f {
        Value::Str(st) => {
            let bytes = st.as_str().as_bytes_vec();
            if bytes.len() >= 2 {
                let b0 = bytes[0];
                let b1 = bytes[1];
                if b0 == 48 && (b1 == 120 || b1 == 88) {
                    let body = dup_range(&bytes, 2, bytes.len());
                    proof {
                        assert(body@ =~= encode_utf8(st@).skip(2));
                    }
                    match parse_hex_u64_exec(&body) {
                        Option::Some(id) => {
                            return Ok(id);
                        }
                        Option::None => {
                            return Err(Error::JsonParse("invalid signatureChainId".to_owned()));
                        }
                    }
                }
            }
            Err(Error::JsonParse("missing signatureChainId".to_owned()))
        }
        Value::UInt(n) => Ok(*n),
        Value::Int(n) => {
            if *n >= 0 {
                Ok(*n as u64)
            } else {
                Err(Error::JsonParse("invalid signatureChainId number".to_owned()))
            }
        }
        _ => Err(Error::JsonParse("missing signatureChainId".to_owned())),
    }
}

/// Reads the numeric signature-chain id from an action body: either a
/// "0x"-prefixed hex string or a non-negative number under the key
/// "signatureChainId" of the top-level object.
#[verifier::loop_isolation(false)]
pub fn extract_signature_chain_id(action: &Value) -> (r: Result<u64, Error>)
    ensures
        r is Ok <==> chain_id_of_value(*action) is Some,
        r matches Ok(id) ==> chain_id_of_value(*action) == Option::Some(id),
        r matches Err(e) ==> e is JsonParse,
{
    match action {
        Value::Obj(ps) => {
            let key = String::from_str("signatureChainId");
            let mut i: usize = 0;
            proof {
                assert(ps@.skip(0) =~= ps@);
            }
            while i < ps.len()
                invariant
                    i <= ps@.len(),
                    key@ == "signatureChainId"@,
                    obj_lookup(ps@.skip(i as int), "signatureChainId"@) == obj_lookup(
                        ps@,
                        "signatureChainId"@,
                    ),
                decreases ps@.len() - i,
            {
                let pair = &ps[i];
                proof {
                    assert(ps@.skip(i as int)[0] == ps@[i as int]);
                    assert(ps@.skip(i as int).drop_first() =~= ps@.skip(i + 1));
                }
                if pair.0.eq(&key) {
                    proof {
                        assert(obj_lookup(ps@.skip(i as int), "signatureChainId"@)
                            == Option::Some(ps@[i as int].1));
                    }
                    return read_chain_id_field(&pair.1);
                }
                i += 1;
            }
            proof {
                assert(ps@.skip(ps@.len() as int) =~= Seq::<(String, Value)>::empty());
            }
            Err(Error::JsonParse("missing signatureChainId".to_owned()))
        }
        _ => Err(Error::JsonParse("action must be a JSON object".to_owned())),
    }
}

/// The digest signed by a multi-sig send: the transaction domain under the
/// action's own signature chain id, wrapping the multi-sig action hash.
pub open spec fn send_multi_sig_digest(
    chain_id: u64,
    hl_chain: Seq<char>,
    ms_hash: Seq<u8>,
    nonce: u64,
) -> Seq<u8> {
    eip712_digest(
        domain_sep("HyperliquidSignTransaction"@, "1"@, chain_id),
        keccak_of(
            str_hash_word(
                "HyperliquidTransaction:SendMultiSig(string hyperliquidChain,bytes32 multiSigActionHash,uint64 nonce)"@,
            ) + str_hash_word(hl_chain) + ms_hash + word_u64(nonce),
        ),
    )
}

/// Signs an arbitrary multi-sig action body: the numeric signature-chain id
/// is read from the body's signatureChainId entry, the body is hashed through
/// the action hasher, and the hash is wrapped in a SendMultiSig message.
pub fn sign_multi_sig_action_ex(
    private_key_hex: &String,
    action: &Value,
    nonce: u64,
    is_mainnet: bool,
    vault_address: Option<String>,
    expires_after: Option<u64>,
) -> (r: Result<SignatureResult, Error>)
    ensures
        !wallet_key_ok(private_key_hex@) ==> r matches Err(Error::Wallet(_)),
        wallet_key_ok(private_key_hex@) && chain_id_of_value(*action) is None ==> r matches Err(
            Error::JsonParse(_),
        ),
        wallet_key_ok(private_key_hex@) && chain_id_of_value(*action) is Some && !opt_addr_ok(
            vault_address,
        ) ==> r matches Err(Error::GenericParse(_)),
        wallet_key_ok(private_key_hex@) && chain_id_of_value(*action) is Some && opt_addr_ok(
            vault_address,
        ) && !enc_ok(*action) ==> r matches Err(Error::RmpParse(_)),
        r is Ok <==> wallet_key_ok(private_key_hex@) && chain_id_of_value(*action) is Some
            && opt_addr_ok(vault_address) && enc_ok(*action) && secret_key_valid(
            wallet_key_bytes(private_key_hex@),
        ) && ecdsa_sign_ok(
            wallet_key_bytes(private_key_hex@),
            send_multi_sig_digest(
                chain_id_of_value(*action)->Some_0,
                chain_name(is_mainnet),
                value_hash(*action, nonce, opt_addr_bytes(vault_address), expires_after),
                nonce,
            ),
        ),
        wallet_key_ok(private_key_hex@) && chain_id_of_value(*action) is Some && opt_addr_ok(
            vault_address,
        ) && enc_ok(*action) && !secret_key_valid(wallet_key_bytes(private_key_hex@))
            ==> r matches Err(Error::Wallet(_)),
        wallet_key_ok(private_key_hex@) && chain_id_of_value(*action) is Some && opt_addr_ok(
            vault_address,
        ) && enc_ok(*action) && secret_key_valid(wallet_key_bytes(private_key_hex@)) && r is Err
            ==> r matches Err(Error::SignatureFailure(_)),
        r matches Ok(out) ==> sig_result_matches(
            out,
            ecdsa_signature(
                wallet_key_bytes(private_key_hex@),
                send_multi_sig_digest(
                    chain_id_of_value(*action)->Some_0,
                    chain_name(is_mainnet),
                    value_hash(*action, nonce, opt_addr_bytes(vault_address), expires_after),
                    nonce,
                ),
            ),
            Option::None,
        ),
{
    let wallet = match parse_wallet(private_key_hex.as_str()) {
        Ok(w) => w,
        Err(e) => {
            return Err(e);
        }
    };
    let sig_chain_id = match extract_signature_chain_id(action) {
        Ok(id) => id,
        Err(e) => {
            return Err(e);
        }
    };
    let vault = match parse_optional_address(vault_address) {
        Ok(v) => v,
        Err(e) => {
            return Err(e);
        }
    };
    let ms_hash = match hash_json_value_with_exp(action, nonce, vault, expires_after) {
        Ok(h) => h,
        Err(e) => {
            return Err(e);
        }
    };
    let (_, hyperliquid_chain) = chain(is_mainnet);
    let payload = SendMultiSig {
        signature_chain_id: sig_chain_id,
        hyperliquid_chain,
        multi_sig_action_hash: ms_hash,
        nonce,
    };
    let digest = payload.eip712_signing_hash();
    let sig = match ecdsa_sign(&wallet, &digest) {
        Ok(s) => s,
        Err(e) => {
            return Err(e);
        }
    };
    Ok(signature_to_map(sig, None))
}

/// A rendered connection id round-trips: the "0x"-prefixed lowercase hex
/// rendering of any 32-byte digest is a well-formed connection-id string and
/// denotes exactly those bytes. The connection id carried in a signing
/// result is therefore a fit input to `sign_l1_action`, which then signs the
/// agent digest of the same hash.
pub proof fn lemma_connection_id_round_trip(h: Seq<u8>)
    requires
        h.len() == 32,
    ensures
        cid_str_ok(hex0x_chars(h)),
        cid_str_bytes(hex0x_chars(h)) == h,
{
    let b = seq![48u8, 120u8] + hex_lower(h);
    lemma_hex_lower_ascii(h);
    assert(forall|i: int| 0 <= i < b.len() ==> #[trigger] b[i] < 128) by {
        assert(b[0] == 48 && b[1] == 120);
        assert(forall|i: int| 2 <= i < b.len() ==> #[trigger] b[i] == hex_lower(h)[i - 2]);
    }
    let chars = ascii_chars(b);
    assert(forall|i: int| 0 <= i < chars.len() ==> #[trigger] chars[i] == b[i] as char);
    assert(vstd::utf8::is_ascii_chars(chars)) by {
        assert(forall|i: int|
            0 <= i < chars.len() ==> '\0' <= #[trigger] chars[i] <= '\u{7f}');
    }
    vstd::utf8::is_ascii_chars_encode_utf8(chars);
    assert(encode_utf8(chars) =~= b);
    assert(strip_0x(b) =~= hex_lower(h));
    assert(all_hex(hex_lower(h)));
    assert(hex_decoded(hex_lower(h)) =~= h) by {
        assert forall|i: int| 0 <= i < 32 implies hex_decoded(hex_lower(h))[i] == h[i] by {
            let x = h[i];
            assert(hex_lower(h)[2 * i] == nibble_lower((x >> 4) as u8));
            assert(hex_lower(h)[2 * i + 1] == nibble_lower((x & 0xf) as u8));
            assert(x >> 4 < 16 && x & 0xf < 16) by (bit_vector);
            assert(hex_val(nibble_lower((x >> 4) as u8)) == (x >> 4) as u8);
            assert(hex_val(nibble_lower((x & 0xf) as u8)) == (x & 0xf) as u8);
            assert(16 * (x >> 4) + (x & 0xf) == x) by (bit_vector);
        }
    }
}

// ===== Address derivation =====

/// Derives the EIP-55 checksummed account address of a private key: the
/// 20-byte address rendered as lowercase hex, then case-mixed.
pub fn derive_address(private_key_hex: &String) -> (r: Result<String, Error>)
    ensures
        !wallet_key_ok(private_key_hex@) ==> r matches Err(Error::Wallet(_)),
        r is Ok <==> wallet_key_ok(private_key_hex@) && secret_key_valid(
            wallet_key_bytes(private_key_hex@),
        ),
        r matches Ok(s) ==> s@ == ascii_chars(
            seq![48u8, 120u8] + checksum_core(
                hex_lower(account_of_key(wallet_key_bytes(private_key_hex@))),
            ),
        ) && s@.len() == 42,
        r matches Err(e) ==> e is Wallet,
{
    let wallet = match parse_wallet(private_key_hex.as_str()) {
        Ok(w) => w,
        Err(e) => {
            return Err(e);
        }
    };
    let addr = match ecdsa_address(&wallet) {
        Ok(a) => a,
        Err(e) => {
            return Err(e);
        }
    };
    let mut lower: Vec<u8> = Vec::new();
    push_hex_lower(&mut lower, &addr);
    let mixed = crate::checksum::checksum_body(&lower);
    let mut out: Vec<u8> = Vec::new();
    out.push(48);
    out.push(120);
    crate::bytesfmt::push_bytes(&mut out, &mixed);
    proof {
        assert(out@ =~= seq![48u8, 120u8] + checksum_core(hex_lower(addr@)));
        lemma_hex_lower_ascii(addr@);
        crate::checksum::lemma_checksum_core_hex(lower@);
        assert(forall|j: int| 0 <= j < out@.len() ==> #[trigger] out@[j] < 128);
    }
    Ok(ascii_string(&out))
}

} // verus!
