use hl_signer::action::{Actions, BulkOrder, Limit, Order, OrderRequest, SetReferrer};
use hl_signer::api::{
    chain, compute_connection_id, compute_connection_id_ex, derive_address, parse_wallet,
    sign_exchange_action, sign_l1_action, sign_multi_sig_action_ex, sign_usd_send,
};
use hl_signer::checksum::to_checksum_address;
use hl_signer::error::Error;
use hl_signer::hash::hash_ms_action_with_exp;
use hl_signer::msgpack::{encode, Value};
use hl_signer::multisig::{MsAction, MsPayload, MsPayloadAction, MsSignature};

fn unhex(s: &str) -> Vec<u8> {
    let s = s.trim_start_matches("0x");
    let digits: Vec<u8> = s
        .bytes()
        .map(|b| match b {
            b'0'..=b'9' => b - b'0',
            b'a'..=b'f' => b - b'a' + 10,
            b'A'..=b'F' => b - b'A' + 10,
            _ => panic!("not hex"),
        })
        .collect();
    digits.chunks(2).map(|p| 16 * p[0] + p[1]).collect()
}

const TEST_KEY: &str = "0x4c0883a69102937d6231471b5dbb6204fe512961708279feb1be6ae5538da033";

#[test]
fn msgpack_matches_reference_encoder() {
    // Keys chosen in alphabetical order so the reference map, which sorts its
    // keys, iterates in the same order as the library's explicit field list.
    let tree = Value::Obj(vec![
        ("alpha".to_string(), Value::UInt(5)),
        ("beta".to_string(), Value::UInt(200)),
        ("gamma".to_string(), Value::UInt(70000)),
        ("delta2".to_string(), Value::UInt(5_000_000_000)),
        ("epsilon".to_string(), Value::Int(-3)),
        ("zeta".to_string(), Value::Int(-4000)),
        (
            "eta".to_string(),
            Value::Arr(vec![Value::Bool(true), Value::Bool(false), Value::Null]),
        ),
        ("theta".to_string(), Value::Str("hello world".to_string())),
        ("iota".to_string(), Value::Float(0.5f64.to_bits())),
    ]);
    let got = encode(&tree).expect("encodable");

    let mut obj = serde_json::Map::new();
    obj.insert(
        "alpha".to_string(),
        serde_json::Value::Number(serde_json::Number::from(5u64)),
    );
    obj.insert(
        "beta".to_string(),
        serde_json::Value::Number(serde_json::Number::from(200u64)),
    );
    obj.insert(
        "gamma".to_string(),
        serde_json::Value::Number(serde_json::Number::from(70000u64)),
    );
    obj.insert(
        "delta2".to_string(),
        serde_json::Value::Number(serde_json::Number::from(5_000_000_000u64)),
    );
    obj.insert(
        "epsilon".to_string(),
        serde_json::Value::Number(serde_json::Number::from(-3i64)),
    );
    obj.insert(
        "zeta".to_string(),
        serde_json::Value::Number(serde_json::Number::from(-4000i64)),
    );
    obj.insert(
        "eta".to_string(),
        serde_json::Value::Array(vec![
            serde_json::Value::Bool(true),
            serde_json::Value::Bool(false),
            serde_json::Value::Null,
        ]),
    );
    obj.insert(
        "theta".to_string(),
        serde_json::Value::String("hello world".to_string()),
    );
    obj.insert(
        "iota".to_string(),
        serde_json::Value::Number(serde_json::Number::from_f64(0.5).unwrap()),
    );
    // BTreeMap order: alpha, beta, delta2, epsilon, eta, gamma, iota, theta, zeta
    // differs from insertion; rebuild the library tree in sorted order instead.
    let sorted_tree = Value::Obj(vec![
        ("alpha".to_string(), Value::UInt(5)),
        ("beta".to_string(), Value::UInt(200)),
        ("delta2".to_string(), Value::UInt(5_000_000_000)),
        ("epsilon".to_string(), Value::Int(-3)),
        (
            "eta".to_string(),
            Value::Arr(vec![Value::Bool(true), Value::Bool(false), Value::Null]),
        ),
        ("gamma".to_string(), Value::UInt(70000)),
        ("iota".to_string(), Value::Float(0.5f64.to_bits())),
        ("theta".to_string(), Value::Str("hello world".to_string())),
        ("zeta".to_string(), Value::Int(-4000)),
    ]);
    let got_sorted = encode(&sorted_tree).expect("encodable");
    let want = rmp_serde::to_vec_named(&serde_json::Value::Object(obj)).unwrap();
    assert_eq!(got_sorted, want);
    // The unsorted tree holds the same entries, so it has the same length.
    assert_eq!(got.len(), want.len());
}

#[test]
fn action_golden_bytes() {
    // {"type":"setReferrer","code":"ABC"} in canonical MessagePack.
    let action = Actions::SetReferrer(SetReferrer {
        code: "ABC".to_string(),
    });
    let mut out: Vec<u8> = Vec::new();
    assert!(action.push_canon(&mut out));
    let mut want: Vec<u8> = vec![0x82];
    want.push(0xa4);
    want.extend_from_slice(b"type");
    want.push(0xab);
    want.extend_from_slice(b"setReferrer");
    want.push(0xa4);
    want.extend_from_slice(b"code");
    want.push(0xa3);
    want.extend_from_slice(b"ABC");
    assert_eq!(out, want);
}

#[test]
fn connection_id_golden() {
    // keccak256(action bytes + nonce + vault marker) computed independently.
    let action = Actions::SetReferrer(SetReferrer {
        code: "ABC".to_string(),
    });
    let mut body: Vec<u8> = Vec::new();
    assert!(action.push_canon(&mut body));
    let nonce: u64 = 1234567890;
    let mut input = body.clone();
    input.extend_from_slice(&nonce.to_be_bytes());
    input.push(0);
    let want = alloy::primitives::keccak256(&input);
    let got = compute_connection_id(&action, nonce, None).unwrap();
    assert_eq!(got, format!("{:#x}", want));
}

#[test]
fn connection_id_with_vault_golden() {
    let action = Actions::SetReferrer(SetReferrer {
        code: "ABC".to_string(),
    });
    let mut body: Vec<u8> = Vec::new();
    assert!(action.push_canon(&mut body));
    let nonce: u64 = 7;
    let vault = "0x1234567890abcdef1234567890abcdef12345678";
    let mut input = body.clone();
    input.extend_from_slice(&nonce.to_be_bytes());
    input.push(1);
    input.extend_from_slice(&unhex(vault));
    let want = alloy::primitives::keccak256(&input);
    let got = compute_connection_id(&action, nonce, Some(vault.to_string())).unwrap();
    assert_eq!(got, format!("{:#x}", want));
}

#[test]
fn connection_id_deterministic() {
    let action = Actions::Order(BulkOrder {
        orders: vec![OrderRequest {
            asset: 4,
            is_buy: true,
            limit_px: "1100".to_string(),
            sz: "0.2".to_string(),
            reduce_only: false,
            order_type: Order::Limit(Limit {
                tif: "Gtc".to_string(),
            }),
            cloid: None,
        }],
        grouping: "na".to_string(),
        builder: None,
    });
    let a = compute_connection_id(&action, 1681923833000, None).unwrap();
    let b = compute_connection_id(&action, 1681923833000, None).unwrap();
    assert_eq!(a, b);
    assert_eq!(a.len(), 66);
    assert!(a.starts_with("0x"));
}

#[test]
fn expiry_changes_hash_and_absence_appends_nothing() {
    let tree = Value::Obj(vec![("k".to_string(), Value::UInt(1))]);
    let plain = compute_connection_id_ex(&tree, 5, None, None).unwrap();
    let with_expiry = compute_connection_id_ex(&tree, 5, None, Some(10)).unwrap();
    assert_ne!(plain, with_expiry);

    // Reference: absent expiry appends nothing after the vault marker.
    let body = encode(&tree).unwrap();
    let mut input = body.clone();
    input.extend_from_slice(&5u64.to_be_bytes());
    input.push(0);
    assert_eq!(plain, format!("{:#x}", alloy::primitives::keccak256(&input)));
    input.push(0);
    input.extend_from_slice(&10u64.to_be_bytes());
    assert_eq!(
        with_expiry,
        format!("{:#x}", alloy::primitives::keccak256(&input))
    );
}

#[test]
fn generic_value_hash_matches_reference() {
    let tree = Value::Obj(vec![
        ("amount".to_string(), Value::Str("12.5".to_string())),
        ("toPerp".to_string(), Value::Bool(true)),
        ("type".to_string(), Value::Str("usdClassTransfer".to_string())),
    ]);
    let mut obj = serde_json::Map::new();
    obj.insert(
        "amount".to_string(),
        serde_json::Value::String("12.5".to_string()),
    );
    obj.insert("toPerp".to_string(), serde_json::Value::Bool(true));
    obj.insert(
        "type".to_string(),
        serde_json::Value::String("usdClassTransfer".to_string()),
    );
    let mut input = rmp_serde::to_vec_named(&serde_json::Value::Object(obj)).unwrap();
    input.extend_from_slice(&99u64.to_be_bytes());
    input.push(0);
    let want = format!("{:#x}", alloy::primitives::keccak256(&input));
    let got = compute_connection_id_ex(&tree, 99, None, None).unwrap();
    assert_eq!(got, want);
}

#[test]
fn checksum_known_vectors() {
    let cases = [
        "0x5aAeb6053F3E94C9b9A09f33669435E7Ef1BeAed",
        "0xfB6916095ca1df60bB79Ce92cE3Ea74c37c5d359",
        "0xdbF03B407c01E7cD3CBea99509d93f8DDDC8C6FB",
        "0xD1220A0cf47c7B9Be7A2E6BA89F429762e7b9aDb",
    ];
    for want in cases.iter() {
        let lower = want.to_lowercase();
        let got = to_checksum_address(&lower).unwrap();
        assert_eq!(&got, want);
    }
}

#[test]
fn checksum_idempotent_and_case_insensitive() {
    let input = "0x5aaeb6053f3e94c9b9a09f33669435e7ef1beaed".to_string();
    let once = to_checksum_address(&input).unwrap();
    let twice = to_checksum_address(&once).unwrap();
    assert_eq!(once, twice);
    let shouty = input.to_uppercase().replace("0X", "0x");
    let from_upper = to_checksum_address(&shouty).unwrap();
    assert_eq!(once, from_upper);
    // Whitespace and marker stripping.
    let padded = format!("  {}\n", input);
    assert_eq!(once, to_checksum_address(&padded).unwrap());
}

#[test]
fn checksum_rejects_bad_length() {
    let r = to_checksum_address(&"0x1234".to_string());
    assert!(matches!(r, Err(Error::InvalidAddressFormat(_))));
    let r = to_checksum_address(&"0xzzzzzzzzzzzzzzzzzzzzzzzzzzzzzzzzzzzzzzzz".to_string());
    assert!(matches!(r, Err(Error::InvalidAddressFormat(_))));
}

#[test]
fn wallet_rejects_bad_key() {
    assert!(matches!(
        parse_wallet("0x1234"),
        Err(Error::Wallet(_))
    ));
    assert!(matches!(
        sign_usd_send(
            &"0xdead".to_string(),
            "0x0000000000000000000000000000000000000000".to_string(),
            "1".to_string(),
            1,
            true
        ),
        Err(Error::Wallet(_))
    ));
}

#[test]
fn derive_address_matches_reference_signer() {
    let signer =
        alloy::signers::local::PrivateKeySigner::from_slice(&unhex(TEST_KEY)).unwrap();
    let want = format!("{:?}", signer.address()).to_lowercase();
    let got = derive_address(&TEST_KEY.to_string()).unwrap().to_lowercase();
    assert_eq!(got, want);
}

#[test]
fn sign_exchange_action_matches_direct_signature() {
    let action = Actions::SetReferrer(SetReferrer {
        code: "XYZ".to_string(),
    });
    let out = sign_exchange_action(&TEST_KEY.to_string(), &action, 77, true, None).unwrap();
    let cid = out.connection_id.clone().unwrap();
    // Re-sign the same connection id through the one-step entry point.
    let out2 = sign_l1_action(&TEST_KEY.to_string(), &cid, true).unwrap();
    assert_eq!(out.signature, out2.signature);
    assert_eq!(out.r, out2.r);
    assert_eq!(out.s, out2.s);
    assert_eq!(out.v, out2.v);
    assert!(out.v == 27 || out.v == 28);
    assert_eq!(out.signature.len(), 132);
    assert_eq!(out.r.len(), 66);
    assert_eq!(out.s.len(), 66);
}

#[test]
fn ms_action_hash_matches_generic_tree() {
    let ms = MsAction {
        signature_chain_id: "0x66eee".to_string(),
        signatures: vec![MsSignature {
            r: "0x01".to_string(),
            s: "0x02".to_string(),
            v: 27,
        }],
        payload: MsPayload {
            multi_sig_user: "0xabc".to_string(),
            outer_signer: "0xdef".to_string(),
            action: MsPayloadAction {
                type_field: "usdSend".to_string(),
                time: 5,
            },
        },
    };
    let h = hash_ms_action_with_exp(&ms, 9, None, None).unwrap();

    // The same record written as a generic value tree, fields in the same order.
    let tree = Value::Obj(vec![
        (
            "signatureChainId".to_string(),
            Value::Str("0x66eee".to_string()),
        ),
        (
            "signatures".to_string(),
            Value::Arr(vec![Value::Obj(vec![
                ("r".to_string(), Value::Str("0x01".to_string())),
                ("s".to_string(), Value::Str("0x02".to_string())),
                ("v".to_string(), Value::UInt(27)),
            ])]),
        ),
        (
            "payload".to_string(),
            Value::Obj(vec![
                (
                    "multiSigUser".to_string(),
                    Value::Str("0xabc".to_string()),
                ),
                ("outerSigner".to_string(), Value::Str("0xdef".to_string())),
                (
                    "action".to_string(),
                    Value::Obj(vec![
                        ("type".to_string(), Value::Str("usdSend".to_string())),
                        ("time".to_string(), Value::UInt(5)),
                    ]),
                ),
            ]),
        ),
    ]);
    let body = encode(&tree).unwrap();
    let mut input = body;
    input.extend_from_slice(&9u64.to_be_bytes());
    input.push(0);
    let want = alloy::primitives::keccak256(&input);
    assert_eq!(h, want.to_vec());
}

#[test]
fn multi_sig_accepts_hex_and_numeric_chain_id() {
    let tree_hex = Value::Obj(vec![
        (
            "signatureChainId".to_string(),
            Value::Str("0xa4b1".to_string()),
        ),
        ("x".to_string(), Value::UInt(1)),
    ]);
    let tree_num = Value::Obj(vec![
        ("signatureChainId".to_string(), Value::UInt(0xa4b1)),
        ("x".to_string(), Value::UInt(1)),
    ]);
    let a =
        sign_multi_sig_action_ex(&TEST_KEY.to_string(), &tree_hex, 3, true, None, None).unwrap();
    let b =
        sign_multi_sig_action_ex(&TEST_KEY.to_string(), &tree_num, 3, true, None, None);
    // The chain ids agree but the hashed bodies differ (string against number),
    // so only the digests' chain ids coincide; both calls must succeed.
    assert!(b.is_ok());
    assert!(a.v == 27 || a.v == 28);

    let missing = Value::Obj(vec![("x".to_string(), Value::UInt(1))]);
    let r = sign_multi_sig_action_ex(&TEST_KEY.to_string(), &missing, 3, true, None, None);
    assert!(matches!(r, Err(Error::JsonParse(_))));
}

#[test]
fn chain_constants() {
    let (id, name) = chain(true);
    assert_eq!(id, 42161);
    assert_eq!(name, "Mainnet");
    let (id2, name2) = chain(false);
    assert_eq!(id2, 42161);
    assert_eq!(name2, "Testnet");
}

#[test]
fn bad_vault_address_is_rejected() {
    let action = Actions::SetReferrer(SetReferrer {
        code: "A".to_string(),
    });
    let r = compute_connection_id(&action, 1, Some("0x123".to_string()));
    assert!(matches!(r, Err(Error::GenericParse(_))));
}

#[test]
fn vault_transfer_golden_bytes() {
    // The vault address serializes as a 20-byte binary, not as a string.
    let addr = hl_signer::action::Address::new(vec![0xab; 20]);
    let action = Actions::VaultTransfer(hl_signer::action::VaultTransfer {
        vault_address: addr,
        is_deposit: true,
        usd: 5,
    });
    let mut out: Vec<u8> = Vec::new();
    assert!(action.push_canon(&mut out));
    let mut want: Vec<u8> = vec![0x84];
    want.push(0xa4);
    want.extend_from_slice(b"type");
    want.push(0xad);
    want.extend_from_slice(b"vaultTransfer");
    want.push(0xac);
    want.extend_from_slice(b"vaultAddress");
    want.push(0xc4);
    want.push(20);
    want.extend_from_slice(&[0xab; 20]);
    want.push(0xa9);
    want.extend_from_slice(b"isDeposit");
    want.push(0xc3);
    want.push(0xa3);
    want.extend_from_slice(b"usd");
    want.push(0x05);
    assert_eq!(out, want);
}

#[test]
fn schedule_cancel_omits_absent_time() {
    // {"type":"scheduleCancel"} only: a one-entry map.
    let action = Actions::ScheduleCancel(hl_signer::action::ScheduleCancel { time: None });
    let mut out: Vec<u8> = Vec::new();
    assert!(action.push_canon(&mut out));
    assert_eq!(out[0], 0x81);
    let with_time =
        Actions::ScheduleCancel(hl_signer::action::ScheduleCancel { time: Some(1) });
    let mut out2: Vec<u8> = Vec::new();
    assert!(with_time.push_canon(&mut out2));
    assert_eq!(out2[0], 0x82);
    assert_eq!(out2.len(), out.len() + 6);
}

#[test]
fn typed_action_and_wire_tree_share_a_connection_id() {
    // The typed encoder and the generic value encoder hash a setReferrer
    // action identically when the tree lists the tag entry first.
    let action = Actions::SetReferrer(SetReferrer { code: "WELCOME".to_string() });
    let tree = Value::Obj(vec![
        ("type".to_string(), Value::Str("setReferrer".to_string())),
        ("code".to_string(), Value::Str("WELCOME".to_string())),
    ]);
    let a = compute_connection_id(&action, 77, None).unwrap();
    let b = compute_connection_id_ex(&tree, 77, None, None).unwrap();
    assert_eq!(a, b);
    assert_eq!(a.len(), 66);
}

#[test]
fn checksum_strips_one_marker_only() {
    let body = "fb6916095ca1df60bb79ce92ce3ea74c37c5d359";
    let single = to_checksum_address(&format!("0x{}", body)).unwrap();
    assert_eq!(single, "0xfB6916095ca1df60bB79Ce92cE3Ea74c37c5d359");
    // A doubled marker is not an address: the body after one strip is not
    // 40 hex digits.
    assert!(to_checksum_address(&format!("0x0x{}", body)).is_err());
    assert!(to_checksum_address(&format!("0x0X{}", body)).is_err());
}
