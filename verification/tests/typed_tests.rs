use ethers_core::types::transaction::eip712::{Eip712, TypedData};
use ethers_core::types::{RecoveryMessage, Signature as EthersSignature, H256, U256};
use hl_signer::action::Address;
use hl_signer::api::{derive_address, sign_l1_action, sign_usd_send};
use hl_signer::error::Error;
use hl_signer::msgpack::Value;
use hl_signer::typed::{chain_id_word, sign_typed_data, typed_data_digest, FieldDef, TypeDef, TypedDomain};

fn unhex(s: &str) -> Vec<u8> {
    let s = s.trim_start_matches("0x");
    let digits: Vec<u8> = s
        .bytes()
        .map(|b| match b {
            b'0'..=b'9' => b - b'0',
            b'a'..=b'f' => b - b'a' + 10,
            b'A'..=b'F' => b - b'A' + 10,
            _ => panic!("not hex"),
        })
        .collect();
    digits.chunks(2).map(|p| 16 * p[0] + p[1]).collect()
}

const TEST_KEY: &str = "0x4c0883a69102937d6231471b5dbb6204fe512961708279feb1be6ae5538da033";

fn jstr(s: &str) -> serde_json::Value {
    serde_json::Value::String(s.to_string())
}

fn jnum(n: u64) -> serde_json::Value {
    serde_json::Value::Number(serde_json::Number::from(n))
}

fn field(name: &str, ty: &str) -> serde_json::Value {
    let mut m = serde_json::Map::new();
    m.insert("name".to_string(), jstr(name));
    m.insert("type".to_string(), jstr(ty));
    serde_json::Value::Object(m)
}

fn ethers_typed(
    domain: serde_json::Value,
    types: serde_json::Value,
    message: serde_json::Value,
    primary: &str,
) -> TypedData {
    let mut root = serde_json::Map::new();
    root.insert("domain".to_string(), domain);
    root.insert("types".to_string(), types);
    root.insert("message".to_string(), message);
    root.insert("primaryType".to_string(), jstr(primary));
    serde_json::from_value(serde_json::Value::Object(root)).unwrap()
}

fn domain_type_fields() -> serde_json::Value {
    serde_json::Value::Array(vec![
        field("name", "string"),
        field("version", "string"),
        field("chainId", "uint256"),
        field("verifyingContract", "address"),
    ])
}

#[test]
fn l1_signature_recovers_to_derived_address() {
    let cid = format!("0x{}", "11".repeat(32));
    let out = sign_l1_action(&TEST_KEY.to_string(), &cid, true).unwrap();

    // Independent digest through the reference typed-data encoder.
    let mut domain = serde_json::Map::new();
    domain.insert("name".to_string(), jstr("Exchange"));
    domain.insert("version".to_string(), jstr("1"));
    domain.insert("chainId".to_string(), jnum(1337));
    domain.insert(
        "verifyingContract".to_string(),
        jstr("0x0000000000000000000000000000000000000000"),
    );
    let mut types = serde_json::Map::new();
    types.insert("EIP712Domain".to_string(), domain_type_fields());
    types.insert(
        "Agent".to_string(),
        serde_json::Value::Array(vec![field("source", "string"), field("connectionId", "bytes32")]),
    );
    let mut message = serde_json::Map::new();
    message.insert("source".to_string(), jstr("a"));
    message.insert("connectionId".to_string(), jstr(&cid));
    let typed = ethers_typed(
        serde_json::Value::Object(domain),
        serde_json::Value::Object(types),
        serde_json::Value::Object(message),
        "Agent",
    );
    let digest = typed.encode_eip712().unwrap();

    // Recover the signer from (digest, r, s, v) and compare with the derived
    // address.
    let sig = EthersSignature {
        r: U256::from_big_endian(&unhex(&out.r)),
        s: U256::from_big_endian(&unhex(&out.s)),
        v: out.v,
    };
    let recovered = sig.recover(RecoveryMessage::Hash(H256::from(digest))).unwrap();
    let derived = derive_address(&TEST_KEY.to_string()).unwrap().to_lowercase();
    assert_eq!(format!("0x{:x}", recovered), derived);
}

#[test]
fn generic_digest_matches_reference_encoder() {
    // A flat schema exercising every elementary kind and an array.
    let our_domain = TypedDomain {
        name: Some("Test".to_string()),
        version: Some("1".to_string()),
        chain_id: Some(chain_id_word(5)),
        verifying_contract: Some(Address::new(unhex(
            "0x1111111111111111111111111111111111111111",
        ))),
        salt: None,
    };
    let our_types = vec![TypeDef {
        name: "Mail".to_string(),
        fields: vec![
            FieldDef { name: "from".to_string(), type_str: "address".to_string() },
            FieldDef { name: "amount".to_string(), type_str: "uint256".to_string() },
            FieldDef { name: "flag".to_string(), type_str: "bool".to_string() },
            FieldDef { name: "note".to_string(), type_str: "string".to_string() },
            FieldDef { name: "data".to_string(), type_str: "bytes".to_string() },
            FieldDef { name: "tag".to_string(), type_str: "bytes32".to_string() },
            FieldDef { name: "nums".to_string(), type_str: "uint256[]".to_string() },
        ],
    }];
    let tag_hex = format!("0x{}", "22".repeat(32));
    let our_message = Value::Obj(vec![
        (
            "from".to_string(),
            Value::Str("0x2222222222222222222222222222222222222222".to_string()),
        ),
        ("amount".to_string(), Value::UInt(1000)),
        ("flag".to_string(), Value::Bool(true)),
        ("note".to_string(), Value::Str("hi there".to_string())),
        ("data".to_string(), Value::Str("0xdeadbeef".to_string())),
        ("tag".to_string(), Value::Str(tag_hex.clone())),
        (
            "nums".to_string(),
            Value::Arr(vec![Value::UInt(1), Value::UInt(2), Value::UInt(3)]),
        ),
    ]);
    let ours = typed_data_digest(
        &our_domain,
        &our_types,
        &our_message,
        &"Mail".to_string(),
    )
    .unwrap();

    let mut domain = serde_json::Map::new();
    domain.insert("name".to_string(), jstr("Test"));
    domain.insert("version".to_string(), jstr("1"));
    domain.insert("chainId".to_string(), jnum(5));
    domain.insert(
        "verifyingContract".to_string(),
        jstr("0x1111111111111111111111111111111111111111"),
    );
    let mut types = serde_json::Map::new();
    types.insert("EIP712Domain".to_string(), domain_type_fields());
    types.insert(
        "Mail".to_string(),
        serde_json::Value::Array(vec![
            field("from", "address"),
            field("amount", "uint256"),
            field("flag", "bool"),
            field("note", "string"),
            field("data", "bytes"),
            field("tag", "bytes32"),
            field("nums", "uint256[]"),
        ]),
    );
    let mut message = serde_json::Map::new();
    message.insert(
        "from".to_string(),
        jstr("0x2222222222222222222222222222222222222222"),
    );
    message.insert("amount".to_string(), jnum(1000));
    message.insert("flag".to_string(), serde_json::Value::Bool(true));
    message.insert("note".to_string(), jstr("hi there"));
    message.insert("data".to_string(), jstr("0xdeadbeef"));
    message.insert("tag".to_string(), jstr(&tag_hex));
    message.insert(
        "nums".to_string(),
        serde_json::Value::Array(vec![jnum(1), jnum(2), jnum(3)]),
    );
    let typed = ethers_typed(
        serde_json::Value::Object(domain),
        serde_json::Value::Object(types),
        serde_json::Value::Object(message),
        "Mail",
    );
    let want = typed.encode_eip712().unwrap();
    assert_eq!(ours, want.to_vec());
}

#[test]
fn static_and_dynamic_usd_send_agree() {
    let destination = "0x2222222222222222222222222222222222222222";
    let amount = "123.45";
    let time: u64 = 1690393044548;

    let fixed = sign_usd_send(
        &TEST_KEY.to_string(),
        destination.to_string(),
        amount.to_string(),
        time,
        true,
    )
    .unwrap();

    let domain = TypedDomain {
        name: Some("HyperliquidSignTransaction".to_string()),
        version: Some("1".to_string()),
        chain_id: Some(chain_id_word(42161)),
        verifying_contract: Some(Address::new(vec![0u8; 20])),
        salt: None,
    };
    let types = vec![TypeDef {
        name: "HyperliquidTransaction:UsdSend".to_string(),
        fields: vec![
            FieldDef {
                name: "hyperliquidChain".to_string(),
                type_str: "string".to_string(),
            },
            FieldDef {
                name: "destination".to_string(),
                type_str: "string".to_string(),
            },
            FieldDef { name: "amount".to_string(), type_str: "string".to_string() },
            FieldDef { name: "time".to_string(), type_str: "uint64".to_string() },
        ],
    }];
    let message = Value::Obj(vec![
        (
            "hyperliquidChain".to_string(),
            Value::Str("Mainnet".to_string()),
        ),
        ("destination".to_string(), Value::Str(destination.to_string())),
        ("amount".to_string(), Value::Str(amount.to_string())),
        ("time".to_string(), Value::UInt(time)),
    ]);
    let dynamic = sign_typed_data(
        &TEST_KEY.to_string(),
        &domain,
        &types,
        &message,
        &"HyperliquidTransaction:UsdSend".to_string(),
    )
    .unwrap();

    assert_eq!(fixed.signature, dynamic.signature);
    assert_eq!(fixed.r, dynamic.r);
    assert_eq!(fixed.s, dynamic.s);
    assert_eq!(fixed.v, dynamic.v);
}

#[test]
fn usd_send_matches_independent_signature() {
    let destination = "0x2222222222222222222222222222222222222222";
    let amount = "1";
    let time: u64 = 1;
    let out = sign_usd_send(
        &TEST_KEY.to_string(),
        destination.to_string(),
        amount.to_string(),
        time,
        false,
    )
    .unwrap();

    let mut domain = serde_json::Map::new();
    domain.insert("name".to_string(), jstr("HyperliquidSignTransaction"));
    domain.insert("version".to_string(), jstr("1"));
    domain.insert("chainId".to_string(), jnum(42161));
    domain.insert(
        "verifyingContract".to_string(),
        jstr("0x0000000000000000000000000000000000000000"),
    );
    let mut types = serde_json::Map::new();
    types.insert("EIP712Domain".to_string(), domain_type_fields());
    types.insert(
        "HyperliquidTransaction:UsdSend".to_string(),
        serde_json::Value::Array(vec![
            field("hyperliquidChain", "string"),
            field("destination", "string"),
            field("amount", "string"),
            field("time", "uint64"),
        ]),
    );
    let mut message = serde_json::Map::new();
    message.insert("hyperliquidChain".to_string(), jstr("Testnet"));
    message.insert("destination".to_string(), jstr(destination));
    message.insert("amount".to_string(), jstr(amount));
    message.insert("time".to_string(), jnum(time));
    let typed = ethers_typed(
        serde_json::Value::Object(domain),
        serde_json::Value::Object(types),
        serde_json::Value::Object(message),
        "HyperliquidTransaction:UsdSend",
    );
    let digest = typed.encode_eip712().unwrap();

    let signer = alloy::signers::local::PrivateKeySigner::from_slice(&unhex(TEST_KEY)).unwrap();
    let sig = alloy::signers::SignerSync::sign_hash_sync(
        &signer,
        &alloy::primitives::B256::from(digest),
    )
    .unwrap();
    assert_eq!(out.r, format!("0x{:064x}", sig.r()));
    assert_eq!(out.s, format!("0x{:064x}", sig.s()));
    assert_eq!(out.v, 27 + (sig.v() as u64));
}

#[test]
fn typed_data_rejects_unknown_primary_type() {
    let domain = TypedDomain {
        name: Some("T".to_string()),
        version: None,
        chain_id: None,
        verifying_contract: None,
        salt: None,
    };
    let r = typed_data_digest(
        &domain,
        &vec![],
        &Value::Obj(vec![]),
        &"Missing".to_string(),
    );
    assert!(matches!(r, Err(Error::TypedData(_))));
}

#[test]
fn approve_agent_absent_name_hashes_as_empty_string() {
    let out_none = hl_signer::api::sign_approve_agent(
        &TEST_KEY.to_string(),
        "0x1234567890abcdef1234567890abcdef12345678".to_string(),
        None,
        5,
        true,
    )
    .unwrap();
    let out_empty = hl_signer::api::sign_approve_agent(
        &TEST_KEY.to_string(),
        "0x1234567890abcdef1234567890abcdef12345678".to_string(),
        Some(String::new()),
        5,
        true,
    )
    .unwrap();
    assert_eq!(out_none.signature, out_empty.signature);

    let out_named = hl_signer::api::sign_approve_agent(
        &TEST_KEY.to_string(),
        "0x1234567890abcdef1234567890abcdef12345678".to_string(),
        Some("bot".to_string()),
        5,
        true,
    )
    .unwrap();
    assert_ne!(out_none.signature, out_named.signature);
}

#[test]
fn withdraw_and_spot_send_match_reference_digests() {
    // Withdraw digest against the reference typed-data encoder.
    let mut domain = serde_json::Map::new();
    domain.insert("name".to_string(), jstr("HyperliquidSignTransaction"));
    domain.insert("version".to_string(), jstr("1"));
    domain.insert("chainId".to_string(), jnum(42161));
    domain.insert(
        "verifyingContract".to_string(),
        jstr("0x0000000000000000000000000000000000000000"),
    );
    let mut types = serde_json::Map::new();
    types.insert("EIP712Domain".to_string(), domain_type_fields());
    types.insert(
        "HyperliquidTransaction:Withdraw".to_string(),
        serde_json::Value::Array(vec![
            field("hyperliquidChain", "string"),
            field("destination", "string"),
            field("amount", "string"),
            field("time", "uint64"),
        ]),
    );
    let mut message = serde_json::Map::new();
    message.insert("hyperliquidChain".to_string(), jstr("Mainnet"));
    message.insert(
        "destination".to_string(),
        jstr("0x3333333333333333333333333333333333333333"),
    );
    message.insert("amount".to_string(), jstr("7"));
    message.insert("time".to_string(), jnum(42));
    let typed = ethers_typed(
        serde_json::Value::Object(domain),
        serde_json::Value::Object(types),
        serde_json::Value::Object(message),
        "HyperliquidTransaction:Withdraw",
    );
    let digest = typed.encode_eip712().unwrap();
    let signer = alloy::signers::local::PrivateKeySigner::from_slice(&unhex(TEST_KEY)).unwrap();
    let sig = alloy::signers::SignerSync::sign_hash_sync(
        &signer,
        &alloy::primitives::B256::from(digest),
    )
    .unwrap();

    let out = hl_signer::api::sign_withdraw3(
        &TEST_KEY.to_string(),
        "0x3333333333333333333333333333333333333333".to_string(),
        "7".to_string(),
        42,
        true,
    )
    .unwrap();
    assert_eq!(out.r, format!("0x{:064x}", sig.r()));
    assert_eq!(out.s, format!("0x{:064x}", sig.s()));
}

fn inner_value(v: u64, s: &str) -> Value {
    Value::Obj(vec![
        ("val".to_string(), Value::UInt(v)),
        ("note".to_string(), Value::Str(s.to_string())),
    ])
}

fn inner_json(v: u64, s: &str) -> serde_json::Value {
    let mut m = serde_json::Map::new();
    m.insert("val".to_string(), jnum(v));
    m.insert("note".to_string(), jstr(s));
    serde_json::Value::Object(m)
}

#[test]
fn nested_struct_digest_matches_reference_encoder() {
    // A two-level schema: the outer type references a struct, an array of
    // structs, and one struct-typed field that is absent from the message
    // (it must encode as a zero word).
    let our_domain = TypedDomain {
        name: Some("Nest".to_string()),
        version: Some("1".to_string()),
        chain_id: Some(chain_id_word(7)),
        verifying_contract: Some(Address::new(unhex(
            "0x1111111111111111111111111111111111111111",
        ))),
        salt: None,
    };
    let our_types = vec![
        TypeDef {
            name: "Outer".to_string(),
            fields: vec![
                FieldDef { name: "title".to_string(), type_str: "string".to_string() },
                FieldDef { name: "inner".to_string(), type_str: "Inner".to_string() },
                FieldDef { name: "items".to_string(), type_str: "Inner[]".to_string() },
                FieldDef { name: "missing".to_string(), type_str: "Inner".to_string() },
            ],
        },
        TypeDef {
            name: "Inner".to_string(),
            fields: vec![
                FieldDef { name: "val".to_string(), type_str: "uint64".to_string() },
                FieldDef { name: "note".to_string(), type_str: "string".to_string() },
            ],
        },
    ];
    let our_message = Value::Obj(vec![
        ("title".to_string(), Value::Str("hello".to_string())),
        ("inner".to_string(), inner_value(1, "a")),
        (
            "items".to_string(),
            Value::Arr(vec![inner_value(2, "b"), inner_value(3, "c")]),
        ),
    ]);
    let ours = typed_data_digest(&our_domain, &our_types, &our_message, &"Outer".to_string())
        .unwrap();

    let mut domain = serde_json::Map::new();
    domain.insert("name".to_string(), jstr("Nest"));
    domain.insert("version".to_string(), jstr("1"));
    domain.insert("chainId".to_string(), jnum(7));
    domain.insert(
        "verifyingContract".to_string(),
        jstr("0x1111111111111111111111111111111111111111"),
    );
    let mut types = serde_json::Map::new();
    types.insert("EIP712Domain".to_string(), domain_type_fields());
    types.insert(
        "Outer".to_string(),
        serde_json::Value::Array(vec![
            field("title", "string"),
            field("inner", "Inner"),
            field("items", "Inner[]"),
            field("missing", "Inner"),
        ]),
    );
    types.insert(
        "Inner".to_string(),
        serde_json::Value::Array(vec![field("val", "uint64"), field("note", "string")]),
    );
    let mut message = serde_json::Map::new();
    message.insert("title".to_string(), jstr("hello"));
    message.insert("inner".to_string(), inner_json(1, "a"));
    message.insert(
        "items".to_string(),
        serde_json::Value::Array(vec![inner_json(2, "b"), inner_json(3, "c")]),
    );
    let typed = ethers_typed(
        serde_json::Value::Object(domain),
        serde_json::Value::Object(types),
        serde_json::Value::Object(message),
        "Outer",
    );
    let want = typed.encode_eip712().unwrap();
    assert_eq!(ours, want.to_vec());
}

#[test]
fn wide_chain_id_matches_reference_encoder() {
    // A chain id of 2^64, beyond any 64-bit value, carried as a 32-byte
    // big-endian word.
    let mut w = vec![0u8; 32];
    w[23] = 1;
    let our_domain = TypedDomain {
        name: Some("Wide".to_string()),
        version: Some("1".to_string()),
        chain_id: Some(w),
        verifying_contract: None,
        salt: None,
    };
    let our_types = vec![TypeDef {
        name: "Ping".to_string(),
        fields: vec![FieldDef { name: "note".to_string(), type_str: "string".to_string() }],
    }];
    let our_message = Value::Obj(vec![("note".to_string(), Value::Str("hi".to_string()))]);
    let ours = typed_data_digest(&our_domain, &our_types, &our_message, &"Ping".to_string())
        .unwrap();

    let mut domain = serde_json::Map::new();
    domain.insert("name".to_string(), jstr("Wide"));
    domain.insert("version".to_string(), jstr("1"));
    domain.insert("chainId".to_string(), jstr("0x10000000000000000"));
    let mut types = serde_json::Map::new();
    types.insert(
        "EIP712Domain".to_string(),
        serde_json::Value::Array(vec![
            field("name", "string"),
            field("version", "string"),
            field("chainId", "uint256"),
        ]),
    );
    types.insert(
        "Ping".to_string(),
        serde_json::Value::Array(vec![field("note", "string")]),
    );
    let mut message = serde_json::Map::new();
    message.insert("note".to_string(), jstr("hi"));
    let typed = ethers_typed(
        serde_json::Value::Object(domain),
        serde_json::Value::Object(types),
        serde_json::Value::Object(message),
        "Ping",
    );
    let want = typed.encode_eip712().unwrap();
    assert_eq!(ours, want.to_vec());
}

#[test]
fn wide_decimal_value_matches_reference_encoder() {
    // A uint256 field given as a decimal string beyond 64 bits.
    let big = "18446744073709551616"; // 2^64
    let our_domain = TypedDomain {
        name: Some("Dec".to_string()),
        version: Some("1".to_string()),
        chain_id: Some(chain_id_word(1)),
        verifying_contract: None,
        salt: None,
    };
    let our_types = vec![TypeDef {
        name: "Pay".to_string(),
        fields: vec![FieldDef { name: "amount".to_string(), type_str: "uint256".to_string() }],
    }];
    let our_message = Value::Obj(vec![("amount".to_string(), Value::Str(big.to_string()))]);
    let ours = typed_data_digest(&our_domain, &our_types, &our_message, &"Pay".to_string())
        .unwrap();

    let mut domain = serde_json::Map::new();
    domain.insert("name".to_string(), jstr("Dec"));
    domain.insert("version".to_string(), jstr("1"));
    domain.insert("chainId".to_string(), jnum(1));
    let mut types = serde_json::Map::new();
    types.insert(
        "EIP712Domain".to_string(),
        serde_json::Value::Array(vec![
            field("name", "string"),
            field("version", "string"),
            field("chainId", "uint256"),
        ]),
    );
    types.insert(
        "Pay".to_string(),
        serde_json::Value::Array(vec![field("amount", "uint256")]),
    );
    let mut message = serde_json::Map::new();
    message.insert("amount".to_string(), jstr(big));
    let typed = ethers_typed(
        serde_json::Value::Object(domain),
        serde_json::Value::Object(types),
        serde_json::Value::Object(message),
        "Pay",
    );
    let want = typed.encode_eip712().unwrap();
    assert_eq!(ours, want.to_vec());
}
