use vstd::prelude::*;
use vstd::string::StrSliceExecFns;
use vstd::utf8::encode_utf8;
use crate::action::Address;
use crate::api::{
    obj_lookup, parse_wallet, sig_result_matches, signature_to_map, wallet_key_bytes,
    wallet_key_ok, SignatureResult,
};
use crate::bytesfmt::{all_hex, hex_decoded, push_bytes, dup_range};
use crate::crypto::{
    ecdsa_sign, ecdsa_sign_ok, ecdsa_signature, keccak_of, keccak256, secret_key_valid,
};
use crate::eip712::{
    eip712_digest, push_str_hash, push_word_addr, push_word_u64, push_zeros, signing_digest,
    str_hash_word, word_addr, word_u64, zero_seq,
};
use crate::error::Error;
use crate::msgpack::{lemma_vdepth_seq_elem, vdepth, vdepth_seq, Value};

verus! {

// ===== The caller-supplied schema =====

/// One field of a struct type: its name and its EIP-712 type string.
pub struct FieldDef {
    pub name: String,
    pub type_str: String,
}

/// One struct type of a caller-supplied type graph.
pub struct TypeDef {
    pub name: String,
    pub fields: Vec<FieldDef>,
}

/// A caller-supplied EIP-712 domain; absent fields are left out of the
/// domain type, in the standard's fixed order. The chain id is carried as a
/// full 32-byte big-endian ABI word, so 256-bit chain ids are representable.
pub struct TypedDomain {
    pub name: Option<String>,
    pub version: Option<String>,
    pub chain_id: Option<Vec<u8>>,
    pub verifying_contract: Option<Address>,
    pub salt: Option<Vec<u8>>,
}

/// Builds the 32-byte chain-id word of a 64-bit chain id.
pub fn chain_id_word(n: u64) -> (r: Vec<u8>)
    ensures
        r@ == word_u64(n),
        r@.len() == 32,
{
    let mut out: Vec<u8> = Vec::new();
    push_word_u64(&mut out, n);
    assert(out@ =~= word_u64(n));
    out
}

// ===== The domain separator of a generic domain =====

/// The type string of a generic domain, over the fields that are present.
pub open spec fn gen_domain_type_bytes(d: TypedDomain) -> Seq<u8> {
    encode_utf8("EIP712Domain("@) + (if d.name is Some {
        encode_utf8("string name"@)
    } else {
        Seq::<u8>::empty()
    }) + (if d.version is Some {
        (if d.name is Some {
            encode_utf8(","@)
        } else {
            Seq::<u8>::empty()
        }) + encode_utf8("string version"@)
    } else {
        Seq::<u8>::empty()
    }) + (if d.chain_id is Some {
        (if d.name is Some || d.version is Some {
            encode_utf8(","@)
        } else {
            Seq::<u8>::empty()
        }) + encode_utf8("uint256 chainId"@)
    } else {
        Seq::<u8>::empty()
    }) + (if d.verifying_contract is Some {
        (if d.name is Some || d.version is Some || d.chain_id is Some {
            encode_utf8(","@)
        } else {
            Seq::<u8>::empty()
        }) + encode_utf8("address verifyingContract"@)
    } else {
        Seq::<u8>::empty()
    }) + (if d.salt is Some {
        (if d.name is Some || d.version is Some || d.chain_id is Some
            || d.verifying_contract is Some {
            encode_utf8(","@)
        } else {
            Seq::<u8>::empty()
        }) + encode_utf8("bytes32 salt"@)
    } else {
        Seq::<u8>::empty()
    }) + encode_utf8(")"@)
}

/// The concatenated ABI words of the present domain fields.
pub open spec fn gen_domain_words(d: TypedDomain) -> Seq<u8> {
    (match d.name {
        Option::Some(n) => str_hash_word(n@),
        Option::None => Seq::<u8>::empty(),
    }) + (match d.version {
        Option::Some(v) => str_hash_word(v@),
        Option::None => Seq::<u8>::empty(),
    }) + (match d.chain_id {
        Option::Some(c) => c@,
        Option::None => Seq::<u8>::empty(),
    }) + (match d.verifying_contract {
        Option::Some(a) => word_addr(a.bytes@),
        Option::None => Seq::<u8>::empty(),
    }) + (match d.salt {
        Option::Some(s) => s@,
        Option::None => Seq::<u8>::empty(),
    })
}

/// Well-formed: a present salt or chain-id word is exactly 32 bytes, a
/// present verifying contract exactly 20.
pub open spec fn domain_wf(d: TypedDomain) -> bool {
    (match d.salt {
        Option::Some(s) => s@.len() == 32,
        Option::None => true,
    }) && (match d.chain_id {
        Option::Some(c) => c@.len() == 32,
        Option::None => true,
    }) && (match d.verifying_contract {
        Option::Some(a) => a.wf(),
        Option::None => true,
    })
}

/// The domain separator of a generic domain.
pub open spec fn gen_domain_sep(d: TypedDomain) -> Seq<u8> {
    keccak_of(keccak_of(gen_domain_type_bytes(d)) + gen_domain_words(d))
}

/// Builds the domain type string of a caller-supplied domain.
#[verifier::rlimit(100)]
fn gen_domain_type(d: &TypedDomain) -> (ty: Vec<u8>)
    ensures
        ty@ == gen_domain_type_bytes(*d),
{
    let mut ty: Vec<u8> = Vec::new();
    let mut needs_comma = false;
    push_bytes(&mut ty, &"EIP712Domain(".as_bytes_vec());
    if d.name.is_some() {
        push_bytes(&mut ty, &"string name".as_bytes_vec());
        needs_comma = true;
    }
    if d.version.is_some() {
        if needs_comma {
            push_bytes(&mut ty, &",".as_bytes_vec());
        }
        push_bytes(&mut ty, &"string version".as_bytes_vec());
        needs_comma = true;
    }
    if d.chain_id.is_some() {
        if needs_comma {
            push_bytes(&mut ty, &",".as_bytes_vec());
        }
        push_bytes(&mut ty, &"uint256 chainId".as_bytes_vec());
        needs_comma = true;
    }
    if d.verifying_contract.is_some() {
        if needs_comma {
            push_bytes(&mut ty, &",".as_bytes_vec());
        }
        push_bytes(&mut ty, &"address verifyingContract".as_bytes_vec());
        needs_comma = true;
    }
    if d.salt.is_some() {
        if needs_comma {
            push_bytes(&mut ty, &",".as_bytes_vec());
        }
        push_bytes(&mut ty, &"bytes32 salt".as_bytes_vec());
    }
    push_bytes(&mut ty, &")".as_bytes_vec());
    assert(ty@ =~= gen_domain_type_bytes(*d));
    ty
}

/// Computes the domain separator of a caller-supplied domain.
#[verifier::rlimit(100)]
pub fn generic_domain_separator(d: &TypedDomain) -> (r: Result<Vec<u8>, Error>)
    ensures
        r is Ok <==> domain_wf(*d),
        r matches Ok(b) ==> b@ == gen_domain_sep(*d) && b@.len() == 32,
        r matches Err(e) ==> e is TypedData,
{
    let ty = gen_domain_type(d);
    let ty_hash = keccak256(&ty);
    let mut buf: Vec<u8> = Vec::new();
    push_bytes(&mut buf, &ty_hash);
    match &d.name {
        Option::Some(n) => push_str_hash(&mut buf, n.as_str()),
        Option::None => {}
    }
    match &d.version {
        Option::Some(v) => push_str_hash(&mut buf, v.as_str()),
        Option::None => {}
    }
    match &d.chain_id {
        Option::Some(c) => {
            if c.len() != 32 {
                return Err(Error::TypedData("malformed chainId".to_owned()));
            }
            push_bytes(&mut buf, c);
        }
        Option::None => {}
    }
    match &d.verifying_contract {
        Option::Some(a) => {
            if a.bytes.len() != 20 {
                return Err(Error::TypedData("malformed verifyingContract".to_owned()));
            }
            push_word_addr(&mut buf, a);
        }
        Option::None => {}
    }
    match &d.salt {
        Option::Some(s) => {
            if s.len() != 32 {
                return Err(Error::TypedData("malformed salt".to_owned()));
            }
            push_bytes(&mut buf, s);
        }
        Option::None => {}
    }
    assert(buf@ =~= keccak_of(gen_domain_type_bytes(*d)) + gen_domain_words(*d));
    Ok(keccak256(&buf))
}

// ===== Elementary field encoding =====

/// The decimal value of a digit string, when every character is a digit and
/// the running value never outgrows 64 bits.
pub open spec fn dec_fold(s: Seq<u8>, acc: u64) -> Option<u64>
    decreases s.len(),
{
    if s.len() == 0 {
        Option::Some(acc)
    } else if !(48 <= s[0] && s[0] <= 57) {
        Option::None
    } else if acc > (0xffffffffffffffff - (s[0] - 48)) / 10 {
        Option::None
    } else {
        dec_fold(s.drop_first(), (10 * acc + (s[0] - 48)) as u64)
    }
}

pub open spec fn parse_dec_u64(s: Seq<u8>) -> Option<u64> {
    if s.len() == 0 {
        Option::None
    } else {
        dec_fold(s, 0)
    }
}

/// Parses a decimal byte string into a 64-bit value.
#[verifier::loop_isolation(false)]
fn parse_dec_u64_exec(s: &Vec<u8>) -> (r: Option<u64>)
    ensures
        r == parse_dec_u64(s@),
{
    if s.len() == 0 {
        return None;
    }
    let mut acc: u64 = 0;
    let mut i: usize = 0;
    proof {
        assert(s@.skip(0) =~= s@);
    }
    while i < s.len()
        invariant
            i <= s@.len(),
            dec_fold(s@.skip(i as int), acc) == parse_dec_u64(s@),
        decreases s@.len() - i,
    {
        let b = s[i];
        proof {
            assert(s@.skip(i as int)[0] == s@[i as int]);
            assert(s@.skip(i as int).drop_first() =~= s@.skip(i + 1));
        }
        if !(48 <= b && b <= 57) {
            return None;
        }
        let d = (b - 48) as u64;
        if acc > (0xffffffffffffffff - d) / 10 {
            return None;
        }
        acc = 10 * acc + d;
        i += 1;
    }
    proof {
        assert(s@.skip(s@.len() as int) =~= Seq::<u8>::empty());
    }
    Some(acc)
}

/// The decimal value of a digit string folded into 128 bits, when every
/// character is a digit and the running value never outgrows them.
pub open spec fn dec_fold128(s: Seq<u8>, acc: u128) -> Option<u128>
    decreases s.len(),
{
    if s.len() == 0 {
        Option::Some(acc)
    } else if !(48 <= s[0] && s[0] <= 57) {
        Option::None
    } else if acc > (0xffffffffffffffffffffffffffffffff - (s[0] - 48)) / 10 {
        Option::None
    } else {
        dec_fold128(s.drop_first(), (10 * acc + (s[0] - 48)) as u128)
    }
}

pub open spec fn parse_dec_u128(s: Seq<u8>) -> Option<u128> {
    if s.len() == 0 {
        Option::None
    } else {
        dec_fold128(s, 0)
    }
}

/// Parses a decimal byte string into a 128-bit value.
#[verifier::loop_isolation(false)]
fn parse_dec_u128_exec(s: &Vec<u8>) -> (r: Option<u128>)
    ensures
        r == parse_dec_u128(s@),
{
    if s.len() == 0 {
        return None;
    }
    let mut acc: u128 = 0;
    let mut i: usize = 0;
    proof {
        assert(s@.skip(0) =~= s@);
    }
    while i < s.len()
        invariant
            i <= s@.len(),
            dec_fold128(s@.skip(i as int), acc) == parse_dec_u128(s@),
        decreases s@.len() - i,
    {
        let b = s[i];
        proof {
            assert(s@.skip(i as int)[0] == s@[i as int]);
            assert(s@.skip(i as int).drop_first() =~= s@.skip(i + 1));
        }
        if !(48 <= b && b <= 57) {
            return None;
        }
        let d = (b - 48) as u128;
        if acc > (0xffffffffffffffffffffffffffffffff - d) / 10 {
            return None;
        }
        acc = 10 * acc + d;
        i += 1;
    }
    proof {
        assert(s@.skip(s@.len() as int) =~= Seq::<u8>::empty());
    }
    Some(acc)
}

/// The 16 big-endian bytes of a 128-bit value.
pub open spec fn be16(n: u128) -> Seq<u8> {
    seq![
        ((n >> 120) & 0xff) as u8,
        ((n >> 112) & 0xff) as u8,
        ((n >> 104) & 0xff) as u8,
        ((n >> 96) & 0xff) as u8,
        ((n >> 88) & 0xff) as u8,
        ((n >> 80) & 0xff) as u8,
        ((n >> 72) & 0xff) as u8,
        ((n >> 64) & 0xff) as u8,
        ((n >> 56) & 0xff) as u8,
        ((n >> 48) & 0xff) as u8,
        ((n >> 40) & 0xff) as u8,
        ((n >> 32) & 0xff) as u8,
        ((n >> 24) & 0xff) as u8,
        ((n >> 16) & 0xff) as u8,
        ((n >> 8) & 0xff) as u8,
        (n & 0xff) as u8,
    ]
}

/// The 32-byte ABI word of a 128-bit unsigned integer: left-padded with
/// zeros.
pub open spec fn word_u128(n: u128) -> Seq<u8> {
    zero_seq(16) + be16(n)
}

/// Builds the word of a 128-bit number.
fn word_u128_vec(n: u128) -> (r: Vec<u8>)
    ensures
        r@ == word_u128(n),
        r@.len() == 32,
{
    let mut out: Vec<u8> = Vec::new();
    push_zeros(&mut out, 16);
    out.push(((n >> 120) & 0xff) as u8);
    out.push(((n >> 112) & 0xff) as u8);
    out.push(((n >> 104) & 0xff) as u8);
    out.push(((n >> 96) & 0xff) as u8);
    out.push(((n >> 88) & 0xff) as u8);
    out.push(((n >> 80) & 0xff) as u8);
    out.push(((n >> 72) & 0xff) as u8);
    out.push(((n >> 64) & 0xff) as u8);
    out.push(((n >> 56) & 0xff) as u8);
    out.push(((n >> 48) & 0xff) as u8);
    out.push(((n >> 40) & 0xff) as u8);
    out.push(((n >> 32) & 0xff) as u8);
    out.push(((n >> 24) & 0xff) as u8);
    out.push(((n >> 16) & 0xff) as u8);
    out.push(((n >> 8) & 0xff) as u8);
    out.push((n & 0xff) as u8);
    assert(out@ =~= word_u128(n));
    out
}

/// A single leading "0x"/"0X" marker removed (shared shape with the address
/// parsers).
pub open spec fn strip_hex_marker(s: Seq<u8>) -> Seq<u8> {
    if s.len() >= 2 && s[0] == 48 && (s[1] == 120 || s[1] == 88) {
        s.skip(2)
    } else {
        s
    }
}

/// The bytes of a hex-string value: the marker stripped, the rest decoded.
pub open spec fn hex_value_bytes(s: Seq<char>) -> Option<Seq<u8>> {
    if all_hex(strip_hex_marker(encode_utf8(s))) && strip_hex_marker(encode_utf8(s)).len() % 2
        == 0 {
        Option::Some(hex_decoded(strip_hex_marker(encode_utf8(s))))
    } else {
        Option::None
    }
}

/// Decodes a hex-string value into bytes.
fn hex_value_bytes_exec(s: &str) -> (r: Option<Vec<u8>>)
    ensures
        r is Some <==> hex_value_bytes(s@) is Some,
        r matches Some(b) ==> hex_value_bytes(s@) == Option::Some(b@),
{
    let bytes = s.as_bytes_vec();
    let mut start: usize = 0;
    if bytes.len() >= 2 {
        let b0 = bytes[0];
        let b1 = bytes[1];
        if b0 == 48 && (b1 == 120 || b1 == 88) {
            start = 2;
        }
    }
    let body = dup_range(&bytes, start, bytes.len());
    proof {
        assert(body@ =~= strip_hex_marker(encode_utf8(s@)));
    }
    crate::bytesfmt::try_hex_decode(&body)
}

/// The 32-byte word of byte content interpreted as a big-endian number:
/// left-padded with zeros; absent for more than 32 bytes.
pub open spec fn right_aligned_word(b: Seq<u8>) -> Option<Seq<u8>> {
    if b.len() <= 32 {
        Option::Some(zero_seq((32 - b.len()) as nat) + b)
    } else {
        Option::None
    }
}


/// The position of the last "[" byte, or a negative value when none occurs.
pub open spec fn last_bracket(tb: Seq<u8>) -> int
    decreases tb.len(),
{
    if tb.len() == 0 {
        -1
    } else if tb.last() == 91 {
        tb.len() - 1
    } else {
        last_bracket(tb.drop_last())
    }
}

proof fn lemma_last_bracket_range(tb: Seq<u8>)
    ensures
        -1 <= last_bracket(tb) < tb.len(),
    decreases tb.len(),
{
    if tb.len() > 0 && tb.last() != 91 {
        lemma_last_bracket_range(tb.drop_last());
    }
}

proof fn lemma_last_bracket_at(tb: Seq<u8>, k: int)
    requires
        -1 <= k < tb.len(),
        k >= 0 ==> tb[k] == 91,
        forall|j: int| k < j < tb.len() ==> tb[j] != 91,
    ensures
        last_bracket(tb) == k,
    decreases tb.len(),
{
    if tb.len() > 0 {
        if tb.last() == 91 {
            assert(k == tb.len() - 1);
        } else {
            lemma_last_bracket_at(tb.drop_last(), k);
        }
    }
}

/// A byte-prefix test.
pub open spec fn starts_with(tb: Seq<u8>, prefix: Seq<u8>) -> bool {
    tb.len() >= prefix.len() && tb.take(prefix.len() as int) == prefix
}

/// An integer size suffix: absent, or a decimal from 1 to 256.
pub open spec fn int_size_ok(suffix: Seq<u8>) -> bool {
    suffix.len() == 0 || (match parse_dec_u64(suffix) {
        Option::Some(n) => 1 <= n <= 256,
        Option::None => false,
    })
}

/// The word of a numeric value: a plain number, a non-negative integer, a
/// hex string of at most 32 bytes (right-aligned), or a decimal string that
/// fits 64 bits.
pub open spec fn num_word(v: Value) -> Option<Seq<u8>> {
    match v {
        Value::UInt(n) => Option::Some(word_u64(n)),
        Value::Int(n) => if n >= 0 {
            Option::Some(word_u64(n as u64))
        } else {
            Option::None
        },
        Value::Str(s) => if encode_utf8(s@).len() >= 2 && encode_utf8(s@)[0] == 48 && (encode_utf8(
            s@,
        )[1] == 120 || encode_utf8(s@)[1] == 88) {
            match hex_value_bytes(s@) {
                Option::Some(b) => right_aligned_word(b),
                Option::None => Option::None,
            }
        } else {
            match parse_dec_u128(encode_utf8(s@)) {
                Option::Some(n) => Option::Some(word_u128(n)),
                Option::None => Option::None,
            }
        },
        _ => Option::None,
    }
}

/// The first type of the graph whose name encodes to the given bytes.
pub open spec fn lookup_type_b(types: Seq<TypeDef>, tb: Seq<u8>) -> Option<TypeDef>
    decreases types.len(),
{
    if types.len() == 0 {
        Option::None
    } else if encode_utf8(types[0].name@) == tb {
        Option::Some(types[0])
    } else {
        lookup_type_b(types.drop_first(), tb)
    }
}

/// The position of the first "[" byte, or a negative value when none occurs.
pub open spec fn first_bracket(tb: Seq<u8>) -> int
    decreases tb.len(),
{
    if tb.len() == 0 {
        -1
    } else if tb[0] == 91 {
        0
    } else if first_bracket(tb.drop_first()) < 0 {
        -1
    } else {
        1 + first_bracket(tb.drop_first())
    }
}

/// A type string with any array suffix removed: everything before the first
/// "[", the whole string when none occurs. Dependency collection resolves
/// struct references through this base name.
pub open spec fn dep_base(tb: Seq<u8>) -> Seq<u8> {
    if first_bracket(tb) >= 0 {
        tb.take(first_bracket(tb))
    } else {
        tb
    }
}

/// Depth-first collection of the struct types reachable from a type name:
/// a name already collected, or absent from the graph, adds nothing; a graph
/// name is collected and its fields are followed. Each recursion step into a
/// fresh struct consumes one unit of fuel; with fuel the size of the graph,
/// the fuel never runs out, since every step collects a distinct graph name.
pub open spec fn find_deps(types: Seq<TypeDef>, tb: Seq<u8>, found: Seq<Seq<u8>>, fuel: nat) -> Seq<
    Seq<u8>,
>
    decreases fuel, 0nat, 0nat,
{
    if found.contains(tb) {
        found
    } else {
        match lookup_type_b(types, tb) {
            Option::Some(td) => if fuel == 0 {
                found.push(tb)
            } else {
                deps_fields(types, td.fields@, found.push(tb), (fuel - 1) as nat)
            },
            Option::None => found,
        }
    }
}

/// Follows every field of a struct type in order, threading the collection.
pub open spec fn deps_fields(
    types: Seq<TypeDef>,
    fields: Seq<FieldDef>,
    found: Seq<Seq<u8>>,
    fuel: nat,
) -> Seq<Seq<u8>>
    decreases fuel, 1nat, fields.len(),
{
    if fields.len() == 0 {
        found
    } else {
        deps_fields(
            types,
            fields.drop_first(),
            find_deps(types, dep_base(encode_utf8(fields[0].type_str@)), found, fuel),
            fuel,
        )
    }
}

/// Strict byte-wise lexicographic order, as std orders byte strings.
pub open spec fn lex_lt(a: Seq<u8>, b: Seq<u8>) -> bool
    decreases a.len(),
{
    if b.len() == 0 {
        false
    } else if a.len() == 0 {
        true
    } else if a[0] < b[0] {
        true
    } else if a[0] > b[0] {
        false
    } else {
        lex_lt(a.drop_first(), b.drop_first())
    }
}

/// Insertion into a lexicographically sorted list of names.
pub open spec fn insert_sorted(x: Seq<u8>, s: Seq<Seq<u8>>) -> Seq<Seq<u8>>
    decreases s.len(),
{
    if s.len() == 0 {
        seq![x]
    } else if lex_lt(s[0], x) {
        seq![s[0]] + insert_sorted(x, s.drop_first())
    } else {
        seq![x] + s
    }
}

/// Insertion sort of a list of names into lexicographic order.
pub open spec fn sort_names(s: Seq<Seq<u8>>) -> Seq<Seq<u8>>
    decreases s.len(),
{
    if s.len() == 0 {
        s
    } else {
        insert_sorted(s[0], sort_names(s.drop_first()))
    }
}

/// The concatenated signature texts of the named types of the graph.
pub open spec fn sigs_of(types: Seq<TypeDef>, names: Seq<Seq<u8>>) -> Seq<u8>
    decreases names.len(),
{
    if names.len() == 0 {
        Seq::<u8>::empty()
    } else {
        (match lookup_type_b(types, names[0]) {
            Option::Some(td) => type_sig_bytes(td),
            Option::None => Seq::<u8>::empty(),
        }) + sigs_of(types, names.drop_first())
    }
}

/// The full EIP-712 type encoding of a struct type: its own signature text
/// first, then the signatures of every other struct type it reaches, in
/// lexicographic order of their names.
pub open spec fn encode_type_b(types: Seq<TypeDef>, tb: Seq<u8>) -> Seq<u8> {
    let found = find_deps(types, tb, Seq::<Seq<u8>>::empty(), types.len() as nat);
    if found.len() == 0 {
        Seq::<u8>::empty()
    } else {
        sigs_of(types, seq![found[0]] + sort_names(found.drop_first()))
    }
}

/// The 32-byte EIP-712 word of one field value against its type string:
/// a reference to a struct type of the graph hashes that struct's encoded
/// data; arrays hash the concatenation of their element words; strings and
/// bytes hash their content; addresses, numbers, booleans and fixed bytes pad
/// to a word. A struct name shadows the elementary interpretations.
pub open spec fn field_word(types: Seq<TypeDef>, tb: Seq<u8>, v: Value) -> Option<Seq<u8>>
    decreases 3 * vdepth(v) + 2, 0nat, 0nat,
{
    if lookup_type_b(types, tb) is Some {
        match struct_words(types, lookup_type_b(types, tb)->Some_0.fields@, v) {
            Option::Some(ws) => Option::Some(
                keccak_of(keccak_of(encode_type_b(types, tb)) + ws),
            ),
            Option::None => Option::None,
        }
    } else if last_bracket(tb) >= 0 {
        match v {
            Value::Arr(xs) => match arr_words(types, tb.take(last_bracket(tb)), xs@) {
                Option::Some(ws) => Option::Some(keccak_of(ws)),
                Option::None => Option::None,
            },
            _ => Option::None,
        }
    } else if tb == encode_utf8("address"@) {
        match v {
            Value::Str(s) => match hex_value_bytes(s@) {
                Option::Some(b) => if b.len() == 20 {
                    Option::Some(word_addr(b))
                } else {
                    Option::None
                },
                Option::None => Option::None,
            },
            _ => Option::None,
        }
    } else if tb == encode_utf8("string"@) {
        match v {
            Value::Str(s) => Option::Some(str_hash_word(s@)),
            _ => Option::None,
        }
    } else if tb == encode_utf8("bool"@) {
        match v {
            Value::Bool(b) => Option::Some(
                if b {
                    word_u64(1)
                } else {
                    word_u64(0)
                },
            ),
            _ => Option::None,
        }
    } else if tb == encode_utf8("bytes"@) {
        match v {
            Value::Str(s) => match hex_value_bytes(s@) {
                Option::Some(b) => Option::Some(keccak_of(b)),
                Option::None => Option::None,
            },
            _ => Option::None,
        }
    } else if starts_with(tb, encode_utf8("bytes"@)) {
        match parse_dec_u64(tb.skip(5)) {
            Option::Some(n) => if 1 <= n <= 32 {
                match v {
                    Value::Str(s) => match hex_value_bytes(s@) {
                        Option::Some(b) => right_aligned_word(b),
                        Option::None => Option::None,
                    },
                    _ => Option::None,
                }
            } else {
                Option::None
            },
            Option::None => Option::None,
        }
    } else if starts_with(tb, encode_utf8("uint"@)) && int_size_ok(tb.skip(4)) {
        num_word(v)
    } else if starts_with(tb, encode_utf8("int"@)) && int_size_ok(tb.skip(3)) {
        num_word(v)
    } else {
        Option::None
    }
}

/// The concatenated words of an array's elements.
pub open spec fn arr_words(types: Seq<TypeDef>, etb: Seq<u8>, xs: Seq<Value>) -> Option<Seq<u8>>
    decreases 3 * vdepth_seq(xs) + 3, xs.len(), 0nat,
    via arr_words_decreases
{
    if xs.len() == 0 {
        Option::Some(Seq::<u8>::empty())
    } else {
        match field_word(types, etb, xs[0]) {
            Option::Some(w) => match arr_words(types, etb, xs.drop_first()) {
                Option::Some(rest) => Option::Some(w + rest),
                Option::None => Option::None,
            },
            Option::None => Option::None,
        }
    }
}

#[via_fn]
proof fn arr_words_decreases(types: Seq<TypeDef>, etb: Seq<u8>, xs: Seq<Value>) {
    if xs.len() > 0 {
        lemma_vdepth_seq_elem(xs, 0);
    }
}

/// A looked-up entry of an object lies no deeper than the deepest entry.
proof fn lemma_obj_lookup_depth(ps: Seq<(String, Value)>, name: Seq<char>)
    ensures
        obj_lookup(ps, name) matches Some(v) ==> vdepth(v) <= crate::msgpack::vdepth_pairs(ps),
    decreases ps.len(),
{
    if ps.len() > 0 && ps[0].0@ != name {
        lemma_obj_lookup_depth(ps.drop_first(), name);
    }
}

/// The concatenated words of a type's fields against a message: a present
/// field encodes by its type; an absent field of a struct type encodes as a
/// zero word; an absent field of any other type yields nothing.
pub open spec fn struct_words(types: Seq<TypeDef>, fields: Seq<FieldDef>, msg: Value) -> Option<
    Seq<u8>,
>
    decreases 3 * vdepth(msg) + 1, fields.len(), 0nat,
{
    if fields.len() == 0 {
        Option::Some(Seq::<u8>::empty())
    } else {
        match one_field_word(types, fields[0], msg) {
            Option::Some(w) => match struct_words(types, fields.drop_first(), msg) {
                Option::Some(rest) => Option::Some(w + rest),
                Option::None => Option::None,
            },
            Option::None => Option::None,
        }
    }
}

proof fn lemma_arr_words_snoc(types: Seq<TypeDef>, etb: Seq<u8>, a: Seq<Value>, x: Value)
    ensures
        arr_words(types, etb, a + seq![x]) == (match (
            arr_words(types, etb, a),
            field_word(types, etb, x),
        ) {
            (Option::Some(ws), Option::Some(w)) => Option::Some(ws + w),
            _ => Option::<Seq<u8>>::None,
        }),
    decreases a.len(),
{
    if a.len() == 0 {
        assert((a + seq![x])[0] == x);
        assert((a + seq![x]).drop_first() =~= Seq::<Value>::empty());
        if field_word(types, etb, x) is Some {
            assert(field_word(types, etb, x)->Some_0 + Seq::<u8>::empty() =~= field_word(
                types,
                etb,
                x,
            )->Some_0);
            assert(Seq::<u8>::empty() + field_word(types, etb, x)->Some_0 =~= field_word(
                types,
                etb,
                x,
            )->Some_0);
        }
    } else {
        assert((a + seq![x])[0] == a[0]);
        assert((a + seq![x]).drop_first() =~= a.drop_first() + seq![x]);
        lemma_arr_words_snoc(types, etb, a.drop_first(), x);
        if arr_words(types, etb, a) is Some && field_word(types, etb, x) is Some {
            assert(arr_words(types, etb, a + seq![x]) is Some);
            assert(arr_words(types, etb, a + seq![x])->Some_0 =~= arr_words(
                types,
                etb,
                a,
            )->Some_0 + field_word(types, etb, x)->Some_0);
        }
    }
}

// ===== The struct hash of the primary type =====

/// The signature text of a type's field list.
pub open spec fn fields_sig_bytes(fields: Seq<FieldDef>) -> Seq<u8>
    decreases fields.len(),
{
    if fields.len() == 0 {
        Seq::<u8>::empty()
    } else {
        encode_utf8(fields[0].type_str@) + encode_utf8(" "@) + encode_utf8(fields[0].name@) + (
        if fields.len() > 1 {
            encode_utf8(","@) + fields_sig_bytes(fields.drop_first())
        } else {
            Seq::<u8>::empty()
        })
    }
}

/// The signature text of a whole type: name, "(", fields, ")".
pub open spec fn type_sig_bytes(td: TypeDef) -> Seq<u8> {
    encode_utf8(td.name@) + encode_utf8("("@) + fields_sig_bytes(td.fields@) + encode_utf8(")"@)
}

/// The value of a message entry.
pub open spec fn msg_field_value(msg: Value, name: Seq<char>) -> Option<Value> {
    match msg {
        Value::Obj(ps) => obj_lookup(ps@, name),
        _ => Option::None,
    }
}

/// The word owed to one field of a struct against a message: present fields
/// encode by their type, absent fields of a struct type as a zero word.
pub open spec fn one_field_word(types: Seq<TypeDef>, f: FieldDef, msg: Value) -> Option<Seq<u8>>
    decreases 3 * vdepth(msg) + 1, 0nat, 1nat,
    via one_field_word_decreases
{
    match msg_field_value(msg, f.name@) {
        Option::Some(v) => field_word(types, encode_utf8(f.type_str@), v),
        Option::None => if lookup_type_b(types, encode_utf8(f.type_str@)) is Some {
            Option::Some(zero_seq(32))
        } else {
            Option::None
        },
    }
}

#[via_fn]
proof fn one_field_word_decreases(types: Seq<TypeDef>, f: FieldDef, msg: Value) {
    match msg {
        Value::Obj(ps) => {
            lemma_obj_lookup_depth(ps@, f.name@);
        }
        _ => {}
    }
}

proof fn lemma_struct_words_snoc(types: Seq<TypeDef>, a: Seq<FieldDef>, f: FieldDef, msg: Value)
    ensures
        struct_words(types, a + seq![f], msg) == (match (
            struct_words(types, a, msg),
            one_field_word(types, f, msg),
        ) {
            (Option::Some(ws), Option::Some(w)) => Option::Some(ws + w),
            _ => Option::<Seq<u8>>::None,
        }),
    decreases a.len(),
{
    if a.len() == 0 {
        assert((a + seq![f])[0] == f);
        assert((a + seq![f]).drop_first() =~= Seq::<FieldDef>::empty());
        match one_field_word(types, f, msg) {
            Option::Some(w) => {
                assert(w + Seq::<u8>::empty() =~= w);
                assert(Seq::<u8>::empty() + w =~= w);
            }
            Option::None => {}
        }
    } else {
        assert((a + seq![f])[0] == a[0]);
        assert((a + seq![f]).drop_first() =~= a.drop_first() + seq![f]);
        lemma_struct_words_snoc(types, a.drop_first(), f, msg);
        match (struct_words(types, a, msg), one_field_word(types, f, msg)) {
            (Option::Some(ws), Option::Some(w)) => {
                assert(struct_words(types, a + seq![f], msg) is Some);
                assert(struct_words(types, a + seq![f], msg)->Some_0 =~= ws + w);
            }
            _ => {}
        }
    }
}

/// The struct hash of a type against a message: the hash of its full type
/// encoding, then the field words.
pub open spec fn typed_struct_hash(types: Seq<TypeDef>, td: TypeDef, msg: Value) -> Option<
    Seq<u8>,
> {
    match struct_words(types, td.fields@, msg) {
        Option::Some(ws) => Option::Some(
            keccak_of(keccak_of(encode_type_b(types, encode_utf8(td.name@))) + ws),
        ),
        Option::None => Option::None,
    }
}

/// The final digest of a generic typed-data message. When the primary type
/// is "EIP712Domain" itself, only the domain separator is hashed, with no
/// struct hash appended.
pub open spec fn typed_digest_of(
    d: TypedDomain,
    types: Seq<TypeDef>,
    primary: Seq<char>,
    msg: Value,
) -> Option<Seq<u8>> {
    if !domain_wf(d) {
        Option::None
    } else if primary == "EIP712Domain"@ {
        Option::Some(keccak_of(seq![0x19u8, 0x01u8] + gen_domain_sep(d)))
    } else {
        match lookup_type_b(types, encode_utf8(primary)) {
            Option::Some(td) => match typed_struct_hash(types, td, msg) {
                Option::Some(sh) => Option::Some(eip712_digest(gen_domain_sep(d), sh)),
                Option::None => Option::None,
            },
            Option::None => Option::None,
        }
    }
}


// ===== Executable encoding =====

/// Byte-vector equality.
fn bytes_eq(a: &Vec<u8>, b: &Vec<u8>) -> (r: bool)
    ensures
        r == (a@ == b@),
{
    if a.len() != b.len() {
        return false;
    }
    let mut i: usize = 0;
    while i < a.len()
        invariant
            i <= a@.len(),
            a@.len() == b@.len(),
            forall|j: int| 0 <= j < i ==> a@[j] == b@[j],
        decreases a@.len() - i,
    {
        if a[i] != b[i] {
            return false;
        }
        i += 1;
    }
    proof {
        assert(a@ =~= b@);
    }
    true
}

/// Byte-vector prefix test.
fn has_prefix(a: &Vec<u8>, p: &Vec<u8>) -> (r: bool)
    ensures
        r == starts_with(a@, p@),
{
    if a.len() < p.len() {
        return false;
    }
    let mut i: usize = 0;
    while i < p.len()
        invariant
            i <= p@.len(),
            p@.len() <= a@.len(),
            forall|j: int| 0 <= j < i ==> a@[j] == p@[j],
        decreases p@.len() - i,
    {
        if a[i] != p[i] {
            proof {
                assert(a@.take(p@.len() as int)[i as int] != p@[i as int]);
            }
            return false;
        }
        i += 1;
    }
    proof {
        assert(a@.take(p@.len() as int) =~= p@);
    }
    true
}

/// The word of a 64-bit number.
fn word_u64_vec(n: u64) -> (r: Vec<u8>)
    ensures
        r@ == word_u64(n),
        r@.len() == 32,
{
    let mut out: Vec<u8> = Vec::new();
    push_word_u64(&mut out, n);
    assert(out@ =~= word_u64(n));
    out
}

/// The right-aligned word of at most 32 content bytes.
fn right_word(b: &Vec<u8>) -> (r: Option<Vec<u8>>)
    ensures
        r is Some <==> right_aligned_word(b@) is Some,
        r matches Some(w) ==> right_aligned_word(b@) == Option::Some(w@) && w@.len() == 32,
{
    if b.len() > 32 {
        return None;
    }
    let mut out: Vec<u8> = Vec::new();
    push_zeros(&mut out, 32 - b.len());
    push_bytes(&mut out, b);
    assert(out@ =~= zero_seq((32 - b@.len()) as nat) + b@);
    Some(out)
}

/// The word of a numeric message value.
fn num_word_exec(v: &Value) -> (r: Result<Vec<u8>, Error>)
    ensures
        r is Ok <==> num_word(*v) is Some,
        r matches Ok(w) ==> num_word(*v) == Option::Some(w@) && w@.len() == 32,
        r matches Err(e) ==> e is TypedData,
{
    match v {
        Value::UInt(n) => Ok(word_u64_vec(*n)),
        Value::Int(n) => {
            if *n >= 0 {
                Ok(word_u64_vec(*n as u64))
            } else {
                Err(Error::TypedData("negative integer value".to_owned()))
            }
        }
        Value::Str(st) => {
            let sb = st.as_str().as_bytes_vec();
            let mut hexish = false;
            if sb.len() >= 2 {
                let b0 = sb[0];
                let b1 = sb[1];
                if b0 == 48 && (b1 == 120 || b1 == 88) {
                    hexish = true;
                }
            }
            if hexish {
                match hex_value_bytes_exec(st.as_str()) {
                    Option::Some(b) => match right_word(&b) {
                        Option::Some(w) => Ok(w),
                        Option::None => Err(Error::TypedData("numeric value too wide".to_owned())),
                    },
                    Option::None => Err(Error::TypedData("malformed hex number".to_owned())),
                }
            } else {
                match parse_dec_u128_exec(&sb) {
                    Option::Some(n) => Ok(word_u128_vec(n)),
                    Option::None => Err(Error::TypedData("malformed numeric value".to_owned())),
                }
            }
        }
        _ => Err(Error::TypedData("value does not fit a numeric type".to_owned())),
    }
}

/// The deep view of a list of byte names.
pub open spec fn names_view(s: Seq<Vec<u8>>) -> Seq<Seq<u8>> {
    s.map_values(|v: Vec<u8>| v@)
}

/// A looked-up type's name encodes to the bytes it was looked up by.
proof fn lemma_lookup_type_b_name(types: Seq<TypeDef>, tb: Seq<u8>)
    ensures
        lookup_type_b(types, tb) matches Some(td) ==> encode_utf8(td.name@) == tb,
    decreases types.len(),
{
    if types.len() > 0 && encode_utf8(types[0].name@) != tb {
        lemma_lookup_type_b_name(types.drop_first(), tb);
    }
}

/// Finds the first type of the graph whose name encodes to the given bytes.
#[verifier::loop_isolation(false)]
fn lookup_type_b_exec<'a>(types: &'a Vec<TypeDef>, tb: &Vec<u8>) -> (r: Option<&'a TypeDef>)
    ensures
        r is Some <==> lookup_type_b(types@, tb@) is Some,
        r matches Some(td) ==> lookup_type_b(types@, tb@) == Option::Some(*td),
{
    let mut i: usize = 0;
    proof {
        assert(types@.skip(0) =~= types@);
    }
    while i < types.len()
        invariant
            i <= types@.len(),
            lookup_type_b(types@.skip(i as int), tb@) == lookup_type_b(types@, tb@),
        decreases types@.len() - i,
    {
        proof {
            assert(types@.skip(i as int)[0] == types@[i as int]);
            assert(types@.skip(i as int).drop_first() =~= types@.skip(i + 1));
        }
        let name_bytes = types[i].name.as_str().as_bytes_vec();
        if bytes_eq(&name_bytes, tb) {
            return Some(&types[i]);
        }
        i += 1;
    }
    proof {
        assert(types@.skip(types@.len() as int) =~= Seq::<TypeDef>::empty());
    }
    None
}

proof fn lemma_first_bracket_at(tb: Seq<u8>, k: int)
    requires
        -1 <= k < tb.len(),
        k >= 0 ==> tb[k] == 91,
        forall|j: int| 0 <= j < k ==> tb[j] != 91,
        k < 0 ==> forall|j: int| 0 <= j < tb.len() ==> tb[j] != 91,
    ensures
        first_bracket(tb) == k,
    decreases tb.len(),
{
    if tb.len() == 0 {
    } else if tb[0] == 91 {
        assert(k == 0);
    } else {
        assert(forall|j: int|
            0 <= j < tb.drop_first().len() ==> tb.drop_first()[j] == tb[j + 1]);
        if k < 0 {
            lemma_first_bracket_at(tb.drop_first(), -1);
        } else {
            lemma_first_bracket_at(tb.drop_first(), k - 1);
        }
    }
}

/// Removes an array suffix from a type string: the bytes before the first "[".
#[verifier::loop_isolation(false)]
fn dep_base_exec(tb: &Vec<u8>) -> (r: Vec<u8>)
    ensures
        r@ == dep_base(tb@),
{
    let mut i: usize = 0;
    while i < tb.len()
        invariant
            i <= tb@.len(),
            forall|j: int| 0 <= j < i ==> tb@[j] != 91,
        decreases tb@.len() - i,
    {
        if tb[i] == 91 {
            proof {
                lemma_first_bracket_at(tb@, i as int);
            }
            let r = dup_range(tb, 0, i);
            proof {
                assert(r@ =~= dep_base(tb@));
            }
            return r;
        }
        i += 1;
    }
    proof {
        lemma_first_bracket_at(tb@, -1);
    }
    let r = dup_range(tb, 0, tb.len());
    proof {
        assert(r@ =~= dep_base(tb@));
    }
    r
}

/// Collects the reachable struct names of the graph, mirroring `find_deps`.
#[verifier::loop_isolation(false)]
#[verifier::rlimit(100)]
fn find_deps_exec(types: &Vec<TypeDef>, tb: Vec<u8>, found: Vec<Vec<u8>>, fuel: usize) -> (r: Vec<
    Vec<u8>,
>)
    ensures
        names_view(r@) == find_deps(types@, tb@, names_view(found@), fuel as nat),
    decreases fuel,
{
    let ghost found0: Seq<Seq<u8>> = names_view(found@);
    let mut has = false;
    let mut i: usize = 0;
    while i < found.len()
        invariant
            i <= found@.len(),
            has == exists|j: int| 0 <= j < i && found@[j]@ == tb@,
        decreases found@.len() - i,
    {
        if bytes_eq(&found[i], &tb) {
            has = true;
        }
        i += 1;
    }
    proof {
        assert(forall|j: int|
            0 <= j < found@.len() ==> #[trigger] found0[j] == found@[j]@);
        if has {
            let w = choose|j: int| 0 <= j < found@.len() && found@[j]@ == tb@;
            assert(found0[w] == tb@);
            assert(found0.contains(tb@));
        } else {
            assert(!found0.contains(tb@)) by {
                if found0.contains(tb@) {
                    let w = choose|j: int| 0 <= j < found0.len() && found0[j] == tb@;
                    assert(found@[w]@ == tb@);
                }
            }
        }
    }
    if has {
        return found;
    }
    let td_opt = lookup_type_b_exec(types, &tb);
    match td_opt {
        Option::None => found,
        Option::Some(td) => {
            let ghost tbv: Seq<u8> = tb@;
            let mut cur = found;
            cur.push(tb);
            proof {
                assert(names_view(cur@) =~= found0.push(tbv));
            }
            if fuel == 0 {
                return cur;
            }
            let ghost base: Seq<Seq<u8>> = names_view(cur@);
            let mut j: usize = 0;
            proof {
                assert(td.fields@.skip(0) =~= td.fields@);
            }
            while j < td.fields.len()
                invariant
                    j <= td.fields@.len(),
                    deps_fields(
                        types@,
                        td.fields@.skip(j as int),
                        names_view(cur@),
                        (fuel - 1) as nat,
                    ) == deps_fields(types@, td.fields@, base, (fuel - 1) as nat),
                decreases td.fields@.len() - j,
            {
                proof {
                    assert(td.fields@.skip(j as int)[0] == td.fields@[j as int]);
                    assert(td.fields@.skip(j as int).drop_first() =~= td.fields@.skip(j + 1));
                }
                let ftb = td.fields[j].type_str.as_str().as_bytes_vec();
                let base_name = dep_base_exec(&ftb);
                cur = find_deps_exec(types, base_name, cur, fuel - 1);
                j += 1;
            }
            proof {
                assert(td.fields@.skip(td.fields@.len() as int) =~= Seq::<FieldDef>::empty());
            }
            cur
        }
    }
}

proof fn lemma_insert_sorted_at(x: Seq<u8>, s: Seq<Seq<u8>>, p: int)
    requires
        0 <= p <= s.len(),
        forall|j: int| 0 <= j < p ==> lex_lt(#[trigger] s[j], x),
        p < s.len() ==> !lex_lt(s[p], x),
    ensures
        insert_sorted(x, s) == s.take(p) + seq![x] + s.skip(p),
    decreases s.len(),
{
    if s.len() == 0 {
        assert(insert_sorted(x, s) =~= s.take(p) + seq![x] + s.skip(p));
    } else if p == 0 {
        assert(insert_sorted(x, s) =~= s.take(0) + seq![x] + s.skip(0));
    } else {
        lemma_insert_sorted_at(x, s.drop_first(), p - 1);
        assert(seq![s[0]] + (s.drop_first().take(p - 1) + seq![x] + s.drop_first().skip(p - 1))
            =~= s.take(p) + seq![x] + s.skip(p));
        assert(insert_sorted(x, s) =~= s.take(p) + seq![x] + s.skip(p));
    }
}

/// Strict lexicographic comparison of byte strings.
#[verifier::loop_isolation(false)]
fn lex_lt_exec(a: &Vec<u8>, b: &Vec<u8>) -> (r: bool)
    ensures
        r == lex_lt(a@, b@),
{
    let mut i: usize = 0;
    proof {
        assert(a@.skip(0) =~= a@);
        assert(b@.skip(0) =~= b@);
    }
    while i < a.len() && i < b.len()
        invariant
            i <= a@.len(),
            i <= b@.len(),
            lex_lt(a@, b@) == lex_lt(a@.skip(i as int), b@.skip(i as int)),
        decreases a@.len() - i,
    {
        proof {
            assert(a@.skip(i as int)[0] == a@[i as int]);
            assert(b@.skip(i as int)[0] == b@[i as int]);
            assert(a@.skip(i as int).drop_first() =~= a@.skip(i + 1));
            assert(b@.skip(i as int).drop_first() =~= b@.skip(i + 1));
        }
        if a[i] < b[i] {
            return true;
        }
        if a[i] > b[i] {
            return false;
        }
        i += 1;
    }
    proof {
        assert(a@.skip(i as int).len() == a@.len() - i);
        assert(b@.skip(i as int).len() == b@.len() - i);
    }
    i < b.len()
}

/// The insertion point of a name in a sorted list.
#[verifier::loop_isolation(false)]
fn insert_pos(x: &Vec<u8>, s: &Vec<Vec<u8>>) -> (p: usize)
    ensures
        p <= s@.len(),
        forall|j: int| 0 <= j < p ==> lex_lt(#[trigger] s@[j]@, x@),
        p < s@.len() ==> !lex_lt(s@[p as int]@, x@),
{
    let mut p: usize = 0;
    while p < s.len()
        invariant
            p <= s@.len(),
            forall|j: int| 0 <= j < p ==> lex_lt(#[trigger] s@[j]@, x@),
        decreases s@.len() - p,
    {
        if !lex_lt_exec(&s[p], x) {
            return p;
        }
        p += 1;
    }
    p
}

/// Inserts a name into a sorted list of names, mirroring `insert_sorted`.
#[verifier::loop_isolation(false)]
#[verifier::rlimit(100)]
fn insert_sorted_exec(x: Vec<u8>, s: &Vec<Vec<u8>>) -> (r: Vec<Vec<u8>>)
    ensures
        names_view(r@) == insert_sorted(x@, names_view(s@)),
{
    let p = insert_pos(&x, s);
    proof {
        assert(forall|j: int| 0 <= j < s@.len() ==> #[trigger] names_view(s@)[j] == s@[j]@);
        lemma_insert_sorted_at(x@, names_view(s@), p as int);
    }
    let mut r: Vec<Vec<u8>> = Vec::new();
    let mut i: usize = 0;
    while i < p
        invariant
            i <= p <= s@.len(),
            r@.len() == i,
            forall|j: int| 0 <= j < i ==> #[trigger] r@[j]@ == s@[j]@,
        decreases p - i,
    {
        r.push(crate::bytesfmt::dup_bytes(&s[i]));
        i += 1;
    }
    r.push(x);
    let mut k: usize = p;
    while k < s.len()
        invariant
            p <= k <= s@.len(),
            r@.len() == k + 1,
            forall|j: int| 0 <= j < p ==> #[trigger] r@[j]@ == s@[j]@,
            r@[p as int]@ == x@,
            forall|j: int| p < j <= k ==> #[trigger] r@[j]@ == s@[j - 1]@,
        decreases s@.len() - k,
    {
        r.push(crate::bytesfmt::dup_bytes(&s[k]));
        k += 1;
    }
    proof {
        assert(names_view(r@) =~= names_view(s@).take(p as int) + seq![x@] + names_view(s@).skip(
            p as int,
        ));
    }
    r
}

/// Sorts a list of names lexicographically, mirroring `sort_names`.
#[verifier::loop_isolation(false)]
fn sort_names_exec(s: &Vec<Vec<u8>>) -> (r: Vec<Vec<u8>>)
    ensures
        names_view(r@) == sort_names(names_view(s@)),
{
    let mut out: Vec<Vec<u8>> = Vec::new();
    let mut i: usize = s.len();
    proof {
        assert(names_view(s@).skip(s@.len() as int) =~= Seq::<Seq<u8>>::empty());
        assert(names_view(out@) =~= Seq::<Seq<u8>>::empty());
    }
    while i > 0
        invariant
            i <= s@.len(),
            names_view(out@) == sort_names(names_view(s@).skip(i as int)),
        decreases i,
    {
        i -= 1;
        proof {
            assert(names_view(s@).skip(i as int)[0] == s@[i as int]@);
            assert(names_view(s@).skip(i as int).drop_first() =~= names_view(s@).skip(i + 1));
        }
        let out2 = insert_sorted_exec(crate::bytesfmt::dup_bytes(&s[i]), &out);
        out = out2;
    }
    proof {
        assert(names_view(s@).skip(0) =~= names_view(s@));
    }
    out
}

/// Builds the full EIP-712 type encoding of a struct type of the graph.
#[verifier::loop_isolation(false)]
#[verifier::rlimit(100)]
fn encode_type_exec(types: &Vec<TypeDef>, tb: &Vec<u8>) -> (r: Vec<u8>)
    ensures
        r@ == encode_type_b(types@, tb@),
{
    let found = find_deps_exec(types, crate::bytesfmt::dup_bytes(tb), Vec::new(), types.len());
    proof {
        assert(names_view(Seq::<Vec<u8>>::empty()) =~= Seq::<Seq<u8>>::empty());
    }
    let ghost fv: Seq<Seq<u8>> = names_view(found@);
    if found.len() == 0 {
        let r: Vec<u8> = Vec::new();
        proof {
            assert(r@ =~= encode_type_b(types@, tb@));
        }
        return r;
    }
    let mut rest: Vec<Vec<u8>> = Vec::new();
    let mut i: usize = 1;
    while i < found.len()
        invariant
            1 <= i <= found@.len(),
            rest@.len() == i - 1,
            forall|j: int| 0 <= j < i - 1 ==> #[trigger] rest@[j]@ == found@[j + 1]@,
        decreases found@.len() - i,
    {
        rest.push(crate::bytesfmt::dup_bytes(&found[i]));
        i += 1;
    }
    proof {
        assert(names_view(rest@) =~= fv.drop_first());
    }
    let sorted = sort_names_exec(&rest);
    let mut names: Vec<Vec<u8>> = Vec::new();
    names.push(crate::bytesfmt::dup_bytes(&found[0]));
    let mut k: usize = 0;
    while k < sorted.len()
        invariant
            k <= sorted@.len(),
            names@.len() == k + 1,
            names@[0]@ == found@[0]@,
            forall|j: int| 0 < j <= k ==> #[trigger] names@[j]@ == sorted@[j - 1]@,
        decreases sorted@.len() - k,
    {
        names.push(crate::bytesfmt::dup_bytes(&sorted[k]));
        k += 1;
    }
    let ghost nv: Seq<Seq<u8>> = names_view(names@);
    proof {
        assert(nv =~= seq![fv[0]] + sort_names(fv.drop_first()));
    }
    let mut out: Vec<u8> = Vec::new();
    let mut m: usize = 0;
    proof {
        assert(nv.skip(0) =~= nv);
        assert(out@ + sigs_of(types@, nv.skip(0)) =~= sigs_of(types@, nv));
    }
    while m < names.len()
        invariant
            m <= names@.len(),
            out@ + sigs_of(types@, nv.skip(m as int)) == sigs_of(types@, nv),
        decreases names@.len() - m,
    {
        proof {
            assert(nv.skip(m as int)[0] == names@[m as int]@);
            assert(nv.skip(m as int).drop_first() =~= nv.skip(m + 1));
        }
        let ghost before: Seq<u8> = out@;
        match lookup_type_b_exec(types, &names[m]) {
            Option::Some(td) => {
                let sig = build_type_sig(td);
                push_bytes(&mut out, &sig);
            }
            Option::None => {}
        }
        proof {
            assert(out@ + sigs_of(types@, nv.skip(m + 1)) =~= before + sigs_of(
                types@,
                nv.skip(m as int),
            ));
        }
        m += 1;
    }
    proof {
        assert(nv.skip(nv.len() as int) =~= Seq::<Seq<u8>>::empty());
        assert(out@ =~= sigs_of(types@, nv));
        assert(out@ =~= encode_type_b(types@, tb@));
    }
    out
}

/// The word of one field value against its type string, given as bytes.
#[verifier::loop_isolation(false)]
#[verifier::rlimit(100)]
fn field_word_bytes(types: &Vec<TypeDef>, tb: &Vec<u8>, v: &Value) -> (r: Result<Vec<u8>, Error>)
    ensures
        r is Ok <==> field_word(types@, tb@, *v) is Some,
        r matches Ok(w) ==> field_word(types@, tb@, *v) == Option::Some(w@) && w@.len() == 32,
        r matches Err(e) ==> e is TypedData,
    decreases 3 * vdepth(*v) + 2, 0nat,
{
    // A struct name of the graph shadows every elementary interpretation.
    match lookup_type_b_exec(types, tb) {
        Option::Some(td) => {
            proof {
                lemma_lookup_type_b_name(types@, tb@);
            }
            return hash_typed_struct(types, td, v);
        }
        Option::None => {}
    }
    // Locate the last "[" to recognise an array type.
    let mut lbi: usize = 0;
    let mut has_bracket = false;
    let mut j: usize = 0;
    while j < tb.len()
        invariant
            j <= tb@.len(),
            !has_bracket ==> forall|k: int| 0 <= k < j ==> tb@[k] != 91,
            has_bracket ==> lbi < j && tb@[lbi as int] == 91 && (forall|k: int|
                lbi < k < j ==> tb@[k] != 91),
        decreases tb@.len() - j,
    {
        if tb[j] == 91 {
            has_bracket = true;
            lbi = j;
        }
        j += 1;
    }
    proof {
        if has_bracket {
            lemma_last_bracket_at(tb@, lbi as int);
        } else {
            lemma_last_bracket_at(tb@, -1);
        }
    }
    if has_bracket {
        match v {
            Value::Arr(xs) => {
                let et = dup_range(tb, 0, lbi);
                proof {
                    assert(et@ =~= tb@.take(last_bracket(tb@)));
                }
                let mut words: Vec<u8> = Vec::new();
                let mut i: usize = 0;
                proof {
                    assert(xs@.take(0) =~= Seq::<Value>::empty());
                }
                while i < xs.len()
                    invariant
                        i <= xs@.len(),
                        arr_words(types@, et@, xs@.take(i as int)) == Option::Some(words@),
                    decreases xs@.len() - i,
                {
                    proof {
                        lemma_vdepth_seq_elem(xs@, i as int);
                        assert(vdepth(*v) == 1 + vdepth_seq(xs@));
                    }
                    let w = match field_word_bytes(types, &et, &xs[i]) {
                        Ok(w) => w,
                        Err(e) => {
                            proof {
                                lemma_arr_words_snoc(
                                    types@,
                                    et@,
                                    xs@.take(i as int),
                                    xs@[i as int],
                                );
                                assert(xs@.take(i + 1) =~= xs@.take(i as int) + seq![
                                    xs@[i as int],
                                ]);
                                lemma_arr_words_prefix_none(types@, et@, xs@, i + 1);
                            }
                            return Err(e);
                        }
                    };
                    proof {
                        lemma_arr_words_snoc(types@, et@, xs@.take(i as int), xs@[i as int]);
                        assert(xs@.take(i + 1) =~= xs@.take(i as int) + seq![xs@[i as int]]);
                    }
                    push_bytes(&mut words, &w);
                    i += 1;
                }
                proof {
                    assert(xs@.take(xs@.len() as int) =~= xs@);
                }
                Ok(keccak256(&words))
            }
            _ => Err(Error::TypedData("expected an array value".to_owned())),
        }
    } else if bytes_eq(tb, &"address".as_bytes_vec()) {
        match v {
            Value::Str(st) => {
                match hex_value_bytes_exec(st.as_str()) {
                    Option::Some(b) => {
                        if b.len() == 20 {
                            let mut out: Vec<u8> = Vec::new();
                            push_zeros(&mut out, 12);
                            push_bytes(&mut out, &b);
                            assert(out@ =~= word_addr(b@));
                            Ok(out)
                        } else {
                            Err(Error::TypedData("malformed address value".to_owned()))
                        }
                    }
                    Option::None => Err(Error::TypedData("malformed address value".to_owned())),
                }
            }
            _ => Err(Error::TypedData("expected an address string".to_owned())),
        }
    } else if bytes_eq(tb, &"string".as_bytes_vec()) {
        match v {
            Value::Str(st) => {
                let bb = st.as_str().as_bytes_vec();
                Ok(keccak256(&bb))
            }
            _ => Err(Error::TypedData("expected a string value".to_owned())),
        }
    } else if bytes_eq(tb, &"bool".as_bytes_vec()) {
        match v {
            Value::Bool(b) => Ok(word_u64_vec(if *b { 1 } else { 0 })),
            _ => Err(Error::TypedData("expected a boolean value".to_owned())),
        }
    } else if bytes_eq(tb, &"bytes".as_bytes_vec()) {
        match v {
            Value::Str(st) => {
                match hex_value_bytes_exec(st.as_str()) {
                    Option::Some(b) => Ok(keccak256(&b)),
                    Option::None => Err(Error::TypedData("malformed bytes value".to_owned())),
                }
            }
            _ => Err(Error::TypedData("expected a bytes string".to_owned())),
        }
    } else if has_prefix(tb, &"bytes".as_bytes_vec()) {
        proof {
            reveal_strlit("bytes");
            crate::msgpack::lemma_ascii_str_ok("bytes"@);
        }
        let suffix = dup_range(tb, 5, tb.len());
        proof {
            assert(suffix@ =~= tb@.skip(5));
        }
        match parse_dec_u64_exec(&suffix) {
            Option::Some(n) => {
                if 1 <= n && n <= 32 {
                    match v {
                        Value::Str(st) => {
                            match hex_value_bytes_exec(st.as_str()) {
                                Option::Some(b) => match right_word(&b) {
                                    Option::Some(w) => Ok(w),
                                    Option::None => Err(
                                        Error::TypedData("bytes value too wide".to_owned()),
                                    ),
                                },
                                Option::None => Err(
                                    Error::TypedData("malformed bytes value".to_owned()),
                                ),
                            }
                        }
                        _ => Err(Error::TypedData("expected a bytes string".to_owned())),
                    }
                } else {
                    Err(Error::TypedData("unknown field type".to_owned()))
                }
            }
            Option::None => Err(Error::TypedData("unknown field type".to_owned())),
        }
    } else if has_prefix(tb, &"uint".as_bytes_vec()) && {
        proof {
            reveal_strlit("uint");
            crate::msgpack::lemma_ascii_str_ok("uint"@);
        }
        let suffix = dup_range(tb, 4, tb.len());
        proof {
            assert(suffix@ =~= tb@.skip(4));
        }
        int_size_ok_exec(&suffix)
    } {
        num_word_exec(v)
    } else if has_prefix(tb, &"int".as_bytes_vec()) && {
        proof {
            reveal_strlit("int");
            crate::msgpack::lemma_ascii_str_ok("int"@);
        }
        let suffix = dup_range(tb, 3, tb.len());
        proof {
            assert(suffix@ =~= tb@.skip(3));
        }
        int_size_ok_exec(&suffix)
    } {
        num_word_exec(v)
    } else {
        Err(Error::TypedData("unknown field type".to_owned()))
    }
}

/// Whether an integer size suffix is acceptable.
fn int_size_ok_exec(suffix: &Vec<u8>) -> (r: bool)
    ensures
        r == int_size_ok(suffix@),
{
    if suffix.len() == 0 {
        return true;
    }
    match parse_dec_u64_exec(suffix) {
        Option::Some(n) => 1 <= n && n <= 256,
        Option::None => false,
    }
}

proof fn lemma_arr_words_prefix_none(types: Seq<TypeDef>, etb: Seq<u8>, xs: Seq<Value>, k: int)
    requires
        0 <= k <= xs.len(),
        arr_words(types, etb, xs.take(k)) is None,
    ensures
        arr_words(types, etb, xs) is None,
    decreases xs.len() - k,
{
    if k < xs.len() {
        lemma_arr_words_snoc(types, etb, xs.take(k), xs[k]);
        assert(xs.take(k + 1) =~= xs.take(k) + seq![xs[k]]);
        lemma_arr_words_prefix_none(types, etb, xs, k + 1);
    } else {
        assert(xs.take(k) =~= xs);
    }
}


#[verifier::rlimit(100)]
#[verifier::spinoff_prover]
proof fn lemma_fields_sig_snoc(a: Seq<FieldDef>, f: FieldDef)
    ensures
        fields_sig_bytes(a + seq![f]) == (if a.len() == 0 {
            encode_utf8(f.type_str@) + encode_utf8(" "@) + encode_utf8(f.name@)
        } else {
            fields_sig_bytes(a) + encode_utf8(","@) + encode_utf8(f.type_str@) + encode_utf8(" "@)
                + encode_utf8(f.name@)
        }),
    decreases a.len(),
{
    if a.len() == 0 {
        assert((a + seq![f])[0] == f);
        assert((a + seq![f]).len() == 1);
        assert(fields_sig_bytes(a + seq![f]) =~= encode_utf8(f.type_str@) + encode_utf8(" "@)
            + encode_utf8(f.name@));
    } else {
        assert((a + seq![f])[0] == a[0]);
        assert((a + seq![f]).drop_first() =~= a.drop_first() + seq![f]);
        lemma_fields_sig_snoc(a.drop_first(), f);
        assert(fields_sig_bytes(a + seq![f]) =~= fields_sig_bytes(a) + encode_utf8(","@)
            + encode_utf8(f.type_str@) + encode_utf8(" "@) + encode_utf8(f.name@));
    }
}

/// Builds the signature text of a type.
#[verifier::loop_isolation(false)]
#[verifier::rlimit(100)]
fn build_type_sig(td: &TypeDef) -> (r: Vec<u8>)
    ensures
        r@ == type_sig_bytes(*td),
{
    let mut out: Vec<u8> = Vec::new();
    push_bytes(&mut out, &td.name.as_str().as_bytes_vec());
    push_bytes(&mut out, &"(".as_bytes_vec());
    let ghost base: Seq<u8> = out@;
    let mut i: usize = 0;
    proof {
        assert(td.fields@.take(0) =~= Seq::<FieldDef>::empty());
    }
    while i < td.fields.len()
        invariant
            i <= td.fields@.len(),
            out@ == base + fields_sig_bytes(td.fields@.take(i as int)),
        decreases td.fields@.len() - i,
    {
        let f = &td.fields[i];
        if i > 0 {
            push_bytes(&mut out, &",".as_bytes_vec());
        }
        push_bytes(&mut out, &f.type_str.as_str().as_bytes_vec());
        push_bytes(&mut out, &" ".as_bytes_vec());
        push_bytes(&mut out, &f.name.as_str().as_bytes_vec());
        proof {
            lemma_fields_sig_snoc(td.fields@.take(i as int), td.fields@[i as int]);
            assert(td.fields@.take(i + 1) =~= td.fields@.take(i as int) + seq![
                td.fields@[i as int],
            ]);
            assert(out@ =~= base + fields_sig_bytes(td.fields@.take(i + 1)));
        }
        i += 1;
    }
    push_bytes(&mut out, &")".as_bytes_vec());
    proof {
        assert(td.fields@.take(td.fields@.len() as int) =~= td.fields@);
        assert(out@ =~= type_sig_bytes(*td));
    }
    out
}

/// Finds a message entry by name.
#[verifier::loop_isolation(false)]
fn get_msg_field<'a>(msg: &'a Value, name: &String) -> (r: Option<&'a Value>)
    ensures
        r is Some <==> msg_field_value(*msg, name@) is Some,
        r matches Some(v) ==> msg_field_value(*msg, name@) == Option::Some(*v),
{
    match msg {
        Value::Obj(ps) => {
            let mut i: usize = 0;
            proof {
                assert(ps@.skip(0) =~= ps@);
            }
            while i < ps.len()
                invariant
                    i <= ps@.len(),
                    obj_lookup(ps@.skip(i as int), name@) == obj_lookup(ps@, name@),
                decreases ps@.len() - i,
            {
                let pair = &ps[i];
                proof {
                    assert(ps@.skip(i as int)[0] == ps@[i as int]);
                    assert(ps@.skip(i as int).drop_first() =~= ps@.skip(i + 1));
                }
                if pair.0.eq(name) {
                    return Some(&pair.1);
                }
                i += 1;
            }
            proof {
                assert(ps@.skip(ps@.len() as int) =~= Seq::<(String, Value)>::empty());
            }
            None
        }
        _ => None,
    }
}

proof fn lemma_struct_words_prefix_none(
    types: Seq<TypeDef>,
    fields: Seq<FieldDef>,
    msg: Value,
    k: int,
)
    requires
        0 <= k <= fields.len(),
        struct_words(types, fields.take(k), msg) is None,
    ensures
        struct_words(types, fields, msg) is None,
    decreases fields.len() - k,
{
    if k < fields.len() {
        lemma_struct_words_snoc(types, fields.take(k), fields[k], msg);
        assert(fields.take(k + 1) =~= fields.take(k) + seq![fields[k]]);
        lemma_struct_words_prefix_none(types, fields, msg, k + 1);
    } else {
        assert(fields.take(k) =~= fields);
    }
}

/// Computes the struct hash of a type of the graph against a message,
/// resolving struct references recursively.
#[verifier::loop_isolation(false)]
#[verifier::rlimit(100)]
fn hash_typed_struct(types: &Vec<TypeDef>, td: &TypeDef, msg: &Value) -> (r: Result<
    Vec<u8>,
    Error,
>)
    ensures
        r is Ok <==> typed_struct_hash(types@, *td, *msg) is Some,
        r matches Ok(h) ==> typed_struct_hash(types@, *td, *msg) == Option::Some(h@) && h@.len()
            == 32,
        r matches Err(e) ==> e is TypedData,
    decreases 3 * vdepth(*msg) + 1, 0nat,
{
    let name_bytes = td.name.as_str().as_bytes_vec();
    let sig = encode_type_exec(types, &name_bytes);
    let type_hash = keccak256(&sig);
    let mut buf: Vec<u8> = Vec::new();
    push_bytes(&mut buf, &type_hash);
    let ghost base: Seq<u8> = buf@;
    let mut i: usize = 0;
    proof {
        assert(td.fields@.take(0) =~= Seq::<FieldDef>::empty());
    }
    while i < td.fields.len()
        invariant
            i <= td.fields@.len(),
            struct_words(types@, td.fields@.take(i as int), *msg) matches Some(ws) && buf@ == base
                + ws,
        decreases td.fields@.len() - i,
    {
        let f = &td.fields[i];
        proof {
            lemma_struct_words_snoc(types@, td.fields@.take(i as int), td.fields@[i as int], *msg);
            assert(td.fields@.take(i + 1) =~= td.fields@.take(i as int) + seq![
                td.fields@[i as int],
            ]);
        }
        let tb = f.type_str.as_str().as_bytes_vec();
        match get_msg_field(msg, &f.name) {
            Option::Some(v) => {
                proof {
                    match msg {
                        Value::Obj(ps) => {
                            lemma_obj_lookup_depth(ps@, f.name@);
                        }
                        _ => {}
                    }
                }
                let w = match field_word_bytes(types, &tb, v) {
                    Ok(w) => w,
                    Err(e) => {
                        proof {
                            lemma_struct_words_prefix_none(types@, td.fields@, *msg, i + 1);
                        }
                        return Err(e);
                    }
                };
                push_bytes(&mut buf, &w);
            }
            Option::None => {
                match lookup_type_b_exec(types, &tb) {
                    Option::Some(_) => {
                        push_zeros(&mut buf, 32);
                        proof {
                            assert(one_field_word(types@, td.fields@[i as int], *msg)
                                == Option::Some(zero_seq(32)));
                        }
                    }
                    Option::None => {
                        proof {
                            lemma_struct_words_prefix_none(types@, td.fields@, *msg, i + 1);
                        }
                        return Err(
                            Error::TypedData("no data found for a declared field".to_owned()),
                        );
                    }
                }
            }
        }
        i += 1;
    }
    proof {
        assert(td.fields@.take(td.fields@.len() as int) =~= td.fields@);
    }
    Ok(keccak256(&buf))
}

/// Computes the final digest of a generic typed-data message.
#[verifier::loop_isolation(false)]
pub fn typed_data_digest(
    domain: &TypedDomain,
    types: &Vec<TypeDef>,
    message: &Value,
    primary_type: &String,
) -> (r: Result<Vec<u8>, Error>)
    ensures
        r is Ok <==> typed_digest_of(*domain, types@, primary_type@, *message) is Some,
        r matches Ok(h) ==> typed_digest_of(*domain, types@, primary_type@, *message)
            == Option::Some(h@) && h@.len() == 32,
        r matches Err(e) ==> e is TypedData,
{
    let ds = match generic_domain_separator(domain) {
        Ok(d) => d,
        Err(e) => {
            return Err(e);
        }
    };
    let domain_name = String::from_str("EIP712Domain");
    if primary_type.eq(&domain_name) {
        let mut buf: Vec<u8> = Vec::new();
        buf.push(0x19);
        buf.push(0x01);
        push_bytes(&mut buf, &ds);
        assert(buf@ =~= seq![0x19u8, 0x01u8] + gen_domain_sep(*domain));
        return Ok(keccak256(&buf));
    }
    let primary_bytes = primary_type.as_str().as_bytes_vec();
    match lookup_type_b_exec(types, &primary_bytes) {
        Option::Some(td) => {
            let sh = match hash_typed_struct(types, td, message) {
                Ok(h) => h,
                Err(e) => {
                    return Err(e);
                }
            };
            Ok(signing_digest(&ds, &sh))
        }
        Option::None => Err(
            Error::TypedData("no type definition found for the primary type".to_owned()),
        ),
    }
}

/// Signs a caller-supplied typed-data message: the generic EIP-712 path.
pub fn sign_typed_data(
    private_key_hex: &String,
    domain: &TypedDomain,
    types: &Vec<TypeDef>,
    message: &Value,
    primary_type: &String,
) -> (r: Result<SignatureResult, Error>)
    ensures
        r is Ok <==> wallet_key_ok(private_key_hex@) && typed_digest_of(
            *domain,
            types@,
            primary_type@,
            *message,
        ) is Some && secret_key_valid(wallet_key_bytes(private_key_hex@)) && ecdsa_sign_ok(
            wallet_key_bytes(private_key_hex@),
            typed_digest_of(*domain, types@, primary_type@, *message)->Some_0,
        ),
        !wallet_key_ok(private_key_hex@) ==> r matches Err(Error::Wallet(_)),
        wallet_key_ok(private_key_hex@) && typed_digest_of(
            *domain,
            types@,
            primary_type@,
            *message,
        ) is None ==> r matches Err(Error::TypedData(_)),
        wallet_key_ok(private_key_hex@) && typed_digest_of(
            *domain,
            types@,
            primary_type@,
            *message,
        ) is Some && !secret_key_valid(wallet_key_bytes(private_key_hex@)) ==> r matches Err(
            Error::Wallet(_),
        ),
        wallet_key_ok(private_key_hex@) && typed_digest_of(
            *domain,
            types@,
            primary_type@,
            *message,
        ) is Some && secret_key_valid(wallet_key_bytes(private_key_hex@)) && r is Err
            ==> r matches Err(Error::SignatureFailure(_)),
        r matches Ok(out) ==> (typed_digest_of(
            *domain,
            types@,
            primary_type@,
            *message,
        ) matches Some(digest) && sig_result_matches(
            out,
            ecdsa_signature(wallet_key_bytes(private_key_hex@), digest),
            Option::None,
        )),
{
    let wallet = match parse_wallet(private_key_hex.as_str()) {
        Ok(w) => w,
        Err(e) => {
            return Err(e);
        }
    };
    let digest = match typed_data_digest(domain, types, message, primary_type) {
        Ok(d) => d,
        Err(e) => {
            return Err(e);
        }
    };
    let sig = match ecdsa_sign(&wallet, &digest) {
        Ok(s) => s,
        Err(e) => {
            return Err(e);
        }
    };
    Ok(signature_to_map(sig, None))
}


// ===== Static/dynamic equivalence =====

proof fn lemma_no_bracket(t: Seq<char>)
    requires
        vstd::utf8::is_ascii_chars(t),
        forall|i: int| 0 <= i < t.len() ==> t[i] != '[',
    ensures
        last_bracket(encode_utf8(t)) == -1,
        first_bracket(encode_utf8(t)) == -1,
        dep_base(encode_utf8(t)) == encode_utf8(t),
{
    vstd::utf8::is_ascii_chars_encode_utf8(t);
    assert(forall|i: int| 0 <= i < encode_utf8(t).len() ==> encode_utf8(t)[i] != 91) by {
        assert(forall|i: int| 0 <= i < t.len() ==> (t[i] != '[' && #[trigger] encode_utf8(t)[i]
            == t[i] as u8));
    }
    lemma_last_bracket_at(encode_utf8(t), -1);
    lemma_first_bracket_at(encode_utf8(t), -1);
}

/// The word of a string-typed field is the hash of the string, in any graph
/// that holds no type named "string".
proof fn lemma_string_field_word(types: Seq<TypeDef>, v: Value, sv: Seq<char>)
    requires
        v matches Value::Str(s) && s@ == sv,
        lookup_type_b(types, encode_utf8("string"@)) is None,
    ensures
        field_word(types, encode_utf8("string"@), v) == Option::Some(str_hash_word(sv)),
{
    reveal_strlit("string");
    reveal_strlit("address");
    lemma_no_bracket("string"@);
    vstd::utf8::is_ascii_chars_encode_utf8("string"@);
    vstd::utf8::is_ascii_chars_encode_utf8("address"@);
    assert(encode_utf8("string"@).len() == 6);
    assert(encode_utf8("address"@).len() == 7);
}

/// The word of a uint64-typed field holding a plain number is its padded
/// big-endian word, in any graph that holds no type named "uint64".
proof fn lemma_uint64_field_word(types: Seq<TypeDef>, time: u64)
    requires
        lookup_type_b(types, encode_utf8("uint64"@)) is None,
    ensures
        field_word(types, encode_utf8("uint64"@), Value::UInt(time)) == Option::Some(
            word_u64(time),
        ),
{
    let tb = encode_utf8("uint64"@);
    reveal_strlit("uint64");
    reveal_strlit("address");
    reveal_strlit("string");
    reveal_strlit("bool");
    reveal_strlit("bytes");
    reveal_strlit("uint");
    lemma_no_bracket("uint64"@);
    vstd::utf8::is_ascii_chars_encode_utf8("uint64"@);
    vstd::utf8::is_ascii_chars_encode_utf8("address"@);
    vstd::utf8::is_ascii_chars_encode_utf8("string"@);
    vstd::utf8::is_ascii_chars_encode_utf8("bool"@);
    vstd::utf8::is_ascii_chars_encode_utf8("bytes"@);
    vstd::utf8::is_ascii_chars_encode_utf8("uint"@);
    assert(tb.len() == 6);
    assert(tb[0] == 117u8);
    assert(tb != encode_utf8("address"@));
    assert(tb != encode_utf8("string"@));
    assert(tb != encode_utf8("bool"@));
    assert(tb != encode_utf8("bytes"@));
    assert(!starts_with(tb, encode_utf8("bytes"@))) by {
        assert(tb.take(5)[0] == 117u8);
        assert(encode_utf8("bytes"@)[0] == 98u8);
    }
    assert(starts_with(tb, encode_utf8("uint"@))) by {
        assert(tb.take(4) =~= encode_utf8("uint"@));
    }
    assert(tb.skip(4) =~= seq![54u8, 52u8]);
    assert(int_size_ok(tb.skip(4))) by {
        let suffix = seq![54u8, 52u8];
        assert(suffix.drop_first() =~= seq![52u8]);
        assert(seq![52u8].drop_first() =~= Seq::<u8>::empty());
        assert(dec_fold(Seq::<u8>::empty(), 64) == Option::Some(64u64));
        assert(dec_fold(seq![52u8], 6) == Option::Some(64u64));
        assert(dec_fold(suffix, 0) == Option::Some(64u64));
        assert(parse_dec_u64(suffix) == Option::Some(64u64));
    }
}

#[verifier::rlimit(100)]
#[verifier::spinoff_prover]
proof fn lemma_usd_send_type_sig(td: TypeDef)
    requires
        td.name@ == "HyperliquidTransaction:UsdSend"@,
        td.fields@.len() == 4,
        td.fields@[0].name@ == "hyperliquidChain"@ && td.fields@[0].type_str@ == "string"@,
        td.fields@[1].name@ == "destination"@ && td.fields@[1].type_str@ == "string"@,
        td.fields@[2].name@ == "amount"@ && td.fields@[2].type_str@ == "string"@,
        td.fields@[3].name@ == "time"@ && td.fields@[3].type_str@ == "uint64"@,
    ensures
        type_sig_bytes(td) == encode_utf8(
            "HyperliquidTransaction:UsdSend(string hyperliquidChain,string destination,string amount,uint64 time)"@,
        ),
{
    reveal_strlit(
        "HyperliquidTransaction:UsdSend(string hyperliquidChain,string destination,string amount,uint64 time)",
    );
    reveal_strlit("HyperliquidTransaction:UsdSend");
    reveal_strlit("hyperliquidChain");
    reveal_strlit("destination");
    reveal_strlit("amount");
    reveal_strlit("time");
    reveal_strlit("string");
    reveal_strlit("uint64");
    reveal_strlit("(");
    reveal_strlit(")");
    reveal_strlit(",");
    reveal_strlit(" ");
    vstd::utf8::is_ascii_chars_encode_utf8(
        "HyperliquidTransaction:UsdSend(string hyperliquidChain,string destination,string amount,uint64 time)"@,
    );
    vstd::utf8::is_ascii_chars_encode_utf8("HyperliquidTransaction:UsdSend"@);
    vstd::utf8::is_ascii_chars_encode_utf8("hyperliquidChain"@);
    vstd::utf8::is_ascii_chars_encode_utf8("destination"@);
    vstd::utf8::is_ascii_chars_encode_utf8("amount"@);
    vstd::utf8::is_ascii_chars_encode_utf8("time"@);
    vstd::utf8::is_ascii_chars_encode_utf8("string"@);
    vstd::utf8::is_ascii_chars_encode_utf8("uint64"@);
    vstd::utf8::is_ascii_chars_encode_utf8("("@);
    vstd::utf8::is_ascii_chars_encode_utf8(")"@);
    vstd::utf8::is_ascii_chars_encode_utf8(","@);
    vstd::utf8::is_ascii_chars_encode_utf8(" "@);
    let fs = td.fields@;
    let f1 = fs.drop_first();
    let f2 = f1.drop_first();
    let f3 = f2.drop_first();
    assert(f3.drop_first() =~= Seq::<FieldDef>::empty());
    assert(f1[0] == fs[1] && f2[0] == fs[2] && f3[0] == fs[3]);
    assert(f1.len() == 3 && f2.len() == 2 && f3.len() == 1);
    assert(fields_sig_bytes(f3) =~= encode_utf8("uint64"@) + encode_utf8(" "@) + encode_utf8(
        "time"@,
    ));
    assert(fields_sig_bytes(f2) =~= encode_utf8("string"@) + encode_utf8(" "@) + encode_utf8(
        "amount"@,
    ) + encode_utf8(","@) + fields_sig_bytes(f3));
    assert(fields_sig_bytes(f1) =~= encode_utf8("string"@) + encode_utf8(" "@) + encode_utf8(
        "destination"@,
    ) + encode_utf8(","@) + fields_sig_bytes(f2));
    assert(fields_sig_bytes(fs) =~= encode_utf8("string"@) + encode_utf8(" "@) + encode_utf8(
        "hyperliquidChain"@,
    ) + encode_utf8(","@) + fields_sig_bytes(f1));
    assert(type_sig_bytes(td) =~= encode_utf8(
        "HyperliquidTransaction:UsdSend(string hyperliquidChain,string destination,string amount,uint64 time)"@,
    ));
}

proof fn lemma_single_type_deps(td: TypeDef, k: int)
    requires
        forall|i: int|
            0 <= i < td.fields@.len() ==> lookup_type_b(
                seq![td],
                dep_base(encode_utf8(#[trigger] td.fields@[i].type_str@)),
            ) is None,
        0 <= k <= td.fields@.len(),
    ensures
        deps_fields(seq![td], td.fields@.skip(k), seq![encode_utf8(td.name@)], 0)
            == seq![encode_utf8(td.name@)],
    decreases td.fields@.len() - k,
{
    let types = seq![td];
    let ptb = encode_utf8(td.name@);
    if k < td.fields@.len() {
        assert(td.fields@.skip(k)[0] == td.fields@[k]);
        assert(td.fields@.skip(k).drop_first() =~= td.fields@.skip(k + 1));
        let db = dep_base(encode_utf8(td.fields@[k].type_str@));
        assert(!seq![ptb].contains(db)) by {
            if seq![ptb].contains(db) {
                assert(db == ptb);
                assert(encode_utf8(types[0].name@) == ptb);
                assert(lookup_type_b(types, db) is Some);
            }
        }
        assert(find_deps(types, db, seq![ptb], 0) == seq![ptb]);
        lemma_single_type_deps(td, k + 1);
    } else {
        assert(td.fields@.skip(k) =~= Seq::<FieldDef>::empty());
    }
}

/// In a one-type graph whose fields reference no struct type, the full type
/// encoding is the type's own signature text alone.
proof fn lemma_single_type_encode(td: TypeDef)
    requires
        forall|i: int|
            0 <= i < td.fields@.len() ==> lookup_type_b(
                seq![td],
                dep_base(encode_utf8(#[trigger] td.fields@[i].type_str@)),
            ) is None,
    ensures
        encode_type_b(seq![td], encode_utf8(td.name@)) == type_sig_bytes(td),
{
    let types = seq![td];
    let ptb = encode_utf8(td.name@);
    assert(!Seq::<Seq<u8>>::empty().contains(ptb));
    assert(encode_utf8(types[0].name@) == ptb);
    assert(lookup_type_b(types, ptb) == Option::Some(td));
    assert(types.len() == 1);
    lemma_single_type_deps(td, 0);
    assert(td.fields@.skip(0) =~= td.fields@);
    assert(Seq::<Seq<u8>>::empty().push(ptb) =~= seq![ptb]);
    assert(find_deps(types, ptb, Seq::<Seq<u8>>::empty(), 1) == seq![ptb]);
    let found = seq![ptb];
    assert(found.drop_first() =~= Seq::<Seq<u8>>::empty());
    assert(sort_names(Seq::<Seq<u8>>::empty()) =~= Seq::<Seq<u8>>::empty());
    assert(seq![found[0]] + sort_names(found.drop_first()) =~= seq![ptb]);
    assert(sigs_of(types, seq![ptb]) =~= type_sig_bytes(td)) by {
        assert(seq![ptb].drop_first() =~= Seq::<Seq<u8>>::empty());
        assert(sigs_of(types, Seq::<Seq<u8>>::empty()) == Seq::<u8>::empty());
        assert(type_sig_bytes(td) + Seq::<u8>::empty() =~= type_sig_bytes(td));
    }
}

#[verifier::rlimit(100)]
#[verifier::spinoff_prover]
proof fn lemma_protocol_domain_sep(d: TypedDomain)
    requires
        d.name matches Some(n) && n@ == "HyperliquidSignTransaction"@,
        d.version matches Some(v) && v@ == "1"@,
        d.chain_id matches Some(c) && c@ == word_u64(42161),
        d.verifying_contract matches Some(a) && a.bytes@ == Seq::new(20, |i: int| 0u8),
        d.salt is None,
    ensures
        gen_domain_sep(d) == crate::eip712::domain_sep("HyperliquidSignTransaction"@, "1"@, 42161),
{
    reveal_strlit(
        "EIP712Domain(string name,string version,uint256 chainId,address verifyingContract)",
    );
    reveal_strlit("EIP712Domain(");
    reveal_strlit("string name");
    reveal_strlit("string version");
    reveal_strlit("uint256 chainId");
    reveal_strlit("address verifyingContract");
    reveal_strlit(",");
    reveal_strlit(")");
    vstd::utf8::is_ascii_chars_encode_utf8(
        "EIP712Domain(string name,string version,uint256 chainId,address verifyingContract)"@,
    );
    vstd::utf8::is_ascii_chars_encode_utf8("EIP712Domain("@);
    vstd::utf8::is_ascii_chars_encode_utf8("string name"@);
    vstd::utf8::is_ascii_chars_encode_utf8("string version"@);
    vstd::utf8::is_ascii_chars_encode_utf8("uint256 chainId"@);
    vstd::utf8::is_ascii_chars_encode_utf8("address verifyingContract"@);
    vstd::utf8::is_ascii_chars_encode_utf8(","@);
    vstd::utf8::is_ascii_chars_encode_utf8(")"@);
    assert(gen_domain_type_bytes(d) =~= encode_utf8(
        "EIP712Domain(string name,string version,uint256 chainId,address verifyingContract)"@,
    ));
    assert(word_addr(d.verifying_contract->Some_0.bytes@) =~= crate::eip712::zero_seq(32));
    assert(gen_domain_words(d) =~= crate::eip712::str_hash_word("HyperliquidSignTransaction"@)
        + crate::eip712::str_hash_word("1"@) + word_u64(42161) + crate::eip712::zero_seq(32));
    assert(keccak_of(gen_domain_type_bytes(d)) + gen_domain_words(d)
        =~= crate::eip712::str_hash_word(
        "EIP712Domain(string name,string version,uint256 chainId,address verifyingContract)"@,
    ) + crate::eip712::str_hash_word("HyperliquidSignTransaction"@) + crate::eip712::str_hash_word(
        "1"@,
    ) + word_u64(42161) + crate::eip712::zero_seq(32));
}

#[verifier::rlimit(100)]
#[verifier::spinoff_prover]
proof fn lemma_usd_send_struct_words(
    types: Seq<TypeDef>,
    td: TypeDef,
    msg: Value,
    hl: Seq<char>,
    dest: Seq<char>,
    amount: Seq<char>,
    time: u64,
)
    requires
        lookup_type_b(types, encode_utf8("string"@)) is None,
        lookup_type_b(types, encode_utf8("uint64"@)) is None,
        td.fields@.len() == 4,
        td.fields@[0].name@ == "hyperliquidChain"@ && td.fields@[0].type_str@ == "string"@,
        td.fields@[1].name@ == "destination"@ && td.fields@[1].type_str@ == "string"@,
        td.fields@[2].name@ == "amount"@ && td.fields@[2].type_str@ == "string"@,
        td.fields@[3].name@ == "time"@ && td.fields@[3].type_str@ == "uint64"@,
        msg matches Value::Obj(ps) && {
            &&& ps@.len() == 4
            &&& ps@[0].0@ == "hyperliquidChain"@
            &&& (ps@[0].1 matches Value::Str(s) && s@ == hl)
            &&& ps@[1].0@ == "destination"@
            &&& (ps@[1].1 matches Value::Str(s) && s@ == dest)
            &&& ps@[2].0@ == "amount"@
            &&& (ps@[2].1 matches Value::Str(s) && s@ == amount)
            &&& ps@[3].0@ == "time"@
            &&& ps@[3].1 == Value::UInt(time)
        },
    ensures
        struct_words(types, td.fields@, msg) matches Some(ws) && ws == str_hash_word(hl)
            + str_hash_word(dest) + str_hash_word(amount) + word_u64(time),
{
    reveal_strlit("hyperliquidChain");
    reveal_strlit("destination");
    reveal_strlit("amount");
    reveal_strlit("time");
    let ps = msg->Obj_0;
    assert("hyperliquidChain"@.len() == 16 && "destination"@.len() == 11 && "amount"@.len() == 6
        && "time"@.len() == 4);
    let t1 = ps@.drop_first();
    let t2 = t1.drop_first();
    let t3 = t2.drop_first();
    assert(t1[0] == ps@[1] && t2[0] == ps@[2] && t3[0] == ps@[3]);
    assert(t1.len() == 3 && t2.len() == 2 && t3.len() == 1);
    assert(obj_lookup(ps@, "hyperliquidChain"@) == Option::Some(ps@[0].1));
    assert(obj_lookup(t1, "destination"@) == Option::Some(ps@[1].1));
    assert(obj_lookup(ps@, "destination"@) == Option::Some(ps@[1].1));
    assert(obj_lookup(t2, "amount"@) == Option::Some(ps@[2].1));
    assert(obj_lookup(t1, "amount"@) == Option::Some(ps@[2].1));
    assert(obj_lookup(ps@, "amount"@) == Option::Some(ps@[2].1));
    assert(obj_lookup(t3, "time"@) == Option::Some(ps@[3].1));
    assert(obj_lookup(t2, "time"@) == Option::Some(ps@[3].1));
    assert(obj_lookup(t1, "time"@) == Option::Some(ps@[3].1));
    assert(obj_lookup(ps@, "time"@) == Option::Some(ps@[3].1));
    lemma_string_field_word(types, ps@[0].1, hl);
    lemma_string_field_word(types, ps@[1].1, dest);
    lemma_string_field_word(types, ps@[2].1, amount);
    lemma_uint64_field_word(types, time);
    let fs = td.fields@;
    let f1 = fs.drop_first();
    let f2 = f1.drop_first();
    let f3 = f2.drop_first();
    assert(f3.drop_first() =~= Seq::<FieldDef>::empty());
    assert(f1[0] == fs[1] && f2[0] == fs[2] && f3[0] == fs[3]);
    assert(f1.len() == 3 && f2.len() == 2 && f3.len() == 1);
    assert(one_field_word(types, fs[0], msg) == Option::Some(str_hash_word(hl)));
    assert(one_field_word(types, fs[1], msg) == Option::Some(str_hash_word(dest)));
    assert(one_field_word(types, fs[2], msg) == Option::Some(str_hash_word(amount)));
    assert(one_field_word(types, fs[3], msg) == Option::Some(word_u64(time)));
    assert(struct_words(types, f3.drop_first(), msg) == Option::Some(Seq::<u8>::empty()));
    assert(struct_words(types, f3, msg) matches Some(w3) && w3 =~= word_u64(time));
    assert(struct_words(types, f2, msg) matches Some(w2) && w2 =~= str_hash_word(amount)
        + word_u64(time));
    assert(struct_words(types, f1, msg) matches Some(w1) && w1 =~= str_hash_word(dest)
        + str_hash_word(amount) + word_u64(time));
    assert(struct_words(types, fs, msg) matches Some(ws) && ws =~= str_hash_word(hl)
        + str_hash_word(dest) + str_hash_word(amount) + word_u64(time));
}

/// Static/dynamic equivalence for the USD-send schema: a caller-built domain,
/// type graph and message that spell out the fixed schema yield, through the
/// generic encoder, exactly the digest that the fixed-schema path hashes, for
/// every choice of the logical fields.
#[verifier::rlimit(100)]
#[verifier::spinoff_prover]
pub proof fn lemma_static_dynamic_usd_send(
    d: TypedDomain,
    td: TypeDef,
    msg: Value,
    hl: Seq<char>,
    dest: Seq<char>,
    amount: Seq<char>,
    time: u64,
)
    requires
        d.name matches Some(n) && n@ == "HyperliquidSignTransaction"@,
        d.version matches Some(v) && v@ == "1"@,
        d.chain_id matches Some(c) && c@ == word_u64(42161),
        d.verifying_contract matches Some(a) && a.bytes@ == Seq::new(20, |i: int| 0u8),
        d.salt is None,
        td.name@ == "HyperliquidTransaction:UsdSend"@,
        td.fields@.len() == 4,
        td.fields@[0].name@ == "hyperliquidChain"@ && td.fields@[0].type_str@ == "string"@,
        td.fields@[1].name@ == "destination"@ && td.fields@[1].type_str@ == "string"@,
        td.fields@[2].name@ == "amount"@ && td.fields@[2].type_str@ == "string"@,
        td.fields@[3].name@ == "time"@ && td.fields@[3].type_str@ == "uint64"@,
        msg matches Value::Obj(ps) && {
            &&& ps@.len() == 4
            &&& ps@[0].0@ == "hyperliquidChain"@
            &&& (ps@[0].1 matches Value::Str(s) && s@ == hl)
            &&& ps@[1].0@ == "destination"@
            &&& (ps@[1].1 matches Value::Str(s) && s@ == dest)
            &&& ps@[2].0@ == "amount"@
            &&& (ps@[2].1 matches Value::Str(s) && s@ == amount)
            &&& ps@[3].0@ == "time"@
            &&& ps@[3].1 == Value::UInt(time)
        },
    ensures
        typed_digest_of(d, seq![td], "HyperliquidTransaction:UsdSend"@, msg) == Option::Some(
            crate::api::usd_send_digest(hl, dest, amount, time),
        ),
{
    // The primary type is not the domain pseudo-type, and the one-type graph
    // resolves it.
    assert("HyperliquidTransaction:UsdSend"@ != "EIP712Domain"@) by {
        reveal_strlit("HyperliquidTransaction:UsdSend");
        reveal_strlit("EIP712Domain");
        assert("HyperliquidTransaction:UsdSend"@.len() == 30);
        assert("EIP712Domain"@.len() == 12);
    }
    let types = seq![td];
    assert(encode_utf8(types[0].name@) == encode_utf8("HyperliquidTransaction:UsdSend"@));
    assert(lookup_type_b(types, encode_utf8("HyperliquidTransaction:UsdSend"@)) == Option::Some(
        td,
    ));
    assert(domain_wf(d));

    // No type of the one-type graph is named "string" or "uint64": the
    // lengths of the encoded names differ.
    reveal_strlit("HyperliquidTransaction:UsdSend");
    reveal_strlit("string");
    reveal_strlit("uint64");
    vstd::utf8::is_ascii_chars_encode_utf8("HyperliquidTransaction:UsdSend"@);
    vstd::utf8::is_ascii_chars_encode_utf8("string"@);
    vstd::utf8::is_ascii_chars_encode_utf8("uint64"@);
    assert(encode_utf8(types[0].name@).len() == 30);
    assert(types.drop_first().len() == 0);
    assert(encode_utf8("string"@).len() == 6);
    assert(encode_utf8("uint64"@).len() == 6);
    assert(lookup_type_b(types.drop_first(), encode_utf8("string"@)) is None);
    assert(lookup_type_b(types.drop_first(), encode_utf8("uint64"@)) is None);
    assert(lookup_type_b(types, encode_utf8("string"@)) is None);
    assert(lookup_type_b(types, encode_utf8("uint64"@)) is None);

    lemma_usd_send_struct_words(types, td, msg, hl, dest, amount, time);
    lemma_usd_send_type_sig(td);
    lemma_protocol_domain_sep(d);

    // Every field base type resolves to no struct of the graph, so the full
    // type encoding is the signature text alone.
    lemma_no_bracket("string"@);
    lemma_no_bracket("uint64"@);
    assert forall|i: int| 0 <= i < td.fields@.len() implies lookup_type_b(
        seq![td],
        dep_base(encode_utf8(#[trigger] td.fields@[i].type_str@)),
    ) is None by {
        if i < 3 {
            assert(td.fields@[i].type_str@ == "string"@);
        } else {
            assert(td.fields@[i].type_str@ == "uint64"@);
        }
    }
    lemma_single_type_encode(td);

    let words = str_hash_word(hl) + str_hash_word(dest) + str_hash_word(amount) + word_u64(time);
    let sh = keccak_of(keccak_of(type_sig_bytes(td)) + words);
    assert(typed_struct_hash(types, td, msg) == Option::Some(sh));
    assert(keccak_of(type_sig_bytes(td)) + words =~= str_hash_word(
        "HyperliquidTransaction:UsdSend(string hyperliquidChain,string destination,string amount,uint64 time)"@,
    ) + str_hash_word(hl) + str_hash_word(dest) + str_hash_word(amount) + word_u64(time));
    assert(typed_digest_of(d, types, "HyperliquidTransaction:UsdSend"@, msg) == Option::Some(
        eip712_digest(gen_domain_sep(d), sh),
    ));
    assert(eip712_digest(gen_domain_sep(d), sh) == crate::api::usd_send_digest(
        hl,
        dest,
        amount,
        time,
    ));
}

} // verus!
