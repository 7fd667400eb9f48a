use vstd::prelude::*;
use vstd::string::StrSliceExecFns;
use vstd::utf8::encode_utf8;
use crate::bytesfmt::{
    all_hex, ascii_chars, hex_lower, hex_val, is_hex, is_ws, lower_byte, lower_bytes, nibble_lower,
};
use crate::crypto::{keccak_of, keccak256};
use crate::error::Error;

verus! {

/// ASCII uppercasing of one byte.
pub open spec fn upper_byte(b: u8) -> u8 {
    if 97 <= b && b <= 122 {
        (b - 32) as u8
    } else {
        b
    }
}

/// Leading ASCII whitespace removed.
pub open spec fn trim_front(s: Seq<u8>) -> Seq<u8>
    decreases s.len(),
{
    if s.len() > 0 && is_ws(s[0]) {
        trim_front(s.drop_first())
    } else {
        s
    }
}

/// Trailing ASCII whitespace removed.
pub open spec fn trim_back(s: Seq<u8>) -> Seq<u8>
    decreases s.len(),
{
    if s.len() > 0 && is_ws(s.last()) {
        trim_back(s.drop_last())
    } else {
        s
    }
}

/// Whitespace removed from both ends.
pub open spec fn trim_ws(s: Seq<u8>) -> Seq<u8> {
    trim_back(trim_front(s))
}

/// A single leading "0x" or "0X" marker removed.
pub open spec fn strip_marker(s: Seq<u8>) -> Seq<u8> {
    if s.len() >= 2 && s[0] == 48 && (s[1] == 120 || s[1] == 88) {
        s.skip(2)
    } else {
        s
    }
}

/// The address body of an input string: whitespace trimmed, then at most one
/// leading "0x"/"0X" marker removed.
pub open spec fn addr_body(s: Seq<u8>) -> Seq<u8> {
    strip_marker(trim_ws(s))
}

/// A valid address body: exactly 40 hex digits.
pub open spec fn valid_addr_body(s: Seq<u8>) -> bool {
    s.len() == 40 && all_hex(s)
}

/// The EIP-55 mixed-case rendering of a lowercase hex body: position `i` is
/// uppercased exactly when the `i`-th hex digit of the Keccak-256 hash of the
/// lowercase ASCII body has value 8 or more.
pub open spec fn checksum_core(lower: Seq<u8>) -> Seq<u8> {
    Seq::new(
        lower.len(),
        |i: int|
            if hex_val(hex_lower(keccak_of(lower))[i]) >= 8 {
                upper_byte(lower[i])
            } else {
                lower[i]
            },
    )
}

/// The checksummed output bytes for a valid input: "0x" and the mixed-case
/// body.
pub open spec fn checksum_bytes(s: Seq<u8>) -> Seq<u8> {
    seq![48u8, 120u8] + checksum_core(lower_bytes(addr_body(s)))
}

fn ws_byte(b: u8) -> (r: bool)
    ensures
        r == is_ws(b),
{
    b == 32 || b == 9 || b == 10 || b == 13 || b == 12
}

proof fn lemma_hex_val_nibble(n: u8)
    requires
        n < 16,
    ensures
        hex_val(nibble_lower(n)) == n,
{
}

proof fn lemma_trim_front_skip(s: Seq<u8>, k: int)
    requires
        0 <= k <= s.len(),
        forall|j: int| 0 <= j < k ==> is_ws(#[trigger] s[j]),
        k == s.len() || !is_ws(s[k]),
    ensures
        trim_front(s) == s.skip(k),
    decreases k,
{
    if k == 0 {
        assert(trim_front(s) =~= s.skip(0)) by {
            assert(s.skip(0) =~= s);
        }
    } else {
        assert(is_ws(s[0]));
        lemma_trim_front_skip(s.drop_first(), k - 1);
        assert(s.drop_first().skip(k - 1) =~= s.skip(k));
    }
}

proof fn lemma_trim_back_take(s: Seq<u8>, k: int)
    requires
        0 <= k <= s.len(),
        forall|j: int| k <= j < s.len() ==> is_ws(#[trigger] s[j]),
        k == 0 || !is_ws(s[k - 1]),
    ensures
        trim_back(s) == s.take(k),
    decreases s.len(),
{
    if k == s.len() {
        if s.len() > 0 {
            assert(!is_ws(s.last()));
        }
        assert(s.take(k) =~= s);
    } else {
        assert(is_ws(s.last()));
        lemma_trim_back_take(s.drop_last(), k);
        assert(s.drop_last().take(k) =~= s.take(k));
    }
}

/// A lowercase hex digit byte.
pub open spec fn is_lower_hex(b: u8) -> bool {
    (48 <= b && b <= 57) || (97 <= b && b <= 102)
}

proof fn lemma_core_case(lower: Seq<u8>)
    requires
        forall|i: int| 0 <= i < lower.len() ==> is_lower_hex(#[trigger] lower[i]),
    ensures
        lower_bytes(checksum_core(lower)) =~= lower,
        forall|i: int| 0 <= i < lower.len() ==> is_hex(#[trigger] checksum_core(lower)[i]),
{
    assert forall|i: int| 0 <= i < lower.len() implies lower_byte(
        #[trigger] checksum_core(lower)[i],
    ) == lower[i] && is_hex(checksum_core(lower)[i]) by {
        assert(is_lower_hex(lower[i]));
    }
}

/// Mixes the case of a 40-digit lowercase hex body per EIP-55.
#[verifier::loop_isolation(false)]
pub fn checksum_body(lower: &Vec<u8>) -> (r: Vec<u8>)
    requires
        lower@.len() == 40,
    ensures
        r@ == checksum_core(lower@),
{
    let hash = keccak256(lower);
    let mut out: Vec<u8> = Vec::new();
    let mut k: usize = 0;
    while k < 40
        invariant
            k <= 40,
            out@.len() == k,
            forall|j: int| 0 <= j < k ==> out@[j] == #[trigger] checksum_core(lower@)[j],
        decreases 40 - k,
    {
        let b = lower[k];
        let hb = hash[k / 2];
        let nib: u8 = if k % 2 == 0 {
            hb >> 4
        } else {
            hb & 0xf
        };
        proof {
            assert(hb >> 4 < 16 && hb & 0xf < 16) by (bit_vector);
            assert(hex_lower(keccak_of(lower@))[k as int] == nibble_lower(nib));
            lemma_hex_val_nibble(nib);
        }
        if nib >= 8 {
            if 97 <= b && b <= 122 {
                out.push(b - 32);
            } else {
                out.push(b);
            }
        } else {
            out.push(b);
        }
        k += 1;
    }
    assert(out@ =~= checksum_core(lower@));
    out
}

/// EIP-55 checksum encoding of an address string. The input is trimmed of
/// ASCII whitespace and of leading "0x"/"0X" markers; the rest must be
/// exactly 40 hex digits, else the call fails with `InvalidAddressFormat`.
/// The output is "0x" followed by the mixed-case body.
#[verifier::loop_isolation(false)]
#[verifier::rlimit(100)]
pub fn to_checksum_address(address: &String) -> (r: Result<String, Error>)
    ensures
        r is Ok <==> valid_addr_body(addr_body(encode_utf8(address@))),
        r matches Ok(out) ==> out@ == ascii_chars(checksum_bytes(encode_utf8(address@))),
        r matches Err(e) ==> e is InvalidAddressFormat,
{
    let bytes = address.as_str().as_bytes_vec();
    let ghost whole: Seq<u8> = bytes@;

    // Trim ASCII whitespace from both ends.
    let mut start: usize = 0;
    let mut end: usize = bytes.len();
    while start < end && ws_byte(bytes[start])
        invariant
            0 <= start <= end,
            end == bytes@.len(),
            forall|j: int| 0 <= j < start ==> is_ws(#[trigger] bytes@[j]),
        decreases end - start,
    {
        start += 1;
    }
    proof {
        lemma_trim_front_skip(whole, start as int);
    }
    let ghost fronted: Seq<u8> = whole.skip(start as int);
    while end > start && ws_byte(bytes[end - 1])
        invariant
            start <= end <= bytes@.len(),
            forall|j: int| end <= j < bytes@.len() ==> is_ws(#[trigger] bytes@[j]),
        decreases end,
    {
        end -= 1;
    }
    proof {
        assert(forall|j: int|
            end - start <= j < fronted.len() ==> is_ws(#[trigger] fronted[j]));
        lemma_trim_back_take(fronted, end - start);
        assert(trim_ws(whole) =~= whole.subrange(start as int, end as int)) by {
            assert(fronted.take(end - start) =~= whole.subrange(start as int, end as int));
        }
    }

    // Strip at most one leading "0x"/"0X" marker.
    if end - start >= 2 && bytes[start] == 48 && (bytes[start + 1] == 120 || bytes[start + 1]
        == 88) {
        proof {
            assert(whole.subrange(start as int, end as int).skip(2) =~= whole.subrange(
                start + 2,
                end as int,
            ));
        }
        start += 2;
    }
    let ghost body: Seq<u8> = whole.subrange(start as int, end as int);
    proof {
        assert(addr_body(whole) == body);
    }

    // Validate: exactly 40 hex digits; lowercase as we go.
    if end - start != 40 {
        return Err(
            Error::InvalidAddressFormat(
                "invalid address; expected 40 hex chars (with or without 0x)".to_owned(),
            ),
        );
    }
    let mut lower: Vec<u8> = Vec::new();
    let mut i: usize = start;
    while i < end
        invariant
            start <= i <= end <= bytes@.len(),
            lower@.len() == i - start,
            forall|j: int| start <= j < i ==> is_hex(#[trigger] bytes@[j]),
            forall|j: int| 0 <= j < i - start ==> lower@[j] == lower_byte(#[trigger] body[j]),
        decreases end - i,
    {
        let b = bytes[i];
        if 48 <= b && b <= 57 {
            lower.push(b);
        } else if 97 <= b && b <= 102 {
            lower.push(b);
        } else if 65 <= b && b <= 70 {
            lower.push(b + 32);
        } else {
            assert(!is_hex(body[i - start]));
            return Err(
                Error::InvalidAddressFormat(
                    "invalid address; expected 40 hex chars (with or without 0x)".to_owned(),
                ),
            );
        }
        i += 1;
    }
    proof {
        assert(lower@ =~= lower_bytes(body));
        assert(valid_addr_body(body));
    }

    // EIP-55: hash the lowercase ASCII body and mix the case.
    let mixed = checksum_body(&lower);
    let mut out: Vec<u8> = Vec::new();
    out.push(48);
    out.push(120);
    crate::bytesfmt::push_bytes(&mut out, &mixed);
    proof {
        assert(out@ =~= checksum_bytes(whole));
        assert(forall|j: int| 0 <= j < body.len() ==> is_hex(#[trigger] body[j]));
        assert(forall|j: int| 0 <= j < 40 ==> is_lower_hex(#[trigger] lower@[j])) by {
            assert(forall|j: int|
                0 <= j < 40 ==> (#[trigger] lower@[j]) == lower_byte(body[j]) && is_hex(body[j]));
        }
        lemma_core_case(lower@);
        assert(forall|j: int| 0 <= j < out@.len() ==> #[trigger] out@[j] < 128) by {
            assert(forall|j: int|
                0 <= j < 40 ==> is_hex(#[trigger] checksum_core(lower@)[j]));
        }
    }
    Ok(crate::bytesfmt::ascii_string(&out))
}

/// The mixed-case rendering of lowercase hex digits holds hex digits only.
pub proof fn lemma_checksum_core_hex(lower: Seq<u8>)
    requires
        forall|i: int| 0 <= i < lower.len() ==> is_lower_hex(#[trigger] lower[i]),
    ensures
        forall|i: int| 0 <= i < lower.len() ==> is_hex(#[trigger] checksum_core(lower)[i])
            && checksum_core(lower)[i] < 128,
{
    lemma_core_case(lower);
}

// ===== Laws of the checksum =====

/// Checksum idempotence, part one: the mixed-case body that the checksum
/// yields is itself a valid address body, and its lowercase form is the
/// canonical lowercase body it came from. Hence hashing it again yields the
/// same digest and the same mixed-case output.
pub proof fn lemma_checksum_idempotent(body: Seq<u8>)
    requires
        valid_addr_body(body),
    ensures
        valid_addr_body(checksum_core(lower_bytes(body))),
        checksum_core(lower_bytes(checksum_core(lower_bytes(body)))) == checksum_core(
            lower_bytes(body),
        ),
{
    let l = lower_bytes(body);
    assert(forall|i: int| 0 <= i < l.len() ==> is_lower_hex(#[trigger] l[i])) by {
        assert(forall|i: int|
            0 <= i < body.len() ==> #[trigger] l[i] == lower_byte(body[i]) && is_hex(body[i]));
    }
    lemma_core_case(l);
    assert(lower_bytes(checksum_core(l)) =~= l);
}

/// Checksum case-insensitivity: two address bodies that agree up to letter
/// case have the same lowercase form, so the checksum renders them
/// identically; and the lowercase form of any checksummed body is that same
/// canonical lowercase body.
pub proof fn lemma_checksum_case_insensitive(b1: Seq<u8>, b2: Seq<u8>)
    requires
        valid_addr_body(b1),
        valid_addr_body(b2),
        lower_bytes(b1) == lower_bytes(b2),
    ensures
        checksum_core(lower_bytes(b1)) == checksum_core(lower_bytes(b2)),
        lower_bytes(checksum_core(lower_bytes(b1))) == lower_bytes(b1),
{
    let l = lower_bytes(b1);
    assert(forall|i: int| 0 <= i < l.len() ==> is_lower_hex(#[trigger] l[i])) by {
        assert(forall|i: int|
            0 <= i < b1.len() ==> #[trigger] l[i] == lower_byte(b1[i]) && is_hex(b1[i]));
    }
    lemma_core_case(l);
    assert(lower_bytes(checksum_core(l)) =~= l);
}

} // verus!
