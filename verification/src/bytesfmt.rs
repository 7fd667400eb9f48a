use vstd::prelude::*;

verus! {

// ===== Big-endian byte views of integers =====

/// The two big-endian bytes of a 16-bit value.
pub open spec fn be2(n: u16) -> Seq<u8> {
    seq![((n >> 8) & 0xff) as u8, (n & 0xff) as u8]
}

/// The four big-endian bytes of a 32-bit value.
pub open spec fn be4(n: u32) -> Seq<u8> {
    seq![
        ((n >> 24) & 0xff) as u8,
        ((n >> 16) & 0xff) as u8,
        ((n >> 8) & 0xff) as u8,
        (n & 0xff) as u8,
    ]
}

/// The eight big-endian bytes of a 64-bit value.
pub open spec fn be8(n: u64) -> Seq<u8> {
    seq![
        ((n >> 56) & 0xff) as u8,
        ((n >> 48) & 0xff) as u8,
        ((n >> 40) & 0xff) as u8,
        ((n >> 32) & 0xff) as u8,
        ((n >> 24) & 0xff) as u8,
        ((n >> 16) & 0xff) as u8,
        ((n >> 8) & 0xff) as u8,
        (n & 0xff) as u8,
    ]
}

pub fn push_be2(out: &mut Vec<u8>, n: u16)
    ensures
        final(out)@ == old(out)@ + be2(n),
{
    out.push(((n >> 8) & 0xff) as u8);
    out.push((n & 0xff) as u8);
    assert(out@ =~= old(out)@ + be2(n));
}

pub fn push_be4(out: &mut Vec<u8>, n: u32)
    ensures
        final(out)@ == old(out)@ + be4(n),
{
    out.push(((n >> 24) & 0xff) as u8);
    out.push(((n >> 16) & 0xff) as u8);
    out.push(((n >> 8) & 0xff) as u8);
    out.push((n & 0xff) as u8);
    assert(out@ =~= old(out)@ + be4(n));
}

pub fn push_be8(out: &mut Vec<u8>, n: u64)
    ensures
        final(out)@ == old(out)@ + be8(n),
{
    out.push(((n >> 56) & 0xff) as u8);
    out.push(((n >> 48) & 0xff) as u8);
    out.push(((n >> 40) & 0xff) as u8);
    out.push(((n >> 32) & 0xff) as u8);
    out.push(((n >> 24) & 0xff) as u8);
    out.push(((n >> 16) & 0xff) as u8);
    out.push(((n >> 8) & 0xff) as u8);
    out.push((n & 0xff) as u8);
    assert(out@ =~= old(out)@ + be8(n));
}

// ===== ASCII and hex characters, on bytes =====

/// ASCII whitespace, as stripped from the ends of an address string.
pub open spec fn is_ws(b: u8) -> bool {
    b == 32 || b == 9 || b == 10 || b == 13 || b == 12
}

/// An ASCII hex digit.
pub open spec fn is_hex(b: u8) -> bool {
    (48 <= b && b <= 57) || (97 <= b && b <= 102) || (65 <= b && b <= 70)
}

/// The numeric value of an ASCII hex digit.
pub open spec fn hex_val(b: u8) -> u8 {
    if 48 <= b && b <= 57 {
        (b - 48) as u8
    } else if 97 <= b && b <= 102 {
        (b - 87) as u8
    } else if 65 <= b && b <= 70 {
        (b - 55) as u8
    } else {
        0
    }
}

/// The lowercase hex digit (as an ASCII byte) of a nibble value.
pub open spec fn nibble_lower(n: u8) -> u8
    recommends
        n < 16,
{
    if n < 10 {
        (48 + n) as u8
    } else {
        (87 + n) as u8
    }
}

/// ASCII lowercasing of one byte.
pub open spec fn lower_byte(b: u8) -> u8 {
    if 65 <= b && b <= 90 {
        (b + 32) as u8
    } else {
        b
    }
}

/// ASCII lowercasing of a byte sequence.
pub open spec fn lower_bytes(s: Seq<u8>) -> Seq<u8> {
    s.map_values(|b: u8| lower_byte(b))
}

/// Every byte of the sequence is an ASCII hex digit.
pub open spec fn all_hex(s: Seq<u8>) -> bool {
    forall|i: int| 0 <= i < s.len() ==> is_hex(#[trigger] s[i])
}

/// Lowercase hex rendering of a byte sequence, two digits per byte.
pub open spec fn hex_lower(s: Seq<u8>) -> Seq<u8> {
    Seq::new(
        2 * s.len(),
        |i: int|
            if i % 2 == 0 {
                nibble_lower((s[i / 2] >> 4) as u8)
            } else {
                nibble_lower((s[i / 2] & 0xf) as u8)
            },
    )
}

/// The bytes denoted by an even-length sequence of hex digits.
pub open spec fn hex_decoded(s: Seq<u8>) -> Seq<u8> {
    Seq::new(s.len() / 2, |i: int| (16 * hex_val(s[2 * i]) + hex_val(s[2 * i + 1])) as u8)
}

/// Bytes reinterpreted as characters; meaningful for ASCII bytes.
pub open spec fn ascii_chars(s: Seq<u8>) -> Seq<char> {
    s.map_values(|b: u8| b as char)
}

/// Appends the lowercase hex rendering of `bytes` to `out`.
pub fn push_hex_lower(out: &mut Vec<u8>, bytes: &Vec<u8>)
    ensures
        final(out)@ == old(out)@ + hex_lower(bytes@),
{
    let mut i: usize = 0;
    while i < bytes.len()
        invariant
            i <= bytes@.len(),
            out@.len() == old(out)@.len() + 2 * i,
            out@.subrange(0, old(out)@.len() as int) == old(out)@,
            forall|j: int|
                0 <= j < 2 * i ==> out@[old(out)@.len() + j] == #[trigger] hex_lower(bytes@)[j],
        decreases bytes@.len() - i,
    {
        let b = bytes[i];
        proof {
            assert(b >> 4 < 16 && b & 0xf < 16) by (bit_vector);
        }
        let hi = b >> 4;
        let lo = b & 0xf;
        out.push(if hi < 10 { (48 + hi) as u8 } else { (87 + hi) as u8 });
        out.push(if lo < 10 { (48 + lo) as u8 } else { (87 + lo) as u8 });
        i += 1;
    }
    assert(out@ =~= old(out)@ + hex_lower(bytes@));
}

/// Decodes an even-length hex string into bytes; `None` when a byte is not a
/// hex digit or the length is odd.
pub fn try_hex_decode(s: &Vec<u8>) -> (r: Option<Vec<u8>>)
    ensures
        (all_hex(s@) && s@.len() % 2 == 0) <==> r is Some,
        r matches Some(b) ==> b@ == hex_decoded(s@),
{
    if s.len() % 2 != 0 {
        assert(s@.len() % 2 != 0);
        return None;
    }
    let mut out: Vec<u8> = Vec::new();
    let mut i: usize = 0;
    while i < s.len()
        invariant
            i <= s@.len(),
            i % 2 == 0,
            s@.len() % 2 == 0,
            out@.len() == i / 2,
            forall|j: int| 0 <= j < i ==> is_hex(#[trigger] s@[j]),
            forall|j: int| 0 <= j < i / 2 ==> out@[j] == #[trigger] hex_decoded(s@)[j],
        decreases s@.len() - i,
    {
        let c1 = s[i];
        let c2 = s[i + 1];
        let v1 = if 48 <= c1 && c1 <= 57 {
            (c1 - 48) as u8
        } else if 97 <= c1 && c1 <= 102 {
            (c1 - 87) as u8
        } else if 65 <= c1 && c1 <= 70 {
            (c1 - 55) as u8
        } else {
            return None;
        };
        let v2 = if 48 <= c2 && c2 <= 57 {
            (c2 - 48) as u8
        } else if 97 <= c2 && c2 <= 102 {
            (c2 - 87) as u8
        } else if 65 <= c2 && c2 <= 70 {
            (c2 - 55) as u8
        } else {
            return None;
        };
        out.push(16 * v1 + v2);
        i += 2;
    }
    assert(out@ =~= hex_decoded(s@));
    Some(out)
}

/// A fresh copy of `src[from..to]`.
pub fn dup_range(src: &Vec<u8>, from: usize, to: usize) -> (r: Vec<u8>)
    requires
        from <= to <= src@.len(),
    ensures
        r@ == src@.subrange(from as int, to as int),
{
    let mut out: Vec<u8> = Vec::new();
    let mut i: usize = from;
    while i < to
        invariant
            from <= i <= to <= src@.len(),
            out@ =~= src@.subrange(from as int, i as int),
        decreases to - i,
    {
        out.push(src[i]);
        assert(out@ =~= src@.subrange(from as int, i + 1 as int));
        i += 1;
    }
    out
}

/// A fresh copy of the whole of `src`.
pub fn dup_bytes(src: &Vec<u8>) -> (r: Vec<u8>)
    ensures
        r@ == src@,
{
    let r = dup_range(src, 0, src.len());
    assert(r@ =~= src@);
    r
}

/// Appends a copy of the whole of `src` to `out`.
pub fn push_bytes(out: &mut Vec<u8>, src: &Vec<u8>)
    ensures
        final(out)@ == old(out)@ + src@,
{
    let mut i: usize = 0;
    while i < src.len()
        invariant
            i <= src@.len(),
            out@ =~= old(out)@ + src@.subrange(0, i as int),
        decreases src@.len() - i,
    {
        out.push(src[i]);
        assert(out@ =~= old(out)@ + src@.subrange(0, i + 1 as int));
        i += 1;
    }
    assert(out@ =~= old(out)@ + src@);
}

/// Relies on std's String::from_utf8: ASCII bytes are valid UTF-8 and decode
/// to exactly the characters with the same code points.
#[verifier::external_body]
pub fn ascii_string(bytes: &Vec<u8>) -> (r: String)
    requires
        forall|i: int| 0 <= i < bytes@.len() ==> bytes@[i] < 128,
    ensures
        r@ == ascii_chars(bytes@),
{
    match String::from_utf8(bytes.clone()) {
        Ok(s) => s,
        Err(_) => String::new(),
    }
}

} // verus!
