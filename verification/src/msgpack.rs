use vstd::prelude::*;
use vstd::utf8::encode_utf8;
use crate::bytesfmt::{be2, be4, be8, push_be2, push_be4, push_be8, push_bytes};
use crate::error::Error;
use vstd::string::StrSliceExecFns;

verus! {

/// A JSON-like value tree, the input of the canonical encoder. Field order in
/// an object is significant: it is preserved exactly in the encoding. A
/// floating-point number is carried as its raw IEEE-754 bits.
pub enum Value {
    Null,
    Bool(bool),
    UInt(u64),
    Int(i64),
    Float(u64),
    Str(String),
    Bin(Vec<u8>),
    Arr(Vec<Value>),
    Obj(Vec<(String, Value)>),
}

// ===== The canonical encoding, byte by byte =====

/// Minimal MessagePack encoding of an unsigned integer.
pub open spec fn uint_bytes(n: u64) -> Seq<u8> {
    if n < 128 {
        seq![n as u8]
    } else if n < 256 {
        seq![0xccu8, n as u8]
    } else if n < 65536 {
        seq![0xcdu8] + be2(n as u16)
    } else if n < 4294967296 {
        seq![0xceu8] + be4(n as u32)
    } else {
        seq![0xcfu8] + be8(n)
    }
}

/// Minimal MessagePack encoding of a signed integer; non-negative values use
/// the unsigned forms.
pub open spec fn sint_bytes(n: i64) -> Seq<u8> {
    if n >= 0 {
        uint_bytes(n as u64)
    } else if n >= -32 {
        seq![n as u8]
    } else if n >= -128 {
        seq![0xd0u8, n as u8]
    } else if n >= -32768 {
        seq![0xd1u8] + be2(n as u16)
    } else if n >= -2147483648 {
        seq![0xd2u8] + be4(n as u32)
    } else {
        seq![0xd3u8] + be8(n as u64)
    }
}

/// MessagePack string header for a byte length.
pub open spec fn str_hdr(len: nat) -> Seq<u8> {
    if len < 32 {
        seq![(0xa0 + len) as u8]
    } else if len < 256 {
        seq![0xd9u8, len as u8]
    } else if len < 65536 {
        seq![0xdau8] + be2(len as u16)
    } else {
        seq![0xdbu8] + be4(len as u32)
    }
}

/// MessagePack binary header for a byte length.
pub open spec fn bin_hdr(len: nat) -> Seq<u8> {
    if len < 256 {
        seq![0xc4u8, len as u8]
    } else if len < 65536 {
        seq![0xc5u8] + be2(len as u16)
    } else {
        seq![0xc6u8] + be4(len as u32)
    }
}

/// MessagePack array header for an element count.
pub open spec fn arr_hdr(len: nat) -> Seq<u8> {
    if len < 16 {
        seq![(0x90 + len) as u8]
    } else if len < 65536 {
        seq![0xdcu8] + be2(len as u16)
    } else {
        seq![0xddu8] + be4(len as u32)
    }
}

/// MessagePack map header for an entry count.
pub open spec fn map_hdr(len: nat) -> Seq<u8> {
    if len < 16 {
        seq![(0x80 + len) as u8]
    } else if len < 65536 {
        seq![0xdeu8] + be2(len as u16)
    } else {
        seq![0xdfu8] + be4(len as u32)
    }
}

/// MessagePack encoding of a boolean.
pub open spec fn mp_bool(b: bool) -> Seq<u8> {
    if b {
        seq![0xc3u8]
    } else {
        seq![0xc2u8]
    }
}

/// MessagePack encoding of a string: header over the UTF-8 byte length, then
/// the UTF-8 bytes.
pub open spec fn mp_str(s: Seq<char>) -> Seq<u8> {
    str_hdr(encode_utf8(s).len()) + encode_utf8(s)
}

/// The canonical MessagePack encoding of a value.
pub open spec fn mp(v: Value) -> Seq<u8>
    decreases v,
{
    match v {
        Value::Null => seq![0xc0u8],
        Value::Bool(b) => mp_bool(b),
        Value::UInt(n) => uint_bytes(n),
        Value::Int(n) => sint_bytes(n),
        Value::Float(bits) => seq![0xcbu8] + be8(bits),
        Value::Str(s) => mp_str(s@),
        Value::Bin(b) => bin_hdr(b@.len()) + b@,
        Value::Arr(xs) => arr_hdr(xs@.len()) + mp_seq(xs@),
        Value::Obj(ps) => map_hdr(ps@.len()) + mp_pairs(ps@),
    }
}

/// Concatenated encodings of a sequence of values.
pub open spec fn mp_seq(s: Seq<Value>) -> Seq<u8>
    decreases s,
{
    if s.len() == 0 {
        Seq::empty()
    } else {
        mp(s[0]) + mp_seq(s.drop_first())
    }
}

/// Concatenated encodings of a sequence of key/value pairs.
pub open spec fn mp_pairs(s: Seq<(String, Value)>) -> Seq<u8>
    decreases s,
{
    if s.len() == 0 {
        Seq::empty()
    } else {
        mp_str(s[0].0@) + mp(s[0].1) + mp_pairs(s.drop_first())
    }
}

// ===== Encodability: every length fits its widest header =====

/// A string is encodable when its UTF-8 byte length fits a 32-bit header.
pub open spec fn str_ok(s: Seq<char>) -> bool {
    encode_utf8(s).len() <= 0xffffffff
}

/// A value is encodable when every string, binary, array and object it holds
/// fits its widest MessagePack header.
pub open spec fn enc_ok(v: Value) -> bool
    decreases v,
{
    match v {
        Value::Null => true,
        Value::Bool(_) => true,
        Value::UInt(_) => true,
        Value::Int(_) => true,
        Value::Float(_) => true,
        Value::Str(s) => str_ok(s@),
        Value::Bin(b) => b@.len() <= 0xffffffff,
        Value::Arr(xs) => xs@.len() <= 0xffffffff && enc_ok_seq(xs@),
        Value::Obj(ps) => ps@.len() <= 0xffffffff && enc_ok_pairs(ps@),
    }
}

pub open spec fn enc_ok_seq(s: Seq<Value>) -> bool
    decreases s,
{
    if s.len() == 0 {
        true
    } else {
        enc_ok(s[0]) && enc_ok_seq(s.drop_first())
    }
}

pub open spec fn enc_ok_pairs(s: Seq<(String, Value)>) -> bool
    decreases s,
{
    if s.len() == 0 {
        true
    } else {
        str_ok(s[0].0@) && enc_ok(s[0].1) && enc_ok_pairs(s.drop_first())
    }
}

// ===== Nesting depth, the termination measure of the encoder =====

pub open spec fn vdepth(v: Value) -> nat
    decreases v,
{
    match v {
        Value::Arr(xs) => 1 + vdepth_seq(xs@),
        Value::Obj(ps) => 1 + vdepth_pairs(ps@),
        _ => 0,
    }
}

pub open spec fn vdepth_seq(s: Seq<Value>) -> nat
    decreases s,
{
    if s.len() == 0 {
        0
    } else if vdepth(s[0]) >= vdepth_seq(s.drop_first()) {
        vdepth(s[0])
    } else {
        vdepth_seq(s.drop_first())
    }
}

pub open spec fn vdepth_pairs(s: Seq<(String, Value)>) -> nat
    decreases s,
{
    if s.len() == 0 {
        0
    } else if vdepth(s[0].1) >= vdepth_pairs(s.drop_first()) {
        vdepth(s[0].1)
    } else {
        vdepth_pairs(s.drop_first())
    }
}

pub proof fn lemma_vdepth_seq_elem(s: Seq<Value>, i: int)
    requires
        0 <= i < s.len(),
    ensures
        vdepth(s[i]) <= vdepth_seq(s),
    decreases s.len(),
{
    if i > 0 {
        lemma_vdepth_seq_elem(s.drop_first(), i - 1);
        assert(s.drop_first()[i - 1] == s[i]);
    }
}

proof fn lemma_vdepth_pairs_elem(s: Seq<(String, Value)>, i: int)
    requires
        0 <= i < s.len(),
    ensures
        vdepth(s[i].1) <= vdepth_pairs(s),
    decreases s.len(),
{
    if i > 0 {
        lemma_vdepth_pairs_elem(s.drop_first(), i - 1);
        assert(s.drop_first()[i - 1] == s[i]);
    }
}

proof fn lemma_enc_ok_seq_iff(s: Seq<Value>)
    ensures
        enc_ok_seq(s) <==> (forall|i: int| 0 <= i < s.len() ==> enc_ok(#[trigger] s[i])),
    decreases s.len(),
{
    if s.len() > 0 {
        lemma_enc_ok_seq_iff(s.drop_first());
        assert(forall|i: int|
            1 <= i < s.len() ==> #[trigger] s[i] == s.drop_first()[i - 1]);
    }
}

proof fn lemma_enc_ok_pairs_iff(s: Seq<(String, Value)>)
    ensures
        enc_ok_pairs(s) <==> (forall|i: int|
            0 <= i < s.len() ==> str_ok(#[trigger] s[i].0@) && enc_ok(s[i].1)),
    decreases s.len(),
{
    if s.len() > 0 {
        lemma_enc_ok_pairs_iff(s.drop_first());
        assert(forall|i: int|
            1 <= i < s.len() ==> #[trigger] s[i] == s.drop_first()[i - 1]);
    }
}

proof fn lemma_mp_seq_singleton(x: Value)
    ensures
        mp_seq(seq![x]) == mp(x),
{
    let s = seq![x];
    assert(s.drop_first() =~= Seq::<Value>::empty());
    assert(mp_seq(s.drop_first()) == Seq::<u8>::empty());
    assert(mp_seq(s) =~= mp(x));
}

proof fn lemma_mp_pairs_singleton(x: (String, Value))
    ensures
        mp_pairs(seq![x]) == mp_str(x.0@) + mp(x.1),
{
    let s = seq![x];
    assert(s.drop_first() =~= Seq::<(String, Value)>::empty());
    assert(mp_pairs(s.drop_first()) == Seq::<u8>::empty());
    assert(mp_pairs(s) =~= mp_str(x.0@) + mp(x.1));
}

proof fn lemma_mp_seq_concat(a: Seq<Value>, b: Seq<Value>)
    ensures
        mp_seq(a + b) == mp_seq(a) + mp_seq(b),
    decreases a.len(),
{
    if a.len() == 0 {
        assert(a + b =~= b);
        assert(mp_seq(a) + mp_seq(b) =~= mp_seq(b));
    } else {
        assert((a + b).drop_first() =~= a.drop_first() + b);
        assert((a + b)[0] == a[0]);
        assert((a + b).len() > 0);
        lemma_mp_seq_concat(a.drop_first(), b);
        assert(mp_seq(a + b) =~= mp_seq(a) + mp_seq(b));
    }
}

proof fn lemma_mp_pairs_concat(a: Seq<(String, Value)>, b: Seq<(String, Value)>)
    ensures
        mp_pairs(a + b) == mp_pairs(a) + mp_pairs(b),
    decreases a.len(),
{
    if a.len() == 0 {
        assert(a + b =~= b);
        assert(mp_pairs(a) + mp_pairs(b) =~= mp_pairs(b));
    } else {
        assert((a + b).drop_first() =~= a.drop_first() + b);
        assert((a + b)[0] == a[0]);
        lemma_mp_pairs_concat(a.drop_first(), b);
        assert(mp_pairs(a + b) =~= mp_pairs(a) + mp_pairs(b));
    }
}

// ===== Executable encoder =====

/// Appends the minimal unsigned-integer encoding of `n`.
pub fn push_uint(out: &mut Vec<u8>, n: u64)
    ensures
        final(out)@ == old(out)@ + uint_bytes(n),
{
    if n < 128 {
        out.push(n as u8);
    } else if n < 256 {
        out.push(0xcc);
        out.push(n as u8);
    } else if n < 65536 {
        out.push(0xcd);
        push_be2(out, n as u16);
    } else if n < 4294967296 {
        out.push(0xce);
        push_be4(out, n as u32);
    } else {
        out.push(0xcf);
        push_be8(out, n);
    }
    assert(out@ =~= old(out)@ + uint_bytes(n));
}

/// Appends the minimal signed-integer encoding of `n`.
pub fn push_sint(out: &mut Vec<u8>, n: i64)
    ensures
        final(out)@ == old(out)@ + sint_bytes(n),
{
    if n >= 0 {
        push_uint(out, n as u64);
    } else if n >= -32 {
        out.push(n as u8);
    } else if n >= -128 {
        out.push(0xd0);
        out.push(n as u8);
    } else if n >= -32768 {
        out.push(0xd1);
        push_be2(out, n as u16);
    } else if n >= -2147483648 {
        out.push(0xd2);
        push_be4(out, n as u32);
    } else {
        out.push(0xd3);
        push_be8(out, n as u64);
    }
    assert(out@ =~= old(out)@ + sint_bytes(n));
}

/// Appends the encoding of a string when its byte length fits a header.
pub fn push_mp_str(out: &mut Vec<u8>, s: &str) -> (ok: bool)
    ensures
        ok == str_ok(s@),
        ok ==> final(out)@ == old(out)@ + mp_str(s@),
{
    let bytes = s.as_bytes_vec();
    let n = bytes.len();
    if (n as u64) > 0xffffffff {
        return false;
    }
    if n < 32 {
        out.push((0xa0 + n) as u8);
    } else if n < 256 {
        out.push(0xd9);
        out.push(n as u8);
    } else if n < 65536 {
        out.push(0xda);
        push_be2(out, n as u16);
    } else {
        out.push(0xdb);
        push_be4(out, n as u32);
    }
    push_bytes(out, &bytes);
    assert(out@ =~= old(out)@ + mp_str(s@));
    true
}

/// Appends a binary header and the raw bytes when the length fits a header.
pub fn push_mp_bin(out: &mut Vec<u8>, b: &Vec<u8>) -> (ok: bool)
    ensures
        ok == (b@.len() <= 0xffffffff),
        ok ==> final(out)@ == old(out)@ + bin_hdr(b@.len()) + b@,
{
    let n = b.len();
    if (n as u64) > 0xffffffff {
        return false;
    }
    if n < 256 {
        out.push(0xc4);
        out.push(n as u8);
    } else if n < 65536 {
        out.push(0xc5);
        push_be2(out, n as u16);
    } else {
        out.push(0xc6);
        push_be4(out, n as u32);
    }
    push_bytes(out, b);
    assert(out@ =~= old(out)@ + bin_hdr(b@.len()) + b@);
    true
}

/// Appends the canonical encoding of `v`; returns false, leaving `out` in an
/// unspecified state, exactly when some length in `v` exceeds its widest
/// header.
#[verifier::loop_isolation(false)]
#[verifier::rlimit(100)]
pub fn encode_value(v: &Value, out: &mut Vec<u8>) -> (ok: bool)
    ensures
        ok == enc_ok(*v),
        ok ==> final(out)@ == old(out)@ + mp(*v),
    decreases vdepth(*v),
{
    match v {
        Value::Null => {
            out.push(0xc0);
            assert(out@ =~= old(out)@ + mp(*v));
            assert(enc_ok(*v));
            true
        }
        Value::Bool(b) => {
            out.push(if *b { 0xc3 } else { 0xc2 });
            assert(out@ =~= old(out)@ + mp(*v));
            assert(enc_ok(*v));
            true
        }
        Value::UInt(n) => {
            push_uint(out, *n);
            assert(enc_ok(*v));
            true
        }
        Value::Int(n) => {
            push_sint(out, *n);
            assert(enc_ok(*v));
            true
        }
        Value::Float(bits) => {
            out.push(0xcb);
            push_be8(out, *bits);
            assert(out@ =~= old(out)@ + mp(*v));
            assert(enc_ok(*v));
            true
        }
        Value::Str(s) => {
            let ok = push_mp_str(out, s.as_str());
            assert(enc_ok(*v) == str_ok(s@));
            ok
        }
        Value::Bin(b) => {
            let ok = push_mp_bin(out, b);
            assert(enc_ok(*v) == (b@.len() <= 0xffffffff));
            ok
        }
        Value::Arr(xs) => {
            let n = xs.len();
            if (n as u64) > 0xffffffff {
                proof {
                    assert(!enc_ok(*v));
                }
                return false;
            }
            if n < 16 {
                out.push((0x90 + n) as u8);
            } else if n < 65536 {
                out.push(0xdc);
                push_be2(out, n as u16);
            } else {
                out.push(0xdd);
                push_be4(out, n as u32);
            }
            let ghost base: Seq<u8> = old(out)@ + arr_hdr(xs@.len());
            assert(out@ =~= base);
            let mut i: usize = 0;
            while i < xs.len()
                invariant
                    i <= xs@.len(),
                    xs@.len() <= 0xffffffff,
                    out@ == base + mp_seq(xs@.take(i as int)),
                    base == old(out)@ + arr_hdr(xs@.len()),
                    forall|j: int| 0 <= j < i ==> enc_ok(#[trigger] xs@[j]),
                decreases xs@.len() - i,
            {
                proof {
                    lemma_vdepth_seq_elem(xs@, i as int);
                    assert(vdepth(*v) == 1 + vdepth_seq(xs@));
                }
                let child_ok = encode_value(&xs[i], out);
                if !child_ok {
                    proof {
                        lemma_enc_ok_seq_iff(xs@);
                        assert(!enc_ok_seq(xs@));
                        assert(enc_ok(*v) == (xs@.len() <= 0xffffffff && enc_ok_seq(xs@)));
                    }
                    return false;
                }
                proof {
                    assert(xs@.take(i + 1) =~= xs@.take(i as int) + seq![xs@[i as int]]);
                    lemma_mp_seq_concat(xs@.take(i as int), seq![xs@[i as int]]);
                    lemma_mp_seq_singleton(xs@[i as int]);
                }
                i += 1;
            }
            proof {
                assert(xs@.take(xs@.len() as int) =~= xs@);
                lemma_enc_ok_seq_iff(xs@);
            }
            assert(out@ =~= old(out)@ + mp(*v));
            true
        }
        Value::Obj(ps) => {
            let n = ps.len();
            if (n as u64) > 0xffffffff {
                proof {
                    assert(!enc_ok(*v));
                }
                return false;
            }
            if n < 16 {
                out.push((0x80 + n) as u8);
            } else if n < 65536 {
                out.push(0xde);
                push_be2(out, n as u16);
            } else {
                out.push(0xdf);
                push_be4(out, n as u32);
            }
            let ghost base: Seq<u8> = old(out)@ + map_hdr(ps@.len());
            assert(out@ =~= base);
            let mut i: usize = 0;
            while i < ps.len()
                invariant
                    i <= ps@.len(),
                    ps@.len() <= 0xffffffff,
                    out@ == base + mp_pairs(ps@.take(i as int)),
                    base == old(out)@ + map_hdr(ps@.len()),
                    forall|j: int|
                        0 <= j < i ==> str_ok(#[trigger] ps@[j].0@) && enc_ok(ps@[j].1),
                decreases ps@.len() - i,
            {
                let pair = &ps[i];
                let key_ok = push_mp_str(out, pair.0.as_str());
                if !key_ok {
                    proof {
                        lemma_enc_ok_pairs_iff(ps@);
                        assert(!enc_ok_pairs(ps@));
                        assert(enc_ok(*v) == (ps@.len() <= 0xffffffff && enc_ok_pairs(ps@)));
                    }
                    return false;
                }
                proof {
                    lemma_vdepth_pairs_elem(ps@, i as int);
                    assert(vdepth(*v) == 1 + vdepth_pairs(ps@));
                }
                let child_ok = encode_value(&pair.1, out);
                if !child_ok {
                    proof {
                        lemma_enc_ok_pairs_iff(ps@);
                        assert(!enc_ok_pairs(ps@));
                        assert(enc_ok(*v) == (ps@.len() <= 0xffffffff && enc_ok_pairs(ps@)));
                    }
                    return false;
                }
                proof {
                    assert(ps@.take(i + 1) =~= ps@.take(i as int) + seq![ps@[i as int]]);
                    lemma_mp_pairs_concat(ps@.take(i as int), seq![ps@[i as int]]);
                    lemma_mp_pairs_singleton(ps@[i as int]);
                    assert(str_ok(ps@[i as int].0@) && enc_ok(ps@[i as int].1));
                }
                i += 1;
            }
            proof {
                assert(ps@.take(ps@.len() as int) =~= ps@);
                lemma_enc_ok_pairs_iff(ps@);
            }
            assert(out@ =~= old(out)@ + mp(*v));
            true
        }
    }
}

/// The UTF-8 encoding of an ASCII string has its length, byte for byte.
pub proof fn lemma_ascii_str_ok(s: Seq<char>)
    requires
        vstd::utf8::is_ascii_chars(s),
        s.len() <= 0xffffffff,
    ensures
        str_ok(s),
        encode_utf8(s).len() == s.len(),
{
    vstd::utf8::is_ascii_chars_encode_utf8(s);
}

/// Appends the encoding of an ASCII key, which always fits its header.
pub fn push_key(out: &mut Vec<u8>, k: &str)
    requires
        vstd::utf8::is_ascii_chars(k@),
        k@.len() <= 0xffffffff,
    ensures
        final(out)@ == old(out)@ + mp_str(k@),
{
    proof {
        lemma_ascii_str_ok(k@);
    }
    let ok = push_mp_str(out, k);
    proof {
        assert(ok);
    }
}

/// Appends a boolean encoding.
pub fn push_mp_bool(out: &mut Vec<u8>, b: bool)
    ensures
        final(out)@ == old(out)@ + mp_bool(b),
{
    out.push(if b { 0xc3 } else { 0xc2 });
    assert(out@ =~= old(out)@ + mp_bool(b));
}

/// Appends a map header for fewer than 16 entries.
pub fn push_map_hdr_small(out: &mut Vec<u8>, n: u8)
    requires
        n < 16,
    ensures
        final(out)@ == old(out)@ + map_hdr(n as nat),
{
    out.push(0x80 + n);
    assert(out@ =~= old(out)@ + map_hdr(n as nat));
}

/// Appends an array header; false when the length exceeds the widest header.
pub fn push_arr_hdr(out: &mut Vec<u8>, n: usize) -> (ok: bool)
    ensures
        ok == (n <= 0xffffffff),
        ok ==> final(out)@ == old(out)@ + arr_hdr(n as nat),
{
    if (n as u64) > 0xffffffff {
        return false;
    }
    if n < 16 {
        out.push((0x90 + n) as u8);
    } else if n < 65536 {
        out.push(0xdc);
        push_be2(out, n as u16);
    } else {
        out.push(0xdd);
        push_be4(out, n as u32);
    }
    assert(out@ =~= old(out)@ + arr_hdr(n as nat));
    true
}

// ===== Canonically encodable records, shared by the array-valued fields =====

/// A record with a canonical MessagePack map encoding.
pub trait Canon {
    /// The record's canonical bytes.
    spec fn canon_bytes(&self) -> Seq<u8>;

    /// Every length in the record fits its header.
    spec fn canon_ok(&self) -> bool;

    /// Appends the canonical bytes; false exactly when a length does not fit.
    fn push_canon(&self, out: &mut Vec<u8>) -> (ok: bool)
        ensures
            ok == self.canon_ok(),
            ok ==> final(out)@ == old(out)@ + self.canon_bytes(),
    ;
}

/// Concatenated canonical encodings of a sequence of records.
pub open spec fn seq_bytes<T: Canon>(s: Seq<T>) -> Seq<u8>
    decreases s,
{
    if s.len() == 0 {
        Seq::empty()
    } else {
        s[0].canon_bytes() + seq_bytes(s.drop_first())
    }
}

pub open spec fn seq_ok<T: Canon>(s: Seq<T>) -> bool
    decreases s,
{
    if s.len() == 0 {
        true
    } else {
        s[0].canon_ok() && seq_ok(s.drop_first())
    }
}

/// The array encoding of a sequence of records.
pub open spec fn vec_bytes<T: Canon>(s: Seq<T>) -> Seq<u8> {
    arr_hdr(s.len()) + seq_bytes(s)
}

pub open spec fn vec_ok<T: Canon>(s: Seq<T>) -> bool {
    s.len() <= 0xffffffff && seq_ok(s)
}

proof fn lemma_seq_bytes_concat<T: Canon>(a: Seq<T>, b: Seq<T>)
    ensures
        seq_bytes(a + b) == seq_bytes(a) + seq_bytes(b),
    decreases a.len(),
{
    if a.len() == 0 {
        assert(a + b =~= b);
        assert(seq_bytes(a) + seq_bytes(b) =~= seq_bytes(b));
    } else {
        assert((a + b).drop_first() =~= a.drop_first() + b);
        assert((a + b)[0] == a[0]);
        lemma_seq_bytes_concat(a.drop_first(), b);
        assert(seq_bytes(a + b) =~= seq_bytes(a) + seq_bytes(b));
    }
}

proof fn lemma_seq_bytes_singleton<T: Canon>(x: T)
    ensures
        seq_bytes(seq![x]) == x.canon_bytes(),
{
    let s = seq![x];
    assert(s.drop_first() =~= Seq::<T>::empty());
    assert(seq_bytes(s.drop_first()) == Seq::<u8>::empty());
    assert(seq_bytes(s) =~= x.canon_bytes());
}

proof fn lemma_seq_ok_iff<T: Canon>(s: Seq<T>)
    ensures
        seq_ok(s) <==> (forall|i: int| 0 <= i < s.len() ==> (#[trigger] s[i]).canon_ok()),
    decreases s.len(),
{
    if s.len() > 0 {
        lemma_seq_ok_iff(s.drop_first());
        assert(forall|i: int| 1 <= i < s.len() ==> #[trigger] s[i] == s.drop_first()[i - 1]);
    }
}

/// Appends the array encoding of a vector of records.
#[verifier::loop_isolation(false)]
pub fn push_vec<T: Canon>(v: &Vec<T>, out: &mut Vec<u8>) -> (ok: bool)
    ensures
        ok == vec_ok(v@),
        ok ==> final(out)@ == old(out)@ + vec_bytes(v@),
{
    let hdr_ok = push_arr_hdr(out, v.len());
    if !hdr_ok {
        return false;
    }
    let ghost base: Seq<u8> = old(out)@ + arr_hdr(v@.len());
    let mut i: usize = 0;
    while i < v.len()
        invariant
            i <= v@.len(),
            out@ == base + seq_bytes(v@.take(i as int)),
            forall|j: int| 0 <= j < i ==> (#[trigger] v@[j]).canon_ok(),
        decreases v@.len() - i,
    {
        let child_ok = v[i].push_canon(out);
        if !child_ok {
            proof {
                lemma_seq_ok_iff(v@);
            }
            return false;
        }
        proof {
            assert(v@.take(i + 1) =~= v@.take(i as int) + seq![v@[i as int]]);
            lemma_seq_bytes_concat(v@.take(i as int), seq![v@[i as int]]);
            lemma_seq_bytes_singleton(v@[i as int]);
        }
        i += 1;
    }
    proof {
        assert(v@.take(v@.len() as int) =~= v@);
        lemma_seq_ok_iff(v@);
    }
    assert(out@ =~= old(out)@ + vec_bytes(v@));
    true
}

/// Canonical MessagePack encoding of a value tree, as used for hashing.
/// Returns the exact byte sequence `mp(v)`; fails with `RmpParse` exactly
/// when some length in `v` exceeds its widest MessagePack header.
pub fn encode(v: &Value) -> (r: Result<Vec<u8>, Error>)
    ensures
        r is Ok <==> enc_ok(*v),
        r matches Ok(b) ==> b@ == mp(*v),
        r matches Err(e) ==> e is RmpParse,
{
    let mut out: Vec<u8> = Vec::new();
    let ok = encode_value(v, &mut out);
    if ok {
        Ok(out)
    } else {
        Err(Error::RmpParse("value cannot be canonically serialized".to_owned()))
    }
}

} // verus!
