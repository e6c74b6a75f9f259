//! Codec layer: bidirectional, lossless conversions between the four wide
//! domain types (20-byte address, signed 256-bit, unsigned 256-bit, unsigned
//! 128-bit) and fixed-width big-endian byte buffers, as stored in the
//! relational schema's byte columns.
//!
//! Every decoder demands exactly the width its type requires and reports an
//! explicit length error otherwise; it never truncates and never reads out of
//! bounds.

use vstd::prelude::*;

verus! {

/// Error reported by a decoder when the input buffer does not hold exactly
/// the number of bytes the codec requires.
#[derive(Clone, Copy, Debug, PartialEq, Eq, Structural)]
pub enum CodecError {
    InvalidLength { expected: usize, got: usize },
}

/// Unsigned 128-bit value, persisted as a 16-byte big-endian buffer.
#[derive(Clone, Copy, Debug, PartialEq, Eq, Structural)]
pub struct Wu128(pub u128);

/// Unsigned 256-bit value held as four 64-bit limbs, least significant
/// first; persisted as a 32-byte big-endian buffer.
#[derive(Clone, Copy, Debug, PartialEq, Eq, Structural)]
pub struct WU256 {
    pub l0: u64,
    pub l1: u64,
    pub l2: u64,
    pub l3: u64,
}

/// Signed 256-bit value in two's complement, held as four 64-bit limbs of
/// its raw bit pattern, least significant first; persisted as a 32-byte
/// big-endian buffer.
#[derive(Clone, Copy, Debug, PartialEq, Eq, Structural)]
pub struct WI256 {
    pub l0: u64,
    pub l1: u64,
    pub l2: u64,
    pub l3: u64,
}

/// 20-byte contract or account address, persisted as it stands.
#[derive(Clone, Debug)]
pub struct Address {
    pub bytes: Vec<u8>,
}

impl View for Address {
    type V = Seq<u8>;

    open spec fn view(&self) -> Seq<u8> {
        self.bytes@
    }
}

impl Address {
    /// An address is exactly 20 bytes wide.
    pub open spec fn wf(&self) -> bool {
        self.bytes@.len() == 20
    }
}

/// The unsigned numeric value of a 256-bit limb vector.
pub open spec fn wu256_value(v: WU256) -> nat {
    (v.l0 as nat) + (v.l1 as nat) * 0x1_0000_0000_0000_0000
        + (v.l2 as nat) * 0x1_0000_0000_0000_0000_0000_0000_0000_0000
        + (v.l3 as nat) * 0x1_0000_0000_0000_0000_0000_0000_0000_0000_0000_0000_0000_0000
}

/// The signed numeric value of a 256-bit two's-complement limb vector.
pub open spec fn wi256_value(v: WI256) -> int {
    let raw = (v.l0 as int) + (v.l1 as int) * 0x1_0000_0000_0000_0000
        + (v.l2 as int) * 0x1_0000_0000_0000_0000_0000_0000_0000_0000
        + (v.l3 as int) * 0x1_0000_0000_0000_0000_0000_0000_0000_0000_0000_0000_0000_0000;
    if v.l3 >= 0x8000_0000_0000_0000 {
        raw - 0x1_0000_0000_0000_0000_0000_0000_0000_0000_0000_0000_0000_0000_0000_0000_0000_0000
    } else {
        raw
    }
}

/// The 16-byte big-endian form of an unsigned 128-bit value.
pub open spec fn u128_be_bytes(x: u128) -> Seq<u8> {
    seq![
        (x >> 120) as u8,
        (x >> 112) as u8,
        (x >> 104) as u8,
        (x >> 96) as u8,
        (x >> 88) as u8,
        (x >> 80) as u8,
        (x >> 72) as u8,
        (x >> 64) as u8,
        (x >> 56) as u8,
        (x >> 48) as u8,
        (x >> 40) as u8,
        (x >> 32) as u8,
        (x >> 24) as u8,
        (x >> 16) as u8,
        (x >> 8) as u8,
        x as u8,
    ]
}

/// The unsigned 128-bit value read from 16 big-endian bytes.
pub open spec fn u128_of_be_bytes(s: Seq<u8>) -> u128 {
    ((s[0] as u128) << 120) | ((s[1] as u128) << 112) | ((s[2] as u128) << 104)
        | ((s[3] as u128) << 96) | ((s[4] as u128) << 88) | ((s[5] as u128) << 80)
        | ((s[6] as u128) << 72) | ((s[7] as u128) << 64) | ((s[8] as u128) << 56)
        | ((s[9] as u128) << 48) | ((s[10] as u128) << 40) | ((s[11] as u128) << 32)
        | ((s[12] as u128) << 24) | ((s[13] as u128) << 16) | ((s[14] as u128) << 8)
        | (s[15] as u128)
}

/// Reading back the big-endian bytes of a 128-bit value recovers the value:
/// the codec loses nothing, for zero, the maximum, and everything between.
pub proof fn lemma_u128_be_round_trip(x: u128)
    ensures
        u128_of_be_bytes(u128_be_bytes(x)) == x,
{
    assert((((x >> 120) as u8) as u128) << 120 | (((x >> 112) as u8) as u128) << 112
        | (((x >> 104) as u8) as u128) << 104 | (((x >> 96) as u8) as u128) << 96
        | (((x >> 88) as u8) as u128) << 88 | (((x >> 80) as u8) as u128) << 80
        | (((x >> 72) as u8) as u128) << 72 | (((x >> 64) as u8) as u128) << 64
        | (((x >> 56) as u8) as u128) << 56 | (((x >> 48) as u8) as u128) << 48
        | (((x >> 40) as u8) as u128) << 40 | (((x >> 32) as u8) as u128) << 32
        | (((x >> 24) as u8) as u128) << 24 | (((x >> 16) as u8) as u128) << 16
        | (((x >> 8) as u8) as u128) << 8 | ((x as u8) as u128) == x) by (bit_vector);
}

/// Any 16-byte buffer is the big-endian form of the value read from it:
/// decoding then encoding reproduces the buffer byte for byte.
pub proof fn lemma_u128_be_bytes_of(s: Seq<u8>)
    requires
        s.len() == 16,
    ensures
        u128_be_bytes(u128_of_be_bytes(s)) == s,
{
    let b0 = s[0];
    let b1 = s[1];
    let b2 = s[2];
    let b3 = s[3];
    let b4 = s[4];
    let b5 = s[5];
    let b6 = s[6];
    let b7 = s[7];
    let b8 = s[8];
    let b9 = s[9];
    let b10 = s[10];
    let b11 = s[11];
    let b12 = s[12];
    let b13 = s[13];
    let b14 = s[14];
    let b15 = s[15];
    let x = u128_of_be_bytes(s);
    assert(x == (b0 as u128) << 120 | (b1 as u128) << 112 | (b2 as u128) << 104
        | (b3 as u128) << 96 | (b4 as u128) << 88 | (b5 as u128) << 80 | (b6 as u128) << 72
        | (b7 as u128) << 64 | (b8 as u128) << 56 | (b9 as u128) << 48 | (b10 as u128) << 40
        | (b11 as u128) << 32 | (b12 as u128) << 24 | (b13 as u128) << 16 | (b14 as u128) << 8
        | (b15 as u128));
    assert({
        let x = (b0 as u128) << 120 | (b1 as u128) << 112 | (b2 as u128) << 104
            | (b3 as u128) << 96 | (b4 as u128) << 88 | (b5 as u128) << 80 | (b6 as u128) << 72
            | (b7 as u128) << 64 | (b8 as u128) << 56 | (b9 as u128) << 48 | (b10 as u128) << 40
            | (b11 as u128) << 32 | (b12 as u128) << 24 | (b13 as u128) << 16
            | (b14 as u128) << 8 | (b15 as u128);
        (x >> 120) as u8 == b0 && (x >> 112) as u8 == b1 && (x >> 104) as u8 == b2
            && (x >> 96) as u8 == b3 && (x >> 88) as u8 == b4 && (x >> 80) as u8 == b5
            && (x >> 72) as u8 == b6 && (x >> 64) as u8 == b7 && (x >> 56) as u8 == b8
            && (x >> 48) as u8 == b9 && (x >> 40) as u8 == b10 && (x >> 32) as u8 == b11
            && (x >> 24) as u8 == b12 && (x >> 16) as u8 == b13 && (x >> 8) as u8 == b14
            && x as u8 == b15
    }) by (bit_vector);
    assert(u128_be_bytes(x) =~= s);
}

/// Encode an unsigned 128-bit value as its 16-byte big-endian buffer.
pub fn encode_wu128(v: &Wu128) -> (r: Vec<u8>)
    ensures
        r@ == u128_be_bytes(v.0),
        r@.len() == 16,
{
    let x = v.0;
    let mut out: Vec<u8> = Vec::new();
    out.push((x >> 120) as u8);
    out.push((x >> 112) as u8);
    out.push((x >> 104) as u8);
    out.push((x >> 96) as u8);
    out.push((x >> 88) as u8);
    out.push((x >> 80) as u8);
    out.push((x >> 72) as u8);
    out.push((x >> 64) as u8);
    out.push((x >> 56) as u8);
    out.push((x >> 48) as u8);
    out.push((x >> 40) as u8);
    out.push((x >> 32) as u8);
    out.push((x >> 24) as u8);
    out.push((x >> 16) as u8);
    out.push((x >> 8) as u8);
    out.push(x as u8);
    proof {
        assert(out@ =~= u128_be_bytes(x));
    }
    out
}

/// Decode a 16-byte big-endian buffer into an unsigned 128-bit value.
/// A buffer of any other length is rejected with an explicit length error.
pub fn decode_wu128(b: &[u8]) -> (r: Result<Wu128, CodecError>)
    ensures
        r is Ok <==> b@.len() == 16,
        r is Ok ==> r->Ok_0.0 == u128_of_be_bytes(b@) && u128_be_bytes(r->Ok_0.0) == b@,
        r is Err ==> r->Err_0 == (CodecError::InvalidLength { expected: 16, got: b@.len() as usize }),
{
    if b.len() != 16 {
        Err(CodecError::InvalidLength { expected: 16, got: b.len() })
    } else {
        let x: u128 = ((b[0] as u128) << 120) | ((b[1] as u128) << 112) | ((b[2] as u128) << 104)
            | ((b[3] as u128) << 96) | ((b[4] as u128) << 88) | ((b[5] as u128) << 80)
            | ((b[6] as u128) << 72) | ((b[7] as u128) << 64) | ((b[8] as u128) << 56)
            | ((b[9] as u128) << 48) | ((b[10] as u128) << 40) | ((b[11] as u128) << 32)
            | ((b[12] as u128) << 24) | ((b[13] as u128) << 16) | ((b[14] as u128) << 8)
            | (b[15] as u128);
        proof {
            lemma_u128_be_bytes_of(b@);
        }
        Ok(Wu128(x))
    }
}

/// Splitting an integer into a low digit below the base and a high part is
/// unambiguous.
proof fn lemma_digit_split(base: int, x0: int, x1: int, y0: int, y1: int)
    requires
        base > 0,
        0 <= x0 < base,
        0 <= y0 < base,
        x0 + base * x1 == y0 + base * y1,
    ensures
        x0 == y0,
        x1 == y1,
{
    assert(base * x1 == x1 * base) by (nonlinear_arith);
    assert(base * y1 == y1 * base) by (nonlinear_arith);
    let s = x0 + base * x1;
    vstd::arithmetic::div_mod::lemma_fundamental_div_mod_converse(s, base, x1, x0);
    vstd::arithmetic::div_mod::lemma_fundamental_div_mod_converse(s, base, y1, y0);
}

/// Law: no truncation. The numeric value of an unsigned 256-bit quantity
/// determines its limbs, so equal values are stored as equal rows.
pub proof fn lemma_wu256_value_injective(a: WU256, b: WU256)
    requires
        wu256_value(a) == wu256_value(b),
    ensures
        a == b,
{
    let base: int = 0x1_0000_0000_0000_0000;
    let ha = a.l1 + base * (a.l2 + base * (a.l3 as int));
    let hb = b.l1 + base * (b.l2 + base * (b.l3 as int));
    assert(a.l0 + base * ha == b.l0 + base * hb);
    lemma_digit_split(base, a.l0 as int, ha, b.l0 as int, hb);
    lemma_digit_split(base, a.l1 as int, a.l2 + base * (a.l3 as int), b.l1 as int, b.l2 + base * (
    b.l3 as int));
    lemma_digit_split(base, a.l2 as int, a.l3 as int, b.l2 as int, b.l3 as int);
}

/// Law: no sign loss. The signed numeric value of a 256-bit two's-complement
/// quantity determines its limbs, over the whole signed domain.
pub proof fn lemma_wi256_value_injective(a: WI256, b: WI256)
    requires
        wi256_value(a) == wi256_value(b),
    ensures
        a == b,
{
    let base: int = 0x1_0000_0000_0000_0000;
    let sign: u64 = 0x8000_0000_0000_0000;
    let raw_a = a.l0 + a.l1 * base + a.l2 * base * base + a.l3 * base * base * base;
    let raw_b = b.l0 + b.l1 * base + b.l2 * base * base + b.l3 * base * base * base;
    if a.l3 >= sign && b.l3 < sign {
        assert(raw_a >= (sign as int) * base * base * base);
        assert(raw_b <= (base - 1) + (base - 1) * base + (base - 1) * base * base + ((
        sign - 1) as int) * base * base * base);
        assert(false);
    } else if a.l3 < sign && b.l3 >= sign {
        assert(raw_b >= (sign as int) * base * base * base);
        assert(raw_a <= (base - 1) + (base - 1) * base + (base - 1) * base * base + ((
        sign - 1) as int) * base * base * base);
        assert(false);
    } else {
        assert(raw_a == raw_b);
        let ha = a.l1 + base * (a.l2 + base * (a.l3 as int));
        let hb = b.l1 + base * (b.l2 + base * (b.l3 as int));
        assert(a.l0 + base * ha == b.l0 + base * hb);
        lemma_digit_split(base, a.l0 as int, ha, b.l0 as int, hb);
        lemma_digit_split(base, a.l1 as int, a.l2 + base * (a.l3 as int), b.l1 as int, b.l2 + base
            * (b.l3 as int));
        lemma_digit_split(base, a.l2 as int, a.l3 as int, b.l2 as int, b.l3 as int);
    }
}

/// The 8-byte big-endian form of an unsigned 64-bit value.
pub open spec fn u64_be_bytes(x: u64) -> Seq<u8> {
    seq![
        (x >> 56) as u8,
        (x >> 48) as u8,
        (x >> 40) as u8,
        (x >> 32) as u8,
        (x >> 24) as u8,
        (x >> 16) as u8,
        (x >> 8) as u8,
        x as u8,
    ]
}

/// The unsigned 64-bit value read from 8 big-endian bytes.
pub open spec fn u64_of_be_bytes(s: Seq<u8>) -> u64 {
    ((s[0] as u64) << 56) | ((s[1] as u64) << 48) | ((s[2] as u64) << 40) | ((s[3] as u64) << 32)
        | ((s[4] as u64) << 24) | ((s[5] as u64) << 16) | ((s[6] as u64) << 8) | (s[7] as u64)
}

/// Reading back the big-endian bytes of a 64-bit value recovers the value.
pub proof fn lemma_u64_be_round_trip(x: u64)
    ensures
        u64_of_be_bytes(u64_be_bytes(x)) == x,
{
    assert((((x >> 56) as u8) as u64) << 56 | (((x >> 48) as u8) as u64) << 48
        | (((x >> 40) as u8) as u64) << 40 | (((x >> 32) as u8) as u64) << 32
        | (((x >> 24) as u8) as u64) << 24 | (((x >> 16) as u8) as u64) << 16
        | (((x >> 8) as u8) as u64) << 8 | ((x as u8) as u64) == x) by (bit_vector);
}

/// Any 8-byte buffer is the big-endian form of the value read from it.
pub proof fn lemma_u64_be_bytes_of(s: Seq<u8>)
    requires
        s.len() == 8,
    ensures
        u64_be_bytes(u64_of_be_bytes(s)) == s,
{
    let b0 = s[0];
    let b1 = s[1];
    let b2 = s[2];
    let b3 = s[3];
    let b4 = s[4];
    let b5 = s[5];
    let b6 = s[6];
    let b7 = s[7];
    let x = u64_of_be_bytes(s);
    assert(x == (b0 as u64) << 56 | (b1 as u64) << 48 | (b2 as u64) << 40 | (b3 as u64) << 32
        | (b4 as u64) << 24 | (b5 as u64) << 16 | (b6 as u64) << 8 | (b7 as u64));
    assert({
        let x = (b0 as u64) << 56 | (b1 as u64) << 48 | (b2 as u64) << 40 | (b3 as u64) << 32
            | (b4 as u64) << 24 | (b5 as u64) << 16 | (b6 as u64) << 8 | (b7 as u64);
        (x >> 56) as u8 == b0 && (x >> 48) as u8 == b1 && (x >> 40) as u8 == b2
            && (x >> 32) as u8 == b3 && (x >> 24) as u8 == b4 && (x >> 16) as u8 == b5
            && (x >> 8) as u8 == b6 && x as u8 == b7
    }) by (bit_vector);
    assert(u64_be_bytes(x) =~= s);
}

/// Append the 8 big-endian bytes of a 64-bit value to a buffer.
fn push_u64_be(out: &mut Vec<u8>, x: u64)
    ensures
        final(out)@ == old(out)@ + u64_be_bytes(x),
{
    out.push((x >> 56) as u8);
    out.push((x >> 48) as u8);
    out.push((x >> 40) as u8);
    out.push((x >> 32) as u8);
    out.push((x >> 24) as u8);
    out.push((x >> 16) as u8);
    out.push((x >> 8) as u8);
    out.push(x as u8);
    proof {
        assert(out@ =~= old(out)@ + u64_be_bytes(x));
    }
}

/// Read the unsigned 64-bit value stored big-endian at `off`.
fn read_u64_be(b: &[u8], off: usize) -> (r: u64)
    requires
        off + 8 <= b@.len(),
    ensures
        r == u64_of_be_bytes(b@.subrange(off as int, off as int + 8)),
{
    ((b[off] as u64) << 56) | ((b[off + 1] as u64) << 48) | ((b[off + 2] as u64) << 40)
        | ((b[off + 3] as u64) << 32) | ((b[off + 4] as u64) << 24) | ((b[off + 5] as u64) << 16)
        | ((b[off + 6] as u64) << 8) | (b[off + 7] as u64)
}

/// Encode an unsigned 64-bit value (a block number) as its 8-byte
/// big-endian buffer, the form the envelope table stores.
pub fn encode_u64_be(x: u64) -> (r: Vec<u8>)
    ensures
        r@ == u64_be_bytes(x),
        r@.len() == 8,
{
    let mut out: Vec<u8> = Vec::new();
    push_u64_be(&mut out, x);
    proof {
        assert(out@ =~= u64_be_bytes(x));
    }
    out
}

/// The 32-byte big-endian form of an unsigned 256-bit value: most
/// significant limb first.
pub open spec fn wu256_be_bytes(v: WU256) -> Seq<u8> {
    u64_be_bytes(v.l3) + u64_be_bytes(v.l2) + u64_be_bytes(v.l1) + u64_be_bytes(v.l0)
}

/// The unsigned 256-bit value read from 32 big-endian bytes.
pub open spec fn wu256_of_be_bytes(s: Seq<u8>) -> WU256 {
    WU256 {
        l3: u64_of_be_bytes(s.subrange(0, 8)),
        l2: u64_of_be_bytes(s.subrange(8, 16)),
        l1: u64_of_be_bytes(s.subrange(16, 24)),
        l0: u64_of_be_bytes(s.subrange(24, 32)),
    }
}

/// The 32-byte big-endian form of a signed 256-bit value: the raw
/// two's-complement bit pattern, most significant limb first.
pub open spec fn wi256_be_bytes(v: WI256) -> Seq<u8> {
    u64_be_bytes(v.l3) + u64_be_bytes(v.l2) + u64_be_bytes(v.l1) + u64_be_bytes(v.l0)
}

/// The signed 256-bit value read from 32 big-endian bytes.
pub open spec fn wi256_of_be_bytes(s: Seq<u8>) -> WI256 {
    WI256 {
        l3: u64_of_be_bytes(s.subrange(0, 8)),
        l2: u64_of_be_bytes(s.subrange(8, 16)),
        l1: u64_of_be_bytes(s.subrange(16, 24)),
        l0: u64_of_be_bytes(s.subrange(24, 32)),
    }
}

/// The four 8-byte chunks of a 32-byte limb encoding are the limbs' own
/// encodings.
proof fn lemma_limb_chunks(h3: Seq<u8>, h2: Seq<u8>, h1: Seq<u8>, h0: Seq<u8>)
    requires
        h3.len() == 8,
        h2.len() == 8,
        h1.len() == 8,
        h0.len() == 8,
    ensures
        (h3 + h2 + h1 + h0).subrange(0, 8) == h3,
        (h3 + h2 + h1 + h0).subrange(8, 16) == h2,
        (h3 + h2 + h1 + h0).subrange(16, 24) == h1,
        (h3 + h2 + h1 + h0).subrange(24, 32) == h0,
{
    let s = h3 + h2 + h1 + h0;
    assert(s.subrange(0, 8) =~= h3);
    assert(s.subrange(8, 16) =~= h2);
    assert(s.subrange(16, 24) =~= h1);
    assert(s.subrange(24, 32) =~= h0);
}

/// Round trip for the unsigned 256-bit codec: reading back the 32
/// big-endian bytes of a value recovers the value, limb for limb.
pub proof fn lemma_wu256_round_trip(v: WU256)
    ensures
        wu256_of_be_bytes(wu256_be_bytes(v)) == v,
{
    lemma_limb_chunks(u64_be_bytes(v.l3), u64_be_bytes(v.l2), u64_be_bytes(v.l1), u64_be_bytes(v.l0));
    lemma_u64_be_round_trip(v.l3);
    lemma_u64_be_round_trip(v.l2);
    lemma_u64_be_round_trip(v.l1);
    lemma_u64_be_round_trip(v.l0);
}

/// Any 32-byte buffer is the big-endian form of the unsigned value read
/// from it.
pub proof fn lemma_wu256_be_bytes_of(s: Seq<u8>)
    requires
        s.len() == 32,
    ensures
        wu256_be_bytes(wu256_of_be_bytes(s)) == s,
{
    lemma_u64_be_bytes_of(s.subrange(0, 8));
    lemma_u64_be_bytes_of(s.subrange(8, 16));
    lemma_u64_be_bytes_of(s.subrange(16, 24));
    lemma_u64_be_bytes_of(s.subrange(24, 32));
    assert(wu256_be_bytes(wu256_of_be_bytes(s)) =~= s);
}

/// Round trip for the signed 256-bit codec: the raw two's-complement
/// pattern survives encoding unchanged, so no sign is ever lost.
pub proof fn lemma_wi256_round_trip(v: WI256)
    ensures
        wi256_of_be_bytes(wi256_be_bytes(v)) == v,
{
    lemma_limb_chunks(u64_be_bytes(v.l3), u64_be_bytes(v.l2), u64_be_bytes(v.l1), u64_be_bytes(v.l0));
    lemma_u64_be_round_trip(v.l3);
    lemma_u64_be_round_trip(v.l2);
    lemma_u64_be_round_trip(v.l1);
    lemma_u64_be_round_trip(v.l0);
}

/// Any 32-byte buffer is the big-endian form of the signed value read
/// from it.
pub proof fn lemma_wi256_be_bytes_of(s: Seq<u8>)
    requires
        s.len() == 32,
    ensures
        wi256_be_bytes(wi256_of_be_bytes(s)) == s,
{
    lemma_u64_be_bytes_of(s.subrange(0, 8));
    lemma_u64_be_bytes_of(s.subrange(8, 16));
    lemma_u64_be_bytes_of(s.subrange(16, 24));
    lemma_u64_be_bytes_of(s.subrange(24, 32));
    assert(wi256_be_bytes(wi256_of_be_bytes(s)) =~= s);
}

/// Encode an unsigned 256-bit value as its 32-byte big-endian buffer.
pub fn encode_wu256(v: &WU256) -> (r: Vec<u8>)
    ensures
        r@ == wu256_be_bytes(*v),
        r@.len() == 32,
{
    let mut out: Vec<u8> = Vec::new();
    push_u64_be(&mut out, v.l3);
    push_u64_be(&mut out, v.l2);
    push_u64_be(&mut out, v.l1);
    push_u64_be(&mut out, v.l0);
    proof {
        assert(out@ =~= wu256_be_bytes(*v));
    }
    out
}

/// Decode a 32-byte big-endian buffer into an unsigned 256-bit value.
/// A buffer of any other length is rejected with an explicit length error.
pub fn decode_wu256(b: &[u8]) -> (r: Result<WU256, CodecError>)
    ensures
        r is Ok <==> b@.len() == 32,
        r is Ok ==> r->Ok_0 == wu256_of_be_bytes(b@) && wu256_be_bytes(r->Ok_0) == b@,
        r is Err ==> r->Err_0 == (CodecError::InvalidLength { expected: 32, got: b@.len() as usize }),
{
    if b.len() != 32 {
        Err(CodecError::InvalidLength { expected: 32, got: b.len() })
    } else {
        let l3 = read_u64_be(b, 0);
        let l2 = read_u64_be(b, 8);
        let l1 = read_u64_be(b, 16);
        let l0 = read_u64_be(b, 24);
        proof {
            lemma_wu256_be_bytes_of(b@);
        }
        Ok(WU256 { l0, l1, l2, l3 })
    }
}

/// Encode a signed 256-bit value as its 32-byte big-endian two's-complement
/// buffer.
pub fn encode_wi256(v: &WI256) -> (r: Vec<u8>)
    ensures
        r@ == wi256_be_bytes(*v),
        r@.len() == 32,
{
    let mut out: Vec<u8> = Vec::new();
    push_u64_be(&mut out, v.l3);
    push_u64_be(&mut out, v.l2);
    push_u64_be(&mut out, v.l1);
    push_u64_be(&mut out, v.l0);
    proof {
        assert(out@ =~= wi256_be_bytes(*v));
    }
    out
}

/// Decode a 32-byte big-endian two's-complement buffer into a signed
/// 256-bit value. A buffer of any other length is rejected with an explicit
/// length error.
pub fn decode_wi256(b: &[u8]) -> (r: Result<WI256, CodecError>)
    ensures
        r is Ok <==> b@.len() == 32,
        r is Ok ==> r->Ok_0 == wi256_of_be_bytes(b@) && wi256_be_bytes(r->Ok_0) == b@,
        r is Err ==> r->Err_0 == (CodecError::InvalidLength { expected: 32, got: b@.len() as usize }),
{
    if b.len() != 32 {
        Err(CodecError::InvalidLength { expected: 32, got: b.len() })
    } else {
        let l3 = read_u64_be(b, 0);
        let l2 = read_u64_be(b, 8);
        let l1 = read_u64_be(b, 16);
        let l0 = read_u64_be(b, 24);
        proof {
            lemma_wi256_be_bytes_of(b@);
        }
        Ok(WI256 { l0, l1, l2, l3 })
    }
}

/// Encode an address as its 20-byte buffer: a direct byte copy.
pub fn encode_address(a: &Address) -> (r: Vec<u8>)
    requires
        a.wf(),
    ensures
        r@ == a@,
        r@.len() == 20,
{
    vstd::slice::slice_to_vec(a.bytes.as_slice())
}

/// Decode a 20-byte buffer into an address. A buffer of any other length
/// is rejected with an explicit length error.
pub fn decode_address(b: &[u8]) -> (r: Result<Address, CodecError>)
    ensures
        r is Ok <==> b@.len() == 20,
        r is Ok ==> r->Ok_0@ == b@ && r->Ok_0.wf(),
        r is Err ==> r->Err_0 == (CodecError::InvalidLength { expected: 20, got: b@.len() as usize }),
{
    if b.len() != 20 {
        Err(CodecError::InvalidLength { expected: 20, got: b.len() })
    } else {
        Ok(Address { bytes: vstd::slice::slice_to_vec(b) })
    }
}

} // verus!
