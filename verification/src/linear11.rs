//! The PMBus LINEAR11 format: two little-endian bytes holding a 5-bit signed
//! exponent (top bits of the high byte) and an 11-bit mantissa.

use vstd::prelude::*;

verus! {

/// A decoded LINEAR11 word; its value is `mantissa * 2^exponent`.
#[derive(Clone, Copy, Debug, PartialEq, Eq, Structural)]
pub struct Linear11 {
    pub mantissa: i32,
    pub exponent: i32,
}

/// The exponent field: bits 3..7 of the high byte, read as 5-bit two's complement.
pub open spec fn spec_exponent(hi: u8) -> int {
    let e = hi as int / 8;
    if e > 15 { e - 32 } else { e }
}

/// The mantissa field: the low three bits of the high byte above the low byte.
/// Raw values above 1024 are read as negative (raw - 2048); 1024 itself stays positive.
pub open spec fn spec_mantissa(lo: u8, hi: u8) -> int {
    let m = (hi as int % 8) * 256 + lo as int;
    if m > 1024 { m - 2048 } else { m }
}

/// What a register reply decodes to: fewer than two bytes decode to zero.
pub open spec fn spec_decode(data: Seq<u8>) -> Linear11 {
    if data.len() < 2 {
        Linear11 { mantissa: 0, exponent: 0 }
    } else {
        Linear11 {
            mantissa: spec_mantissa(data[0], data[1]) as i32,
            exponent: spec_exponent(data[1]) as i32,
        }
    }
}

/// Decodes the first two bytes of a register reply as LINEAR11.
pub fn decode_linear11(data: &[u8]) -> (r: Linear11)
    ensures
        r == spec_decode(data@),
        data@.len() >= 2 ==> r.mantissa == spec_mantissa(data@[0], data@[1]),
        data@.len() >= 2 ==> r.exponent == spec_exponent(data@[1]),
{
    if data.len() < 2 {
        return Linear11 { mantissa: 0, exponent: 0 };
    }
    let lo = data[0];
    let hi = data[1];
    let mut p1: i32 = ((hi as i32) >> 3) & 31;
    assert((((hi as i32) >> 3) & 31) == hi as int / 8) by (bit_vector);
    if p1 > 15 {
        p1 -= 32;
    }
    assert(((hi as i32) & 7) == hi as int % 8) by (bit_vector);
    let mut p2: i32 = ((hi as i32) & 7) * 256 + (lo as i32);
    if p2 > 1024 {
        assert(1024 < p2 < 2048 ==> (p2 | 63488i32) == p2 + 63488) by (bit_vector);
        p2 = -(65536 - (p2 | 63488));
    }
    Linear11 { mantissa: p2, exponent: p1 }
}

/// Every decoded word has an exponent in `-16..=15` and a mantissa in `-1023..=1024`.
pub proof fn lemma_decode_ranges(data: Seq<u8>)
    ensures
        -16 <= spec_decode(data).exponent <= 15,
        -1023 <= spec_decode(data).mantissa <= 1024,
{
}

/// Decoding reads only the first two bytes: replies that agree there decode alike.
pub proof fn lemma_decode_reads_two_bytes(a: Seq<u8>, b: Seq<u8>)
    requires
        a.len() >= 2,
        b.len() >= 2,
        a[0] == b[0],
        a[1] == b[1],
    ensures
        spec_decode(a) == spec_decode(b),
{
}

/// The exponent is the high byte's top five bits read as two's complement:
/// in `-16..=15` and equal to `hi >> 3` modulo 32. The mantissa is the low
/// eleven bits (`hi & 7` above `lo`), equal to them modulo 2048, in
/// `-1023..=1024`, and negative exactly when those bits exceed 1024.
pub proof fn lemma_decode_fields(lo: u8, hi: u8, rest: Seq<u8>)
    ensures
        ({
            let w = spec_decode(seq![lo, hi] + rest);
            let field = hi as int / 8;
            let bits = (hi as int % 8) * 256 + lo as int;
            &&& -16 <= w.exponent <= 15
            &&& (w.exponent as int == field || w.exponent as int == field - 32)
            &&& (w.exponent < 0 <==> field > 15)
            &&& -1023 <= w.mantissa <= 1024
            &&& (w.mantissa as int == bits || w.mantissa as int == bits - 2048)
            &&& (w.mantissa < 0 <==> bits > 1024)
        }),
{
    let b = seq![lo, hi] + rest;
    assert(b[0] == lo && b[1] == hi);
}

/// The bytes of a word with mantissa `m` and exponent `e`: the low eleven
/// bits of `m` and the low five bits of `e`, little endian.
pub open spec fn word_bytes(m: int, e: int) -> Seq<u8> {
    let mb = if m < 0 { m + 2048 } else { m };
    let eb = if e < 0 { e + 32 } else { e };
    seq![(mb % 256) as u8, (eb * 8 + mb / 256) as u8]
}

/// Decoding the bytes of any word with an exponent in `-16..=15` and a
/// mantissa in `-1023..=1024` gives that word back.
pub proof fn lemma_decode_word_bytes(m: int, e: int)
    requires
        -16 <= e <= 15,
        -1023 <= m <= 1024,
    ensures
        spec_decode(word_bytes(m, e)) == (Linear11 { mantissa: m as i32, exponent: e as i32 }),
{
    let mb = if m < 0 { m + 2048 } else { m };
    let eb = if e < 0 { e + 32 } else { e };
    let hi = eb * 8 + mb / 256;
    vstd::arithmetic::div_mod::lemma_fundamental_div_mod(mb, 256);
    assert(0 <= mb / 256 < 8);
    vstd::arithmetic::div_mod::lemma_fundamental_div_mod_converse(hi, 8, eb, mb / 256);
    let b = word_bytes(m, e);
    assert(b[0] as int == mb % 256);
    assert(b[1] as int == hi);
    assert((b[1] as int % 8) * 256 + b[0] as int == mb);
}

/// Power-on uptime in seconds: the first two reply bytes, little endian; zero when short.
pub open spec fn spec_uptime_seconds(data: Seq<u8>) -> int {
    if data.len() >= 2 { data[0] as int + data[1] as int * 256 } else { 0 }
}

/// The uptime is a 16-bit count whose low byte is the reply's first byte and
/// whose high byte is its second.
pub proof fn lemma_uptime_bytes(lo: u8, hi: u8, rest: Seq<u8>)
    ensures
        spec_uptime_seconds(seq![lo, hi] + rest) < 65536,
        spec_uptime_seconds(seq![lo, hi] + rest) % 256 == lo,
        spec_uptime_seconds(seq![lo, hi] + rest) / 256 == hi,
{
    let b = seq![lo, hi] + rest;
    assert(b[0] == lo && b[1] == hi);
}

/// Reads the uptime counter from a register reply.
pub fn uptime_seconds(data: &[u8]) -> (s: u32)
    ensures
        s == spec_uptime_seconds(data@),
{
    if data.len() >= 2 {
        let lo = data[0] as u32;
        let hi = data[1] as u32;
        assert((lo + (hi << 8)) == lo + hi * 256) by (bit_vector)
            requires lo < 256, hi < 256;
        lo + (hi << 8)
    } else {
        0
    }
}

} // verus!
