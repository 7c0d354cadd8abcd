//! Binary encoding of numeric cells.
//!
//! A numeric cell occupies eight bytes of a row buffer: one IEEE-754 double
//! stored big-endian.  This module defines the byte-level encoding, a decoder
//! that goes through the `byteorder` crate, and the integer reading of a
//! double's bit pattern (truncation toward zero and the zero test) that the
//! formatting and highlight rules need.

use vstd::prelude::*;

verus! {

/// The number of bytes of one encoded numeric cell (an IEEE-754 double).
pub const NUM_SIZE: usize = 8;

/// Byte width of a numeric cell in a row buffer.
pub fn num_size() -> (n: usize)
    ensures
        n == NUM_SIZE,
{
    NUM_SIZE
}

/// The integer held by the first eight bytes of `b`, big-endian.
pub open spec fn be_u64_of(b: Seq<u8>) -> u64
    recommends
        b.len() >= 8,
{
    ((b[0] as u64) << 56) | ((b[1] as u64) << 48) | ((b[2] as u64) << 40) | ((b[3] as u64) << 32)
        | ((b[4] as u64) << 24) | ((b[5] as u64) << 16) | ((b[6] as u64) << 8) | (b[7] as u64)
}

/// The eight big-endian bytes of `x`, most significant first.
pub open spec fn be_bytes_of(x: u64) -> Seq<u8> {
    seq![
        (x >> 56) as u8,
        (x >> 48) as u8,
        (x >> 40) as u8,
        (x >> 32) as u8,
        (x >> 24) as u8,
        (x >> 16) as u8,
        (x >> 8) as u8,
        x as u8,
    ]
}

/// Encodes `x` as its eight big-endian bytes.
pub fn u64_to_be_bytes(x: u64) -> (r: Vec<u8>)
    ensures
        r@ == be_bytes_of(x),
        r@.len() == 8,
        be_u64_of(r@) == x,
{
    let mut r: Vec<u8> = Vec::new();
    r.push((x >> 56) as u8);
    r.push((x >> 48) as u8);
    r.push((x >> 40) as u8);
    r.push((x >> 32) as u8);
    r.push((x >> 24) as u8);
    r.push((x >> 16) as u8);
    r.push((x >> 8) as u8);
    r.push(x as u8);
    proof {
        assert(r@ =~= be_bytes_of(x));
        lemma_be_round_trip(x);
    }
    r
}

/// Law: decoding the big-endian encoding of a value gives that value back,
/// with no loss at the byte level.
pub proof fn lemma_be_round_trip(x: u64)
    ensures
        be_u64_of(be_bytes_of(x)) == x,
{
    assert((((((x >> 56) as u8) as u64) << 56) | ((((x >> 48) as u8) as u64) << 48) | ((((x
        >> 40) as u8) as u64) << 40) | ((((x >> 32) as u8) as u64) << 32) | ((((x
        >> 24) as u8) as u64) << 24) | ((((x >> 16) as u8) as u64) << 16) | ((((x
        >> 8) as u8) as u64) << 8) | ((x as u8) as u64)) == x) by (bit_vector);
}

/// Law: the big-endian encoding is determined pointwise by the eight bytes it
/// decodes to; decoding any eight bytes and re-encoding gives the same bytes.
pub proof fn lemma_be_bytes_unique(b: Seq<u8>)
    requires
        b.len() == 8,
    ensures
        be_bytes_of(be_u64_of(b)) =~= b,
{
    let x = be_u64_of(b);
    let b0 = b[0];
    let b1 = b[1];
    let b2 = b[2];
    let b3 = b[3];
    let b4 = b[4];
    let b5 = b[5];
    let b6 = b[6];
    let b7 = b[7];
    let y = ((b0 as u64) << 56) | ((b1 as u64) << 48) | ((b2 as u64) << 40) | ((b3 as u64) << 32)
        | ((b4 as u64) << 24) | ((b5 as u64) << 16) | ((b6 as u64) << 8) | (b7 as u64);
    assert((y >> 56) as u8 == b0 && (y >> 48) as u8 == b1 && (y >> 40) as u8 == b2 && (y
        >> 32) as u8 == b3 && (y >> 24) as u8 == b4 && (y >> 16) as u8 == b5 && (y >> 8) as u8
        == b6 && y as u8 == b7) by (bit_vector)
        requires
            y == ((b0 as u64) << 56) | ((b1 as u64) << 48) | ((b2 as u64) << 40) | ((b3
                as u64) << 32) | ((b4 as u64) << 24) | ((b5 as u64) << 16) | ((b6 as u64) << 8) | (
            b7 as u64),
    ;
}

/// Encodes a flat array of doubles, given by their bit patterns, as one
/// big-endian byte buffer: the simple numeric-array input becomes the byte
/// form the row decoder reads, eight bytes per value.
pub fn encode_values(values: &Vec<u64>) -> (r: Vec<u8>)
    requires
        8 * values@.len() <= usize::MAX,
    ensures
        r@.len() == 8 * values@.len(),
        forall|i: int|
            0 <= i < values@.len() ==> #[trigger] r@.subrange(8 * i, 8 * i + 8) == be_bytes_of(
                values@[i],
            ),
{
    let mut r: Vec<u8> = Vec::new();
    let mut i: usize = 0;
    while i < values.len()
        invariant
            i <= values@.len(),
            r@.len() == 8 * i,
            8 * values@.len() <= usize::MAX,
            forall|j: int|
                0 <= j < i ==> #[trigger] r@.subrange(8 * j, 8 * j + 8) == be_bytes_of(
                    values@[j],
                ),
        decreases values@.len() - i,
    {
        let ghost pre = r@;
        let mut chunk = u64_to_be_bytes(values[i]);
        r.append(&mut chunk);
        proof {
            assert forall|j: int| 0 <= j < i + 1 implies #[trigger] r@.subrange(8 * j, 8 * j + 8)
                == be_bytes_of(values@[j]) by {
                if j < i {
                    assert(r@.subrange(8 * j, 8 * j + 8) =~= pre.subrange(8 * j, 8 * j + 8));
                } else {
                    assert(r@.subrange(8 * j, 8 * j + 8) =~= be_bytes_of(values@[j]));
                }
            }
        }
        i += 1;
    }
    r
}

/// Whether a bit pattern represents the double zero (of either sign).
pub open spec fn double_is_zero(bits: u64) -> bool {
    bits == 0 || bits == 0x8000_0000_0000_0000
}

/// Tests whether `bits` is the pattern of a zero double, of either sign.
pub fn double_zero(bits: u64) -> (r: bool)
    ensures
        r == double_is_zero(bits),
{
    bits == 0 || bits == 0x8000_0000_0000_0000
}

/// The integer a double's bit pattern truncates to: the sign, exponent and
/// mantissa fields read as an IEEE-754 binary64 value, rounded toward zero and
/// saturated at the `i64` range; the not-a-number patterns give zero.
pub open spec fn double_trunc(bits: u64) -> i64 {
    let sign = bits >> 63;
    let e = (bits >> 52) & 0x7ff;
    let f = bits & 0xf_ffff_ffff_ffff;
    if e == 0x7ff {
        if f != 0 {
            0
        } else if sign == 1 {
            i64::MIN
        } else {
            i64::MAX
        }
    } else if e < 1023 {
        0
    } else if e >= 1086 {
        if sign == 1 {
            i64::MIN
        } else {
            i64::MAX
        }
    } else {
        let m = f | 0x10_0000_0000_0000;
        let mag = if e < 1075 {
            m >> ((1075 - e) as u64)
        } else {
            m << ((e - 1075) as u64)
        };
        if sign == 1 {
            (-(mag as int)) as i64
        } else {
            mag as i64
        }
    }
}

/// Truncates the double encoded by `bits` toward zero, saturating at the
/// `i64` range, with zero for the not-a-number patterns.
pub fn double_to_i64(bits: u64) -> (r: i64)
    ensures
        r == double_trunc(bits),
{
    let sign = bits >> 63;
    let e = (bits >> 52) & 0x7ff;
    let f = bits & 0xf_ffff_ffff_ffff;
    if e == 0x7ff {
        if f != 0 {
            0
        } else if sign == 1 {
            i64::MIN
        } else {
            i64::MAX
        }
    } else if e < 1023 {
        0
    } else if e >= 1086 {
        if sign == 1 {
            i64::MIN
        } else {
            i64::MAX
        }
    } else {
        let m = f | 0x10_0000_0000_0000;
        proof {
            assert(m <= 0x1f_ffff_ffff_ffff) by (bit_vector)
                requires
                    m == (bits & 0xf_ffff_ffff_ffff) | 0x10_0000_0000_0000,
            ;
        }
        let mag: u64 = if e < 1075 {
            let sh: u64 = 1075 - e;
            proof {
                assert(m >> sh <= 0x1f_ffff_ffff_ffff) by (bit_vector)
                    requires
                        m <= 0x1f_ffff_ffff_ffff,
                ;
            }
            m >> sh
        } else {
            let sh: u64 = e - 1075;
            proof {
                assert(m << sh < 0x8000_0000_0000_0000) by (bit_vector)
                    requires
                        m <= 0x1f_ffff_ffff_ffff && sh <= 10,
                ;
            }
            m << sh
        };
        if sign == 1 {
            -(mag as i64)
        } else {
            mag as i64
        }
    }
}

/// Truncating division of a millisecond count by 1000: the seconds value,
/// rounded toward zero as the host language's integer division rounds.
pub open spec fn ms_to_secs_spec(ms: int) -> int {
    if ms >= 0 {
        ms / 1000
    } else {
        -((-ms) / 1000)
    }
}

/// The whole seconds in a millisecond count, rounded toward zero.
pub fn ms_to_secs(ms: i64) -> (s: i64)
    ensures
        s == ms_to_secs_spec(ms as int),
{
    if ms >= 0 {
        ((ms as u64) / 1000) as i64
    } else {
        let mag: u64 = ((-(ms + 1)) as u64) + 1;
        assert(mag == -(ms as int));
        let q = mag / 1000;
        -(q as i64)
    }
}

/// Relies on byteorder's `BigEndian::read_u64`: it reads the eight bytes at
/// the front of the slice as one big-endian unsigned integer.
#[verifier::external_body]
pub(crate) fn read_u64_be(data: &Vec<u8>, at: usize) -> (r: u64)
    requires
        at + 8 <= data@.len(),
    ensures
        r == be_u64_of(data@.subrange(at as int, at as int + 8)),
{
    <byteorder::BigEndian as byteorder::ByteOrder>::read_u64(&data[at..at + 8])
}

} // verus!
