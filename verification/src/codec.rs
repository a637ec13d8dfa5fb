//! Little-endian byte codec and bit-field extraction.
//!
//! NVMe identification structures store multi-byte integers in
//! little-endian order.  The functions here decode 2-, 3-, 4- and
//! 8-byte fields, encode integers back to bytes, and extract sub-byte
//! bit fields.

use vstd::prelude::*;
use vstd::arithmetic::power2::{
    pow2, lemma_pow2_adds, lemma_pow2_strictly_increases, lemma2_to64, lemma2_to64_rest,
};

verus! {

/// Value of a byte sequence read as a little-endian unsigned integer.
pub open spec fn spec_le_val(s: Seq<u8>) -> nat
    decreases s.len(),
{
    if s.len() == 0 {
        0
    } else {
        (s[0] + 256 * spec_le_val(s.drop_first())) as nat
    }
}

/// Little-endian encoding of `n` into `len` bytes (higher bytes are
/// discarded when `n` does not fit).
pub open spec fn spec_le_bytes(n: nat, len: nat) -> Seq<u8>
    decreases len,
{
    if len == 0 {
        Seq::empty()
    } else {
        seq![(n % 256) as u8] + spec_le_bytes(n / 256, (len - 1) as nat)
    }
}

/// A `len`-byte field holds values below `2^(8 * len)`.
pub proof fn lemma_le_val_bound(s: Seq<u8>)
    ensures
        spec_le_val(s) < pow2(8 * s.len()),
    decreases s.len(),
{
    if s.len() == 0 {
        lemma2_to64();
    } else {
        lemma_le_val_bound(s.drop_first());
        lemma_pow2_adds(8, 8 * (s.len() - 1) as nat);
        lemma2_to64();
        assert(spec_le_val(s) <= 255 + 256 * (pow2(8 * (s.len() - 1) as nat) - 1));
    }
}

/// Round-trip law: decoding the little-endian encoding of `n` gives
/// `n` back, for every `n` that fits in `len` bytes.
pub proof fn lemma_le_round_trip(n: nat, len: nat)
    requires
        n < pow2(8 * len),
    ensures
        spec_le_val(spec_le_bytes(n, len)) == n,
    decreases len,
{
    if len == 0 {
        lemma2_to64();
    } else {
        let rest = n / 256;
        lemma_pow2_adds(8, 8 * (len - 1) as nat);
        lemma2_to64();
        assert(rest < pow2(8 * (len - 1) as nat)) by {
            assert(n < 256 * pow2(8 * (len - 1) as nat));
            assert(n / 256 < pow2(8 * (len - 1) as nat)) by (nonlinear_arith)
                requires
                    n < 256 * pow2(8 * (len - 1) as nat),
            ;
        }
        lemma_le_round_trip(rest, (len - 1) as nat);
        let b = spec_le_bytes(n, len);
        assert(b.drop_first() =~= spec_le_bytes(rest, (len - 1) as nat));
        assert(n == 256 * (n / 256) + n % 256) by (nonlinear_arith);
    }
}

/// Encoding the decoded value of a byte sequence restores the bytes.
pub proof fn lemma_le_bytes_of_val(s: Seq<u8>)
    ensures
        spec_le_bytes(spec_le_val(s), s.len()) == s,
    decreases s.len(),
{
    if s.len() > 0 {
        let v = spec_le_val(s);
        let rest = spec_le_val(s.drop_first());
        assert(v % 256 == s[0] && v / 256 == rest) by (nonlinear_arith)
            requires
                v == s[0] + 256 * rest,
                0 <= s[0] < 256,
                rest >= 0,
        ;
        lemma_le_bytes_of_val(s.drop_first());
        assert(spec_le_bytes(v, s.len()) =~= s);
    }
}

/// Decodes up to eight bytes as a little-endian unsigned integer.
fn le_decode(bytes: &[u8]) -> (r: u64)
    requires
        bytes@.len() <= 8,
    ensures
        r == spec_le_val(bytes@),
{
    let n = bytes.len();
    let mut r: u64 = 0;
    let mut k = n;
    while k > 0
        invariant
            k <= n == bytes@.len() <= 8,
            r == spec_le_val(bytes@.subrange(k as int, n as int)),
        decreases k,
    {
        k = k - 1;
        proof {
            let tail = bytes@.subrange(k as int, n as int);
            assert(tail.drop_first() =~= bytes@.subrange(k + 1, n as int));
            lemma_le_val_bound(bytes@.subrange(k + 1, n as int));
            if 8 * (n - k - 1) < 56 {
                lemma_pow2_strictly_increases(8 * (n - k - 1) as nat, 56);
            }
            lemma2_to64();
            lemma2_to64_rest();
        }
        r = bytes[k] as u64 + 256 * r;
    }
    proof {
        assert(bytes@.subrange(0, n as int) =~= bytes@);
    }
    r
}

/// Decodes two bytes as a little-endian `u16`.
pub fn to_u16(i: [u8; 2]) -> (r: u16)
    ensures
        r == spec_le_val(i@),
{
    let v = le_decode(i.as_slice());
    proof {
        lemma_le_val_bound(i@);
        lemma2_to64();
    }
    v as u16
}

/// Decodes three bytes as a little-endian 24-bit value widened to `u32`.
pub fn u24_to_u32(i: [u8; 3]) -> (r: u32)
    ensures
        r == spec_le_val(i@),
{
    let v = le_decode(i.as_slice());
    proof {
        lemma_le_val_bound(i@);
        lemma2_to64();
    }
    v as u32
}

/// Decodes four bytes as a little-endian `u32`.
pub fn to_u32(i: [u8; 4]) -> (r: u32)
    ensures
        r == spec_le_val(i@),
{
    let v = le_decode(i.as_slice());
    proof {
        lemma_le_val_bound(i@);
        lemma2_to64();
    }
    v as u32
}

/// Decodes eight bytes as a little-endian `u64`.
pub fn to_u64(i: [u8; 8]) -> (r: u64)
    ensures
        r == spec_le_val(i@),
{
    let v = le_decode(i.as_slice());
    proof {
        lemma_le_val_bound(i@);
    }
    v
}

/// Encodes an integer as `len` little-endian bytes.
fn le_encode(x: u64, len: usize) -> (r: Vec<u8>)
    ensures
        r@ == spec_le_bytes(x as nat, len as nat),
        r@.len() == len,
{
    let mut r: Vec<u8> = Vec::new();
    let mut cur = x;
    let mut j: usize = 0;
    while j < len
        invariant
            j <= len,
            r@.len() == j,
            spec_le_bytes(x as nat, len as nat) =~= r@ + spec_le_bytes(
                cur as nat,
                (len - j) as nat,
            ),
        decreases len - j,
    {
        proof {
            assert(spec_le_bytes(cur as nat, (len - j) as nat) =~= seq![(cur % 256) as u8]
                + spec_le_bytes(cur as nat / 256, (len - j - 1) as nat));
        }
        r.push((cur % 256) as u8);
        cur = cur / 256;
        j = j + 1;
    }
    proof {
        assert(spec_le_bytes(x as nat, len as nat) =~= r@);
    }
    r
}

/// Encodes a `u16` as two little-endian bytes; `to_u16` inverts it.
pub fn u16_to_bytes(x: u16) -> (r: Vec<u8>)
    ensures
        r@ == spec_le_bytes(x as nat, 2),
        spec_le_val(r@) == x,
{
    let r = le_encode(x as u64, 2);
    proof {
        lemma2_to64();
        lemma_le_round_trip(x as nat, 2);
    }
    r
}

/// Encodes a 24-bit value as three little-endian bytes; `u24_to_u32` inverts it.
pub fn u24_to_bytes(x: u32) -> (r: Vec<u8>)
    requires
        x < 0x1000000,
    ensures
        r@ == spec_le_bytes(x as nat, 3),
        spec_le_val(r@) == x,
{
    let r = le_encode(x as u64, 3);
    proof {
        lemma2_to64();
        lemma_le_round_trip(x as nat, 3);
    }
    r
}

/// Encodes a `u32` as four little-endian bytes; `to_u32` inverts it.
pub fn u32_to_bytes(x: u32) -> (r: Vec<u8>)
    ensures
        r@ == spec_le_bytes(x as nat, 4),
        spec_le_val(r@) == x,
{
    let r = le_encode(x as u64, 4);
    proof {
        lemma2_to64();
        lemma_le_round_trip(x as nat, 4);
    }
    r
}

/// Encodes a `u64` as eight little-endian bytes; `to_u64` inverts it.
pub fn u64_to_bytes(x: u64) -> (r: Vec<u8>)
    ensures
        r@ == spec_le_bytes(x as nat, 8),
        spec_le_val(r@) == x,
{
    let r = le_encode(x, 8);
    proof {
        lemma2_to64();
        lemma_le_round_trip(x as nat, 8);
    }
    r
}

/// Bits `start_include..=end_include` of a byte, shifted down to the
/// low end.
pub open spec fn spec_extract_bits(i: u8, end_include: u8, start_include: u8) -> u8 {
    (((i as u32) >> (start_include as u32)) & (((1u32 << ((end_include - start_include
        + 1) as u32)) - 1) as u32)) as u8
}

/// Extracts the bit field `start_include..=end_include` from a byte.
pub fn bit_field_extract(i: u8, end_include: u8, start_include: u8) -> (r: u8)
    requires
        start_include <= end_include < 8,
    ensures
        r == spec_extract_bits(i, end_include, start_include),
{
    let width = end_include - start_include + 1;
    proof {
        let w = width as u32;
        assert(1u32 <= (1u32 << w) && ((1u32 << w) - 1) < 256 ==> (((i as u32) >> (
        start_include as u32)) & (((1u32 << w) - 1) as u32)) < 256) by (bit_vector);
        assert(1u32 <= (1u32 << w) && ((1u32 << w) - 1) < 256) by (bit_vector)
            requires
                0 < w <= 8,
        ;
    }
    let mask = (1u32 << (width as u32)) - 1;
    (((i as u32) >> (start_include as u32)) & mask) as u8
}

/// A bit field is bounded by its width.
pub proof fn lemma_extract_bits_bound(i: u8, e: u8, s: u8)
    requires
        s <= e < 8,
    ensures
        spec_extract_bits(i, e, s) < (1u32 << ((e - s + 1) as u32)),
{
    let w = (e - s + 1) as u32;
    assert((((i as u32) >> (s as u32)) & (((1u32 << w) - 1) as u32)) < (1u32 << w)) by (bit_vector)
        requires
            0 < w <= 8,
    ;
}

/// Reads a two-byte little-endian field at `off`.
pub fn read_le16(buf: &Vec<u8>, off: usize) -> (r: u16)
    requires
        off + 2 <= buf@.len(),
    ensures
        r == spec_le_val(buf@.subrange(off as int, off + 2)),
{
    // Materializes that the buffer's length fits in usize, which the
    // index arithmetic needs.
    let _buf_len = buf.len();
    let a: [u8; 2] = [buf[off], buf[off + 1]];
    proof {
        assert(a@ =~= buf@.subrange(off as int, off + 2));
    }
    to_u16(a)
}

/// Reads a three-byte little-endian field at `off`.
pub fn read_le24(buf: &Vec<u8>, off: usize) -> (r: u32)
    requires
        off + 3 <= buf@.len(),
    ensures
        r == spec_le_val(buf@.subrange(off as int, off + 3)),
{
    // Materializes that the buffer's length fits in usize, which the
    // index arithmetic needs.
    let _buf_len = buf.len();
    let a: [u8; 3] = [buf[off], buf[off + 1], buf[off + 2]];
    proof {
        assert(a@ =~= buf@.subrange(off as int, off + 3));
    }
    u24_to_u32(a)
}

/// Reads a four-byte little-endian field at `off`.
pub fn read_le32(buf: &Vec<u8>, off: usize) -> (r: u32)
    requires
        off + 4 <= buf@.len(),
    ensures
        r == spec_le_val(buf@.subrange(off as int, off + 4)),
{
    // Materializes that the buffer's length fits in usize, which the
    // index arithmetic needs.
    let _buf_len = buf.len();
    let a: [u8; 4] = [buf[off], buf[off + 1], buf[off + 2], buf[off + 3]];
    proof {
        assert(a@ =~= buf@.subrange(off as int, off + 4));
    }
    to_u32(a)
}

/// Reads an eight-byte little-endian field at `off`.
pub fn read_le64(buf: &Vec<u8>, off: usize) -> (r: u64)
    requires
        off + 8 <= buf@.len(),
    ensures
        r == spec_le_val(buf@.subrange(off as int, off + 8)),
{
    // Materializes that the buffer's length fits in usize, which the
    // index arithmetic needs.
    let _buf_len = buf.len();
    let a: [u8; 8] = [
        buf[off],
        buf[off + 1],
        buf[off + 2],
        buf[off + 3],
        buf[off + 4],
        buf[off + 5],
        buf[off + 6],
        buf[off + 7],
    ];
    proof {
        assert(a@ =~= buf@.subrange(off as int, off + 8));
    }
    to_u64(a)
}

} // verus!
