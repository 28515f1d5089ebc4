//! Byte-level arithmetic of the wire format: 16-bit fields in both byte
//! orders, and the additive checksum.

use vstd::prelude::*;
use vstd::arithmetic::div_mod::lemma_add_mod_noop;

verus! {

/// The unsigned value held by a 16-bit little-endian pair of bytes.
pub open spec fn le16_val(lo: u8, hi: u8) -> int {
    lo + 256 * hi
}

/// The little-endian byte pair of a 16-bit value.
pub open spec fn u16_le(n: u16) -> Seq<u8> {
    seq![(n % 256) as u8, (n / 256) as u8]
}

/// The big-endian byte pair of a 16-bit value.
pub open spec fn u16_be(n: u16) -> Seq<u8> {
    seq![(n / 256) as u8, (n % 256) as u8]
}

/// Reading back a little-endian pair yields the value it was made from.
pub proof fn lemma_u16_le_val(n: u16)
    ensures
        le16_val(u16_le(n)[0], u16_le(n)[1]) == n,
{
}

/// Sum of all bytes of a sequence, as an unbounded integer.
pub open spec fn byte_sum(s: Seq<u8>) -> int
    decreases s.len(),
{
    if s.len() == 0 {
        0
    } else {
        byte_sum(s.drop_last()) + s.last()
    }
}

/// The sum of a byte sequence is never negative.
pub proof fn lemma_byte_sum_nonneg(s: Seq<u8>)
    ensures
        byte_sum(s) >= 0,
    decreases s.len(),
{
    if s.len() > 0 {
        lemma_byte_sum_nonneg(s.drop_last());
    }
}

/// The checksum of a byte sequence: the low 16 bits of the sum of its
/// bytes.
pub open spec fn spec_checksum(s: Seq<u8>) -> u16 {
    (byte_sum(s) % 0x10000) as u16
}

/// Computes the additive checksum of a byte slice: all bytes are summed
/// and the low 16 bits of the sum are returned.
pub fn gen_checksum(data: &[u8]) -> (r: u16)
    ensures
        r == spec_checksum(data@),
{
    let mut acc: u32 = 0;
    let mut i: usize = 0;
    while i < data.len()
        invariant
            i <= data@.len(),
            acc == byte_sum(data@.take(i as int)) % 0x10000,
        decreases data@.len() - i,
    {
        let b: u8 = *vstd::slice::slice_index_get(data, i);
        proof {
            let pre = data@.take(i as int);
            let post = data@.take(i + 1);
            assert(post.drop_last() =~= pre);
            assert(post.last() == b);
            lemma_byte_sum_nonneg(pre);
            lemma_add_mod_noop(byte_sum(pre), b as int, 0x10000);
            assert(b as int % 0x10000 == b as int);
        }
        acc = (acc + b as u32) % 0x10000;
        i = i + 1;
    }
    proof {
        assert(data@.take(data@.len() as int) =~= data@);
        lemma_byte_sum_nonneg(data@);
    }
    acc as u16
}

} // verus!
