//! The 31-bit content hash used for allele pairs that do not fit the compact
//! encoding.

use vstd::prelude::*;

verus! {

/// Rotates a 32-bit word left by `n` bits.
pub open spec fn rotl(x: u32, n: u32) -> u32 {
    (x >> ((32 - n) as u32)) | (x << n)
}

/// One Murmur3-style step: folds the block `k` into the accumulator `h`.
pub open spec fn mux(k: u32, h: u32) -> u32 {
    let k1 = rotl(k.wrapping_mul(0xcc9e2d51), 15).wrapping_mul(0x1b873593);
    rotl(h ^ k1, 13).wrapping_mul(5).wrapping_add(0xe6546b64)
}

fn muxhash(k: u32, h: u32) -> (r: u32)
    ensures
        r == mux(k, h),
{
    let mut k = k;
    let mut h = h;
    k = k.wrapping_mul(0xcc9e2d51);
    k = (k >> 17) | (k << 15);
    k = k.wrapping_mul(0x1b873593);
    h ^= k;
    h = (h >> 19) | (h << 13);
    (h.wrapping_mul(5)).wrapping_add(0xe6546b64)
}

/// The 5-bit code of one character: bytes below `A` give the sentinel 27,
/// lower-case letters and above count from `a`, the rest count from `A`.
pub open spec fn pack_char(c: u8) -> u32 {
    if c < 65 {
        27
    } else if c >= 97 {
        (c - 97 + 1) as u32
    } else {
        (c - 65 + 1) as u32
    }
}

/// The block word of up to six characters: the code of character `i` is
/// xor-ed in at bit `26 - 5 * i`, so the block is left-aligned and bit 0 stays
/// free.
pub open spec fn pack_block(s: Seq<u8>) -> u32
    decreases s.len(),
{
    if s.len() == 0 {
        0
    } else {
        pack_block(s.drop_last()) ^ (pack_char(s.last()) << ((26 - 5 * (s.len() - 1)) as u32))
    }
}

/// Folds the blocks of `s` (six characters each, then the shorter rest)
/// into the accumulator `h`.
pub open spec fn hash_from(s: Seq<u8>, h: u32) -> u32
    decreases s.len(),
{
    if s.len() >= 6 {
        hash_from(s.skip(6), mux(pack_block(s.take(6)), h))
    } else if s.len() > 0 {
        mux(pack_block(s), h)
    } else {
        h
    }
}

/// The 32-bit hash of one character sequence.
pub open spec fn seq_hash(s: Seq<u8>) -> u32 {
    hash_from(s, 0)
}

/// The Murmur3 finalisation mix.
pub open spec fn avalanche(h: u32) -> u32 {
    let h1 = (h ^ (h >> 16)).wrapping_mul(0x85ebca6b);
    let h2 = (h1 ^ (h1 >> 13)).wrapping_mul(0xc2b2ae35);
    h2 ^ (h2 >> 16)
}

/// The 31-bit hash-mode field of a reference/alternate pair; its bit 0 is set.
pub open spec fn refalt_hash(reference: Seq<u8>, alternative: Seq<u8>) -> u32 {
    let h = avalanche(mux(seq_hash(alternative), mux(3, seq_hash(reference))));
    (h >> 1) | 1
}

/// A hash-mode field is 31 bits wide with bit 0 set.
pub proof fn lemma_refalt_hash_marker(reference: Seq<u8>, alternative: Seq<u8>)
    ensures
        refalt_hash(reference, alternative) & 1 == 1,
        refalt_hash(reference, alternative) < 0x8000_0000,
{
    let h = avalanche(mux(seq_hash(alternative), mux(3, seq_hash(reference))));
    assert(((h >> 1u32) | 1) & 1 == 1 && ((h >> 1u32) | 1) < 0x8000_0000) by (bit_vector);
}

proof fn lemma_pack_block_step(s: Seq<u8>, k: int)
    requires
        0 <= k < s.len(),
    ensures
        pack_block(s.take(k + 1)) == pack_block(s.take(k)) ^ (pack_char(s[k]) << ((26 - 5
            * k) as u32)),
{
    assert(s.take(k + 1).drop_last() =~= s.take(k));
}

fn encode_packchar(c: u8) -> (r: u32)
    ensures
        r == pack_char(c),
{
    // 65 is `A`, 97 is `a`
    if c < 65 {
        return 27;
    }
    if c >= 97 {
        return (c - 97 + 1) as u32;
    }
    (c - 65 + 1) as u32
}

/// Packs the first six characters of `value` into one block.
fn pack_chars(value: &[u8]) -> (r: u32)
    requires
        value@.len() >= 6,
    ensures
        r == pack_block(value@.take(6)),
{
    let c0 = encode_packchar(value[0]);
    let c1 = encode_packchar(value[1]);
    let c2 = encode_packchar(value[2]);
    let c3 = encode_packchar(value[3]);
    let c4 = encode_packchar(value[4]);
    let c5 = encode_packchar(value[5]);
    let r = (c5 << 1) ^ (c4 << (1 + 5)) ^ (c3 << (1 + (5 * 2))) ^ (c2 << (1 + (5 * 3))) ^ (c1
        << (1 + (5 * 4))) ^ (c0 << (1 + (5 * 5)));
    proof {
        let s = value@;
        assert(s.take(0) =~= Seq::<u8>::empty());
        lemma_pack_block_step(s, 0);
        lemma_pack_block_step(s, 1);
        lemma_pack_block_step(s, 2);
        lemma_pack_block_step(s, 3);
        lemma_pack_block_step(s, 4);
        lemma_pack_block_step(s, 5);
        assert(r == (((((0 ^ (c0 << 26u32)) ^ (c1 << 21u32)) ^ (c2 << 16u32)) ^ (c3 << 11u32))
            ^ (c4 << 6u32)) ^ (c5 << 1u32)) by (bit_vector)
            requires
                r == (c5 << 1u32) ^ (c4 << 6u32) ^ (c3 << 11u32) ^ (c2 << 16u32) ^ (c1 << 21u32)
                    ^ (c0 << 26u32),
        ;
    }
    r
}

/// Packs the last, shorter run of one to five characters into one block.
fn pack_chars_tail(value: &[u8]) -> (r: u32)
    requires
        value@.len() < 6,
    ensures
        r == pack_block(value@),
{
    let mut h: u32 = 0;
    let mut i: usize = 0;
    while i < value.len()
        invariant
            i <= value@.len() < 6,
            h == pack_block(value@.take(i as int)),
        decreases value@.len() - i,
    {
        proof {
            lemma_pack_block_step(value@, i as int);
        }
        let shift: u32 = 26 - 5 * (i as u32);
        h ^= encode_packchar(value[i]) << shift;
        i += 1;
    }
    assert(value@.take(i as int) =~= value@);
    h
}

/// The 32-bit hash of a character sequence.
fn hash32(value: &[u8]) -> (r: u32)
    ensures
        r == seq_hash(value@),
{
    let mut h: u32 = 0;
    let mut rest = value;
    while rest.len() >= 6
        invariant
            hash_from(rest@, h) == seq_hash(value@),
        decreases rest@.len(),
    {
        let ghost before = rest@;
        h = muxhash(pack_chars(rest), h);
        rest = vstd::slice::slice_subrange(rest, 6, rest.len());
        assert(rest@ =~= before.skip(6));
    }
    if rest.len() > 0 {
        h = muxhash(pack_chars_tail(rest), h);
    }
    h
}

/// The 31-bit hash-mode field of a reference/alternate pair: the hash of the
/// reference, a separator block, and the hash of the alternate allele, mixed
/// and finalised, shifted down one bit with bit 0 set as the mode marker.
pub fn encode_refalt_hash(reference: &[u8], alternative: &[u8]) -> (r: u32)
    ensures
        r == refalt_hash(reference@, alternative@),
{
    let mut h = muxhash(hash32(alternative), muxhash(0x3, hash32(reference)));
    h ^= h >> 16;
    h = h.wrapping_mul(0x85ebca6b);
    h ^= h >> 13;
    h = h.wrapping_mul(0xc2b2ae35);
    h ^= h >> 16;
    h >> 1 | 0x1
}

} // verus!
