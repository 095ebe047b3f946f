//! The compact allele encoding: bases `A`, `C`, `G`, `T` as 2-bit codes,
//! packed densely and big-endian.

use vstd::prelude::*;

verus! {

/// The four bases, as ASCII: `A` (65), `C` (67), `G` (71), `T` (84).
pub open spec fn is_base(b: u8) -> bool {
    b == 65 || b == 67 || b == 71 || b == 84
}

/// Every byte of `s` is one of the four bases.
pub open spec fn is_simple(s: Seq<u8>) -> bool {
    forall|i: int| 0 <= i < s.len() ==> is_base(#[trigger] s[i])
}

/// The 2-bit code of a base: `A` 0, `C` 1, `G` 2, `T` 3.
pub open spec fn base_code(b: u8) -> u64 {
    if b == 65 {
        0
    } else if b == 67 {
        1
    } else if b == 71 {
        2
    } else {
        3
    }
}

/// The base of a 2-bit code.
pub open spec fn base_letter(c: u64) -> u8 {
    if c == 0 {
        65
    } else if c == 1 {
        67
    } else if c == 2 {
        71
    } else {
        84
    }
}

/// The codes of `s` as one dense big-endian run of 2-bit groups.
pub open spec fn pack_bases(s: Seq<u8>) -> u64
    decreases s.len(),
{
    if s.len() == 0 {
        0
    } else {
        (pack_bases(s.drop_last()) << 2u64) | base_code(s.last())
    }
}

/// The `len` bases whose codes are the lowest `2 * len` bits of `value`,
/// the first base in the highest group.
pub open spec fn unpack_bases(value: u64, len: nat) -> Seq<u8> {
    Seq::new(len, |i: int| base_letter((value >> ((2 * (len - 1 - i)) as u64)) & 3))
}

/// The lowest `k` bits set.
pub open spec fn low_mask(k: u64) -> u64 {
    ((1u64 << k) - 1) as u64
}

proof fn lemma_step_bits(x: u64, c: u64, k: u64)
    by (bit_vector)
    requires
        c < 4,
        x < 0x4000_0000_0000_0000,
        k < 62,
    ensures
        (((x << 2u64) | c) >> 0u64) & 3 == c,
        (((x << 2u64) | c) >> (k + 2) as u64) & 3 == (x >> k) & 3,
        x < (1u64 << k) ==> ((x << 2u64) | c) < (1u64 << (k + 2) as u64),
{
}

/// The packed run of `s` fits in `2 * |s|` bits, and group `i` from the top
/// holds the code of `s[i]`.
pub proof fn lemma_pack_bases(s: Seq<u8>)
    requires
        s.len() <= 31,
    ensures
        pack_bases(s) < (1u64 << (2 * s.len()) as u64),
        forall|i: int|
            0 <= i < s.len() ==> (pack_bases(s) >> ((2 * (s.len() - 1 - i)) as u64)) & 3
                == base_code(#[trigger] s[i]),
    decreases s.len(),
{
    if s.len() == 0 {
        assert(0u64 < (1u64 << 0u64)) by (bit_vector);
    } else {
        let t = s.drop_last();
        lemma_pack_bases(t);
        let x = pack_bases(t);
        let c = base_code(s.last());
        let k = (2 * t.len()) as u64;
        assert(x < 0x4000_0000_0000_0000) by (bit_vector)
            requires
                x < (1u64 << k),
                k <= 60,
        ;
        lemma_step_bits(x, c, k);
        assert(pack_bases(s) == (x << 2u64) | c);
        assert forall|i: int| 0 <= i < s.len() implies (pack_bases(s) >> ((2 * (s.len() - 1
            - i)) as u64)) & 3 == base_code(#[trigger] s[i]) by {
            if i < t.len() {
                let j = (2 * (t.len() - 1 - i)) as u64;
                lemma_step_bits(x, c, j);
                assert(t[i] == s[i]);
                assert((2 * (s.len() - 1 - i)) as u64 == (j + 2) as u64);
            } else {
                assert(s[i] == s.last());
                assert((2 * (s.len() - 1 - i)) as u64 == 0u64);
            }
        }
    }
}

/// Packing `r + a` is packing `r`, then appending the run of `a`.
pub proof fn lemma_pack_concat(r: Seq<u8>, a: Seq<u8>)
    requires
        r.len() + a.len() <= 31,
    ensures
        pack_bases(r + a) == (pack_bases(r) << (2 * a.len()) as u64) | pack_bases(a),
    decreases a.len(),
{
    let p = pack_bases(r);
    if a.len() == 0 {
        assert(r + a =~= r);
        assert((p << 0u64) | 0 == p) by (bit_vector);
    } else {
        let b = a.drop_last();
        assert((r + a).drop_last() =~= r + b);
        assert((r + a).last() == a.last());
        lemma_pack_concat(r, b);
        let q = pack_bases(b);
        let c = base_code(a.last());
        let k = (2 * b.len()) as u64;
        assert((((p << k) | q) << 2u64) | c == (p << (k + 2) as u64) | ((q << 2u64) | c))
            by (bit_vector)
            requires
                k < 62,
        ;
    }
}

/// Looking at the lowest `2 * len` bits of `value` is enough to unpack `len`
/// bases.
pub proof fn lemma_unpack_low_bits(value: u64, len: nat)
    requires
        len <= 32,
    ensures
        unpack_bases(value, len) == unpack_bases(value & low_mask((2 * len) as u64), len),
{
    let m = (2 * len) as u64;
    assert forall|i: int| 0 <= i < len implies #[trigger] unpack_bases(value, len)[i]
        == unpack_bases(value & low_mask(m), len)[i] by {
        let j = (2 * (len - 1 - i)) as u64;
        assert((value >> j) & 3 == ((value & (((1u64 << m) - 1) as u64)) >> j) & 3)
            by (bit_vector)
            requires
                j + 2 <= m,
                m <= 64,
        ;
    }
    assert(unpack_bases(value, len) =~= unpack_bases(value & low_mask(m), len));
}

/// A run of bases unpacks to itself.
pub proof fn lemma_unpack_pack(s: Seq<u8>)
    requires
        s.len() <= 31,
        is_simple(s),
    ensures
        unpack_bases(pack_bases(s), s.len()) == s,
{
    lemma_pack_bases(s);
    assert forall|i: int| 0 <= i < s.len() implies unpack_bases(pack_bases(s), s.len())[i]
        == s[i] by {
        assert(is_base(s[i]));
    }
    assert(unpack_bases(pack_bases(s), s.len()) =~= s);
}

/// The pair fits the compact encoding: bases only, at most 11 in all.
pub open spec fn compact_eligible(reference: Seq<u8>, alternative: Seq<u8>) -> bool {
    reference.len() + alternative.len() <= 11 && is_simple(reference) && is_simple(alternative)
}

/// The 31-bit compact field: the reference length in bits 30-27, the
/// alternate length in bits 26-23, then the bases of both alleles as one run
/// immediately below, and zeros down to bit 0.
pub open spec fn compact_field(reference: Seq<u8>, alternative: Seq<u8>) -> u64 {
    let n = reference.len() + alternative.len();
    ((reference.len() as u64) << 27u64) | ((alternative.len() as u64) << 23u64) | (pack_bases(
        reference + alternative,
    ) << ((23 - 2 * n) as u64))
}

/// The length of the reference allele held by a compact field.
pub open spec fn field_ref_len(f: u64) -> u64 {
    (f >> 27u64) & 0xf
}

/// The length of the alternate allele held by a compact field.
pub open spec fn field_alt_len(f: u64) -> u64 {
    (f >> 23u64) & 0xf
}

/// The reference allele held by a compact field.
pub open spec fn field_reference(f: u64) -> Seq<u8> {
    unpack_bases(f >> ((23 - 2 * field_ref_len(f)) as u64), field_ref_len(f) as nat)
}

/// The alternate allele held by a compact field.
pub open spec fn field_alternative(f: u64) -> Seq<u8> {
    unpack_bases(
        f >> ((23 - 2 * (field_ref_len(f) + field_alt_len(f))) as u64),
        field_alt_len(f) as nat,
    )
}

proof fn lemma_layout_bits(l: u64, a: u64, p: u64, q: u64)
    by (bit_vector)
    requires
        l + a <= 11,
        p < (1u64 << (2 * l) as u64),
        q < (1u64 << (2 * a) as u64),
    ensures
        ((((((l << 4u64) | a) << (2 * l) as u64) | p) << (2 * a) as u64) | q) << (23 - 2 * l
            - 2 * a) as u64 == (l << 27u64) | (a << 23u64) | (((p << (2 * a) as u64) | q) << (23
            - 2 * (l + a)) as u64),
        ({
            let f = (l << 27u64) | (a << 23u64) | (((p << (2 * a) as u64) | q) << (23 - 2 * (l
                + a)) as u64);
            &&& f & 1 == 0
            &&& f < 0x8000_0000
            &&& (f >> 27u64) & 0xf == l
            &&& (f >> 23u64) & 0xf == a
            &&& (f >> (23 - 2 * l) as u64) & (((1u64 << (2 * l) as u64) - 1) as u64) == p
            &&& (f >> (23 - 2 * (l + a)) as u64) & (((1u64 << (2 * a) as u64) - 1) as u64) == q
        }),
{
}

/// The compact field of an eligible pair is well formed: bit 0 clear, 31
/// bits wide, and it gives back both lengths and both alleles.
pub proof fn lemma_compact_field(reference: Seq<u8>, alternative: Seq<u8>)
    requires
        compact_eligible(reference, alternative),
    ensures
        ({
            let f = compact_field(reference, alternative);
            &&& f & 1 == 0
            &&& f < 0x8000_0000
            &&& field_ref_len(f) == reference.len()
            &&& field_alt_len(f) == alternative.len()
            &&& field_reference(f) == reference
            &&& field_alternative(f) == alternative
        }),
{
    let l = reference.len() as u64;
    let a = alternative.len() as u64;
    lemma_pack_bases(reference);
    lemma_pack_bases(alternative);
    lemma_pack_concat(reference, alternative);
    let p = pack_bases(reference);
    let q = pack_bases(alternative);
    lemma_layout_bits(l, a, p, q);
    let f = compact_field(reference, alternative);
    lemma_unpack_low_bits(f >> ((23 - 2 * l) as u64), l as nat);
    lemma_unpack_low_bits(f >> ((23 - 2 * (l + a)) as u64), a as nat);
    lemma_unpack_pack(reference);
    lemma_unpack_pack(alternative);
}

/// The compact field of an eligible pair, built from the two packed runs.
pub(crate) fn compact_refalt(reference: &[u8], alternative: &[u8]) -> (r: u64)
    requires
        compact_eligible(reference@, alternative@),
    ensures
        r == compact_field(reference@, alternative@),
{
    let rl = reference.len();
    let al = alternative.len();
    let ref_len: u64 = (rl & 0xf) as u64;
    let alt_len: u64 = (al & 0xf) as u64;
    assert(ref_len == rl && alt_len == al) by (bit_vector)
        requires
            rl <= 11,
            al <= 11,
            ref_len == (rl & 0xf) as u64,
            alt_len == (al & 0xf) as u64,
    ;
    let (ref_data, ref_bit_len) = binary_sequence(reference);
    let (alt_data, alt_bit_len) = binary_sequence(alternative);
    let padding_bit_len = 31 - ref_bit_len - alt_bit_len - 8;
    proof {
        lemma_pack_bases(reference@);
        lemma_pack_bases(alternative@);
        lemma_pack_concat(reference@, alternative@);
        lemma_layout_bits(ref_len, alt_len, ref_data, alt_data);
    }
    let mut data: u64 = ref_len << 4 | alt_len;
    data <<= ref_bit_len;
    data |= ref_data;
    data <<= alt_bit_len;
    data |= alt_data;
    data <<= padding_bit_len;
    data
}

/// Whether every byte of `seq` is one of `A`, `C`, `G`, `T` (upper case).
pub fn is_simple_sequence(seq: &[u8]) -> (r: bool)
    ensures
        r == is_simple(seq@),
{
    let mut i: usize = 0;
    while i < seq.len()
        invariant
            i <= seq@.len(),
            forall|j: int| 0 <= j < i ==> is_base(#[trigger] seq@[j]),
        decreases seq@.len() - i,
    {
        let one = seq[i];
        if !(one == 65 || one == 84 || one == 67 || one == 71) {
            return false;
        }
        i += 1;
    }
    true
}

/// The packed run of `seq` and its width in bits.
pub(crate) fn binary_sequence(seq: &[u8]) -> (r: (u64, usize))
    requires
        is_simple(seq@),
        seq@.len() <= 31,
    ensures
        r.0 == pack_bases(seq@),
        r.1 == 2 * seq@.len(),
{
    let mut data: u64 = 0;
    let mut i: usize = 0;
    while i < seq.len()
        invariant
            i <= seq@.len() <= 31,
            is_simple(seq@),
            data == pack_bases(seq@.take(i as int)),
        decreases seq@.len() - i,
    {
        let one = seq[i];
        assert(seq@.take(i + 1).drop_last() =~= seq@.take(i as int));
        assert(is_base(seq@[i as int]));
        data <<= 2;
        if one == 65 {
            data |= 0;
        } else if one == 67 {
            data |= 1;
        } else if one == 71 {
            data |= 2;
        } else {
            data |= 3;
        }
        i += 1;
    }
    assert(seq@.take(i as int) =~= seq@);
    (data, seq.len() * 2)
}

/// The `len` bases held in the lowest `2 * len` bits of `value`.
pub fn decode_binary_sequence(value: u64, len: u64) -> (r: Vec<u8>)
    requires
        len <= 32,
    ensures
        r@ == unpack_bases(value, len as nat),
{
    let mut result: Vec<u8> = Vec::new();
    let mut pos: u64 = 0;
    while pos < len
        invariant
            pos <= len <= 32,
            result@ =~= unpack_bases(value, len as nat).take(pos as int),
        decreases len - pos,
    {
        let code = (value >> ((len - pos - 1) * 2)) & 0x3;
        let base: u8 = if code == 0 {
            65
        } else if code == 1 {
            67
        } else if code == 2 {
            71
        } else {
            84
        };
        result.push(base);
        pos += 1;
    }
    result
}

} // verus!
