//! Variant keys: a genomic variant (chromosome, position, reference and
//! alternate alleles) packed into one 64-bit integer, and back.
//!
//! Bits 63-59 of a key hold the chromosome ordinal, bits 58-31 the position,
//! and bits 30-0 the ref/alt field: either both alleles packed as 2-bit bases
//! (bit 0 clear), or a 31-bit hash of them (bit 0 set).

use vstd::prelude::*;

pub mod alleles;
pub mod chrom;
pub mod hash;

pub use alleles::{decode_binary_sequence, is_simple_sequence};
pub use chrom::{chromosome_to_number, decode_chromosome};
pub use hash::encode_refalt_hash;

use crate::alleles::{
    compact_eligible, compact_field, compact_refalt, field_alt_len, field_alternative,
    field_ref_len, field_reference, lemma_compact_field,
};
use crate::chrom::{chrom_ordinal, ordinal_label, ordinal_result};
use crate::hash::{lemma_refalt_hash_marker, refalt_hash};

verus! {

/// The two ways in which encoding or decoding can fail.
#[derive(Debug, Clone, Copy, PartialEq, Eq, Structural)]
pub enum VariantKeyError {
    InvalidChromosome,
    InvalidPosition,
}

impl VariantKeyError {
    /// A short human-readable description of the error.
    pub fn message(&self) -> (r: &'static str)
        ensures
            *self == VariantKeyError::InvalidChromosome ==> r@ == "Invalid Chromosome"@,
            *self == VariantKeyError::InvalidPosition ==> r@ == "Invalid Position"@,
    {
        match self {
            VariantKeyError::InvalidChromosome => "Invalid Chromosome",
            VariantKeyError::InvalidPosition => "Invalid Position",
        }
    }
}

/// A decoded variant key. The alleles are both present (compact mode) or
/// both absent (hash mode).
#[derive(Debug, Clone, PartialEq, Eq)]
pub struct Variant {
    pub chrom: Vec<u8>,
    pub position: u64,
    pub reference: Option<Vec<u8>>,
    pub alternative: Option<Vec<u8>>,
}

/// The mathematical value of a `Variant`.
pub struct VariantModel {
    pub chrom: Seq<u8>,
    pub position: u64,
    pub reference: Option<Seq<u8>>,
    pub alternative: Option<Seq<u8>>,
}

/// The contents of an optional byte vector.
pub open spec fn opt_view(o: Option<Vec<u8>>) -> Option<Seq<u8>> {
    match o {
        Some(v) => Some(v@),
        None => None,
    }
}

impl View for Variant {
    type V = VariantModel;

    open spec fn view(&self) -> VariantModel {
        VariantModel {
            chrom: self.chrom@,
            position: self.position,
            reference: opt_view(self.reference),
            alternative: opt_view(self.alternative),
        }
    }
}

/// The largest position that encoding accepts. The position field holds 28
/// bits, so this one value itself is stored as 0.
pub open spec fn max_position() -> u64 {
    0x1000_0000
}

/// The ref/alt field of a pair: compact when eligible, else the hash.
pub open spec fn refalt_field(reference: Seq<u8>, alternative: Seq<u8>) -> u64 {
    if compact_eligible(reference, alternative) {
        compact_field(reference, alternative)
    } else {
        refalt_hash(reference, alternative) as u64
    }
}

/// `(ordinal << 28 | position) << 31 | field`.
pub open spec fn assemble_key(ordinal: u8, position: u64, field: u64) -> u64 {
    ((((ordinal as u64) << 28u64) | position) << 31u64) | field
}

/// What `encode_variant_key` returns: the chromosome is checked first, then
/// the position.
pub open spec fn encoded(chrom: Seq<u8>, position: u64, reference: Seq<u8>, alternative: Seq<u8>) -> Result<u64, VariantKeyError> {
    match chrom_ordinal(chrom) {
        None => Err(VariantKeyError::InvalidChromosome),
        Some(o) => if position > max_position() {
            Err(VariantKeyError::InvalidPosition)
        } else {
            Ok(assemble_key(o, position, refalt_field(reference, alternative)))
        },
    }
}

/// The ref/alt field of a key: its low 31 bits.
pub open spec fn key_refalt(key: u64) -> u64 {
    key & 0x7fff_ffff
}

/// The position field of a key: bits 58-31.
pub open spec fn key_position(key: u64) -> u64 {
    (key >> 31u64) & 0x0fff_ffff
}

/// The chromosome ordinal of a key: bits 63-59.
pub open spec fn key_ordinal(key: u64) -> u64 {
    (key >> 59u64) & 0x1f
}

/// A key can be decoded: it is in hash mode, or its two length fields leave
/// room for both alleles above bit 0.
pub open spec fn decodable(key: u64) -> bool {
    let f = key_refalt(key);
    f & 1 == 1 || field_ref_len(f) + field_alt_len(f) <= 11
}

/// What `decode_variant_key` returns.
pub open spec fn decoded(key: u64) -> Result<VariantModel, VariantKeyError> {
    let f = key_refalt(key);
    if key_ordinal(key) > 25 {
        Err(VariantKeyError::InvalidChromosome)
    } else {
        Ok(
            VariantModel {
                chrom: ordinal_label(key_ordinal(key) as u8),
                position: key_position(key),
                reference: if f & 1 == 1 {
                    None
                } else {
                    Some(field_reference(f))
                },
                alternative: if f & 1 == 1 {
                    None
                } else {
                    Some(field_alternative(f))
                },
            },
        )
    }
}

/// Decodes a variant key into its chromosome label, position and, in
/// compact mode, both alleles.
pub fn decode_variant_key(variant_key: u64) -> (r: Result<Variant, VariantKeyError>)
    requires
        decodable(variant_key),
    ensures
        match r {
            Ok(v) => decoded(variant_key) == Ok::<VariantModel, VariantKeyError>(v@),
            Err(e) => decoded(variant_key) == Err::<VariantModel, VariantKeyError>(e),
        },
{
    let ref_alt = variant_key & 0x7fff_ffff;
    let pos = (variant_key >> 31) & 0x0fff_ffff;
    let chrom = (variant_key >> (31 + 28)) & 0x1f;
    assert(chrom < 32) by (bit_vector)
        requires
            chrom == (variant_key >> 59u64) & 0x1f,
    ;

    let (reference, alternative) = if (ref_alt & 1) == 1 {
        (None, None)
    } else {
        let ref_len = (ref_alt >> 27) & 0xf;
        let alt_len = (ref_alt >> 23) & 0xf;
        assert(ref_len <= 15 && alt_len <= 15) by (bit_vector)
            requires
                ref_len == (ref_alt >> 27u64) & 0xf,
                alt_len == (ref_alt >> 23u64) & 0xf,
        ;
        let ref_value = ref_alt >> (23 - ref_len * 2);
        let alt_value = ref_alt >> (23 - (ref_len + alt_len) * 2);
        (
            Some(decode_binary_sequence(ref_value, ref_len)),
            Some(decode_binary_sequence(alt_value, alt_len)),
        )
    };

    let chrom = match decode_chromosome(chrom as u8) {
        Ok(c) => c,
        Err(e) => return Err(e),
    };
    Ok(Variant { chrom, position: pos, reference, alternative })
}

/// Encodes a variant as a key: fails with `InvalidChromosome` for a label
/// that has no ordinal, then with `InvalidPosition` above `2^28`.
pub fn encode_variant_key(
    chrom: &[u8],
    position: u64,
    reference: &[u8],
    alternative: &[u8],
) -> (r: Result<u64, VariantKeyError>)
    ensures
        r == encoded(chrom@, position, reference@, alternative@),
{
    let chrom_val: u64 = match chromosome_to_number(chrom) {
        Ok(c) => c as u64,
        Err(e) => return Err(e),
    };
    if position > 0x1000_0000 {
        return Err(VariantKeyError::InvalidPosition);
    }

    let mut data = chrom_val;
    data <<= 28;
    data |= position;
    data <<= 31;

    let ref_alt: u64 = if reference.len() > 11 || alternative.len() > 11 - reference.len()
        || !is_simple_sequence(reference) || !is_simple_sequence(alternative) {
        encode_refalt_hash(reference, alternative) as u64
    } else {
        compact_refalt(reference, alternative)
    };
    data |= ref_alt;

    Ok(data)
}

proof fn lemma_key_bits(o: u64, pos: u64, f: u64)
    by (bit_vector)
    requires
        o <= 25,
        pos <= 0x1000_0000,
        f < 0x8000_0000,
    ensures
        ({
            let k = (((o << 28u64) | pos) << 31u64) | f;
            &&& k & 0x7fff_ffff == f
            &&& (k >> 31u64) & 0x0fff_ffff == pos & 0x0fff_ffff
            &&& (k >> 59u64) & 0x1f == o | (pos >> 28u64)
        }),
        o | (pos >> 28u64) <= 25,
        pos < 0x1000_0000 ==> pos & 0x0fff_ffff == pos && o | (pos >> 28u64) == o,
        pos == 0x1000_0000 ==> pos & 0x0fff_ffff == 0,
{
}

/// What decoding gives back from a key assembled from a known ordinal, an
/// accepted position and the ref/alt field of a pair.
proof fn lemma_decode_assembled(o: u8, position: u64, reference: Seq<u8>, alternative: Seq<u8>)
    requires
        o <= 25,
        position <= max_position(),
    ensures
        ({
            let k = assemble_key(o, position, refalt_field(reference, alternative));
            let f = refalt_field(reference, alternative);
            &&& decodable(k)
            &&& key_refalt(k) == f
            &&& key_position(k) == position & 0x0fff_ffff
            &&& key_ordinal(k) == (o as u64) | (position >> 28u64)
            &&& key_ordinal(k) <= 25
            &&& position < max_position() ==> key_position(k) == position && key_ordinal(k) == o
            &&& position == max_position() ==> key_position(k) == 0
            &&& compact_eligible(reference, alternative) ==> f & 1 == 0 && field_reference(f)
                == reference && field_alternative(f) == alternative
            &&& !compact_eligible(reference, alternative) ==> f & 1 == 1
        }),
{
    let f = refalt_field(reference, alternative);
    if compact_eligible(reference, alternative) {
        lemma_compact_field(reference, alternative);
    } else {
        lemma_refalt_hash_marker(reference, alternative);
    }
    lemma_key_bits(o as u64, position, f);
}

/// A chromosome label is canonical when it is the label that decoding gives
/// for its own ordinal (`1`, not `chr1`; `MT`, not `M`).
pub open spec fn is_canonical_label(chrom: Seq<u8>) -> bool {
    chrom_ordinal(chrom) matches Some(o) && ordinal_label(o) == chrom
}

/// Compact round trip: a canonical label, a position below `2^28` and a pair
/// of base sequences of at most 11 bases in all encode to a key that decodes
/// to exactly that variant, alleles included.
pub proof fn lemma_compact_round_trip(
    chrom: Seq<u8>,
    position: u64,
    reference: Seq<u8>,
    alternative: Seq<u8>,
)
    requires
        is_canonical_label(chrom),
        position < max_position(),
        compact_eligible(reference, alternative),
    ensures
        encoded(chrom, position, reference, alternative) matches Ok(k) && decodable(k)
            && decoded(k) == Ok::<VariantModel, VariantKeyError>(
            VariantModel {
                chrom,
                position,
                reference: Some(reference),
                alternative: Some(alternative),
            },
        ),
{
    let o = chrom_ordinal(chrom)->Some_0;
    lemma_decode_assembled(o, position, reference, alternative);
}

/// Hash mode loses the alleles: for a pair that the compact encoding does
/// not take, the decoded key has neither allele, while the canonical label
/// and the position come back exactly.
pub proof fn lemma_hash_mode_lossy(
    chrom: Seq<u8>,
    position: u64,
    reference: Seq<u8>,
    alternative: Seq<u8>,
)
    requires
        is_canonical_label(chrom),
        position < max_position(),
        !compact_eligible(reference, alternative),
    ensures
        encoded(chrom, position, reference, alternative) matches Ok(k) && decodable(k)
            && decoded(k) == Ok::<VariantModel, VariantKeyError>(
            VariantModel { chrom, position, reference: None, alternative: None },
        ),
{
    let o = chrom_ordinal(chrom)->Some_0;
    lemma_decode_assembled(o, position, reference, alternative);
}

/// Encoding is a pure function: inputs with equal contents give equal
/// results.
pub proof fn lemma_encode_deterministic(
    chrom1: Seq<u8>,
    position1: u64,
    reference1: Seq<u8>,
    alternative1: Seq<u8>,
    chrom2: Seq<u8>,
    position2: u64,
    reference2: Seq<u8>,
    alternative2: Seq<u8>,
)
    requires
        chrom1 == chrom2,
        position1 == position2,
        reference1 == reference2,
        alternative1 == alternative2,
    ensures
        encoded(chrom1, position1, reference1, alternative1) == encoded(
            chrom2,
            position2,
            reference2,
            alternative2,
        ),
{
}

/// The position `2^28` itself is accepted, but the 28-bit field stores it as
/// 0: the key decodes with position 0.
pub proof fn lemma_position_boundary(chrom: Seq<u8>, reference: Seq<u8>, alternative: Seq<u8>)
    requires
        chrom_ordinal(chrom) is Some,
    ensures
        encoded(chrom, max_position(), reference, alternative) matches Ok(k) && decodable(k)
            && (decoded(k) matches Ok(v) && v.position == 0),
{
    let o = chrom_ordinal(chrom)->Some_0;
    lemma_decode_assembled(o, max_position(), reference, alternative);
}

} // verus!
