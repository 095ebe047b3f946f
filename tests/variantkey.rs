use variantkey::{
    chromosome_to_number, decode_binary_sequence, decode_chromosome, decode_variant_key,
    encode_refalt_hash, encode_variant_key, is_simple_sequence, Variant, VariantKeyError,
};

#[test]
fn test_encode_variant_key() {
    assert_eq!(
        Ok(0x0807728e88e80000),
        encode_variant_key(b"1", 976157, b"T", b"C"),
    );
}

#[test]
fn test_decode_variant_key() {
    assert_eq!(
        decode_variant_key(0x0806b567a0fee000),
        Ok(Variant {
            chrom: b"1".to_vec(),
            position: 879311,
            reference: Some(b"TTTC".to_vec()),
            alternative: Some(b"T".to_vec()),
        })
    );
    assert_eq!(
        decode_variant_key(0x0807728e88e80000),
        Ok(Variant {
            chrom: b"1".to_vec(),
            position: 976157,
            reference: Some(b"T".to_vec()),
            alternative: Some(b"C".to_vec()),
        })
    );
}

#[test]
fn test_decode_binary_sequence() {
    assert_eq!(decode_binary_sequence(0, 1), b"A");
    assert_eq!(decode_binary_sequence(1, 1), b"C");
    assert_eq!(decode_binary_sequence(2, 1), b"G");
    assert_eq!(decode_binary_sequence(3, 1), b"T");

    assert_eq!(decode_binary_sequence(0, 2), b"AA");
    assert_eq!(decode_binary_sequence(1 << 2 | 2, 2), b"CG");
}

#[test]
fn test_simple_sequence() {
    assert_eq!(is_simple_sequence(b"AT"), true);
    assert_eq!(is_simple_sequence(b"CG"), true);
    assert_eq!(is_simple_sequence(b"CX"), false);
    assert_eq!(is_simple_sequence(b"G"), true);
}

#[test]
fn test_chromosome_number() {
    assert_eq!(Ok(1), chromosome_to_number(b"chr1"));
    assert_eq!(Ok(1), chromosome_to_number(b"1"));
    assert_eq!(Ok(2), chromosome_to_number(b"chr2"));
    assert_eq!(Ok(2), chromosome_to_number(b"2"));
    assert_eq!(Ok(22), chromosome_to_number(b"chr22"));
    assert_eq!(Ok(22), chromosome_to_number(b"22"));

    assert_eq!(Ok(23), chromosome_to_number(b"chrX"));
    assert_eq!(Ok(23), chromosome_to_number(b"X"));
    assert_eq!(Ok(24), chromosome_to_number(b"chrY"));
    assert_eq!(Ok(24), chromosome_to_number(b"Y"));
    assert_eq!(Ok(25), chromosome_to_number(b"chrM"));
    assert_eq!(Ok(25), chromosome_to_number(b"MT"));

    assert_eq!(
        Err(VariantKeyError::InvalidChromosome),
        chromosome_to_number(b"23")
    );
    assert_eq!(
        Err(VariantKeyError::InvalidChromosome),
        chromosome_to_number(b"chr23")
    );
    assert_eq!(
        Err(VariantKeyError::InvalidChromosome),
        chromosome_to_number(b"Z")
    );
}

#[test]
fn chromosome_labels_round_trip() {
    for o in 1u8..=25 {
        let label = decode_chromosome(o).unwrap();
        assert_eq!(chromosome_to_number(&label), Ok(o));
    }
    assert_eq!(decode_chromosome(0), Ok(b"NA".to_vec()));
    assert_eq!(decode_chromosome(10), Ok(b"10".to_vec()));
    assert_eq!(decode_chromosome(25), Ok(b"MT".to_vec()));
    assert_eq!(decode_chromosome(26), Err(VariantKeyError::InvalidChromosome));
    assert_eq!(chromosome_to_number(b"NA"), Err(VariantKeyError::InvalidChromosome));
}

#[test]
fn chromosome_numbers_read_like_atoi() {
    assert_eq!(chromosome_to_number(b"M"), Ok(25));
    assert_eq!(chromosome_to_number(b"07"), Ok(7));
    assert_eq!(chromosome_to_number(b"+5"), Ok(5));
    assert_eq!(chromosome_to_number(b"-0"), Ok(0));
    assert_eq!(chromosome_to_number(b"12abc"), Ok(12));
    assert_eq!(chromosome_to_number(b"chr"), Err(VariantKeyError::InvalidChromosome));
    assert_eq!(chromosome_to_number(b""), Err(VariantKeyError::InvalidChromosome));
    assert_eq!(chromosome_to_number(b"-3"), Err(VariantKeyError::InvalidChromosome));
    assert_eq!(chromosome_to_number(b"256"), Err(VariantKeyError::InvalidChromosome));
    assert_eq!(chromosome_to_number(b"x"), Err(VariantKeyError::InvalidChromosome));
}

#[test]
fn compact_mode_round_trip() {
    let key = encode_variant_key(b"X", 12345, b"ACGT", b"TTGCA").unwrap();
    assert_eq!(key, 0xb800181ca28dfc80);
    assert_eq!(
        decode_variant_key(key),
        Ok(Variant {
            chrom: b"X".to_vec(),
            position: 12345,
            reference: Some(b"ACGT".to_vec()),
            alternative: Some(b"TTGCA".to_vec()),
        })
    );
    let key = encode_variant_key(b"MT", 0x0fff_ffff, b"ACGTACGTAC", b"G").unwrap();
    let v = decode_variant_key(key).unwrap();
    assert_eq!(v.chrom, b"MT".to_vec());
    assert_eq!(v.position, 0x0fff_ffff);
    assert_eq!(v.reference, Some(b"ACGTACGTAC".to_vec()));
    assert_eq!(v.alternative, Some(b"G".to_vec()));
    let key = encode_variant_key(b"chr7", 5, b"", b"").unwrap();
    assert_eq!(
        decode_variant_key(key),
        Ok(Variant {
            chrom: b"7".to_vec(),
            position: 5,
            reference: Some(Vec::new()),
            alternative: Some(Vec::new()),
        })
    );
}

#[test]
fn hash_mode_loses_alleles() {
    let key = encode_variant_key(b"1", 976157, b"CX", b"A").unwrap();
    assert_eq!(key, 0x0807728edff46eb5);
    assert_eq!(key & 1, 1);
    assert_eq!(
        decode_variant_key(key),
        Ok(Variant {
            chrom: b"1".to_vec(),
            position: 976157,
            reference: None,
            alternative: None,
        })
    );
    let key = encode_variant_key(b"Y", 42, b"AAAAAAAAAAAA", b"T").unwrap();
    let v = decode_variant_key(key).unwrap();
    assert_eq!(v.chrom, b"Y".to_vec());
    assert_eq!(v.position, 42);
    assert_eq!(v.reference, None);
    assert_eq!(v.alternative, None);
}

#[test]
fn refalt_hash_values() {
    assert_eq!(encode_refalt_hash(b"CX", b"A"), 0x5ff46eb5);
    assert_eq!(encode_refalt_hash(b"AAAAAAAAAAAA", b"T"), 0x712b03d7);
    assert_eq!(encode_refalt_hash(b"", b""), 0x78dcb6cb);
    assert_eq!(encode_refalt_hash(b"ACGTacgtNNNN-", b"*"), 0x7811f80f);
}

#[test]
fn encoding_is_deterministic() {
    let a = encode_variant_key(b"chr3", 777, b"ACGTTTA", b"GGAN");
    let b = encode_variant_key(b"chr3", 777, b"ACGTTTA", b"GGAN");
    assert_eq!(a, b);
    assert!(a.is_ok());
}

#[test]
fn boundary_position_is_truncated() {
    let key = encode_variant_key(b"1", 1 << 28, b"A", b"C").unwrap();
    let v = decode_variant_key(key).unwrap();
    assert_eq!(v.position, 0);
    assert_eq!(
        encode_variant_key(b"1", (1 << 28) + 1, b"A", b"C"),
        Err(VariantKeyError::InvalidPosition)
    );
}

#[test]
fn encode_errors() {
    assert_eq!(
        encode_variant_key(b"23", 1, b"A", b"C"),
        Err(VariantKeyError::InvalidChromosome)
    );
    assert_eq!(
        encode_variant_key(b"Z", u64::MAX, b"A", b"C"),
        Err(VariantKeyError::InvalidChromosome)
    );
}

#[test]
fn decode_rejects_unknown_ordinal() {
    let key = (26u64 << 59) | 1;
    assert_eq!(decode_variant_key(key), Err(VariantKeyError::InvalidChromosome));
}

#[test]
fn error_messages() {
    assert_eq!(VariantKeyError::InvalidChromosome.message(), "Invalid Chromosome");
    assert_eq!(VariantKeyError::InvalidPosition.message(), "Invalid Position");
}
