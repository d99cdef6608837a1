use sha1::Digest;
use vcf_id_adder::digits::u64_to_dec;
use vcf_id_adder::hex::hex_encode_prefix;
use vcf_id_adder::ids::{derive_id, join_alternatives, Config, DecodingError};
use vcf_id_adder::record::{rewrite_all, rewrite_id, VariantRecord};

fn config(delimiter: &str, use_hash: bool, prefix: &str) -> Config {
    Config {
        delimiter: delimiter.as_bytes().to_vec(),
        use_hash,
        prefix: prefix.as_bytes().to_vec(),
    }
}

#[test]
fn non_hash_composition() {
    let cfg = config("_", false, "");
    let id = derive_id(
        &b"chr1".to_vec(),
        100,
        &b"A".to_vec(),
        &vec![b"T".to_vec()],
        &cfg,
    )
    .unwrap();
    assert_eq!(id, b"chr1_100_A_T".to_vec());
}

#[test]
fn default_config_matches_plain_composition() {
    let cfg = Config::default();
    let id = derive_id(
        &b"chr1".to_vec(),
        100,
        &b"A".to_vec(),
        &vec![b"T".to_vec()],
        &cfg,
    )
    .unwrap();
    assert_eq!(id, b"chr1_100_A_T".to_vec());
}

#[test]
fn multi_allele_join() {
    let cfg = config("_", false, "");
    let id = derive_id(
        &b"chr1".to_vec(),
        100,
        &b"A".to_vec(),
        &vec![b"T".to_vec(), b"G".to_vec()],
        &cfg,
    )
    .unwrap();
    assert_eq!(id, b"chr1_100_A_T,G".to_vec());
}

#[test]
fn empty_alternative_list() {
    let cfg = config("_", false, "");
    let id = derive_id(&b"chr1".to_vec(), 100, &b"A".to_vec(), &vec![], &cfg).unwrap();
    assert_eq!(id, b"chr1_100_A_".to_vec());
}

#[test]
fn prefix_application() {
    let cfg = config("_", false, "v_");
    let id = derive_id(
        &b"chr1".to_vec(),
        100,
        &b"A".to_vec(),
        &vec![b"T".to_vec()],
        &cfg,
    )
    .unwrap();
    assert_eq!(id, b"v_chr1_100_A_T".to_vec());
}

#[test]
fn custom_delimiter() {
    let cfg = config("-", false, "");
    let id = derive_id(
        &b"chr1".to_vec(),
        100,
        &b"A".to_vec(),
        &vec![b"T".to_vec()],
        &cfg,
    )
    .unwrap();
    assert_eq!(id, b"chr1-100-A-T".to_vec());
}

#[test]
fn determinism_on_equal_inputs() {
    let cfg1 = config("_", true, "x");
    let cfg2 = config("_", true, "x");
    let first = derive_id(
        &b"chr2".to_vec(),
        42,
        &b"AC".to_vec(),
        &vec![b"G".to_vec()],
        &cfg1,
    )
    .unwrap();
    let second = derive_id(
        &b"chr2".to_vec(),
        42,
        &b"AC".to_vec(),
        &vec![b"G".to_vec()],
        &cfg2,
    )
    .unwrap();
    assert_eq!(first, second);
}

#[test]
fn hash_mode_shape() {
    let cfg = config("_", true, "");
    let id = derive_id(
        &b"chr1".to_vec(),
        100,
        &b"A".to_vec(),
        &vec![b"T".to_vec()],
        &cfg,
    )
    .unwrap();
    assert_eq!(id.len(), 8);
    for b in &id {
        assert!(b.is_ascii_digit() || (b'a'..=b'f').contains(b));
    }
}

#[test]
fn hash_stability_against_reference_digest() {
    let cfg = config("_", true, "");
    let id = derive_id(
        &b"chr1".to_vec(),
        100,
        &b"A".to_vec(),
        &vec![b"T".to_vec()],
        &cfg,
    )
    .unwrap();
    let digest = sha1::Sha1::digest(b"chr1_100_A_T");
    let mut expected = String::new();
    for b in digest.iter().take(4) {
        expected.push_str(&format!("{:02x}", b));
    }
    assert_eq!(id, expected.into_bytes());
}

#[test]
fn prefix_applies_after_hashing() {
    let plain = config("_", true, "");
    let prefixed = config("_", true, "v_");
    let bare = derive_id(
        &b"chr1".to_vec(),
        100,
        &b"A".to_vec(),
        &vec![b"T".to_vec()],
        &plain,
    )
    .unwrap();
    let with_prefix = derive_id(
        &b"chr1".to_vec(),
        100,
        &b"A".to_vec(),
        &vec![b"T".to_vec()],
        &prefixed,
    )
    .unwrap();
    let mut expected = b"v_".to_vec();
    expected.extend_from_slice(&bare);
    assert_eq!(with_prefix, expected);
}

#[test]
fn invalid_utf8_reference_fails() {
    let cfg = config("_", false, "");
    let r = derive_id(
        &b"chr1".to_vec(),
        100,
        &vec![0xff, 0xfe],
        &vec![b"T".to_vec()],
        &cfg,
    );
    assert_eq!(r, Err(DecodingError));
}

#[test]
fn invalid_utf8_chromosome_fails() {
    let cfg = config("_", false, "");
    let r = derive_id(
        &vec![0xc0],
        100,
        &b"A".to_vec(),
        &vec![b"T".to_vec()],
        &cfg,
    );
    assert_eq!(r, Err(DecodingError));
}

#[test]
fn invalid_utf8_alternative_fails() {
    let cfg = config("_", false, "");
    let r = derive_id(
        &b"chr1".to_vec(),
        100,
        &b"A".to_vec(),
        &vec![b"T".to_vec(), vec![0x80]],
        &cfg,
    );
    assert_eq!(r, Err(DecodingError));
}

#[test]
fn multibyte_utf8_passes_through() {
    let cfg = config("_", false, "");
    // "chr" followed by U+00B5 (micro sign), a two-byte UTF-8 sequence
    let chromosome = vec![b'c', b'h', b'r', 0xc2, 0xb5];
    let id = derive_id(&chromosome, 3, &b"A".to_vec(), &vec![b"T".to_vec()], &cfg).unwrap();
    let mut expected = chromosome.clone();
    expected.extend_from_slice(b"_3_A_T");
    assert_eq!(id, expected);
}

#[test]
fn decimal_rendering() {
    assert_eq!(u64_to_dec(0), b"0".to_vec());
    assert_eq!(u64_to_dec(7), b"7".to_vec());
    assert_eq!(u64_to_dec(100), b"100".to_vec());
    assert_eq!(
        u64_to_dec(u64::MAX),
        b"18446744073709551615".to_vec()
    );
}

#[test]
fn hex_rendering() {
    let bytes = vec![0x00, 0xff, 0x1a, 0x2b, 0x99];
    assert_eq!(hex_encode_prefix(&bytes, 4), b"00ff1a2b".to_vec());
    assert_eq!(hex_encode_prefix(&bytes, 0), Vec::<u8>::new());
}

#[test]
fn join_order_and_separator() {
    assert_eq!(join_alternatives(&vec![]), Vec::<u8>::new());
    assert_eq!(join_alternatives(&vec![b"T".to_vec()]), b"T".to_vec());
    assert_eq!(
        join_alternatives(&vec![b"T".to_vec(), b"G".to_vec(), b"CA".to_vec()]),
        b"T,G,CA".to_vec()
    );
}

#[test]
fn rewrite_replaces_ids_and_keeps_other_fields() {
    let cfg = config("_", false, "");
    let mut record = VariantRecord {
        chromosome: b"chr1".to_vec(),
        position: 100,
        id: vec![b"rs111".to_vec(), b"rs222".to_vec()],
        reference: b"A".to_vec(),
        alternative: vec![b"T".to_vec()],
    };
    assert_eq!(rewrite_id(&mut record, &cfg), Ok(()));
    assert_eq!(record.id, vec![b"chr1_100_A_T".to_vec()]);
    assert_eq!(record.chromosome, b"chr1".to_vec());
    assert_eq!(record.position, 100);
    assert_eq!(record.reference, b"A".to_vec());
    assert_eq!(record.alternative, vec![b"T".to_vec()]);
}

#[test]
fn rewrite_on_invalid_utf8_leaves_record_unchanged() {
    let cfg = config("_", false, "");
    let mut record = VariantRecord {
        chromosome: b"chr1".to_vec(),
        position: 100,
        id: vec![b"rs111".to_vec()],
        reference: vec![0xf5],
        alternative: vec![b"T".to_vec()],
    };
    assert_eq!(rewrite_id(&mut record, &cfg), Err(DecodingError));
    assert_eq!(record.id, vec![b"rs111".to_vec()]);
    assert_eq!(record.reference, vec![0xf5]);
}

fn record(chromosome: &str, position: u64, reference: &str, alternative: &[&str]) -> VariantRecord {
    VariantRecord {
        chromosome: chromosome.as_bytes().to_vec(),
        position,
        id: vec![],
        reference: reference.as_bytes().to_vec(),
        alternative: alternative.iter().map(|a| a.as_bytes().to_vec()).collect(),
    }
}

#[test]
fn batch_rewrite_preserves_count_and_order() {
    let cfg = config("_", false, "");
    let records = vec![
        record("chr1", 100, "A", &["T"]),
        record("chr2", 5, "G", &["C", "CA"]),
        record("chrX", 1, "TT", &[]),
    ];
    let out = rewrite_all(records, &cfg).unwrap();
    assert_eq!(out.len(), 3);
    assert_eq!(out[0].chromosome, b"chr1".to_vec());
    assert_eq!(out[0].id, vec![b"chr1_100_A_T".to_vec()]);
    assert_eq!(out[1].chromosome, b"chr2".to_vec());
    assert_eq!(out[1].id, vec![b"chr2_5_G_C,CA".to_vec()]);
    assert_eq!(out[2].chromosome, b"chrX".to_vec());
    assert_eq!(out[2].id, vec![b"chrX_1_TT_".to_vec()]);
}

#[test]
fn batch_rewrite_fails_on_undecodable_record() {
    let cfg = config("_", false, "");
    let mut bad = record("chr2", 5, "G", &["C"]);
    bad.reference = vec![0xfe];
    let records = vec![record("chr1", 100, "A", &["T"]), bad, record("chr3", 7, "C", &["A"])];
    assert!(matches!(rewrite_all(records, &cfg), Err(DecodingError)));
}

#[test]
fn default_config_values() {
    let cfg = Config::default();
    assert_eq!(cfg.delimiter, b"_".to_vec());
    assert!(!cfg.use_hash);
    assert_eq!(cfg.prefix, Vec::<u8>::new());
}
