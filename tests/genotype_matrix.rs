use pgen_rs::error::{FormatError, IoFault, PgenError};
use pgen_rs::genotype::GenotypeCall;
use pgen_rs::pfile::Pfile;
use pgen_rs::pgen::Pgen;

fn simple_pfile(num_variants: u32, num_samples: u32) -> Pfile {
    Pfile {
        pfile_prefix: "data/x".to_string(),
        num_variants,
        num_samples,
        storage_mode: 0x02,
        variant_records_offset: 12,
    }
}

fn simple_container(num_variants: u32, num_samples: u32, records: &[u8]) -> Vec<u8> {
    let mut b = vec![0x6c, 0x1b, 0x02];
    b.extend_from_slice(&num_variants.to_le_bytes());
    b.extend_from_slice(&num_samples.to_le_bytes());
    b.push(0x40);
    b.extend_from_slice(records);
    b
}

fn texts(calls: &[GenotypeCall]) -> Vec<&'static str> {
    calls.iter().map(|c| c.as_str()).collect()
}

#[test]
fn record_size_rounds_up_to_whole_bytes() {
    let expected = [(0u32, 0u32), (1, 1), (3, 1), (4, 1), (5, 2), (8, 2)];
    for (n, size) in expected {
        assert_eq!(simple_pfile(1, n).variant_record_size(), size, "num_samples = {}", n);
    }
    assert_eq!(simple_pfile(1, u32::MAX).variant_record_size(), 1073741824);
}

#[test]
fn code_mapping_covers_all_two_bit_values() {
    let calls: Vec<GenotypeCall> = (0u8..4).map(GenotypeCall::from_code).collect();
    assert_eq!(texts(&calls), vec!["0/0", "0/1", "1/1", "./."]);
    assert_eq!(calls[0], GenotypeCall::HomRef);
    assert_eq!(calls[1], GenotypeCall::Het);
    assert_eq!(calls[2], GenotypeCall::HomAlt);
    assert_eq!(calls[3], GenotypeCall::Missing);
}

#[test]
fn extract_code_reads_each_slot_from_low_bits() {
    let byte = 0b1110_0100u8;
    let codes: Vec<u8> = (0..4).map(|s| pgen_rs::genotype::extract_code(byte, s)).collect();
    assert_eq!(codes, vec![0, 1, 2, 3]);
}

#[test]
fn end_to_end_two_variants_four_samples() {
    let data = simple_container(2, 4, &[0b1110_0100, 0b0000_0000]);
    let p = Pfile::from_header("data/x".to_string(), &data).unwrap();
    assert_eq!(p.num_variants, 2);
    assert_eq!(p.num_samples, 4);
    assert_eq!(p.variant_records_offset, 12);
    let calls = p.read_genotypes(&data, &vec![0, 1], &vec![0, 1, 2, 3], 1).unwrap();
    assert_eq!(texts(&calls[0]), vec!["0/0", "0/1", "1/1", "./."]);
    assert_eq!(texts(&calls[1]), vec!["0/0", "0/0", "0/0", "0/0"]);
}

#[test]
fn decoding_does_not_depend_on_batch_size() {
    // five variants of six samples: two bytes per record
    let records = [0x1b, 0x0f, 0xe4, 0x03, 0x00, 0x02, 0xff, 0x01, 0x39, 0x0c];
    let data = simple_container(5, 6, &records);
    let p = Pfile::from_header("x".to_string(), &data).unwrap();
    let variants = vec![0, 1, 2, 3, 4];
    let samples = vec![5, 0, 4, 1, 3, 2];
    let one = p.read_genotypes(&data, &variants, &samples, 1).unwrap();
    for batch in [2, 3, 5, 64] {
        assert_eq!(p.read_genotypes(&data, &variants, &samples, batch).unwrap(), one);
    }
    // variant 1, sample 5: byte 3 = 0x03, slot 1 -> 0
    assert_eq!(one[1][0], GenotypeCall::HomRef);
    // variant 2, sample 0: byte 4 = 0x00
    assert_eq!(one[2][1], GenotypeCall::HomRef);
    // variant 3, sample 0: byte 6 = 0xff
    assert_eq!(one[3][1], GenotypeCall::Missing);
    // variant 0, sample 1: 0x1b = 00 01 10 11, slot 1 -> 10
    assert_eq!(one[0][3], GenotypeCall::HomAlt);
}

#[test]
fn decoding_non_contiguous_and_repeated_variants() {
    let records = [0x01, 0x02, 0x03];
    let data = simple_container(3, 1, &records);
    let p = Pfile::from_header("x".to_string(), &data).unwrap();
    let calls = p.read_genotypes(&data, &vec![2, 0, 0, 1], &vec![0], 3).unwrap();
    assert_eq!(
        calls,
        vec![
            vec![GenotypeCall::Missing],
            vec![GenotypeCall::Het],
            vec![GenotypeCall::Het],
            vec![GenotypeCall::HomAlt]
        ]
    );
}

#[test]
fn decoding_out_of_range_indices_fails() {
    let data = simple_container(1, 4, &[0xe4]);
    let p = Pfile::from_header("x".to_string(), &data).unwrap();
    assert!(matches!(
        p.read_genotypes(&data, &vec![1], &vec![0], 1),
        Err(PgenError::Io(IoFault::IndexOutOfRange))
    ));
    assert!(matches!(
        p.read_genotypes(&data, &vec![0], &vec![4], 1),
        Err(PgenError::Io(IoFault::IndexOutOfRange))
    ));
}

#[test]
fn decoding_past_the_end_fails() {
    let data = simple_container(3, 4, &[0xe4, 0x00]);
    let p = Pfile::from_header("x".to_string(), &data).unwrap();
    assert!(p.read_genotypes(&data, &vec![0, 1], &vec![0], 2).is_ok());
    assert!(matches!(
        p.read_genotypes(&data, &vec![0, 1, 2], &vec![0], 2),
        Err(PgenError::Io(IoFault::UnexpectedEof))
    ));
}

#[test]
fn header_errors() {
    let good = simple_container(1, 1, &[0]);
    let mut bad_magic = good.clone();
    bad_magic[1] = 0x1c;
    assert!(matches!(
        Pfile::from_header("x".to_string(), &bad_magic),
        Err(PgenError::Format(FormatError::BadMagic))
    ));
    let mut bad_flags = good.clone();
    bad_flags[11] = 0x41;
    assert!(matches!(
        Pfile::from_header("x".to_string(), &bad_flags),
        Err(PgenError::Format(FormatError::UnsupportedFlags))
    ));
    let mut bad_mode = good.clone();
    bad_mode[2] = 0x03;
    assert!(matches!(
        Pfile::from_header("x".to_string(), &bad_mode),
        Err(PgenError::Format(FormatError::UnsupportedMode))
    ));
    assert!(matches!(
        Pfile::from_header("x".to_string(), &good[..11]),
        Err(PgenError::Io(IoFault::UnexpectedEof))
    ));
    assert!(matches!(
        Pfile::from_header("x".to_string(), &good[..1]),
        Err(PgenError::Io(IoFault::UnexpectedEof))
    ));
}

fn general_container(nv: u32, ns: u32, format_byte: u8, offsets: &[u64], body_len: usize) -> Vec<u8> {
    let mut b = vec![0x6c, 0x1b, 0x10];
    b.extend_from_slice(&nv.to_le_bytes());
    b.extend_from_slice(&ns.to_le_bytes());
    b.push(format_byte);
    for o in offsets {
        b.extend_from_slice(&o.to_le_bytes());
    }
    b.extend(std::iter::repeat(0u8).take(body_len));
    b
}

#[test]
fn general_header_is_validated() {
    // 3 variants, 4-bit types (2 bytes), 1-byte lengths (3 bytes)
    let data = general_container(3, 2, 0x40, &[25], 5);
    let pgen = Pgen::from_bytes("x.pgen".to_string(), &data).unwrap();
    assert_eq!(pgen.record_type_bits, 4);
    assert_eq!(pgen.record_length_bytes, 1);
    assert_eq!(pgen.variant_block_count(), 1);
    assert_eq!(pgen.main_header_body_offset(), 20);
    assert_eq!(pgen.main_header_body_size(), 5);
    assert_eq!(pgen.variant_records_offset(), 25);
    let p = Pfile::from_header("x".to_string(), &data).unwrap();
    assert_eq!(p.variant_records_offset, 25);
    assert!(matches!(
        p.read_genotypes(&data, &vec![0], &vec![0], 1),
        Err(PgenError::Format(FormatError::UnsupportedDecode))
    ));
}

#[test]
fn general_header_widths() {
    // 8-bit types and 3-byte lengths: format byte 0b01_00_0110
    let data = general_container(5, 1, 0x46, &[40], 5 + 15);
    let pgen = Pgen::from_bytes("x.pgen".to_string(), &data).unwrap();
    assert_eq!(pgen.record_type_bits, 8);
    assert_eq!(pgen.record_length_bytes, 3);
    assert_eq!(pgen.main_header_body_size(), 20);
    assert_eq!(pgen.variant_records_offset(), 40);
}

#[test]
fn general_header_errors() {
    let truncated = general_container(3, 2, 0x40, &[25], 4);
    assert!(matches!(
        Pgen::from_bytes("x".to_string(), &truncated),
        Err(PgenError::Io(IoFault::UnexpectedEof))
    ));
    let bad_reference_flag = general_container(3, 2, 0x80, &[25], 5);
    assert!(matches!(
        Pgen::from_bytes("x".to_string(), &bad_reference_flag),
        Err(PgenError::Format(FormatError::UnsupportedFlags))
    ));
    let bad_type_width = general_container(3, 2, 0x48, &[25], 5);
    assert!(matches!(
        Pgen::from_bytes("x".to_string(), &bad_type_width),
        Err(PgenError::Format(FormatError::UnsupportedFlags))
    ));
    let simple = simple_container(1, 1, &[0]);
    assert!(matches!(
        Pgen::from_bytes("x".to_string(), &simple),
        Err(PgenError::Format(FormatError::UnsupportedMode))
    ));
}

#[test]
fn general_header_offsets_must_ascend() {
    // 65537 variants: two blocks
    let nv: u32 = 65537;
    let body = (nv as usize * 4 + 7) / 8 + nv as usize;
    let ordered = general_container(nv, 1, 0x40, &[100, 200], body);
    let pgen = Pgen::from_bytes("x".to_string(), &ordered).unwrap();
    assert_eq!(pgen.variant_block_count(), 2);
    assert_eq!(pgen.variant_records_offset(), 28 + body as u64);
    let unordered = general_container(nv, 1, 0x40, &[200, 200], body);
    assert!(matches!(
        Pgen::from_bytes("x".to_string(), &unordered),
        Err(PgenError::Format(FormatError::UnorderedOffsets))
    ));
    let full_blocks = general_container(65536, 1, 0x40, &[7], 32768 + 65536);
    assert!(Pgen::from_bytes("x".to_string(), &full_blocks).is_ok());
}

#[test]
fn paths_follow_the_prefix() {
    let p = simple_pfile(1, 1);
    assert_eq!(p.pgen_path(), "data/x.pgen");
    assert_eq!(p.psam_path(), "data/x.psam");
    assert_eq!(p.pvar_path(), "data/x.pvar");
}
