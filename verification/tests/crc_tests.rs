use s3crc::crc::{
    compute_crc64, compute_crc64_from_reader, crc64_finalize, crc64_update, make_table, CRC64_INIT,
    NVME_POLY,
};
use s3crc::format::{format_checksum, to_base64, to_hex_lower, to_hex_upper};

#[test]
fn table_is_deterministic() {
    let a = make_table(NVME_POLY);
    let b = make_table(NVME_POLY);
    assert_eq!(a, b);
    assert_eq!(a.len(), 256);
    assert_eq!(a[0], 0);
}

#[test]
fn empty_input_checksum() {
    let table = make_table(NVME_POLY);
    let sum = compute_crc64(&table, &[]);
    assert_eq!(sum, 0);
    assert_eq!(to_hex_lower(sum), "0000000000000000");
    assert_eq!(to_base64(sum), "AAAAAAAAAAA=");
}

#[test]
fn known_vector_hex_lower() {
    let table = make_table(NVME_POLY);
    let sum = compute_crc64(&table, b"123456789");
    assert_eq!(to_hex_lower(sum), "ae8b14860a799888");
}

#[test]
fn known_vector_hex_upper() {
    let table = make_table(NVME_POLY);
    let sum = compute_crc64(&table, b"123456789");
    assert_eq!(to_hex_upper(sum), "AE8B14860A799888");
}

#[test]
fn known_vector_base64() {
    let table = make_table(NVME_POLY);
    let sum = compute_crc64(&table, b"123456789");
    let expected = base64::Engine::encode(
        &base64::engine::general_purpose::STANDARD,
        [0xAEu8, 0x8B, 0x14, 0x86, 0x0A, 0x79, 0x98, 0x88],
    );
    assert_eq!(to_base64(sum), expected);
    assert_eq!(to_base64(sum), "rosUhgp5mIg=");
}

#[test]
fn chunking_invariance() {
    let table = make_table(NVME_POLY);
    let data: Vec<u8> = (0u16..1000).map(|i| (i % 251) as u8).collect();
    let whole = compute_crc64(&table, &data);

    // Single-byte chunks.
    let mut register = CRC64_INIT;
    for b in &data {
        register = crc64_update(register, &table, &[*b]);
    }
    assert_eq!(crc64_finalize(register), whole);

    // Uneven chunks with empty chunks mixed in.
    let chunks: Vec<Vec<u8>> = vec![
        data[0..1].to_vec(),
        Vec::new(),
        data[1..500].to_vec(),
        data[500..500].to_vec(),
        data[500..1000].to_vec(),
    ];
    assert_eq!(compute_crc64_from_reader(&table, &chunks), whole);

    // One chunk of the full input length.
    let one = vec![data.clone()];
    assert_eq!(compute_crc64_from_reader(&table, &one), whole);

    // No chunks at all is the empty input.
    let none: Vec<Vec<u8>> = Vec::new();
    assert_eq!(compute_crc64_from_reader(&table, &none), 0);
}

#[test]
fn update_respects_input_order() {
    let table = make_table(NVME_POLY);
    let forward = compute_crc64(&table, b"ab");
    let backward = compute_crc64(&table, b"ba");
    assert_ne!(forward, backward);
}

#[test]
fn format_checksum_matches_direct_renderings() {
    let table = make_table(NVME_POLY);
    let sum = compute_crc64(&table, b"123456789");
    assert_eq!(format_checksum(sum, false, true), to_hex_lower(sum));
    assert_eq!(format_checksum(sum, true, false), to_hex_upper(sum));
    assert_eq!(format_checksum(sum, false, false), to_base64(sum));
}
