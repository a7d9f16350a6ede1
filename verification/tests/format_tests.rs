use s3crc::format::{format_checksum, select_mode, to_base64, to_hex_lower, to_hex_upper, OutputMode};

#[test]
fn hex_request_wins_over_uppercase() {
    assert_eq!(select_mode(true, true), OutputMode::HexLower);
    let rendered = format_checksum(0xAE8B14860A799888, true, true);
    assert_eq!(rendered, "ae8b14860a799888");
}

#[test]
fn mode_selection() {
    assert_eq!(select_mode(false, true), OutputMode::HexLower);
    assert_eq!(select_mode(true, false), OutputMode::HexUpper);
    assert_eq!(select_mode(false, false), OutputMode::Base64Default);
}

#[test]
fn hex_renderings_are_sixteen_chars() {
    for v in [0u64, 1, 0xF, u64::MAX, 0xAE8B14860A799888, 0x0102030405060708] {
        assert_eq!(to_hex_lower(v).len(), 16);
        assert_eq!(to_hex_upper(v).len(), 16);
    }
}

#[test]
fn hex_renderings_are_zero_padded() {
    assert_eq!(to_hex_lower(1), "0000000000000001");
    assert_eq!(to_hex_upper(0xABC), "0000000000000ABC");
    assert_eq!(to_hex_lower(u64::MAX), "ffffffffffffffff");
}

#[test]
fn base64_renderings_are_twelve_chars_one_pad() {
    for v in [0u64, 1, u64::MAX, 0xAE8B14860A799888, 0x0102030405060708] {
        let rendered = to_base64(v);
        assert_eq!(rendered.len(), 12);
        assert!(rendered.ends_with('='));
        assert_eq!(rendered.matches('=').count(), 1);
    }
}

#[test]
fn base64_matches_the_engine_on_big_endian_bytes() {
    for v in [0u64, 1, u64::MAX, 0xAE8B14860A799888, 0x123456789ABCDEF0] {
        let expected = base64::Engine::encode(
            &base64::engine::general_purpose::STANDARD,
            v.to_be_bytes(),
        );
        assert_eq!(to_base64(v), expected);
    }
}

#[test]
fn hex_uses_every_digit() {
    assert_eq!(to_hex_lower(0x0123456789ABCDEF), "0123456789abcdef");
    assert_eq!(to_hex_upper(0x0123456789ABCDEF), "0123456789ABCDEF");
}

#[test]
fn base64_of_zero() {
    assert_eq!(to_base64(0), "AAAAAAAAAAA=");
}
