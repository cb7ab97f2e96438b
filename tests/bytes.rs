use photographic_memory::bytes::{
    parse_human_readable_bytes, parse_max_session_bytes, parse_min_free_bytes,
};

#[test]
fn parses_human_readable_byte_sizes() {
    assert_eq!(parse_human_readable_bytes("1.5GB"), Some(1_610_612_736));
    assert_eq!(parse_human_readable_bytes("512MB"), Some(536_870_912));
    assert_eq!(parse_human_readable_bytes("1_024kb"), Some(1_048_576));
    assert_eq!(parse_human_readable_bytes("2048"), Some(2048));
}

#[test]
fn rejects_invalid_byte_sizes() {
    assert!(parse_human_readable_bytes("").is_none());
    assert!(parse_human_readable_bytes("abc").is_none());
    assert!(parse_human_readable_bytes("12PB").is_none());
    assert!(parse_min_free_bytes("invalid").is_err());
}

#[test]
fn byte_sizes_ignore_case_and_surrounding_space() {
    assert_eq!(parse_human_readable_bytes("  2 KiB "), Some(2048));
    assert_eq!(parse_human_readable_bytes("3b"), Some(3));
    assert_eq!(parse_human_readable_bytes("1TB"), Some(1_099_511_627_776));
    assert_eq!(parse_human_readable_bytes("1gib"), Some(1_073_741_824));
    assert_eq!(parse_human_readable_bytes("4MiB"), Some(4_194_304));
}

#[test]
fn byte_sizes_round_halves_up() {
    // 0.0005 KiB is 0.512 bytes, rounded to 1
    assert_eq!(parse_human_readable_bytes("0.0005kb"), Some(1));
    // 0.0004 KiB is 0.4096 bytes, rounded to 0
    assert_eq!(parse_human_readable_bytes("0.0004kb"), Some(0));
    assert_eq!(parse_human_readable_bytes("2.5"), Some(3));
    assert_eq!(parse_human_readable_bytes("0.1kb"), Some(102));
    assert_eq!(parse_human_readable_bytes(".5kb"), Some(512));
    assert_eq!(parse_human_readable_bytes("7."), Some(7));
}

#[test]
fn byte_sizes_saturate_and_reject_malformed_numbers() {
    assert_eq!(
        parse_human_readable_bytes("99999999999999999999999tb"),
        Some(u64::MAX)
    );
    assert_eq!(parse_human_readable_bytes("1.2.3mb"), None);
    assert_eq!(parse_human_readable_bytes("."), None);
    assert_eq!(parse_human_readable_bytes("_kb"), None);
    assert_eq!(parse_human_readable_bytes("5 k b"), None);
}

#[test]
fn byte_size_settings_explain_the_expected_form() {
    assert_eq!(parse_min_free_bytes("2GB"), Ok(2_147_483_648));
    assert_eq!(
        parse_min_free_bytes("x").unwrap_err(),
        "expected byte size such as 1073741824, 512MB, or 1.5GB"
    );
    assert_eq!(parse_max_session_bytes("200MB"), Ok(209_715_200));
    assert_eq!(
        parse_max_session_bytes("").unwrap_err(),
        "expected byte size such as 200MB, 1GB, or 1073741824"
    );
}

#[test]
fn byte_sizes_ignore_unicode_white_space() {
    assert_eq!(parse_human_readable_bytes("\u{3000}5 MB\u{a0}"), Some(5_242_880));
    assert_eq!(parse_human_readable_bytes("\t\n"), None);
}
