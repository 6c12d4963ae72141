use std::str::FromStr;

use manifest_model::common::Size;
use manifest_model::common::SizeError;
use manifest_model::common::Unit;

fn codec(input: &str, count: u64, unit: Unit, output: &str) {
    let size = unit.scaled(count).unwrap();
    assert_eq!(size.count(), count);
    assert_eq!(size.written_unit(), unit);
    assert_eq!(size, Size::from_str(input).unwrap());
    assert_eq!(output, size.to_string());
}

#[test]
fn size_codec_bare() {
    codec("7", 7, Unit::B, "7");
}

#[test]
fn size_codec_b() {
    codec("7B", 7, Unit::B, "7");
}

#[test]
fn size_codec_kb() {
    codec("7KB", 7, Unit::KB, "7KB");
}

#[test]
fn size_codec_kib() {
    codec("7KiB", 7, Unit::KiB, "7KiB");
}

#[test]
fn size_codec_mb() {
    codec("7MB", 7, Unit::MB, "7MB");
}

#[test]
fn size_codec_mib() {
    codec("7MiB", 7, Unit::MiB, "7MiB");
}

#[test]
fn size_codec_gb() {
    codec("7GB", 7, Unit::GB, "7GB");
}

#[test]
fn size_codec_gib() {
    codec("7GiB", 7, Unit::GiB, "7GiB");
}

#[test]
fn size_codec_tb() {
    codec("7TB", 7, Unit::TB, "7TB");
}

#[test]
fn size_codec_tib() {
    codec("7TiB", 7, Unit::TiB, "7TiB");
}

#[test]
fn size_codec_pb() {
    codec("7PB", 7, Unit::PB, "7PB");
}

#[test]
fn size_codec_pib() {
    codec("7PiB", 7, Unit::PiB, "7PiB");
}

#[test]
fn size_codec_eb() {
    codec("7EB", 7, Unit::EB, "7EB");
}

#[test]
fn size_codec_eib() {
    codec("7EiB", 7, Unit::EiB, "7EiB");
}

#[test]
fn size_codec_spaced_b() {
    codec("7 B", 7, Unit::B, "7");
}

#[test]
fn size_codec_spaced_mib() {
    codec("7 MiB", 7, Unit::MiB, "7MiB");
}

#[test]
fn canonical_unit_selection() {
    assert_eq!(Size::from_bytes(7 * 1024).to_string(), "7KiB");
    assert_eq!(Size::from_bytes(7_000).to_string(), "7KB");
    assert_eq!(Size::from_bytes(7).to_string(), "7");
    assert_eq!(Size::from_bytes(1_024_000).to_string(), "1000KiB");
    assert_eq!(Size::from_bytes(1_000_000_000_000).to_string(), "1TB");
    assert_eq!(Size::from_bytes(1_000_000).to_string(), "1MB");
    assert_eq!(Size::from_bytes(1 << 60).to_string(), "1EiB");
    assert_eq!(Size::from_bytes(u64::MAX).to_string(), "18446744073709551615");
}

#[test]
fn zero_is_counted_in_bytes() {
    let zero = Size::from_bytes(0);
    assert_eq!(zero.written_unit(), Unit::B);
    assert_eq!(zero.count(), 0);
    assert_eq!(zero.to_string(), "0");
    assert_eq!(Size::from_str("0GiB").unwrap().to_string(), "0");
    assert_eq!(Size::default(), zero);
    assert_eq!(Size::default().to_string(), "0");
}

#[test]
fn parse_round_trip_table() {
    assert_eq!(Size::from_str("7MiB").unwrap().to_string(), "7MiB");
    assert_eq!(Size::from_str("7 B").unwrap().to_string(), "7");
    assert_eq!(Size::from_str("7KB").unwrap().to_bytes(), 7000);
}

#[test]
fn parse_renormalises() {
    assert_eq!(Size::from_str("1000KiB").unwrap().to_string(), "1000KiB");
    assert_eq!(Size::from_str("1024KB").unwrap().to_string(), "1000KiB");
    assert_eq!(Size::from_str("1000KB").unwrap().to_string(), "1MB");
    assert_eq!(Size::from_str("1024KiB").unwrap().to_string(), "1MiB");
    assert_eq!(Size::from_str("007KB").unwrap().to_string(), "7KB");
    assert_eq!(Size::from_str("7 \t KiB \n").unwrap().to_string(), "7KiB");
}

#[test]
fn from_bytes_is_idempotent() {
    for bytes in [0u64, 1, 7, 1000, 1024, 7168, 1_024_000, 1 << 40, 999_999_999_999, u64::MAX] {
        let once = Size::from_bytes(bytes);
        assert_eq!(once.to_bytes(), bytes);
        let twice = Size::from_bytes(once.to_bytes());
        assert_eq!(twice.count(), once.count());
        assert_eq!(twice.written_unit(), once.written_unit());
        assert_eq!(twice.to_string(), once.to_string());
        assert_eq!(Size::from_str(&once.to_string()).unwrap().to_string(), once.to_string());
    }
}

#[test]
fn cross_representation_equality() {
    assert_eq!(Size::from_bytes(1024), Size::from_str("1KiB").unwrap());
    assert_eq!(Size::from_str("1024").unwrap(), Size::from_str("1 KiB").unwrap());
    assert_ne!(Size::from_bytes(1024), Size::from_bytes(1000));
    assert!(Size::from_bytes(1024) == 1024u64);
    assert_eq!(Size::from(1024), Size::from_bytes(1024));
    assert_eq!(u64::from(Size::from(7168)), 7168);
    let parsed: Size = "1KiB".parse().unwrap();
    assert_eq!(parsed, Size::from(1024));
    assert!(1024u64 == Size::from_bytes(1024));
}

#[test]
fn order_is_by_byte_count() {
    assert!(Size::from_str("1KB").unwrap() < Size::from_str("1KiB").unwrap());
    assert!(Size::from_str("1023").unwrap() < Size::from_str("1KiB").unwrap());
    assert!(Size::from_str("2MB").unwrap() > Size::from_str("1MiB").unwrap());
    assert!(Size::from_str("1KiB").unwrap() >= Size::from_bytes(1024));
    assert!(Size::from_bytes(5) < 6u64);
    assert!(7u64 > Size::from_bytes(5));
}

#[test]
fn malformed_text_is_invalid() {
    for text in ["", "KiB", "7XB", "7 kb", "-7KB", "7.5KB", " 7KB", "7KB7", "7 K B", "+7"] {
        assert_eq!(Size::from_str(text), Err(SizeError::InvalidFormat(text.to_string())));
    }
}

#[test]
fn too_large_is_overflow() {
    assert_eq!(Size::from_str("16EiB"), Err(SizeError::Overflow));
    assert_eq!(Size::from_str("18446744073709551616"), Err(SizeError::Overflow));
    assert_eq!(Size::from_str("99999999999999999999999KB"), Err(SizeError::Overflow));
    assert_eq!(Size::from_str("18446744073709551615").unwrap().to_bytes(), u64::MAX);
    assert_eq!(
        Size::from_str("99999999999999999999999XB"),
        Err(SizeError::InvalidFormat("99999999999999999999999XB".to_string()))
    );
}
