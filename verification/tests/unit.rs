use std::str::FromStr;

use manifest_model::common::Invalid;
use manifest_model::common::SizeError;
use manifest_model::common::Unit;

fn codec(input: &str, unit: Unit, output: &str) {
    assert_eq!(unit, input.parse().unwrap());
    assert_eq!(unit, Unit::from_str(input).unwrap());
    assert_eq!(output, unit.as_ref());
}

#[test]
fn codec_empty() {
    codec("", Unit::B, "");
}

#[test]
fn codec_b() {
    codec("B", Unit::B, "");
}

#[test]
fn codec_kb() {
    codec("KB", Unit::KB, "KB");
}

#[test]
fn codec_kib() {
    codec("KiB", Unit::KiB, "KiB");
}

#[test]
fn codec_mb() {
    codec("MB", Unit::MB, "MB");
}

#[test]
fn codec_mib() {
    codec("MiB", Unit::MiB, "MiB");
}

#[test]
fn codec_gb() {
    codec("GB", Unit::GB, "GB");
}

#[test]
fn codec_gib() {
    codec("GiB", Unit::GiB, "GiB");
}

#[test]
fn codec_tb() {
    codec("TB", Unit::TB, "TB");
}

#[test]
fn codec_tib() {
    codec("TiB", Unit::TiB, "TiB");
}

#[test]
fn codec_pb() {
    codec("PB", Unit::PB, "PB");
}

#[test]
fn codec_pib() {
    codec("PiB", Unit::PiB, "PiB");
}

#[test]
fn codec_eb() {
    codec("EB", Unit::EB, "EB");
}

#[test]
fn codec_eib() {
    codec("EiB", Unit::EiB, "EiB");
}

#[test]
fn unknown_suffixes_are_rejected() {
    for text in ["kb", "Kb", "KIB", "b", "X", " KB", "KB ", "KiBs", "ZB"] {
        assert_eq!(Unit::from_str(text), Err(Invalid(text.to_string())));
    }
}

#[test]
fn multipliers_are_exact() {
    assert_eq!(Unit::B.bytes(), 1);
    assert_eq!(Unit::KB.bytes(), 1_000);
    assert_eq!(Unit::KiB.bytes(), 1 << 10);
    assert_eq!(Unit::MB.bytes(), 1_000_000);
    assert_eq!(Unit::MiB.bytes(), 1 << 20);
    assert_eq!(Unit::GB.bytes(), 1_000_000_000);
    assert_eq!(Unit::GiB.bytes(), 1 << 30);
    assert_eq!(Unit::TB.bytes(), 1_000_000_000_000);
    assert_eq!(Unit::TiB.bytes(), 1 << 40);
    assert_eq!(Unit::PB.bytes(), 1_000_000_000_000_000);
    assert_eq!(Unit::PiB.bytes(), 1 << 50);
    assert_eq!(Unit::EB.bytes(), 1_000_000_000_000_000_000);
    assert_eq!(Unit::EiB.bytes(), 1 << 60);
}

#[test]
fn units_sort_by_multiplier() {
    let mut previous = Unit::from_rank(0);
    for rank in 1..13 {
        let unit = Unit::from_rank(rank);
        assert!(previous < unit);
        assert!(previous.bytes() < unit.bytes());
        previous = unit;
    }
    assert_eq!(Unit::default(), Unit::B);
}

#[test]
fn scaled_multiplies() {
    let size = Unit::KB.scaled(7).unwrap();
    assert_eq!(size.to_bytes(), 7_000);
    assert_eq!(size.written_unit(), Unit::KB);
    assert_eq!(size.count(), 7);
}

#[test]
fn scaled_renormalises() {
    let size = Unit::KiB.scaled(1024).unwrap();
    assert_eq!(size.to_bytes(), 1 << 20);
    assert_eq!(size.written_unit(), Unit::MiB);
    assert_eq!(size.count(), 1);
    assert_eq!(size.to_string(), "1MiB");
}

#[test]
fn scaled_overflows() {
    assert_eq!(Unit::EiB.scaled(15).unwrap().to_bytes(), 15 << 60);
    assert_eq!(Unit::EiB.scaled(16), Err(SizeError::Overflow));
    assert_eq!(Unit::KB.scaled(u64::MAX), Err(SizeError::Overflow));
    assert_eq!(Unit::B.scaled(u64::MAX).unwrap().to_bytes(), u64::MAX);
}
