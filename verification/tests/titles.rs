use tango::bn5;
use tango::{EngineConfig, Theme};

#[test]
fn bn5_releases_expect_their_own_saves() {
    let protoman_jp = bn5::GameInfo { region: bn5::Region::JP, variant: bn5::Variant::Protoman };
    assert!(bn5::save_compatible(bn5::GameKind::Exe5B, protoman_jp));
    assert!(!bn5::save_compatible(bn5::GameKind::Exe5C, protoman_jp));
    assert!(!bn5::save_compatible(bn5::GameKind::Bn5P, protoman_jp));
    let colonel_us = bn5::GameInfo { region: bn5::Region::US, variant: bn5::Variant::Colonel };
    assert!(bn5::save_compatible(bn5::GameKind::Bn5C, colonel_us));
    assert!(!bn5::save_compatible(bn5::GameKind::Bn5P, colonel_us));
}

#[test]
fn bn5_release_metadata() {
    let (code, rev) = bn5::rom_code_and_revision(bn5::GameKind::Exe5B);
    assert_eq!(&code, b"BRBJ");
    assert_eq!(rev, 0);
    let (code, _) = bn5::rom_code_and_revision(bn5::GameKind::Bn5C);
    assert_eq!(&code, b"BRKE");
    assert_eq!(bn5::family_and_variant(bn5::GameKind::Exe5B), ("exe5", 0));
    assert_eq!(bn5::family_and_variant(bn5::GameKind::Bn5C), ("bn5", 1));
    assert_eq!(bn5::language(bn5::GameKind::Exe5C), "ja-JP");
    assert_eq!(bn5::language(bn5::GameKind::Bn5P), "en-US");
    assert_eq!(bn5::expected_crc32(bn5::GameKind::Exe5B), 0xc73f23c0);
    assert_eq!(bn5::expected_crc32(bn5::GameKind::Exe5C), 0x16842635);
    assert_eq!(bn5::expected_crc32(bn5::GameKind::Bn5P), 0xa73e83a4);
    assert_eq!(bn5::expected_crc32(bn5::GameKind::Bn5C), 0xa552f683);
    assert_eq!(bn5::match_types(bn5::GameKind::Bn5P), vec![2, 2]);
}

#[test]
fn engine_defaults() {
    let config = EngineConfig::system_defaults();
    assert_eq!(config.max_queue_length, 1200);
    assert_eq!(config.default_input_delay, 2);
    assert_eq!(config.default_match_type, 1);
    assert_eq!(config.nominal_tps, 60);
    assert_eq!(tango::config::system_default_theme(), Theme::Light);
}
