//! The fifth title's four releases: their ROM identities, expected save
//! identities, and the compatibility rule a save must meet before a match.

use vstd::prelude::*;

verus! {

#[derive(PartialEq, Eq, Structural, Debug, Clone, Copy)]
pub enum Region {
    US,
    JP,
}

#[derive(PartialEq, Eq, Structural, Debug, Clone, Copy)]
pub enum Variant {
    Protoman,
    Colonel,
}

#[derive(PartialEq, Eq, Structural, Debug, Clone, Copy)]
pub struct GameInfo {
    pub region: Region,
    pub variant: Variant,
}

/// The four releases of the title.
#[derive(PartialEq, Eq, Structural, Debug, Clone, Copy)]
pub enum GameKind {
    Exe5B,
    Exe5C,
    Bn5P,
    Bn5C,
}

/// The save identity each release requires.
pub open spec fn spec_expected_game_info(kind: GameKind) -> GameInfo {
    match kind {
        GameKind::Exe5B => GameInfo { region: Region::JP, variant: Variant::Protoman },
        GameKind::Exe5C => GameInfo { region: Region::JP, variant: Variant::Colonel },
        GameKind::Bn5P => GameInfo { region: Region::US, variant: Variant::Protoman },
        GameKind::Bn5C => GameInfo { region: Region::US, variant: Variant::Colonel },
    }
}

pub fn expected_game_info(kind: GameKind) -> (r: GameInfo)
    ensures
        r == spec_expected_game_info(kind),
{
    match kind {
        GameKind::Exe5B => GameInfo { region: Region::JP, variant: Variant::Protoman },
        GameKind::Exe5C => GameInfo { region: Region::JP, variant: Variant::Colonel },
        GameKind::Bn5P => GameInfo { region: Region::US, variant: Variant::Protoman },
        GameKind::Bn5C => GameInfo { region: Region::US, variant: Variant::Colonel },
    }
}

/// A parsed save is accepted for a release exactly when its identity is the
/// release's expected one; matches never start on an incompatible save.
pub fn save_compatible(kind: GameKind, info: GameInfo) -> (r: bool)
    ensures
        r <==> info == spec_expected_game_info(kind),
{
    let expected = expected_game_info(kind);
    let region_ok = match (info.region, expected.region) {
        (Region::US, Region::US) => true,
        (Region::JP, Region::JP) => true,
        _ => false,
    };
    let variant_ok = match (info.variant, expected.variant) {
        (Variant::Protoman, Variant::Protoman) => true,
        (Variant::Colonel, Variant::Colonel) => true,
        _ => false,
    };
    region_ok && variant_ok
}

/// The four-byte ROM code and revision of each release.
pub fn rom_code_and_revision(kind: GameKind) -> (r: ([u8; 4], u8))
    ensures
        r.1 == 0,
{
    match kind {
        GameKind::Exe5B => ([0x42u8, 0x52u8, 0x42u8, 0x4au8], 0),
        GameKind::Exe5C => ([0x42u8, 0x52u8, 0x4bu8, 0x4au8], 0),
        GameKind::Bn5P => ([0x42u8, 0x52u8, 0x42u8, 0x45u8], 0),
        GameKind::Bn5C => ([0x42u8, 0x52u8, 0x4bu8, 0x45u8], 0),
    }
}

/// The family name and variant index of each release.
pub fn family_and_variant(kind: GameKind) -> (r: (&'static str, u8))
    ensures
        r.1 == (match kind {
            GameKind::Exe5B => 0u8,
            GameKind::Exe5C => 1u8,
            GameKind::Bn5P => 0u8,
            GameKind::Bn5C => 1u8,
        }),
{
    match kind {
        GameKind::Exe5B => ("exe5", 0),
        GameKind::Exe5C => ("exe5", 1),
        GameKind::Bn5P => ("bn5", 0),
        GameKind::Bn5C => ("bn5", 1),
    }
}

/// The language each release is published in, as a language tag.
pub fn language(kind: GameKind) -> (r: &'static str)
    ensures
        (match kind {
            GameKind::Exe5B | GameKind::Exe5C => r@ == "ja-JP"@,
            GameKind::Bn5P | GameKind::Bn5C => r@ == "en-US"@,
        }),
{
    match kind {
        GameKind::Exe5B => "ja-JP",
        GameKind::Exe5C => "ja-JP",
        GameKind::Bn5P => "en-US",
        GameKind::Bn5C => "en-US",
    }
}

/// The CRC of the release's known-good ROM image.
pub open spec fn spec_expected_crc32(kind: GameKind) -> u32 {
    match kind {
        GameKind::Exe5B => 0xc73f23c0,
        GameKind::Exe5C => 0x16842635,
        GameKind::Bn5P => 0xa73e83a4,
        GameKind::Bn5C => 0xa552f683,
    }
}

pub fn expected_crc32(kind: GameKind) -> (r: u32)
    ensures
        r == spec_expected_crc32(kind),
{
    match kind {
        GameKind::Exe5B => 0xc73f23c0,
        GameKind::Exe5C => 0x16842635,
        GameKind::Bn5P => 0xa73e83a4,
        GameKind::Bn5C => 0xa552f683,
    }
}

/// The player counts of the release's match types.
pub fn match_types(_kind: GameKind) -> (r: Vec<usize>)
    ensures
        r@ == seq![2usize, 2usize],
{
    let r: Vec<usize> = vec![2, 2];
    proof {
        assert(r@ =~= seq![2usize, 2usize]);
    }
    r
}

} // verus!
