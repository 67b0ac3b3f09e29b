use tango::save::{chip_code_index, compute_save_raw_checksum, mask_save, PatchCard, SaveError};
use tango::{bn4, bn6, exe45};

fn raw_checksum(buf: &[u8], checksum_offset: usize) -> u32 {
    let mut sum: u32 = 0;
    for (i, b) in buf.iter().enumerate() {
        if i < checksum_offset || i >= checksum_offset + 4 {
            sum += *b as u32;
        }
    }
    sum
}

fn write_u32(buf: &mut [u8], off: usize, v: u32) {
    buf[off..off + 4].copy_from_slice(&v.to_le_bytes());
}

fn bn4_image(first_byte: u8, start: u32, jp_adjust: bool) -> Vec<u8> {
    let mut buf = vec![0u8; bn4::SAVE_SIZE];
    buf[0] = first_byte;
    // A zero mask word leaves the buffer unchanged by unmasking.
    write_u32(&mut buf, bn4::MASK_OFFSET, 0);
    write_u32(&mut buf, bn4::SHIFT_OFFSET, 0);
    buf[bn4::GAME_NAME_OFFSET..bn4::GAME_NAME_OFFSET + 20]
        .copy_from_slice(b"ROCKMANEXE4 20031022");
    // A chip in folder zero, slot zero: id 0x34, code index 1.
    buf[0x262c] = 0x34;
    buf[0x262d] = 0x02;
    // A navicust part in slot zero: id 2, variant 1.
    buf[0x4564] = 9;
    buf[0x4566] = 3;
    buf[0x4567] = 4;
    buf[0x4568] = 1;
    buf[0x4569] = 1;
    // Empty patch card slots in both banks, then a card in slot zero,
    // enabled.
    for i in 0..14 {
        buf[0x464c + i] = 0xff;
    }
    buf[0x464c] = 5;
    let raw = raw_checksum(&buf, bn4::CHECKSUM_OFFSET);
    let stored = if jp_adjust {
        raw - first_byte as u32 + start
    } else {
        raw + start
    };
    write_u32(&mut buf, bn4::CHECKSUM_OFFSET, stored);
    buf
}

#[test]
fn bn4_reads_red_sun_us() {
    let buf = bn4_image(1, 0x16, false);
    let save = bn4::Save::new(&buf).unwrap();
    assert_eq!(save.game_info().variant, bn4::Variant::RedSun);
    assert_eq!(save.game_info().region, bn4::Region { us: true, jp: false });
    assert_eq!(save.shift(), 0);
    assert_eq!(save.checksum(), save.compute_checksum());
}

#[test]
fn bn4_reads_blue_moon_jp() {
    // The stored checksum is below the raw one; the region-adjusted retry
    // recovers the variant and names the save as the other region's.
    let buf = bn4_image(0x30, 0x22, true);
    let save = bn4::Save::new(&buf).unwrap();
    assert_eq!(save.game_info().variant, bn4::Variant::BlueMoon);
    assert_eq!(save.game_info().region, bn4::Region { us: false, jp: true });
    assert_eq!(save.checksum(), save.compute_checksum());
}

#[test]
fn bn4_zero_first_byte_plays_both_regions() {
    let buf = bn4_image(0, 0x16, false);
    let save = bn4::Save::new(&buf).unwrap();
    assert_eq!(save.game_info().region, bn4::Region { us: true, jp: true });
}

#[test]
fn bn4_rejects_bad_input() {
    // Too small.
    match bn4::Save::new(&[0u8; 16]) {
        Err(SaveError::InvalidSize(n)) => assert_eq!(n, 16),
        other => panic!("expected a size error, got {:?}", other.is_ok()),
    }
    // An unaligned shift.
    let mut buf = bn4_image(1, 0x16, false);
    write_u32(&mut buf, bn4::SHIFT_OFFSET, 3);
    match bn4::Save::new(&buf) {
        Err(SaveError::InvalidShift(s)) => assert_eq!(s, 3),
        other => panic!("expected a shift error, got {:?}", other.is_ok()),
    }
    // A shift out of range.
    write_u32(&mut buf, bn4::SHIFT_OFFSET, 0x200);
    assert!(matches!(bn4::Save::new(&buf), Err(SaveError::InvalidShift(0x200))));
    // A foreign game name.
    let mut buf2 = bn4_image(1, 0x16, false);
    buf2[bn4::GAME_NAME_OFFSET] = b'X';
    assert!(matches!(bn4::Save::new(&buf2), Err(SaveError::InvalidGameName(_))));
    // A checksum naming no variant.
    let mut buf3 = bn4_image(1, 0x16, false);
    let raw = raw_checksum(&buf3, bn4::CHECKSUM_OFFSET);
    write_u32(&mut buf3, bn4::CHECKSUM_OFFSET, raw + 1);
    match bn4::Save::new(&buf3) {
        Err(SaveError::ChecksumMismatch { attempt, .. }) => assert_eq!(attempt, 0),
        other => panic!("expected a checksum error, got {:?}", other.is_ok()),
    }
}

#[test]
fn bn4_from_wram_trusts_identity() {
    let buf = bn4_image(1, 0x16, false);
    let info = bn4::GameInfo {
        variant: bn4::Variant::BlueMoon,
        region: bn4::Region { us: true, jp: false },
    };
    let save = bn4::Save::from_wram(&buf, info).unwrap();
    assert_eq!(*save.game_info(), info);
}

#[test]
fn bn4_rebuild_checksum_settles() {
    let buf = bn4_image(1, 0x16, false);
    let mut save = bn4::Save::new(&buf).unwrap();
    // Disturb the stored checksum, then rebuild it.
    save.buf[bn4::CHECKSUM_OFFSET] ^= 0xff;
    save.rebuild_checksum();
    assert_eq!(save.checksum(), save.compute_checksum());
}

#[test]
fn bn4_checksum_start_distinguishes_variants() {
    assert_eq!(bn4::checksum_start_for_variant(bn4::Variant::RedSun), 0x16);
    assert_eq!(bn4::checksum_start_for_variant(bn4::Variant::BlueMoon), 0x22);
    let buf = bn4_image(1, 0x16, false);
    let save = bn4::Save::new(&buf).unwrap();
    let raw = bn4::compute_raw_checksum(&save.buf, save.shift());
    assert_eq!(raw, raw_checksum(&buf, bn4::CHECKSUM_OFFSET));
}

#[test]
fn bn4_views_read_and_write() {
    let buf = bn4_image(1, 0x16, false);
    let mut save = bn4::Save::new(&buf).unwrap();
    {
        let chips = bn4::ChipsView { save: &save };
        assert_eq!(chips.num_folders(), 3);
        let chip = chips.chip(0, 0).unwrap();
        assert_eq!(chip.id, 0x34);
        assert_eq!(chip.code, 'B');
        assert_eq!(chips.chip(3, 0), None);
        assert_eq!(chips.chip(0, 30), None);
        assert_eq!(chips.tag_chip_indexes(0), None);
    }
    {
        let ncv = bn4::NavicustView { save: &save };
        assert_eq!((ncv.width(), ncv.height()), (5, 5));
        let part = ncv.navicust_part(0).unwrap();
        assert_eq!((part.id, part.variant), (2, 1));
        assert_eq!((part.col, part.row, part.rot), (3, 4, 1));
        assert!(part.compressed);
        assert_eq!(ncv.navicust_part(1), None);
        assert_eq!(ncv.navicust_part(25), None);
    }
    {
        let cards = bn4::PatchCard4sView { save: &save };
        let card = cards.patch_card(0).unwrap();
        assert_eq!((card.id, card.enabled), (5, true));
        assert_eq!(cards.patch_card(7), None);
        assert_eq!(cards.patch_card(1), None);
    }
    {
        let mut cards = bn4::PatchCard4sViewMut { save: &mut save };
        assert!(cards.set_patch_card(1, Some(PatchCard { id: 7, enabled: false })));
        assert!(!cards.set_patch_card(9, None));
        assert!(!cards.set_patch_card(1, Some(PatchCard { id: 0, enabled: true })));
    }
    {
        let cards = bn4::PatchCard4sView { save: &save };
        let card = cards.patch_card(1).unwrap();
        assert_eq!((card.id, card.enabled), (7, false));
    }
    {
        let mut ncv = bn4::NavicustViewMut { save: &mut save };
        let part = tango::save::NavicustPart {
            id: 3,
            variant: 2,
            col: 1,
            row: 2,
            rot: 0,
            compressed: false,
        };
        assert!(ncv.set_navicust_part(1, part));
        assert!(!ncv.set_navicust_part(25, part));
    }
    let ncv = bn4::NavicustView { save: &save };
    let part = ncv.navicust_part(1).unwrap();
    assert_eq!((part.id, part.variant), (3, 2));
}

fn bn6_image(name: &[u8; 20]) -> Vec<u8> {
    let mut window = vec![0u8; bn6::SRAM_SIZE];
    write_u32(&mut window, bn6::MASK_OFFSET, 0);
    window[bn6::GAME_NAME_OFFSET..bn6::GAME_NAME_OFFSET + 20].copy_from_slice(name);
    // Two folders, navi zero.
    window[0x1c09] = 2;
    window[0x1b81] = 0;
    // A chip in folder zero, slot zero: id 0x21, code index 0.
    window[0x2178] = 0x21;
    window[0x2179] = 0x00;
    // Three patch cards; slot zero holds card 9, disabled.
    window[0x65f0] = 3;
    window[0x6620] = 0x80 | 9;
    // Anticheat source bytes.
    for i in 0..118 {
        window[0x06bf + i] = i as u8;
    }
    let raw = raw_checksum(&window, bn6::CHECKSUM_OFFSET);
    write_u32(&mut window, bn6::CHECKSUM_OFFSET, raw + 0x72);
    let mut buf = vec![0u8; bn6::SRAM_START_OFFSET];
    buf.extend_from_slice(&window);
    buf.extend_from_slice(&[0u8; 64]);
    buf
}

#[test]
fn bn6_reads_gregar_us() {
    let buf = bn6_image(b"REXE6 G 20060110a US");
    let save = bn6::Save::new(&buf).unwrap();
    assert_eq!(save.game_info().variant, bn6::Variant::Gregar);
    assert_eq!(save.game_info().region, bn6::Region::US);
    assert_eq!(save.checksum(), save.compute_checksum());
}

#[test]
fn bn6_rejects_bad_input() {
    match bn6::Save::new(&[0u8; 100]) {
        Err(SaveError::InvalidSize(n)) => assert_eq!(n, 100),
        other => panic!("expected a size error, got {:?}", other.is_ok()),
    }
    let mut buf = bn6_image(b"REXE6 G 20060110a US");
    buf[bn6::SRAM_START_OFFSET + bn6::GAME_NAME_OFFSET] = b'Q';
    assert!(matches!(bn6::Save::new(&buf), Err(SaveError::InvalidGameName(_))));
    // The Falzar name with the Gregar constant: a checksum mismatch.
    let buf2 = bn6_image(b"REXE6 F 20060110a US");
    match bn6::Save::new(&buf2) {
        Err(SaveError::ChecksumMismatch { actual, expected, .. }) => {
            assert_eq!(expected.len(), 1);
            assert_ne!(actual, expected[0]);
        }
        other => panic!("expected a checksum error, got {:?}", other.is_ok()),
    }
}

#[test]
fn bn6_views_read_and_write() {
    let buf = bn6_image(b"REXE6 G 20060110a US");
    let mut save = bn6::Save::new(&buf).unwrap();
    {
        let chips = bn6::ChipsView { save: &save };
        assert_eq!(chips.num_folders(), 2);
        let chip = chips.chip(0, 0).unwrap();
        assert_eq!((chip.id, chip.code), (0x21, 'A'));
        assert_eq!(chips.chip(2, 0), None);
        assert_eq!(chips.pack_count(1, 0), Some(0));
    }
    {
        let cards = bn6::PatchCard56sView { save: &save };
        assert_eq!(cards.count(), 3);
        let card = cards.patch_card(0).unwrap();
        assert_eq!((card.id, card.enabled), (9, false));
        assert_eq!(cards.patch_card(3), None);
    }
    {
        let mut cards = bn6::PatchCard56sViewMut { save: &mut save };
        assert!(cards.set_patch_card(1, PatchCard { id: 4, enabled: true }));
        assert!(!cards.set_patch_card(3, PatchCard { id: 4, enabled: true }));
        cards.set_count(2);
    }
    {
        let cards = bn6::PatchCard56sView { save: &save };
        assert_eq!(cards.count(), 2);
        let card = cards.patch_card(1).unwrap();
        assert_eq!((card.id, card.enabled), (4, true));
    }
    {
        let navi = bn6::NaviView { save: &save };
        assert_eq!(navi.navi(), 0);
    }
    {
        let mut chips = bn6::ChipsViewMut { save: &mut save };
        assert!(chips.set_equipped_folder(1));
        assert!(!chips.set_equipped_folder(2));
        assert!(chips.set_chip(0, 1, tango::save::Chip { id: 0x55, code: 'C' }));
        assert!(!chips.set_chip(0, 1, tango::save::Chip { id: 0x55, code: '?' }));
        assert!(chips.set_regular_chip_index(0, 5));
        assert!(!chips.set_regular_chip_index(0, 30));
        assert!(chips.set_tag_chip_indexes(0, Some([1, 2])));
        assert!(!chips.set_tag_chip_indexes(0, Some([1, 30])));
        assert!(chips.set_tag_chip_indexes(1, None));
        assert!(chips.set_pack_count(1, 0, 42));
    }
    {
        let chips = bn6::ChipsView { save: &save };
        let chip = chips.chip(0, 1).unwrap();
        assert_eq!((chip.id, chip.code), (0x55, 'C'));
        assert_eq!(chips.pack_count(1, 0), Some(42));
        assert_eq!(chips.equipped_folder_index(), 1);
        assert_eq!(chips.regular_chip_index(0), Some(5));
        assert_eq!(chips.regular_chip_index(2), None);
        assert_eq!(chips.tag_chip_indexes(0), Some([1, 2]));
        assert_eq!(chips.tag_chip_indexes(1), None);
    }
    // The anticheat mirror is the card bytes XORed with the variant key.
    save.rebuild_patch_cards_anticheat();
    for i in 0..118usize {
        assert_eq!(save.buf[0x5047 + i], save.buf[0x06bf + i] ^ 0x43);
    }
    // Rebuilding the checksum settles it.
    save.rebuild_checksum();
    assert_eq!(save.checksum(), save.compute_checksum());
}

fn exe45_image() -> Vec<u8> {
    let mut buf = vec![0u8; exe45::SAVE_SIZE];
    write_u32(&mut buf, exe45::MASK_OFFSET, 0);
    buf[exe45::GAME_NAME_OFFSET..exe45::GAME_NAME_OFFSET + 20]
        .copy_from_slice(b"ROCKMANEXE4RO 040607");
    buf[0x4ad1] = 1;
    // Navi one's folder, slot zero: id 3, code index 2.
    let off = 0x7500 + 60;
    buf[off] = 0x03;
    buf[off + 1] = 0x04;
    let raw = raw_checksum(&buf, exe45::CHECKSUM_OFFSET);
    write_u32(&mut buf, exe45::CHECKSUM_OFFSET, raw + 0x38);
    buf
}

#[test]
fn exe45_reads_save() {
    let buf = exe45_image();
    let save = exe45::Save::new(&buf).unwrap();
    assert_eq!(save.current_navi(), 1);
    assert_eq!(save.checksum(), save.compute_checksum());
    let chips = exe45::ChipsView { save: &save };
    assert_eq!(chips.num_folders(), 1);
    let chip = chips.chip(0, 0).unwrap();
    assert_eq!((chip.id, chip.code), (3, 'C'));
    let navi = exe45::NaviView { save: &save };
    assert_eq!(navi.navi(), 1);
}

#[test]
fn exe45_rejects_bad_input() {
    assert!(matches!(exe45::Save::new(&[0u8; 4]), Err(SaveError::InvalidSize(4))));
    let mut buf = exe45_image();
    buf[exe45::GAME_NAME_OFFSET] = b'Z';
    assert!(matches!(exe45::Save::new(&buf), Err(SaveError::InvalidGameName(_))));
    let mut buf2 = exe45_image();
    let raw = raw_checksum(&buf2, exe45::CHECKSUM_OFFSET);
    write_u32(&mut buf2, exe45::CHECKSUM_OFFSET, raw);
    assert!(matches!(exe45::Save::new(&buf2), Err(SaveError::ChecksumMismatch { .. })));
}

#[test]
fn masking_is_involutive() {
    // A nonzero mask scrambles every byte but the mask word; applying it
    // twice restores the original.
    let mut buf: Vec<u8> = (0u8..=255).cycle().take(512).collect();
    write_u32(&mut buf, 64, 0xaa);
    let original = buf.clone();
    mask_save(&mut buf, 64);
    assert_ne!(buf, original);
    assert_eq!(&buf[64..68], &original[64..68]);
    mask_save(&mut buf, 64);
    assert_eq!(buf, original);
}

#[test]
fn raw_checksum_skips_its_own_window() {
    let mut buf = vec![1u8; 64];
    let before = compute_save_raw_checksum(&buf, 16);
    // Changing the checksum bytes does not change the raw checksum.
    buf[16] = 0xff;
    buf[19] = 0xff;
    assert_eq!(compute_save_raw_checksum(&buf, 16), before);
    assert_eq!(before, 60);
}

#[test]
fn chip_codes_index_the_alphabet() {
    assert_eq!(chip_code_index('A'), Some(0));
    assert_eq!(chip_code_index('Z'), Some(25));
    assert_eq!(chip_code_index('*'), Some(26));
    assert_eq!(chip_code_index('?'), None);
}

#[test]
fn bn4_sram_dump_round_trips() {
    // Dumping re-applies the mask; reading the dump recovers the same save.
    let buf = bn4_image(1, 0x16, false);
    let save = bn4::Save::new(&buf).unwrap();
    let dump = save.to_sram_dump();
    assert_eq!(dump.len(), 0x10000);
    let reread = bn4::Save::new(&dump).unwrap();
    assert_eq!(reread.as_raw_wram(), save.as_raw_wram());
    assert_eq!(reread.game_info(), save.game_info());
}

#[test]
fn bn4_auto_battle_counts() {
    let buf = bn4_image(1, 0x16, false);
    let mut save = bn4::Save::new(&buf).unwrap();
    {
        let mut abd = bn4::AutoBattleDataViewMut { save: &mut save };
        assert!(abd.set_chip_use_count(7, 513));
        assert!(abd.set_secondary_chip_use_count(7, 9));
        assert!(!abd.set_chip_use_count(bn4::NUM_CHIPS, 1));
    }
    let abd = bn4::AutoBattleDataView { save: &save };
    assert_eq!(abd.chip_use_count(7), Some(513));
    assert_eq!(abd.secondary_chip_use_count(7), Some(9));
    assert_eq!(abd.chip_use_count(bn4::NUM_CHIPS), None);
    assert_eq!(abd.chip_use_count(0), Some(0));
}

#[test]
fn bn6_sram_dump_and_rebuild_round_trip() {
    let buf = bn6_image(b"REXE6 G 20060110a US");
    let mut save = bn6::Save::new(&buf).unwrap();
    // Mutate the save, rebuild its derived regions, and round-trip the dump.
    {
        let mut cards = bn6::PatchCard56sViewMut { save: &mut save };
        cards.set_count(1);
    }
    save.rebuild();
    assert_eq!(save.checksum(), save.compute_checksum());
    let dump = save.to_vec();
    assert_eq!(dump.len(), 0x10000);
    let reread = bn6::Save::new(&dump).unwrap();
    assert_eq!(reread.as_raw_wram(), save.as_raw_wram());
}

#[test]
fn bn6_precomposed_grid() {
    let mut buf = bn6_image(b"REXE6 G 20060110a US");
    // The US composed grid starts at 0x414c inside the window: cell zero
    // holds part index 2, cell one is empty.
    buf[bn6::SRAM_START_OFFSET + 0x414c] = 3;
    let window_start = bn6::SRAM_START_OFFSET;
    let raw = raw_checksum(&buf[window_start..window_start + bn6::SRAM_SIZE], bn6::CHECKSUM_OFFSET);
    write_u32(&mut buf, window_start + bn6::CHECKSUM_OFFSET, raw + 0x72);
    let save = bn6::Save::new(&buf).unwrap();
    let ncv = bn6::NavicustView { save: &save };
    let grid = ncv.precomposed();
    assert_eq!((grid.width, grid.height), (7, 7));
    assert_eq!(grid.cells.len(), 49);
    assert_eq!(grid.cells[0], Some(2));
    assert_eq!(grid.cells[1], None);
}

#[test]
fn exe45_sram_dump_and_rebuild() {
    let buf = exe45_image();
    let mut save = exe45::Save::new(&buf).unwrap();
    save.buf[exe45::CHECKSUM_OFFSET] ^= 0x55;
    save.rebuild_checksum();
    assert_eq!(save.checksum(), save.compute_checksum());
    let dump = save.to_sram_dump();
    assert_eq!(dump.len(), 0x10000);
    let reread = exe45::Save::new(&dump).unwrap();
    assert_eq!(reread.current_navi(), 1);
}

#[test]
fn bn4_clear_materialized_regions() {
    let buf = bn4_image(1, 0x16, false);
    let mut save = bn4::Save::new(&buf).unwrap();
    {
        let mut ncv = bn4::NavicustViewMut { save: &mut save };
        ncv.clear_materialized();
    }
    for k in 0..0x24usize {
        assert_eq!(save.buf[0x4540 + k], 0);
    }
    {
        let mut abd = bn4::AutoBattleDataViewMut { save: &mut save };
        abd.clear_materialized();
    }
    for k in 0..84usize {
        assert_eq!(save.buf[0x5064 + k], 0xff);
    }
}

#[test]
fn bn6_patch_cards_gated_by_region() {
    let us = bn6::Save::new(&bn6_image(b"REXE6 G 20060110a US")).unwrap();
    assert!(us.view_patch_cards().is_none());
    let jp = bn6::Save::new(&bn6_image(b"REXE6 G 20050924a JP")).unwrap();
    assert!(jp.view_patch_cards().is_some());
    let mut jp = jp;
    assert!(jp.view_patch_cards_mut().is_some());
}
