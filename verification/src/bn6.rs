//! The sixth title's save layout: an SRAM window with a masked buffer, four
//! stored game names naming region and variant, and a per-variant checksum
//! constant.

use vstd::prelude::*;

use crate::bytes::{le16, le32, le32_bytes, read_u16_le, read_u32_le};
use crate::save::{
    bytes_match, chip_code_char, compute_save_raw_checksum, copy_range, decode_chip, mask_save,
    masked, spec_raw_checksum, Chip, NavicustPart, PatchCard, SaveError,
};

verus! {

pub const SRAM_START_OFFSET: usize = 0x0100;

pub const SRAM_SIZE: usize = 0x6710;

pub const MASK_OFFSET: usize = 0x1064;

pub const GAME_NAME_OFFSET: usize = 0x1c70;

pub const CHECKSUM_OFFSET: usize = 0x1c6c;

pub const NUM_CHIPS: usize = 411;

#[derive(PartialEq, Eq, Structural, Debug, Clone, Copy)]
pub enum Region {
    US,
    JP,
}

#[derive(PartialEq, Eq, Structural, Debug, Clone, Copy)]
pub enum Variant {
    Gregar,
    Falzar,
}

#[derive(PartialEq, Eq, Structural, Debug, Clone, Copy)]
pub struct GameInfo {
    pub region: Region,
    pub variant: Variant,
}

/// The checksum constant the title adds for each variant.
pub open spec fn spec_checksum_start(variant: Variant) -> u32 {
    match variant {
        Variant::Gregar => 0x72,
        Variant::Falzar => 0x18,
    }
}

/// The per-variant byte the patch-card anticheat mirror is XORed with.
pub open spec fn spec_anticheat_key(variant: Variant) -> u8 {
    match variant {
        Variant::Gregar => 0x43,
        Variant::Falzar => 0x8d,
    }
}

/// The four stored game names and the identity each one names.
pub open spec fn spec_name_info(name: Seq<u8>) -> Option<GameInfo> {
    if name == spec_game_name(Region::JP, Variant::Gregar) {
        Some(GameInfo { region: Region::JP, variant: Variant::Gregar })
    } else if name == spec_game_name(Region::JP, Variant::Falzar) {
        Some(GameInfo { region: Region::JP, variant: Variant::Falzar })
    } else if name == spec_game_name(Region::US, Variant::Gregar) {
        Some(GameInfo { region: Region::US, variant: Variant::Gregar })
    } else if name == spec_game_name(Region::US, Variant::Falzar) {
        Some(GameInfo { region: Region::US, variant: Variant::Falzar })
    } else {
        None
    }
}

/// The stored game name a given region and variant write.
pub open spec fn spec_game_name(region: Region, variant: Variant) -> Seq<u8> {
    seq![
        0x52u8,
        0x45u8,
        0x58u8,
        0x45u8,
        0x36u8,
        0x20u8,
        if variant == Variant::Gregar {
            0x47u8
        } else {
            0x46u8
        },
        0x20u8,
        0x32u8,
        0x30u8,
        0x30u8,
        if region == Region::JP {
            0x35u8
        } else {
            0x36u8
        },
        0x30u8,
        if region == Region::JP {
            0x39u8
        } else {
            0x31u8
        },
        if region == Region::JP {
            0x32u8
        } else {
            0x31u8
        },
        if region == Region::JP {
            0x34u8
        } else {
            0x30u8
        },
        0x61u8,
        0x20u8,
        if region == Region::JP {
            0x4au8
        } else {
            0x55u8
        },
        if region == Region::JP {
            0x50u8
        } else {
            0x53u8
        },
    ]
}

fn game_name_bytes(region: Region, variant: Variant) -> (r: Vec<u8>)
    ensures
        r@ == spec_game_name(region, variant),
{
    let g: u8 = match variant {
        Variant::Gregar => 0x47,
        Variant::Falzar => 0x46,
    };
    let jp = match region {
        Region::JP => true,
        Region::US => false,
    };
    let r: Vec<u8> = vec![
        0x52u8,
        0x45u8,
        0x58u8,
        0x45u8,
        0x36u8,
        0x20u8,
        g,
        0x20u8,
        0x32u8,
        0x30u8,
        0x30u8,
        if jp {
            0x35u8
        } else {
            0x36u8
        },
        0x30u8,
        if jp {
            0x39u8
        } else {
            0x31u8
        },
        if jp {
            0x32u8
        } else {
            0x31u8
        },
        if jp {
            0x34u8
        } else {
            0x30u8
        },
        0x61u8,
        0x20u8,
        if jp {
            0x4au8
        } else {
            0x55u8
        },
        if jp {
            0x50u8
        } else {
            0x53u8
        },
    ];
    proof {
        assert(r@ =~= spec_game_name(region, variant));
    }
    r
}

/// A validated save: the masked SRAM window and the identity its stored game
/// name declares.
pub struct Save {
    pub buf: Vec<u8>,
    pub game_info: GameInfo,
}

impl Save {
    pub open spec fn wf(self) -> bool {
        self.buf@.len() == SRAM_SIZE
    }

    /// What the stored checksum should be for this buffer and variant.
    pub open spec fn spec_computed_checksum(self) -> int {
        spec_raw_checksum(self.buf@, CHECKSUM_OFFSET as int) + spec_checksum_start(
            self.game_info.variant,
        )
    }

    /// The identity named by the game name of a masked SRAM window.
    pub open spec fn spec_info_of(m: Seq<u8>) -> Option<GameInfo> {
        spec_name_info(m.subrange(GAME_NAME_OFFSET as int, GAME_NAME_OFFSET + 20))
    }

    /// Reads and validates a stored save: the SRAM window is cut out and
    /// unmasked, the game name names region and variant, and the stored
    /// checksum must equal the computed one.
    pub fn new(buf: &[u8]) -> (r: Result<Save, SaveError>)
        ensures
            match r {
                Ok(s) => {
                    &&& s.wf()
                    &&& buf@.len() >= SRAM_START_OFFSET + SRAM_SIZE
                    &&& s.buf@ == masked(
                        buf@.subrange(
                            SRAM_START_OFFSET as int,
                            SRAM_START_OFFSET + SRAM_SIZE,
                        ),
                        MASK_OFFSET as int,
                    )
                    &&& Some(s.game_info) == Self::spec_info_of(s.buf@)
                    &&& le32(s.buf@.subrange(CHECKSUM_OFFSET as int, CHECKSUM_OFFSET + 4))
                        == s.spec_computed_checksum()
                },
                Err(SaveError::InvalidSize(n)) => {
                    &&& buf@.len() < SRAM_START_OFFSET + SRAM_SIZE
                    &&& n == buf@.len()
                },
                Err(SaveError::InvalidGameName(v)) => {
                    &&& buf@.len() >= SRAM_START_OFFSET + SRAM_SIZE
                    &&& v@ == masked(
                        buf@.subrange(
                            SRAM_START_OFFSET as int,
                            SRAM_START_OFFSET + SRAM_SIZE,
                        ),
                        MASK_OFFSET as int,
                    ).subrange(GAME_NAME_OFFSET as int, GAME_NAME_OFFSET + 20)
                    &&& Self::spec_info_of(
                        masked(
                            buf@.subrange(
                                SRAM_START_OFFSET as int,
                                SRAM_START_OFFSET + SRAM_SIZE,
                            ),
                            MASK_OFFSET as int,
                        ),
                    ) is None
                },
                Err(SaveError::ChecksumMismatch { expected, actual, shift, attempt }) => {
                    let m = masked(
                        buf@.subrange(
                            SRAM_START_OFFSET as int,
                            SRAM_START_OFFSET + SRAM_SIZE,
                        ),
                        MASK_OFFSET as int,
                    );
                    &&& buf@.len() >= SRAM_START_OFFSET + SRAM_SIZE
                    &&& Self::spec_info_of(m) is Some
                    &&& actual == le32(m.subrange(CHECKSUM_OFFSET as int, CHECKSUM_OFFSET + 4))
                    &&& expected@.len() == 1
                    &&& expected@[0] == spec_raw_checksum(m, CHECKSUM_OFFSET as int)
                        + spec_checksum_start(Self::spec_info_of(m)->0.variant)
                    &&& actual != expected@[0]
                    &&& shift == 0 && attempt == 0
                },
                _ => false,
            },
    {
        if buf.len() < SRAM_START_OFFSET + SRAM_SIZE {
            return Err(SaveError::InvalidSize(buf.len()));
        }
        let mut b = copy_range(buf, SRAM_START_OFFSET, SRAM_SIZE);
        mask_save(&mut b, MASK_OFFSET);
        let game_info = if bytes_match(
            b.as_slice(),
            GAME_NAME_OFFSET,
            game_name_bytes(Region::JP, Variant::Gregar).as_slice(),
        ) {
            GameInfo { region: Region::JP, variant: Variant::Gregar }
        } else if bytes_match(
            b.as_slice(),
            GAME_NAME_OFFSET,
            game_name_bytes(Region::JP, Variant::Falzar).as_slice(),
        ) {
            GameInfo { region: Region::JP, variant: Variant::Falzar }
        } else if bytes_match(
            b.as_slice(),
            GAME_NAME_OFFSET,
            game_name_bytes(Region::US, Variant::Gregar).as_slice(),
        ) {
            GameInfo { region: Region::US, variant: Variant::Gregar }
        } else if bytes_match(
            b.as_slice(),
            GAME_NAME_OFFSET,
            game_name_bytes(Region::US, Variant::Falzar).as_slice(),
        ) {
            GameInfo { region: Region::US, variant: Variant::Falzar }
        } else {
            let seen = copy_range(b.as_slice(), GAME_NAME_OFFSET, 20);
            return Err(SaveError::InvalidGameName(seen));
        };
        let save = Save { buf: b, game_info };
        let computed = save.compute_checksum();
        let stored = save.checksum();
        if stored != computed {
            return Err(
                SaveError::ChecksumMismatch {
                    actual: stored,
                    expected: vec![computed],
                    shift: 0,
                    attempt: 0,
                },
            );
        }
        Ok(save)
    }

    /// Accepts working memory as a save: unmasked, identity supplied by the
    /// caller.
    pub fn from_wram(buf: &[u8], game_info: GameInfo) -> (r: Result<Save, SaveError>)
        ensures
            match r {
                Ok(s) => {
                    &&& s.wf()
                    &&& buf@.len() >= SRAM_SIZE
                    &&& s.buf@ == buf@.subrange(0, SRAM_SIZE as int)
                    &&& s.game_info == game_info
                },
                Err(SaveError::InvalidSize(n)) => buf@.len() < SRAM_SIZE && n == buf@.len(),
                _ => false,
            },
    {
        if buf.len() < SRAM_SIZE {
            return Err(SaveError::InvalidSize(buf.len()));
        }
        Ok(Save { buf: copy_range(buf, 0, SRAM_SIZE), game_info })
    }

    pub fn game_info(&self) -> (r: &GameInfo)
        ensures
            r == self.game_info,
    {
        &self.game_info
    }

    /// The checksum stored in the save.
    pub fn checksum(&self) -> (r: u32)
        requires
            self.wf(),
        ensures
            r == le32(self.buf@.subrange(CHECKSUM_OFFSET as int, CHECKSUM_OFFSET + 4)),
    {
        read_u32_le(self.buf.as_slice(), CHECKSUM_OFFSET)
    }

    /// Recomputes the checksum from the buffer and the variant.
    pub fn compute_checksum(&self) -> (r: u32)
        requires
            self.wf(),
        ensures
            r == self.spec_computed_checksum(),
    {
        proof {
            crate::save::lemma_raw_checksum_covers_first(self.buf@, CHECKSUM_OFFSET as int);
            crate::save::lemma_byte_sum_bounds(self.buf@);
            crate::save::lemma_byte_sum_bounds(
                self.buf@.subrange(CHECKSUM_OFFSET as int, CHECKSUM_OFFSET + 4),
            );
        }
        let raw = compute_save_raw_checksum(self.buf.as_slice(), CHECKSUM_OFFSET);
        let start: u32 = match self.game_info.variant {
            Variant::Gregar => 0x72,
            Variant::Falzar => 0x18,
        };
        raw + start
    }

    /// Where the selected navi's battle statistics live: region-dependent,
    /// with one stride for every navi but the first.
    pub open spec fn spec_navi_stats_offset(self, id: int) -> int {
        (if self.game_info.region == Region::JP {
            0x478cint
        } else {
            0x47ccint
        }) + 0x64 * (if id == 0 {
            0int
        } else {
            1int
        })
    }

    fn navi_stats_offset(&self, id: usize) -> (r: usize)
        ensures
            r == self.spec_navi_stats_offset(id as int),
            0x478c <= r <= 0x4830,
    {
        let base: usize = match self.game_info.region {
            Region::JP => 0x478c,
            Region::US => 0x47cc,
        };
        if id == 0 {
            base
        } else {
            base + 0x64
        }
    }

    /// Rebuilds the patch-card anticheat mirror: each of its bytes is the
    /// matching card byte XORed with the variant's key.
    pub fn rebuild_patch_cards_anticheat(&mut self)
        requires
            old(self).wf(),
        ensures
            final(self).wf(),
            final(self).game_info == old(self).game_info,
            forall|k: int|
                0x5047 <= k < 0x5047 + 118 ==> final(self).buf@[k] == (old(self).buf@[k - 0x5047
                    + 0x06bf] ^ spec_anticheat_key(old(self).game_info.variant)),
            forall|k: int|
                0 <= k < SRAM_SIZE && !(0x5047 <= k < 0x5047 + 118) ==> final(self).buf@[k] == old(
                    self,
                ).buf@[k],
    {
        let key: u8 = match self.game_info.variant {
            Variant::Gregar => 0x43,
            Variant::Falzar => 0x8d,
        };
        let mut id: usize = 0;
        while id < 118
            invariant
                id <= 118,
                self.buf@.len() == SRAM_SIZE,
                self.game_info == old(self).game_info,
                key == spec_anticheat_key(old(self).game_info.variant),
                forall|k: int|
                    0x5047 <= k < 0x5047 + id ==> self.buf@[k] == (old(self).buf@[k - 0x5047
                        + 0x06bf] ^ key),
                forall|k: int|
                    0 <= k < SRAM_SIZE && !(0x5047 <= k < 0x5047 + id) ==> self.buf@[k] == old(
                        self,
                    ).buf@[k],
            decreases 118 - id,
        {
            let b = self.buf[0x06bf + id];
            self.buf[0x5047 + id] = b ^ key;
            id = id + 1;
        }
    }

    /// Stores the computed checksum back into the buffer.
    pub fn rebuild_checksum(&mut self)
        requires
            old(self).wf(),
        ensures
            final(self).wf(),
            final(self).game_info == old(self).game_info,
            final(self).buf@.subrange(CHECKSUM_OFFSET as int, CHECKSUM_OFFSET + 4) == le32_bytes(
                old(self).spec_computed_checksum() as u32,
            ),
            forall|k: int|
                0 <= k < SRAM_SIZE && !(CHECKSUM_OFFSET <= k < CHECKSUM_OFFSET + 4) ==> final(self).buf@[k] == old(self).buf@[k],
    {
        let ck = self.compute_checksum();
        self.buf[CHECKSUM_OFFSET] = (ck & 0xff) as u8;
        self.buf[CHECKSUM_OFFSET + 1] = ((ck >> 8) & 0xff) as u8;
        self.buf[CHECKSUM_OFFSET + 2] = ((ck >> 16) & 0xff) as u8;
        self.buf[CHECKSUM_OFFSET + 3] = ((ck >> 24) & 0xff) as u8;
        proof {
            assert(final(self).buf@.subrange(CHECKSUM_OFFSET as int, CHECKSUM_OFFSET + 4)
                =~= le32_bytes(old(self).spec_computed_checksum() as u32));
        }
    }

    /// The raw working-memory bytes of the save.
    pub fn as_raw_wram(&self) -> (r: &Vec<u8>)
        ensures
            r@ == self.buf@,
    {
        &self.buf
    }

    /// A full SRAM dump of this save: its bytes re-masked at the SRAM window
    /// of a `0x10000`-byte image.
    pub fn to_vec(&self) -> (r: Vec<u8>)
        requires
            self.wf(),
        ensures
            r@.len() == 0x10000,
            r@.subrange(SRAM_START_OFFSET as int, SRAM_START_OFFSET + SRAM_SIZE) == masked(
                self.buf@,
                MASK_OFFSET as int,
            ),
            forall|k: int| 0 <= k < SRAM_START_OFFSET ==> r@[k] == 0,
            forall|k: int| SRAM_START_OFFSET + SRAM_SIZE <= k < 0x10000 ==> r@[k] == 0,
    {
        crate::save::sram_dump(self.buf.as_slice(), SRAM_START_OFFSET, MASK_OFFSET)
    }

    /// Rebuilds the derived regions: the anticheat mirror, then the checksum.
    pub fn rebuild(&mut self)
        requires
            old(self).wf(),
        ensures
            final(self).wf(),
            final(self).game_info == old(self).game_info,
            le32(final(self).buf@.subrange(CHECKSUM_OFFSET as int, CHECKSUM_OFFSET + 4))
                == final(self).spec_computed_checksum(),
    {
        self.rebuild_patch_cards_anticheat();
        let ghost mid = self.buf@;
        self.rebuild_checksum();
        proof {
            crate::save::lemma_raw_checksum_ignores_window(
                mid,
                final(self).buf@,
                CHECKSUM_OFFSET as int,
            );
            crate::save::lemma_byte_sum_bounds(mid);
            crate::save::lemma_byte_sum_bounds(
                mid.subrange(CHECKSUM_OFFSET as int, CHECKSUM_OFFSET + 4),
            );
            crate::save::lemma_raw_checksum_covers_first(mid, CHECKSUM_OFFSET as int);
            crate::bytes::lemma_le32_round_trip(final(self).spec_computed_checksum() as u32);
        }
    }
}

impl Save {
    /// The patch-card surface exists only on the region that ships patch
    /// cards.
    pub fn view_patch_cards(&self) -> (r: Option<PatchCard56sView>)
        ensures
            r is Some <==> self.game_info.region == Region::JP,
    {
        match self.game_info.region {
            Region::JP => Some(PatchCard56sView { save: self }),
            Region::US => None,
        }
    }

    /// The writable patch-card surface, on the same region gate.
    pub fn view_patch_cards_mut(&mut self) -> (r: Option<PatchCard56sViewMut>)
        ensures
            r is Some <==> old(self).game_info.region == Region::JP,
    {
        match self.game_info.region {
            Region::JP => Some(PatchCard56sViewMut { save: self }),
            Region::US => None,
        }
    }
}

/// Read-only access to the chip folders.
pub struct ChipsView<'a> {
    pub save: &'a Save,
}

impl<'a> ChipsView<'a> {
    pub fn num_folders(&self) -> (r: usize)
        requires
            self.save.wf(),
        ensures
            r == self.save.buf@[0x1c09],
    {
        self.save.buf[0x1c09] as usize
    }

    /// The folder the selected navi has equipped.
    pub fn equipped_folder_index(&self) -> (r: usize)
        requires
            self.save.wf(),
        ensures
            r == self.save.buf@[self.save.spec_navi_stats_offset(self.save.buf@[0x1b81] as int)
                + 0x2d],
    {
        let navi = self.save.buf[0x1b81] as usize;
        let off = self.save.navi_stats_offset(navi);
        self.save.buf[off + 0x2d] as usize
    }

    /// The folder's regular chip slot, if one is set.
    pub fn regular_chip_index(&self, folder_index: usize) -> (r: Option<usize>)
        requires
            self.save.wf(),
            folder_index < 30,
        ensures
            ({
                let navi = self.save.buf@[0x1b81] as int;
                let idx = self.save.buf@[self.save.spec_navi_stats_offset(navi) + 0x2e
                    + folder_index];
                if folder_index >= self.save.buf@[0x1c09] {
                    r is None
                } else if idx < 30 {
                    r == Some(idx as usize)
                } else {
                    r is None
                }
            }),
    {
        if folder_index >= self.num_folders() {
            return None;
        }
        let navi = self.save.buf[0x1b81] as usize;
        let off = self.save.navi_stats_offset(navi);
        let idx = self.save.buf[off + 0x2e + folder_index];
        if idx >= 30 {
            None
        } else {
            Some(idx as usize)
        }
    }

    /// The folder's pair of tag chip slots, if both are set.
    pub fn tag_chip_indexes(&self, folder_index: usize) -> (r: Option<[usize; 2]>)
        requires
            self.save.wf(),
            folder_index < 30,
        ensures
            ({
                let navi = self.save.buf@[0x1b81] as int;
                let base = self.save.spec_navi_stats_offset(navi) + 0x56 + folder_index * 2;
                let idx1 = self.save.buf@[base];
                let idx2 = self.save.buf@[base + 1];
                if folder_index >= self.save.buf@[0x1c09] || idx1 == 0xff || idx2 == 0xff {
                    r is None
                } else {
                    r == Some([idx1 as usize, idx2 as usize])
                }
            }),
    {
        if folder_index >= self.num_folders() {
            return None;
        }
        let navi = self.save.buf[0x1b81] as usize;
        let off = self.save.navi_stats_offset(navi);
        let idx1 = self.save.buf[off + 0x56 + folder_index * 2];
        let idx2 = self.save.buf[off + 0x56 + folder_index * 2 + 1];
        if idx1 == 0xff || idx2 == 0xff {
            None
        } else {
            Some([idx1 as usize, idx2 as usize])
        }
    }

    /// One slot of one folder, decoded from its packed chip word.
    pub fn chip(&self, folder_index: usize, chip_index: usize) -> (r: Option<Chip>)
        requires
            self.save.wf(),
        ensures
            ({
                let off = 0x2178 + folder_index * 60 + chip_index * 2;
                let raw = le16(self.save.buf@.subrange(off as int, off + 2));
                if folder_index >= self.save.buf@[0x1c09] || chip_index >= 30 || raw >> 9 >= 27 {
                    r is None
                } else {
                    r == Some(
                        Chip {
                            id: (raw & 0x1ff) as usize,
                            code: chip_code_char((raw >> 9) as int),
                        },
                    )
                }
            }),
    {
        if folder_index >= self.num_folders() || chip_index >= 30 {
            return None;
        }
        let off = 0x2178 + folder_index * 60 + chip_index * 2;
        let raw = read_u16_le(self.save.buf.as_slice(), off);
        decode_chip(raw)
    }

    /// How many of a chip variant sit in the pack.
    pub fn pack_count(&self, id: usize, variant: usize) -> (r: Option<usize>)
        requires
            self.save.wf(),
            id < NUM_CHIPS,
            variant < 12,
        ensures
            r == Some(self.save.buf@[0x2230 + id * 12 + variant] as usize),
    {
        Some(self.save.buf[0x2230 + id * 12 + variant] as usize)
    }
}

/// Read-only access to the installed patch cards.
pub struct PatchCard56sView<'a> {
    pub save: &'a Save,
}

impl<'a> PatchCard56sView<'a> {
    pub fn count(&self) -> (r: usize)
        requires
            self.save.wf(),
        ensures
            r == self.save.buf@[0x65f0],
    {
        self.save.buf[0x65f0] as usize
    }

    /// The card in a slot: the low bits are the id, the top bit clear means
    /// enabled.
    pub fn patch_card(&self, slot: usize) -> (r: Option<PatchCard>)
        requires
            self.save.wf(),
        ensures
            ({
                let raw = self.save.buf@[0x6620 + slot];
                if slot >= self.save.buf@[0x65f0] || slot >= 240 {
                    r is None
                } else {
                    r == Some(
                        PatchCard { id: (raw & 0x7f) as usize, enabled: raw >> 7 == 0 },
                    )
                }
            }),
    {
        if slot >= self.count() || slot >= 240 {
            return None;
        }
        let raw = self.save.buf[0x6620 + slot];
        Some(PatchCard { id: (raw & 0x7f) as usize, enabled: raw >> 7 == 0 })
    }
}

/// Write access to the installed patch cards.
pub struct PatchCard56sViewMut<'a> {
    pub save: &'a mut Save,
}

impl<'a> PatchCard56sViewMut<'a> {
    pub fn set_count(&mut self, count: usize)
        requires
            old(self).save.wf(),
            count <= 255,
        ensures
            final(self).save.wf(),
            final(self).save.game_info == old(self).save.game_info,
            final(self).save.buf@ == old(self).save.buf@.update(0x65f0, count as u8),
    {
        self.save.buf[0x65f0] = count as u8;
    }

    /// Writes a card into a slot below the stored count; the enabled flag
    /// lands in the top bit, inverted.
    pub fn set_patch_card(&mut self, slot: usize, patch_card: PatchCard) -> (r: bool)
        requires
            old(self).save.wf(),
            patch_card.id < 0x80,
        ensures
            final(self).save.wf(),
            final(self).save.game_info == old(self).save.game_info,
            r <==> (slot < old(self).save.buf@[0x65f0] && slot < 240),
            !r ==> final(self).save.buf@ == old(self).save.buf@,
            r ==> final(self).save.buf@ == old(self).save.buf@.update(
                0x6620 + slot,
                (patch_card.id + (if patch_card.enabled {
                    0int
                } else {
                    128int
                })) as u8,
            ),
    {
        let count = self.save.buf[0x65f0] as usize;
        if slot >= count || slot >= 240 {
            return false;
        }
        let flag: u8 = if patch_card.enabled {
            0
        } else {
            128
        };
        self.save.buf[0x6620 + slot] = patch_card.id as u8 + flag;
        true
    }
}

/// Read-only access to the navicust grid.
pub struct NavicustView<'a> {
    pub save: &'a Save,
}

impl<'a> NavicustView<'a> {
    pub fn width(&self) -> (r: usize)
        ensures
            r == 7,
    {
        7
    }

    pub fn height(&self) -> (r: usize)
        ensures
            r == 7,
    {
        7
    }

    pub fn count(&self) -> (r: usize)
        ensures
            r == 25,
    {
        25
    }

    /// Where the installed parts live: region-dependent.
    pub open spec fn spec_ncp_offset(self) -> int {
        if self.save.game_info.region == Region::JP {
            0x4150
        } else {
            0x4190
        }
    }

    /// Where the composed grid lives: region-dependent.
    pub open spec fn spec_composed_offset(self) -> int {
        if self.save.game_info.region == Region::JP {
            0x410cint
        } else {
            0x414cint
        }
    }

    /// The composed grid: one optional installed-part index per cell, a zero
    /// byte meaning an empty cell.
    pub fn precomposed(&self) -> (r: crate::save::ComposedNavicust)
        requires
            self.save.wf(),
        ensures
            r.width == 7,
            r.height == 7,
            r.cells@.len() == 49,
            forall|i: int|
                0 <= i < 49 ==> r.cells@[i] == (if self.save.buf@[self.spec_composed_offset() + i]
                    == 0 {
                    None::<usize>
                } else {
                    Some((self.save.buf@[self.spec_composed_offset() + i] - 1) as usize)
                }),
    {
        let offset: usize = match self.save.game_info.region {
            Region::JP => 0x410c,
            Region::US => 0x414c,
        };
        let mut cells: Vec<Option<usize>> = Vec::new();
        let mut i: usize = 0;
        while i < 49
            invariant
                i <= 49,
                self.save.wf(),
                offset == self.spec_composed_offset(),
                cells@.len() == i,
                forall|k: int|
                    0 <= k < i ==> cells@[k] == (if self.save.buf@[offset + k] == 0 {
                        None::<usize>
                    } else {
                        Some((self.save.buf@[offset + k] - 1) as usize)
                    }),
            decreases 49 - i,
        {
            let v = self.save.buf[offset + i];
            if v == 0 {
                cells.push(None);
            } else {
                cells.push(Some((v - 1) as usize));
            }
            i = i + 1;
        }
        crate::save::ComposedNavicust { width: 7, height: 7, cells }
    }

    /// The part installed in slot `i`, decoded from its eight raw bytes.
    pub fn navicust_part(&self, i: usize) -> (r: Option<NavicustPart>)
        requires
            self.save.wf(),
        ensures
            ({
                let off = self.spec_ncp_offset() + i * 8;
                let raw = self.save.buf@[off];
                if i >= 25 || raw == 0 {
                    r is None
                } else {
                    r == Some(
                        NavicustPart {
                            id: (raw / 4) as usize,
                            variant: (raw % 4) as usize,
                            col: self.save.buf@[off + 3],
                            row: self.save.buf@[off + 4],
                            rot: self.save.buf@[off + 5],
                            compressed: self.save.buf@[off + 6] != 0,
                        },
                    )
                }
            }),
    {
        if i >= 25 {
            return None;
        }
        let ncp_offset: usize = match self.save.game_info.region {
            Region::JP => 0x4150,
            Region::US => 0x4190,
        };
        let off = ncp_offset + i * 8;
        let raw = self.save.buf[off];
        if raw == 0 {
            return None;
        }
        Some(
            NavicustPart {
                id: (raw / 4) as usize,
                variant: (raw % 4) as usize,
                col: self.save.buf[off + 3],
                row: self.save.buf[off + 4],
                rot: self.save.buf[off + 5],
                compressed: self.save.buf[off + 6] != 0,
            },
        )
    }
}

/// Read-only access to the selected navi.
pub struct NaviView<'a> {
    pub save: &'a Save,
}

impl<'a> NaviView<'a> {
    pub fn navi(&self) -> (r: usize)
        requires
            self.save.wf(),
        ensures
            r == self.save.buf@[0x1b81],
    {
        self.save.buf[0x1b81] as usize
    }
}

/// Write access to the chip folders.
pub struct ChipsViewMut<'a> {
    pub save: &'a mut Save,
}

impl<'a> ChipsViewMut<'a> {
    /// Selects the equipped folder of the selected navi.
    pub fn set_equipped_folder(&mut self, folder_index: usize) -> (r: bool)
        requires
            old(self).save.wf(),
        ensures
            final(self).save.wf(),
            final(self).save.game_info == old(self).save.game_info,
            r <==> folder_index < old(self).save.buf@[0x1c09],
            !r ==> final(self).save.buf@ == old(self).save.buf@,
            r ==> ({
                let navi = old(self).save.buf@[0x1b81] as int;
                final(self).save.buf@ == old(self).save.buf@.update(
                    old(self).save.spec_navi_stats_offset(navi) + 0x2d,
                    folder_index as u8,
                )
            }),
    {
        let folders = self.save.buf[0x1c09] as usize;
        if folder_index >= folders {
            return false;
        }
        let navi = self.save.buf[0x1b81] as usize;
        let off = self.save.navi_stats_offset(navi);
        self.save.buf[off + 0x2d] = folder_index as u8;
        true
    }

    /// Writes one folder slot's packed chip word.
    pub fn set_chip(&mut self, folder_index: usize, chip_index: usize, chip: Chip) -> (r: bool)
        requires
            old(self).save.wf(),
            chip.id < 0x200,
        ensures
            final(self).save.wf(),
            final(self).save.game_info == old(self).save.game_info,
            !r ==> final(self).save.buf@ == old(self).save.buf@,
            r ==> ({
                let off = 0x2178 + folder_index * 60 + chip_index * 2;
                exists|variant: int|
                    {
                        &&& 0 <= variant < 27
                        &&& chip_code_char(variant) == chip.code
                        &&& final(self).save.buf@ == old(self).save.buf@.update(
                            off as int,
                            ((chip.id as u16 | (variant as u16) << 9) & 0xff) as u8,
                        ).update(off + 1, (((chip.id as u16 | (variant as u16) << 9)) >> 8) as u8)
                    }
            }),
    {
        let folders = self.save.buf[0x1c09] as usize;
        if folder_index >= folders || chip_index >= 30 {
            return false;
        }
        let variant = match crate::save::chip_code_index(chip.code) {
            Some(v) => v,
            None => {
                return false;
            },
        };
        let off = 0x2178 + folder_index * 60 + chip_index * 2;
        let word: u16 = chip.id as u16 | (variant as u16) << 9;
        self.save.buf[off] = (word & 0xff) as u8;
        self.save.buf[off + 1] = (word >> 8) as u8;
        proof {
            assert(0 <= variant < 27 && chip_code_char(variant as int) == chip.code);
        }
        true
    }

    /// Sets or clears a folder's pair of tag chips.
    pub fn set_tag_chip_indexes(
        &mut self,
        folder_index: usize,
        chip_indexes: Option<[usize; 2]>,
    ) -> (r: bool)
        requires
            old(self).save.wf(),
        ensures
            final(self).save.wf(),
            final(self).save.game_info == old(self).save.game_info,
            !r ==> final(self).save.buf@ == old(self).save.buf@,
    {
        let folders = self.save.buf[0x1c09] as usize;
        if folder_index >= folders {
            return false;
        }
        let (idx1, idx2): (usize, usize) = match chip_indexes {
            Some(pair) => {
                let i1 = pair[0];
                let i2 = pair[1];
                if i1 >= 30 || i2 >= 30 {
                    return false;
                }
                (i1, i2)
            },
            None => (0xff, 0xff),
        };
        let navi = self.save.buf[0x1b81] as usize;
        let off = self.save.navi_stats_offset(navi);
        self.save.buf[off + 0x56 + folder_index * 2] = idx1 as u8;
        self.save.buf[off + 0x56 + folder_index * 2 + 1] = idx2 as u8;
        true
    }

    /// Marks a folder slot as the regular chip.
    pub fn set_regular_chip_index(&mut self, folder_index: usize, chip_index: usize) -> (r: bool)
        requires
            old(self).save.wf(),
        ensures
            final(self).save.wf(),
            final(self).save.game_info == old(self).save.game_info,
            r <==> (folder_index < old(self).save.buf@[0x1c09] && chip_index < 30),
            !r ==> final(self).save.buf@ == old(self).save.buf@,
            r ==> ({
                let navi = old(self).save.buf@[0x1b81] as int;
                final(self).save.buf@ == old(self).save.buf@.update(
                    old(self).save.spec_navi_stats_offset(navi) + 0x2e + folder_index,
                    chip_index as u8,
                )
            }),
    {
        let folders = self.save.buf[0x1c09] as usize;
        if folder_index >= folders || chip_index >= 30 {
            return false;
        }
        let navi = self.save.buf[0x1b81] as usize;
        let off = self.save.navi_stats_offset(navi);
        self.save.buf[off + 0x2e + folder_index] = chip_index as u8;
        true
    }

    /// Stores a pack count for one chip variant.
    pub fn set_pack_count(&mut self, id: usize, variant: usize, count: usize) -> (r: bool)
        requires
            old(self).save.wf(),
            id < NUM_CHIPS,
            variant < 12,
            count <= 255,
        ensures
            final(self).save.wf(),
            final(self).save.game_info == old(self).save.game_info,
            r,
            final(self).save.buf@ == old(self).save.buf@.update(
                0x2230 + id * 12 + variant,
                count as u8,
            ),
    {
        self.save.buf[0x2230 + id * 12 + variant] = count as u8;
        true
    }
}

} // verus!
